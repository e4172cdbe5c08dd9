//! Responses: the stored rows for submissions and their answer values, the
//! submission request shape, and the statistics and detail views.

use vstd::prelude::*;

verus! {

/// A stored response header: one per submission. `respondent_id` is `None`
/// for an anonymous submission.
#[derive(Debug)]
pub struct QuestionnaireResponse {
    pub id: u64,
    pub questionnaire_id: u64,
    pub respondent_id: Option<u64>,
    pub created_at: i64,
}

impl Clone for QuestionnaireResponse {
    fn clone(&self) -> (r: Self)
        ensures
            r == *self,
    {
        QuestionnaireResponse {
            id: self.id,
            questionnaire_id: self.questionnaire_id,
            respondent_id: match self.respondent_id {
                Some(v) => Some(v),
                None => None,
            },
            created_at: self.created_at,
        }
    }
}

/// A stored per-question answer row: one per answered question in a
/// submission.
#[derive(Debug)]
pub struct QuestionResponse {
    pub id: u64,
    pub questionnaire_response_id: u64,
    pub question_id: u64,
    pub created_at: i64,
}

impl Clone for QuestionResponse {
    fn clone(&self) -> (r: Self)
        ensures
            r == *self,
    {
        QuestionResponse {
            id: self.id,
            questionnaire_response_id: self.questionnaire_response_id,
            question_id: self.question_id,
            created_at: self.created_at,
        }
    }
}

/// A stored text answer value: at most one per answer row.
#[derive(Debug)]
pub struct TextResponse {
    pub id: u64,
    pub question_response_id: u64,
    pub text_value: String,
}

impl Clone for TextResponse {
    fn clone(&self) -> (r: Self)
        ensures
            r == *self,
    {
        TextResponse {
            id: self.id,
            question_response_id: self.question_response_id,
            text_value: self.text_value.clone(),
        }
    }
}

/// A stored option selection: zero or more per answer row.
#[derive(Debug)]
pub struct OptionResponse {
    pub id: u64,
    pub question_response_id: u64,
    pub option_id: u64,
}

impl Clone for OptionResponse {
    fn clone(&self) -> (r: Self)
        ensures
            r == *self,
    {
        OptionResponse {
            id: self.id,
            question_response_id: self.question_response_id,
            option_id: self.option_id,
        }
    }
}

/// A submission: one respondent's answers to one questionnaire.
#[derive(Debug)]
pub struct SubmitResponseRequest {
    pub questionnaire_id: u64,
    pub answers: Vec<QuestionAnswer>,
}

/// One answer of a submission. `answer_type` declares the payload shape:
/// "text" carries `text_value`; "option" and "options" carry either explicit
/// option ids or option label strings. Any other declared kind makes the
/// whole submission fail.
#[derive(Debug)]
pub struct QuestionAnswer {
    pub question_id: u64,
    pub answer_type: String,
    pub text_value: Option<String>,
    pub option_ids: Option<Vec<u64>>,
    pub option_values: Option<Vec<String>>,
}

/// The identifier and time of a stored submission.
#[derive(Debug)]
pub struct SubmitResponseResponse {
    pub id: u64,
    pub questionnaire_id: u64,
    pub success: bool,
    pub created_at: i64,
}

/// Aggregated statistics of one questionnaire.
#[derive(Debug)]
pub struct QuestionnaireStatistics {
    pub questionnaire_id: u64,
    pub title: String,
    pub response_count: u64,
    pub questions: Vec<QuestionStatistics>,
}

/// Statistics of one question: a raw listing of text values for a text
/// question, or per-option counts for a choice question.
#[derive(Debug)]
pub struct QuestionStatistics {
    pub question_id: u64,
    pub title: String,
    pub question_type: String,
    pub text_responses: Option<Vec<String>>,
    pub option_counts: Option<Vec<OptionCount>>,
}

/// The selection count of one option. `percentage_hundredths` is the share
/// of the question's selections in hundredths of a percent (7500 is 75%),
/// and 0 for every option when the question has no selections at all.
#[derive(Debug)]
pub struct OptionCount {
    pub option_id: u64,
    pub option_text: String,
    pub count: u64,
    pub percentage_hundredths: u64,
}

/// One row of a response listing; `respondent` is the respondent's username
/// where the submission was identified and the user still exists.
#[derive(Debug)]
pub struct ResponseListItem {
    pub id: u64,
    pub questionnaire_id: u64,
    pub respondent: Option<String>,
    pub created_at: i64,
}

/// The full detail of one submission.
#[derive(Debug)]
pub struct ResponseDetails {
    pub id: u64,
    pub questionnaire_id: u64,
    pub questionnaire_title: String,
    pub respondent: Option<String>,
    pub created_at: i64,
    pub answers: Vec<AnswerDetail>,
}

/// One answered question inside a response detail: the question's title and
/// type, the text value if one was recorded, and the labels of every
/// selected option.
#[derive(Debug)]
pub struct AnswerDetail {
    pub question_id: u64,
    pub question_title: String,
    pub question_type: String,
    pub text_value: Option<String>,
    pub selected_options: Option<Vec<String>>,
}

} // verus!
