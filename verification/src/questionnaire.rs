//! Questionnaire definitions: the stored rows for questionnaires, questions
//! and options, and the request/response shapes of the definition manager.

use vstd::prelude::*;
use vstd::string::StrSliceExecFns;
use crate::error::AppError;
use crate::text::string_eq_lit;

verus! {

/// A stored questionnaire row.
#[derive(Debug)]
pub struct Questionnaire {
    pub id: u64,
    pub title: String,
    pub description: String,
    pub is_public: bool,
    pub creator_id: u64,
    pub created_at: i64,
    pub updated_at: i64,
}

impl Clone for Questionnaire {
    fn clone(&self) -> (r: Self)
        ensures
            r == *self,
    {
        Questionnaire {
            id: self.id,
            title: self.title.clone(),
            description: self.description.clone(),
            is_public: self.is_public,
            creator_id: self.creator_id,
            created_at: self.created_at,
            updated_at: self.updated_at,
        }
    }
}

/// A stored question row. `display_order` is 1-based and contiguous within
/// its questionnaire.
#[derive(Debug)]
pub struct Question {
    pub id: u64,
    pub questionnaire_id: u64,
    pub title: String,
    pub question_type: String,
    pub required: bool,
    pub display_order: u64,
    pub created_at: i64,
    pub updated_at: i64,
}

impl Clone for Question {
    fn clone(&self) -> (r: Self)
        ensures
            r == *self,
    {
        Question {
            id: self.id,
            questionnaire_id: self.questionnaire_id,
            title: self.title.clone(),
            question_type: self.question_type.clone(),
            required: self.required,
            display_order: self.display_order,
            created_at: self.created_at,
            updated_at: self.updated_at,
        }
    }
}

/// A stored option row of a choice-type question. `display_order` is 1-based
/// per question.
#[derive(Debug)]
pub struct QuestionOption {
    pub id: u64,
    pub question_id: u64,
    pub option_text: String,
    pub display_order: u64,
    pub created_at: i64,
    pub updated_at: i64,
}

impl Clone for QuestionOption {
    fn clone(&self) -> (r: Self)
        ensures
            r == *self,
    {
        QuestionOption {
            id: self.id,
            question_id: self.question_id,
            option_text: self.option_text.clone(),
            display_order: self.display_order,
            created_at: self.created_at,
            updated_at: self.updated_at,
        }
    }
}

/// The question types with options: single choice and multiple choice.
pub open spec fn is_choice_type(t: Seq<char>) -> bool {
    t == "radio"@ || t == "checkbox"@
}

/// Whether a question type string names a choice-type question.
pub fn is_choice(t: &String) -> (r: bool)
    ensures
        r == is_choice_type(t@),
{
    string_eq_lit(t, "radio") || string_eq_lit(t, "checkbox")
}

/// The input for creating a questionnaire, or for rewriting one whole.
#[derive(Debug)]
pub struct CreateQuestionnaireRequest {
    pub title: String,
    pub description: String,
    pub is_public: bool,
    pub questions: Vec<QuestionRequest>,
}

/// One requested question. `options` matters only for choice-type questions;
/// a stored question of any other type owns no options.
#[derive(Debug)]
pub struct QuestionRequest {
    pub id: Option<u64>,
    pub title: String,
    pub question_type: String,
    pub required: bool,
    pub options: Vec<String>,
}

impl CreateQuestionnaireRequest {
    /// The field constraints of a definition request: a non-empty title of
    /// at most 100 characters and a description of at most 1000.
    pub open spec fn valid(self) -> bool {
        1 <= self.title@.len() <= 100 && self.description@.len() <= 1000
    }

    pub fn validate(&self) -> (r: Result<(), AppError>)
        ensures
            r == if self.valid() {
                Ok::<(), AppError>(())
            } else {
                Err::<(), AppError>(AppError::Validation)
            },
    {
        let title_len = self.title.as_str().unicode_len();
        let desc_len = self.description.as_str().unicode_len();
        if 1 <= title_len && title_len <= 100 && desc_len <= 1000 {
            Ok(())
        } else {
            Err(AppError::Validation)
        }
    }
}

/// A hydrated questionnaire: the stored scalar fields with the full ordered
/// question tree.
#[derive(Debug)]
pub struct QuestionnaireResponse {
    pub id: u64,
    pub title: String,
    pub description: String,
    pub is_public: bool,
    pub creator_id: u64,
    pub created_at: i64,
    pub updated_at: i64,
    pub questions: Vec<QuestionResponse>,
}

/// One hydrated question with the labels of its options in display order.
#[derive(Debug)]
pub struct QuestionResponse {
    pub id: u64,
    pub title: String,
    pub question_type: String,
    pub required: bool,
    pub options: Vec<String>,
}

/// One row of a questionnaire listing.
#[derive(Debug)]
pub struct QuestionnaireListItem {
    pub id: u64,
    pub title: String,
    pub description: String,
    pub creator: String,
    pub created_at: i64,
    pub response_count: u64,
}

/// A page of a questionnaire listing. `total` counts every match, not just
/// this page.
#[derive(Debug)]
pub struct QuestionnaireListResponse {
    pub items: Vec<QuestionnaireListItem>,
    pub total: u64,
    pub page: u64,
    pub page_size: u64,
}

} // verus!
