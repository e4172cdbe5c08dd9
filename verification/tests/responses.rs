//! The response ingestion engine and the statistics aggregator.

use questionnaire_core::error::AppError;
use questionnaire_core::user::CreateUserRequest;
use questionnaire_core::questionnaire::{CreateQuestionnaireRequest, QuestionRequest};
use questionnaire_core::response::{QuestionAnswer, SubmitResponseRequest};
use questionnaire_core::store::Store;

fn definition_with_radio(labels: &[&str]) -> CreateQuestionnaireRequest {
    CreateQuestionnaireRequest {
        title: "poll".to_string(),
        description: "a poll".to_string(),
        is_public: true,
        questions: vec![
            QuestionRequest {
                id: None,
                title: "free text".to_string(),
                question_type: "text".to_string(),
                required: false,
                options: Vec::new(),
            },
            QuestionRequest {
                id: None,
                title: "pick one".to_string(),
                question_type: "radio".to_string(),
                required: true,
                options: labels.iter().map(|s| s.to_string()).collect(),
            },
        ],
    }
}

fn text_answer(question_id: u64, value: Option<&str>) -> QuestionAnswer {
    QuestionAnswer {
        question_id,
        answer_type: "text".to_string(),
        text_value: value.map(|s| s.to_string()),
        option_ids: None,
        option_values: None,
    }
}

fn label_answer(question_id: u64, labels: &[&str]) -> QuestionAnswer {
    QuestionAnswer {
        question_id,
        answer_type: "option".to_string(),
        text_value: None,
        option_ids: None,
        option_values: Some(labels.iter().map(|s| s.to_string()).collect()),
    }
}

fn id_answer(question_id: u64, ids: &[u64]) -> QuestionAnswer {
    QuestionAnswer {
        question_id,
        answer_type: "options".to_string(),
        text_value: None,
        option_ids: Some(ids.to_vec()),
        option_values: None,
    }
}

#[test]
fn submit_to_absent_questionnaire_is_not_found() {
    let mut store = Store::new();
    let req = SubmitResponseRequest { questionnaire_id: 5, answers: vec![] };
    assert_eq!(store.submit_response(None, &req, 0).unwrap_err(), AppError::NotFound);
}

#[test]
fn text_answer_without_value_stores_answer_row_only() {
    let mut store = Store::new();
    let q = store.create_questionnaire(1, &definition_with_radio(&["a"]), 0).unwrap();
    let text_id = q.questions[0].id;
    let req = SubmitResponseRequest {
        questionnaire_id: q.id,
        answers: vec![text_answer(text_id, None)],
    };
    store.submit_response(None, &req, 1).unwrap();
    assert_eq!(store.question_responses.len(), 1);
    assert_eq!(store.text_responses.len(), 0);
}

#[test]
fn selections_by_label_and_by_id_store_identical_rows() {
    let mut store = Store::new();
    let q = store.create_questionnaire(1, &definition_with_radio(&["red", "blue"]), 0).unwrap();
    let choice_id = q.questions[1].id;
    let got = store.get_questionnaire(q.id).unwrap();
    assert_eq!(got.questions[1].options, vec!["red".to_string(), "blue".to_string()]);
    // The option rows were issued consecutively after creation.
    let red_id = store.question_options.iter().find(|o| o.option_text == "red").unwrap().id;
    let blue_id = store.question_options.iter().find(|o| o.option_text == "blue").unwrap().id;

    let by_label = SubmitResponseRequest {
        questionnaire_id: q.id,
        answers: vec![label_answer(choice_id, &["blue", "red"])],
    };
    store.submit_response(None, &by_label, 1).unwrap();
    let label_rows: Vec<u64> = store.option_responses.iter().map(|r| r.option_id).collect();

    let by_id = SubmitResponseRequest {
        questionnaire_id: q.id,
        answers: vec![id_answer(choice_id, &[blue_id, red_id])],
    };
    store.submit_response(None, &by_id, 2).unwrap();
    let id_rows: Vec<u64> = store.option_responses.iter().skip(label_rows.len()).map(|r| r.option_id).collect();

    assert_eq!(label_rows, vec![blue_id, red_id]);
    assert_eq!(id_rows, label_rows);
}

#[test]
fn unknown_label_is_skipped_silently() {
    let mut store = Store::new();
    let q = store.create_questionnaire(1, &definition_with_radio(&["red"]), 0).unwrap();
    let choice_id = q.questions[1].id;
    let req = SubmitResponseRequest {
        questionnaire_id: q.id,
        answers: vec![label_answer(choice_id, &["no such label", "red"])],
    };
    store.submit_response(None, &req, 1).unwrap();
    assert_eq!(store.option_responses.len(), 1);
}

#[test]
fn unsupported_answer_kind_rolls_back_everything() {
    let mut store = Store::new();
    let q = store.create_questionnaire(1, &definition_with_radio(&["a"]), 0).unwrap();
    let text_id = q.questions[0].id;
    let bad = QuestionAnswer {
        question_id: text_id,
        answer_type: "ranking".to_string(),
        text_value: None,
        option_ids: None,
        option_values: None,
    };
    let req = SubmitResponseRequest {
        questionnaire_id: q.id,
        answers: vec![text_answer(text_id, Some("kept so far")), bad],
    };
    assert_eq!(store.submit_response(None, &req, 1).unwrap_err(), AppError::Validation);
    // Everything written in the submission was rolled back, the header too.
    assert_eq!(store.questionnaire_responses.len(), 0);
    assert_eq!(store.question_responses.len(), 0);
    assert_eq!(store.text_responses.len(), 0);
    assert_eq!(store.option_responses.len(), 0);
}

#[test]
fn identified_respondent_cannot_submit_twice_but_anonymous_can() {
    let mut store = Store::new();
    let q = store.create_questionnaire(1, &definition_with_radio(&["a"]), 0).unwrap();
    let req = SubmitResponseRequest { questionnaire_id: q.id, answers: vec![] };
    store.submit_response(Some(42), &req, 1).unwrap();
    assert_eq!(store.submit_response(Some(42), &req, 2).unwrap_err(), AppError::Validation);
    // A different identity still may.
    store.submit_response(Some(43), &req, 3).unwrap();
    // Anonymous submissions repeat without limit.
    store.submit_response(None, &req, 4).unwrap();
    store.submit_response(None, &req, 5).unwrap();
    assert_eq!(store.questionnaire_responses.len(), 4);
}

#[test]
fn statistics_report_counts_and_percentages() {
    let mut store = Store::new();
    let q = store.create_questionnaire(1, &definition_with_radio(&["A", "B", "C"]), 0).unwrap();
    let text_id = q.questions[0].id;
    let choice_id = q.questions[1].id;
    for (i, label) in ["A", "A", "A", "B"].iter().enumerate() {
        let req = SubmitResponseRequest {
            questionnaire_id: q.id,
            answers: vec![
                text_answer(text_id, Some(&format!("comment {}", i))),
                label_answer(choice_id, &[label]),
            ],
        };
        store.submit_response(None, &req, i as i64).unwrap();
    }
    let stats = store.get_questionnaire_statistics(1, q.id).unwrap();
    assert_eq!(stats.response_count, 4);
    assert_eq!(stats.questions.len(), 2);

    let text_stat = &stats.questions[0];
    assert_eq!(text_stat.question_type, "text");
    let texts = text_stat.text_responses.as_ref().unwrap();
    assert_eq!(texts.len(), 4);
    assert_eq!(texts[0], "comment 0");
    assert_eq!(texts[3], "comment 3");
    assert!(text_stat.option_counts.is_none());

    let choice_stat = &stats.questions[1];
    assert!(choice_stat.text_responses.is_none());
    let counts = choice_stat.option_counts.as_ref().unwrap();
    assert_eq!(counts.len(), 3);
    assert_eq!(counts[0].option_text, "A");
    assert_eq!(counts[0].count, 3);
    assert_eq!(counts[0].percentage_hundredths, 7500);
    assert_eq!(counts[1].count, 1);
    assert_eq!(counts[1].percentage_hundredths, 2500);
    assert_eq!(counts[2].count, 0);
    assert_eq!(counts[2].percentage_hundredths, 0);
    // 75.0, 25.0 and 0.0 percent, exactly.
    assert_eq!(counts[0].percentage_hundredths as f64 / 100.0, 75.0);
    assert_eq!(counts[1].percentage_hundredths as f64 / 100.0, 25.0);
    assert_eq!(counts[2].percentage_hundredths as f64 / 100.0, 0.0);
}

#[test]
fn statistics_with_no_selections_report_zero_for_every_option() {
    let mut store = Store::new();
    let q = store.create_questionnaire(1, &definition_with_radio(&["A", "B"]), 0).unwrap();
    let stats = store.get_questionnaire_statistics(1, q.id).unwrap();
    let counts = stats.questions[1].option_counts.as_ref().unwrap();
    assert_eq!(counts.len(), 2);
    for c in counts.iter() {
        assert_eq!(c.count, 0);
        assert_eq!(c.percentage_hundredths, 0);
    }
}

#[test]
fn statistics_and_detail_guard_ownership_regardless_of_visibility() {
    let mut store = Store::new();
    // One public and one private questionnaire, same creator.
    let mut public_def = definition_with_radio(&["A"]);
    public_def.is_public = true;
    let public_q = store.create_questionnaire(1, &public_def, 0).unwrap();
    let mut private_def = definition_with_radio(&["A"]);
    private_def.is_public = false;
    let private_q = store.create_questionnaire(1, &private_def, 0).unwrap();
    let req = SubmitResponseRequest { questionnaire_id: public_q.id, answers: vec![] };
    let submitted = store.submit_response(Some(2), &req, 1).unwrap();

    assert_eq!(store.get_questionnaire_statistics(2, public_q.id).unwrap_err(), AppError::Permission);
    assert_eq!(store.get_questionnaire_statistics(2, private_q.id).unwrap_err(), AppError::Permission);
    assert_eq!(store.get_response_detail(2, submitted.id).unwrap_err(), AppError::Permission);
    assert!(store.get_questionnaire_statistics(1, public_q.id).is_ok());
    assert!(store.get_response_detail(1, submitted.id).is_ok());
    assert_eq!(store.get_questionnaire_statistics(1, 999).unwrap_err(), AppError::NotFound);
    assert_eq!(store.get_response_detail(1, 999).unwrap_err(), AppError::NotFound);
}

#[test]
fn response_detail_surfaces_every_selected_label() {
    let mut store = Store::new();
    let def = CreateQuestionnaireRequest {
        title: "checkbox poll".to_string(),
        description: String::new(),
        is_public: true,
        questions: vec![QuestionRequest {
            id: None,
            title: "pick many".to_string(),
            question_type: "checkbox".to_string(),
            required: false,
            options: vec!["one".to_string(), "two".to_string(), "three".to_string()],
        }],
    };
    let q = store.create_questionnaire(1, &def, 0).unwrap();
    let choice_id = q.questions[0].id;
    let mut answer = label_answer(choice_id, &["one", "three"]);
    answer.answer_type = "options".to_string();
    let req = SubmitResponseRequest { questionnaire_id: q.id, answers: vec![answer] };
    let submitted = store.submit_response(None, &req, 7).unwrap();

    let detail = store.get_response_detail(1, submitted.id).unwrap();
    assert_eq!(detail.questionnaire_title, "checkbox poll");
    assert_eq!(detail.respondent, None);
    assert_eq!(detail.answers.len(), 1);
    let a = &detail.answers[0];
    assert_eq!(a.question_title, "pick many");
    assert_eq!(a.text_value, None);
    assert_eq!(
        a.selected_options.as_ref().unwrap(),
        &vec!["one".to_string(), "three".to_string()]
    );
}

#[test]
fn response_detail_shows_text_values() {
    let mut store = Store::new();
    let q = store.create_questionnaire(1, &definition_with_radio(&["A"]), 0).unwrap();
    let text_id = q.questions[0].id;
    let req = SubmitResponseRequest {
        questionnaire_id: q.id,
        answers: vec![text_answer(text_id, Some("a thought"))],
    };
    let submitted = store.submit_response(None, &req, 3).unwrap();
    let detail = store.get_response_detail(1, submitted.id).unwrap();
    assert_eq!(detail.answers.len(), 1);
    assert_eq!(detail.answers[0].text_value.as_deref(), Some("a thought"));
    assert_eq!(detail.answers[0].selected_options, None);
}

#[test]
fn response_listing_is_newest_first_with_usernames() {
    let mut store = Store::new();
    let user = store
        .create_user(
            &CreateUserRequest {
                username: "erin".to_string(),
                nickname: "Erin".to_string(),
                password: "secret-pass".to_string(),
                email: None,
            },
            0,
        )
        .unwrap();
    let q = store.create_questionnaire(1, &definition_with_radio(&["A"]), 0).unwrap();
    let req = SubmitResponseRequest { questionnaire_id: q.id, answers: vec![] };
    store.submit_response(None, &req, 1).unwrap();
    store.submit_response(Some(user.id), &req, 2).unwrap();

    let items = store.get_questionnaire_responses(1, q.id, 1, 10).unwrap();
    assert_eq!(items.len(), 2);
    // Newest first: the identified one came last.
    assert_eq!(items[0].respondent.as_deref(), Some("erin"));
    assert_eq!(items[1].respondent, None);
    assert_eq!(
        store.get_questionnaire_responses(2, q.id, 1, 10).unwrap_err(),
        AppError::Permission
    );
}
