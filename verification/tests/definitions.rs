//! The questionnaire definition manager: create, read, rewrite, delete,
//! listings and field validation.

use questionnaire_core::error::AppError;
use questionnaire_core::response::{QuestionAnswer, SubmitResponseRequest};
use questionnaire_core::user::CreateUserRequest;
use questionnaire_core::questionnaire::{CreateQuestionnaireRequest, QuestionRequest};
use questionnaire_core::store::Store;

fn text_question(title: &str) -> QuestionRequest {
    QuestionRequest {
        id: None,
        title: title.to_string(),
        question_type: "text".to_string(),
        required: false,
        options: Vec::new(),
    }
}

fn choice_question(title: &str, kind: &str, options: &[&str]) -> QuestionRequest {
    QuestionRequest {
        id: None,
        title: title.to_string(),
        question_type: kind.to_string(),
        required: true,
        options: options.iter().map(|s| s.to_string()).collect(),
    }
}

fn definition(title: &str, public: bool, questions: Vec<QuestionRequest>) -> CreateQuestionnaireRequest {
    CreateQuestionnaireRequest {
        title: title.to_string(),
        description: "about this questionnaire".to_string(),
        is_public: public,
        questions,
    }
}

#[test]
fn create_yields_contiguous_orders_and_option_rows() {
    let mut store = Store::new();
    let req = definition(
        "travel habits",
        true,
        vec![
            text_question("where did you go"),
            choice_question("how often", "radio", &["never", "sometimes", "often"]),
            choice_question("which seasons", "checkbox", &["spring", "summer"]),
        ],
    );
    let resp = store.create_questionnaire(7, &req, 1000).unwrap();
    assert_eq!(resp.creator_id, 7);
    assert_eq!(resp.questions.len(), 3);
    // N question rows, sum of k option rows.
    assert_eq!(store.questions.len(), 3);
    assert_eq!(store.question_options.len(), 5);
    // Display orders are 1..N in input order.
    for (i, q) in store.questions.iter().enumerate() {
        assert_eq!(q.display_order as usize, i + 1);
    }
    // Options of each choice question are 1..k in input order.
    let radio_id = resp.questions[1].id;
    let opts: Vec<_> = store
        .question_options
        .iter()
        .filter(|o| o.question_id == radio_id)
        .collect();
    assert_eq!(opts.len(), 3);
    assert_eq!(opts[0].option_text, "never");
    assert_eq!(opts[0].display_order, 1);
    assert_eq!(opts[2].option_text, "often");
    assert_eq!(opts[2].display_order, 3);
    // A text question owns no options.
    let text_id = resp.questions[0].id;
    assert!(store.question_options.iter().all(|o| o.question_id != text_id));
}

#[test]
fn get_questionnaire_hydrates_the_tree() {
    let mut store = Store::new();
    let req = definition(
        "lunch",
        false,
        vec![choice_question("dish", "radio", &["soup", "salad"]), text_question("notes")],
    );
    let created = store.create_questionnaire(3, &req, 5).unwrap();
    let got = store.get_questionnaire(created.id).unwrap();
    assert_eq!(got.title, "lunch");
    assert!(!got.is_public);
    assert_eq!(got.questions.len(), 2);
    assert_eq!(got.questions[0].options, vec!["soup".to_string(), "salad".to_string()]);
    assert_eq!(got.questions[1].options.len(), 0);
    assert_eq!(got.questions[1].question_type, "text");
}

#[test]
fn get_questionnaire_absent_is_not_found() {
    let store = Store::new();
    assert_eq!(store.get_questionnaire(42).unwrap_err(), AppError::NotFound);
}

#[test]
fn update_rewrites_the_whole_subtree_with_fresh_ids() {
    let mut store = Store::new();
    let created = store
        .create_questionnaire(1, &definition("v1", true, vec![choice_question("q", "radio", &["a", "b"])]), 10)
        .unwrap();
    let old_question_id = created.questions[0].id;
    let old_option_ids: Vec<u64> = store.question_options.iter().map(|o| o.id).collect();

    let updated = store
        .update_questionnaire(
            1,
            created.id,
            &definition("v2", false, vec![text_question("t"), choice_question("q2", "checkbox", &["x"])]),
            20,
        )
        .unwrap();
    assert_eq!(updated.title, "v2");
    assert_eq!(updated.questions.len(), 2);
    // No row of the prior subtree remains reachable by its old id.
    assert!(store.questions.iter().all(|q| q.id != old_question_id));
    for oid in &old_option_ids {
        assert!(store.question_options.iter().all(|o| o.id != *oid));
    }
    // The scalar row kept its id and creation time.
    let got = store.get_questionnaire(created.id).unwrap();
    assert_eq!(got.created_at, 10);
    assert_eq!(got.updated_at, 20);
    assert_eq!(got.title, "v2");
}

#[test]
fn update_checks_ownership_and_existence() {
    let mut store = Store::new();
    let created = store
        .create_questionnaire(1, &definition("mine", true, vec![]), 0)
        .unwrap();
    let req = definition("stolen", true, vec![]);
    assert_eq!(store.update_questionnaire(2, created.id, &req, 1).unwrap_err(), AppError::Permission);
    assert_eq!(store.update_questionnaire(1, 999, &req, 1).unwrap_err(), AppError::NotFound);
}

#[test]
fn delete_purges_all_seven_tables() {
    let mut store = Store::new();
    let created = store
        .create_questionnaire(
            1,
            &definition(
                "to be deleted",
                true,
                vec![text_question("t"), choice_question("c", "radio", &["a", "b"])],
            ),
            0,
        )
        .unwrap();
    let text_id = created.questions[0].id;
    let choice_id = created.questions[1].id;
    let submission = SubmitResponseRequest {
        questionnaire_id: created.id,
        answers: vec![
            QuestionAnswer {
                question_id: text_id,
                answer_type: "text".to_string(),
                text_value: Some("hello".to_string()),
                option_ids: None,
                option_values: None,
            },
            QuestionAnswer {
                question_id: choice_id,
                answer_type: "option".to_string(),
                text_value: None,
                option_ids: None,
                option_values: Some(vec!["a".to_string()]),
            },
        ],
    };
    store.submit_response(Some(9), &submission, 50).unwrap();
    assert_eq!(store.questionnaire_responses.len(), 1);
    assert_eq!(store.text_responses.len(), 1);
    assert_eq!(store.option_responses.len(), 1);

    assert_eq!(store.delete_questionnaire(2, created.id).unwrap_err(), AppError::Permission);
    store.delete_questionnaire(1, created.id).unwrap();
    assert_eq!(store.questionnaires.len(), 0);
    assert_eq!(store.questions.len(), 0);
    assert_eq!(store.question_options.len(), 0);
    assert_eq!(store.questionnaire_responses.len(), 0);
    assert_eq!(store.question_responses.len(), 0);
    assert_eq!(store.text_responses.len(), 0);
    assert_eq!(store.option_responses.len(), 0);
    assert_eq!(store.delete_questionnaire(1, created.id).unwrap_err(), AppError::NotFound);
}

#[test]
fn delete_leaves_other_questionnaires_alone() {
    let mut store = Store::new();
    let first = store
        .create_questionnaire(1, &definition("first", true, vec![text_question("a")]), 0)
        .unwrap();
    let second = store
        .create_questionnaire(1, &definition("second", true, vec![choice_question("b", "radio", &["x"])]), 1)
        .unwrap();
    store.delete_questionnaire(1, first.id).unwrap();
    assert_eq!(store.questionnaires.len(), 1);
    let got = store.get_questionnaire(second.id).unwrap();
    assert_eq!(got.title, "second");
    assert_eq!(got.questions.len(), 1);
}

#[test]
fn definition_validation_bounds_title_and_description() {
    let ok = definition("t", true, vec![]);
    assert!(ok.validate().is_ok());
    let empty_title = CreateQuestionnaireRequest {
        title: String::new(),
        description: "d".to_string(),
        is_public: true,
        questions: vec![],
    };
    assert_eq!(empty_title.validate().unwrap_err(), AppError::Validation);
    let long_title = CreateQuestionnaireRequest {
        title: "x".repeat(101),
        description: "d".to_string(),
        is_public: true,
        questions: vec![],
    };
    assert_eq!(long_title.validate().unwrap_err(), AppError::Validation);
    let max_title = CreateQuestionnaireRequest {
        title: "x".repeat(100),
        description: "y".repeat(1000),
        is_public: true,
        questions: vec![],
    };
    assert!(max_title.validate().is_ok());
    let long_description = CreateQuestionnaireRequest {
        title: "t".to_string(),
        description: "y".repeat(1001),
        is_public: true,
        questions: vec![],
    };
    assert_eq!(long_description.validate().unwrap_err(), AppError::Validation);
}

#[test]
fn public_listing_filters_searches_and_paginates() {
    let mut store = Store::new();
    let user = store
        .create_user(
            &CreateUserRequest {
                username: "carol".to_string(),
                nickname: "Carol".to_string(),
                password: "secret-pass".to_string(),
                email: None,
            },
            0,
        )
        .unwrap();
    store.create_questionnaire(user.id, &definition("apples and pears", true, vec![]), 1).unwrap();
    store.create_questionnaire(user.id, &definition("pears only", true, vec![]), 2).unwrap();
    store.create_questionnaire(user.id, &definition("hidden pears", false, vec![]), 3).unwrap();

    let all = store.get_public_questionnaires(None, 1, 10).unwrap();
    assert_eq!(all.total, 2);
    assert_eq!(all.items.len(), 2);
    // Newest first.
    assert_eq!(all.items[0].title, "pears only");
    assert_eq!(all.items[0].creator, "carol");

    let searched = store.get_public_questionnaires(Some("apples".to_string()), 1, 10).unwrap();
    assert_eq!(searched.total, 1);
    assert_eq!(searched.items[0].title, "apples and pears");

    // The private one never matches, even by its own words.
    let hidden = store.get_public_questionnaires(Some("hidden".to_string()), 1, 10).unwrap();
    assert_eq!(hidden.total, 0);

    let page2 = store.get_public_questionnaires(None, 2, 1).unwrap();
    assert_eq!(page2.items.len(), 1);
    assert_eq!(page2.items[0].title, "apples and pears");
}

#[test]
fn user_listing_counts_responses() {
    let mut store = Store::new();
    let user = store
        .create_user(
            &CreateUserRequest {
                username: "dave".to_string(),
                nickname: "Dave".to_string(),
                password: "secret-pass".to_string(),
                email: None,
            },
            0,
        )
        .unwrap();
    let q = store.create_questionnaire(user.id, &definition("mine", false, vec![]), 1).unwrap();
    store
        .submit_response(None, &SubmitResponseRequest { questionnaire_id: q.id, answers: vec![] }, 2)
        .unwrap();
    store
        .submit_response(None, &SubmitResponseRequest { questionnaire_id: q.id, answers: vec![] }, 3)
        .unwrap();
    let listing = store.get_user_questionnaires(user.id, 1, 10).unwrap();
    assert_eq!(listing.total, 1);
    assert_eq!(listing.items[0].response_count, 2);
    let other = store.get_user_questionnaires(999, 1, 10).unwrap();
    assert_eq!(other.total, 0);
    assert_eq!(other.items.len(), 0);
}
