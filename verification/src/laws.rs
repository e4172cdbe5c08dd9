//! The engine's laws: properties that hold of every input, stated over the
//! operations' contracts and proved once and for all. Each law's premises
//! are exactly the store relation that the operation's own postcondition
//! establishes, so a caller can apply it right after the call.

use vstd::prelude::*;
use crate::questionnaire::{CreateQuestionnaireRequest, Question, QuestionOption, is_choice_type};
use crate::questionnaire_service::{
    new_option_rows, new_question_rows, option_block, option_budget, lemma_new_option_rows_facts,
    lemma_new_option_rows_len, lemma_new_option_rows_of_question,
};
use crate::response::{OptionResponse, QuestionAnswer, QuestionnaireResponse};
use crate::response_service::{answer_option_rows, label_rows, new_text_rows, duplicate_submission};
use crate::store::{
    find_option_labelled, options_of_question, option_ids_ok, qa_under, question_ids_ok,
    question_in, questions_of, header_in, has_submitted,
};

verus! {

broadcast use {crate::seq_facts::group_filter_facts, vstd::seq_lib::group_filter_ensures};

/// Creating a questionnaire with N questions, of which the choice-type ones
/// carry k options each, yields exactly N question rows whose display orders
/// are the contiguous sequence 1..N in input order; each choice question
/// gets exactly its k option rows with display orders 1..k in input order,
/// and every other question gets none.
#[verifier::rlimit(80)]
#[verifier::spinoff_prover]
pub proof fn lemma_create_yields_exact_rows(
    pre_questions: Seq<Question>,
    pre_options: Seq<QuestionOption>,
    post_questions: Seq<Question>,
    post_options: Seq<QuestionOption>,
    req: CreateQuestionnaireRequest,
    qid: u64,
    q_base: u64,
    o_base: u64,
    now: i64,
)
    requires
        question_ids_ok(pre_questions, q_base),
        option_ids_ok(pre_options, o_base),
        forall|i: int|
            0 <= i < pre_questions.len() ==> (#[trigger] pre_questions[i]).questionnaire_id < qid,
        forall|i: int|
            0 <= i < pre_options.len() ==> (#[trigger] pre_options[i]).question_id < q_base,
        q_base + req.questions@.len() <= u64::MAX,
        o_base + option_budget(req.questions@, req.questions@.len() as int) <= u64::MAX,
        post_questions == pre_questions + new_question_rows(req.questions@, qid, q_base, now),
        post_options == pre_options + new_option_rows(
            req.questions@,
            req.questions@.len() as int,
            q_base,
            o_base,
            now,
        ),
    ensures
        questions_of(post_questions, qid).len() == req.questions@.len(),
        forall|k: int|
            0 <= k < req.questions@.len() ==> {
                let q = #[trigger] questions_of(post_questions, qid)[k];
                &&& q.id == q_base + k
                &&& q.display_order == k + 1
                &&& q.title == req.questions@[k].title
                &&& q.question_type == req.questions@[k].question_type
                &&& q.required == req.questions@[k].required
            },
        forall|k: int|
            0 <= k < req.questions@.len() && is_choice_type(
                (#[trigger] req.questions@[k]).question_type@,
            ) ==> {
                let os = options_of_question(post_options, (q_base + k) as u64);
                &&& os.len() == req.questions@[k].options@.len()
                &&& forall|j: int|
                    0 <= j < os.len() ==> (#[trigger] os[j]).display_order == j + 1 && os[j].option_text
                        == req.questions@[k].options@[j] && os[j].question_id == q_base + k
            },
        forall|k: int|
            0 <= k < req.questions@.len() && !is_choice_type(
                (#[trigger] req.questions@[k]).question_type@,
            ) ==> options_of_question(post_options, (q_base + k) as u64).len() == 0,
{
    let reqs = req.questions@;
    let n = reqs.len() as int;
    let qrows = new_question_rows(reqs, qid, q_base, now);
    let orows = new_option_rows(reqs, n, q_base, o_base, now);
    lemma_new_option_rows_len(reqs, n, q_base, o_base, now);
    lemma_new_option_rows_facts(reqs, n, q_base, o_base, now);

    assert(forall|i: int|
        0 <= i < pre_questions.len() ==> (#[trigger] pre_questions[i]).questionnaire_id != qid);
    assert(questions_of(pre_questions, qid) == Seq::<Question>::empty());
    assert(forall|i: int| 0 <= i < qrows.len() ==> (#[trigger] qrows[i]).questionnaire_id == qid);
    assert(questions_of(qrows, qid) == qrows);
    assert(questions_of(post_questions, qid) == questions_of(pre_questions, qid) + questions_of(
        qrows,
        qid,
    ));
    assert(questions_of(pre_questions, qid) + qrows =~= qrows);

    assert forall|k: int|
        0 <= k < reqs.len() && is_choice_type((#[trigger] reqs[k]).question_type@) implies {
        let os = options_of_question(post_options, (q_base + k) as u64);
        &&& os.len() == reqs[k].options@.len()
        &&& forall|j: int|
            0 <= j < os.len() ==> (#[trigger] os[j]).display_order == j + 1 && os[j].option_text
                == reqs[k].options@[j] && os[j].question_id == q_base + k
    } by {
        lemma_new_option_rows_of_question(reqs, n, k, q_base, o_base, now);
        assert(forall|i: int|
            0 <= i < pre_options.len() ==> (#[trigger] pre_options[i]).question_id != (q_base
                + k) as u64);
        assert(options_of_question(pre_options, (q_base + k) as u64) == Seq::<
            QuestionOption,
        >::empty());
        let block = option_block(
            reqs[k],
            (q_base + k) as u64,
            (o_base + option_budget(reqs, k)) as u64,
            now,
        );
        assert(options_of_question(post_options, (q_base + k) as u64) == options_of_question(
            pre_options,
            (q_base + k) as u64,
        ) + options_of_question(orows, (q_base + k) as u64));
        assert(options_of_question(pre_options, (q_base + k) as u64) + block =~= block);
    }

    assert forall|k: int|
        0 <= k < reqs.len() && !is_choice_type((#[trigger] reqs[k]).question_type@) implies
        options_of_question(post_options, (q_base + k) as u64).len() == 0 by {
        lemma_new_option_rows_of_question(reqs, n, k, q_base, o_base, now);
        assert(forall|i: int|
            0 <= i < pre_options.len() ==> (#[trigger] pre_options[i]).question_id != (q_base
                + k) as u64);
        assert(options_of_question(pre_options, (q_base + k) as u64) == Seq::<
            QuestionOption,
        >::empty());
        let block = option_block(
            reqs[k],
            (q_base + k) as u64,
            (o_base + option_budget(reqs, k)) as u64,
            now,
        );
        assert(block == Seq::<QuestionOption>::empty());
        assert(options_of_question(pre_options, (q_base + k) as u64) + block =~= block);
    }
}

/// After a whole-tree rewrite, no question or option row of the prior
/// subtree remains reachable by its old id: the surviving rows belong to
/// other questionnaires and the inserted rows carry fresh ids.
pub proof fn lemma_rewrite_orphans_prior_subtree(
    pre_questions: Seq<Question>,
    pre_options: Seq<QuestionOption>,
    post_questions: Seq<Question>,
    post_options: Seq<QuestionOption>,
    req: CreateQuestionnaireRequest,
    qid: u64,
    q_base: u64,
    o_base: u64,
    now: i64,
)
    requires
        question_ids_ok(pre_questions, q_base),
        option_ids_ok(pre_options, o_base),
        q_base + req.questions@.len() <= u64::MAX,
        o_base + option_budget(req.questions@, req.questions@.len() as int) <= u64::MAX,
        post_questions == crate::store::questions_not_of(pre_questions, qid)
            + new_question_rows(req.questions@, qid, q_base, now),
        post_options == crate::store::options_not_under(pre_options, pre_questions, qid)
            + new_option_rows(
            req.questions@,
            req.questions@.len() as int,
            q_base,
            o_base,
            now,
        ),
    ensures
        forall|i: int, j: int|
            0 <= i < pre_questions.len() && (#[trigger] pre_questions[i]).questionnaire_id == qid
                && 0 <= j < post_questions.len() ==> (#[trigger] post_questions[j]).id
                != pre_questions[i].id,
        forall|i: int, j: int|
            0 <= i < pre_options.len() && question_in(
                pre_questions,
                qid,
                (#[trigger] pre_options[i]).question_id,
            ) && 0 <= j < post_options.len() ==> (#[trigger] post_options[j]).id
                != pre_options[i].id,
{
    let reqs = req.questions@;
    let n = reqs.len() as int;
    let keptq = crate::store::questions_not_of(pre_questions, qid);
    let kepto = crate::store::options_not_under(pre_options, pre_questions, qid);
    let qrows = new_question_rows(reqs, qid, q_base, now);
    let orows = new_option_rows(reqs, n, q_base, o_base, now);
    lemma_new_option_rows_len(reqs, n, q_base, o_base, now);
    lemma_new_option_rows_facts(reqs, n, q_base, o_base, now);

    assert forall|i: int, j: int|
        0 <= i < pre_questions.len() && (#[trigger] pre_questions[i]).questionnaire_id == qid && 0
            <= j < post_questions.len() implies (#[trigger] post_questions[j]).id
        != pre_questions[i].id by {
        if j < keptq.len() {
            crate::seq_facts::lemma_filter_sub(
                pre_questions,
                |q: Question| q.questionnaire_id != qid,
                j,
            );
            let w = choose|w: int| 0 <= w < pre_questions.len() && keptq[j] == pre_questions[w];
            assert(pre_questions[w].questionnaire_id != qid);
            if w != i && pre_questions[w].id == pre_questions[i].id {
                assert(false);
            }
        } else {
            assert(post_questions[j] == qrows[j - keptq.len()]);
            assert(pre_questions[i].id < q_base);
        }
    }

    assert forall|i: int, j: int|
        0 <= i < pre_options.len() && question_in(
            pre_questions,
            qid,
            (#[trigger] pre_options[i]).question_id,
        ) && 0 <= j < post_options.len() implies (#[trigger] post_options[j]).id
        != pre_options[i].id by {
        if j < kepto.len() {
            crate::seq_facts::lemma_filter_sub(
                pre_options,
                |o: QuestionOption| !question_in(pre_questions, qid, o.question_id),
                j,
            );
            let w = choose|w: int| 0 <= w < pre_options.len() && kepto[j] == pre_options[w];
            assert(!question_in(pre_questions, qid, pre_options[w].question_id));
            if w != i && pre_options[w].id == pre_options[i].id {
                assert(false);
            }
        } else {
            assert(post_options[j] == orows[j - kepto.len()]);
            assert(pre_options[i].id < o_base);
        }
    }
}

/// After a delete, zero rows referencing the deleted questionnaire, directly
/// or through its questions, responses and answer rows, remain in any of the
/// seven tables.
pub proof fn lemma_delete_purges_subtree(pre: crate::store::Store, post: crate::store::Store, qid: u64)
    requires
        post.text_responses@ == crate::store::tas_not_under(
            pre.text_responses@,
            pre.question_responses@,
            pre.questionnaire_responses@,
            qid,
        ),
        post.option_responses@ == crate::store::oas_not_under(
            pre.option_responses@,
            pre.question_responses@,
            pre.questionnaire_responses@,
            qid,
        ),
        post.question_responses@ == crate::store::qas_not_under(
            pre.question_responses@,
            pre.questionnaire_responses@,
            qid,
        ),
        post.questionnaire_responses@ == crate::store::headers_not_of(
            pre.questionnaire_responses@,
            qid,
        ),
        post.question_options@ == crate::store::options_not_under(
            pre.question_options@,
            pre.questions@,
            qid,
        ),
        post.questions@ == crate::store::questions_not_of(pre.questions@, qid),
        post.questionnaires@ == crate::store::questionnaires_not(pre.questionnaires@, qid),
    ensures
        forall|j: int|
            0 <= j < post.questionnaires@.len() ==> (#[trigger] post.questionnaires@[j]).id != qid,
        forall|j: int|
            0 <= j < post.questions@.len() ==> (#[trigger] post.questions@[j]).questionnaire_id
                != qid,
        forall|j: int|
            0 <= j < post.question_options@.len() ==> !question_in(
                pre.questions@,
                qid,
                (#[trigger] post.question_options@[j]).question_id,
            ),
        forall|j: int|
            0 <= j < post.questionnaire_responses@.len() ==> (
            #[trigger] post.questionnaire_responses@[j]).questionnaire_id != qid,
        forall|j: int|
            0 <= j < post.question_responses@.len() ==> !header_in(
                pre.questionnaire_responses@,
                qid,
                (#[trigger] post.question_responses@[j]).questionnaire_response_id,
            ),
        forall|j: int|
            0 <= j < post.text_responses@.len() ==> !qa_under(
                pre.question_responses@,
                pre.questionnaire_responses@,
                qid,
                (#[trigger] post.text_responses@[j]).question_response_id,
            ),
        forall|j: int|
            0 <= j < post.option_responses@.len() ==> !qa_under(
                pre.question_responses@,
                pre.questionnaire_responses@,
                qid,
                (#[trigger] post.option_responses@[j]).question_response_id,
            ),
{
}

/// A text answer that carries no value adds no text row: the submission's
/// answer row stands alone.
pub proof fn lemma_text_answer_without_value(
    answers: Seq<QuestionAnswer>,
    k: int,
    ta_base: u64,
    qa_base: u64,
)
    requires
        0 <= k < answers.len(),
        answers[k].answer_type@ == "text"@,
        answers[k].text_value is None,
    ensures
        new_text_rows(answers, k + 1, ta_base, qa_base) == new_text_rows(
            answers,
            k,
            ta_base,
            qa_base,
        ),
{
}

/// The rows a by-label answer inserts when every label resolves: one row per
/// label, in order, selecting the resolved option.
proof fn lemma_label_selection_rows(
    os: Seq<QuestionOption>,
    labels: Seq<String>,
    ids: Seq<u64>,
    j: int,
    question_id: u64,
    start: u64,
    qa_id: u64,
)
    requires
        0 <= j <= labels.len(),
        ids.len() == labels.len(),
        start + labels.len() <= u64::MAX,
        forall|m: int|
            0 <= m < labels.len() ==> match find_option_labelled(
                os,
                question_id,
                (#[trigger] labels[m])@,
            ) {
                Some(o) => o.id == ids[m],
                None => false,
            },
    ensures
        label_rows(os, labels, j, question_id, start, qa_id).len() == j,
        forall|m: int|
            0 <= m < j ==> (#[trigger] label_rows(os, labels, j, question_id, start, qa_id)[m])
                == (OptionResponse {
                id: (start + m) as u64,
                question_response_id: qa_id,
                option_id: ids[m],
            }),
    decreases j,
{
    if j > 0 {
        lemma_label_selection_rows(os, labels, ids, j - 1, question_id, start, qa_id);
    }
}

/// Selecting options by label and by explicit id, for the same semantic
/// choice, inserts identical selection rows: when each label resolves, by
/// exact match within the question, to the option whose id stands at the
/// same position of the id list, the two payloads produce the same rows.
pub proof fn lemma_selection_by_label_equals_by_id(
    os: Seq<QuestionOption>,
    by_id: QuestionAnswer,
    by_label: QuestionAnswer,
    ids: Seq<u64>,
    labels: Seq<String>,
    start: u64,
    qa_id: u64,
)
    requires
        by_id.answer_type@ == "option"@ || by_id.answer_type@ == "options"@,
        by_label.answer_type@ == "option"@ || by_label.answer_type@ == "options"@,
        by_id.option_ids matches Some(v) && v@ == ids,
        by_label.option_ids is None,
        by_label.option_values matches Some(v) && v@ == labels,
        ids.len() == labels.len(),
        start + labels.len() <= u64::MAX,
        forall|m: int|
            0 <= m < labels.len() ==> match find_option_labelled(
                os,
                by_label.question_id,
                (#[trigger] labels[m])@,
            ) {
                Some(o) => o.id == ids[m],
                None => false,
            },
    ensures
        answer_option_rows(os, by_id, start, qa_id) == answer_option_rows(
            os,
            by_label,
            start,
            qa_id,
        ),
{
    lemma_label_selection_rows(
        os,
        labels,
        ids,
        labels.len() as int,
        by_label.question_id,
        start,
        qa_id,
    );
    assert(answer_option_rows(os, by_id, start, qa_id) =~= answer_option_rows(
        os,
        by_label,
        start,
        qa_id,
    ));
}

/// After an identified respondent's successful submission, the store records
/// them as having submitted: by the ingestion contract, a second identified
/// submission to the same questionnaire must fail with a validation error.
pub proof fn lemma_second_identified_submission_is_duplicate(
    pre_headers: Seq<QuestionnaireResponse>,
    post_headers: Seq<QuestionnaireResponse>,
    qid: u64,
    uid: u64,
    header_id: u64,
    now: i64,
)
    requires
        post_headers == pre_headers.push(
            QuestionnaireResponse {
                id: header_id,
                questionnaire_id: qid,
                respondent_id: Some(uid),
                created_at: now,
            },
        ),
    ensures
        has_submitted(post_headers, qid, uid),
        duplicate_submission(post_headers, qid, Some(uid)),
{
    assert(post_headers[post_headers.len() - 1].questionnaire_id == qid);
}

/// An anonymous submission is never a duplicate, whatever the store holds:
/// repeated anonymous submissions always pass the duplicate check.
pub proof fn lemma_anonymous_never_duplicate(hs: Seq<QuestionnaireResponse>, qid: u64)
    ensures
        !duplicate_submission(hs, qid, None),
{
}

} // verus!
