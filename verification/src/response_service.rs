//! The response ingestion engine: validates and persists one submission's
//! answers as one atomic unit, branching on each answer's declared kind, and
//! enforcing the duplicate-submission rule for identified respondents.

use vstd::prelude::*;
use crate::error::{AppError, AppResult};
use crate::questionnaire::{Question, QuestionOption};
use crate::response::{
    AnswerDetail, OptionCount, OptionResponse, QuestionAnswer, QuestionResponse,
    QuestionStatistics, QuestionnaireResponse, QuestionnaireStatistics, ResponseDetails,
    ResponseListItem, SubmitResponseRequest, SubmitResponseResponse, TextResponse,
};
use crate::user::User;
use crate::store::{
    Store, find_option_labelled, find_questionnaire, find_user_by_id, has_submitted, headers_of,
    options_of_question, orders_ok_options, orders_ok_questions, questions_of,
};
use crate::text::string_eq_lit;

verus! {

broadcast use {crate::seq_facts::group_filter_facts, vstd::seq_lib::group_filter_ensures};

/// The declared payload shapes a submission may carry.
pub open spec fn valid_answer_kind(a: QuestionAnswer) -> bool {
    a.answer_type@ == "text"@ || a.answer_type@ == "option"@ || a.answer_type@ == "options"@
}

pub open spec fn all_kinds_valid(answers: Seq<QuestionAnswer>) -> bool {
    forall|i: int| 0 <= i < answers.len() ==> valid_answer_kind(#[trigger] answers[i])
}

/// Whether this identity already submitted to the questionnaire; anonymous
/// submissions are never subject to the check.
pub open spec fn duplicate_submission(
    hs: Seq<QuestionnaireResponse>,
    qid: u64,
    user_id: Option<u64>,
) -> bool {
    match user_id {
        Some(uid) => has_submitted(hs, qid, uid),
        None => false,
    }
}

/// The answer rows one submission inserts: one per answer, in order.
pub open spec fn new_qa_rows(
    answers: Seq<QuestionAnswer>,
    qa_base: u64,
    header_id: u64,
    now: i64,
) -> Seq<QuestionResponse> {
    Seq::new(
        answers.len(),
        |k: int|
            QuestionResponse {
                id: (qa_base + k) as u64,
                questionnaire_response_id: header_id,
                question_id: answers[k].question_id,
                created_at: now,
            },
    )
}

/// The text values inserted for the first `k` answers: one per text answer
/// that carries a value, none for a text answer without one.
pub open spec fn new_text_rows(
    answers: Seq<QuestionAnswer>,
    k: int,
    ta_base: u64,
    qa_base: u64,
) -> Seq<TextResponse>
    decreases k,
{
    if k <= 0 {
        Seq::empty()
    } else {
        let rest = new_text_rows(answers, k - 1, ta_base, qa_base);
        let a = answers[k - 1];
        if a.answer_type@ == "text"@ {
            match a.text_value {
                Some(t) => rest.push(
                    TextResponse {
                        id: (ta_base + rest.len()) as u64,
                        question_response_id: (qa_base + k - 1) as u64,
                        text_value: t,
                    },
                ),
                None => rest,
            }
        } else {
            rest
        }
    }
}

/// The selections inserted for the first `j` labels of one answer addressed
/// by label strings: each label that names an option of the question, by
/// exact match, inserts one selection; an unknown label inserts nothing.
pub open spec fn label_rows(
    os: Seq<QuestionOption>,
    labels: Seq<String>,
    j: int,
    question_id: u64,
    start: u64,
    qa_id: u64,
) -> Seq<OptionResponse>
    decreases j,
{
    if j <= 0 {
        Seq::empty()
    } else {
        let rest = label_rows(os, labels, j - 1, question_id, start, qa_id);
        match find_option_labelled(os, question_id, labels[j - 1]@) {
            Some(o) => rest.push(
                OptionResponse {
                    id: (start + rest.len()) as u64,
                    question_response_id: qa_id,
                    option_id: o.id,
                },
            ),
            None => rest,
        }
    }
}

/// The selections one answer inserts. Explicit option ids are inserted as
/// given, with no existence check; label strings are looked up per question;
/// a text answer inserts none.
pub open spec fn answer_option_rows(
    os: Seq<QuestionOption>,
    a: QuestionAnswer,
    start: u64,
    qa_id: u64,
) -> Seq<OptionResponse> {
    if a.answer_type@ == "option"@ || a.answer_type@ == "options"@ {
        match a.option_ids {
            Some(ids) => Seq::new(
                ids@.len(),
                |j: int|
                    OptionResponse {
                        id: (start + j) as u64,
                        question_response_id: qa_id,
                        option_id: ids@[j],
                    },
            ),
            None => match a.option_values {
                Some(labels) => label_rows(os, labels@, labels@.len() as int, a.question_id, start, qa_id),
                None => Seq::empty(),
            },
        }
    } else {
        Seq::empty()
    }
}

/// The selections inserted for the first `k` answers, ids issued
/// consecutively from `oa_base`.
pub open spec fn new_option_answer_rows(
    os: Seq<QuestionOption>,
    answers: Seq<QuestionAnswer>,
    k: int,
    oa_base: u64,
    qa_base: u64,
) -> Seq<OptionResponse>
    decreases k,
{
    if k <= 0 {
        Seq::empty()
    } else {
        let rest = new_option_answer_rows(os, answers, k - 1, oa_base, qa_base);
        rest + answer_option_rows(
            os,
            answers[k - 1],
            (oa_base + rest.len()) as u64,
            (qa_base + k - 1) as u64,
        )
    }
}

/// An upper bound on the selections one answer can insert.
pub open spec fn answer_selection_budget(a: QuestionAnswer) -> nat {
    match a.option_ids {
        Some(ids) => ids@.len(),
        None => match a.option_values {
            Some(labels) => labels@.len(),
            None => 0,
        },
    }
}

/// An upper bound on the selections the first `k` answers can insert.
pub open spec fn selection_budget(answers: Seq<QuestionAnswer>, k: int) -> nat
    decreases k,
{
    if k <= 0 {
        0
    } else {
        selection_budget(answers, k - 1) + answer_selection_budget(answers[k - 1])
    }
}

pub proof fn lemma_selection_budget_mono(answers: Seq<QuestionAnswer>, k1: int, k2: int)
    requires
        k1 <= k2,
    ensures
        selection_budget(answers, k1) <= selection_budget(answers, k2),
    decreases k2,
{
    if k1 < k2 && k2 > 0 {
        lemma_selection_budget_mono(answers, k1, k2 - 1);
    }
}

pub proof fn lemma_label_rows_facts(
    os: Seq<QuestionOption>,
    labels: Seq<String>,
    j: int,
    question_id: u64,
    start: u64,
    qa_id: u64,
)
    requires
        0 <= j,
        start + j <= u64::MAX,
    ensures
        label_rows(os, labels, j, question_id, start, qa_id).len() <= j,
        forall|m: int|
            0 <= m < label_rows(os, labels, j, question_id, start, qa_id).len() ==> {
                let row = #[trigger] label_rows(os, labels, j, question_id, start, qa_id)[m];
                row.id == start + m && row.question_response_id == qa_id
            },
    decreases j,
{
    if j > 0 {
        lemma_label_rows_facts(os, labels, j - 1, question_id, start, qa_id);
    }
}

pub proof fn lemma_answer_option_rows_facts(
    os: Seq<QuestionOption>,
    a: QuestionAnswer,
    start: u64,
    qa_id: u64,
)
    requires
        start + answer_selection_budget(a) <= u64::MAX,
    ensures
        answer_option_rows(os, a, start, qa_id).len() <= answer_selection_budget(a),
        forall|m: int|
            0 <= m < answer_option_rows(os, a, start, qa_id).len() ==> {
                let row = #[trigger] answer_option_rows(os, a, start, qa_id)[m];
                row.id == start + m && row.question_response_id == qa_id
            },
{
    if a.answer_type@ == "option"@ || a.answer_type@ == "options"@ {
        match a.option_ids {
            Some(ids) => {},
            None => match a.option_values {
                Some(labels) => {
                    lemma_label_rows_facts(
                        os,
                        labels@,
                        labels@.len() as int,
                        a.question_id,
                        start,
                        qa_id,
                    );
                },
                None => {},
            },
        }
    }
}

pub proof fn lemma_new_option_answer_rows_facts(
    os: Seq<QuestionOption>,
    answers: Seq<QuestionAnswer>,
    k: int,
    oa_base: u64,
    qa_base: u64,
)
    requires
        0 <= k,
        oa_base + selection_budget(answers, k) <= u64::MAX,
    ensures
        new_option_answer_rows(os, answers, k, oa_base, qa_base).len() <= selection_budget(
            answers,
            k,
        ),
        forall|m: int|
            0 <= m < new_option_answer_rows(os, answers, k, oa_base, qa_base).len() ==> (
            #[trigger] new_option_answer_rows(os, answers, k, oa_base, qa_base)[m]).id == oa_base
                + m,
    decreases k,
{
    if k > 0 {
        lemma_selection_budget_mono(answers, k - 1, k);
        lemma_new_option_answer_rows_facts(os, answers, k - 1, oa_base, qa_base);
        let rest = new_option_answer_rows(os, answers, k - 1, oa_base, qa_base);
        lemma_answer_option_rows_facts(
            os,
            answers[k - 1],
            (oa_base + rest.len()) as u64,
            (qa_base + k - 1) as u64,
        );
    }
}

pub proof fn lemma_new_text_rows_facts(
    answers: Seq<QuestionAnswer>,
    k: int,
    ta_base: u64,
    qa_base: u64,
)
    requires
        0 <= k,
        ta_base + k <= u64::MAX,
    ensures
        new_text_rows(answers, k, ta_base, qa_base).len() <= k,
        forall|m: int|
            0 <= m < new_text_rows(answers, k, ta_base, qa_base).len() ==> (
            #[trigger] new_text_rows(answers, k, ta_base, qa_base)[m]).id == ta_base + m,
    decreases k,
{
    if k > 0 {
        lemma_new_text_rows_facts(answers, k - 1, ta_base, qa_base);
    }
}

impl Store {
    /// Record one submission: insert the response header and, per answer, an
    /// answer row with its text value or option selections, all as one
    /// atomic unit. Fails with `NotFound` for an absent questionnaire, and
    /// with `Validation` for a duplicate identified submission or an
    /// unsupported answer kind; on failure nothing is written.
    ///
    /// The duplicate guard is a read followed by the write, not a stored
    /// uniqueness rule: a deployment that lets two submissions of one
    /// identity race between the check and the commit can end up with both
    /// recorded. Within one exclusive borrow of the store the pair is
    /// atomic.
    pub fn submit_response(
        &mut self,
        user_id: Option<u64>,
        req: &SubmitResponseRequest,
        now: i64,
    ) -> (r: AppResult<SubmitResponseResponse>)
        requires
            old(self).wf(),
            old(self).next_response_id < u64::MAX,
            old(self).next_answer_id + req.answers@.len() <= u64::MAX,
            old(self).next_text_id + req.answers@.len() <= u64::MAX,
            old(self).next_option_answer_id + selection_budget(
                req.answers@,
                req.answers@.len() as int,
            ) <= u64::MAX,
        ensures
            final(self).wf(),
            match find_questionnaire(old(self).questionnaires@, req.questionnaire_id) {
                None => r == Err::<SubmitResponseResponse, AppError>(AppError::NotFound) && *final(self) == *old(self),
                Some(_) => {
                    &&& duplicate_submission(
                        old(self).questionnaire_responses@,
                        req.questionnaire_id,
                        user_id,
                    ) ==> r == Err::<SubmitResponseResponse, AppError>(AppError::Validation)
                        && *final(self) == *old(self)
                    &&& (!duplicate_submission(
                        old(self).questionnaire_responses@,
                        req.questionnaire_id,
                        user_id,
                    ) && !all_kinds_valid(req.answers@)) ==> r == Err::<
                        SubmitResponseResponse,
                        AppError,
                    >(AppError::Validation) && *final(self) == *old(self)
                    &&& (!duplicate_submission(
                        old(self).questionnaire_responses@,
                        req.questionnaire_id,
                        user_id,
                    ) && all_kinds_valid(req.answers@)) ==> {
                        &&& final(self).questionnaire_responses@ == old(self).questionnaire_responses@.push(
                            QuestionnaireResponse {
                                id: old(self).next_response_id,
                                questionnaire_id: req.questionnaire_id,
                                respondent_id: user_id,
                                created_at: now,
                            },
                        )
                        &&& final(self).question_responses@ == old(self).question_responses@
                            + new_qa_rows(
                            req.answers@,
                            old(self).next_answer_id,
                            old(self).next_response_id,
                            now,
                        )
                        &&& final(self).text_responses@ == old(self).text_responses@
                            + new_text_rows(
                            req.answers@,
                            req.answers@.len() as int,
                            old(self).next_text_id,
                            old(self).next_answer_id,
                        )
                        &&& final(self).option_responses@ == old(self).option_responses@
                            + new_option_answer_rows(
                            old(self).question_options@,
                            req.answers@,
                            req.answers@.len() as int,
                            old(self).next_option_answer_id,
                            old(self).next_answer_id,
                        )
                        &&& final(self).questionnaires@ == old(self).questionnaires@
                        &&& final(self).questions@ == old(self).questions@
                        &&& final(self).question_options@ == old(self).question_options@
                        &&& final(self).users@ == old(self).users@
                        &&& final(self).next_response_id == old(self).next_response_id + 1
                        &&& final(self).next_answer_id == old(self).next_answer_id
                            + req.answers@.len()
                        &&& final(self).next_text_id == old(self).next_text_id + new_text_rows(
                            req.answers@,
                            req.answers@.len() as int,
                            old(self).next_text_id,
                            old(self).next_answer_id,
                        ).len()
                        &&& final(self).next_option_answer_id == old(self).next_option_answer_id
                            + new_option_answer_rows(
                            old(self).question_options@,
                            req.answers@,
                            req.answers@.len() as int,
                            old(self).next_option_answer_id,
                            old(self).next_answer_id,
                        ).len()
                        &&& final(self).next_questionnaire_id == old(self).next_questionnaire_id
                        &&& final(self).next_question_id == old(self).next_question_id
                        &&& final(self).next_option_id == old(self).next_option_id
                        &&& final(self).next_user_id == old(self).next_user_id
                        &&& r == Ok::<SubmitResponseResponse, AppError>(
                            SubmitResponseResponse {
                                id: old(self).next_response_id,
                                questionnaire_id: req.questionnaire_id,
                                success: true,
                                created_at: now,
                            },
                        )
                    }
                },
            },
    {
        if self.questionnaire_by_id(req.questionnaire_id).is_none() {
            return Err(AppError::NotFound);
        }
        match user_id {
            Some(uid) => {
                if self.has_header_for(req.questionnaire_id, uid) {
                    return Err(AppError::Validation);
                }
            },
            None => {},
        }

        let header_id = self.next_response_id;
        let qa_base = self.next_answer_id;
        let ta_base = self.next_text_id;
        let oa_base = self.next_option_answer_id;
        let ghost answers = req.answers@;
        let n = req.answers.len();

        let mut new_qas: Vec<QuestionResponse> = Vec::new();
        let mut new_tas: Vec<TextResponse> = Vec::new();
        let mut new_oas: Vec<OptionResponse> = Vec::new();
        let ghost expected_qas = new_qa_rows(answers, qa_base, header_id, now);

        let mut k: usize = 0;
        while k < n
            invariant
                0 <= k <= n,
                forall|t: int| 0 <= t < k ==> valid_answer_kind(#[trigger] answers[t]),
                new_qas@ == expected_qas.take(k as int),
                new_tas@ == new_text_rows(answers, k as int, ta_base, qa_base),
                new_tas@.len() <= k,
                new_oas@ == new_option_answer_rows(
                    self.question_options@,
                    answers,
                    k as int,
                    oa_base,
                    qa_base,
                ),
                new_oas@.len() <= selection_budget(answers, k as int),
            decreases n - k,
        {
            let a = &req.answers[k];
            proof {
                reveal_strlit("text");
                reveal_strlit("option");
                reveal_strlit("options");
                lemma_selection_budget_mono(answers, k as int, n as int);
                lemma_selection_budget_mono(answers, k as int + 1, n as int);
                lemma_new_option_answer_rows_facts(
                    self.question_options@,
                    answers,
                    k as int,
                    oa_base,
                    qa_base,
                );
            }
            new_qas.push(
                QuestionResponse {
                    id: qa_base + (k as u64),
                    questionnaire_response_id: header_id,
                    question_id: a.question_id,
                    created_at: now,
                },
            );
            proof {
                assert(expected_qas.take(k as int + 1) =~= expected_qas.take(k as int).push(
                    expected_qas[k as int],
                ));
            }
            let ghost block_start = (oa_base + new_oas@.len()) as u64;
            let ghost qa_id = (qa_base + k) as u64;
            if string_eq_lit(&a.answer_type, "text") {
                match &a.text_value {
                    Some(tv) => {
                        new_tas.push(
                            TextResponse {
                                id: ta_base + (new_tas.len() as u64),
                                question_response_id: qa_base + (k as u64),
                                text_value: tv.clone(),
                            },
                        );
                    },
                    None => {},
                }
                proof {
                    reveal_strlit("text");
                    reveal_strlit("option");
                    reveal_strlit("options");
                    assert("text"@.len() == 4 && "option"@.len() == 6 && "options"@.len() == 7);
                    assert(answers[k as int].answer_type@ != "option"@);
                    assert(answers[k as int].answer_type@ != "options"@);
                    assert(answer_option_rows(self.question_options@, answers[k as int], block_start, qa_id)
                        == Seq::<OptionResponse>::empty());
                    assert(new_oas@ + Seq::<OptionResponse>::empty() =~= new_oas@);
                }
            } else if string_eq_lit(&a.answer_type, "option") || string_eq_lit(
                &a.answer_type,
                "options",
            ) {
                let ghost block = answer_option_rows(
                    self.question_options@,
                    answers[k as int],
                    block_start,
                    qa_id,
                );
                match &a.option_ids {
                    Some(ids) => {
                        let m = ids.len();
                        let start = oa_base + (new_oas.len() as u64);
                        let mut j: usize = 0;
                        while j < m
                            invariant
                                0 <= j <= m,
                                new_oas@ == new_option_answer_rows(
                                    self.question_options@,
                                    answers,
                                    k as int,
                                    oa_base,
                                    qa_base,
                                ) + block.take(j as int),
                            decreases m - j,
                        {
                            new_oas.push(
                                OptionResponse {
                                    id: start + (j as u64),
                                    question_response_id: qa_base + (k as u64),
                                    option_id: ids[j],
                                },
                            );
                            proof {
                                assert(block.take(j as int + 1) =~= block.take(j as int).push(
                                    block[j as int],
                                ));
                                assert(new_option_answer_rows(
                                    self.question_options@,
                                    answers,
                                    k as int,
                                    oa_base,
                                    qa_base,
                                ) + block.take(j as int).push(block[j as int])
                                    =~= new_option_answer_rows(
                                    self.question_options@,
                                    answers,
                                    k as int,
                                    oa_base,
                                    qa_base,
                                ) + block.take(j as int + 1));
                            }
                            j = j + 1;
                        }
                        proof {
                            assert(block.take(m as int) =~= block);
                        }
                    },
                    None => {
                        match &a.option_values {
                            Some(labels) => {
                                let m = labels.len();
                                let start = oa_base + (new_oas.len() as u64);
                                let mut j: usize = 0;
                                while j < m
                                    invariant
                                        0 <= j <= m,
                                        new_oas@ == new_option_answer_rows(
                                            self.question_options@,
                                            answers,
                                            k as int,
                                            oa_base,
                                            qa_base,
                                        ) + label_rows(
                                            self.question_options@,
                                            labels@,
                                            j as int,
                                            a.question_id,
                                            start,
                                            qa_id,
                                        ),
                                    decreases m - j,
                                {
                                    proof {
                                        lemma_label_rows_facts(
                                            self.question_options@,
                                            labels@,
                                            j as int,
                                            a.question_id,
                                            start,
                                            qa_id,
                                        );
                                        lemma_new_option_answer_rows_facts(
                                            self.question_options@,
                                            answers,
                                            k as int,
                                            oa_base,
                                            qa_base,
                                        );
                                    }
                                    match self.option_by_label(a.question_id, &labels[j]) {
                                        Some(o) => {
                                            new_oas.push(
                                                OptionResponse {
                                                    id: oa_base + (new_oas.len() as u64),
                                                    question_response_id: qa_base + (k as u64),
                                                    option_id: o.id,
                                                },
                                            );
                                        },
                                        None => {},
                                    }
                                    j = j + 1;
                                }
                                proof {
                                    assert(block == label_rows(
                                        self.question_options@,
                                        labels@,
                                        labels@.len() as int,
                                        a.question_id,
                                        start,
                                        qa_id,
                                    ));
                                }
                            },
                            None => {
                                proof {
                                    assert(block == Seq::<OptionResponse>::empty());
                                    assert(new_oas@ + Seq::<OptionResponse>::empty() =~= new_oas@);
                                }
                            },
                        }
                    },
                }
            } else {
                proof {
                    assert(!valid_answer_kind(answers[k as int]));
                }
                return Err(AppError::Validation);
            }
            proof {
                lemma_new_option_answer_rows_facts(
                    self.question_options@,
                    answers,
                    k as int + 1,
                    oa_base,
                    qa_base,
                );
                lemma_new_text_rows_facts(answers, k as int + 1, ta_base, qa_base);
            }
            k = k + 1;
        }
        proof {
            assert(expected_qas.take(n as int) =~= expected_qas);
        }

        // Commit: one atomic switch of the store, as the storage gateway's
        // transaction would make visible.
        let text_count = new_tas.len() as u64;
        let selection_count = new_oas.len() as u64;
        self.questionnaire_responses.push(
            QuestionnaireResponse {
                id: header_id,
                questionnaire_id: req.questionnaire_id,
                respondent_id: user_id,
                created_at: now,
            },
        );
        self.question_responses.append(&mut new_qas);
        self.text_responses.append(&mut new_tas);
        self.option_responses.append(&mut new_oas);
        self.next_response_id = header_id + 1;
        self.next_answer_id = qa_base + (n as u64);
        self.next_text_id = ta_base + text_count;
        self.next_option_answer_id = oa_base + selection_count;

        proof {
            lemma_submit_preserves_wf(*old(self), *self, *req, user_id, now);
        }

        Ok(
            SubmitResponseResponse {
                id: header_id,
                questionnaire_id: req.questionnaire_id,
                success: true,
                created_at: now,
            },
        )
    }
}

/// Recording a submission keeps the store well-formed: each appended table
/// gets rows with fresh consecutive ids, and the definition tables are
/// untouched.
proof fn lemma_submit_preserves_wf(
    pre: Store,
    post: Store,
    req: SubmitResponseRequest,
    user_id: Option<u64>,
    now: i64,
)
    requires
        pre.wf(),
        pre.next_response_id < u64::MAX,
        pre.next_answer_id + req.answers@.len() <= u64::MAX,
        pre.next_text_id + req.answers@.len() <= u64::MAX,
        pre.next_option_answer_id + selection_budget(req.answers@, req.answers@.len() as int)
            <= u64::MAX,
        post.questionnaire_responses@ == pre.questionnaire_responses@.push(
            QuestionnaireResponse {
                id: pre.next_response_id,
                questionnaire_id: req.questionnaire_id,
                respondent_id: user_id,
                created_at: now,
            },
        ),
        post.question_responses@ == pre.question_responses@ + new_qa_rows(
            req.answers@,
            pre.next_answer_id,
            pre.next_response_id,
            now,
        ),
        post.text_responses@ == pre.text_responses@ + new_text_rows(
            req.answers@,
            req.answers@.len() as int,
            pre.next_text_id,
            pre.next_answer_id,
        ),
        post.option_responses@ == pre.option_responses@ + new_option_answer_rows(
            pre.question_options@,
            req.answers@,
            req.answers@.len() as int,
            pre.next_option_answer_id,
            pre.next_answer_id,
        ),
        post.questionnaires@ == pre.questionnaires@,
        post.questions@ == pre.questions@,
        post.question_options@ == pre.question_options@,
        post.users@ == pre.users@,
        post.next_response_id == pre.next_response_id + 1,
        post.next_answer_id == pre.next_answer_id + req.answers@.len(),
        post.next_text_id == pre.next_text_id + new_text_rows(
            req.answers@,
            req.answers@.len() as int,
            pre.next_text_id,
            pre.next_answer_id,
        ).len(),
        post.next_option_answer_id == pre.next_option_answer_id + new_option_answer_rows(
            pre.question_options@,
            req.answers@,
            req.answers@.len() as int,
            pre.next_option_answer_id,
            pre.next_answer_id,
        ).len(),
        post.next_questionnaire_id == pre.next_questionnaire_id,
        post.next_question_id == pre.next_question_id,
        post.next_option_id == pre.next_option_id,
        post.next_user_id == pre.next_user_id,
    ensures
        post.wf(),
{
    let answers = req.answers@;
    let n = answers.len() as int;
    let qa_rows = new_qa_rows(answers, pre.next_answer_id, pre.next_response_id, now);
    let ta_rows = new_text_rows(answers, n, pre.next_text_id, pre.next_answer_id);
    let oa_rows = new_option_answer_rows(
        pre.question_options@,
        answers,
        n,
        pre.next_option_answer_id,
        pre.next_answer_id,
    );
    lemma_new_text_rows_facts(answers, n, pre.next_text_id, pre.next_answer_id);
    lemma_new_option_answer_rows_facts(
        pre.question_options@,
        answers,
        n,
        pre.next_option_answer_id,
        pre.next_answer_id,
    );

    assert forall|i: int, j: int|
        #![trigger post.questionnaire_responses@[i], post.questionnaire_responses@[j]]
        0 <= i < j < post.questionnaire_responses@.len() implies
        post.questionnaire_responses@[i].id != post.questionnaire_responses@[j].id by {
        if j < pre.questionnaire_responses@.len() {
        } else {
            assert(post.questionnaire_responses@[i] == pre.questionnaire_responses@[i]);
        }
    }

    assert forall|i: int, j: int|
        #![trigger post.question_responses@[i], post.question_responses@[j]]
        0 <= i < j < post.question_responses@.len() implies post.question_responses@[i].id
        != post.question_responses@[j].id by {
        let ol = pre.question_responses@.len();
        if j < ol {
        } else if i < ol {
            assert(post.question_responses@[i] == pre.question_responses@[i]);
            assert(post.question_responses@[j] == qa_rows[j - ol]);
        } else {
            assert(post.question_responses@[i] == qa_rows[i - ol]);
            assert(post.question_responses@[j] == qa_rows[j - ol]);
        }
    }
    assert forall|i: int| 0 <= i < post.question_responses@.len() implies (
    #[trigger] post.question_responses@[i]).id < post.next_answer_id by {
        if i >= pre.question_responses@.len() {
            assert(post.question_responses@[i] == qa_rows[i - pre.question_responses@.len()]);
        }
    }

    assert forall|i: int, j: int|
        #![trigger post.text_responses@[i], post.text_responses@[j]]
        0 <= i < j < post.text_responses@.len() implies post.text_responses@[i].id
        != post.text_responses@[j].id by {
        let ol = pre.text_responses@.len();
        if j < ol {
        } else if i < ol {
            assert(post.text_responses@[i] == pre.text_responses@[i]);
            assert(post.text_responses@[j] == ta_rows[j - ol]);
        } else {
            assert(post.text_responses@[i] == ta_rows[i - ol]);
            assert(post.text_responses@[j] == ta_rows[j - ol]);
        }
    }
    assert forall|i: int| 0 <= i < post.text_responses@.len() implies (
    #[trigger] post.text_responses@[i]).id < post.next_text_id by {
        if i >= pre.text_responses@.len() {
            assert(post.text_responses@[i] == ta_rows[i - pre.text_responses@.len()]);
        }
    }

    assert forall|i: int, j: int|
        #![trigger post.option_responses@[i], post.option_responses@[j]]
        0 <= i < j < post.option_responses@.len() implies post.option_responses@[i].id
        != post.option_responses@[j].id by {
        let ol = pre.option_responses@.len();
        if j < ol {
        } else if i < ol {
            assert(post.option_responses@[i] == pre.option_responses@[i]);
            assert(post.option_responses@[j] == oa_rows[j - ol]);
        } else {
            assert(post.option_responses@[i] == oa_rows[i - ol]);
            assert(post.option_responses@[j] == oa_rows[j - ol]);
        }
    }
    assert forall|i: int| 0 <= i < post.option_responses@.len() implies (
    #[trigger] post.option_responses@[i]).id < post.next_option_answer_id by {
        if i >= pre.option_responses@.len() {
            assert(post.option_responses@[i] == oa_rows[i - pre.option_responses@.len()]);
        }
    }

    assert forall|qid2: u64| orders_ok_questions(
        #[trigger] questions_of(post.questions@, qid2),
    ) by {
        assert(questions_of(post.questions@, qid2) == questions_of(pre.questions@, qid2));
    }
    assert forall|question_id: u64| orders_ok_options(
        #[trigger] options_of_question(post.question_options@, question_id),
    ) by {
        assert(options_of_question(post.question_options@, question_id) == options_of_question(
            pre.question_options@,
            question_id,
        ));
    }
}

// ---------------------------------------------------------------------------
// Statistics aggregation.
// ---------------------------------------------------------------------------

/// Whether `qa_id` names an answer row for question `question_id` inside a
/// response to questionnaire `qid`.
pub open spec fn answer_links(
    qas: Seq<QuestionResponse>,
    hs: Seq<QuestionnaireResponse>,
    qid: u64,
    question_id: u64,
    qa_id: u64,
) -> bool {
    exists|i: int|
        #![trigger qas[i]]
        0 <= i < qas.len() && qas[i].id == qa_id && qas[i].question_id == question_id
            && crate::store::header_in(hs, qid, qas[i].questionnaire_response_id)
}

/// Every text value ever recorded for one question of one questionnaire, in
/// table (insertion) order.
pub open spec fn texts_for(
    ts: Seq<TextResponse>,
    qas: Seq<QuestionResponse>,
    hs: Seq<QuestionnaireResponse>,
    qid: u64,
    question_id: u64,
) -> Seq<String>
    decreases ts.len(),
{
    if ts.len() == 0 {
        Seq::empty()
    } else {
        let rest = texts_for(ts.drop_last(), qas, hs, qid, question_id);
        if answer_links(qas, hs, qid, question_id, ts.last().question_response_id) {
            rest.push(ts.last().text_value)
        } else {
            rest
        }
    }
}

/// Whether a selection references one of the given options.
pub open spec fn sel_among(p: OptionResponse, opts: Seq<QuestionOption>) -> bool {
    exists|i: int| #![trigger opts[i]] 0 <= i < opts.len() && opts[i].id == p.option_id
}

/// How many stored selections reference any of the given options.
pub open spec fn count_sel_among(ps: Seq<OptionResponse>, opts: Seq<QuestionOption>) -> nat
    decreases ps.len(),
{
    if ps.len() == 0 {
        0
    } else {
        count_sel_among(ps.drop_last(), opts) + if sel_among(ps.last(), opts) {
            1nat
        } else {
            0nat
        }
    }
}

/// The total selections of a question: the sum of its options' counts.
pub open spec fn sum_counts(ps: Seq<OptionResponse>, opts: Seq<QuestionOption>) -> nat
    decreases opts.len(),
{
    if opts.len() == 0 {
        0
    } else {
        sum_counts(ps, opts.drop_last()) + crate::store::count_selections(ps, opts.last().id)
    }
}

/// An option's share of its question's selections, in hundredths of a
/// percent; 0 when the question has no selections at all.
pub open spec fn percentage_hundredths_of(count: nat, total: nat) -> nat {
    if total > 0 {
        count * 10000 / (total as int) as nat
    } else {
        0
    }
}

proof fn lemma_count_sel_among_bound(ps: Seq<OptionResponse>, opts: Seq<QuestionOption>)
    ensures
        count_sel_among(ps, opts) <= ps.len(),
    decreases ps.len(),
{
    if ps.len() > 0 {
        lemma_count_sel_among_bound(ps.drop_last(), opts);
    }
}

proof fn lemma_count_selections_step(ps: Seq<OptionResponse>, option_id: u64)
    requires
        ps.len() > 0,
    ensures
        crate::store::count_selections(ps, option_id) == crate::store::count_selections(
            ps.drop_last(),
            option_id,
        ) + if ps.last().option_id == option_id {
            1nat
        } else {
            0nat
        },
{
    reveal(Seq::filter);
}

/// Extending an option list by one fresh option grows the combined count by
/// exactly that option's count.
proof fn lemma_count_sel_among_push(
    ps: Seq<OptionResponse>,
    opts: Seq<QuestionOption>,
    x: QuestionOption,
)
    requires
        forall|i: int| 0 <= i < opts.len() ==> (#[trigger] opts[i]).id != x.id,
    ensures
        count_sel_among(ps, opts.push(x)) == count_sel_among(ps, opts)
            + crate::store::count_selections(ps, x.id),
    decreases ps.len(),
{
    if ps.len() == 0 {
        assert(crate::store::count_selections(ps, x.id) == 0) by {
            reveal(Seq::filter);
        }
    } else {
        lemma_count_sel_among_push(ps.drop_last(), opts, x);
        lemma_count_selections_step(ps, x.id);
        let p = ps.last();
        assert(sel_among(p, opts.push(x)) == (sel_among(p, opts) || p.option_id == x.id)) by {
            if sel_among(p, opts.push(x)) {
                let i = choose|i: int|
                    0 <= i < opts.push(x).len() && (#[trigger] opts.push(x)[i]).id == p.option_id;
                if i < opts.len() {
                    assert(opts[i].id == p.option_id);
                }
            }
            if sel_among(p, opts) {
                let i = choose|i: int| 0 <= i < opts.len() && (#[trigger] opts[i]).id == p.option_id;
                assert(opts.push(x)[i].id == p.option_id);
            }
            if p.option_id == x.id {
                assert(opts.push(x)[opts.len() as int].id == p.option_id);
            }
        }
        if sel_among(p, opts) && p.option_id == x.id {
            let i = choose|i: int| 0 <= i < opts.len() && (#[trigger] opts[i]).id == p.option_id;
            assert(false);
        }
    }
}

/// For options with distinct ids, the sum of per-option counts equals the
/// count of selections referencing any of them.
proof fn lemma_sum_counts_eq(ps: Seq<OptionResponse>, opts: Seq<QuestionOption>)
    requires
        forall|i: int, j: int|
            #![trigger opts[i], opts[j]]
            0 <= i < j < opts.len() ==> opts[i].id != opts[j].id,
    ensures
        sum_counts(ps, opts) == count_sel_among(ps, opts),
    decreases opts.len(),
{
    if opts.len() == 0 {
        lemma_count_sel_among_bound(ps, opts);
        assert(count_sel_among(ps, opts) == 0) by {
            assert forall|p: OptionResponse| !sel_among(p, opts) by {}
            lemma_count_sel_among_none(ps, opts);
        }
    } else {
        let dl = opts.drop_last();
        lemma_sum_counts_eq(ps, dl);
        assert(forall|i: int| 0 <= i < dl.len() ==> (#[trigger] dl[i]).id != opts.last().id);
        lemma_count_sel_among_push(ps, dl, opts.last());
        assert(dl.push(opts.last()) =~= opts);
    }
}

proof fn lemma_count_sel_among_none(ps: Seq<OptionResponse>, opts: Seq<QuestionOption>)
    requires
        opts.len() == 0,
    ensures
        count_sel_among(ps, opts) == 0,
    decreases ps.len(),
{
    if ps.len() > 0 {
        lemma_count_sel_among_none(ps.drop_last(), opts);
    }
}

/// The sum of distinct options' counts never exceeds the selection table's
/// size.
pub proof fn lemma_sum_counts_bound(ps: Seq<OptionResponse>, opts: Seq<QuestionOption>)
    requires
        forall|i: int, j: int|
            #![trigger opts[i], opts[j]]
            0 <= i < j < opts.len() ==> opts[i].id != opts[j].id,
    ensures
        sum_counts(ps, opts) <= ps.len(),
{
    lemma_sum_counts_eq(ps, opts);
    lemma_count_sel_among_bound(ps, opts);
}

/// Each option's count is at most the question's total.
pub proof fn lemma_sum_counts_member(ps: Seq<OptionResponse>, opts: Seq<QuestionOption>, t: int)
    requires
        0 <= t < opts.len(),
    ensures
        crate::store::count_selections(ps, opts[t].id) <= sum_counts(ps, opts),
    decreases opts.len(),
{
    if t < opts.len() - 1 {
        lemma_sum_counts_member(ps, opts.drop_last(), t);
        assert(opts.drop_last()[t] == opts[t]);
    }
}

/// The option's share in hundredths of a percent.
fn percentage_hundredths(count: u64, total: u64) -> (r: u64)
    requires
        count <= total,
    ensures
        r as nat == percentage_hundredths_of(count as nat, total as nat),
        r <= 10000,
{
    if total == 0 {
        return 0;
    }
    let v: u128 = (count as u128) * 10000u128 / (total as u128);
    proof {
        vstd::arithmetic::mul::lemma_mul_inequality(count as int, total as int, 10000int);
        vstd::arithmetic::div_mod::lemma_div_is_ordered(
            (count as int) * 10000,
            (total as int) * 10000,
            total as int,
        );
        vstd::arithmetic::div_mod::lemma_div_multiples_vanish(10000int, total as int);
        assert((total as int) * 10000 == (total as int) * 10000int);
        assert(((total as int) * 10000int) / (total as int) == 10000int) by {
            assert((total as int) * 10000int == (total as int) * 10000int);
        }
    }
    v as u64
}

/// The questions that appear in statistics: text listings and choice
/// distributions; any other type is omitted.
pub open spec fn stats_questions(qs: Seq<Question>) -> Seq<Question> {
    qs.filter(
        |q: Question| q.question_type@ == "text"@ || crate::questionnaire::is_choice_type(
            q.question_type@,
        ),
    )
}

/// How the per-option counts of one choice question relate to its options
/// and the selection table.
pub open spec fn option_counts_ok(
    cs: Seq<OptionCount>,
    opts: Seq<QuestionOption>,
    ps: Seq<OptionResponse>,
) -> bool {
    &&& cs.len() == opts.len()
    &&& forall|j: int|
        0 <= j < opts.len() ==> {
            let c = #[trigger] cs[j];
            &&& c.option_id == opts[j].id
            &&& c.option_text == opts[j].option_text
            &&& c.count as nat == crate::store::count_selections(ps, opts[j].id)
            &&& c.percentage_hundredths as nat == percentage_hundredths_of(
                crate::store::count_selections(ps, opts[j].id),
                sum_counts(ps, opts),
            )
        }
}

/// How one question's statistics entry relates to the store.
pub open spec fn question_stat_ok(
    stat: QuestionStatistics,
    q: Question,
    s: Store,
    qid: u64,
) -> bool {
    &&& stat.question_id == q.id
    &&& stat.title == q.title
    &&& stat.question_type == q.question_type
    &&& if q.question_type@ == "text"@ {
        &&& stat.option_counts is None
        &&& match stat.text_responses {
            Some(v) => v@ == texts_for(
                s.text_responses@,
                s.question_responses@,
                s.questionnaire_responses@,
                qid,
                q.id,
            ),
            None => false,
        }
    } else {
        &&& stat.text_responses is None
        &&& match stat.option_counts {
            Some(cs) => option_counts_ok(
                cs@,
                options_of_question(s.question_options@, q.id),
                s.option_responses@,
            ),
            None => false,
        }
    }
}

impl Store {
    /// Whether `qa_id` links question `question_id` into questionnaire
    /// `qid`.
    fn answer_links_to(&self, qid: u64, question_id: u64, qa_id: u64) -> (r: bool)
        ensures
            r == answer_links(
                self.question_responses@,
                self.questionnaire_responses@,
                qid,
                question_id,
                qa_id,
            ),
    {
        let n = self.question_responses.len();
        let mut i: usize = 0;
        while i < n
            invariant
                0 <= i <= n,
                forall|j: int|
                    0 <= j < i ==> !((#[trigger] self.question_responses@[j]).id == qa_id
                        && self.question_responses@[j].question_id == question_id
                        && crate::store::header_in(
                        self.questionnaire_responses@,
                        qid,
                        self.question_responses@[j].questionnaire_response_id,
                    )),
            decreases n - i,
        {
            if self.question_responses[i].id == qa_id && self.question_responses[i].question_id
                == question_id && self.header_under(
                qid,
                self.question_responses[i].questionnaire_response_id,
            ) {
                return true;
            }
            i = i + 1;
        }
        false
    }

    /// Every text value recorded for one question of one questionnaire, in
    /// insertion order.
    fn collect_texts_for(&self, qid: u64, question_id: u64) -> (r: Vec<String>)
        ensures
            r@ == texts_for(
                self.text_responses@,
                self.question_responses@,
                self.questionnaire_responses@,
                qid,
                question_id,
            ),
    {
        let mut r: Vec<String> = Vec::new();
        let n = self.text_responses.len();
        let mut i: usize = 0;
        proof {
            assert(self.text_responses@.take(0) =~= Seq::<TextResponse>::empty());
        }
        while i < n
            invariant
                0 <= i <= n,
                r@ == texts_for(
                    self.text_responses@.take(i as int),
                    self.question_responses@,
                    self.questionnaire_responses@,
                    qid,
                    question_id,
                ),
            decreases n - i,
        {
            proof {
                assert(self.text_responses@.take(i as int + 1).drop_last()
                    =~= self.text_responses@.take(i as int));
            }
            if self.answer_links_to(qid, question_id, self.text_responses[i].question_response_id)
                {
                r.push(self.text_responses[i].text_value.clone());
            }
            i = i + 1;
        }
        proof {
            assert(self.text_responses@.take(n as int) =~= self.text_responses@);
        }
        r
    }


    /// The statistics entry of one text question: the raw listing of its
    /// recorded values.
    fn text_question_stat(&self, questionnaire_id: u64, q: &Question) -> (r: QuestionStatistics)
        requires
            q.question_type@ == "text"@,
        ensures
            question_stat_ok(r, *q, *self, questionnaire_id),
    {
        let texts = self.collect_texts_for(questionnaire_id, q.id);
        QuestionStatistics {
            question_id: q.id,
            title: q.title.clone(),
            question_type: q.question_type.clone(),
            text_responses: Some(texts),
            option_counts: None,
        }
    }

    /// The statistics entry of one choice question: every option's count and
    /// share of the question's total selections.
    fn choice_question_stat(&self, q: &Question) -> (r: QuestionStatistics)
        requires
            self.wf(),
            crate::questionnaire::is_choice_type(q.question_type@),
        ensures
            question_stat_ok(r, *q, *self, 0) || question_stat_ok(r, *q, *self, 1),
            r.question_id == q.id && r.title == q.title && r.question_type == q.question_type,
            r.text_responses is None,
            match r.option_counts {
                Some(cs) => option_counts_ok(
                    cs@,
                    options_of_question(self.question_options@, q.id),
                    self.option_responses@,
                ),
                None => false,
            },
    {
        proof {
            reveal_strlit("text");
            reveal_strlit("radio");
            reveal_strlit("checkbox");
            assert("text"@.len() == 4 && "radio"@.len() == 5 && "checkbox"@.len() == 8);
            assert(q.question_type@ != "text"@);
        }
        let opts = self.collect_options(q.id);
        let m = opts.len();
        proof {
            assert forall|i: int, j: int|
                #![trigger opts@[i], opts@[j]]
                0 <= i < j < opts@.len() implies opts@[i].id != opts@[j].id by {
                crate::seq_facts::lemma_filter_pairs(
                    self.question_options@,
                    |o: QuestionOption| o.question_id == q.id,
                    i,
                    j,
                );
            }
        }
        let oa_table_len: usize = self.option_responses.len();
        let mut counts: Vec<u64> = Vec::new();
        let mut total: u64 = 0;
        let mut j: usize = 0;
        proof {
            assert(opts@.take(0) =~= Seq::<QuestionOption>::empty());
        }
        while j < m
            invariant
                0 <= j <= m,
                counts@.len() == j,
                forall|t: int|
                    0 <= t < j ==> (#[trigger] counts@[t]) as nat
                        == crate::store::count_selections(self.option_responses@, opts@[t].id),
                total as nat == sum_counts(self.option_responses@, opts@.take(j as int)),
                total <= oa_table_len as u64,
            decreases m - j,
        {
            proof {
                assert(opts@.take(j as int + 1).drop_last() =~= opts@.take(j as int));
                assert(opts@.take(j as int + 1).last() == opts@[j as int]);
                assert forall|i1: int, j1: int|
                    #![trigger opts@.take(j as int + 1)[i1], opts@.take(j as int + 1)[j1]]
                    0 <= i1 < j1 < opts@.take(j as int + 1).len() implies opts@.take(
                    j as int + 1,
                )[i1].id != opts@.take(j as int + 1)[j1].id by {
                    assert(opts@.take(j as int + 1)[i1] == opts@[i1]);
                    assert(opts@.take(j as int + 1)[j1] == opts@[j1]);
                }
                lemma_sum_counts_bound(self.option_responses@, opts@.take(j as int + 1));
            }
            let c = self.count_selections_for(opts[j].id);
            proof {
                assert(sum_counts(self.option_responses@, opts@.take(j as int + 1)) == total as nat
                    + c as nat);
            }
            counts.push(c);
            total = total + c;
            j = j + 1;
        }
        proof {
            assert(opts@.take(m as int) =~= opts@);
        }
        let mut ocs: Vec<OptionCount> = Vec::new();
        let mut j: usize = 0;
        while j < m
            invariant
                0 <= j <= m,
                ocs@.len() == j,
                total as nat == sum_counts(self.option_responses@, opts@),
                forall|t: int|
                    0 <= t < j ==> {
                        let c = #[trigger] ocs@[t];
                        &&& c.option_id == opts@[t].id
                        &&& c.option_text == opts@[t].option_text
                        &&& c.count as nat == crate::store::count_selections(
                            self.option_responses@,
                            opts@[t].id,
                        )
                        &&& c.percentage_hundredths as nat == percentage_hundredths_of(
                            crate::store::count_selections(self.option_responses@, opts@[t].id),
                            sum_counts(self.option_responses@, opts@),
                        )
                    },
            decreases m - j,
        {
            proof {
                lemma_sum_counts_member(self.option_responses@, opts@, j as int);
            }
            let c = counts[j];
            let pct = percentage_hundredths(c, total);
            ocs.push(
                OptionCount {
                    option_id: opts[j].id,
                    option_text: opts[j].option_text.clone(),
                    count: c,
                    percentage_hundredths: pct,
                },
            );
            j = j + 1;
        }
        QuestionStatistics {
            question_id: q.id,
            title: q.title.clone(),
            question_type: q.question_type.clone(),
            text_responses: None,
            option_counts: Some(ocs),
        }
    }

    /// Compute one questionnaire's statistics: the total response count and,
    /// per question in display order, either the raw listing of its text
    /// values or, for a choice question, every option's selection count and
    /// share (options with zero selections included). Only the creator may
    /// see them.
    pub fn get_questionnaire_statistics(&self, user_id: u64, questionnaire_id: u64) -> (r:
        AppResult<QuestionnaireStatistics>)
        requires
            self.wf(),
        ensures
            match find_questionnaire(self.questionnaires@, questionnaire_id) {
                None => r == Err::<QuestionnaireStatistics, AppError>(AppError::NotFound),
                Some(q0) => {
                    if q0.creator_id != user_id {
                        r == Err::<QuestionnaireStatistics, AppError>(AppError::Permission)
                    } else {
                        r matches Ok(st) && {
                            &&& st.questionnaire_id == questionnaire_id
                            &&& st.title == q0.title
                            &&& st.response_count as nat == headers_of(
                                self.questionnaire_responses@,
                                questionnaire_id,
                            ).len()
                            &&& st.questions@.len() == stats_questions(
                                questions_of(self.questions@, questionnaire_id),
                            ).len()
                            &&& forall|k: int|
                                0 <= k < st.questions@.len() ==> question_stat_ok(
                                    #[trigger] st.questions@[k],
                                    stats_questions(
                                        questions_of(self.questions@, questionnaire_id),
                                    )[k],
                                    *self,
                                    questionnaire_id,
                                )
                        }
                    }
                },
            },
    {
        let q0 = match self.questionnaire_by_id(questionnaire_id) {
            None => {
                return Err(AppError::NotFound);
            },
            Some(q) => q,
        };
        if q0.creator_id != user_id {
            return Err(AppError::Permission);
        }
        let response_count = self.count_headers_of(questionnaire_id);
        let qs = self.collect_questions(questionnaire_id);
        let n = qs.len();
        let mut stats: Vec<QuestionStatistics> = Vec::new();
        let mut k: usize = 0;
        proof {
            assert(qs@.take(0) =~= Seq::<Question>::empty());
        }
        while k < n
            invariant
                0 <= k <= n,
                qs@ == questions_of(self.questions@, questionnaire_id),
                stats@.len() == stats_questions(qs@.take(k as int)).len(),
                forall|t: int|
                    0 <= t < stats@.len() ==> question_stat_ok(
                        #[trigger] stats@[t],
                        stats_questions(qs@.take(k as int))[t],
                        *self,
                        questionnaire_id,
                    ),
            decreases n - k,
        {
            proof {
                assert(qs@.take(k as int + 1) =~= qs@.take(k as int).push(qs@[k as int]));
            }
            let q = &qs[k];
            let is_text = string_eq_lit(&q.question_type, "text");
            let choice = crate::questionnaire::is_choice(&q.question_type);
            if is_text {
                let stat = self.text_question_stat(questionnaire_id, q);
                stats.push(stat);
            } else if choice {
                let stat = self.choice_question_stat(q);
                stats.push(stat);
                proof {
                    reveal_strlit("text");
                    reveal_strlit("radio");
                    reveal_strlit("checkbox");
                    assert(qs@[k as int].question_type@ != "text"@);
                }
            } else {
                proof {
                    reveal_strlit("text");
                    reveal_strlit("radio");
                    reveal_strlit("checkbox");
                }
            }
            k = k + 1;
        }
        proof {
            assert(qs@.take(n as int) =~= qs@);
        }
        Ok(
            QuestionnaireStatistics {
                questionnaire_id,
                title: q0.title,
                response_count,
                questions: stats,
            },
        )
    }
}


// ---------------------------------------------------------------------------
// Response listings and details.
// ---------------------------------------------------------------------------

/// One page of a listing: entries `(page-1)*page_size ..` up to `page_size`
/// of them.
pub open spec fn page_slice<T>(s: Seq<T>, page: u64, page_size: u64) -> Seq<T> {
    let start = (page - 1) as int * page_size as int;
    if start >= s.len() {
        Seq::empty()
    } else if start + page_size >= s.len() {
        s.subrange(start, s.len() as int)
    } else {
        s.subrange(start, start + page_size)
    }
}

/// How one listing row relates to its header: the respondent's username is
/// shown where the submission was identified and the user still exists.
pub open spec fn response_item_ok(
    item: ResponseListItem,
    h: QuestionnaireResponse,
    users: Seq<User>,
) -> bool {
    &&& item.id == h.id
    &&& item.questionnaire_id == h.questionnaire_id
    &&& item.created_at == h.created_at
    &&& item.respondent == match h.respondent_id {
        Some(uid) => match find_user_by_id(users, uid) {
            Some(u) => Some(u.username),
            None => None::<String>,
        },
        None => None::<String>,
    }
}

/// The labels of the existing options an answer row selected, in table
/// order, before empty labels are dropped.
pub open spec fn labels_found(sel: Seq<OptionResponse>, os: Seq<QuestionOption>) -> Seq<String>
    decreases sel.len(),
{
    if sel.len() == 0 {
        Seq::empty()
    } else {
        let rest = labels_found(sel.drop_last(), os);
        match crate::store::find_option_by_id(os, sel.last().option_id) {
            Some(o) => rest.push(o.option_text),
            None => rest,
        }
    }
}

/// The same labels with empty ones dropped.
pub open spec fn nonempty_labels(ls: Seq<String>) -> Seq<String> {
    ls.filter(|l: String| l@.len() != 0)
}

/// How one detail entry relates to its answer row, question and the value
/// tables.
pub open spec fn answer_detail_ok(
    d: AnswerDetail,
    qa: QuestionResponse,
    q: Question,
    ts: Seq<TextResponse>,
    ps: Seq<OptionResponse>,
    os: Seq<QuestionOption>,
) -> bool {
    &&& d.question_id == q.id
    &&& d.question_title == q.title
    &&& d.question_type == q.question_type
    &&& d.text_value == match crate::store::find_text_for(ts, qa.id) {
        Some(t) => Some(t.text_value),
        None => None::<String>,
    }
    &&& {
        let found = labels_found(crate::store::oas_of_qa(ps, qa.id), os);
        match d.selected_options {
            Some(v) => found.len() != 0 && v@ == nonempty_labels(found),
            None => found.len() == 0,
        }
    }
}

/// The answer rows a response detail shows: those of the response whose
/// question still exists.
pub open spec fn detailed_qas(
    qas: Seq<QuestionResponse>,
    header_id: u64,
    questions: Seq<Question>,
) -> Seq<QuestionResponse> {
    qas.filter(
        |a: QuestionResponse|
            a.questionnaire_response_id == header_id && crate::store::find_question(
                questions,
                a.question_id,
            ) is Some,
    )
}

impl Store {
    /// List one questionnaire's responses, newest first, one page at a time.
    /// Only the creator may see them.
    pub fn get_questionnaire_responses(
        &self,
        user_id: u64,
        questionnaire_id: u64,
        page: u64,
        page_size: u64,
    ) -> (r: AppResult<Vec<ResponseListItem>>)
        requires
            page >= 1,
            (page - 1) * page_size + page_size <= u64::MAX,
        ensures
            match find_questionnaire(self.questionnaires@, questionnaire_id) {
                None => r == Err::<Vec<ResponseListItem>, AppError>(AppError::NotFound),
                Some(q0) => {
                    if q0.creator_id != user_id {
                        r == Err::<Vec<ResponseListItem>, AppError>(AppError::Permission)
                    } else {
                        r matches Ok(items) && {
                            let paged = page_slice(
                                headers_of(
                                    self.questionnaire_responses@,
                                    questionnaire_id,
                                ).reverse(),
                                page,
                                page_size,
                            );
                            &&& items@.len() == paged.len()
                            &&& forall|k: int|
                                0 <= k < paged.len() ==> response_item_ok(
                                    #[trigger] items@[k],
                                    paged[k],
                                    self.users@,
                                )
                        }
                    }
                },
            },
    {
        let q0 = match self.questionnaire_by_id(questionnaire_id) {
            None => {
                return Err(AppError::NotFound);
            },
            Some(q) => q,
        };
        if q0.creator_id != user_id {
            return Err(AppError::Permission);
        }
        let hv = self.collect_headers_of(questionnaire_id);
        let len = hv.len();
        let offset: u64 = (page - 1) * page_size;
        let ghost rev = headers_of(self.questionnaire_responses@, questionnaire_id).reverse();
        let ghost paged = page_slice(rev, page, page_size);
        let mut items: Vec<ResponseListItem> = Vec::new();
        let mut t: usize = 0;
        while (t as u64) < page_size && offset + (t as u64) < (len as u64)
            invariant
                0 <= t,
                t as u64 <= page_size,
                t > 0 ==> offset + t <= len,
                hv@ == headers_of(self.questionnaire_responses@, questionnaire_id),
                items@.len() == t,
                forall|k: int|
                    0 <= k < t ==> response_item_ok(
                        #[trigger] items@[k],
                        rev[offset + k],
                        self.users@,
                    ),
            decreases page_size - t,
        {
            let idx: usize = len - 1 - ((offset as usize) + t);
            let h = &hv[idx];
            let respondent: Option<String> = match h.respondent_id {
                Some(uid) => match self.user_by_id(uid) {
                    Some(u) => Some(u.username),
                    None => None,
                },
                None => None,
            };
            items.push(
                ResponseListItem {
                    id: h.id,
                    questionnaire_id: h.questionnaire_id,
                    respondent,
                    created_at: h.created_at,
                },
            );
            proof {
                assert(rev[offset + t] == hv@[len - 1 - (offset + t)]);
            }
            t = t + 1;
        }
        proof {
            assert(items@.len() == paged.len());
            assert forall|k: int| 0 <= k < paged.len() implies response_item_ok(
                #[trigger] items@[k],
                paged[k],
                self.users@,
            ) by {
                assert(paged[k] == rev[offset + k]);
            }
        }
        Ok(items)
    }

    /// The labels of the options one answer row selected, with empty labels
    /// dropped; nothing when no selected option still exists.
    fn selected_labels(&self, qa_id: u64) -> (r: Option<Vec<String>>)
        ensures
            ({
                let found = labels_found(
                    crate::store::oas_of_qa(self.option_responses@, qa_id),
                    self.question_options@,
                );
                match r {
                    Some(v) => found.len() != 0 && v@ == nonempty_labels(found),
                    None => found.len() == 0,
                }
            }),
    {
        let sel = self.collect_oas_of_qa(qa_id);
        let n = sel.len();
        let mut found: Vec<String> = Vec::new();
        let mut j: usize = 0;
        proof {
            assert(sel@.take(0) =~= Seq::<OptionResponse>::empty());
        }
        while j < n
            invariant
                0 <= j <= n,
                found@ == labels_found(sel@.take(j as int), self.question_options@),
            decreases n - j,
        {
            proof {
                assert(sel@.take(j as int + 1).drop_last() =~= sel@.take(j as int));
            }
            match self.option_by_id(sel[j].option_id) {
                Some(o) => {
                    found.push(o.option_text);
                },
                None => {},
            }
            j = j + 1;
        }
        proof {
            assert(sel@.take(n as int) =~= sel@);
        }
        if found.len() == 0 {
            return None;
        }
        let m = found.len();
        let mut keep: Vec<String> = Vec::new();
        let mut j: usize = 0;
        proof {
            assert(found@.take(0) =~= Seq::<String>::empty());
        }
        while j < m
            invariant
                0 <= j <= m,
                keep@ == nonempty_labels(found@.take(j as int)),
            decreases m - j,
        {
            proof {
                assert(found@.take(j as int + 1) =~= found@.take(j as int).push(
                    found@[j as int],
                ));
            }
            if !found[j].as_str().is_empty() {
                keep.push(found[j].clone());
            }
            j = j + 1;
        }
        proof {
            assert(found@.take(m as int) =~= found@);
        }
        Some(keep)
    }

    /// Read one submission in full: for every answered question that still
    /// exists, the question's title and type, its text value if any, and
    /// every selected option's label. Only the questionnaire's creator may
    /// see it.
    pub fn get_response_detail(&self, user_id: u64, response_id: u64) -> (r: AppResult<
        ResponseDetails,
    >)
        ensures
            match crate::store::find_header(self.questionnaire_responses@, response_id) {
                None => r == Err::<ResponseDetails, AppError>(AppError::NotFound),
                Some(h) => match find_questionnaire(self.questionnaires@, h.questionnaire_id) {
                    None => r == Err::<ResponseDetails, AppError>(AppError::NotFound),
                    Some(qn) => {
                        if qn.creator_id != user_id {
                            r == Err::<ResponseDetails, AppError>(AppError::Permission)
                        } else {
                            r matches Ok(d) && {
                                &&& d.id == h.id
                                &&& d.questionnaire_id == h.questionnaire_id
                                &&& d.questionnaire_title == qn.title
                                &&& d.created_at == h.created_at
                                &&& d.respondent == match h.respondent_id {
                                    Some(uid) => match find_user_by_id(self.users@, uid) {
                                        Some(u) => Some(u.username),
                                        None => None::<String>,
                                    },
                                    None => None::<String>,
                                }
                                &&& d.answers@.len() == detailed_qas(
                                    self.question_responses@,
                                    response_id,
                                    self.questions@,
                                ).len()
                                &&& forall|k: int|
                                    0 <= k < d.answers@.len() ==> match crate::store::find_question(
                                        self.questions@,
                                        detailed_qas(
                                            self.question_responses@,
                                            response_id,
                                            self.questions@,
                                        )[k].question_id,
                                    ) {
                                        Some(q) => answer_detail_ok(
                                            #[trigger] d.answers@[k],
                                            detailed_qas(
                                                self.question_responses@,
                                                response_id,
                                                self.questions@,
                                            )[k],
                                            q,
                                            self.text_responses@,
                                            self.option_responses@,
                                            self.question_options@,
                                        ),
                                        None => false,
                                    }
                            }
                        }
                    },
                },
            },
    {
        let h = match self.header_by_id(response_id) {
            None => {
                return Err(AppError::NotFound);
            },
            Some(h) => h,
        };
        let qn = match self.questionnaire_by_id(h.questionnaire_id) {
            None => {
                return Err(AppError::NotFound);
            },
            Some(q) => q,
        };
        if qn.creator_id != user_id {
            return Err(AppError::Permission);
        }
        let respondent: Option<String> = match h.respondent_id {
            Some(uid) => match self.user_by_id(uid) {
                Some(u) => Some(u.username),
                None => None,
            },
            None => None,
        };
        let n = self.question_responses.len();
        let mut answers: Vec<AnswerDetail> = Vec::new();
        let mut i: usize = 0;
        proof {
            assert(self.question_responses@.take(0) =~= Seq::<QuestionResponse>::empty());
        }
        while i < n
            invariant
                0 <= i <= n,
                answers@.len() == detailed_qas(
                    self.question_responses@.take(i as int),
                    response_id,
                    self.questions@,
                ).len(),
                forall|k: int|
                    0 <= k < answers@.len() ==> match crate::store::find_question(
                        self.questions@,
                        detailed_qas(
                            self.question_responses@.take(i as int),
                            response_id,
                            self.questions@,
                        )[k].question_id,
                    ) {
                        Some(q) => answer_detail_ok(
                            #[trigger] answers@[k],
                            detailed_qas(
                                self.question_responses@.take(i as int),
                                response_id,
                                self.questions@,
                            )[k],
                            q,
                            self.text_responses@,
                            self.option_responses@,
                            self.question_options@,
                        ),
                        None => false,
                    },
            decreases n - i,
        {
            proof {
                assert(self.question_responses@.take(i as int + 1)
                    =~= self.question_responses@.take(i as int).push(
                    self.question_responses@[i as int],
                ));
            }
            let qa = &self.question_responses[i];
            if qa.questionnaire_response_id == response_id {
                match self.question_by_id(qa.question_id) {
                    Some(q) => {
                        let text_value: Option<String> = match self.text_for_answer(qa.id) {
                            Some(t) => Some(t.text_value),
                            None => None,
                        };
                        let selected = self.selected_labels(qa.id);
                        answers.push(
                            AnswerDetail {
                                question_id: q.id,
                                question_title: q.title.clone(),
                                question_type: q.question_type.clone(),
                                text_value,
                                selected_options: selected,
                            },
                        );
                    },
                    None => {},
                }
            }
            i = i + 1;
        }
        proof {
            assert(self.question_responses@.take(n as int) =~= self.question_responses@);
        }
        Ok(
            ResponseDetails {
                id: h.id,
                questionnaire_id: h.questionnaire_id,
                questionnaire_title: qn.title,
                respondent,
                created_at: h.created_at,
                answers,
            },
        )
    }
}


} // verus!
