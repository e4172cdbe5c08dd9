//! The questionnaire definition manager: creates, rewrites, reads and
//! deletes a questionnaire together with its whole question/option subtree,
//! as one atomic unit. Every mutating operation checks the actor against the
//! stored creator id.

use vstd::prelude::*;
use crate::error::{AppError, AppResult};
use crate::questionnaire::{
    CreateQuestionnaireRequest, Question, QuestionOption, QuestionRequest, Questionnaire,
    QuestionnaireListItem, QuestionnaireListResponse, QuestionnaireResponse, QuestionResponse,
    is_choice, is_choice_type,
};
use crate::user::User;
use crate::response::{
    OptionResponse, QuestionResponse as QuestionResponse2,
    QuestionnaireResponse as HeaderRow, TextResponse,
};
use crate::store::{
    Store, find_questionnaire, option_labels, options_not_under, options_of_question,
    orders_ok_options, orders_ok_questions, oas_not_under, qas_not_under, question_in,
    questionnaires_not, questions_not_of, questions_of, headers_not_of, tas_not_under,
};

verus! {

broadcast use {crate::seq_facts::group_filter_facts, vstd::seq_lib::group_filter_ensures};

/// The questionnaire row a definition request inserts.
pub open spec fn new_questionnaire_row(
    req: CreateQuestionnaireRequest,
    id: u64,
    creator_id: u64,
    now: i64,
) -> Questionnaire {
    Questionnaire {
        id,
        title: req.title,
        description: req.description,
        is_public: req.is_public,
        creator_id,
        created_at: now,
        updated_at: now,
    }
}

/// The question rows a definition request inserts: one per requested
/// question, in input order, with ids issued consecutively from `q_base` and
/// display orders 1, 2, 3, ...
pub open spec fn new_question_rows(
    reqs: Seq<QuestionRequest>,
    qid: u64,
    q_base: u64,
    now: i64,
) -> Seq<Question> {
    Seq::new(
        reqs.len(),
        |k: int|
            Question {
                id: (q_base + k) as u64,
                questionnaire_id: qid,
                title: reqs[k].title,
                question_type: reqs[k].question_type,
                required: reqs[k].required,
                display_order: (k + 1) as u64,
                created_at: now,
                updated_at: now,
            },
    )
}

/// The option rows inserted for one requested question: its given options in
/// order for a choice-type question, and none otherwise.
pub open spec fn option_block(req: QuestionRequest, question_id: u64, start: u64, now: i64) -> Seq<
    QuestionOption,
> {
    if is_choice_type(req.question_type@) {
        Seq::new(
            req.options@.len(),
            |j: int|
                QuestionOption {
                    id: (start + j) as u64,
                    question_id,
                    option_text: req.options@[j],
                    display_order: (j + 1) as u64,
                    created_at: now,
                    updated_at: now,
                },
        )
    } else {
        Seq::empty()
    }
}

/// The option rows inserted for the first `k` requested questions, with
/// option ids issued consecutively from `o_base`.
pub open spec fn new_option_rows(
    reqs: Seq<QuestionRequest>,
    k: int,
    q_base: u64,
    o_base: u64,
    now: i64,
) -> Seq<QuestionOption>
    decreases k,
{
    if k <= 0 {
        Seq::empty()
    } else {
        let rest = new_option_rows(reqs, k - 1, q_base, o_base, now);
        rest + option_block(
            reqs[k - 1],
            (q_base + k - 1) as u64,
            (o_base + rest.len()) as u64,
            now,
        )
    }
}

/// How many option rows the first `k` requested questions insert.
pub open spec fn option_budget(reqs: Seq<QuestionRequest>, k: int) -> nat
    decreases k,
{
    if k <= 0 {
        0
    } else {
        option_budget(reqs, k - 1) + if is_choice_type(reqs[k - 1].question_type@) {
            reqs[k - 1].options@.len()
        } else {
            0
        }
    }
}

pub proof fn lemma_new_option_rows_len(
    reqs: Seq<QuestionRequest>,
    k: int,
    q_base: u64,
    o_base: u64,
    now: i64,
)
    ensures
        new_option_rows(reqs, k, q_base, o_base, now).len() == option_budget(reqs, k),
    decreases k,
{
    if k > 0 {
        lemma_new_option_rows_len(reqs, k - 1, q_base, o_base, now);
    }
}

pub proof fn lemma_option_budget_mono(reqs: Seq<QuestionRequest>, k1: int, k2: int)
    requires
        k1 <= k2,
    ensures
        option_budget(reqs, k1) <= option_budget(reqs, k2),
    decreases k2,
{
    if k1 < k2 && k2 > 0 {
        lemma_option_budget_mono(reqs, k1, k2 - 1);
    }
}

/// Every inserted option row carries a consecutive id from `o_base` and a
/// question id of one of the first `k` requested questions.
pub proof fn lemma_new_option_rows_facts(
    reqs: Seq<QuestionRequest>,
    k: int,
    q_base: u64,
    o_base: u64,
    now: i64,
)
    requires
        0 <= k,
        q_base + k <= u64::MAX,
        o_base + option_budget(reqs, k) <= u64::MAX,
    ensures
        forall|m: int|
            0 <= m < new_option_rows(reqs, k, q_base, o_base, now).len() ==> {
                let row = #[trigger] new_option_rows(reqs, k, q_base, o_base, now)[m];
                row.id == o_base + m && q_base <= row.question_id < q_base + k
            },
    decreases k,
{
    lemma_new_option_rows_len(reqs, k, q_base, o_base, now);
    if k > 0 {
        lemma_option_budget_mono(reqs, k - 1, k);
        lemma_new_option_rows_facts(reqs, k - 1, q_base, o_base, now);
        lemma_new_option_rows_len(reqs, k - 1, q_base, o_base, now);
    }
}

/// Among the rows inserted for the first `k` requested questions, the options
/// of question `q_base + t` are exactly question `t`'s block.
pub proof fn lemma_new_option_rows_of_question(
    reqs: Seq<QuestionRequest>,
    k: int,
    t: int,
    q_base: u64,
    o_base: u64,
    now: i64,
)
    requires
        0 <= t < k,
        q_base + k <= u64::MAX,
        o_base + option_budget(reqs, k) <= u64::MAX,
    ensures
        options_of_question(new_option_rows(reqs, k, q_base, o_base, now), (q_base + t) as u64)
            == option_block(
            reqs[t],
            (q_base + t) as u64,
            (o_base + option_budget(reqs, t)) as u64,
            now,
        ),
    decreases k,
{
    let rest = new_option_rows(reqs, k - 1, q_base, o_base, now);
    let block = option_block(reqs[k - 1], (q_base + k - 1) as u64, (o_base + rest.len()) as u64, now);
    lemma_new_option_rows_len(reqs, k - 1, q_base, o_base, now);
    lemma_option_budget_mono(reqs, k - 1, k);
    lemma_new_option_rows_facts(reqs, k - 1, q_base, o_base, now);
    let target = (q_base + t) as u64;
    if t == k - 1 {
        assert(options_of_question(rest, target) == Seq::<QuestionOption>::empty());
        assert(forall|j: int|
            0 <= j < block.len() ==> (#[trigger] block[j]).question_id == target);
        assert(options_of_question(block, target) == block);
        assert(options_of_question(rest + block, target) == options_of_question(rest, target)
            + options_of_question(block, target));
        assert(options_of_question(rest, target) + block =~= block);
    } else {
        lemma_new_option_rows_of_question(reqs, k - 1, t, q_base, o_base, now);
        assert(forall|j: int|
            0 <= j < block.len() ==> (#[trigger] block[j]).question_id == q_base + k - 1);
        assert(options_of_question(block, target) == Seq::<QuestionOption>::empty());
        assert(options_of_question(rest + block, target) == options_of_question(rest, target)
            + options_of_question(block, target));
        assert(options_of_question(rest, target) + Seq::<QuestionOption>::empty()
            =~= options_of_question(rest, target));
    }
}

/// How one rendered question of a definition read-back relates to the
/// request it came from.
pub open spec fn rendered_request_question(
    out: QuestionResponse,
    req: QuestionRequest,
    id: u64,
) -> bool {
    &&& out.id == id
    &&& out.title == req.title
    &&& out.question_type == req.question_type
    &&& out.required == req.required
    &&& out.options@ == if is_choice_type(req.question_type@) {
        req.options@
    } else {
        Seq::<String>::empty()
    }
}


/// Build the question and option rows that one definition request inserts,
/// together with the hydrated questions to hand back, without touching the
/// store: the caller commits them as one unit.
fn build_subtree_rows(req: &CreateQuestionnaireRequest, qid: u64, q_base: u64, o_base: u64, now: i64) -> (r: (
    Vec<Question>,
    Vec<QuestionOption>,
    Vec<QuestionResponse>,
    u64,
    u64,
))
    requires
        q_base + req.questions@.len() <= u64::MAX,
        o_base + option_budget(req.questions@, req.questions@.len() as int) <= u64::MAX,
    ensures
        r.0@ == new_question_rows(req.questions@, qid, q_base, now),
        r.1@ == new_option_rows(req.questions@, req.questions@.len() as int, q_base, o_base, now),
        r.2@.len() == req.questions@.len(),
        forall|t: int|
            0 <= t < req.questions@.len() ==> rendered_request_question(
                #[trigger] r.2@[t],
                req.questions@[t],
                (q_base + t) as u64,
            ),
        r.3 == q_base + req.questions@.len(),
        r.4 == o_base + option_budget(req.questions@, req.questions@.len() as int),
{
    let ghost reqs = req.questions@;
    let n = req.questions.len();

    let mut new_questions: Vec<Question> = Vec::new();
    let mut new_options: Vec<QuestionOption> = Vec::new();
    let mut rendered: Vec<QuestionResponse> = Vec::new();
    let mut next_q: u64 = q_base;
    let mut next_o: u64 = o_base;

    let ghost expected_questions = new_question_rows(reqs, qid, q_base, now);
    let mut k: usize = 0;
    while k < n
        invariant
            0 <= k <= n,
            next_q == q_base + k,
            next_o == o_base + option_budget(reqs, k as int),
            new_questions@ == expected_questions.take(k as int),
            new_options@ == new_option_rows(reqs, k as int, q_base, o_base, now),
            rendered@.len() == k,
            forall|t: int|
                0 <= t < k ==> rendered_request_question(
                    #[trigger] rendered@[t],
                    reqs[t],
                    (q_base + t) as u64,
                ),
        decreases n - k,
    {
        let question = &req.questions[k];
        let question_id = next_q;
        proof {
            lemma_option_budget_mono(reqs, k as int, n as int);
            lemma_option_budget_mono(reqs, k as int + 1, n as int);
            lemma_new_option_rows_len(reqs, k as int, q_base, o_base, now);
        }
        next_q = next_q + 1;
        new_questions.push(
            Question {
                id: question_id,
                questionnaire_id: qid,
                title: question.title.clone(),
                question_type: question.question_type.clone(),
                required: question.required,
                display_order: (k as u64) + 1,
                created_at: now,
                updated_at: now,
            },
        );
        proof {
            assert(expected_questions.take(k as int + 1) =~= expected_questions.take(
                k as int,
            ).push(expected_questions[k as int]));
        }
        let choice = is_choice(&question.question_type);
        let mut opts: Vec<String> = Vec::new();
        let ghost block_start = next_o;
        let ghost block = option_block(reqs[k as int], question_id, next_o, now);
        if choice {
            let m = question.options.len();
            let mut j: usize = 0;
            while j < m
                invariant
                    0 <= j <= m,
                    choice,
                    next_o == block_start + j,
                    new_options@ == new_option_rows(reqs, k as int, q_base, o_base, now)
                        + block.take(j as int),
                    opts@ == reqs[k as int].options@.take(j as int),
                decreases m - j,
            {
                let oid = next_o;
                next_o = oid + 1;
                new_options.push(
                    QuestionOption {
                        id: oid,
                        question_id,
                        option_text: question.options[j].clone(),
                        display_order: (j as u64) + 1,
                        created_at: now,
                        updated_at: now,
                    },
                );
                opts.push(question.options[j].clone());
                proof {
                    assert(block.take(j as int + 1) =~= block.take(j as int).push(
                        block[j as int],
                    ));
                    assert(reqs[k as int].options@.take(j as int + 1)
                        =~= reqs[k as int].options@.take(j as int).push(
                        reqs[k as int].options@[j as int],
                    ));
                    assert(new_option_rows(reqs, k as int, q_base, o_base, now) + block.take(
                        j as int,
                    ).push(block[j as int]) =~= new_option_rows(
                        reqs,
                        k as int,
                        q_base,
                        o_base,
                        now,
                    ) + block.take(j as int + 1));
                }
                j = j + 1;
            }
            proof {
                assert(block.take(m as int) =~= block);
                assert(opts@ =~= reqs[k as int].options@);
                assert(new_option_rows(reqs, k as int + 1, q_base, o_base, now)
                    == new_option_rows(reqs, k as int, q_base, o_base, now) + block);
            }
        } else {
            proof {
                assert(block == Seq::<QuestionOption>::empty());
                assert(new_option_rows(reqs, k as int + 1, q_base, o_base, now)
                    =~= new_option_rows(reqs, k as int, q_base, o_base, now) + block);
                assert(new_option_rows(reqs, k as int, q_base, o_base, now) + block
                    =~= new_option_rows(reqs, k as int, q_base, o_base, now));
                assert(opts@ =~= Seq::<String>::empty());
            }
        }
        rendered.push(
            QuestionResponse {
                id: question_id,
                title: question.title.clone(),
                question_type: question.question_type.clone(),
                required: question.required,
                options: opts,
            },
        );
        k = k + 1;
    }
    proof {
        assert(expected_questions.take(n as int) =~= expected_questions);
    }
    (new_questions, new_options, rendered, next_q, next_o)
}

impl Store {
    /// Create a questionnaire with its whole question/option tree, as one
    /// atomic unit, and return it hydrated. Question ids and option ids are
    /// issued consecutively; display orders equal input position plus one.
    pub fn create_questionnaire(
        &mut self,
        user_id: u64,
        req: &CreateQuestionnaireRequest,
        now: i64,
    ) -> (r: AppResult<QuestionnaireResponse>)
        requires
            old(self).wf(),
            old(self).next_questionnaire_id < u64::MAX,
            old(self).next_question_id + req.questions@.len() <= u64::MAX,
            old(self).next_option_id + option_budget(
                req.questions@,
                req.questions@.len() as int,
            ) <= u64::MAX,
        ensures
            final(self).wf(),
            final(self).questionnaires@ == old(self).questionnaires@.push(
                new_questionnaire_row(*req, old(self).next_questionnaire_id, user_id, now),
            ),
            final(self).questions@ == old(self).questions@ + new_question_rows(
                req.questions@,
                old(self).next_questionnaire_id,
                old(self).next_question_id,
                now,
            ),
            final(self).question_options@ == old(self).question_options@ + new_option_rows(
                req.questions@,
                req.questions@.len() as int,
                old(self).next_question_id,
                old(self).next_option_id,
                now,
            ),
            final(self).questionnaire_responses@ == old(self).questionnaire_responses@,
            final(self).question_responses@ == old(self).question_responses@,
            final(self).text_responses@ == old(self).text_responses@,
            final(self).option_responses@ == old(self).option_responses@,
            final(self).users@ == old(self).users@,
            final(self).next_questionnaire_id == old(self).next_questionnaire_id + 1,
            final(self).next_question_id == old(self).next_question_id + req.questions@.len(),
            final(self).next_option_id == old(self).next_option_id + option_budget(
                req.questions@,
                req.questions@.len() as int,
            ),
            final(self).next_response_id == old(self).next_response_id,
            final(self).next_answer_id == old(self).next_answer_id,
            final(self).next_text_id == old(self).next_text_id,
            final(self).next_option_answer_id == old(self).next_option_answer_id,
            final(self).next_user_id == old(self).next_user_id,
            r matches Ok(resp) && {
                &&& resp.id == old(self).next_questionnaire_id
                &&& resp.title == req.title
                &&& resp.description == req.description
                &&& resp.is_public == req.is_public
                &&& resp.creator_id == user_id
                &&& resp.created_at == now
                &&& resp.updated_at == now
                &&& resp.questions@.len() == req.questions@.len()
                &&& forall|k: int|
                    0 <= k < req.questions@.len() ==> rendered_request_question(
                        #[trigger] resp.questions@[k],
                        req.questions@[k],
                        (old(self).next_question_id + k) as u64,
                    )
            },
    {
        let qid = self.next_questionnaire_id;
        let q_base = self.next_question_id;
        let o_base = self.next_option_id;

        let (mut new_questions, mut new_options, rendered, next_q, next_o) = build_subtree_rows(
            req,
            qid,
            q_base,
            o_base,
            now,
        );

        // Commit: one atomic switch of the store, as the storage gateway's
        // transaction would make visible.
        let row = Questionnaire {
            id: qid,
            title: req.title.clone(),
            description: req.description.clone(),
            is_public: req.is_public,
            creator_id: user_id,
            created_at: now,
            updated_at: now,
        };
        self.next_questionnaire_id = qid + 1;
        self.next_question_id = next_q;
        self.next_option_id = next_o;
        self.questionnaires.push(row);
        self.questions.append(&mut new_questions);
        self.question_options.append(&mut new_options);

        proof {
            lemma_create_preserves_wf(*old(self), *self, *req, user_id, now);
        }

        Ok(
            QuestionnaireResponse {
                id: qid,
                title: req.title.clone(),
                description: req.description.clone(),
                is_public: req.is_public,
                creator_id: user_id,
                created_at: now,
                updated_at: now,
                questions: rendered,
            },
        )
    }
}

/// Creating a questionnaire keeps the store well-formed: the new rows carry
/// fresh consecutive ids above every stored id, and the new subtree's
/// display orders are contiguous.
proof fn lemma_create_preserves_wf(
    pre: Store,
    post: Store,
    req: CreateQuestionnaireRequest,
    user_id: u64,
    now: i64,
)
    requires
        pre.wf(),
        pre.next_questionnaire_id < u64::MAX,
        pre.next_question_id + req.questions@.len() <= u64::MAX,
        pre.next_option_id + option_budget(req.questions@, req.questions@.len() as int)
            <= u64::MAX,
        post.questionnaires@ == pre.questionnaires@.push(
            new_questionnaire_row(req, pre.next_questionnaire_id, user_id, now),
        ),
        post.questions@ == pre.questions@ + new_question_rows(
            req.questions@,
            pre.next_questionnaire_id,
            pre.next_question_id,
            now,
        ),
        post.question_options@ == pre.question_options@ + new_option_rows(
            req.questions@,
            req.questions@.len() as int,
            pre.next_question_id,
            pre.next_option_id,
            now,
        ),
        post.questionnaire_responses@ == pre.questionnaire_responses@,
        post.question_responses@ == pre.question_responses@,
        post.text_responses@ == pre.text_responses@,
        post.option_responses@ == pre.option_responses@,
        post.users@ == pre.users@,
        post.next_questionnaire_id == pre.next_questionnaire_id + 1,
        post.next_question_id == pre.next_question_id + req.questions@.len(),
        post.next_option_id == pre.next_option_id + option_budget(
            req.questions@,
            req.questions@.len() as int,
        ),
        post.next_response_id == pre.next_response_id,
        post.next_answer_id == pre.next_answer_id,
        post.next_text_id == pre.next_text_id,
        post.next_option_answer_id == pre.next_option_answer_id,
        post.next_user_id == pre.next_user_id,
    ensures
        post.wf(),
{
    let reqs = req.questions@;
    let n = reqs.len() as int;
    let qid = pre.next_questionnaire_id;
    let q_base = pre.next_question_id;
    let o_base = pre.next_option_id;
    let qrows = new_question_rows(reqs, qid, q_base, now);
    let orows = new_option_rows(reqs, n, q_base, o_base, now);
    lemma_new_option_rows_len(reqs, n, q_base, o_base, now);
    lemma_new_option_rows_facts(reqs, n, q_base, o_base, now);

    // Questionnaire ids stay unique and bounded.
    assert forall|i: int, j: int|
        #![trigger post.questionnaires@[i], post.questionnaires@[j]]
        0 <= i < j < post.questionnaires@.len() implies post.questionnaires@[i].id
        != post.questionnaires@[j].id by {
        if j < pre.questionnaires@.len() {
            assert(post.questionnaires@[i] == pre.questionnaires@[i]);
            assert(post.questionnaires@[j] == pre.questionnaires@[j]);
        } else {
            assert(post.questionnaires@[j].id == qid);
            assert(post.questionnaires@[i] == pre.questionnaires@[i]);
        }
    }

    // Question ids stay unique and bounded.
    assert forall|i: int, j: int|
        #![trigger post.questions@[i], post.questions@[j]]
        0 <= i < j < post.questions@.len() implies post.questions@[i].id
        != post.questions@[j].id by {
        let old_len = pre.questions@.len();
        if j < old_len {
        } else if i < old_len {
            assert(post.questions@[i] == pre.questions@[i]);
            assert(post.questions@[j] == qrows[j - old_len]);
        } else {
            assert(post.questions@[i] == qrows[i - old_len]);
            assert(post.questions@[j] == qrows[j - old_len]);
        }
    }
    assert forall|i: int| 0 <= i < post.questions@.len() implies (
    #[trigger] post.questions@[i]).id < post.next_question_id by {
        if i >= pre.questions@.len() {
            assert(post.questions@[i] == qrows[i - pre.questions@.len()]);
        }
    }

    // Option ids stay unique and bounded.
    assert forall|i: int, j: int|
        #![trigger post.question_options@[i], post.question_options@[j]]
        0 <= i < j < post.question_options@.len() implies post.question_options@[i].id
        != post.question_options@[j].id by {
        let old_len = pre.question_options@.len();
        if j < old_len {
        } else if i < old_len {
            assert(post.question_options@[i] == pre.question_options@[i]);
            assert(post.question_options@[j] == orows[j - old_len]);
        } else {
            assert(post.question_options@[i] == orows[i - old_len]);
            assert(post.question_options@[j] == orows[j - old_len]);
        }
    }
    assert forall|i: int| 0 <= i < post.question_options@.len() implies (
    #[trigger] post.question_options@[i]).id < post.next_option_id by {
        if i >= pre.question_options@.len() {
            assert(post.question_options@[i] == orows[i - pre.question_options@.len()]);
        }
    }

    // Child rows keep referencing issued parent ids.
    assert forall|i: int| 0 <= i < post.questions@.len() implies (
    #[trigger] post.questions@[i]).questionnaire_id < post.next_questionnaire_id by {
        if i >= pre.questions@.len() {
            assert(post.questions@[i] == qrows[i - pre.questions@.len()]);
        }
    }
    assert forall|i: int| 0 <= i < post.question_options@.len() implies (
    #[trigger] post.question_options@[i]).question_id < post.next_question_id by {
        if i >= pre.question_options@.len() {
            assert(post.question_options@[i] == orows[i - pre.question_options@.len()]);
        }
    }

    // The new questionnaire's questions are exactly the new block, in order;
    // every other questionnaire's questions are untouched.
    assert forall|qid2: u64| orders_ok_questions(
        #[trigger] questions_of(post.questions@, qid2),
    ) by {
        if qid2 == qid {
            assert(forall|i: int|
                0 <= i < pre.questions@.len() ==> (#[trigger] pre.questions@[i]).questionnaire_id
                    != qid);
            assert(questions_of(pre.questions@, qid) == Seq::<Question>::empty());
            assert(forall|i: int|
                0 <= i < qrows.len() ==> (#[trigger] qrows[i]).questionnaire_id == qid);
            assert(questions_of(qrows, qid) == qrows);
            assert(questions_of(post.questions@, qid) == questions_of(pre.questions@, qid)
                + questions_of(qrows, qid));
            assert(questions_of(pre.questions@, qid) + qrows =~= qrows);
            assert(orders_ok_questions(qrows));
        } else {
            assert(forall|i: int|
                0 <= i < qrows.len() ==> (#[trigger] qrows[i]).questionnaire_id != qid2);
            assert(questions_of(qrows, qid2) == Seq::<Question>::empty());
            assert(questions_of(post.questions@, qid2) == questions_of(pre.questions@, qid2)
                + questions_of(qrows, qid2));
            assert(questions_of(pre.questions@, qid2) + Seq::<Question>::empty()
                =~= questions_of(pre.questions@, qid2));
        }
    }

    // Each new question's options are exactly its block, in order; every
    // other question's options are untouched.
    assert forall|question_id: u64| orders_ok_options(
        #[trigger] options_of_question(post.question_options@, question_id),
    ) by {
        assert(options_of_question(post.question_options@, question_id) == options_of_question(
            pre.question_options@,
            question_id,
        ) + options_of_question(orows, question_id));
        if q_base <= question_id < q_base + n {
            let t = question_id - q_base;
            lemma_new_option_rows_of_question(reqs, n, t, q_base, o_base, now);
            assert(forall|i: int|
                0 <= i < pre.question_options@.len() ==> (
                #[trigger] pre.question_options@[i]).question_id != question_id);
            assert(options_of_question(pre.question_options@, question_id) == Seq::<
                QuestionOption,
            >::empty());
            let block = option_block(
                reqs[t],
                question_id,
                (o_base + option_budget(reqs, t)) as u64,
                now,
            );
            assert(options_of_question(orows, question_id) == block);
            assert(options_of_question(pre.question_options@, question_id) + block =~= block);
            assert(orders_ok_options(block));
        } else {
            assert(forall|i: int|
                0 <= i < orows.len() ==> (#[trigger] orows[i]).question_id != question_id);
            assert(options_of_question(orows, question_id) == Seq::<QuestionOption>::empty());
            assert(options_of_question(pre.question_options@, question_id) + Seq::<
                QuestionOption,
            >::empty() =~= options_of_question(pre.question_options@, question_id));
        }
    }
}


/// How one hydrated question of a read-back relates to its stored row and
/// the options table.
pub open spec fn rendered_stored_question(
    out: QuestionResponse,
    q: Question,
    os: Seq<QuestionOption>,
) -> bool {
    &&& out.id == q.id
    &&& out.title == q.title
    &&& out.question_type == q.question_type
    &&& out.required == q.required
    &&& out.options@ == if is_choice_type(q.question_type@) {
        option_labels(options_of_question(os, q.id))
    } else {
        Seq::<String>::empty()
    }
}

/// The scalar fields a whole-tree rewrite leaves on the questionnaire row:
/// the request's scalars over the stored id, creator and creation time.
pub open spec fn updated_questionnaire_row(
    q: Questionnaire,
    req: CreateQuestionnaireRequest,
    now: i64,
) -> Questionnaire {
    Questionnaire {
        id: q.id,
        title: req.title,
        description: req.description,
        is_public: req.is_public,
        creator_id: q.creator_id,
        created_at: q.created_at,
        updated_at: now,
    }
}

impl Store {
    /// The position of the questionnaire row with the given id, if any.
    fn questionnaire_index(&self, id: u64) -> (r: Option<usize>)
        ensures
            match r {
                Some(i) => 0 <= i < self.questionnaires@.len() && find_questionnaire(
                    self.questionnaires@,
                    id,
                ) == Some(self.questionnaires@[i as int]) && self.questionnaires@[i as int].id
                    == id,
                None => find_questionnaire(self.questionnaires@, id) is None,
            },
    {
        let ghost full = self.questionnaires@;
        let n = self.questionnaires.len();
        let mut i: usize = 0;
        proof {
            assert(full.subrange(0, n as int) =~= full);
        }
        while i < n
            invariant
                0 <= i <= n,
                find_questionnaire(full, id) == find_questionnaire(
                    full.subrange(i as int, n as int),
                    id,
                ),
            decreases n - i,
        {
            proof {
                assert(full.subrange(i as int, n as int)[0] == full[i as int]);
                assert(full.subrange(i as int, n as int).subrange(1, (n - i) as int)
                    =~= full.subrange(i as int + 1, n as int));
            }
            if self.questionnaires[i].id == id {
                return Some(i);
            }
            i = i + 1;
        }
        None
    }

    /// Read one questionnaire hydrated: its scalar fields and its questions
    /// in display order, each with its option labels in display order. No
    /// ownership check: public and private questionnaires are both readable.
    pub fn get_questionnaire(&self, questionnaire_id: u64) -> (r: AppResult<QuestionnaireResponse>)
        ensures
            match find_questionnaire(self.questionnaires@, questionnaire_id) {
                None => r == Err::<QuestionnaireResponse, AppError>(AppError::NotFound),
                Some(row) => r matches Ok(resp) && {
                    &&& resp.id == row.id
                    &&& resp.title == row.title
                    &&& resp.description == row.description
                    &&& resp.is_public == row.is_public
                    &&& resp.creator_id == row.creator_id
                    &&& resp.created_at == row.created_at
                    &&& resp.updated_at == row.updated_at
                    &&& resp.questions@.len() == questions_of(
                        self.questions@,
                        questionnaire_id,
                    ).len()
                    &&& forall|k: int|
                        0 <= k < resp.questions@.len() ==> rendered_stored_question(
                            #[trigger] resp.questions@[k],
                            questions_of(self.questions@, questionnaire_id)[k],
                            self.question_options@,
                        )
                },
            },
    {
        let row = match self.questionnaire_by_id(questionnaire_id) {
            None => {
                return Err(AppError::NotFound);
            },
            Some(row) => row,
        };
        let qs = self.collect_questions(questionnaire_id);
        let n = qs.len();
        let mut rendered: Vec<QuestionResponse> = Vec::new();
        let mut k: usize = 0;
        while k < n
            invariant
                0 <= k <= n,
                rendered@.len() == k,
                forall|t: int|
                    0 <= t < k ==> rendered_stored_question(
                        #[trigger] rendered@[t],
                        qs@[t],
                        self.question_options@,
                    ),
            decreases n - k,
        {
            let q = &qs[k];
            let choice = is_choice(&q.question_type);
            let opts: Vec<String> = if choice {
                self.collect_option_labels(q.id)
            } else {
                Vec::new()
            };
            proof {
                if !choice {
                    assert(opts@ =~= Seq::<String>::empty());
                }
            }
            rendered.push(
                QuestionResponse {
                    id: q.id,
                    title: q.title.clone(),
                    question_type: q.question_type.clone(),
                    required: q.required,
                    options: opts,
                },
            );
            k = k + 1;
        }
        Ok(
            QuestionnaireResponse {
                id: row.id,
                title: row.title,
                description: row.description,
                is_public: row.is_public,
                creator_id: row.creator_id,
                created_at: row.created_at,
                updated_at: row.updated_at,
                questions: rendered,
            },
        )
    }

    /// Rewrite a questionnaire whole: update its scalar fields, drop every
    /// question and option under it, and insert the request's subtree with
    /// fresh ids, all as one atomic unit. Prior question and option ids are
    /// never preserved, so responses recorded against them are orphaned; the
    /// response tables themselves are not touched.
    #[verifier::rlimit(80)]
    #[verifier::spinoff_prover]
    pub fn update_questionnaire(
        &mut self,
        user_id: u64,
        questionnaire_id: u64,
        req: &CreateQuestionnaireRequest,
        now: i64,
    ) -> (r: AppResult<QuestionnaireResponse>)
        requires
            old(self).wf(),
            old(self).next_question_id + req.questions@.len() <= u64::MAX,
            old(self).next_option_id + option_budget(
                req.questions@,
                req.questions@.len() as int,
            ) <= u64::MAX,
        ensures
            final(self).wf(),
            match find_questionnaire(old(self).questionnaires@, questionnaire_id) {
                None => r == Err::<QuestionnaireResponse, AppError>(AppError::NotFound) && *final(self) == *old(self),
                Some(q0) => {
                    if q0.creator_id != user_id {
                        r == Err::<QuestionnaireResponse, AppError>(AppError::Permission)
                            && *final(self) == *old(self)
                    } else {
                        &&& final(self).questionnaires@.len() == old(self).questionnaires@.len()
                        &&& forall|i: int|
                            0 <= i < old(self).questionnaires@.len()
                                ==> #[trigger] final(self).questionnaires@[i] == if old(self).questionnaires@[i].id == questionnaire_id {
                                updated_questionnaire_row(old(self).questionnaires@[i], *req, now)
                            } else {
                                old(self).questionnaires@[i]
                            }
                        &&& final(self).questions@ == questions_not_of(
                            old(self).questions@,
                            questionnaire_id,
                        ) + new_question_rows(
                            req.questions@,
                            questionnaire_id,
                            old(self).next_question_id,
                            now,
                        )
                        &&& final(self).question_options@ == options_not_under(
                            old(self).question_options@,
                            old(self).questions@,
                            questionnaire_id,
                        ) + new_option_rows(
                            req.questions@,
                            req.questions@.len() as int,
                            old(self).next_question_id,
                            old(self).next_option_id,
                            now,
                        )
                        &&& final(self).questionnaire_responses@ == old(self).questionnaire_responses@
                        &&& final(self).question_responses@ == old(self).question_responses@
                        &&& final(self).text_responses@ == old(self).text_responses@
                        &&& final(self).option_responses@ == old(self).option_responses@
                        &&& final(self).users@ == old(self).users@
                        &&& final(self).next_questionnaire_id == old(self).next_questionnaire_id
                        &&& final(self).next_question_id == old(self).next_question_id
                            + req.questions@.len()
                        &&& final(self).next_option_id == old(self).next_option_id + option_budget(
                            req.questions@,
                            req.questions@.len() as int,
                        )
                        &&& final(self).next_response_id == old(self).next_response_id
                        &&& final(self).next_answer_id == old(self).next_answer_id
                        &&& final(self).next_text_id == old(self).next_text_id
                        &&& final(self).next_option_answer_id == old(self).next_option_answer_id
                        &&& final(self).next_user_id == old(self).next_user_id
                        &&& r matches Ok(resp) && {
                            &&& resp.id == questionnaire_id
                            &&& resp.title == req.title
                            &&& resp.description == req.description
                            &&& resp.is_public == req.is_public
                            &&& resp.creator_id == q0.creator_id
                            &&& resp.created_at == q0.created_at
                            &&& resp.updated_at == now
                            &&& resp.questions@.len() == req.questions@.len()
                            &&& forall|k: int|
                                0 <= k < req.questions@.len() ==> rendered_request_question(
                                    #[trigger] resp.questions@[k],
                                    req.questions@[k],
                                    (old(self).next_question_id + k) as u64,
                                )
                        }
                    }
                },
            },
    {
        let idx = match self.questionnaire_index(questionnaire_id) {
            None => {
                return Err(AppError::NotFound);
            },
            Some(i) => i,
        };
        if self.questionnaires[idx].creator_id != user_id {
            return Err(AppError::Permission);
        }

        let q_base = self.next_question_id;
        let o_base = self.next_option_id;
        let (mut new_questions, mut new_options, rendered, next_q, next_o) = build_subtree_rows(
            req,
            questionnaire_id,
            q_base,
            o_base,
            now,
        );

        // The rows that survive the rewrite: every question of another
        // questionnaire, and every option of a surviving question.
        let mut kept_questions: Vec<Question> = Vec::new();
        let qn = self.questions.len();
        let mut i: usize = 0;
        proof {
            assert(self.questions@.take(0) =~= Seq::<Question>::empty());
        }
        while i < qn
            invariant
                0 <= i <= qn,
                kept_questions@ == questions_not_of(
                    self.questions@.take(i as int),
                    questionnaire_id,
                ),
            decreases qn - i,
        {
            proof {
                assert(self.questions@.take(i as int + 1) =~= self.questions@.take(i as int).push(
                    self.questions@[i as int],
                ));
            }
            if self.questions[i].questionnaire_id != questionnaire_id {
                kept_questions.push(self.questions[i].clone());
            }
            i = i + 1;
        }
        proof {
            assert(self.questions@.take(qn as int) =~= self.questions@);
        }

        let mut kept_options: Vec<QuestionOption> = Vec::new();
        let on = self.question_options.len();
        let mut i: usize = 0;
        proof {
            assert(self.question_options@.take(0) =~= Seq::<QuestionOption>::empty());
        }
        while i < on
            invariant
                0 <= i <= on,
                kept_options@ == options_not_under(
                    self.question_options@.take(i as int),
                    self.questions@,
                    questionnaire_id,
                ),
            decreases on - i,
        {
            proof {
                assert(self.question_options@.take(i as int + 1)
                    =~= self.question_options@.take(i as int).push(
                    self.question_options@[i as int],
                ));
            }
            if !self.question_under(questionnaire_id, self.question_options[i].question_id) {
                kept_options.push(self.question_options[i].clone());
            }
            i = i + 1;
        }
        proof {
            assert(self.question_options@.take(on as int) =~= self.question_options@);
        }

        // Commit the rewrite atomically.
        let old_row = &self.questionnaires[idx];
        let updated = Questionnaire {
            id: old_row.id,
            title: req.title.clone(),
            description: req.description.clone(),
            is_public: req.is_public,
            creator_id: old_row.creator_id,
            created_at: old_row.created_at,
            updated_at: now,
        };
        let created_at = old_row.created_at;
        let creator_id = old_row.creator_id;
        self.questionnaires.set(idx, updated);
        let mut questions_next = kept_questions;
        questions_next.append(&mut new_questions);
        self.questions = questions_next;
        let mut options_next = kept_options;
        options_next.append(&mut new_options);
        self.question_options = options_next;
        self.next_question_id = next_q;
        self.next_option_id = next_o;

        proof {
            lemma_rewrite_preserves_wf(*old(self), *self, *req, questionnaire_id, now);
            assert forall|i: int| 0 <= i < old(self).questionnaires@.len() implies
                #[trigger] final(self).questionnaires@[i] == if old(self).questionnaires@[i].id == questionnaire_id {
                updated_questionnaire_row(old(self).questionnaires@[i], *req, now)
            } else {
                old(self).questionnaires@[i]
            } by {
                if i != idx && old(self).questionnaires@[i].id == questionnaire_id {
                    assert(old(self).questionnaires@[idx as int].id == questionnaire_id);
                }
            }
        }

        Ok(
            QuestionnaireResponse {
                id: questionnaire_id,
                title: req.title.clone(),
                description: req.description.clone(),
                is_public: req.is_public,
                creator_id,
                created_at,
                updated_at: now,
                questions: rendered,
            },
        )
    }

    /// Delete a questionnaire and, in strict dependency order, everything
    /// that references it: text values, option selections, answer rows and
    /// headers of every response ever submitted to it, then its options,
    /// questions and finally the questionnaire row itself, all as one atomic
    /// unit.
    pub fn delete_questionnaire(&mut self, user_id: u64, questionnaire_id: u64) -> (r: AppResult<
        (),
    >)
        requires
            old(self).wf(),
        ensures
            final(self).wf(),
            match find_questionnaire(old(self).questionnaires@, questionnaire_id) {
                None => r == Err::<(), AppError>(AppError::NotFound) && *final(self) == *old(self),
                Some(q0) => {
                    if q0.creator_id != user_id {
                        r == Err::<(), AppError>(AppError::Permission) && *final(self) == *old(self)
                    } else {
                        &&& r == Ok::<(), AppError>(())
                        &&& final(self).text_responses@ == tas_not_under(
                            old(self).text_responses@,
                            old(self).question_responses@,
                            old(self).questionnaire_responses@,
                            questionnaire_id,
                        )
                        &&& final(self).option_responses@ == oas_not_under(
                            old(self).option_responses@,
                            old(self).question_responses@,
                            old(self).questionnaire_responses@,
                            questionnaire_id,
                        )
                        &&& final(self).question_responses@ == qas_not_under(
                            old(self).question_responses@,
                            old(self).questionnaire_responses@,
                            questionnaire_id,
                        )
                        &&& final(self).questionnaire_responses@ == headers_not_of(
                            old(self).questionnaire_responses@,
                            questionnaire_id,
                        )
                        &&& final(self).question_options@ == options_not_under(
                            old(self).question_options@,
                            old(self).questions@,
                            questionnaire_id,
                        )
                        &&& final(self).questions@ == questions_not_of(
                            old(self).questions@,
                            questionnaire_id,
                        )
                        &&& final(self).questionnaires@ == questionnaires_not(
                            old(self).questionnaires@,
                            questionnaire_id,
                        )
                        &&& final(self).users@ == old(self).users@
                        &&& final(self).next_questionnaire_id == old(self).next_questionnaire_id
                        &&& final(self).next_question_id == old(self).next_question_id
                        &&& final(self).next_option_id == old(self).next_option_id
                        &&& final(self).next_response_id == old(self).next_response_id
                        &&& final(self).next_answer_id == old(self).next_answer_id
                        &&& final(self).next_text_id == old(self).next_text_id
                        &&& final(self).next_option_answer_id == old(self).next_option_answer_id
                        &&& final(self).next_user_id == old(self).next_user_id
                    }
                },
            },
    {
        let q0 = match self.questionnaire_by_id(questionnaire_id) {
            None => {
                return Err(AppError::NotFound);
            },
            Some(q) => q,
        };
        if q0.creator_id != user_id {
            return Err(AppError::Permission);
        }
        self.delete_questionnaire_rows(questionnaire_id);
        Ok(())
    }

    /// Remove every row of the questionnaire's subtree, staged in the
    /// foreign-key dependency order (children first), then swapped in as one
    /// atomic unit.
    fn delete_questionnaire_rows(&mut self, questionnaire_id: u64)
        requires
            old(self).wf(),
        ensures
            final(self).wf(),
            final(self).text_responses@ == tas_not_under(
                old(self).text_responses@,
                old(self).question_responses@,
                old(self).questionnaire_responses@,
                questionnaire_id,
            ),
            final(self).option_responses@ == oas_not_under(
                old(self).option_responses@,
                old(self).question_responses@,
                old(self).questionnaire_responses@,
                questionnaire_id,
            ),
            final(self).question_responses@ == qas_not_under(
                old(self).question_responses@,
                old(self).questionnaire_responses@,
                questionnaire_id,
            ),
            final(self).questionnaire_responses@ == headers_not_of(
                old(self).questionnaire_responses@,
                questionnaire_id,
            ),
            final(self).question_options@ == options_not_under(
                old(self).question_options@,
                old(self).questions@,
                questionnaire_id,
            ),
            final(self).questions@ == questions_not_of(old(self).questions@, questionnaire_id),
            final(self).questionnaires@ == questionnaires_not(
                old(self).questionnaires@,
                questionnaire_id,
            ),
            final(self).users@ == old(self).users@,
            final(self).next_questionnaire_id == old(self).next_questionnaire_id,
            final(self).next_question_id == old(self).next_question_id,
            final(self).next_option_id == old(self).next_option_id,
            final(self).next_response_id == old(self).next_response_id,
            final(self).next_answer_id == old(self).next_answer_id,
            final(self).next_text_id == old(self).next_text_id,
            final(self).next_option_answer_id == old(self).next_option_answer_id,
            final(self).next_user_id == old(self).next_user_id,
    {
        // Stage the survivors of each table, children before parents, then
        // commit the whole removal atomically.
        let kept_tas = self.staged_tas(questionnaire_id);
        let kept_oas = self.staged_oas(questionnaire_id);
        let kept_qas = self.staged_qas(questionnaire_id);
        let kept_headers = self.staged_headers(questionnaire_id);
        let kept_options = self.staged_options(questionnaire_id);
        let kept_questions = self.staged_questions(questionnaire_id);
        let kept_questionnaires = self.staged_questionnaires(questionnaire_id);

        self.text_responses = kept_tas;
        self.option_responses = kept_oas;
        self.question_responses = kept_qas;
        self.questionnaire_responses = kept_headers;
        self.question_options = kept_options;
        self.questions = kept_questions;
        self.questionnaires = kept_questionnaires;

        proof {
            lemma_delete_preserves_wf(*old(self), *self, questionnaire_id);
        }
    }

    /// The text values that survive deleting one questionnaire.
    fn staged_tas(&self, questionnaire_id: u64) -> (r: Vec<TextResponse>)
        ensures
            r@ == tas_not_under(
                self.text_responses@,
                self.question_responses@,
                self.questionnaire_responses@,
                questionnaire_id,
            ),
    {
        let mut kept: Vec<TextResponse> = Vec::new();
        let n = self.text_responses.len();
        let mut i: usize = 0;
        proof {
            assert(self.text_responses@.take(0) =~= Seq::<TextResponse>::empty());
        }
        while i < n
            invariant
                0 <= i <= n,
                kept@ == tas_not_under(
                    self.text_responses@.take(i as int),
                    self.question_responses@,
                    self.questionnaire_responses@,
                    questionnaire_id,
                ),
            decreases n - i,
        {
            proof {
                assert(self.text_responses@.take(i as int + 1)
                    =~= self.text_responses@.take(i as int).push(self.text_responses@[i as int]));
            }
            if !self.answer_under(questionnaire_id, self.text_responses[i].question_response_id) {
                kept.push(self.text_responses[i].clone());
            }
            i = i + 1;
        }
        proof {
            assert(self.text_responses@.take(n as int) =~= self.text_responses@);
        }
        kept
    }

    /// The option selections that survive deleting one questionnaire.
    fn staged_oas(&self, questionnaire_id: u64) -> (r: Vec<OptionResponse>)
        ensures
            r@ == oas_not_under(
                self.option_responses@,
                self.question_responses@,
                self.questionnaire_responses@,
                questionnaire_id,
            ),
    {
        let mut kept: Vec<OptionResponse> = Vec::new();
        let n = self.option_responses.len();
        let mut i: usize = 0;
        proof {
            assert(self.option_responses@.take(0) =~= Seq::<OptionResponse>::empty());
        }
        while i < n
            invariant
                0 <= i <= n,
                kept@ == oas_not_under(
                    self.option_responses@.take(i as int),
                    self.question_responses@,
                    self.questionnaire_responses@,
                    questionnaire_id,
                ),
            decreases n - i,
        {
            proof {
                assert(self.option_responses@.take(i as int + 1)
                    =~= self.option_responses@.take(i as int).push(
                    self.option_responses@[i as int],
                ));
            }
            if !self.answer_under(
                questionnaire_id,
                self.option_responses[i].question_response_id,
            ) {
                kept.push(self.option_responses[i].clone());
            }
            i = i + 1;
        }
        proof {
            assert(self.option_responses@.take(n as int) =~= self.option_responses@);
        }
        kept
    }

    /// The answer rows that survive deleting one questionnaire.
    fn staged_qas(&self, questionnaire_id: u64) -> (r: Vec<QuestionResponse2>)
        ensures
            r@ == qas_not_under(
                self.question_responses@,
                self.questionnaire_responses@,
                questionnaire_id,
            ),
    {
        let mut kept: Vec<QuestionResponse2> = Vec::new();
        let n = self.question_responses.len();
        let mut i: usize = 0;
        proof {
            assert(self.question_responses@.take(0) =~= Seq::<QuestionResponse2>::empty());
        }
        while i < n
            invariant
                0 <= i <= n,
                kept@ == qas_not_under(
                    self.question_responses@.take(i as int),
                    self.questionnaire_responses@,
                    questionnaire_id,
                ),
            decreases n - i,
        {
            proof {
                assert(self.question_responses@.take(i as int + 1)
                    =~= self.question_responses@.take(i as int).push(
                    self.question_responses@[i as int],
                ));
            }
            if !self.header_under(
                questionnaire_id,
                self.question_responses[i].questionnaire_response_id,
            ) {
                kept.push(self.question_responses[i].clone());
            }
            i = i + 1;
        }
        proof {
            assert(self.question_responses@.take(n as int) =~= self.question_responses@);
        }
        kept
    }

    /// The response headers that survive deleting one questionnaire.
    fn staged_headers(&self, questionnaire_id: u64) -> (r: Vec<HeaderRow>)
        ensures
            r@ == headers_not_of(self.questionnaire_responses@, questionnaire_id),
    {
        let mut kept: Vec<HeaderRow> = Vec::new();
        let n = self.questionnaire_responses.len();
        let mut i: usize = 0;
        proof {
            assert(self.questionnaire_responses@.take(0) =~= Seq::<HeaderRow>::empty());
        }
        while i < n
            invariant
                0 <= i <= n,
                kept@ == headers_not_of(
                    self.questionnaire_responses@.take(i as int),
                    questionnaire_id,
                ),
            decreases n - i,
        {
            proof {
                assert(self.questionnaire_responses@.take(i as int + 1)
                    =~= self.questionnaire_responses@.take(i as int).push(
                    self.questionnaire_responses@[i as int],
                ));
            }
            if self.questionnaire_responses[i].questionnaire_id != questionnaire_id {
                kept.push(self.questionnaire_responses[i].clone());
            }
            i = i + 1;
        }
        proof {
            assert(self.questionnaire_responses@.take(n as int) =~= self.questionnaire_responses@);
        }
        kept
    }

    /// The options that survive deleting one questionnaire.
    fn staged_options(&self, questionnaire_id: u64) -> (r: Vec<QuestionOption>)
        ensures
            r@ == options_not_under(self.question_options@, self.questions@, questionnaire_id),
    {
        let mut kept: Vec<QuestionOption> = Vec::new();
        let n = self.question_options.len();
        let mut i: usize = 0;
        proof {
            assert(self.question_options@.take(0) =~= Seq::<QuestionOption>::empty());
        }
        while i < n
            invariant
                0 <= i <= n,
                kept@ == options_not_under(
                    self.question_options@.take(i as int),
                    self.questions@,
                    questionnaire_id,
                ),
            decreases n - i,
        {
            proof {
                assert(self.question_options@.take(i as int + 1)
                    =~= self.question_options@.take(i as int).push(
                    self.question_options@[i as int],
                ));
            }
            if !self.question_under(questionnaire_id, self.question_options[i].question_id) {
                kept.push(self.question_options[i].clone());
            }
            i = i + 1;
        }
        proof {
            assert(self.question_options@.take(n as int) =~= self.question_options@);
        }
        kept
    }

    /// The questions that survive deleting one questionnaire.
    fn staged_questions(&self, questionnaire_id: u64) -> (r: Vec<Question>)
        ensures
            r@ == questions_not_of(self.questions@, questionnaire_id),
    {
        let mut kept: Vec<Question> = Vec::new();
        let n = self.questions.len();
        let mut i: usize = 0;
        proof {
            assert(self.questions@.take(0) =~= Seq::<Question>::empty());
        }
        while i < n
            invariant
                0 <= i <= n,
                kept@ == questions_not_of(self.questions@.take(i as int), questionnaire_id),
            decreases n - i,
        {
            proof {
                assert(self.questions@.take(i as int + 1) =~= self.questions@.take(i as int).push(
                    self.questions@[i as int],
                ));
            }
            if self.questions[i].questionnaire_id != questionnaire_id {
                kept.push(self.questions[i].clone());
            }
            i = i + 1;
        }
        proof {
            assert(self.questions@.take(n as int) =~= self.questions@);
        }
        kept
    }

    /// The questionnaire rows that survive deleting one questionnaire.
    fn staged_questionnaires(&self, questionnaire_id: u64) -> (r: Vec<Questionnaire>)
        ensures
            r@ == questionnaires_not(self.questionnaires@, questionnaire_id),
    {
        let mut kept: Vec<Questionnaire> = Vec::new();
        let n = self.questionnaires.len();
        let mut i: usize = 0;
        proof {
            assert(self.questionnaires@.take(0) =~= Seq::<Questionnaire>::empty());
        }
        while i < n
            invariant
                0 <= i <= n,
                kept@ == questionnaires_not(self.questionnaires@.take(i as int), questionnaire_id),
            decreases n - i,
        {
            proof {
                assert(self.questionnaires@.take(i as int + 1)
                    =~= self.questionnaires@.take(i as int).push(self.questionnaires@[i as int]));
            }
            if self.questionnaires[i].id != questionnaire_id {
                kept.push(self.questionnaires[i].clone());
            }
            i = i + 1;
        }
        proof {
            assert(self.questionnaires@.take(n as int) =~= self.questionnaires@);
        }
        kept
    }
}

/// Rewriting a questionnaire keeps the store well-formed: the surviving rows
/// embed into the old tables, the new rows carry fresh consecutive ids, and
/// every subtree's display orders stay contiguous.
#[verifier::rlimit(80)]
#[verifier::spinoff_prover]
proof fn lemma_rewrite_preserves_wf(
    pre: Store,
    post: Store,
    req: CreateQuestionnaireRequest,
    qid: u64,
    now: i64,
)
    requires
        pre.wf(),
        pre.next_question_id + req.questions@.len() <= u64::MAX,
        pre.next_option_id + option_budget(req.questions@, req.questions@.len() as int)
            <= u64::MAX,
        post.questionnaires@.len() == pre.questionnaires@.len(),
        forall|i: int|
            0 <= i < pre.questionnaires@.len() ==> (#[trigger] post.questionnaires@[i]).id
                == pre.questionnaires@[i].id,
        post.questions@ == questions_not_of(pre.questions@, qid) + new_question_rows(
            req.questions@,
            qid,
            pre.next_question_id,
            now,
        ),
        post.question_options@ == options_not_under(pre.question_options@, pre.questions@, qid)
            + new_option_rows(
            req.questions@,
            req.questions@.len() as int,
            pre.next_question_id,
            pre.next_option_id,
            now,
        ),
        post.next_questionnaire_id == pre.next_questionnaire_id,
        post.next_question_id == pre.next_question_id + req.questions@.len(),
        post.next_option_id == pre.next_option_id + option_budget(
            req.questions@,
            req.questions@.len() as int,
        ),
        post.questionnaire_responses@ == pre.questionnaire_responses@,
        post.question_responses@ == pre.question_responses@,
        post.text_responses@ == pre.text_responses@,
        post.option_responses@ == pre.option_responses@,
        post.users@ == pre.users@,
        post.next_response_id == pre.next_response_id,
        post.next_answer_id == pre.next_answer_id,
        post.next_text_id == pre.next_text_id,
        post.next_option_answer_id == pre.next_option_answer_id,
        post.next_user_id == pre.next_user_id,
        exists|i: int|
            0 <= i < pre.questionnaires@.len() && (#[trigger] pre.questionnaires@[i]).id == qid,
    ensures
        post.wf(),
{
    let reqs = req.questions@;
    let n = reqs.len() as int;
    let q_base = pre.next_question_id;
    let o_base = pre.next_option_id;
    let qrows = new_question_rows(reqs, qid, q_base, now);
    let orows = new_option_rows(reqs, n, q_base, o_base, now);
    let keptq = questions_not_of(pre.questions@, qid);
    let kepto = options_not_under(pre.question_options@, pre.questions@, qid);
    lemma_new_option_rows_len(reqs, n, q_base, o_base, now);
    lemma_new_option_rows_facts(reqs, n, q_base, o_base, now);

    // Questionnaire ids are untouched.
    assert forall|i: int, j: int|
        #![trigger post.questionnaires@[i], post.questionnaires@[j]]
        0 <= i < j < post.questionnaires@.len() implies post.questionnaires@[i].id
        != post.questionnaires@[j].id by {
        assert(pre.questionnaires@[i].id != pre.questionnaires@[j].id);
    }
    assert forall|i: int| 0 <= i < post.questionnaires@.len() implies (
    #[trigger] post.questionnaires@[i]).id < post.next_questionnaire_id by {
        assert(pre.questionnaires@[i].id < pre.next_questionnaire_id);
    }

    // Question ids stay unique and bounded.
    assert forall|i: int, j: int|
        #![trigger post.questions@[i], post.questions@[j]]
        0 <= i < j < post.questions@.len() implies post.questions@[i].id
        != post.questions@[j].id by {
        let kl = keptq.len() as int;
        if j < kl {
            crate::seq_facts::lemma_filter_pairs(
                pre.questions@,
                |q: Question| q.questionnaire_id != qid,
                i,
                j,
            );
        } else if i < kl {
            assert(post.questions@[j] == qrows[j - kl]);
        } else {
            assert(post.questions@[i] == qrows[i - kl]);
            assert(post.questions@[j] == qrows[j - kl]);
        }
    }
    assert forall|i: int| 0 <= i < post.questions@.len() implies (
    #[trigger] post.questions@[i]).id < post.next_question_id by {
        if i >= keptq.len() {
            assert(post.questions@[i] == qrows[i - keptq.len()]);
        }
    }

    // Option ids stay unique and bounded.
    assert forall|i: int, j: int|
        #![trigger post.question_options@[i], post.question_options@[j]]
        0 <= i < j < post.question_options@.len() implies post.question_options@[i].id
        != post.question_options@[j].id by {
        let kl = kepto.len() as int;
        if j < kl {
            crate::seq_facts::lemma_filter_pairs(
                pre.question_options@,
                |o: QuestionOption| !question_in(pre.questions@, qid, o.question_id),
                i,
                j,
            );
        } else if i < kl {
            assert(post.question_options@[j] == orows[j - kl]);
        } else {
            assert(post.question_options@[i] == orows[i - kl]);
            assert(post.question_options@[j] == orows[j - kl]);
        }
    }
    assert forall|i: int| 0 <= i < post.question_options@.len() implies (
    #[trigger] post.question_options@[i]).id < post.next_option_id by {
        if i >= kepto.len() {
            assert(post.question_options@[i] == orows[i - kepto.len()]);
        }
    }

    // Child rows keep referencing issued parent ids.
    assert forall|i: int| 0 <= i < post.questions@.len() implies (
    #[trigger] post.questions@[i]).questionnaire_id < post.next_questionnaire_id by {
        if i >= keptq.len() {
            assert(post.questions@[i] == qrows[i - keptq.len()]);
            let w = choose|w: int|
                0 <= w < pre.questionnaires@.len() && (#[trigger] pre.questionnaires@[w]).id
                    == qid;
            assert(pre.questionnaires@[w].id < pre.next_questionnaire_id);
        }
    }
    assert forall|i: int| 0 <= i < post.question_options@.len() implies (
    #[trigger] post.question_options@[i]).question_id < post.next_question_id by {
        if i >= kepto.len() {
            assert(post.question_options@[i] == orows[i - kepto.len()]);
        }
    }

    // Question display orders stay contiguous per questionnaire.
    assert forall|qid2: u64| orders_ok_questions(
        #[trigger] questions_of(post.questions@, qid2),
    ) by {
        assert(questions_of(post.questions@, qid2) == questions_of(keptq, qid2) + questions_of(
            qrows,
            qid2,
        ));
        if qid2 == qid {
            assert(forall|i: int|
                0 <= i < keptq.len() ==> (#[trigger] keptq[i]).questionnaire_id != qid);
            assert(questions_of(keptq, qid) == Seq::<Question>::empty());
            assert(forall|i: int|
                0 <= i < qrows.len() ==> (#[trigger] qrows[i]).questionnaire_id == qid);
            assert(questions_of(qrows, qid) == qrows);
            assert(questions_of(keptq, qid) + qrows =~= qrows);
            assert(orders_ok_questions(qrows));
        } else {
            assert(forall|i: int|
                0 <= i < qrows.len() ==> (#[trigger] qrows[i]).questionnaire_id != qid2);
            assert(questions_of(qrows, qid2) == Seq::<Question>::empty());
            assert(questions_of(keptq, qid2) == questions_of(pre.questions@, qid2));
            assert(questions_of(keptq, qid2) + Seq::<Question>::empty() =~= questions_of(
                keptq,
                qid2,
            ));
        }
    }

    // Option display orders stay contiguous per question.
    assert forall|question_id: u64| orders_ok_options(
        #[trigger] options_of_question(post.question_options@, question_id),
    ) by {
        assert(options_of_question(post.question_options@, question_id) == options_of_question(
            kepto,
            question_id,
        ) + options_of_question(orows, question_id));
        if q_base <= question_id < q_base + n {
            let t = question_id - q_base;
            lemma_new_option_rows_of_question(reqs, n, t, q_base, o_base, now);
            assert(forall|i: int|
                0 <= i < kepto.len() ==> (#[trigger] kepto[i]).question_id != question_id);
            assert(options_of_question(kepto, question_id) == Seq::<QuestionOption>::empty());
            let block = option_block(
                reqs[t],
                question_id,
                (o_base + option_budget(reqs, t)) as u64,
                now,
            );
            assert(options_of_question(orows, question_id) == block);
            assert(options_of_question(kepto, question_id) + block =~= block);
            assert(orders_ok_options(block));
        } else {
            assert(forall|i: int|
                0 <= i < orows.len() ==> (#[trigger] orows[i]).question_id != question_id);
            assert(options_of_question(orows, question_id) == Seq::<QuestionOption>::empty());
            if question_in(pre.questions@, qid, question_id) {
                assert(forall|i: int|
                    0 <= i < kepto.len() ==> (#[trigger] kepto[i]).question_id != question_id);
                assert(options_of_question(kepto, question_id) == Seq::<QuestionOption>::empty());
                assert(options_of_question(kepto, question_id) + Seq::<QuestionOption>::empty()
                    =~= Seq::<QuestionOption>::empty());
                assert(orders_ok_options(Seq::<QuestionOption>::empty()));
            } else {
                assert(forall|i: int|
                    0 <= i < pre.question_options@.len() && (
                    #[trigger] pre.question_options@[i]).question_id == question_id
                        ==> !question_in(
                        pre.questions@,
                        qid,
                        pre.question_options@[i].question_id,
                    ));
                assert(options_of_question(kepto, question_id) == options_of_question(
                    pre.question_options@,
                    question_id,
                ));
                assert(options_of_question(kepto, question_id) + Seq::<QuestionOption>::empty()
                    =~= options_of_question(kepto, question_id));
            }
        }
    }
}

/// Deleting a questionnaire's subtree keeps the store well-formed: every
/// surviving row embeds into its old table.
proof fn lemma_delete_preserves_wf(pre: Store, post: Store, qid: u64)
    requires
        pre.wf(),
        post.text_responses@ == tas_not_under(
            pre.text_responses@,
            pre.question_responses@,
            pre.questionnaire_responses@,
            qid,
        ),
        post.option_responses@ == oas_not_under(
            pre.option_responses@,
            pre.question_responses@,
            pre.questionnaire_responses@,
            qid,
        ),
        post.question_responses@ == qas_not_under(
            pre.question_responses@,
            pre.questionnaire_responses@,
            qid,
        ),
        post.questionnaire_responses@ == headers_not_of(pre.questionnaire_responses@, qid),
        post.question_options@ == options_not_under(
            pre.question_options@,
            pre.questions@,
            qid,
        ),
        post.questions@ == questions_not_of(pre.questions@, qid),
        post.questionnaires@ == questionnaires_not(pre.questionnaires@, qid),
        post.users@ == pre.users@,
        post.next_questionnaire_id == pre.next_questionnaire_id,
        post.next_question_id == pre.next_question_id,
        post.next_option_id == pre.next_option_id,
        post.next_response_id == pre.next_response_id,
        post.next_answer_id == pre.next_answer_id,
        post.next_text_id == pre.next_text_id,
        post.next_option_answer_id == pre.next_option_answer_id,
        post.next_user_id == pre.next_user_id,
    ensures
        post.wf(),
{
    let keptq = questions_not_of(pre.questions@, qid);
    let kepto = options_not_under(pre.question_options@, pre.questions@, qid);

    assert forall|i: int, j: int|
        #![trigger post.questionnaires@[i], post.questionnaires@[j]]
        0 <= i < j < post.questionnaires@.len() implies post.questionnaires@[i].id
        != post.questionnaires@[j].id by {
        crate::seq_facts::lemma_filter_pairs(
            pre.questionnaires@,
            |q: Questionnaire| q.id != qid,
            i,
            j,
        );
    }
    assert forall|i: int| 0 <= i < post.questionnaires@.len() implies (
    #[trigger] post.questionnaires@[i]).id < post.next_questionnaire_id by {
        crate::seq_facts::lemma_filter_sub(pre.questionnaires@, |q: Questionnaire| q.id != qid, i);
    }

    assert forall|i: int, j: int|
        #![trigger post.questions@[i], post.questions@[j]]
        0 <= i < j < post.questions@.len() implies post.questions@[i].id
        != post.questions@[j].id by {
        crate::seq_facts::lemma_filter_pairs(
            pre.questions@,
            |q: Question| q.questionnaire_id != qid,
            i,
            j,
        );
    }
    assert forall|i: int| 0 <= i < post.questions@.len() implies (
    #[trigger] post.questions@[i]).id < post.next_question_id && post.questions@[i].questionnaire_id
        < post.next_questionnaire_id by {
        crate::seq_facts::lemma_filter_sub(
            pre.questions@,
            |q: Question| q.questionnaire_id != qid,
            i,
        );
    }

    assert forall|i: int, j: int|
        #![trigger post.question_options@[i], post.question_options@[j]]
        0 <= i < j < post.question_options@.len() implies post.question_options@[i].id
        != post.question_options@[j].id by {
        crate::seq_facts::lemma_filter_pairs(
            pre.question_options@,
            |o: QuestionOption| !question_in(pre.questions@, qid, o.question_id),
            i,
            j,
        );
    }
    assert forall|i: int| 0 <= i < post.question_options@.len() implies (
    #[trigger] post.question_options@[i]).id < post.next_option_id
        && post.question_options@[i].question_id < post.next_question_id by {
        crate::seq_facts::lemma_filter_sub(
            pre.question_options@,
            |o: QuestionOption| !question_in(pre.questions@, qid, o.question_id),
            i,
        );
    }

    assert forall|i: int, j: int|
        #![trigger post.questionnaire_responses@[i], post.questionnaire_responses@[j]]
        0 <= i < j < post.questionnaire_responses@.len() implies
        post.questionnaire_responses@[i].id != post.questionnaire_responses@[j].id by {
        crate::seq_facts::lemma_filter_pairs(
            pre.questionnaire_responses@,
            |h: HeaderRow| h.questionnaire_id != qid,
            i,
            j,
        );
    }
    assert forall|i: int| 0 <= i < post.questionnaire_responses@.len() implies (
    #[trigger] post.questionnaire_responses@[i]).id < post.next_response_id by {
        crate::seq_facts::lemma_filter_sub(
            pre.questionnaire_responses@,
            |h: HeaderRow| h.questionnaire_id != qid,
            i,
        );
    }

    assert forall|i: int, j: int|
        #![trigger post.question_responses@[i], post.question_responses@[j]]
        0 <= i < j < post.question_responses@.len() implies post.question_responses@[i].id
        != post.question_responses@[j].id by {
        crate::seq_facts::lemma_filter_pairs(
            pre.question_responses@,
            |a: QuestionResponse2| !crate::store::header_in(
                pre.questionnaire_responses@,
                qid,
                a.questionnaire_response_id,
            ),
            i,
            j,
        );
    }
    assert forall|i: int| 0 <= i < post.question_responses@.len() implies (
    #[trigger] post.question_responses@[i]).id < post.next_answer_id by {
        crate::seq_facts::lemma_filter_sub(
            pre.question_responses@,
            |a: QuestionResponse2| !crate::store::header_in(
                pre.questionnaire_responses@,
                qid,
                a.questionnaire_response_id,
            ),
            i,
        );
    }

    assert forall|i: int, j: int|
        #![trigger post.text_responses@[i], post.text_responses@[j]]
        0 <= i < j < post.text_responses@.len() implies post.text_responses@[i].id
        != post.text_responses@[j].id by {
        crate::seq_facts::lemma_filter_pairs(
            pre.text_responses@,
            |t: TextResponse| !crate::store::qa_under(
                pre.question_responses@,
                pre.questionnaire_responses@,
                qid,
                t.question_response_id,
            ),
            i,
            j,
        );
    }
    assert forall|i: int| 0 <= i < post.text_responses@.len() implies (
    #[trigger] post.text_responses@[i]).id < post.next_text_id by {
        crate::seq_facts::lemma_filter_sub(
            pre.text_responses@,
            |t: TextResponse| !crate::store::qa_under(
                pre.question_responses@,
                pre.questionnaire_responses@,
                qid,
                t.question_response_id,
            ),
            i,
        );
    }

    assert forall|i: int, j: int|
        #![trigger post.option_responses@[i], post.option_responses@[j]]
        0 <= i < j < post.option_responses@.len() implies post.option_responses@[i].id
        != post.option_responses@[j].id by {
        crate::seq_facts::lemma_filter_pairs(
            pre.option_responses@,
            |p: OptionResponse| !crate::store::qa_under(
                pre.question_responses@,
                pre.questionnaire_responses@,
                qid,
                p.question_response_id,
            ),
            i,
            j,
        );
    }
    assert forall|i: int| 0 <= i < post.option_responses@.len() implies (
    #[trigger] post.option_responses@[i]).id < post.next_option_answer_id by {
        crate::seq_facts::lemma_filter_sub(
            pre.option_responses@,
            |p: OptionResponse| !crate::store::qa_under(
                pre.question_responses@,
                pre.questionnaire_responses@,
                qid,
                p.question_response_id,
            ),
            i,
        );
    }

    // Display orders of surviving subtrees are untouched.
    assert forall|qid2: u64| orders_ok_questions(
        #[trigger] questions_of(post.questions@, qid2),
    ) by {
        if qid2 == qid {
            assert(forall|i: int|
                0 <= i < keptq.len() ==> (#[trigger] keptq[i]).questionnaire_id != qid);
            assert(questions_of(keptq, qid) == Seq::<Question>::empty());
        } else {
            assert(questions_of(keptq, qid2) == questions_of(pre.questions@, qid2));
        }
    }
    assert forall|question_id: u64| orders_ok_options(
        #[trigger] options_of_question(post.question_options@, question_id),
    ) by {
        if question_in(pre.questions@, qid, question_id) {
            assert(forall|i: int|
                0 <= i < kepto.len() ==> (#[trigger] kepto[i]).question_id != question_id);
            assert(options_of_question(kepto, question_id) == Seq::<QuestionOption>::empty());
        } else {
            assert(forall|i: int|
                0 <= i < pre.question_options@.len() && (
                #[trigger] pre.question_options@[i]).question_id == question_id ==> !question_in(
                    pre.questions@,
                    qid,
                    pre.question_options@[i].question_id,
                ));
            assert(options_of_question(kepto, question_id) == options_of_question(
                pre.question_options@,
                question_id,
            ));
        }
    }
}

// ---------------------------------------------------------------------------
// Listings.
// ---------------------------------------------------------------------------

/// The questionnaires of one creator, in table order.
pub open spec fn by_creator(qs: Seq<Questionnaire>, uid: u64) -> Seq<Questionnaire> {
    qs.filter(|q: Questionnaire| q.creator_id == uid)
}

/// Whether a public questionnaire matches an optional search needle anywhere
/// in its title or description.
pub open spec fn public_match(q: Questionnaire, search: Option<String>) -> bool {
    q.is_public && match search {
        Some(s) => crate::text::contains_seq(q.title@, s@) || crate::text::contains_seq(
            q.description@,
            s@,
        ),
        None => true,
    }
}

/// The public questionnaires matching a search, in table order.
pub open spec fn public_matching(qs: Seq<Questionnaire>, search: Option<String>) -> Seq<
    Questionnaire,
> {
    qs.filter(|q: Questionnaire| public_match(q, search))
}

/// The rows whose creator still exists; listings join on the creator's
/// username and drop rows without one.
pub open spec fn with_creator(qs: Seq<Questionnaire>, users: Seq<User>) -> Seq<Questionnaire> {
    qs.filter(|q: Questionnaire| crate::store::find_user_by_id(users, q.creator_id) is Some)
}

/// How one listing row relates to its questionnaire.
pub open spec fn list_item_ok(item: QuestionnaireListItem, q: Questionnaire, s: Store) -> bool {
    &&& item.id == q.id
    &&& item.title == q.title
    &&& item.description == q.description
    &&& item.created_at == q.created_at
    &&& match crate::store::find_user_by_id(s.users@, q.creator_id) {
        Some(u) => item.creator == u.username,
        None => false,
    }
    &&& item.response_count as nat == crate::store::headers_of(
        s.questionnaire_responses@,
        q.id,
    ).len()
}

impl Store {
    /// One page of the items of a listing, newest first, with creator
    /// usernames and response counts filled in.
    fn render_listing_page(&self, rows: &Vec<Questionnaire>, page: u64, page_size: u64) -> (r: Vec<
        QuestionnaireListItem,
    >)
        requires
            page >= 1,
            (page - 1) * page_size + page_size <= u64::MAX,
            forall|i: int|
                0 <= i < rows@.len() ==> crate::store::find_user_by_id(
                    self.users@,
                    (#[trigger] rows@[i]).creator_id,
                ) is Some,
        ensures
            ({
                let paged = crate::response_service::page_slice(rows@.reverse(), page, page_size);
                &&& r@.len() == paged.len()
                &&& forall|k: int|
                    0 <= k < paged.len() ==> list_item_ok(#[trigger] r@[k], paged[k], *self)
            }),
    {
        let len = rows.len();
        let offset: u64 = (page - 1) * page_size;
        let ghost rev = rows@.reverse();
        let ghost paged = crate::response_service::page_slice(rev, page, page_size);
        let mut items: Vec<QuestionnaireListItem> = Vec::new();
        let mut t: usize = 0;
        while (t as u64) < page_size && offset + (t as u64) < (len as u64)
            invariant
                0 <= t,
                t as u64 <= page_size,
                t > 0 ==> offset + t <= len,
                items@.len() == t,
                forall|k: int|
                    0 <= k < t ==> list_item_ok(#[trigger] items@[k], rev[offset + k], *self),
            decreases page_size - t,
        {
            let idx: usize = len - 1 - ((offset as usize) + t);
            let q = &rows[idx];
            let creator = match self.user_by_id(q.creator_id) {
                Some(u) => u.username,
                None => {
                    proof {
                        assert(false);
                    }
                    String::new()
                },
            };
            let response_count = self.count_headers_of(q.id);
            items.push(
                QuestionnaireListItem {
                    id: q.id,
                    title: q.title.clone(),
                    description: q.description.clone(),
                    creator,
                    created_at: q.created_at,
                    response_count,
                },
            );
            proof {
                assert(rev[offset + t] == rows@[len - 1 - (offset + t)]);
            }
            t = t + 1;
        }
        proof {
            assert(items@.len() == paged.len());
            assert forall|k: int| 0 <= k < paged.len() implies list_item_ok(
                #[trigger] items@[k],
                paged[k],
                *self,
            ) by {
                assert(paged[k] == rev[offset + k]);
            }
        }
        items
    }

    /// List one user's own questionnaires, newest first, one page at a time.
    /// `total` counts every questionnaire of the creator, not just this
    /// page; rows whose creator row no longer exists are not listed.
    pub fn get_user_questionnaires(&self, user_id: u64, page: u64, page_size: u64) -> (r:
        AppResult<QuestionnaireListResponse>)
        requires
            page >= 1,
            (page - 1) * page_size + page_size <= u64::MAX,
        ensures
            r matches Ok(resp) && {
                let matching = by_creator(self.questionnaires@, user_id);
                let paged = crate::response_service::page_slice(
                    with_creator(matching, self.users@).reverse(),
                    page,
                    page_size,
                );
                &&& resp.total as nat == matching.len()
                &&& resp.page == page
                &&& resp.page_size == page_size
                &&& resp.items@.len() == paged.len()
                &&& forall|k: int|
                    0 <= k < paged.len() ==> list_item_ok(#[trigger] resp.items@[k], paged[k], *self)
            },
    {
        let n = self.questionnaires.len();
        let mut total: u64 = 0;
        let mut joined: Vec<Questionnaire> = Vec::new();
        let mut i: usize = 0;
        proof {
            assert(self.questionnaires@.take(0) =~= Seq::<Questionnaire>::empty());
        }
        while i < n
            invariant
                0 <= i <= n,
                total as nat == by_creator(self.questionnaires@.take(i as int), user_id).len(),
                total <= i as u64,
                joined@ == with_creator(
                    by_creator(self.questionnaires@.take(i as int), user_id),
                    self.users@,
                ),
            decreases n - i,
        {
            proof {
                assert(self.questionnaires@.take(i as int + 1)
                    =~= self.questionnaires@.take(i as int).push(self.questionnaires@[i as int]));
            }
            if self.questionnaires[i].creator_id == user_id {
                total = total + 1;
                if self.user_by_id(self.questionnaires[i].creator_id).is_some() {
                    joined.push(self.questionnaires[i].clone());
                }
            }
            i = i + 1;
        }
        proof {
            assert(self.questionnaires@.take(n as int) =~= self.questionnaires@);
            assert forall|k: int|
                0 <= k < joined@.len() implies crate::store::find_user_by_id(
                self.users@,
                (#[trigger] joined@[k]).creator_id,
            ) is Some by {}
        }
        let items = self.render_listing_page(&joined, page, page_size);
        Ok(QuestionnaireListResponse { items, total, page, page_size })
    }

    /// List public questionnaires, optionally filtered by a search needle
    /// matched anywhere in the title or description, newest first, one page
    /// at a time. `total` counts every match, not just this page; rows whose
    /// creator row no longer exists are not listed.
    pub fn get_public_questionnaires(
        &self,
        search: Option<String>,
        page: u64,
        page_size: u64,
    ) -> (r: AppResult<QuestionnaireListResponse>)
        requires
            page >= 1,
            (page - 1) * page_size + page_size <= u64::MAX,
        ensures
            r matches Ok(resp) && {
                let matching = public_matching(self.questionnaires@, search);
                let paged = crate::response_service::page_slice(
                    with_creator(matching, self.users@).reverse(),
                    page,
                    page_size,
                );
                &&& resp.total as nat == matching.len()
                &&& resp.page == page
                &&& resp.page_size == page_size
                &&& resp.items@.len() == paged.len()
                &&& forall|k: int|
                    0 <= k < paged.len() ==> list_item_ok(#[trigger] resp.items@[k], paged[k], *self)
            },
    {
        let n = self.questionnaires.len();
        let mut total: u64 = 0;
        let mut joined: Vec<Questionnaire> = Vec::new();
        let mut i: usize = 0;
        proof {
            assert(self.questionnaires@.take(0) =~= Seq::<Questionnaire>::empty());
        }
        while i < n
            invariant
                0 <= i <= n,
                total as nat == public_matching(self.questionnaires@.take(i as int), search).len(),
                total <= i as u64,
                joined@ == with_creator(
                    public_matching(self.questionnaires@.take(i as int), search),
                    self.users@,
                ),
            decreases n - i,
        {
            proof {
                assert(self.questionnaires@.take(i as int + 1)
                    =~= self.questionnaires@.take(i as int).push(self.questionnaires@[i as int]));
            }
            let q = &self.questionnaires[i];
            let matches = q.is_public && match &search {
                Some(s) => crate::text::string_contains(&q.title, s) || crate::text::string_contains(
                    &q.description,
                    s,
                ),
                None => true,
            };
            if matches {
                total = total + 1;
                if self.user_by_id(q.creator_id).is_some() {
                    joined.push(self.questionnaires[i].clone());
                }
            }
            i = i + 1;
        }
        proof {
            assert(self.questionnaires@.take(n as int) =~= self.questionnaires@);
            assert forall|k: int|
                0 <= k < joined@.len() implies crate::store::find_user_by_id(
                self.users@,
                (#[trigger] joined@[k]).creator_id,
            ) is Some by {}
        }
        let items = self.render_listing_page(&joined, page, page_size);
        Ok(QuestionnaireListResponse { items, total, page, page_size })
    }
}


} // verus!
