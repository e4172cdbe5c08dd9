//! The relational store that the engine maintains: one table per entity,
//! per-table id counters, and the well-formedness invariant that every
//! operation preserves.

use vstd::prelude::*;
use crate::questionnaire::{Question, QuestionOption, Questionnaire};
use crate::response::{OptionResponse, QuestionResponse, QuestionnaireResponse, TextResponse};
use crate::user::User;

verus! {

broadcast use {crate::seq_facts::group_filter_facts, vstd::seq_lib::group_filter_ensures};

/// The whole persistent state: eight tables and their id counters. Row ids
/// are issued per table, strictly increasing, and never reused.
pub struct Store {
    pub questionnaires: Vec<Questionnaire>,
    pub questions: Vec<Question>,
    pub question_options: Vec<QuestionOption>,
    pub questionnaire_responses: Vec<QuestionnaireResponse>,
    pub question_responses: Vec<QuestionResponse>,
    pub text_responses: Vec<TextResponse>,
    pub option_responses: Vec<OptionResponse>,
    pub users: Vec<User>,
    pub next_questionnaire_id: u64,
    pub next_question_id: u64,
    pub next_option_id: u64,
    pub next_response_id: u64,
    pub next_answer_id: u64,
    pub next_text_id: u64,
    pub next_option_answer_id: u64,
    pub next_user_id: u64,
}

// ---------------------------------------------------------------------------
// Table filters: the rows belonging to one parent, in table order.
// ---------------------------------------------------------------------------

/// The questions of one questionnaire, in table order (which equals display
/// order in a well-formed store).
pub open spec fn questions_of(qs: Seq<Question>, qid: u64) -> Seq<Question> {
    qs.filter(|q: Question| q.questionnaire_id == qid)
}

/// The questions that do not belong to one questionnaire.
pub open spec fn questions_not_of(qs: Seq<Question>, qid: u64) -> Seq<Question> {
    qs.filter(|q: Question| q.questionnaire_id != qid)
}

/// Whether `question_id` names a question of questionnaire `qid`.
pub open spec fn question_in(qs: Seq<Question>, qid: u64, question_id: u64) -> bool {
    exists|i: int|
        #![trigger qs[i]]
        0 <= i < qs.len() && qs[i].questionnaire_id == qid && qs[i].id == question_id
}

/// The options of one question, in table order.
pub open spec fn options_of_question(os: Seq<QuestionOption>, question_id: u64) -> Seq<
    QuestionOption,
> {
    os.filter(|o: QuestionOption| o.question_id == question_id)
}

/// The options whose question does not belong to questionnaire `qid`.
pub open spec fn options_not_under(os: Seq<QuestionOption>, qs: Seq<Question>, qid: u64) -> Seq<
    QuestionOption,
> {
    os.filter(|o: QuestionOption| !question_in(qs, qid, o.question_id))
}

/// The response headers of one questionnaire, in table order.
pub open spec fn headers_of(hs: Seq<QuestionnaireResponse>, qid: u64) -> Seq<
    QuestionnaireResponse,
> {
    hs.filter(|h: QuestionnaireResponse| h.questionnaire_id == qid)
}

/// The response headers of every other questionnaire.
pub open spec fn headers_not_of(hs: Seq<QuestionnaireResponse>, qid: u64) -> Seq<
    QuestionnaireResponse,
> {
    hs.filter(|h: QuestionnaireResponse| h.questionnaire_id != qid)
}

/// Whether `header_id` names a response header of questionnaire `qid`.
pub open spec fn header_in(hs: Seq<QuestionnaireResponse>, qid: u64, header_id: u64) -> bool {
    exists|i: int|
        #![trigger hs[i]]
        0 <= i < hs.len() && hs[i].questionnaire_id == qid && hs[i].id == header_id
}

/// Whether an identified respondent already has a response header for the
/// questionnaire.
pub open spec fn has_submitted(hs: Seq<QuestionnaireResponse>, qid: u64, uid: u64) -> bool {
    exists|i: int|
        #![trigger hs[i]]
        0 <= i < hs.len() && hs[i].questionnaire_id == qid && hs[i].respondent_id == Some(uid)
}

/// The answer rows of one response header, in table order.
pub open spec fn qas_of_header(qas: Seq<QuestionResponse>, header_id: u64) -> Seq<
    QuestionResponse,
> {
    qas.filter(|a: QuestionResponse| a.questionnaire_response_id == header_id)
}

/// The answer rows whose header does not belong to questionnaire `qid`.
pub open spec fn qas_not_under(
    qas: Seq<QuestionResponse>,
    hs: Seq<QuestionnaireResponse>,
    qid: u64,
) -> Seq<QuestionResponse> {
    qas.filter(|a: QuestionResponse| !header_in(hs, qid, a.questionnaire_response_id))
}

/// Whether `qa_id` names an answer row that belongs, through its header, to
/// questionnaire `qid`.
pub open spec fn qa_under(
    qas: Seq<QuestionResponse>,
    hs: Seq<QuestionnaireResponse>,
    qid: u64,
    qa_id: u64,
) -> bool {
    exists|i: int|
        #![trigger qas[i]]
        0 <= i < qas.len() && qas[i].id == qa_id && header_in(
            hs,
            qid,
            qas[i].questionnaire_response_id,
        )
}

/// The text values whose answer row does not belong to questionnaire `qid`.
pub open spec fn tas_not_under(
    ts: Seq<TextResponse>,
    qas: Seq<QuestionResponse>,
    hs: Seq<QuestionnaireResponse>,
    qid: u64,
) -> Seq<TextResponse> {
    ts.filter(|t: TextResponse| !qa_under(qas, hs, qid, t.question_response_id))
}

/// The option selections whose answer row does not belong to questionnaire
/// `qid`.
pub open spec fn oas_not_under(
    ps: Seq<OptionResponse>,
    qas: Seq<QuestionResponse>,
    hs: Seq<QuestionnaireResponse>,
    qid: u64,
) -> Seq<OptionResponse> {
    ps.filter(|p: OptionResponse| !qa_under(qas, hs, qid, p.question_response_id))
}

/// The option selections of one answer row, in table order.
pub open spec fn oas_of_qa(ps: Seq<OptionResponse>, qa_id: u64) -> Seq<OptionResponse> {
    ps.filter(|p: OptionResponse| p.question_response_id == qa_id)
}

/// Every questionnaire row but the named one.
pub open spec fn questionnaires_not(s: Seq<Questionnaire>, id: u64) -> Seq<Questionnaire> {
    s.filter(|q: Questionnaire| q.id != id)
}

/// How many stored selections reference one option.
pub open spec fn count_selections(ps: Seq<OptionResponse>, option_id: u64) -> nat {
    ps.filter(|p: OptionResponse| p.option_id == option_id).len()
}

/// The labels of a sequence of option rows, in the same order.
pub open spec fn option_labels(os: Seq<QuestionOption>) -> Seq<String> {
    os.map_values(|o: QuestionOption| o.option_text)
}

// ---------------------------------------------------------------------------
// Point lookups: the first row with a matching key, in table order.
// ---------------------------------------------------------------------------

/// The first questionnaire row with the given id.
pub open spec fn find_questionnaire(s: Seq<Questionnaire>, id: u64) -> Option<Questionnaire>
    decreases s.len(),
{
    if s.len() == 0 {
        None
    } else if s[0].id == id {
        Some(s[0])
    } else {
        find_questionnaire(s.subrange(1, s.len() as int), id)
    }
}

/// The first question row with the given id.
pub open spec fn find_question(s: Seq<Question>, id: u64) -> Option<Question>
    decreases s.len(),
{
    if s.len() == 0 {
        None
    } else if s[0].id == id {
        Some(s[0])
    } else {
        find_question(s.subrange(1, s.len() as int), id)
    }
}

/// The first response header with the given id.
pub open spec fn find_header(s: Seq<QuestionnaireResponse>, id: u64) -> Option<
    QuestionnaireResponse,
>
    decreases s.len(),
{
    if s.len() == 0 {
        None
    } else if s[0].id == id {
        Some(s[0])
    } else {
        find_header(s.subrange(1, s.len() as int), id)
    }
}

/// The first user row with the given id.
pub open spec fn find_user_by_id(s: Seq<User>, id: u64) -> Option<User>
    decreases s.len(),
{
    if s.len() == 0 {
        None
    } else if s[0].id == id {
        Some(s[0])
    } else {
        find_user_by_id(s.subrange(1, s.len() as int), id)
    }
}

/// The first user row with the given username.
pub open spec fn find_user_by_username(s: Seq<User>, name: Seq<char>) -> Option<User>
    decreases s.len(),
{
    if s.len() == 0 {
        None
    } else if s[0].username@ == name {
        Some(s[0])
    } else {
        find_user_by_username(s.subrange(1, s.len() as int), name)
    }
}

/// The first text value recorded for one answer row.
pub open spec fn find_text_for(s: Seq<TextResponse>, qa_id: u64) -> Option<TextResponse>
    decreases s.len(),
{
    if s.len() == 0 {
        None
    } else if s[0].question_response_id == qa_id {
        Some(s[0])
    } else {
        find_text_for(s.subrange(1, s.len() as int), qa_id)
    }
}

/// The first option row with the given id.
pub open spec fn find_option_by_id(s: Seq<QuestionOption>, id: u64) -> Option<QuestionOption>
    decreases s.len(),
{
    if s.len() == 0 {
        None
    } else if s[0].id == id {
        Some(s[0])
    } else {
        find_option_by_id(s.subrange(1, s.len() as int), id)
    }
}

/// The first option of the given question whose label matches exactly.
pub open spec fn find_option_labelled(
    s: Seq<QuestionOption>,
    question_id: u64,
    label: Seq<char>,
) -> Option<QuestionOption>
    decreases s.len(),
{
    if s.len() == 0 {
        None
    } else if s[0].question_id == question_id && s[0].option_text@ == label {
        Some(s[0])
    } else {
        find_option_labelled(s.subrange(1, s.len() as int), question_id, label)
    }
}

// ---------------------------------------------------------------------------
// Well-formedness.
// ---------------------------------------------------------------------------

pub open spec fn questionnaire_ids_ok(s: Seq<Questionnaire>, bound: u64) -> bool {
    &&& forall|i: int, j: int| #![trigger s[i], s[j]] 0 <= i < j < s.len() ==> s[i].id != s[j].id
    &&& forall|i: int| 0 <= i < s.len() ==> (#[trigger] s[i]).id < bound
}

pub open spec fn question_ids_ok(s: Seq<Question>, bound: u64) -> bool {
    &&& forall|i: int, j: int| #![trigger s[i], s[j]] 0 <= i < j < s.len() ==> s[i].id != s[j].id
    &&& forall|i: int| 0 <= i < s.len() ==> (#[trigger] s[i]).id < bound
}

pub open spec fn option_ids_ok(s: Seq<QuestionOption>, bound: u64) -> bool {
    &&& forall|i: int, j: int| #![trigger s[i], s[j]] 0 <= i < j < s.len() ==> s[i].id != s[j].id
    &&& forall|i: int| 0 <= i < s.len() ==> (#[trigger] s[i]).id < bound
}

pub open spec fn header_ids_ok(s: Seq<QuestionnaireResponse>, bound: u64) -> bool {
    &&& forall|i: int, j: int| #![trigger s[i], s[j]] 0 <= i < j < s.len() ==> s[i].id != s[j].id
    &&& forall|i: int| 0 <= i < s.len() ==> (#[trigger] s[i]).id < bound
}

pub open spec fn answer_ids_ok(s: Seq<QuestionResponse>, bound: u64) -> bool {
    &&& forall|i: int, j: int| #![trigger s[i], s[j]] 0 <= i < j < s.len() ==> s[i].id != s[j].id
    &&& forall|i: int| 0 <= i < s.len() ==> (#[trigger] s[i]).id < bound
}

pub open spec fn text_ids_ok(s: Seq<TextResponse>, bound: u64) -> bool {
    &&& forall|i: int, j: int| #![trigger s[i], s[j]] 0 <= i < j < s.len() ==> s[i].id != s[j].id
    &&& forall|i: int| 0 <= i < s.len() ==> (#[trigger] s[i]).id < bound
}

pub open spec fn option_answer_ids_ok(s: Seq<OptionResponse>, bound: u64) -> bool {
    &&& forall|i: int, j: int| #![trigger s[i], s[j]] 0 <= i < j < s.len() ==> s[i].id != s[j].id
    &&& forall|i: int| 0 <= i < s.len() ==> (#[trigger] s[i]).id < bound
}

pub open spec fn user_ids_ok(s: Seq<User>, bound: u64) -> bool {
    &&& forall|i: int, j: int| #![trigger s[i], s[j]] 0 <= i < j < s.len() ==> s[i].id != s[j].id
    &&& forall|i: int| 0 <= i < s.len() ==> (#[trigger] s[i]).id < bound
}

/// Display orders of one questionnaire's questions, in table order, are
/// exactly 1, 2, 3, ...
pub open spec fn orders_ok_questions(qs: Seq<Question>) -> bool {
    forall|k: int| 0 <= k < qs.len() ==> (#[trigger] qs[k]).display_order == k + 1
}

/// Display orders of one question's options, in table order, are exactly
/// 1, 2, 3, ...
pub open spec fn orders_ok_options(os: Seq<QuestionOption>) -> bool {
    forall|k: int| 0 <= k < os.len() ==> (#[trigger] os[k]).display_order == k + 1
}

impl Store {
    /// The store's invariant: ids are unique per table and below the table's
    /// counter, child rows of the definition tables reference already-issued
    /// parent ids, and each subtree's display orders are 1-based and
    /// contiguous in table order.
    pub open spec fn wf(self) -> bool {
        &&& questionnaire_ids_ok(self.questionnaires@, self.next_questionnaire_id)
        &&& question_ids_ok(self.questions@, self.next_question_id)
        &&& option_ids_ok(self.question_options@, self.next_option_id)
        &&& header_ids_ok(self.questionnaire_responses@, self.next_response_id)
        &&& answer_ids_ok(self.question_responses@, self.next_answer_id)
        &&& text_ids_ok(self.text_responses@, self.next_text_id)
        &&& option_answer_ids_ok(self.option_responses@, self.next_option_answer_id)
        &&& user_ids_ok(self.users@, self.next_user_id)
        &&& forall|i: int|
            0 <= i < self.questions@.len() ==> (#[trigger] self.questions@[i]).questionnaire_id
                < self.next_questionnaire_id
        &&& forall|i: int|
            0 <= i < self.question_options@.len() ==> (
            #[trigger] self.question_options@[i]).question_id < self.next_question_id
        &&& forall|qid: u64| orders_ok_questions(#[trigger] questions_of(self.questions@, qid))
        &&& forall|question_id: u64|
            orders_ok_options(#[trigger] options_of_question(self.question_options@, question_id))
    }

    /// An empty store; ids start at 1, as relational stores usually issue
    /// them.
    pub fn new() -> (s: Store)
        ensures
            s.wf(),
            s.questionnaires@ == Seq::<Questionnaire>::empty(),
            s.questions@ == Seq::<Question>::empty(),
            s.question_options@ == Seq::<QuestionOption>::empty(),
            s.questionnaire_responses@ == Seq::<QuestionnaireResponse>::empty(),
            s.question_responses@ == Seq::<QuestionResponse>::empty(),
            s.text_responses@ == Seq::<TextResponse>::empty(),
            s.option_responses@ == Seq::<OptionResponse>::empty(),
            s.users@ == Seq::<User>::empty(),
            s.next_questionnaire_id == 1 && s.next_question_id == 1 && s.next_option_id == 1
                && s.next_response_id == 1 && s.next_answer_id == 1 && s.next_text_id == 1
                && s.next_option_answer_id == 1 && s.next_user_id == 1,
    {
        let s = Store {
            questionnaires: Vec::new(),
            questions: Vec::new(),
            question_options: Vec::new(),
            questionnaire_responses: Vec::new(),
            question_responses: Vec::new(),
            text_responses: Vec::new(),
            option_responses: Vec::new(),
            users: Vec::new(),
            next_questionnaire_id: 1,
            next_question_id: 1,
            next_option_id: 1,
            next_response_id: 1,
            next_answer_id: 1,
            next_text_id: 1,
            next_option_answer_id: 1,
            next_user_id: 1,
        };
        proof {
            assert forall|qid: u64| orders_ok_questions(
                #[trigger] questions_of(s.questions@, qid),
            ) by {
                assert(questions_of(s.questions@, qid) == Seq::<Question>::empty());
            }
            assert forall|question_id: u64| orders_ok_options(
                #[trigger] options_of_question(s.question_options@, question_id),
            ) by {
                assert(options_of_question(s.question_options@, question_id) == Seq::<
                    QuestionOption,
                >::empty());
            }
        }
        s
    }
}

// ---------------------------------------------------------------------------
// Executable lookups and scans.
// ---------------------------------------------------------------------------

impl Store {
    /// Look a questionnaire up by id.
    pub fn questionnaire_by_id(&self, id: u64) -> (r: Option<Questionnaire>)
        ensures
            r == find_questionnaire(self.questionnaires@, id),
    {
        let ghost full = self.questionnaires@;
        let n = self.questionnaires.len();
        let mut i: usize = 0;
        proof {
            assert(full.subrange(0, n as int) =~= full);
        }
        while i < n
            invariant
                0 <= i <= n,
                find_questionnaire(full, id) == find_questionnaire(
                    full.subrange(i as int, n as int),
                    id,
                ),
            decreases n - i,
        {
            proof {
                assert(full.subrange(i as int, n as int)[0] == full[i as int]);
                assert(full.subrange(i as int, n as int).subrange(1, (n - i) as int)
                    =~= full.subrange(i as int + 1, n as int));
            }
            if self.questionnaires[i].id == id {
                return Some(self.questionnaires[i].clone());
            }
            i = i + 1;
        }
        None
    }

    /// Look a question up by id.
    pub fn question_by_id(&self, id: u64) -> (r: Option<Question>)
        ensures
            r == find_question(self.questions@, id),
    {
        let ghost full = self.questions@;
        let n = self.questions.len();
        let mut i: usize = 0;
        proof {
            assert(full.subrange(0, n as int) =~= full);
        }
        while i < n
            invariant
                0 <= i <= n,
                find_question(full, id) == find_question(full.subrange(i as int, n as int), id),
            decreases n - i,
        {
            proof {
                assert(full.subrange(i as int, n as int)[0] == full[i as int]);
                assert(full.subrange(i as int, n as int).subrange(1, (n - i) as int)
                    =~= full.subrange(i as int + 1, n as int));
            }
            if self.questions[i].id == id {
                return Some(self.questions[i].clone());
            }
            i = i + 1;
        }
        None
    }

    /// Look a response header up by id.
    pub fn header_by_id(&self, id: u64) -> (r: Option<QuestionnaireResponse>)
        ensures
            r == find_header(self.questionnaire_responses@, id),
    {
        let ghost full = self.questionnaire_responses@;
        let n = self.questionnaire_responses.len();
        let mut i: usize = 0;
        proof {
            assert(full.subrange(0, n as int) =~= full);
        }
        while i < n
            invariant
                0 <= i <= n,
                find_header(full, id) == find_header(full.subrange(i as int, n as int), id),
            decreases n - i,
        {
            proof {
                assert(full.subrange(i as int, n as int)[0] == full[i as int]);
                assert(full.subrange(i as int, n as int).subrange(1, (n - i) as int)
                    =~= full.subrange(i as int + 1, n as int));
            }
            if self.questionnaire_responses[i].id == id {
                return Some(self.questionnaire_responses[i].clone());
            }
            i = i + 1;
        }
        None
    }

    /// Look a user up by id.
    pub fn user_by_id(&self, id: u64) -> (r: Option<User>)
        ensures
            r == find_user_by_id(self.users@, id),
    {
        let ghost full = self.users@;
        let n = self.users.len();
        let mut i: usize = 0;
        proof {
            assert(full.subrange(0, n as int) =~= full);
        }
        while i < n
            invariant
                0 <= i <= n,
                find_user_by_id(full, id) == find_user_by_id(
                    full.subrange(i as int, n as int),
                    id,
                ),
            decreases n - i,
        {
            proof {
                assert(full.subrange(i as int, n as int)[0] == full[i as int]);
                assert(full.subrange(i as int, n as int).subrange(1, (n - i) as int)
                    =~= full.subrange(i as int + 1, n as int));
            }
            if self.users[i].id == id {
                return Some(self.users[i].clone());
            }
            i = i + 1;
        }
        None
    }

    /// Look a user up by username.
    pub fn user_by_username(&self, name: &String) -> (r: Option<User>)
        ensures
            r == find_user_by_username(self.users@, name@),
    {
        let ghost full = self.users@;
        let n = self.users.len();
        let mut i: usize = 0;
        proof {
            assert(full.subrange(0, n as int) =~= full);
        }
        while i < n
            invariant
                0 <= i <= n,
                find_user_by_username(full, name@) == find_user_by_username(
                    full.subrange(i as int, n as int),
                    name@,
                ),
            decreases n - i,
        {
            proof {
                assert(full.subrange(i as int, n as int)[0] == full[i as int]);
                assert(full.subrange(i as int, n as int).subrange(1, (n - i) as int)
                    =~= full.subrange(i as int + 1, n as int));
            }
            if crate::text::string_eq(&self.users[i].username, name) {
                return Some(self.users[i].clone());
            }
            i = i + 1;
        }
        None
    }

    /// The first stored text value of one answer row, if any.
    pub fn text_for_answer(&self, qa_id: u64) -> (r: Option<TextResponse>)
        ensures
            r == find_text_for(self.text_responses@, qa_id),
    {
        let ghost full = self.text_responses@;
        let n = self.text_responses.len();
        let mut i: usize = 0;
        proof {
            assert(full.subrange(0, n as int) =~= full);
        }
        while i < n
            invariant
                0 <= i <= n,
                find_text_for(full, qa_id) == find_text_for(
                    full.subrange(i as int, n as int),
                    qa_id,
                ),
            decreases n - i,
        {
            proof {
                assert(full.subrange(i as int, n as int)[0] == full[i as int]);
                assert(full.subrange(i as int, n as int).subrange(1, (n - i) as int)
                    =~= full.subrange(i as int + 1, n as int));
            }
            if self.text_responses[i].question_response_id == qa_id {
                return Some(self.text_responses[i].clone());
            }
            i = i + 1;
        }
        None
    }

    /// Look an option up by id.
    pub fn option_by_id(&self, id: u64) -> (r: Option<QuestionOption>)
        ensures
            r == find_option_by_id(self.question_options@, id),
    {
        let ghost full = self.question_options@;
        let n = self.question_options.len();
        let mut i: usize = 0;
        proof {
            assert(full.subrange(0, n as int) =~= full);
        }
        while i < n
            invariant
                0 <= i <= n,
                find_option_by_id(full, id) == find_option_by_id(
                    full.subrange(i as int, n as int),
                    id,
                ),
            decreases n - i,
        {
            proof {
                assert(full.subrange(i as int, n as int)[0] == full[i as int]);
                assert(full.subrange(i as int, n as int).subrange(1, (n - i) as int)
                    =~= full.subrange(i as int + 1, n as int));
            }
            if self.question_options[i].id == id {
                return Some(self.question_options[i].clone());
            }
            i = i + 1;
        }
        None
    }

    /// The first option of a question with exactly the given label, if any.
    pub fn option_by_label(&self, question_id: u64, label: &String) -> (r: Option<QuestionOption>)
        ensures
            r == find_option_labelled(self.question_options@, question_id, label@),
    {
        let ghost full = self.question_options@;
        let n = self.question_options.len();
        let mut i: usize = 0;
        proof {
            assert(full.subrange(0, n as int) =~= full);
        }
        while i < n
            invariant
                0 <= i <= n,
                find_option_labelled(full, question_id, label@) == find_option_labelled(
                    full.subrange(i as int, n as int),
                    question_id,
                    label@,
                ),
            decreases n - i,
        {
            proof {
                assert(full.subrange(i as int, n as int)[0] == full[i as int]);
                assert(full.subrange(i as int, n as int).subrange(1, (n - i) as int)
                    =~= full.subrange(i as int + 1, n as int));
            }
            if self.question_options[i].question_id == question_id && crate::text::string_eq(
                &self.question_options[i].option_text,
                label,
            ) {
                return Some(self.question_options[i].clone());
            }
            i = i + 1;
        }
        None
    }

    /// All questions of one questionnaire, in table (display) order.
    pub fn collect_questions(&self, qid: u64) -> (r: Vec<Question>)
        ensures
            r@ == questions_of(self.questions@, qid),
    {
        let mut r: Vec<Question> = Vec::new();
        let n = self.questions.len();
        let mut i: usize = 0;
        proof {
            assert(self.questions@.take(0) =~= Seq::<Question>::empty());
        }
        while i < n
            invariant
                0 <= i <= n,
                r@ == questions_of(self.questions@.take(i as int), qid),
            decreases n - i,
        {
            proof {
                assert(self.questions@.take(i as int + 1) =~= self.questions@.take(i as int).push(
                    self.questions@[i as int],
                ));
            }
            if self.questions[i].questionnaire_id == qid {
                r.push(self.questions[i].clone());
            }
            i = i + 1;
        }
        proof {
            assert(self.questions@.take(n as int) =~= self.questions@);
        }
        r
    }

    /// The labels of one question's options, in display order.
    pub fn collect_option_labels(&self, question_id: u64) -> (r: Vec<String>)
        ensures
            r@ == option_labels(options_of_question(self.question_options@, question_id)),
    {
        let mut r: Vec<String> = Vec::new();
        let n = self.question_options.len();
        let mut i: usize = 0;
        proof {
            assert(self.question_options@.take(0) =~= Seq::<QuestionOption>::empty());
        }
        while i < n
            invariant
                0 <= i <= n,
                r@ == option_labels(
                    options_of_question(self.question_options@.take(i as int), question_id),
                ),
            decreases n - i,
        {
            proof {
                assert(self.question_options@.take(i as int + 1)
                    =~= self.question_options@.take(i as int).push(
                    self.question_options@[i as int],
                ));
            }
            if self.question_options[i].question_id == question_id {
                r.push(self.question_options[i].option_text.clone());
                proof {
                    let prev = options_of_question(
                        self.question_options@.take(i as int),
                        question_id,
                    );
                    assert(option_labels(prev.push(self.question_options@[i as int]))
                        =~= option_labels(prev).push(self.question_options@[i as int].option_text));
                }
            }
            i = i + 1;
        }
        proof {
            assert(self.question_options@.take(n as int) =~= self.question_options@);
        }
        r
    }

    /// Whether an identified respondent already submitted to a questionnaire.
    pub fn has_header_for(&self, qid: u64, uid: u64) -> (r: bool)
        ensures
            r == has_submitted(self.questionnaire_responses@, qid, uid),
    {
        let n = self.questionnaire_responses.len();
        let mut i: usize = 0;
        while i < n
            invariant
                0 <= i <= n,
                forall|j: int|
                    0 <= j < i ==> !((#[trigger] self.questionnaire_responses@[j]).questionnaire_id
                        == qid && self.questionnaire_responses@[j].respondent_id == Some(uid)),
            decreases n - i,
        {
            let same_user = match self.questionnaire_responses[i].respondent_id {
                Some(u) => u == uid,
                None => false,
            };
            if self.questionnaire_responses[i].questionnaire_id == qid && same_user {
                return true;
            }
            i = i + 1;
        }
        false
    }

    /// Whether a question id belongs to a questionnaire.
    pub fn question_under(&self, qid: u64, question_id: u64) -> (r: bool)
        ensures
            r == question_in(self.questions@, qid, question_id),
    {
        let n = self.questions.len();
        let mut i: usize = 0;
        while i < n
            invariant
                0 <= i <= n,
                forall|j: int|
                    0 <= j < i ==> !((#[trigger] self.questions@[j]).questionnaire_id == qid
                        && self.questions@[j].id == question_id),
            decreases n - i,
        {
            if self.questions[i].questionnaire_id == qid && self.questions[i].id == question_id {
                return true;
            }
            i = i + 1;
        }
        false
    }

    /// Whether a header id belongs to a questionnaire.
    pub fn header_under(&self, qid: u64, header_id: u64) -> (r: bool)
        ensures
            r == header_in(self.questionnaire_responses@, qid, header_id),
    {
        let n = self.questionnaire_responses.len();
        let mut i: usize = 0;
        while i < n
            invariant
                0 <= i <= n,
                forall|j: int|
                    0 <= j < i ==> !((#[trigger] self.questionnaire_responses@[j]).questionnaire_id
                        == qid && self.questionnaire_responses@[j].id == header_id),
            decreases n - i,
        {
            if self.questionnaire_responses[i].questionnaire_id == qid
                && self.questionnaire_responses[i].id == header_id {
                return true;
            }
            i = i + 1;
        }
        false
    }

    /// Whether an answer-row id belongs, through its header, to a
    /// questionnaire.
    pub fn answer_under(&self, qid: u64, qa_id: u64) -> (r: bool)
        ensures
            r == qa_under(
                self.question_responses@,
                self.questionnaire_responses@,
                qid,
                qa_id,
            ),
    {
        let n = self.question_responses.len();
        let mut i: usize = 0;
        while i < n
            invariant
                0 <= i <= n,
                forall|j: int|
                    0 <= j < i ==> !((#[trigger] self.question_responses@[j]).id == qa_id
                        && header_in(
                        self.questionnaire_responses@,
                        qid,
                        self.question_responses@[j].questionnaire_response_id,
                    )),
            decreases n - i,
        {
            if self.question_responses[i].id == qa_id && self.header_under(
                qid,
                self.question_responses[i].questionnaire_response_id,
            ) {
                return true;
            }
            i = i + 1;
        }
        false
    }

    /// How many stored selections reference one option.
    pub fn count_selections_for(&self, option_id: u64) -> (r: u64)
        ensures
            r as nat == count_selections(self.option_responses@, option_id),
            r as nat <= self.option_responses@.len(),
    {
        let mut count: u64 = 0;
        let n = self.option_responses.len();
        let mut i: usize = 0;
        proof {
            assert(self.option_responses@.take(0) =~= Seq::<OptionResponse>::empty());
        }
        while i < n
            invariant
                0 <= i <= n,
                count as nat == count_selections(self.option_responses@.take(i as int), option_id),
                count as nat <= i as nat,
            decreases n - i,
        {
            proof {
                assert(self.option_responses@.take(i as int + 1)
                    =~= self.option_responses@.take(i as int).push(
                    self.option_responses@[i as int],
                ));
            }
            if self.option_responses[i].option_id == option_id {
                count = count + 1;
            }
            i = i + 1;
        }
        proof {
            assert(self.option_responses@.take(n as int) =~= self.option_responses@);
        }
        count
    }

    /// How many response headers one questionnaire has.
    pub fn count_headers_of(&self, qid: u64) -> (r: u64)
        ensures
            r as nat == headers_of(self.questionnaire_responses@, qid).len(),
    {
        let mut count: u64 = 0;
        let n = self.questionnaire_responses.len();
        let mut i: usize = 0;
        proof {
            assert(self.questionnaire_responses@.take(0) =~= Seq::<QuestionnaireResponse>::empty());
        }
        while i < n
            invariant
                0 <= i <= n,
                count as nat == headers_of(
                    self.questionnaire_responses@.take(i as int),
                    qid,
                ).len(),
                count as nat <= i as nat,
            decreases n - i,
        {
            proof {
                assert(self.questionnaire_responses@.take(i as int + 1)
                    =~= self.questionnaire_responses@.take(i as int).push(
                    self.questionnaire_responses@[i as int],
                ));
            }
            if self.questionnaire_responses[i].questionnaire_id == qid {
                count = count + 1;
            }
            i = i + 1;
        }
        proof {
            assert(self.questionnaire_responses@.take(n as int) =~= self.questionnaire_responses@);
        }
        count
    }
}


impl Store {
    /// All option rows of one question, in table (display) order.
    pub fn collect_options(&self, question_id: u64) -> (r: Vec<QuestionOption>)
        ensures
            r@ == options_of_question(self.question_options@, question_id),
    {
        let mut r: Vec<QuestionOption> = Vec::new();
        let n = self.question_options.len();
        let mut i: usize = 0;
        proof {
            assert(self.question_options@.take(0) =~= Seq::<QuestionOption>::empty());
        }
        while i < n
            invariant
                0 <= i <= n,
                r@ == options_of_question(self.question_options@.take(i as int), question_id),
            decreases n - i,
        {
            proof {
                assert(self.question_options@.take(i as int + 1)
                    =~= self.question_options@.take(i as int).push(
                    self.question_options@[i as int],
                ));
            }
            if self.question_options[i].question_id == question_id {
                r.push(self.question_options[i].clone());
            }
            i = i + 1;
        }
        proof {
            assert(self.question_options@.take(n as int) =~= self.question_options@);
        }
        r
    }

    /// All response headers of one questionnaire, in table order.
    pub fn collect_headers_of(&self, qid: u64) -> (r: Vec<QuestionnaireResponse>)
        ensures
            r@ == headers_of(self.questionnaire_responses@, qid),
    {
        let mut r: Vec<QuestionnaireResponse> = Vec::new();
        let n = self.questionnaire_responses.len();
        let mut i: usize = 0;
        proof {
            assert(self.questionnaire_responses@.take(0) =~= Seq::<QuestionnaireResponse>::empty());
        }
        while i < n
            invariant
                0 <= i <= n,
                r@ == headers_of(self.questionnaire_responses@.take(i as int), qid),
            decreases n - i,
        {
            proof {
                assert(self.questionnaire_responses@.take(i as int + 1)
                    =~= self.questionnaire_responses@.take(i as int).push(
                    self.questionnaire_responses@[i as int],
                ));
            }
            if self.questionnaire_responses[i].questionnaire_id == qid {
                r.push(self.questionnaire_responses[i].clone());
            }
            i = i + 1;
        }
        proof {
            assert(self.questionnaire_responses@.take(n as int) =~= self.questionnaire_responses@);
        }
        r
    }

    /// All option selections of one answer row, in table order.
    pub fn collect_oas_of_qa(&self, qa_id: u64) -> (r: Vec<OptionResponse>)
        ensures
            r@ == oas_of_qa(self.option_responses@, qa_id),
    {
        let mut r: Vec<OptionResponse> = Vec::new();
        let n = self.option_responses.len();
        let mut i: usize = 0;
        proof {
            assert(self.option_responses@.take(0) =~= Seq::<OptionResponse>::empty());
        }
        while i < n
            invariant
                0 <= i <= n,
                r@ == oas_of_qa(self.option_responses@.take(i as int), qa_id),
            decreases n - i,
        {
            proof {
                assert(self.option_responses@.take(i as int + 1)
                    =~= self.option_responses@.take(i as int).push(
                    self.option_responses@[i as int],
                ));
            }
            if self.option_responses[i].question_response_id == qa_id {
                r.push(self.option_responses[i].clone());
            }
            i = i + 1;
        }
        proof {
            assert(self.option_responses@.take(n as int) =~= self.option_responses@);
        }
        r
    }
}


} // verus!
