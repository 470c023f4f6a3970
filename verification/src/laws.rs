//! Properties of the library that relate several functions or hold of
//! every input.
use vstd::prelude::*;
use crate::text::{trim, trim_end, trim_start, white_space};
use crate::intent::{IntentResultView, IntentView, ask_of, missing_of};
use crate::parse::{parse_accepts, parse_spec, cancel_rule, transfer_rule, create_rule, search_rule};
use crate::executor::{ExecAction, ExecEvent, ExecState, started, stepped};
use crate::theme::{Theme, all_themes, theme_after};
use crate::services::client::ClientView;
use crate::conversation::{
    ManagerView, StateView, after_answer, after_execute, after_input, after_llm, after_new_input,
    after_result, after_start, fill_spec, merge_spec,
};

verus! {

/// What `trim_start` leaves does not begin with white space.
pub proof fn lemma_trim_start_clean(s: Seq<char>)
    ensures
        trim_start(s).len() == 0 || !white_space(trim_start(s)[0]),
    decreases s.len(),
{
    if s.len() > 0 && white_space(s[0]) {
        lemma_trim_start_clean(s.drop_first());
    }
}

/// What `trim_end` leaves is a prefix of its input that does not end with white space.
pub proof fn lemma_trim_end_prefix(s: Seq<char>)
    ensures
        trim_end(s).len() <= s.len(),
        trim_end(s) == s.take(trim_end(s).len() as int),
        trim_end(s).len() == 0 || !white_space(trim_end(s).last()),
    decreases s.len(),
{
    if s.len() > 0 && white_space(s.last()) {
        lemma_trim_end_prefix(s.drop_last());
        assert(s.drop_last().take(trim_end(s).len() as int) =~= s.take(trim_end(s).len() as int));
    } else {
        assert(s.take(s.len() as int) =~= s);
    }
}

/// Trimming twice is trimming once.
pub proof fn lemma_trim_idempotent(s: Seq<char>)
    ensures
        trim(trim(s)) == trim(s),
{
    let u = trim_start(s);
    let v = trim_end(u);
    lemma_trim_start_clean(s);
    lemma_trim_end_prefix(u);
    if v.len() > 0 {
        assert(v[0] == u[0]);
    }
    assert(trim_start(v) == v);
    assert(trim_end(v) == v);
}


// ------------------------------------------------------------------
// Intents and parsing
// ------------------------------------------------------------------

/// A result lists exactly the fields its intent lacks.
pub open spec fn consistent(r: IntentResultView) -> bool {
    r.missing_fields == missing_of(r.intent)
}

/// An intent is asked about exactly when it lacks a field.
pub proof fn law_ask_iff_missing(i: IntentView)
    ensures
        (ask_of(i) is Some) <==> missing_of(i).len() > 0,
{
}

/// The rule parser reads a sentence as its trimmed self: white space
/// around it changes neither the result nor whether the sentence is
/// accepted, and blank input gives nothing.
pub proof fn law_parse_ignores_surrounding_space(input: Seq<char>)
    ensures
        parse_spec(trim(input)) == parse_spec(input),
        parse_accepts(trim(input)) == parse_accepts(input),
        trim(input).len() == 0 ==> parse_spec(input) is None,
{
    lemma_trim_idempotent(input);
}

/// Every result of the rule parser lists exactly the fields its intent
/// lacks.
pub proof fn law_parse_consistent(input: Seq<char>)
    ensures
        parse_spec(input) matches Some(r) ==> consistent(r),
{
    let s = trim(input);
    if s.len() > 0 && cancel_rule(s) is None {
        if transfer_rule(s) is None && create_rule(s) is None {
            match search_rule(s) {
                Some(r) => {
                    assert(r.missing_fields =~= missing_of(r.intent));
                },
                None => {},
            }
        }
    }
}

/// Merging a newer intent of the same kind into an older one keeps every
/// field either of them knew: the merge lacks no field that the newer
/// intent has, nor one that the older has.
pub proof fn law_merge_keeps_known(old: IntentView, new: IntentView)
    ensures
        missing_of(merge_spec(old, new)).len() <= missing_of(new).len(),
        (old is Transfer && new is Transfer) || (old is CreateDepartment && new is CreateDepartment)
            ==> missing_of(merge_spec(old, new)).len() <= missing_of(old).len(),
{
}

/// Merging a follow-up transfer into a pending transfer keeps every field
/// the follow-up gives, as given, and takes each field it leaves out from
/// the pending transfer.
pub proof fn law_merge_transfer_newer_wins(old: IntentView, new: IntentView)
    requires
        old is Transfer,
        new is Transfer,
    ensures
        merge_spec(old, new) is Transfer,
        new->employee_name is Some ==> merge_spec(old, new)->employee_name == new->employee_name,
        new->employee_name is None ==> merge_spec(old, new)->employee_name == old->employee_name,
        new->from_department is Some ==> merge_spec(old, new)->from_department == new->from_department,
        new->from_department is None ==> merge_spec(old, new)->from_department == old->from_department,
        new->to_department is Some ==> merge_spec(old, new)->to_department == new->to_department,
        new->to_department is None ==> merge_spec(old, new)->to_department == old->to_department,
{
}

/// Merging a follow-up department creation into a pending one keeps every
/// field the follow-up gives, as given, and takes each field it leaves out
/// from the pending one.
pub proof fn law_merge_create_newer_wins(old: IntentView, new: IntentView)
    requires
        old is CreateDepartment,
        new is CreateDepartment,
    ensures
        merge_spec(old, new) is CreateDepartment,
        new->department_name is Some ==> merge_spec(old, new)->department_name == new->department_name,
        new->department_name is None ==> merge_spec(old, new)->department_name == old->department_name,
        new->parent_department is Some ==> merge_spec(old, new)->parent_department
            == new->parent_department,
        new->parent_department is None ==> merge_spec(old, new)->parent_department
            == old->parent_department,
{
}

/// A follow-up of another kind than the pending intent replaces it.
pub proof fn law_merge_other_kind_replaces(old: IntentView, new: IntentView)
    requires
        !((old is Transfer && new is Transfer) || (old is CreateDepartment && new is CreateDepartment)),
    ensures
        merge_spec(old, new) == new,
{
}

/// An answer taken as the first missing field fills exactly one field.
pub proof fn law_fill_fills_one(i: IntentView, text: Seq<char>)
    requires
        missing_of(i).len() > 0,
    ensures
        missing_of(fill_spec(i, text)).len() == missing_of(i).len() - 1,
{
}

// ------------------------------------------------------------------
// The conversation
// ------------------------------------------------------------------

/// A state that puts up for confirmation, or carries out, only intents
/// that lack no field.
pub open spec fn settled(st: StateView) -> bool {
    match st {
        StateView::Confirming { result, .. } => missing_of(result.intent).len() == 0,
        StateView::Executing { intent } => missing_of(intent).len() == 0,
        _ => true,
    }
}

proof fn lemma_result_settled(r: IntentResultView, history: Seq<crate::conversation::MessageView>)
    requires
        consistent(r),
    ensures
        settled(after_result(r, history)),
{
}

proof fn lemma_new_input_settled(st: StateView, t: Seq<char>)
    requires
        settled(st),
    ensures
        settled(after_new_input(st, t)),
{
    law_parse_consistent(t);
    match parse_spec(t) {
        Some(r) => {
            lemma_result_settled(r, seq![crate::conversation::user_msg(t)]);
        },
        None => {},
    }
}

/// Local input never puts up for confirmation, nor starts, an intent
/// that lacks a field.
pub proof fn law_input_keeps_settled(m: ManagerView, input: Seq<char>)
    requires
        settled(m.state),
    ensures
        settled(after_input(m, input).state),
{
    let t = trim(input);
    if t.len() > 0 {
        lemma_new_input_settled(m.state, t);
        match m.state {
            StateView::Asking { partial, history, .. } => {
                assert(settled(after_answer(m.state, t, partial, history)));
            },
            _ => {},
        }
    }
}

/// Starting a remote parse never puts up for confirmation, nor starts,
/// an intent that lacks a field.
pub proof fn law_start_keeps_settled(m: ManagerView, input: Seq<char>)
    requires
        settled(m.state),
    ensures
        settled(after_start(m, input).0.state),
{
}

/// A remote answer whose result lists exactly the fields its intent lacks
/// never puts up for confirmation an intent that lacks a field.
pub proof fn law_llm_keeps_settled(st: StateView, user_input: Seq<char>, result: Result<IntentResultView, Seq<char>>)
    requires
        settled(st),
        result matches Ok(r) ==> consistent(r),
    ensures
        settled(after_llm(st, user_input, result)),
{
    match result {
        Ok(r) => {
            lemma_result_settled(r, crate::conversation::history_of(st));
        },
        Err(text) => {
            law_parse_consistent(user_input);
        },
    }
}

/// Carrying out the confirmed intent keeps the conversation settled.
pub proof fn law_execute_keeps_settled(m: ManagerView)
    requires
        settled(m.state),
    ensures
        settled(after_execute(m).state),
{
}

/// The operation history only grows: local input and starting a remote
/// parse keep every earlier record in place.
pub proof fn law_operations_only_grow(m: ManagerView, input: Seq<char>)
    ensures
        m.operations.is_prefix_of(after_input(m, input).operations),
        m.operations.is_prefix_of(after_start(m, input).0.operations),
        m.operations.is_prefix_of(after_execute(m).operations),
{
    assert(m.operations.is_prefix_of(m.operations));
    assert(m.operations.is_prefix_of(after_execute(m).operations));
}

/// Carrying out records exactly one operation, the confirmed intent,
/// when an intent was up for confirmation, and none otherwise.
pub proof fn law_execute_records_once(m: ManagerView)
    ensures
        m.state is Confirming ==> after_execute(m).operations.len() == m.operations.len() + 1
            && after_execute(m).operations.last().intent == m.state->Confirming_result.intent
            && after_execute(m).state == (StateView::Executing { intent: m.state->Confirming_result.intent }),
        !(m.state is Confirming) ==> after_execute(m) == m,
{
}

/// Empty or blank input changes nothing.
pub proof fn law_blank_input_changes_nothing(m: ManagerView, input: Seq<char>)
    requires
        trim(input).len() == 0,
    ensures
        after_input(m, input) == m,
        after_start(m, input) == (m, false),
{
}


// ------------------------------------------------------------------
// Carrying out an intent
// ------------------------------------------------------------------

/// How many answers a state may still wait for at most.
pub open spec fn steps_left(s: ExecState) -> nat {
    match s {
        ExecState::AwaitEmployee { .. } => 5,
        ExecState::AwaitTarget { .. } => 4,
        ExecState::AwaitSource { .. } => 3,
        ExecState::AwaitParent { .. } => 2,
        ExecState::AwaitRemoval { .. } => 2,
        ExecState::AwaitCreated { .. } => 1,
        ExecState::AwaitAdded { .. } => 1,
        ExecState::Finished => 0,
    }
}

/// An execution ends: every step finishes or moves to a state that waits
/// for fewer answers, and the action is `Finish` exactly when the state
/// reached is `Finished`.
pub proof fn law_step_progresses(s: ExecState, e: ExecEvent, s2: ExecState, a: ExecAction)
    requires
        stepped(s, e, s2, a),
    ensures
        steps_left(s2) < steps_left(s),
        (a is Finish) <==> (s2 is Finished),
{
}

/// An execution starts by finishing at once or in a state that waits for
/// at most five answers; the action is `Finish` exactly when the state is
/// `Finished`.
pub proof fn law_start_bounded(i: IntentView, org_id: i64, millis: nat, s: ExecState, a: ExecAction)
    requires
        started(i, org_id, millis, s, a),
    ensures
        steps_left(s) <= 5,
        (a is Finish) <==> (s is Finished),
{
}

// ------------------------------------------------------------------
// Themes
// ------------------------------------------------------------------

/// The theme button comes back to where it started after three presses,
/// and the list of themes holds each theme once, each followed by the
/// next in the cycle.
pub proof fn law_theme_cycle(t: Theme)
    ensures
        theme_after(theme_after(theme_after(t))) == t,
        theme_after(t) != t,
        all_themes().contains(t),
        forall|i: int| 0 <= i < 2 ==> #[trigger] all_themes()[i + 1] == theme_after(all_themes()[i]),
        theme_after(all_themes()[2]) == all_themes()[0],
{
    match t {
        Theme::Jade => assert(all_themes()[0] == t),
        Theme::DeepSpace => assert(all_themes()[1] == t),
        Theme::Obsidian => assert(all_themes()[2] == t),
    }
}


// ------------------------------------------------------------------
// The service client
// ------------------------------------------------------------------

/// A token that is set is the token read back, and setting one of the
/// two tokens leaves the other as it was.
pub proof fn law_token_read_back(c: ClientView, t: Seq<char>)
    ensures
        (ClientView { access_token: t, ..c }).access_token == t,
        (ClientView { access_token: t, ..c }).refresh_token == c.refresh_token,
        (ClientView { refresh_token: t, ..c }).refresh_token == t,
        (ClientView { refresh_token: t, ..c }).access_token == c.access_token,
{
}

} // verus!
