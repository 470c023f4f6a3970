//! The conversation state machine.
//!
//! A conversation goes Idle → Parsing → Confirming (or Asking for missing
//! fields) → Executing → Done, with Error when a remote parse fails and no
//! local rule applies. Every executed intent is recorded in the operation
//! history.
use vstd::prelude::*;
use crate::text::{append_str, chars_of, equals_str, owned, string_of, trim, trim_chars};
use crate::intent::{
    IntentResult, IntentResultView, IntentView, ParsedIntent, ask_of, copy_opt, describe_of,
    missing_of,
};
use crate::parse::{parse_accepts, parse_intent, parse_spec};
use crate::llm::{IntentError, error_text};

verus! {

broadcast use vstd::string::group_string_axioms;

/// Who wrote a message.
#[derive(Clone, Copy, Debug, PartialEq, Eq, Structural)]
pub enum MessageRole {
    User,
    System,
}

/// One message of the conversation.
#[derive(Clone, Debug, PartialEq)]
pub struct ChatMessage {
    pub role: MessageRole,
    pub content: String,
    pub timestamp: String,
}

/// The mathematical value of a message.
pub struct MessageView {
    pub role: MessageRole,
    pub content: Seq<char>,
    pub timestamp: Seq<char>,
}

impl View for ChatMessage {
    type V = MessageView;

    open spec fn view(&self) -> MessageView {
        MessageView { role: self.role, content: self.content@, timestamp: self.timestamp@ }
    }
}

/// The values of a list of messages.
pub open spec fn messages_view(h: Seq<ChatMessage>) -> Seq<MessageView> {
    h.map_values(|m: ChatMessage| m@)
}

/// Where the conversation stands.
#[derive(Clone, Debug, PartialEq)]
pub enum ConversationState {
    /// Waiting for input.
    Idle,
    /// A remote parse is under way.
    Parsing { history: Vec<ChatMessage> },
    /// An intent waits for the user's confirmation.
    Confirming { result: IntentResult, history: Vec<ChatMessage> },
    /// Required fields are missing; the user was asked for them.
    Asking { partial: IntentResult, prompt: String, history: Vec<ChatMessage> },
    /// The confirmed intent is being carried out.
    Executing { intent: ParsedIntent },
    /// The operation finished.
    Done { summary: String, success: bool },
    /// Parsing failed.
    Error { message: String },
}

/// The mathematical value of a conversation state.
pub enum StateView {
    Idle,
    Parsing { history: Seq<MessageView> },
    Confirming { result: IntentResultView, history: Seq<MessageView> },
    Asking { partial: IntentResultView, prompt: Seq<char>, history: Seq<MessageView> },
    Executing { intent: IntentView },
    Done { summary: Seq<char>, success: bool },
    Error { message: Seq<char> },
}

impl View for ConversationState {
    type V = StateView;

    open spec fn view(&self) -> StateView {
        match self {
            ConversationState::Idle => StateView::Idle,
            ConversationState::Parsing { history } => StateView::Parsing {
                history: messages_view(history@),
            },
            ConversationState::Confirming { result, history } => StateView::Confirming {
                result: result@,
                history: messages_view(history@),
            },
            ConversationState::Asking { partial, prompt, history } => StateView::Asking {
                partial: partial@,
                prompt: prompt@,
                history: messages_view(history@),
            },
            ConversationState::Executing { intent } => StateView::Executing { intent: intent@ },
            ConversationState::Done { summary, success } => StateView::Done {
                summary: summary@,
                success: *success,
            },
            ConversationState::Error { message } => StateView::Error { message: message@ },
        }
    }
}

/// A record of an executed operation.
#[derive(Clone, Debug, PartialEq)]
pub struct OperationRecord {
    pub description: String,
    pub intent: ParsedIntent,
    pub timestamp: String,
    pub undoable: bool,
}

/// The mathematical value of an operation record.
pub struct RecordView {
    pub description: Seq<char>,
    pub intent: IntentView,
    pub timestamp: Seq<char>,
    pub undoable: bool,
}

impl View for OperationRecord {
    type V = RecordView;

    open spec fn view(&self) -> RecordView {
        RecordView {
            description: self.description@,
            intent: self.intent@,
            timestamp: self.timestamp@,
            undoable: self.undoable,
        }
    }
}

/// The conversation: its state and the operations executed so far.
#[derive(Clone, Debug, PartialEq)]
pub struct ConversationManager {
    pub state: ConversationState,
    pub operation_history: Vec<OperationRecord>,
}

/// The mathematical value of a conversation.
pub struct ManagerView {
    pub state: StateView,
    pub operations: Seq<RecordView>,
}

impl View for ConversationManager {
    type V = ManagerView;

    open spec fn view(&self) -> ManagerView {
        ManagerView {
            state: self.state@,
            operations: self.operation_history@.map_values(|r: OperationRecord| r@),
        }
    }
}

// ------------------------------------------------------------------
// Specification of the transitions
// ------------------------------------------------------------------

/// The time stamp written on messages and records.
pub open spec fn now_text() -> Seq<char> {
    "刚刚"@
}

/// A message from the user.
pub open spec fn user_msg(c: Seq<char>) -> MessageView {
    MessageView { role: MessageRole::User, content: c, timestamp: now_text() }
}

/// A message from the system.
pub open spec fn system_msg(c: Seq<char>) -> MessageView {
    MessageView { role: MessageRole::System, content: c, timestamp: now_text() }
}

/// The line that asks for confirmation.
pub open spec fn confirm_question() -> Seq<char> {
    "请确认是否执行？"@
}

/// The state after a parse result arrives, with `history` so far: cancel
/// and search finish at once, an unknown sentence goes back to Idle, and
/// any other intent is put up for confirmation when its result lists no
/// missing field, or asks for the missing fields.
pub open spec fn after_result(r: IntentResultView, history: Seq<MessageView>) -> StateView {
    match r.intent {
        IntentView::Cancel => StateView::Done { summary: "已取消"@, success: true },
        IntentView::Search { .. } => StateView::Done { summary: describe_of(r.intent), success: true },
        IntentView::Unknown { .. } => StateView::Idle,
        _ => if r.missing_fields.len() == 0 {
            StateView::Confirming {
                result: r,
                history: history.push(system_msg(r.hint + "\n"@ + describe_of(r.intent))).push(
                    system_msg(confirm_question()),
                ),
            }
        } else {
            match ask_of(r.intent) {
                Some(a) => StateView::Asking {
                    partial: r,
                    prompt: a,
                    history: history.push(system_msg(r.hint + "\n"@ + a)),
                },
                None => StateView::Idle,
            }
        },
    }
}

/// The state after a new sentence `t` is parsed locally from state `st`.
pub open spec fn after_new_input(st: StateView, t: Seq<char>) -> StateView {
    match parse_spec(t) {
        Some(r) => after_result(r, seq![user_msg(t)]),
        None => st,
    }
}

/// `a` when it is known, else `b`.
pub open spec fn or_opt(a: Option<Seq<char>>, b: Option<Seq<char>>) -> Option<Seq<char>> {
    if a is Some {
        a
    } else {
        b
    }
}

/// Two intents of the same kind merged, the newer's known fields winning;
/// otherwise the newer intent.
pub open spec fn merge_spec(old: IntentView, new: IntentView) -> IntentView {
    match (old, new) {
        (
            IntentView::Transfer { employee_name: oe, from_department: of, to_department: ot },
            IntentView::Transfer { employee_name: ne, from_department: nf, to_department: nt },
        ) => IntentView::Transfer {
            employee_name: or_opt(ne, oe),
            from_department: or_opt(nf, of),
            to_department: or_opt(nt, ot),
        },
        (
            IntentView::CreateDepartment { department_name: on, parent_department: op },
            IntentView::CreateDepartment { department_name: nn, parent_department: np },
        ) => IntentView::CreateDepartment {
            department_name: or_opt(nn, on),
            parent_department: or_opt(np, op),
        },
        _ => new,
    }
}

/// `text` taken as the first missing field of `i`: the employee (then the
/// target department) of a transfer, or the name of a new department.
pub open spec fn fill_spec(i: IntentView, text: Seq<char>) -> IntentView {
    match i {
        IntentView::Transfer { employee_name, from_department, to_department } =>
            IntentView::Transfer {
            employee_name: if employee_name is None {
                Some(text)
            } else {
                employee_name
            },
            from_department,
            to_department: if to_department is None && employee_name is Some {
                Some(text)
            } else {
                to_department
            },
        },
        IntentView::CreateDepartment { department_name, parent_department } =>
            IntentView::CreateDepartment {
            department_name: if department_name is None {
                Some(text)
            } else {
                department_name
            },
            parent_department,
        },
        _ => i,
    }
}

/// The larger of two confidences.
pub open spec fn max_nat(a: nat, b: nat) -> nat {
    if a >= b {
        a
    } else {
        b
    }
}

/// A confidence raised by ten hundredths (kept within `u32`).
pub open spec fn raised(c: nat) -> nat {
    if c + 10 <= u32::MAX {
        (c + 10) as nat
    } else {
        u32::MAX as nat
    }
}

/// The state after the user answers a question with `t`, from the Asking
/// state `st` holding `partial` and `history`: a sentence the rules parse
/// is merged into the partial intent; other text fills its first missing
/// field.
pub open spec fn after_answer(
    st: StateView,
    t: Seq<char>,
    partial: IntentResultView,
    history: Seq<MessageView>,
) -> StateView {
    let h = history.push(user_msg(t));
    match parse_spec(t) {
        Some(n) => {
            let m = merge_spec(partial.intent, n.intent);
            let c = max_nat(n.confidence, partial.confidence);
            if missing_of(m).len() == 0 {
                StateView::Confirming {
                    result: IntentResultView {
                        intent: m,
                        confidence: c,
                        hint: n.hint,
                        missing_fields: Seq::empty(),
                    },
                    history: h.push(system_msg(describe_of(m) + "\n"@ + confirm_question())),
                }
            } else {
                match ask_of(m) {
                    Some(a) => StateView::Asking {
                        partial: IntentResultView {
                            intent: m,
                            confidence: c,
                            hint: n.hint,
                            missing_fields: n.missing_fields,
                        },
                        prompt: a,
                        history: h.push(system_msg(a)),
                    },
                    None => st,
                }
            }
        },
        None => {
            let u = fill_spec(partial.intent, t);
            if missing_of(u).len() == 0 {
                StateView::Confirming {
                    result: IntentResultView {
                        intent: u,
                        confidence: raised(partial.confidence),
                        hint: partial.hint,
                        missing_fields: Seq::empty(),
                    },
                    history: h.push(system_msg(describe_of(u) + "\n"@ + confirm_question())),
                }
            } else {
                match ask_of(u) {
                    Some(a) => StateView::Asking {
                        partial: IntentResultView { intent: u, ..partial },
                        prompt: a,
                        history: h.push(system_msg(a)),
                    },
                    None => st,
                }
            }
        },
    }
}

/// The conversation after the confirmed intent starts executing: it is
/// recorded in the operation history. Nothing changes outside Confirming.
pub open spec fn after_execute(m: ManagerView) -> ManagerView {
    match m.state {
        StateView::Confirming { result, .. } => ManagerView {
            state: StateView::Executing { intent: result.intent },
            operations: m.operations.push(
                RecordView {
                    description: describe_of(result.intent),
                    intent: result.intent,
                    timestamp: now_text(),
                    undoable: true,
                },
            ),
        },
        _ => m,
    }
}

/// A word that confirms the pending intent.
pub open spec fn is_confirm_word(t: Seq<char>) -> bool {
    t == "确认"@ || t == "确认执行"@ || t == "执行"@ || t == "是"@ || t == "好的"@
}

/// A word that declines the pending intent.
pub open spec fn is_decline_word(t: Seq<char>) -> bool {
    t == "取消"@ || t == "算了"@ || t == "不"@
}

/// The conversation after local input `input`.
pub open spec fn after_input(m: ManagerView, input: Seq<char>) -> ManagerView {
    let t = trim(input);
    if t.len() == 0 {
        m
    } else {
        match m.state {
            StateView::Idle => ManagerView { state: after_new_input(m.state, t), ..m },
            StateView::Asking { partial, history, .. } => ManagerView {
                state: after_answer(m.state, t, partial, history),
                ..m
            },
            StateView::Confirming { .. } => if is_confirm_word(t) {
                after_execute(m)
            } else if is_decline_word(t) {
                ManagerView { state: StateView::Idle, ..m }
            } else {
                ManagerView { state: after_new_input(m.state, t), ..m }
            },
            StateView::Done { .. } | StateView::Error { .. } => ManagerView {
                state: after_new_input(m.state, t),
                ..m
            },
            _ => m,
        }
    }
}

// ------------------------------------------------------------------
// Implementation
// ------------------------------------------------------------------

/// The time stamp written on messages and records.
pub fn now_timestamp() -> (r: String)
    ensures
        r@ == now_text(),
{
    owned("刚刚")
}

fn user_message(c: &[char]) -> (r: ChatMessage)
    ensures
        r@ == user_msg(c@),
{
    ChatMessage { role: MessageRole::User, content: string_of(c), timestamp: now_timestamp() }
}

fn system_message(c: &[char]) -> (r: ChatMessage)
    ensures
        r@ == system_msg(c@),
{
    ChatMessage { role: MessageRole::System, content: string_of(c), timestamp: now_timestamp() }
}

fn push_message(h: &mut Vec<ChatMessage>, m: ChatMessage)
    ensures
        messages_view(final(h)@) == messages_view(old(h)@).push(m@),
{
    h.push(m);
    assert(messages_view(h@) =~= messages_view(old(h)@).push(m@));
}

fn copy_messages(h: &Vec<ChatMessage>) -> (r: Vec<ChatMessage>)
    ensures
        messages_view(r@) == messages_view(h@),
{
    let mut r: Vec<ChatMessage> = Vec::new();
    let mut i: usize = 0;
    while i < h.len()
        invariant
            i <= h.len(),
            messages_view(r@) == messages_view(h@).take(i as int),
        decreases h.len() - i,
    {
        let m = ChatMessage {
            role: h[i].role,
            content: h[i].content.clone(),
            timestamp: h[i].timestamp.clone(),
        };
        push_message(&mut r, m);
        assert(messages_view(h@).take(i + 1) =~= messages_view(h@).take(i as int).push(h@[i as int]@));
        i = i + 1;
    }
    assert(messages_view(h@).take(h.len() as int) =~= messages_view(h@));
    r
}

/// `a` followed by "\n" and `b`.
fn two_lines(a: &str, b: &str) -> (r: Vec<char>)
    ensures
        r@ == a@ + "\n"@ + b@,
{
    let mut v = chars_of(a);
    append_str(&mut v, "\n");
    append_str(&mut v, b);
    v
}

/// The state after a parse result arrives, given the history so far.
fn apply_intent_result(result: IntentResult, history: Vec<ChatMessage>) -> (r: ConversationState)
    ensures
        r@ == after_result(result@, messages_view(history@)),
{
    let mut history = history;
    match &result.intent {
        ParsedIntent::Cancel => {
            ConversationState::Done { summary: owned("已取消"), success: true }
        },
        ParsedIntent::Search { .. } => {
            ConversationState::Done { summary: result.intent.describe(), success: true }
        },
        ParsedIntent::Unknown { .. } => ConversationState::Idle,
        _ => {
            if result.missing_fields.len() == 0 {
                let desc = result.intent.describe();
                let line = two_lines(result.hint.as_str(), desc.as_str());
                push_message(&mut history, system_message(&line));
                let q = chars_of("请确认是否执行？");
                push_message(&mut history, system_message(&q));
                ConversationState::Confirming { result, history }
            } else {
                match result.intent.ask_for_missing() {
                    Some(ask_text) => {
                        let line = two_lines(result.hint.as_str(), ask_text.as_str());
                        push_message(&mut history, system_message(&line));
                        ConversationState::Asking { partial: result, prompt: ask_text, history }
                    },
                    None => ConversationState::Idle,
                }
            }
        },
    }
}

/// The state after sentence `t` is parsed locally from state `st`.
fn after_new_input_exec(st: ConversationState, t: &str) -> (r: ConversationState)
    requires
        parse_accepts(t@),
        trim(t@) == t@,
    ensures
        r@ == after_new_input(st@, t@),
{
    match parse_intent(t) {
        Some(result) => {
            let mut h: Vec<ChatMessage> = Vec::new();
            let tc = chars_of(t);
            push_message(&mut h, user_message(&tc));
            assert(messages_view(h@) =~= seq![user_msg(t@)]);
            apply_intent_result(result, h)
        },
        None => st,
    }
}

/// `a` when it is known, else `b`.
fn or_else_opt(a: &Option<String>, b: &Option<String>) -> (r: Option<String>)
    ensures
        r.deep_view() == or_opt(a.deep_view(), b.deep_view()),
{
    if a.is_some() {
        copy_opt(a)
    } else {
        copy_opt(b)
    }
}

/// Two intents merged: for two transfers or two department creations the
/// newer's known fields win and the older's fill the rest; otherwise the
/// newer intent.
pub fn merge_intents(old: &ParsedIntent, new: &ParsedIntent) -> (r: ParsedIntent)
    ensures
        r@ == merge_spec(old@, new@),
{
    match (old, new) {
        (
            ParsedIntent::Transfer { employee_name: oe, from_department: of, to_department: ot },
            ParsedIntent::Transfer { employee_name: ne, from_department: nf, to_department: nt },
        ) => ParsedIntent::Transfer {
            employee_name: or_else_opt(ne, oe),
            from_department: or_else_opt(nf, of),
            to_department: or_else_opt(nt, ot),
        },
        (
            ParsedIntent::CreateDepartment { department_name: on, parent_department: op },
            ParsedIntent::CreateDepartment { department_name: nn, parent_department: np },
        ) => ParsedIntent::CreateDepartment {
            department_name: or_else_opt(nn, on),
            parent_department: or_else_opt(np, op),
        },
        _ => new.duplicate(),
    }
}

/// `text` taken as the first missing field of `intent`.
pub fn fill_missing_from_text(intent: &ParsedIntent, text: &str) -> (r: ParsedIntent)
    ensures
        r@ == fill_spec(intent@, text@),
{
    match intent {
        ParsedIntent::Transfer { employee_name, from_department, to_department } => {
            let emp = if employee_name.is_none() {
                Some(owned(text))
            } else {
                copy_opt(employee_name)
            };
            let to = if to_department.is_none() && employee_name.is_some() {
                Some(owned(text))
            } else {
                copy_opt(to_department)
            };
            ParsedIntent::Transfer {
                employee_name: emp,
                from_department: copy_opt(from_department),
                to_department: to,
            }
        },
        ParsedIntent::CreateDepartment { department_name, parent_department } => {
            let name = if department_name.is_none() {
                Some(owned(text))
            } else {
                copy_opt(department_name)
            };
            ParsedIntent::CreateDepartment {
                department_name: name,
                parent_department: copy_opt(parent_department),
            }
        },
        _ => intent.duplicate(),
    }
}

fn describe_then_confirm(i: &ParsedIntent) -> (r: Vec<char>)
    ensures
        r@ == describe_of(i@) + "\n"@ + confirm_question(),
{
    let d = i.describe();
    two_lines(d.as_str(), "请确认是否执行？")
}

/// The state after the user answers a question with `t`; `st` is the
/// Asking state that holds `partial` and `history`.
fn after_answer_exec(
    st: ConversationState,
    t: &str,
    partial: IntentResult,
    history: Vec<ChatMessage>,
) -> (r: ConversationState)
    requires
        parse_accepts(t@),
        trim(t@) == t@,
    ensures
        r@ == after_answer(st@, t@, partial@, messages_view(history@)),
{
    let mut h = history;
    let tc = chars_of(t);
    push_message(&mut h, user_message(&tc));
    match parse_intent(t) {
        Some(n) => {
            let merged = merge_intents(&partial.intent, &n.intent);
            let c = if n.confidence >= partial.confidence {
                n.confidence
            } else {
                partial.confidence
            };
            if merged.is_complete() {
                let line = describe_then_confirm(&merged);
                push_message(&mut h, system_message(&line));
                let r = IntentResult {
                    intent: merged,
                    confidence: c,
                    hint: n.hint,
                    missing_fields: Vec::new(),
                };
                assert(r.missing_fields.deep_view() =~= Seq::<Seq<char>>::empty());
                ConversationState::Confirming { result: r, history: h }
            } else {
                match merged.ask_for_missing() {
                    Some(ask_text) => {
                        let ac = chars_of(ask_text.as_str());
                        push_message(&mut h, system_message(&ac));
                        ConversationState::Asking {
                            partial: IntentResult {
                                intent: merged,
                                confidence: c,
                                hint: n.hint,
                                missing_fields: n.missing_fields,
                            },
                            prompt: ask_text,
                            history: h,
                        }
                    },
                    None => st,
                }
            }
        },
        None => {
            let updated = fill_missing_from_text(&partial.intent, t);
            if updated.is_complete() {
                let line = describe_then_confirm(&updated);
                push_message(&mut h, system_message(&line));
                let r = IntentResult {
                    intent: updated,
                    confidence: partial.confidence.saturating_add(10),
                    hint: partial.hint,
                    missing_fields: Vec::new(),
                };
                assert(r.missing_fields.deep_view() =~= Seq::<Seq<char>>::empty());
                ConversationState::Confirming { result: r, history: h }
            } else {
                match updated.ask_for_missing() {
                    Some(ask_text) => {
                        let ac = chars_of(ask_text.as_str());
                        push_message(&mut h, system_message(&ac));
                        ConversationState::Asking {
                            partial: IntentResult {
                                intent: updated,
                                confidence: partial.confidence,
                                hint: partial.hint,
                                missing_fields: partial.missing_fields,
                            },
                            prompt: ask_text,
                            history: h,
                        }
                    },
                    None => st,
                }
            }
        },
    }
}

/// The state after a remote parse answered, from the state `st`.
pub open spec fn after_llm(
    st: StateView,
    user_input: Seq<char>,
    result: Result<IntentResultView, Seq<char>>,
) -> StateView {
    let history = match st {
        StateView::Parsing { history } => history,
        _ => Seq::empty(),
    };
    match result {
        Ok(r) => after_result(r, history),
        Err(text) => {
            let msg = "⚠️ AI 解析失败，原因: "@ + text;
            let h = history.push(system_msg(msg));
            match parse_spec(user_input) {
                Some(local) => after_result(local, h.push(system_msg("已切换到本地模式解析。"@))),
                None => StateView::Error { message: msg },
            }
        },
    }
}

/// The state after `start_parsing(input)` and whether a remote parse
/// should be sent.
pub open spec fn after_start(m: ManagerView, input: Seq<char>) -> (ManagerView, bool) {
    let t = trim(input);
    if t.len() == 0 {
        (m, false)
    } else {
        match m.state {
            StateView::Idle | StateView::Done { .. } | StateView::Error { .. } => (
                ManagerView { state: StateView::Parsing { history: seq![user_msg(t)] }, ..m },
                true,
            ),
            StateView::Asking { history, .. } => (
                ManagerView { state: StateView::Parsing { history: history.push(user_msg(t)) }, ..m },
                true,
            ),
            StateView::Confirming { .. } => if is_confirm_word(t) {
                (after_execute(m), false)
            } else if is_decline_word(t) {
                (ManagerView { state: StateView::Idle, ..m }, false)
            } else {
                (ManagerView { state: StateView::Parsing { history: seq![user_msg(t)] }, ..m }, true)
            },
            _ => (m, false),
        }
    }
}

/// The summary of a finished operation: `summary`, and `detail` on a second line.
pub open spec fn summary_text(summary: Seq<char>, detail: Option<Seq<char>>) -> Seq<char> {
    match detail {
        Some(d) => summary + "\n"@ + d,
        None => summary,
    }
}

/// The messages shown for a state.
pub open spec fn history_of(st: StateView) -> Seq<MessageView> {
    match st {
        StateView::Confirming { history, .. } => history,
        StateView::Asking { history, .. } => history,
        StateView::Parsing { history } => history,
        _ => Seq::empty(),
    }
}

/// The intent a state holds.
pub open spec fn intent_of(st: StateView) -> Option<IntentView> {
    match st {
        StateView::Confirming { result, .. } => Some(result.intent),
        StateView::Asking { partial, .. } => Some(partial.intent),
        StateView::Executing { intent } => Some(intent),
        _ => None,
    }
}

fn is_confirm_word_exec(t: &[char]) -> (r: bool)
    ensures
        r == is_confirm_word(t@),
{
    equals_str(t, "确认") || equals_str(t, "确认执行") || equals_str(t, "执行") || equals_str(t, "是")
        || equals_str(t, "好的")
}

fn is_decline_word_exec(t: &[char]) -> (r: bool)
    ensures
        r == is_decline_word(t@),
{
    equals_str(t, "取消") || equals_str(t, "算了") || equals_str(t, "不")
}

impl ConversationManager {
    /// A conversation in the Idle state with no operations.
    pub fn new() -> (r: ConversationManager)
        ensures
            r@.state == StateView::Idle,
            r@.operations == Seq::<RecordView>::empty(),
    {
        let r = ConversationManager { state: ConversationState::Idle, operation_history: Vec::new() };
        assert(r@.operations =~= Seq::<RecordView>::empty());
        r
    }

    fn take_state(&mut self) -> (r: ConversationState)
        ensures
            r == old(self).state,
            final(self).state == ConversationState::Idle,
            final(self).operation_history == old(self).operation_history,
    {
        let mut st = ConversationState::Idle;
        std::mem::swap(&mut st, &mut self.state);
        st
    }

    /// Handles input with the local rules (no remote parse).
    pub fn process_input(&mut self, input: &str)
        requires
            parse_accepts(trim(input@)),
        ensures
            final(self)@ == after_input(old(self)@, input@),
    {
        let cs = chars_of(input);
        let tc = trim_chars(&cs);
        if tc.len() == 0 {
            return;
        }
        let ts = string_of(&tc);
        let t = ts.as_str();
        proof {
            crate::laws::lemma_trim_idempotent(input@);
        }
        let st = self.take_state();
        match st {
            ConversationState::Idle => {
                self.state = after_new_input_exec(ConversationState::Idle, t);
            },
            ConversationState::Asking { partial, prompt, history } => {
                let ghost old_st = ConversationState::Asking { partial, prompt, history };
                let keep = ConversationState::Asking {
                    partial: partial.duplicate(),
                    prompt: prompt.clone(),
                    history: copy_messages(&history),
                };
                assert(keep@ == old_st@);
                self.state = after_answer_exec(keep, t, partial, history);
            },
            ConversationState::Confirming { result, history } => {
                if is_confirm_word_exec(&tc) {
                    self.state = ConversationState::Confirming { result, history };
                    self.execute_current();
                } else if is_decline_word_exec(&tc) {
                    self.state = ConversationState::Idle;
                } else {
                    self.state = after_new_input_exec(
                        ConversationState::Confirming { result, history },
                        t,
                    );
                }
            },
            ConversationState::Done { summary, success } => {
                self.state = after_new_input_exec(ConversationState::Done { summary, success }, t);
            },
            ConversationState::Error { message } => {
                self.state = after_new_input_exec(ConversationState::Error { message }, t);
            },
            other => {
                self.state = other;
            },
        }
    }

    /// Prepares a remote parse of `input`: returns whether one should be
    /// sent, after moving to Parsing with the user's message.
    pub fn start_parsing(&mut self, input: &str) -> (r: bool)
        ensures
            (final(self)@, r) == after_start(old(self)@, input@),
    {
        let cs = chars_of(input);
        let tc = trim_chars(&cs);
        if tc.len() == 0 {
            return false;
        }
        let st = self.take_state();
        match st {
            ConversationState::Idle | ConversationState::Done { .. } | ConversationState::Error {
                ..
            } => {
                let mut h: Vec<ChatMessage> = Vec::new();
                push_message(&mut h, user_message(&tc));
                assert(messages_view(h@) =~= seq![user_msg(tc@)]);
                self.state = ConversationState::Parsing { history: h };
                true
            },
            ConversationState::Asking { partial, prompt, history } => {
                let mut h = history;
                push_message(&mut h, user_message(&tc));
                self.state = ConversationState::Parsing { history: h };
                true
            },
            ConversationState::Confirming { result, history } => {
                if is_confirm_word_exec(&tc) {
                    self.state = ConversationState::Confirming { result, history };
                    self.execute_current();
                    false
                } else if is_decline_word_exec(&tc) {
                    self.state = ConversationState::Idle;
                    false
                } else {
                    let mut h: Vec<ChatMessage> = Vec::new();
                    push_message(&mut h, user_message(&tc));
                    assert(messages_view(h@) =~= seq![user_msg(tc@)]);
                    self.state = ConversationState::Parsing { history: h };
                    true
                }
            },
            other => {
                self.state = other;
                false
            },
        }
    }

    /// Applies the answer of a remote parse of `user_input`; on an error the
    /// local rules are tried on the same input.
    pub fn apply_llm_result(&mut self, user_input: &str, result: Result<IntentResult, IntentError>)
        requires
            result is Err ==> parse_accepts(user_input@),
        ensures
            final(self)@.operations == old(self)@.operations,
            final(self)@.state == after_llm(
                old(self)@.state,
                user_input@,
                match result {
                    Ok(r) => Ok(r@),
                    Err(e) => Err(error_text(e)),
                },
            ),
    {
        let st = self.take_state();
        let history = match st {
            ConversationState::Parsing { history } => history,
            _ => Vec::new(),
        };
        assert(messages_view(Seq::<ChatMessage>::empty()) =~= Seq::<MessageView>::empty());
        match result {
            Ok(r) => {
                self.state = apply_intent_result(r, history);
            },
            Err(e) => {
                let mut h = history;
                let mut msg = chars_of("⚠️ AI 解析失败，原因: ");
                let et = e.message();
                append_str(&mut msg, et.as_str());
                push_message(&mut h, system_message(&msg));
                match parse_intent(user_input) {
                    Some(local) => {
                        let note = chars_of("已切换到本地模式解析。");
                        push_message(&mut h, system_message(&note));
                        self.state = apply_intent_result(local, h);
                    },
                    None => {
                        self.state = ConversationState::Error { message: string_of(&msg) };
                    },
                }
            },
        }
    }

    /// Starts executing the confirmed intent and records it; nothing
    /// happens outside the Confirming state.
    pub fn execute_current(&mut self)
        ensures
            final(self)@ == after_execute(old(self)@),
    {
        let st = self.take_state();
        match st {
            ConversationState::Confirming { result, history } => {
                let desc = result.intent.describe();
                let rec = OperationRecord {
                    description: desc,
                    intent: result.intent.duplicate(),
                    timestamp: now_timestamp(),
                    undoable: true,
                };
                let ghost ops0 = self.operation_history@;
                self.operation_history.push(rec);
                assert(self.operation_history@.map_values(|r: OperationRecord| r@) =~= ops0.map_values(
                    |r: OperationRecord| r@,
                ).push(rec@));
                self.state = ConversationState::Executing { intent: result.intent };
            },
            other => {
                self.state = other;
            },
        }
    }

    /// Finishes the operation: Done with `summary` (and `detail` on a
    /// second line, when given).
    pub fn apply_execution_result(&mut self, success: bool, summary: String, detail: Option<String>)
        ensures
            final(self)@.operations == old(self)@.operations,
            final(self)@.state == (StateView::Done {
                summary: summary_text(summary@, detail.deep_view()),
                success,
            }),
    {
        let msg = match detail {
            Some(d) => {
                let v = two_lines(summary.as_str(), d.as_str());
                string_of(&v)
            },
            None => summary,
        };
        self.state = ConversationState::Done { summary: msg, success };
    }

    /// Confirms the pending intent (see `execute_current`).
    pub fn confirm(&mut self)
        ensures
            final(self)@ == after_execute(old(self)@),
    {
        self.execute_current();
    }

    /// Drops the pending operation and returns to Idle.
    pub fn cancel(&mut self)
        ensures
            final(self)@ == (ManagerView { state: StateView::Idle, ..old(self)@ }),
    {
        self.state = ConversationState::Idle;
    }

    /// Returns to Idle.
    pub fn reset(&mut self)
        ensures
            final(self)@ == (ManagerView { state: StateView::Idle, ..old(self)@ }),
    {
        self.state = ConversationState::Idle;
    }

    /// The messages of the current exchange.
    pub fn history(&self) -> (r: &[ChatMessage])
        ensures
            messages_view(r@) == history_of(self@.state),
    {
        match &self.state {
            ConversationState::Confirming { history, .. } => history.as_slice(),
            ConversationState::Asking { history, .. } => history.as_slice(),
            ConversationState::Parsing { history } => history.as_slice(),
            _ => {
                assert(messages_view(Seq::<ChatMessage>::empty()) =~= Seq::<MessageView>::empty());
                &[]
            },
        }
    }

    /// The intent the conversation holds, if any.
    pub fn current_intent(&self) -> (r: Option<&ParsedIntent>)
        ensures
            match r {
                Some(i) => intent_of(self@.state) == Some(i@),
                None => intent_of(self@.state) is None,
            },
    {
        match &self.state {
            ConversationState::Confirming { result, .. } => Some(&result.intent),
            ConversationState::Asking { partial, .. } => Some(&partial.intent),
            ConversationState::Executing { intent } => Some(intent),
            _ => None,
        }
    }

    /// Whether the conversation is anywhere but Idle.
    pub fn is_active(&self) -> (r: bool)
        ensures
            r == !(self@.state is Idle),
    {
        match self.state {
            ConversationState::Idle => false,
            _ => true,
        }
    }

    /// Whether a remote parse is under way.
    pub fn is_parsing(&self) -> (r: bool)
        ensures
            r == (self@.state is Parsing),
    {
        match self.state {
            ConversationState::Parsing { .. } => true,
            _ => false,
        }
    }
}

} // verus!
