//! Intents: what a user's sentence asks the console to do.
//!
//! The local rule parser (`parse_intent`) reads Chinese sentences such as
//! "把张三从市场部调到产品部" and returns a structured intent with the
//! fields it found, the fields still missing, a confidence (in hundredths)
//! and a hint line. The helpers at the end frame the request to and the
//! reply from a chat-completion service whose answer is the same intent
//! written as JSON.
use vstd::prelude::*;
use crate::text::{append_str, owned, string_of};

verus! {

broadcast use vstd::string::group_string_axioms;

/// Which records a search looks at.
#[derive(Clone, Copy, Debug, PartialEq, Eq, Structural)]
pub enum SearchScope {
    Employee,
    Department,
    All,
}

/// A parsed intent.
#[derive(Clone, Debug, PartialEq)]
pub enum ParsedIntent {
    /// Move an employee to another department.
    Transfer {
        employee_name: Option<String>,
        from_department: Option<String>,
        to_department: Option<String>,
    },
    /// Create a department.
    CreateDepartment { department_name: Option<String>, parent_department: Option<String> },
    /// Search employees and/or departments.
    Search { keyword: String, scope: SearchScope },
    /// Cancel the current operation.
    Cancel,
    /// Input that was not understood.
    Unknown { message: String },
}

/// The mathematical value of a `ParsedIntent`.
pub enum IntentView {
    Transfer {
        employee_name: Option<Seq<char>>,
        from_department: Option<Seq<char>>,
        to_department: Option<Seq<char>>,
    },
    CreateDepartment { department_name: Option<Seq<char>>, parent_department: Option<Seq<char>> },
    Search { keyword: Seq<char>, scope: SearchScope },
    Cancel,
    Unknown { message: Seq<char> },
}

impl View for ParsedIntent {
    type V = IntentView;

    open spec fn view(&self) -> IntentView {
        match self {
            ParsedIntent::Transfer { employee_name, from_department, to_department } =>
                IntentView::Transfer {
                    employee_name: employee_name.deep_view(),
                    from_department: from_department.deep_view(),
                    to_department: to_department.deep_view(),
                },
            ParsedIntent::CreateDepartment { department_name, parent_department } =>
                IntentView::CreateDepartment {
                    department_name: department_name.deep_view(),
                    parent_department: parent_department.deep_view(),
                },
            ParsedIntent::Search { keyword, scope } => IntentView::Search {
                keyword: keyword@,
                scope: *scope,
            },
            ParsedIntent::Cancel => IntentView::Cancel,
            ParsedIntent::Unknown { message } => IntentView::Unknown { message: message@ },
        }
    }
}

/// The outcome of parsing one sentence.
#[derive(Clone, Debug, PartialEq)]
pub struct IntentResult {
    /// The intent found.
    pub intent: ParsedIntent,
    /// Confidence in hundredths (95 stands for 0.95).
    pub confidence: u32,
    /// A line to show the user.
    pub hint: String,
    /// Names of the fields the intent still lacks.
    pub missing_fields: Vec<String>,
}

/// The mathematical value of an `IntentResult`.
pub struct IntentResultView {
    pub intent: IntentView,
    pub confidence: nat,
    pub hint: Seq<char>,
    pub missing_fields: Seq<Seq<char>>,
}

impl View for IntentResult {
    type V = IntentResultView;

    open spec fn view(&self) -> IntentResultView {
        IntentResultView {
            intent: self.intent@,
            confidence: self.confidence as nat,
            hint: self.hint@,
            missing_fields: self.missing_fields.deep_view(),
        }
    }
}

// ------------------------------------------------------------------
// Specifications of the intent queries
// ------------------------------------------------------------------

/// The display name of an intent's kind.
pub open spec fn kind_name(i: IntentView) -> Seq<char> {
    match i {
        IntentView::Transfer { .. } => "员工调岗"@,
        IntentView::CreateDepartment { .. } => "新建部门"@,
        IntentView::Search { .. } => "搜索"@,
        IntentView::Cancel => "取消操作"@,
        IntentView::Unknown { .. } => "未识别"@,
    }
}

/// The icon of an intent's kind.
pub open spec fn icon_of(i: IntentView) -> Seq<char> {
    match i {
        IntentView::Transfer { .. } => "🔄"@,
        IntentView::CreateDepartment { .. } => "📂"@,
        IntentView::Search { .. } => "🔍"@,
        IntentView::Cancel => "❌"@,
        IntentView::Unknown { .. } => "❓"@,
    }
}

/// The required fields an intent lacks: a transfer needs the employee and
/// the target department, a new department needs its name.
pub open spec fn missing_of(i: IntentView) -> Seq<Seq<char>> {
    match i {
        IntentView::Transfer { employee_name, to_department, .. } => (if employee_name is None {
            seq!["员工姓名"@]
        } else {
            Seq::empty()
        }) + (if to_department is None {
            seq!["目标部门"@]
        } else {
            Seq::empty()
        }),
        IntentView::CreateDepartment { department_name, .. } => if department_name is None {
            seq!["部门名称"@]
        } else {
            Seq::empty()
        },
        _ => Seq::empty(),
    }
}

/// The follow-up question for an incomplete intent.
pub open spec fn ask_of(i: IntentView) -> Option<Seq<char>> {
    match i {
        IntentView::Transfer { employee_name, to_department, .. } => if employee_name is None
            && to_department is None {
            Some("请告诉我要调动哪位员工，调到哪个部门？"@)
        } else if employee_name is None {
            Some("请告诉我要调动哪位员工？"@)
        } else if to_department is None {
            Some("请告诉我要调到哪个部门？"@)
        } else {
            None
        },
        IntentView::CreateDepartment { department_name, .. } => if department_name is None {
            Some("请指定新部门的名称。"@)
        } else {
            None
        },
        _ => None,
    }
}

/// `o`'s text, or `default` when there is none.
pub open spec fn or_text(o: Option<Seq<char>>, default: Seq<char>) -> Seq<char> {
    match o {
        Some(s) => s,
        None => default,
    }
}

/// The word that names a search scope in a sentence.
pub open spec fn scope_text(scope: SearchScope) -> Seq<char> {
    match scope {
        SearchScope::Employee => "员工"@,
        SearchScope::Department => "部门"@,
        SearchScope::All => ""@,
    }
}

/// The sentence that describes an intent.
pub open spec fn describe_of(i: IntentView) -> Seq<char> {
    match i {
        IntentView::Transfer { employee_name, from_department, to_department } => "将 "@ + or_text(
            employee_name,
            "?"@,
        ) + " 从 "@ + or_text(from_department, "当前部门"@) + " 调到 "@ + or_text(
            to_department,
            "?"@,
        ),
        IntentView::CreateDepartment { department_name, parent_department } =>
            match parent_department {
            Some(parent) => "在 "@ + parent + " 下新建部门 "@ + or_text(department_name, "?"@),
            None => "新建部门 "@ + or_text(department_name, "?"@),
        },
        IntentView::Search { keyword, scope } => "搜索"@ + scope_text(scope) + "："@ + keyword,
        IntentView::Cancel => "取消当前操作"@,
        IntentView::Unknown { message } => "未识别："@ + message,
    }
}

/// The hint line for an intent.
pub open spec fn hint_for(i: IntentView) -> Seq<char> {
    "🧠 识别意图: "@ + kind_name(i)
}

/// The result for intent `i`, with confidence `full` when nothing is
/// missing and `partial` otherwise.
pub open spec fn result_of(i: IntentView, full: nat, partial: nat) -> IntentResultView {
    IntentResultView {
        intent: i,
        confidence: if missing_of(i).len() == 0 {
            full
        } else {
            partial
        },
        hint: hint_for(i),
        missing_fields: missing_of(i),
    }
}

// ------------------------------------------------------------------
// Queries on intents
// ------------------------------------------------------------------

/// An owned copy of an optional string.
pub fn copy_opt(o: &Option<String>) -> (r: Option<String>)
    ensures
        r.deep_view() == o.deep_view(),
{
    match o {
        Some(s) => Some(s.clone()),
        None => None,
    }
}

/// An owned copy of a list of strings.
pub fn copy_strings(v: &Vec<String>) -> (r: Vec<String>)
    ensures
        r.deep_view() == v.deep_view(),
{
    let mut r: Vec<String> = Vec::new();
    let mut i: usize = 0;
    while i < v.len()
        invariant
            i <= v.len(),
            r.deep_view() == v.deep_view().take(i as int),
        decreases v.len() - i,
    {
        r.push(v[i].clone());
        assert(v.deep_view().take(i + 1) =~= v.deep_view().take(i as int).push(v[i as int]@));
        assert(r.deep_view() =~= v.deep_view().take(i + 1));
        i = i + 1;
    }
    assert(v.deep_view().take(v.len() as int) =~= v.deep_view());
    r
}

impl IntentResult {
    /// An owned copy with the same value.
    pub fn duplicate(&self) -> (r: IntentResult)
        ensures
            r@ == self@,
    {
        IntentResult {
            intent: self.intent.duplicate(),
            confidence: self.confidence,
            hint: self.hint.clone(),
            missing_fields: copy_strings(&self.missing_fields),
        }
    }
}

impl ParsedIntent {
    /// An owned copy with the same value.
    pub fn duplicate(&self) -> (r: ParsedIntent)
        ensures
            r@ == self@,
    {
        match self {
            ParsedIntent::Transfer { employee_name, from_department, to_department } =>
                ParsedIntent::Transfer {
                employee_name: copy_opt(employee_name),
                from_department: copy_opt(from_department),
                to_department: copy_opt(to_department),
            },
            ParsedIntent::CreateDepartment { department_name, parent_department } =>
                ParsedIntent::CreateDepartment {
                department_name: copy_opt(department_name),
                parent_department: copy_opt(parent_department),
            },
            ParsedIntent::Search { keyword, scope } => ParsedIntent::Search {
                keyword: keyword.clone(),
                scope: *scope,
            },
            ParsedIntent::Cancel => ParsedIntent::Cancel,
            ParsedIntent::Unknown { message } => ParsedIntent::Unknown { message: message.clone() },
        }
    }

    /// The display name of this intent's kind.
    pub fn intent_type_name(&self) -> (r: &'static str)
        ensures
            r@ == kind_name(self@),
    {
        match self {
            ParsedIntent::Transfer { .. } => "员工调岗",
            ParsedIntent::CreateDepartment { .. } => "新建部门",
            ParsedIntent::Search { .. } => "搜索",
            ParsedIntent::Cancel => "取消操作",
            ParsedIntent::Unknown { .. } => "未识别",
        }
    }

    /// The icon of this intent's kind.
    pub fn icon(&self) -> (r: &'static str)
        ensures
            r@ == icon_of(self@),
    {
        match self {
            ParsedIntent::Transfer { .. } => "🔄",
            ParsedIntent::CreateDepartment { .. } => "📂",
            ParsedIntent::Search { .. } => "🔍",
            ParsedIntent::Cancel => "❌",
            ParsedIntent::Unknown { .. } => "❓",
        }
    }

    /// Whether no required field is missing.
    pub fn is_complete(&self) -> (r: bool)
        ensures
            r == (missing_of(self@).len() == 0),
    {
        self.missing_fields().len() == 0
    }

    /// The names of the required fields this intent lacks.
    pub fn missing_fields(&self) -> (r: Vec<String>)
        ensures
            r.deep_view() == missing_of(self@),
    {
        let mut m: Vec<String> = Vec::new();
        match self {
            ParsedIntent::Transfer { employee_name, to_department, .. } => {
                if employee_name.is_none() {
                    m.push(owned("员工姓名"));
                }
                let ghost m1 = m.deep_view();
                if to_department.is_none() {
                    m.push(owned("目标部门"));
                }
                assert(m.deep_view() =~= missing_of(self@));
            },
            ParsedIntent::CreateDepartment { department_name, .. } => {
                if department_name.is_none() {
                    m.push(owned("部门名称"));
                }
                assert(m.deep_view() =~= missing_of(self@));
            },
            _ => {
                assert(m.deep_view() =~= missing_of(self@));
            },
        }
        m
    }

    /// The follow-up question for the missing fields, if any are missing.
    pub fn ask_for_missing(&self) -> (r: Option<String>)
        ensures
            r.deep_view() == ask_of(self@),
    {
        match self {
            ParsedIntent::Transfer { employee_name, to_department, .. } => {
                if employee_name.is_none() && to_department.is_none() {
                    Some(owned("请告诉我要调动哪位员工，调到哪个部门？"))
                } else if employee_name.is_none() {
                    Some(owned("请告诉我要调动哪位员工？"))
                } else if to_department.is_none() {
                    Some(owned("请告诉我要调到哪个部门？"))
                } else {
                    None
                }
            },
            ParsedIntent::CreateDepartment { department_name, .. } => {
                if department_name.is_none() {
                    Some(owned("请指定新部门的名称。"))
                } else {
                    None
                }
            },
            _ => None,
        }
    }

    /// The sentence that describes this intent.
    pub fn describe(&self) -> (r: String)
        ensures
            r@ == describe_of(self@),
    {
        let mut v: Vec<char> = Vec::new();
        match self {
            ParsedIntent::Transfer { employee_name, from_department, to_department } => {
                append_str(&mut v, "将 ");
                append_opt(&mut v, employee_name, "?");
                append_str(&mut v, " 从 ");
                append_opt(&mut v, from_department, "当前部门");
                append_str(&mut v, " 调到 ");
                append_opt(&mut v, to_department, "?");
            },
            ParsedIntent::CreateDepartment { department_name, parent_department } => {
                match parent_department {
                    Some(parent) => {
                        append_str(&mut v, "在 ");
                        append_str(&mut v, parent.as_str());
                        append_str(&mut v, " 下新建部门 ");
                    },
                    None => {
                        append_str(&mut v, "新建部门 ");
                    },
                }
                append_opt(&mut v, department_name, "?");
            },
            ParsedIntent::Search { keyword, scope } => {
                append_str(&mut v, "搜索");
                append_str(&mut v, search_scope_text(*scope));
                append_str(&mut v, "：");
                append_str(&mut v, keyword.as_str());
            },
            ParsedIntent::Cancel => {
                append_str(&mut v, "取消当前操作");
            },
            ParsedIntent::Unknown { message } => {
                append_str(&mut v, "未识别：");
                append_str(&mut v, message.as_str());
            },
        }
        proof {
            assert(v@ =~= describe_of(self@));
        }
        string_of(&v)
    }
}

/// The word that names a search scope in a sentence.
pub fn search_scope_text(scope: SearchScope) -> (r: &'static str)
    ensures
        r@ == scope_text(scope),
{
    match scope {
        SearchScope::Employee => "员工",
        SearchScope::Department => "部门",
        SearchScope::All => "",
    }
}

/// Appends `o`'s text, or `default` when there is none.
pub fn append_opt(v: &mut Vec<char>, o: &Option<String>, default: &str)
    ensures
        final(v)@ == old(v)@ + or_text(o.deep_view(), default@),
{
    match o {
        Some(s) => append_str(v, s.as_str()),
        None => append_str(v, default),
    }
}

} // verus!
