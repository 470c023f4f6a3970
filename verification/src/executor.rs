//! Carrying out a confirmed intent against the team service.
//!
//! The work alternates requests to the service and decisions on their
//! answers, so it is a state machine: `start` gives the first state and
//! the first action, and `step` takes the answer to the last action and
//! gives the next state and action, until an action is `Finish` with the
//! result. Sending the requests is left to the caller.
use vstd::prelude::*;
use crate::intent::{IntentView, ParsedIntent, scope_text, search_scope_text};
use crate::num::{decimal_i64, signed_decimal};
use crate::services::client::{ApiError, api_error_text};
use crate::services::department::{CreateDepartmentRequest, DepartmentResponse, ListDepartmentsQuery};
use crate::services::employee::{AddEmployeeToDepartmentRequest, EmployeeResponse, ListEmployeesQuery};
use crate::text::{append_chars, append_str, chars_of, equals_str, owned, string_of};

verus! {

broadcast use vstd::string::group_string_axioms;

/// The outcome of an execution.
#[derive(Clone, Debug)]
pub struct ExecutionResult {
    pub success: bool,
    pub summary: String,
    pub detail: Option<String>,
}

/// What the caller is asked to do next.
#[derive(Debug)]
pub enum ExecAction {
    /// List departments.
    ListDepartments(ListDepartmentsQuery),
    /// List employees.
    ListEmployees(ListEmployeesQuery),
    /// Create a department.
    CreateDepartment(CreateDepartmentRequest),
    /// Remove an employee from a department.
    RemoveEmployeeFromDepartment { employee_id: i64, department_id: i64 },
    /// Add an employee to a department.
    AddEmployeeToDepartment { employee_id: i64, request: AddEmployeeToDepartmentRequest },
    /// Stop: the execution's result.
    Finish(ExecutionResult),
}

/// The answer to the last action.
#[derive(Debug)]
pub enum ExecEvent {
    /// The departments listed, or the error.
    Departments(Result<Vec<DepartmentResponse>, ApiError>),
    /// The employees listed, or the error.
    Employees(Result<Vec<EmployeeResponse>, ApiError>),
    /// The new department's identifier, or the error.
    Created(Result<i64, ApiError>),
    /// The removal was answered (its outcome does not matter).
    Removed,
    /// The membership's identifier, or the error.
    Added(Result<i64, ApiError>),
}

/// A transfer being carried out.
#[derive(Clone, Debug)]
pub struct TransferJob {
    pub employee_name: String,
    pub from_department: Option<String>,
    pub to_department: String,
    pub org_id: i64,
}

/// Where an execution stands.
#[derive(Debug)]
pub enum ExecState {
    /// Waiting for the departments named like the parent.
    AwaitParent { name: String, parent: String, org_id: i64, code: String },
    /// Waiting for the department to be created.
    AwaitCreated { name: String, parent: Option<String>, code: String },
    /// Waiting for the employees named like the one to move.
    AwaitEmployee { job: TransferJob },
    /// Waiting for the departments named like the target.
    AwaitTarget {
        job: TransferJob,
        employee_id: i64,
        primary_id: Option<i64>,
        primary_name: Option<String>,
    },
    /// Waiting for the departments named like the source.
    AwaitSource { job: TransferJob, employee_id: i64, primary_name: Option<String>, to_id: i64 },
    /// Waiting for the removal from the old department.
    AwaitRemoval { job: TransferJob, employee_id: i64, primary_name: Option<String>, to_id: i64 },
    /// Waiting for the addition to the target department.
    AwaitAdded { job: TransferJob, employee_id: i64, primary_name: Option<String>, to_id: i64 },
    /// Done.
    Finished,
}

// ------------------------------------------------------------------
// Specification
// ------------------------------------------------------------------

/// `a` finishes with this result.
pub open spec fn finishes(a: ExecAction, success: bool, summary: Seq<char>, detail: Option<Seq<char>>) -> bool {
    a matches ExecAction::Finish(r) && r.success == success && r.summary@ == summary
        && r.detail.deep_view() == detail
}

/// The lower-case hexadecimal digit for `d` (0 to 15).
pub open spec fn lower_hex_digit(d: nat) -> char {
    if d < 10 {
        crate::num::digit_char(d)
    } else if d == 10 {
        'a'
    } else if d == 11 {
        'b'
    } else if d == 12 {
        'c'
    } else if d == 13 {
        'd'
    } else if d == 14 {
        'e'
    } else {
        'f'
    }
}

/// The lower-case hexadecimal text of `n`.
pub open spec fn lower_hex(n: nat) -> Seq<char>
    decreases n,
{
    if n < 16 {
        seq![lower_hex_digit(n)]
    } else {
        lower_hex(n / 16).push(lower_hex_digit(n % 16))
    }
}

/// The code of a new department made at `millis` milliseconds after the
/// Unix epoch: "DEPT-" and the time in lower-case hexadecimal.
pub open spec fn dept_code(millis: nat) -> Seq<char> {
    "DEPT-"@ + lower_hex(millis)
}

/// The query that looks a department up by name.
pub open spec fn is_department_lookup(q: ListDepartmentsQuery, name: Seq<char>, org_id: i64) -> bool {
    &&& q.org_id == Some(org_id)
    &&& q.parent_id is None
    &&& q.keyword.deep_view() == Some(name)
    &&& q.status is None
    &&& q.page_size == Some(10u32)
    &&& q.cursor is None
}

/// The query that looks an employee up by name.
pub open spec fn is_employee_lookup(q: ListEmployeesQuery, name: Seq<char>, org_id: i64) -> bool {
    &&& q.org_id == Some(org_id)
    &&& q.department_id is None
    &&& q.include_children is None
    &&& q.position_id is None
    &&& q.status is None
    &&& q.keyword.deep_view() == Some(name)
    &&& q.page_size == Some(10u32)
    &&& q.cursor is None
}

/// The first department at or after `i` named `name`.
pub open spec fn dept_named(list: Seq<DepartmentResponse>, name: Seq<char>, i: int) -> Option<int>
    decreases list.len() - i,
{
    if i < 0 || i >= list.len() {
        None
    } else if list[i].name@ == name {
        Some(i)
    } else {
        dept_named(list, name, i + 1)
    }
}

/// The first employee at or after `i` named `name`.
pub open spec fn employee_named(list: Seq<EmployeeResponse>, name: Seq<char>, i: int) -> Option<int>
    decreases list.len() - i,
{
    if i < 0 || i >= list.len() {
        None
    } else if list[i].name@ == name {
        Some(i)
    } else {
        employee_named(list, name, i + 1)
    }
}

/// A text that is present and not empty.
pub open spec fn given(o: Option<Seq<char>>) -> bool {
    o matches Some(s) && s.len() > 0
}

/// The request to add an employee to a department as its primary one.
pub open spec fn is_primary_membership(r: AddEmployeeToDepartmentRequest, department_id: i64) -> bool {
    r.department_id == department_id && r.is_primary == Some(true) && r.is_leader is None
}

/// The event that answers the action a state waits for.
pub open spec fn event_fits(s: ExecState, e: ExecEvent) -> bool {
    match s {
        ExecState::AwaitParent { .. } => e is Departments,
        ExecState::AwaitCreated { .. } => e is Created,
        ExecState::AwaitEmployee { .. } => e is Employees,
        ExecState::AwaitTarget { .. } => e is Departments,
        ExecState::AwaitSource { .. } => e is Departments,
        ExecState::AwaitRemoval { .. } => e is Removed,
        ExecState::AwaitAdded { .. } => e is Added,
        ExecState::Finished => false,
    }
}

/// The name shown for where an employee came from: the source named in the
/// intent, else the employee's primary department, else "原部门".
pub open spec fn from_text(from: Option<Seq<char>>, primary: Option<Seq<char>>) -> Seq<char> {
    match from {
        Some(f) => f,
        None => match primary {
            Some(p) => p,
            None => "原部门"@,
        },
    }
}

/// The request that creates department `name` with code `code`.
pub open spec fn is_create_request(
    r: CreateDepartmentRequest,
    org_id: i64,
    parent_id: Option<i64>,
    code: Seq<char>,
    name: Seq<char>,
) -> bool {
    &&& r.org_id == org_id
    &&& r.parent_id == parent_id
    &&& r.code@ == code
    &&& r.name@ == name
    &&& r.leader_employee_id is None
    &&& r.sort_order is None
}

/// The transfer of the employee named `employee` from `from` (when named)
/// to `to`, in organisation `org_id`.
pub open spec fn is_job(
    job: TransferJob,
    employee: Seq<char>,
    from: Option<Seq<char>>,
    to: Seq<char>,
    org_id: i64,
) -> bool {
    &&& job.employee_name@ == employee
    &&& job.from_department.deep_view() == from
    &&& job.to_department@ == to
    &&& job.org_id == org_id
}

/// Two jobs that are the same transfer.
pub open spec fn same_job(a: TransferJob, b: TransferJob) -> bool {
    is_job(b, a.employee_name@, a.from_department.deep_view(), a.to_department@, a.org_id)
}

/// The state that waits for the membership in the target department, and
/// the action that asks for it.
pub open spec fn adds(
    s: ExecState,
    a: ExecAction,
    job: TransferJob,
    employee_id: i64,
    primary_name: Option<Seq<char>>,
    to_id: i64,
) -> bool {
    &&& s matches ExecState::AwaitAdded { job: j, employee_id: e, primary_name: p, to_id: t }
        && same_job(job, j) && e == employee_id && p.deep_view() == primary_name && t == to_id
    &&& a matches ExecAction::AddEmployeeToDepartment { employee_id: e, request }
        && e == employee_id && is_primary_membership(request, to_id)
}

/// The state that waits for the removal from department `dept_id`, and the
/// action that asks for it.
pub open spec fn removes(
    s: ExecState,
    a: ExecAction,
    job: TransferJob,
    employee_id: i64,
    primary_name: Option<Seq<char>>,
    to_id: i64,
    dept_id: i64,
) -> bool {
    &&& s matches ExecState::AwaitRemoval { job: j, employee_id: e, primary_name: p, to_id: t }
        && same_job(job, j) && e == employee_id && p.deep_view() == primary_name && t == to_id
    &&& a matches ExecAction::RemoveEmployeeFromDepartment { employee_id: e, department_id: d }
        && e == employee_id && d == dept_id
}

/// What `start` does with intent `i` in organisation `org_id`, a new
/// department's code being made at `millis`.
pub open spec fn started(i: IntentView, org_id: i64, millis: nat, s: ExecState, a: ExecAction) -> bool {
    match i {
        IntentView::Search { keyword, scope } => s is Finished && finishes(
            a,
            true,
            "搜索"@ + scope_text(scope) + "："@ + keyword,
            None,
        ),
        IntentView::Cancel => s is Finished && finishes(a, true, "已取消"@, None),
        IntentView::Unknown { message } => s is Finished && finishes(
            a,
            false,
            "无法执行："@ + message,
            None,
        ),
        IntentView::CreateDepartment { department_name, parent_department } => if !given(
            department_name,
        ) {
            s is Finished && finishes(a, false, "缺少部门名称"@, None)
        } else {
            let name = department_name->0;
            match parent_department {
                Some(p) => {
                    &&& s matches ExecState::AwaitParent { name: n, parent, org_id: o, code }
                        && n@ == name && parent@ == p && o == org_id && code@ == dept_code(millis)
                    &&& a matches ExecAction::ListDepartments(q) && is_department_lookup(q, p, org_id)
                },
                None => {
                    &&& s matches ExecState::AwaitCreated { name: n, parent, code } && n@ == name
                        && parent is None && code@ == dept_code(millis)
                    &&& a matches ExecAction::CreateDepartment(r) && is_create_request(
                        r,
                        org_id,
                        None,
                        dept_code(millis),
                        name,
                    )
                },
            }
        },
        IntentView::Transfer { employee_name, from_department, to_department } => if !given(
            employee_name,
        ) {
            s is Finished && finishes(a, false, "缺少员工姓名"@, None)
        } else if !given(to_department) {
            s is Finished && finishes(a, false, "缺少目标部门名称"@, None)
        } else {
            &&& s matches ExecState::AwaitEmployee { job } && is_job(
                job,
                employee_name->0,
                from_department,
                to_department->0,
                org_id,
            )
            &&& a matches ExecAction::ListEmployees(q) && is_employee_lookup(
                q,
                employee_name->0,
                org_id,
            )
        },
    }
}

/// The " (parent: p)" part of the message for a new department.
pub open spec fn parent_info(parent: Option<Seq<char>>) -> Seq<char> {
    match parent {
        Some(p) => "（上级: "@ + p + "）"@,
        None => Seq::empty(),
    }
}

/// What `step` does in state `s` with the answer `e`.
pub open spec fn stepped(s: ExecState, e: ExecEvent, s2: ExecState, a: ExecAction) -> bool {
    match s {
        ExecState::AwaitParent { name, parent, org_id, code } => match e {
            ExecEvent::Departments(Err(err)) => s2 is Finished && finishes(
                a,
                false,
                "查询上级部门失败: "@ + api_error_text(err),
                None,
            ),
            ExecEvent::Departments(Ok(list)) => match dept_named(list@, parent@, 0) {
                None => s2 is Finished && finishes(
                    a,
                    false,
                    "找不到上级部门「"@ + parent@ + "」"@,
                    Some("请确认部门名称是否正确"@),
                ),
                Some(j) => {
                    &&& s2 matches ExecState::AwaitCreated { name: n, parent: p, code: c } && n@
                        == name@ && p.deep_view() == Some(parent@) && c@ == code@
                    &&& a matches ExecAction::CreateDepartment(r) && is_create_request(
                        r,
                        org_id,
                        Some(list@[j].id),
                        code@,
                        name@,
                    )
                },
            },
            _ => false,
        },
        ExecState::AwaitCreated { name, parent, code } => match e {
            ExecEvent::Created(Ok(id)) => s2 is Finished && finishes(
                a,
                true,
                "✅ 部门「"@ + name@ + "」创建成功"@ + parent_info(parent.deep_view()),
                Some("部门ID: "@ + signed_decimal(id as int) + ", 编码: "@ + code@),
            ),
            ExecEvent::Created(Err(err)) => s2 is Finished && finishes(
                a,
                false,
                "❌ 创建部门「"@ + name@ + "」失败"@,
                Some("错误: "@ + api_error_text(err)),
            ),
            _ => false,
        },
        ExecState::AwaitEmployee { job } => match e {
            ExecEvent::Employees(Err(err)) => s2 is Finished && finishes(
                a,
                false,
                "查询员工失败: "@ + api_error_text(err),
                None,
            ),
            ExecEvent::Employees(Ok(list)) => match employee_named(list@, job.employee_name@, 0) {
                None => s2 is Finished && finishes(
                    a,
                    false,
                    "找不到员工「"@ + job.employee_name@ + "」"@,
                    Some("请确认员工姓名是否正确"@),
                ),
                Some(j) => {
                    &&& s2 matches ExecState::AwaitTarget {
                        job: j2,
                        employee_id,
                        primary_id,
                        primary_name,
                    } && same_job(job, j2) && employee_id == list@[j].id && primary_id
                        == list@[j].primary_department_id && primary_name.deep_view()
                        == list@[j].primary_department_name.deep_view()
                    &&& a matches ExecAction::ListDepartments(q) && is_department_lookup(
                        q,
                        job.to_department@,
                        job.org_id,
                    )
                },
            },
            _ => false,
        },
        ExecState::AwaitTarget { job, employee_id, primary_id, primary_name } => match e {
            ExecEvent::Departments(Err(err)) => s2 is Finished && finishes(
                a,
                false,
                "查询目标部门失败: "@ + api_error_text(err),
                None,
            ),
            ExecEvent::Departments(Ok(list)) => match dept_named(list@, job.to_department@, 0) {
                None => s2 is Finished && finishes(
                    a,
                    false,
                    "找不到目标部门「"@ + job.to_department@ + "」"@,
                    Some("请确认部门名称是否正确"@),
                ),
                Some(j) => {
                    let to_id = list@[j].id;
                    match job.from_department {
                        Some(f) => {
                            &&& s2 matches ExecState::AwaitSource {
                                job: j2,
                                employee_id: e2,
                                primary_name: p2,
                                to_id: t2,
                            } && same_job(job, j2) && e2 == employee_id && p2.deep_view()
                                == primary_name.deep_view() && t2 == to_id
                            &&& a matches ExecAction::ListDepartments(q) && is_department_lookup(
                                q,
                                f@,
                                job.org_id,
                            )
                        },
                        None => match primary_id {
                            Some(p) => removes(
                                s2,
                                a,
                                job,
                                employee_id,
                                primary_name.deep_view(),
                                to_id,
                                p,
                            ),
                            None => adds(s2, a, job, employee_id, primary_name.deep_view(), to_id),
                        },
                    }
                },
            },
            _ => false,
        },
        ExecState::AwaitSource { job, employee_id, primary_name, to_id } => match e {
            ExecEvent::Departments(r) => {
                let found = match r {
                    Ok(list) => match job.from_department {
                        Some(f) => match dept_named(list@, f@, 0) {
                            Some(j) => Some(list@[j].id),
                            None => None,
                        },
                        None => None,
                    },
                    Err(_) => None,
                };
                match found {
                    Some(d) => removes(s2, a, job, employee_id, primary_name.deep_view(), to_id, d),
                    None => adds(s2, a, job, employee_id, primary_name.deep_view(), to_id),
                }
            },
            _ => false,
        },
        ExecState::AwaitRemoval { job, employee_id, primary_name, to_id } => match e {
            ExecEvent::Removed => adds(s2, a, job, employee_id, primary_name.deep_view(), to_id),
            _ => false,
        },
        ExecState::AwaitAdded { job, employee_id, primary_name, to_id } => match e {
            ExecEvent::Added(Ok(_)) => s2 is Finished && finishes(
                a,
                true,
                "✅ 已将 "@ + job.employee_name@ + " 从「"@ + from_text(
                    job.from_department.deep_view(),
                    primary_name.deep_view(),
                ) + "」调到「"@ + job.to_department@ + "」"@,
                Some(
                    "员工ID: "@ + signed_decimal(employee_id as int) + ", 目标部门ID: "@
                        + signed_decimal(to_id as int),
                ),
            ),
            ExecEvent::Added(Err(err)) => s2 is Finished && finishes(
                a,
                false,
                "❌ 调岗失败："@ + job.employee_name@ + " → "@ + job.to_department@,
                Some("错误: "@ + api_error_text(err)),
            ),
            _ => false,
        },
        ExecState::Finished => false,
    }
}

// ------------------------------------------------------------------
// Implementation
// ------------------------------------------------------------------

fn finish(success: bool, summary: Vec<char>, detail: Option<Vec<char>>) -> (r: (ExecState, ExecAction))
    ensures
        r.0 is Finished,
        finishes(
            r.1,
            success,
            summary@,
            match detail {
                Some(d) => Some(d@),
                None => None,
            },
        ),
{
    let d = match detail {
        Some(v) => Some(string_of(&v)),
        None => None,
    };
    (ExecState::Finished, ExecAction::Finish(ExecutionResult { success, summary: string_of(&summary), detail: d }))
}

fn text3(a: &str, b: &str, c: &str) -> (r: Vec<char>)
    ensures
        r@ == a@ + b@ + c@,
{
    let mut v = chars_of(a);
    append_str(&mut v, b);
    append_str(&mut v, c);
    v
}

fn lower_hex_digit_exec(d: u64) -> (r: char)
    requires
        d < 16,
    ensures
        r == lower_hex_digit(d as nat),
{
    if d < 10 {
        let v = crate::num::decimal_u64(d);
        v[0]
    } else if d == 10 {
        'a'
    } else if d == 11 {
        'b'
    } else if d == 12 {
        'c'
    } else if d == 13 {
        'd'
    } else if d == 14 {
        'e'
    } else {
        'f'
    }
}

fn lower_hex_exec(n: u64) -> (r: Vec<char>)
    ensures
        r@ == lower_hex(n as nat),
    decreases n,
{
    if n < 16 {
        let mut v: Vec<char> = Vec::new();
        v.push(lower_hex_digit_exec(n));
        assert(v@ =~= lower_hex(n as nat));
        v
    } else {
        let mut v = lower_hex_exec(n / 16);
        v.push(lower_hex_digit_exec(n % 16));
        v
    }
}

/// The code of a new department made at `millis` milliseconds after the
/// Unix epoch: "DEPT-" and the time in lower-case hexadecimal.
pub fn generate_dept_code(millis: u64) -> (r: String)
    ensures
        r@ == dept_code(millis as nat),
{
    let mut v = chars_of("DEPT-");
    let h = lower_hex_exec(millis);
    append_chars(&mut v, &h);
    string_of(&v)
}

/// The query that looks a department up by name.
pub fn department_lookup(name: &str, org_id: i64) -> (r: ListDepartmentsQuery)
    ensures
        is_department_lookup(r, name@, org_id),
{
    ListDepartmentsQuery {
        org_id: Some(org_id),
        parent_id: None,
        keyword: Some(owned(name)),
        status: None,
        page_size: Some(10),
        cursor: None,
    }
}

/// The query that looks an employee up by name.
pub fn employee_lookup(name: &str, org_id: i64) -> (r: ListEmployeesQuery)
    ensures
        is_employee_lookup(r, name@, org_id),
{
    ListEmployeesQuery {
        org_id: Some(org_id),
        department_id: None,
        include_children: None,
        position_id: None,
        status: None,
        keyword: Some(owned(name)),
        page_size: Some(10),
        cursor: None,
    }
}

/// The first department in `list` named `name`.
pub fn find_department_by_name(list: &Vec<DepartmentResponse>, name: &str) -> (r: Option<usize>)
    ensures
        match r {
            Some(j) => dept_named(list@, name@, 0) == Some(j as int) && j < list.len(),
            None => dept_named(list@, name@, 0) is None,
        },
{
    let mut i: usize = 0;
    while i < list.len()
        invariant
            i <= list.len(),
            dept_named(list@, name@, 0) == dept_named(list@, name@, i as int),
        decreases list.len() - i,
    {
        let n = chars_of(list[i].name.as_str());
        if equals_str(&n, name) {
            return Some(i);
        }
        i = i + 1;
    }
    None
}

/// The first employee in `list` named `name`.
pub fn find_employee_by_name(list: &Vec<EmployeeResponse>, name: &str) -> (r: Option<usize>)
    ensures
        match r {
            Some(j) => employee_named(list@, name@, 0) == Some(j as int) && j < list.len(),
            None => employee_named(list@, name@, 0) is None,
        },
{
    let mut i: usize = 0;
    while i < list.len()
        invariant
            i <= list.len(),
            employee_named(list@, name@, 0) == employee_named(list@, name@, i as int),
        decreases list.len() - i,
    {
        let n = chars_of(list[i].name.as_str());
        if equals_str(&n, name) {
            return Some(i);
        }
        i = i + 1;
    }
    None
}

fn create_request(org_id: i64, parent_id: Option<i64>, code: &String, name: &String) -> (r: CreateDepartmentRequest)
    ensures
        r.org_id == org_id,
        r.parent_id == parent_id,
        r.code@ == code@,
        r.name@ == name@,
        r.leader_employee_id is None,
        r.sort_order is None,
{
    CreateDepartmentRequest {
        org_id,
        parent_id,
        code: code.clone(),
        name: name.clone(),
        leader_employee_id: None,
        sort_order: None,
    }
}

fn add_action(employee_id: i64, to_id: i64) -> (r: ExecAction)
    ensures
        r matches ExecAction::AddEmployeeToDepartment { employee_id: e, request } && e == employee_id
            && is_primary_membership(request, to_id),
{
    ExecAction::AddEmployeeToDepartment {
        employee_id,
        request: AddEmployeeToDepartmentRequest { department_id: to_id, is_primary: Some(true), is_leader: None },
    }
}

/// Whether an optional text is present and not empty.
fn is_given(o: &Option<String>) -> (r: bool)
    ensures
        r == given(o.deep_view()),
{
    match o {
        Some(s) => !s.as_str().is_empty(),
        None => false,
    }
}


/// Begins carrying out `intent` in organisation `org_id`; a new
/// department's code is made from `now_millis`, the time in milliseconds
/// since the Unix epoch.
pub fn start(intent: &ParsedIntent, org_id: i64, now_millis: u64) -> (r: (ExecState, ExecAction))
    ensures
        started(intent@, org_id, now_millis as nat, r.0, r.1),
{
    match intent {
        ParsedIntent::Search { keyword, scope } => {
            let mut v = chars_of("搜索");
            append_str(&mut v, search_scope_text(*scope));
            append_str(&mut v, "：");
            append_str(&mut v, keyword.as_str());
            finish(true, v, None)
        },
        ParsedIntent::Cancel => finish(true, chars_of("已取消"), None),
        ParsedIntent::Unknown { message } => {
            let mut v = chars_of("无法执行：");
            append_str(&mut v, message.as_str());
            finish(false, v, None)
        },
        ParsedIntent::CreateDepartment { department_name, parent_department } => {
            if !is_given(department_name) {
                return finish(false, chars_of("缺少部门名称"), None);
            }
            let name = department_name.as_ref().unwrap().clone();
            let code = generate_dept_code(now_millis);
            match parent_department {
                Some(p) => {
                    let q = department_lookup(p.as_str(), org_id);
                    (ExecState::AwaitParent { name, parent: p.clone(), org_id, code }, ExecAction::ListDepartments(q))
                },
                None => {
                    let req = create_request(org_id, None, &code, &name);
                    (ExecState::AwaitCreated { name, parent: None, code }, ExecAction::CreateDepartment(req))
                },
            }
        },
        ParsedIntent::Transfer { employee_name, from_department, to_department } => {
            if !is_given(employee_name) {
                return finish(false, chars_of("缺少员工姓名"), None);
            }
            if !is_given(to_department) {
                return finish(false, chars_of("缺少目标部门名称"), None);
            }
            let emp = employee_name.as_ref().unwrap().clone();
            let to = to_department.as_ref().unwrap().clone();
            let q = employee_lookup(emp.as_str(), org_id);
            let job = TransferJob { employee_name: emp, from_department: from_department.clone(), to_department: to, org_id };
            (ExecState::AwaitEmployee { job }, ExecAction::ListEmployees(q))
        },
    }
}


fn error_line(prefix: &str, e: &ApiError) -> (r: Vec<char>)
    ensures
        r@ == prefix@ + api_error_text(*e),
{
    let mut v = chars_of(prefix);
    let m = e.message();
    append_str(&mut v, m.as_str());
    v
}

fn copy_job(job: &TransferJob) -> (r: TransferJob)
    ensures
        same_job(*job, r),
{
    TransferJob {
        employee_name: job.employee_name.clone(),
        from_department: job.from_department.clone(),
        to_department: job.to_department.clone(),
        org_id: job.org_id,
    }
}

fn add_step(job: TransferJob, employee_id: i64, primary_name: Option<String>, to_id: i64) -> (r: (ExecState, ExecAction))
    ensures
        adds(r.0, r.1, job, employee_id, primary_name.deep_view(), to_id),
{
    let j = copy_job(&job);
    let a = add_action(employee_id, to_id);
    (ExecState::AwaitAdded { job: j, employee_id, primary_name, to_id }, a)
}

fn remove_step(
    job: TransferJob,
    employee_id: i64,
    primary_name: Option<String>,
    to_id: i64,
    dept_id: i64,
) -> (r: (ExecState, ExecAction))
    ensures
        removes(r.0, r.1, job, employee_id, primary_name.deep_view(), to_id, dept_id),
{
    let j = copy_job(&job);
    (
        ExecState::AwaitRemoval { job: j, employee_id, primary_name, to_id },
        ExecAction::RemoveEmployeeFromDepartment { employee_id, department_id: dept_id },
    )
}

fn not_found(prefix: &str, name: &str, hint: &str) -> (r: (ExecState, ExecAction))
    ensures
        r.0 is Finished,
        finishes(r.1, false, prefix@ + name@ + "」"@, Some(hint@)),
{
    finish(false, text3(prefix, name, "」"), Some(chars_of(hint)))
}

/// Takes `event`, the answer to the action that state `state` waits for,
/// and gives the next state and action.
pub fn step(state: ExecState, event: ExecEvent) -> (r: (ExecState, ExecAction))
    requires
        event_fits(state, event),
    ensures
        stepped(state, event, r.0, r.1),
{
    match state {
        ExecState::AwaitParent { name, parent, org_id, code } => match event {
            ExecEvent::Departments(Err(e)) => finish(false, error_line("查询上级部门失败: ", &e), None),
            ExecEvent::Departments(Ok(list)) => match find_department_by_name(&list, parent.as_str()) {
                None => not_found("找不到上级部门「", parent.as_str(), "请确认部门名称是否正确"),
                Some(j) => {
                    let req = create_request(org_id, Some(list[j].id), &code, &name);
                    (ExecState::AwaitCreated { name, parent: Some(parent), code }, ExecAction::CreateDepartment(req))
                },
            },
            _ => (ExecState::Finished, ExecAction::Finish(ExecutionResult { success: false, summary: String::new(), detail: None })),
        },
        ExecState::AwaitCreated { name, parent, code } => match event {
            ExecEvent::Created(Ok(id)) => {
                let mut v = text3("✅ 部门「", name.as_str(), "」创建成功");
                let ghost base = v@;
                match &parent {
                    Some(p) => {
                        append_str(&mut v, "（上级: ");
                        append_str(&mut v, p.as_str());
                        append_str(&mut v, "）");
                        assert(v@ =~= base + parent_info(parent.deep_view()));
                    },
                    None => {
                        assert(v@ =~= base + parent_info(parent.deep_view()));
                    },
                }
                let mut d = chars_of("部门ID: ");
                let n = decimal_i64(id);
                append_chars(&mut d, &n);
                append_str(&mut d, ", 编码: ");
                append_str(&mut d, code.as_str());
                finish(true, v, Some(d))
            },
            ExecEvent::Created(Err(e)) => {
                let v = text3("❌ 创建部门「", name.as_str(), "」失败");
                finish(false, v, Some(error_line("错误: ", &e)))
            },
            _ => (ExecState::Finished, ExecAction::Finish(ExecutionResult { success: false, summary: String::new(), detail: None })),
        },
        ExecState::AwaitEmployee { job } => match event {
            ExecEvent::Employees(Err(e)) => finish(false, error_line("查询员工失败: ", &e), None),
            ExecEvent::Employees(Ok(list)) => match find_employee_by_name(&list, job.employee_name.as_str()) {
                None => not_found("找不到员工「", job.employee_name.as_str(), "请确认员工姓名是否正确"),
                Some(j) => {
                    let q = department_lookup(job.to_department.as_str(), job.org_id);
                    let employee_id = list[j].id;
                    let primary_id = list[j].primary_department_id;
                    let primary_name = list[j].primary_department_name.clone();
                    (ExecState::AwaitTarget { job, employee_id, primary_id, primary_name }, ExecAction::ListDepartments(q))
                },
            },
            _ => (ExecState::Finished, ExecAction::Finish(ExecutionResult { success: false, summary: String::new(), detail: None })),
        },
        ExecState::AwaitTarget { job, employee_id, primary_id, primary_name } => match event {
            ExecEvent::Departments(Err(e)) => finish(false, error_line("查询目标部门失败: ", &e), None),
            ExecEvent::Departments(Ok(list)) => match find_department_by_name(&list, job.to_department.as_str()) {
                None => not_found("找不到目标部门「", job.to_department.as_str(), "请确认部门名称是否正确"),
                Some(j) => {
                    let to_id = list[j].id;
                    match &job.from_department {
                        Some(f) => {
                            let q = department_lookup(f.as_str(), job.org_id);
                            let j2 = copy_job(&job);
                            (ExecState::AwaitSource { job: j2, employee_id, primary_name, to_id }, ExecAction::ListDepartments(q))
                        },
                        None => match primary_id {
                            Some(p) => remove_step(job, employee_id, primary_name, to_id, p),
                            None => add_step(job, employee_id, primary_name, to_id),
                        },
                    }
                },
            },
            _ => (ExecState::Finished, ExecAction::Finish(ExecutionResult { success: false, summary: String::new(), detail: None })),
        },
        ExecState::AwaitSource { job, employee_id, primary_name, to_id } => match event {
            ExecEvent::Departments(r) => {
                let mut found: Option<i64> = None;
                match (&r, &job.from_department) {
                    (Ok(list), Some(f)) => match find_department_by_name(list, f.as_str()) {
                        Some(j) => {
                            found = Some(list[j].id);
                        },
                        None => {},
                    },
                    _ => {},
                }
                match found {
                    Some(d) => remove_step(job, employee_id, primary_name, to_id, d),
                    None => add_step(job, employee_id, primary_name, to_id),
                }
            },
            _ => (ExecState::Finished, ExecAction::Finish(ExecutionResult { success: false, summary: String::new(), detail: None })),
        },
        ExecState::AwaitRemoval { job, employee_id, primary_name, to_id } => add_step(job, employee_id, primary_name, to_id),
        ExecState::AwaitAdded { job, employee_id, primary_name, to_id } => match event {
            ExecEvent::Added(Ok(_)) => {
                let mut v = text3("✅ 已将 ", job.employee_name.as_str(), " 从「");
                match &job.from_department {
                    Some(f) => append_str(&mut v, f.as_str()),
                    None => match &primary_name {
                        Some(p) => append_str(&mut v, p.as_str()),
                        None => append_str(&mut v, "原部门"),
                    },
                }
                append_str(&mut v, "」调到「");
                append_str(&mut v, job.to_department.as_str());
                append_str(&mut v, "」");
                let mut d = chars_of("员工ID: ");
                let n1 = decimal_i64(employee_id);
                append_chars(&mut d, &n1);
                append_str(&mut d, ", 目标部门ID: ");
                let n2 = decimal_i64(to_id);
                append_chars(&mut d, &n2);
                finish(true, v, Some(d))
            },
            ExecEvent::Added(Err(e)) => {
                let v = text3("❌ 调岗失败：", job.employee_name.as_str(), " → ");
                let mut v = v;
                append_str(&mut v, job.to_department.as_str());
                finish(false, v, Some(error_line("错误: ", &e)))
            },
            _ => (ExecState::Finished, ExecAction::Finish(ExecutionResult { success: false, summary: String::new(), detail: None })),
        },
        ExecState::Finished => (ExecState::Finished, ExecAction::Finish(ExecutionResult { success: false, summary: String::new(), detail: None })),
    }
}


/// Whether `event` answers the action that `state` waits for.
pub fn event_fits_state(state: &ExecState, event: &ExecEvent) -> (r: bool)
    ensures
        r == event_fits(*state, *event),
{
    match state {
        ExecState::AwaitParent { .. } => matches!(event, ExecEvent::Departments(_)),
        ExecState::AwaitCreated { .. } => matches!(event, ExecEvent::Created(_)),
        ExecState::AwaitEmployee { .. } => matches!(event, ExecEvent::Employees(_)),
        ExecState::AwaitTarget { .. } => matches!(event, ExecEvent::Departments(_)),
        ExecState::AwaitSource { .. } => matches!(event, ExecEvent::Departments(_)),
        ExecState::AwaitRemoval { .. } => matches!(event, ExecEvent::Removed),
        ExecState::AwaitAdded { .. } => matches!(event, ExecEvent::Added(_)),
        ExecState::Finished => false,
    }
}

} // verus!
