//! Employees: request and response types, the list query and paths.
use vstd::prelude::*;
use crate::services::query::{
    bool_part, num_part, opt_i16, opt_i64, opt_u32, parts_view, path_ending_number,
    path_with_number, push_bool, push_num, push_text, query_of, query_string, text_part,
    url_encoded, widen_i16, widen_u32,
};
use crate::num::{decimal_i64, signed_decimal};
use crate::text::{append_chars, append_str, chars_of, string_of};

verus! {

broadcast use vstd::string::group_string_axioms;

/// A request to create an employee.
#[derive(Debug)]
pub struct CreateEmployeeRequest {
    pub org_id: i64,
    pub user_id: Option<i64>,
    pub employee_no: Option<String>,
    pub name: String,
    pub avatar: Option<String>,
    pub gender: Option<String>,
    pub mobile: Option<String>,
    pub email: Option<String>,
    pub hire_date: Option<String>,
    pub primary_department_id: Option<i64>,
    pub primary_position_id: Option<i64>,
}

/// A request to change an employee.
#[derive(Debug)]
pub struct UpdateEmployeeRequest {
    pub name: Option<String>,
    pub avatar: Option<String>,
    pub gender: Option<String>,
    pub mobile: Option<String>,
    pub email: Option<String>,
    pub hire_date: Option<String>,
    pub leave_date: Option<String>,
    pub status: Option<i16>,
    pub sort_order: Option<i32>,
}

/// A request to add an employee to a department.
#[derive(Debug)]
pub struct AddEmployeeToDepartmentRequest {
    pub department_id: i64,
    pub is_primary: Option<bool>,
    pub is_leader: Option<bool>,
}

/// A request to give an employee a position.
#[derive(Debug)]
pub struct AddEmployeePositionRequest {
    pub position_id: i64,
    pub is_primary: Option<bool>,
}

/// An employee as the service describes it.
#[derive(Debug)]
pub struct EmployeeResponse {
    pub id: i64,
    pub org_id: i64,
    pub user_id: Option<i64>,
    pub employee_no: Option<String>,
    pub name: String,
    pub avatar: Option<String>,
    pub gender: Option<String>,
    pub mobile: Option<String>,
    pub email: Option<String>,
    pub status: Option<i16>,
    pub primary_department_id: Option<i64>,
    pub primary_department_name: Option<String>,
    pub primary_position_id: Option<i64>,
    pub primary_position_name: Option<String>,
    pub hire_date: Option<String>,
    pub leave_date: Option<String>,
    pub sort_order: Option<i32>,
    pub create_time: Option<String>,
    pub update_time: Option<String>,
}

/// The filters of an employee list.
#[derive(Debug)]
pub struct ListEmployeesQuery {
    pub org_id: Option<i64>,
    pub department_id: Option<i64>,
    pub include_children: Option<bool>,
    pub position_id: Option<i64>,
    pub status: Option<i16>,
    pub keyword: Option<String>,
    pub page_size: Option<u32>,
    pub cursor: Option<u32>,
}

/// The parts of an employee list's query string, in order.
pub open spec fn employee_query_parts(q: ListEmployeesQuery) -> Seq<Seq<char>> {
    num_part("orgId="@, opt_i64(q.org_id)) + num_part("departmentId="@, opt_i64(q.department_id))
        + bool_part("includeChildren="@, q.include_children) + num_part(
        "positionId="@,
        opt_i64(q.position_id),
    ) + num_part("status="@, opt_i16(q.status)) + text_part("keyword="@, q.keyword.deep_view())
        + num_part("pageSize="@, opt_u32(q.page_size)) + num_part("cursor="@, opt_u32(q.cursor))
}

/// The query string of an employee list.
pub fn build_employee_query(query: &ListEmployeesQuery) -> (r: String)
    ensures
        r@ == query_of(employee_query_parts(*query)),
{
    let mut parts: Vec<Vec<char>> = Vec::new();
    assert(parts_view(parts@) =~= Seq::<Seq<char>>::empty());
    push_num(&mut parts, "orgId=", query.org_id);
    push_num(&mut parts, "departmentId=", query.department_id);
    push_bool(&mut parts, "includeChildren=", query.include_children);
    push_num(&mut parts, "positionId=", query.position_id);
    push_num(&mut parts, "status=", widen_i16(query.status));
    push_text(&mut parts, "keyword=", &query.keyword);
    push_num(&mut parts, "pageSize=", widen_u32(query.page_size));
    push_num(&mut parts, "cursor=", widen_u32(query.cursor));
    assert(parts_view(parts@) =~= employee_query_parts(*query));
    query_string(&parts)
}

/// The path of an employee list.
pub fn employees_path(query: &ListEmployeesQuery) -> (r: String)
    ensures
        r@ == "/api/v1/team/employees"@ + query_of(employee_query_parts(*query)),
{
    let mut v = chars_of("/api/v1/team/employees");
    let q = build_employee_query(query);
    append_str(&mut v, q.as_str());
    string_of(&v)
}

/// The path of one employee.
pub fn employee_path(id: i64) -> (r: String)
    ensures
        r@ == "/api/v1/team/employees/"@ + signed_decimal(id as int),
{
    path_ending_number("/api/v1/team/employees/", id)
}

/// The path of an employee's department memberships.
pub fn employee_departments_path(employee_id: i64) -> (r: String)
    ensures
        r@ == "/api/v1/team/employees/"@ + signed_decimal(employee_id as int) + "/departments"@,
{
    path_with_number("/api/v1/team/employees/", employee_id, "/departments")
}

/// The path of one department membership of an employee.
pub fn employee_department_path(employee_id: i64, department_id: i64) -> (r: String)
    ensures
        r@ == "/api/v1/team/employees/"@ + signed_decimal(employee_id as int) + "/departments/"@
            + signed_decimal(department_id as int),
{
    let mut v = chars_of("/api/v1/team/employees/");
    let e = decimal_i64(employee_id);
    append_chars(&mut v, &e);
    append_str(&mut v, "/departments/");
    let d = decimal_i64(department_id);
    append_chars(&mut v, &d);
    string_of(&v)
}

/// The path of an employee's positions.
pub fn employee_positions_path(employee_id: i64) -> (r: String)
    ensures
        r@ == "/api/v1/team/employees/"@ + signed_decimal(employee_id as int) + "/positions"@,
{
    path_with_number("/api/v1/team/employees/", employee_id, "/positions")
}

/// The path of one position of an employee.
pub fn employee_position_path(employee_id: i64, position_id: i64) -> (r: String)
    ensures
        r@ == "/api/v1/team/employees/"@ + signed_decimal(employee_id as int) + "/positions/"@
            + signed_decimal(position_id as int),
{
    let mut v = chars_of("/api/v1/team/employees/");
    let e = decimal_i64(employee_id);
    append_chars(&mut v, &e);
    append_str(&mut v, "/positions/");
    let p = decimal_i64(position_id);
    append_chars(&mut v, &p);
    string_of(&v)
}

/// An employee lookup by keyword sends the keyword: whenever the query's
/// keyword is a non-empty text, the query string holds "keyword=" and the
/// keyword percent-encoded.
pub proof fn law_employee_query_keeps_keyword(q: ListEmployeesQuery, k: Seq<char>)
    requires
        q.keyword.deep_view() == Some(k),
        k.len() > 0,
    ensures
        crate::text::contains(query_of(employee_query_parts(q)), "keyword="@ + url_encoded(k)),
{
    let head = num_part("orgId="@, opt_i64(q.org_id)) + num_part("departmentId="@, opt_i64(q.department_id))
        + bool_part("includeChildren="@, q.include_children) + num_part(
        "positionId="@,
        opt_i64(q.position_id),
    ) + num_part("status="@, opt_i16(q.status));
    let parts = employee_query_parts(q);
    assert(parts[head.len() as int] == "keyword="@ + url_encoded(k));
    crate::services::query::lemma_query_holds(parts, head.len() as int);
}

/// An employee lookup sends the organisation, the department and the
/// page size it is given: "orgId=", "departmentId=" and "pageSize=", each
/// followed by the number, stand in the query string.
pub proof fn law_employee_query_keeps_numbers(q: ListEmployeesQuery)
    ensures
        q.org_id matches Some(o) ==> crate::text::contains(
            query_of(employee_query_parts(q)),
            "orgId="@ + signed_decimal(o as int),
        ),
        q.department_id matches Some(d) ==> crate::text::contains(
            query_of(employee_query_parts(q)),
            "departmentId="@ + signed_decimal(d as int),
        ),
        q.page_size matches Some(n) ==> crate::text::contains(
            query_of(employee_query_parts(q)),
            "pageSize="@ + signed_decimal(n as int),
        ),
{
    let parts = employee_query_parts(q);
    let a = num_part("orgId="@, opt_i64(q.org_id));
    let b = a + num_part("departmentId="@, opt_i64(q.department_id));
    let c = b + bool_part("includeChildren="@, q.include_children) + num_part(
        "positionId="@,
        opt_i64(q.position_id),
    ) + num_part("status="@, opt_i16(q.status)) + text_part("keyword="@, q.keyword.deep_view());
    if let Some(o) = q.org_id {
        assert(parts[0] == "orgId="@ + signed_decimal(o as int));
        crate::services::query::lemma_query_holds(parts, 0);
    }
    if let Some(d) = q.department_id {
        assert(parts[a.len() as int] == "departmentId="@ + signed_decimal(d as int));
        crate::services::query::lemma_query_holds(parts, a.len() as int);
    }
    if let Some(n) = q.page_size {
        assert(parts[c.len() as int] == "pageSize="@ + signed_decimal(n as int));
        crate::services::query::lemma_query_holds(parts, c.len() as int);
    }
}

} // verus!
