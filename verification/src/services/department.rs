//! Departments: request and response types, the list query and paths.
use vstd::prelude::*;
use crate::services::query::{
    num_part, opt_i16, opt_i64, opt_u32, parts_view, path_ending_number, path_with_number, push_num, push_text,
    query_of, query_string, text_part, url_encoded, widen_i16, widen_u32,
};
use crate::num::signed_decimal;
use crate::text::{append_str, chars_of, string_of};

verus! {

broadcast use vstd::string::group_string_axioms;

/// A request to create a department.
#[derive(Debug)]
pub struct CreateDepartmentRequest {
    pub org_id: i64,
    pub parent_id: Option<i64>,
    pub code: String,
    pub name: String,
    pub leader_employee_id: Option<i64>,
    pub sort_order: Option<i32>,
}

/// A request to change a department.
#[derive(Debug)]
pub struct UpdateDepartmentRequest {
    pub name: Option<String>,
    pub leader_employee_id: Option<i64>,
    pub sort_order: Option<i32>,
    pub status: Option<i16>,
}

/// A department as the service describes it.
#[derive(Debug)]
pub struct DepartmentResponse {
    pub id: i64,
    pub org_id: i64,
    pub parent_id: Option<i64>,
    pub code: String,
    pub name: String,
    pub full_name: Option<String>,
    pub path: Option<String>,
    pub leader_employee_id: Option<i64>,
    pub leader_name: Option<String>,
    pub level: Option<i32>,
    pub sort_order: Option<i32>,
    pub status: Option<i16>,
    pub employee_count: Option<i64>,
    pub sub_dept_count: Option<i64>,
    pub create_time: Option<String>,
    pub update_time: Option<String>,
}

/// A node of the department tree.
#[derive(Debug)]
pub struct DepartmentTreeNode {
    pub id: i64,
    pub name: String,
    pub full_name: Option<String>,
    pub employee_count: Option<i64>,
    pub leader_name: Option<String>,
    pub children: Option<Vec<DepartmentTreeNode>>,
}

/// The filters of a department list.
#[derive(Debug)]
pub struct ListDepartmentsQuery {
    pub org_id: Option<i64>,
    pub parent_id: Option<i64>,
    pub keyword: Option<String>,
    pub status: Option<i16>,
    pub page_size: Option<u32>,
    pub cursor: Option<u32>,
}

/// The parts of a department list's query string, in order.
pub open spec fn department_query_parts(q: ListDepartmentsQuery) -> Seq<Seq<char>> {
    num_part("org_id="@, opt_i64(q.org_id)) + num_part("parent_id="@, opt_i64(q.parent_id))
        + text_part("keyword="@, q.keyword.deep_view()) + num_part("status="@, opt_i16(q.status))
        + num_part("page_size="@, opt_u32(q.page_size)) + num_part("cursor="@, opt_u32(q.cursor))
}

/// The query string of a department list.
pub fn build_query(query: &ListDepartmentsQuery) -> (r: String)
    ensures
        r@ == query_of(department_query_parts(*query)),
{
    let mut parts: Vec<Vec<char>> = Vec::new();
    assert(parts_view(parts@) =~= Seq::<Seq<char>>::empty());
    push_num(&mut parts, "org_id=", query.org_id);
    push_num(&mut parts, "parent_id=", query.parent_id);
    push_text(&mut parts, "keyword=", &query.keyword);
    push_num(&mut parts, "status=", widen_i16(query.status));
    push_num(&mut parts, "page_size=", widen_u32(query.page_size));
    push_num(&mut parts, "cursor=", widen_u32(query.cursor));
    assert(parts_view(parts@) =~= department_query_parts(*query));
    query_string(&parts)
}

/// The path of a department list.
pub fn departments_path(query: &ListDepartmentsQuery) -> (r: String)
    ensures
        r@ == "/api/v1/team/departments"@ + query_of(department_query_parts(*query)),
{
    let mut v = chars_of("/api/v1/team/departments");
    let q = build_query(query);
    append_str(&mut v, q.as_str());
    string_of(&v)
}

/// The path of the root departments of an organisation.
pub fn root_departments_path(org_id: i64) -> (r: String)
    ensures
        r@ == "/api/v1/team/departments/roots?org_id="@ + signed_decimal(org_id as int),
{
    path_ending_number("/api/v1/team/departments/roots?org_id=", org_id)
}

/// The path of an organisation's department tree.
pub fn department_tree_path(org_id: i64) -> (r: String)
    ensures
        r@ == "/api/v1/team/departments/tree?org_id="@ + signed_decimal(org_id as int),
{
    path_ending_number("/api/v1/team/departments/tree?org_id=", org_id)
}

/// The path that counts an organisation's departments (one item per page).
pub fn department_count_path(org_id: i64) -> (r: String)
    ensures
        r@ == "/api/v1/team/departments?org_id="@ + signed_decimal(org_id as int)
            + "&page_size=1&cursor=1"@,
{
    path_with_number("/api/v1/team/departments?org_id=", org_id, "&page_size=1&cursor=1")
}

/// The path of one department.
pub fn department_path(id: i64) -> (r: String)
    ensures
        r@ == "/api/v1/team/departments/"@ + signed_decimal(id as int),
{
    path_ending_number("/api/v1/team/departments/", id)
}

/// The path of a department's children.
pub fn department_children_path(id: i64) -> (r: String)
    ensures
        r@ == "/api/v1/team/departments/"@ + signed_decimal(id as int) + "/children"@,
{
    path_with_number("/api/v1/team/departments/", id, "/children")
}

/// A department lookup by keyword sends the keyword: whenever the query's
/// keyword is a non-empty text, the query string holds "keyword=" and the
/// keyword percent-encoded.
pub proof fn law_department_query_keeps_keyword(q: ListDepartmentsQuery, k: Seq<char>)
    requires
        q.keyword.deep_view() == Some(k),
        k.len() > 0,
    ensures
        crate::text::contains(query_of(department_query_parts(q)), "keyword="@ + url_encoded(k)),
{
    let head = num_part("org_id="@, opt_i64(q.org_id)) + num_part("parent_id="@, opt_i64(q.parent_id));
    let parts = department_query_parts(q);
    assert(parts[head.len() as int] == "keyword="@ + url_encoded(k));
    crate::services::query::lemma_query_holds(parts, head.len() as int);
}

} // verus!
