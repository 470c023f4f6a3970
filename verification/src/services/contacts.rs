//! The contact directory: response types and paths.
use vstd::prelude::*;
use crate::services::query::{
    bool_part, join, num_part, opt_u32, parts_view, path_ending_number, push_bool,
    push_num, url_encode, url_encoded, widen_u32, join_parts,
};
use crate::num::{decimal_i64, signed_decimal};
use crate::text::{append_chars, append_str, chars_of, string_of};

verus! {

broadcast use vstd::string::group_string_axioms;

/// The directory's entry: the organisation and its root departments.
#[derive(Debug)]
pub struct ContactsEntryResponse {
    pub organization: OrganizationBrief,
    pub departments: Vec<DepartmentSummary>,
    pub total_member_count: Option<i64>,
}

/// An organisation in brief.
#[derive(Debug)]
pub struct OrganizationBrief {
    pub id: i64,
    pub name: String,
    pub logo: Option<String>,
}

/// A department in brief.
#[derive(Debug)]
pub struct DepartmentSummary {
    pub id: i64,
    pub name: String,
    pub has_children: Option<bool>,
    pub member_count: Option<i64>,
    pub leader: Option<LeaderBrief>,
}

/// A department leader in brief.
#[derive(Debug)]
pub struct LeaderBrief {
    pub id: i64,
    pub name: String,
    pub avatar: Option<String>,
}

/// A department's directory page: its sub-departments and members.
#[derive(Debug)]
pub struct ContactsDepartmentResponse {
    pub department: DepartmentInfo,
    pub children: Option<Vec<DepartmentSummary>>,
    pub members: Option<Vec<MemberPreview>>,
    pub total_member_count: Option<i64>,
    pub sub_dept_count: Option<i64>,
}

/// A department's details.
#[derive(Debug)]
pub struct DepartmentInfo {
    pub id: i64,
    pub name: String,
    pub full_name: Option<String>,
    pub leader_name: Option<String>,
}

/// A member in brief.
#[derive(Debug)]
pub struct MemberPreview {
    pub id: i64,
    pub name: String,
    pub avatar: Option<String>,
    pub department_title: Option<String>,
    pub mobile: Option<String>,
    pub email: Option<String>,
    pub is_leader: Option<bool>,
}

/// An employee's directory card.
#[derive(Debug)]
pub struct ContactsEmployeeDetailResponse {
    pub id: i64,
    pub name: String,
    pub avatar: Option<String>,
    pub mobile: Option<String>,
    pub email: Option<String>,
    pub departments: Vec<EmployeeDeptInfo>,
    pub positions: Vec<EmployeePosInfo>,
}

/// A department an employee belongs to.
#[derive(Debug)]
pub struct EmployeeDeptInfo {
    pub id: i64,
    pub name: String,
    pub full_name: Option<String>,
    pub is_primary: Option<bool>,
    pub is_leader: Option<bool>,
}

/// A position an employee holds.
#[derive(Debug)]
pub struct EmployeePosInfo {
    pub id: i64,
    pub name: String,
    pub level: Option<i32>,
    pub is_primary: Option<bool>,
}

/// The answer to a directory search.
#[derive(Debug)]
pub struct ContactsSearchResponse {
    pub items: Vec<SearchResultItem>,
    pub estimated_total: Option<i64>,
    pub has_next: Option<bool>,
    pub degraded: Option<bool>,
}

/// One search hit.
#[derive(Debug)]
pub struct SearchResultItem {
    pub employee_id: i64,
    pub name: String,
    pub avatar: Option<String>,
    pub primary_dept_name: Option<String>,
    pub primary_position_name: Option<String>,
    pub mobile: Option<String>,
    pub email: Option<String>,
    pub highlights: Option<Vec<String>>,
}

/// A page of a department's members.
#[derive(Debug)]
pub struct ContactsMemberPageResponse {
    pub items: Vec<MemberPreview>,
    pub total: Option<i64>,
    pub has_next: Option<bool>,
}

/// The path of an organisation's directory entry.
pub fn contacts_entry_path(org_id: i64) -> (r: String)
    ensures
        r@ == "/api/v1/team/contacts/entry?orgId="@ + signed_decimal(org_id as int),
{
    path_ending_number("/api/v1/team/contacts/entry?orgId=", org_id)
}

/// The path of a department's directory page.
pub fn contacts_department_path(dept_id: i64) -> (r: String)
    ensures
        r@ == "/api/v1/team/contacts/departments/"@ + signed_decimal(dept_id as int),
{
    path_ending_number("/api/v1/team/contacts/departments/", dept_id)
}

/// The path of an employee's directory card.
pub fn contacts_employee_path(id: i64) -> (r: String)
    ensures
        r@ == "/api/v1/team/contacts/employees/"@ + signed_decimal(id as int),
{
    path_ending_number("/api/v1/team/contacts/employees/", id)
}

/// The path of a directory search; the keyword is percent-encoded.
pub fn contacts_search_path(org_id: i64, keyword: &str) -> (r: String)
    ensures
        r@ == "/api/v1/team/contacts/search?orgId="@ + signed_decimal(org_id as int)
            + "&keyword="@ + url_encoded(keyword@),
{
    let mut v = chars_of("/api/v1/team/contacts/search?orgId=");
    let d = decimal_i64(org_id);
    append_chars(&mut v, &d);
    append_str(&mut v, "&keyword=");
    let k = url_encode(keyword);
    append_str(&mut v, k.as_str());
    string_of(&v)
}

/// The query parts of a department's member page, in order.
pub open spec fn member_query_parts(
    dept_id: i64,
    include_children: Option<bool>,
    page: Option<u32>,
    page_size: Option<u32>,
) -> Seq<Seq<char>> {
    seq!["deptId="@ + signed_decimal(dept_id as int)] + bool_part(
        "includeChildren="@,
        include_children,
    ) + num_part("page="@, opt_u32(page)) + num_part("pageSize="@, opt_u32(page_size))
}

/// The path of a page of a department's members.
pub fn contacts_members_path(
    dept_id: i64,
    include_children: Option<bool>,
    page: Option<u32>,
    page_size: Option<u32>,
) -> (r: String)
    ensures
        r@ == "/api/v1/team/contacts/departments/"@ + signed_decimal(dept_id as int)
            + "/members?"@ + join(
            member_query_parts(dept_id, include_children, page, page_size),
            seq!['&'],
        ),
{
    let mut parts: Vec<Vec<char>> = Vec::new();
    assert(parts_view(parts@) =~= Seq::<Seq<char>>::empty());
    push_num(&mut parts, "deptId=", Some(dept_id));
    push_bool(&mut parts, "includeChildren=", include_children);
    push_num(&mut parts, "page=", widen_u32(page));
    push_num(&mut parts, "pageSize=", widen_u32(page_size));
    assert(parts_view(parts@) =~= member_query_parts(dept_id, include_children, page, page_size));
    let mut v = chars_of("/api/v1/team/contacts/departments/");
    let d = decimal_i64(dept_id);
    append_chars(&mut v, &d);
    append_str(&mut v, "/members?");
    let j = join_parts(&parts);
    append_chars(&mut v, &j);
    string_of(&v)
}

} // verus!
