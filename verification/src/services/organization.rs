//! Organisations: request and response types, the list query and paths.
use vstd::prelude::*;
use crate::services::query::{
    join, num_part, opt_i16, opt_u32, parts_view, path_ending_number, push_num, push_text,
    text_part, widen_i16, widen_u32, join_parts,
};
use crate::num::signed_decimal;
use crate::text::{append_str, chars_of, owned, string_of};

verus! {

broadcast use vstd::string::group_string_axioms;

/// A request to create an organisation.
#[derive(Debug)]
pub struct CreateOrganizationRequest {
    pub parent_id: Option<i64>,
    pub code: String,
    pub name: String,
    pub org_type: Option<String>,
    pub short_name: Option<String>,
    pub logo: Option<String>,
    pub description: Option<String>,
    pub sort_order: Option<i32>,
}

/// A request to change an organisation.
#[derive(Debug)]
pub struct UpdateOrganizationRequest {
    pub name: Option<String>,
    pub short_name: Option<String>,
    pub org_type: Option<String>,
    pub logo: Option<String>,
    pub description: Option<String>,
    pub sort_order: Option<i32>,
    pub status: Option<i16>,
}

/// An organisation as the service describes it.
#[derive(Debug)]
pub struct OrganizationResponse {
    pub id: i64,
    pub parent_id: Option<i64>,
    pub code: String,
    pub name: String,
    pub short_name: Option<String>,
    pub org_type: Option<String>,
    pub logo: Option<String>,
    pub description: Option<String>,
    pub sort_order: Option<i32>,
    pub status: Option<i16>,
    pub member_count: Option<i64>,
    pub sub_org_count: Option<i64>,
    pub create_time: Option<String>,
    pub update_time: Option<String>,
}

/// A node of the organisation tree.
#[derive(Debug)]
pub struct OrganizationTreeNode {
    pub id: i64,
    pub name: String,
    pub short_name: Option<String>,
    pub logo: Option<String>,
    pub member_count: Option<i64>,
    pub children: Option<Vec<OrganizationTreeNode>>,
}

/// The filters of an organisation list.
#[derive(Debug)]
pub struct ListOrganizationsQuery {
    pub keyword: Option<String>,
    pub status: Option<i16>,
    pub page_size: Option<u32>,
    pub cursor: Option<u32>,
}

/// The parts of an organisation list's query string, in order.
pub open spec fn organization_query_parts(q: ListOrganizationsQuery) -> Seq<Seq<char>> {
    text_part("keyword="@, q.keyword.deep_view()) + num_part("status="@, opt_i16(q.status))
        + num_part("pageSize="@, opt_u32(q.page_size)) + num_part("cursor="@, opt_u32(q.cursor))
}

impl ListOrganizationsQuery {
    /// The query string: the parts joined by "&" (no leading "?").
    pub fn to_query_string(&self) -> (r: String)
        ensures
            r@ == join(organization_query_parts(*self), seq!['&']),
    {
        let mut parts: Vec<Vec<char>> = Vec::new();
        assert(parts_view(parts@) =~= Seq::<Seq<char>>::empty());
        push_text(&mut parts, "keyword=", &self.keyword);
        push_num(&mut parts, "status=", widen_i16(self.status));
        push_num(&mut parts, "pageSize=", widen_u32(self.page_size));
        push_num(&mut parts, "cursor=", widen_u32(self.cursor));
        assert(parts_view(parts@) =~= organization_query_parts(*self));
        let j = join_parts(&parts);
        string_of(&j)
    }
}

/// The path of an organisation list: with "?" and the query string when
/// it is not empty.
pub fn organizations_path(query: &ListOrganizationsQuery) -> (r: String)
    ensures
        join(organization_query_parts(*query), seq!['&']).len() == 0 ==> r@
            == "/api/v1/team/organizations"@,
        join(organization_query_parts(*query), seq!['&']).len() > 0 ==> r@
            == "/api/v1/team/organizations?"@ + join(organization_query_parts(*query), seq!['&']),
{
    let q = query.to_query_string();
    if q.as_str().is_empty() {
        owned("/api/v1/team/organizations")
    } else {
        let mut v = chars_of("/api/v1/team/organizations?");
        append_str(&mut v, q.as_str());
        string_of(&v)
    }
}

/// The path of one organisation.
pub fn organization_path(id: i64) -> (r: String)
    ensures
        r@ == "/api/v1/team/organizations/"@ + signed_decimal(id as int),
{
    path_ending_number("/api/v1/team/organizations/", id)
}

} // verus!
