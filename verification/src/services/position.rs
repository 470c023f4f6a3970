//! Positions: request and response types, the list query and paths.
use vstd::prelude::*;
use crate::services::query::{
    num_part, opt_i16, opt_i64, opt_u32, parts_view, path_ending_number, path_with_number,
    push_num, push_text, query_of, query_string, text_part, widen_i16, widen_u32,
};
use crate::num::signed_decimal;
use crate::text::{append_str, chars_of, string_of};

verus! {

broadcast use vstd::string::group_string_axioms;

/// A request to create a position.
#[derive(Debug)]
pub struct CreatePositionRequest {
    pub org_id: i64,
    pub code: String,
    pub name: String,
    pub category: Option<String>,
    pub level: Option<i32>,
    pub description: Option<String>,
    pub requirements: Option<String>,
    pub sort_order: Option<i32>,
}

/// A request to change a position.
#[derive(Debug)]
pub struct UpdatePositionRequest {
    pub name: Option<String>,
    pub category: Option<String>,
    pub level: Option<i32>,
    pub description: Option<String>,
    pub requirements: Option<String>,
    pub sort_order: Option<i32>,
    pub status: Option<i16>,
}

/// A position as the service describes it.
#[derive(Debug)]
pub struct PositionResponse {
    pub id: i64,
    pub org_id: i64,
    pub code: String,
    pub name: String,
    pub category: Option<String>,
    pub level: Option<i32>,
    pub description: Option<String>,
    pub requirements: Option<String>,
    pub sort_order: Option<i32>,
    pub status: Option<i16>,
    pub employee_count: Option<i64>,
    pub create_time: Option<String>,
    pub update_time: Option<String>,
}

/// The filters of a position list.
#[derive(Debug)]
pub struct ListPositionsQuery {
    pub org_id: Option<i64>,
    pub category: Option<String>,
    pub keyword: Option<String>,
    pub status: Option<i16>,
    pub page_size: Option<u32>,
    pub cursor: Option<u32>,
}

/// The parts of a position list's query string, in order.
pub open spec fn position_query_parts(q: ListPositionsQuery) -> Seq<Seq<char>> {
    num_part("org_id="@, opt_i64(q.org_id)) + text_part("category="@, q.category.deep_view())
        + text_part("keyword="@, q.keyword.deep_view()) + num_part("status="@, opt_i16(q.status))
        + num_part("page_size="@, opt_u32(q.page_size)) + num_part("cursor="@, opt_u32(q.cursor))
}

/// The query string of a position list.
pub fn build_position_query(query: &ListPositionsQuery) -> (r: String)
    ensures
        r@ == query_of(position_query_parts(*query)),
{
    let mut parts: Vec<Vec<char>> = Vec::new();
    assert(parts_view(parts@) =~= Seq::<Seq<char>>::empty());
    push_num(&mut parts, "org_id=", query.org_id);
    push_text(&mut parts, "category=", &query.category);
    push_text(&mut parts, "keyword=", &query.keyword);
    push_num(&mut parts, "status=", widen_i16(query.status));
    push_num(&mut parts, "page_size=", widen_u32(query.page_size));
    push_num(&mut parts, "cursor=", widen_u32(query.cursor));
    assert(parts_view(parts@) =~= position_query_parts(*query));
    query_string(&parts)
}

/// The path of a position list.
pub fn positions_path(query: &ListPositionsQuery) -> (r: String)
    ensures
        r@ == "/api/v1/team/positions"@ + query_of(position_query_parts(*query)),
{
    let mut v = chars_of("/api/v1/team/positions");
    let q = build_position_query(query);
    append_str(&mut v, q.as_str());
    string_of(&v)
}

/// The path that counts an organisation's positions (one item per page).
pub fn position_count_path(org_id: i64) -> (r: String)
    ensures
        r@ == "/api/v1/team/positions?org_id="@ + signed_decimal(org_id as int)
            + "&page_size=1&cursor=1"@,
{
    path_with_number("/api/v1/team/positions?org_id=", org_id, "&page_size=1&cursor=1")
}

/// The path of one position.
pub fn position_path(id: i64) -> (r: String)
    ensures
        r@ == "/api/v1/team/positions/"@ + signed_decimal(id as int),
{
    path_ending_number("/api/v1/team/positions/", id)
}

} // verus!
