use console::services::client::{after_refresh, after_reply, RetryStep};
use console::services::client::{count_from_total, data_or, response_outcome, server_error, ApiClient, ApiError, Method};
use console::services::contacts::contacts_members_path;
use console::services::department::{build_query, department_path, ListDepartmentsQuery};
use console::services::employee::{build_employee_query, ListEmployeesQuery};
use console::services::organization::ListOrganizationsQuery;
use console::services::query::url_encode;

#[test]
fn url_encode_keeps_unreserved_and_escapes_the_rest() {
    assert_eq!(url_encode("abc-XYZ_0.9~"), "abc-XYZ_0.9~");
    assert_eq!(url_encode("a b&c"), "a%20b%26c");
    assert_eq!(url_encode("张"), "%E5%BC%A0");
    assert_eq!(url_encode(""), "");
}

#[test]
fn department_query_string() {
    let q = ListDepartmentsQuery {
        org_id: Some(1),
        parent_id: None,
        keyword: Some("市场 部".to_string()),
        status: Some(-1),
        page_size: Some(10),
        cursor: None,
    };
    assert_eq!(build_query(&q), "?org_id=1&keyword=%E5%B8%82%E5%9C%BA%20%E9%83%A8&status=-1&page_size=10");
    let empty = ListDepartmentsQuery { org_id: None, parent_id: None, keyword: Some(String::new()), status: None, page_size: None, cursor: None };
    assert_eq!(build_query(&empty), "");
    assert_eq!(department_path(42), "/api/v1/team/departments/42");
}

#[test]
fn employee_query_string() {
    let q = ListEmployeesQuery {
        org_id: Some(2),
        department_id: Some(3),
        include_children: Some(true),
        position_id: None,
        status: None,
        keyword: None,
        page_size: None,
        cursor: Some(4),
    };
    assert_eq!(build_employee_query(&q), "?orgId=2&departmentId=3&includeChildren=true&cursor=4");
}

#[test]
fn organization_and_contacts_queries() {
    let q = ListOrganizationsQuery { keyword: Some("a".to_string()), status: None, page_size: Some(5), cursor: None };
    assert_eq!(q.to_query_string(), "keyword=a&pageSize=5");
    assert_eq!(
        contacts_members_path(7, Some(false), None, Some(20)),
        "/api/v1/team/contacts/departments/7/members?deptId=7&includeChildren=false&pageSize=20"
    );
}

#[test]
fn error_messages() {
    assert_eq!(ApiError::Network("x".to_string()).message(), "网络请求失败: x");
    assert_eq!(ApiError::Json("y".to_string()).message(), "JSON 解析失败: y");
    assert_eq!(ApiError::Server { status: 404, message: "无".to_string() }.message(), "服务端错误 (404): 无");
    assert_eq!(ApiError::Unauthorized.message(), "未授权，请重新登录");
    assert!(ApiError::Unauthorized.is_unauthorized());
    assert!(!ApiError::Json(String::new()).is_unauthorized());
}

#[test]
fn responses_are_sorted_out() {
    assert!(matches!(response_outcome(401, "x"), Err(ApiError::Unauthorized)));
    match response_outcome(500, r#"{"message":"数据库错误"}"#) {
        Err(ApiError::Server { status, message }) => {
            assert_eq!(status, 500);
            assert_eq!(message, "数据库错误");
        }
        other => panic!("{other:?}"),
    }
    match response_outcome(400, r#"{"code":1}"#) {
        Err(ApiError::Server { message, .. }) => assert_eq!(message, "Unknown error"),
        other => panic!("{other:?}"),
    }
    match response_outcome(502, "Bad Gateway") {
        Err(ApiError::Server { message, .. }) => assert_eq!(message, "Bad Gateway"),
        other => panic!("{other:?}"),
    }
    assert_eq!(response_outcome(200, "{}").unwrap(), "{}");
    match server_error(418, Some(None), "b") {
        ApiError::Server { message, .. } => assert_eq!(message, "Unknown error"),
        _ => panic!(),
    }
}

#[test]
fn data_and_counts() {
    assert_eq!(data_or(Some(3), 200, "m").unwrap(), 3);
    match data_or::<i32>(None, 200, "empty") {
        Err(ApiError::Server { status, message }) => assert_eq!((status, message.as_str()), (200, "empty")),
        _ => panic!(),
    }
    assert_eq!(count_from_total(None), 0);
    assert_eq!(count_from_total(Some(12)), 12);
    assert_eq!(count_from_total(Some((1i64 << 32) + 5)), 5);
}

#[test]
fn client_tokens_and_urls() {
    let mut c = ApiClient::new("http://localhost:8080/".to_string());
    assert_eq!(c.get_token(), "");
    c.set_token("t1");
    c.set_refresh_token("r1");
    assert_eq!(c.get_token(), "t1");
    assert_eq!(c.get_refresh_token(), "r1");
    assert!(c.can_refresh());
    assert_eq!(c.resolve_url("/api/v1/team/x"), "http://localhost:8080/api/v1/team/x");
    assert_eq!(c.resolve_url("https://other/x"), "https://other/x");
    assert_eq!(c.authorization().as_deref(), Some("Bearer t1"));
    let c2 = ApiClient::default();
    assert_eq!(c2.authorization(), None);
    assert!(c.apply_refresh(200, Some(("t2".to_string(), None))));
    assert_eq!(c.get_token(), "t2");
    assert_eq!(c.get_refresh_token(), "r1");
    assert!(!c.apply_refresh(401, None));
    assert_eq!(c.get_token(), "t2");
}

#[test]
fn refusal_is_retried_once() {
    let refused: Result<String, ApiError> = Err(ApiError::Unauthorized);
    let ok: Result<String, ApiError> = Ok("{}".to_string());
    let failed: Result<String, ApiError> = Err(ApiError::Network("down".to_string()));
    assert_eq!(after_reply(&refused, false), RetryStep::Refresh);
    assert_eq!(after_reply(&refused, true), RetryStep::Deliver);
    assert_eq!(after_reply(&ok, false), RetryStep::Deliver);
    assert_eq!(after_reply(&failed, false), RetryStep::Deliver);
    assert_eq!(after_refresh(true), RetryStep::Resend);
    assert_eq!(after_refresh(false), RetryStep::GiveUp);
}

#[test]
fn integer_text_reads_as_std() {
    for t in [
        "0", "42", "+7", "-7", "-", "+", "", "12a", " 1", "9223372036854775807", "9223372036854775808",
        "-9223372036854775808", "-9223372036854775809", "0001", "99999999999999999999999", "１",
    ] {
        assert_eq!(console::services::auth::parse_i64(t), t.parse::<i64>().ok(), "{t:?}");
    }
}
