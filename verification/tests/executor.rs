use console::executor::{
    event_fits_state, find_department_by_name, find_employee_by_name, generate_dept_code, start, step, ExecAction, ExecEvent,
    ExecState,
};
use console::intent::{ParsedIntent, SearchScope};
use console::services::client::ApiError;
use console::services::department::DepartmentResponse;
use console::services::employee::EmployeeResponse;

fn some(s: &str) -> Option<String> {
    Some(s.to_string())
}

fn dept(id: i64, name: &str) -> DepartmentResponse {
    DepartmentResponse {
        id,
        org_id: 1,
        parent_id: None,
        code: format!("D{id}"),
        name: name.to_string(),
        full_name: None,
        path: None,
        leader_employee_id: None,
        leader_name: None,
        level: None,
        sort_order: None,
        status: None,
        employee_count: None,
        sub_dept_count: None,
        create_time: None,
        update_time: None,
    }
}

fn emp(id: i64, name: &str, primary: Option<(i64, &str)>) -> EmployeeResponse {
    EmployeeResponse {
        id,
        org_id: 1,
        user_id: None,
        employee_no: None,
        name: name.to_string(),
        avatar: None,
        gender: None,
        mobile: None,
        email: None,
        status: Some(1),
        primary_department_id: primary.map(|p| p.0),
        primary_department_name: primary.map(|p| p.1.to_string()),
        primary_position_id: None,
        primary_position_name: None,
        hire_date: None,
        leave_date: None,
        sort_order: None,
        create_time: None,
        update_time: None,
    }
}

fn finished(r: (ExecState, ExecAction)) -> (bool, String, Option<String>) {
    assert!(matches!(r.0, ExecState::Finished));
    match r.1 {
        ExecAction::Finish(res) => (res.success, res.summary, res.detail),
        other => panic!("expected a result, got {other:?}"),
    }
}

#[test]
fn dept_code_is_hex_millis() {
    assert_eq!(generate_dept_code(255), "DEPT-ff");
    assert_eq!(generate_dept_code(0), "DEPT-0");
    assert_eq!(generate_dept_code(1_700_000_000_000), format!("DEPT-{:x}", 1_700_000_000_000u64));
}

#[test]
fn search_cancel_and_unknown_finish_at_once() {
    let s = ParsedIntent::Search { keyword: "张三".to_string(), scope: SearchScope::Employee };
    assert_eq!(finished(start(&s, 1, 0)), (true, "搜索员工：张三".to_string(), None));
    assert_eq!(finished(start(&ParsedIntent::Cancel, 1, 0)), (true, "已取消".to_string(), None));
    let u = ParsedIntent::Unknown { message: "嗯".to_string() };
    assert_eq!(finished(start(&u, 1, 0)), (false, "无法执行：嗯".to_string(), None));
}

#[test]
fn create_department_without_name_fails() {
    let i = ParsedIntent::CreateDepartment { department_name: some(""), parent_department: None };
    assert_eq!(finished(start(&i, 1, 0)), (false, "缺少部门名称".to_string(), None));
}

#[test]
fn create_department_under_parent() {
    let i = ParsedIntent::CreateDepartment { department_name: some("AI实验室"), parent_department: some("技术中心") };
    let (s, a) = start(&i, 7, 255);
    match &a {
        ExecAction::ListDepartments(q) => {
            assert_eq!(q.org_id, Some(7));
            assert_eq!(q.keyword.as_deref(), Some("技术中心"));
            assert_eq!(q.page_size, Some(10));
        }
        other => panic!("{other:?}"),
    }
    let (s, a) = step(s, ExecEvent::Departments(Ok(vec![dept(3, "技术中心二部"), dept(4, "技术中心")])));
    match &a {
        ExecAction::CreateDepartment(r) => {
            assert_eq!(r.parent_id, Some(4));
            assert_eq!(r.org_id, 7);
            assert_eq!(r.name, "AI实验室");
            assert_eq!(r.code, "DEPT-ff");
        }
        other => panic!("{other:?}"),
    }
    let r = finished(step(s, ExecEvent::Created(Ok(42))));
    assert_eq!(
        r,
        (true, "✅ 部门「AI实验室」创建成功（上级: 技术中心）".to_string(), some("部门ID: 42, 编码: DEPT-ff"))
    );
}

#[test]
fn create_department_errors() {
    let i = ParsedIntent::CreateDepartment { department_name: some("AI实验室"), parent_department: some("技术中心") };
    let (s, _) = start(&i, 1, 1);
    let r = finished(step(s, ExecEvent::Departments(Ok(vec![dept(3, "其他")]))));
    assert_eq!(r, (false, "找不到上级部门「技术中心」".to_string(), some("请确认部门名称是否正确")));
    let (s, _) = start(&i, 1, 1);
    let r = finished(step(s, ExecEvent::Departments(Err(ApiError::Network("down".to_string())))));
    assert_eq!(r, (false, "查询上级部门失败: 网络请求失败: down".to_string(), None));
    let plain = ParsedIntent::CreateDepartment { department_name: some("AI实验室"), parent_department: None };
    let (s, a) = start(&plain, 1, 16);
    assert!(matches!(a, ExecAction::CreateDepartment(_)));
    let r = finished(step(s, ExecEvent::Created(Err(ApiError::Unauthorized))));
    assert_eq!(r, (false, "❌ 创建部门「AI实验室」失败".to_string(), some("错误: 未授权，请重新登录")));
}

#[test]
fn transfer_with_named_source() {
    let i = ParsedIntent::Transfer { employee_name: some("张三"), from_department: some("市场部"), to_department: some("产品部") };
    let (s, a) = start(&i, 1, 0);
    assert!(matches!(a, ExecAction::ListEmployees(_)));
    let (s, a) = step(s, ExecEvent::Employees(Ok(vec![emp(9, "张三丰", None), emp(10, "张三", Some((5, "市场部")))])));
    assert!(matches!(a, ExecAction::ListDepartments(_)));
    let (s, a) = step(s, ExecEvent::Departments(Ok(vec![dept(6, "产品部")])));
    match &a {
        ExecAction::ListDepartments(q) => assert_eq!(q.keyword.as_deref(), Some("市场部")),
        other => panic!("{other:?}"),
    }
    let (s, a) = step(s, ExecEvent::Departments(Ok(vec![dept(5, "市场部")])));
    match &a {
        ExecAction::RemoveEmployeeFromDepartment { employee_id, department_id } => {
            assert_eq!((*employee_id, *department_id), (10, 5));
        }
        other => panic!("{other:?}"),
    }
    let (s, a) = step(s, ExecEvent::Removed);
    match &a {
        ExecAction::AddEmployeeToDepartment { employee_id, request } => {
            assert_eq!(*employee_id, 10);
            assert_eq!(request.department_id, 6);
            assert_eq!(request.is_primary, Some(true));
            assert_eq!(request.is_leader, None);
        }
        other => panic!("{other:?}"),
    }
    let r = finished(step(s, ExecEvent::Added(Ok(1))));
    assert_eq!(r, (true, "✅ 已将 张三 从「市场部」调到「产品部」".to_string(), some("员工ID: 10, 目标部门ID: 6")));
}

#[test]
fn transfer_from_primary_department() {
    let i = ParsedIntent::Transfer { employee_name: some("李四"), from_department: None, to_department: some("产品部") };
    let (s, _) = start(&i, 1, 0);
    let (s, _) = step(s, ExecEvent::Employees(Ok(vec![emp(11, "李四", Some((8, "销售部")))])));
    let (s, a) = step(s, ExecEvent::Departments(Ok(vec![dept(6, "产品部")])));
    match &a {
        ExecAction::RemoveEmployeeFromDepartment { employee_id, department_id } => {
            assert_eq!((*employee_id, *department_id), (11, 8));
        }
        other => panic!("{other:?}"),
    }
    let (s, _) = step(s, ExecEvent::Removed);
    let r = finished(step(s, ExecEvent::Added(Err(ApiError::Json("bad".to_string())))));
    assert_eq!(r, (false, "❌ 调岗失败：李四 → 产品部".to_string(), some("错误: JSON 解析失败: bad")));
}

#[test]
fn transfer_without_known_source() {
    let i = ParsedIntent::Transfer { employee_name: some("王五"), from_department: None, to_department: some("产品部") };
    let (s, _) = start(&i, 1, 0);
    let (s, _) = step(s, ExecEvent::Employees(Ok(vec![emp(12, "王五", None)])));
    let (s, a) = step(s, ExecEvent::Departments(Ok(vec![dept(6, "产品部")])));
    assert!(matches!(a, ExecAction::AddEmployeeToDepartment { .. }));
    let r = finished(step(s, ExecEvent::Added(Ok(3))));
    assert_eq!(r.1, "✅ 已将 王五 从「原部门」调到「产品部」");
}

#[test]
fn transfer_source_not_found_still_adds() {
    let i = ParsedIntent::Transfer { employee_name: some("张三"), from_department: some("市场部"), to_department: some("产品部") };
    let (s, _) = start(&i, 1, 0);
    let (s, _) = step(s, ExecEvent::Employees(Ok(vec![emp(10, "张三", None)])));
    let (s, _) = step(s, ExecEvent::Departments(Ok(vec![dept(6, "产品部")])));
    let (_, a) = step(s, ExecEvent::Departments(Err(ApiError::Unauthorized)));
    assert!(matches!(a, ExecAction::AddEmployeeToDepartment { .. }));
}

#[test]
fn transfer_errors() {
    let none = ParsedIntent::Transfer { employee_name: None, from_department: None, to_department: some("产品部") };
    assert_eq!(finished(start(&none, 1, 0)), (false, "缺少员工姓名".to_string(), None));
    let no_to = ParsedIntent::Transfer { employee_name: some("张三"), from_department: None, to_department: some("") };
    assert_eq!(finished(start(&no_to, 1, 0)), (false, "缺少目标部门名称".to_string(), None));
    let i = ParsedIntent::Transfer { employee_name: some("张三"), from_department: None, to_department: some("产品部") };
    let (s, _) = start(&i, 1, 0);
    let r = finished(step(s, ExecEvent::Employees(Ok(vec![emp(9, "张三丰", None)]))));
    assert_eq!(r, (false, "找不到员工「张三」".to_string(), some("请确认员工姓名是否正确")));
    let (s, _) = start(&i, 1, 0);
    let r = finished(step(
        s,
        ExecEvent::Employees(Err(ApiError::Server { status: 500, message: "boom".to_string() })),
    ));
    assert_eq!(r, (false, "查询员工失败: 服务端错误 (500): boom".to_string(), None));
    let (s, _) = start(&i, 1, 0);
    let (s, _) = step(s, ExecEvent::Employees(Ok(vec![emp(9, "张三", None)])));
    let r = finished(step(s, ExecEvent::Departments(Ok(vec![]))));
    assert_eq!(r, (false, "找不到目标部门「产品部」".to_string(), some("请确认部门名称是否正确")));
}

#[test]
fn lookups_find_exact_names_first_match() {
    let list = vec![dept(1, "市场"), dept(2, "市场部"), dept(3, "市场部")];
    assert_eq!(find_department_by_name(&list, "市场部"), Some(1));
    assert_eq!(find_department_by_name(&list, "研发部"), None);
    let es = vec![emp(1, "张三", None)];
    assert_eq!(find_employee_by_name(&es, "张三"), Some(0));
    assert_eq!(find_employee_by_name(&es, "张"), None);
}

#[test]
fn answers_must_fit_the_state() {
    let i = ParsedIntent::Transfer { employee_name: some("张三"), from_department: None, to_department: some("产品部") };
    let (s, _) = start(&i, 1, 0);
    assert!(event_fits_state(&s, &ExecEvent::Employees(Ok(vec![]))));
    assert!(!event_fits_state(&s, &ExecEvent::Removed));
    let (f, _) = start(&ParsedIntent::Cancel, 1, 0);
    assert!(!event_fits_state(&f, &ExecEvent::Removed));
}
