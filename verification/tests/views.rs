use console::cockpit::{greeting_for, live_cards, pulse_vitality, ActivityType, PendingType};
use console::layout::{is_active_path, user_badge};
use console::module::{Command, CommandAction, CommandCategory, CockpitCard};
use console::palette::{choose_command, commands_in, filter_commands, select_down, select_up};
use console::people::{Employee, EmployeeStatus};
use console::services::auth::{
    after_login, after_tenant_selected, after_token_refresh, login_form_error, password_login, restored_session,
    session_client, tenant_id_of, tenant_request, AuthStage, LoginResponse, RefreshStep, RefreshTokenResponse,
    SelectTenantResponse, SignInStep, TenantInfo, UserInfo,
};
use console::services::client::{ApiClient, ApiError};
use console::services::employee::EmployeeResponse;
use console::theme::{Theme, ThemeState};

#[test]
fn theme_cycle() {
    assert_eq!(Theme::Jade.as_str(), "jade");
    assert_eq!(Theme::DeepSpace.as_str(), "deep-space");
    assert_eq!(Theme::Obsidian.label(), "黑曜石");
    assert_eq!(Theme::all(), &[Theme::Jade, Theme::DeepSpace, Theme::Obsidian]);
    assert_eq!(Theme::Jade.next().next().next(), Theme::Jade);
    let mut s = ThemeState::new(Theme::Jade);
    s.toggle();
    assert_eq!(s.current(), Theme::DeepSpace);
    assert_eq!(s.data_attr(), "deep-space");
    s.set(Theme::Obsidian);
    s.toggle();
    assert_eq!(s.current(), Theme::Jade);
}

#[test]
fn cockpit_labels() {
    assert_eq!(PendingType::NewEmployee.icon(), "+");
    assert_eq!(PendingType::Approval.icon(), "!");
    assert_eq!(ActivityType::Delete.icon(), "-");
    assert_eq!(ActivityType::Transfer.label(), "调岗");
    assert_eq!(greeting_for(3), "夜深了");
    assert_eq!(greeting_for(6), "Good morning");
    assert_eq!(greeting_for(12), "Good afternoon");
    assert_eq!(greeting_for(22), "Good evening");
    assert_eq!(greeting_for(23), "夜深了");
}

fn card(title: &str, value: &str, trend: Option<&str>) -> CockpitCard {
    CockpitCard {
        title: title.to_string(),
        value: value.to_string(),
        trend: trend.map(|t| t.to_string()),
        trend_positive: true,
        link: None,
    }
}

#[test]
fn live_counts_replace_card_values() {
    let cards = vec![card("在职员工", "368", Some("△12")), card("部门数量", "24", Some("△1")), card("其他", "7", Some("x"))];
    let live = live_cards(&cards, 120, 9);
    assert_eq!(live[0].value, "120");
    assert_eq!(live[0].trend, None);
    assert_eq!(live[1].value, "9");
    assert_eq!(live[1].trend, None);
    assert_eq!(live[2], cards[2]);
    let none = live_cards(&cards, 0, 0);
    assert_eq!(none[0].value, "0");
    assert_eq!(none[0].trend.as_deref(), Some("△12"));
}

#[test]
fn vitality() {
    assert_eq!(pulse_vitality(0), 0);
    assert_eq!(pulse_vitality(5), 60);
    assert_eq!(pulse_vitality(120), 72);
    assert_eq!(pulse_vitality(400), 85);
}

fn response(status: Option<i16>) -> EmployeeResponse {
    EmployeeResponse {
        id: 7,
        org_id: 1,
        user_id: None,
        employee_no: None,
        name: "张三".to_string(),
        avatar: None,
        gender: None,
        mobile: Some("138".to_string()),
        email: None,
        status,
        primary_department_id: None,
        primary_department_name: Some("市场部".to_string()),
        primary_position_id: None,
        primary_position_name: None,
        hire_date: None,
        leave_date: None,
        sort_order: None,
        create_time: None,
        update_time: None,
    }
}

#[test]
fn employee_cards() {
    let e = Employee::from_api(response(Some(2)));
    assert_eq!(e.id, 7);
    assert_eq!(e.position, "未分配职位");
    assert_eq!(e.department, "市场部");
    assert_eq!(e.join_date, "—");
    assert_eq!(e.phone.as_deref(), Some("138"));
    assert_eq!(e.status, EmployeeStatus::Onboarding);
    assert_eq!(Employee::from_api(response(Some(0))).status, EmployeeStatus::Inactive);
    assert_eq!(Employee::from_api(response(Some(9))).status, EmployeeStatus::Active);
    assert_eq!(Employee::from_api(response(None)).status, EmployeeStatus::Active);
    assert_eq!(EmployeeStatus::Active.label(), "在职");
    assert_eq!(EmployeeStatus::Inactive.color(), "var(--ds-text-tertiary)");
}

fn cmd(name: &str, desc: &str, cat: CommandCategory, action: CommandAction) -> Command {
    Command { name: name.to_string(), description: desc.to_string(), icon: String::new(), category: cat, action }
}

#[test]
fn palette_filter_group_and_select() {
    let cs = vec![
        cmd("Employees", "员工列表", CommandCategory::Navigation, CommandAction::Navigate("/team/employees".to_string())),
        cmd("新建部门", "Create a Department", CommandCategory::Action, CommandAction::OpenPanel("dept".to_string())),
        cmd("Search", "find", CommandCategory::Search, CommandAction::OpenPanel("s".to_string())),
    ];
    assert_eq!(filter_commands(&cs, "").len(), 3);
    let f = filter_commands(&cs, "EMPLOY");
    assert_eq!(f.len(), 1);
    assert_eq!(f[0].name, "Employees");
    let f = filter_commands(&cs, "department");
    assert_eq!(f.len(), 1);
    assert_eq!(f[0].name, "新建部门");
    assert!(filter_commands(&cs, "zzz").is_empty());
    assert_eq!(commands_in(&cs, CommandCategory::Navigation).len(), 1);
    assert_eq!(commands_in(&cs, CommandCategory::Action)[0].name, "新建部门");
    assert_eq!(select_down(0, 3), 1);
    assert_eq!(select_down(2, 3), 2);
    assert_eq!(select_down(0, 0), 0);
    assert_eq!(select_up(0), 0);
    assert_eq!(select_up(2), 1);
    assert_eq!(choose_command(&cs, 0), Some(Some("/team/employees".to_string())));
    assert_eq!(choose_command(&cs, 1), Some(None));
    assert_eq!(choose_command(&cs, 3), None);
}

#[test]
fn navigation_highlight_and_badge() {
    assert!(is_active_path("/", "/"));
    assert!(!is_active_path("/", "/team"));
    assert!(is_active_path("/team", "/team/employees"));
    assert!(!is_active_path("/team", "/atlas"));
    let info = Some(UserInfo { id: "1".to_string(), nickname: "alice".to_string(), avatar: None });
    assert_eq!(user_badge(&info), ("A".to_string(), "alice".to_string()));
    let info = Some(UserInfo { id: "1".to_string(), nickname: String::new(), avatar: None });
    assert_eq!(user_badge(&info).0, "U");
    assert_eq!(user_badge(&None), ("?".to_string(), "未知用户".to_string()));
}

fn user() -> UserInfo {
    UserInfo { id: "u1".to_string(), nickname: "Alice".to_string(), avatar: None }
}

fn tenant(id: &str) -> TenantInfo {
    TenantInfo { id: id.to_string(), name: format!("T{id}"), is_owner: None }
}

#[test]
fn sign_in_decisions() {
    assert_eq!(login_form_error("", "p", "c", "i"), Some("请输入用户名和密码"));
    assert_eq!(login_form_error("u", "p", "", "i"), Some("请输入验证码"));
    assert_eq!(login_form_error("u", "p", "c", "i"), None);
    let req = password_login("u".to_string(), "p".to_string(), "cid".to_string(), "1234".to_string());
    assert_eq!(req.captcha.as_deref(), Some("1234"));
    assert_eq!(req.mobile, None);
    let resp = |tenants: Option<Vec<TenantInfo>>| LoginResponse {
        access_token: "a".to_string(),
        refresh_token: "r".to_string(),
        expires_in: 300,
        refresh_expires_in: 3600,
        user_info: user(),
        tenant_list: tenants,
    };
    match after_login(Ok(resp(Some(vec![tenant("1"), tenant("2")])))) {
        SignInStep::ChooseTenant { stage: AuthStage::NeedTenant { temp_token, tenant_list }, refresh_token, .. } => {
            assert_eq!(temp_token, "a");
            assert_eq!(tenant_list.len(), 2);
            assert_eq!(refresh_token, "r");
        }
        other => panic!("{other:?}"),
    }
    assert!(matches!(after_login(Ok(resp(Some(vec![tenant("1")])))), SignInStep::SignedIn { .. }));
    assert!(matches!(after_login(Ok(resp(None))), SignInStep::SignedIn { .. }));
    match after_login(Err(ApiError::Unauthorized)) {
        SignInStep::Failed { message } => assert_eq!(message, "登录失败：未授权，请重新登录"),
        other => panic!("{other:?}"),
    }
    let sel = SelectTenantResponse {
        access_token: "a2".to_string(),
        refresh_token: "r2".to_string(),
        expires_in: 1,
        refresh_expires_in: 1,
        user_info: user(),
    };
    match after_tenant_selected(Ok(sel)) {
        SignInStep::SignedIn { access_token, .. } => assert_eq!(access_token, "a2"),
        other => panic!("{other:?}"),
    }
    match after_tenant_selected(Err(ApiError::Network("x".to_string()))) {
        SignInStep::Failed { message } => assert_eq!(message, "选择组织失败：网络请求失败: x"),
        other => panic!("{other:?}"),
    }
}

#[test]
fn tenant_ids() {
    assert_eq!(tenant_id_of(&tenant("42")), 42);
    assert_eq!(tenant_id_of(&tenant("-7")), -7);
    assert_eq!(tenant_id_of(&tenant("+8")), 8);
    assert_eq!(tenant_id_of(&tenant("abc")), 0);
    assert_eq!(tenant_id_of(&tenant("")), 0);
    assert_eq!(tenant_id_of(&tenant("99999999999999999999")), 0);
    assert_eq!(tenant_request(&tenant("5"), "tmp".to_string()).tenant_id, 5);
}

#[test]
fn token_refresh_and_restore() {
    let mut c = ApiClient::new("http://h".to_string());
    c.set_refresh_token("r0");
    let ok = RefreshTokenResponse { access_token: "a1".to_string(), refresh_token: String::new(), expires_in: 1 };
    match after_token_refresh(&mut c, &AuthStage::Authenticated, Ok(ok)) {
        RefreshStep::Renewed { access_token, refresh_token } => {
            assert_eq!(access_token, "a1");
            assert_eq!(refresh_token, "");
        }
        other => panic!("{other:?}"),
    }
    assert_eq!(c.get_token(), "a1");
    assert_eq!(c.get_refresh_token(), "r0");
    assert!(matches!(
        after_token_refresh(&mut c, &AuthStage::Authenticated, Err(ApiError::Unauthorized)),
        RefreshStep::SignedOut
    ));
    assert!(matches!(
        after_token_refresh(&mut c, &AuthStage::Unauthenticated, Err(ApiError::Unauthorized)),
        RefreshStep::Unchanged
    ));
    let (stage, a, r, u) = restored_session("a".to_string(), String::new(), Some(user()));
    assert_eq!(stage, AuthStage::Unauthenticated);
    assert!(a.is_empty() && r.is_empty() && u.is_none());
    let (stage, a, _, u) = restored_session("a".to_string(), "r".to_string(), Some(user()));
    assert_eq!(stage, AuthStage::Authenticated);
    assert_eq!(a, "a");
    assert_eq!(u.unwrap().nickname, "Alice");
    let c = session_client("http://h", "tok");
    assert_eq!(c.get_token(), "tok");
}

#[test]
fn people_search() {
    let mut a = Employee::from_api(response(Some(1)));
    a.name = "Alice Wang".to_string();
    let mut b = Employee::from_api(response(Some(1)));
    b.name = "李四".to_string();
    b.department = "Design".to_string();
    let all = vec![a, b];
    assert_eq!(console::people::filter_employees(&all, "").len(), 2);
    let f = console::people::filter_employees(&all, "alice");
    assert_eq!(f.len(), 1);
    assert_eq!(f[0].name, "Alice Wang");
    let f = console::people::filter_employees(&all, "DESIGN");
    assert_eq!(f[0].name, "李四");
    assert!(console::people::filter_employees(&all, "zzz").is_empty());
    let f = console::people::filter_employees(&all, "市场");
    assert_eq!(f.len(), 1);
    assert_eq!(f[0].name, "Alice Wang");
}

#[test]
fn pulse_and_hints() {
    let dots = console::cockpit::pulse_dots(72);
    assert_eq!(dots.iter().filter(|d| **d).count(), 7);
    assert!(dots[6] && !dots[7]);
    assert_eq!(console::cockpit::trend_icon(0), "+");
    assert_eq!(console::cockpit::trend_icon(-3), "-");
    assert_eq!(console::palette::hint_footer(2), "按 Enter 继续（2 个参数待补充，AI 将辅助补全）");
    assert_eq!(console::palette::hint_footer(0), "按 Enter 确认执行");
}

#[test]
fn node_panel_texts() {
    let mut n = console::atlas::OrgNode::root(1, "x");
    assert_eq!(console::atlas::node_type_label(n.node_type), "公司");
    assert_eq!(console::atlas::expand_label(&n), "没有下级结构");
    n.add_child(console::atlas::OrgNode::leaf(2, "y", console::atlas::OrgNodeType::Group, Some(1), 3, vec![4, 9, 2]));
    assert_eq!(console::atlas::expand_label(&n), "收起下级结构");
    n.toggle_expanded(1);
    assert_eq!(console::atlas::expand_label(&n), "展开下级结构");
    assert_eq!(console::atlas::history_peak(&n), 1);
    assert_eq!(console::atlas::history_peak(&n.children[0]), 9);
    assert_eq!(console::atlas::history_month(0), "2025.12");
    assert_eq!(console::atlas::history_month(9), "2026.05");
    assert_eq!(console::atlas::timeline_point(Some(9), 6), Some(5));
    assert_eq!(console::atlas::timeline_point(Some(2), 6), Some(2));
    assert_eq!(console::atlas::timeline_point(None, 6), None);
    assert_eq!(console::atlas::timeline_point(Some(3), 0), Some(0));
}

#[test]
fn sample_staff() {
    let staff = console::people::get_mock_employees();
    assert_eq!(staff.len(), 8);
    let ids: Vec<u64> = staff.iter().map(|e| e.id).collect();
    assert_eq!(ids, vec![1, 2, 3, 4, 5, 6, 7, 8]);
    assert_eq!(staff[0].name, "张伟");
    assert_eq!(staff[4].status, EmployeeStatus::Onboarding);
    assert!(staff.iter().all(|e| e.avatar.is_none()));
    let product: Vec<u64> = console::people::filter_employees(&staff, "产品").iter().map(|e| e.id).collect();
    assert_eq!(product, vec![2, 3]);
}
