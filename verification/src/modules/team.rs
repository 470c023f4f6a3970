//! The team module: organisations, departments, employees, positions and
//! the contact directory.
use vstd::prelude::*;
use crate::module::{
    ActionView, CardView, CockpitCard, Command, CommandAction, CommandCategory, CommandView,
    ConsoleModule, NavItem, NavItemView, cards_view, commands_view, nav_view,
};
use crate::text::owned;

verus! {

broadcast use vstd::string::group_string_axioms;

/// The team module.
pub struct TeamModule;

/// A navigation item from text.
pub open spec fn nav(label: Seq<char>, path: Seq<char>, icon: Seq<char>, badge: Option<u32>) -> NavItemView {
    NavItemView { label, path, icon, badge }
}

/// A command from text.
pub open spec fn cmd(
    name: Seq<char>,
    description: Seq<char>,
    icon: Seq<char>,
    category: CommandCategory,
    action: ActionView,
) -> CommandView {
    CommandView { name, description, icon, category, action }
}

/// A card from text.
pub open spec fn card(
    title: Seq<char>,
    value: Seq<char>,
    trend: Option<Seq<char>>,
    trend_positive: bool,
    link: Option<Seq<char>>,
) -> CardView {
    CardView { title, value, trend, trend_positive, link }
}

/// The team module's navigation items.
pub open spec fn team_nav() -> Seq<NavItemView> {
    seq![
        nav("组织"@, "/team/orgs"@, "🏢"@, None),
        nav("部门"@, "/team/depts"@, "📂"@, None),
        nav("员工"@, "/team/employees"@, "👤"@, Some(3)),
        nav("岗位"@, "/team/positions"@, "💼"@, None),
        nav("通讯录"@, "/team/contacts"@, "📖"@, None),
    ]
}

/// The team module's commands.
pub open spec fn team_commands() -> Seq<CommandView> {
    seq![
        cmd("打开组织管理"@, "查看组织列表"@, "building"@, CommandCategory::Navigation, ActionView::Navigate("/team/orgs"@)),
        cmd("打开部门管理"@, "查看部门树"@, "folder-tree"@, CommandCategory::Navigation, ActionView::Navigate("/team/depts"@)),
        cmd("打开员工管理"@, "浏览员工列表"@, "users"@, CommandCategory::Navigation, ActionView::Navigate("/team/employees"@)),
        cmd("打开岗位管理"@, "管理岗位体系"@, "briefcase"@, CommandCategory::Navigation, ActionView::Navigate("/team/positions"@)),
        cmd("打开通讯录"@, "搜索和浏览联系人"@, "book-user"@, CommandCategory::Navigation, ActionView::Navigate("/team/contacts"@)),
        cmd("创建员工"@, "新增一名员工"@, "user-plus"@, CommandCategory::Action, ActionView::OpenPanel("create-employee"@)),
        cmd("创建部门"@, "新增一个部门"@, "folder-plus"@, CommandCategory::Action, ActionView::OpenPanel("create-department"@)),
    ]
}

/// The team module's cockpit cards (fixed figures).
pub open spec fn team_cards() -> Seq<CardView> {
    seq![
        card("在职员工"@, "368"@, Some("△12 本周"@), true, Some("/team/employees"@)),
        card("部门数量"@, "24"@, Some("△1 本月"@), true, Some("/team/depts"@)),
        card("岗位数量"@, "42"@, None, true, Some("/team/positions"@)),
        card("本月入职"@, "8"@, Some("▽3 vs 上月"@), false, None),
    ]
}

fn nav_item(label: &str, path: &str, icon: &str, badge: Option<u32>) -> (r: NavItem)
    ensures
        r@ == nav(label@, path@, icon@, badge),
{
    NavItem { label: owned(label), path: owned(path), icon: owned(icon), badge }
}

fn navigate(name: &str, description: &str, icon: &str, path: &str) -> (r: Command)
    ensures
        r@ == cmd(name@, description@, icon@, CommandCategory::Navigation, ActionView::Navigate(path@)),
{
    Command {
        name: owned(name),
        description: owned(description),
        icon: owned(icon),
        category: CommandCategory::Navigation,
        action: CommandAction::Navigate(owned(path)),
    }
}

fn open_panel(name: &str, description: &str, icon: &str, panel: &str) -> (r: Command)
    ensures
        r@ == cmd(name@, description@, icon@, CommandCategory::Action, ActionView::OpenPanel(panel@)),
{
    Command {
        name: owned(name),
        description: owned(description),
        icon: owned(icon),
        category: CommandCategory::Action,
        action: CommandAction::OpenPanel(owned(panel)),
    }
}

fn opt_owned(s: Option<&str>) -> (r: Option<String>)
    ensures
        r.deep_view() == match s {
            Some(t) => Some(t@),
            None => None::<Seq<char>>,
        },
{
    match s {
        Some(t) => Some(owned(t)),
        None => None,
    }
}

fn cockpit_card(title: &str, value: &str, trend: Option<&str>, trend_positive: bool, link: Option<&str>) -> (r: CockpitCard)
    ensures
        r@ == card(
            title@,
            value@,
            match trend {
                Some(t) => Some(t@),
                None => None,
            },
            trend_positive,
            match link {
                Some(t) => Some(t@),
                None => None,
            },
        ),
{
    CockpitCard {
        title: owned(title),
        value: owned(value),
        trend: opt_owned(trend),
        trend_positive,
        link: opt_owned(link),
    }
}

impl ConsoleModule for TeamModule {
    open spec fn spec_id(&self) -> Seq<char> {
        "team"@
    }

    open spec fn spec_name(&self) -> Seq<char> {
        "组织管理"@
    }

    open spec fn spec_icon(&self) -> Seq<char> {
        "building-2"@
    }

    open spec fn spec_description(&self) -> Seq<char> {
        "组织架构、部门管理、员工管理、岗位体系"@
    }

    open spec fn spec_nav_items(&self) -> Seq<NavItemView> {
        team_nav()
    }

    open spec fn spec_commands(&self) -> Seq<CommandView> {
        team_commands()
    }

    open spec fn spec_cockpit_cards(&self) -> Seq<CardView> {
        team_cards()
    }

    fn id(&self) -> (r: &'static str) {
        "team"
    }

    fn name(&self) -> (r: &'static str) {
        "组织管理"
    }

    fn icon(&self) -> (r: &'static str) {
        "building-2"
    }

    fn description(&self) -> (r: &'static str) {
        "组织架构、部门管理、员工管理、岗位体系"
    }

    fn nav_items(&self) -> (r: Vec<NavItem>) {
        let mut v: Vec<NavItem> = Vec::new();
        v.push(nav_item("组织", "/team/orgs", "🏢", None));
        v.push(nav_item("部门", "/team/depts", "📂", None));
        v.push(nav_item("员工", "/team/employees", "👤", Some(3)));
        v.push(nav_item("岗位", "/team/positions", "💼", None));
        v.push(nav_item("通讯录", "/team/contacts", "📖", None));
        assert(nav_view(v@) =~= team_nav());
        v
    }

    fn commands(&self) -> (r: Vec<Command>) {
        let mut v: Vec<Command> = Vec::new();
        v.push(navigate("打开组织管理", "查看组织列表", "building", "/team/orgs"));
        v.push(navigate("打开部门管理", "查看部门树", "folder-tree", "/team/depts"));
        v.push(navigate("打开员工管理", "浏览员工列表", "users", "/team/employees"));
        v.push(navigate("打开岗位管理", "管理岗位体系", "briefcase", "/team/positions"));
        v.push(navigate("打开通讯录", "搜索和浏览联系人", "book-user", "/team/contacts"));
        v.push(open_panel("创建员工", "新增一名员工", "user-plus", "create-employee"));
        v.push(open_panel("创建部门", "新增一个部门", "folder-plus", "create-department"));
        assert(commands_view(v@) =~= team_commands());
        v
    }

    fn cockpit_cards(&self) -> (r: Vec<CockpitCard>) {
        let mut v: Vec<CockpitCard> = Vec::new();
        v.push(cockpit_card("在职员工", "368", Some("△12 本周"), true, Some("/team/employees")));
        v.push(cockpit_card("部门数量", "24", Some("△1 本月"), true, Some("/team/depts")));
        v.push(cockpit_card("岗位数量", "42", None, true, Some("/team/positions")));
        v.push(cockpit_card("本月入职", "8", Some("▽3 vs 上月"), false, None));
        assert(cards_view(v@) =~= team_cards());
        v
    }
}

} // verus!
