//! Console modules: what each business module registers with the console
//! (navigation items, palette commands and cockpit cards).
use vstd::prelude::*;
use crate::text::owned;

verus! {

broadcast use vstd::string::group_string_axioms;

/// An item of the side navigation.
#[derive(Clone, Debug, PartialEq)]
pub struct NavItem {
    /// Text shown.
    pub label: String,
    /// Route path (such as "/team/employees").
    pub path: String,
    /// Icon.
    pub icon: String,
    /// Badge number, such as an unread count.
    pub badge: Option<u32>,
}

/// The mathematical value of a navigation item.
pub struct NavItemView {
    pub label: Seq<char>,
    pub path: Seq<char>,
    pub icon: Seq<char>,
    pub badge: Option<u32>,
}

impl View for NavItem {
    type V = NavItemView;

    open spec fn view(&self) -> NavItemView {
        NavItemView { label: self.label@, path: self.path@, icon: self.icon@, badge: self.badge }
    }
}

/// The values of a list of navigation items.
pub open spec fn nav_view(v: Seq<NavItem>) -> Seq<NavItemView> {
    v.map_values(|n: NavItem| n@)
}

/// A command of the command palette.
#[derive(Clone, Debug, PartialEq)]
pub struct Command {
    /// Name (matched by the palette's search).
    pub name: String,
    /// Description.
    pub description: String,
    /// Icon.
    pub icon: String,
    /// Group.
    pub category: CommandCategory,
    /// What the command does.
    pub action: CommandAction,
}

/// The group of a command.
#[derive(Clone, Copy, Debug, PartialEq, Eq, Structural)]
pub enum CommandCategory {
    /// Page navigation.
    Navigation,
    /// Creating or editing.
    Action,
    /// Search.
    Search,
}

/// The label of a command group.
pub open spec fn category_label(c: CommandCategory) -> Seq<char> {
    match c {
        CommandCategory::Navigation => "导航"@,
        CommandCategory::Action => "操作"@,
        CommandCategory::Search => "搜索"@,
    }
}

impl CommandCategory {
    /// The label of this group.
    pub fn label(&self) -> (r: &'static str)
        ensures
            r@ == category_label(*self),
    {
        match self {
            CommandCategory::Navigation => "导航",
            CommandCategory::Action => "操作",
            CommandCategory::Search => "搜索",
        }
    }
}

/// What a command does.
#[derive(Clone, Debug, PartialEq)]
pub enum CommandAction {
    /// Go to a route path.
    Navigate(String),
    /// Open a side panel by its identifier.
    OpenPanel(String),
}

/// The mathematical value of a command action.
pub enum ActionView {
    Navigate(Seq<char>),
    OpenPanel(Seq<char>),
}

/// The mathematical value of a command.
pub struct CommandView {
    pub name: Seq<char>,
    pub description: Seq<char>,
    pub icon: Seq<char>,
    pub category: CommandCategory,
    pub action: ActionView,
}

impl View for Command {
    type V = CommandView;

    open spec fn view(&self) -> CommandView {
        CommandView {
            name: self.name@,
            description: self.description@,
            icon: self.icon@,
            category: self.category,
            action: match self.action {
                CommandAction::Navigate(p) => ActionView::Navigate(p@),
                CommandAction::OpenPanel(p) => ActionView::OpenPanel(p@),
            },
        }
    }
}

/// The values of a list of commands.
pub open spec fn commands_view(v: Seq<Command>) -> Seq<CommandView> {
    v.map_values(|c: Command| c@)
}

/// A summary card of the cockpit page.
#[derive(Clone, Debug, PartialEq)]
pub struct CockpitCard {
    /// Title.
    pub title: String,
    /// Value (such as "368").
    pub value: String,
    /// Trend text (such as "△12 本周").
    pub trend: Option<String>,
    /// Whether the trend is good news.
    pub trend_positive: bool,
    /// The route the card links to.
    pub link: Option<String>,
}

/// The mathematical value of a card.
pub struct CardView {
    pub title: Seq<char>,
    pub value: Seq<char>,
    pub trend: Option<Seq<char>>,
    pub trend_positive: bool,
    pub link: Option<Seq<char>>,
}

impl View for CockpitCard {
    type V = CardView;

    open spec fn view(&self) -> CardView {
        CardView {
            title: self.title@,
            value: self.value@,
            trend: self.trend.deep_view(),
            trend_positive: self.trend_positive,
            link: self.link.deep_view(),
        }
    }
}

/// The values of a list of cards.
pub open spec fn cards_view(v: Seq<CockpitCard>) -> Seq<CardView> {
    v.map_values(|c: CockpitCard| c@)
}

/// A business module of the console (the team service, storage, content
/// and so on); each registers its navigation, commands and cards.
pub trait ConsoleModule {
    /// The module's identifier.
    spec fn spec_id(&self) -> Seq<char>;

    /// The module's name.
    spec fn spec_name(&self) -> Seq<char>;

    /// The module's icon.
    spec fn spec_icon(&self) -> Seq<char>;

    /// The module's description.
    spec fn spec_description(&self) -> Seq<char>;

    /// The module's navigation items.
    spec fn spec_nav_items(&self) -> Seq<NavItemView>;

    /// The module's commands.
    spec fn spec_commands(&self) -> Seq<CommandView>;

    /// The module's cockpit cards.
    spec fn spec_cockpit_cards(&self) -> Seq<CardView>;

    /// The module's identifier (such as "team").
    fn id(&self) -> (r: &'static str)
        ensures
            r@ == self.spec_id(),
    ;

    /// The module's name.
    fn name(&self) -> (r: &'static str)
        ensures
            r@ == self.spec_name(),
    ;

    /// The module's icon.
    fn icon(&self) -> (r: &'static str)
        ensures
            r@ == self.spec_icon(),
    ;

    /// The module's description.
    fn description(&self) -> (r: &'static str)
        ensures
            r@ == self.spec_description(),
    ;

    /// The items the module adds to the side navigation.
    fn nav_items(&self) -> (r: Vec<NavItem>)
        ensures
            nav_view(r@) == self.spec_nav_items(),
    ;

    /// The commands the module adds to the command palette.
    fn commands(&self) -> (r: Vec<Command>)
        ensures
            commands_view(r@) == self.spec_commands(),
    ;

    /// The cards the module shows on the cockpit page.
    fn cockpit_cards(&self) -> (r: Vec<CockpitCard>)
        ensures
            cards_view(r@) == self.spec_cockpit_cards(),
    ;
}

/// An owned copy of a list of navigation items.
pub fn copy_nav_items(v: &Vec<NavItem>) -> (r: Vec<NavItem>)
    ensures
        nav_view(r@) == nav_view(v@),
{
    let mut r: Vec<NavItem> = Vec::new();
    let mut i: usize = 0;
    while i < v.len()
        invariant
            i <= v.len(),
            nav_view(r@) == nav_view(v@).take(i as int),
        decreases v.len() - i,
    {
        let n = NavItem {
            label: v[i].label.clone(),
            path: v[i].path.clone(),
            icon: v[i].icon.clone(),
            badge: v[i].badge,
        };
        assert(n@ == v@[i as int]@);
        let ghost r0 = r@;
        r.push(n);
        assert(nav_view(r@) =~= nav_view(r0).push(n@));
        assert(nav_view(v@).take(i + 1) =~= nav_view(v@).take(i as int).push(v@[i as int]@));
        i = i + 1;
    }
    assert(nav_view(v@).take(v.len() as int) =~= nav_view(v@));
    r
}

} // verus!
