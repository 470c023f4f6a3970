//! The module registry: what all console modules registered, gathered once
//! at start-up and read by the layout and the command palette.
use vstd::prelude::*;
use crate::module::{
    CardView, CockpitCard, Command, CommandView, ConsoleModule, NavItem, NavItemView, cards_view,
    commands_view, copy_nav_items, nav_view,
};
use crate::text::{chars_of, equals_str, owned};

verus! {

broadcast use vstd::string::group_string_axioms;

/// A module's identity.
#[derive(Clone, Debug, PartialEq)]
pub struct ModuleInfo {
    pub id: &'static str,
    pub name: &'static str,
    pub icon: &'static str,
    pub description: &'static str,
}

/// The registrations of all modules.
#[derive(Clone, Debug, PartialEq)]
pub struct RegistryData {
    /// Each module's identity.
    pub modules: Vec<ModuleInfo>,
    /// Navigation items grouped by module: (module id, items).
    pub nav_groups: Vec<(String, Vec<NavItem>)>,
    /// All commands, module by module.
    pub commands: Vec<Command>,
    /// All cockpit cards, module by module.
    pub cockpit_cards: Vec<CockpitCard>,
}

/// The values of the navigation groups.
pub open spec fn groups_view(g: Seq<(String, Vec<NavItem>)>) -> Seq<(Seq<char>, Seq<NavItemView>)> {
    g.map_values(|p: (String, Vec<NavItem>)| (p.0@, nav_view(p.1@)))
}

/// The items of the first group at or after `i` whose module is `id`
/// (none when there is no such group).
pub open spec fn nav_lookup_from(g: Seq<(Seq<char>, Seq<NavItemView>)>, id: Seq<char>, i: int) -> Seq<
    NavItemView,
>
    decreases g.len() - i,
{
    if i < 0 || i >= g.len() {
        Seq::empty()
    } else if g[i].0 == id {
        g[i].1
    } else {
        nav_lookup_from(g, id, i + 1)
    }
}

/// The commands of all modules, in module order.
pub open spec fn all_commands(ms: Seq<Box<dyn ConsoleModule>>) -> Seq<CommandView>
    decreases ms.len(),
{
    if ms.len() == 0 {
        Seq::empty()
    } else {
        all_commands(ms.drop_last()) + ms.last().spec_commands()
    }
}

/// The cards of all modules, in module order.
pub open spec fn all_cards(ms: Seq<Box<dyn ConsoleModule>>) -> Seq<CardView>
    decreases ms.len(),
{
    if ms.len() == 0 {
        Seq::empty()
    } else {
        all_cards(ms.drop_last()) + ms.last().spec_cockpit_cards()
    }
}

/// The navigation groups a registry builds from modules `ms`.
pub open spec fn module_groups(ms: Seq<Box<dyn ConsoleModule>>) -> Seq<(Seq<char>, Seq<NavItemView>)> {
    ms.map_values(|m: Box<dyn ConsoleModule>| (m.spec_id(), m.spec_nav_items()))
}

/// A lookup from `i` reaches the first group with the identifier.
proof fn lemma_nav_lookup_reaches(g: Seq<(Seq<char>, Seq<NavItemView>)>, id: Seq<char>, i: int, j: int)
    requires
        0 <= i <= j < g.len(),
        g[j].0 == id,
        forall|k: int| i <= k < j ==> (#[trigger] g[k]).0 != id,
    ensures
        nav_lookup_from(g, id, i) == g[j].1,
    decreases j - i,
{
    if i < j {
        lemma_nav_lookup_reaches(g, id, i + 1, j);
    }
}

/// The registry gives back what each module registered: with distinct
/// module identifiers, the navigation items looked up for a module are
/// the items it registered.
pub proof fn law_registry_gives_back_nav_items(ms: Seq<Box<dyn ConsoleModule>>, j: int)
    requires
        0 <= j < ms.len(),
        forall|a: int, b: int| 0 <= a < b < ms.len() ==> ms[a].spec_id() != ms[b].spec_id(),
    ensures
        nav_lookup_from(module_groups(ms), ms[j].spec_id(), 0) == ms[j].spec_nav_items(),
{
    let g = module_groups(ms);
    assert forall|k: int| 0 <= k < j implies (#[trigger] g[k]).0 != ms[j].spec_id() by {
        assert(g[k].0 == ms[k].spec_id());
    }
    lemma_nav_lookup_reaches(g, ms[j].spec_id(), 0, j);
}

impl RegistryData {
    /// The navigation items of module `module_id`; empty when it registered none.
    pub fn nav_items_for(&self, module_id: &str) -> (r: Vec<NavItem>)
        ensures
            nav_view(r@) == nav_lookup_from(groups_view(self.nav_groups@), module_id@, 0),
    {
        let ghost g = groups_view(self.nav_groups@);
        let mut i: usize = 0;
        while i < self.nav_groups.len()
            invariant
                i <= self.nav_groups.len(),
                g == groups_view(self.nav_groups@),
                nav_lookup_from(g, module_id@, 0) == nav_lookup_from(g, module_id@, i as int),
            decreases self.nav_groups.len() - i,
        {
            let gid = chars_of(self.nav_groups[i].0.as_str());
            if equals_str(&gid, module_id) {
                return copy_nav_items(&self.nav_groups[i].1);
            }
            i = i + 1;
        }
        let r: Vec<NavItem> = Vec::new();
        assert(nav_view(r@) =~= Seq::<NavItemView>::empty());
        r
    }
}

/// The registrations of `modules`, module by module.
pub fn build_registry(modules: Vec<Box<dyn ConsoleModule>>) -> (r: RegistryData)
    ensures
        r.modules.len() == modules.len(),
        forall|i: int|
            0 <= i < modules.len() ==> {
                &&& (#[trigger] r.modules[i]).id@ == modules[i].spec_id()
                &&& r.modules[i].name@ == modules[i].spec_name()
                &&& r.modules[i].icon@ == modules[i].spec_icon()
                &&& r.modules[i].description@ == modules[i].spec_description()
            },
        groups_view(r.nav_groups@) == module_groups(modules@),
        commands_view(r.commands@) == all_commands(modules@),
        cards_view(r.cockpit_cards@) == all_cards(modules@),
{
    let mut infos: Vec<ModuleInfo> = Vec::new();
    let mut groups: Vec<(String, Vec<NavItem>)> = Vec::new();
    let mut commands: Vec<Command> = Vec::new();
    let mut cards: Vec<CockpitCard> = Vec::new();
    let ghost ms = modules@;
    let mut i: usize = 0;
    assert(commands_view(commands@) =~= all_commands(ms.take(0)));
    assert(cards_view(cards@) =~= all_cards(ms.take(0)));
    while i < modules.len()
        invariant
            i <= modules.len(),
            ms == modules@,
            infos.len() == i,
            forall|k: int|
                0 <= k < i ==> {
                    &&& (#[trigger] infos[k]).id@ == ms[k].spec_id()
                    &&& infos[k].name@ == ms[k].spec_name()
                    &&& infos[k].icon@ == ms[k].spec_icon()
                    &&& infos[k].description@ == ms[k].spec_description()
                },
            groups_view(groups@) == ms.take(i as int).map_values(
                |m: Box<dyn ConsoleModule>| (m.spec_id(), m.spec_nav_items()),
            ),
            commands_view(commands@) == all_commands(ms.take(i as int)),
            cards_view(cards@) == all_cards(ms.take(i as int)),
        decreases modules.len() - i,
    {
        let m = &modules[i];
        infos.push(ModuleInfo { id: m.id(), name: m.name(), icon: m.icon(), description: m.description() });
        let ghost g0 = groups@;
        groups.push((owned(m.id()), m.nav_items()));
        assert(groups_view(groups@) =~= groups_view(g0).push((ms[i as int].spec_id(), ms[i as int].spec_nav_items())));
        assert(ms.take(i + 1).drop_last() =~= ms.take(i as int));
        assert(ms.take(i + 1).map_values(|m: Box<dyn ConsoleModule>| (m.spec_id(), m.spec_nav_items()))
            =~= ms.take(i as int).map_values(|m: Box<dyn ConsoleModule>| (m.spec_id(), m.spec_nav_items())).push(
            (ms[i as int].spec_id(), ms[i as int].spec_nav_items())));
        let mut mc = m.commands();
        let ghost c0 = commands_view(commands@);
        let ghost mcv = commands_view(mc@);
        commands.append(&mut mc);
        assert(commands_view(commands@) =~= c0 + mcv);
        let mut mk = m.cockpit_cards();
        let ghost k0 = cards_view(cards@);
        let ghost mkv = cards_view(mk@);
        cards.append(&mut mk);
        assert(cards_view(cards@) =~= k0 + mkv);
        i = i + 1;
    }
    assert(ms.take(modules.len() as int) =~= ms);
    RegistryData { modules: infos, nav_groups: groups, commands, cockpit_cards: cards }
}

} // verus!
