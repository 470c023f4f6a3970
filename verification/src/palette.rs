//! The command palette: which commands a query shows, how they are
//! grouped, and how the highlighted entry moves.
use vstd::prelude::*;
use crate::module::{ActionView, Command, CommandAction, CommandCategory, CommandView, commands_view};
use crate::num::{decimal, decimal_u64};
use crate::text::{append_chars, append_str, chars_of, contains, contains_chars, string_of};

verus! {

broadcast use vstd::string::group_string_axioms;

/// The text in lower case, as `str::to_lowercase` gives it.
pub uninterp spec fn lowercase(s: Seq<char>) -> Seq<char>;

/// Lower-cases text with `str::to_lowercase` (Unicode rules); the result
/// is named `lowercase` of the text and nothing more is claimed of it.
#[verifier::external_body]
pub(crate) fn to_lower(s: &str) -> (r: String)
    ensures
        r@ == lowercase(s@),
{
    s.to_lowercase()
}

/// Whether a command matches the lower-cased query `q`: its name or its
/// description, lower-cased, holds `q`.
pub open spec fn command_matches(c: CommandView, q: Seq<char>) -> bool {
    contains(lowercase(c.name), q) || contains(lowercase(c.description), q)
}

/// The first `n` commands of `cs` that match `q`, in order.
pub open spec fn matching(cs: Seq<CommandView>, q: Seq<char>, n: int) -> Seq<CommandView>
    decreases n,
{
    if n <= 0 {
        Seq::empty()
    } else {
        let rest = matching(cs, q, n - 1);
        if command_matches(cs[n - 1], q) {
            rest.push(cs[n - 1])
        } else {
            rest
        }
    }
}

/// The commands a query shows: all of them for an empty query, else those
/// whose name or description holds the query, ignoring case.
pub open spec fn shown_commands(cs: Seq<CommandView>, query: Seq<char>) -> Seq<CommandView> {
    let q = lowercase(query);
    if q.len() == 0 {
        cs
    } else {
        matching(cs, q, cs.len() as int)
    }
}

/// The first `n` commands of `cs` in group `cat`, in order.
pub open spec fn in_group(cs: Seq<CommandView>, cat: CommandCategory, n: int) -> Seq<CommandView>
    decreases n,
{
    if n <= 0 {
        Seq::empty()
    } else {
        let rest = in_group(cs, cat, n - 1);
        if cs[n - 1].category == cat {
            rest.push(cs[n - 1])
        } else {
            rest
        }
    }
}

/// A copy of a command.
pub fn copy_command(c: &Command) -> (r: Command)
    ensures
        r@ == c@,
{
    Command {
        name: c.name.clone(),
        description: c.description.clone(),
        icon: c.icon.clone(),
        category: c.category,
        action: match &c.action {
            CommandAction::Navigate(p) => CommandAction::Navigate(p.clone()),
            CommandAction::OpenPanel(p) => CommandAction::OpenPanel(p.clone()),
        },
    }
}

/// The commands the query `query` shows: all of them for an empty query,
/// else those whose name or description holds the query, ignoring case.
pub fn filter_commands(commands: &Vec<Command>, query: &str) -> (r: Vec<Command>)
    ensures
        commands_view(r@) == shown_commands(commands_view(commands@), query@),
{
    let ghost cs = commands_view(commands@);
    let ql = to_lower(query);
    let q = chars_of(ql.as_str());
    let mut r: Vec<Command> = Vec::new();
    let mut i: usize = 0;
    while i < commands.len()
        invariant
            i <= commands.len(),
            cs == commands_view(commands@),
            q@ == lowercase(query@),
            commands_view(r@) == (if q@.len() == 0 {
                cs.take(i as int)
            } else {
                matching(cs, q@, i as int)
            }),
        decreases commands.len() - i,
    {
        let c = &commands[i];
        let keep = if q.len() == 0 {
            true
        } else {
            let n = chars_of(to_lower(c.name.as_str()).as_str());
            let d = chars_of(to_lower(c.description.as_str()).as_str());
            contains_chars(&n, &q) || contains_chars(&d, &q)
        };
        let ghost r0 = r@;
        if keep {
            let k = copy_command(c);
            r.push(k);
            assert(commands_view(r@) =~= commands_view(r0).push(c@));
        }
        assert(cs.take(i + 1) =~= cs.take(i as int).push(cs[i as int]));
        i = i + 1;
    }
    assert(cs.take(commands.len() as int) =~= cs);
    r
}

/// The commands of `commands` in group `category`, in order.
pub fn commands_in(commands: &Vec<Command>, category: CommandCategory) -> (r: Vec<Command>)
    ensures
        commands_view(r@) == in_group(commands_view(commands@), category, commands.len() as int),
{
    let ghost cs = commands_view(commands@);
    let mut r: Vec<Command> = Vec::new();
    let mut i: usize = 0;
    while i < commands.len()
        invariant
            i <= commands.len(),
            cs == commands_view(commands@),
            commands_view(r@) == in_group(cs, category, i as int),
        decreases commands.len() - i,
    {
        let c = &commands[i];
        if c.category == category {
            let ghost r0 = r@;
            let k = copy_command(c);
            r.push(k);
            assert(commands_view(r@) =~= commands_view(r0).push(c@));
        }
        i = i + 1;
    }
    r
}

/// The entry highlighted after the down key, among `total` entries: the
/// next one, or the same at the end.
pub fn select_down(current: usize, total: usize) -> (r: usize)
    ensures
        r == (if current + 1 < total {
            current + 1
        } else {
            current as int
        }),
{
    if total > 0 && current < total - 1 {
        current + 1
    } else {
        current
    }
}

/// The entry highlighted after the up key: the previous one, or the same
/// at the top.
pub fn select_up(current: usize) -> (r: usize)
    ensures
        r == (if current > 0 {
            current - 1
        } else {
            current as int
        }),
{
    if current > 0 {
        current - 1
    } else {
        current
    }
}

/// The route a highlighted command leads to, when it is a navigation.
pub open spec fn route_of(c: CommandView) -> Option<Seq<char>> {
    match c.action {
        ActionView::Navigate(p) => Some(p),
        ActionView::OpenPanel(_) => None,
    }
}


/// What Enter on an empty query does with the highlighted entry
/// `selected` of the shown commands: `None` when there is no such entry
/// (nothing happens); otherwise the palette closes, going to the route of
/// a navigation command (`Some(Some(route))`) or nowhere (`Some(None)`).
pub fn choose_command(shown: &Vec<Command>, selected: usize) -> (r: Option<Option<String>>)
    ensures
        selected >= shown.len() ==> r is None,
        selected < shown.len() ==> (r matches Some(route) && route.deep_view() == route_of(
            shown@[selected as int]@,
        )),
{
    if selected >= shown.len() {
        return None;
    }
    match &shown[selected].action {
        CommandAction::Navigate(p) => Some(Some(p.clone())),
        CommandAction::OpenPanel(_) => Some(None),
    }
}


/// The line under the preview of a parsed sentence: how many fields are
/// still missing, or that Enter confirms.
pub open spec fn hint_footer_text(missing: nat) -> Seq<char> {
    if missing > 0 {
        "按 Enter 继续（"@ + decimal(missing) + " 个参数待补充，AI 将辅助补全）"@
    } else {
        "按 Enter 确认执行"@
    }
}

/// The line under the preview of a parsed sentence with `missing` fields
/// still missing.
pub fn hint_footer(missing: usize) -> (r: String)
    ensures
        r@ == hint_footer_text(missing as nat),
{
    if missing > 0 {
        let mut v = chars_of("按 Enter 继续（");
        let d = decimal_u64(missing as u64);
        append_chars(&mut v, &d);
        append_str(&mut v, " 个参数待补充，AI 将辅助补全）");
        string_of(&v)
    } else {
        string_of(&chars_of("按 Enter 确认执行"))
    }
}

} // verus!
