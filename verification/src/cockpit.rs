//! The cockpit page: pending items, recent activity and the greeting.
use vstd::prelude::*;
use crate::module::{CardView, CockpitCard, cards_view};
use crate::num::{decimal, decimal_u64};
use crate::text::{equals_str, chars_of, string_of};

verus! {

broadcast use vstd::string::group_string_axioms;

/// The kind of a pending item.
#[derive(Clone, Copy, Debug, PartialEq, Eq, Structural)]
pub enum PendingType {
    /// A new employee waits for a department.
    NewEmployee,
    /// A request about a department.
    DepartmentRequest,
    /// A transfer request.
    TransferRequest,
    /// An approval reminder.
    Approval,
}

/// The icon of a pending item's kind.
pub open spec fn pending_icon(t: PendingType) -> Seq<char> {
    match t {
        PendingType::NewEmployee => "+"@,
        PendingType::DepartmentRequest => "?"@,
        PendingType::TransferRequest => "~"@,
        PendingType::Approval => "!"@,
    }
}

impl PendingType {
    /// The icon shown beside the item.
    pub fn icon(&self) -> (r: &'static str)
        ensures
            r@ == pending_icon(*self),
    {
        match self {
            PendingType::NewEmployee => "+",
            PendingType::DepartmentRequest => "?",
            PendingType::TransferRequest => "~",
            PendingType::Approval => "!",
        }
    }
}

/// An item that waits to be handled.
#[derive(Clone, Debug)]
pub struct PendingItem {
    pub id: u64,
    pub kind: PendingType,
    pub title: String,
    pub description: String,
    pub time: String,
}

/// The kind of an activity.
#[derive(Clone, Copy, Debug, PartialEq, Eq, Structural)]
pub enum ActivityType {
    Create,
    Update,
    Delete,
    View,
    Transfer,
}

/// The icon of an activity's kind.
pub open spec fn activity_icon(t: ActivityType) -> Seq<char> {
    match t {
        ActivityType::Create => "+"@,
        ActivityType::Update => "~"@,
        ActivityType::Delete => "-"@,
        ActivityType::View => "*"@,
        ActivityType::Transfer => "~"@,
    }
}

/// The name of an activity's kind.
pub open spec fn activity_label(t: ActivityType) -> Seq<char> {
    match t {
        ActivityType::Create => "创建"@,
        ActivityType::Update => "更新"@,
        ActivityType::Delete => "删除"@,
        ActivityType::View => "查看"@,
        ActivityType::Transfer => "调岗"@,
    }
}

impl ActivityType {
    /// The icon shown beside the activity.
    pub fn icon(&self) -> (r: &'static str)
        ensures
            r@ == activity_icon(*self),
    {
        match self {
            ActivityType::Create => "+",
            ActivityType::Update => "~",
            ActivityType::Delete => "-",
            ActivityType::View => "*",
            ActivityType::Transfer => "~",
        }
    }

    /// The name of the kind.
    pub fn label(&self) -> (r: &'static str)
        ensures
            r@ == activity_label(*self),
    {
        match self {
            ActivityType::Create => "创建",
            ActivityType::Update => "更新",
            ActivityType::Delete => "删除",
            ActivityType::View => "查看",
            ActivityType::Transfer => "调岗",
        }
    }
}

/// A recorded operation.
#[derive(Clone, Debug)]
pub struct Activity {
    pub id: u64,
    pub kind: ActivityType,
    pub actor: String,
    pub target: String,
    pub target_type: String,
    pub time: String,
    pub time_ago: String,
}

/// The greeting for hour `hour` of the day.
pub open spec fn greeting_of(hour: u8) -> Seq<char> {
    if hour <= 5 {
        "夜深了"@
    } else if hour <= 11 {
        "Good morning"@
    } else if hour <= 17 {
        "Good afternoon"@
    } else if hour <= 22 {
        "Good evening"@
    } else {
        "夜深了"@
    }
}

/// The greeting for hour `hour` of the day.
pub fn greeting_for(hour: u8) -> (r: &'static str)
    ensures
        r@ == greeting_of(hour),
{
    if hour <= 5 {
        "夜深了"
    } else if hour <= 11 {
        "Good morning"
    } else if hour <= 17 {
        "Good afternoon"
    } else if hour <= 22 {
        "Good evening"
    } else {
        "夜深了"
    }
}


/// A card with the live counts: the employees card shows
/// `employee_count` (and drops its trend when there are employees), the
/// departments card shows `department_count` without a trend; other cards
/// stay as they are.
pub open spec fn live_card(c: CardView, employee_count: u32, department_count: u32) -> CardView {
    if c.title == "在职员工"@ {
        CardView {
            value: decimal(employee_count as nat),
            trend: if employee_count > 0 {
                None
            } else {
                c.trend
            },
            ..c
        }
    } else if c.title == "部门数量"@ {
        CardView { value: decimal(department_count as nat), trend: None, ..c }
    } else {
        c
    }
}

/// The cockpit cards with the live counts put in.
pub fn live_cards(cards: &Vec<CockpitCard>, employee_count: u32, department_count: u32) -> (r: Vec<
    CockpitCard,
>)
    ensures
        cards_view(r@) == cards_view(cards@).map_values(
            |c: CardView| live_card(c, employee_count, department_count),
        ),
{
    let ghost want = cards_view(cards@).map_values(
        |c: CardView| live_card(c, employee_count, department_count),
    );
    let mut r: Vec<CockpitCard> = Vec::new();
    let mut i: usize = 0;
    while i < cards.len()
        invariant
            i <= cards.len(),
            want == cards_view(cards@).map_values(
                |c: CardView| live_card(c, employee_count, department_count),
            ),
            cards_view(r@) == want.take(i as int),
        decreases cards.len() - i,
    {
        let c = &cards[i];
        let title = chars_of(c.title.as_str());
        let mut value = c.value.clone();
        let mut trend = c.trend.clone();
        if equals_str(&title, "在职员工") {
            value = string_of(&decimal_u64(employee_count as u64));
            if employee_count > 0 {
                trend = None;
            }
        } else if equals_str(&title, "部门数量") {
            value = string_of(&decimal_u64(department_count as u64));
            trend = None;
        }
        let card = CockpitCard {
            title: c.title.clone(),
            value,
            trend,
            trend_positive: c.trend_positive,
            link: c.link.clone(),
        };
        assert(card@ == want[i as int]);
        let ghost r0 = r@;
        r.push(card);
        assert(cards_view(r@) =~= cards_view(r0).push(card@));
        assert(want.take(i + 1) =~= want.take(i as int).push(want[i as int]));
        i = i + 1;
    }
    assert(want.take(cards.len() as int) =~= want);
    r
}

/// The vitality shown on the pulse card for `employee_count` employees:
/// none without employees, else 60 and a point per ten employees, at most
/// 85 (the tens are counted modulo 256, as a byte holds them).
pub open spec fn vitality_of(employee_count: u32) -> u8 {
    if employee_count == 0 {
        0
    } else {
        let raised = 60 + ((employee_count / 10) as u8);
        if raised <= 85 {
            raised as u8
        } else {
            85
        }
    }
}

/// The vitality shown on the pulse card.
pub fn pulse_vitality(employee_count: u32) -> (r: u8)
    requires
        employee_count == 0 || 60 + ((employee_count / 10) as u8) <= u8::MAX,
    ensures
        r == vitality_of(employee_count),
{
    if employee_count > 0 {
        let tens = #[verifier::truncate] ((employee_count / 10) as u8);
        let raised = 60 + tens;
        if raised <= 85 {
            raised
        } else {
            85
        }
    } else {
        0
    }
}


/// Which of the ten vitality dots are lit: one per ten points.
pub fn pulse_dots(vitality: u8) -> (r: Vec<bool>)
    ensures
        r.len() == 10,
        forall|i: int| 0 <= i < 10 ==> r[i] == (i < vitality / 10),
{
    let lit = vitality / 10;
    let mut r: Vec<bool> = Vec::new();
    let mut i: u8 = 0;
    while i < 10
        invariant
            i <= 10,
            lit == vitality / 10,
            r.len() == i,
            forall|k: int| 0 <= k < i ==> r[k] == (k < lit),
        decreases 10 - i,
    {
        r.push(i < lit);
        i = i + 1;
    }
    r
}

/// The sign shown before a trend: "+" for growth or none, "-" for a fall.
pub fn trend_icon(trend: i32) -> (r: &'static str)
    ensures
        r@ == (if trend >= 0 {
            "+"@
        } else {
            "-"@
        }),
{
    if trend >= 0 {
        "+"
    } else {
        "-"
    }
}

} // verus!
