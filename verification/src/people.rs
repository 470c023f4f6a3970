//! People: an employee as the people page shows it.
use vstd::prelude::*;
use crate::services::employee::EmployeeResponse;
use crate::palette::{lowercase, to_lower};
use crate::text::{chars_of, contains, contains_chars, owned};

verus! {

broadcast use vstd::string::group_string_axioms;

/// Where an employee stands.
#[derive(Clone, Copy, Debug, PartialEq, Eq, Structural)]
pub enum EmployeeStatus {
    Active,
    Inactive,
    Onboarding,
}

/// The name of a status.
pub open spec fn status_label(s: EmployeeStatus) -> Seq<char> {
    match s {
        EmployeeStatus::Active => "在职"@,
        EmployeeStatus::Inactive => "离职"@,
        EmployeeStatus::Onboarding => "入职中"@,
    }
}

/// The colour of a status.
pub open spec fn status_color(s: EmployeeStatus) -> Seq<char> {
    match s {
        EmployeeStatus::Active => "var(--ds-success)"@,
        EmployeeStatus::Inactive => "var(--ds-text-tertiary)"@,
        EmployeeStatus::Onboarding => "var(--ds-warning)"@,
    }
}

/// The status for the service's status code: 0 has left, 2 is joining,
/// anything else (1 among them, or none) is active.
pub open spec fn status_of(code: Option<i16>) -> EmployeeStatus {
    match code {
        Some(0i16) => EmployeeStatus::Inactive,
        Some(2i16) => EmployeeStatus::Onboarding,
        _ => EmployeeStatus::Active,
    }
}

impl EmployeeStatus {
    /// The name shown.
    pub fn label(&self) -> (r: &'static str)
        ensures
            r@ == status_label(*self),
    {
        match self {
            EmployeeStatus::Active => "在职",
            EmployeeStatus::Inactive => "离职",
            EmployeeStatus::Onboarding => "入职中",
        }
    }

    /// The colour shown.
    pub fn color(&self) -> (r: &'static str)
        ensures
            r@ == status_color(*self),
    {
        match self {
            EmployeeStatus::Active => "var(--ds-success)",
            EmployeeStatus::Inactive => "var(--ds-text-tertiary)",
            EmployeeStatus::Onboarding => "var(--ds-warning)",
        }
    }
}

/// An employee as a card shows it.
#[derive(Clone, Debug)]
pub struct Employee {
    pub id: u64,
    pub name: String,
    pub avatar: Option<String>,
    pub position: String,
    pub department: String,
    pub phone: Option<String>,
    pub email: Option<String>,
    pub status: EmployeeStatus,
    pub join_date: String,
}

/// The text, or `fallback` when there is none.
pub open spec fn text_or(o: Option<Seq<char>>, fallback: Seq<char>) -> Seq<char> {
    match o {
        Some(s) => s,
        None => fallback,
    }
}

fn string_or(o: Option<String>, fallback: &str) -> (r: String)
    ensures
        r@ == text_or(o.deep_view(), fallback@),
{
    match o {
        Some(s) => s,
        None => owned(fallback),
    }
}

impl Employee {
    /// The card of the employee `resp` describes: without a position,
    /// department or hire date it shows "未分配职位", "未分配部门" or "—".
    pub fn from_api(resp: EmployeeResponse) -> (r: Employee)
        ensures
            r.id == resp.id as u64,
            r.name@ == resp.name@,
            r.avatar.deep_view() == resp.avatar.deep_view(),
            r.position@ == text_or(resp.primary_position_name.deep_view(), "未分配职位"@),
            r.department@ == text_or(resp.primary_department_name.deep_view(), "未分配部门"@),
            r.phone.deep_view() == resp.mobile.deep_view(),
            r.email.deep_view() == resp.email.deep_view(),
            r.status == status_of(resp.status),
            r.join_date@ == text_or(resp.hire_date.deep_view(), "—"@),
    {
        let status = match resp.status {
            Some(1) => EmployeeStatus::Active,
            Some(0) => EmployeeStatus::Inactive,
            Some(2) => EmployeeStatus::Onboarding,
            _ => EmployeeStatus::Active,
        };
        let EmployeeResponse { id, name, avatar, primary_position_name, primary_department_name, mobile, email, hire_date, .. } = resp;
        Employee {
            id: #[verifier::truncate] (id as u64),
            name,
            avatar,
            position: string_or(primary_position_name, "未分配职位"),
            department: string_or(primary_department_name, "未分配部门"),
            phone: mobile,
            email,
            status,
            join_date: string_or(hire_date, "—"),
        }
    }
}


/// The mathematical value of an employee card.
pub struct EmployeeView {
    pub id: u64,
    pub name: Seq<char>,
    pub avatar: Option<Seq<char>>,
    pub position: Seq<char>,
    pub department: Seq<char>,
    pub phone: Option<Seq<char>>,
    pub email: Option<Seq<char>>,
    pub status: EmployeeStatus,
    pub join_date: Seq<char>,
}

impl View for Employee {
    type V = EmployeeView;

    open spec fn view(&self) -> EmployeeView {
        EmployeeView {
            id: self.id,
            name: self.name@,
            avatar: self.avatar.deep_view(),
            position: self.position@,
            department: self.department@,
            phone: self.phone.deep_view(),
            email: self.email.deep_view(),
            status: self.status,
            join_date: self.join_date@,
        }
    }
}

/// The values of a list of employee cards.
pub open spec fn employees_view(v: Seq<Employee>) -> Seq<EmployeeView> {
    v.map_values(|e: Employee| e@)
}

/// Whether a card matches the lower-cased query `q`: its name, position
/// or department, lower-cased, holds `q`.
pub open spec fn employee_matches(e: EmployeeView, q: Seq<char>) -> bool {
    contains(lowercase(e.name), q) || contains(lowercase(e.position), q) || contains(
        lowercase(e.department),
        q,
    )
}

/// The first `n` cards of `es` that match `q`, in order.
pub open spec fn matching_employees(es: Seq<EmployeeView>, q: Seq<char>, n: int) -> Seq<EmployeeView>
    decreases n,
{
    if n <= 0 {
        Seq::empty()
    } else {
        let rest = matching_employees(es, q, n - 1);
        if q.len() == 0 || employee_matches(es[n - 1], q) {
            rest.push(es[n - 1])
        } else {
            rest
        }
    }
}

/// A card that matches lies among the matching cards of any longer prefix.
proof fn lemma_matching_holds(es: Seq<EmployeeView>, q: Seq<char>, n: int, j: int)
    requires
        0 <= j < n <= es.len(),
        q.len() == 0 || contains(lowercase(es[j].name), q) || contains(lowercase(es[j].position), q)
            || contains(lowercase(es[j].department), q),
    ensures
        matching_employees(es, q, n).contains(es[j]),
    decreases n,
{
    let rest = matching_employees(es, q, n - 1);
    if j == n - 1 {
        assert(matching_employees(es, q, n) == rest.push(es[j]));
        assert(matching_employees(es, q, n)[rest.len() as int] == es[j]);
    } else {
        lemma_matching_holds(es, q, n - 1, j);
        let k = choose|k: int| 0 <= k < rest.len() && rest[k] == es[j];
        if q.len() == 0 || employee_matches(es[n - 1], q) {
            assert(matching_employees(es, q, n)[k] == es[j]);
        }
    }
}

/// Every matching card is one of the cards, and matches.
proof fn lemma_matching_only(es: Seq<EmployeeView>, q: Seq<char>, n: int, x: EmployeeView)
    requires
        0 <= n <= es.len(),
        matching_employees(es, q, n).contains(x),
    ensures
        es.contains(x),
        q.len() == 0 || contains(lowercase(x.name), q) || contains(lowercase(x.position), q) || contains(
            lowercase(x.department),
            q,
        ),
    decreases n,
{
    let rest = matching_employees(es, q, n - 1);
    let k = choose|k: int| 0 <= k < matching_employees(es, q, n).len() && matching_employees(es, q, n)[k] == x;
    if k < rest.len() {
        assert(rest[k] == x);
        lemma_matching_only(es, q, n - 1, x);
    } else {
        assert(x == es[n - 1]);
    }
}

/// Searching the people grid keeps exactly the cards whose name, position
/// or department, lower-cased, holds the lower-cased query (all cards for
/// an empty query): every such card is shown, and every card shown is one
/// of the cards and is such a card.
pub proof fn law_filter_keeps_matching_cards(es: Seq<EmployeeView>, query: Seq<char>)
    ensures
        forall|j: int|
            0 <= j < es.len() && (lowercase(query).len() == 0 || contains(lowercase(es[j].name), lowercase(query))
                || contains(lowercase(es[j].position), lowercase(query)) || contains(
                lowercase(es[j].department),
                lowercase(query),
            )) ==> #[trigger] matching_employees(es, lowercase(query), es.len() as int).contains(es[j]),
        forall|x: EmployeeView|
            #[trigger] matching_employees(es, lowercase(query), es.len() as int).contains(x) ==> es.contains(x) && (
            lowercase(query).len() == 0 || contains(lowercase(x.name), lowercase(query)) || contains(
                lowercase(x.position),
                lowercase(query),
            ) || contains(lowercase(x.department), lowercase(query))),
{
    let q = lowercase(query);
    assert forall|j: int|
        0 <= j < es.len() && (q.len() == 0 || contains(lowercase(es[j].name), q) || contains(
            lowercase(es[j].position),
            q,
        ) || contains(lowercase(es[j].department), q)) implies #[trigger] matching_employees(
        es,
        q,
        es.len() as int,
    ).contains(es[j]) by {
        lemma_matching_holds(es, q, es.len() as int, j);
    }
    assert forall|x: EmployeeView| #[trigger]
        matching_employees(es, q, es.len() as int).contains(x) implies es.contains(x) && (q.len() == 0
        || contains(lowercase(x.name), q) || contains(lowercase(x.position), q) || contains(
        lowercase(x.department),
        q,
    )) by {
        lemma_matching_only(es, q, es.len() as int, x);
    }
}

/// The matching cards of the first `n` cards are those cards, filtered.
proof fn lemma_matching_filter(es: Seq<EmployeeView>, q: Seq<char>, n: int)
    requires
        0 <= n <= es.len(),
    ensures
        matching_employees(es, q, n) == es.take(n).filter(
            |e: EmployeeView|
                q.len() == 0 || contains(lowercase(e.name), q) || contains(lowercase(e.position), q)
                    || contains(lowercase(e.department), q),
        ),
    decreases n,
{
    reveal(Seq::filter);
    if n > 0 {
        lemma_matching_filter(es, q, n - 1);
        assert(es.take(n).drop_last() =~= es.take(n - 1));
        assert(es.take(n).last() == es[n - 1]);
    } else {
        assert(es.take(0) =~= Seq::<EmployeeView>::empty());
    }
}

/// Searching the people grid gives the cards, in their order, whose name,
/// position or department, lower-cased, holds the lower-cased query; all
/// of them for an empty query.
pub proof fn law_filter_is_the_matching_cards_in_order(es: Seq<EmployeeView>, query: Seq<char>)
    ensures
        matching_employees(es, lowercase(query), es.len() as int) == es.filter(
            |e: EmployeeView|
                lowercase(query).len() == 0 || contains(lowercase(e.name), lowercase(query)) || contains(
                    lowercase(e.position),
                    lowercase(query),
                ) || contains(lowercase(e.department), lowercase(query)),
        ),
{
    let q = lowercase(query);
    lemma_matching_filter(es, q, es.len() as int);
    assert(es.take(es.len() as int) =~= es);
    assert((|e: EmployeeView|
        q.len() == 0 || contains(lowercase(e.name), q) || contains(lowercase(e.position), q) || contains(
            lowercase(e.department),
            q,
        )) =~= (|e: EmployeeView|
        lowercase(query).len() == 0 || contains(lowercase(e.name), lowercase(query)) || contains(
            lowercase(e.position),
            lowercase(query),
        ) || contains(lowercase(e.department), lowercase(query))));
}

/// A copy of a card.
pub fn copy_employee(e: &Employee) -> (r: Employee)
    ensures
        r@ == e@,
{
    Employee {
        id: e.id,
        name: e.name.clone(),
        avatar: e.avatar.clone(),
        position: e.position.clone(),
        department: e.department.clone(),
        phone: e.phone.clone(),
        email: e.email.clone(),
        status: e.status,
        join_date: e.join_date.clone(),
    }
}

fn holds_lowered(text: &str, q: &Vec<char>) -> (r: bool)
    ensures
        r == contains(lowercase(text@), q@),
{
    let l = to_lower(text);
    let c = chars_of(l.as_str());
    contains_chars(&c, q)
}

/// The cards the search box shows: all for an empty query, else those
/// whose name, position or department holds the query, ignoring case.
pub fn filter_employees(employees: &Vec<Employee>, query: &str) -> (r: Vec<Employee>)
    ensures
        employees_view(r@) == matching_employees(
            employees_view(employees@),
            lowercase(query@),
            employees.len() as int,
        ),
{
    let ghost es = employees_view(employees@);
    let ql = to_lower(query);
    let q = chars_of(ql.as_str());
    let mut r: Vec<Employee> = Vec::new();
    let mut i: usize = 0;
    while i < employees.len()
        invariant
            i <= employees.len(),
            es == employees_view(employees@),
            q@ == lowercase(query@),
            employees_view(r@) == matching_employees(es, q@, i as int),
        decreases employees.len() - i,
    {
        let e = &employees[i];
        let keep = q.len() == 0 || holds_lowered(e.name.as_str(), &q) || holds_lowered(
            e.position.as_str(),
            &q,
        ) || holds_lowered(e.department.as_str(), &q);
        if keep {
            let ghost r0 = r@;
            let c = copy_employee(e);
            r.push(c);
            assert(employees_view(r@) =~= employees_view(r0).push(e@));
        }
        i = i + 1;
    }
    r
}

/// A card with no avatar.
pub open spec fn card_view(
    id: u64,
    name: Seq<char>,
    position: Seq<char>,
    department: Seq<char>,
    phone: Seq<char>,
    email: Seq<char>,
    status: EmployeeStatus,
    join_date: Seq<char>,
) -> EmployeeView {
    EmployeeView {
        id,
        name,
        avatar: None,
        position,
        department,
        phone: Some(phone),
        email: Some(email),
        status,
        join_date,
    }
}

/// The sample staff the people page shows.
pub open spec fn mock_employees() -> Seq<EmployeeView> {
    seq![
        card_view(1, "张伟"@, "技术总监"@, "技术中心"@, "138****1234"@, "zhangwei@xilulu.com"@, EmployeeStatus::Active, "2022.03"@),
        card_view(2, "李娜"@, "产品经理"@, "产品部"@, "139****5678"@, "lina@xilulu.com"@, EmployeeStatus::Active, "2023.01"@),
        card_view(3, "王芳"@, "设计师"@, "产品部"@, "137****9012"@, "wangfang@xilulu.com"@, EmployeeStatus::Active, "2023.06"@),
        card_view(4, "刘强"@, "高级工程师"@, "AI实验室"@, "136****3456"@, "liuqiang@xilulu.com"@, EmployeeStatus::Active, "2022.09"@),
        card_view(5, "陈静"@, "运营专员"@, "市场部"@, "135****7890"@, "chenjing@xilulu.com"@, EmployeeStatus::Onboarding, "2026.04"@),
        card_view(6, "赵磊"@, "前端工程师"@, "技术中心"@, "134****2345"@, "zhaolei@xilulu.com"@, EmployeeStatus::Active, "2024.02"@),
        card_view(7, "孙悦"@, "财务主管"@, "财务部"@, "133****6789"@, "sunyue@xilulu.com"@, EmployeeStatus::Active, "2021.11"@),
        card_view(8, "周涛"@, "市场总监"@, "市场部"@, "132****0123"@, "zhoutao@xilulu.com"@, EmployeeStatus::Active, "2020.05"@),
    ]
}

fn card(
    id: u64,
    name: &str,
    position: &str,
    department: &str,
    phone: &str,
    email: &str,
    status: EmployeeStatus,
    join_date: &str,
) -> (r: Employee)
    ensures
        r@ == card_view(id, name@, position@, department@, phone@, email@, status, join_date@),
{
    Employee {
        id,
        name: owned(name),
        avatar: None,
        position: owned(position),
        department: owned(department),
        phone: Some(owned(phone)),
        email: Some(owned(email)),
        status,
        join_date: owned(join_date),
    }
}

/// The sample staff the people page shows: eight cards, numbered from 1.
pub fn get_mock_employees() -> (r: Vec<Employee>)
    ensures
        employees_view(r@) == mock_employees(),
{
    let mut v: Vec<Employee> = Vec::new();
    v.push(card(1, "张伟", "技术总监", "技术中心", "138****1234", "zhangwei@xilulu.com", EmployeeStatus::Active, "2022.03"));
    v.push(card(2, "李娜", "产品经理", "产品部", "139****5678", "lina@xilulu.com", EmployeeStatus::Active, "2023.01"));
    v.push(card(3, "王芳", "设计师", "产品部", "137****9012", "wangfang@xilulu.com", EmployeeStatus::Active, "2023.06"));
    v.push(card(4, "刘强", "高级工程师", "AI实验室", "136****3456", "liuqiang@xilulu.com", EmployeeStatus::Active, "2022.09"));
    v.push(card(5, "陈静", "运营专员", "市场部", "135****7890", "chenjing@xilulu.com", EmployeeStatus::Onboarding, "2026.04"));
    v.push(card(6, "赵磊", "前端工程师", "技术中心", "134****2345", "zhaolei@xilulu.com", EmployeeStatus::Active, "2024.02"));
    v.push(card(7, "孙悦", "财务主管", "财务部", "133****6789", "sunyue@xilulu.com", EmployeeStatus::Active, "2021.11"));
    v.push(card(8, "周涛", "市场总监", "市场部", "132****0123", "zhoutao@xilulu.com", EmployeeStatus::Active, "2020.05"));
    assert(employees_view(v@) =~= mock_employees());
    v
}

} // verus!
