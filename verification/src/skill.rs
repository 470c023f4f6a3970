//! Skills: recorded procedures for intents that succeeded.
//!
//! Three skills are built in; each successful execution raises its skill's
//! use count and stamps the time. The store can be exported as Markdown
//! for a language model to read. Keeping the usage figures in browser
//! storage is left to the caller (see `usage_record` and `apply_usage`).
use vstd::prelude::*;
use crate::intent::{IntentView, ParsedIntent};
use crate::num::{decimal, decimal_u64};
use crate::services::query::join;
use crate::text::{append_chars, append_str, chars_of, equals_str, owned, string_of};

verus! {

broadcast use vstd::string::group_string_axioms;

/// Where a skill parameter comes from.
#[derive(Clone, Debug, PartialEq)]
pub enum ParamSource {
    /// From what the user said.
    UserInput,
    /// A fixed value.
    Fixed { value: String },
    /// Asked for with a prompt.
    Ask { prompt: String },
    /// Read from the context under a key.
    Context { key: String },
}

/// The mathematical value of a parameter source.
pub enum ParamSourceView {
    UserInput,
    Fixed { value: Seq<char> },
    Ask { prompt: Seq<char> },
    Context { key: Seq<char> },
}

impl View for ParamSource {
    type V = ParamSourceView;

    open spec fn view(&self) -> ParamSourceView {
        match self {
            ParamSource::UserInput => ParamSourceView::UserInput,
            ParamSource::Fixed { value } => ParamSourceView::Fixed { value: value@ },
            ParamSource::Ask { prompt } => ParamSourceView::Ask { prompt: prompt@ },
            ParamSource::Context { key } => ParamSourceView::Context { key: key@ },
        }
    }
}

/// A recorded procedure.
#[derive(Clone, Debug, PartialEq)]
pub struct Skill {
    /// Unique identifier.
    pub id: String,
    /// Name.
    pub name: String,
    /// The intent kind it serves.
    pub intent_type: String,
    /// Words that trigger it.
    pub trigger_keywords: Vec<String>,
    /// Its parameters and where each comes from, each name once (the
    /// store's skills keep this: see `params_distinct`); a list, so that
    /// the order in which they are written out is fixed.
    pub param_templates: Vec<(String, ParamSource)>,
    /// The steps it takes.
    pub steps: Vec<String>,
    /// How many times it ran.
    pub use_count: u32,
    /// When it last ran.
    pub last_used: Option<String>,
}

/// The mathematical value of a skill.
pub struct SkillView {
    pub id: Seq<char>,
    pub name: Seq<char>,
    pub intent_type: Seq<char>,
    pub trigger_keywords: Seq<Seq<char>>,
    pub param_templates: Seq<(Seq<char>, ParamSourceView)>,
    pub steps: Seq<Seq<char>>,
    pub use_count: u32,
    pub last_used: Option<Seq<char>>,
}

/// The values of a list of parameters.
pub open spec fn params_view(p: Seq<(String, ParamSource)>) -> Seq<(Seq<char>, ParamSourceView)> {
    p.map_values(|e: (String, ParamSource)| (e.0@, e.1@))
}

impl View for Skill {
    type V = SkillView;

    open spec fn view(&self) -> SkillView {
        SkillView {
            id: self.id@,
            name: self.name@,
            intent_type: self.intent_type@,
            trigger_keywords: self.trigger_keywords.deep_view(),
            param_templates: params_view(self.param_templates@),
            steps: self.steps.deep_view(),
            use_count: self.use_count,
            last_used: self.last_used.deep_view(),
        }
    }
}

/// The values of a list of skills.
pub open spec fn skills_view(s: Seq<Skill>) -> Seq<SkillView> {
    s.map_values(|k: Skill| k@)
}

/// The skills.
#[derive(Clone, Debug, PartialEq)]
pub struct SkillStore {
    pub skills: Vec<Skill>,
}

/// A built-in skill with no uses yet.
pub open spec fn builtin(
    id: Seq<char>,
    name: Seq<char>,
    intent_type: Seq<char>,
    triggers: Seq<Seq<char>>,
    params: Seq<Seq<char>>,
    steps: Seq<Seq<char>>,
) -> SkillView {
    SkillView {
        id,
        name,
        intent_type,
        trigger_keywords: triggers,
        param_templates: params.map_values(|p: Seq<char>| (p, ParamSourceView::UserInput)),
        steps,
        use_count: 0,
        last_used: None,
    }
}

/// The built-in skills, in order.
pub open spec fn builtin_skills() -> Seq<SkillView> {
    seq![
        builtin(
            "builtin_create_dept_full"@,
            "创建部门（指定上级）"@,
            "create_department"@,
            seq!["新建部门"@, "创建部门"@],
            seq!["department_name"@, "parent_department"@],
            seq!["1️⃣ 解析部门名称和上级部门"@, "2️⃣ 查找上级部门 ID"@, "3️⃣ 调用 API 创建部门"@],
        ),
        builtin(
            "builtin_create_dept_simple"@,
            "创建部门"@,
            "create_department"@,
            seq!["新建部门"@, "创建部门"@, "添加部门"@],
            seq!["department_name"@],
            seq!["1️⃣ 解析部门名称"@, "2️⃣ 调用 API 创建部门"@],
        ),
        builtin(
            "builtin_transfer"@,
            "员工调岗"@,
            "transfer"@,
            seq!["调到"@, "调岗"@, "转到"@],
            seq!["employee_name"@, "to_department"@],
            seq!["1️⃣ 解析员工和部门信息"@, "2️⃣ 查找员工 ID"@, "3️⃣ 调用 API 执行调岗"@],
        ),
    ]
}

/// The skill that serves an intent, when matching a skill: a department
/// creation with a parent, one without, or a transfer.
pub open spec fn skill_for(i: IntentView) -> Option<Seq<char>> {
    match i {
        IntentView::CreateDepartment { parent_department, .. } => if parent_department is Some {
            Some("builtin_create_dept_full"@)
        } else {
            Some("builtin_create_dept_simple"@)
        },
        IntentView::Transfer { .. } => Some("builtin_transfer"@),
        _ => None,
    }
}

/// The skill credited with a successful intent: as `skill_for`, and a
/// search is credited to "builtin_search".
pub open spec fn credited_skill(i: IntentView) -> Option<Seq<char>> {
    match i {
        IntentView::Search { .. } => Some("builtin_search"@),
        _ => skill_for(i),
    }
}

/// The index of the first skill at or after `i` with identifier `id`.
pub open spec fn index_of_id(s: Seq<SkillView>, id: Seq<char>, i: int) -> Option<int>
    decreases s.len() - i,
{
    if i < 0 || i >= s.len() {
        None
    } else if s[i].id == id {
        Some(i)
    } else {
        index_of_id(s, id, i + 1)
    }
}

fn strs2(a: &str, b: &str) -> (r: Vec<String>)
    ensures
        r.deep_view() == seq![a@, b@],
{
    let mut r: Vec<String> = Vec::new();
    r.push(owned(a));
    r.push(owned(b));
    assert(r.deep_view() =~= seq![a@, b@]);
    r
}

fn strs3(a: &str, b: &str, c: &str) -> (r: Vec<String>)
    ensures
        r.deep_view() == seq![a@, b@, c@],
{
    let mut r: Vec<String> = Vec::new();
    r.push(owned(a));
    r.push(owned(b));
    r.push(owned(c));
    assert(r.deep_view() =~= seq![a@, b@, c@]);
    r
}

fn user_params1(a: &str) -> (r: Vec<(String, ParamSource)>)
    ensures
        params_view(r@) == seq![a@].map_values(|p: Seq<char>| (p, ParamSourceView::UserInput)),
{
    let mut r: Vec<(String, ParamSource)> = Vec::new();
    r.push((owned(a), ParamSource::UserInput));
    assert(params_view(r@) =~= seq![a@].map_values(|p: Seq<char>| (p, ParamSourceView::UserInput)));
    r
}

fn user_params2(a: &str, b: &str) -> (r: Vec<(String, ParamSource)>)
    ensures
        params_view(r@) == seq![a@, b@].map_values(|p: Seq<char>| (p, ParamSourceView::UserInput)),
{
    let mut r: Vec<(String, ParamSource)> = Vec::new();
    r.push((owned(a), ParamSource::UserInput));
    r.push((owned(b), ParamSource::UserInput));
    assert(params_view(r@) =~= seq![a@, b@].map_values(
        |p: Seq<char>| (p, ParamSourceView::UserInput),
    ));
    r
}

fn builtin_skill(
    id: &str,
    name: &str,
    intent_type: &str,
    triggers: Vec<String>,
    params: Vec<(String, ParamSource)>,
    steps: Vec<String>,
) -> (r: Skill)
    ensures
        r@ == (SkillView {
            id: id@,
            name: name@,
            intent_type: intent_type@,
            trigger_keywords: triggers.deep_view(),
            param_templates: params_view(params@),
            steps: steps.deep_view(),
            use_count: 0,
            last_used: None,
        }),
{
    Skill {
        id: owned(id),
        name: owned(name),
        intent_type: owned(intent_type),
        trigger_keywords: triggers,
        param_templates: params,
        steps,
        use_count: 0,
        last_used: None,
    }
}

impl SkillStore {
    /// A store with the built-in skills, none used yet.
    pub fn new() -> (r: SkillStore)
        ensures
            skills_view(r.skills@) == builtin_skills(),
            params_distinct(skills_view(r.skills@)),
    {
        let mut store = SkillStore { skills: Vec::new() };
        store.add_builtin_skills();
        assert(skills_view(store.skills@) =~= builtin_skills());
        proof {
            law_builtin_ids_unique();
        }
        store
    }

    fn add_builtin_skills(&mut self)
        ensures
            skills_view(final(self).skills@) == skills_view(old(self).skills@) + builtin_skills(),
    {
        let ghost s0 = skills_view(self.skills@);
        self.skills.push(
            builtin_skill(
                "builtin_create_dept_full",
                "创建部门（指定上级）",
                "create_department",
                strs2("新建部门", "创建部门"),
                user_params2("department_name", "parent_department"),
                strs3("1️⃣ 解析部门名称和上级部门", "2️⃣ 查找上级部门 ID", "3️⃣ 调用 API 创建部门"),
            ),
        );
        self.skills.push(
            builtin_skill(
                "builtin_create_dept_simple",
                "创建部门",
                "create_department",
                strs3("新建部门", "创建部门", "添加部门"),
                user_params1("department_name"),
                strs2("1️⃣ 解析部门名称", "2️⃣ 调用 API 创建部门"),
            ),
        );
        self.skills.push(
            builtin_skill(
                "builtin_transfer",
                "员工调岗",
                "transfer",
                strs3("调到", "调岗", "转到"),
                user_params2("employee_name", "to_department"),
                strs3("1️⃣ 解析员工和部门信息", "2️⃣ 查找员工 ID", "3️⃣ 调用 API 执行调岗"),
            ),
        );
        assert(skills_view(self.skills@) =~= s0 + builtin_skills());
    }

    /// The index of the first skill with identifier `id`.
    fn index_of(&self, id: &str) -> (r: Option<usize>)
        ensures
            match r {
                Some(j) => index_of_id(skills_view(self.skills@), id@, 0) == Some(j as int) && j
                    < self.skills.len(),
                None => index_of_id(skills_view(self.skills@), id@, 0) is None,
            },
    {
        let ghost sv = skills_view(self.skills@);
        let mut i: usize = 0;
        while i < self.skills.len()
            invariant
                i <= self.skills.len(),
                sv == skills_view(self.skills@),
                index_of_id(sv, id@, 0) == index_of_id(sv, id@, i as int),
            decreases self.skills.len() - i,
        {
            let sid = chars_of(self.skills[i].id.as_str());
            if equals_str(&sid, id) {
                return Some(i);
            }
            i = i + 1;
        }
        None
    }

    /// The skill that serves `intent`: the first skill with the identifier
    /// `skill_for` names.
    pub fn match_skill_by_intent(&self, intent: &ParsedIntent) -> (r: Option<&Skill>)
        ensures
            match skill_for(intent@) {
                Some(id) => match index_of_id(skills_view(self.skills@), id, 0) {
                    Some(j) => r == Some(&self.skills@[j]),
                    None => r is None,
                },
                None => r is None,
            },
    {
        let target = match skill_id_for(intent) {
            Some(t) => t,
            None => return None,
        };
        match self.index_of(target) {
            Some(j) => Some(&self.skills[j]),
            None => None,
        }
    }

    /// Records a successful execution of `intent` at time `now`: the first
    /// skill with the identifier `credited_skill` names gets one more use
    /// and `now` as its last use; nothing else changes.
    pub fn record_success(&mut self, intent: &ParsedIntent, now: String)
        requires
            credited_skill(intent@) matches Some(id) ==> (index_of_id(
                skills_view(old(self).skills@),
                id,
                0,
            ) matches Some(j) ==> old(self).skills@[j].use_count < u32::MAX),
        ensures
            match credited_skill(intent@) {
                Some(id) => match index_of_id(skills_view(old(self).skills@), id, 0) {
                    Some(j) => skills_view(final(self).skills@) == skills_view(
                        old(self).skills@,
                    ).update(
                        j,
                        SkillView {
                            use_count: (old(self).skills@[j].use_count + 1) as u32,
                            last_used: Some(now@),
                            ..old(self).skills@[j]@
                        },
                    ),
                    None => skills_view(final(self).skills@) == skills_view(old(self).skills@),
                },
                None => skills_view(final(self).skills@) == skills_view(old(self).skills@),
            },
            params_distinct(skills_view(old(self).skills@)) ==> params_distinct(skills_view(final(self).skills@)),
    {
        let target = match intent {
            ParsedIntent::Search { .. } => "builtin_search",
            _ => match skill_id_for(intent) {
                Some(t) => t,
                None => return,
            },
        };
        match self.index_of(target) {
            Some(j) => {
                let ghost s0 = skills_view(self.skills@);
                let mut sk = self.skills.remove(j);
                sk.use_count = sk.use_count + 1;
                sk.last_used = Some(now);
                let ghost v = sk@;
                self.skills.insert(j, sk);
                assert(skills_view(self.skills@) =~= s0.update(j as int, v));
                assert(v.param_templates == s0[j as int].param_templates);
                assert(params_distinct(s0) ==> params_distinct(skills_view(self.skills@))) by {
                    if params_distinct(s0) {
                        assert forall|i: int| 0 <= i < s0.len() implies distinct_params(
                            #[trigger] skills_view(self.skills@)[i],
                        ) by {
                            assert(distinct_params(s0[i]));
                        }
                    }
                }
            },
            None => {},
        }
    }
}

impl SkillStore {
    /// Whether a success of `intent` can be counted: the skill it credits,
    /// if any is found, has not reached the largest count.
    pub fn can_record(&self, intent: &ParsedIntent) -> (r: bool)
        ensures
            r == (credited_skill(intent@) matches Some(id) ==> (index_of_id(
                skills_view(self.skills@),
                id,
                0,
            ) matches Some(j) ==> self.skills@[j].use_count < u32::MAX)),
    {
        let target = match intent {
            ParsedIntent::Search { .. } => "builtin_search",
            _ => match skill_id_for(intent) {
                Some(t) => t,
                None => {
                    return true;
                },
            },
        };
        match self.index_of(target) {
            Some(j) => self.skills[j].use_count < u32::MAX,
            None => true,
        }
    }
}

/// The identifier of the skill that serves `intent`.
fn skill_id_for(intent: &ParsedIntent) -> (r: Option<&'static str>)
    ensures
        match r {
            Some(t) => skill_for(intent@) == Some(t@),
            None => skill_for(intent@) is None,
        },
{
    match intent {
        ParsedIntent::CreateDepartment { parent_department, .. } => {
            if parent_department.is_some() {
                Some("builtin_create_dept_full")
            } else {
                Some("builtin_create_dept_simple")
            }
        },
        ParsedIntent::Transfer { .. } => Some("builtin_transfer"),
        _ => None,
    }
}

// ------------------------------------------------------------------
// Ordering by use
// ------------------------------------------------------------------

/// The use counts of the skills, in order.
pub open spec fn use_counts(s: Seq<Skill>) -> Seq<u32> {
    s.map_values(|k: Skill| k.use_count)
}

/// The first position at or after `j` in `order` whose skill was used
/// fewer times than `c` (the end when there is none).
pub open spec fn insert_pos(counts: Seq<u32>, order: Seq<int>, c: u32, j: int) -> int
    decreases order.len() - j,
{
    if j < 0 || j >= order.len() {
        order.len() as int
    } else if counts[order[j]] < c {
        j
    } else {
        insert_pos(counts, order, c, j + 1)
    }
}

/// The first `n` skill positions ordered by use, most used first; skills
/// used equally often keep their order.
pub open spec fn usage_order_upto(counts: Seq<u32>, n: int) -> Seq<int>
    decreases n,
{
    if n <= 0 {
        Seq::empty()
    } else {
        let o = usage_order_upto(counts, n - 1);
        o.insert(insert_pos(counts, o, counts[n - 1], 0), n - 1)
    }
}

/// All skill positions ordered by use, most used first, ties in order.
pub open spec fn usage_order(counts: Seq<u32>) -> Seq<int> {
    usage_order_upto(counts, counts.len() as int)
}

proof fn lemma_insert_pos_bounds(counts: Seq<u32>, order: Seq<int>, c: u32, j: int)
    requires
        0 <= j <= order.len(),
    ensures
        j <= insert_pos(counts, order, c, j) <= order.len(),
    decreases order.len() - j,
{
    if j < order.len() && !(counts[order[j]] < c) {
        lemma_insert_pos_bounds(counts, order, c, j + 1);
    }
}

/// The positions `o` ordered by use, most used first, ties in order of
/// position.
pub open spec fn ordered_by_use(counts: Seq<u32>, o: Seq<int>) -> bool {
    forall|a: int, b: int|
        0 <= a < b < o.len() ==> counts[o[a]] > counts[o[b]] || (counts[o[a]] == counts[o[b]] && o[a]
            < o[b])
}

/// `o` lists each position below `n` once.
pub open spec fn lists_once(o: Seq<int>, n: int) -> bool {
    &&& o.len() == n
    &&& forall|a: int| 0 <= a < o.len() ==> 0 <= #[trigger] o[a] < n
    &&& forall|a: int, b: int| 0 <= a < b < o.len() ==> o[a] != o[b]
}

/// Where the insertion puts the new position: after every position used
/// at least as often, before every one used less.
proof fn lemma_insert_pos_split(counts: Seq<u32>, o: Seq<int>, c: u32, j: int)
    requires
        0 <= j <= o.len(),
        ordered_by_use(counts, o),
        forall|a: int| 0 <= a < o.len() ==> 0 <= #[trigger] o[a] < counts.len(),
        forall|a: int| 0 <= a < j ==> counts[#[trigger] o[a]] >= c,
    ensures
        forall|a: int| 0 <= a < insert_pos(counts, o, c, j) ==> counts[#[trigger] o[a]] >= c,
        forall|a: int| insert_pos(counts, o, c, j) <= a < o.len() ==> counts[#[trigger] o[a]] < c,
    decreases o.len() - j,
{
    lemma_insert_pos_bounds(counts, o, c, j);
    if j < o.len() && !(counts[o[j]] < c) {
        lemma_insert_pos_split(counts, o, c, j + 1);
    } else if j < o.len() {
        assert forall|a: int| j <= a < o.len() implies counts[#[trigger] o[a]] < c by {
            if a > j {
                assert(counts[o[j]] > counts[o[a]] || counts[o[j]] == counts[o[a]]);
            }
        }
    }
}

/// The skills listed by use are each skill once, most used first, and
/// skills used equally often keep their order.
pub proof fn law_usage_order(counts: Seq<u32>, n: int)
    requires
        0 <= n <= counts.len(),
    ensures
        lists_once(usage_order_upto(counts, n), n),
        ordered_by_use(counts, usage_order_upto(counts, n)),
    decreases n,
{
    if n > 0 {
        law_usage_order(counts, n - 1);
        let o = usage_order_upto(counts, n - 1);
        let c = counts[n - 1];
        let p = insert_pos(counts, o, c, 0);
        lemma_insert_pos_bounds(counts, o, c, 0);
        lemma_insert_pos_split(counts, o, c, 0);
        let o2 = o.insert(p, n - 1);
        assert(o2 == usage_order_upto(counts, n));
        assert forall|a: int| 0 <= a < o2.len() implies 0 <= #[trigger] o2[a] < n by {
            if a < p {
                assert(o2[a] == o[a]);
            } else if a > p {
                assert(o2[a] == o[a - 1]);
            }
        }
        assert forall|a: int, b: int| 0 <= a < b < o2.len() implies o2[a] != o2[b] by {
            if a < p && b < p {
                assert(o2[a] == o[a] && o2[b] == o[b]);
            } else if a < p && b == p {
                assert(o2[a] == o[a]);
            } else if a < p && b > p {
                assert(o2[a] == o[a] && o2[b] == o[b - 1]);
            } else if a == p {
                assert(o2[b] == o[b - 1]);
            } else {
                assert(o2[a] == o[a - 1] && o2[b] == o[b - 1]);
            }
        }
        assert forall|a: int, b: int| 0 <= a < b < o2.len() implies counts[o2[a]] > counts[o2[b]] || (
        counts[o2[a]] == counts[o2[b]] && o2[a] < o2[b]) by {
            if a < p && b < p {
                assert(o2[a] == o[a] && o2[b] == o[b]);
            } else if a < p && b == p {
                assert(o2[a] == o[a]);
                assert(counts[o[a]] >= c);
            } else if a < p && b > p {
                assert(o2[a] == o[a] && o2[b] == o[b - 1]);
            } else if a == p {
                assert(o2[b] == o[b - 1]);
                assert(counts[o[b - 1]] < c);
            } else {
                assert(o2[a] == o[a - 1] && o2[b] == o[b - 1]);
            }
        }
    }
}

/// The skill positions ordered by use, most used first; skills used
/// equally often keep their order.
pub fn usage_order_exec(skills: &Vec<Skill>) -> (r: Vec<usize>)
    ensures
        r@.map_values(|k: usize| k as int) == usage_order(use_counts(skills@)),
        r.len() == skills.len(),
        forall|k: int| 0 <= k < r.len() ==> r[k] < skills.len(),
{
    let ghost counts = use_counts(skills@);
    let mut order: Vec<usize> = Vec::new();
    let mut i: usize = 0;
    assert(order@.map_values(|k: usize| k as int) =~= usage_order_upto(counts, 0));
    while i < skills.len()
        invariant
            i <= skills.len(),
            counts == use_counts(skills@),
            order.len() == i,
            order@.map_values(|k: usize| k as int) == usage_order_upto(counts, i as int),
            forall|k: int| 0 <= k < order.len() ==> order[k] < i,
        decreases skills.len() - i,
    {
        let c = skills[i].use_count;
        let ghost o = order@.map_values(|k: usize| k as int);
        let mut j: usize = 0;
        while j < order.len() && !(skills[order[j]].use_count < c)
            invariant
                j <= order.len() == i,
                i < skills.len(),
                counts == use_counts(skills@),
                c == counts[i as int],
                o == order@.map_values(|k: usize| k as int),
                forall|k: int| 0 <= k < order.len() ==> order[k] < i,
                insert_pos(counts, o, c, 0) == insert_pos(counts, o, c, j as int),
            decreases order.len() - j,
        {
            j = j + 1;
        }
        order.insert(j, i);
        assert(order@.map_values(|k: usize| k as int) =~= o.insert(j as int, i as int));
        i = i + 1;
    }
    order
}

impl SkillStore {
    /// The skills ordered by use, most used first; skills used equally
    /// often keep their order.
    pub fn skills_by_usage(&self) -> (r: Vec<&Skill>)
        ensures
            r.len() == self.skills.len(),
            forall|k: int|
                0 <= k < r.len() ==> *r[k] == self.skills@[usage_order(use_counts(self.skills@))[k]],
    {
        let order = usage_order_exec(&self.skills);
        let mut r: Vec<&Skill> = Vec::new();
        let mut i: usize = 0;
        while i < order.len()
            invariant
                i <= order.len() == self.skills.len(),
                order@.map_values(|k: usize| k as int) == usage_order(use_counts(self.skills@)),
                forall|k: int| 0 <= k < order.len() ==> order[k] < self.skills.len(),
                r.len() == i,
                forall|k: int| 0 <= k < i ==> *r[k] == self.skills@[order[k] as int],
            decreases order.len() - i,
        {
            r.push(&self.skills[order[i]]);
            i = i + 1;
        }
        proof {
            assert forall|k: int| 0 <= k < r.len() implies *r[k] == self.skills@[usage_order(
                use_counts(self.skills@),
            )[k]] by {
                assert(order@.map_values(|k: usize| k as int)[k] == order[k] as int);
            }
        }
        r
    }
}

// ------------------------------------------------------------------
// Usage figures kept between sessions
// ------------------------------------------------------------------

/// The value recorded for `key` in `entries` at or after `i` (the first one).
pub open spec fn lookup<V>(entries: Seq<(Seq<char>, V)>, key: Seq<char>, i: int) -> Option<V>
    decreases entries.len() - i,
{
    if i < 0 || i >= entries.len() {
        None
    } else if entries[i].0 == key {
        Some(entries[i].1)
    } else {
        lookup(entries, key, i + 1)
    }
}

/// A skill with the recorded figures applied: the recorded use count and
/// last use replace its own when there are some for its identifier.
pub open spec fn with_usage(
    k: SkillView,
    counts: Seq<(Seq<char>, u32)>,
    times: Seq<(Seq<char>, Seq<char>)>,
) -> SkillView {
    SkillView {
        use_count: match lookup(counts, k.id, 0) {
            Some(c) => c,
            None => k.use_count,
        },
        last_used: match lookup(times, k.id, 0) {
            Some(t) => Some(t),
            None => k.last_used,
        },
        ..k
    }
}

/// The values of recorded use counts.
pub open spec fn counts_view(v: Seq<(String, u32)>) -> Seq<(Seq<char>, u32)> {
    v.map_values(|e: (String, u32)| (e.0@, e.1))
}

/// The values of recorded last uses.
pub open spec fn times_view(v: Seq<(String, String)>) -> Seq<(Seq<char>, Seq<char>)> {
    v.map_values(|e: (String, String)| (e.0@, e.1@))
}

/// The last uses recorded for the skills that have one, in order.
pub open spec fn last_used_entries(s: Seq<SkillView>) -> Seq<(Seq<char>, Seq<char>)>
    decreases s.len(),
{
    if s.len() == 0 {
        Seq::empty()
    } else {
        last_used_entries(s.drop_last()) + match s.last().last_used {
            Some(t) => seq![(s.last().id, t)],
            None => Seq::empty(),
        }
    }
}

/// No two skills share an identifier.
pub open spec fn unique_ids(a: Seq<SkillView>) -> bool {
    forall|x: int, y: int| 0 <= x < y < a.len() ==> a[x].id != a[y].id
}

/// The use counts recorded for skills `a`.
pub open spec fn counts_of(a: Seq<SkillView>) -> Seq<(Seq<char>, u32)> {
    a.map_values(|k: SkillView| (k.id, k.use_count))
}

/// A search by identifier from `i` finds the first skill with it.
proof fn lemma_index_of_id(a: Seq<SkillView>, id: Seq<char>, i: int)
    requires
        0 <= i,
    ensures
        index_of_id(a, id, i) matches Some(j) ==> i <= j < a.len() && a[j].id == id,
        index_of_id(a, id, i) is None ==> forall|k: int| i <= k < a.len() ==> a[k].id != id,
    decreases a.len() - i,
{
    if i < a.len() && a[i].id != id {
        lemma_index_of_id(a, id, i + 1);
    }
}

/// The recorded count of an identifier is that of the first skill with it.
proof fn lemma_lookup_counts(a: Seq<SkillView>, id: Seq<char>, i: int)
    requires
        0 <= i,
    ensures
        lookup(counts_of(a), id, i) == match index_of_id(a, id, i) {
            Some(j) => Some(a[j].use_count),
            None => None::<u32>,
        },
    decreases a.len() - i,
{
    if i < a.len() {
        assert(counts_of(a)[i] == (a[i].id, a[i].use_count));
        lemma_lookup_counts(a, id, i + 1);
    }
}

/// A search in `x + y` from the start of `y` is a search in `y`.
proof fn lemma_lookup_shift<V>(x: Seq<(Seq<char>, V)>, y: Seq<(Seq<char>, V)>, key: Seq<char>, m: int)
    requires
        0 <= m,
    ensures
        lookup(x + y, key, x.len() + m) == lookup(y, key, m),
    decreases y.len() - m,
{
    if m < y.len() {
        assert((x + y)[x.len() + m] == y[m]);
        lemma_lookup_shift(x, y, key, m + 1);
    }
}

/// A search in `x + y` finds in `x` first, then in `y`.
proof fn lemma_lookup_concat<V>(x: Seq<(Seq<char>, V)>, y: Seq<(Seq<char>, V)>, key: Seq<char>, i: int)
    requires
        0 <= i <= x.len(),
    ensures
        lookup(x + y, key, i) == match lookup(x, key, i) {
            Some(v) => Some(v),
            None => lookup(y, key, 0),
        },
    decreases x.len() - i,
{
    if i < x.len() {
        assert((x + y)[i] == x[i]);
        lemma_lookup_concat(x, y, key, i + 1);
    } else {
        lemma_lookup_shift(x, y, key, 0);
    }
}

/// With identifiers unique, the recorded last use of a skill's identifier
/// is the skill's own last use.
proof fn lemma_lookup_times(a: Seq<SkillView>, id: Seq<char>)
    requires
        unique_ids(a),
    ensures
        lookup(last_used_entries(a), id, 0) == match index_of_id(a, id, 0) {
            Some(j) => a[j].last_used,
            None => None::<Seq<char>>,
        },
    decreases a.len(),
{
    lemma_index_of_id(a, id, 0);
    if a.len() > 0 {
        let a0 = a.drop_last();
        let last = a[a.len() - 1];
        assert(unique_ids(a0));
        lemma_lookup_times(a0, id);
        lemma_index_of_id(a0, id, 0);
        let tail = match last.last_used {
            Some(t) => seq![(last.id, t)],
            None => Seq::<(Seq<char>, Seq<char>)>::empty(),
        };
        assert(last_used_entries(a) == last_used_entries(a0) + tail);
        lemma_lookup_concat(last_used_entries(a0), tail, id, 0);
        lemma_index_prefix(a, id, 0);
        match last.last_used {
            Some(t) => {
                assert(lookup(tail, id, 1) is None);
            },
            None => {},
        }
        match index_of_id(a0, id, 0) {
            Some(j) => {
                assert(a0[j] == a[j]);
                assert(a[j].id != last.id);
            },
            None => {},
        }
    }
}

/// A search in `a` agrees with one in `a` without its last skill, unless
/// only the last skill has the identifier.
proof fn lemma_index_prefix(a: Seq<SkillView>, id: Seq<char>, i: int)
    requires
        a.len() > 0,
        0 <= i <= a.len() - 1,
    ensures
        index_of_id(a, id, i) == match index_of_id(a.drop_last(), id, i) {
            Some(j) => Some(j),
            None => if a.last().id == id {
                Some(a.len() - 1)
            } else {
                None::<int>
            },
        },
    decreases a.len() - i,
{
    if i < a.len() - 1 {
        assert(a.drop_last()[i] == a[i]);
        lemma_index_prefix(a, id, i + 1);
    } else {
        assert(index_of_id(a, id, a.len() as int) is None);
        assert(index_of_id(a.drop_last(), id, i) is None);
    }
}

/// What is kept of the skills' usage gives the usage back: applying the
/// record of skills `a` (with distinct identifiers) to a skill with the
/// identifier of one of them gives it that skill's use count, and that
/// skill's last use when it has one; a skill whose identifier is not
/// recorded is left as it is.
pub proof fn law_usage_round_trip(a: Seq<SkillView>, k: SkillView)
    requires
        unique_ids(a),
    ensures
        match index_of_id(a, k.id, 0) {
            Some(j) => with_usage(k, counts_of(a), last_used_entries(a)).use_count == a[j].use_count
                && with_usage(k, counts_of(a), last_used_entries(a)).last_used == (if a[j].last_used is Some {
                a[j].last_used
            } else {
                k.last_used
            }),
            None => with_usage(k, counts_of(a), last_used_entries(a)) == k,
        },
{
    lemma_lookup_counts(a, k.id, 0);
    lemma_lookup_times(a, k.id);
}

/// A success is credited to the skill that matching the intent finds, for
/// every intent but a search (which no built-in skill serves).
pub proof fn law_success_credits_matched_skill(i: IntentView)
    ensures
        !(i is Search) ==> credited_skill(i) == skill_for(i),
        i is Search ==> skill_for(i) is None,
{
}

/// No two parameters of a skill share a name.
pub open spec fn distinct_params(k: SkillView) -> bool {
    forall|x: int, y: int|
        0 <= x < y < k.param_templates.len() ==> k.param_templates[x].0 != k.param_templates[y].0
}

/// No skill of `a` names a parameter twice.
pub open spec fn params_distinct(a: Seq<SkillView>) -> bool {
    forall|i: int| 0 <= i < a.len() ==> distinct_params(#[trigger] a[i])
}

/// The built-in skills have distinct identifiers, so their usage survives
/// a save and a load, and each names its parameters once.
pub proof fn law_builtin_ids_unique()
    ensures
        unique_ids(builtin_skills()),
        forall|i: int| 0 <= i < builtin_skills().len() ==> distinct_params(#[trigger] builtin_skills()[i]),
{
    reveal_strlit("builtin_create_dept_full");
    reveal_strlit("builtin_create_dept_simple");
    reveal_strlit("builtin_transfer");
    reveal_strlit("department_name");
    reveal_strlit("parent_department");
    reveal_strlit("employee_name");
    reveal_strlit("to_department");
    let a = builtin_skills();
    assert(a[0].id.len() != a[1].id.len());
    assert(a[0].id.len() != a[2].id.len());
    assert(a[1].id.len() != a[2].id.len());
    assert(a[0].param_templates[0].0.len() != a[0].param_templates[1].0.len());
    assert(a[2].param_templates[0].0[0] != a[2].param_templates[1].0[0]);
}

/// Applying a store's own record to it changes nothing.
pub proof fn law_usage_restores_store(a: Seq<SkillView>)
    requires
        unique_ids(a),
    ensures
        a.map_values(|k: SkillView| with_usage(k, counts_of(a), last_used_entries(a))) == a,
{
    assert forall|j: int| 0 <= j < a.len() implies with_usage(a[j], counts_of(a), last_used_entries(a)) == a[j] by {
        law_usage_round_trip(a, a[j]);
        lemma_index_of_id(a, a[j].id, 0);
        if index_of_id(a, a[j].id, 0) != Some(j) {
            let m = index_of_id(a, a[j].id, 0)->0;
            assert(m != j ==> a[m].id != a[j].id);
        }
    }
    assert(a.map_values(|k: SkillView| with_usage(k, counts_of(a), last_used_entries(a))) =~= a);
}

fn lookup_count(entries: &Vec<(String, u32)>, key: &str) -> (r: Option<u32>)
    ensures
        r == lookup(counts_view(entries@), key@, 0),
{
    let ghost e = counts_view(entries@);
    let mut i: usize = 0;
    while i < entries.len()
        invariant
            i <= entries.len(),
            e == counts_view(entries@),
            lookup(e, key@, 0) == lookup(e, key@, i as int),
        decreases entries.len() - i,
    {
        let k = chars_of(entries[i].0.as_str());
        if equals_str(&k, key) {
            return Some(entries[i].1);
        }
        i = i + 1;
    }
    None
}

fn lookup_time(entries: &Vec<(String, String)>, key: &str) -> (r: Option<String>)
    ensures
        r.deep_view() == lookup(times_view(entries@), key@, 0),
{
    let ghost e = times_view(entries@);
    let mut i: usize = 0;
    while i < entries.len()
        invariant
            i <= entries.len(),
            e == times_view(entries@),
            lookup(e, key@, 0) == lookup(e, key@, i as int),
        decreases entries.len() - i,
    {
        let k = chars_of(entries[i].0.as_str());
        if equals_str(&k, key) {
            return Some(entries[i].1.clone());
        }
        i = i + 1;
    }
    None
}

impl SkillStore {
    /// Applies recorded usage figures: each skill takes the use count and
    /// the last use recorded for its identifier, when there are some.
    pub fn apply_usage(&mut self, counts: &Vec<(String, u32)>, times: &Vec<(String, String)>)
        ensures
            skills_view(final(self).skills@) == skills_view(old(self).skills@).map_values(
                |k: SkillView| with_usage(k, counts_view(counts@), times_view(times@)),
            ),
    {
        let ghost s0 = skills_view(self.skills@);
        let ghost cv = counts_view(counts@);
        let ghost tv = times_view(times@);
        let mut i: usize = 0;
        while i < self.skills.len()
            invariant
                i <= self.skills.len(),
                s0.len() == self.skills.len(),
                cv == counts_view(counts@),
                tv == times_view(times@),
                forall|k: int| 0 <= k < i ==> #[trigger] skills_view(self.skills@)[k] == with_usage(s0[k], cv, tv),
                forall|k: int| i <= k < s0.len() ==> #[trigger] skills_view(self.skills@)[k] == s0[k],
            decreases self.skills.len() - i,
        {
            let ghost before = skills_view(self.skills@);
            assert(before[i as int] == s0[i as int]);
            assert(before[i as int] == self.skills@[i as int]@);
            let mut sk = self.skills.remove(i);
            let ghost orig = sk@;
            assert(orig == s0[i as int]);
            let c = lookup_count(counts, sk.id.as_str());
            match c {
                Some(n) => {
                    sk.use_count = n;
                },
                None => {},
            }
            let t = lookup_time(times, sk.id.as_str());
            match t {
                Some(x) => {
                    sk.last_used = Some(x);
                },
                None => {},
            }
            let ghost v = sk@;
            assert(v == with_usage(orig, cv, tv));
            self.skills.insert(i, sk);
            assert(skills_view(self.skills@) =~= before.update(i as int, v));
            i = i + 1;
        }
        assert(skills_view(self.skills@) =~= s0.map_values(|k: SkillView| with_usage(k, cv, tv)));
    }

    /// The usage figures to keep: every skill's use count, and the last use
    /// of each skill that has one.
    pub fn usage_record(&self) -> (r: (Vec<(String, u32)>, Vec<(String, String)>))
        ensures
            counts_view(r.0@) == counts_of(skills_view(self.skills@)),
            times_view(r.1@) == last_used_entries(skills_view(self.skills@)),
    {
        let ghost sv = skills_view(self.skills@);
        let mut counts: Vec<(String, u32)> = Vec::new();
        let mut times: Vec<(String, String)> = Vec::new();
        let mut i: usize = 0;
        while i < self.skills.len()
            invariant
                i <= self.skills.len(),
                sv == skills_view(self.skills@),
                counts_view(counts@) == sv.take(i as int).map_values(
                    |k: SkillView| (k.id, k.use_count),
                ),
                times_view(times@) == last_used_entries(sv.take(i as int)),
            decreases self.skills.len() - i,
        {
            let sk = &self.skills[i];
            let ghost c0 = counts_view(counts@);
            let ghost t0 = times_view(times@);
            counts.push((sk.id.clone(), sk.use_count));
            assert(counts_view(counts@) =~= c0.push((sk.id@, sk.use_count)));
            match &sk.last_used {
                Some(t) => {
                    times.push((sk.id.clone(), t.clone()));
                    assert(times_view(times@) =~= t0 + seq![(sk.id@, t@)]);
                },
                None => {
                    assert(times_view(times@) =~= t0 + Seq::<(Seq<char>, Seq<char>)>::empty());
                },
            }
            assert(sv.take(i + 1).drop_last() =~= sv.take(i as int));
            assert(counts_view(counts@) =~= sv.take(i + 1).map_values(
                |k: SkillView| (k.id, k.use_count),
            ));
            i = i + 1;
        }
        assert(sv.take(self.skills.len() as int) =~= sv);
        (counts, times)
    }
}

// ------------------------------------------------------------------
// Markdown export
// ------------------------------------------------------------------

/// How `{:?}` writes a string: quoted, with escapes.
pub uninterp spec fn debug_quoted(s: Seq<char>) -> Seq<char>;

/// Formats `s` with `{:?}` (std's `Debug` for `str`): the result is named
/// `debug_quoted` of the text; the escaping rules are not written out here.
#[verifier::external_body]
fn debug_text(s: &str) -> (r: String)
    ensures
        r@ == debug_quoted(s@),
{
    format!("{:?}", s)
}

/// How `{:?}` writes a parameter source.
pub open spec fn source_debug(p: ParamSourceView) -> Seq<char> {
    match p {
        ParamSourceView::UserInput => "UserInput"@,
        ParamSourceView::Fixed { value } => "Fixed { value: "@ + debug_quoted(value) + " }"@,
        ParamSourceView::Ask { prompt } => "Ask { prompt: "@ + debug_quoted(prompt) + " }"@,
        ParamSourceView::Context { key } => "Context { key: "@ + debug_quoted(key) + " }"@,
    }
}

/// The parameter lines of a skill.
pub open spec fn params_md(p: Seq<(Seq<char>, ParamSourceView)>) -> Seq<char>
    decreases p.len(),
{
    if p.len() == 0 {
        Seq::empty()
    } else {
        params_md(p.drop_last()) + "- `"@ + p.last().0 + "`: "@ + source_debug(p.last().1) + "\n"@
    }
}

/// The step lines of a skill.
pub open spec fn steps_md(s: Seq<Seq<char>>) -> Seq<char>
    decreases s.len(),
{
    if s.len() == 0 {
        Seq::empty()
    } else {
        steps_md(s.drop_last()) + s.last() + "\n"@
    }
}

/// The Markdown section of a skill.
pub open spec fn skill_md(k: SkillView) -> Seq<char> {
    "## "@ + k.id + "\n\n"@ + "- **名称**: "@ + k.name + "\n"@ + "- **意图**: `"@ + k.intent_type
        + "`\n"@ + "- **触发词**: "@ + join(k.trigger_keywords, ", "@) + "\n"@ + "- **使用次数**: "@
        + decimal(k.use_count as nat) + "\n\n"@ + "**参数**:\n"@ + params_md(k.param_templates)
        + "\n**执行步骤**:\n"@ + steps_md(k.steps) + "\n"@
}

/// The sections of all skills.
pub open spec fn skills_md(s: Seq<SkillView>) -> Seq<char>
    decreases s.len(),
{
    if s.len() == 0 {
        Seq::empty()
    } else {
        skills_md(s.drop_last()) + skill_md(s.last())
    }
}

/// The Markdown export: a title, a note, then each skill's section.
pub open spec fn export_md(s: Seq<SkillView>) -> Seq<char> {
    "# Xilulu Console Skills\n\n"@ + "> 自动生成的 Skill 列表，LLM 可直接读取。\n\n"@ + skills_md(s)
}

/// The usage line of a skill.
pub open spec fn usage_line(k: SkillView) -> Seq<char> {
    "- **"@ + k.id + "** ("@ + k.name + "): 使用 "@ + decimal(k.use_count as nat) + " 次\n"@
}

/// The usage lines of skills listed in `order`.
pub open spec fn usage_lines(s: Seq<SkillView>, order: Seq<int>) -> Seq<char>
    decreases order.len(),
{
    if order.len() == 0 {
        Seq::empty()
    } else {
        usage_lines(s, order.drop_last()) + usage_line(s[order.last()])
    }
}

/// The skill document for a language model: the export when the bundled
/// document `builtin` is empty, else `builtin` followed by a usage section
/// listing the skills most used first.
pub open spec fn llm_md(s: Seq<Skill>, builtin: Seq<char>) -> Seq<char> {
    if builtin.len() == 0 {
        export_md(skills_view(s))
    } else {
        builtin + "\n\n---\n\n## 运行时使用统计\n\n"@ + usage_lines(
            skills_view(s),
            usage_order(use_counts(s)),
        )
    }
}

fn join_comma(items: &Vec<String>) -> (r: Vec<char>)
    ensures
        r@ == join(items.deep_view(), ", "@),
{
    let ghost iv = items.deep_view();
    let mut out: Vec<char> = Vec::new();
    let mut i: usize = 0;
    while i < items.len()
        invariant
            i <= items.len(),
            iv == items.deep_view(),
            out@ == join(iv.take(i as int), ", "@),
        decreases items.len() - i,
    {
        if i > 0 {
            append_str(&mut out, ", ");
        }
        append_str(&mut out, items[i].as_str());
        assert(iv.take(i + 1).drop_last() =~= iv.take(i as int));
        assert(out@ =~= join(iv.take(i + 1), ", "@));
        i = i + 1;
    }
    assert(iv.take(items.len() as int) =~= iv);
    out
}

fn append_source_debug(out: &mut Vec<char>, p: &ParamSource)
    ensures
        final(out)@ == old(out)@ + source_debug(p@),
{
    match p {
        ParamSource::UserInput => append_str(out, "UserInput"),
        ParamSource::Fixed { value } => {
            append_str(out, "Fixed { value: ");
            let d = debug_text(value.as_str());
            append_str(out, d.as_str());
            append_str(out, " }");
        },
        ParamSource::Ask { prompt } => {
            append_str(out, "Ask { prompt: ");
            let d = debug_text(prompt.as_str());
            append_str(out, d.as_str());
            append_str(out, " }");
        },
        ParamSource::Context { key } => {
            append_str(out, "Context { key: ");
            let d = debug_text(key.as_str());
            append_str(out, d.as_str());
            append_str(out, " }");
        },
    }
}

#[verifier::spinoff_prover]
#[verifier::rlimit(40)]
fn append_skill_md(out: &mut Vec<char>, k: &Skill)
    ensures
        final(out)@ == old(out)@ + skill_md(k@),
{
    let ghost o0 = out@;
    append_str(out, "## ");
    append_str(out, k.id.as_str());
    append_str(out, "\n\n");
    append_str(out, "- **名称**: ");
    append_str(out, k.name.as_str());
    append_str(out, "\n");
    append_str(out, "- **意图**: `");
    append_str(out, k.intent_type.as_str());
    append_str(out, "`\n");
    append_str(out, "- **触发词**: ");
    let j = join_comma(&k.trigger_keywords);
    append_chars(out, &j);
    append_str(out, "\n");
    append_str(out, "- **使用次数**: ");
    let d = decimal_u64(k.use_count as u64);
    append_chars(out, &d);
    append_str(out, "\n\n");
    append_str(out, "**参数**:\n");
    let ghost pv = params_view(k.param_templates@);
    let ghost before_params = out@;
    let mut i: usize = 0;
    while i < k.param_templates.len()
        invariant
            i <= k.param_templates.len(),
            pv == params_view(k.param_templates@),
            out@ == before_params + params_md(pv.take(i as int)),
        decreases k.param_templates.len() - i,
    {
        append_str(out, "- `");
        append_str(out, k.param_templates[i].0.as_str());
        append_str(out, "`: ");
        append_source_debug(out, &k.param_templates[i].1);
        append_str(out, "\n");
        assert(pv.take(i + 1).drop_last() =~= pv.take(i as int));
        assert(out@ =~= before_params + params_md(pv.take(i + 1)));
        i = i + 1;
    }
    assert(pv.take(k.param_templates.len() as int) =~= pv);
    append_str(out, "\n**执行步骤**:\n");
    let ghost sv = k.steps.deep_view();
    let ghost before_steps = out@;
    let mut s: usize = 0;
    while s < k.steps.len()
        invariant
            s <= k.steps.len(),
            sv == k.steps.deep_view(),
            out@ == before_steps + steps_md(sv.take(s as int)),
        decreases k.steps.len() - s,
    {
        append_str(out, k.steps[s].as_str());
        append_str(out, "\n");
        assert(sv.take(s + 1).drop_last() =~= sv.take(s as int));
        assert(out@ =~= before_steps + steps_md(sv.take(s + 1)));
        s = s + 1;
    }
    assert(sv.take(k.steps.len() as int) =~= sv);
    append_str(out, "\n");
    assert(out@ =~= o0 + skill_md(k@));
}

impl SkillStore {
    /// All skills as Markdown, for a language model to read.
    pub fn export_as_markdown(&self) -> (r: String)
        ensures
            r@ == export_md(skills_view(self.skills@)),
    {
        let ghost sv = skills_view(self.skills@);
        let mut md = chars_of("# Xilulu Console Skills\n\n");
        append_str(&mut md, "> 自动生成的 Skill 列表，LLM 可直接读取。\n\n");
        let ghost head = md@;
        let mut i: usize = 0;
        while i < self.skills.len()
            invariant
                i <= self.skills.len(),
                sv == skills_view(self.skills@),
                md@ == head + skills_md(sv.take(i as int)),
            decreases self.skills.len() - i,
        {
            append_skill_md(&mut md, &self.skills[i]);
            assert(sv.take(i + 1).drop_last() =~= sv.take(i as int));
            assert(md@ =~= head + skills_md(sv.take(i + 1)));
            i = i + 1;
        }
        assert(sv.take(self.skills.len() as int) =~= sv);
        string_of(&md)
    }

    /// The skill document for a language model: the bundled document
    /// `builtin` followed by the usage figures, most used first; the
    /// Markdown export when `builtin` is empty.
    pub fn skills_md_for_llm(&self, builtin: &str) -> (r: String)
        ensures
            r@ == llm_md(self.skills@, builtin@),
    {
        if builtin.is_empty() {
            return self.export_as_markdown();
        }
        let mut out = chars_of(builtin);
        append_str(&mut out, "\n\n---\n\n## 运行时使用统计\n\n");
        let ghost head = out@;
        let ghost sv = skills_view(self.skills@);
        let order = usage_order_exec(&self.skills);
        let ghost ov = order@.map_values(|k: usize| k as int);
        let mut i: usize = 0;
        while i < order.len()
            invariant
                i <= order.len() == self.skills.len(),
                sv == skills_view(self.skills@),
                ov == order@.map_values(|k: usize| k as int),
                forall|k: int| 0 <= k < order.len() ==> order[k] < self.skills.len(),
                out@ == head + usage_lines(sv, ov.take(i as int)),
            decreases order.len() - i,
        {
            let sk = &self.skills[order[i]];
            append_str(&mut out, "- **");
            append_str(&mut out, sk.id.as_str());
            append_str(&mut out, "** (");
            append_str(&mut out, sk.name.as_str());
            append_str(&mut out, "): 使用 ");
            let d = decimal_u64(sk.use_count as u64);
            append_chars(&mut out, &d);
            append_str(&mut out, " 次\n");
            assert(ov.take(i + 1).drop_last() =~= ov.take(i as int));
            assert(ov.take(i + 1).last() == order[i as int] as int);
            assert(out@ =~= head + usage_lines(sv, ov.take(i + 1)));
            i = i + 1;
        }
        assert(ov.take(order.len() as int) =~= ov);
        string_of(&out)
    }
}


// ------------------------------------------------------------------
// Time stamps
// ------------------------------------------------------------------

/// `n` in decimal, padded with a zero to two digits.
pub open spec fn two_digits(n: nat) -> Seq<char> {
    if n < 10 {
        seq!['0'] + decimal(n)
    } else {
        decimal(n)
    }
}

/// The time stamp written on a skill's last use, "Y/MM/D HH:MM", from the
/// clock's fields (`month` counted from 0).
pub open spec fn stamp_text(year: nat, month: nat, date: nat, hours: nat, minutes: nat) -> Seq<char> {
    decimal(year) + seq!['/'] + two_digits(month + 1) + seq!['/'] + decimal(date) + seq![' '] + two_digits(
        hours,
    ) + seq![':'] + two_digits(minutes)
}

fn push_two_digits(v: &mut Vec<char>, n: u32)
    ensures
        final(v)@ == old(v)@ + two_digits(n as nat),
{
    let ghost v0 = v@;
    if n < 10 {
        v.push('0');
    }
    let d = decimal_u64(n as u64);
    append_chars(v, &d);
    assert(v@ =~= v0 + two_digits(n as nat));
}

/// The time stamp written on a skill's last use, "Y/MM/D HH:MM", from the
/// clock's fields (`month` counted from 0).
pub fn timestamp_text(year: u32, month: u32, date: u32, hours: u32, minutes: u32) -> (r: String)
    requires
        month < u32::MAX,
    ensures
        r@ == stamp_text(year as nat, month as nat, date as nat, hours as nat, minutes as nat),
{
    let mut v = decimal_u64(year as u64);
    v.push('/');
    push_two_digits(&mut v, month + 1);
    v.push('/');
    let d = decimal_u64(date as u64);
    append_chars(&mut v, &d);
    v.push(' ');
    push_two_digits(&mut v, hours);
    v.push(':');
    push_two_digits(&mut v, minutes);
    proof {
        assert(v@ =~= stamp_text(year as nat, month as nat, date as nat, hours as nat, minutes as nat));
    }
    string_of(&v)
}

} // verus!
