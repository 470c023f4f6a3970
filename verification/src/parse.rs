//! The local rule parser: keyword and string matching over the sentence.
//!
//! Rules are tried in order (cancel, transfer, create department, search)
//! on the trimmed input; the first that applies gives the result.
use vstd::prelude::*;
use crate::text::{
    chars_of, contains, contains_str, find, find_str, nonempty, nonempty_string,
    owned, remove_all, remove_all_str, skip_chars, starts_with, starts_with_str, string_of,
    sub_chars, take_chars, trim, trim_chars, trim_end_matches, trim_end_matches_str,
    trim_start_matches, trim_start_matches_str, trim_start_set, trim_start_set_chars,
    append_chars, append_str,
};
use crate::intent::{
    IntentResult, IntentResultView, IntentView, ParsedIntent, SearchScope, result_of,
};

verus! {

broadcast use vstd::string::group_string_axioms;

// ------------------------------------------------------------------
// Specification of the rules
// ------------------------------------------------------------------

/// A sentence that starts with a cancel word.
pub open spec fn cancel_rule(s: Seq<char>) -> Option<IntentResultView> {
    if starts_with(s, "取消"@) || starts_with(s, "算了"@) || starts_with(s, "不要了"@)
        || starts_with(s, "放弃"@) || starts_with(s, "取消操作"@) || starts_with(s, "不执行"@) {
        Some(
            IntentResultView {
                intent: IntentView::Cancel,
                confidence: 95,
                hint: "🧠 识别意图: 取消操作"@,
                missing_fields: Seq::empty(),
            },
        )
    } else {
        None
    }
}

/// A sentence that speaks of a transfer.
pub open spec fn has_transfer_word(s: Seq<char>) -> bool {
    contains(s, "调到"@) || contains(s, "调去"@) || contains(s, "调岗"@) || contains(s, "转到"@)
        || contains(s, "转去"@) || contains(s, "转岗"@) || (contains(s, "从"@) && contains(
        s,
        "到"@,
    ) && !contains(s, "新建"@))
}

/// The sentence without a leading "把" or "将".
pub open spec fn strip_object_marker(s: Seq<char>) -> Seq<char> {
    if starts_with(s, "把"@) {
        s.skip("把"@.len() as int)
    } else if starts_with(s, "将"@) {
        s.skip("将"@.len() as int)
    } else {
        s
    }
}

/// Where the first of "调到", "转到", "调去", "转去" (tried in that order)
/// occurs: its start and its end.
pub open spec fn transfer_word_at(s: Seq<char>) -> Option<(int, int)> {
    match find(s, "调到"@) {
        Some(p) => Some((p, p + "调到"@.len())),
        None => match find(s, "转到"@) {
            Some(p) => Some((p, p + "转到"@.len())),
            None => match find(s, "调去"@) {
                Some(p) => Some((p, p + "调去"@.len())),
                None => match find(s, "转去"@) {
                    Some(p) => Some((p, p + "转去"@.len())),
                    None => None,
                },
            },
        },
    }
}

/// The employee, source and target departments that a transfer sentence names.
pub open spec fn transfer_fields(s: Seq<char>) -> (
    Option<Seq<char>>,
    Option<Seq<char>>,
    Option<Seq<char>>,
) {
    match find(s, "从"@) {
        Some(f) => match transfer_word_at(s) {
            Some((a, b)) => (
                nonempty(trim(s.take(f))),
                nonempty(trim(s.subrange(f + "从"@.len(), a))),
                nonempty(trim(s.skip(b))),
            ),
            None => (None, None, None),
        },
        None => match transfer_word_at(s) {
            Some((a, b)) => (nonempty(trim(s.take(a))), None, nonempty(trim(s.skip(b)))),
            None => match find(s, "调岗"@) {
                Some(p) => (
                    nonempty(trim(s.take(p))),
                    None,
                    nonempty(
                        trim(
                            trim_start_matches(
                                trim_start_matches(s.skip(p + "调岗"@.len()), "到"@),
                                "去"@,
                            ),
                        ),
                    ),
                ),
                None => (None, None, None),
            },
        },
    }
}

/// The sentences on which the transfer rule cannot cut the sentence: the
/// transfer word stands before "从". (The rule fails on them with a slice
/// out of order; the parser does not accept them.)
pub open spec fn transfer_cut_fails(s: Seq<char>) -> bool {
    has_transfer_word(s) && {
        let t = strip_object_marker(s);
        &&& cut_out_of_order(t)
    }
}

/// The transfer word stands before "从" in `t`.
pub open spec fn cut_out_of_order(t: Seq<char>) -> bool {
    match (find(t, "从"@), transfer_word_at(t)) {
        (Some(f), Some((a, _b))) => a < f + "从"@.len(),
        _ => false,
    }
}

/// The transfer rule.
pub open spec fn transfer_rule(s: Seq<char>) -> Option<IntentResultView> {
    if !has_transfer_word(s) {
        None
    } else {
        let (e, f, t) = transfer_fields(strip_object_marker(s));
        if e is None && t is None {
            None
        } else {
            Some(
                result_of(
                    IntentView::Transfer { employee_name: e, from_department: f, to_department: t },
                    92,
                    70,
                ),
            )
        }
    }
}

/// A sentence that speaks of creating a department.
pub open spec fn has_create_word(s: Seq<char>) -> bool {
    contains(s, "新建部门"@) || contains(s, "创建部门"@) || contains(s, "新建一个部门"@) || contains(
        s,
        "创建一个部门"@,
    ) || contains(s, "添加部门"@) || contains(s, "添加一个部门"@) || contains(s, "新建"@)
        || contains(s, "创建"@)
}

/// The characters skipped before a department's name.
pub open spec fn name_lead() -> Seq<char> {
    seq!['叫', '：', ':', ' ']
}

/// Where "下面", or else "下", occurs.
pub open spec fn below_at(s: Seq<char>) -> Option<int> {
    match find(s, "下面"@) {
        Some(p) => Some(p),
        None => find(s, "下"@),
    }
}

/// Name and parent from the form "在 Y 下(面) 新建/创建 部门 X".
pub open spec fn located_parts(s: Seq<char>) -> (Option<Seq<char>>, Option<Seq<char>>) {
    match find(s, "在"@) {
        Some(at) => match below_at(s) {
            Some(bp) => if bp > at && (contains(s.skip(bp), "新建"@) || contains(
                s.skip(bp),
                "创建"@,
            )) {
                let parent = Some(trim(s.subrange(at + "在"@.len(), bp)));
                match find(s.skip(bp), "部门"@) {
                    Some(dp) => (
                        nonempty(trim(trim_start_set(s.skip(bp).skip(dp + "部门"@.len()), name_lead()))),
                        parent,
                    ),
                    None => (None, parent),
                }
            } else {
                (None, None)
            },
            None => (None, None),
        },
        None => (None, None),
    }
}

/// The end of the first of the creation phrases found (tried in the order
/// "新建一个部门", "创建一个部门", "新建部门", "创建部门", "添加一个部门", "添加部门").
pub open spec fn create_phrase_end(s: Seq<char>) -> Option<int> {
    match find(s, "新建一个部门"@) {
        Some(p) => Some(p + "新建一个部门"@.len()),
        None => match find(s, "创建一个部门"@) {
            Some(p) => Some(p + "创建一个部门"@.len()),
            None => match find(s, "新建部门"@) {
                Some(p) => Some(p + "新建部门"@.len()),
                None => match find(s, "创建部门"@) {
                    Some(p) => Some(p + "创建部门"@.len()),
                    None => match find(s, "添加一个部门"@) {
                        Some(p) => Some(p + "添加一个部门"@.len()),
                        None => match find(s, "添加部门"@) {
                            Some(p) => Some(p + "添加部门"@.len()),
                            None => None,
                        },
                    },
                },
            },
        },
    }
}

/// Where " 放在", or else " 在", occurs.
pub open spec fn place_at(s: Seq<char>) -> Option<int> {
    match find(s, " 放在"@) {
        Some(p) => Some(p),
        None => find(s, " 在"@),
    }
}

/// The parent named after " 放在"/" 在", without a trailing "下面"/"下".
pub open spec fn placed_parent(rest: Seq<char>) -> Seq<char> {
    trim(
        trim_end_matches(
            trim_end_matches(
                trim(trim_start_matches(trim_start_matches(rest, " 放在"@), " 在"@)),
                "下面"@,
            ),
            "下"@,
        ),
    )
}

/// Name and parent from the form "新建/创建 部门 X [放在/在 Y 下(面)]";
/// `parent` is the parent found so far.
pub open spec fn phrase_parts(s: Seq<char>, parent: Option<Seq<char>>) -> (
    Option<Seq<char>>,
    Option<Seq<char>>,
) {
    match create_phrase_end(s) {
        Some(end) => {
            let nmp = trim(trim_start_set(s.skip(end), name_lead()));
            match place_at(nmp) {
                Some(ip) => (Some(trim(nmp.take(ip))), Some(placed_parent(nmp.skip(ip)))),
                None => (nonempty(trim(nmp)), parent),
            }
        },
        None => (None, parent),
    }
}

/// The department-creation rule.
pub open spec fn create_rule(s: Seq<char>) -> Option<IntentResultView> {
    if !has_create_word(s) {
        None
    } else {
        let (n1, p1) = located_parts(s);
        let (n, p) = if n1 is Some {
            (n1, p1)
        } else {
            phrase_parts(s, p1)
        };
        if n is None {
            None
        } else {
            Some(
                result_of(
                    IntentView::CreateDepartment { department_name: n, parent_department: p },
                    90,
                    75,
                ),
            )
        }
    }
}

/// A sentence that starts with a search word.
pub open spec fn has_search_word(s: Seq<char>) -> bool {
    starts_with(s, "搜索"@) || starts_with(s, "查找"@) || starts_with(s, "查找一下"@) || starts_with(
        s,
        "找一下"@,
    ) || starts_with(s, "搜"@) || starts_with(s, "找"@)
}

/// The sentence after its search words.
pub open spec fn search_rest(s: Seq<char>) -> Seq<char> {
    trim(
        trim_start_matches(
            trim_start_matches(
                trim_start_matches(
                    trim_start_matches(
                        trim_start_matches(trim_start_matches(s, "搜索"@), "查找一下"@),
                        "查找"@,
                    ),
                    "找一下"@,
                ),
                "搜"@,
            ),
            "找"@,
        ),
    )
}

/// The scope a search keyword asks for.
pub open spec fn scope_for(k: Seq<char>) -> SearchScope {
    if contains(k, "部"@) || contains(k, "部门"@) {
        SearchScope::Department
    } else if contains(k, "员工"@) || contains(k, "人"@) {
        SearchScope::Employee
    } else {
        SearchScope::All
    }
}

/// The keyword without the words "员工", "部门", "的", "人员", "成员".
pub open spec fn clean_keyword(k: Seq<char>) -> Seq<char> {
    trim(
        remove_all(
            remove_all(remove_all(remove_all(remove_all(k, "员工"@), "部门"@), "的"@), "人员"@),
            "成员"@,
        ),
    )
}

/// The search rule.
pub open spec fn search_rule(s: Seq<char>) -> Option<IntentResultView> {
    if !has_search_word(s) {
        None
    } else {
        let k = search_rest(s);
        let c = clean_keyword(k);
        if k.len() == 0 || c.len() == 0 {
            None
        } else {
            Some(
                IntentResultView {
                    intent: IntentView::Search { keyword: c, scope: scope_for(k) },
                    confidence: 85,
                    hint: "🧠 识别意图: 搜索「"@ + c + "」"@,
                    missing_fields: Seq::empty(),
                },
            )
        }
    }
}

/// The inputs the parser accepts: all but those on which the transfer
/// rule would be reached and cannot cut the sentence.
pub open spec fn parse_accepts(input: Seq<char>) -> bool {
    let s = trim(input);
    !(s.len() > 0 && cancel_rule(s) is None && transfer_cut_fails(s))
}

/// What the local parser gives for `input`.
pub open spec fn parse_spec(input: Seq<char>) -> Option<IntentResultView> {
    let s = trim(input);
    if s.len() == 0 {
        None
    } else if cancel_rule(s) is Some {
        cancel_rule(s)
    } else if transfer_rule(s) is Some {
        transfer_rule(s)
    } else if create_rule(s) is Some {
        create_rule(s)
    } else {
        search_rule(s)
    }
}

// ------------------------------------------------------------------
// Implementation
// ------------------------------------------------------------------

/// The result for `intent`: its missing fields, the confidence `full`
/// when nothing is missing and `partial` otherwise, and its hint.
pub fn make_result(intent: ParsedIntent, full: u32, partial: u32) -> (r: IntentResult)
    ensures
        r@ == result_of(intent@, full as nat, partial as nat),
{
    let missing = intent.missing_fields();
    let confidence = if missing.len() == 0 {
        full
    } else {
        partial
    };
    let mut h = chars_of("🧠 识别意图: ");
    append_str(&mut h, intent.intent_type_name());
    let hint = string_of(&h);
    IntentResult { intent, confidence, hint, missing_fields: missing }
}

fn try_parse_cancel(s: &[char]) -> (r: Option<IntentResult>)
    ensures
        r.is_some() == cancel_rule(s@).is_some(),
        r matches Some(x) ==> cancel_rule(s@) == Some(x@),
{
    if starts_with_str(s, "取消") || starts_with_str(s, "算了") || starts_with_str(s, "不要了")
        || starts_with_str(s, "放弃") || starts_with_str(s, "取消操作") || starts_with_str(
        s,
        "不执行",
    ) {
        let r = IntentResult {
            intent: ParsedIntent::Cancel,
            confidence: 95,
            hint: owned("🧠 识别意图: 取消操作"),
            missing_fields: Vec::new(),
        };
        assert(r.missing_fields.deep_view() =~= Seq::<Seq<char>>::empty());
        Some(r)
    } else {
        None
    }
}

fn has_transfer_word_exec(s: &[char]) -> (r: bool)
    ensures
        r == has_transfer_word(s@),
{
    contains_str(s, "调到") || contains_str(s, "调去") || contains_str(s, "调岗") || contains_str(
        s,
        "转到",
    ) || contains_str(s, "转去") || contains_str(s, "转岗") || (contains_str(s, "从")
        && contains_str(s, "到") && !contains_str(s, "新建"))
}

fn strip_object_marker_exec(s: &[char]) -> (r: Vec<char>)
    ensures
        r@ == strip_object_marker(s@),
{
    let ba = chars_of("把");
    let jiang = chars_of("将");
    if starts_with_str(s, "把") {
        skip_chars(s, ba.len())
    } else if starts_with_str(s, "将") {
        skip_chars(s, jiang.len())
    } else {
        sub_chars(s, 0, s.len())
    }
}

fn found_end(s: &[char], pat: &str, p: usize) -> (r: (usize, usize))
    requires
        find(s@, pat@) == Some(p as int),
    ensures
        r.0 == p,
        r.1 == p + pat@.len(),
        r.1 <= s.len(),
{
    proof {
        crate::text::lemma_find_from(s@, pat@, 0);
        assert(crate::text::occurs_at(s@, pat@, p as int));
    }
    let q = chars_of(pat);
    let n = s.len();
    assert(p + q.len() <= n);
    (p, p + q.len())
}

fn transfer_word_at_exec(s: &[char]) -> (r: Option<(usize, usize)>)
    ensures
        match r {
            Some((a, b)) => transfer_word_at(s@) == Some((a as int, b as int)) && a <= b <= s.len(),
            None => transfer_word_at(s@) is None,
        },
{
    match find_str(s, "调到") {
        Some(p) => Some(found_end(s, "调到", p)),
        None => match find_str(s, "转到") {
            Some(p) => Some(found_end(s, "转到", p)),
            None => match find_str(s, "调去") {
                Some(p) => Some(found_end(s, "调去", p)),
                None => match find_str(s, "转去") {
                    Some(p) => Some(found_end(s, "转去", p)),
                    None => None,
                },
            },
        },
    }
}

fn trimmed_nonempty(s: &[char], a: usize, b: usize) -> (r: Option<String>)
    requires
        a <= b <= s.len(),
    ensures
        r.deep_view() == nonempty(trim(s@.subrange(a as int, b as int))),
{
    let piece = sub_chars(s, a, b);
    let t = trim_chars(&piece);
    nonempty_string(&t)
}

fn transfer_fields_exec(s: &[char]) -> (r: (Option<String>, Option<String>, Option<String>))
    requires
        !cut_out_of_order(s@),
    ensures
        (r.0.deep_view(), r.1.deep_view(), r.2.deep_view()) == transfer_fields(s@),
{
    let n = s.len();
    let cong = chars_of("从");
    match find_str(s, "从") {
        Some(f) => {
            proof {
                crate::text::lemma_find_from(s@, "从"@, 0);
            }
            match transfer_word_at_exec(s) {
                Some((a, b)) => {
                    let e = trimmed_nonempty(s, 0, f);
                    let fr = trimmed_nonempty(s, f + cong.len(), a);
                    let t = trimmed_nonempty(s, b, n);
                    assert(s@.subrange(0, f as int) =~= s@.take(f as int));
                    assert(s@.subrange(b as int, n as int) =~= s@.skip(b as int));
                    (e, fr, t)
                },
                None => (None, None, None),
            }
        },
        None => match transfer_word_at_exec(s) {
            Some((a, b)) => {
                let e = trimmed_nonempty(s, 0, a);
                let t = trimmed_nonempty(s, b, n);
                assert(s@.subrange(0, a as int) =~= s@.take(a as int));
                assert(s@.subrange(b as int, n as int) =~= s@.skip(b as int));
                (e, None, t)
            },
            None => match find_str(s, "调岗") {
                Some(p) => {
                    let (p0, pe) = found_end(s, "调岗", p);
                    let e = trimmed_nonempty(s, 0, p0);
                    assert(s@.subrange(0, p0 as int) =~= s@.take(p0 as int));
                    let rest = skip_chars(s, pe);
                    let rest1 = trim_start_matches_str(&rest, "到");
                    let rest2 = trim_start_matches_str(&rest1, "去");
                    let rest3 = trim_chars(&rest2);
                    (e, None, nonempty_string(&rest3))
                },
                None => (None, None, None),
            },
        },
    }
}

fn try_parse_transfer(s: &[char]) -> (r: Option<IntentResult>)
    requires
        !transfer_cut_fails(s@),
    ensures
        r.is_some() == transfer_rule(s@).is_some(),
        r matches Some(x) ==> transfer_rule(s@) == Some(x@),
{
    if !has_transfer_word_exec(s) {
        return None;
    }
    let t = strip_object_marker_exec(s);
    let (e, f, to) = transfer_fields_exec(&t);
    if e.is_none() && to.is_none() {
        return None;
    }
    let intent = ParsedIntent::Transfer { employee_name: e, from_department: f, to_department: to };
    Some(make_result(intent, 92, 70))
}

fn has_create_word_exec(s: &[char]) -> (r: bool)
    ensures
        r == has_create_word(s@),
{
    contains_str(s, "新建部门") || contains_str(s, "创建部门") || contains_str(s, "新建一个部门")
        || contains_str(s, "创建一个部门") || contains_str(s, "添加部门") || contains_str(
        s,
        "添加一个部门",
    ) || contains_str(s, "新建") || contains_str(s, "创建")
}

fn name_lead_exec() -> (r: Vec<char>)
    ensures
        r@ == name_lead(),
{
    let mut v: Vec<char> = Vec::new();
    v.push('叫');
    v.push('：');
    v.push(':');
    v.push(' ');
    assert(v@ =~= name_lead());
    v
}

fn below_at_exec(s: &[char]) -> (r: Option<usize>)
    ensures
        match r {
            Some(p) => below_at(s@) == Some(p as int),
            None => below_at(s@) is None,
        },
{
    match find_str(s, "下面") {
        Some(p) => Some(p),
        None => find_str(s, "下"),
    }
}

#[verifier::spinoff_prover]
fn located_parts_exec(s: &[char]) -> (r: (Option<String>, Option<String>))
    ensures
        (r.0.deep_view(), r.1.deep_view()) == located_parts(s@),
{
    let zai = chars_of("在");
    let bumen = chars_of("部门");
    proof {
        reveal_strlit("在");
    }
    match find_str(s, "在") {
        Some(at) => {
            proof {
                crate::text::lemma_find_from(s@, "在"@, 0);
                assert(crate::text::occurs_at(s@, "在"@, at as int));
            }
            match below_at_exec(s) {
                Some(bp) => {
                    proof {
                        crate::text::lemma_find_from(s@, "下面"@, 0);
                        crate::text::lemma_find_from(s@, "下"@, 0);
                        assert(bp <= s@.len());
                    }
                    if bp > at {
                        let after = skip_chars(s, bp);
                        if contains_str(&after, "新建") || contains_str(&after, "创建") {
                            let piece = sub_chars(s, at + zai.len(), bp);
                            let parent_chars = trim_chars(&piece);
                            let parent = Some(string_of(&parent_chars));
                            match find_str(&after, "部门") {
                                Some(dp) => {
                                    proof {
                                        crate::text::lemma_find_from(after@, "部门"@, 0);
                                        assert(crate::text::occurs_at(after@, "部门"@, dp as int));
                                        reveal_strlit("部门");
                                        assert(bumen@ == "部门"@);
                                        assert(dp + bumen@.len() <= after@.len());
                                    }
                                    let after_len = after.len();
                                    let bumen_len = bumen.len();
                                    assert(dp + bumen_len <= after_len);
                                    let rest = skip_chars(&after, dp + bumen_len);
                                    let lead = name_lead_exec();
                                    let rest1 = trim_start_set_chars(&rest, &lead);
                                    let name = trim_chars(&rest1);
                                    (nonempty_string(&name), parent)
                                },
                                None => (None, parent),
                            }
                        } else {
                            (None, None)
                        }
                    } else {
                        (None, None)
                    }
                },
                None => (None, None),
            }
        },
        None => (None, None),
    }
}

fn phrase_end_exec(s: &[char]) -> (r: Option<usize>)
    ensures
        match r {
            Some(e) => create_phrase_end(s@) == Some(e as int) && e <= s.len(),
            None => create_phrase_end(s@) is None,
        },
{
    match find_str(s, "新建一个部门") {
        Some(p) => Some(found_end(s, "新建一个部门", p).1),
        None => match find_str(s, "创建一个部门") {
            Some(p) => Some(found_end(s, "创建一个部门", p).1),
            None => match find_str(s, "新建部门") {
                Some(p) => Some(found_end(s, "新建部门", p).1),
                None => match find_str(s, "创建部门") {
                    Some(p) => Some(found_end(s, "创建部门", p).1),
                    None => match find_str(s, "添加一个部门") {
                        Some(p) => Some(found_end(s, "添加一个部门", p).1),
                        None => match find_str(s, "添加部门") {
                            Some(p) => Some(found_end(s, "添加部门", p).1),
                            None => None,
                        },
                    },
                },
            },
        },
    }
}

fn place_at_exec(s: &[char]) -> (r: Option<usize>)
    ensures
        match r {
            Some(p) => place_at(s@) == Some(p as int) && p <= s.len(),
            None => place_at(s@) is None,
        },
{
    proof {
        crate::text::lemma_find_from(s@, " 放在"@, 0);
        crate::text::lemma_find_from(s@, " 在"@, 0);
    }
    match find_str(s, " 放在") {
        Some(p) => {
            assert(crate::text::occurs_at(s@, " 放在"@, p as int));
            Some(p)
        },
        None => {
            let q = find_str(s, " 在");
            match q {
                Some(p) => {
                    assert(crate::text::occurs_at(s@, " 在"@, p as int));
                },
                None => {},
            }
            q
        },
    }
}

fn placed_parent_exec(rest: &[char]) -> (r: String)
    ensures
        r@ == placed_parent(rest@),
{
    let a = trim_start_matches_str(rest, " 放在");
    let b = trim_start_matches_str(&a, " 在");
    let c = trim_chars(&b);
    let d = trim_end_matches_str(&c, "下面");
    let e = trim_end_matches_str(&d, "下");
    let f = trim_chars(&e);
    string_of(&f)
}

fn phrase_parts_exec(s: &[char], parent: Option<String>) -> (r: (Option<String>, Option<String>))
    ensures
        (r.0.deep_view(), r.1.deep_view()) == phrase_parts(s@, parent.deep_view()),
{
    match phrase_end_exec(s) {
        Some(end) => {
            let after = skip_chars(s, end);
            let lead = name_lead_exec();
            let a1 = trim_start_set_chars(&after, &lead);
            let nmp = trim_chars(&a1);
            match place_at_exec(&nmp) {
                Some(ip) => {
                    let head = take_chars(&nmp, ip);
                    let name = trim_chars(&head);
                    let tail = skip_chars(&nmp, ip);
                    (Some(string_of(&name)), Some(placed_parent_exec(&tail)))
                },
                None => {
                    let name = trim_chars(&nmp);
                    (nonempty_string(&name), parent)
                },
            }
        },
        None => (None, parent),
    }
}

fn try_parse_create_department(s: &[char]) -> (r: Option<IntentResult>)
    ensures
        r.is_some() == create_rule(s@).is_some(),
        r matches Some(x) ==> create_rule(s@) == Some(x@),
{
    if !has_create_word_exec(s) {
        return None;
    }
    let (n1, p1) = located_parts_exec(s);
    let (n, p) = if n1.is_some() {
        (n1, p1)
    } else {
        phrase_parts_exec(s, p1)
    };
    if n.is_none() {
        return None;
    }
    let intent = ParsedIntent::CreateDepartment { department_name: n, parent_department: p };
    Some(make_result(intent, 90, 75))
}

fn has_search_word_exec(s: &[char]) -> (r: bool)
    ensures
        r == has_search_word(s@),
{
    starts_with_str(s, "搜索") || starts_with_str(s, "查找") || starts_with_str(s, "查找一下")
        || starts_with_str(s, "找一下") || starts_with_str(s, "搜") || starts_with_str(s, "找")
}

fn search_rest_exec(s: &[char]) -> (r: Vec<char>)
    ensures
        r@ == search_rest(s@),
{
    let a = trim_start_matches_str(s, "搜索");
    let b = trim_start_matches_str(&a, "查找一下");
    let c = trim_start_matches_str(&b, "查找");
    let d = trim_start_matches_str(&c, "找一下");
    let e = trim_start_matches_str(&d, "搜");
    let f = trim_start_matches_str(&e, "找");
    trim_chars(&f)
}

fn scope_for_exec(k: &[char]) -> (r: SearchScope)
    ensures
        r == scope_for(k@),
{
    if contains_str(k, "部") || contains_str(k, "部门") {
        SearchScope::Department
    } else if contains_str(k, "员工") || contains_str(k, "人") {
        SearchScope::Employee
    } else {
        SearchScope::All
    }
}

fn clean_keyword_exec(k: &[char]) -> (r: Vec<char>)
    ensures
        r@ == clean_keyword(k@),
{
    let a = remove_all_str(k, "员工");
    let b = remove_all_str(&a, "部门");
    let c = remove_all_str(&b, "的");
    let d = remove_all_str(&c, "人员");
    let e = remove_all_str(&d, "成员");
    trim_chars(&e)
}

fn try_parse_search(s: &[char]) -> (r: Option<IntentResult>)
    ensures
        r.is_some() == search_rule(s@).is_some(),
        r matches Some(x) ==> search_rule(s@) == Some(x@),
{
    if !has_search_word_exec(s) {
        return None;
    }
    let k = search_rest_exec(s);
    if k.len() == 0 {
        return None;
    }
    let scope = scope_for_exec(&k);
    let c = clean_keyword_exec(&k);
    if c.len() == 0 {
        return None;
    }
    let mut h = chars_of("🧠 识别意图: 搜索「");
    append_chars(&mut h, &c);
    append_str(&mut h, "」");
    let r = IntentResult {
        intent: ParsedIntent::Search { keyword: string_of(&c), scope },
        confidence: 85,
        hint: string_of(&h),
        missing_fields: Vec::new(),
    };
    assert(r.missing_fields.deep_view() =~= Seq::<Seq<char>>::empty());
    Some(r)
}

/// Whether the rule parser accepts `input`: all sentences but those that
/// reach the transfer rule with the transfer word before "从".
pub fn parse_accepted(input: &str) -> (r: bool)
    ensures
        r == parse_accepts(input@),
{
    let cs = chars_of(input);
    let s = trim_chars(&cs);
    if s.len() == 0 || try_parse_cancel(&s).is_some() || !has_transfer_word_exec(&s) {
        return true;
    }
    let t = strip_object_marker_exec(&s);
    match (find_str(&t, "从"), transfer_word_at_exec(&t)) {
        (Some(f), Some((a, _b))) => {
            proof {
                reveal_strlit("从");
            }
            !(a <= f)
        },
        _ => true,
    }
}

/// Parses a sentence with the local rules.
///
/// The trimmed input is tried against, in order, the cancel, transfer,
/// department-creation and search rules; `None` when it is empty or no
/// rule applies.
pub fn parse_intent(input: &str) -> (r: Option<IntentResult>)
    requires
        parse_accepts(input@),
    ensures
        r.is_some() == parse_spec(input@).is_some(),
        r matches Some(x) ==> parse_spec(input@) == Some(x@),
{
    let cs = chars_of(input);
    let s = trim_chars(&cs);
    if s.len() == 0 {
        return None;
    }
    let c = try_parse_cancel(&s);
    if c.is_some() {
        return c;
    }
    let t = try_parse_transfer(&s);
    if t.is_some() {
        return t;
    }
    let d = try_parse_create_department(&s);
    if d.is_some() {
        return d;
    }
    try_parse_search(&s)
}

// ------------------------------------------------------------------
// Laws
// ------------------------------------------------------------------

/// Text that holds `p + q` holds `p`.
proof fn lemma_contains_front(s: Seq<char>, p: Seq<char>, q: Seq<char>)
    requires
        contains(s, p + q),
    ensures
        contains(s, p),
{
    crate::text::lemma_find_from(s, p + q, 0);
    let j = find(s, p + q)->0;
    assert(crate::text::occurs_at(s, p + q, j));
    assert(s.subrange(j, j + (p + q).len()) == p + q);
    assert(s.subrange(j, j + p.len()) =~= s.subrange(j, j + (p + q).len()).subrange(0, p.len() as int));
    assert(s.subrange(j, j + p.len()) =~= (p + q).subrange(0, p.len() as int));
    assert((p + q).subrange(0, p.len() as int) =~= p);
    assert(crate::text::occurs_at(s, p, j));
    crate::text::lemma_find_from(s, p, 0);
}

/// The scope of a search follows the words after the search word: a
/// department when they hold "部", else staff when they hold "员工" or
/// "人", else everything.
pub proof fn law_search_scope(input: Seq<char>)
    requires
        parse_spec(input) matches Some(r) && r.intent is Search,
    ensures
        ({
            let k = search_rest(trim(input));
            let scope = parse_spec(input)->0.intent->scope;
            &&& contains(k, "部"@) ==> scope == SearchScope::Department
            &&& !contains(k, "部"@) && (contains(k, "员工"@) || contains(k, "人"@)) ==> scope
                == SearchScope::Employee
            &&& !contains(k, "部"@) && !contains(k, "员工"@) && !contains(k, "人"@) ==> scope
                == SearchScope::All
        }),
{
    let s = trim(input);
    let k = search_rest(s);
    reveal_strlit("部");
    reveal_strlit("部门");
    reveal_strlit("门");
    assert("部门"@ =~= "部"@ + "门"@);
    if contains(k, "部门"@) {
        lemma_contains_front(k, "部"@, "门"@);
    }
    if cancel_rule(s) is Some {
        assert(!(cancel_rule(s)->0.intent is Search));
    } else if transfer_rule(s) is Some {
        assert(!(transfer_rule(s)->0.intent is Search));
    } else if create_rule(s) is Some {
        assert(!(create_rule(s)->0.intent is Search));
    }
}

/// A sentence that, trimmed, starts with a cancel word ("取消", "算了",
/// "不要了", "放弃", "不执行") is read as a cancellation, with nothing
/// missing, whatever follows.
pub proof fn law_cancel_words_cancel(input: Seq<char>)
    requires
        starts_with(trim(input), "取消"@) || starts_with(trim(input), "算了"@) || starts_with(
            trim(input),
            "不要了"@,
        ) || starts_with(trim(input), "放弃"@) || starts_with(trim(input), "不执行"@),
    ensures
        parse_spec(input) matches Some(r) && r.intent == IntentView::Cancel && r.missing_fields.len() == 0,
{
    reveal_strlit("取消");
    reveal_strlit("算了");
    reveal_strlit("不要了");
    reveal_strlit("放弃");
    reveal_strlit("不执行");
}

/// A search always has a keyword, and nothing is missing from it.
pub proof fn law_search_has_keyword(input: Seq<char>)
    requires
        parse_spec(input) matches Some(r) && r.intent is Search,
    ensures
        parse_spec(input)->0.intent->keyword.len() > 0,
        parse_spec(input)->0.missing_fields.len() == 0,
{
    let s = trim(input);
    if cancel_rule(s) is Some {
    } else if transfer_rule(s) is Some {
        assert(!(transfer_rule(s)->0.intent is Search));
    } else if create_rule(s) is Some {
        assert(!(create_rule(s)->0.intent is Search));
    }
}

} // verus!
