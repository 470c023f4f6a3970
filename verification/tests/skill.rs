use console::intent::{ParsedIntent, SearchScope};
use console::skill::{ParamSource, Skill, SkillStore};

fn some(s: &str) -> Option<String> {
    Some(s.to_string())
}

#[test]
fn builtin_skills() {
    let s = SkillStore::new();
    let ids: Vec<&str> = s.skills.iter().map(|k| k.id.as_str()).collect();
    assert_eq!(ids, vec!["builtin_create_dept_full", "builtin_create_dept_simple", "builtin_transfer"]);
    assert_eq!(s.skills[2].trigger_keywords, vec!["调到".to_string(), "调岗".to_string(), "转到".to_string()]);
}

#[test]
fn skills_are_matched_by_intent() {
    let s = SkillStore::new();
    let full = ParsedIntent::CreateDepartment { department_name: some("A"), parent_department: some("B") };
    assert_eq!(s.match_skill_by_intent(&full).unwrap().id, "builtin_create_dept_full");
    let simple = ParsedIntent::CreateDepartment { department_name: some("A"), parent_department: None };
    assert_eq!(s.match_skill_by_intent(&simple).unwrap().id, "builtin_create_dept_simple");
    let t = ParsedIntent::Transfer { employee_name: None, from_department: None, to_department: None };
    assert_eq!(s.match_skill_by_intent(&t).unwrap().id, "builtin_transfer");
    assert!(s.match_skill_by_intent(&ParsedIntent::Cancel).is_none());
}

#[test]
fn success_is_counted_and_ordering_is_stable() {
    let mut s = SkillStore::new();
    let t = ParsedIntent::Transfer { employee_name: some("张三"), from_department: None, to_department: some("产品部") };
    s.record_success(&t, "2026/05/01 10:00".to_string());
    s.record_success(&t, "2026/05/02 11:00".to_string());
    let simple = ParsedIntent::CreateDepartment { department_name: some("A"), parent_department: None };
    s.record_success(&simple, "2026/05/03 12:00".to_string());
    // a search has no built-in skill: nothing changes
    s.record_success(&ParsedIntent::Search { keyword: "x".to_string(), scope: SearchScope::All }, "t".to_string());
    assert_eq!(s.skills[2].use_count, 2);
    assert_eq!(s.skills[2].last_used.as_deref(), Some("2026/05/02 11:00"));
    assert_eq!(s.skills[1].use_count, 1);
    let order: Vec<&str> = s.skills_by_usage().iter().map(|k| k.id.as_str()).collect();
    assert_eq!(order, vec!["builtin_transfer", "builtin_create_dept_simple", "builtin_create_dept_full"]);
    let fresh = SkillStore::new();
    let order: Vec<&str> = fresh.skills_by_usage().iter().map(|k| k.id.as_str()).collect();
    assert_eq!(order, vec!["builtin_create_dept_full", "builtin_create_dept_simple", "builtin_transfer"]);
}

#[test]
fn usage_round_trip() {
    let mut s = SkillStore::new();
    let t = ParsedIntent::Transfer { employee_name: some("张三"), from_department: None, to_department: some("产品部") };
    s.record_success(&t, "now".to_string());
    let (counts, times) = s.usage_record();
    let mut fresh = SkillStore::new();
    fresh.apply_usage(&counts, &times);
    assert_eq!(fresh.skills, s.skills);
}

#[test]
fn markdown_export() {
    let mut s = SkillStore::new();
    s.skills.truncate(1);
    s.skills.push(Skill {
        id: "custom".to_string(),
        name: "自定义".to_string(),
        intent_type: "search".to_string(),
        trigger_keywords: vec!["找".to_string()],
        param_templates: vec![("scope".to_string(), ParamSource::Fixed { value: "a\"b".to_string() })],
        steps: vec!["1 步".to_string()],
        use_count: 4,
        last_used: None,
    });
    let md = s.export_as_markdown();
    assert!(md.starts_with("# Xilulu Console Skills\n\n> 自动生成的 Skill 列表，LLM 可直接读取。\n\n## builtin_create_dept_full\n\n"));
    assert!(md.contains("- **触发词**: 新建部门, 创建部门\n"));
    assert!(md.contains("- `department_name`: UserInput\n"));
    assert!(md.contains("## custom\n\n- **名称**: 自定义\n- **意图**: `search`\n- **触发词**: 找\n- **使用次数**: 4\n\n**参数**:\n- `scope`: Fixed { value: \"a\\\"b\" }\n\n**执行步骤**:\n1 步\n\n"));
    assert_eq!(s.skills_md_for_llm(""), md);
    let with_builtin = s.skills_md_for_llm("# Skills");
    assert_eq!(
        with_builtin,
        "# Skills\n\n---\n\n## 运行时使用统计\n\n- **custom** (自定义): 使用 4 次\n- **builtin_create_dept_full** (创建部门（指定上级）): 使用 0 次\n"
    );
}

#[test]
fn timestamps_and_limits() {
    assert_eq!(console::skill::timestamp_text(2026, 0, 5, 9, 7), "2026/01/5 09:07");
    assert_eq!(console::skill::timestamp_text(2025, 11, 31, 23, 59), "2025/12/31 23:59");
    let mut s = SkillStore::new();
    let t = ParsedIntent::Transfer { employee_name: some("a"), from_department: None, to_department: some("b") };
    assert!(s.can_record(&t));
    s.skills[2].use_count = u32::MAX;
    assert!(!s.can_record(&t));
    assert!(s.can_record(&ParsedIntent::Cancel));
}
