use console::conversation::{fill_missing_from_text, merge_intents};
use console::intent::{ParsedIntent, SearchScope};
use console::llm::{
    bearer_header, chat_completions_url, chat_messages, clean_llm_json, first_choice, invalid_intent_json,
    llm_intent_result, llm_status_error, unreadable_reply, IntentError, LlmConfig,
};
use console::parse::parse_intent;

fn some(s: &str) -> Option<String> {
    Some(s.to_string())
}

#[test]
fn test_parse_transfer_full() {
    let result = parse_intent("把张三从市场部调到产品部").unwrap();
    match result.intent {
        ParsedIntent::Transfer { employee_name, from_department, to_department } => {
            assert_eq!(employee_name.as_deref(), Some("张三"));
            assert_eq!(from_department.as_deref(), Some("市场部"));
            assert_eq!(to_department.as_deref(), Some("产品部"));
        }
        _ => panic!("Expected Transfer intent"),
    }
}

#[test]
fn test_parse_transfer_partial() {
    let result = parse_intent("将张三调到产品部").unwrap();
    match result.intent {
        ParsedIntent::Transfer { employee_name, to_department, .. } => {
            assert_eq!(employee_name.as_deref(), Some("张三"));
            assert_eq!(to_department.as_deref(), Some("产品部"));
        }
        _ => panic!("Expected Transfer intent"),
    }
}

#[test]
fn test_parse_create_department() {
    let result = parse_intent("新建部门 AI实验室 放在技术中心下面").unwrap();
    match result.intent {
        ParsedIntent::CreateDepartment { department_name, parent_department } => {
            assert_eq!(department_name.as_deref(), Some("AI实验室"));
            assert_eq!(parent_department.as_deref(), Some("技术中心"));
        }
        _ => panic!("Expected CreateDepartment intent"),
    }
}

#[test]
fn test_parse_search() {
    let result = parse_intent("搜索张三").unwrap();
    match result.intent {
        ParsedIntent::Search { keyword, .. } => assert_eq!(keyword, "张三"),
        _ => panic!("Expected Search intent"),
    }
}

#[test]
fn test_parse_cancel() {
    let result = parse_intent("取消").unwrap();
    assert!(matches!(result.intent, ParsedIntent::Cancel));
}

#[test]
fn test_missing_fields() {
    let result = parse_intent("调到产品部").unwrap();
    assert!(!result.missing_fields.is_empty());
}

// The JSON of a reply is decoded by the application layer; the library
// cleans the reply text and builds the result for the decoded intent.

#[test]
fn test_llm_json_deserialization() {
    let json = r#"{"type":"transfer","employee_name":"张三","from_department":"市场部","to_department":"产品部"}"#;
    assert_eq!(clean_llm_json(json), json);
    let intent = ParsedIntent::Transfer {
        employee_name: some("张三"),
        from_department: some("市场部"),
        to_department: some("产品部"),
    };
    let result = llm_intent_result(intent);
    match result.intent {
        ParsedIntent::Transfer { employee_name, from_department, to_department } => {
            assert_eq!(employee_name.as_deref(), Some("张三"));
            assert_eq!(from_department.as_deref(), Some("市场部"));
            assert_eq!(to_department.as_deref(), Some("产品部"));
        }
        _ => panic!("Expected Transfer"),
    }
    assert_eq!(result.confidence, 95);
    assert!(result.missing_fields.is_empty());
}

#[test]
fn test_llm_json_with_nulls() {
    let intent = ParsedIntent::Transfer { employee_name: None, from_department: None, to_department: some("产品部") };
    let result = llm_intent_result(intent);
    assert_eq!(result.missing_fields.len(), 1);
    assert_eq!(result.missing_fields[0], "员工姓名");
    assert_eq!(result.confidence, 75);
}

#[test]
fn test_llm_json_create_dept() {
    let intent = ParsedIntent::CreateDepartment { department_name: some("AI实验室"), parent_department: some("技术中心") };
    let result = llm_intent_result(intent);
    match result.intent {
        ParsedIntent::CreateDepartment { department_name, parent_department } => {
            assert_eq!(department_name.as_deref(), Some("AI实验室"));
            assert_eq!(parent_department.as_deref(), Some("技术中心"));
        }
        _ => panic!("Expected CreateDepartment"),
    }
    assert_eq!(result.hint, "🧠 识别意图: 新建部门");
}

#[test]
fn test_llm_json_with_markdown_wrapper() {
    let json = "```json\n{\"type\":\"cancel\"}\n```";
    assert_eq!(clean_llm_json(json), "{\"type\":\"cancel\"}");
    let result = llm_intent_result(ParsedIntent::Cancel);
    assert!(matches!(result.intent, ParsedIntent::Cancel));
}

#[test]
fn test_llm_json_search() {
    let result = llm_intent_result(ParsedIntent::Search { keyword: "张三".to_string(), scope: SearchScope::Employee });
    match result.intent {
        ParsedIntent::Search { keyword, scope } => {
            assert_eq!(keyword, "张三");
            assert_eq!(scope, SearchScope::Employee);
        }
        _ => panic!("Expected Search"),
    }
}

#[test]
fn test_llm_json_unknown() {
    let result = llm_intent_result(ParsedIntent::Unknown { message: "今天天气怎么样".to_string() });
    match result.intent {
        ParsedIntent::Unknown { message } => assert_eq!(message, "今天天气怎么样"),
        _ => panic!("Expected Unknown"),
    }
}

#[test]
fn parse_ignores_surrounding_space() {
    let a = parse_intent("  搜索张三  ").unwrap();
    let b = parse_intent("搜索张三").unwrap();
    assert_eq!(a, b);
    assert!(parse_intent("   ").is_none());
    assert!(parse_intent("").is_none());
}

#[test]
fn parse_results_list_missing_fields() {
    let r = parse_intent("调到产品部").unwrap();
    assert_eq!(r.missing_fields, vec!["员工姓名".to_string()]);
    assert_eq!(r.missing_fields, r.intent.missing_fields());
    let r = parse_intent("把张三从市场部调到产品部").unwrap();
    assert!(r.missing_fields.is_empty());
    assert_eq!(r.hint, "🧠 识别意图: 员工调岗");
}

#[test]
fn intent_queries() {
    let t = ParsedIntent::Transfer { employee_name: None, from_department: None, to_department: None };
    assert_eq!(t.intent_type_name(), "员工调岗");
    assert_eq!(t.icon(), "🔄");
    assert!(!t.is_complete());
    assert_eq!(t.missing_fields(), vec!["员工姓名".to_string(), "目标部门".to_string()]);
    assert_eq!(t.ask_for_missing().as_deref(), Some("请告诉我要调动哪位员工，调到哪个部门？"));
    assert_eq!(t.describe(), "将 ? 从 当前部门 调到 ?");
    let c = ParsedIntent::CreateDepartment { department_name: some("AI实验室"), parent_department: some("技术中心") };
    assert!(c.is_complete());
    assert_eq!(c.ask_for_missing(), None);
    assert_eq!(c.describe(), "在 技术中心 下新建部门 AI实验室");
    assert_eq!(ParsedIntent::Cancel.icon(), "❌");
    let s = ParsedIntent::Search { keyword: "张三".to_string(), scope: SearchScope::Department };
    assert_eq!(s.describe(), "搜索部门：张三");
}

#[test]
fn merge_prefers_newer_known_fields() {
    let old = ParsedIntent::Transfer { employee_name: some("张三"), from_department: some("市场部"), to_department: None };
    let new = ParsedIntent::Transfer { employee_name: None, from_department: some("销售部"), to_department: some("产品部") };
    let m = merge_intents(&old, &new);
    assert_eq!(
        m,
        ParsedIntent::Transfer { employee_name: some("张三"), from_department: some("销售部"), to_department: some("产品部") }
    );
    let other = merge_intents(&old, &ParsedIntent::Cancel);
    assert_eq!(other, ParsedIntent::Cancel);
}

#[test]
fn fill_fills_one_field() {
    let t = ParsedIntent::Transfer { employee_name: None, from_department: None, to_department: None };
    let t1 = fill_missing_from_text(&t, "张三");
    assert_eq!(t1.missing_fields().len(), 1);
    let t2 = fill_missing_from_text(&t1, "产品部");
    assert_eq!(
        t2,
        ParsedIntent::Transfer { employee_name: some("张三"), from_department: None, to_department: some("产品部") }
    );
}

#[test]
fn llm_request_framing() {
    assert_eq!(chat_completions_url("http://localhost:11434/v1/"), "http://localhost:11434/v1/chat/completions");
    let msgs = chat_messages(&vec![("user".to_string(), "hi".to_string())], "把张三调到产品部");
    assert_eq!(msgs.len(), 3);
    assert_eq!(msgs[0].role, "system");
    assert_eq!(msgs[2].content, "把张三调到产品部");
    assert_eq!(bearer_header(&some("k1")).as_deref(), Some("Bearer k1"));
    assert_eq!(bearer_header(&None), None);
    let cfg = LlmConfig::default();
    assert!(!cfg.model.is_empty());
}

#[test]
fn llm_errors() {
    match llm_status_error(500, "boom") {
        IntentError::LlmApi(m) => assert_eq!(m, "HTTP 500: boom"),
        _ => panic!(),
    }
    match first_choice(vec![]) {
        Err(IntentError::LlmApi(m)) => assert_eq!(m, "No choices in response"),
        _ => panic!(),
    }
    assert_eq!(first_choice(vec!["a".to_string(), "b".to_string()]).unwrap(), "a");
    match invalid_intent_json("bad", "{") {
        IntentError::Serialization(m) => assert_eq!(m, "Invalid intent JSON: bad\nRaw: {"),
        _ => panic!(),
    }
    let e = unreadable_reply("eof");
    assert_eq!(e.message(), "解析错误: Failed to parse LLM response: eof");
    assert_eq!(IntentError::Network("x".to_string()).message(), "网络错误: x");
}

#[test]
fn inputs_the_rules_accept() {
    assert!(console::parse::parse_accepted("把张三从市场部调到产品部"));
    assert!(console::parse::parse_accepted(""));
    assert!(console::parse::parse_accepted("取消调到从"));
    assert!(!console::parse::parse_accepted("张三调到产品部从市场部"));
}

#[test]
fn white_space_matches_std() {
    for u in 0u32..=0x10FFFF {
        if let Some(c) = char::from_u32(u) {
            assert_eq!(console::text::is_white_space(c), c.is_whitespace(), "U+{u:04X}");
        }
    }
}
