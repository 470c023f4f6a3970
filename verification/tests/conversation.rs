use console::conversation::{ConversationManager, ConversationState, MessageRole};
use console::intent::{IntentResult, ParsedIntent, SearchScope};
use console::llm::{llm_intent_result, IntentError};

fn some(s: &str) -> Option<String> {
    Some(s.to_string())
}

#[test]
fn new_conversation_is_idle() {
    let c = ConversationManager::new();
    assert_eq!(c.state, ConversationState::Idle);
    assert!(c.operation_history.is_empty());
    assert!(!c.is_active());
    assert!(!c.is_parsing());
    assert!(c.history().is_empty());
    assert!(c.current_intent().is_none());
}

#[test]
fn complete_intent_is_put_up_for_confirmation() {
    let mut c = ConversationManager::new();
    c.process_input("把张三从市场部调到产品部");
    match &c.state {
        ConversationState::Confirming { result, history } => {
            assert!(result.missing_fields.is_empty());
            assert_eq!(history.len(), 3);
            assert_eq!(history[0].role, MessageRole::User);
            assert_eq!(history[0].content, "把张三从市场部调到产品部");
            assert_eq!(history[0].timestamp, "刚刚");
            assert_eq!(history[1].content, "🧠 识别意图: 员工调岗\n将 张三 从 市场部 调到 产品部");
            assert_eq!(history[2].content, "请确认是否执行？");
        }
        other => panic!("unexpected state {other:?}"),
    }
    assert!(c.is_active());
}

#[test]
fn confirming_records_one_operation() {
    let mut c = ConversationManager::new();
    c.process_input("把张三从市场部调到产品部");
    c.process_input("确认");
    match &c.state {
        ConversationState::Executing { intent } => assert_eq!(
            intent,
            &ParsedIntent::Transfer {
                employee_name: some("张三"),
                from_department: some("市场部"),
                to_department: some("产品部"),
            }
        ),
        other => panic!("unexpected state {other:?}"),
    }
    assert_eq!(c.operation_history.len(), 1);
    assert_eq!(c.operation_history[0].description, "将 张三 从 市场部 调到 产品部");
    assert!(c.operation_history[0].undoable);
    c.apply_execution_result(true, "完成".to_string(), Some("细节".to_string()));
    assert_eq!(c.state, ConversationState::Done { summary: "完成\n细节".to_string(), success: true });
    assert_eq!(c.operation_history.len(), 1);
    c.execute_current();
    assert_eq!(c.operation_history.len(), 1);
}

#[test]
fn declining_returns_to_idle_and_keeps_history() {
    let mut c = ConversationManager::new();
    c.process_input("把张三从市场部调到产品部");
    c.confirm();
    c.apply_execution_result(false, "失败".to_string(), None);
    c.process_input("把李四调到销售部");
    c.process_input("算了");
    assert_eq!(c.state, ConversationState::Idle);
    assert_eq!(c.operation_history.len(), 1);
    c.process_input("新建部门 AI实验室");
    c.cancel();
    assert_eq!(c.state, ConversationState::Idle);
    c.reset();
    assert_eq!(c.operation_history.len(), 1);
}

#[test]
fn missing_fields_are_asked_for_and_filled() {
    let mut c = ConversationManager::new();
    c.process_input("调到产品部");
    match &c.state {
        ConversationState::Asking { prompt, history, .. } => {
            assert_eq!(prompt, "请告诉我要调动哪位员工？");
            assert_eq!(history.last().unwrap().content, "🧠 识别意图: 员工调岗\n请告诉我要调动哪位员工？");
        }
        other => panic!("unexpected state {other:?}"),
    }
    assert_eq!(
        c.current_intent(),
        Some(&ParsedIntent::Transfer { employee_name: None, from_department: None, to_department: some("产品部") })
    );
    c.process_input("王五");
    match &c.state {
        ConversationState::Confirming { result, history } => {
            assert_eq!(
                result.intent,
                ParsedIntent::Transfer { employee_name: some("王五"), from_department: None, to_department: some("产品部") }
            );
            assert!(result.missing_fields.is_empty());
            assert_eq!(history.last().unwrap().content, "将 王五 从 当前部门 调到 产品部\n请确认是否执行？");
        }
        other => panic!("unexpected state {other:?}"),
    }
}

#[test]
fn cancel_and_search_finish_at_once() {
    let mut c = ConversationManager::new();
    c.process_input("取消");
    assert_eq!(c.state, ConversationState::Done { summary: "已取消".to_string(), success: true });
    c.process_input("搜索张三");
    assert_eq!(c.state, ConversationState::Done { summary: "搜索：张三".to_string(), success: true });
}

#[test]
fn blank_input_changes_nothing() {
    let mut c = ConversationManager::new();
    c.process_input("   ");
    assert_eq!(c.state, ConversationState::Idle);
    assert!(!c.start_parsing("  "));
    assert_eq!(c.state, ConversationState::Idle);
}

#[test]
fn remote_parse_flow() {
    let mut c = ConversationManager::new();
    assert!(c.start_parsing("帮我把张三调到产品部"));
    assert!(c.is_parsing());
    assert_eq!(c.history().len(), 1);
    let result = llm_intent_result(ParsedIntent::Transfer {
        employee_name: some("张三"),
        from_department: None,
        to_department: some("产品部"),
    });
    c.apply_llm_result("帮我把张三调到产品部", Ok(result));
    match &c.state {
        ConversationState::Confirming { history, .. } => assert_eq!(history.len(), 3),
        other => panic!("unexpected state {other:?}"),
    }
    assert!(!c.start_parsing("确认"));
    assert!(matches!(c.state, ConversationState::Executing { .. }));
    assert_eq!(c.operation_history.len(), 1);
}

#[test]
fn remote_failure_falls_back_to_local_rules() {
    let mut c = ConversationManager::new();
    assert!(c.start_parsing("搜索张三"));
    c.apply_llm_result("搜索张三", Err(IntentError::Network("timeout".to_string())));
    assert_eq!(c.state, ConversationState::Done { summary: "搜索：张三".to_string(), success: true });
    let mut d = ConversationManager::new();
    assert!(d.start_parsing("今天天气"));
    d.apply_llm_result("今天天气", Err(IntentError::LlmApi("down".to_string())));
    assert_eq!(
        d.state,
        ConversationState::Error { message: "⚠️ AI 解析失败，原因: AI 服务错误: down".to_string() }
    );
}

#[test]
fn remote_unknown_goes_back_to_idle() {
    let mut c = ConversationManager::new();
    assert!(c.start_parsing("嗯"));
    let r = IntentResult {
        intent: ParsedIntent::Unknown { message: "?".to_string() },
        confidence: 50,
        hint: String::new(),
        missing_fields: vec![],
    };
    c.apply_llm_result("嗯", Ok(r));
    assert_eq!(c.state, ConversationState::Idle);
    let _ = SearchScope::All;
}
