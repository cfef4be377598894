use readiness_bridge::llm::{ChatMessage, ChatResponse, ChatRole, LLM};

#[test]
fn service_is_a_unit() {
    assert_eq!(LLM::new(), LLM);
    assert_eq!(LLM::default(), LLM::new());
    let copy = LLM::new().clone();
    assert_eq!(copy, LLM);
}

#[test]
fn message_keeps_role_and_content() {
    let message = ChatMessage { role: ChatRole::User, content: "hello".to_string() };
    let copy = message.clone();
    assert_eq!(copy.role, ChatRole::User);
    assert_eq!(copy.content, "hello");
    assert_eq!(format!("{:?}", copy), "ChatMessage { role: User, content: \"hello\" }");
}

#[test]
fn roles_are_four_distinct_values() {
    let roles = [ChatRole::System, ChatRole::User, ChatRole::Assistant, ChatRole::Tool];
    for (i, a) in roles.iter().enumerate() {
        for (j, b) in roles.iter().enumerate() {
            assert_eq!(a == b, i == j);
        }
    }
}

#[test]
fn response_parts_may_be_absent() {
    let empty = ChatResponse { content: None, reasoning_content: None };
    assert!(empty.content.is_none() && empty.reasoning_content.is_none());
    let full = ChatResponse {
        content: Some("answer".to_string()),
        reasoning_content: Some("because".to_string()),
    };
    let copy = full.clone();
    assert_eq!(copy.content.as_deref(), Some("answer"));
    assert_eq!(copy.reasoning_content.as_deref(), Some("because"));
}
