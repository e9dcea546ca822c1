use macsvc::chat::{
    chat_answer, chat_request, escape_prompt, ChatGptRequest, ChatReply, Message, CLOSING, MODEL, PREAMBLE, ROLE,
};

#[test]
fn quotes_and_brackets_get_a_backslash() {
    assert_eq!(escape_prompt("say \"hi\" (now)"), "say \\\"hi\\\" \\(now\\)");
    assert_eq!(escape_prompt("a'b`c[d]e{f}g<h>"), "a\\'b\\`c\\[d\\]e\\{f\\}g\\<h\\>");
    assert_eq!(escape_prompt("(("), "\\(\\(");
}

#[test]
fn other_text_is_kept() {
    assert_eq!(escape_prompt(""), "");
    assert_eq!(escape_prompt("how are you? 100% fine\\ $1 \u{e9}\n"), "how are you? 100% fine\\ $1 \u{e9}\n");
}

#[test]
fn the_request_carries_the_escaped_question() {
    let request = chat_request("where is \"PAWS\"?");
    assert_eq!(request.model, "gpt-4o-mini");
    assert_eq!(request.model, MODEL);
    assert_eq!(request.messages.len(), 1);
    assert_eq!(request.messages[0].role, "user");
    assert_eq!(request.messages[0].role, ROLE);
    assert_eq!(request.messages[0].content, format!("{}where is \\\"PAWS\\\"?{}", PREAMBLE, CLOSING));
    assert!(request.messages[0].content.starts_with("You are advising a student"));
    assert!(request.messages[0].content.contains("The students question is: \"where is \\\"PAWS\\\"?\". Provide"));
    assert!(request.messages[0].content.ends_with("concern or problem."));
}

#[test]
fn requests_and_messages_hold_what_they_are_given() {
    let message = Message::new("user".to_string(), "hello".to_string());
    assert_eq!(message.role, "user");
    assert_eq!(message.content, "hello");
    let request = ChatGptRequest::new("model".to_string(), vec![message]);
    assert_eq!(request.model, "model");
    assert_eq!(request.messages, vec![Message::new("user".to_string(), "hello".to_string())]);
}

#[test]
fn each_reply_of_the_chat_service_has_its_answer() {
    assert_eq!(chat_answer(ChatReply::Answered("{\"id\":1}".to_string())), (200, "{\"id\":1}".to_string()));
    assert_eq!(chat_answer(ChatReply::Refused("quota".to_string())), (400, "quota".to_string()));
    assert_eq!(chat_answer(ChatReply::Failed("timeout".to_string())), (500, "timeout".to_string()));
}
