use promptchain::chat::{
    AIMessagePromptTemplate, HumanMessagePromptTemplate, MessageFormatterStruct, MessageTemplate,
};
use promptchain::errors::ChainError;
use promptchain::messages::{Message, MessageType};
use promptchain::prompt_args::PromptArgs;
use promptchain::prompt_value::PromptValue;
use promptchain::template::PromptTemplate;

fn template(text: &str, vars: &[&str]) -> PromptTemplate {
    let names: Vec<String> = vars.iter().map(|v| v.to_string()).collect();
    PromptTemplate::new(text, names).unwrap()
}

#[test]
fn test_message_formatter_macro() {
    let human_msg = Message::new_human_message("Hello from user");

    let ai_message_prompt = AIMessagePromptTemplate::new(template(
        "AI response: {content} {test}",
        &["content", "test"],
    ));

    let mut formatter = MessageFormatterStruct::new();
    formatter.add_message(human_msg);
    formatter.add_template(MessageTemplate::AI(ai_message_prompt));
    formatter.add_messages_placeholder("history");

    let mut input_variables = PromptArgs::new();
    input_variables.insert_text("content", "This is a test");
    input_variables.insert_text("test", "test2");
    input_variables.insert_messages(
        "history",
        vec![
            Message::new_human_message("Placeholder message 1"),
            Message::new_ai_message("Placeholder message 2"),
        ],
    );

    let formatted_messages = formatter
        .format_prompt(&input_variables)
        .unwrap()
        .to_chat_messages();

    assert_eq!(formatted_messages.len(), 4);
    assert_eq!(formatted_messages[0].content, "Hello from user");
    assert_eq!(
        formatted_messages[1].content,
        "AI response: This is a test test2"
    );
    assert_eq!(formatted_messages[2].content, "Placeholder message 1");
    assert_eq!(formatted_messages[3].content, "Placeholder message 2");
}

#[test]
fn message_constructors_set_content_and_role() {
    let h = Message::new_human_message("x");
    let s = Message::new_system_message("x");
    let a = Message::new_ai_message("x");
    assert_eq!(h.content, "x");
    assert_eq!(s.content, "x");
    assert_eq!(a.content, "x");
    assert!(matches!(h.message_type, MessageType::HumanMessage));
    assert!(matches!(s.message_type, MessageType::SystemMessage));
    assert!(matches!(a.message_type, MessageType::AIMessage));
    assert_ne!(h, s);
    assert_ne!(s, a);
    assert_ne!(h, a);
}

#[test]
fn default_message_is_empty_system() {
    let m = Message::default();
    assert_eq!(m.content, "");
    assert!(matches!(m.message_type, MessageType::SystemMessage));
}

#[test]
fn template_substitutes_declared_variables() {
    let t = template("AI response: {content} {test}", &["content", "test"]);
    let mut args = PromptArgs::new();
    args.insert_text("content", "This is a test");
    args.insert_text("test", "test2");
    assert_eq!(t.format(&args).unwrap(), "AI response: This is a test test2");
}

#[test]
fn template_missing_variable_fails() {
    let t = template("AI response: {content} {test}", &["content", "test"]);
    let mut args = PromptArgs::new();
    args.insert_text("content", "This is a test");
    match t.format(&args) {
        Err(ChainError::MissingInput(name)) => assert_eq!(name, "test"),
        other => panic!("expected a missing input, got {:?}", other),
    }
}

#[test]
fn template_rejects_mismatched_declaration() {
    let names = vec!["content".to_string()];
    assert!(matches!(
        PromptTemplate::new("AI response: {content} {test}", names),
        Err(ChainError::ConfigurationError(_))
    ));
}

#[test]
fn template_rejects_unclosed_placeholder() {
    let names = vec!["content".to_string()];
    assert!(matches!(
        PromptTemplate::new("broken {content", names),
        Err(ChainError::ConfigurationError(_))
    ));
}

#[test]
fn template_variables_are_recorded_in_order() {
    let t = template("{b} then {a}", &["b", "a"]);
    assert_eq!(t.variables().clone(), vec!["b".to_string(), "a".to_string()]);
}

#[test]
fn role_template_wraps_one_message() {
    let t = MessageTemplate::Human(HumanMessagePromptTemplate::new(template("hi {name}", &["name"])));
    let mut args = PromptArgs::new();
    args.insert_text("name", "ada");
    let ms = t.format_messages(&args).unwrap();
    assert_eq!(ms.len(), 1);
    assert_eq!(ms[0].content, "hi ada");
    assert!(matches!(ms[0].message_type, MessageType::HumanMessage));
}

#[test]
fn placeholder_missing_from_args_fails() {
    let mut formatter = MessageFormatterStruct::new();
    formatter.add_messages_placeholder("history");
    let args = PromptArgs::new();
    assert!(matches!(
        formatter.format(&args),
        Err(ChainError::MissingInput(_))
    ));
}

#[test]
fn placeholder_bound_to_text_fails() {
    let mut formatter = MessageFormatterStruct::new();
    formatter.add_messages_placeholder("history");
    let mut args = PromptArgs::new();
    args.insert_text("history", "not a message list");
    assert!(matches!(
        formatter.format(&args),
        Err(ChainError::InvalidInput(_))
    ));
}

#[test]
fn formatter_lists_variables_in_item_order() {
    let mut formatter = MessageFormatterStruct::new();
    formatter.add_message(Message::new_system_message("fixed"));
    formatter.add_template(MessageTemplate::AI(AIMessagePromptTemplate::new(template(
        "{x} {y}",
        &["x", "y"],
    ))));
    formatter.add_messages_placeholder("history");
    let vars = formatter.input_variables();
    assert_eq!(
        vars,
        vec!["x".to_string(), "y".to_string(), "history".to_string()]
    );
}

#[test]
fn prompt_value_from_string_becomes_human_message() {
    let pv = PromptValue::from_string("hello".to_string());
    let ms = pv.to_chat_messages();
    assert_eq!(ms.len(), 1);
    assert_eq!(ms[0].content, "hello");
    assert!(matches!(ms[0].message_type, MessageType::HumanMessage));
}

#[test]
fn prompt_value_text_rendering_joins_with_newlines() {
    let pv = PromptValue::from_messages(vec![
        Message::new_system_message("a"),
        Message::new_human_message("b"),
        Message::new_ai_message("c"),
    ]);
    assert_eq!(pv.to_text(), "a\nb\nc");
    let single = PromptValue::from_string("just text".to_string());
    assert_eq!(single.to_text(), "just text");
}
