use promptchain::messages::Message;
use promptchain::prompt_args::{ArgValue, PromptArgs};

#[test]
fn get_returns_the_bound_text() {
    let mut args = PromptArgs::new();
    args.insert_text("name", "ada");
    match args.get("name") {
        Some(ArgValue::Text(t)) => assert_eq!(t, "ada"),
        other => panic!("expected the bound text, got {:?}", other),
    }
    assert!(args.get("absent").is_none());
}

#[test]
fn later_insert_shadows_earlier_binding() {
    let mut args = PromptArgs::new();
    args.insert_text("name", "first");
    args.insert_text("name", "second");
    match args.get("name") {
        Some(ArgValue::Text(t)) => assert_eq!(t, "second"),
        other => panic!("expected the bound text, got {:?}", other),
    }
}

#[test]
fn messages_keep_their_shape() {
    let mut args = PromptArgs::new();
    args.insert_messages("history", vec![Message::new_human_message("hi")]);
    match args.get("history") {
        Some(ArgValue::Messages(ms)) => {
            assert_eq!(ms.len(), 1);
            assert_eq!(ms[0].content, "hi");
        },
        other => panic!("expected the bound messages, got {:?}", other),
    }
}

#[test]
fn contains_reports_bound_names() {
    let mut args = PromptArgs::new();
    args.insert_text("a", "1");
    assert!(args.contains("a"));
    assert!(!args.contains("b"));
}

#[test]
fn duplicate_copies_every_binding() {
    let mut args = PromptArgs::new();
    args.insert_text("a", "1");
    args.insert_messages("h", vec![Message::new_ai_message("reply")]);
    let copy = args.duplicate();
    assert!(matches!(copy.get("a"), Some(ArgValue::Text(t)) if t == "1"));
    assert!(matches!(copy.get("h"), Some(ArgValue::Messages(ms)) if ms.len() == 1));
}
