use jcowork::feishu::extract_text_from_content;
use jcowork::feishu::{
    feishu_event_action, feishu_reply_text, EventHeader, EventMessage, EventPayload, EventSender, FeishuAction, FeishuEvent,
    SenderId, TenantTokenCache, FEISHU_FALLBACK_REPLY,
};

#[test]
fn event_test_extract_text() {
    let content = r#"{"text":"hello"}"#;
    assert_eq!(extract_text_from_content(content), Some("hello".to_string()));
}

#[test]
fn test_extract_text_with_mention() {
    let content = r#"{"text":"@_user_1 hello world"}"#;
    assert_eq!(extract_text_from_content(content), Some("hello world".to_string()));
}

#[test]
fn extract_text_without_text_field() {
    assert_eq!(extract_text_from_content(r#"{"image_key":"x"}"#), None);
    assert_eq!(extract_text_from_content("not json"), None);
}

#[test]
fn event_actions_and_replies() {
    let challenge = FeishuEvent {
        schema: None,
        header: None,
        event: None,
        challenge: Some("c1".to_string()),
        token: Some("tok".to_string()),
        event_type: None,
    };
    match feishu_event_action(&challenge) {
        FeishuAction::Challenge { challenge, token, app_id } => {
            assert_eq!(challenge, "c1");
            assert_eq!(token.as_deref(), Some("tok"));
            assert_eq!(app_id.as_deref(), Some("tok"));
        },
        _ => panic!("expected a challenge"),
    }
    let nothing = FeishuEvent { schema: None, header: None, event: None, challenge: None, token: None, event_type: None };
    assert!(matches!(feishu_event_action(&nothing), FeishuAction::Ignore));
    let no_message = FeishuEvent { token: Some("app".to_string()), ..nothing.clone() };
    assert!(matches!(feishu_event_action(&no_message), FeishuAction::Ignore));
    assert_eq!(feishu_reply_text("hi"), "hi");
    assert_eq!(feishu_reply_text(""), FEISHU_FALLBACK_REPLY);
    let mut cache = TenantTokenCache::new();
    assert!(cache.valid_token(1000).is_none());
    assert_eq!(cache.store("t-1".to_string(), 7200, 1000), "t-1");
    assert_eq!(cache.valid_token(1000).as_deref(), Some("t-1"));
    assert_eq!(cache.valid_token(7899).as_deref(), Some("t-1"));
    assert!(cache.valid_token(7900).is_none());
}

#[test]
fn message_event_is_handled_for_its_app() {
    let event = FeishuEvent {
        schema: Some("2.0".to_string()),
        header: Some(EventHeader {
            event_id: None,
            event_type: Some("im.message.receive_v1".to_string()),
            create_time: None,
            token: None,
            app_id: Some("cli_1".to_string()),
            tenant_key: None,
        }),
        event: Some(EventPayload {
            sender: EventSender {
                sender_id: SenderId { open_id: Some("ou_1".to_string()), user_id: None, union_id: None },
                sender_type: None,
            },
            message: EventMessage {
                message_id: Some("om_1".to_string()),
                chat_id: Some("oc_1".to_string()),
                chat_type: None,
                message_type: Some("text".to_string()),
                content: Some("{\"text\":\"@_user_1 hello\"}".to_string()),
                create_time: None,
            },
        }),
        challenge: None,
        token: Some("other".to_string()),
        event_type: None,
    };
    match feishu_event_action(&event) {
        FeishuAction::Handle { app_id, message } => {
            assert_eq!(app_id, "cli_1");
            assert_eq!(message.message_id, "om_1");
            assert_eq!(message.text, "hello");
        },
        _ => panic!("expected a message to handle"),
    }
}

#[test]
fn extract_text_keeps_words_without_mention() {
    assert_eq!(jcowork::feishu::extract_text_from_content(r#"{"text":"hello world"}"#), Some("hello world".to_string()));
    assert_eq!(jcowork::feishu::extract_text_from_content(r#"{"text":"  hi  "}"#), Some("hi".to_string()));
    assert_eq!(jcowork::feishu::extract_text_from_content(r#"{"text":"@bot"}"#), Some("@bot".to_string()));
}
