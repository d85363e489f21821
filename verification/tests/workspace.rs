use tim_code::agents::chatgpt::extract_message;
use tim_code::agents::chatgpt::hash_bytes;
use tim_code::agents::chatgpt::hash_client_id;
use tim_code::agents::chatgpt::next_request_id;
use tim_code::agents::chatgpt::DEFAULT_AGENT_CLIENT_ID;
use tim_code::api::ClientInfo;
use tim_code::api::Timestamp;
use tim_code::api::Timite;
use tim_code::flows::update_decide_reciever_flow::SpaceSubscriber;
use tim_code::flows::update_decide_reciever_flow::SpaceUpdateReceiverFlow;
use tim_code::flows::update_decide_reciever_flow::UpdateDecideReceiverFlow;
use tim_code::services::assistant::ChatBridgeInitError;
use tim_code::services::assistant::ChatBridgeReply;
use tim_code::services::messaging::command_entry;
use tim_code::services::messaging::help_html;
use tim_code::services::messaging::next_entry_id;
use tim_code::services::messaging::output_entry_html;
use tim_code::services::messaging::output_entry_text;
use tim_code::services::messaging::SessionUpdates;
use tim_code::services::messaging::DEFAULT_HELP;
use tim_code::services::messaging::DEFAULT_STATUS;
use tim_code::services::space_updates_service::SpaceUpdatesPublishError;
use tim_code::session::default_client_info;
use tim_code::session::default_timite;
use tim_code::session::SessionContext;
use tim_code::session::SessionService;
use tim_code::updates::AuthenticateReq;
use tim_code::updates::CommandContent;
use tim_code::updates::CommandContentValue;
use tim_code::updates::CommandEntry;
use tim_code::updates::CommandRole;
use tim_code::updates::EntryMessage;
use tim_code::updates::SpaceNewMessage;
use tim_code::updates::SpaceUpdate;
use tim_code::updates::SpaceUpdateEvent;
use tim_code::updates::Theme;

fn subscriber(timite_id: &str, receive_own_messages: bool) -> SpaceSubscriber {
    SpaceSubscriber { client_id: "c".into(), timite_id: timite_id.into(), receive_own_messages }
}

fn message_from(sender: &str) -> SpaceUpdate {
    SessionUpdates::append_entry("u1".into(), sender, command_entry(5, "ls".into()))
}

#[test]
fn own_messages_are_held_back_unless_asked_for() {
    let flow = SpaceUpdateReceiverFlow::new();
    assert!(flow.should_deliver(&subscriber("a", true), &message_from("a")));
    assert!(!flow.should_deliver(&subscriber("a", false), &message_from("a")));
    assert!(flow.should_deliver(&subscriber("a", false), &message_from("b")));
    assert!(flow.should_deliver(&subscriber("a", false), &SessionUpdates::status("u".into(), "ok")));
    assert!(flow.should_deliver(
        &subscriber("a", false),
        &SpaceUpdate {
            id: "u".into(),
            event: Some(SpaceUpdateEvent::SpaceNewMessage(SpaceNewMessage { message: None })),
        }
    ));
    assert!(flow.should_deliver(&subscriber("a", false), &SpaceUpdate { id: "u".into(), event: None }));
}

#[test]
fn updates_are_built_by_kind() {
    assert_eq!(
        command_entry(7, "help".into()),
        CommandEntry {
            id: 7,
            role: CommandRole::Command,
            content: Some(CommandContent { value: Some(CommandContentValue::Text("help".into())) }),
        }
    );
    assert_eq!(
        output_entry_text(8, "done"),
        CommandEntry {
            id: 8,
            role: CommandRole::Output,
            content: Some(CommandContent { value: Some(CommandContentValue::Text("done".into())) }),
        }
    );
    assert_eq!(
        output_entry_html(9, "<b/>".into()).content,
        Some(CommandContent { value: Some(CommandContentValue::Html("<b/>".into())) })
    );
    assert_eq!(
        message_from("me").event,
        Some(SpaceUpdateEvent::SpaceNewMessage(SpaceNewMessage {
            message: Some(EntryMessage {
                sender_id: "me".into(),
                entry: Some(command_entry(5, "ls".into())),
            }),
        }))
    );
    assert_eq!(
        SessionUpdates::workspace_cleared("w".into()),
        SpaceUpdate { id: "w".into(), event: Some(SpaceUpdateEvent::WorkspaceEntriesClear) }
    );
    assert_eq!(
        SessionUpdates::status("s".into(), DEFAULT_STATUS).event,
        Some(SpaceUpdateEvent::SessionStatus("Ready".into()))
    );
    assert_eq!(
        SessionUpdates::help("h".into(), DEFAULT_HELP).event,
        Some(SpaceUpdateEvent::SessionHelp(
            "Type `HELP` for available commands. Press `Esc` to cancel current input.".into()
        ))
    );
    assert_eq!(
        SessionUpdates::theme("t".into(), Theme::Day).event,
        Some(SpaceUpdateEvent::SessionTheme(Theme::Day))
    );
    let html = help_html();
    assert!(html.starts_with("<div class=\"help-block\">"));
    assert!(html.ends_with("</div>"));
    assert!(html.contains("<dt>THEME &lt;night|day&gt;</dt>"));
    assert_eq!(html, html.trim());
}

#[test]
fn entry_ids_are_microseconds_with_a_counter() {
    assert_eq!(next_entry_id(0, 0), 0);
    assert_eq!(next_entry_id(1_700_000_000_123, 5), 1_700_000_000_123_005);
    assert_eq!(next_entry_id(2, 1999), 2999);
    assert_eq!(next_entry_id(9_223_372_036_854_774, 999), 9_223_372_036_854_774_999);
}

#[test]
fn workspace_sessions_are_kept_by_id() {
    let mut sessions = SessionService::new();
    assert!(sessions.get("s1").is_none());
    let now = Timestamp { seconds: 4, nanos: 5 };
    let ticket = sessions.ensure_session(
        AuthenticateReq {
            timite: Some(Timite { id: 3, nick: "n".into() }),
            client_info: Some(ClientInfo { platform: "web".into() }),
        },
        "s1".into(),
        now,
    );
    assert_eq!(ticket.id, "s1");
    assert_eq!(ticket.created_at, Some(now));
    sessions.ensure_session(AuthenticateReq { timite: None, client_info: None }, "s2".into(), now);
    let one = sessions.get("s1").unwrap();
    assert!(one.is_authenticated());
    assert_eq!(one.session_id(), Some("s1"));
    assert_eq!(one.timite(), Some(&Timite { id: 3, nick: "n".into() }));
    assert_eq!(one.client_info(), Some(&ClientInfo { platform: "web".into() }));
    let two = sessions.get("s2").unwrap();
    assert_eq!(two.timite(), Some(&default_timite()));
    assert_eq!(two.client_info(), Some(&default_client_info()));
    assert_eq!(default_timite(), Timite { id: 0, nick: "".into() });
    sessions.ensure_session(
        AuthenticateReq { timite: Some(Timite { id: 9, nick: "z".into() }), client_info: None },
        "s1".into(),
        now,
    );
    assert_eq!(sessions.get("s1").unwrap().timite().unwrap().id, 9);
    assert!(sessions.get("s3").is_none());
    let nobody = SessionContext::anonymous();
    assert!(!nobody.is_authenticated());
    assert_eq!(nobody.session_id(), None);
    assert_eq!(nobody.timite(), None);
    assert_eq!(nobody.client_info(), None);
}

#[test]
fn agent_ids_are_fnv1a_hashes() {
    assert_eq!(hash_bytes(b""), 0xcbf29ce484222325);
    assert_eq!(hash_bytes(b"a"), 0xaf63dc4c8601ec8c);
    assert_eq!(hash_bytes(b"foobar"), 0x85944171f73967e8);
    assert_eq!(hash_client_id("foobar"), 0x85944171f73967e8);
    assert_eq!(hash_client_id(DEFAULT_AGENT_CLIENT_ID), hash_bytes(b"agent-chatgpt"));
    assert_eq!(next_request_id("seed", 0), "seed:0");
    assert_eq!(next_request_id("agent-chatgpt", 41), "agent-chatgpt:41");
}

#[test]
fn an_agent_reads_the_text_of_a_message() {
    assert_eq!(extract_message(&message_from("me")), Some(("me".to_string(), "ls".to_string())));
    assert_eq!(extract_message(&SessionUpdates::status("s".into(), "x")), None);
    assert_eq!(
        extract_message(&SessionUpdates::append_entry(
            "u".into(),
            "me",
            output_entry_html(1, "<p/>".into())
        )),
        None
    );
    assert_eq!(extract_message(&SpaceUpdate { id: "u".into(), event: None }), None);
}

#[test]
fn failures_are_put_into_words() {
    assert_eq!(
        ChatBridgeInitError::MissingApiKey.message(),
        "OPENAI_TIM_API_KEY environment variable is not set"
    );
    assert_eq!(ChatBridgeInitError::Client("bad".into()).message(), "bad");
    assert_eq!(
        SpaceUpdatesPublishError::DispatcherClosed.message(),
        "space updates dispatcher is closed"
    );
    let reply = ChatBridgeReply { text: "hi".into(), usage: None, provider_request_id: None };
    assert_eq!(reply.text, "hi");
}
