use tim_code::api::Ability;
use tim_code::api::AbilityParameter;
use tim_code::api::CallAbility;
use tim_code::api::CallAbilityOutcome;
use tim_code::api::EventData;
use tim_code::api::EventMetadata;
use tim_code::api::Message;
use tim_code::api::SpaceEvent;
use tim_code::api::Timestamp;
use tim_code::api::Timite;
use tim_code::api::TimiteAbilities;
use tim_code::client::ClientConfig;
use tim_code::crawler::CrawlerConf;
use tim_code::llm::ability::ability_entry_ctx;
use tim_code::llm::ability::ability_owner;
use tim_code::llm::ability::format_param;
use tim_code::llm::ability::format_params;
use tim_code::llm::llm::silence_arguments;
use tim_code::llm::llm::CollectedStream;
use tim_code::llm::llm::LlmReq;
use tim_code::llm::llm::LlmRes;
use tim_code::llm::llm::LlmStreamEvent;
use tim_code::llm::llm::ToolCall;
use tim_code::llm::storage::call_event;
use tim_code::llm::storage::call_outcome_event;
use tim_code::llm::storage::key;
use tim_code::llm::storage::message_event;
use tim_code::llm::storage::timeline_event_from_update;
use tim_code::llm::storage::timeline_slice;
use tim_code::llm::storage::TimelineEvent;
use tim_code::text::trim;
use tim_code::tim_client::TimClientConf;

fn param(name: &str, description: &str) -> AbilityParameter {
    AbilityParameter { name: name.into(), description: description.into() }
}

fn event(data: EventData) -> SpaceEvent {
    SpaceEvent { metadata: EventMetadata { id: 1, emitted_at: Timestamp { seconds: 0, nanos: 0 } }, data }
}

fn entry(n: u64) -> TimelineEvent {
    TimelineEvent { timite_id: n, header: "h".into(), content: "c".into() }
}

#[test]
fn trim_agrees_with_std() {
    for text in ["", " ", "a", " a", "a ", "  a b  ", "\t\n x\u{3000}\u{a0}", "\u{200b} x", " \r\n "] {
        assert_eq!(trim(text), text.trim(), "{:?}", text);
    }
}

#[test]
fn default_settings() {
    let crawler = CrawlerConf::default();
    assert_eq!(crawler.ability_name, "web.crawl");
    assert_eq!(crawler.max_snippet_chars, 480);
    assert_eq!(crawler.user_agent, "tim-crawler/0.1");
    assert_eq!(crawler.clone(), crawler);
    let terminal = ClientConfig::default();
    assert_eq!(terminal.endpoint, "http://127.0.0.1:8787");
    assert_eq!(terminal.nick, "terminal-user");
    assert_eq!(terminal.timite_id, None);
    let agent = TimClientConf {
        endpoint: "e".into(),
        nick: "n".into(),
        provider: "p".into(),
        timite_id: Some(4),
    };
    assert_eq!(agent.clone(), agent);
    let req = LlmReq { sysp: "s", msg: "m" };
    assert_eq!(req.sysp, "s");
    assert_ne!(LlmRes::Reply("a".into()), LlmRes::NoResponse("a".into()));
}

#[test]
fn memory_keys_hold_participant_and_time() {
    assert_eq!(key::timeline_prefix(1), b"t:\0\0\0\0\0\0\0\x01:".to_vec());
    assert_eq!(
        key::timeline(258, 3),
        b"t:\0\0\0\0\0\0\x01\x02:\0\0\0\0\0\0\0\x03:".to_vec()
    );
}

#[test]
fn events_are_remembered_as_header_and_line() {
    assert_eq!(
        message_event(&Message { id: 1, sender_id: 2, content: "  hi there \n".into() }),
        Some(TimelineEvent { timite_id: 0, header: "Peer".into(), content: "hi there".into() })
    );
    assert_eq!(message_event(&Message { id: 1, sender_id: 2, content: " \t".into() }), None);
    let call = CallAbility {
        call_ability_id: 9,
        sender_id: 12,
        timite_id: 3,
        name: " echo ".into(),
        payload: " p q ".into(),
    };
    assert_eq!(
        call_event(&call),
        TimelineEvent {
            timite_id: 0,
            header: "CallAbility:echo".into(),
            content: "sender=12 payload=p q".into(),
        }
    );
    let line = |payload: Option<&str>, error: Option<&str>| {
        call_outcome_event(&CallAbilityOutcome {
            call_ability_id: 7,
            payload: payload.map(Into::into),
            error: error.map(Into::into),
        })
        .content
    };
    assert_eq!(line(None, None), "call_id=7");
    assert_eq!(line(Some(" ok "), None), "call_id=7 payload=ok");
    assert_eq!(line(Some(""), Some(" bad ")), "call_id=7 error=bad");
    assert_eq!(line(Some("a"), Some("b")), "call_id=7 payload=a error=b");
    assert_eq!(line(Some("  "), Some("\n")), "call_id=7");
    assert_eq!(
        call_outcome_event(&CallAbilityOutcome { call_ability_id: 7, payload: None, error: None })
            .header,
        "CallAbilityOutcome"
    );
    assert_eq!(
        timeline_event_from_update(&event(EventData::CallAbility(call.clone()))),
        Some(call_event(&call))
    );
    assert_eq!(
        timeline_event_from_update(&event(EventData::TimiteConnected(Timite {
            id: 1,
            nick: "n".into()
        }))),
        None
    );
    assert_eq!(
        timeline_event_from_update(&event(EventData::NewMessage(Message {
            id: 1,
            sender_id: 1,
            content: "x".into()
        })))
        .unwrap()
        .content,
        "x"
    );
}

#[test]
fn memory_is_read_in_slices() {
    let entries: Vec<TimelineEvent> = (0..5).map(entry).collect();
    let ids = |start: u64, size: u16| -> Vec<u64> {
        timeline_slice(&entries, start, size).iter().map(|e| e.timite_id).collect()
    };
    assert_eq!(ids(0, 2), vec![0, 1]);
    assert_eq!(ids(3, 10), vec![3, 4]);
    assert_eq!(ids(5, 1), Vec::<u64>::new());
    assert_eq!(ids(u64::MAX, u16::MAX), Vec::<u64>::new());
    assert_eq!(ids(1, 0), Vec::<u64>::new());
    assert_eq!(ids(0, u16::MAX), vec![0, 1, 2, 3, 4]);
}

#[test]
fn abilities_are_put_into_words() {
    let owned = |id: u64, nick: &str| TimiteAbilities {
        timite: Timite { id, nick: nick.into() },
        abilities: Vec::new(),
    };
    assert_eq!(ability_owner(&owned(4, " bob ")), "bob");
    assert_eq!(ability_owner(&owned(4, "  ")), "timite#4");
    assert_eq!(format_param(&param(" ", "")), "value");
    assert_eq!(format_param(&param("", " d ")), "d");
    assert_eq!(format_param(&param(" n", "")), "n");
    assert_eq!(format_param(&param("n", "d")), "n (d)");
    assert_eq!(format_params(&Vec::new()), "none");
    assert_eq!(format_params(&vec![param("a", "first")]), "a (first)");
    assert_eq!(
        format_params(&vec![param("a", "first"), param("", ""), param("c", "")]),
        "a (first), value, c"
    );
    let echo = Ability {
        name: " echo ".into(),
        description: " ".into(),
        params: vec![param("text", "what to say")],
    };
    let ctx = ability_entry_ctx("bob", &echo).unwrap();
    assert_eq!(ctx.owner, "bob");
    assert_eq!(ctx.name, "echo");
    assert_eq!(ctx.description, "no description provided");
    assert_eq!(ctx.params, "text (what to say)");
    let unnamed = Ability { name: "  ".into(), description: "d".into(), params: Vec::new() };
    assert_eq!(ability_entry_ctx("bob", &unnamed), None);
    let described = Ability { name: "n".into(), description: " d ".into(), params: Vec::new() };
    assert_eq!(ability_entry_ctx("o", &described).unwrap().description, "d");
}

#[test]
fn a_streamed_answer_is_put_together() {
    let mut collected = CollectedStream::new();
    assert!(!collected.apply(LlmStreamEvent::ContentDelta("Hel".into())));
    assert!(!collected.apply(LlmStreamEvent::ToolCallDelta {
        id: "c1".into(),
        name: Some("lookup".into()),
        arguments_delta: "{\"q\":".into(),
        finished: false,
    }));
    assert!(!collected.apply(LlmStreamEvent::ContentDelta("lo".into())));
    assert!(!collected.apply(LlmStreamEvent::ToolCallDelta {
        id: "c2".into(),
        name: None,
        arguments_delta: "{}".into(),
        finished: false,
    }));
    assert!(!collected.apply(LlmStreamEvent::ToolCallDelta {
        id: "c1".into(),
        name: None,
        arguments_delta: "1}".into(),
        finished: true,
    }));
    assert!(!collected.apply(LlmStreamEvent::ToolCallDelta {
        id: "c2".into(),
        name: Some("TIM-LLM-SILENCE".into()),
        arguments_delta: "".into(),
        finished: true,
    }));
    assert!(collected.apply(LlmStreamEvent::Completed));
    assert_eq!(collected.message, "Hello");
    assert_eq!(
        collected.tool_calls,
        vec![
            ToolCall { id: "c1".into(), name: Some("lookup".into()), arguments: "{\"q\":1}".into() },
            ToolCall {
                id: "c2".into(),
                name: Some("TIM-LLM-SILENCE".into()),
                arguments: "{}".into(),
            },
        ]
    );
    assert_eq!(collected.find_call(&"c2".to_string()), 1);
    assert_eq!(collected.find_call(&"c9".to_string()), 2);
    assert_eq!(silence_arguments(&collected.tool_calls), Some(&"{}".to_string()));
    assert_eq!(silence_arguments(&vec![ToolCall::new("x".into())]), None);
    assert_eq!(silence_arguments(&Vec::new()), None);
}
