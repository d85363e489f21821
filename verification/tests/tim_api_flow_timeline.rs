use tim_code::api::ClientInfo;
use tim_code::api::EventData;
use tim_code::api::GetTimelineReq;
use tim_code::api::SendMessageReq;
use tim_code::api::Session;
use tim_code::api::Timestamp;
use tim_code::api::TrustedRegisterReq;
use tim_code::tim_api::TimApi;
use tim_code::tim_api::TimApiError;
use tim_code::tim_storage::TimStorage;

fn now() -> Timestamp {
    Timestamp { seconds: 10, nanos: 500 }
}

fn client_info() -> ClientInfo {
    ClientInfo { platform: "timeline-test".into() }
}

fn register(api: &mut TimApi, nick: &str) -> Session {
    api.trusted_register(
        &TrustedRegisterReq { nick: nick.into(), client_info: Some(client_info()) },
        now(),
    )
    .unwrap()
    .session
    .expect("missing session")
}

fn contents(api: &TimApi, session: &Session, offset: u64, size: u32) -> Vec<String> {
    api.get_timeline(&GetTimelineReq { offset, size }, session)
        .unwrap()
        .events
        .into_iter()
        .map(|event| match event.data {
            EventData::NewMessage(message) => message.content,
            other => panic!("unexpected event {:?}", other),
        })
        .collect()
}

#[test]
fn tim_api_get_timeline_returns_events() {
    let mut api = TimApi::new(TimStorage::new());
    let session = register(&mut api, "alpha");

    let first_content = "timeline ping one";
    let second_content = "timeline ping two";

    for content in [first_content, second_content] {
        api.send_message(&SendMessageReq { content: content.into() }, &session, now()).unwrap();
    }

    let timeline = api.get_timeline(&GetTimelineReq { offset: 0, size: 10 }, &session).unwrap();

    assert!(
        !timeline.events.is_empty(),
        "expected timeline to contain at least one event"
    );

    let mut message_events = timeline
        .events
        .iter()
        .filter_map(|event| match &event.data {
            EventData::NewMessage(new_msg) => Some((event.metadata.id, new_msg)),
            _ => None,
        })
        .collect::<Vec<_>>();

    assert!(message_events.len() >= 2, "timeline should contain both message events");

    message_events.sort_by_key(|(id, _)| *id);

    let (_, second_event) = message_events[1];
    let second_id = message_events[1].0;

    assert_eq!(second_event.content, second_content);

    let filtered =
        api.get_timeline(&GetTimelineReq { offset: second_id, size: 10 }, &session).unwrap();

    let first_filtered = filtered
        .events
        .first()
        .and_then(|event| match &event.data {
            EventData::NewMessage(new_msg) => Some(new_msg),
            _ => None,
        })
        .expect("filtered timeline should contain events");

    assert_eq!(first_filtered.content, second_content);
}

#[test]
fn timeline_tail_and_offset_pages() {
    let mut api = TimApi::new(TimStorage::new());
    let alpha = register(&mut api, "alpha");
    for content in ["one", "two", "three"] {
        api.send_message(&SendMessageReq { content: content.into() }, &alpha, now()).unwrap();
    }
    assert_eq!(contents(&api, &alpha, 0, 2), vec!["two", "three"]);
    assert_eq!(contents(&api, &alpha, 2, 10), vec!["two", "three"]);
    assert_eq!(contents(&api, &alpha, 0, 100), vec!["one", "two", "three"]);
    assert_eq!(contents(&api, &alpha, 1, 2), vec!["one", "two"]);
    assert_eq!(contents(&api, &alpha, 3, 1), vec!["three"]);
    assert_eq!(contents(&api, &alpha, 4, 5), Vec::<String>::new());
    assert_eq!(contents(&api, &alpha, 0, 0), Vec::<String>::new());
    assert_eq!(contents(&api, &alpha, 1, 0), Vec::<String>::new());
    assert_eq!(contents(&api, &alpha, 0, u32::MAX), vec!["one", "two", "three"]);

    let page = api.get_timeline(&GetTimelineReq { offset: 0, size: 3 }, &alpha).unwrap();
    assert_eq!(page.offset, 0);
    assert_eq!(page.size, 3);
    let ids: Vec<u64> = page.events.iter().map(|event| event.metadata.id).collect();
    assert_eq!(ids, vec![1, 2, 3]);
    assert!(page.events.iter().all(|event| event.metadata.emitted_at == now()));
    assert_eq!(page.timites.len(), 1);
    assert_eq!(page.timites[0].id, alpha.timite_id);
    assert_eq!(page.timites[0].nick, "alpha");
}

#[test]
fn timeline_of_an_empty_space_is_empty() {
    let mut api = TimApi::new(TimStorage::new());
    let alpha = register(&mut api, "alpha");
    assert_eq!(contents(&api, &alpha, 0, 10), Vec::<String>::new());
    assert_eq!(contents(&api, &alpha, 7, 10), Vec::<String>::new());
}

#[test]
fn blank_message_is_refused_and_publishes_nothing() {
    let mut api = TimApi::new(TimStorage::new());
    let alpha = register(&mut api, "alpha");
    for content in ["", "   ", "\t\n ", "\u{3000}\u{a0}"] {
        let refused = api.send_message(&SendMessageReq { content: content.into() }, &alpha, now());
        assert!(matches!(refused, Err(TimApiError::InvalidArgError(_))));
    }
    assert_eq!(api.last_event_id(), 0);
    api.send_message(&SendMessageReq { content: " x ".into() }, &alpha, now()).unwrap();
    assert_eq!(api.last_event_id(), 1);
    assert_eq!(contents(&api, &alpha, 0, 10), vec![" x "]);
}

#[test]
fn restart_continues_the_timeline() {
    let mut api = TimApi::new(TimStorage::new());
    let alpha = register(&mut api, "alpha");
    for content in ["one", "two", "three"] {
        api.send_message(&SendMessageReq { content: content.into() }, &alpha, now()).unwrap();
    }
    let previous_max = api.last_event_id();
    assert_eq!(previous_max, 3);

    let storage = api.into_storage();
    let mut api = TimApi::new(storage);
    assert_eq!(api.last_event_id(), previous_max);
    assert_eq!(api.subscriber_count(), 0);

    let session = api.authenticate(Some(alpha.key.as_str())).expect("session survives restart");
    assert_eq!(session, alpha);

    api.send_message(&SendMessageReq { content: "four".into() }, &session, now()).unwrap();
    assert_eq!(api.last_event_id(), previous_max + 1);
    assert_eq!(contents(&api, &session, 0, 100), vec!["one", "two", "three", "four"]);
    let beta = register(&mut api, "beta");
    assert_eq!(beta.timite_id, alpha.timite_id + 1);
}
