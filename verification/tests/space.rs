use tim_code::api::CallAbility;
use tim_code::api::CallAbilityOutcome;
use tim_code::api::EventMetadata;
use tim_code::tim_space::event_call_ability;
use tim_code::tim_space::event_call_ability_outcome;
use tim_code::tim_space::event_metadata;
use tim_code::tim_space::event_new_message;
use tim_code::tim_space::event_timite_connected;
use tim_code::tim_space::event_timite_disconnected;
use tim_code::api::ClientInfo;
use tim_code::api::EventData;
use tim_code::api::Message;
use tim_code::api::Session;
use tim_code::api::SpaceEvent;
use tim_code::api::SubscribeToSpaceReq;
use tim_code::api::Timestamp;
use tim_code::api::Timite;
use tim_code::tim_space::broken_sessions;
use tim_code::tim_space::Delivery;
use tim_code::tim_space::TimSpace;
use tim_code::tim_space::BUFFER_SIZE;
use tim_code::tim_storage::TimStorage;
use tokio::sync::mpsc::Receiver;

fn now() -> Timestamp {
    Timestamp { seconds: 100, nanos: 0 }
}

fn session(key: &str, timite_id: u64) -> Session {
    Session {
        key: key.into(),
        timite_id,
        created_at: now(),
        client_info: ClientInfo { platform: "test".into() },
    }
}

fn timite(id: u64) -> Timite {
    Timite { id, nick: format!("t{}", id) }
}

fn join(
    space: &mut TimSpace,
    storage: &mut TimStorage,
    key: &str,
    id: u64,
    receive_own: bool,
) -> Receiver<SpaceEvent> {
    space
        .subscribe(
            storage,
            &SubscribeToSpaceReq { receive_own_messages: receive_own },
            &session(key, id),
            timite(id),
            now(),
        )
        .unwrap()
}

fn drain(updates: &mut Receiver<SpaceEvent>) -> Vec<SpaceEvent> {
    let mut seen = Vec::new();
    while let Ok(event) = updates.try_recv() {
        seen.push(event);
    }
    seen
}

fn message(id: u64, sender_id: u64, content: &str) -> Message {
    Message { id, sender_id, content: content.into() }
}

fn kinds(storage: &TimStorage) -> Vec<String> {
    storage
        .timeline(1, u32::MAX)
        .into_iter()
        .map(|event| match event.data {
            EventData::NewMessage(m) => format!("{}:msg:{}", event.metadata.id, m.content),
            EventData::CallAbility(c) => format!("{}:call:{}", event.metadata.id, c.name),
            EventData::CallAbilityOutcome(o) => {
                format!("{}:outcome:{}", event.metadata.id, o.call_ability_id)
            }
            EventData::TimiteConnected(t) => format!("{}:in:{}", event.metadata.id, t.id),
            EventData::TimiteDisconnected(t) => format!("{}:out:{}", event.metadata.id, t.id),
        })
        .collect()
}

#[test]
fn publish_and_fan_out() {
    let mut storage = TimStorage::new();
    let mut space = TimSpace::new(&storage);
    let mut b = join(&mut space, &mut storage, "key-b", 2, false);
    assert_eq!(drain(&mut b).len(), 1);

    space.publish_message(&mut storage, &message(1, 1, "ping"), now()).unwrap();

    let got = drain(&mut b);
    assert_eq!(got.len(), 1);
    assert_eq!(got[0].metadata.id, 2);
    assert_eq!(got[0].metadata.emitted_at, now());
    assert_eq!(got[0].data, EventData::NewMessage(message(1, 1, "ping")));
    assert_eq!(storage.fetch_space_event(2), Some(got[0].clone()));
}

#[test]
fn own_events_go_only_to_subscriptions_that_ask_for_them() {
    let mut storage = TimStorage::new();
    let mut space = TimSpace::new(&storage);
    let mut quiet = join(&mut space, &mut storage, "quiet", 1, false);
    let mut loud = join(&mut space, &mut storage, "loud", 1, true);
    let mut other = join(&mut space, &mut storage, "other", 2, false);
    drain(&mut quiet);
    drain(&mut loud);
    drain(&mut other);

    space.publish_message(&mut storage, &message(1, 1, "mine"), now()).unwrap();
    assert_eq!(drain(&mut quiet).len(), 0);
    assert_eq!(drain(&mut loud).len(), 1);
    assert_eq!(drain(&mut other).len(), 1);

    space.publish_message(&mut storage, &message(2, 2, "theirs"), now()).unwrap();
    assert_eq!(drain(&mut quiet).len(), 1);
    assert_eq!(drain(&mut loud).len(), 1);
    assert_eq!(drain(&mut other).len(), 0);
}

#[test]
fn arrival_is_published_once_and_reaches_the_newcomer() {
    let mut storage = TimStorage::new();
    let mut space = TimSpace::new(&storage);
    let mut s1 = join(&mut space, &mut storage, "s1", 7, false);
    let first = drain(&mut s1);
    assert_eq!(first.len(), 1);
    assert_eq!(first[0].data, EventData::TimiteConnected(timite(7)));
    assert_eq!(first[0].metadata.id, 1);
    assert!(space.is_present(7));

    let mut s2 = join(&mut space, &mut storage, "s2", 7, false);
    assert_eq!(drain(&mut s1).len(), 0);
    assert_eq!(drain(&mut s2).len(), 0);
    assert_eq!(space.subscriber_count(), 2);
    assert_eq!(kinds(&storage), vec!["1:in:7"]);
}

#[test]
fn departure_is_published_when_the_last_subscription_goes() {
    let mut storage = TimStorage::new();
    let mut space = TimSpace::new(&storage);
    let s1 = join(&mut space, &mut storage, "s1", 7, false);
    let s2 = join(&mut space, &mut storage, "s2", 7, false);
    let mut watcher = join(&mut space, &mut storage, "w", 9, false);
    drain(&mut watcher);

    drop(s1);
    space.publish_message(&mut storage, &message(1, 9, "one"), now()).unwrap();
    assert_eq!(space.subscriber_count(), 2);
    assert!(space.is_present(7));
    assert_eq!(kinds(&storage), vec!["1:in:7", "2:in:9", "3:msg:one"]);

    drop(s2);
    space.publish_message(&mut storage, &message(2, 9, "two"), now()).unwrap();
    assert_eq!(space.subscriber_count(), 1);
    assert!(!space.is_present(7));
    assert_eq!(
        kinds(&storage),
        vec!["1:in:7", "2:in:9", "3:msg:one", "4:msg:two", "5:out:7"]
    );
    let seen = drain(&mut watcher);
    assert_eq!(seen.len(), 1);
    assert_eq!(seen[0].data, EventData::TimiteDisconnected(timite(7)));
    assert_eq!(seen[0].metadata.id, 5);
}

#[test]
fn cleanup_removes_closed_subscriptions_and_announces_departures() {
    let mut storage = TimStorage::new();
    let mut space = TimSpace::new(&storage);
    let a = join(&mut space, &mut storage, "a", 1, false);
    let b1 = join(&mut space, &mut storage, "b1", 2, false);
    let _b2 = join(&mut space, &mut storage, "b2", 2, false);
    assert_eq!(space.cleanup_disconnected(&mut storage, now()), Ok(0));
    assert_eq!(space.last_event_id(), 2);

    drop(a);
    drop(b1);
    assert_eq!(space.cleanup_disconnected(&mut storage, now()), Ok(2));
    assert_eq!(space.subscriber_count(), 1);
    assert!(!space.is_present(1));
    assert!(space.is_present(2));
    assert_eq!(kinds(&storage), vec!["1:in:1", "2:in:2", "3:out:1"]);
    assert_eq!(space.cleanup_disconnected(&mut storage, now()), Ok(0));
}

#[test]
fn marked_sessions_come_in_registry_order() {
    let mut storage = TimStorage::new();
    let mut space = TimSpace::new(&storage);
    let _a = join(&mut space, &mut storage, "a", 1, false);
    let _b = join(&mut space, &mut storage, "b", 2, false);
    let _c = join(&mut space, &mut storage, "c", 3, false);
    assert_eq!(space.sessions_marked(&vec![true, false, true]), vec!["a".to_string(), "c".to_string()]);
    assert_eq!(space.sessions_marked(&vec![false, true]), vec!["b".to_string()]);
    assert_eq!(space.sessions_marked(&vec![false, false, false, true]), Vec::<String>::new());
    assert_eq!(space.sessions_marked(&vec![]), Vec::<String>::new());
}

#[test]
fn closed_sessions_are_those_whose_reader_is_gone() {
    let mut storage = TimStorage::new();
    let mut space = TimSpace::new(&storage);
    let a = join(&mut space, &mut storage, "a", 1, false);
    let _b = join(&mut space, &mut storage, "b", 2, false);
    let c = join(&mut space, &mut storage, "c", 3, false);
    assert_eq!(space.closed_sessions(), Vec::<String>::new());
    drop(c);
    drop(a);
    assert_eq!(space.closed_sessions(), vec!["a".to_string(), "c".to_string()]);
}

#[test]
fn cleanup_of_given_sessions_counts_what_it_removes() {
    let mut storage = TimStorage::new();
    let mut space = TimSpace::new(&storage);
    let mut a = join(&mut space, &mut storage, "a", 1, false);
    let _b1 = join(&mut space, &mut storage, "b1", 2, false);
    let _b2 = join(&mut space, &mut storage, "b2", 2, false);
    let _c = join(&mut space, &mut storage, "c", 3, false);
    drain(&mut a);

    let gone = vec!["b1".to_string(), "nobody".to_string()];
    assert_eq!(space.cleanup_sessions(&mut storage, &gone, now()), Ok(1));
    assert_eq!(space.subscriber_count(), 3);
    assert!(space.is_present(2));
    assert_eq!(space.last_event_id(), 3);
    assert!(drain(&mut a).is_empty());

    let gone = vec!["c".to_string(), "b2".to_string()];
    assert_eq!(space.cleanup_sessions(&mut storage, &gone, now()), Ok(2));
    assert_eq!(space.subscriber_count(), 1);
    assert!(!space.is_present(2));
    assert!(!space.is_present(3));
    assert_eq!(space.last_event_id(), 5);
    let seen = drain(&mut a);
    assert_eq!(seen.len(), 2);
    let mut left: Vec<u64> = Vec::new();
    for event in &seen {
        match &event.data {
            EventData::TimiteDisconnected(timite) => left.push(timite.id),
            other => panic!("unexpected event {:?}", other),
        }
    }
    left.sort();
    assert_eq!(left, vec![2, 3]);
    assert_eq!(seen[0].metadata.id, 4);
    assert_eq!(seen[1].metadata.id, 5);

    assert_eq!(space.cleanup_sessions(&mut storage, &Vec::new(), now()), Ok(0));
    assert_eq!(space.last_event_id(), 5);
}

#[test]
fn a_subscriber_that_does_not_read_is_removed_when_its_queue_is_full() {
    let mut storage = TimStorage::new();
    let mut space = TimSpace::new(&storage);
    let mut slow = join(&mut space, &mut storage, "slow", 1, false);
    for n in 0..(BUFFER_SIZE as u64 - 1) {
        space.publish_message(&mut storage, &message(n + 1, 2, "fill"), now()).unwrap();
    }
    assert_eq!(space.subscriber_count(), 1);
    space.publish_message(&mut storage, &message(99, 2, "overflow"), now()).unwrap();
    assert_eq!(space.subscriber_count(), 0);
    assert_eq!(drain(&mut slow).len(), BUFFER_SIZE);
    let log = kinds(&storage);
    assert_eq!(log.len(), BUFFER_SIZE + 2);
    assert_eq!(log[BUFFER_SIZE], "11:msg:overflow");
    assert_eq!(log[BUFFER_SIZE + 1], "12:out:1");
}

#[test]
fn a_session_that_subscribes_again_replaces_its_subscription() {
    let mut storage = TimStorage::new();
    let mut space = TimSpace::new(&storage);
    let mut first = join(&mut space, &mut storage, "same", 1, false);
    let mut second = join(&mut space, &mut storage, "same", 1, true);
    assert_eq!(space.subscriber_count(), 1);
    assert_eq!(kinds(&storage), vec!["1:in:1"]);
    space.publish_message(&mut storage, &message(1, 1, "own"), now()).unwrap();
    assert_eq!(drain(&mut first).len(), 1, "only the arrival reached the replaced queue");
    assert_eq!(drain(&mut second).len(), 1);
}

#[test]
fn ids_are_consecutive_and_every_delivered_event_is_stored() {
    let mut storage = TimStorage::new();
    let mut space = TimSpace::new(&storage);
    let mut reader = join(&mut space, &mut storage, "r", 5, true);
    for n in 1..=5u64 {
        space.publish_message(&mut storage, &message(n, 5, "m"), now()).unwrap();
    }
    let seen = drain(&mut reader);
    let ids: Vec<u64> = seen.iter().map(|event| event.metadata.id).collect();
    assert_eq!(ids, vec![1, 2, 3, 4, 5, 6]);
    for event in seen {
        assert_eq!(storage.fetch_space_event(event.metadata.id), Some(event));
    }
    assert_eq!(space.last_event_id(), 6);
    assert_eq!(storage.fetch_max_event_id(), 6);
}

#[test]
fn a_new_space_continues_the_stored_timeline() {
    let mut storage = TimStorage::new();
    let mut space = TimSpace::new(&storage);
    assert_eq!(space.last_event_id(), 0);
    space.publish_message(&mut storage, &message(1, 1, "a"), now()).unwrap();
    space.publish_message(&mut storage, &message(2, 1, "b"), now()).unwrap();
    let mut restarted = TimSpace::new(&storage);
    assert_eq!(restarted.last_event_id(), 2);
    restarted.publish_message(&mut storage, &message(3, 1, "c"), now()).unwrap();
    assert_eq!(kinds(&storage), vec!["1:msg:a", "2:msg:b", "3:msg:c"]);
}

#[test]
fn broken_sessions_are_those_that_did_not_take_the_event() {
    let report = vec![
        Delivery { session_key: "a".into(), delivered: true },
        Delivery { session_key: "b".into(), delivered: false },
        Delivery { session_key: "c".into(), delivered: false },
    ];
    assert_eq!(broken_sessions(&report), vec!["b".to_string(), "c".to_string()]);
    assert_eq!(broken_sessions(&Vec::new()), Vec::<String>::new());
}

#[test]
fn prune_returns_each_vanished_participant_once() {
    let mut storage = TimStorage::new();
    let mut space = TimSpace::new(&storage);
    let _a1 = join(&mut space, &mut storage, "a1", 1, false);
    let _a2 = join(&mut space, &mut storage, "a2", 1, false);
    let _b = join(&mut space, &mut storage, "b", 2, false);
    let _c = join(&mut space, &mut storage, "c", 3, false);
    let gone = space.prune_disconnected(&vec![
        "a2".to_string(),
        "a1".to_string(),
        "c".to_string(),
        "nobody".to_string(),
    ]);
    assert_eq!(gone, vec![timite(1), timite(3)]);
    assert_eq!(space.subscriber_count(), 1);
    assert_eq!(space.prune_disconnected(&Vec::new()), Vec::<Timite>::new());
}

#[test]
fn events_are_stamped_with_id_and_time() {
    let stamp = EventMetadata { id: 4, emitted_at: now() };
    assert_eq!(event_metadata(4, now()), stamp);
    let m = message(1, 2, "x");
    assert_eq!(
        event_new_message(4, &m, now()),
        SpaceEvent { metadata: stamp, data: EventData::NewMessage(m) }
    );
    let call = CallAbility {
        call_ability_id: 1,
        sender_id: 2,
        timite_id: 3,
        name: "n".into(),
        payload: "p".into(),
    };
    assert_eq!(event_call_ability(4, &call, now()).data, EventData::CallAbility(call));
    let outcome = CallAbilityOutcome { call_ability_id: 1, payload: None, error: Some("e".into()) };
    assert_eq!(
        event_call_ability_outcome(4, &outcome, now()).data,
        EventData::CallAbilityOutcome(outcome)
    );
    assert_eq!(event_timite_connected(4, &timite(9), now()).data, EventData::TimiteConnected(timite(9)));
    assert_eq!(
        event_timite_disconnected(4, &timite(9), now()).data,
        EventData::TimiteDisconnected(timite(9))
    );
}
