use tim_code::api::CallAbility;
use tim_code::api::ClientInfo;
use tim_code::api::EventData;
use tim_code::api::EventMetadata;
use tim_code::api::Message;
use tim_code::api::Session;
use tim_code::api::SpaceEvent;
use tim_code::api::Timestamp;
use tim_code::api::Timite;
use tim_code::bytes::key_order;
use tim_code::bytes::push_be_bytes;
use tim_code::bytes::starts_with;
use tim_code::bytes::KeyOrder;
use tim_code::kvstore::KvStore;
use tim_code::kvstore::KvStoreError;
use tim_code::kvstore::Table;
use tim_code::tim_storage::key;
use tim_code::tim_storage::TimStorage;
use tim_code::tim_storage::TimStorageError;

fn event(id: u64, content: &str) -> SpaceEvent {
    SpaceEvent {
        metadata: EventMetadata { id, emitted_at: Timestamp { seconds: id as i64, nanos: 1 } },
        data: EventData::NewMessage(Message { id, sender_id: 1, content: content.into() }),
    }
}

#[test]
fn keys_are_prefix_and_big_endian_id() {
    assert_eq!(key::timite_prefix(), b"t:id:".to_vec());
    assert_eq!(key::timite_abilities_prefix(), b"t:skill:".to_vec());
    assert_eq!(key::session_prefix(), b"s:".to_vec());
    assert_eq!(key::message_prefix(), b"msg:".to_vec());
    assert_eq!(key::ability_call_prefix(), b"acall:".to_vec());
    assert_eq!(key::timeline_prefix(), b"ev:".to_vec());
    assert_eq!(key::timite(1), b"t:id:\0\0\0\0\0\0\0\x01".to_vec());
    assert_eq!(key::timite_abilities(258), b"t:skill:\0\0\0\0\0\0\x01\x02".to_vec());
    assert_eq!(key::message(u64::MAX), b"msg:\xff\xff\xff\xff\xff\xff\xff\xff".to_vec());
    assert_eq!(
        key::ability_call(0x0102030405060708),
        b"acall:\x01\x02\x03\x04\x05\x06\x07\x08".to_vec()
    );
    assert_eq!(key::timeline_event(0), b"ev:\0\0\0\0\0\0\0\0".to_vec());
    assert_eq!(key::session("ab12"), b"s:ab12".to_vec());
    assert_eq!(key::session("é"), "s:é".as_bytes().to_vec());
}

#[test]
fn big_endian_bytes_agree_with_std() {
    for id in [0u64, 1, 255, 256, 65_535, 65_536, 1 << 40, u64::MAX - 1, u64::MAX] {
        let mut buf = vec![9u8];
        push_be_bytes(&mut buf, id);
        let mut want = vec![9u8];
        want.extend(id.to_be_bytes());
        assert_eq!(buf, want);
    }
}

#[test]
fn key_order_is_lexicographic() {
    assert_eq!(key_order(b"", b""), KeyOrder::Same);
    assert_eq!(key_order(b"", b"a"), KeyOrder::Before);
    assert_eq!(key_order(b"a", b""), KeyOrder::After);
    assert_eq!(key_order(b"ab", b"ab"), KeyOrder::Same);
    assert_eq!(key_order(b"ab", b"abc"), KeyOrder::Before);
    assert_eq!(key_order(b"b", b"abc"), KeyOrder::After);
    assert_eq!(key_order(&key::timeline_event(255), &key::timeline_event(256)), KeyOrder::Before);
    assert!(starts_with(b"ev:1", b"ev:"));
    assert!(starts_with(b"ev:", b""));
    assert!(!starts_with(b"ev", b"ev:"));
    assert!(!starts_with(b"eV:1", b"ev:"));
}

#[test]
fn table_keeps_rows_in_key_order() {
    let mut table: Table<u32> = Table::new();
    assert_eq!(table.len(), 0);
    table.put(b"b:2", 2);
    table.put(b"a:9", 9);
    table.put(b"b:1", 1);
    table.put(b"c", 3);
    table.put(b"b:1", 11);
    assert_eq!(table.len(), 4);
    assert_eq!(table.get(b"b:1"), Some(&11));
    assert_eq!(table.get(b"b:"), None);
    assert_eq!(table.seek(b"b:"), 1);
    assert_eq!(table.seek(b"zzz"), 4);
    assert_eq!(table.collect_prefixed_entries(b"b:"), vec![&11, &2]);
    assert_eq!(table.collect_prefixed_entries(b""), vec![&9, &11, &2, &3]);
    assert_eq!(table.collect_prefixed_entries(b"x"), Vec::<&u32>::new());
    assert_eq!(table.collect_last_prefixed_value(b"b:"), Some(&2));
    assert_eq!(table.collect_last_prefixed_value(b"d"), None);
    assert_eq!(table.collect_range(b"b:", b"b:2", 5), vec![&2]);
    assert_eq!(table.collect_range(b"", b"b:1", 2), vec![&11, &2]);
    assert_eq!(table.collect_range(b"", b"", 0), Vec::<&u32>::new());
}

#[test]
fn log_family_is_write_once() {
    let mut store: KvStore<u8> = KvStore::new();
    assert_eq!(store.store_log(b"k", 1), Ok(()));
    assert_eq!(store.store_log(b"k", 2), Err(KvStoreError::WriteOnce));
    assert_eq!(store.fetch_log(b"k"), Some(&1));
    store.store_data(b"k", 1);
    store.store_data(b"k", 2);
    assert_eq!(store.fetch_data(b"k"), Some(&2));
    store.store_secret(b"k", 7);
    assert_eq!(store.fetch_secret(b"k"), Some(&7));
    assert_eq!(store.fetch_secret(b"other"), None);
    assert_eq!(store.fetch_max_data(b"k"), Some(&2));
    assert_eq!(store.fetch_all_data(b""), vec![&2]);
    assert_eq!(store.fetch_max_log(b"z"), None);
    assert_eq!(store.fetch_all_log(b"k"), vec![&1]);
    assert_eq!(store.fetch_log_range(b"", b"a", 3), vec![&1]);
}

#[test]
fn timeline_pages_by_id() {
    let mut storage = TimStorage::new();
    assert_eq!(storage.fetch_max_event_id(), 0);
    for id in [3u64, 1, 2, 300, 256, 255] {
        storage.store_space_event(&event(id, "x")).unwrap();
    }
    assert_eq!(storage.fetch_max_event_id(), 300);
    let ids = |offset: u64, size: u32| -> Vec<u64> {
        storage.timeline(offset, size).iter().map(|e| e.metadata.id).collect()
    };
    assert_eq!(ids(1, 100), vec![1, 2, 3, 255, 256, 300]);
    assert_eq!(ids(3, 2), vec![3, 255]);
    assert_eq!(ids(4, 2), vec![255, 256]);
    assert_eq!(ids(301, 2), Vec::<u64>::new());
    assert_eq!(ids(0, 1), vec![300]);
    assert_eq!(ids(0, 45), vec![256, 300]);
    assert_eq!(ids(0, 46), vec![255, 256, 300]);
    assert_eq!(ids(0, 1000), vec![1, 2, 3, 255, 256, 300]);
    assert_eq!(ids(0, 0), Vec::<u64>::new());
    assert_eq!(
        storage.store_space_event(&event(2, "again")),
        Err(TimStorageError::KvStore(KvStoreError::WriteOnce))
    );
    assert_eq!(storage.fetch_space_event(2), Some(event(2, "x")));
    assert_eq!(storage.fetch_space_event(4), None);
}

#[test]
fn records_are_read_back_as_they_were_stored() {
    let mut storage = TimStorage::new();
    let alpha = Timite { id: 4, nick: "alpha".into() };
    storage.store_timite(&alpha);
    storage.store_timite(&Timite { id: 2, nick: "two".into() });
    assert_eq!(storage.fetch_timite(4), Some(alpha));
    assert_eq!(storage.fetch_timite(3), None);
    assert_eq!(storage.fetch_max_timite_id(), 4);
    storage.store_timite(&Timite { id: 4, nick: "renamed".into() });
    assert_eq!(storage.fetch_timite(4).unwrap().nick, "renamed");

    let session = Session {
        key: "00ff".into(),
        timite_id: 4,
        created_at: Timestamp { seconds: 1, nanos: 2 },
        client_info: ClientInfo { platform: "p".into() },
    };
    storage.store_session(&session);
    assert_eq!(storage.find_session("00ff"), Some(session));
    assert_eq!(storage.find_session("00f"), None);

    let message = Message { id: 0, sender_id: 4, content: "hello".into() };
    assert_eq!(storage.fetch_max_message_id(), 0);
    storage.store_message(9, &message).unwrap();
    assert_eq!(
        storage.fetch_message(9),
        Some(Message { id: 9, sender_id: 4, content: "hello".into() })
    );
    assert_eq!(storage.fetch_max_message_id(), 9);
    assert!(storage.store_message(9, &message).is_err());

    let call = CallAbility {
        call_ability_id: 0,
        sender_id: 4,
        timite_id: 2,
        name: "echo".into(),
        payload: "hi".into(),
    };
    assert_eq!(storage.fetch_max_call_ability_id(), 0);
    storage.store_call_ability(5, &call).unwrap();
    assert_eq!(storage.fetch_call_ability(5).unwrap().call_ability_id, 5);
    assert_eq!(storage.fetch_call_ability(5).unwrap().name, "echo");
    assert_eq!(storage.fetch_max_call_ability_id(), 5);
    assert_eq!(storage.fetch_call_ability(6), None);

    assert!(storage.fetch_timite_abilities(4).is_empty());
    assert!(storage.list_abilities().is_empty());
}

#[test]
fn abilities_are_listed_for_stored_participants_only() {
    let mut storage = TimStorage::new();
    let echo = tim_code::api::Ability {
        name: "echo".into(),
        description: "d".into(),
        params: Vec::new(),
    };
    storage.store_timite_abilities(8, &vec![echo.clone()]);
    storage.store_timite_abilities(3, &vec![echo.clone(), echo.clone()]);
    assert!(storage.list_abilities().is_empty());
    storage.store_timite(&Timite { id: 3, nick: "three".into() });
    storage.store_timite(&Timite { id: 8, nick: "eight".into() });
    let listed = storage.list_abilities();
    assert_eq!(listed.len(), 2);
    assert_eq!(listed[0].timite.id, 3);
    assert_eq!(listed[0].abilities.len(), 2);
    assert_eq!(listed[1].timite.nick, "eight");
    assert_eq!(storage.fetch_timite_abilities(8), vec![echo]);
}
