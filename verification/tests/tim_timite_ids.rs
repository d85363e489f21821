use tim_code::tim_storage::TimStorage;
use tim_code::tim_timite::TimTimite;

#[test]
fn timite_ids_survive_restart() {
    let mut storage = TimStorage::new();

    let last_id = {
        let mut timite = TimTimite::new(&storage);

        let first = timite.create(&mut storage, "alpha").unwrap();
        let second = timite.create(&mut storage, "beta").unwrap();

        assert!(
            second.id > first.id,
            "IDs should increase across sequential creations"
        );

        second.id
    };

    {
        let mut timite = TimTimite::new(&storage);

        let after_restart = timite.create(&mut storage, "gamma").unwrap();
        assert_eq!(
            after_restart.id,
            last_id + 1,
            "IDs should continue from the last persisted value"
        );

        let next = timite.create(&mut storage, "delta").unwrap();
        assert_eq!(
            next.id,
            after_restart.id + 1,
            "IDs must keep incrementing during the same run"
        );
    }
}

#[test]
fn first_timite_gets_id_one_and_keeps_its_nick() {
    let mut storage = TimStorage::new();
    let mut timite = TimTimite::new(&storage);
    assert_eq!(timite.last_id(), 0);
    let alpha = timite.create(&mut storage, "alpha").unwrap();
    assert_eq!(alpha.id, 1);
    assert_eq!(alpha.nick, "alpha");
    assert_eq!(timite.get(&storage, 1), Some(alpha));
    assert_eq!(timite.get(&storage, 2), None);
}

#[test]
fn two_timites_may_share_a_nick() {
    let mut storage = TimStorage::new();
    let mut timite = TimTimite::new(&storage);
    let a = timite.create(&mut storage, "same").unwrap();
    let b = timite.create(&mut storage, "same").unwrap();
    assert_ne!(a.id, b.id);
    assert_eq!(a.nick, b.nick);
}
