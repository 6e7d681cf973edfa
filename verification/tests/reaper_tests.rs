use circulate_backend::store::DBClient;

fn seeded(db: &mut DBClient) -> (u64, u64) {
    let sender = db
        .save_user(
            "sender".to_string(),
            "sender@example.com".to_string(),
            "hash-s".to_string(),
            10,
        )
        .unwrap();
    let recipient = db
        .save_user(
            "recipient".to_string(),
            "recipient@example.com".to_string(),
            "hash-r".to_string(),
            11,
        )
        .unwrap();
    (sender.id, recipient.id)
}

fn upload(db: &mut DBClient, sender: u64, recipient: u64, name: &str, expires: i64, now: i64) -> (u64, u64) {
    db.save_encrypted_file(
        sender,
        name.to_string(),
        1,
        recipient,
        "p".to_string(),
        expires,
        vec![1],
        vec![2],
        vec![3],
        now,
    )
    .unwrap()
}

#[test]
fn reaper_on_empty_store_is_a_noop() {
    let mut db = DBClient::new();
    assert_eq!(db.delete_expired_files(1_000), (0, 0));
}

#[test]
fn reaper_removes_expired_link_and_file() {
    let mut db = DBClient::new();
    let (sender, recipient) = seeded(&mut db);
    let (stale_file, stale_link) = upload(&mut db, sender, recipient, "stale.bin", 500, 100);
    let (live_file, live_link) = upload(&mut db, sender, recipient, "live.bin", 9_000, 101);

    let removed = db.delete_expired_files(1_000);
    assert_eq!(removed, (1, 1));

    // The expired pair is gone entirely: no dangling link, no orphan file.
    assert!(db.get_file(stale_file).is_none());
    assert!(db.get_shared(stale_link, recipient, 600).is_none());
    let (rows, total) = db.get_receive_files(recipient, 1, 10);
    assert_eq!(total, 1);
    assert_eq!(rows[0].file_id, live_link);

    // The live pair is untouched.
    assert!(db.get_file(live_file).is_some());
    assert!(db.get_shared(live_link, recipient, 1_000).is_some());
}

#[test]
fn reaper_twice_is_a_noop_the_second_time() {
    let mut db = DBClient::new();
    let (sender, recipient) = seeded(&mut db);
    upload(&mut db, sender, recipient, "stale.bin", 500, 100);
    upload(&mut db, sender, recipient, "live.bin", 9_000, 101);

    assert_eq!(db.delete_expired_files(1_000), (1, 1));
    assert_eq!(db.delete_expired_files(1_000), (0, 0));
    let (_, total) = db.get_receive_files(recipient, 1, 10);
    assert_eq!(total, 1);
}

#[test]
fn link_expiring_exactly_now_is_not_reaped() {
    // The reaper removes links with expiration strictly before `now`;
    // one expiring exactly at `now` survives the pass, though it is no
    // longer retrievable (retrieval needs expiration strictly beyond).
    let mut db = DBClient::new();
    let (sender, recipient) = seeded(&mut db);
    let (_f, l) = upload(&mut db, sender, recipient, "edge.bin", 1_000, 100);
    assert_eq!(db.delete_expired_files(1_000), (0, 0));
    assert!(db.get_shared(l, recipient, 1_000).is_none());
    assert!(db.get_shared(l, recipient, 999).is_some());
}
