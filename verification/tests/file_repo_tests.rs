use circulate_backend::error::RepoError;
use circulate_backend::store::DBClient;

fn two_users(db: &mut DBClient) -> (u64, u64) {
    let sender = db
        .save_user(
            "sender".to_string(),
            "sender@example.com".to_string(),
            "hash-s".to_string(),
            10,
        )
        .unwrap();
    let recipient = db
        .save_user(
            "recipient".to_string(),
            "recipient@example.com".to_string(),
            "hash-r".to_string(),
            11,
        )
        .unwrap();
    (sender.id, recipient.id)
}

fn upload(db: &mut DBClient, sender: u64, recipient: u64, name: &str, expires: i64, now: i64) -> (u64, u64) {
    db.save_encrypted_file(
        sender,
        name.to_string(),
        3,
        recipient,
        "link-pass".to_string(),
        expires,
        vec![1, 2, 3],
        vec![9, 9, 9],
        vec![7, 7],
        now,
    )
    .unwrap()
}

#[test]
fn upload_then_fetch() {
    let mut db = DBClient::new();
    let (sender, recipient) = two_users(&mut db);
    let (file_id, shared_id) = upload(&mut db, sender, recipient, "a.bin", 1_000, 100);

    let f = db.get_file(file_id).unwrap();
    assert_eq!(f.user_id, sender);
    assert_eq!(f.file_name, "a.bin");
    assert_eq!(f.file_size, 3);
    assert_eq!(f.encrypted_aes_key, vec![1, 2, 3]);
    assert_eq!(f.encrypted_file, vec![9, 9, 9]);
    assert_eq!(f.iv, vec![7, 7]);
    assert_eq!(f.created_at, 100);

    let l = db.get_shared(shared_id, recipient, 500).unwrap();
    assert_eq!(l.file_id, file_id);
    assert_eq!(l.recipient_user_id, recipient);
    assert_eq!(l.password, "link-pass");
    assert_eq!(l.expiration_date, 1_000);
}

#[test]
fn upload_rejects_unknown_users() {
    let mut db = DBClient::new();
    let (sender, recipient) = two_users(&mut db);
    let before = db.id_counter();
    let r = db.save_encrypted_file(
        9999,
        "a.bin".to_string(),
        1,
        recipient,
        "p".to_string(),
        1_000,
        vec![],
        vec![],
        vec![],
        100,
    );
    assert_eq!(r.unwrap_err(), RepoError::NotFound);
    let r = db.save_encrypted_file(
        sender,
        "a.bin".to_string(),
        1,
        9999,
        "p".to_string(),
        1_000,
        vec![],
        vec![],
        vec![],
        100,
    );
    assert_eq!(r.unwrap_err(), RepoError::NotFound);
    // Atomic failure: nothing was inserted, no id was consumed.
    assert_eq!(db.id_counter(), before);
    assert!(db.get_file(before).is_none());
}

#[test]
fn get_shared_not_found_three_ways() {
    let mut db = DBClient::new();
    let (sender, recipient) = two_users(&mut db);
    let (_file_id, shared_id) = upload(&mut db, sender, recipient, "a.bin", 1_000, 100);

    // Wrong recipient.
    assert!(db.get_shared(shared_id, sender, 500).is_none());
    // Expired (expiration must lie strictly in the future).
    assert!(db.get_shared(shared_id, recipient, 1_000).is_none());
    assert!(db.get_shared(shared_id, recipient, 2_000).is_none());
    // Nonexistent id.
    assert!(db.get_shared(424242, recipient, 500).is_none());
    // The happy path still works.
    assert!(db.get_shared(shared_id, recipient, 999).is_some());
}

#[test]
fn access_gate() {
    let mut db = DBClient::new();
    let (sender, recipient) = two_users(&mut db);
    let (file_id, shared_id) = upload(&mut db, sender, recipient, "a.bin", 1_000, 100);

    let f = db
        .retrieve_shared_file(shared_id, recipient, "link-pass", 500)
        .unwrap();
    assert_eq!(f.id, file_id);
    assert_eq!(f.encrypted_file, vec![9, 9, 9]);
    assert_eq!(f.encrypted_aes_key, vec![1, 2, 3]);
    assert_eq!(f.iv, vec![7, 7]);

    // Wrong password, wrong recipient and expiration all read the same.
    assert_eq!(
        db.retrieve_shared_file(shared_id, recipient, "wrong", 500).unwrap_err(),
        RepoError::NotFound
    );
    assert_eq!(
        db.retrieve_shared_file(shared_id, sender, "link-pass", 500).unwrap_err(),
        RepoError::NotFound
    );
    assert_eq!(
        db.retrieve_shared_file(shared_id, recipient, "link-pass", 1_500).unwrap_err(),
        RepoError::NotFound
    );
}

#[test]
fn pagination_five_links() {
    let mut db = DBClient::new();
    let (sender, recipient) = two_users(&mut db);
    let mut ids: Vec<u64> = Vec::new();
    for k in 0..5u32 {
        let now = 100 + i64::from(k);
        let (file_id, _shared_id) =
            upload(&mut db, sender, recipient, &format!("f{}.bin", k), 10_000, now);
        ids.push(file_id);
    }

    let (page1, total1) = db.get_send_files(sender, 1, 2);
    let (page2, total2) = db.get_send_files(sender, 2, 2);
    let (page3, total3) = db.get_send_files(sender, 3, 2);
    assert_eq!((total1, total2, total3), (5, 5, 5));
    assert_eq!(page1.len(), 2);
    assert_eq!(page2.len(), 2);
    assert_eq!(page3.len(), 1);

    // Most recent first, and no row reappears on a later page.
    let all: Vec<u64> = page1
        .iter()
        .chain(page2.iter())
        .chain(page3.iter())
        .map(|r| r.file_id)
        .collect();
    let newest_first: Vec<u64> = ids.iter().rev().copied().collect();
    assert_eq!(all, newest_first);
    let created: Vec<i64> = page1
        .iter()
        .chain(page2.iter())
        .chain(page3.iter())
        .map(|r| r.created_at)
        .collect();
    let mut sorted = created.clone();
    sorted.sort_by(|a, b| b.cmp(a));
    assert_eq!(created, sorted);

    // A page past the end is empty, with the same total.
    let (page4, total4) = db.get_send_files(sender, 4, 2);
    assert!(page4.is_empty());
    assert_eq!(total4, 5);

    // Rows carry the join results.
    assert_eq!(page1[0].recipient_email, "recipient@example.com");
    assert_eq!(page1[0].file_name, "f4.bin");
    assert_eq!(page1[0].expiration_date, 10_000);
}

#[test]
fn receive_listing_lists_expired_links() {
    let mut db = DBClient::new();
    let (sender, recipient) = two_users(&mut db);
    let (_f1, s1) = upload(&mut db, sender, recipient, "live.bin", 10_000, 100);
    // This link is already expired when it is created; it still shows up
    // in the received listing until the reaper removes it.
    let (_f2, s2) = upload(&mut db, sender, recipient, "stale.bin", 50, 101);

    let (rows, total) = db.get_receive_files(recipient, 1, 10);
    assert_eq!(total, 2);
    assert_eq!(rows.len(), 2);
    // The received listing's file_id column carries the shared-link id.
    assert_eq!(rows[0].file_id, s2);
    assert_eq!(rows[1].file_id, s1);
    assert_eq!(rows[0].file_name, "stale.bin");
    assert_eq!(rows[0].sender_email, "sender@example.com");
    // Sender sees nothing in the received listing.
    let (none_rows, none_total) = db.get_receive_files(sender, 1, 10);
    assert!(none_rows.is_empty());
    assert_eq!(none_total, 0);
    // The expired link itself is not retrievable.
    assert!(db.get_shared(s2, recipient, 101).is_none());
}
