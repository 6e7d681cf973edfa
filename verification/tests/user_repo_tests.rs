use circulate_backend::error::RepoError;
use circulate_backend::store::DBClient;

fn seeded() -> DBClient {
    let mut db = DBClient::new();
    db.save_user(
        "alice".to_string(),
        "alice@example.com".to_string(),
        "hash-a".to_string(),
        10,
    )
    .unwrap();
    db.save_user(
        "bob".to_string(),
        "bob@example.com".to_string(),
        "hash-b".to_string(),
        20,
    )
    .unwrap();
    db
}

#[test]
fn create_and_lookup_users() {
    let db = seeded();
    let alice = db.get_user(None, Some("alice"), None).unwrap();
    assert_eq!(alice.email, "alice@example.com");
    assert_eq!(alice.password, "hash-a");
    assert_eq!(alice.public_key, None);
    assert_eq!(alice.created_at, 10);
    assert_eq!(alice.updated_at, 10);
    let by_id = db.get_user(Some(alice.id), None, None).unwrap();
    assert_eq!(by_id.username, "alice");
    let by_email = db.get_user(None, None, Some("bob@example.com")).unwrap();
    assert_eq!(by_email.username, "bob");
    assert!(db.get_user(None, Some("carol"), None).is_none());
    assert!(db.get_user(None, None, None).is_none());
}

#[test]
fn get_user_honors_first_key_only() {
    let db = seeded();
    let alice = db.get_user(None, Some("alice"), None).unwrap();
    // An id beats a username beats an email; the rest is ignored.
    let got = db
        .get_user(Some(alice.id), Some("bob"), Some("bob@example.com"))
        .unwrap();
    assert_eq!(got.username, "alice");
    let got = db.get_user(None, Some("bob"), Some("alice@example.com")).unwrap();
    assert_eq!(got.username, "bob");
}

#[test]
fn duplicate_email_rejected() {
    let mut db = seeded();
    let r = db.save_user(
        "alice2".to_string(),
        "alice@example.com".to_string(),
        "hash-x".to_string(),
        30,
    );
    assert_eq!(r.unwrap_err(), RepoError::UniqueConstraintViolation);
    // The store is unchanged: the new username is nowhere to be found.
    assert!(db.get_user(None, Some("alice2"), None).is_none());
}

#[test]
fn duplicate_username_rejected() {
    let mut db = seeded();
    let r = db.save_user(
        "bob".to_string(),
        "bob2@example.com".to_string(),
        "hash-x".to_string(),
        30,
    );
    assert_eq!(r.unwrap_err(), RepoError::UniqueConstraintViolation);
    assert!(db.get_user(None, None, Some("bob2@example.com")).is_none());
}

#[test]
fn update_username_flow() {
    let mut db = seeded();
    let alice = db.get_user(None, Some("alice"), None).unwrap();
    let renamed = db.update_user_name(alice.id, "alicia".to_string(), 40).unwrap();
    assert_eq!(renamed.username, "alicia");
    assert_eq!(renamed.updated_at, 40);
    assert_eq!(renamed.created_at, 10);
    assert!(db.get_user(None, Some("alice"), None).is_none());
    assert_eq!(db.get_user(None, Some("alicia"), None).unwrap().id, alice.id);

    let missing = db.update_user_name(9999, "nobody".to_string(), 41);
    assert_eq!(missing.unwrap_err(), RepoError::NotFound);

    let clash = db.update_user_name(alice.id, "bob".to_string(), 42);
    assert_eq!(clash.unwrap_err(), RepoError::UniqueConstraintViolation);
    // Renaming to one's own current name is not a conflict.
    let same = db.update_user_name(alice.id, "alicia".to_string(), 43).unwrap();
    assert_eq!(same.username, "alicia");
    assert_eq!(same.updated_at, 43);
}

#[test]
fn update_password_and_key() {
    let mut db = seeded();
    let bob = db.get_user(None, Some("bob"), None).unwrap();
    let updated = db.update_user_password(bob.id, "hash-b2".to_string(), 50).unwrap();
    assert_eq!(updated.password, "hash-b2");
    assert_eq!(updated.updated_at, 50);
    assert_eq!(
        db.update_user_password(12345, "x".to_string(), 51).unwrap_err(),
        RepoError::NotFound
    );

    db.save_user_key(bob.id, "pem-bob".to_string(), 52).unwrap();
    let bob2 = db.get_user(Some(bob.id), None, None).unwrap();
    assert_eq!(bob2.public_key.as_deref(), Some("pem-bob"));
    assert_eq!(bob2.updated_at, 52);
    assert_eq!(
        db.save_user_key(12345, "pem".to_string(), 53).unwrap_err(),
        RepoError::NotFound
    );
}

#[test]
fn search_excludes_requester_and_keyless() {
    let mut db = seeded();
    let alice = db.get_user(None, Some("alice"), None).unwrap();
    let bob = db.get_user(None, Some("bob"), None).unwrap();
    let carol = db
        .save_user(
            "carol".to_string(),
            "carol@example.com".to_string(),
            "hash-c".to_string(),
            30,
        )
        .unwrap();
    db.save_user_key(alice.id, "pem-a".to_string(), 60).unwrap();
    db.save_user_key(bob.id, "pem-b".to_string(), 61).unwrap();
    // carol never registers a key and stays undiscoverable.

    let found = db.search_by_email(alice.id, "%@example.com".to_string());
    let emails: Vec<&str> = found.iter().map(|u| u.email.as_str()).collect();
    assert_eq!(emails, vec!["bob@example.com"]);

    let found = db.search_by_email(carol.id, "%@example.com".to_string());
    let emails: Vec<&str> = found.iter().map(|u| u.email.as_str()).collect();
    assert_eq!(emails, vec!["alice@example.com", "bob@example.com"]);
}

#[test]
fn search_like_wildcards() {
    let mut db = seeded();
    let alice = db.get_user(None, Some("alice"), None).unwrap();
    let bob = db.get_user(None, Some("bob"), None).unwrap();
    db.save_user_key(alice.id, "pem-a".to_string(), 60).unwrap();
    db.save_user_key(bob.id, "pem-b".to_string(), 61).unwrap();
    let requester = db
        .save_user(
            "dave".to_string(),
            "dave@example.com".to_string(),
            "hash-d".to_string(),
            62,
        )
        .unwrap();

    // Without wildcards the pattern must match the whole email.
    assert!(db.search_by_email(requester.id, "alice".to_string()).is_empty());
    let exact = db.search_by_email(requester.id, "alice@example.com".to_string());
    assert_eq!(exact.len(), 1);
    assert_eq!(exact[0].username, "alice");

    // A prefix pattern.
    let pre = db.search_by_email(requester.id, "bob%".to_string());
    assert_eq!(pre.len(), 1);
    assert_eq!(pre[0].username, "bob");

    // Underscore matches exactly one character.
    let one = db.search_by_email(requester.id, "_lice@example.com".to_string());
    assert_eq!(one.len(), 1);
    assert_eq!(one[0].username, "alice");
    assert!(db
        .search_by_email(requester.id, "_ice@example.com".to_string())
        .is_empty());
}
