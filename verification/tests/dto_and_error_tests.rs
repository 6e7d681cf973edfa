use circulate_backend::dtos::FilterEmailDto;
use circulate_backend::dtos::FilterUserDto;
use circulate_backend::dtos::UserReceiveFileDto;
use circulate_backend::dtos::UserSendFileDto;
use circulate_backend::error::ErrorMessage;
use circulate_backend::error::HttpError;
use circulate_backend::model::ReceiveFileDetails;
use circulate_backend::model::SendFileDetails;
use circulate_backend::store::DBClient;
use circulate_backend::validate::validate_expiration_date;
use circulate_backend::validate::ExpirationDateError;

#[test]
fn filter_user_renders_id_in_decimal() {
    let mut db = DBClient::new();
    for k in 0..42 {
        db.save_user(
            format!("user{}", k),
            format!("user{}@example.com", k),
            "h".to_string(),
            k,
        )
        .unwrap();
    }
    let u = db.get_user(None, Some("user41"), None).unwrap();
    let dto = FilterUserDto::filter_user(&u);
    assert_eq!(dto.id, "41");
    assert_eq!(dto.username, "user41");
    assert_eq!(dto.email, "user41@example.com");
    assert_eq!(dto.public_key, None);
    assert_eq!(dto.created_at, 41);
}

#[test]
fn filter_emails_projects_in_order() {
    let mut db = DBClient::new();
    let requester = db
        .save_user("r".to_string(), "r@example.com".to_string(), "h".to_string(), 1)
        .unwrap();
    let a = db
        .save_user("a".to_string(), "a@example.com".to_string(), "h".to_string(), 2)
        .unwrap();
    let b = db
        .save_user("b".to_string(), "b@example.com".to_string(), "h".to_string(), 3)
        .unwrap();
    db.save_user_key(a.id, "k".to_string(), 4).unwrap();
    db.save_user_key(b.id, "k".to_string(), 5).unwrap();
    let found = db.search_by_email(requester.id, "%@example.com".to_string());
    let dtos: Vec<FilterEmailDto> = FilterEmailDto::filter_emails(&found);
    let emails: Vec<&str> = dtos.iter().map(|d| d.email.as_str()).collect();
    assert_eq!(emails, vec!["a@example.com", "b@example.com"]);
}

#[test]
fn listing_dtos_render_rows() {
    let sent = vec![SendFileDetails {
        file_id: 7,
        file_name: "a.bin".to_string(),
        recipient_email: "r@example.com".to_string(),
        expiration_date: 1_000,
        created_at: 100,
    }];
    let dtos = UserSendFileDto::filter_send_user_files(&sent);
    assert_eq!(dtos.len(), 1);
    assert_eq!(dtos[0].file_id, "7");
    assert_eq!(dtos[0].file_name, "a.bin");
    assert_eq!(dtos[0].recipient_email, "r@example.com");

    let received = vec![ReceiveFileDetails {
        file_id: 1234,
        file_name: "b.bin".to_string(),
        sender_email: "s@example.com".to_string(),
        expiration_date: 2_000,
        created_at: 200,
    }];
    let dtos = UserReceiveFileDto::filter_receive_user_files(&received);
    assert_eq!(dtos.len(), 1);
    assert_eq!(dtos[0].file_id, "1234");
    assert_eq!(dtos[0].sender_email, "s@example.com");
}

#[test]
fn error_messages_render() {
    assert_eq!(ErrorMessage::EmptyPassword.to_str(), "Password cannot be empty");
    assert_eq!(
        ErrorMessage::ExceededMaxPasswordLength(64).to_str(),
        "Password length must not be more than 64"
    );
    assert_eq!(
        ErrorMessage::ExceededMaxPasswordLength(0).to_str(),
        "Password length must not be more than 0"
    );
    assert_eq!(
        ErrorMessage::ExceededMaxPasswordLength(105).to_str(),
        "Password length must not be more than 105"
    );
    assert_eq!(
        ErrorMessage::InvalidToken.to_str(),
        "Authentication token is invalid or expired"
    );
    assert_eq!(
        ErrorMessage::EmailExist.to_str(),
        "User with this email already exists"
    );
    assert_eq!(
        ErrorMessage::TokenNotProvided.to_str(),
        "You are not logged in, please provide a token"
    );
}

#[test]
fn http_error_constructors_pick_status_codes() {
    assert_eq!(HttpError::new("x".to_string(), 418).status, 418);
    assert_eq!(HttpError::server_error("x".to_string()).status, 500);
    assert_eq!(HttpError::bad_request("x".to_string()).status, 400);
    let e = HttpError::unique_constraint_violation("taken".to_string());
    assert_eq!(e.status, 409);
    assert_eq!(e.message, "taken");
    assert_eq!(HttpError::unauthorized("x".to_string()).status, 401);
}

#[test]
fn expiration_date_validation() {
    // 2030-01-01T00:00:00Z is 1 893 456 000 seconds after the epoch.
    let ok = validate_expiration_date("2030-01-01T00:00:00Z", 1_000_000);
    assert_eq!(ok.unwrap(), 1_893_456_000_000);
    let ok = validate_expiration_date("2030-01-01T01:30:00+01:30", 1_000_000);
    assert_eq!(ok.unwrap(), 1_893_456_000_000);

    assert_eq!(
        validate_expiration_date("", 0).unwrap_err(),
        ExpirationDateError::Required
    );
    assert_eq!(
        validate_expiration_date("next tuesday", 0).unwrap_err(),
        ExpirationDateError::InvalidFormat
    );
    assert_eq!(
        validate_expiration_date("2030-13-01T00:00:00Z", 0).unwrap_err(),
        ExpirationDateError::InvalidFormat
    );
    // An instant not strictly in the future is rejected.
    assert_eq!(
        validate_expiration_date("2030-01-01T00:00:00Z", 1_893_456_000_000).unwrap_err(),
        ExpirationDateError::NotInFuture
    );
    assert_eq!(
        validate_expiration_date("1999-01-01T00:00:00Z", 1_893_456_000_000).unwrap_err(),
        ExpirationDateError::NotInFuture
    );
}
