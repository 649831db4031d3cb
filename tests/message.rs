use pgwire::message::{Message, MountError, StartupMessage, PROTOCOL};

#[test]
fn verify_if_the_start_up_message_start_like_expected() {
    let username = "loures";

    let start_up_message: StartupMessage = StartupMessage::new(username, PROTOCOL);
    let expected_start_up_message: StartupMessage = StartupMessage {
        protocol: PROTOCOL.to_string(),
        username: username.to_string(),
        database: None,
        message_size: None,
    };

    assert_eq!(start_up_message, expected_start_up_message);
}

#[test]
fn verify_if_set_database_is_works() {
    let database = "db-postgres";
    let mut start_up_message: StartupMessage = StartupMessage::new("loures", PROTOCOL);
    start_up_message.set_database(database);

    let database: String = start_up_message.database.unwrap();
    let expected_database: String = database.to_string();

    assert_eq!(database, expected_database);
}

#[test]
fn verify_if_define_body_message_is_works_when_database_isnt_defines() {
    let mut start_up_message: StartupMessage = StartupMessage::new("loures", PROTOCOL);

    let body_message: String = start_up_message.define_body_messsage();
    let expected_body_message: String = "user\0loures\0database\0loures\0\0".to_string();

    assert_eq!(body_message, expected_body_message);
}

#[test]
fn verify_if_define_body_message_is_works_when_database_is_defines() {
    let mut start_up_message: StartupMessage = StartupMessage::new("loures", PROTOCOL);
    start_up_message.set_database("db-postgres");

    let body_message: String = start_up_message.define_body_messsage();
    let expected_body_message: String = "user\0loures\0database\0db-postgres\0\0".to_string();

    assert_eq!(body_message, expected_body_message);
}

#[test]
fn verify_if_set_size_is_works_when_database_isnt_defines() {
    let mut start_up_message: StartupMessage = StartupMessage::new("loures", PROTOCOL);
    let message: String = "user\0loures\0database\0db-postgres\0\0".to_string();
    start_up_message.set_size(&message);

    let size: u32 = start_up_message.message_size.unwrap();
    let expected_size: u32 = message.len() as u32;

    assert_eq!(size, expected_size);
}

#[test]
fn verify_if_mount_message_is_works() {
    let mut start_up_message: StartupMessage = StartupMessage::new("loures", PROTOCOL);

    let mount_message: Message = start_up_message.mount_message().unwrap();
    let expected_mount_message: Message = Message {
        size: 37,
        protocol: PROTOCOL.parse().unwrap(),
        message: "user\0loures\0database\0loures\0\0".to_string(),
    };

    assert_eq!(mount_message, expected_mount_message);
}

#[test]
fn verify_if_message_as_string_is_works() {
    let protocol: u32 = PROTOCOL.parse().unwrap();

    let message: Message = Message {
        size: 37,
        protocol: protocol,
        message: "user\0loures\0database\0loures\0\0".to_string(),
    };

    let message_as_string: String = message.as_string();
    let expected_message_as_string: String =
        "37196608user\0loures\0database\0loures\0\0".to_string();

    assert_eq!(message_as_string, expected_message_as_string);
}

#[test]
fn verify_if_message_as_bytes_is_works() {
    let protocol: u32 = PROTOCOL.parse().unwrap();

    let message: Message = Message {
        size: 37,
        protocol: protocol,
        message: "user\0loures\0database\0loures\0\0".to_string(),
    };

    let message_as_bytes: Vec<u8> = message.as_bytes();
    let expected_message_as_bytes: Vec<u8> = Vec::from([
        0, 0, 0, 37, 0, 3, 0, 0, 117, 115, 101, 114, 0, 108, 111, 117, 114, 101, 115, 0, 100,
        97, 116, 97, 98, 97, 115, 101, 0, 108, 111, 117, 114, 101, 115, 0, 0,
    ]);

    assert_eq!(message_as_bytes, expected_message_as_bytes);
}

#[test]
fn mount_message_counts_bytes_not_chars() {
    let mut start_up_message = StartupMessage::new("joão", PROTOCOL);
    let message = start_up_message.mount_message().unwrap();
    assert_eq!(message.size, 8 + "user\0joão\0database\0joão\0\0".len() as u32);
    assert_eq!(start_up_message.message_size, Some(message.size - 8));
}

#[test]
fn mount_message_rejects_a_protocol_that_is_not_a_number() {
    let mut bad = StartupMessage::new("loures", "3.0");
    assert!(matches!(bad.mount_message(), Err(MountError::Protocol(_))));
    let mut empty = StartupMessage::new("loures", "");
    assert!(matches!(empty.mount_message(), Err(MountError::Protocol(_))));
    let mut too_big = StartupMessage::new("loures", "4294967296");
    assert!(matches!(too_big.mount_message(), Err(MountError::Protocol(_))));
}

#[test]
fn mount_message_accepts_a_plus_sign() {
    let mut plus = StartupMessage::new("loures", "+196608");
    assert_eq!(plus.mount_message().unwrap().protocol, 196_608);
}

#[test]
fn message_total_size_adds_header() {
    let mut start_up_message = StartupMessage::new("loures", PROTOCOL);
    start_up_message.set_size(&"abc".to_string());
    assert_eq!(start_up_message.message_total_size(), 11);
}

#[test]
fn as_string_writes_numbers_in_decimal() {
    let message = Message { size: 0, protocol: 4_294_967_295, message: "x".to_string() };
    assert_eq!(message.as_string(), "04294967295x");
}

#[test]
fn mount_message_rejects_null_in_the_user_name() {
    let mut start_up_message = StartupMessage::new("a\0b", PROTOCOL);
    assert!(matches!(start_up_message.mount_message(), Err(MountError::EmbeddedNull)));
    assert_eq!(start_up_message.message_size, None);
}

#[test]
fn mount_message_rejects_null_in_the_database_name() {
    let mut start_up_message = StartupMessage::new("loures", "not a number");
    start_up_message.set_database("ag\0ro");
    assert!(matches!(start_up_message.mount_message(), Err(MountError::EmbeddedNull)));
}

#[test]
fn body_fits_size_field_for_ordinary_names() {
    let start_up_message = StartupMessage::new("loures", PROTOCOL);
    assert!(start_up_message.body_fits_size_field());
}
