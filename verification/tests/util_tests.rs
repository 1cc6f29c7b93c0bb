use veil::commands::{parse_command, parse_usize, ClientCommand};
use veil::envelope::VecToArray32;
use veil::text::u64_to_string;
use veil::users::{
    create_user, delete_user, list_users, push_message, usernames_of, CreateUserPayload,
    UserResponse, UserState,
};

#[test]
fn to_array32_succeeds_only_on_32_bytes() {
    let v: Vec<u8> = (0u8..32).collect();
    let a = v.to_array32().unwrap();
    assert_eq!(a[0], 0);
    assert_eq!(a[31], 31);
    assert!(vec![0u8; 31].to_array32().is_err());
    assert!(vec![0u8; 33].to_array32().is_err());
}

#[test]
fn user_crud_assigns_sequential_ids() {
    let mut state = UserState::new();
    let a = create_user(&mut state, CreateUserPayload { username: String::from("alice") });
    let b = create_user(&mut state, CreateUserPayload { username: String::from("bob") });
    assert_eq!(a.id, 0);
    assert_eq!(b.id, 1);
    let listed = list_users(&state);
    assert_eq!(listed.len(), 2);
    assert_eq!(listed[0].username, "alice");
    assert_eq!(listed[1].username, "bob");

    assert!(delete_user(&mut state, 0));
    assert!(!delete_user(&mut state, 0));
    let listed = list_users(&state);
    assert_eq!(listed.len(), 1);
    assert_eq!(listed[0].username, "bob");

    let c = create_user(&mut state, CreateUserPayload { username: String::from("carol") });
    assert_eq!(c.id, 2);
}

#[test]
fn usernames_of_projects_in_order() {
    let users = vec![
        UserResponse { id: 3, username: String::from("u3") },
        UserResponse { id: 1, username: String::from("u1") },
    ];
    let names = usernames_of(&users);
    assert_eq!(names, vec![String::from("u3"), String::from("u1")]);
}

#[test]
fn message_history_keeps_ten_most_recent() {
    let mut messages: Vec<String> = Vec::new();
    for i in 0..12u64 {
        push_message(&mut messages, u64_to_string(i));
    }
    assert_eq!(messages.len(), 10);
    assert_eq!(messages[0], "2");
    assert_eq!(messages[9], "11");
}

#[test]
fn decimal_rendering_is_exact() {
    assert_eq!(u64_to_string(0), "0");
    assert_eq!(u64_to_string(7), "7");
    assert_eq!(u64_to_string(1234567890), "1234567890");
    assert_eq!(u64_to_string(u64::MAX), "18446744073709551615");
}

#[test]
fn rendered_numbers_parse_back() {
    for n in [0u64, 9, 10, 4096, 123456789] {
        let s = u64_to_string(n);
        assert_eq!(parse_usize(s.as_bytes()), Some(n as usize));
    }
}

#[test]
fn parse_usize_reads_digits_only() {
    assert_eq!(parse_usize(b"0"), Some(0));
    assert_eq!(parse_usize(b"42"), Some(42));
    assert_eq!(parse_usize(b""), None);
    assert_eq!(parse_usize(b"4x2"), None);
    assert_eq!(parse_usize(b"99999999999999999999999999"), None);
}

#[test]
fn commands_are_recognized() {
    assert!(matches!(parse_command(&String::from("")), ClientCommand::NoCommand));
    assert!(matches!(parse_command(&String::from("   ")), ClientCommand::NoCommand));
    assert!(matches!(parse_command(&String::from("/users")), ClientCommand::FetchUsers));
    assert!(matches!(
        parse_command(&String::from("/users now")),
        ClientCommand::FetchUsers
    ));
    match parse_command(&String::from("/create_user alice  the third")) {
        ClientCommand::CreateUser(name) => assert_eq!(name, b"alice the third".to_vec()),
        other => panic!("unexpected command: {:?}", name_of(&other)),
    }
    assert!(matches!(
        parse_command(&String::from("/create_user")),
        ClientCommand::Unknown
    ));
    assert!(matches!(
        parse_command(&String::from("/delete_user 5")),
        ClientCommand::DeleteUser(5)
    ));
    assert!(matches!(
        parse_command(&String::from("/delete_user five")),
        ClientCommand::InvalidUserId
    ));
    assert!(matches!(
        parse_command(&String::from("/delete_user 5 6")),
        ClientCommand::Unknown
    ));
    assert!(matches!(parse_command(&String::from("/bogus")), ClientCommand::Unknown));
    assert!(matches!(parse_command(&String::from("hello")), ClientCommand::Unknown));
}

fn name_of(c: &ClientCommand) -> &'static str {
    match c {
        ClientCommand::NoCommand => "NoCommand",
        ClientCommand::FetchUsers => "FetchUsers",
        ClientCommand::CreateUser(_) => "CreateUser",
        ClientCommand::DeleteUser(_) => "DeleteUser",
        ClientCommand::InvalidUserId => "InvalidUserId",
        ClientCommand::Unknown => "Unknown",
    }
}
