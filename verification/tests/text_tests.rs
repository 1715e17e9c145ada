use rust_multiplayer::chat::ChatMessage;
use rust_multiplayer::text::{str_eq, u32_to_string};

#[test]
fn test_u32_to_string_exact_values() {
    assert_eq!(u32_to_string(0), "0");
    assert_eq!(u32_to_string(7), "7");
    assert_eq!(u32_to_string(10), "10");
    assert_eq!(u32_to_string(254), "254");
    assert_eq!(u32_to_string(1000), "1000");
    assert_eq!(u32_to_string(u32::MAX), "4294967295");
}

#[test]
fn test_str_eq() {
    assert!(str_eq("", ""));
    assert!(str_eq("Beaver_7", "Beaver_7"));
    assert!(!str_eq("Beaver_7", "Beaver_8"));
    assert!(!str_eq("Beaver", "Beaver_8"));
}

#[test]
fn test_server_chat_message_display_line() {
    let m = ChatMessage::new_from_server("Pizza!".to_string());
    let line = m.display_line();
    // A five-character clock reading, then the sender and body.
    assert_eq!(&line[5..], " <SERVER> Pizza!");
    assert_eq!(line.as_bytes()[2], b':');
    let hours: u32 = line[0..2].parse().unwrap();
    let minutes: u32 = line[3..5].parse().unwrap();
    assert!(hours < 24 && minutes < 60);
}

#[test]
fn test_client_chat_message_display_line() {
    let m = ChatMessage::new_from_client("hey".to_string(), 3, "Ann".to_string());
    let line = m.display_line();
    assert_eq!(&line[5..], " <Ann> hey");
}
