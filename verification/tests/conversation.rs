use chat_tui::message::Message;
use chat_tui::session::Session;

#[test]
fn message_accessors_give_back_the_fields() {
    let m = Message::new("user".to_string(), "hello".to_string());
    assert_eq!(m.role(), "user");
    assert_eq!(m.content(), "hello");
}

#[test]
fn role_constructors_set_the_role() {
    assert_eq!(Message::user("a".to_string()).role, "user");
    assert_eq!(Message::assistant("b".to_string()).role, "assistant");
    assert_eq!(Message::system("c".to_string()).role, "system");
    assert_eq!(Message::system("c".to_string()).content, "c");
}

#[test]
fn new_session_is_empty_with_a_hyphenated_id() {
    let s = Session::new();
    assert!(s.messages.is_empty());
    assert_eq!(s.id.len(), 36);
    assert_eq!(s.id.chars().filter(|c| *c == '-').count(), 4);
    assert_eq!(s.created_at, s.updated_at);
    assert!(s.created_at > 0);
}

#[test]
fn begin_sets_id_and_times() {
    let s = Session::begin("abc".to_string(), 42);
    assert_eq!(s.id, "abc");
    assert_eq!(s.created_at, 42);
    assert_eq!(s.updated_at, 42);
    assert!(s.messages.is_empty());
}

#[test]
fn streamed_chunks_join_into_the_last_message() {
    let mut s = Session::begin("x".to_string(), 1);
    s.start_user();
    s.append_to_last("hi");
    s.start_assistant();
    s.append_to_last("Hel");
    s.append_to_last("lo, ");
    s.append_to_last("world");
    assert_eq!(s.messages.len(), 2);
    assert_eq!(s.messages[0].role, "user");
    assert_eq!(s.messages[0].content, "hi");
    assert_eq!(s.messages[1].role, "assistant");
    assert_eq!(s.messages[1].content, "Hello, world");
}

#[test]
fn append_without_messages_changes_nothing() {
    let mut s = Session::begin("x".to_string(), 5);
    s.append_to_last("lost");
    assert!(s.messages.is_empty());
    assert_eq!(s.updated_at, 5);
}

#[test]
fn start_system_opens_an_empty_system_message() {
    let mut s = Session::begin("x".to_string(), 5);
    s.start_system();
    let last = s.last_message().unwrap();
    assert_eq!(last.role, "system");
    assert_eq!(last.content, "");
}

#[test]
fn finish_at_only_moves_the_update_time() {
    let mut s = Session::begin("x".to_string(), 5);
    s.start_user();
    s.finish_at(9);
    assert_eq!(s.updated_at, 9);
    assert_eq!(s.created_at, 5);
    assert_eq!(s.messages.len(), 1);
}

#[test]
fn finish_reads_the_clock() {
    let mut s = Session::begin("x".to_string(), 0);
    s.finish();
    assert!(s.updated_at > 0);
    assert_eq!(s.created_at, 0);
}

#[test]
fn clear_removes_messages() {
    let mut s = Session::begin("x".to_string(), 5);
    s.start_user();
    s.start_assistant();
    s.clear_at(7);
    assert!(s.messages.is_empty());
    assert_eq!(s.updated_at, 7);
    assert!(s.last_message().is_none());
    s.start_user();
    s.clear();
    assert!(s.messages.is_empty());
    assert!(s.updated_at > 7);
}

#[test]
fn last_message_is_the_latest() {
    let mut s = Session::begin("x".to_string(), 5);
    assert!(s.last_message().is_none());
    s.start_user();
    s.append_to_last("one");
    s.start_assistant();
    s.append_to_last("two");
    assert_eq!(s.last_message().unwrap().content, "two");
}

#[test]
fn now_is_after_the_year_two_thousand() {
    assert!(chat_tui::session::now() > 946_684_800);
}

#[test]
fn stored_records_hold_their_fields() {
    let m = chat_tui::data::Message {
        id: "1".to_string(),
        session_id: "s".to_string(),
        role: "user".to_string(),
        content: "c".to_string(),
        created_at: 3,
    };
    assert_eq!(m.created_at, 3);
    let e = chat_tui::data::MemoryEmbedding {
        memory_id: "1".to_string(),
        model: "m".to_string(),
        dimensions: 2,
        embedding: vec![1, 2, 3],
    };
    assert_eq!(e.embedding.len(), 3);
}

#[test]
fn session_id_is_a_version_four_uuid() {
    let id = Session::new().id;
    let chars: Vec<char> = id.chars().collect();
    assert_eq!(chars.len(), 36);
    for (i, c) in chars.iter().enumerate() {
        if i == 8 || i == 13 || i == 18 || i == 23 {
            assert_eq!(*c, '-');
        } else {
            assert!(c.is_ascii_digit() || ('a'..='f').contains(c));
        }
    }
    assert_eq!(chars[14], '4');
    assert!(['8', '9', 'a', 'b'].contains(&chars[19]));
}
