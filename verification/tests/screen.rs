use chat_tui::app::{Action, AfterAction, App, Key, KeyInput};
use chat_tui::llm::{event_text, EventError};
use chat_tui::ui::{separator_line, Focus, Speaker, StreamEvent, Ui};
use ratatui_textarea::{Input, Key as EditKey};

fn press(key: Key, ctrl: bool, edit: EditKey) -> KeyInput {
    KeyInput { key, ctrl, edit: Input { key: edit, ctrl, alt: false, shift: false } }
}

fn type_text(app: &mut App, ui: &mut Ui, text: &str) {
    for c in text.chars() {
        assert_eq!(app.handle_key(press(Key::Char(c), false, EditKey::Char(c)), ui), None);
    }
}

#[test]
fn new_screen_starts_in_the_input_box() {
    let ui = Ui::new();
    assert_eq!(ui.focus, Focus::Input);
    assert!(!ui.streaming);
    assert_eq!(ui.scroll_offset, 0);
    assert_eq!(ui.scope_tick, 0);
    assert_eq!(ui.input_lines(), vec![String::new()]);
    assert!(ui.session.messages.is_empty());
    assert!(!App::new().should_quit);
}

#[test]
fn ctrl_c_quits_from_either_focus() {
    let mut app = App::new();
    let mut ui = Ui::new();
    assert_eq!(app.handle_key(press(Key::Char('c'), true, EditKey::Char('c')), &mut ui), Some(Action::Quit));
    ui.focus = Focus::SessionList;
    assert_eq!(app.handle_key(press(Key::Char('c'), true, EditKey::Char('c')), &mut ui), Some(Action::Quit));
    assert_eq!(app.apply_action(Action::Quit, &mut ui), AfterAction::Done);
    assert!(app.should_quit);
}

#[test]
fn tab_switches_focus_and_back() {
    let mut app = App::new();
    let mut ui = Ui::new();
    let a = app.handle_key(press(Key::Tab, false, EditKey::Tab), &mut ui).unwrap();
    assert_eq!(a, Action::SwitchFocus);
    app.apply_action(a, &mut ui);
    assert_eq!(ui.focus, Focus::SessionList);
    app.apply_action(Action::SwitchFocus, &mut ui);
    assert_eq!(ui.focus, Focus::Input);
}

#[test]
fn typing_goes_into_the_input_box() {
    let mut app = App::new();
    let mut ui = Ui::new();
    type_text(&mut app, &mut ui, "hi");
    assert_eq!(ui.input_lines(), vec!["hi".to_string()]);
    assert_eq!(app.handle_key(press(Key::Enter, false, EditKey::Enter), &mut ui), None);
    type_text(&mut app, &mut ui, "yo");
    assert_eq!(ui.input_lines(), vec!["hi".to_string(), "yo".to_string()]);
}

#[test]
fn ctrl_enter_and_ctrl_j_send() {
    let mut app = App::new();
    let mut ui = Ui::new();
    assert_eq!(app.handle_key(press(Key::Enter, true, EditKey::Enter), &mut ui), Some(Action::SendMessage));
    assert_eq!(app.handle_key(press(Key::Char('j'), true, EditKey::Char('j')), &mut ui), Some(Action::SendMessage));
    assert_eq!(ui.input_lines(), vec![String::new()]);
}

#[test]
fn conversation_keys_scroll_and_return_to_input() {
    let mut app = App::new();
    let mut ui = Ui::new();
    ui.focus = Focus::SessionList;
    assert_eq!(app.handle_key(press(Key::Up, false, EditKey::Up), &mut ui), Some(Action::Up));
    assert_eq!(app.handle_key(press(Key::Down, false, EditKey::Down), &mut ui), Some(Action::Down));
    assert_eq!(app.handle_key(press(Key::Char('x'), false, EditKey::Char('x')), &mut ui), None);
    assert_eq!(ui.focus, Focus::SessionList);
    assert_eq!(app.handle_key(press(Key::Enter, false, EditKey::Enter), &mut ui), None);
    assert_eq!(ui.focus, Focus::Input);
    assert_eq!(ui.input_lines(), vec![String::new()]);
}

#[test]
fn scrolling_stops_at_the_top() {
    let mut app = App::new();
    let mut ui = Ui::new();
    app.apply_action(Action::Up, &mut ui);
    assert_eq!(ui.scroll_offset, 0);
    app.apply_action(Action::Down, &mut ui);
    app.apply_action(Action::Down, &mut ui);
    assert_eq!(ui.scroll_offset, 2);
    app.apply_action(Action::Up, &mut ui);
    assert_eq!(ui.scroll_offset, 1);
}

#[test]
fn blank_input_is_not_sent() {
    let mut app = App::new();
    let mut ui = Ui::new();
    type_text(&mut app, &mut ui, "   ");
    assert_eq!(app.apply_action(Action::SendMessage, &mut ui), AfterAction::Done);
    assert!(ui.session.messages.is_empty());
    assert_eq!(ui.input_lines(), vec!["   ".to_string()]);
}

#[test]
fn sending_adds_a_user_message_and_awaits_a_reply() {
    let mut app = App::new();
    let mut ui = Ui::new();
    type_text(&mut app, &mut ui, "hi");
    app.handle_key(press(Key::Enter, false, EditKey::Enter), &mut ui);
    type_text(&mut app, &mut ui, "there");
    assert_eq!(app.apply_action(Action::SendMessage, &mut ui), AfterAction::AwaitReply);
    assert_eq!(ui.session.messages.len(), 1);
    assert_eq!(ui.session.messages[0].role, "user");
    assert_eq!(ui.session.messages[0].content, "hi\nthere");
    app.reply_started(&mut ui);
    assert!(ui.streaming);
    assert_eq!(ui.session.messages[1].role, "assistant");
    assert_eq!(ui.session.messages[1].content, "");
    assert_eq!(ui.input_lines(), vec![String::new()]);
}

#[test]
fn failed_request_becomes_the_reply() {
    let mut app = App::new();
    let mut ui = Ui::new();
    type_text(&mut app, &mut ui, "q");
    app.apply_action(Action::SendMessage, &mut ui);
    app.reply_failed(&mut ui, "timeout");
    assert!(!ui.streaming);
    assert_eq!(ui.session.messages[1].role, "assistant");
    assert_eq!(ui.session.messages[1].content, "请求失败: timeout");
    assert_eq!(ui.input_lines(), vec![String::new()]);
}

#[test]
fn stream_events_fill_and_end_the_reply() {
    let mut app = App::new();
    let mut ui = Ui::new();
    type_text(&mut app, &mut ui, "q");
    app.apply_action(Action::SendMessage, &mut ui);
    app.reply_started(&mut ui);
    ui.take_stream_event(StreamEvent::Chunk("Hel".to_string()));
    ui.take_stream_event(StreamEvent::Chunk("lo".to_string()));
    assert!(ui.streaming);
    ui.take_stream_event(StreamEvent::Ended);
    assert!(!ui.streaming);
    assert_eq!(ui.session.messages[1].content, "Hello");
    ui.take_stream_event(StreamEvent::Chunk("late".to_string()));
    assert_eq!(ui.session.messages[1].content, "Hello");
}

#[test]
fn broken_stream_notes_the_error() {
    let mut app = App::new();
    let mut ui = Ui::new();
    type_text(&mut app, &mut ui, "q");
    app.apply_action(Action::SendMessage, &mut ui);
    app.reply_started(&mut ui);
    ui.take_stream_event(StreamEvent::Chunk("par".to_string()));
    ui.take_stream_event(StreamEvent::Failed("reset".to_string()));
    assert!(!ui.streaming);
    assert_eq!(ui.session.messages[1].content, "par\n[错误: reset]");
}

#[test]
fn status_texts_follow_the_state() {
    let mut ui = Ui::new();
    assert_eq!(ui.status_label(), " ○ Ready ");
    assert_eq!(ui.focus_name(), "输入");
    assert_eq!(ui.status_hint(), " Tab:切换 │ Ctrl+Enter:发送 │ 焦点:输入");
    assert_eq!(ui.scope_label(), " ▶ 运行 ");
    ui.streaming = true;
    ui.focus = Focus::SessionList;
    ui.scope_paused = true;
    assert_eq!(ui.status_label(), " ● Thinking... ");
    assert_eq!(ui.focus_name(), "会话");
    assert_eq!(ui.status_hint(), " Tab:切换 │ Ctrl+Enter:发送 │ 焦点:会话");
    assert_eq!(ui.scope_label(), " ⏸ 暂停 ");
}

#[test]
fn scope_ticks_unless_paused() {
    let mut ui = Ui::new();
    assert!(ui.advance_scope());
    assert!(ui.advance_scope());
    assert_eq!(ui.scope_tick, 2);
    ui.scope_paused = true;
    assert!(!ui.advance_scope());
    assert_eq!(ui.scope_tick, 2);
}

#[test]
fn scroll_is_kept_within_the_content() {
    let mut ui = Ui::new();
    ui.scroll_offset = 50;
    assert!(ui.fit_scroll(30, 10));
    assert_eq!(ui.scroll_offset, 20);
    assert!(!ui.fit_scroll(5, 10));
    assert_eq!(ui.scroll_offset, 0);
    ui.scroll_offset = 3;
    assert!(ui.fit_scroll(30, 10));
    assert_eq!(ui.scroll_offset, 3);
}

#[test]
fn conversation_lines_wrap_after_the_icon() {
    let mut ui = Ui::new();
    ui.session.start_user();
    ui.session.append_to_last("abcdefgh");
    ui.session.start_assistant();
    ui.session.append_to_last("xy");
    ui.session.start_system();
    ui.session.append_to_last("s");
    // " 👤 " is four columns wide, which leaves three of seven.
    let lines = ui.chat_lines(7);
    let got: Vec<(Speaker, bool, String)> =
        lines.into_iter().map(|l| (l.speaker, l.first, l.text)).collect();
    assert_eq!(
        got,
        vec![
            (Speaker::User, true, "abc".to_string()),
            (Speaker::User, false, "def".to_string()),
            (Speaker::User, false, "gh".to_string()),
            (Speaker::Assistant, true, "xy".to_string()),
            (Speaker::Other, true, "s".to_string()),
        ]
    );
}

#[test]
fn no_room_for_text_gives_no_lines() {
    let mut ui = Ui::new();
    ui.session.start_user();
    ui.session.append_to_last("abc");
    assert!(ui.chat_lines(4).is_empty());
    assert!(ui.chat_lines(0).is_empty());
    assert_eq!(ui.chat_lines(5).len(), 3);
}

#[test]
fn separator_fills_the_width() {
    assert_eq!(separator_line(3), "───");
    assert_eq!(separator_line(0), "");
}

#[test]
fn reset_input_empties_the_box() {
    let mut app = App::new();
    let mut ui = Ui::new();
    type_text(&mut app, &mut ui, "abc");
    ui.reset_input();
    assert_eq!(ui.input_lines(), vec![String::new()]);
}

#[test]
fn done_marker_gives_no_text() {
    assert_eq!(event_text("[DONE]").ok().unwrap(), "");
    assert_eq!(event_text("  [DONE] \n").ok().unwrap(), "");
}

#[test]
fn delta_content_is_read() {
    let data = r#"{"choices":[{"delta":{"content":"Hi there"}}]}"#;
    assert_eq!(event_text(data).ok().unwrap(), "Hi there");
}

#[test]
fn missing_delta_content_gives_no_text() {
    assert_eq!(event_text(r#"{"choices":[{"delta":{"role":"assistant"}}]}"#).ok().unwrap(), "");
    assert_eq!(event_text(r#"{"choices":[]}"#).ok().unwrap(), "");
    assert_eq!(event_text(r#"{"choices":[{"delta":{"content":7}}]}"#).ok().unwrap(), "");
}

#[test]
fn data_that_is_not_json_is_an_error() {
    match event_text("not json") {
        Err(EventError::Json(_)) => {}
        Ok(_) => panic!("expected an error"),
    }
}

#[test]
fn placeholder_is_shown_again_after_a_reply() {
    let mut app = App::new();
    let mut ui = Ui::new();
    assert_eq!(ui.textarea.area.placeholder_text(), "在这里开始...");
    type_text(&mut app, &mut ui, "q");
    assert_eq!(ui.textarea.area.placeholder_text(), "在这里开始...");
    app.apply_action(Action::SendMessage, &mut ui);
    app.reply_failed(&mut ui, "e");
    assert_eq!(ui.textarea.area.placeholder_text(), "在这里开始...");
    type_text(&mut app, &mut ui, "r");
    app.apply_action(Action::SendMessage, &mut ui);
    app.reply_started(&mut ui);
    assert_eq!(ui.textarea.area.placeholder_text(), "在这里开始...");
}
