use crate::agent::Agent;
use crate::message::{assistant_role, user_role, MessageView};
use crate::session::{appended, opened, SessionView};
use crate::text::{blank, is_blank, join_lines, joined_lines, texts};
use crate::ui::{edited_lines, input_placeholder, switched, Focus, Ui, UiView};
use ratatui_textarea::Input;
use vstd::prelude::*;

verus! {

/// What a key asks of the application.
#[derive(PartialEq, Eq, Structural, Clone, Copy, Debug)]
pub enum Action {
    Quit,
    SwitchFocus,
    SendMessage,
    Up,
    Down,
}

/// The keys the application tells apart; every other key is `Other`.
#[derive(PartialEq, Eq, Structural, Clone, Copy, Debug)]
pub enum Key {
    Char(char),
    Enter,
    Tab,
    Up,
    Down,
    Other,
}

/// A key press: the key, whether Ctrl was held, and the same press in the
/// form the input box reads it in.
pub struct KeyInput {
    pub key: Key,
    pub ctrl: bool,
    pub edit: Input,
}

/// What is left to do after an action: nothing, or asking the agent for a
/// reply to the conversation.
#[derive(PartialEq, Eq, Structural, Clone, Copy, Debug)]
pub enum AfterAction {
    Done,
    AwaitReply,
}

/// The keys that act whatever has the focus: Ctrl+C quits, Tab switches the
/// focus.
pub open spec fn global_action(key: Key, ctrl: bool) -> Option<Action> {
    if key == Key::Char('c') && ctrl {
        Some(Action::Quit)
    } else if key == Key::Tab {
        Some(Action::SwitchFocus)
    } else {
        None
    }
}

/// Ctrl+Enter, or Ctrl+J which terminals send for it, sends the input.
pub open spec fn is_send_key(key: Key, ctrl: bool) -> bool {
    (key == Key::Enter || key == Key::Char('j')) && ctrl
}

/// The action a key asks for when the conversation has the focus.
pub open spec fn session_action(key: Key) -> Option<Action> {
    match key {
        Key::Up => Some(Action::Up),
        Key::Down => Some(Action::Down),
        _ => None,
    }
}

/// The action a key asks for with the given focus.
pub open spec fn key_action(key: Key, ctrl: bool, focus: Focus) -> Option<Action> {
    if global_action(key, ctrl) is Some {
        global_action(key, ctrl)
    } else {
        match focus {
            Focus::Input => if is_send_key(key, ctrl) {
                Some(Action::SendMessage)
            } else {
                None
            },
            Focus::SessionList => session_action(key),
        }
    }
}

/// The focus after a key: Enter in the conversation hands the focus back to
/// the input box.
pub open spec fn focus_after_key(key: Key, ctrl: bool, focus: Focus) -> Focus {
    if global_action(key, ctrl) is None && focus == Focus::SessionList && key == Key::Enter {
        Focus::Input
    } else {
        focus
    }
}

/// Whether a key goes to the input box to be typed: every key that asks for
/// no action while the input box has the focus.
pub open spec fn edits_input(key: Key, ctrl: bool, focus: Focus) -> bool {
    global_action(key, ctrl) is None && focus == Focus::Input && !is_send_key(key, ctrl)
}

/// The scroll offset one line up; it does not go below the top.
pub open spec fn scrolled_up(offset: usize) -> usize {
    if offset > 0 {
        (offset - 1) as usize
    } else {
        0
    }
}

/// The scroll offset one line down.
pub open spec fn scrolled_down(offset: usize) -> usize {
    (offset + 1) as usize
}

/// The text that the screen adds as the reply when asking for it failed.
pub open spec fn request_error_text(error: Seq<char>) -> Seq<char> {
    "请求失败: "@ + error
}

/// The application: whether it is to quit, and its agent.
pub struct App {
    pub should_quit: bool,
    pub agent: Agent,
}

impl App {
    /// An application that runs.
    pub fn new() -> (app: Self)
        ensures
            !app.should_quit,
    {
        App { should_quit: false, agent: Agent }
    }

    /// Reads a key: Ctrl+C and Tab act whatever has the focus; any other key
    /// goes to the part of the screen that has the focus.
    pub fn handle_key(&mut self, key: KeyInput, ui: &mut Ui) -> (r: Option<Action>)
        ensures
            r == key_action(key.key, key.ctrl, old(ui).focus),
            final(ui)@.focus == focus_after_key(key.key, key.ctrl, old(ui).focus),
            edits_input(key.key, key.ctrl, old(ui).focus) ==> final(ui)@.input == edited_lines(
                old(ui).textarea,
                key.edit,
            ),
            !edits_input(key.key, key.ctrl, old(ui).focus) ==> final(ui)@.input == old(ui)@.input,
            final(ui)@ == (UiView { input: final(ui)@.input, focus: final(ui)@.focus, ..old(ui)@ }),
            !key.ctrl ==> r != Some(Action::SendMessage) && r != Some(Action::Quit),
            !key.ctrl && key.key != Key::Tab && old(ui).focus == Focus::Input ==> r is None
                && final(ui)@.input == edited_lines(old(ui).textarea, key.edit),
            final(self).should_quit == old(self).should_quit,
    {
        if key.key == Key::Char('c') && key.ctrl {
            return Some(Action::Quit);
        }
        if key.key == Key::Tab {
            return Some(Action::SwitchFocus);
        }
        match ui.focus {
            Focus::Input => self.handle_input_key(key, ui),
            Focus::SessionList => self.handle_session_key(key, ui),
        }
    }

    /// Reads a key while the input box has the focus: Ctrl+Enter (or Ctrl+J)
    /// sends the input; any other key is typed into the input box.
    pub fn handle_input_key(&mut self, key: KeyInput, ui: &mut Ui) -> (r: Option<Action>)
        ensures
            is_send_key(key.key, key.ctrl) ==> r == Some(Action::SendMessage) && final(ui)@
                == old(ui)@,
            !is_send_key(key.key, key.ctrl) ==> r is None && final(ui)@ == (UiView {
                input: edited_lines(old(ui).textarea, key.edit),
                ..old(ui)@
            }),
            !key.ctrl ==> r is None && final(ui)@.input == edited_lines(old(ui).textarea, key.edit),
            r is Some ==> r == Some(Action::SendMessage) && key.ctrl && (key.key == Key::Enter
                || key.key == Key::Char('j')),
            final(self).should_quit == old(self).should_quit,
    {
        let is_ctrl_enter = (key.key == Key::Enter || key.key == Key::Char('j')) && key.ctrl;
        if is_ctrl_enter {
            return Some(Action::SendMessage);
        }
        ui.edit_input(key.edit);
        None
    }

    /// Reads a key while the conversation has the focus: Enter hands the focus
    /// to the input box, the arrows scroll, other keys do nothing.
    pub fn handle_session_key(&mut self, key: KeyInput, ui: &mut Ui) -> (r: Option<Action>)
        ensures
            r == session_action(key.key),
            final(ui)@ == (UiView {
                focus: if key.key == Key::Enter {
                    Focus::Input
                } else {
                    old(ui).focus
                },
                ..old(ui)@
            }),
            final(self).should_quit == old(self).should_quit,
    {
        match key.key {
            Key::Enter => {
                ui.focus = Focus::Input;
                None
            },
            Key::Up => Some(Action::Up),
            Key::Down => Some(Action::Down),
            _ => None,
        }
    }

    /// Carries out an action. Sending a non-blank input adds it to the
    /// conversation as a user message and asks for a reply, which the caller
    /// fetches and hands to `reply_started` or `reply_failed`; a blank input
    /// is not sent.
    pub fn apply_action(&mut self, action: Action, ui: &mut Ui) -> (after: AfterAction)
        requires
            action == Action::Down ==> old(ui).scroll_offset < usize::MAX,
        ensures
            final(self).should_quit == (old(self).should_quit || action == Action::Quit),
            action != Action::SendMessage ==> after == AfterAction::Done,
            action != Action::SwitchFocus ==> final(ui)@.focus == old(ui)@.focus,
            action != Action::Up && action != Action::Down ==> final(ui)@.scroll_offset == old(
                ui,
            )@.scroll_offset,
            action != Action::SendMessage ==> final(ui)@.session == old(ui)@.session,
            old(ui)@.session.messages.is_prefix_of(final(ui)@.session.messages),
            final(ui)@.session.messages.len() <= old(ui)@.session.messages.len() + 1,
            final(ui)@.input == old(ui)@.input,
            final(ui)@.placeholder == old(ui)@.placeholder,
            final(ui)@.streaming == old(ui)@.streaming,
            action == Action::Quit ==> final(ui)@ == old(ui)@,
            action == Action::SwitchFocus ==> final(ui)@ == (UiView {
                focus: switched(old(ui).focus),
                ..old(ui)@
            }),
            action == Action::Up ==> final(ui)@ == (UiView {
                scroll_offset: scrolled_up(old(ui).scroll_offset),
                ..old(ui)@
            }),
            action == Action::Down ==> final(ui)@ == (UiView {
                scroll_offset: scrolled_down(old(ui).scroll_offset),
                ..old(ui)@
            }),
            action == Action::SendMessage ==> ({
                let text = joined_lines(old(ui)@.input);
                if is_blank(text) {
                    &&& after == AfterAction::Done
                    &&& final(ui)@ == old(ui)@
                } else {
                    let after_ui = final(ui)@;
                    &&& after == AfterAction::AwaitReply
                    &&& after_ui.session.messages == old(ui)@.session.messages.push(
                        MessageView { role: user_role(), content: text },
                    )
                    &&& after_ui.session.id == old(ui)@.session.id
                    &&& after_ui.session.created_at == old(ui)@.session.created_at
                    &&& after_ui == (UiView { session: after_ui.session, ..old(ui)@ })
                }
            }),
    {
        match action {
            Action::Quit => {
                self.should_quit = true;
                AfterAction::Done
            },
            Action::SwitchFocus => {
                match ui.focus {
                    Focus::Input => ui.focus = Focus::SessionList,
                    Focus::SessionList => ui.focus = Focus::Input,
                }
                AfterAction::Done
            },
            Action::SendMessage => {
                let lines = ui.input_lines();
                let text = join_lines(&lines);
                if blank(text.as_str()) {
                    return AfterAction::Done;
                }
                let ghost before = ui.session@.messages;
                ui.session.start_user();
                ui.session.append_to_last(text.as_str());
                proof {
                    crate::session::lemma_start_then_append(before, user_role(), text@);
                }
                ui.session.finish();
                AfterAction::AwaitReply
            },
            Action::Up => {
                ui.scroll_offset = if ui.scroll_offset > 0 {
                    ui.scroll_offset - 1
                } else {
                    0
                };
                AfterAction::Done
            },
            Action::Down => {
                ui.scroll_offset = ui.scroll_offset + 1;
                AfterAction::Done
            },
        }
    }

    /// The agent accepted the request and streams its reply: an empty
    /// assistant message is started for the stream to fill, and the input box
    /// is emptied.
    pub fn reply_started(&mut self, ui: &mut Ui)
        ensures
            final(ui)@ == (UiView {
                input: seq![Seq::<char>::empty()],
                placeholder: input_placeholder(),
                streaming: true,
                session: SessionView {
                    messages: old(ui)@.session.messages.push(opened(assistant_role())),
                    ..old(ui)@.session
                },
                ..old(ui)@
            }),
            final(self).should_quit == old(self).should_quit,
    {
        ui.streaming = true;
        ui.session.start_assistant();
        ui.reset_input();
    }

    /// Asking the agent failed: the error is added as the reply, and the input
    /// box is emptied.
    pub fn reply_failed(&mut self, ui: &mut Ui, error: &str)
        ensures
            ({
                let after_ui = final(ui)@;
                &&& after_ui.session.messages == old(ui)@.session.messages.push(
                    MessageView { role: assistant_role(), content: request_error_text(error@) },
                )
                &&& after_ui.session.id == old(ui)@.session.id
                &&& after_ui.session.created_at == old(ui)@.session.created_at
                &&& after_ui == (UiView {
                    input: seq![Seq::<char>::empty()],
                    placeholder: input_placeholder(),
                    session: after_ui.session,
                    ..old(ui)@
                })
            }),
            final(self).should_quit == old(self).should_quit,
    {
        let ghost before = ui.session@.messages;
        ui.session.start_assistant();
        let mut note = String::from_str("请求失败: ");
        note.append(error);
        ui.session.append_to_last(note.as_str());
        proof {
            crate::session::lemma_start_then_append(before, assistant_role(), note@);
        }
        ui.session.finish();
        ui.reset_input();
    }
}

/// Switching the focus twice gives it back to where it was.
pub proof fn lemma_switch_twice(f: Focus)
    ensures
        switched(switched(f)) == f,
        switched(f) != f,
{
}

/// Ctrl+C quits and Tab switches the focus, whatever has the focus; neither
/// is typed into the input box.
pub proof fn lemma_global_keys(focus: Focus, ctrl: bool)
    ensures
        key_action(Key::Char('c'), true, focus) == Some(Action::Quit),
        key_action(Key::Tab, ctrl, focus) == Some(Action::SwitchFocus),
        !edits_input(Key::Char('c'), true, focus),
        !edits_input(Key::Tab, ctrl, focus),
        focus_after_key(Key::Tab, ctrl, focus) == focus,
{
}

/// A key either asks for an action or is typed into the input box or does
/// nothing, never two of these; and only a key that asks for no action can be
/// typed.
pub proof fn lemma_key_is_typed_or_acts(key: Key, ctrl: bool, focus: Focus)
    ensures
        edits_input(key, ctrl, focus) ==> key_action(key, ctrl, focus) is None,
        focus == Focus::Input && key_action(key, ctrl, focus) is None ==> edits_input(
            key,
            ctrl,
            focus,
        ),
{
}

/// Scrolling down one line and then up one line comes back to the same
/// offset.
pub proof fn lemma_down_then_up(offset: usize)
    requires
        offset < usize::MAX,
    ensures
        scrolled_up(scrolled_down(offset)) == offset,
        scrolled_up(0) == 0,
{
}

/// Only Ctrl sends: a key pressed without Ctrl never asks to send the input,
/// and every character typed without Ctrl into the focused input box goes into
/// it; with Ctrl, Enter and J send and other letters do not.
pub proof fn lemma_send_needs_ctrl(key: Key, focus: Focus)
    ensures
        key_action(key, false, focus) != Some(Action::SendMessage),
        forall|c: char| #[trigger] edits_input(Key::Char(c), false, Focus::Input),
        key_action(Key::Enter, true, Focus::Input) == Some(Action::SendMessage),
        key_action(Key::Char('j'), true, Focus::Input) == Some(Action::SendMessage),
        forall|c: char|
            c != 'j' && c != 'c' ==> #[trigger] key_action(Key::Char(c), true, Focus::Input)
                is None,
{
}

} // verus!
