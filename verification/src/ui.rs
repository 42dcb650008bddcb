use crate::message::{assistant_role, user_role, Message, MessageView};
use crate::session::{appended, is_uuid_v4_text, Session, SessionView};
use crate::text::{
    flatten, push_char, is_wrapping, lemma_fitting_text_is_one_line, lemma_wrapping_exists, seq_width, lemma_wrapping_unique, str_display_width, str_width_of, texts, wrap_to_width,
};
use ratatui_textarea::{Input, TextArea};
use vstd::prelude::*;

verus! {

/// The input box: a `TextArea` of the `ratatui-textarea` crate, the editor
/// widget that the screen draws. Its lines are known through
/// `input_box_lines`, its placeholder through `placeholder_of`.
#[verifier::external_body]
pub struct InputBox {
    pub area: TextArea<'static>,
}

#[verifier::external_type_specification]
#[verifier::external_body]
pub struct ExInput(Input);

/// The lines of text that the input box's `TextArea` holds.
pub uninterp spec fn input_box_lines(b: InputBox) -> Seq<Seq<char>>;

/// What `TextArea::placeholder_text` of `ratatui-textarea` returns for the
/// input box: the text shown while the box is empty, or the empty text when no
/// placeholder is set.
pub uninterp spec fn placeholder_of(b: InputBox) -> Seq<char>;

/// A text without line breaks, which a placeholder keeps whole.
pub open spec fn single_line(s: Seq<char>) -> bool {
    forall|i: int| 0 <= i < s.len() ==> #[trigger] s[i] != '\n' && s[i] != '\r'
}

/// Calls `TextArea::new` of `ratatui-textarea` with no lines. Claimed: the
/// text area holds one empty line (the crate's `new` adds an empty line when it
/// is given none) and no placeholder (`new` starts from an empty placeholder
/// text, for which `placeholder_text` gives the empty text).
#[verifier::external_body]
fn empty_textarea() -> (ta: InputBox)
    ensures
        input_box_lines(ta) == seq![Seq::<char>::empty()],
        placeholder_of(ta) == Seq::<char>::empty(),
{
    InputBox { area: TextArea::new(Vec::new()) }
}

/// Calls `TextArea::set_placeholder_text` of `ratatui-textarea`. Claimed: the
/// lines of text are kept (the method sets only the placeholder), and a text
/// without line breaks becomes the placeholder text (the method clears the
/// placeholder for the empty text and otherwise stores the text as one line,
/// split at line breaks, whose first piece `placeholder_text` gives). Not
/// claimed: which part of a text with line breaks is kept.
#[verifier::external_body]
fn set_placeholder(ta: &mut InputBox, text: &str)
    ensures
        input_box_lines(*final(ta)) == input_box_lines(*old(ta)),
        single_line(text@) ==> placeholder_of(*final(ta)) == text@,
{
    ta.area.set_placeholder_text(text)
}

/// Calls `TextArea::lines` of `ratatui-textarea` and copies the lines.
/// Claimed: the copy holds the text area's lines.
#[verifier::external_body]
fn textarea_text(ta: &InputBox) -> (lines: Vec<String>)
    ensures
        texts(lines@) == input_box_lines(*ta),
{
    ta.area.lines().to_vec()
}

/// The lines that `TextArea::input` of `ratatui-textarea` leaves in the text
/// area `b` after it handles the key `key`. The crate's editing depends on the
/// text area's whole state (its lines, cursor, edit history and yank buffer)
/// and on the key alone.
pub uninterp spec fn edited_lines(b: InputBox, key: Input) -> Seq<Seq<char>>;

/// Calls `TextArea::input` of `ratatui-textarea`, which edits the text as the
/// key asks. Claimed: the lines afterwards are the named edit of the text area
/// by the key, and the placeholder is kept (no editing operation of the crate
/// touches it). Not claimed: how a key edits the text, which the crate decides
/// from the cursor, the selection, the edit history and the key map; nor what
/// the returned flag says of the lines (a paste over a selection with an empty
/// yank buffer removes text and reports no change).
#[verifier::external_body]
fn feed_textarea(ta: &mut InputBox, input: Input) -> (modified: bool)
    ensures
        input_box_lines(*final(ta)) == edited_lines(*old(ta), input),
        placeholder_of(*final(ta)) == placeholder_of(*old(ta)),
{
    ta.area.input(input)
}

/// The part of the screen that has the keyboard.
#[derive(PartialEq, Eq, Structural, Clone, Copy, Debug)]
pub enum Focus {
    SessionList,
    Input,
}

/// The focus after a switch: the other part of the screen.
pub open spec fn switched(f: Focus) -> Focus {
    match f {
        Focus::SessionList => Focus::Input,
        Focus::Input => Focus::SessionList,
    }
}

/// One event of a streamed reply.
pub enum StreamEvent {
    /// A piece of the reply's text.
    Chunk(String),
    /// The stream broke, with the error's message.
    Failed(String),
    /// The stream is over.
    Ended,
}

/// Who wrote a message, as far as the screen tells them apart.
#[derive(PartialEq, Eq, Structural, Clone, Copy, Debug)]
pub enum Speaker {
    User,
    Assistant,
    Other,
}

/// One line of the conversation on the screen: the writer of its message,
/// whether it is the message's first line (which carries the writer's icon),
/// and its text.
pub struct ChatLine {
    pub speaker: Speaker,
    pub first: bool,
    pub text: String,
}

/// The abstract content of a conversation line.
pub struct ChatLineView {
    pub speaker: Speaker,
    pub first: bool,
    pub text: Seq<char>,
}

impl View for ChatLine {
    type V = ChatLineView;

    open spec fn view(&self) -> ChatLineView {
        ChatLineView { speaker: self.speaker, first: self.first, text: self.text@ }
    }
}

/// The contents of a list of conversation lines.
pub open spec fn line_views(ls: Seq<ChatLine>) -> Seq<ChatLineView> {
    ls.map_values(|l: ChatLine| l@)
}

/// The texts of conversation lines.
pub open spec fn line_texts(ls: Seq<ChatLineView>) -> Seq<Seq<char>> {
    ls.map_values(|l: ChatLineView| l.text)
}

/// The writer of a message of the given role.
pub open spec fn speaker_of(role: Seq<char>) -> Speaker {
    if role == user_role() {
        Speaker::User
    } else if role == assistant_role() {
        Speaker::Assistant
    } else {
        Speaker::Other
    }
}

/// The icon in front of a message's first line.
pub open spec fn icon_of(sp: Speaker) -> Seq<char> {
    match sp {
        Speaker::User => " 👤 "@,
        Speaker::Assistant => " 🤖 "@,
        Speaker::Other => "   "@,
    }
}

/// The icon in front of a message's first line.
pub fn speaker_icon(sp: Speaker) -> (r: &'static str)
    ensures
        r@ == icon_of(sp),
        sp == Speaker::User ==> r@ == " 👤 "@,
        sp == Speaker::Assistant ==> r@ == " 🤖 "@,
        sp == Speaker::Other ==> r@ == "   "@,
{
    match sp {
        Speaker::User => " 👤 ",
        Speaker::Assistant => " 🤖 ",
        Speaker::Other => "   ",
    }
}

/// The columns left for a message's text once its icon is drawn.
pub open spec fn text_columns(sp: Speaker, max_width: nat) -> nat {
    let icon = str_width_of(icon_of(sp)) as nat;
    if max_width > icon {
        (max_width - icon) as nat
    } else {
        0
    }
}

/// The one wrapping of `s` into lines of `width` columns.
pub open spec fn wrapped(s: Seq<char>, width: nat) -> Seq<Seq<char>> {
    choose|p: Seq<Seq<char>>| is_wrapping(p, s, width)
}

/// The lines of one message in a view `max_width` columns wide: its text
/// wrapped to the columns its icon leaves, or no line when no column is left.
pub open spec fn message_lines(m: MessageView, max_width: nat) -> Seq<ChatLineView> {
    let sp = speaker_of(m.role);
    let w = text_columns(sp, max_width);
    if w == 0 {
        Seq::empty()
    } else {
        wrapped(m.content, w).map(
            |i: int, p: Seq<char>| ChatLineView { speaker: sp, first: i == 0, text: p },
        )
    }
}

/// The lines of a conversation: the lines of each message, in order.
pub open spec fn conversation_lines(ms: Seq<MessageView>, max_width: nat) -> Seq<ChatLineView>
    decreases ms.len(),
{
    if ms.len() == 0 {
        Seq::empty()
    } else {
        conversation_lines(ms.drop_last(), max_width) + message_lines(ms.last(), max_width)
    }
}

/// The largest scroll offset that still fills a view of `height` lines.
pub open spec fn max_scroll(total: nat, height: nat) -> nat {
    if total > height {
        (total - height) as nat
    } else {
        0
    }
}

/// A scroll offset kept within the content.
pub open spec fn clamped(offset: nat, total: nat, height: nat) -> nat {
    if offset > max_scroll(total, height) {
        max_scroll(total, height)
    } else {
        offset
    }
}

/// The text appended to a reply whose stream broke with `error`.
pub open spec fn stream_error_note(error: Seq<char>) -> Seq<char> {
    "\n[错误: "@ + error + "]"@
}

/// The placeholder that an empty input box shows.
pub open spec fn input_placeholder() -> Seq<char> {
    "在这里开始..."@
}

/// An empty input box showing the placeholder.
fn fresh_input_box() -> (b: InputBox)
    ensures
        input_box_lines(b) == seq![Seq::<char>::empty()],
        placeholder_of(b) == input_placeholder(),
{
    let mut b = empty_textarea();
    proof {
        reveal_strlit("在这里开始...");
        assert(single_line("在这里开始..."@));
    }
    set_placeholder(&mut b, "在这里开始...");
    b
}

/// The abstract state of the screen: the lines and the placeholder of the
/// input box, the conversation, the focus, whether a reply is streaming, the scope's state,
/// and the conversation's scroll offset.
pub struct UiView {
    pub input: Seq<Seq<char>>,
    pub placeholder: Seq<char>,
    pub session: SessionView,
    pub focus: Focus,
    pub streaming: bool,
    pub scope_paused: bool,
    pub scope_tick: u64,
    pub scroll_offset: usize,
}

/// The screen's state: the input box, the conversation, the focus, whether a
/// reply is streaming, the scope's state, and the conversation's scroll
/// offset.
pub struct Ui {
    pub textarea: InputBox,
    pub session: Session,
    pub focus: Focus,
    pub streaming: bool,
    pub scope_paused: bool,
    pub scope_tick: u64,
    pub scroll_offset: usize,
}

impl View for Ui {
    type V = UiView;

    open spec fn view(&self) -> UiView {
        UiView {
            input: input_box_lines(self.textarea),
            placeholder: placeholder_of(self.textarea),
            session: self.session@,
            focus: self.focus,
            streaming: self.streaming,
            scope_paused: self.scope_paused,
            scope_tick: self.scope_tick,
            scroll_offset: self.scroll_offset,
        }
    }
}

impl Ui {
    /// A screen with an empty input box that shows its placeholder and has
    /// the focus, a new conversation, no reply streaming, a running scope at
    /// tick 0, and no scrolling.
    pub fn new() -> (ui: Self)
        ensures
            ui@.input == seq![Seq::<char>::empty()],
            ui@.placeholder == input_placeholder(),
            is_uuid_v4_text(ui@.session.id),
            ui@.session.created_at == ui@.session.updated_at,
            ui@.session.messages.len() == 0,
            ui@.focus == Focus::Input,
            !ui@.streaming,
            !ui@.scope_paused,
            ui@.scope_tick == 0,
            ui@.scroll_offset == 0,
    {
        let textarea = fresh_input_box();
        Self {
            textarea,
            session: Session::new(),
            focus: Focus::Input,
            streaming: false,
            scope_paused: false,
            scope_tick: 0,
            scroll_offset: 0,
        }
    }

    /// The text of the input box, its lines joined by line breaks.
    pub fn input_lines(&self) -> (lines: Vec<String>)
        ensures
            texts(lines@) == self@.input,
    {
        textarea_text(&self.textarea)
    }

    /// Empties the input box and shows its placeholder again.
    pub fn reset_input(&mut self)
        ensures
            final(self)@ == (UiView {
                input: seq![Seq::<char>::empty()],
                placeholder: input_placeholder(),
                ..old(self)@
            }),
    {
        self.textarea = fresh_input_box();
    }

    /// Hands a key to the input box, which edits its text; the rest of the
    /// screen is kept.
    pub fn edit_input(&mut self, input: Input)
        ensures
            final(self)@ == (UiView { input: edited_lines(old(self).textarea, input), ..old(self)@ }),
    {
        feed_textarea(&mut self.textarea, input);
    }

    /// The name of the part of the screen that has the focus.
    pub fn focus_name(&self) -> (r: &'static str)
        ensures
            r@ == (match self.focus {
                Focus::SessionList => "会话"@,
                Focus::Input => "输入"@,
            }),
    {
        match self.focus {
            Focus::SessionList => "会话",
            Focus::Input => "输入",
        }
    }

    /// The state shown in the status bar: thinking while a reply streams,
    /// ready otherwise.
    pub fn status_label(&self) -> (r: &'static str)
        ensures
            r@ == (if self.streaming {
                " ● Thinking... "@
            } else {
                " ○ Ready "@
            }),
    {
        if self.streaming {
            " ● Thinking... "
        } else {
            " ○ Ready "
        }
    }

    /// The key hints of the status bar, with the name of the focused part.
    pub fn status_hint(&self) -> (r: String)
        ensures
            r@ == " Tab:切换 │ Ctrl+Enter:发送 │ 焦点:"@ + (match self.focus {
                Focus::SessionList => "会话"@,
                Focus::Input => "输入"@,
            }),
    {
        let mut r = String::from_str(" Tab:切换 │ Ctrl+Enter:发送 │ 焦点:");
        r.append(self.focus_name());
        r
    }

    /// The state shown in the scope's title: paused or running.
    pub fn scope_label(&self) -> (r: &'static str)
        ensures
            r@ == (if self.scope_paused {
                " ⏸ 暂停 "@
            } else {
                " ▶ 运行 "@
            }),
    {
        if self.scope_paused {
            " ⏸ 暂停 "
        } else {
            " ▶ 运行 "
        }
    }

    /// Moves the scope one tick on, unless it is paused; says whether it moved.
    pub fn advance_scope(&mut self) -> (moved: bool)
        requires
            !old(self).scope_paused ==> old(self).scope_tick < u64::MAX,
        ensures
            moved == !old(self).scope_paused,
            final(self)@ == (UiView {
                scope_tick: (if moved {
                    (old(self).scope_tick + 1) as u64
                } else {
                    old(self).scope_tick
                }),
                ..old(self)@
            }),
    {
        if self.scope_paused {
            return false;
        }
        self.scope_tick = self.scope_tick + 1;
        true
    }

    /// Keeps the scroll offset within the conversation's `total_lines` for a
    /// view `view_height` lines high, and says whether the conversation is
    /// longer than the view, so that a scroll bar is shown.
    pub fn fit_scroll(&mut self, total_lines: usize, view_height: usize) -> (shows_bar: bool)
        ensures
            shows_bar == (total_lines > view_height),
            final(self)@ == (UiView {
                scroll_offset: clamped(
                    old(self).scroll_offset as nat,
                    total_lines as nat,
                    view_height as nat,
                ) as usize,
                ..old(self)@
            }),
    {
        let max: usize = if total_lines > view_height {
            total_lines - view_height
        } else {
            0
        };
        if self.scroll_offset > max {
            self.scroll_offset = max;
        }
        total_lines > view_height
    }

    /// Takes one event of the streamed reply: a chunk is added to the last
    /// message; a broken stream adds the error to it and ends the reply; the
    /// end of the stream ends the reply. Both ends mark the conversation as
    /// changed. Without a streaming reply the event is ignored.
    pub fn take_stream_event(&mut self, event: StreamEvent)
        ensures
            !old(self).streaming ==> final(self)@ == old(self)@,
            old(self).streaming ==> ({
                let before = old(self)@;
                let after = final(self)@;
                &&& after.input == before.input
                &&& after.focus == before.focus
                &&& after.scope_paused == before.scope_paused
                &&& after.scope_tick == before.scope_tick
                &&& after.scroll_offset == before.scroll_offset
                &&& after.session.id == before.session.id
                &&& after.session.created_at == before.session.created_at
                &&& match event {
                    StreamEvent::Chunk(c) => {
                        &&& after.streaming
                        &&& after.session == (SessionView {
                            messages: appended(before.session.messages, c@),
                            ..before.session
                        })
                    },
                    StreamEvent::Failed(e) => {
                        &&& !after.streaming
                        &&& after.session.messages == appended(
                            before.session.messages,
                            stream_error_note(e@),
                        )
                    },
                    StreamEvent::Ended => {
                        &&& !after.streaming
                        &&& after.session.messages == before.session.messages
                    },
                }
            }),
    {
        if !self.streaming {
            return;
        }
        match event {
            StreamEvent::Chunk(chunk) => {
                self.session.append_to_last(chunk.as_str());
            },
            StreamEvent::Failed(error) => {
                let mut note = String::from_str("\n[错误: ");
                note.append(error.as_str());
                note.append("]");
                self.session.append_to_last(note.as_str());
                self.streaming = false;
                self.session.finish();
            },
            StreamEvent::Ended => {
                self.streaming = false;
                self.session.finish();
            },
        }
    }

    /// The lines of the conversation in a view `max_width` columns wide.
    pub fn chat_lines(&self, max_width: usize) -> (lines: Vec<ChatLine>)
        ensures
            line_views(lines@) == conversation_lines(self@.session.messages, max_width as nat),
    {
        let mut lines: Vec<ChatLine> = Vec::new();
        let n: usize = self.session.messages.len();
        let ghost ms = self@.session.messages;
        let mut k: usize = 0;
        while k < n
            invariant
                n == self.session.messages@.len(),
                ms == self@.session.messages,
                k <= n,
                line_views(lines@) == conversation_lines(ms.take(k as int), max_width as nat),
            decreases n - k,
        {
            let ghost before = line_views(lines@);
            let m = &self.session.messages[k];
            let mine = message_chat_lines(m, max_width);
            let mut i: usize = 0;
            let c: usize = mine.len();
            while i < c
                invariant
                    c == mine@.len(),
                    i <= c,
                    line_views(lines@) == before + line_views(mine@).take(i as int),
                decreases c - i,
            {
                let l = &mine[i];
                let copy = ChatLine { speaker: l.speaker, first: l.first, text: l.text.clone() };
                assert(copy@ == line_views(mine@)[i as int]);
                let ghost prev = lines@;
                lines.push(copy);
                assert(line_views(lines@) =~= line_views(prev).push(copy@));
                assert(line_views(mine@).take(i + 1) =~= line_views(mine@).take(i as int).push(
                    copy@,
                ));
                assert(line_views(lines@) =~= before + line_views(mine@).take(i + 1));
                i = i + 1;
            }
            proof {
                assert(line_views(mine@).take(c as int) =~= line_views(mine@));
                assert(ms.take(k + 1).drop_last() =~= ms.take(k as int));
                assert(ms.take(k + 1).last() == ms[k as int]);
            }
            k = k + 1;
        }
        assert(ms.take(n as int) =~= ms);
        lines
    }
}

/// The writer of a message, told by its role.
pub fn speaker_of_message(m: &Message) -> (sp: Speaker)
    ensures
        sp == speaker_of(m@.role),
{
    let user = String::from_str("user");
    let assistant = String::from_str("assistant");
    proof {
        reveal_strlit("user");
        reveal_strlit("assistant");
        assert(user@ =~= user_role());
        assert(assistant@ =~= assistant_role());
    }
    if m.role == user {
        Speaker::User
    } else if m.role == assistant {
        Speaker::Assistant
    } else {
        Speaker::Other
    }
}

/// The lines of one message in a view `max_width` columns wide.
#[verifier::rlimit(60)]
pub fn message_chat_lines(m: &Message, max_width: usize) -> (lines: Vec<ChatLine>)
    ensures
        line_views(lines@) == message_lines(m@, max_width as nat),
        ({
            let icon = str_width_of(icon_of(speaker_of(m@.role))) as nat;
            let shown = line_texts(line_views(lines@));
            &&& max_width > icon ==> is_wrapping(shown, m@.content, (max_width - icon) as nat)
            &&& max_width <= icon ==> lines@.len() == 0
            &&& forall|i: int|
                0 <= i < lines@.len() ==> #[trigger] lines@[i].speaker == speaker_of(m@.role)
                    && lines@[i].first == (i == 0)
            &&& m@.content.len() > 0 && max_width > icon && max_width >= icon + seq_width(m@.content) ==> lines@.len()
                == 1 && lines@[0].text@ == m@.content && lines@[0].first
        }),
        text_columns(speaker_of(m@.role), max_width as nat) > 0 ==> flatten(
            line_texts(line_views(lines@)),
        ) == m@.content,
{
    let sp = speaker_of_message(m);
    let icon_width = str_display_width(speaker_icon(sp));
    let columns: usize = if max_width > icon_width {
        max_width - icon_width
    } else {
        0
    };
    let mut lines: Vec<ChatLine> = Vec::new();
    if columns == 0 {
        assert(line_views(lines@) =~= Seq::<ChatLineView>::empty());
        return lines;
    }
    let pieces = wrap_to_width(m.content.as_str(), columns);
    let ghost ps = texts(pieces@);
    proof {
        let chosen = wrapped(m@.content, columns as nat);
        assert(is_wrapping(chosen, m@.content, columns as nat));
        lemma_wrapping_unique(chosen, ps, m@.content, columns as nat);
    }
    let ghost want = message_lines(m@, max_width as nat);
    let c: usize = pieces.len();
    let mut i: usize = 0;
    while i < c
        invariant
            c == pieces@.len(),
            ps == texts(pieces@),
            want == ps.map(
                |j: int, p: Seq<char>| ChatLineView { speaker: sp, first: j == 0, text: p },
            ),
            i <= c,
            line_views(lines@) == want.take(i as int),
        decreases c - i,
    {
        let line = ChatLine { speaker: sp, first: i == 0, text: pieces[i].clone() };
        assert(line@ == want[i as int]);
        let ghost prev = lines@;
        lines.push(line);
        assert(line_views(lines@) =~= line_views(prev).push(line@));
        assert(line_views(lines@) =~= want.take(i + 1));
        i = i + 1;
    }
    assert(want.take(c as int) =~= want);
    proof {
        reveal(is_wrapping);
        assert(line_texts(want) =~= ps);
        assert(line_texts(line_views(lines@)) == ps);
        if m@.content.len() > 0 && seq_width(m@.content) <= columns {
            lemma_fitting_text_is_one_line(ps, m@.content, columns as nat);
            assert(ps[0] == m@.content);
            assert(line_views(lines@)[0].text == ps[0]);
        }
        assert forall|i: int| 0 <= i < lines@.len() implies #[trigger] lines@[i].speaker
            == speaker_of(m@.role) && lines@[i].first == (i == 0) by {
            assert(lines@[i]@ == want[i]);
        }
    }
    lines
}

/// The separator line of a view `width` columns wide: `width` box-drawing
/// horizontal bars.
pub fn separator_line(width: usize) -> (line: String)
    ensures
        line@ == Seq::new(width as nat, |i: int| '─'),
{
    let mut line = String::new();
    let mut k: usize = 0;
    while k < width
        invariant
            k <= width,
            line@ == Seq::new(k as nat, |i: int| '─'),
        decreases width - k,
    {
        push_char(&mut line, '─');
        k = k + 1;
        assert(line@ =~= Seq::new(k as nat, |i: int| '─'));
    }
    line
}

/// A kept offset never passes the last offset that fills the view, keeping
/// it again changes nothing, and an offset within the content is kept as it
/// is.
pub proof fn lemma_clamped_scroll(offset: nat, total: nat, height: nat)
    ensures
        clamped(offset, total, height) <= max_scroll(total, height),
        clamped(clamped(offset, total, height), total, height) == clamped(offset, total, height),
        offset <= max_scroll(total, height) ==> clamped(offset, total, height) == offset,
        total <= height ==> clamped(offset, total, height) == 0,
{
}

/// The user's icon is a person, the assistant's a robot, and a message of any
/// other role gets blank space of the same shape.
pub proof fn lemma_speaker_icons()
    ensures
        icon_of(Speaker::User) == " 👤 "@,
        icon_of(Speaker::Assistant) == " 🤖 "@,
        icon_of(Speaker::Other) == "   "@,
        speaker_of(user_role()) == Speaker::User,
        speaker_of(assistant_role()) == Speaker::Assistant,
{
    assert(user_role() != assistant_role());
}

/// The lines of a message are the wrapping of its text at exactly the columns
/// that the view leaves after the speaker's icon, each marked with the
/// message's speaker and only the first marked as first; when the icon leaves
/// no column there is no line.
pub proof fn lemma_message_lines_wrap_after_icon(m: MessageView, max_width: nat)
    ensures
        ({
            let icon = str_width_of(icon_of(speaker_of(m.role))) as nat;
            let ls = message_lines(m, max_width);
            &&& max_width > icon ==> is_wrapping(line_texts(ls), m.content, (max_width - icon) as nat)
            &&& max_width <= icon ==> ls.len() == 0
            &&& forall|i: int|
                0 <= i < ls.len() ==> #[trigger] ls[i].speaker == speaker_of(m.role) && ls[i].first
                    == (i == 0)
        }),
{
    let sp = speaker_of(m.role);
    let w = text_columns(sp, max_width);
    if w > 0 {
        lemma_wrapping_exists(m.content, w);
        let p = wrapped(m.content, w);
        assert(is_wrapping(p, m.content, w));
        assert(line_texts(message_lines(m, max_width)) =~= p);
    }
}

/// A non-empty message whose text fits in the columns left after its icon
/// (at least one column) is shown as one line holding the whole text.
pub proof fn lemma_fitting_message_is_one_line(m: MessageView, max_width: nat)
    requires
        m.content.len() > 0,
        str_width_of(icon_of(speaker_of(m.role))) < max_width,
        str_width_of(icon_of(speaker_of(m.role))) + seq_width(m.content) <= max_width,
    ensures
        message_lines(m, max_width) == seq![
            ChatLineView { speaker: speaker_of(m.role), first: true, text: m.content },
        ],
{
    let sp = speaker_of(m.role);
    let w = text_columns(sp, max_width);
    lemma_message_lines_wrap_after_icon(m, max_width);
    let ls = message_lines(m, max_width);
    lemma_wrapping_exists(m.content, w);
    assert(is_wrapping(wrapped(m.content, w), m.content, w));
    lemma_fitting_text_is_one_line(wrapped(m.content, w), m.content, w);
    assert(ls =~= seq![ChatLineView { speaker: sp, first: true, text: m.content }]);
}

} // verus!
