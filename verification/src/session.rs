use crate::text::flatten;
use crate::message::{assistant_role, system_role, user_role, Message, MessageView};
use std::time::{Duration, SystemTime, SystemTimeError, UNIX_EPOCH};
use vstd::prelude::*;

verus! {

#[verifier::external_type_specification]
#[verifier::external_body]
pub struct ExSystemTime(SystemTime);

#[verifier::external_type_specification]
#[verifier::external_body]
pub struct ExSystemTimeError(SystemTimeError);

/// Calls `SystemTime::now` of std. Nothing is claimed of the reading: it is
/// whatever the system clock says.
#[verifier::external_body]
fn clock_reading() -> SystemTime {
    SystemTime::now()
}

/// Calls `SystemTime::duration_since` of std with the Unix epoch. Nothing is
/// claimed of the result: it depends on the clock reading, which is opaque here;
/// std returns an error when the reading lies before the epoch.
#[verifier::external_body]
fn since_unix_epoch(t: &SystemTime) -> Result<Duration, SystemTimeError> {
    t.duration_since(UNIX_EPOCH)
}

/// Calls `Duration::as_secs` of std: the whole seconds of the duration, which
/// is opaque here, so nothing is claimed of the number.
#[verifier::external_body]
fn whole_seconds(d: &Duration) -> u64 {
    d.as_secs()
}

/// A lower-case hexadecimal digit.
pub open spec fn is_lower_hex(c: char) -> bool {
    ('0' <= c && c <= '9') || ('a' <= c && c <= 'f')
}

/// The text of a random (version 4, RFC 4122 variant) UUID in hyphenated
/// form: 36 characters in groups of 8, 4, 4, 4 and 12 lower-case hexadecimal
/// digits joined by hyphens, with the version digit `4` first in the third
/// group and one of `8`, `9`, `a`, `b` first in the fourth.
pub open spec fn is_uuid_v4_text(s: Seq<char>) -> bool {
    &&& s.len() == 36
    &&& forall|i: int|
        0 <= i < 36 ==> if i == 8 || i == 13 || i == 18 || i == 23 {
            #[trigger] s[i] == '-'
        } else {
            is_lower_hex(s[i])
        }
    &&& s[14] == '4'
    &&& (s[19] == '8' || s[19] == '9' || s[19] == 'a' || s[19] == 'b')
}

/// Calls `Uuid::new_v4` of the `uuid` crate and writes the identifier with
/// `to_string`. Claimed: the text is a version 4 UUID in hyphenated
/// lower-case form (`new_v4` masks in the version and variant bits, and the
/// `Display` of a `Uuid` writes the lower-case hyphenated form). Not claimed:
/// which identifier comes out, which is random.
#[verifier::external_body]
fn fresh_session_id() -> (id: String)
    ensures
        is_uuid_v4_text(id@),
{
    uuid::Uuid::new_v4().to_string()
}

/// The current time in whole seconds since the Unix epoch, read from the system
/// clock; a clock that reads before the epoch gives 0.
pub fn now() -> u64 {
    let reading = clock_reading();
    match since_unix_epoch(&reading) {
        Ok(d) => whole_seconds(&d),
        Err(_) => 0,
    }
}

/// The abstract state of a session: its identifier, its messages in order, and
/// the times of its creation and of its last completed change.
pub struct SessionView {
    pub id: Seq<char>,
    pub messages: Seq<MessageView>,
    pub created_at: u64,
    pub updated_at: u64,
}

/// The contents of a list of messages.
pub open spec fn message_views(ms: Seq<Message>) -> Seq<MessageView> {
    ms.map_values(|m: Message| m@)
}

/// The messages after `chunk` was added to the text of the last one; without a
/// message there is nothing to add to, and the list stays as it was.
pub open spec fn appended(ms: Seq<MessageView>, chunk: Seq<char>) -> Seq<MessageView> {
    if ms.len() == 0 {
        ms
    } else {
        ms.update(
            ms.len() - 1,
            MessageView { role: ms.last().role, content: ms.last().content + chunk },
        )
    }
}

/// An empty message of the given role, the start of a streamed message.
pub open spec fn opened(role: Seq<char>) -> MessageView {
    MessageView { role, content: Seq::empty() }
}

/// A conversation: an identifier, the messages in order, and two times in
/// seconds since the Unix epoch.
pub struct Session {
    pub id: String,
    pub messages: Vec<Message>,
    pub created_at: u64,
    pub updated_at: u64,
}

impl View for Session {
    type V = SessionView;

    open spec fn view(&self) -> SessionView {
        SessionView {
            id: self.id@,
            messages: message_views(self.messages@),
            created_at: self.created_at,
            updated_at: self.updated_at,
        }
    }
}

impl Session {
    /// A new session with a random version 4 UUID as its identifier, no
    /// messages, and both times set
    /// to the current time.
    pub fn new() -> (s: Self)
        ensures
            is_uuid_v4_text(s@.id),
            s@.messages.len() == 0,
            s@.created_at == s@.updated_at,
    {
        let id = fresh_session_id();
        let t = now();
        Self::begin(id, t)
    }

    /// A new session with the given identifier, no messages, and both times
    /// set to `time`.
    pub fn begin(id: String, time: u64) -> (s: Self)
        ensures
            s@ == (SessionView { id: id@, messages: Seq::empty(), created_at: time, updated_at: time }),
    {
        let s = Self { id, messages: Vec::new(), created_at: time, updated_at: time };
        assert(s@.messages =~= Seq::<MessageView>::empty());
        s
    }

    fn open_message(&mut self, m: Message)
        ensures
            final(self)@ == (SessionView { messages: old(self)@.messages.push(m@), ..old(self)@ }),
    {
        self.messages.push(m);
        assert(final(self)@.messages =~= old(self)@.messages.push(m@));
    }

    /// Starts a user message with empty text, to be filled by `append_to_last`.
    pub fn start_user(&mut self)
        ensures
            final(self)@ == (SessionView {
                messages: old(self)@.messages.push(opened(user_role())),
                ..old(self)@
            }),
    {
        let m = Message::user(String::new());
        proof {
            assert(m@.content =~= Seq::<char>::empty());
        }
        self.open_message(m);
    }

    /// Starts an assistant message with empty text.
    pub fn start_assistant(&mut self)
        ensures
            final(self)@ == (SessionView {
                messages: old(self)@.messages.push(opened(assistant_role())),
                ..old(self)@
            }),
    {
        let m = Message::assistant(String::new());
        proof {
            assert(m@.content =~= Seq::<char>::empty());
        }
        self.open_message(m);
    }

    /// Starts a system message with empty text.
    pub fn start_system(&mut self)
        ensures
            final(self)@ == (SessionView {
                messages: old(self)@.messages.push(opened(system_role())),
                ..old(self)@
            }),
    {
        let m = Message::system(String::new());
        proof {
            assert(m@.content =~= Seq::<char>::empty());
        }
        self.open_message(m);
    }

    /// Adds `chunk` to the text of the last message; a session without
    /// messages is left as it is.
    pub fn append_to_last(&mut self, chunk: &str)
        ensures
            final(self)@ == (SessionView {
                messages: appended(old(self)@.messages, chunk@),
                ..old(self)@
            }),
    {
        let n: usize = self.messages.len();
        if n > 0 {
            let ghost before = old(self)@.messages;
            let mut last = self.messages.pop().unwrap();
            last.content.append(chunk);
            self.messages.push(last);
            assert(final(self)@.messages =~= appended(before, chunk@));
        }
    }

    /// Marks the end of a change: the update time becomes the current time.
    pub fn finish(&mut self)
        ensures
            final(self)@.id == old(self)@.id,
            final(self)@.messages == old(self)@.messages,
            final(self)@.created_at == old(self)@.created_at,
    {
        let t = now();
        self.finish_at(t);
    }

    /// Marks the end of a change made at `time`.
    pub fn finish_at(&mut self, time: u64)
        ensures
            final(self)@ == (SessionView { updated_at: time, ..old(self)@ }),
    {
        self.updated_at = time;
    }

    /// Removes every message; the update time becomes the current time.
    pub fn clear(&mut self)
        ensures
            final(self)@.id == old(self)@.id,
            final(self)@.messages.len() == 0,
            final(self)@.created_at == old(self)@.created_at,
    {
        let t = now();
        self.clear_at(t);
    }

    /// Removes every message at `time`.
    pub fn clear_at(&mut self, time: u64)
        ensures
            final(self)@ == (SessionView { messages: Seq::empty(), updated_at: time, ..old(self)@ }),
    {
        self.messages.clear();
        self.updated_at = time;
        assert(final(self)@.messages =~= Seq::<MessageView>::empty());
    }

    /// The last message, if there is one.
    pub fn last_message(&self) -> (r: Option<&Message>)
        ensures
            match r {
                Some(m) => self@.messages.len() > 0 && m@ == self@.messages.last(),
                None => self@.messages.len() == 0,
            },
    {
        let n: usize = self.messages.len();
        if n == 0 {
            None
        } else {
            Some(&self.messages[n - 1])
        }
    }
}

/// Adding two chunks one after the other gives the same messages as adding
/// them joined in one.
pub proof fn lemma_append_chunks_join(ms: Seq<MessageView>, a: Seq<char>, b: Seq<char>)
    ensures
        appended(appended(ms, a), b) == appended(ms, a + b),
{
    if ms.len() > 0 {
        assert(ms.last().content + a + b =~= ms.last().content + (a + b));
        assert(appended(appended(ms, a), b) =~= appended(ms, a + b));
    }
}

/// Starting a message and adding a chunk gives a message of that role whose
/// text is the chunk, after the messages that were there.
pub proof fn lemma_start_then_append(ms: Seq<MessageView>, role: Seq<char>, chunk: Seq<char>)
    ensures
        appended(ms.push(opened(role)), chunk) == ms.push(MessageView { role, content: chunk }),
{
    assert(Seq::<char>::empty() + chunk =~= chunk);
    assert(appended(ms.push(opened(role)), chunk) =~= ms.push(MessageView { role, content: chunk }));
}

/// Adding a chunk keeps the number of messages, every message but the last,
/// and the role of the last.
pub proof fn lemma_append_keeps_history(ms: Seq<MessageView>, chunk: Seq<char>)
    ensures
        appended(ms, chunk).len() == ms.len(),
        forall|i: int| 0 <= i < ms.len() - 1 ==> #[trigger] appended(ms, chunk)[i] == ms[i],
        ms.len() > 0 ==> appended(ms, chunk).last().role == ms.last().role,
        ms.len() > 0 ==> appended(ms, chunk).last().content == ms.last().content + chunk,
{
}

/// Adding an empty chunk changes nothing.
pub proof fn lemma_append_empty_chunk(ms: Seq<MessageView>)
    ensures
        appended(ms, Seq::empty()) == ms,
{
    if ms.len() > 0 {
        assert(ms.last().content + Seq::<char>::empty() =~= ms.last().content);
        assert(appended(ms, Seq::empty()) =~= ms);
    }
}

/// The messages after each chunk was added in turn.
pub open spec fn appended_each(ms: Seq<MessageView>, chunks: Seq<Seq<char>>) -> Seq<MessageView>
    decreases chunks.len(),
{
    if chunks.len() == 0 {
        ms
    } else {
        appended(appended_each(ms, chunks.drop_last()), chunks.last())
    }
}

/// Chunks added one after another to the last message give the same messages
/// as adding them joined in one: its text grows by every chunk in order, and
/// the other messages are kept. Without a message, nothing changes.
pub proof fn lemma_appended_each(ms: Seq<MessageView>, chunks: Seq<Seq<char>>)
    ensures
        appended_each(ms, chunks) == appended(ms, flatten(chunks)),
    decreases chunks.len(),
{
    if chunks.len() == 0 {
        assert(flatten(chunks) =~= Seq::<char>::empty());
        lemma_append_empty_chunk(ms);
    } else {
        lemma_appended_each(ms, chunks.drop_last());
        lemma_append_chunks_join(ms, flatten(chunks.drop_last()), chunks.last());
    }
}

/// A reply streamed in chunks into a started message ends as one message of
/// that role whose text is the chunks joined, after the messages that were
/// there.
pub proof fn lemma_streamed_reply(ms: Seq<MessageView>, role: Seq<char>, chunks: Seq<Seq<char>>)
    ensures
        appended_each(ms.push(opened(role)), chunks) == ms.push(
            MessageView { role, content: flatten(chunks) },
        ),
{
    lemma_appended_each(ms.push(opened(role)), chunks);
    lemma_start_then_append(ms, role, flatten(chunks));
}

} // verus!
