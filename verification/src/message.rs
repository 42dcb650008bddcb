use vstd::prelude::*;

verus! {

/// The role name of a message written by the person at the keyboard.
pub open spec fn user_role() -> Seq<char> {
    seq!['u', 's', 'e', 'r']
}

/// The role name of a message produced by the model.
pub open spec fn assistant_role() -> Seq<char> {
    seq!['a', 's', 's', 'i', 's', 't', 'a', 'n', 't']
}

/// The role name of an instruction message.
pub open spec fn system_role() -> Seq<char> {
    seq!['s', 'y', 's', 't', 'e', 'm']
}

/// The abstract content of a message: its role and its text.
pub struct MessageView {
    pub role: Seq<char>,
    pub content: Seq<char>,
}

/// One turn of a conversation.
pub struct Message {
    pub role: String,
    pub content: String,
}

impl View for Message {
    type V = MessageView;

    open spec fn view(&self) -> MessageView {
        MessageView { role: self.role@, content: self.content@ }
    }
}

impl Message {
    /// The role of the message.
    pub fn role(&self) -> (r: &String)
        ensures
            r@ == self.role@,
    {
        &self.role
    }

    /// The text of the message.
    pub fn content(&self) -> (r: &String)
        ensures
            r@ == self.content@,
    {
        &self.content
    }

    /// A message with the given role and text.
    pub fn new(role: String, content: String) -> (m: Self)
        ensures
            m@ == (MessageView { role: role@, content: content@ }),
    {
        Self { role, content }
    }

    /// A message of the user.
    pub fn user(content: String) -> (m: Self)
        ensures
            m@ == (MessageView { role: user_role(), content: content@ }),
    {
        let role = String::from_str("user");
        proof {
            reveal_strlit("user");
        }
        assert(role@ =~= user_role());
        Self { role, content }
    }

    /// A message of the assistant.
    pub fn assistant(content: String) -> (m: Self)
        ensures
            m@ == (MessageView { role: assistant_role(), content: content@ }),
    {
        let role = String::from_str("assistant");
        proof {
            reveal_strlit("assistant");
        }
        assert(role@ =~= assistant_role());
        Self { role, content }
    }

    /// A system message.
    pub fn system(content: String) -> (m: Self)
        ensures
            m@ == (MessageView { role: system_role(), content: content@ }),
    {
        let role = String::from_str("system");
        proof {
            reveal_strlit("system");
        }
        assert(role@ =~= system_role());
        Self { role, content }
    }
}

} // verus!
