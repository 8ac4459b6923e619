use vstd::prelude::*;

use crate::wrap::{measure_height, wrapped_height};

verus! {

/// Columns of blank indentation to the left of the local user's messages,
/// visually separating the two speakers.
pub const USER_LEFT_PADDING: u16 = 6;

/// Relies on `String::push`: appends the character to the end of the string.
pub assume_specification[ String::push ](s: &mut String, ch: char)
    ensures
        final(s)@ == old(s)@.push(ch),
;

/// Relies on `String::pop`: removes and returns the last character of the
/// string, or returns `None` and leaves the string unchanged when it is empty.
pub assume_specification[ String::pop ](s: &mut String) -> (r: Option<char>)
    ensures
        old(s)@.len() == 0 ==> final(s)@ == old(s)@ && r is None,
        old(s)@.len() > 0 ==> final(s)@ == old(s)@.drop_last() && r == Some(old(s)@.last()),
;

/// Which participant wrote a message: the local user or the model.
#[derive(Debug, Clone, Copy, PartialEq, Eq, Structural)]
pub enum Role {
    User,
    Model,
}

impl Default for Role {
    fn default() -> (r: Role)
        ensures
            r == Role::User,
    {
        Role::User
    }
}

/// The mathematical value of a `Message`: its characters and its speaker.
pub struct MessageModel {
    pub content: Seq<char>,
    pub role: Role,
}

/// One utterance of the conversation: a text buffer, editable at its end
/// while the message is the newest one, and the role it was spoken in.
#[derive(Debug)]
pub struct Message {
    content: String,
    role: Role,
}

impl View for Message {
    type V = MessageModel;

    closed spec fn view(&self) -> MessageModel {
        MessageModel { content: self.content@, role: self.role }
    }
}

/// How many columns a message is shifted right, by its speaker.
pub open spec fn spec_left_pad(role: Role) -> nat {
    match role {
        Role::User => USER_LEFT_PADDING as nat,
        Role::Model => 0,
    }
}

/// The columns left for a message's box once its indentation is taken from
/// the viewport width; zero when the viewport is narrower than the indent.
pub open spec fn spec_msg_width(total_width: nat, role: Role) -> nat {
    if total_width >= spec_left_pad(role) {
        (total_width - spec_left_pad(role)) as nat
    } else {
        0
    }
}

/// The full rendered height of a message box `width` columns wide: the
/// wrap oracle's row count for the text at the width inside the two border
/// columns (zero columns when the box is narrower than its borders).
pub open spec fn spec_height(content: Seq<char>, width: nat) -> nat {
    wrapped_height(content, if width >= 2 { (width - 2) as int } else { 0 })
}

impl Message {
    pub fn new(content: String, role: Role) -> (m: Message)
        ensures
            m@ == (MessageModel { content: content@, role: role }),
    {
        Message { content, role }
    }

    /// Appends one character to the content buffer.
    pub fn insert(&mut self, c: char)
        ensures
            final(self)@.content == old(self)@.content.push(c),
            final(self)@.role == old(self)@.role,
    {
        self.content.push(c);
    }

    /// Removes the last character of the content buffer; a no-op when the
    /// buffer is already empty.
    pub fn backspace(&mut self)
        ensures
            final(self)@.role == old(self)@.role,
            final(self)@.content == (if old(self)@.content.len() == 0 {
                old(self)@.content
            } else {
                old(self)@.content.drop_last()
            }),
    {
        self.content.pop();
    }

    /// The full rendered height of this message at the given box width.
    pub fn height(&self, width: u16) -> (r: usize)
        ensures
            r as nat == spec_height(self@.content, width as nat),
    {
        measure_height(self.content.as_str(), width.saturating_sub(2))
    }

    /// Columns of indentation to the left of this message's box.
    pub fn left_pad(&self) -> (r: u16)
        ensures
            r as nat == spec_left_pad(self@.role),
    {
        match self.role {
            Role::User => USER_LEFT_PADDING,
            Role::Model => 0,
        }
    }

    /// The width of this message's box in a viewport `total_width` columns
    /// wide, saturating at zero.
    pub fn width(&self, total_width: u16) -> (r: u16)
        ensures
            r as nat == spec_msg_width(total_width as nat, self@.role),
    {
        total_width.saturating_sub(self.left_pad())
    }

    pub fn role(&self) -> (r: &Role)
        ensures
            *r == self@.role,
    {
        &self.role
    }

    pub fn content(&self) -> (r: &String)
        ensures
            r@ == self@.content,
    {
        &self.content
    }
}

impl Default for Message {
    /// A fresh, empty message spoken by the local user: the seed of a
    /// transcript and of every new input turn.
    fn default() -> (m: Message)
        ensures
            m@ == (MessageModel { content: Seq::<char>::empty(), role: Role::User }),
    {
        Message { content: String::new(), role: Role::User }
    }
}

/// An input event aimed at the message being composed: type a character,
/// erase the last one, or anything else, which edits nothing.
#[derive(Debug, Clone, Copy)]
pub enum InputKey {
    Char(char),
    Backspace,
    Other,
}

/// The content of the newest message after one input event lands on it.
pub open spec fn spec_edit(content: Seq<char>, key: InputKey) -> Seq<char> {
    match key {
        InputKey::Char(c) => content.push(c),
        InputKey::Backspace => if content.len() == 0 {
            content
        } else {
            content.drop_last()
        },
        InputKey::Other => content,
    }
}

/// The transcript: the messages of one session in chronological order,
/// appended to at the tail; the tail message is the one open for editing.
#[derive(Debug, Default)]
pub struct Chat {
    messages: Vec<Message>,
}

impl View for Chat {
    type V = Seq<MessageModel>;

    closed spec fn view(&self) -> Seq<MessageModel> {
        self.messages@.map_values(|m: Message| m@)
    }
}

impl Chat {
    /// Appends a message at the tail of the transcript.
    pub fn push(&mut self, message: Message)
        ensures
            final(self)@ == old(self)@.push(message@),
    {
        self.messages.push(message);
        proof {
            assert(self@ =~= old(self)@.push(message@));
        }
    }

    /// Routes one input event to the newest message; a transcript without
    /// any message ignores the event.
    pub fn handle_input(&mut self, key: InputKey)
        ensures
            old(self)@.len() == 0 ==> final(self)@ == old(self)@,
            old(self)@.len() > 0 ==> final(self)@ == old(self)@.update(
                old(self)@.len() - 1,
                (MessageModel {
                    content: spec_edit(old(self)@.last().content, key),
                    role: old(self)@.last().role,
                }),
            ),
    {
        if self.messages.len() == 0 {
            return ;
        }
        let mut last_message = self.messages.pop().unwrap();
        match key {
            InputKey::Char(c) => last_message.insert(c),
            InputKey::Backspace => last_message.backspace(),
            InputKey::Other => {},
        }
        self.messages.push(last_message);
        proof {
            assert(self@ =~= old(self)@.update(
                old(self)@.len() - 1,
                MessageModel {
                    content: spec_edit(old(self)@.last().content, key),
                    role: old(self)@.last().role,
                },
            ));
        }
    }

    /// Ends one reply cycle: appends the model's reply, empty when the
    /// reply failed, then a fresh empty user message that takes the next
    /// keystrokes.
    pub fn apply_reply(&mut self, reply: String)
        ensures
            final(self)@ == old(self)@.push(
                MessageModel { content: reply@, role: Role::Model },
            ).push(MessageModel { content: Seq::<char>::empty(), role: Role::User }),
    {
        let reply_message = Message::new(reply, Role::Model);
        self.push(reply_message);
        self.push(Message::new(String::new(), Role::User));
    }

    /// A read-only view of all messages in chronological order.
    pub fn messages(&self) -> (r: &Vec<Message>)
        ensures
            r@.map_values(|m: Message| m@) == self@,
    {
        &self.messages
    }
}

} // verus!
