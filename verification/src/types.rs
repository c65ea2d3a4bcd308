//! The conversation data model: the header with its persona, the turns of the
//! body, and what a chat client is handed.

use crate::text::all_whitespace;
use crate::text::is_blank;
use vstd::prelude::*;
use vstd::string::StringExecFns;

verus! {

/// The persona that answers: its name, its instructions, and optional
/// sampling parameters.
#[derive(Debug, Clone, PartialEq, Eq)]
pub struct Interlocutor {
    pub name: String,
    pub prompt: String,
    pub temperature: Option<u8>,
    pub token_limit: Option<u32>,
}

/// An `Interlocutor` as plain values.
pub struct InterlocutorView {
    pub name: Seq<char>,
    pub prompt: Seq<char>,
    pub temperature: Option<u8>,
    pub token_limit: Option<u32>,
}

impl View for Interlocutor {
    type V = InterlocutorView;

    open spec fn view(&self) -> InterlocutorView {
        InterlocutorView {
            name: self.name@,
            prompt: self.prompt@,
            temperature: self.temperature,
            token_limit: self.token_limit,
        }
    }
}

/// The metadata at the head of a document.
#[derive(Debug, Clone, PartialEq, Eq)]
pub struct LecticHeader {
    pub interlocutor: Interlocutor,
}

impl View for LecticHeader {
    type V = InterlocutorView;

    open spec fn view(&self) -> InterlocutorView {
        self.interlocutor@
    }
}

/// One turn of the body.
#[derive(Debug, Clone, PartialEq, Eq)]
pub enum LecticBlock {
    /// A turn of the persona, between an opening marker that names it and a
    /// closing marker.
    InterlocBlock { name: String, content: String },
    /// Text outside any markers: a turn of the user.
    UserBlock { content: String },
}

/// A `LecticBlock` as plain values.
pub enum BlockView {
    Named { name: Seq<char>, content: Seq<char> },
    Plain { content: Seq<char> },
}

impl BlockView {
    /// The text of the turn.
    pub open spec fn content(self) -> Seq<char> {
        match self {
            BlockView::Named { content, .. } => content,
            BlockView::Plain { content } => content,
        }
    }

    /// Whether the turn holds nothing but whitespace.
    pub open spec fn is_blank(self) -> bool {
        all_whitespace(self.content())
    }

    /// Who speaks in the turn: the assistant in a named one, the user in a
    /// plain one, whatever the name and the text.
    pub open spec fn role(self) -> Role {
        match self {
            BlockView::Named { .. } => Role::Assistant,
            BlockView::Plain { .. } => Role::User,
        }
    }

    /// The message that the turn becomes.
    pub open spec fn message(self) -> MessageView {
        MessageView { role: self.role(), content: self.content() }
    }
}

impl View for LecticBlock {
    type V = BlockView;

    open spec fn view(&self) -> BlockView {
        match self {
            LecticBlock::InterlocBlock { name, content } => BlockView::Named {
                name: name@,
                content: content@,
            },
            LecticBlock::UserBlock { content } => BlockView::Plain { content: content@ },
        }
    }
}

/// The turns of `blocks` as plain values, in the same order.
pub open spec fn blocks_view(blocks: Seq<LecticBlock>) -> Seq<BlockView> {
    Seq::new(blocks.len(), |i: int| blocks[i]@)
}

/// Who speaks in a message.
#[derive(Debug, Clone, Copy, PartialEq, Eq, Structural)]
pub enum Role {
    User,
    Assistant,
}

impl Role {
    /// The role as chat clients spell it.
    pub open spec fn spec_label(self) -> Seq<char> {
        match self {
            Role::User => "user"@,
            Role::Assistant => "assistant"@,
        }
    }

    /// The role as chat clients spell it: `user` or `assistant`.
    pub fn label(&self) -> (r: &'static str)
        ensures
            r@ == self.spec_label(),
    {
        match self {
            Role::User => "user",
            Role::Assistant => "assistant",
        }
    }
}

/// One entry of the list that a chat client is handed.
#[derive(Debug, Clone, PartialEq, Eq)]
pub struct Message {
    pub role: Role,
    pub content: String,
}

/// A `Message` as plain values.
pub struct MessageView {
    pub role: Role,
    pub content: Seq<char>,
}

impl View for Message {
    type V = MessageView;

    open spec fn view(&self) -> MessageView {
        MessageView { role: self.role, content: self.content@ }
    }
}

/// A sampling temperature as a fraction between zero and one.
#[derive(Debug, Clone, Copy, PartialEq, Eq, Structural)]
pub struct Temperature {
    pub numerator: u8,
    pub denominator: u8,
}

impl Temperature {
    /// Whether the fraction is defined and lies between zero and one.
    pub open spec fn in_unit_interval(self) -> bool {
        0 < self.denominator && self.numerator <= self.denominator
    }
}

/// The temperature that a header asks for: its value out of 255 where it
/// gives one, seven tenths where it gives none.
pub open spec fn temperature_of(setting: Option<u8>) -> Temperature {
    match setting {
        Some(t) => Temperature { numerator: t, denominator: 255 },
        None => Temperature { numerator: 7, denominator: 10 },
    }
}

/// The token limit that a header asks for: its value where it gives one, 512
/// where it gives none.
pub open spec fn token_limit_of(setting: Option<u32>) -> u32 {
    match setting {
        Some(limit) => limit,
        None => 512,
    }
}

/// What every system prompt asks for: Unicode symbols in place of LaTeX, and
/// lines of about 78 characters.
pub open spec fn house_rules() -> Seq<char> {
    "\n\nYou should use unicode symbols instead of LaTeX for mathematical notation.\n"@
        + "\nYou must line wrap at approximately 78 characters unless this harms readability.\n"@
}

/// The system prompt for a persona with the given name and instructions.
pub open spec fn prompt_text(name: Seq<char>, prompt: Seq<char>) -> Seq<char> {
    "Your name is "@ + name + ".\n"@ + prompt + house_rules()
}

/// A parsed document: its header and its turns, in the order of the source.
#[derive(Debug, Clone, PartialEq, Eq)]
pub struct LecticData {
    pub header: LecticHeader,
    pub body: Vec<LecticBlock>,
}

/// A `LecticData` as plain values.
pub struct DataView {
    pub header: InterlocutorView,
    pub body: Seq<BlockView>,
}

impl View for LecticData {
    type V = DataView;

    open spec fn view(&self) -> DataView {
        DataView { header: self.header@, body: blocks_view(self.body@) }
    }
}

impl LecticData {
    /// The message list for `blocks`: one message for each turn, in order,
    /// with the turn's text, from the assistant for a named turn and from the
    /// user for a plain one.
    pub fn as_chat(blocks: &Vec<LecticBlock>) -> (r: Vec<Message>)
        ensures
            r.len() == blocks.len(),
            forall|i: int| 0 <= i < r.len() ==> (#[trigger] r[i])@ == blocks[i]@.message(),
    {
        let mut out: Vec<Message> = Vec::new();
        let mut i: usize = 0;
        while i < blocks.len()
            invariant
                i <= blocks.len(),
                out.len() == i,
                forall|j: int| 0 <= j < i ==> (#[trigger] out[j])@ == blocks[j]@.message(),
            decreases blocks.len() - i,
        {
            out.push(blocks[i].to_msg());
            i = i + 1;
        }
        out
    }

    /// The system prompt: the persona's name and instructions, followed by
    /// the request for Unicode symbols and for lines of about 78 columns.
    pub fn get_prompt(&self) -> (r: String)
        ensures
            r@ == prompt_text(self@.header.name, self@.header.prompt),
    {
        let mut out = String::from_str("Your name is ");
        out.append(self.header.interlocutor.name.as_str());
        out.append(".\n");
        out.append(self.header.interlocutor.prompt.as_str());
        let ghost head = out@;
        out.append(
            "\n\nYou should use unicode symbols instead of LaTeX for mathematical notation.\n",
        );
        out.append(
            "\nYou must line wrap at approximately 78 characters unless this harms readability.\n",
        );
        assert(out@ =~= head + house_rules());
        out
    }

    /// The sampling temperature: the header's value out of 255, or seven
    /// tenths where the header gives none. It lies between zero and one, and
    /// is seven tenths only where the header gives none.
    pub fn get_temp(&self) -> (r: Temperature)
        ensures
            r == temperature_of(self@.header.temperature),
            r.in_unit_interval(),
            10 * r.numerator == 7 * r.denominator <==> self@.header.temperature is None,
    {
        match self.header.interlocutor.temperature {
            None => Temperature { numerator: 7, denominator: 10 },
            Some(temp) => Temperature { numerator: temp, denominator: 255 },
        }
    }

    /// The token limit: the header's value, or 512 where it gives none.
    pub fn get_token_limit(&self) -> (r: u32)
        ensures
            r == token_limit_of(self@.header.token_limit),
            self@.header.token_limit matches Some(limit) ==> r == limit,
            self@.header.token_limit is None ==> r == 512,
    {
        match self.header.interlocutor.token_limit {
            None => 512,
            Some(limit) => limit,
        }
    }
}

impl LecticBlock {
    /// The text of the turn.
    pub fn content(&self) -> (r: &str)
        ensures
            r@ == self@.content(),
    {
        match self {
            LecticBlock::InterlocBlock { name: _, content } => content.as_str(),
            LecticBlock::UserBlock { content } => content.as_str(),
        }
    }

    /// Whether the turn holds nothing but whitespace; one without any text
    /// does.
    pub fn is_empty(&self) -> (r: bool)
        ensures
            r == self@.is_blank(),
    {
        is_blank(self.content())
    }

    /// Whether the turn holds anything but whitespace.
    pub fn is_nonempty(&self) -> (r: bool)
        ensures
            r == !self@.is_blank(),
    {
        !self.is_empty()
    }

    /// The message that the turn becomes: its text, from the assistant for a
    /// named turn and from the user for a plain one.
    pub fn to_msg(&self) -> (r: Message)
        ensures
            r@ == self@.message(),
            r.role == self@.role(),
    {
        match self {
            LecticBlock::InterlocBlock { content, .. } => Message {
                role: Role::Assistant,
                content: content.clone(),
            },
            LecticBlock::UserBlock { content } => Message {
                role: Role::User,
                content: content.clone(),
            },
        }
    }
}

} // verus!
