//! The header of a document: the marker lines that frame it, and the persona
//! that its metadata describes.

use crate::error::ErrorView;
use crate::error::ParseError;
use crate::types::Interlocutor;
use crate::types::InterlocutorView;
use crate::types::LecticHeader;
use crate::yaml::member;
use crate::yaml::yaml_node;
use crate::yaml::YamlNode;
use vstd::prelude::*;
use vstd::string::StringExecFns;

verus! {

/// Whether the marker, three hyphens, stands at `p`.
pub open spec fn marker_at(s: Seq<char>, p: int) -> bool {
    0 <= p && p + 3 <= s.len() && s[p] == '-' && s[p + 1] == '-' && s[p + 2] == '-'
}

/// Whether a line begins at `p` that holds the marker and nothing else. The
/// line ends with a line feed or with the text.
pub open spec fn marker_line_at(s: Seq<char>, p: int) -> bool {
    marker_at(s, p) && (p == 0 || s[p - 1] == '\n') && (p + 3 == s.len() || s[p + 3] == '\n')
}

/// The place of the first marker line at or after `p`, or the length of the
/// text where there is none.
pub open spec fn next_marker_line(s: Seq<char>, p: int) -> int
    decreases s.len() - p,
{
    if p < 0 || p + 3 > s.len() {
        s.len() as int
    } else if marker_line_at(s, p) {
        p
    } else {
        next_marker_line(s, p + 1)
    }
}

/// The two parts of a document that its marker lines set apart.
pub struct Frame {
    /// The text between the two marker lines.
    pub interior: Seq<char>,
    /// The text behind the closing marker line.
    pub body: Seq<char>,
}

/// Where the body begins when the closing marker line begins at `close`:
/// behind the line feed that ends that line, or at the end of the text.
pub open spec fn body_start(s: Seq<char>, close: int) -> int {
    if close + 3 == s.len() {
        close + 3
    } else {
        close + 4
    }
}

/// The frame of `s`, where it has one: `s` begins with a marker line, and
/// the next marker line closes the header.
pub open spec fn frame_of(s: Seq<char>) -> Option<Frame> {
    let close = next_marker_line(s, 1);
    if marker_line_at(s, 0) && marker_line_at(s, close) {
        Some(
            Frame {
                interior: s.subrange(4, close),
                body: s.subrange(body_start(s, close), s.len() as int),
            },
        )
    } else {
        None
    }
}

/// No marker line begins between `p` and the next one, and one begins
/// there unless the text has none from `p` on.
pub proof fn lemma_next_marker_line(s: Seq<char>, p: int)
    requires
        0 <= p <= s.len(),
    ensures
        p <= next_marker_line(s, p) <= s.len(),
        forall|i: int| p <= i < next_marker_line(s, p) ==> !marker_line_at(s, i),
        next_marker_line(s, p) < s.len() <==> marker_line_at(s, next_marker_line(s, p)),
    decreases s.len() - p,
{
    if p + 3 <= s.len() && !marker_line_at(s, p) {
        lemma_next_marker_line(s, p + 1);
    }
}

/// In a text that begins with a marker line, the closing marker line begins
/// at the fifth character at the earliest, and the body begins behind it.
pub proof fn lemma_frame_bounds(s: Seq<char>)
    requires
        frame_of(s) is Some,
    ensures
        4 <= next_marker_line(s, 1) <= s.len() - 3,
        next_marker_line(s, 1) + 3 <= body_start(s, next_marker_line(s, 1)) <= s.len(),
{
    lemma_next_marker_line(s, 1);
    let close = next_marker_line(s, 1);
    assert(close != 1 && close != 2 && close != 3);
}

/// The marker.
pub open spec fn marker() -> Seq<char> {
    seq!['-', '-', '-']
}

/// A framed text is its two marker lines with the interior between them
/// and the body behind them; only the closing line may lack its line feed,
/// and then the body is empty.
pub proof fn lemma_frame_covers(s: Seq<char>)
    requires
        frame_of(s) is Some,
    ensures
        ({
            let frame = frame_of(s)->Some_0;
            let close = next_marker_line(s, 1);
            s == marker() + seq!['\n'] + frame.interior + marker() + (if close + 3 == s.len() {
                Seq::<char>::empty()
            } else {
                seq!['\n']
            }) + frame.body
        }),
{
    lemma_frame_bounds(s);
    let frame = frame_of(s)->Some_0;
    let close = next_marker_line(s, 1);
    let end = if close + 3 == s.len() {
        Seq::<char>::empty()
    } else {
        seq!['\n']
    };
    assert(s =~= marker() + seq!['\n'] + frame.interior + marker() + end + frame.body);
}

/// Whether a marker line begins at `p`.
pub fn is_marker_line_at(chars: &Vec<char>, p: usize) -> (r: bool)
    ensures
        r == marker_line_at(chars@, p as int),
{
    p <= chars.len() && chars.len() - p >= 3 && chars[p] == '-' && chars[p + 1] == '-' && chars[p
        + 2] == '-' && (p == 0 || chars[p - 1] == '\n') && (chars.len() - p == 3 || chars[p + 3]
        == '\n')
}

/// The places where the closing marker line and the body begin, for a text
/// that has a frame.
pub fn yaml_header(chars: &Vec<char>) -> (r: Option<(usize, usize)>)
    ensures
        match r {
            Some((close, body)) => frame_of(chars@) is Some && close == next_marker_line(chars@, 1)
                && body == body_start(chars@, close as int),
            None => frame_of(chars@) is None,
        },
{
    if !is_marker_line_at(chars, 0) {
        return None;
    }
    let mut q: usize = 1;
    while chars.len() - q >= 3 && !is_marker_line_at(chars, q)
        invariant
            1 <= q <= chars.len(),
            next_marker_line(chars@, 1) == next_marker_line(chars@, q as int),
        decreases chars.len() - q,
    {
        q = q + 1;
    }
    if chars.len() - q >= 3 {
        let body = if chars.len() - q == 3 {
            q + 3
        } else {
            q + 4
        };
        Some((q, body))
    } else {
        None
    }
}

/// What stands under a key of the persona's metadata.
#[derive(Debug, Clone, PartialEq, Eq)]
pub enum HeaderField {
    /// The key is not there.
    Missing,
    /// The key is there without a value.
    Null,
    /// A string.
    Text(String),
    /// An integer that is not negative.
    Unsigned(u64),
    /// Anything else.
    Other,
}

/// A `HeaderField` as plain values.
pub enum FieldView {
    Missing,
    Null,
    Text(Seq<char>),
    Unsigned(u64),
    Other,
}

impl View for HeaderField {
    type V = FieldView;

    open spec fn view(&self) -> FieldView {
        match self {
            HeaderField::Missing => FieldView::Missing,
            HeaderField::Null => FieldView::Null,
            HeaderField::Text(s) => FieldView::Text(s@),
            HeaderField::Unsigned(n) => FieldView::Unsigned(*n),
            HeaderField::Other => FieldView::Other,
        }
    }
}

/// What stands under `key` in `node`: nothing unless `node` is a table with
/// that key.
pub open spec fn entry(node: YamlNode, key: Seq<char>) -> Option<YamlNode> {
    match node {
        YamlNode::Table(t) => if t.contains_key(key) {
            Some(t[key])
        } else {
            None
        },
        _ => None,
    }
}

/// The field that the outcome of a lookup stands for.
pub open spec fn field_of(found: Option<YamlNode>) -> FieldView {
    match found {
        None => FieldView::Missing,
        Some(YamlNode::Null) => FieldView::Null,
        Some(YamlNode::Text(s)) => FieldView::Text(s),
        Some(YamlNode::Unsigned(n)) => FieldView::Unsigned(n),
        Some(_) => FieldView::Other,
    }
}

/// A required string: the field must be there and hold a string.
pub open spec fn required_text(field: FieldView, missing: Seq<char>, mistyped: Seq<char>) -> Result<
    Seq<char>,
    Seq<char>,
> {
    match field {
        FieldView::Missing => Err(missing),
        FieldView::Text(s) => Ok(s),
        _ => Err(mistyped),
    }
}

/// An optional number of at most `max`: a field that is missing or null
/// gives none, and any value but an integer from 0 to `max` is refused.
pub open spec fn optional_number(field: FieldView, max: u64, refused: Seq<char>) -> Result<
    Option<u64>,
    Seq<char>,
> {
    match field {
        FieldView::Missing => Ok(None),
        FieldView::Null => Ok(None),
        FieldView::Unsigned(n) => if n <= max {
            Ok(Some(n))
        } else {
            Err(refused)
        },
        _ => Err(refused),
    }
}

/// The persona that four fields describe, or the reason why they describe
/// none. The name must be a string that is not empty and the prompt a
/// string; the temperature, where given, an integer from 0 to 255; the token
/// limit, where given, an integer from 0 to 4294967295. The first field at
/// fault, in this order, gives the reason.
pub open spec fn interlocutor_of(
    name: FieldView,
    prompt: FieldView,
    temperature: FieldView,
    token_limit: FieldView,
) -> Result<InterlocutorView, Seq<char>> {
    match required_text(name, "missing field `name`"@, "field `name` is not a string"@) {
        Err(reason) => Err(reason),
        Ok(name) => if name.len() == 0 {
            Err("field `name` is empty"@)
        } else {
            match required_text(
                prompt,
                "missing field `prompt`"@,
                "field `prompt` is not a string"@,
            ) {
                Err(reason) => Err(reason),
                Ok(prompt) => match optional_number(
                    temperature,
                    255,
                    "field `temperature` is not an integer from 0 to 255"@,
                ) {
                    Err(reason) => Err(reason),
                    Ok(temperature) => match optional_number(
                        token_limit,
                        4294967295,
                        "field `token_limit` is not an integer from 0 to 4294967295"@,
                    ) {
                        Err(reason) => Err(reason),
                        Ok(token_limit) => Ok(
                            InterlocutorView {
                                name,
                                prompt,
                                temperature: match temperature {
                                    Some(t) => Some(t as u8),
                                    None => None,
                                },
                                token_limit: match token_limit {
                                    Some(l) => Some(l as u32),
                                    None => None,
                                },
                            },
                        ),
                    },
                },
            }
        },
    }
}

/// The header that a YAML document describes, or the reason why it
/// describes none: the persona stands under the key `interlocutor`, its
/// fields under `name`, `prompt`, `temperature` and `token_limit`. Other keys
/// are passed over.
pub open spec fn header_in(doc: YamlNode) -> Result<InterlocutorView, Seq<char>> {
    match entry(doc, "interlocutor"@) {
        None => Err("missing field `interlocutor`"@),
        Some(persona) => interlocutor_of(
            field_of(entry(persona, "name"@)),
            field_of(entry(persona, "prompt"@)),
            field_of(entry(persona, "temperature"@)),
            field_of(entry(persona, "token_limit"@)),
        ),
    }
}

/// The error for a header that cannot be decoded for the given reason.
pub fn decode_error(reason: &str) -> (r: ParseError)
    ensures
        r@ == (ErrorView::HeaderDecodeError { reason: reason@ }),
{
    ParseError::HeaderDecodeError { reason: String::from_str(reason) }
}

impl Interlocutor {
    /// The persona that four fields of a header describe. The name must be a
    /// string that is not empty and the prompt a string; the temperature,
    /// where given, an integer from 0 to 255; the token limit, where given,
    /// an integer from 0 to 4294967295. Otherwise the header is refused, for
    /// a reason that names the first field at fault.
    pub fn from_fields(
        name: HeaderField,
        prompt: HeaderField,
        temperature: HeaderField,
        token_limit: HeaderField,
    ) -> (r: Result<Interlocutor, ParseError>)
        ensures
            match r {
                Ok(persona) => interlocutor_of(name@, prompt@, temperature@, token_limit@) == Ok::<
                    InterlocutorView,
                    Seq<char>,
                >(persona@),
                Err(e) => interlocutor_of(name@, prompt@, temperature@, token_limit@) matches Err(
                    reason,
                ) && e@ == (ErrorView::HeaderDecodeError { reason }),
            },
    {
        let name = match name {
            HeaderField::Missing => { return Err(decode_error("missing field `name`")); },
            HeaderField::Text(s) => s,
            _ => { return Err(decode_error("field `name` is not a string")); },
        };
        if name.as_str().is_empty() {
            return Err(decode_error("field `name` is empty"));
        }
        let prompt = match prompt {
            HeaderField::Missing => { return Err(decode_error("missing field `prompt`")); },
            HeaderField::Text(s) => s,
            _ => { return Err(decode_error("field `prompt` is not a string")); },
        };
        let temperature: Option<u8> = match temperature {
            HeaderField::Missing => None,
            HeaderField::Null => None,
            HeaderField::Unsigned(n) if n <= 255 => Some(n as u8),
            _ => {
                return Err(
                    decode_error("field `temperature` is not an integer from 0 to 255"),
                );
            },
        };
        let token_limit: Option<u32> = match token_limit {
            HeaderField::Missing => None,
            HeaderField::Null => None,
            HeaderField::Unsigned(n) if n <= 4294967295 => Some(n as u32),
            _ => {
                return Err(
                    decode_error("field `token_limit` is not an integer from 0 to 4294967295"),
                );
            },
        };
        Ok(Interlocutor { name, prompt, temperature, token_limit })
    }
}

/// The field that the outcome of a lookup in a YAML value stands for.
pub(crate) fn classify(found: Option<&serde_yaml::Value>) -> (r: HeaderField)
    ensures
        r@ == field_of(
            match found {
                Some(v) => Some(yaml_node(*v)),
                None => None,
            },
        ),
{
    match found {
        None => HeaderField::Missing,
        Some(v) => {
            if v.is_null() {
                HeaderField::Null
            } else {
                match v.as_str() {
                    Some(s) => HeaderField::Text(String::from_str(s)),
                    None => match v.as_u64() {
                        Some(n) => HeaderField::Unsigned(n),
                        None => HeaderField::Other,
                    },
                }
            }
        },
    }
}

/// The header that a YAML document describes, or the error that says why it
/// describes none.
pub(crate) fn decode_header(doc: &serde_yaml::Value) -> (r: Result<LecticHeader, ParseError>)
    ensures
        match r {
            Ok(header) => header_in(yaml_node(*doc)) == Ok::<InterlocutorView, Seq<char>>(header@),
            Err(e) => header_in(yaml_node(*doc)) matches Err(reason) && e@ == (
            ErrorView::HeaderDecodeError { reason }),
        },
{
    match member(doc, "interlocutor") {
        None => Err(decode_error("missing field `interlocutor`")),
        Some(persona) => {
            let name = classify(member(persona, "name"));
            let prompt = classify(member(persona, "prompt"));
            let temperature = classify(member(persona, "temperature"));
            let token_limit = classify(member(persona, "token_limit"));
            match Interlocutor::from_fields(name, prompt, temperature, token_limit) {
                Ok(interlocutor) => Ok(LecticHeader { interlocutor }),
                Err(e) => Err(e),
            }
        },
    }
}

} // verus!
