//! Parsing a document: the header, the segments of the body, and the turns
//! that are left once blank ones are dropped.

use crate::error::ErrorView;
use crate::error::ParseError;
use crate::header::decode_header;
use crate::header::frame_of;
use crate::header::header_in;
use crate::header::lemma_frame_bounds;
use crate::header::yaml_header;
use crate::segment::lectic_body;
use crate::segment::segments;
use crate::text::chars_of;
use crate::types::blocks_view;
use crate::types::BlockView;
use crate::types::DataView;
use crate::types::InterlocutorView;
use crate::types::LecticBlock;
use crate::types::LecticData;
use crate::types::LecticHeader;
use crate::yaml::error_message;
use crate::yaml::read_document;
use crate::yaml::yaml_document;
use vstd::prelude::*;
use vstd::string::StrSliceExecFns;

verus! {

/// What reading the header of the document `s` gives: the header with the
/// text of the body, or the error. A text without a frame has no header. The
/// text between the marker lines is read as one YAML document, and where
/// that fails the reader's message is the reason given.
pub open spec fn header_of(s: Seq<char>) -> Result<(InterlocutorView, Seq<char>), ErrorView> {
    match frame_of(s) {
        None => Err(ErrorView::MissingHeader),
        Some(frame) => match yaml_document(frame.interior) {
            Err(message) => Err(ErrorView::HeaderDecodeError { reason: message }),
            Ok(doc) => match header_in(doc) {
                Err(reason) => Err(ErrorView::HeaderDecodeError { reason }),
                Ok(header) => Ok((header, frame.body)),
            },
        },
    }
}

/// What parsing the document `s` gives: its header and the blocks of its
/// body that hold more than whitespace, or the error of the header or else
/// of the body.
pub open spec fn document_of(s: Seq<char>) -> Result<DataView, ErrorView> {
    match header_of(s) {
        Err(e) => Err(e),
        Ok((header, body)) => match body_of(body) {
            Err(e) => Err(e),
            Ok(blocks) => Ok(DataView { header, body: normalized(blocks) }),
        },
    }
}

/// What segmenting the text `s` gives: its segments as blocks, or the error
/// for the first fault in it.
pub open spec fn body_of(s: Seq<char>) -> Result<Seq<BlockView>, ErrorView> {
    match segments(s, 0) {
        Ok(blocks) => Ok(blocks),
        Err(fault) => Err(fault.error()),
    }
}

/// The blocks of `blocks` that hold more than whitespace, in the same order.
pub open spec fn normalized(blocks: Seq<BlockView>) -> Seq<BlockView> {
    blocks.filter(|b: BlockView| !b.is_blank())
}

/// The header of a document, and the text behind it. The document must
/// begin with a line that holds three hyphens alone; the next such line
/// closes the header, and the YAML between the two must describe a persona
/// under the key `interlocutor`.
pub fn get_header<'a>(lectic_str: &'a str) -> (r: Result<(LecticHeader, &'a str), ParseError>)
    ensures
        match r {
            Ok((header, rest)) => header_of(lectic_str@) == Ok::<
                (InterlocutorView, Seq<char>),
                ErrorView,
            >((header@, rest@)),
            Err(e) => header_of(lectic_str@) == Err::<(InterlocutorView, Seq<char>), ErrorView>(
                e@,
            ),
        },
{
    let chars = chars_of(lectic_str);
    match yaml_header(&chars) {
        None => Err(ParseError::MissingHeader),
        Some((close, body)) => {
            proof {
                lemma_frame_bounds(chars@);
            }
            match read_document(lectic_str.substring_char(4, close)) {
                Err(e) => Err(ParseError::HeaderDecodeError { reason: error_message(&e) }),
                Ok(doc) => match decode_header(&doc) {
                    Err(e) => Err(e),
                    Ok(header) => Ok((header, lectic_str.substring_char(body, chars.len()))),
                },
            }
        },
    }
}

/// The segments of a body, one block for each, in the order of the text. An
/// opening marker without a name and a named segment without a closing
/// marker are refused.
pub fn get_body(lectic_str: &str) -> (r: Result<Vec<LecticBlock>, ParseError>)
    ensures
        match r {
            Ok(blocks) => body_of(lectic_str@) == Ok::<Seq<BlockView>, ErrorView>(
                blocks_view(blocks@),
            ),
            Err(e) => body_of(lectic_str@) == Err::<Seq<BlockView>, ErrorView>(e@),
        },
{
    let chars = chars_of(lectic_str);
    lectic_body(&chars, lectic_str)
}

/// The blocks that hold more than whitespace, in the order in which they
/// came. Nothing else is dropped, and no block is changed.
pub fn normalize(blocks: Vec<LecticBlock>) -> (r: Vec<LecticBlock>)
    ensures
        blocks_view(r@) == normalized(blocks_view(blocks@)),
        forall|i: int| 0 <= i < r.len() ==> !(#[trigger] r[i])@.is_blank(),
{
    let ghost all = blocks@;
    let mut out: Vec<LecticBlock> = Vec::new();
    proof {
        reveal(Seq::filter);
        assert(blocks_view(all.take(0)) =~= Seq::<BlockView>::empty());
    }
    for block in it: blocks
        invariant
            it.seq() == all,
            blocks_view(out@) == normalized(blocks_view(all.take(it.index()))),
            forall|i: int| 0 <= i < out.len() ==> !(#[trigger] out[i])@.is_blank(),
    {
        let ghost seen = blocks_view(all.take(it.index()));
        let ghost kept = blocks_view(out@);
        proof {
            let now = blocks_view(all.take(it.index() + 1));
            reveal(Seq::filter);
            assert(now =~= seen.push(block@));
            assert(now.drop_last() =~= seen);
        }
        if block.is_nonempty() {
            proof {
                assert(blocks_view(out@.push(block)) =~= kept.push(block@));
            }
            out.push(block);
        }
    }
    proof {
        reveal(Seq::filter);
        assert(all.take(all.len() as int) =~= all);
    }
    out
}

/// The document that a text holds: its header, and the turns of its body in
/// the order of the text, without those that hold only whitespace.
pub fn parse(lectic_str: &str) -> (r: Result<LecticData, ParseError>)
    ensures
        match r {
            Ok(data) => document_of(lectic_str@) == Ok::<DataView, ErrorView>(data@),
            Err(e) => document_of(lectic_str@) == Err::<DataView, ErrorView>(e@),
        },
        r matches Ok(data) ==> forall|i: int|
            0 <= i < data.body.len() ==> !(#[trigger] data.body[i])@.is_blank(),
{
    let (header, rest) = match get_header(lectic_str) {
        Ok(found) => found,
        Err(e) => { return Err(e); },
    };
    let body = match get_body(rest) {
        Ok(blocks) => blocks,
        Err(e) => { return Err(e); },
    };
    Ok(LecticData { header, body: normalize(body) })
}

} // verus!
