//! What holds of every parsed document.

use crate::encode::encode;
use crate::error::ErrorView;
use crate::header::marker_line_at;
use crate::parse::body_of;
use crate::parse::document_of;
use crate::parse::header_of;
use crate::parse::normalized;
use crate::round_trip::lemma_read_encoded;
use crate::scan_laws::lemma_next_fence_is;
use crate::scan_laws::lemma_segments_extend;
use crate::segment::content_start;
use crate::segment::Fault;
use crate::segment::fence_at;
use crate::segment::lemma_content_start_bounds;
use crate::segment::lemma_next_fence;
use crate::segment::name_at;
use crate::segment::plain_at;
use crate::segment::segments;
use crate::shape::lemma_normalized_orderly;
use crate::shape::lemma_segments_orderly;
use crate::shape::none_blank;
use crate::shape::orderly;
use crate::text::all_whitespace;
use crate::text::is_space;
use crate::types::BlockView;
use crate::types::DataView;
use crate::types::Role;
use crate::types::temperature_of;
use crate::types::token_limit_of;
use vstd::prelude::*;

verus! {

/// The blocks of a parsed document are orderly and none of them is blank:
/// every name is the trimmed interior of its marker and not empty, no
/// content holds a fence, and no content is whitespace alone. The name of
/// the persona is not empty either.
pub proof fn lemma_document_invariants(text: Seq<char>, document: DataView)
    requires
        document_of(text) == Ok::<DataView, ErrorView>(document),
    ensures
        orderly(document.body, true),
        none_blank(document.body),
        document.header.name.len() > 0,
{
    let body = header_of(text)->Ok_0.1;
    lemma_segments_orderly(body, 0, true);
    lemma_normalized_orderly(segments(body, 0)->Ok_0, true);
}

/// Writing the blocks of a parsed document back as text and reading that
/// text gives the same blocks: their order, their kinds, their names and
/// their contents.
pub proof fn lemma_round_trip(text: Seq<char>, document: DataView)
    requires
        document_of(text) == Ok::<DataView, ErrorView>(document),
    ensures
        body_of(encode(document.body)) matches Ok(read) && normalized(read) == document.body,
{
    lemma_document_invariants(text, document);
    lemma_read_encoded(document.body);
}

/// A text that does not begin with a marker line has no header, whatever
/// else it holds.
pub proof fn lemma_missing_header(text: Seq<char>)
    requires
        !marker_line_at(text, 0),
    ensures
        document_of(text) == Err::<DataView, ErrorView>(ErrorView::MissingHeader),
{
}

/// A body of whitespace alone has no blocks once the blank ones are
/// dropped, and so gives no messages.
pub proof fn lemma_blank_body(body: Seq<char>)
    requires
        all_whitespace(body),
    ensures
        body_of(body) matches Ok(blocks) && normalized(blocks).len() == 0,
{
    let keep = |b: BlockView| !b.is_blank();
    if body.len() == 0 {
        Seq::<BlockView>::empty().lemma_filter_len(keep);
    } else {
        assert forall|i: int| 0 <= i < body.len() implies !fence_at(body, i) by {
            assert(is_space(body[i]));
        }
        lemma_next_fence_is(body, 0, body.len() as int);
        assert(body.subrange(0, body.len() as int) =~= body);
        let only = BlockView::Plain { content: body };
        assert(is_space(body[0]));
        assert(plain_at(body, 0) == (only, body.len() as int));
        assert(segments(body, body.len() as int) == Ok::<Seq<BlockView>, Fault>(Seq::empty()));
        assert(segments(body, 0) == Ok::<Seq<BlockView>, Fault>(
            seq![only] + Seq::<BlockView>::empty(),
        ));
        Seq::<BlockView>::empty().lemma_filter_prepend(only, keep);
        Seq::<BlockView>::empty().lemma_filter_len(keep);
    }
}

/// A named segment that no fence closes is refused, wherever it opens and
/// whatever name and text its marker is followed by.
pub proof fn lemma_unterminated_is_refused(s: Seq<char>, p: int)
    requires
        fence_at(s, p),
        forall|i: int| content_start(s, p) <= i ==> !fence_at(s, i),
    ensures
        segments(s, p) is Err,
        name_at(s, p).len() > 0 ==> segments(s, p) == Err::<Seq<BlockView>, Fault>(
            Fault::Unterminated,
        ),
{
    lemma_content_start_bounds(s, p);
    lemma_next_fence(s, content_start(s, p));
}

/// An opening marker that no fence closes makes the body a malformed one,
/// whatever stands before it: here `before` is any text that reads as
/// blocks and does not end with a colon, and `open` any text that begins
/// with a fence and has none behind its opening marker.
pub proof fn lemma_unterminated_anywhere(before: Seq<char>, open: Seq<char>)
    requires
        segments(before, 0) is Ok,
        before.len() > 0 ==> before.last() != ':',
        fence_at(open, 0),
        forall|i: int| content_start(open, 0) <= i ==> !fence_at(open, i),
    ensures
        body_of(before + open) matches Err(e) && e is MalformedSegment,
{
    lemma_unterminated_is_refused(open, 0);
    lemma_segments_extend(before, open, 0);
}

/// Dropping the blank blocks leaves no blank block, whatever the blocks
/// were, and leaves the others in their order.
pub proof fn lemma_normalized_none_blank(blocks: Seq<BlockView>)
    ensures
        none_blank(normalized(blocks)),
        normalized(blocks).len() <= blocks.len(),
        none_blank(blocks) ==> normalized(blocks) == blocks,
    decreases blocks.len(),
{
    let keep = |b: BlockView| !b.is_blank();
    blocks.lemma_filter_len(keep);
    assert forall|i: int| 0 <= i < normalized(blocks).len() implies !(#[trigger] normalized(
        blocks,
    )[i]).is_blank() by {
        blocks.lemma_filter_pred(keep, i);
    }
    if blocks.len() > 0 {
        let first = blocks[0];
        let rest = blocks.drop_first();
        assert(blocks =~= seq![first] + rest);
        lemma_normalized_none_blank(rest);
        rest.lemma_filter_prepend(first, keep);
        if none_blank(blocks) {
            assert forall|i: int| 0 <= i < rest.len() implies !(#[trigger] rest[i]).is_blank() by {
                assert(rest[i] == blocks[i + 1]);
            }
        }
    } else {
        assert(normalized(blocks) =~= blocks);
    }
}

/// The temperature lies between zero and one for every value that a header
/// can give, and is seven tenths exactly where the header gives none.
pub proof fn lemma_temperature(setting: Option<u8>)
    ensures
        temperature_of(setting).in_unit_interval(),
        10 * temperature_of(setting).numerator == 7 * temperature_of(setting).denominator
            <==> setting is None,
        setting matches Some(value) ==> temperature_of(setting).numerator == value
            && temperature_of(setting).denominator == 255,
{
}

/// The token limit is the value of the header where it gives one, and 512
/// where it gives none.
pub proof fn lemma_token_limit(setting: Option<u32>)
    ensures
        setting matches Some(value) ==> token_limit_of(setting) == value,
        setting is None ==> token_limit_of(setting) == 512,
{
}

/// Who speaks in a message depends on the kind of the block alone: two
/// blocks of one kind give the same role, whatever their names and texts.
pub proof fn lemma_role_by_kind(a: BlockView, b: BlockView)
    ensures
        a is Named ==> a.message().role == Role::Assistant,
        a is Plain ==> a.message().role == Role::User,
        (a is Named <==> b is Named) ==> a.message().role == b.message().role,
{
}

} // verus!
