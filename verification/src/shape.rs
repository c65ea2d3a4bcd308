//! The shape of the blocks that parsing yields: what holds of each, and of
//! each beside its neighbours.

use crate::parse::normalized;
use crate::segment::content_start;
use crate::segment::fence_at;
use crate::segment::fence_end;
use crate::segment::is_padding;
use crate::segment::lemma_content_start_bounds;
use crate::segment::lemma_fence_end;
use crate::segment::lemma_next_fence;
use crate::segment::lemma_padding_end;
use crate::segment::lemma_token_end;
use crate::segment::name_at;
use crate::segment::name_start;
use crate::segment::next_fence;
use crate::segment::segments;
use crate::segment::token_end;
use crate::text::is_trimmed;
use crate::text::lemma_trim_end_shape;
use crate::text::lemma_trim_is_trimmed;
use crate::text::lemma_trim_start_shape;
use crate::text::trim_start;
use crate::types::BlockView;
use vstd::prelude::*;

verus! {

/// Whether a fence stands anywhere in `content`.
pub open spec fn has_fence(content: Seq<char>) -> bool {
    exists|i: int| fence_at(content, i)
}

/// Whether `name` can stand in an opening marker and be read back: it is
/// not empty, neither begins nor ends with whitespace, and holds neither
/// colon nor line feed.
pub open spec fn is_name(name: Seq<char>) -> bool {
    &&& name.len() > 0
    &&& is_trimmed(name)
    &&& forall|i: int| 0 <= i < name.len() ==> name[i] != ':' && name[i] != '\n'
}

/// Whether `block` is as the segmenter yields blocks. The name of a named
/// block is a name, and its content holds no fence, does not begin with
/// padding and does not end with a colon. The content of a plain block is
/// not empty and holds no fence.
pub open spec fn sound(block: BlockView) -> bool {
    match block {
        BlockView::Named { name, content } => {
            &&& is_name(name)
            &&& !has_fence(content)
            &&& content.len() > 0 ==> !is_padding(content[0]) && content.last() != ':'
        },
        BlockView::Plain { content } => content.len() > 0 && !has_fence(content),
    }
}

/// Whether `blocks` stand as the blocks of one body do. Each is sound. A
/// plain block begins with a colon only where it is the first and `lead`
/// allows it, and ends with a colon only where it is the last.
pub open spec fn orderly(blocks: Seq<BlockView>, lead: bool) -> bool {
    &&& forall|i: int| 0 <= i < blocks.len() ==> sound(#[trigger] blocks[i])
    &&& forall|i: int|
        0 <= i < blocks.len() && (#[trigger] blocks[i]) is Plain && (i > 0 || !lead)
            ==> blocks[i].content()[0] != ':'
    &&& forall|i: int|
        0 <= i < blocks.len() - 1 && (#[trigger] blocks[i]) is Plain ==> blocks[i].content().last()
            != ':'
}

/// Whether every block of `blocks` holds more than whitespace.
pub open spec fn none_blank(blocks: Seq<BlockView>) -> bool {
    forall|i: int| 0 <= i < blocks.len() ==> !(#[trigger] blocks[i]).is_blank()
}

/// The name that an opening marker carries is a name, unless it is empty.
pub proof fn lemma_name_at_is_name(s: Seq<char>, p: int)
    requires
        fence_at(s, p),
        name_at(s, p).len() > 0,
    ensures
        is_name(name_at(s, p)),
{
    lemma_content_start_bounds(s, p);
    let a = name_start(s, p);
    let b = token_end(s, a);
    lemma_token_end(s, a);
    let token = s.subrange(a, b);
    let name = name_at(s, p);
    lemma_trim_is_trimmed(token);
    lemma_trim_start_shape(token);
    lemma_trim_end_shape(trim_start(token));
    let k = token.len() - trim_start(token).len();
    assert forall|i: int| 0 <= i < name.len() implies name[i] != ':' && name[i] != '\n' by {
        assert(name[i] == trim_start(token)[i]);
        assert(trim_start(token)[i] == token[k + i]);
        assert(token[k + i] == s[a + k + i]);
    }
}

/// The blocks behind the first of an orderly sequence are orderly, and even
/// the first of them does not begin with a colon where it is plain.
pub proof fn lemma_orderly_behind_first(blocks: Seq<BlockView>, lead: bool)
    requires
        blocks.len() > 0,
        orderly(blocks, lead),
    ensures
        orderly(blocks.drop_first(), false),
{
    let rest = blocks.drop_first();
    assert forall|i: int| 0 <= i < rest.len() implies sound(#[trigger] rest[i]) by {
        assert(rest[i] == blocks[i + 1]);
    }
    assert forall|i: int| 0 <= i < rest.len() && (#[trigger] rest[i]) is Plain implies rest[i]
        .content()[0] != ':' by {
        assert(rest[i] == blocks[i + 1]);
    }
    assert forall|i: int| 0 <= i < rest.len() - 1 && (#[trigger] rest[i]) is Plain implies rest[i]
        .content().last() != ':' by {
        assert(rest[i] == blocks[i + 1]);
    }
}

/// A sound block before an orderly sequence gives an orderly sequence,
/// where the block, if it is plain, begins with a colon only as `lead`
/// allows and ends with one only where nothing follows.
pub proof fn lemma_orderly_prepend(first: BlockView, rest: Seq<BlockView>, lead: bool)
    requires
        sound(first),
        orderly(rest, false),
        first is Plain && !lead ==> first.content()[0] != ':',
        first is Plain && rest.len() > 0 ==> first.content().last() != ':',
    ensures
        orderly(seq![first] + rest, lead),
{
    let blocks = seq![first] + rest;
    assert forall|i: int| 0 <= i < blocks.len() implies sound(#[trigger] blocks[i]) by {
        if i > 0 {
            assert(blocks[i] == rest[i - 1]);
        }
    }
    assert forall|i: int|
        0 <= i < blocks.len() && (#[trigger] blocks[i]) is Plain && (i > 0 || !lead)
        implies blocks[i].content()[0] != ':' by {
        if i > 0 {
            assert(blocks[i] == rest[i - 1]);
        }
    }
    assert forall|i: int|
        0 <= i < blocks.len() - 1 && (#[trigger] blocks[i]) is Plain implies blocks[i].content()
        .last() != ':' by {
        if i > 0 {
            assert(blocks[i] == rest[i - 1]);
        }
    }
}

/// No fence stands in a stretch of text in which no fence begins.
pub proof fn lemma_stretch_without_fence(s: Seq<char>, from: int, to: int)
    requires
        0 <= from <= to <= s.len(),
        forall|i: int| from <= i < to ==> !fence_at(s, i),
    ensures
        !has_fence(s.subrange(from, to)),
{
    let content = s.subrange(from, to);
    assert forall|i: int| !fence_at(content, i) by {
        if fence_at(content, i) {
            assert(fence_at(s, from + i));
        }
    }
}

/// The blocks that segmenting gives are orderly. The first may begin with a
/// colon only where the text before it does not end a marker.
pub proof fn lemma_segments_orderly(s: Seq<char>, p: int, lead: bool)
    requires
        0 <= p <= s.len(),
        segments(s, p) is Ok,
        !lead && p < s.len() ==> s[p] != ':' || fence_at(s, p),
    ensures
        segments(s, p) matches Ok(blocks) && orderly(blocks, lead),
    decreases s.len() - p,
{
    if p < s.len() {
        if fence_at(s, p) {
            lemma_content_start_bounds(s, p);
            let from = content_start(s, p);
            let to = next_fence(s, from);
            lemma_next_fence(s, from);
            lemma_fence_end(s, to);
            let next = fence_end(s, to);
            let content = s.subrange(from, to);
            lemma_name_at_is_name(s, p);
            lemma_stretch_without_fence(s, from, to);
            if content.len() > 0 {
                lemma_padding_end(s, fence_end(s, token_end(s, name_start(s, p))));
                assert(content[0] == s[from]);
                if content.last() == ':' {
                    assert(s[to - 1] == ':');
                    assert(fence_at(s, to - 1));
                }
            }
            lemma_segments_orderly(s, next, false);
            lemma_orderly_prepend(
                BlockView::Named { name: name_at(s, p), content },
                segments(s, next)->Ok_0,
                lead,
            );
        } else {
            let to = next_fence(s, p);
            lemma_next_fence(s, p);
            let content = s.subrange(p, to);
            lemma_stretch_without_fence(s, p, to);
            assert(content[0] == s[p]);
            if to < s.len() && content.last() == ':' {
                assert(s[to - 1] == ':');
                assert(fence_at(s, to - 1));
            }
            lemma_segments_orderly(s, to, false);
            lemma_orderly_prepend(BlockView::Plain { content }, segments(s, to)->Ok_0, lead);
        }
    }
}

/// Dropping the blank blocks of an orderly sequence leaves an orderly
/// sequence without blank blocks.
pub proof fn lemma_normalized_orderly(blocks: Seq<BlockView>, lead: bool)
    requires
        orderly(blocks, lead),
    ensures
        orderly(normalized(blocks), lead),
        none_blank(normalized(blocks)),
    decreases blocks.len(),
{
    let keep = |b: BlockView| !b.is_blank();
    if blocks.len() == 0 {
        blocks.lemma_filter_len(keep);
    } else {
        let first = blocks[0];
        let rest = blocks.drop_first();
        assert(blocks =~= seq![first] + rest);
        lemma_orderly_behind_first(blocks, lead);
        lemma_normalized_orderly(rest, false);
        rest.lemma_filter_prepend(first, keep);
        rest.lemma_filter_len(keep);
        let tail = normalized(rest);
        if keep(first) {
            lemma_orderly_prepend(first, tail, lead);
            assert forall|i: int| 0 <= i < (seq![first] + tail).len() implies !(#[trigger] (seq![
                first,
            ] + tail)[i]).is_blank() by {
                if i > 0 {
                    assert((seq![first] + tail)[i] == tail[i - 1]);
                }
            }
        } else {
            assert(normalized(blocks) =~= tail);
        }
    }
}

} // verus!
