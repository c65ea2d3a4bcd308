//! Reading the text that blocks were written as gives the blocks again.

use crate::encode::encode;
use crate::encode::encode_block;
use crate::encode::gap;
use crate::encode::line_feed;
use crate::encode::spacer;
use crate::parse::normalized;
use crate::scan_laws::lemma_fence_end_is;
use crate::scan_laws::lemma_next_fence_is;
use crate::scan_laws::lemma_padding_end_is;
use crate::scan_laws::lemma_segments_shift;
use crate::scan_laws::lemma_token_end_is;
use crate::segment::content_start;
use crate::segment::fence_at;
use crate::segment::name_at;
use crate::segment::prepend;
use crate::segment::segments;
use crate::shape::has_fence;
use crate::shape::lemma_orderly_behind_first;
use crate::shape::none_blank;
use crate::shape::orderly;
use crate::shape::sound;
use crate::text::lemma_trim_of_trimmed;
use crate::types::BlockView;
use vstd::prelude::*;

verus! {

/// A named block with a sound name and content, followed by text that does
/// not begin with a colon, is read as that block, and reading goes on with
/// that text.
pub proof fn lemma_read_named(name: Seq<char>, content: Seq<char>, then: Seq<char>)
    requires
        sound(BlockView::Named { name, content }),
        then.len() > 0 ==> then[0] != ':',
    ensures
        segments(encode_block(BlockView::Named { name, content }) + then, 0) == prepend(
            BlockView::Named { name, content },
            segments(then, 0),
        ),
{
    let block = BlockView::Named { name, content };
    let e = encode_block(block);
    let s = e + then;
    let n = name.len() as int;
    let c = content.len() as int;
    assert(e.len() == n + c + 7);
    assert(forall|i: int| 0 <= i < 3 ==> s[i] == ':');
    assert(forall|i: int| 3 <= i < 3 + n ==> s[i] == name[i - 3]);
    assert(s[3 + n] == '\n');
    assert(forall|i: int| 4 + n <= i < 4 + n + c ==> s[i] == content[i - 4 - n]);
    assert(forall|i: int| 4 + n + c <= i < 7 + n + c ==> s[i] == ':');
    assert(forall|i: int| 0 <= i < then.len() ==> s[7 + n + c + i] == then[i]);
    assert(fence_at(s, 0));
    lemma_fence_end_is(s, 0, 3);
    lemma_token_end_is(s, 3, 3 + n);
    assert(s.subrange(3, 3 + n) =~= name);
    lemma_trim_of_trimmed(name);
    assert(name_at(s, 0) == name);
    lemma_fence_end_is(s, 3 + n, 3 + n);
    lemma_padding_end_is(s, 3 + n, 4 + n);
    assert(content_start(s, 0) == 4 + n);
    let to = 4 + n + c;
    assert(fence_at(s, to));
    assert forall|i: int| 4 + n <= i < to implies !fence_at(s, i) by {
        if fence_at(s, i) {
            if i + 3 <= to {
                assert(fence_at(content, i - 4 - n));
            } else {
                assert(s[to - 1] == ':');
                assert(content.last() == ':');
            }
        }
    }
    lemma_next_fence_is(s, 4 + n, to);
    lemma_fence_end_is(s, to, to + 3);
    assert(s.subrange(4 + n, to) =~= content);
    lemma_segments_shift(e, then, 0);
}

/// A plain block with sound content, at the end of the text or before a
/// fence that its last character does not run into, is read as that block,
/// and reading goes on with what follows.
pub proof fn lemma_read_plain(content: Seq<char>, then: Seq<char>)
    requires
        sound(BlockView::Plain { content }),
        then.len() > 0 ==> fence_at(then, 0) && content.last() != ':',
    ensures
        segments(content + then, 0) == prepend(BlockView::Plain { content }, segments(then, 0)),
{
    let s = content + then;
    let c = content.len() as int;
    assert(forall|i: int| 0 <= i < c ==> s[i] == content[i]);
    assert(forall|i: int| 0 <= i < then.len() ==> s[c + i] == then[i]);
    assert forall|i: int| 0 <= i < c implies !fence_at(s, i) by {
        if fence_at(s, i) {
            if i + 3 <= c {
                assert(fence_at(content, i));
            } else {
                assert(s[c - 1] == ':');
            }
        }
    }
    if then.len() > 0 {
        assert(fence_at(s, c));
    }
    lemma_next_fence_is(s, 0, c);
    assert(s.subrange(0, c) =~= content);
    lemma_segments_shift(content, then, 0);
}

/// A line feed before a fence is read as a plain block of its own, and
/// reading goes on at the fence.
pub proof fn lemma_read_gap(then: Seq<char>)
    requires
        fence_at(then, 0),
    ensures
        segments(line_feed() + then, 0) == prepend(
            BlockView::Plain { content: line_feed() },
            segments(then, 0),
        ),
{
    assert(!has_fence(line_feed())) by {
        assert(forall|i: int| !fence_at(line_feed(), i));
    }
    lemma_read_plain(line_feed(), then);
}

/// The text of a sequence that begins with a named block begins with a
/// fence.
pub proof fn lemma_encode_begins_with_fence(blocks: Seq<BlockView>)
    requires
        blocks.len() > 0,
        blocks[0] is Named,
    ensures
        fence_at(encode(blocks), 0),
{
    let e = encode(blocks);
    assert(e[0] == ':' && e[1] == ':' && e[2] == ':');
}

/// The text of a sequence that begins with a plain block begins as that
/// block does.
pub proof fn lemma_encode_begins_as_plain(blocks: Seq<BlockView>)
    requires
        blocks.len() > 0,
        blocks[0] is Plain,
        blocks[0].content().len() > 0,
    ensures
        encode(blocks).len() > 0,
        encode(blocks)[0] == blocks[0].content()[0],
{
}

/// The spacer is a sound block that is blank, and its name is a name.
pub proof fn lemma_spacer(blocks: Seq<BlockView>)
    ensures
        spacer(blocks) matches Some(block) ==> sound(block) && block.is_blank(),
{
    assert(!has_fence(line_feed())) by {
        assert(forall|i: int| !fence_at(line_feed(), i));
    }
    assert(!has_fence(Seq::<char>::empty())) by {
        assert(forall|i: int| !fence_at(Seq::<char>::empty(), i));
    }
}

/// How the text behind the first block begins: not with a colon behind a
/// named block, and with a fence behind a plain block, unless it is empty.
/// The text behind a spacer begins with a fence where the spacer is plain,
/// and not with a colon where it is named.
pub proof fn lemma_behind_first_text(blocks: Seq<BlockView>)
    requires
        blocks.len() > 0,
        orderly(blocks, true),
    ensures
        ({
            let tail = encode(blocks.drop_first());
            let then = gap(blocks) + tail;
            &&& encode(blocks) == encode_block(blocks[0]) + then
            &&& blocks[0] is Named && then.len() > 0 ==> then[0] != ':'
            &&& blocks[0] is Plain && then.len() > 0 ==> fence_at(then, 0)
                && blocks[0].content().last() != ':'
            &&& spacer(blocks) is None ==> then == tail
            &&& spacer(blocks) matches Some(block) ==> (if block is Plain {
                fence_at(tail, 0)
            } else {
                tail.len() > 0 && tail[0] != ':'
            })
        }),
{
    let rest = blocks.drop_first();
    let tail = encode(rest);
    let then = gap(blocks) + tail;
    assert(encode(blocks) =~= encode_block(blocks[0]) + then);
    if rest.len() > 0 {
        assert(rest[0] == blocks[1]);
        assert(sound(blocks[1]));
        if rest[0] is Named {
            lemma_encode_begins_with_fence(rest);
        } else {
            lemma_encode_begins_as_plain(rest);
        }
    }
    match spacer(blocks) {
        None => {
            assert(then =~= tail);
        },
        Some(block) => {
            if block is Plain {
                assert(then[0] == '\n');
            } else {
                assert(then[0] == ':' && then[1] == ':' && then[2] == ':');
            }
        },
    }
}

/// A block that is not blank, before blocks that were read, with a blank
/// block in between or without, is left before those blocks once the blank
/// ones are dropped.
pub proof fn lemma_normalized_behind(
    first: BlockView,
    between: Option<BlockView>,
    read: Seq<BlockView>,
)
    requires
        !first.is_blank(),
        between matches Some(block) ==> block.is_blank(),
    ensures
        normalized(
            seq![first] + (match between {
                Some(block) => seq![block] + read,
                None => read,
            }),
        ) == seq![first] + normalized(read),
{
    let keep = |b: BlockView| !b.is_blank();
    match between {
        Some(block) => {
            read.lemma_filter_prepend(block, keep);
            (seq![block] + read).lemma_filter_prepend(first, keep);
            assert(Seq::<BlockView>::empty() + normalized(read) =~= normalized(read));
        },
        None => {
            read.lemma_filter_prepend(first, keep);
        },
    }
}

/// Reading the text of blocks gives those blocks again, with blank ones
/// between them that are then dropped: this holds of blocks that are
/// orderly and not blank.
pub proof fn lemma_read_encoded(blocks: Seq<BlockView>)
    requires
        orderly(blocks, true),
        none_blank(blocks),
    ensures
        segments(encode(blocks), 0) matches Ok(read) && normalized(read) == blocks,
    decreases blocks.len(),
{
    if blocks.len() == 0 {
        Seq::<BlockView>::empty().lemma_filter_len(|b: BlockView| !b.is_blank());
        assert(normalized(Seq::<BlockView>::empty()) =~= blocks);
    } else {
        let first = blocks[0];
        let rest = blocks.drop_first();
        lemma_orderly_behind_first(blocks, true);
        assert forall|i: int| 0 <= i < rest.len() implies !(#[trigger] rest[i]).is_blank() by {
            assert(rest[i] == blocks[i + 1]);
        }
        lemma_read_encoded(rest);
        lemma_behind_first_text(blocks);
        lemma_spacer(blocks);
        let tail = encode(rest);
        let then = gap(blocks) + tail;
        let read_tail = segments(tail, 0)->Ok_0;
        assert(seq![first] + rest =~= blocks);
        match first {
            BlockView::Named { name, content } => {
                lemma_read_named(name, content, then);
            },
            BlockView::Plain { content } => {
                lemma_read_plain(content, then);
            },
        }
        match spacer(blocks) {
            Some(BlockView::Plain { content }) => {
                lemma_read_gap(tail);
            },
            Some(BlockView::Named { name, content }) => {
                lemma_read_named(name, content, tail);
            },
            None => {},
        }
        lemma_normalized_behind(first, spacer(blocks), read_tail);
    }
}

} // verus!
