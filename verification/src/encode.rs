//! Writing blocks back as the text of a body.

use crate::types::blocks_view;
use crate::types::BlockView;
use crate::types::LecticBlock;
use vstd::prelude::*;
use vstd::string::StringExecFns;

verus! {

/// A fence of three colons.
pub open spec fn fence() -> Seq<char> {
    seq![':', ':', ':']
}

/// A single line feed.
pub open spec fn line_feed() -> Seq<char> {
    seq!['\n']
}

/// The text of one block: a plain block is its content, a named block its
/// name on the line of the opening fence, then its content and a closing
/// fence.
pub open spec fn encode_block(block: BlockView) -> Seq<char> {
    match block {
        BlockView::Named { name, content } => fence() + name + line_feed() + content + fence(),
        BlockView::Plain { content } => content,
    }
}

/// The name of the blank block that sets two plain blocks apart.
pub open spec fn spacer_name() -> Seq<char> {
    seq!['_']
}

/// The blank block that is written between the first block and the second
/// where the two are of one kind: a line feed between two named blocks,
/// whose fences would else run into one another, and an empty named block
/// between two plain blocks, which would else read as one. Reading drops
/// either.
pub open spec fn spacer(blocks: Seq<BlockView>) -> Option<BlockView> {
    if blocks.len() >= 2 && blocks[0] is Named && blocks[1] is Named {
        Some(BlockView::Plain { content: line_feed() })
    } else if blocks.len() >= 2 && blocks[0] is Plain && blocks[1] is Plain {
        Some(BlockView::Named { name: spacer_name(), content: Seq::empty() })
    } else {
        None
    }
}

/// The text between the first block and the second.
pub open spec fn gap(blocks: Seq<BlockView>) -> Seq<char> {
    match spacer(blocks) {
        Some(block) => encode_block(block),
        None => Seq::empty(),
    }
}

/// The text of a body that holds `blocks`.
pub open spec fn encode(blocks: Seq<BlockView>) -> Seq<char>
    decreases blocks.len(),
{
    if blocks.len() == 0 {
        Seq::empty()
    } else {
        encode_block(blocks[0]) + gap(blocks) + encode(blocks.drop_first())
    }
}

/// The text of a body that holds `blocks`: each plain block as its
/// content, each named block between an opening fence with its name and a
/// closing fence, and a blank block between two blocks of one kind.
pub fn encode_body(blocks: &Vec<LecticBlock>) -> (r: String)
    ensures
        r@ == encode(blocks_view(blocks@)),
{
    let ghost all = blocks_view(blocks@);
    let mut out = String::new();
    let mut i: usize = 0;
    proof {
        assert(all.skip(0) =~= all);
        assert(out@ + encode(all) =~= encode(all));
    }
    while i < blocks.len()
        invariant
            i <= blocks.len(),
            all == blocks_view(blocks@),
            out@ + encode(all.skip(i as int)) == encode(all),
        decreases blocks.len() - i,
    {
        let ghost before = out@;
        let ghost here = all.skip(i as int);
        proof {
            reveal_strlit(":::");
            reveal_strlit("\n");
            reveal_strlit(":::_\n:::");
            assert(":::"@ =~= fence());
            assert("\n"@ =~= line_feed());
            assert(":::_\n:::"@ =~= fence() + spacer_name() + line_feed() + Seq::<char>::empty()
                + fence());
            assert(here.drop_first() =~= all.skip(i + 1));
            assert(here[0] == blocks[i as int]@);
            if i + 1 < blocks.len() {
                assert(here[1] == blocks[i + 1]@);
            }
        }
        match &blocks[i] {
            LecticBlock::InterlocBlock { name, content } => {
                out.append(":::");
                out.append(name.as_str());
                out.append("\n");
                out.append(content.as_str());
                out.append(":::");
                if i + 1 < blocks.len() {
                    match &blocks[i + 1] {
                        LecticBlock::InterlocBlock { .. } => {
                            out.append("\n");
                        },
                        LecticBlock::UserBlock { .. } => {},
                    }
                }
            },
            LecticBlock::UserBlock { content } => {
                out.append(content.as_str());
                if i + 1 < blocks.len() {
                    match &blocks[i + 1] {
                        LecticBlock::InterlocBlock { .. } => {},
                        LecticBlock::UserBlock { .. } => {
                            out.append(":::_\n:::");
                        },
                    }
                }
            },
        }
        proof {
            assert(out@ =~= before + (encode_block(here[0]) + gap(here)));
            assert(before + (encode_block(here[0]) + gap(here)) + encode(all.skip(i + 1))
                =~= before + encode(here));
        }
        i = i + 1;
    }
    proof {
        assert(out@ + Seq::<char>::empty() =~= out@);
    }
    out
}

} // verus!
