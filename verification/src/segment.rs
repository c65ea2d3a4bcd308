//! The grammar of a document's body: fences, opening markers with their
//! names, and the segments that they delimit.

use crate::error::ErrorView;
use crate::error::ParseError;
use crate::text::trim;
use crate::text::trimmed_span;
use crate::types::blocks_view;
use crate::types::BlockView;
use crate::types::LecticBlock;
use vstd::prelude::*;
use vstd::string::StringExecFns;
use vstd::string::StrSliceExecFns;

verus! {

/// Whether a fence, three colons, stands at `p`.
pub open spec fn fence_at(s: Seq<char>, p: int) -> bool {
    0 <= p && p + 3 <= s.len() && s[p] == ':' && s[p + 1] == ':' && s[p + 2] == ':'
}

/// Where the run of colons that begins at `p` ends.
pub open spec fn fence_end(s: Seq<char>, p: int) -> int
    decreases s.len() - p,
{
    if 0 <= p < s.len() && s[p] == ':' {
        fence_end(s, p + 1)
    } else {
        p
    }
}

/// Where the name token that begins at `p` ends: at the first colon or line
/// break, or at the end of the text.
pub open spec fn token_end(s: Seq<char>, p: int) -> int
    decreases s.len() - p,
{
    if 0 <= p < s.len() && s[p] != ':' && s[p] != '\n' {
        token_end(s, p + 1)
    } else {
        p
    }
}

/// Whether `c` is one of the characters that may follow an opening marker
/// without belonging to the content: space, tab, line feed, carriage return.
pub open spec fn is_padding(c: char) -> bool {
    c == ' ' || c == '\t' || c == '\n' || c == '\r'
}

/// Where the run of padding that begins at `p` ends.
pub open spec fn padding_end(s: Seq<char>, p: int) -> int
    decreases s.len() - p,
{
    if 0 <= p < s.len() && is_padding(s[p]) {
        padding_end(s, p + 1)
    } else {
        p
    }
}

/// The place of the first fence at or after `p`, or the length of the text
/// where there is none.
pub open spec fn next_fence(s: Seq<char>, p: int) -> int
    decreases s.len() - p,
{
    if p < 0 || p + 3 > s.len() {
        s.len() as int
    } else if fence_at(s, p) {
        p
    } else {
        next_fence(s, p + 1)
    }
}

/// Where the name token of the opening marker at `p` begins.
pub open spec fn name_start(s: Seq<char>, p: int) -> int {
    fence_end(s, p)
}

/// The name that the opening marker at `p` carries: its token, trimmed.
pub open spec fn name_at(s: Seq<char>, p: int) -> Seq<char> {
    trim(s.subrange(name_start(s, p), token_end(s, name_start(s, p))))
}

/// Where the content of the named segment that opens at `p` begins: behind
/// the name token, any colons that follow it, and any padding after those.
pub open spec fn content_start(s: Seq<char>, p: int) -> int {
    padding_end(s, fence_end(s, token_end(s, name_start(s, p))))
}

/// Why a body cannot be segmented.
pub enum Fault {
    /// An opening marker carries no name.
    EmptyName,
    /// A named segment runs to the end of the text without a closing marker.
    Unterminated,
}

impl Fault {
    /// The fault in words.
    pub open spec fn context(self) -> Seq<char> {
        match self {
            Fault::EmptyName => "opening marker without a name"@,
            Fault::Unterminated => "named segment without a closing marker"@,
        }
    }

    /// The error that reports the fault.
    pub open spec fn error(self) -> ErrorView {
        ErrorView::MalformedSegment { context: self.context() }
    }
}

/// `first` put before the blocks of `rest`, where there are any.
pub open spec fn prepend(first: BlockView, rest: Result<Seq<BlockView>, Fault>) -> Result<
    Seq<BlockView>,
    Fault,
> {
    match rest {
        Ok(blocks) => Ok(seq![first] + blocks),
        Err(fault) => Err(fault),
    }
}

/// The named segment that opens with the fence at `p`, and the place where
/// the text behind it begins. The whole run of colons at `p` belongs to the
/// marker, then comes the name, then the content up to the next fence, which
/// closes the segment together with all colons that follow it. A marker
/// without a name is a fault, and so is a segment that no fence closes.
pub open spec fn named_at(s: Seq<char>, p: int) -> Result<(BlockView, int), Fault> {
    let from = content_start(s, p);
    let to = next_fence(s, from);
    if name_at(s, p).len() == 0 {
        Err(Fault::EmptyName)
    } else if !fence_at(s, to) {
        Err(Fault::Unterminated)
    } else {
        Ok(
            (
                BlockView::Named { name: name_at(s, p), content: s.subrange(from, to) },
                fence_end(s, to),
            ),
        )
    }
}

/// The plain segment that begins at `p`, and the place where it ends: at the
/// next fence, or at the end of the text.
pub open spec fn plain_at(s: Seq<char>, p: int) -> (BlockView, int) {
    let to = next_fence(s, p);
    (BlockView::Plain { content: s.subrange(p, to) }, to)
}

/// The segments of `s` from `p` on, in order: a named segment where a fence
/// stands at `p`, a plain segment where anything else does, and so on behind
/// it to the end of the text. The first fault ends it.
pub open spec fn segments(s: Seq<char>, p: int) -> Result<Seq<BlockView>, Fault>
    decreases s.len() - p,
{
    if p < 0 || p >= s.len() {
        Ok(Seq::empty())
    } else if fence_at(s, p) {
        match named_at(s, p) {
            Err(fault) => Err(fault),
            Ok((block, next)) => {
                proof {
                    lemma_content_start_bounds(s, p);
                    lemma_next_fence(s, content_start(s, p));
                    lemma_fence_end(s, next_fence(s, content_start(s, p)));
                }
                prepend(block, segments(s, next))
            },
        }
    } else {
        proof {
            lemma_next_fence(s, p);
        }
        prepend(plain_at(s, p).0, segments(s, plain_at(s, p).1))
    }
}

/// A run of colons ends where the first character that is no colon stands.
pub proof fn lemma_fence_end(s: Seq<char>, p: int)
    requires
        0 <= p <= s.len(),
    ensures
        p <= fence_end(s, p) <= s.len(),
        forall|i: int| p <= i < fence_end(s, p) ==> s[i] == ':',
        fence_end(s, p) < s.len() ==> s[fence_end(s, p)] != ':',
        fence_at(s, p) ==> p + 3 <= fence_end(s, p),
    decreases s.len() - p,
{
    if p < s.len() && s[p] == ':' {
        lemma_fence_end(s, p + 1);
        if fence_at(s, p) {
            lemma_fence_end(s, p + 2);
        }
    }
}

/// A name token holds neither colon nor line break, and ends before one of
/// them or at the end of the text.
pub proof fn lemma_token_end(s: Seq<char>, p: int)
    requires
        0 <= p <= s.len(),
    ensures
        p <= token_end(s, p) <= s.len(),
        forall|i: int| p <= i < token_end(s, p) ==> s[i] != ':' && s[i] != '\n',
        token_end(s, p) < s.len() ==> s[token_end(s, p)] == ':' || s[token_end(s, p)] == '\n',
    decreases s.len() - p,
{
    if p < s.len() && s[p] != ':' && s[p] != '\n' {
        lemma_token_end(s, p + 1);
    }
}

/// A run of padding ends where the first character that is no padding
/// stands.
pub proof fn lemma_padding_end(s: Seq<char>, p: int)
    requires
        0 <= p <= s.len(),
    ensures
        p <= padding_end(s, p) <= s.len(),
        forall|i: int| p <= i < padding_end(s, p) ==> is_padding(s[i]),
        padding_end(s, p) < s.len() ==> !is_padding(s[padding_end(s, p)]),
    decreases s.len() - p,
{
    if p < s.len() && is_padding(s[p]) {
        lemma_padding_end(s, p + 1);
    }
}

/// No fence stands between `p` and the next fence, and a fence stands there
/// unless the text has none from `p` on.
pub proof fn lemma_next_fence(s: Seq<char>, p: int)
    requires
        0 <= p <= s.len(),
    ensures
        p <= next_fence(s, p) <= s.len(),
        forall|i: int| p <= i < next_fence(s, p) ==> !fence_at(s, i),
        next_fence(s, p) < s.len() ==> fence_at(s, next_fence(s, p)),
        p < s.len() && !fence_at(s, p) ==> p < next_fence(s, p),
    decreases s.len() - p,
{
    if p + 3 <= s.len() && !fence_at(s, p) {
        lemma_next_fence(s, p + 1);
    }
}

/// The content of a named segment begins at least three characters behind
/// the place where its marker opens.
pub proof fn lemma_content_start_bounds(s: Seq<char>, p: int)
    requires
        fence_at(s, p),
    ensures
        p + 3 <= name_start(s, p) <= token_end(s, name_start(s, p)) <= content_start(s, p)
            <= s.len(),
{
    lemma_fence_end(s, p);
    lemma_token_end(s, name_start(s, p));
    lemma_fence_end(s, token_end(s, name_start(s, p)));
    lemma_padding_end(s, fence_end(s, token_end(s, name_start(s, p))));
}

/// `rest` with the blocks of `front` put before its own, where it has any.
pub open spec fn with_front(front: Seq<BlockView>, rest: Result<Seq<BlockView>, Fault>) -> Result<
    Seq<BlockView>,
    Fault,
> {
    match rest {
        Ok(blocks) => Ok(front + blocks),
        Err(fault) => Err(fault),
    }
}

/// Putting `front` before a prepended block is putting `front` with that
/// block at its end before the rest.
pub proof fn lemma_with_front_prepend(
    front: Seq<BlockView>,
    first: BlockView,
    rest: Result<Seq<BlockView>, Fault>,
)
    ensures
        with_front(front, prepend(first, rest)) == with_front(front.push(first), rest),
{
    if let Ok(blocks) = rest {
        assert(front + (seq![first] + blocks) =~= front.push(first) + blocks);
    }
}

/// Whether a fence stands at `p`.
pub fn is_fence_at(chars: &Vec<char>, p: usize) -> (r: bool)
    ensures
        r == fence_at(chars@, p as int),
{
    p <= chars.len() && chars.len() - p >= 3 && chars[p] == ':' && chars[p + 1] == ':' && chars[p
        + 2] == ':'
}

/// The end of the run of colons that begins at `p`.
pub fn skip_fences(chars: &Vec<char>, p: usize) -> (q: usize)
    ensures
        q == fence_end(chars@, p as int),
        p <= q,
        p <= chars.len() ==> q <= chars.len(),
{
    let mut q: usize = p;
    while q < chars.len() && chars[q] == ':'
        invariant
            p <= q,
            p <= chars.len() ==> q <= chars.len(),
            fence_end(chars@, p as int) == fence_end(chars@, q as int),
        decreases chars.len() - q,
    {
        q = q + 1;
    }
    q
}

/// The end of the name token that begins at `p`.
pub fn skip_token(chars: &Vec<char>, p: usize) -> (q: usize)
    ensures
        q == token_end(chars@, p as int),
        p <= q,
        p <= chars.len() ==> q <= chars.len(),
{
    let mut q: usize = p;
    while q < chars.len() && chars[q] != ':' && chars[q] != '\n'
        invariant
            p <= q,
            p <= chars.len() ==> q <= chars.len(),
            token_end(chars@, p as int) == token_end(chars@, q as int),
        decreases chars.len() - q,
    {
        q = q + 1;
    }
    q
}

/// The end of the run of padding that begins at `p`.
pub fn skip_padding(chars: &Vec<char>, p: usize) -> (q: usize)
    ensures
        q == padding_end(chars@, p as int),
        p <= q,
        p <= chars.len() ==> q <= chars.len(),
{
    let mut q: usize = p;
    while q < chars.len() && (chars[q] == ' ' || chars[q] == '\t' || chars[q] == '\n' || chars[q]
        == '\r')
        invariant
            p <= q,
            p <= chars.len() ==> q <= chars.len(),
            padding_end(chars@, p as int) == padding_end(chars@, q as int),
        decreases chars.len() - q,
    {
        q = q + 1;
    }
    q
}

/// The place of the first fence at or after `p`, or the length of the text
/// where there is none.
pub fn find_fence(chars: &Vec<char>, p: usize) -> (q: usize)
    ensures
        q == next_fence(chars@, p as int),
        q <= chars.len(),
        p <= chars.len() ==> p <= q,
{
    if p > chars.len() {
        return chars.len();
    }
    let mut q: usize = p;
    while chars.len() - q >= 3 && !is_fence_at(chars, q)
        invariant
            p <= q <= chars.len(),
            next_fence(chars@, p as int) == next_fence(chars@, q as int),
        decreases chars.len() - q,
    {
        q = q + 1;
    }
    if chars.len() - q >= 3 {
        q
    } else {
        chars.len()
    }
}

/// The name and the end of the opening marker at `p`: the bounds of the
/// name, which is the token behind the colons without the whitespace around
/// it, and the place where the content begins.
pub fn div_open(chars: &Vec<char>, p: usize) -> (r: ((usize, usize), usize))
    requires
        fence_at(chars@, p as int),
    ensures
        p + 3 <= r.0.0 <= r.0.1 <= r.1 <= chars.len(),
        chars@.subrange(r.0.0 as int, r.0.1 as int) == name_at(chars@, p as int),
        r.1 == content_start(chars@, p as int),
{
    let name_from = skip_fences(chars, p);
    let name_to = skip_token(chars, name_from);
    let name = trimmed_span(chars, name_from, name_to);
    let from = skip_padding(chars, skip_fences(chars, name_to));
    proof {
        lemma_fence_end(chars@, p as int);
    }
    (name, from)
}

/// The named segment that opens with the fence at `p`, as a block with the
/// place where the text behind it begins, or the error for its fault. `text`
/// holds the characters of `chars`.
pub fn named_div(chars: &Vec<char>, text: &str, p: usize) -> (r: Result<
    (LecticBlock, usize),
    ParseError,
>)
    requires
        text@ == chars@,
        fence_at(chars@, p as int),
    ensures
        match r {
            Ok((block, next)) => named_at(chars@, p as int) == Ok::<(BlockView, int), Fault>(
                (block@, next as int),
            ) && p < next <= chars.len(),
            Err(e) => named_at(chars@, p as int) matches Err(fault) && e@ == fault.error(),
        },
{
    let ((a, b), from) = div_open(chars, p);
    if a == b {
        return Err(
            ParseError::MalformedSegment {
                context: String::from_str("opening marker without a name"),
            },
        );
    }
    let to = find_fence(chars, from);
    if !is_fence_at(chars, to) {
        return Err(
            ParseError::MalformedSegment {
                context: String::from_str("named segment without a closing marker"),
            },
        );
    }
    let block = LecticBlock::InterlocBlock {
        name: String::from_str(text.substring_char(a, b)),
        content: String::from_str(text.substring_char(from, to)),
    };
    let next = skip_fences(chars, to);
    proof {
        lemma_fence_end(chars@, to as int);
    }
    Ok((block, next))
}

/// The plain segment that begins at `p`, as a block with the place where it
/// ends. `text` holds the characters of `chars`.
pub fn user_chunk(chars: &Vec<char>, text: &str, p: usize) -> (r: (LecticBlock, usize))
    requires
        text@ == chars@,
        p < chars.len(),
        !fence_at(chars@, p as int),
    ensures
        (r.0@, r.1 as int) == plain_at(chars@, p as int),
        p < r.1 <= chars.len(),
{
    let to = find_fence(chars, p);
    proof {
        lemma_next_fence(chars@, p as int);
    }
    (LecticBlock::UserBlock { content: String::from_str(text.substring_char(p, to)) }, to)
}

/// The segments of a body, one block for each, in the order of the text, or
/// the error for the first fault. `text` holds the characters of `chars`.
pub fn lectic_body(chars: &Vec<char>, text: &str) -> (r: Result<Vec<LecticBlock>, ParseError>)
    requires
        text@ == chars@,
    ensures
        match r {
            Ok(blocks) => segments(chars@, 0) == Ok::<Seq<BlockView>, Fault>(blocks_view(blocks@)),
            Err(e) => segments(chars@, 0) matches Err(fault) && e@ == fault.error(),
        },
{
    let ghost s = chars@;
    let mut out: Vec<LecticBlock> = Vec::new();
    let mut p: usize = 0;
    while p < chars.len()
        invariant
            p <= chars.len(),
            s == chars@,
            s == text@,
            segments(s, 0) == with_front(blocks_view(out@), segments(s, p as int)),
        decreases chars.len() - p,
    {
        let ghost before = blocks_view(out@);
        let (block, next) = if is_fence_at(chars, p) {
            match named_div(chars, text, p) {
                Ok(found) => found,
                Err(e) => { return Err(e); },
            }
        } else {
            user_chunk(chars, text, p)
        };
        proof {
            lemma_with_front_prepend(before, block@, segments(s, next as int));
            assert(blocks_view(out@.push(block)) =~= before.push(block@));
        }
        out.push(block);
        p = next;
    }
    proof {
        assert(blocks_view(out@) + Seq::<BlockView>::empty() =~= blocks_view(out@));
    }
    Ok(out)
}

} // verus!
