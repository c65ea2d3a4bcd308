//! Facts about the scanning functions of the body grammar: what determines
//! their values, and that they read a text from a place on without regard to
//! what stands before it.

use crate::segment::content_start;
use crate::segment::Fault;
use crate::segment::fence_at;
use crate::segment::fence_end;
use crate::segment::is_padding;
use crate::segment::lemma_content_start_bounds;
use crate::segment::lemma_fence_end;
use crate::segment::lemma_next_fence;
use crate::segment::lemma_padding_end;
use crate::segment::lemma_token_end;
use crate::segment::name_at;
use crate::segment::name_start;
use crate::segment::named_at;
use crate::segment::next_fence;
use crate::segment::padding_end;
use crate::segment::plain_at;
use crate::segment::prepend;
use crate::segment::segments;
use crate::segment::token_end;
use crate::segment::with_front;
use crate::types::BlockView;
use vstd::prelude::*;

verus! {

/// A run of colons from `p` to `q` that no colon follows ends at `q`.
pub proof fn lemma_fence_end_is(s: Seq<char>, p: int, q: int)
    requires
        0 <= p <= q <= s.len(),
        forall|i: int| p <= i < q ==> s[i] == ':',
        q < s.len() ==> s[q] != ':',
    ensures
        fence_end(s, p) == q,
    decreases q - p,
{
    if p < q {
        lemma_fence_end_is(s, p + 1, q);
    }
}

/// A stretch from `p` to `q` without colon or line break, which one of them
/// or the end of the text follows, is the name token at `p`.
pub proof fn lemma_token_end_is(s: Seq<char>, p: int, q: int)
    requires
        0 <= p <= q <= s.len(),
        forall|i: int| p <= i < q ==> s[i] != ':' && s[i] != '\n',
        q < s.len() ==> s[q] == ':' || s[q] == '\n',
    ensures
        token_end(s, p) == q,
    decreases q - p,
{
    if p < q {
        lemma_token_end_is(s, p + 1, q);
    }
}

/// A run of padding from `p` to `q` that no padding follows ends at `q`.
pub proof fn lemma_padding_end_is(s: Seq<char>, p: int, q: int)
    requires
        0 <= p <= q <= s.len(),
        forall|i: int| p <= i < q ==> is_padding(s[i]),
        q < s.len() ==> !is_padding(s[q]),
    ensures
        padding_end(s, p) == q,
    decreases q - p,
{
    if p < q {
        lemma_padding_end_is(s, p + 1, q);
    }
}

/// Where no fence stands from `p` up to `q`, and one stands at `q` or `q` is
/// the end of the text, the next fence from `p` is at `q`.
pub proof fn lemma_next_fence_is(s: Seq<char>, p: int, q: int)
    requires
        0 <= p <= q <= s.len(),
        forall|i: int| p <= i < q ==> !fence_at(s, i),
        fence_at(s, q) || q == s.len(),
    ensures
        next_fence(s, p) == q,
    decreases s.len() - p,
{
    if p + 3 > s.len() {
        if q < s.len() {
            assert(fence_at(s, q));
        }
    } else if p < q {
        lemma_next_fence_is(s, p + 1, q);
    } else {
        if q == s.len() {
        }
    }
}

/// A fence stands at a place of `t` exactly when it stands at that place
/// behind `a` in `a + t`.
pub proof fn lemma_fence_at_shift(a: Seq<char>, t: Seq<char>, p: int)
    requires
        0 <= p,
    ensures
        fence_at(a + t, a.len() + p) == fence_at(t, p),
{
    if p + 3 <= t.len() {
        assert((a + t)[a.len() + p] == t[p]);
        assert((a + t)[a.len() + p + 1] == t[p + 1]);
        assert((a + t)[a.len() + p + 2] == t[p + 2]);
    }
}

/// The run of colons at a place of `t` ends where it ends behind `a` in
/// `a + t`.
pub proof fn lemma_fence_end_shift(a: Seq<char>, t: Seq<char>, p: int)
    requires
        0 <= p <= t.len(),
    ensures
        fence_end(a + t, a.len() + p) == a.len() + fence_end(t, p),
    decreases t.len() - p,
{
    if p < t.len() {
        assert((a + t)[a.len() + p] == t[p]);
        if t[p] == ':' {
            lemma_fence_end_shift(a, t, p + 1);
        }
    }
}

/// The name token at a place of `t` ends where it ends behind `a` in
/// `a + t`.
pub proof fn lemma_token_end_shift(a: Seq<char>, t: Seq<char>, p: int)
    requires
        0 <= p <= t.len(),
    ensures
        token_end(a + t, a.len() + p) == a.len() + token_end(t, p),
    decreases t.len() - p,
{
    if p < t.len() {
        assert((a + t)[a.len() + p] == t[p]);
        if t[p] != ':' && t[p] != '\n' {
            lemma_token_end_shift(a, t, p + 1);
        }
    }
}

/// The run of padding at a place of `t` ends where it ends behind `a` in
/// `a + t`.
pub proof fn lemma_padding_end_shift(a: Seq<char>, t: Seq<char>, p: int)
    requires
        0 <= p <= t.len(),
    ensures
        padding_end(a + t, a.len() + p) == a.len() + padding_end(t, p),
    decreases t.len() - p,
{
    if p < t.len() {
        assert((a + t)[a.len() + p] == t[p]);
        if is_padding(t[p]) {
            lemma_padding_end_shift(a, t, p + 1);
        }
    }
}

/// The next fence from a place of `t` is the next fence from that place
/// behind `a` in `a + t`.
pub proof fn lemma_next_fence_shift(a: Seq<char>, t: Seq<char>, p: int)
    requires
        0 <= p <= t.len(),
    ensures
        next_fence(a + t, a.len() + p) == a.len() + next_fence(t, p),
    decreases t.len() - p,
{
    if p + 3 <= t.len() {
        lemma_fence_at_shift(a, t, p);
        if !fence_at(t, p) {
            lemma_next_fence_shift(a, t, p + 1);
        }
    }
}

/// The segments of `t` from a place on are the segments of `a + t` from that
/// place behind `a` on.
pub proof fn lemma_segments_shift(a: Seq<char>, t: Seq<char>, p: int)
    requires
        0 <= p <= t.len(),
    ensures
        segments(a + t, a.len() + p) == segments(t, p),
    decreases t.len() - p,
{
    let s = a + t;
    let k = a.len() as int;
    if p < t.len() {
        lemma_fence_at_shift(a, t, p);
        if fence_at(t, p) {
            lemma_content_start_bounds(t, p);
            lemma_fence_end_shift(a, t, p);
            let n0 = name_start(t, p);
            lemma_token_end_shift(a, t, n0);
            let n1 = token_end(t, n0);
            lemma_fence_end_shift(a, t, n1);
            lemma_padding_end_shift(a, t, fence_end(t, n1));
            let from = content_start(t, p);
            assert(content_start(s, k + p) == k + from);
            assert(s.subrange(k + n0, k + n1) =~= t.subrange(n0, n1));
            assert(name_at(s, k + p) == name_at(t, p));
            lemma_next_fence_shift(a, t, from);
            lemma_next_fence(t, from);
            let to = next_fence(t, from);
            lemma_fence_at_shift(a, t, to);
            if name_at(t, p).len() != 0 && fence_at(t, to) {
                lemma_fence_end(t, to);
                lemma_fence_end_shift(a, t, to);
                assert(s.subrange(k + from, k + to) =~= t.subrange(from, to));
                lemma_segments_shift(a, t, fence_end(t, to));
            }
        } else {
            lemma_next_fence_shift(a, t, p);
            lemma_next_fence(t, p);
            let to = next_fence(t, p);
            assert(s.subrange(k + p, k + to) =~= t.subrange(p, to));
            lemma_segments_shift(a, t, to);
        }
    }
}

/// A fence that stands in `a` stands at the same place in `a + t`, and
/// where `a` does not end with a colon, no fence of `a + t` begins in `a`
/// that does not stand in `a`.
pub proof fn lemma_fence_at_extend(a: Seq<char>, t: Seq<char>, p: int)
    requires
        0 <= p < a.len(),
    ensures
        fence_at(a, p) ==> fence_at(a + t, p),
        a.last() != ':' && fence_at(a + t, p) ==> fence_at(a, p),
{
    let s = a + t;
    if fence_at(a, p) {
        assert(s[p] == a[p] && s[p + 1] == a[p + 1] && s[p + 2] == a[p + 2]);
    }
    if a.last() != ':' && fence_at(s, p) {
        if p + 3 <= a.len() {
            assert(s[p] == a[p] && s[p + 1] == a[p + 1] && s[p + 2] == a[p + 2]);
        } else {
            assert(s[a.len() - 1] == a.last());
        }
    }
}

/// A run of colons that ends within `a` ends at the same place in `a + t`.
pub proof fn lemma_fence_end_extend(a: Seq<char>, t: Seq<char>, p: int)
    requires
        0 <= p <= a.len(),
        fence_end(a, p) < a.len(),
    ensures
        fence_end(a + t, p) == fence_end(a, p),
{
    lemma_fence_end(a, p);
    let q = fence_end(a, p);
    assert(forall|i: int| p <= i <= q ==> (a + t)[i] == a[i]);
    lemma_fence_end_is(a + t, p, q);
}

/// A name token that ends within `a` ends at the same place in `a + t`.
pub proof fn lemma_token_end_extend(a: Seq<char>, t: Seq<char>, p: int)
    requires
        0 <= p <= a.len(),
        token_end(a, p) < a.len(),
    ensures
        token_end(a + t, p) == token_end(a, p),
{
    lemma_token_end(a, p);
    let q = token_end(a, p);
    assert(forall|i: int| p <= i <= q ==> (a + t)[i] == a[i]);
    lemma_token_end_is(a + t, p, q);
}

/// A run of padding that ends within `a` ends at the same place in `a + t`.
pub proof fn lemma_padding_end_extend(a: Seq<char>, t: Seq<char>, p: int)
    requires
        0 <= p <= a.len(),
        padding_end(a, p) < a.len(),
    ensures
        padding_end(a + t, p) == padding_end(a, p),
{
    lemma_padding_end(a, p);
    let q = padding_end(a, p);
    assert(forall|i: int| p <= i <= q ==> (a + t)[i] == a[i]);
    lemma_padding_end_is(a + t, p, q);
}

/// Where `a` does not end with a colon and `t` begins with a fence, the
/// next fence of `a + t` from a place in `a` is the next fence of `a` from
/// there, or the fence at the head of `t` where `a` has none.
pub proof fn lemma_next_fence_extend(a: Seq<char>, t: Seq<char>, p: int)
    requires
        0 <= p <= a.len(),
        a.len() > 0 ==> a.last() != ':',
        fence_at(t, 0),
    ensures
        next_fence(a + t, p) == next_fence(a, p),
{
    lemma_next_fence(a, p);
    let q = next_fence(a, p);
    assert forall|i: int| p <= i < q implies !fence_at(a + t, i) by {
        lemma_fence_at_extend(a, t, i);
    }
    if q < a.len() {
        lemma_fence_at_extend(a, t, q);
    } else {
        lemma_fence_at_shift(a, t, 0);
    }
    lemma_next_fence_is(a + t, p, q);
}

/// Where `a` reads as blocks and does not end with a colon, and `t` begins
/// with a fence, `a + t` reads as the blocks of `a` followed by what `t`
/// reads as: text before an opening marker is read on its own.
pub proof fn lemma_segments_extend(a: Seq<char>, t: Seq<char>, p: int)
    requires
        0 <= p <= a.len(),
        segments(a, p) is Ok,
        a.len() > 0 ==> a.last() != ':',
        fence_at(t, 0),
    ensures
        segments(a + t, p) == with_front(segments(a, p)->Ok_0, segments(t, 0)),
    decreases a.len() - p,
{
    let s = a + t;
    if p == a.len() {
        lemma_segments_shift(a, t, 0);
        match segments(t, 0) {
            Ok(blocks) => {
                assert(Seq::<BlockView>::empty() + blocks =~= blocks);
            },
            Err(_) => {},
        }
    } else {
        lemma_fence_at_extend(a, t, p);
        if fence_at(a, p) {
            lemma_content_start_bounds(a, p);
            let n0 = name_start(a, p);
            let n1 = token_end(a, n0);
            let n2 = fence_end(a, n1);
            let from = content_start(a, p);
            let to = next_fence(a, from);
            lemma_next_fence(a, from);
            lemma_fence_end(a, to);
            let next = fence_end(a, to);
            if next == a.len() {
                assert(a[next - 1] == ':');
            }
            lemma_fence_end_extend(a, t, p);
            lemma_token_end_extend(a, t, n0);
            lemma_fence_end_extend(a, t, n1);
            lemma_padding_end_extend(a, t, n2);
            lemma_next_fence_extend(a, t, from);
            lemma_fence_at_extend(a, t, to);
            lemma_fence_end_extend(a, t, to);
            assert(s.subrange(n0, n1) =~= a.subrange(n0, n1));
            assert(s.subrange(from, to) =~= a.subrange(from, to));
            assert(named_at(s, p) == named_at(a, p));
            lemma_segments_extend(a, t, next);
            lemma_front_of_prepend(named_at(a, p)->Ok_0.0, segments(a, next)->Ok_0, segments(t, 0));
        } else {
            lemma_next_fence(a, p);
            lemma_next_fence_extend(a, t, p);
            let to = next_fence(a, p);
            assert(s.subrange(p, to) =~= a.subrange(p, to));
            assert(plain_at(s, p) == plain_at(a, p));
            lemma_segments_extend(a, t, to);
            lemma_front_of_prepend(plain_at(a, p).0, segments(a, to)->Ok_0, segments(t, 0));
        }
    }
}

/// Putting a block before blocks and those before a rest is putting the
/// block before what the blocks and the rest give.
pub proof fn lemma_front_of_prepend(
    first: BlockView,
    blocks: Seq<BlockView>,
    rest: Result<Seq<BlockView>, Fault>,
)
    ensures
        with_front(seq![first] + blocks, rest) == prepend(first, with_front(blocks, rest)),
{
    if let Ok(more) = rest {
        assert((seq![first] + blocks) + more =~= seq![first] + (blocks + more));
    }
}

} // verus!
