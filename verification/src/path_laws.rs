//! What cutting and joining do to the components of a path.

use crate::path::components;
use crate::path::first_named;
use crate::path::is_absolute_text;
use crate::path::is_component;
use crate::path::is_dot_component;
use crate::path::joined;
use crate::path::lemma_segment_end_bounds;
use crate::path::lemma_spans_from_ordered;
use crate::path::lemma_spans_ordered;
use crate::path::parent_text;
use crate::path::segment_end;
use crate::path::spans;
use crate::path::spans_from;
use crate::path::stripped_prefix;
use crate::path::sub_path;
use crate::path::Dots;
use crate::path::FsPath;
use crate::path::DOT;
use crate::path::SEPARATOR;
use vstd::prelude::*;

verus! {

/// Spans moved by `d` positions.
spec fn shifted(s: Seq<(int, int)>, d: int) -> Seq<(int, int)> {
    s.map_values(|x: (int, int)| (x.0 + d, x.1 + d))
}

/// A segment does not reach over a separator behind it.
proof fn lemma_segment_end_before(p: Seq<u8>, i: int, b: int)
    requires
        0 <= i <= b <= p.len(),
        b == p.len() || p[b] == SEPARATOR,
    ensures
        i <= segment_end(p, i) <= b,
    decreases b - i,
{
    lemma_segment_end_bounds(p, i);
    if i < b && p[i] != SEPARATOR {
        lemma_segment_end_before(p, i + 1, b);
    }
}

/// A segment of a piece of a path, seen in the whole path.
proof fn lemma_segment_end_in_piece(p: Seq<u8>, a: int, b: int, i: int)
    requires
        0 <= a <= i <= b <= p.len(),
        b == p.len() || p[b] == SEPARATOR,
    ensures
        segment_end(p.subrange(a, b), i - a) + a == segment_end(p, i),
    decreases b - i,
{
    let s = p.subrange(a, b);
    if i < b {
        assert(s[i - a] == p[i]);
        if p[i] != SEPARATOR {
            lemma_segment_end_in_piece(p, a, b, i + 1);
        }
    }
}

/// The components of a piece `a..b` that ends where a segment ends, followed by those behind
/// the piece, are the components of the path from `a` on.
proof fn lemma_spans_of_piece(dots: Dots, p: Seq<u8>, a: int, b: int, i: int)
    requires
        0 <= a <= i,
        a <= b <= p.len(),
        i <= b + 1,
        b == p.len() || p[b] == SEPARATOR,
        i == a && i <= b ==> (is_component(dots, p, a, segment_end(p, a)) == is_component(
            dots,
            p.subrange(a, b),
            0,
            segment_end(p, a) - a,
        )),
    ensures
        spans_from(dots, p, i) == shifted(spans_from(dots, p.subrange(a, b), i - a), a)
            + spans_from(dots, p, b + 1),
    decreases b + 1 - i,
{
    let s = p.subrange(a, b);
    if i == b + 1 {
        assert(shifted(spans_from(dots, s, i - a), a) =~= Seq::empty());
        assert(spans_from(dots, p, i) =~= shifted(spans_from(dots, s, i - a), a)
            + spans_from(dots, p, b + 1));
    } else if i == b {
        assert(segment_end(p, i) == i);
        if i < p.len() {
            assert(spans_from(dots, p, i) == spans_from(dots, p, i + 1));
        } else {
            assert(spans_from(dots, p, i) =~= spans_from(dots, p, i + 1));
        }
        assert(shifted(spans_from(dots, s, i - a), a) =~= Seq::empty());
        assert(spans_from(dots, p, i) =~= shifted(spans_from(dots, s, i - a), a)
            + spans_from(dots, p, b + 1));
    } else {
        let end = segment_end(p, i);
        lemma_segment_end_before(p, i, b);
        lemma_segment_end_in_piece(p, a, b, i);
        assert(s[i - a] == p[i]);
        lemma_spans_of_piece(dots, p, a, b, end + 1);
        let rest = spans_from(dots, p, end + 1);
        let inner = spans_from(dots, s, end + 1 - a);
        assert(is_component(dots, p, i, end) == is_component(dots, s, i - a, end - a));
        if is_component(dots, p, i, end) {
            assert(spans_from(dots, s, i - a) == seq![(i - a, end - a)] + inner);
            assert(shifted(spans_from(dots, s, i - a), a) =~= seq![(i, end)] + shifted(inner, a));
            assert(spans_from(dots, p, i) =~= shifted(spans_from(dots, s, i - a), a)
                + spans_from(dots, p, b + 1));
        } else {
            assert(spans_from(dots, s, i - a) == inner);
        }
    }
}

/// From the start of a component on, a path has that component and those behind it.
proof fn lemma_spans_from_start(dots: Dots, p: Seq<u8>, i: int, k: int)
    requires
        0 <= i,
        0 <= k < spans_from(dots, p, i).len(),
    ensures
        ({
            let (start, end) = spans_from(dots, p, i)[k];
            &&& spans_from(dots, p, start) == spans_from(dots, p, i).skip(k)
            &&& spans_from(dots, p, end + 1) == spans_from(dots, p, i).skip(k + 1)
            &&& start < p.len()
            &&& segment_end(p, start) == end
            &&& is_component(dots, p, start, end)
        }),
    decreases p.len() + 1 - i,
{
    assert(i < p.len());
    let end = segment_end(p, i);
    lemma_segment_end_bounds(p, i);
    let rest = spans_from(dots, p, end + 1);
    if is_component(dots, p, i, end) {
        assert(spans_from(dots, p, i) == seq![(i, end)] + rest);
        if k == 0 {
            assert(spans_from(dots, p, i).skip(0) =~= spans_from(dots, p, i));
            assert(spans_from(dots, p, i).skip(1) =~= rest);
        } else {
            assert(spans_from(dots, p, i)[k] == rest[k - 1]);
            lemma_spans_from_start(dots, p, end + 1, k - 1);
            assert(spans_from(dots, p, i).skip(k) =~= rest.skip(k - 1));
            assert(spans_from(dots, p, i).skip(k + 1) =~= rest.skip(k));
        }
    } else {
        lemma_spans_from_start(dots, p, end + 1, k);
    }
}

/// The same for the components of a whole path that do not stand for the root.
proof fn lemma_spans_start(dots: Dots, p: Seq<u8>, k: int)
    requires
        0 <= k < spans(dots, p).len(),
        k > 0 || !is_absolute_text(p),
    ensures
        ({
            let (start, end) = spans(dots, p)[k];
            &&& spans_from(dots, p, start) == spans(dots, p).skip(k)
            &&& spans_from(dots, p, end + 1) == spans(dots, p).skip(k + 1)
            &&& 0 <= start < p.len()
            &&& segment_end(p, start) == end
            &&& is_component(dots, p, start, end)
            &&& p[start] != SEPARATOR
            &&& end == p.len() || p[end] == SEPARATOR
            &&& k > 0 ==> start > 0
            &&& k == 0 ==> start == 0
        }),
{
    lemma_spans_ordered(dots, p);
    if is_absolute_text(p) {
        let rest = spans_from(dots, p, 1);
        assert(spans(dots, p)[k] == rest[k - 1]);
        lemma_spans_from_start(dots, p, 1, k - 1);
        lemma_spans_from_ordered(dots, p, 1);
        assert(spans(dots, p).skip(k) =~= rest.skip(k - 1));
        assert(spans(dots, p).skip(k + 1) =~= rest.skip(k));
    } else {
        lemma_spans_from_start(dots, p, 0, k);
        if k > 0 {
            assert(spans(dots, p)[0].1 <= spans(dots, p)[k].0);
        } else {
            lemma_segment_end_bounds(p, 0);
            let end = segment_end(p, 0);
            assert(p[0] != SEPARATOR);
            assert(segment_end(p, 1) == end);
            lemma_segment_end_bounds(p, 1);
            assert(is_component(dots, p, 0, end));
        }
    }
    lemma_segment_end_stops(p, spans(dots, p)[k].0);
}

/// A segment ends at a separator or at the end of the path.
pub proof fn lemma_segment_end_stops(p: Seq<u8>, i: int)
    requires
        0 <= i <= p.len(),
    ensures
        segment_end(p, i) == p.len() || p[segment_end(p, i)] == SEPARATOR,
    decreases p.len() - i,
{
    if i < p.len() && p[i] != SEPARATOR {
        lemma_segment_end_stops(p, i + 1);
    }
}

/// Cutting out components `lo..hi` of a path gives a path with exactly these components.
pub proof fn law_sub_path_components(dots: Dots, p: Seq<u8>, lo: int, hi: int)
    requires
        0 <= lo <= hi <= spans(dots, p).len(),
    ensures
        components(dots, sub_path(dots, p, lo, hi)) == components(dots, p).subrange(lo, hi),
{
    let s = sub_path(dots, p, lo, hi);
    if lo == hi {
        assert(components(dots, s) =~= components(dots, p).subrange(lo, hi));
    } else {
        lemma_spans_ordered(dots, p);
        let a = spans(dots, p)[lo].0;
        let b = spans(dots, p)[hi - 1].1;
        let piece = spans(dots, p).subrange(lo, hi);
        assert(s == p.subrange(a, b));
        if lo == 0 && is_absolute_text(p) {
            if hi == 1 {
                assert(spans_from(dots, s, 1) =~= Seq::empty());
                assert(shifted(spans(dots, s), a) =~= piece);
            } else {
                lemma_spans_start(dots, p, hi - 1);
                assert(spans(dots, p)[0].1 <= spans(dots, p)[hi - 1].0);
                lemma_spans_of_piece(dots, p, 0, b, 1);
                let inner = shifted(spans_from(dots, s, 1), 0);
                let tail = spans(dots, p).skip(hi);
                assert(spans_from(dots, p, 1) == inner + tail);
                assert(spans(dots, p) =~= seq![(0int, 1int)] + inner + tail);
                assert(piece =~= seq![(0int, 1int)] + inner);
                assert(shifted(spans(dots, s), a) =~= piece);
            }
        } else {
            lemma_spans_start(dots, p, lo);
            lemma_spans_start(dots, p, hi - 1);
            if lo < hi - 1 {
                assert(spans(dots, p)[lo].1 <= spans(dots, p)[hi - 1].0);
            }
            assert(s[0] == p[a]);
            let end = segment_end(p, a);
            lemma_segment_end_before(p, a, b);
            lemma_spans_of_piece(dots, p, a, b, a);
            let inner = shifted(spans_from(dots, s, 0), a);
            let tail = spans(dots, p).skip(hi);
            assert(spans(dots, p).skip(lo) == inner + tail);
            assert(piece =~= inner) by {
                assert(inner.len() + tail.len() == spans(dots, p).len() - lo);
                assert forall|k: int| 0 <= k < piece.len() implies piece[k] == inner[k] by {
                    assert(piece[k] == spans(dots, p).skip(lo)[k]);
                }
            }
        }
        assert(shifted(spans(dots, s), a) == piece);
        lemma_spans_ordered(dots, s);
        assert forall|k: int| 0 <= k < piece.len() implies components(dots, s)[k] == components(
            dots,
            p,
        ).subrange(lo, hi)[k] by {
            let x = spans(dots, s)[k];
            assert(shifted(spans(dots, s), a)[k] == (x.0 + a, x.1 + a));
            assert(spans(dots, p)[lo + k] == piece[k]);
            assert(s.subrange(x.0, x.1) =~= p.subrange(x.0 + a, x.1 + a));
        }
        assert(components(dots, s) =~= components(dots, p).subrange(lo, hi));
    }
}

/// The parent of a path has all components of the path but the last, and is shorter.
pub proof fn law_parent_components(dots: Dots, p: Seq<u8>)
    ensures
        parent_text(dots, p) matches Some(q) ==> components(dots, q) == components(
            dots,
            p,
        ).drop_last() && q.len()
            < p.len(),
{
    if parent_text(dots, p) is Some {
        let n = spans(dots, p).len() as int;
        law_sub_path_components(dots, p, 0, n - 1);
        lemma_spans_ordered(dots, p);
        assert(components(dots, p).subrange(0, n - 1) =~= components(dots, p).drop_last());
        assert(spans(dots, p)[n - 1].0 < p.len());
        if n > 1 {
            assert(spans(dots, p)[n - 2].1 <= spans(dots, p)[n - 1].0);
        }
    }
}

/// A prefix and what is left behind it have together the components of the path.
pub proof fn law_strip_prefix_components(dots: Dots, p: Seq<u8>, base: Seq<u8>)
    ensures
        stripped_prefix(dots, p, base) matches Some(rest) ==> components(dots, base)
            + components(dots, rest)
            == components(dots, p),
{
    if components(dots, base).is_prefix_of(components(dots, p)) {
        let n = components(dots, p).len() as int;
        let k = components(dots, base).len() as int;
        law_sub_path_components(dots, p, k, n);
        assert(components(dots, base) + components(dots, p).subrange(k, n) =~= components(dots, p));
    }
}

/// A path that is not empty has a component.
pub proof fn lemma_not_empty_has_component(dots: Dots, p: Seq<u8>)
    requires
        p.len() > 0,
    ensures
        components(dots, p).len() > 0,
{
    if !is_absolute_text(p) {
        lemma_segment_end_bounds(p, 1);
        assert(segment_end(p, 0) == segment_end(p, 1));
        assert(is_component(dots, p, 0, segment_end(p, 0)));
    }
}

proof fn lemma_whole_segment(p: Seq<u8>, i: int)
    requires
        0 <= i <= p.len(),
        forall|k: int| 0 <= k < p.len() ==> #[trigger] p[k] != SEPARATOR,
    ensures
        segment_end(p, i) == p.len(),
    decreases p.len() - i,
{
    if i < p.len() {
        lemma_whole_segment(p, i + 1);
    }
}

/// The first component of a relative path is its start.
pub proof fn lemma_first_component(dots: Dots, p: Seq<u8>)
    requires
        p.len() > 0,
        !is_absolute_text(p),
    ensures
        components(dots, p).len() > 0,
        components(dots, p)[0] == p.take(components(dots, p)[0].len() as int),
{
    lemma_not_empty_has_component(dots, p);
    assert(spans(dots, p).len() == components(dots, p).len());
    lemma_spans_start(dots, p, 0);
    lemma_spans_ordered(dots, p);
    let x = spans(dots, p)[0];
    assert(components(dots, p)[0] == p.subrange(x.0, x.1));
    assert(p.subrange(0, x.1) =~= p.take(x.1));
}

/// A text without separators is one component.
pub proof fn law_one_component(dots: Dots, p: Seq<u8>)
    requires
        p.len() > 0,
        forall|k: int| 0 <= k < p.len() ==> #[trigger] p[k] != SEPARATOR,
    ensures
        components(dots, p) == seq![p],
        !is_absolute_text(p),
{
    lemma_whole_segment(p, 0);
    assert(p[0] != SEPARATOR);
    assert(is_component(dots, p, 0, p.len() as int));
    assert(spans_from(dots, p, p.len() as int + 1) =~= Seq::empty());
    assert(spans(dots, p) =~= seq![(0int, p.len() as int)]);
    assert(p.subrange(0, p.len() as int) =~= p);
    assert(components(dots, p) =~= seq![p]);
}

proof fn lemma_segment_has_no_separator(p: Seq<u8>, i: int, k: int)
    requires
        0 <= i <= k < segment_end(p, i),
    ensures
        k < p.len(),
        p[k] != SEPARATOR,
    decreases k - i,
{
    if i < k {
        lemma_segment_has_no_separator(p, i + 1, k);
    }
}

/// A component that does not stand for the root is not empty and holds no separator.
pub proof fn law_component_has_no_separator(dots: Dots, p: Seq<u8>, k: int)
    requires
        0 <= k < components(dots, p).len(),
        k > 0 || !is_absolute_text(p),
    ensures
        components(dots, p)[k].len() > 0,
        forall|i: int|
            0 <= i < components(dots, p)[k].len() ==> #[trigger] components(dots, p)[k][i]
                != SEPARATOR,
{
    lemma_spans_ordered(dots, p);
    lemma_spans_start(dots, p, k);
    let (start, end) = spans(dots, p)[k];
    let c = components(dots, p)[k];
    assert(c == p.subrange(start, end));
    assert forall|i: int| 0 <= i < c.len() implies #[trigger] c[i] != SEPARATOR by {
        lemma_segment_has_no_separator(p, start, start + i);
    }
}

/// Where no component is a `.`, it does not matter what such a segment would be.
pub proof fn law_dots_do_not_matter(p: Seq<u8>)
    requires
        forall|k: int|
            0 <= k < components(Dots::Keep, p).len() ==> #[trigger] components(Dots::Keep, p)[k]
                != seq![DOT],
    ensures
        components(Dots::Skip, p) == components(Dots::Keep, p),
{
    lemma_spans_ordered(Dots::Keep, p);
    let first: int = if is_absolute_text(p) {
        1
    } else {
        0
    };
    assert forall|k: int| 0 <= k < spans_from(Dots::Keep, p, first).len() implies p.subrange(
        (#[trigger] spans_from(Dots::Keep, p, first)[k]).0,
        spans_from(Dots::Keep, p, first)[k].1,
    ) != seq![DOT] by {
        assert(spans(Dots::Keep, p)[k + first] == spans_from(Dots::Keep, p, first)[k]);
        assert(components(Dots::Keep, p)[k + first] != seq![DOT]);
    }
    lemma_dots_do_not_matter(p, first);
    assert(components(Dots::Skip, p) =~= components(Dots::Keep, p));
}

proof fn lemma_dots_do_not_matter(p: Seq<u8>, i: int)
    requires
        0 <= i,
        forall|k: int|
            0 <= k < spans_from(Dots::Keep, p, i).len() ==> p.subrange(
                (#[trigger] spans_from(Dots::Keep, p, i)[k]).0,
                spans_from(Dots::Keep, p, i)[k].1,
            ) != seq![DOT],
    ensures
        spans_from(Dots::Skip, p, i) == spans_from(Dots::Keep, p, i),
    decreases p.len() + 1 - i,
{
    if i < p.len() {
        let end = segment_end(p, i);
        let all = spans_from(Dots::Keep, p, i);
        let rest = spans_from(Dots::Keep, p, end + 1);
        lemma_segment_end_bounds(p, i);
        if is_component(Dots::Keep, p, i, end) {
            assert(all == seq![(i, end)] + rest);
            assert(all[0] == (i, end));
            if end == i + 1 && p[i] == DOT {
                assert(p.subrange(i, end) =~= seq![DOT]);
            }
            assert forall|k: int| 0 <= k < rest.len() implies p.subrange(
                (#[trigger] rest[k]).0,
                rest[k].1,
            ) != seq![DOT] by {
                assert(all[k + 1] == rest[k]);
            }
        }
        lemma_dots_do_not_matter(p, end + 1);
    }
}

/// Where the components of a joined path stand: those of the base where they stood, those of the
/// relative path behind them.
proof fn lemma_join_spans(dots: Dots, base: Seq<u8>, tail: Seq<u8>)
    requires
        base.len() > 0,
        !is_absolute_text(tail),
        dots == Dots::Keep || components(dots, tail).len() == 0 || components(dots, tail)[0]
            != seq![DOT],
    ensures
        spans(dots, joined(base, tail)) == spans(dots, base) + shifted(
            spans(dots, tail),
            joined(base, tail).len() - tail.len(),
        ),
{
    let j = joined(base, tail);
    let m: int = if base.last() == SEPARATOR { base.len() - 1 } else { base.len() as int };
    let t = m + 1;
    let n = j.len() as int;
    assert(j[m] == SEPARATOR);
    assert(j.subrange(t, n) =~= tail);
    assert(j.subrange(0, m) =~= base.subrange(0, m));
    let front = base.subrange(0, m);
    // the components behind the separator
    if t < n {
        lemma_segment_end_in_piece(j, t, n, t);
        lemma_segment_end_before(j, t, n);
        let end = segment_end(tail, 0);
        assert(tail[0] == j[t]);
        if end == 1 && tail[0] == DOT {
            assert(spans(dots, tail)[0] == (0int, 1int));
            assert(components(dots, tail)[0] =~= seq![DOT]);
        }
    } else {
        assert(segment_end(j, t) == t);
    }
    lemma_spans_of_piece(dots, j, t, n, t);
    let back = shifted(spans(dots, tail), t);
    assert(spans_from(dots, j, t) =~= back);
    // the components before it
    assert(spans(dots, j) =~= spans(dots, base) + back) by {
        let i: int = if is_absolute_text(base) { 1 } else { 0 };
        assert(is_absolute_text(j) == is_absolute_text(base));
        if m == 0 {
            assert(spans_from(dots, base, 1) =~= Seq::empty());
        } else {
            if i == 0 {
                lemma_segment_end_before(j, 0, m);
                if base.last() == SEPARATOR {
                    lemma_segment_end_before(base, 0, m);
                }
            }
            lemma_spans_of_piece(dots, j, 0, m, i);
            let f = shifted(spans_from(dots, front, i), 0);
            assert(spans_from(dots, j, i) == f + back);
            if base.last() == SEPARATOR {
                lemma_spans_of_piece(dots, base, 0, m, i);
                assert(spans_from(dots, base, i) =~= f);
            } else {
                assert(front =~= base);
                assert(f =~= spans_from(dots, base, i));
            }
        }
    }
}

/// Joining a relative path behind a base gives the components of both, in this order; only a
/// leading `.` of the relative path is not a component behind a base.
pub proof fn law_join_components(dots: Dots, base: Seq<u8>, tail: Seq<u8>)
    requires
        !is_absolute_text(tail),
        dots == Dots::Keep || base.len() == 0 || components(dots, tail).len() == 0 || components(
            dots,
            tail,
        )[0] != seq![DOT],
    ensures
        components(dots, joined(base, tail)) == components(dots, base) + components(dots, tail),
{
    let j = joined(base, tail);
    if base.len() == 0 {
        assert(j =~= tail);
        assert(components(dots, base) =~= Seq::empty());
        assert(components(dots, j) =~= components(dots, base) + components(dots, tail));
    } else {
        let t = j.len() - tail.len();
        lemma_join_spans(dots, base, tail);
        lemma_spans_ordered(dots, base);
        lemma_spans_ordered(dots, tail);
        let nb = spans(dots, base).len() as int;
        assert forall|k: int|
            0 <= k < spans(dots, j).len() implies components(dots, j)[k] == (components(dots, base)
            + components(dots, tail))[k] by {
            if k < nb {
                let x = spans(dots, base)[k];
                assert(spans(dots, j)[k] == x);
                assert(j.subrange(x.0, x.1) =~= base.subrange(x.0, x.1));
            } else {
                let x = spans(dots, tail)[k - nb];
                assert(spans(dots, j)[k] == (x.0 + t, x.1 + t));
                assert(j.subrange(x.0 + t, x.1 + t) =~= tail.subrange(x.0, x.1));
            }
        }
        assert(components(dots, j) =~= components(dots, base) + components(dots, tail));
    }
}

/// Whether a path ends with a component: neither with a separator nor with an insignificant `.`.
pub open spec fn ends_with_component(dots: Dots, p: Seq<u8>) -> bool {
    &&& p.len() > 0
    &&& p.last() != 47
    &&& dots == Dots::Skip ==> p.len() == 1 || p.last() != 46 || p[p.len() - 2] != 47
}

proof fn lemma_last_span(dots: Dots, p: Seq<u8>, i: int)
    requires
        ends_with_component(dots, p),
        0 <= i < p.len(),
        i == 0 || p[i - 1] == SEPARATOR,
    ensures
        spans_from(dots, p, i).len() > 0,
        spans_from(dots, p, i).last().1 == p.len(),
    decreases p.len() - i,
{
    let end = segment_end(p, i);
    lemma_segment_end_bounds(p, i);
    lemma_segment_end_stops(p, i);
    if end == p.len() {
        assert(is_component(dots, p, i, end));
        assert(spans_from(dots, p, end + 1) =~= Seq::empty());
    } else {
        lemma_last_span(dots, p, end + 1);
        let rest = spans_from(dots, p, end + 1);
        if is_component(dots, p, i, end) {
            assert(spans_from(dots, p, i) == seq![(i, end)] + rest);
            assert(spans_from(dots, p, i).last() == rest.last());
        }
    }
}

/// A path that ends with a component ends where its last component ends.
proof fn lemma_ends_with_component(dots: Dots, p: Seq<u8>)
    requires
        ends_with_component(dots, p),
    ensures
        spans(dots, p).len() > 0,
        spans(dots, p).last().1 == p.len(),
{
    if is_absolute_text(p) {
        lemma_last_span(dots, p, 1);
        assert(spans(dots, p).last() == spans_from(dots, p, 1).last());
    } else {
        lemma_last_span(dots, p, 0);
    }
}

/// How a path is joined, byte by byte: a path from the root stays as it is, any other follows the
/// base behind one separator, unless the base is empty or ends in one.
pub proof fn law_join(base: &FsPath, tail: &FsPath, r: FsPath)
    requires
        call_ensures(FsPath::join, (base, tail), r),
    ensures
        tail@.len() > 0 && tail@[0] == 47 ==> r@ == tail@,
        !(tail@.len() > 0 && tail@[0] == 47) ==> {
            &&& base@.len() == 0 ==> r@ == tail@
            &&& base@.len() > 0 && base@.last() == 47 ==> r@ == base@ + tail@
            &&& base@.len() > 0 && base@.last() != 47 ==> r@ == base@ + seq![47u8] + tail@
        },
{
    assert(base@.push(47u8) =~= base@ + seq![47u8]);
    if base@.len() == 0 {
        assert(base@ + tail@ =~= tail@);
    }
}

/// Only the root and a path without components have no parent.
pub proof fn law_no_parent(p: &FsPath, dots: Dots, r: Option<FsPath>)
    requires
        call_ensures(FsPath::parent, (p, dots), r),
    ensures
        r is None <==> components(dots, p@).len() == 0 || components(dots, p@) == seq![seq![47u8]],
        p@.len() == 0 ==> r is None,
        r matches Some(q) ==> {
            &&& components(dots, q@) == components(dots, p@).drop_last()
            &&& q@.len() < p@.len()
        },
{
    law_parent_components(dots, p@);
    let c = components(dots, p@);
    assert(c.len() == spans(dots, p@).len());
    if is_absolute_text(p@) {
        assert(c[0] == p@.subrange(0, 1));
        assert(p@.subrange(0, 1) =~= seq![47u8]);
        if c.len() == 1 {
            assert(c =~= seq![seq![47u8]]);
        }
    } else if c.len() > 0 {
        law_component_has_no_separator(dots, p@, 0);
        if c == seq![seq![47u8]] {
            assert(c[0] == seq![47u8]);
            assert(c[0][0] == 47);
        }
    }
}

/// The parent of a name in a directory is the directory.
pub proof fn law_parent_of_join(
    base: &FsPath,
    name: &FsPath,
    j: FsPath,
    dots: Dots,
    r: Option<FsPath>,
)
    requires
        name@.len() > 0,
        forall|k: int| 0 <= k < name@.len() ==> #[trigger] name@[k] != 47,
        dots == Dots::Keep || name@ != seq![46u8],
        call_ensures(FsPath::join, (base, name), j),
        call_ensures(FsPath::parent, (&j, dots), r),
    ensures
        r is Some,
        components(dots, r->0@) == components(dots, base@),
        ends_with_component(dots, base@) || base@ == seq![47u8] || base@.len() == 0 ==> r->0@
            == base@,
{
    law_one_component(dots, name@);
    law_join_components(dots, base@, name@);
    law_parent_components(dots, j@);
    let c = components(dots, j@);
    assert(c == components(dots, base@) + seq![name@]);
    assert(c.drop_last() =~= components(dots, base@));
    assert(c.len() == spans(dots, j@).len());
    if base@.len() == 0 {
        assert(components(dots, base@) =~= Seq::empty());
        assert(c.len() == 1);
        assert(!is_absolute_text(j@));
        assert(r->0@ =~= base@);
    } else {
        lemma_join_spans(dots, base@, name@);
        let nb = spans(dots, base@).len() as int;
        lemma_not_empty_has_component(dots, base@);
        assert(nb == components(dots, base@).len());
        assert(spans(dots, j@).len() == nb + 1);
        if ends_with_component(dots, base@) || base@ == seq![47u8] {
            if base@ == seq![47u8] {
                assert(spans_from(dots, base@, 1) =~= Seq::empty());
                assert(spans(dots, base@) =~= seq![(0int, 1int)]);
            } else {
                lemma_ends_with_component(dots, base@);
            }
            assert(spans(dots, j@)[nb - 1] == spans(dots, base@)[nb - 1]);
            assert(spans(dots, j@)[0] == spans(dots, base@)[0]);
            assert(spans(dots, base@)[0].0 == 0) by {
                if !is_absolute_text(base@) {
                    lemma_spans_start(dots, base@, 0);
                }
            }
            assert(r->0@ == j@.subrange(0, base@.len() as int));
            assert(r->0@ =~= base@);
        }
    }
}

/// What is left of a joined path behind its base is what was joined.
pub proof fn law_strip_of_join(
    base: &FsPath,
    tail: &FsPath,
    j: FsPath,
    dots: Dots,
    r: Option<FsPath>,
)
    requires
        base@.len() > 0,
        ends_with_component(dots, tail@),
        tail@[0] != 47,
        dots == Dots::Keep || components(dots, tail@)[0] != seq![46u8],
        call_ensures(FsPath::join, (base, tail), j),
        call_ensures(FsPath::strip_prefix, (&j, base, dots), r),
    ensures
        r matches Some(rest) && rest@ == tail@,
{
    law_join_components(dots, base@, tail@);
    lemma_join_spans(dots, base@, tail@);
    lemma_ends_with_component(dots, tail@);
    lemma_spans_start(dots, tail@, 0);
    let c = components(dots, j@);
    let nb = components(dots, base@).len() as int;
    let n = c.len() as int;
    let t = j@.len() - tail@.len();
    assert(components(dots, base@) =~= c.subrange(0, nb));
    assert(nb == spans(dots, base@).len());
    assert(n == spans(dots, j@).len());
    assert(spans(dots, j@)[nb] == (spans(dots, tail@)[0].0 + t, spans(dots, tail@)[0].1 + t));
    assert(spans(dots, j@)[n - 1] == (
        spans(dots, tail@).last().0 + t,
        spans(dots, tail@).last().1 + t,
    ));
    assert(j@.subrange(t, j@.len() as int) =~= tail@);
}

/// A path starts with a base exactly where it has the components of the base first; what is left
/// has the others.
pub proof fn law_strip_prefix(p: &FsPath, base: &FsPath, dots: Dots, r: Option<FsPath>)
    requires
        call_ensures(FsPath::strip_prefix, (p, base, dots), r),
    ensures
        r is Some <==> exists|rest: Seq<Seq<u8>>|
            components(dots, p@) == #[trigger] (components(dots, base@) + rest),
        r matches Some(q) ==> components(dots, p@) == components(dots, base@) + components(
            dots,
            q@,
        ),
{
    law_strip_prefix_components(dots, p@, base@);
    let b = components(dots, base@);
    let c = components(dots, p@);
    if r is Some {
        assert(c == b + components(dots, r->0@));
    }
    if exists|rest: Seq<Seq<u8>>| c == #[trigger] (b + rest) {
        let rest = choose|rest: Seq<Seq<u8>>| c == #[trigger] (b + rest);
        assert(b =~= c.subrange(0, b.len() as int));
    }
}

/// The empty path has no components, and the root is the first component of a path from the root.
/// An inner `.` is a component only where such segments are kept.
pub proof fn law_root_and_dots(dots: Dots, p: Seq<u8>)
    ensures
        components(dots, Seq::<u8>::empty()).len() == 0,
        components(dots, seq![47u8]) == seq![seq![47u8]],
        p.len() > 0 ==> components(Dots::Skip, joined(p, seq![46u8])) == components(
            Dots::Skip,
            p,
        ),
        components(Dots::Keep, joined(p, seq![46u8])) == components(Dots::Keep, p) + seq![
            seq![46u8],
        ],
{
    let root = seq![47u8];
    let dot = seq![46u8];
    assert(components(dots, Seq::<u8>::empty()) =~= Seq::empty());
    assert(spans_from(dots, root, 1) =~= Seq::empty());
    assert(spans(dots, root) =~= seq![(0int, 1int)]);
    assert(root.subrange(0, 1) =~= root);
    assert(components(dots, root) =~= seq![root]);
    law_one_component(Dots::Keep, dot);
    law_join_components(Dots::Keep, p, dot);
    if p.len() > 0 {
        let j = joined(p, dot);
        let n = j.len() as int;
        let t = n - 1;
        let m = t - 1;
        let front = joined(p, Seq::empty());
        assert(front + dot =~= j);
        assert(j[m] == SEPARATOR);
        assert(j.subrange(0, m) =~= front.subrange(0, m));
        assert(segment_end(j, t) == n) by {
            assert(j[t] == DOT);
            assert(segment_end(j, n) == n);
        }
        assert(spans_from(Dots::Skip, j, t) =~= Seq::empty()) by {
            assert(!is_component(Dots::Skip, j, t, n));
            assert(spans_from(Dots::Skip, j, n + 1) =~= Seq::empty());
        }
        law_join_components(Dots::Skip, p, Seq::empty());
        assert(components(Dots::Skip, Seq::<u8>::empty()) =~= Seq::empty());
        assert(components(Dots::Skip, front) =~= components(Dots::Skip, p));
        let i: int = if is_absolute_text(j) { 1 } else { 0 };
        if m == 0 {
            assert(front =~= root);
            assert(spans_from(Dots::Skip, front, 1) =~= Seq::empty());
            assert(spans(Dots::Skip, j) =~= spans(Dots::Skip, front));
        } else {
            if i == 0 {
                lemma_segment_end_before(j, 0, m);
                lemma_segment_end_before(front, 0, m);
            }
            lemma_spans_of_piece(Dots::Skip, j, 0, m, i);
            lemma_spans_of_piece(Dots::Skip, front, 0, m, i);
            assert(spans_from(Dots::Skip, front, t) =~= Seq::empty());
            assert(spans_from(Dots::Skip, j, i) =~= spans_from(Dots::Skip, front, i));
            assert(spans(Dots::Skip, j) =~= spans(Dots::Skip, front));
        }
        lemma_spans_ordered(Dots::Skip, front);
        assert forall|k: int| 0 <= k < spans(Dots::Skip, front).len() implies components(
            Dots::Skip,
            j,
        )[k] == components(Dots::Skip, front)[k] by {
            let x = spans(Dots::Skip, front)[k];
            assert(j.subrange(x.0, x.1) =~= front.subrange(x.0, x.1));
        }
        assert(components(Dots::Skip, j) =~= components(Dots::Skip, front));
    }
}

proof fn lemma_first_named(c: Seq<Seq<u8>>, i: int)
    requires
        0 <= i <= c.len(),
    ensures
        i <= first_named(c, i) <= c.len(),
        forall|k: int| i <= k < first_named(c, i) ==> is_dot_component(#[trigger] c[k]),
        first_named(c, i) < c.len() ==> !is_dot_component(c[first_named(c, i)]),
    decreases c.len() - i,
{
    if i < c.len() && is_dot_component(c[i]) {
        lemma_first_named(c, i + 1);
    }
}

/// What cutting the leading dots off leaves of a path that ends with a component is its end.
proof fn lemma_leading_dots_text(p: Seq<u8>, r: Seq<u8>)
    requires
        r == sub_path(
            Dots::Skip,
            p,
            first_named(components(Dots::Skip, p), 0),
            components(Dots::Skip, p).len() as int,
        ),
        ends_with_component(Dots::Skip, p),
    ensures
        r.len() <= p.len(),
        r == p.skip(p.len() - r.len()),
        components(Dots::Skip, p)[0] != seq![46u8] && components(Dots::Skip, p)[0] != seq![
            46u8,
            46u8,
        ] ==> r == p,
{
    let c = components(Dots::Skip, p);
    let k = first_named(c, 0);
    lemma_first_named(c, 0);
    lemma_spans_ordered(Dots::Skip, p);
    lemma_ends_with_component(Dots::Skip, p);
    assert(c.len() == spans(Dots::Skip, p).len());
    if k < c.len() {
        let start = spans(Dots::Skip, p)[k].0;
        assert(r == p.subrange(start, p.len() as int));
        assert(r =~= p.skip(p.len() - r.len()));
        if k == 0 {
            assert(start == 0) by {
                if !is_absolute_text(p) {
                    lemma_spans_start(Dots::Skip, p, 0);
                }
            }
            assert(r =~= p);
        }
    } else {
        assert(r =~= p.skip(p.len() as int));
        assert(is_dot_component(c[0]));
    }
}

/// What cutting the leading dots off leaves of the components.
pub proof fn lemma_leading_dots(p: Seq<u8>, r: Seq<u8>)
    requires
        r == sub_path(
            Dots::Skip,
            p,
            first_named(components(Dots::Skip, p), 0),
            components(Dots::Skip, p).len() as int,
        ),
    ensures
        exists|k: int|
            {
                &&& 0 <= k <= components(Dots::Skip, p).len()
                &&& forall|i: int|
                    0 <= i < k ==> #[trigger] components(Dots::Skip, p)[i] == seq![46u8]
                        || components(Dots::Skip, p)[i] == seq![46u8, 46u8]
                &&& k < components(Dots::Skip, p).len() ==> components(Dots::Skip, p)[k]
                    != seq![46u8] && components(Dots::Skip, p)[k] != seq![46u8, 46u8]
                &&& components(Dots::Skip, r) == #[trigger] components(Dots::Skip, p).skip(k)
            },
{
    let c = components(Dots::Skip, p);
    let k = first_named(c, 0);
    lemma_first_named(c, 0);
    assert(c.len() == spans(Dots::Skip, p).len());
    law_sub_path_components(Dots::Skip, p, k, c.len() as int);
    assert(c.subrange(k, c.len() as int) =~= c.skip(k));
    assert forall|i: int| 0 <= i < k implies #[trigger] c[i] == seq![46u8] || c[i] == seq![
        46u8,
        46u8,
    ] by {
        assert(is_dot_component(c[i]));
    }
}

/// Stripping takes the `.` and `..` at the start of a path away, all of them and nothing else.
pub proof fn law_leading_dots(p: &FsPath, r: FsPath)
    requires
        call_ensures(FsPath::without_leading_dots, (p,), r),
    ensures
        exists|k: int|
            {
                &&& 0 <= k <= components(Dots::Skip, p@).len()
                &&& forall|i: int|
                    0 <= i < k ==> #[trigger] components(Dots::Skip, p@)[i] == seq![46u8]
                        || components(Dots::Skip, p@)[i] == seq![46u8, 46u8]
                &&& k < components(Dots::Skip, p@).len() ==> components(Dots::Skip, p@)[k]
                    != seq![46u8] && components(Dots::Skip, p@)[k] != seq![46u8, 46u8]
                &&& components(Dots::Skip, r@) == #[trigger] components(Dots::Skip, p@).skip(k)
            },
        ends_with_component(Dots::Skip, p@) ==> {
            &&& r@.len() <= p@.len()
            &&& r@ == p@.skip(p@.len() - r@.len())
            &&& components(Dots::Skip, p@)[0] != seq![46u8] && components(Dots::Skip, p@)[0]
                != seq![46u8, 46u8] ==> r@ == p@
        },
{
    lemma_leading_dots(p@, r@);
    if ends_with_component(Dots::Skip, p@) {
        lemma_leading_dots_text(p@, r@);
    }
}

/// What is left behind a prefix that is not empty is a relative path, and does not start with
/// `.`.
pub proof fn law_strip_prefix_rest(dots: Dots, p: Seq<u8>, base: Seq<u8>)
    requires
        base.len() > 0,
    ensures
        stripped_prefix(dots, p, base) matches Some(rest) ==> !is_absolute_text(rest) && (dots
            == Dots::Keep || components(
            dots,
            rest,
        ).len() == 0 || components(dots, rest)[0] != seq![DOT]),
{
    if let Some(rest) = stripped_prefix(dots, p, base) {
        law_strip_prefix_components(dots, p, base);
        let k = components(dots, base).len() as int;
        let n = components(dots, p).len() as int;
        lemma_spans_ordered(dots, p);
        lemma_not_empty_has_component(dots, base);
        if k < n {
            lemma_spans_start(dots, p, k);
            assert(rest[0] == p[spans(dots, p)[k].0]);
            assert(components(dots, rest)[0] == components(dots, p)[k]);
            let x = spans(dots, p)[k];
            if components(dots, p)[k] == seq![DOT] {
                assert(p.subrange(x.0, x.1).len() == 1);
                assert(p.subrange(x.0, x.1)[0] == DOT);
            }
        }
    }
}

/// Joining a prefix with what is left behind it gives back the components of the path.
pub proof fn law_strip_prefix_rejoins(p: Seq<u8>, base: Seq<u8>)
    ensures
        stripped_prefix(Dots::Skip, p, base) matches Some(rest) ==> components(
            Dots::Skip,
            joined(base, rest),
        )
            == components(Dots::Skip, p),
{
    if let Some(rest) = stripped_prefix(Dots::Skip, p, base) {
        law_strip_prefix_components(Dots::Skip, p, base);
        if base.len() == 0 {
            assert(components(Dots::Skip, base) =~= Seq::empty());
            if is_absolute_text(rest) {
                assert(components(Dots::Skip, base) + components(Dots::Skip, rest) =~= components(
                    Dots::Skip,
                    rest,
                ));
            } else {
                law_join_components(Dots::Skip, base, rest);
            }
        } else {
            law_strip_prefix_rest(Dots::Skip, p, base);
            law_join_components(Dots::Skip, base, rest);
        }
    }
}

/// Whether every segment of `p` from position `i` on is a component: none is empty, and none is
/// a `.` behind the first position.
pub open spec fn plain_from(p: Seq<u8>, i: int) -> bool
    decreases p.len() + 1 - i,
    via plain_from_decreases
{
    let end = segment_end(p, i);
    i < p.len() && is_component(Dots::Skip, p, i, end) && (end == p.len() || plain_from(p, end + 1))
}

#[via_fn]
proof fn plain_from_decreases(p: Seq<u8>, i: int) {
    if i < p.len() {
        lemma_segment_end_bounds(p, i);
    }
}

/// Whether `p` is relative and written with its components and one separator between each two
/// of them, and with nothing else.
pub open spec fn is_plain(p: Seq<u8>) -> bool {
    plain_from(p, 0)
}

/// Some components with one separator between each two of them.
spec fn glued(c: Seq<Seq<u8>>) -> Seq<u8>
    decreases c.len(),
{
    if c.len() == 0 {
        Seq::empty()
    } else if c.len() == 1 {
        c[0]
    } else {
        c[0].push(SEPARATOR) + glued(c.skip(1))
    }
}

proof fn lemma_plain_is_glued(p: Seq<u8>, i: int)
    requires
        0 <= i,
        plain_from(p, i),
    ensures
        spans_from(Dots::Skip, p, i).len() > 0,
        p.subrange(i, p.len() as int) == glued(
            spans_from(Dots::Skip, p, i).map_values(|s: (int, int)| p.subrange(s.0, s.1)),
        ),
    decreases p.len() - i,
{
    let n = p.len() as int;
    let end = segment_end(p, i);
    let text = |s: (int, int)| p.subrange(s.0, s.1);
    lemma_segment_end_bounds(p, i);
    lemma_segment_end_stops(p, i);
    let c = spans_from(Dots::Skip, p, i).map_values(text);
    assert(c[0] == p.subrange(i, end));
    if end == n {
        assert(spans_from(Dots::Skip, p, end + 1) =~= Seq::empty());
        assert(c.len() == 1);
    } else {
        lemma_plain_is_glued(p, end + 1);
        assert(c.skip(1) =~= spans_from(Dots::Skip, p, end + 1).map_values(text));
        assert(p.subrange(i, n) =~= p.subrange(i, end).push(SEPARATOR) + p.subrange(end + 1, n));
    }
}

/// Two plain paths with the same components are the same path.
pub proof fn law_plain_paths(a: Seq<u8>, b: Seq<u8>)
    requires
        is_plain(a),
        is_plain(b),
        components(Dots::Skip, a) == components(Dots::Skip, b),
    ensures
        a == b,
{
    lemma_plain_is_glued(a, 0);
    lemma_plain_is_glued(b, 0);
    assert(!is_absolute_text(a));
    assert(!is_absolute_text(b));
    assert(a.subrange(0, a.len() as int) =~= a);
    assert(b.subrange(0, b.len() as int) =~= b);
}

} // verus!
