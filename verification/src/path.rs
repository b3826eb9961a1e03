//! POSIX paths as byte strings, with the component rules that file-system paths follow:
//! repeated separators and inner `.` segments are insignificant, a leading `.` is kept.

use crate::path_laws::law_parent_components;
use vstd::prelude::*;
use vstd::slice::slice_subrange;
use vstd::slice::slice_to_vec;
use vstd::string::StringSliceAdditionalSpecFns;

verus! {

/// The byte that separates path segments.
pub const SEPARATOR: u8 = 47;

/// The byte of a `.` segment.
pub const DOT: u8 = 46;

/// A POSIX path: any byte string, not necessarily UTF-8. Its view is that byte string.
#[derive(Debug)]
pub struct FsPath {
    bytes: Vec<u8>,
}

impl View for FsPath {
    type V = Seq<u8>;

    closed spec fn view(&self) -> Seq<u8> {
        self.bytes@
    }
}

/// The view of an optional path.
pub open spec fn opt_path(p: Option<FsPath>) -> Option<Seq<u8>> {
    match p {
        Some(q) => Some(q@),
        None => None,
    }
}

/// The view of an optional borrowed path.
pub open spec fn opt_path_ref(p: Option<&FsPath>) -> Option<Seq<u8>> {
    match p {
        Some(q) => Some(q@),
        None => None,
    }
}

/// A path is absolute when it starts at the root.
pub open spec fn is_absolute_text(p: Seq<u8>) -> bool {
    p.len() > 0 && p[0] == SEPARATOR
}

/// `tail` seen from `base`: an absolute `tail` replaces `base`, a relative one is appended
/// behind one separator, unless `base` is empty or already ends in a separator.
pub open spec fn joined(base: Seq<u8>, tail: Seq<u8>) -> Seq<u8> {
    if is_absolute_text(tail) {
        tail
    } else if base.len() == 0 || base.last() == SEPARATOR {
        base + tail
    } else {
        base.push(SEPARATOR) + tail
    }
}

/// The end of the segment of `p` that holds position `i`: the next separator, or the end of `p`.
pub open spec fn segment_end(p: Seq<u8>, i: int) -> int
    decreases p.len() - i,
{
    if i >= p.len() || p[i] == SEPARATOR {
        i
    } else {
        segment_end(p, i + 1)
    }
}

/// What a `.` segment behind the first position of a path is.
#[derive(Clone, Copy, Debug, PartialEq, Eq, Structural)]
pub enum Dots {
    /// It is insignificant.
    Skip,
    /// It is a component.
    Keep,
}

/// Whether the segment `start..end` of `p` is a component: it is not empty, and it is not an
/// insignificant `.`.
pub open spec fn is_component(dots: Dots, p: Seq<u8>, start: int, end: int) -> bool {
    start < end && (dots == Dots::Keep || !(start != 0 && end == start + 1 && p[start] == DOT))
}

/// The components among the segments of `p` from position `i` on, as (start, end) pairs.
pub open spec fn spans_from(dots: Dots, p: Seq<u8>, i: int) -> Seq<(int, int)>
    decreases p.len() + 1 - i,
    via spans_from_decreases
{
    if i >= p.len() {
        Seq::empty()
    } else {
        let end = segment_end(p, i);
        let rest = spans_from(dots, p, end + 1);
        if is_component(dots, p, i, end) {
            seq![(i, end)] + rest
        } else {
            rest
        }
    }
}

#[via_fn]
proof fn spans_from_decreases(dots: Dots, p: Seq<u8>, i: int) {
    if i < p.len() {
        lemma_segment_end_bounds(p, i);
    }
}

/// The components of `p` as (start, end) pairs; the root of an absolute path is the first.
pub open spec fn spans(dots: Dots, p: Seq<u8>) -> Seq<(int, int)> {
    if is_absolute_text(p) {
        seq![(0int, 1int)] + spans_from(dots, p, 1)
    } else {
        spans_from(dots, p, 0)
    }
}

/// The components of `p` as texts: `/` for the root, then one text per component.
pub open spec fn components(dots: Dots, p: Seq<u8>) -> Seq<Seq<u8>> {
    spans(dots, p).map_values(|s: (int, int)| p.subrange(s.0, s.1))
}

/// The part of `p` that holds its components `lo..hi`, as it is written in `p`.
pub open spec fn sub_path(dots: Dots, p: Seq<u8>, lo: int, hi: int) -> Seq<u8> {
    if lo < hi {
        p.subrange(spans(dots, p)[lo].0, spans(dots, p)[hi - 1].1)
    } else {
        Seq::empty()
    }
}

/// `p` without its last component; `None` where `p` is empty or the root alone.
pub open spec fn parent_text(dots: Dots, p: Seq<u8>) -> Option<Seq<u8>> {
    let n = spans(dots, p).len() as int;
    if n == 0 || (n == 1 && is_absolute_text(p)) {
        None
    } else {
        Some(sub_path(dots, p, 0, n - 1))
    }
}

/// The rest of `p` behind the components of `base`; `None` where `p` does not start with them.
pub open spec fn stripped_prefix(dots: Dots, p: Seq<u8>, base: Seq<u8>) -> Option<Seq<u8>> {
    if components(dots, base).is_prefix_of(components(dots, p)) {
        Some(
            sub_path(
                dots,
                p,
                components(dots, base).len() as int,
                components(dots, p).len() as int,
            ),
        )
    } else {
        None
    }
}

/// Whether a component is `.` or `..`.
pub open spec fn is_dot_component(c: Seq<u8>) -> bool {
    c == seq![DOT] || c == seq![DOT, DOT]
}

/// The first position from `i` on that holds no `.` and no `..`.
pub open spec fn first_named(c: Seq<Seq<u8>>, i: int) -> int
    decreases c.len() - i,
{
    if i < c.len() && is_dot_component(c[i]) {
        first_named(c, i + 1)
    } else {
        i
    }
}

/// The paths above `p`: its parent, the parent of that, and so on.
pub open spec fn ancestors(dots: Dots, p: Seq<u8>) -> Seq<Seq<u8>>
    decreases p.len(),
    via ancestors_decreases
{
    match parent_text(dots, p) {
        Some(q) => seq![q] + ancestors(dots, q),
        None => Seq::empty(),
    }
}

#[via_fn]
proof fn ancestors_decreases(dots: Dots, p: Seq<u8>) {
    law_parent_components(dots, p);
}

/// A segment ends inside the path, not before it starts.
pub proof fn lemma_segment_end_bounds(p: Seq<u8>, i: int)
    requires
        i <= p.len(),
    ensures
        i <= segment_end(p, i) <= p.len(),
    decreases p.len() - i,
{
    if i < p.len() && p[i] != SEPARATOR {
        lemma_segment_end_bounds(p, i + 1);
    }
}

/// Components are not empty, lie inside the path and follow each other.
pub proof fn lemma_spans_from_ordered(dots: Dots, p: Seq<u8>, i: int)
    requires
        0 <= i,
    ensures
        forall|k: int|
            #![trigger spans_from(dots, p, i)[k]]
            0 <= k < spans_from(dots, p, i).len() ==> i <= spans_from(dots, p, i)[k].0 < spans_from(
                dots,
                p,
                i,
            )[k].1 <= p.len(),
        forall|k: int, l: int|
            #![trigger spans_from(dots, p, i)[k], spans_from(dots, p, i)[l]]
            0 <= k < l < spans_from(dots, p, i).len() ==> spans_from(dots, p, i)[k].1 <= spans_from(
                dots,
                p,
                i,
            )[l].0,
    decreases p.len() + 1 - i,
{
    if i < p.len() {
        let end = segment_end(p, i);
        lemma_segment_end_bounds(p, i);
        lemma_spans_from_ordered(dots, p, end + 1);
        let rest = spans_from(dots, p, end + 1);
        if is_component(dots, p, i, end) {
            assert(spans_from(dots, p, i) == seq![(i, end)] + rest);
            assert forall|k: int| 0 <= k < spans_from(dots, p, i).len() implies i <= (
            #[trigger] spans_from(dots, p, i)[k]).0 < spans_from(dots, p, i)[k].1 <= p.len() by {
                if k > 0 {
                    assert(spans_from(dots, p, i)[k] == rest[k - 1]);
                }
            }
            assert forall|k: int, l: int|
                #![trigger spans_from(dots, p, i)[k], spans_from(dots, p, i)[l]]
                0 <= k < l < spans_from(dots, p, i).len() implies spans_from(dots, p, i)[k].1
                <= spans_from(
                dots,
                p,
                i,
            )[l].0 by {
                assert(spans_from(dots, p, i)[l] == rest[l - 1]);
                if k > 0 {
                    assert(spans_from(dots, p, i)[k] == rest[k - 1]);
                }
            }
        } else {
            assert(spans_from(dots, p, i) == rest);
        }
    }
}

/// What [`lemma_spans_from_ordered`] says, for a whole path.
pub proof fn lemma_spans_ordered(dots: Dots, p: Seq<u8>)
    ensures
        forall|k: int|
            #![trigger spans(dots, p)[k]]
            0 <= k < spans(dots, p).len() ==> 0 <= spans(dots, p)[k].0 < spans(dots, p)[k].1
                <= p.len(),
        forall|k: int, l: int|
            #![trigger spans(dots, p)[k], spans(dots, p)[l]]
            0 <= k < l < spans(dots, p).len() ==> spans(dots, p)[k].1 <= spans(dots, p)[l].0,
{
    if is_absolute_text(p) {
        lemma_spans_from_ordered(dots, p, 1);
        let rest = spans_from(dots, p, 1);
        assert forall|k: int|
            0 <= k < spans(dots, p).len() implies 0 <= (#[trigger] spans(dots, p)[k]).0
            < spans(dots, p)[k].1 <= p.len() by {
            if k > 0 {
                assert(spans(dots, p)[k] == rest[k - 1]);
            }
        }
        assert forall|k: int, l: int|
            #![trigger spans(dots, p)[k], spans(dots, p)[l]]
            0 <= k < l < spans(dots, p).len() implies spans(dots, p)[k].1
            <= spans(dots, p)[l].0 by {
            assert(spans(dots, p)[l] == rest[l - 1]);
            if k > 0 {
                assert(spans(dots, p)[k] == rest[k - 1]);
            }
        }
    } else {
        lemma_spans_from_ordered(dots, p, 0);
    }
}

/// Pairs of machine integers, read as pairs of integers.
spec fn span_view(v: Seq<(usize, usize)>) -> Seq<(int, int)> {
    v.map_values(|s: (usize, usize)| (s.0 as int, s.1 as int))
}

impl Clone for FsPath {
    fn clone(&self) -> (r: Self)
        ensures
            r@ == self@,
    {
        FsPath { bytes: slice_to_vec(self.bytes.as_slice()) }
    }
}

impl FsPath {
    /// The empty path.
    pub fn new() -> (r: Self)
        ensures
            r@ == Seq::<u8>::empty(),
    {
        FsPath { bytes: Vec::new() }
    }

    /// The path with the given bytes.
    pub fn from_bytes(bytes: Vec<u8>) -> (r: Self)
        ensures
            r@ == bytes@,
    {
        FsPath { bytes }
    }

    /// The path written as `text`.
    pub fn from_text(text: &str) -> (r: Self)
        ensures
            r@ == text.spec_bytes(),
    {
        FsPath { bytes: slice_to_vec(text.as_bytes()) }
    }

    /// The bytes of the path.
    pub fn as_bytes(&self) -> (r: &[u8])
        ensures
            r@ == self@,
    {
        self.bytes.as_slice()
    }

    /// Whether the path starts at the root.
    pub fn is_absolute(&self) -> (r: bool)
        ensures
            r == is_absolute_text(self@),
    {
        self.bytes.len() > 0 && self.bytes[0] == SEPARATOR
    }

    /// Whether the path does not start at the root.
    pub fn is_relative(&self) -> (r: bool)
        ensures
            r == !is_absolute_text(self@),
    {
        !self.is_absolute()
    }

    /// `tail` seen from this path.
    pub fn join(&self, tail: &FsPath) -> (r: FsPath)
        ensures
            r@ == joined(self@, tail@),
    {
        if tail.is_absolute() {
            return tail.clone();
        }
        let mut bytes: Vec<u8> = slice_to_vec(self.bytes.as_slice());
        let n: usize = bytes.len();
        if n > 0 && bytes[n - 1] != SEPARATOR {
            bytes.push(SEPARATOR);
        }
        let mut rest: Vec<u8> = slice_to_vec(tail.bytes.as_slice());
        bytes.append(&mut rest);
        FsPath { bytes }
    }

    /// The path written as `tail`, seen from this path.
    pub fn join_text(&self, tail: &str) -> (r: FsPath)
        ensures
            r@ == joined(self@, tail.spec_bytes()),
    {
        self.join(&FsPath::from_text(tail))
    }

    /// The components of the path, as (start, end) pairs of positions in its bytes.
    fn component_spans(&self, dots: Dots) -> (r: Vec<(usize, usize)>)
        ensures
            span_view(r@) == spans(dots, self@),
    {
        let mut out: Vec<(usize, usize)> = Vec::new();
        let n: usize = self.bytes.len();
        let mut i: usize = 0;
        if self.is_absolute() {
            out.push((0, 1));
            i = 1;
        }
        assert(span_view(out@) + spans_from(dots, self@, i as int) =~= spans(dots, self@));
        while i < n
            invariant
                n == self@.len(),
                n == self.bytes@.len(),
                self@ == self.bytes@,
                0 <= i <= n,
                span_view(out@) + spans_from(dots, self@, i as int) == spans(dots, self@),
            decreases n - i,
        {
            let mut j: usize = i;
            while j < n && self.bytes[j] != SEPARATOR
                invariant
                    n == self@.len(),
                    n == self.bytes@.len(),
                    self@ == self.bytes@,
                    i <= j <= n,
                    segment_end(self@, j as int) == segment_end(self@, i as int),
                decreases n - j,
            {
                j += 1;
            }
            let ghost before = out@;
            if i < j && (dots == Dots::Keep || !(i != 0 && j - i == 1 && self.bytes[i] == DOT)) {
                out.push((i, j));
                assert(span_view(out@) =~= span_view(before).push((i as int, j as int)));
                assert(span_view(out@) + spans_from(dots, self@, j + 1) =~= span_view(before)
                    + spans_from(dots, self@, i as int));
            }
            if j < n {
                i = j + 1;
            } else {
                assert(spans_from(dots, self@, j + 1) =~= spans_from(dots, self@, n as int));
                i = n;
            }
        }
        assert(span_view(out@) =~= spans(dots, self@));
        out
    }

    /// The part of the path that holds the components `lo..hi`.
    fn sub_path(
        &self,
        spans: &Vec<(usize, usize)>,
        dots: Dots,
        lo: usize,
        hi: usize,
    ) -> (r: FsPath)
        requires
            span_view(spans@) == self::spans(dots, self@),
            hi <= spans@.len(),
        ensures
            r@ == self::sub_path(dots, self@, lo as int, hi as int),
    {
        if lo >= hi {
            return FsPath::new();
        }
        proof {
            lemma_spans_ordered(dots, self@);
            assert(self::spans(dots, self@)[lo as int] == span_view(spans@)[lo as int]);
            assert(self::spans(dots, self@)[hi - 1] == span_view(spans@)[hi - 1]);
        }
        let start: usize = spans[lo].0;
        let end: usize = spans[hi - 1].1;
        FsPath { bytes: slice_to_vec(slice_subrange(self.bytes.as_slice(), start, end)) }
    }

    /// The path without its last component.
    pub fn parent(&self, dots: Dots) -> (r: Option<FsPath>)
        ensures
            opt_path(r) == parent_text(dots, self@),
    {
        let spans: Vec<(usize, usize)> = self.component_spans(dots);
        let n: usize = spans.len();
        assert(self::spans(dots, self@).len() == n);
        if n == 0 || (n == 1 && self.is_absolute()) {
            None
        } else {
            Some(self.sub_path(&spans, dots, 0, n - 1))
        }
    }

    /// Whether the bytes `a` of this path are the bytes `b` of `other`.
    fn same_bytes(&self, a: (usize, usize), other: &FsPath, b: (usize, usize)) -> (r: bool)
        requires
            a.0 <= a.1 <= self@.len(),
            b.0 <= b.1 <= other@.len(),
        ensures
            r == (self@.subrange(a.0 as int, a.1 as int) == other@.subrange(
                b.0 as int,
                b.1 as int,
            )),
    {
        let ghost x = self@.subrange(a.0 as int, a.1 as int);
        let ghost y = other@.subrange(b.0 as int, b.1 as int);
        if a.1 - a.0 != b.1 - b.0 {
            assert(x.len() != y.len());
            return false;
        }
        let n: usize = a.1 - a.0;
        let mut i: usize = 0;
        while i < n
            invariant
                n == a.1 - a.0,
                n == b.1 - b.0,
                a.0 <= a.1 <= self@.len(),
                b.0 <= b.1 <= other@.len(),
                i <= n,
                x == self@.subrange(a.0 as int, a.1 as int),
                y == other@.subrange(b.0 as int, b.1 as int),
                forall|k: int| 0 <= k < i ==> x[k] == y[k],
            decreases n - i,
        {
            if self.bytes[a.0 + i] != other.bytes[b.0 + i] {
                assert(x[i as int] != y[i as int]);
                return false;
            }
            assert(x[i as int] == y[i as int]);
            i += 1;
        }
        assert(x =~= y);
        true
    }

    /// The rest of this path behind the components of `base`; `None` where the path does not
    /// start with them.
    pub fn strip_prefix(&self, base: &FsPath, dots: Dots) -> (r: Option<FsPath>)
        ensures
            opt_path(r) == stripped_prefix(dots, self@, base@),
    {
        let mine: Vec<(usize, usize)> = self.component_spans(dots);
        let theirs: Vec<(usize, usize)> = base.component_spans(dots);
        proof {
            lemma_spans_ordered(dots, self@);
            lemma_spans_ordered(dots, base@);
        }
        let ghost p = components(dots, self@);
        let ghost b = components(dots, base@);
        let n: usize = mine.len();
        let k: usize = theirs.len();
        assert(p.len() == n && b.len() == k);
        if k > n {
            return None;
        }
        let mut i: usize = 0;
        while i < k
            invariant
                k <= n,
                n == mine@.len(),
                k == theirs@.len(),
                i <= k,
                span_view(mine@) == spans(dots, self@),
                span_view(theirs@) == spans(dots, base@),
                p == components(dots, self@),
                b == components(dots, base@),
                forall|x: int|
                    #![trigger spans(dots, self@)[x]]
                    0 <= x < spans(dots, self@).len() ==> 0 <= spans(dots, self@)[x].0
                        < spans(dots, self@)[x].1
                        <= self@.len(),
                forall|x: int|
                    #![trigger spans(dots, base@)[x]]
                    0 <= x < spans(dots, base@).len() ==> 0 <= spans(dots, base@)[x].0
                        < spans(dots, base@)[x].1
                        <= base@.len(),
                forall|x: int| 0 <= x < i ==> p[x] == b[x],
            decreases k - i,
        {
            assert(span_view(mine@)[i as int] == spans(dots, self@)[i as int]);
            assert(span_view(theirs@)[i as int] == spans(dots, base@)[i as int]);
            if !self.same_bytes(mine[i], base, theirs[i]) {
                assert(p[i as int] != b[i as int]);
                return None;
            }
            i += 1;
        }
        assert(b =~= p.subrange(0, k as int));
        Some(self.sub_path(&mine, dots, k, n))
    }

    /// The components of the path, as paths of their own.
    pub fn parts(&self, dots: Dots) -> (r: Vec<FsPath>)
        ensures
            r@.map_values(|p: FsPath| p@) == components(dots, self@),
    {
        let spans: Vec<(usize, usize)> = self.component_spans(dots);
        proof {
            lemma_spans_ordered(dots, self@);
        }
        let mut out: Vec<FsPath> = Vec::new();
        let mut i: usize = 0;
        while i < spans.len()
            invariant
                i <= spans@.len(),
                out@.len() == i,
                span_view(spans@) == self::spans(dots, self@),
                forall|x: int|
                    #![trigger self::spans(dots, self@)[x]]
                    0 <= x < self::spans(dots, self@).len() ==> 0 <= self::spans(dots, self@)[x].0
                        < self::spans(dots, self@)[x].1 <= self@.len(),
                forall|k: int| 0 <= k < i ==> (#[trigger] out@[k])@ == components(dots, self@)[k],
            decreases spans@.len() - i,
        {
            let s: (usize, usize) = spans[i];
            assert(span_view(spans@)[i as int] == self::spans(dots, self@)[i as int]);
            out.push(
                FsPath { bytes: slice_to_vec(slice_subrange(self.bytes.as_slice(), s.0, s.1)) },
            );
            i += 1;
        }
        assert(out@.map_values(|p: FsPath| p@) =~= components(dots, self@));
        out
    }

    /// The path without its leading `.` and `..` components.
    pub fn without_leading_dots(&self) -> (r: FsPath)
        ensures
            r@ == sub_path(
                Dots::Skip,
                self@,
                first_named(components(Dots::Skip, self@), 0),
                components(Dots::Skip, self@).len() as int,
            ),
    {
        let spans: Vec<(usize, usize)> = self.component_spans(Dots::Skip);
        proof {
            lemma_spans_ordered(Dots::Skip, self@);
        }
        let ghost c = components(Dots::Skip, self@);
        let n: usize = spans.len();
        let mut i: usize = 0;
        while i < n
            invariant_except_break
                first_named(c, i as int) == first_named(c, 0),
            invariant
                n == spans@.len(),
                n == c.len(),
                i <= n,
                c == components(Dots::Skip, self@),
                span_view(spans@) == self::spans(Dots::Skip, self@),
                forall|x: int|
                    #![trigger self::spans(Dots::Skip, self@)[x]]
                    0 <= x < self::spans(Dots::Skip, self@).len() ==> 0
                        <= self::spans(Dots::Skip, self@)[x].0
                        < self::spans(Dots::Skip, self@)[x].1 <= self@.len(),
            ensures
                i == first_named(c, 0),
            decreases n - i,
        {
            let s: (usize, usize) = spans[i];
            assert(span_view(spans@)[i as int] == self::spans(Dots::Skip, self@)[i as int]);
            let ghost text = self@.subrange(s.0 as int, s.1 as int);
            assert(c[i as int] == text);
            let size: usize = s.1 - s.0;
            let dots: bool = self.bytes[s.0] == DOT && (size == 1 || (size == 2 && self.bytes[s.0
                + 1] == DOT));
            proof {
                if size == 1 {
                    assert(text =~= seq![self@[s.0 as int]]);
                } else if size == 2 {
                    assert(text =~= seq![self@[s.0 as int], self@[s.0 + 1]]);
                }
                if is_dot_component(text) {
                    assert(text[0] == DOT);
                    if size == 2 {
                        assert(text[1] == DOT);
                    }
                }
                assert(dots == is_dot_component(text));
            }
            if !dots {
                break;
            }
            i += 1;
        }
        self.sub_path(&spans, Dots::Skip, i, n)
    }
}

} // verus!
