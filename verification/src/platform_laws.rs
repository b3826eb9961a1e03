//! What joining and cutting do to paths on each platform.

use crate::path::ancestors;
use crate::path::components;
use crate::path::is_absolute_text;
use crate::path::is_component;
use crate::path::is_dot_component;
use crate::path::joined;
use crate::path::lemma_segment_end_bounds;
use crate::path::lemma_spans_ordered;
use crate::path::parent_text;
use crate::path::segment_end;
use crate::path::spans;
use crate::path::spans_from;
use crate::path::Dots;
use crate::path::DOT;
use crate::path::SEPARATOR;
use crate::path_laws::law_component_has_no_separator;
use crate::path_laws::law_join_components;
use crate::path_laws::law_one_component;
use crate::path_laws::law_parent_components;
use crate::path_laws::law_strip_prefix_components;
use crate::path_laws::law_strip_prefix_rest;
use crate::platform::ancestors_on;
use crate::platform::body_of;
use crate::platform::components_on;
use crate::platform::dots_of;
use crate::platform::ends_kind;
use crate::platform::folded;
use crate::platform::has_drive;
use crate::platform::has_unc;
use crate::platform::held_byte;
use crate::platform::is_absolute_on;
use crate::platform::is_verbatim;
use crate::platform::joined_on;
use crate::platform::laid_out;
use crate::platform::lemma_no_prefix;
use crate::platform::lemma_prefix_len;
use crate::platform::names_of;
use crate::platform::native;
use crate::platform::parent_on;
use crate::platform::prefix_len;
use crate::platform::prefix_of;
use crate::platform::resolved;
use crate::platform::slashed;
use crate::platform::stripped_on;
use crate::platform::verbatim_body;
use crate::platform::Platform;
use crate::platform::BACKSLASH;
use vstd::prelude::*;

verus! {

/// An absolute path is the same path wherever it is seen from.
pub proof fn law_absolute_tail_replaces(platform: Platform, base: Seq<u8>, tail: Seq<u8>)
    requires
        is_absolute_on(platform, tail),
    ensures
        joined_on(platform, base, tail) == tail,
{
    if platform == Platform::Posix {
        lemma_no_prefix(platform, base);
    }
}

/// The native form of a path that was taken over is the path itself, byte for byte, unless a
/// slash was written that is not the one of the native form: on Windows a backward slash, and in
/// a verbatim path a forward slash where a separator stands.
pub proof fn law_native_form(platform: Platform, p: Seq<u8>)
    requires
        platform == Platform::Windows ==> if is_verbatim(platform, p) {
            !ends_kind_forward(p)
        } else {
            !p.contains(BACKSLASH)
        },
    ensures
        native(platform, slashed(platform, p)) == p,
{
    let held = slashed(platform, p);
    if is_verbatim(platform, p) {
        assert(held[0] == p[0] && held[1] == p[1] && held[2] == p[2] && held[3] == p[3]);
        assert(native(platform, held) =~= p);
    } else if platform == Platform::Windows {
        assert(held =~= p);
    }
}

/// Taking over the native form of a path gives the path again.
pub proof fn law_native_form_is_taken_over(platform: Platform, p: Seq<u8>)
    ensures
        slashed(platform, native(platform, slashed(platform, p))) == slashed(platform, p),
{
    let held = slashed(platform, p);
    let back = native(platform, held);
    if is_verbatim(platform, p) {
        assert(held[0] == p[0] && held[1] == p[1] && held[2] == p[2] && held[3] == p[3]);
        assert(back[0] == p[0] && back[1] == p[1] && back[2] == p[2] && back[3] == p[3]);
        assert(is_verbatim(platform, back));
        assert forall|i: int| 0 <= i < p.len() implies held_byte(back, i) == #[trigger] held[i] by {
            if i == 6 {
                assert(p.skip(4)[0] == p[4] && p.skip(4)[1] == p[5]);
                assert(back.skip(4)[0] == back[4] && back.skip(4)[1] == back[5]);
            }
        }
        assert(slashed(platform, back) =~= held);
    } else if platform == Platform::Windows {
        assert(slashed(platform, held) =~= held);
    }
}

/// Whether what says which kind of volume follows ends with a forward slash.
pub open spec fn ends_kind_forward(p: Seq<u8>) -> bool {
    exists|i: int| 0 <= i < p.len() && p[i] == SEPARATOR && #[trigger] ends_kind(p, i)
}

/// A segment that ends before `n` in one path, or at `n` where the other stops too, ends there
/// in both paths that agree up to `n`.
proof fn lemma_same_segment_end(p: Seq<u8>, q: Seq<u8>, n: int, i: int)
    requires
        0 <= i <= n <= p.len(),
        n <= q.len(),
        p.take(n) == q.take(n),
        segment_end(p, i) <= n,
        segment_end(p, i) < n || q.len() == n || q[n] == SEPARATOR,
    ensures
        segment_end(q, i) == segment_end(p, i),
    decreases n - i,
{
    if i < n {
        assert(p.take(n)[i] == p[i]);
        assert(q.take(n)[i] == q[i]);
        if p[i] != SEPARATOR {
            assert(segment_end(p, i) == segment_end(p, i + 1));
            lemma_same_segment_end(p, q, n, i + 1);
            assert(segment_end(q, i) == segment_end(q, i + 1));
        }
    } else {
        lemma_segment_end_bounds(p, i);
        assert(segment_end(q, i) == i);
    }
}

/// The start of a path has the prefix of the path, as long as it reaches over it; behind a drive
/// it need not.
proof fn lemma_start_keeps_prefix(platform: Platform, p: Seq<u8>, m: int)
    requires
        prefix_len(platform, p) > 0,
        prefix_len(platform, p) < m || prefix_len(platform, p) == 2 <= m,
        m <= p.len(),
    ensures
        prefix_len(platform, p.take(m)) == prefix_len(platform, p),
        prefix_of(platform, p.take(m)) == prefix_of(platform, p),
        is_verbatim(platform, p.take(m)) == is_verbatim(platform, p),
{
    let n = prefix_len(platform, p);
    let r = p.take(m);
    lemma_prefix_len(platform, p);
    assert(r.take(n) =~= p.take(n));
    if n == 2 {
        assert(has_drive(r));
    } else {
        assert(p[n] == SEPARATOR);
        if is_verbatim(platform, p) {
            assert(is_verbatim(platform, r));
            if has_unc(p) && p.len() >= 8 && p[7] == SEPARATOR {
                lemma_segment_end_bounds(p, 8);
                assert(has_unc(r) && r.len() >= 8 && r[7] == SEPARATOR);
                let e = segment_end(p, 8);
                lemma_same_segment_end(p, r, n, 8);
                if n > e {
                    lemma_segment_end_bounds(p, e + 1);
                    lemma_same_segment_end(p, r, n, e + 1);
                } else {
                    lemma_segment_end_bounds(p, e + 1);
                    if e + 1 < m {
                        assert(r[e + 1] == p[e + 1]);
                        if p[e + 1] != SEPARATOR {
                            lemma_segment_end_bounds(p, e + 2);
                        }
                    }
                }
            } else if has_drive(p.skip(4)) && (p.len() == 6 || p[6] == SEPARATOR) {
                assert(r.skip(4)[0] == p.skip(4)[0]);
                assert(r.skip(4)[1] == p.skip(4)[1]);
                assert(has_drive(r.skip(4)));
                assert(!has_unc(r));
            } else {
                lemma_segment_end_bounds(p, 4);
                lemma_same_segment_end(p, r, n, 4);
                assert(has_unc(r) ==> has_unc(p));
                if has_drive(r.skip(4)) {
                    assert(r.skip(4)[0] == p.skip(4)[0]);
                    assert(r.skip(4)[1] == p.skip(4)[1]);
                    assert(has_drive(p.skip(4)));
                    if r.len() == 6 {
                        assert(n < 6);
                        assert(p[4] != SEPARATOR && p[5] != SEPARATOR);
                    }
                }
            }
        } else {
            assert(!is_verbatim(platform, r));
            assert(!has_drive(r));
            if p.len() >= 4 && p[2] == DOT && p[3] == SEPARATOR {
                lemma_segment_end_bounds(p, 4);
                lemma_same_segment_end(p, r, n, 4);
            } else {
                let e = segment_end(p, 2);
                lemma_segment_end_bounds(p, 2);
                lemma_segment_end_bounds(p, e + 1);
                lemma_same_segment_end(p, r, n, 2);
                lemma_same_segment_end(p, r, n, e + 1);
            }
        }
    }
}

/// A parent is the start of its path, and not empty where the path is absolute.
proof fn lemma_parent_is_start(dots: Dots, p: Seq<u8>)
    ensures
        parent_text(dots, p) matches Some(q) ==> q.len() <= p.len() && q == p.take(q.len() as int)
            && (is_absolute_text(p) ==> is_absolute_text(q)),
{
    if let Some(q) = parent_text(dots, p) {
        lemma_spans_ordered(dots, p);
        let n = spans(dots, p).len() as int;
        if !is_absolute_text(p) {
            assert(p.len() > 0);
            lemma_segment_end_bounds(p, 1);
            assert(segment_end(p, 0) == segment_end(p, 1));
            assert(is_component(dots, p, 0, segment_end(p, 0)));
            assert(spans_from(dots, p, 0)[0] == (0int, segment_end(p, 0)));
        }
        assert(spans(dots, p)[0].0 == 0);
        if n > 1 {
            assert(q =~= p.take(q.len() as int));
            assert(spans(dots, p)[n - 2].1 >= 1);
        }
    }
}

/// The start of a path without a prefix has none either.
proof fn lemma_start_has_no_prefix(platform: Platform, p: Seq<u8>, m: int)
    requires
        prefix_len(platform, p) == 0,
        0 <= m <= p.len(),
    ensures
        prefix_len(platform, p.take(m)) == 0,
{
    let q = p.take(m);
    lemma_prefix_len(platform, p);
    assert(!is_verbatim(platform, q));
    if platform == Platform::Windows && m >= 2 && q[0] == SEPARATOR && q[1] == SEPARATOR {
        if m >= 4 && q[2] == DOT && q[3] == SEPARATOR {
            lemma_segment_end_bounds(p, 4);
        } else {
            let e = segment_end(q, 2);
            lemma_segment_end_bounds(q, 2);
            if 2 < e < m && e + 1 < segment_end(q, e + 1) {
                assert(p.take(m) == q.take(m)) by {
                    assert(q.take(m) =~= q);
                }
                lemma_same_segment_end(q, p, m, 2);
                assert(q[e + 1] == p[e + 1]);
                lemma_segment_end_bounds(p, e + 2);
            }
        }
    }
}

/// The parent of a path has the prefix of the path; what follows it there is the parent of what
/// follows it in the path.
proof fn lemma_parent_on(platform: Platform, p: Seq<u8>)
    ensures
        match (parent_on(platform, p), parent_text(dots_of(platform, p), body_of(platform, p))) {
            (Some(above), Some(q)) => {
                &&& above.len() < p.len()
                &&& prefix_len(platform, above) == prefix_len(platform, p)
                &&& prefix_of(platform, above) == prefix_of(platform, p)
                &&& dots_of(platform, above) == dots_of(platform, p)
                &&& body_of(platform, above) == q
            },
            (None, None) => true,
            _ => false,
        },
{
    let dots = dots_of(platform, p);
    let body = body_of(platform, p);
    let n = prefix_len(platform, p);
    lemma_prefix_len(platform, p);
    lemma_parent_is_start(dots, body);
    law_parent_components(dots, body);
    if let Some(q) = parent_text(dots, body) {
        let above = prefix_of(platform, p) + q;
        if n > 0 {
            if n > 2 {
                if n == p.len() {
                    assert(q.len() < body.len());
                    assert(is_absolute_text(body) ==> is_absolute_text(q));
                }
                assert(n < p.len());
                assert(is_absolute_text(body));
            }
            assert(above =~= p.take(n + q.len()));
            lemma_start_keeps_prefix(platform, p, n + q.len());
            assert(above.skip(n) =~= q);
        } else {
            lemma_no_prefix(platform, p);
            lemma_start_has_no_prefix(platform, p, q.len() as int);
            assert(above =~= q);
            assert(q =~= p.take(q.len() as int));
            lemma_no_prefix(platform, q);
        }
    }
}

/// The parent of a path names the same volume.
pub proof fn law_parent_keeps_volume(platform: Platform, p: Seq<u8>)
    ensures
        parent_on(platform, p) matches Some(q) ==> q.len() < p.len() && prefix_len(platform, q)
            == prefix_len(platform, p) && prefix_of(platform, q) == prefix_of(platform, p),
{
    lemma_parent_on(platform, p);
}

/// The paths above a path are its parent and the paths above that.
pub proof fn law_ancestors_by_parents(platform: Platform, p: Seq<u8>)
    ensures
        match parent_on(platform, p) {
            Some(q) => ancestors_on(platform, p) == seq![q] + ancestors_on(platform, q) && q.len()
                < p.len(),
            None => ancestors_on(platform, p) == Seq::<Seq<u8>>::empty(),
        },
{
    let dots = dots_of(platform, p);
    let body = body_of(platform, p);
    lemma_parent_on(platform, p);
    match parent_text(dots, body) {
        Some(q) => {
            let above = prefix_of(platform, p) + q;
            assert(ancestors(dots, body) == seq![q] + ancestors(dots, q));
            assert(ancestors_on(platform, p) =~= seq![above] + ancestors_on(platform, above));
        },
        None => {
            assert(ancestors(dots, body) == Seq::<Seq<u8>>::empty());
            assert(ancestors_on(platform, p) =~= Seq::<Seq<u8>>::empty());
        },
    }
}

/// The parent of a path has all components of the path but the last, and the path starts with
/// them.
pub proof fn law_parent_components_on(platform: Platform, p: Seq<u8>)
    ensures
        parent_on(platform, p) matches Some(q) ==> components_on(platform, p).len() > 0
            && components_on(platform, q) == components_on(platform, p).drop_last(),
{
    let dots = dots_of(platform, p);
    let body = body_of(platform, p);
    lemma_parent_on(platform, p);
    law_parent_components(dots, body);
    lemma_prefix_len(platform, p);
    if let Some(q) = parent_on(platform, p) {
        let above = parent_text(dots, body)->0;
        assert(spans(dots, body).len() == components(dots, body).len());
        if prefix_len(platform, p) > 0 {
            assert(components_on(platform, q) =~= components_on(platform, p).drop_last());
        } else {
            lemma_no_prefix(platform, p);
            lemma_no_prefix(platform, q);
        }
    }
}

/// A path starts with each of the paths above it.
pub proof fn law_ancestor_is_prefix(platform: Platform, path: Seq<u8>, k: int)
    requires
        0 <= k < ancestors_on(platform, path).len(),
    ensures
        k < components_on(platform, path).len(),
        components_on(platform, ancestors_on(platform, path)[k]) == components_on(
            platform,
            path,
        ).take(components_on(platform, path).len() - 1 - k),
        prefix_len(platform, ancestors_on(platform, path)[k]) == prefix_len(platform, path),
        prefix_of(platform, ancestors_on(platform, path)[k]) == prefix_of(platform, path),
        dots_of(platform, ancestors_on(platform, path)[k]) == dots_of(platform, path),
        stripped_on(platform, path, ancestors_on(platform, path)[k]) is Some,
    decreases path.len(),
{
    law_ancestors_by_parents(platform, path);
    law_parent_components_on(platform, path);
    lemma_parent_on(platform, path);
    let parent = parent_on(platform, path)->0;
    let all = components_on(platform, path);
    let above = ancestors_on(platform, path)[k];
    if k == 0 {
        assert(all.drop_last() =~= all.take(all.len() - 1));
    } else {
        law_ancestor_is_prefix(platform, parent, k - 1);
        assert(above == ancestors_on(platform, parent)[k - 1]);
        assert(all.drop_last().take(all.len() - 1 - k) =~= all.take(all.len() - 1 - k));
    }
    lemma_starts_with(platform, path, above);
}

/// A path starts with another where their volumes are the same and the components of the other
/// are the first of the path.
proof fn lemma_starts_with(platform: Platform, p: Seq<u8>, base: Seq<u8>)
    requires
        prefix_of(platform, base) == prefix_of(platform, p),
        prefix_len(platform, base) == prefix_len(platform, p),
        dots_of(platform, base) == dots_of(platform, p),
        components_on(platform, base).len() <= components_on(platform, p).len(),
        components_on(platform, base) == components_on(platform, p).take(
            components_on(platform, base).len() as int,
        ),
    ensures
        stripped_on(platform, p, base) is Some,
{
    let dots = dots_of(platform, p);
    let b = components(dots, body_of(platform, base));
    let c = components(dots, body_of(platform, p));
    let n = components_on(platform, base).len() as int;
    lemma_prefix_len(platform, p);
    if prefix_len(platform, p) > 0 {
        assert forall|i: int| 0 <= i < b.len() implies b[i] == c[i] by {
            assert(components_on(platform, base)[i + 1] == components_on(platform, p).take(n)[i
                + 1]);
        }
        assert(b =~= c.subrange(0, b.len() as int));
    } else {
        lemma_no_prefix(platform, p);
        lemma_no_prefix(platform, base);
        assert(b =~= c.subrange(0, b.len() as int));
    }
}

/// A base and what is left behind it have together the components of the path. What is left is
/// relative, unless the base is a drive or a verbatim prefix alone.
pub proof fn law_stripped_components(platform: Platform, p: Seq<u8>, base: Seq<u8>)
    requires
        base.len() > 0,
    ensures
        stripped_on(platform, p, base) matches Some(rest) ==> {
            &&& components_on(platform, base) + components(dots_of(platform, p), rest)
                == components_on(platform, p)
            &&& body_of(platform, base).len() > 0 ==> !is_absolute_text(rest)
            &&& body_of(platform, base).len() > 0 && dots_of(platform, p) == Dots::Skip ==> (
            components(Dots::Skip, rest).len() == 0 || components(Dots::Skip, rest)[0]
                != seq![DOT])
        },
{
    if let Some(rest) = stripped_on(platform, p, base) {
        let pb = body_of(platform, p);
        let bb = body_of(platform, base);
        let dots = dots_of(platform, p);
        let x = prefix_of(platform, p);
        let y = prefix_of(platform, base);
        lemma_prefix_len(platform, p);
        lemma_prefix_len(platform, base);
        law_strip_prefix_components(dots, pb, bb);
        assert(folded(x).len() == x.len());
        assert(folded(y).len() == y.len());
        assert(prefix_len(platform, p) == prefix_len(platform, base));
        assert(dots_of(platform, base) == dots) by {
            if x.len() >= 4 {
                assert(folded(x)[0] == folded(y)[0] && folded(x)[1] == folded(y)[1] && folded(x)[2]
                    == folded(y)[2] && folded(x)[3] == folded(y)[3]);
            }
        }
        if bb.len() > 0 {
            law_strip_prefix_rest(dots, pb, bb);
        }
        if prefix_len(platform, base) == 0 {
            lemma_no_prefix(platform, p);
            lemma_no_prefix(platform, base);
        } else {
            assert(components_on(platform, base) + components(dots, rest) =~= components_on(
                platform,
                p,
            ));
        }
    }
}

/// Without roots and dots, resolving adds the components.
proof fn lemma_resolved_names(root: bool, parts: Seq<Seq<u8>>, tail: Seq<Seq<u8>>)
    requires
        forall|i: int|
            0 <= i < tail.len() ==> #[trigger] tail[i] != seq![SEPARATOR] && !is_dot_component(
                tail[i],
            ),
    ensures
        resolved(root, parts, tail) == (root, parts + tail),
    decreases tail.len(),
{
    if tail.len() == 0 {
        assert(parts + tail =~= parts);
    } else {
        lemma_resolved_names(root, parts, tail.drop_last());
        assert(tail[tail.len() - 1] == tail.last());
        assert((parts + tail.drop_last()).push(tail.last()) =~= parts + tail);
    }
}

/// Components that are laid out are the components of the result, behind a root.
proof fn lemma_laid_out(parts: Seq<Seq<u8>>)
    requires
        parts.len() > 0,
        forall|i: int|
            0 <= i < parts.len() ==> (#[trigger] parts[i]).len() > 0 && forall|k: int|
                0 <= k < parts[i].len() ==> #[trigger] parts[i][k] != SEPARATOR,
    ensures
        components(Dots::Keep, laid_out(parts)) == seq![seq![SEPARATOR]] + parts,
        laid_out(parts).len() > 0,
        laid_out(parts).last() != SEPARATOR,
    decreases parts.len(),
{
    let front = parts.drop_last();
    let last = parts.last();
    assert(parts[parts.len() - 1] == last);
    assert(last[last.len() - 1] != SEPARATOR);
    law_one_component(Dots::Keep, last);
    if front.len() == 0 {
        let root = seq![SEPARATOR];
        assert(laid_out(front) =~= Seq::empty());
        assert(laid_out(parts) =~= joined(root, last));
        assert(components(Dots::Keep, root) =~= seq![root]) by {
            assert(spans_from(Dots::Keep, root, 1) =~= Seq::empty());
            assert(spans(Dots::Keep, root) =~= seq![(0int, 1int)]);
            assert(root.subrange(0, 1) =~= root);
        }
        law_join_components(Dots::Keep, root, last);
        assert(seq![root] + parts =~= seq![root] + seq![last]);
    } else {
        assert forall|i: int| 0 <= i < front.len() implies (#[trigger] front[i]).len() > 0
            && forall|k: int| 0 <= k < front[i].len() ==> #[trigger] front[i][k] != SEPARATOR by {
            assert(front[i] == parts[i]);
        }
        lemma_laid_out(front);
        assert(laid_out(parts) =~= joined(laid_out(front), last));
        law_join_components(Dots::Keep, laid_out(front), last);
        assert(seq![seq![SEPARATOR]] + parts =~= seq![seq![SEPARATOR]] + front + seq![last]);
    }
}

/// A device without a name gets one from what is joined.
proof fn lemma_device_without_name(platform: Platform, base: Seq<u8>, tail: Seq<u8>)
    requires
        prefix_len(platform, base) == base.len() > 2,
        base.last() == SEPARATOR,
        !is_verbatim(platform, base),
        prefix_len(platform, tail) == 0,
        !is_absolute_text(tail),
        prefix_len(platform, joined_on(platform, base, tail)) == prefix_len(platform, base),
    ensures
        tail.len() == 0,
        joined_on(platform, base, tail) == base,
{
    let j = joined_on(platform, base, tail);
    lemma_prefix_len(platform, base);
    assert(j =~= base + tail);
    if base.len() >= 4 && base[2] == DOT && base[3] == SEPARATOR {
        if base.len() > 4 {
            lemma_inside_segment(base, 4, base.len() - 1);
        }
        if tail.len() > 0 {
            assert(j[4] == tail[0]);
            lemma_segment_end_bounds(j, 5);
        }
    } else {
        let e = segment_end(base, 2);
        lemma_segment_end_bounds(base, 2);
        lemma_inside_segment(base, e + 1, base.len() - 1);
    }
}

/// A segment holds no separator.
pub proof fn lemma_inside_segment(p: Seq<u8>, i: int, k: int)
    requires
        0 <= i <= k < segment_end(p, i),
        k < p.len(),
    ensures
        p[k] != SEPARATOR,
    decreases k - i,
{
    if i < k {
        lemma_inside_segment(p, i + 1, k);
    }
}

/// What follows a verbatim prefix once names were joined has these names as further components.
proof fn lemma_verbatim_names(b: Seq<u8>, tail: Seq<u8>)
    requires
        is_absolute_text(b),
        !is_absolute_text(tail),
        forall|i: int|
            0 <= i < components(Dots::Skip, tail).len() ==> !is_dot_component(
                #[trigger] components(Dots::Skip, tail)[i],
            ),
    ensures
        ({
            let t = components(Dots::Skip, tail);
            let body = verbatim_body(true, names_of(b) + t);
            &&& resolved(true, names_of(b), t) == (true, names_of(b) + t)
            &&& components(Dots::Keep, body) == components(Dots::Keep, b) + t
        }),
{
    let t = components(Dots::Skip, tail);
    let names = names_of(b);
    assert forall|i: int| 0 <= i < t.len() implies #[trigger] t[i] != seq![SEPARATOR]
        && !is_dot_component(t[i]) by {
        law_component_has_no_separator(Dots::Skip, tail, i);
        assert(t[i][0] != SEPARATOR);
    }
    lemma_resolved_names(true, names, t);
    let all = names + t;
    let body = verbatim_body(true, all);
    assert(components(Dots::Keep, b)[0] =~= seq![SEPARATOR]);
    assert(components(Dots::Keep, b) =~= seq![seq![SEPARATOR]] + names);
    if all.len() == 0 {
        assert(components(Dots::Keep, body) =~= seq![seq![SEPARATOR]]) by {
            assert(spans_from(Dots::Keep, body, 1) =~= Seq::empty());
            assert(spans(Dots::Keep, body) =~= seq![(0int, 1int)]);
            assert(body.subrange(0, 1) =~= body);
        }
    } else {
        assert forall|i: int| 0 <= i < all.len() implies (#[trigger] all[i]).len() > 0
            && forall|k: int| 0 <= k < all[i].len() ==> #[trigger] all[i][k] != SEPARATOR by {
            if i < names.len() {
                law_component_has_no_separator(Dots::Keep, b, i + 1);
                assert(all[i] == components(Dots::Keep, b)[i + 1]);
            } else {
                law_component_has_no_separator(Dots::Skip, tail, i - names.len());
                assert(all[i] == t[i - names.len()]);
            }
        }
        lemma_laid_out(all);
    }
    assert(components(Dots::Keep, body) =~= components(Dots::Keep, b) + t);
}

/// The law below, behind a verbatim base.
#[verifier::rlimit(30)]
proof fn lemma_join_verbatim(platform: Platform, base: Seq<u8>, tail: Seq<u8>)
    requires
        prefix_len(platform, tail) == 0,
        !is_absolute_text(tail),
        prefix_len(platform, joined_on(platform, base, tail)) == prefix_len(platform, base),
        is_verbatim(platform, base),
        body_of(platform, base).len() > 0,
        forall|i: int|
            0 <= i < components(Dots::Skip, tail).len() ==> !is_dot_component(
                #[trigger] components(Dots::Skip, tail)[i],
            ),
    ensures
        components_on(platform, joined_on(platform, base, tail)) == components_on(platform, base)
            + components(Dots::Skip, tail),
{
    let n = prefix_len(platform, base);
    let b = body_of(platform, base);
    let j = joined_on(platform, base, tail);
    let t = components(Dots::Skip, tail);
    let prefix = prefix_of(platform, base);
    lemma_prefix_len(platform, base);
    assert(b[0] == base[n]);
    assert(prefix[0] == base[0] && prefix[1] == base[1] && prefix[2] == base[2] && prefix[3]
        == base[3]);
    if tail.len() == 0 {
        assert(t =~= Seq::empty());
        assert(j.take(n) =~= prefix);
        assert(is_verbatim(platform, j));
        if j == base {
            assert(components_on(platform, base) + t =~= components_on(platform, base));
        } else {
            assert(body_of(platform, j) =~= joined(b, tail));
            law_join_components(Dots::Keep, b, tail);
            assert(components(Dots::Keep, tail) =~= Seq::empty());
            assert(components_on(platform, j) =~= components_on(platform, base) + t);
        }
    } else {
        let body = verbatim_body(true, names_of(b) + t);
        lemma_verbatim_names(b, tail);
        assert(j == prefix + body);
        assert(j.take(n) =~= prefix);
        assert(j.skip(n) =~= body);
        assert(is_verbatim(platform, j));
        assert(components_on(platform, j) =~= components_on(platform, base) + t);
    }
}

/// The law below, behind a base with a prefix that is not verbatim.
#[verifier::rlimit(30)]
proof fn lemma_join_behind_prefix(platform: Platform, base: Seq<u8>, tail: Seq<u8>)
    requires
        prefix_len(platform, tail) == 0,
        !is_absolute_text(tail),
        components(Dots::Skip, tail).len() == 0 || components(Dots::Skip, tail)[0] != seq![DOT],
        prefix_len(platform, joined_on(platform, base, tail)) == prefix_len(platform, base),
        prefix_len(platform, base) > 0,
        !is_verbatim(platform, base),
    ensures
        components_on(platform, joined_on(platform, base, tail)) == components_on(platform, base)
            + components(Dots::Skip, tail),
{
    let n = prefix_len(platform, base);
    let b = body_of(platform, base);
    let j = joined_on(platform, base, tail);
    let t = components(Dots::Skip, tail);
    lemma_prefix_len(platform, base);
    if n > 2 && n == base.len() && base.last() == SEPARATOR {
        lemma_device_without_name(platform, base, tail);
        assert(t =~= Seq::empty());
        assert(components_on(platform, j) =~= components_on(platform, base) + t);
    } else {
        let rest = joined(b, tail);
        assert(j == prefix_of(platform, base) + rest);
        law_join_components(Dots::Skip, b, tail);
        assert(j.take(n) =~= prefix_of(platform, base));
        assert(j[0] == base[0]);
        assert(!is_verbatim(platform, j));
        assert(j.skip(n) =~= rest);
        if n > 2 {
            assert(is_absolute_text(b));
            assert(rest.len() > 0);
        }
        assert(components_on(platform, j) =~= components_on(platform, base) + t);
    }
}

/// Joining a relative path behind a base gives the components of both, in this order, as long as
/// no `.` comes to stand behind a base and no prefix comes about. Behind a verbatim path, which
/// has to have a root, there are no `.` and `..` at all.
pub proof fn law_join_components_on(platform: Platform, base: Seq<u8>, tail: Seq<u8>)
    requires
        prefix_len(platform, tail) == 0,
        !is_absolute_text(tail),
        base.len() == 0 || components(Dots::Skip, tail).len() == 0 || components(
            Dots::Skip,
            tail,
        )[0] != seq![DOT],
        prefix_len(platform, joined_on(platform, base, tail)) == prefix_len(platform, base),
        is_verbatim(platform, base) ==> body_of(platform, base).len() > 0 && forall|i: int|
            0 <= i < components(Dots::Skip, tail).len() ==> !is_dot_component(
                #[trigger] components(Dots::Skip, tail)[i],
            ),
    ensures
        components_on(platform, joined_on(platform, base, tail)) == components_on(platform, base)
            + components(Dots::Skip, tail),
{
    let j = joined_on(platform, base, tail);
    lemma_prefix_len(platform, base);
    if prefix_len(platform, base) == 0 {
        lemma_no_prefix(platform, base);
        lemma_no_prefix(platform, j);
        law_join_components(Dots::Skip, base, tail);
    } else if is_verbatim(platform, base) {
        lemma_join_verbatim(platform, base, tail);
    } else {
        lemma_join_behind_prefix(platform, base, tail);
    }
}

} // verus!
