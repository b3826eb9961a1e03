//! Paths on the platforms that commands run on.
//!
//! On Windows a path can start with a prefix that names a volume: a drive (`C:`), a share
//! (`//server/share`) or a device (`//./name`), or one of these in verbatim form, behind
//! `\\?\`. What follows the prefix has the component rules of [`crate::path`]. A Windows path
//! is held here with forward slashes, see [`slashed`].

use crate::path::ancestors;
use crate::path::components;
use crate::path::first_named;
use crate::path::is_absolute_text;
use crate::path::is_dot_component;
use crate::path::joined;
use crate::path::lemma_segment_end_bounds;
use crate::path::opt_path;
use crate::path::parent_text;
use crate::path::segment_end;
use crate::path::stripped_prefix;
use crate::path::sub_path;
use crate::path::Dots;
use crate::path::FsPath;
use crate::path::DOT;
use crate::path::SEPARATOR;
use crate::path_laws::lemma_segment_end_stops;
use vstd::prelude::*;
use vstd::slice::slice_subrange;
use vstd::slice::slice_to_vec;
use vstd::string::StringSliceAdditionalSpecFns;
use vstd::utf8::encode_utf8;

verus! {

/// The platform whose rules a path follows.
#[derive(Clone, Copy, Debug, PartialEq, Eq, Structural)]
pub enum Platform {
    Posix,
    Windows,
}

/// The byte of a backward slash.
pub const BACKSLASH: u8 = 92;

/// The byte of a question mark.
pub const QUESTION_MARK: u8 = 63;

/// The byte behind a drive letter.
pub const COLON: u8 = 58;

/// Whether `p` is a verbatim path: one that starts with `\\?\`. Only `\` separates its segments,
/// and a `.` segment is a component.
pub open spec fn is_verbatim(platform: Platform, p: Seq<u8>) -> bool {
    platform == Platform::Windows && p.len() >= 4 && p[0] == BACKSLASH && p[1] == BACKSLASH && p[2]
        == QUESTION_MARK && p[3] == BACKSLASH
}

/// What an inner `.` segment of `p` is.
pub open spec fn dots_of(platform: Platform, p: Seq<u8>) -> Dots {
    if is_verbatim(platform, p) {
        Dots::Keep
    } else {
        Dots::Skip
    }
}

/// Whether a byte is an ASCII letter.
pub open spec fn is_letter(b: u8) -> bool {
    65 <= b <= 90 || 97 <= b <= 122
}

/// Whether `p` starts with a drive.
pub open spec fn has_drive(p: Seq<u8>) -> bool {
    p.len() >= 2 && is_letter(p[0]) && p[1] == COLON
}

/// Whether `p` holds `UNC` behind the start of a verbatim path.
pub open spec fn has_unc(p: Seq<u8>) -> bool {
    p.len() >= 7 && p[4] == 85 && p[5] == 78 && p[6] == 67
}

/// Whether position `i` of a verbatim path ends what says which kind of volume follows. Either
/// slash can stand there.
pub open spec fn ends_kind(p: Seq<u8>, i: int) -> bool {
    (i == 6 && has_drive(p.skip(4))) || (i == 7 && has_unc(p))
}

/// How a byte of a native Windows path is held.
pub open spec fn held_byte(p: Seq<u8>, i: int) -> u8 {
    if is_verbatim(Platform::Windows, p) {
        if i < 4 {
            p[i]
        } else if p[i] == BACKSLASH {
            SEPARATOR
        } else if p[i] == SEPARATOR && !ends_kind(p, i) {
            BACKSLASH
        } else {
            p[i]
        }
    } else if p[i] == BACKSLASH {
        SEPARATOR
    } else {
        p[i]
    }
}

/// The form in which a native path is held: a POSIX path as it is, a Windows path with forward
/// slashes as separators. In a verbatim path a forward slash separates nothing; there the two
/// slashes change places behind the start.
pub open spec fn slashed(platform: Platform, p: Seq<u8>) -> Seq<u8> {
    match platform {
        Platform::Posix => p,
        Platform::Windows => Seq::new(p.len(), |i: int| held_byte(p, i)),
    }
}

/// The native form of a path that is held.
pub open spec fn native(platform: Platform, p: Seq<u8>) -> Seq<u8> {
    if is_verbatim(platform, p) {
        Seq::new(
            p.len(),
            |i: int|
                if i < 4 {
                    p[i]
                } else if p[i] == SEPARATOR {
                    BACKSLASH
                } else if p[i] == BACKSLASH {
                    SEPARATOR
                } else {
                    p[i]
                },
        )
    } else {
        p
    }
}

/// The length of the prefix of a verbatim path: `UNC`, a server and a share, or a drive, or one
/// segment.
pub open spec fn verbatim_len(p: Seq<u8>) -> int {
    if has_unc(p) && p.len() >= 8 && p[7] == SEPARATOR {
        let server_end = segment_end(p, 8);
        if server_end < p.len() && server_end + 1 < segment_end(p, server_end + 1) {
            segment_end(p, server_end + 1)
        } else {
            server_end
        }
    } else if has_drive(p.skip(4)) && (p.len() == 6 || p[6] == SEPARATOR) {
        6
    } else {
        segment_end(p, 4)
    }
}

/// The length of the prefix of `p` that names a volume.
pub open spec fn prefix_len(platform: Platform, p: Seq<u8>) -> int {
    if platform == Platform::Posix {
        0
    } else if is_verbatim(platform, p) {
        verbatim_len(p)
    } else if has_drive(p) {
        2
    } else if p.len() < 2 || p[0] != SEPARATOR || p[1] != SEPARATOR {
        0
    } else if p.len() >= 4 && p[2] == DOT && p[3] == SEPARATOR {
        segment_end(p, 4)
    } else {
        let server_end = segment_end(p, 2);
        if 2 < server_end < p.len() && server_end + 1 < segment_end(p, server_end + 1) {
            segment_end(p, server_end + 1)
        } else {
            0
        }
    }
}

/// The prefix of `p` that names a volume; empty where there is none.
pub open spec fn prefix_of(platform: Platform, p: Seq<u8>) -> Seq<u8> {
    p.take(prefix_len(platform, p))
}

/// What follows the prefix of `p`.
pub open spec fn behind_prefix(platform: Platform, p: Seq<u8>) -> Seq<u8> {
    p.skip(prefix_len(platform, p))
}

/// What follows the prefix of `p`, where a share or a device alone stands for its root. A
/// verbatim prefix alone does not.
pub open spec fn body_of(platform: Platform, p: Seq<u8>) -> Seq<u8> {
    if prefix_len(platform, p) > 2 && prefix_len(platform, p) == p.len() && !is_verbatim(
        platform,
        p,
    ) {
        seq![SEPARATOR]
    } else {
        behind_prefix(platform, p)
    }
}

/// A byte as it is compared where it is a drive letter.
pub open spec fn folded_letter(b: u8) -> u8 {
    if 97 <= b <= 122 {
        (b - 32) as u8
    } else {
        b
    }
}

/// A prefix as it is compared: the case of a drive letter does not matter.
pub open spec fn folded(prefix: Seq<u8>) -> Seq<u8> {
    if prefix.len() == 2 {
        prefix.update(0, folded_letter(prefix[0]))
    } else if prefix.len() == 6 && is_verbatim(Platform::Windows, prefix) && prefix[5] == COLON {
        prefix.update(4, folded_letter(prefix[4]))
    } else {
        prefix
    }
}

/// Whether a path does not depend on a working directory. On Windows it has to name a volume.
pub open spec fn is_absolute_on(platform: Platform, p: Seq<u8>) -> bool {
    match platform {
        Platform::Posix => is_absolute_text(p),
        Platform::Windows => prefix_len(platform, p) > 0 && (is_verbatim(platform, p)
            || is_absolute_text(body_of(platform, p))),
    }
}

/// What the components `tail` do, one after the other, to what follows a verbatim prefix: whether
/// there is a root, and the components behind it. A root starts anew, a `.` does nothing, a `..`
/// takes away a name, and a name is added.
pub open spec fn resolved(root: bool, parts: Seq<Seq<u8>>, tail: Seq<Seq<u8>>) -> (
    bool,
    Seq<Seq<u8>>,
)
    decreases tail.len(),
{
    if tail.len() == 0 {
        (root, parts)
    } else {
        let (r, q) = resolved(root, parts, tail.drop_last());
        let c = tail.last();
        if c == seq![SEPARATOR] {
            (true, Seq::empty())
        } else if c == seq![DOT] {
            (r, q)
        } else if c == seq![DOT, DOT] {
            if q.len() > 0 && !is_dot_component(q.last()) {
                (r, q.drop_last())
            } else {
                (r, q)
            }
        } else {
            (r, q.push(c))
        }
    }
}

/// Some components, each behind a separator.
pub open spec fn laid_out(parts: Seq<Seq<u8>>) -> Seq<u8>
    decreases parts.len(),
{
    if parts.len() == 0 {
        Seq::empty()
    } else {
        laid_out(parts.drop_last()).push(SEPARATOR) + parts.last()
    }
}

/// What follows a verbatim prefix, written out.
pub open spec fn verbatim_body(root: bool, parts: Seq<Seq<u8>>) -> Seq<u8> {
    if root && parts.len() == 0 {
        seq![SEPARATOR]
    } else {
        laid_out(parts)
    }
}

/// The components of `body` behind its root, if it has one.
pub open spec fn names_of(body: Seq<u8>) -> Seq<Seq<u8>> {
    if is_absolute_text(body) {
        components(Dots::Keep, body).skip(1)
    } else {
        components(Dots::Keep, body)
    }
}

/// `tail` seen from `base`. A `tail` that names a volume replaces `base`; one that starts at the
/// root replaces what follows the prefix of `base`. In a verbatim path `.` and `..` have no
/// meaning to the system, so those of `tail` are worked out.
pub open spec fn joined_on(platform: Platform, base: Seq<u8>, tail: Seq<u8>) -> Seq<u8> {
    if prefix_len(platform, tail) > 0 {
        tail
    } else if is_verbatim(platform, base) {
        if tail.len() > 0 {
            let body = behind_prefix(platform, base);
            let (root, parts) = resolved(
                is_absolute_text(body),
                names_of(body),
                components(Dots::Skip, tail),
            );
            prefix_of(platform, base) + verbatim_body(root, parts)
        } else if base.last() == SEPARATOR || base.last() == BACKSLASH {
            base
        } else {
            base.push(SEPARATOR)
        }
    } else {
        prefix_of(platform, base) + joined(
            if base.len() > 0 && base.last() == SEPARATOR {
                behind_prefix(platform, base)
            } else {
                body_of(platform, base)
            },
            tail,
        )
    }
}

/// The path written as `tail`, seen from `base`.
pub open spec fn joined_text(platform: Platform, base: Seq<u8>, tail: Seq<char>) -> Seq<u8> {
    joined_on(platform, base, slashed(platform, encode_utf8(tail)))
}

/// `p` without its last component; `None` where `p` has a prefix and a root at most.
pub open spec fn parent_on(platform: Platform, p: Seq<u8>) -> Option<Seq<u8>> {
    match parent_text(dots_of(platform, p), body_of(platform, p)) {
        Some(q) => Some(prefix_of(platform, p) + q),
        None => None,
    }
}

/// The paths above `p`: its parent, the parent of that, and so on.
pub open spec fn ancestors_on(platform: Platform, p: Seq<u8>) -> Seq<Seq<u8>> {
    ancestors(dots_of(platform, p), body_of(platform, p)).map_values(
        |q: Seq<u8>| prefix_of(platform, p) + q,
    )
}

/// The components of `p`, the prefix first where there is one.
pub open spec fn components_on(platform: Platform, p: Seq<u8>) -> Seq<Seq<u8>> {
    if prefix_len(platform, p) > 0 {
        seq![folded(prefix_of(platform, p))] + components(
            dots_of(platform, p),
            body_of(platform, p),
        )
    } else {
        components(Dots::Skip, p)
    }
}

/// `p` from its first to its last component.
pub open spec fn trimmed(platform: Platform, p: Seq<u8>) -> Seq<u8> {
    let body = behind_prefix(platform, p);
    let dots = dots_of(platform, p);
    prefix_of(platform, p) + sub_path(dots, body, 0, components(dots, body).len() as int)
}

/// The rest of `p` behind the components of `base`; `None` where `p` does not start with them.
pub open spec fn stripped_on(platform: Platform, p: Seq<u8>, base: Seq<u8>) -> Option<Seq<u8>> {
    if base.len() == 0 {
        Some(trimmed(platform, p))
    } else if folded(prefix_of(platform, p)) == folded(prefix_of(platform, base)) {
        stripped_prefix(dots_of(platform, p), body_of(platform, p), body_of(platform, base))
    } else {
        None
    }
}

/// `p` without `.` and `..` at its start. Behind a prefix nothing stands at the start.
pub open spec fn without_dots_on(platform: Platform, p: Seq<u8>) -> Seq<u8> {
    if prefix_len(platform, p) > 0 {
        trimmed(platform, p)
    } else {
        sub_path(
            Dots::Skip,
            p,
            first_named(components(Dots::Skip, p), 0),
            components(Dots::Skip, p).len() as int,
        )
    }
}

/// A prefix lies inside its path and ends where a segment ends, unless it is a drive.
pub proof fn lemma_prefix_len(platform: Platform, p: Seq<u8>)
    ensures
        0 <= prefix_len(platform, p) <= p.len(),
        has_drive(p) && platform == Platform::Windows <==> prefix_len(platform, p) == 2,
        prefix_len(platform, p) == 0 || prefix_len(platform, p) >= 2,
        is_verbatim(platform, p) ==> prefix_len(platform, p) >= 4,
        prefix_len(platform, p) > 2 ==> (is_verbatim(platform, p) || (p[0] == SEPARATOR && p[1]
            == SEPARATOR)) && (prefix_len(platform, p) < p.len() ==> p[prefix_len(platform, p)]
            == SEPARATOR),
{
    if is_verbatim(platform, p) {
        lemma_segment_end_bounds(p, 4);
        lemma_segment_end_stops(p, 4);
        if has_unc(p) && p.len() >= 8 {
            lemma_segment_end_bounds(p, 8);
            lemma_segment_end_stops(p, 8);
            let e = segment_end(p, 8);
            if e < p.len() {
                lemma_segment_end_bounds(p, e + 1);
                lemma_segment_end_stops(p, e + 1);
            }
        }
    } else if platform == Platform::Windows && !has_drive(p) && p.len() >= 2 && p[0] == SEPARATOR
        && p[1] == SEPARATOR {
        if p.len() >= 4 && p[2] == DOT && p[3] == SEPARATOR {
            lemma_segment_end_bounds(p, 4);
            lemma_segment_end_stops(p, 4);
        } else {
            let e = segment_end(p, 2);
            lemma_segment_end_bounds(p, 2);
            if e < p.len() {
                lemma_segment_end_bounds(p, e + 1);
                lemma_segment_end_stops(p, e + 1);
            }
        }
    }
}

/// On a path without a prefix, the platform does not matter.
pub proof fn lemma_no_prefix(platform: Platform, p: Seq<u8>)
    requires
        prefix_len(platform, p) == 0,
    ensures
        prefix_of(platform, p) == Seq::<u8>::empty(),
        behind_prefix(platform, p) == p,
        body_of(platform, p) == p,
        dots_of(platform, p) == Dots::Skip,
        ancestors_on(platform, p) == ancestors(Dots::Skip, p),
        parent_on(platform, p) == parent_text(Dots::Skip, p),
        forall|tail: Seq<u8>| prefix_len(platform, tail) == 0 ==> #[trigger] joined_on(
            platform,
            p,
            tail,
        ) == joined(p, tail),
{
    lemma_prefix_len(platform, p);
    assert(prefix_of(platform, p) =~= Seq::<u8>::empty());
    assert(behind_prefix(platform, p) =~= p);
    assert forall|q: Seq<u8>| #[trigger] (prefix_of(platform, p) + q) == q by {
        assert(Seq::<u8>::empty() + q =~= q);
    }
    assert(ancestors_on(platform, p) =~= ancestors(Dots::Skip, p));
}

/// The end of the segment that holds position `i`.
fn end_of_segment(bytes: &[u8], i: usize) -> (r: usize)
    requires
        i <= bytes@.len(),
    ensures
        r == segment_end(bytes@, i as int),
        i <= r <= bytes@.len(),
{
    let mut j: usize = i;
    while j < bytes.len() && bytes[j] != SEPARATOR
        invariant
            i <= j <= bytes@.len(),
            segment_end(bytes@, j as int) == segment_end(bytes@, i as int),
        decreases bytes@.len() - j,
    {
        j += 1;
    }
    j
}

/// Whether a byte is an ASCII letter.
fn letter(b: u8) -> (r: bool)
    ensures
        r == is_letter(b),
{
    (65 <= b && b <= 90) || (97 <= b && b <= 122)
}

/// Whether `p` starts as a verbatim path does.
fn starts_verbatim(p: &[u8], platform: Platform) -> (r: bool)
    ensures
        r == is_verbatim(platform, p@),
{
    platform == Platform::Windows && p.len() >= 4 && p[0] == BACKSLASH && p[1] == BACKSLASH && p[2]
        == QUESTION_MARK && p[3] == BACKSLASH
}

/// Whether a verbatim path goes on with `UNC`.
fn goes_on_with_unc(p: &[u8]) -> (r: bool)
    ensures
        r == has_unc(p@),
{
    p.len() >= 7 && p[4] == 85 && p[5] == 78 && p[6] == 67
}

/// Whether a verbatim path goes on with a drive.
fn goes_on_with_drive(p: &[u8]) -> (r: bool)
    requires
        p@.len() >= 4,
    ensures
        r == has_drive(p@.skip(4)),
{
    assert(p@.skip(4).len() == p@.len() - 4);
    proof {
        if p@.len() >= 6 {
            assert(p@.skip(4)[0] == p@[4]);
            assert(p@.skip(4)[1] == p@[5]);
        }
    }
    p.len() >= 6 && letter(p[4]) && p[5] == COLON
}

/// The form in which the native path `bytes` is held.
fn slashed_bytes(bytes: &[u8], platform: Platform) -> (r: Vec<u8>)
    ensures
        r@ == slashed(platform, bytes@),
{
    if platform == Platform::Posix {
        return slice_to_vec(bytes);
    }
    let verbatim: bool = starts_verbatim(bytes, platform);
    let drive: bool = verbatim && goes_on_with_drive(bytes);
    let unc: bool = verbatim && goes_on_with_unc(bytes);
    let mut out: Vec<u8> = Vec::new();
    let mut i: usize = 0;
    while i < bytes.len()
        invariant
            verbatim == is_verbatim(Platform::Windows, bytes@),
            drive == (verbatim && has_drive(bytes@.skip(4))),
            unc == (verbatim && has_unc(bytes@)),
            i <= bytes@.len(),
            out@.len() == i,
            forall|j: int| 0 <= j < i ==> #[trigger] out@[j] == held_byte(bytes@, j),
        decreases bytes@.len() - i,
    {
        let b: u8 = bytes[i];
        let kind: bool = (i == 6 && drive) || (i == 7 && unc);
        let held: u8 = if verbatim && i < 4 {
            b
        } else if b == BACKSLASH {
            SEPARATOR
        } else if verbatim && b == SEPARATOR && !kind {
            BACKSLASH
        } else {
            b
        };
        out.push(held);
        i += 1;
    }
    assert(out@ =~= slashed(platform, bytes@));
    out
}

/// A byte as it is compared where it is a drive letter.
fn fold_letter(b: u8) -> (r: u8)
    ensures
        r == folded_letter(b),
{
    if 97 <= b && b <= 122 {
        b - 32
    } else {
        b
    }
}

/// A prefix as it is compared.
fn fold_prefix(prefix: &[u8]) -> (r: Vec<u8>)
    ensures
        r@ == folded(prefix@),
{
    let mut out: Vec<u8> = slice_to_vec(prefix);
    if prefix.len() == 2 {
        out.set(0, fold_letter(prefix[0]));
    } else if prefix.len() == 6 && starts_verbatim(prefix, Platform::Windows) && prefix[5]
        == COLON {
        out.set(4, fold_letter(prefix[4]));
    }
    out
}

/// Whether two byte strings are the same.
fn same_bytes(a: &[u8], b: &[u8]) -> (r: bool)
    ensures
        r == (a@ == b@),
{
    if a.len() != b.len() {
        return false;
    }
    let mut i: usize = 0;
    while i < a.len()
        invariant
            a@.len() == b@.len(),
            i <= a@.len(),
            forall|j: int| 0 <= j < i ==> a@[j] == b@[j],
        decreases a@.len() - i,
    {
        if a[i] != b[i] {
            return false;
        }
        i += 1;
    }
    assert(a@ =~= b@);
    true
}

/// Whether two prefixes name the same volume.
fn same_volume(a: &[u8], b: &[u8]) -> (r: bool)
    ensures
        r == (folded(a@) == folded(b@)),
{
    let x: Vec<u8> = fold_prefix(a);
    let y: Vec<u8> = fold_prefix(b);
    same_bytes(x.as_slice(), y.as_slice())
}

/// The texts of some paths.
pub open spec fn texts_of(paths: Seq<FsPath>) -> Seq<Seq<u8>> {
    paths.map_values(|p: FsPath| p@)
}

/// What the components `tail` do to what follows a verbatim prefix.
fn resolve(root: bool, parts: Vec<FsPath>, tail: Vec<FsPath>) -> (r: (bool, Vec<FsPath>))
    ensures
        (r.0, texts_of(r.1@)) == resolved(root, texts_of(parts@), texts_of(tail@)),
{
    let mut root_now: bool = root;
    let mut out: Vec<FsPath> = parts;
    let mut i: usize = 0;
    assert(texts_of(tail@).take(0) =~= Seq::empty());
    while i < tail.len()
        invariant
            i <= tail@.len(),
            (root_now, texts_of(out@)) == resolved(
                root,
                texts_of(parts@),
                texts_of(tail@).take(i as int),
            ),
        decreases tail@.len() - i,
    {
        let ghost done = texts_of(tail@).take(i as int);
        let ghost before = texts_of(out@);
        let c: &[u8] = tail[i].as_bytes();
        proof {
            let next = texts_of(tail@).take(i + 1);
            assert(next.drop_last() =~= done);
            assert(next.last() == c@);
            assert(c@.len() == 1 ==> c@ =~= seq![c@[0]]);
            assert(c@.len() == 2 ==> c@ =~= seq![c@[0], c@[1]]);
        }
        if c.len() == 1 && c[0] == SEPARATOR {
            root_now = true;
            out = Vec::new();
            assert(texts_of(out@) =~= Seq::empty());
        } else if c.len() == 1 && c[0] == DOT {
        } else if c.len() == 2 && c[0] == DOT && c[1] == DOT {
            let n: usize = out.len();
            if n > 0 {
                let last: &[u8] = out[n - 1].as_bytes();
                proof {
                    assert(before.last() == last@);
                    assert(last@.len() == 1 ==> last@ =~= seq![last@[0]]);
                    assert(last@.len() == 2 ==> last@ =~= seq![last@[0], last@[1]]);
                    if is_dot_component(last@) {
                        assert(last@[0] == DOT);
                    }
                }
                let dot: bool = (last.len() == 1 && last[0] == DOT) || (last.len() == 2 && last[0]
                    == DOT && last[1] == DOT);
                assert(dot == is_dot_component(last@)) by {
                    if is_dot_component(last@) && last@.len() == 2 {
                        assert(last@[1] == DOT);
                    }
                }
                if !dot {
                    let _ = out.pop();
                    assert(texts_of(out@) =~= before.drop_last());
                }
            }
        } else {
            proof {
                if c@ == seq![SEPARATOR] || c@ == seq![DOT] {
                    assert(c@[0] == SEPARATOR || c@[0] == DOT);
                }
                if c@ == seq![DOT, DOT] {
                    assert(c@[0] == DOT && c@[1] == DOT);
                }
            }
            out.push(tail[i].clone());
            assert(texts_of(out@) =~= before.push(c@));
        }
        i += 1;
    }
    assert(texts_of(tail@).take(tail@.len() as int) =~= texts_of(tail@));
    (root_now, out)
}

/// What follows a verbatim prefix, written out.
fn write_body(root: bool, parts: Vec<FsPath>) -> (r: FsPath)
    ensures
        r@ == verbatim_body(root, texts_of(parts@)),
{
    let mut bytes: Vec<u8> = Vec::new();
    if root && parts.len() == 0 {
        bytes.push(SEPARATOR);
        assert(bytes@ =~= seq![SEPARATOR]);
        return FsPath::from_bytes(bytes);
    }
    let mut i: usize = 0;
    assert(texts_of(parts@).take(0) =~= Seq::empty());
    while i < parts.len()
        invariant
            i <= parts@.len(),
            bytes@ == laid_out(texts_of(parts@).take(i as int)),
        decreases parts@.len() - i,
    {
        let ghost before = bytes@;
        proof {
            let next = texts_of(parts@).take(i + 1);
            assert(next.drop_last() =~= texts_of(parts@).take(i as int));
            assert(next.last() == parts@[i as int]@);
        }
        bytes.push(SEPARATOR);
        let mut more: Vec<u8> = slice_to_vec(parts[i].as_bytes());
        bytes.append(&mut more);
        assert(bytes@ =~= before.push(SEPARATOR) + parts@[i as int]@);
        i += 1;
    }
    assert(texts_of(parts@).take(parts@.len() as int) =~= texts_of(parts@));
    FsPath::from_bytes(bytes)
}

impl FsPath {
    /// The path that `text` names on `platform`.
    pub fn from_text_on(text: &str, platform: Platform) -> (r: FsPath)
        ensures
            r@ == slashed(platform, text.spec_bytes()),
    {
        FsPath::from_bytes(slashed_bytes(text.as_bytes(), platform))
    }

    /// The path that `bytes` name on `platform`.
    pub fn from_bytes_on(bytes: &[u8], platform: Platform) -> (r: FsPath)
        ensures
            r@ == slashed(platform, bytes@),
    {
        FsPath::from_bytes(slashed_bytes(bytes, platform))
    }

    /// The native form of the path: what `platform` is to be handed.
    pub fn to_native(&self, platform: Platform) -> (r: Vec<u8>)
        ensures
            r@ == native(platform, self@),
    {
        let p: &[u8] = self.as_bytes();
        if !starts_verbatim(p, platform) {
            return slice_to_vec(p);
        }
        let mut out: Vec<u8> = Vec::new();
        let mut i: usize = 0;
        while i < p.len()
            invariant
                p@ == self@,
                is_verbatim(platform, p@),
                i <= p@.len(),
                out@ == native(platform, p@).take(i as int),
            decreases p@.len() - i,
        {
            let b: u8 = if i < 4 {
                p[i]
            } else if p[i] == SEPARATOR {
                BACKSLASH
            } else if p[i] == BACKSLASH {
                SEPARATOR
            } else {
                p[i]
            };
            out.push(b);
            i += 1;
            assert(out@ =~= native(platform, p@).take(i as int));
        }
        assert(out@ =~= native(platform, self@));
        out
    }

    /// The length of the prefix that names a volume.
    fn prefix_size(&self, platform: Platform) -> (r: usize)
        ensures
            r == prefix_len(platform, self@),
            r <= self@.len(),
    {
        proof {
            lemma_prefix_len(platform, self@);
        }
        if platform == Platform::Posix {
            return 0;
        }
        let p: &[u8] = self.as_bytes();
        let n: usize = p.len();
        if starts_verbatim(p, platform) {
            if goes_on_with_unc(p) && n >= 8 && p[7] == SEPARATOR {
                let server_end: usize = end_of_segment(p, 8);
                if server_end < n {
                    let share_end: usize = end_of_segment(p, server_end + 1);
                    if share_end > server_end + 1 {
                        return share_end;
                    }
                }
                return server_end;
            }
            if goes_on_with_drive(p) && (n == 6 || p[6] == SEPARATOR) {
                return 6;
            }
            return end_of_segment(p, 4);
        }
        if n < 2 {
            return 0;
        }
        if letter(p[0]) && p[1] == COLON {
            return 2;
        }
        if p[0] != SEPARATOR || p[1] != SEPARATOR {
            return 0;
        }
        if n >= 4 && p[2] == DOT && p[3] == SEPARATOR {
            return end_of_segment(p, 4);
        }
        let server_end: usize = end_of_segment(p, 2);
        if server_end > 2 && server_end < n {
            let share_end: usize = end_of_segment(p, server_end + 1);
            if share_end > server_end + 1 {
                return share_end;
            }
        }
        0
    }

    /// What an inner `.` segment of the path is.
    fn dots(&self, platform: Platform) -> (r: Dots)
        ensures
            r == dots_of(platform, self@),
    {
        if starts_verbatim(self.as_bytes(), platform) {
            Dots::Keep
        } else {
            Dots::Skip
        }
    }

    /// The bytes of the prefix, followed by `rest`.
    fn behind_own_prefix(&self, size: usize, rest: &FsPath) -> (r: FsPath)
        requires
            size <= self@.len(),
        ensures
            r@ == self@.take(size as int) + rest@,
    {
        let mut bytes: Vec<u8> = slice_to_vec(slice_subrange(self.as_bytes(), 0, size));
        let mut more: Vec<u8> = slice_to_vec(rest.as_bytes());
        bytes.append(&mut more);
        assert(bytes@ =~= self@.take(size as int) + rest@);
        FsPath::from_bytes(bytes)
    }

    /// What follows the prefix.
    fn rest_behind(&self, size: usize) -> (r: FsPath)
        requires
            size <= self@.len(),
        ensures
            r@ == self@.skip(size as int),
    {
        let p: &[u8] = self.as_bytes();
        let r: FsPath = FsPath::from_bytes(slice_to_vec(slice_subrange(p, size, p.len())));
        assert(r@ =~= self@.skip(size as int));
        r
    }

    /// What follows the prefix, where a share or a device alone stands for its root.
    fn body(&self, platform: Platform, size: usize) -> (r: FsPath)
        requires
            size == prefix_len(platform, self@),
            size <= self@.len(),
        ensures
            r@ == body_of(platform, self@),
    {
        let p: &[u8] = self.as_bytes();
        if size > 2 && size == p.len() && !starts_verbatim(p, platform) {
            let root: Vec<u8> = vec![SEPARATOR];
            assert(root@ =~= seq![SEPARATOR]);
            FsPath::from_bytes(root)
        } else {
            self.rest_behind(size)
        }
    }

    /// Whether the path does not depend on a working directory.
    pub fn is_absolute_on(&self, platform: Platform) -> (r: bool)
        ensures
            r == is_absolute_on(platform, self@),
    {
        match platform {
            Platform::Posix => self.is_absolute(),
            Platform::Windows => {
                let size: usize = self.prefix_size(platform);
                size > 0 && (starts_verbatim(self.as_bytes(), platform) || self.body(
                    platform,
                    size,
                ).is_absolute())
            },
        }
    }

    /// `tail` seen from this path.
    pub fn join_on(&self, tail: &FsPath, platform: Platform) -> (r: FsPath)
        ensures
            r@ == joined_on(platform, self@, tail@),
    {
        if tail.prefix_size(platform) > 0 {
            return tail.clone();
        }
        let size: usize = self.prefix_size(platform);
        if starts_verbatim(self.as_bytes(), platform) {
            return self.join_verbatim(tail, platform, size);
        }
        let p: &[u8] = self.as_bytes();
        let n: usize = p.len();
        let rest: FsPath = if n > 0 && p[n - 1] == SEPARATOR {
            self.rest_behind(size).join(tail)
        } else {
            self.body(platform, size).join(tail)
        };
        self.behind_own_prefix(size, &rest)
    }

    /// `tail`, which names no volume, seen from this verbatim path.
    fn join_verbatim(&self, tail: &FsPath, platform: Platform, size: usize) -> (r: FsPath)
        requires
            is_verbatim(platform, self@),
            size == prefix_len(platform, self@),
            prefix_len(platform, tail@) == 0,
        ensures
            r@ == joined_on(platform, self@, tail@),
    {
        proof {
            lemma_prefix_len(platform, self@);
        }
        let p: &[u8] = self.as_bytes();
        let n: usize = p.len();
        if tail.as_bytes().len() == 0 {
            if p[n - 1] == SEPARATOR || p[n - 1] == BACKSLASH {
                return self.clone();
            }
            let mut bytes: Vec<u8> = slice_to_vec(p);
            bytes.push(SEPARATOR);
            return FsPath::from_bytes(bytes);
        }
        let body: FsPath = self.rest_behind(size);
        let mut names: Vec<FsPath> = body.parts(Dots::Keep);
        let rooted: bool = body.is_absolute();
        proof {
            if rooted {
                assert(components(Dots::Keep, body@)[0] == body@.subrange(0, 1));
            }
            assert(texts_of(names@) == components(Dots::Keep, body@));
        }
        if rooted {
            let ghost all = names@;
            let _ = names.remove(0);
            assert(texts_of(names@) =~= texts_of(all).skip(1));
        }
        let (root, parts) = resolve(rooted, names, tail.parts(Dots::Skip));
        let rest: FsPath = write_body(root, parts);
        self.behind_own_prefix(size, &rest)
    }

    /// The path written as `tail`, seen from this path.
    pub fn join_text_on(&self, tail: &str, platform: Platform) -> (r: FsPath)
        ensures
            r@ == joined_text(platform, self@, tail@),
    {
        self.join_on(&FsPath::from_text_on(tail, platform), platform)
    }

    /// The path without its last component.
    pub fn parent_on(&self, platform: Platform) -> (r: Option<FsPath>)
        ensures
            opt_path(r) == parent_on(platform, self@),
    {
        let size: usize = self.prefix_size(platform);
        match self.body(platform, size).parent(self.dots(platform)) {
            Some(q) => Some(self.behind_own_prefix(size, &q)),
            None => None,
        }
    }

    /// The path from its first to its last component.
    fn trimmed_on(&self, platform: Platform) -> (r: FsPath)
        ensures
            r@ == trimmed(platform, self@),
    {
        let size: usize = self.prefix_size(platform);
        let body: FsPath = self.rest_behind(size);
        let start: FsPath = FsPath::new();
        let dots: Dots = self.dots(platform);
        proof {
            assert(components(dots, start@) =~= Seq::empty());
            assert(components(dots, start@).is_prefix_of(components(dots, body@)));
        }
        match body.strip_prefix(&start, dots) {
            Some(rest) => self.behind_own_prefix(size, &rest),
            None => body,
        }
    }

    /// The rest of this path behind the components of `base`; `None` where the path does not
    /// start with them.
    pub fn strip_prefix_on(&self, base: &FsPath, platform: Platform) -> (r: Option<FsPath>)
        ensures
            opt_path(r) == stripped_on(platform, self@, base@),
    {
        if base.as_bytes().len() == 0 {
            return Some(self.trimmed_on(platform));
        }
        let mine: usize = self.prefix_size(platform);
        let theirs: usize = base.prefix_size(platform);
        let a: &[u8] = slice_subrange(self.as_bytes(), 0, mine);
        let b: &[u8] = slice_subrange(base.as_bytes(), 0, theirs);
        assert(a@ =~= prefix_of(platform, self@));
        assert(b@ =~= prefix_of(platform, base@));
        if !same_volume(a, b) {
            return None;
        }
        self.body(platform, mine).strip_prefix(
            &base.body(platform, theirs),
            self.dots(platform),
        )
    }

    /// The path without `.` and `..` at its start.
    pub fn without_leading_dots_on(&self, platform: Platform) -> (r: FsPath)
        ensures
            r@ == without_dots_on(platform, self@),
    {
        if self.prefix_size(platform) > 0 {
            self.trimmed_on(platform)
        } else {
            self.without_leading_dots()
        }
    }
}

} // verus!
