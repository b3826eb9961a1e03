//! Laws of the volumes that Windows paths name, and of paths on each platform, byte by byte.

use crate::path::components;
use crate::path::is_absolute_text;
use crate::path::lemma_spans_ordered;
use crate::path::segment_end;
use crate::path::spans;
use crate::path::Dots;
use crate::path::FsPath;
use crate::path_laws::law_component_has_no_separator;
use crate::path_laws::law_sub_path_components;
use crate::platform::behind_prefix;
use crate::platform::body_of;
use crate::platform::components_on;
use crate::platform::dots_of;
use crate::platform::folded;
use crate::platform::folded_letter;
use crate::platform::has_drive;
use crate::platform::is_verbatim;
use crate::platform::lemma_no_prefix;
use crate::platform::lemma_prefix_len;
use crate::platform::parent_on;
use crate::platform::prefix_len;
use crate::platform::prefix_of;
use crate::platform::resolved;
use crate::platform::slashed;
use crate::platform::trimmed;
use crate::platform::Platform;
use crate::platform_laws::lemma_inside_segment;
use crate::utils::strip_leading_relative;
use vstd::prelude::*;

verus! {

/// Whether a text can name a server, a share or a device: it is not empty and holds no separator.
pub open spec fn is_segment(s: Seq<u8>) -> bool {
    s.len() > 0 && forall|i: int| 0 <= i < s.len() ==> #[trigger] s[i] != 47
}

/// Whether a text can follow what names a volume: it is empty or starts with a separator.
pub open spec fn is_behind(rest: Seq<u8>) -> bool {
    rest.len() == 0 || rest[0] == 47
}

/// Whether a byte can be a drive letter.
pub open spec fn is_drive_letter(b: u8) -> bool {
    (65 <= b && b <= 90) || (97 <= b && b <= 122)
}

proof fn lemma_segment(p: Seq<u8>, i: int, e: int)
    requires
        0 <= i <= e <= p.len(),
        forall|k: int| i <= k < e ==> #[trigger] p[k] != 47,
        e == p.len() || p[e] == 47,
    ensures
        segment_end(p, i) == e,
    decreases e - i,
{
    if i < e {
        assert(p[i] != 47);
        lemma_segment(p, i + 1, e);
    }
}

/// A POSIX path names no volume. A Windows path that starts with a letter and a colon names a
/// drive; one that starts neither so, nor with two separators, nor in the verbatim way, names
/// none.
pub proof fn law_drives(p: Seq<u8>)
    ensures
        prefix_len(Platform::Posix, p) == 0,
        p.len() >= 2 && is_drive_letter(p[0]) && p[1] == 58 ==> prefix_len(Platform::Windows, p)
            == 2,
        p.len() < 2 ==> prefix_len(Platform::Windows, p) == 0,
        p.len() >= 2 && !(is_drive_letter(p[0]) && p[1] == 58) && p[0] != 92 && !(p[0] == 47
            && p[1] == 47) ==> prefix_len(Platform::Windows, p) == 0,
{
}

/// Two separators, a server, a separator and a share name a volume, whatever is behind it. A
/// server alone does not.
pub proof fn law_shares(server: Seq<u8>, share: Seq<u8>, rest: Seq<u8>)
    requires
        is_segment(server),
        is_segment(share),
        is_behind(rest),
        server != seq![46u8],
    ensures
        prefix_len(
            Platform::Windows,
            seq![47u8, 47u8] + server + seq![47u8] + share + rest,
        ) == 3 + server.len() + share.len(),
        prefix_len(Platform::Windows, seq![47u8, 47u8] + server) == 0,
        prefix_len(Platform::Windows, seq![47u8, 47u8] + server + seq![47u8]) == 0,
{
    let p = seq![47u8, 47u8] + server + seq![47u8] + share + rest;
    let e = 2 + server.len() as int;
    let f = e + 1 + share.len() as int;
    assert forall|k: int| 2 <= k < e implies #[trigger] p[k] != 47 by {
        assert(p[k] == server[k - 2]);
    }
    assert forall|k: int| e + 1 <= k < f implies #[trigger] p[k] != 47 by {
        assert(p[k] == share[k - e - 1]);
    }
    assert(p[e] == 47);
    if rest.len() > 0 {
        assert(p[f] == rest[0]);
    }
    lemma_segment(p, 2, e);
    lemma_segment(p, e + 1, f);
    assert(!(p[2] == 46 && p[3] == 47)) by {
        assert(p[2] == server[0]);
        if server.len() == 1 {
            assert(server =~= seq![server[0]]);
        } else {
            assert(p[3] == server[1]);
        }
    }
    let q = seq![47u8, 47u8] + server;
    assert forall|k: int| 2 <= k < e implies #[trigger] q[k] != 47 by {
        assert(q[k] == server[k - 2]);
    }
    lemma_segment(q, 2, e);
    if q.len() >= 4 {
        assert(q[3] == server[1]);
    }
    let s = seq![47u8, 47u8] + server + seq![47u8];
    assert forall|k: int| 2 <= k < e implies #[trigger] s[k] != 47 by {
        assert(s[k] == server[k - 2]);
    }
    assert(s[e] == 47);
    lemma_segment(s, 2, e);
    lemma_segment(s, e + 1, e + 1);
    assert(!(s[2] == 46 && s[3] == 47)) by {
        assert(s[2] == server[0]);
        if server.len() == 1 {
            assert(server =~= seq![server[0]]);
        } else {
            assert(s[3] == server[1]);
        }
    }
}

/// Two separators, a dot, a separator and a name name a device.
pub proof fn law_devices(name: Seq<u8>, rest: Seq<u8>)
    requires
        is_segment(name),
        is_behind(rest),
    ensures
        prefix_len(Platform::Windows, seq![47u8, 47u8, 46u8, 47u8] + name + rest) == 4
            + name.len(),
{
    let p = seq![47u8, 47u8, 46u8, 47u8] + name + rest;
    let e = 4 + name.len() as int;
    assert forall|k: int| 4 <= k < e implies #[trigger] p[k] != 47 by {
        assert(p[k] == name[k - 4]);
    }
    if rest.len() > 0 {
        assert(p[e] == rest[0]);
    }
    lemma_segment(p, 4, e);
}

/// What a verbatim path starts with: two backward slashes, a question mark and a backward slash.
pub open spec fn verbatim_start() -> Seq<u8> {
    seq![92u8, 92u8, 63u8, 92u8]
}

/// In a verbatim path a letter and a colon name a drive, where nothing or a separator follows.
pub proof fn law_verbatim_drives(letter: u8, rest: Seq<u8>)
    requires
        is_drive_letter(letter),
        is_behind(rest),
    ensures
        prefix_len(Platform::Windows, verbatim_start() + seq![letter, 58u8] + rest) == 6,
{
    let p = verbatim_start() + seq![letter, 58u8] + rest;
    assert(p[4] == letter && p[5] == 58);
    assert(p.skip(4)[0] == letter && p.skip(4)[1] == 58);
    if rest.len() > 0 {
        assert(p[6] == rest[0]);
    }
}

/// In a verbatim path `UNC`, a server and a share name a volume.
pub proof fn law_verbatim_shares(server: Seq<u8>, share: Seq<u8>, rest: Seq<u8>)
    requires
        is_segment(server),
        is_segment(share),
        is_behind(rest),
    ensures
        prefix_len(
            Platform::Windows,
            verbatim_start() + seq![85u8, 78u8, 67u8, 47u8] + server + seq![47u8] + share + rest,
        ) == 9 + server.len() + share.len(),
{
    let p = verbatim_start() + seq![85u8, 78u8, 67u8, 47u8] + server + seq![47u8] + share + rest;
    let e = 8 + server.len() as int;
    let f = e + 1 + share.len() as int;
    assert(p[4] == 85 && p[5] == 78 && p[6] == 67 && p[7] == 47);
    assert forall|k: int| 8 <= k < e implies #[trigger] p[k] != 47 by {
        assert(p[k] == server[k - 8]);
    }
    assert forall|k: int| e + 1 <= k < f implies #[trigger] p[k] != 47 by {
        assert(p[k] == share[k - e - 1]);
    }
    assert(p[e] == 47);
    if rest.len() > 0 {
        assert(p[f] == rest[0]);
    }
    lemma_segment(p, 8, e);
    lemma_segment(p, e + 1, f);
}

/// In a verbatim path any other name names a volume.
pub proof fn law_verbatim_names(name: Seq<u8>, rest: Seq<u8>)
    requires
        is_segment(name),
        is_behind(rest),
        name != seq![85u8, 78u8, 67u8],
        name.len() != 2 || name[1] != 58,
    ensures
        prefix_len(Platform::Windows, verbatim_start() + name + rest) == 4 + name.len(),
{
    let p = verbatim_start() + name + rest;
    let e = 4 + name.len() as int;
    assert forall|k: int| 4 <= k < e implies #[trigger] p[k] != 47 by {
        assert(p[k] == name[k - 4]);
    }
    if rest.len() > 0 {
        assert(p[e] == rest[0]);
    }
    lemma_segment(p, 4, e);
    if p.len() >= 8 && p[4] == 85 && p[5] == 78 && p[6] == 67 && p[7] == 47 {
        if name.len() < 3 {
            assert(p[e] == 47);
        } else if name.len() > 3 {
            assert(p[7] == name[3]);
        } else {
            assert(name[0] == p[4] && name[1] == p[5] && name[2] == p[6]);
            assert(name =~= seq![85u8, 78u8, 67u8]);
        }
    }
    if p.len() >= 6 {
        assert(p.skip(4)[0] == p[4] && p.skip(4)[1] == p[5]);
        if name.len() >= 2 {
            assert(p[5] == name[1]);
        } else {
            assert(p[5] == 47);
        }
        if name.len() > 2 && p.len() > 6 {
            assert(p[6] == name[2]);
        }
    }
}

/// Whether a path depends on a working directory. On POSIX it is absolute where it starts at the
/// root. On Windows it has to name a volume too: a drive and a root behind it, or a share or a
/// device, or a verbatim volume.
pub proof fn law_absolute_paths(p: &FsPath, platform: Platform, r: bool)
    requires
        call_ensures(FsPath::is_absolute_on, (p, platform), r),
    ensures
        platform == Platform::Posix ==> (r <==> p@.len() > 0 && p@[0] == 47),
        platform == Platform::Windows ==> {
            &&& prefix_len(platform, p@) == 0 ==> !r
            &&& p@.len() >= 2 && is_drive_letter(p@[0]) && p@[1] == 58 ==> (r <==> p@.len() > 2
                && p@[2] == 47)
            &&& prefix_len(platform, p@) > 2 ==> r
        },
{
    lemma_prefix_len(platform, p@);
    let n = prefix_len(platform, p@);
    if n > 0 && n < p@.len() {
        assert(behind_prefix(platform, p@)[0] == p@[n]);
    }
}

/// How a path is joined on each platform, byte by byte, behind a base that is not verbatim: a path
/// that names a volume stays as it is, one from the root keeps the volume of the base, and any
/// other follows the base behind one separator. The separator is there already where the base ends
/// in one, and none is wanted behind nothing and behind a drive alone.
pub proof fn law_join_on(base: &FsPath, tail: &FsPath, platform: Platform, r: FsPath)
    requires
        call_ensures(FsPath::join_on, (base, tail, platform), r),
        !(platform == Platform::Windows && base@.len() >= 4 && base@.take(4) == verbatim_start()),
    ensures
        prefix_len(platform, tail@) > 0 ==> r@ == tail@,
        prefix_len(platform, tail@) == 0 && tail@.len() > 0 && tail@[0] == 47 ==> r@ == base@.take(
            prefix_len(platform, base@),
        ) + tail@,
        prefix_len(platform, tail@) == 0 && !(tail@.len() > 0 && tail@[0] == 47) ==> if base@.len()
            == 0 || base@.last() == 47 || (base@.len() == 2 && prefix_len(platform, base@) == 2) {
            r@ == base@ + tail@
        } else {
            r@ == base@ + seq![47u8] + tail@
        },
{
    lemma_prefix_len(platform, base@);
    let n = prefix_len(platform, base@);
    let body = body_of(platform, base@);
    assert(!is_verbatim(platform, base@)) by {
        if is_verbatim(platform, base@) {
            assert(base@.take(4) =~= verbatim_start());
        }
    }
    if prefix_len(platform, tail@) == 0 {
        assert(base@.take(n) + base@.skip(n) =~= base@);
        if tail@.len() > 0 && tail@[0] == 47 {
        } else if n > 2 && n == base@.len() {
            assert(body == seq![47u8]);
            assert(base@.skip(n) =~= Seq::empty());
            lemma_share_ends(platform, base@);
            if base@.last() == 47 {
                assert(r@ =~= base@ + tail@);
            } else {
                assert(r@ =~= base@ + seq![47u8] + tail@);
            }
        } else {
            assert(body == base@.skip(n));
            if body.len() > 0 {
                assert(body.last() == base@.last());
            } else if base@.len() > 0 {
                assert(n == 2);
            }
            if base@.len() == 0 || base@.last() == 47 || (base@.len() == 2 && n == 2) {
                if body.len() == 0 && base@.len() > 0 && base@.last() == 47 {
                    assert(has_drive(base@));
                }
                assert(r@ =~= base@ + tail@);
            } else {
                assert(r@ =~= base@ + seq![47u8] + tail@);
            }
        }
    }
}

/// What names a share or a device does not end in a separator, unless the device has no name.
proof fn lemma_share_ends(platform: Platform, p: Seq<u8>)
    requires
        prefix_len(platform, p) > 2,
        prefix_len(platform, p) == p.len(),
        !is_verbatim(platform, p),
    ensures
        p.last() != 47 || p.len() == 4,
{
    lemma_prefix_len(platform, p);
    if p.len() >= 4 && p[2] == 46 && p[3] == 47 {
        if p.len() > 4 {
            lemma_inside_segment(p, 4, p.len() - 1);
        }
    } else {
        let e = segment_end(p, 2);
        crate::path::lemma_segment_end_bounds(p, 2);
        lemma_inside_segment(p, e + 1, p.len() - 1);
    }
}

/// Behind a verbatim base, a path that names a volume stays as it is; joining nothing adds a
/// separator where none ends the base; and a path from the root is the same behind all bases of
/// one volume.
pub proof fn law_join_on_verbatim(
    a: &FsPath,
    b: &FsPath,
    tail: &FsPath,
    r: FsPath,
    s: FsPath,
)
    requires
        a@.len() >= 4,
        a@.take(4) == verbatim_start(),
        prefix_of(Platform::Windows, a@) == prefix_of(Platform::Windows, b@),
        call_ensures(FsPath::join_on, (a, tail, Platform::Windows), r),
        call_ensures(FsPath::join_on, (b, tail, Platform::Windows), s),
    ensures
        prefix_len(Platform::Windows, tail@) > 0 ==> r@ == tail@,
        tail@.len() == 0 ==> r@ == if a@.last() == 47 || a@.last() == 92 {
            a@
        } else {
            a@ + seq![47u8]
        },
        tail@.len() > 0 && tail@[0] == 47 ==> r@ == s@,
{
    let w = Platform::Windows;
    assert(is_verbatim(w, a@)) by {
        assert(a@.take(4)[0] == a@[0] && a@.take(4)[1] == a@[1] && a@.take(4)[2] == a@[2]
            && a@.take(4)[3] == a@[3]);
    }
    lemma_prefix_len(w, a@);
    lemma_prefix_len(w, b@);
    lemma_prefix_len(w, tail@);
    let x = prefix_of(w, a@);
    assert(prefix_len(w, b@) == x.len());
    assert(is_verbatim(w, b@)) by {
        assert(x[0] == a@[0] && x[1] == a@[1] && x[2] == a@[2] && x[3] == a@[3]);
        assert(x[0] == b@[0] && x[1] == b@[1] && x[2] == b@[2] && x[3] == b@[3]);
    }
    assert(a@.push(47u8) =~= a@ + seq![47u8]);
    if prefix_len(w, tail@) == 0 && tail@.len() > 0 && tail@[0] == 47 {
        let t = components(Dots::Skip, tail@);
        assert(t.len() > 0 && t[0] == seq![47u8]) by {
            assert(spans(Dots::Skip, tail@)[0] == (0int, 1int));
            assert(tail@.subrange(0, 1) =~= seq![47u8]);
        }
        let (r1, p1) = (
            is_absolute_text(behind_prefix(w, a@)),
            crate::platform::names_of(behind_prefix(w, a@)),
        );
        let (r2, p2) = (
            is_absolute_text(behind_prefix(w, b@)),
            crate::platform::names_of(behind_prefix(w, b@)),
        );
        lemma_resolved_from_root(r1, p1, r2, p2, t);
    }
}

proof fn lemma_resolved_from_root(
    r1: bool,
    p1: Seq<Seq<u8>>,
    r2: bool,
    p2: Seq<Seq<u8>>,
    t: Seq<Seq<u8>>,
)
    requires
        t.len() > 0,
        t[0] == seq![47u8],
    ensures
        resolved(r1, p1, t) == resolved(r2, p2, t),
    decreases t.len(),
{
    if t.len() == 1 {
        assert(t.last() == t[0]);
    } else {
        assert(t.drop_last()[0] == t[0]);
        lemma_resolved_from_root(r1, p1, r2, p2, t.drop_last());
    }
}

/// What each component of a joined path does behind a verbatim volume: a root starts anew, `.`
/// does nothing, `..` takes away a name and nothing else, and a name is added.
pub proof fn law_resolved_components(
    root: bool,
    parts: Seq<Seq<u8>>,
    tail: Seq<Seq<u8>>,
    c: Seq<u8>,
)
    ensures
        resolved(root, parts, Seq::<Seq<u8>>::empty()) == (root, parts),
        c == seq![47u8] ==> resolved(root, parts, tail.push(c)) == (
            true,
            Seq::<Seq<u8>>::empty(),
        ),
        c == seq![46u8] ==> resolved(root, parts, tail.push(c)) == resolved(root, parts, tail),
        c == seq![46u8, 46u8] ==> {
            let (r, p) = resolved(root, parts, tail);
            let (s, q) = resolved(root, parts, tail.push(c));
            &&& s == r
            &&& p.len() == 0 ==> q == p
            &&& p.len() > 0 && (p.last() == seq![46u8] || p.last() == seq![46u8, 46u8]) ==> q == p
            &&& p.len() > 0 && p.last() != seq![46u8] && p.last() != seq![46u8, 46u8] ==> q
                == p.drop_last()
        },
        c != seq![47u8] && c != seq![46u8] && c != seq![46u8, 46u8] ==> {
            let (r, p) = resolved(root, parts, tail);
            resolved(root, parts, tail.push(c)) == (r, p.push(c))
        },
{
    let next = tail.push(c);
    assert(next.drop_last() =~= tail);
    assert(next.last() == c);
    assert(seq![47u8] != seq![46u8]) by {
        assert(seq![47u8][0] != seq![46u8][0]);
    }
    assert(seq![46u8, 46u8].len() != seq![46u8].len());
    assert(seq![46u8, 46u8].len() != seq![47u8].len());
}

/// How a native path is held: a POSIX path as it is; a Windows path with forward slashes for all
/// its separators, and in a verbatim path, whose start is kept, with a backward slash for each
/// forward slash that separates nothing.
pub proof fn law_held_paths(bytes: &[u8], platform: Platform, r: FsPath, i: int)
    requires
        call_ensures(FsPath::from_bytes_on, (bytes, platform), r),
        0 <= i < bytes@.len(),
    ensures
        r@.len() == bytes@.len(),
        platform == Platform::Posix ==> r@[i] == bytes@[i],
        bytes@[i] != 47 && bytes@[i] != 92 ==> r@[i] == bytes@[i],
        platform == Platform::Windows && !(bytes@.len() >= 4 && bytes@.take(4)
            == verbatim_start()) ==> (bytes@[i] == 47 || bytes@[i] == 92 ==> r@[i] == 47),
        platform == Platform::Windows && bytes@.len() >= 4 && bytes@.take(4) == verbatim_start()
            ==> {
            &&& i < 4 ==> r@[i] == bytes@[i]
            &&& i >= 4 && bytes@[i] == 92 ==> r@[i] == 47
            &&& i >= 8 && bytes@[i] == 47 ==> r@[i] == 92
            &&& (i == 4 || i == 5) && bytes@[i] == 47 ==> r@[i] == 92
            &&& i == 6 && bytes@[i] == 47 ==> r@[i] == if is_drive_letter(bytes@[4]) && bytes@[5]
                == 58 {
                47u8
            } else {
                92u8
            }
            &&& i == 7 && bytes@[i] == 47 ==> r@[i] == if bytes@[4] == 85 && bytes@[5] == 78
                && bytes@[6] == 67 {
                47u8
            } else {
                92u8
            }
        },
{
    lemma_held_byte(bytes@, platform, i);
}

proof fn lemma_held_byte(bytes: Seq<u8>, platform: Platform, i: int)
    requires
        0 <= i < bytes.len(),
    ensures
        slashed(platform, bytes).len() == bytes.len(),
        ({
            let held = slashed(platform, bytes)[i];
            let verbatim = platform == Platform::Windows && bytes.len() >= 4 && bytes.take(4)
                == verbatim_start();
            &&& platform == Platform::Posix ==> held == bytes[i]
            &&& bytes[i] != 47 && bytes[i] != 92 ==> held == bytes[i]
            &&& platform == Platform::Windows && !verbatim ==> (bytes[i] == 47 || bytes[i] == 92
                ==> held == 47)
            &&& verbatim ==> {
                &&& i < 4 ==> held == bytes[i]
                &&& i >= 4 && bytes[i] == 92 ==> held == 47
                &&& i >= 8 && bytes[i] == 47 ==> held == 92
                &&& (i == 4 || i == 5) && bytes[i] == 47 ==> held == 92
                &&& i == 6 && bytes[i] == 47 ==> held == if is_drive_letter(bytes[4]) && bytes[5]
                    == 58 {
                    47u8
                } else {
                    92u8
                }
                &&& i == 7 && bytes[i] == 47 ==> held == if bytes[4] == 85 && bytes[5] == 78
                    && bytes[6] == 67 {
                    47u8
                } else {
                    92u8
                }
            }
        }),
{
    if is_verbatim(platform, bytes) {
        assert(bytes.take(4) =~= verbatim_start());
        if bytes.len() >= 6 {
            assert(bytes.skip(4)[0] == bytes[4] && bytes.skip(4)[1] == bytes[5]);
        }
    } else if platform == Platform::Windows && bytes.len() >= 4 && bytes.take(4)
        == verbatim_start() {
        assert(bytes.take(4)[0] == bytes[0] && bytes.take(4)[1] == bytes[1] && bytes.take(4)[2]
            == bytes[2] && bytes.take(4)[3] == bytes[3]);
    }
}

/// A text is held as its bytes are.
pub proof fn law_held_texts(text: &str, bytes: &[u8], platform: Platform, r: FsPath, s: FsPath)
    requires
        bytes@ == vstd::utf8::encode_utf8(text@),
        call_ensures(FsPath::from_text_on, (text, platform), r),
        call_ensures(FsPath::from_bytes_on, (bytes, platform), s),
    ensures
        r@ == s@,
{
}

/// The native form has backward slashes for the separators of a verbatim path, and forward slashes
/// where there are none; other paths are handed over as they are held.
pub proof fn law_native_bytes(p: &FsPath, platform: Platform, r: Vec<u8>, i: int)
    requires
        call_ensures(FsPath::to_native, (p, platform), r),
        0 <= i < p@.len(),
    ensures
        r@.len() == p@.len(),
        !(platform == Platform::Windows && p@.len() >= 4 && p@.take(4) == verbatim_start()) ==> r@
            == p@,
        platform == Platform::Windows && p@.len() >= 4 && p@.take(4) == verbatim_start() ==> {
            &&& i < 4 ==> r@[i] == p@[i]
            &&& i >= 4 && p@[i] == 47 ==> r@[i] == 92
            &&& i >= 4 && p@[i] == 92 ==> r@[i] == 47
            &&& p@[i] != 47 && p@[i] != 92 ==> r@[i] == p@[i]
        },
{
    if is_verbatim(platform, p@) {
        assert(p@.take(4) =~= verbatim_start());
    } else if platform == Platform::Windows && p@.len() >= 4 && p@.take(4) == verbatim_start() {
        assert(p@.take(4)[0] == p@[0] && p@.take(4)[1] == p@[1] && p@.take(4)[2] == p@[2]
            && p@.take(4)[3] == p@[3]);
    }
}

/// The parent of a path names the same volume and has all components but the last. A path without
/// components behind its volume has no parent, nor has a root alone.
pub proof fn law_parents(p: &FsPath, platform: Platform, r: Option<FsPath>)
    requires
        call_ensures(FsPath::parent_on, (p, platform), r),
    ensures
        r is None <==> components(dots_of(platform, p@), body_of(platform, p@)).len() == 0
            || components(dots_of(platform, p@), body_of(platform, p@)) == seq![seq![47u8]],
        r matches Some(q) ==> {
            &&& q@.len() < p@.len()
            &&& q@.take(prefix_len(platform, p@)) == p@.take(prefix_len(platform, p@))
            &&& prefix_len(platform, q@) == prefix_len(platform, p@)
            &&& components_on(platform, q@) == components_on(platform, p@).drop_last()
        },
{
    let dots = dots_of(platform, p@);
    let body = body_of(platform, p@);
    crate::platform_laws::law_parent_components_on(platform, p@);
    crate::platform_laws::law_parent_keeps_volume(platform, p@);
    let c = components(dots, body);
    assert(c.len() == spans(dots, body).len());
    if is_absolute_text(body) {
        assert(c[0] == body.subrange(0, 1));
        assert(body.subrange(0, 1) =~= seq![47u8]);
        if c.len() == 1 {
            assert(c =~= seq![seq![47u8]]);
        }
    } else if c.len() > 0 {
        law_component_has_no_separator(dots, body, 0);
        if c == seq![seq![47u8]] {
            assert(c[0] == seq![47u8]);
            assert(c[0][0] == 47);
        }
    }
}

/// The case of a drive letter does not matter, that of everything else that names a volume does.
pub proof fn law_volume_case(a: Seq<u8>, b: Seq<u8>)
    requires
        folded(a) == folded(b),
    ensures
        a.len() == b.len(),
        forall|i: int|
            0 <= i < a.len() && !(a.len() == 2 && i == 0) && !(a.len() == 6 && i == 4)
                ==> #[trigger] a[i] == b[i],
        a.len() == 2 ==> a[0] == b[0] || a[0] == b[0] + 32 || b[0] == a[0] + 32,
{
    assert(folded(a).len() == a.len());
    assert(folded(b).len() == b.len());
    assert forall|i: int|
        0 <= i < a.len() && !(a.len() == 2 && i == 0) && !(a.len() == 6 && i == 4) implies a[i]
        == b[i] by {
        assert(folded(a)[i] == a[i]);
        assert(folded(b)[i] == b[i]);
    }
    if a.len() == 2 {
        assert(folded(a)[0] == folded_letter(a[0]));
        assert(folded(b)[0] == folded_letter(b[0]));
    }
}

/// Two drives are the same exactly where their letters are the same up to case.
pub proof fn law_drive_case(a: u8, b: u8)
    requires
        is_drive_letter(a),
        is_drive_letter(b),
    ensures
        folded(seq![a, 58u8]) == folded(seq![b, 58u8]) <==> a == b || a == b + 32 || b == a + 32,
        folded(verbatim_start() + seq![a, 58u8]) == folded(verbatim_start() + seq![b, 58u8]) <==> a
            == b || a == b + 32 || b == a + 32,
{
    let x = seq![a, 58u8];
    let y = seq![b, 58u8];
    if a == b || a == b + 32 || b == a + 32 {
        assert(folded(x) =~= folded(y));
    } else {
        assert(folded(x)[0] != folded(y)[0]);
    }
    let v = verbatim_start() + x;
    let w = verbatim_start() + y;
    assert(v[4] == a && w[4] == b && v[5] == 58 && w[5] == 58);
    if a == b || a == b + 32 || b == a + 32 {
        assert(folded(v) =~= folded(w));
    } else {
        assert(folded(v)[4] != folded(w)[4]);
    }
}

/// A component is no volume: what names one is no component of a path that names none.
proof fn lemma_volume_is_no_component(platform: Platform, p: Seq<u8>, q: Seq<u8>)
    requires
        prefix_len(platform, p) > 0,
        prefix_len(platform, q) == 0,
        components(Dots::Skip, q).len() > 0,
    ensures
        components(Dots::Skip, q)[0] != folded(prefix_of(platform, p)),
{
    lemma_prefix_len(platform, p);
    let n = prefix_len(platform, p);
    let x = prefix_of(platform, p);
    let f = folded(x);
    let c = components(Dots::Skip, q)[0];
    assert(f.len() == n);
    if c == f {
        if is_absolute_text(q) {
            assert(c == q.subrange(0, 1));
            assert(false);
        }
        law_component_has_no_separator(Dots::Skip, q, 0);
        lemma_spans_ordered(Dots::Skip, q);
        crate::path_laws::lemma_first_component(Dots::Skip, q);
        assert(c == q.take(c.len() as int));
        assert forall|i: int| 0 <= i < c.len() implies #[trigger] c[i] == q[i] by {
            assert(q.take(c.len() as int)[i] == q[i]);
        }
        if n == 2 {
            assert(f[1] == x[1]);
            assert(c[0] == q[0] && c[1] == q[1]);
            assert(has_drive(q));
        } else if is_verbatim(platform, p) {
            assert(x[0] == p[0] && x[1] == p[1] && x[2] == p[2] && x[3] == p[3]);
            assert(f[0] == x[0] && f[1] == x[1] && f[2] == x[2] && f[3] == x[3]);
            assert(c[0] == q[0] && c[1] == q[1] && c[2] == q[2] && c[3] == q[3]);
            assert(is_verbatim(platform, q));
            lemma_prefix_len(platform, q);
        } else {
            assert(x[0] == p[0]);
            assert(f[0] == x[0]) by {
                if n == 6 {
                    assert(x[0] != 92);
                }
            }
            assert(c[0] == 47);
        }
        assert(false);
    }
}

/// A path starts with a base, which is not empty, exactly where it has the volume and the
/// components of the base first.
pub proof fn law_strip_prefix_on(
    p: &FsPath,
    base: &FsPath,
    platform: Platform,
    r: Option<FsPath>,
)
    requires
        base@.len() > 0,
        call_ensures(FsPath::strip_prefix_on, (p, base, platform), r),
    ensures
        r is Some <==> exists|rest: Seq<Seq<u8>>|
            components_on(platform, p@) == #[trigger] (components_on(platform, base@) + rest),
        r matches Some(q) ==> components_on(platform, p@) == components_on(platform, base@)
            + components(dots_of(platform, p@), q@),
{
    crate::platform_laws::law_stripped_components(platform, p@, base@);
    let b = components_on(platform, base@);
    let c = components_on(platform, p@);
    if r is Some {
        assert(c == b + components(dots_of(platform, p@), r->0@));
    }
    if exists|rest: Seq<Seq<u8>>| c == #[trigger] (b + rest) {
        let rest = choose|rest: Seq<Seq<u8>>| c == #[trigger] (b + rest);
        lemma_prefix_len(platform, p@);
        lemma_prefix_len(platform, base@);
        let x = prefix_of(platform, p@);
        let y = prefix_of(platform, base@);
        if prefix_len(platform, p@) > 0 && prefix_len(platform, base@) > 0 {
            assert(b[0] == folded(y));
            assert(c[0] == folded(x));
            assert(c[0] == b[0]);
            assert(folded(x).len() == x.len());
            assert(folded(y).len() == y.len());
            assert(dots_of(platform, base@) == dots_of(platform, p@)) by {
                if x.len() >= 4 {
                    assert(folded(x)[0] == folded(y)[0] && folded(x)[1] == folded(y)[1]
                        && folded(x)[2] == folded(y)[2] && folded(x)[3] == folded(y)[3]);
                }
            }
            let dots = dots_of(platform, p@);
            let bb = components(dots, body_of(platform, base@));
            let cc = components(dots, body_of(platform, p@));
            assert(c.len() == b.len() + rest.len());
            assert(c.len() == 1 + cc.len());
            assert(b.len() == 1 + bb.len());
            assert forall|i: int| 0 <= i < bb.len() implies bb[i] == cc[i] by {
                assert(b[i + 1] == bb[i]);
                assert(c[i + 1] == b[i + 1]);
                assert(c[i + 1] == cc[i]);
            }
            assert(bb =~= cc.subrange(0, bb.len() as int));
        } else if prefix_len(platform, p@) > 0 {
            lemma_no_prefix(platform, base@);
            crate::path_laws::lemma_not_empty_has_component(Dots::Skip, base@);
            lemma_volume_is_no_component(platform, p@, base@);
            assert(b[0] == c[0]);
        } else if prefix_len(platform, base@) > 0 {
            lemma_no_prefix(platform, p@);
            assert(b[0] == c[0]);
            lemma_volume_is_no_component(platform, base@, p@);
        } else {
            lemma_no_prefix(platform, p@);
            lemma_no_prefix(platform, base@);
            assert(b =~= c.subrange(0, b.len() as int));
            assert(x =~= y);
        }
    }
}

/// Stripping takes the `.` and `..` at the start of a path away, and nothing behind a volume.
pub proof fn law_leading_dots_on(p: &FsPath, platform: Platform, r: FsPath)
    requires
        call_ensures(strip_leading_relative, (p, platform), r),
    ensures
        prefix_len(platform, p@) > 0 ==> {
            let n = prefix_len(platform, p@);
            let dots = dots_of(platform, p@);
            &&& r@.len() >= n
            &&& r@.take(n) == p@.take(n)
            &&& components(dots, r@.skip(n)) == components(dots, p@.skip(n))
        },
        prefix_len(platform, p@) == 0 ==> exists|k: int|
            {
                &&& 0 <= k <= components(Dots::Skip, p@).len()
                &&& forall|i: int|
                    0 <= i < k ==> #[trigger] components(Dots::Skip, p@)[i] == seq![46u8]
                        || components(Dots::Skip, p@)[i] == seq![46u8, 46u8]
                &&& k < components(Dots::Skip, p@).len() ==> components(Dots::Skip, p@)[k]
                    != seq![46u8] && components(Dots::Skip, p@)[k] != seq![46u8, 46u8]
                &&& components(Dots::Skip, r@) == #[trigger] components(Dots::Skip, p@).skip(k)
            },
{
    lemma_prefix_len(platform, p@);
    let n = prefix_len(platform, p@);
    if n > 0 {
        let dots = dots_of(platform, p@);
        let body = behind_prefix(platform, p@);
        let all = components(dots, body).len() as int;
        assert(all == spans(dots, body).len());
        law_sub_path_components(dots, body, 0, all);
        assert(components(dots, body).subrange(0, all) =~= components(dots, body));
        let cut = crate::path::sub_path(dots, body, 0, all);
        assert(r@ == trimmed(platform, p@));
        assert(r@.take(n) =~= p@.take(n));
        assert(r@.skip(n) =~= cut);
    } else {
        crate::path_laws::lemma_leading_dots(p@, r@);
    }
}

} // verus!
