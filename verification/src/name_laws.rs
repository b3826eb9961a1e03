//! Laws of the names of tests: parts, paths and their components.

use crate::path::components;
use crate::path::is_absolute_text;
use crate::path::joined;
use crate::path::DOT;
use crate::path::SEPARATOR;
use crate::path::Dots;
use crate::path_laws::law_join_components;
use crate::path_laws::law_one_component;
use crate::task_seq::unique_text;
use crate::text::find;
use crate::text::last_piece;
use crate::text::lemma_find;
use crate::text::replaced;
use crate::text_laws::lemma_pieces_behind;
use crate::utils::NAME_SEPARATOR;
use vstd::prelude::*;
use vstd::utf8::char_is_scalar;
use vstd::utf8::char_u32_cast;
use vstd::utf8::encode_scalar;
use vstd::utf8::encode_utf8;
use vstd::utf8::encode_utf8_decode_utf8;
use vstd::utf8::has_width_1_encoding;

verus! {

/// Whether `s` can be a part of a test name: it is not empty and holds no `:`, `/` or `.`. Every
/// Rust identifier is one.
pub open spec fn is_name_part(s: Seq<char>) -> bool {
    s.len() > 0 && forall|i: int|
        0 <= i < s.len() ==> #[trigger] s[i] != ':' && s[i] != '/' && s[i] != '.'
}

/// Some parts with a separator between each two of them.
pub open spec fn glued_name(parts: Seq<Seq<char>>, separator: Seq<char>) -> Seq<char>
    decreases parts.len(),
{
    if parts.len() == 0 {
        Seq::empty()
    } else if parts.len() == 1 {
        parts[0]
    } else {
        parts[0] + separator + glued_name(parts.skip(1), separator)
    }
}

/// Searching passes over what cannot start the pattern.
proof fn lemma_find_skips(s: Seq<char>, pat: Seq<char>, i: int, n: int)
    requires
        0 <= i <= n <= s.len(),
        pat.len() > 0,
        forall|j: int| i <= j < n ==> #[trigger] s[j] != pat[0],
    ensures
        find(s, pat, i) == find(s, pat, n),
    decreases n - i,
{
    if i < n {
        assert(s[i] != pat[0]);
        lemma_find_skips(s, pat, i + 1, n);
        if i + pat.len() <= s.len() {
            assert(s.subrange(i, i + pat.len())[0] == s[i]);
        } else {
            lemma_find(s, pat, n);
        }
    }
}

/// The separator behind a part is found where the part ends.
proof fn lemma_find_behind_part(part: Seq<char>, rest: Seq<char>)
    requires
        is_name_part(part),
    ensures
        find(part + seq![':', ':'] + rest, seq![':', ':'], 0) == Some(part.len() as int),
{
    let pat = seq![':', ':'];
    let s = part + pat + rest;
    let n = part.len() as int;
    assert forall|j: int| 0 <= j < n implies #[trigger] s[j] != pat[0] by {
        assert(s[j] == part[j]);
    }
    lemma_find_skips(s, pat, 0, n);
    assert(s.subrange(n, n + 2) =~= pat);
}

/// There is no separator in a part.
proof fn lemma_find_in_part(part: Seq<char>)
    requires
        is_name_part(part),
    ensures
        find(part, seq![':', ':'], 0) is None,
{
    let pat = seq![':', ':'];
    lemma_find_skips(part, pat, 0, part.len() as int);
}

proof fn lemma_parts_rest(parts: Seq<Seq<char>>)
    requires
        parts.len() > 1,
        forall|i: int| 0 <= i < parts.len() ==> is_name_part(#[trigger] parts[i]),
    ensures
        forall|i: int| 0 <= i < parts.skip(1).len() ==> is_name_part(#[trigger] parts.skip(1)[i]),
        parts.skip(1).last() == parts.last(),
{
    assert forall|i: int| 0 <= i < parts.skip(1).len() implies is_name_part(
        #[trigger] parts.skip(1)[i],
    ) by {
        assert(parts.skip(1)[i] == parts[i + 1]);
    }
}

/// The text of a test's path has its parts between slashes, and its short name is the last part.
proof fn lemma_glued(parts: Seq<Seq<char>>)
    requires
        parts.len() > 0,
        forall|i: int| 0 <= i < parts.len() ==> is_name_part(#[trigger] parts[i]),
    ensures
        replaced(glued_name(parts, seq![':', ':']), seq![':', ':'], seq!['/'], 0) == glued_name(
            parts,
            seq!['/'],
        ),
        last_piece(glued_name(parts, seq![':', ':']), seq![':', ':'], 0) == parts.last(),
    decreases parts.len(),
{
    let pat = seq![':', ':'];
    let rep = seq!['/'];
    let s = glued_name(parts, pat);
    assert(is_name_part(parts[0]));
    if parts.len() == 1 {
        lemma_find_in_part(parts[0]);
        assert(s.subrange(0, s.len() as int) =~= s);
    } else {
        let rest = glued_name(parts.skip(1), pat);
        let front = parts[0] + pat;
        lemma_parts_rest(parts);
        lemma_glued(parts.skip(1));
        lemma_find_behind_part(parts[0], rest);
        lemma_pieces_behind(front, rest, pat, rep, 0);
        assert(s.subrange(0, parts[0].len() as int) =~= parts[0]);
    }
}

proof fn lemma_encode_concat(a: Seq<char>, b: Seq<char>)
    ensures
        encode_utf8(a + b) == encode_utf8(a) + encode_utf8(b),
    decreases a.len(),
{
    if a.len() == 0 {
        assert(a + b =~= b);
        assert(encode_utf8(a) + encode_utf8(b) =~= encode_utf8(b));
    } else {
        lemma_encode_concat(a.drop_first(), b);
        assert((a + b).drop_first() =~= a.drop_first() + b);
        assert(encode_utf8(a + b) =~= encode_utf8(a) + encode_utf8(b));
    }
}

/// Only `/` and `.` are encoded with the bytes of a separator and of a dot.
proof fn lemma_encoded_scalar(c: u32)
    requires
        c != 47,
        c != 46,
    ensures
        encode_scalar(c).len() > 0,
        forall|i: int|
            0 <= i < encode_scalar(c).len() ==> #[trigger] encode_scalar(c)[i] != SEPARATOR
                && encode_scalar(c)[i] != DOT,
{
    if has_width_1_encoding(c) {
        assert((c & 0x7F) as u8 != 47 && (c & 0x7F) as u8 != 46) by (bit_vector)
            requires
                c <= 0x7F,
                c != 47,
                c != 46,
        ;
    } else {
        assert((0xC0 | ((c >> 6) & 0x1F) as u8) >= 0x80u8) by (bit_vector);
        assert((0xE0 | ((c >> 12) & 0x0F) as u8) >= 0x80u8) by (bit_vector);
        assert((0xF0 | ((c >> 18) & 0x7) as u8) >= 0x80u8) by (bit_vector);
        assert((0x80 | (c & 0x3F) as u8) >= 0x80u8) by (bit_vector);
        assert((0x80 | ((c >> 6) & 0x3F) as u8) >= 0x80u8) by (bit_vector);
        assert((0x80 | ((c >> 12) & 0x3F) as u8) >= 0x80u8) by (bit_vector);
    }
}

/// A part is encoded without separators and dots.
proof fn lemma_encoded_part(s: Seq<char>)
    requires
        forall|i: int| 0 <= i < s.len() ==> #[trigger] s[i] != '/' && s[i] != '.',
    ensures
        s.len() > 0 ==> encode_utf8(s).len() > 0,
        forall|i: int|
            0 <= i < encode_utf8(s).len() ==> #[trigger] encode_utf8(s)[i] != SEPARATOR
                && encode_utf8(s)[i] != DOT,
    decreases s.len(),
{
    if s.len() > 0 {
        let head = encode_scalar(s[0] as u32);
        let c = s[0];
        assert(c != '/' && c != '.');
        assert(c as u32 != 47 && c as u32 != 46) by {
            char_is_scalar(c);
            char_u32_cast(c, c as u32);
        }
        lemma_encoded_scalar(s[0] as u32);
        assert forall|i: int| 0 <= i < s.drop_first().len() implies #[trigger] s.drop_first()[i]
            != '/' && s.drop_first()[i] != '.' by {
            assert(s.drop_first()[i] == s[i + 1]);
        }
        lemma_encoded_part(s.drop_first());
        assert forall|i: int| 0 <= i < encode_utf8(s).len() implies #[trigger] encode_utf8(s)[i]
            != SEPARATOR && encode_utf8(s)[i] != DOT by {
            if i < head.len() {
                assert(encode_utf8(s)[i] == head[i]);
            } else {
                assert(encode_utf8(s)[i] == encode_utf8(s.drop_first())[i - head.len()]);
            }
        }
    }
}

/// The encoded parts.
pub open spec fn encoded(parts: Seq<Seq<char>>) -> Seq<Seq<u8>> {
    parts.map_values(|s: Seq<char>| encode_utf8(s))
}

/// Parts between slashes are the components of the path.
proof fn lemma_glued_components(parts: Seq<Seq<char>>)
    requires
        parts.len() > 0,
        forall|i: int| 0 <= i < parts.len() ==> is_name_part(#[trigger] parts[i]),
    ensures
        components(Dots::Skip, encode_utf8(glued_name(parts, seq!['/']))) == encoded(parts),
        encode_utf8(glued_name(parts, seq!['/'])).len() > 0,
        !is_absolute_text(encode_utf8(glued_name(parts, seq!['/']))),
    decreases parts.len(),
{
    let first = encode_utf8(parts[0]);
    assert(is_name_part(parts[0]));
    lemma_encoded_part(parts[0]);
    law_one_component(Dots::Skip, first);
    assert(first[0] != SEPARATOR);
    if parts.len() == 1 {
        assert(encoded(parts) =~= seq![first]);
    } else {
        let slash = seq!['/'];
        let rest = glued_name(parts.skip(1), slash);
        let tail = encode_utf8(rest);
        lemma_parts_rest(parts);
        lemma_glued_components(parts.skip(1));
        lemma_encode_concat(parts[0] + slash, rest);
        lemma_encode_concat(parts[0], slash);
        assert(encode_utf8(slash) =~= seq![SEPARATOR]) by {
            assert(slash.drop_first() =~= Seq::empty());
            assert(encode_utf8(slash.drop_first()) =~= Seq::empty());
            assert((47u32 & 0x7F) as u8 == 47) by (bit_vector);
            assert(slash[0] as u32 == 47);
            assert(encode_scalar(47u32) =~= seq![SEPARATOR]);
            assert(encode_utf8(slash) == encode_scalar(slash[0] as u32) + encode_utf8(
                slash.drop_first(),
            ));
        }
        assert(first[first.len() - 1] != SEPARATOR);
        assert(encode_utf8(glued_name(parts, slash)) =~= joined(first, tail));
        assert(encoded(parts.skip(1))[0] == encode_utf8(parts[1]));
        assert(is_name_part(parts[1]));
        lemma_encoded_part(parts[1]);
        assert(encode_utf8(parts[1])[0] != DOT);
        law_join_components(Dots::Skip, first, tail);
        assert(encoded(parts) =~= seq![first] + encoded(parts.skip(1)));
    }
}

/// For a test name made of parts joined by `::`, the path of the test has the parts as its
/// components, in order; the short name of the test is the last part, so it names the last
/// component.
pub proof fn law_path_of_name(parts: Seq<Seq<char>>)
    requires
        parts.len() > 0,
        forall|i: int| 0 <= i < parts.len() ==> is_name_part(#[trigger] parts[i]),
    ensures
        unique_text(glued_name(parts, NAME_SEPARATOR@)) == glued_name(parts, seq!['/']),
        components(Dots::Skip, encode_utf8(unique_text(glued_name(parts, NAME_SEPARATOR@))))
            == encoded(parts),
        last_piece(glued_name(parts, NAME_SEPARATOR@), NAME_SEPARATOR@, 0) == parts.last(),
        components(Dots::Skip, encode_utf8(unique_text(glued_name(parts, NAME_SEPARATOR@)))).last()
            == encode_utf8(last_piece(glued_name(parts, NAME_SEPARATOR@), NAME_SEPARATOR@, 0)),
{
    reveal_strlit("::");
    reveal_strlit("/");
    assert(NAME_SEPARATOR@ =~= seq![':', ':']);
    assert("/"@ =~= seq!['/']);
    lemma_glued(parts);
    lemma_glued_components(parts);
}

/// Tests whose names are made of different parts have paths with different components, so they
/// name different files.
pub proof fn law_names_have_their_own_paths(a: Seq<Seq<char>>, b: Seq<Seq<char>>)
    requires
        a.len() > 0,
        b.len() > 0,
        forall|i: int| 0 <= i < a.len() ==> is_name_part(#[trigger] a[i]),
        forall|i: int| 0 <= i < b.len() ==> is_name_part(#[trigger] b[i]),
        glued_name(a, NAME_SEPARATOR@) != glued_name(b, NAME_SEPARATOR@),
    ensures
        components(Dots::Skip, encode_utf8(unique_text(glued_name(a, NAME_SEPARATOR@))))
            != components(
            Dots::Skip,
            encode_utf8(unique_text(glued_name(b, NAME_SEPARATOR@))),
        ),
{
    law_path_of_name(a);
    law_path_of_name(b);
    if encoded(a) == encoded(b) {
        assert(a.len() == encoded(a).len() && b.len() == encoded(b).len());
        assert forall|i: int| 0 <= i < a.len() implies a[i] == b[i] by {
            assert(encoded(a)[i] == encode_utf8(a[i]));
            assert(encoded(b)[i] == encode_utf8(b[i]));
            encode_utf8_decode_utf8(a[i]);
            encode_utf8_decode_utf8(b[i]);
        }
        assert(a =~= b);
    }
}

} // verus!
