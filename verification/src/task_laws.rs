//! Laws of task sequences.

use crate::path::components;
use crate::path::Dots;
use crate::path_laws::is_plain;
use crate::path_laws::law_plain_paths;
use crate::task_seq::fs_command;
use crate::task_seq::unique_text;
use crate::text::find;
use crate::text::last_piece;
use crate::text::lemma_find;
use crate::text::replaced;
use crate::utils::NAME_SEPARATOR;
use vstd::prelude::*;
use vstd::utf8::encode_utf8;
use vstd::utf8::encode_utf8_decode_utf8;

verus! {

/// `t` with `::` for each `/`.
spec fn expanded(t: Seq<char>) -> Seq<char>
    decreases t.len(),
{
    if t.len() == 0 {
        Seq::empty()
    } else if t.last() == '/' {
        expanded(t.drop_last()) + seq![':', ':']
    } else {
        expanded(t.drop_last()).push(t.last())
    }
}

proof fn lemma_expanded_concat(a: Seq<char>, b: Seq<char>)
    ensures
        expanded(a + b) == expanded(a) + expanded(b),
    decreases b.len(),
{
    if b.len() == 0 {
        assert(a + b =~= a);
    } else {
        lemma_expanded_concat(a, b.drop_last());
        assert((a + b).drop_last() =~= a + b.drop_last());
        assert(expanded(a + b) =~= expanded(a) + expanded(b));
    }
}

proof fn lemma_expanded_plain(t: Seq<char>)
    requires
        !t.contains('/'),
    ensures
        expanded(t) == t,
    decreases t.len(),
{
    if t.len() > 0 {
        assert(t[t.len() - 1] != '/');
        assert(!t.drop_last().contains('/')) by {
            if t.drop_last().contains('/') {
                let i = choose|i: int| 0 <= i < t.len() - 1 && t.drop_last()[i] == '/';
                assert(t[i] == '/');
            }
        }
        lemma_expanded_plain(t.drop_last());
        assert(t.drop_last().push(t.last()) =~= t);
    }
}

proof fn lemma_part_has_no_slash(s: Seq<char>, i: int, j: int)
    requires
        0 <= i <= j <= s.len(),
        !s.contains('/'),
    ensures
        !s.subrange(i, j).contains('/'),
{
    if s.subrange(i, j).contains('/') {
        let k = choose|k: int| 0 <= k < j - i && s.subrange(i, j)[k] == '/';
        assert(s[i + k] == '/');
    }
}

/// Replacing `::` by `/` in a text without `/` can be undone.
proof fn lemma_expanded_replaced(s: Seq<char>, i: int)
    requires
        0 <= i <= s.len(),
        !s.contains('/'),
    ensures
        expanded(replaced(s, seq![':', ':'], seq!['/'], i)) == s.subrange(i, s.len() as int),
    decreases s.len() - i,
{
    let pat = seq![':', ':'];
    let rep = seq!['/'];
    let n = s.len() as int;
    lemma_find(s, pat, i);
    match find(s, pat, i) {
        Some(k) => {
            let rest = replaced(s, pat, rep, k + 2);
            lemma_expanded_replaced(s, k + 2);
            lemma_part_has_no_slash(s, i, k);
            lemma_expanded_plain(s.subrange(i, k));
            lemma_expanded_concat(s.subrange(i, k) + rep, rest);
            lemma_expanded_concat(s.subrange(i, k), rep);
            assert(expanded(rep) =~= pat) by {
                assert(rep.last() == '/');
                assert(rep.drop_last().len() == 0);
                assert(expanded(rep.drop_last()) =~= Seq::empty());
            }
            assert(s.subrange(k, k + 2) == pat);
            assert(s.subrange(i, k) + s.subrange(k, k + 2) + s.subrange(k + 2, n) =~= s.subrange(
                i,
                n,
            ));
        },
        None => {
            lemma_part_has_no_slash(s, i, n);
            lemma_expanded_plain(s.subrange(i, n));
        },
    }
}

/// Tests with different full names have different paths, as long as no name holds a `/`. Where
/// both are plain paths, they also name different files.
pub proof fn law_unique_paths(a: Seq<char>, b: Seq<char>)
    requires
        a != b,
        !a.contains('/'),
        !b.contains('/'),
    ensures
        encode_utf8(unique_text(a)) != encode_utf8(unique_text(b)),
        is_plain(encode_utf8(unique_text(a))) && is_plain(encode_utf8(unique_text(b)))
            ==> components(Dots::Skip, encode_utf8(unique_text(a))) != components(
            Dots::Skip,
            encode_utf8(unique_text(b)),
        ),
{
    reveal_strlit("::");
    reveal_strlit("/");
    assert(NAME_SEPARATOR@ =~= seq![':', ':']);
    assert("/"@ =~= seq!['/']);
    lemma_expanded_replaced(a, 0);
    lemma_expanded_replaced(b, 0);
    assert(a.subrange(0, a.len() as int) =~= a);
    assert(b.subrange(0, b.len() as int) =~= b);
    encode_utf8_decode_utf8(unique_text(a));
    encode_utf8_decode_utf8(unique_text(b));
    let x = encode_utf8(unique_text(a));
    let y = encode_utf8(unique_text(b));
    if is_plain(x) && is_plain(y) && components(Dots::Skip, x) == components(Dots::Skip, y) {
        law_plain_paths(x, y);
    }
}

proof fn lemma_last_piece(s: Seq<char>, pat: Seq<char>, i: int)
    requires
        pat.len() > 0,
        0 <= i <= s.len(),
    ensures
        exists|k: int|
            i <= k <= s.len() && last_piece(s, pat, i) == #[trigger] s.subrange(k, s.len() as int)
                && find(s, pat, k) is None && (k == i || (k >= i + pat.len() && s.subrange(
                k - pat.len(),
                k,
            ) == pat)),
    decreases s.len() - i,
{
    lemma_find(s, pat, i);
    match find(s, pat, i) {
        Some(k) => {
            lemma_last_piece(s, pat, k + pat.len());
            let m = choose|m: int|
                k + pat.len() <= m <= s.len() && last_piece(s, pat, k + pat.len())
                    == #[trigger] s.subrange(m, s.len() as int) && find(s, pat, m) is None && (m
                    == k + pat.len() || (m >= k + 2 * pat.len() && s.subrange(m - pat.len(), m)
                    == pat));
            assert(last_piece(s, pat, i) == s.subrange(m, s.len() as int));
            assert(s.subrange(m - pat.len(), m) == pat);
        },
        None => {
            assert(last_piece(s, pat, i) == s.subrange(i, s.len() as int));
        },
    }
}

/// The name of a test is the end of its full name, holds no `::`, and is the whole of it or
/// follows a `::`.
pub proof fn law_test_name(full_name: Seq<char>)
    ensures
        exists|k: int|
            0 <= k <= full_name.len() && last_piece(full_name, NAME_SEPARATOR@, 0)
                == #[trigger] full_name.subrange(k, full_name.len() as int) && (k == 0 || (k >= 2
                && full_name.subrange(k - 2, k) == NAME_SEPARATOR@)),
        !crate::text::contains_text(last_piece(full_name, NAME_SEPARATOR@, 0), NAME_SEPARATOR@),
{
    reveal_strlit("::");
    let pat = NAME_SEPARATOR@;
    let n = full_name.len() as int;
    assert(pat.len() == 2);
    lemma_last_piece(full_name, pat, 0);
    let k = choose|k: int|
        0 <= k <= n && last_piece(full_name, pat, 0) == #[trigger] full_name.subrange(k, n)
            && find(full_name, pat, k) is None && (k == 0 || (k >= pat.len()
            && full_name.subrange(k - pat.len(), k) == pat));
    lemma_find(full_name, pat, k);
    let name = full_name.subrange(k, n);
    if crate::text::contains_text(name, pat) {
        let i = choose|i: int|
            0 <= i <= name.len() - pat.len() && #[trigger] name.subrange(i, i + pat.len()) == pat;
        assert(full_name.subrange(k + i, k + i + pat.len()) =~= name.subrange(i, i + pat.len()));
    }
}

/// A command line starts with `fs`, keeps the parts of the command in order, and always says
/// what to show.
pub proof fn law_fs_command(parts: Seq<Seq<char>>)
    ensures
        fs_command(parts)[0] == "fs"@,
        fs_command(parts).subrange(1, 1 + parts.len() as int) == parts,
        fs_command(parts).contains("--show"@),
{
    assert(fs_command(parts).subrange(1, 1 + parts.len() as int) =~= parts);
    if parts.contains("--show"@) {
        let i = choose|i: int| 0 <= i < parts.len() && parts[i] == "--show"@;
        assert(fs_command(parts)[i + 1] == "--show"@);
    } else {
        assert(fs_command(parts)[1 + parts.len() as int] == "--show"@);
    }
}

} // verus!
