//! Searching, splitting and replacing in texts, and decimal numerals.

use vstd::prelude::*;
use vstd::string::StrSliceExecFns;
use vstd::string::StringExecFns;

verus! {

/// The first position from `i` on where `s` holds `pat`.
pub open spec fn find(s: Seq<char>, pat: Seq<char>, i: int) -> Option<int>
    decreases s.len() + 1 - i,
{
    if i + pat.len() > s.len() {
        None
    } else if s.subrange(i, i + pat.len()) == pat {
        Some(i)
    } else {
        find(s, pat, i + 1)
    }
}

/// `s` from position `i` on, with each occurrence of `pat` replaced by `rep`. Occurrences are
/// taken from the left and do not overlap.
pub open spec fn replaced(s: Seq<char>, pat: Seq<char>, rep: Seq<char>, i: int) -> Seq<char>
    decreases s.len() - i,
    via replaced_decreases
{
    match find(s, pat, i) {
        Some(k) if pat.len() > 0 => s.subrange(i, k) + rep + replaced(s, pat, rep, k + pat.len()),
        _ => s.subrange(i, s.len() as int),
    }
}

#[via_fn]
proof fn replaced_decreases(s: Seq<char>, pat: Seq<char>, rep: Seq<char>, i: int) {
    lemma_find(s, pat, i);
}

/// The last piece of `s` from position `i` on, where `pat` separates the pieces. Separators
/// are taken from the left and do not overlap.
pub open spec fn last_piece(s: Seq<char>, pat: Seq<char>, i: int) -> Seq<char>
    decreases s.len() - i,
    via last_piece_decreases
{
    match find(s, pat, i) {
        Some(k) if pat.len() > 0 => last_piece(s, pat, k + pat.len()),
        _ => s.subrange(i, s.len() as int),
    }
}

#[via_fn]
proof fn last_piece_decreases(s: Seq<char>, pat: Seq<char>, i: int) {
    lemma_find(s, pat, i);
}

/// Whether `s` holds `pat` somewhere.
pub open spec fn contains_text(s: Seq<char>, pat: Seq<char>) -> bool {
    exists|i: int| 0 <= i <= s.len() - pat.len() && #[trigger] s.subrange(i, i + pat.len()) == pat
}

/// What [`find`] finds: the occurrence, and none before it.
pub proof fn lemma_find(s: Seq<char>, pat: Seq<char>, i: int)
    ensures
        match find(s, pat, i) {
            Some(k) => {
                &&& i <= k <= s.len() - pat.len()
                &&& s.subrange(k, k + pat.len()) == pat
                &&& forall|j: int|
                    i <= j < k ==> #[trigger] s.subrange(j, j + pat.len()) != pat
            },
            None => forall|j: int|
                i <= j <= s.len() - pat.len() ==> #[trigger] s.subrange(j, j + pat.len()) != pat,
        },
    decreases s.len() + 1 - i,
{
    if i + pat.len() <= s.len() && s.subrange(i, i + pat.len()) != pat {
        lemma_find(s, pat, i + 1);
    }
}

/// The characters of a text.
pub fn chars_of(s: &str) -> (r: Vec<char>)
    ensures
        r@ == s@,
{
    let mut out: Vec<char> = Vec::new();
    for c in it: s.chars()
        invariant
            it.seq() == s@,
            out@ == s@.take(it.index()),
    {
        out.push(c);
        assert(s@.take(it.index()).push(c) =~= s@.take(it.index() + 1));
    }
    assert(s@.take(s@.len() as int) =~= s@);
    out
}

/// Whether `s` holds `pat` at position `i`.
fn holds_at(s: &Vec<char>, pat: &Vec<char>, i: usize) -> (r: bool)
    requires
        i + pat@.len() <= s@.len(),
    ensures
        r == (s@.subrange(i as int, i + pat@.len()) == pat@),
{
    let total: usize = s.len();
    let n: usize = pat.len();
    let ghost piece = s@.subrange(i as int, i + pat@.len());
    let mut j: usize = 0;
    while j < n
        invariant
            total == s@.len(),
            n == pat@.len(),
            i + n <= total,
            j <= n,
            piece == s@.subrange(i as int, i + n),
            forall|k: int| 0 <= k < j ==> piece[k] == pat@[k],
        decreases n - j,
    {
        if s[i + j] != pat[j] {
            assert(piece[j as int] != pat@[j as int]);
            return false;
        }
        assert(piece[j as int] == pat@[j as int]);
        j += 1;
    }
    assert(piece =~= pat@);
    true
}

/// The first position from `start` on where `s` holds `pat`.
fn find_from(s: &Vec<char>, pat: &Vec<char>, start: usize) -> (r: Option<usize>)
    requires
        start <= s@.len(),
    ensures
        match r {
            Some(k) => find(s@, pat@, start as int) == Some(k as int),
            None => find(s@, pat@, start as int) is None,
        },
{
    let n: usize = s.len();
    let m: usize = pat.len();
    let mut i: usize = start;
    while m <= n - i
        invariant
            n == s@.len(),
            m == pat@.len(),
            start <= i <= n,
            find(s@, pat@, i as int) == find(s@, pat@, start as int),
        decreases n - i,
    {
        if holds_at(s, pat, i) {
            return Some(i);
        }
        proof {
            if i == n {
                assert(s@.subrange(i as int, i + m) =~= pat@);
            }
        }
        i += 1;
    }
    None
}

/// Whether `s` holds `pat`.
pub fn contains(s: &str, pat: &str) -> (r: bool)
    ensures
        r == contains_text(s@, pat@),
{
    let found: Option<usize> = find_from(&chars_of(s), &chars_of(pat), 0);
    proof {
        lemma_find(s@, pat@, 0);
    }
    found.is_some()
}

/// `s` with each occurrence of `pat` replaced by `rep`.
pub fn replace(s: &str, pat: &str, rep: &str) -> (r: String)
    requires
        pat@.len() > 0,
    ensures
        r@ == replaced(s@, pat@, rep@, 0),
{
    let text: Vec<char> = chars_of(s);
    let needle: Vec<char> = chars_of(pat);
    let n: usize = text.len();
    let mut out: String = String::new();
    let mut i: usize = 0;
    assert(out@ + replaced(s@, pat@, rep@, 0) =~= replaced(s@, pat@, rep@, 0));
    loop
        invariant
            text@ == s@,
            needle@ == pat@,
            n == text@.len(),
            pat@.len() > 0,
            i <= n,
            out@ + replaced(s@, pat@, rep@, i as int) == replaced(s@, pat@, rep@, 0),
        decreases n - i,
    {
        proof {
            lemma_find(s@, pat@, i as int);
        }
        match find_from(&text, &needle, i) {
            Some(k) => {
                let ghost before = out@;
                out.append(s.substring_char(i, k));
                out.append(rep);
                let next: usize = k + needle.len();
                assert(out@ + replaced(s@, pat@, rep@, next as int) =~= before + (s@.subrange(
                    i as int,
                    k as int,
                ) + rep@ + replaced(s@, pat@, rep@, next as int)));
                i = next;
            },
            None => {
                out.append(s.substring_char(i, n));
                return out;
            },
        }
    }
}

/// The last of the pieces of `s` that `pat` separates.
pub fn after_last(s: &str, pat: &str) -> (r: String)
    requires
        pat@.len() > 0,
    ensures
        r@ == last_piece(s@, pat@, 0),
{
    let text: Vec<char> = chars_of(s);
    let needle: Vec<char> = chars_of(pat);
    let n: usize = text.len();
    let mut i: usize = 0;
    loop
        invariant
            text@ == s@,
            needle@ == pat@,
            n == text@.len(),
            pat@.len() > 0,
            i <= n,
            last_piece(s@, pat@, i as int) == last_piece(s@, pat@, 0),
        decreases n - i,
    {
        proof {
            lemma_find(s@, pat@, i as int);
        }
        match find_from(&text, &needle, i) {
            Some(k) => {
                i = k + needle.len();
            },
            None => {
                return s.substring_char(i, n).to_owned();
            },
        }
    }
}

/// Whether two texts are the same.
pub fn same_text(a: &str, b: &str) -> (r: bool)
    ensures
        r == (a@ == b@),
{
    let x: Vec<char> = chars_of(a);
    let y: Vec<char> = chars_of(b);
    if x.len() != y.len() {
        return false;
    }
    let mut i: usize = 0;
    while i < x.len()
        invariant
            x@ == a@,
            y@ == b@,
            x@.len() == y@.len(),
            i <= x@.len(),
            x@.take(i as int) == y@.take(i as int),
        decreases x@.len() - i,
    {
        if x[i] != y[i] {
            return false;
        }
        i += 1;
        assert(x@.take(i as int) =~= y@.take(i as int)) by {
            assert(x@.take(i as int) =~= x@.take(i - 1).push(x@[i - 1]));
            assert(y@.take(i as int) =~= y@.take(i - 1).push(y@[i - 1]));
        }
    }
    assert(x@.take(x@.len() as int) =~= x@);
    assert(y@.take(y@.len() as int) =~= y@);
    true
}

/// `a` followed by `b`.
pub fn concat(a: &str, b: &str) -> (r: String)
    ensures
        r@ == a@ + b@,
{
    let mut out: String = a.to_owned();
    out.append(b);
    out
}

/// The character of a decimal digit.
pub open spec fn digit(d: nat) -> char {
    (48 + d) as char
}

/// The decimal numeral of `n`.
pub open spec fn decimal(n: nat) -> Seq<char>
    decreases n,
{
    if n < 10 {
        seq![digit(n)]
    } else {
        decimal(n / 10).push(digit(n % 10))
    }
}

/// The text of a decimal digit.
fn digit_text(d: u32) -> (r: &'static str)
    requires
        d < 10,
    ensures
        r@ == seq![digit(d as nat)],
{
    proof {
        reveal_strlit("0");
        reveal_strlit("1");
        reveal_strlit("2");
        reveal_strlit("3");
        reveal_strlit("4");
        reveal_strlit("5");
        reveal_strlit("6");
        reveal_strlit("7");
        reveal_strlit("8");
        reveal_strlit("9");
    }
    match d {
        0 => "0",
        1 => "1",
        2 => "2",
        3 => "3",
        4 => "4",
        5 => "5",
        6 => "6",
        7 => "7",
        8 => "8",
        _ => "9",
    }
}

/// The decimal numeral of `n`.
pub fn decimal_text(n: u32) -> (r: String)
    ensures
        r@ == decimal(n as nat),
    decreases n,
{
    if n < 10 {
        digit_text(n).to_owned()
    } else {
        let mut out: String = decimal_text(n / 10);
        out.append(digit_text(n % 10));
        assert(out@ =~= decimal((n / 10) as nat).push(digit((n % 10) as nat)));
        out
    }
}

} // verus!
