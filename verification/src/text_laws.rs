//! Laws of searching, splitting and replacing in texts, and of decimal numerals.

use crate::text::after_last;
use crate::text::contains;
use crate::text::contains_text;
use crate::text::decimal;
use crate::text::decimal_text;
use crate::text::find;
use crate::text::last_piece;
use crate::text::lemma_find;
use crate::text::replace;
use crate::text::replaced;
use vstd::prelude::*;

verus! {

/// Searching behind `a` is searching in what follows it.
pub proof fn lemma_find_behind(a: Seq<char>, b: Seq<char>, pat: Seq<char>, i: int)
    requires
        0 <= i,
    ensures
        find(a + b, pat, a.len() + i) == (match find(b, pat, i) {
            Some(k) => Some(a.len() + k),
            None => None,
        }),
    decreases b.len() + 1 - i,
{
    if i + pat.len() <= b.len() {
        assert((a + b).subrange(a.len() + i, a.len() + i + pat.len()) =~= b.subrange(
            i,
            i + pat.len(),
        ));
        if b.subrange(i, i + pat.len()) != pat {
            lemma_find_behind(a, b, pat, i + 1);
        }
    }
}

/// Replacing and cutting behind `a` is replacing and cutting in what follows it.
pub proof fn lemma_pieces_behind(
    a: Seq<char>,
    b: Seq<char>,
    pat: Seq<char>,
    rep: Seq<char>,
    i: int,
)
    requires
        0 <= i <= b.len(),
        pat.len() > 0,
    ensures
        replaced(a + b, pat, rep, a.len() + i) == replaced(b, pat, rep, i),
        last_piece(a + b, pat, a.len() + i) == last_piece(b, pat, i),
    decreases b.len() - i,
{
    let s = a + b;
    let n = a.len() as int;
    lemma_find_behind(a, b, pat, i);
    lemma_find(b, pat, i);
    match find(b, pat, i) {
        Some(k) => {
            lemma_pieces_behind(a, b, pat, rep, k + pat.len());
            assert(s.subrange(n + i, n + k) =~= b.subrange(i, k));
        },
        None => {
            assert(s.subrange(n + i, s.len() as int) =~= b.subrange(i, b.len() as int));
        },
    }
}

/// Whether `s` holds `pat` at position `i`.
pub open spec fn holds(s: Seq<char>, pat: Seq<char>, i: int) -> bool {
    0 <= i <= s.len() - pat.len() && s.subrange(i, i + pat.len()) == pat
}

/// Searching finds the first position that holds the pattern.
proof fn lemma_find_first(s: Seq<char>, pat: Seq<char>, i: int, k: int)
    requires
        0 <= i <= k,
        holds(s, pat, k),
        forall|j: int| i <= j < k ==> !holds(s, pat, j),
    ensures
        find(s, pat, i) == Some(k),
{
    lemma_find(s, pat, i);
    match find(s, pat, i) {
        Some(m) => {
            assert(holds(s, pat, m));
            if m > k {
                assert(s.subrange(k, k + pat.len()) == pat);
            }
        },
        None => {
            assert(s.subrange(k, k + pat.len()) == pat);
        },
    }
}

/// Searching finds nothing where no position holds the pattern.
proof fn lemma_find_none(s: Seq<char>, pat: Seq<char>, i: int)
    requires
        0 <= i,
        forall|j: int| i <= j ==> !holds(s, pat, j),
    ensures
        find(s, pat, i) is None,
{
    lemma_find(s, pat, i);
    if let Some(m) = find(s, pat, i) {
        assert(holds(s, pat, m));
    }
}

/// Where no occurrence of the pattern lies across the seam of two texts, replacing in both
/// together is replacing in each.
pub proof fn lemma_replaced_concat(
    a: Seq<char>,
    b: Seq<char>,
    pat: Seq<char>,
    rep: Seq<char>,
    i: int,
)
    requires
        pat.len() > 0,
        0 <= i <= a.len(),
        forall|j: int| 0 <= j < a.len() < j + pat.len() ==> !holds(a + b, pat, j),
    ensures
        replaced(a + b, pat, rep, i) == replaced(a, pat, rep, i) + replaced(b, pat, rep, 0),
    decreases a.len() - i,
{
    let s = a + b;
    let n = a.len() as int;
    lemma_find(a, pat, i);
    match find(a, pat, i) {
        Some(k) => {
            assert(s.subrange(k, k + pat.len()) =~= a.subrange(k, k + pat.len()));
            assert forall|j: int| i <= j < k implies !holds(s, pat, j) by {
                if j + pat.len() <= n {
                    assert(s.subrange(j, j + pat.len()) =~= a.subrange(j, j + pat.len()));
                }
            }
            assert(holds(s, pat, k));
            lemma_find_first(s, pat, i, k);
            lemma_replaced_concat(a, b, pat, rep, k + pat.len());
            assert(s.subrange(i, k) =~= a.subrange(i, k));
            assert(replaced(s, pat, rep, i) =~= replaced(a, pat, rep, i) + replaced(
                b,
                pat,
                rep,
                0,
            ));
        },
        None => {
            assert forall|j: int| i <= j < n implies !holds(s, pat, j) by {
                if j + pat.len() <= n {
                    assert(s.subrange(j, j + pat.len()) =~= a.subrange(j, j + pat.len()));
                }
            }
            lemma_find_behind(a, b, pat, 0);
            lemma_pieces_behind(a, b, pat, rep, 0);
            lemma_find(b, pat, 0);
            match find(b, pat, 0) {
                Some(k) => {
                    assert((a + b).subrange(n + k, n + k + pat.len()) =~= b.subrange(
                        k,
                        k + pat.len(),
                    ));
                    assert forall|j: int| i <= j < n + k implies !holds(s, pat, j) by {
                        if j >= n {
                            if j + pat.len() <= s.len() {
                                assert(s.subrange(j, j + pat.len()) =~= b.subrange(
                                    j - n,
                                    j - n + pat.len(),
                                ));
                            }
                        }
                    }
                    assert(holds(s, pat, n + k));
                    lemma_find_first(s, pat, i, n + k);
                    lemma_pieces_behind(a, b, pat, rep, k + pat.len());
                    assert(s.subrange(i, n + k) =~= a.subrange(i, n) + b.subrange(0, k));
                    assert(replaced(s, pat, rep, i) =~= a.subrange(i, n) + replaced(
                        b,
                        pat,
                        rep,
                        0,
                    ));
                },
                None => {
                    assert forall|j: int| i <= j implies !holds(s, pat, j) by {
                        if n <= j <= s.len() - pat.len() {
                            assert(s.subrange(j, j + pat.len()) =~= b.subrange(
                                j - n,
                                j - n + pat.len(),
                            ));
                        }
                    }
                    lemma_find_none(s, pat, i);
                    assert(s.subrange(i, s.len() as int) =~= a.subrange(i, n) + b.subrange(
                        0,
                        b.len() as int,
                    ));
                },
            }
        },
    }
}

/// A text without the pattern stays as it is.
pub proof fn lemma_replaced_absent(s: Seq<char>, pat: Seq<char>, rep: Seq<char>)
    requires
        forall|j: int| !holds(s, pat, j),
    ensures
        replaced(s, pat, rep, 0) == s,
{
    lemma_find_none(s, pat, 0);
    assert(s.subrange(0, s.len() as int) =~= s);
}

/// The pattern itself is replaced as a whole.
pub proof fn lemma_replaced_whole(pat: Seq<char>, rep: Seq<char>)
    requires
        pat.len() > 0,
    ensures
        replaced(pat, pat, rep, 0) == rep,
{
    let n = pat.len() as int;
    assert(pat.subrange(0, n) =~= pat);
    assert(holds(pat, pat, 0));
    lemma_find_first(pat, pat, 0, 0);
    lemma_find(pat, pat, n);
    assert(find(pat, pat, n) is None);
    assert(replaced(pat, pat, rep, n) == pat.subrange(n, n));
    assert(pat.subrange(0, 0) + rep + pat.subrange(n, n) =~= rep);
}

/// A text holds another exactly where it is made of a start, the other text and a rest.
pub proof fn law_contains(s: &str, pat: &str, r: bool)
    requires
        call_ensures(contains, (s, pat), r),
    ensures
        r ==> exists|a: Seq<char>, b: Seq<char>| s@ == #[trigger] (a + pat@ + b),
        forall|a: Seq<char>, b: Seq<char>| s@ == #[trigger] (a + pat@ + b) ==> r,
{
    let n = pat@.len() as int;
    if r {
        let i = choose|i: int| 0 <= i <= s@.len() - n && #[trigger] s@.subrange(i, i + n) == pat@;
        let a = s@.subrange(0, i);
        let b = s@.subrange(i + n, s@.len() as int);
        assert(s@ =~= a + pat@ + b);
    }
    assert forall|a: Seq<char>, b: Seq<char>| s@ == #[trigger] (a + pat@ + b) implies r by {
        assert(s@.subrange(a.len() as int, a.len() + n) =~= pat@);
        assert(contains_text(s@, pat@));
    }
}

/// Replacing changes nothing in a text that does not hold the pattern.
pub proof fn law_replace_absent(s: &str, pat: &str, rep: &str, r: String)
    requires
        call_ensures(replace, (s, pat, rep), r),
        forall|a: Seq<char>, b: Seq<char>| s@ != #[trigger] (a + pat@ + b),
    ensures
        r@ == s@,
{
    assert forall|j: int| !holds(s@, pat@, j) by {
        if holds(s@, pat@, j) {
            let a = s@.subrange(0, j);
            let b = s@.subrange(j + pat@.len(), s@.len() as int);
            assert(s@ =~= a + pat@ + b);
        }
    }
    lemma_replaced_absent(s@, pat@, rep@);
}

/// Replacing puts the replacement in the place of the first occurrence, leaves what stands before
/// it, and goes on behind it.
pub proof fn law_replace_first(
    s: &str,
    pat: &str,
    rep: &str,
    r: String,
    front: Seq<char>,
    rest: &str,
    t: String,
)
    requires
        pat@.len() > 0,
        s@ == front + pat@ + rest@,
        forall|a: Seq<char>, b: Seq<char>|
            s@ == #[trigger] (a + pat@ + b) ==> a.len() >= front.len(),
        call_ensures(replace, (s, pat, rep), r),
        call_ensures(replace, (rest, pat, rep), t),
    ensures
        r@ == front + rep@ + t@,
{
    let n = front.len() as int;
    let m = pat@.len() as int;
    assert(s@.subrange(n, n + m) =~= pat@);
    assert forall|j: int| 0 <= j < n implies !holds(s@, pat@, j) by {
        if holds(s@, pat@, j) {
            let a = s@.subrange(0, j);
            let b = s@.subrange(j + m, s@.len() as int);
            assert(s@ =~= a + pat@ + b);
            assert(a.len() == j);
        }
    }
    assert(holds(s@, pat@, n));
    lemma_find_first(s@, pat@, 0, n);
    lemma_pieces_behind(front + pat@, rest@, pat@, rep@, 0);
    assert(s@ =~= (front + pat@) + rest@);
    assert(s@.subrange(0, n) =~= front);
}

/// How the last piece of a text is found.
pub proof fn lemma_last_piece_steps(
    s: Seq<char>,
    pat: Seq<char>,
    front: Seq<char>,
    rest: Seq<char>,
)
    requires
        pat.len() > 0,
    ensures
        (forall|a: Seq<char>, b: Seq<char>| s != #[trigger] (a + pat + b)) ==> last_piece(s, pat, 0)
            == s,
        s == front + pat + rest && (forall|a: Seq<char>, b: Seq<char>|
            s == #[trigger] (a + pat + b) ==> a.len() >= front.len()) ==> last_piece(s, pat, 0)
            == last_piece(rest, pat, 0),
{
    let n = front.len() as int;
    let m = pat.len() as int;
    if forall|a: Seq<char>, b: Seq<char>| s != #[trigger] (a + pat + b) {
        assert forall|j: int| !holds(s, pat, j) by {
            if holds(s, pat, j) {
                let a = s.subrange(0, j);
                let b = s.subrange(j + m, s.len() as int);
                assert(s =~= a + pat + b);
            }
        }
        lemma_find_none(s, pat, 0);
        assert(s.subrange(0, s.len() as int) =~= s);
    }
    if s == front + pat + rest && (forall|a: Seq<char>, b: Seq<char>|
        s == #[trigger] (a + pat + b) ==> a.len() >= front.len()) {
        assert(s.subrange(n, n + m) =~= pat);
        assert forall|j: int| 0 <= j < n implies !holds(s, pat, j) by {
            if holds(s, pat, j) {
                let a = s.subrange(0, j);
                let b = s.subrange(j + m, s.len() as int);
                assert(s =~= a + pat + b);
                assert(a.len() == j);
            }
        }
        assert(holds(s, pat, n));
        lemma_find_first(s, pat, 0, n);
        lemma_pieces_behind(front + pat, rest, pat, rest, 0);
        assert(s =~= (front + pat) + rest);
    }
}

/// The last piece of a text without a separator is the text; that of a text that goes on behind
/// its first separator is that of what goes on.
pub proof fn law_after_last(
    s: &str,
    pat: &str,
    r: String,
    front: Seq<char>,
    rest: &str,
    t: String,
)
    requires
        pat@.len() > 0,
        call_ensures(after_last, (s, pat), r),
        call_ensures(after_last, (rest, pat), t),
    ensures
        (forall|a: Seq<char>, b: Seq<char>| s@ != #[trigger] (a + pat@ + b)) ==> r@ == s@,
        s@ == front + pat@ + rest@ && (forall|a: Seq<char>, b: Seq<char>|
            s@ == #[trigger] (a + pat@ + b) ==> a.len() >= front.len()) ==> r@ == t@,
{
    lemma_last_piece_steps(s@, pat@, front, rest@);
}

/// The number that a row of decimal digits stands for.
pub open spec fn numeral_value(digits: Seq<char>) -> int
    decreases digits.len(),
{
    if digits.len() == 0 {
        0
    } else {
        10 * numeral_value(digits.drop_last()) + (digits.last() as int - '0' as int)
    }
}

proof fn lemma_decimal(n: nat)
    ensures
        decimal(n).len() > 0,
        numeral_value(decimal(n)) == n,
        forall|i: int| 0 <= i < decimal(n).len() ==> '0' <= #[trigger] decimal(n)[i] <= '9',
        n > 0 ==> decimal(n)[0] != '0',
        n < 10 ==> decimal(n).len() == 1,
    decreases n,
{
    if n < 10 {
        let s = decimal(n);
        assert(s.drop_last().len() == 0);
        assert(numeral_value(s.drop_last()) == 0);
        assert(s.last() as int == 48 + n);
    } else {
        let front = decimal(n / 10);
        lemma_decimal(n / 10);
        assert(decimal(n).drop_last() =~= front);
        assert(decimal(n).last() as int == 48 + n % 10);
        assert forall|i: int| 0 <= i < decimal(n).len() implies '0' <= #[trigger] decimal(n)[i]
            <= '9' by {
            if i < front.len() {
                assert(decimal(n)[i] == front[i]);
            }
        }
        assert(decimal(n)[0] == front[0]);
    }
}

/// A number is written in decimal digits that stand for it, without zeros before it.
pub proof fn law_decimal_text(n: u32, r: String)
    requires
        call_ensures(decimal_text, (n,), r),
    ensures
        numeral_value(r@) == n,
        forall|i: int| 0 <= i < r@.len() ==> '0' <= #[trigger] r@[i] <= '9',
        r@.len() > 0,
        n > 0 ==> r@[0] != '0',
        n == 0 ==> r@.len() == 1,
{
    lemma_decimal(n as nat);
}

} // verus!
