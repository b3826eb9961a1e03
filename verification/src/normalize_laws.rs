//! Laws of the normalizers.

use crate::normalize::maybe_normalize_schema_name;
use crate::normalize::maybe_normalize_slashes;
use crate::normalize::maybe_normalize_time;
use crate::normalize::maybe_normalize_tmp_paths;
use crate::normalize::normalize_inline_sql_files;
use crate::normalize::normalize_replay_paths;
use crate::normalize::normalize_thread_ids;
use crate::normalize::normalize_version;
use crate::normalize::version_dropped;
use crate::outside::regex_replaced;
use crate::platform::Platform;
use crate::text_laws::holds;
use crate::text_laws::lemma_replaced_absent;
use crate::text_laws::lemma_replaced_concat;
use crate::text_laws::lemma_replaced_whole;
use vstd::prelude::*;

verus! {

/// Whether a text is a brand name of the startup banner.
pub open spec fn is_brand(brand: Seq<char>) -> bool {
    brand == "dbt-fusion"@ || brand == "dbt-core"@ || brand == "dbt-repl"@
}

/// What every brand name starts with.
pub open spec fn brand_start() -> Seq<char> {
    seq!['d', 'b', 't', '-']
}

/// Whether a brand name could start at position `i` of `s`, as far as `s` goes.
pub open spec fn could_start_brand(s: Seq<char>, i: int) -> bool {
    forall|k: int| 0 <= k < 4 && i + k < s.len() ==> #[trigger] s[i + k] == brand_start()[k]
}

proof fn lemma_brand(brand: Seq<char>)
    requires
        is_brand(brand),
    ensures
        brand.len() >= 8,
        brand.take(4) == brand_start(),
        brand[0] == 'd' && brand[1] == 'b' && brand[2] == 't' && brand[3] == '-',
        forall|o: int| 0 < o < brand.len() ==> #[trigger] brand[o] != 'd',
        brand[4] == 'f' <==> brand == "dbt-fusion"@,
        brand[4] == 'c' <==> brand == "dbt-core"@,
        brand[4] == 'r' <==> brand == "dbt-repl"@,
{
    reveal_strlit("dbt-fusion");
    reveal_strlit("dbt-core");
    reveal_strlit("dbt-repl");
    assert(brand.take(4) =~= brand_start());
}

/// A banner, or what is left of one: a brand name and a space, and behind them the version or
/// nothing.
spec fn is_banner(x: Seq<char>, brand: Seq<char>, version: Seq<char>) -> bool {
    x == brand + seq![' '] + version || x == brand + seq![' ']
}

/// No banner overlaps another one that it does not start with.
proof fn lemma_no_overlap(
    t: Seq<char>,
    n: int,
    x: Seq<char>,
    mine: Seq<char>,
    theirs: Seq<char>,
    version: Seq<char>,
    q: int,
)
    requires
        is_brand(mine),
        is_brand(theirs),
        is_banner(x, mine, version),
        forall|i: int| 0 <= i < version.len() ==> !could_start_brand(version, i),
        holds(t, x, n),
        holds(t, theirs + seq![' '] + version, q),
        q < n + x.len(),
        n < q + theirs.len() + 1 + version.len(),
    ensures
        q == n,
        mine == theirs,
{
    lemma_brand(mine);
    lemma_brand(theirs);
    let pat = theirs + seq![' '] + version;
    assert(forall|k: int| 0 <= k < x.len() ==> t[n + k] == #[trigger] x[k]) by {
        assert forall|k: int| 0 <= k < x.len() implies t[n + k] == #[trigger] x[k] by {
            assert(t.subrange(n, n + x.len())[k] == t[n + k]);
        }
    }
    assert(forall|k: int| 0 <= k < pat.len() ==> t[q + k] == #[trigger] pat[k]) by {
        assert forall|k: int| 0 <= k < pat.len() implies t[q + k] == #[trigger] pat[k] by {
            assert(t.subrange(q, q + pat.len())[k] == t[q + k]);
        }
    }
    if q > n {
        let o = q - n;
        assert(t[n + o] == x[o]);
        assert(pat[0] == 'd');
        assert(t[q + 0] == pat[0]);
        if o < mine.len() {
            assert(x[o] == mine[o]);
        } else if o == mine.len() {
            assert(x[o] == ' ');
        } else {
            let i = o - mine.len() - 1;
            assert(x[o] == version[i]);
            assert(!could_start_brand(version, i));
            let k = choose|k: int|
                0 <= k < 4 && i + k < version.len() && #[trigger] version[i + k]
                    != brand_start()[k];
            assert(x[o + k] == version[i + k]);
            assert(t[n + (o + k)] == x[o + k]);
            assert(t[q + k] == pat[k]);
            assert(pat[k] == theirs[k]);
            assert(theirs.take(4)[k] == theirs[k]);
        }
        assert(false);
    }
    if q < n {
        let o = n - q;
        assert(x[0] == 'd');
        assert(t[n + 0] == x[0]);
        assert(t[q + o] == pat[o]);
        if o < theirs.len() {
            assert(pat[o] == theirs[o]);
        } else if o == theirs.len() {
            assert(pat[o] == ' ');
        } else {
            let i = o - theirs.len() - 1;
            assert(pat[o] == version[i]);
            assert(!could_start_brand(version, i));
            let k = choose|k: int|
                0 <= k < 4 && i + k < version.len() && #[trigger] version[i + k]
                    != brand_start()[k];
            assert(pat[o + k] == version[i + k]);
            assert(t[q + (o + k)] == pat[o + k]);
            assert(t[n + k] == x[k]);
            assert(x[k] == mine[k]);
            assert(mine.take(4)[k] == mine[k]);
        }
        assert(false);
    }
    assert(t[n + 4] == x[4]);
    assert(t[q + 4] == pat[4]);
    assert(x[4] == mine[4] && pat[4] == theirs[4]);
}

/// What dropping the version behind one brand makes of a text with a banner.
proof fn lemma_dropped_around(
    a: Seq<char>,
    x: Seq<char>,
    b: Seq<char>,
    mine: Seq<char>,
    theirs: Seq<char>,
    version: Seq<char>,
)
    requires
        is_brand(mine),
        is_brand(theirs),
        is_banner(x, mine, version),
        mine == theirs ==> x == mine + seq![' '] + version,
        forall|i: int| 0 <= i < version.len() ==> !could_start_brand(version, i),
    ensures
        version_dropped(a + x + b, theirs, version) == version_dropped(a, theirs, version) + (
        if mine == theirs {
            mine + seq![' ']
        } else {
            x
        }) + version_dropped(b, theirs, version),
{
    reveal_strlit(" ");
    assert(" "@ =~= seq![' ']);
    let pat = theirs + seq![' '] + version;
    let rep = theirs + seq![' '];
    let t = a + (x + b);
    let n = a.len() as int;
    lemma_brand(mine);
    lemma_brand(theirs);
    assert(a + x + b =~= t);
    assert(t.subrange(n, n + x.len()) =~= x);
    assert(holds(t, x, n));
    assert forall|j: int| 0 <= j < a.len() < j + pat.len() implies !holds(a + (x + b), pat, j) by {
        if holds(t, pat, j) {
            lemma_no_overlap(t, n, x, mine, theirs, version, j);
        }
    }
    lemma_replaced_concat(a, x + b, pat, rep, 0);
    let u = x + b;
    assert(u.subrange(0, x.len() as int) =~= x);
    assert(holds(u, x, 0));
    assert forall|j: int| 0 <= j < x.len() < j + pat.len() implies !holds(x + b, pat, j) by {
        if holds(u, pat, j) {
            lemma_no_overlap(u, 0, x, mine, theirs, version, j);
        }
    }
    lemma_replaced_concat(x, b, pat, rep, 0);
    if mine == theirs {
        lemma_replaced_whole(pat, rep);
    } else {
        assert(x.subrange(0, x.len() as int) =~= x);
        assert(holds(x, x, 0));
        assert forall|j: int| !holds(x, pat, j) by {
            if holds(x, pat, j) {
                lemma_no_overlap(x, 0, x, mine, theirs, version, j);
            }
        }
        lemma_replaced_absent(x, pat, rep);
    }
    assert(version_dropped(a + x + b, theirs, version) =~= version_dropped(a, theirs, version) + (
    if mine == theirs {
        mine + seq![' ']
    } else {
        x
    }) + version_dropped(b, theirs, version));
}

/// The version is dropped from every banner, whatever stands before it and behind it: what is left
/// of a banner is the brand name and the space behind it, and the text before the banner and the
/// text behind it are normalized on their own. No brand name starts in the version.
pub proof fn law_version_is_dropped(
    output: String,
    version: &str,
    brand: Seq<char>,
    before: String,
    after: String,
    r: String,
    x: String,
    y: String,
)
    requires
        is_brand(brand),
        forall|i: int| 0 <= i < version@.len() ==> !could_start_brand(version@, i),
        output@ == before@ + brand + " "@ + version@ + after@,
        call_ensures(normalize_version, (output, version), r),
        call_ensures(normalize_version, (before, version), x),
        call_ensures(normalize_version, (after, version), y),
    ensures
        r@ == x@ + brand + " "@ + y@,
{
    reveal_strlit(" ");
    assert(" "@ =~= seq![' ']);
    let v = version@;
    let fusion = "dbt-fusion"@;
    let core = "dbt-core"@;
    let repl = "dbt-repl"@;
    let full = brand + seq![' '] + v;
    let left = brand + seq![' '];
    lemma_brand(brand);
    lemma_brand(fusion);
    lemma_brand(core);
    lemma_brand(repl);
    assert(output@ =~= before@ + full + after@);
    lemma_dropped_around(before@, full, after@, brand, fusion, v);
    let a1 = version_dropped(before@, fusion, v);
    let b1 = version_dropped(after@, fusion, v);
    let x1 = if brand == fusion {
        left
    } else {
        full
    };
    lemma_dropped_around(a1, x1, b1, brand, core, v);
    let a2 = version_dropped(a1, core, v);
    let b2 = version_dropped(b1, core, v);
    let x2 = if brand == core {
        left
    } else {
        x1
    };
    lemma_dropped_around(a2, x2, b2, brand, repl, v);
    assert(r@ =~= x@ + brand + " "@ + y@);
}

/// A text without a banner stays as it is.
pub proof fn law_other_text_is_kept(output: String, version: &str, r: String)
    requires
        call_ensures(normalize_version, (output, version), r),
        forall|brand: Seq<char>, a: Seq<char>, b: Seq<char>|
            is_brand(brand) ==> output@ != #[trigger] (a + brand + " "@ + version@ + b),
    ensures
        r@ == output@,
{
    lemma_no_banner(output@, "dbt-fusion"@, version@);
    lemma_no_banner(output@, "dbt-core"@, version@);
    lemma_no_banner(output@, "dbt-repl"@, version@);
}

proof fn lemma_no_banner(text: Seq<char>, brand: Seq<char>, version: Seq<char>)
    requires
        is_brand(brand),
        forall|a: Seq<char>, b: Seq<char>|
            text != #[trigger] (a + brand + " "@ + version + b),
    ensures
        version_dropped(text, brand, version) == text,
{
    let pat = brand + " "@ + version;
    assert forall|j: int| !holds(text, pat, j) by {
        if holds(text, pat, j) {
            let a = text.subrange(0, j);
            let b = text.subrange(j + pat.len(), text.len() as int);
            assert(text =~= a + pat + b);
            assert(a + pat + b =~= a + brand + " "@ + version + b);
        }
    }
    lemma_replaced_absent(text, pat, brand + " "@);
}

/// On Windows each slash of either kind becomes a bar, and every other character stays where it
/// is; elsewhere nothing changes.
pub proof fn law_slashes_become_bars(output: String, platform: Platform, r: String, i: int)
    requires
        call_ensures(maybe_normalize_slashes, (output, platform), r),
        0 <= i < output@.len(),
    ensures
        r@.len() == output@.len(),
        platform == Platform::Posix ==> r@ == output@,
        platform == Platform::Windows && (output@[i] == '/' || output@[i] == '\\') ==> r@[i] == '|',
        output@[i] != '/' && output@[i] != '\\' ==> r@[i] == output@[i],
{
}

/// Whether a pattern occurs nowhere in a text, so that replacing it leaves the text as it is.
pub open spec fn unmatched(pattern: Seq<char>, text: Seq<char>, replacement: Seq<char>) -> bool {
    regex_replaced(pattern, text, replacement) == text
}

/// Temporary roots become `/tmp/`: on Windows those of Windows, in either writing, elsewhere
/// those of macOS. Where a text holds one kind of root and no name that `mktemp` made up, that
/// kind is replaced and nothing else; such names become `/.tmpXXXXXX` behind any roots.
pub proof fn law_temporary_paths(
    output: String,
    platform: Platform,
    r: String,
    macos: Seq<char>,
    escaped: Seq<char>,
    windows: Seq<char>,
    made_up: Seq<char>,
)
    requires
        call_ensures(maybe_normalize_tmp_paths, (output, platform), r),
        macos == r"(?:/private)?/var/folders/[^/]+/[^/]+/T/"@,
        escaped
            == r"(?i)[A-Z]:\\\\Users\\\\[^\\\\]+\\\\AppData\\\\Local\\\\Temp\\\\|[A-Z]:\\\\Windows\\\\Temp\\\\|[A-Z]:\\\\Temp\\\\"@,
        windows
            == r"(?i)[A-Z]:\\Users\\[^\\]+\\AppData\\Local\\Temp\\|[A-Z]:\\Windows\\Temp\\|[A-Z]:\\Temp\\"@,
        made_up == r"/\.tmp[0-9A-Za-z_-]+"@,
    ensures
        platform == Platform::Posix ==> {
            let rooted = regex_replaced(macos, output@, "/tmp/"@);
            &&& unmatched(made_up, rooted, "/.tmpXXXXXX"@) ==> r@ == rooted
            &&& unmatched(macos, output@, "/tmp/"@) ==> r@ == regex_replaced(
                made_up,
                output@,
                "/.tmpXXXXXX"@,
            )
            &&& r@ == regex_replaced(made_up, rooted, "/.tmpXXXXXX"@)
        },
        platform == Platform::Windows ==> {
            let unescaped = regex_replaced(escaped, output@, "/tmp/"@);
            let rooted = regex_replaced(windows, unescaped, "/tmp/"@);
            &&& unmatched(escaped, output@, "/tmp/"@) && unmatched(
                made_up,
                rooted,
                "/.tmpXXXXXX"@,
            ) ==> r@ == regex_replaced(windows, output@, "/tmp/"@)
            &&& unmatched(windows, unescaped, "/tmp/"@) && unmatched(
                made_up,
                unescaped,
                "/.tmpXXXXXX"@,
            ) ==> r@ == unescaped
            &&& r@ == regex_replaced(made_up, rooted, "/.tmpXXXXXX"@)
        },
{
}

/// Test schemas get one name, and the suffixes that isolate them are dropped.
pub proof fn law_schema_names(
    output: String,
    r: String,
    schema: Seq<char>,
    suffix: Seq<char>,
    renamed: Seq<char>,
)
    requires
        call_ensures(maybe_normalize_schema_name, (output,), r),
        schema == r"(?i)fusion_tests_schema__[a-zA-Z0-9_]*"@,
        suffix == r"___\d+___"@,
        renamed == regex_replaced(schema, output@, "fusion_tests_schema__replaced"@),
    ensures
        renamed == output@ ==> r@ == regex_replaced(suffix, output@, ""@),
        unmatched(suffix, renamed, ""@) ==> r@ == renamed,
        r@ == regex_replaced(suffix, renamed, ""@),
{
}

/// Each kind of time, duration and age is replaced by a text of its own, and each kind is looked
/// for in what the kinds before it left: timestamps before times of day, phrases before the
/// durations in them, and durations in brackets before other durations.
pub proof fn law_times(
    output: String,
    r: String,
    stamps: Seq<char>,
    times: Seq<char>,
    phrases: Seq<char>,
    updates: Seq<char>,
    brackets: Seq<char>,
    durations: Seq<char>,
    ages: Seq<char>,
)
    requires
        call_ensures(maybe_normalize_time, (output,), r),
        stamps == regex_replaced(
            r"\d{4}-\d{2}-\d{2}T\d{2}:\d{2}:\d{2}(?:\.\d+)?Z"@,
            output@,
            "YYYY-MM-DDTHH:MM:SS.sssZ"@,
        ),
        times == regex_replaced(r"\b\d{2}:\d{2}:\d{2}\b"@, stamps, "HH:MM:SS"@),
        phrases == regex_replaced(
            r"\bin\s+\d+(?:\.\d+)?(?:ns|us|μs|ms|s|m|h)(?:\s+\d+(?:\.\d+)?(?:ns|us|μs|ms|s|m|h))*\b"@,
            times,
            "in duration"@,
        ),
        updates == regex_replaced(
            r"\bLast updated\s+\d+(?:\.\d+)?(?:ns|us|μs|ms|s|m|h)(?:\s+\d+(?:\.\d+)?(?:ns|us|μs|ms|s|m|h))* ago\b"@,
            phrases,
            "Last updated Xs ago"@,
        ),
        brackets == regex_replaced(
            r"\[\s*(?:\d+h(?:\s*\d+m(?:\s*\d+s)?)?|\d+m(?:\s*\d+s)?|\d+(?:\.\d+)?(?:ns|us|μs|ms|s)|-------)\s*\]"@,
            updates,
            "[duration]"@,
        ),
        durations == regex_replaced(
            r"\b\d+(?:\.\d+)?(?:ns|us|μs|ms|s|m|h)(?:\s+\d+(?:\.\d+)?(?:ns|us|μs|ms|s|m|h))*\b"@,
            brackets,
            "duration"@,
        ),
        ages == regex_replaced(r"\bage:\s*\d+"@, durations, "age: NORMALIZED"@),
    ensures
        r@ == ages,
        stamps == output@ && times == stamps && phrases == times && updates == phrases && brackets
            == updates && durations == brackets && ages == durations ==> r@ == output@,
{
}

/// Inline query files, numbers of threads and paths of recordings are replaced by fixed texts;
/// the name of the thread and the word behind its number stay.
pub proof fn law_single_replacements(output: String, a: String, b: String, c: String)
    requires
        call_ensures(normalize_inline_sql_files, (output,), a),
        call_ensures(normalize_thread_ids, (output,), b),
        call_ensures(normalize_replay_paths, (output,), c),
    ensures
        a@ == regex_replaced(r"inline_[a-f0-9]{8}\.sql"@, output@, "inline_#randhash#.sql"@),
        b@ == regex_replaced(r"(thread '[^']+') \(\d+\) (panicked)"@, output@, "$1 $2"@),
        c@ == regex_replaced(r"\(path: [^)]+\)"@, output@, "(path: <path>)"@),
{
}

} // verus!
