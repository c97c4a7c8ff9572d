//! Character-level string helpers: equality, scanning for the alias
//! separator, deriving a file stem from a URL, and splitting on a separator.

use vstd::prelude::*;
use vstd::string::StrSliceExecFns;

verus! {

/// Character-by-character string equality, usable where the operands are
/// slices rather than `String`s.
pub fn str_eq(a: &str, b: &str) -> (r: bool)
    ensures
        r == (a@ == b@),
{
    let na = a.unicode_len();
    let nb = b.unicode_len();
    if na != nb {
        proof {
            assert(a@ != b@);
        }
        return false;
    }
    let mut i: usize = 0;
    while i < na
        invariant
            na == a@.len(),
            na == b@.len(),
            0 <= i <= na,
            forall|j: int| 0 <= j < i ==> a@[j] == b@[j],
        decreases na - i,
    {
        if a.get_char(i) != b.get_char(i) {
            return false;
        }
        i = i + 1;
    }
    proof {
        assert(a@ =~= b@);
    }
    true
}

/// The separator that marks an alias step: `"<new> from <existing>"`.
pub open spec fn alias_sep() -> Seq<char> {
    " from "@
}

/// The alias separator occurs in `s` at position `i`.
pub open spec fn is_sep_at(s: Seq<char>, i: int) -> bool {
    0 <= i && i + alias_sep().len() <= s.len() && s.subrange(i, i + alias_sep().len())
        == alias_sep()
}

/// `s` contains the alias separator somewhere.
pub open spec fn has_sep(s: Seq<char>) -> bool {
    exists|i: int| is_sep_at(s, i)
}

/// Splits an alias step at the first occurrence of the separator.
/// Returns `None` exactly when `s` does not contain `" from "`; otherwise
/// the part before the first occurrence and the part after it.
pub fn split_alias(s: &str) -> (r: Option<(String, String)>)
    ensures
        match r {
            Option::None => !has_sep(s@),
            Option::Some(p) => {
                &&& is_sep_at(s@, p.0@.len() as int)
                &&& forall|j: int| 0 <= j < p.0@.len() ==> !is_sep_at(s@, j)
                &&& p.0@ == s@.subrange(0, p.0@.len() as int)
                &&& p.1@ == s@.subrange(
                    p.0@.len() + alias_sep().len() as int,
                    s@.len() as int,
                )
            },
        },
{
    let n = s.unicode_len();
    let m = " from ".unicode_len();
    proof {
        reveal_strlit(" from ");
    }
    if m > n {
        proof {
            assert(forall|j: int| is_sep_at(s@, j) ==> j + alias_sep().len() <= s@.len());
        }
        return None;
    }
    let mut i: usize = 0;
    while i <= n - m
        invariant
            n == s@.len(),
            m == alias_sep().len(),
            1 <= m <= n,
            0 <= i <= n - m + 1,
            forall|j: int| 0 <= j < i ==> !is_sep_at(s@, j),
        decreases n - i,
    {
        let sub = s.substring_char(i, i + m);
        if str_eq(sub, " from ") {
            let before = s.substring_char(0, i).to_owned();
            let after = s.substring_char(i + m, n).to_owned();
            return Some((before, after));
        }
        i = i + 1;
    }
    proof {
        assert(forall|j: int| is_sep_at(s@, j) ==> 0 <= j && j + alias_sep().len()
            <= s@.len());
        assert(!has_sep(s@));
    }
    None
}

/// Bounds of the filename stem inside a URL: `a` starts the last
/// `/`-separated segment and `b` ends it at the segment's first `.`, if any.
pub open spec fn stem_bounds(s: Seq<char>, a: int, b: int) -> bool {
    &&& 0 <= a <= b <= s.len()
    &&& (a == 0 || s[a - 1] == '/')
    &&& forall|j: int| a <= j < s.len() ==> s[j] != '/'
    &&& forall|j: int| a <= j < b ==> s[j] != '.'
    &&& (b == s.len() || s[b] == '.')
}

/// The stem bounds of a string are unique.
pub proof fn lemma_stem_bounds_unique(s: Seq<char>, a1: int, b1: int, a2: int, b2: int)
    requires
        stem_bounds(s, a1, b1),
        stem_bounds(s, a2, b2),
    ensures
        a1 == a2,
        b1 == b2,
{
    if a1 < a2 {
        assert(s[a2 - 1] == '/');
        assert(a1 <= a2 - 1 < s.len());
        assert(false);
    }
    if a2 < a1 {
        assert(s[a1 - 1] == '/');
        assert(a2 <= a1 - 1 < s.len());
        assert(false);
    }
    if b1 < b2 {
        assert(s[b1] == '.');
        assert(a2 <= b1 < b2);
        assert(false);
    }
    if b2 < b1 {
        assert(s[b2] == '.');
        assert(a1 <= b2 < b1);
        assert(false);
    }
}

/// The filename stem of a URL: the last `/`-separated segment with its
/// first `.`-suffix dropped.
pub open spec fn stem_spec(s: Seq<char>) -> Seq<char> {
    let ab = choose|ab: (int, int)| stem_bounds(s, ab.0, ab.1);
    s.subrange(ab.0, ab.1)
}

/// Derives the filename stem from a URL: the last segment after splitting on
/// `/`, with its first `.`-suffix dropped.
pub fn stem_of_url(url: &str) -> (r: String)
    ensures
        r@ == stem_spec(url@),
        exists|a: int, b: int| stem_bounds(url@, a, b) && r@ == url@.subrange(a, b),
{
    let n = url.unicode_len();
    // Find the start of the last segment: one past the last '/'.
    let mut a: usize = n;
    while a > 0
        invariant
            n == url@.len(),
            0 <= a <= n,
            forall|j: int| a <= j < n ==> url@[j] != '/',
        ensures
            0 <= a <= n,
            forall|j: int| a <= j < n ==> url@[j] != '/',
            a == 0 || url@[a - 1] == '/',
        decreases a,
    {
        if url.get_char(a - 1) == '/' {
            break;
        }
        a = a - 1;
    }
    // Find the first '.' at or after the segment start.
    let mut b: usize = a;
    while b < n
        invariant
            n == url@.len(),
            a <= b <= n,
            forall|j: int| a <= j < b ==> url@[j] != '.',
        ensures
            a <= b <= n,
            forall|j: int| a <= j < b ==> url@[j] != '.',
            b == n || url@[b as int] == '.',
        decreases n - b,
    {
        if url.get_char(b) == '.' {
            break;
        }
        b = b + 1;
    }
    proof {
        assert(stem_bounds(url@, a as int, b as int));
        let w = (a as int, b as int);
        assert(stem_bounds(url@, w.0, w.1));
        assert(exists|ab: (int, int)| stem_bounds(url@, ab.0, ab.1));
        let ab = choose|ab: (int, int)| stem_bounds(url@, ab.0, ab.1);
        assert(stem_bounds(url@, ab.0, ab.1));
        lemma_stem_bounds_unique(url@, ab.0, ab.1, a as int, b as int);
    }
    url.substring_char(a, b).to_owned()
}

/// The character spelling one decimal digit.
pub open spec fn digit_char(d: nat) -> char {
    if d == 0 {
        '0'
    } else if d == 1 {
        '1'
    } else if d == 2 {
        '2'
    } else if d == 3 {
        '3'
    } else if d == 4 {
        '4'
    } else if d == 5 {
        '5'
    } else if d == 6 {
        '6'
    } else if d == 7 {
        '7'
    } else if d == 8 {
        '8'
    } else {
        '9'
    }
}

/// The decimal spelling of a number, most significant digit first.
pub open spec fn spec_decimal(n: nat) -> Seq<char>
    decreases n,
{
    if n < 10 {
        seq![digit_char(n)]
    } else {
        spec_decimal(n / 10).push(digit_char(n % 10))
    }
}

/// One decimal digit as a string slice.
fn digit_str(d: u32) -> (r: &'static str)
    requires
        d < 10,
    ensures
        r@ == seq![digit_char(d as nat)],
{
    proof {
        reveal_strlit("0");
        reveal_strlit("1");
        reveal_strlit("2");
        reveal_strlit("3");
        reveal_strlit("4");
        reveal_strlit("5");
        reveal_strlit("6");
        reveal_strlit("7");
        reveal_strlit("8");
        reveal_strlit("9");
    }
    match d {
        0 => "0",
        1 => "1",
        2 => "2",
        3 => "3",
        4 => "4",
        5 => "5",
        6 => "6",
        7 => "7",
        8 => "8",
        _ => {
            proof {
                assert(d == 9);
            }
            "9"
        },
    }
}

/// Spells a number in decimal.
pub fn u32_to_string(n: u32) -> (r: String)
    ensures
        r@ == spec_decimal(n as nat),
    decreases n,
{
    if n < 10 {
        digit_str(n).to_owned()
    } else {
        let mut s = u32_to_string(n / 10);
        s.append(digit_str(n % 10));
        s
    }
}

/// Splitting `s` on a non-empty separator, scanning left to right from
/// token start `st` and cursor `i`.
pub open spec fn split_rec(s: Seq<char>, sep: Seq<char>, st: int, i: int) -> Seq<Seq<char>>
    decreases s.len() - i + 1,
{
    if sep.len() == 0 || !(0 <= st <= i <= s.len()) {
        Seq::empty()
    } else if i + sep.len() <= s.len() && s.subrange(i, i + sep.len()) == sep {
        seq![s.subrange(st, i)] + split_rec(s, sep, i + sep.len(), i + sep.len())
    } else if i < s.len() {
        split_rec(s, sep, st, i + 1)
    } else {
        seq![s.subrange(st, i)]
    }
}

/// The tokens of `s` split on each non-overlapping occurrence of `sep`,
/// leftmost first.
pub open spec fn spec_split(s: Seq<char>, sep: Seq<char>) -> Seq<Seq<char>> {
    split_rec(s, sep, 0, 0)
}

/// The views of a sequence of strings.
pub open spec fn strs_view(v: Seq<String>) -> Seq<Seq<char>> {
    Seq::new(v.len(), |i: int| v[i]@)
}

/// Splits `s` on each non-overlapping occurrence of `sep`, leftmost first.
pub fn split_on(s: &str, sep: &str) -> (r: Vec<String>)
    requires
        sep@.len() > 0,
    ensures
        strs_view(r@) == spec_split(s@, sep@),
{
    let n = s.unicode_len();
    let m = sep.unicode_len();
    let mut out: Vec<String> = Vec::new();
    let mut st: usize = 0;
    let mut i: usize = 0;
    while i < n
        invariant
            n == s@.len(),
            m == sep@.len(),
            m > 0,
            0 <= st <= i <= n,
            spec_split(s@, sep@) == strs_view(out@) + split_rec(
                s@,
                sep@,
                st as int,
                i as int,
            ),
        decreases n - i,
    {
        let ghost prev = split_rec(s@, sep@, st as int, i as int);
        if m <= n && i <= n - m && str_eq(s.substring_char(i, i + m), sep) {
            let tok = s.substring_char(st, i).to_owned();
            proof {
                assert(prev == seq![s@.subrange(st as int, i as int)] + split_rec(
                    s@,
                    sep@,
                    i + m,
                    i + m,
                ));
                assert(strs_view(out@.push(tok)) =~= strs_view(out@) + seq![tok@]);
                assert(strs_view(out@) + prev =~= strs_view(out@.push(tok)) + split_rec(
                    s@,
                    sep@,
                    i + m,
                    i + m,
                ));
            }
            out.push(tok);
            i = i + m;
            st = i;
        } else {
            proof {
                assert(prev == split_rec(s@, sep@, st as int, i + 1));
            }
            i = i + 1;
        }
    }
    let tok = s.substring_char(st, n).to_owned();
    proof {
        assert(split_rec(s@, sep@, st as int, n as int) == seq![
            s@.subrange(st as int, n as int),
        ]);
        assert(strs_view(out@.push(tok)) =~= strs_view(out@) + seq![tok@]);
        assert(strs_view(out@) + split_rec(s@, sep@, st as int, n as int) =~= strs_view(
            out@.push(tok),
        ));
    }
    out.push(tok);
    out
}

} // verus!
