//! Small verified helpers for building and inspecting strings, used by the
//! parsers and renderers throughout the crate.

use vstd::prelude::*;
use vstd::string::StrSliceExecFns;
use vstd::string::StringExecFns;

verus! {

/// Relies on `String::push` from std: appends exactly one character.
#[verifier::external_body]
pub fn push_char(s: &mut String, c: char)
    ensures
        final(s)@ == old(s)@.push(c),
{
    s.push(c);
}

/// Lower-case image of one character, folding only ASCII letters.
pub open spec fn lower_char(c: char) -> char {
    if 'A' <= c && c <= 'Z' {
        (((c as u8) + 32) as char)
    } else {
        c
    }
}

/// Lower-case image of a character sequence, folding only ASCII letters.
pub open spec fn lower_seq(s: Seq<char>) -> Seq<char> {
    s.map_values(|c: char| lower_char(c))
}

/// ASCII lower-casing, character by character.
pub fn ascii_lower(s: &str) -> (r: String)
    ensures
        r@ == lower_seq(s@),
{
    let n: usize = s.unicode_len();
    let mut out = String::new();
    let mut i: usize = 0;
    while i < n
        invariant
            i <= n,
            n == s@.len(),
            out@ == lower_seq(s@.subrange(0, i as int)),
        decreases n - i,
    {
        let c = s.get_char(i);
        let lowered = if 'A' <= c && c <= 'Z' {
            assert(c as u8 <= 90) by {
                assert('A' <= c && c <= 'Z');
            };
            (((c as u8) + 32) as char)
        } else {
            c
        };
        push_char(&mut out, lowered);
        assert(s@.subrange(0, i + 1) =~= s@.subrange(0, i as int).push(s@[i as int]));
        assert(lower_seq(s@.subrange(0, i + 1)) =~= lower_seq(s@.subrange(0, i as int)).push(
            lower_char(s@[i as int]),
        ));
        i = i + 1;
    }
    assert(s@.subrange(0, n as int) =~= s@);
    out
}

/// Character-wise equality of two string slices.
pub fn str_eq(a: &str, b: &str) -> (r: bool)
    ensures
        r == (a@ == b@),
{
    let an: usize = a.unicode_len();
    let bn: usize = b.unicode_len();
    if an != bn {
        return false;
    }
    let mut i: usize = 0;
    while i < an
        invariant
            i <= an,
            an == a@.len(),
            an == b@.len(),
            forall|j: int| 0 <= j < i ==> a@[j] == b@[j],
        decreases an - i,
    {
        if a.get_char(i) != b.get_char(i) {
            return false;
        }
        i = i + 1;
    }
    assert(a@ =~= b@);
    true
}

/// Concatenation of two string slices.
pub fn concat2(a: &str, b: &str) -> (r: String)
    ensures
        r@ == a@ + b@,
{
    let mut out = String::from_str(a);
    out.append(b);
    out
}

/// Concatenation of three string slices.
pub fn concat3(a: &str, b: &str, c: &str) -> (r: String)
    ensures
        r@ == a@ + b@ + c@,
{
    let mut out = String::from_str(a);
    out.append(b);
    out.append(c);
    out
}

/// Concatenation of five string slices.
pub fn concat5(a: &str, b: &str, c: &str, d: &str, e: &str) -> (r: String)
    ensures
        r@ == a@ + b@ + c@ + d@ + e@,
{
    let mut out = String::from_str(a);
    out.append(b);
    out.append(c);
    out.append(d);
    out.append(e);
    out
}

/// Whether `s` begins with `prefix`.
pub open spec fn spec_starts_with(s: Seq<char>, prefix: Seq<char>) -> bool {
    s.len() >= prefix.len() && s.subrange(0, prefix.len() as int) == prefix
}

pub fn starts_with_str(s: &str, prefix: &str) -> (r: bool)
    ensures
        r == spec_starts_with(s@, prefix@),
{
    let sn: usize = s.unicode_len();
    let pn: usize = prefix.unicode_len();
    if sn < pn {
        return false;
    }
    let mut i: usize = 0;
    while i < pn
        invariant
            i <= pn,
            pn <= sn,
            sn == s@.len(),
            pn == prefix@.len(),
            forall|j: int| 0 <= j < i ==> s@[j] == prefix@[j],
        decreases pn - i,
    {
        if s.get_char(i) != prefix.get_char(i) {
            assert(s@.subrange(0, pn as int)[i as int] != prefix@[i as int]);
            return false;
        }
        i = i + 1;
    }
    assert(s@.subrange(0, pn as int) =~= prefix@);
    true
}

/// Index of the first occurrence of `c` in `s` at or after `from`.
pub open spec fn spec_find_char_from(s: Seq<char>, c: char, from: int) -> Option<int>
    decreases s.len() - from,
{
    if from < 0 || from >= s.len() {
        Option::None
    } else if s[from] == c {
        Option::Some(from)
    } else {
        spec_find_char_from(s, c, from + 1)
    }
}

pub fn find_char_from(s: &str, c: char, from: usize) -> (r: Option<usize>)
    ensures
        match r {
            Option::Some(i) => from <= i < s@.len() && spec_find_char_from(s@, c, from as int)
                == Option::Some(i as int),
            Option::None => spec_find_char_from(s@, c, from as int) == Option::<int>::None,
        },
{
    let n: usize = s.unicode_len();
    let mut i: usize = from;
    while i < n
        invariant
            from <= i,
            n == s@.len(),
            spec_find_char_from(s@, c, from as int) == spec_find_char_from(s@, c, i as int),
        decreases n - i,
    {
        if s.get_char(i) == c {
            return Option::Some(i);
        }
        i = i + 1;
    }
    Option::None
}

/// Index of the first occurrence of `c` in `s`.
pub open spec fn spec_find_char(s: Seq<char>, c: char) -> Option<int> {
    spec_find_char_from(s, c, 0)
}

pub fn find_char(s: &str, c: char) -> (r: Option<usize>)
    ensures
        match r {
            Option::Some(i) => i < s@.len() && spec_find_char(s@, c) == Option::Some(i as int),
            Option::None => spec_find_char(s@, c) == Option::<int>::None,
        },
{
    find_char_from(s, c, 0)
}

/// Index of the last occurrence of `c` in `s`.
pub open spec fn spec_rfind_char(s: Seq<char>, c: char) -> Option<int>
    decreases s.len(),
{
    if s.len() == 0 {
        Option::None
    } else if s[s.len() - 1] == c {
        Option::Some(s.len() - 1)
    } else {
        spec_rfind_char(s.subrange(0, s.len() - 1), c)
    }
}

pub fn rfind_char(s: &str, c: char) -> (r: Option<usize>)
    ensures
        match r {
            Option::Some(i) => i < s@.len() && spec_rfind_char(s@, c) == Option::Some(i as int),
            Option::None => spec_rfind_char(s@, c) == Option::<int>::None,
        },
{
    let n: usize = s.unicode_len();
    let mut i: usize = n;
    assert(s@.subrange(0, n as int) =~= s@);
    while i > 0
        invariant
            i <= n,
            n == s@.len(),
            spec_rfind_char(s@, c) == spec_rfind_char(s@.subrange(0, i as int), c),
        decreases i,
    {
        i = i - 1;
        let ghost pre = s@.subrange(0, i + 1);
        assert(pre.subrange(0, pre.len() - 1) =~= s@.subrange(0, i as int));
        if s.get_char(i) == c {
            assert(pre[pre.len() - 1] == c);
            return Option::Some(i);
        }
        assert(pre[pre.len() - 1] != c);
    }
    assert(s@.subrange(0, 0) =~= Seq::<char>::empty());
    Option::None
}

/// The characters of `s` from `from` (inclusive) to `to` (exclusive).
pub fn substr(s: &str, from: usize, to: usize) -> (r: String)
    requires
        from <= to <= s@.len(),
    ensures
        r@ == s@.subrange(from as int, to as int),
{
    String::from_str(s.substring_char(from, to))
}

/// Decimal digit character for a value below ten.
pub open spec fn digit_char(n: nat) -> char {
    ((48 + n) as char)
}

/// Decimal notation of a natural number.
pub open spec fn spec_u64_dec(n: nat) -> Seq<char>
    decreases n,
{
    if n < 10 {
        seq![digit_char(n)]
    } else {
        spec_u64_dec(n / 10).push(digit_char(n % 10))
    }
}

/// Renders a number in decimal notation.
pub fn u64_to_string(n: u64) -> (r: String)
    ensures
        r@ == spec_u64_dec(n as nat),
{
    let mut digits: Vec<char> = Vec::new();
    let mut rest: u64 = n;
    loop
        invariant_except_break
            spec_u64_dec(n as nat) == spec_u64_dec(rest as nat) + digits@.reverse(),
        ensures
            spec_u64_dec(n as nat) == digits@.reverse(),
        decreases rest,
    {
        let d: u64 = rest % 10;
        let next: u64 = rest / 10;
        let dc: char = ((48 + d as u8) as char);
        assert(dc == digit_char((rest as nat) % 10));
        let ghost old_digits = digits@;
        digits.push(dc);
        assert(digits@.reverse() =~= seq![dc] + old_digits.reverse());
        if next == 0 {
            assert(spec_u64_dec(rest as nat) =~= seq![dc]) by {
                if rest >= 10 {
                    assert(rest as nat / 10 > 0);
                }
            };
            assert(spec_u64_dec(n as nat) =~= digits@.reverse());
            break ;
        }
        assert(spec_u64_dec(rest as nat) =~= spec_u64_dec(rest as nat / 10).push(dc));
        assert(spec_u64_dec(rest as nat) =~= spec_u64_dec(next as nat) + seq![dc]);
        rest = next;
    }
    let mut out = String::new();
    let mut i: usize = digits.len();
    while i > 0
        invariant
            i <= digits@.len(),
            out@ =~= digits@.subrange(i as int, digits@.len() as int).reverse(),
        decreases i,
    {
        i = i - 1;
        push_char(&mut out, digits[i]);
        assert(digits@.subrange(i as int, digits@.len() as int) =~= seq![digits@[i as int]]
            + digits@.subrange(i + 1, digits@.len() as int));
        assert(digits@.subrange(i as int, digits@.len() as int).reverse() =~= digits@.subrange(
            i + 1,
            digits@.len() as int,
        ).reverse().push(digits@[i as int]));
    }
    assert(digits@.subrange(0, digits@.len() as int) =~= digits@);
    out
}

/// Whether a character is an ASCII decimal digit.
pub open spec fn is_digit_char(c: char) -> bool {
    '0' <= c && c <= '9'
}

/// Numeric value of a sequence of decimal digits.
pub open spec fn spec_dec_val(s: Seq<char>) -> nat
    decreases s.len(),
{
    if s.len() == 0 {
        0
    } else {
        (spec_dec_val(s.subrange(0, s.len() - 1)) * 10 + (s[s.len() - 1] as int - 48)) as nat
    }
}

/// Whether every character of `s` is an ASCII decimal digit.
pub open spec fn spec_all_digits(s: Seq<char>) -> bool {
    forall|i: int| 0 <= i < s.len() ==> is_digit_char(s[i])
}

/// Parses a non-empty run of decimal digits; anything else, or a value that
/// does not fit in `usize`, yields `None`.
pub fn parse_usize_dec(s: &str) -> (r: Option<usize>)
    ensures
        match r {
            Option::Some(v) => s@.len() > 0 && spec_all_digits(s@) && v as nat == spec_dec_val(s@),
            Option::None => s@.len() == 0 || !spec_all_digits(s@) || spec_dec_val(s@)
                > usize::MAX as nat,
        },
{
    let n: usize = s.unicode_len();
    if n == 0 {
        return Option::None;
    }
    let mut acc: usize = 0;
    let mut i: usize = 0;
    while i < n
        invariant
            i <= n,
            n == s@.len(),
            spec_all_digits(s@.subrange(0, i as int)),
            acc as nat == spec_dec_val(s@.subrange(0, i as int)),
        decreases n - i,
    {
        let c = s.get_char(i);
        if !('0' <= c && c <= '9') {
            return Option::None;
        }
        let d: usize = ((c as u8) - 48) as usize;
        if acc > (usize::MAX - d) / 10 {
            proof {
                if spec_all_digits(s@) {
                    lemma_dec_val_monotone(s@, i + 1);
                    assert(s@.subrange(0, i + 1) =~= s@.subrange(0, i as int).push(s@[i as int]));
                    assert(s@.subrange(0, i + 1).subrange(0, i as int) =~= s@.subrange(
                        0,
                        i as int,
                    ));
                    assert(spec_dec_val(s@.subrange(0, i + 1)) == acc as nat * 10 + d as nat);
                    assert(spec_dec_val(s@) > usize::MAX as nat);
                }
            }
            return Option::None;
        }
        let ghost prev = s@.subrange(0, i as int);
        acc = acc * 10 + d;
        assert(s@.subrange(0, i + 1) =~= prev.push(s@[i as int]));
        assert(s@.subrange(0, i + 1).subrange(0, i as int) =~= prev);
        i = i + 1;
    }
    assert(s@.subrange(0, n as int) =~= s@);
    Option::Some(acc)
}

/// A longer digit string never denotes a smaller value.
proof fn lemma_dec_val_monotone(s: Seq<char>, k: int)
    requires
        0 <= k <= s.len(),
        forall|j: int| k <= j < s.len() ==> is_digit_char(s[j]),
    ensures
        spec_dec_val(s) >= spec_dec_val(s.subrange(0, k)),
    decreases s.len() - k,
{
    if k < s.len() {
        lemma_dec_val_monotone(s, k + 1);
        assert(s.subrange(0, k + 1).subrange(0, k) =~= s.subrange(0, k));
        assert(is_digit_char(s[k]));
        assert(spec_dec_val(s.subrange(0, k + 1)) == (spec_dec_val(s.subrange(0, k)) * 10 + (
        s.subrange(0, k + 1)[k] as int - 48)) as nat);
        assert(s.subrange(0, k + 1)[k] == s[k]);
        assert(spec_dec_val(s.subrange(0, k + 1)) >= spec_dec_val(s.subrange(0, k)));
    } else {
        assert(s.subrange(0, s.len() as int) =~= s);
    }
}

/// ASCII whitespace, as trimmed from user-supplied tokens.
pub open spec fn is_space_char(c: char) -> bool {
    c == ' ' || c == '\t' || c == '\r' || c == '\n'
}

/// The subrange of `s` with leading and trailing ASCII whitespace removed.
pub open spec fn spec_trim(s: Seq<char>) -> Seq<char>
    decreases s.len(),
{
    if s.len() == 0 {
        s
    } else if is_space_char(s[0]) {
        spec_trim(s.subrange(1, s.len() as int))
    } else if is_space_char(s[s.len() - 1]) {
        spec_trim(s.subrange(0, s.len() - 1))
    } else {
        s
    }
}

/// Removes leading and trailing ASCII whitespace.
pub fn trim_ascii(s: &str) -> (r: String)
    ensures
        r@ == spec_trim(s@),
{
    let n: usize = s.unicode_len();
    let mut lo: usize = 0;
    assert(s@.subrange(0, n as int) =~= s@);
    while lo < n
        invariant
            lo <= n,
            n == s@.len(),
            spec_trim(s@) == spec_trim(s@.subrange(lo as int, n as int)),
        ensures
            lo <= n,
            n == s@.len(),
            spec_trim(s@) == spec_trim(s@.subrange(lo as int, n as int)),
            lo < n ==> !is_space_char(s@[lo as int]),
        decreases n - lo,
    {
        let c = s.get_char(lo);
        if !(c == ' ' || c == '\t' || c == '\r' || c == '\n') {
            break ;
        }
        let ghost cur = s@.subrange(lo as int, n as int);
        assert(cur.subrange(1, cur.len() as int) =~= s@.subrange(lo + 1, n as int));
        lo = lo + 1;
    }
    let mut hi: usize = n;
    while hi > lo
        invariant
            lo <= hi <= n,
            n == s@.len(),
            lo < n ==> !is_space_char(s@[lo as int]),
            spec_trim(s@) == spec_trim(s@.subrange(lo as int, hi as int)),
        ensures
            lo <= hi <= n,
            n == s@.len(),
            lo < n ==> !is_space_char(s@[lo as int]),
            spec_trim(s@) == spec_trim(s@.subrange(lo as int, hi as int)),
            hi > lo ==> !is_space_char(s@[hi - 1]),
        decreases hi,
    {
        let c = s.get_char(hi - 1);
        if !(c == ' ' || c == '\t' || c == '\r' || c == '\n') {
            break ;
        }
        let ghost cur = s@.subrange(lo as int, hi as int);
        assert(cur.subrange(0, cur.len() - 1) =~= s@.subrange(lo as int, hi - 1));
        assert(cur[cur.len() - 1] == s@[hi - 1]);
        hi = hi - 1;
    }
    let ghost fin = s@.subrange(lo as int, hi as int);
    assert(spec_trim(fin) =~= fin) by {
        if fin.len() > 0 {
            assert(fin[0] == s@[lo as int]);
            assert(fin[fin.len() - 1] == s@[hi - 1]);
        }
    };
    substr(s, lo, hi)
}


/// Whether `pat` occurs in `s` at position `from`.
pub open spec fn spec_match_at(s: Seq<char>, pat: Seq<char>, at: int) -> bool {
    0 <= at && at + pat.len() <= s.len() && s.subrange(at, at + pat.len()) == pat
}

/// Index of the first occurrence of `pat` in `s` at or after `from`; an
/// empty pattern has no occurrence.
pub open spec fn spec_find_seq(s: Seq<char>, pat: Seq<char>, from: int) -> Option<int>
    decreases s.len() - from,
{
    if from < 0 || from + pat.len() > s.len() || pat.len() == 0 {
        Option::None
    } else if s.subrange(from, from + pat.len()) == pat {
        Option::Some(from)
    } else {
        spec_find_seq(s, pat, from + 1)
    }
}

/// Whether `pat` occurs in `s` starting at `at`.
fn match_at(s: &str, pat: &str, at: usize) -> (r: bool)
    requires
        at + pat@.len() <= s@.len(),
    ensures
        r == spec_match_at(s@, pat@, at as int),
{
    let n: usize = s.unicode_len();
    let m: usize = pat.unicode_len();
    let mut j: usize = 0;
    while j < m
        invariant
            j <= m,
            m == pat@.len(),
            n == s@.len(),
            at + m <= n,
            forall|k: int| 0 <= k < j ==> s@[at + k] == pat@[k],
        decreases m - j,
    {
        if s.get_char(at + j) != pat.get_char(j) {
            assert(s@.subrange(at as int, at + m)[j as int] != pat@[j as int]);
            return false;
        }
        j = j + 1;
    }
    assert(s@.subrange(at as int, at + m) =~= pat@);
    true
}

/// Index of the first occurrence of `pat` in `s`.
pub fn find_sub(s: &str, pat: &str) -> (r: Option<usize>)
    ensures
        match r {
            Option::Some(i) => i + pat@.len() <= s@.len() && spec_find_seq(s@, pat@, 0)
                == Option::Some(i as int),
            Option::None => spec_find_seq(s@, pat@, 0) == Option::<int>::None,
        },
{
    let n: usize = s.unicode_len();
    let m: usize = pat.unicode_len();
    if m == 0 || m > n {
        return Option::None;
    }
    let mut i: usize = 0;
    while i <= n - m
        invariant
            1 <= m <= n,
            i <= n - m + 1,
            n == s@.len(),
            m == pat@.len(),
            spec_find_seq(s@, pat@, 0) == spec_find_seq(s@, pat@, i as int),
        ensures
            1 <= m <= n,
            i <= n - m + 1,
            n == s@.len(),
            m == pat@.len(),
            spec_find_seq(s@, pat@, 0) == spec_find_seq(s@, pat@, i as int),
            i <= n - m ==> spec_match_at(s@, pat@, i as int),
        decreases n - i,
    {
        if match_at(s, pat, i) {
            break ;
        }
        i = i + 1;
    }
    if i <= n - m {
        Option::Some(i)
    } else {
        Option::None
    }
}

/// Whether a character is a square bracket, as stripped from IPv6 hosts.
pub open spec fn is_bracket_char(c: char) -> bool {
    c == '[' || c == ']'
}

/// The subrange of `s` with leading and trailing square brackets removed.
pub open spec fn spec_trim_brackets(s: Seq<char>) -> Seq<char>
    decreases s.len(),
{
    if s.len() == 0 {
        s
    } else if is_bracket_char(s[0]) {
        spec_trim_brackets(s.subrange(1, s.len() as int))
    } else if is_bracket_char(s[s.len() - 1]) {
        spec_trim_brackets(s.subrange(0, s.len() - 1))
    } else {
        s
    }
}

/// Removes leading and trailing square brackets.
pub fn trim_brackets(s: &str) -> (r: String)
    ensures
        r@ == spec_trim_brackets(s@),
{
    let n: usize = s.unicode_len();
    let mut lo: usize = 0;
    assert(s@.subrange(0, n as int) =~= s@);
    while lo < n
        invariant
            lo <= n,
            n == s@.len(),
            spec_trim_brackets(s@) == spec_trim_brackets(s@.subrange(lo as int, n as int)),
        ensures
            lo <= n,
            n == s@.len(),
            spec_trim_brackets(s@) == spec_trim_brackets(s@.subrange(lo as int, n as int)),
            lo < n ==> !is_bracket_char(s@[lo as int]),
        decreases n - lo,
    {
        let c = s.get_char(lo);
        if !(c == '[' || c == ']') {
            break ;
        }
        let ghost cur = s@.subrange(lo as int, n as int);
        assert(cur.subrange(1, cur.len() as int) =~= s@.subrange(lo + 1, n as int));
        lo = lo + 1;
    }
    let mut hi: usize = n;
    while hi > lo
        invariant
            lo <= hi <= n,
            n == s@.len(),
            lo < n ==> !is_bracket_char(s@[lo as int]),
            spec_trim_brackets(s@) == spec_trim_brackets(s@.subrange(lo as int, hi as int)),
        ensures
            lo <= hi <= n,
            n == s@.len(),
            lo < n ==> !is_bracket_char(s@[lo as int]),
            spec_trim_brackets(s@) == spec_trim_brackets(s@.subrange(lo as int, hi as int)),
            hi > lo ==> !is_bracket_char(s@[hi - 1]),
        decreases hi,
    {
        let c = s.get_char(hi - 1);
        if !(c == '[' || c == ']') {
            break ;
        }
        let ghost cur = s@.subrange(lo as int, hi as int);
        assert(cur.subrange(0, cur.len() - 1) =~= s@.subrange(lo as int, hi - 1));
        assert(cur[cur.len() - 1] == s@[hi - 1]);
        hi = hi - 1;
    }
    let ghost fin = s@.subrange(lo as int, hi as int);
    assert(spec_trim_brackets(fin) =~= fin) by {
        if fin.len() > 0 {
            assert(fin[0] == s@[lo as int]);
            assert(fin[fin.len() - 1] == s@[hi - 1]);
        }
    };
    substr(s, lo, hi)
}


/// Parses a non-empty run of decimal digits as a `u64`; anything else, or a
/// value that does not fit, yields `None`.
pub fn parse_u64_dec(s: &str) -> (r: Option<u64>)
    ensures
        match r {
            Option::Some(v) => s@.len() > 0 && spec_all_digits(s@) && v as nat == spec_dec_val(s@),
            Option::None => s@.len() == 0 || !spec_all_digits(s@) || spec_dec_val(s@)
                > u64::MAX as nat,
        },
{
    let n: usize = s.unicode_len();
    if n == 0 {
        return Option::None;
    }
    let mut acc: u64 = 0;
    let mut i: usize = 0;
    while i < n
        invariant
            i <= n,
            n == s@.len(),
            spec_all_digits(s@.subrange(0, i as int)),
            acc as nat == spec_dec_val(s@.subrange(0, i as int)),
        decreases n - i,
    {
        let c = s.get_char(i);
        if !('0' <= c && c <= '9') {
            return Option::None;
        }
        let d: u64 = ((c as u8) - 48) as u64;
        if acc > (u64::MAX - d) / 10 {
            proof {
                if spec_all_digits(s@) {
                    lemma_dec_val_monotone(s@, i + 1);
                    assert(s@.subrange(0, i + 1) =~= s@.subrange(0, i as int).push(s@[i as int]));
                    assert(s@.subrange(0, i + 1).subrange(0, i as int) =~= s@.subrange(
                        0,
                        i as int,
                    ));
                    assert(spec_dec_val(s@.subrange(0, i + 1)) == acc as nat * 10 + d as nat);
                    assert(spec_dec_val(s@) > u64::MAX as nat);
                }
            }
            return Option::None;
        }
        let ghost prev = s@.subrange(0, i as int);
        acc = acc * 10 + d;
        assert(s@.subrange(0, i + 1) =~= prev.push(s@[i as int]));
        assert(s@.subrange(0, i + 1).subrange(0, i as int) =~= prev);
        i = i + 1;
    }
    assert(s@.subrange(0, n as int) =~= s@);
    Option::Some(acc)
}

/// Decimal notation consists of digits and reads back as the number.
pub proof fn lemma_dec_of_u64(n: nat)
    ensures
        spec_all_digits(spec_u64_dec(n)),
        spec_dec_val(spec_u64_dec(n)) == n,
        spec_u64_dec(n).len() > 0,
    decreases n,
{
    if n < 10 {
        reveal_with_fuel(spec_dec_val, 3);
        assert(spec_u64_dec(n) =~= seq![digit_char(n)]);
        assert(is_digit_char(digit_char(n)));
        assert(spec_u64_dec(n).subrange(0, 0) =~= Seq::<char>::empty());
        assert(digit_char(n) as int == 48 + n);
        assert(spec_dec_val(spec_u64_dec(n)) == 0 * 10 + (digit_char(n) as int - 48));
    } else {
        lemma_dec_of_u64(n / 10);
        let prefix = spec_u64_dec(n / 10);
        let whole = spec_u64_dec(n);
        assert(whole =~= prefix.push(digit_char(n % 10)));
        assert(whole.subrange(0, whole.len() - 1) =~= prefix);
        assert(whole[whole.len() - 1] == digit_char(n % 10));
        assert(is_digit_char(digit_char(n % 10)));
        assert forall|i: int| 0 <= i < whole.len() implies is_digit_char(whole[i]) by {
            if i < whole.len() - 1 {
                assert(whole[i] == prefix[i]);
            }
        };
        assert(spec_dec_val(whole) == spec_dec_val(prefix) * 10 + (digit_char(n % 10) as int
            - 48));
        assert(spec_dec_val(whole) == (n / 10) * 10 + n % 10);
    }
}


/// Where the first occurrence search lands: on a matching character with
/// none before it, or nowhere when none remains.
pub proof fn lemma_find_char_from_bounds(s: Seq<char>, c: char, from: int)
    requires
        0 <= from <= s.len(),
    ensures
        match spec_find_char_from(s, c, from) {
            Option::Some(i) => from <= i < s.len() && s[i] == c && forall|j: int|
                from <= j < i ==> s[j] != c,
            Option::None => forall|j: int| from <= j < s.len() ==> s[j] != c,
        },
    decreases s.len() - from,
{
    if from < s.len() && s[from] != c {
        lemma_find_char_from_bounds(s, c, from + 1);
    }
}

/// The first matching position after `from` is found.
pub proof fn lemma_find_char_from_unique(s: Seq<char>, c: char, from: int, k: int)
    requires
        0 <= from <= k < s.len(),
        s[k] == c,
        forall|j: int| from <= j < k ==> s[j] != c,
    ensures
        spec_find_char_from(s, c, from) == Option::Some(k),
    decreases k - from,
{
    if from < k {
        lemma_find_char_from_unique(s, c, from + 1, k);
    }
}

} // verus!
