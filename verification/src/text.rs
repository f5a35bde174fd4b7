//! Lexical helpers for assembly source lines: character access, whitespace
//! trimming, splitting at separators and decimal literals.

use vstd::prelude::*;

verus! {

/// Position of the first occurrence of `c` in `s`; `s.len()` when `c` does not occur.
pub open spec fn first_index(s: Seq<char>, c: char) -> nat
    decreases s.len(),
{
    if s.len() == 0 || s[0] == c {
        0
    } else {
        1 + first_index(s.drop_first(), c)
    }
}

/// `first_index` is the least position that holds `c`, and is bounded by the length.
pub proof fn lemma_first_index(s: Seq<char>, c: char)
    ensures
        first_index(s, c) <= s.len(),
        forall|j: int| 0 <= j < first_index(s, c) ==> s[j] != c,
        first_index(s, c) < s.len() ==> s[first_index(s, c) as int] == c,
    decreases s.len(),
{
    if s.len() > 0 && s[0] != c {
        let t = s.drop_first();
        lemma_first_index(t, c);
        assert forall|j: int| 0 <= j < first_index(s, c) implies s[j] != c by {
            if j > 0 {
                assert(s[j] == t[j - 1]);
            }
        }
    }
}

/// Any position that is the least one holding `c` (or the length, when there is
/// none) is `first_index`.
pub proof fn lemma_first_index_unique(s: Seq<char>, c: char, i: int)
    requires
        0 <= i <= s.len(),
        forall|j: int| 0 <= j < i ==> s[j] != c,
        i < s.len() ==> s[i] == c,
    ensures
        first_index(s, c) == i,
{
    lemma_first_index(s, c);
}

/// The pieces of `s` between occurrences of `sep`. There is always at least one
/// piece; an empty `s` has the single empty piece.
pub open spec fn split(s: Seq<char>, sep: char) -> Seq<Seq<char>>
    decreases s.len(),
{
    let i = first_index(s, sep) as int;
    if i >= s.len() {
        seq![s]
    } else {
        seq![s.take(i)] + split(s.skip(i + 1), sep)
    }
}

/// The characters that `str::trim` removes: the Unicode `White_Space` code points.
pub open spec fn is_space(c: char) -> bool {
    let u = c as u32;
    ||| 0x09 <= u <= 0x0D
    ||| u == 0x20
    ||| u == 0x85
    ||| u == 0xA0
    ||| u == 0x1680
    ||| 0x2000 <= u <= 0x200A
    ||| u == 0x2028
    ||| u == 0x2029
    ||| u == 0x202F
    ||| u == 0x205F
    ||| u == 0x3000
}

/// Number of leading whitespace characters of `s`.
pub open spec fn leading_spaces(s: Seq<char>) -> nat
    decreases s.len(),
{
    if s.len() == 0 || !is_space(s[0]) {
        0
    } else {
        1 + leading_spaces(s.drop_first())
    }
}

/// Number of trailing whitespace characters of `s`.
pub open spec fn trailing_spaces(s: Seq<char>) -> nat
    decreases s.len(),
{
    if s.len() == 0 || !is_space(s.last()) {
        0
    } else {
        1 + trailing_spaces(s.drop_last())
    }
}

/// `s` without its leading and trailing whitespace.
pub open spec fn trim(s: Seq<char>) -> Seq<char> {
    let t = s.skip(leading_spaces(s) as int);
    t.take(t.len() - trailing_spaces(t))
}

/// `leading_spaces` counts a run of whitespace that ends at the first other
/// character.
pub proof fn lemma_leading_spaces(s: Seq<char>)
    ensures
        leading_spaces(s) <= s.len(),
        forall|j: int| 0 <= j < leading_spaces(s) ==> is_space(s[j]),
        leading_spaces(s) < s.len() ==> !is_space(s[leading_spaces(s) as int]),
    decreases s.len(),
{
    if s.len() > 0 && is_space(s[0]) {
        let t = s.drop_first();
        lemma_leading_spaces(t);
        assert forall|j: int| 0 <= j < leading_spaces(s) implies is_space(s[j]) by {
            if j > 0 {
                assert(s[j] == t[j - 1]);
            }
        }
    }
}

/// Any length of a leading run of whitespace that ends at another character
/// (or at the end) is `leading_spaces`.
pub proof fn lemma_leading_spaces_unique(s: Seq<char>, i: int)
    requires
        0 <= i <= s.len(),
        forall|j: int| 0 <= j < i ==> is_space(s[j]),
        i < s.len() ==> !is_space(s[i]),
    ensures
        leading_spaces(s) == i,
{
    lemma_leading_spaces(s);
}

/// `trailing_spaces` counts a run of whitespace that starts after the last
/// other character.
pub proof fn lemma_trailing_spaces(s: Seq<char>)
    ensures
        trailing_spaces(s) <= s.len(),
        forall|j: int| s.len() - trailing_spaces(s) <= j < s.len() ==> is_space(s[j]),
        trailing_spaces(s) < s.len() ==> !is_space(s[s.len() - trailing_spaces(s) - 1]),
    decreases s.len(),
{
    if s.len() > 0 && is_space(s.last()) {
        let t = s.drop_last();
        lemma_trailing_spaces(t);
        assert forall|j: int| s.len() - trailing_spaces(s) <= j < s.len() implies is_space(
            s[j],
        ) by {
            if j < s.len() - 1 {
                assert(s[j] == t[j]);
            }
        }
    }
}

/// Any length of a trailing run of whitespace that starts after another
/// character (or at the start) is `trailing_spaces`.
pub proof fn lemma_trailing_spaces_unique(s: Seq<char>, k: int)
    requires
        0 <= k <= s.len(),
        forall|j: int| s.len() - k <= j < s.len() ==> is_space(s[j]),
        k < s.len() ==> !is_space(s[s.len() - k - 1]),
    ensures
        trailing_spaces(s) == k,
{
    lemma_trailing_spaces(s);
}

/// Whether `c` is a decimal digit.
pub open spec fn is_digit(c: char) -> bool {
    '0' <= c <= '9'
}

/// The number that the decimal digit `c` stands for.
pub open spec fn digit_value(c: char) -> int {
    c as u32 - '0' as u32
}

/// Whether `s` is a non-empty run of decimal digits.
pub open spec fn all_digits(s: Seq<char>) -> bool {
    s.len() > 0 && forall|i: int| 0 <= i < s.len() ==> is_digit(#[trigger] s[i])
}

/// The number written by the digits `s`, most significant first.
pub open spec fn digits_value(s: Seq<char>) -> int
    decreases s.len(),
{
    if s.len() == 0 {
        0
    } else {
        digits_value(s.drop_last()) * 10 + digit_value(s.last())
    }
}

/// The number written by `s` as an unsigned decimal literal: an optional `+`
/// and at least one digit.
pub open spec fn unsigned_decimal(s: Seq<char>) -> Option<int> {
    let body = if s.len() > 0 && s[0] == '+' {
        s.skip(1)
    } else {
        s
    };
    if all_digits(body) {
        Some(digits_value(body))
    } else {
        None
    }
}

/// The number written by `s` as a signed decimal literal: an optional `+` or
/// `-` and at least one digit.
pub open spec fn signed_decimal(s: Seq<char>) -> Option<int> {
    if s.len() > 0 && s[0] == '-' {
        if all_digits(s.skip(1)) {
            Some(-digits_value(s.skip(1)))
        } else {
            None
        }
    } else {
        unsigned_decimal(s)
    }
}

/// `v` when it is a number within `min..=max`, nothing otherwise.
pub open spec fn within(v: Option<int>, min: int, max: int) -> Option<int> {
    match v {
        Some(x) if min <= x <= max => Some(x),
        _ => None,
    }
}

/// A run of digits is worth at least as much as any of its prefixes.
pub proof fn lemma_digits_value_prefix(s: Seq<char>, k: int)
    requires
        all_digits(s),
        0 <= k <= s.len(),
    ensures
        0 <= digits_value(s.take(k)) <= digits_value(s),
    decreases s.len() - k,
{
    if k == s.len() {
        assert(s.take(k) =~= s);
        lemma_digits_value_nonnegative(s);
    } else {
        lemma_digits_value_prefix(s, k + 1);
        let t = s.take(k + 1);
        assert(t.drop_last() =~= s.take(k));
    }
}

/// Digits write a number that is not negative.
pub proof fn lemma_digits_value_nonnegative(s: Seq<char>)
    requires
        forall|i: int| 0 <= i < s.len() ==> is_digit(#[trigger] s[i]),
    ensures
        0 <= digits_value(s),
    decreases s.len(),
{
    if s.len() > 0 {
        lemma_digits_value_nonnegative(s.drop_last());
    }
}

/// The characters of `s`, in order.
pub fn chars_of(s: &str) -> (v: Vec<char>)
    ensures
        v@ == s@,
{
    let mut v: Vec<char> = Vec::new();
    for c in it: s.chars()
        invariant
            v@ == it.seq().take(it.index() as int),
            it.seq() == s@,
    {
        v.push(c);
    }
    v
}

/// Executable form of `is_space`.
pub fn is_whitespace(c: char) -> (b: bool)
    ensures
        b == is_space(c),
{
    let u: u32 = c as u32;
    (0x09 <= u && u <= 0x0D) || u == 0x20 || u == 0x85 || u == 0xA0 || u == 0x1680 || (0x2000 <= u
        && u <= 0x200A) || u == 0x2028 || u == 0x2029 || u == 0x202F || u == 0x205F || u == 0x3000
}

/// The bounds `(lo, hi)` of `v` without its leading and trailing whitespace.
pub fn trim_bounds(v: &Vec<char>) -> (r: (usize, usize))
    ensures
        r.0 <= r.1 <= v.len(),
        r.0 == leading_spaces(v@),
        r.1 == v.len() - trailing_spaces(v@.skip(r.0 as int)),
        v@.subrange(r.0 as int, r.1 as int) == trim(v@),
{
    let n = v.len();
    let mut lo: usize = 0;
    while lo < n && is_whitespace(v[lo])
        invariant
            lo <= n == v.len(),
            forall|j: int| 0 <= j < lo ==> is_space(v@[j]),
        decreases n - lo,
    {
        lo += 1;
    }
    let mut hi: usize = n;
    while hi > lo && is_whitespace(v[hi - 1])
        invariant
            lo <= hi <= n == v.len(),
            forall|j: int| hi <= j < n ==> is_space(v@[j]),
        decreases hi,
    {
        hi -= 1;
    }
    proof {
        lemma_leading_spaces_unique(v@, lo as int);
        lemma_trailing_spaces_unique(v@.skip(lo as int), n - hi);
    }
    (lo, hi)
}

/// The first position in `from..to` at which `v` holds `c`, or `to`.
pub fn find(v: &Vec<char>, from: usize, to: usize, c: char) -> (i: usize)
    requires
        from <= to <= v.len(),
    ensures
        from <= i <= to,
        i == from + first_index(v@.subrange(from as int, to as int), c),
{
    let mut i: usize = from;
    while i < to && v[i] != c
        invariant
            from <= i <= to <= v.len(),
            forall|j: int| from <= j < i ==> v@[j] != c,
        decreases to - i,
    {
        i += 1;
    }
    proof {
        lemma_first_index_unique(v@.subrange(from as int, to as int), c, i - from);
    }
    i
}

/// The bounds of the pieces of `v[from..to]` between occurrences of `sep`.
pub fn split_bounds(v: &Vec<char>, from: usize, to: usize, sep: char) -> (r: Vec<(usize, usize)>)
    requires
        from <= to <= v.len(),
    ensures
        r@.len() == split(v@.subrange(from as int, to as int), sep).len(),
        r@.len() >= 1,
        r@[0].0 == from,
        r@[r@.len() - 1].1 == to,
        forall|k: int| 0 <= k < r@.len() - 1 ==> (#[trigger] r@[k]).1 + 1 == r@[k + 1].0,
        forall|k: int|
            0 <= k < r@.len() ==> {
                &&& from <= (#[trigger] r@[k]).0 <= r@[k].1 <= to
                &&& v@.subrange(r@[k].0 as int, r@[k].1 as int) == split(
                    v@.subrange(from as int, to as int),
                    sep,
                )[k]
            },
{
    let ghost whole = split(v@.subrange(from as int, to as int), sep);
    let mut r: Vec<(usize, usize)> = Vec::new();
    let mut start: usize = from;
    loop
        invariant_except_break
            from <= start <= to <= v.len(),
            whole == split(v@.subrange(from as int, to as int), sep),
            whole =~= Seq::new(r@.len(), |k: int| v@.subrange(r@[k].0 as int, r@[k].1 as int))
                + split(v@.subrange(start as int, to as int), sep),
            forall|k: int| 0 <= k < r@.len() ==> from <= (#[trigger] r@[k]).0 <= r@[k].1 <= to,
            forall|k: int| 0 <= k < r@.len() - 1 ==> (#[trigger] r@[k]).1 + 1 == r@[k + 1].0,
            r@.len() == 0 ==> start == from,
            r@.len() > 0 ==> r@[0].0 == from && r@[r@.len() - 1].1 + 1 == start,
        ensures
            from <= to <= v.len(),
            r@.len() >= 1,
            r@[0].0 == from,
            r@[r@.len() - 1].1 == to,
            forall|k: int| 0 <= k < r@.len() - 1 ==> (#[trigger] r@[k]).1 + 1 == r@[k + 1].0,
            whole =~= Seq::new(r@.len(), |k: int| v@.subrange(r@[k].0 as int, r@[k].1 as int)),
            forall|k: int| 0 <= k < r@.len() ==> from <= (#[trigger] r@[k]).0 <= r@[k].1 <= to,
        decreases to - start,
    {
        let i = find(v, start, to, sep);
        let ghost rest = v@.subrange(start as int, to as int);
        r.push((start, i));
        proof {
            assert(rest.take(i - start) =~= v@.subrange(start as int, i as int));
        }
        if i >= to {
            break ;
        }
        proof {
            assert(rest.skip(i - start + 1) =~= v@.subrange(i + 1, to as int));
        }
        start = i + 1;
    }
    r
}

/// Whether `v[from..to]` spells `word`.
pub fn word_is(v: &Vec<char>, from: usize, to: usize, word: &str) -> (b: bool)
    requires
        from <= to <= v.len(),
    ensures
        b == (v@.subrange(from as int, to as int) == word@),
{
    let w = chars_of(word);
    if w.len() != to - from {
        return false;
    }
    let mut k: usize = 0;
    while k < w.len()
        invariant
            from <= to <= v.len(),
            w.len() == to - from,
            k <= w.len(),
            w@ == word@,
            forall|j: int| 0 <= j < k ==> v@[from + j] == w@[j],
        decreases w.len() - k,
    {
        if v[from + k] != w[k] {
            return false;
        }
        k += 1;
    }
    proof {
        assert(v@.subrange(from as int, to as int) =~= w@);
    }
    true
}

/// Reads `v[from..to]` as a decimal literal, signed when `signed` is set, and
/// returns its value when that lies in `min..=max`.
#[verifier::loop_isolation(false)]
pub fn parse_decimal(v: &Vec<char>, from: usize, to: usize, signed: bool, min: i32, max: i32) -> (r:
    Option<i32>)
    requires
        from <= to <= v.len(),
    ensures
        r matches Some(x) ==> within(
            if signed {
                signed_decimal(v@.subrange(from as int, to as int))
            } else {
                unsigned_decimal(v@.subrange(from as int, to as int))
            },
            min as int,
            max as int,
        ) == Some(x as int),
        r is None ==> within(
            if signed {
                signed_decimal(v@.subrange(from as int, to as int))
            } else {
                unsigned_decimal(v@.subrange(from as int, to as int))
            },
            min as int,
            max as int,
        ) is None,
{
    let ghost s = v@.subrange(from as int, to as int);
    let mut start: usize = from;
    let mut negative = false;
    if from < to {
        let c = v[from];
        if c == '+' {
            start = from + 1;
        } else if signed && c == '-' {
            negative = true;
            start = from + 1;
        }
    }
    let ghost body = v@.subrange(start as int, to as int);
    proof {
        if start > from {
            assert(body =~= s.skip(1));
        }
    }
    if start == to {
        return None;
    }
    let mut acc: i64 = 0;
    let mut j: usize = start;
    while j < to
        invariant
            start <= j <= to <= v.len(),
            body == v@.subrange(start as int, to as int),
            forall|i: int| 0 <= i < j - start ==> is_digit(#[trigger] body[i]),
            acc == digits_value(body.take(j - start)),
            0 <= acc <= 0x8000_0000,
        decreases to - j,
    {
        let c = v[j];
        assert(c == body[j - start]);
        if !('0' <= c && c <= '9') {
            return None;
        }
        let d: i64 = (c as u32 - '0' as u32) as i64;
        proof {
            let t = body.take(j - start + 1);
            assert(t.drop_last() =~= body.take(j - start));
        }
        acc = acc * 10 + d;
        if acc > 0x8000_0000 {
            proof {
                if all_digits(body) {
                    lemma_digits_value_prefix(body, j - start + 1);
                }
            }
            return None;
        }
        j += 1;
    }
    proof {
        assert(body.take(j - start) =~= body);
    }
    let value: i64 = if negative {
        -acc
    } else {
        acc
    };
    if min as i64 <= value && value <= max as i64 {
        Some(value as i32)
    } else {
        None
    }
}

} // verus!
