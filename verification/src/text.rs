//! Character-sequence helpers shared by the presentation modules.
//!
//! Strings are reasoned about through their `Seq<char>` view; the helpers here
//! give executable versions of the `str` operations the shell relies on
//! (prefix tests, substring search, trimming, ASCII case folding, decimal
//! formatting and integer parsing) together with their specifications.

use vstd::prelude::*;

verus! {

// ---------------------------------------------------------------------------
// Specifications
// ---------------------------------------------------------------------------

/// The Unicode `White_Space` property, which `char::is_whitespace` tests.
pub open spec fn is_ws(c: char) -> bool {
    let u = c as u32;
    ||| 0x09 <= u <= 0x0d
    ||| u == 0x20
    ||| u == 0x85
    ||| u == 0xa0
    ||| u == 0x1680
    ||| 0x2000 <= u <= 0x200a
    ||| u == 0x2028
    ||| u == 0x2029
    ||| u == 0x202f
    ||| u == 0x205f
    ||| u == 0x3000
}

/// ASCII upper-case letters map to lower case; every other char is unchanged.
pub open spec fn lower_char(c: char) -> char {
    if 0x41 <= (c as u32) <= 0x5a {
        ((c as u32) + 32) as char
    } else {
        c
    }
}

/// `str::to_ascii_lowercase` on the char view.
pub open spec fn lower_seq(s: Seq<char>) -> Seq<char> {
    s.map_values(|c: char| lower_char(c))
}

/// `p` is a prefix of `s`.
pub open spec fn starts(s: Seq<char>, p: Seq<char>) -> bool {
    p.len() <= s.len() && s.subrange(0, p.len() as int) == p
}

/// `p` is a suffix of `s`.
pub open spec fn ends(s: Seq<char>, p: Seq<char>) -> bool {
    p.len() <= s.len() && s.subrange(s.len() - p.len(), s.len() as int) == p
}

/// `n` occurs in `s` starting at index `i`.
pub open spec fn occurs_at(s: Seq<char>, n: Seq<char>, i: int) -> bool {
    0 <= i && i + n.len() <= s.len() && s.subrange(i, i + n.len()) == n
}

/// `n` occurs somewhere in `s` (`str::contains` with a string pattern).
pub open spec fn contains(s: Seq<char>, n: Seq<char>) -> bool {
    exists|i: int| #[trigger] occurs_at(s, n, i)
}

/// The first index at which `n` occurs in `s` (`str::find`).
pub open spec fn first_occurrence(s: Seq<char>, n: Seq<char>, i: int) -> bool {
    occurs_at(s, n, i) && forall|j: int| 0 <= j < i ==> !#[trigger] occurs_at(s, n, j)
}

/// Leading whitespace removed (`str::trim_start`).
pub open spec fn trim_start(s: Seq<char>) -> Seq<char>
    decreases s.len(),
{
    if s.len() > 0 && is_ws(s[0]) {
        trim_start(s.drop_first())
    } else {
        s
    }
}

/// Trailing whitespace removed (`str::trim_end`).
pub open spec fn trim_end(s: Seq<char>) -> Seq<char>
    decreases s.len(),
{
    if s.len() > 0 && is_ws(s.last()) {
        trim_end(s.drop_last())
    } else {
        s
    }
}

/// Leading and trailing whitespace removed (`str::trim`).
pub open spec fn trim(s: Seq<char>) -> Seq<char> {
    trim_end(trim_start(s))
}

/// The ASCII digit character for `d < 10`.
pub open spec fn digit_char(d: nat) -> char {
    if d == 0 {
        '0'
    } else if d == 1 {
        '1'
    } else if d == 2 {
        '2'
    } else if d == 3 {
        '3'
    } else if d == 4 {
        '4'
    } else if d == 5 {
        '5'
    } else if d == 6 {
        '6'
    } else if d == 7 {
        '7'
    } else if d == 8 {
        '8'
    } else {
        '9'
    }
}

/// Decimal rendering of a natural number, without leading zeros.
pub open spec fn dec(n: nat) -> Seq<char>
    decreases n,
{
    if n < 10 {
        seq![digit_char(n)]
    } else {
        dec(n / 10).push(digit_char(n % 10))
    }
}

/// `dec` left-padded with `0` to at least `width` characters (`{:0width}`).
pub open spec fn dec_padded(n: nat, width: nat) -> Seq<char> {
    let d = dec(n);
    if d.len() >= width {
        d
    } else {
        Seq::new((width - d.len()) as nat, |i: int| '0') + d
    }
}

/// An ASCII decimal digit.
pub open spec fn is_digit(c: char) -> bool {
    48 <= (c as u32) <= 57
}

/// A non-empty run of ASCII digits.
pub open spec fn all_digits(s: Seq<char>) -> bool {
    s.len() > 0 && forall|i: int| 0 <= i < s.len() ==> is_digit(#[trigger] s[i])
}

/// The value of a run of ASCII digits.
pub open spec fn digits_value(s: Seq<char>) -> int
    decreases s.len(),
{
    if s.len() == 0 {
        0
    } else {
        digits_value(s.drop_last()) * 10 + ((s.last() as u32) - 48)
    }
}

/// The integer that `str::parse::<iN>` reads before the range check: an
/// optional `+` or `-` followed by at least one ASCII digit.
pub open spec fn parse_int(s: Seq<char>) -> Option<int> {
    if s.len() > 0 && s[0] == '-' {
        if all_digits(s.drop_first()) {
            Some(-digits_value(s.drop_first()))
        } else {
            None
        }
    } else if s.len() > 0 && s[0] == '+' {
        if all_digits(s.drop_first()) {
            Some(digits_value(s.drop_first()))
        } else {
            None
        }
    } else if all_digits(s) {
        Some(digits_value(s))
    } else {
        None
    }
}

/// `str::parse::<i32>`: `parse_int` when the value fits in an `i32`.
pub open spec fn parse_i32(s: Seq<char>) -> Option<i32> {
    match parse_int(s) {
        Some(v) => if i32::MIN <= v <= i32::MAX {
            Some(v as i32)
        } else {
            None
        },
        None => None,
    }
}

/// Number of UTF-8 bytes that encode `c`.
pub open spec fn utf8_width(c: char) -> nat {
    let u = c as u32;
    if u < 0x80 {
        1
    } else if u < 0x800 {
        2
    } else if u < 0x10000 {
        3
    } else {
        4
    }
}

/// Number of UTF-8 bytes that encode the sequence (`str::len`).
pub open spec fn utf8_len(s: Seq<char>) -> nat
    decreases s.len(),
{
    if s.len() == 0 {
        0
    } else {
        utf8_len(s.drop_last()) + utf8_width(s.last())
    }
}

// ---------------------------------------------------------------------------
// Lemmas
// ---------------------------------------------------------------------------

/// Byte offsets of char prefixes grow strictly with the prefix.
pub proof fn lemma_utf8_len_take_step(s: Seq<char>, k: int)
    requires
        0 <= k < s.len(),
    ensures
        utf8_len(s.take(k + 1)) == utf8_len(s.take(k)) + utf8_width(s[k]),
{
    assert(s.take(k + 1).drop_last() =~= s.take(k));
}

/// Byte offsets of char prefixes are strictly increasing in the prefix length.
pub proof fn lemma_utf8_len_take_mono(s: Seq<char>, j: int, k: int)
    requires
        0 <= j < k <= s.len(),
    ensures
        utf8_len(s.take(j)) < utf8_len(s.take(k)),
    decreases k - j,
{
    lemma_utf8_len_take_step(s, k - 1);
    if j < k - 1 {
        lemma_utf8_len_take_mono(s, j, k - 1);
    }
}


/// The byte length of a concatenation is the sum of the byte lengths.
pub proof fn lemma_utf8_len_concat(a: Seq<char>, b: Seq<char>)
    ensures
        utf8_len(a + b) == utf8_len(a) + utf8_len(b),
    decreases b.len(),
{
    if b.len() == 0 {
        assert(a + b =~= a);
    } else {
        lemma_utf8_len_concat(a, b.drop_last());
        assert((a + b).drop_last() =~= a + b.drop_last());
        assert((a + b).last() == b.last());
    }
}

/// ASCII lower-casing keeps the byte length.
pub proof fn lemma_utf8_len_lower(s: Seq<char>)
    ensures
        utf8_len(lower_seq(s)) == utf8_len(s),
    decreases s.len(),
{
    if s.len() > 0 {
        lemma_utf8_len_lower(s.drop_last());
        assert(lower_seq(s).drop_last() =~= lower_seq(s.drop_last()));
        assert(lower_seq(s).last() == lower_char(s.last()));
    }
}

/// Byte offset of every char prefix is at most the byte length.
pub proof fn lemma_utf8_len_take_le(s: Seq<char>, k: int)
    requires
        0 <= k <= s.len(),
    ensures
        utf8_len(s.take(k)) <= utf8_len(s),
{
    assert(s.take(s.len() as int) =~= s);
    if k < s.len() {
        lemma_utf8_len_take_mono(s, k, s.len() as int);
    }
}

/// The digits of a number are ASCII digits.
pub proof fn lemma_dec_digits(n: nat)
    ensures
        all_digits(dec(n)),
        digits_value(dec(n)) == n,
        dec(n).len() >= 1,
    decreases n,
{
    if n >= 10 {
        lemma_dec_digits(n / 10);
        let d = dec(n / 10);
        let e = d.push(digit_char(n % 10));
        assert(e.drop_last() =~= d);
        assert((digit_char(n % 10) as u32) == n % 10 + 48);
        assert(e.last() == digit_char(n % 10));
        assert(digits_value(e) == digits_value(d) * 10 + ((e.last() as u32) - 48));
        assert(digits_value(e) == (n / 10) * 10 + n % 10);
        assert(dec(n) == e);
        assert forall|i: int| 0 <= i < e.len() implies is_digit(#[trigger] e[i]) by {
            if i < d.len() {
                assert(e[i] == d[i]);
            }
        }
    } else {
        assert(seq![digit_char(n)].drop_last() =~= Seq::<char>::empty());
        assert((digit_char(n) as u32) == n + 48);
        let e = seq![digit_char(n)];
        assert(dec(n) == e);
        assert(digits_value(e.drop_last()) == 0);
        assert(digits_value(e) == n);
    }
}

/// Extending a digit run never lowers its value.
pub proof fn lemma_digits_value_prefix_mono(s: Seq<char>, j: int, k: int)
    requires
        0 <= j <= k <= s.len(),
        forall|i: int| 0 <= i < s.len() ==> is_digit(#[trigger] s[i]),
    ensures
        digits_value(s.take(j)) <= digits_value(s.take(k)),
        digits_value(s.take(j)) >= 0,
    decreases k - j,
{
    if j < k {
        lemma_digits_value_prefix_mono(s, j, k - 1);
        assert(s.take(k).drop_last() =~= s.take(k - 1));
        assert(is_digit(s[k - 1]));
        lemma_digits_value_prefix_mono(s, k - 1, k - 1);
    } else {
        lemma_digits_value_nonneg(s.take(j));
    }
}

/// A digit run has a non-negative value.
pub proof fn lemma_digits_value_nonneg(s: Seq<char>)
    requires
        forall|i: int| 0 <= i < s.len() ==> is_digit(#[trigger] s[i]),
    ensures
        digits_value(s) >= 0,
    decreases s.len(),
{
    if s.len() > 0 {
        assert forall|i: int| 0 <= i < s.drop_last().len() implies is_digit(
            #[trigger] s.drop_last()[i],
        ) by {
            assert(s.drop_last()[i] == s[i]);
        }
        lemma_digits_value_nonneg(s.drop_last());
        assert(is_digit(s[s.len() - 1]));
    }
}

// ---------------------------------------------------------------------------
// Executable helpers
// ---------------------------------------------------------------------------

/// Appends one char to a `String`.
///
/// Calls `String::push`, which appends the char's UTF-8 encoding; the
/// contract states that the char view gains `c` at its end.
#[verifier::external_body]
pub(crate) fn push_char(s: &mut String, c: char)
    ensures
        final(s)@ == old(s)@.push(c),
{
    s.push(c);
}

/// `char::is_whitespace`.
pub fn is_whitespace(c: char) -> (b: bool)
    ensures
        b == is_ws(c),
{
    let u = c as u32;
    (0x09 <= u && u <= 0x0d) || u == 0x20 || u == 0x85 || u == 0xa0 || u == 0x1680 || (0x2000
        <= u && u <= 0x200a) || u == 0x2028 || u == 0x2029 || u == 0x202f || u == 0x205f || u
        == 0x3000
}

/// `char::to_ascii_lowercase`.
pub fn to_lower_char(c: char) -> (r: char)
    ensures
        r == lower_char(c),
{
    if 'A' <= c && c <= 'Z' {
        let b = c as u8;
        (b + 32) as char
    } else {
        c
    }
}

/// The chars of a string slice.
pub fn chars_of(s: &str) -> (v: Vec<char>)
    ensures
        v@ == s@,
{
    let n = s.unicode_len();
    let mut v: Vec<char> = Vec::new();
    let mut i: usize = 0;
    while i < n
        invariant
            n == s@.len(),
            i <= n,
            v@ == s@.take(i as int),
        decreases n - i,
    {
        let c = s.get_char(i);
        v.push(c);
        assert(s@.take(i as int).push(c) =~= s@.take(i + 1));
        i += 1;
    }
    assert(s@.take(n as int) =~= s@);
    v
}

/// A `String` holding the given chars.
pub fn string_of(v: &[char]) -> (s: String)
    ensures
        s@ == v@,
{
    let mut s = String::new();
    let mut i: usize = 0;
    while i < v.len()
        invariant
            i <= v.len(),
            s@ == v@.take(i as int),
        decreases v.len() - i,
    {
        push_char(&mut s, v[i]);
        assert(v@.take(i as int).push(v@[i as int]) =~= v@.take(i + 1));
        i += 1;
    }
    assert(v@.take(v.len() as int) =~= v@);
    s
}

/// An owned copy of a string slice.
pub fn owned(s: &str) -> (r: String)
    ensures
        r@ == s@,
{
    String::from_str(s)
}

/// Concatenation of two string slices.
pub fn concat2(a: &str, b: &str) -> (r: String)
    ensures
        r@ == a@ + b@,
{
    let mut r = String::from_str(a);
    r.append(b);
    r
}

/// Concatenation of three string slices.
pub fn concat3(a: &str, b: &str, c: &str) -> (r: String)
    ensures
        r@ == a@ + b@ + c@,
{
    let mut r = String::from_str(a);
    r.append(b);
    r.append(c);
    r
}

/// Whether two char slices are equal.
pub fn chars_eq(a: &[char], b: &[char]) -> (r: bool)
    ensures
        r == (a@ == b@),
{
    if a.len() != b.len() {
        assert(a@.len() != b@.len());
        return false;
    }
    let mut i: usize = 0;
    while i < a.len()
        invariant
            a.len() == b.len(),
            i <= a.len(),
            forall|j: int| 0 <= j < i ==> a@[j] == b@[j],
        decreases a.len() - i,
    {
        if a[i] != b[i] {
            assert(a@[i as int] != b@[i as int]);
            return false;
        }
        i += 1;
    }
    assert(a@ =~= b@);
    true
}

/// Whether two string slices hold the same text.
pub fn str_eq(a: &str, b: &str) -> (r: bool)
    ensures
        r == (a@ == b@),
{
    let x = chars_of(a);
    let y = chars_of(b);
    chars_eq(x.as_slice(), y.as_slice())
}

/// Whether `s` begins with `p`.
pub fn starts_with_chars(s: &[char], p: &[char]) -> (r: bool)
    ensures
        r == starts(s@, p@),
{
    if p.len() > s.len() {
        return false;
    }
    let mut i: usize = 0;
    while i < p.len()
        invariant
            p.len() <= s.len(),
            i <= p.len(),
            forall|j: int| 0 <= j < i ==> s@[j] == p@[j],
        decreases p.len() - i,
    {
        if s[i] != p[i] {
            assert(s@.subrange(0, p.len() as int)[i as int] != p@[i as int]);
            return false;
        }
        i += 1;
    }
    assert(s@.subrange(0, p.len() as int) =~= p@);
    true
}


/// Whether `n` occurs in `s` at index `i`.
pub fn occurs_at_exec(s: &[char], n: &[char], i: usize) -> (r: bool)
    ensures
        r == occurs_at(s@, n@, i as int),
{
    if i > s.len() || n.len() > s.len() - i {
        return false;
    }
    let mut k: usize = 0;
    while k < n.len()
        invariant
            i + n.len() <= s.len(),
            k <= n.len(),
            forall|j: int| 0 <= j < k ==> s@[i + j] == n@[j],
        decreases n.len() - k,
    {
        if s[i + k] != n[k] {
            assert(s@.subrange(i as int, i + n.len())[k as int] != n@[k as int]);
            return false;
        }
        k += 1;
    }
    assert(s@.subrange(i as int, i + n.len()) =~= n@);
    true
}

/// The first index at which `n` occurs in `s` (`str::find`).
pub fn find_chars(s: &[char], n: &[char]) -> (r: Option<usize>)
    ensures
        match r {
            Some(i) => first_occurrence(s@, n@, i as int),
            None => !contains(s@, n@),
        },
{
    if n.len() > s.len() {
        assert forall|i: int| !#[trigger] occurs_at(s@, n@, i) by {}
        return None;
    }
    let last = s.len() - n.len();
    let mut i: usize = 0;
    loop
        invariant
            last == s.len() - n.len(),
            n.len() <= s.len(),
            i <= last,
            forall|j: int| 0 <= j < i ==> !#[trigger] occurs_at(s@, n@, j),
        decreases last - i,
    {
        if occurs_at_exec(s, n, i) {
            return Some(i);
        }
        if i == last {
            assert forall|j: int| !#[trigger] occurs_at(s@, n@, j) by {
                if 0 <= j < i {
                }
            }
            return None;
        }
        i += 1;
    }
}

/// Whether `n` occurs in `s` (`str::contains`).
pub fn contains_chars(s: &[char], n: &[char]) -> (r: bool)
    ensures
        r == contains(s@, n@),
{
    match find_chars(s, n) {
        Some(_) => true,
        None => false,
    }
}

/// ASCII lower-case copy (`str::to_ascii_lowercase`).
pub fn lower_chars(s: &[char]) -> (r: Vec<char>)
    ensures
        r@ == lower_seq(s@),
{
    let mut r: Vec<char> = Vec::new();
    let mut i: usize = 0;
    while i < s.len()
        invariant
            i <= s.len(),
            r@ =~= lower_seq(s@.take(i as int)),
        decreases s.len() - i,
    {
        let c = to_lower_char(s[i]);
        r.push(c);
        assert(lower_seq(s@.take(i + 1)) =~= lower_seq(s@.take(i as int)).push(c));
        i += 1;
    }
    assert(s@.take(s.len() as int) =~= s@);
    r
}

/// The bounds `(a, b)` with `s[a..b]` equal to the trimmed text.
pub fn trim_bounds(s: &[char]) -> (r: (usize, usize))
    ensures
        r.0 <= r.1 <= s.len(),
        s@.subrange(r.0 as int, r.1 as int) == trim(s@),
{
    let n = s.len();
    let mut i: usize = 0;
    assert(s@.subrange(0, n as int) =~= s@);
    while i < n && is_whitespace(s[i])
        invariant
            n == s.len(),
            i <= n,
            trim_start(s@.subrange(i as int, n as int)) == trim_start(s@),
        decreases n - i,
    {
        assert(s@.subrange(i as int, n as int).drop_first() =~= s@.subrange(i + 1, n as int));
        i += 1;
    }
    let ghost t = s@.subrange(i as int, n as int);
    assert(trim_start(t) == t);
    let mut j: usize = n;
    while j > i && is_whitespace(s[j - 1])
        invariant
            n == s.len(),
            i <= j <= n,
            t == s@.subrange(i as int, n as int),
            trim_end(s@.subrange(i as int, j as int)) == trim_end(t),
        decreases j,
    {
        assert(s@.subrange(i as int, j as int).drop_last() =~= s@.subrange(i as int, j - 1));
        j -= 1;
    }
    (i, j)
}

/// Trimmed chars (`str::trim`).
pub fn trim_chars(s: &[char]) -> (r: Vec<char>)
    ensures
        r@ == trim(s@),
{
    let (a, b) = trim_bounds(s);
    slice_to_vec(s, a, b)
}

/// Trimmed text of a string slice (`str::trim`), as chars.
pub fn trim_str(s: &str) -> (r: Vec<char>)
    ensures
        r@ == trim(s@),
{
    let v = chars_of(s);
    trim_chars(v.as_slice())
}

/// A copy of `s[a..b]`.
pub fn slice_to_vec(s: &[char], a: usize, b: usize) -> (r: Vec<char>)
    requires
        a <= b <= s.len(),
    ensures
        r@ == s@.subrange(a as int, b as int),
{
    let mut r: Vec<char> = Vec::new();
    let mut i: usize = a;
    while i < b
        invariant
            a <= i <= b <= s.len(),
            r@ == s@.subrange(a as int, i as int),
        decreases b - i,
    {
        r.push(s[i]);
        assert(s@.subrange(a as int, i as int).push(s@[i as int]) =~= s@.subrange(
            a as int,
            i + 1,
        ));
        i += 1;
    }
    r
}

/// The ASCII digit for `d < 10`.
pub fn digit_to_char(d: u8) -> (c: char)
    requires
        d < 10,
    ensures
        c == digit_char(d as nat),
{
    if d == 0 {
        '0'
    } else if d == 1 {
        '1'
    } else if d == 2 {
        '2'
    } else if d == 3 {
        '3'
    } else if d == 4 {
        '4'
    } else if d == 5 {
        '5'
    } else if d == 6 {
        '6'
    } else if d == 7 {
        '7'
    } else if d == 8 {
        '8'
    } else {
        '9'
    }
}

/// Appends the decimal digits of `n` to `out`.
pub fn push_dec(out: &mut Vec<char>, n: u64)
    ensures
        final(out)@ == old(out)@ + dec(n as nat),
    decreases n,
{
    if n >= 10 {
        push_dec(out, n / 10);
    }
    let c = digit_to_char((n % 10) as u8);
    out.push(c);
    if n >= 10 {
        assert(dec(n as nat) == dec((n / 10) as nat).push(digit_char((n % 10) as nat)));
    }
    assert(old(out)@ + dec(n as nat) =~= final(out)@) by {
        if n < 10 {
            assert(dec(n as nat) =~= seq![c]);
        }
    };
}

/// Decimal rendering of an unsigned integer (`u64::to_string`).
pub fn fmt_u64(n: u64) -> (r: String)
    ensures
        r@ == dec(n as nat),
{
    let mut v: Vec<char> = Vec::new();
    push_dec(&mut v, n);
    assert(v@ =~= dec(n as nat));
    string_of(v.as_slice())
}

/// Decimal rendering of a `usize` (`usize::to_string`).
pub fn fmt_usize(n: usize) -> (r: String)
    ensures
        r@ == dec(n as nat),
{
    fmt_u64(n as u64)
}


/// Decimal digits of `n`, left-padded with zeros to `width` (`{:0width$}`).
pub fn push_dec_padded(out: &mut Vec<char>, n: u64, width: usize)
    ensures
        final(out)@ == old(out)@ + dec_padded(n as nat, width as nat),
{
    let mut digits: Vec<char> = Vec::new();
    push_dec(&mut digits, n);
    assert(digits@ =~= dec(n as nat));
    let ghost start = out@;
    if digits.len() < width {
        let pad = width - digits.len();
        let mut k: usize = 0;
        while k < pad
            invariant
                k <= pad,
                out@ =~= start + Seq::new(k as nat, |i: int| '0'),
            decreases pad - k,
        {
            out.push('0');
            assert(Seq::new(k as nat, |i: int| '0').push('0') =~= Seq::new(
                (k + 1) as nat,
                |i: int| '0',
            ));
            k += 1;
        }
    }
    let ghost mid = out@;
    let mut i: usize = 0;
    while i < digits.len()
        invariant
            i <= digits.len(),
            out@ =~= mid + digits@.take(i as int),
        decreases digits.len() - i,
    {
        out.push(digits[i]);
        assert(digits@.take(i as int).push(digits@[i as int]) =~= digits@.take(i + 1));
        i += 1;
    }
    assert(digits@.take(digits.len() as int) =~= digits@);
}

/// `str::parse::<i32>` on a char sequence.
pub fn parse_i32_chars(s: &[char]) -> (r: Option<i32>)
    ensures
        r == parse_i32(s@),
{
    let n = s.len();
    let mut start: usize = 0;
    let mut neg = false;
    if n > 0 && (s[0] == '-' || s[0] == '+') {
        neg = s[0] == '-';
        start = 1;
    }
    let ghost body = s@.subrange(start as int, n as int);
    assert(start == 1 ==> body =~= s@.drop_first());
    assert(start == 0 ==> body =~= s@);
    if start >= n {
        assert(!all_digits(body));
        return None;
    }
    let mut acc: i64 = 0;
    let mut i: usize = start;
    let mut too_big = false;
    while i < n
        invariant
            n == s.len(),
            start <= i <= n,
            start < n,
            start <= 1,
            start == 1 ==> (s@[0] == '-' || s@[0] == '+') && body == s@.drop_first(),
            start == 0 ==> !(s@[0] == '-' || s@[0] == '+') && body == s@,
            neg == (start == 1 && s@[0] == '-'),
            body == s@.subrange(start as int, n as int),
            forall|j: int| start <= j < i ==> is_digit(#[trigger] s@[j]),
            !too_big ==> acc == digits_value(body.take(i - start)),
            !too_big ==> 0 <= acc <= 2147483648,
            too_big ==> digits_value(body.take(i - start)) > 2147483648,
        decreases n - i,
    {
        let c = s[i];
        let cu = c as u32;
        if !(48 <= cu && cu <= 57) {
            assert(body[i - start] == c);
            assert(!is_digit(body[i - start]));
            assert(!all_digits(body));
            return None;
        }
        let d = (c as u32 - 48) as i64;
        assert(body.take(i + 1 - start).drop_last() =~= body.take(i - start));
        assert(body.take(i + 1 - start).last() == c);
        if !too_big {
            let next = acc * 10 + d;
            if next > 2147483648 {
                too_big = true;
            } else {
                acc = next;
            }
        } else {
            proof {
                assert forall|j: int| 0 <= j < body.take(i - start).len() implies is_digit(
                    #[trigger] body.take(i - start)[j],
                ) by {
                    assert(body.take(i - start)[j] == s@[start + j]);
                }
                lemma_digits_value_nonneg(body.take(i - start));
            }
        }
        i += 1;
    }
    assert(body.take(n - start) =~= body);
    assert forall|j: int| 0 <= j < body.len() implies is_digit(#[trigger] body[j]) by {
        assert(body[j] == s@[start + j]);
    }
    assert(all_digits(body));
    if too_big {
        return None;
    }
    if neg {
        Some((-acc) as i32)
    } else if acc > 2147483647 {
        None
    } else {
        Some(acc as i32)
    }
}

/// Number of UTF-8 bytes that encode `c` (`char::len_utf8`).
pub fn char_width(c: char) -> (w: u8)
    ensures
        w == utf8_width(c),
        1 <= w <= 4,
{
    let u = c as u32;
    if u < 0x80 {
        1
    } else if u < 0x800 {
        2
    } else if u < 0x10000 {
        3
    } else {
        4
    }
}

/// Byte offset of the char at index `k` (the UTF-8 length of `s[..k]`).
pub fn byte_offset(s: &[char], k: usize) -> (r: u128)
    requires
        k <= s.len(),
    ensures
        r == utf8_len(s@.take(k as int)),
        r <= 4 * k,
{
    let mut i: usize = 0;
    let mut bytes: u128 = 0;
    assert(s@.take(0) =~= Seq::<char>::empty());
    while i < k
        invariant
            i <= k <= s.len(),
            bytes == utf8_len(s@.take(i as int)),
            bytes <= 4 * i,
        decreases k - i,
    {
        proof {
            lemma_utf8_len_take_step(s@, i as int);
        }
        bytes = bytes + char_width(s[i]) as u128;
        i += 1;
    }
    bytes
}

/// `s` without the prefix `p` (`str::strip_prefix`).
pub fn strip_prefix_str<'a>(s: &'a str, p: &str) -> (r: Option<&'a str>)
    ensures
        match r {
            Some(rest) => s@ == p@ + rest@,
            None => !starts(s@, p@),
        },
{
    let sv = chars_of(s);
    let pv = chars_of(p);
    if starts_with_chars(sv.as_slice(), pv.as_slice()) {
        let rest = s.substring_char(pv.len(), sv.len());
        assert(s@ =~= p@ + rest@);
        Some(rest)
    } else {
        None
    }
}

/// Whether `s` begins with `p` (`str::starts_with`).
pub fn str_starts_with(s: &str, p: &str) -> (r: bool)
    ensures
        r == starts(s@, p@),
{
    let sv = chars_of(s);
    let pv = chars_of(p);
    starts_with_chars(sv.as_slice(), pv.as_slice())
}

/// Whether `n` occurs in `s` (`str::contains`).
pub fn str_contains(s: &str, n: &str) -> (r: bool)
    ensures
        r == contains(s@, n@),
{
    let sv = chars_of(s);
    let nv = chars_of(n);
    contains_chars(sv.as_slice(), nv.as_slice())
}

/// What `str::to_lowercase` returns: the Unicode lower-case mapping of the
/// text, which depends on the text alone.
pub uninterp spec fn unicode_lowercase(s: Seq<char>) -> Seq<char>;

/// Every char of `s` is ASCII.
pub open spec fn is_ascii_text(s: Seq<char>) -> bool {
    forall|i: int| 0 <= i < s.len() ==> (#[trigger] s[i] as u32) < 0x80
}

/// Unicode lower-casing of a string slice.
///
/// Calls `str::to_lowercase`; the contract names its result
/// `unicode_lowercase` of the input's chars, and states that on ASCII text
/// it is the ASCII lower-casing (the Unicode lower-case of each ASCII char
/// is its ASCII lower-case, one char each).
#[verifier::external_body]
pub(crate) fn to_lowercase(s: &str) -> (r: String)
    ensures
        r@ == unicode_lowercase(s@),
        is_ascii_text(s@) ==> r@ == lower_seq(s@),
{
    s.to_lowercase()
}

/// Parts joined with `sep` between consecutive parts (`[..].join(sep)`).
pub open spec fn join(parts: Seq<Seq<char>>, sep: Seq<char>) -> Seq<char>
    decreases parts.len(),
{
    if parts.len() == 0 {
        Seq::empty()
    } else if parts.len() == 1 {
        parts[0]
    } else {
        join(parts.drop_last(), sep) + sep + parts.last()
    }
}

/// The char views of a list of strings.
pub open spec fn strings_view(v: Seq<String>) -> Seq<Seq<char>> {
    v.map_values(|s: String| s@)
}

/// Joins strings with a separator (`[String]::join`).
pub fn join_strings(parts: &Vec<String>, sep: &str) -> (r: String)
    ensures
        r@ == join(strings_view(parts@), sep@),
{
    let mut r = String::new();
    let ghost pv = strings_view(parts@);
    let mut i: usize = 0;
    while i < parts.len()
        invariant
            i <= parts.len(),
            pv == strings_view(parts@),
            r@ == join(pv.take(i as int), sep@),
        decreases parts.len() - i,
    {
        assert(pv.take(i + 1).drop_last() =~= pv.take(i as int));
        if i > 0 {
            r.append(sep);
        } else {
            assert(pv.take(1) =~= seq![pv[0]]);
        }
        r.append(parts[i].as_str());
        i += 1;
    }
    assert(pv.take(parts.len() as int) =~= pv);
    r
}

/// `a / b` rounded toward negative infinity (`i64::div_euclid` for `b > 0`).
pub fn div_floor(a: i64, b: i64) -> (r: i64)
    requires
        b > 0,
    ensures
        r == a / b,
{
    if a >= 0 {
        let q = (a as u64) / (b as u64);
        assert(q == a / b);
        q as i64
    } else {
        let n: u64 = (-(a + 1)) as u64;
        let q = n / (b as u64);
        assert(q == (n as int) / (b as int));
        assert(-(q as int) - 1 == a / b) by (nonlinear_arith)
            requires
                n == -(a + 1),
                q == (n as int) / (b as int),
                a < 0,
                b > 0,
        {
            let r0 = (n as int) % (b as int);
            assert(n == q * b + r0);
            assert(0 <= r0 < b);
            assert(a == -(q as int) * b - r0 - 1);
            assert(a == (-(q as int) - 1) * b + (b - r0 - 1));
        }
        -(q as i64) - 1
    }
}

/// `s` split at every `c` (`str::split`), keeping empty pieces.
pub open spec fn split_char(s: Seq<char>, c: char) -> Seq<Seq<char>>
    decreases s.len(),
{
    if s.len() == 0 {
        seq![Seq::empty()]
    } else {
        let prev = split_char(s.drop_last(), c);
        if s.last() == c {
            prev.push(Seq::empty())
        } else {
            prev.update(prev.len() - 1, prev.last().push(s.last()))
        }
    }
}

pub proof fn lemma_split_char_nonempty(s: Seq<char>, c: char)
    ensures
        split_char(s, c).len() >= 1,
    decreases s.len(),
{
    if s.len() > 0 {
        lemma_split_char_nonempty(s.drop_last(), c);
    }
}

/// Char views of a list of char vectors.
pub open spec fn chars_list(v: Seq<Vec<char>>) -> Seq<Seq<char>> {
    v.map_values(|x: Vec<char>| x@)
}

/// `s` split at every `c` (`str::split`), keeping empty pieces.
pub fn split_chars(s: &[char], c: char) -> (r: Vec<Vec<char>>)
    ensures
        chars_list(r@) == split_char(s@, c),
{
    let mut done: Vec<Vec<char>> = Vec::new();
    let mut cur: Vec<char> = Vec::new();
    let mut i: usize = 0;
    assert(s@.take(0) =~= Seq::<char>::empty());
    assert(chars_list(done@).push(cur@) =~= split_char(s@.take(0), c));
    while i < s.len()
        invariant
            i <= s.len(),
            chars_list(done@).push(cur@) == split_char(s@.take(i as int), c),
        decreases s.len() - i,
    {
        let ch = s[i];
        proof {
            assert(s@.take(i + 1).drop_last() =~= s@.take(i as int));
            assert(s@.take(i + 1).last() == ch);
        }
        if ch == c {
            let ghost prev = done@;
            let old_cur = cur;
            done.push(old_cur);
            cur = Vec::new();
            assert(chars_list(done@) =~= chars_list(prev).push(old_cur@));
            assert(chars_list(done@).push(cur@) =~= chars_list(prev).push(old_cur@).push(
                Seq::empty(),
            ));
        } else {
            let ghost prev_cur = cur@;
            cur.push(ch);
            assert(chars_list(done@).push(cur@) =~= chars_list(done@).push(prev_cur).update(
                done@.len() as int,
                prev_cur.push(ch),
            ));
        }
        i += 1;
    }
    assert(s@.take(s.len() as int) =~= s@);
    let ghost d = done@;
    done.push(cur);
    assert(chars_list(done@) =~= chars_list(d).push(cur@));
    done
}

/// Lexicographic char order of `a[i..]` before `b[i..]` (the byte order of
/// the UTF-8 strings).
pub open spec fn lex_lt(a: Seq<char>, b: Seq<char>, i: int) -> bool
    decreases a.len() - i,
{
    if i < 0 || i >= a.len() {
        0 <= i < b.len()
    } else if i >= b.len() {
        false
    } else if a[i] != b[i] {
        a[i] < b[i]
    } else {
        lex_lt(a, b, i + 1)
    }
}

/// Lexicographic order is asymmetric.
pub proof fn lemma_lex_asym(a: Seq<char>, b: Seq<char>, i: int)
    requires
        lex_lt(a, b, i),
    ensures
        !lex_lt(b, a, i),
    decreases a.len() - i,
{
    if 0 <= i < a.len() && i < b.len() && a[i] == b[i] {
        lemma_lex_asym(a, b, i + 1);
    }
}

/// Not-after is transitive for lexicographic order.
pub proof fn lemma_lex_neg_trans(a: Seq<char>, b: Seq<char>, c: Seq<char>, i: int)
    requires
        lex_lt(c, a, i),
    ensures
        lex_lt(c, b, i) || lex_lt(b, a, i),
    decreases c.len() - i,
{
    if 0 <= i < c.len() && i < b.len() && i < a.len() {
        if c[i] == a[i] && b[i] == c[i] {
            lemma_lex_neg_trans(a, b, c, i + 1);
        }
    }
}

/// Lexicographic order is irreflexive.
pub proof fn lemma_lex_irrefl(a: Seq<char>, i: int)
    ensures
        !lex_lt(a, a, i),
{
    if lex_lt(a, a, i) {
        lemma_lex_asym(a, a, i);
    }
}

/// Lexicographic order is transitive.
pub proof fn lemma_lex_trans(a: Seq<char>, b: Seq<char>, c: Seq<char>)
    requires
        lex_lt(a, b, 0),
        lex_lt(b, c, 0),
    ensures
        lex_lt(a, c, 0),
{
    lemma_lex_neg_trans(b, c, a, 0);
    if lex_lt(c, b, 0) {
        lemma_lex_asym(b, c, 0);
    }
}

/// Two different texts that agree before `i` are ordered one way or the other.
pub proof fn lemma_lex_total(a: Seq<char>, b: Seq<char>, i: int)
    requires
        0 <= i <= a.len(),
        i <= b.len(),
        forall|j: int| 0 <= j < i ==> a[j] == b[j],
        a != b,
    ensures
        lex_lt(a, b, i) || lex_lt(b, a, i),
    decreases a.len() - i,
{
    if i < a.len() && i < b.len() && a[i] == b[i] {
        lemma_lex_total(a, b, i + 1);
    } else if i == a.len() && i == b.len() {
        assert(a =~= b);
    }
}

/// `t` without any trailing `c`.
pub open spec fn trim_end_char(t: Seq<char>, c: char) -> Seq<char>
    decreases t.len(),
{
    if t.len() > 0 && t.last() == c {
        trim_end_char(t.drop_last(), c)
    } else {
        t
    }
}

/// Length of `t` without its trailing `c`s.
pub fn trim_end_exec(t: &[char], c: char) -> (r: usize)
    ensures
        r <= t.len(),
        t@.take(r as int) == trim_end_char(t@, c),
{
    let mut n = t.len();
    assert(t@.take(n as int) =~= t@);
    while n > 0 && t[n - 1] == c
        invariant
            n <= t.len(),
            trim_end_char(t@, c) == trim_end_char(t@.take(n as int), c),
        decreases n,
    {
        assert(t@.take(n as int).drop_last() =~= t@.take(n - 1));
        n -= 1;
    }
    n
}

/// Splitting a text that holds no `c` at `c` gives the text itself.
pub proof fn lemma_split_char_free(s: Seq<char>, c: char)
    requires
        !s.contains(c),
    ensures
        split_char(s, c) == seq![s],
    decreases s.len(),
{
    if s.len() > 0 {
        assert(!s.drop_last().contains(c)) by {
            if s.drop_last().contains(c) {
                let i = choose|i: int| 0 <= i < s.drop_last().len() && s.drop_last()[i] == c;
                assert(s[i] == c);
            }
        }
        assert(s.last() != c) by {
            assert(s[s.len() - 1] == s.last());
        }
        lemma_split_char_free(s.drop_last(), c);
        assert(s.drop_last().push(s.last()) =~= s);
        assert(seq![s.drop_last()].update(0, s.drop_last().push(s.last())) =~= seq![s]);
    } else {
        assert(s =~= Seq::<char>::empty());
    }
}

/// Splitting `a`, a `c`, then `b` at `c` gives the pieces of `a` followed by those of `b`.
pub proof fn lemma_split_char_concat(a: Seq<char>, b: Seq<char>, c: char)
    ensures
        split_char(a + seq![c] + b, c) == split_char(a, c) + split_char(b, c),
    decreases b.len(),
{
    let s = a + seq![c] + b;
    lemma_split_char_nonempty(a, c);
    if b.len() == 0 {
        assert(s.drop_last() =~= a);
        assert(s.last() == c);
        assert(split_char(a, c).push(Seq::empty()) =~= split_char(a, c) + seq![Seq::<char>::empty()]);
    } else {
        assert(s.drop_last() =~= a + seq![c] + b.drop_last());
        assert(s.last() == b.last());
        lemma_split_char_concat(a, b.drop_last(), c);
        lemma_split_char_nonempty(b.drop_last(), c);
        let pa = split_char(a, c);
        let pb = split_char(b.drop_last(), c);
        if b.last() == c {
            assert((pa + pb).push(Seq::empty()) =~= pa + pb.push(Seq::empty()));
        } else {
            assert((pa + pb).update((pa + pb).len() - 1, (pa + pb).last().push(b.last())) =~= pa
                + pb.update(pb.len() - 1, pb.last().push(b.last())));
        }
    }
}

/// Splitting at `c` the join of pieces that hold no `c` gives the pieces back.
pub proof fn lemma_split_join(parts: Seq<Seq<char>>, c: char)
    requires
        parts.len() >= 1,
        forall|i: int| 0 <= i < parts.len() ==> !(#[trigger] parts[i]).contains(c),
    ensures
        split_char(join(parts, seq![c]), c) == parts,
    decreases parts.len(),
{
    if parts.len() == 1 {
        lemma_split_char_free(parts[0], c);
        assert(seq![parts[0]] =~= parts);
    } else {
        let init = parts.drop_last();
        assert forall|i: int| 0 <= i < init.len() implies !(#[trigger] init[i]).contains(c) by {
            assert(init[i] == parts[i]);
        }
        lemma_split_join(init, c);
        assert(!parts[parts.len() - 1].contains(c));
        lemma_split_char_concat(join(init, seq![c]), parts.last(), c);
        lemma_split_char_free(parts.last(), c);
        assert(init + seq![parts.last()] =~= parts);
    }
}

/// `s` holds a char that is not whitespace.
pub open spec fn has_visible(s: Seq<char>) -> bool {
    exists|i: int| 0 <= i < s.len() && !is_ws(#[trigger] s[i])
}

/// Trailing whitespace removal keeps exactly the texts with a visible char non-empty.
pub proof fn lemma_trim_end_visible(s: Seq<char>)
    ensures
        has_visible(trim_end(s)) == has_visible(s),
        trim_end(s).len() > 0 <==> has_visible(s),
    decreases s.len(),
{
    if s.len() > 0 && is_ws(s.last()) {
        lemma_trim_end_visible(s.drop_last());
        if has_visible(s) {
            let i = choose|i: int| 0 <= i < s.len() && !is_ws(#[trigger] s[i]);
            assert(i != s.len() - 1);
            assert(s.drop_last()[i] == s[i]);
        }
        if has_visible(s.drop_last()) {
            let i = choose|i: int| 0 <= i < s.drop_last().len() && !is_ws(#[trigger] s.drop_last()[i]);
            assert(s[i] == s.drop_last()[i]);
        }
    } else if s.len() > 0 {
        assert(!is_ws(s[s.len() - 1]));
    }
}

/// Leading whitespace removal keeps the visible chars.
pub proof fn lemma_trim_start_visible(s: Seq<char>)
    ensures
        has_visible(trim_start(s)) == has_visible(s),
    decreases s.len(),
{
    if s.len() > 0 && is_ws(s[0]) {
        lemma_trim_start_visible(s.drop_first());
        if has_visible(s) {
            let i = choose|i: int| 0 <= i < s.len() && !is_ws(#[trigger] s[i]);
            assert(i != 0);
            assert(s.drop_first()[i - 1] == s[i]);
        }
        if has_visible(s.drop_first()) {
            let i = choose|i: int| 0 <= i < s.drop_first().len() && !is_ws(#[trigger] s.drop_first()[i]);
            assert(s[i + 1] == s.drop_first()[i]);
        }
    }
}

/// A text trims to something non-empty exactly when it holds a visible char.
pub proof fn lemma_trim_nonempty(s: Seq<char>)
    ensures
        trim(s).len() > 0 <==> has_visible(s),
{
    lemma_trim_start_visible(s);
    lemma_trim_end_visible(trim_start(s));
}

/// Trailing whitespace of `a + b` lies in `b` when `b` has a visible char.
pub proof fn lemma_trim_end_concat(a: Seq<char>, b: Seq<char>)
    requires
        has_visible(b),
    ensures
        trim_end(a + b) == a + trim_end(b),
    decreases b.len(),
{
    let i = choose|i: int| 0 <= i < b.len() && !is_ws(#[trigger] b[i]);
    assert((a + b).last() == b.last());
    if is_ws(b.last()) {
        assert(i != b.len() - 1);
        assert(b.drop_last()[i] == b[i]);
        assert((a + b).drop_last() =~= a + b.drop_last());
        lemma_trim_end_concat(a, b.drop_last());
    }
}

/// Trailing whitespace removal drops a tail made of whitespace only.
pub proof fn lemma_trim_end_concat_blank(a: Seq<char>, b: Seq<char>)
    requires
        !has_visible(b),
    ensures
        trim_end(a + b) == trim_end(a),
        trim_end(b).len() == 0,
    decreases b.len(),
{
    lemma_trim_end_visible(b);
    if b.len() == 0 {
        assert(a + b =~= a);
    } else {
        assert(is_ws(b[b.len() - 1]));
        assert((a + b).last() == b.last());
        assert((a + b).drop_last() =~= a + b.drop_last());
        assert(!has_visible(b.drop_last())) by {
            if has_visible(b.drop_last()) {
                let i = choose|i: int| 0 <= i < b.drop_last().len() && !is_ws(#[trigger] b.drop_last()[i]);
                assert(b[i] == b.drop_last()[i]);
            }
        }
        lemma_trim_end_concat_blank(a, b.drop_last());
    }
}

} // verus!
