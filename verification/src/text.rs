//! Character-level helpers for building and reading strings in verified code:
//! appending characters and literals, and decimal and hexadecimal digits.

use vstd::prelude::*;
use vstd::string::{StrSliceExecFns, StringExecFns};

verus! {

/// Appends one character to a `String`.
///
/// Calls `String::push`, whose documentation says it appends the given
/// character to the end of the string; the contract states exactly that.
#[verifier::external_body]
pub fn push_char(s: &mut String, c: char)
    ensures
        final(s)@ == old(s)@.push(c),
{
    s.push(c);
}

/// Appends a string slice to a `String`.
pub fn push_str(s: &mut String, t: &str)
    ensures
        final(s)@ == old(s)@ + t@,
{
    s.append(t);
}

/// The lowercase hexadecimal digit for a nibble; the decimal digit for
/// `n < 10`.
pub open spec fn hex_lower(n: int) -> char {
    seq!['0', '1', '2', '3', '4', '5', '6', '7', '8', '9', 'a', 'b', 'c', 'd', 'e', 'f'][n]
}

/// Lowercase hexadecimal digit of `n < 16`.
pub fn hex_lower_char(n: u32) -> (c: char)
    requires
        n < 16,
    ensures
        c == hex_lower(n as int),
{
    match n {
        0 => '0',
        1 => '1',
        2 => '2',
        3 => '3',
        4 => '4',
        5 => '5',
        6 => '6',
        7 => '7',
        8 => '8',
        9 => '9',
        10 => 'a',
        11 => 'b',
        12 => 'c',
        13 => 'd',
        14 => 'e',
        _ => 'f',
    }
}

/// The decimal numeral of `n`, without leading zeros.
pub open spec fn dec(n: nat) -> Seq<char>
    decreases n,
{
    if n < 10 {
        seq![hex_lower(n as int)]
    } else {
        dec(n / 10).push(hex_lower((n % 10) as int))
    }
}

/// `s` left-padded with `'0'` to at least `w` characters.
pub open spec fn zero_pad(s: Seq<char>, w: nat) -> Seq<char> {
    if s.len() >= w {
        s
    } else {
        Seq::new((w - s.len()) as nat, |i: int| '0') + s
    }
}

/// `n` in decimal, zero-padded to at least `w` digits: what `{:0w}` prints.
pub open spec fn dec_pad(n: nat, w: nat) -> Seq<char> {
    zero_pad(dec(n), w)
}

/// A signed integer zero-padded to at least `w` characters, the sign
/// counted in the width: what `{:0w}` prints for a signed integer.
pub open spec fn signed_dec_pad(n: int, w: nat) -> Seq<char> {
    if n < 0 {
        seq!['-'] + zero_pad(dec((-n) as nat), if w >= 1 {
            (w - 1) as nat
        } else {
            0
        })
    } else {
        dec_pad(n as nat, w)
    }
}

/// `10^w`.
pub open spec fn pow10(w: nat) -> nat
    decreases w,
{
    if w == 0 {
        1
    } else {
        10 * pow10((w - 1) as nat)
    }
}

/// A number below `10^w` has at most `w` decimal digits.
pub proof fn lemma_dec_len(n: nat, w: nat)
    requires
        w >= 1,
        n < pow10(w),
    ensures
        1 <= dec(n).len() <= w,
    decreases n,
{
    if n >= 10 {
        if w == 1 {
            assert(pow10(1) == 10 * pow10(0));
        }
        lemma_dec_len(n / 10, (w - 1) as nat);
    }
}

/// A decimal digit's character is `'0'` advanced by its value.
pub proof fn lemma_hex_digit(k: int)
    requires
        0 <= k < 10,
    ensures
        hex_lower(k) as int == '0' as int + k,
        '0' <= hex_lower(k) <= '9',
{
    let s = seq!['0', '1', '2', '3', '4', '5', '6', '7', '8', '9', 'a', 'b', 'c', 'd', 'e', 'f'];
    assert(hex_lower(k) == s[k]);
    if k == 0 {
        assert(s[0] == '0');
    } else if k == 1 {
        assert(s[1] == '1');
    } else if k == 2 {
        assert(s[2] == '2');
    } else if k == 3 {
        assert(s[3] == '3');
    } else if k == 4 {
        assert(s[4] == '4');
    } else if k == 5 {
        assert(s[5] == '5');
    } else if k == 6 {
        assert(s[6] == '6');
    } else if k == 7 {
        assert(s[7] == '7');
    } else if k == 8 {
        assert(s[8] == '8');
    } else {
        assert(s[9] == '9');
    }
}

/// Zero-padding a number below `10^w` to `w` digits gives exactly `w`
/// characters.
pub proof fn lemma_dec_pad_len(n: nat, w: nat)
    requires
        w >= 1,
        n < pow10(w),
    ensures
        dec_pad(n, w).len() == w,
{
    lemma_dec_len(n, w);
}

/// Every character of a decimal numeral is a digit.
pub proof fn lemma_dec_digits(n: nat)
    ensures
        forall|i: int| 0 <= i < dec(n).len() ==> '0' <= #[trigger] dec(n)[i] <= '9',
    decreases n,
{
    if n >= 10 {
        lemma_dec_digits(n / 10);
        lemma_hex_digit((n % 10) as int);
        let p = dec(n / 10);
        assert forall|i: int| 0 <= i < dec(n).len() implies '0' <= #[trigger] dec(n)[i] <= '9' by {
            if i < p.len() {
                assert(dec(n)[i] == p[i]);
            }
        }
    } else {
        lemma_hex_digit(n as int);
    }
}

/// `a` comes strictly before `b` in dictionary order: at the first position
/// where they differ, `a` has the smaller character.
pub open spec fn lex_lt(a: Seq<char>, b: Seq<char>) -> bool {
    exists|i: int|
        0 <= i < a.len() && i < b.len() && a.subrange(0, i) == b.subrange(0, i) && #[trigger] a[i]
            < b[i]
}

/// Order decides at the first differing part: a smaller first part of equal
/// length, or an equal first part and a smaller rest.
pub proof fn lemma_lex_concat(a1: Seq<char>, b1: Seq<char>, a2: Seq<char>, b2: Seq<char>)
    requires
        a1.len() == a2.len(),
        lex_lt(a1, a2) || (a1 == a2 && lex_lt(b1, b2)),
    ensures
        lex_lt(a1 + b1, a2 + b2),
{
    if lex_lt(a1, a2) {
        let i = choose|i: int|
            0 <= i < a1.len() && i < a2.len() && a1.subrange(0, i) == a2.subrange(0, i) && #[trigger] a1[i]
                < a2[i];
        assert((a1 + b1).subrange(0, i) =~= a1.subrange(0, i));
        assert((a2 + b2).subrange(0, i) =~= a2.subrange(0, i));
        assert((a1 + b1)[i] == a1[i]);
        assert((a2 + b2)[i] == a2[i]);
    } else {
        let j = choose|j: int|
            0 <= j < b1.len() && j < b2.len() && b1.subrange(0, j) == b2.subrange(0, j) && #[trigger] b1[j]
                < b2[j];
        let i = a1.len() + j;
        assert((a1 + b1).subrange(0, i) =~= a1 + b1.subrange(0, j));
        assert((a2 + b2).subrange(0, i) =~= a2 + b2.subrange(0, j));
        assert((a1 + b1)[i] == b1[j]);
        assert((a2 + b2)[i] == b2[j]);
    }
}

/// Dictionary order never holds both ways.
pub proof fn lemma_lex_lt_not_eq(a: Seq<char>, b: Seq<char>)
    requires
        lex_lt(a, b),
    ensures
        a != b,
{
    let i = choose|i: int|
        0 <= i < a.len() && i < b.len() && a.subrange(0, i) == b.subrange(0, i) && #[trigger] a[i] < b[i];
    if a == b {
        assert(a[i] == b[i]);
    }
}

/// The `w` decimal digits of `n`, most significant first.
pub open spec fn digits_w(n: nat, w: nat) -> Seq<char>
    decreases w,
{
    if w == 0 {
        Seq::empty()
    } else {
        digits_w(n / 10, (w - 1) as nat).push(hex_lower((n % 10) as int))
    }
}

proof fn lemma_digits_w_zero(w: nat)
    ensures
        digits_w(0, w) == Seq::new(w, |i: int| '0'),
    decreases w,
{
    if w > 0 {
        lemma_digits_w_zero((w - 1) as nat);
        lemma_hex_digit(0);
        assert(digits_w(0, w) =~= Seq::new(w, |i: int| '0'));
    }
}

/// Zero-padding to `w` digits is the `w` digits of the number.
pub proof fn lemma_dec_pad_digits(n: nat, w: nat)
    requires
        w >= 1,
        n < pow10(w),
    ensures
        dec_pad(n, w) == digits_w(n, w),
    decreases n,
{
    lemma_dec_len(n, w);
    if n < 10 {
        lemma_digits_w_zero((w - 1) as nat);
        assert(n / 10 == 0);
        assert(dec(n) == seq![hex_lower(n as int)]);
        assert(dec_pad(n, w) =~= digits_w(n, w));
    } else {
        if w == 1 {
            assert(pow10(1) == 10 * pow10(0));
        }
        lemma_dec_pad_digits(n / 10, (w - 1) as nat);
        lemma_dec_len(n / 10, (w - 1) as nat);
        assert(dec(n) == dec(n / 10).push(hex_lower((n % 10) as int)));
        assert(dec_pad(n, w) =~= dec_pad(n / 10, (w - 1) as nat).push(hex_lower((n % 10) as int)));
    }
}

proof fn lemma_digits_w_order(n1: nat, n2: nat, w: nat)
    requires
        n1 < n2 < pow10(w),
    ensures
        lex_lt(digits_w(n1, w), digits_w(n2, w)),
        digits_w(n1, w).len() == w,
        digits_w(n2, w).len() == w,
    decreases w,
{
    if w == 0 {
        assert(pow10(0) == 1);
    } else {
        let p1 = digits_w(n1 / 10, (w - 1) as nat);
        let p2 = digits_w(n2 / 10, (w - 1) as nat);
        lemma_hex_digit((n1 % 10) as int);
        lemma_hex_digit((n2 % 10) as int);
        if n1 / 10 < n2 / 10 {
            lemma_digits_w_order(n1 / 10, n2 / 10, (w - 1) as nat);
            lemma_lex_concat(p1, seq![hex_lower((n1 % 10) as int)], p2, seq![hex_lower((n2 % 10) as int)]);
            assert(digits_w(n1, w) =~= p1 + seq![hex_lower((n1 % 10) as int)]);
            assert(digits_w(n2, w) =~= p2 + seq![hex_lower((n2 % 10) as int)]);
        } else {
            assert(n1 / 10 == n2 / 10);
            assert(n1 % 10 < n2 % 10);
            lemma_digits_w_len(n1 / 10, (w - 1) as nat);
            let i = p1.len() as int;
            assert(digits_w(n1, w).subrange(0, i) =~= p1);
            assert(digits_w(n2, w).subrange(0, i) =~= p2);
            assert(digits_w(n1, w)[i] < digits_w(n2, w)[i]);
        }
        lemma_digits_w_len(n1, w);
        lemma_digits_w_len(n2, w);
    }
}

proof fn lemma_digits_w_len(n: nat, w: nat)
    ensures
        digits_w(n, w).len() == w,
    decreases w,
{
    if w > 0 {
        lemma_digits_w_len(n / 10, (w - 1) as nat);
    }
}

/// Zero-padded numerals of one width sort as their numbers do.
pub proof fn lemma_dec_pad_order(n1: nat, n2: nat, w: nat)
    requires
        w >= 1,
        n1 < n2 < pow10(w),
    ensures
        lex_lt(dec_pad(n1, w), dec_pad(n2, w)),
        dec_pad(n1, w).len() == w,
        dec_pad(n2, w).len() == w,
{
    lemma_dec_pad_digits(n1, w);
    lemma_dec_pad_digits(n2, w);
    lemma_digits_w_order(n1, n2, w);
}

/// The decimal digits of `n`.
pub fn dec_digits(n: u64) -> (v: Vec<char>)
    ensures
        v@ == dec(n as nat),
    decreases n,
{
    if n < 10 {
        let c = hex_lower_char(n as u32);
        let mut v: Vec<char> = Vec::new();
        v.push(c);
        v
    } else {
        let mut v = dec_digits(n / 10);
        let c = hex_lower_char((n % 10) as u32);
        v.push(c);
        v
    }
}

/// Appends the characters of `v` to `s`.
pub fn push_chars(s: &mut String, v: &Vec<char>)
    ensures
        final(s)@ == old(s)@ + v@,
{
    let ghost start = s@;
    let mut i: usize = 0;
    while i < v.len()
        invariant
            i <= v.len(),
            s@ == start + v@.subrange(0, i as int),
        decreases v.len() - i,
    {
        push_char(s, v[i]);
        i = i + 1;
        assert(s@ == start + v@.subrange(0, i as int));
    }
    assert(v@.subrange(0, v.len() as int) == v@);
}

/// Appends `n` in decimal, zero-padded to at least `w` digits.
pub fn push_dec_pad(s: &mut String, n: u64, w: usize)
    ensures
        final(s)@ == old(s)@ + dec_pad(n as nat, w as nat),
{
    let ghost start = s@;
    let digits = dec_digits(n);
    let mut k = digits.len();
    if k < w {
        while k < w
            invariant
                digits.len() <= k <= w,
                s@ == start + Seq::new((k - digits.len()) as nat, |i: int| '0'),
            decreases w - k,
        {
            push_char(s, '0');
            k = k + 1;
            assert(s@ == start + Seq::new((k - digits.len()) as nat, |i: int| '0'));
        }
        push_chars(s, &digits);
        assert(s@ == start + (Seq::new((w - digits.len()) as nat, |i: int| '0') + digits@));
    } else {
        push_chars(s, &digits);
    }
}

/// Appends a signed `n` zero-padded to at least `w` characters, sign
/// included.
pub fn push_signed_dec_pad(s: &mut String, n: i64, w: usize)
    ensures
        final(s)@ == old(s)@ + signed_dec_pad(n as int, w as nat),
{
    if n < 0 {
        push_char(s, '-');
        let mag: u64 = if n == i64::MIN {
            9223372036854775808u64
        } else {
            (-n) as u64
        };
        let w1: usize = if w >= 1 {
            w - 1
        } else {
            0
        };
        push_dec_pad(s, mag, w1);
    } else {
        push_dec_pad(s, n as u64, w);
    }
}

/// Appends `n` in decimal.
pub fn push_dec(s: &mut String, n: u64)
    ensures
        final(s)@ == old(s)@ + dec(n as nat),
{
    let digits = dec_digits(n);
    push_chars(s, &digits);
}


/// White space as `char::is_whitespace` has it: the Unicode `White_Space`
/// property.
pub open spec fn is_white(c: char) -> bool {
    ('\u{9}' <= c && c <= '\u{d}') || c == ' ' || c == '\u{85}' || c == '\u{a0}' || c
        == '\u{1680}' || ('\u{2000}' <= c && c <= '\u{200a}') || c == '\u{2028}' || c == '\u{2029}'
        || c == '\u{202f}' || c == '\u{205f}' || c == '\u{3000}'
}

/// Whether `c` is white space.
pub fn is_white_char(c: char) -> (b: bool)
    ensures
        b == is_white(c),
{
    ('\u{9}' <= c && c <= '\u{d}') || c == ' ' || c == '\u{85}' || c == '\u{a0}' || c
        == '\u{1680}' || ('\u{2000}' <= c && c <= '\u{200a}') || c == '\u{2028}' || c == '\u{2029}'
        || c == '\u{202f}' || c == '\u{205f}' || c == '\u{3000}'
}

/// Count of leading white-space characters.
pub open spec fn lead_white(s: Seq<char>) -> nat
    decreases s.len(),
{
    if s.len() > 0 && is_white(s[0]) {
        1 + lead_white(s.drop_first())
    } else {
        0
    }
}

/// Count of trailing white-space characters.
pub open spec fn trail_white(s: Seq<char>) -> nat
    decreases s.len(),
{
    if s.len() > 0 && is_white(s.last()) {
        1 + trail_white(s.drop_last())
    } else {
        0
    }
}

/// `s` without leading and trailing white space: what `str::trim` gives.
pub open spec fn trimmed(s: Seq<char>) -> Seq<char> {
    let t = s.subrange(lead_white(s) as int, s.len() as int);
    t.subrange(0, t.len() - trail_white(t))
}

proof fn lemma_lead_white(s: Seq<char>, i: int)
    requires
        0 <= i <= s.len(),
        forall|j: int| 0 <= j < i ==> is_white(#[trigger] s[j]),
        i == s.len() || !is_white(s[i]),
    ensures
        lead_white(s) == i,
    decreases i,
{
    if i > 0 {
        lemma_lead_white(s.drop_first(), i - 1);
    }
}

proof fn lemma_trail_white(s: Seq<char>, k: int)
    requires
        0 <= k <= s.len(),
        forall|j: int| s.len() - k <= j < s.len() ==> is_white(#[trigger] s[j]),
        k == s.len() || !is_white(s[s.len() - k - 1]),
    ensures
        trail_white(s) == k,
    decreases k,
{
    if k > 0 {
        lemma_trail_white(s.drop_last(), k - 1);
    }
}

/// `str::trim`: the slice without leading and trailing white space.
pub fn trim(s: &str) -> (r: &str)
    ensures
        r@ == trimmed(s@),
{
    let n = s.unicode_len();
    let mut i: usize = 0;
    while i < n && is_white_char(s.get_char(i))
        invariant
            n == s@.len(),
            i <= n,
            forall|j: int| 0 <= j < i ==> is_white(#[trigger] s@[j]),
        decreases n - i,
    {
        i = i + 1;
    }
    proof {
        lemma_lead_white(s@, i as int);
    }
    let mut k: usize = 0;
    while k < n - i && is_white_char(s.get_char(n - 1 - k))
        invariant
            n == s@.len(),
            i <= n,
            k <= n - i,
            forall|j: int| n - k <= j < n ==> is_white(#[trigger] s@[j]),
        decreases n - i - k,
    {
        k = k + 1;
    }
    let ghost t = s@.subrange(i as int, n as int);
    proof {
        assert forall|j: int| t.len() - k <= j < t.len() implies is_white(#[trigger] t[j]) by {
            assert(t[j] == s@[i + j]);
        }
        if k < t.len() {
            assert(t[t.len() - k - 1] == s@[n - 1 - k]);
        }
        lemma_trail_white(t, k as int);
    }
    let r = s.substring_char(i, n - k);
    assert(r@ =~= t.subrange(0, t.len() - k));
    r
}

/// `s` without trailing white space: what `str::trim_end` gives.
pub open spec fn trimmed_end(s: Seq<char>) -> Seq<char> {
    s.subrange(0, s.len() - trail_white(s))
}

/// `str::trim_end`: the slice without trailing white space.
pub fn trim_end(s: &str) -> (r: &str)
    ensures
        r@ == trimmed_end(s@),
{
    let n = s.unicode_len();
    let mut k: usize = 0;
    while k < n && is_white_char(s.get_char(n - 1 - k))
        invariant
            n == s@.len(),
            k <= n,
            forall|j: int| n - k <= j < n ==> is_white(#[trigger] s@[j]),
        decreases n - k,
    {
        k = k + 1;
    }
    proof {
        lemma_trail_white(s@, k as int);
    }
    s.substring_char(0, n - k)
}

/// Appends `n` spaces.
pub fn push_spaces(s: &mut String, n: usize)
    ensures
        final(s)@ == old(s)@ + Seq::new(n as nat, |_i: int| ' '),
{
    let mut i: usize = 0;
    while i < n
        invariant
            i <= n,
            s@ == old(s)@ + Seq::new(i as nat, |_i: int| ' '),
        decreases n - i,
    {
        push_char(s, ' ');
        i = i + 1;
        assert(s@ =~= old(s)@ + Seq::new(i as nat, |_i: int| ' '));
    }
}

/// The two strings agree but for ASCII case: `str::eq_ignore_ascii_case`.
pub open spec fn eq_ascii_fold(a: Seq<char>, b: Seq<char>) -> bool {
    a.len() == b.len() && forall|i: int| 0 <= i < a.len() ==> lower_ascii(#[trigger] a[i]) == lower_ascii(b[i])
}

/// ASCII lowercase of `c`; every other character unchanged.
pub open spec fn lower_ascii(c: char) -> char {
    if 'A' <= c && c <= 'Z' {
        ((c as u32) + 32) as char
    } else {
        c
    }
}

/// ASCII lowercase of `c`.
pub fn lower_ascii_char(c: char) -> (r: char)
    ensures
        r == lower_ascii(c),
{
    if 'A' <= c && c <= 'Z' {
        let b = c as u8;
        (b + 32) as char
    } else {
        c
    }
}

/// `str::eq_ignore_ascii_case`.
pub fn eq_ignore_ascii_case(a: &str, b: &str) -> (r: bool)
    ensures
        r == eq_ascii_fold(a@, b@),
{
    let n = a.unicode_len();
    if n != b.unicode_len() {
        return false;
    }
    let mut i: usize = 0;
    while i < n
        invariant
            n == a@.len(),
            n == b@.len(),
            i <= n,
            forall|j: int| 0 <= j < i ==> lower_ascii(#[trigger] a@[j]) == lower_ascii(b@[j]),
        decreases n - i,
    {
        if lower_ascii_char(a.get_char(i)) != lower_ascii_char(b.get_char(i)) {
            return false;
        }
        i = i + 1;
    }
    true
}

/// Exact equality of two string slices.
pub fn str_eq(a: &str, b: &str) -> (r: bool)
    ensures
        r == (a@ == b@),
{
    let n = a.unicode_len();
    if n != b.unicode_len() {
        return false;
    }
    let mut i: usize = 0;
    while i < n
        invariant
            n == a@.len(),
            n == b@.len(),
            i <= n,
            forall|j: int| 0 <= j < i ==> a@[j] == b@[j],
        decreases n - i,
    {
        if a.get_char(i) != b.get_char(i) {
            return false;
        }
        i = i + 1;
    }
    assert(a@ =~= b@);
    true
}

} // verus!
