//! Small verified text helpers: decimal rendering of integers, and decimal parsing as
//! Rust's integer `parse` does it.

use vstd::prelude::*;
use vstd::string::*;
use vstd::std_specs::iter::IteratorSpec;

verus! {

/// The character of decimal digit `d` (`0 <= d < 10`).
pub open spec fn digit_char(d: nat) -> char {
    (48 + d) as char
}

/// Decimal rendering of `n`, most significant digit first, without leading zeros.
pub open spec fn decimal(n: nat) -> Seq<char>
    decreases n,
{
    if n < 10 {
        seq![digit_char(n)]
    } else {
        decimal(n / 10).push(digit_char(n % 10))
    }
}

fn digit_str(d: u64) -> (s: String)
    requires
        d < 10,
    ensures
        s@ == seq![digit_char(d as nat)],
{
    let digits = "0123456789";
    proof {
        reveal_strlit("0123456789");
    }
    let one = digits.substring_char(d as usize, (d + 1) as usize);
    assert(one@ =~= seq![digit_char(d as nat)]);
    String::from_str(one)
}

/// Decimal text of `n` (what `format!("{}", n)` prints for an unsigned integer).
pub fn u64_to_decimal(n: u64) -> (s: String)
    ensures
        s@ == decimal(n as nat),
    decreases n,
{
    if n < 10 {
        digit_str(n)
    } else {
        let mut s = u64_to_decimal(n / 10);
        let last = digit_str(n % 10);
        s.append(last.as_str());
        assert(s@ =~= decimal(n as nat));
        s
    }
}

/// Decimal rendering of a signed `n`: a `-` before the digits of a negative number.
pub open spec fn signed_decimal(n: int) -> Seq<char> {
    if n < 0 { seq!['-'] + decimal((-n) as nat) } else { decimal(n as nat) }
}

/// Decimal text of `n` (what `format!("{}", n)` prints for a signed integer).
pub fn i64_to_decimal(n: i64) -> (s: String)
    ensures
        s@ == signed_decimal(n as int),
{
    if n < 0 {
        let mag: u64 = if n == i64::MIN { 0x8000_0000_0000_0000u64 } else { (-n) as u64 };
        let mut s = String::from_str("-");
        let digits = u64_to_decimal(mag);
        s.append(digits.as_str());
        proof {
            reveal_strlit("-");
        }
        assert(s@ =~= seq!['-'] + decimal((-(n as int)) as nat));
        s
    } else {
        u64_to_decimal(n as u64)
    }
}

// ---------------------------------------------------------------------------
// Numbers
// ---------------------------------------------------------------------------

pub open spec fn is_digit(c: char) -> bool {
    '0' <= c && c <= '9'
}

/// Value of the decimal digits `s`.
pub open spec fn digits_value(s: Seq<char>) -> nat
    decreases s.len(),
{
    if s.len() == 0 {
        0
    } else {
        digits_value(s.drop_last()) * 10 + ((s.last() as int) - ('0' as int)) as nat
    }
}

/// The sign of a number word and its digits: a leading `+`, or `-` for a signed type,
/// is taken off.
pub open spec fn sign_split(w: Seq<char>, signed: bool) -> (bool, Seq<char>) {
    if w.len() > 0 && w[0] == '+' {
        (false, w.drop_first())
    } else if signed && w.len() > 0 && w[0] == '-' {
        (true, w.drop_first())
    } else {
        (false, w)
    }
}

/// What Rust's integer parsing gives for the word `w` in a type of range `lo..=hi`:
/// an optional `+` (or `-` when the type is signed) and at least one decimal digit,
/// whose value lies in the range.
pub open spec fn parse_number(w: Seq<char>, lo: int, hi: int) -> Option<int> {
    let (neg, digits) = sign_split(w, lo < 0);
    let v: int = if neg { -(digits_value(digits) as int) } else { digits_value(digits) as int };
    if digits.len() > 0 && (forall|i: int| 0 <= i < digits.len() ==> is_digit(#[trigger] digits[i]))
        && lo <= v && v <= hi {
        Some(v)
    } else {
        None
    }
}

proof fn lemma_digits_value_grows(s: Seq<char>, c: char)
    requires
        is_digit(c),
    ensures
        digits_value(s.push(c)) >= digits_value(s),
        digits_value(s.push(c)) == digits_value(s) * 10 + ((c as int) - ('0' as int)),
{
    assert(s.push(c).drop_last() =~= s);
}

/// `parse_number` of `line[a..b]` for a type with range `lo..=hi` (within 64 bits).
pub fn parse_span(line: &Vec<char>, a: usize, b: usize, lo: i128, hi: i128) -> (r: Option<i128>)
    requires
        a <= b <= line@.len(),
        -0x1_0000_0000_0000_0000 < lo <= 0 < hi < 0x1_0000_0000_0000_0000,
    ensures
        match parse_number(line@.subrange(a as int, b as int), lo as int, hi as int) {
            Some(v) => r == Some(v as i128),
            None => r is None,
        },
{
    let ghost w = line@.subrange(a as int, b as int);
    let signed = lo < 0;
    let mut i = a;
    let mut neg = false;
    if a < b && line[a] == '+' {
        i = a + 1;
    } else if signed && a < b && line[a] == '-' {
        i = a + 1;
        neg = true;
    }
    let ghost digits = line@.subrange(i as int, b as int);
    proof {
        if i == a + 1 {
            assert(digits =~= w.drop_first());
        } else {
            assert(digits =~= w);
        }
    }
    if i >= b {
        return None;
    }
    // The magnitude may reach |lo| for a negative number, hi otherwise.
    let bound: i128 = if neg { -lo } else { hi };
    let mut acc: i128 = 0;
    let mut j = i;
    while j < b
        invariant
            a <= i <= j <= b <= line@.len(),
            w == line@.subrange(a as int, b as int),
            digits == line@.subrange(i as int, b as int),
            sign_split(w, lo < 0) == (neg, digits),
            -0x1_0000_0000_0000_0000 < lo <= 0 < hi < 0x1_0000_0000_0000_0000,
            bound == if neg { -lo } else { hi as int },
            digits.len() > 0,
            0 <= bound < 0x1_0000_0000_0000_0000,
            forall|k: int| 0 <= k < j - i ==> is_digit(#[trigger] digits[k]),
            acc == digits_value(line@.subrange(i as int, j as int)),
            acc <= bound,
        decreases b - j,
    {
        let c = line[j];
        proof {
            assert(line@.subrange(i as int, j + 1) =~= line@.subrange(i as int, j as int).push(c));
            assert(digits[j - i] == c);
        }
        if !('0' <= c && c <= '9') {
            proof {
                assert(!is_digit(digits[j - i]));
            }
            return None;
        }
        proof {
            lemma_digits_value_grows(line@.subrange(i as int, j as int), c);
        }
        let d = (c as u32 - '0' as u32) as i128;
        acc = acc * 10 + d;
        if acc > bound {
            proof {
                if forall|k: int| 0 <= k < digits.len() ==> is_digit(#[trigger] digits[k]) {
                    lemma_digits_value_monotone(line@.subrange(i as int, j + 1), digits);
                }
            }
            return None;
        }
        j = j + 1;
    }
    proof {
        assert(line@.subrange(i as int, j as int) =~= digits);
    }
    if neg {
        Some(-acc)
    } else {
        Some(acc)
    }
}

/// Appending digits never lowers the value.
proof fn lemma_digits_value_monotone(p: Seq<char>, s: Seq<char>)
    requires
        p.len() <= s.len(),
        p =~= s.subrange(0, p.len() as int),
        forall|k: int| 0 <= k < s.len() ==> is_digit(#[trigger] s[k]),
    ensures
        digits_value(p) <= digits_value(s),
    decreases s.len() - p.len(),
{
    if p.len() < s.len() {
        let q = s.subrange(0, p.len() as int + 1);
        assert(q.drop_last() =~= p);
        assert(q.last() == s[p.len() as int]);
        lemma_digits_value_grows(p, q.last());
        lemma_digits_value_monotone(q, s);
    } else {
        assert(p =~= s);
    }
}

/// `parse_number` of `s` for `i32`, as `str::parse::<i32>` gives it.
pub fn parse_i32(s: &str) -> (r: Option<i32>)
    ensures
        match parse_number(s@, i32::MIN as int, i32::MAX as int) {
            Some(v) => r == Some(v as i32),
            None => r is None,
        },
{
    let cs = chars_of(s);
    let n = cs.len();
    proof {
        assert(cs@.subrange(0, n as int) =~= cs@);
    }
    match parse_span(&cs, 0, n, -0x8000_0000, 0x7fff_ffff) {
        Some(v) => Some(v as i32),
        None => None,
    }
}

// ---------------------------------------------------------------------------
// Characters
// ---------------------------------------------------------------------------

/// The characters of `s`.
pub fn chars_of(s: &str) -> (v: Vec<char>)
    ensures
        v@ == s@,
{
    let mut v: Vec<char> = Vec::new();
    proof {
        vstd::string::axiom_spec_iter(s);
    }
    for c in it: s.chars()
        invariant
            it.seq() == s@,
            v@ == it.seq().subrange(0, it.index() as int),
    {
        v.push(c);
    }
    v
}

// ---------------------------------------------------------------------------
// Comparing and lower-casing
// ---------------------------------------------------------------------------

/// Whether `line[a..b]` is the text `lit`.
pub fn span_is(line: &Vec<char>, a: usize, b: usize, lit: &str) -> (r: bool)
    requires
        a <= b <= line@.len(),
    ensures
        r == (line@.subrange(a as int, b as int) == lit@),
{
    let n = lit.unicode_len();
    if b - a != n {
        return false;
    }
    let mut k: usize = 0;
    while k < n
        invariant
            n == lit@.len(),
            b - a == n,
            a <= b <= line@.len(),
            k <= n,
            forall|t: int| 0 <= t < k ==> line@[a + t] == lit@[t],
        decreases n - k,
    {
        if line[a + k] != lit.get_char(k) {
            proof {
                assert(line@.subrange(a as int, b as int)[k as int] != lit@[k as int]);
            }
            return false;
        }
        k = k + 1;
    }
    assert(line@.subrange(a as int, b as int) =~= lit@);
    true
}

/// ASCII letters in lower case, other characters as they are.
pub open spec fn lower_char(c: char) -> char {
    if 'A' <= c && c <= 'Z' {
        ((c as int) + 32) as char
    } else {
        c
    }
}

/// `s` with ASCII letters in lower case, as `str::to_ascii_lowercase` gives it.
pub open spec fn ascii_lower(s: Seq<char>) -> Seq<char> {
    s.map_values(|c: char| lower_char(c))
}

/// `ascii_lower` of `s` as characters.
pub fn lower_chars(s: &str) -> (v: Vec<char>)
    ensures
        v@ == ascii_lower(s@),
{
    let cs = chars_of(s);
    let mut v: Vec<char> = Vec::new();
    let mut i: usize = 0;
    while i < cs.len()
        invariant
            cs@ == s@,
            i <= cs@.len(),
            v@ == ascii_lower(cs@.subrange(0, i as int)),
        decreases cs@.len() - i,
    {
        let c = cs[i];
        let l = if 'A' <= c && c <= 'Z' {
            ((c as u32) + 32) as u8 as char
        } else {
            c
        };
        proof {
            assert(l == lower_char(c)) by {
                if 'A' <= c && c <= 'Z' {
                    assert(((c as u32) + 32) as u8 as char == ((c as int) + 32) as char);
                }
            }
        }
        v.push(l);
        i = i + 1;
        assert(v@ =~= ascii_lower(cs@.subrange(0, i as int)));
    }
    assert(cs@.subrange(0, i as int) =~= cs@);
    v
}

/// `ascii_lower` of `s` as text.
pub fn lower_string(s: &str) -> (r: String)
    ensures
        r@ == ascii_lower(s@),
{
    let alphabet = "abcdefghijklmnopqrstuvwxyz";
    proof {
        reveal_strlit("abcdefghijklmnopqrstuvwxyz");
    }
    let n = s.unicode_len();
    let mut r = String::new();
    let mut i: usize = 0;
    while i < n
        invariant
            n == s@.len(),
            i <= n,
            alphabet@ == "abcdefghijklmnopqrstuvwxyz"@,
            alphabet@.len() == 26,
            forall|k: int| 0 <= k < 26 ==> alphabet@[k] == ((('a' as int) + k) as char),
            r@ == ascii_lower(s@.subrange(0, i as int)),
        decreases n - i,
    {
        let c = s.get_char(i);
        let piece = if 'A' <= c && c <= 'Z' {
            let k = (c as u32 - 'A' as u32) as usize;
            let p = alphabet.substring_char(k, k + 1);
            proof {
                assert(p@ =~= seq![alphabet@[k as int]]);
                assert(alphabet@[k as int] == lower_char(c));
            }
            p
        } else {
            let p = s.substring_char(i, i + 1);
            proof {
                assert(p@ =~= seq![s@[i as int]]);
            }
            p
        };
        r.append(piece);
        i = i + 1;
        assert(r@ =~= ascii_lower(s@.subrange(0, i as int)));
    }
    assert(s@.subrange(0, i as int) =~= s@);
    r
}

/// Whether the characters `v` are the text `lit`.
pub fn chars_are(v: &Vec<char>, lit: &str) -> (r: bool)
    ensures
        r == (v@ == lit@),
{
    let n = v.len();
    let r = span_is(v, 0, n, lit);
    assert(v@.subrange(0, n as int) =~= v@);
    r
}

/// Whether `a` and `b` are equal up to ASCII letter case.
pub fn eq_ignore_ascii_case(a: &str, b: &str) -> (r: bool)
    ensures
        r == (ascii_lower(a@) == ascii_lower(b@)),
{
    let la = lower_chars(a);
    let lb = lower_chars(b);
    if la.len() != lb.len() {
        assert(la@.len() != lb@.len());
        return false;
    }
    let mut i: usize = 0;
    while i < la.len()
        invariant
            la@ == ascii_lower(a@),
            lb@ == ascii_lower(b@),
            la@.len() == lb@.len(),
            i <= la@.len(),
            forall|k: int| 0 <= k < i ==> la@[k] == lb@[k],
        decreases la@.len() - i,
    {
        if la[i] != lb[i] {
            assert(la@[i as int] != lb@[i as int]);
            return false;
        }
        i = i + 1;
    }
    assert(la@ =~= lb@);
    true
}

} // verus!
