//! Decimal and hexadecimal text of numbers, and the small pieces of text
//! scanning that the configuration needs.

use vstd::prelude::*;
use vstd::string::*;
use vstd::utf8::valid_utf8;

verus! {

/// The character of a digit below sixteen, in lower case.
pub open spec fn digit_char(d: int) -> char {
    if d < 10 {
        ('0' as int + d) as char
    } else {
        ('a' as int + (d - 10)) as char
    }
}

/// The decimal text of a number, without sign or leading zeros.
pub open spec fn decimal_text(n: nat) -> Seq<char>
    decreases n,
{
    if n < 10 {
        seq![digit_char(n as int)]
    } else {
        decimal_text(n / 10).push(digit_char((n % 10) as int))
    }
}

/// The four lower-case hexadecimal digits of a 16-bit number.
pub open spec fn hex4_text(v: u16) -> Seq<char> {
    seq![
        digit_char((v / 4096) as int),
        digit_char(((v / 256) % 16) as int),
        digit_char(((v / 16) % 16) as int),
        digit_char((v % 16) as int),
    ]
}

fn digit_str(d: u64) -> (s: &'static str)
    requires
        d < 16,
    ensures
        s@ == seq![digit_char(d as int)],
{
    let digits = "0123456789abcdef";
    proof {
        reveal_strlit("0123456789abcdef");
    }
    let s = digits.substring_char(d as usize, (d + 1) as usize);
    assert(s@ =~= seq![digit_char(d as int)]);
    s
}

/// Appends the decimal text of `n` to `s`.
pub fn append_decimal(s: &mut String, n: u64)
    ensures
        final(s)@ == old(s)@ + decimal_text(n as nat),
    decreases n,
{
    if n >= 10 {
        append_decimal(s, n / 10);
    }
    s.append(digit_str(n % 10));
    assert(s@ =~= old(s)@ + decimal_text(n as nat));
}

/// Appends the four lower-case hexadecimal digits of `v` to `s`.
pub fn append_hex4(s: &mut String, v: u16)
    ensures
        final(s)@ == old(s)@ + hex4_text(v),
{
    s.append(digit_str((v / 4096) as u64));
    s.append(digit_str(((v / 256) % 16) as u64));
    s.append(digit_str(((v / 16) % 16) as u64));
    s.append(digit_str((v % 16) as u64));
    assert(s@ =~= old(s)@ + hex4_text(v));
}

/// Whether `i` is the place of the first `sep` in `s`.
pub open spec fn is_first_sep(s: Seq<char>, sep: char, i: int) -> bool {
    &&& 0 <= i < s.len()
    &&& s[i] == sep
    &&& forall|j: int| 0 <= j < i ==> s[j] != sep
}

/// The text before the first `sep` of `s`, or all of `s` when it holds none:
/// the first field that splitting `s` at `sep` gives.
pub open spec fn head_field(s: Seq<char>, sep: char) -> Seq<char> {
    if exists|i: int| is_first_sep(s, sep, i) {
        s.take(choose|i: int| is_first_sep(s, sep, i))
    } else {
        s
    }
}

/// The text after the first `sep` of `s`, if `s` holds one.
pub open spec fn after_first_sep(s: Seq<char>, sep: char) -> Option<Seq<char>> {
    if exists|i: int| is_first_sep(s, sep, i) {
        Some(s.skip((choose|i: int| is_first_sep(s, sep, i)) + 1))
    } else {
        None
    }
}

proof fn lemma_first_sep_unique(s: Seq<char>, sep: char, i: int, k: int)
    requires
        is_first_sep(s, sep, i),
        is_first_sep(s, sep, k),
    ensures
        i == k,
{
    if i < k {
        assert(s[i] != sep);
    } else if k < i {
        assert(s[k] != sep);
    }
}

/// Splits `s` at its first `sep`: the text before it, and the text after it
/// if there is one.
pub fn split_first<'a>(s: &'a str, sep: char) -> (r: (&'a str, Option<&'a str>))
    ensures
        r.0@ == head_field(s@, sep),
        r.1 is Some <==> after_first_sep(s@, sep) is Some,
        r.1 matches Some(t) ==> after_first_sep(s@, sep) == Some(t@),
{
    let n = s.unicode_len();
    let mut i: usize = 0;
    while i < n
        invariant
            n == s@.len(),
            i <= n,
            forall|j: int| 0 <= j < i ==> s@[j] != sep,
        decreases n - i,
    {
        if s.get_char(i) == sep {
            proof {
                assert(is_first_sep(s@, sep, i as int));
                let k = choose|k: int| is_first_sep(s@, sep, k);
                lemma_first_sep_unique(s@, sep, i as int, k);
            }
            return (s.substring_char(0, i), Some(s.substring_char(i + 1, n)));
        }
        i = i + 1;
    }
    assert(!exists|k: int| is_first_sep(s@, sep, k));
    assert(s@.subrange(0, n as int) =~= s@);
    (s.substring_char(0, n), None)
}

/// Whether `pat` occurs in `s`.
pub open spec fn text_contains(s: Seq<char>, pat: Seq<char>) -> bool {
    exists|i: int| 0 <= i && i + pat.len() <= s.len() && #[trigger] s.subrange(i, i + pat.len()) == pat
}

/// Whether `pat` occurs in `s`.
pub fn contains_text(s: &str, pat: &str) -> (r: bool)
    ensures
        r == text_contains(s@, pat@),
{
    let n = s.unicode_len();
    let m = pat.unicode_len();
    if m > n {
        return false;
    }
    let mut i: usize = 0;
    while i <= n - m
        invariant
            n == s@.len(),
            m == pat@.len(),
            m <= n,
            i <= n - m + 1,
            forall|k: int| 0 <= k < i ==> #[trigger] s@.subrange(k, k + m) != pat@,
        decreases n + 1 - i,
    {
        let mut j: usize = 0;
        let mut same = true;
        while j < m
            invariant
                n == s@.len(),
                m == pat@.len(),
                i + m <= n,
                j <= m,
                same == (forall|l: int| 0 <= l < j ==> s@[i + l] == pat@[l]),
            decreases m - j,
        {
            if s.get_char(i + j) != pat.get_char(j) {
                same = false;
            }
            j = j + 1;
        }
        if same {
            assert(s@.subrange(i as int, i + m) =~= pat@);
            return true;
        } else {
            assert(s@.subrange(i as int, i + m) != pat@) by {
                let l = choose|l: int| 0 <= l < m && s@[i + l] != pat@[l];
                assert(s@.subrange(i as int, i + m)[l] == s@[i + l]);
            }
        }
        i = i + 1;
    }
    assert forall|k: int| 0 <= k && k + m <= n implies #[trigger] s@.subrange(k, k + m) != pat@ by {
        assert(k < i);
    }
    false
}

/// The number that a string of decimal digits stands for.
pub open spec fn digits_value(s: Seq<char>) -> nat
    decreases s.len(),
{
    if s.len() == 0 {
        0
    } else {
        digits_value(s.drop_last()) * 10 + (s.last() as nat - '0' as nat) as nat
    }
}

/// Whether every character of `s` is a decimal digit.
pub open spec fn all_digits(s: Seq<char>) -> bool {
    forall|i: int| 0 <= i < s.len() ==> '0' <= #[trigger] s[i] <= '9'
}

/// What `str::parse::<u16>` gives for a text: an optional `+`, then one or
/// more decimal digits whose value fits in 16 bits.
pub open spec fn parsed_u16(s: Seq<char>) -> Option<u16> {
    let d = if s.len() > 0 && s[0] == '+' { s.drop_first() } else { s };
    if d.len() > 0 && all_digits(d) && digits_value(d) <= 0xffff {
        Some(digits_value(d) as u16)
    } else {
        None
    }
}

proof fn lemma_digits_value_grows(s: Seq<char>, i: int)
    requires
        all_digits(s),
        0 <= i <= s.len(),
    ensures
        digits_value(s.take(i)) <= digits_value(s),
    decreases s.len() - i,
{
    if i < s.len() {
        lemma_digits_value_grows(s, i + 1);
        assert(s.take(i + 1).drop_last() =~= s.take(i));
        assert('0' <= s[i] <= '9');
    } else {
        assert(s.take(i) =~= s);
    }
}

proof fn lemma_parsed_u16_none(s: Seq<char>, d: Seq<char>)
    requires
        d == (if s.len() > 0 && s[0] == '+' { s.drop_first() } else { s }),
        !(d.len() > 0 && all_digits(d) && digits_value(d) <= 0xffff),
    ensures
        parsed_u16(s) is None,
{
}

/// Reads a text as a 16-bit number, as `str::parse::<u16>` does.
pub fn parse_u16(s: &str) -> (r: Option<u16>)
    ensures
        r == parsed_u16(s@),
{
    let n = s.unicode_len();
    let mut start: usize = 0;
    if n > 0 && s.get_char(0) == '+' {
        start = 1;
    }
    let ghost d = if s@.len() > 0 && s@[0] == '+' { s@.drop_first() } else { s@ };
    assert(d =~= s@.skip(start as int));
    if start >= n {
        return None;
    }
    let mut value: u32 = 0;
    let mut i: usize = start;
    while i < n
        invariant
            n == s@.len(),
            start <= i <= n,
            d == s@.skip(start as int),
            d == (if s@.len() > 0 && s@[0] == '+' { s@.drop_first() } else { s@ }),
            value <= 0xffff,
            all_digits(d.take(i - start)),
            value == digits_value(d.take(i - start)),
        decreases n - i,
    {
        let c = s.get_char(i);
        let ghost k = i - start;
        assert(d[k] == c);
        if c < '0' || c > '9' {
            assert(!('0' <= d[k] <= '9'));
            assert(!all_digits(d));
            proof { lemma_parsed_u16_none(s@, d); }
            return None;
        }
        assert(d.take(k + 1).drop_last() =~= d.take(k));
        assert(d.take(k + 1).last() == c);
        assert(digits_value(d.take(k + 1)) == digits_value(d.take(k)) * 10 + (c as nat - '0' as nat));
        let digit: u32 = (c as u32) - ('0' as u32);
        value = value * 10 + digit;
        i = i + 1;
        assert(all_digits(d.take(i - start))) by {
            assert forall|l: int| 0 <= l < d.take(i - start).len() implies '0' <= #[trigger] d.take(i - start)[l] <= '9' by {
                if l < k {
                    assert(d.take(i - start)[l] == d.take(k)[l]);
                }
            }
        }
        if value > 0xffff {
            proof {
                if all_digits(d) {
                    lemma_digits_value_grows(d, k + 1);
                }
                lemma_parsed_u16_none(s@, d);
            }
            return None;
        }
    }
    assert(d.take(n - start) =~= d);
    Some(value as u16)
}

/// Whether two texts are the same.
pub fn same_text(a: &str, b: &str) -> (r: bool)
    ensures
        r == (a@ == b@),
{
    let n = a.unicode_len();
    if n != b.unicode_len() {
        return false;
    }
    let mut i: usize = 0;
    while i < n
        invariant
            n == a@.len(),
            n == b@.len(),
            i <= n,
            forall|j: int| 0 <= j < i ==> a@[j] == b@[j],
        decreases n - i,
    {
        if a.get_char(i) != b.get_char(i) {
            return false;
        }
        i = i + 1;
    }
    assert(a@ =~= b@);
    true
}

/// `std::str::from_utf8`: the bytes as text when they are valid UTF-8. The
/// error that std gives for invalid bytes is dropped.
#[verifier::external_body]
fn utf8_str(bytes: &[u8]) -> (r: Option<&str>)
    ensures
        r is Some <==> valid_utf8(bytes@),
        r matches Some(t) ==> t.spec_bytes() == bytes@,
{
    std::str::from_utf8(bytes).ok()
}

/// The text whose UTF-8 bytes are `b[from..to]`, if those bytes are valid
/// UTF-8.
pub fn text_from_utf8(b: &[u8], from: usize, to: usize) -> (r: Option<String>)
    requires
        from <= to <= b@.len(),
    ensures
        r is Some <==> valid_utf8(b@.subrange(from as int, to as int)),
        r matches Some(t) ==> vstd::utf8::encode_utf8(t@) == b@.subrange(from as int, to as int),
{
    let mut v: Vec<u8> = Vec::new();
    let mut i: usize = from;
    while i < to
        invariant
            from <= i <= to <= b@.len(),
            v@ == b@.subrange(from as int, i as int),
        decreases to - i,
    {
        v.push(b[i]);
        i = i + 1;
        assert(v@ =~= b@.subrange(from as int, i as int));
    }
    match utf8_str(v.as_slice()) {
        Some(t) => Some(String::from_str(t)),
        None => None,
    }
}


/// The decimal text of a number is a non-empty string of decimal digits
/// that stands for the number, with no leading zero unless the number is
/// zero.
pub proof fn law_decimal_text_reads_back(n: nat)
    ensures
        decimal_text(n).len() > 0,
        all_digits(decimal_text(n)),
        digits_value(decimal_text(n)) == n,
        n > 0 ==> decimal_text(n)[0] != '0',
    decreases n,
{
    let t = decimal_text(n);
    if n >= 10 {
        law_decimal_text_reads_back(n / 10);
        assert(t.drop_last() =~= decimal_text(n / 10));
        assert(t[0] == decimal_text(n / 10)[0]);
        assert(t.last() == digit_char((n % 10) as int));
        assert((t.last() as nat - '0' as nat) as nat == n % 10);
        assert(n == (n / 10) * 10 + n % 10);
        assert(digits_value(t) == digits_value(t.drop_last()) * 10 + (t.last() as nat - '0' as nat) as nat);
    } else {
        assert(t.drop_last() =~= Seq::<char>::empty());
        assert((t.last() as nat - '0' as nat) as nat == n);
        assert(digits_value(t) == digits_value(t.drop_last()) * 10 + (t.last() as nat - '0' as nat) as nat);
    }
}

} // verus!
