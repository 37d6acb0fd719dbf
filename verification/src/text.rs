//! Character-level text helpers: decimal and hexadecimal rendering, substring
//! search and case mapping.

use vstd::prelude::*;
use vstd::string::StrSliceExecFns;

verus! {

/// The character of a decimal digit `d` (`0 <= d < 10`).
pub open spec fn dec_char(d: nat) -> char {
    (48 + d) as char
}

/// The character of an upper-case hexadecimal digit `d` (`0 <= d < 16`).
pub open spec fn hex_char(d: nat) -> char {
    if d < 10 {
        (48 + d) as char
    } else {
        (55 + d) as char
    }
}

/// The decimal rendering of `n`, without sign or leading zeros.
pub open spec fn decimal(n: nat) -> Seq<char>
    decreases n,
{
    if n < 10 {
        seq![dec_char(n)]
    } else {
        decimal(n / 10).push(dec_char(n % 10))
    }
}

/// The two upper-case hexadecimal digits of a byte.
pub open spec fn hex2(b: u8) -> Seq<char> {
    seq![hex_char((b / 16) as nat), hex_char((b % 16) as nat)]
}

/// Appends one character to a string.
#[verifier::external_body]
pub(crate) fn push_char(s: &mut String, c: char)
    ensures
        final(s)@ == old(s)@.push(c),
{
    s.push(c);
}

fn dec_digit(d: u128) -> (c: char)
    requires
        d < 10,
    ensures
        c == dec_char(d as nat),
{
    let b: u8 = 48u8 + (d as u8);
    b as char
}

fn hex_digit(d: u8) -> (c: char)
    requires
        d < 16,
    ensures
        c == hex_char(d as nat),
{
    if d < 10 {
        (48u8 + d) as char
    } else {
        (55u8 + d) as char
    }
}

/// Appends the decimal rendering of `n`.
pub fn push_decimal(s: &mut String, n: u128)
    ensures
        final(s)@ == old(s)@ + decimal(n as nat),
    decreases n,
{
    if n >= 10 {
        push_decimal(s, n / 10);
        push_char(s, dec_digit(n % 10));
        assert(decimal(n as nat) == decimal((n / 10) as nat).push(dec_char((n % 10) as nat)));
    } else {
        push_char(s, dec_digit(n));
    }
}

/// Appends the two upper-case hexadecimal digits of `b`.
pub fn push_hex2(s: &mut String, b: u8)
    ensures
        final(s)@ == old(s)@ + hex2(b),
{
    push_char(s, hex_digit(b / 16));
    push_char(s, hex_digit(b % 16));
}

/// The characters of a string, in order.
pub fn chars_of(s: &str) -> (v: Vec<char>)
    ensures
        v@ == s@,
{
    let n = s.unicode_len();
    let mut v: Vec<char> = Vec::new();
    let mut i: usize = 0;
    while i < n
        invariant
            n == s@.len(),
            i <= n,
            v@ == s@.take(i as int),
        decreases n - i,
    {
        v.push(s.get_char(i));
        i = i + 1;
        proof {
            assert(v@ =~= s@.take(i as int));
        }
    }
    assert(s@.take(n as int) =~= s@);
    v
}

/// The Unicode upper-case mapping of a text, as `str::to_uppercase` computes it.
pub uninterp spec fn upper_case(text: Seq<char>) -> Seq<char>;

/// The Unicode lower-case mapping of a text, as `str::to_lowercase` computes it.
pub uninterp spec fn lower_case(text: Seq<char>) -> Seq<char>;

/// Every character of the text is ASCII.
pub open spec fn is_ascii_text(text: Seq<char>) -> bool {
    forall|i: int| 0 <= i < text.len() ==> (#[trigger] text[i]) as int <= 0x7F
}

/// The upper-case form of an ASCII character: `a`-`z` become `A`-`Z`.
pub open spec fn ascii_upper_char(c: char) -> char {
    if 'a' <= c <= 'z' {
        (c as int - 32) as char
    } else {
        c
    }
}

/// The lower-case form of an ASCII character: `A`-`Z` become `a`-`z`.
pub open spec fn ascii_lower_char(c: char) -> char {
    if 'A' <= c <= 'Z' {
        (c as int + 32) as char
    } else {
        c
    }
}

/// The text upper-cased: character by character on ASCII text, by the
/// Unicode mapping [`upper_case`] otherwise.
pub open spec fn upper_text(text: Seq<char>) -> Seq<char> {
    if is_ascii_text(text) {
        text.map_values(|c: char| ascii_upper_char(c))
    } else {
        upper_case(text)
    }
}

/// The text lower-cased: character by character on ASCII text, by the
/// Unicode mapping [`lower_case`] otherwise.
pub open spec fn lower_text(text: Seq<char>) -> Seq<char> {
    if is_ascii_text(text) {
        text.map_values(|c: char| ascii_lower_char(c))
    } else {
        lower_case(text)
    }
}

/// `str::to_uppercase` of std. Its result is taken to be a function of the
/// text alone, named [`upper_case`]. Of the Unicode case mapping only its
/// ASCII part is stated: the Unicode character data maps `a`-`z`
/// (U+0061-U+007A) to `A`-`Z`, one character each, and gives the other ASCII
/// characters no upper-case form, so an ASCII text is upper-cased character
/// by character.
#[verifier::external_body]
pub(crate) fn to_uppercase(s: &str) -> (r: String)
    ensures
        r@ == upper_case(s@),
        is_ascii_text(s@) ==> r@ == s@.map_values(|c: char| ascii_upper_char(c)),
{
    s.to_uppercase()
}

/// `str::to_lowercase` of std. Its result is taken to be a function of the
/// text alone, named [`lower_case`]. Of the Unicode case mapping only its
/// ASCII part is stated: the Unicode character data maps `A`-`Z`
/// (U+0041-U+005A) to `a`-`z`, one character each, and gives the other ASCII
/// characters no lower-case form, so an ASCII text is lower-cased character
/// by character.
#[verifier::external_body]
pub(crate) fn to_lowercase(s: &str) -> (r: String)
    ensures
        r@ == lower_case(s@),
        is_ascii_text(s@) ==> r@ == s@.map_values(|c: char| ascii_lower_char(c)),
{
    s.to_lowercase()
}

/// `needle` occurs in `hay` at position `i`.
pub open spec fn occurs_at(hay: Seq<char>, needle: Seq<char>, i: int) -> bool {
    0 <= i && i + needle.len() <= hay.len() && hay.subrange(i, i + needle.len()) == needle
}

/// `needle` occurs somewhere in `hay` (the empty needle occurs everywhere).
pub open spec fn contains_text(hay: Seq<char>, needle: Seq<char>) -> bool {
    exists|i: int| occurs_at(hay, needle, i)
}

/// The first position at which `needle` occurs in `hay`.
pub open spec fn first_occurrence(hay: Seq<char>, needle: Seq<char>) -> Option<int> {
    if contains_text(hay, needle) {
        Some(
            choose|i: int|
                occurs_at(hay, needle, i) && forall|j: int| 0 <= j < i ==> !occurs_at(hay, needle, j),
        )
    } else {
        None
    }
}

/// The first position satisfying `occurs_at` is the first occurrence.
pub proof fn lemma_first_occurrence(hay: Seq<char>, needle: Seq<char>, i: int)
    requires
        occurs_at(hay, needle, i),
        forall|j: int| 0 <= j < i ==> !occurs_at(hay, needle, j),
    ensures
        first_occurrence(hay, needle) == Some(i),
{
    assert(contains_text(hay, needle));
    let w = choose|w: int|
        occurs_at(hay, needle, w) && forall|j: int| 0 <= j < w ==> !occurs_at(hay, needle, j);
    if w < i {
        assert(!occurs_at(hay, needle, w));
    } else if w > i {
        assert(!occurs_at(hay, needle, i));
    }
}

fn matches_at(hay: &Vec<char>, needle: &Vec<char>, i: usize) -> (b: bool)
    requires
        i + needle@.len() <= hay@.len(),
    ensures
        b == occurs_at(hay@, needle@, i as int),
{
    let hl = hay.len();
    let mut k: usize = 0;
    while k < needle.len()
        invariant
            hl == hay@.len(),
            i + needle@.len() <= hay@.len(),
            k <= needle@.len(),
            forall|t: int| 0 <= t < k ==> hay@[i + t] == needle@[t],
        decreases needle@.len() - k,
    {
        if hay[i + k] != needle[k] {
            assert(hay@.subrange(i as int, i + needle@.len())[k as int] != needle@[k as int]);
            return false;
        }
        k = k + 1;
    }
    assert(hay@.subrange(i as int, i + needle@.len()) =~= needle@);
    true
}

/// The first position at which `needle` occurs in `hay`.
pub fn find_text(hay: &Vec<char>, needle: &Vec<char>) -> (r: Option<usize>)
    ensures
        match r {
            Some(i) => occurs_at(hay@, needle@, i as int) && forall|j: int|
                0 <= j < i ==> !occurs_at(hay@, needle@, j),
            None => forall|j: int| !occurs_at(hay@, needle@, j),
        },
{
    if needle.len() > hay.len() {
        assert forall|i: int| !occurs_at(hay@, needle@, i) by {}
        return None;
    }
    let last = hay.len() - needle.len();
    let mut i: usize = 0;
    loop
        invariant
            last == hay@.len() - needle@.len(),
            i <= last,
            forall|j: int| 0 <= j < i ==> !occurs_at(hay@, needle@, j),
        ensures
            forall|j: int| 0 <= j <= last ==> !occurs_at(hay@, needle@, j),
        decreases last - i,
    {
        if matches_at(hay, needle, i) {
            return Some(i);
        }
        if i == last {
            break;
        }
        i = i + 1;
    }
    assert forall|j: int| !occurs_at(hay@, needle@, j) by {
        if 0 <= j <= last {
        }
    }
    None
}

/// Whether `needle` occurs in `hay`.
pub fn contains(hay: &Vec<char>, needle: &Vec<char>) -> (b: bool)
    ensures
        b == contains_text(hay@, needle@),
{
    match find_text(hay, needle) {
        Some(i) => true,
        None => false,
    }
}

/// `c` is a digit in base `radix` (10 or 16; letters in either case).
pub open spec fn is_digit(c: char, radix: nat) -> bool {
    if radix == 16 {
        ('0' <= c <= '9') || ('a' <= c <= 'f') || ('A' <= c <= 'F')
    } else {
        '0' <= c <= '9'
    }
}

/// The value of a digit character.
pub open spec fn digit_value(c: char) -> nat {
    if '0' <= c <= '9' {
        (c as int - 48) as nat
    } else if 'a' <= c <= 'f' {
        (c as int - 87) as nat
    } else {
        (c as int - 55) as nat
    }
}

/// The value of a sequence of digits, most significant first.
pub open spec fn digits_value(d: Seq<char>, radix: nat) -> nat
    decreases d.len(),
{
    if d.len() == 0 {
        0
    } else {
        digits_value(d.drop_last(), radix) * radix + digit_value(d.last())
    }
}

/// The digits of an unsigned number: the text without one leading `+`.
pub open spec fn unsigned_digits(s: Seq<char>) -> Seq<char> {
    if s.len() > 0 && s[0] == '+' {
        s.drop_first()
    } else {
        s
    }
}

/// An unsigned number in base `radix` as `from_str_radix` reads it: an
/// optional `+`, then one or more digits, with a value of at most `max`.
pub open spec fn parse_unsigned(s: Seq<char>, radix: nat, max: nat) -> Option<nat> {
    let d = unsigned_digits(s);
    if d.len() > 0 && (forall|i: int| 0 <= i < d.len() ==> is_digit(#[trigger] d[i], radix))
        && digits_value(d, radix) <= max {
        Some(digits_value(d, radix))
    } else {
        None
    }
}

proof fn lemma_saturate_step(v: nat, acc: nat, radix: nat, dv: nat, cap: nat)
    requires
        radix >= 1,
        acc == (if v < cap {
            v
        } else {
            cap
        }),
    ensures
        (if acc * radix + dv < cap {
            acc * radix + dv
        } else {
            cap
        }) == (if v * radix + dv < cap {
            v * radix + dv
        } else {
            cap
        }),
{
    if v >= cap {
        assert(v * radix >= v) by (nonlinear_arith)
            requires
                radix >= 1,
        ;
        assert(cap * radix >= cap) by (nonlinear_arith)
            requires
                radix >= 1,
        ;
    }
}

/// Read an unsigned number in base 10 or 16 the way `from_str_radix` does.
pub(crate) fn parse_unsigned_chars(s: &Vec<char>, radix: u32, max: u64) -> (r: Option<u64>)
    requires
        radix == 10 || radix == 16,
    ensures
        match parse_unsigned(s@, radix as nat, max as nat) {
            Some(v) => r == Some(v as u64),
            None => r is None,
        },
{
    let ghost d = unsigned_digits(s@);
    let start: usize = if s.len() > 0 && s[0] == '+' {
        1
    } else {
        0
    };
    if start >= s.len() {
        return None;
    }
    let cap: u128 = max as u128 + 1;
    let mut acc: u128 = 0;
    let mut i: usize = start;
    while i < s.len()
        invariant
            radix == 10 || radix == 16,
            start <= i <= s@.len(),
            start == 0 || start == 1,
            d == s@.subrange(start as int, s@.len() as int),
            d == unsigned_digits(s@),
            cap == max + 1,
            acc <= cap,
            forall|k: int| start <= k < i ==> is_digit(#[trigger] s@[k], radix as nat),
            acc == (if digits_value(d.take(i - start), radix as nat) < cap {
                digits_value(d.take(i - start), radix as nat)
            } else {
                cap as nat
            }),
        decreases s@.len() - i,
    {
        let c = s[i];
        let dv: u128 = if '0' <= c && c <= '9' {
            (c as u32 - 48) as u128
        } else if radix == 16 && 'a' <= c && c <= 'f' {
            (c as u32 - 87) as u128
        } else if radix == 16 && 'A' <= c && c <= 'F' {
            (c as u32 - 55) as u128
        } else {
            proof {
                assert(d[i - start] == c);
                assert(!is_digit(c, radix as nat));
                assert(d == unsigned_digits(s@));
                assert(parse_unsigned(s@, radix as nat, max as nat) is None);
            }
            return None;
        };
        proof {
            let k = i - start;
            assert(d.take(k + 1).drop_last() =~= d.take(k));
            assert(d.take(k + 1).last() == c);
            lemma_saturate_step(
                digits_value(d.take(k), radix as nat),
                acc as nat,
                radix as nat,
                dv as nat,
                cap as nat,
            );
        }
        assert(acc * (radix as u128) + dv < 0x1_0000_0000_0000_0000_00) by (nonlinear_arith)
            requires
                acc <= cap,
                cap <= 0x1_0000_0000_0000_0000,
                radix <= 16,
                dv < 16,
        ;
        let next = acc * (radix as u128) + dv;
        acc = if next < cap {
            next
        } else {
            cap
        };
        i = i + 1;
    }
    proof {
        assert(d.take(d.len() as int) =~= d);
        assert forall|k: int| 0 <= k < d.len() implies is_digit(#[trigger] d[k], radix as nat) by {
            assert(d[k] == s@[k + start]);
        }
    }
    if acc < cap {
        Some(acc as u64)
    } else {
        None
    }
}

/// Decimal rendering and reading agree: the rendering of `n` is a non-empty
/// run of digits, without sign, whose value is `n`.
pub proof fn decimal_reads_back(n: nat)
    ensures
        decimal(n).len() > 0,
        decimal(n)[0] != '+',
        forall|i: int| 0 <= i < decimal(n).len() ==> is_digit(#[trigger] decimal(n)[i], 10),
        digits_value(decimal(n), 10) == n,
        unsigned_digits(decimal(n)) == decimal(n),
    decreases n,
{
    if n >= 10 {
        decimal_reads_back(n / 10);
        let d = decimal(n);
        assert(d.drop_last() =~= decimal(n / 10));
        assert(d.last() == dec_char(n % 10));
        assert(digit_value(dec_char(n % 10)) == n % 10);
        assert(digits_value(d, 10) == digits_value(d.drop_last(), 10) * 10 + digit_value(d.last()));
        assert((n / 10) * 10 + n % 10 == n);
        assert forall|i: int| 0 <= i < d.len() implies is_digit(#[trigger] d[i], 10) by {
            if i < d.len() - 1 {
                assert(d[i] == decimal(n / 10)[i]);
            }
        }
        assert(d[0] == decimal(n / 10)[0]);
    } else {
        assert(digit_value(dec_char(n)) == n);
        assert(decimal(n).drop_last() =~= Seq::<char>::empty());
        assert(digits_value(decimal(n), 10) == digits_value(decimal(n).drop_last(), 10) * 10
            + digit_value(decimal(n).last()));
        assert(digits_value(Seq::<char>::empty(), 10) == 0);
    }
}

/// Every number up to `max` that is rendered in decimal reads back as itself.
pub proof fn decimal_parses_back(n: nat, max: nat)
    requires
        n <= max,
    ensures
        parse_unsigned(decimal(n), 10, max) == Some(n),
{
    decimal_reads_back(n);
}

/// The value of a prefix of a run of digits is at most the value of the run.
pub proof fn prefix_value_bounded(d: Seq<char>, radix: nat, j: int)
    requires
        radix >= 1,
        0 <= j <= d.len(),
    ensures
        digits_value(d.take(j), radix) <= digits_value(d, radix),
    decreases d.len(),
{
    if j < d.len() {
        prefix_value_bounded(d.drop_last(), radix, j);
        assert(d.drop_last().take(j) =~= d.take(j));
        assert(digits_value(d.drop_last(), radix) * radix >= digits_value(d.drop_last(), radix))
            by (nonlinear_arith)
            requires
                radix >= 1,
        ;
    } else {
        assert(d.take(j) =~= d);
    }
}

} // verus!
