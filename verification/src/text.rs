//! Small verified text utilities shared by the configuration parser and the
//! logging bootstrap: string equality, character scanning, whitespace
//! trimming and decimal integer parsing.

use vstd::prelude::*;

verus! {

/// Equality of two string slices, decided character by character.
pub fn str_eq(a: &str, b: &str) -> (r: bool)
    ensures
        r == (a@ == b@),
{
    let alen = a.unicode_len();
    let blen = b.unicode_len();
    if alen != blen {
        proof {
            assert(a@ != b@) by {
                assert(a@.len() != b@.len());
            }
        }
        return false;
    }
    let mut i: usize = 0;
    while i < alen
        invariant
            alen == a@.len(),
            alen == b@.len(),
            i <= alen,
            forall|j: int| 0 <= j < i ==> a@[j] == b@[j],
        decreases alen - i,
    {
        if a.get_char(i) != b.get_char(i) {
            return false;
        }
        i = i + 1;
    }
    proof {
        assert(a@ =~= b@);
    }
    true
}

/// Whitespace inside a configuration line: blanks, tabs, and the carriage
/// return left behind when a CRLF line ending is split at the line feed.
pub open spec fn is_space(c: char) -> bool {
    c == ' ' || c == '\t' || c == '\r'
}

/// Index of the first occurrence of `c` in `s`, or `s.len()` if absent.
pub open spec fn first_at(s: Seq<char>, c: char) -> int
    decreases s.len(),
{
    if s.len() == 0 {
        0
    } else if s[0] == c {
        0
    } else {
        1 + first_at(s.drop_first(), c)
    }
}

pub proof fn lemma_first_at(s: Seq<char>, c: char, i: int)
    requires
        0 <= i <= s.len(),
        forall|j: int| 0 <= j < i ==> s[j] != c,
        i < s.len() ==> s[i] == c,
    ensures
        first_at(s, c) == i,
    decreases i,
{
    if s.len() == 0 {
    } else if i == 0 {
    } else {
        lemma_first_at(s.drop_first(), c, i - 1);
    }
}

/// The end of `s` once trailing whitespace is dropped.
pub open spec fn trim_end_idx(s: Seq<char>) -> int
    decreases s.len(),
{
    if s.len() == 0 {
        0
    } else if is_space(s.last()) {
        trim_end_idx(s.drop_last())
    } else {
        s.len() as int
    }
}

pub proof fn lemma_trim_end_idx(s: Seq<char>, i: int)
    requires
        0 <= i <= s.len(),
        forall|j: int| i <= j < s.len() ==> is_space(s[j]),
        i > 0 ==> !is_space(s[i - 1]),
    ensures
        trim_end_idx(s) == i,
    decreases s.len(),
{
    if s.len() == 0 {
    } else if i == s.len() {
    } else {
        assert(is_space(s.last()));
        lemma_trim_end_idx(s.drop_last(), i);
    }
}

/// The start of `s` once leading whitespace is dropped.
pub open spec fn trim_start_idx(s: Seq<char>) -> int
    decreases s.len(),
{
    if s.len() == 0 {
        0
    } else if is_space(s[0]) {
        1 + trim_start_idx(s.drop_first())
    } else {
        0
    }
}

pub proof fn lemma_trim_start_idx(s: Seq<char>, i: int)
    requires
        0 <= i <= s.len(),
        forall|j: int| 0 <= j < i ==> is_space(s[j]),
        i < s.len() ==> !is_space(s[i]),
    ensures
        trim_start_idx(s) == i,
    decreases i,
{
    if s.len() == 0 {
    } else if i == 0 {
    } else {
        lemma_trim_start_idx(s.drop_first(), i - 1);
    }
}

/// `s` with leading and trailing whitespace removed.
pub open spec fn trim(s: Seq<char>) -> Seq<char> {
    let b = trim_end_idx(s);
    let a = trim_start_idx(s.take(b));
    s.subrange(a, b)
}

/// Whether the character of `s` at index `i` is whitespace.
fn space_at(s: &str, i: usize) -> (r: bool)
    requires
        i < s@.len(),
    ensures
        r == is_space(s@[i as int]),
{
    let c = s.get_char(i);
    c == ' ' || c == '\t' || c == '\r'
}

/// A sequence that neither starts nor ends with whitespace is its own trim.
pub proof fn lemma_trim_id(s: Seq<char>)
    requires
        s.len() == 0 || (!is_space(s[0]) && !is_space(s.last())),
    ensures
        trim(s) == s,
{
    if s.len() == 0 {
        assert(trim(s) =~= s);
    } else {
        assert(trim_end_idx(s) == s.len());
        assert(s.take(s.len() as int) =~= s);
        assert(trim_start_idx(s) == 0);
        assert(trim(s) =~= s);
    }
}

/// Computes the trimmed slice of `s`, matching the `trim` specification.
pub fn trim_str<'a>(s: &'a str) -> (t: &'a str)
    ensures
        t@ == trim(s@),
{
    let n = s.unicode_len();
    let mut b: usize = n;
    while b > 0 && space_at(s, b - 1)
        invariant
            n == s@.len(),
            b <= n,
            forall|j: int| b <= j < n ==> is_space(s@[j]),
        decreases b,
    {
        b = b - 1;
    }
    proof {
        lemma_trim_end_idx(s@, b as int);
    }
    let mut a: usize = 0;
    while a < b && space_at(s, a)
        invariant
            n == s@.len(),
            b <= n,
            a <= b,
            forall|j: int| 0 <= j < a ==> is_space(s@[j]),
        decreases b - a,
    {
        a = a + 1;
    }
    proof {
        assert forall|j: int| 0 <= j < a implies is_space(s@.take(b as int)[j]) by {
            assert(s@.take(b as int)[j] == s@[j]);
        }
        if a < b {
            assert(s@.take(b as int)[a as int] == s@[a as int]);
        }
        lemma_trim_start_idx(s@.take(b as int), a as int);
    }
    let t = s.substring_char(a, b);
    proof {
        assert(t@ =~= trim(s@));
    }
    t
}

/// Index of the first occurrence of `c` in `s`, or the length if absent.
pub fn find_char(s: &str, c: char) -> (i: usize)
    ensures
        i == first_at(s@, c),
        0 <= i <= s@.len(),
        i < s@.len() ==> s@[i as int] == c,
        forall|j: int| 0 <= j < i ==> s@[j] != c,
{
    let n = s.unicode_len();
    let mut i: usize = 0;
    while i < n
        invariant
            n == s@.len(),
            i <= n,
            forall|j: int| 0 <= j < i ==> s@[j] != c,
        decreases n - i,
    {
        if s.get_char(i) == c {
            proof {
                lemma_first_at(s@, c, i as int);
            }
            return i;
        }
        i = i + 1;
    }
    proof {
        lemma_first_at(s@, c, n as int);
    }
    n
}

/// A decimal digit.
pub open spec fn is_digit(c: char) -> bool {
    48 <= c as int <= 57
}

pub open spec fn all_digits(s: Seq<char>) -> bool {
    forall|j: int| 0 <= j < s.len() ==> is_digit(#[trigger] s[j])
}

/// The value of a sequence of decimal digits, most significant first.
pub open spec fn dec_val(s: Seq<char>) -> int
    decreases s.len(),
{
    if s.len() == 0 {
        0
    } else {
        dec_val(s.drop_last()) * 10 + (s.last() as int - 48)
    }
}

pub proof fn lemma_dec_val_nonneg(s: Seq<char>)
    requires
        all_digits(s),
    ensures
        dec_val(s) >= 0,
    decreases s.len(),
{
    if s.len() > 0 {
        assert(all_digits(s.drop_last())) by {
            assert(forall|j: int|
                0 <= j < s.len() - 1 ==> is_digit(#[trigger] s.drop_last()[j]) == is_digit(s[j]));
        }
        lemma_dec_val_nonneg(s.drop_last());
    }
}

/// A digit prefix never exceeds the value of the whole digit string.
pub proof fn lemma_dec_val_prefix(s: Seq<char>, i: int)
    requires
        all_digits(s),
        0 <= i <= s.len(),
    ensures
        dec_val(s.take(i)) <= dec_val(s),
    decreases s.len() - i,
{
    if i < s.len() {
        lemma_dec_val_prefix(s, i + 1);
        assert(s.take(i + 1).drop_last() =~= s.take(i));
        assert(all_digits(s.take(i))) by {
            assert(forall|j: int|
                0 <= j < i ==> is_digit(#[trigger] s.take(i)[j]) == is_digit(s[j]));
        }
        lemma_dec_val_nonneg(s.take(i));
        assert(dec_val(s.take(i + 1)) == dec_val(s.take(i)) * 10 + (s[i] as int - 48));
    } else {
        assert(s.take(i) =~= s);
    }
}

/// The meaning of a textual 32-bit integer: an optional sign followed by at
/// least one decimal digit, rejecting anything else or an out-of-range value.
pub open spec fn spec_parse_i32(s: Seq<char>) -> Option<i32> {
    let neg = s.len() > 0 && s[0] == '-';
    let ds = if s.len() > 0 && (s[0] == '-' || s[0] == '+') {
        s.drop_first()
    } else {
        s
    };
    if ds.len() == 0 || !all_digits(ds) {
        None
    } else if neg {
        if dec_val(ds) <= 0x8000_0000 {
            Some((0 - dec_val(ds)) as i32)
        } else {
            None
        }
    } else {
        if dec_val(ds) <= 0x7fff_ffff {
            Some(dec_val(ds) as i32)
        } else {
            None
        }
    }
}

/// Parses a decimal 32-bit integer, matching `spec_parse_i32`.
pub fn parse_i32(s: &str) -> (r: Option<i32>)
    ensures
        r == spec_parse_i32(s@),
{
    let n = s.unicode_len();
    if n == 0 {
        return None;
    }
    let c0 = s.get_char(0);
    let neg = c0 == '-';
    let start: usize = if c0 == '-' || c0 == '+' {
        1
    } else {
        0
    };
    let ghost ds = if s@[0] == '-' || s@[0] == '+' {
        s@.drop_first()
    } else {
        s@
    };
    proof {
        assert(ds =~= s@.subrange(start as int, n as int));
    }
    if start == n {
        return None;
    }
    let mut acc: u64 = 0;
    let mut i: usize = start;
    while i < n
        invariant
            n == s@.len(),
            start <= i <= n,
            start < n,
            start == if s@[0] == '-' || s@[0] == '+' { 1int } else { 0int },
            neg == (s@[0] == '-'),
            ds == s@.subrange(start as int, n as int),
            ds == if s@[0] == '-' || s@[0] == '+' { s@.drop_first() } else { s@ },
            acc as int == dec_val(s@.subrange(start as int, i as int)),
            acc <= 0x8000_0000,
            all_digits(s@.subrange(start as int, i as int)),
        decreases n - i,
    {
        let c = s.get_char(i);
        let u = c as u32;
        proof {
            assert(u as int == c as int);
        }
        if u < 48 || u > 57 {
            proof {
                assert(ds[i - start] == s@[i as int]);
                assert(!is_digit(ds[i - start]));
                assert(!all_digits(ds));
                assert(spec_parse_i32(s@) is None);
            }
            return None;
        }
        acc = acc * 10 + ((u - 48) as u64);
        proof {
            let pre = s@.subrange(start as int, i as int);
            let cur = s@.subrange(start as int, i + 1);
            assert(cur.drop_last() =~= pre);
            assert(cur.last() == s@[i as int]);
            assert(dec_val(cur) == dec_val(pre) * 10 + (s@[i as int] as int - 48));
            assert(acc as int == dec_val(cur));
            assert(forall|j: int| 0 <= j < cur.len() ==> #[trigger] cur[j] == s@[j + start]);
            assert(all_digits(cur));
        }
        if acc > 0x8000_0000 {
            proof {
                let cur = s@.subrange(start as int, i + 1);
                assert(ds.take(i + 1 - start) =~= cur);
                if all_digits(ds) {
                    lemma_dec_val_prefix(ds, i + 1 - start);
                    assert(dec_val(ds) >= dec_val(cur));
                    assert(dec_val(ds) > 0x8000_0000);
                }
                assert(spec_parse_i32(s@) is None);
            }
            return None;
        }
        i = i + 1;
    }
    proof {
        assert(ds =~= s@.subrange(start as int, n as int));
    }
    if neg {
        if acc == 0x8000_0000 {
            Some(i32::MIN)
        } else {
            Some(-(acc as i32))
        }
    } else {
        if acc > 0x7fff_ffff {
            proof {
                assert(dec_val(ds) > 0x7fff_ffff);
            }
            None
        } else {
            Some(acc as i32)
        }
    }
}

/// The digit character for one decimal digit.
pub open spec fn digit_char(d: int) -> char {
    if d == 0 {
        '0'
    } else if d == 1 {
        '1'
    } else if d == 2 {
        '2'
    } else if d == 3 {
        '3'
    } else if d == 4 {
        '4'
    } else if d == 5 {
        '5'
    } else if d == 6 {
        '6'
    } else if d == 7 {
        '7'
    } else if d == 8 {
        '8'
    } else {
        '9'
    }
}

pub proof fn lemma_digit_char(d: int)
    requires
        0 <= d < 10,
    ensures
        digit_char(d) as int == 48 + d,
        is_digit(digit_char(d)),
{
}

/// The decimal digits of a non-negative number, most significant first.
pub open spec fn spec_digits(m: int) -> Seq<char>
    decreases m,
{
    if m < 10 {
        seq![digit_char(m)]
    } else {
        spec_digits(m / 10).push(digit_char(m % 10))
    }
}

/// The digit string of `m` reads back as `m`, holds only digits, and is
/// non-empty.
pub proof fn lemma_digits_val(m: int)
    requires
        m >= 0,
    ensures
        all_digits(spec_digits(m)),
        dec_val(spec_digits(m)) == m,
        spec_digits(m).len() >= 1,
        is_digit(spec_digits(m)[0]),
    decreases m,
{
    if m < 10 {
        lemma_digit_char(m);
        let s = spec_digits(m);
        assert(s.len() == 1);
        assert(s.last() == digit_char(m));
        assert(s.drop_last() =~= Seq::<char>::empty());
        assert(dec_val(s.drop_last()) == 0);
        assert(dec_val(s) == dec_val(s.drop_last()) * 10 + (s.last() as int - 48));
        assert(dec_val(s) == m);
        assert(forall|j: int| 0 <= j < s.len() ==> is_digit(#[trigger] s[j]));
    } else {
        lemma_digits_val(m / 10);
        lemma_digit_char(m % 10);
        let p = spec_digits(m / 10);
        let s = spec_digits(m);
        assert(s.drop_last() =~= p);
        assert(s.last() == digit_char(m % 10));
        assert(dec_val(s) == dec_val(p) * 10 + (m % 10));
        assert(m == (m / 10) * 10 + (m % 10)) by (nonlinear_arith)
            requires
                m >= 10,
        ;
        assert(forall|j: int| 0 <= j < s.len() ==> is_digit(#[trigger] s[j])) by {
            assert(forall|j: int| 0 <= j < p.len() ==> #[trigger] s[j] == p[j]);
        }
        assert(is_digit(s[0]));
    }
}

/// The textual form of a 32-bit integer: a minus sign for a negative value,
/// then the decimal digits of the magnitude.
pub open spec fn spec_i32_chars(n: int) -> Seq<char> {
    if n < 0 {
        seq!['-'] + spec_digits(-n)
    } else {
        spec_digits(n)
    }
}

/// The rendered form of an integer parses back to the same integer.
pub proof fn lemma_parse_render_i32(n: int)
    requires
        -0x8000_0000 <= n <= 0x7fff_ffff,
    ensures
        spec_parse_i32(spec_i32_chars(n)) == Some(n as i32),
{
    let s = spec_i32_chars(n);
    if n < 0 {
        lemma_digits_val(-n);
        assert(s[0] == '-');
        assert(s.drop_first() =~= spec_digits(-n));
        assert(dec_val(s.drop_first()) == -n);
        assert((0 - dec_val(s.drop_first())) as i32 == n as i32);
    } else {
        lemma_digits_val(n);
        assert(is_digit(s[0]));
        assert(s[0] != '-' && s[0] != '+');
        assert(dec_val(s) == n);
    }
}

/// The string of a `&str` of one known digit.
fn digit_str(d: u32) -> (r: &'static str)
    requires
        d < 10,
    ensures
        r@ =~= seq![digit_char(d as int)],
{
    proof {
        reveal_strlit("0");
        reveal_strlit("1");
        reveal_strlit("2");
        reveal_strlit("3");
        reveal_strlit("4");
        reveal_strlit("5");
        reveal_strlit("6");
        reveal_strlit("7");
        reveal_strlit("8");
        reveal_strlit("9");
    }
    match d {
        0 => "0",
        1 => "1",
        2 => "2",
        3 => "3",
        4 => "4",
        5 => "5",
        6 => "6",
        7 => "7",
        8 => "8",
        _ => "9",
    }
}

/// Appends the decimal digits of `m`, matching `spec_digits`.
fn append_digits(m: u32, out: &mut String)
    ensures
        final(out)@ == old(out)@ + spec_digits(m as int),
    decreases m,
{
    if m >= 10 {
        append_digits(m / 10, out);
    }
    let ghost mid = out@;
    out.append(digit_str(m % 10));
    proof {
        if m >= 10 {
            assert(out@ =~= old(out)@ + spec_digits(m as int));
        } else {
            assert(out@ =~= old(out)@ + spec_digits(m as int));
        }
    }
}

/// Renders a 32-bit integer in decimal, matching `spec_i32_chars`.
pub fn i32_to_string(n: i32) -> (r: String)
    ensures
        r@ == spec_i32_chars(n as int),
{
    let mut s = String::new();
    let mag: u32 = if n < 0 {
        (-(n as i64)) as u32
    } else {
        n as u32
    };
    if n < 0 {
        proof {
            reveal_strlit("-");
        }
        s.append("-");
    }
    append_digits(mag, &mut s);
    proof {
        if n < 0 {
            assert("-"@ =~= seq!['-']);
            assert(s@ =~= seq!['-'] + spec_digits(mag as int));
        } else {
            assert(s@ =~= spec_digits(mag as int));
        }
    }
    s
}

} // verus!
