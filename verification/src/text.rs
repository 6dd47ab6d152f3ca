use vstd::prelude::*;

verus! {

/// The Unicode lowercase mapping of a string, as `str::to_lowercase` computes it.
pub uninterp spec fn str_to_lowercase(s: Seq<char>) -> Seq<char>;

/// Calls `str::to_lowercase`; the result is the lowercase mapping of the argument.
#[verifier::external_body]
pub(crate) fn to_lowercase(s: &str) -> (r: String)
    ensures
        r@ == str_to_lowercase(s@),
{
    s.to_lowercase()
}

/// Calls `String::push`, which appends one character.
#[verifier::external_body]
pub(crate) fn push_char(s: &mut String, c: char)
    ensures
        final(s)@ == old(s)@.push(c),
{
    s.push(c)
}

/// Whether a character has the Unicode White_Space property, the set that
/// `char::is_whitespace` tests: U+0009 to U+000D, U+0020, U+0085, U+00A0, U+1680,
/// U+2000 to U+200A, U+2028, U+2029, U+202F, U+205F and U+3000.
pub open spec fn unicode_white_space(c: char) -> bool {
    ||| ('\u{9}' <= c && c <= '\u{d}')
    ||| c == ' '
    ||| c == '\u{85}'
    ||| c == '\u{a0}'
    ||| c == '\u{1680}'
    ||| ('\u{2000}' <= c && c <= '\u{200a}')
    ||| c == '\u{2028}'
    ||| c == '\u{2029}'
    ||| c == '\u{202f}'
    ||| c == '\u{205f}'
    ||| c == '\u{3000}'
}

/// Whether a character is white space, as `char::is_whitespace` decides.
fn is_whitespace(c: char) -> (r: bool)
    ensures
        r == unicode_white_space(c),
{
    ('\u{9}' <= c && c <= '\u{d}') || c == ' ' || c == '\u{85}' || c == '\u{a0}' || c
        == '\u{1680}' || ('\u{2000}' <= c && c <= '\u{200a}') || c == '\u{2028}' || c
        == '\u{2029}' || c == '\u{202f}' || c == '\u{205f}' || c == '\u{3000}'
}

/// A string without its leading white space.
pub open spec fn trim_start(s: Seq<char>) -> Seq<char>
    decreases s.len(),
{
    if s.len() > 0 && unicode_white_space(s[0]) {
        trim_start(s.drop_first())
    } else {
        s
    }
}

/// A string without its trailing white space.
pub open spec fn trim_end(s: Seq<char>) -> Seq<char>
    decreases s.len(),
{
    if s.len() > 0 && unicode_white_space(s.last()) {
        trim_end(s.drop_last())
    } else {
        s
    }
}

/// A string without leading and trailing white space, as `str::trim` gives it.
pub open spec fn trimmed(s: Seq<char>) -> Seq<char> {
    trim_end(trim_start(s))
}

proof fn lemma_trim_start_skip(s: Seq<char>, i: int)
    requires
        0 <= i < s.len(),
        unicode_white_space(s[i]),
    ensures
        trim_start(s.skip(i)) == trim_start(s.skip(i + 1)),
{
    assert(s.skip(i).drop_first() =~= s.skip(i + 1));
}

proof fn lemma_trim_end_take(s: Seq<char>, j: int)
    requires
        0 < j <= s.len(),
        unicode_white_space(s[j - 1]),
    ensures
        trim_end(s.take(j)) == trim_end(s.take(j - 1)),
{
    assert(s.take(j).drop_last() =~= s.take(j - 1));
}

/// The string without leading and trailing white space (`str::trim`).
pub fn trim(s: &str) -> (r: &str)
    ensures
        r@ == trimmed(s@),
{
    let n = s.unicode_len();
    let mut i: usize = 0;
    assert(s@.skip(0) =~= s@);
    while i < n && is_whitespace(s.get_char(i))
        invariant
            n == s@.len(),
            i <= n,
            trim_start(s@) == trim_start(s@.skip(i as int)),
        decreases n - i,
    {
        proof {
            lemma_trim_start_skip(s@, i as int);
        }
        i = i + 1;
    }
    let ghost rest = s@.skip(i as int);
    assert(trim_start(rest) == rest) by {
        if rest.len() > 0 {
            assert(rest[0] == s@[i as int]);
        }
    }
    let mut j: usize = n;
    assert(rest.take(rest.len() as int) =~= rest);
    while j > i && is_whitespace(s.get_char(j - 1))
        invariant
            n == s@.len(),
            i <= j <= n,
            rest == s@.skip(i as int),
            trim_end(rest) == trim_end(rest.take(j - i)),
        decreases j,
    {
        proof {
            assert(rest[j - i - 1] == s@[j - 1]);
            lemma_trim_end_take(rest, j - i);
        }
        j = j - 1;
    }
    let ghost kept = rest.take(j - i);
    assert(trim_end(kept) == kept) by {
        if kept.len() > 0 {
            assert(kept.last() == s@[j - 1]);
        }
    }
    assert(kept =~= s@.subrange(i as int, j as int));
    s.substring_char(i, j)
}

/// Whether a character is an ASCII decimal digit.
pub open spec fn is_digit(c: char) -> bool {
    '0' <= c && c <= '9'
}

pub open spec fn digit_value(c: char) -> int {
    (c as int) - ('0' as int)
}

/// The number that a string of decimal digits writes.
pub open spec fn decimal_value(d: Seq<char>) -> int
    decreases d.len(),
{
    if d.len() == 0 {
        0
    } else {
        decimal_value(d.drop_last()) * 10 + digit_value(d.last())
    }
}

/// Whether every character is a decimal digit.
pub open spec fn all_digits(d: Seq<char>) -> bool {
    forall|k: int| 0 <= k < d.len() ==> is_digit(#[trigger] d[k])
}

/// A string without its leading sign, if it has one.
pub open spec fn unsigned_part(s: Seq<char>) -> Seq<char> {
    if s.len() > 0 && (s[0] == '-' || s[0] == '+') {
        s.drop_first()
    } else {
        s
    }
}

/// The number a signed decimal string writes.
pub open spec fn signed_value(s: Seq<char>) -> int {
    if s.len() > 0 && s[0] == '-' {
        -decimal_value(unsigned_part(s))
    } else {
        decimal_value(unsigned_part(s))
    }
}

/// What `str::parse::<i64>` gives: an optional `+` or `-` and at least one decimal digit,
/// nothing else, naming a number within `i64`.
pub open spec fn parse_i64_spec(s: Seq<char>) -> Option<i64> {
    if unsigned_part(s).len() > 0 && all_digits(unsigned_part(s)) && i64::MIN <= signed_value(s)
        <= i64::MAX {
        Some(signed_value(s) as i64)
    } else {
        None
    }
}

proof fn lemma_decimal_grows(d: Seq<char>, k: int)
    requires
        0 <= k <= d.len(),
        forall|m: int| 0 <= m < d.len() ==> is_digit(#[trigger] d[m]),
    ensures
        decimal_value(d) >= decimal_value(d.take(k)),
        decimal_value(d.take(k)) >= 0,
    decreases d.len() - k,
{
    if k < d.len() {
        lemma_decimal_grows(d, k + 1);
        assert(d.take(k + 1).drop_last() =~= d.take(k));
        assert(d.take(k + 1).last() == d[k]);
    } else {
        assert(d.take(k) =~= d);
        lemma_decimal_nonneg(d);
    }
}

proof fn lemma_decimal_nonneg(d: Seq<char>)
    requires
        forall|m: int| 0 <= m < d.len() ==> is_digit(#[trigger] d[m]),
    ensures
        decimal_value(d) >= 0,
    decreases d.len(),
{
    if d.len() > 0 {
        assert(is_digit(d[d.len() - 1]));
        lemma_decimal_nonneg(d.drop_last());
    }
}

/// Parses a whole string as an `i64` the way `str::parse::<i64>` does.
pub fn parse_i64(s: &str) -> (r: Option<i64>)
    ensures
        r == parse_i64_spec(s@),
{
    let n = s.unicode_len();
    if n == 0 {
        return None;
    }
    let first = s.get_char(0);
    let neg = first == '-';
    let start: usize = if first == '-' || first == '+' {
        1
    } else {
        0
    };
    let ghost digits = s@.skip(start as int);
    assert(digits =~= unsigned_part(s@));
    if start == n {
        return None;
    }
    let mut acc: u64 = 0;
    let mut i: usize = start;
    assert(digits.take(0) =~= Seq::<char>::empty());
    while i < n
        invariant
            n == s@.len(),
            start <= i <= n,
            start < n,
            digits == s@.skip(start as int),
            digits == unsigned_part(s@),
            neg == (s@.len() > 0 && s@[0] == '-'),
            acc as int == decimal_value(digits.take(i - start)),
            acc <= 9_223_372_036_854_775_808u64,
            forall|m: int| 0 <= m < i - start ==> is_digit(#[trigger] digits[m]),
        decreases n - i,
    {
        let c = s.get_char(i);
        assert(digits[i - start] == c);
        if !('0' <= c && c <= '9') {
            assert(!all_digits(digits));
            return None;
        }
        let d = (c as u64) - ('0' as u64);
        proof {
            assert(digits.take(i - start + 1).drop_last() =~= digits.take(i - start));
            assert(digits.take(i - start + 1).last() == c);
        }
        if acc > 922_337_203_685_477_580u64 || acc * 10 + d > 9_223_372_036_854_775_808u64 {
            proof {
                assert(decimal_value(digits.take(i - start + 1)) > 9_223_372_036_854_775_808);
                if all_digits(digits) {
                    lemma_decimal_grows(digits, i - start + 1);
                }
            }
            return None;
        }
        acc = acc * 10 + d;
        i = i + 1;
    }
    assert(digits.take(n - start) =~= digits);
    if neg {
        if acc == 9_223_372_036_854_775_808u64 {
            Some(i64::MIN)
        } else {
            Some(-(acc as i64))
        }
    } else {
        if acc > 9_223_372_036_854_775_807u64 {
            None
        } else {
            Some(acc as i64)
        }
    }
}

pub open spec fn digit_char(d: int) -> char {
    (d + ('0' as int)) as char
}

/// The decimal digits of a natural number, without leading zeros ("0" for zero).
pub open spec fn nat_digits(n: nat) -> Seq<char>
    decreases n,
{
    if n < 10 {
        seq![digit_char(n as int)]
    } else {
        nat_digits(n / 10).push(digit_char((n % 10) as int))
    }
}

/// How `to_string` writes an integer: a '-' before the digits of a negative number.
pub open spec fn int_to_decimal(n: int) -> Seq<char> {
    if n < 0 {
        seq!['-'] + nat_digits((-n) as nat)
    } else {
        nat_digits(n as nat)
    }
}

/// Writes a natural number in decimal, as `u64::to_string` does.
pub fn u64_to_decimal(value: u64) -> (r: String)
    ensures
        r@ == nat_digits(value as nat),
{
    let mut m: u64 = value;
    let ghost total: nat = m as nat;
    // The digits, least significant first.
    let mut rev: Vec<char> = Vec::new();
    loop
        invariant_except_break
            m as nat <= total,
            rev.len() >= 1 ==> nat_digits(total) == nat_digits(m as nat) + rev@.reverse(),
            rev.len() == 0 ==> m as nat == total,
        ensures
            nat_digits(total) == rev@.reverse(),
        decreases m,
    {
        let d = m % 10;
        let c = ((d as u8) + 48u8) as char;
        proof {
            assert(c == digit_char(d as int));
            if m >= 10 {
                assert(nat_digits(m as nat) == nat_digits((m / 10) as nat).push(c));
            } else {
                assert(nat_digits(m as nat) == seq![c]);
            }
        }
        let ghost old_rev = rev@;
        rev.push(c);
        assert(rev@.reverse() =~= seq![c] + old_rev.reverse());
        if m < 10 {
            assert(nat_digits(total) =~= rev@.reverse()) by {
                if old_rev.len() > 0 {
                    assert(nat_digits(total) == seq![c] + old_rev.reverse());
                }
            }
            break;
        }
        assert(nat_digits(total) =~= nat_digits((m / 10) as nat) + rev@.reverse()) by {
            if old_rev.len() > 0 {
                assert(nat_digits(m as nat) + old_rev.reverse() =~= nat_digits((m / 10) as nat)
                    + (seq![c] + old_rev.reverse()));
            }
        }
        m = m / 10;
    }
    let mut out = String::new();
    let mut k: usize = rev.len();
    while k > 0
        invariant
            k <= rev.len(),
            out@ == rev@.reverse().take(rev.len() - k),
        decreases k,
    {
        k = k - 1;
        push_char(&mut out, rev[k]);
        assert(rev@.reverse().take(rev.len() - k) =~= rev@.reverse().take(rev.len() - k - 1).push(
            rev@[k as int],
        ));
    }
    assert(rev@.reverse().take(rev.len() as int) =~= rev@.reverse());
    out
}

/// Writes an integer in decimal, as `i64::to_string` does.
pub fn i64_to_decimal(v: i64) -> (r: String)
    ensures
        r@ == int_to_decimal(v as int),
{
    if v < 0 {
        let m: u64 = if v == i64::MIN {
            9_223_372_036_854_775_808u64
        } else {
            (-v) as u64
        };
        let mut out = String::new();
        push_char(&mut out, '-');
        let digits = u64_to_decimal(m);
        out.append(digits.as_str());
        assert(out@ =~= int_to_decimal(v as int));
        out
    } else {
        u64_to_decimal(v as u64)
    }
}

proof fn lemma_nat_digits(n: nat)
    ensures
        all_digits(nat_digits(n)),
        decimal_value(nat_digits(n)) == n,
        nat_digits(n).len() > 0,
    decreases n,
{
    if n >= 10 {
        lemma_nat_digits(n / 10);
        let d = nat_digits(n);
        assert(d.drop_last() =~= nat_digits(n / 10));
        assert(d.last() == digit_char((n % 10) as int));
        assert forall|k: int| 0 <= k < d.len() implies is_digit(#[trigger] d[k]) by {
            if k < d.len() - 1 {
                assert(d[k] == nat_digits(n / 10)[k]);
            }
        }
    } else {
        assert(decimal_value(nat_digits(n).drop_last()) == 0);
    }
}

/// Writing an integer in decimal and reading it back gives the integer again.
pub proof fn lemma_decimal_round_trip(n: i64)
    ensures
        parse_i64_spec(int_to_decimal(n as int)) == Some(n),
{
    if n < 0 {
        let m = (-n) as nat;
        lemma_nat_digits(m);
        let s = int_to_decimal(n as int);
        assert(s.drop_first() =~= nat_digits(m));
        assert(unsigned_part(s) == nat_digits(m));
    } else {
        let m = n as nat;
        lemma_nat_digits(m);
        let s = int_to_decimal(n as int);
        assert(is_digit(s[0]));
        assert(unsigned_part(s) == s);
    }
}

/// A string whose first and last characters are not white space is its own trim.
proof fn lemma_trim_keeps(s: Seq<char>)
    requires
        s.len() > 0,
        !unicode_white_space(s[0]),
        !unicode_white_space(s.last()),
    ensures
        trimmed(s) == s,
{
}

/// A decimal numeral has no white space at its ends, so trimming it changes nothing, and
/// reading the trimmed numeral gives the number back.
pub proof fn lemma_trimmed_decimal_round_trip(n: i64)
    ensures
        trimmed(int_to_decimal(n as int)) == int_to_decimal(n as int),
        parse_i64_spec(trimmed(int_to_decimal(n as int))) == Some(n),
{
    let s = int_to_decimal(n as int);
    let m: nat = if n < 0 { (-n) as nat } else { n as nat };
    lemma_nat_digits(m);
    let d = nat_digits(m);
    assert(is_digit(d[d.len() - 1]));
    if n < 0 {
        assert(s.last() == d.last());
        assert(s[0] == '-');
    } else {
        assert(is_digit(d[0]));
    }
    lemma_trim_keeps(s);
    lemma_decimal_round_trip(n);
}

} // verus!
