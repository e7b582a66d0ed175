//! Number syntax as `str::parse` accepts it: unsigned bytes, and the
//! grammar of floating-point literals.

use vstd::prelude::*;

verus! {

pub open spec fn is_digit(c: char) -> bool {
    48 <= c as u32 <= 57
}

pub open spec fn all_digits(s: Seq<char>) -> bool {
    forall|i: int| 0 <= i < s.len() ==> is_digit(#[trigger] s[i])
}

/// The value of a run of decimal digits.
pub open spec fn digits_value(s: Seq<char>) -> nat
    decreases s.len(),
{
    if s.len() == 0 {
        0
    } else {
        digits_value(s.drop_last()) * 10 + (s.last() as u32 - 48) as nat
    }
}

/// `s` without a single leading `+` (or `-`, where `minus_allowed`).
pub open spec fn unsigned_part(s: Seq<char>, minus_allowed: bool) -> Seq<char> {
    if s.len() > 0 && (s[0] == '+' || (minus_allowed && s[0] == '-')) {
        s.skip(1)
    } else {
        s
    }
}

/// What `str::parse::<u8>` gives: an optional `+`, then one or more decimal
/// digits whose value is at most 255.
pub open spec fn parse_u8_spec(s: Seq<char>) -> Option<u8> {
    let d = unsigned_part(s, false);
    if d.len() > 0 && all_digits(d) && digits_value(d) <= 255 {
        Some(digits_value(d) as u8)
    } else {
        None
    }
}

proof fn lemma_digits_value_grows(s: Seq<char>, k: int)
    requires
        0 <= k <= s.len(),
        all_digits(s),
    ensures
        digits_value(s.take(k)) <= digits_value(s),
    decreases s.len() - k,
{
    if k < s.len() {
        assert(s.drop_last().take(k) == s.take(k));
        lemma_digits_value_grows(s.drop_last(), k);
    } else {
        assert(s.take(k) == s);
    }
}

/// A byte written in decimal, as `str::parse::<u8>` reads it.
pub fn parse_u8(s: &Vec<char>) -> (r: Option<u8>)
    ensures
        r == parse_u8_spec(s@),
{
    let start: usize = if s.len() > 0 && s[0] == '+' {
        1
    } else {
        0
    };
    let ghost d = unsigned_part(s@, false);
    assert(d == s@.skip(start as int));
    if start >= s.len() {
        return None;
    }
    let mut acc: u32 = 0;
    let mut i = start;
    while i < s.len()
        invariant
            start <= i <= s.len(),
            d == s@.skip(start as int),
            d == unsigned_part(s@, false),
            d.len() > 0,
            acc <= 255,
            acc == digits_value(d.take(i - start)),
            all_digits(d.take(i - start)),
        decreases s.len() - i,
    {
        let c = s[i];
        let n: u32 = c as u32;
        let ghost pre = d.take(i - start);
        assert(d.take(i + 1 - start).drop_last() == pre);
        assert(d.take(i + 1 - start).last() == c);
        assert(d[i - start] == c);
        if n < 48 || n > 57 {
            assert(!is_digit(d[i - start]));
            assert(!all_digits(d));
            return None;
        }
        acc = acc * 10 + (n - 48);
        assert(acc == digits_value(d.take(i + 1 - start)));
        if acc > 255 {
            proof {
                if all_digits(d) {
                    lemma_digits_value_grows(d, i + 1 - start);
                    assert(digits_value(d) > 255);
                }
            }
            return None;
        }
        i = i + 1;
    }
    assert(d.take(s.len() - start) == d);
    Some(acc as u8)
}

// ---- floating-point literals --------------------------------------------------

pub open spec fn ascii_lower(c: char) -> char {
    if 65 <= c as u32 <= 90 {
        ((c as u32) + 32) as char
    } else {
        c
    }
}

pub open spec fn is_special_float(b: Seq<char>) -> bool {
    let l = b.map_values(|c: char| ascii_lower(c));
    l == "inf"@ || l == "infinity"@ || l == "nan"@
}

/// `Digit+ | Digit+ '.' Digit* | Digit* '.' Digit+`
pub open spec fn is_mantissa(m: Seq<char>) -> bool {
    ||| m.len() > 0 && all_digits(m)
    ||| exists|j: int|
        0 <= j < m.len() && #[trigger] m[j] == '.' && all_digits(m.take(j)) && all_digits(
            m.skip(j + 1),
        ) && (j > 0 || m.len() > j + 1)
}

/// `Sign? Digit+`
pub open spec fn is_exponent(x: Seq<char>) -> bool {
    let d = unsigned_part(x, true);
    d.len() > 0 && all_digits(d)
}

pub open spec fn is_exponent_mark(c: char) -> bool {
    c == 'e' || c == 'E'
}

/// `Number ::= Mantissa Exp?` with `Exp ::= 'e' Sign? Digit+`.
pub open spec fn is_decimal_float(b: Seq<char>) -> bool {
    ||| is_mantissa(b)
    ||| exists|k: int|
        0 <= k < b.len() && is_exponent_mark(#[trigger] b[k]) && is_mantissa(b.take(k))
            && is_exponent(b.skip(k + 1))
}

/// Whether `str::parse::<f32>` accepts `s`: by its documented grammar,
/// `Sign? ( 'inf' | 'infinity' | 'nan' | Number )`, case-insensitively.
pub open spec fn is_f32_literal(s: Seq<char>) -> bool {
    let b = unsigned_part(s, true);
    is_special_float(b) || is_decimal_float(b)
}

/// Made of digits and dots only.
pub open spec fn digits_and_dots(s: Seq<char>) -> bool {
    forall|i: int| 0 <= i < s.len() ==> is_digit(#[trigger] s[i]) || s[i] == '.'
}

/// On text of digits and dots, the float grammar is that of a mantissa.
pub proof fn lemma_plain_float(s: Seq<char>)
    requires
        digits_and_dots(s),
    ensures
        is_f32_literal(s) == is_mantissa(s),
{
    reveal_strlit("inf");
    reveal_strlit("infinity");
    reveal_strlit("nan");
    if s.len() > 0 {
        assert(is_digit(s[0]) || s[0] == '.');
        let l = s.map_values(|c: char| ascii_lower(c));
        assert(l[0] == s[0]);
        assert(l[0] != "inf"@[0]);
        assert(l[0] != "nan"@[0]);
        assert(l != "inf"@);
        assert(l != "infinity"@);
        assert(l != "nan"@);
    } else {
        assert(s.map_values(|c: char| ascii_lower(c)) =~= Seq::<char>::empty());
    }
    assert(unsigned_part(s, true) == s);
    if exists|k: int|
        0 <= k < s.len() && is_exponent_mark(#[trigger] s[k]) && is_mantissa(s.take(k))
            && is_exponent(s.skip(k + 1)) {
        let k = choose|k: int|
            0 <= k < s.len() && is_exponent_mark(#[trigger] s[k]) && is_mantissa(s.take(k))
                && is_exponent(s.skip(k + 1));
        assert(is_digit(s[k]) || s[k] == '.');
    }
}

/// Whether `m` is a mantissa, for text of digits and dots.
pub fn is_plain_decimal(m: &Vec<char>) -> (b: bool)
    requires
        digits_and_dots(m@),
    ensures
        b == is_mantissa(m@),
{
    let n = m.len();
    let mut dot: usize = n;
    let mut i: usize = 0;
    while i < n
        invariant
            i <= n == m.len(),
            dot == n || (dot < i && m@[dot as int] == '.'),
            dot == n ==> forall|k: int| 0 <= k < i ==> m@[k] != '.',
            dot < n ==> forall|k: int| 0 <= k < dot ==> m@[k] != '.',
        decreases n - i,
    {
        if m[i] == '.' && dot == n {
            dot = i;
        }
        i = i + 1;
    }
    if dot == n {
        // no dot: digits only
        assert(all_digits(m@) <==> true) by {
            assert forall|k: int| 0 <= k < m@.len() implies is_digit(#[trigger] m@[k]) by {
                assert(m@[k] != '.');
            }
        }
        if n > 0 {
            return true;
        }
        assert(!is_mantissa(m@)) by {
            assert(m@.len() == 0);
        }
        return false;
    }
    // the first dot is at `dot`; there must be no other
    let mut j: usize = dot + 1;
    while j < n
        invariant
            dot < j <= n == m.len(),
            m@[dot as int] == '.',
            digits_and_dots(m@),
            forall|k: int| 0 <= k < dot ==> m@[k] != '.',
            forall|k: int| dot < k < j ==> m@[k] != '.',
        decreases n - j,
    {
        if m[j] == '.' {
            assert(!is_mantissa(m@)) by {
                assert(!all_digits(m@)) by {
                    assert(!is_digit(m@[dot as int]));
                }
                assert forall|q: int|
                    0 <= q < m@.len() && #[trigger] m@[q] == '.' implies !(all_digits(m@.take(q))
                    && all_digits(m@.skip(q + 1))) by {
                    if q == dot {
                        assert(m@.skip(q + 1)[j - dot - 1] == m@[j as int]);
                    } else if q < dot {
                        assert(false);
                    } else {
                        assert(m@.take(q)[dot as int] == '.');
                    }
                }
            }
            return false;
        }
        j = j + 1;
    }
    let ok = dot > 0 || n > dot + 1;
    proof {
        assert(all_digits(m@.take(dot as int))) by {
            assert forall|k: int| 0 <= k < dot implies is_digit(#[trigger] m@.take(dot as int)[k]) by {
                assert(m@[k] != '.');
            }
        }
        assert(all_digits(m@.skip(dot + 1))) by {
            assert forall|k: int| 0 <= k < m@.skip(dot + 1).len() implies is_digit(
                #[trigger] m@.skip(dot + 1)[k],
            ) by {
                assert(m@[dot + 1 + k] != '.');
            }
        }
        assert(!all_digits(m@)) by {
            assert(!is_digit(m@[dot as int]));
        }
        if ok {
            assert(m@[dot as int] == '.');
        } else {
            assert forall|q: int|
                0 <= q < m@.len() && #[trigger] m@[q] == '.' implies !(q > 0 || m@.len() > q
                + 1) by {
                if q != dot {
                    if q < dot {
                    } else {
                    }
                }
            }
        }
    }
    ok
}

/// A byte written in decimal (with or without a `+`) reads back as itself.
pub proof fn lemma_parse_u8_of_decimal(n: u8)
    ensures
        parse_u8_spec(crate::text::decimal(n as nat)) == Some(n),
        parse_u8_spec(seq!['+'] + crate::text::decimal(n as nat)) == Some(n),
{
    lemma_decimal_value(n as nat);
    crate::text::lemma_decimal_digits(n as nat);
    let d = crate::text::decimal(n as nat);
    assert(all_digits(d));
    assert(d[0] != '+');
    assert(unsigned_part(d, false) == d);
    assert((seq!['+'] + d).skip(1) =~= d);
}

/// A decimal numeral has the value it was written for.
pub proof fn lemma_decimal_value(n: nat)
    ensures
        digits_value(crate::text::decimal(n)) == n,
    decreases n,
{
    crate::text::lemma_decimal_digits(n);
    let d0 = crate::text::decimal(n);
    assert(digits_value(d0) == digits_value(d0.drop_last()) * 10 + (d0.last() as u32 - 48) as nat);
    if n >= 10 {
        lemma_decimal_value(n / 10);
        let d = crate::text::decimal(n);
        assert(d.drop_last() == crate::text::decimal(n / 10));
        assert(d.last() == crate::text::digit_char((n % 10) as int));
        assert(crate::text::digit_char((n % 10) as int) as u32 == 48 + n % 10);
        assert(n == (n / 10) * 10 + n % 10);
    } else {
        let d = crate::text::decimal(n);
        assert(d.drop_last() =~= Seq::<char>::empty());
        assert(d.last() == crate::text::digit_char(n as int));
        assert(crate::text::digit_char(n as int) as u32 == 48 + n);
    }
}

} // verus!
