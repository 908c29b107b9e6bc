//! Verified text utilities used throughout the storage core: decimal
//! rendering of numbers (for composite natural keys), lexicographic
//! comparison of strings (for newest-wins repair), and decimal parsing
//! (for score fields and for the cast step of a shadow-table swap).

use vstd::prelude::*;

verus! {

/// The character for a single decimal digit.
pub open spec fn spec_digit_char(d: u64) -> char
    recommends
        d < 10,
{
    ((48 + d) as u8) as char
}

/// Decimal rendering of an unsigned number, most significant digit first.
pub open spec fn spec_dec_u64(n: u64) -> Seq<char>
    decreases n,
{
    if n < 10 {
        seq![spec_digit_char(n)]
    } else {
        spec_dec_u64(n / 10).push(spec_digit_char(n % 10))
    }
}

fn digit_str(d: u64) -> (r: &'static str)
    requires
        d < 10,
    ensures
        r@ == seq![spec_digit_char(d)],
{
    proof {
        reveal_strlit("0");
        reveal_strlit("1");
        reveal_strlit("2");
        reveal_strlit("3");
        reveal_strlit("4");
        reveal_strlit("5");
        reveal_strlit("6");
        reveal_strlit("7");
        reveal_strlit("8");
        reveal_strlit("9");
    }
    if d == 0 {
        "0"
    } else if d == 1 {
        "1"
    } else if d == 2 {
        "2"
    } else if d == 3 {
        "3"
    } else if d == 4 {
        "4"
    } else if d == 5 {
        "5"
    } else if d == 6 {
        "6"
    } else if d == 7 {
        "7"
    } else if d == 8 {
        "8"
    } else {
        "9"
    }
}

/// Renders a number in decimal, as the SQL layer would print it.
pub fn u64_to_string(n: u64) -> (r: String)
    ensures
        r@ == spec_dec_u64(n),
    decreases n,
{
    if n < 10 {
        String::from_str(digit_str(n))
    } else {
        let prefix = u64_to_string(n / 10);
        prefix.concat(digit_str(n % 10))
    }
}

/// Strict lexicographic order on character sequences, by code point.
/// For strings this coincides with the byte order `String`'s `<` uses,
/// because UTF-8 preserves the code-point order.
pub open spec fn spec_lex_lt(a: Seq<char>, b: Seq<char>) -> bool
    decreases a.len(),
{
    if b.len() == 0 {
        false
    } else if a.len() == 0 {
        true
    } else if (a[0] as u32) < (b[0] as u32) {
        true
    } else if a[0] == b[0] {
        spec_lex_lt(a.drop_first(), b.drop_first())
    } else {
        false
    }
}

fn lex_lt_from(a: &str, b: &str, i: usize, a_len: usize, b_len: usize) -> (r: bool)
    requires
        i <= a_len == a@.len(),
        i <= b_len == b@.len(),
    ensures
        r == spec_lex_lt(a@.skip(i as int), b@.skip(i as int)),
    decreases a_len - i,
{
    if i == b_len {
        false
    } else if i == a_len {
        true
    } else {
        let ca = a.get_char(i);
        let cb = b.get_char(i);
        proof {
            assert(a@.skip(i as int)[0] == a@[i as int]);
            assert(b@.skip(i as int)[0] == b@[i as int]);
            assert(a@.skip(i as int).drop_first() =~= a@.skip(i as int + 1));
            assert(b@.skip(i as int).drop_first() =~= b@.skip(i as int + 1));
        }
        if (ca as u32) < (cb as u32) {
            true
        } else if ca == cb {
            lex_lt_from(a, b, i + 1, a_len, b_len)
        } else {
            false
        }
    }
}

/// Whether `a` comes strictly before `b` lexicographically.
pub fn lex_lt(a: &String, b: &String) -> (r: bool)
    ensures
        r == spec_lex_lt(a@, b@),
{
    let a_len = a.as_str().unicode_len();
    let b_len = b.as_str().unicode_len();
    let r = lex_lt_from(a.as_str(), b.as_str(), 0, a_len, b_len);
    proof {
        assert(a@.skip(0) =~= a@);
        assert(b@.skip(0) =~= b@);
    }
    r
}

/// Whether two string slices hold the same characters.
pub fn str_eq(a: &str, b: &str) -> (r: bool)
    ensures
        r == (a@ == b@),
{
    let a_len = a.unicode_len();
    let b_len = b.unicode_len();
    if a_len != b_len {
        proof {
            assert(a@ != b@);
        }
        return false;
    }
    let mut i: usize = 0;
    while i < a_len
        invariant
            i <= a_len == a@.len(),
            a_len == b_len == b@.len(),
            forall|j: int| 0 <= j < i ==> a@[j] == b@[j],
        decreases a_len - i,
    {
        if a.get_char(i) != b.get_char(i) {
            proof {
                assert(a@[i as int] != b@[i as int]);
            }
            return false;
        }
        i = i + 1;
    }
    proof {
        assert(a@ =~= b@);
    }
    true
}

/// Whether a character is a decimal digit.
pub open spec fn spec_is_digit(c: char) -> bool {
    48 <= (c as u32) <= 57
}

/// The numeric value of a decimal digit character.
pub open spec fn spec_digit_val(c: char) -> nat
    recommends
        spec_is_digit(c),
{
    ((c as u32) - 48) as nat
}

/// Whether every character of the sequence is a decimal digit.
pub open spec fn spec_all_digits(s: Seq<char>) -> bool {
    forall|i: int| 0 <= i < s.len() ==> spec_is_digit(#[trigger] s[i])
}

/// The value of a sequence of decimal digits, most significant first.
pub open spec fn spec_digits_val(s: Seq<char>) -> nat
    decreases s.len(),
{
    if s.len() == 0 {
        0
    } else {
        spec_digits_val(s.drop_last()) * 10 + spec_digit_val(s.last())
    }
}

proof fn lemma_digits_val_take_succ(s: Seq<char>, i: int)
    requires
        0 <= i < s.len(),
    ensures
        spec_digits_val(s.take(i + 1)) == spec_digits_val(s.take(i)) * 10 + spec_digit_val(s[i]),
{
    assert(s.take(i + 1).drop_last() =~= s.take(i));
    assert(s.take(i + 1).last() == s[i]);
}

proof fn lemma_digits_val_grows(s: Seq<char>, i: int, j: int)
    requires
        0 <= i <= j <= s.len(),
    ensures
        spec_digits_val(s.take(i)) <= spec_digits_val(s.take(j)),
    decreases j - i,
{
    if i < j {
        lemma_digits_val_grows(s, i, j - 1);
        lemma_digits_val_take_succ(s, j - 1);
    }
}

/// What decimal parsing of a whole string yields: an optional single
/// leading sign, then at least one digit, the value within `i64` range;
/// anything else is rejected. This matches how the standard library
/// reads an `i64` from text.
pub open spec fn spec_parse_i64(s: Seq<char>) -> Option<i64> {
    let neg = s.len() > 0 && s[0] == '-';
    let signed = s.len() > 0 && (s[0] == '-' || s[0] == '+');
    let ds = if signed {
        s.drop_first()
    } else {
        s
    };
    if ds.len() == 0 || !spec_all_digits(ds) {
        None
    } else {
        let v = spec_digits_val(ds) as int;
        let sv: int = if neg {
            -v
        } else {
            v
        };
        if -0x8000_0000_0000_0000 <= sv < 0x8000_0000_0000_0000 {
            Some(sv as i64)
        } else {
            None
        }
    }
}

/// Accumulates the digits of `s` starting at index `start`; `limit` is the
/// largest magnitude that still fits the caller's sign.
fn accumulate_digits(s: &str, start: usize, len: usize, limit: u64) -> (r: Option<u64>)
    requires
        start <= len == s@.len(),
        limit >= 0x7fff_ffff_ffff_ffff,
    ensures
        match r {
            Some(v) => {
                &&& spec_all_digits(s@.skip(start as int))
                &&& v == spec_digits_val(s@.skip(start as int))
                &&& v <= limit
            },
            None => !spec_all_digits(s@.skip(start as int)) || spec_digits_val(
                s@.skip(start as int),
            ) > limit,
        },
{
    let ghost ds = s@.skip(start as int);
    let mut acc: u64 = 0;
    let mut i: usize = start;
    while i < len
        invariant
            start <= i <= len == s@.len(),
            ds == s@.skip(start as int),
            limit >= 0x7fff_ffff_ffff_ffff,
            spec_all_digits(ds.take(i - start)),
            acc == spec_digits_val(ds.take(i - start)),
            acc <= limit,
        decreases len - i,
    {
        let c = s.get_char(i);
        proof {
            assert(ds[i - start] == s@[i as int]);
        }
        let cv = c as u32;
        if cv < 48 || cv > 57 {
            return None;
        }
        let d = (cv - 48) as u64;
        proof {
            lemma_digits_val_take_succ(ds, i - start);
        }
        if acc > (limit - d) / 10 {
            proof {
                assert(acc * 10 + d > limit) by (nonlinear_arith)
                    requires
                        acc > (limit - d) / 10,
                        d < 10,
                        limit >= 10,
                ;
                lemma_digits_val_grows(ds, i - start + 1, ds.len() as int);
                assert(ds.take(ds.len() as int) =~= ds);
            }
            return None;
        }
        proof {
            assert(acc * 10 + d <= limit) by (nonlinear_arith)
                requires
                    acc <= (limit - d) / 10,
                    d < 10,
                    limit >= 10,
            ;
        }
        acc = acc * 10 + d;
        i = i + 1;
    }
    proof {
        assert(ds.take(ds.len() as int) =~= ds);
    }
    Some(acc)
}

/// Reads an `i64` from decimal text, exactly as `spec_parse_i64` states.
pub fn parse_i64(s: &String) -> (r: Option<i64>)
    ensures
        r == spec_parse_i64(s@),
{
    let len = s.as_str().unicode_len();
    if len == 0 {
        return None;
    }
    let first = s.as_str().get_char(0);
    let neg = first == '-';
    let signed = neg || first == '+';
    let start: usize = if signed {
        1
    } else {
        0
    };
    let ghost ds = if signed {
        s@.drop_first()
    } else {
        s@
    };
    proof {
        assert(s@.skip(start as int) =~= ds);
    }
    if start == len {
        return None;
    }
    let limit: u64 = if neg {
        0x8000_0000_0000_0000
    } else {
        0x7fff_ffff_ffff_ffff
    };
    match accumulate_digits(s.as_str(), start, len, limit) {
        None => None,
        Some(v) => {
            if neg {
                if v == 0x8000_0000_0000_0000 {
                    Some(i64::MIN)
                } else {
                    Some(-(v as i64))
                }
            } else {
                Some(v as i64)
            }
        },
    }
}

/// Length of the longest run of decimal digits at the front of `s`.
pub open spec fn spec_digit_prefix_len(s: Seq<char>) -> nat
    decreases s.len(),
{
    if s.len() == 0 || !spec_is_digit(s[0]) {
        0
    } else {
        1 + spec_digit_prefix_len(s.drop_first())
    }
}

proof fn lemma_digit_prefix_len(s: Seq<char>)
    ensures
        spec_digit_prefix_len(s) <= s.len(),
        spec_all_digits(s.take(spec_digit_prefix_len(s) as int)),
        spec_digit_prefix_len(s) < s.len() ==> !spec_is_digit(s[spec_digit_prefix_len(s) as int]),
    decreases s.len(),
{
    if s.len() > 0 && spec_is_digit(s[0]) {
        lemma_digit_prefix_len(s.drop_first());
        let p = spec_digit_prefix_len(s);
        assert forall|i: int| 0 <= i < p implies spec_is_digit(#[trigger] s.take(p as int)[i]) by {
            if i > 0 {
                assert(s.drop_first().take(p - 1)[i - 1] == s[i]);
            }
        }
    }
}

/// Whitespace the cast skips at the front of a text cell, as the
/// embedded engine's own cast does.
pub open spec fn spec_is_cast_space(c: char) -> bool {
    c == ' ' || c == '\t' || c == '\n' || c == '\r' || c == '\u{b}' || c == '\u{c}'
}

/// How many whitespace characters lead the text.
pub open spec fn spec_space_prefix_len(s: Seq<char>) -> nat
    decreases s.len(),
{
    if s.len() == 0 || !spec_is_cast_space(s[0]) {
        0
    } else {
        1 + spec_space_prefix_len(s.drop_first())
    }
}

proof fn lemma_space_prefix_at(s: Seq<char>, i: int)
    requires
        0 <= i <= s.len(),
        forall|k: int| 0 <= k < i ==> spec_is_cast_space(#[trigger] s[k]),
        i == s.len() || !spec_is_cast_space(s[i]),
    ensures
        spec_space_prefix_len(s) == i,
    decreases i,
{
    if i > 0 {
        assert(spec_is_cast_space(s[0]));
        assert(forall|k: int| 0 <= k < s.len() - 1 ==> s.drop_first()[k] == s[k + 1]);
        lemma_space_prefix_at(s.drop_first(), i - 1);
    }
}

/// What the cast step of a shadow-table swap yields for a text cell cast
/// to an integer column: after any leading whitespace and an optional
/// single sign, the value of the run of digits at the front of the text
/// (zero if there is none), saturated to the `i64` range. A date such as
/// `2024-05-01` casts to `2024`; text with no leading digits casts to
/// `0`.
pub open spec fn spec_cast_text_i64(s: Seq<char>) -> i64 {
    let t = s.skip(spec_space_prefix_len(s) as int);
    let neg = t.len() > 0 && t[0] == '-';
    let signed = t.len() > 0 && (t[0] == '-' || t[0] == '+');
    let ds = if signed {
        t.drop_first()
    } else {
        t
    };
    let v = spec_digits_val(ds.take(spec_digit_prefix_len(ds) as int)) as int;
    let sv: int = if neg {
        -v
    } else {
        v
    };
    if sv < -0x8000_0000_0000_0000 {
        i64::MIN
    } else if sv > 0x7fff_ffff_ffff_ffff {
        i64::MAX
    } else {
        sv as i64
    }
}

/// Accumulates the leading digit run of `s` from `start`, saturating at
/// `limit`.
fn accumulate_prefix(s: &str, start: usize, len: usize, limit: u64) -> (r: u64)
    requires
        start <= len == s@.len(),
        limit >= 0x7fff_ffff_ffff_ffff,
    ensures
        ({
            let ds = s@.skip(start as int);
            let v = spec_digits_val(ds.take(spec_digit_prefix_len(ds) as int));
            r == if v > limit {
                limit
            } else {
                v as u64
            }
        }),
{
    let ghost ds = s@.skip(start as int);
    let ghost plen = spec_digit_prefix_len(ds);
    proof {
        lemma_digit_prefix_len(ds);
    }
    let mut acc: u64 = 0;
    let mut i: usize = start;
    loop
        invariant
            start <= i <= len == s@.len(),
            ds == s@.skip(start as int),
            plen == spec_digit_prefix_len(ds),
            plen <= ds.len(),
            spec_all_digits(ds.take(plen as int)),
            plen < ds.len() ==> !spec_is_digit(ds[plen as int]),
            limit >= 0x7fff_ffff_ffff_ffff,
            i - start <= plen,
            acc == spec_digits_val(ds.take(i - start)),
            acc <= limit,
        decreases len - i,
    {
        if i >= len {
            proof {
                assert(i - start == plen);
            }
            return acc;
        }
        let c = s.get_char(i);
        proof {
            assert(ds[i - start] == s@[i as int]);
        }
        let cv = c as u32;
        if cv < 48 || cv > 57 {
            proof {
                if i - start < plen {
                    assert(spec_all_digits(ds.take(plen as int)));
                    assert(ds.take(plen as int)[i - start] == ds[i - start]);
                }
            }
            return acc;
        }
        proof {
            if i - start == plen {
                assert(!spec_is_digit(ds[plen as int]));
            }
        }
        let d = (cv - 48) as u64;
        proof {
            lemma_digits_val_take_succ(ds, i - start);
        }
        if acc > (limit - d) / 10 {
            proof {
                assert(acc * 10 + d > limit) by (nonlinear_arith)
                    requires
                        acc > (limit - d) / 10,
                        d < 10,
                        limit >= 10,
                ;
                lemma_digits_val_grows(ds, i - start + 1, plen as int);
            }
            return limit;
        }
        proof {
            assert(acc * 10 + d <= limit) by (nonlinear_arith)
                requires
                    acc <= (limit - d) / 10,
                    d < 10,
                    limit >= 10,
            ;
        }
        acc = acc * 10 + d;
        i = i + 1;
    }
}

/// Casts text to an integer the way the shadow-table swap does,
/// exactly as `spec_cast_text_i64` states.
pub fn cast_text_i64(s: &String) -> (r: i64)
    ensures
        r == spec_cast_text_i64(s@),
{
    let len = s.as_str().unicode_len();
    let mut w: usize = 0;
    let mut stopped = false;
    while w < len && !stopped
        invariant
            w <= len == s@.len(),
            forall|k: int| 0 <= k < w ==> spec_is_cast_space(#[trigger] s@[k]),
            stopped ==> w < len && !spec_is_cast_space(s@[w as int]),
        decreases len - w, 1int - if stopped { 1int } else { 0int },
    {
        let c = s.as_str().get_char(w);
        if c == ' ' || c == '\t' || c == '\n' || c == '\r' || c == '\u{b}' || c == '\u{c}' {
            w = w + 1;
        } else {
            stopped = true;
        }
    }
    proof {
        lemma_space_prefix_at(s@, w as int);
    }
    let ghost t = s@.skip(w as int);
    if w == len {
        proof {
            assert(t.len() == 0);
            assert(t.take(0) =~= Seq::<char>::empty());
        }
        return 0;
    }
    let first = s.as_str().get_char(w);
    proof {
        assert(t[0] == s@[w as int]);
    }
    let neg = first == '-';
    let signed = neg || first == '+';
    let start: usize = if signed {
        w + 1
    } else {
        w
    };
    let ghost ds = if signed {
        t.drop_first()
    } else {
        t
    };
    proof {
        assert(s@.skip(start as int) =~= ds);
    }
    let limit: u64 = if neg {
        0x8000_0000_0000_0000
    } else {
        0x7fff_ffff_ffff_ffff
    };
    let v = accumulate_prefix(s.as_str(), start, len, limit);
    if neg {
        if v == 0x8000_0000_0000_0000 {
            i64::MIN
        } else {
            -(v as i64)
        }
    } else {
        v as i64
    }
}

} // verus!
