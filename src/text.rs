//! Text helpers: decimal rendering and parsing of integers, SQL quoting.
use vstd::prelude::*;

verus! {

/// The character of a decimal digit.
pub open spec fn digit_char(d: nat) -> char {
    if d == 0 { '0' }
    else if d == 1 { '1' }
    else if d == 2 { '2' }
    else if d == 3 { '3' }
    else if d == 4 { '4' }
    else if d == 5 { '5' }
    else if d == 6 { '6' }
    else if d == 7 { '7' }
    else if d == 8 { '8' }
    else { '9' }
}

/// The decimal digits of a natural number, without leading zeros.
pub open spec fn digits_of(n: nat) -> Seq<char>
    decreases n,
{
    if n < 10 {
        seq![digit_char(n)]
    } else {
        digits_of(n / 10) + seq![digit_char(n % 10)]
    }
}

/// The decimal text of an integer, with a leading `-` when negative.
pub open spec fn int_text(v: int) -> Seq<char> {
    if v < 0 {
        seq!['-'] + digits_of((-v) as nat)
    } else {
        digits_of(v as nat)
    }
}

fn digit_str(d: u64) -> (r: &'static str)
    requires
        d < 10,
    ensures
        r@ == seq![digit_char(d as nat)],
{
    proof {
        reveal_strlit("0");
        reveal_strlit("1");
        reveal_strlit("2");
        reveal_strlit("3");
        reveal_strlit("4");
        reveal_strlit("5");
        reveal_strlit("6");
        reveal_strlit("7");
        reveal_strlit("8");
        reveal_strlit("9");
    }
    if d == 0 { "0" }
    else if d == 1 { "1" }
    else if d == 2 { "2" }
    else if d == 3 { "3" }
    else if d == 4 { "4" }
    else if d == 5 { "5" }
    else if d == 6 { "6" }
    else if d == 7 { "7" }
    else if d == 8 { "8" }
    else { assert(seq!['9'] =~= "9"@); "9" }
}

fn append_digits(s: &mut String, n: u64)
    ensures
        final(s)@ == old(s)@ + digits_of(n as nat),
    decreases n,
{
    if n >= 10 {
        append_digits(s, n / 10);
    }
    s.append(digit_str(n % 10));
    proof {
        if n >= 10 {
            assert(old(s)@ + digits_of(n as nat) =~= old(s)@ + digits_of((n / 10) as nat) + seq![digit_char((n % 10) as nat)]);
        }
    }
}

/// Appends the decimal text of `v` to `s`.
pub fn append_int(s: &mut String, v: i64)
    ensures
        final(s)@ == old(s)@ + int_text(v as int),
{
    if v < 0 {
        proof { reveal_strlit("-"); }
        s.append("-");
        let m: u64 = if v == i64::MIN { 9223372036854775808u64 } else { (-v) as u64 };
        append_digits(s, m);
        assert(final(s)@ =~= old(s)@ + int_text(v as int));
    } else {
        append_digits(s, v as u64);
    }
}

/// The decimal text of `v`.
pub fn int_to_text(v: i64) -> (r: String)
    ensures
        r@ == int_text(v as int),
{
    let mut s = String::new();
    append_int(&mut s, v);
    assert(s@ =~= int_text(v as int));
    s
}

/// `s` with every single quote doubled, as an SQL string literal needs.
pub open spec fn escaped(s: Seq<char>) -> Seq<char>
    decreases s.len(),
{
    if s.len() == 0 {
        Seq::empty()
    } else if s.last() == '\'' {
        escaped(s.drop_last()) + seq!['\'', '\'']
    } else {
        escaped(s.drop_last()) + seq![s.last()]
    }
}

/// Appends `text` to `s` with every single quote doubled.
pub fn append_escaped(s: &mut String, text: &str)
    ensures
        final(s)@ == old(s)@ + escaped(text@),
{
    proof { reveal_strlit("''"); }
    let n = text.unicode_len();
    let mut i: usize = 0;
    while i < n
        invariant
            n == text@.len(),
            i <= n,
            s@ == old(s)@ + escaped(text@.subrange(0, i as int)),
        decreases n - i,
    {
        let c = text.get_char(i);
        let ghost pre = s@;
        assert(text@.subrange(0, i + 1).drop_last() =~= text@.subrange(0, i as int));
        assert(text@.subrange(0, i + 1).last() == c);
        if c == '\'' {
            s.append("''");
            proof { reveal_strlit("''"); }
            assert("''"@.len() == 2);
            assert("''"@ =~= seq!['\'', '\'']);
            assert(s@ =~= pre + seq!['\'', '\'']);
        } else {
            let one = text.substring_char(i, i + 1);
            assert(one@ =~= seq![c]);
            s.append(one);
            assert(s@ =~= pre + seq![c]);
        }
        assert(escaped(text@.subrange(0, i + 1)) == escaped(text@.subrange(0, i as int)) + (if c == '\'' { seq!['\'', '\''] } else { seq![c] }));
        assert(s@ =~= old(s)@ + escaped(text@.subrange(0, i + 1)));
        i = i + 1;
    }
    assert(text@.subrange(0, n as int) =~= text@);
}

/// `text` with every single quote doubled.
pub fn escape_quote(text: &str) -> (r: String)
    ensures
        r@ == escaped(text@),
{
    let mut s = String::new();
    append_escaped(&mut s, text);
    assert(s@ =~= escaped(text@));
    s
}

/// Whether every character of `s` is an ASCII decimal digit.
pub open spec fn all_digits(s: Seq<char>) -> bool {
    forall|i: int| 0 <= i < s.len() ==> '0' <= #[trigger] s[i] <= '9'
}

/// The value of a sequence of decimal digits.
pub open spec fn digits_value(s: Seq<char>) -> int
    decreases s.len(),
{
    if s.len() == 0 {
        0
    } else {
        digits_value(s.drop_last()) * 10 + (s.last() as int - '0' as int)
    }
}

/// The integer that `s` writes in decimal: an optional sign, then at least one
/// digit, and nothing else.
pub open spec fn decimal_value(s: Seq<char>) -> Option<int> {
    if s.len() > 0 && (s[0] == '-' || s[0] == '+') {
        let rest = s.drop_first();
        if rest.len() > 0 && all_digits(rest) {
            Some(if s[0] == '-' { -digits_value(rest) } else { digits_value(rest) })
        } else {
            None
        }
    } else if s.len() > 0 && all_digits(s) {
        Some(digits_value(s))
    } else {
        None
    }
}

/// The value of `s` as an integer within `[lo, hi]`, if it writes one.
pub open spec fn decimal_in(s: Seq<char>, lo: int, hi: int) -> Option<int> {
    match decimal_value(s) {
        Some(v) => if lo <= v <= hi { Some(v) } else { None },
        None => None,
    }
}

proof fn lemma_digits_value_grows(s: Seq<char>, c: char)
    requires
        all_digits(s),
        '0' <= c <= '9',
    ensures
        digits_value(s.push(c)) >= digits_value(s),
        digits_value(s) >= 0,
    decreases s.len(),
{
    assert(s.push(c).drop_last() =~= s);
    if s.len() > 0 {
        assert(all_digits(s.drop_last()));
        lemma_digits_value_grows(s.drop_last(), s.last());
        assert(s.drop_last().push(s.last()) =~= s);
    }
}

const PARSE_LIMIT: u64 = 9223372036854775808;

/// Parses `s` as an integer within `[lo, hi]`, as `i64::from_str` and
/// `i32::from_str` read decimal text.
pub fn parse_int(s: &str, lo: i64, hi: i64) -> (r: Option<i64>)
    ensures
        match r {
            Some(v) => decimal_in(s@, lo as int, hi as int) == Some(v as int),
            None => decimal_in(s@, lo as int, hi as int) is None,
        },
{
    let n = s.unicode_len();
    if n == 0 {
        return None;
    }
    let first = s.get_char(0);
    let signed = first == '-' || first == '+';
    let start: usize = if signed { 1 } else { 0 };
    if start == n {
        return None;
    }
    let ghost digits = s@.subrange(start as int, n as int);
    proof {
        if signed {
            assert(digits =~= s@.drop_first());
        } else {
            assert(digits =~= s@);
        }
    }
    let mut acc: u64 = 0;
    let mut over = false;
    let mut i: usize = start;
    while i < n
        invariant
            n == s@.len(),
            start <= i <= n,
            digits == s@.subrange(start as int, n as int),
            signed ==> digits == s@.drop_first(),
            !signed ==> digits == s@,
            first == s@[0],
            signed == (first == '-' || first == '+'),
            start == (if signed { 1usize } else { 0usize }),
            all_digits(s@.subrange(start as int, i as int)),
            over ==> digits_value(s@.subrange(start as int, i as int)) > PARSE_LIMIT,
            !over ==> acc as int == digits_value(s@.subrange(start as int, i as int)),
            !over ==> acc <= PARSE_LIMIT,
        decreases n - i,
    {
        let c = s.get_char(i);
        if c < '0' || c > '9' {
            assert(digits[i - start] == c);
            assert(!all_digits(digits));
            return None;
        }
        let ghost pre = s@.subrange(start as int, i as int);
        assert(s@.subrange(start as int, i + 1) =~= pre.push(c));
        assert(pre.push(c).drop_last() =~= pre);
        proof { lemma_digits_value_grows(pre, c); }
        if !over {
            let d: u64 = (c as u32 - '0' as u32) as u64;
            if acc > (PARSE_LIMIT - d) / 10 {
                over = true;
            } else {
                acc = acc * 10 + d;
            }
        }
        i = i + 1;
    }
    assert(s@.subrange(start as int, n as int) =~= digits);
    if over {
        return None;
    }
    let neg = first == '-';
    if neg {
        let v: i128 = -(acc as i128);
        if v < lo as i128 || v > hi as i128 {
            None
        } else {
            Some(v as i64)
        }
    } else {
        if acc as i128 > hi as i128 || (acc as i128) < lo as i128 {
            None
        } else {
            Some(acc as i64)
        }
    }
}

} // verus!
