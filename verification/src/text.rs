use vstd::prelude::*;

verus! {

/// Appends one character to a string.
///
/// Trusted: calls `String::push`, whose documentation says it appends the given
/// char to the end of the string; the contract states exactly that, over the
/// string's sequence of characters.
#[verifier::external_body]
pub(crate) fn push_char(s: &mut String, c: char)
    ensures
        final(s)@ == old(s)@.push(c),
{
    s.push(c);
}

/// The characters of `s`, in order.
pub fn chars_of(s: &str) -> (v: Vec<char>)
    ensures
        v@ == s@,
{
    let mut v: Vec<char> = Vec::new();
    for c in it: s.chars()
        invariant
            v@ == it.seq().take(it.index() as int),
    {
        v.push(c);
    }
    v
}

/// Whether the characters in `a` spell out `b`.
pub fn spells(a: &Vec<char>, b: &str) -> (res: bool)
    ensures
        res == (a@ == b@),
{
    let bc = chars_of(b);
    if a.len() != bc.len() {
        return false;
    }
    let n = a.len();
    let mut i: usize = 0;
    while i < n
        invariant
            n == a@.len(),
            n == bc@.len(),
            bc@ == b@,
            i <= n,
            forall|j: int| 0 <= j < i ==> a@[j] == bc@[j],
        decreases n - i,
    {
        if a[i] != bc[i] {
            return false;
        }
        i = i + 1;
    }
    assert(a@ =~= bc@);
    true
}

/// The character of the decimal digit `d` (0 <= d < 10).
pub open spec fn decimal_digit(d: int) -> char {
    (48 + d) as char
}

/// Whether `c` is one of the ASCII digits '0'..'9'.
pub open spec fn is_decimal_digit(c: char) -> bool {
    '0' <= c <= '9'
}

/// `n` written in decimal, most significant digit first, without leading zeros.
pub open spec fn spec_decimal(n: nat) -> Seq<char>
    decreases n,
{
    if n < 10 {
        seq![decimal_digit(n as int)]
    } else {
        spec_decimal(n / 10).push(decimal_digit((n % 10) as int))
    }
}

/// The number that a run of decimal digits spells (most significant first).
pub open spec fn decimal_value(s: Seq<char>) -> nat
    decreases s.len(),
{
    if s.len() == 0 {
        0
    } else {
        10 * decimal_value(s.drop_last()) + ((s.last() as int - 48) as nat)
    }
}

/// Whether every character of `s` is a decimal digit.
pub open spec fn all_decimal_digits(s: Seq<char>) -> bool {
    forall|i: int| 0 <= i < s.len() ==> is_decimal_digit(#[trigger] s[i])
}

/// How a `u8` is read from text: an optional '+' and then one or more decimal
/// digits (leading zeros allowed) whose value is at most 255; anything else,
/// the empty string and a lone '+' among it, is no `u8`.
pub open spec fn spec_parse_u8(s: Seq<char>) -> Option<u8> {
    let digits = if s.len() > 0 && s[0] == '+' { s.drop_first() } else { s };
    if digits.len() > 0 && all_decimal_digits(digits) && decimal_value(digits) <= 255 {
        Some(decimal_value(digits) as u8)
    } else {
        None
    }
}

/// The decimal text of `n` is made of digits only, is not empty, has no
/// leading zero (but for zero itself), and reads back as `n`.
pub proof fn lemma_decimal_reads_back(n: nat)
    ensures
        spec_decimal(n).len() > 0,
        all_decimal_digits(spec_decimal(n)),
        decimal_value(spec_decimal(n)) == n,
        spec_decimal(n)[0] == '0' ==> n == 0,
    decreases n,
{
    let s = spec_decimal(n);
    if n < 10 {
        assert(s.drop_last() =~= Seq::<char>::empty());
        assert(s.last() == decimal_digit(n as int));
        assert(decimal_digit(n as int) as int == 48 + n);
        assert(decimal_value(s) == 10 * decimal_value(s.drop_last()) + ((s.last() as int
            - 48) as nat));
    } else {
        lemma_decimal_reads_back(n / 10);
        let p = spec_decimal(n / 10);
        assert(s.drop_last() =~= p);
        assert(s.last() == decimal_digit((n % 10) as int));
        assert(decimal_digit((n % 10) as int) as int == 48 + n % 10);
        assert(decimal_value(s) == 10 * decimal_value(p) + ((s.last() as int - 48) as nat));
        assert(n == 10 * (n / 10) + n % 10);
        assert(s[0] == p[0]);
        assert forall|i: int| 0 <= i < s.len() implies is_decimal_digit(#[trigger] s[i]) by {
            if i < p.len() {
                assert(s[i] == p[i]);
            }
        }
    }
}

/// Writes `n` in decimal.
pub fn decimal(n: u64) -> (res: String)
    ensures
        res@ == spec_decimal(n as nat),
    decreases n,
{
    if n < 10 {
        let mut res = String::new();
        push_char(&mut res, ((n as u8) + 48) as char);
        assert(res@ =~= spec_decimal(n as nat));
        res
    } else {
        let mut res = decimal(n / 10);
        push_char(&mut res, (((n % 10) as u8) + 48) as char);
        res
    }
}

/// Reads a `u8` from text as Rust's `str::parse::<u8>` does.
pub fn parse_u8(s: &Vec<char>) -> (res: Option<u8>)
    ensures
        res == spec_parse_u8(s@),
{
    let n = s.len();
    let start: usize = if n > 0 && s[0] == '+' { 1 } else { 0 };
    let ghost digits = if s@.len() > 0 && s@[0] == '+' { s@.drop_first() } else { s@ };
    assert(digits =~= s@.subrange(start as int, n as int));
    if start >= n {
        return None;
    }
    let mut acc: u32 = 0;
    let mut i: usize = start;
    while i < n
        invariant
            start <= i <= n,
            n == s@.len(),
            digits == s@.subrange(start as int, n as int),
            digits == (if s@.len() > 0 && s@[0] == '+' { s@.drop_first() } else { s@ }),
            all_decimal_digits(s@.subrange(start as int, i as int)),
            decimal_value(s@.subrange(start as int, i as int)) <= 255 ==> acc == decimal_value(
                s@.subrange(start as int, i as int),
            ),
            decimal_value(s@.subrange(start as int, i as int)) > 255 ==> acc == 256,
        decreases n - i,
    {
        let c = s[i];
        let ghost prefix = s@.subrange(start as int, i as int);
        let ghost next = s@.subrange(start as int, i + 1);
        assert(next.drop_last() =~= prefix);
        if !('0' <= c && c <= '9') {
            assert(!is_decimal_digit(digits[i - start]));
            assert(!all_decimal_digits(digits));
            return None;
        }
        let d = (c as u32) - 48;
        if acc <= 255 {
            acc = acc * 10 + d;
            if acc > 255 {
                acc = 256;
            }
        }
        assert(all_decimal_digits(next));
        i = i + 1;
    }
    assert(s@.subrange(start as int, n as int) == digits);
    if acc <= 255 {
        Some(acc as u8)
    } else {
        None
    }
}

} // verus!
