use vstd::prelude::*;

verus! {

/// The character that stands for the base-64 digit `d` (0 <= d < 64):
/// '0'..'9', then 'A'..'Z', then 'a'..'z', then '-' and '_'.
pub open spec fn digit_char(d: int) -> char {
    if d < 10 {
        (48 + d) as char
    } else if d < 36 {
        (55 + d) as char
    } else if d < 62 {
        (61 + d) as char
    } else if d == 62 {
        '-'
    } else {
        '_'
    }
}

/// The base-64 digit that the character `c` stands for (see `digit_char`).
pub open spec fn digit_value(c: char) -> int {
    let x = c as int;
    if 48 <= x < 58 {
        x - 48
    } else if 65 <= x < 91 {
        x - 55
    } else if 97 <= x < 123 {
        x - 61
    } else if c == '-' {
        62
    } else {
        63
    }
}

/// The short code of `n`: its base-64 digits, least significant first,
/// and nothing at all for zero.
pub open spec fn spec_base64(n: nat) -> Seq<char>
    decreases n,
{
    if n == 0 {
        Seq::empty()
    } else {
        seq![digit_char((n % 64) as int)] + spec_base64(n / 64)
    }
}

/// The number that a short code stands for (least significant digit first).
pub open spec fn spec_decode_base64(s: Seq<char>) -> int
    decreases s.len(),
{
    if s.len() == 0 {
        0
    } else {
        digit_value(s[0]) + 64 * spec_decode_base64(s.drop_first())
    }
}

/// The character of one base-64 digit.
fn digit(d: u64) -> (c: char)
    requires
        d < 64,
    ensures
        c == digit_char(d as int),
{
    let b = d as u8;
    if b < 10 {
        (48 + b) as char
    } else if b < 36 {
        (55 + b) as char
    } else if b < 62 {
        (61 + b) as char
    } else if b == 62 {
        '-'
    } else {
        '_'
    }
}

/// Writes `num` as a short code: its base-64 digits, least significant first.
pub fn base64(num: u64) -> (result: String)
    ensures
        result@ == spec_base64(num as nat),
{
    let mut result = String::new();
    let mut num = num;
    let ghost orig = num;
    while num > 0
        invariant
            result@ + spec_base64(num as nat) == spec_base64(orig as nat),
        decreases num,
    {
        let remainder = num % 64;
        let ghost before = num;
        num = num / 64;
        let c = digit(remainder);
        assert(spec_base64(before as nat) == seq![c] + spec_base64(num as nat));
        let ghost old_result = result@;
        crate::text::push_char(&mut result, c);
        assert(result@ + spec_base64(num as nat) =~= old_result + spec_base64(before as nat));
    }
    assert(result@ + spec_base64(0) =~= result@);
    result
}

/// Each digit character reads back as the digit it stands for.
pub proof fn lemma_digit_roundtrip(d: int)
    requires
        0 <= d < 64,
    ensures
        digit_value(digit_char(d)) == d,
{
}

/// Reading a short code back gives the number it was made from.
pub proof fn lemma_base64_decodes(n: nat)
    ensures
        spec_decode_base64(spec_base64(n)) == n,
    decreases n,
{
    if n > 0 {
        lemma_base64_decodes(n / 64);
        lemma_digit_roundtrip((n % 64) as int);
        let s = spec_base64(n);
        assert(s.drop_first() =~= spec_base64(n / 64));
    }
}

/// Whether `c` may stand in a short code: an ASCII letter or digit, '-' or '_',
/// all of which stand for themselves in a URL.
pub open spec fn is_code_char(c: char) -> bool {
    ('0' <= c <= '9') || ('A' <= c <= 'Z') || ('a' <= c <= 'z') || c == '-' || c == '_'
}

/// Short codes hold URL-safe characters only, and end in a digit other than
/// '0' (there are no leading zeros).
pub proof fn lemma_base64_url_safe(n: nat)
    ensures
        forall|i: int| 0 <= i < spec_base64(n).len() ==> is_code_char(#[trigger] spec_base64(n)[i]),
        n > 0 ==> spec_base64(n).len() > 0 && spec_base64(n).last() != '0',
    decreases n,
{
    if n > 0 {
        lemma_base64_url_safe(n / 64);
        let s = spec_base64(n);
        assert forall|i: int| 0 <= i < s.len() implies is_code_char(#[trigger] s[i]) by {
            if i > 0 {
                assert(s[i] == spec_base64(n / 64)[i - 1]);
            }
        }
        if n / 64 == 0 {
            assert(n % 64 == n);
            assert(spec_base64(n / 64) =~= Seq::<char>::empty());
            assert(s =~= seq![digit_char(n as int)]);
            assert(s.last() == digit_char(n as int));
        } else {
            assert(s.last() == spec_base64(n / 64).last());
        }
    }
}

/// Distinct numbers get distinct short codes.
pub proof fn lemma_base64_injective(a: nat, b: nat)
    ensures
        spec_base64(a) == spec_base64(b) ==> a == b,
{
    lemma_base64_decodes(a);
    lemma_base64_decodes(b);
}

} // verus!
