use vstd::prelude::*;
use vstd::string::{StringExecFns, StringSliceAdditionalSpecFns};
use vstd::utf8::{decode_utf8, encode_utf8_decode_utf8};

verus! {

/// Whether two strings hold the same characters.
pub fn same_text(a: &str, b: &str) -> (r: bool)
    ensures
        r == (a@ == b@),
{
    let x = a.as_bytes();
    let y = b.as_bytes();
    proof {
        encode_utf8_decode_utf8(a@);
        encode_utf8_decode_utf8(b@);
    }
    if x.len() != y.len() {
        return false;
    }
    let mut i: usize = 0;
    while i < x.len()
        invariant
            x@ == a.spec_bytes(),
            y@ == b.spec_bytes(),
            x@.len() == y@.len(),
            i <= x@.len(),
            forall|k: int| 0 <= k < i ==> x@[k] == y@[k],
        decreases x@.len() - i,
    {
        if x[i] != y[i] {
            return false;
        }
        i = i + 1;
    }
    assert(x@ =~= y@);
    assert(decode_utf8(a.spec_bytes()) == decode_utf8(b.spec_bytes()));
    true
}

/// An ASCII decimal digit.
pub open spec fn is_digit(c: char) -> bool {
    '0' <= c <= '9'
}

/// The value of a digit character.
pub open spec fn digit_value(c: char) -> nat {
    (c as u32 - '0' as u32) as nat
}

/// The value of a sequence of decimal digits, most significant first.
pub open spec fn digits_value(s: Seq<char>) -> nat
    decreases s.len(),
{
    if s.len() == 0 {
        0
    } else {
        digits_value(s.drop_last()) * 10 + digit_value(s.last())
    }
}

/// `s` is a nonempty run of decimal digits.
pub open spec fn is_numeral(s: Seq<char>) -> bool {
    s.len() > 0 && forall|i: int| 0 <= i < s.len() ==> is_digit(#[trigger] s[i])
}

/// The text of a decimal byte value: an optional `+`, then one or more digits
/// whose value is at most 255; `None` for any other text.
pub open spec fn parse_u8_spec(s: Seq<char>) -> Option<u8> {
    let d = if s.len() > 0 && s[0] == '+' {
        s.drop_first()
    } else {
        s
    };
    if is_numeral(d) && digits_value(d) <= 255 {
        Some(digits_value(d) as u8)
    } else {
        None
    }
}

proof fn lemma_digits_step(s: Seq<char>, i: int)
    requires
        0 <= i < s.len(),
    ensures
        digits_value(s.subrange(0, i + 1)) == digits_value(s.subrange(0, i)) * 10 + digit_value(
            s[i],
        ),
{
    assert(s.subrange(0, i + 1).drop_last() =~= s.subrange(0, i));
}

proof fn lemma_digits_grow(s: Seq<char>, i: int, j: int)
    requires
        0 <= i <= j <= s.len(),
    ensures
        digits_value(s.subrange(0, i)) <= digits_value(s.subrange(0, j)),
    decreases j - i,
{
    if i < j {
        lemma_digits_grow(s, i, j - 1);
        lemma_digits_step(s, j - 1);
    }
}

/// An ASCII character is encoded as the byte of its code.
proof fn lemma_ascii_byte(c: char)
    requires
        '\0' <= c <= '\u{7f}',
    ensures
        c as u8 as u32 == c as u32,
        c as u8 == 43 <==> c == '+',
        48 <= c as u8 <= 57 <==> is_digit(c),
        is_digit(c) ==> digit_value(c) == (c as u8 - 48) as nat,
{
}

/// Reads a decimal byte value: an optional `+`, then digits up to 255.
pub fn parse_u8(s: &str) -> (r: Option<u8>)
    ensures
        r == parse_u8_spec(s@),
{
    if !s.is_ascii() {
        proof {
            let d = if s@.len() > 0 && s@[0] == '+' {
                s@.drop_first()
            } else {
                s@
            };
            if is_numeral(d) {
                assert(vstd::utf8::is_ascii_chars(s@)) by {
                    assert forall|i: int| 0 <= i < s@.len() implies '\0' <= #[trigger] s@[i] <= '\u{7f}' by {
                        if s@.len() > 0 && s@[0] == '+' && i > 0 {
                            assert(s@[i] == d[i - 1]);
                        } else if !(s@.len() > 0 && s@[0] == '+') {
                            assert(s@[i] == d[i]);
                        }
                    }
                }
            }
        }
        return None;
    }
    let b = s.as_bytes();
    proof {
        vstd::string::is_ascii_spec_bytes(s);
    }
    let n = b.len();
    let mut i: usize = 0;
    if n > 0 && b[0] == 43u8 {
        i = 1;
    }
    let start = i;
    let ghost d = s@.subrange(start as int, n as int);
    proof {
        if n > 0 {
            lemma_ascii_byte(s@[0]);
        }
        if start == 1 {
            assert(d =~= s@.drop_first());
        } else {
            assert(d =~= s@);
        }
    }
    if i == n {
        return None;
    }
    let mut value: u16 = 0;
    while i < n
        invariant
            b@ == s.spec_bytes(),
            s.spec_bytes() == Seq::new(s@.len(), |k: int| s@[k] as u8),
            vstd::utf8::is_ascii_chars(s@),
            n == b@.len(),
            n == s@.len(),
            start <= i <= n,
            d == s@.subrange(start as int, n as int),
            d == (if s@.len() > 0 && s@[0] == '+' {
                s@.drop_first()
            } else {
                s@
            }),
            forall|k: int| 0 <= k < i - start ==> is_digit(#[trigger] d[k]),
            value == digits_value(d.subrange(0, i - start)),
            value <= 255,
        decreases n - i,
    {
        let c = b[i];
        proof {
            assert(d[i - start] == s@[i as int]);
            lemma_ascii_byte(s@[i as int]);
        }
        if c < 48u8 || c > 57u8 {
            proof {
                assert(!is_digit(d[i - start]));
            }
            return None;
        }
        proof {
            lemma_digits_step(d, i - start);
            assert(digit_value(d[i - start]) == (c - 48) as nat);
        }
        let next = value * 10 + (c - 48u8) as u16;
        if next > 255 {
            proof {
                lemma_digits_grow(d, i - start + 1, d.len() as int);
                assert(d.subrange(0, d.len() as int) =~= d);
            }
            return None;
        }
        value = next;
        i = i + 1;
    }
    assert(d.subrange(0, d.len() as int) =~= d);
    Some(value as u8)
}

/// The character of a decimal digit.
pub open spec fn digit_char(d: nat) -> char {
    if d == 0 {
        '0'
    } else if d == 1 {
        '1'
    } else if d == 2 {
        '2'
    } else if d == 3 {
        '3'
    } else if d == 4 {
        '4'
    } else if d == 5 {
        '5'
    } else if d == 6 {
        '6'
    } else if d == 7 {
        '7'
    } else if d == 8 {
        '8'
    } else {
        '9'
    }
}

/// The decimal text of `n`, without leading zeros.
pub open spec fn decimal(n: nat) -> Seq<char>
    decreases n,
{
    if n < 10 {
        seq![digit_char(n)]
    } else {
        decimal(n / 10) + seq![digit_char(n % 10)]
    }
}

/// The text of one decimal digit.
pub fn digit_text(d: u8) -> (r: &'static str)
    requires
        d < 10,
    ensures
        r@ == seq![digit_char(d as nat)],
{
    proof {
        reveal_strlit("0");
        reveal_strlit("1");
        reveal_strlit("2");
        reveal_strlit("3");
        reveal_strlit("4");
        reveal_strlit("5");
        reveal_strlit("6");
        reveal_strlit("7");
        reveal_strlit("8");
        reveal_strlit("9");
    }
    let r = if d == 0 {
        "0"
    } else if d == 1 {
        "1"
    } else if d == 2 {
        "2"
    } else if d == 3 {
        "3"
    } else if d == 4 {
        "4"
    } else if d == 5 {
        "5"
    } else if d == 6 {
        "6"
    } else if d == 7 {
        "7"
    } else if d == 8 {
        "8"
    } else {
        "9"
    };
    assert(r@ =~= seq![digit_char(d as nat)]);
    r
}

/// Appends the decimal text of `n` to `s`.
pub fn append_decimal(s: &mut String, n: u8)
    ensures
        final(s)@ == old(s)@ + decimal(n as nat),
{
    if n >= 100 {
        s.append(digit_text(n / 100));
    }
    if n >= 10 {
        s.append(digit_text((n / 10) % 10));
    }
    s.append(digit_text(n % 10));
    proof {
        let m = n as nat;
        if m >= 100 {
            assert(decimal(m / 10) == decimal(m / 100) + seq![digit_char((m / 10) % 10)]);
            assert(decimal(m / 100) == seq![digit_char(m / 100)]);
        } else if m >= 10 {
            assert(decimal(m / 10) == seq![digit_char(m / 10)]);
        }
        assert(s@ =~= old(s)@ + decimal(m));
    }
}

} // verus!
