//! Unescaping of a quoted string literal.
use vstd::prelude::*;

verus! {

/// Why a quoted literal cannot be unescaped.
#[derive(Debug, Clone, Copy, PartialEq, Eq, Structural)]
pub enum UnescapeError {
    /// The input does not start and end with a double quote.
    MissingQuotes,
    /// `\u` is not followed by `{`.
    BadUnicodeEscape,
    /// The digits of a `\u{..}` escape are no hexadecimal `u32`.
    InvalidHex,
    /// The value of a `\u{..}` escape is no Unicode scalar value.
    InvalidCodepoint,
    /// A backslash is followed by this character, which starts no escape.
    UnsupportedEscape(char),
    /// The input ends right after a backslash.
    UnterminatedEscape,
}

pub open spec fn is_hex_digit(c: char) -> bool {
    ('0' <= c && c <= '9') || ('a' <= c && c <= 'f') || ('A' <= c && c <= 'F')
}

pub open spec fn hex_digit_value(c: char) -> nat {
    if '0' <= c && c <= '9' {
        (c as u32 - '0' as u32) as nat
    } else if 'a' <= c && c <= 'f' {
        (c as u32 - 'a' as u32 + 10) as nat
    } else {
        (c as u32 - 'A' as u32 + 10) as nat
    }
}

/// The number that a sequence of hexadecimal digits spells.
pub open spec fn hex_number(d: Seq<char>) -> nat
    decreases d.len(),
{
    if d.len() == 0 {
        0
    } else {
        hex_number(d.drop_last()) * 16 + hex_digit_value(d.last())
    }
}

/// The digits of a base-16 number: a leading `+` is allowed before at least
/// one more character.
pub open spec fn hex_digits(h: Seq<char>) -> Seq<char> {
    if h.len() > 1 && h[0] == '+' {
        h.drop_first()
    } else {
        h
    }
}

/// The `u32` that `h` spells in base 16, if any: at least one digit, every
/// one hexadecimal, and a value that fits.
pub open spec fn hex_value(h: Seq<char>) -> Option<u32> {
    let d = hex_digits(h);
    if d.len() > 0 && (forall|i: int| 0 <= i < d.len() ==> is_hex_digit(#[trigger] d[i]))
        && hex_number(d) <= u32::MAX {
        Some(hex_number(d) as u32)
    } else {
        None
    }
}

/// A Unicode scalar value: no surrogate, at most `0x10FFFF`.
pub open spec fn is_scalar_value(code: u32) -> bool {
    code < 0xD800 || (0xE000 <= code && code <= 0x10FFFF)
}

pub open spec fn char_of(code: u32) -> Option<char> {
    if is_scalar_value(code) {
        Some(choose|c: char| #[trigger] (c as u32) == code)
    } else {
        None
    }
}

/// Index of the first `}` in `t` at or after `i`, or the length of `t`.
pub open spec fn brace_index(t: Seq<char>, i: int) -> int
    decreases t.len() - i,
{
    if i >= t.len() {
        t.len() as int
    } else if t[i] == '}' {
        i
    } else {
        brace_index(t, i + 1)
    }
}

pub open spec fn prepend(c: char, r: Result<Seq<char>, UnescapeError>) -> Result<
    Seq<char>,
    UnescapeError,
> {
    match r {
        Ok(x) => Ok(seq![c] + x),
        Err(e) => Err(e),
    }
}

pub open spec fn then_prefix(p: Seq<char>, r: Result<Seq<char>, UnescapeError>) -> Result<
    Seq<char>,
    UnescapeError,
> {
    match r {
        Ok(x) => Ok(p + x),
        Err(e) => Err(e),
    }
}

/// The character that a one-letter escape stands for.
pub open spec fn simple_escape(e: char) -> Option<char> {
    if e == '"' {
        Some('"')
    } else if e == 'n' {
        Some('\n')
    } else if e == 't' {
        Some('\t')
    } else if e == 'r' {
        Some('\r')
    } else if e == '\\' {
        Some('\\')
    } else {
        None
    }
}

/// Unescaping of what follows the opening quote. A `"` that is the last
/// character closes the literal; any other character but `\` stands for
/// itself.
pub open spec fn body_spec(t: Seq<char>) -> Result<Seq<char>, UnescapeError>
    decreases t.len(),
{
    if t.len() == 0 {
        Ok(Seq::empty())
    } else if t[0] == '"' && t.len() == 1 {
        Ok(Seq::empty())
    } else if t[0] != '\\' {
        prepend(t[0], body_spec(t.drop_first()))
    } else if t.len() == 1 {
        Err(UnescapeError::UnterminatedEscape)
    } else if simple_escape(t[1]) is Some {
        prepend(simple_escape(t[1])->0, body_spec(t.skip(2)))
    } else if t[1] == 'u' {
        if t.len() < 3 || t[2] != '{' {
            Err(UnescapeError::BadUnicodeEscape)
        } else {
            let j = brace_index(t, 3);
            let rest = if 3 <= j < t.len() {
                t.skip(j + 1)
            } else {
                Seq::empty()
            };
            match hex_value(t.subrange(3, j)) {
                None => Err(UnescapeError::InvalidHex),
                Some(code) => match char_of(code) {
                    None => Err(UnescapeError::InvalidCodepoint),
                    Some(c) => prepend(c, body_spec(rest)),
                },
            }
        }
    } else {
        Err(UnescapeError::UnsupportedEscape(t[1]))
    }
}

/// Unescaping of a whole literal, quotes included.
pub open spec fn unescape_spec(s: Seq<char>) -> Result<Seq<char>, UnescapeError> {
    if s.len() < 2 || s[0] != '"' || s.last() != '"' {
        Err(UnescapeError::MissingQuotes)
    } else {
        body_spec(s.drop_first())
    }
}

proof fn lemma_then_prefix_push(p: Seq<char>, c: char, r: Result<Seq<char>, UnescapeError>)
    ensures
        then_prefix(p, prepend(c, r)) == then_prefix(p.push(c), r),
{
    if let Ok(x) = r {
        assert(p + (seq![c] + x) =~= p.push(c) + x);
    }
}

proof fn lemma_hex_number_prefix(d: Seq<char>, k: int)
    requires
        0 <= k <= d.len(),
    ensures
        hex_number(d.take(k)) <= hex_number(d),
    decreases d.len(),
{
    if k < d.len() {
        lemma_hex_number_prefix(d.drop_last(), k);
        assert(d.drop_last().take(k) == d.take(k));
    } else {
        assert(d.take(k) == d);
    }
}

/// Relies on `String::push`: the character is appended at the end.
#[verifier::external_body]
fn push_char(s: &mut String, c: char)
    ensures
        final(s)@ == old(s)@.push(c),
{
    s.push(c);
}

/// Relies on `char::from_u32`: `Some` exactly for a Unicode scalar value,
/// holding the character with that code.
#[verifier::external_body]
fn char_from_u32(code: u32) -> (r: Option<char>)
    ensures
        r == char_of(code),
{
    char::from_u32(code)
}

/// Reads `s[from..to]` as a base-16 `u32`.
fn parse_hex(s: &str, from: usize, to: usize) -> (r: Option<u32>)
    requires
        from <= to <= s@.len(),
    ensures
        r == hex_value(s@.subrange(from as int, to as int)),
{
    let ghost h = s@.subrange(from as int, to as int);
    let mut start = from;
    if to - from > 1 && s.get_char(from) == '+' {
        start = from + 1;
    }
    let ghost d = s@.subrange(start as int, to as int);
    assert(d == hex_digits(h));
    if start == to {
        return None;
    }
    let mut acc: u64 = 0;
    let mut i = start;
    while i < to
        invariant
            from <= start < to <= s@.len(),
            start <= i <= to,
            h == s@.subrange(from as int, to as int),
            d == s@.subrange(start as int, to as int),
            d == hex_digits(h),
            forall|m: int| start <= m < i ==> is_hex_digit(#[trigger] s@[m]),
            acc == hex_number(s@.subrange(start as int, i as int)),
            acc <= u32::MAX,
        decreases to - i,
    {
        let c = s.get_char(i);
        if !(('0' <= c && c <= '9') || ('a' <= c && c <= 'f') || ('A' <= c && c <= 'F')) {
            proof {
                assert(d[i - start] == c);
                assert(!is_hex_digit(d[i - start]));
            }
            return None;
        }
        let dig: u64 = if '0' <= c && c <= '9' {
            (c as u32 - '0' as u32) as u64
        } else if 'a' <= c && c <= 'f' {
            (c as u32 - 'a' as u32 + 10) as u64
        } else {
            (c as u32 - 'A' as u32 + 10) as u64
        };
        assert(dig == hex_digit_value(c));
        proof {
            assert(s@.subrange(start as int, i + 1).drop_last() == s@.subrange(
                start as int,
                i as int,
            ));
        }
        acc = acc * 16 + dig;
        if acc > 0xFFFF_FFFF {
            proof {
                assert(d.take(i + 1 - start) == s@.subrange(start as int, i + 1));
                lemma_hex_number_prefix(d, i + 1 - start);
                assert(hex_number(d) > u32::MAX);
            }
            return None;
        }
        i = i + 1;
    }
    proof {
        assert(s@.subrange(start as int, i as int) == d);
        assert forall|m: int| 0 <= m < d.len() implies is_hex_digit(#[trigger] d[m]) by {
            assert(d[m] == s@[start + m]);
        }
    }
    Some(acc as u32)
}

/// Unescapes a double-quoted literal: `\"`, `\n`, `\t`, `\r`, `\\` and
/// `\u{hex}` stand for the characters they name, every other character for
/// itself, and the closing quote ends the literal.
pub fn unescape(input: &str) -> (r: Result<String, UnescapeError>)
    ensures
        (match r {
            Ok(s) => Ok(s@),
            Err(e) => Err(e),
        }) == unescape_spec(input@),
{
    let n = input.unicode_len();
    if n < 2 || input.get_char(0) != '"' || input.get_char(n - 1) != '"' {
        return Err(UnescapeError::MissingQuotes);
    }
    let mut out = String::new();
    let mut k: usize = 1;
    proof {
        assert(input@.drop_first() == input@.subrange(1, n as int));
    }
    assert(then_prefix(out@, body_spec(input@.subrange(1, n as int))) == unescape_spec(input@)) by {
        if let Ok(x) = body_spec(input@.subrange(1, n as int)) {
            assert(out@ + x =~= x);
        }
    }
    while k < n
        invariant
            1 <= k <= n,
            n == input@.len(),
            unescape_spec(input@) == then_prefix(out@, body_spec(input@.subrange(k as int, n as int))),
        decreases n - k,
    {
        let ghost t = input@.subrange(k as int, n as int);
        let c = input.get_char(k);
        if c == '"' && k + 1 == n {
            assert(out@ + Seq::<char>::empty() == out@);
            return Ok(out);
        }
        if c != '\\' {
            proof {
                assert(t.drop_first() == input@.subrange(k + 1, n as int));
                lemma_then_prefix_push(out@, c, body_spec(t.drop_first()));
            }
            push_char(&mut out, c);
            k = k + 1;
        } else {
            if k + 1 == n {
                return Err(UnescapeError::UnterminatedEscape);
            }
            let e = input.get_char(k + 1);
            let simple: Option<char> = if e == '"' {
                Some('"')
            } else if e == 'n' {
                Some('\n')
            } else if e == 't' {
                Some('\t')
            } else if e == 'r' {
                Some('\r')
            } else if e == '\\' {
                Some('\\')
            } else {
                None
            };
            assert(simple == simple_escape(e));
            if let Some(x) = simple {
                proof {
                    assert(t.skip(2) == input@.subrange(k + 2, n as int));
                    lemma_then_prefix_push(out@, x, body_spec(t.skip(2)));
                }
                push_char(&mut out, x);
                k = k + 2;
            } else if e == 'u' {
                if k + 2 >= n || input.get_char(k + 2) != '{' {
                    return Err(UnescapeError::BadUnicodeEscape);
                }
                let mut j = k + 3;
                while j < n && input.get_char(j) != '}'
                    invariant
                        k + 3 <= j <= n,
                        n == input@.len(),
                        t == input@.subrange(k as int, n as int),
                        brace_index(t, j - k) == brace_index(t, 3),
                    decreases n - j,
                {
                    j = j + 1;
                }
                assert(brace_index(t, j - k) == j - k);
                proof {
                    assert(t.subrange(3, j - k) == input@.subrange(k + 3, j as int));
                }
                let code = match parse_hex(input, k + 3, j) {
                    None => {
                        return Err(UnescapeError::InvalidHex);
                    },
                    Some(code) => code,
                };
                let ch = match char_from_u32(code) {
                    None => {
                        return Err(UnescapeError::InvalidCodepoint);
                    },
                    Some(ch) => ch,
                };
                let next = if j < n {
                    j + 1
                } else {
                    n
                };
                proof {
                    let rest = if j - k < t.len() {
                        t.skip(j - k + 1)
                    } else {
                        Seq::empty()
                    };
                    assert(rest == input@.subrange(next as int, n as int));

                    lemma_then_prefix_push(out@, ch, body_spec(rest));
                }
                push_char(&mut out, ch);
                k = next;
            } else {
                return Err(UnescapeError::UnsupportedEscape(e));
            }
        }
    }
    proof {
        assert(input@.subrange(k as int, n as int) == Seq::<char>::empty());
        assert(out@ + Seq::<char>::empty() == out@);
    }
    Ok(out)
}

} // verus!
