//! The kinds of broken encoding this library knows, and the errors of a repair.
use vstd::prelude::*;

verus! {

/// Describes how a string is broken. Each variant maps to exactly one detection and
/// one repair strategy.
#[derive(Debug, Clone, Copy, PartialEq, Eq, Structural)]
pub enum EncodingIssue {
    /// Win-1251 bytes were mis-read as Latin-1 and re-encoded as UTF-8.
    /// Each char's codepoint equals the original Win-1251 byte (0x00 to 0xFF).
    Win1251AsLatin1,
}

/// Why a repair failed.
#[derive(Debug, Clone, Copy, PartialEq, Eq, Structural)]
pub enum FixError {
    /// A character's codepoint is outside the expected byte range.
    CodepointOutOfRange { ch: char, codepoint: u32 },
    /// The recovered byte sequence is not valid for the target encoding.
    DecodingFailed,
}

/// The upper-case hexadecimal digit for `d` (which is below 16).
pub open spec fn hex_digit(d: nat) -> char {
    if d < 10 {
        (d + 48) as char
    } else {
        (d + 55) as char
    }
}

/// The upper-case hexadecimal digits of `n`, without leading zeros.
pub open spec fn upper_hex(n: nat) -> Seq<char>
    decreases n,
{
    if n < 16 {
        seq![hex_digit(n)]
    } else {
        upper_hex(n / 16).push(hex_digit(n % 16))
    }
}

/// The text that describes `e`.
pub open spec fn error_message(e: FixError) -> Seq<char> {
    match e {
        FixError::CodepointOutOfRange { ch, codepoint } => "char '"@ + seq![ch]
            + "' has codepoint 0x"@ + upper_hex(codepoint as nat) + ", expected <= 0xFF"@,
        FixError::DecodingFailed => "byte sequence invalid for target encoding"@,
    }
}

/// Calls `String::push`, which appends one character at the end of the string.
#[verifier::external_body]
fn push_char(s: &mut String, c: char)
    ensures
        final(s)@ == old(s)@.push(c),
{
    s.push(c);
}

/// The character of the hexadecimal digit `d`.
fn hex_digit_char(d: u32) -> (c: char)
    requires
        d < 16,
    ensures
        c == hex_digit(d as nat),
{
    if d < 10 {
        ((d as u8) + 48) as char
    } else {
        ((d as u8) + 55) as char
    }
}

/// Appends the upper-case hexadecimal digits of `n` to `s`.
fn push_upper_hex(s: &mut String, n: u32)
    ensures
        final(s)@ == old(s)@ + upper_hex(n as nat),
    decreases n,
{
    if n >= 16 {
        push_upper_hex(s, n / 16);
    }
    push_char(s, hex_digit_char(n % 16));
    assert(s@ =~= old(s)@ + upper_hex(n as nat));
}

impl FixError {
    /// The human-readable description of this error.
    pub fn message(&self) -> (res: String)
        ensures
            res@ == error_message(*self),
    {
        match self {
            FixError::CodepointOutOfRange { ch, codepoint } => {
                let mut s = String::from_str("char '");
                push_char(&mut s, *ch);
                s.append("' has codepoint 0x");
                push_upper_hex(&mut s, *codepoint);
                s.append(", expected <= 0xFF");
                s
            },
            FixError::DecodingFailed => String::from_str("byte sequence invalid for target encoding"),
        }
    }
}

} // verus!
