//! Minecraft account identifiers.

use vstd::prelude::*;
use vstd::string::*;
use vstd::utf8::encode_utf8;
use crate::numbers::{all_digits, digit, digit_of};
use crate::text::to_chars;

verus! {

/// Why a text is no account identifier.
#[derive(Clone, Copy, Debug, PartialEq, Eq, Structural)]
pub enum UuidError {
    /// The text has the length of a dashed identifier, but not its form.
    WrongFormat,
    /// The text has neither the length of a dashed identifier nor that of a
    /// bare one made of hexadecimal digits.
    WrongLength,
}

/// A dash stands at this position of a dashed identifier.
pub open spec fn is_dash_position(i: int) -> bool {
    i == 8 || i == 13 || i == 18 || i == 23
}

/// The text is a dashed identifier: groups of 8, 4, 4, 4 and 12 hexadecimal
/// digits with a dash between them.
pub open spec fn is_dashed_uuid(text: Seq<char>) -> bool {
    &&& text.len() == 36
    &&& forall|i: int|
        0 <= i < 36 ==> if is_dash_position(i) {
            text[i] == '-'
        } else {
            digit_of(#[trigger] text[i], 16) is Some
        }
}

/// The text is a bare identifier: 32 hexadecimal digits.
pub open spec fn is_bare_uuid(text: Seq<char>) -> bool {
    text.len() == 32 && all_digits(text, 16)
}

/// A bare identifier with the dashes put in.
pub open spec fn with_dashes(text: Seq<char>) -> Seq<char> {
    text.subrange(0, 8) + seq!['-'] + text.subrange(8, 12) + seq!['-'] + text.subrange(12, 16)
        + seq!['-'] + text.subrange(16, 20) + seq!['-'] + text.subrange(20, 32)
}

/// The dashed form of an identifier, or why the text is none.
pub open spec fn formatted_uuid(text: Seq<char>) -> Result<Seq<char>, UuidError> {
    if is_bare_uuid(text) {
        Ok(with_dashes(text))
    } else if is_dashed_uuid(text) {
        Ok(text)
    } else if encode_utf8(text).len() == 36 {
        Err(UuidError::WrongFormat)
    } else {
        Err(UuidError::WrongLength)
    }
}

/// Whether every character is a hexadecimal digit.
fn all_hex(chars: &Vec<char>) -> (yes: bool)
    ensures
        yes == all_digits(chars@, 16),
{
    let mut i: usize = 0;
    while i < chars.len()
        invariant
            i <= chars@.len(),
            forall|k: int| 0 <= k < i ==> digit_of(#[trigger] chars@[k], 16) is Some,
        decreases chars@.len() - i,
    {
        if digit(chars[i], 16).is_none() {
            return false;
        }
        i += 1;
    }
    true
}

/// Whether 36 characters have the form of a dashed identifier.
fn has_dashed_form(chars: &Vec<char>) -> (yes: bool)
    requires
        chars@.len() == 36,
    ensures
        yes == is_dashed_uuid(chars@),
{
    let mut i: usize = 0;
    while i < 36
        invariant
            i <= 36 == chars@.len(),
            forall|k: int|
                0 <= k < i ==> if is_dash_position(k) {
                    chars@[k] == '-'
                } else {
                    digit_of(#[trigger] chars@[k], 16) is Some
                },
        decreases 36 - i,
    {
        let fits = if i == 8 || i == 13 || i == 18 || i == 23 {
            chars[i] == '-'
        } else {
            digit(chars[i], 16).is_some()
        };
        if !fits {
            return false;
        }
        i += 1;
    }
    true
}

/// Checks an account identifier and gives its dashed form. A bare
/// identifier of 32 hexadecimal digits gets its dashes; a dashed one is
/// returned as it is; anything else is refused.
pub fn check_and_format_minecraft_uuid(player_uuid: &str) -> (checked: Result<String, UuidError>)
    ensures
        match checked {
            Ok(dashed) => formatted_uuid(player_uuid@) == Ok::<Seq<char>, UuidError>(dashed@),
            Err(error) => formatted_uuid(player_uuid@) == Err::<Seq<char>, UuidError>(error),
        },
{
    let chars = to_chars(player_uuid);
    if chars.len() == 32 && all_hex(&chars) {
        proof {
            reveal_strlit("-");
            assert("-"@ =~= seq!['-']);
        }
        let dashed = String::from_str(player_uuid.substring_char(0, 8)).concat("-").concat(
            player_uuid.substring_char(8, 12),
        ).concat("-").concat(player_uuid.substring_char(12, 16)).concat("-").concat(
            player_uuid.substring_char(16, 20),
        ).concat("-").concat(player_uuid.substring_char(20, 32));
        return Ok(dashed);
    }
    if chars.len() == 36 && has_dashed_form(&chars) {
        return Ok(String::from_str(player_uuid));
    }
    if player_uuid.as_bytes().len() == 36 {
        Err(UuidError::WrongFormat)
    } else {
        Err(UuidError::WrongLength)
    }
}

} // verus!
