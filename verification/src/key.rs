//! Member names.
//!
//! A [`Key`] is a validated member name. Parsing an arbitrary string
//! normalizes camelCase, space- and underscore-separated input to kebab-case
//! and rejects empty strings, names that start or end with a separator, and a
//! reserved set of punctuation and control characters.

use vstd::prelude::*;

verus! {

/// The error returned when a string cannot be parsed as a [`Key`]: the
/// offending input and a reason.
#[derive(Debug)]
pub struct ParseKeyError(pub String, pub String);

impl ParseKeyError {
    /// The offending input.
    pub fn source(&self) -> (r: &String)
        ensures
            r@ == self.0@,
    {
        &self.0
    }

    /// A human-readable description of what was wrong with the input.
    pub fn reason(&self) -> (r: &String)
        ensures
            r@ == self.1@,
    {
        &self.1
    }
}

impl Clone for ParseKeyError {
    fn clone(&self) -> (r: Self)
        ensures
            r.0@ == self.0@,
            r.1@ == self.1@,
    {
        ParseKeyError(self.0.clone(), self.1.clone())
    }
}

/// Represents a single member name.
///
/// When a new `Key` is parsed, the underlying value's casing convention is
/// converted to kebab-case.
#[derive(Debug)]
pub struct Key {
    pub value: String,
}

impl View for Key {
    type V = Seq<char>;

    open spec fn view(&self) -> Seq<char> {
        self.value@
    }
}

impl DeepView for Key {
    type V = Seq<char>;

    open spec fn deep_view(&self) -> Seq<char> {
        self.value@
    }
}

/// True of the characters that may not appear in a member name.
pub open spec fn is_reserved(c: char) -> bool {
    ||| c as u32 <= 0x1f
    ||| (0x21 <= c as u32 && c as u32 <= 0x29)
    ||| (0x2a <= c as u32 && c as u32 <= 0x2c)
    ||| c as u32 == 0x2e
    ||| c as u32 == 0x2f
    ||| (0x3a <= c as u32 && c as u32 <= 0x3f)
    ||| c as u32 == 0x40
    ||| (0x5b <= c as u32 && c as u32 <= 0x5e)
    ||| c as u32 == 0x60
    ||| (0x7b <= c as u32 && c as u32 <= 0x7f)
}

/// True of the three word separators that normalization rewrites.
pub open spec fn is_separator(c: char) -> bool {
    c == '_' || c == '-' || c == ' '
}

/// True of ASCII upper-case letters.
pub open spec fn is_upper(c: char) -> bool {
    0x41 <= c as u32 && c as u32 <= 0x5a
}

/// The lower-case form of an ASCII upper-case letter.
pub open spec fn spec_lowercase(c: char) -> char {
    ((c as u8) + 32) as char
}

/// One step of normalization: the normalized form of `s[i..]` appended to the
/// already-normalized prefix `acc`, or `None` if the input is rejected.
pub open spec fn key_norm_rec(s: Seq<char>, i: int, acc: Seq<char>) -> Option<Seq<char>>
    decreases s.len() - i,
{
    if i < 0 || i >= s.len() {
        Some(acc)
    } else {
        let c = s[i];
        if is_reserved(c) {
            None
        } else if is_separator(c) && acc.len() == 0 {
            None
        } else if is_separator(c) {
            if i + 1 >= s.len() {
                None
            } else if is_separator(s[i + 1]) || is_upper(s[i + 1]) {
                key_norm_rec(s, i + 1, acc)
            } else {
                key_norm_rec(s, i + 1, acc.push('-'))
            }
        } else if is_upper(c) {
            if acc.len() > 0 && acc.last() == '-' {
                key_norm_rec(s, i + 1, acc.push(spec_lowercase(c)))
            } else {
                key_norm_rec(s, i + 1, acc.push('-').push(spec_lowercase(c)))
            }
        } else {
            key_norm_rec(s, i + 1, acc.push(c))
        }
    }
}

/// The normalized, kebab-case form of a member name, or `None` if the name
/// is rejected: empty, holding a reserved character, or starting or ending
/// with a separator.
pub open spec fn key_norm(s: Seq<char>) -> Option<Seq<char>> {
    if s.len() == 0 {
        None
    } else {
        key_norm_rec(s, 0, Seq::empty())
    }
}

/// Relies on std's collection of an iterator of characters into a `String`:
/// the result holds exactly the characters of the vector, in order.
#[verifier::external_body]
pub(crate) fn chars_to_string(v: &Vec<char>) -> (r: String)
    ensures
        r@ == v@,
{
    v.iter().collect()
}

/// The lower-case form of an ASCII upper-case letter.
pub fn as_lowercase(value: char) -> (r: char)
    requires
        is_upper(value),
    ensures
        r == spec_lowercase(value),
{
    ((value as u8) + 32) as char
}

impl Key {
    /// Wraps an already-normalized string without validating it.
    pub fn from_raw(value: String) -> (r: Self)
        ensures
            r@ == value@,
    {
        Key { value }
    }

    /// The member name as a borrowed string.
    pub fn as_str(&self) -> (r: &str)
        ensures
            r@ == self@,
    {
        self.value.as_str()
    }

    /// The member name as an owned string, consuming the key.
    pub fn into_string(self) -> (r: String)
        ensures
            r@ == self@,
    {
        self.value
    }

    /// Parses and normalizes a member name.
    ///
    /// Succeeds exactly when [`key_norm`] accepts the input, and then returns
    /// the key it describes.
    pub fn parse(source: &str) -> (r: Result<Key, ParseKeyError>)
        ensures
            r is Ok <==> key_norm(source@) is Some,
            r is Ok ==> r->Ok_0@ == key_norm(source@)->Some_0,
            r is Err ==> r->Err_0.0@ == source@,
    {
        let len = source.unicode_len();
        if len == 0 {
            return Err(ParseKeyError(source.to_owned(), String::from_str("cannot be blank")));
        }

        let mut dest: Vec<char> = Vec::new();
        let mut i: usize = 0;

        while i < len
            invariant
                0 < len == source@.len(),
                0 <= i <= len,
                key_norm_rec(source@, i as int, dest@) == key_norm(source@),
            decreases len - i,
        {
            let value = source.get_char(i);
            if is_reserved_char(value) {
                return Err(ParseKeyError(source.to_owned(), String::from_str("reserved character")));
            } else if is_separator_char(value) && dest.len() == 0 {
                return Err(ParseKeyError(source.to_owned(), String::from_str("cannot start with a separator")));
            } else if is_separator_char(value) {
                if i + 1 >= len {
                    return Err(ParseKeyError(source.to_owned(), String::from_str("cannot end with a separator")));
                }
                let next = source.get_char(i + 1);
                if !(is_separator_char(next) || is_upper_char(next)) {
                    dest.push('-');
                }
            } else if is_upper_char(value) {
                let ends_with_dash = dest.len() > 0 && dest[dest.len() - 1] == '-';
                if !ends_with_dash {
                    dest.push('-');
                }
                dest.push(as_lowercase(value));
            } else {
                dest.push(value);
            }
            i = i + 1;
        }

        Ok(Key { value: chars_to_string(&dest) })
    }
}

/// Whether a character is in the reserved set.
pub fn is_reserved_char(c: char) -> (r: bool)
    ensures
        r == is_reserved(c),
{
    let n = c as u32;
    n <= 0x1f || (0x21 <= n && n <= 0x2c) || n == 0x2e || n == 0x2f || (0x3a <= n && n <= 0x40)
        || (0x5b <= n && n <= 0x5e) || n == 0x60 || (0x7b <= n && n <= 0x7f)
}

/// Whether a character is one of the three separators.
pub fn is_separator_char(c: char) -> (r: bool)
    ensures
        r == is_separator(c),
{
    c == '_' || c == '-' || c == ' '
}

/// Whether a character is an ASCII upper-case letter.
pub fn is_upper_char(c: char) -> (r: bool)
    ensures
        r == is_upper(c),
{
    let n = c as u32;
    0x41 <= n && n <= 0x5a
}

impl Clone for Key {
    fn clone(&self) -> (r: Self)
        ensures
            r@ == self@,
    {
        Key { value: self.value.clone() }
    }
}

impl PartialEq for Key {
    fn eq(&self, other: &Self) -> (r: bool) {
        self.value == other.value
    }
}

impl vstd::std_specs::cmp::PartialEqSpecImpl for Key {
    open spec fn obeys_eq_spec() -> bool {
        true
    }

    open spec fn eq_spec(&self, other: &Self) -> bool {
        self@ == other@
    }
}

impl core::str::FromStr for Key {
    type Err = ParseKeyError;

    fn from_str(source: &str) -> Result<Key, ParseKeyError> {
        Key::parse(source)
    }
}

impl crate::Sealed for Key {}

} // verus!
