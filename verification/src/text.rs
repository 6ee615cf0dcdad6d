//! Texts that the messages of the database are made of.

use vstd::prelude::*;
use vstd::string::StringExecFns;

verus! {

/// The texts of a list of strings.
pub open spec fn texts(strings: Seq<String>) -> Seq<Seq<char>> {
    strings.map_values(|string: String| string@)
}

/// The texts of a list of string slices.
pub open spec fn key_texts(keys: Seq<&str>) -> Seq<Seq<char>> {
    keys.map_values(|key: &str| key@)
}

/// The text of one decimal digit.
pub open spec fn digit_text(digit: nat) -> Seq<char> {
    if digit == 0 {
        "0"@
    } else if digit == 1 {
        "1"@
    } else if digit == 2 {
        "2"@
    } else if digit == 3 {
        "3"@
    } else if digit == 4 {
        "4"@
    } else if digit == 5 {
        "5"@
    } else if digit == 6 {
        "6"@
    } else if digit == 7 {
        "7"@
    } else if digit == 8 {
        "8"@
    } else {
        "9"@
    }
}

/// A number in decimal digits, without leading zeros.
pub open spec fn decimal_text(number: nat) -> Seq<char>
    decreases number,
{
    if number < 10 {
        digit_text(number)
    } else {
        decimal_text(number / 10) + digit_text(number % 10)
    }
}

/// One decimal digit as a string.
fn digit(value: usize) -> (text: &'static str)
    requires
        value < 10,
    ensures
        text@ == digit_text(value as nat),
{
    if value == 0 {
        "0"
    } else if value == 1 {
        "1"
    } else if value == 2 {
        "2"
    } else if value == 3 {
        "3"
    } else if value == 4 {
        "4"
    } else if value == 5 {
        "5"
    } else if value == 6 {
        "6"
    } else if value == 7 {
        "7"
    } else if value == 8 {
        "8"
    } else {
        "9"
    }
}

/// A number written in decimal digits.
pub fn decimal(number: usize) -> (text: String)
    ensures
        text@ == decimal_text(number as nat),
    decreases number,
{
    if number < 10 {
        String::from_str(digit(number))
    } else {
        let mut text = decimal(number / 10);
        text.append(digit(number % 10));
        text
    }
}

/// The strings of a list of string slices.
pub fn owned(keys: &Vec<&str>) -> (strings: Vec<String>)
    ensures
        texts(strings@) == key_texts(keys@),
{
    let mut strings: Vec<String> = Vec::new();
    let mut i: usize = 0;
    while i < keys.len()
        invariant
            i <= keys.len(),
            strings@.len() == i,
            forall|j: int| 0 <= j < i ==> (#[trigger] strings@[j])@ == keys@[j]@,
        decreases keys.len() - i,
    {
        strings.push(String::from_str(keys[i]));
        i += 1;
    }
    assert(texts(strings@) =~= key_texts(keys@));
    strings
}

/// Whether `key` is one of `keys`.
pub fn lists(keys: &Vec<String>, key: &String) -> (listed: bool)
    ensures
        listed == texts(keys@).contains(key@),
{
    let mut i: usize = 0;
    while i < keys.len()
        invariant
            i <= keys.len(),
            forall|j: int| 0 <= j < i ==> (#[trigger] texts(keys@)[j]) != key@,
        decreases keys.len() - i,
    {
        if keys[i] == *key {
            assert(texts(keys@)[i as int] == key@);
            return true;
        }
        i += 1;
    }
    false
}

/// How a list of keys looks in a message: what `{:?}` prints for it.
pub uninterp spec fn debug_text(keys: Seq<Seq<char>>) -> Seq<char>;

/// The text that std's `Debug` for `Vec<&str>` prints for `keys`: the text
/// depends on the keys alone, and `debug_text` is its name.
#[verifier::external_body]
pub(crate) fn keys_debug(keys: &Vec<&str>) -> (text: String)
    ensures
        text@ == debug_text(key_texts(keys@)),
{
    format!("{:?}", keys)
}

} // verus!
