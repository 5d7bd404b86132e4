//! Choosing an exercise by what a user typed: a chapter or exercise is named
//! either by its full directory name or by its number alone; and reading a
//! yes/no answer.
use vstd::prelude::*;

use crate::definition::digit_value;

verus! {

/// The value of a string of ASCII digits.
pub open spec fn decimal_value(digits: Seq<char>) -> int
    decreases digits.len(),
{
    if digits.len() == 0 {
        0
    } else {
        decimal_value(digits.drop_last()) * 10 + digit_value(digits.last())
    }
}

/// The digits of a number in text: everything after an optional leading `+`.
pub open spec fn unsigned_digits(s: Seq<char>) -> Seq<char> {
    if s.len() > 0 && s[0] == '+' {
        s.drop_first()
    } else {
        s
    }
}

/// Whether `s` is the text of a `u16`: an optional `+`, then one or more
/// ASCII digits whose value fits in 16 bits.
pub open spec fn is_u16_text(s: Seq<char>) -> bool {
    let digits = unsigned_digits(s);
    &&& digits.len() > 0
    &&& forall|i: int| 0 <= i < digits.len() ==> '0' <= #[trigger] digits[i] <= '9'
    &&& decimal_value(digits) <= 0xffff
}

/// Relies on `<u16 as FromStr>::from_str` (through `str::parse`), which
/// accepts an optional `+` followed by ASCII digits whose value fits, and
/// rejects everything else.
#[verifier::external_body]
fn parse_u16(s: &str) -> (r: Option<u16>)
    ensures
        r is Some <==> is_u16_text(s@),
        r matches Some(n) ==> n == decimal_value(unsigned_digits(s@)),
{
    s.parse::<u16>().ok()
}

/// A chapter or exercise as a user named it.
pub enum Selector {
    /// The full `NN_name` directory name.
    FullName(String),
    /// The number alone.
    Number(u16),
}

impl Selector {
    /// Read what the user typed: a number when it is the text of a `u16`,
    /// a full name otherwise.
    pub fn new(s: String) -> (r: Self)
        ensures
            is_u16_text(s@) ==> r == Selector::Number(decimal_value(unsigned_digits(s@)) as u16),
            !is_u16_text(s@) ==> (r matches Selector::FullName(n) && n@ == s@),
    {
        match parse_u16(s.as_str()) {
            Some(number) => Selector::Number(number),
            None => Selector::FullName(s),
        }
    }

    /// Whether this selects the chapter or exercise with directory name
    /// `name` and number `number`.
    pub fn matches(&self, name: &str, number: u16) -> (r: bool)
        ensures
            r == match self {
                Selector::FullName(s) => s@ == name@,
                Selector::Number(n) => *n == number,
            },
    {
        match self {
            Selector::FullName(s) => {
                let name = String::from_str(name);
                *s == name
            },
            Selector::Number(n) => *n == number,
        }
    }
}

/// The code point of `c`, with ASCII upper-case letters taken to lower case.
pub open spec fn folded_code(c: char) -> u32 {
    if 'A' <= c <= 'Z' {
        (c as u32 + 32) as u32
    } else {
        c as u32
    }
}

/// `s` equals `word` once ASCII upper-case letters are taken to lower case.
pub open spec fn equals_folded(s: Seq<char>, word: Seq<char>) -> bool {
    s.len() == word.len() && forall|i: int| 0 <= i < s.len() ==> folded_code(#[trigger] s[i])
        == word[i] as u32
}

/// The answer that a reply gives, ignoring ASCII case: `yes` or `y` for
/// yes, `no` or `n` for no, nothing for anything else.
pub open spec fn answer_of(s: Seq<char>) -> Option<bool> {
    if equals_folded(s, "yes"@) || equals_folded(s, "y"@) {
        Some(true)
    } else if equals_folded(s, "no"@) || equals_folded(s, "n"@) {
        Some(false)
    } else {
        None
    }
}

fn folded_equal(s: &str, word: &str) -> (r: bool)
    ensures
        r == equals_folded(s@, word@),
{
    let len = s.unicode_len();
    if len != word.unicode_len() {
        return false;
    }
    let mut i: usize = 0;
    while i < len
        invariant
            i <= len,
            len == s@.len(),
            len == word@.len(),
            forall|k: int| 0 <= k < i ==> folded_code(#[trigger] s@[k]) == word@[k] as u32,
        decreases len - i,
    {
        let c = s.get_char(i);
        let code: u32 = if 'A' <= c && c <= 'Z' {
            c as u32 + 32
        } else {
            c as u32
        };
        if code != word.get_char(i) as u32 {
            return false;
        }
        i = i + 1;
    }
    true
}

/// Read a yes/no reply, ignoring ASCII case.
pub fn parse_bool(s: &str) -> (r: Option<bool>)
    ensures
        r == answer_of(s@),
{
    if folded_equal(s, "yes") || folded_equal(s, "y") {
        Some(true)
    } else if folded_equal(s, "no") || folded_equal(s, "n") {
        Some(false)
    } else {
        None
    }
}

} // verus!
