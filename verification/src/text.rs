//! The meter as text: one line of levels per tick, and the list of port
//! mappings as a line of JSON.

use crate::aggregator::{Level, FULL_SCALE};
use itertools::Itertools;
use vstd::prelude::*;

verus! {

/// The character of the decimal digit `d`.
pub open spec fn digit(d: int) -> char {
    ((d + 48) as u8) as char
}

/// The decimal numeral of `n`, without leading zeros.
pub open spec fn decimal(n: nat) -> Seq<char>
    decreases n,
{
    if n < 10 {
        seq![digit(n as int)]
    } else {
        decimal(n / 10).push(digit((n % 10) as int))
    }
}

/// A level written as a number with three decimals: the level 950 reads
/// `0.950`, the level 1250 reads `1.250`.
pub open spec fn level_text(level: Level) -> Seq<char> {
    decimal((level / FULL_SCALE) as nat) + seq![
        '.',
        digit(((level / 100) % 10) as int),
        digit(((level / 10) % 10) as int),
        digit((level % 10) as int),
    ]
}

/// The texts `cells` in a row with `sep` between neighbours.
pub open spec fn joined(cells: Seq<Seq<char>>, sep: Seq<char>) -> Seq<char>
    decreases cells.len(),
{
    if cells.len() == 0 {
        Seq::empty()
    } else if cells.len() == 1 {
        cells[0]
    } else {
        joined(cells.drop_last(), sep) + sep + cells.last()
    }
}

/// The texts of a vector of strings.
pub open spec fn texts(cells: Seq<String>) -> Seq<Seq<char>> {
    Seq::new(cells.len(), |i: int| cells[i]@)
}

/// The line that the text output prints for one snapshot: the levels with
/// three decimals each, a single space between neighbours.
pub open spec fn line_of(levels: Seq<Level>) -> Seq<char> {
    joined(Seq::new(levels.len(), |i: int| level_text(levels[i])), seq![' '])
}

/// The JSON text of an array of strings, as `serde_json` writes it.
pub uninterp spec fn json_array(names: Seq<Seq<char>>) -> Seq<char>;

#[verifier::external_type_specification]
#[verifier::external_body]
pub struct ExJsonError(serde_json::Error);

/// `String::push` of std: appends one character.
pub assume_specification[ String::push ](text: &mut String, c: char)
    ensures
        final(text)@ == old(text)@.push(c),
;

/// `Itertools::join` on the iterator over `cells`: each cell as its
/// `Display` writes it, which for a string is the string itself, and `sep`
/// before every cell but the first.
#[verifier::external_body]
fn join_cells(cells: &Vec<String>, sep: &str) -> (line: String)
    ensures
        line@ == joined(texts(cells@), sep@),
{
    cells.iter().join(sep)
}

/// `serde_json::to_string` on a vector of strings. It writes into a byte
/// vector, and the only errors it passes on are those of the writer, of a
/// `Serialize` impl that refuses, and of a map whose keys are no strings: a
/// vector of strings meets none of them. So the call succeeds, and the text
/// depends on the strings alone.
#[verifier::external_body]
fn encode_json_array(names: &Vec<String>) -> (encoded: Result<String, serde_json::Error>)
    ensures
        match encoded {
            Ok(text) => text@ == json_array(texts(names@)),
            Err(_) => false,
        },
{
    serde_json::to_string(names)
}

/// The digit `d` as a character.
fn digit_char(d: u8) -> (c: char)
    requires
        d < 10,
    ensures
        c == digit(d as int),
{
    (d + 48) as char
}

/// The decimal numeral of `n`.
pub fn decimal_text(n: u128) -> (text: String)
    ensures
        text@ == decimal(n as nat),
    decreases n,
{
    if n < 10 {
        let mut text = String::new();
        text.push(digit_char(n as u8));
        text
    } else {
        let mut text = decimal_text(n / 10);
        text.push(digit_char((n % 10) as u8));
        text
    }
}

/// A level written with three decimals.
pub fn format_level(level: Level) -> (text: String)
    ensures
        text@ == level_text(level),
{
    let mut text = decimal_text((level / FULL_SCALE) as u128);
    text.push('.');
    text.push(digit_char(((level / 100) % 10) as u8));
    text.push(digit_char(((level / 10) % 10) as u8));
    text.push(digit_char((level % 10) as u8));
    assert(text@ =~= level_text(level));
    text
}

/// The line of the text output for one snapshot of levels.
pub fn text_line(levels: &Vec<Level>) -> (line: String)
    ensures
        line@ == line_of(levels@),
{
    let mut cells: Vec<String> = Vec::with_capacity(levels.len());
    let mut i: usize = 0;
    while i < levels.len()
        invariant
            i <= levels@.len(),
            cells@.len() == i,
            forall|k: int| 0 <= k < i ==> (#[trigger] cells@[k])@ == level_text(levels@[k]),
        decreases levels@.len() - i,
    {
        cells.push(format_level(levels[i]));
        i += 1;
    }
    proof {
        reveal_strlit(" ");
        assert(" "@ =~= seq![' ']);
        assert(texts(cells@) =~= Seq::new(levels@.len(), |i: int| level_text(levels@[i])));
    }
    join_cells(&cells, " ")
}

/// The line that precedes the text output where the list of port mappings
/// was asked for: the mappings as a JSON array of strings. Nothing where it
/// was not asked for.
pub fn header_line(wanted: bool, mappings: &Vec<String>) -> (header: Option<String>)
    ensures
        match header {
            Some(text) => wanted && text@ == json_array(texts(mappings@)),
            None => !wanted,
        },
{
    if !wanted {
        return None;
    }
    match encode_json_array(mappings) {
        Ok(text) => Some(text),
        Err(_) => unreached(),
    }
}

} // verus!
