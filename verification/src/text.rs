//! Text for messages: decimal numbers and lists with a separator.

use vstd::prelude::*;

verus! {

/// `number` in decimal digits, without leading zeros.
pub open spec fn decimal(number: nat) -> Seq<char>
    decreases number,
{
    if number < 10 {
        seq!["0123456789"@[number as int]]
    } else {
        decimal(number / 10).push("0123456789"@[(number % 10) as int])
    }
}

/// The parts one after the other, with `separator` between any two neighbours.
pub open spec fn joined(parts: Seq<Seq<char>>, separator: Seq<char>) -> Seq<char>
    decreases parts.len(),
{
    if parts.len() == 0 {
        Seq::empty()
    } else if parts.len() == 1 {
        parts[0]
    } else {
        parts[0] + separator + joined(parts.skip(1), separator)
    }
}

/// The text of each string.
pub open spec fn texts(strings: Seq<String>) -> Seq<Seq<char>> {
    strings.map_values(|s: String| s@)
}

/// Whether one of the strings reads `text`.
pub open spec fn has_text(strings: Seq<String>, text: Seq<char>) -> bool {
    exists|i: int| 0 <= i < strings.len() && (#[trigger] strings[i])@ == text
}

/// Whether one of the strings reads the same as `text`.
pub fn contains_text(strings: &Vec<String>, text: &String) -> (found: bool)
    ensures
        found == has_text(strings@, text@),
{
    for i in 0..strings.len()
        invariant
            forall|j: int| 0 <= j < i ==> (#[trigger] strings@[j])@ != text@,
    {
        if strings[i] == *text {
            return true;
        }
    }
    false
}

/// Joins the strings with `separator` between any two neighbours.
pub fn join(parts: &Vec<String>, separator: &str) -> (text: String)
    ensures
        text@ == joined(texts(parts@), separator@),
{
    let mut text = String::new();
    if parts.len() == 0 {
        return text;
    }
    text.append(parts[0].as_str());
    let ghost all = texts(parts@);
    let mut i: usize = 1;
    while i < parts.len()
        invariant
            1 <= i <= parts.len(),
            all == texts(parts@),
            joined(all, separator@) == text@ + (if i < parts.len() {
                separator@ + joined(all.skip(i as int), separator@)
            } else {
                Seq::empty()
            }),
        decreases parts.len() - i,
    {
        proof {
            assert(all.skip(i as int).skip(1) =~= all.skip(i + 1));
            assert(all.skip(i as int)[0] == parts@[i as int]@);
        }
        text.append(separator);
        text.append(parts[i].as_str());
        i += 1;
    }
    text
}

/// The digit for a number below ten.
fn digit(value: usize) -> (text: &'static str)
    requires
        value < 10,
    ensures
        text@ == seq!["0123456789"@[value as int]],
{
    proof {
        reveal_strlit("0123456789");
        reveal_strlit("0");
        reveal_strlit("1");
        reveal_strlit("2");
        reveal_strlit("3");
        reveal_strlit("4");
        reveal_strlit("5");
        reveal_strlit("6");
        reveal_strlit("7");
        reveal_strlit("8");
        reveal_strlit("9");
    }
    match value {
        0 => "0",
        1 => "1",
        2 => "2",
        3 => "3",
        4 => "4",
        5 => "5",
        6 => "6",
        7 => "7",
        8 => "8",
        _ => "9",
    }
}

/// Writes `number` in decimal digits at the end of `text`.
pub fn append_decimal(text: &mut String, number: usize)
    ensures
        final(text)@ == old(text)@ + decimal(number as nat),
    decreases number,
{
    if number >= 10 {
        append_decimal(text, number / 10);
    }
    text.append(digit(number % 10));
}

} // verus!
