//! What holds of the text that messages are made of.

use crate::text::{decimal, has_text, joined, texts};
use vstd::prelude::*;

verus! {

/// The number that a text of decimal digits is read as.
pub open spec fn numeral_value(text: Seq<char>) -> int
    decreases text.len(),
{
    if text.len() == 0 {
        0
    } else {
        numeral_value(text.drop_last()) * 10 + (text.last() as int - '0' as int)
    }
}

/// Whether `text` is how `number` is written: digits only, none of them a leading zero, that read
/// as the number.
pub open spec fn is_numeral(text: Seq<char>, number: int) -> bool {
    &&& text.len() > 0
    &&& forall|i: int| 0 <= i < text.len() ==> '0' <= #[trigger] text[i] <= '9'
    &&& text[0] == '0' ==> text.len() == 1
    &&& numeral_value(text) == number
}

/// A number is written in digits that read as it, without leading zeros.
pub proof fn law_decimal_reads_back(number: nat)
    ensures
        is_numeral(decimal(number), number as int),
    decreases number,
{
    reveal_strlit("0123456789");
    let text = decimal(number);
    if number < 10 {
        assert(text.drop_last() =~= Seq::<char>::empty());
        assert(numeral_value(text.drop_last()) == 0);
        assert(text.last() == text[0]);
    } else {
        law_decimal_reads_back(number / 10);
        let front = decimal(number / 10);
        assert(text.drop_last() =~= front);
        assert(text[0] == front[0]);
        if front[0] == '0' {
            assert(front.drop_last() =~= Seq::<char>::empty());
            assert(numeral_value(front.drop_last()) == 0);
            assert(front.last() == '0');
        }
        assert forall|i: int| 0 <= i < text.len() implies '0' <= #[trigger] text[i] <= '9' by {
            if i < front.len() {
                assert(text[i] == front[i]);
            }
        }
    }
}

/// Nothing is joined to nothing, a single part to itself, and two runs of parts to what each of
/// them is joined to, with one separator in between.
pub proof fn law_join_keeps_every_part(
    part: Seq<char>,
    front: Seq<Seq<char>>,
    back: Seq<Seq<char>>,
    separator: Seq<char>,
)
    ensures
        joined(Seq::empty(), separator) == Seq::<char>::empty(),
        joined(seq![part], separator) == part,
        front.len() > 0 && back.len() > 0 ==> joined(front + back, separator) == joined(
            front,
            separator,
        ) + separator + joined(back, separator),
    decreases front.len(),
{
    if front.len() > 0 && back.len() > 0 {
        let all = front + back;
        if front.len() == 1 {
            assert(all.skip(1) =~= back);
            assert(all[0] == front[0]);
        } else {
            law_join_keeps_every_part(part, front.skip(1), back, separator);
            assert(all.skip(1) =~= front.skip(1) + back);
            assert(all[0] == front[0]);
            assert(front[0] + separator + (joined(front.skip(1), separator) + separator + joined(
                back,
                separator,
            )) =~= (front[0] + separator + joined(front.skip(1), separator)) + separator + joined(
                back,
                separator,
            ));
        }
    }
}

/// Strings are taken one for one by what they read, and a text is among them exactly where one of
/// them reads so.
pub proof fn law_texts_are_what_strings_read(strings: Seq<String>, text: Seq<char>)
    ensures
        texts(strings).len() == strings.len(),
        forall|i: int|
            0 <= i < strings.len() ==> #[trigger] texts(strings)[i] == strings[i]@,
        has_text(strings, text) <==> texts(strings).contains(text),
        has_text(strings, text) <==> !(forall|i: int|
            0 <= i < strings.len() ==> (#[trigger] strings[i])@ != text),
{
    if has_text(strings, text) {
        let i = choose|i: int| 0 <= i < strings.len() && (#[trigger] strings[i])@ == text;
        assert(texts(strings)[i] == text);
    }
    if texts(strings).contains(text) {
        let i = choose|i: int| 0 <= i < texts(strings).len() && texts(strings)[i] == text;
        assert(strings[i]@ == text);
    }
}

} // verus!
