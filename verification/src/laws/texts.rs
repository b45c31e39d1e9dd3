//! Characters, stripping, splitting, joining and decimal numbers.

use vstd::prelude::*;
use crate::text;
use crate::text::Class;
use crate::workspace;

verus! {

/// The numbers of the characters that are white space.
pub open spec fn is_white_number(n: u32) -> bool {
    ||| 9 <= n <= 13
    ||| n == 32
    ||| n == 133
    ||| n == 160
    ||| n == 5760
    ||| 8192 <= n <= 8202
    ||| n == 8232
    ||| n == 8233
    ||| n == 8239
    ||| n == 8287
    ||| n == 12288
}

/// White space is what Unicode calls so, by number.
pub proof fn law_white_space_by_number(c: char)
    ensures
        text::is_white(c) <==> is_white_number(c as u32),
{
}

/// Letters and digits are those of ASCII, by number.
pub proof fn law_letters_and_digits_by_number(c: char)
    ensures
        text::is_alphanumeric(c) <==> 48 <= c as u32 <= 57 || 65 <= c as u32 <= 90 || 97 <= c as u32
            <= 122,
{
}

/// The classes by number: white space, the full stop, and the two slashes.
pub proof fn law_classes_by_number(c: char)
    ensures
        Class::White.contains(c) <==> is_white_number(c as u32),
        Class::Dot.contains(c) <==> c as u32 == 46,
        Class::Separator.contains(c) <==> c as u32 == 47 || c as u32 == 92,
{
}

/// The contents of a list of texts are those of its texts, one by one.
pub proof fn law_contents_of_a_list(list: Seq<String>)
    ensures
        text::texts(list).len() == list.len(),
        forall|i: int| 0 <= i < list.len() ==> #[trigger] text::texts(list)[i] == list[i]@,
{
}

/// Stripping leaves the middle of a text that has only characters of the class around it, where
/// the middle itself neither begins nor ends with such a character.
pub proof fn law_stripping_leaves_the_middle(
    front: Seq<char>,
    middle: Seq<char>,
    back: Seq<char>,
    class: Class,
)
    requires
        forall|i: int| 0 <= i < front.len() ==> class.contains(#[trigger] front[i]),
        forall|i: int| 0 <= i < back.len() ==> class.contains(#[trigger] back[i]),
        middle.len() > 0 ==> !class.contains(middle.first()) && !class.contains(middle.last()),
    ensures
        text::stripped(front + middle + back, class) == middle,
{
    text::law_stripping_ignores_what_surrounds(front, middle, back, class);
}

/// The pieces of a text: a text without characters of the class is its only piece, and such a
/// character between two texts parts the pieces of the one from those of the other.
pub proof fn law_pieces(a: Seq<char>, sep: char, b: Seq<char>, class: Class)
    requires
        class.contains(sep),
    ensures
        (forall|i: int| 0 <= i < a.len() ==> !class.contains(#[trigger] a[i])) ==> text::pieces(
            a,
            class,
        ) == seq![a],
        text::pieces(a + seq![sep] + b, class) == text::pieces(a, class) + text::pieces(b, class),
{
    text::lemma_pieces_of_plain(a, class);
    text::lemma_pieces_concat(a, sep, b, class);
}

/// The words of a text: none of the empty text, the text itself where it holds no white space,
/// and white space parts the words before it from those after it.
pub proof fn law_words(a: Seq<char>, white: char, b: Seq<char>)
    requires
        is_white_number(white as u32),
    ensures
        text::words_of(Seq::<char>::empty()) == Seq::<Seq<char>>::empty(),
        a.len() > 0 && (forall|i: int| 0 <= i < a.len() ==> !is_white_number(#[trigger] a[i] as u32))
            ==> text::words_of(a) == seq![a],
        text::words_of(a + seq![white] + b) == text::words_of(a) + text::words_of(b),
{
    law_white_space_by_number(white);
    text::law_white_space_parts_words(a, white, b);
    crate::title::lemma_no_words();
    if a.len() > 0 && (forall|i: int|
        0 <= i < a.len() ==> !is_white_number(#[trigger] a[i] as u32)) {
        assert forall|i: int| 0 <= i < a.len() implies !Class::White.contains(#[trigger] a[i]) by {
            law_classes_by_number(a[i]);
        }
        text::lemma_pieces_of_plain(a, Class::White);
        let list = seq![a];
        assert(list.drop_last() =~= Seq::<Seq<char>>::empty());
        assert(text::nonempty(list.drop_last()) =~= Seq::<Seq<char>>::empty());
        assert(text::nonempty(list) =~= list);
    }
}

/// Joining: nothing from no text, a text alone as it is, and `between` where two lists that are
/// not empty meet.
pub proof fn law_joining(a: Seq<Seq<char>>, b: Seq<Seq<char>>, between: Seq<char>)
    ensures
        text::joined(Seq::<Seq<char>>::empty(), between) == Seq::<char>::empty(),
        a.len() == 1 ==> text::joined(a, between) == a[0],
        a.len() > 0 && b.len() > 0 ==> text::joined(a + b, between) == text::joined(a, between)
            + between + text::joined(b, between),
    decreases b.len(),
{
    if a.len() > 0 && b.len() > 0 {
        let front = b.drop_last();
        assert((a + b).drop_last() =~= a + front);
        assert((a + b).last() == b.last());
        if b.len() == 1 {
            assert(a + front =~= a);
        } else {
            law_joining(a, front, between);
            assert(text::joined(a + b, between) =~= text::joined(a, between) + between
                + text::joined(b, between));
        }
    }
}

/// The number that a text of decimal digits stands for.
pub open spec fn number_of(digits: Seq<char>) -> int
    decreases digits.len(),
{
    if digits.len() == 0 {
        0
    } else {
        10 * number_of(digits.drop_last()) + (digits.last() as u32 - 48)
    }
}

/// A number written in decimal is made of digits, begins with a zero only where it is zero
/// itself, and stands for that very number.
pub proof fn law_decimal_reads_back(n: nat)
    ensures
        text::decimal(n).len() > 0,
        forall|i: int|
            0 <= i < text::decimal(n).len() ==> 48 <= (#[trigger] text::decimal(n)[i]) as u32
                <= 57,
        n > 0 ==> text::decimal(n).first() as u32 != 48,
        n == 0 ==> text::decimal(n).len() == 1,
        number_of(text::decimal(n)) == n,
    decreases n,
{
    let s = text::decimal(n);
    workspace::lemma_decimal_digits(n);
    reveal_with_fuel(number_of, 2);
    if n >= 10 {
        law_decimal_reads_back(n / 10);
        workspace::lemma_decimal_digits(n / 10);
        assert(s.drop_last() =~= text::decimal(n / 10));
        assert(s.first() == text::decimal(n / 10).first());
    } else {
        assert(s.drop_last() =~= Seq::<char>::empty());
    }
}

} // verus!
