//! Clean titles, and the arguments that carry them.

use vstd::prelude::*;
use crate::laws::texts;
use crate::text;
use crate::text::Class;
use crate::title;

verus! {

/// The characters of a title by number: letters, digits, the space, `_`, `-` and `.`.
pub open spec fn is_title_number(n: u32) -> bool {
    48 <= n <= 57 || 65 <= n <= 90 || 97 <= n <= 122 || n == 32 || n == 95 || n == 45 || n == 46
}

proof fn lemma_title_char(c: char)
    ensures
        title::is_title_char(c) == is_title_number(c as u32),
{
}

/// A clean title is not empty, has at most 80 characters, and every one of them is a letter or a
/// digit of ASCII, a space, `_`, `-` or `.`.
pub proof fn law_characters_of_a_clean_title(game_title: Seq<char>)
    ensures
        0 < title::clean_title(game_title).len() <= 80,
        forall|i: int|
            0 <= i < title::clean_title(game_title).len() ==> is_title_number(
                (#[trigger] title::clean_title(game_title)[i]) as u32,
            ),
{
    let clean = title::clean_title(game_title);
    title::law_clean_title_is_safe(game_title);
    assert forall|i: int| 0 <= i < clean.len() implies is_title_number(
        (#[trigger] clean[i]) as u32,
    ) by {
        assert(title::is_title_char(clean[i]));
        lemma_title_char(clean[i]);
    }
}

/// Any other character that is not white space makes no difference to the clean title.
pub proof fn law_other_characters_of_a_title_go(a: Seq<char>, c: char, b: Seq<char>)
    requires
        !is_title_number(c as u32),
        !texts::is_white_number(c as u32),
    ensures
        title::clean_title(a + seq![c] + b) == title::clean_title(a + b),
{
    lemma_title_char(c);
    texts::law_white_space_by_number(c);
    title::law_other_characters_go(a, c, b);
}

/// White space of any kind and number within a title counts as one space.
pub proof fn law_white_space_within_a_title(a: Seq<char>, white: Seq<char>, b: Seq<char>)
    requires
        white.len() > 0,
        forall|i: int| 0 <= i < white.len() ==> texts::is_white_number((#[trigger] white[i]) as u32),
    ensures
        title::clean_title(a + white + b) == title::clean_title(a + seq![' '] + b),
{
    assert forall|i: int| 0 <= i < white.len() implies text::is_white(#[trigger] white[i]) by {
        texts::law_white_space_by_number(white[i]);
    }
    title::law_white_space_counts_once(a, white, b);
}

/// White space at either end of a title makes no difference.
pub proof fn law_white_space_around_a_title(white: char, s: Seq<char>)
    requires
        texts::is_white_number(white as u32),
    ensures
        title::clean_title(seq![white] + s) == title::clean_title(s),
        title::clean_title(s + seq![white]) == title::clean_title(s),
{
    let none = Seq::<char>::empty();
    let k = title::kept(s);
    texts::law_white_space_by_number(white);
    title::lemma_kept_concat(seq![white], s);
    title::lemma_kept_concat(s, seq![white]);
    title::lemma_kept_one(white);
    title::lemma_kept_one(' ');
    assert(title::kept(seq![white]) =~= seq![' ']);
    texts::law_words(none, ' ', k);
    texts::law_words(k, ' ', none);
    assert(none + seq![' '] + k =~= seq![' '] + k);
    assert(k + seq![' '] + none =~= k + seq![' ']);
    assert(text::words_of(seq![' '] + k) =~= text::words_of(k));
    assert(text::words_of(k + seq![' ']) =~= text::words_of(k));
}

/// A title of kept characters, with single spaces inside only, loses the dots at its ends, and
/// what is over 80 characters then; where nothing is left, it is `Game`.
pub proof fn law_dots_and_length_of_a_title(
    front: Seq<char>,
    middle: Seq<char>,
    back: Seq<char>,
)
    requires
        forall|i: int| 0 <= i < front.len() ==> #[trigger] front[i] == '.',
        forall|i: int| 0 <= i < back.len() ==> #[trigger] back[i] == '.',
        middle.len() > 0 ==> middle.first() != '.' && middle.last() != '.',
        forall|i: int|
            0 <= i < (front + middle + back).len() ==> is_title_number(
                (#[trigger] (front + middle + back)[i]) as u32,
            ),
        (front + middle + back).len() > 0 ==> (front + middle + back).first() != ' ' && (front
            + middle + back).last() != ' ',
        forall|i: int, j: int|
            #![trigger (front + middle + back)[i], (front + middle + back)[j]]
            0 <= i && j == i + 1 && j < (front + middle + back).len() && (front + middle + back)[i]
                == ' ' ==> (front + middle + back)[j] != ' ',
    ensures
        title::clean_title(front + middle + back) == if middle.len() == 0 {
            "Game"@
        } else if middle.len() > 80 {
            middle.take(80)
        } else {
            middle
        },
{
    let s = front + middle + back;
    lemma_spaced_stays(s);
    assert forall|i: int| 0 <= i < front.len() implies Class::Dot.contains(#[trigger] front[i]) by {
        assert(front[i] == '.');
    }
    assert forall|i: int| 0 <= i < back.len() implies Class::Dot.contains(#[trigger] back[i]) by {
        assert(back[i] == '.');
    }
    texts::law_stripping_leaves_the_middle(front, middle, back, Class::Dot);
}

proof fn lemma_spaced_stays(s: Seq<char>)
    requires
        forall|i: int| 0 <= i < s.len() ==> is_title_number((#[trigger] s[i]) as u32),
        s.len() > 0 ==> s.first() != ' ' && s.last() != ' ',
        title::has_single_spaces(s),
    ensures
        title::spaced(s) == s,
{
    assert forall|i: int| 0 <= i < s.len() implies title::is_title_char(#[trigger] s[i]) by {
        lemma_title_char(s[i]);
    }
    title::lemma_kept(s);
    if s.len() == 0 {
        title::lemma_no_words();
        assert(s =~= Seq::<char>::empty());
        texts::law_joining(Seq::empty(), Seq::empty(), seq![' ']);
    } else {
        title::lemma_full_pieces(s);
        let list = text::pieces(s, Class::White);
        assert forall|i: int| 0 <= i < list.len() implies (#[trigger] list[i]).len() > 0 by {
            if i == list.len() - 1 {
                assert(list[i] == list.last());
            }
        }
        title::lemma_all_nonempty(list);
        text::law_join_undoes_split(s, Class::White, ' ');
        assert forall|i: int| 0 <= i < s.len() implies text::replaced(s, Class::White, ' ')[i]
            == #[trigger] s[i] by {
            assert(title::is_title_char(s[i]));
        }
        assert(text::replaced(s, Class::White, ' ') =~= s);
    }
}

/// The title of the window stands after the first flag that has an argument after it.
pub proof fn law_title_after_the_flag(before: Seq<Seq<char>>, shown: Seq<char>, after: Seq<Seq<char>>)
    requires
        forall|i: int| 0 <= i < before.len() ==> #[trigger] before[i] != "--window-title"@,
    ensures
        title::window_title(before + seq!["--window-title"@, shown] + after) == shown,
    decreases before.len(),
{
    let args = before + seq!["--window-title"@, shown] + after;
    if before.len() == 0 {
        assert(args[0] == "--window-title"@);
        assert(args[1] == shown);
    } else {
        let rest = before.drop_first();
        assert forall|i: int| 0 <= i < rest.len() implies #[trigger] rest[i]
            != "--window-title"@ by {
            assert(rest[i] == before[i + 1]);
        }
        law_title_after_the_flag(rest, shown, after);
        assert(args[0] == before[0]);
        assert(args.drop_first() =~= rest + seq!["--window-title"@, shown] + after);
    }
}

/// Without such a flag the title of the window is `Game`.
pub proof fn law_title_without_a_flag(args: Seq<Seq<char>>)
    requires
        forall|i: int| 0 <= i < args.len() - 1 ==> #[trigger] args[i] != "--window-title"@,
    ensures
        title::window_title(args) == "Game"@,
    decreases args.len(),
{
    if args.len() >= 2 {
        let rest = args.drop_first();
        assert(args[0] != "--window-title"@);
        assert forall|i: int| 0 <= i < rest.len() - 1 implies #[trigger] rest[i]
            != "--window-title"@ by {
            assert(rest[i] == args[i + 1]);
        }
        law_title_without_a_flag(rest);
    }
}

/// The daemon is asked for exactly by its flag, anywhere among the arguments; and the arguments
/// for a title are that flag, the flag of a title, and the title.
pub proof fn law_arguments_of_the_daemon(args: Seq<Seq<char>>, shown: Seq<char>)
    ensures
        title::asks_for_daemon(args) <==> args.contains("--idle-daemon"@),
        title::daemon_arguments(shown) == seq!["--idle-daemon"@, "--window-title"@, shown],
{
}

} // verus!
