//! The title of the simulated game: how it is cleaned, and how it travels to the process that
//! shows it.

use vstd::prelude::*;
use crate::text;
use crate::text::Class;

verus! {

/// The argument that puts the program into the mode of an idle daemon.
pub const IDLE_DAEMON_FLAG: &'static str = "--idle-daemon";

/// The argument before the title of the window.
pub const WINDOW_TITLE_FLAG: &'static str = "--window-title";

/// The title where none is known.
pub const DEFAULT_TITLE: &'static str = "Game";

/// The most characters of a title.
pub const MAX_TITLE_CHARS: usize = 80;

/// The characters that a title keeps.
pub open spec fn is_title_char(c: char) -> bool {
    text::is_alphanumeric(c) || c == ' ' || c == '_' || c == '-' || c == '.'
}

/// A title without the characters that it does not keep; white space becomes a space.
pub open spec fn kept(title: Seq<char>) -> Seq<char>
    decreases title.len(),
{
    if title.len() == 0 {
        title
    } else {
        let front = kept(title.drop_last());
        let c = title.last();
        if is_title_char(c) {
            front.push(c)
        } else if text::is_white(c) {
            front.push(' ')
        } else {
            front
        }
    }
}

/// The words that a title keeps, with one space between them.
pub open spec fn spaced(title: Seq<char>) -> Seq<char> {
    text::joined(text::words_of(kept(title)), seq![' '])
}

/// The first `n` characters of a text, or all where it has fewer.
pub open spec fn at_most(s: Seq<char>, n: nat) -> Seq<char> {
    if s.len() > n {
        s.take(n as int)
    } else {
        s
    }
}

/// The clean form of a title: its words, without dots at either end, cut to the longest title;
/// the default where nothing is left.
pub open spec fn clean_title(title: Seq<char>) -> Seq<char> {
    let clean = at_most(text::stripped(spaced(title), Class::Dot), MAX_TITLE_CHARS as nat);
    if clean.len() == 0 {
        DEFAULT_TITLE@
    } else {
        clean
    }
}

fn keep(title: &str) -> (r: String)
    ensures
        r@ == kept(title@),
{
    let mut r = String::new();
    for c in it: title.chars()
        invariant
            it.seq() == title@,
            r@ == kept(title@.take(it.index())),
    {
        assert(title@.take(it.index() + 1).drop_last() =~= title@.take(it.index()));
        if text::ascii_alphanumeric(c) || c == ' ' || c == '_' || c == '-' || c == '.' {
            r.push(c);
        } else if c.is_whitespace() {
            r.push(' ');
        }
    }
    assert(title@.take(title@.len() as int) =~= title@);
    r
}

/// Cleans the title of a game, so that it can name a directory and be an argument.
pub fn sanitize_game_title(title: &str) -> (r: String)
    ensures
        r@ == clean_title(title@),
{
    let words = text::words(keep(title).as_str());
    proof {
        reveal_strlit(" ");
        assert(" "@ =~= seq![' ']);
    }
    let spaced = text::join(&words, " ");
    let chars = text::chars_of(text::strip(spaced.as_str(), Class::Dot).as_str());
    let n: usize = if chars.len() > MAX_TITLE_CHARS {
        MAX_TITLE_CHARS
    } else {
        chars.len()
    };
    let clean = text::text_of(&chars, 0, n);
    assert(clean@ =~= at_most(chars@, MAX_TITLE_CHARS as nat));
    if clean.as_str().is_empty() {
        DEFAULT_TITLE.to_string()
    } else {
        clean
    }
}

/// The argument after the first flag of a title that has one after it; the default title where
/// there is no such flag.
pub open spec fn window_title(args: Seq<Seq<char>>) -> Seq<char>
    decreases args.len(),
{
    if args.len() < 2 {
        DEFAULT_TITLE@
    } else if args[0] == WINDOW_TITLE_FLAG@ {
        args[1]
    } else {
        window_title(args.drop_first())
    }
}

/// The title that the arguments give to the window.
pub fn read_window_title(args: &[String]) -> (r: String)
    ensures
        r@ == window_title(text::texts(args@)),
{
    let ghost all = text::texts(args@);
    let mut i: usize = 0;
    assert(all.skip(0) =~= all);
    while args.len() - i > 1
        invariant
            i <= args@.len(),
            all == text::texts(args@),
            window_title(all) == window_title(all.skip(i as int)),
        decreases args@.len() - i,
    {
        assert(all[i as int] == args@[i as int]@);
        assert(all[i + 1] == args@[i + 1]@);
        assert(all.skip(i as int).drop_first() =~= all.skip(i + 1));
        if text::same_text(args[i].as_str(), WINDOW_TITLE_FLAG) {
            return args[i + 1].clone();
        }
        i += 1;
    }
    DEFAULT_TITLE.to_string()
}

/// What the program does, as its arguments ask.
#[derive(Debug)]
pub enum LaunchMode {
    /// Stay idle behind a window of this title.
    IdleDaemon { title: String },
    /// Show the application.
    Application,
}

/// Arguments that ask for the mode of an idle daemon.
pub open spec fn asks_for_daemon(args: Seq<Seq<char>>) -> bool {
    exists|i: int| 0 <= i < args.len() && #[trigger] args[i] == IDLE_DAEMON_FLAG@
}

/// Reads from the arguments what the program is to do.
pub fn launch_mode(args: &[String]) -> (mode: LaunchMode)
    ensures
        match mode {
            LaunchMode::IdleDaemon { title } => asks_for_daemon(text::texts(args@)) && title@
                == window_title(text::texts(args@)),
            LaunchMode::Application => !asks_for_daemon(text::texts(args@)),
        },
{
    let ghost all = text::texts(args@);
    let mut i: usize = 0;
    while i < args.len()
        invariant
            i <= args@.len(),
            all == text::texts(args@),
            forall|j: int| 0 <= j < i ==> #[trigger] all[j] != IDLE_DAEMON_FLAG@,
        decreases args@.len() - i,
    {
        assert(all[i as int] == args@[i as int]@);
        if text::same_text(args[i].as_str(), IDLE_DAEMON_FLAG) {
            return LaunchMode::IdleDaemon { title: read_window_title(args) };
        }
        i += 1;
    }
    LaunchMode::Application
}

/// The arguments that make the program an idle daemon behind a window of this title.
pub open spec fn daemon_arguments(title: Seq<char>) -> Seq<Seq<char>> {
    seq![IDLE_DAEMON_FLAG@, WINDOW_TITLE_FLAG@, title]
}

/// The arguments for the process that simulates a game of this title.
pub fn daemon_args(title: &str) -> (args: Vec<String>)
    ensures
        text::texts(args@) == daemon_arguments(title@),
{
    let mut args: Vec<String> = Vec::new();
    args.push(IDLE_DAEMON_FLAG.to_string());
    args.push(WINDOW_TITLE_FLAG.to_string());
    args.push(title.to_string());
    assert(text::texts(args@) =~= daemon_arguments(title@));
    args
}

/// A process that is started with the arguments for a title becomes an idle daemon that shows
/// that title. The program's own name comes first among the arguments that it sees; it must not
/// be the flag of a title itself.
pub proof fn law_title_reaches_the_daemon(program: Seq<char>, title: Seq<char>)
    requires
        program != WINDOW_TITLE_FLAG@,
    ensures
        asks_for_daemon(seq![program] + daemon_arguments(title)),
        window_title(seq![program] + daemon_arguments(title)) == title,
{
    let args = seq![program] + daemon_arguments(title);
    reveal_strlit("--idle-daemon");
    reveal_strlit("--window-title");
    assert(args[1] == IDLE_DAEMON_FLAG@);
    assert(args.drop_first()[0] == args[1]);
    assert(args.drop_first().drop_first()[0] == args[2]);
    assert(args.drop_first().drop_first()[1] == args[3]);
    reveal_with_fuel(window_title, 3);
}

/// Texts made of characters that a title keeps.
pub open spec fn is_title_text(s: Seq<char>) -> bool {
    forall|i: int| 0 <= i < s.len() ==> is_title_char(#[trigger] s[i])
}

pub(crate) proof fn lemma_kept(title: Seq<char>)
    ensures
        is_title_text(kept(title)),
        is_title_text(title) ==> kept(title) == title,
    decreases title.len(),
{
    if title.len() > 0 {
        lemma_kept(title.drop_last());
        if is_title_text(title) {
            assert forall|i: int| 0 <= i < title.drop_last().len() implies is_title_char(
                #[trigger] title.drop_last()[i],
            ) by {
                assert(title.drop_last()[i] == title[i]);
            }
            assert(is_title_char(title[title.len() - 1]));
            assert(title.drop_last().push(title.last()) =~= title);
        }
    }
}

proof fn lemma_title_pieces(s: Seq<char>, class: Class)
    requires
        is_title_text(s),
    ensures
        forall|i: int|
            0 <= i < text::pieces(s, class).len() ==> is_title_text(
                #[trigger] text::pieces(s, class)[i],
            ),
    decreases s.len(),
{
    if s.len() > 0 {
        assert forall|i: int| 0 <= i < s.drop_last().len() implies is_title_char(
            #[trigger] s.drop_last()[i],
        ) by {
            assert(s.drop_last()[i] == s[i]);
        }
        lemma_title_pieces(s.drop_last(), class);
        text::lemma_pieces_of_plain(s.drop_last(), class);
        assert(is_title_char(s[s.len() - 1]));
        let front = text::pieces(s.drop_last(), class);
        assert(is_title_text(front[front.len() - 1]));
    }
}

proof fn lemma_title_words(list: Seq<Seq<char>>)
    requires
        forall|i: int| 0 <= i < list.len() ==> is_title_text(#[trigger] list[i]),
    ensures
        is_title_text(text::joined(list, seq![' '])),
        forall|i: int|
            0 <= i < text::nonempty(list).len() ==> is_title_text(
                #[trigger] text::nonempty(list)[i],
            ),
    decreases list.len(),
{
    if list.len() > 0 {
        let front = list.drop_last();
        assert forall|i: int| 0 <= i < front.len() implies is_title_text(#[trigger] front[i]) by {
            assert(front[i] == list[i]);
        }
        lemma_title_words(front);
        assert(is_title_text(list[list.len() - 1]));
        let words = text::nonempty(list);
        assert forall|i: int| 0 <= i < words.len() implies is_title_text(#[trigger] words[i]) by {
            if i < text::nonempty(front).len() {
                assert(words[i] == text::nonempty(front)[i]);
            }
        }
    }
}

/// A clean title is never empty nor too long, and holds nothing but letters, digits, spaces,
/// `_`, `-` and `.`.
pub proof fn law_clean_title_is_safe(title: Seq<char>)
    ensures
        0 < clean_title(title).len() <= MAX_TITLE_CHARS,
        is_title_text(clean_title(title)),
{
    reveal_strlit("Game");
    lemma_kept(title);
    lemma_title_pieces(kept(title), Class::White);
    lemma_title_words(text::pieces(kept(title), Class::White));
    lemma_title_words(text::words_of(kept(title)));
    let spaced = spaced(title);
    let bare = text::stripped(spaced, Class::Dot);
    text::lemma_stripped(spaced, Class::Dot);
    assert forall|i: int| 0 <= i < bare.len() implies is_title_char(#[trigger] bare[i]) by {
        assert(spaced.contains(bare[i]));
    }
}

/// Texts in which no space follows another.
pub open spec fn has_single_spaces(s: Seq<char>) -> bool {
    forall|i: int, j: int|
        #![trigger s[i], s[j]]
        0 <= i && j == i + 1 && j < s.len() && s[i] == ' ' ==> s[j] != ' '
}

/// Titles that are clean already: made of characters that a title keeps, not too long, with
/// single spaces inside only, and without dots at either end.
pub open spec fn is_tidy(title: Seq<char>) -> bool {
    &&& is_title_text(title)
    &&& 0 < title.len() <= MAX_TITLE_CHARS
    &&& title.first() != ' ' && title.first() != '.'
    &&& title.last() != ' ' && title.last() != '.'
    &&& has_single_spaces(title)
}

/// Neither at the start nor twice in a row does white space leave an empty piece, except for the
/// last one.
pub(crate) proof fn lemma_full_pieces(s: Seq<char>)
    requires
        is_title_text(s),
        s.len() > 0,
        s.first() != ' ',
        has_single_spaces(s),
    ensures
        ({
            let list = text::pieces(s, Class::White);
            &&& list.len() > 0
            &&& forall|i: int| 0 <= i < list.len() - 1 ==> (#[trigger] list[i]).len() > 0
            &&& list.last().len() > 0 <==> s.last() != ' '
        }),
    decreases s.len(),
{
    let front = s.drop_last();
    text::lemma_pieces_of_plain(front, Class::White);
    assert(is_title_char(s[s.len() - 1]));
    if s.len() == 1 {
        assert(front =~= Seq::<char>::empty());
    } else {
        assert forall|i: int| 0 <= i < front.len() implies is_title_char(#[trigger] front[i]) by {
            assert(front[i] == s[i]);
        }
        assert forall|i: int, j: int|
            0 <= i && j == i + 1 && j < front.len() && front[i] == ' ' implies front[j] != ' ' by {
            assert(front[i] == s[i]);
            assert(front[j] == s[j]);
        }
        lemma_full_pieces(front);
        let list = text::pieces(s, Class::White);
        let before = text::pieces(front, Class::White);
        assert(s[s.len() - 2] == front.last());
        assert forall|i: int| 0 <= i < list.len() - 1 implies (#[trigger] list[i]).len() > 0 by {
            assert(list[i] == before[i]);
        }
    }
}

pub(crate) proof fn lemma_all_nonempty(list: Seq<Seq<char>>)
    requires
        forall|i: int| 0 <= i < list.len() ==> (#[trigger] list[i]).len() > 0,
    ensures
        text::nonempty(list) == list,
    decreases list.len(),
{
    if list.len() > 0 {
        let front = list.drop_last();
        assert forall|i: int| 0 <= i < front.len() implies (#[trigger] front[i]).len() > 0 by {
            assert(front[i] == list[i]);
        }
        lemma_all_nonempty(front);
        assert(list[list.len() - 1].len() > 0);
        assert(front.push(list.last()) =~= list);
    }
}

/// A title that is clean already stays as it is.
pub proof fn law_tidy_title_is_kept(title: Seq<char>)
    requires
        is_tidy(title),
    ensures
        clean_title(title) == title,
{
    lemma_kept(title);
    lemma_full_pieces(title);
    let list = text::pieces(title, Class::White);
    assert forall|i: int| 0 <= i < list.len() implies (#[trigger] list[i]).len() > 0 by {
        if i == list.len() - 1 {
            assert(list[i] == list.last());
        }
    }
    lemma_all_nonempty(list);
    text::law_join_undoes_split(title, Class::White, ' ');
    assert(text::replaced(title, Class::White, ' ') =~= title) by {
        assert forall|i: int| 0 <= i < title.len() implies text::replaced(
            title,
            Class::White,
            ' ',
        )[i] == #[trigger] title[i] by {
            assert(is_title_char(title[i]));
        }
    }
    assert(spaced(title) == title);
    assert(text::stripped(title, Class::Dot) == title);
}

/// Words without spaces, joined by one space each, have single spaces.
proof fn lemma_joined_words(list: Seq<Seq<char>>)
    requires
        forall|i: int|
            0 <= i < list.len() ==> (#[trigger] list[i]).len() > 0 && !list[i].contains(' '),
    ensures
        has_single_spaces(text::joined(list, seq![' '])),
        list.len() > 0 ==> text::joined(list, seq![' ']).len() > 0 && text::joined(
            list,
            seq![' '],
        ).last() != ' ',
    decreases list.len(),
{
    if list.len() > 0 {
        let last = list[list.len() - 1];
        assert(last.len() > 0 && !last.contains(' '));
        assert(last.contains(last[last.len() - 1]));
        let all = text::joined(list, seq![' ']);
        if list.len() == 1 {
            assert forall|i: int, j: int|
                #![trigger all[i], all[j]]
                0 <= i && j == i + 1 && j < all.len() && all[i] == ' ' implies all[j] != ' ' by {
                assert(last.contains(all[i]));
            }
        } else {
            let front = list.drop_last();
            assert forall|i: int| 0 <= i < front.len() implies (#[trigger] front[i]).len() > 0
                && !front[i].contains(' ') by {
                assert(front[i] == list[i]);
            }
            lemma_joined_words(front);
            let before = text::joined(front, seq![' ']);
            let n = before.len() as int;
            assert(all == before + seq![' '] + last);
            assert forall|i: int, j: int|
                #![trigger all[i], all[j]]
                0 <= i && j == i + 1 && j < all.len() && all[i] == ' ' implies all[j] != ' ' by {
                if j < n {
                    assert(all[i] == before[i] && all[j] == before[j]);
                } else if j == n {
                    assert(all[i] == before.last());
                } else {
                    assert(all[j] == last[j - n - 1]);
                    assert(last.contains(all[j]));
                }
            }
            assert(all.last() == last[last.len() - 1]);
        }
    }
}

proof fn lemma_words_are_full(list: Seq<Seq<char>>)
    requires
        forall|i: int| 0 <= i < list.len() ==> !(#[trigger] list[i]).contains(' '),
    ensures
        forall|i: int|
            0 <= i < text::nonempty(list).len() ==> (#[trigger] text::nonempty(list)[i]).len() > 0
                && !text::nonempty(list)[i].contains(' '),
    decreases list.len(),
{
    if list.len() > 0 {
        let front = list.drop_last();
        assert forall|i: int| 0 <= i < front.len() implies !(#[trigger] front[i]).contains(' ') by {
            assert(front[i] == list[i]);
        }
        lemma_words_are_full(front);
        assert(!list[list.len() - 1].contains(' '));
        let words = text::nonempty(list);
        assert forall|i: int| 0 <= i < words.len() implies (#[trigger] words[i]).len() > 0
            && !words[i].contains(' ') by {
            if i < text::nonempty(front).len() {
                assert(words[i] == text::nonempty(front)[i]);
            }
        }
    }
}

/// The words that a title keeps are neither empty nor hold spaces.
proof fn lemma_title_word_list(title: Seq<char>)
    ensures
        forall|i: int|
            0 <= i < text::words_of(kept(title)).len() ==> (#[trigger] text::words_of(
                kept(title),
            )[i]).len() > 0 && !text::words_of(kept(title))[i].contains(' '),
{
    let list = text::pieces(kept(title), Class::White);
    text::lemma_pieces_are_plain(kept(title), Class::White);
    assert forall|i: int| 0 <= i < list.len() implies !(#[trigger] list[i]).contains(' ') by {
        if list[i].contains(' ') {
            let j = choose|j: int| 0 <= j < list[i].len() && list[i][j] == ' ';
            assert(!Class::White.contains(list[i][j]));
        }
    }
    lemma_words_are_full(list);
}

/// A clean title has single spaces only.
pub proof fn law_clean_title_has_single_spaces(title: Seq<char>)
    ensures
        has_single_spaces(clean_title(title)),
{
    reveal_strlit("Game");
    lemma_title_word_list(title);
    lemma_joined_words(text::words_of(kept(title)));
    let spaced = spaced(title);
    let (from, to) = text::lemma_stripped_is_a_stretch(spaced, Class::Dot);
    let bare = text::stripped(spaced, Class::Dot);
    let clean = clean_title(title);
    if at_most(bare, MAX_TITLE_CHARS as nat).len() > 0 {
        assert forall|i: int, j: int|
            #![trigger clean[i], clean[j]]
            0 <= i && j == i + 1 && j < clean.len() && clean[i] == ' ' implies clean[j] != ' ' by {
            assert(clean[i] == spaced[from + i]);
            assert(clean[j] == spaced[from + j]);
        }
    }
}

/// Cleaning a title again changes nothing, where the dots that went or the cut left neither a
/// space nor a dot at an end.
pub proof fn law_cleaning_again_changes_nothing(title: Seq<char>)
    requires
        clean_title(title).first() != ' ' && clean_title(title).first() != '.',
        clean_title(title).last() != ' ' && clean_title(title).last() != '.',
    ensures
        clean_title(clean_title(title)) == clean_title(title),
{
    law_clean_title_is_safe(title);
    law_clean_title_has_single_spaces(title);
    law_tidy_title_is_kept(clean_title(title));
}

pub(crate) proof fn lemma_kept_concat(a: Seq<char>, b: Seq<char>)
    ensures
        kept(a + b) == kept(a) + kept(b),
    decreases b.len(),
{
    if b.len() == 0 {
        assert(a + b =~= a);
        assert(kept(a) + kept(b) =~= kept(a));
    } else {
        lemma_kept_concat(a, b.drop_last());
        assert((a + b).drop_last() =~= a + b.drop_last());
        assert(kept(a + b) =~= kept(a) + kept(b));
    }
}

pub(crate) proof fn lemma_kept_one(c: char)
    ensures
        kept(seq![c]) == if is_title_char(c) {
            seq![c]
        } else if text::is_white(c) {
            seq![' ']
        } else {
            Seq::empty()
        },
{
    assert(seq![c].drop_last() =~= Seq::<char>::empty());
    assert(kept(Seq::<char>::empty()) =~= Seq::<char>::empty());
    assert(seq![c].last() == c);
    assert(Seq::<char>::empty().push(c) =~= seq![c]);
    assert(Seq::<char>::empty().push(' ') =~= seq![' ']);
}

/// Characters that a title does not keep, and that are not white space, make no difference.
pub proof fn law_other_characters_go(a: Seq<char>, c: char, b: Seq<char>)
    requires
        !is_title_char(c),
        !text::is_white(c),
    ensures
        clean_title(a + seq![c] + b) == clean_title(a + b),
{
    lemma_kept_concat(a + seq![c], b);
    lemma_kept_concat(a, seq![c]);
    lemma_kept_concat(a, b);
    lemma_kept_one(c);
    assert(kept(a) + Seq::<char>::empty() =~= kept(a));
}

/// White space of any kind and number between two texts counts as one space.
pub proof fn law_white_space_counts_once(a: Seq<char>, white: Seq<char>, b: Seq<char>)
    requires
        white.len() > 0,
        forall|i: int| 0 <= i < white.len() ==> text::is_white(#[trigger] white[i]),
    ensures
        clean_title(a + white + b) == clean_title(a + seq![' '] + b),
    decreases white.len(),
{
    let c = white[0];
    let rest = white.drop_first();
    assert(text::is_white(c));
    lemma_kept_one(c);
    lemma_kept_one(' ');
    lemma_kept_concat(a, seq![' '] + b);
    lemma_kept_concat(seq![' '], b);
    assert(a + seq![' '] + b =~= a + (seq![' '] + b));
    if white.len() == 1 {
        assert(white =~= seq![c]);
        lemma_kept_concat(a + white, b);
        lemma_kept_concat(a, white);
        assert(kept(a) + seq![' '] + kept(b) =~= kept(a) + (seq![' '] + kept(b)));
        assert(kept(white) == seq![' ']);
    } else {
        assert forall|i: int| 0 <= i < rest.len() implies text::is_white(#[trigger] rest[i]) by {
            assert(rest[i] == white[i + 1]);
        }
        law_white_space_counts_once(a + seq![c], rest, b);
        assert(a + white + b =~= a + seq![c] + rest + b);
        let x = kept(a);
        let y = kept(b);
        lemma_kept_concat(a + seq![c], seq![' '] + b);
        lemma_kept_concat(a, seq![c]);
        assert(a + seq![c] + seq![' '] + b =~= a + seq![c] + (seq![' '] + b));
        let twice = kept(a + seq![c] + seq![' '] + b);
        let once = kept(a + seq![' '] + b);
        assert(twice =~= x + seq![' '] + (seq![' '] + y));
        assert(once =~= x + seq![' '] + y);
        text::law_white_space_parts_words(x, ' ', seq![' '] + y);
        text::law_white_space_parts_words(Seq::<char>::empty(), ' ', y);
        text::law_white_space_parts_words(x, ' ', y);
        assert(Seq::<char>::empty() + seq![' '] + y =~= seq![' '] + y);
        lemma_no_words();
        assert(text::words_of(seq![' '] + y) =~= text::words_of(y));
    }
}

pub(crate) proof fn lemma_no_words()
    ensures
        text::words_of(Seq::<char>::empty()) == Seq::<Seq<char>>::empty(),
{
    let list = text::pieces(Seq::<char>::empty(), Class::White);
    assert(list =~= seq![Seq::<char>::empty()]);
    assert(list.last().len() == 0);
    assert(list.drop_last() =~= Seq::<Seq<char>>::empty());
    assert(text::nonempty(list.drop_last()).len() == 0);
    assert(text::nonempty(list) =~= Seq::<Seq<char>>::empty());
}

proof fn lemma_kept_len(title: Seq<char>)
    ensures
        kept(title).len() <= title.len(),
    decreases title.len(),
{
    if title.len() > 0 {
        lemma_kept_len(title.drop_last());
    }
}

/// Words without the empty ones, joined, are no longer than all of them joined.
proof fn lemma_nonempty_len(list: Seq<Seq<char>>)
    ensures
        text::joined(text::nonempty(list), seq![' ']).len() <= text::joined(list, seq![' ']).len(),
    decreases list.len(),
{
    if list.len() > 0 {
        let front = list.drop_last();
        lemma_nonempty_len(front);
        text::lemma_joined_push(front, list.last(), seq![' ']);
        text::lemma_joined_push(text::nonempty(front), list.last(), seq![' ']);
        assert(front.push(list.last()) =~= list);
    }
}

proof fn lemma_spaced_len(title: Seq<char>)
    ensures
        spaced(title).len() <= title.len(),
{
    lemma_kept_len(title);
    lemma_nonempty_len(text::pieces(kept(title), Class::White));
    text::law_join_undoes_split(kept(title), Class::White, ' ');
}

/// The words of a title, spaced, neither begin nor end with a space.
proof fn lemma_spaced_ends(list: Seq<Seq<char>>)
    requires
        list.len() > 0,
        forall|i: int|
            0 <= i < list.len() ==> (#[trigger] list[i]).len() > 0 && !list[i].contains(' '),
    ensures
        text::joined(list, seq![' ']).len() > 0,
        text::joined(list, seq![' ']).first() != ' ',
    decreases list.len(),
{
    if list.len() == 1 {
        assert(list[0].contains(list[0][0]));
    } else {
        let front = list.drop_last();
        assert forall|i: int| 0 <= i < front.len() implies (#[trigger] front[i]).len() > 0
            && !front[i].contains(' ') by {
            assert(front[i] == list[i]);
        }
        lemma_spaced_ends(front);
    }
}

/// The titles that cleaning leaves as they are, are exactly the tidy ones.
pub proof fn law_tidy_titles_are_the_clean_ones(title: Seq<char>)
    ensures
        clean_title(title) == title <==> is_tidy(title),
{
    if is_tidy(title) {
        law_tidy_title_is_kept(title);
    }
    if clean_title(title) == title {
        law_clean_title_is_safe(title);
        law_clean_title_has_single_spaces(title);
        let bare = text::stripped(spaced(title), Class::Dot);
        if at_most(bare, MAX_TITLE_CHARS as nat).len() == 0 {
            reveal_strlit("Game");
            assert(title[0] == 'G' && title[3] == 'e');
            assert(title.len() == 4);
        } else {
            lemma_spaced_len(title);
            text::lemma_stripped(spaced(title), Class::Dot);
            let (from, to) = text::lemma_stripped_is_a_stretch(spaced(title), Class::Dot);
            assert(spaced(title).len() == title.len());
            assert(spaced(title) =~= bare);
            assert(bare == title);
            lemma_title_word_list(title);
            let words = text::words_of(kept(title));
            assert(words.len() > 0);
            lemma_joined_words(words);
            lemma_spaced_ends(words);
        }
    }
}

} // verus!
