//! The window of a simulated game: its texts as the system takes them, and its decisions.

use vstd::prelude::*;
use crate::title;

verus! {

/// The name of the class of the window.
pub const WINDOW_CLASS_NAME: &'static str = "DCAutoQuestFakeGameWindow";

/// The width of the window, in pixels.
pub const WINDOW_WIDTH: i32 = 800;

/// The height of the window, in pixels.
pub const WINDOW_HEIGHT: i32 = 600;

/// The message that the window is going away.
pub const WM_DESTROY: u32 = 0x0002;

/// The message that the window is to be painted.
pub const WM_PAINT: u32 = 0x000F;

/// The units of UTF-16 of a character: one, or a pair of surrogates.
pub open spec fn utf16_units(c: char) -> Seq<u16> {
    let n = c as u32 as int;
    if n < 0x10000 {
        seq![n as u16]
    } else {
        seq![
            (0xD800 + (n - 0x10000) / 0x400) as u16,
            (0xDC00 + (n - 0x10000) % 0x400) as u16,
        ]
    }
}

/// A text in UTF-16.
pub open spec fn utf16(s: Seq<char>) -> Seq<u16>
    decreases s.len(),
{
    if s.len() == 0 {
        Seq::empty()
    } else {
        utf16(s.drop_last()) + utf16_units(s.last())
    }
}

/// The text in UTF-16, with a zero after it.
pub fn to_wide(value: &str) -> (wide: Vec<u16>)
    ensures
        wide@ == utf16(value@).push(0),
{
    let mut wide: Vec<u16> = Vec::new();
    assert(value@.take(0).len() == 0);
    for c in it: value.chars()
        invariant
            it.seq() == value@,
            wide@ == utf16(value@.take(it.index())),
    {
        let ghost before = wide@;
        let n: u32 = c as u32;
        if n < 0x10000 {
            wide.push(n as u16);
        } else {
            wide.push((0xD800 + (n - 0x10000) / 0x400) as u16);
            wide.push((0xDC00 + (n - 0x10000) % 0x400) as u16);
        }
        assert(wide@ =~= before + utf16_units(c));
        assert(value@.take(it.index() + 1).drop_last() =~= value@.take(it.index()));
    }
    assert(value@.take(value@.len() as int) =~= value@);
    wide.push(0);
    wide
}

/// The units of a character tell which character it is, and a low surrogate tells that a pair
/// ends there.
proof fn lemma_units(c: char)
    ensures
        ({
            let units = utf16_units(c);
            ||| {
                &&& units.len() == 1
                &&& units[0] == c as u32
                &&& units[0] == 0 ==> c == '\0'
                &&& !(0xD800 <= units[0] < 0xE000)
            }
            ||| {
                &&& units.len() == 2
                &&& 0xD800 <= units[0] < 0xDC00
                &&& 0xDC00 <= units[1] < 0xE000
                &&& c as u32 == 0x10000 + (units[0] - 0xD800) * 0x400 + (units[1] - 0xDC00)
            }
        }),
{
    let n = c as u32 as int;
    assert(n <= 0x10FFFF);
    assert(!(0xD800 <= n < 0xE000));
}

proof fn lemma_same_number(c: char, d: char)
    requires
        c as u32 == d as u32,
    ensures
        c == d,
{
}

/// The zero that ends a text without the character zero is its only one.
pub proof fn law_wide_text_ends_at_its_zero(s: Seq<char>)
    requires
        forall|i: int| 0 <= i < s.len() ==> #[trigger] s[i] != '\0',
    ensures
        forall|i: int| 0 <= i < utf16(s).len() ==> #[trigger] utf16(s)[i] != 0,
    decreases s.len(),
{
    if s.len() > 0 {
        let front = s.drop_last();
        assert forall|i: int| 0 <= i < front.len() implies #[trigger] front[i] != '\0' by {
            assert(front[i] == s[i]);
        }
        law_wide_text_ends_at_its_zero(front);
        assert(s[s.len() - 1] != '\0');
        let units = utf16_units(s.last());
        lemma_units(s.last());
        assert forall|i: int| 0 <= i < utf16(s).len() implies #[trigger] utf16(s)[i] != 0 by {
            let m = utf16(front).len() as int;
            if i < m {
                assert(utf16(s)[i] == utf16(front)[i]);
            } else {
                assert(utf16(s)[i] == units[i - m]);
            }
        }
    }
}

/// The system reads a clean title whole: no zero stands before its end.
pub proof fn law_clean_title_is_read_whole(game_title: Seq<char>)
    ensures
        ({
            let wide = utf16(title::clean_title(game_title));
            forall|i: int| 0 <= i < wide.len() ==> #[trigger] wide[i] != 0
        }),
{
    let clean = title::clean_title(game_title);
    title::law_clean_title_is_safe(game_title);
    assert forall|i: int| 0 <= i < clean.len() implies #[trigger] clean[i] != '\0' by {
        assert(title::is_title_char(clean[i]));
    }
    law_wide_text_ends_at_its_zero(clean);
}

/// Different texts differ in UTF-16 too, so that no title is shown as another.
pub proof fn law_wide_text_is_faithful(a: Seq<char>, b: Seq<char>)
    requires
        utf16(a) == utf16(b),
    ensures
        a == b,
    decreases a.len(),
{
    if a.len() == 0 || b.len() == 0 {
        assert(a.len() > 0 ==> utf16(a).len() > 0);
        assert(b.len() > 0 ==> utf16(b).len() > 0);
        assert(a =~= b);
    } else {
        let x = utf16_units(a.last());
        let y = utf16_units(b.last());
        let s = utf16(a);
        lemma_units(a.last());
        lemma_units(b.last());
        assert(s.last() == x.last());
        assert(s.last() == y.last());
        assert(x.len() == y.len());
        if x.len() == 2 {
            assert(s[s.len() - 2] == x[0]);
            assert(s[s.len() - 2] == y[0]);
        }
        lemma_same_number(a.last(), b.last());
        assert(utf16(a.drop_last()) =~= s.take(s.len() - x.len()));
        assert(utf16(b.drop_last()) =~= s.take(s.len() - x.len()));
        law_wide_text_is_faithful(a.drop_last(), b.drop_last());
        assert(a =~= a.drop_last().push(a.last()));
        assert(b =~= b.drop_last().push(b.last()));
    }
}

/// What the window does with a message.
#[derive(Clone, Copy, PartialEq, Eq, Structural, Debug)]
pub enum WindowAction {
    /// Ask the loop of messages to end.
    Quit,
    /// Fill what is to be painted with the colour of windows.
    Paint,
    /// Leave the message to the system.
    Default,
}

/// Decides what the window does with a message.
pub fn window_action(msg: u32) -> (action: WindowAction)
    ensures
        msg == WM_DESTROY <==> action == WindowAction::Quit,
        msg == WM_PAINT <==> action == WindowAction::Paint,
        msg != WM_DESTROY && msg != WM_PAINT <==> action == WindowAction::Default,
{
    if msg == WM_DESTROY {
        WindowAction::Quit
    } else if msg == WM_PAINT {
        WindowAction::Paint
    } else {
        WindowAction::Default
    }
}

/// A step of the process of the window, for the host to do.
#[derive(Clone, Copy, PartialEq, Eq, Structural, Debug)]
pub enum WindowStep {
    /// Create the window; the answer is zero where that failed.
    Create,
    /// Stay idle, without a window.
    Park,
    /// Show the window.
    Show,
    /// Wait for the next message; the answer is positive for a message, zero at the end and
    /// negative for an error.
    Fetch,
    /// Hand the message to the window.
    Dispatch,
    /// Nothing more.
    End,
}

/// The step that follows once the host has done a step, with this answer.
pub open spec fn step_after(step: WindowStep, answer: int) -> WindowStep {
    match step {
        WindowStep::Create => if answer != 0 {
            WindowStep::Show
        } else {
            WindowStep::Park
        },
        WindowStep::Park => WindowStep::Park,
        WindowStep::Show => WindowStep::Fetch,
        WindowStep::Fetch => if answer > 0 {
            WindowStep::Dispatch
        } else {
            WindowStep::End
        },
        WindowStep::Dispatch => WindowStep::Fetch,
        WindowStep::End => WindowStep::End,
    }
}

/// Decides the step that follows once the host has done a step. Only the answers to creating and
/// to waiting matter.
pub fn next_step(step: WindowStep, answer: i32) -> (next: WindowStep)
    ensures
        next == step_after(step, answer as int),
{
    match step {
        WindowStep::Create => if answer != 0 {
            WindowStep::Show
        } else {
            WindowStep::Park
        },
        WindowStep::Park => WindowStep::Park,
        WindowStep::Show => WindowStep::Fetch,
        WindowStep::Fetch => if answer > 0 {
            WindowStep::Dispatch
        } else {
            WindowStep::End
        },
        WindowStep::Dispatch => WindowStep::Fetch,
        WindowStep::End => WindowStep::End,
    }
}

/// The step after a number of answers.
pub open spec fn steps_after(step: WindowStep, answers: Seq<int>) -> WindowStep
    decreases answers.len(),
{
    if answers.len() == 0 {
        step
    } else {
        step_after(steps_after(step, answers.drop_last()), answers.last())
    }
}

/// Answers among which a wait for a message was answered with the end or an error. The answers to
/// the waits stand at the even places after those to creating and showing the window.
pub open spec fn has_ended(answers: Seq<int>) -> bool {
    exists|k: int| 2 <= k < answers.len() && k % 2 == 0 && #[trigger] answers[k] <= 0
}

/// The whole course of the process, after any number of answers. Where the window could not be
/// created, the process stays idle for ever. Else it shows the window once, right after creating
/// it; it ends exactly where a wait was answered with the end or an error; and until then it
/// waits and hands on in turn, so that each message is handed on once.
pub proof fn law_course_of_the_window(answers: Seq<int>)
    ensures
        steps_after(WindowStep::Create, answers) == if answers.len() == 0 {
            WindowStep::Create
        } else if answers[0] == 0 {
            WindowStep::Park
        } else if answers.len() == 1 {
            WindowStep::Show
        } else if has_ended(answers) {
            WindowStep::End
        } else if answers.len() % 2 == 0 {
            WindowStep::Fetch
        } else {
            WindowStep::Dispatch
        },
    decreases answers.len(),
{
    if answers.len() > 0 {
        let front = answers.drop_last();
        let last = answers.len() - 1;
        law_course_of_the_window(front);
        if has_ended(front) {
            let k = choose|k: int| 2 <= k < front.len() && k % 2 == 0 && #[trigger] front[k] <= 0;
            assert(answers[k] <= 0);
        } else if has_ended(answers) {
            let k = choose|k: int|
                2 <= k < answers.len() && k % 2 == 0 && #[trigger] answers[k] <= 0;
            assert(k < last ==> front[k] <= 0);
            assert(k == last);
        } else if answers.len() >= 3 && last % 2 == 0 {
            assert(answers[last] > 0);
        }
    }
}

} // verus!
