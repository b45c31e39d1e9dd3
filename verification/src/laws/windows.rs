//! The texts of the window unit by unit, and its numbers.

use vstd::prelude::*;
use crate::window;
use crate::window::WindowStep;

verus! {

/// The units of a text: a character below 65536 is the unit of its number, any other a high and a
/// low surrogate that give its number, and the units of two texts follow each other.
pub proof fn law_units_of_a_text(c: char, a: Seq<char>, b: Seq<char>)
    ensures
        window::utf16(Seq::<char>::empty()) == Seq::<u16>::empty(),
        ({
            let units = window::utf16(seq![c]);
            if (c as u32) < 65536 {
                units.len() == 1 && units[0] == c as u32
            } else {
                &&& units.len() == 2
                &&& 55296 <= units[0] < 56320
                &&& 56320 <= units[1] < 57344
                &&& c as u32 == 65536 + (units[0] - 55296) * 1024 + (units[1] - 56320)
            }
        }),
        window::utf16(a + b) == window::utf16(a) + window::utf16(b),
    decreases b.len(),
{
    let one = seq![c];
    let n = c as u32;
    assert(n <= 1114111);
    assert(one.drop_last() =~= Seq::<char>::empty());
    assert(window::utf16(one.drop_last()) =~= Seq::<u16>::empty());
    assert(window::utf16(one) =~= window::utf16_units(c));
    if b.len() == 0 {
        assert(a + b =~= a);
        assert(window::utf16(a + b) =~= window::utf16(a) + window::utf16(b));
    } else {
        let front = b.drop_last();
        law_units_of_a_text(c, a, front);
        assert((a + b).drop_last() =~= a + front);
        assert((a + b).last() == b.last());
        assert(window::utf16(a + b) =~= window::utf16(a) + window::utf16(b));
    }
}

/// The numbers and the name of the window.
pub proof fn law_numbers_of_the_window()
    ensures
        window::WM_DESTROY == 2,
        window::WM_PAINT == 15,
        window::WINDOW_WIDTH == 800,
        window::WINDOW_HEIGHT == 600,
        window::WINDOW_CLASS_NAME@ == "DCAutoQuestFakeGameWindow"@,
{
}

/// The step that follows each step, whatever the answer: only a window that was created is shown,
/// only a message is handed on, and the process waits again after that. A process without a
/// window stays idle, and one that has ended does nothing more.
pub proof fn law_steps_of_the_window(answer: int)
    ensures
        window::step_after(WindowStep::Create, answer) == WindowStep::Show <==> answer != 0,
        window::step_after(WindowStep::Create, answer) == WindowStep::Park <==> answer == 0,
        window::step_after(WindowStep::Park, answer) == WindowStep::Park,
        window::step_after(WindowStep::Show, answer) == WindowStep::Fetch,
        window::step_after(WindowStep::Fetch, answer) == WindowStep::Dispatch <==> answer > 0,
        window::step_after(WindowStep::Fetch, answer) == WindowStep::End <==> answer <= 0,
        window::step_after(WindowStep::Dispatch, answer) == WindowStep::Fetch,
        window::step_after(WindowStep::End, answer) == WindowStep::End,
{
}

} // verus!
