use dcautoquest::title::sanitize_game_title;
use dcautoquest::window::{
    next_step, to_wide, window_action, WindowAction, WindowStep,
};

#[test]
fn wide_text_is_utf16_with_a_zero() {
    assert_eq!(to_wide(""), [0]);
    assert_eq!(to_wide("Ab\u{e9}"), [0x41, 0x62, 0xE9, 0]);
    assert_eq!(to_wide("\u{ffff}"), [0xFFFF, 0]);
    assert_eq!(to_wide("\u{10000}"), [0xD800, 0xDC00, 0]);
    assert_eq!(to_wide("\u{1f600}"), [0xD83D, 0xDE00, 0]);
    assert_eq!(to_wide("\u{10ffff}"), [0xDBFF, 0xDFFF, 0]);
}

#[test]
fn wide_text_reads_back() {
    for text in ["Overwatch 2", "\u{4e2d}\u{1f3ae}!", "a\u{10000}\u{e000}"] {
        let wide = to_wide(text);
        let expected: Vec<u16> = text.encode_utf16().collect();
        assert_eq!(wide[..wide.len() - 1], expected[..]);
        assert!(expected.iter().all(|unit| *unit != 0));
    }
}

#[test]
fn a_clean_title_is_read_whole() {
    let wide = to_wide(&sanitize_game_title("A\0 B"));
    assert_eq!(wide, [0x41, 0x20, 0x42, 0]);
}

#[test]
fn messages_have_their_actions() {
    assert_eq!(window_action(0x0002), WindowAction::Quit);
    assert_eq!(window_action(0x000F), WindowAction::Paint);
    assert_eq!(window_action(0x0001), WindowAction::Default);
}

#[test]
fn creation_decides_between_window_and_idling() {
    assert_eq!(next_step(WindowStep::Create, 1), WindowStep::Show);
    assert_eq!(next_step(WindowStep::Create, -1), WindowStep::Show);
    assert_eq!(next_step(WindowStep::Create, 0), WindowStep::Park);
    assert_eq!(next_step(WindowStep::Park, 1), WindowStep::Park);
    assert_eq!(next_step(WindowStep::Show, 0), WindowStep::Fetch);
}

#[test]
fn the_loop_of_messages_ends() {
    assert_eq!(next_step(WindowStep::Fetch, 1), WindowStep::Dispatch);
    assert_eq!(next_step(WindowStep::Dispatch, 0), WindowStep::Fetch);
    assert_eq!(next_step(WindowStep::Fetch, 0), WindowStep::End);
    assert_eq!(next_step(WindowStep::Fetch, -1), WindowStep::End);
    assert_eq!(next_step(WindowStep::End, 1), WindowStep::End);
}

#[test]
fn each_message_is_handed_on_once() {
    let mut step = WindowStep::Create;
    let mut course = Vec::new();
    for answer in [1, 0, 5, 0, 1, 0, 0, 1, 1] {
        course.push(step);
        step = next_step(step, answer);
    }
    assert_eq!(
        course,
        [
            WindowStep::Create,
            WindowStep::Show,
            WindowStep::Fetch,
            WindowStep::Dispatch,
            WindowStep::Fetch,
            WindowStep::Dispatch,
            WindowStep::Fetch,
            WindowStep::End,
            WindowStep::End
        ]
    );
    assert_eq!(step, WindowStep::End);
}
