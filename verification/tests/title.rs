use dcautoquest::title::{
    daemon_args, launch_mode, read_window_title, sanitize_game_title, LaunchMode,
    DEFAULT_TITLE, IDLE_DAEMON_FLAG, WINDOW_TITLE_FLAG,
};

fn args(list: &[&str]) -> Vec<String> {
    list.iter().map(|arg| arg.to_string()).collect()
}

#[test]
fn titles_keep_plain_characters() {
    assert_eq!(sanitize_game_title("Overwatch 2"), "Overwatch 2");
    assert_eq!(sanitize_game_title("Half-Life_2.5"), "Half-Life_2.5");
    assert_eq!(sanitize_game_title("Pokémon: Let's Go!"), "Pokmon Lets Go");
}

#[test]
fn white_space_in_titles_collapses() {
    assert_eq!(sanitize_game_title("  The\t\tGame\u{3000}\n II "), "The Game II");
}

#[test]
fn dots_at_the_ends_of_titles_go() {
    assert_eq!(sanitize_game_title("...S.T.A.L.K.E.R..."), "S.T.A.L.K.E.R");
    assert_eq!(sanitize_game_title(". a ."), " a ");
}

#[test]
fn empty_titles_have_a_default() {
    assert_eq!(sanitize_game_title(""), "Game");
    assert_eq!(sanitize_game_title("...."), "Game");
    assert_eq!(sanitize_game_title("\u{4e2d}\u{6587}"), "Game");
    assert_eq!(DEFAULT_TITLE, "Game");
}

#[test]
fn long_titles_are_cut() {
    assert_eq!(sanitize_game_title(&"x".repeat(80)), "x".repeat(80));
    assert_eq!(sanitize_game_title(&"x".repeat(81)), "x".repeat(80));
    let cut = sanitize_game_title(&format!("{} y", "x".repeat(79)));
    assert_eq!(cut, format!("{} ", "x".repeat(79)));
}

#[test]
fn clean_titles_stay_as_they_are() {
    let clean = sanitize_game_title("  Some   Game. ");
    assert_eq!(clean, "Some Game");
    assert_eq!(sanitize_game_title(&clean), clean);
}

#[test]
fn the_window_title_follows_its_flag() {
    assert_eq!(read_window_title(&args(&["app", "--window-title", "A B"])), "A B");
    assert_eq!(
        read_window_title(&args(&["--window-title", "A", "--window-title", "B"])),
        "A"
    );
    assert_eq!(read_window_title(&args(&["app", "--window-title"])), "Game");
    assert_eq!(read_window_title(&args(&["app"])), "Game");
    assert_eq!(read_window_title(&args(&[])), "Game");
    assert_eq!(
        read_window_title(&args(&["--window-title", "--window-title", "B"])),
        "--window-title"
    );
}

#[test]
fn the_daemon_flag_decides_the_mode() {
    assert!(matches!(launch_mode(&args(&["app"])), LaunchMode::Application));
    assert!(matches!(launch_mode(&args(&["app", "--idle-daemonx"])), LaunchMode::Application));
    match launch_mode(&args(&["app", "--idle-daemon"])) {
        LaunchMode::IdleDaemon { title } => assert_eq!(title, "Game"),
        LaunchMode::Application => panic!("the flag was not seen"),
    }
}

#[test]
fn the_title_reaches_the_daemon() {
    assert_eq!(
        daemon_args("Overwatch 2"),
        args(&[IDLE_DAEMON_FLAG, WINDOW_TITLE_FLAG, "Overwatch 2"])
    );
    let mut all = args(&["/tmp/game.exe"]);
    all.extend(daemon_args("--window-title"));
    match launch_mode(&all) {
        LaunchMode::IdleDaemon { title } => assert_eq!(title, "--window-title"),
        LaunchMode::Application => panic!("the flag was not seen"),
    }
}

#[test]
fn other_characters_and_white_space_make_no_difference() {
    assert_eq!(sanitize_game_title("A\u{2122}B C"), sanitize_game_title("AB C"));
    assert_eq!(sanitize_game_title("A \u{a0}\t\u{2028}B"), sanitize_game_title("A B"));
    assert_eq!(sanitize_game_title("\u{3000}A"), "A");
}
