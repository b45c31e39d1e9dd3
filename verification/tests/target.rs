use dcautoquest::path::{path_to_portable_string, RelPath};
use dcautoquest::target::{
    is_windows_reserved_name, sanitize_target_path, sanitize_trimmed_path, validate_path_part,
    DOT_AT_END, EMPTY_PATH, INVALID_PART, LONG_PATH, NOT_RELATIVE, RESERVED_PART, UNSAFE_PART,
};

fn path(parts: &[&str]) -> RelPath {
    RelPath { parts: parts.iter().map(|part| part.to_string()).collect() }
}

fn refused(message: &str) -> Result<RelPath, String> {
    Err(message.to_string())
}

#[test]
fn accepts_portable_relative_executable_paths() {
    assert_eq!(sanitize_target_path("game.exe"), Ok(path(&["game.exe"])));
    assert_eq!(
        sanitize_target_path("bin/linux_binary-1_2"),
        Ok(path(&["bin", "linux_binary-1_2"]))
    );
}

#[test]
fn rejects_absolute_traversal_and_invalid_windows_names() {
    assert!(sanitize_target_path("../game").is_err());
    assert!(sanitize_target_path("/game.exe").is_err());
    assert!(sanitize_target_path("C:\\game.exe").is_err());
    assert!(sanitize_target_path("game.").is_err());
    assert!(sanitize_target_path("bin/con.exe").is_err());
    assert!(sanitize_target_path("LPT1").is_err());
}

#[test]
fn every_refusal_has_its_message() {
    assert_eq!(sanitize_target_path(""), refused("caminho do executável não pode ser vazio"));
    assert_eq!(sanitize_target_path(" \t\u{3000}\n"), refused(EMPTY_PATH));
    assert_eq!(
        sanitize_target_path(&"a".repeat(181)),
        refused("caminho do executável deve ter no máximo 180 caracteres")
    );
    assert_eq!(
        sanitize_target_path("/game.exe"),
        refused("caminho do executável deve ser relativo")
    );
    assert_eq!(sanitize_target_path("\\game.exe"), refused(NOT_RELATIVE));
    assert_eq!(
        sanitize_target_path("../game"),
        refused("caminho do executável contém parte inválida")
    );
    assert_eq!(sanitize_target_path("a/./b"), refused(INVALID_PART));
    assert_eq!(sanitize_target_path("a//b"), refused(INVALID_PART));
    assert_eq!(sanitize_target_path("a/"), refused(INVALID_PART));
    assert_eq!(
        sanitize_target_path("game."),
        refused("parte do caminho não pode terminar com ponto")
    );
    assert_eq!(sanitize_target_path("..."), refused(DOT_AT_END));
    assert_eq!(
        sanitize_target_path("my game.exe"),
        refused("use apenas letras, números, ponto, hífen, underscore ou barra")
    );
    assert_eq!(sanitize_target_path("jogo-é.exe"), refused(UNSAFE_PART));
    assert_eq!(
        sanitize_target_path("bin/con.exe"),
        refused("parte do caminho é reservada pelo Windows")
    );
    assert_eq!(sanitize_target_path("LPT1"), refused(RESERVED_PART));
}

#[test]
fn the_first_fault_decides() {
    assert_eq!(sanitize_target_path("con/a b"), refused(RESERVED_PART));
    assert_eq!(sanitize_target_path("a b/con"), refused(UNSAFE_PART));
    assert_eq!(sanitize_target_path("é."), refused(DOT_AT_END));
}

#[test]
fn the_limit_counts_bytes() {
    assert_eq!(sanitize_target_path(&"a".repeat(180)), Ok(path(&[&"a".repeat(180)])));
    assert_eq!(sanitize_target_path(&"é".repeat(91)), refused(LONG_PATH));
    assert_eq!(sanitize_target_path(&"é".repeat(90)), refused(UNSAFE_PART));
}

#[test]
fn separators_and_white_space_are_normalized() {
    assert_eq!(
        sanitize_target_path("  bin \\ win64/ game.exe\u{a0}"),
        Ok(path(&["bin", "win64", "game.exe"]))
    );
}

#[test]
fn the_host_decides_only_what_is_absolute() {
    assert_eq!(sanitize_trimmed_path("bin/game", false), Ok(path(&["bin", "game"])));
    assert_eq!(sanitize_trimmed_path("bin/game", true), refused(NOT_RELATIVE));
    assert_eq!(sanitize_trimmed_path("C:\\game.exe", false), refused(UNSAFE_PART));
    assert_eq!(sanitize_trimmed_path("C:\\game.exe", true), refused(NOT_RELATIVE));
    let message = sanitize_target_path("C:\\game.exe").unwrap_err();
    assert!(message == UNSAFE_PART || message == NOT_RELATIVE);
}

#[test]
fn parts_are_validated_one_by_one() {
    assert_eq!(validate_path_part("Game_1-2.exe"), Ok("Game_1-2.exe".to_string()));
    assert_eq!(validate_path_part(""), Err(INVALID_PART.to_string()));
    assert_eq!(validate_path_part("."), Err(INVALID_PART.to_string()));
    assert_eq!(validate_path_part(".."), Err(INVALID_PART.to_string()));
    assert_eq!(validate_path_part("a."), Err(DOT_AT_END.to_string()));
    assert_eq!(validate_path_part("a/b"), Err(UNSAFE_PART.to_string()));
    assert_eq!(validate_path_part("nul"), Err(RESERVED_PART.to_string()));
    assert_eq!(validate_path_part(".hidden"), Ok(".hidden".to_string()));
}

#[test]
fn reserved_names_ignore_case_and_extension() {
    for name in ["CON", "prn", "Aux", "NUL.txt", "com1.tar.gz", "CoM9", "lpt9.x", "LPT5"] {
        assert!(is_windows_reserved_name(name), "{name}");
    }
    for name in ["CONX", "COM0", "COM10", "LPT", "a.con", "", ".con", "LPT0", "c\u{f3}n"] {
        assert!(!is_windows_reserved_name(name), "{name}");
    }
}

#[test]
fn the_reported_name_is_accepted_again() {
    let clean = sanitize_target_path(" bin\\ x64 / game.exe ").unwrap();
    let reported = path_to_portable_string(&clean);
    assert_eq!(reported, "bin/x64/game.exe");
    assert_eq!(sanitize_target_path(&reported), Ok(clean));
}

#[test]
fn accepted_parts_are_plain() {
    let clean = sanitize_target_path("a/b-c/d_e.f").unwrap();
    assert_eq!(clean.parts.len(), 3);
    for part in clean.parts {
        assert!(!part.contains(&['/', '\\', ':'][..]) && part != "." && part != "..");
    }
}

#[test]
fn the_spelling_of_a_name_makes_no_difference() {
    for name in ["bin\\win64\\game.exe", "a\\..\\b", "\\x", "a\\b.", "", "con\\x", "a b\\c"] {
        let plain = sanitize_target_path(name);
        assert_eq!(sanitize_target_path(&name.replace('\\', "/")), plain);
        assert_eq!(sanitize_target_path(&format!(" \t{name}\u{2003}\n")), plain);
    }
}
