use install_wheel::help_text::{
    extract_env_annotation, first_non_ansi_char, reformat_env_annotations, strip_ansi_codes,
};
use install_wheel::text::chars_of;

#[test]
fn colour_codes_are_stripped() {
    assert_eq!(strip_ansi_codes(""), "");
    assert_eq!(strip_ansi_codes("plain"), "plain");
    assert_eq!(strip_ansi_codes("\x1b[1m\x1b[32mCommands:\x1b[0m"), "Commands:");
    assert_eq!(strip_ansi_codes("a\x1b[38;5;12mb\x1b[0mc"), "abc");
    // An escape character alone is dropped; what follows is kept.
    assert_eq!(strip_ansi_codes("a\x1bb"), "ab");
    assert_eq!(strip_ansi_codes("a\x1b\x1b[1mb"), "ab");
    assert_eq!(strip_ansi_codes("a\x1b"), "a");
    // A code without its letter swallows the rest.
    assert_eq!(strip_ansi_codes("a\x1b[12;34"), "a");
    // The first letter ends a code, which may be empty.
    assert_eq!(strip_ansi_codes("\x1b[mx"), "x");
    assert_eq!(strip_ansi_codes("\x1b[Kxy"), "xy");
    assert_eq!(strip_ansi_codes("é\x1b[1mü"), "éü");
}

#[test]
fn first_character_outside_codes_is_found() {
    assert_eq!(first_non_ansi_char("      \x1b[1m--offline\x1b[0m", 6), Some('-'));
    assert_eq!(first_non_ansi_char("      <PACKAGE>", 6), Some('<'));
    assert_eq!(first_non_ansi_char("abc", 0), Some('a'));
    assert_eq!(first_non_ansi_char("abc", 2), Some('c'));
    assert_eq!(first_non_ansi_char("abc", 3), None);
    assert_eq!(first_non_ansi_char("", 0), None);
    assert_eq!(first_non_ansi_char("\x1b[1m\x1b[0m", 0), None);
    assert_eq!(first_non_ansi_char("\x1b[1", 0), None);
    assert_eq!(first_non_ansi_char("\x1bx", 0), Some('x'));
    // The place counts characters.
    assert_eq!(first_non_ansi_char("éé-", 2), Some('-'));
    assert_eq!(chars_of("éé-").len(), 3);
}

#[test]
fn env_annotation_is_taken_out_of_a_line() {
    assert_eq!(
        extract_env_annotation("          Disable network access [env: UV_OFFLINE=]"),
        Some(("[env: UV_OFFLINE=]".to_string(), "          Disable network access".to_string()))
    );
    assert_eq!(
        extract_env_annotation("          Use [env: UV_A=] twice [env: UV_B=]"),
        Some(("[env: UV_A=]".to_string(), "          Use twice [env: UV_B=]".to_string()))
    );
    // The name must be made of capital letters and underscores.
    assert_eq!(extract_env_annotation("          Text [env: uv_offline=]"), None);
    assert_eq!(extract_env_annotation("          Text [env: UV_OFFLINE2=]"), None);
    assert_eq!(extract_env_annotation("          Text [env: UV OFFLINE=]"), None);
    // An empty name passes.
    assert_eq!(
        extract_env_annotation("x [env: =]"),
        Some(("[env: =]".to_string(), "x".to_string()))
    );
    // A note alone on its line stays where it is.
    assert_eq!(extract_env_annotation("          [env: UV_OFFLINE=]"), None);
    assert_eq!(extract_env_annotation(" [env: UV_OFFLINE=]  "), None);
    // No note, or no end of it.
    assert_eq!(extract_env_annotation("          Disable network access"), None);
    assert_eq!(extract_env_annotation("          Text [env: UV_OFFLINE"), None);
    assert_eq!(extract_env_annotation("          Text [env: UV_OFFLINE=value]"), None);
    assert_eq!(extract_env_annotation("          Text[env: UV_OFFLINE=]"), None);
    // The end is looked for behind the start only.
    assert_eq!(extract_env_annotation("=] x [env: UV_OFFLINE"), None);
    assert_eq!(extract_env_annotation(""), None);
}

#[test]
fn annotations_move_to_their_own_line() {
    let help = "\
Options:
      --offline
          Disable network access [env: UV_OFFLINE=]

          More words about it.

      --quiet
          Say less
";
    let expected = "\
Options:
      --offline
          Disable network access.

          More words about it.

          [env: UV_OFFLINE=]

      --quiet
          Say less";
    assert_eq!(reformat_env_annotations(help), expected);
}

#[test]
fn annotation_at_the_end_of_the_page_is_flushed() {
    let help = "      <PACKAGE>\n          The package: [env: UV_PACKAGE=]";
    let expected = "      <PACKAGE>\n          The package:\n\n          [env: UV_PACKAGE=]";
    assert_eq!(reformat_env_annotations(help), expected);
}

#[test]
fn headings_flush_and_other_lines_pass() {
    let help = "      -v\n          Verbose [env: UV_V=]\nGlobal options:\n  odd\n";
    let expected = "      -v\n          Verbose.\n\n          [env: UV_V=]\n\nGlobal options:\n  odd";
    assert_eq!(reformat_env_annotations(help), expected);
    // Coloured argument names are seen through.
    let help = "      \x1b[1m-v\x1b[0m\n          Verbose. [env: UV_V=]\n      \x1b[1m-q\x1b[0m\n";
    let expected =
        "      \x1b[1m-v\x1b[0m\n          Verbose.\n\n          [env: UV_V=]\n\n      \x1b[1m-q\x1b[0m";
    assert_eq!(reformat_env_annotations(help), expected);
}

#[test]
fn pages_without_annotations_only_lose_the_last_line_feed() {
    assert_eq!(reformat_env_annotations(""), "");
    assert_eq!(reformat_env_annotations("a"), "a");
    assert_eq!(reformat_env_annotations("a\n"), "a");
    assert_eq!(reformat_env_annotations("a\n\n"), "a\n");
    assert_eq!(reformat_env_annotations("a\r\nb\r\n"), "a\nb");
    assert_eq!(reformat_env_annotations("a\rb"), "a\rb");
    assert_eq!(reformat_env_annotations("\n"), "");
    // A note on a line that is no description stays.
    assert_eq!(
        reformat_env_annotations("      --x  Text [env: UV_X=]\n"),
        "      --x  Text [env: UV_X=]"
    );
    // The indent counts bytes: five no-break spaces are ten bytes deep.
    let deep = "\u{a0}\u{a0}\u{a0}\u{a0}\u{a0}Text [env: UV_X=]";
    assert_eq!(
        reformat_env_annotations(deep),
        "\u{a0}\u{a0}\u{a0}\u{a0}\u{a0}Text.\n\n          [env: UV_X=]"
    );
}
