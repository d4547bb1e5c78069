use install_wheel::commands::{
    calculate_max_command_width, find_command, find_subcommand, missing_command_message,
    render_nested_commands, replace_commands_section, write_command_entry, CommandEntry,
    HelpStyles,
};

fn command(name: &str, about: &str, subcommands: Vec<CommandEntry>) -> CommandEntry {
    CommandEntry {
        name: name.to_string(),
        aliases: Vec::new(),
        about: about.to_string(),
        hidden: false,
        subcommands,
    }
}

fn hidden(name: &str) -> CommandEntry {
    CommandEntry { hidden: true, ..command(name, "Not shown", Vec::new()) }
}

fn styles() -> HelpStyles {
    HelpStyles {
        header_on: "\x1b[1m\x1b[32m".to_string(),
        header_off: "\x1b[0m".to_string(),
        literal_on: "\x1b[1m\x1b[36m".to_string(),
        literal_off: "\x1b[0m".to_string(),
    }
}

fn uv() -> CommandEntry {
    command(
        "uv",
        "An extremely fast Python package manager.",
        vec![
            command("run", "Run a command or script", Vec::new()),
            command(
                "pip",
                "Manage Python packages",
                vec![
                    command("compile", "Compile requirements", Vec::new()),
                    hidden("internal"),
                    command("sync", "Sync an environment", Vec::new()),
                ],
            ),
            hidden("generate-shell-completion-for-all-shells"),
            CommandEntry {
                aliases: vec!["h".to_string()],
                ..command("help", "Display documentation for a command", Vec::new())
            },
        ],
    )
}

fn chars(text: &str) -> Vec<char> {
    text.chars().collect()
}

#[test]
fn width_is_that_of_the_widest_visible_name() {
    let uv = uv();
    // `compile` stands one level deep: 2 + 2 + 7.
    assert_eq!(calculate_max_command_width(&uv.subcommands), 11);
    assert_eq!(calculate_max_command_width(&Vec::new()), 0);
    assert_eq!(calculate_max_command_width(&vec![hidden("long-hidden-name")]), 0);
    assert_eq!(calculate_max_command_width(&vec![command("é", "", Vec::new())]), 4);
    // The subcommands of a hidden command do not count.
    let shown = command("a-long-subcommand", "", Vec::new());
    let parent = CommandEntry { hidden: true, ..command("x", "", vec![shown]) };
    assert_eq!(calculate_max_command_width(&vec![parent]), 0);
}

#[test]
fn entry_is_indented_and_aligned() {
    let mut out = Vec::new();
    let run = command("run", "Run a command or script", Vec::new());
    write_command_entry(&mut out, &run, 0, 11, &Vec::new(), &Vec::new());
    assert_eq!(out.iter().collect::<String>(), "  run        Run a command or script\n");
    let mut out = chars("x");
    write_command_entry(&mut out, &run, 1, 11, &chars("<"), &chars(">"));
    assert_eq!(out.iter().collect::<String>(), "x    <run>      Run a command or script\n");
    // A name wider than the widest still gets two spaces.
    let mut out = Vec::new();
    write_command_entry(&mut out, &run, 0, 3, &Vec::new(), &Vec::new());
    assert_eq!(out.iter().collect::<String>(), "  run  Run a command or script\n");
}

#[test]
fn commands_are_listed_with_their_subcommands() {
    let expected = "\
Commands:
  run        Run a command or script
  pip        Manage Python packages
    compile  Compile requirements
    sync     Sync an environment
  help       Display documentation for a command

";
    assert_eq!(render_nested_commands(&uv(), false, &styles()), expected);
    let coloured = render_nested_commands(&uv(), true, &styles());
    assert!(coloured.starts_with("\x1b[1m\x1b[32mCommands:\x1b[0m\n  \x1b[1m\x1b[36mrun\x1b[0m        Run"));
    assert!(coloured.ends_with("for a command\n\n"));
    // No visible subcommand, no section.
    assert_eq!(render_nested_commands(&command("leaf", "", Vec::new()), false, &styles()), "");
    assert_eq!(render_nested_commands(&command("x", "", vec![hidden("y")]), true, &styles()), "");
}

#[test]
fn commands_section_is_replaced_up_to_the_next_heading() {
    let help = "\
Usage: uv [OPTIONS] <COMMAND>

Commands:
  run   Run a command or script
  pip   Manage Python packages

Options:
  -q  Quiet
";
    let expected = "\
Usage: uv [OPTIONS] <COMMAND>

Commands:
  run        Run a command or script
  pip        Manage Python packages
    compile  Compile requirements
    sync     Sync an environment
  help       Display documentation for a command

Options:
  -q  Quiet
";
    assert_eq!(replace_commands_section(help, &uv(), false, &styles()), expected);
}

#[test]
fn coloured_heading_is_recognised_and_section_may_end_the_page() {
    let help = "Usage\n\n\x1b[1m\x1b[32mCommands:\x1b[0m\n  run   Run\n";
    let out = replace_commands_section(help, &uv(), true, &styles());
    assert!(out.starts_with("Usage\n\n\x1b[1m\x1b[32mCommands:\x1b[0m\n  \x1b[1m\x1b[36mrun\x1b[0m"));
    assert!(out.ends_with("Display documentation for a command\n\n"));
    // Without the heading the page stays as it is.
    let plain = "Usage: uv\n\nOptions:\n  -q\n";
    assert_eq!(replace_commands_section(plain, &uv(), false, &styles()), plain);
    assert_eq!(replace_commands_section("", &uv(), false, &styles()), "");
    // The heading alone, without a line feed behind it.
    let out = replace_commands_section("Commands:", &command("x", "", Vec::new()), false, &styles());
    assert_eq!(out, "");
    // An indented heading does not count.
    let indented = "  Commands:\n  run\n";
    assert_eq!(replace_commands_section(indented, &uv(), false, &styles()), indented);
}

#[test]
fn commands_are_found_by_name_or_alias() {
    let uv = uv();
    let query = |words: &[&str]| words.iter().map(|w| w.to_string()).collect::<Vec<_>>();
    assert_eq!(find_command(&query(&[]), &uv).unwrap().name, "uv");
    assert_eq!(find_command(&query(&["pip"]), &uv).unwrap().name, "pip");
    assert_eq!(find_command(&query(&["pip", "sync"]), &uv).unwrap().name, "sync");
    assert_eq!(find_command(&query(&["h"]), &uv).unwrap().name, "help");
    // Hidden commands are found all the same.
    assert_eq!(find_command(&query(&["pip", "internal"]), &uv).unwrap().name, "internal");
    let (matched, nearest) = find_command(&query(&["pip", "nope", "sync"]), &uv).unwrap_err();
    assert_eq!((matched, nearest.name.as_str()), (1, "pip"));
    let (matched, nearest) = find_command(&query(&["nope"]), &uv).unwrap_err();
    assert_eq!((matched, nearest.name.as_str()), (0, "uv"));
    assert!(find_subcommand(&uv, "run").is_some());
    assert!(find_subcommand(&uv, "sync").is_none());
}

#[test]
fn missing_command_is_reported_with_the_alternatives() {
    let uv = uv();
    let query = vec!["foo".to_string(), "bar".to_string()];
    assert_eq!(
        missing_command_message(&query, 0, &uv),
        "There is no command `foo bar` for `uv`. Did you mean one of:\n    run\n    pip"
    );
    let query = vec!["pip".to_string(), "foo".to_string(), "bar".to_string()];
    let pip = find_subcommand(&uv, "pip").unwrap();
    assert_eq!(
        missing_command_message(&query, 1, pip),
        "There is no command `foo bar` for `uv pip`. Did you mean one of:\n    compile\n    sync"
    );
    let leaf = command("run", "", Vec::new());
    assert_eq!(
        missing_command_message(&vec!["run".to_string(), "x".to_string()], 1, &leaf),
        "There is no command `x` for `uv run`. Did you mean one of:\n    "
    );
}
