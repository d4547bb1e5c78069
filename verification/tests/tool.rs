use install_wheel::tool::{split_target, Checked, Named, Target, ToolRequest};

// Stand-ins for the checks of names, extras and versions, which are made
// elsewhere: a name is made of ASCII letters, digits, `-`, `_` and `.`, and
// starts and ends with a letter or digit; a version is made of numbers and
// dots.
fn normal_name(name: &str) -> Option<String> {
    let inner = |c: char| c.is_ascii_alphanumeric() || c == '-' || c == '_' || c == '.';
    let first = name.chars().next()?;
    let last = name.chars().last()?;
    if first.is_ascii_alphanumeric() && last.is_ascii_alphanumeric() && name.chars().all(inner) {
        Some(name.to_ascii_lowercase())
    } else {
        None
    }
}

fn normal_version(version: &str) -> Option<String> {
    let ok = !version.is_empty()
        && version.split('.').all(|part| !part.is_empty() && part.chars().all(|c| c.is_ascii_digit()));
    if ok {
        Some(version.to_string())
    } else {
        None
    }
}

fn check(named: &Named) -> Checked {
    Checked {
        package: normal_name(&named.name),
        extras: named.extras.iter().map(|extra| normal_name(extra)).collect(),
    }
}

fn parse(target: &str) -> Target {
    let parts = split_target(target);
    let pinned = parts.pinned.as_ref().map(|pinned| check(&pinned.named));
    let version = parts.pinned.as_ref().and_then(|pinned| normal_version(&pinned.version));
    let bare = parts.bare.as_ref().map(check);
    Target::parse(target, pinned.as_ref(), version.as_deref(), bare.as_ref())
}

fn extras(list: &[&str]) -> Vec<String> {
    list.iter().map(|extra| extra.to_string()).collect()
}

#[test]
fn parse_target() {
    // Bare package name.
    let target = parse("flask");
    let expected = Target::Unspecified {
        name: "flask".to_string(),
        package: "flask".to_string(),
        extras: extras(&[]),
    };
    assert_eq!(target, expected);

    // Bare package name with extras.
    let target = parse("flask[dotenv]");
    let expected = Target::Unspecified {
        name: "flask".to_string(),
        package: "flask".to_string(),
        extras: extras(&["dotenv"]),
    };
    assert_eq!(target, expected);

    // PEP 508 specifier falls back to Requirement.
    let target = parse("ruff>=0.5");
    assert_eq!(target, Target::Requirement("ruff>=0.5".to_string()));

    // URL falls back to Requirement.
    let target = parse("./local-path");
    assert_eq!(target, Target::Requirement("./local-path".to_string()));

    // Version pinned via `@`.
    let target = parse("flask@3.0.0");
    let expected = Target::Version {
        name: "flask".to_string(),
        package: "flask".to_string(),
        extras: extras(&[]),
        version: "3.0.0".to_string(),
    };
    assert_eq!(target, expected);

    // Latest via `@latest`.
    let target = parse("flask@latest");
    let expected = Target::Latest {
        name: "flask".to_string(),
        package: "flask".to_string(),
        extras: extras(&[]),
    };
    assert_eq!(target, expected);

    // Version with extras.
    let target = parse("flask[dotenv]@3.0.0");
    let expected = Target::Version {
        name: "flask".to_string(),
        package: "flask".to_string(),
        extras: extras(&["dotenv"]),
        version: "3.0.0".to_string(),
    };
    assert_eq!(target, expected);

    // Latest with extras.
    let target = parse("flask[dotenv]@latest");
    let expected = Target::Latest {
        name: "flask".to_string(),
        package: "flask".to_string(),
        extras: extras(&["dotenv"]),
    };
    assert_eq!(target, expected);

    // Missing a closing `]` falls back to Requirement.
    let target = parse("flask[dotenv");
    assert_eq!(target, Target::Requirement("flask[dotenv".to_string()));

    // Too many `]` falls back to Requirement.
    let target = parse("flask[dotenv]]");
    assert_eq!(target, Target::Requirement("flask[dotenv]]".to_string()));
}

#[test]
fn target_into_latest() {
    // Simple package name is converted.
    let target = parse("ruff").into_latest();
    assert_eq!(
        target,
        Target::Latest { name: "ruff".to_string(), package: "ruff".to_string(), extras: extras(&[]) }
    );

    // Package with extras is converted.
    let target = parse("flask[dotenv]").into_latest();
    assert!(matches!(&target, Target::Latest { name, .. } if name == "flask"));

    // Already-latest is unchanged.
    let target = parse("ruff@latest").into_latest();
    assert!(matches!(&target, Target::Latest { name, .. } if name == "ruff"));

    // Version-pinned is unchanged.
    let target = parse("ruff@0.6.0").into_latest();
    assert!(matches!(target, Target::Version { .. }));

    // Raw requirement strings are unchanged.
    let target = parse("ruff>=0.5").into_latest();
    assert!(matches!(target, Target::Requirement(_)));
}

#[test]
fn targets_are_taken_apart_at_the_first_at_sign_and_bracket() {
    let parts = split_target("Flask[ dotenv , async ,,]@3.0");
    let pinned = parts.pinned.unwrap();
    assert_eq!(pinned.named.name, "Flask");
    assert_eq!(pinned.named.extras, extras(&["dotenv", "async"]));
    assert_eq!(pinned.version, "3.0");
    // As a bare name the text behind `[` does not end with `]`.
    assert!(parts.bare.is_none());

    let parts = split_target("a@b@c");
    let pinned = parts.pinned.unwrap();
    assert_eq!((pinned.named.name.as_str(), pinned.version.as_str()), ("a", "b@c"));
    assert_eq!(parts.bare.unwrap().name, "a@b@c");

    // An empty version is none.
    let parts = split_target("ruff@");
    assert!(parts.pinned.is_none());
    assert_eq!(parts.bare.unwrap().name, "ruff@");
    // Empty brackets hold no extras.
    let parts = split_target("ruff[]");
    let bare = parts.bare.unwrap();
    assert_eq!((bare.name.as_str(), bare.extras.len()), ("ruff", 0));
    let parts = split_target("ruff[");
    assert!(parts.bare.is_none());
    let parts = split_target("");
    assert!(parts.pinned.is_none());
    assert_eq!(parts.bare.unwrap().name, "");
    let parts = split_target("@1");
    assert_eq!(parts.pinned.unwrap().named.name, "");
}

#[test]
fn ill_formed_parts_fall_back() {
    // The name before `@` is no name: the whole is read as a bare name,
    // which it is none either.
    assert_eq!(
        parse("git+https://github.com/astral-sh/ruff.git@main"),
        Target::Requirement("git+https://github.com/astral-sh/ruff.git@main".to_string())
    );
    // The version is none.
    assert_eq!(parse("ruff@invalid"), Target::Requirement("ruff@invalid".to_string()));
    assert_eq!(parse("ruff@"), Target::Requirement("ruff@".to_string()));
    // An extra is none.
    assert_eq!(parse("ruff[1.0.0!]"), Target::Requirement("ruff[1.0.0!]".to_string()));
    assert_eq!(parse("ruff[a!]@latest"), Target::Requirement("ruff[a!]@latest".to_string()));
    // The name is kept as written, the package in its normal form.
    assert_eq!(
        parse("Flask@latest"),
        Target::Latest { name: "Flask".to_string(), package: "flask".to_string(), extras: extras(&[]) }
    );
    assert_eq!(Target::parse_bare("ruff", None), Target::Requirement("ruff".to_string()));
}

#[test]
fn requests_know_what_is_read_and_whether_it_is_the_latest() {
    assert_eq!(ToolRequest::component("ruff", None), ("ruff", None));
    assert_eq!(ToolRequest::component("bash", Some("ruff")), ("ruff", Some("bash")));
    let python = ToolRequest::parse(None, Some("python3.12".to_string()), parse("python3.12"));
    assert!(matches!(&python, ToolRequest::Python { request, .. } if request == "python3.12"));
    assert!(!python.is_latest());
    assert!(matches!(python.into_latest(), ToolRequest::Python { .. }));
    let package = ToolRequest::parse(Some("bash".to_string()), None, parse("ruff"));
    assert!(!package.is_latest());
    let latest = package.into_latest();
    assert!(latest.is_latest());
    assert!(matches!(&latest, ToolRequest::Package { executable: Some(exe), .. } if exe == "bash"));
    let pinned = ToolRequest::parse(None, None, parse("ruff@0.6.0")).into_latest();
    assert!(!pinned.is_latest());
}
