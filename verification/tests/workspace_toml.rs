use install_wheel::name_table::NameMap;
use install_wheel::workspace_toml::{
    extract_workspace_dependencies, is_tool_uv_key, needs_write, pep508, some_dependencies,
    sync_to_pyproject, UV_WORKSPACE_TOML,
};
use toml_edit::{DocumentMut, Item};

fn deps(list: &[(&str, &str)]) -> NameMap<String> {
    let mut map = NameMap::new();
    for (name, spec) in list {
        map.push(name, spec.to_string());
    }
    map
}

#[test]
fn test_sync_to_pyproject_basic() {
    let uv_workspace = r#"
[project]
name = "my-project"
version = "0.1.0"
requires-python = ">=3.12"
dependencies = ["anyio>=3.7.0"]

[sources]
anyio = { git = "https://github.com/agronholm/anyio", tag = "3.7.0" }
"#;

    let result = sync_to_pyproject(uv_workspace, None).unwrap();
    let doc: DocumentMut = result.parse().unwrap();

    // project should be at top level
    assert!(doc.get("project").is_some());

    // sources should be under tool.uv
    let tool_uv = doc
        .get("tool")
        .and_then(|t| t.as_table())
        .and_then(|t| t.get("uv"))
        .and_then(|t| t.as_table());
    assert!(tool_uv.is_some());
    assert!(tool_uv.unwrap().get("sources").is_some());

    // sources should NOT be at top level
    assert!(doc.get("sources").is_none());
}

#[test]
fn test_sync_to_pyproject_no_uv_keys() {
    let uv_workspace = r#"
[project]
name = "my-project"
version = "0.1.0"
dependencies = []
"#;

    let result = sync_to_pyproject(uv_workspace, None).unwrap();
    let doc: DocumentMut = result.parse().unwrap();

    assert!(doc.get("project").is_some());
    assert!(doc.get("tool").is_none());
}

#[test]
fn test_sync_to_pyproject_workspace_and_index() {
    let uv_workspace = r#"
[project]
name = "my-project"
version = "0.1.0"
dependencies = []

[workspace]
members = ["packages/*"]

[[index]]
name = "pytorch"
url = "https://download.pytorch.org/whl/cu121"
"#;

    let result = sync_to_pyproject(uv_workspace, None).unwrap();
    let doc: DocumentMut = result.parse().unwrap();

    let tool_uv = doc
        .get("tool")
        .and_then(|t| t.as_table())
        .and_then(|t| t.get("uv"))
        .and_then(|t| t.as_table())
        .unwrap();

    assert!(tool_uv.get("workspace").is_some());
    assert!(tool_uv.get("index").is_some());
}

#[test]
fn test_extract_workspace_dependencies() {
    let content = r#"
[workspace]
members = ["packages/*"]
dependencies = { requests = ">=2.28", flask = ">=2.0,<3" }
"#;
    let deps = extract_workspace_dependencies(content).unwrap();
    assert_eq!(deps.value(deps.position("requests").unwrap()), ">=2.28");
    assert_eq!(deps.value(deps.position("flask").unwrap()), ">=2.0,<3");
}

#[test]
fn test_sync_resolves_workspace_deps() {
    let member_content = r#"
[project]
name = "my-package"
version = "0.1.0"
dependencies = [
    "local>=1.0",
    { workspace = "requests" },
    { workspace = "flask" },
]
"#;
    let mut ws_deps = NameMap::new();
    ws_deps.push("requests", ">=2.28".to_string());
    ws_deps.push("flask", ">=2.0,<3".to_string());

    let result = sync_to_pyproject(member_content, Some(&ws_deps)).unwrap();
    assert!(result.contains("\"requests>=2.28\""));
    assert!(result.contains("\"flask>=2.0,<3\""));
    assert!(result.contains("\"local>=1.0\""));
}

#[test]
fn test_sync_strips_workspace_dependencies_from_output() {
    let root_content = r#"
[workspace]
members = ["packages/*"]
dependencies = { requests = ">=2.28" }
"#;
    let result = sync_to_pyproject(root_content, None).unwrap();
    let doc: DocumentMut = result.parse().unwrap();

    // workspace.dependencies should not appear in synced pyproject.toml
    let tool_uv = doc
        .get("tool")
        .and_then(|t| t.as_table())
        .and_then(|t| t.get("uv"))
        .and_then(|t| t.as_table());

    // The workspace table should still exist (for members), but without dependencies
    if let Some(uv) = tool_uv {
        if let Some(ws) = uv.get("workspace").and_then(Item::as_table) {
            assert!(ws.get("dependencies").is_none());
        }
    }
}

#[test]
fn synced_text_is_exact() {
    let content = "[project]\nname = \"p\"\n\n[sources]\na = { path = \"../a\" }\n";
    let result = sync_to_pyproject(content, None).unwrap();
    assert_eq!(
        result,
        "[project]\nname = \"p\"\n\n[tool]\n\n[tool.uv]\n\n[tool.uv.sources]\na = { path = \"../a\" }\n"
    );
    // Without settings the page comes back as it was.
    let plain = "[project]\nname = \"p\"\n";
    assert_eq!(sync_to_pyproject(plain, None).unwrap(), plain);
    assert_eq!(sync_to_pyproject("", None).unwrap(), "");
}

#[test]
fn workspace_with_dependencies_alone_is_left_out() {
    let content = "[project]\nname = \"p\"\n\n[workspace]\ndependencies = { requests = \">=2\" }\n";
    let result = sync_to_pyproject(content, None).unwrap();
    let doc: DocumentMut = result.parse().unwrap();
    assert!(doc.get("tool").is_none());
    assert!(doc.get("workspace").is_none());
    assert!(doc.get("project").is_some());
}

#[test]
fn existing_tool_table_keeps_its_entries() {
    let content = "managed = true\n\n[tool.ruff]\nline-length = 100\n";
    let result = sync_to_pyproject(content, None).unwrap();
    let doc: DocumentMut = result.parse().unwrap();
    let tool = doc.get("tool").and_then(Item::as_table).unwrap();
    assert!(tool.get("ruff").is_some());
    assert_eq!(
        tool.get("uv").and_then(Item::as_table).and_then(|uv| uv.get("managed")).and_then(Item::as_bool),
        Some(true)
    );
    assert!(doc.get("managed").is_none());
    // A `tool` that is no table is left as it is, and the settings are lost.
    let odd = sync_to_pyproject("tool = 1\nmanaged = true\n", None).unwrap();
    let doc: DocumentMut = odd.parse().unwrap();
    assert_eq!(doc.get("tool").and_then(Item::as_integer), Some(1));
    assert!(doc.get("managed").is_none());
}

#[test]
fn references_are_resolved_in_every_list_of_dependencies() {
    let content = r#"
[project]
name = "p"
dependencies = [{ workspace = "a" }, "b>=1", { workspace = "missing" }, { path = "x" }, { workspace = 1 }]

[project.optional-dependencies]
extra = [{ workspace = "a" }]
other = "not a list"

[dependency-groups]
dev = [{ workspace = "empty" }, { include-group = "x" }]

[build-system]
requires = [{ workspace = "a" }]
"#;
    let ws = deps(&[("a", ">=2,<3"), ("empty", "")]);
    let result = sync_to_pyproject(content, Some(&ws)).unwrap();
    let doc: DocumentMut = result.parse().unwrap();
    let project = doc.get("project").and_then(Item::as_table).unwrap();
    let listed = project.get("dependencies").and_then(Item::as_array).unwrap();
    assert_eq!(listed.len(), 5);
    assert_eq!(listed.get(0).and_then(|v| v.as_str()), Some("a>=2,<3"));
    assert_eq!(listed.get(1).and_then(|v| v.as_str()), Some("b>=1"));
    assert_eq!(listed.get(2).and_then(|v| v.as_str()), Some("missing"));
    assert!(listed.get(3).unwrap().is_inline_table());
    assert!(listed.get(4).unwrap().is_inline_table());
    let extra = project
        .get("optional-dependencies")
        .and_then(Item::as_table)
        .and_then(|t| t.get("extra"))
        .and_then(Item::as_array)
        .unwrap();
    assert_eq!(extra.get(0).and_then(|v| v.as_str()), Some("a>=2,<3"));
    let dev = doc
        .get("dependency-groups")
        .and_then(Item::as_table)
        .and_then(|t| t.get("dev"))
        .and_then(Item::as_array)
        .unwrap();
    assert_eq!(dev.get(0).and_then(|v| v.as_str()), Some("empty"));
    assert!(dev.get(1).unwrap().is_inline_table());
    // Other lists are left alone.
    let requires = doc
        .get("build-system")
        .and_then(Item::as_table)
        .and_then(|t| t.get("requires"))
        .and_then(Item::as_array)
        .unwrap();
    assert!(requires.get(0).unwrap().is_inline_table());
    // Without constraints nothing is resolved.
    let untouched = sync_to_pyproject(content, None).unwrap();
    assert!(untouched.contains("{ workspace = \"a\" }"));
}

#[test]
fn content_that_is_no_toml_is_refused() {
    assert!(sync_to_pyproject("[project\nname = ", None).is_err());
    assert!(sync_to_pyproject("a = 1\na = 2\n", None).is_err());
    assert!(extract_workspace_dependencies("= 3").is_err());
}

#[test]
fn workspace_dependencies_come_from_tables_of_either_kind() {
    let table = "[workspace.dependencies]\nrequests = \">=2.28\"\nflag = true\n";
    let found = extract_workspace_dependencies(table).unwrap();
    assert_eq!(found.len(), 1);
    assert_eq!(found.value(found.position("requests").unwrap()), ">=2.28");
    assert!(found.position("flag").is_none());
    assert!(some_dependencies(found).is_some());
    for content in ["", "[workspace]\nmembers = []\n", "workspace = 1\n", "[workspace]\ndependencies = 3\n"] {
        let found = extract_workspace_dependencies(content).unwrap();
        assert_eq!(found.len(), 0);
        assert!(some_dependencies(found).is_none());
    }
}

#[test]
fn tool_keys_are_the_settings_of_uv() {
    for key in [
        "sources", "index", "workspace", "managed", "package", "dev-dependencies",
        "default-groups", "override-dependencies", "constraint-dependencies", "environments",
        "conflicts", "required-version", "cache-keys", "build-backend", "pip", "exclude-newer",
        "index-strategy", "keyring-provider", "resolution", "prerelease", "fork-strategy",
        "config-settings", "no-build-isolation", "no-build-isolation-package", "no-build",
        "no-build-package", "no-binary", "no-binary-package", "compile-bytecode", "no-sources",
        "upgrade", "upgrade-package", "reinstall", "reinstall-package", "python-downloads",
        "python-preference", "python-install-mirror", "pypy-install-mirror", "link-mode",
        "git-lfs",
    ] {
        assert!(is_tool_uv_key(key), "{key}");
    }
    for key in ["project", "build-system", "dependency-groups", "tool", "", "Sources", "source", "sources "] {
        assert!(!is_tool_uv_key(key), "{key}");
    }
    assert_eq!(UV_WORKSPACE_TOML, "uv-workspace.toml");
}

#[test]
fn requirement_is_the_name_and_its_constraint() {
    let ws = deps(&[("requests", ">=2.28"), ("bare", "")]);
    assert_eq!(pep508("requests", &ws), "requests>=2.28");
    assert_eq!(pep508("bare", &ws), "bare");
    assert_eq!(pep508("unknown", &ws), "unknown");
    assert!(needs_write("a = 1", "a = 2"));
    assert!(!needs_write("a = 1", "a = 1"));
}

#[test]
fn settings_keep_what_they_hold_under_tool_uv() {
    let content = r#"
constraint-dependencies = ["a>1", { workspace = "b" }]

[workspace]
members = ["packages/*"]
dependencies = { requests = ">=2" }

[workspace.metadata]
owners = ["x"]

[project]
name = "p"
"#;
    let ws = deps(&[("b", ">=2")]);
    let result = sync_to_pyproject(content, Some(&ws)).unwrap();
    let doc: DocumentMut = result.parse().unwrap();
    let uv = doc
        .get("tool")
        .and_then(Item::as_table)
        .and_then(|tool| tool.get("uv"))
        .and_then(Item::as_table)
        .unwrap();
    // A list that is no list of dependencies of the project is moved as it
    // is: its reference stays a reference.
    let listed = uv.get("constraint-dependencies").and_then(Item::as_array).unwrap();
    assert_eq!(listed.get(0).and_then(|v| v.as_str()), Some("a>1"));
    assert!(listed.get(1).unwrap().is_inline_table());
    let workspace = uv.get("workspace").and_then(Item::as_table).unwrap();
    assert!(workspace.get("dependencies").is_none());
    let members = workspace.get("members").and_then(Item::as_array).unwrap();
    assert_eq!(members.get(0).and_then(|v| v.as_str()), Some("packages/*"));
    let owners = workspace
        .get("metadata")
        .and_then(Item::as_table)
        .and_then(|t| t.get("owners"))
        .and_then(Item::as_array)
        .unwrap();
    assert_eq!(owners.get(0).and_then(|v| v.as_str()), Some("x"));
    assert!(doc.get("workspace").is_none());
    assert!(doc.get("constraint-dependencies").is_none());
    assert!(doc.get("project").is_some());
}
