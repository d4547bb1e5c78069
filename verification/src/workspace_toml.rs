//! The project file `uv-workspace.toml`, in which the settings that
//! `pyproject.toml` keeps under `[tool.uv]` stand at the top level.
//!
//! Where such a file stands beside a `pyproject.toml`, it is read in its
//! place, and its content is written to the `pyproject.toml` in that file's
//! own layout. The root of a workspace may give shared constraints under
//! `[workspace.dependencies]`; a member refers to one as
//! `{ workspace = "pkg" }` in a list of dependencies, which becomes
//! `"pkg<constraint>"` in the `pyproject.toml`.

use vstd::prelude::*;
use vstd::string::StringExecFns;
use toml_edit::{Item, TomlError};
use crate::name_table::NameMap;
use crate::text::{chars_of, same_chars, same_text, texts};
use crate::toml_items::{
    array_len, array_size, child_is_table, child_keys, entries_under, here, is_nothing,
    is_table_item, is_toml, item_child, item_insert, item_is_table, item_keys, item_remove,
    keys_of, keys_under, like_keys, lists, new_root, new_table, no_entries, none, parse_toml,
    parsed_as, render, rendered, replace_with_text, string_at, string_under, text_under, under,
    inline_string, entries_in,
};

verus! {

/// The filename for the uv workspace configuration.
pub const UV_WORKSPACE_TOML: &'static str = "uv-workspace.toml";

/// Whether `key` is one of the keys that live under `[tool.uv]` in
/// `pyproject.toml` but at the top level of `uv-workspace.toml`.
pub open spec fn is_tool_key(key: Seq<char>) -> bool {
    ||| key == "sources"@
    ||| key == "index"@
    ||| key == "workspace"@
    ||| key == "managed"@
    ||| key == "package"@
    ||| key == "dev-dependencies"@
    ||| key == "default-groups"@
    ||| key == "override-dependencies"@
    ||| key == "constraint-dependencies"@
    ||| key == "environments"@
    ||| key == "conflicts"@
    ||| key == "required-version"@
    ||| key == "cache-keys"@
    ||| key == "build-backend"@
    ||| key == "pip"@
    ||| key == "exclude-newer"@
    ||| key == "index-strategy"@
    ||| key == "keyring-provider"@
    ||| key == "resolution"@
    ||| key == "prerelease"@
    ||| key == "fork-strategy"@
    ||| key == "config-settings"@
    ||| key == "no-build-isolation"@
    ||| key == "no-build-isolation-package"@
    ||| key == "no-build"@
    ||| key == "no-build-package"@
    ||| key == "no-binary"@
    ||| key == "no-binary-package"@
    ||| key == "compile-bytecode"@
    ||| key == "no-sources"@
    ||| key == "upgrade"@
    ||| key == "upgrade-package"@
    ||| key == "reinstall"@
    ||| key == "reinstall-package"@
    ||| key == "python-downloads"@
    ||| key == "python-preference"@
    ||| key == "python-install-mirror"@
    ||| key == "pypy-install-mirror"@
    ||| key == "link-mode"@
    ||| key == "git-lfs"@
}

fn is_text(chars: &Vec<char>, word: &str) -> (res: bool)
    ensures
        res == (chars@ == word@),
{
    let w = chars_of(word);
    same_chars(chars, &w)
}

/// Returns `true` if the given key is a `[tool.uv]` key that should be at
/// the top level in `uv-workspace.toml`.
pub fn is_tool_uv_key(key: &str) -> (res: bool)
    ensures
        res == is_tool_key(key@),
{
    let chars = chars_of(key);
    is_text(&chars, "sources")
        || is_text(&chars, "index")
        || is_text(&chars, "workspace")
        || is_text(&chars, "managed")
        || is_text(&chars, "package")
        || is_text(&chars, "dev-dependencies")
        || is_text(&chars, "default-groups")
        || is_text(&chars, "override-dependencies")
        || is_text(&chars, "constraint-dependencies")
        || is_text(&chars, "environments")
        || is_text(&chars, "conflicts")
        || is_text(&chars, "required-version")
        || is_text(&chars, "cache-keys")
        || is_text(&chars, "build-backend")
        || is_text(&chars, "pip")
        || is_text(&chars, "exclude-newer")
        || is_text(&chars, "index-strategy")
        || is_text(&chars, "keyring-provider")
        || is_text(&chars, "resolution")
        || is_text(&chars, "prerelease")
        || is_text(&chars, "fork-strategy")
        || is_text(&chars, "config-settings")
        || is_text(&chars, "no-build-isolation")
        || is_text(&chars, "no-build-isolation-package")
        || is_text(&chars, "no-build")
        || is_text(&chars, "no-build-package")
        || is_text(&chars, "no-binary")
        || is_text(&chars, "no-binary-package")
        || is_text(&chars, "compile-bytecode")
        || is_text(&chars, "no-sources")
        || is_text(&chars, "upgrade")
        || is_text(&chars, "upgrade-package")
        || is_text(&chars, "reinstall")
        || is_text(&chars, "reinstall-package")
        || is_text(&chars, "python-downloads")
        || is_text(&chars, "python-preference")
        || is_text(&chars, "python-install-mirror")
        || is_text(&chars, "pypy-install-mirror")
        || is_text(&chars, "link-mode")
        || is_text(&chars, "git-lfs")
}

/// Whether the `workspace` table of a `uv-workspace.toml` goes into the
/// `pyproject.toml`: its `dependencies` are for the members' references
/// alone and are left out, and a table that holds nothing else is left out
/// as a whole. An item that is no table goes in as it is.
pub open spec fn keeps_workspace(uv: Item) -> bool {
    !child_is_table(uv, "workspace"@) || child_keys(uv, "workspace"@).remove("dependencies"@)
        != Set::<Seq<char>>::empty()
}

/// Whether the entry under `key` goes under `[tool.uv]`.
pub open spec fn goes_under_tool(uv: Item, key: Seq<char>) -> bool {
    keys_of(uv).contains(key) && is_tool_key(key) && (key != "workspace"@ || keeps_workspace(uv))
}

/// Whether the entry under `key` stays at the top level.
pub open spec fn stays_on_top(uv: Item, key: Seq<char>) -> bool {
    keys_of(uv).contains(key) && !is_tool_key(key)
}

/// Whether `path` leads into the `dependencies` of the `workspace` table,
/// which are left out of the `pyproject.toml`.
pub open spec fn is_left_out(uv: Item, path: Seq<Seq<char>>) -> bool {
    path.len() >= 2 && path[0] == "workspace"@ && path[1] == "dependencies"@ && child_is_table(
        uv,
        "workspace"@,
    )
}

/// Whether what stands at `path` of a `uv-workspace.toml` is moved under
/// `[tool.uv]`: the path starts with an entry that goes there, and does not
/// lead into what is left out.
pub open spec fn is_moved(uv: Item, path: Seq<Seq<char>>) -> bool {
    path.len() > 0 && goes_under_tool(uv, path[0]) && !is_left_out(uv, path)
}

/// The string that element `i` of the array at `path` is, among what is
/// moved under `[tool.uv]`.
pub open spec fn moved_text(uv: Item, path: Seq<Seq<char>>, i: int) -> Option<Seq<char>> {
    if is_moved(uv, path) {
        text_under(uv, path, i)
    } else {
        None
    }
}

/// The string under `key` in element `i` of the array at `path`, among what
/// is moved under `[tool.uv]`.
pub open spec fn moved_string(uv: Item, path: Seq<Seq<char>>, i: int, key: Seq<char>) -> Option<
    Seq<char>,
> {
    if is_moved(uv, path) {
        string_under(uv, path, i, key)
    } else {
        None
    }
}

/// The keys of the table at `path`, which names at least one key, among
/// what is moved under `[tool.uv]`: the `workspace` table goes without its
/// `dependencies`.
pub open spec fn moved_keys(uv: Item, path: Seq<Seq<char>>) -> Set<Seq<char>> {
    if !is_moved(uv, path) {
        none()
    } else if path.len() == 1 && path[0] == "workspace"@ && child_is_table(uv, "workspace"@) {
        keys_under(uv, path).remove("dependencies"@)
    } else {
        keys_under(uv, path)
    }
}

/// A path that starts with a key has the key at its start and the rest
/// behind it.
pub proof fn under_in_parts(key: Seq<char>, rest: Seq<Seq<char>>)
    ensures
        under(key, rest).len() == rest.len() + 1,
        under(key, rest)[0] == key,
        under(key, rest).drop_first() == rest,
        rest.len() > 0 ==> under(key, rest)[1] == rest[0],
{
    assert(under(key, rest).drop_first() =~= rest);
}

/// What of the setting under `key` goes under `[tool.uv]`: the item as it
/// is, but the `workspace` table without its `dependencies`, and not at all
/// where it holds nothing else.
fn moved_part(uv: &Item, key: &str) -> (kept: Option<Item>)
    requires
        is_table_item(*uv),
        keys_of(*uv).contains(key@),
        is_tool_key(key@),
    ensures
        kept is Some == goes_under_tool(*uv, key@),
        kept matches Some(part) ==> !is_nothing(part),
        kept matches Some(part) ==> is_table_item(part) == child_is_table(*uv, key@),
        kept matches Some(part) ==> key@ == "workspace"@ && child_is_table(*uv, key@) ==> keys_of(
            part,
        ) == child_keys(*uv, key@).remove("dependencies"@),
        kept matches Some(part) ==> forall|rest: Seq<Seq<char>>, i: int| #[trigger]
            text_under(part, rest, i) == moved_text(*uv, under(key@, rest), i),
        kept matches Some(part) ==> forall|rest: Seq<Seq<char>>, i: int, inner: Seq<char>|
            #[trigger] string_under(part, rest, i, inner) == moved_string(
                *uv,
                under(key@, rest),
                i,
                inner,
            ),
        kept matches Some(part) ==> forall|rest: Seq<Seq<char>>| #[trigger]
            keys_under(part, rest) == moved_keys(*uv, under(key@, rest)),
{
    proof {
        reveal_strlit("workspace");
        reveal_strlit("dependencies");
    }
    let item = match item_child(uv, key) {
        Some(item) => item,
        None => {
            return None;
        },
    };
    let ghost found = item;
    if same_text(key, "workspace") && item_is_table(&item) {
        let mut filtered = item;
        item_remove(&mut filtered, "dependencies");
        let left = match item_keys(&filtered) {
            Some(left) => left,
            None => Vec::new(),
        };
        if left.len() == 0 {
            assert(keys_of(filtered) =~= Set::<Seq<char>>::empty());
            return None;
        }
        assert(keys_of(filtered).contains(texts(left@)[0]));
        proof {
            assert forall|rest: Seq<Seq<char>>, i: int| #[trigger]
                text_under(filtered, rest, i) == moved_text(*uv, under(key@, rest), i) by {
                under_in_parts(key@, rest);
                assert(text_under(found, rest, i) == text_under(*uv, under(key@, rest), i));
            }
            assert forall|rest: Seq<Seq<char>>, i: int, inner: Seq<char>| #[trigger]
                string_under(filtered, rest, i, inner) == moved_string(
                    *uv,
                    under(key@, rest),
                    i,
                    inner,
                ) by {
                under_in_parts(key@, rest);
                assert(string_under(found, rest, i, inner) == string_under(
                    *uv,
                    under(key@, rest),
                    i,
                    inner,
                ));
            }
            assert forall|rest: Seq<Seq<char>>| #[trigger]
                keys_under(filtered, rest) == moved_keys(*uv, under(key@, rest)) by {
                under_in_parts(key@, rest);
                assert(keys_under(found, rest) == keys_under(*uv, under(key@, rest)));
                if rest.len() == 0 {
                    assert(rest =~= here());
                }
            }
        }
        Some(filtered)
    } else {
        proof {
            assert forall|rest: Seq<Seq<char>>, i: int| #[trigger]
                text_under(item, rest, i) == moved_text(*uv, under(key@, rest), i) by {
                under_in_parts(key@, rest);
                assert(text_under(found, rest, i) == text_under(*uv, under(key@, rest), i));
            }
            assert forall|rest: Seq<Seq<char>>, i: int, inner: Seq<char>| #[trigger]
                string_under(item, rest, i, inner) == moved_string(
                    *uv,
                    under(key@, rest),
                    i,
                    inner,
                ) by {
                under_in_parts(key@, rest);
                assert(string_under(found, rest, i, inner) == string_under(
                    *uv,
                    under(key@, rest),
                    i,
                    inner,
                ));
            }
            assert forall|rest: Seq<Seq<char>>| #[trigger]
                keys_under(item, rest) == moved_keys(*uv, under(key@, rest)) by {
                under_in_parts(key@, rest);
                assert(keys_under(found, rest) == keys_under(*uv, under(key@, rest)));
            }
        }
        Some(item)
    }
}

/// What a `uv-workspace.toml` in parts: the top level of the
/// `pyproject.toml` and its `[tool.uv]` table.
pub struct Parts {
    /// The root table, without `[tool.uv]`.
    pub top: Item,
    /// The table that goes under `[tool.uv]`.
    pub tool_uv: Item,
}

/// Sorts the entries at the top level of a `uv-workspace.toml` into those
/// that stay at the top level of the `pyproject.toml` and those that go
/// under `[tool.uv]`.
pub fn split_keys(uv: &Item) -> (parts: Parts)
    requires
        is_table_item(*uv),
    ensures
        is_table_item(parts.top),
        is_table_item(parts.tool_uv),
        !is_nothing(parts.top),
        !is_nothing(parts.tool_uv),
        forall|key: Seq<char>| #[trigger]
            keys_of(parts.top).contains(key) <==> stays_on_top(*uv, key),
        forall|key: Seq<char>| #[trigger]
            keys_of(parts.tool_uv).contains(key) <==> goes_under_tool(*uv, key),
        forall|key: Seq<char>| #[trigger]
            stays_on_top(*uv, key) ==> child_is_table(parts.top, key) == child_is_table(*uv, key)
                && (child_is_table(*uv, key) ==> child_keys(parts.top, key) == child_keys(
                *uv,
                key,
            )),
        goes_under_tool(*uv, "workspace"@) && child_is_table(*uv, "workspace"@) ==> child_keys(
            parts.tool_uv,
            "workspace"@,
        ) == child_keys(*uv, "workspace"@).remove("dependencies"@),
        forall|path: Seq<Seq<char>>, i: int| #[trigger]
            text_under(parts.top, path, i) == (if path.len() > 0 && stays_on_top(*uv, path[0]) {
                text_under(*uv, path, i)
            } else {
                None
            }),
        forall|path: Seq<Seq<char>>, i: int| #[trigger]
            ref_under(parts.top, path, i) == (if path.len() > 0 && stays_on_top(*uv, path[0]) {
                ref_under(*uv, path, i)
            } else {
                None
            }),
        forall|path: Seq<Seq<char>>, i: int| #[trigger]
            text_under(parts.tool_uv, path, i) == moved_text(*uv, path, i),
        forall|path: Seq<Seq<char>>, i: int, inner: Seq<char>| #[trigger]
            string_under(parts.tool_uv, path, i, inner) == moved_string(*uv, path, i, inner),
        forall|path: Seq<Seq<char>>|
            path.len() > 0 ==> #[trigger] keys_under(parts.tool_uv, path) == moved_keys(
                *uv,
                path,
            ),
        keys_under(parts.tool_uv, here()) == keys_of(parts.tool_uv),
{
    let mut top = new_root();
    let mut tool_uv = new_table();
    let keys = match item_keys(uv) {
        Some(keys) => keys,
        None => Vec::new(),
    };
    proof {
        reveal_strlit("workspace");
        reveal_strlit("dependencies");
    }
    let ghost all = texts(keys@);
    let mut i: usize = 0;
    while i < keys.len()
        invariant
            i <= keys.len(),
            all == texts(keys@),
            lists(all, keys_of(*uv)),
            is_table_item(*uv),
            is_table_item(top),
            is_table_item(tool_uv),
            !is_nothing(top),
            !is_nothing(tool_uv),
            forall|key: Seq<char>| #[trigger]
                keys_of(top).contains(key) <==> all.take(i as int).contains(key) && stays_on_top(
                    *uv,
                    key,
                ),
            forall|key: Seq<char>| #[trigger]
                keys_of(tool_uv).contains(key) <==> all.take(i as int).contains(key)
                    && goes_under_tool(*uv, key),
            forall|key: Seq<char>| #[trigger]
                keys_of(top).contains(key) ==> child_is_table(top, key) == child_is_table(
                    *uv,
                    key,
                ) && (child_is_table(*uv, key) ==> child_keys(top, key) == child_keys(*uv, key)),
            keys_of(tool_uv).contains("workspace"@) && child_is_table(*uv, "workspace"@)
                ==> child_keys(tool_uv, "workspace"@) == child_keys(*uv, "workspace"@).remove(
                "dependencies"@,
            ),
            forall|path: Seq<Seq<char>>, k: int| #[trigger]
                text_under(top, path, k) == (if path.len() > 0 && all.take(i as int).contains(
                    path[0],
                ) && stays_on_top(*uv, path[0]) {
                    text_under(*uv, path, k)
                } else {
                    None
                }),
            forall|path: Seq<Seq<char>>, k: int| #[trigger]
                ref_under(top, path, k) == (if path.len() > 0 && all.take(i as int).contains(
                    path[0],
                ) && stays_on_top(*uv, path[0]) {
                    ref_under(*uv, path, k)
                } else {
                    None
                }),
            forall|path: Seq<Seq<char>>, k: int| #[trigger]
                text_under(tool_uv, path, k) == (if path.len() > 0 && all.take(i as int).contains(
                    path[0],
                ) {
                    moved_text(*uv, path, k)
                } else {
                    None
                }),
            forall|path: Seq<Seq<char>>, k: int, inner: Seq<char>| #[trigger]
                string_under(tool_uv, path, k, inner) == (if path.len() > 0 && all.take(
                    i as int,
                ).contains(path[0]) {
                    moved_string(*uv, path, k, inner)
                } else {
                    None
                }),
            forall|path: Seq<Seq<char>>|
                path.len() > 0 ==> #[trigger] keys_under(tool_uv, path) == (if all.take(
                    i as int,
                ).contains(path[0]) {
                    moved_keys(*uv, path)
                } else {
                    none()
                }),
            keys_under(tool_uv, here()) == keys_of(tool_uv),
        decreases keys.len() - i,
    {
        let key = keys[i].as_str();
        let ghost upto = all.take(i as int);
        let ghost held = top;
        assert(all[i as int] == key@);
        assert(keys_of(*uv).contains(key@));
        assert(all.take(i + 1) =~= upto.push(key@));
        assert(!upto.contains(key@)) by {
            if upto.contains(key@) {
                let k = choose|k: int| 0 <= k < upto.len() && upto[k] == key@;
                assert(all[k] == all[i as int]);
            }
        }
        let ghost held_tool = tool_uv;
        if is_tool_uv_key(key) {
            match moved_part(uv, key) {
                Some(part) => {
                    item_insert(&mut tool_uv, key, part);
                },
                None => {},
            }
        } else {
            match item_child(uv, key) {
                Some(item) => {
                    item_insert(&mut top, key, item);
                },
                None => {},
            }
        }
        proof {
            assert forall|path: Seq<Seq<char>>, k: int| #[trigger]
                text_under(tool_uv, path, k) == (if path.len() > 0 && all.take(i + 1).contains(
                    path[0],
                ) {
                    moved_text(*uv, path, k)
                } else {
                    None
                }) by {
                assert(text_under(held_tool, path, k) == (if path.len() > 0 && upto.contains(
                    path[0],
                ) {
                    moved_text(*uv, path, k)
                } else {
                    None
                }));
                if path.len() > 0 {
                    if upto.contains(path[0]) {
                        let j = choose|j: int| 0 <= j < upto.len() && upto[j] == path[0];
                        assert(upto.push(key@)[j] == path[0]);
                    }
                    if path[0] == key@ {
                        assert(upto.push(key@)[i as int] == path[0]);
                        assert(path =~= under(key@, path.drop_first()));
                    }
                    if upto.push(key@).contains(path[0]) && path[0] != key@ {
                        let j = choose|j: int|
                            0 <= j < upto.push(key@).len() && upto.push(key@)[j] == path[0];
                        assert(upto[j] == path[0]);
                    }
                }
            }
            assert forall|path: Seq<Seq<char>>, k: int, inner: Seq<char>| #[trigger]
                string_under(tool_uv, path, k, inner) == (if path.len() > 0 && all.take(
                    i + 1,
                ).contains(path[0]) {
                    moved_string(*uv, path, k, inner)
                } else {
                    None
                }) by {
                assert(string_under(held_tool, path, k, inner) == (if path.len() > 0
                    && upto.contains(path[0]) {
                    moved_string(*uv, path, k, inner)
                } else {
                    None
                }));
                if path.len() > 0 {
                    if upto.contains(path[0]) {
                        let j = choose|j: int| 0 <= j < upto.len() && upto[j] == path[0];
                        assert(upto.push(key@)[j] == path[0]);
                    }
                    if path[0] == key@ {
                        assert(upto.push(key@)[i as int] == path[0]);
                        assert(path =~= under(key@, path.drop_first()));
                    }
                    if upto.push(key@).contains(path[0]) && path[0] != key@ {
                        let j = choose|j: int|
                            0 <= j < upto.push(key@).len() && upto.push(key@)[j] == path[0];
                        assert(upto[j] == path[0]);
                    }
                }
            }
            assert forall|path: Seq<Seq<char>>|
                path.len() > 0 implies #[trigger] keys_under(tool_uv, path) == (if all.take(
                i + 1,
            ).contains(path[0]) {
                moved_keys(*uv, path)
            } else {
                none()
            }) by {
                assert(keys_under(held_tool, path) == (if upto.contains(path[0]) {
                    moved_keys(*uv, path)
                } else {
                    none()
                }));
                if upto.contains(path[0]) {
                    let j = choose|j: int| 0 <= j < upto.len() && upto[j] == path[0];
                    assert(upto.push(key@)[j] == path[0]);
                }
                if path[0] == key@ {
                    assert(upto.push(key@)[i as int] == path[0]);
                    assert(path =~= under(key@, path.drop_first()));
                }
                if upto.push(key@).contains(path[0]) && path[0] != key@ {
                    let j = choose|j: int|
                        0 <= j < upto.push(key@).len() && upto.push(key@)[j] == path[0];
                    assert(upto[j] == path[0]);
                }
            }
        }
        proof {
            assert forall|k: Seq<char>| #[trigger]
                keys_of(top).contains(k) <==> all.take(i + 1).contains(k) && stays_on_top(
                    *uv,
                    k,
                ) by {
                if upto.contains(k) {
                    let j = choose|j: int| 0 <= j < upto.len() && upto[j] == k;
                    assert(upto.push(key@)[j] == k);
                }
                if k == key@ {
                    assert(upto.push(key@)[i as int] == k);
                }
                if upto.push(key@).contains(k) && k != key@ {
                    let j = choose|j: int| 0 <= j < upto.push(key@).len() && upto.push(key@)[j] == k;
                    assert(upto[j] == k);
                }
            }
            assert forall|k: Seq<char>| #[trigger]
                keys_of(tool_uv).contains(k) <==> all.take(i + 1).contains(k) && goes_under_tool(
                    *uv,
                    k,
                ) by {
                if upto.contains(k) {
                    let j = choose|j: int| 0 <= j < upto.len() && upto[j] == k;
                    assert(upto.push(key@)[j] == k);
                }
                if k == key@ {
                    assert(upto.push(key@)[i as int] == k);
                }
                if upto.push(key@).contains(k) && k != key@ {
                    let j = choose|j: int| 0 <= j < upto.push(key@).len() && upto.push(key@)[j] == k;
                    assert(upto[j] == k);
                }
            }
            assert forall|path: Seq<Seq<char>>, k: int| #[trigger]
                text_under(top, path, k) == (if path.len() > 0 && all.take(i + 1).contains(
                    path[0],
                ) && stays_on_top(*uv, path[0]) {
                    text_under(*uv, path, k)
                } else {
                    None
                }) by {
                assert(text_under(held, path, k) == (if path.len() > 0 && upto.contains(path[0])
                    && stays_on_top(*uv, path[0]) {
                    text_under(*uv, path, k)
                } else {
                    None
                }));
                if path.len() > 0 {
                    if upto.contains(path[0]) {
                        let j = choose|j: int| 0 <= j < upto.len() && upto[j] == path[0];
                        assert(upto.push(key@)[j] == path[0]);
                    }
                    if path[0] == key@ {
                        assert(upto.push(key@)[i as int] == path[0]);
                        assert(path =~= under(key@, path.drop_first()));
                    }
                    if upto.push(key@).contains(path[0]) && path[0] != key@ {
                        let j = choose|j: int|
                            0 <= j < upto.push(key@).len() && upto.push(key@)[j] == path[0];
                        assert(upto[j] == path[0]);
                    }
                }
            }
            assert forall|path: Seq<Seq<char>>, k: int| #[trigger]
                ref_under(top, path, k) == (if path.len() > 0 && all.take(i + 1).contains(
                    path[0],
                ) && stays_on_top(*uv, path[0]) {
                    ref_under(*uv, path, k)
                } else {
                    None
                }) by {
                assert(ref_under(held, path, k) == (if path.len() > 0 && upto.contains(path[0])
                    && stays_on_top(*uv, path[0]) {
                    ref_under(*uv, path, k)
                } else {
                    None
                }));
                if path.len() > 0 {
                    if upto.contains(path[0]) {
                        let j = choose|j: int| 0 <= j < upto.len() && upto[j] == path[0];
                        assert(upto.push(key@)[j] == path[0]);
                    }
                    if path[0] == key@ {
                        assert(upto.push(key@)[i as int] == path[0]);
                        assert(path =~= under(key@, path.drop_first()));
                    }
                    if upto.push(key@).contains(path[0]) && path[0] != key@ {
                        let j = choose|j: int|
                            0 <= j < upto.push(key@).len() && upto.push(key@)[j] == path[0];
                        assert(upto[j] == path[0]);
                    }
                }
            }
        }
        i += 1;
    }
    proof {
        assert(all.take(keys.len() as int) =~= all);
        assert forall|key: Seq<char>| #[trigger] stays_on_top(*uv, key) implies keys_of(
            top,
        ).contains(key) by {
            assert(all.contains(key));
        }
        assert forall|path: Seq<Seq<char>>, k: int| #[trigger]
            text_under(top, path, k) == (if path.len() > 0 && stays_on_top(*uv, path[0]) {
                text_under(*uv, path, k)
            } else {
                None
            }) by {
            if path.len() > 0 && stays_on_top(*uv, path[0]) {
                assert(all.contains(path[0]));
            }
        }
        assert forall|path: Seq<Seq<char>>, k: int| #[trigger]
            ref_under(top, path, k) == (if path.len() > 0 && stays_on_top(*uv, path[0]) {
                ref_under(*uv, path, k)
            } else {
                None
            }) by {
            if path.len() > 0 && stays_on_top(*uv, path[0]) {
                assert(all.contains(path[0]));
            }
        }
        assert forall|path: Seq<Seq<char>>, k: int| #[trigger]
            text_under(tool_uv, path, k) == moved_text(*uv, path, k) by {
            if is_moved(*uv, path) {
                assert(all.contains(path[0]));
            }
        }
        assert forall|path: Seq<Seq<char>>, k: int, inner: Seq<char>| #[trigger]
            string_under(tool_uv, path, k, inner) == moved_string(*uv, path, k, inner) by {
            if is_moved(*uv, path) {
                assert(all.contains(path[0]));
            }
        }
        assert forall|path: Seq<Seq<char>>| path.len() > 0 implies #[trigger] keys_under(
            tool_uv,
            path,
        ) == moved_keys(*uv, path) by {
            if is_moved(*uv, path) {
                assert(all.contains(path[0]));
            }
        }
    }
    Parts { top, tool_uv }
}

/// The path that leads to `tool.uv` and on by `rest`.
pub open spec fn under_tool_uv(rest: Seq<Seq<char>>) -> Seq<Seq<char>> {
    under("tool"@, under("uv"@, rest))
}

/// Whether the settings are put under `[tool.uv]` of the root `top`: there
/// are any, and the root has no `tool` or has a table there.
pub open spec fn is_attached(top: Item, has_entries: bool) -> bool {
    has_entries && (!keys_of(top).contains("tool"@) || child_is_table(top, "tool"@))
}

/// Puts the table `tool_uv` under `[tool.uv]` of the root `top`: into the
/// `tool` table that the root has, or into a new one. A `tool` that is no
/// table is left as it is. A table without entries is not put anywhere.
pub fn attach_tool_uv(top: Item, tool_uv: Item, has_entries: bool) -> (root: Item)
    requires
        is_table_item(top),
        is_table_item(tool_uv),
        !is_nothing(top),
        !is_nothing(tool_uv),
    ensures
        is_table_item(root),
        !is_nothing(root),
        keys_of(root) == (if has_entries {
            keys_of(top).insert("tool"@)
        } else {
            keys_of(top)
        }),
        has_entries && (!keys_of(top).contains("tool"@) || child_is_table(top, "tool"@))
            ==> child_is_table(root, "tool"@) && child_keys(root, "tool"@) == (if keys_of(
            top,
        ).contains("tool"@) {
            child_keys(top, "tool"@).insert("uv"@)
        } else {
            Set::<Seq<char>>::empty().insert("uv"@)
        }),
        !has_entries ==> root == top,
        forall|path: Seq<Seq<char>>, i: int|
            !(path.len() > 0 && path[0] == "tool"@) ==> #[trigger] text_under(root, path, i)
                == text_under(top, path, i),
        forall|path: Seq<Seq<char>>, i: int|
            !(path.len() > 0 && path[0] == "tool"@) ==> #[trigger] ref_under(root, path, i)
                == ref_under(top, path, i),
        is_attached(top, has_entries) ==> forall|rest: Seq<Seq<char>>| #[trigger]
            keys_under(root, under_tool_uv(rest)) == keys_under(tool_uv, rest),
        is_attached(top, has_entries) ==> forall|rest: Seq<Seq<char>>, i: int| #[trigger]
            text_under(root, under_tool_uv(rest), i) == text_under(tool_uv, rest, i),
        is_attached(top, has_entries) ==> forall|rest: Seq<Seq<char>>, i: int, inner: Seq<char>|
            #[trigger] string_under(root, under_tool_uv(rest), i, inner) == string_under(
                tool_uv,
                rest,
                i,
                inner,
            ),
{
    if !has_entries {
        return top;
    }
    let mut root = top;
    let mut tool = match item_child(&root, "tool") {
        Some(tool) => tool,
        None => new_table(),
    };
    if item_is_table(&tool) {
        item_insert(&mut tool, "uv", tool_uv);
        let ghost filled = tool;
        item_insert(&mut root, "tool", tool);
        proof {
            assert forall|rest: Seq<Seq<char>>| #[trigger]
                keys_under(root, under_tool_uv(rest)) == keys_under(tool_uv, rest) by {
                under_in_parts("tool"@, under("uv"@, rest));
                under_in_parts("uv"@, rest);
                assert(keys_under(filled, under("uv"@, rest)) == keys_under(tool_uv, rest));
            }
            assert forall|rest: Seq<Seq<char>>, i: int| #[trigger]
                text_under(root, under_tool_uv(rest), i) == text_under(tool_uv, rest, i) by {
                under_in_parts("tool"@, under("uv"@, rest));
                under_in_parts("uv"@, rest);
                assert(text_under(filled, under("uv"@, rest), i) == text_under(tool_uv, rest, i));
            }
            assert forall|rest: Seq<Seq<char>>, i: int, inner: Seq<char>| #[trigger]
                string_under(root, under_tool_uv(rest), i, inner) == string_under(
                    tool_uv,
                    rest,
                    i,
                    inner,
                ) by {
                under_in_parts("tool"@, under("uv"@, rest));
                under_in_parts("uv"@, rest);
                assert(string_under(filled, under("uv"@, rest), i, inner) == string_under(
                    tool_uv,
                    rest,
                    i,
                    inner,
                ));
            }
        }
    }
    assert(keys_of(root) =~= keys_of(top).insert("tool"@));
    root
}

/// The constraint of each package, as texts.
pub open spec fn constraints_of(deps: NameMap<String>) -> Map<Seq<char>, Seq<char>> {
    Map::new(
        |name: Seq<char>| deps.contents().contains_key(name),
        |name: Seq<char>| deps.contents()[name]@,
    )
}

/// The requirement that a reference to the workspace's `name` stands for:
/// the name followed by the constraint that the workspace gives for it, or
/// the name alone where it gives none.
pub open spec fn requirement_text(name: Seq<char>, deps: Map<Seq<char>, Seq<char>>) -> Seq<char> {
    if deps.contains_key(name) {
        name + deps[name]
    } else {
        name
    }
}

/// The requirement that a reference to the workspace's `name` stands for.
pub fn pep508(name: &str, deps: &NameMap<String>) -> (text: String)
    requires
        deps.wf(),
    ensures
        text@ == requirement_text(name@, constraints_of(*deps)),
{
    let mut text = String::from_str(name);
    match deps.position(name) {
        Some(at) => {
            text.append(deps.value(at).as_str());
        },
        None => {},
    }
    text
}

/// The package of the workspace that element `i` of the array at `path`
/// refers to: the element is an inline table `{ workspace = "pkg" }`, and
/// this is the string under `workspace`.
pub open spec fn ref_under(item: Item, path: Seq<Seq<char>>, i: int) -> Option<Seq<char>> {
    string_under(item, path, i, "workspace"@)
}

/// What element `i` of the array at `path` is once the references to the
/// workspace are resolved, if it is a string then: the requirement that a
/// reference stands for, or the string that stood there.
pub open spec fn resolved_text(
    before: Item,
    path: Seq<Seq<char>>,
    i: int,
    deps: Map<Seq<char>, Seq<char>>,
) -> Option<Seq<char>> {
    match ref_under(before, path, i) {
        Some(name) => Some(requirement_text(name, deps)),
        None => text_under(before, path, i),
    }
}

/// Resolve `{ workspace = "pkg" }` entries in a single TOML array to
/// requirement strings. Any other element, and any item that is no array,
/// stays as it is.
pub fn resolve_dep_array(array: &mut Item, deps: &NameMap<String>)
    requires
        deps.wf(),
    ensures
        array_size(*final(array)) == array_size(*old(array)),
        is_nothing(*final(array)) == is_nothing(*old(array)),
        is_table_item(*final(array)) == is_table_item(*old(array)),
        array_size(*old(array)) < 0 ==> *final(array) == *old(array),
        forall|path: Seq<Seq<char>>, i: int| #[trigger]
            text_under(*final(array), path, i) == (if path.len() == 0 {
                resolved_text(*old(array), path, i, constraints_of(*deps))
            } else {
                text_under(*old(array), path, i)
            }),
        forall|path: Seq<Seq<char>>, i: int| #[trigger]
            ref_under(*final(array), path, i) == (if path.len() == 0 {
                None
            } else {
                ref_under(*old(array), path, i)
            }),
{
    let ghost start = *array;
    let len = match array_len(array) {
        Some(len) => len,
        None => {
            assert forall|path: Seq<Seq<char>>, i: int|
                path.len() == 0 implies #[trigger] ref_under(start, path, i) is None by {
                assert(path =~= here());
            }
            return ;
        },
    };
    let mut i: usize = 0;
    while i < len
        invariant
            deps.wf(),
            i <= len,
            len == array_size(start),
            array_size(*array) == len,
            is_nothing(*array) == is_nothing(start),
            is_table_item(*array) == is_table_item(start),
            forall|path: Seq<Seq<char>>, k: int| #[trigger]
                text_under(*array, path, k) == (if path.len() == 0 && 0 <= k < i {
                    resolved_text(start, path, k, constraints_of(*deps))
                } else {
                    text_under(start, path, k)
                }),
            forall|path: Seq<Seq<char>>, k: int| #[trigger]
                ref_under(*array, path, k) == (if path.len() == 0 && 0 <= k < i {
                    None
                } else {
                    ref_under(start, path, k)
                }),
        decreases len - i,
    {
        let ghost held = *array;
        assert(ref_under(held, here(), i as int) == ref_under(start, here(), i as int));
        assert(text_under(held, here(), i as int) == text_under(start, here(), i as int));
        match inline_string(array, i, "workspace") {
            Some(name) => {
                let text = pep508(name.as_str(), deps);
                replace_with_text(array, i, text);
            },
            None => {},
        }
        assert forall|path: Seq<Seq<char>>, k: int| #[trigger]
            text_under(*array, path, k) == (if path.len() == 0 && 0 <= k < i + 1 {
                resolved_text(start, path, k, constraints_of(*deps))
            } else {
                text_under(start, path, k)
            }) by {
            assert(text_under(held, path, k) == (if path.len() == 0 && 0 <= k < i {
                resolved_text(start, path, k, constraints_of(*deps))
            } else {
                text_under(start, path, k)
            }));
            if path.len() == 0 {
                assert(path =~= here());
            }
        }
        assert forall|path: Seq<Seq<char>>, k: int| #[trigger]
            ref_under(*array, path, k) == (if path.len() == 0 && 0 <= k < i + 1 {
                None
            } else {
                ref_under(start, path, k)
            }) by {
            assert(ref_under(held, path, k) == (if path.len() == 0 && 0 <= k < i {
                None
            } else {
                ref_under(start, path, k)
            }));
            if path.len() == 0 {
                assert(path =~= here());
            }
        }
        i += 1;
    }
    proof {
        assert forall|path: Seq<Seq<char>>, k: int| #[trigger]
            text_under(*array, path, k) == (if path.len() == 0 {
                resolved_text(start, path, k, constraints_of(*deps))
            } else {
                text_under(start, path, k)
            }) by {
            if path.len() == 0 {
                assert(path =~= here());
                if !(0 <= k < len) {
                    assert(ref_under(start, here(), k) is None);
                }
            }
        }
        assert forall|path: Seq<Seq<char>>, k: int| #[trigger]
            ref_under(*array, path, k) == (if path.len() == 0 {
                None
            } else {
                ref_under(start, path, k)
            }) by {
            if path.len() == 0 {
                assert(path =~= here());
                if !(0 <= k < len) {
                    assert(ref_under(start, here(), k) is None);
                }
            }
        }
    }
}

/// Whether `path` is the one key `key`.
pub open spec fn is_key(path: Seq<Seq<char>>, key: Seq<char>) -> bool {
    path.len() == 1 && path[0] == key
}

/// Resolves the references in the array under `key` of `table`, where an
/// array stands there. Everything else stays as it is.
fn resolve_under(table: &mut Item, key: &str, deps: &NameMap<String>)
    requires
        deps.wf(),
        is_table_item(*old(table)),
    ensures
        is_table_item(*final(table)),
        is_nothing(*final(table)) == is_nothing(*old(table)),
        keys_of(*final(table)) == keys_of(*old(table)),
        forall|path: Seq<Seq<char>>, i: int| #[trigger]
            text_under(*final(table), path, i) == (if is_key(path, key@) {
                resolved_text(*old(table), path, i, constraints_of(*deps))
            } else {
                text_under(*old(table), path, i)
            }),
        forall|path: Seq<Seq<char>>, i: int| #[trigger]
            ref_under(*final(table), path, i) == (if is_key(path, key@) {
                None
            } else {
                ref_under(*old(table), path, i)
            }),
{
    let ghost start = *table;
    match item_child(table, key) {
        Some(child) => {
            let mut array = child;
            let ghost found = array;
            let len = array_len(&array);
            resolve_dep_array(&mut array, deps);
            let ghost resolved = array;
            if len.is_some() {
                item_insert(table, key, array);
                assert(keys_of(*table) =~= keys_of(start));
            }
            proof {
                assert forall|path: Seq<Seq<char>>, i: int| #[trigger]
                    text_under(*table, path, i) == (if is_key(path, key@) {
                        resolved_text(start, path, i, constraints_of(*deps))
                    } else {
                        text_under(start, path, i)
                    }) by {
                    if path.len() > 0 && path[0] == key@ {
                        let rest = path.drop_first();
                        assert(path =~= under(key@, rest));
                        assert(text_under(start, under(key@, rest), i) == text_under(
                            found,
                            rest,
                            i,
                        ));
                        assert(ref_under(start, under(key@, rest), i) == ref_under(
                            found,
                            rest,
                            i,
                        ));
                    }
                }
                assert forall|path: Seq<Seq<char>>, i: int| #[trigger]
                    ref_under(*table, path, i) == (if is_key(path, key@) {
                        None
                    } else {
                        ref_under(start, path, i)
                    }) by {
                    if path.len() > 0 && path[0] == key@ {
                        let rest = path.drop_first();
                        assert(path =~= under(key@, rest));
                        assert(ref_under(start, under(key@, rest), i) == ref_under(
                            found,
                            rest,
                            i,
                        ));
                        assert(ref_under(resolved, rest, i) == (if rest.len() == 0 {
                            None
                        } else {
                            ref_under(found, rest, i)
                        }));
                    }
                }
            }
        },
        None => {
            proof {
                assert forall|path: Seq<Seq<char>>, i: int|
                    is_key(path, key@) implies #[trigger] ref_under(start, path, i) is None by {
                    assert(path =~= under(key@, here()));
                }
            }
        },
    }
}

/// Resolves the references in each array that stands under a key of
/// `table`. Everything else stays as it is.
fn resolve_each(table: &mut Item, deps: &NameMap<String>)
    requires
        deps.wf(),
        is_table_item(*old(table)),
    ensures
        is_table_item(*final(table)),
        is_nothing(*final(table)) == is_nothing(*old(table)),
        keys_of(*final(table)) == keys_of(*old(table)),
        forall|path: Seq<Seq<char>>, i: int| #[trigger]
            text_under(*final(table), path, i) == (if path.len() == 1 {
                resolved_text(*old(table), path, i, constraints_of(*deps))
            } else {
                text_under(*old(table), path, i)
            }),
        forall|path: Seq<Seq<char>>, i: int| #[trigger]
            ref_under(*final(table), path, i) == (if path.len() == 1 {
                None
            } else {
                ref_under(*old(table), path, i)
            }),
{
    let ghost start = *table;
    let keys = match item_keys(table) {
        Some(keys) => keys,
        None => Vec::new(),
    };
    let ghost all = texts(keys@);
    let mut n: usize = 0;
    while n < keys.len()
        invariant
            deps.wf(),
            n <= keys.len(),
            all == texts(keys@),
            is_table_item(*table),
            is_nothing(*table) == is_nothing(start),
            keys_of(*table) == keys_of(start),
            forall|path: Seq<Seq<char>>, i: int| #[trigger]
                text_under(*table, path, i) == (if path.len() == 1 && all.take(n as int).contains(
                    path[0],
                ) {
                    resolved_text(start, path, i, constraints_of(*deps))
                } else {
                    text_under(start, path, i)
                }),
            forall|path: Seq<Seq<char>>, i: int| #[trigger]
                ref_under(*table, path, i) == (if path.len() == 1 && all.take(n as int).contains(
                    path[0],
                ) {
                    None
                } else {
                    ref_under(start, path, i)
                }),
        decreases keys.len() - n,
    {
        let ghost held = *table;
        let ghost upto = all.take(n as int);
        let key = keys[n].as_str();
        assert(all[n as int] == key@);
        assert(all.take(n + 1) =~= upto.push(key@));
        resolve_under(table, key, deps);
        proof {
            assert forall|path: Seq<Seq<char>>, i: int| #[trigger]
                text_under(*table, path, i) == (if path.len() == 1 && all.take(n + 1).contains(
                    path[0],
                ) {
                    resolved_text(start, path, i, constraints_of(*deps))
                } else {
                    text_under(start, path, i)
                }) by {
                assert(text_under(held, path, i) == (if path.len() == 1 && upto.contains(path[0]) {
                    resolved_text(start, path, i, constraints_of(*deps))
                } else {
                    text_under(start, path, i)
                }));
                assert(ref_under(held, path, i) == (if path.len() == 1 && upto.contains(path[0]) {
                    None
                } else {
                    ref_under(start, path, i)
                }));
                if path.len() == 1 {
                    if upto.contains(path[0]) {
                        let j = choose|j: int| 0 <= j < upto.len() && upto[j] == path[0];
                        assert(upto.push(key@)[j] == path[0]);
                    }
                    if path[0] == key@ {
                        assert(upto.push(key@)[n as int] == path[0]);
                    }
                    if upto.push(key@).contains(path[0]) && path[0] != key@ {
                        let j = choose|j: int|
                            0 <= j < upto.push(key@).len() && upto.push(key@)[j] == path[0];
                        assert(upto[j] == path[0]);
                    }
                }
            }
            assert forall|path: Seq<Seq<char>>, i: int| #[trigger]
                ref_under(*table, path, i) == (if path.len() == 1 && all.take(n + 1).contains(
                    path[0],
                ) {
                    None
                } else {
                    ref_under(start, path, i)
                }) by {
                assert(ref_under(held, path, i) == (if path.len() == 1 && upto.contains(path[0]) {
                    None
                } else {
                    ref_under(start, path, i)
                }));
                if path.len() == 1 {
                    if upto.contains(path[0]) {
                        let j = choose|j: int| 0 <= j < upto.len() && upto[j] == path[0];
                        assert(upto.push(key@)[j] == path[0]);
                    }
                    if path[0] == key@ {
                        assert(upto.push(key@)[n as int] == path[0]);
                    }
                    if upto.push(key@).contains(path[0]) && path[0] != key@ {
                        let j = choose|j: int|
                            0 <= j < upto.push(key@).len() && upto.push(key@)[j] == path[0];
                        assert(upto[j] == path[0]);
                    }
                }
            }
        }
        n += 1;
    }
    proof {
        assert(all.take(keys.len() as int) =~= all);
        assert forall|path: Seq<Seq<char>>, i: int| #[trigger]
            text_under(*table, path, i) == (if path.len() == 1 {
                resolved_text(start, path, i, constraints_of(*deps))
            } else {
                text_under(start, path, i)
            }) by {
            if path.len() == 1 && !all.contains(path[0]) {
                assert(ref_under(start, path, i) is None);
            }
        }
        assert forall|path: Seq<Seq<char>>, i: int| #[trigger]
            ref_under(*table, path, i) == (if path.len() == 1 {
                None
            } else {
                ref_under(start, path, i)
            }) by {
            if path.len() == 1 && !all.contains(path[0]) {
                assert(ref_under(start, path, i) is None);
            }
        }
    }
}

/// Whether `path` is `key` followed by one more key.
pub open spec fn is_key_under(path: Seq<Seq<char>>, key: Seq<char>) -> bool {
    path.len() == 2 && path[0] == key
}

/// Resolves the references in each array of the table under `key` of
/// `table`, where a table stands there. Everything else stays as it is.
fn resolve_each_under(table: &mut Item, key: &str, deps: &NameMap<String>)
    requires
        deps.wf(),
        is_table_item(*old(table)),
    ensures
        is_table_item(*final(table)),
        is_nothing(*final(table)) == is_nothing(*old(table)),
        keys_of(*final(table)) == keys_of(*old(table)),
        forall|other: Seq<char>| #[trigger]
            child_is_table(*final(table), other) == child_is_table(*old(table), other),
        forall|path: Seq<Seq<char>>, i: int| #[trigger]
            text_under(*final(table), path, i) == (if is_key_under(path, key@) {
                resolved_text(*old(table), path, i, constraints_of(*deps))
            } else {
                text_under(*old(table), path, i)
            }),
        forall|path: Seq<Seq<char>>, i: int| #[trigger]
            ref_under(*final(table), path, i) == (if is_key_under(path, key@) {
                None
            } else {
                ref_under(*old(table), path, i)
            }),
{
    let ghost start = *table;
    match item_child(table, key) {
        Some(child) => {
            let mut groups = child;
            let ghost found = groups;
            let ghost mut after = found;
            if item_is_table(&groups) {
                resolve_each(&mut groups, deps);
                proof {
                    after = groups;
                }
                item_insert(table, key, groups);
                assert(keys_of(*table) =~= keys_of(start));
            }
            proof {
                assert forall|path: Seq<Seq<char>>, i: int| #[trigger]
                    text_under(*table, path, i) == (if is_key_under(path, key@) {
                        resolved_text(start, path, i, constraints_of(*deps))
                    } else {
                        text_under(start, path, i)
                    }) by {
                    if path.len() > 0 && path[0] == key@ {
                        let rest = path.drop_first();
                        assert(path =~= under(key@, rest));
                        assert(text_under(start, under(key@, rest), i) == text_under(
                            found,
                            rest,
                            i,
                        ));
                        assert(ref_under(start, under(key@, rest), i) == ref_under(
                            found,
                            rest,
                            i,
                        ));
                    }
                }
                assert forall|path: Seq<Seq<char>>, i: int| #[trigger]
                    ref_under(*table, path, i) == (if is_key_under(path, key@) {
                        None
                    } else {
                        ref_under(start, path, i)
                    }) by {
                    if path.len() > 0 && path[0] == key@ {
                        let rest = path.drop_first();
                        assert(path =~= under(key@, rest));
                        assert(ref_under(start, under(key@, rest), i) == ref_under(
                            found,
                            rest,
                            i,
                        ));
                        if is_table_item(found) {
                            assert(ref_under(after, rest, i) == (if rest.len() == 1 {
                                None
                            } else {
                                ref_under(found, rest, i)
                            }));
                        }
                    }
                }
            }
        },
        None => {
            proof {
                assert forall|path: Seq<Seq<char>>, i: int|
                    is_key_under(path, key@) implies #[trigger] ref_under(start, path, i)
                    is None by {
                    assert(path =~= under(key@, path.drop_first()));
                }
            }
        },
    }
}

/// Whether `path` leads to a list of dependencies: `project.dependencies`,
/// a list under `project.optional-dependencies` or a list under
/// `dependency-groups`.
pub open spec fn is_dependency_list(path: Seq<Seq<char>>) -> bool {
    ||| path.len() == 2 && path[0] == "project"@ && path[1] == "dependencies"@
    ||| path.len() == 3 && path[0] == "project"@ && path[1] == "optional-dependencies"@
    ||| path.len() == 2 && path[0] == "dependency-groups"@
}

/// Resolve `{ workspace = "pkg" }` inline tables in dependency arrays to
/// requirement strings.
///
/// This processes `project.dependencies`, `project.optional-dependencies.*`,
/// and `dependency-groups.*` arrays, each where it is reached through tables
/// with headers of their own. Everything else stays as it is.
pub fn resolve_workspace_dependencies(root: &mut Item, deps: &NameMap<String>)
    requires
        deps.wf(),
        is_table_item(*old(root)),
    ensures
        is_table_item(*final(root)),
        is_nothing(*final(root)) == is_nothing(*old(root)),
        keys_of(*final(root)) == keys_of(*old(root)),
        forall|other: Seq<char>| #[trigger]
            child_is_table(*final(root), other) == child_is_table(*old(root), other),
        forall|path: Seq<Seq<char>>, i: int| #[trigger]
            text_under(*final(root), path, i) == (if is_dependency_list(path) {
                resolved_text(*old(root), path, i, constraints_of(*deps))
            } else {
                text_under(*old(root), path, i)
            }),
        forall|path: Seq<Seq<char>>, i: int| #[trigger]
            ref_under(*final(root), path, i) == (if is_dependency_list(path) {
                None
            } else {
                ref_under(*old(root), path, i)
            }),
{
    proof {
        reveal_strlit("project");
        reveal_strlit("dependency-groups");
        reveal_strlit("dependencies");
        reveal_strlit("optional-dependencies");
    }
    let ghost start = *root;
    let ghost mut placed: Option<Item> = None;
    match item_child(root, "project") {
        Some(child) => {
            let mut project = child;
            let ghost found = project;
            if item_is_table(&project) {
                resolve_under(&mut project, "dependencies", deps);
                let ghost first = project;
                resolve_each_under(&mut project, "optional-dependencies", deps);
                proof {
                    placed = Some(project);
                }
                item_insert(root, "project", project);
                assert(keys_of(*root) =~= keys_of(start));
                proof {
                    assert forall|rest: Seq<Seq<char>>, i: int| #[trigger]
                        text_under(project, rest, i) == (if is_key(rest, "dependencies"@)
                            || is_key_under(rest, "optional-dependencies"@) {
                            resolved_text(found, rest, i, constraints_of(*deps))
                        } else {
                            text_under(found, rest, i)
                        }) by {
                        assert(text_under(first, rest, i) == (if is_key(rest, "dependencies"@) {
                            resolved_text(found, rest, i, constraints_of(*deps))
                        } else {
                            text_under(found, rest, i)
                        }));
                        assert(ref_under(first, rest, i) == (if is_key(rest, "dependencies"@) {
                            None
                        } else {
                            ref_under(found, rest, i)
                        }));
                    }
                    assert forall|rest: Seq<Seq<char>>, i: int| #[trigger]
                        ref_under(project, rest, i) == (if is_key(rest, "dependencies"@)
                            || is_key_under(rest, "optional-dependencies"@) {
                            None
                        } else {
                            ref_under(found, rest, i)
                        }) by {
                        assert(ref_under(first, rest, i) == (if is_key(rest, "dependencies"@) {
                            None
                        } else {
                            ref_under(found, rest, i)
                        }));
                    }
                }
            }
        },
        None => {},
    }
    let ghost middle = *root;
    proof {
        assert forall|path: Seq<Seq<char>>, i: int| #[trigger]
            text_under(middle, path, i) == (if path.len() > 0 && path[0] == "project"@
                && is_dependency_list(path) {
                resolved_text(start, path, i, constraints_of(*deps))
            } else {
                text_under(start, path, i)
            }) by {
            if path.len() > 0 && path[0] == "project"@ {
                let rest = path.drop_first();
                assert(path =~= under("project"@, rest));
                assert("project"@.len() == 7 && "dependency-groups"@.len() == 17);
                assert(rest.len() == path.len() - 1);
                if rest.len() > 0 {
                    assert(rest[0] == path[1]);
                }
                assert(is_dependency_list(path) == (is_key(rest, "dependencies"@)
                    || is_key_under(rest, "optional-dependencies"@)));
            }
        }
        assert forall|path: Seq<Seq<char>>, i: int| #[trigger]
            ref_under(middle, path, i) == (if path.len() > 0 && path[0] == "project"@
                && is_dependency_list(path) {
                None
            } else {
                ref_under(start, path, i)
            }) by {
            if path.len() > 0 && path[0] == "project"@ {
                let rest = path.drop_first();
                assert(path =~= under("project"@, rest));
                match placed {
                    Some(project) => {
                        assert(ref_under(project, rest, i) == ref_under(project, rest, i));
                    },
                    None => {},
                }
                assert("project"@.len() == 7 && "dependency-groups"@.len() == 17);
                assert(rest.len() == path.len() - 1);
                if rest.len() > 0 {
                    assert(rest[0] == path[1]);
                }
                assert(is_dependency_list(path) == (is_key(rest, "dependencies"@)
                    || is_key_under(rest, "optional-dependencies"@)));
            }
        }
    }
    resolve_each_under(root, "dependency-groups", deps);
    proof {
        assert forall|path: Seq<Seq<char>>, i: int| #[trigger]
            text_under(*root, path, i) == (if is_dependency_list(path) {
                resolved_text(start, path, i, constraints_of(*deps))
            } else {
                text_under(start, path, i)
            }) by {
            assert(text_under(middle, path, i) == (if path.len() > 0 && path[0] == "project"@
                && is_dependency_list(path) {
                resolved_text(start, path, i, constraints_of(*deps))
            } else {
                text_under(start, path, i)
            }));
            assert(ref_under(middle, path, i) == (if path.len() > 0 && path[0] == "project"@
                && is_dependency_list(path) {
                None
            } else {
                ref_under(start, path, i)
            }));
        }
        assert forall|path: Seq<Seq<char>>, i: int| #[trigger]
            ref_under(*root, path, i) == (if is_dependency_list(path) {
                None
            } else {
                ref_under(start, path, i)
            }) by {
            assert(ref_under(middle, path, i) == (if path.len() > 0 && path[0] == "project"@
                && is_dependency_list(path) {
                None
            } else {
                ref_under(start, path, i)
            }));
        }
    }
}

/// What element `i` of the array at `path` is in the `pyproject.toml`, if
/// it is a string there: what it is in the `uv-workspace.toml` where the
/// path starts with an entry that stays at the top level, with the
/// references resolved in the lists of dependencies where constraints are
/// given.
pub open spec fn kept_text(
    uv: Item,
    path: Seq<Seq<char>>,
    i: int,
    workspace_deps: Option<&NameMap<String>>,
) -> Option<Seq<char>> {
    if !(path.len() > 0 && stays_on_top(uv, path[0])) {
        None
    } else {
        match workspace_deps {
            Some(deps) => if is_dependency_list(path) {
                resolved_text(uv, path, i, constraints_of(*deps))
            } else {
                text_under(uv, path, i)
            },
            None => text_under(uv, path, i),
        }
    }
}

/// Whether any setting of the `uv-workspace.toml` goes under `[tool.uv]`.
pub open spec fn moves_any(uv: Item) -> bool {
    exists|moved: Seq<char>| goes_under_tool(uv, moved)
}

/// Whether the settings can be put under `tool`: the `uv-workspace.toml`
/// has no entry `tool` of its own, or has a table there.
pub open spec fn tool_is_free(uv: Item) -> bool {
    !stays_on_top(uv, "tool"@) || child_is_table(uv, "tool"@)
}

/// Whether `root` is the root of the `pyproject.toml` that the
/// `uv-workspace.toml` with the root `uv` stands for.
///
/// - At the top stand the entries that are no settings, and `tool` where
///   any setting is moved.
/// - Below every top entry but `tool`, each array holds the strings it
///   held, with the references to the workspace resolved in the lists of
///   dependencies where constraints are given.
/// - Under `tool.uv` stand the settings, each with what it held; the
///   `workspace` table goes without its `dependencies`.
pub open spec fn is_pyproject_of(
    root: Item,
    uv: Item,
    workspace_deps: Option<&NameMap<String>>,
) -> bool {
    &&& is_table_item(root)
    &&& forall|key: Seq<char>| #[trigger]
        keys_of(root).contains(key) <==> stays_on_top(uv, key) || (key == "tool"@ && moves_any(
            uv,
        ))
    &&& forall|path: Seq<Seq<char>>, i: int|
        !(path.len() > 0 && path[0] == "tool"@) ==> #[trigger] text_under(root, path, i)
            == kept_text(uv, path, i, workspace_deps)
    &&& moves_any(uv) && tool_is_free(uv) ==> {
        &&& child_is_table(root, "tool"@)
        &&& forall|key: Seq<char>| #[trigger]
            keys_under(root, under_tool_uv(here())).contains(key) <==> goes_under_tool(uv, key)
        &&& forall|rest: Seq<Seq<char>>|
            rest.len() > 0 ==> #[trigger] keys_under(root, under_tool_uv(rest)) == moved_keys(
                uv,
                rest,
            )
        &&& forall|rest: Seq<Seq<char>>, i: int| #[trigger]
            text_under(root, under_tool_uv(rest), i) == moved_text(uv, rest, i)
        &&& forall|rest: Seq<Seq<char>>, i: int, inner: Seq<char>| #[trigger]
            string_under(root, under_tool_uv(rest), i, inner) == moved_string(
                uv,
                rest,
                i,
                inner,
            )
    }
}

/// The root of the `pyproject.toml` that the `uv-workspace.toml` with the
/// root `uv` stands for: the entries that belong under `[tool.uv]` are moved
/// there, the others stay, and with `workspace_deps` the references to the
/// workspace's packages are resolved.
pub fn build_pyproject(uv: &Item, workspace_deps: Option<&NameMap<String>>) -> (root: Item)
    requires
        is_table_item(*uv),
        workspace_deps matches Some(deps) ==> deps.wf(),
    ensures
        is_pyproject_of(root, *uv, workspace_deps),
{
    let parts = split_keys(uv);
    let ghost split_top = parts.top;
    let ghost settings = parts.tool_uv;
    let moved = match item_keys(&parts.tool_uv) {
        Some(moved) => moved,
        None => Vec::new(),
    };
    let has_entries = moved.len() > 0;
    proof {
        if has_entries {
            assert(keys_of(parts.tool_uv).contains(texts(moved@)[0]));
            assert(goes_under_tool(*uv, texts(moved@)[0]));
        } else {
            assert forall|key: Seq<char>| !goes_under_tool(*uv, key) by {
                if goes_under_tool(*uv, key) {
                    assert(keys_of(parts.tool_uv).contains(key));
                    assert(texts(moved@).contains(key));
                }
            }
        }
        assert(has_entries == moves_any(*uv));
    }
    let mut top = parts.top;
    match workspace_deps {
        Some(deps) => {
            resolve_workspace_dependencies(&mut top, deps);
        },
        None => {},
    }
    let ghost resolved = top;
    let root = attach_tool_uv(top, parts.tool_uv, has_entries);
    proof {
        assert forall|path: Seq<Seq<char>>, i: int|
            !(path.len() > 0 && path[0] == "tool"@) implies #[trigger] text_under(root, path, i)
            == kept_text(*uv, path, i, workspace_deps) by {
            assert(text_under(resolved, path, i) == text_under(resolved, path, i));
            assert(text_under(split_top, path, i) == text_under(split_top, path, i));
            assert(ref_under(split_top, path, i) == ref_under(split_top, path, i));
        }
        assert(keys_of(split_top).contains("tool"@) == stays_on_top(*uv, "tool"@));
        assert(child_is_table(resolved, "tool"@) == child_is_table(split_top, "tool"@));
        assert(is_attached(resolved, has_entries) == (moves_any(*uv) && tool_is_free(*uv)));
        if moves_any(*uv) && tool_is_free(*uv) {
            assert forall|key: Seq<char>| #[trigger]
                keys_under(root, under_tool_uv(here())).contains(key) <==> goes_under_tool(
                    *uv,
                    key,
                ) by {
                assert(keys_under(root, under_tool_uv(here())) == keys_under(settings, here()));
                assert(keys_of(settings).contains(key) <==> goes_under_tool(*uv, key));
            }
            assert forall|rest: Seq<Seq<char>>|
                rest.len() > 0 implies #[trigger] keys_under(root, under_tool_uv(rest))
                == moved_keys(*uv, rest) by {
                assert(keys_under(settings, rest) == moved_keys(*uv, rest));
            }
            assert forall|rest: Seq<Seq<char>>, i: int| #[trigger]
                text_under(root, under_tool_uv(rest), i) == moved_text(*uv, rest, i) by {
                assert(text_under(settings, rest, i) == moved_text(*uv, rest, i));
            }
            assert forall|rest: Seq<Seq<char>>, i: int, inner: Seq<char>| #[trigger]
                string_under(root, under_tool_uv(rest), i, inner) == moved_string(
                    *uv,
                    rest,
                    i,
                    inner,
                ) by {
                assert(string_under(settings, rest, i, inner) == moved_string(
                    *uv,
                    rest,
                    i,
                    inner,
                ));
            }
        }
    }
    root
}

/// Sync the contents of a `uv-workspace.toml` into `pyproject.toml` format.
///
/// This takes the raw content of a `uv-workspace.toml`, remaps top-level
/// keys that belong under `[tool.uv]`, and returns the resulting
/// `pyproject.toml` content. It fails where the content is no TOML, and only
/// there. What it returns is the text of a document that stands for the
/// document that the content is.
///
/// If `workspace_deps` is provided, any `{ workspace = "pkg" }` entries in
/// dependency arrays are resolved to requirement strings using the
/// workspace-level constraints.
pub fn sync_to_pyproject(uv_workspace_content: &str, workspace_deps: Option<&NameMap<String>>) -> (res:
    Result<String, TomlError>)
    requires
        workspace_deps matches Some(deps) ==> deps.wf(),
    ensures
        res is Ok == is_toml(uv_workspace_content@),
        res matches Ok(text) ==> exists|uv: Item, root: Item|
            parsed_as(uv, uv_workspace_content@) && is_pyproject_of(root, uv, workspace_deps)
                && text@ == #[trigger] synced_text(root, uv),
{
    match parse_toml(uv_workspace_content) {
        Ok(uv) => {
            let root = build_pyproject(&uv, workspace_deps);
            let text = render(root);
            assert(text@ == synced_text(root, uv));
            Ok(text)
        },
        Err(error) => Err(error),
    }
}

/// The text of the `pyproject.toml` with the root `root`, made from the
/// `uv-workspace.toml` with the root `uv`.
pub open spec fn synced_text(root: Item, uv: Item) -> Seq<char> {
    rendered(root)
}

/// The entries of a table or inline table whose values are strings, as a
/// map from their keys.
pub fn string_entries(item: &Item) -> (deps: NameMap<String>)
    ensures
        deps.wf(),
        constraints_of(deps) == entries_under(*item, here()),
{
    let mut deps: NameMap<String> = NameMap::new();
    let keys = match like_keys(item) {
        Some(keys) => keys,
        None => {
            assert(constraints_of(deps) =~= entries_under(*item, here()));
            return deps;
        },
    };
    let ghost all = texts(keys@);
    let mut i: usize = 0;
    while i < keys.len()
        invariant
            i <= keys.len(),
            all == texts(keys@),
            deps.wf(),
            forall|key: Seq<char>| #[trigger]
                entries_under(*item, here()).contains_key(key) ==> all.contains(key),
            forall|key: Seq<char>| #[trigger]
                deps.contents().contains_key(key) <==> entries_under(*item, here()).contains_key(key)
                    && all.take(i as int).contains(key),
            forall|key: Seq<char>| #[trigger]
                deps.contents().contains_key(key) ==> deps.contents()[key]@ == entries_under(*item, here())[key],
        decreases keys.len() - i,
    {
        let key = keys[i].as_str();
        let ghost upto = all.take(i as int);
        assert(all[i as int] == key@);
        assert(all.take(i + 1) =~= upto.push(key@));
        match string_at(item, key) {
            Some(value) => {
                if deps.position(key).is_none() {
                    deps.push(key, value);
                }
            },
            None => {},
        }
        proof {
            assert forall|k: Seq<char>| #[trigger]
                deps.contents().contains_key(k) <==> entries_under(*item, here()).contains_key(k)
                    && all.take(i + 1).contains(k) by {
                if upto.contains(k) {
                    let j = choose|j: int| 0 <= j < upto.len() && upto[j] == k;
                    assert(upto.push(key@)[j] == k);
                }
                if k == key@ {
                    assert(upto.push(key@)[i as int] == k);
                }
                if upto.push(key@).contains(k) && k != key@ {
                    let j = choose|j: int| 0 <= j < upto.push(key@).len() && upto.push(key@)[j] == k;
                    assert(upto[j] == k);
                }
            }
        }
        i += 1;
    }
    proof {
        assert(all.take(keys.len() as int) =~= all);
        assert(constraints_of(deps) =~= entries_under(*item, here()));
    }
    deps
}

/// The path from the root of a `uv-workspace.toml` to the shared
/// constraints: `workspace.dependencies`.
pub open spec fn shared_constraints() -> Seq<Seq<char>> {
    seq!["workspace"@, "dependencies"@]
}

/// The shared constraints that the root of a workspace gives: the string
/// entries of `dependencies` in its `workspace` table, which may be a table
/// or an inline table. None where there is no such table.
pub fn workspace_dependencies_of(root: &Item) -> (deps: NameMap<String>)
    ensures
        deps.wf(),
        constraints_of(deps) == entries_under(*root, shared_constraints()),
{
    proof {
        assert(shared_constraints() =~= under("workspace"@, under("dependencies"@, here())));
        assert(under("dependencies"@, here()) =~= seq!["dependencies"@]);
    }
    match item_child(root, "workspace") {
        Some(workspace) => {
            assert(entries_under(*root, under("workspace"@, under("dependencies"@, here())))
                == entries_under(workspace, under("dependencies"@, here())));
            match item_child(&workspace, "dependencies") {
                Some(listed) => {
                    assert(entries_under(workspace, under("dependencies"@, here()))
                        == entries_under(listed, here()));
                    string_entries(&listed)
                },
                None => {
                    assert(entries_under(workspace, under("dependencies"@, here()))
                        == no_entries());
                    let deps: NameMap<String> = NameMap::new();
                    assert(constraints_of(deps) =~= no_entries());
                    deps
                },
            }
        },
        None => {
            assert(entries_under(*root, under("workspace"@, under("dependencies"@, here())))
                == no_entries());
            let deps: NameMap<String> = NameMap::new();
            assert(constraints_of(deps) =~= no_entries());
            deps
        },
    }
}

/// Extract `[workspace.dependencies]` from a `uv-workspace.toml` content
/// string.
///
/// Returns a map of package name to version specifier string: the string
/// entries at `workspace.dependencies` of the document that the content is.
/// It fails where the content is no TOML, and only there.
pub fn extract_workspace_dependencies(uv_workspace_content: &str) -> (res: Result<
    NameMap<String>,
    TomlError,
>)
    ensures
        res is Ok == is_toml(uv_workspace_content@),
        res matches Ok(deps) ==> deps.wf() && constraints_of(deps) == entries_in(
            uv_workspace_content@,
            shared_constraints(),
        ),
{
    match parse_toml(uv_workspace_content) {
        Ok(root) => Ok(workspace_dependencies_of(&root)),
        Err(error) => Err(error),
    }
}

/// The constraints to hand on: none where the map holds none.
pub fn some_dependencies(deps: NameMap<String>) -> (res: Option<NameMap<String>>)
    requires
        deps.wf(),
    ensures
        res is None == (deps.names().len() == 0),
        res matches Some(kept) ==> kept == deps,
{
    if deps.len() == 0 {
        None
    } else {
        Some(deps)
    }
}

/// Whether the file has to be written: only where its content has changed.
pub fn needs_write(uv_workspace_content: &str, original_uv_workspace_content: &str) -> (res: bool)
    ensures
        res == (uv_workspace_content@ != original_uv_workspace_content@),
{
    !same_text(uv_workspace_content, original_uv_workspace_content)
}

} // verus!
