//! TOML documents, read and written by `toml_edit`.
//!
//! A document is handled by its root item. What the library needs to know of
//! an item is named here; everything else about it stays with `toml_edit`.

use vstd::prelude::*;
use toml_edit::{DocumentMut, Item, Table, TomlError, Value};
use crate::text::texts;

verus! {

/// An item of a TOML document: a value, a table, an array of tables, or
/// nothing.
#[verifier::external_type_specification]
#[verifier::external_body]
pub struct ExItem(Item);

/// Why a text is no TOML document.
#[verifier::external_type_specification]
#[verifier::external_body]
pub struct ExTomlError(TomlError);

/// Whether `content` is a TOML document.
pub uninterp spec fn is_toml(content: Seq<char>) -> bool;

/// Whether an item is nothing: the place of an entry that has been taken
/// away. A table does not list such an entry.
pub uninterp spec fn is_nothing(item: Item) -> bool;

/// Whether an item is a table with a header of its own; an inline table is
/// none.
pub uninterp spec fn is_table_item(item: Item) -> bool;

/// The keys of a table; no keys for any other item.
pub uninterp spec fn keys_of(item: Item) -> Set<Seq<char>>;

/// The keys of the table found from `item` by following the keys of `path`
/// through tables with headers of their own; with no keys these are the
/// keys of `item` itself. No keys where no such table is found.
pub uninterp spec fn keys_under(item: Item, path: Seq<Seq<char>>) -> Set<Seq<char>>;

/// Whether the item under `key` of a table is itself a table.
pub uninterp spec fn child_is_table(item: Item, key: Seq<char>) -> bool;

/// The keys of the table under `key` of a table.
pub uninterp spec fn child_keys(item: Item, key: Seq<char>) -> Set<Seq<char>>;

/// How many elements an array has; -1 for an item that is no array.
pub uninterp spec fn array_size(item: Item) -> int;

/// The string that stands under `key` in element `i` of an array, where the
/// element is an inline table and a string stands there. The array is the
/// one found from `item` by following the keys of `path` through tables with
/// headers of their own; with no keys it is `item` itself. Nothing where no
/// array is found so.
pub uninterp spec fn string_under(
    item: Item,
    path: Seq<Seq<char>>,
    i: int,
    key: Seq<char>,
) -> Option<Seq<char>>;

/// The string that element `i` of an array is, if it is one. The array is
/// found from `item` by `path` as for [`string_under`].
pub uninterp spec fn text_under(item: Item, path: Seq<Seq<char>>, i: int) -> Option<Seq<char>>;

/// The entries whose values are strings of the table or inline table found
/// from `item` by following the keys of `path` through tables with headers
/// of their own; with no keys it is `item` itself. No entries where no table
/// is found so.
pub uninterp spec fn entries_under(item: Item, path: Seq<Seq<char>>) -> Map<
    Seq<char>,
    Seq<char>,
>;

/// The text of the document whose root table is `root`.
pub uninterp spec fn rendered(root: Item) -> Seq<char>;

/// The keys of the table found in the document that `content` is, by
/// following the keys of `path` from its root as for [`keys_under`].
pub uninterp spec fn keys_in(content: Seq<char>, path: Seq<Seq<char>>) -> Set<Seq<char>>;

/// Whether the item under `key` at the root of the document that `content`
/// is, is a table.
pub uninterp spec fn table_in(content: Seq<char>, key: Seq<char>) -> bool;

/// In the document that `content` is, the string under `key` in element `i`
/// of the array at `path`, as for [`string_under`].
pub uninterp spec fn string_in(
    content: Seq<char>,
    path: Seq<Seq<char>>,
    i: int,
    key: Seq<char>,
) -> Option<Seq<char>>;

/// In the document that `content` is, the string that element `i` of the
/// array at `path` is, as for [`text_under`].
pub uninterp spec fn text_in(content: Seq<char>, path: Seq<Seq<char>>, i: int) -> Option<
    Seq<char>,
>;

/// In the document that `content` is, the string entries of the table or
/// inline table at `path`, as for [`entries_under`].
pub uninterp spec fn entries_in(content: Seq<char>, path: Seq<Seq<char>>) -> Map<
    Seq<char>,
    Seq<char>,
>;

/// Whether `root` is the root table of the document that `content` is: it
/// holds what the document holds.
pub open spec fn parsed_as(root: Item, content: Seq<char>) -> bool {
    &&& is_table_item(root)
    &&& !is_nothing(root)
    &&& keys_of(root) == keys_in(content, here())
    &&& forall|path: Seq<Seq<char>>| #[trigger] keys_under(root, path) == keys_in(content, path)
    &&& forall|key: Seq<char>| #[trigger] child_is_table(root, key) == table_in(content, key)
    &&& forall|key: Seq<char>| #[trigger]
        child_keys(root, key) == keys_in(content, under(key, here()))
    &&& forall|path: Seq<Seq<char>>, i: int, key: Seq<char>| #[trigger]
        string_under(root, path, i, key) == string_in(content, path, i, key)
    &&& forall|path: Seq<Seq<char>>, i: int| #[trigger]
        text_under(root, path, i) == text_in(content, path, i)
    &&& forall|path: Seq<Seq<char>>| #[trigger]
        entries_under(root, path) == entries_in(content, path)
}

/// The path that leads nowhere: the item itself.
pub open spec fn here() -> Seq<Seq<char>> {
    Seq::empty()
}

/// The path that starts with `key` and goes on with `path`.
pub open spec fn under(key: Seq<char>, path: Seq<Seq<char>>) -> Seq<Seq<char>> {
    seq![key] + path
}

/// Whether `keys` lists the set `set`: each member once and nothing else.
pub open spec fn lists(keys: Seq<Seq<char>>, set: Set<Seq<char>>) -> bool {
    &&& keys.no_duplicates()
    &&& forall|i: int| 0 <= i < keys.len() ==> set.contains(#[trigger] keys[i])
    &&& forall|key: Seq<char>| #[trigger] set.contains(key) ==> keys.contains(key)
}

/// `str::parse` into a `DocumentMut`, and `DocumentMut::into_item`: the root
/// table of the document that `content` is, or the error where it is none.
/// What the root holds depends on the content alone.
#[verifier::external_body]
pub(crate) fn parse_toml(content: &str) -> (res: Result<Item, TomlError>)
    ensures
        res is Ok == is_toml(content@),
        res matches Ok(root) ==> is_table_item(root) && !is_nothing(root),
        res matches Ok(root) ==> keys_of(root) == keys_in(content@, here()),
        res matches Ok(root) ==> forall|path: Seq<Seq<char>>| #[trigger]
            keys_under(root, path) == keys_in(content@, path),
        res matches Ok(root) ==> forall|key: Seq<char>| #[trigger]
            child_is_table(root, key) == table_in(content@, key),
        res matches Ok(root) ==> forall|key: Seq<char>| #[trigger]
            child_keys(root, key) == keys_in(content@, under(key, here())),
        res matches Ok(root) ==> forall|path: Seq<Seq<char>>, i: int, key: Seq<char>|
            #[trigger] string_under(root, path, i, key) == string_in(content@, path, i, key),
        res matches Ok(root) ==> forall|path: Seq<Seq<char>>, i: int| #[trigger]
            text_under(root, path, i) == text_in(content@, path, i),
        res matches Ok(root) ==> forall|path: Seq<Seq<char>>| #[trigger]
            entries_under(root, path) == entries_in(content@, path),
{
    let doc: DocumentMut = content.parse()?;
    Ok(doc.into_item())
}

/// `DocumentMut::new` and `DocumentMut::into_item`: the root table of an
/// empty document, from which no path leads anywhere.
#[verifier::external_body]
pub(crate) fn new_root() -> (root: Item)
    ensures
        is_table_item(root),
        !is_nothing(root),
        keys_of(root) == none(),
        forall|path: Seq<Seq<char>>| #[trigger] keys_under(root, path) == none(),
        forall|path: Seq<Seq<char>>, i: int, key: Seq<char>| #[trigger]
            string_under(root, path, i, key) is None,
        forall|path: Seq<Seq<char>>, i: int| #[trigger] text_under(root, path, i) is None,
{
    DocumentMut::new().into_item()
}

/// `Table::new`: an empty table, from which no path leads anywhere.
#[verifier::external_body]
pub(crate) fn new_table() -> (table: Item)
    ensures
        is_table_item(table),
        !is_nothing(table),
        keys_of(table) == none(),
        forall|path: Seq<Seq<char>>| #[trigger] keys_under(table, path) == none(),
        forall|path: Seq<Seq<char>>, i: int, key: Seq<char>| #[trigger]
            string_under(table, path, i, key) is None,
        forall|path: Seq<Seq<char>>, i: int| #[trigger] text_under(table, path, i) is None,
{
    Item::Table(Table::new())
}

/// No keys.
pub open spec fn none() -> Set<Seq<char>> {
    Set::empty()
}

/// `DocumentMut::from` a table and `to_string`: the text of the document
/// with the given root.
#[verifier::external_body]
pub(crate) fn render(root: Item) -> (text: String)
    requires
        is_table_item(root),
    ensures
        text@ == rendered(root),
{
    DocumentMut::from(root.into_table().unwrap()).to_string()
}

/// `Item::is_table`. No path leads on from an item that is no table.
#[verifier::external_body]
pub(crate) fn item_is_table(item: &Item) -> (res: bool)
    ensures
        res == is_table_item(*item),
        !res ==> forall|path: Seq<Seq<char>>, i: int, key: Seq<char>|
            path.len() > 0 ==> #[trigger] string_under(*item, path, i, key) is None,
        !res ==> forall|path: Seq<Seq<char>>, i: int|
            path.len() > 0 ==> #[trigger] text_under(*item, path, i) is None,
{
    item.is_table()
}

/// `Table::iter`: the keys of a table, each once; nothing for an item that
/// is no table. No path leads on under a key that the item does not have.
#[verifier::external_body]
pub(crate) fn item_keys(item: &Item) -> (res: Option<Vec<String>>)
    ensures
        res is Some == is_table_item(*item),
        res matches Some(keys) ==> lists(texts(keys@), keys_of(*item)),
        res matches Some(keys) ==> forall|path: Seq<Seq<char>>, i: int, key: Seq<char>|
            path.len() > 0 && !texts(keys@).contains(path[0]) ==> #[trigger] string_under(
                *item,
                path,
                i,
                key,
            ) is None,
        res matches Some(keys) ==> forall|path: Seq<Seq<char>>, i: int|
            path.len() > 0 && !texts(keys@).contains(path[0]) ==> #[trigger] text_under(
                *item,
                path,
                i,
            ) is None,
{
    let table = item.as_table()?;
    let mut keys = Vec::new();
    for (key, _) in table.iter() {
        keys.push(key.to_string());
    }
    Some(keys)
}

/// `Table::get`: a copy of the item under `key` of a table, if it has one.
#[verifier::external_body]
pub(crate) fn item_child(item: &Item, key: &str) -> (res: Option<Item>)
    ensures
        res is Some == (is_table_item(*item) && keys_of(*item).contains(key@)),
        res matches Some(child) ==> !is_nothing(child),
        res matches Some(child) ==> is_table_item(child) == child_is_table(*item, key@),
        res matches Some(child) ==> is_table_item(child) ==> keys_of(child) == child_keys(
            *item,
            key@,
        ),
        res matches Some(child) ==> keys_under(child, here()) == keys_of(child),
        forall|path: Seq<Seq<char>>| #[trigger]
            keys_under(*item, under(key@, path)) == (match res {
                Some(child) => keys_under(child, path),
                None => none(),
            }),
        forall|path: Seq<Seq<char>>, i: int, inner: Seq<char>| #[trigger]
            string_under(*item, under(key@, path), i, inner) == (match res {
                Some(child) => string_under(child, path, i, inner),
                None => None,
            }),
        forall|path: Seq<Seq<char>>, i: int| #[trigger]
            text_under(*item, under(key@, path), i) == (match res {
                Some(child) => text_under(child, path, i),
                None => None,
            }),
        forall|path: Seq<Seq<char>>| #[trigger]
            entries_under(*item, under(key@, path)) == (match res {
                Some(child) => entries_under(child, path),
                None => no_entries(),
            }),
{
    Some(item.as_table()?.get(key)?.clone())
}

/// `Table::insert`: puts `child` under `key` of a table, in place of what
/// stood there. The other entries stay as they are.
#[verifier::external_body]
pub(crate) fn item_insert(item: &mut Item, key: &str, child: Item)
    requires
        is_table_item(*old(item)),
        !is_nothing(child),
    ensures
        is_table_item(*final(item)),
        is_nothing(*final(item)) == is_nothing(*old(item)),
        keys_of(*final(item)) == keys_of(*old(item)).insert(key@),
        child_is_table(*final(item), key@) == is_table_item(child),
        is_table_item(child) ==> child_keys(*final(item), key@) == keys_of(child),
        forall|other: Seq<char>|
            other != key@ ==> #[trigger] child_is_table(*final(item), other) == child_is_table(
                *old(item),
                other,
            ),
        forall|other: Seq<char>|
            other != key@ ==> #[trigger] child_keys(*final(item), other) == child_keys(
                *old(item),
                other,
            ),
        forall|path: Seq<Seq<char>>| #[trigger]
            keys_under(*final(item), path) == (if path.len() == 0 {
                keys_of(*old(item)).insert(key@)
            } else if path[0] == key@ {
                keys_under(child, path.drop_first())
            } else {
                keys_under(*old(item), path)
            }),
        forall|path: Seq<Seq<char>>, i: int, inner: Seq<char>| #[trigger]
            string_under(*final(item), path, i, inner) == (if path.len() > 0 && path[0] == key@ {
                string_under(child, path.drop_first(), i, inner)
            } else {
                string_under(*old(item), path, i, inner)
            }),
        forall|path: Seq<Seq<char>>, i: int| #[trigger]
            text_under(*final(item), path, i) == (if path.len() > 0 && path[0] == key@ {
                text_under(child, path.drop_first(), i)
            } else {
                text_under(*old(item), path, i)
            }),
{
    item.as_table_mut().unwrap().insert(key, child);
}

/// `Table::remove`: takes the entry under `key` out of a table. The other
/// entries stay as they are.
#[verifier::external_body]
pub(crate) fn item_remove(item: &mut Item, key: &str)
    requires
        is_table_item(*old(item)),
    ensures
        is_table_item(*final(item)),
        is_nothing(*final(item)) == is_nothing(*old(item)),
        keys_of(*final(item)) == keys_of(*old(item)).remove(key@),
        forall|other: Seq<char>|
            other != key@ ==> #[trigger] child_is_table(*final(item), other) == child_is_table(
                *old(item),
                other,
            ),
        forall|other: Seq<char>|
            other != key@ ==> #[trigger] child_keys(*final(item), other) == child_keys(
                *old(item),
                other,
            ),
        forall|path: Seq<Seq<char>>| #[trigger]
            keys_under(*final(item), path) == (if path.len() == 0 {
                keys_of(*old(item)).remove(key@)
            } else if path[0] == key@ {
                none()
            } else {
                keys_under(*old(item), path)
            }),
        forall|path: Seq<Seq<char>>, i: int| #[trigger]
            text_under(*final(item), path, i) == (if path.len() > 0 && path[0] == key@ {
                None
            } else {
                text_under(*old(item), path, i)
            }),
        forall|path: Seq<Seq<char>>, i: int, inner: Seq<char>| #[trigger]
            string_under(*final(item), path, i, inner) == (if path.len() > 0 && path[0] == key@ {
                None
            } else {
                string_under(*old(item), path, i, inner)
            }),
{
    item.as_table_mut().unwrap().remove(key);
}

/// `Array::len`: how many elements an array has; nothing for an item that
/// is no array. There are no elements but those.
#[verifier::external_body]
pub(crate) fn array_len(item: &Item) -> (res: Option<usize>)
    ensures
        match res {
            Some(len) => array_size(*item) == len,
            None => array_size(*item) == -1,
        },
        res matches Some(len) ==> forall|i: int, key: Seq<char>|
            !(0 <= i < len) ==> #[trigger] string_under(*item, here(), i, key) is None,
        res matches Some(len) ==> forall|i: int|
            !(0 <= i < len) ==> #[trigger] text_under(*item, here(), i) is None,
        res is None ==> forall|i: int, key: Seq<char>| #[trigger]
            string_under(*item, here(), i, key) is None,
        res is None ==> forall|i: int| #[trigger] text_under(*item, here(), i) is None,
{
    Some(item.as_array()?.len())
}

/// `Array::get`, `Value::as_inline_table`, `InlineTable::get` and
/// `Value::as_str`: the string that stands under `key` in element `i` of an
/// array, where the element is an inline table and a string stands there.
#[verifier::external_body]
pub(crate) fn inline_string(item: &Item, i: usize, key: &str) -> (res: Option<String>)
    ensures
        match res {
            Some(found) => string_under(*item, here(), i as int, key@) == Some(found@),
            None => string_under(*item, here(), i as int, key@) is None,
        },
{
    Some(item.as_array()?.get(i)?.as_inline_table()?.get(key)?.as_str()?.to_string())
}

/// Whether element `i` of an array is known to be a value: a string, or an
/// inline table in which a string stands under some key.
pub open spec fn is_value_at(item: Item, i: int) -> bool {
    text_under(item, here(), i) is Some || exists|key: Seq<char>| #[trigger]
        string_under(item, here(), i, key) is Some
}

/// `Array::replace` with `Value::from` a string: element `i` of an array
/// becomes the string `text`. The other elements stay as they are. The
/// element must be a value: an array may count places that hold none, and
/// replacing such a place fails.
#[verifier::external_body]
pub(crate) fn replace_with_text(item: &mut Item, i: usize, text: String)
    requires
        0 <= i < array_size(*old(item)),
        is_value_at(*old(item), i as int),
    ensures
        array_size(*final(item)) == array_size(*old(item)),
        is_nothing(*final(item)) == is_nothing(*old(item)),
        is_table_item(*final(item)) == is_table_item(*old(item)),
        forall|path: Seq<Seq<char>>, k: int| #[trigger]
            text_under(*final(item), path, k) == (if path.len() == 0 && k == i {
                Some(text@)
            } else {
                text_under(*old(item), path, k)
            }),
        forall|path: Seq<Seq<char>>, k: int, key: Seq<char>| #[trigger]
            string_under(*final(item), path, k, key) == (if path.len() == 0 && k == i {
                None
            } else {
                string_under(*old(item), path, k, key)
            }),
{
    item.as_array_mut().unwrap().replace(i, Value::from(text));
}

/// `Item::as_table_like` and `TableLike::iter`: the keys of a table or
/// inline table; nothing for any other item.
#[verifier::external_body]
pub(crate) fn like_keys(item: &Item) -> (res: Option<Vec<String>>)
    ensures
        res matches Some(keys) ==> forall|key: Seq<char>| #[trigger]
            entries_under(*item, here()).contains_key(key) ==> texts(keys@).contains(key),
        res is None ==> entries_under(*item, here()) == no_entries(),
{
    let table = item.as_table_like()?;
    let mut keys = Vec::new();
    for (key, _) in table.iter() {
        keys.push(key.to_string());
    }
    Some(keys)
}

/// No entries.
pub open spec fn no_entries() -> Map<Seq<char>, Seq<char>> {
    Map::empty()
}

/// `TableLike::get` and `Item::as_str`: the string under `key` of a table or
/// inline table, if a string stands there.
#[verifier::external_body]
pub(crate) fn string_at(item: &Item, key: &str) -> (res: Option<String>)
    ensures
        match res {
            Some(value) => entries_under(*item, here()).contains_key(key@) && entries_under(
                *item,
                here(),
            )[key@] == value@,
            None => !entries_under(*item, here()).contains_key(key@),
        },
{
    Some(item.as_table_like()?.get(key)?.as_str()?.to_string())
}

} // verus!
