//! TOML documents that keep their comments and spacing.
//!
//! The documents are those of `toml_edit`. What a table holds is modelled as the list of its
//! entries, in order, each with the text around its key and around its value.

use crate::text::{option_text, texts};
use toml_edit::{DocumentMut, Table};
use vstd::prelude::*;

verus! {

/// The editable documents of `toml_edit`.
#[verifier::external_type_specification]
#[verifier::external_body]
pub struct ExDocumentMut(toml_edit::DocumentMut);

/// The tables of `toml_edit`.
#[verifier::external_type_specification]
#[verifier::external_body]
pub struct ExTable(toml_edit::Table);

/// Comments and spaces in front of something and behind it; `None` stands for the usual
/// spacing.
#[verifier::ext_equal]
pub struct DecorView {
    pub prefix: Option<Seq<char>>,
    pub suffix: Option<Seq<char>>,
}

/// The usual spacing.
pub open spec fn usual() -> DecorView {
    DecorView { prefix: None, suffix: None }
}

/// What a value says. Values of other kinds are known by their text.
pub enum ScalarView {
    Flag(bool),
    Whole(int),
    Text(Seq<char>),
    Texts(Seq<Seq<char>>),
    Other(Seq<char>),
}

/// What stands under a key.
pub enum ItemView {
    Missing,
    Value { value: ScalarView, decor: DecorView },
    Table { decor: DecorView, entries: Seq<EntryView> },
    Rows { rows: Seq<RowView> },
}

/// One table of an array of tables.
pub struct RowView {
    pub decor: DecorView,
    pub entries: Seq<EntryView>,
}

/// One entry of a table, with the text around its key.
pub struct EntryView {
    pub key: Seq<char>,
    pub remark: DecorView,
    pub item: ItemView,
}

/// The entries of a table.
pub uninterp spec fn table_entries(t: Table) -> Seq<EntryView>;

/// The text around the header of a table.
pub uninterp spec fn table_decor(t: Table) -> DecorView;

/// The entries of the root table of a document.
pub uninterp spec fn document_entries(d: DocumentMut) -> Seq<EntryView>;

/// The text behind the last entry of a document.
pub uninterp spec fn document_trailing(d: DocumentMut) -> Seq<char>;

/// The text of a document.
pub uninterp spec fn document_text(d: DocumentMut) -> Seq<char>;

/// The entries of the document that a text holds and the text behind them, or what is wrong with
/// the text.
pub uninterp spec fn parsed_document(text: Seq<char>) -> Result<
    (Seq<EntryView>, Seq<char>),
    Seq<char>,
>;

/// The value that a text holds, if it holds one.
pub uninterp spec fn parsed_value(text: Seq<char>) -> Option<ScalarView>;

/// The position of the first entry with a key; the length where there is none.
pub open spec fn position(entries: Seq<EntryView>, key: Seq<char>) -> nat
    decreases entries.len(),
{
    if entries.len() == 0 {
        0
    } else if position(entries.drop_last(), key) < entries.len() - 1 {
        position(entries.drop_last(), key)
    } else if entries.last().key == key {
        (entries.len() - 1) as nat
    } else {
        entries.len()
    }
}

pub open spec fn has_entry(entries: Seq<EntryView>, key: Seq<char>) -> bool {
    position(entries, key) < entries.len()
}

/// What stands under a key; `Missing` where nothing does.
pub open spec fn item_at(entries: Seq<EntryView>, key: Seq<char>) -> ItemView {
    if has_entry(entries, key) {
        entries[position(entries, key) as int].item
    } else {
        ItemView::Missing
    }
}

/// The entries with another item under a key, which stays where it is; a new key comes last.
pub open spec fn with_item(entries: Seq<EntryView>, key: Seq<char>, item: ItemView) -> Seq<
    EntryView,
> {
    if has_entry(entries, key) {
        let at = position(entries, key) as int;
        entries.update(at, EntryView { item, ..entries[at] })
    } else {
        entries.push(EntryView { key, remark: usual(), item })
    }
}

/// The same, with the usual spacing around the key.
pub open spec fn with_plain_item(entries: Seq<EntryView>, key: Seq<char>, item: ItemView) -> Seq<
    EntryView,
> {
    if has_entry(entries, key) {
        entries.update(position(entries, key) as int, EntryView { key, remark: usual(), item })
    } else {
        entries.push(EntryView { key, remark: usual(), item })
    }
}

pub open spec fn without_key(entries: Seq<EntryView>, key: Seq<char>) -> Seq<EntryView> {
    if has_entry(entries, key) {
        entries.remove(position(entries, key) as int)
    } else {
        entries
    }
}

/// The keys under which something stands, in order.
pub open spec fn present_keys(entries: Seq<EntryView>) -> Seq<Seq<char>>
    decreases entries.len(),
{
    if entries.len() == 0 {
        Seq::empty()
    } else if entries.last().item is Missing {
        present_keys(entries.drop_last())
    } else {
        present_keys(entries.drop_last()).push(entries.last().key)
    }
}

/// No key stands there twice.
pub open spec fn distinct_keys(entries: Seq<EntryView>) -> bool {
    forall|i: int, j: int|
        0 <= i < j < entries.len() ==> (#[trigger] entries[i]).key != (#[trigger] entries[j]).key
}

/// No key stands twice in a table, nor in the tables within it.
pub open spec fn sound(entries: Seq<EntryView>) -> bool
    decreases entries,
{
    &&& distinct_keys(entries)
    &&& forall|i: int| 0 <= i < entries.len() ==> sound_entry(#[trigger] entries[i])
}

/// The same of what stands in one entry.
pub open spec fn sound_entry(entry: EntryView) -> bool
    decreases entry,
{
    match entry.item {
        ItemView::Table { entries, .. } => sound(entries),
        ItemView::Rows { rows } => forall|i: int|
            0 <= i < rows.len() ==> sound((#[trigger] rows[i]).entries),
        _ => true,
    }
}

/// The text around a value.
#[derive(Debug)]
pub struct TomlDecor {
    pub prefix: Option<String>,
    pub suffix: Option<String>,
}

impl View for TomlDecor {
    type V = DecorView;

    open spec fn view(&self) -> DecorView {
        DecorView { prefix: option_text(self.prefix), suffix: option_text(self.suffix) }
    }
}

/// The kind of what stands under a key.
#[derive(Clone, Copy, Debug, PartialEq, Eq, Structural)]
pub enum TomlKind {
    Missing,
    Value,
    Table,
    Rows,
}

pub open spec fn kind_of(item: ItemView) -> TomlKind {
    match item {
        ItemView::Missing => TomlKind::Missing,
        ItemView::Value { .. } => TomlKind::Value,
        ItemView::Table { .. } => TomlKind::Table,
        ItemView::Rows { .. } => TomlKind::Rows,
    }
}

/// `DocumentMut::from_str`. The document of a text depends on the text alone, and so does the
/// message of the error. Its tables hold each key once.
#[verifier::external_body]
pub(crate) fn parse_document(text: &str) -> (r: Result<DocumentMut, String>)
    ensures
        match r {
            Ok(document) => parsed_document(text@) == Ok::<
                (Seq<EntryView>, Seq<char>),
                Seq<char>,
            >((document_entries(document), document_trailing(document))) && sound(
                document_entries(document),
            ),
            Err(message) => parsed_document(text@) == Err::<
                (Seq<EntryView>, Seq<char>),
                Seq<char>,
            >(message@),
        },
{
    text.parse::<DocumentMut>().map_err(|err| err.to_string())
}

/// The `Display` of `DocumentMut`: the text of the document.
#[verifier::external_body]
pub(crate) fn document_to_text(document: &DocumentMut) -> (r: String)
    ensures
        r@ == document_text(*document),
{
    document.to_string()
}

/// `DocumentMut::as_table`: the root table.
#[verifier::external_body]
pub(crate) fn root_table(document: &DocumentMut) -> (r: &Table)
    ensures
        table_entries(*r) == document_entries(*document),
{
    document.as_table()
}

/// `DocumentMut::as_table_mut`: the root table, whose entries are those of the document. The text
/// behind the entries stays.
#[verifier::external_body]
pub(crate) fn root_table_mut(document: &mut DocumentMut) -> (r: &mut Table)
    ensures
        table_entries(*r) == document_entries(*old(document)),
        document_entries(*final(document)) == table_entries(*final(r)),
        document_trailing(*final(document)) == document_trailing(*old(document)),
{
    document.as_table_mut()
}

/// `Table::get`, by the kind of the item that it gives; a none item counts as missing.
#[verifier::external_body]
pub(crate) fn item_kind(table: &Table, key: &str) -> (r: TomlKind)
    ensures
        r == kind_of(item_at(table_entries(*table), key@)),
{
    match table.get(key) {
        None | Some(toml_edit::Item::None) => TomlKind::Missing,
        Some(toml_edit::Item::Value(_)) => TomlKind::Value,
        Some(toml_edit::Item::Table(_)) => TomlKind::Table,
        Some(toml_edit::Item::ArrayOfTables(_)) => TomlKind::Rows,
    }
}

/// `Table::iter`: the keys under which something stands, in order.
#[verifier::external_body]
pub(crate) fn table_keys(table: &Table) -> (r: Vec<String>)
    ensures
        texts(r@) == present_keys(table_entries(*table)),
{
    table.iter().map(|(key, _)| key.to_string()).collect()
}

/// `Table::insert` of a new table: it takes the place of what stood under the key, and the
/// spacing around the key becomes the usual one.
#[verifier::external_body]
pub(crate) fn insert_table(table: &mut Table, key: &str)
    ensures
        table_entries(*final(table)) == with_plain_item(
            table_entries(*old(table)),
            key@,
            ItemView::Table { decor: usual(), entries: Seq::empty() },
        ),
        table_decor(*final(table)) == table_decor(*old(table)),
{
    table.insert(key, toml_edit::Item::Table(Table::new()));
}

/// `Table::remove`: the other entries keep their order.
#[verifier::external_body]
pub(crate) fn remove_key(table: &mut Table, key: &str)
    ensures
        table_entries(*final(table)) == without_key(table_entries(*old(table)), key@),
        table_decor(*final(table)) == table_decor(*old(table)),
{
    table.remove(key);
}

/// An assignment to `table[key]` of a Boolean value with the usual spacing.
#[verifier::external_body]
pub(crate) fn put_flag(table: &mut Table, key: &str, value: bool)
    ensures
        table_entries(*final(table)) == with_item(
            table_entries(*old(table)),
            key@,
            ItemView::Value { value: ScalarView::Flag(value), decor: usual() },
        ),
        table_decor(*final(table)) == table_decor(*old(table)),
{
    table[key] = toml_edit::value(value);
}

/// An assignment to `table[key]` of an integer with the usual spacing.
#[verifier::external_body]
pub(crate) fn put_whole(table: &mut Table, key: &str, value: i64)
    ensures
        table_entries(*final(table)) == with_item(
            table_entries(*old(table)),
            key@,
            ItemView::Value { value: ScalarView::Whole(value as int), decor: usual() },
        ),
        table_decor(*final(table)) == table_decor(*old(table)),
{
    table[key] = toml_edit::value(value);
}

/// An assignment to `table[key]` of a string with the usual spacing.
#[verifier::external_body]
pub(crate) fn put_text(table: &mut Table, key: &str, value: &str)
    ensures
        table_entries(*final(table)) == with_item(
            table_entries(*old(table)),
            key@,
            ItemView::Value { value: ScalarView::Text(value@), decor: usual() },
        ),
        table_decor(*final(table)) == table_decor(*old(table)),
{
    table[key] = toml_edit::value(value);
}

/// An assignment to `table[key]` of an array of strings with the usual spacing.
#[verifier::external_body]
pub(crate) fn put_texts(table: &mut Table, key: &str, values: &Vec<String>)
    ensures
        table_entries(*final(table)) == with_item(
            table_entries(*old(table)),
            key@,
            ItemView::Value { value: ScalarView::Texts(texts(values@)), decor: usual() },
        ),
        table_decor(*final(table)) == table_decor(*old(table)),
{
    let mut array = toml_edit::Array::new();
    for value in values {
        array.push(value.as_str());
    }
    table[key] = toml_edit::value(array);
}

/// `Value::from_str`, and an assignment of what it gives, with the usual spacing, to
/// `table[key]`. The value of a text depends on the text alone; where there is none, the table
/// stays as it is.
#[verifier::external_body]
pub(crate) fn put_parsed(table: &mut Table, key: &str, text: &str) -> (r: bool)
    ensures
        r == parsed_value(text@) is Some,
        r ==> table_entries(*final(table)) == with_item(
            table_entries(*old(table)),
            key@,
            ItemView::Value { value: parsed_value(text@)->Some_0, decor: usual() },
        ),
        !r ==> table_entries(*final(table)) == table_entries(*old(table)),
        table_decor(*final(table)) == table_decor(*old(table)),
{
    match text.parse::<toml_edit::Value>() {
        Ok(value) => {
            table[key] = toml_edit::Item::Value(value);
            true
        },
        Err(_) => false,
    }
}

/// An assignment to `table[key]` of a clone of the item under the same key of another table.
#[verifier::external_body]
pub(crate) fn put_copy(table: &mut Table, key: &str, source: &Table)
    requires
        !(item_at(table_entries(*source), key@) is Missing),
    ensures
        table_entries(*final(table)) == with_item(
            table_entries(*old(table)),
            key@,
            item_at(table_entries(*source), key@),
        ),
        table_decor(*final(table)) == table_decor(*old(table)),
{
    table[key] = source[key].clone();
}

/// `Value::decor` of the value under a key, if a value stands there.
#[verifier::external_body]
pub(crate) fn value_decor(table: &Table, key: &str) -> (r: Option<TomlDecor>)
    ensures
        match r {
            Some(decor) => item_at(table_entries(*table), key@) is Value && item_at(
                table_entries(*table),
                key@,
            )->Value_decor == decor@,
            None => !(item_at(table_entries(*table), key@) is Value),
        },
{
    table.get(key).and_then(|item| item.as_value()).map(|value| TomlDecor {
        prefix: value.decor().prefix().and_then(|raw| raw.as_str()).map(str::to_string),
        suffix: value.decor().suffix().and_then(|raw| raw.as_str()).map(str::to_string),
    })
}

/// `Value::decor_mut` of the value under a key, set to the given texts; without a value there
/// nothing happens.
#[verifier::external_body]
pub(crate) fn set_value_decor(table: &mut Table, key: &str, decor: TomlDecor)
    ensures
        table_entries(*final(table)) == (match item_at(table_entries(*old(table)), key@) {
            ItemView::Value { value, .. } => with_item(
                table_entries(*old(table)),
                key@,
                ItemView::Value { value, decor: decor@ },
            ),
            _ => table_entries(*old(table)),
        }),
        table_decor(*final(table)) == table_decor(*old(table)),
{
    if let Some(value) = table.get_mut(key).and_then(|item| item.as_value_mut()) {
        value.decor_mut().clear();
        decor.prefix.map(|prefix| value.decor_mut().set_prefix(prefix));
        decor.suffix.map(|suffix| value.decor_mut().set_suffix(suffix));
    }
}

/// `Table::get` and `Item::as_table` of a key under which a table stands.
#[verifier::external_body]
pub(crate) fn child_table<'a>(table: &'a Table, key: &str) -> (r: &'a Table)
    requires
        item_at(table_entries(*table), key@) is Table,
    ensures
        table_entries(*r) == item_at(table_entries(*table), key@)->Table_entries,
        table_decor(*r) == item_at(table_entries(*table), key@)->Table_decor,
{
    table.get(key).and_then(|item| item.as_table()).expect("a table stands under the key")
}

/// `Table::get_mut` and `Item::as_table_mut` of a key under which a table stands. What is done
/// to the inner table is done to that entry of the outer one.
#[verifier::external_body]
pub(crate) fn child_table_mut<'a>(table: &'a mut Table, key: &str) -> (r: &'a mut Table)
    requires
        item_at(table_entries(*old(table)), key@) is Table,
    ensures
        table_entries(*r) == item_at(table_entries(*old(table)), key@)->Table_entries,
        table_decor(*r) == item_at(table_entries(*old(table)), key@)->Table_decor,
        table_entries(*final(table)) == with_item(
            table_entries(*old(table)),
            key@,
            ItemView::Table {
                decor: table_decor(*final(r)),
                entries: table_entries(*final(r)),
            },
        ),
        table_decor(*final(table)) == table_decor(*old(table)),
{
    table.get_mut(key).and_then(|item| item.as_table_mut()).expect("a table stands under the key")
}

/// An assignment to `table[key]` of an array of tables without rows.
#[verifier::external_body]
pub(crate) fn put_no_rows(table: &mut Table, key: &str)
    ensures
        table_entries(*final(table)) == with_item(
            table_entries(*old(table)),
            key@,
            ItemView::Rows { rows: Seq::empty() },
        ),
        table_decor(*final(table)) == table_decor(*old(table)),
{
    table[key] = toml_edit::Item::ArrayOfTables(toml_edit::ArrayOfTables::new());
}

/// `ArrayOfTables::len` of the array under a key.
#[verifier::external_body]
pub(crate) fn row_count(table: &Table, key: &str) -> (r: usize)
    requires
        item_at(table_entries(*table), key@) is Rows,
    ensures
        r == item_at(table_entries(*table), key@)->rows.len(),
{
    table.get(key).and_then(|item| item.as_array_of_tables()).map_or(0, |rows| rows.len())
}

/// `ArrayOfTables::get` of the array under a key.
#[verifier::external_body]
pub(crate) fn row<'a>(table: &'a Table, key: &str, index: usize) -> (r: &'a Table)
    requires
        item_at(table_entries(*table), key@) is Rows,
        index < item_at(table_entries(*table), key@)->rows.len(),
    ensures
        table_entries(*r) == item_at(table_entries(*table), key@)->rows[index as int].entries,
        table_decor(*r) == item_at(table_entries(*table), key@)->rows[index as int].decor,
{
    table
        .get(key)
        .and_then(|item| item.as_array_of_tables())
        .and_then(|rows| rows.get(index))
        .expect("a row stands there")
}

/// `ArrayOfTables::get_mut` of the array under a key. What is done to the row is done to that
/// row of the array.
#[verifier::external_body]
pub(crate) fn row_mut<'a>(table: &'a mut Table, key: &str, index: usize) -> (r: &'a mut Table)
    requires
        item_at(table_entries(*old(table)), key@) is Rows,
        index < item_at(table_entries(*old(table)), key@)->rows.len(),
    ensures
        table_entries(*r) == item_at(table_entries(*old(table)), key@)->rows[index as int].entries,
        table_decor(*r) == item_at(table_entries(*old(table)), key@)->rows[index as int].decor,
        table_entries(*final(table)) == with_item(
            table_entries(*old(table)),
            key@,
            ItemView::Rows {
                rows: item_at(table_entries(*old(table)), key@)->rows.update(
                    index as int,
                    RowView {
                        decor: table_decor(*final(r)),
                        entries: table_entries(*final(r)),
                    },
                ),
            },
        ),
        table_decor(*final(table)) == table_decor(*old(table)),
{
    table
        .get_mut(key)
        .and_then(|item| item.as_array_of_tables_mut())
        .and_then(|rows| rows.get_mut(index))
        .expect("a row stands there")
}

/// `ArrayOfTables::push` of a new table to the array under a key.
#[verifier::external_body]
pub(crate) fn push_new_row(table: &mut Table, key: &str)
    requires
        item_at(table_entries(*old(table)), key@) is Rows,
    ensures
        table_entries(*final(table)) == with_item(
            table_entries(*old(table)),
            key@,
            ItemView::Rows {
                rows: item_at(table_entries(*old(table)), key@)->rows.push(
                    RowView { decor: usual(), entries: Seq::empty() },
                ),
            },
        ),
        table_decor(*final(table)) == table_decor(*old(table)),
{
    if let Some(rows) = table.get_mut(key).and_then(|item| item.as_array_of_tables_mut()) {
        rows.push(Table::new());
    }
}

/// `ArrayOfTables::push` of a clone of a table to the array under a key.
#[verifier::external_body]
pub(crate) fn push_row_copy(table: &mut Table, key: &str, source: &Table)
    requires
        item_at(table_entries(*old(table)), key@) is Rows,
    ensures
        table_entries(*final(table)) == with_item(
            table_entries(*old(table)),
            key@,
            ItemView::Rows {
                rows: item_at(table_entries(*old(table)), key@)->rows.push(
                    RowView { decor: table_decor(*source), entries: table_entries(*source) },
                ),
            },
        ),
        table_decor(*final(table)) == table_decor(*old(table)),
{
    if let Some(rows) = table.get_mut(key).and_then(|item| item.as_array_of_tables_mut()) {
        rows.push(source.clone());
    }
}

/// `ArrayOfTables::remove` of a row of the array under a key.
#[verifier::external_body]
pub(crate) fn remove_row(table: &mut Table, key: &str, index: usize)
    requires
        item_at(table_entries(*old(table)), key@) is Rows,
        index < item_at(table_entries(*old(table)), key@)->rows.len(),
    ensures
        table_entries(*final(table)) == with_item(
            table_entries(*old(table)),
            key@,
            ItemView::Rows {
                rows: item_at(table_entries(*old(table)), key@)->rows.remove(index as int),
            },
        ),
        table_decor(*final(table)) == table_decor(*old(table)),
{
    if let Some(rows) = table.get_mut(key).and_then(|item| item.as_array_of_tables_mut()) {
        rows.remove(index);
    }
}

/// An item in place of another one: a value keeps the spacing of the value that stood there,
/// and an array of tables in place of anything else comes last.
pub open spec fn set_item(entries: Seq<EntryView>, key: Seq<char>, item: ItemView) -> Seq<
    EntryView,
> {
    let current = item_at(entries, key);
    if item is Rows && !(current is Missing) && !(current is Rows) {
        with_item(without_key(entries, key), key, item)
    } else if item is Value && current is Value {
        with_item(
            entries,
            key,
            ItemView::Value { value: item->Value_value, decor: current->Value_decor },
        )
    } else {
        with_item(entries, key, item)
    }
}

pub proof fn lemma_position(entries: Seq<EntryView>, key: Seq<char>)
    ensures
        position(entries, key) <= entries.len(),
        has_entry(entries, key) ==> entries[position(entries, key) as int].key == key,
        forall|i: int|
            0 <= i < position(entries, key) ==> (#[trigger] entries[i]).key != key,
    decreases entries.len(),
{
    if entries.len() > 0 {
        let rest = entries.drop_last();
        lemma_position(rest, key);
        assert forall|i: int| 0 <= i < position(entries, key) implies (#[trigger] entries[i]).key
            != key by {
            if i < rest.len() {
                assert(rest[i].key != key);
            }
        }
    }
}

pub proof fn lemma_position_is(entries: Seq<EntryView>, key: Seq<char>, at: nat)
    requires
        at <= entries.len(),
        at < entries.len() ==> entries[at as int].key == key,
        forall|i: int| 0 <= i < at ==> (#[trigger] entries[i]).key != key,
    ensures
        position(entries, key) == at,
{
    lemma_position(entries, key);
    let p = position(entries, key);
    if p < at {
        assert(entries[p as int].key != key);
    }
    if at < p {
        assert(entries[at as int].key != key);
    }
}

/// What an item in place of another one does to the keys.
pub proof fn lemma_with_item(entries: Seq<EntryView>, key: Seq<char>, item: ItemView)
    ensures
        has_entry(with_item(entries, key, item), key),
        item_at(with_item(entries, key, item), key) == item,
        position(with_item(entries, key, item), key) == position(entries, key),
        forall|other: Seq<char>|
            other != key ==> #[trigger] item_at(with_item(entries, key, item), other) == item_at(
                entries,
                other,
            ),
        forall|second: ItemView| #[trigger]
            with_item(with_item(entries, key, item), key, second) == with_item(
                entries,
                key,
                second,
            ),
{
    let after = with_item(entries, key, item);
    lemma_position(entries, key);
    let at = position(entries, key);
    lemma_position_is(after, key, at);
    assert forall|other: Seq<char>| other != key implies #[trigger] item_at(after, other)
        == item_at(entries, other) by {
        lemma_position(entries, other);
        let p = position(entries, other);
        if p < entries.len() {
            lemma_position_is(after, other, p);
        } else {
            assert forall|i: int| 0 <= i < after.len() implies (#[trigger] after[i]).key
                != other by {
                if i < entries.len() {
                    assert(entries[i].key != other);
                }
            }
            lemma_position_is(after, other, after.len());
        }
    }
    assert forall|second: ItemView| #[trigger] with_item(after, key, second) == with_item(
        entries,
        key,
        second,
    ) by {
        assert(with_item(after, key, second) =~= with_item(entries, key, second));
    }
}

/// Sets a flag, and keeps the spacing of the value that stood there.
pub(crate) fn set_flag(table: &mut Table, key: &str, value: bool)
    ensures
        table_entries(*final(table)) == set_item(
            table_entries(*old(table)),
            key@,
            ItemView::Value { value: ScalarView::Flag(value), decor: usual() },
        ),
        table_decor(*final(table)) == table_decor(*old(table)),
{
    let decor = value_decor(table, key);
    put_flag(table, key, value);
    proof {
        lemma_with_item(
            table_entries(*old(table)),
            key@,
            ItemView::Value { value: ScalarView::Flag(value), decor: usual() },
        );
    }
    if let Some(decor) = decor {
        set_value_decor(table, key, decor);
    }
}

/// Sets a number, and keeps the spacing of the value that stood there.
pub(crate) fn set_whole(table: &mut Table, key: &str, value: i64)
    ensures
        table_entries(*final(table)) == set_item(
            table_entries(*old(table)),
            key@,
            ItemView::Value { value: ScalarView::Whole(value as int), decor: usual() },
        ),
        table_decor(*final(table)) == table_decor(*old(table)),
{
    let decor = value_decor(table, key);
    put_whole(table, key, value);
    proof {
        lemma_with_item(
            table_entries(*old(table)),
            key@,
            ItemView::Value { value: ScalarView::Whole(value as int), decor: usual() },
        );
    }
    if let Some(decor) = decor {
        set_value_decor(table, key, decor);
    }
}

/// Sets a text, and keeps the spacing of the value that stood there.
pub(crate) fn set_text(table: &mut Table, key: &str, value: &str)
    ensures
        table_entries(*final(table)) == set_item(
            table_entries(*old(table)),
            key@,
            ItemView::Value { value: ScalarView::Text(value@), decor: usual() },
        ),
        table_decor(*final(table)) == table_decor(*old(table)),
{
    let decor = value_decor(table, key);
    put_text(table, key, value);
    proof {
        lemma_with_item(
            table_entries(*old(table)),
            key@,
            ItemView::Value { value: ScalarView::Text(value@), decor: usual() },
        );
    }
    if let Some(decor) = decor {
        set_value_decor(table, key, decor);
    }
}

/// Sets a list of texts, and keeps the spacing of the value that stood there.
pub(crate) fn set_texts(table: &mut Table, key: &str, values: &Vec<String>)
    ensures
        table_entries(*final(table)) == set_item(
            table_entries(*old(table)),
            key@,
            ItemView::Value { value: ScalarView::Texts(texts(values@)), decor: usual() },
        ),
        table_decor(*final(table)) == table_decor(*old(table)),
{
    let decor = value_decor(table, key);
    put_texts(table, key, values);
    proof {
        lemma_with_item(
            table_entries(*old(table)),
            key@,
            ItemView::Value { value: ScalarView::Texts(texts(values@)), decor: usual() },
        );
    }
    if let Some(decor) = decor {
        set_value_decor(table, key, decor);
    }
}

/// Sets the value that a text holds, and keeps the spacing of the value that stood there.
pub(crate) fn set_parsed(table: &mut Table, key: &str, text: &str) -> (r: bool)
    ensures
        r == parsed_value(text@) is Some,
        r ==> table_entries(*final(table)) == set_item(
            table_entries(*old(table)),
            key@,
            ItemView::Value { value: parsed_value(text@)->Some_0, decor: usual() },
        ),
        !r ==> table_entries(*final(table)) == table_entries(*old(table)),
        table_decor(*final(table)) == table_decor(*old(table)),
{
    let decor = value_decor(table, key);
    if !put_parsed(table, key, text) {
        return false;
    }
    proof {
        lemma_with_item(
            table_entries(*old(table)),
            key@,
            ItemView::Value { value: parsed_value(text@)->Some_0, decor: usual() },
        );
    }
    if let Some(decor) = decor {
        set_value_decor(table, key, decor);
    }
    true
}

/// Sets what stands under the same key of another table.
pub(crate) fn set_copy(table: &mut Table, key: &str, source: &Table)
    requires
        !(item_at(table_entries(*source), key@) is Missing),
    ensures
        table_entries(*final(table)) == set_item(
            table_entries(*old(table)),
            key@,
            item_at(table_entries(*source), key@),
        ),
        table_decor(*final(table)) == table_decor(*old(table)),
{
    let kind = item_kind(table, key);
    if item_kind(source, key) == TomlKind::Rows && kind != TomlKind::Missing && kind
        != TomlKind::Rows {
        remove_key(table, key);
        put_copy(table, key, source);
        return;
    }
    let decor = value_decor(table, key);
    put_copy(table, key, source);
    proof {
        lemma_with_item(
            table_entries(*old(table)),
            key@,
            item_at(table_entries(*source), key@),
        );
    }
    if let Some(decor) = decor {
        set_value_decor(table, key, decor);
    }
}

/// Sets an array of tables without rows.
pub(crate) fn set_no_rows(table: &mut Table, key: &str)
    ensures
        table_entries(*final(table)) == set_item(
            table_entries(*old(table)),
            key@,
            ItemView::Rows { rows: Seq::empty() },
        ),
        table_decor(*final(table)) == table_decor(*old(table)),
{
    let kind = item_kind(table, key);
    if kind != TomlKind::Missing && kind != TomlKind::Rows {
        remove_key(table, key);
    }
    put_no_rows(table, key);
}

} // verus!
