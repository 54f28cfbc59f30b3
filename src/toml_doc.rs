//! The trusted boundary to `toml_edit`: its document, array-of-tables and table
//! types, with their contents modelled as plain values.
use toml_edit::{ArrayOfTables, DocumentMut, Item, Table, TomlError};
use vstd::prelude::*;

verus! {

#[verifier::external_type_specification]
#[verifier::external_body]
pub struct ExDocumentMut(DocumentMut);

#[verifier::external_type_specification]
#[verifier::external_body]
pub struct ExArrayOfTables(ArrayOfTables);

#[verifier::external_type_specification]
#[verifier::external_body]
pub struct ExTable(Table);

#[verifier::external_type_specification]
#[verifier::external_body]
pub struct ExTomlError(TomlError);

/// The string-valued entries of a table: key to string, for every key whose
/// item is a string value.
pub uninterp spec fn table_strs(t: Table) -> Map<Seq<char>, Seq<char>>;

/// The tables of an array of tables, in order, each as its string entries.
pub uninterp spec fn tables(a: ArrayOfTables) -> Seq<Map<Seq<char>, Seq<char>>>;

/// The top-level keys of a document that hold an array of tables, with the
/// contents of each.
pub uninterp spec fn doc_arrays(d: DocumentMut) -> Map<Seq<char>, Seq<Map<Seq<char>, Seq<char>>>>;

/// The top-level keys of a document that hold an item.
pub uninterp spec fn doc_keys(d: DocumentMut) -> Set<Seq<char>>;

/// The text of each top-level item of a document, by key, as `Item`'s
/// `Display` writes it.
pub uninterp spec fn doc_entries(d: DocumentMut) -> Map<Seq<char>, Seq<char>>;

/// What `toml_edit` parses from a text, as the `doc_arrays`, `doc_keys` and
/// `doc_entries` of the document; `None` where the text is not TOML.
pub uninterp spec fn parsed_toml(text: Seq<char>) -> Option<
    (Map<Seq<char>, Seq<Map<Seq<char>, Seq<char>>>>, Set<Seq<char>>, Map<Seq<char>, Seq<char>>),
>;

/// Relies on `<DocumentMut as FromStr>::from_str`: the document depends on the
/// text alone, and it fails exactly on the texts that are not TOML.
#[verifier::external_body]
pub(crate) fn parse_document(text: &str) -> (r: Result<DocumentMut, TomlError>)
    ensures
        match r {
            Ok(d) => parsed_toml(text@) == Some((doc_arrays(d), doc_keys(d), doc_entries(d))),
            Err(_) => parsed_toml(text@) is None,
        },
{
    text.parse::<DocumentMut>()
}

/// Relies on `Table::contains_key` (through `Deref` of the document): whether
/// a top-level key holds an item. A key that holds an array of tables does.
#[verifier::external_body]
pub(crate) fn doc_has_key(doc: &DocumentMut, key: &str) -> (r: bool)
    ensures
        r == doc_keys(*doc).contains(key@),
        doc_arrays(*doc).contains_key(key@) ==> r,
{
    doc.contains_key(key)
}

/// Relies on `Table::contains_array_of_tables` (through `Deref` of the
/// document): whether a top-level key holds an array of tables.
#[verifier::external_body]
pub(crate) fn doc_has_array(doc: &DocumentMut, key: &str) -> (r: bool)
    ensures
        r == doc_arrays(*doc).contains_key(key@),
{
    doc.contains_array_of_tables(key)
}

/// Relies on `Item::get` with a string index on the document's root item, and
/// `Item::as_array_of_tables`: the array of tables at a top-level key that
/// holds one.
#[verifier::external_body]
pub(crate) fn doc_array<'a>(doc: &'a DocumentMut, key: &str) -> (r: &'a ArrayOfTables)
    requires
        doc_arrays(*doc).contains_key(key@),
    ensures
        tables(*r) == doc_arrays(*doc)[key@],
{
    doc.as_item().get(key).and_then(Item::as_array_of_tables).unwrap()
}

/// Relies on `Item::get_mut` with a string index on the document's root item,
/// and `Item::as_array_of_tables_mut`: a mutable borrow of the array of tables
/// at a top-level key that holds one. Writes through it change that item of
/// the document alone.
#[verifier::external_body]
pub(crate) fn doc_array_mut<'a>(doc: &'a mut DocumentMut, key: &str) -> (r: &'a mut ArrayOfTables)
    requires
        doc_arrays(*old(doc)).contains_key(key@),
    ensures
        tables(*r) == doc_arrays(*old(doc))[key@],
        doc_arrays(*final(doc)) == doc_arrays(*old(doc)).insert(key@, tables(*final(r))),
        doc_keys(*final(doc)) == doc_keys(*old(doc)),
        doc_entries(*final(doc)).remove(key@) == doc_entries(*old(doc)).remove(key@),
{
    doc.as_item_mut().get_mut(key).and_then(Item::as_array_of_tables_mut).unwrap()
}

/// Relies on `Table::insert` (through `DerefMut` of the document): the key then
/// holds a new, empty array of tables; the other items stay as they were.
#[verifier::external_body]
pub(crate) fn doc_insert_empty_array(doc: &mut DocumentMut, key: &str)
    ensures
        doc_arrays(*final(doc)) == doc_arrays(*old(doc)).insert(key@, Seq::empty()),
        doc_keys(*final(doc)) == doc_keys(*old(doc)).insert(key@),
        doc_entries(*final(doc)).remove(key@) == doc_entries(*old(doc)).remove(key@),
{
    doc.insert(key, Item::ArrayOfTables(ArrayOfTables::new()));
}

/// Relies on `ArrayOfTables::len`: the number of tables.
pub assume_specification[ ArrayOfTables::len ](a: &ArrayOfTables) -> (r: usize)
    ensures
        r == tables(*a).len(),
;

/// Relies on `ArrayOfTables::remove`: the table at `index` leaves, the others
/// keep their order. It panics on an index past the end.
pub assume_specification[ ArrayOfTables::remove ](a: &mut ArrayOfTables, index: usize)
    requires
        index < tables(*old(a)).len(),
    ensures
        tables(*final(a)) == tables(*old(a)).remove(index as int),
;

/// Relies on `ArrayOfTables::push`: the table is appended.
pub assume_specification[ ArrayOfTables::push ](a: &mut ArrayOfTables, table: Table)
    ensures
        tables(*final(a)) == tables(*old(a)).push(table_strs(table)),
;

/// Relies on `Table::new`: an empty table.
pub assume_specification[ Table::new ]() -> (r: Table)
    ensures
        table_strs(r).dom().len() == 0 && table_strs(r).dom().finite(),
;

/// Relies on `ArrayOfTables::get`, `Table::get` and `Item::as_str`: the string
/// under `key` in the table at `index`, if that item is a string.
#[verifier::external_body]
pub(crate) fn table_str_at(a: &ArrayOfTables, index: usize, key: &str) -> (r: Option<String>)
    requires
        index < tables(*a).len(),
    ensures
        match r {
            Some(s) => tables(*a)[index as int].contains_key(key@) && s@ == tables(*a)[index as int][key@],
            None => !tables(*a)[index as int].contains_key(key@),
        },
{
    match a.get(index) {
        Some(t) => t.get(key).and_then(Item::as_str).map(String::from),
        None => None,
    }
}

/// Relies on `IndexMut<&str>` of `Table` and `toml_edit::value`: the key then
/// holds the string `v`.
#[verifier::external_body]
pub(crate) fn table_set_str(t: &mut Table, key: &str, v: &str)
    ensures
        table_strs(*final(t)) == table_strs(*old(t)).insert(key@, v@),
{
    t[key] = toml_edit::value(v);
}

/// Relies on `Table::decor_mut` and `Decor::set_prefix`: the text before the
/// table's header changes, its entries do not.
#[verifier::external_body]
pub(crate) fn table_set_prefix(t: &mut Table, prefix: &str)
    ensures
        table_strs(*final(t)) == table_strs(*old(t)),
{
    t.decor_mut().set_prefix(prefix);
}

/// Relies on `Display` of `DocumentMut`: the document as TOML text.
#[verifier::external_body]
pub(crate) fn render_document(doc: &DocumentMut) -> String {
    doc.to_string()
}

} // verus!
