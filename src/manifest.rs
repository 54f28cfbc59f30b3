//! The manifest document and its bin section: lookup, upsert and removal, all
//! on the in-memory document.
use crate::error::BinError;
use crate::records::{
    added, any_match, is_first_match, is_match, lemma_first_match_is, lemma_purged_take_step,
    purged, removed, BinRecord,
};
use crate::toml_doc::{
    doc_array, doc_array_mut, doc_arrays, doc_has_array, doc_has_key, doc_insert_empty_array,
    doc_entries, doc_keys, parse_document, parsed_toml, render_document, table_set_prefix, table_set_str, table_str_at,
    table_strs, tables,
};
use toml_edit::{DocumentMut, Table};
use vstd::prelude::*;

verus! {

/// The top-level key of the record array.
pub const KEY_BIN: &'static str = "bin";

/// The key of a record's name.
pub const KEY_BIN_NAME: &'static str = "name";

/// The key of a record's path.
pub const KEY_BIN_PATH: &'static str = "path";

/// The entry under `key` of a table's string entries, if there is one.
pub open spec fn field(t: Map<Seq<char>, Seq<char>>, key: Seq<char>) -> Option<Seq<char>> {
    if t.contains_key(key) {
        Some(t[key])
    } else {
        None
    }
}

/// A table of the bin array as a record.
pub open spec fn record_of(t: Map<Seq<char>, Seq<char>>) -> BinRecord {
    (field(t, KEY_BIN_NAME@), field(t, KEY_BIN_PATH@))
}

/// The records that a sequence of tables holds.
pub open spec fn records_of(ts: Seq<Map<Seq<char>, Seq<char>>>) -> Seq<BinRecord> {
    ts.map_values(|t: Map<Seq<char>, Seq<char>>| record_of(t))
}

/// The view of an optional string.
pub open spec fn opt_text(o: Option<String>) -> Option<Seq<char>> {
    match o {
        Some(s) => Some(s@),
        None => None,
    }
}

/// The records that top-level arrays of tables hold: those of the bin
/// array, none if there is no bin array.
pub open spec fn records_in(arrays: Map<Seq<char>, Seq<Map<Seq<char>, Seq<char>>>>) -> Seq<
    BinRecord,
> {
    if arrays.contains_key(KEY_BIN@) {
        records_of(arrays[KEY_BIN@])
    } else {
        Seq::empty()
    }
}

/// The records that a document holds.
pub open spec fn doc_records(d: DocumentMut) -> Seq<BinRecord> {
    records_in(doc_arrays(d))
}

/// The bin key of a parsed document is usable: it holds an array of tables,
/// or nothing.
pub open spec fn bin_usable(
    arrays: Map<Seq<char>, Seq<Map<Seq<char>, Seq<char>>>>,
    keys: Set<Seq<char>>,
) -> bool {
    arrays.contains_key(KEY_BIN@) || !keys.contains(KEY_BIN@)
}

/// A manifest document, which always holds an array of tables under `bin`,
/// with the file path it was read from.
pub struct Manifest {
    root: DocumentMut,
    path: String,
}

impl View for Manifest {
    type V = Seq<BinRecord>;

    /// The records of the bin section, in order.
    closed spec fn view(&self) -> Seq<BinRecord> {
        doc_records(self.root)
    }
}

impl Manifest {
    /// The bin key holds an array of tables.
    pub closed spec fn wf(&self) -> bool {
        doc_arrays(self.root).contains_key(KEY_BIN@)
    }

    /// What the document holds beside the bin section: the other keys'
    /// arrays of tables, the set of top-level keys, and the text of every
    /// other top-level item.
    pub closed spec fn others(&self) -> (
        Map<Seq<char>, Seq<Map<Seq<char>, Seq<char>>>>,
        Set<Seq<char>>,
        Map<Seq<char>, Seq<char>>,
    ) {
        (
            doc_arrays(self.root).remove(KEY_BIN@),
            doc_keys(self.root),
            doc_entries(self.root).remove(KEY_BIN@),
        )
    }

    /// The path of the manifest file.
    pub closed spec fn file_path_view(&self) -> Seq<char> {
        self.path@
    }

    /// Takes a parsed document: the bin key is kept where it holds an array of
    /// tables, set to an empty one where it is absent, and refused otherwise.
    pub fn from_document(root: DocumentMut, path: String) -> (r: Result<Manifest, BinError>)
        ensures
            r is Ok <==> bin_usable(doc_arrays(root), doc_keys(root)),
            match r {
                Ok(m) => {
                    &&& m.wf()
                    &&& m@ == doc_records(root)
                    &&& m.others() == (
                        doc_arrays(root).remove(KEY_BIN@),
                        doc_keys(root).insert(KEY_BIN@),
                        doc_entries(root).remove(KEY_BIN@),
                    )
                    &&& m.file_path_view() == path@
                },
                Err(e) => e == BinError::BinNotArrayOfTables,
            },
    {
        let mut root = root;
        if !doc_has_key(&root, KEY_BIN) {
            let ghost arrays = doc_arrays(root);
            doc_insert_empty_array(&mut root, KEY_BIN);
            assert(doc_arrays(root).remove(KEY_BIN@) =~= arrays.remove(KEY_BIN@));
            assert(records_of(Seq::empty()) =~= Seq::<BinRecord>::empty());
            Ok(Manifest { root, path })
        } else if doc_has_array(&root, KEY_BIN) {
            assert(doc_keys(root).insert(KEY_BIN@) =~= doc_keys(root));
            Ok(Manifest { root, path })
        } else {
            Err(BinError::BinNotArrayOfTables)
        }
    }

    /// Parses manifest text read from `path`.
    pub fn open(path: String, content: &str) -> (r: Result<Manifest, BinError>)
        ensures
            match parsed_toml(content@) {
                None => r == Err::<Manifest, BinError>(BinError::ParseManifest),
                Some((arrays, keys, entries)) => if bin_usable(arrays, keys) {
                    r matches Ok(m) && m.wf() && m@ == records_in(arrays) && m.others() == (
                        arrays.remove(KEY_BIN@),
                        keys.insert(KEY_BIN@),
                        entries.remove(KEY_BIN@),
                    ) && m.file_path_view() == path@
                } else {
                    r == Err::<Manifest, BinError>(BinError::BinNotArrayOfTables)
                },
            },
    {
        match parse_document(content) {
            Ok(root) => Manifest::from_document(root, path),
            Err(_) => Err(BinError::ParseManifest),
        }
    }

    /// The path of the manifest file.
    pub fn file_path(&self) -> (r: &str)
        ensures
            r@ == self.file_path_view(),
    {
        self.path.as_str()
    }

    /// The entries of the bin section in order, each as its name and path
    /// where those are strings.
    pub fn bin_entries(&self) -> (r: Vec<(Option<String>, Option<String>)>)
        requires
            self.wf(),
        ensures
            r@.len() == self@.len(),
            forall|i: int|
                0 <= i < r@.len() ==> (opt_text(#[trigger] r@[i].0), opt_text(r@[i].1))
                    == self@[i],
    {
        let bins = doc_array(&self.root, KEY_BIN);
        let n = bins.len();
        let mut out: Vec<(Option<String>, Option<String>)> = Vec::new();
        let mut i: usize = 0;
        while i < n
            invariant
                n == self@.len(),
                self.wf(),
                tables(*bins) == doc_arrays(self.root)[KEY_BIN@],
                i <= n,
                out@.len() == i,
                forall|j: int|
                    0 <= j < i ==> (opt_text(#[trigger] out@[j].0), opt_text(out@[j].1))
                        == self@[j],
            decreases n - i,
        {
            let name = table_str_at(bins, i, KEY_BIN_NAME);
            let path = table_str_at(bins, i, KEY_BIN_PATH);
            out.push((name, path));
            i = i + 1;
        }
        out
    }

    /// The lowest index of a record whose name is `name` or whose path is
    /// `path`.
    pub fn find_bin(&self, name: &str, path: &str) -> (r: Option<usize>)
        requires
            self.wf(),
        ensures
            match r {
                Some(i) => is_first_match(self@, name@, path@, i as int),
                None => !any_match(self@, name@, path@),
            },
    {
        let bins = doc_array(&self.root, KEY_BIN);
        let n = bins.len();
        let name_s = name.to_owned();
        let path_s = path.to_owned();
        let mut i: usize = 0;
        while i < n
            invariant
                n == self@.len(),
                self.wf(),
                tables(*bins) == doc_arrays(self.root)[KEY_BIN@],
                name_s@ == name@,
                path_s@ == path@,
                i <= n,
                forall|j: int| 0 <= j < i ==> !is_match(#[trigger] self@[j], name@, path@),
            decreases n - i,
        {
            if let Some(v) = table_str_at(bins, i, KEY_BIN_NAME) {
                if v == name_s {
                    return Some(i);
                }
            }
            if let Some(v) = table_str_at(bins, i, KEY_BIN_PATH) {
                if v == path_s {
                    return Some(i);
                }
            }
            i = i + 1;
        }
        None
    }

    /// Whether some record has the name `name` or the path `path`.
    pub fn has_bin(&self, name: &str, path: &str) -> (r: bool)
        requires
            self.wf(),
        ensures
            r == any_match(self@, name@, path@),
    {
        match self.find_bin(name, path) {
            Some(i) => {
                proof {
                    lemma_first_match_is(self@, name@, path@, i as int);
                }
                true
            },
            None => false,
        }
    }

    /// Removes the first record whose name is `name` or whose path is `path`;
    /// says whether there was one.
    pub fn remove_bin(&mut self, name: &str, path: &str) -> (r: bool)
        requires
            old(self).wf(),
        ensures
            final(self).wf(),
            final(self).file_path_view() == old(self).file_path_view(),
            final(self).others() == old(self).others(),
            r == any_match(old(self)@, name@, path@),
            final(self)@ == removed(old(self)@, name@, path@),
            !r ==> *final(self) == *old(self),
    {
        match self.find_bin(name, path) {
            Some(index) => {
                proof {
                    lemma_first_match_is(self@, name@, path@, index as int);
                }
                self.remove_at(index);
                true
            },
            None => false,
        }
    }

    /// Removes the record at `index`.
    fn remove_at(&mut self, index: usize)
        requires
            old(self).wf(),
            index < old(self)@.len(),
        ensures
            final(self).wf(),
            final(self).path == old(self).path,
            final(self).others() == old(self).others(),
            final(self)@ == old(self)@.remove(index as int),
    {
        let ghost before = doc_arrays(self.root)[KEY_BIN@];
        let ghost arrays = doc_arrays(self.root);
        doc_array_mut(&mut self.root, KEY_BIN).remove(index);
        assert(doc_arrays(self.root).remove(KEY_BIN@) =~= arrays.remove(KEY_BIN@));
        assert(doc_arrays(self.root)[KEY_BIN@] == before.remove(index as int));
        assert(records_of(before.remove(index as int)) =~= records_of(before).remove(index as int));
    }

    /// Adds the record `(name, path)` after removing every record whose name
    /// is `name` or whose path is `path`. Refuses an empty name or path.
    pub fn add_bin(&mut self, name: &str, path: &str) -> (r: Result<(), BinError>)
        requires
            old(self).wf(),
        ensures
            final(self).wf(),
            final(self).file_path_view() == old(self).file_path_view(),
            final(self).others() == old(self).others(),
            name@.len() == 0 ==> r == Err::<(), BinError>(BinError::EmptyName),
            name@.len() > 0 && path@.len() == 0 ==> r == Err::<(), BinError>(BinError::EmptyPath),
            r is Err ==> *final(self) == *old(self),
            name@.len() > 0 && path@.len() > 0 ==> r is Ok && final(self)@ == added(
                old(self)@,
                name@,
                path@,
            ),
    {
        if name.is_empty() {
            return Err(BinError::EmptyName);
        }
        if path.is_empty() {
            return Err(BinError::EmptyPath);
        }
        let ghost start = self@;
        let name_s = name.to_owned();
        let path_s = path.to_owned();
        // Every colliding record leaves; the others keep their order.
        let mut i: usize = 0;
        let ghost mut k: int = 0;
        while i < doc_array(&self.root, KEY_BIN).len()
            invariant
                self.wf(),
                self.path == old(self).path,
                self.others() == old(self).others(),
                name_s@ == name@,
                path_s@ == path@,
                0 <= k <= start.len(),
                i == purged(start.take(k), name@, path@).len(),
                self@ == purged(start.take(k), name@, path@) + start.skip(k),
            decreases start.len() - k,
        {
            proof {
                lemma_purged_take_step(start, name@, path@, k);
                assert(self@[i as int] == start[k]);
            }
            let bins = doc_array(&self.root, KEY_BIN);
            let mut collides = false;
            if let Some(v) = table_str_at(bins, i, KEY_BIN_NAME) {
                if v == name_s {
                    collides = true;
                }
            }
            if let Some(v) = table_str_at(bins, i, KEY_BIN_PATH) {
                if v == path_s {
                    collides = true;
                }
            }
            assert(collides == is_match(start[k], name@, path@));
            if collides {
                self.remove_at(i);
                assert(self@ =~= purged(start.take(k + 1), name@, path@) + start.skip(k + 1));
            } else {
                assert(self@ =~= purged(start.take(k + 1), name@, path@) + start.skip(k + 1));
                i = i + 1;
            }
            proof {
                k = k + 1;
            }
        }
        assert(start.take(k) =~= start);
        assert(self@ =~= purged(start, name@, path@));
        let mut table = Table::new();
        // A new record follows the previous entry directly, with no blank line.
        table_set_prefix(&mut table, "");
        table_set_str(&mut table, KEY_BIN_NAME, name);
        table_set_str(&mut table, KEY_BIN_PATH, path);
        proof {
            reveal_strlit("name");
            reveal_strlit("path");
            assert(KEY_BIN_NAME@[0] != KEY_BIN_PATH@[0]);
        }
        let ghost before = doc_arrays(self.root)[KEY_BIN@];
        let ghost arrays = doc_arrays(self.root);
        doc_array_mut(&mut self.root, KEY_BIN).push(table);
        assert(doc_arrays(self.root).remove(KEY_BIN@) =~= arrays.remove(KEY_BIN@));
        assert(records_of(before.push(table_strs(table))) =~= records_of(before).push(
            record_of(table_strs(table)),
        ));
        Ok(())
    }

    /// The document as TOML text, untouched regions as they were read.
    pub fn to_string(&self) -> String {
        render_document(&self.root)
    }
}

} // verus!
