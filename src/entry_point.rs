//! Entry-point detection: whether Rust source text defines a top-level
//! `fn main`, decided on the syntax tree that `syn` parses, not on the text.
use crate::error::BinError;
use crate::manifest::opt_text;
use vstd::prelude::*;

verus! {

#[verifier::external_type_specification]
#[verifier::external_body]
pub struct ExFile(syn::File);

#[verifier::external_type_specification]
#[verifier::external_body]
pub struct ExSynError(syn::Error);

/// The name of the entry-point function.
pub const MAIN_FN: &'static str = "main";

/// The top-level items of a parsed file, in order: each function item as its
/// name, every other item as `None`.
pub uninterp spec fn item_fn_names(f: syn::File) -> Seq<Option<Seq<char>>>;

/// What `syn` parses from source text, as the top-level items named like
/// `item_fn_names`; `None` where the text is not a Rust file.
pub uninterp spec fn parsed_fn_names(text: Seq<char>) -> Option<Seq<Option<Seq<char>>>>;

/// Relies on `syn::parse_file`: it parses Rust source text into its items, or
/// fails where the text is not a Rust file.
#[verifier::external_body]
fn parse_source(text: &str) -> (r: Result<syn::File, syn::Error>)
    ensures
        match r {
            Ok(f) => parsed_fn_names(text@) == Some(item_fn_names(f)),
            Err(_) => parsed_fn_names(text@) is None,
        },
{
    syn::parse_file(text)
}

/// Relies on the `items` of `syn::File` and `Display` of `proc_macro2::Ident`:
/// the name of each function item, `None` for the other items.
#[verifier::external_body]
fn fn_item_names(file: &syn::File) -> (r: Vec<Option<String>>)
    ensures
        r@.map_values(|o: Option<String>| opt_text(o)) == item_fn_names(*file),
{
    file.items.iter().map(|item| match item {
        syn::Item::Fn(f) => Some(f.sig.ident.to_string()),
        _ => None,
    }).collect()
}

/// Some item is a function named `main`.
pub open spec fn has_main_fn(names: Seq<Option<Seq<char>>>) -> bool {
    exists|i: int| 0 <= i < names.len() && #[trigger] names[i] == Some(MAIN_FN@)
}

/// Whether a parsed file has a top-level function named `main`.
pub fn file_has_main(file: &syn::File) -> (r: bool)
    ensures
        r == has_main_fn(item_fn_names(*file)),
{
    let names = fn_item_names(file);
    let ghost view = names@.map_values(|o: Option<String>| opt_text(o));
    let main_s = MAIN_FN.to_owned();
    let mut i: usize = 0;
    while i < names.len()
        invariant
            view == names@.map_values(|o: Option<String>| opt_text(o)),
            view == item_fn_names(*file),
            main_s@ == MAIN_FN@,
            i <= names@.len(),
            forall|j: int| 0 <= j < i ==> #[trigger] view[j] != Some(MAIN_FN@),
        decreases names@.len() - i,
    {
        if let Some(n) = &names[i] {
            if *n == main_s {
                assert(view[i as int] == Some(MAIN_FN@));
                return true;
            }
        }
        assert(view[i as int] != Some(MAIN_FN@));
        i = i + 1;
    }
    false
}

/// Whether source text defines a top-level function named `main`; refused
/// where the text is not a Rust file.
pub fn contains_main(content: &str) -> (r: Result<bool, BinError>)
    ensures
        match parsed_fn_names(content@) {
            Some(names) => r == Ok::<bool, BinError>(has_main_fn(names)),
            None => r == Err::<bool, BinError>(BinError::ParseSource),
        },
{
    match parse_source(content) {
        Ok(file) => Ok(file_has_main(&file)),
        Err(_) => Err(BinError::ParseSource),
    }
}

} // verus!
