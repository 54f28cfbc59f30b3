//! Name derivation: from a discovered file's path and the project root to the
//! record `(name, path)`, and the completion of a user-given binary path.
use crate::error::BinError;
use vstd::prelude::*;

verus! {

/// The conventional source folder, stripped from the front of names.
pub const DEFAULT_DIR: &'static str = "src";

/// The source-file extension.
pub const SOURCE_EXT: &'static str = ".rs";

/// The path separator.
pub const SEPARATOR: char = '/';

/// The character that stands for a separator in a name.
pub const NAME_DELIMITER: char = '-';

/// A record to be: its name and its project-relative path.
#[derive(Debug, PartialEq, Eq)]
pub struct BinInfo {
    pub name: String,
    pub path: String,
}

/// `s` begins with `p`.
pub open spec fn has_prefix(s: Seq<char>, p: Seq<char>) -> bool {
    p.len() <= s.len() && s.take(p.len() as int) == p
}

/// `s` ends with `p`.
pub open spec fn has_suffix(s: Seq<char>, p: Seq<char>) -> bool {
    p.len() <= s.len() && s.skip(s.len() - p.len()) == p
}

/// The path of `file` relative to `root`, where `file` lies strictly under it.
pub open spec fn relative_path(file: Seq<char>, root: Seq<char>) -> Option<Seq<char>> {
    if !has_prefix(file, root) {
        None
    } else {
        let rest = file.skip(root.len() as int);
        if rest.len() > 1 && rest[0] == SEPARATOR {
            Some(rest.skip(1))
        } else if root.len() > 0 && root.last() == SEPARATOR && rest.len() > 0 {
            Some(rest)
        } else {
            None
        }
    }
}

/// A relative path with its leading default-folder segment taken off.
pub open spec fn strip_default_dir(rel: Seq<char>) -> Seq<char> {
    let dir = DEFAULT_DIR@.push(SEPARATOR);
    if has_prefix(rel, dir) {
        rel.skip(dir.len() as int)
    } else {
        rel
    }
}

/// A path with its source extension taken off.
pub open spec fn strip_ext(s: Seq<char>) -> Seq<char> {
    if has_suffix(s, SOURCE_EXT@) {
        s.take(s.len() - SOURCE_EXT@.len())
    } else {
        s
    }
}

/// Every separator replaced by the name delimiter.
pub open spec fn flatten(s: Seq<char>) -> Seq<char> {
    s.map_values(|c: char| if c == SEPARATOR { NAME_DELIMITER } else { c })
}

/// The record name for a project-relative path.
pub open spec fn bin_name(rel: Seq<char>) -> Seq<char> {
    flatten(strip_ext(strip_default_dir(rel)))
}

fn starts_with(s: &str, p: &str) -> (r: bool)
    ensures
        r == has_prefix(s@, p@),
{
    let n = s.unicode_len();
    let m = p.unicode_len();
    if m > n {
        return false;
    }
    let mut i: usize = 0;
    while i < m
        invariant
            n == s@.len(),
            m == p@.len(),
            m <= n,
            i <= m,
            forall|j: int| 0 <= j < i ==> s@[j] == p@[j],
        decreases m - i,
    {
        if s.get_char(i) != p.get_char(i) {
            assert(s@.take(m as int)[i as int] != p@[i as int]);
            return false;
        }
        i = i + 1;
    }
    assert(s@.take(m as int) =~= p@);
    true
}

fn ends_with(s: &str, p: &str) -> (r: bool)
    ensures
        r == has_suffix(s@, p@),
{
    let n = s.unicode_len();
    let m = p.unicode_len();
    if m > n {
        return false;
    }
    let tail = s.substring_char(n - m, n);
    let r = starts_with(tail, p);
    assert(tail@.take(m as int) =~= tail@);
    r
}

/// `s` with every separator replaced by the name delimiter.
fn flatten_separators(s: &str) -> (r: String)
    ensures
        r@ == flatten(s@),
{
    let n = s.unicode_len();
    let mut out = String::new();
    let mut start: usize = 0;
    let mut i: usize = 0;
    while i < n
        invariant
            n == s@.len(),
            start <= i <= n,
            out@ + s@.subrange(start as int, i as int) == flatten(s@).take(i as int),
            forall|j: int| start <= j < i ==> s@[j] != SEPARATOR,
        decreases n - i,
    {
        if s.get_char(i) == SEPARATOR {
            let piece = s.substring_char(start, i);
            let ghost before = out@;
            out.append(piece);
            proof {
                reveal_strlit("-");
            }
            out.append("-");
            assert(out@ =~= before + s@.subrange(start as int, i as int) + seq![NAME_DELIMITER]);
            assert(flatten(s@).take(i as int + 1) =~= flatten(s@).take(i as int).push(
                NAME_DELIMITER,
            ));
            start = i + 1;
            i = i + 1;
            assert(s@.subrange(start as int, i as int) =~= Seq::<char>::empty());
            assert(out@ + s@.subrange(start as int, i as int) =~= flatten(s@).take(i as int));
        } else {
            assert(s@.subrange(start as int, i as int + 1) =~= s@.subrange(start as int, i as int).push(s@[i as int]));
            assert(flatten(s@).take(i as int + 1) =~= flatten(s@).take(i as int).push(s@[i as int]));
            i = i + 1;
        }
    }
    let piece = s.substring_char(start, n);
    out.append(piece);
    assert(flatten(s@).take(n as int) =~= flatten(s@));
    out
}

/// Completes a binary path given by the user: the source extension is
/// appended where it is missing. An empty path is refused.
pub fn get_bin_path(path: String) -> (r: Result<String, BinError>)
    ensures
        path@.len() == 0 ==> r == Err::<String, BinError>(BinError::EmptyPath),
        path@.len() > 0 ==> r is Ok && r->Ok_0@ == if has_suffix(path@, SOURCE_EXT@) {
            path@
        } else {
            path@ + SOURCE_EXT@
        },
{
    let mut path = path;
    if path.as_str().is_empty() {
        return Err(BinError::EmptyPath);
    }
    if !ends_with(path.as_str(), SOURCE_EXT) {
        path.append(SOURCE_EXT);
    }
    Ok(path)
}

/// Derives the record of a file under the project root: its path relative to
/// the root, and a name made from that path with the default folder and the
/// source extension taken off and separators flattened. A file outside the
/// root is refused.
pub fn get_bin_info(bin_path: &str, root_path: &str) -> (r: Result<BinInfo, BinError>)
    ensures
        match relative_path(bin_path@, root_path@) {
            Some(rel) => r is Ok && r->Ok_0.path@ == rel && r->Ok_0.name@ == bin_name(rel),
            None => r == Err::<BinInfo, BinError>(BinError::OutOfTree),
        },
{
    if !starts_with(bin_path, root_path) {
        return Err(BinError::OutOfTree);
    }
    let n = bin_path.unicode_len();
    let m = root_path.unicode_len();
    let rest = bin_path.substring_char(m, n);
    assert(rest@ == bin_path@.skip(m as int));
    let rest_len = n - m;
    let root_slash = m > 0 && root_path.get_char(m - 1) == SEPARATOR;
    let rel = if rest_len > 1 && rest.get_char(0) == SEPARATOR {
        rest.substring_char(1, rest_len)
    } else if root_slash && rest_len > 0 {
        rest
    } else {
        return Err(BinError::OutOfTree);
    };
    assert(rest@.skip(1) =~= rest@.subrange(1, rest_len as int));
    let rel_len = rel.unicode_len();
    let mut dir = DEFAULT_DIR.to_owned();
    proof {
        reveal_strlit("/");
    }
    dir.append("/");
    assert(dir@ =~= DEFAULT_DIR@.push(SEPARATOR));
    assert(rel@.skip(dir@.len() as int) =~= rel@.subrange(dir@.len() as int, rel_len as int));
    let stem = if starts_with(rel, dir.as_str()) {
        rel.substring_char(dir.as_str().unicode_len(), rel_len)
    } else {
        rel
    };
    assert(stem@ == strip_default_dir(rel@));
    let stem_len = stem.unicode_len();
    assert(stem@.take(stem_len - SOURCE_EXT@.len()) =~= stem@.subrange(0, stem_len - SOURCE_EXT@.len()));
    let base = if ends_with(stem, SOURCE_EXT) {
        stem.substring_char(0, stem_len - SOURCE_EXT.unicode_len())
    } else {
        stem
    };
    let name = flatten_separators(base);
    Ok(BinInfo { name, path: rel.to_owned() })
}

} // verus!
