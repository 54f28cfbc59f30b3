//! The decisions of the `add` and `new` commands, on the in-memory manifest
//! and on facts about the disk handed in as plain values.
use crate::bin_info::{bin_name, get_bin_info, relative_path, BinInfo};
use crate::error::BinError;
use crate::manifest::Manifest;
use crate::records::{added, any_match};
use vstd::prelude::*;

verus! {

/// The arguments of the `add` command.
pub struct AddArgs {
    /// The absolute path of the binary's source file.
    pub bin_path: String,
    /// The absolute path of the project root.
    pub root_path: String,
    /// Replace records that collide with the new one.
    pub force: bool,
    /// Compute and report, but do not write the manifest.
    pub dry_run: bool,
    /// Report more.
    pub verbose: bool,
}

/// What the `add` command did to the manifest.
pub enum AddOutcome {
    /// A record collides and replacing was not asked for: nothing changed.
    Skipped(BinInfo),
    /// The record was added; `replaced` says whether colliding records left.
    Added(BinInfo, bool),
}

/// Adds the record derived from `args.bin_path` to the manifest, unless a
/// record collides with it and `args.force` is unset.
pub fn add_binaries(manifest: &mut Manifest, args: &AddArgs) -> (r: Result<AddOutcome, BinError>)
    requires
        old(manifest).wf(),
    ensures
        final(manifest).wf(),
        final(manifest).file_path_view() == old(manifest).file_path_view(),
        final(manifest).others() == old(manifest).others(),
        match relative_path(args.bin_path@, args.root_path@) {
            None => r == Err::<AddOutcome, BinError>(BinError::OutOfTree) && *final(manifest)
                == *old(manifest),
            Some(rel) => {
                let name = bin_name(rel);
                let collides = any_match(old(manifest)@, name, rel);
                if collides && !args.force {
                    r matches Ok(AddOutcome::Skipped(info)) && info.name@ == name && info.path@
                        == rel && *final(manifest) == *old(manifest)
                } else if name.len() == 0 {
                    r == Err::<AddOutcome, BinError>(BinError::EmptyName) && *final(manifest)
                        == *old(manifest)
                } else {
                    r matches Ok(AddOutcome::Added(info, replaced)) && info.name@ == name
                        && info.path@ == rel && replaced == collides && final(manifest)@ == added(
                        old(manifest)@,
                        name,
                        rel,
                    )
                }
            },
        },
{
    let info = match get_bin_info(args.bin_path.as_str(), args.root_path.as_str()) {
        Ok(info) => info,
        Err(e) => return Err(e),
    };
    let collides = manifest.has_bin(info.name.as_str(), info.path.as_str());
    if collides && !args.force {
        return Ok(AddOutcome::Skipped(info));
    }
    match manifest.add_bin(info.name.as_str(), info.path.as_str()) {
        Ok(()) => Ok(AddOutcome::Added(info, collides)),
        Err(e) => Err(e),
    }
}

/// Decides whether a new binary's source file may be written: an existing
/// target must be a file, and is overwritten only with `force`.
pub fn check_new_target(exists: bool, is_file: bool, force: bool) -> (r: Result<(), BinError>)
    ensures
        r == if exists && !is_file {
            Err::<(), BinError>(BinError::NotAFile)
        } else if exists && !force {
            Err(BinError::AlreadyExists)
        } else {
            Ok(())
        },
{
    if exists {
        if !is_file {
            return Err(BinError::NotAFile);
        }
        if !force {
            return Err(BinError::AlreadyExists);
        }
    }
    Ok(())
}

} // verus!
