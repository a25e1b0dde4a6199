//! The shape a plugin package on disk must have: only package
//! directories under the plugin root, no links or special files inside a
//! package, and bounded nesting, file count and size.
use vstd::prelude::*;

use super::error::{is_invalid_package, PluginError};
use crate::text::chars_of;

verus! {

/// The largest manifest, component and package, in bytes, the most files
/// in a package, and the deepest directory nesting inside one.
pub const MAX_MANIFEST_BYTES: u64 = 1048576;

pub const MAX_COMPONENT_BYTES: u64 = 67108864;

pub const MAX_PACKAGE_BYTES: u64 = 83886080;

pub const MAX_PACKAGE_FILES: usize = 64;

pub const MAX_PACKAGE_DEPTH: usize = 8;

/// What a directory entry is, without following links.
#[derive(Debug, Clone, Copy, PartialEq, Eq)]
pub enum EntryKind {
    Directory,
    File,
    Symlink,
    Special,
}

/// An entry of the plugin root is a package when it is a directory; hidden
/// entries are passed over, and anything else is refused.
pub fn root_entry_is_package(name: &str, kind: EntryKind) -> (result: Result<bool, PluginError>)
    ensures
        name@.len() > 0 && name@[0] == '.' ==> result == Ok::<bool, PluginError>(false),
        !(name@.len() > 0 && name@[0] == '.') && kind == EntryKind::Directory ==> result == Ok::<
            bool,
            PluginError,
        >(true),
        !(name@.len() > 0 && name@[0] == '.') && kind != EntryKind::Directory ==> (result matches Err(
            e,
        ) && is_invalid_package(e, "plugin directory may contain only package directories"@)),
{
    let c = chars_of(name);
    if c.len() > 0 && c[0] == '.' {
        return Ok(false);
    }
    match kind {
        EntryKind::Directory => Ok(true),
        _ => Err(PluginError::invalid("plugin directory may contain only package directories")),
    }
}

/// A directory of a package at `depth` below the package root is walked
/// only up to the nesting limit.
pub fn check_package_depth(depth: usize) -> (result: Result<(), PluginError>)
    ensures
        depth <= MAX_PACKAGE_DEPTH ==> result is Ok,
        depth > MAX_PACKAGE_DEPTH ==> (result matches Err(e) && is_invalid_package(
            e,
            "plugin package is too deeply nested"@,
        )),
{
    if depth > MAX_PACKAGE_DEPTH {
        return Err(PluginError::invalid("plugin package is too deeply nested"));
    }
    Ok(())
}

/// The files and bytes of a package seen so far, each count saturating.
#[derive(Debug, Clone, Copy, PartialEq, Eq)]
pub struct PackageTally {
    pub files: usize,
    pub bytes: u64,
}

pub open spec fn saturating_usize(x: int) -> usize {
    if x > usize::MAX {
        usize::MAX
    } else {
        x as usize
    }
}

pub open spec fn saturating_u64(x: int) -> u64 {
    if x > u64::MAX {
        u64::MAX
    } else {
        x as u64
    }
}

/// The tally after one more entry of a package: links and special files
/// are refused, a file counts with its length, and the limits hold after
/// every entry.
pub fn tally_package_entry(tally: PackageTally, kind: EntryKind, len: u64) -> (result: Result<
    PackageTally,
    PluginError,
>)
    ensures
        kind == EntryKind::Symlink ==> (result matches Err(e) && is_invalid_package(
            e,
            "plugin packages cannot contain symlinks"@,
        )),
        kind == EntryKind::Special ==> (result matches Err(e) && is_invalid_package(
            e,
            "plugin package contains a special file"@,
        )),
        kind == EntryKind::Directory || kind == EntryKind::File ==> {
            let after = if kind == EntryKind::File {
                PackageTally {
                    files: saturating_usize(tally.files + 1),
                    bytes: saturating_u64(tally.bytes + len),
                }
            } else {
                tally
            };
            if after.files > MAX_PACKAGE_FILES || after.bytes > MAX_PACKAGE_BYTES {
                result matches Err(e) && is_invalid_package(e, "plugin package exceeds size limits"@)
            } else {
                result == Ok::<PackageTally, PluginError>(after)
            }
        },
{
    let after = match kind {
        EntryKind::Symlink => {
            return Err(PluginError::invalid("plugin packages cannot contain symlinks"));
        },
        EntryKind::Special => {
            return Err(PluginError::invalid("plugin package contains a special file"));
        },
        EntryKind::Directory => tally,
        EntryKind::File => PackageTally {
            files: tally.files.saturating_add(1),
            bytes: tally.bytes.saturating_add(len),
        },
    };
    if after.files > MAX_PACKAGE_FILES || after.bytes > MAX_PACKAGE_BYTES {
        return Err(PluginError::invalid("plugin package exceeds size limits"));
    }
    Ok(after)
}

/// The refusal of an unusable manifest or component: `plugin <what> is
/// invalid`.
pub open spec fn invalid_file_message(what: Seq<char>) -> Seq<char> {
    "plugin "@ + what + " is invalid"@
}

/// A manifest or component must be a regular file, not a link, of at
/// most `maximum` bytes.
pub fn check_regular_file(kind: EntryKind, len: u64, maximum: u64, what: &str) -> (result: Result<
    (),
    PluginError,
>)
    ensures
        kind == EntryKind::File && len <= maximum ==> result is Ok,
        !(kind == EntryKind::File && len <= maximum) ==> (result matches Err(e) && is_invalid_package(
            e,
            invalid_file_message(what@),
        )),
{
    let regular = match kind {
        EntryKind::File => true,
        _ => false,
    };
    if !regular || len > maximum {
        let mut message = "plugin ".to_owned();
        message.append(what);
        message.append(" is invalid");
        return Err(PluginError::InvalidPackage(message));
    }
    Ok(())
}

/// No two discovered packages may declare the same plugin id.
pub fn ensure_distinct_ids(ids: &Vec<String>) -> (result: Result<(), PluginError>)
    ensures
        (forall|p: int, q: int| 0 <= q < p < ids@.len() ==> #[trigger] ids@[p]@ != #[trigger] ids@[q]@)
            ==> result is Ok,
        !(forall|p: int, q: int| 0 <= q < p < ids@.len() ==> #[trigger] ids@[p]@ != #[trigger] ids@[q]@)
            ==> (result matches Err(e) && is_invalid_package(e, "duplicate plugin id"@)),
{
    let mut p: usize = 0;
    while p < ids.len()
        invariant
            p <= ids@.len(),
            forall|a: int, q: int| 0 <= q < a < p ==> #[trigger] ids@[a]@ != #[trigger] ids@[q]@,
        decreases ids.len() - p,
    {
        let id = chars_of(ids[p].as_str());
        let mut q: usize = 0;
        while q < p
            invariant
                id@ == ids@[p as int]@,
                p < ids@.len(),
                q <= p,
                forall|k: int| 0 <= k < q ==> #[trigger] ids@[k]@ != ids@[p as int]@,
            decreases p - q,
        {
            if crate::text::chars_eq_str(id.as_slice(), ids[q].as_str()) {
                assert(ids@[p as int]@ == ids@[q as int]@);
                return Err(PluginError::invalid("duplicate plugin id"));
            }
            q = q + 1;
        }
        p = p + 1;
    }
    Ok(())
}

} // verus!
