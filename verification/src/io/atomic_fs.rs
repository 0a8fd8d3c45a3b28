//! Which files may be replaced, and how often that is tried.

use vstd::prelude::*;
use vstd::string::*;

use crate::io::error::{IoError, IoKind};
use crate::text;
use crate::text::contains;

verus! {

#[derive(Debug)]
pub enum AtomicFsError {
    UnsafePath(String),
    Io(IoError),
}

/// What an error says.
pub open spec fn atomic_error_text(e: AtomicFsError) -> Seq<char> {
    match e {
        AtomicFsError::UnsafePath(path) => "unsafe filesystem artifact: "@ + path@,
        AtomicFsError::Io(error) => error.message@,
    }
}

impl AtomicFsError {
    pub fn message(&self) -> (r: String)
        ensures
            r@ == atomic_error_text(*self),
    {
        match self {
            AtomicFsError::UnsafePath(path) => {
                let mut out = "unsafe filesystem artifact: ".to_owned();
                out.append(path.as_str());
                out
            },
            AtomicFsError::Io(error) => error.message.clone(),
        }
    }
}

/// What stands at a path, without following links.
#[derive(Debug, Clone, Copy, PartialEq, Eq, Structural)]
pub struct Artifact {
    pub symlink: bool,
    pub regular: bool,
    pub reparse_point: bool,
}

/// A plain file, reached without a detour.
pub open spec fn is_plain(a: Artifact) -> bool {
    !a.symlink && a.regular && !a.reparse_point
}

impl Artifact {
    pub fn plain(&self) -> (r: bool)
        ensures
            r == is_plain(*self),
    {
        !self.symlink && self.regular && !self.reparse_point
    }
}

/// The attribute by which the platform marks a reparse point.
pub const REPARSE_POINT: u32 = 0x400;

pub fn is_reparse_point(attributes: u32) -> (r: bool)
    ensures
        r == (attributes & REPARSE_POINT != 0),
{
    attributes & REPARSE_POINT != 0
}

/// A path at which a new file may be put: nothing stands there.
pub fn validate_absent_regular_target(
    path: &str,
    found: Result<Artifact, IoError>,
) -> (r: Result<(), AtomicFsError>)
    ensures
        match found {
            Ok(a) => if is_plain(a) {
                r matches Err(AtomicFsError::Io(e)) && e.kind == IoKind::AlreadyExists && e.message@
                    == "runtime artifact already exists: "@ + path@
            } else {
                r matches Err(AtomicFsError::UnsafePath(p)) && p@ == path@
            },
            Err(e) => if e.kind == IoKind::NotFound {
                r is Ok
            } else {
                r == Err::<(), AtomicFsError>(AtomicFsError::Io(e))
            },
        },
{
    match found {
        Ok(a) => {
            if !a.plain() {
                return Err(AtomicFsError::UnsafePath(path.to_owned()));
            }
            let mut message = "runtime artifact already exists: ".to_owned();
            message.append(path);
            Err(AtomicFsError::Io(IoError::new(IoKind::AlreadyExists, message)))
        },
        Err(e) => if e.kind == IoKind::NotFound {
            Ok(())
        } else {
            Err(AtomicFsError::Io(e))
        },
    }
}

/// A path whose file may be replaced: a plain file stands there.
pub fn validate_existing_regular_target(
    path: &str,
    found: Result<Artifact, IoError>,
) -> (r: Result<(), AtomicFsError>)
    ensures
        match found {
            Ok(a) => if is_plain(a) {
                r is Ok
            } else {
                r matches Err(AtomicFsError::UnsafePath(p)) && p@ == path@
            },
            Err(e) => r == Err::<(), AtomicFsError>(AtomicFsError::Io(e)),
        },
{
    match found {
        Ok(a) => if a.plain() {
            Ok(())
        } else {
            Err(AtomicFsError::UnsafePath(path.to_owned()))
        },
        Err(e) => Err(AtomicFsError::Io(e)),
    }
}

/// Whether a path is to be removed: a plain file is, and nothing need be done
/// where nothing stands.
pub fn remove_regular_file(path: &str, found: Result<Artifact, IoError>) -> (r: Result<
    bool,
    AtomicFsError,
>)
    ensures
        match found {
            Ok(a) => if is_plain(a) {
                r == Ok::<bool, AtomicFsError>(true)
            } else {
                r matches Err(AtomicFsError::UnsafePath(p)) && p@ == path@
            },
            Err(e) => if e.kind == IoKind::NotFound {
                r == Ok::<bool, AtomicFsError>(false)
            } else {
                r == Err::<bool, AtomicFsError>(AtomicFsError::Io(e))
            },
        },
{
    match found {
        Ok(a) => if a.plain() {
            Ok(true)
        } else {
            Err(AtomicFsError::UnsafePath(path.to_owned()))
        },
        Err(e) => if e.kind == IoKind::NotFound {
            Ok(false)
        } else {
            Err(AtomicFsError::Io(e))
        },
    }
}

/// A replacement of one file by another.
#[derive(Debug, Clone, PartialEq, Eq)]
pub struct AtomicReplacement {
    pub replacement: String,
    pub destination: String,
}

// ---------------------------------------------------------------------------
// Access lists
// ---------------------------------------------------------------------------

/// The mark of an access list that inherits nothing.
pub const DACL_PROTECTED: u16 = 0x1000;

/// The access list of a private directory: its owner, the system and the
/// administrators.
pub fn private_descriptor() -> (r: &'static str)
    ensures
        r@ == "D:P(A;OICI;FA;;;OW)(A;OICI;FA;;;SY)(A;OICI;FA;;;BA)"@,
{
    "D:P(A;OICI;FA;;;OW)(A;OICI;FA;;;SY)(A;OICI;FA;;;BA)"
}

/// The descriptor gives something to everybody, to those who are logged in, to
/// ordinary or interactive users, to the anonymous or to those from the network.
pub open spec fn names_broad_principal(descriptor: Seq<char>) -> bool {
    ||| text::contains_sub(descriptor, ";;;WD)"@)
    ||| text::contains_sub(descriptor, ";;;AU)"@)
    ||| text::contains_sub(descriptor, ";;;BU)"@)
    ||| text::contains_sub(descriptor, ";;;IU)"@)
    ||| text::contains_sub(descriptor, ";;;AN)"@)
    ||| text::contains_sub(descriptor, ";;;NU)"@)
}

/// Whether a directory is private: its access list is protected and names no
/// broad principal. `descriptor` is the text of the list.
pub fn verify_windows_directory_acl(path: &str, control: u16, descriptor: &str) -> (r: Result<
    (),
    AtomicFsError,
>)
    ensures
        if control & DACL_PROTECTED != 0 && !names_broad_principal(descriptor@) {
            r is Ok
        } else {
            r matches Err(AtomicFsError::UnsafePath(p)) && p@ == path@
        },
{
    if control & DACL_PROTECTED == 0 {
        return Err(AtomicFsError::UnsafePath(path.to_owned()));
    }
    if contains(descriptor, ";;;WD)") || contains(descriptor, ";;;AU)") || contains(
        descriptor,
        ";;;BU)",
    ) || contains(descriptor, ";;;IU)") || contains(descriptor, ";;;AN)") || contains(
        descriptor,
        ";;;NU)",
    ) {
        return Err(AtomicFsError::UnsafePath(path.to_owned()));
    }
    Ok(())
}

/// The platform's error number behind a result code, where it carries one.
pub fn platform_error_number(result: u32) -> (r: Option<i32>)
    ensures
        r == (if result & 0xffff_0000 == 0x8007_0000 {
            Some((result & 0xffff) as i32)
        } else {
            None::<i32>
        }),
{
    if result & 0xffff_0000 == 0x8007_0000 {
        Some((result & 0xffff) as i32)
    } else {
        None
    }
}

// ---------------------------------------------------------------------------
// Trying again
// ---------------------------------------------------------------------------

/// How often a replacement is tried while another process holds the file.
pub const REPLACE_ATTEMPTS: u32 = 20;

/// Milliseconds between two attempts.
pub const REPLACE_PAUSE_MILLIS: u64 = 25;

/// Access denied, or the file or a part of it is in use.
pub open spec fn is_contention(code: Option<i32>) -> bool {
    code == Some(5i32) || code == Some(32i32) || code == Some(33i32)
}

/// Whether a replacement is tried again after attempt number `attempt`, counted
/// from zero, failed.
pub fn replace_again(attempt: u32, error: &AtomicFsError) -> (r: bool)
    ensures
        r == (attempt + 1 < REPLACE_ATTEMPTS && (error matches AtomicFsError::Io(e)
            && is_contention(e.code))),
{
    let contention = match error {
        AtomicFsError::Io(e) => match e.code {
            Some(code) => code == 5 || code == 32 || code == 33,
            None => false,
        },
        AtomicFsError::UnsafePath(_) => false,
    };
    contention && attempt < REPLACE_ATTEMPTS - 1
}

/// An access list that gives something to a broad principal is found out, wherever it
/// does so.
pub proof fn law_broad_principals_are_found(before: Seq<char>, behind: Seq<char>)
    ensures
        names_broad_principal(before + ";;;WD)"@ + behind),
        names_broad_principal(before + ";;;AU)"@ + behind),
        names_broad_principal(before + ";;;BU)"@ + behind),
        names_broad_principal(before + ";;;IU)"@ + behind),
        names_broad_principal(before + ";;;AN)"@ + behind),
        names_broad_principal(before + ";;;NU)"@ + behind),
{
    lemma_found_between(before, ";;;WD)"@, behind);
    lemma_found_between(before, ";;;AU)"@, behind);
    lemma_found_between(before, ";;;BU)"@, behind);
    lemma_found_between(before, ";;;IU)"@, behind);
    lemma_found_between(before, ";;;AN)"@, behind);
    lemma_found_between(before, ";;;NU)"@, behind);
}

proof fn lemma_found_between(before: Seq<char>, mark: Seq<char>, behind: Seq<char>)
    ensures
        text::contains_sub(before + mark + behind, mark),
{
    let s = before + mark + behind;
    let n = before.len() as int;
    assert(s.subrange(n, n + mark.len()) =~= mark);
    assert(text::matches_at(s, mark, n));
    text::lemma_find_sub_bounds(s, mark, 0);
}

/// A replacement is tried again only where access was denied or the file, or a part of
/// it, was in use.
pub proof fn law_held_files_are_tried_again(code: i32)
    ensures
        is_contention(Some(code)) <==> code == 5 || code == 32 || code == 33,
        !is_contention(None),
{
}

/// A plain file is one that is reached without a link.
pub proof fn law_plain_files(a: Artifact)
    ensures
        is_plain(a) <==> a.regular && !a.symlink && !a.reparse_point,
{
}

} // verus!
