//! The files that the manager keeps for its epochs: their names, which epoch one
//! belongs to, and when one may be installed.

use vstd::prelude::*;
use vstd::string::*;

use crate::config::endpoint;
use crate::error::Error;
use crate::io::atomic_fs as fs;
use crate::io::atomic_fs::Artifact;
use crate::io::error::{IoError, IoKind};
use crate::path;
use crate::path::{file_name, join, parent, same_path};
use crate::platform::Platform;
use crate::text;
use crate::text::{
    parse_u64, split_at_first, starts_with, strip_prefix, strip_suffix, u64_to_string,
};

verus! {

// ---------------------------------------------------------------------------
// Names
// ---------------------------------------------------------------------------

/// The name of the configuration of an epoch.
pub open spec fn config_name(epoch: u64) -> Seq<char> {
    "config-"@ + text::decimal(epoch as nat) + ".yaml"@
}

/// The name of the pid record of an epoch.
pub open spec fn pid_name(epoch: u64) -> Seq<char> {
    "core-"@ + text::decimal(epoch as nat) + ".pid"@
}

/// What the names of the backups of a configuration begin with.
pub open spec fn backup_prefix(epoch: u64) -> Seq<char> {
    "config-"@ + text::decimal(epoch as nat) + ".yaml.backup-"@
}

/// What the names of configurations that are not installed yet begin with.
pub open spec fn staged_prefix(epoch: u64) -> Seq<char> {
    ".config-"@ + text::decimal(epoch as nat) + ".yaml.tmp-"@
}

/// What the names of pid records that are not installed yet begin with.
pub open spec fn pid_temp_prefix(epoch: u64) -> Seq<char> {
    "core-"@ + text::decimal(epoch as nat) + ".pid.tmp-"@
}

fn named(head: &str, epoch: u64, tail: &str) -> (r: String)
    ensures
        r@ == head@ + text::decimal(epoch as nat) + tail@,
{
    let mut out = head.to_owned();
    out.append(u64_to_string(epoch).as_str());
    out.append(tail);
    out
}

/// The epoch that a part of a name stands for.
pub open spec fn epoch_of(part: Option<Seq<char>>) -> Option<u64> {
    match part {
        Some(s) => match text::unsigned_value(s, u64::MAX as nat) {
            Some(n) => Some(n as u64),
            None => None,
        },
        None => None,
    }
}

pub open spec fn between(name: Seq<char>, head: Seq<char>, tail: Seq<char>) -> Option<Seq<char>> {
    match text::after_prefix(name, head) {
        Some(rest) => text::before_suffix(rest, tail),
        None => None,
    }
}

/// What stands between the head and the first occurrence of the mark.
pub open spec fn up_to(name: Seq<char>, head: Seq<char>, mark: Seq<char>) -> Option<Seq<char>> {
    match text::after_prefix(name, head) {
        Some(rest) => match text::split_once(rest, mark) {
            Some((before, _)) => Some(before),
            None => None,
        },
        None => None,
    }
}

pub open spec fn first_some(a: Option<Seq<char>>, b: Option<Seq<char>>) -> Option<Seq<char>> {
    match a {
        Some(_) => a,
        None => b,
    }
}

/// The part of a name that holds the epoch.
pub open spec fn epoch_part(name: Seq<char>) -> Option<Seq<char>> {
    first_some(
        between(name, "core-"@, ".pid"@),
        first_some(
            between(name, "core-"@, ".sock"@),
            first_some(
                between(name, "config-"@, ".yaml"@),
                first_some(
                    up_to(name, "config-"@, ".yaml.backup-"@),
                    first_some(
                        up_to(name, ".config-"@, ".yaml.tmp-"@),
                        up_to(name, "core-"@, ".pid.tmp-"@),
                    ),
                ),
            ),
        ),
    )
}

fn find_between(name: &str, head: &str, tail: &str) -> (r: Option<String>)
    ensures
        path::part(r) == between(name@, head@, tail@),
{
    match strip_prefix(name, head) {
        Some(rest) => strip_suffix(rest.as_str(), tail),
        None => None,
    }
}

fn find_up_to(name: &str, head: &str, mark: &str) -> (r: Option<String>)
    ensures
        path::part(r) == up_to(name@, head@, mark@),
{
    match strip_prefix(name, head) {
        Some(rest) => match split_at_first(rest.as_str(), mark) {
            Some((before, _)) => Some(before),
            None => None,
        },
        None => None,
    }
}

/// The epoch that a file of the runtime directory belongs to.
pub fn artifact_epoch(name: &str) -> (r: Option<u64>)
    ensures
        r == epoch_of(epoch_part(name@)),
{
    let part = match find_between(name, "core-", ".pid") {
        Some(part) => Some(part),
        None => match find_between(name, "core-", ".sock") {
            Some(part) => Some(part),
            None => match find_between(name, "config-", ".yaml") {
                Some(part) => Some(part),
                None => match find_up_to(name, "config-", ".yaml.backup-") {
                    Some(part) => Some(part),
                    None => match find_up_to(name, ".config-", ".yaml.tmp-") {
                        Some(part) => Some(part),
                        None => find_up_to(name, "core-", ".pid.tmp-"),
                    },
                },
            },
        },
    };
    match part {
        Some(part) => parse_u64(part.as_str()),
        None => None,
    }
}

// ---------------------------------------------------------------------------
// Epochs in the directory
// ---------------------------------------------------------------------------

pub open spec fn ascending(epochs: Seq<u64>) -> bool {
    forall|i: int, j: int| 0 <= i < j < epochs.len() ==> epochs[i] < epochs[j]
}

/// Some file of the listing belongs to the epoch.
pub open spec fn present(names: Seq<Seq<char>>, epoch: u64) -> bool {
    exists|i: int|
        0 <= i < names.len() && epoch_of(epoch_part(#[trigger] names[i])) == Some(epoch)
}

fn add_epoch(epochs: &mut Vec<u64>, epoch: u64)
    requires
        ascending(old(epochs)@),
    ensures
        ascending(final(epochs)@),
        forall|e: u64| #[trigger] final(epochs)@.contains(e) <==> old(epochs)@.contains(e) || e
            == epoch,
{
    let ghost before = epochs@;
    let n: usize = epochs.len();
    let mut at: usize = 0;
    while at < n && epochs[at] < epoch
        invariant
            n == epochs@.len(),
            epochs@ == before,
            at <= n,
            forall|j: int| 0 <= j < at ==> epochs@[j] < epoch,
        decreases n - at,
    {
        at += 1;
    }
    if at < n && epochs[at] == epoch {
        assert(before.contains(epoch)) by {
            assert(before[at as int] == epoch);
        }
        return ;
    }
    epochs.insert(at, epoch);
    proof {
        let after = epochs@;
        assert(after =~= before.insert(at as int, epoch));
        assert forall|e: u64| #[trigger] after.contains(e) <==> before.contains(e) || e
            == epoch by {
            if after.contains(e) {
                let k = choose|k: int| 0 <= k < after.len() && after[k] == e;
                if k < at {
                    assert(before[k] == e);
                } else if k > at {
                    assert(before[k - 1] == e);
                }
            }
            if before.contains(e) {
                let k = choose|k: int| 0 <= k < before.len() && before[k] == e;
                if k < at {
                    assert(after[k] == e);
                } else {
                    assert(after[k + 1] == e);
                }
            }
            if e == epoch {
                assert(after[at as int] == e);
            }
        }
        assert forall|i: int, j: int| 0 <= i < j < after.len() implies after[i] < after[j] by {
            let pi = if i < at {
                i
            } else {
                i - 1
            };
            let pj = if j < at {
                j
            } else {
                j - 1
            };
            if i != at && j != at {
                assert(before[pi] < before[pj]);
            } else if i == at {
                if at < n {
                    assert(before[at as int] <= before[pj]);
                }
            }
        }
    }
}

/// The epochs that a listing of the runtime directory shows, each once and in
/// order.
pub fn artifact_epochs(names: &Vec<String>) -> (r: Vec<u64>)
    ensures
        ascending(r@),
        forall|e: u64| #[trigger] r@.contains(e) <==> present(text::strings(names@), e),
{
    let ghost all = text::strings(names@);
    let n: usize = names.len();
    let mut out: Vec<u64> = Vec::new();
    let mut i: usize = 0;
    while i < n
        invariant
            n == names@.len(),
            all == text::strings(names@),
            i <= n,
            ascending(out@),
            forall|e: u64| #[trigger] out@.contains(e) <==> present(all.take(i as int), e),
        decreases n - i,
    {
        let ghost before = out@;
        let ghost shown = epoch_of(epoch_part(all[i as int]));
        if let Some(epoch) = artifact_epoch(names[i].as_str()) {
            add_epoch(&mut out, epoch);
        }
        proof {
            assert forall|e: u64| #[trigger] out@.contains(e) <==> present(
                all.take(i + 1),
                e,
            ) by {
                let shorter = all.take(i as int);
                let longer = all.take(i + 1);
                assert(longer[i as int] == all[i as int]);
                assert(before.contains(e) <==> present(shorter, e));
                if present(shorter, e) {
                    let k = choose|k: int|
                        0 <= k < shorter.len() && epoch_of(epoch_part(#[trigger] shorter[k]))
                            == Some(e);
                    assert(longer[k] == shorter[k]);
                }
                if present(longer, e) {
                    let k = choose|k: int|
                        0 <= k < longer.len() && epoch_of(epoch_part(#[trigger] longer[k])) == Some(
                            e,
                        );
                    if k < i {
                        assert(shorter[k] == longer[k]);
                    }
                }
            }
        }
        i += 1;
    }
    assert(all.take(n as int) =~= all);
    out
}

/// The last epoch of a listing, or zero.
pub open spec fn last_or_zero(epochs: Seq<u64>) -> u64 {
    if epochs.len() == 0 {
        0
    } else {
        epochs.last()
    }
}

pub fn highest_epoch(epochs: &Vec<u64>) -> (r: u64)
    ensures
        r == last_or_zero(epochs@),
{
    let n: usize = epochs.len();
    if n == 0 {
        0
    } else {
        epochs[n - 1]
    }
}

/// Epochs go on after the highest one that left a file behind.
pub proof fn law_epochs_resume_after_the_highest(names: Seq<Seq<char>>, epochs: Seq<u64>, e: u64)
    requires
        ascending(epochs),
        forall|x: u64| #[trigger] epochs.contains(x) <==> present(names, x),
        present(names, e),
    ensures
        e <= last_or_zero(epochs),
{
    assert(epochs.contains(e));
    let k = choose|k: int| 0 <= k < epochs.len() && epochs[k] == e;
    if k < epochs.len() - 1 {
        assert(epochs[k] < epochs[epochs.len() - 1]);
    }
}

// ---------------------------------------------------------------------------
// The store
// ---------------------------------------------------------------------------

/// The directory of the manager's artifacts.
#[derive(Debug, PartialEq, Eq)]
pub struct RuntimeConfigStore {
    dir: String,
}

/// A configuration that was written but not installed.
#[derive(Debug, PartialEq, Eq)]
pub struct StagedRuntimeConfig {
    path: String,
}

impl StagedRuntimeConfig {
    pub closed spec fn location(&self) -> Seq<char> {
        self.path@
    }

    pub fn new(path: String) -> (r: StagedRuntimeConfig)
        ensures
            r.location() == path@,
    {
        StagedRuntimeConfig { path }
    }

    pub fn path(&self) -> (r: &str)
        ensures
            r@ == self.location(),
    {
        self.path.as_str()
    }
}

/// A copy of an installed configuration.
#[derive(Debug, PartialEq, Eq)]
pub struct RuntimeConfigBackup {
    path: String,
    epoch: u64,
}

impl RuntimeConfigBackup {
    pub closed spec fn location(&self) -> Seq<char> {
        self.path@
    }

    pub closed spec fn number(&self) -> u64 {
        self.epoch
    }

    pub fn new(path: String, epoch: u64) -> (r: RuntimeConfigBackup)
        ensures
            r.location() == path@,
            r.number() == epoch,
    {
        RuntimeConfigBackup { path, epoch }
    }

    pub fn path(&self) -> (r: &str)
        ensures
            r@ == self.location(),
    {
        self.path.as_str()
    }

    pub fn epoch(&self) -> (r: u64)
        ensures
            r == self.number(),
    {
        self.epoch
    }

    pub fn copy(&self) -> (r: RuntimeConfigBackup)
        ensures
            r == *self,
    {
        RuntimeConfigBackup { path: self.path.clone(), epoch: self.epoch }
    }
}

/// Whether an installed configuration is sure to outlive a crash.
#[derive(Debug, PartialEq, Eq)]
pub enum RuntimeCommitDurability {
    Durable,
    Uncertain(String),
}

/// A configuration that was installed.
#[derive(Debug, PartialEq, Eq)]
pub struct RuntimeConfigCommit {
    path: String,
    durability: RuntimeCommitDurability,
}

impl RuntimeConfigCommit {
    pub closed spec fn location(&self) -> Seq<char> {
        self.path@
    }

    /// What is said of a configuration that may not outlive a crash.
    pub closed spec fn warning(&self) -> Option<Seq<char>> {
        match self.durability {
            RuntimeCommitDurability::Durable => None,
            RuntimeCommitDurability::Uncertain(w) => Some(w@),
        }
    }

    pub fn path(&self) -> (r: &str)
        ensures
            r@ == self.location(),
    {
        self.path.as_str()
    }

    pub fn durability(&self) -> (r: &RuntimeCommitDurability)
        ensures
            match r {
                RuntimeCommitDurability::Durable => self.warning() is None,
                RuntimeCommitDurability::Uncertain(w) => self.warning() == Some(w@),
            },
    {
        &self.durability
    }

    pub fn durability_warning(&self) -> (r: Option<&str>)
        ensures
            match r {
                None => self.warning() is None,
                Some(w) => self.warning() == Some(w@),
            },
    {
        match &self.durability {
            RuntimeCommitDurability::Durable => None,
            RuntimeCommitDurability::Uncertain(warning) => Some(warning.as_str()),
        }
    }
}

/// What is said of a configuration whose directory was not synchronized.
pub open spec fn sync_warning(words: Seq<char>) -> Seq<char> {
    "runtime config was atomically installed, but parent-directory synchronization failed: "@
        + words
}

/// A configuration that is installed stays installed, whatever became of
/// synchronizing its directory.
pub fn installed_commit(path: String, parent_sync: Result<(), IoError>) -> (r: RuntimeConfigCommit)
    ensures
        r.location() == path@,
        r.warning() == (match parent_sync {
            Ok(()) => None,
            Err(e) => Some(sync_warning(e.message@)),
        }),
{
    let durability = match parent_sync {
        Ok(()) => RuntimeCommitDurability::Durable,
        Err(error) => {
            let mut warning =
                "runtime config was atomically installed, but parent-directory synchronization failed: ".to_owned();
            warning.append(error.message.as_str());
            RuntimeCommitDurability::Uncertain(warning)
        },
    };
    RuntimeConfigCommit { path, durability }
}

/// What stands at a path that is meant for a directory.
#[derive(Debug, Clone, Copy, PartialEq, Eq, Structural)]
pub struct DirectoryMetadata {
    pub symlink: bool,
    pub directory: bool,
    pub reparse_point: bool,
}

/// Only a directory that is reached without a detour is used.
pub fn validate_directory_metadata(path: &str, found: DirectoryMetadata) -> (r: Result<(), Error>)
    ensures
        match r {
            Ok(()) => !found.symlink && found.directory && !found.reparse_point,
            Err(e) => (found.symlink || !found.directory || found.reparse_point) && (e matches
                Error::UnsafeRuntimeArtifact(p) && p@ == path@),
        },
{
    if found.symlink || !found.directory || found.reparse_point {
        return Err(Error::UnsafeRuntimeArtifact(path.to_owned()));
    }
    Ok(())
}

/// What to do about the directory of the artifacts.
#[derive(Debug)]
pub enum DirectoryStep {
    Use,
    Create,
    Fail(Error),
}

/// A directory that is missing is made; one that is there has to be safe.
pub fn open_directory(path: &str, found: Result<DirectoryMetadata, IoError>) -> (r: DirectoryStep)
    ensures
        match found {
            Ok(m) => if !m.symlink && m.directory && !m.reparse_point {
                r is Use
            } else {
                r matches DirectoryStep::Fail(Error::UnsafeRuntimeArtifact(p)) && p@ == path@
            },
            Err(e) => if e.kind is NotFound {
                r is Create
            } else {
                r == DirectoryStep::Fail(Error::Io(e))
            },
        },
{
    match found {
        Ok(found) => match validate_directory_metadata(path, found) {
            Ok(()) => DirectoryStep::Use,
            Err(e) => DirectoryStep::Fail(e),
        },
        Err(e) => if e.kind == IoKind::NotFound {
            DirectoryStep::Create
        } else {
            DirectoryStep::Fail(Error::Io(e))
        },
    }
}

/// The name of a file that is not installed yet, of the given process and with
/// the given number.
pub open spec fn staged_name(epoch: u64, process: u32, counter: u64) -> Seq<char> {
    staged_prefix(epoch) + text::decimal(process as nat) + "-"@ + text::decimal(counter as nat)
}

/// What has to be removed once an epoch is over, besides its three files.
pub open spec fn left_behind(epoch: u64, name: Seq<char>) -> bool {
    ||| text::has_prefix(name, backup_prefix(epoch))
    ||| text::has_prefix(name, staged_prefix(epoch))
    ||| text::has_prefix(name, pid_temp_prefix(epoch))
}

impl RuntimeConfigStore {
    pub closed spec fn root(&self) -> Seq<char> {
        self.dir@
    }

    /// The store in a canonical directory, where its path is a text.
    pub fn open(canonical: Option<String>) -> (r: Result<RuntimeConfigStore, Error>)
        ensures
            match canonical {
                Some(dir) => r matches Ok(store) && store.root() == dir@,
                None => r matches Err(Error::InvalidManagerOptions(m)) && m@
                    == "runtime directory is not UTF-8"@,
            },
    {
        match canonical {
            Some(dir) => Ok(RuntimeConfigStore { dir }),
            None => Err(
                Error::InvalidManagerOptions("runtime directory is not UTF-8".to_owned()),
            ),
        }
    }

    pub fn dir(&self) -> (r: &str)
        ensures
            r@ == self.root(),
    {
        self.dir.as_str()
    }

    pub fn copy(&self) -> (r: RuntimeConfigStore)
        ensures
            r == *self,
    {
        RuntimeConfigStore { dir: self.dir.clone() }
    }

    pub fn runtime_path(&self, epoch: u64) -> (r: String)
        ensures
            path::joins(self.root(), config_name(epoch), r@),
    {
        join(self.dir.as_str(), named("config-", epoch, ".yaml").as_str())
    }

    pub fn pid_path(&self, epoch: u64) -> (r: String)
        ensures
            path::joins(self.root(), pid_name(epoch), r@),
    {
        join(self.dir.as_str(), named("core-", epoch, ".pid").as_str())
    }

    pub fn socket_path(&self, epoch: u64) -> (r: String)
        ensures
            path::joins(self.root(), endpoint::socket_name(epoch), r@),
    {
        join(self.dir.as_str(), named("core-", epoch, ".sock").as_str())
    }

    /// The file whose lock keeps other managers out.
    pub fn lock_path(&self) -> (r: String)
        ensures
            path::joins(self.root(), ".manager.lock"@, r@),
    {
        join(self.dir.as_str(), ".manager.lock")
    }

    /// Where a configuration is written before it is installed.
    pub fn staged_path(&self, epoch: u64, process: u32, counter: u64) -> (r: String)
        ensures
            path::joins(self.root(), staged_name(epoch, process, counter), r@),
    {
        let mut name = named(".config-", epoch, ".yaml.tmp-");
        name.append(u64_to_string(process as u64).as_str());
        name.append("-");
        name.append(u64_to_string(counter).as_str());
        join(self.dir.as_str(), name.as_str())
    }

    /// Where a configuration is copied to before its successor is installed.
    pub fn backup_path(&self, epoch: u64, generation: u64) -> (r: String)
        ensures
            path::joins(
                self.root(),
                backup_prefix(epoch) + text::decimal(generation as nat),
                r@,
            ),
    {
        let mut name = named("config-", epoch, ".yaml.backup-");
        name.append(u64_to_string(generation).as_str());
        join(self.dir.as_str(), name.as_str())
    }

    /// Only a file that was staged for the epoch in this directory may be
    /// installed. `placed` says whether it lies there, `name` is its name, and
    /// `found` is what stands at its path.
    pub fn check_staged(
        staged: &StagedRuntimeConfig,
        epoch: u64,
        placed: bool,
        name: Option<&str>,
        found: Result<Artifact, IoError>,
    ) -> (r: Result<(), Error>)
        ensures
            staged_outcome(staged.location(), epoch, placed, text_of(name), found, r),
    {
        let fitting = match name {
            Some(name) => starts_with(name, named(".config-", epoch, ".yaml.tmp-").as_str()),
            None => false,
        };
        if !placed || !fitting {
            return Err(Error::UnsafeRuntimeArtifact(staged.path.clone()));
        }
        match fs::validate_existing_regular_target(staged.path.as_str(), found) {
            Ok(()) => Ok(()),
            Err(e) => Err(Error::from_atomic(e)),
        }
    }

    /// Only a file that was staged for the epoch in this directory may be
    /// installed; `found` is what stands at its path.
    pub fn validate_staged(
        &self,
        staged: &StagedRuntimeConfig,
        epoch: u64,
        found: Result<Artifact, IoError>,
    ) -> (r: Result<(), Error>)
        ensures
            r is Ok ==> (found matches Ok(a) && fs::is_plain(a)),
            exists|dir: Option<Seq<char>>, placed: bool, name: Option<Seq<char>>|
                #[trigger] staged_in(self.root(), staged.location(), dir, placed, name)
                    && staged_outcome(staged.location(), epoch, placed, name, found, r),
            forall|dir: Seq<char>, name: Seq<char>|
                #[trigger] path::file_in(dir, name, staged.location()) && path::plain_path(dir)
                    && path::plain_path(self.root()) && dir != self.root() ==> (r matches Err(
                    Error::UnsafeRuntimeArtifact(p),
                ) && p@ == staged.location()),
            forall|dir: Seq<char>, name: Seq<char>|
                #[trigger] path::verbatim_file_in(dir, name, staged.location())
                    && path::verbatim_dir(self.root()) && text::lowered(dir) != text::lowered(
                    self.root(),
                ) ==> (r matches Err(Error::UnsafeRuntimeArtifact(p)) && p@ == staged.location()),
            forall|name: Seq<char>|
                #[trigger] path::file_in(self.root(), name, staged.location())
                    ==> staged_outcome(staged.location(), epoch, true, Some(name), found, r),
    {
        let dir = parent(staged.path.as_str());
        let name = file_name(staged.path.as_str());
        let placed = match &dir {
            Some(dir) => same_path(dir.as_str(), self.dir.as_str()),
            None => false,
        };
        let name_text = match &name {
            Some(name) => Some(name.as_str()),
            None => None,
        };
        let r = RuntimeConfigStore::check_staged(staged, epoch, placed, name_text, found);
        assert(staged_in(
            self.root(),
            staged.location(),
            path::part(dir),
            placed,
            path::part(name),
        ));
        proof {
            let location = staged.location();
            let root = self.root();
            assert forall|d: Seq<char>, n: Seq<char>|
                #[trigger] path::verbatim_file_in(d, n, location) && path::verbatim_dir(root)
                    && text::lowered(d) != text::lowered(root) implies !placed by {
                path::lemma_verbatim_is_bare(d);
                path::lemma_verbatim_is_bare(root);
                assert((d + seq!['\\']).drop_last() =~= d);
            }
        }
        r
    }

    /// Whether a file of the directory has to go with an epoch.
    pub fn is_left_behind(&self, epoch: u64, name: &str) -> (r: bool)
        ensures
            r == left_behind(epoch, name@),
    {
        starts_with(name, named("config-", epoch, ".yaml.backup-").as_str()) || starts_with(
            name,
            named(".config-", epoch, ".yaml.tmp-").as_str(),
        ) || starts_with(name, named("core-", epoch, ".pid.tmp-").as_str())
    }
}

pub open spec fn text_of(s: Option<&str>) -> Option<Seq<char>> {
    match s {
        Some(s) => Some(s@),
        None => None,
    }
}

/// What is known of a staged file: its directory, whether that is the root, and its
/// name.
pub open spec fn staged_in(
    root: Seq<char>,
    location: Seq<char>,
    dir: Option<Seq<char>>,
    placed: bool,
    name: Option<Seq<char>>,
) -> bool {
    &&& path::directory_of(location, dir)
    &&& path::name_of(location, name)
    &&& match dir {
        Some(dir) => path::sameness(dir, root, placed),
        None => !placed,
    }
}

/// What the check of a staged file comes to.
pub open spec fn staged_outcome(
    location: Seq<char>,
    epoch: u64,
    placed: bool,
    name: Option<Seq<char>>,
    found: Result<Artifact, IoError>,
    r: Result<(), Error>,
) -> bool {
    let fitting = name matches Some(n) && text::has_prefix(n, staged_prefix(epoch));
    if !placed || !fitting {
        r matches Err(Error::UnsafeRuntimeArtifact(p)) && p@ == location
    } else {
        match found {
            Ok(a) => if fs::is_plain(a) {
                r is Ok
            } else {
                r matches Err(Error::UnsafeRuntimeArtifact(p)) && p@ == location
            },
            Err(e) => r == Err::<(), Error>(Error::Io(e)),
        }
    }
}

/// What stands at the path of a socket, without following links.
#[derive(Debug, Clone, Copy, PartialEq, Eq, Structural)]
pub struct SocketMetadata {
    pub symlink: bool,
    pub reparse_point: bool,
    pub socket: bool,
    pub regular: bool,
}

/// A socket may be removed: it is one, or a plain file at its place.
pub open spec fn removable_socket(platform: Platform, m: SocketMetadata) -> bool {
    !m.symlink && !m.reparse_point && (match platform {
        Platform::Unix => m.socket || m.regular,
        Platform::Windows => m.regular,
    })
}

/// Whether the socket of an epoch is removed: `true` says that it is to be
/// removed, `false` that there is none.
pub fn remove_socket_artifact(
    platform: Platform,
    path: &str,
    found: Result<SocketMetadata, IoError>,
) -> (r: Result<bool, Error>)
    ensures
        match found {
            Ok(m) => if removable_socket(platform, m) {
                r matches Ok(remove) && remove
            } else {
                r matches Err(Error::UnsafeRuntimeArtifact(p)) && p@ == path@
            },
            Err(e) => if e.kind is NotFound {
                r matches Ok(remove) && !remove
            } else {
                r == Err::<bool, Error>(Error::Io(e))
            },
        },
{
    match found {
        Ok(m) => {
            let kind = match platform {
                Platform::Unix => m.socket || m.regular,
                Platform::Windows => m.regular,
            };
            if m.symlink || m.reparse_point || !kind {
                return Err(Error::UnsafeRuntimeArtifact(path.to_owned()));
            }
            Ok(true)
        },
        Err(e) => if e.kind == IoKind::NotFound {
            Ok(false)
        } else {
            Err(Error::Io(e))
        },
    }
}

// ---------------------------------------------------------------------------
// Laws of names
// ---------------------------------------------------------------------------

proof fn lemma_between(head: Seq<char>, d: Seq<char>, tail: Seq<char>)
    ensures
        between(head + d + tail, head, tail) == Some(d),
{
    let s = head + d + tail;
    assert(s.subrange(0, head.len() as int) =~= head);
    let rest = s.subrange(head.len() as int, s.len() as int);
    assert(rest =~= d + tail);
    assert(rest.subrange(rest.len() - tail.len(), rest.len() as int) =~= tail);
    assert(rest.subrange(0, rest.len() - tail.len()) =~= d);
}

proof fn lemma_other_end(s: Seq<char>, head: Seq<char>, tail: Seq<char>)
    requires
        s.len() > 0,
        tail.len() > 0,
        s.last() != tail.last(),
    ensures
        between(s, head, tail) is None,
{
    if text::has_prefix(s, head) {
        let rest = s.subrange(head.len() as int, s.len() as int);
        if text::has_suffix(rest, tail) {
            let end = rest.subrange(rest.len() - tail.len(), rest.len() as int);
            assert(end[tail.len() - 1] == rest[rest.len() - 1]);
            assert(rest[rest.len() - 1] == s[s.len() - 1]);
        }
    }
}

proof fn lemma_other_start(s: Seq<char>, head: Seq<char>, i: int)
    requires
        0 <= i < head.len(),
        i < s.len(),
        s[i] != head[i],
    ensures
        text::after_prefix(s, head) is None,
{
    if text::has_prefix(s, head) {
        assert(s.subrange(0, head.len() as int)[i] == s[i]);
    }
}

proof fn lemma_up_to(head: Seq<char>, d: Seq<char>, mark: Seq<char>, rest: Seq<char>)
    requires
        text::all_digits(d),
        mark.len() > 0,
        !text::is_digit(mark[0]),
    ensures
        up_to(head + d + mark + rest, head, mark) == Some(d),
{
    let s = head + d + mark + rest;
    assert(s.subrange(0, head.len() as int) =~= head);
    let tail = s.subrange(head.len() as int, s.len() as int);
    assert(tail =~= d + mark + rest);
    assert(tail.subrange(d.len() as int, (d.len() + mark.len()) as int) =~= mark);
    assert(text::matches_at(tail, mark, d.len() as int));
    text::lemma_find_sub_bounds(tail, mark, 0);
    let i = text::find_sub(tail, mark, 0)->0;
    if i < d.len() {
        assert(tail.subrange(i, i + mark.len())[0] == tail[i]);
        assert(tail[i] == d[i]);
    }
    assert(i == d.len());
    assert(tail.subrange(0, i) =~= d);
}

/// The names of the files of an epoch name that epoch.
pub proof fn law_names_tell_their_epoch(epoch: u64, generation: u64, process: u32, counter: u64)
    ensures
        epoch_of(epoch_part(config_name(epoch))) == Some(epoch),
        epoch_of(epoch_part(pid_name(epoch))) == Some(epoch),
        epoch_of(epoch_part(endpoint::socket_name(epoch))) == Some(epoch),
        epoch_of(epoch_part(backup_prefix(epoch) + text::decimal(generation as nat))) == Some(
            epoch,
        ),
        epoch_of(epoch_part(staged_name(epoch, process, counter))) == Some(epoch),
        epoch_of(epoch_part(pid_temp_prefix(epoch) + text::decimal(process as nat))) == Some(epoch),
{
    reveal_strlit(".pid.tmp-");
    reveal_strlit("core-");
    reveal_strlit(".pid");
    reveal_strlit(".sock");
    reveal_strlit("config-");
    reveal_strlit(".config-");
    reveal_strlit(".yaml");
    reveal_strlit(".yaml.backup-");
    reveal_strlit(".yaml.tmp-");
    reveal_strlit("-");
    let d = text::decimal(epoch as nat);
    text::law_unsigned_round_trip(epoch as nat, u64::MAX as nat);
    text::law_decimal_round_trip(epoch as nat);
    // The pid record.
    lemma_between("core-"@, d, ".pid"@);
    // The socket.
    let socket = endpoint::socket_name(epoch);
    assert(socket.last() == 'k');
    lemma_other_end(socket, "core-"@, ".pid"@);
    lemma_between("core-"@, d, ".sock"@);
    // The configuration.
    let config = config_name(epoch);
    assert(config[2] == 'n');
    lemma_other_start(config, "core-"@, 2);
    lemma_between("config-"@, d, ".yaml"@);
    // The backup.
    let g = text::decimal(generation as nat);
    let backup = backup_prefix(epoch) + g;
    text::law_decimal_round_trip(generation as nat);
    assert(backup[2] == 'n');
    lemma_other_start(backup, "core-"@, 2);
    assert(backup.last() == g.last());
    assert(text::is_digit(g[g.len() - 1]));
    lemma_other_end(backup, "config-"@, ".yaml"@);
    lemma_up_to("config-"@, d, ".yaml.backup-"@, g);
    // The staged configuration.
    let staged = staged_name(epoch, process, counter);
    let tail = text::decimal(process as nat) + "-"@ + text::decimal(counter as nat);
    assert(staged =~= staged_prefix(epoch) + tail);
    assert(staged[0] == '.');
    lemma_other_start(staged, "core-"@, 0);
    lemma_other_start(staged, "config-"@, 0);
    lemma_up_to(".config-"@, d, ".yaml.tmp-"@, tail);
    // The pid record that is not installed yet.
    let p = text::decimal(process as nat);
    let record = pid_temp_prefix(epoch) + p;
    text::law_decimal_round_trip(process as nat);
    assert(record.last() == p.last());
    assert(text::is_digit(p[p.len() - 1]));
    lemma_other_end(record, "core-"@, ".pid"@);
    lemma_other_end(record, "core-"@, ".sock"@);
    assert(record[2] == 'r' && record[0] == 'c');
    lemma_other_start(record, "config-"@, 2);
    lemma_other_start(record, ".config-"@, 0);
    lemma_up_to("core-"@, d, ".pid.tmp-"@, p);
}

proof fn lemma_same_number(
    name: Seq<char>,
    head: Seq<char>,
    a: Seq<char>,
    b: Seq<char>,
    tail: Seq<char>,
)
    requires
        text::has_prefix(name, head + a + tail),
        text::has_prefix(name, head + b + tail),
        text::all_digits(a),
        text::all_digits(b),
        tail.len() > 0,
        !text::is_digit(tail[0]),
    ensures
        a == b,
{
    let p = head + a + tail;
    let q = head + b + tail;
    let h = head.len() as int;
    assert forall|i: int| 0 <= i < p.len() implies name[i] == p[i] by {
        assert(name.subrange(0, p.len() as int)[i] == name[i]);
    }
    assert forall|i: int| 0 <= i < q.len() implies name[i] == q[i] by {
        assert(name.subrange(0, q.len() as int)[i] == name[i]);
    }
    if a.len() < b.len() {
        assert(p[h + a.len()] == tail[0]);
        assert(q[h + a.len()] == b[a.len() as int]);
        assert(text::is_digit(b[a.len() as int]));
        assert(name[h + a.len()] == p[h + a.len()]);
        assert(name[h + a.len()] == q[h + a.len()]);
    }
    if b.len() < a.len() {
        assert(q[h + b.len()] == tail[0]);
        assert(p[h + b.len()] == a[b.len() as int]);
        assert(text::is_digit(a[b.len() as int]));
        assert(name[h + b.len()] == p[h + b.len()]);
        assert(name[h + b.len()] == q[h + b.len()]);
    }
    assert forall|i: int| 0 <= i < a.len() implies a[i] == b[i] by {
        assert(p[h + i] == a[i]);
        assert(q[h + i] == b[i]);
        assert(name[h + i] == p[h + i]);
        assert(name[h + i] == q[h + i]);
    }
    assert(a =~= b);
}

proof fn lemma_clashing_starts(name: Seq<char>, p: Seq<char>, q: Seq<char>, i: int)
    requires
        text::has_prefix(name, p),
        text::has_prefix(name, q),
        0 <= i < p.len(),
        i < q.len(),
    ensures
        p[i] == q[i],
{
    assert(name.subrange(0, p.len() as int)[i] == name[i]);
    assert(name.subrange(0, q.len() as int)[i] == name[i]);
}

/// What is removed with one epoch is not removed with another.
pub proof fn law_cleanup_is_scoped_to_its_epoch(a: u64, b: u64, name: Seq<char>)
    requires
        left_behind(a, name),
        left_behind(b, name),
    ensures
        a == b,
{
    reveal_strlit("core-");
    reveal_strlit("config-");
    reveal_strlit(".config-");
    reveal_strlit(".yaml.backup-");
    reveal_strlit(".yaml.tmp-");
    reveal_strlit(".pid.tmp-");
    let da = text::decimal(a as nat);
    let db = text::decimal(b as nat);
    text::law_decimal_round_trip(a as nat);
    text::law_decimal_round_trip(b as nat);
    assert(backup_prefix(a)[0] == 'c' && backup_prefix(a)[2] == 'n');
    assert(backup_prefix(b)[0] == 'c' && backup_prefix(b)[2] == 'n');
    assert(staged_prefix(a)[0] == '.' && staged_prefix(b)[0] == '.');
    assert(pid_temp_prefix(a)[0] == 'c' && pid_temp_prefix(a)[2] == 'r');
    assert(pid_temp_prefix(b)[0] == 'c' && pid_temp_prefix(b)[2] == 'r');
    if text::has_prefix(name, backup_prefix(a)) {
        if text::has_prefix(name, backup_prefix(b)) {
            lemma_same_number(name, "config-"@, da, db, ".yaml.backup-"@);
        } else if text::has_prefix(name, staged_prefix(b)) {
            lemma_clashing_starts(name, backup_prefix(a), staged_prefix(b), 0);
        } else {
            lemma_clashing_starts(name, backup_prefix(a), pid_temp_prefix(b), 2);
        }
    } else if text::has_prefix(name, staged_prefix(a)) {
        if text::has_prefix(name, backup_prefix(b)) {
            lemma_clashing_starts(name, staged_prefix(a), backup_prefix(b), 0);
        } else if text::has_prefix(name, staged_prefix(b)) {
            lemma_same_number(name, ".config-"@, da, db, ".yaml.tmp-"@);
        } else {
            lemma_clashing_starts(name, staged_prefix(a), pid_temp_prefix(b), 0);
        }
    } else {
        if text::has_prefix(name, backup_prefix(b)) {
            lemma_clashing_starts(name, pid_temp_prefix(a), backup_prefix(b), 2);
        } else if text::has_prefix(name, staged_prefix(b)) {
            lemma_clashing_starts(name, pid_temp_prefix(a), staged_prefix(b), 0);
        } else {
            lemma_same_number(name, "core-"@, da, db, ".pid.tmp-"@);
        }
    }
}

/// Copies and files that are not installed yet are removed with their epoch.
pub proof fn law_cleanup_covers_the_epoch(
    epoch: u64,
    generation: u64,
    process: u32,
    counter: u64,
)
    ensures
        left_behind(epoch, backup_prefix(epoch) + text::decimal(generation as nat)),
        left_behind(epoch, staged_name(epoch, process, counter)),
        left_behind(epoch, pid_temp_prefix(epoch) + text::decimal(process as nat)),
{
    let record = pid_temp_prefix(epoch) + text::decimal(process as nat);
    assert(record.subrange(0, pid_temp_prefix(epoch).len() as int) =~= pid_temp_prefix(epoch));
    let backup = backup_prefix(epoch) + text::decimal(generation as nat);
    assert(backup.subrange(0, backup_prefix(epoch).len() as int) =~= backup_prefix(epoch));
    let staged = staged_name(epoch, process, counter);
    assert(staged.subrange(0, staged_prefix(epoch).len() as int) =~= staged_prefix(epoch));
}

/// A file is installed exactly where it lies in the directory of the manager under a
/// name that was made for its epoch, and is a plain file.
pub proof fn law_only_staged_files_are_installed(
    location: Seq<char>,
    epoch: u64,
    placed: bool,
    name: Option<Seq<char>>,
    found: Result<Artifact, IoError>,
    r: Result<(), Error>,
)
    requires
        staged_outcome(location, epoch, placed, name, found, r),
    ensures
        r is Ok <==> placed && (name matches Some(n) && text::has_prefix(n, staged_prefix(epoch)))
            && (found matches Ok(a) && a.regular && !a.symlink && !a.reparse_point),
        r matches Err(Error::Io(e)) ==> found == Err::<Artifact, IoError>(e),
        r is Err ==> (r matches Err(Error::Io(_)) || (r matches Err(
            Error::UnsafeRuntimeArtifact(p),
        ) && p@ == location)),
{
}

/// What was staged for an epoch is accepted for that epoch under each of its numbers.
pub proof fn law_staged_names_are_accepted(
    location: Seq<char>,
    epoch: u64,
    process: u32,
    counter: u64,
    found: Artifact,
    r: Result<(), Error>,
)
    requires
        staged_outcome(
            location,
            epoch,
            true,
            Some(staged_name(epoch, process, counter)),
            Ok(found),
            r,
        ),
        found.regular,
        !found.symlink,
        !found.reparse_point,
    ensures
        r is Ok,
{
    let name = staged_name(epoch, process, counter);
    let prefix = staged_prefix(epoch);
    assert(name.subrange(0, prefix.len() as int) =~= prefix);
}

/// A socket is removed where it is one, or a plain file at its place; a link never is,
/// and neither is a directory.
pub proof fn law_removed_sockets(platform: Platform, m: SocketMetadata)
    ensures
        m.symlink || m.reparse_point ==> !removable_socket(platform, m),
        !m.socket && !m.regular ==> !removable_socket(platform, m),
        m.regular && !m.symlink && !m.reparse_point ==> removable_socket(platform, m),
        m.socket && !m.symlink && !m.reparse_point && platform is Unix ==> removable_socket(
            platform,
            m,
        ),
{
}

} // verus!
