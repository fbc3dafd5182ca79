//! File transfers over the terminal: what is offered, what is allowed, under which names files are
//! saved, and what is reported.

use crate::json::{json_document, json_member, json_parse, json_view, json_views, member_view, text_view, JsonNumber, JsonView};
use crate::text::{
    concat2, concat3, concat4, contains_text, copy_texts, decimal, decimal_text, join, joined, occurs, pieces,
    same, split_on, texts,
};
use serde_json::Value;
use std::collections::HashMap;
use vstd::prelude::*;
use vstd::string::*;

verus! {

#[derive(Clone, Copy, Debug, PartialEq, Eq, Structural)]
pub enum TrzszTransferDirection {
    Upload,
    Download,
}

#[derive(Clone, Copy, Debug, PartialEq, Eq, Structural)]
pub enum TrzszTransferSelection {
    File,
    Directory,
}

/// What the remote side asks for.
#[derive(Clone, Copy, Debug, PartialEq, Eq, Structural)]
pub struct TrzszPromptRequest {
    pub direction: TrzszTransferDirection,
    pub selection: TrzszTransferSelection,
    pub remote_is_windows: bool,
}

/// What the user picked.
pub enum TrzszPromptSelection {
    Upload(Vec<String>),
    DownloadRoot(String),
    Cancelled,
}

/// What a transfer reports.
pub enum TrzszWorkerEvent {
    TerminalOutput(Vec<u8>),
    Completed,
    Cancelled,
    Failed { code: String, detail: Option<String>, message: String },
}

#[derive(Clone, Copy, Debug, PartialEq, Eq, Structural)]
pub struct TrzszTransferPolicy {
    pub allow_directory: bool,
    pub max_file_count: usize,
    pub max_total_bytes: u64,
}

pub enum TrzszError {
    InvalidState(String),
    DirectoryNotAllowed(String),
    MaxFileCountExceeded { selected: usize, max: usize },
    MaxTotalBytesExceeded { selected: u64, max: u64 },
    InvalidPath(String),
    AlreadyExists(String),
    HandleNotFound(String),
    Other { code: String, detail: Option<String>, message: String },
}

pub open spec fn is_stopped(error: TrzszError) -> bool {
    error matches TrzszError::InvalidState(message) && message@ == "Stopped"@
}

/// How a transfer that was declined ends.
pub fn declined() -> (r: TrzszError)
    ensures
        is_stopped(r),
{
    TrzszError::InvalidState("Stopped".to_owned())
}

/// Whether a transfer ended because the user wanted it to.
pub fn is_cancelled_transfer(error: &TrzszError) -> (r: bool)
    ensures
        r == is_stopped(*error),
{
    match error {
        TrzszError::InvalidState(message) => same(message.as_str(), "Stopped"),
        _ => false,
    }
}

pub open spec fn is_directory_refusal(error: TrzszError) -> bool {
    error matches TrzszError::DirectoryNotAllowed(place) && place@ == "terminal settings"@
}

fn directory_refusal() -> (r: TrzszError)
    ensures
        is_directory_refusal(r),
{
    TrzszError::DirectoryNotAllowed("terminal settings".to_owned())
}

/// How an upload starts.
pub enum UploadStart {
    /// Decline, and end as stopped.
    Decline,
    Fail(TrzszError),
    Build(Vec<String>),
}

pub fn begin_upload(
    request: &TrzszPromptRequest,
    selection: &TrzszPromptSelection,
    policy: &TrzszTransferPolicy,
) -> (r: UploadStart)
    ensures
        match *selection {
            TrzszPromptSelection::Upload(paths) => if paths@.len() == 0 {
                r is Decline
            } else if request.selection == TrzszTransferSelection::Directory
                && !policy.allow_directory {
                r matches UploadStart::Fail(error) && is_directory_refusal(error)
            } else {
                r matches UploadStart::Build(list) && texts(list@) == texts(paths@)
            },
            _ => r is Decline,
        },
{
    match selection {
        TrzszPromptSelection::Upload(paths) => {
            if paths.len() == 0 {
                return UploadStart::Decline;
            }
            if request.selection == TrzszTransferSelection::Directory && !policy.allow_directory {
                return UploadStart::Fail(directory_refusal());
            }
            UploadStart::Build(copy_texts(paths.as_slice()))
        },
        _ => UploadStart::Decline,
    }
}

/// How a download starts: the directory to save in, or a refusal that ends as stopped.
pub fn begin_download(selection: &TrzszPromptSelection) -> (r: Option<String>)
    ensures
        match *selection {
            TrzszPromptSelection::DownloadRoot(root) => r matches Some(path) && path@ == root@,
            _ => r is None,
        },
{
    match selection {
        TrzszPromptSelection::DownloadRoot(root) => Some(root.clone()),
        _ => None,
    }
}

/// A file or directory that is to be sent.
pub struct UploadEntry {
    pub path_id: u64,
    pub rel_path: Vec<String>,
    pub is_dir: bool,
    pub size: u64,
}

/// The number of files among the entries.
pub open spec fn file_count(entries: Seq<UploadEntry>) -> nat
    decreases entries.len(),
{
    if entries.len() == 0 {
        0
    } else {
        file_count(entries.drop_last()) + (if entries.last().is_dir {
            0nat
        } else {
            1
        })
    }
}

/// The size of the files among the entries.
pub open spec fn total_size(entries: Seq<UploadEntry>) -> nat
    decreases entries.len(),
{
    if entries.len() == 0 {
        0
    } else {
        total_size(entries.drop_last()) + (if entries.last().is_dir {
            0nat
        } else {
            entries.last().size as nat
        })
    }
}

/// Whether an entry is a directory or lies in one.
pub open spec fn needs_directory(entry: UploadEntry) -> bool {
    entry.is_dir || entry.rel_path@.len() > 1
}

pub open spec fn any_directory(entries: Seq<UploadEntry>) -> bool {
    exists|i: int| 0 <= i < entries.len() && needs_directory(#[trigger] entries[i])
}

proof fn lemma_size_grows(entries: Seq<UploadEntry>, n: int)
    requires
        0 <= n <= entries.len(),
    ensures
        total_size(entries.take(n)) <= total_size(entries),
        file_count(entries.take(n)) <= n,
    decreases entries.len(),
{
    if n < entries.len() {
        lemma_size_grows(entries.drop_last(), n);
        assert(entries.drop_last().take(n) =~= entries.take(n));
    } else {
        assert(entries.take(n) =~= entries);
        if n > 0 {
            lemma_size_grows(entries.drop_last(), n - 1);
            assert(entries.drop_last().take(n - 1) =~= entries.drop_last());
        }
    }
}

/// Holds the entries to the policy: no directories where they are not allowed, not too many files,
/// and not too large ones together. `Ok` says whether there is anything to send.
pub fn check_upload_entries(entries: &Vec<UploadEntry>, policy: &TrzszTransferPolicy) -> (r: Result<
    bool,
    TrzszError,
>)
    requires
        total_size(entries@) <= u64::MAX,
    ensures
        match r {
            Ok(any) => (policy.allow_directory || !any_directory(entries@)) && file_count(entries@)
                <= policy.max_file_count && total_size(entries@) <= policy.max_total_bytes && any
                == (entries@.len() > 0),
            Err(error) => if !policy.allow_directory && any_directory(entries@) {
                is_directory_refusal(error)
            } else if file_count(entries@) > policy.max_file_count {
                error matches TrzszError::MaxFileCountExceeded { selected, max } && selected
                    == file_count(entries@) && max == policy.max_file_count
            } else {
                &&& total_size(entries@) > policy.max_total_bytes
                &&& error matches TrzszError::MaxTotalBytesExceeded { selected, max }
                &&& selected == total_size(entries@)
                &&& max == policy.max_total_bytes
            },
        },
{
    let mut directory = false;
    let mut files: usize = 0;
    let mut bytes: u64 = 0;
    let mut i: usize = 0;
    assert(entries@.take(0) =~= Seq::empty());
    while i < entries.len()
        invariant
            i <= entries.len(),
            total_size(entries@) <= u64::MAX,
            directory == any_directory(entries@.take(i as int)),
            files == file_count(entries@.take(i as int)),
            files <= i,
            bytes == total_size(entries@.take(i as int)),
        decreases entries.len() - i,
    {
        let entry = &entries[i];
        proof {
            let next = entries@.take(i + 1);
            assert(next.drop_last() =~= entries@.take(i as int));
            assert(next.last() == entries@[i as int]);
            lemma_size_grows(entries@, i + 1);
            assert(any_directory(next) == (any_directory(entries@.take(i as int))
                || needs_directory(entries@[i as int]))) by {
                if any_directory(entries@.take(i as int)) {
                    let k = choose|k: int|
                        0 <= k < entries@.take(i as int).len() && needs_directory(
                            #[trigger] entries@.take(i as int)[k],
                        );
                    assert(next[k] == entries@.take(i as int)[k]);
                }
                if needs_directory(entries@[i as int]) {
                    assert(next[i as int] == entries@[i as int]);
                }
                if any_directory(next) {
                    let k = choose|k: int|
                        0 <= k < next.len() && needs_directory(#[trigger] next[k]);
                    if k < i {
                        assert(entries@.take(i as int)[k] == next[k]);
                    }
                }
            }
        }
        if entry.is_dir || entry.rel_path.len() > 1 {
            directory = true;
        }
        if !entry.is_dir {
            files = files + 1;
            bytes = bytes + entry.size;
        }
        i = i + 1;
    }
    assert(entries@.take(i as int) =~= entries@);
    if !policy.allow_directory && directory {
        return Err(directory_refusal());
    }
    if files > policy.max_file_count {
        return Err(
            TrzszError::MaxFileCountExceeded { selected: files, max: policy.max_file_count },
        );
    }
    if bytes > policy.max_total_bytes {
        return Err(
            TrzszError::MaxTotalBytesExceeded { selected: bytes, max: policy.max_total_bytes },
        );
    }
    Ok(entries.len() > 0)
}

/// A flag of the remote side's configuration; one that is missing is not set.
pub open spec fn flag_of(config: JsonView, key: Seq<char>) -> bool {
    match member_view(config, key) {
        Some(JsonView::Bool(flag)) => flag,
        _ => false,
    }
}

fn flag(config: &Value, key: &str) -> (r: bool)
    ensures
        r == flag_of(json_view(*config), key@),
{
    match json_member(config, key) {
        Some(member) => match member.as_bool() {
            Some(flag) => flag,
            None => false,
        },
        None => false,
    }
}

/// The paths of entries below the directory that is sent.
pub open spec fn entry_paths(entries: Seq<UploadEntry>) -> Seq<Seq<char>> {
    Seq::new(entries.len(), |i: int| joined(texts(entries[i].rel_path@), "/"@))
}

/// The first path that occurs before.
pub open spec fn first_duplicate(paths: Seq<Seq<char>>) -> Option<Seq<char>>
    decreases paths.len(),
{
    if paths.len() == 0 {
        None
    } else {
        match first_duplicate(paths.drop_last()) {
            Some(path) => Some(path),
            None => if paths.drop_last().contains(paths.last()) {
                Some(paths.last())
            } else {
                None
            },
        }
    }
}

/// There is a duplicate where not all paths differ.
pub proof fn law_duplicates_are_found(paths: Seq<Seq<char>>)
    ensures
        first_duplicate(paths) is None <==> paths.no_duplicates(),
    decreases paths.len(),
{
    if paths.len() > 0 {
        let head = paths.drop_last();
        law_duplicates_are_found(head);
        if first_duplicate(paths) is None {
            assert forall|i: int, j: int| 0 <= i < paths.len() && 0 <= j < paths.len() && i != j
                implies paths[i] != paths[j] by {
                if i < head.len() && j < head.len() {
                    assert(head[i] == paths[i] && head[j] == paths[j]);
                } else if i < head.len() {
                    assert(head[i] == paths[i]);
                } else {
                    assert(head[j] == paths[j]);
                }
            }
        } else if head.no_duplicates() {
            let i = choose|i: int| 0 <= i < head.len() && head[i] == paths.last();
            assert(paths[i] == paths[paths.len() - 1]);
        } else {
            let (i, j) = choose|i: int, j: int|
                0 <= i < head.len() && 0 <= j < head.len() && i != j && head[i] == head[j];
            assert(paths[i] == paths[j]);
        }
    }
}

/// No two entries may have one path where they would overwrite each other.
pub fn check_duplicate_names(entries: &Vec<UploadEntry>) -> (r: Result<(), TrzszError>)
    ensures
        match r {
            Ok(_) => first_duplicate(entry_paths(entries@)) is None,
            Err(error) => first_duplicate(entry_paths(entries@)) matches Some(path) && (
            error matches TrzszError::InvalidState(message) && message@ == "Duplicate name: "@
                + path),
        },
{
    let ghost all = entry_paths(entries@);
    let mut seen: Vec<String> = Vec::new();
    let mut i: usize = 0;
    assert(all.take(0) =~= Seq::empty());
    assert(texts(seen@) =~= all.take(0));
    while i < entries.len()
        invariant
            i <= entries.len(),
            all == entry_paths(entries@),
            texts(seen@) == all.take(i as int),
            first_duplicate(all.take(i as int)) is None,
        decreases entries.len() - i,
    {
        let path = join(entries[i].rel_path.as_slice(), "/");
        assert(path@ == all[i as int]);
        assert(all.take(i + 1).drop_last() =~= all.take(i as int));
        let mut k: usize = 0;
        while k < seen.len()
            invariant
                k <= seen.len(),
                i < entries.len(),
                all == entry_paths(entries@),
                texts(seen@) == all.take(i as int),
                path@ == all[i as int],
                first_duplicate(all.take(i as int)) is None,
                all.take(i + 1).drop_last() == all.take(i as int),
                forall|j: int| 0 <= j < k ==> texts(seen@)[j] != path@,
            decreases seen.len() - k,
        {
            if same(seen[k].as_str(), path.as_str()) {
                proof {
                    assert(texts(seen@)[k as int] == path@);
                    assert(all.take(i as int).contains(path@));
                    assert(first_duplicate(all.take(i + 1)) == Some(path@));
                    lemma_duplicate_stays(all, i + 1);
                }
                return Err(
                    TrzszError::InvalidState(concat2("Duplicate name: ", path.as_str())),
                );
            }
            k = k + 1;
        }
        let ghost before = seen@;
        seen.push(path);
        assert(texts(seen@) =~= texts(before).push(path@));
        assert(texts(seen@) =~= all.take(i + 1));
        i = i + 1;
    }
    assert(all.take(i as int) =~= all);
    Ok(())
}

proof fn lemma_duplicate_stays(paths: Seq<Seq<char>>, n: int)
    requires
        0 <= n <= paths.len(),
        first_duplicate(paths.take(n)) is Some,
    ensures
        first_duplicate(paths) == first_duplicate(paths.take(n)),
    decreases paths.len(),
{
    if n < paths.len() {
        assert(paths.drop_last().take(n) =~= paths.take(n));
        lemma_duplicate_stays(paths.drop_last(), n);
    } else {
        assert(paths.take(n) =~= paths);
    }
}

/// Holds an upload to the configuration of the remote side.
pub fn check_upload_config(config: &Value, entries: &Vec<UploadEntry>) -> (r: Result<(), TrzszError>)
    ensures
        match r {
            Ok(_) => !flag_of(json_view(*config), "overwrite"@) || first_duplicate(
                entry_paths(entries@),
            ) is None,
            Err(error) => flag_of(json_view(*config), "overwrite"@) && (first_duplicate(
                entry_paths(entries@),
            ) matches Some(path) && (error matches TrzszError::InvalidState(message) && message@
                == "Duplicate name: "@ + path)),
        },
{
    if flag(config, "overwrite") {
        check_duplicate_names(entries)
    } else {
        Ok(())
    }
}

/// Holds a download to the policy, once the remote side has said what it sends.
pub fn check_download_config(config: &Value, policy: &TrzszTransferPolicy) -> (r: Result<
    (),
    TrzszError,
>)
    ensures
        match r {
            Ok(_) => policy.allow_directory || !flag_of(json_view(*config), "directory"@),
            Err(error) => !policy.allow_directory && flag_of(json_view(*config), "directory"@)
                && is_directory_refusal(error),
        },
{
    if flag(config, "directory") && !policy.allow_directory {
        Err(directory_refusal())
    } else {
        Ok(())
    }
}

/// The width of a progress bar, and that of the remote pane where it has one.
#[derive(Clone, Copy, Debug, PartialEq, Eq)]
pub struct ProgressWidth {
    pub columns: usize,
    pub pane_columns: Option<usize>,
}

pub open spec fn pane_width(config: JsonView) -> Option<usize> {
    match member_view(config, "tmux_pane_width"@) {
        Some(JsonView::Number(JsonNumber::Whole(n))) => if n <= usize::MAX {
            Some(n as usize)
        } else {
            None
        },
        _ => None,
    }
}

/// The progress bar of a transfer; a quiet one has none.
pub fn progress_from_config(terminal_columns: usize, config: &Value) -> (r: Option<ProgressWidth>)
    ensures
        match r {
            None => flag_of(json_view(*config), "quiet"@),
            Some(width) => !flag_of(json_view(*config), "quiet"@) && width.columns == (if
            terminal_columns == 0 {
                1
            } else {
                terminal_columns
            }) && width.pane_columns == pane_width(json_view(*config)),
        },
{
    if flag(config, "quiet") {
        return None;
    }
    let pane_columns = match json_member(config, "tmux_pane_width") {
        Some(member) => match member.as_u64() {
            Some(n) => if n <= usize::MAX as u64 {
                Some(n as usize)
            } else {
                None
            },
            None => None,
        },
        None => None,
    };
    let columns: usize = if terminal_columns == 0 {
        1
    } else {
        terminal_columns
    };
    Some(ProgressWidth { columns, pane_columns })
}

/// What a transfer reports at its end, and whether the remote side is told of the error: not of one
/// that the user wanted.
pub fn worker_outcome(result: Result<(), TrzszError>, code: String, detail: Option<String>, message: String) -> (r: (
    bool,
    TrzszWorkerEvent,
))
    ensures
        match result {
            Ok(_) => !r.0 && r.1 is Completed,
            Err(error) => if is_stopped(error) {
                !r.0 && r.1 is Cancelled
            } else {
                r.0 && r.1 == (TrzszWorkerEvent::Failed { code, detail, message })
            },
        },
{
    match result {
        Ok(()) => (false, TrzszWorkerEvent::Completed),
        Err(error) => {
            if is_cancelled_transfer(&error) {
                (false, TrzszWorkerEvent::Cancelled)
            } else {
                (true, TrzszWorkerEvent::Failed { code, detail, message })
            }
        },
    }
}

/// What is left of the limits of a download.
pub struct DownloadConstraintTracker {
    pub policy: TrzszTransferPolicy,
    pub file_count: usize,
    pub total_bytes: u64,
}

impl DownloadConstraintTracker {
    pub fn new(policy: TrzszTransferPolicy) -> (r: Self)
        ensures
            r.policy == policy && r.file_count == 0 && r.total_bytes == 0,
    {
        DownloadConstraintTracker { policy, file_count: 0, total_bytes: 0 }
    }

    pub fn ensure_directory_allowed(&self) -> (r: Result<(), TrzszError>)
        ensures
            match r {
                Ok(_) => self.policy.allow_directory,
                Err(error) => !self.policy.allow_directory && is_directory_refusal(error),
            },
    {
        if self.policy.allow_directory {
            Ok(())
        } else {
            Err(directory_refusal())
        }
    }

    pub fn assert_can_add_file(&self) -> (r: Result<(), TrzszError>)
        requires
            self.file_count < usize::MAX,
        ensures
            match r {
                Ok(_) => self.file_count < self.policy.max_file_count,
                Err(error) => self.file_count >= self.policy.max_file_count && (
                error matches TrzszError::MaxFileCountExceeded { selected, max } && selected
                    == self.file_count + 1 && max == self.policy.max_file_count),
            },
    {
        if self.file_count + 1 > self.policy.max_file_count {
            Err(
                TrzszError::MaxFileCountExceeded {
                    selected: self.file_count + 1,
                    max: self.policy.max_file_count,
                },
            )
        } else {
            Ok(())
        }
    }

    pub fn commit_file(&mut self)
        ensures
            final(self).file_count == (if old(self).file_count < usize::MAX {
                old(self).file_count + 1
            } else {
                old(self).file_count as int
            }),
            final(self).policy == old(self).policy,
            final(self).total_bytes == old(self).total_bytes,
    {
        if self.file_count < usize::MAX {
            self.file_count = self.file_count + 1;
        }
    }

    /// Counts bytes that arrived, and refuses those beyond the limit.
    pub fn count_bytes(&mut self, length: usize) -> (r: Result<(), TrzszError>)
        ensures
            final(self).policy == old(self).policy,
            final(self).file_count == old(self).file_count,
            final(self).total_bytes == (if old(self).total_bytes + length <= u64::MAX {
                old(self).total_bytes + length
            } else {
                u64::MAX as int
            }),
            match r {
                Ok(_) => final(self).total_bytes <= old(self).policy.max_total_bytes,
                Err(error) => final(self).total_bytes > old(self).policy.max_total_bytes && (
                error matches TrzszError::MaxTotalBytesExceeded { selected, max } && selected
                    == final(self).total_bytes && max == old(self).policy.max_total_bytes),
            },
    {
        let more: u64 = length as u64;
        self.total_bytes = if more <= u64::MAX - self.total_bytes {
            self.total_bytes + more
        } else {
            u64::MAX
        };
        if self.total_bytes > self.policy.max_total_bytes {
            return Err(
                TrzszError::MaxTotalBytesExceeded {
                    selected: self.total_bytes,
                    max: self.policy.max_total_bytes,
                },
            );
        }
        Ok(())
    }
}

/// The name that is tried at an attempt: the file's own, then with numbers behind it.
pub open spec fn collision_name(base: Seq<char>, attempt: nat) -> Seq<char> {
    if attempt == 0 {
        base
    } else {
        base + "."@ + decimal((attempt - 1) as nat)
    }
}

pub fn next_collision_name(base_name: &str, attempt: usize) -> (r: String)
    ensures
        r@ == collision_name(base_name@, attempt as nat),
{
    if attempt == 0 {
        base_name.to_owned()
    } else {
        concat3(base_name, ".", decimal_text((attempt - 1) as u64).as_str())
    }
}

/// Whether another name may be free where this one is not.
pub open spec fn is_collision(error: TrzszError) -> bool {
    match error {
        TrzszError::AlreadyExists(_) => true,
        TrzszError::InvalidPath(message) => occurs(message@, "resolves to a directory"@) || occurs(
            message@,
            "resolves to a file"@,
        ) || occurs(message@, "Target path is a directory"@),
        _ => false,
    }
}

pub fn is_retryable_collision(error: &TrzszError) -> (r: bool)
    ensures
        r == is_collision(*error),
{
    match error {
        TrzszError::AlreadyExists(_) => true,
        TrzszError::InvalidPath(message) => contains_text(
            message.as_str(),
            "resolves to a directory",
        ) || contains_text(message.as_str(), "resolves to a file") || contains_text(
            message.as_str(),
            "Target path is a directory",
        ),
        _ => false,
    }
}

pub const MAX_NAME_ATTEMPTS: usize = 1000;

/// The search for a name under which a file can be saved.
pub struct NameSearch {
    pub base: String,
    pub overwrite: bool,
    pub attempt: usize,
}

impl NameSearch {
    /// Names are left to try.
    pub open spec fn well_formed(self) -> bool {
        self.attempt < MAX_NAME_ATTEMPTS
    }

    /// The name that is tried now.
    pub open spec fn name(self) -> Seq<char> {
        if self.overwrite {
            self.base@
        } else {
            collision_name(self.base@, self.attempt as nat)
        }
    }

    pub fn new(base: String, overwrite: bool) -> (r: Self)
        ensures
            r.well_formed(),
            r.base@ == base@ && r.overwrite == overwrite && r.attempt == 0,
    {
        NameSearch { base, overwrite, attempt: 0 }
    }

    pub fn candidate(&self) -> (r: String)
        ensures
            r@ == self.name(),
    {
        if self.overwrite {
            self.base.clone()
        } else {
            next_collision_name(self.base.as_str(), self.attempt)
        }
    }

    /// Takes up why a name could not be had: where another one may be free and names are left, the
    /// search goes on, else the error comes out.
    pub fn failed(&mut self, error: TrzszError) -> (r: Option<TrzszError>)
        requires
            old(self).well_formed(),
        ensures
            final(self).well_formed(),
            final(self).base == old(self).base,
            final(self).overwrite == old(self).overwrite,
            if !old(self).overwrite && is_collision(error) && old(self).attempt + 1
                < MAX_NAME_ATTEMPTS {
                r is None && final(self).attempt == old(self).attempt + 1
            } else {
                r == Some(error) && final(self).attempt == old(self).attempt
            },
    {
        if !self.overwrite && is_retryable_collision(&error) && self.attempt + 1
            < MAX_NAME_ATTEMPTS {
            self.attempt = self.attempt + 1;
            None
        } else {
            Some(error)
        }
    }
}

/// An entry of a directory that is received.
pub struct TrzszDirectoryEntry {
    pub path_id: u64,
    pub path_name: Vec<String>,
    pub is_dir: bool,
}

/// The names of a path, as the remote side lists them; what is no text counts as an empty one.
pub open spec fn listed_names(list: Seq<JsonView>) -> Seq<Seq<char>> {
    Seq::new(
        list.len(),
        |i: int|
            match text_view(list[i]) {
                Some(text) => text,
                None => Seq::empty(),
            },
    )
}

/// The path of an entry; `None` where it is missing, no list, or empty.
pub open spec fn entry_path(payload: JsonView) -> Option<Seq<Seq<char>>> {
    match member_view(payload, "path_name"@) {
        Some(JsonView::List(list)) => if list.len() == 0 {
            None
        } else {
            Some(listed_names(list))
        },
        _ => None,
    }
}

pub open spec fn entry_id(payload: JsonView) -> u64 {
    match member_view(payload, "path_id"@) {
        Some(JsonView::Number(JsonNumber::Whole(n))) => n,
        _ => 0,
    }
}

pub open spec fn is_entry_of(entry: TrzszDirectoryEntry, payload: JsonView) -> bool {
    &&& entry_path(payload) == Some(texts(entry.path_name@))
    &&& entry.path_id == entry_id(payload)
    &&& entry.is_dir == flag_of(payload, "is_dir"@)
}

/// Reads an entry from the document that describes it; `raw` is its text.
pub fn directory_entry(payload: &Value, raw: &str) -> (r: Result<TrzszDirectoryEntry, TrzszError>)
    ensures
        match r {
            Ok(entry) => is_entry_of(entry, json_view(*payload)) && entry.path_name@.len() > 0,
            Err(error) => entry_path(json_view(*payload)) is None && (
            error matches TrzszError::InvalidPath(message) && message@
                == "Invalid directory entry: "@ + raw@),
        },
{
    let list = match json_member(payload, "path_name") {
        Some(member) => match member.as_array() {
            Some(list) => list,
            None => {
                return Err(TrzszError::InvalidPath(concat2("Invalid directory entry: ", raw)));
            },
        },
        None => {
            return Err(TrzszError::InvalidPath(concat2("Invalid directory entry: ", raw)));
        },
    };
    if list.len() == 0 {
        return Err(TrzszError::InvalidPath(concat2("Invalid directory entry: ", raw)));
    }
    let mut path_name: Vec<String> = Vec::new();
    let mut i: usize = 0;
    while i < list.len()
        invariant
            i <= list.len(),
            path_name@.len() == i,
            forall|k: int|
                0 <= k < i ==> (#[trigger] path_name@[k])@ == listed_names(json_views(list@))[k],
        decreases list.len() - i,
    {
        let name = match list[i].as_str() {
            Some(text) => text.to_owned(),
            None => {
                let none = String::new();
                assert(none@ =~= Seq::empty());
                none
            },
        };
        path_name.push(name);
        i = i + 1;
    }
    assert(texts(path_name@) =~= listed_names(json_views(list@)));
    let path_id: u64 = match json_member(payload, "path_id") {
        Some(member) => match member.as_u64() {
            Some(n) => n,
            None => 0,
        },
        None => 0,
    };
    Ok(TrzszDirectoryEntry { path_id, path_name, is_dir: flag(payload, "is_dir") })
}

/// Reads an entry of a directory.
pub fn parse_directory_entry(raw: &str) -> (r: Result<TrzszDirectoryEntry, TrzszError>)
    ensures
        match json_document(raw@) {
            Ok(payload) => match r {
                Ok(entry) => is_entry_of(entry, payload),
                Err(error) => entry_path(payload) is None && (
                error matches TrzszError::InvalidPath(message) && message@
                    == "Invalid directory entry: "@ + raw@),
            },
            Err(reason) => r matches Err(TrzszError::InvalidPath(message)) && message@ == reason,
        },
{
    match json_parse(raw) {
        Ok(payload) => directory_entry(&payload, raw),
        Err(message) => Err(TrzszError::InvalidPath(message)),
    }
}

/// The directory that a download is saved in, and the names that its top directories got.
pub struct NativeSaveRoot {
    pub root_path: String,
    pub display_name: String,
    pub maps: HashMap<u64, String>,
}

/// Under which name the top directory of an entry is saved: that of the remote side where it is
/// overwritten, and the one that it got before where it got one.
pub fn existing_local_name(
    save_root: &NativeSaveRoot,
    entry: &TrzszDirectoryEntry,
    overwrite: bool,
) -> (r: Option<String>)
    requires
        entry.path_name@.len() > 0,
    ensures
        if overwrite {
            r matches Some(name) && name@ == entry.path_name@[0]@
        } else if save_root.maps@.contains_key(entry.path_id) {
            r matches Some(name) && name@ == save_root.maps@[entry.path_id]@
        } else {
            r is None
        },
{
    broadcast use vstd::std_specs::hash::group_hash_axioms;

    if overwrite {
        return Some(entry.path_name[0].clone());
    }
    match save_root.maps.get(&entry.path_id) {
        Some(name) => Some(name.clone()),
        None => None,
    }
}

impl NativeSaveRoot {
    pub fn new(root_path: String) -> (r: Self)
        ensures
            r.root_path@ == root_path@,
            r.display_name@ == base_name_of(root_path@),
            r.maps@ == Map::<u64, String>::empty(),
    {
        broadcast use vstd::std_specs::hash::group_hash_axioms;

        let display_name = base_name(root_path.as_str());
        NativeSaveRoot { root_path, display_name, maps: HashMap::new() }
    }

    /// Remembers the name that a top directory got.
    pub fn remember(&mut self, path_id: u64, name: String)
        ensures
            final(self).maps@ == old(self).maps@.insert(path_id, name),
            final(self).root_path == old(self).root_path,
            final(self).display_name == old(self).display_name,
    {
        broadcast use vstd::std_specs::hash::group_hash_axioms;

        let _ = self.maps.insert(path_id, name);
    }
}

/// A step of opening an entry of a directory.
pub enum OpenStep {
    CreateDirectory { path: String, must_create: bool },
    CheckFileCount,
    OpenFile { path: String },
}

pub ghost enum StepView {
    CreateDirectory { path: Seq<char>, must_create: bool },
    CheckFileCount,
    OpenFile { path: Seq<char> },
}

impl OpenStep {
    pub open spec fn step(self) -> StepView {
        match self {
            OpenStep::CreateDirectory { path, must_create } => StepView::CreateDirectory {
                path: path@,
                must_create,
            },
            OpenStep::CheckFileCount => StepView::CheckFileCount,
            OpenStep::OpenFile { path } => StepView::OpenFile { path: path@ },
        }
    }
}

pub open spec fn steps(list: Seq<OpenStep>) -> Seq<StepView> {
    Seq::new(list.len(), |i: int| list[i].step())
}

/// The path of the first `n` names of an entry, with the top directory under its local name.
pub open spec fn local_path(names: Seq<Seq<char>>, local_root: Seq<char>, n: int) -> Seq<char> {
    joined(names.update(0, local_root).take(n), "/"@)
}

/// The directories on the way to the first `n` names, without the top one.
pub open spec fn way_steps(names: Seq<Seq<char>>, local_root: Seq<char>, n: int) -> Seq<StepView>
    decreases n,
{
    if n <= 1 {
        Seq::empty()
    } else {
        way_steps(names, local_root, n - 1).push(
            StepView::CreateDirectory {
                path: local_path(names, local_root, n),
                must_create: false,
            },
        )
    }
}

/// What opening an entry takes: its top directory where that is claimed, the directories on the
/// way, and for a file the file itself.
pub open spec fn open_steps(
    names: Seq<Seq<char>>,
    is_dir: bool,
    local_root: Seq<char>,
    claim_top_level: bool,
    overwrite: bool,
) -> Seq<StepView> {
    let n = names.len() as int;
    let top = if claim_top_level && (is_dir || n > 1) {
        seq![StepView::CreateDirectory { path: local_root, must_create: !overwrite }]
    } else {
        Seq::empty()
    };
    if is_dir {
        top + way_steps(names, local_root, n)
    } else {
        top + seq![StepView::CheckFileCount] + way_steps(names, local_root, n - 1) + seq![
            StepView::OpenFile { path: local_path(names, local_root, n) },
        ]
    }
}

fn local_path_text(names: &Vec<String>, local_root: &str, n: usize) -> (r: String)
    requires
        0 < n <= names.len(),
    ensures
        r@ == local_path(texts(names@), local_root@, n as int),
{
    let mut parts: Vec<String> = Vec::new();
    parts.push(local_root.to_owned());
    let ghost all = texts(names@).update(0, local_root@);
    let mut i: usize = 1;
    assert(texts(parts@) =~= all.take(1));
    while i < n
        invariant
            1 <= i <= n <= names.len(),
            all == texts(names@).update(0, local_root@),
            texts(parts@) == all.take(i as int),
        decreases n - i,
    {
        let ghost before = parts@;
        parts.push(names[i].clone());
        assert(texts(parts@) =~= texts(before).push(names@[i as int]@));
        assert(texts(parts@) =~= all.take(i + 1));
        i = i + 1;
    }
    join(parts.as_slice(), "/")
}

fn add_step(list: &mut Vec<OpenStep>, step: OpenStep)
    ensures
        steps(final(list)@) == steps(old(list)@).push(step.step()),
{
    list.push(step);
    assert(steps(list@) =~= steps(old(list)@).push(step.step()));
}

/// Plans to open an entry. Where directories are not allowed, only a single file can be opened.
pub fn try_open_with_root(
    entry: &TrzszDirectoryEntry,
    local_root: &str,
    claim_top_level: bool,
    overwrite: bool,
    constraints: &DownloadConstraintTracker,
) -> (r: Result<Vec<OpenStep>, TrzszError>)
    requires
        entry.path_name@.len() > 0,
    ensures
        match r {
            Ok(list) => (constraints.policy.allow_directory || (!entry.is_dir
                && entry.path_name@.len() == 1)) && steps(list@) == open_steps(
                texts(entry.path_name@),
                entry.is_dir,
                local_root@,
                claim_top_level,
                overwrite,
            ),
            Err(error) => !constraints.policy.allow_directory && (entry.is_dir
                || entry.path_name@.len() > 1) && is_directory_refusal(error),
        },
{
    let total: usize = entry.path_name.len();
    let nested = entry.is_dir || total > 1;
    if nested {
        match constraints.ensure_directory_allowed() {
            Ok(()) => {},
            Err(error) => return Err(error),
        }
    }
    let ghost names = texts(entry.path_name@);
    let ghost root = local_root@;
    let ghost top = if claim_top_level && nested {
        seq![StepView::CreateDirectory { path: root, must_create: !overwrite }]
    } else {
        Seq::empty()
    };
    let mut list: Vec<OpenStep> = Vec::new();
    assert(steps(list@) =~= Seq::empty());
    if claim_top_level && nested {
        add_step(
            &mut list,
            OpenStep::CreateDirectory { path: local_root.to_owned(), must_create: !overwrite },
        );
    }
    assert(steps(list@) =~= top);
    if !entry.is_dir {
        add_step(&mut list, OpenStep::CheckFileCount);
    }
    let ghost base = if entry.is_dir {
        top
    } else {
        top + seq![StepView::CheckFileCount]
    };
    assert(steps(list@) =~= base);
    let last: usize = if entry.is_dir {
        total
    } else {
        total - 1
    };
    let mut n: usize = 1;
    assert(base + way_steps(names, root, 1) =~= base);
    assert(way_steps(names, root, 0) =~= way_steps(names, root, 1));
    while n < last
        invariant
            1 <= n,
            n <= last || n == 1,
            last <= total == entry.path_name@.len(),
            names == texts(entry.path_name@),
            root == local_root@,
            steps(list@) == base + way_steps(names, root, n as int),
        decreases last - n,
    {
        let path = local_path_text(&entry.path_name, local_root, n + 1);
        let ghost before = way_steps(names, root, n as int);
        add_step(&mut list, OpenStep::CreateDirectory { path, must_create: false });
        assert(steps(list@) =~= base + way_steps(names, root, n + 1));
        n = n + 1;
    }
    assert(steps(list@) == base + way_steps(names, root, last as int));
    if !entry.is_dir {
        let path = local_path_text(&entry.path_name, local_root, total);
        add_step(&mut list, OpenStep::OpenFile { path });
        assert(steps(list@) =~= open_steps(names, entry.is_dir, root, claim_top_level, overwrite));
    } else {
        assert(steps(list@) =~= open_steps(names, entry.is_dir, root, claim_top_level, overwrite));
    }
    Ok(list)
}

/// The directories that were created for an entry, in the order of their creation.
pub struct CreatedDirectories {
    pub paths: Vec<String>,
}

impl CreatedDirectories {
    pub fn new() -> (r: Self)
        ensures
            r.paths@.len() == 0,
    {
        CreatedDirectories { paths: Vec::new() }
    }

    /// Notes a directory that was asked for; one that was there already is not ours to remove.
    pub fn ensure_download_directory(&mut self, path: String, created: bool)
        ensures
            texts(final(self).paths@) == (if created {
                texts(old(self).paths@).push(path@)
            } else {
                texts(old(self).paths@)
            }),
    {
        if created {
            self.paths.push(path);
            assert(texts(self.paths@) =~= texts(old(self).paths@).push(path@));
        }
    }

    /// The directories to remove where the entry could not be opened: the last one first, so that
    /// each is empty when it goes.
    pub fn cleanup(&self) -> (r: Vec<String>)
        ensures
            texts(r@) == texts(self.paths@).reverse(),
    {
        let mut out: Vec<String> = Vec::new();
        let mut i: usize = self.paths.len();
        while i > 0
            invariant
                i <= self.paths@.len(),
                out@.len() == self.paths@.len() - i,
                forall|k: int|
                    0 <= k < out@.len() ==> (#[trigger] out@[k])@ == self.paths@[self.paths@.len()
                        - 1 - k]@,
            decreases i,
        {
            i = i - 1;
            out.push(self.paths[i].clone());
        }
        assert(texts(out@) =~= texts(self.paths@).reverse());
        out
    }
}

/// The state of a file that is being received.
pub struct DownloadWriter {
    pub file_name: String,
    pub finished: bool,
    pub aborted: bool,
    pub finish_started: bool,
}

/// What deleting a received file takes first.
#[derive(Clone, Copy, Debug, PartialEq, Eq, Structural)]
pub enum DeleteStep {
    RemoveFile,
    AbortWriter,
    Nothing,
}

impl DownloadWriter {
    pub fn new(file_name: String) -> (r: Self)
        ensures
            r.file_name@ == file_name@ && !r.finished && !r.aborted && !r.finish_started,
    {
        DownloadWriter { file_name, finished: false, aborted: false, finish_started: false }
    }

    pub open spec fn is_open(self) -> bool {
        !self.finished && !self.aborted
    }

    /// Whether data may be written: the file is open and the limit is kept.
    pub fn write_file(&self, length: usize, constraints: &mut DownloadConstraintTracker) -> (r: Result<
        (),
        TrzszError,
    >)
        ensures
            !self.is_open() ==> *final(constraints) == *old(constraints) && (r matches Err(
                TrzszError::InvalidState(message),
            ) && message@ == "Download writer is no longer active: "@ + self.file_name@),
            self.is_open() ==> {
                &&& final(constraints).policy == old(constraints).policy
                &&& final(constraints).file_count == old(constraints).file_count
                &&& final(constraints).total_bytes == (if old(constraints).total_bytes + length
                    <= u64::MAX {
                    old(constraints).total_bytes + length
                } else {
                    u64::MAX as int
                })
                &&& match r {
                    Ok(_) => final(constraints).total_bytes <= old(
                        constraints,
                    ).policy.max_total_bytes,
                    Err(error) => final(constraints).total_bytes > old(
                        constraints,
                    ).policy.max_total_bytes && (error matches TrzszError::MaxTotalBytesExceeded {
                        selected,
                        max,
                    } && selected == final(constraints).total_bytes && max == old(
                        constraints,
                    ).policy.max_total_bytes),
                }
            },
    {
        if self.finished || self.aborted {
            return Err(
                TrzszError::InvalidState(
                    concat2("Download writer is no longer active: ", self.file_name.as_str()),
                ),
            );
        }
        constraints.count_bytes(length)
    }

    /// Starts to finish the file, and says whether there is anything to do.
    pub fn begin_finish(&mut self) -> (r: bool)
        ensures
            r == old(self).is_open(),
            final(self).finish_started == (old(self).finish_started || r),
            final(self).finished == old(self).finished,
            final(self).aborted == old(self).aborted,
            final(self).file_name == old(self).file_name,
    {
        if self.finished || self.aborted {
            return false;
        }
        self.finish_started = true;
        true
    }

    /// The file is finished, or was aborted.
    pub fn end(&mut self, finished: bool)
        requires
            old(self).is_open(),
        ensures
            final(self).finished == finished && final(self).aborted == !finished,
            final(self).finish_started == old(self).finish_started,
            final(self).file_name == old(self).file_name,
    {
        self.finished = finished;
        self.aborted = !finished;
    }

    /// How to delete the file: a finished one is removed, an open one aborted.
    pub fn begin_delete(&self) -> (r: DeleteStep)
        ensures
            r == (if self.finished {
                DeleteStep::RemoveFile
            } else if self.aborted {
                DeleteStep::Nothing
            } else {
                DeleteStep::AbortWriter
            }),
    {
        if self.finished {
            DeleteStep::RemoveFile
        } else if self.aborted {
            DeleteStep::Nothing
        } else {
            DeleteStep::AbortWriter
        }
    }

    /// An abort that failed because the writer is gone: while finishing it may have become a file,
    /// which is then removed. Any other error comes out.
    pub fn abort_failed(&self, error: TrzszError) -> (r: Option<TrzszError>)
        ensures
            r == (if self.finish_started && error is HandleNotFound {
                None
            } else {
                Some(error)
            }),
    {
        let gone = match &error {
            TrzszError::HandleNotFound(_) => true,
            _ => false,
        };
        if self.finish_started && gone {
            None
        } else {
            Some(error)
        }
    }
}

/// Whether a piece of a path is a name.
pub open spec fn is_path_name(piece: Seq<char>) -> bool {
    piece.len() > 0 && piece != "."@
}

/// The last name of a path; `None` where it has none or goes up.
pub open spec fn last_name(parts: Seq<Seq<char>>) -> Option<Seq<char>>
    decreases parts.len(),
{
    if parts.len() == 0 {
        None
    } else if is_path_name(parts.last()) {
        if parts.last() == ".."@ {
            None
        } else {
            Some(parts.last())
        }
    } else {
        last_name(parts.drop_last())
    }
}

/// A path without the separators at its end.
pub open spec fn without_separators(path: Seq<char>) -> Seq<char>
    decreases path.len(),
{
    if path.len() > 0 && (path.last() == '/' || path.last() == '\\') {
        without_separators(path.drop_last())
    } else {
        path
    }
}

/// The name of a directory for the user: its last one, or what is there of the path.
pub open spec fn base_name_of(path: Seq<char>) -> Seq<char> {
    match last_name(pieces(path, '/')) {
        Some(name) => name,
        None => without_separators(path),
    }
}

pub fn base_name(path: &str) -> (r: String)
    ensures
        r@ == base_name_of(path@),
{
    let parts = split_on(path, '/');
    let ghost all = texts(parts@);
    let mut n: usize = parts.len();
    assert(all.take(n as int) =~= all);
    while n > 0
        invariant
            n <= parts@.len(),
            all == texts(parts@),
            all == pieces(path@, '/'),
            last_name(all) == last_name(all.take(n as int)),
        decreases n,
    {
        let part = parts[n - 1].as_str();
        assert(all.take(n as int).last() == part@);
        assert(all.take(n as int).drop_last() =~= all.take(n - 1));
        if !part.is_empty() && !same(part, ".") {
            if same(part, "..") {
                return bare_path(path);
            }
            return part.to_owned();
        }
        n = n - 1;
    }
    assert(all.take(0) =~= Seq::empty());
    bare_path(path)
}

fn bare_path(path: &str) -> (r: String)
    ensures
        r@ == without_separators(path@),
{
    let mut end: usize = path.unicode_len();
    assert(path@.take(end as int) =~= path@);
    while end > 0 && (path.get_char(end - 1) == '/' || path.get_char(end - 1) == '\\')
        invariant
            end <= path@.len(),
            without_separators(path@.take(end as int)) == without_separators(path@),
        decreases end,
    {
        assert(path@.take(end as int).drop_last() =~= path@.take(end - 1));
        end = end - 1;
    }
    assert(path@.subrange(0, end as int) =~= path@.take(end as int));
    path.substring_char(0, end).to_owned()
}

/// The first line of what is said of saved files.
pub open spec fn saved_heading(count: nat, dest_path: Seq<char>) -> Seq<char> {
    "Saved "@ + decimal(count) + " "@ + (if count > 1 {
        "files/directories"@
    } else {
        "file/directory"@
    }) + (if dest_path.len() > 0 {
        " to "@ + dest_path
    } else {
        Seq::empty()
    })
}

pub fn format_saved_files(file_names: &Vec<String>, dest_path: &str) -> (r: String)
    ensures
        r@ == joined(
            seq![saved_heading(file_names@.len(), dest_path@)] + texts(file_names@),
            "\r\n- "@,
        ),
{
    let mut message = concat4(
        "Saved ",
        decimal_text(file_names.len() as u64).as_str(),
        " ",
        if file_names.len() > 1 {
            "files/directories"
        } else {
            "file/directory"
        },
    );
    if !dest_path.is_empty() {
        message.append(" to ");
        message.append(dest_path);
    }
    assert(message@ =~= saved_heading(file_names@.len(), dest_path@));
    let mut lines: Vec<String> = Vec::new();
    lines.push(message);
    let ghost all = seq![saved_heading(file_names@.len(), dest_path@)] + texts(file_names@);
    let mut i: usize = 0;
    assert(texts(lines@) =~= all.take(1));
    while i < file_names.len()
        invariant
            i <= file_names.len(),
            all == seq![saved_heading(file_names@.len(), dest_path@)] + texts(file_names@),
            texts(lines@) == all.take(i + 1),
        decreases file_names.len() - i,
    {
        let ghost before = lines@;
        lines.push(file_names[i].clone());
        assert(texts(lines@) =~= texts(before).push(file_names@[i as int]@));
        assert(texts(lines@) =~= all.take(i + 2));
        i = i + 1;
    }
    assert(all.take(i + 1) =~= all);
    join(lines.as_slice(), "\r\n- ")
}

/// What a session reports to the application.
pub enum TerminalEvent {
    TrzszTransferPrompt(TrzszPromptRequest),
    CwdChanged(String),
    Other,
}

/// The directories that events report.
pub open spec fn reported_cwds(events: Seq<TerminalEvent>) -> Seq<Seq<char>>
    decreases events.len(),
{
    if events.len() == 0 {
        Seq::empty()
    } else {
        match events.last() {
            TerminalEvent::CwdChanged(cwd) => reported_cwds(events.drop_last()).push(cwd@),
            _ => reported_cwds(events.drop_last()),
        }
    }
}

/// Whether no event asks for a transfer.
pub open spec fn no_prompt(events: Seq<TerminalEvent>) -> bool {
    forall|i: int| 0 <= i < events.len() ==> !((#[trigger] events[i]) is TrzszTransferPrompt)
}

/// What a tab shows of transfers.
pub struct TransferPanel {
    pub prompt: Option<TrzszPromptRequest>,
    pub active: bool,
    pub status: Option<String>,
}

impl TransferPanel {
    pub fn new() -> (r: Self)
        ensures
            r.prompt is None && !r.active && r.status is None,
    {
        TransferPanel { prompt: None, active: false, status: None }
    }

    /// Takes up what a session reports. While nothing is asked or under way, the first request
    /// becomes the prompt and what follows it is passed over. The directories that were reported
    /// come out.
    pub fn take_events(&mut self, events: &Vec<TerminalEvent>) -> (r: Vec<String>)
        ensures
            final(self).active == old(self).active,
            final(self).status == old(self).status,
            if old(self).prompt is Some || old(self).active || no_prompt(events@) {
                final(self).prompt == old(self).prompt && texts(r@) == reported_cwds(events@)
            } else {
                exists|n: int| #[trigger]
                    first_prompt(events@, n) && (events@[n] matches TerminalEvent::TrzszTransferPrompt(
                        request,
                    ) && final(self).prompt == Some(request)) && texts(r@) == reported_cwds(
                        events@.take(n),
                    )
            },
    {
        let asking = self.prompt.is_none() && !self.active;
        let mut cwds: Vec<String> = Vec::new();
        let mut i: usize = 0;
        assert(events@.take(0) =~= Seq::empty());
        assert(texts(cwds@) =~= Seq::empty());
        while i < events.len()
            invariant
                i <= events.len(),
                *self == *old(self),
                asking == (self.prompt is None && !self.active),
                asking ==> no_prompt(events@.take(i as int)),
                texts(cwds@) == reported_cwds(events@.take(i as int)),
            decreases events.len() - i,
        {
            assert(events@.take(i + 1).drop_last() =~= events@.take(i as int));
            match &events[i] {
                TerminalEvent::TrzszTransferPrompt(request) => {
                    if asking {
                        self.prompt = Some(*request);
                        assert(first_prompt(events@, i as int));
                        assert(!no_prompt(events@)) by {
                            assert(events@[i as int] is TrzszTransferPrompt);
                        }
                        return cwds;
                    }
                },
                TerminalEvent::CwdChanged(cwd) => {
                    let ghost before = cwds@;
                    cwds.push(cwd.clone());
                    assert(texts(cwds@) =~= texts(before).push(cwd@));
                },
                TerminalEvent::Other => {},
            }
            i = i + 1;
        }
        assert(events@.take(i as int) =~= events@);
        cwds
    }

    /// Ends a transfer whose session has ended, and says whether there was one.
    pub fn interrupt(&mut self, running: bool) -> (r: bool)
        ensures
            r == (old(self).active && !running),
            if r {
                final(self).prompt is None && !final(self).active && (
                final(self).status matches Some(text) && text@ == "连接已断开，传输已中断"@)
            } else {
                *final(self) == *old(self)
            },
    {
        if self.active && !running {
            self.status = Some("连接已断开，传输已中断".to_owned());
            self.active = false;
            self.prompt = None;
            true
        } else {
            false
        }
    }

    /// The user has answered the prompt; `available` says whether the session handed the transfer
    /// over. It comes out what to transfer.
    pub fn start(&mut self, available: bool) -> (r: Option<TrzszPromptRequest>)
        ensures
            final(self).prompt is None,
            r == (if available {
                old(self).prompt
            } else {
                None
            }),
            match old(self).prompt {
                None => final(self).active == old(self).active && final(self).status == old(
                    self,
                ).status,
                Some(_) => if available {
                    final(self).active && final(self).status is None
                } else {
                    final(self).active == old(self).active && (final(self).status matches Some(text)
                        && text@ == "未能取得传输句柄"@)
                },
            },
    {
        let mut request: Option<TrzszPromptRequest> = None;
        std::mem::swap(&mut request, &mut self.prompt);
        if request.is_none() {
            return None;
        }
        if !available {
            self.status = Some("未能取得传输句柄".to_owned());
            return None;
        }
        self.status = None;
        self.active = true;
        request
    }

    /// Takes up what the worker reports; `disconnected` says that it is gone. It comes out what is
    /// shown on the terminal, and whether the transfer has ended.
    pub fn poll_worker(&mut self, events: &Vec<TrzszWorkerEvent>, disconnected: bool) -> (r: (
        Vec<Vec<u8>>,
        bool,
    ))
        ensures
            outputs(r.0@) == worker_outputs(events@),
            r.1 == (has_ended(events@) || (disconnected && old(self).active)),
            if r.1 {
                !final(self).active && final(self).prompt is None
            } else {
                final(self).active == old(self).active && final(self).prompt == old(self).prompt
            },
            match ending_text(events@) {
                Some(text) => final(self).status matches Some(status) && status@ == text,
                None => if r.1 {
                    final(self).status matches Some(status) && status@
                        == "Trzsz 传输进程意外退出"@
                } else {
                    final(self).status == old(self).status
                },
            },
    {
        let mut shown: Vec<Vec<u8>> = Vec::new();
        let mut finished = false;
        let mut i: usize = 0;
        assert(events@.take(0) =~= Seq::empty());
        assert(outputs(shown@) =~= Seq::empty());
        while i < events.len()
            invariant
                i <= events.len(),
                self.active == old(self).active,
                self.prompt == old(self).prompt,
                outputs(shown@) == worker_outputs(events@.take(i as int)),
                finished == has_ended(events@.take(i as int)),
                match ending_text(events@.take(i as int)) {
                    Some(text) => self.status matches Some(status) && status@ == text,
                    None => self.status == old(self).status,
                },
            decreases events.len() - i,
        {
            assert(events@.take(i + 1).drop_last() =~= events@.take(i as int));
            match &events[i] {
                TrzszWorkerEvent::TerminalOutput(bytes) => {
                    let mut copy: Vec<u8> = Vec::new();
                    copy.extend_from_slice(bytes.as_slice());
                    assert(copy@ =~= bytes@);
                    let ghost before = shown@;
                    shown.push(copy);
                    assert(outputs(shown@) =~= outputs(before).push(bytes@));
                },
                TrzszWorkerEvent::Completed => {
                    self.status = Some("Trzsz 传输完成".to_owned());
                    finished = true;
                },
                TrzszWorkerEvent::Cancelled => {
                    self.status = Some("Trzsz 传输已取消".to_owned());
                    finished = true;
                },
                TrzszWorkerEvent::Failed { code, detail, message } => {
                    let suffix = match detail {
                        Some(detail) => concat3(" (", detail.as_str(), ")"),
                        None => {
                            let none = String::new();
                            assert(none@ =~= Seq::empty());
                            none
                        },
                    };
                    let head = concat4("Trzsz 传输失败 [", code.as_str(), "]", suffix.as_str());
                    self.status = Some(concat3(head.as_str(), ": ", message.as_str()));
                    finished = true;
                },
            }
            i = i + 1;
        }
        assert(events@.take(i as int) =~= events@);
        proof {
            lemma_ended_has_text(events@);
        }
        if finished {
            self.active = false;
            self.prompt = None;
            (shown, true)
        } else if disconnected && self.active {
            self.status = Some("Trzsz 传输进程意外退出".to_owned());
            self.active = false;
            self.prompt = None;
            (shown, true)
        } else {
            (shown, false)
        }
    }
}

/// Whether the `n`th event is the first that asks for a transfer.
pub open spec fn first_prompt(events: Seq<TerminalEvent>, n: int) -> bool {
    0 <= n < events.len() && events[n] is TrzszTransferPrompt && no_prompt(events.take(n))
}

pub open spec fn outputs(list: Seq<Vec<u8>>) -> Seq<Seq<u8>> {
    Seq::new(list.len(), |i: int| list[i]@)
}

/// What a worker shows on the terminal.
pub open spec fn worker_outputs(events: Seq<TrzszWorkerEvent>) -> Seq<Seq<u8>>
    decreases events.len(),
{
    if events.len() == 0 {
        Seq::empty()
    } else {
        match events.last() {
            TrzszWorkerEvent::TerminalOutput(bytes) => worker_outputs(events.drop_last()).push(
                bytes@,
            ),
            _ => worker_outputs(events.drop_last()),
        }
    }
}

/// Whether a worker reports the end of its transfer.
pub open spec fn has_ended(events: Seq<TrzszWorkerEvent>) -> bool
    decreases events.len(),
{
    events.len() > 0 && (!(events.last() is TerminalOutput) || has_ended(events.drop_last()))
}

/// What is said of the end that was reported last.
pub open spec fn ending_text(events: Seq<TrzszWorkerEvent>) -> Option<Seq<char>>
    decreases events.len(),
{
    if events.len() == 0 {
        None
    } else {
        match events.last() {
            TrzszWorkerEvent::TerminalOutput(_) => ending_text(events.drop_last()),
            TrzszWorkerEvent::Completed => Some("Trzsz 传输完成"@),
            TrzszWorkerEvent::Cancelled => Some("Trzsz 传输已取消"@),
            TrzszWorkerEvent::Failed { code, detail, message } => Some(
                "Trzsz 传输失败 ["@ + code@ + "]"@ + (match detail {
                    Some(detail) => " ("@ + detail@ + ")"@,
                    None => Seq::empty(),
                }) + ": "@ + message@,
            ),
        }
    }
}

proof fn lemma_ended_has_text(events: Seq<TrzszWorkerEvent>)
    ensures
        has_ended(events) == (ending_text(events) is Some),
    decreases events.len(),
{
    if events.len() > 0 {
        lemma_ended_has_text(events.drop_last());
    }
}

/// The title and the hint of a prompt.
pub fn prompt_text(request: &TrzszPromptRequest) -> (r: (&'static str, &'static str))
    ensures
        match (request.direction, request.selection) {
            (TrzszTransferDirection::Upload, TrzszTransferSelection::File) => r.0@
                == "上传文件 (trz)"@ && r.1@ == "远程请求上传文件"@,
            (TrzszTransferDirection::Upload, TrzszTransferSelection::Directory) => r.0@
                == "上传目录 (trz)"@ && r.1@ == "远程请求上传目录"@,
            (TrzszTransferDirection::Download, _) => r.0@ == "下载文件 (tsz)"@ && r.1@
                == "远程请求下载文件"@,
        },
{
    match (request.direction, request.selection) {
        (TrzszTransferDirection::Upload, TrzszTransferSelection::File) => (
            "上传文件 (trz)",
            "远程请求上传文件",
        ),
        (TrzszTransferDirection::Upload, TrzszTransferSelection::Directory) => (
            "上传目录 (trz)",
            "远程请求上传目录",
        ),
        (TrzszTransferDirection::Download, _) => ("下载文件 (tsz)", "远程请求下载文件"),
    }
}

/// The names that are tried differ from attempt to attempt.
pub proof fn law_attempts_differ(base: Seq<char>, a: nat, b: nat)
    requires
        a != b,
    ensures
        collision_name(base, a) != collision_name(base, b),
{
    reveal_strlit(".");
    if a > 0 && b > 0 {
        let first = decimal((a - 1) as nat);
        let second = decimal((b - 1) as nat);
        if collision_name(base, a) == collision_name(base, b) {
            let head = base + "."@;
            assert((head + first).skip(head.len() as int) =~= first);
            assert((head + second).skip(head.len() as int) =~= second);
            crate::text::law_decimal_round_trip((a - 1) as nat);
            crate::text::law_decimal_round_trip((b - 1) as nat);
        }
    } else if a > 0 {
        assert(collision_name(base, a).len() > base.len());
    } else {
        assert(collision_name(base, b).len() > base.len());
    }
}

/// Entries are counted one by one: of two lists together there are as many files and bytes as of
/// both; a directory counts nothing, a file counts once and with its size.
pub proof fn law_entries_add_up(a: Seq<UploadEntry>, b: Seq<UploadEntry>)
    ensures
        file_count(a + b) == file_count(a) + file_count(b),
        total_size(a + b) == total_size(a) + total_size(b),
        b.len() == 1 && b[0].is_dir ==> file_count(b) == 0 && total_size(b) == 0,
        b.len() == 1 && !b[0].is_dir ==> file_count(b) == 1 && total_size(b) == b[0].size,
        any_directory(a + b) == (any_directory(a) || any_directory(b)),
        b.len() == 1 ==> any_directory(b) == (b[0].is_dir || b[0].rel_path@.len() > 1),
    decreases b.len(),
{
    let all = a + b;
    if b.len() == 0 {
        assert(all =~= a);
    } else {
        law_entries_add_up(a, b.drop_last());
        assert(all.drop_last() =~= a + b.drop_last());
        assert(all.last() == b.last());
        if b.len() == 1 {
            assert(b.drop_last() =~= Seq::<UploadEntry>::empty());
            assert(file_count(b.drop_last()) == 0);
            assert(total_size(b.drop_last()) == 0);
            assert(needs_directory(b[0]) == (b[0].is_dir || b[0].rel_path@.len() > 1));
        }
    }
    if any_directory(a) {
        let i = choose|i: int| 0 <= i < a.len() && needs_directory(#[trigger] a[i]);
        assert(all[i] == a[i]);
    }
    if any_directory(b) {
        let i = choose|i: int| 0 <= i < b.len() && needs_directory(#[trigger] b[i]);
        assert(all[a.len() + i] == b[i]);
    }
    if any_directory(all) {
        let i = choose|i: int| 0 <= i < all.len() && needs_directory(#[trigger] all[i]);
        if i < a.len() {
            assert(all[i] == a[i]);
        } else {
            assert(all[i] == b[i - a.len()]);
        }
    }
}

/// The path that is reported as a duplicate occurs twice, and none before it does.
pub proof fn law_the_first_duplicate_is_reported(paths: Seq<Seq<char>>, n: int)
    requires
        0 < n <= paths.len(),
        paths.take(n - 1).no_duplicates(),
        paths.take(n - 1).contains(paths[n - 1]),
    ensures
        first_duplicate(paths) == Some(paths[n - 1]),
    decreases paths.len(),
{
    if n == paths.len() {
        assert(paths.drop_last() =~= paths.take(n - 1));
        law_duplicates_are_found(paths.drop_last());
    } else {
        let head = paths.drop_last();
        assert(head.take(n - 1) =~= paths.take(n - 1));
        assert(head[n - 1] == paths[n - 1]);
        law_the_first_duplicate_is_reported(head, n);
    }
}

/// A file is first saved under its own name, then under that name with a point and 0, 1 and so
/// on behind it.
pub proof fn law_other_names_are_numbered(base: Seq<char>, attempt: nat)
    ensures
        collision_name(base, 0) == base,
        collision_name(base, attempt + 1) == base + seq!['.'] + decimal(attempt),
{
    reveal_strlit(".");
    assert("."@ =~= seq!['.']);
}

/// An existing file makes another name worth trying; of other errors only those do that say that
/// the path leads to a directory or a file.
pub proof fn law_only_taken_names_are_retried(error: TrzszError)
    ensures
        error is AlreadyExists ==> is_collision(error),
        !(error is AlreadyExists) && !(error is InvalidPath) ==> !is_collision(error),
        error matches TrzszError::InvalidPath(message) ==> (is_collision(error) == (occurs(
            message@,
            "resolves to a directory"@,
        ) || occurs(message@, "resolves to a file"@) || occurs(
            message@,
            "Target path is a directory"@,
        ))),
        MAX_NAME_ATTEMPTS == 1000,
{
}

/// Only the text that stands for a stop is one, and only the refusal of the settings is theirs.
pub proof fn law_stops_are_told_from_errors(error: TrzszError)
    ensures
        is_stopped(error) ==> error is InvalidState,
        is_directory_refusal(error) ==> error is DirectoryNotAllowed,
        error matches TrzszError::InvalidState(message) ==> (is_stopped(error) == (message@
            == seq!['S', 't', 'o', 'p', 'p', 'e', 'd'])),
        error matches TrzszError::DirectoryNotAllowed(place) ==> (is_directory_refusal(error) == (
        place@ == "terminal settings"@)),
{
    reveal_strlit("Stopped");
    assert("Stopped"@ =~= seq!['S', 't', 'o', 'p', 'p', 'e', 'd']);
}

/// Where an entry of one name is saved: at the local name itself; each further name is one
/// directory further down.
pub proof fn law_entries_are_saved_below_the_root(
    names: Seq<Seq<char>>,
    local_root: Seq<char>,
    n: int,
)
    requires
        1 <= n <= names.len(),
    ensures
        local_path(names, local_root, 1) == local_root,
        n >= 2 ==> local_path(names, local_root, n) == local_path(names, local_root, n - 1)
            + seq!['/'] + names[n - 1],
{
    reveal_strlit("/");
    assert("/"@ =~= seq!['/']);
    let all = names.update(0, local_root);
    assert(all.take(1) =~= seq![local_root]);
    crate::text::law_joining_adds_one_part(Seq::empty(), local_root, "/"@);
    assert(Seq::<Seq<char>>::empty().push(local_root) =~= seq![local_root]);
    if n >= 2 {
        assert(all.take(n) =~= all.take(n - 1).push(names[n - 1]));
        crate::text::law_joining_adds_one_part(all.take(n - 1), names[n - 1], "/"@);
        assert(local_path(names, local_root, n) =~= local_path(names, local_root, n - 1)
            + seq!['/'] + names[n - 1]);
    }
}

/// Opening a file counts it before anything is made for it and ends with the file at its whole
/// path; opening a directory opens no file. The directories that are made on the way are those
/// above it, from the top down.
pub proof fn law_opening_makes_the_way_first(
    names: Seq<Seq<char>>,
    is_dir: bool,
    local_root: Seq<char>,
    claim_top_level: bool,
    overwrite: bool,
    k: int,
)
    requires
        names.len() >= 1,
    ensures
        ({
            let done = open_steps(names, is_dir, local_root, claim_top_level, overwrite);
            let n = names.len() as int;
            let top: int = if claim_top_level && (is_dir || n > 1) {
                1
            } else {
                0
            };
            let skipped: int = if is_dir {
                top
            } else {
                top + 1
            };
            &&& top == 1 ==> done[0] == (StepView::CreateDirectory {
                path: local_root,
                must_create: !overwrite,
            })
            &&& !is_dir ==> done[top] == StepView::CheckFileCount
            &&& !is_dir ==> done.last() == (StepView::OpenFile {
                path: local_path(names, local_root, n),
            })
            &&& is_dir ==> done.len() == top + n - 1
            &&& !is_dir && n == 1 ==> done.len() == top + 2
            &&& !is_dir && n > 1 ==> done.len() == top + n
            &&& 2 <= k && k <= (if is_dir {
                n
            } else {
                n - 1
            }) ==> done[skipped + k - 2] == (StepView::CreateDirectory {
                path: local_path(names, local_root, k),
                must_create: false,
            })
        }),
{
    let n = names.len() as int;
    lemma_way_steps(names, local_root, n, k);
    lemma_way_steps(names, local_root, n - 1, k);
}

proof fn lemma_way_steps(names: Seq<Seq<char>>, local_root: Seq<char>, n: int, k: int)
    ensures
        way_steps(names, local_root, n).len() == (if n <= 1 {
            0
        } else {
            n - 1
        }),
        2 <= k <= n ==> way_steps(names, local_root, n)[k - 2] == (StepView::CreateDirectory {
            path: local_path(names, local_root, k),
            must_create: false,
        }),
    decreases n,
{
    if n > 1 {
        lemma_way_steps(names, local_root, n - 1, k);
    }
}

/// A path that ends in a name has that name for its base, whatever stands before it.
pub proof fn law_the_last_name_is_the_base(front: Seq<char>, name: Seq<char>)
    requires
        name.len() > 0,
        !name.contains('/'),
        name != seq!['.'],
        name != seq!['.', '.'],
    ensures
        base_name_of(front.push('/') + name) == name,
        base_name_of(name) == name,
        base_name_of((front.push('/') + name).push('/')) == name,
{
    reveal_strlit(".");
    reveal_strlit("..");
    assert("."@ =~= seq!['.']);
    assert(".."@ =~= seq!['.', '.']);
    crate::text::law_a_string_without_separator_is_one_piece(name, '/');
    crate::text::law_pieces_of_joined_strings(front, '/', name);
    let parts = pieces(front.push('/') + name, '/');
    assert(parts.last() == name);
    let whole = front.push('/') + name;
    crate::text::law_pieces_of_joined_strings(whole, '/', Seq::empty());
    assert(whole.push('/') + Seq::<char>::empty() =~= whole.push('/'));
    let longer = pieces(whole.push('/'), '/');
    assert(pieces(Seq::<char>::empty(), '/') =~= seq![Seq::<char>::empty()]);
    assert(longer.last() =~= Seq::<char>::empty());
    assert(longer.drop_last() =~= parts);
}

/// What a session reports is passed on in the order in which it came, directories only.
pub proof fn law_directories_are_passed_on_in_order(a: Seq<TerminalEvent>, b: Seq<TerminalEvent>)
    ensures
        reported_cwds(a + b) == reported_cwds(a) + reported_cwds(b),
        b.len() == 1 ==> reported_cwds(b) == match b[0] {
            TerminalEvent::CwdChanged(cwd) => seq![cwd@],
            _ => Seq::empty(),
        },
    decreases b.len(),
{
    if b.len() == 0 {
        assert(a + b =~= a);
        assert(reported_cwds(a + b) =~= reported_cwds(a) + reported_cwds(b));
    } else {
        law_directories_are_passed_on_in_order(a, b.drop_last());
        assert((a + b).drop_last() =~= a + b.drop_last());
        assert(reported_cwds(a + b) =~= reported_cwds(a) + reported_cwds(b));
        if b.len() == 1 {
            assert(b.drop_last() =~= Seq::<TerminalEvent>::empty());
            assert(reported_cwds(b.drop_last()) =~= Seq::<Seq<char>>::empty());
            assert(reported_cwds(b) =~= match b[0] {
                TerminalEvent::CwdChanged(cwd) => seq![cwd@],
                _ => Seq::empty(),
            });
        }
    }
}

/// What a worker writes reaches the terminal in the order in which it was written; a transfer has
/// ended as soon as anything else is reported, and the last such report is the one that is told.
pub proof fn law_worker_reports_in_order(a: Seq<TrzszWorkerEvent>, b: Seq<TrzszWorkerEvent>)
    ensures
        worker_outputs(a + b) == worker_outputs(a) + worker_outputs(b),
        b.len() == 1 ==> worker_outputs(b) == match b[0] {
            TrzszWorkerEvent::TerminalOutput(bytes) => seq![bytes@],
            _ => Seq::empty(),
        },
        has_ended(a + b) == (has_ended(a) || has_ended(b)),
        b.len() == 1 ==> has_ended(b) == !(b[0] is TerminalOutput),
        ending_text(b) is Some ==> ending_text(a + b) == ending_text(b),
        ending_text(b) is None ==> ending_text(a + b) == ending_text(a),
        ending_text(b) is Some == has_ended(b),
    decreases b.len(),
{
    lemma_ended_has_text(b);
    if b.len() == 0 {
        assert(a + b =~= a);
        assert(worker_outputs(a + b) =~= worker_outputs(a) + worker_outputs(b));
    } else {
        law_worker_reports_in_order(a, b.drop_last());
        assert((a + b).drop_last() =~= a + b.drop_last());
        assert(worker_outputs(a + b) =~= worker_outputs(a) + worker_outputs(b));
        if b.len() == 1 {
            assert(b.drop_last() =~= Seq::<TrzszWorkerEvent>::empty());
            assert(worker_outputs(b.drop_last()) =~= Seq::<Seq<u8>>::empty());
            assert(worker_outputs(b) =~= match b[0] {
                TrzszWorkerEvent::TerminalOutput(bytes) => seq![bytes@],
                _ => Seq::empty(),
            });
        }
    }
}

/// How an end is told: a failure with its code, its detail where it has one, and its message.
pub proof fn law_ends_are_told(code: String, detail: String, message: String)
    ensures
        ending_text(seq![TrzszWorkerEvent::Completed]) == Some("Trzsz 传输完成"@),
        ending_text(seq![TrzszWorkerEvent::Cancelled]) == Some("Trzsz 传输已取消"@),
        ending_text(seq![TrzszWorkerEvent::Failed { code, detail: None, message }]) == Some(
            "Trzsz 传输失败 ["@ + code@ + seq![']', ':', ' '] + message@,
        ),
        ending_text(seq![TrzszWorkerEvent::Failed { code, detail: Some(detail), message }])
            == Some(
            "Trzsz 传输失败 ["@ + code@ + seq![']', ' ', '('] + detail@ + seq![')', ':', ' ']
                + message@,
        ),
{
    reveal_strlit("]");
    reveal_strlit(" (");
    reveal_strlit(")");
    reveal_strlit(": ");
    assert(ending_text(
        seq![TrzszWorkerEvent::Failed { code, detail: None, message }],
    )->0 =~= "Trzsz 传输失败 ["@ + code@ + seq![']', ':', ' '] + message@);
    assert(ending_text(
        seq![TrzszWorkerEvent::Failed { code, detail: Some(detail), message }],
    )->0 =~= "Trzsz 传输失败 ["@ + code@ + seq![']', ' ', '('] + detail@ + seq![')', ':', ' ']
        + message@);
}

/// The heading over saved files gives their number, and where they lie where that is known.
pub proof fn law_saved_files_are_counted(count: nat, dest_path: Seq<char>)
    ensures
        dest_path.len() == 0 && count > 1 ==> saved_heading(count, dest_path) == "Saved "@
            + decimal(count) + " files/directories"@,
        dest_path.len() == 0 && count <= 1 ==> saved_heading(count, dest_path) == "Saved "@
            + decimal(count) + " file/directory"@,
        dest_path.len() > 0 ==> saved_heading(count, dest_path) == saved_heading(
            count,
            Seq::empty(),
        ) + seq![' ', 't', 'o', ' '] + dest_path,
{
    reveal_strlit(" ");
    reveal_strlit(" to ");
    reveal_strlit("files/directories");
    reveal_strlit(" files/directories");
    reveal_strlit("file/directory");
    reveal_strlit(" file/directory");
    assert(" "@ + "files/directories"@ =~= " files/directories"@);
    assert(" "@ + "file/directory"@ =~= " file/directory"@);
    assert(" to "@ =~= seq![' ', 't', 'o', ' ']);
    if dest_path.len() == 0 {
        assert(saved_heading(count, dest_path) =~= "Saved "@ + decimal(count) + (if count > 1 {
            " files/directories"@
        } else {
            " file/directory"@
        }));
    } else {
        assert(saved_heading(count, dest_path) =~= saved_heading(count, Seq::empty()) + seq![
            ' ',
            't',
            'o',
            ' ',
        ] + dest_path);
    }
}

/// An entry that is received is read from its own members, and has a path of at least one name.
pub proof fn law_entries_are_read_from_their_members(
    entry: TrzszDirectoryEntry,
    payload: JsonView,
    list: Seq<JsonView>,
)
    requires
        member_view(payload, "path_name"@) == Some(JsonView::List(list)),
        list.len() > 0,
    ensures
        is_entry_of(entry, payload) ==> entry.path_name@.len() == list.len(),
        is_entry_of(entry, payload) ==> forall|k: int|
            0 <= k < list.len() ==> (#[trigger] entry.path_name@[k])@ == match list[k] {
                JsonView::Text(text) => text,
                _ => Seq::empty(),
            },
        is_entry_of(entry, payload) ==> entry.is_dir == (member_view(payload, "is_dir"@) == Some(
            JsonView::Bool(true),
        )),
        is_entry_of(entry, payload) ==> match member_view(payload, "path_id"@) {
            Some(JsonView::Number(JsonNumber::Whole(n))) => entry.path_id == n,
            _ => entry.path_id == 0,
        },
{
    if is_entry_of(entry, payload) {
        let names = texts(entry.path_name@);
        assert(names == listed_names(list));
        assert forall|k: int| 0 <= k < list.len() implies (#[trigger] entry.path_name@[k])@
            == match list[k] {
            JsonView::Text(text) => text,
            _ => Seq::empty(),
        } by {
            assert(names[k] == listed_names(list)[k]);
        }
    }
}

/// A flag is set where the configuration says `true`; a pane's width is the whole number there.
pub proof fn law_configuration_is_read(config: JsonView, key: Seq<char>, n: u64)
    ensures
        flag_of(config, key) == (member_view(config, key) == Some(JsonView::Bool(true))),
        n <= usize::MAX && member_view(config, "tmux_pane_width"@) == Some(
            JsonView::Number(JsonNumber::Whole(n)),
        ) ==> pane_width(config) == Some(n as usize),
        pane_width(config) matches Some(w) ==> member_view(config, "tmux_pane_width"@) == Some(
            JsonView::Number(JsonNumber::Whole(w as u64)),
        ),
{
}

/// The path of an entry is its names with slashes between them; the first prompt is one with none
/// before it.
pub proof fn law_entries_have_their_paths(
    entries: Seq<UploadEntry>,
    i: int,
    events: Seq<TerminalEvent>,
    n: int,
    m: int,
)
    ensures
        entry_paths(entries).len() == entries.len(),
        0 <= i < entries.len() ==> entry_paths(entries)[i] == joined(
            texts(entries[i].rel_path@),
            seq!['/'],
        ),
        first_prompt(events, n) ==> 0 <= n < events.len() && events[n] is TrzszTransferPrompt,
        first_prompt(events, n) && 0 <= m < n ==> !(events[m] is TrzszTransferPrompt),
        first_prompt(events, n) && first_prompt(events, m) ==> n == m,
        no_prompt(events) && 0 <= m < events.len() ==> !(events[m] is TrzszTransferPrompt),
{
    reveal_strlit("/");
    assert("/"@ =~= seq!['/']);
    if first_prompt(events, n) && 0 <= m < n {
        assert(events.take(n)[m] == events[m]);
    }
    if first_prompt(events, n) && first_prompt(events, m) {
        if n < m {
            assert(events.take(m)[n] == events[n]);
        } else if m < n {
            assert(events.take(n)[m] == events[m]);
        }
    }
}

/// Nothing and a single dot name no entry of a path; every other piece does.
pub proof fn law_pieces_of_paths_are_names(piece: Seq<char>)
    ensures
        !is_path_name(Seq::empty()),
        !is_path_name(seq!['.']),
        piece.len() > 1 ==> is_path_name(piece),
        piece.len() == 1 ==> (is_path_name(piece) <==> piece[0] != '.'),
{
    reveal_strlit(".");
    assert("."@ =~= seq!['.']);
    if piece.len() == 1 && piece[0] == '.' {
        assert(piece =~= seq!['.']);
    }
}

/// A writer takes data until it was finished or given up.
pub proof fn law_writers_are_open_until_they_end(writer: DownloadWriter)
    ensures
        writer.finished ==> !writer.is_open(),
        writer.aborted ==> !writer.is_open(),
        !writer.finished && !writer.aborted ==> writer.is_open(),
{
}

} // verus!
