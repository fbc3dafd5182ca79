//! The panel for the files of a remote machine, and the worker behind it.

use crate::desktop::line::{join_remote_path, law_joined_path_has_both_parts, remote_path};
use crate::desktop::units::{format_size, size_text};
use crate::json::opt_text;
use crate::text::{
    concat2, concat3, concat5, decimal, decimal_text, hex_text, hexadecimal, trim, trimmed,
};
use vstd::prelude::*;
use vstd::string::*;

verus! {

/// What the panel asks of its worker.
#[derive(Debug)]
pub enum SftpCommand {
    List(String),
    Download { remote: String, local: String },
    DownloadDir { remote: String, local: String },
    Upload { local: String, remote: String },
    UploadDir { local: String, remote: String },
    Mkdir(String),
    Delete { path: String, recursive: bool },
}

pub enum SftpCommandView {
    List(Seq<char>),
    Download { remote: Seq<char>, local: Seq<char> },
    DownloadDir { remote: Seq<char>, local: Seq<char> },
    Upload { local: Seq<char>, remote: Seq<char> },
    UploadDir { local: Seq<char>, remote: Seq<char> },
    Mkdir(Seq<char>),
    Delete { path: Seq<char>, recursive: bool },
}

impl View for SftpCommand {
    type V = SftpCommandView;

    open spec fn view(&self) -> SftpCommandView {
        match *self {
            SftpCommand::List(path) => SftpCommandView::List(path@),
            SftpCommand::Download { remote, local } => SftpCommandView::Download {
                remote: remote@,
                local: local@,
            },
            SftpCommand::DownloadDir { remote, local } => SftpCommandView::DownloadDir {
                remote: remote@,
                local: local@,
            },
            SftpCommand::Upload { local, remote } => SftpCommandView::Upload {
                local: local@,
                remote: remote@,
            },
            SftpCommand::UploadDir { local, remote } => SftpCommandView::UploadDir {
                local: local@,
                remote: remote@,
            },
            SftpCommand::Mkdir(path) => SftpCommandView::Mkdir(path@),
            SftpCommand::Delete { path, recursive } => SftpCommandView::Delete {
                path: path@,
                recursive,
            },
        }
    }
}

/// What a worker that was just started is asked for: the directory at hand.
pub fn first_files_command() -> (r: SftpCommand)
    ensures
        r@ == SftpCommandView::List("."@),
{
    SftpCommand::List(".".to_owned())
}

pub open spec fn command_views(commands: Seq<SftpCommand>) -> Seq<SftpCommandView> {
    Seq::new(commands.len(), |i: int| commands[i]@)
}

/// Whether a command moves files, so that the panel is busy until it is done.
pub open spec fn is_transfer(command: SftpCommandView) -> bool {
    command is Download || command is DownloadDir || command is Upload || command is UploadDir
}

impl SftpCommand {
    pub fn transfers(&self) -> (r: bool)
        ensures
            r == is_transfer(self@),
    {
        match self {
            SftpCommand::Download { .. } => true,
            SftpCommand::DownloadDir { .. } => true,
            SftpCommand::Upload { .. } => true,
            SftpCommand::UploadDir { .. } => true,
            _ => false,
        }
    }
}

/// A file or directory of the remote machine.
#[derive(Clone, Debug, PartialEq, Eq)]
pub struct FileInfo {
    pub name: String,
    pub path: String,
    pub is_directory: bool,
    pub size: u64,
}

#[verifier::ext_equal]
pub struct FileView {
    pub name: Seq<char>,
    pub path: Seq<char>,
    pub is_directory: bool,
    pub size: u64,
}

impl View for FileInfo {
    type V = FileView;

    open spec fn view(&self) -> FileView {
        FileView {
            name: self.name@,
            path: self.path@,
            is_directory: self.is_directory,
            size: self.size,
        }
    }
}

pub open spec fn file_views(files: Seq<FileInfo>) -> Seq<FileView> {
    Seq::new(files.len(), |i: int| files[i]@)
}

pub open spec fn opt_file(file: Option<FileInfo>) -> Option<FileView> {
    match file {
        Some(file) => Some(file@),
        None => None,
    }
}

impl FileInfo {
    fn duplicate(&self) -> (r: FileInfo)
        ensures
            r@ == self@,
    {
        FileInfo {
            name: self.name.clone(),
            path: self.path.clone(),
            is_directory: self.is_directory,
            size: self.size,
        }
    }

    /// How the file is listed.
    pub fn label(&self) -> (r: String)
        ensures
            r@ == (if self.is_directory {
                "📁"@
            } else {
                "📄"@
            }) + " "@ + self.name@ + "  "@ + (if self.is_directory {
                Seq::empty()
            } else {
                size_text(self.size as nat)
            }),
    {
        if self.is_directory {
            let r = concat5("📁", " ", self.name.as_str(), "  ", "");
            proof {
                reveal_strlit("");
                assert(""@ =~= Seq::<char>::empty());
            }
            r
        } else {
            concat5("📄", " ", self.name.as_str(), "  ", format_size(self.size).as_str())
        }
    }
}

/// What the worker tells the panel.
#[derive(Debug)]
pub enum SftpEvent {
    Listing { cwd: String, entries: Vec<FileInfo>, error: Option<String> },
    Progress { id: String, transferred: u64, total: u64, done: bool, message: Option<String> },
    Finished { ok: bool, message: String },
}

pub enum SftpEventView {
    Listing { cwd: Seq<char>, entries: Seq<FileView>, error: Option<Seq<char>> },
    Progress {
        id: Seq<char>,
        transferred: u64,
        total: u64,
        done: bool,
        message: Option<Seq<char>>,
    },
    Finished { ok: bool, message: Seq<char> },
}

impl View for SftpEvent {
    type V = SftpEventView;

    open spec fn view(&self) -> SftpEventView {
        match *self {
            SftpEvent::Listing { cwd, entries, error } => SftpEventView::Listing {
                cwd: cwd@,
                entries: file_views(entries@),
                error: opt_text(error),
            },
            SftpEvent::Progress { id, transferred, total, done, message } => {
                SftpEventView::Progress {
                    id: id@,
                    transferred,
                    total,
                    done,
                    message: opt_text(message),
                }
            },
            SftpEvent::Finished { ok, message } => SftpEventView::Finished { ok, message: message@ },
        }
    }
}

/// The panel.
#[derive(Debug)]
pub struct SftpPanelState {
    pub cwd: String,
    pub entries: Vec<FileInfo>,
    pub selected: Option<usize>,
    pub error: Option<String>,
    pub transfer_id: Option<String>,
    pub transfer_progress: Option<(u64, u64)>,
    pub busy: bool,
    pub new_dir_name: String,
    pub drop_hovering: bool,
    pub confirm_delete: Option<FileInfo>,
}

#[verifier::ext_equal]
pub struct PanelView {
    pub cwd: Seq<char>,
    pub entries: Seq<FileView>,
    pub selected: Option<usize>,
    pub error: Option<Seq<char>>,
    pub transfer_id: Option<Seq<char>>,
    pub transfer_progress: Option<(u64, u64)>,
    pub busy: bool,
    pub new_dir_name: Seq<char>,
    pub drop_hovering: bool,
    pub confirm_delete: Option<FileView>,
}

impl View for SftpPanelState {
    type V = PanelView;

    open spec fn view(&self) -> PanelView {
        PanelView {
            cwd: self.cwd@,
            entries: file_views(self.entries@),
            selected: self.selected,
            error: opt_text(self.error),
            transfer_id: opt_text(self.transfer_id),
            transfer_progress: self.transfer_progress,
            busy: self.busy,
            new_dir_name: self.new_dir_name@,
            drop_hovering: self.drop_hovering,
            confirm_delete: opt_file(self.confirm_delete),
        }
    }
}

/// What an event of the worker changes.
pub open spec fn panel_step(panel: PanelView, event: SftpEventView) -> PanelView {
    match event {
        SftpEventView::Listing { cwd, entries, error } => PanelView {
            cwd,
            entries,
            selected: None,
            error,
            busy: false,
            ..panel
        },
        SftpEventView::Progress { id, transferred, total, done, message } => if done {
            PanelView {
                transfer_id: None,
                transfer_progress: None,
                busy: false,
                error: match message {
                    Some(message) => Some(message),
                    None => panel.error,
                },
                ..panel
            }
        } else {
            PanelView {
                transfer_id: Some(id),
                transfer_progress: Some((transferred, total)),
                ..panel
            }
        },
        SftpEventView::Finished { message, .. } => PanelView {
            busy: false,
            error: Some(message),
            ..panel
        },
    }
}

/// Whether the files are listed anew after an event.
pub open spec fn asks_refresh(event: SftpEventView) -> bool {
    match event {
        SftpEventView::Listing { .. } => false,
        SftpEventView::Progress { done, .. } => done,
        SftpEventView::Finished { ok, .. } => ok,
    }
}

impl SftpPanelState {
    /// The panel when its worker starts.
    pub fn new() -> (r: SftpPanelState)
        ensures
            r@ == (PanelView {
                cwd: Seq::empty(),
                entries: Seq::empty(),
                selected: None,
                error: None,
                transfer_id: None,
                transfer_progress: None,
                busy: false,
                new_dir_name: Seq::empty(),
                drop_hovering: false,
                confirm_delete: None,
            }),
    {
        let r = SftpPanelState {
            cwd: String::new(),
            entries: Vec::new(),
            selected: None,
            error: None,
            transfer_id: None,
            transfer_progress: None,
            busy: false,
            new_dir_name: String::new(),
            drop_hovering: false,
            confirm_delete: None,
        };
        assert(r@.entries =~= Seq::<FileView>::empty());
        r
    }

    /// The command that lists the current directory.
    pub fn refresh(&self) -> (r: SftpCommand)
        ensures
            r@ == SftpCommandView::List(self@.cwd),
    {
        SftpCommand::List(self.cwd.clone())
    }

    /// Takes an event; says whether the files may have changed.
    pub fn apply_event(&mut self, event: SftpEvent) -> (r: bool)
        ensures
            final(self)@ == panel_step(old(self)@, event@),
            r == asks_refresh(event@),
    {
        match event {
            SftpEvent::Listing { cwd, entries, error } => {
                self.cwd = cwd;
                self.entries = entries;
                self.selected = None;
                self.error = error;
                self.busy = false;
                false
            },
            SftpEvent::Progress { id, transferred, total, done, message } => {
                if done {
                    self.transfer_id = None;
                    self.transfer_progress = None;
                    self.busy = false;
                    if let Some(message) = message {
                        self.error = Some(message);
                    }
                    true
                } else {
                    self.transfer_id = Some(id);
                    self.transfer_progress = Some((transferred, total));
                    false
                }
            },
            SftpEvent::Finished { ok, message } => {
                self.busy = false;
                self.error = Some(message);
                ok
            },
        }
    }

    /// The text of the bar of a running transfer.
    pub fn progress_text(&self) -> (r: Option<String>)
        ensures
            opt_text(r) == match self.transfer_progress {
                Some((transferred, total)) => Some(
                    size_text(transferred as nat) + " / "@ + size_text(total as nat),
                ),
                None => None,
            },
    {
        match self.transfer_progress {
            Some((transferred, total)) => Some(
                concat3(format_size(transferred).as_str(), " / ", format_size(total).as_str()),
            ),
            None => None,
        }
    }

    /// The question before a file is deleted.
    pub fn delete_question(&self) -> (r: Option<String>)
        ensures
            opt_text(r) == match self@.confirm_delete {
                Some(file) => Some("确定删除「"@ + file.path + "」？"@),
                None => None,
            },
    {
        match &self.confirm_delete {
            Some(file) => Some(concat3("确定删除「", file.path.as_str(), "」？")),
            None => None,
        }
    }
}

/// A local path that was let go over the panel: what the file system says of it, and its name.
#[derive(Debug)]
pub struct DroppedPath {
    pub is_directory: Option<bool>,
    pub name: Option<String>,
    pub local: String,
}

pub open spec fn drop_command(path: DroppedPath, cwd: Seq<char>) -> Option<SftpCommandView> {
    match (path.is_directory, path.name) {
        (Some(is_directory), Some(name)) => Some(
            if is_directory {
                SftpCommandView::UploadDir { local: path.local@, remote: remote_path(cwd, name@) }
            } else {
                SftpCommandView::Upload { local: path.local@, remote: remote_path(cwd, name@) }
            },
        ),
        _ => None,
    }
}

/// The upload of a path: a path that is missing or has no name gives none.
pub fn upload_command_for_drop(path: &DroppedPath, cwd: &str) -> (r: Option<SftpCommand>)
    ensures
        match r {
            Some(command) => drop_command(*path, cwd@) == Some(command@),
            None => drop_command(*path, cwd@) is None,
        },
{
    match (path.is_directory, &path.name) {
        (Some(is_directory), Some(name)) => {
            let remote = join_remote_path(cwd, name.as_str());
            let local = path.local.clone();
            if is_directory {
                Some(SftpCommand::UploadDir { local, remote })
            } else {
                Some(SftpCommand::Upload { local, remote })
            }
        },
        _ => None,
    }
}

/// The uploads of several paths, in their order.
pub open spec fn drop_commands(paths: Seq<DroppedPath>, cwd: Seq<char>) -> Seq<SftpCommandView>
    decreases paths.len(),
{
    if paths.len() == 0 {
        Seq::empty()
    } else {
        let front = drop_commands(paths.drop_last(), cwd);
        match drop_command(paths.last(), cwd) {
            Some(command) => front.push(command),
            None => front,
        }
    }
}

fn collect_drops(paths: &Vec<DroppedPath>, cwd: &str) -> (r: Vec<SftpCommand>)
    ensures
        command_views(r@) == drop_commands(paths@, cwd@),
{
    let mut r: Vec<SftpCommand> = Vec::new();
    let mut i: usize = 0;
    assert(paths@.take(0) == Seq::<DroppedPath>::empty());
    assert(command_views(r@) =~= Seq::<SftpCommandView>::empty());
    while i < paths.len()
        invariant
            i <= paths.len(),
            command_views(r@) == drop_commands(paths@.take(i as int), cwd@),
        decreases paths.len() - i,
    {
        proof {
            assert(paths@.take(i + 1).drop_last() == paths@.take(i as int));
            assert(paths@.take(i + 1).last() == paths@[i as int]);
        }
        if let Some(command) = upload_command_for_drop(&paths[i], cwd) {
            let ghost before = r@;
            let ghost view = command@;
            r.push(command);
            assert(command_views(r@) =~= command_views(before).push(view));
        }
        i = i + 1;
    }
    assert(paths@.take(i as int) == paths@);
    r
}

/// A local path that was chosen in a dialog.
#[derive(Debug)]
pub struct PickedPath {
    pub name: Option<String>,
    pub local: String,
}

pub open spec fn picked_name(path: PickedPath, otherwise: Seq<char>) -> Seq<char> {
    match path.name {
        Some(name) => name@,
        None => otherwise,
    }
}

pub open spec fn file_uploads(paths: Seq<PickedPath>, cwd: Seq<char>) -> Seq<SftpCommandView> {
    Seq::new(
        paths.len(),
        |i: int|
            SftpCommandView::Upload {
                local: paths[i].local@,
                remote: remote_path(cwd, picked_name(paths[i], Seq::empty())),
            },
    )
}

fn collect_uploads(paths: &Vec<PickedPath>, cwd: &str) -> (r: Vec<SftpCommand>)
    ensures
        command_views(r@) == file_uploads(paths@, cwd@),
{
    let mut r: Vec<SftpCommand> = Vec::new();
    let mut i: usize = 0;
    while i < paths.len()
        invariant
            i <= paths.len(),
            r.len() == i,
            forall|j: int| 0 <= j < i ==> (#[trigger] r@[j])@ == file_uploads(paths@, cwd@)[j],
        decreases paths.len() - i,
    {
        let name = match &paths[i].name {
            Some(name) => name.clone(),
            None => String::new(),
        };
        assert(name@ == picked_name(paths@[i as int], Seq::empty()));
        r.push(
            SftpCommand::Upload {
                local: paths[i].local.clone(),
                remote: join_remote_path(cwd, name.as_str()),
            },
        );
        i = i + 1;
    }
    assert(command_views(r@) =~= file_uploads(paths@, cwd@));
    r
}

/// What is done in the panel. The parent of the path, and local paths, come from outside.
#[derive(Debug)]
pub enum SftpPanelEvent {
    Pointer { over_panel: bool, files_hover: bool, dropped: Vec<DroppedPath> },
    EditPath(String),
    Enter,
    Parent(String),
    Refresh,
    Click(usize),
    DoubleClick(usize),
    UploadFiles(Vec<PickedPath>),
    UploadFolder(PickedPath),
    Download(String),
    DownloadFolder(String),
    EditNewDir(String),
    MakeDir,
    AskDelete,
    ConfirmDelete,
    CancelDelete,
}

/// The file that is selected.
pub open spec fn selected_file(panel: PanelView) -> Option<FileView> {
    match panel.selected {
        Some(at) => if at < panel.entries.len() {
            Some(panel.entries[at as int])
        } else {
            None
        },
        None => None,
    }
}

/// Whether the file that is selected can be downloaded as a file, or as a directory.
pub open spec fn can_download(panel: PanelView, directory: bool) -> bool {
    &&& !panel.busy
    &&& selected_file(panel) matches Some(file) && file.is_directory == directory
}

/// The panel after something was done in it.
pub open spec fn panel_after(panel: PanelView, event: SftpPanelEvent) -> PanelView {
    match event {
        SftpPanelEvent::Pointer { over_panel, files_hover, .. } => PanelView {
            drop_hovering: over_panel && files_hover,
            ..panel
        },
        SftpPanelEvent::EditPath(path) => PanelView { cwd: path@, ..panel },
        SftpPanelEvent::Click(at) => if at < panel.entries.len() {
            PanelView { selected: Some(at), ..panel }
        } else {
            panel
        },
        SftpPanelEvent::DoubleClick(at) => if at < panel.entries.len() {
            PanelView { selected: Some(at), ..panel }
        } else {
            panel
        },
        SftpPanelEvent::EditNewDir(name) => PanelView { new_dir_name: name@, ..panel },
        SftpPanelEvent::MakeDir => if !panel.busy && trimmed(panel.new_dir_name).len() > 0 {
            PanelView { new_dir_name: Seq::empty(), ..panel }
        } else {
            panel
        },
        SftpPanelEvent::AskDelete => if !panel.busy && selected_file(panel) is Some {
            PanelView { confirm_delete: selected_file(panel), ..panel }
        } else {
            panel
        },
        SftpPanelEvent::ConfirmDelete => PanelView { confirm_delete: None, ..panel },
        SftpPanelEvent::CancelDelete => PanelView { confirm_delete: None, ..panel },
        _ => panel,
    }
}

/// The commands that something done in the panel sends.
pub open spec fn panel_commands(panel: PanelView, event: SftpPanelEvent) -> Seq<SftpCommandView> {
    match event {
        SftpPanelEvent::Pointer { over_panel, dropped, .. } => if panel.drop_hovering
            || over_panel {
            drop_commands(dropped@, panel.cwd)
        } else {
            Seq::empty()
        },
        SftpPanelEvent::Enter => seq![SftpCommandView::List(panel.cwd)],
        SftpPanelEvent::Refresh => seq![SftpCommandView::List(panel.cwd)],
        SftpPanelEvent::Parent(path) => seq![SftpCommandView::List(path@)],
        SftpPanelEvent::DoubleClick(at) => if at < panel.entries.len()
            && panel.entries[at as int].is_directory {
            seq![SftpCommandView::List(panel.entries[at as int].path)]
        } else {
            Seq::empty()
        },
        SftpPanelEvent::UploadFiles(paths) => if panel.busy {
            Seq::empty()
        } else {
            file_uploads(paths@, panel.cwd)
        },
        SftpPanelEvent::UploadFolder(path) => if panel.busy {
            Seq::empty()
        } else {
            seq![
                SftpCommandView::UploadDir {
                    local: path.local@,
                    remote: remote_path(panel.cwd, picked_name(path, "folder"@)),
                },
            ]
        },
        SftpPanelEvent::Download(local) => if can_download(panel, false) {
            seq![
                SftpCommandView::Download {
                    remote: selected_file(panel)->Some_0.path,
                    local: local@,
                },
            ]
        } else {
            Seq::empty()
        },
        SftpPanelEvent::DownloadFolder(local) => if can_download(panel, true) {
            seq![
                SftpCommandView::DownloadDir {
                    remote: selected_file(panel)->Some_0.path,
                    local: local@,
                },
            ]
        } else {
            Seq::empty()
        },
        SftpPanelEvent::MakeDir => if !panel.busy && trimmed(panel.new_dir_name).len() > 0 {
            seq![SftpCommandView::Mkdir(remote_path(panel.cwd, trimmed(panel.new_dir_name)))]
        } else {
            Seq::empty()
        },
        SftpPanelEvent::ConfirmDelete => match panel.confirm_delete {
            Some(file) => seq![
                SftpCommandView::Delete { path: file.path, recursive: file.is_directory },
            ],
            None => Seq::empty(),
        },
        _ => Seq::empty(),
    }
}

fn single(command: SftpCommand) -> (r: Vec<SftpCommand>)
    ensures
        command_views(r@) == seq![command@],
{
    let mut r: Vec<SftpCommand> = Vec::new();
    let ghost view = command@;
    r.push(command);
    assert(command_views(r@) =~= seq![view]);
    r
}

fn nothing() -> (r: Vec<SftpCommand>)
    ensures
        command_views(r@) == Seq::<SftpCommandView>::empty(),
{
    let r: Vec<SftpCommand> = Vec::new();
    assert(command_views(r@) =~= Seq::<SftpCommandView>::empty());
    r
}

impl SftpPanelState {
    fn selection(&self) -> (r: Option<&FileInfo>)
        ensures
            match r {
                Some(file) => selected_file(self@) == Some(file@),
                None => selected_file(self@) is None,
            },
    {
        match self.selected {
            Some(at) => if at < self.entries.len() {
                Some(&self.entries[at])
            } else {
                None
            },
            None => None,
        }
    }

    fn download_command(&self, local: String, directory: bool) -> (r: Vec<SftpCommand>)
        ensures
            command_views(r@) == panel_commands(
                self@,
                if directory {
                    SftpPanelEvent::DownloadFolder(local)
                } else {
                    SftpPanelEvent::Download(local)
                },
            ),
    {
        if self.busy {
            return nothing();
        }
        match self.selection() {
            Some(file) => {
                let remote = file.path.clone();
                if file.is_directory != directory {
                    nothing()
                } else if directory {
                    single(SftpCommand::DownloadDir { remote, local })
                } else {
                    single(SftpCommand::Download { remote, local })
                }
            },
            None => nothing(),
        }
    }

    fn make_dir(&mut self) -> (r: Vec<SftpCommand>)
        ensures
            final(self)@ == panel_after(old(self)@, SftpPanelEvent::MakeDir),
            command_views(r@) == panel_commands(old(self)@, SftpPanelEvent::MakeDir),
    {
        if self.busy {
            return nothing();
        }
        let name = trim(self.new_dir_name.as_str());
        if name.unicode_len() == 0 {
            return nothing();
        }
        let path = join_remote_path(self.cwd.as_str(), name);
        self.new_dir_name = String::new();
        single(SftpCommand::Mkdir(path))
    }

    fn confirmed(&mut self) -> (r: Vec<SftpCommand>)
        ensures
            final(self)@ == panel_after(old(self)@, SftpPanelEvent::ConfirmDelete),
            command_views(r@) == panel_commands(old(self)@, SftpPanelEvent::ConfirmDelete),
    {
        let command = match &self.confirm_delete {
            Some(file) => Some(
                SftpCommand::Delete { path: file.path.clone(), recursive: file.is_directory },
            ),
            None => None,
        };
        self.confirm_delete = None;
        match command {
            Some(command) => single(command),
            None => nothing(),
        }
    }
}

/// Does what was asked for in the panel; gives the commands for the worker.
pub fn sftp_panel_ui(panel: &mut SftpPanelState, event: SftpPanelEvent) -> (r: Vec<SftpCommand>)
    ensures
        final(panel)@ == panel_after(old(panel)@, event),
        command_views(r@) == panel_commands(old(panel)@, event),
{
    match event {
        SftpPanelEvent::Pointer { over_panel, files_hover, dropped } => {
            let was_hovering = panel.drop_hovering;
            panel.drop_hovering = over_panel && files_hover;
            if was_hovering || over_panel {
                collect_drops(&dropped, panel.cwd.as_str())
            } else {
                nothing()
            }
        },
        SftpPanelEvent::EditPath(path) => {
            panel.cwd = path;
            nothing()
        },
        SftpPanelEvent::Enter => single(panel.refresh()),
        SftpPanelEvent::Refresh => single(panel.refresh()),
        SftpPanelEvent::Parent(path) => single(SftpCommand::List(path)),
        SftpPanelEvent::Click(at) => {
            if at < panel.entries.len() {
                panel.selected = Some(at);
            }
            nothing()
        },
        SftpPanelEvent::DoubleClick(at) => {
            if at < panel.entries.len() {
                panel.selected = Some(at);
                if panel.entries[at].is_directory {
                    return single(SftpCommand::List(panel.entries[at].path.clone()));
                }
            }
            nothing()
        },
        SftpPanelEvent::UploadFiles(paths) => {
            if panel.busy {
                nothing()
            } else {
                collect_uploads(&paths, panel.cwd.as_str())
            }
        },
        SftpPanelEvent::UploadFolder(path) => {
            if panel.busy {
                nothing()
            } else {
                let name = match path.name {
                    Some(name) => name,
                    None => "folder".to_string(),
                };
                let remote = join_remote_path(panel.cwd.as_str(), name.as_str());
                single(SftpCommand::UploadDir { local: path.local, remote })
            }
        },
        SftpPanelEvent::Download(local) => panel.download_command(local, false),
        SftpPanelEvent::DownloadFolder(local) => panel.download_command(local, true),
        SftpPanelEvent::EditNewDir(name) => {
            panel.new_dir_name = name;
            nothing()
        },
        SftpPanelEvent::MakeDir => panel.make_dir(),
        SftpPanelEvent::AskDelete => {
            if !panel.busy {
                let chosen = match panel.selection() {
                    Some(file) => Some(file.duplicate()),
                    None => None,
                };
                if chosen.is_some() {
                    panel.confirm_delete = chosen;
                }
            }
            nothing()
        },
        SftpPanelEvent::ConfirmDelete => panel.confirmed(),
        SftpPanelEvent::CancelDelete => {
            panel.confirm_delete = None;
            nothing()
        },
    }
}

/// A number that tells transfers and rules apart.
pub fn fast_id(nanoseconds: u64, pid: u32) -> (r: u64)
    ensures
        r == nanoseconds ^ (pid as u64),
{
    nanoseconds ^ (pid as u64)
}

/// Why a call of the worker failed, and whether opening the channel again may help.
#[derive(Debug)]
pub struct SftpFailure {
    pub recoverable: bool,
    pub text: String,
}

/// Where the worker stands.
#[derive(Debug)]
pub enum WorkerPhase {
    Starting,
    /// The channel is opened, for the second time where `again`.
    Opening { again: bool },
    Waiting,
    /// A directory is listed, for the second time where `again`.
    Listing { path: String, again: bool },
    /// The channel is opened again for a listing.
    Reopening { path: String },
    Making,
    Deleting,
    Transferring { id: String },
    Ended,
}

pub enum PhaseView {
    Starting,
    Opening { again: bool },
    Waiting,
    Listing { path: Seq<char>, again: bool },
    Reopening { path: Seq<char> },
    Making,
    Deleting,
    Transferring { id: Seq<char> },
    Ended,
}

impl View for WorkerPhase {
    type V = PhaseView;

    open spec fn view(&self) -> PhaseView {
        match *self {
            WorkerPhase::Starting => PhaseView::Starting,
            WorkerPhase::Opening { again } => PhaseView::Opening { again },
            WorkerPhase::Waiting => PhaseView::Waiting,
            WorkerPhase::Listing { path, again } => PhaseView::Listing { path: path@, again },
            WorkerPhase::Reopening { path } => PhaseView::Reopening { path: path@ },
            WorkerPhase::Making => PhaseView::Making,
            WorkerPhase::Deleting => PhaseView::Deleting,
            WorkerPhase::Transferring { id } => PhaseView::Transferring { id: id@ },
            WorkerPhase::Ended => PhaseView::Ended,
        }
    }
}

/// What came of the last action of the worker.
#[derive(Debug)]
pub enum WorkerReport {
    Started(Result<(), String>),
    Opened(Result<(), SftpFailure>),
    /// A command, with a number for a transfer; `None` when the panel is gone.
    Command(Option<SftpCommand>, u64),
    Listed(Result<(String, Vec<FileInfo>), SftpFailure>),
    Done(Result<(), SftpFailure>),
    Transferred(Result<u64, SftpFailure>),
}

/// What the worker does next.
#[derive(Debug)]
pub enum WorkerAction {
    Open,
    /// Drops the channel and opens it anew.
    Reopen,
    /// Waits for a command.
    Receive,
    List(String),
    Mkdir(String),
    Delete(String),
    DeleteTree(String),
    Download { remote: String, local: String, id: String },
    DownloadDir { remote: String, local: String, id: String },
    Upload { local: String, remote: String, id: String },
    UploadDir { local: String, remote: String, id: String },
    End,
}

pub enum ActionView {
    Open,
    Reopen,
    Receive,
    List(Seq<char>),
    Mkdir(Seq<char>),
    Delete(Seq<char>),
    DeleteTree(Seq<char>),
    Download { remote: Seq<char>, local: Seq<char>, id: Seq<char> },
    DownloadDir { remote: Seq<char>, local: Seq<char>, id: Seq<char> },
    Upload { local: Seq<char>, remote: Seq<char>, id: Seq<char> },
    UploadDir { local: Seq<char>, remote: Seq<char>, id: Seq<char> },
    End,
}

impl View for WorkerAction {
    type V = ActionView;

    open spec fn view(&self) -> ActionView {
        match *self {
            WorkerAction::Open => ActionView::Open,
            WorkerAction::Reopen => ActionView::Reopen,
            WorkerAction::Receive => ActionView::Receive,
            WorkerAction::List(path) => ActionView::List(path@),
            WorkerAction::Mkdir(path) => ActionView::Mkdir(path@),
            WorkerAction::Delete(path) => ActionView::Delete(path@),
            WorkerAction::DeleteTree(path) => ActionView::DeleteTree(path@),
            WorkerAction::Download { remote, local, id } => ActionView::Download {
                remote: remote@,
                local: local@,
                id: id@,
            },
            WorkerAction::DownloadDir { remote, local, id } => ActionView::DownloadDir {
                remote: remote@,
                local: local@,
                id: id@,
            },
            WorkerAction::Upload { local, remote, id } => ActionView::Upload {
                local: local@,
                remote: remote@,
                id: id@,
            },
            WorkerAction::UploadDir { local, remote, id } => ActionView::UploadDir {
                local: local@,
                remote: remote@,
                id: id@,
            },
            WorkerAction::End => ActionView::End,
        }
    }
}

/// One step of the worker: its next phase, what it does, and what it tells the panel.
pub struct StepView {
    pub phase: PhaseView,
    pub action: ActionView,
    pub event: Option<SftpEventView>,
}

/// A listing that failed.
pub open spec fn failed_listing(error: Seq<char>) -> SftpEventView {
    SftpEventView::Listing { cwd: Seq::empty(), entries: Seq::empty(), error: Some(error) }
}

pub open spec fn finished(action: Seq<char>, result: Result<(), SftpFailure>) -> SftpEventView {
    match result {
        Ok(_) => SftpEventView::Finished { ok: true, message: action + "成功"@ },
        Err(failure) => SftpEventView::Finished {
            ok: false,
            message: action + "失败: "@ + failure.text@,
        },
    }
}

pub open spec fn transfer_end(id: Seq<char>, result: Result<u64, SftpFailure>) -> SftpEventView {
    SftpEventView::Progress {
        id,
        transferred: 0,
        total: 0,
        done: true,
        message: Some(
            match result {
                Ok(bytes) => "传输完成，共 "@ + decimal(bytes as nat) + " 字节"@,
                Err(failure) => "传输失败: "@ + failure.text@,
            },
        ),
    }
}

pub open spec fn transfer_id(kind: Seq<char>, number: u64) -> Seq<char> {
    kind + hexadecimal(number as nat)
}

/// The step that a command begins.
pub open spec fn command_step(command: SftpCommandView, number: u64) -> StepView {
    match command {
        SftpCommandView::List(path) => StepView {
            phase: PhaseView::Listing { path, again: false },
            action: ActionView::List(path),
            event: None,
        },
        SftpCommandView::Mkdir(path) => StepView {
            phase: PhaseView::Making,
            action: ActionView::Mkdir(path),
            event: None,
        },
        SftpCommandView::Delete { path, recursive } => StepView {
            phase: PhaseView::Deleting,
            action: if recursive {
                ActionView::DeleteTree(path)
            } else {
                ActionView::Delete(path)
            },
            event: None,
        },
        SftpCommandView::Download { remote, local } => {
            let id = transfer_id("dl-"@, number);
            StepView {
                phase: PhaseView::Transferring { id },
                action: ActionView::Download { remote, local, id },
                event: None,
            }
        },
        SftpCommandView::DownloadDir { remote, local } => {
            let id = transfer_id("dldir-"@, number);
            StepView {
                phase: PhaseView::Transferring { id },
                action: ActionView::DownloadDir { remote, local, id },
                event: None,
            }
        },
        SftpCommandView::Upload { local, remote } => {
            let id = transfer_id("ul-"@, number);
            StepView {
                phase: PhaseView::Transferring { id },
                action: ActionView::Upload { local, remote, id },
                event: None,
            }
        },
        SftpCommandView::UploadDir { local, remote } => {
            let id = transfer_id("uldir-"@, number);
            StepView {
                phase: PhaseView::Transferring { id },
                action: ActionView::UploadDir { local, remote, id },
                event: None,
            }
        },
    }
}

pub open spec fn told(event: SftpEventView) -> StepView {
    StepView { phase: PhaseView::Waiting, action: ActionView::Receive, event: Some(event) }
}

pub open spec fn ended(event: Option<SftpEventView>) -> StepView {
    StepView { phase: PhaseView::Ended, action: ActionView::End, event }
}

/// The steps of the worker; `None` for a report that the phase does not wait for.
pub open spec fn worker_step(phase: PhaseView, report: WorkerReport) -> Option<StepView> {
    match (phase, report) {
        (PhaseView::Starting, WorkerReport::Started(result)) => Some(
            match result {
                Ok(_) => StepView {
                    phase: PhaseView::Opening { again: false },
                    action: ActionView::Open,
                    event: None,
                },
                Err(error) => ended(
                    Some(failed_listing("SFTP 运行时创建失败: "@ + error@)),
                ),
            },
        ),
        (PhaseView::Opening { again }, WorkerReport::Opened(result)) => Some(
            match result {
                Ok(_) => StepView {
                    phase: PhaseView::Waiting,
                    action: ActionView::Receive,
                    event: None,
                },
                Err(failure) => if failure.recoverable && !again {
                    StepView {
                        phase: PhaseView::Opening { again: true },
                        action: ActionView::Reopen,
                        event: None,
                    }
                } else {
                    ended(Some(failed_listing("SFTP 连接失败: "@ + failure.text@)))
                },
            },
        ),
        (PhaseView::Waiting, WorkerReport::Command(command, number)) => Some(
            match command {
                Some(command) => command_step(command@, number),
                None => ended(None),
            },
        ),
        (PhaseView::Listing { path, again }, WorkerReport::Listed(result)) => Some(
            match result {
                Ok((cwd, entries)) => told(
                    SftpEventView::Listing {
                        cwd: cwd@,
                        entries: file_views(entries@),
                        error: None,
                    },
                ),
                Err(failure) => if failure.recoverable && !again {
                    StepView {
                        phase: PhaseView::Reopening { path },
                        action: ActionView::Reopen,
                        event: None,
                    }
                } else {
                    told(failed_listing(failure.text@))
                },
            },
        ),
        (PhaseView::Reopening { path }, WorkerReport::Opened(result)) => Some(
            match result {
                Ok(_) => StepView {
                    phase: PhaseView::Listing { path, again: true },
                    action: ActionView::List(path),
                    event: None,
                },
                Err(failure) => told(failed_listing(failure.text@)),
            },
        ),
        (PhaseView::Making, WorkerReport::Done(result)) => Some(
            told(finished("新建目录"@, result)),
        ),
        (PhaseView::Deleting, WorkerReport::Done(result)) => Some(told(finished("删除"@, result))),
        (PhaseView::Transferring { id }, WorkerReport::Transferred(result)) => Some(
            told(transfer_end(id, result)),
        ),
        _ => None,
    }
}

fn list_failure(error: String) -> (r: SftpEvent)
    ensures
        r@ == failed_listing(error@),
{
    let entries: Vec<FileInfo> = Vec::new();
    assert(file_views(entries@) =~= Seq::<FileView>::empty());
    SftpEvent::Listing { cwd: String::new(), entries, error: Some(error) }
}

pub fn finished_event(result: Result<(), SftpFailure>, action: &str) -> (r: SftpEvent)
    ensures
        r@ == finished(action@, result),
{
    match result {
        Ok(_) => SftpEvent::Finished { ok: true, message: concat2(action, "成功") },
        Err(failure) => SftpEvent::Finished {
            ok: false,
            message: concat3(action, "失败: ", failure.text.as_str()),
        },
    }
}

/// What is told when a transfer has ended.
pub fn transfer_event(id: String, result: Result<u64, SftpFailure>) -> (r: SftpEvent)
    ensures
        r@ == transfer_end(id@, result),
{
    let message = match result {
        Ok(bytes) => concat3("传输完成，共 ", decimal_text(bytes).as_str(), " 字节"),
        Err(failure) => concat2("传输失败: ", failure.text.as_str()),
    };
    SftpEvent::Progress { id, transferred: 0, total: 0, done: true, message: Some(message) }
}

/// How far a transfer is.
#[derive(Clone, Copy, Debug, PartialEq, Eq, Structural)]
pub enum TransferState {
    Pending,
    InProgress,
    Paused,
    Completed,
    Failed,
    Cancelled,
}

/// What is told while a transfer runs.
pub fn progress_event(
    id: String,
    transferred: u64,
    total: u64,
    state: TransferState,
    error: Option<String>,
) -> (r: SftpEvent)
    ensures
        r@ == (SftpEventView::Progress {
            id: id@,
            transferred,
            total,
            done: state == TransferState::Completed || state == TransferState::Failed || state
                == TransferState::Cancelled,
            message: opt_text(error),
        }),
{
    let done = state == TransferState::Completed || state == TransferState::Failed || state
        == TransferState::Cancelled;
    SftpEvent::Progress { id, transferred, total, done, message: error }
}

fn begin_command(command: SftpCommand, number: u64) -> (r: (WorkerPhase, WorkerAction))
    ensures
        (StepView { phase: r.0@, action: r.1@, event: None }) == command_step(command@, number),
{
    let tail = hex_text(number);
    match command {
        SftpCommand::List(path) => (
            WorkerPhase::Listing { path: path.clone(), again: false },
            WorkerAction::List(path),
        ),
        SftpCommand::Mkdir(path) => (WorkerPhase::Making, WorkerAction::Mkdir(path)),
        SftpCommand::Delete { path, recursive } => (
            WorkerPhase::Deleting,
            if recursive {
                WorkerAction::DeleteTree(path)
            } else {
                WorkerAction::Delete(path)
            },
        ),
        SftpCommand::Download { remote, local } => {
            let id = concat2("dl-", tail.as_str());
            (
                WorkerPhase::Transferring { id: id.clone() },
                WorkerAction::Download { remote, local, id },
            )
        },
        SftpCommand::DownloadDir { remote, local } => {
            let id = concat2("dldir-", tail.as_str());
            (
                WorkerPhase::Transferring { id: id.clone() },
                WorkerAction::DownloadDir { remote, local, id },
            )
        },
        SftpCommand::Upload { local, remote } => {
            let id = concat2("ul-", tail.as_str());
            (
                WorkerPhase::Transferring { id: id.clone() },
                WorkerAction::Upload { local, remote, id },
            )
        },
        SftpCommand::UploadDir { local, remote } => {
            let id = concat2("uldir-", tail.as_str());
            (
                WorkerPhase::Transferring { id: id.clone() },
                WorkerAction::UploadDir { local, remote, id },
            )
        },
    }
}

/// The worker of a panel: it decides, and what it decides is carried out around it.
#[derive(Debug)]
pub struct SftpWorker {
    pub phase: WorkerPhase,
}

/// The next step as it is carried out.
#[derive(Debug)]
pub struct WorkerStep {
    pub action: WorkerAction,
    pub event: Option<SftpEvent>,
}

pub open spec fn opt_event(event: Option<SftpEvent>) -> Option<SftpEventView> {
    match event {
        Some(event) => Some(event@),
        None => None,
    }
}

fn tell(event: SftpEvent) -> (r: (WorkerPhase, WorkerAction, Option<SftpEvent>))
    ensures
        (StepView { phase: r.0@, action: r.1@, event: opt_event(r.2) }) == told(event@),
{
    (WorkerPhase::Waiting, WorkerAction::Receive, Some(event))
}

impl SftpWorker {
    pub fn new() -> (r: SftpWorker)
        ensures
            r.phase@ == PhaseView::Starting,
    {
        SftpWorker { phase: WorkerPhase::Starting }
    }

    /// Takes what came of the last action, and says what to do next. A report that the worker
    /// does not wait for leaves it as it is.
    pub fn take_report(&mut self, report: WorkerReport) -> (r: Option<WorkerStep>)
        ensures
            match worker_step(old(self).phase@, report) {
                Some(step) => {
                    &&& final(self).phase@ == step.phase
                    &&& r is Some
                    &&& r->Some_0.action@ == step.action
                    &&& opt_event(r->Some_0.event) == step.event
                },
                None => final(self).phase@ == old(self).phase@ && r is None,
            },
    {
        let (phase, action, event) = match (&self.phase, report) {
            (WorkerPhase::Starting, WorkerReport::Started(result)) => match result {
                Ok(_) => (WorkerPhase::Opening { again: false }, WorkerAction::Open, None),
                Err(error) => (
                    WorkerPhase::Ended,
                    WorkerAction::End,
                    Some(list_failure(concat2("SFTP 运行时创建失败: ", error.as_str()))),
                ),
            },
            (WorkerPhase::Opening { again }, WorkerReport::Opened(result)) => match result {
                Ok(_) => (WorkerPhase::Waiting, WorkerAction::Receive, None),
                Err(failure) => if failure.recoverable && !*again {
                    (WorkerPhase::Opening { again: true }, WorkerAction::Reopen, None)
                } else {
                    (
                        WorkerPhase::Ended,
                        WorkerAction::End,
                        Some(list_failure(concat2("SFTP 连接失败: ", failure.text.as_str()))),
                    )
                },
            },
            (WorkerPhase::Waiting, WorkerReport::Command(command, number)) => match command {
                Some(command) => {
                    let (phase, action) = begin_command(command, number);
                    (phase, action, None)
                },
                None => (WorkerPhase::Ended, WorkerAction::End, None),
            },
            (WorkerPhase::Listing { path, again }, WorkerReport::Listed(result)) => match result {
                Ok((cwd, entries)) => tell(SftpEvent::Listing { cwd, entries, error: None }),
                Err(failure) => if failure.recoverable && !*again {
                    (
                        WorkerPhase::Reopening { path: path.clone() },
                        WorkerAction::Reopen,
                        None,
                    )
                } else {
                    tell(list_failure(failure.text))
                },
            },
            (WorkerPhase::Reopening { path }, WorkerReport::Opened(result)) => match result {
                Ok(_) => (
                    WorkerPhase::Listing { path: path.clone(), again: true },
                    WorkerAction::List(path.clone()),
                    None,
                ),
                Err(failure) => tell(list_failure(failure.text)),
            },
            (WorkerPhase::Making, WorkerReport::Done(result)) => tell(
                finished_event(result, "新建目录"),
            ),
            (WorkerPhase::Deleting, WorkerReport::Done(result)) => tell(
                finished_event(result, "删除"),
            ),
            (WorkerPhase::Transferring { id }, WorkerReport::Transferred(result)) => tell(
                transfer_event(id.clone(), result),
            ),
            _ => {
                return None;
            },
        };
        self.phase = phase;
        Some(WorkerStep { action, event })
    }
}

/// A listing that fails twice is told of: it is not tried a third time.
pub proof fn law_listing_is_retried_once(path: Seq<char>, first: SftpFailure, second: SftpFailure)
    requires
        first.recoverable,
    ensures
        ({
            let once = worker_step(
                PhaseView::Listing { path, again: false },
                WorkerReport::Listed(Err(first)),
            )->Some_0;
            let opened = worker_step(once.phase, WorkerReport::Opened(Ok(())))->Some_0;
            let twice = worker_step(opened.phase, WorkerReport::Listed(Err(second)))->Some_0;
            &&& once.event is None
            &&& opened.action == ActionView::List(path)
            &&& twice == told(failed_listing(second.text@))
        }),
{
}

/// A transfer ends with the panel free again and its files listed anew, whatever came of it.
pub proof fn law_transfer_frees_the_panel(
    panel: PanelView,
    id: Seq<char>,
    result: Result<u64, SftpFailure>,
)
    ensures
        ({
            let event = transfer_end(id, result);
            let next = panel_step(panel, event);
            !next.busy && next.transfer_id is None && next.transfer_progress is None
                && asks_refresh(event)
        }),
{
}

/// A file is deleted only after the question about that file was answered.
pub proof fn law_deleting_is_confirmed(panel: PanelView, event: SftpPanelEvent, i: int)
    requires
        0 <= i < panel_commands(panel, event).len(),
        panel_commands(panel, event)[i] is Delete,
    ensures
        event is ConfirmDelete,
        panel.confirm_delete matches Some(file) && panel_commands(panel, event)[i]
            == (SftpCommandView::Delete { path: file.path, recursive: file.is_directory }),
{
    match event {
        SftpPanelEvent::Pointer { dropped, .. } => {
            lemma_drops_upload(dropped@, panel.cwd, i);
        },
        _ => {},
    }
}

proof fn lemma_drops_upload(paths: Seq<DroppedPath>, cwd: Seq<char>, i: int)
    requires
        0 <= i < drop_commands(paths, cwd).len(),
    ensures
        is_transfer(drop_commands(paths, cwd)[i]),
    decreases paths.len(),
{
    let front = drop_commands(paths.drop_last(), cwd);
    if i < front.len() {
        lemma_drops_upload(paths.drop_last(), cwd, i);
    }
}

/// Whether a file of a panel is the one that is selected.
pub open spec fn is_selected(panel: PanelView, at: int) -> bool {
    &&& 0 <= at < panel.entries.len()
    &&& panel.selected matches Some(index) && index == at
}

/// What a panel downloads is the file or the directory that is selected, to the place that was
/// chosen for it; while a transfer runs nothing is downloaded.
pub proof fn law_downloads_take_the_selected_file(panel: PanelView, event: SftpPanelEvent, i: int)
    requires
        0 <= i < panel_commands(panel, event).len(),
    ensures
        panel_commands(panel, event)[i] matches SftpCommandView::Download { remote, local } ==> {
            &&& !panel.busy
            &&& event matches SftpPanelEvent::Download(chosen) && chosen@ == local
            &&& exists|at: int|
                is_selected(panel, at) && (#[trigger] panel.entries[at]).path == remote
                    && !panel.entries[at].is_directory
        },
        panel_commands(panel, event)[i] matches SftpCommandView::DownloadDir { remote, local } ==> {
            &&& !panel.busy
            &&& event matches SftpPanelEvent::DownloadFolder(chosen) && chosen@ == local
            &&& exists|at: int|
                is_selected(panel, at) && (#[trigger] panel.entries[at]).path == remote
                    && panel.entries[at].is_directory
        },
{
    match event {
        SftpPanelEvent::Pointer { dropped, .. } => {
            lemma_drops_come_from_paths(dropped@, panel.cwd, i);
        },
        SftpPanelEvent::Download(_) | SftpPanelEvent::DownloadFolder(_) => {
            let at = panel.selected->Some_0 as int;
            assert(is_selected(panel, at));
            assert(panel.entries[at].path == selected_file(panel)->Some_0.path);
        },
        _ => {},
    }
}

/// A download that can be made is made, as one command: of a file as a file, of a directory as a
/// directory.
pub proof fn law_downloads_are_sent(panel: PanelView, at: usize, local: String)
    requires
        !panel.busy,
        panel.selected == Some(at),
        at < panel.entries.len(),
    ensures
        panel_commands(panel, SftpPanelEvent::Download(local)).len() == (
        if panel.entries[at as int].is_directory {
            0int
        } else {
            1
        }),
        panel_commands(panel, SftpPanelEvent::DownloadFolder(local)).len() == (
        if panel.entries[at as int].is_directory {
            1int
        } else {
            0
        }),
        !panel.entries[at as int].is_directory ==> panel_commands(
            panel,
            SftpPanelEvent::Download(local),
        )[0] == (SftpCommandView::Download {
            remote: panel.entries[at as int].path,
            local: local@,
        }),
        panel.entries[at as int].is_directory ==> panel_commands(
            panel,
            SftpPanelEvent::DownloadFolder(local),
        )[0] == (SftpCommandView::DownloadDir {
            remote: panel.entries[at as int].path,
            local: local@,
        }),
{
}

/// A panel lists the directory of its path, the parent that was given, or the directory that was
/// clicked twice, and no other.
pub proof fn law_listings_are_asked_for(panel: PanelView, event: SftpPanelEvent, i: int)
    requires
        0 <= i < panel_commands(panel, event).len(),
        panel_commands(panel, event)[i] is List,
    ensures
        panel_commands(panel, event).len() == 1,
        ({
            let path = panel_commands(panel, event)[i]->List_0;
            match event {
                SftpPanelEvent::Enter | SftpPanelEvent::Refresh => path == panel.cwd,
                SftpPanelEvent::Parent(parent) => path == parent@,
                SftpPanelEvent::DoubleClick(at) => at < panel.entries.len()
                    && panel.entries[at as int].is_directory && path
                    == panel.entries[at as int].path,
                _ => false,
            }
        }),
{
    match event {
        SftpPanelEvent::Pointer { dropped, .. } => {
            lemma_drops_come_from_paths(dropped@, panel.cwd, i);
        },
        _ => {},
    }
}

/// What is asked for is listed.
pub proof fn law_asking_lists(panel: PanelView, parent: String, at: usize)
    ensures
        panel_commands(panel, SftpPanelEvent::Enter).len() == 1,
        panel_commands(panel, SftpPanelEvent::Refresh).len() == 1,
        panel_commands(panel, SftpPanelEvent::Parent(parent)).len() == 1,
        at < panel.entries.len() && panel.entries[at as int].is_directory ==> panel_commands(
            panel,
            SftpPanelEvent::DoubleClick(at),
        ).len() == 1,
        panel_commands(panel, SftpPanelEvent::Enter)[0] is List,
        panel_commands(panel, SftpPanelEvent::Refresh)[0] is List,
        panel_commands(panel, SftpPanelEvent::Parent(parent))[0] is List,
        at < panel.entries.len() && panel.entries[at as int].is_directory ==> panel_commands(
            panel,
            SftpPanelEvent::DoubleClick(at),
        )[0] is List,
{
}

/// A path of the remote machine that is right below a directory.
pub open spec fn is_below(path: Seq<char>, directory: Seq<char>, name: Seq<char>) -> bool {
    &&& directory.is_prefix_of(path)
    &&& name.is_suffix_of(path)
    &&& path.len() == directory.len() + name.len() + (if directory.len() > 0 && directory.last()
        == '/' {
        0int
    } else {
        1
    })
    &&& path.len() > directory.len() + name.len() ==> path[directory.len() as int] == '/'
}

/// Every path that is chosen for an upload is uploaded, in their order, each under its own name
/// below the directory in view; nothing is while a transfer runs.
pub proof fn law_uploads_go_to_the_directory_in_view(
    panel: PanelView,
    paths: Vec<PickedPath>,
    i: int,
)
    requires
        0 <= i < paths@.len(),
    ensures
        ({
            let sent = panel_commands(panel, SftpPanelEvent::UploadFiles(paths));
            &&& panel.busy ==> sent.len() == 0
            &&& !panel.busy ==> sent.len() == paths@.len()
            &&& !panel.busy ==> (sent[i] matches SftpCommandView::Upload { local, remote } && local
                == paths@[i].local@ && (paths@[i].name matches Some(name) ==> is_below(
                remote,
                panel.cwd,
                name@,
            )))
        }),
        ({
            let sent = panel_commands(panel, SftpPanelEvent::UploadFolder(paths@[i]));
            &&& panel.busy ==> sent.len() == 0
            &&& !panel.busy ==> sent.len() == 1
            &&& !panel.busy ==> (sent[0] matches SftpCommandView::UploadDir { local, remote }
                && local == paths@[i].local@ && (paths@[i].name matches Some(name) ==> is_below(
                remote,
                panel.cwd,
                name@,
            )))
        }),
{
    law_joined_path_has_both_parts(panel.cwd, picked_name(paths@[i], Seq::empty()));
    law_joined_path_has_both_parts(panel.cwd, picked_name(paths@[i], "folder"@));
}

/// What is dropped on the panel is uploaded under its own name below the directory in view: a file
/// as a file and a directory as a directory, each one that has a name and is there, in their order.
pub proof fn law_drops_go_to_the_directory_in_view(path: DroppedPath, cwd: Seq<char>)
    ensures
        drop_command(path, cwd) is Some <==> path.is_directory is Some && path.name is Some,
        path.is_directory == Some(true) && path.name is Some ==> (drop_command(path, cwd) matches Some(
            SftpCommandView::UploadDir { local, remote },
        ) && local == path.local@ && is_below(remote, cwd, path.name->Some_0@)),
        path.is_directory == Some(false) && path.name is Some ==> (drop_command(
            path,
            cwd,
        ) matches Some(SftpCommandView::Upload { local, remote }) && local == path.local@
            && is_below(remote, cwd, path.name->Some_0@)),
{
    if path.name is Some {
        law_joined_path_has_both_parts(cwd, path.name->Some_0@);
    }
}

/// The uploads of dropped paths are those of the paths one by one, and they are made only where the
/// drop was over the panel.
pub proof fn law_drops_are_taken_in_order(
    panel: PanelView,
    dropped: Vec<DroppedPath>,
    over_panel: bool,
    files_hover: bool,
)
    ensures
        ({
            let sent = panel_commands(
                panel,
                SftpPanelEvent::Pointer { over_panel, files_hover, dropped },
            );
            &&& !over_panel && !panel.drop_hovering ==> sent.len() == 0
            &&& over_panel || panel.drop_hovering ==> sent == dropped@.map_values(
                |path: DroppedPath| drop_command(path, panel.cwd),
            ).filter(|command: Option<SftpCommandView>| command is Some).map_values(
                |command: Option<SftpCommandView>| command->Some_0,
            )
        }),
{
    lemma_drops_are_filtered(dropped@, panel.cwd);
}

proof fn lemma_drops_are_filtered(paths: Seq<DroppedPath>, cwd: Seq<char>)
    ensures
        drop_commands(paths, cwd) == paths.map_values(
            |path: DroppedPath| drop_command(path, cwd),
        ).filter(|command: Option<SftpCommandView>| command is Some).map_values(
            |command: Option<SftpCommandView>| command->Some_0,
        ),
    decreases paths.len(),
{
    reveal(Seq::filter);
    let named = |path: DroppedPath| drop_command(path, cwd);
    let there = |command: Option<SftpCommandView>| command is Some;
    let taken = |command: Option<SftpCommandView>| command->Some_0;
    let all = paths.map_values(named);
    if paths.len() == 0 {
        assert(all =~= Seq::empty());
        assert(all.filter(there).map_values(taken) =~= Seq::empty());
    } else {
        lemma_drops_are_filtered(paths.drop_last(), cwd);
        assert(all.drop_last() =~= paths.drop_last().map_values(named));
        assert(all.last() == drop_command(paths.last(), cwd));
        let front = all.drop_last().filter(there);
        if there(all.last()) {
            assert(all.filter(there) =~= front.push(all.last()));
            assert(all.filter(there).map_values(taken) =~= front.map_values(taken).push(
                all.last()->Some_0,
            ));
        } else {
            assert(all.filter(there) =~= front);
        }
    }
}

proof fn lemma_drops_come_from_paths(paths: Seq<DroppedPath>, cwd: Seq<char>, i: int)
    requires
        0 <= i < drop_commands(paths, cwd).len(),
    ensures
        drop_commands(paths, cwd)[i] is Upload || drop_commands(paths, cwd)[i] is UploadDir,
    decreases paths.len(),
{
    let front = drop_commands(paths.drop_last(), cwd);
    if i < front.len() {
        lemma_drops_come_from_paths(paths.drop_last(), cwd, i);
    }
}

/// A new directory is made right below the one in view, under the name that was typed, without the
/// white space around it; the name is then gone from its field.
pub proof fn law_new_directories_are_made_in_view(panel: PanelView)
    ensures
        panel.busy || trimmed(panel.new_dir_name).len() == 0 ==> panel_commands(
            panel,
            SftpPanelEvent::MakeDir,
        ).len() == 0 && panel_after(panel, SftpPanelEvent::MakeDir) == panel,
        !panel.busy && trimmed(panel.new_dir_name).len() > 0 ==> {
            let sent = panel_commands(panel, SftpPanelEvent::MakeDir);
            &&& sent.len() == 1
            &&& sent[0] matches SftpCommandView::Mkdir(path) && is_below(
                path,
                panel.cwd,
                trimmed(panel.new_dir_name),
            )
            &&& panel_after(panel, SftpPanelEvent::MakeDir).new_dir_name.len() == 0
        },
{
    law_joined_path_has_both_parts(panel.cwd, trimmed(panel.new_dir_name));
}

/// Deleting a file takes two steps: asking names the selected file, confirming deletes the file
/// that was named, with what is below it where it is a directory, and cancelling deletes nothing.
pub proof fn law_the_selected_file_is_deleted(panel: PanelView, at: usize)
    requires
        !panel.busy,
        panel.selected == Some(at),
        at < panel.entries.len(),
    ensures
        ({
            let asked = panel_after(panel, SftpPanelEvent::AskDelete);
            let sent = panel_commands(asked, SftpPanelEvent::ConfirmDelete);
            &&& panel_commands(panel, SftpPanelEvent::AskDelete).len() == 0
            &&& sent.len() == 1
            &&& sent[0] matches SftpCommandView::Delete { path, recursive } && path
                == panel.entries[at as int].path && recursive
                == panel.entries[at as int].is_directory
            &&& panel_after(asked, SftpPanelEvent::ConfirmDelete).confirm_delete is None
            &&& panel_commands(asked, SftpPanelEvent::CancelDelete).len() == 0
            &&& panel_after(asked, SftpPanelEvent::CancelDelete).confirm_delete is None
        }),
{
}

/// A click selects the file that was clicked and sends nothing, and it changes nothing else; what
/// is not in the list selects nothing.
pub proof fn law_clicks_select(panel: PanelView, at: usize)
    ensures
        at < panel.entries.len() ==> panel_after(panel, SftpPanelEvent::Click(at)).selected == Some(
            at,
        ) && panel_after(panel, SftpPanelEvent::DoubleClick(at)).selected == Some(at),
        at >= panel.entries.len() ==> panel_after(panel, SftpPanelEvent::Click(at)).selected
            == panel.selected && panel_after(panel, SftpPanelEvent::DoubleClick(at)).selected
            == panel.selected,
        panel_commands(panel, SftpPanelEvent::Click(at)).len() == 0,
        panel_after(panel, SftpPanelEvent::Click(at)).entries == panel.entries,
        panel_after(panel, SftpPanelEvent::Click(at)).cwd == panel.cwd,
        panel_after(panel, SftpPanelEvent::Click(at)).confirm_delete == panel.confirm_delete,
{
}

/// The files of a panel are those that its worker listed last: nothing that is done in the panel
/// changes them, and its path changes only where it is typed.
pub proof fn law_files_come_from_listings(panel: PanelView, event: SftpPanelEvent)
    ensures
        panel_after(panel, event).entries == panel.entries,
        panel_after(panel, event).busy == panel.busy,
        panel_after(panel, event).cwd == (match event {
            SftpPanelEvent::EditPath(path) => path@,
            _ => panel.cwd,
        }),
        panel_after(panel, event).new_dir_name == (match event {
            SftpPanelEvent::EditNewDir(name) => name@,
            SftpPanelEvent::MakeDir => panel_after(panel, event).new_dir_name,
            _ => panel.new_dir_name,
        }),
{
}

/// A listing is shown as it came: with its directory, its files and its error, nothing selected,
/// and the panel free; the running transfer is left alone.
pub proof fn law_listings_are_shown(
    panel: PanelView,
    cwd: Seq<char>,
    entries: Seq<FileView>,
    error: Option<Seq<char>>,
)
    ensures
        ({
            let next = panel_step(panel, SftpEventView::Listing { cwd, entries, error });
            &&& next.cwd == cwd && next.entries == entries && next.error == error
            &&& next.selected is None && !next.busy
            &&& next.transfer_id == panel.transfer_id
            &&& next.transfer_progress == panel.transfer_progress
            &&& next.new_dir_name == panel.new_dir_name
            &&& next.confirm_delete == panel.confirm_delete
            &&& !asks_refresh(SftpEventView::Listing { cwd, entries, error })
        }),
{
}

/// While a transfer runs its number and how far it is are shown, and the files stay; its end clears
/// both and asks for the files again.
pub proof fn law_progress_is_shown(
    panel: PanelView,
    id: Seq<char>,
    transferred: u64,
    total: u64,
    done: bool,
    message: Option<Seq<char>>,
)
    ensures
        ({
            let event = SftpEventView::Progress { id, transferred, total, done, message };
            let next = panel_step(panel, event);
            &&& asks_refresh(event) == done
            &&& next.cwd == panel.cwd && next.entries == panel.entries && next.selected
                == panel.selected
            &&& done ==> next.transfer_id is None && next.transfer_progress is None && !next.busy
            &&& done && message is Some ==> next.error == message
            &&& done && message is None ==> next.error == panel.error
            &&& !done ==> next.transfer_id == Some(id) && next.transfer_progress == Some(
                (transferred, total),
            ) && next.busy == panel.busy && next.error == panel.error
        }),
{
}

/// The worker carries out the command that it was given: on the paths of the command, and with its
/// two paths in their places.
pub proof fn law_worker_does_what_it_is_told(command: SftpCommand, number: u64)
    ensures
        ({
            let step = worker_step(
                PhaseView::Waiting,
                WorkerReport::Command(Some(command), number),
            )->Some_0;
            &&& step.event is None
            &&& match command {
                SftpCommand::List(path) => step.action == ActionView::List(path@),
                SftpCommand::Mkdir(path) => step.action == ActionView::Mkdir(path@),
                SftpCommand::Delete { path, recursive } => if recursive {
                    step.action == ActionView::DeleteTree(path@)
                } else {
                    step.action == ActionView::Delete(path@)
                },
                SftpCommand::Download { remote, local } => step.action matches ActionView::Download {
                    remote: from,
                    local: to,
                    id,
                } && from == remote@ && to == local@ && step.phase == (PhaseView::Transferring {
                    id,
                }),
                SftpCommand::DownloadDir { remote, local } => step.action matches ActionView::DownloadDir {
                    remote: from,
                    local: to,
                    id,
                } && from == remote@ && to == local@ && step.phase == (PhaseView::Transferring {
                    id,
                }),
                SftpCommand::Upload { local, remote } => step.action matches ActionView::Upload {
                    local: from,
                    remote: to,
                    id,
                } && from == local@ && to == remote@ && step.phase == (PhaseView::Transferring {
                    id,
                }),
                SftpCommand::UploadDir { local, remote } => step.action matches ActionView::UploadDir {
                    local: from,
                    remote: to,
                    id,
                } && from == local@ && to == remote@ && step.phase == (PhaseView::Transferring {
                    id,
                }),
            }
        }),
{
}

/// The worker tells the panel of a listing what was listed, and of what it did whether that went
/// well; then it waits for the next command.
pub proof fn law_worker_reports_back(
    path: Seq<char>,
    again: bool,
    cwd: String,
    entries: Vec<FileInfo>,
    id: Seq<char>,
    done: Result<(), SftpFailure>,
    transferred: Result<u64, SftpFailure>,
)
    ensures
        ({
            let step = worker_step(
                PhaseView::Listing { path, again },
                WorkerReport::Listed(Ok((cwd, entries))),
            )->Some_0;
            &&& step.event matches Some(SftpEventView::Listing { cwd: shown, entries: files, error })
                && shown == cwd@ && files.len() == entries@.len() && error is None && (forall|i: int|
                0 <= i < files.len() ==> (#[trigger] files[i]).path == entries@[i].path@
                    && files[i].name == entries@[i].name@ && files[i].is_directory
                    == entries@[i].is_directory && files[i].size == entries@[i].size)
            &&& step.phase is Waiting && step.action is Receive
        }),
        ({
            let made = worker_step(PhaseView::Making, WorkerReport::Done(done))->Some_0;
            let deleted = worker_step(PhaseView::Deleting, WorkerReport::Done(done))->Some_0;
            &&& made.event matches Some(SftpEventView::Finished { ok, .. }) && ok == done is Ok
            &&& deleted.event matches Some(SftpEventView::Finished { ok, .. }) && ok == done is Ok
            &&& made.phase is Waiting && deleted.phase is Waiting
        }),
        ({
            let step = worker_step(
                PhaseView::Transferring { id },
                WorkerReport::Transferred(transferred),
            )->Some_0;
            &&& step.event matches Some(SftpEventView::Progress { id: told, done, .. }) && told == id
                && done
            &&& step.phase is Waiting
        }),
{
}

/// Which commands move data: the downloads and the uploads, of files and of directories.
pub proof fn law_transfers_move_data(command: SftpCommandView, event: SftpEvent)
    ensures
        is_transfer(command) <==> command is Download || command is DownloadDir
            || command is Upload || command is UploadDir,
        opt_event(Some(event)) == Some(event@),
        opt_event(None) is None,
{
}

/// What is said when a directory was made, something was deleted or a transfer has ended: that it
/// succeeded, or that it failed and why.
pub proof fn law_ends_are_told(
    done: Result<(), SftpFailure>,
    id: Seq<char>,
    moved: Result<u64, SftpFailure>,
)
    ensures
        ({
            let made = worker_step(PhaseView::Making, WorkerReport::Done(done))->Some_0.event;
            let gone = worker_step(PhaseView::Deleting, WorkerReport::Done(done))->Some_0.event;
            match done {
                Ok(_) => made == Some(
                    SftpEventView::Finished { ok: true, message: "新建目录成功"@ },
                ) && gone == Some(SftpEventView::Finished { ok: true, message: "删除成功"@ }),
                Err(failure) => made == Some(
                    SftpEventView::Finished {
                        ok: false,
                        message: "新建目录失败: "@ + failure.text@,
                    },
                ) && gone == Some(
                    SftpEventView::Finished { ok: false, message: "删除失败: "@ + failure.text@ },
                ),
            }
        }),
        ({
            let end = worker_step(
                PhaseView::Transferring { id },
                WorkerReport::Transferred(moved),
            )->Some_0.event;
            &&& end is Some
            &&& end->Some_0 matches SftpEventView::Progress {
                id: told,
                transferred,
                total,
                done,
                message,
            } && told == id && transferred == 0 && total == 0 && done && message == Some(
                match moved {
                    Ok(bytes) => "传输完成，共 "@ + decimal(bytes as nat) + " 字节"@,
                    Err(failure) => "传输失败: "@ + failure.text@,
                },
            )
        }),
{
    reveal_strlit("新建目录");
    reveal_strlit("删除");
    reveal_strlit("成功");
    reveal_strlit("失败: ");
    reveal_strlit("新建目录成功");
    reveal_strlit("删除成功");
    reveal_strlit("新建目录失败: ");
    reveal_strlit("删除失败: ");
    assert("新建目录成功"@ =~= "新建目录"@ + "成功"@);
    assert("删除成功"@ =~= "删除"@ + "成功"@);
    assert("新建目录失败: "@ =~= "新建目录"@ + "失败: "@);
    assert("删除失败: "@ =~= "删除"@ + "失败: "@);
}

/// A worker that cannot start ends and says so; one that cannot open its channel tries it once more
/// where that may help, and then ends and says so.
pub proof fn law_workers_end_with_a_reason(error: String, failure: SftpFailure, again: bool)
    ensures
        worker_step(PhaseView::Starting, WorkerReport::Started(Ok(()))) == Some(
            StepView {
                phase: PhaseView::Opening { again: false },
                action: ActionView::Open,
                event: None,
            },
        ),
        worker_step(PhaseView::Starting, WorkerReport::Started(Err(error))) == Some(
            StepView {
                phase: PhaseView::Ended,
                action: ActionView::End,
                event: Some(
                    SftpEventView::Listing {
                        cwd: Seq::empty(),
                        entries: Seq::empty(),
                        error: Some("SFTP 运行时创建失败: "@ + error@),
                    },
                ),
            },
        ),
        worker_step(PhaseView::Opening { again }, WorkerReport::Opened(Ok(()))) == Some(
            StepView { phase: PhaseView::Waiting, action: ActionView::Receive, event: None },
        ),
        failure.recoverable ==> worker_step(
            PhaseView::Opening { again: false },
            WorkerReport::Opened(Err(failure)),
        ) == Some(
            StepView {
                phase: PhaseView::Opening { again: true },
                action: ActionView::Reopen,
                event: None,
            },
        ),
        !failure.recoverable || again ==> worker_step(
            PhaseView::Opening { again },
            WorkerReport::Opened(Err(failure)),
        ) == Some(
            StepView {
                phase: PhaseView::Ended,
                action: ActionView::End,
                event: Some(
                    SftpEventView::Listing {
                        cwd: Seq::empty(),
                        entries: Seq::empty(),
                        error: Some("SFTP 连接失败: "@ + failure.text@),
                    },
                ),
            },
        ),
{
}

/// A transfer is known by what it does and by its number.
pub proof fn law_transfers_are_numbered(remote: Seq<char>, local: Seq<char>, number: u64)
    ensures
        command_step(SftpCommandView::Download { remote, local }, number).phase == (
        PhaseView::Transferring { id: seq!['d', 'l', '-'] + hexadecimal(number as nat) }),
        command_step(SftpCommandView::DownloadDir { remote, local }, number).phase == (
        PhaseView::Transferring {
            id: seq!['d', 'l', 'd', 'i', 'r', '-'] + hexadecimal(number as nat),
        }),
        command_step(SftpCommandView::Upload { local, remote }, number).phase == (
        PhaseView::Transferring { id: seq!['u', 'l', '-'] + hexadecimal(number as nat) }),
        command_step(SftpCommandView::UploadDir { local, remote }, number).phase == (
        PhaseView::Transferring {
            id: seq!['u', 'l', 'd', 'i', 'r', '-'] + hexadecimal(number as nat),
        }),
{
    reveal_strlit("dl-");
    reveal_strlit("dldir-");
    reveal_strlit("ul-");
    reveal_strlit("uldir-");
    assert("dl-"@ =~= seq!['d', 'l', '-']);
    assert("dldir-"@ =~= seq!['d', 'l', 'd', 'i', 'r', '-']);
    assert("ul-"@ =~= seq!['u', 'l', '-']);
    assert("uldir-"@ =~= seq!['u', 'l', 'd', 'i', 'r', '-']);
}

} // verus!
