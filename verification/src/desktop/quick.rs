//! Commands that are kept at hand: a list of snippets, and a bar of those that one click sends.

use crate::json::opt_text;
use crate::text::{contains_text, lower, lowercased, occurs, same, texts, trim, trimmed};
use vstd::prelude::*;
use vstd::string::*;

verus! {

/// How many commands are on the bar at the start.
pub const LOADED_AT_START: usize = 3;

#[derive(Clone, Debug, PartialEq, Eq)]
pub struct QuickCommand {
    pub id: String,
    pub name: String,
    pub command: String,
    pub category: String,
    pub description: Option<String>,
    pub host_pattern: Option<String>,
    pub created_at: u64,
    pub updated_at: u64,
}

#[verifier::ext_equal]
pub struct QuickCommandView {
    pub id: Seq<char>,
    pub name: Seq<char>,
    pub command: Seq<char>,
    pub category: Seq<char>,
    pub description: Option<Seq<char>>,
    pub host_pattern: Option<Seq<char>>,
    pub created_at: u64,
    pub updated_at: u64,
}

impl View for QuickCommand {
    type V = QuickCommandView;

    open spec fn view(&self) -> QuickCommandView {
        QuickCommandView {
            id: self.id@,
            name: self.name@,
            command: self.command@,
            category: self.category@,
            description: opt_text(self.description),
            host_pattern: opt_text(self.host_pattern),
            created_at: self.created_at,
            updated_at: self.updated_at,
        }
    }
}

pub open spec fn command_views(commands: Seq<QuickCommand>) -> Seq<QuickCommandView> {
    Seq::new(commands.len(), |i: int| commands[i]@)
}

#[derive(Clone, Debug, PartialEq, Eq)]
pub struct QuickCategory {
    pub id: String,
    pub name: String,
}

/// All that is saved.
#[derive(Clone, Debug, PartialEq, Eq)]
pub struct QuickCommandsSnapshot {
    pub version: u32,
    pub categories: Vec<QuickCategory>,
    pub commands: Vec<QuickCommand>,
    pub updated_at: u64,
}

/// The panel: what is saved, and what is being typed.
#[derive(Debug)]
pub struct QuickCommandsPanel {
    pub snapshot: QuickCommandsSnapshot,
    pub draft: String,
    pub loaded: Vec<String>,
    pub filter: String,
    pub new_name: String,
    pub new_command: String,
    pub new_category: String,
    pub error: Option<String>,
}

#[verifier::ext_equal]
pub struct QuickView {
    pub version: u32,
    pub categories: Seq<QuickCategory>,
    pub commands: Seq<QuickCommandView>,
    pub updated_at: u64,
    pub draft: Seq<char>,
    pub loaded: Seq<Seq<char>>,
    pub filter: Seq<char>,
    pub new_name: Seq<char>,
    pub new_command: Seq<char>,
    pub new_category: Seq<char>,
    pub error: Option<Seq<char>>,
}

impl View for QuickCommandsPanel {
    type V = QuickView;

    open spec fn view(&self) -> QuickView {
        QuickView {
            version: self.snapshot.version,
            categories: self.snapshot.categories@,
            commands: command_views(self.snapshot.commands@),
            updated_at: self.snapshot.updated_at,
            draft: self.draft@,
            loaded: texts(self.loaded@),
            filter: self.filter@,
            new_name: self.new_name@,
            new_command: self.new_command@,
            new_category: self.new_category@,
            error: opt_text(self.error),
        }
    }
}

/// What is done in the panel.
#[derive(Debug)]
pub enum QuickEvent {
    /// A command of the bar is clicked.
    Send(String),
    /// A row of the list is clicked.
    SendListed(usize),
    /// What is typed is sent.
    SendDraft,
    /// A command is taken off the bar.
    Unload(String),
    /// A command of the list is put on the bar, or taken off it.
    TogglePin(String),
    Delete(String),
    Add,
    Draft(String),
    Filter(String),
    NewName(String),
    NewCommand(String),
    NewCategory(String),
}

/// What the panel asks of the program around: a text to send with a carriage return behind it,
/// and whether the commands are to be saved.
#[derive(Debug)]
pub struct QuickEffect {
    pub send: Option<String>,
    pub save: bool,
}

/// The text of the first command of an id.
pub open spec fn command_text(commands: Seq<QuickCommandView>, id: Seq<char>) -> Option<Seq<char>>
    decreases commands.len(),
{
    if commands.len() == 0 {
        None
    } else if commands[0].id == id {
        Some(commands[0].command)
    } else {
        command_text(commands.drop_first(), id)
    }
}

/// The text of a row of the list.
pub open spec fn listed_text(panel: QuickView, row: int) -> Option<Seq<char>> {
    let rows = panel.commands.filter(passes(panel.filter));
    if 0 <= row < rows.len() {
        Some(rows[row].command)
    } else {
        None
    }
}

/// What is sent of a text.
pub open spec fn sent_of(text: Option<Seq<char>>) -> Option<Seq<char>> {
    match text {
        Some(text) => if trimmed(text).len() > 0 {
            Some(trimmed(text))
        } else {
            None
        },
        None => None,
    }
}

pub open spec fn is_other_id(id: Seq<char>) -> spec_fn(Seq<char>) -> bool {
    |other: Seq<char>| other != id
}

pub open spec fn without_id(ids: Seq<Seq<char>>, id: Seq<char>) -> Seq<Seq<char>> {
    ids.filter(is_other_id(id))
}

pub open spec fn has_other_id(id: Seq<char>) -> spec_fn(QuickCommandView) -> bool {
    |other: QuickCommandView| other.id != id
}

pub open spec fn without_command(commands: Seq<QuickCommandView>, id: Seq<char>) -> Seq<
    QuickCommandView,
> {
    commands.filter(has_other_id(id))
}

pub open spec fn with_id(ids: Seq<Seq<char>>, id: Seq<char>) -> Seq<Seq<char>> {
    if ids.contains(id) {
        ids
    } else {
        ids.push(id)
    }
}

pub open spec fn fresh_command(panel: QuickView, now: u64, id: Seq<char>) -> QuickCommandView {
    QuickCommandView {
        id,
        name: trimmed(panel.new_name),
        command: trimmed(panel.new_command),
        category: panel.new_category,
        description: None,
        host_pattern: None,
        created_at: now,
        updated_at: now,
    }
}

pub open spec fn can_add(panel: QuickView) -> bool {
    trimmed(panel.new_name).len() > 0 && trimmed(panel.new_command).len() > 0
}

/// The panel after an event; a new command gets `id`.
pub open spec fn quick_step(panel: QuickView, event: QuickEvent, now: u64, id: Seq<char>) -> QuickView {
    match event {
        QuickEvent::Send(_) | QuickEvent::SendListed(_) => panel,
        QuickEvent::SendDraft => if trimmed(panel.draft).len() > 0 {
            QuickView { draft: Seq::empty(), ..panel }
        } else {
            panel
        },
        QuickEvent::Unload(gone) => QuickView { loaded: without_id(panel.loaded, gone@), ..panel },
        QuickEvent::TogglePin(pin) => QuickView {
            loaded: if panel.loaded.contains(pin@) {
                without_id(panel.loaded, pin@)
            } else {
                panel.loaded.push(pin@)
            },
            ..panel
        },
        QuickEvent::Delete(gone) => QuickView {
            commands: without_command(panel.commands, gone@),
            loaded: without_id(panel.loaded, gone@),
            updated_at: now,
            ..panel
        },
        QuickEvent::Add => if can_add(panel) {
            QuickView {
                commands: panel.commands.push(fresh_command(panel, now, id)),
                updated_at: now,
                new_name: Seq::empty(),
                new_command: Seq::empty(),
                error: None,
                loaded: with_id(panel.loaded, id),
                ..panel
            }
        } else {
            QuickView { error: Some("名称和命令不能为空"@), ..panel }
        },
        QuickEvent::Draft(text) => QuickView { draft: text@, ..panel },
        QuickEvent::Filter(text) => QuickView { filter: text@, ..panel },
        QuickEvent::NewName(text) => QuickView { new_name: text@, ..panel },
        QuickEvent::NewCommand(text) => QuickView { new_command: text@, ..panel },
        QuickEvent::NewCategory(text) => QuickView { new_category: text@, ..panel },
    }
}

/// What an event sends.
pub open spec fn quick_send(panel: QuickView, event: QuickEvent) -> Option<Seq<char>> {
    match event {
        QuickEvent::Send(id) => sent_of(command_text(panel.commands, id@)),
        QuickEvent::SendListed(row) => sent_of(listed_text(panel, row as int)),
        QuickEvent::SendDraft => sent_of(Some(panel.draft)),
        _ => None,
    }
}

/// Whether the commands are saved after an event.
pub open spec fn quick_saves(panel: QuickView, event: QuickEvent) -> bool {
    match event {
        QuickEvent::Delete(_) => true,
        QuickEvent::Add => can_add(panel),
        _ => false,
    }
}

fn holds_id(ids: &Vec<String>, id: &str) -> (r: bool)
    ensures
        r == texts(ids@).contains(id@),
{
    let mut i: usize = 0;
    while i < ids.len()
        invariant
            i <= ids.len(),
            forall|j: int| 0 <= j < i ==> texts(ids@)[j] != id@,
        decreases ids.len() - i,
    {
        if same(ids[i].as_str(), id) {
            assert(texts(ids@)[i as int] == id@);
            return true;
        }
        assert(texts(ids@)[i as int] != id@);
        i = i + 1;
    }
    false
}

fn drop_id(ids: &Vec<String>, id: &str) -> (r: Vec<String>)
    ensures
        texts(r@) == without_id(texts(ids@), id@),
{
    let ghost all = texts(ids@);
    let mut r: Vec<String> = Vec::new();
    let mut i: usize = 0;
    proof {
        reveal(Seq::filter);
        assert(all.take(0) == Seq::<Seq<char>>::empty());
        assert(texts(r@) =~= Seq::<Seq<char>>::empty());
    }
    while i < ids.len()
        invariant
            i <= ids.len(),
            all == texts(ids@),
            texts(r@) == without_id(all.take(i as int), id@),
        decreases ids.len() - i,
    {
        proof {
            reveal(Seq::filter);
            assert(all.take(i + 1).drop_last() == all.take(i as int));
            assert(all.take(i + 1).last() == all[i as int]);
        }
        if !same(ids[i].as_str(), id) {
            let ghost before = r@;
            r.push(ids[i].clone());
            assert(texts(r@) =~= texts(before).push(all[i as int]));
        }
        i = i + 1;
    }
    assert(all.take(i as int) == all);
    r
}

impl QuickCommand {
    fn duplicate(&self) -> (r: QuickCommand)
        ensures
            r@ == self@,
    {
        QuickCommand {
            id: self.id.clone(),
            name: self.name.clone(),
            command: self.command.clone(),
            category: self.category.clone(),
            description: self.description.clone(),
            host_pattern: self.host_pattern.clone(),
            created_at: self.created_at,
            updated_at: self.updated_at,
        }
    }
}

fn drop_command(commands: &Vec<QuickCommand>, id: &str) -> (r: Vec<QuickCommand>)
    ensures
        command_views(r@) == without_command(command_views(commands@), id@),
{
    let ghost all = command_views(commands@);
    let mut r: Vec<QuickCommand> = Vec::new();
    let mut i: usize = 0;
    proof {
        reveal(Seq::filter);
        assert(all.take(0) == Seq::<QuickCommandView>::empty());
        assert(command_views(r@) =~= Seq::<QuickCommandView>::empty());
    }
    while i < commands.len()
        invariant
            i <= commands.len(),
            all == command_views(commands@),
            command_views(r@) == without_command(all.take(i as int), id@),
        decreases commands.len() - i,
    {
        proof {
            reveal(Seq::filter);
            assert(all.take(i + 1).drop_last() == all.take(i as int));
            assert(all.take(i + 1).last() == all[i as int]);
        }
        if !same(commands[i].id.as_str(), id) {
            let ghost before = r@;
            r.push(commands[i].duplicate());
            assert(command_views(r@) =~= command_views(before).push(all[i as int]));
        }
        i = i + 1;
    }
    assert(all.take(i as int) == all);
    r
}

/// Whether a command is listed under a filter; all texts are in lower case.
pub open spec fn is_listed(filter: Seq<char>, name: Seq<char>, command: Seq<char>) -> bool {
    filter.len() == 0 || occurs(name, filter) || occurs(command, filter)
}

pub fn passes_filter(filter: &str, name: &str, command: &str) -> (r: bool)
    ensures
        r == is_listed(filter@, name@, command@),
{
    filter.unicode_len() == 0 || contains_text(name, filter) || contains_text(command, filter)
}

pub open spec fn passes(filter: Seq<char>) -> spec_fn(QuickCommandView) -> bool {
    |command: QuickCommandView|
        is_listed(
            lowercased(trimmed(filter)),
            lowercased(command.name),
            lowercased(command.command),
        )
}

impl QuickCommandsPanel {
    /// The panel with what was read, or with the defaults where nothing could be.
    pub fn new(
        read: Option<QuickCommandsSnapshot>,
        categories: Vec<QuickCategory>,
        commands: Vec<QuickCommand>,
        now: u64,
    ) -> (r: QuickCommandsPanel)
        ensures
            r.snapshot == match read {
                Some(snapshot) => snapshot,
                None => (QuickCommandsSnapshot { version: 1, categories, commands, updated_at: now }),
            },
            r@.loaded == Seq::new(
                if r@.commands.len() < LOADED_AT_START {
                    r@.commands.len()
                } else {
                    LOADED_AT_START as nat
                },
                |i: int| r@.commands[i].id,
            ),
            r@.new_category == if r@.categories.len() > 0 {
                r@.categories[0].id@
            } else {
                Seq::empty()
            },
            r@.draft == Seq::<char>::empty() && r@.filter == Seq::<char>::empty(),
            r@.new_name == Seq::<char>::empty() && r@.new_command == Seq::<char>::empty(),
            r@.error is None,
    {
        let snapshot = match read {
            Some(snapshot) => snapshot,
            None => QuickCommandsSnapshot { version: 1, categories, commands, updated_at: now },
        };
        let new_category = if snapshot.categories.len() > 0 {
            snapshot.categories[0].id.clone()
        } else {
            String::new()
        };
        let mut loaded: Vec<String> = Vec::new();
        let mut i: usize = 0;
        while i < snapshot.commands.len() && i < LOADED_AT_START
            invariant
                i <= snapshot.commands.len(),
                i <= LOADED_AT_START,
                loaded.len() == i,
                forall|j: int| 0 <= j < i ==> (#[trigger] loaded@[j])@ == snapshot.commands@[j].id@,
            decreases snapshot.commands.len() - i,
        {
            loaded.push(snapshot.commands[i].id.clone());
            i = i + 1;
        }
        let r = QuickCommandsPanel {
            snapshot,
            draft: String::new(),
            loaded,
            filter: String::new(),
            new_name: String::new(),
            new_command: String::new(),
            new_category,
            error: None,
        };
        assert(r@.loaded =~= Seq::new(
            if r@.commands.len() < LOADED_AT_START {
                r@.commands.len()
            } else {
                LOADED_AT_START as nat
            },
            |i: int| r@.commands[i].id,
        ));
        r
    }

    fn send_command(text: &str) -> (r: Option<String>)
        ensures
            opt_text(r) == sent_of(Some(text@)),
    {
        let text = trim(text);
        if text.unicode_len() > 0 {
            Some(text.to_string())
        } else {
            None
        }
    }

    fn text_of(&self, id: &str) -> (r: Option<&str>)
        ensures
            match r {
                Some(text) => command_text(self@.commands, id@) == Some(text@),
                None => command_text(self@.commands, id@) is None,
            },
    {
        let ghost all = self@.commands;
        let mut i: usize = 0;
        assert(all.skip(0) == all);
        while i < self.snapshot.commands.len()
            invariant
                i <= self.snapshot.commands.len(),
                all == command_views(self.snapshot.commands@),
                command_text(all.skip(i as int), id@) == command_text(all, id@),
            decreases self.snapshot.commands.len() - i,
        {
            let command = &self.snapshot.commands[i];
            if same(command.id.as_str(), id) {
                return Some(command.command.as_str());
            }
            assert(all.skip(i as int).drop_first() == all.skip(i + 1));
            i = i + 1;
        }
        None
    }

    fn load_id(&mut self, id: String)
        ensures
            final(self)@ == (QuickView {
                loaded: with_id(old(self)@.loaded, id@),
                ..old(self)@
            }),
    {
        if !holds_id(&self.loaded, id.as_str()) {
            let ghost before = self.loaded@;
            self.loaded.push(id);
            assert(texts(self.loaded@) =~= texts(before).push(id@));
        }
    }

    fn add_command(&mut self, now: u64, id: String) -> (r: bool)
        ensures
            final(self)@ == quick_step(old(self)@, QuickEvent::Add, now, id@),
            r == can_add(old(self)@),
    {
        let name = trim(self.new_name.as_str()).to_string();
        let command = trim(self.new_command.as_str()).to_string();
        if name.as_str().unicode_len() == 0 || command.as_str().unicode_len() == 0 {
            self.error = Some("名称和命令不能为空".to_string());
            return false;
        }
        let ghost before = self.snapshot.commands@;
        let fresh = QuickCommand {
            id: id.clone(),
            name,
            command,
            category: self.new_category.clone(),
            description: None,
            host_pattern: None,
            created_at: now,
            updated_at: now,
        };
        let ghost view = fresh@;
        self.snapshot.commands.push(fresh);
        assert(command_views(self.snapshot.commands@) =~= command_views(before).push(view));
        self.snapshot.updated_at = now;
        self.new_name = String::new();
        self.new_command = String::new();
        self.error = None;
        self.load_id(id);
        true
    }

    /// Does what was asked for in the panel. `id` is an id that no command has yet.
    pub fn ui_window(&mut self, event: QuickEvent, now: u64, id: String) -> (r: QuickEffect)
        ensures
            final(self)@ == quick_step(old(self)@, event, now, id@),
            opt_text(r.send) == quick_send(old(self)@, event),
            r.save == quick_saves(old(self)@, event),
    {
        let mut send: Option<String> = None;
        let mut save = false;
        match event {
            QuickEvent::Send(sent) => {
                send = match self.text_of(sent.as_str()) {
                    Some(text) => QuickCommandsPanel::send_command(text),
                    None => None,
                };
            },
            QuickEvent::SendListed(row) => {
                let rows = self.listed();
                assert(command_views(rows@).len() == rows@.len());
                if row < rows.len() {
                    assert(command_views(rows@)[row as int] == rows@[row as int]@);
                    send = QuickCommandsPanel::send_command(rows[row].command.as_str());
                }
            },
            QuickEvent::SendDraft => {
                send = QuickCommandsPanel::send_command(self.draft.as_str());
                if send.is_some() {
                    self.draft = String::new();
                }
            },
            QuickEvent::Unload(gone) => {
                self.loaded = drop_id(&self.loaded, gone.as_str());
            },
            QuickEvent::TogglePin(pin) => {
                if holds_id(&self.loaded, pin.as_str()) {
                    self.loaded = drop_id(&self.loaded, pin.as_str());
                } else {
                    self.load_id(pin);
                }
            },
            QuickEvent::Delete(gone) => {
                self.snapshot.commands = drop_command(&self.snapshot.commands, gone.as_str());
                self.loaded = drop_id(&self.loaded, gone.as_str());
                self.snapshot.updated_at = now;
                save = true;
            },
            QuickEvent::Add => {
                save = self.add_command(now, id);
            },
            QuickEvent::Draft(text) => {
                self.draft = text;
            },
            QuickEvent::Filter(text) => {
                self.filter = text;
            },
            QuickEvent::NewName(text) => {
                self.new_name = text;
            },
            QuickEvent::NewCommand(text) => {
                self.new_command = text;
            },
            QuickEvent::NewCategory(text) => {
                self.new_category = text;
            },
        }
        QuickEffect { send, save }
    }

    /// Takes how the saving went.
    pub fn saved(&mut self, result: Result<(), String>)
        ensures
            final(self)@ == match result {
                Ok(_) => old(self)@,
                Err(error) => QuickView { error: Some(error@), ..old(self)@ },
            },
    {
        if let Err(error) = result {
            self.error = Some(error);
        }
    }

    /// The commands that the filter lets through, in their order.
    pub fn listed(&self) -> (r: Vec<QuickCommand>)
        ensures
            command_views(r@) == self@.commands.filter(passes(self@.filter)),
    {
        let filter = lower(trim(self.filter.as_str()));
        let ghost all = self@.commands;
        let mut r: Vec<QuickCommand> = Vec::new();
        let mut i: usize = 0;
        proof {
            reveal(Seq::filter);
            assert(all.take(0) == Seq::<QuickCommandView>::empty());
            assert(command_views(r@) =~= Seq::<QuickCommandView>::empty());
        }
        while i < self.snapshot.commands.len()
            invariant
                i <= self.snapshot.commands.len(),
                all == command_views(self.snapshot.commands@),
                filter@ == lowercased(trimmed(self@.filter)),
                command_views(r@) == all.take(i as int).filter(passes(self@.filter)),
            decreases self.snapshot.commands.len() - i,
        {
            proof {
                reveal(Seq::filter);
                assert(all.take(i + 1).drop_last() == all.take(i as int));
                assert(all.take(i + 1).last() == all[i as int]);
            }
            let command = &self.snapshot.commands[i];
            let name = lower(command.name.as_str());
            let text = lower(command.command.as_str());
            if passes_filter(filter.as_str(), name.as_str(), text.as_str()) {
                let ghost before = r@;
                r.push(command.duplicate());
                assert(command_views(r@) =~= command_views(before).push(all[i as int]));
            }
            i = i + 1;
        }
        assert(all.take(i as int) == all);
        r
    }

    /// Whether a command is on the bar.
    pub fn pinned(&self, id: &str) -> (r: bool)
        ensures
            r == self@.loaded.contains(id@),
    {
        holds_id(&self.loaded, id)
    }

    /// The name of the chosen category.
    pub fn category_text(&self) -> (r: &str)
        ensures
            r@ == category_name(self@.categories, self@.new_category),
    {
        let ghost all = self.snapshot.categories@;
        let mut i: usize = 0;
        assert(all.skip(0) == all);
        while i < self.snapshot.categories.len()
            invariant
                i <= self.snapshot.categories.len(),
                all == self.snapshot.categories@,
                category_name(all.skip(i as int), self@.new_category) == category_name(
                    all,
                    self@.new_category,
                ),
            decreases self.snapshot.categories.len() - i,
        {
            let category = &self.snapshot.categories[i];
            if same(category.id.as_str(), self.new_category.as_str()) {
                return category.name.as_str();
            }
            assert(all.skip(i as int).drop_first() == all.skip(i + 1));
            i = i + 1;
        }
        "默认"
    }
}

/// The name of the first category of an id.
pub open spec fn category_name(categories: Seq<QuickCategory>, id: Seq<char>) -> Seq<char>
    decreases categories.len(),
{
    if categories.len() == 0 {
        "默认"@
    } else if categories[0].id@ == id {
        categories[0].name@
    } else {
        category_name(categories.drop_first(), id)
    }
}

proof fn lemma_without_id(ids: Seq<Seq<char>>, id: Seq<char>)
    ensures
        !without_id(ids, id).contains(id),
        !ids.contains(id) ==> without_id(ids, id) == ids,
        ids.no_duplicates() ==> without_id(ids, id).no_duplicates(),
        forall|x: Seq<char>| without_id(ids, id).contains(x) ==> ids.contains(x),
    decreases ids.len(),
{
    reveal(Seq::filter);
    if ids.len() > 0 {
        let front = ids.drop_last();
        lemma_without_id(front, id);
        let kept = without_id(front, id);
        let all = without_id(ids, id);
        assert(forall|x: Seq<char>| front.contains(x) ==> ids.contains(x)) by {
            assert forall|x: Seq<char>| front.contains(x) implies ids.contains(x) by {
                let k = choose|k: int| 0 <= k < front.len() && front[k] == x;
                assert(ids[k] == x);
            }
        }
        assert(ids.contains(ids.last()));
        if !ids.contains(id) {
            assert(!front.contains(id));
            assert(front.push(ids.last()) =~= ids);
        }
        if ids.last() == id {
            assert(all == kept);
        } else {
            assert(all == kept.push(ids.last()));
            assert forall|x: Seq<char>| all.contains(x) implies ids.contains(x) && x != id by {
                let k = choose|k: int| 0 <= k < all.len() && all[k] == x;
                if k < kept.len() {
                    assert(kept[k] == x);
                    assert(kept.contains(x));
                }
            }
        }
        if ids.no_duplicates() {
            assert(front.no_duplicates());
            assert(!kept.contains(ids.last())) by {
                if kept.contains(ids.last()) {
                    assert(front.contains(ids.last()));
                    let k = choose|k: int| 0 <= k < front.len() && front[k] == ids.last();
                    assert(ids[k] == ids[ids.len() - 1]);
                }
            }
            assert(all.no_duplicates()) by {
                assert forall|i: int, j: int| 0 <= i < all.len() && 0 <= j < all.len() && i != j implies all[i]
                    != all[j] by {
                    if i < kept.len() {
                        assert(kept.contains(kept[i]));
                    }
                    if j < kept.len() {
                        assert(kept.contains(kept[j]));
                    }
                }
            }
        }
    }
}

/// No command is on the bar twice, whatever is done.
pub proof fn law_bar_holds_each_once(panel: QuickView, event: QuickEvent, now: u64, id: Seq<char>)
    requires
        panel.loaded.no_duplicates(),
    ensures
        quick_step(panel, event, now, id).loaded.no_duplicates(),
{
    match event {
        QuickEvent::Unload(gone) => {
            lemma_without_id(panel.loaded, gone@);
        },
        QuickEvent::TogglePin(pin) => {
            lemma_without_id(panel.loaded, pin@);
        },
        QuickEvent::Delete(gone) => {
            lemma_without_id(panel.loaded, gone@);
        },
        _ => {},
    }
}

/// Putting a command on the bar and taking it off again leaves the bar as it was.
pub proof fn law_pinning_twice_undoes(panel: QuickView, pin: String, now: u64, id: Seq<char>)
    requires
        !panel.loaded.contains(pin@),
    ensures
        quick_step(
            quick_step(panel, QuickEvent::TogglePin(pin), now, id),
            QuickEvent::TogglePin(pin),
            now,
            id,
        ) == panel,
{
    let more = panel.loaded.push(pin@);
    assert(more[panel.loaded.len() as int] == pin@);
    assert(more.contains(pin@));
    reveal(Seq::filter);
    assert(more.drop_last() =~= panel.loaded);
    assert(more.last() == pin@);
    lemma_without_id(panel.loaded, pin@);
    assert(without_id(more, pin@) == panel.loaded);
}

/// A deleted command is gone from the bar as well, so that nothing is sent by it any more.
pub proof fn law_deleted_commands_are_gone(
    panel: QuickView,
    gone: String,
    now: u64,
    id: Seq<char>,
)
    ensures
        ({
            let next = quick_step(panel, QuickEvent::Delete(gone), now, id);
            !next.loaded.contains(gone@) && quick_send(next, QuickEvent::Send(gone)) is None
        }),
{
    lemma_without_id(panel.loaded, gone@);
    lemma_without_command(panel.commands, gone@);
}

proof fn lemma_without_command(commands: Seq<QuickCommandView>, id: Seq<char>)
    ensures
        command_text(without_command(commands, id), id) is None,
    decreases commands.len(),
{
    reveal(Seq::filter);
    if commands.len() > 0 {
        let kept = without_command(commands.drop_last(), id);
        lemma_without_command(commands.drop_last(), id);
        if commands.last().id != id {
            lemma_command_text_push(kept, commands.last(), id);
        }
    }
}

proof fn lemma_command_text_push(
    commands: Seq<QuickCommandView>,
    more: QuickCommandView,
    id: Seq<char>,
)
    requires
        command_text(commands, id) is None,
        more.id != id,
    ensures
        command_text(commands.push(more), id) is None,
    decreases commands.len(),
{
    let all = commands.push(more);
    if commands.len() == 0 {
        assert(all.drop_first() =~= Seq::<QuickCommandView>::empty());
        assert(command_text(all.drop_first(), id) is None);
        assert(all[0] == more);
    } else {
        assert(all[0] == commands[0]);
        assert(commands[0].id != id);
        assert(all.drop_first() =~= commands.drop_first().push(more));
        lemma_command_text_push(commands.drop_first(), more, id);
        assert(command_text(all, id) == command_text(all.drop_first(), id));
    }
}

/// A command of the bar sends the text of the first command that has its id, without the white space
/// around it; nothing is sent where there is no such command or its text is blank.
pub proof fn law_clicked_command_is_sent(panel: QuickView, clicked: String, at: int)
    requires
        0 <= at < panel.commands.len(),
        panel.commands[at].id == clicked@,
        forall|i: int| 0 <= i < at ==> (#[trigger] panel.commands[i]).id != clicked@,
    ensures
        trimmed(panel.commands[at].command).len() > 0 ==> quick_send(
            panel,
            QuickEvent::Send(clicked),
        ) == Some(trimmed(panel.commands[at].command)),
        trimmed(panel.commands[at].command).len() == 0 ==> quick_send(
            panel,
            QuickEvent::Send(clicked),
        ) is None,
{
    lemma_first_of_id(panel.commands, clicked@, at);
}

proof fn lemma_first_of_id(commands: Seq<QuickCommandView>, id: Seq<char>, at: int)
    requires
        0 <= at < commands.len(),
        commands[at].id == id,
        forall|i: int| 0 <= i < at ==> (#[trigger] commands[i]).id != id,
    ensures
        command_text(commands, id) == Some(commands[at].command),
    decreases commands.len(),
{
    if at > 0 {
        assert(commands[0].id != id);
        let rest = commands.drop_first();
        assert forall|i: int| 0 <= i < at - 1 implies (#[trigger] rest[i]).id != id by {
            assert(rest[i] == commands[i + 1]);
        }
        lemma_first_of_id(rest, id, at - 1);
    }
}

/// An id that no command has sends nothing.
pub proof fn law_unknown_command_sends_nothing(panel: QuickView, clicked: String)
    requires
        forall|i: int| 0 <= i < panel.commands.len() ==> (#[trigger] panel.commands[i]).id
            != clicked@,
    ensures
        quick_send(panel, QuickEvent::Send(clicked)) is None,
{
    lemma_none_of_id(panel.commands, clicked@);
}

proof fn lemma_none_of_id(commands: Seq<QuickCommandView>, id: Seq<char>)
    requires
        forall|i: int| 0 <= i < commands.len() ==> (#[trigger] commands[i]).id != id,
    ensures
        command_text(commands, id) is None,
    decreases commands.len(),
{
    if commands.len() > 0 {
        let rest = commands.drop_first();
        assert(commands[0].id != id);
        assert forall|i: int| 0 <= i < rest.len() implies (#[trigger] rest[i]).id != id by {
            assert(rest[i] == commands[i + 1]);
        }
        lemma_none_of_id(rest, id);
    }
}

/// A row of the list sends its own text, and what is typed sends itself: without the white space
/// around it, and not at all where nothing is left. What is typed and sent is then gone.
pub proof fn law_rows_and_drafts_are_sent(panel: QuickView, row: usize, now: u64, id: Seq<char>)
    ensures
        ({
            let rows = panel.commands.filter(passes(panel.filter));
            &&& row < rows.len() && trimmed(rows[row as int].command).len() > 0 ==> quick_send(
                panel,
                QuickEvent::SendListed(row),
            ) == Some(trimmed(rows[row as int].command))
            &&& row < rows.len() && trimmed(rows[row as int].command).len() == 0 ==> quick_send(
                panel,
                QuickEvent::SendListed(row),
            ) is None
            &&& row >= rows.len() ==> quick_send(panel, QuickEvent::SendListed(row)) is None
        }),
        trimmed(panel.draft).len() > 0 ==> quick_send(panel, QuickEvent::SendDraft) == Some(
            trimmed(panel.draft),
        ) && quick_step(panel, QuickEvent::SendDraft, now, id).draft.len() == 0,
        trimmed(panel.draft).len() == 0 ==> quick_send(panel, QuickEvent::SendDraft) is None
            && quick_step(panel, QuickEvent::SendDraft, now, id) == panel,
        quick_step(panel, QuickEvent::SendListed(row), now, id) == panel,
{
}

/// A command is listed where the filter, without the white space around it, is empty or stands in
/// its name or in its text, in whichever case it is written.
pub proof fn law_filter_looks_at_name_and_text(filter: Seq<char>, command: QuickCommandView)
    ensures
        trimmed(filter) == Seq::<char>::empty() && lowercased(Seq::<char>::empty()).len() == 0
            ==> passes(filter)(command),
        occurs(lowercased(command.name), lowercased(trimmed(filter))) ==> passes(filter)(command),
        occurs(lowercased(command.command), lowercased(trimmed(filter))) ==> passes(filter)(command),
        lowercased(trimmed(filter)).len() > 0 && !occurs(
            lowercased(command.name),
            lowercased(trimmed(filter)),
        ) && !occurs(lowercased(command.command), lowercased(trimmed(filter))) ==> !passes(filter)(
            command,
        ),
{
}

/// A new command has the name, the text and the category that were entered; it is put behind the
/// others, which stay as they are, and on the bar. Without a name or a text there is none.
pub proof fn law_new_command_is_what_was_entered(panel: QuickView, now: u64, id: Seq<char>)
    ensures
        ({
            let next = quick_step(panel, QuickEvent::Add, now, id);
            if trimmed(panel.new_name).len() > 0 && trimmed(panel.new_command).len() > 0 {
                &&& next.commands.len() == panel.commands.len() + 1
                &&& next.commands.drop_last() == panel.commands
                &&& next.commands.last().id == id
                &&& next.commands.last().name == trimmed(panel.new_name)
                &&& next.commands.last().command == trimmed(panel.new_command)
                &&& next.commands.last().category == panel.new_category
                &&& next.commands.last().created_at == now
                &&& next.commands.last().updated_at == now
                &&& next.loaded.contains(id)
                &&& forall|x: Seq<char>| panel.loaded.contains(x) ==> next.loaded.contains(x)
                &&& next.updated_at == now
                &&& next.new_name.len() == 0 && next.new_command.len() == 0
                &&& next.error is None
                &&& quick_saves(panel, QuickEvent::Add)
            } else {
                &&& next.commands == panel.commands
                &&& next.loaded == panel.loaded
                &&& next.error is Some
                &&& next.new_name == panel.new_name && next.new_command == panel.new_command
                &&& !quick_saves(panel, QuickEvent::Add)
            }
        }),
{
    let next = quick_step(panel, QuickEvent::Add, now, id);
    if can_add(panel) {
        assert(next.commands.drop_last() =~= panel.commands);
        if !panel.loaded.contains(id) {
            let more = panel.loaded.push(id);
            assert(more[panel.loaded.len() as int] == id);
            assert forall|x: Seq<char>| panel.loaded.contains(x) implies more.contains(x) by {
                let k = choose|k: int| 0 <= k < panel.loaded.len() && panel.loaded[k] == x;
                assert(more[k] == x);
            }
        }
    }
}

/// Deleting a command takes all commands of its id and keeps every other one.
pub proof fn law_deleting_keeps_the_others(
    panel: QuickView,
    gone: String,
    now: u64,
    id: Seq<char>,
    command: QuickCommandView,
)
    ensures
        ({
            let next = quick_step(panel, QuickEvent::Delete(gone), now, id);
            &&& next.commands.contains(command) <==> panel.commands.contains(command) && command.id
                != gone@
            &&& quick_saves(panel, QuickEvent::Delete(gone))
        }),
{
    let keeps = has_other_id(gone@);
    let all = panel.commands;
    let kept = all.filter(keeps);
    if kept.contains(command) {
        let k = choose|k: int| 0 <= k < kept.len() && kept[k] == command;
        all.lemma_filter_contains_rev(keeps, command);
        all.lemma_filter_pred(keeps, k);
    }
    if all.contains(command) && command.id != gone@ {
        let k = choose|k: int| 0 <= k < all.len() && all[k] == command;
        all.lemma_filter_contains(keeps, k);
    }
}

/// What is typed into a field is what the field then holds, and nothing else changes.
pub proof fn law_typing_changes_its_field(
    panel: QuickView,
    text: String,
    now: u64,
    id: Seq<char>,
)
    ensures
        quick_step(panel, QuickEvent::Draft(text), now, id) == (QuickView { draft: text@, ..panel }),
        quick_step(panel, QuickEvent::Filter(text), now, id) == (QuickView {
            filter: text@,
            ..panel
        }),
        quick_step(panel, QuickEvent::NewName(text), now, id) == (QuickView {
            new_name: text@,
            ..panel
        }),
        quick_step(panel, QuickEvent::NewCommand(text), now, id) == (QuickView {
            new_command: text@,
            ..panel
        }),
        quick_step(panel, QuickEvent::NewCategory(text), now, id) == (QuickView {
            new_category: text@,
            ..panel
        }),
        quick_send(panel, QuickEvent::Draft(text)) is None,
{
}

/// A pin puts a command at the end of the bar where it is not there, and takes it off where it is;
/// the others stay on the bar either way, and taking a command off does the latter only.
pub proof fn law_pins_toggle(panel: QuickView, pin: String, now: u64, id: Seq<char>, other: Seq<char>)
    requires
        other != pin@,
    ensures
        ({
            let next = quick_step(panel, QuickEvent::TogglePin(pin), now, id);
            let off = quick_step(panel, QuickEvent::Unload(pin), now, id);
            &&& next.loaded.contains(pin@) == !panel.loaded.contains(pin@)
            &&& next.loaded.contains(other) == panel.loaded.contains(other)
            &&& !panel.loaded.contains(pin@) ==> next.loaded.last() == pin@
            &&& !off.loaded.contains(pin@)
            &&& off.loaded.contains(other) == panel.loaded.contains(other)
            &&& next.commands == panel.commands && off.commands == panel.commands
        }),
{
    let ids = panel.loaded;
    let kept = without_id(ids, pin@);
    lemma_without_id(ids, pin@);
    if ids.contains(other) {
        let k = choose|k: int| 0 <= k < ids.len() && ids[k] == other;
        ids.lemma_filter_contains(is_other_id(pin@), k);
    }
    if !ids.contains(pin@) {
        let more = ids.push(pin@);
        assert(more[ids.len() as int] == pin@);
        if ids.contains(other) {
            let k = choose|k: int| 0 <= k < ids.len() && ids[k] == other;
            assert(more[k] == other);
        }
        if more.contains(other) {
            let k = choose|k: int| 0 <= k < more.len() && more[k] == other;
            assert(ids[k] == other);
        }
    }
}

/// A category is called by the name of the first of its id, and by the default one where there is
/// none.
pub proof fn law_categories_are_named(categories: Seq<QuickCategory>, id: Seq<char>, at: int)
    requires
        0 <= at <= categories.len(),
        forall|j: int| 0 <= j < at ==> (#[trigger] categories[j]).id@ != id,
    ensures
        at < categories.len() && categories[at].id@ == id ==> category_name(categories, id)
            == categories[at].name@,
        at == categories.len() ==> category_name(categories, id) == "默认"@,
    decreases at,
{
    if at > 0 {
        let rest = categories.drop_first();
        assert(categories[0].id@ != id);
        assert forall|j: int| 0 <= j < at - 1 implies (#[trigger] rest[j]).id@ != id by {
            assert(rest[j] == categories[j + 1]);
        }
        law_categories_are_named(rest, id, at - 1);
    }
}

/// A command without a name or without a text is not added, which is said; nothing else changes.
pub proof fn law_empty_commands_are_refused(panel: QuickView, now: u64, id: Seq<char>)
    requires
        trimmed(panel.new_name).len() == 0 || trimmed(panel.new_command).len() == 0,
    ensures
        quick_step(panel, QuickEvent::Add, now, id) == (QuickView {
            error: Some("名称和命令不能为空"@),
            ..panel
        }),
{
}

} // verus!
