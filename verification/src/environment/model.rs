//! Projects found at the working directory of a terminal: their facets and tasks.

use crate::assoc::AssocKey;
use crate::order::{
    by_code, compare_numbers, compare_text, flipped, int_order, is_order, lemma_lex_flips,
    lemma_lex_transitive, text_order, Order,
};
use crate::sorting::{
    is_sorted, law_stable_sorted, sort_stable, stable_sorted, views_of, Sortable,
};
use crate::text::{
    behind_last, chars_of, concat3, concat5, control, decimal, decimal_text, find_behind_last,
    has_suffix, is_control, same, trim, trimmed,
};
use vstd::prelude::*;
use vstd::string::*;

verus! {

/// Whether some character is a control character.
pub open spec fn has_control(text: Seq<char>) -> bool {
    exists|i: int| 0 <= i < text.len() && is_control(#[trigger] text[i])
}

pub fn contains_control(text: &str) -> (r: bool)
    ensures
        r == has_control(text@),
{
    let all = chars_of(text);
    let mut i: usize = 0;
    while i < all.len()
        invariant
            i <= all.len(),
            all@ == text@,
            forall|j: int| 0 <= j < i ==> !is_control(#[trigger] text@[j]),
        decreases all.len() - i,
    {
        if control(all[i]) {
            assert(is_control(text@[i as int]));
            return true;
        }
        i = i + 1;
    }
    false
}

/// A text without white space around it, refused where that leaves nothing or where it holds a
/// control character.
pub open spec fn clean(text: Seq<char>) -> Option<Seq<char>> {
    if trimmed(text).len() == 0 || has_control(trimmed(text)) {
        None
    } else {
        Some(trimmed(text))
    }
}

fn clean_text(text: &str) -> (r: Option<String>)
    ensures
        match r {
            Some(cleaned) => clean(text@) == Some(cleaned@),
            None => clean(text@) is None,
        },
{
    let cleaned = trim(text);
    if cleaned.is_empty() || contains_control(cleaned) {
        None
    } else {
        Some(cleaned.to_owned())
    }
}

/// Who owns a probe of the terminal's project.
#[derive(Clone, Debug, Eq, PartialEq, Hash)]
pub enum ProjectProbeScope {
    Local,
    SshNode(String),
}

pub enum ScopeView {
    Local,
    SshNode(Seq<char>),
}

impl View for ProjectProbeScope {
    type V = ScopeView;

    open spec fn view(&self) -> ScopeView {
        match self {
            ProjectProbeScope::Local => ScopeView::Local,
            ProjectProbeScope::SshNode(node) => ScopeView::SshNode(node@),
        }
    }
}

impl ProjectProbeScope {
    pub fn ssh_node(node_id: &str) -> (r: Self)
        ensures
            r@ == ScopeView::SshNode(node_id@),
    {
        ProjectProbeScope::SshNode(node_id.to_owned())
    }
}

/// The key under which the project of a working directory is kept.
#[derive(Debug, Eq, PartialEq, Hash)]
pub struct ProjectProbeKey {
    pub scope: ProjectProbeScope,
    pub cwd: String,
}

pub struct ProbeKeyView {
    pub scope: ScopeView,
    pub cwd: Seq<char>,
}

impl View for ProjectProbeKey {
    type V = ProbeKeyView;

    open spec fn view(&self) -> ProbeKeyView {
        ProbeKeyView { scope: self.scope@, cwd: self.cwd@ }
    }
}

impl Clone for ProjectProbeKey {
    fn clone(&self) -> (r: Self)
        ensures
            r@ == self@,
    {
        let scope = match &self.scope {
            ProjectProbeScope::Local => ProjectProbeScope::Local,
            ProjectProbeScope::SshNode(node) => ProjectProbeScope::SshNode(node.clone()),
        };
        ProjectProbeKey { scope, cwd: self.cwd.clone() }
    }
}

impl AssocKey for ProjectProbeKey {
    fn same_key(&self, other: &Self) -> (r: bool) {
        let same_scope = match (&self.scope, &other.scope) {
            (ProjectProbeScope::Local, ProjectProbeScope::Local) => true,
            (ProjectProbeScope::SshNode(a), ProjectProbeScope::SshNode(b)) => same(
                a.as_str(),
                b.as_str(),
            ),
            _ => false,
        };
        same_scope && same(self.cwd.as_str(), other.cwd.as_str())
    }
}

impl ProjectProbeKey {
    pub fn new(scope: ProjectProbeScope, cwd: &str) -> (r: Option<Self>)
        ensures
            match r {
                Some(key) => clean(cwd@) == Some(key.cwd@) && key.scope == scope,
                None => clean(cwd@) is None,
            },
    {
        match clean_text(cwd) {
            Some(cwd) => Some(ProjectProbeKey { scope, cwd }),
            None => None,
        }
    }

    pub fn scope(&self) -> (r: &ProjectProbeScope)
        ensures
            *r == self.scope,
    {
        &self.scope
    }

    pub fn cwd(&self) -> (r: &str)
        ensures
            r@ == self.cwd@,
    {
        self.cwd.as_str()
    }
}

/// A small manifest file collected during a probe.
#[derive(Clone, Debug, Eq, PartialEq)]
pub struct ProjectManifestEntry {
    pub path: String,
    pub content: String,
}

/// What follows the last slash of a path.
pub open spec fn last_segment(path: Seq<char>) -> Seq<char> {
    path.skip(behind_last(path, '/') as int)
}

/// What stands before the last slash: `/` for a path at the root, `.` where there is no slash.
pub open spec fn directory(path: Seq<char>) -> Seq<char> {
    let behind = behind_last(path, '/') as int;
    if behind == 0 {
        "."@
    } else if behind == 1 {
        "/"@
    } else {
        path.take(behind - 1)
    }
}

impl ProjectManifestEntry {
    pub fn new(path: &str, content: String) -> (r: Option<Self>)
        ensures
            match r {
                Some(entry) => clean(path@) == Some(entry.path@) && entry.content == content,
                None => clean(path@) is None,
            },
    {
        match clean_text(path) {
            Some(path) => Some(ProjectManifestEntry { path, content }),
            None => None,
        }
    }

    pub fn path(&self) -> (r: &str)
        ensures
            r@ == self.path@,
    {
        self.path.as_str()
    }

    pub fn content(&self) -> (r: &str)
        ensures
            r@ == self.content@,
    {
        self.content.as_str()
    }

    pub fn file_name(&self) -> (r: &str)
        ensures
            r@ == last_segment(self.path@),
    {
        let path = self.path.as_str();
        let at: usize = find_behind_last(path, '/');
        let total: usize = path.unicode_len();
        let name = path.substring_char(at, total);
        assert(name@ == path@.skip(at as int));
        name
    }

    pub fn parent_path(&self) -> (r: &str)
        ensures
            r@ == directory(self.path@),
    {
        let path = self.path.as_str();
        let behind: usize = find_behind_last(path, '/');
        if behind == 0 {
            "."
        } else if behind == 1 {
            "/"
        } else {
            let parent = path.substring_char(0, behind - 1);
            assert(parent@ == path@.take(behind - 1));
            parent
        }
    }
}

/// Project families shown for a terminal.
#[derive(Clone, Copy, Debug, Eq, PartialEq, Ord, PartialOrd, Structural)]
pub enum ProjectFacetKind {
    Cargo,
    Node,
    Python,
    Go,
    Make,
    Just,
    Taskfile,
    DockerCompose,
}

pub open spec fn facet_name(kind: ProjectFacetKind) -> Seq<char> {
    match kind {
        ProjectFacetKind::Cargo => "Cargo"@,
        ProjectFacetKind::Node => "Node"@,
        ProjectFacetKind::Python => "Python"@,
        ProjectFacetKind::Go => "Go"@,
        ProjectFacetKind::Make => "Make"@,
        ProjectFacetKind::Just => "Just"@,
        ProjectFacetKind::Taskfile => "Taskfile"@,
        ProjectFacetKind::DockerCompose => "Docker Compose"@,
    }
}

/// The place of a kind among the kinds.
pub open spec fn kind_rank(kind: ProjectFacetKind) -> int {
    match kind {
        ProjectFacetKind::Cargo => 0,
        ProjectFacetKind::Node => 1,
        ProjectFacetKind::Python => 2,
        ProjectFacetKind::Go => 3,
        ProjectFacetKind::Make => 4,
        ProjectFacetKind::Just => 5,
        ProjectFacetKind::Taskfile => 6,
        ProjectFacetKind::DockerCompose => 7,
    }
}

impl ProjectFacetKind {
    pub fn display_name(self) -> (r: &'static str)
        ensures
            r@ == facet_name(self),
    {
        match self {
            ProjectFacetKind::Cargo => "Cargo",
            ProjectFacetKind::Node => "Node",
            ProjectFacetKind::Python => "Python",
            ProjectFacetKind::Go => "Go",
            ProjectFacetKind::Make => "Make",
            ProjectFacetKind::Just => "Just",
            ProjectFacetKind::Taskfile => "Taskfile",
            ProjectFacetKind::DockerCompose => "Docker Compose",
        }
    }

    fn rank(self) -> (r: u64)
        ensures
            r == kind_rank(self),
    {
        match self {
            ProjectFacetKind::Cargo => 0,
            ProjectFacetKind::Node => 1,
            ProjectFacetKind::Python => 2,
            ProjectFacetKind::Go => 3,
            ProjectFacetKind::Make => 4,
            ProjectFacetKind::Just => 5,
            ProjectFacetKind::Taskfile => 6,
            ProjectFacetKind::DockerCompose => 7,
        }
    }
}

/// Task groups for compact sections.
#[derive(Clone, Copy, Debug, Eq, PartialEq, Ord, PartialOrd, Structural)]
pub enum ProjectTaskGroup {
    Develop,
    Test,
    Build,
    Run,
    Docker,
    Custom,
}

pub open spec fn group_rank(group: ProjectTaskGroup) -> int {
    match group {
        ProjectTaskGroup::Develop => 0,
        ProjectTaskGroup::Test => 1,
        ProjectTaskGroup::Build => 2,
        ProjectTaskGroup::Run => 3,
        ProjectTaskGroup::Docker => 4,
        ProjectTaskGroup::Custom => 5,
    }
}

fn rank_of_group(group: ProjectTaskGroup) -> (r: u64)
    ensures
        r == group_rank(group),
{
    match group {
        ProjectTaskGroup::Develop => 0,
        ProjectTaskGroup::Test => 1,
        ProjectTaskGroup::Build => 2,
        ProjectTaskGroup::Run => 3,
        ProjectTaskGroup::Docker => 4,
        ProjectTaskGroup::Custom => 5,
    }
}

/// A task of a project that the user can run in the terminal.
#[derive(Debug, Eq, PartialEq)]
pub struct ProjectTask {
    pub id: String,
    pub label: String,
    pub command: String,
    pub group: ProjectTaskGroup,
    pub source: ProjectFacetKind,
}

pub struct TaskView {
    pub id: Seq<char>,
    pub label: Seq<char>,
    pub command: Seq<char>,
    pub group: ProjectTaskGroup,
    pub source: ProjectFacetKind,
}

impl View for ProjectTask {
    type V = TaskView;

    open spec fn view(&self) -> TaskView {
        TaskView {
            id: self.id@,
            label: self.label@,
            command: self.command@,
            group: self.group,
            source: self.source,
        }
    }
}

impl Clone for ProjectTask {
    fn clone(&self) -> (r: Self)
        ensures
            r@ == self@,
    {
        ProjectTask {
            id: self.id.clone(),
            label: self.label.clone(),
            command: self.command.clone(),
            group: self.group,
            source: self.source,
        }
    }
}

/// Tasks by group, then by source, then by label.
pub open spec fn task_order(a: TaskView, b: TaskView) -> Order {
    if a.group != b.group {
        int_order(group_rank(a.group), group_rank(b.group))
    } else if a.source != b.source {
        int_order(kind_rank(a.source), kind_rank(b.source))
    } else {
        text_order(a.label, b.label)
    }
}

impl Sortable for ProjectTask {
    open spec fn relation() -> spec_fn(TaskView, TaskView) -> Order {
        |a: TaskView, b: TaskView| task_order(a, b)
    }

    fn compare(&self, other: &Self) -> (r: Order) {
        if self.group != other.group {
            compare_numbers(rank_of_group(self.group), rank_of_group(other.group))
        } else if self.source != other.source {
            compare_numbers(self.source.rank(), other.source.rank())
        } else {
            compare_text(self.label.as_str(), other.label.as_str())
        }
    }
}

impl ProjectTask {
    pub fn new(
        source: ProjectFacetKind,
        group: ProjectTaskGroup,
        id: &str,
        label: &str,
        command: &str,
    ) -> (r: Option<Self>)
        ensures
            match r {
                Some(task) => clean(id@) == Some(task.id@) && clean(label@) == Some(task.label@)
                    && clean(command@) == Some(task.command@) && task.group == group && task.source
                    == source,
                None => clean(id@) is None || clean(label@) is None || clean(command@) is None,
            },
    {
        let id = match normalize_project_label(id) {
            Some(id) => id,
            None => return None,
        };
        let label = match normalize_project_label(label) {
            Some(label) => label,
            None => return None,
        };
        match clean_text(command) {
            Some(command) => Some(ProjectTask { id, label, command, group, source }),
            None => None,
        }
    }

    pub fn id(&self) -> (r: &str)
        ensures
            r@ == self.id@,
    {
        self.id.as_str()
    }

    pub fn label(&self) -> (r: &str)
        ensures
            r@ == self.label@,
    {
        self.label.as_str()
    }

    pub fn command(&self) -> (r: &str)
        ensures
            r@ == self.command@,
    {
        self.command.as_str()
    }

    pub fn group(&self) -> (r: ProjectTaskGroup)
        ensures
            r == self.group,
    {
        self.group
    }

    pub fn source(&self) -> (r: ProjectFacetKind)
        ensures
            r == self.source,
    {
        self.source
    }
}

pub fn normalize_project_label(label: &str) -> (r: Option<String>)
    ensures
        match r {
            Some(cleaned) => clean(label@) == Some(cleaned@),
            None => clean(label@) is None,
        },
{
    clean_text(label)
}

/// A path without the separators at its end; the root of a drive keeps its own, and so does a path
/// of one character.
pub open spec fn without_separators(path: Seq<char>) -> Seq<char>
    decreases path.len(),
{
    if path.len() <= 1 || ":\\"@.is_suffix_of(path) || ":/"@.is_suffix_of(path) {
        path
    } else if path.last() == '/' || path.last() == '\\' {
        without_separators(path.drop_last())
    } else {
        path
    }
}

pub fn trim_trailing_project_separators(path: &str) -> (r: String)
    ensures
        r@ == without_separators(path@),
{
    let all = chars_of(path);
    let mut end: usize = all.len();
    assert(path@.take(end as int) =~= path@);
    loop
        invariant
            end <= all.len(),
            all@ == path@,
            without_separators(path@.take(end as int)) == without_separators(path@),
        decreases end,
    {
        let candidate = path.substring_char(0, end);
        assert(candidate@ =~= path@.take(end as int));
        if end <= 1 || has_suffix(candidate, ":\\") || has_suffix(candidate, ":/") {
            return candidate.to_owned();
        }
        let last = all[end - 1];
        assert(candidate@.last() == last);
        if last != '/' && last != '\\' {
            return candidate.to_owned();
        }
        assert(path@.take(end as int).drop_last() =~= path@.take(end - 1));
        end = end - 1;
    }
}

/// A clean path without the separators at its end.
pub open spec fn project_path(path: Seq<char>) -> Option<Seq<char>> {
    match clean(path) {
        Some(cleaned) => Some(without_separators(cleaned)),
        None => None,
    }
}

pub fn normalize_project_path(path: &str) -> (r: Option<String>)
    ensures
        match r {
            Some(normal) => project_path(path@) == Some(normal@),
            None => project_path(path@) is None,
        },
{
    match clean_text(path) {
        Some(cleaned) => Some(trim_trailing_project_separators(cleaned.as_str())),
        None => None,
    }
}

/// One kind of project found at a root path.
#[derive(Debug, Eq, PartialEq)]
pub struct ProjectFacet {
    pub kind: ProjectFacetKind,
    pub root_path: String,
    pub manifest_path: String,
    pub tasks: Vec<ProjectTask>,
}

#[verifier::ext_equal]
pub struct FacetView {
    pub kind: ProjectFacetKind,
    pub root_path: Seq<char>,
    pub manifest_path: Seq<char>,
    pub tasks: Seq<TaskView>,
}

impl View for ProjectFacet {
    type V = FacetView;

    open spec fn view(&self) -> FacetView {
        FacetView {
            kind: self.kind,
            root_path: self.root_path@,
            manifest_path: self.manifest_path@,
            tasks: views_of(self.tasks@),
        }
    }
}

/// Facets by root path, then by kind.
pub open spec fn facet_order(a: FacetView, b: FacetView) -> Order {
    if text_order(a.root_path, b.root_path) != Order::Equal {
        text_order(a.root_path, b.root_path)
    } else {
        int_order(kind_rank(a.kind), kind_rank(b.kind))
    }
}

impl Sortable for ProjectFacet {
    open spec fn relation() -> spec_fn(FacetView, FacetView) -> Order {
        |a: FacetView, b: FacetView| facet_order(a, b)
    }

    fn compare(&self, other: &Self) -> (r: Order) {
        let by_path = compare_text(self.root_path.as_str(), other.root_path.as_str());
        match by_path {
            Order::Equal => compare_numbers(self.kind.rank(), other.kind.rank()),
            _ => by_path,
        }
    }
}

impl ProjectFacet {
    pub fn new(
        kind: ProjectFacetKind,
        root_path: &str,
        manifest_path: &str,
        tasks: Vec<ProjectTask>,
    ) -> (r: Option<Self>)
        ensures
            match r {
                Some(facet) => project_path(root_path@) == Some(facet.root_path@) && project_path(
                    manifest_path@,
                ) == Some(facet.manifest_path@) && facet.kind == kind && facet.tasks == tasks,
                None => project_path(root_path@) is None || project_path(manifest_path@) is None,
            },
    {
        let root_path = match normalize_project_path(root_path) {
            Some(path) => path,
            None => return None,
        };
        match normalize_project_path(manifest_path) {
            Some(manifest_path) => Some(ProjectFacet { kind, root_path, manifest_path, tasks }),
            None => None,
        }
    }

    pub fn kind(&self) -> (r: ProjectFacetKind)
        ensures
            r == self.kind,
    {
        self.kind
    }

    pub fn root_path(&self) -> (r: &str)
        ensures
            r@ == self.root_path@,
    {
        self.root_path.as_str()
    }

    pub fn manifest_path(&self) -> (r: &str)
        ensures
            r@ == self.manifest_path@,
    {
        self.manifest_path.as_str()
    }

    pub fn tasks(&self) -> (r: &[ProjectTask])
        ensures
            r@ == self.tasks@,
    {
        self.tasks.as_slice()
    }
}

/// The project at the working directory of a terminal: its facets are in order.
#[derive(Debug, Eq, PartialEq)]
pub struct ProjectSnapshot {
    pub root_path: String,
    pub facets: Vec<ProjectFacet>,
}

/// The tasks of all facets, facet after facet.
pub open spec fn all_tasks(facets: Seq<FacetView>) -> Seq<TaskView>
    decreases facets.len(),
{
    if facets.len() == 0 {
        Seq::empty()
    } else {
        all_tasks(facets.drop_last()) + facets.last().tasks
    }
}

/// The names of the facets; one that repeats the name before it is left out.
pub open spec fn facet_names(facets: Seq<FacetView>) -> Seq<Seq<char>>
    decreases facets.len(),
{
    if facets.len() == 0 {
        Seq::empty()
    } else {
        let names = facet_names(facets.drop_last());
        let name = facet_name(facets.last().kind);
        if names.len() > 0 && names.last() == name {
            names
        } else {
            names.push(name)
        }
    }
}

/// The label of a project: its first two names and how many more there are.
pub open spec fn label_of(names: Seq<Seq<char>>) -> Seq<char> {
    if names.len() == 0 {
        "Project"@
    } else if names.len() == 1 {
        names[0]
    } else if names.len() == 2 {
        names[0] + " + "@ + names[1]
    } else {
        names[0] + " + "@ + names[1] + " + "@ + decimal((names.len() - 2) as nat)
    }
}

impl ProjectSnapshot {
    pub fn new(root_path: &str, facets: Vec<ProjectFacet>) -> (r: Option<Self>)
        ensures
            match r {
                Some(snapshot) => project_path(root_path@) == Some(snapshot.root_path@)
                    && facets@.len() > 0 && views_of(snapshot.facets@) == stable_sorted(
                    views_of(facets@),
                    ProjectFacet::relation(),
                ),
                None => project_path(root_path@) is None || facets@.len() == 0,
            },
    {
        let root_path = match normalize_project_path(root_path) {
            Some(path) => path,
            None => return None,
        };
        if facets.len() == 0 {
            return None;
        }
        Some(ProjectSnapshot { root_path, facets: sort_stable(facets) })
    }

    pub fn root_path(&self) -> (r: &str)
        ensures
            r@ == self.root_path@,
    {
        self.root_path.as_str()
    }

    pub fn facets(&self) -> (r: &[ProjectFacet])
        ensures
            r@ == self.facets@,
    {
        self.facets.as_slice()
    }

    /// The tasks of all facets, by group, source and label.
    pub fn tasks(&self) -> (r: Vec<ProjectTask>)
        ensures
            views_of(r@) == stable_sorted(
                all_tasks(views_of(self.facets@)),
                ProjectTask::relation(),
            ),
    {
        let mut tasks: Vec<ProjectTask> = Vec::new();
        let ghost views = views_of(self.facets@);
        let mut i: usize = 0;
        assert(views.take(0) =~= Seq::<FacetView>::empty());
        assert(views_of(tasks@) =~= Seq::<TaskView>::empty());
        while i < self.facets.len()
            invariant
                i <= self.facets.len(),
                views == views_of(self.facets@),
                views_of(tasks@) == all_tasks(views.take(i as int)),
            decreases self.facets.len() - i,
        {
            let facet = &self.facets[i];
            let ghost before = views_of(tasks@);
            let ghost own = views_of(facet.tasks@);
            let mut j: usize = 0;
            assert(before + own.take(0) =~= before);
            while j < facet.tasks.len()
                invariant
                    j <= facet.tasks.len(),
                    own == views_of(facet.tasks@),
                    views_of(tasks@) == before + own.take(j as int),
                decreases facet.tasks.len() - j,
            {
                let ghost raw = tasks@;
                tasks.push(facet.tasks[j].clone());
                assert(views_of(tasks@) =~= views_of(raw).push(own[j as int]));
                assert((before + own.take(j as int)).push(own[j as int]) =~= before + own.take(
                    j + 1,
                ));
                j = j + 1;
            }
            assert(own.take(j as int) =~= own);
            proof {
                let head = views.take(i + 1);
                assert(head.drop_last() =~= views.take(i as int));
                assert(head.last() == facet@);
            }
            i = i + 1;
        }
        assert(views.take(i as int) =~= views);
        sort_stable(tasks)
    }

    pub fn display_label(&self) -> (r: String)
        ensures
            r@ == label_of(facet_names(views_of(self.facets@))),
    {
        let mut names: Vec<&'static str> = Vec::new();
        let ghost views = views_of(self.facets@);
        let mut i: usize = 0;
        assert(views.take(0) =~= Seq::<FacetView>::empty());
        assert(name_views(names@) =~= Seq::<Seq<char>>::empty());
        while i < self.facets.len()
            invariant
                i <= self.facets.len(),
                names@.len() <= i,
                views == views_of(self.facets@),
                name_views(names@) == facet_names(views.take(i as int)),
            decreases self.facets.len() - i,
        {
            let name = self.facets[i].kind.display_name();
            let ghost before = names@;
            proof {
                let head = views.take(i + 1);
                assert(head.drop_last() =~= views.take(i as int));
                assert(head.last() == self.facets@[i as int]@);
                assert(before.len() > 0 ==> name_views(before).last() == before.last()@);
            }
            if names.len() == 0 || !same(names[names.len() - 1], name) {
                names.push(name);
                assert(name_views(names@) =~= name_views(before).push(name@));
            }
            i = i + 1;
        }
        assert(views.take(i as int) =~= views);
        if names.len() == 0 {
            "Project".to_owned()
        } else if names.len() == 1 {
            names[0].to_owned()
        } else if names.len() == 2 {
            concat3(names[0], " + ", names[1])
        } else {
            let more: u64 = (names.len() - 2) as u64;
            concat5(names[0], " + ", names[1], " + ", decimal_text(more).as_str())
        }
    }
}

pub open spec fn name_views(names: Seq<&'static str>) -> Seq<Seq<char>> {
    Seq::new(names.len(), |i: int| names[i]@)
}

#[derive(Clone, Debug, Eq, PartialEq)]
pub struct ProjectProbeError {
    pub message: String,
}

impl ProjectProbeError {
    pub fn new(message: String) -> (r: Self)
        ensures
            r.message == message,
    {
        ProjectProbeError { message }
    }

    pub fn message(&self) -> (r: &str)
        ensures
            r@ == self.message@,
    {
        self.message.as_str()
    }
}

/// What a probe found.
#[derive(Debug, Eq, PartialEq)]
pub enum ProjectProbeOutcome {
    Ready(ProjectSnapshot),
    NoProject,
    CwdMissing,
    Error(ProjectProbeError),
}

proof fn lemma_facet_relation()
    ensures
        is_order(ProjectFacet::relation()),
{
    let rel = ProjectFacet::relation();
    assert(is_order(by_code()));
    assert forall|x: FacetView, y: FacetView| #[trigger] rel(x, y) == flipped(rel(y, x)) by {
        lemma_lex_flips(x.root_path, y.root_path, by_code());
    }
    assert forall|x: FacetView, y: FacetView, z: FacetView|
        #[trigger] rel(x, y) != Order::Greater && #[trigger] rel(y, z)
            != Order::Greater implies rel(x, z) != Order::Greater by {
        let (a, b, c) = (x.root_path, y.root_path, z.root_path);
        lemma_lex_transitive(a, b, c, by_code());
        lemma_lex_flips(a, b, by_code());
        lemma_lex_flips(b, c, by_code());
        lemma_lex_flips(a, c, by_code());
        if text_order(a, c) == Order::Equal {
            lemma_lex_transitive(c, a, b, by_code());
            lemma_lex_transitive(b, c, a, by_code());
        }
    }
}

proof fn lemma_task_relation()
    ensures
        is_order(ProjectTask::relation()),
{
    let rel = ProjectTask::relation();
    assert(is_order(by_code()));
    assert forall|x: TaskView, y: TaskView| #[trigger] rel(x, y) == flipped(rel(y, x)) by {
        lemma_lex_flips(x.label, y.label, by_code());
    }
    assert forall|x: TaskView, y: TaskView, z: TaskView|
        #[trigger] rel(x, y) != Order::Greater && #[trigger] rel(y, z)
            != Order::Greater implies rel(x, z) != Order::Greater by {
        if text_order(x.label, y.label) != Order::Greater && text_order(y.label, z.label)
            != Order::Greater {
            lemma_lex_transitive(x.label, y.label, z.label, by_code());
        }
    }
}

/// The facets of a snapshot are in order, and they are the facets that were given; so are the tasks
/// of a project.
pub proof fn law_facets_and_tasks_are_in_order(facets: Seq<FacetView>, tasks: Seq<TaskView>)
    ensures
        is_sorted(stable_sorted(facets, ProjectFacet::relation()), ProjectFacet::relation()),
        stable_sorted(facets, ProjectFacet::relation()).to_multiset() == facets.to_multiset(),
        is_sorted(stable_sorted(tasks, ProjectTask::relation()), ProjectTask::relation()),
        stable_sorted(tasks, ProjectTask::relation()).to_multiset() == tasks.to_multiset(),
{
    lemma_facet_relation();
    lemma_task_relation();
    law_stable_sorted(facets, ProjectFacet::relation());
    law_stable_sorted(tasks, ProjectTask::relation());
}

/// Cleaning a path again changes nothing.
pub proof fn law_separators_are_gone(path: Seq<char>)
    ensures
        without_separators(without_separators(path)) == without_separators(path),
    decreases path.len(),
{
    if path.len() > 1 && !":\\"@.is_suffix_of(path) && !":/"@.is_suffix_of(path) && (path.last()
        == '/' || path.last() == '\\') {
        law_separators_are_gone(path.drop_last());
    }
}

/// A text is kept without the white space around it; one of white space alone, or with a control
/// character in it, is refused.
pub proof fn law_kept_texts_are_clean(text: Seq<char>, at: int)
    ensures
        clean(text) matches Some(kept) ==> kept == trimmed(text) && kept.len() > 0 && (0 <= at
            < kept.len() ==> !is_control(kept[at])),
        trimmed(text).len() == 0 ==> clean(text) is None,
        0 <= at < trimmed(text).len() && is_control(trimmed(text)[at]) ==> clean(text) is None,
        trimmed(text).len() > 0 && (forall|i: int|
            0 <= i < trimmed(text).len() ==> !is_control(#[trigger] trimmed(text)[i])) ==> clean(
            text,
        ) == Some(trimmed(text)),
{
}

/// A path is its directory, a slash and its last name; without a slash it lies in the current
/// directory, and at the root in the root.
pub proof fn law_paths_are_directory_and_name(dir: Seq<char>, name: Seq<char>)
    requires
        !name.contains('/'),
    ensures
        dir.len() > 0 ==> directory(dir.push('/') + name) == dir,
        last_segment(dir.push('/') + name) == name,
        directory(seq!['/'] + name) == seq!['/'],
        directory(name) == seq!['.'],
        last_segment(name) == name,
{
    reveal_strlit(".");
    reveal_strlit("/");
    assert("."@ =~= seq!['.']);
    assert("/"@ =~= seq!['/']);
    assert forall|j: int| 0 <= j < name.len() implies name[j] != '/' by {
        assert(name.contains(name[j]));
    }
    let path = dir.push('/') + name;
    assert forall|j: int| dir.len() + 1 <= j < path.len() implies path[j] != '/' by {
        assert(path[j] == name[j - dir.len() - 1]);
    }
    crate::text::lemma_behind_last(path, '/', dir.len() as int + 1);
    assert(path.skip(dir.len() as int + 1) =~= name);
    assert(path.take(dir.len() as int) =~= dir);
    let top = seq!['/'] + name;
    assert forall|j: int| 1 <= j < top.len() implies top[j] != '/' by {
        assert(top[j] == name[j - 1]);
    }
    crate::text::lemma_behind_last(top, '/', 1);
    crate::text::lemma_behind_last(name, '/', 0);
    assert(name.skip(0) =~= name);
}

/// Separators are cut off the end of a path; the root, and that of a drive, keep theirs.
pub proof fn law_separators_are_cut(path: Seq<char>, drive: char)
    ensures
        without_separators(seq!['/']) == seq!['/'],
        without_separators(seq![drive, ':', '\\']) == seq![drive, ':', '\\'],
        without_separators(seq![drive, ':', '/']) == seq![drive, ':', '/'],
        path.len() > 0 && path.last() != '/' && path.last() != '\\' ==> without_separators(path)
            == path,
        path.len() > 0 && path.last() != ':' ==> without_separators(path.push('/'))
            == without_separators(path) && without_separators(path.push('\\'))
            == without_separators(path),
{
    reveal_strlit(":\\");
    reveal_strlit(":/");
    let a = seq![drive, ':', '\\'];
    let b = seq![drive, ':', '/'];
    assert(a.subrange(1, 3) =~= ":\\"@);
    assert(b.subrange(1, 3) =~= ":/"@);
    if path.len() > 0 && path.last() != ':' {
        let s = path.push('/');
        let t = path.push('\\');
        assert(s.drop_last() =~= path && t.drop_last() =~= path);
        assert(s.subrange(s.len() - 2, s.len() as int)[0] == path.last());
        assert(t.subrange(t.len() - 2, t.len() as int)[0] == path.last());
        assert((":\\"@)[0] == ':' && (":/"@)[0] == ':');
    }
}

/// The kinds of project in their order, with their names, and the groups of tasks in theirs.
pub proof fn law_kinds_and_groups_are_ranked()
    ensures
        kind_rank(ProjectFacetKind::Cargo) < kind_rank(ProjectFacetKind::Node),
        kind_rank(ProjectFacetKind::Node) < kind_rank(ProjectFacetKind::Python),
        kind_rank(ProjectFacetKind::Python) < kind_rank(ProjectFacetKind::Go),
        kind_rank(ProjectFacetKind::Go) < kind_rank(ProjectFacetKind::Make),
        kind_rank(ProjectFacetKind::Make) < kind_rank(ProjectFacetKind::Just),
        kind_rank(ProjectFacetKind::Just) < kind_rank(ProjectFacetKind::Taskfile),
        kind_rank(ProjectFacetKind::Taskfile) < kind_rank(ProjectFacetKind::DockerCompose),
        group_rank(ProjectTaskGroup::Develop) < group_rank(ProjectTaskGroup::Test),
        group_rank(ProjectTaskGroup::Test) < group_rank(ProjectTaskGroup::Build),
        group_rank(ProjectTaskGroup::Build) < group_rank(ProjectTaskGroup::Run),
        group_rank(ProjectTaskGroup::Run) < group_rank(ProjectTaskGroup::Docker),
        group_rank(ProjectTaskGroup::Docker) < group_rank(ProjectTaskGroup::Custom),
        facet_name(ProjectFacetKind::Cargo) == "Cargo"@,
        facet_name(ProjectFacetKind::Node) == "Node"@,
        facet_name(ProjectFacetKind::Python) == "Python"@,
        facet_name(ProjectFacetKind::Go) == "Go"@,
        facet_name(ProjectFacetKind::Make) == "Make"@,
        facet_name(ProjectFacetKind::Just) == "Just"@,
        facet_name(ProjectFacetKind::Taskfile) == "Taskfile"@,
        facet_name(ProjectFacetKind::DockerCompose) == "Docker Compose"@,
{
}

/// Tasks are ordered by their group, within a group by their kind, within a kind by their label.
pub proof fn law_tasks_are_ordered(a: TaskView, b: TaskView)
    ensures
        group_rank(a.group) < group_rank(b.group) ==> task_order(a, b) == Order::Less,
        group_rank(a.group) > group_rank(b.group) ==> task_order(a, b) == Order::Greater,
        a.group == b.group && kind_rank(a.source) < kind_rank(b.source) ==> task_order(a, b)
            == Order::Less,
        a.group == b.group && kind_rank(a.source) > kind_rank(b.source) ==> task_order(a, b)
            == Order::Greater,
        a.group == b.group && a.source == b.source ==> task_order(a, b) == text_order(
            a.label,
            b.label,
        ),
{
}

/// Facets are ordered by their path, at one path by their kind.
pub proof fn law_facets_are_ordered(a: FacetView, b: FacetView)
    ensures
        text_order(a.root_path, b.root_path) == Order::Less ==> facet_order(a, b) == Order::Less,
        text_order(a.root_path, b.root_path) == Order::Greater ==> facet_order(a, b)
            == Order::Greater,
        text_order(a.root_path, b.root_path) == Order::Equal && kind_rank(a.kind) < kind_rank(b.kind)
            ==> facet_order(a, b) == Order::Less,
        text_order(a.root_path, b.root_path) == Order::Equal && kind_rank(a.kind) > kind_rank(b.kind)
            ==> facet_order(a, b) == Order::Greater,
{
}

/// The tasks of a project are those of its facets, one facet after the other; the names are those
/// of its facets, without one that follows itself.
pub proof fn law_tasks_and_names_are_those_of_the_facets(
    facets: Seq<FacetView>,
    facet: FacetView,
)
    ensures
        all_tasks(Seq::empty()).len() == 0,
        all_tasks(facets.push(facet)) == all_tasks(facets) + facet.tasks,
        facet_names(Seq::empty()).len() == 0,
        facet_names(facets).len() > 0 && facet_names(facets).last() == facet_name(facet.kind)
            ==> facet_names(facets.push(facet)) == facet_names(facets),
        facet_names(facets).len() == 0 || facet_names(facets).last() != facet_name(facet.kind)
            ==> facet_names(facets.push(facet)) == facet_names(facets).push(
            facet_name(facet.kind),
        ),
{
    assert(facets.push(facet).drop_last() =~= facets);
}

/// A project is called by its first two names and the number of the others.
pub proof fn law_projects_are_called_by_their_names(
    a: Seq<char>,
    b: Seq<char>,
    more: Seq<Seq<char>>,
)
    ensures
        label_of(Seq::empty()) == "Project"@,
        label_of(seq![a]) == a,
        label_of(seq![a, b]) == a + seq![' ', '+', ' '] + b,
        more.len() > 0 ==> label_of(seq![a, b] + more) == a + seq![' ', '+', ' '] + b + seq![
            ' ',
            '+',
            ' ',
        ] + decimal(more.len()),
{
    reveal_strlit(" + ");
    assert(" + "@ =~= seq![' ', '+', ' ']);
    assert((seq![a, b] + more)[0] == a && (seq![a, b] + more)[1] == b);
}

/// The path of a project is clean and ends in no separator.
pub proof fn law_project_paths_are_clean(path: Seq<char>)
    ensures
        clean(path) is None ==> project_path(path) is None,
        clean(path) matches Some(kept) ==> project_path(path) == Some(without_separators(kept)),
{
}

} // verus!
