//! The plugin registry: whole manifests, runtime plans, plugin states and stored values.

use crate::json::{
    json_encode, json_encoding, json_member, json_text_member, json_view, json_views, member_view,
    opt_text, text_member, JsonView,
};
use crate::paths::LocalPath;
use crate::plugin::contributions::{contributions_problem, validate_native_plugin_contributions};
use crate::plugin::events::{
    plugin_id_problem, relative_path_problem, validate_native_plugin_id,
    validate_plugin_relative_path,
};
use crate::plugin::manifest::{
    NativePluginActivityBarItemDef, NativePluginManifest, NativePluginRuntimeKind,
    NativePluginSidebarDef, NativePluginTabDef,
};
use crate::plugin::protocol::{PluginError, PluginErrorKind, PluginErrorView};
use crate::plugin::rules::{
    earlier, first_of, lemma_first_of_found, lemma_first_of_step, problem, text_field_problem,
    validate_manifest_text_field,
};
use crate::text::{
    byte_len, concat2, concat3, concat4, concat5, contains_below, decimal, decimal_text, has_below,
    same, trim, trimmed,
};
use serde_json::Value;
use vstd::prelude::*;
use vstd::utf8::*;

verus! {

/// How the host runs a plugin.
#[derive(Clone, Debug, PartialEq, Eq)]
pub enum NativePluginRuntimePlan {
    ManifestOnly,
    Wasm { entry: String },
    Process { entry: String },
    UnsupportedLegacyJs { entry: String },
}

/// What the user has settled for one plugin.
#[derive(Clone, Debug, PartialEq, Eq)]
pub struct NativePluginConfigEntry {
    pub enabled: bool,
    pub auto_disabled: bool,
    pub last_error: Option<String>,
}

#[derive(Clone, Copy, Debug, PartialEq, Eq, Structural)]
pub enum NativePluginState {
    Disabled,
    AutoDisabled,
    Error,
    ReadyManifestOnly,
    ReadyWasm,
    ReadyProcess,
    UnsupportedLegacyJs,
}

/// The problem of an optional path inside the plugin directory.
pub open spec fn optional_path_problem(path: Option<String>) -> Option<Seq<char>> {
    match path {
        Some(path) => relative_path_problem(path@),
        None => None,
    }
}

fn validate_optional_path(path: &Option<String>) -> (r: Result<(), String>)
    ensures
        problem(r) == optional_path_problem(*path),
{
    match path {
        Some(path) => validate_plugin_relative_path(path.as_str()),
        None => Ok(()),
    }
}

pub open spec fn style_problems(styles: Seq<String>) -> Seq<Option<Seq<char>>> {
    Seq::new(styles.len(), |i: int| relative_path_problem(styles[i]@))
}

fn validate_styles(styles: &Vec<String>) -> (r: Result<(), String>)
    ensures
        problem(r) == first_of(style_problems(styles@)),
{
    let ghost problems = style_problems(styles@);
    let mut i: usize = 0;
    while i < styles.len()
        invariant
            i <= styles.len(),
            problems == style_problems(styles@),
            first_of(problems.take(i as int)) is None,
        decreases styles.len() - i,
    {
        match validate_plugin_relative_path(styles[i].as_str()) {
            Err(message) => {
                proof {
                    lemma_first_of_found(problems, i as int);
                }
                return Err(message);
            },
            Ok(()) => {
                proof {
                    lemma_first_of_step(problems, i as int);
                }
            },
        }
        i = i + 1;
    }
    assert(problems.take(i as int) == problems);
    Ok(())
}

/// The first rule that a manifest breaks. `capabilities` is what the review of the requested
/// capability names came to.
pub open spec fn manifest_problem(
    manifest: NativePluginManifest,
    capabilities: Option<Seq<char>>,
) -> Option<Seq<char>> {
    earlier(
        plugin_id_problem(manifest.id@),
        earlier(
            text_field_problem("name"@, manifest.name@),
            earlier(
                text_field_problem("version"@, manifest.version@),
                earlier(
                    optional_path_problem(manifest.main),
                    earlier(
                        match manifest.runtime {
                            Some(runtime) => relative_path_problem(runtime.entry@),
                            None => None,
                        },
                        earlier(
                            optional_path_problem(manifest.assets),
                            earlier(
                                match manifest.styles {
                                    Some(styles) => first_of(style_problems(styles@)),
                                    None => None,
                                },
                                earlier(
                                    optional_path_problem(manifest.locales),
                                    earlier(
                                        capabilities,
                                        match manifest.contributes {
                                            Some(contributes) => contributions_problem(contributes),
                                            None => None,
                                        },
                                    ),
                                ),
                            ),
                        ),
                    ),
                ),
            ),
        ),
    )
}

pub fn validate_native_plugin_manifest(
    manifest: &NativePluginManifest,
    capabilities: Result<(), String>,
) -> (r: Result<(), String>)
    ensures
        problem(r) == manifest_problem(*manifest, problem(capabilities)),
{
    match validate_native_plugin_id(manifest.id.as_str()) {
        Err(message) => return Err(message),
        Ok(()) => {},
    }
    match validate_manifest_text_field("name", manifest.name.as_str()) {
        Err(message) => return Err(message),
        Ok(()) => {},
    }
    match validate_manifest_text_field("version", manifest.version.as_str()) {
        Err(message) => return Err(message),
        Ok(()) => {},
    }
    match validate_optional_path(&manifest.main) {
        Err(message) => return Err(message),
        Ok(()) => {},
    }
    if let Some(runtime) = &manifest.runtime {
        match validate_plugin_relative_path(runtime.entry.as_str()) {
            Err(message) => return Err(message),
            Ok(()) => {},
        }
    }
    match validate_optional_path(&manifest.assets) {
        Err(message) => return Err(message),
        Ok(()) => {},
    }
    if let Some(styles) = &manifest.styles {
        match validate_styles(styles) {
            Err(message) => return Err(message),
            Ok(()) => {},
        }
    }
    match validate_optional_path(&manifest.locales) {
        Err(message) => return Err(message),
        Ok(()) => {},
    }
    match capabilities {
        Err(message) => return Err(message),
        Ok(()) => {},
    }
    match &manifest.contributes {
        Some(contributes) => validate_native_plugin_contributions(contributes),
        None => Ok(()),
    }
}

/// The contents of a runtime plan.
pub enum RuntimePlanView {
    ManifestOnly,
    Wasm(Seq<char>),
    Process(Seq<char>),
    UnsupportedLegacyJs(Seq<char>),
}

impl View for NativePluginRuntimePlan {
    type V = RuntimePlanView;

    open spec fn view(&self) -> RuntimePlanView {
        match self {
            NativePluginRuntimePlan::ManifestOnly => RuntimePlanView::ManifestOnly,
            NativePluginRuntimePlan::Wasm { entry } => RuntimePlanView::Wasm(entry@),
            NativePluginRuntimePlan::Process { entry } => RuntimePlanView::Process(entry@),
            NativePluginRuntimePlan::UnsupportedLegacyJs { entry } => {
                RuntimePlanView::UnsupportedLegacyJs(entry@)
            },
        }
    }
}

/// The plan for a manifest: its runtime if it declares one; a bare script entry is kept visible
/// and never run; else there is only the manifest.
pub open spec fn runtime_plan(manifest: NativePluginManifest) -> Result<
    RuntimePlanView,
    Seq<char>,
> {
    match manifest.runtime {
        Some(runtime) => match relative_path_problem(runtime.entry@) {
            Some(message) => Err(message),
            None => Ok(
                match runtime.kind {
                    NativePluginRuntimeKind::Wasm => RuntimePlanView::Wasm(runtime.entry@),
                    NativePluginRuntimeKind::Process => RuntimePlanView::Process(runtime.entry@),
                    NativePluginRuntimeKind::ManifestOnly => RuntimePlanView::ManifestOnly,
                },
            ),
        },
        None => match manifest.main {
            Some(main) => match relative_path_problem(main@) {
                Some(message) => Err(message),
                None => Ok(RuntimePlanView::UnsupportedLegacyJs(main@)),
            },
            None => Ok(RuntimePlanView::ManifestOnly),
        },
    }
}

pub fn native_runtime_plan_for_manifest(manifest: &NativePluginManifest) -> (r: Result<
    NativePluginRuntimePlan,
    String,
>)
    ensures
        match r {
            Ok(plan) => runtime_plan(*manifest) == Ok::<RuntimePlanView, Seq<char>>(plan@),
            Err(message) => runtime_plan(*manifest) == Err::<RuntimePlanView, Seq<char>>(message@),
        },
{
    if let Some(runtime) = &manifest.runtime {
        match validate_plugin_relative_path(runtime.entry.as_str()) {
            Err(message) => return Err(message),
            Ok(()) => {},
        }
        return Ok(
            match runtime.kind {
                NativePluginRuntimeKind::Wasm => NativePluginRuntimePlan::Wasm {
                    entry: runtime.entry.clone(),
                },
                NativePluginRuntimeKind::Process => NativePluginRuntimePlan::Process {
                    entry: runtime.entry.clone(),
                },
                NativePluginRuntimeKind::ManifestOnly => NativePluginRuntimePlan::ManifestOnly,
            },
        );
    }
    if let Some(main) = &manifest.main {
        match validate_plugin_relative_path(main.as_str()) {
            Err(message) => return Err(message),
            Ok(()) => {},
        }
        return Ok(NativePluginRuntimePlan::UnsupportedLegacyJs { entry: main.clone() });
    }
    Ok(NativePluginRuntimePlan::ManifestOnly)
}

/// The state that a plan gives to an enabled plugin without an error.
pub open spec fn ready_state(plan: NativePluginRuntimePlan) -> NativePluginState {
    match plan {
        NativePluginRuntimePlan::ManifestOnly => NativePluginState::ReadyManifestOnly,
        NativePluginRuntimePlan::Wasm { .. } => NativePluginState::ReadyWasm,
        NativePluginRuntimePlan::Process { .. } => NativePluginState::ReadyProcess,
        NativePluginRuntimePlan::UnsupportedLegacyJs { .. } => {
            NativePluginState::UnsupportedLegacyJs
        },
    }
}

pub open spec fn plugin_state(
    plan: NativePluginRuntimePlan,
    config: NativePluginConfigEntry,
) -> NativePluginState {
    if config.auto_disabled {
        NativePluginState::AutoDisabled
    } else if !config.enabled {
        NativePluginState::Disabled
    } else if config.last_error is Some {
        NativePluginState::Error
    } else {
        ready_state(plan)
    }
}

pub fn native_plugin_state_for(
    runtime_plan: &NativePluginRuntimePlan,
    config: &NativePluginConfigEntry,
) -> (r: NativePluginState)
    ensures
        r == plugin_state(*runtime_plan, *config),
{
    if config.auto_disabled {
        return NativePluginState::AutoDisabled;
    }
    if !config.enabled {
        return NativePluginState::Disabled;
    }
    if config.last_error.is_some() {
        return NativePluginState::Error;
    }
    match runtime_plan {
        NativePluginRuntimePlan::ManifestOnly => NativePluginState::ReadyManifestOnly,
        NativePluginRuntimePlan::Wasm { .. } => NativePluginState::ReadyWasm,
        NativePluginRuntimePlan::Process { .. } => NativePluginState::ReadyProcess,
        NativePluginRuntimePlan::UnsupportedLegacyJs { .. } => {
            NativePluginState::UnsupportedLegacyJs
        },
    }
}

pub open spec fn is_ready(state: NativePluginState) -> bool {
    state == NativePluginState::ReadyManifestOnly || state == NativePluginState::ReadyWasm || state
        == NativePluginState::ReadyProcess
}

/// The state of a plugin: one that is ready stays disabled while its request for sensitive
/// capabilities waits for a review.
pub fn native_plugin_state_for_manifest(
    review_required: bool,
    runtime_plan: &NativePluginRuntimePlan,
    config: &NativePluginConfigEntry,
) -> (r: NativePluginState)
    ensures
        r == (if is_ready(plugin_state(*runtime_plan, *config)) && review_required {
            NativePluginState::Disabled
        } else {
            plugin_state(*runtime_plan, *config)
        }),
{
    let state = native_plugin_state_for(runtime_plan, config);
    let ready = match state {
        NativePluginState::ReadyManifestOnly => true,
        NativePluginState::ReadyWasm => true,
        NativePluginState::ReadyProcess => true,
        _ => false,
    };
    if ready && review_required {
        NativePluginState::Disabled
    } else {
        state
    }
}

pub open spec fn runtime_kind_label(plan: NativePluginRuntimePlan) -> Seq<char> {
    match plan {
        NativePluginRuntimePlan::ManifestOnly => "manifest-only"@,
        NativePluginRuntimePlan::Wasm { .. } => "wasm"@,
        NativePluginRuntimePlan::Process { .. } => "process"@,
        NativePluginRuntimePlan::UnsupportedLegacyJs { .. } => "legacy-js"@,
    }
}

pub fn native_runtime_kind_label(runtime_plan: &NativePluginRuntimePlan) -> (r: &'static str)
    ensures
        r@ == runtime_kind_label(*runtime_plan),
{
    match runtime_plan {
        NativePluginRuntimePlan::ManifestOnly => "manifest-only",
        NativePluginRuntimePlan::Wasm { .. } => "wasm",
        NativePluginRuntimePlan::Process { .. } => "process",
        NativePluginRuntimePlan::UnsupportedLegacyJs { .. } => "legacy-js",
    }
}

/// The file that a plan runs.
pub open spec fn plan_entry(plan: NativePluginRuntimePlan) -> Option<Seq<char>> {
    match plan {
        NativePluginRuntimePlan::Wasm { entry } => Some(entry@),
        NativePluginRuntimePlan::Process { entry } => Some(entry@),
        _ => None,
    }
}

/// The entry whose file must exist before the plan can run.
pub fn runtime_entry(runtime_plan: &NativePluginRuntimePlan) -> (r: Option<&str>)
    ensures
        match r {
            Some(entry) => plan_entry(*runtime_plan) == Some(entry@),
            None => plan_entry(*runtime_plan) is None,
        },
{
    match runtime_plan {
        NativePluginRuntimePlan::Wasm { entry } => Some(entry.as_str()),
        NativePluginRuntimePlan::Process { entry } => Some(entry.as_str()),
        _ => None,
    }
}

/// Checks that the file of a plan was found; `is_file` answers for the path of its entry.
pub fn validate_runtime_entry_exists(runtime_plan: &NativePluginRuntimePlan, is_file: bool) -> (r:
    Result<(), String>)
    ensures
        problem(r) == match plan_entry(*runtime_plan) {
            Some(entry) => if is_file {
                None
            } else {
                Some("Native plugin runtime entry \""@ + entry + "\" does not exist"@)
            },
            None => None,
        },
{
    match runtime_entry(runtime_plan) {
        Some(entry) => if is_file {
            Ok(())
        } else {
            Err(concat3("Native plugin runtime entry \"", entry, "\" does not exist"))
        },
        None => Ok(()),
    }
}

/// The name under which a corrupt configuration file is kept.
pub fn quarantine_corrupt_native_plugin_config(file_name: &str, marker: &str, timestamp_ms: u64) -> (r:
    String)
    ensures
        r@ == file_name@ + "."@ + marker@ + "-"@ + decimal(timestamp_ms as nat),
{
    concat5(file_name, ".", marker, "-", decimal_text(timestamp_ms).as_str())
}

/// The problem of a key in the storage of a plugin.
pub open spec fn storage_key_problem(key: Seq<char>, limit: nat) -> Option<Seq<char>> {
    if trimmed(key).len() == 0 {
        Some("Plugin storage key cannot be empty"@)
    } else if encode_utf8(key).len() > limit {
        Some("Plugin storage key exceeds "@ + decimal(limit) + " bytes"@)
    } else if has_below(key, 0x20) {
        Some("Plugin storage key contains invalid characters"@)
    } else {
        None
    }
}

pub fn validate_plugin_storage_key(key: &str, limit: usize) -> (r: Result<(), String>)
    ensures
        problem(r) == storage_key_problem(key@, limit as nat),
{
    if trim(key).is_empty() {
        return Err("Plugin storage key cannot be empty".to_owned());
    }
    if byte_len(key) > limit {
        return Err(
            concat3("Plugin storage key exceeds ", decimal_text(limit as u64).as_str(), " bytes"),
        );
    }
    if contains_below(key, 0x20) {
        return Err("Plugin storage key contains invalid characters".to_owned());
    }
    Ok(())
}

/// The problem of stored values whose JSON form is `encoded`.
pub open spec fn storage_size_problem(
    encoded: Result<Seq<u8>, Seq<char>>,
    limit: nat,
) -> Option<Seq<char>> {
    match encoded {
        Err(message) => Some(message),
        Ok(bytes) => if bytes.len() > limit {
            Some("Plugin storage exceeds "@ + decimal(limit) + " bytes"@)
        } else {
            None
        },
    }
}

/// Checks the size of an encoded storage.
pub fn check_storage_size(encoded: Result<Vec<u8>, String>, limit: usize) -> (r: Result<(), String>)
    ensures
        problem(r) == storage_size_problem(
            match encoded {
                Ok(bytes) => Ok(bytes@),
                Err(message) => Err(message@),
            },
            limit as nat,
        ),
{
    match encoded {
        Err(message) => Err(message),
        Ok(bytes) => if bytes.len() > limit {
            Err(concat3("Plugin storage exceeds ", decimal_text(limit as u64).as_str(), " bytes"))
        } else {
            Ok(())
        },
    }
}

/// Checks that the JSON form of all values of a plugin keeps within the limit.
pub fn validate_plugin_storage_size(values: &Value, limit: usize) -> (r: Result<(), String>)
    ensures
        problem(r) == storage_size_problem(json_encoding(*values), limit as nat),
{
    check_storage_size(json_encode(values), limit)
}

pub fn native_plugin_sidebar_position_sort_key(position: &str) -> (r: u8)
    ensures
        r == (if position@ == "top"@ {
            0int
        } else if position@ == "bottom"@ {
            1
        } else {
            2
        }),
{
    if same(position, "top") {
        0
    } else if same(position, "bottom") {
        1
    } else {
        2
    }
}

/// A definition with an id.
pub trait Identified: Sized {
    spec fn id_view(&self) -> Seq<char>;

    fn id_text(&self) -> (r: &str)
        ensures
            r@ == self.id_view(),
    ;
}

impl Identified for NativePluginTabDef {
    open spec fn id_view(&self) -> Seq<char> {
        self.id@
    }

    fn id_text(&self) -> (r: &str) {
        self.id.as_str()
    }
}

impl Identified for NativePluginSidebarDef {
    open spec fn id_view(&self) -> Seq<char> {
        self.id@
    }

    fn id_text(&self) -> (r: &str) {
        self.id.as_str()
    }
}

impl Identified for NativePluginActivityBarItemDef {
    open spec fn id_view(&self) -> Seq<char> {
        self.id@
    }

    fn id_text(&self) -> (r: &str) {
        self.id.as_str()
    }
}

/// The first definition of that id.
pub open spec fn first_with_id<T: Identified>(items: Seq<T>, id: Seq<char>) -> Option<T>
    decreases items.len(),
{
    if items.len() == 0 {
        None
    } else if items[0].id_view() == id {
        Some(items[0])
    } else {
        first_with_id(items.drop_first(), id)
    }
}

/// The first definition of that id in an optional list.
pub open spec fn declared_with_id<T: Identified>(items: Option<Vec<T>>, id: Seq<char>) -> Option<T> {
    match items {
        Some(items) => first_with_id(items@, id),
        None => None,
    }
}

pub open spec fn found<T>(r: Option<&T>) -> Option<T> {
    match r {
        Some(item) => Some(*item),
        None => None,
    }
}

fn find_declared<'a, T: Identified>(items: &'a Option<Vec<T>>, id: &str) -> (r: Option<&'a T>)
    ensures
        found(r) == declared_with_id(*items, id@),
{
    match items {
        None => None,
        Some(list) => {
            let mut i: usize = 0;
            assert(list@.skip(0) == list@);
            while i < list.len()
                invariant
                    i <= list.len(),
                    *items == Some(*list),
                    first_with_id(list@.skip(i as int), id@) == first_with_id(list@, id@),
                decreases list.len() - i,
            {
                assert(list@.skip(i as int)[0] == list@[i as int]);
                assert(list@.skip(i as int).drop_first() == list@.skip(i + 1));
                if same(list[i].id_text(), id) {
                    return Some(&list[i]);
                }
                i = i + 1;
            }
            None
        },
    }
}

/// The first tab of that id that a manifest declares.
pub fn manifest_declared_tab<'a>(manifest: &'a NativePluginManifest, tab_id: &str) -> (r: Option<
    &'a NativePluginTabDef,
>)
    ensures
        found(r) == match manifest.contributes {
            Some(contributes) => declared_with_id(contributes.tabs, tab_id@),
            None => None,
        },
{
    match &manifest.contributes {
        Some(contributes) => find_declared(&contributes.tabs, tab_id),
        None => None,
    }
}

/// The first sidebar panel of that id that a manifest declares.
pub fn manifest_declared_sidebar_panel<'a>(manifest: &'a NativePluginManifest, panel_id: &str) -> (r: Option<
    &'a NativePluginSidebarDef,
>)
    ensures
        found(r) == match manifest.contributes {
            Some(contributes) => declared_with_id(contributes.sidebar_panels, panel_id@),
            None => None,
        },
{
    match &manifest.contributes {
        Some(contributes) => find_declared(&contributes.sidebar_panels, panel_id),
        None => None,
    }
}

/// The first activity-bar item of that id that a manifest declares.
pub fn manifest_declared_activity_bar_item<'a>(manifest: &'a NativePluginManifest, item_id: &str) -> (r: Option<
    &'a NativePluginActivityBarItemDef,
>)
    ensures
        found(r) == match manifest.contributes {
            Some(contributes) => declared_with_id(contributes.activity_bar_items, item_id@),
            None => None,
        },
{
    match &manifest.contributes {
        Some(contributes) => find_declared(&contributes.activity_bar_items, item_id),
        None => None,
    }
}

/// One entry of a context menu that a runtime has registered.
#[derive(Clone, Debug, PartialEq, Eq)]
pub struct NativePluginRuntimeContextMenuItem {
    pub label: String,
    pub icon: Option<String>,
    pub enabled: bool,
}

/// The contents of a menu entry.
pub struct MenuItemView {
    pub label: Seq<char>,
    pub icon: Option<Seq<char>>,
    pub enabled: bool,
}

impl View for NativePluginRuntimeContextMenuItem {
    type V = MenuItemView;

    open spec fn view(&self) -> MenuItemView {
        MenuItemView { label: self.label@, icon: opt_text(self.icon), enabled: self.enabled }
    }
}

/// The entry that one element of the registration describes: it needs a label that is not blank,
/// and is enabled unless it says otherwise.
pub open spec fn menu_item(item: JsonView) -> Result<MenuItemView, Seq<char>> {
    match text_member(item, "label"@) {
        None => Err("Runtime context menu item requires label"@),
        Some(label) => match text_field_problem("runtime.contextMenu.items.label"@, label) {
            Some(message) => Err(message),
            None => Ok(
                MenuItemView {
                    label,
                    icon: text_member(item, "icon"@),
                    enabled: match member_view(item, "enabled"@) {
                        Some(JsonView::Bool(b)) => b,
                        _ => true,
                    },
                },
            ),
        },
    }
}

/// The entries that the first `n` elements describe, or the first problem.
pub open spec fn menu_items(items: Seq<JsonView>, n: nat) -> Result<Seq<MenuItemView>, Seq<char>>
    decreases n,
{
    if n == 0 {
        Ok(Seq::empty())
    } else {
        match menu_items(items, (n - 1) as nat) {
            Err(message) => Err(message),
            Ok(parsed) => match menu_item(items[n - 1]) {
                Err(message) => Err(message),
                Ok(item) => Ok(parsed.push(item)),
            },
        }
    }
}

proof fn lemma_menu_error_stays(items: Seq<JsonView>, n: nat)
    requires
        n <= items.len(),
        menu_items(items, n) is Err,
    ensures
        menu_items(items, items.len()) == menu_items(items, n),
    decreases items.len() - n,
{
    if n < items.len() {
        assert(menu_items(items, n + 1) == menu_items(items, n));
        lemma_menu_error_stays(items, n + 1);
    }
}

/// The menu that the metadata of a registration describes.
pub open spec fn context_menu(metadata: JsonView) -> Result<Seq<MenuItemView>, Seq<char>> {
    match member_view(metadata, "items"@) {
        Some(JsonView::List(items)) => menu_items(items, items.len()),
        _ => Err("Runtime context menu registration requires metadata.items"@),
    }
}

fn parse_menu_item(item: &Value) -> (r: Result<NativePluginRuntimeContextMenuItem, String>)
    ensures
        match r {
            Ok(parsed) => menu_item(json_view(*item)) == Ok::<MenuItemView, Seq<char>>(parsed@),
            Err(message) => menu_item(json_view(*item)) == Err::<MenuItemView, Seq<char>>(message@),
        },
{
    match json_text_member(item, "label") {
        None => Err("Runtime context menu item requires label".to_owned()),
        Some(label) => {
            match validate_manifest_text_field("runtime.contextMenu.items.label", label.as_str()) {
                Err(message) => return Err(message),
                Ok(()) => {},
            }
            let enabled = match json_member(item, "enabled") {
                Some(value) => match value.as_bool() {
                    Some(b) => b,
                    None => true,
                },
                None => true,
            };
            Ok(
                NativePluginRuntimeContextMenuItem {
                    label,
                    icon: json_text_member(item, "icon"),
                    enabled,
                },
            )
        },
    }
}

pub open spec fn menu_views(items: Seq<NativePluginRuntimeContextMenuItem>) -> Seq<MenuItemView> {
    Seq::new(items.len(), |i: int| items[i]@)
}

pub fn runtime_context_menu_items(metadata: &Value) -> (r: Result<
    Vec<NativePluginRuntimeContextMenuItem>,
    String,
>)
    ensures
        match r {
            Ok(items) => context_menu(json_view(*metadata)) == Ok::<Seq<MenuItemView>, Seq<char>>(
                menu_views(items@),
            ),
            Err(message) => context_menu(json_view(*metadata)) == Err::<
                Seq<MenuItemView>,
                Seq<char>,
            >(message@),
        },
{
    let items = match json_member(metadata, "items") {
        Some(value) => value.as_array(),
        None => None,
    };
    match items {
        None => Err("Runtime context menu registration requires metadata.items".to_owned()),
        Some(items) => {
            let ghost views = json_views(items@);
            let mut parsed: Vec<NativePluginRuntimeContextMenuItem> = Vec::new();
            let mut i: usize = 0;
            assert(menu_views(parsed@) == Seq::<MenuItemView>::empty());
            while i < items.len()
                invariant
                    i <= items.len(),
                    views == json_views(items@),
                    context_menu(json_view(*metadata)) == menu_items(views, views.len()),
                    menu_items(views, i as nat) == Ok::<Seq<MenuItemView>, Seq<char>>(
                        menu_views(parsed@),
                    ),
                decreases items.len() - i,
            {
                match parse_menu_item(&items[i]) {
                    Err(message) => {
                        proof {
                            lemma_menu_error_stays(views, (i + 1) as nat);
                        }
                        return Err(message);
                    },
                    Ok(item) => {
                        let ghost before = parsed@;
                        let ghost view = item@;
                        parsed.push(item);
                        assert(menu_views(parsed@) == menu_views(before).push(view));
                    },
                }
                i = i + 1;
            }
            Ok(parsed)
        },
    }
}

/// The error of a process entry that is not a path inside the plugin.
pub open spec fn process_entry_problem(entry: Seq<char>) -> Option<PluginErrorView> {
    match relative_path_problem(entry) {
        Some(message) => Some(
            PluginErrorView {
                kind: PluginErrorKind::Protocol,
                code: "invalid_process_entry"@,
                message: "Invalid runtime entry: "@ + message,
            },
        ),
        None => None,
    }
}

/// Checks the entry of a process plugin before anything is looked up on disk.
pub fn check_process_entry(entry: &str) -> (r: Result<(), PluginError>)
    ensures
        match r {
            Ok(_) => process_entry_problem(entry@) is None,
            Err(error) => process_entry_problem(entry@) == Some(error@),
        },
{
    match validate_plugin_relative_path(entry) {
        Err(message) => Err(
            PluginError::protocol(
                "invalid_process_entry",
                concat2("Invalid runtime entry: ", message.as_str()),
            ),
        ),
        Ok(()) => Ok(()),
    }
}

/// The executable of a process plugin: `plugin_dir` and `executable` are the resolved paths, or the
/// reasons why they could not be resolved.
pub open spec fn process_entry(
    entry: Seq<char>,
    plugin_dir: Result<LocalPath, String>,
    executable: Result<LocalPath, String>,
) -> Result<Seq<Seq<char>>, PluginErrorView> {
    match process_entry_problem(entry) {
        Some(error) => Err(error),
        None => match plugin_dir {
            Err(reason) => Err(
                PluginErrorView {
                    kind: PluginErrorKind::Runtime,
                    code: "plugin_dir_unavailable"@,
                    message: "Cannot resolve plugin directory: "@ + reason@,
                },
            ),
            Ok(dir) => match executable {
                Err(reason) => Err(
                    PluginErrorView {
                        kind: PluginErrorKind::Runtime,
                        code: "process_entry_unavailable"@,
                        message: "Cannot resolve native plugin process entry \""@ + entry + "\": "@
                            + reason@,
                    },
                ),
                Ok(file) => if dir@.is_prefix_of(file@) {
                    Ok(file@)
                } else {
                    Err(
                        PluginErrorView {
                            kind: PluginErrorKind::Protocol,
                            code: "process_entry_escapes_plugin_dir"@,
                            message: "Native plugin process entry \""@ + entry
                                + "\" resolves outside plugin directory"@,
                        },
                    )
                },
            },
        },
    }
}

pub fn resolve_process_runtime_entry(
    entry: &str,
    plugin_dir: Result<LocalPath, String>,
    executable: Result<LocalPath, String>,
) -> (r: Result<LocalPath, PluginError>)
    ensures
        match r {
            Ok(path) => process_entry(entry@, plugin_dir, executable) == Ok::<
                Seq<Seq<char>>,
                PluginErrorView,
            >(path@),
            Err(error) => process_entry(entry@, plugin_dir, executable) == Err::<
                Seq<Seq<char>>,
                PluginErrorView,
            >(error@),
        },
{
    match check_process_entry(entry) {
        Err(error) => return Err(error),
        Ok(()) => {},
    }
    let dir = match plugin_dir {
        Err(reason) => return Err(
            PluginError::runtime(
                "plugin_dir_unavailable",
                concat2("Cannot resolve plugin directory: ", reason.as_str()),
            ),
        ),
        Ok(dir) => dir,
    };
    let file = match executable {
        Err(reason) => return Err(
            PluginError::runtime(
                "process_entry_unavailable",
                concat4(
                    "Cannot resolve native plugin process entry \"",
                    entry,
                    "\": ",
                    reason.as_str(),
                ),
            ),
        ),
        Ok(file) => file,
    };
    if file.starts_with(&dir) {
        Ok(file)
    } else {
        Err(
            PluginError::protocol(
                "process_entry_escapes_plugin_dir",
                concat3(
                    "Native plugin process entry \"",
                    entry,
                    "\" resolves outside plugin directory",
                ),
            ),
        )
    }
}

/// An executable that is handed out lies inside the plugin directory.
pub proof fn law_process_entry_is_contained(
    entry: Seq<char>,
    plugin_dir: Result<LocalPath, String>,
    executable: Result<LocalPath, String>,
)
    requires
        process_entry(entry, plugin_dir, executable) is Ok,
    ensures
        plugin_dir is Ok,
        plugin_dir->Ok_0@.is_prefix_of(process_entry(entry, plugin_dir, executable)->Ok_0),
        relative_path_problem(entry) is None,
{
}

/// An accepted manifest always has a runtime plan.
pub proof fn law_accepted_manifest_has_plan(
    manifest: NativePluginManifest,
    capabilities: Option<Seq<char>>,
)
    requires
        manifest_problem(manifest, capabilities) is None,
    ensures
        runtime_plan(manifest) is Ok,
{
}

/// A plugin that is disabled, automatically disabled or in error is never ready.
pub proof fn law_ready_needs_enabled(
    plan: NativePluginRuntimePlan,
    config: NativePluginConfigEntry,
)
    requires
        is_ready(plugin_state(plan, config)),
    ensures
        config.enabled && !config.auto_disabled && config.last_error is None,
{
}

/// A manifest is accepted exactly where all of its parts are; otherwise the first part that is
/// refused is told, in this order: the id, the name, the version, the paths, the capabilities
/// and the contributions.
pub proof fn law_manifests_are_checked_in_order(
    manifest: NativePluginManifest,
    capabilities: Option<Seq<char>>,
)
    ensures
        ({
            let entry = match manifest.runtime {
                Some(runtime) => relative_path_problem(runtime.entry@),
                None => None,
            };
            let styles = match manifest.styles {
                Some(styles) => first_of(style_problems(styles@)),
                None => None,
            };
            let contributes = match manifest.contributes {
                Some(contributes) => contributions_problem(contributes),
                None => None,
            };
            let told = manifest_problem(manifest, capabilities);
            let named = plugin_id_problem(manifest.id@) is None && trimmed(manifest.name@).len() > 0
                && trimmed(manifest.version@).len() > 0;
            let placed = optional_path_problem(manifest.main) is None && entry is None
                && optional_path_problem(manifest.assets) is None && styles is None
                && optional_path_problem(manifest.locales) is None;
            &&& told is None <==> named && placed && capabilities is None && contributes is None
            &&& plugin_id_problem(manifest.id@) is Some ==> told == plugin_id_problem(manifest.id@)
            &&& plugin_id_problem(manifest.id@) is None && trimmed(manifest.name@).len() == 0
                ==> told == Some("Plugin manifest field \""@ + "name"@ + "\" cannot be empty"@)
            &&& plugin_id_problem(manifest.id@) is None && trimmed(manifest.name@).len() > 0
                && trimmed(manifest.version@).len() == 0 ==> told == Some(
                "Plugin manifest field \""@ + "version"@ + "\" cannot be empty"@,
            )
            &&& named && optional_path_problem(manifest.main) is Some ==> told
                == optional_path_problem(manifest.main)
            &&& named && optional_path_problem(manifest.main) is None && entry is Some ==> told
                == entry
            &&& named && placed && capabilities is Some ==> told == capabilities
            &&& named && placed && capabilities is None ==> told == contributes
        }),
{
}

/// A plugin with a runtime runs its entry, by its kind; without one a script is never run.
pub proof fn law_plans_follow_the_runtime(manifest: NativePluginManifest)
    ensures
        manifest.runtime matches Some(runtime) ==> (relative_path_problem(runtime.entry@) is None
            ==> {
            &&& runtime.kind == NativePluginRuntimeKind::Wasm ==> runtime_plan(manifest) == Ok::<
                RuntimePlanView,
                Seq<char>,
            >(RuntimePlanView::Wasm(runtime.entry@))
            &&& runtime.kind == NativePluginRuntimeKind::Process ==> runtime_plan(manifest) == Ok::<
                RuntimePlanView,
                Seq<char>,
            >(RuntimePlanView::Process(runtime.entry@))
            &&& runtime.kind == NativePluginRuntimeKind::ManifestOnly ==> runtime_plan(manifest)
                == Ok::<RuntimePlanView, Seq<char>>(RuntimePlanView::ManifestOnly)
        }),
        manifest.runtime matches Some(runtime) ==> (relative_path_problem(runtime.entry@)
            matches Some(message) ==> runtime_plan(manifest) == Err::<RuntimePlanView, Seq<char>>(
            message,
        )),
        manifest.runtime is None && manifest.main is None ==> runtime_plan(manifest) == Ok::<
            RuntimePlanView,
            Seq<char>,
        >(RuntimePlanView::ManifestOnly),
        manifest.runtime is None ==> (manifest.main matches Some(main) ==> (relative_path_problem(
            main@,
        ) is None ==> runtime_plan(manifest) == Ok::<RuntimePlanView, Seq<char>>(
            RuntimePlanView::UnsupportedLegacyJs(main@),
        ))),
        manifest.runtime is None ==> (manifest.main matches Some(main) ==> (relative_path_problem(
            main@,
        ) matches Some(message) ==> runtime_plan(manifest) == Err::<RuntimePlanView, Seq<char>>(
            message,
        ))),
{
}

/// A plugin that was switched off by itself is that first of all; then what the user wants
/// counts, then its error, and only then what it can do.
pub proof fn law_states_have_an_order(
    plan: NativePluginRuntimePlan,
    config: NativePluginConfigEntry,
)
    ensures
        config.auto_disabled ==> plugin_state(plan, config) == NativePluginState::AutoDisabled,
        !config.auto_disabled && !config.enabled ==> plugin_state(plan, config)
            == NativePluginState::Disabled,
        !config.auto_disabled && config.enabled && config.last_error is Some ==> plugin_state(
            plan,
            config,
        ) == NativePluginState::Error,
        !config.auto_disabled && config.enabled && config.last_error is None ==> ({
            &&& plan is ManifestOnly ==> plugin_state(plan, config)
                == NativePluginState::ReadyManifestOnly
            &&& plan is Wasm ==> plugin_state(plan, config) == NativePluginState::ReadyWasm
            &&& plan is Process ==> plugin_state(plan, config) == NativePluginState::ReadyProcess
            &&& plan is UnsupportedLegacyJs ==> plugin_state(plan, config)
                == NativePluginState::UnsupportedLegacyJs
            &&& is_ready(plugin_state(plan, config)) <==> !(plan is UnsupportedLegacyJs)
        }),
        is_ready(plugin_state(plan, config)) ==> config.enabled && !config.auto_disabled
            && config.last_error is None,
{
}

/// How the kinds of runtime are named, and which of them have a file to run.
pub proof fn law_runtimes_are_named(plan: NativePluginRuntimePlan)
    ensures
        plan is ManifestOnly ==> runtime_kind_label(plan) == "manifest-only"@ && plan_entry(plan)
            is None,
        plan matches NativePluginRuntimePlan::Wasm { entry } ==> runtime_kind_label(plan)
            == "wasm"@ && plan_entry(plan) == Some(entry@),
        plan matches NativePluginRuntimePlan::Process { entry } ==> runtime_kind_label(plan)
            == "process"@ && plan_entry(plan) == Some(entry@),
        plan is UnsupportedLegacyJs ==> runtime_kind_label(plan) == "legacy-js"@ && plan_entry(plan)
            is None,
{
}

/// A key of the storage is accepted exactly where it is not blank, fits the limit and has no
/// control characters; a storage exactly where it can be written and fits its limit.
pub proof fn law_storage_keeps_its_limits(
    key: Seq<char>,
    bytes: Seq<u8>,
    message: Seq<char>,
    limit: nat,
)
    ensures
        storage_key_problem(key, limit) is None <==> trimmed(key).len() > 0 && encode_utf8(
            key,
        ).len() <= limit && (forall|i: int|
            0 <= i < key.len() ==> (#[trigger] key[i]) as u32 >= 32),
        trimmed(key).len() > 0 && encode_utf8(key).len() > limit ==> storage_key_problem(key, limit)
            == Some("Plugin storage key exceeds "@ + decimal(limit) + " bytes"@),
        bytes.len() <= limit <==> storage_size_problem(
            Ok::<Seq<u8>, Seq<char>>(bytes),
            limit,
        ) is None,
        bytes.len() > limit ==> storage_size_problem(Ok::<Seq<u8>, Seq<char>>(bytes), limit)
            == Some("Plugin storage exceeds "@ + decimal(limit) + " bytes"@),
        storage_size_problem(Err::<Seq<u8>, Seq<char>>(message), limit) == Some(message),
{
}

/// The first definition of an id is the one that is found.
pub proof fn law_the_first_definition_is_found<T: Identified>(
    items: Seq<T>,
    id: Seq<char>,
    at: int,
)
    requires
        0 <= at <= items.len(),
        forall|j: int| 0 <= j < at ==> (#[trigger] items[j]).id_view() != id,
    ensures
        at < items.len() && items[at].id_view() == id ==> first_with_id(items, id) == Some(
            items[at],
        ),
        at == items.len() ==> first_with_id(items, id) is None,
    decreases at,
{
    if at > 0 {
        let rest = items.drop_first();
        assert(items[0].id_view() != id);
        assert forall|j: int| 0 <= j < at - 1 implies (#[trigger] rest[j]).id_view() != id by {
            assert(rest[j] == items[j + 1]);
        }
        law_the_first_definition_is_found(rest, id, at - 1);
    }
}

/// An entry of a menu is read from its members; it is enabled unless it says that it is not.
pub proof fn law_menu_entries_are_read(item: JsonView, label: Seq<char>)
    requires
        text_member(item, "label"@) == Some(label),
    ensures
        trimmed(label).len() == 0 ==> menu_item(item) is Err,
        trimmed(label).len() > 0 ==> ({
            &&& menu_item(item) matches Ok(entry)
            &&& entry.label == label
            &&& entry.icon == text_member(item, "icon"@)
            &&& entry.enabled == (member_view(item, "enabled"@) != Some(JsonView::Bool(false)))
        }),
{
}

/// A menu has an entry for each element, in their order, unless one of them is refused; then that
/// one is told.
pub proof fn law_menus_are_read_in_order(items: Seq<JsonView>, n: nat, at: int)
    requires
        n <= items.len(),
    ensures
        menu_items(items, n) matches Ok(entries) ==> entries.len() == n && (0 <= at < n
            ==> menu_item(items[at]) == Ok::<MenuItemView, Seq<char>>(entries[at])),
        menu_items(items, n) matches Err(message) ==> exists|i: int|
            0 <= i < n && #[trigger] menu_item(items[i]) == Err::<MenuItemView, Seq<char>>(message)
                && menu_items(items, i as nat) is Ok,
    decreases n,
{
    if n > 0 {
        law_menus_are_read_in_order(items, (n - 1) as nat, at);
        if menu_items(items, n) is Err && menu_items(items, (n - 1) as nat) is Ok {
            assert(menu_item(items[n - 1]) is Err);
        }
    }
}

/// A menu is read from the list of items of a registration, which has to have one.
pub proof fn law_menus_are_lists_of_items(metadata: JsonView, items: Seq<JsonView>)
    ensures
        member_view(metadata, "items"@) == Some(JsonView::List(items)) ==> context_menu(metadata)
            == menu_items(items, items.len()),
        !(member_view(metadata, "items"@) matches Some(JsonView::List(_))) ==> context_menu(
            metadata,
        ) == Err::<Seq<MenuItemView>, Seq<char>>(
            "Runtime context menu registration requires metadata.items"@,
        ),
{
}

/// What a manifest declares is looked for in its list, and not found where it has none.
pub proof fn law_declarations_are_looked_for<T: Identified>(items: Vec<T>, id: Seq<char>)
    ensures
        declared_with_id(Some(items), id) == first_with_id(items@, id),
        declared_with_id::<T>(None, id) is None,
{
}

/// A refused storage key is told why: that it is blank, that it is too long, or that it holds
/// control characters, whichever comes first.
pub proof fn law_refused_storage_keys_are_told(key: Seq<char>, limit: nat)
    ensures
        trimmed(key).len() == 0 ==> storage_key_problem(key, limit) == Some(
            "Plugin storage key cannot be empty"@,
        ),
        trimmed(key).len() > 0 && encode_utf8(key).len() > limit ==> storage_key_problem(key, limit)
            == Some("Plugin storage key exceeds "@ + decimal(limit) + " bytes"@),
        trimmed(key).len() > 0 && encode_utf8(key).len() <= limit && has_below(key, 0x20)
            ==> storage_key_problem(key, limit) == Some(
            "Plugin storage key contains invalid characters"@,
        ),
        storage_key_problem(key, limit) is None <==> trimmed(key).len() > 0 && encode_utf8(
            key,
        ).len() <= limit && !has_below(key, 0x20),
{
}

/// A process entry that is refused is told why: that its path is not allowed, that the directory or
/// the entry cannot be found, or that it lies outside of the directory.
pub proof fn law_refused_process_entries_are_told(
    entry: Seq<char>,
    dir: LocalPath,
    file: LocalPath,
    reason: String,
    executable: Result<LocalPath, String>,
)
    requires
        relative_path_problem(entry) is None,
    ensures
        process_entry(entry, Err(reason), executable) == Err::<Seq<Seq<char>>, PluginErrorView>(
            PluginErrorView {
                kind: PluginErrorKind::Runtime,
                code: "plugin_dir_unavailable"@,
                message: "Cannot resolve plugin directory: "@ + reason@,
            },
        ),
        process_entry(entry, Ok(dir), Err(reason)) == Err::<Seq<Seq<char>>, PluginErrorView>(
            PluginErrorView {
                kind: PluginErrorKind::Runtime,
                code: "process_entry_unavailable"@,
                message: "Cannot resolve native plugin process entry \""@ + entry + "\": "@
                    + reason@,
            },
        ),
        !dir@.is_prefix_of(file@) ==> process_entry(entry, Ok(dir), Ok(file)) == Err::<
            Seq<Seq<char>>,
            PluginErrorView,
        >(
            PluginErrorView {
                kind: PluginErrorKind::Protocol,
                code: "process_entry_escapes_plugin_dir"@,
                message: "Native plugin process entry \""@ + entry
                    + "\" resolves outside plugin directory"@,
            },
        ),
        dir@.is_prefix_of(file@) ==> process_entry(entry, Ok(dir), Ok(file)) == Ok::<
            Seq<Seq<char>>,
            PluginErrorView,
        >(file@),
{
}

} // verus!
