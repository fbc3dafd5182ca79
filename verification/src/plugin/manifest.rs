//! The manifest of a native plugin and the values its missing fields take.

use serde_json::Value;
use vstd::prelude::*;

verus! {

#[derive(Clone, Debug, PartialEq)]
pub struct NativePluginManifest {
    pub id: String,
    pub name: String,
    pub version: String,
    pub description: Option<String>,
    pub author: Option<String>,
    pub main: Option<String>,
    pub engines: Option<NativePluginEngines>,
    pub manifest_version: Option<u8>,
    pub format: Option<String>,
    pub assets: Option<String>,
    pub styles: Option<Vec<String>>,
    /// Package names with the versions they are shared in.
    pub shared_dependencies: Option<Vec<(String, String)>>,
    pub repository: Option<String>,
    pub checksum: Option<String>,
    pub contributes: Option<NativePluginContributes>,
    pub locales: Option<String>,
    pub runtime: Option<NativePluginRuntime>,
    /// Declares sensitive reads and side effects that require user approval.
    pub permissions: NativePluginPermissions,
}

/// Permission requests leave out the safe, redacted data plane available to all plugins.
#[derive(Clone, Debug, Default, PartialEq, Eq)]
pub struct NativePluginPermissions {
    /// Capability names requested by the plugin.
    pub capabilities: Vec<String>,
}

#[derive(Clone, Debug, PartialEq)]
pub struct NativePluginEngines {
    pub hapcli: Option<String>,
}

#[derive(Clone, Debug, PartialEq)]
pub struct NativePluginRuntime {
    pub kind: NativePluginRuntimeKind,
    pub entry: String,
}

#[derive(Clone, Debug, PartialEq, Eq, Structural)]
pub enum NativePluginRuntimeKind {
    Wasm,
    Process,
    ManifestOnly,
}

#[derive(Clone, Debug, PartialEq)]
pub struct NativePluginContributes {
    pub tabs: Option<Vec<NativePluginTabDef>>,
    pub sidebar_panels: Option<Vec<NativePluginSidebarDef>>,
    pub activity_bar_items: Option<Vec<NativePluginActivityBarItemDef>>,
    pub settings: Option<Vec<NativePluginSettingDef>>,
    pub terminal_hooks: Option<NativePluginTerminalHooksDef>,
    pub terminal_transports: Option<Vec<String>>,
    pub connection_hooks: Option<Vec<String>>,
    pub ai_tools: Option<Vec<NativePluginAiToolDef>>,
    pub api_commands: Option<Vec<String>>,
    pub host_monitors: Option<Vec<NativePluginHostMonitorDef>>,
}

impl Default for NativePluginContributes {
    fn default() -> (r: Self)
        ensures
            r.tabs is None && r.sidebar_panels is None && r.activity_bar_items is None,
            r.settings is None && r.terminal_hooks is None && r.terminal_transports is None,
            r.connection_hooks is None && r.ai_tools is None && r.api_commands is None,
            r.host_monitors is None,
    {
        NativePluginContributes {
            tabs: None,
            sidebar_panels: None,
            activity_bar_items: None,
            settings: None,
            terminal_hooks: None,
            terminal_transports: None,
            connection_hooks: None,
            ai_tools: None,
            api_commands: None,
            host_monitors: None,
        }
    }
}

/// Declares one activity-bar action that dispatches a plugin runtime command.
#[derive(Clone, Debug, PartialEq)]
pub struct NativePluginActivityBarItemDef {
    pub id: String,
    pub title: String,
    pub icon: String,
    pub command: String,
    pub position: String,
}

/// Declares one bounded Host Tools sampler backed by a static command for each platform.
#[derive(Clone, Debug, PartialEq)]
pub struct NativePluginHostMonitorDef {
    pub id: String,
    pub title: String,
    pub description: Option<String>,
    /// Platforms with their commands, each platform once.
    pub commands: Vec<(String, String)>,
    pub output: NativePluginHostMonitorOutputDef,
    pub timeout_seconds: u64,
    pub max_output_bytes: usize,
}

/// Describes how the host converts monitor output into plugin-facing data.
#[derive(Clone, Debug, PartialEq)]
pub struct NativePluginHostMonitorOutputDef {
    pub format: NativePluginHostMonitorOutputFormat,
    pub columns: Vec<String>,
    pub max_rows: usize,
}

impl Default for NativePluginHostMonitorOutputDef {
    fn default() -> (r: Self)
        ensures
            r.format == NativePluginHostMonitorOutputFormat::Json,
            r.columns@.len() == 0,
            r.max_rows == 1_000,
    {
        NativePluginHostMonitorOutputDef {
            format: NativePluginHostMonitorOutputFormat::Json,
            columns: Vec::new(),
            max_rows: default_host_monitor_max_rows(),
        }
    }
}

#[derive(Clone, Copy, Debug, PartialEq, Eq, Structural)]
pub enum NativePluginHostMonitorOutputFormat {
    Json,
    JsonLines,
    Tsv,
    TextLines,
}

#[derive(Clone, Debug, PartialEq)]
pub struct NativePluginTabDef {
    pub id: String,
    pub title: String,
    pub icon: String,
}

#[derive(Clone, Debug, PartialEq)]
pub struct NativePluginSidebarDef {
    pub id: String,
    pub title: String,
    pub icon: String,
    pub position: String,
}

#[derive(Clone, Debug, PartialEq)]
pub struct NativePluginSettingDef {
    pub id: String,
    pub setting_type: String,
    pub default: Value,
    pub title: String,
    pub description: Option<String>,
    pub options: Option<Vec<NativePluginSettingOption>>,
}

#[derive(Clone, Debug, PartialEq)]
pub struct NativePluginSettingOption {
    pub label: String,
    pub value: Value,
}

#[derive(Clone, Debug, PartialEq)]
pub struct NativePluginTerminalHooksDef {
    pub input_interceptor: Option<bool>,
    pub output_processor: Option<bool>,
    pub shortcuts: Option<Vec<NativePluginShortcutDef>>,
}

#[derive(Clone, Debug, PartialEq)]
pub struct NativePluginShortcutDef {
    pub key: String,
    pub command: String,
}

#[derive(Debug, PartialEq)]
pub struct NativePluginDeclarativeUiSchema {
    pub component_version: u8,
    pub kind: String,
    pub title: Option<String>,
    pub description: Option<String>,
    pub sections: Vec<NativePluginDeclarativeUiSection>,
    pub controls: Vec<NativePluginDeclarativeUiControl>,
}

#[derive(Debug, PartialEq)]
pub struct NativePluginDeclarativeUiSection {
    pub id: String,
    pub title: Option<String>,
    pub description: Option<String>,
    pub controls: Vec<NativePluginDeclarativeUiControl>,
}

/// One component of a declarative form. The number bounds are held as keys that order as the
/// numbers do, with zero at 0.
#[derive(Debug, PartialEq)]
pub struct NativePluginDeclarativeUiControl {
    pub kind: String,
    pub id: Option<String>,
    pub label: Option<String>,
    pub description: Option<String>,
    pub placeholder: Option<String>,
    pub icon: Option<String>,
    pub variant: Option<String>,
    pub tone: Option<String>,
    pub size: Option<String>,
    pub gap: Option<String>,
    pub value: Option<Value>,
    pub text: Option<String>,
    pub language: Option<String>,
    pub options: Option<Vec<NativePluginDeclarativeUiOption>>,
    pub rows: Option<Vec<Value>>,
    pub columns: Option<Vec<String>>,
    pub column_defs: Option<Vec<NativePluginDeclarativeUiColumn>>,
    pub children: Vec<NativePluginDeclarativeUiControl>,
    pub min: Option<i64>,
    pub max: Option<i64>,
    pub step: Option<i64>,
    pub indeterminate: bool,
    pub strong: bool,
    pub disabled: bool,
    pub loading: bool,
}

#[derive(Clone, Debug, PartialEq)]
pub struct NativePluginDeclarativeUiOption {
    pub label: String,
    pub value: Value,
}

/// Describes one host-rendered table column without exposing layout code.
#[derive(Clone, Debug, PartialEq)]
pub struct NativePluginDeclarativeUiColumn {
    pub key: String,
    pub label: String,
    pub style: Option<String>,
}

#[derive(Clone, Debug, PartialEq)]
pub struct NativePluginAiToolDef {
    pub name: String,
    pub description: String,
    pub parameters: Option<Value>,
    pub capabilities: Option<Vec<String>>,
    pub risk: Option<String>,
    pub target_kinds: Option<Vec<String>>,
    pub result_schema: Option<Value>,
}

pub fn default_sidebar_position() -> (r: String)
    ensures
        r@ == "bottom"@,
{
    "bottom".to_owned()
}

pub fn default_activity_bar_position() -> (r: String)
    ensures
        r@ == "top"@,
{
    "top".to_owned()
}

pub fn default_declarative_ui_kind() -> (r: String)
    ensures
        r@ == "form"@,
{
    "form".to_owned()
}

pub fn default_declarative_ui_component_version() -> (r: u8)
    ensures
        r == 1,
{
    1
}

pub fn default_host_monitor_timeout_seconds() -> (r: u64)
    ensures
        r == 10,
{
    10
}

pub fn default_host_monitor_max_output_bytes() -> (r: usize)
    ensures
        r == 256 * 1024,
{
    256 * 1024
}

pub fn default_host_monitor_max_rows() -> (r: usize)
    ensures
        r == 1_000,
{
    1_000
}

} // verus!
