//! What a plugin may contribute: tabs, panels, settings, hooks, tools and host monitors.

use crate::json::{json_same, json_view, JsonView};
use crate::plugin::manifest::{
    NativePluginActivityBarItemDef, NativePluginAiToolDef, NativePluginContributes,
    NativePluginHostMonitorDef, NativePluginHostMonitorOutputFormat, NativePluginSettingDef,
    NativePluginSettingOption, NativePluginShortcutDef, NativePluginSidebarDef, NativePluginTabDef,
};
use crate::plugin::rules::{
    check_all, each_of_problem, earlier, first_of, lemma_first_of_found, lemma_first_of_step,
    one_of_problem, problem, problems_of, str_views, text_field_problem, validate_each_of,
    validate_manifest_text_field, validate_one_of, Checked,
};
use crate::text::{
    byte_len, concat2, concat3, concat4, concat5, contains_char, decimal, decimal_text, same, trim, trimmed,
};
use serde_json::Value;
use vstd::prelude::*;
use vstd::utf8::*;

verus! {

pub const NATIVE_PLUGIN_MAX_ACTIVITY_BAR_ITEMS: usize = 16;

pub const NATIVE_PLUGIN_MAX_HOST_MONITORS: usize = 16;

pub const NATIVE_PLUGIN_MAX_HOST_MONITOR_COMMAND_BYTES: usize = 16384;

pub const NATIVE_PLUGIN_MIN_HOST_MONITOR_OUTPUT_BYTES: usize = 1024;

pub const NATIVE_PLUGIN_MAX_HOST_MONITOR_OUTPUT_BYTES: usize = 1048576;

pub const NATIVE_PLUGIN_MAX_HOST_MONITOR_TIMEOUT_SECONDS: u64 = 30;

pub const NATIVE_PLUGIN_MAX_HOST_MONITOR_ROWS: usize = 2000;

pub const NATIVE_PLUGIN_MAX_HOST_MONITOR_COLUMNS: usize = 64;

impl Checked for NativePluginTabDef {
    open spec fn problem_of(&self) -> Option<Seq<char>> {
        earlier(
            text_field_problem("contributes.tabs.id"@, self.id@),
            earlier(
                text_field_problem("contributes.tabs.title"@, self.title@),
                text_field_problem("contributes.tabs.icon"@, self.icon@),
            ),
        )
    }

    fn check(&self) -> (r: Result<(), String>) {
        match validate_manifest_text_field("contributes.tabs.id", self.id.as_str()) {
            Err(message) => return Err(message),
            Ok(()) => {},
        }
        match validate_manifest_text_field("contributes.tabs.title", self.title.as_str()) {
            Err(message) => return Err(message),
            Ok(()) => {},
        }
        validate_manifest_text_field("contributes.tabs.icon", self.icon.as_str())
    }
}

/// The places where a panel or an action can stand.
pub open spec fn positions() -> Seq<Seq<char>> {
    seq!["top"@, "bottom"@]
}

fn validate_position(field: &str, position: &str) -> (r: Result<(), String>)
    ensures
        problem(r) == one_of_problem(field@, position@, positions()),
{
    let allowed = ["top", "bottom"];
    assert(str_views(allowed@) == positions());
    validate_one_of(field, position, &allowed)
}

impl Checked for NativePluginSidebarDef {
    open spec fn problem_of(&self) -> Option<Seq<char>> {
        earlier(
            text_field_problem("contributes.sidebarPanels.id"@, self.id@),
            earlier(
                text_field_problem("contributes.sidebarPanels.title"@, self.title@),
                earlier(
                    text_field_problem("contributes.sidebarPanels.icon"@, self.icon@),
                    one_of_problem(
                        "contributes.sidebarPanels.position"@,
                        self.position@,
                        positions(),
                    ),
                ),
            ),
        )
    }

    fn check(&self) -> (r: Result<(), String>) {
        match validate_manifest_text_field("contributes.sidebarPanels.id", self.id.as_str()) {
            Err(message) => return Err(message),
            Ok(()) => {},
        }
        match validate_manifest_text_field("contributes.sidebarPanels.title", self.title.as_str()) {
            Err(message) => return Err(message),
            Ok(()) => {},
        }
        match validate_manifest_text_field("contributes.sidebarPanels.icon", self.icon.as_str()) {
            Err(message) => return Err(message),
            Ok(()) => {},
        }
        validate_position("contributes.sidebarPanels.position", self.position.as_str())
    }
}

/// Whether an earlier item has the id of item `i`.
pub open spec fn repeats_item_id(items: Seq<NativePluginActivityBarItemDef>, i: int) -> bool {
    exists|j: int| 0 <= j < i && (#[trigger] items[j]).id@ == items[i].id@
}

pub open spec fn activity_bar_item_problem(
    items: Seq<NativePluginActivityBarItemDef>,
    i: int,
) -> Option<Seq<char>> {
    let item = items[i];
    earlier(
        text_field_problem("contributes.activityBarItems.id"@, item.id@),
        earlier(
            text_field_problem("contributes.activityBarItems.title"@, item.title@),
            earlier(
                text_field_problem("contributes.activityBarItems.icon"@, item.icon@),
                earlier(
                    text_field_problem("contributes.activityBarItems.command"@, item.command@),
                    earlier(
                        one_of_problem(
                            "contributes.activityBarItems.position"@,
                            item.position@,
                            positions(),
                        ),
                        if repeats_item_id(items, i) {
                            Some(
                                "Duplicate contributes.activityBarItems id \""@ + item.id@ + "\""@,
                            )
                        } else {
                            None
                        },
                    ),
                ),
            ),
        ),
    )
}

pub open spec fn activity_bar_item_problems(
    items: Seq<NativePluginActivityBarItemDef>,
) -> Seq<Option<Seq<char>>> {
    Seq::new(items.len(), |i: int| activity_bar_item_problem(items, i))
}

pub open spec fn activity_bar_items_problem(
    items: Seq<NativePluginActivityBarItemDef>,
) -> Option<Seq<char>> {
    if items.len() > NATIVE_PLUGIN_MAX_ACTIVITY_BAR_ITEMS {
        Some(
            "Plugin contributes at most "@ + decimal(NATIVE_PLUGIN_MAX_ACTIVITY_BAR_ITEMS as nat)
                + " activity-bar items"@,
        )
    } else {
        first_of(activity_bar_item_problems(items))
    }
}

fn validate_activity_bar_item(items: &Vec<NativePluginActivityBarItemDef>, i: usize) -> (r: Result<
    (),
    String,
>)
    requires
        i < items.len(),
    ensures
        problem(r) == activity_bar_item_problem(items@, i as int),
{
    let item = &items[i];
    match validate_manifest_text_field("contributes.activityBarItems.id", item.id.as_str()) {
        Err(message) => return Err(message),
        Ok(()) => {},
    }
    match validate_manifest_text_field("contributes.activityBarItems.title", item.title.as_str()) {
        Err(message) => return Err(message),
        Ok(()) => {},
    }
    match validate_manifest_text_field("contributes.activityBarItems.icon", item.icon.as_str()) {
        Err(message) => return Err(message),
        Ok(()) => {},
    }
    match validate_manifest_text_field(
        "contributes.activityBarItems.command",
        item.command.as_str(),
    ) {
        Err(message) => return Err(message),
        Ok(()) => {},
    }
    match validate_position("contributes.activityBarItems.position", item.position.as_str()) {
        Err(message) => return Err(message),
        Ok(()) => {},
    }
    let mut j: usize = 0;
    while j < i
        invariant
            j <= i < items.len(),
            *item == items@[i as int],
            forall|k: int| 0 <= k < j ==> (#[trigger] items@[k]).id@ != item.id@,
            activity_bar_item_problem(items@, i as int) == (if repeats_item_id(items@, i as int) {
                Some("Duplicate contributes.activityBarItems id \""@ + item.id@ + "\""@)
            } else {
                None
            }),
        decreases i - j,
    {
        if same(items[j].id.as_str(), item.id.as_str()) {
            assert(repeats_item_id(items@, i as int));
            return Err(
                concat3("Duplicate contributes.activityBarItems id \"", item.id.as_str(), "\""),
            );
        }
        j = j + 1;
    }
    Ok(())
}

fn validate_activity_bar_items(items: &Vec<NativePluginActivityBarItemDef>) -> (r: Result<
    (),
    String,
>)
    ensures
        problem(r) == activity_bar_items_problem(items@),
{
    if items.len() > NATIVE_PLUGIN_MAX_ACTIVITY_BAR_ITEMS {
        return Err(
            concat3(
                "Plugin contributes at most ",
                decimal_text(NATIVE_PLUGIN_MAX_ACTIVITY_BAR_ITEMS as u64).as_str(),
                " activity-bar items",
            ),
        );
    }
    let ghost problems = activity_bar_item_problems(items@);
    let mut i: usize = 0;
    while i < items.len()
        invariant
            i <= items.len() <= NATIVE_PLUGIN_MAX_ACTIVITY_BAR_ITEMS,
            problems == activity_bar_item_problems(items@),
            first_of(problems.take(i as int)) is None,
        decreases items.len() - i,
    {
        match validate_activity_bar_item(items, i) {
            Err(message) => {
                proof {
                    lemma_first_of_found(problems, i as int);
                }
                return Err(message);
            },
            Ok(()) => {
                proof {
                    lemma_first_of_step(problems, i as int);
                }
            },
        }
        i = i + 1;
    }
    assert(problems.take(i as int) == problems);
    Ok(())
}

impl Checked for NativePluginSettingOption {
    open spec fn problem_of(&self) -> Option<Seq<char>> {
        earlier(
            text_field_problem("contributes.settings.options.label"@, self.label@),
            if json_view(self.value) is Text || json_view(self.value) is Number {
                None
            } else {
                Some("Select plugin setting option values must be strings or numbers"@)
            },
        )
    }

    fn check(&self) -> (r: Result<(), String>) {
        match validate_manifest_text_field("contributes.settings.options.label", self.label.as_str()) {
            Err(message) => return Err(message),
            Ok(()) => {},
        }
        if !(self.value.is_string() || self.value.is_number()) {
            return Err(
                "Select plugin setting option values must be strings or numbers".to_owned(),
            );
        }
        Ok(())
    }
}

/// Whether one of the options offers the value.
pub open spec fn offers(
    options: Option<Vec<NativePluginSettingOption>>,
    value: JsonView,
) -> bool {
    match options {
        Some(options) => exists|i: int|
            0 <= i < options@.len() && json_view((#[trigger] options@[i]).value) == value,
        None => false,
    }
}

/// The problem of a value for a setting.
pub open spec fn setting_value_problem(
    setting: NativePluginSettingDef,
    value: JsonView,
) -> Option<Seq<char>> {
    let named = "Plugin setting \""@ + setting.id@;
    if setting.setting_type@ == "string"@ {
        if value is Text {
            None
        } else {
            Some(named + "\" requires a string"@)
        }
    } else if setting.setting_type@ == "number"@ {
        if value is Number {
            None
        } else {
            Some(named + "\" requires a number"@)
        }
    } else if setting.setting_type@ == "boolean"@ {
        if value is Bool {
            None
        } else {
            Some(named + "\" requires a boolean"@)
        }
    } else if setting.setting_type@ == "select"@ {
        if offers(setting.options, value) {
            None
        } else {
            Some(named + "\" requires one of its declared select options"@)
        }
    } else {
        Some(named + "\" has unsupported type \""@ + setting.setting_type@ + "\""@)
    }
}

fn setting_offers(setting: &NativePluginSettingDef, value: &Value) -> (r: bool)
    ensures
        r == offers(setting.options, json_view(*value)),
{
    match &setting.options {
        Some(options) => {
            let mut i: usize = 0;
            while i < options.len()
                invariant
                    i <= options.len(),
                    setting.options == Some(*options),
                    forall|j: int|
                        0 <= j < i ==> json_view((#[trigger] options@[j]).value) != json_view(
                            *value,
                        ),
                decreases options.len() - i,
            {
                if json_same(&options[i].value, value) {
                    return true;
                }
                i = i + 1;
            }
            false
        },
        None => false,
    }
}

pub fn validate_plugin_setting_value(setting: &NativePluginSettingDef, value: &Value) -> (r: Result<
    (),
    String,
>)
    ensures
        problem(r) == setting_value_problem(*setting, json_view(*value)),
{
    let id = setting.id.as_str();
    let kind = setting.setting_type.as_str();
    if same(kind, "string") {
        if value.is_string() {
            Ok(())
        } else {
            Err(concat3("Plugin setting \"", id, "\" requires a string"))
        }
    } else if same(kind, "number") {
        if value.is_number() {
            Ok(())
        } else {
            Err(concat3("Plugin setting \"", id, "\" requires a number"))
        }
    } else if same(kind, "boolean") {
        if value.is_boolean() {
            Ok(())
        } else {
            Err(concat3("Plugin setting \"", id, "\" requires a boolean"))
        }
    } else if same(kind, "select") {
        if setting_offers(setting, value) {
            Ok(())
        } else {
            Err(concat3("Plugin setting \"", id, "\" requires one of its declared select options"))
        }
    } else {
        Err(concat5("Plugin setting \"", id, "\" has unsupported type \"", kind, "\""))
    }
}

pub open spec fn setting_types() -> Seq<Seq<char>> {
    seq!["string"@, "number"@, "boolean"@, "select"@]
}

/// The problem of the options that a select setting declares.
pub open spec fn select_options_problem(setting: NativePluginSettingDef) -> Option<Seq<char>> {
    if setting.setting_type@ == "select"@ {
        match setting.options {
            Some(options) => first_of(problems_of(options@)),
            None => Some("Select plugin settings require contributes.settings.options"@),
        }
    } else {
        None
    }
}

impl Checked for NativePluginSettingDef {
    open spec fn problem_of(&self) -> Option<Seq<char>> {
        earlier(
            text_field_problem("contributes.settings.id"@, self.id@),
            earlier(
                text_field_problem("contributes.settings.title"@, self.title@),
                earlier(
                    one_of_problem(
                        "contributes.settings.type"@,
                        self.setting_type@,
                        setting_types(),
                    ),
                    earlier(
                        select_options_problem(*self),
                        setting_value_problem(*self, json_view(self.default)),
                    ),
                ),
            ),
        )
    }

    fn check(&self) -> (r: Result<(), String>) {
        match validate_manifest_text_field("contributes.settings.id", self.id.as_str()) {
            Err(message) => return Err(message),
            Ok(()) => {},
        }
        match validate_manifest_text_field("contributes.settings.title", self.title.as_str()) {
            Err(message) => return Err(message),
            Ok(()) => {},
        }
        let allowed = ["string", "number", "boolean", "select"];
        assert(str_views(allowed@) == setting_types());
        match validate_one_of("contributes.settings.type", self.setting_type.as_str(), &allowed) {
            Err(message) => return Err(message),
            Ok(()) => {},
        }
        if same(self.setting_type.as_str(), "select") {
            match &self.options {
                Some(options) => match check_all(options) {
                    Err(message) => return Err(message),
                    Ok(()) => {},
                },
                None => return Err(
                    "Select plugin settings require contributes.settings.options".to_owned(),
                ),
            }
        }
        validate_plugin_setting_value(self, &self.default)
    }
}

impl Checked for NativePluginShortcutDef {
    open spec fn problem_of(&self) -> Option<Seq<char>> {
        earlier(
            text_field_problem("contributes.terminalHooks.shortcuts.key"@, self.key@),
            text_field_problem("contributes.terminalHooks.shortcuts.command"@, self.command@),
        )
    }

    fn check(&self) -> (r: Result<(), String>) {
        match validate_manifest_text_field(
            "contributes.terminalHooks.shortcuts.key",
            self.key.as_str(),
        ) {
            Err(message) => return Err(message),
            Ok(()) => {},
        }
        validate_manifest_text_field(
            "contributes.terminalHooks.shortcuts.command",
            self.command.as_str(),
        )
    }
}

pub open spec fn connection_hooks() -> Seq<Seq<char>> {
    seq!["onConnect"@, "onDisconnect"@, "onReconnect"@, "onLinkDown"@]
}

pub open spec fn tool_capabilities() -> Seq<Seq<char>> {
    seq![
        "command.run"@,
        "terminal.send"@,
        "terminal.observe"@,
        "terminal.wait"@,
        "filesystem.read"@,
        "filesystem.write"@,
        "filesystem.search"@,
        "navigation.open"@,
        "state.list"@,
        "network.forward"@,
        "settings.read"@,
        "settings.write"@,
        "plugin.invoke"@,
        "mcp.invoke"@,
    ]
}

pub open spec fn tool_risks() -> Seq<Seq<char>> {
    seq![
        "read"@,
        "write-file"@,
        "execute-command"@,
        "interactive-input"@,
        "destructive"@,
        "network-expose"@,
        "settings-change"@,
        "credential-sensitive"@,
    ]
}

pub open spec fn tool_target_kinds() -> Seq<Seq<char>> {
    seq![
        "local-shell"@,
        "ssh-node"@,
        "terminal-session"@,
        "sftp-session"@,
        "ide-workspace"@,
        "app-tab"@,
        "mcp-server"@,
        "rag-index"@,
    ]
}

/// The problem of an optional list of words.
pub open spec fn optional_words_problem(
    field: Seq<char>,
    values: Option<Vec<String>>,
    allowed: Seq<Seq<char>>,
) -> Option<Seq<char>> {
    match values {
        Some(values) => each_of_problem(field, values@, allowed),
        None => None,
    }
}

fn validate_tool_capabilities(values: &Option<Vec<String>>) -> (r: Result<(), String>)
    ensures
        problem(r) == optional_words_problem(
            "contributes.aiTools.capabilities"@,
            *values,
            tool_capabilities(),
        ),
{
    let allowed = [
        "command.run",
        "terminal.send",
        "terminal.observe",
        "terminal.wait",
        "filesystem.read",
        "filesystem.write",
        "filesystem.search",
        "navigation.open",
        "state.list",
        "network.forward",
        "settings.read",
        "settings.write",
        "plugin.invoke",
        "mcp.invoke",
    ];
    assert(str_views(allowed@) == tool_capabilities());
    match values {
        Some(values) => validate_each_of("contributes.aiTools.capabilities", values, &allowed),
        None => Ok(()),
    }
}

fn validate_tool_target_kinds(values: &Option<Vec<String>>) -> (r: Result<(), String>)
    ensures
        problem(r) == optional_words_problem(
            "contributes.aiTools.targetKinds"@,
            *values,
            tool_target_kinds(),
        ),
{
    let allowed = [
        "local-shell",
        "ssh-node",
        "terminal-session",
        "sftp-session",
        "ide-workspace",
        "app-tab",
        "mcp-server",
        "rag-index",
    ];
    assert(str_views(allowed@) == tool_target_kinds());
    match values {
        Some(values) => validate_each_of("contributes.aiTools.targetKinds", values, &allowed),
        None => Ok(()),
    }
}

pub open spec fn tool_risk_problem(risk: Option<String>) -> Option<Seq<char>> {
    match risk {
        Some(risk) => one_of_problem("contributes.aiTools.risk"@, risk@, tool_risks()),
        None => None,
    }
}

fn validate_tool_risk(risk: &Option<String>) -> (r: Result<(), String>)
    ensures
        problem(r) == tool_risk_problem(*risk),
{
    let allowed = [
        "read",
        "write-file",
        "execute-command",
        "interactive-input",
        "destructive",
        "network-expose",
        "settings-change",
        "credential-sensitive",
    ];
    assert(str_views(allowed@) == tool_risks());
    match risk {
        Some(risk) => validate_one_of("contributes.aiTools.risk", risk.as_str(), &allowed),
        None => Ok(()),
    }
}

impl Checked for NativePluginAiToolDef {
    open spec fn problem_of(&self) -> Option<Seq<char>> {
        earlier(
            text_field_problem("contributes.aiTools.name"@, self.name@),
            earlier(
                text_field_problem("contributes.aiTools.description"@, self.description@),
                earlier(
                    optional_words_problem(
                        "contributes.aiTools.capabilities"@,
                        self.capabilities,
                        tool_capabilities(),
                    ),
                    earlier(
                        tool_risk_problem(self.risk),
                        optional_words_problem(
                            "contributes.aiTools.targetKinds"@,
                            self.target_kinds,
                            tool_target_kinds(),
                        ),
                    ),
                ),
            ),
        )
    }

    fn check(&self) -> (r: Result<(), String>) {
        match validate_manifest_text_field("contributes.aiTools.name", self.name.as_str()) {
            Err(message) => return Err(message),
            Ok(()) => {},
        }
        match validate_manifest_text_field(
            "contributes.aiTools.description",
            self.description.as_str(),
        ) {
            Err(message) => return Err(message),
            Ok(()) => {},
        }
        match validate_tool_capabilities(&self.capabilities) {
            Err(message) => return Err(message),
            Ok(()) => {},
        }
        match validate_tool_risk(&self.risk) {
            Err(message) => return Err(message),
            Ok(()) => {},
        }
        validate_tool_target_kinds(&self.target_kinds)
    }
}

pub open spec fn api_command_problems(commands: Seq<String>) -> Seq<Option<Seq<char>>> {
    Seq::new(
        commands.len(),
        |i: int| text_field_problem("contributes.apiCommands"@, commands[i]@),
    )
}

fn validate_api_commands(commands: &Vec<String>) -> (r: Result<(), String>)
    ensures
        problem(r) == first_of(api_command_problems(commands@)),
{
    let ghost problems = api_command_problems(commands@);
    let mut i: usize = 0;
    while i < commands.len()
        invariant
            i <= commands.len(),
            problems == api_command_problems(commands@),
            first_of(problems.take(i as int)) is None,
        decreases commands.len() - i,
    {
        match validate_manifest_text_field("contributes.apiCommands", commands[i].as_str()) {
            Err(message) => {
                proof {
                    lemma_first_of_found(problems, i as int);
                }
                return Err(message);
            },
            Ok(()) => {
                proof {
                    lemma_first_of_step(problems, i as int);
                }
            },
        }
        i = i + 1;
    }
    assert(problems.take(i as int) == problems);
    Ok(())
}

/// `Host Tools monitor "ID"` followed by the complaint.
pub open spec fn monitor_message(id: Seq<char>, complaint: Seq<char>) -> Option<Seq<char>> {
    Some("Host Tools monitor \""@ + id + complaint)
}

pub open spec fn monitor_platforms() -> Seq<Seq<char>> {
    seq!["linux"@, "macos"@, "bsd"@, "windows"@, "default"@]
}

/// The problem of one command of a monitor.
pub open spec fn monitor_command_problem(
    id: Seq<char>,
    platform: Seq<char>,
    command: Seq<char>,
) -> Option<Seq<char>> {
    earlier(
        one_of_problem("contributes.hostMonitors.commands"@, platform, monitor_platforms()),
        if trimmed(command).len() == 0 {
            Some(
                "Host Tools monitor \""@ + id + "\" command for \""@ + platform
                    + "\" cannot be empty"@,
            )
        } else if encode_utf8(command).len()
            > NATIVE_PLUGIN_MAX_HOST_MONITOR_COMMAND_BYTES {
            Some(
                "Host Tools monitor \""@ + id + "\" command exceeds "@ + decimal(
                    NATIVE_PLUGIN_MAX_HOST_MONITOR_COMMAND_BYTES as nat,
                ) + " bytes"@,
            )
        } else if command.contains('\0') {
            monitor_message(id, "\" command contains an invalid null byte"@)
        } else {
            None
        },
    )
}

fn validate_monitor_command(id: &str, platform: &str, command: &str) -> (r: Result<(), String>)
    ensures
        problem(r) == monitor_command_problem(id@, platform@, command@),
{
    let allowed = ["linux", "macos", "bsd", "windows", "default"];
    assert(str_views(allowed@) == monitor_platforms());
    match validate_one_of("contributes.hostMonitors.commands", platform, &allowed) {
        Err(message) => return Err(message),
        Ok(()) => {},
    }
    if trim(command).is_empty() {
        return Err(
            concat5(
                "Host Tools monitor \"",
                id,
                "\" command for \"",
                platform,
                "\" cannot be empty",
            ),
        );
    }
    if byte_len(command) > NATIVE_PLUGIN_MAX_HOST_MONITOR_COMMAND_BYTES {
        return Err(
            concat5(
                "Host Tools monitor \"",
                id,
                "\" command exceeds ",
                decimal_text(NATIVE_PLUGIN_MAX_HOST_MONITOR_COMMAND_BYTES as u64).as_str(),
                " bytes",
            ),
        );
    }
    if contains_char(command, '\0') {
        return Err(
            concat3("Host Tools monitor \"", id, "\" command contains an invalid null byte"),
        );
    }
    Ok(())
}

pub open spec fn monitor_command_problems(
    monitor: NativePluginHostMonitorDef,
) -> Seq<Option<Seq<char>>> {
    Seq::new(
        monitor.commands@.len(),
        |i: int|
            monitor_command_problem(
                monitor.id@,
                monitor.commands@[i].0@,
                monitor.commands@[i].1@,
            ),
    )
}

fn validate_monitor_commands(monitor: &NativePluginHostMonitorDef) -> (r: Result<(), String>)
    ensures
        problem(r) == first_of(monitor_command_problems(*monitor)),
{
    let ghost problems = monitor_command_problems(*monitor);
    let mut i: usize = 0;
    while i < monitor.commands.len()
        invariant
            i <= monitor.commands.len(),
            problems == monitor_command_problems(*monitor),
            first_of(problems.take(i as int)) is None,
        decreases monitor.commands.len() - i,
    {
        let entry = &monitor.commands[i];
        match validate_monitor_command(monitor.id.as_str(), entry.0.as_str(), entry.1.as_str()) {
            Err(message) => {
                proof {
                    lemma_first_of_found(problems, i as int);
                }
                return Err(message);
            },
            Ok(()) => {
                proof {
                    lemma_first_of_step(problems, i as int);
                }
            },
        }
        i = i + 1;
    }
    assert(problems.take(i as int) == problems);
    Ok(())
}

/// Whether an earlier column has the name of column `i`.
pub open spec fn repeats_column(columns: Seq<String>, i: int) -> bool {
    exists|j: int| 0 <= j < i && (#[trigger] columns[j])@ == columns[i]@
}

pub open spec fn monitor_column_problem(
    id: Seq<char>,
    columns: Seq<String>,
    i: int,
) -> Option<Seq<char>> {
    earlier(
        text_field_problem("contributes.hostMonitors.output.columns"@, columns[i]@),
        if repeats_column(columns, i) {
            Some(
                "Host Tools monitor \""@ + id + "\" contains duplicate output column \""@
                    + columns[i]@ + "\""@,
            )
        } else {
            None
        },
    )
}

pub open spec fn monitor_column_problems(
    id: Seq<char>,
    columns: Seq<String>,
) -> Seq<Option<Seq<char>>> {
    Seq::new(columns.len(), |i: int| monitor_column_problem(id, columns, i))
}

/// The problem of the columns of a monitor: only tab-separated output has them, from one to the
/// limit, each once and none blank.
pub open spec fn monitor_columns_problem(monitor: NativePluginHostMonitorDef) -> Option<Seq<char>> {
    let columns = monitor.output.columns@;
    if monitor.output.format != NativePluginHostMonitorOutputFormat::Tsv {
        if columns.len() > 0 {
            monitor_message(monitor.id@, "\" output.columns is only valid for tsv output"@)
        } else {
            None
        }
    } else if columns.len() == 0 || columns.len() > NATIVE_PLUGIN_MAX_HOST_MONITOR_COLUMNS {
        Some(
            "Host Tools monitor \""@ + monitor.id@ + "\" tsv output requires 1 to "@ + decimal(
                NATIVE_PLUGIN_MAX_HOST_MONITOR_COLUMNS as nat,
            ) + " columns"@,
        )
    } else {
        first_of(monitor_column_problems(monitor.id@, columns))
    }
}

fn validate_monitor_column(id: &str, columns: &Vec<String>, i: usize) -> (r: Result<(), String>)
    requires
        i < columns.len(),
    ensures
        problem(r) == monitor_column_problem(id@, columns@, i as int),
{
    let column = columns[i].as_str();
    match validate_manifest_text_field("contributes.hostMonitors.output.columns", column) {
        Err(message) => return Err(message),
        Ok(()) => {},
    }
    let mut j: usize = 0;
    while j < i
        invariant
            j <= i < columns.len(),
            column@ == columns@[i as int]@,
            text_field_problem("contributes.hostMonitors.output.columns"@, column@) is None,
            forall|k: int| 0 <= k < j ==> (#[trigger] columns@[k])@ != column@,
        decreases i - j,
    {
        if same(columns[j].as_str(), column) {
            assert(repeats_column(columns@, i as int));
            return Err(
                concat5(
                    "Host Tools monitor \"",
                    id,
                    "\" contains duplicate output column \"",
                    column,
                    "\"",
                ),
            );
        }
        j = j + 1;
    }
    Ok(())
}

pub fn validate_native_plugin_host_monitor_columns(monitor: &NativePluginHostMonitorDef) -> (r:
    Result<(), String>)
    ensures
        problem(r) == monitor_columns_problem(*monitor),
{
    let columns = &monitor.output.columns;
    let id = monitor.id.as_str();
    if monitor.output.format != NativePluginHostMonitorOutputFormat::Tsv {
        if columns.len() > 0 {
            return Err(
                concat3(
                    "Host Tools monitor \"",
                    id,
                    "\" output.columns is only valid for tsv output",
                ),
            );
        }
        return Ok(());
    }
    if columns.len() == 0 || columns.len() > NATIVE_PLUGIN_MAX_HOST_MONITOR_COLUMNS {
        return Err(
            concat5(
                "Host Tools monitor \"",
                id,
                "\" tsv output requires 1 to ",
                decimal_text(NATIVE_PLUGIN_MAX_HOST_MONITOR_COLUMNS as u64).as_str(),
                " columns",
            ),
        );
    }
    let ghost problems = monitor_column_problems(monitor.id@, columns@);
    let mut i: usize = 0;
    while i < columns.len()
        invariant
            i <= columns.len(),
            0 < columns.len() <= NATIVE_PLUGIN_MAX_HOST_MONITOR_COLUMNS,
            *columns == monitor.output.columns,
            monitor.output.format == NativePluginHostMonitorOutputFormat::Tsv,
            id@ == monitor.id@,
            problems == monitor_column_problems(monitor.id@, columns@),
            first_of(problems.take(i as int)) is None,
        decreases columns.len() - i,
    {
        match validate_monitor_column(id, columns, i) {
            Err(message) => {
                proof {
                    lemma_first_of_found(problems, i as int);
                }
                return Err(message);
            },
            Ok(()) => {
                proof {
                    lemma_first_of_step(problems, i as int);
                }
            },
        }
        i = i + 1;
    }
    assert(problems.take(i as int) == problems);
    Ok(())
}

/// Whether an earlier monitor has the id of monitor `i`.
pub open spec fn repeats_monitor_id(monitors: Seq<NativePluginHostMonitorDef>, i: int) -> bool {
    exists|j: int| 0 <= j < i && (#[trigger] monitors[j]).id@ == monitors[i].id@
}

/// The problem of the limits that a monitor asks for.
pub open spec fn monitor_limits_problem(monitor: NativePluginHostMonitorDef) -> Option<Seq<char>> {
    let named = "Host Tools monitor \""@ + monitor.id@;
    if !(1 <= monitor.timeout_seconds <= NATIVE_PLUGIN_MAX_HOST_MONITOR_TIMEOUT_SECONDS) {
        Some(
            named + "\" timeoutSeconds must be between 1 and "@ + decimal(
                NATIVE_PLUGIN_MAX_HOST_MONITOR_TIMEOUT_SECONDS as nat,
            ),
        )
    } else if !(NATIVE_PLUGIN_MIN_HOST_MONITOR_OUTPUT_BYTES <= monitor.max_output_bytes
        <= NATIVE_PLUGIN_MAX_HOST_MONITOR_OUTPUT_BYTES) {
        Some(
            named + "\" maxOutputBytes must be between "@ + decimal(
                NATIVE_PLUGIN_MIN_HOST_MONITOR_OUTPUT_BYTES as nat,
            ) + (" and "@ + decimal(NATIVE_PLUGIN_MAX_HOST_MONITOR_OUTPUT_BYTES as nat)),
        )
    } else if !(1 <= monitor.output.max_rows <= NATIVE_PLUGIN_MAX_HOST_MONITOR_ROWS) {
        Some(
            named + "\" output.maxRows must be between 1 and "@ + decimal(
                NATIVE_PLUGIN_MAX_HOST_MONITOR_ROWS as nat,
            ),
        )
    } else {
        None
    }
}

pub open spec fn host_monitor_problem(
    monitors: Seq<NativePluginHostMonitorDef>,
    i: int,
) -> Option<Seq<char>> {
    let monitor = monitors[i];
    earlier(
        text_field_problem("contributes.hostMonitors.id"@, monitor.id@),
        earlier(
            text_field_problem("contributes.hostMonitors.title"@, monitor.title@),
            if repeats_monitor_id(monitors, i) {
                Some("Duplicate contributes.hostMonitors id \""@ + monitor.id@ + "\""@)
            } else if monitor.commands@.len() == 0 {
                monitor_message(monitor.id@, "\" requires at least one platform command"@)
            } else {
                earlier(
                    first_of(monitor_command_problems(monitor)),
                    earlier(monitor_limits_problem(monitor), monitor_columns_problem(monitor)),
                )
            },
        ),
    )
}

pub open spec fn host_monitor_problems(
    monitors: Seq<NativePluginHostMonitorDef>,
) -> Seq<Option<Seq<char>>> {
    Seq::new(monitors.len(), |i: int| host_monitor_problem(monitors, i))
}

pub open spec fn host_monitors_problem(
    monitors: Seq<NativePluginHostMonitorDef>,
) -> Option<Seq<char>> {
    if monitors.len() > NATIVE_PLUGIN_MAX_HOST_MONITORS {
        Some(
            "Plugin contributes at most "@ + decimal(NATIVE_PLUGIN_MAX_HOST_MONITORS as nat)
                + " Host Tools monitors"@,
        )
    } else {
        first_of(host_monitor_problems(monitors))
    }
}

fn validate_monitor_limits(monitor: &NativePluginHostMonitorDef) -> (r: Result<(), String>)
    ensures
        problem(r) == monitor_limits_problem(*monitor),
{
    let id = monitor.id.as_str();
    if !(1 <= monitor.timeout_seconds && monitor.timeout_seconds
        <= NATIVE_PLUGIN_MAX_HOST_MONITOR_TIMEOUT_SECONDS) {
        return Err(
            concat4(
                "Host Tools monitor \"",
                id,
                "\" timeoutSeconds must be between 1 and ",
                decimal_text(NATIVE_PLUGIN_MAX_HOST_MONITOR_TIMEOUT_SECONDS).as_str(),
            ),
        );
    }
    if !(NATIVE_PLUGIN_MIN_HOST_MONITOR_OUTPUT_BYTES <= monitor.max_output_bytes
        && monitor.max_output_bytes <= NATIVE_PLUGIN_MAX_HOST_MONITOR_OUTPUT_BYTES) {
        let upper = concat2(
            " and ",
            decimal_text(NATIVE_PLUGIN_MAX_HOST_MONITOR_OUTPUT_BYTES as u64).as_str(),
        );
        return Err(
            concat5(
                "Host Tools monitor \"",
                id,
                "\" maxOutputBytes must be between ",
                decimal_text(NATIVE_PLUGIN_MIN_HOST_MONITOR_OUTPUT_BYTES as u64).as_str(),
                upper.as_str(),
            ),
        );
    }
    if !(1 <= monitor.output.max_rows && monitor.output.max_rows
        <= NATIVE_PLUGIN_MAX_HOST_MONITOR_ROWS) {
        return Err(
            concat4(
                "Host Tools monitor \"",
                id,
                "\" output.maxRows must be between 1 and ",
                decimal_text(NATIVE_PLUGIN_MAX_HOST_MONITOR_ROWS as u64).as_str(),
            ),
        );
    }
    Ok(())
}

fn monitor_id_repeats(monitors: &Vec<NativePluginHostMonitorDef>, i: usize) -> (r: bool)
    requires
        i < monitors.len(),
    ensures
        r == repeats_monitor_id(monitors@, i as int),
{
    let mut j: usize = 0;
    while j < i
        invariant
            j <= i < monitors.len(),
            forall|k: int| 0 <= k < j ==> (#[trigger] monitors@[k]).id@ != monitors@[i as int].id@,
        decreases i - j,
    {
        if same(monitors[j].id.as_str(), monitors[i].id.as_str()) {
            return true;
        }
        j = j + 1;
    }
    false
}

fn validate_host_monitor(monitors: &Vec<NativePluginHostMonitorDef>, i: usize) -> (r: Result<
    (),
    String,
>)
    requires
        i < monitors.len(),
    ensures
        problem(r) == host_monitor_problem(monitors@, i as int),
{
    let monitor = &monitors[i];
    match validate_manifest_text_field("contributes.hostMonitors.id", monitor.id.as_str()) {
        Err(message) => return Err(message),
        Ok(()) => {},
    }
    match validate_manifest_text_field("contributes.hostMonitors.title", monitor.title.as_str()) {
        Err(message) => return Err(message),
        Ok(()) => {},
    }
    if monitor_id_repeats(monitors, i) {
        return Err(
            concat3("Duplicate contributes.hostMonitors id \"", monitor.id.as_str(), "\""),
        );
    }
    if monitor.commands.len() == 0 {
        return Err(
            concat3(
                "Host Tools monitor \"",
                monitor.id.as_str(),
                "\" requires at least one platform command",
            ),
        );
    }
    match validate_monitor_commands(monitor) {
        Err(message) => return Err(message),
        Ok(()) => {},
    }
    match validate_monitor_limits(monitor) {
        Err(message) => return Err(message),
        Ok(()) => {},
    }
    validate_native_plugin_host_monitor_columns(monitor)
}

pub fn validate_native_plugin_host_monitors(host_monitors: &Vec<NativePluginHostMonitorDef>) -> (r:
    Result<(), String>)
    ensures
        problem(r) == host_monitors_problem(host_monitors@),
{
    if host_monitors.len() > NATIVE_PLUGIN_MAX_HOST_MONITORS {
        return Err(
            concat3(
                "Plugin contributes at most ",
                decimal_text(NATIVE_PLUGIN_MAX_HOST_MONITORS as u64).as_str(),
                " Host Tools monitors",
            ),
        );
    }
    let ghost problems = host_monitor_problems(host_monitors@);
    let mut i: usize = 0;
    while i < host_monitors.len()
        invariant
            i <= host_monitors.len() <= NATIVE_PLUGIN_MAX_HOST_MONITORS,
            problems == host_monitor_problems(host_monitors@),
            first_of(problems.take(i as int)) is None,
        decreases host_monitors.len() - i,
    {
        match validate_host_monitor(host_monitors, i) {
            Err(message) => {
                proof {
                    lemma_first_of_found(problems, i as int);
                }
                return Err(message);
            },
            Ok(()) => {
                proof {
                    lemma_first_of_step(problems, i as int);
                }
            },
        }
        i = i + 1;
    }
    assert(problems.take(i as int) == problems);
    Ok(())
}

/// The problem of an optional list of definitions.
pub open spec fn optional_list_problem<T: Checked>(items: Option<Vec<T>>) -> Option<Seq<char>> {
    match items {
        Some(items) => first_of(problems_of(items@)),
        None => None,
    }
}

fn check_optional<T: Checked>(items: &Option<Vec<T>>) -> (r: Result<(), String>)
    ensures
        problem(r) == optional_list_problem(*items),
{
    match items {
        Some(items) => check_all(items),
        None => Ok(()),
    }
}

/// The first rule that the contributions break, in the order in which they are read: tabs, panels,
/// activity-bar items, settings, shortcuts, transports, connection hooks, tools, commands, monitors.
pub open spec fn contributions_problem(contributes: NativePluginContributes) -> Option<Seq<char>> {
    earlier(
        optional_list_problem(contributes.tabs),
        earlier(
            optional_list_problem(contributes.sidebar_panels),
            earlier(
                match contributes.activity_bar_items {
                    Some(items) => activity_bar_items_problem(items@),
                    None => None,
                },
                earlier(
                    optional_list_problem(contributes.settings),
                    earlier(
                        match contributes.terminal_hooks {
                            Some(hooks) => optional_list_problem(hooks.shortcuts),
                            None => None,
                        },
                        earlier(
                            optional_words_problem(
                                "contributes.terminalTransports"@,
                                contributes.terminal_transports,
                                seq!["telnet"@],
                            ),
                            earlier(
                                optional_words_problem(
                                    "contributes.connectionHooks"@,
                                    contributes.connection_hooks,
                                    connection_hooks(),
                                ),
                                earlier(
                                    optional_list_problem(contributes.ai_tools),
                                    earlier(
                                        match contributes.api_commands {
                                            Some(commands) => first_of(
                                                api_command_problems(commands@),
                                            ),
                                            None => None,
                                        },
                                        match contributes.host_monitors {
                                            Some(monitors) => host_monitors_problem(monitors@),
                                            None => None,
                                        },
                                    ),
                                ),
                            ),
                        ),
                    ),
                ),
            ),
        ),
    )
}

pub fn validate_native_plugin_contributions(contributes: &NativePluginContributes) -> (r: Result<
    (),
    String,
>)
    ensures
        problem(r) == contributions_problem(*contributes),
{
    match check_optional(&contributes.tabs) {
        Err(message) => return Err(message),
        Ok(()) => {},
    }
    match check_optional(&contributes.sidebar_panels) {
        Err(message) => return Err(message),
        Ok(()) => {},
    }
    if let Some(items) = &contributes.activity_bar_items {
        match validate_activity_bar_items(items) {
            Err(message) => return Err(message),
            Ok(()) => {},
        }
    }
    match check_optional(&contributes.settings) {
        Err(message) => return Err(message),
        Ok(()) => {},
    }
    if let Some(hooks) = &contributes.terminal_hooks {
        match check_optional(&hooks.shortcuts) {
            Err(message) => return Err(message),
            Ok(()) => {},
        }
    }
    if let Some(transports) = &contributes.terminal_transports {
        let allowed = ["telnet"];
        assert(str_views(allowed@) == seq!["telnet"@]);
        match validate_each_of("contributes.terminalTransports", transports, &allowed) {
            Err(message) => return Err(message),
            Ok(()) => {},
        }
    }
    if let Some(hooks) = &contributes.connection_hooks {
        let allowed = ["onConnect", "onDisconnect", "onReconnect", "onLinkDown"];
        assert(str_views(allowed@) == connection_hooks());
        match validate_each_of("contributes.connectionHooks", hooks, &allowed) {
            Err(message) => return Err(message),
            Ok(()) => {},
        }
    }
    match check_optional(&contributes.ai_tools) {
        Err(message) => return Err(message),
        Ok(()) => {},
    }
    if let Some(commands) = &contributes.api_commands {
        match validate_api_commands(commands) {
            Err(message) => return Err(message),
            Ok(()) => {},
        }
    }
    if let Some(monitors) = &contributes.host_monitors {
        match validate_native_plugin_host_monitors(monitors) {
            Err(message) => return Err(message),
            Ok(()) => {},
        }
    }
    Ok(())
}

/// A plugin that contributes nothing breaks no rule.
pub proof fn law_no_contributions_accepted(contributes: NativePluginContributes)
    requires
        contributes.tabs is None && contributes.sidebar_panels is None,
        contributes.activity_bar_items is None && contributes.settings is None,
        contributes.terminal_hooks is None && contributes.terminal_transports is None,
        contributes.connection_hooks is None && contributes.ai_tools is None,
        contributes.api_commands is None && contributes.host_monitors is None,
    ensures
        contributions_problem(contributes) is None,
{
}

proof fn lemma_first_of_none(problems: Seq<Option<Seq<char>>>)
    requires
        first_of(problems) is None,
    ensures
        forall|i: int| 0 <= i < problems.len() ==> (#[trigger] problems[i]) is None,
    decreases problems.len(),
{
    if problems.len() > 0 {
        lemma_first_of_none(problems.drop_last());
        assert forall|i: int| 0 <= i < problems.len() implies (#[trigger] problems[i]) is None by {
            if i < problems.len() - 1 {
                assert(problems[i] == problems.drop_last()[i]);
            }
        }
    }
}

/// In accepted contributions no two activity-bar items and no two host monitors share an id.
pub proof fn law_accepted_ids_are_unique(contributes: NativePluginContributes)
    requires
        contributions_problem(contributes) is None,
    ensures
        contributes.activity_bar_items matches Some(items) ==> forall|i: int, j: int|
            0 <= i < j < items@.len() ==> (#[trigger] items@[i]).id@ != (#[trigger] items@[j]).id@,
        contributes.host_monitors matches Some(monitors) ==> forall|i: int, j: int|
            0 <= i < j < monitors@.len() ==> (#[trigger] monitors@[i]).id@ != (
            #[trigger] monitors@[j]).id@,
{
    if let Some(items) = contributes.activity_bar_items {
        let problems = activity_bar_item_problems(items@);
        lemma_first_of_none(problems);
        assert forall|i: int, j: int| 0 <= i < j < items@.len() implies (#[trigger] items@[i]).id@
            != (#[trigger] items@[j]).id@ by {
            assert(problems[j] is None);
            assert(!repeats_item_id(items@, j));
        }
    }
    if let Some(monitors) = contributes.host_monitors {
        let problems = host_monitor_problems(monitors@);
        lemma_first_of_none(problems);
        assert forall|i: int, j: int| 0 <= i < j < monitors@.len() implies (
        #[trigger] monitors@[i]).id@ != (#[trigger] monitors@[j]).id@ by {
            assert(problems[j] is None);
            assert(!repeats_monitor_id(monitors@, j));
        }
    }
}

/// The words that the fields of contributions may hold, and the limits that they keep.
pub proof fn law_words_and_limits_of_contributions()
    ensures
        positions().len() == 2,
        positions()[0] == "top"@,
        positions()[1] == "bottom"@,
        setting_types().len() == 4,
        setting_types()[0] == "string"@,
        setting_types()[1] == "number"@,
        setting_types()[2] == "boolean"@,
        setting_types()[3] == "select"@,
        connection_hooks().len() == 4,
        connection_hooks()[0] == "onConnect"@,
        connection_hooks()[1] == "onDisconnect"@,
        connection_hooks()[2] == "onReconnect"@,
        connection_hooks()[3] == "onLinkDown"@,
        tool_capabilities().len() == 14,
        tool_capabilities()[0] == "command.run"@,
        tool_capabilities()[1] == "terminal.send"@,
        tool_capabilities()[2] == "terminal.observe"@,
        tool_capabilities()[3] == "terminal.wait"@,
        tool_capabilities()[4] == "filesystem.read"@,
        tool_capabilities()[5] == "filesystem.write"@,
        tool_capabilities()[6] == "filesystem.search"@,
        tool_capabilities()[7] == "navigation.open"@,
        tool_capabilities()[8] == "state.list"@,
        tool_capabilities()[9] == "network.forward"@,
        tool_capabilities()[10] == "settings.read"@,
        tool_capabilities()[11] == "settings.write"@,
        tool_capabilities()[12] == "plugin.invoke"@,
        tool_capabilities()[13] == "mcp.invoke"@,
        tool_risks().len() == 8,
        tool_risks()[0] == "read"@,
        tool_risks()[1] == "write-file"@,
        tool_risks()[2] == "execute-command"@,
        tool_risks()[3] == "interactive-input"@,
        tool_risks()[4] == "destructive"@,
        tool_risks()[5] == "network-expose"@,
        tool_risks()[6] == "settings-change"@,
        tool_risks()[7] == "credential-sensitive"@,
        tool_target_kinds().len() == 8,
        tool_target_kinds()[0] == "local-shell"@,
        tool_target_kinds()[1] == "ssh-node"@,
        tool_target_kinds()[2] == "terminal-session"@,
        tool_target_kinds()[3] == "sftp-session"@,
        tool_target_kinds()[4] == "ide-workspace"@,
        tool_target_kinds()[5] == "app-tab"@,
        tool_target_kinds()[6] == "mcp-server"@,
        tool_target_kinds()[7] == "rag-index"@,
        monitor_platforms().len() == 5,
        monitor_platforms()[0] == "linux"@,
        monitor_platforms()[1] == "macos"@,
        monitor_platforms()[2] == "bsd"@,
        monitor_platforms()[3] == "windows"@,
        monitor_platforms()[4] == "default"@,
        NATIVE_PLUGIN_MAX_ACTIVITY_BAR_ITEMS == 16,
        NATIVE_PLUGIN_MAX_HOST_MONITORS == 16,
        NATIVE_PLUGIN_MAX_HOST_MONITOR_COMMAND_BYTES == 16384,
        NATIVE_PLUGIN_MIN_HOST_MONITOR_OUTPUT_BYTES == 1024,
        NATIVE_PLUGIN_MAX_HOST_MONITOR_OUTPUT_BYTES == 1048576,
        NATIVE_PLUGIN_MAX_HOST_MONITOR_TIMEOUT_SECONDS == 30,
        NATIVE_PLUGIN_MAX_HOST_MONITOR_ROWS == 2000,
        NATIVE_PLUGIN_MAX_HOST_MONITOR_COLUMNS == 64,
{
}

/// A tab, a panel, a shortcut and an option are accepted exactly where their texts are not blank,
/// their place is one that there is, and an option's value is a text or a number.
pub proof fn law_accepted_definitions_are_complete(
    tab: NativePluginTabDef,
    panel: NativePluginSidebarDef,
    shortcut: NativePluginShortcutDef,
    option: NativePluginSettingOption,
)
    ensures
        tab.problem_of() is None <==> trimmed(tab.id@).len() > 0 && trimmed(tab.title@).len() > 0
            && trimmed(tab.icon@).len() > 0,
        panel.problem_of() is None <==> trimmed(panel.id@).len() > 0 && trimmed(panel.title@).len()
            > 0 && trimmed(panel.icon@).len() > 0 && (panel.position@ == "top"@ || panel.position@
            == "bottom"@),
        shortcut.problem_of() is None <==> trimmed(shortcut.key@).len() > 0 && trimmed(
            shortcut.command@,
        ).len() > 0,
        option.problem_of() is None <==> trimmed(option.label@).len() > 0 && (json_view(
            option.value,
        ) is Text || json_view(option.value) is Number),
{
    lemma_positions(panel.position@);
}

proof fn lemma_positions(position: Seq<char>)
    ensures
        positions().contains(position) <==> position == "top"@ || position == "bottom"@,
{
    assert(positions()[0] == "top"@);
    assert(positions()[1] == "bottom"@);
}

/// A definition that is refused is told of by its first field that is wrong.
pub proof fn law_the_first_wrong_field_is_told(
    tab: NativePluginTabDef,
    panel: NativePluginSidebarDef,
)
    ensures
        trimmed(tab.id@).len() == 0 ==> tab.problem_of() == Some(
            "Plugin manifest field \""@ + "contributes.tabs.id"@ + "\" cannot be empty"@,
        ),
        trimmed(tab.id@).len() > 0 && trimmed(tab.title@).len() == 0 ==> tab.problem_of() == Some(
            "Plugin manifest field \""@ + "contributes.tabs.title"@ + "\" cannot be empty"@,
        ),
        trimmed(tab.id@).len() > 0 && trimmed(tab.title@).len() > 0 && trimmed(tab.icon@).len()
            == 0 ==> tab.problem_of() == Some(
            "Plugin manifest field \""@ + "contributes.tabs.icon"@ + "\" cannot be empty"@,
        ),
        trimmed(panel.id@).len() == 0 ==> panel.problem_of() == Some(
            "Plugin manifest field \""@ + "contributes.sidebarPanels.id"@ + "\" cannot be empty"@,
        ),
        trimmed(panel.id@).len() > 0 && trimmed(panel.title@).len() == 0 ==> panel.problem_of()
            == Some(
            "Plugin manifest field \""@ + "contributes.sidebarPanels.title"@
                + "\" cannot be empty"@,
        ),
{
}

/// An activity-bar item is accepted exactly where its texts are not blank, its place is one that
/// there is, and no item before it has its id.
pub proof fn law_accepted_items_are_complete(
    items: Seq<NativePluginActivityBarItemDef>,
    i: int,
    j: int,
)
    ensures
        activity_bar_item_problem(items, i) is None ==> trimmed(items[i].id@).len() > 0 && trimmed(
            items[i].title@,
        ).len() > 0 && trimmed(items[i].icon@).len() > 0 && trimmed(items[i].command@).len() > 0
            && (items[i].position@ == "top"@ || items[i].position@ == "bottom"@),
        activity_bar_item_problem(items, i) is None && 0 <= j < i ==> items[j].id@ != items[i].id@,
        trimmed(items[i].id@).len() > 0 && trimmed(items[i].title@).len() > 0 && trimmed(
            items[i].icon@,
        ).len() > 0 && trimmed(items[i].command@).len() > 0 && (items[i].position@ == "top"@
            || items[i].position@ == "bottom"@) && (forall|k: int|
            0 <= k < i ==> (#[trigger] items[k]).id@ != items[i].id@) ==> activity_bar_item_problem(
            items,
            i,
        ) is None,
        items.len() > 16 ==> activity_bar_items_problem(items) is Some,
        items.len() <= 16 ==> activity_bar_items_problem(items) == first_of(
            activity_bar_item_problems(items),
        ),
{
    lemma_positions(items[i].position@);
}

/// The value of a setting is of the setting's type: a text, a number, a truth value, or one of
/// the options.
pub proof fn law_setting_values_have_their_type(setting: NativePluginSettingDef, value: JsonView)
    ensures
        setting.setting_type@ == "string"@ ==> (setting_value_problem(setting, value) is None
            <==> value is Text),
        setting.setting_type@ == "number"@ ==> (setting_value_problem(setting, value) is None
            <==> value is Number),
        setting.setting_type@ == "boolean"@ ==> (setting_value_problem(setting, value) is None
            <==> value is Bool),
        setting.setting_type@ == "select"@ ==> (setting_value_problem(setting, value) is None
            <==> offers(setting.options, value)),
        setting.setting_type@ != "string"@ && setting.setting_type@ != "number"@
            && setting.setting_type@ != "boolean"@ && setting.setting_type@ != "select"@
            ==> setting_value_problem(setting, value) is Some,
        setting.setting_type@ == "string"@ && !(value is Text) ==> setting_value_problem(
            setting,
            value,
        ) == Some("Plugin setting \""@ + setting.id@ + "\" requires a string"@),
        setting.options is None ==> !offers(setting.options, value),
{
    reveal_strlit("string");
    reveal_strlit("number");
    reveal_strlit("boolean");
    reveal_strlit("select");
    assert("string"@.len() == 6);
    assert("number"@.len() == 6);
    assert("boolean"@.len() == 7);
    assert("select"@.len() == 6);
    assert("string"@[0] == 's');
    assert("number"@[0] == 'n');
    assert("string"@[1] == 't');
    assert("select"@[1] == 'e');
    assert("select"@[0] == 's');
}

/// An option is offered where it is one of those that are listed.
pub proof fn law_listed_options_are_offered(
    options: Vec<NativePluginSettingOption>,
    value: JsonView,
    i: int,
)
    ensures
        0 <= i < options@.len() && json_view(options@[i].value) == value ==> offers(
            Some(options),
            value,
        ),
        (forall|k: int|
            0 <= k < options@.len() ==> json_view((#[trigger] options@[k]).value) != value)
            ==> !offers(Some(options), value),
{
}

/// A setting is accepted only with an id, a title, one of the four types, and a default that is
/// one of its values; a choice needs its options.
pub proof fn law_accepted_settings_are_complete(setting: NativePluginSettingDef)
    requires
        setting.problem_of() is None,
    ensures
        trimmed(setting.id@).len() > 0,
        trimmed(setting.title@).len() > 0,
        setting_types().contains(setting.setting_type@),
        setting_value_problem(setting, json_view(setting.default)) is None,
        setting.setting_type@ == "select"@ ==> setting.options is Some && first_of(
            problems_of(setting.options->0@),
        ) is None,
{
}

/// A tool is accepted only with a name, a description, and known capabilities, risk and targets.
pub proof fn law_accepted_tools_are_known(tool: NativePluginAiToolDef)
    ensures
        tool.problem_of() is None <==> trimmed(tool.name@).len() > 0 && trimmed(
            tool.description@,
        ).len() > 0 && optional_words_problem(
            "contributes.aiTools.capabilities"@,
            tool.capabilities,
            tool_capabilities(),
        ) is None && (tool.risk matches Some(risk) ==> tool_risks().contains(risk@))
            && optional_words_problem(
            "contributes.aiTools.targetKinds"@,
            tool.target_kinds,
            tool_target_kinds(),
        ) is None,
{
}

/// A command of a monitor is accepted exactly where it is for a known system, is not blank, has
/// at most 16384 bytes and has no null in it.
pub proof fn law_accepted_commands_of_monitors(
    id: Seq<char>,
    platform: Seq<char>,
    command: Seq<char>,
)
    ensures
        monitor_command_problem(id, platform, command) is None <==> monitor_platforms().contains(
            platform,
        ) && trimmed(command).len() > 0 && encode_utf8(command).len() <= 16384
            && !command.contains('\0'),
{
}

/// The limits of a monitor: up to 30 seconds, from one kilobyte to one megabyte, up to 2000 rows.
pub proof fn law_monitors_keep_limits(monitor: NativePluginHostMonitorDef)
    ensures
        monitor_limits_problem(monitor) is None <==> 1 <= monitor.timeout_seconds <= 30 && 1024
            <= monitor.max_output_bytes <= 1024 * 1024 && 1 <= monitor.output.max_rows <= 2000,
{
}

/// Columns belong to tab-separated output only, which has from one to 64 of them, each with a
/// name of its own.
pub proof fn law_columns_of_monitors(monitor: NativePluginHostMonitorDef, i: int, j: int)
    ensures
        monitor.output.format != NativePluginHostMonitorOutputFormat::Tsv ==> (
        monitor_columns_problem(monitor) is None <==> monitor.output.columns@.len() == 0),
        monitor.output.format == NativePluginHostMonitorOutputFormat::Tsv
            && monitor_columns_problem(monitor) is None ==> 1 <= monitor.output.columns@.len()
            <= 64,
        monitor_column_problem(monitor.id@, monitor.output.columns@, i) is None ==> trimmed(
            monitor.output.columns@[i]@,
        ).len() > 0 && (0 <= j < i ==> monitor.output.columns@[j]@ != monitor.output.columns@[i]@),
{
}

/// A monitor is accepted exactly where it has an id of its own, a title and a command, and its
/// commands, limits and columns are accepted; there are at most sixteen.
pub proof fn law_accepted_monitors_are_complete(
    monitors: Seq<NativePluginHostMonitorDef>,
    i: int,
)
    ensures
        host_monitor_problem(monitors, i) is None <==> trimmed(monitors[i].id@).len() > 0
            && trimmed(monitors[i].title@).len() > 0 && !repeats_monitor_id(monitors, i)
            && monitors[i].commands@.len() > 0 && first_of(
            monitor_command_problems(monitors[i]),
        ) is None && monitor_limits_problem(monitors[i]) is None && monitor_columns_problem(
            monitors[i],
        ) is None,
        monitors.len() > 16 ==> host_monitors_problem(monitors) is Some,
        monitors.len() <= 16 ==> host_monitors_problem(monitors) == first_of(
            host_monitor_problems(monitors),
        ),
{
}

/// Contributions are accepted exactly where each kind of them is.
pub proof fn law_contributions_are_accepted_in_full(contributes: NativePluginContributes)
    ensures
        contributions_problem(contributes) is None <==> optional_list_problem(contributes.tabs)
            is None && optional_list_problem(contributes.sidebar_panels) is None && (
        contributes.activity_bar_items matches Some(items) ==> activity_bar_items_problem(items@)
            is None) && optional_list_problem(contributes.settings) is None && (
        contributes.terminal_hooks matches Some(hooks) ==> optional_list_problem(hooks.shortcuts)
            is None) && optional_words_problem(
            "contributes.terminalTransports"@,
            contributes.terminal_transports,
            seq!["telnet"@],
        ) is None && optional_words_problem(
            "contributes.connectionHooks"@,
            contributes.connection_hooks,
            connection_hooks(),
        ) is None && optional_list_problem(contributes.ai_tools) is None && (
        contributes.api_commands matches Some(commands) ==> first_of(
            api_command_problems(commands@),
        ) is None) && (contributes.host_monitors matches Some(monitors) ==> host_monitors_problem(
            monitors@,
        ) is None),
        optional_list_problem(contributes.tabs) is Some ==> contributions_problem(contributes)
            == optional_list_problem(contributes.tabs),
{
}

/// The words of a list are each held to those that are allowed.
pub proof fn law_listed_words_are_checked(
    field: Seq<char>,
    values: Vec<String>,
    allowed: Seq<Seq<char>>,
    i: int,
)
    ensures
        optional_words_problem(field, None, allowed) is None,
        (forall|k: int| 0 <= k < values@.len() ==> allowed.contains((#[trigger] values@[k])@))
            ==> optional_words_problem(field, Some(values), allowed) is None,
        0 <= i < values@.len() && !allowed.contains(values@[i]@) ==> optional_words_problem(
            field,
            Some(values),
            allowed,
        ) is Some,
{
    let problems = crate::plugin::rules::each_problems(field, values@, allowed);
    if forall|k: int| 0 <= k < values@.len() ==> allowed.contains((#[trigger] values@[k])@) {
        assert forall|k: int| 0 <= k < problems.len() implies (#[trigger] problems[k]) is None by {
            assert(allowed.contains(values@[k]@));
        }
        crate::plugin::rules::law_the_first_problem_is_told(problems, problems.len() as int);
    }
    if 0 <= i < values@.len() && !allowed.contains(values@[i]@) {
        assert(problems[i] is Some);
        crate::plugin::rules::law_a_problem_is_not_missed(problems, i);
    }
}

/// A value that a setting does not take is told why, with the name of the setting.
pub proof fn law_refused_values_are_told(setting: NativePluginSettingDef, value: JsonView)
    ensures
        ({
            let named = "Plugin setting \""@ + setting.id@;
            let kind = setting.setting_type@;
            let told = setting_value_problem(setting, value);
            &&& kind == "number"@ && !(value is Number) ==> told == Some(
                named + "\" requires a number"@,
            )
            &&& kind == "boolean"@ && !(value is Bool) ==> told == Some(
                named + "\" requires a boolean"@,
            )
            &&& kind == "select"@ && !offers(setting.options, value) ==> told == Some(
                named + "\" requires one of its declared select options"@,
            )
            &&& kind != "string"@ && kind != "number"@ && kind != "boolean"@ && kind != "select"@
                ==> told == Some(named + "\" has unsupported type \""@ + kind + "\""@)
        }),
{
    reveal_strlit("string");
    reveal_strlit("number");
    reveal_strlit("boolean");
    reveal_strlit("select");
    assert("string"@[0] != "number"@[0]);
    assert("string"@[1] != "select"@[1]);
    assert("string"@.len() != "boolean"@.len());
    assert("number"@.len() != "boolean"@.len());
    assert("number"@[0] != "select"@[0]);
    assert("boolean"@.len() != "select"@.len());
}

/// The limits of a monitor that are not kept are told, with the name of the monitor.
pub proof fn law_refused_limits_are_told(monitor: NativePluginHostMonitorDef)
    ensures
        ({
            let named = "Host Tools monitor \""@ + monitor.id@;
            let told = monitor_limits_problem(monitor);
            let time = monitor.timeout_seconds;
            let most = NATIVE_PLUGIN_MAX_HOST_MONITOR_TIMEOUT_SECONDS;
            let size = monitor.max_output_bytes;
            let (low, high) = (
                NATIVE_PLUGIN_MIN_HOST_MONITOR_OUTPUT_BYTES,
                NATIVE_PLUGIN_MAX_HOST_MONITOR_OUTPUT_BYTES,
            );
            let rows = monitor.output.max_rows;
            let last = NATIVE_PLUGIN_MAX_HOST_MONITOR_ROWS;
            &&& time < 1 || time > most ==> told == Some(
                named + "\" timeoutSeconds must be between 1 and "@ + decimal(most as nat),
            )
            &&& 1 <= time <= most && (size < low || size > high) ==> told == Some(
                named + "\" maxOutputBytes must be between "@ + decimal(low as nat) + (" and "@
                    + decimal(high as nat)),
            )
            &&& 1 <= time <= most && low <= size <= high && (rows < 1 || rows > last) ==> told
                == Some(named + "\" output.maxRows must be between 1 and "@ + decimal(last as nat))
            &&& 1 <= time <= most && low <= size <= high && 1 <= rows <= last ==> told is None
        }),
{
}

} // verus!
