//! Plugin identifiers, plugin paths, and the events a runtime can subscribe to.

use crate::json::{
    json_object, json_set, json_text, json_text_member, json_view, opt_str, opt_text, text_member,
    JsonView,
};
use crate::plugin::rules::{one_of_problem, problem, str_views, validate_one_of};
use crate::text::{
    byte_len, chars_of, concat4, contains_below, contains_char, contains_text, find_char, first_at,
    has_below, has_prefix, lemma_first_at, occurs, same, trim, trimmed,
};
use serde_json::Value;
use vstd::prelude::*;
use vstd::string::*;
use vstd::utf8::*;

verus! {

pub const NATIVE_PLUGIN_APP_THEME_CHANGED_EVENT: &'static str = "app.themeChanged";

pub const NATIVE_PLUGIN_APP_SETTINGS_CHANGED_EVENT: &'static str = "app.settingsChanged";

pub const NATIVE_PLUGIN_I18N_LANGUAGE_CHANGED_EVENT: &'static str = "i18n.languageChanged";

pub const NATIVE_PLUGIN_SETTING_CHANGED_EVENT: &'static str = "settings.changed";

pub const NATIVE_PLUGIN_UI_LAYOUT_CHANGED_EVENT: &'static str = "ui.layoutChanged";

pub const NATIVE_PLUGIN_SESSION_TREE_CHANGED_EVENT: &'static str = "sessions.treeChanged";

pub const NATIVE_PLUGIN_SESSION_NODE_STATE_CHANGED_EVENT: &'static str = "sessions.nodeStateChanged";

pub const NATIVE_PLUGIN_EVENT_LOG_ENTRY_EVENT: &'static str = "eventLog.entry";

pub const NATIVE_PLUGIN_FORWARD_SAVED_FORWARDS_CHANGED_EVENT: &'static str = "forward.savedForwardsChanged";

pub const NATIVE_PLUGIN_TRANSFER_PROGRESS_EVENT: &'static str = "transfers.progress";

pub const NATIVE_PLUGIN_TRANSFER_COMPLETE_EVENT: &'static str = "transfers.complete";

pub const NATIVE_PLUGIN_TRANSFER_ERROR_EVENT: &'static str = "transfers.error";

pub const NATIVE_PLUGIN_PROFILER_METRICS_EVENT: &'static str = "profiler.metrics";

pub const NATIVE_PLUGIN_IDE_FILE_OPEN_EVENT: &'static str = "ide.fileOpen";

pub const NATIVE_PLUGIN_IDE_FILE_CLOSE_EVENT: &'static str = "ide.fileClose";

pub const NATIVE_PLUGIN_IDE_ACTIVE_FILE_CHANGED_EVENT: &'static str = "ide.activeFileChanged";

pub const NATIVE_PLUGIN_AI_MESSAGE_EVENT: &'static str = "ai.message";

pub const NATIVE_PLUGIN_LIFECYCLE_CONNECT_EVENT: &'static str = "lifecycle.connect";

pub const NATIVE_PLUGIN_LIFECYCLE_DISCONNECT_EVENT: &'static str = "lifecycle.disconnect";

pub const NATIVE_PLUGIN_LIFECYCLE_LINK_DOWN_EVENT: &'static str = "lifecycle.linkDown";

pub const NATIVE_PLUGIN_LIFECYCLE_RECONNECT_EVENT: &'static str = "lifecycle.reconnect";

/// The problem of a plugin id.
pub open spec fn plugin_id_problem(id: Seq<char>) -> Option<Seq<char>> {
    if id.len() == 0 {
        Some("Plugin ID cannot be empty"@)
    } else if occurs(id, ".."@) {
        Some("Plugin ID cannot contain path traversal (..)"@)
    } else if id.contains('/') || id.contains('\\') {
        Some("Plugin ID cannot contain path separators"@)
    } else if has_below(id, 0x20) {
        Some("Plugin ID contains invalid characters"@)
    } else {
        None
    }
}

pub fn validate_native_plugin_id(plugin_id: &str) -> (r: Result<(), String>)
    ensures
        problem(r) == plugin_id_problem(plugin_id@),
{
    if plugin_id.is_empty() {
        return Err("Plugin ID cannot be empty".to_owned());
    }
    if contains_text(plugin_id, "..") {
        return Err("Plugin ID cannot contain path traversal (..)".to_owned());
    }
    if contains_char(plugin_id, '/') || contains_char(plugin_id, '\\') {
        return Err("Plugin ID cannot contain path separators".to_owned());
    }
    if contains_below(plugin_id, 0x20) {
        return Err("Plugin ID contains invalid characters".to_owned());
    }
    Ok(())
}

pub open spec fn is_separator(c: char) -> bool {
    c == '/' || c == '\\'
}

/// Whether `..` stands as a component of its own at position `i`.
pub open spec fn parent_step_at(path: Seq<char>, i: int) -> bool {
    &&& 0 <= i && i + 2 <= path.len()
    &&& path[i] == '.' && path[i + 1] == '.'
    &&& i == 0 || is_separator(path[i - 1])
    &&& i + 2 == path.len() || is_separator(path[i + 2])
}

/// Whether one component of the path is `..`.
pub open spec fn has_parent_step(path: Seq<char>) -> bool {
    exists|i: int| parent_step_at(path, i)
}

/// The problem of a path inside the plugin directory.
pub open spec fn relative_path_problem(path: Seq<char>) -> Option<Seq<char>> {
    if trimmed(path).len() == 0 {
        Some("Plugin relative path cannot be empty"@)
    } else if is_separator(path[0]) {
        Some("Absolute plugin paths are not allowed"@)
    } else if has_parent_step(path) {
        Some("Plugin paths cannot escape the plugin directory"@)
    } else {
        None
    }
}

fn separator(c: char) -> (r: bool)
    ensures
        r == is_separator(c),
{
    c == '/' || c == '\\'
}

fn steps_up(path: &str) -> (r: bool)
    ensures
        r == has_parent_step(path@),
{
    let all = chars_of(path);
    let mut i: usize = 0;
    while i < all.len()
        invariant
            i <= all.len(),
            all@ == path@,
            forall|j: int| 0 <= j < i ==> !parent_step_at(path@, j),
        decreases all.len() - i,
    {
        if all.len() - i >= 2 && all[i] == '.' && all[i + 1] == '.' && (i == 0 || separator(
            all[i - 1],
        )) && (all.len() - i == 2 || separator(all[i + 2])) {
            assert(parent_step_at(path@, i as int));
            return true;
        }
        i = i + 1;
    }
    false
}

pub fn validate_plugin_relative_path(relative_path: &str) -> (r: Result<(), String>)
    ensures
        problem(r) == relative_path_problem(relative_path@),
{
    proof {
        lemma_trimmed_of_empty(relative_path@);
    }
    if trim(relative_path).is_empty() {
        return Err("Plugin relative path cannot be empty".to_owned());
    }
    if separator(relative_path.get_char(0)) {
        return Err("Absolute plugin paths are not allowed".to_owned());
    }
    if steps_up(relative_path) {
        return Err("Plugin paths cannot escape the plugin directory".to_owned());
    }
    Ok(())
}

proof fn lemma_trimmed_of_empty(s: Seq<char>)
    ensures
        s.len() == 0 ==> trimmed(s).len() == 0,
{
}

/// An accepted path is relative and no component of it leads upwards.
pub proof fn law_accepted_path_stays_inside(path: Seq<char>)
    requires
        relative_path_problem(path) is None,
    ensures
        path.len() > 0,
        !is_separator(path[0]),
        forall|i: int| !parent_step_at(path, i),
{
    lemma_trimmed_of_empty(path);
}

/// Whether some character is a space, an asterisk or below the space.
pub open spec fn has_event_breaker(name: Seq<char>) -> bool {
    has_below(name, 0x20) || name.contains('*') || name.contains(' ')
}

/// The problem of the name of a custom event.
pub open spec fn event_name_problem(name: Seq<char>) -> Option<Seq<char>> {
    if trimmed(name).len() == 0 {
        Some("Plugin event name cannot be empty"@)
    } else if encode_utf8(name).len() > 128 {
        Some("Plugin event name is too long"@)
    } else if occurs(name, ".."@) || name.contains('/') || name.contains('\\') {
        Some("Plugin event name cannot contain path separators or traversal"@)
    } else if has_event_breaker(name) {
        Some("Plugin event name contains invalid characters"@)
    } else {
        None
    }
}

pub fn validate_plugin_event_name(event_name: &str) -> (r: Result<(), String>)
    ensures
        problem(r) == event_name_problem(event_name@),
{
    if trim(event_name).is_empty() {
        return Err("Plugin event name cannot be empty".to_owned());
    }
    if byte_len(event_name) > 128 {
        return Err("Plugin event name is too long".to_owned());
    }
    if contains_text(event_name, "..") || contains_char(event_name, '/') || contains_char(
        event_name,
        '\\',
    ) {
        return Err("Plugin event name cannot contain path separators or traversal".to_owned());
    }
    if contains_below(event_name, 0x20) || contains_char(event_name, '*') || contains_char(
        event_name,
        ' ',
    ) {
        return Err("Plugin event name contains invalid characters".to_owned());
    }
    Ok(())
}

/// A text, or the message of an error.
pub open spec fn text_result(r: Result<String, String>) -> Result<Seq<char>, Seq<char>> {
    match r {
        Ok(text) => Ok(text@),
        Err(message) => Err(message@),
    }
}

/// The key under which the host keeps a custom event of a plugin.
pub open spec fn custom_event_key(owner: Seq<char>, name: Seq<char>) -> Result<
    Seq<char>,
    Seq<char>,
> {
    match plugin_id_problem(owner) {
        Some(message) => Err(message),
        None => match event_name_problem(name) {
            Some(message) => Err(message),
            None => Ok("plugin."@ + owner + ":"@ + name),
        },
    }
}

pub fn native_plugin_custom_event_key_checked(owner_plugin_id: &str, event_name: &str) -> (r:
    Result<String, String>)
    ensures
        text_result(r) == custom_event_key(owner_plugin_id@, event_name@),
{
    match validate_native_plugin_id(owner_plugin_id) {
        Err(message) => return Err(message),
        Ok(()) => {},
    }
    match validate_plugin_event_name(event_name) {
        Err(message) => return Err(message),
        Ok(()) => {},
    }
    Ok(concat4("plugin.", owner_plugin_id, ":", event_name))
}

pub fn native_plugin_custom_event_key(owner_plugin_id: &str, event_name: &str) -> (r: Result<
    String,
    String,
>)
    ensures
        text_result(r) == custom_event_key(owner_plugin_id@, event_name@),
{
    native_plugin_custom_event_key_checked(owner_plugin_id, event_name)
}

/// The owner and the name that an event key holds: they are parted by its first colon.
pub open spec fn event_key_parts(key: Seq<char>) -> Option<(Seq<char>, Seq<char>)> {
    if "plugin."@.is_prefix_of(key) {
        let rest = key.skip("plugin."@.len() as int);
        let colon = first_at(rest, ':') as int;
        if colon < rest.len() {
            Some((rest.take(colon), rest.skip(colon + 1)))
        } else {
            None
        }
    } else {
        None
    }
}

/// The problem of an event key.
pub open spec fn event_key_problem(key: Seq<char>) -> Option<Seq<char>> {
    if !"plugin."@.is_prefix_of(key) {
        Some("Plugin event key must start with plugin."@)
    } else {
        match event_key_parts(key) {
            None => Some("Plugin event key requires owner plugin id and event name"@),
            Some(parts) => match custom_event_key(parts.0, parts.1) {
                Err(message) => Some(message),
                Ok(_) => None,
            },
        }
    }
}

pub fn validate_plugin_event_key(event_key: &str) -> (r: Result<(), String>)
    ensures
        problem(r) == event_key_problem(event_key@),
{
    if !has_prefix(event_key, "plugin.") {
        return Err("Plugin event key must start with plugin.".to_owned());
    }
    proof {
        reveal_strlit("plugin.");
    }
    let total: usize = event_key.unicode_len();
    let rest = event_key.substring_char(7, total);
    assert(rest@ == event_key@.skip(7));
    match find_char(rest, ':') {
        None => Err("Plugin event key requires owner plugin id and event name".to_owned()),
        Some(colon) => {
            let owner = rest.substring_char(0, colon);
            let name = rest.substring_char(colon + 1, total - 7);
            assert(owner@ == rest@.take(colon as int));
            assert(name@ == rest@.skip(colon + 1));
            match native_plugin_custom_event_key(owner, name) {
                Ok(_) => Ok(()),
                Err(message) => Err(message),
            }
        },
    }
}

/// An event key reads back as its owner and its name, and is accepted, where the owner has no
/// colon of its own.
pub proof fn law_event_key_round_trip(owner: Seq<char>, name: Seq<char>)
    requires
        custom_event_key(owner, name) is Ok,
        !owner.contains(':'),
    ensures
        event_key_parts(custom_event_key(owner, name)->Ok_0) == Some((owner, name)),
        event_key_problem(custom_event_key(owner, name)->Ok_0) is None,
{
    let key = "plugin."@ + owner + ":"@ + name;
    reveal_strlit("plugin.");
    reveal_strlit(":");
    let rest = key.skip(7);
    assert(rest == owner + ":"@ + name);
    assert(key.subrange(0, 7) == "plugin."@);
    assert(rest[owner.len() as int] == ':');
    assert forall|j: int| 0 <= j < owner.len() implies rest[j] != ':' by {
        assert(owner.contains(owner[j]));
    }
    lemma_first_at(rest, ':', owner.len() as int);
    assert(rest.take(owner.len() as int) == owner);
    assert(rest.skip(owner.len() as int + 1) == name);
}

/// The text under `key` of the metadata of a registration.
pub fn runtime_metadata_string(metadata: &Value, key: &str) -> (r: Option<String>)
    ensures
        opt_text(r) == text_member(json_view(*metadata), key@),
{
    json_text_member(metadata, key)
}

/// The filter that keeps the events of one node, where the metadata names one.
pub fn runtime_metadata_node_filter(metadata: &Value) -> (r: Option<Value>)
    ensures
        match text_member(json_view(*metadata), "nodeId"@) {
            Some(node) => r is Some && json_view(r->0) == JsonView::Object(
                Map::<Seq<char>, JsonView>::empty().insert("nodeId"@, JsonView::Text(node)),
            ),
            None => r is None,
        },
{
    match runtime_metadata_string(metadata, "nodeId") {
        Some(node) => {
            let mut filter = json_object();
            json_set(&mut filter, "nodeId", json_text(node));
            Some(filter)
        },
        None => None,
    }
}

/// The events that a runtime can subscribe to.
pub open spec fn subscription_events() -> Seq<Seq<char>> {
    seq![
        NATIVE_PLUGIN_APP_THEME_CHANGED_EVENT@,
        NATIVE_PLUGIN_APP_SETTINGS_CHANGED_EVENT@,
        NATIVE_PLUGIN_I18N_LANGUAGE_CHANGED_EVENT@,
        NATIVE_PLUGIN_SETTING_CHANGED_EVENT@,
        NATIVE_PLUGIN_UI_LAYOUT_CHANGED_EVENT@,
        NATIVE_PLUGIN_SESSION_TREE_CHANGED_EVENT@,
        NATIVE_PLUGIN_SESSION_NODE_STATE_CHANGED_EVENT@,
        NATIVE_PLUGIN_EVENT_LOG_ENTRY_EVENT@,
        NATIVE_PLUGIN_FORWARD_SAVED_FORWARDS_CHANGED_EVENT@,
        NATIVE_PLUGIN_TRANSFER_PROGRESS_EVENT@,
        NATIVE_PLUGIN_TRANSFER_COMPLETE_EVENT@,
        NATIVE_PLUGIN_TRANSFER_ERROR_EVENT@,
        NATIVE_PLUGIN_PROFILER_METRICS_EVENT@,
        NATIVE_PLUGIN_IDE_FILE_OPEN_EVENT@,
        NATIVE_PLUGIN_IDE_FILE_CLOSE_EVENT@,
        NATIVE_PLUGIN_IDE_ACTIVE_FILE_CHANGED_EVENT@,
        NATIVE_PLUGIN_AI_MESSAGE_EVENT@,
        NATIVE_PLUGIN_LIFECYCLE_CONNECT_EVENT@,
        NATIVE_PLUGIN_LIFECYCLE_DISCONNECT_EVENT@,
        NATIVE_PLUGIN_LIFECYCLE_LINK_DOWN_EVENT@,
        NATIVE_PLUGIN_LIFECYCLE_RECONNECT_EVENT@,
    ]
}

fn validate_subscription_event(event: &str) -> (r: Result<(), String>)
    ensures
        problem(r) == one_of_problem(
            "runtime.eventSubscription.event"@,
            event@,
            subscription_events(),
        ),
{
    let events = [
        NATIVE_PLUGIN_APP_THEME_CHANGED_EVENT,
        NATIVE_PLUGIN_APP_SETTINGS_CHANGED_EVENT,
        NATIVE_PLUGIN_I18N_LANGUAGE_CHANGED_EVENT,
        NATIVE_PLUGIN_SETTING_CHANGED_EVENT,
        NATIVE_PLUGIN_UI_LAYOUT_CHANGED_EVENT,
        NATIVE_PLUGIN_SESSION_TREE_CHANGED_EVENT,
        NATIVE_PLUGIN_SESSION_NODE_STATE_CHANGED_EVENT,
        NATIVE_PLUGIN_EVENT_LOG_ENTRY_EVENT,
        NATIVE_PLUGIN_FORWARD_SAVED_FORWARDS_CHANGED_EVENT,
        NATIVE_PLUGIN_TRANSFER_PROGRESS_EVENT,
        NATIVE_PLUGIN_TRANSFER_COMPLETE_EVENT,
        NATIVE_PLUGIN_TRANSFER_ERROR_EVENT,
        NATIVE_PLUGIN_PROFILER_METRICS_EVENT,
        NATIVE_PLUGIN_IDE_FILE_OPEN_EVENT,
        NATIVE_PLUGIN_IDE_FILE_CLOSE_EVENT,
        NATIVE_PLUGIN_IDE_ACTIVE_FILE_CHANGED_EVENT,
        NATIVE_PLUGIN_AI_MESSAGE_EVENT,
        NATIVE_PLUGIN_LIFECYCLE_CONNECT_EVENT,
        NATIVE_PLUGIN_LIFECYCLE_DISCONNECT_EVENT,
        NATIVE_PLUGIN_LIFECYCLE_LINK_DOWN_EVENT,
        NATIVE_PLUGIN_LIFECYCLE_RECONNECT_EVENT,
    ];
    assert(str_views(events@) == subscription_events());
    validate_one_of("runtime.eventSubscription.event", event, &events)
}

/// The event that stands for a callback registration of the script interface.
pub open spec fn method_event(namespace: Seq<char>, method: Seq<char>) -> Option<Seq<char>> {
    if namespace == "app"@ && method == "onThemeChange"@ {
        Some(NATIVE_PLUGIN_APP_THEME_CHANGED_EVENT@)
    } else if namespace == "app"@ && method == "onSettingsChange"@ {
        Some(NATIVE_PLUGIN_APP_SETTINGS_CHANGED_EVENT@)
    } else if namespace == "i18n"@ && method == "onLanguageChange"@ {
        Some(NATIVE_PLUGIN_I18N_LANGUAGE_CHANGED_EVENT@)
    } else if namespace == "settings"@ && method == "onChange"@ {
        Some(NATIVE_PLUGIN_SETTING_CHANGED_EVENT@)
    } else if namespace == "ui"@ && method == "onLayoutChange"@ {
        Some(NATIVE_PLUGIN_UI_LAYOUT_CHANGED_EVENT@)
    } else if namespace == "sessions"@ && method == "onTreeChange"@ {
        Some(NATIVE_PLUGIN_SESSION_TREE_CHANGED_EVENT@)
    } else if namespace == "sessions"@ && method == "onNodeStateChange"@ {
        Some(NATIVE_PLUGIN_SESSION_NODE_STATE_CHANGED_EVENT@)
    } else if namespace == "eventLog"@ && method == "onEntry"@ {
        Some(NATIVE_PLUGIN_EVENT_LOG_ENTRY_EVENT@)
    } else if namespace == "forward"@ && method == "onSavedForwardsChange"@ {
        Some(NATIVE_PLUGIN_FORWARD_SAVED_FORWARDS_CHANGED_EVENT@)
    } else if namespace == "transfers"@ && method == "onProgress"@ {
        Some(NATIVE_PLUGIN_TRANSFER_PROGRESS_EVENT@)
    } else if namespace == "transfers"@ && method == "onComplete"@ {
        Some(NATIVE_PLUGIN_TRANSFER_COMPLETE_EVENT@)
    } else if namespace == "transfers"@ && method == "onError"@ {
        Some(NATIVE_PLUGIN_TRANSFER_ERROR_EVENT@)
    } else if namespace == "profiler"@ && method == "onMetrics"@ {
        Some(NATIVE_PLUGIN_PROFILER_METRICS_EVENT@)
    } else if namespace == "ide"@ && method == "onFileOpen"@ {
        Some(NATIVE_PLUGIN_IDE_FILE_OPEN_EVENT@)
    } else if namespace == "ide"@ && method == "onFileClose"@ {
        Some(NATIVE_PLUGIN_IDE_FILE_CLOSE_EVENT@)
    } else if namespace == "ide"@ && method == "onActiveFileChange"@ {
        Some(NATIVE_PLUGIN_IDE_ACTIVE_FILE_CHANGED_EVENT@)
    } else if namespace == "ai"@ && method == "onMessage"@ {
        Some(NATIVE_PLUGIN_AI_MESSAGE_EVENT@)
    } else if namespace == "events"@ && method == "onConnect"@ {
        Some(NATIVE_PLUGIN_LIFECYCLE_CONNECT_EVENT@)
    } else if namespace == "events"@ && method == "onDisconnect"@ {
        Some(NATIVE_PLUGIN_LIFECYCLE_DISCONNECT_EVENT@)
    } else if namespace == "events"@ && method == "onLinkDown"@ {
        Some(NATIVE_PLUGIN_LIFECYCLE_LINK_DOWN_EVENT@)
    } else if namespace == "events"@ && method == "onReconnect"@ {
        Some(NATIVE_PLUGIN_LIFECYCLE_RECONNECT_EVENT@)
    } else {
        None
    }
}

fn event_of_method(namespace: &str, method: &str) -> (r: Option<&'static str>)
    ensures
        opt_str(r) == method_event(namespace@, method@),
{
    if same(namespace, "app") && same(method, "onThemeChange") {
        Some(NATIVE_PLUGIN_APP_THEME_CHANGED_EVENT)
    } else if same(namespace, "app") && same(method, "onSettingsChange") {
        Some(NATIVE_PLUGIN_APP_SETTINGS_CHANGED_EVENT)
    } else if same(namespace, "i18n") && same(method, "onLanguageChange") {
        Some(NATIVE_PLUGIN_I18N_LANGUAGE_CHANGED_EVENT)
    } else if same(namespace, "settings") && same(method, "onChange") {
        Some(NATIVE_PLUGIN_SETTING_CHANGED_EVENT)
    } else if same(namespace, "ui") && same(method, "onLayoutChange") {
        Some(NATIVE_PLUGIN_UI_LAYOUT_CHANGED_EVENT)
    } else if same(namespace, "sessions") && same(method, "onTreeChange") {
        Some(NATIVE_PLUGIN_SESSION_TREE_CHANGED_EVENT)
    } else if same(namespace, "sessions") && same(method, "onNodeStateChange") {
        Some(NATIVE_PLUGIN_SESSION_NODE_STATE_CHANGED_EVENT)
    } else if same(namespace, "eventLog") && same(method, "onEntry") {
        Some(NATIVE_PLUGIN_EVENT_LOG_ENTRY_EVENT)
    } else if same(namespace, "forward") && same(method, "onSavedForwardsChange") {
        Some(NATIVE_PLUGIN_FORWARD_SAVED_FORWARDS_CHANGED_EVENT)
    } else if same(namespace, "transfers") && same(method, "onProgress") {
        Some(NATIVE_PLUGIN_TRANSFER_PROGRESS_EVENT)
    } else if same(namespace, "transfers") && same(method, "onComplete") {
        Some(NATIVE_PLUGIN_TRANSFER_COMPLETE_EVENT)
    } else if same(namespace, "transfers") && same(method, "onError") {
        Some(NATIVE_PLUGIN_TRANSFER_ERROR_EVENT)
    } else if same(namespace, "profiler") && same(method, "onMetrics") {
        Some(NATIVE_PLUGIN_PROFILER_METRICS_EVENT)
    } else if same(namespace, "ide") && same(method, "onFileOpen") {
        Some(NATIVE_PLUGIN_IDE_FILE_OPEN_EVENT)
    } else if same(namespace, "ide") && same(method, "onFileClose") {
        Some(NATIVE_PLUGIN_IDE_FILE_CLOSE_EVENT)
    } else if same(namespace, "ide") && same(method, "onActiveFileChange") {
        Some(NATIVE_PLUGIN_IDE_ACTIVE_FILE_CHANGED_EVENT)
    } else if same(namespace, "ai") && same(method, "onMessage") {
        Some(NATIVE_PLUGIN_AI_MESSAGE_EVENT)
    } else if same(namespace, "events") && same(method, "onConnect") {
        Some(NATIVE_PLUGIN_LIFECYCLE_CONNECT_EVENT)
    } else if same(namespace, "events") && same(method, "onDisconnect") {
        Some(NATIVE_PLUGIN_LIFECYCLE_DISCONNECT_EVENT)
    } else if same(namespace, "events") && same(method, "onLinkDown") {
        Some(NATIVE_PLUGIN_LIFECYCLE_LINK_DOWN_EVENT)
    } else if same(namespace, "events") && same(method, "onReconnect") {
        Some(NATIVE_PLUGIN_LIFECYCLE_RECONNECT_EVENT)
    } else {
        None
    }
}

/// The event that the namespace and the method of the metadata stand for.
pub open spec fn metadata_method_event(view: JsonView) -> Option<Seq<char>> {
    match (text_member(view, "namespace"@), text_member(view, "method"@)) {
        (Some(namespace), Some(method)) => method_event(namespace, method),
        _ => None,
    }
}

pub fn runtime_subscription_event_from_method(metadata: &Value) -> (r: Option<String>)
    ensures
        opt_text(r) == metadata_method_event(json_view(*metadata)),
{
    match runtime_metadata_string(metadata, "namespace") {
        Some(namespace) => match runtime_metadata_string(metadata, "method") {
            Some(method) => match event_of_method(namespace.as_str(), method.as_str()) {
                Some(event) => Some(event.to_owned()),
                None => None,
            },
            None => None,
        },
        None => None,
    }
}

/// The first of two texts that is there.
pub open spec fn either_text(a: Option<Seq<char>>, b: Option<Seq<char>>) -> Option<Seq<char>> {
    if a is Some {
        a
    } else {
        b
    }
}

/// The event that a subscription resolves to: `events.on` names a custom event of a plugin, the
/// subscriber where no owner is given; other subscriptions name an event or a callback method.
pub open spec fn subscription_event(view: JsonView, subscriber: Seq<char>) -> Result<
    Seq<char>,
    Seq<char>,
> {
    if text_member(view, "namespace"@) == Some("events"@) && text_member(view, "method"@) == Some(
        "on"@,
    ) {
        match either_text(text_member(view, "name"@), text_member(view, "event"@)) {
            None => Err("Runtime events.on subscription requires metadata.name"@),
            Some(name) => custom_event_key(
                match either_text(text_member(view, "pluginId"@), text_member(view, "ownerPluginId"@)) {
                    Some(owner) => owner,
                    None => subscriber,
                },
                name,
            ),
        }
    } else {
        match either_text(text_member(view, "event"@), metadata_method_event(view)) {
            None => Err(
                "Runtime event subscription requires metadata.event or metadata.namespace/method"@,
            ),
            Some(event) => if "plugin."@.is_prefix_of(event) {
                match event_key_problem(event) {
                    Some(message) => Err(message),
                    None => Ok(event),
                }
            } else {
                match one_of_problem(
                    "runtime.eventSubscription.event"@,
                    event,
                    subscription_events(),
                ) {
                    Some(message) => Err(message),
                    None => Ok(event),
                }
            },
        }
    }
}

fn text_is(text: &Option<String>, word: &str) -> (r: bool)
    ensures
        r == (opt_text(*text) == Some(word@)),
{
    match text {
        Some(text) => same(text.as_str(), word),
        None => false,
    }
}

fn first_member(metadata: &Value, key: &str, other: &str) -> (r: Option<String>)
    ensures
        opt_text(r) == either_text(
            text_member(json_view(*metadata), key@),
            text_member(json_view(*metadata), other@),
        ),
{
    match runtime_metadata_string(metadata, key) {
        Some(text) => Some(text),
        None => runtime_metadata_string(metadata, other),
    }
}

pub fn runtime_subscription_event(metadata: &Value, subscriber_plugin_id: &str) -> (r: Result<
    String,
    String,
>)
    ensures
        text_result(r) == subscription_event(json_view(*metadata), subscriber_plugin_id@),
{
    let namespace = runtime_metadata_string(metadata, "namespace");
    let method = runtime_metadata_string(metadata, "method");
    if text_is(&namespace, "events") && text_is(&method, "on") {
        return match first_member(metadata, "name", "event") {
            None => Err("Runtime events.on subscription requires metadata.name".to_owned()),
            Some(name) => match first_member(metadata, "pluginId", "ownerPluginId") {
                Some(owner) => native_plugin_custom_event_key(owner.as_str(), name.as_str()),
                None => native_plugin_custom_event_key(subscriber_plugin_id, name.as_str()),
            },
        };
    }
    let named = match runtime_metadata_string(metadata, "event") {
        Some(event) => Some(event),
        None => runtime_subscription_event_from_method(metadata),
    };
    match named {
        None => Err(
            "Runtime event subscription requires metadata.event or metadata.namespace/method".to_owned(),
        ),
        Some(event) => {
            if has_prefix(event.as_str(), "plugin.") {
                match validate_plugin_event_key(event.as_str()) {
                    Err(message) => Err(message),
                    Ok(()) => Ok(event),
                }
            } else {
                match validate_subscription_event(event.as_str()) {
                    Err(message) => Err(message),
                    Ok(()) => Ok(event),
                }
            }
        },
    }
}

/// Resolves runtime subscription metadata to the stable event name used by the host.
pub fn native_plugin_runtime_subscription_event(metadata: &Value, subscriber_plugin_id: &str) -> (r:
    Result<String, String>)
    ensures
        text_result(r) == subscription_event(json_view(*metadata), subscriber_plugin_id@),
{
    runtime_subscription_event(metadata, subscriber_plugin_id)
}

/// Each callback of the script interface stands for an event of its own.
pub proof fn law_callbacks_stand_for_events()
    ensures
        method_event("app"@, "onThemeChange"@) == Some("app.themeChanged"@),
        method_event("app"@, "onSettingsChange"@) == Some("app.settingsChanged"@),
        method_event("i18n"@, "onLanguageChange"@) == Some("i18n.languageChanged"@),
        method_event("settings"@, "onChange"@) == Some("settings.changed"@),
        method_event("ui"@, "onLayoutChange"@) == Some("ui.layoutChanged"@),
        method_event("sessions"@, "onTreeChange"@) == Some("sessions.treeChanged"@),
        method_event("sessions"@, "onNodeStateChange"@) == Some("sessions.nodeStateChanged"@),
        method_event("eventLog"@, "onEntry"@) == Some("eventLog.entry"@),
        method_event("forward"@, "onSavedForwardsChange"@) == Some("forward.savedForwardsChanged"@),
        method_event("transfers"@, "onProgress"@) == Some("transfers.progress"@),
        method_event("transfers"@, "onComplete"@) == Some("transfers.complete"@),
        method_event("transfers"@, "onError"@) == Some("transfers.error"@),
        method_event("profiler"@, "onMetrics"@) == Some("profiler.metrics"@),
        method_event("ide"@, "onFileOpen"@) == Some("ide.fileOpen"@),
        method_event("ide"@, "onFileClose"@) == Some("ide.fileClose"@),
        method_event("ide"@, "onActiveFileChange"@) == Some("ide.activeFileChanged"@),
        method_event("ai"@, "onMessage"@) == Some("ai.message"@),
        method_event("events"@, "onConnect"@) == Some("lifecycle.connect"@),
        method_event("events"@, "onDisconnect"@) == Some("lifecycle.disconnect"@),
        method_event("events"@, "onLinkDown"@) == Some("lifecycle.linkDown"@),
        method_event("events"@, "onReconnect"@) == Some("lifecycle.reconnect"@),
{
    reveal_strlit("app");
    reveal_strlit("onThemeChange");
    reveal_strlit("onSettingsChange");
    reveal_strlit("i18n");
    reveal_strlit("onLanguageChange");
    reveal_strlit("settings");
    reveal_strlit("onChange");
    reveal_strlit("ui");
    reveal_strlit("onLayoutChange");
    reveal_strlit("sessions");
    reveal_strlit("onTreeChange");
    reveal_strlit("onNodeStateChange");
    reveal_strlit("eventLog");
    reveal_strlit("onEntry");
    reveal_strlit("forward");
    reveal_strlit("onSavedForwardsChange");
    reveal_strlit("transfers");
    reveal_strlit("onProgress");
    reveal_strlit("onComplete");
    reveal_strlit("onError");
    reveal_strlit("profiler");
    reveal_strlit("onMetrics");
    reveal_strlit("ide");
    reveal_strlit("onFileOpen");
    reveal_strlit("onFileClose");
    reveal_strlit("onActiveFileChange");
    reveal_strlit("ai");
    reveal_strlit("onMessage");
    reveal_strlit("events");
    reveal_strlit("onConnect");
    reveal_strlit("onDisconnect");
    reveal_strlit("onLinkDown");
    reveal_strlit("onReconnect");
    assert("app"@.len() == 3);
    assert("i18n"@.len() == 4);
    assert("settings"@.len() == 8);
    assert("ui"@.len() == 2);
    assert("sessions"@.len() == 8);
    assert("eventLog"@.len() == 8);
    assert("forward"@.len() == 7);
    assert("transfers"@.len() == 9);
    assert("profiler"@.len() == 8);
    assert("ide"@.len() == 3);
    assert("ai"@.len() == 2);
    assert("events"@.len() == 6);
    assert("settings"@[2] == 't');
    assert("sessions"@[2] == 's');
    assert("settings"@[0] == 's');
    assert("eventLog"@[0] == 'e');
    assert("sessions"@[0] == 's');
    assert("profiler"@[0] == 'p');
    assert("app"@[0] == 'a');
    assert("ide"@[0] == 'i');
    assert("ui"@[0] == 'u');
    assert("ai"@[0] == 'a');
    assert("onThemeChange"@.len() == 13);
    assert("onSettingsChange"@.len() == 16);
    assert("onTreeChange"@.len() == 12);
    assert("onNodeStateChange"@.len() == 17);
    assert("onProgress"@.len() == 10);
    assert("onComplete"@.len() == 10);
    assert("onError"@.len() == 7);
    assert("onProgress"@[2] == 'P');
    assert("onComplete"@[2] == 'C');
    assert("onFileOpen"@.len() == 10);
    assert("onFileClose"@.len() == 11);
    assert("onActiveFileChange"@.len() == 18);
    assert("onConnect"@.len() == 9);
    assert("onDisconnect"@.len() == 12);
    assert("onLinkDown"@.len() == 10);
    assert("onReconnect"@.len() == 11);
}

/// The events that can be subscribed to.
pub proof fn law_events_can_be_subscribed_to()
    ensures
        subscription_events().len() == 21,
        subscription_events()[0] == "app.themeChanged"@,
        subscription_events()[1] == "app.settingsChanged"@,
        subscription_events()[2] == "i18n.languageChanged"@,
        subscription_events()[3] == "settings.changed"@,
        subscription_events()[4] == "ui.layoutChanged"@,
        subscription_events()[5] == "sessions.treeChanged"@,
        subscription_events()[6] == "sessions.nodeStateChanged"@,
        subscription_events()[7] == "eventLog.entry"@,
        subscription_events()[8] == "forward.savedForwardsChanged"@,
        subscription_events()[9] == "transfers.progress"@,
        subscription_events()[10] == "transfers.complete"@,
        subscription_events()[11] == "transfers.error"@,
        subscription_events()[12] == "profiler.metrics"@,
        subscription_events()[13] == "ide.fileOpen"@,
        subscription_events()[14] == "ide.fileClose"@,
        subscription_events()[15] == "ide.activeFileChanged"@,
        subscription_events()[16] == "ai.message"@,
        subscription_events()[17] == "lifecycle.connect"@,
        subscription_events()[18] == "lifecycle.disconnect"@,
        subscription_events()[19] == "lifecycle.linkDown"@,
        subscription_events()[20] == "lifecycle.reconnect"@,
{
}

/// A plugin id is accepted exactly where it is not empty and has neither two dots in a row, nor
/// separators, nor control characters.
pub proof fn law_accepted_ids_are_plain(id: Seq<char>)
    ensures
        plugin_id_problem(id) is None <==> id.len() > 0 && !occurs(id, seq!['.', '.'])
            && !id.contains('/') && !id.contains('\\') && (forall|i: int|
            0 <= i < id.len() ==> (#[trigger] id[i]) as u32 >= 32),
        id.len() == 0 ==> plugin_id_problem(id) == Some("Plugin ID cannot be empty"@),
        id.len() > 0 && occurs(id, seq!['.', '.']) ==> plugin_id_problem(id) == Some(
            "Plugin ID cannot contain path traversal (..)"@,
        ),
        id.len() > 0 && !occurs(id, seq!['.', '.']) && (id.contains('/') || id.contains('\\'))
            ==> plugin_id_problem(id) == Some("Plugin ID cannot contain path separators"@),
{
    reveal_strlit("..");
    assert(".."@ =~= seq!['.', '.']);
}

/// What is said of a path inside the plugin directory that is refused.
pub proof fn law_refused_paths_are_told(path: Seq<char>, at: int)
    requires
        trimmed(path).len() > 0,
        path.len() > 0,
    ensures
        path[0] == '/' || path[0] == '\\' ==> relative_path_problem(path) == Some(
            "Absolute plugin paths are not allowed"@,
        ),
        path[0] != '/' && path[0] != '\\' && parent_step_at(path, at) ==> relative_path_problem(
            path,
        ) == Some("Plugin paths cannot escape the plugin directory"@),
        path[0] != '/' && path[0] != '\\' && (forall|i: int|
            0 <= i && i + 1 < path.len() ==> !(#[trigger] path[i] == '.' && path[i + 1] == '.'))
            ==> relative_path_problem(path) is None,
{
    if forall|i: int|
        0 <= i && i + 1 < path.len() ==> !(#[trigger] path[i] == '.' && path[i + 1] == '.') {
        assert(!has_parent_step(path)) by {
            if has_parent_step(path) {
                let i = choose|i: int| parent_step_at(path, i);
                assert(path[i] == '.');
            }
        }
    }
}

/// The name of a custom event is accepted exactly where it is not blank, has at most 128 bytes and
/// has neither two dots in a row, nor separators, blanks, asterisks or control characters.
pub proof fn law_accepted_event_names_are_plain(name: Seq<char>)
    ensures
        event_name_problem(name) is None <==> trimmed(name).len() > 0 && encode_utf8(name).len()
            <= 128 && !occurs(name, seq!['.', '.']) && !name.contains('/') && !name.contains('\\')
            && !name.contains('*') && !name.contains(' ') && (forall|i: int|
            0 <= i < name.len() ==> (#[trigger] name[i]) as u32 >= 32),
{
    reveal_strlit("..");
    assert(".."@ =~= seq!['.', '.']);
}

/// The key of a custom event holds its owner and its name; there is none where either is refused.
pub proof fn law_event_keys_hold_owner_and_name(owner: Seq<char>, name: Seq<char>)
    ensures
        plugin_id_problem(owner) is None && event_name_problem(name) is None ==> custom_event_key(
            owner,
            name,
        ) == Ok::<Seq<char>, Seq<char>>(
            seq!['p', 'l', 'u', 'g', 'i', 'n', '.'] + owner + seq![':'] + name,
        ),
        plugin_id_problem(owner) matches Some(message) ==> custom_event_key(owner, name) == Err::<
            Seq<char>,
            Seq<char>,
        >(message),
        plugin_id_problem(owner) is None ==> (event_name_problem(name) matches Some(message)
            ==> custom_event_key(owner, name) == Err::<Seq<char>, Seq<char>>(message)),
{
    reveal_strlit("plugin.");
    reveal_strlit(":");
    assert("plugin."@ =~= seq!['p', 'l', 'u', 'g', 'i', 'n', '.']);
    assert(":"@ =~= seq![':']);
}

/// A subscription to a custom event is to the plugin that it names, else to the subscriber's own;
/// any other subscription names its event or the callback that stands for it, and an event that
/// is named goes first.
pub proof fn law_subscriptions_resolve(
    view: JsonView,
    subscriber: Seq<char>,
    name: Seq<char>,
    owner: Seq<char>,
)
    ensures
        ({
            let custom = text_member(view, "namespace"@) == Some("events"@) && text_member(
                view,
                "method"@,
            ) == Some("on"@);
            let own = text_member(view, "pluginId"@) is None && text_member(
                view,
                "ownerPluginId"@,
            ) is None;
            &&& custom && text_member(view, "name"@) == Some(name) && text_member(view, "pluginId"@)
                == Some(owner) ==> subscription_event(view, subscriber) == custom_event_key(
                owner,
                name,
            )
            &&& custom && text_member(view, "name"@) == Some(name) && own ==> subscription_event(
                view,
                subscriber,
            ) == custom_event_key(subscriber, name)
            &&& custom && text_member(view, "name"@) is None && text_member(view, "event"@)
                is None ==> subscription_event(view, subscriber) is Err
            &&& !custom && text_member(view, "event"@) == Some(name) && !("plugin."@).is_prefix_of(
                name,
            ) && subscription_events().contains(name) ==> subscription_event(view, subscriber)
                == Ok::<Seq<char>, Seq<char>>(name)
            &&& !custom && text_member(view, "event"@) == Some(name) && !("plugin."@).is_prefix_of(
                name,
            ) && !subscription_events().contains(name) ==> subscription_event(view, subscriber)
                is Err
            &&& !custom && text_member(view, "event"@) is None ==> (text_member(view, "namespace"@)
                == Some(owner) && text_member(view, "method"@) == Some(name) && method_event(
                owner,
                name,
            ) is None ==> subscription_event(view, subscriber) is Err)
        }),
{
}

/// The events of the host are sent to a plugin under these names.
pub proof fn law_events_are_written_as_sent()
    ensures
        NATIVE_PLUGIN_APP_THEME_CHANGED_EVENT@ == "app.themeChanged"@,
        NATIVE_PLUGIN_APP_SETTINGS_CHANGED_EVENT@ == "app.settingsChanged"@,
        NATIVE_PLUGIN_I18N_LANGUAGE_CHANGED_EVENT@ == "i18n.languageChanged"@,
        NATIVE_PLUGIN_SETTING_CHANGED_EVENT@ == "settings.changed"@,
        NATIVE_PLUGIN_UI_LAYOUT_CHANGED_EVENT@ == "ui.layoutChanged"@,
        NATIVE_PLUGIN_SESSION_TREE_CHANGED_EVENT@ == "sessions.treeChanged"@,
        NATIVE_PLUGIN_SESSION_NODE_STATE_CHANGED_EVENT@ == "sessions.nodeStateChanged"@,
        NATIVE_PLUGIN_EVENT_LOG_ENTRY_EVENT@ == "eventLog.entry"@,
        NATIVE_PLUGIN_FORWARD_SAVED_FORWARDS_CHANGED_EVENT@ == "forward.savedForwardsChanged"@,
        NATIVE_PLUGIN_TRANSFER_PROGRESS_EVENT@ == "transfers.progress"@,
        NATIVE_PLUGIN_TRANSFER_COMPLETE_EVENT@ == "transfers.complete"@,
        NATIVE_PLUGIN_TRANSFER_ERROR_EVENT@ == "transfers.error"@,
        NATIVE_PLUGIN_PROFILER_METRICS_EVENT@ == "profiler.metrics"@,
        NATIVE_PLUGIN_IDE_FILE_OPEN_EVENT@ == "ide.fileOpen"@,
        NATIVE_PLUGIN_IDE_FILE_CLOSE_EVENT@ == "ide.fileClose"@,
        NATIVE_PLUGIN_IDE_ACTIVE_FILE_CHANGED_EVENT@ == "ide.activeFileChanged"@,
        NATIVE_PLUGIN_AI_MESSAGE_EVENT@ == "ai.message"@,
        NATIVE_PLUGIN_LIFECYCLE_CONNECT_EVENT@ == "lifecycle.connect"@,
        NATIVE_PLUGIN_LIFECYCLE_DISCONNECT_EVENT@ == "lifecycle.disconnect"@,
        NATIVE_PLUGIN_LIFECYCLE_LINK_DOWN_EVENT@ == "lifecycle.linkDown"@,
        NATIVE_PLUGIN_LIFECYCLE_RECONNECT_EVENT@ == "lifecycle.reconnect"@,
{
}

/// A refused name of an event is told why: that it is blank, longer than 128 bytes, or holds what a
/// name may not hold.
pub proof fn law_refused_event_names_are_told(name: Seq<char>, id: Seq<char>)
    ensures
        trimmed(name).len() == 0 ==> event_name_problem(name) == Some(
            "Plugin event name cannot be empty"@,
        ),
        trimmed(name).len() > 0 && encode_utf8(name).len() > 128 ==> event_name_problem(name) == Some(
            "Plugin event name is too long"@,
        ),
        trimmed(name).len() > 0 && encode_utf8(name).len() <= 128 && (occurs(name, ".."@)
            || name.contains('/') || name.contains('\\')) ==> event_name_problem(name) == Some(
            "Plugin event name cannot contain path separators or traversal"@,
        ),
        trimmed(name).len() > 0 && encode_utf8(name).len() <= 128 && !(occurs(name, ".."@)
            || name.contains('/') || name.contains('\\')) && event_name_problem(name) is Some
            ==> event_name_problem(name) == Some("Plugin event name contains invalid characters"@),
        !"plugin."@.is_prefix_of(name) ==> event_key_problem(name) == Some(
            "Plugin event key must start with plugin."@,
        ),
        id.len() > 0 && !occurs(id, ".."@) && !id.contains('/') && !id.contains('\\') && has_below(
            id,
            0x20,
        ) ==> plugin_id_problem(id) == Some("Plugin ID contains invalid characters"@),
{
}

} // verus!
