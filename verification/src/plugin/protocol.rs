//! Messages between the host and a plugin: what they hold, what may be copied, and what is shown.

use crate::json::{
    json_debug, json_debug_form, json_null, json_take_list, json_take_members, json_take_text,
    json_view, json_views, JsonView,
};
use crate::plugin::manifest::NativePluginManifest;
use crate::text::{concat3, concat5, decimal, decimal_text, quote, quoted, same};
use serde_json::Value;
use vstd::prelude::*;
use vstd::string::*;
use zeroize::Zeroize;

verus! {

#[derive(Clone, Copy, Debug, PartialEq, Eq, Structural)]
pub enum PluginErrorKind {
    Protocol,
    Runtime,
}

#[derive(Debug, PartialEq, Eq)]
pub struct PluginError {
    pub kind: PluginErrorKind,
    pub code: String,
    pub message: String,
}

/// The contents of an error.
pub struct PluginErrorView {
    pub kind: PluginErrorKind,
    pub code: Seq<char>,
    pub message: Seq<char>,
}

impl View for PluginError {
    type V = PluginErrorView;

    open spec fn view(&self) -> PluginErrorView {
        PluginErrorView { kind: self.kind, code: self.code@, message: self.message@ }
    }
}

impl PluginError {
    pub fn protocol(code: &str, message: String) -> (r: PluginError)
        ensures
            r@ == (PluginErrorView {
                kind: PluginErrorKind::Protocol,
                code: code@,
                message: message@,
            }),
    {
        PluginError { kind: PluginErrorKind::Protocol, code: code.to_owned(), message }
    }

    pub fn runtime(code: &str, message: String) -> (r: PluginError)
        ensures
            r@ == (PluginErrorView {
                kind: PluginErrorKind::Runtime,
                code: code@,
                message: message@,
            }),
    {
        PluginError { kind: PluginErrorKind::Runtime, code: code.to_owned(), message }
    }
}

impl Clone for PluginError {
    fn clone(&self) -> (r: Self)
        ensures
            r@ == self@,
    {
        PluginError {
            kind: self.kind,
            code: self.code.clone(),
            message: self.message.clone(),
        }
    }
}

/// `Zeroize::zeroize` of a string: the bytes are overwritten and the string becomes empty.
#[verifier::external_body]
fn wipe_text(text: &mut String)
    ensures
        final(text)@.len() == 0,
{
    text.zeroize();
}

/// Classifies host calls whose arguments may contain plaintext credentials.
#[derive(Clone, Copy, Debug, Eq, PartialEq, Structural)]
pub enum PluginHostCallSensitivity {
    Public,
    Sensitive,
}

/// Whether a host call carries credentials: all of `secrets`, and the archive calls of `sync`.
pub open spec fn is_credential_call(namespace: Seq<char>, method: Seq<char>) -> bool {
    namespace == "secrets"@ || (namespace == "sync"@ && (method == "exportOxide"@ || method
        == "previewImport"@ || method == "importOxide"@))
}

impl PluginHostCallSensitivity {
    pub fn classify(namespace: &str, method: &str) -> (r: Self)
        ensures
            r == (if is_credential_call(namespace@, method@) {
                PluginHostCallSensitivity::Sensitive
            } else {
                PluginHostCallSensitivity::Public
            }),
    {
        if same(namespace, "secrets") || (same(namespace, "sync") && (same(method, "exportOxide")
            || same(method, "previewImport") || same(method, "importOxide"))) {
            PluginHostCallSensitivity::Sensitive
        } else {
            PluginHostCallSensitivity::Public
        }
    }

    pub fn is_sensitive(self) -> (r: bool)
        ensures
            r == (self == PluginHostCallSensitivity::Sensitive),
    {
        match self {
            PluginHostCallSensitivity::Sensitive => true,
            PluginHostCallSensitivity::Public => false,
        }
    }
}

/// Clears a JSON value: every text and every key in it is overwritten, and the value becomes null.
/// The contract speaks of the value that is left; it does not speak of the memory that the former
/// texts took.
pub fn zeroize_json_value(value: &mut Value)
    ensures
        json_view(*final(value)) == JsonView::Null,
    decreases json_view(*old(value)),
{
    if let Some(mut text) = json_take_text(value) {
        wipe_text(&mut text);
    } else if let Some(mut items) = json_take_list(value) {
        let ghost view = json_view(*old(value));
        let ghost views = json_views(items@);
        let mut i: usize = 0;
        while i < items.len()
            invariant
                i <= items.len(),
                items@.len() == views.len(),
                view == json_view(*old(value)),
                view == JsonView::List(views),
                forall|j: int| i <= j < items@.len() ==> json_view(#[trigger] items@[j]) == views[j],
            decreases items.len() - i,
        {
            proof {
                assert(decreases_to!(view => view->List_0));
                assert(decreases_to!(views => views[i as int]));
            }
            let mut item = json_null();
            std::mem::swap(&mut item, &mut items[i]);
            zeroize_json_value(&mut item);
            i = i + 1;
        }
    } else if let Some(mut members) = json_take_members(value) {
        let ghost view = json_view(*old(value));
        let ghost map = view->Object_0;
        while members.len() > 0
            invariant
                view == json_view(*old(value)),
                view == JsonView::Object(map),
                map.dom().finite(),
                forall|i: int|
                    0 <= i < members@.len() ==> map.contains_key((#[trigger] members@[i]).0@)
                        && map[members@[i].0@] == json_view(members@[i].1),
            decreases members.len(),
        {
            let ghost last = members@.last();
            assert(members@[members@.len() - 1] == last);
            if let Some(entry) = members.pop() {
                let (mut key, mut member) = entry;
                proof {
                    assert(decreases_to!(view => view->Object_0));
                    assert(decreases_to!(map => map[key@]));
                }
                wipe_text(&mut key);
                zeroize_json_value(&mut member);
            }
        }
    }
    *value = json_null();
}

#[derive(Clone, Debug, Default, PartialEq, Eq)]
pub struct PluginPermissionSet {
    pub capabilities: Vec<String>,
    pub allowed_host_apis: Vec<String>,
}

#[derive(Clone, Copy, Debug, PartialEq, Eq, Structural)]
pub enum PluginRegistrationKind {
    Command,
    Keybinding,
    ContextMenu,
    StatusBar,
    Tab,
    SidebarPanel,
    ActivityBarItem,
    TerminalInputInterceptor,
    TerminalOutputProcessor,
    TerminalShortcut,
    EventSubscription,
    Progress,
}

/// The name of a registration kind in plugin messages.
pub open spec fn kind_wire_name(kind: PluginRegistrationKind) -> Seq<char> {
    match kind {
        PluginRegistrationKind::Command => "command"@,
        PluginRegistrationKind::Keybinding => "keybinding"@,
        PluginRegistrationKind::ContextMenu => "context-menu"@,
        PluginRegistrationKind::StatusBar => "status-bar"@,
        PluginRegistrationKind::Tab => "tab"@,
        PluginRegistrationKind::SidebarPanel => "sidebar-panel"@,
        PluginRegistrationKind::ActivityBarItem => "activity-bar-item"@,
        PluginRegistrationKind::TerminalInputInterceptor => "terminal-input-interceptor"@,
        PluginRegistrationKind::TerminalOutputProcessor => "terminal-output-processor"@,
        PluginRegistrationKind::TerminalShortcut => "terminal-shortcut"@,
        PluginRegistrationKind::EventSubscription => "event-subscription"@,
        PluginRegistrationKind::Progress => "progress"@,
    }
}

/// The name of a registration kind in `Debug` output.
pub open spec fn kind_debug_name(kind: PluginRegistrationKind) -> Seq<char> {
    match kind {
        PluginRegistrationKind::Command => "Command"@,
        PluginRegistrationKind::Keybinding => "Keybinding"@,
        PluginRegistrationKind::ContextMenu => "ContextMenu"@,
        PluginRegistrationKind::StatusBar => "StatusBar"@,
        PluginRegistrationKind::Tab => "Tab"@,
        PluginRegistrationKind::SidebarPanel => "SidebarPanel"@,
        PluginRegistrationKind::ActivityBarItem => "ActivityBarItem"@,
        PluginRegistrationKind::TerminalInputInterceptor => "TerminalInputInterceptor"@,
        PluginRegistrationKind::TerminalOutputProcessor => "TerminalOutputProcessor"@,
        PluginRegistrationKind::TerminalShortcut => "TerminalShortcut"@,
        PluginRegistrationKind::EventSubscription => "EventSubscription"@,
        PluginRegistrationKind::Progress => "Progress"@,
    }
}

impl PluginRegistrationKind {
    /// The kebab-cased name that process and WASM plugins consume.
    pub fn wire_name(self) -> (r: &'static str)
        ensures
            r@ == kind_wire_name(self),
    {
        match self {
            PluginRegistrationKind::Command => "command",
            PluginRegistrationKind::Keybinding => "keybinding",
            PluginRegistrationKind::ContextMenu => "context-menu",
            PluginRegistrationKind::StatusBar => "status-bar",
            PluginRegistrationKind::Tab => "tab",
            PluginRegistrationKind::SidebarPanel => "sidebar-panel",
            PluginRegistrationKind::ActivityBarItem => "activity-bar-item",
            PluginRegistrationKind::TerminalInputInterceptor => "terminal-input-interceptor",
            PluginRegistrationKind::TerminalOutputProcessor => "terminal-output-processor",
            PluginRegistrationKind::TerminalShortcut => "terminal-shortcut",
            PluginRegistrationKind::EventSubscription => "event-subscription",
            PluginRegistrationKind::Progress => "progress",
        }
    }

    fn debug_name(self) -> (r: &'static str)
        ensures
            r@ == kind_debug_name(self),
    {
        match self {
            PluginRegistrationKind::Command => "Command",
            PluginRegistrationKind::Keybinding => "Keybinding",
            PluginRegistrationKind::ContextMenu => "ContextMenu",
            PluginRegistrationKind::StatusBar => "StatusBar",
            PluginRegistrationKind::Tab => "Tab",
            PluginRegistrationKind::SidebarPanel => "SidebarPanel",
            PluginRegistrationKind::ActivityBarItem => "ActivityBarItem",
            PluginRegistrationKind::TerminalInputInterceptor => "TerminalInputInterceptor",
            PluginRegistrationKind::TerminalOutputProcessor => "TerminalOutputProcessor",
            PluginRegistrationKind::TerminalShortcut => "TerminalShortcut",
            PluginRegistrationKind::EventSubscription => "EventSubscription",
            PluginRegistrationKind::Progress => "Progress",
        }
    }
}

#[derive(Clone, Copy, Debug, PartialEq, Eq, Structural)]
pub enum PluginRuntimeLogLevel {
    Debug,
    Info,
    Warn,
    Error,
}

pub open spec fn log_level_name(level: PluginRuntimeLogLevel) -> Seq<char> {
    match level {
        PluginRuntimeLogLevel::Debug => "Debug"@,
        PluginRuntimeLogLevel::Info => "Info"@,
        PluginRuntimeLogLevel::Warn => "Warn"@,
        PluginRuntimeLogLevel::Error => "Error"@,
    }
}

fn log_level_text(level: PluginRuntimeLogLevel) -> (r: &'static str)
    ensures
        r@ == log_level_name(level),
{
    match level {
        PluginRuntimeLogLevel::Debug => "Debug",
        PluginRuntimeLogLevel::Info => "Info",
        PluginRuntimeLogLevel::Warn => "Warn",
        PluginRuntimeLogLevel::Error => "Error",
    }
}

#[derive(Debug, PartialEq)]
pub struct PluginRegistration {
    pub registration_id: String,
    pub plugin_id: String,
    pub kind: PluginRegistrationKind,
    pub metadata: Value,
}

#[derive(Debug, PartialEq)]
pub struct PluginEvent {
    pub name: String,
    pub payload: Value,
}

/// What a plugin sends to the host.
#[derive(PartialEq)]
pub enum PluginOutboundMessage {
    RegisterContribution { registration: PluginRegistration },
    DisposeContribution { registration_id: String },
    Log { level: PluginRuntimeLogLevel, message: String },
    ReportProgress { registration_id: String, value: Value },
    RuntimeReady,
    RuntimeError { error: PluginError },
    EmitEvent { event: PluginEvent },
    CallHostApi { request_id: String, namespace: String, method: String, args: Value },
}

/// The contents of a message.
pub enum MessageView {
    RegisterContribution {
        registration_id: Seq<char>,
        plugin_id: Seq<char>,
        kind: PluginRegistrationKind,
        metadata: JsonView,
    },
    DisposeContribution { registration_id: Seq<char> },
    Log { level: PluginRuntimeLogLevel, message: Seq<char> },
    ReportProgress { registration_id: Seq<char>, value: JsonView },
    RuntimeReady,
    RuntimeError { error: PluginErrorView },
    EmitEvent { name: Seq<char>, payload: JsonView },
    CallHostApi { request_id: Seq<char>, namespace: Seq<char>, method: Seq<char>, args: JsonView },
}

impl View for PluginOutboundMessage {
    type V = MessageView;

    open spec fn view(&self) -> MessageView {
        match self {
            PluginOutboundMessage::RegisterContribution { registration } => {
                MessageView::RegisterContribution {
                    registration_id: registration.registration_id@,
                    plugin_id: registration.plugin_id@,
                    kind: registration.kind,
                    metadata: json_view(registration.metadata),
                }
            },
            PluginOutboundMessage::DisposeContribution { registration_id } => {
                MessageView::DisposeContribution { registration_id: registration_id@ }
            },
            PluginOutboundMessage::Log { level, message } => MessageView::Log {
                level: *level,
                message: message@,
            },
            PluginOutboundMessage::ReportProgress { registration_id, value } => {
                MessageView::ReportProgress {
                    registration_id: registration_id@,
                    value: json_view(*value),
                }
            },
            PluginOutboundMessage::RuntimeReady => MessageView::RuntimeReady,
            PluginOutboundMessage::RuntimeError { error } => MessageView::RuntimeError {
                error: error@,
            },
            PluginOutboundMessage::EmitEvent { event } => MessageView::EmitEvent {
                name: event.name@,
                payload: json_view(event.payload),
            },
            PluginOutboundMessage::CallHostApi { request_id, namespace, method, args } => {
                MessageView::CallHostApi {
                    request_id: request_id@,
                    namespace: namespace@,
                    method: method@,
                    args: json_view(*args),
                }
            },
        }
    }
}

/// Whether a message is a host call that carries credentials.
pub open spec fn carries_credentials(message: MessageView) -> bool {
    match message {
        MessageView::CallHostApi { namespace, method, .. } => is_credential_call(namespace, method),
        _ => false,
    }
}

/// A message whose credentials, if it carries any, are cleared.
pub open spec fn cleared_message(message: MessageView) -> MessageView {
    match message {
        MessageView::CallHostApi { request_id, namespace, method, args } => if is_credential_call(
            namespace,
            method,
        ) {
            MessageView::CallHostApi { request_id, namespace, method, args: JsonView::Null }
        } else {
            message
        },
        _ => message,
    }
}

/// The `args` field of a host call in `Debug` output.
pub open spec fn args_debug(namespace: Seq<char>, method: Seq<char>, args: Value) -> Seq<char> {
    if is_credential_call(namespace, method) {
        quoted("<redacted>"@)
    } else {
        json_debug_form(args)
    }
}

fn args_debug_text(namespace: &str, method: &str, args: &Value) -> (r: String)
    ensures
        r@ == args_debug(namespace@, method@, *args),
{
    if PluginHostCallSensitivity::classify(namespace, method).is_sensitive() {
        quote("<redacted>")
    } else {
        json_debug(args)
    }
}

pub open spec fn error_kind_name(kind: PluginErrorKind) -> Seq<char> {
    match kind {
        PluginErrorKind::Protocol => "Protocol"@,
        PluginErrorKind::Runtime => "Runtime"@,
    }
}

/// The `Debug` form of an error.
pub open spec fn error_debug(error: PluginErrorView) -> Seq<char> {
    "PluginError { kind: "@ + error_kind_name(error.kind) + ", code: "@ + quoted(error.code)
        + ", message: "@ + quoted(error.message) + " }"@
}

fn error_debug_text(error: &PluginError) -> (r: String)
    ensures
        r@ == error_debug(error@),
{
    let mut out = "PluginError { kind: ".to_owned();
    out.append(
        match error.kind {
            PluginErrorKind::Protocol => "Protocol",
            PluginErrorKind::Runtime => "Runtime",
        },
    );
    out.append(", code: ");
    out.append(quote(error.code.as_str()).as_str());
    out.append(", message: ");
    out.append(quote(error.message.as_str()).as_str());
    out.append(" }");
    out
}

/// The `Debug` form of a message: the arguments of a call with credentials are not in it.
pub open spec fn message_debug(message: PluginOutboundMessage) -> Seq<char> {
    match message {
        PluginOutboundMessage::RegisterContribution { registration } => {
            "RegisterContribution { registration: PluginRegistration { registration_id: "@ + quoted(
                registration.registration_id@,
            ) + ", plugin_id: "@ + quoted(registration.plugin_id@) + ", kind: "@ + kind_debug_name(
                registration.kind,
            ) + ", metadata: "@ + json_debug_form(registration.metadata) + " } }"@
        },
        PluginOutboundMessage::DisposeContribution { registration_id } => {
            "DisposeContribution { registration_id: "@ + quoted(registration_id@) + " }"@
        },
        PluginOutboundMessage::Log { level, message } => {
            "Log { level: "@ + log_level_name(level) + ", message: "@ + quoted(message@) + " }"@
        },
        PluginOutboundMessage::ReportProgress { registration_id, value } => {
            "ReportProgress { registration_id: "@ + quoted(registration_id@) + ", value: "@
                + json_debug_form(value) + " }"@
        },
        PluginOutboundMessage::RuntimeReady => "RuntimeReady"@,
        PluginOutboundMessage::RuntimeError { error } => {
            "RuntimeError { error: "@ + error_debug(error@) + " }"@
        },
        PluginOutboundMessage::EmitEvent { event } => {
            "EmitEvent { event: PluginEvent { name: "@ + quoted(event.name@) + ", payload: "@
                + json_debug_form(event.payload) + " } }"@
        },
        PluginOutboundMessage::CallHostApi { request_id, namespace, method, args } => {
            "CallHostApi { request_id: "@ + quoted(request_id@) + ", namespace: "@ + quoted(
                namespace@,
            ) + ", method: "@ + quoted(method@) + ", args: "@ + args_debug(
                namespace@,
                method@,
                args,
            ) + " }"@
        },
    }
}

impl PluginOutboundMessage {
    pub fn host_call_sensitivity(&self) -> (r: PluginHostCallSensitivity)
        ensures
            r == (if carries_credentials(self@) {
                PluginHostCallSensitivity::Sensitive
            } else {
                PluginHostCallSensitivity::Public
            }),
    {
        match self {
            PluginOutboundMessage::CallHostApi { namespace, method, .. } => {
                PluginHostCallSensitivity::classify(namespace.as_str(), method.as_str())
            },
            _ => PluginHostCallSensitivity::Public,
        }
    }

    /// Clears the arguments of a call that carries credentials.
    pub fn zeroize_sensitive_host_call_args(&mut self)
        ensures
            final(self)@ == cleared_message(old(self)@),
    {
        if !self.host_call_sensitivity().is_sensitive() {
            return;
        }
        if let PluginOutboundMessage::CallHostApi { args, .. } = self {
            zeroize_json_value(args);
        }
    }

    /// A copy of the message, refused where it carries credentials.
    pub fn clone_public(&self) -> (r: Option<Self>)
        ensures
            match r {
                Some(copy) => !carries_credentials(self@) && copy@ == self@,
                None => carries_credentials(self@),
            },
    {
        if self.host_call_sensitivity().is_sensitive() {
            return None;
        }
        Some(
            match self {
                PluginOutboundMessage::RegisterContribution { registration } => {
                    PluginOutboundMessage::RegisterContribution {
                        registration: PluginRegistration {
                            registration_id: registration.registration_id.clone(),
                            plugin_id: registration.plugin_id.clone(),
                            kind: registration.kind,
                            metadata: registration.metadata.clone(),
                        },
                    }
                },
                PluginOutboundMessage::DisposeContribution { registration_id } => {
                    PluginOutboundMessage::DisposeContribution {
                        registration_id: registration_id.clone(),
                    }
                },
                PluginOutboundMessage::Log { level, message } => PluginOutboundMessage::Log {
                    level: *level,
                    message: message.clone(),
                },
                PluginOutboundMessage::ReportProgress { registration_id, value } => {
                    PluginOutboundMessage::ReportProgress {
                        registration_id: registration_id.clone(),
                        value: value.clone(),
                    }
                },
                PluginOutboundMessage::RuntimeReady => PluginOutboundMessage::RuntimeReady,
                PluginOutboundMessage::RuntimeError { error } => {
                    PluginOutboundMessage::RuntimeError { error: error.clone() }
                },
                PluginOutboundMessage::EmitEvent { event } => PluginOutboundMessage::EmitEvent {
                    event: PluginEvent {
                        name: event.name.clone(),
                        payload: event.payload.clone(),
                    },
                },
                PluginOutboundMessage::CallHostApi { request_id, namespace, method, args } => {
                    PluginOutboundMessage::CallHostApi {
                        request_id: request_id.clone(),
                        namespace: namespace.clone(),
                        method: method.clone(),
                        args: args.clone(),
                    }
                },
            },
        )
    }

    /// The message for logs and diagnostics.
    pub fn debug_text(&self) -> (r: String)
        ensures
            r@ == message_debug(*self),
    {
        match self {
            PluginOutboundMessage::RegisterContribution { registration } => {
                let mut out =
                    "RegisterContribution { registration: PluginRegistration { registration_id: ".to_owned();
                out.append(quote(registration.registration_id.as_str()).as_str());
                out.append(", plugin_id: ");
                out.append(quote(registration.plugin_id.as_str()).as_str());
                out.append(", kind: ");
                out.append(registration.kind.debug_name());
                out.append(", metadata: ");
                out.append(json_debug(&registration.metadata).as_str());
                out.append(" } }");
                out
            },
            PluginOutboundMessage::DisposeContribution { registration_id } => concat3(
                "DisposeContribution { registration_id: ",
                quote(registration_id.as_str()).as_str(),
                " }",
            ),
            PluginOutboundMessage::Log { level, message } => concat5(
                "Log { level: ",
                log_level_text(*level),
                ", message: ",
                quote(message.as_str()).as_str(),
                " }",
            ),
            PluginOutboundMessage::ReportProgress { registration_id, value } => concat5(
                "ReportProgress { registration_id: ",
                quote(registration_id.as_str()).as_str(),
                ", value: ",
                json_debug(value).as_str(),
                " }",
            ),
            PluginOutboundMessage::RuntimeReady => "RuntimeReady".to_owned(),
            PluginOutboundMessage::RuntimeError { error } => concat3(
                "RuntimeError { error: ",
                error_debug_text(error).as_str(),
                " }",
            ),
            PluginOutboundMessage::EmitEvent { event } => concat5(
                "EmitEvent { event: PluginEvent { name: ",
                quote(event.name.as_str()).as_str(),
                ", payload: ",
                json_debug(&event.payload).as_str(),
                " } }",
            ),
            PluginOutboundMessage::CallHostApi { request_id, namespace, method, args } => {
                let mut out = "CallHostApi { request_id: ".to_owned();
                out.append(quote(request_id.as_str()).as_str());
                out.append(", namespace: ");
                out.append(quote(namespace.as_str()).as_str());
                out.append(", method: ");
                out.append(quote(method.as_str()).as_str());
                out.append(", args: ");
                out.append(args_debug_text(namespace.as_str(), method.as_str(), args).as_str());
                out.append(" }");
                out
            },
        }
    }
}

/// What is shown of a call with credentials does not depend on its arguments.
pub proof fn law_credentials_are_never_shown(
    request_id: String,
    namespace: String,
    method: String,
    args: Value,
    other: Value,
    activation: Seq<char>,
)
    requires
        is_credential_call(namespace@, method@),
    ensures
        message_debug(
            PluginOutboundMessage::CallHostApi { request_id, namespace, method, args },
        ) == message_debug(
            PluginOutboundMessage::CallHostApi { request_id, namespace, method, args: other },
        ),
        request_kind_debug(PluginRequestKind::CallHostApi { namespace, method, args }, activation)
            == request_kind_debug(
            PluginRequestKind::CallHostApi { namespace, method, args: other },
            activation,
        ),
{
}

/// Clearing a message twice is the same as clearing it once, and a cleared call still counts as
/// one that carries credentials.
pub proof fn law_clearing_is_stable(message: MessageView)
    ensures
        cleared_message(cleared_message(message)) == cleared_message(message),
        carries_credentials(cleared_message(message)) == carries_credentials(message),
{
}

/// What the host asks of a plugin.
#[derive(PartialEq)]
pub struct PluginRequest {
    pub request_id: String,
    pub kind: PluginRequestKind,
    pub timeout_ms: Option<u64>,
}

#[derive(PartialEq)]
pub enum PluginRequestKind {
    Activate { manifest: NativePluginManifest, permissions: PluginPermissionSet },
    Deactivate,
    CallHostApi { namespace: String, method: String, args: Value },
    DispatchCommand { command: String, args: Value },
    SendEvent { event: PluginEvent },
    CancelRequest { request_id: String },
    Health,
    Kill,
}

/// A request to activate a plugin.
#[derive(Clone, Debug, PartialEq)]
pub struct PluginActivateRequest {
    pub request_id: String,
    pub manifest: NativePluginManifest,
    pub permissions: PluginPermissionSet,
    pub timeout_ms: u64,
}

/// The `Debug` form of what a request asks; `activation` is how the fields of an activation are
/// written.
pub open spec fn request_kind_debug(kind: PluginRequestKind, activation: Seq<char>) -> Seq<char> {
    match kind {
        PluginRequestKind::Activate { .. } => { "Activate { "@ + activation + " }"@ },
        PluginRequestKind::Deactivate => "Deactivate"@,
        PluginRequestKind::CallHostApi { namespace, method, args } => {
            "CallHostApi { namespace: "@ + quoted(namespace@) + ", method: "@ + quoted(method@)
                + ", args: "@ + args_debug(namespace@, method@, args) + " }"@
        },
        PluginRequestKind::DispatchCommand { command, args } => {
            "DispatchCommand { command: "@ + quoted(command@) + ", args: "@ + json_debug_form(args)
                + " }"@
        },
        PluginRequestKind::SendEvent { event } => {
            "SendEvent { event: PluginEvent { name: "@ + quoted(event.name@) + ", payload: "@
                + json_debug_form(event.payload) + " } }"@
        },
        PluginRequestKind::CancelRequest { request_id } => {
            "CancelRequest { request_id: "@ + quoted(request_id@) + " }"@
        },
        PluginRequestKind::Health => "Health"@,
        PluginRequestKind::Kill => "Kill"@,
    }
}

pub open spec fn timeout_debug(timeout: Option<u64>) -> Seq<char> {
    match timeout {
        Some(ms) => "Some("@ + decimal(ms as nat) + ")"@,
        None => "None"@,
    }
}

/// The `Debug` form of a request.
pub open spec fn request_debug(request: PluginRequest, activation: Seq<char>) -> Seq<char> {
    "PluginRequest { request_id: "@ + quoted(request.request_id@) + ", kind: "@
        + request_kind_debug(request.kind, activation) + ", timeout_ms: "@ + timeout_debug(
        request.timeout_ms,
    ) + " }"@
}

/// Whether a request is a host call that carries credentials.
pub open spec fn asks_with_credentials(kind: PluginRequestKind) -> bool {
    match kind {
        PluginRequestKind::CallHostApi { namespace, method, .. } => is_credential_call(
            namespace@,
            method@,
        ),
        _ => false,
    }
}

impl PluginRequestKind {
    /// What is asked, for logs and diagnostics. `activation` is how the fields of an activation are
    /// written: their `Debug` forms, with their names.
    pub fn debug_text(&self, activation: &str) -> (r: String)
        ensures
            r@ == request_kind_debug(*self, activation@),
    {
        match self {
            PluginRequestKind::Activate { .. } => concat3("Activate { ", activation, " }"),
            PluginRequestKind::Deactivate => "Deactivate".to_owned(),
            PluginRequestKind::CallHostApi { namespace, method, args } => {
                let mut out = "CallHostApi { namespace: ".to_owned();
                out.append(quote(namespace.as_str()).as_str());
                out.append(", method: ");
                out.append(quote(method.as_str()).as_str());
                out.append(", args: ");
                out.append(args_debug_text(namespace.as_str(), method.as_str(), args).as_str());
                out.append(" }");
                out
            },
            PluginRequestKind::DispatchCommand { command, args } => concat5(
                "DispatchCommand { command: ",
                quote(command.as_str()).as_str(),
                ", args: ",
                json_debug(args).as_str(),
                " }",
            ),
            PluginRequestKind::SendEvent { event } => concat5(
                "SendEvent { event: PluginEvent { name: ",
                quote(event.name.as_str()).as_str(),
                ", payload: ",
                json_debug(&event.payload).as_str(),
                " } }",
            ),
            PluginRequestKind::CancelRequest { request_id } => concat3(
                "CancelRequest { request_id: ",
                quote(request_id.as_str()).as_str(),
                " }",
            ),
            PluginRequestKind::Health => "Health".to_owned(),
            PluginRequestKind::Kill => "Kill".to_owned(),
        }
    }
}

impl PluginRequest {
    /// Clears the arguments of a call that carries credentials; any other request stays as it is.
    pub fn zeroize_sensitive_host_call_args(&mut self)
        ensures
            final(self).request_id == old(self).request_id,
            final(self).timeout_ms == old(self).timeout_ms,
            if asks_with_credentials(old(self).kind) {
                final(self).kind matches PluginRequestKind::CallHostApi { namespace, method, args }
                    && namespace == old(self).kind->CallHostApi_namespace && method
                    == old(self).kind->CallHostApi_method && json_view(args) == JsonView::Null
            } else {
                final(self).kind == old(self).kind
            },
    {
        if let PluginRequestKind::CallHostApi { namespace, method, args } = &mut self.kind {
            if PluginHostCallSensitivity::classify(
                namespace.as_str(),
                method.as_str(),
            ).is_sensitive() {
                zeroize_json_value(args);
            }
        }
    }

    /// The request for logs and diagnostics; see `PluginRequestKind::debug_text`.
    pub fn debug_text(&self, activation: &str) -> (r: String)
        ensures
            r@ == request_debug(*self, activation@),
    {
        let mut out = "PluginRequest { request_id: ".to_owned();
        out.append(quote(self.request_id.as_str()).as_str());
        out.append(", kind: ");
        out.append(self.kind.debug_text(activation).as_str());
        out.append(", timeout_ms: ");
        match self.timeout_ms {
            Some(ms) => {
                out.append(concat3("Some(", decimal_text(ms).as_str(), ")").as_str());
            },
            None => {
                out.append("None");
            },
        }
        out.append(" }");
        out
    }
}

/// What a plugin or the host answers to a request.
pub struct PluginResponse {
    pub request_id: String,
    pub result: PluginResponseResult,
    /// Whether the payload is to be cleared once it has been sent; no part of the message itself.
    pub sensitive: bool,
}

#[derive(PartialEq)]
pub enum PluginResponseResult {
    Success { value: Value },
    Error { error: PluginError },
}

/// The contents of an answer.
pub enum ResponseView {
    Success(JsonView),
    Error(PluginErrorView),
}

impl View for PluginResponseResult {
    type V = ResponseView;

    open spec fn view(&self) -> ResponseView {
        match self {
            PluginResponseResult::Success { value } => ResponseView::Success(json_view(*value)),
            PluginResponseResult::Error { error } => ResponseView::Error(error@),
        }
    }
}

/// The `Debug` form of an answer: a payload is never in it.
pub open spec fn response_debug(response: PluginResponse) -> Seq<char> {
    "PluginResponse { request_id: "@ + quoted(response.request_id@) + ", result: "@ + (
    match response.result {
        PluginResponseResult::Success { .. } => "Ok { value: "@ + quoted("<redacted>"@) + " }"@,
        PluginResponseResult::Error { error } => "Error { error: "@ + error_debug(error@) + " }"@,
    }) + " }"@
}

impl PluginResponse {
    pub fn ok(request_id: &str, value: Value) -> (r: Self)
        ensures
            r.request_id@ == request_id@,
            r.result@ == ResponseView::Success(json_view(value)),
            !r.sensitive,
    {
        PluginResponse {
            request_id: request_id.to_owned(),
            result: PluginResponseResult::Success { value },
            sensitive: false,
        }
    }

    pub fn sensitive_ok(request_id: &str, value: Value) -> (r: Self)
        ensures
            r.request_id@ == request_id@,
            r.result@ == ResponseView::Success(json_view(value)),
            r.sensitive,
    {
        PluginResponse {
            request_id: request_id.to_owned(),
            result: PluginResponseResult::Success { value },
            sensitive: true,
        }
    }

    pub fn error(request_id: &str, error: PluginError) -> (r: Self)
        ensures
            r.request_id@ == request_id@,
            r.result@ == ResponseView::Error(error@),
            !r.sensitive,
    {
        PluginResponse {
            request_id: request_id.to_owned(),
            result: PluginResponseResult::Error { error },
            sensitive: false,
        }
    }

    /// Clears a marked payload and takes the mark off.
    pub fn zeroize_sensitive_payload(&mut self)
        ensures
            final(self).request_id == old(self).request_id,
            !final(self).sensitive,
            final(self).result@ == (if old(self).sensitive && old(self).result@ is Success {
                ResponseView::Success(JsonView::Null)
            } else {
                old(self).result@
            }),
    {
        if !self.sensitive {
            return;
        }
        if let PluginResponseResult::Success { value } = &mut self.result {
            zeroize_json_value(value);
        }
        self.sensitive = false;
    }

    /// The answer for logs and diagnostics.
    pub fn debug_text(&self) -> (r: String)
        ensures
            r@ == response_debug(*self),
    {
        let result = match &self.result {
            PluginResponseResult::Success { .. } => concat3(
                "Ok { value: ",
                quote("<redacted>").as_str(),
                " }",
            ),
            PluginResponseResult::Error { error } => concat3(
                "Error { error: ",
                error_debug_text(error).as_str(),
                " }",
            ),
        };
        concat5(
            "PluginResponse { request_id: ",
            quote(self.request_id.as_str()).as_str(),
            ", result: ",
            result.as_str(),
            " }",
        )
    }
}

/// What is shown of a successful answer does not depend on its payload.
pub proof fn law_payload_is_never_shown(a: PluginResponse, b: PluginResponse)
    requires
        a.request_id@ == b.request_id@,
        a.result is Success,
        b.result is Success,
    ensures
        response_debug(a) == response_debug(b),
{
}

/// Which host calls carry credentials.
pub proof fn law_credential_calls_are_known(namespace: Seq<char>, method: Seq<char>)
    ensures
        is_credential_call("secrets"@, method),
        is_credential_call("sync"@, "exportOxide"@),
        is_credential_call("sync"@, "previewImport"@),
        is_credential_call("sync"@, "importOxide"@),
        namespace != "secrets"@ && namespace != "sync"@ ==> !is_credential_call(namespace, method),
        namespace == "sync"@ && method != "exportOxide"@ && method != "previewImport"@ && method
            != "importOxide"@ ==> !is_credential_call(namespace, method),
{
    reveal_strlit("secrets");
    reveal_strlit("sync");
    assert("secrets"@.len() == 7);
    assert("sync"@.len() == 4);
}

/// Clearing a call with credentials takes its arguments and leaves everything else; any other
/// message stays as it is.
pub proof fn law_clearing_takes_arguments_only(
    message: MessageView,
    request_id: Seq<char>,
    namespace: Seq<char>,
    method: Seq<char>,
    args: JsonView,
)
    ensures
        ({
            let call = MessageView::CallHostApi { request_id, namespace, method, args };
            &&& is_credential_call(namespace, method) ==> cleared_message(call) == (
            MessageView::CallHostApi { request_id, namespace, method, args: JsonView::Null })
            &&& !is_credential_call(namespace, method) ==> cleared_message(call) == call
            &&& carries_credentials(call) == is_credential_call(namespace, method)
        }),
        !(message is CallHostApi) ==> cleared_message(message) == message && !carries_credentials(
            message,
        ),
{
}

/// The names of kinds, levels and errors.
pub proof fn law_kinds_are_named()
    ensures
        kind_wire_name(PluginRegistrationKind::Command) == "command"@,
        kind_wire_name(PluginRegistrationKind::Keybinding) == "keybinding"@,
        kind_wire_name(PluginRegistrationKind::ContextMenu) == "context-menu"@,
        kind_wire_name(PluginRegistrationKind::StatusBar) == "status-bar"@,
        kind_wire_name(PluginRegistrationKind::Tab) == "tab"@,
        kind_wire_name(PluginRegistrationKind::SidebarPanel) == "sidebar-panel"@,
        kind_wire_name(PluginRegistrationKind::ActivityBarItem) == "activity-bar-item"@,
        kind_wire_name(PluginRegistrationKind::TerminalInputInterceptor) == "terminal-input-interceptor"@,
        kind_wire_name(PluginRegistrationKind::TerminalOutputProcessor) == "terminal-output-processor"@,
        kind_wire_name(PluginRegistrationKind::TerminalShortcut) == "terminal-shortcut"@,
        kind_wire_name(PluginRegistrationKind::EventSubscription) == "event-subscription"@,
        kind_wire_name(PluginRegistrationKind::Progress) == "progress"@,
        kind_debug_name(PluginRegistrationKind::Command) == "Command"@,
        kind_debug_name(PluginRegistrationKind::Keybinding) == "Keybinding"@,
        kind_debug_name(PluginRegistrationKind::ContextMenu) == "ContextMenu"@,
        kind_debug_name(PluginRegistrationKind::StatusBar) == "StatusBar"@,
        kind_debug_name(PluginRegistrationKind::Tab) == "Tab"@,
        kind_debug_name(PluginRegistrationKind::SidebarPanel) == "SidebarPanel"@,
        kind_debug_name(PluginRegistrationKind::ActivityBarItem) == "ActivityBarItem"@,
        kind_debug_name(PluginRegistrationKind::TerminalInputInterceptor) == "TerminalInputInterceptor"@,
        kind_debug_name(PluginRegistrationKind::TerminalOutputProcessor) == "TerminalOutputProcessor"@,
        kind_debug_name(PluginRegistrationKind::TerminalShortcut) == "TerminalShortcut"@,
        kind_debug_name(PluginRegistrationKind::EventSubscription) == "EventSubscription"@,
        kind_debug_name(PluginRegistrationKind::Progress) == "Progress"@,
        log_level_name(PluginRuntimeLogLevel::Debug) == "Debug"@,
        log_level_name(PluginRuntimeLogLevel::Info) == "Info"@,
        log_level_name(PluginRuntimeLogLevel::Warn) == "Warn"@,
        log_level_name(PluginRuntimeLogLevel::Error) == "Error"@,
        error_kind_name(PluginErrorKind::Protocol) == "Protocol"@,
        error_kind_name(PluginErrorKind::Runtime) == "Runtime"@,
{
}

/// A call is shown with its names; its arguments are shown unless they are credentials.
pub proof fn law_calls_are_shown_by_name(
    request_id: String,
    namespace: String,
    method: String,
    args: Value,
)
    ensures
        ({
            let shown = message_debug(
                PluginOutboundMessage::CallHostApi { request_id, namespace, method, args },
            );
            let head = "CallHostApi { request_id: "@ + quoted(request_id@) + ", namespace: "@
                + quoted(namespace@) + ", method: "@ + quoted(method@) + ", args: "@;
            &&& is_credential_call(namespace@, method@) ==> shown == head + quoted("<redacted>"@)
                + seq![' ', '}']
            &&& !is_credential_call(namespace@, method@) ==> shown == head + json_debug_form(args)
                + seq![' ', '}']
        }),
{
    reveal_strlit(" }");
    assert(" }"@ =~= seq![' ', '}']);
}

/// How the other messages are shown.
pub proof fn law_messages_are_shown(
    registration_id: String,
    level: PluginRuntimeLogLevel,
    text: String,
    error: PluginError,
    value: Value,
    event: PluginEvent,
    registration: PluginRegistration,
)
    ensures
        message_debug(PluginOutboundMessage::RuntimeReady) == "RuntimeReady"@,
        message_debug(PluginOutboundMessage::DisposeContribution { registration_id })
            == "DisposeContribution { registration_id: "@ + quoted(registration_id@) + " }"@,
        message_debug(PluginOutboundMessage::Log { level, message: text }) == "Log { level: "@
            + log_level_name(level) + ", message: "@ + quoted(text@) + " }"@,
        message_debug(PluginOutboundMessage::ReportProgress { registration_id, value })
            == "ReportProgress { registration_id: "@ + quoted(registration_id@) + ", value: "@
            + json_debug_form(value) + " }"@,
        message_debug(PluginOutboundMessage::RuntimeError { error }) == "RuntimeError { error: "@
            + error_debug(error@) + " }"@,
        error_debug(error@) == "PluginError { kind: "@ + error_kind_name(error.kind) + ", code: "@
            + quoted(error.code@) + ", message: "@ + quoted(error.message@) + " }"@,
        message_debug(PluginOutboundMessage::EmitEvent { event })
            == "EmitEvent { event: PluginEvent { name: "@ + quoted(event.name@) + ", payload: "@
            + json_debug_form(event.payload) + " } }"@,
        message_debug(PluginOutboundMessage::RegisterContribution { registration })
            == "RegisterContribution { registration: PluginRegistration { registration_id: "@
            + quoted(registration.registration_id@) + ", plugin_id: "@ + quoted(
            registration.plugin_id@,
        ) + ", kind: "@ + kind_debug_name(registration.kind) + ", metadata: "@ + json_debug_form(
            registration.metadata,
        ) + " } }"@,
{
}

/// How requests and answers are shown.
pub proof fn law_requests_are_shown(
    request: PluginRequest,
    response: PluginResponse,
    activation: Seq<char>,
    ms: u64,
)
    ensures
        timeout_debug(Some(ms)) == seq!['S', 'o', 'm', 'e', '('] + decimal(ms as nat) + seq![')'],
        timeout_debug(None) == seq!['N', 'o', 'n', 'e'],
        request_debug(request, activation) == "PluginRequest { request_id: "@ + quoted(
            request.request_id@,
        ) + ", kind: "@ + request_kind_debug(request.kind, activation) + ", timeout_ms: "@
            + timeout_debug(request.timeout_ms) + " }"@,
        request_kind_debug(PluginRequestKind::Deactivate, activation) == "Deactivate"@,
        request_kind_debug(PluginRequestKind::Health, activation) == "Health"@,
        request_kind_debug(PluginRequestKind::Kill, activation) == "Kill"@,
        response.result is Success ==> response_debug(response)
            == "PluginResponse { request_id: "@ + quoted(response.request_id@) + ", result: "@ + (
        "Ok { value: "@ + quoted("<redacted>"@) + " }"@) + " }"@,
        response.result matches PluginResponseResult::Error { error } ==> response_debug(response)
            == "PluginResponse { request_id: "@ + quoted(response.request_id@) + ", result: "@ + (
        "Error { error: "@ + error_debug(error@) + " }"@) + " }"@,
{
    reveal_strlit("Some(");
    reveal_strlit(")");
    reveal_strlit("None");
    assert("Some("@ =~= seq!['S', 'o', 'm', 'e', '(']);
    assert(")"@ =~= seq![')']);
    assert("None"@ =~= seq!['N', 'o', 'n', 'e']);
}

/// Which requests carry credentials: those that make such a host call.
pub proof fn law_requests_with_credentials_are_known(
    kind: PluginRequestKind,
    namespace: String,
    method: String,
    args: Value,
)
    ensures
        asks_with_credentials(PluginRequestKind::CallHostApi { namespace, method, args })
            == is_credential_call(namespace@, method@),
        !(kind is CallHostApi) ==> !asks_with_credentials(kind),
{
}

} // verus!
