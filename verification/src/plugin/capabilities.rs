//! Capability names used by the gates of the host interface.

use vstd::prelude::*;

verus! {

pub const NATIVE_PLUGIN_CAPABILITY_FILESYSTEM_READ: &'static str = "filesystem.read";

pub const NATIVE_PLUGIN_CAPABILITY_FILESYSTEM_WRITE: &'static str = "filesystem.write";

pub const NATIVE_PLUGIN_CAPABILITY_FILESYSTEM_DELETE: &'static str = "filesystem.delete";

pub const NATIVE_PLUGIN_CAPABILITY_NETWORK_FORWARD: &'static str = "network.forward";

pub const NATIVE_PLUGIN_CAPABILITY_NETWORK_FORWARD_READ: &'static str = "network.forward.read";

pub const NATIVE_PLUGIN_CAPABILITY_APP_SETTINGS_READ: &'static str = "app.settings.read";

pub const NATIVE_PLUGIN_CAPABILITY_APP_SYNC_REFRESH: &'static str = "app.sync.refresh";

pub const NATIVE_PLUGIN_CAPABILITY_CONNECTIONS_READ: &'static str = "connections.read";

pub const NATIVE_PLUGIN_CAPABILITY_CONNECTIONS_CONTROL: &'static str = "connections.control";

pub const NATIVE_PLUGIN_CAPABILITY_SESSIONS_READ: &'static str = "sessions.read";

pub const NATIVE_PLUGIN_CAPABILITY_TERMINAL_CONTENT_READ: &'static str = "terminal.content.read";

pub const NATIVE_PLUGIN_CAPABILITY_TERMINAL_WRITE: &'static str = "terminal.write";

pub const NATIVE_PLUGIN_CAPABILITY_CREDENTIALS_MANAGE: &'static str = "credentials.manage";

pub const NATIVE_PLUGIN_CAPABILITY_CREDENTIALS_RAW_READ: &'static str = "credentials.raw.read";

pub const NATIVE_PLUGIN_CAPABILITY_NETWORK_HTTP: &'static str = "network.http";

pub const NATIVE_PLUGIN_CAPABILITY_SYNC_READ: &'static str = "sync.read";

pub const NATIVE_PLUGIN_CAPABILITY_SYNC_WRITE: &'static str = "sync.write";

pub const NATIVE_PLUGIN_CAPABILITY_TRANSFERS_READ: &'static str = "transfers.read";

pub const NATIVE_PLUGIN_CAPABILITY_IDE_READ: &'static str = "ide.read";

pub const NATIVE_PLUGIN_CAPABILITY_AI_CONTENT_READ: &'static str = "ai.content.read";

pub const NATIVE_PLUGIN_CAPABILITY_AI_WRITE: &'static str = "ai.write";

pub const NATIVE_PLUGIN_CAPABILITY_IDE_WRITE: &'static str = "ide.write";

pub const NATIVE_PLUGIN_CAPABILITY_HOST_TOOLS_READ: &'static str = "host_tools.read";

pub const NATIVE_PLUGIN_CAPABILITY_HOST_TOOLS_WRITE: &'static str = "host_tools.write";

pub const NATIVE_PLUGIN_CAPABILITY_HOST_TOOLS_DESTRUCTIVE: &'static str = "host_tools.destructive";

pub const NATIVE_PLUGIN_CAPABILITY_HOST_TOOLS_CUSTOM_EXECUTE: &'static str = "host_tools.custom.execute";

pub const NATIVE_PLUGIN_CAPABILITY_NOTIFICATIONS_READ: &'static str = "notifications.read";

pub const NATIVE_PLUGIN_CAPABILITY_NOTIFICATIONS_MANAGE: &'static str = "notifications.manage";

pub const NATIVE_PLUGIN_CAPABILITY_QUICK_COMMANDS_READ: &'static str = "quick_commands.read";

pub const NATIVE_PLUGIN_CAPABILITY_QUICK_COMMANDS_MANAGE: &'static str = "quick_commands.manage";

pub const NATIVE_PLUGIN_CAPABILITY_QUICK_COMMANDS_EXECUTE: &'static str = "quick_commands.execute";

pub const NATIVE_PLUGIN_CAPABILITY_THEME_WRITE: &'static str = "theme.write";

pub const NATIVE_PLUGIN_CAPABILITY_CLOUD_SYNC_READ: &'static str = "cloud_sync.read";

pub const NATIVE_PLUGIN_CAPABILITY_CLOUD_SYNC_CONTROL: &'static str = "cloud_sync.control";

pub const NATIVE_PLUGIN_CAPABILITY_CLOUD_SYNC_APPLY: &'static str = "cloud_sync.apply";

pub const NATIVE_PLUGIN_CAPABILITY_LEGACY_INVOKE: &'static str = "legacy.invoke";

pub const NATIVE_PLUGIN_CAPABILITY_EVENTS_EMIT: &'static str = "events.emit";

pub const NATIVE_PLUGIN_CAPABILITY_PLUGIN_SETTINGS_WRITE: &'static str = "plugin.settings.write";

pub const NATIVE_PLUGIN_CAPABILITY_UI_WRITE: &'static str = "ui.write";

/// What a plugin asks for is written in its manifest as follows.
pub proof fn law_capabilities_are_written_as_granted()
    ensures
        NATIVE_PLUGIN_CAPABILITY_FILESYSTEM_READ@ == "filesystem.read"@,
        NATIVE_PLUGIN_CAPABILITY_FILESYSTEM_WRITE@ == "filesystem.write"@,
        NATIVE_PLUGIN_CAPABILITY_FILESYSTEM_DELETE@ == "filesystem.delete"@,
        NATIVE_PLUGIN_CAPABILITY_NETWORK_FORWARD@ == "network.forward"@,
        NATIVE_PLUGIN_CAPABILITY_NETWORK_FORWARD_READ@ == "network.forward.read"@,
        NATIVE_PLUGIN_CAPABILITY_APP_SETTINGS_READ@ == "app.settings.read"@,
        NATIVE_PLUGIN_CAPABILITY_APP_SYNC_REFRESH@ == "app.sync.refresh"@,
        NATIVE_PLUGIN_CAPABILITY_CONNECTIONS_READ@ == "connections.read"@,
        NATIVE_PLUGIN_CAPABILITY_CONNECTIONS_CONTROL@ == "connections.control"@,
        NATIVE_PLUGIN_CAPABILITY_SESSIONS_READ@ == "sessions.read"@,
        NATIVE_PLUGIN_CAPABILITY_TERMINAL_CONTENT_READ@ == "terminal.content.read"@,
        NATIVE_PLUGIN_CAPABILITY_TERMINAL_WRITE@ == "terminal.write"@,
        NATIVE_PLUGIN_CAPABILITY_CREDENTIALS_MANAGE@ == "credentials.manage"@,
        NATIVE_PLUGIN_CAPABILITY_CREDENTIALS_RAW_READ@ == "credentials.raw.read"@,
        NATIVE_PLUGIN_CAPABILITY_NETWORK_HTTP@ == "network.http"@,
        NATIVE_PLUGIN_CAPABILITY_SYNC_READ@ == "sync.read"@,
        NATIVE_PLUGIN_CAPABILITY_SYNC_WRITE@ == "sync.write"@,
        NATIVE_PLUGIN_CAPABILITY_TRANSFERS_READ@ == "transfers.read"@,
        NATIVE_PLUGIN_CAPABILITY_IDE_READ@ == "ide.read"@,
        NATIVE_PLUGIN_CAPABILITY_AI_CONTENT_READ@ == "ai.content.read"@,
        NATIVE_PLUGIN_CAPABILITY_AI_WRITE@ == "ai.write"@,
        NATIVE_PLUGIN_CAPABILITY_IDE_WRITE@ == "ide.write"@,
        NATIVE_PLUGIN_CAPABILITY_HOST_TOOLS_READ@ == "host_tools.read"@,
        NATIVE_PLUGIN_CAPABILITY_HOST_TOOLS_WRITE@ == "host_tools.write"@,
        NATIVE_PLUGIN_CAPABILITY_HOST_TOOLS_DESTRUCTIVE@ == "host_tools.destructive"@,
        NATIVE_PLUGIN_CAPABILITY_HOST_TOOLS_CUSTOM_EXECUTE@ == "host_tools.custom.execute"@,
        NATIVE_PLUGIN_CAPABILITY_NOTIFICATIONS_READ@ == "notifications.read"@,
        NATIVE_PLUGIN_CAPABILITY_NOTIFICATIONS_MANAGE@ == "notifications.manage"@,
        NATIVE_PLUGIN_CAPABILITY_QUICK_COMMANDS_READ@ == "quick_commands.read"@,
        NATIVE_PLUGIN_CAPABILITY_QUICK_COMMANDS_MANAGE@ == "quick_commands.manage"@,
        NATIVE_PLUGIN_CAPABILITY_QUICK_COMMANDS_EXECUTE@ == "quick_commands.execute"@,
        NATIVE_PLUGIN_CAPABILITY_THEME_WRITE@ == "theme.write"@,
        NATIVE_PLUGIN_CAPABILITY_CLOUD_SYNC_READ@ == "cloud_sync.read"@,
        NATIVE_PLUGIN_CAPABILITY_CLOUD_SYNC_CONTROL@ == "cloud_sync.control"@,
        NATIVE_PLUGIN_CAPABILITY_CLOUD_SYNC_APPLY@ == "cloud_sync.apply"@,
        NATIVE_PLUGIN_CAPABILITY_LEGACY_INVOKE@ == "legacy.invoke"@,
        NATIVE_PLUGIN_CAPABILITY_EVENTS_EMIT@ == "events.emit"@,
        NATIVE_PLUGIN_CAPABILITY_PLUGIN_SETTINGS_WRITE@ == "plugin.settings.write"@,
        NATIVE_PLUGIN_CAPABILITY_UI_WRITE@ == "ui.write"@,
{
}

} // verus!
