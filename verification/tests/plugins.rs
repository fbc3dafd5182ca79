use hapcli::order::Order;
use hapcli::paths::LocalPath;
use hapcli::plugin::capabilities::{
    NATIVE_PLUGIN_CAPABILITY_FILESYSTEM_READ, NATIVE_PLUGIN_CAPABILITY_FILESYSTEM_WRITE,
};
use hapcli::plugin::contributions::{
    validate_native_plugin_contributions, validate_plugin_setting_value,
};
use hapcli::plugin::declarative_ui::{
    native_plugin_declarative_control_requires_id, validate_native_plugin_declarative_ui_schema,
};
use hapcli::plugin::events::{
    native_plugin_custom_event_key, native_plugin_runtime_subscription_event,
    runtime_metadata_string, validate_native_plugin_id, validate_plugin_event_name,
    validate_plugin_relative_path,
};
use hapcli::plugin::manifest::{
    NativePluginContributes, NativePluginDeclarativeUiControl, NativePluginDeclarativeUiSchema, NativePluginManifest,
    NativePluginPermissions, NativePluginRuntime, NativePluginRuntimeKind, NativePluginSettingDef,
    NativePluginSidebarDef, NativePluginTabDef,
};
use hapcli::plugin::protocol::{
    zeroize_json_value, PluginError, PluginHostCallSensitivity, PluginOutboundMessage,
    PluginPermissionSet, PluginRegistrationKind, PluginRequest, PluginRequestKind, PluginResponse,
    PluginResponseResult,
};
use hapcli::plugin::registry::{
    check_process_entry, manifest_declared_tab, native_plugin_state_for, native_plugin_state_for_manifest,
    native_runtime_kind_label, native_runtime_plan_for_manifest,
    quarantine_corrupt_native_plugin_config, runtime_context_menu_items, runtime_entry,
    validate_native_plugin_manifest, validate_plugin_storage_key, validate_plugin_storage_size,
    NativePluginConfigEntry, NativePluginRuntimePlan, NativePluginState,
};
use hapcli::plugin::scp::{
    native_plugin_scp_check_capability, native_plugin_scp_response, plan_transfer, scp_denied,
    scp_node_id_arg, scp_transfer_id, LocalDownloadDisposition, ScpAction, ScpCall, ScpEvent,
    ScpOutcome, TransferDirection,
};
use hapcli::plugin::wasm_runtime::{
    resolve_wasm_runtime_entry, version_matches_requirement, ParsedVersion, WasmRuntimeDescriptor,
    WasmRuntimeHostChannel, WasmRuntimeSupport,
};
use serde_json::Value;

fn json(text: &str) -> Value {
    serde_json::from_str(text).unwrap()
}

fn permissions(capabilities: &[&str]) -> PluginPermissionSet {
    PluginPermissionSet {
        capabilities: capabilities.iter().map(|capability| capability.to_string()).collect(),
        allowed_host_apis: vec![],
    }
}

fn host_call(namespace: &str, method: &str, args: &str) -> PluginOutboundMessage {
    PluginOutboundMessage::CallHostApi {
        request_id: "call-1".to_string(),
        namespace: namespace.to_string(),
        method: method.to_string(),
        args: json(args),
    }
}

fn request(method: &str) -> PluginRequest {
    PluginRequest {
        request_id: "sync-1".to_string(),
        kind: PluginRequestKind::CallHostApi {
            namespace: "sync".to_string(),
            method: method.to_string(),
            args: json(r#"{ "password": "sensitive-value" }"#),
        },
        timeout_ms: Some(1_000),
    }
}

fn manifest() -> NativePluginManifest {
    NativePluginManifest {
        id: "com.example.demo".to_string(),
        name: "Demo".to_string(),
        version: "1.0.0".to_string(),
        description: None,
        author: None,
        main: None,
        engines: None,
        manifest_version: None,
        format: None,
        assets: None,
        styles: None,
        shared_dependencies: None,
        repository: None,
        checksum: None,
        contributes: None,
        locales: None,
        runtime: None,
        permissions: NativePluginPermissions { capabilities: vec![] },
    }
}

fn no_contributions() -> NativePluginContributes {
    NativePluginContributes {
        tabs: None,
        sidebar_panels: None,
        activity_bar_items: None,
        settings: None,
        terminal_hooks: None,
        terminal_transports: None,
        connection_hooks: None,
        ai_tools: None,
        api_commands: None,
        host_monitors: None,
    }
}

fn descriptor() -> WasmRuntimeDescriptor {
    WasmRuntimeDescriptor {
        name: "hapcli-wasm-runtime".to_string(),
        version: "0.1.0".to_string(),
        runtime_channel: "stable".to_string(),
        supports: WasmRuntimeSupport {
            hapcli_channels: vec![
                WasmRuntimeHostChannel::Stable,
                WasmRuntimeHostChannel::Beta,
                WasmRuntimeHostChannel::GpuiPreview,
            ],
            hapcli_versions: vec![
                ">=2.0.0 <3.0.0".to_string(),
                ">=2.0.0-beta.0 <3.0.0".to_string(),
                ">=2.0.0-gpui-preview.0 <3.0.0".to_string(),
            ],
            plugin_protocol: vec![1],
            wasm_guest_abi: vec![1],
            wasi: vec!["preview1".to_string()],
        },
        assets: vec![],
    }
}

#[test]
fn scp_methods_use_existing_filesystem_capabilities() {
    let read = permissions(&[NATIVE_PLUGIN_CAPABILITY_FILESYSTEM_READ]);
    let write = permissions(&[NATIVE_PLUGIN_CAPABILITY_FILESYSTEM_WRITE]);
    assert!(native_plugin_scp_check_capability("download", &read).is_ok());
    assert!(native_plugin_scp_check_capability("upload", &write).is_ok());
    assert!(native_plugin_scp_check_capability("upload", &read).is_err());
    assert!(native_plugin_scp_check_capability("download", &write).is_err());
    assert_eq!(
        native_plugin_scp_check_capability("upload", &read),
        Err(
            "Native plugin SCP host call \"upload\" requires capability \"filesystem.write\""
                .to_string()
        )
    );
}

#[test]
fn classifies_all_credential_bearing_host_calls() {
    for (namespace, method) in [
        ("secrets", "get"),
        ("secrets", "set"),
        ("sync", "exportOxide"),
        ("sync", "previewImport"),
        ("sync", "importOxide"),
    ] {
        assert!(PluginHostCallSensitivity::classify(namespace, method).is_sensitive());
    }
    assert_eq!(
        PluginHostCallSensitivity::classify("sync", "validateOxide"),
        PluginHostCallSensitivity::Public
    );
}

#[test]
fn activity_bar_registration_kind_uses_stable_wire_name() {
    assert_eq!(PluginRegistrationKind::ActivityBarItem.wire_name(), "activity-bar-item");
}

#[test]
fn secret_host_call_message_debug_redacts_arguments() {
    let message =
        host_call("secrets", "set", r#"{ "key": "token", "value": "sensitive-value" }"#);
    let rendered = message.debug_text();
    assert!(rendered.contains("<redacted>"));
    assert!(!rendered.contains("sensitive-value"));
    let shown = host_call("ui", "show", r#"{ "text": "plain-value" }"#).debug_text();
    assert!(shown.contains("plain-value"));
}

#[test]
fn sync_password_host_call_cannot_use_public_clone_path() {
    let message = host_call("sync", "exportOxide", r#"{ "password": "sensitive-value" }"#);
    assert!(message.clone_public().is_none());
    assert!(!message.debug_text().contains("sensitive-value"));
    assert!(host_call("ui", "show", "{}").clone_public().is_some());
}

#[test]
fn sensitive_host_call_request_debug_redacts_arguments() {
    let rendered = request("exportOxide").debug_text("");
    assert!(rendered.contains("<redacted>"));
    assert!(!rendered.contains("sensitive-value"));
}

#[test]
fn sensitive_host_call_request_can_clear_owned_arguments() {
    let mut request = request("previewImport");
    request.zeroize_sensitive_host_call_args();
    let PluginRequestKind::CallHostApi { args, .. } = request.kind else {
        panic!("request kind should remain a host call");
    };
    assert!(args.is_null());
}

#[test]
fn successful_response_debug_never_prints_payload() {
    let response = PluginResponse::sensitive_ok("secret-1", json(r#""sensitive-value""#));
    let rendered = response.debug_text();
    assert!(rendered.contains("<redacted>"));
    assert!(!rendered.contains("sensitive-value"));
}

#[test]
fn sensitive_response_payload_can_be_zeroized_after_transport() {
    let mut response =
        PluginResponse::sensitive_ok("secret-2", json(r#"{ "token": "sensitive-value" }"#));
    response.zeroize_sensitive_payload();
    match response.result {
        PluginResponseResult::Success { value } => assert!(value.is_null()),
        _ => panic!("the response should stay a success"),
    }
}

#[test]
fn public_values_are_kept_and_cleared() {
    let mut response = PluginResponse::ok("id", json("[1]"));
    response.zeroize_sensitive_payload();
    match response.result {
        PluginResponseResult::Success { value } => assert_eq!(value, json("[1]")),
        _ => panic!("the response should stay a success"),
    }
    let mut value = json(r#"{ "a": ["b", { "c": 1 }] }"#);
    zeroize_json_value(&mut value);
    assert!(value.is_null());
    let response = PluginResponse::error("id", PluginError::runtime("x", "y".to_string()));
    assert!(matches!(response.result, PluginResponseResult::Error { .. }));
}

#[test]
fn runtime_index_parses_host_update_channels() {
    let channels = descriptor().supports.hapcli_channels;
    assert!(channels.contains(&WasmRuntimeHostChannel::Stable));
    assert!(channels.contains(&WasmRuntimeHostChannel::Beta));
    assert!(channels.contains(&WasmRuntimeHostChannel::GpuiPreview));
}

#[test]
fn runtime_supports_stable_beta_and_gpui_preview_hosts() {
    let descriptor = descriptor();
    assert!(descriptor.supports_host(WasmRuntimeHostChannel::Stable, "2.0.0", 1, 1, "preview1"));
    assert!(descriptor.supports_host(
        WasmRuntimeHostChannel::Beta,
        "2.0.0-beta.4",
        1,
        1,
        "preview1"
    ));
    assert!(descriptor.supports_host(
        WasmRuntimeHostChannel::GpuiPreview,
        "2.0.0-gpui-preview.8",
        1,
        1,
        "preview1"
    ));
}

#[test]
fn runtime_rejects_wrong_host_channel_or_abi() {
    let mut descriptor = descriptor();
    descriptor.supports.hapcli_channels = vec![WasmRuntimeHostChannel::Stable];
    assert!(!descriptor.supports_host(
        WasmRuntimeHostChannel::GpuiPreview,
        "2.0.0-gpui-preview.8",
        1,
        1,
        "preview1"
    ));
    assert!(!descriptor.supports_host(WasmRuntimeHostChannel::Stable, "2.0.0", 2, 1, "preview1"));
    assert!(!descriptor.supports_host(WasmRuntimeHostChannel::Stable, "2.0.0", 1, 2, "preview1"));
    assert!(!descriptor.supports_host(WasmRuntimeHostChannel::Stable, "2.0.0", 1, 1, "preview2"));
}

#[test]
fn stable_host_range_does_not_accidentally_cover_prerelease_hosts() {
    let mut descriptor = descriptor();
    descriptor.supports.hapcli_channels = vec![WasmRuntimeHostChannel::Stable];
    descriptor.supports.hapcli_versions = vec![">=2.0.0 <3.0.0".to_string()];
    assert!(!descriptor.supports_host(
        WasmRuntimeHostChannel::Stable,
        "2.0.0-beta.1",
        1,
        1,
        "preview1"
    ));
}

#[test]
fn runtime_versions_are_ordered() {
    let early = ParsedVersion::parse("2.0.0-beta.9").unwrap();
    let late = ParsedVersion::parse("2.0.0-beta.10").unwrap();
    assert_eq!(early.compare(&late), Order::Less);
    assert_eq!(late.compare(&early), Order::Greater);
    assert_eq!(late.compare(&ParsedVersion::parse("2.0.0").unwrap()), Order::Less);
    assert!(ParsedVersion::parse("2.x").is_none());
    assert!(version_matches_requirement("2.1.0", ">=2.0.0 <3.0.0"));
    assert!(!version_matches_requirement("3.0.0", ">=2.0.0 <3.0.0"));
}

#[test]
fn runtime_entries_stay_below_the_plugin() {
    let dir = LocalPath { components: vec!["/".to_string(), "p".to_string()] };
    let module = LocalPath {
        components: vec!["/".to_string(), "p".to_string(), "m.wasm".to_string()],
    };
    let outside = LocalPath { components: vec!["/".to_string(), "m.wasm".to_string()] };
    let magic = vec![0x00, 0x61, 0x73, 0x6d, 1, 0, 0, 0];
    assert!(resolve_wasm_runtime_entry(
        "m.wasm",
        Ok(dir.clone()),
        Ok(module.clone()),
        Ok(magic.clone())
    )
    .is_ok());
    assert!(resolve_wasm_runtime_entry("m.wasm", Ok(dir.clone()), Ok(outside), Ok(magic)).is_err());
    assert!(resolve_wasm_runtime_entry("m.wasm", Ok(dir), Ok(module), Ok(vec![1, 2])).is_err());
    assert!(check_process_entry("../bin/x").is_err());
}

#[test]
fn identifiers_paths_and_events_are_checked() {
    assert!(validate_native_plugin_id("com.example.demo").is_ok());
    assert!(validate_native_plugin_id("../x").is_err());
    assert!(validate_plugin_relative_path("a/b.js").is_ok());
    assert!(validate_plugin_relative_path("/a").is_err());
    assert!(validate_plugin_event_name("").is_err());
    let key = native_plugin_custom_event_key("com.example.demo", "changed").unwrap();
    assert!(key.contains("com.example.demo"));
    assert!(key.contains("changed"));
    let metadata = json(r#"{ "event": "changed", "label": "x" }"#);
    assert_eq!(runtime_metadata_string(&metadata, "label"), Some("x".to_string()));
    assert_eq!(runtime_metadata_string(&metadata, "none"), None);
    assert!(native_plugin_runtime_subscription_event(&json("{}"), "com.example.demo").is_err());
}

#[test]
fn runtimes_are_planned_by_the_manifest() {
    let mut plugin = manifest();
    assert_eq!(
        native_runtime_plan_for_manifest(&plugin).ok().map(|plan| native_runtime_kind_label(&plan)),
        Some(native_runtime_kind_label(&NativePluginRuntimePlan::ManifestOnly))
    );
    plugin.runtime = Some(NativePluginRuntime {
        kind: NativePluginRuntimeKind::Wasm,
        entry: "main.wasm".to_string(),
    });
    let plan = native_runtime_plan_for_manifest(&plugin).ok().unwrap();
    assert_eq!(runtime_entry(&plan), Some("main.wasm"));
    let mut config =
        NativePluginConfigEntry { enabled: true, auto_disabled: false, last_error: None };
    assert!(matches!(native_plugin_state_for(&plan, &config), NativePluginState::ReadyWasm));
    config.enabled = false;
    assert!(matches!(
        native_plugin_state_for_manifest(false, &plan, &config),
        NativePluginState::Disabled
    ));
    assert!(validate_native_plugin_manifest(&plugin, Ok(())).is_ok());
    plugin.id = String::new();
    assert!(validate_native_plugin_manifest(&plugin, Ok(())).is_err());
    let renamed = quarantine_corrupt_native_plugin_config("plugins.json", "corrupt", 7);
    assert!(renamed.contains("plugins.json"));
    assert!(renamed.contains('7'));
}

#[test]
fn contributions_are_checked() {
    let mut contributes = no_contributions();
    assert!(validate_native_plugin_contributions(&contributes).is_ok());
    contributes.tabs = Some(vec![NativePluginTabDef {
        id: "main".to_string(),
        title: "Main".to_string(),
        icon: "box".to_string(),
    }]);
    assert!(validate_native_plugin_contributions(&contributes).is_ok());
    contributes.sidebar_panels = Some(vec![NativePluginSidebarDef {
        id: "side".to_string(),
        title: "Side".to_string(),
        icon: "box".to_string(),
        position: "nowhere".to_string(),
    }]);
    assert!(validate_native_plugin_contributions(&contributes).is_err());
    let mut plugin = manifest();
    contributes.sidebar_panels = None;
    plugin.contributes = Some(contributes);
    assert!(manifest_declared_tab(&plugin, "main").is_some());
    assert!(manifest_declared_tab(&plugin, "other").is_none());
}

#[test]
fn settings_have_the_type_that_they_declare() {
    let setting = NativePluginSettingDef {
        id: "flag".to_string(),
        setting_type: "boolean".to_string(),
        default: json("true"),
        title: "Flag".to_string(),
        description: None,
        options: None,
    };
    assert!(validate_plugin_setting_value(&setting, &json("false")).is_ok());
    assert!(validate_plugin_setting_value(&setting, &json("1")).is_err());
}

fn text_control() -> NativePluginDeclarativeUiControl {
    NativePluginDeclarativeUiControl {
        kind: "text".to_string(),
        id: Some("t".to_string()),
        label: Some("Label".to_string()),
        description: None,
        placeholder: None,
        icon: None,
        variant: None,
        tone: None,
        size: None,
        gap: None,
        value: None,
        text: None,
        language: None,
        options: None,
        rows: None,
        columns: None,
        column_defs: None,
        children: vec![],
        min: None,
        max: None,
        step: None,
        indeterminate: false,
        strong: false,
        disabled: false,
        loading: false,
    }
}

#[test]
fn declarative_schemas_are_bounded() {
    let mut schema = NativePluginDeclarativeUiSchema {
        component_version: 1,
        kind: "form".to_string(),
        title: None,
        description: None,
        sections: vec![],
        controls: vec![],
    };
    let kinds = ["text", "button"];
    assert_eq!(
        validate_native_plugin_declarative_ui_schema(&schema, Ok(10), &kinds),
        Err("Runtime declarative UI schema requires sections or controls".to_string())
    );
    schema.controls.push(text_control());
    assert!(validate_native_plugin_declarative_ui_schema(&schema, Ok(10), &kinds).is_ok());
    assert!(
        validate_native_plugin_declarative_ui_schema(&schema, Ok(usize::MAX), &kinds).is_err()
    );
    schema.component_version = 9;
    assert!(validate_native_plugin_declarative_ui_schema(&schema, Ok(10), &kinds).is_err());
    assert!(native_plugin_declarative_control_requires_id("button"));
}

#[test]
fn storage_and_menus_are_checked() {
    assert!(validate_plugin_storage_key("key", 64).is_ok());
    assert!(validate_plugin_storage_key("", 64).is_err());
    assert!(validate_plugin_storage_size(&json(r#"{ "a": 1 }"#), 100).is_ok());
    assert!(validate_plugin_storage_size(&json(r#"{ "a": 1 }"#), 3).is_err());
    let items = runtime_context_menu_items(&json(
        r#"{ "items": [{ "label": "Open", "enabled": false }] }"#,
    ))
    .unwrap();
    assert_eq!(items.len(), 1);
    assert_eq!(items[0].label, "Open");
    assert!(!items[0].enabled);
}

#[test]
fn scp_calls_go_through_their_steps() {
    let args = json(
        r#"{ "nodeId": "n1", "localPath": "/l", "remotePath": "/r", "transferId": "t1" }"#,
    );
    assert_eq!(scp_node_id_arg(&args), Ok("n1".to_string()));
    assert_eq!(
        scp_node_id_arg(&json("{}")),
        Err("SCP calls require a non-empty args.nodeId".to_string())
    );
    assert_eq!(scp_transfer_id(&args), "t1");
    let fresh = scp_transfer_id(&json("{}"));
    assert_ne!(fresh, scp_transfer_id(&json("{}")));
    assert_eq!(fresh.len(), "plugin-scp-".len() + 36);
    assert_eq!(fresh.chars().nth("plugin-scp-".len() + 14), Some('4'));
    let transfer = plan_transfer("upload", &args, "n1".to_string(), "t1".to_string()).unwrap();
    assert!(matches!(transfer.direction, TransferDirection::Upload));
    assert_eq!(transfer.local_path, "/l");
    assert_eq!(transfer.disposition, None);
    let download = plan_transfer("download", &args, "n1".to_string(), "t1".to_string()).unwrap();
    assert_eq!(download.disposition, Some(LocalDownloadDisposition::CreateNew));
    let mut call = ScpCall::new("upload".to_string(), args);
    assert!(matches!(call.step(ScpEvent::Begin), ScpAction::Resolve { .. }));
    assert!(matches!(
        call.step(ScpEvent::Resolved { result: Ok(()) }),
        ScpAction::QueryCapabilities | ScpAction::Move { .. }
    ));
    let ended = ScpEvent::Ended { outcome: ScpOutcome::Done { bytes: 3, items: 1 } };
    let _ = call.step(ended);
    assert!(scp_denied("id", "upload", &permissions(&[])).is_some());
    let reply = native_plugin_scp_response("id", Some(Err("no".to_string())));
    assert!(matches!(reply.result, PluginResponseResult::Error { .. }));
}
