//! SCP calls of plugins: which capability a call needs, which transfer it asks for, and how its
//! outcome is reported.

use crate::json::{
    json_bool, json_object, json_set, json_text, json_text_member, json_view, json_whole, opt_text,
    text_member, JsonNumber, JsonView,
};
use crate::plugin::capabilities::{
    NATIVE_PLUGIN_CAPABILITY_FILESYSTEM_READ, NATIVE_PLUGIN_CAPABILITY_FILESYSTEM_WRITE,
};
use crate::plugin::events::text_result;
use crate::plugin::protocol::{
    PluginError, PluginErrorKind, PluginErrorView, PluginPermissionSet, PluginResponse,
    ResponseView,
};
use crate::plugin::rules::problem;
use crate::text::{concat2, concat5, same, texts, trim, trimmed};
use serde_json::Value;
use uuid::Uuid;
use vstd::prelude::*;

verus! {

/// The capability that an SCP method needs; other methods need none.
pub open spec fn scp_capability(method: Seq<char>) -> Option<Seq<char>> {
    if method == "capabilities"@ || method == "download"@ || method == "downloadDirectory"@ {
        Some(NATIVE_PLUGIN_CAPABILITY_FILESYSTEM_READ@)
    } else if method == "upload"@ || method == "uploadDirectory"@ {
        Some(NATIVE_PLUGIN_CAPABILITY_FILESYSTEM_WRITE@)
    } else {
        None
    }
}

/// The problem of a call for which the needed capability was not granted.
pub open spec fn scp_capability_problem(
    method: Seq<char>,
    permissions: PluginPermissionSet,
) -> Option<Seq<char>> {
    match scp_capability(method) {
        Some(required) => if texts(permissions.capabilities@).contains(required) {
            None
        } else {
            Some(
                "Native plugin SCP host call \""@ + method + "\" requires capability \""@ + required
                    + "\""@,
            )
        },
        None => None,
    }
}

fn needed_capability(method: &str) -> (r: Option<&'static str>)
    ensures
        match r {
            Some(name) => scp_capability(method@) == Some(name@),
            None => scp_capability(method@) is None,
        },
{
    if same(method, "capabilities") || same(method, "download") || same(method, "downloadDirectory") {
        Some(NATIVE_PLUGIN_CAPABILITY_FILESYSTEM_READ)
    } else if same(method, "upload") || same(method, "uploadDirectory") {
        Some(NATIVE_PLUGIN_CAPABILITY_FILESYSTEM_WRITE)
    } else {
        None
    }
}

fn is_granted(capabilities: &Vec<String>, name: &str) -> (r: bool)
    ensures
        r == texts(capabilities@).contains(name@),
{
    let mut i: usize = 0;
    while i < capabilities.len()
        invariant
            i <= capabilities.len(),
            forall|j: int| 0 <= j < i ==> capabilities@[j]@ != name@,
        decreases capabilities.len() - i,
    {
        if same(capabilities[i].as_str(), name) {
            assert(texts(capabilities@)[i as int] == name@);
            return true;
        }
        i = i + 1;
    }
    assert forall|j: int| 0 <= j < texts(capabilities@).len() implies texts(capabilities@)[j]
        != name@ by {
        assert(capabilities@[j]@ != name@);
    }
    false
}

pub fn native_plugin_scp_check_capability(method: &str, permissions: &PluginPermissionSet) -> (r:
    Result<(), String>)
    ensures
        problem(r) == scp_capability_problem(method@, *permissions),
{
    match needed_capability(method) {
        None => Ok(()),
        Some(required) => if is_granted(&permissions.capabilities, required) {
            Ok(())
        } else {
            Err(
                concat5(
                    "Native plugin SCP host call \"",
                    method,
                    "\" requires capability \"",
                    required,
                    "\"",
                ),
            )
        },
    }
}

/// A text argument that is not blank.
pub open spec fn filled_arg(args: JsonView, field: Seq<char>) -> Option<Seq<char>> {
    match text_member(args, field) {
        Some(text) => if trimmed(text).len() > 0 {
            Some(text)
        } else {
            None
        },
        None => None,
    }
}

fn filled_text_arg(args: &Value, field: &str) -> (r: Option<String>)
    ensures
        opt_text(r) == filled_arg(json_view(*args), field@),
{
    match json_text_member(args, field) {
        Some(text) => if trim(text.as_str()).is_empty() {
            None
        } else {
            Some(text)
        },
        None => None,
    }
}

/// The node that a call names.
pub open spec fn scp_node_id(args: JsonView) -> Result<Seq<char>, Seq<char>> {
    match filled_arg(args, "nodeId"@) {
        Some(node) => Ok(node),
        None => Err("SCP calls require a non-empty args.nodeId"@),
    }
}

pub fn scp_node_id_arg(args: &Value) -> (r: Result<String, String>)
    ensures
        text_result(r) == scp_node_id(json_view(*args)),
{
    match filled_text_arg(args, "nodeId") {
        Some(node) => Ok(node),
        None => Err("SCP calls require a non-empty args.nodeId".to_owned()),
    }
}

/// A path that a call names.
pub open spec fn scp_path(args: JsonView, field: Seq<char>) -> Result<Seq<char>, Seq<char>> {
    match filled_arg(args, field) {
        Some(path) => Ok(path),
        None => Err("SCP calls require a non-empty args."@ + field),
    }
}

pub fn scp_path_arg(args: &Value, field: &str) -> (r: Result<String, String>)
    ensures
        text_result(r) == scp_path(json_view(*args), field@),
{
    match filled_text_arg(args, field) {
        Some(path) => Ok(path),
        None => Err(concat2("SCP calls require a non-empty args.", field)),
    }
}

/// Whether a text has the form of a random identifier: hexadecimal digits in groups of eight, four,
/// four, four and twelve, with the digit of its version at the start of the third group.
pub open spec fn is_random_identifier(text: Seq<char>) -> bool {
    &&& text.len() == 36
    &&& text[14] == '4'
    &&& forall|i: int|
        0 <= i < 36 ==> if i == 8 || i == 13 || i == 18 || i == 23 {
            #[trigger] text[i] == '-'
        } else {
            '0' <= text[i] <= '9' || 'a' <= text[i] <= 'f'
        }
}

/// `Uuid::new_v4` written as text: a fresh random identifier, of which only the form is known.
#[verifier::external_body]
fn random_identifier() -> (r: String)
    ensures
        is_random_identifier(r@),
{
    Uuid::new_v4().to_string()
}

/// The identifier of a transfer: the one that the call gives, else `plugin-scp-` with a random rest.
pub fn scp_transfer_id(args: &Value) -> (r: String)
    ensures
        match filled_arg(json_view(*args), "transferId"@) {
            Some(id) => r@ == id,
            None => "plugin-scp-"@.is_prefix_of(r@) && is_random_identifier(
                r@.skip("plugin-scp-"@.len() as int),
            ),
        },
{
    match filled_text_arg(args, "transferId") {
        Some(id) => id,
        None => {
            let fresh = random_identifier();
            let id = concat2("plugin-scp-", fresh.as_str());
            assert(id@.subrange(0, "plugin-scp-"@.len() as int) == "plugin-scp-"@);
            assert(id@.skip("plugin-scp-"@.len() as int) == fresh@);
            id
        },
    }
}

#[derive(Clone, Copy, Debug, PartialEq, Eq, Structural)]
pub enum TransferDirection {
    Upload,
    Download,
}

#[derive(Clone, Copy, Debug, PartialEq, Eq, Structural)]
pub enum TransferKind {
    File,
    Directory,
}

/// The direction and kind of transfer that a method starts.
pub open spec fn scp_transfer_shape(method: Seq<char>) -> Option<(TransferDirection, TransferKind)> {
    if method == "upload"@ {
        Some((TransferDirection::Upload, TransferKind::File))
    } else if method == "download"@ {
        Some((TransferDirection::Download, TransferKind::File))
    } else if method == "uploadDirectory"@ {
        Some((TransferDirection::Upload, TransferKind::Directory))
    } else if method == "downloadDirectory"@ {
        Some((TransferDirection::Download, TransferKind::Directory))
    } else {
        None
    }
}

fn transfer_shape(method: &str) -> (r: Option<(TransferDirection, TransferKind)>)
    ensures
        r == scp_transfer_shape(method@),
{
    if same(method, "upload") {
        Some((TransferDirection::Upload, TransferKind::File))
    } else if same(method, "download") {
        Some((TransferDirection::Download, TransferKind::File))
    } else if same(method, "uploadDirectory") {
        Some((TransferDirection::Upload, TransferKind::Directory))
    } else if same(method, "downloadDirectory") {
        Some((TransferDirection::Download, TransferKind::Directory))
    } else {
        None
    }
}

/// What a download does where its local file is.
#[derive(Clone, Copy, Debug, PartialEq, Eq, Structural)]
pub enum LocalDownloadDisposition {
    /// The file is made; one that is there already is not replaced.
    CreateNew,
}

/// How the local side of a transfer is written: only the download of a file has a say in it.
pub open spec fn local_disposition(
    direction: TransferDirection,
    kind: TransferKind,
) -> Option<LocalDownloadDisposition> {
    match (direction, kind) {
        (TransferDirection::Download, TransferKind::File) => Some(
            LocalDownloadDisposition::CreateNew,
        ),
        _ => None,
    }
}

/// A transfer that a call asks for.
pub struct ScpTransfer {
    pub transfer_id: String,
    pub node_id: String,
    pub local_path: String,
    pub remote_path: String,
    pub direction: TransferDirection,
    pub kind: TransferKind,
    pub disposition: Option<LocalDownloadDisposition>,
}

pub struct ScpTransferView {
    pub transfer_id: Seq<char>,
    pub node_id: Seq<char>,
    pub local_path: Seq<char>,
    pub remote_path: Seq<char>,
    pub direction: TransferDirection,
    pub kind: TransferKind,
    pub disposition: Option<LocalDownloadDisposition>,
}

impl View for ScpTransfer {
    type V = ScpTransferView;

    open spec fn view(&self) -> ScpTransferView {
        ScpTransferView {
            transfer_id: self.transfer_id@,
            node_id: self.node_id@,
            local_path: self.local_path@,
            remote_path: self.remote_path@,
            direction: self.direction,
            kind: self.kind,
            disposition: self.disposition,
        }
    }
}

/// How the transfer manager runs a transfer.
#[derive(Clone, Copy, Debug, PartialEq, Eq, Structural)]
pub enum TransferStrategy {
    File,
    DirectoryRecursive,
}

impl ScpTransfer {
    /// The path whose last component names the transfer: the local one for an upload.
    pub open spec fn display_path_view(self) -> Seq<char> {
        match self.direction {
            TransferDirection::Upload => self.local_path@,
            TransferDirection::Download => self.remote_path@,
        }
    }

    pub fn display_path(&self) -> (r: &str)
        ensures
            r@ == self.display_path_view(),
    {
        match self.direction {
            TransferDirection::Upload => self.local_path.as_str(),
            TransferDirection::Download => self.remote_path.as_str(),
        }
    }

    /// The name shown for the transfer: the file name of its display path, else the whole path.
    pub fn display_name(&self, file_name: Option<&str>) -> (r: String)
        ensures
            r@ == match file_name {
                Some(name) => name@,
                None => self.display_path_view(),
            },
    {
        match file_name {
            Some(name) => name.to_owned(),
            None => self.display_path().to_owned(),
        }
    }

    pub fn strategy(&self) -> (r: TransferStrategy)
        ensures
            r == (if self.kind == TransferKind::Directory {
                TransferStrategy::DirectoryRecursive
            } else {
                TransferStrategy::File
            }),
    {
        match self.kind {
            TransferKind::Directory => TransferStrategy::DirectoryRecursive,
            TransferKind::File => TransferStrategy::File,
        }
    }
}

/// How a finished transfer is recorded.
#[derive(Clone, Copy, Debug, PartialEq, Eq, Structural)]
pub enum TransferState {
    Completed,
    Cancelled,
    Error,
}

/// What moving the bytes came to.
pub enum ScpOutcome {
    Done { bytes: u64, items: u64 },
    /// The transfer was cancelled; the text is what the error says.
    Cancelled { message: String },
    Failed { message: String },
}

/// What the record of a finished transfer says.
pub struct TransferRecord {
    pub state: TransferState,
    pub error: Option<String>,
    pub items: Option<u64>,
}

/// The steps of one SCP call.
pub enum ScpPhase {
    Start,
    Resolving { node_id: String },
    Querying,
    Moving { transfer_id: String },
    Finished,
}

/// What the host does next for a call.
pub enum ScpAction {
    /// Resolve the connection of the node.
    Resolve { node_id: String },
    /// Ask the resolved host for its SCP capabilities.
    QueryCapabilities,
    /// Register the transfer for its node, then refuse the call; the registration lapses.
    Refuse { transfer_id: String, message: String },
    /// Register the transfer for its node and in the background list, mark it active and move it.
    Move { transfer: ScpTransfer },
    /// Record how the transfer ended and reply.
    Record { transfer_id: String, record: TransferRecord, reply: Result<Value, String> },
    /// Reply at once.
    Reply { reply: Result<Value, String> },
    /// Nothing is due.
    Idle,
}

/// What the host reports back.
pub enum ScpEvent {
    Begin,
    Resolved { result: Result<(), String> },
    Capabilities { supports_scp: bool, supports_recursive: bool },
    Ended { outcome: ScpOutcome },
}

/// One SCP call of a plugin.
pub struct ScpCall {
    pub method: String,
    pub args: Value,
    pub phase: ScpPhase,
}

/// The answer to a question about capabilities.
pub open spec fn capabilities_reply(supports_scp: bool, supports_recursive: bool) -> JsonView {
    JsonView::Object(
        Map::<Seq<char>, JsonView>::empty().insert(
            "supported"@,
            JsonView::Bool(supports_scp),
        ).insert("recursive"@, JsonView::Bool(supports_recursive)).insert(
            "restartResume"@,
            JsonView::Bool(false),
        ),
    )
}

fn capabilities_value(supports_scp: bool, supports_recursive: bool) -> (r: Value)
    ensures
        json_view(r) == capabilities_reply(supports_scp, supports_recursive),
{
    let mut reply = json_object();
    json_set(&mut reply, "supported", json_bool(supports_scp));
    json_set(&mut reply, "recursive", json_bool(supports_recursive));
    json_set(&mut reply, "restartResume", json_bool(false));
    reply
}

/// The answer to a transfer that was done.
pub open spec fn transfer_reply(transfer_id: Seq<char>, bytes: u64, items: u64) -> JsonView {
    JsonView::Object(
        Map::<Seq<char>, JsonView>::empty().insert(
            "transferId"@,
            JsonView::Text(transfer_id),
        ).insert("protocol"@, JsonView::Text("scp"@)).insert(
            "bytes"@,
            JsonView::Number(JsonNumber::Whole(bytes)),
        ).insert("items"@, JsonView::Number(JsonNumber::Whole(items))).insert(
            "restartResume"@,
            JsonView::Bool(false),
        ),
    )
}

fn transfer_value(transfer_id: &str, bytes: u64, items: u64) -> (r: Value)
    ensures
        json_view(r) == transfer_reply(transfer_id@, bytes, items),
{
    let mut reply = json_object();
    json_set(&mut reply, "transferId", json_text(transfer_id.to_owned()));
    json_set(&mut reply, "protocol", json_text("scp".to_owned()));
    json_set(&mut reply, "bytes", json_whole(bytes));
    json_set(&mut reply, "items", json_whole(items));
    json_set(&mut reply, "restartResume", json_bool(false));
    reply
}

/// A reply by its contents.
pub open spec fn reply_view(reply: Result<Value, String>) -> Result<JsonView, Seq<char>> {
    match reply {
        Ok(value) => Ok(json_view(value)),
        Err(message) => Err(message@),
    }
}

/// What is recorded of a finished transfer.
pub open spec fn outcome_record(outcome: ScpOutcome) -> (TransferState, Option<Seq<char>>, Option<u64>) {
    match outcome {
        ScpOutcome::Done { bytes, items } => (TransferState::Completed, None, Some(items)),
        ScpOutcome::Cancelled { .. } => (TransferState::Cancelled, None, None),
        ScpOutcome::Failed { message } => (TransferState::Error, Some(message@), None),
    }
}

pub open spec fn record_view(record: TransferRecord) -> (TransferState, Option<Seq<char>>, Option<u64>) {
    (record.state, opt_text(record.error), record.items)
}

/// What a finished transfer is answered with.
pub open spec fn outcome_reply(transfer_id: Seq<char>, outcome: ScpOutcome) -> Result<
    JsonView,
    Seq<char>,
> {
    match outcome {
        ScpOutcome::Done { bytes, items } => Ok(transfer_reply(transfer_id, bytes, items)),
        ScpOutcome::Cancelled { message } => Err(message@),
        ScpOutcome::Failed { message } => Err(message@),
    }
}

/// The transfer that a method and its arguments describe, once the node is resolved and the
/// transfer has an identifier; the local path is read before the remote one, and both before the
/// method.
pub open spec fn planned_transfer(
    method: Seq<char>,
    args: JsonView,
    node_id: Seq<char>,
    transfer_id: Seq<char>,
) -> Result<ScpTransferView, Seq<char>> {
    match scp_path(args, "localPath"@) {
        Err(message) => Err(message),
        Ok(local_path) => match scp_path(args, "remotePath"@) {
            Err(message) => Err(message),
            Ok(remote_path) => match scp_transfer_shape(method) {
                None => Err("Unsupported SCP host call: "@ + method),
                Some(shape) => Ok(
                    ScpTransferView {
                        transfer_id,
                        node_id,
                        local_path,
                        remote_path,
                        direction: shape.0,
                        kind: shape.1,
                        disposition: local_disposition(shape.0, shape.1),
                    },
                ),
            },
        },
    }
}

/// Plans the transfer of a call under the given identifier.
pub fn plan_transfer(method: &str, args: &Value, node_id: String, transfer_id: String) -> (r: Result<
    ScpTransfer,
    String,
>)
    ensures
        match r {
            Ok(transfer) => planned_transfer(method@, json_view(*args), node_id@, transfer_id@)
                == Ok::<ScpTransferView, Seq<char>>(transfer@),
            Err(message) => planned_transfer(method@, json_view(*args), node_id@, transfer_id@)
                == Err::<ScpTransferView, Seq<char>>(message@),
        },
{
    let local_path = match scp_path_arg(args, "localPath") {
        Err(message) => return Err(message),
        Ok(path) => path,
    };
    let remote_path = match scp_path_arg(args, "remotePath") {
        Err(message) => return Err(message),
        Ok(path) => path,
    };
    match transfer_shape(method) {
        None => Err(concat2("Unsupported SCP host call: ", method)),
        Some(shape) => Ok(
            ScpTransfer {
                transfer_id,
                node_id,
                local_path,
                remote_path,
                direction: shape.0,
                kind: shape.1,
                disposition: match shape {
                    (TransferDirection::Download, TransferKind::File) => Some(
                        LocalDownloadDisposition::CreateNew,
                    ),
                    _ => None,
                },
            },
        ),
    }
}

/// How a finished transfer is recorded and answered.
pub fn finish_transfer(transfer_id: &str, outcome: ScpOutcome) -> (r: (
    TransferRecord,
    Result<Value, String>,
))
    ensures
        record_view(r.0) == outcome_record(outcome),
        reply_view(r.1) == outcome_reply(transfer_id@, outcome),
{
    match outcome {
        ScpOutcome::Done { bytes, items } => (
            TransferRecord { state: TransferState::Completed, error: None, items: Some(items) },
            Ok(transfer_value(transfer_id, bytes, items)),
        ),
        ScpOutcome::Cancelled { message } => (
            TransferRecord { state: TransferState::Cancelled, error: None, items: None },
            Err(message),
        ),
        ScpOutcome::Failed { message } => (
            TransferRecord {
                state: TransferState::Error,
                error: Some(message.clone()),
                items: None,
            },
            Err(message),
        ),
    }
}

impl ScpCall {
    pub fn new(method: String, args: Value) -> (r: ScpCall)
        ensures
            r.method == method,
            r.args == args,
            r.phase is Start,
    {
        ScpCall { method, args, phase: ScpPhase::Start }
    }

    /// Takes one event and says what is due next. An event that does not belong to the phase changes
    /// nothing.
    pub fn step(&mut self, event: ScpEvent) -> (action: ScpAction)
        ensures
            final(self).method == old(self).method,
            final(self).args == old(self).args,
            match (old(self).phase, event) {
                (ScpPhase::Start, ScpEvent::Begin) => match scp_node_id(
                    json_view(old(self).args),
                ) {
                    Err(message) => final(self).phase is Finished && (
                    action matches ScpAction::Reply { reply } && reply_view(reply) == Err::<
                        JsonView,
                        Seq<char>,
                    >(message)),
                    Ok(node) => (final(self).phase matches ScpPhase::Resolving { node_id }
                        && node_id@ == node) && (action matches ScpAction::Resolve { node_id }
                        && node_id@ == node),
                },
                (ScpPhase::Resolving { node_id: node }, ScpEvent::Resolved { result }) => match result {
                    Err(message) => final(self).phase is Finished && (
                    action matches ScpAction::Reply { reply } && reply_view(reply) == Err::<
                        JsonView,
                        Seq<char>,
                    >(message@)),
                    Ok(_) => if old(self).method@ == "capabilities"@ {
                        final(self).phase is Querying && action is QueryCapabilities
                    } else {
                        match action {
                            ScpAction::Move { transfer } => planned_transfer(
                                old(self).method@,
                                json_view(old(self).args),
                                node@,
                                transfer.transfer_id@,
                            ) == Ok::<ScpTransferView, Seq<char>>(transfer@) && (
                            final(self).phase matches ScpPhase::Moving { transfer_id } && transfer_id@
                                == transfer.transfer_id@) && is_transfer_id(
                                json_view(old(self).args),
                                transfer.transfer_id@,
                            ),
                            ScpAction::Refuse { transfer_id, message } => planned_transfer(
                                old(self).method@,
                                json_view(old(self).args),
                                node@,
                                transfer_id@,
                            ) == Err::<ScpTransferView, Seq<char>>(message@)
                                && final(self).phase is Finished && is_transfer_id(
                                json_view(old(self).args),
                                transfer_id@,
                            ),
                            _ => false,
                        }
                    },
                },
                (
                    ScpPhase::Querying,
                    ScpEvent::Capabilities { supports_scp, supports_recursive },
                ) => final(self).phase is Finished && (action matches ScpAction::Reply { reply }
                    && reply_view(reply) == Ok::<JsonView, Seq<char>>(
                    capabilities_reply(supports_scp, supports_recursive),
                )),
                (ScpPhase::Moving { transfer_id: id }, ScpEvent::Ended { outcome }) => final(self).phase is Finished && (action matches ScpAction::Record {
                    transfer_id,
                    record,
                    reply,
                } && transfer_id@ == id@ && record_view(record) == outcome_record(outcome)
                    && reply_view(reply) == outcome_reply(id@, outcome)),
                _ => final(self).phase == old(self).phase && action is Idle,
            },
    {
        let mut phase = ScpPhase::Finished;
        std::mem::swap(&mut phase, &mut self.phase);
        match (phase, event) {
            (ScpPhase::Start, ScpEvent::Begin) => match scp_node_id_arg(&self.args) {
                Err(message) => ScpAction::Reply { reply: Err(message) },
                Ok(node) => {
                    self.phase = ScpPhase::Resolving { node_id: node.clone() };
                    ScpAction::Resolve { node_id: node }
                },
            },
            (ScpPhase::Resolving { node_id }, ScpEvent::Resolved { result }) => match result {
                Err(message) => ScpAction::Reply { reply: Err(message) },
                Ok(()) => {
                    if same(self.method.as_str(), "capabilities") {
                        self.phase = ScpPhase::Querying;
                        ScpAction::QueryCapabilities
                    } else {
                        let transfer_id = scp_transfer_id(&self.args);
                        let planned = plan_transfer(
                            self.method.as_str(),
                            &self.args,
                            node_id,
                            transfer_id.clone(),
                        );
                        match planned {
                            Err(message) => ScpAction::Refuse { transfer_id, message },
                            Ok(transfer) => {
                                self.phase = ScpPhase::Moving { transfer_id };
                                ScpAction::Move { transfer }
                            },
                        }
                    }
                },
            },
            (ScpPhase::Querying, ScpEvent::Capabilities { supports_scp, supports_recursive }) => {
                ScpAction::Reply { reply: Ok(capabilities_value(supports_scp, supports_recursive)) }
            },
            (ScpPhase::Moving { transfer_id }, ScpEvent::Ended { outcome }) => {
                let (record, reply) = finish_transfer(transfer_id.as_str(), outcome);
                ScpAction::Record { transfer_id, record, reply }
            },
            (phase, _) => {
                self.phase = phase;
                ScpAction::Idle
            },
        }
    }
}

/// Whether a text can be the identifier of the transfer that a call starts.
pub open spec fn is_transfer_id(args: JsonView, id: Seq<char>) -> bool {
    match filled_arg(args, "transferId"@) {
        Some(given) => id == given,
        None => "plugin-scp-"@.is_prefix_of(id) && is_random_identifier(
            id.skip("plugin-scp-"@.len() as int),
        ),
    }
}

/// The answer to a call whose capability was not granted.
pub fn scp_denied(request_id: &str, method: &str, permissions: &PluginPermissionSet) -> (r: Option<
    PluginResponse,
>)
    ensures
        match scp_capability_problem(method@, *permissions) {
            Some(message) => r is Some && r->0.request_id@ == request_id@ && r->0.result@
                == ResponseView::Error(
                PluginErrorView {
                    kind: PluginErrorKind::Protocol,
                    code: "plugin_scp_capability_denied"@,
                    message,
                },
            ) && !r->0.sensitive,
            None => r is None,
        },
{
    match native_plugin_scp_check_capability(method, permissions) {
        Err(message) => Some(
            PluginResponse::error(
                request_id,
                PluginError::protocol("plugin_scp_capability_denied", message),
            ),
        ),
        Ok(()) => None,
    }
}

/// The response to a call that was run: `reply` is missing where the worker closed early.
pub fn native_plugin_scp_response(request_id: &str, reply: Option<Result<Value, String>>) -> (r:
    PluginResponse)
    ensures
        r.request_id@ == request_id@,
        !r.sensitive,
        r.result@ == match reply {
            Some(Ok(value)) => ResponseView::Success(json_view(value)),
            Some(Err(message)) => ResponseView::Error(
                PluginErrorView {
                    kind: PluginErrorKind::Runtime,
                    code: "plugin_scp_error"@,
                    message: message@,
                },
            ),
            None => ResponseView::Error(
                PluginErrorView {
                    kind: PluginErrorKind::Runtime,
                    code: "plugin_scp_unavailable"@,
                    message: "Native plugin SCP worker closed before returning a response"@,
                },
            ),
        },
{
    match reply {
        Some(Ok(value)) => PluginResponse::ok(request_id, value),
        Some(Err(message)) => PluginResponse::error(
            request_id,
            PluginError::runtime("plugin_scp_error", message),
        ),
        None => PluginResponse::error(
            request_id,
            PluginError::runtime(
                "plugin_scp_unavailable",
                "Native plugin SCP worker closed before returning a response".to_owned(),
            ),
        ),
    }
}

/// Every method that moves data needs a capability: reading for downloads, writing for uploads.
pub proof fn law_transfers_need_capabilities(method: Seq<char>)
    requires
        scp_transfer_shape(method) is Some,
    ensures
        scp_capability(method) == (if (scp_transfer_shape(method)->Some_0).0 == TransferDirection::Download {
            Some(NATIVE_PLUGIN_CAPABILITY_FILESYSTEM_READ@)
        } else {
            Some(NATIVE_PLUGIN_CAPABILITY_FILESYSTEM_WRITE@)
        }),
{
    reveal_strlit("upload");
    reveal_strlit("download");
    reveal_strlit("uploadDirectory");
    reveal_strlit("downloadDirectory");
    reveal_strlit("capabilities");
    assert("upload"@.len() == 6);
    assert("download"@.len() == 8);
    assert("uploadDirectory"@.len() == 15);
    assert("downloadDirectory"@.len() == 17);
    assert("capabilities"@.len() == 12);
}

/// Reading calls need the right to read files and writing ones the right to write them; a call
/// without the right it needs is refused with its name and that of the right.
pub proof fn law_calls_without_their_right_are_refused(
    method: Seq<char>,
    permissions: PluginPermissionSet,
    right: Seq<char>,
)
    requires
        scp_capability(method) == Some(right),
    ensures
        right == (if method == "upload"@ || method == "uploadDirectory"@ {
            "filesystem.write"@
        } else {
            "filesystem.read"@
        }),
        scp_capability_problem(method, permissions) is None <==> texts(
            permissions.capabilities@,
        ).contains(right),
        !texts(permissions.capabilities@).contains(right) ==> scp_capability_problem(
            method,
            permissions,
        ) == Some(
            "Native plugin SCP host call \""@ + method + "\" requires capability \""@ + right
                + "\""@,
        ),
{
    reveal_strlit("upload");
    reveal_strlit("uploadDirectory");
    reveal_strlit("download");
    reveal_strlit("downloadDirectory");
    reveal_strlit("capabilities");
    assert("upload"@.len() == 6);
    assert("uploadDirectory"@.len() == 15);
    assert("download"@.len() == 8);
    assert("downloadDirectory"@.len() == 17);
    assert("capabilities"@.len() == 12);
}

/// What each method moves, and where to.
pub proof fn law_methods_tell_direction_and_kind()
    ensures
        scp_transfer_shape("upload"@) == Some((TransferDirection::Upload, TransferKind::File)),
        scp_transfer_shape("download"@) == Some((TransferDirection::Download, TransferKind::File)),
        scp_transfer_shape("uploadDirectory"@) == Some(
            (TransferDirection::Upload, TransferKind::Directory),
        ),
        scp_transfer_shape("downloadDirectory"@) == Some(
            (TransferDirection::Download, TransferKind::Directory),
        ),
        scp_transfer_shape("capabilities"@) is None,
        scp_capability("upload"@) == Some("filesystem.write"@),
        scp_capability("uploadDirectory"@) == Some("filesystem.write"@),
        scp_capability("download"@) == Some("filesystem.read"@),
        scp_capability("downloadDirectory"@) == Some("filesystem.read"@),
        scp_capability("capabilities"@) == Some("filesystem.read"@),
{
    reveal_strlit("upload");
    reveal_strlit("uploadDirectory");
    reveal_strlit("download");
    reveal_strlit("downloadDirectory");
    reveal_strlit("capabilities");
    assert("upload"@.len() == 6);
    assert("uploadDirectory"@.len() == 15);
    assert("download"@.len() == 8);
    assert("downloadDirectory"@.len() == 17);
    assert("capabilities"@.len() == 12);
}

/// An argument that is blank counts as missing; a missing one is told by its name.
pub proof fn law_blank_arguments_are_missing(args: JsonView, field: Seq<char>, text: Seq<char>)
    ensures
        text_member(args, field) == Some(text) && trimmed(text).len() > 0 ==> filled_arg(args, field)
            == Some(text) && scp_path(args, field) == Ok::<Seq<char>, Seq<char>>(text),
        text_member(args, field) == Some(text) && trimmed(text).len() == 0 ==> filled_arg(
            args,
            field,
        ) is None,
        text_member(args, field) is None ==> filled_arg(args, field) is None,
        filled_arg(args, field) is None ==> scp_path(args, field) == Err::<Seq<char>, Seq<char>>(
            "SCP calls require a non-empty args."@ + field,
        ),
        filled_arg(args, "nodeId"@) is None ==> scp_node_id(args) == Err::<Seq<char>, Seq<char>>(
            "SCP calls require a non-empty args.nodeId"@,
        ),
        filled_arg(args, "nodeId"@) == Some(text) ==> scp_node_id(args) == Ok::<
            Seq<char>,
            Seq<char>,
        >(text),
{
}

/// A planned transfer is that of the call: between the paths it names, the way its method says;
/// a file is never overwritten by a download.
pub proof fn law_transfers_are_as_called(
    method: Seq<char>,
    args: JsonView,
    node_id: Seq<char>,
    transfer_id: Seq<char>,
    shape: (TransferDirection, TransferKind),
    local: Seq<char>,
    remote: Seq<char>,
)
    requires
        filled_arg(args, "localPath"@) == Some(local),
        filled_arg(args, "remotePath"@) == Some(remote),
    ensures
        scp_transfer_shape(method) == Some(shape) ==> ({
            &&& planned_transfer(method, args, node_id, transfer_id) matches Ok(transfer)
            &&& transfer.transfer_id == transfer_id
            &&& transfer.node_id == node_id
            &&& transfer.local_path == local
            &&& transfer.remote_path == remote
            &&& transfer.direction == shape.0
            &&& transfer.kind == shape.1
            &&& transfer.disposition is Some <==> shape.0 == TransferDirection::Download && shape.1
                == TransferKind::File
        }),
        scp_transfer_shape(method) is None ==> planned_transfer(method, args, node_id, transfer_id)
            == Err::<ScpTransferView, Seq<char>>("Unsupported SCP host call: "@ + method),
{
}

/// A call without a local path is refused for that first, then for its remote path.
pub proof fn law_missing_paths_are_told_in_order(
    method: Seq<char>,
    args: JsonView,
    node_id: Seq<char>,
    transfer_id: Seq<char>,
)
    ensures
        filled_arg(args, "localPath"@) is None ==> planned_transfer(
            method,
            args,
            node_id,
            transfer_id,
        ) == Err::<ScpTransferView, Seq<char>>(
            "SCP calls require a non-empty args."@ + "localPath"@,
        ),
        filled_arg(args, "localPath"@) is Some && filled_arg(args, "remotePath"@) is None
            ==> planned_transfer(method, args, node_id, transfer_id) == Err::<
            ScpTransferView,
            Seq<char>,
        >("SCP calls require a non-empty args."@ + "remotePath"@),
{
}

/// How an end is recorded and answered: what was moved is answered with its numbers, a
/// cancelled transfer is no error of its own, a failed one keeps its message.
pub proof fn law_ends_are_recorded(
    transfer_id: Seq<char>,
    bytes: u64,
    items: u64,
    message: String,
)
    ensures
        outcome_record(ScpOutcome::Done { bytes, items }) == (
            TransferState::Completed,
            None::<Seq<char>>,
            Some(items),
        ),
        outcome_record(ScpOutcome::Cancelled { message }) == (
            TransferState::Cancelled,
            None::<Seq<char>>,
            None::<u64>,
        ),
        outcome_record(ScpOutcome::Failed { message }) == (
            TransferState::Error,
            Some(message@),
            None::<u64>,
        ),
        outcome_reply(transfer_id, ScpOutcome::Done { bytes, items }) == Ok::<JsonView, Seq<char>>(
            transfer_reply(transfer_id, bytes, items),
        ),
        outcome_reply(transfer_id, ScpOutcome::Cancelled { message }) == Err::<
            JsonView,
            Seq<char>,
        >(message@),
        outcome_reply(transfer_id, ScpOutcome::Failed { message }) == Err::<JsonView, Seq<char>>(
            message@,
        ),
{
}

/// What the answers hold under which names.
pub proof fn law_answers_hold_their_members(
    transfer_id: Seq<char>,
    bytes: u64,
    items: u64,
    scp: bool,
    recursive: bool,
)
    ensures
        ({
            &&& transfer_reply(transfer_id, bytes, items) matches JsonView::Object(members)
            &&& members.dom() =~= set!["transferId"@, "protocol"@, "bytes"@, "items"@,
                "restartResume"@]
            &&& members["transferId"@] == JsonView::Text(transfer_id)
            &&& members["protocol"@] == JsonView::Text(seq!['s', 'c', 'p'])
            &&& members["bytes"@] == JsonView::Number(JsonNumber::Whole(bytes))
            &&& members["items"@] == JsonView::Number(JsonNumber::Whole(items))
            &&& members["restartResume"@] == JsonView::Bool(false)
        }),
        ({
            &&& capabilities_reply(scp, recursive) matches JsonView::Object(members)
            &&& members.dom() =~= set!["supported"@, "recursive"@, "restartResume"@]
            &&& members["supported"@] == JsonView::Bool(scp)
            &&& members["recursive"@] == JsonView::Bool(recursive)
            &&& members["restartResume"@] == JsonView::Bool(false)
        }),
{
    reveal_strlit("transferId");
    reveal_strlit("protocol");
    reveal_strlit("bytes");
    reveal_strlit("items");
    reveal_strlit("restartResume");
    reveal_strlit("supported");
    reveal_strlit("recursive");
    reveal_strlit("scp");
    assert("scp"@ =~= seq!['s', 'c', 'p']);
    assert("transferId"@.len() == 10);
    assert("protocol"@.len() == 8);
    assert("bytes"@.len() == 5);
    assert("items"@.len() == 5);
    assert("restartResume"@.len() == 13);
    assert("supported"@.len() == 9);
    assert("recursive"@.len() == 9);
    assert("bytes"@[0] == 'b');
    assert("items"@[0] == 'i');
    assert("supported"@[0] == 's');
    assert("recursive"@[0] == 'r');
    let moved = transfer_reply(transfer_id, bytes, items)->Object_0;
    assert(moved.dom() =~= set![
        "transferId"@,
        "protocol"@,
        "bytes"@,
        "items"@,
        "restartResume"@,
    ]);
    let asked = capabilities_reply(scp, recursive)->Object_0;
    assert(asked.dom() =~= set!["supported"@, "recursive"@, "restartResume"@]);
}

/// The identifier of a transfer is the one that the call gives; one that is made up starts with
/// the name of the interface and has 36 characters behind it.
pub proof fn law_identifiers_are_given_or_made_up(args: JsonView, id: Seq<char>, given: Seq<char>)
    requires
        is_transfer_id(args, id),
    ensures
        filled_arg(args, "transferId"@) == Some(given) ==> id == given,
        filled_arg(args, "transferId"@) is None ==> id.len() == 11 + 36 && id[10] == '-' && id[25]
            == '4' && id[19] == '-' && id[24] == '-' && id[29] == '-' && id[34] == '-',
{
    reveal_strlit("plugin-scp-");
    if filled_arg(args, "transferId"@) is None {
        let prefix = "plugin-scp-"@;
        let rest = id.skip(11);
        assert(id.subrange(0, 11) == prefix);
        assert(id[10] == id.subrange(0, 11)[10]);
        assert(rest[14] == id[25]);
        assert(rest[8] == id[19] && rest[13] == id[24] && rest[18] == id[29] && rest[23]
            == id[34]);
        assert(rest[8] == '-' && rest[13] == '-' && rest[18] == '-' && rest[23] == '-');
    }
}

/// An upload is shown by its local path and a download by its remote one.
pub proof fn law_transfers_are_shown_by_their_source(transfer: ScpTransfer)
    ensures
        transfer.direction == TransferDirection::Upload ==> transfer.display_path_view()
            == transfer.local_path@,
        transfer.direction == TransferDirection::Download ==> transfer.display_path_view()
            == transfer.remote_path@,
{
}

} // verus!
