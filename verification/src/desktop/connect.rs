//! The form for a new connection.

use crate::desktop::profiles::{
    find_profile, lemma_profile_at, load_profiles, profile_at, profile_views, put_profile,
    remove_profiles, with_profile, without_profile, AuthChoice, ConnectionKind, ConnectionProfile,
    FlowChoice, ParityChoice, ProfileView,
};
use crate::json::opt_text;
use crate::text::{
    concat2, concat3, concat4, concat5, contains_text, decimal, decimal_text, law_trimmed_ends,
    lower, lowercased, occurs, texts, trim, trimmed,
};
use crate::wiped::WipedText;
use vstd::prelude::*;
use vstd::string::*;

verus! {

/// Seconds that a connection may take to be made.
pub const CONNECT_TIMEOUT_SECS: u64 = 20;

/// How a user proves who they are.
pub enum SshAuth {
    Password(WipedText),
    Key { path: String, passphrase: Option<WipedText> },
    Agent,
}

pub enum SshAuthView {
    Password(Seq<char>),
    Key { path: Seq<char>, passphrase: Option<Seq<char>> },
    Agent,
}

impl View for SshAuth {
    type V = SshAuthView;

    open spec fn view(&self) -> SshAuthView {
        match *self {
            SshAuth::Password(password) => SshAuthView::Password(password@),
            SshAuth::Key { path, passphrase } => SshAuthView::Key {
                path: path@,
                passphrase: match passphrase {
                    Some(secret) => Some(secret@),
                    None => None,
                },
            },
            SshAuth::Agent => SshAuthView::Agent,
        }
    }
}

/// A session with a remote shell.
pub struct SshConnectSpec {
    pub host: String,
    pub port: u16,
    pub username: String,
    pub auth: SshAuth,
    pub timeout_secs: u64,
    pub shell_colors: bool,
    pub post_connect_command: Option<String>,
    /// What answers prompts for a password while the session is opened.
    pub prompt_password: WipedText,
}

pub struct TelnetTarget {
    pub host: String,
    pub port: u16,
}

#[derive(Clone, Debug, PartialEq, Eq)]
pub struct SerialTarget {
    pub port_path: String,
    pub baud_rate: u32,
    pub data_bits: u8,
    pub stop_bits: u8,
    pub parity: ParityChoice,
    pub flow_control: FlowChoice,
}

pub enum ConnectTarget {
    Ssh(SshConnectSpec),
    Telnet(TelnetTarget),
    Serial(SerialTarget),
}

pub enum TargetView {
    Ssh {
        host: Seq<char>,
        port: u16,
        username: Seq<char>,
        auth: SshAuthView,
        timeout_secs: u64,
        shell_colors: bool,
        post_connect_command: Option<Seq<char>>,
        prompt_password: Seq<char>,
    },
    Telnet { host: Seq<char>, port: u16 },
    Serial {
        port_path: Seq<char>,
        baud_rate: u32,
        data_bits: u8,
        stop_bits: u8,
        parity: ParityChoice,
        flow_control: FlowChoice,
    },
}

impl View for ConnectTarget {
    type V = TargetView;

    open spec fn view(&self) -> TargetView {
        match *self {
            ConnectTarget::Ssh(target) => TargetView::Ssh {
                host: target.host@,
                port: target.port,
                username: target.username@,
                auth: target.auth@,
                timeout_secs: target.timeout_secs,
                shell_colors: target.shell_colors,
                post_connect_command: opt_text(target.post_connect_command),
                prompt_password: target.prompt_password@,
            },
            ConnectTarget::Telnet(target) => TargetView::Telnet {
                host: target.host@,
                port: target.port,
            },
            ConnectTarget::Serial(target) => TargetView::Serial {
                port_path: target.port_path@,
                baud_rate: target.baud_rate,
                data_bits: target.data_bits,
                stop_bits: target.stop_bits,
                parity: target.parity,
                flow_control: target.flow_control,
            },
        }
    }
}

/// A connection to make, with the password to keep once it is made.
pub struct ConnectRequest {
    pub target: ConnectTarget,
    pub label: String,
    pub save_password: Option<(String, WipedText)>,
}

pub struct RequestView {
    pub target: TargetView,
    pub label: Seq<char>,
    pub save_password: Option<(Seq<char>, Seq<char>)>,
}

impl View for ConnectRequest {
    type V = RequestView;

    open spec fn view(&self) -> RequestView {
        RequestView {
            target: self.target@,
            label: self.label@,
            save_password: match self.save_password {
                Some((key, secret)) => Some((key@, secret@)),
                None => None,
            },
        }
    }
}

/// A serial port that was found.
#[derive(Clone, Debug, PartialEq, Eq)]
pub struct SerialPort {
    pub display_name: String,
    pub port_path: String,
}

impl SerialPort {
    pub fn label(&self) -> (r: String)
        ensures
            r@ == self.display_name@ + " ("@ + self.port_path@ + ")"@,
    {
        concat4(self.display_name.as_str(), " (", self.port_path.as_str(), ")")
    }
}

/// The form with all that was entered.
pub struct ConnectForm {
    pub kind: ConnectionKind,
    pub name: String,
    pub host: String,
    pub port: u16,
    pub username: String,
    pub auth: AuthChoice,
    pub password: String,
    pub key_path: String,
    pub key_passphrase: String,
    pub post_connect_command: String,
    pub save_password: bool,
    pub shell_colors: bool,
    pub serial_port: String,
    pub baud_rate: u32,
    pub data_bits: u8,
    pub stop_bits: u8,
    pub parity: ParityChoice,
    pub flow_control: FlowChoice,
    pub profiles: Vec<ConnectionProfile>,
    pub selected_profile: Option<String>,
    pub serial_ports: Vec<SerialPort>,
    pub error: Option<String>,
}

#[verifier::ext_equal]
pub struct FormView {
    pub kind: ConnectionKind,
    pub name: Seq<char>,
    pub host: Seq<char>,
    pub port: u16,
    pub username: Seq<char>,
    pub auth: AuthChoice,
    pub password: Seq<char>,
    pub key_path: Seq<char>,
    pub key_passphrase: Seq<char>,
    pub post_connect_command: Seq<char>,
    pub save_password: bool,
    pub shell_colors: bool,
    pub serial_port: Seq<char>,
    pub baud_rate: u32,
    pub data_bits: u8,
    pub stop_bits: u8,
    pub parity: ParityChoice,
    pub flow_control: FlowChoice,
    pub profiles: Seq<ProfileView>,
    pub selected_profile: Option<Seq<char>>,
    pub serial_ports: Seq<SerialPort>,
    pub error: Option<Seq<char>>,
}

impl View for ConnectForm {
    type V = FormView;

    open spec fn view(&self) -> FormView {
        FormView {
            kind: self.kind,
            name: self.name@,
            host: self.host@,
            port: self.port,
            username: self.username@,
            auth: self.auth,
            password: self.password@,
            key_path: self.key_path@,
            key_passphrase: self.key_passphrase@,
            post_connect_command: self.post_connect_command@,
            save_password: self.save_password,
            shell_colors: self.shell_colors,
            serial_port: self.serial_port@,
            baud_rate: self.baud_rate,
            data_bits: self.data_bits,
            stop_bits: self.stop_bits,
            parity: self.parity,
            flow_control: self.flow_control,
            profiles: profile_views(self.profiles@),
            selected_profile: opt_text(self.selected_profile),
            serial_ports: self.serial_ports@,
            error: opt_text(self.error),
        }
    }
}

/// The key under which the password of an account is kept.
pub open spec fn password_key(username: Seq<char>, host: Seq<char>, port: u16) -> Seq<char> {
    "ssh://"@ + username + "@"@ + host + (":"@ + decimal(port as nat))
}

pub fn ssh_password_key(username: &str, host: &str, port: u16) -> (r: String)
    ensures
        r@ == password_key(username@, host@, port),
{
    let tail = concat2(":", decimal_text(port as u64).as_str());
    concat5("ssh://", username, "@", host, tail.as_str())
}

pub fn default_key_path(home: Option<&str>) -> (r: String)
    ensures
        r@ == match home {
            Some(home) => home@ + "/.ssh/id_ed25519"@,
            None => "~/.ssh/id_ed25519"@,
        },
{
    match home {
        Some(home) => concat2(home, "/.ssh/id_ed25519"),
        None => "~/.ssh/id_ed25519".to_string(),
    }
}

/// The name that a form is saved under: the one entered, or else the machine or the port.
pub open spec fn profile_name(form: FormView) -> Seq<char> {
    if trimmed(form.name).len() > 0 {
        trimmed(form.name)
    } else if form.kind == ConnectionKind::Serial {
        trimmed(form.serial_port)
    } else {
        trimmed(form.host)
    }
}

/// What is saved of a form: no password and no passphrase.
pub open spec fn profile_of(form: FormView) -> ProfileView {
    ProfileView {
        name: profile_name(form),
        kind: form.kind,
        host: trimmed(form.host),
        port: form.port,
        username: trimmed(form.username),
        auth: form.auth,
        key_path: trimmed(form.key_path),
        post_connect_command: trimmed(form.post_connect_command),
        serial_port: trimmed(form.serial_port),
        baud_rate: form.baud_rate,
        data_bits: form.data_bits,
        stop_bits: form.stop_bits,
        parity: form.parity,
        flow_control: form.flow_control,
    }
}

/// Whether the password of a profile may have been kept.
pub open spec fn keeps_password(profile: ProfileView) -> bool {
    profile.kind == ConnectionKind::Ssh && profile.auth == AuthChoice::Password
}

pub open spec fn profile_key(profile: ProfileView) -> Option<Seq<char>> {
    if keeps_password(profile) {
        Some(password_key(profile.username, profile.host, profile.port))
    } else {
        None
    }
}

/// The form once a profile was chosen: secrets are forgotten, but for a password that was kept.
pub open spec fn form_loaded(form: FormView, profile: ProfileView, kept: Option<Seq<char>>) -> FormView {
    FormView {
        kind: profile.kind,
        name: profile.name,
        host: profile.host,
        port: profile.port,
        username: profile.username,
        auth: profile.auth,
        password: match kept {
            Some(secret) => if keeps_password(profile) {
                secret
            } else {
                Seq::empty()
            },
            None => Seq::empty(),
        },
        key_path: profile.key_path,
        key_passphrase: Seq::empty(),
        post_connect_command: profile.post_connect_command,
        save_password: kept is Some && keeps_password(profile),
        serial_port: profile.serial_port,
        baud_rate: profile.baud_rate,
        data_bits: profile.data_bits,
        stop_bits: profile.stop_bits,
        parity: profile.parity,
        flow_control: profile.flow_control,
        error: None,
        ..form
    }
}

/// What is wrong with a form, in the order in which it is told.
pub open spec fn form_problem(form: FormView) -> Option<Seq<char>> {
    match form.kind {
        ConnectionKind::Ssh => if trimmed(form.host).len() == 0 {
            Some("主机不能为空"@)
        } else if trimmed(form.username).len() == 0 {
            Some("用户名不能为空"@)
        } else if form.auth == AuthChoice::Key && trimmed(form.key_path).len() == 0 {
            Some("私钥路径不能为空"@)
        } else {
            None
        },
        ConnectionKind::Telnet => if trimmed(form.host).len() == 0 {
            Some("主机不能为空"@)
        } else {
            None
        },
        ConnectionKind::Serial => if trimmed(form.serial_port).len() == 0 {
            Some("串口端口不能为空"@)
        } else if form.baud_rate == 0 {
            Some("波特率必须大于 0"@)
        } else if !(5 <= form.data_bits <= 8) {
            Some("数据位必须在 5..=8 之间"@)
        } else if form.stop_bits != 1 && form.stop_bits != 2 {
            Some("停止位必须为 1 或 2"@)
        } else {
            None
        },
    }
}

pub open spec fn auth_of(form: FormView) -> SshAuthView {
    match form.auth {
        AuthChoice::Password => SshAuthView::Password(form.password),
        AuthChoice::Key => SshAuthView::Key {
            path: trimmed(form.key_path),
            passphrase: if form.key_passphrase.len() > 0 {
                Some(form.key_passphrase)
            } else {
                None
            },
        },
        AuthChoice::Agent => SshAuthView::Agent,
    }
}

/// The connection that a form describes.
pub open spec fn request_of(form: FormView) -> RequestView {
    let host = trimmed(form.host);
    let username = trimmed(form.username);
    match form.kind {
        ConnectionKind::Ssh => RequestView {
            target: TargetView::Ssh {
                host,
                port: form.port,
                username,
                auth: auth_of(form),
                timeout_secs: CONNECT_TIMEOUT_SECS,
                shell_colors: form.shell_colors,
                post_connect_command: if trimmed(form.post_connect_command).len() > 0 {
                    Some(trimmed(form.post_connect_command))
                } else {
                    None
                },
                prompt_password: form.password,
            },
            label: username + "@"@ + host + ":"@ + decimal(form.port as nat),
            save_password: if form.save_password && form.password.len() > 0 {
                Some((password_key(username, host, form.port), form.password))
            } else {
                None
            },
        },
        ConnectionKind::Telnet => RequestView {
            target: TargetView::Telnet { host, port: form.port },
            label: host + ":"@ + decimal(form.port as nat),
            save_password: None,
        },
        ConnectionKind::Serial => RequestView {
            target: TargetView::Serial {
                port_path: trimmed(form.serial_port),
                baud_rate: form.baud_rate,
                data_bits: form.data_bits,
                stop_bits: form.stop_bits,
                parity: form.parity,
                flow_control: form.flow_control,
            },
            label: "串口 "@ + trimmed(form.serial_port),
            save_password: None,
        },
    }
}

/// A change of one field.
pub enum FormEdit {
    Kind(ConnectionKind),
    Name(String),
    Host(String),
    Port(u16),
    Username(String),
    Auth(AuthChoice),
    Password(String),
    SavePassword(bool),
    KeyPath(String),
    KeyPassphrase(String),
    PostConnectCommand(String),
    SerialPort(String),
    BaudRate(u32),
    DataBits(u8),
    StopBits(u8),
    Parity(ParityChoice),
    Flow(FlowChoice),
}

/// Whether the field of a change is shown: it depends on the kind of session and of proof.
pub open spec fn edit_is_shown(form: FormView, edit: FormEdit) -> bool {
    match edit {
        FormEdit::Kind(_) => true,
        FormEdit::Name(_) => true,
        FormEdit::Host(_) => form.kind != ConnectionKind::Serial,
        FormEdit::Port(_) => form.kind != ConnectionKind::Serial,
        FormEdit::Username(_) => form.kind == ConnectionKind::Ssh,
        FormEdit::Auth(_) => form.kind == ConnectionKind::Ssh,
        FormEdit::Password(_) => form.kind == ConnectionKind::Ssh && form.auth
            == AuthChoice::Password,
        FormEdit::SavePassword(_) => form.kind == ConnectionKind::Ssh && form.auth
            == AuthChoice::Password,
        FormEdit::KeyPath(_) => form.kind == ConnectionKind::Ssh && form.auth == AuthChoice::Key,
        FormEdit::KeyPassphrase(_) => form.kind == ConnectionKind::Ssh && form.auth
            == AuthChoice::Key,
        FormEdit::PostConnectCommand(_) => form.kind == ConnectionKind::Ssh,
        FormEdit::SerialPort(_) => form.kind == ConnectionKind::Serial,
        FormEdit::BaudRate(_) => form.kind == ConnectionKind::Serial,
        FormEdit::DataBits(_) => form.kind == ConnectionKind::Serial,
        FormEdit::StopBits(_) => form.kind == ConnectionKind::Serial,
        FormEdit::Parity(_) => form.kind == ConnectionKind::Serial,
        FormEdit::Flow(_) => form.kind == ConnectionKind::Serial,
    }
}

/// A number kept between two bounds.
pub open spec fn kept_between(value: int, low: int, high: int) -> int {
    if value < low {
        low
    } else if value > high {
        high
    } else {
        value
    }
}

/// The form after a change of a field that is shown; numbers stay within their bounds.
pub open spec fn edited(form: FormView, edit: FormEdit) -> FormView {
    match edit {
        FormEdit::Kind(kind) => FormView { kind, ..form },
        FormEdit::Name(text) => FormView { name: text@, ..form },
        FormEdit::Host(text) => FormView { host: text@, ..form },
        FormEdit::Port(port) => FormView {
            port: kept_between(port as int, 1, 65535) as u16,
            ..form
        },
        FormEdit::Username(text) => FormView { username: text@, ..form },
        FormEdit::Auth(auth) => FormView { auth, ..form },
        FormEdit::Password(text) => FormView { password: text@, ..form },
        FormEdit::SavePassword(on) => FormView { save_password: on, ..form },
        FormEdit::KeyPath(text) => FormView { key_path: text@, ..form },
        FormEdit::KeyPassphrase(text) => FormView { key_passphrase: text@, ..form },
        FormEdit::PostConnectCommand(text) => FormView { post_connect_command: text@, ..form },
        FormEdit::SerialPort(text) => FormView { serial_port: text@, ..form },
        FormEdit::BaudRate(rate) => FormView {
            baud_rate: kept_between(rate as int, 1, 4000000) as u32,
            ..form
        },
        FormEdit::DataBits(bits) => FormView {
            data_bits: kept_between(bits as int, 5, 8) as u8,
            ..form
        },
        FormEdit::StopBits(bits) => FormView {
            stop_bits: kept_between(bits as int, 1, 2) as u8,
            ..form
        },
        FormEdit::Parity(parity) => FormView { parity, ..form },
        FormEdit::Flow(flow_control) => FormView { flow_control, ..form },
    }
}

fn keep_between(value: u32, low: u32, high: u32) -> (r: u32)
    ensures
        r == kept_between(value as int, low as int, high as int),
{
    if value < low {
        low
    } else if value > high {
        high
    } else {
        value
    }
}

/// What a form asks of the program around.
pub enum DialogOutcome {
    Connect(ConnectRequest),
    Cancel,
}

/// What asking for a connection makes of the form; `refused` says why a serial port was refused.
pub open spec fn connects(
    form: FormView,
    refused: Option<Seq<char>>,
    after: FormView,
    r: Option<DialogOutcome>,
) -> bool {
    let problem = if form_problem(form) is None && form.kind == ConnectionKind::Serial {
        refused
    } else {
        form_problem(form)
    };
    &&& after == (FormView { error: problem, ..form })
    &&& match r {
        Some(DialogOutcome::Connect(request)) => problem is None && request@ == request_of(form),
        Some(DialogOutcome::Cancel) => false,
        None => problem is Some,
    }
}

/// What saving the profile makes of the form, with the name of the profile.
pub open spec fn saves_profile(form: FormView, after: FormView, r: Result<String, String>) -> bool {
    match r {
        Ok(name) => profile_name(form).len() > 0 && name@ == profile_name(form) && after == (
        FormView { profiles: with_profile(form.profiles, profile_of(form)), ..form }),
        Err(message) => profile_name(form).len() == 0 && message@ == "配置名称或主机不能为空"@
            && after == (FormView { error: Some(message@), ..form }),
    }
}

/// What deleting the selected profile makes of the form, with the key of its password.
pub open spec fn deletes_profile(
    form: FormView,
    after: FormView,
    r: Option<Option<String>>,
) -> bool {
    match r {
        None => form.selected_profile is None && after == form,
        Some(key) => {
            let name = form.selected_profile->Some_0;
            let at = profile_at(form.profiles, name);
            &&& form.selected_profile is Some
            &&& after == (FormView { profiles: without_profile(form.profiles, name), ..form })
            &&& opt_text(key) == if at < form.profiles.len() {
                profile_key(form.profiles[at as int])
            } else {
                None
            }
        },
    }
}

impl ConnectForm {
    /// An empty form.
    pub fn new(
        username: Option<String>,
        home: Option<&str>,
        profiles: Option<Vec<ConnectionProfile>>,
        serial_ports: Option<Vec<SerialPort>>,
    ) -> (r: ConnectForm)
        ensures
            r.kind == ConnectionKind::Ssh && r.port == 22 && r.auth == AuthChoice::Password,
            r.name@ == Seq::<char>::empty() && r.host@ == Seq::<char>::empty(),
            r.username@ == match username {
                Some(name) => name@,
                None => Seq::empty(),
            },
            r.password@ == Seq::<char>::empty() && r.key_passphrase@ == Seq::<char>::empty(),
            r.key_path@ == match home {
                Some(home) => home@ + "/.ssh/id_ed25519"@,
                None => "~/.ssh/id_ed25519"@,
            },
            r.post_connect_command@ == Seq::<char>::empty(),
            !r.save_password && r.shell_colors,
            r.serial_port@ == Seq::<char>::empty() && r.baud_rate == 115200,
            r.data_bits == 8 && r.stop_bits == 1,
            r.parity == ParityChoice::Off && r.flow_control == FlowChoice::Off,
            r.profiles@ == match profiles {
                Some(profiles) => profiles@,
                None => Seq::empty(),
            },
            r.selected_profile is None && r.error is None,
            r.serial_ports@ == match serial_ports {
                Some(ports) => ports@,
                None => Seq::empty(),
            },
    {
        let username = match username {
            Some(name) => name,
            None => String::new(),
        };
        let serial_ports = match serial_ports {
            Some(ports) => ports,
            None => Vec::new(),
        };
        ConnectForm {
            kind: ConnectionKind::Ssh,
            name: String::new(),
            host: String::new(),
            port: 22,
            username,
            auth: AuthChoice::Password,
            password: String::new(),
            key_path: default_key_path(home),
            key_passphrase: String::new(),
            post_connect_command: String::new(),
            save_password: false,
            shell_colors: true,
            serial_port: String::new(),
            baud_rate: 115200,
            data_bits: 8,
            stop_bits: 1,
            parity: ParityChoice::Off,
            flow_control: FlowChoice::Off,
            profiles: load_profiles(profiles),
            selected_profile: None,
            serial_ports,
            error: None,
        }
    }

    pub fn show_error(&mut self, message: String)
        ensures
            final(self)@ == (FormView { error: Some(message@), ..old(self)@ }),
    {
        self.error = Some(message);
    }

    fn shows(&self, edit: &FormEdit) -> (r: bool)
        ensures
            r == edit_is_shown(self@, *edit),
    {
        let ssh = self.kind == ConnectionKind::Ssh;
        let serial = self.kind == ConnectionKind::Serial;
        match edit {
            FormEdit::Kind(_) => true,
            FormEdit::Name(_) => true,
            FormEdit::Host(_) => !serial,
            FormEdit::Port(_) => !serial,
            FormEdit::Username(_) => ssh,
            FormEdit::Auth(_) => ssh,
            FormEdit::Password(_) => ssh && self.auth == AuthChoice::Password,
            FormEdit::SavePassword(_) => ssh && self.auth == AuthChoice::Password,
            FormEdit::KeyPath(_) => ssh && self.auth == AuthChoice::Key,
            FormEdit::KeyPassphrase(_) => ssh && self.auth == AuthChoice::Key,
            FormEdit::PostConnectCommand(_) => ssh,
            FormEdit::SerialPort(_) => serial,
            FormEdit::BaudRate(_) => serial,
            FormEdit::DataBits(_) => serial,
            FormEdit::StopBits(_) => serial,
            FormEdit::Parity(_) => serial,
            FormEdit::Flow(_) => serial,
        }
    }

    /// Changes a field that is shown.
    pub fn edit(&mut self, edit: FormEdit)
        ensures
            final(self)@ == if edit_is_shown(old(self)@, edit) {
                edited(old(self)@, edit)
            } else {
                old(self)@
            },
    {
        if !self.shows(&edit) {
            return;
        }
        match edit {
            FormEdit::Kind(kind) => {
                self.kind = kind;
            },
            FormEdit::Name(text) => {
                self.name = text;
            },
            FormEdit::Host(text) => {
                self.host = text;
            },
            FormEdit::Port(port) => {
                self.port = keep_between(port as u32, 1, 65535) as u16;
            },
            FormEdit::Username(text) => {
                self.username = text;
            },
            FormEdit::Auth(auth) => {
                self.auth = auth;
            },
            FormEdit::Password(text) => {
                self.password = text;
            },
            FormEdit::SavePassword(on) => {
                self.save_password = on;
            },
            FormEdit::KeyPath(text) => {
                self.key_path = text;
            },
            FormEdit::KeyPassphrase(text) => {
                self.key_passphrase = text;
            },
            FormEdit::PostConnectCommand(text) => {
                self.post_connect_command = text;
            },
            FormEdit::SerialPort(text) => {
                self.serial_port = text;
            },
            FormEdit::BaudRate(rate) => {
                self.baud_rate = keep_between(rate, 1, 4000000);
            },
            FormEdit::DataBits(bits) => {
                self.data_bits = keep_between(bits as u32, 5, 8) as u8;
            },
            FormEdit::StopBits(bits) => {
                self.stop_bits = keep_between(bits as u32, 1, 2) as u8;
            },
            FormEdit::Parity(parity) => {
                self.parity = parity;
            },
            FormEdit::Flow(flow_control) => {
                self.flow_control = flow_control;
            },
        }
    }

    pub fn refresh_serial_ports(&mut self, found: Option<Vec<SerialPort>>)
        ensures
            ({
                let ports = match found {
                    Some(ports) => ports@,
                    None => Seq::empty(),
                };
                final(self)@ == (FormView {
                    serial_ports: ports,
                    error: if ports.len() == 0 {
                        Some("未检测到串口设备，可手动填写端口路径"@)
                    } else {
                        old(self)@.error
                    },
                    ..old(self)@
                })
            }),
    {
        self.serial_ports = match found {
            Some(ports) => ports,
            None => Vec::new(),
        };
        if self.serial_ports.len() == 0 {
            self.error = Some("未检测到串口设备，可手动填写端口路径".to_string());
        }
    }

    /// The key to look for before a profile is loaded.
    pub fn stored_key(profile: &ConnectionProfile) -> (r: Option<String>)
        ensures
            opt_text(r) == profile_key(profile@),
    {
        if profile.kind == ConnectionKind::Ssh && profile.auth == AuthChoice::Password {
            Some(
                ssh_password_key(profile.username.as_str(), profile.host.as_str(), profile.port),
            )
        } else {
            None
        }
    }

    /// Fills the form with a profile, and with its password where that was kept.
    pub fn apply_profile(&mut self, profile: ConnectionProfile, kept: Option<WipedText>)
        ensures
            final(self)@ == form_loaded(
                old(self)@,
                profile@,
                match kept {
                    Some(secret) => Some(secret@),
                    None => None,
                },
            ),
    {
        let may_keep = profile.kind == ConnectionKind::Ssh && profile.auth == AuthChoice::Password;
        self.kind = profile.kind;
        self.name = profile.name;
        self.host = profile.host;
        self.port = profile.port;
        self.username = profile.username;
        self.auth = profile.auth;
        self.key_path = profile.key_path;
        self.post_connect_command = profile.post_connect_command;
        self.save_password = false;
        self.serial_port = profile.serial_port;
        self.baud_rate = profile.baud_rate;
        self.data_bits = profile.data_bits;
        self.stop_bits = profile.stop_bits;
        self.parity = profile.parity;
        self.flow_control = profile.flow_control;
        self.password = String::new();
        self.key_passphrase = String::new();
        if may_keep {
            if let Some(secret) = kept {
                self.password = secret.expose().to_string();
                self.save_password = true;
            }
        }
        self.error = None;
    }

    /// Chooses the profile at a position of the list.
    pub fn select_profile(&mut self, at: usize, kept: Option<WipedText>)
        requires
            at < old(self).profiles@.len(),
        ensures
            final(self)@ == form_loaded(
                FormView {
                    selected_profile: Some(old(self)@.profiles[at as int].name),
                    ..old(self)@
                },
                old(self)@.profiles[at as int],
                match kept {
                    Some(secret) => Some(secret@),
                    None => None,
                },
            ),
    {
        let profile = self.profiles[at].duplicate();
        self.selected_profile = Some(profile.name.clone());
        self.apply_profile(profile, kept);
    }

    pub fn current_profile(&self) -> (r: Result<ConnectionProfile, String>)
        ensures
            match r {
                Ok(profile) => profile_name(self@).len() > 0 && profile@ == profile_of(self@),
                Err(message) => profile_name(self@).len() == 0 && message@
                    == "配置名称或主机不能为空"@,
            },
    {
        let entered = trim(self.name.as_str());
        let name = if entered.unicode_len() > 0 {
            entered
        } else if self.kind == ConnectionKind::Serial {
            trim(self.serial_port.as_str())
        } else {
            trim(self.host.as_str())
        };
        if name.unicode_len() == 0 {
            return Err("配置名称或主机不能为空".to_string());
        }
        Ok(
            ConnectionProfile {
                name: name.to_string(),
                kind: self.kind,
                host: trim(self.host.as_str()).to_string(),
                port: self.port,
                username: trim(self.username.as_str()).to_string(),
                auth: self.auth,
                key_path: trim(self.key_path.as_str()).to_string(),
                post_connect_command: trim(self.post_connect_command.as_str()).to_string(),
                serial_port: trim(self.serial_port.as_str()).to_string(),
                baud_rate: self.baud_rate,
                data_bits: self.data_bits,
                stop_bits: self.stop_bits,
                parity: self.parity,
                flow_control: self.flow_control,
            },
        )
    }

    /// Puts the form on the list of profiles, which is then to be written; gives its name.
    pub fn save_current_profile(&mut self) -> (r: Result<String, String>)
        ensures
            saves_profile(old(self)@, final(self)@, r),
    {
        match self.current_profile() {
            Ok(profile) => {
                let name = profile.name.clone();
                put_profile(&mut self.profiles, profile);
                Ok(name)
            },
            Err(message) => {
                self.error = Some(message.clone());
                Err(message)
            },
        }
    }

    /// Takes how the writing of the list went: `chosen` is selected once it is written.
    pub fn profiles_written(&mut self, written: Result<(), String>, chosen: Option<String>)
        ensures
            final(self)@ == match written {
                Ok(_) => FormView {
                    selected_profile: opt_text(chosen),
                    error: None,
                    ..old(self)@
                },
                Err(message) => FormView { error: Some(message@), ..old(self)@ },
            },
    {
        match written {
            Ok(_) => {
                self.selected_profile = chosen;
                self.error = None;
            },
            Err(message) => {
                self.error = Some(message);
            },
        }
    }

    /// Takes the selected profile off the list, which is then to be written; gives the key of a
    /// password that is to be forgotten. Without a selection there is nothing to do.
    pub fn delete_selected_profile(&mut self) -> (r: Option<Option<String>>)
        ensures
            deletes_profile(old(self)@, final(self)@, r),
    {
        let name = match &self.selected_profile {
            Some(name) => name.clone(),
            None => {
                return None;
            },
        };
        let key = match find_profile(&self.profiles, name.as_str()) {
            Some(at) => ConnectForm::stored_key(&self.profiles[at]),
            None => None,
        };
        remove_profiles(&mut self.profiles, name.as_str());
        Some(key)
    }

    fn ssh_auth(&self) -> (r: SshAuth)
        ensures
            r@ == auth_of(self@),
    {
        match self.auth {
            AuthChoice::Password => SshAuth::Password(WipedText::new(self.password.clone())),
            AuthChoice::Key => SshAuth::Key {
                path: trim(self.key_path.as_str()).to_string(),
                passphrase: if self.key_passphrase.as_str().unicode_len() > 0 {
                    Some(WipedText::new(self.key_passphrase.clone()))
                } else {
                    None
                },
            },
            AuthChoice::Agent => SshAuth::Agent,
        }
    }

    fn build_ssh_request(&self) -> (r: Result<ConnectRequest, String>)
        requires
            self.kind == ConnectionKind::Ssh,
        ensures
            match r {
                Ok(request) => form_problem(self@) is None && request@ == request_of(self@),
                Err(message) => form_problem(self@) == Some(message@),
            },
    {
        let host = trim(self.host.as_str());
        let username = trim(self.username.as_str());
        if host.unicode_len() == 0 {
            return Err("主机不能为空".to_string());
        }
        if username.unicode_len() == 0 {
            return Err("用户名不能为空".to_string());
        }
        if self.auth == AuthChoice::Key && trim(self.key_path.as_str()).unicode_len() == 0 {
            return Err("私钥路径不能为空".to_string());
        }
        let command = trim(self.post_connect_command.as_str());
        let target = SshConnectSpec {
            host: host.to_string(),
            port: self.port,
            username: username.to_string(),
            auth: self.ssh_auth(),
            timeout_secs: CONNECT_TIMEOUT_SECS,
            shell_colors: self.shell_colors,
            post_connect_command: if command.unicode_len() > 0 {
                Some(command.to_string())
            } else {
                None
            },
            prompt_password: WipedText::new(self.password.clone()),
        };
        let save_password = if self.save_password && self.password.as_str().unicode_len() > 0 {
            Some(
                (
                    ssh_password_key(username, host, self.port),
                    WipedText::new(self.password.clone()),
                ),
            )
        } else {
            None
        };
        Ok(
            ConnectRequest {
                target: ConnectTarget::Ssh(target),
                label: concat5(
                    username,
                    "@",
                    host,
                    ":",
                    decimal_text(self.port as u64).as_str(),
                ),
                save_password,
            },
        )
    }

    fn build_telnet_request(&self) -> (r: Result<ConnectRequest, String>)
        requires
            self.kind == ConnectionKind::Telnet,
        ensures
            match r {
                Ok(request) => form_problem(self@) is None && request@ == request_of(self@),
                Err(message) => form_problem(self@) == Some(message@),
            },
    {
        let host = trim(self.host.as_str());
        if host.unicode_len() == 0 {
            return Err("主机不能为空".to_string());
        }
        Ok(
            ConnectRequest {
                target: ConnectTarget::Telnet(
                    TelnetTarget { host: host.to_string(), port: self.port },
                ),
                label: concat3(host, ":", decimal_text(self.port as u64).as_str()),
                save_password: None,
            },
        )
    }

    fn build_serial_request(&self) -> (r: Result<ConnectRequest, String>)
        requires
            self.kind == ConnectionKind::Serial,
        ensures
            match r {
                Ok(request) => form_problem(self@) is None && request@ == request_of(self@),
                Err(message) => form_problem(self@) == Some(message@),
            },
    {
        let port_path = trim(self.serial_port.as_str());
        if port_path.unicode_len() == 0 {
            return Err("串口端口不能为空".to_string());
        }
        if self.baud_rate == 0 {
            return Err("波特率必须大于 0".to_string());
        }
        if self.data_bits < 5 || self.data_bits > 8 {
            return Err("数据位必须在 5..=8 之间".to_string());
        }
        if self.stop_bits != 1 && self.stop_bits != 2 {
            return Err("停止位必须为 1 或 2".to_string());
        }
        Ok(
            ConnectRequest {
                target: ConnectTarget::Serial(
                    SerialTarget {
                        port_path: port_path.to_string(),
                        baud_rate: self.baud_rate,
                        data_bits: self.data_bits,
                        stop_bits: self.stop_bits,
                        parity: self.parity,
                        flow_control: self.flow_control,
                    },
                ),
                label: concat2("串口 ", port_path),
                save_password: None,
            },
        )
    }

    pub fn build_request(&self) -> (r: Result<ConnectRequest, String>)
        ensures
            match r {
                Ok(request) => form_problem(self@) is None && request@ == request_of(self@),
                Err(message) => form_problem(self@) == Some(message@),
            },
            r matches Ok(request) ==> (match request.target {
                ConnectTarget::Ssh(target) => self.kind == ConnectionKind::Ssh && target.port
                    == self.port && target.host@ == trimmed(self.host@) && target.username@
                    == trimmed(self.username@) && target.shell_colors == self.shell_colors
                    && target.prompt_password@ == self.password@,
                ConnectTarget::Telnet(target) => self.kind == ConnectionKind::Telnet && target.port
                    == self.port && target.host@ == trimmed(self.host@),
                ConnectTarget::Serial(target) => self.kind == ConnectionKind::Serial
                    && target.port_path@ == trimmed(self.serial_port@) && target.baud_rate
                    == self.baud_rate && target.data_bits == self.data_bits && target.stop_bits
                    == self.stop_bits && target.parity == self.parity && target.flow_control
                    == self.flow_control,
            }),
    {
        match self.kind {
            ConnectionKind::Ssh => self.build_ssh_request(),
            ConnectionKind::Telnet => self.build_telnet_request(),
            ConnectionKind::Serial => self.build_serial_request(),
        }
    }

    /// Ends the form with a connection. `refused` is what the driver of serial ports has against
    /// the settings of one.
    pub fn connect(&mut self, refused: Option<String>) -> (r: Option<DialogOutcome>)
        ensures
            connects(old(self)@, opt_text(refused), final(self)@, r),
    {
        match self.build_request() {
            Ok(request) => {
                if self.kind == ConnectionKind::Serial {
                    if let Some(message) = refused {
                        self.error = Some(message);
                        return None;
                    }
                }
                self.error = None;
                Some(DialogOutcome::Connect(request))
            },
            Err(message) => {
                self.error = Some(message);
                None
            },
        }
    }

    /// The text of the list of profiles.
    pub fn selected_text(&self) -> (r: String)
        ensures
            r@ == match self.selected_profile {
                Some(name) => name@,
                None => "选择…"@,
            },
    {
        match &self.selected_profile {
            Some(name) => name.clone(),
            None => "选择…".to_string(),
        }
    }

    /// The text of the list of serial ports.
    pub fn serial_text(&self) -> (r: String)
        ensures
            r@ == if self.serial_port@.len() == 0 {
                "选择端口…"@
            } else {
                self.serial_port@
            },
    {
        if self.serial_port.as_str().unicode_len() == 0 {
            "选择端口…".to_string()
        } else {
            self.serial_port.clone()
        }
    }
}

impl SshConnectSpec {
    /// The password that answers prompts when the session is opened once more.
    pub fn reconnect_password(&self) -> (r: WipedText)
        ensures
            r@ == match self.auth@ {
                SshAuthView::Password(password) => password,
                _ => Seq::empty(),
            },
    {
        match &self.auth {
            SshAuth::Password(password) => WipedText::new(password.expose().to_string()),
            _ => WipedText::new(String::new()),
        }
    }
}

/// Whether a prompt, in lower case, asks for a secret.
pub open spec fn asks_for_secret(prompt: Seq<char>) -> bool {
    occurs(prompt, "password"@) || occurs(prompt, "passphrase"@)
}

pub fn wants_secret(lowered: &str) -> (r: bool)
    ensures
        r == asks_for_secret(lowered@),
{
    contains_text(lowered, "password") || contains_text(lowered, "passphrase")
}

/// The answers to prompts: the password where one is asked for, otherwise nothing.
pub open spec fn prompt_answers(prompts: Seq<Seq<char>>, password: Seq<char>) -> Seq<Seq<char>> {
    Seq::new(
        prompts.len(),
        |i: int|
            if asks_for_secret(lowercased(prompts[i])) {
                password
            } else {
                Seq::empty()
            },
    )
}

pub fn answer_prompts(prompts: &[String], password: &WipedText) -> (r: Vec<String>)
    ensures
        texts(r@) == prompt_answers(texts(prompts@), password@),
{
    let mut r: Vec<String> = Vec::new();
    let mut i: usize = 0;
    while i < prompts.len()
        invariant
            i <= prompts.len(),
            r.len() == i,
            forall|j: int|
                0 <= j < i ==> (#[trigger] r@[j])@ == prompt_answers(
                    texts(prompts@),
                    password@,
                )[j],
        decreases prompts.len() - i,
    {
        let lowered = lower(prompts[i].as_str());
        if wants_secret(lowered.as_str()) {
            r.push(password.expose().to_string());
        } else {
            r.push(String::new());
        }
        i = i + 1;
    }
    assert(texts(r@) =~= prompt_answers(texts(prompts@), password@));
    r
}

/// What is saved of a form does not depend on its secrets.
pub proof fn law_profile_holds_no_secret(
    form: FormView,
    password: Seq<char>,
    key_passphrase: Seq<char>,
    save_password: bool,
)
    ensures
        profile_of(FormView { password, key_passphrase, save_password, ..form }) == profile_of(form),
{
}

/// A profile that was saved of a form fills a form that would be saved as the same profile.
pub proof fn law_saved_profile_loads_back(form: FormView, other: FormView, kept: Option<Seq<char>>)
    requires
        profile_name(form).len() > 0,
    ensures
        profile_of(form_loaded(other, profile_of(form), kept)) == profile_of(form),
{
    law_trimmed_ends(form.name);
    law_trimmed_ends(form.host);
    law_trimmed_ends(form.username);
    law_trimmed_ends(form.key_path);
    law_trimmed_ends(form.post_connect_command);
    law_trimmed_ends(form.serial_port);
}

/// Numbers that are entered stay within their bounds.
pub proof fn law_shown_numbers_are_bounded(form: FormView, edit: FormEdit)
    ensures
        edit matches FormEdit::Port(_) ==> edited(form, edit).port >= 1,
        edit matches FormEdit::BaudRate(_) ==> 1 <= edited(form, edit).baud_rate <= 4000000,
        edit matches FormEdit::DataBits(_) ==> 5 <= edited(form, edit).data_bits <= 8,
        edit matches FormEdit::StopBits(_) ==> 1 <= edited(form, edit).stop_bits <= 2,
{
}

/// A form is refused exactly where something that its kind of session needs is missing or out of
/// bounds: of SSH the machine, the account and, for a key, its file; of Telnet the machine; of a
/// serial port its name, a rate, five to eight bits of data and one or two stop bits.
pub proof fn law_forms_lack_nothing(form: FormView)
    ensures
        form.kind == ConnectionKind::Ssh ==> (form_problem(form) is None <==> trimmed(
            form.host,
        ).len() > 0 && trimmed(form.username).len() > 0 && (form.auth == AuthChoice::Key
            ==> trimmed(form.key_path).len() > 0)),
        form.kind == ConnectionKind::Telnet ==> (form_problem(form) is None <==> trimmed(
            form.host,
        ).len() > 0),
        form.kind == ConnectionKind::Serial ==> (form_problem(form) is None <==> trimmed(
            form.serial_port,
        ).len() > 0 && form.baud_rate > 0 && 5 <= form.data_bits && form.data_bits <= 8 && 1
            <= form.stop_bits && form.stop_bits <= 2),
{
}

/// An SSH session goes to the machine, the port and the account that were entered, with the proof
/// that was chosen, and its label names these three.
pub proof fn law_ssh_goes_where_the_form_says(form: FormView)
    requires
        form.kind == ConnectionKind::Ssh,
    ensures
        request_of(form).target matches TargetView::Ssh {
            host,
            port,
            username,
            auth,
            timeout_secs,
            shell_colors,
            post_connect_command,
            prompt_password,
        } && {
            &&& port == form.port
            &&& host == trimmed(form.host)
            &&& username == trimmed(form.username)
            &&& timeout_secs == 20
            &&& shell_colors == form.shell_colors
            &&& prompt_password == form.password
            &&& post_connect_command is Some <==> trimmed(form.post_connect_command).len() > 0
            &&& post_connect_command matches Some(command) ==> command == trimmed(
                form.post_connect_command,
            )
            &&& match form.auth {
                AuthChoice::Password => auth == SshAuthView::Password(form.password),
                AuthChoice::Agent => auth is Agent,
                AuthChoice::Key => auth matches SshAuthView::Key { path, passphrase } && path
                    == trimmed(form.key_path) && (passphrase is Some <==> form.key_passphrase.len()
                    > 0) && (passphrase matches Some(secret) ==> secret == form.key_passphrase),
            }
            &&& request_of(form).label == username + seq!['@'] + host + seq![':'] + decimal(
                port as nat,
            )
        },
{
    reveal_strlit("@");
    reveal_strlit(":");
    assert("@"@ =~= seq!['@']);
    assert(":"@ =~= seq![':']);
}

/// A password is kept only where that was asked for and there is one; it is the one that was
/// entered, under the key of the machine, port and account that are connected to.
pub proof fn law_kept_password_is_that_of_the_account(form: FormView)
    ensures
        request_of(form).save_password is Some <==> form.kind == ConnectionKind::Ssh
            && form.save_password && form.password.len() > 0,
        request_of(form).save_password matches Some((key, password)) ==> password == form.password
            && key == password_key(trimmed(form.username), trimmed(form.host), form.port)
            && Some(key) == profile_key(
            ProfileView { auth: AuthChoice::Password, ..profile_of(form) },
        ),
{
}

/// The key of an account names its user, machine and port.
pub proof fn law_key_names_the_account(username: Seq<char>, host: Seq<char>, port: u16)
    ensures
        password_key(username, host, port) == seq!['s', 's', 'h', ':', '/', '/'] + username + seq![
            '@',
        ] + host + seq![':'] + decimal(port as nat),
{
    reveal_strlit("ssh://");
    reveal_strlit("@");
    reveal_strlit(":");
    assert("ssh://"@ =~= seq!['s', 's', 'h', ':', '/', '/']);
    assert("@"@ =~= seq!['@']);
    assert(":"@ =~= seq![':']);
    assert(password_key(username, host, port) =~= seq!['s', 's', 'h', ':', '/', '/'] + username
        + seq!['@'] + host + seq![':'] + decimal(port as nat));
}

/// A Telnet session goes to the machine and the port that were entered, which its label names.
pub proof fn law_telnet_goes_where_the_form_says(form: FormView)
    requires
        form.kind == ConnectionKind::Telnet,
    ensures
        request_of(form).target matches TargetView::Telnet { host, port } && port == form.port
            && host == trimmed(form.host) && request_of(form).label == host + seq![':'] + decimal(
            port as nat,
        ),
{
    reveal_strlit(":");
    assert(":"@ =~= seq![':']);
}

/// A serial session uses the port and the settings that were entered, and its label ends with the
/// name of the port.
pub proof fn law_serial_uses_what_the_form_says(form: FormView)
    requires
        form.kind == ConnectionKind::Serial,
    ensures
        request_of(form).target matches TargetView::Serial {
            port_path,
            baud_rate,
            data_bits,
            stop_bits,
            parity,
            flow_control,
        } && port_path == trimmed(form.serial_port) && baud_rate == form.baud_rate && data_bits
            == form.data_bits && stop_bits == form.stop_bits && parity == form.parity && flow_control
            == form.flow_control && port_path.is_suffix_of(request_of(form).label),
{
    let label = request_of(form).label;
    let path = trimmed(form.serial_port);
    assert(label.subrange(label.len() - path.len(), label.len() as int) =~= path);
}

/// A profile holds what was entered, but for white space around it; its name is the one entered, or
/// else that of the machine or of the port.
pub proof fn law_profile_holds_the_form(form: FormView)
    ensures
        ({
            let profile = profile_of(form);
            &&& profile.kind == form.kind && profile.port == form.port && profile.auth == form.auth
            &&& profile.host == trimmed(form.host)
            &&& profile.username == trimmed(form.username)
            &&& profile.key_path == trimmed(form.key_path)
            &&& profile.post_connect_command == trimmed(form.post_connect_command)
            &&& profile.serial_port == trimmed(form.serial_port)
            &&& profile.baud_rate == form.baud_rate && profile.data_bits == form.data_bits
            &&& profile.stop_bits == form.stop_bits && profile.parity == form.parity
            &&& profile.flow_control == form.flow_control
            &&& trimmed(form.name).len() > 0 ==> profile.name == trimmed(form.name)
            &&& trimmed(form.name).len() == 0 && form.kind == ConnectionKind::Serial
                ==> profile.name == trimmed(form.serial_port)
            &&& trimmed(form.name).len() == 0 && form.kind != ConnectionKind::Serial
                ==> profile.name == trimmed(form.host)
        }),
{
}

/// A form that a profile was loaded into holds the profile; its secrets are gone, but for a password
/// that was kept for the account of a profile that has one. The lists of profiles and ports stay.
pub proof fn law_loaded_form_holds_the_profile(
    form: FormView,
    profile: ProfileView,
    kept: Option<Seq<char>>,
)
    ensures
        ({
            let loaded = form_loaded(form, profile, kept);
            &&& loaded.kind == profile.kind && loaded.name == profile.name
            &&& loaded.host == profile.host && loaded.port == profile.port
            &&& loaded.username == profile.username && loaded.auth == profile.auth
            &&& loaded.key_path == profile.key_path
            &&& loaded.post_connect_command == profile.post_connect_command
            &&& loaded.serial_port == profile.serial_port && loaded.baud_rate == profile.baud_rate
            &&& loaded.data_bits == profile.data_bits && loaded.stop_bits == profile.stop_bits
            &&& loaded.parity == profile.parity && loaded.flow_control == profile.flow_control
            &&& loaded.key_passphrase.len() == 0 && loaded.error is None
            &&& (kept is Some && profile.kind == ConnectionKind::Ssh && profile.auth
                == AuthChoice::Password) ==> loaded.password == kept->Some_0 && loaded.save_password
            &&& !(kept is Some && profile.kind == ConnectionKind::Ssh && profile.auth
                == AuthChoice::Password) ==> loaded.password.len() == 0 && !loaded.save_password
            &&& loaded.profiles == form.profiles && loaded.serial_ports == form.serial_ports
            &&& loaded.shell_colors == form.shell_colors
            &&& loaded.selected_profile == form.selected_profile
        }),
{
}

/// What is entered in a field is what the field then holds, a number within its bounds, and no
/// other field changes.
pub proof fn law_edits_change_their_field(form: FormView, edit: FormEdit)
    ensures
        ({
            let next = edited(form, edit);
            match edit {
                FormEdit::Kind(kind) => next.kind == kind && (FormView {
                    kind: form.kind,
                    ..next
                }) == form,
                FormEdit::Name(text) => next.name == text@ && (FormView {
                    name: form.name,
                    ..next
                }) == form,
                FormEdit::Host(text) => next.host == text@ && (FormView {
                    host: form.host,
                    ..next
                }) == form,
                FormEdit::Port(port) => (port >= 1 ==> next.port == port) && (port == 0
                    ==> next.port == 1) && (FormView { port: form.port, ..next }) == form,
                FormEdit::Username(text) => next.username == text@ && (FormView {
                    username: form.username,
                    ..next
                }) == form,
                FormEdit::Auth(auth) => next.auth == auth && (FormView {
                    auth: form.auth,
                    ..next
                }) == form,
                FormEdit::Password(text) => next.password == text@ && (FormView {
                    password: form.password,
                    ..next
                }) == form,
                FormEdit::SavePassword(on) => next.save_password == on && (FormView {
                    save_password: form.save_password,
                    ..next
                }) == form,
                FormEdit::KeyPath(text) => next.key_path == text@ && (FormView {
                    key_path: form.key_path,
                    ..next
                }) == form,
                FormEdit::KeyPassphrase(text) => next.key_passphrase == text@ && (FormView {
                    key_passphrase: form.key_passphrase,
                    ..next
                }) == form,
                FormEdit::PostConnectCommand(text) => next.post_connect_command == text@ && (
                FormView { post_connect_command: form.post_connect_command, ..next }) == form,
                FormEdit::SerialPort(text) => next.serial_port == text@ && (FormView {
                    serial_port: form.serial_port,
                    ..next
                }) == form,
                FormEdit::BaudRate(rate) => (1 <= rate && rate <= 4000000 ==> next.baud_rate == rate)
                    && (FormView { baud_rate: form.baud_rate, ..next }) == form,
                FormEdit::DataBits(bits) => (5 <= bits && bits <= 8 ==> next.data_bits == bits) && (
                FormView { data_bits: form.data_bits, ..next }) == form,
                FormEdit::StopBits(bits) => (1 <= bits && bits <= 2 ==> next.stop_bits == bits) && (
                FormView { stop_bits: form.stop_bits, ..next }) == form,
                FormEdit::Parity(parity) => next.parity == parity && (FormView {
                    parity: form.parity,
                    ..next
                }) == form,
                FormEdit::Flow(flow) => next.flow_control == flow && (FormView {
                    flow_control: form.flow_control,
                    ..next
                }) == form,
            }
        }),
{
}

/// Prompts are answered one by one: one that asks for a password or a passphrase with the password,
/// any other with nothing.
pub proof fn law_prompts_are_answered(prompts: Seq<Seq<char>>, password: Seq<char>, i: int)
    requires
        0 <= i < prompts.len(),
    ensures
        prompt_answers(prompts, password).len() == prompts.len(),
        occurs(lowercased(prompts[i]), "password"@) ==> prompt_answers(prompts, password)[i]
            == password,
        occurs(lowercased(prompts[i]), "passphrase"@) ==> prompt_answers(prompts, password)[i]
            == password,
        !occurs(lowercased(prompts[i]), "password"@) && !occurs(
            lowercased(prompts[i]),
            "passphrase"@,
        ) ==> prompt_answers(prompts, password)[i].len() == 0,
{
}

/// Which fields a form shows: a serial line has no host and no login, a login by password no key,
/// and only a serial line has its own settings.
pub proof fn law_forms_show_their_fields(form: FormView, edit: FormEdit)
    ensures
        edit is Kind || edit is Name ==> edit_is_shown(form, edit),
        edit is Host || edit is Port ==> (edit_is_shown(form, edit) <==> form.kind
            == ConnectionKind::Ssh || form.kind == ConnectionKind::Telnet),
        edit is Username || edit is Auth || edit is PostConnectCommand ==> (edit_is_shown(form, edit)
            <==> form.kind == ConnectionKind::Ssh),
        edit is Password || edit is SavePassword ==> (edit_is_shown(form, edit) <==> form.kind
            == ConnectionKind::Ssh && form.auth == AuthChoice::Password),
        edit is KeyPath || edit is KeyPassphrase ==> (edit_is_shown(form, edit) <==> form.kind
            == ConnectionKind::Ssh && form.auth == AuthChoice::Key),
        edit is SerialPort || edit is BaudRate || edit is DataBits || edit is StopBits
            || edit is Parity || edit is Flow ==> (edit_is_shown(form, edit) <==> form.kind
            == ConnectionKind::Serial),
{
}

/// A form without a problem connects to what it says, unless the serial port is refused; otherwise
/// the problem is shown and nothing is connected. Nothing else of the form changes.
pub proof fn law_sound_forms_connect(
    form: FormView,
    refused: Option<Seq<char>>,
    after: FormView,
    r: Option<DialogOutcome>,
)
    requires
        connects(form, refused, after, r),
    ensures
        form_problem(form) is Some ==> r is None && after.error == form_problem(form),
        form_problem(form) is None && form.kind != ConnectionKind::Serial ==> r is Some,
        form_problem(form) is None && refused is None ==> r is Some,
        form_problem(form) is None && form.kind == ConnectionKind::Serial && refused is Some ==> r
            is None && after.error == refused,
        r is Some ==> after.error is None && (r->Some_0 matches DialogOutcome::Connect(request)
            && request@ == request_of(form)),
        (FormView { error: form.error, ..after }) == form,
{
}

/// A form with a name is saved as a profile among the others, and one without a name is refused.
pub proof fn law_saved_profiles_are_kept(form: FormView, after: FormView, r: Result<String, String>)
    requires
        saves_profile(form, after, r),
    ensures
        r is Ok <==> profile_name(form).len() > 0,
        r is Ok ==> r->Ok_0@ == profile_name(form) && after == (FormView {
            profiles: with_profile(form.profiles, profile_of(form)),
            ..form
        }),
        r is Err ==> r->Err_0@ == "配置名称或主机不能为空"@ && after == (FormView {
            error: Some(r->Err_0@),
            ..form
        }),
{
}

/// Deleting takes the profiles of the selected name out and gives the key of the first of them;
/// without a selection nothing happens.
pub proof fn law_the_selected_profile_is_deleted(
    form: FormView,
    after: FormView,
    r: Option<Option<String>>,
    at: int,
)
    requires
        deletes_profile(form, after, r),
    ensures
        r is Some <==> form.selected_profile is Some,
        r is None ==> after == form,
        form.selected_profile matches Some(name) ==> {
            &&& after == (FormView { profiles: without_profile(form.profiles, name), ..form })
            &&& 0 <= at < form.profiles.len() && form.profiles[at].name == name && (forall|j: int|
                0 <= j < at ==> (#[trigger] form.profiles[j]).name != name) ==> opt_text(r->Some_0)
                == profile_key(form.profiles[at])
            &&& (forall|j: int|
                0 <= j < form.profiles.len() ==> (#[trigger] form.profiles[j]).name != name)
                ==> opt_text(r->Some_0) is None
        },
{
    if let Some(name) = form.selected_profile {
        lemma_profile_at(form.profiles, name);
    }
}

/// A form says the first thing that it lacks: a host, a user, a key; a serial port, its speed, its
/// bits.
pub proof fn law_forms_say_what_they_lack(form: FormView)
    ensures
        form.kind != ConnectionKind::Serial && trimmed(form.host).len() == 0 ==> form_problem(form)
            == Some("主机不能为空"@),
        form.kind == ConnectionKind::Ssh && trimmed(form.host).len() > 0 && trimmed(
            form.username,
        ).len() == 0 ==> form_problem(form) == Some("用户名不能为空"@),
        form.kind == ConnectionKind::Ssh && trimmed(form.host).len() > 0 && trimmed(
            form.username,
        ).len() > 0 && form_problem(form) is Some ==> form.auth == AuthChoice::Key && trimmed(
            form.key_path,
        ).len() == 0 && form_problem(form) == Some("私钥路径不能为空"@),
        form.kind == ConnectionKind::Serial && trimmed(form.serial_port).len() == 0 ==> form_problem(
            form,
        ) == Some("串口端口不能为空"@),
        form.kind == ConnectionKind::Serial && trimmed(form.serial_port).len() > 0 && form.baud_rate
            == 0 ==> form_problem(form) == Some("波特率必须大于 0"@),
        form.kind == ConnectionKind::Serial && trimmed(form.serial_port).len() > 0 && form.baud_rate
            > 0 && (form.data_bits < 5 || form.data_bits > 8) ==> form_problem(form) == Some(
            "数据位必须在 5..=8 之间"@,
        ),
        form.kind == ConnectionKind::Serial && trimmed(form.serial_port).len() > 0 && form.baud_rate
            > 0 && 5 <= form.data_bits <= 8 && (form.stop_bits < 1 || form.stop_bits > 2)
            ==> form_problem(form) == Some("停止位必须为 1 或 2"@),
{
}

/// A serial session is labelled by its port.
pub proof fn law_serial_sessions_are_labelled(form: FormView)
    requires
        form.kind == ConnectionKind::Serial,
    ensures
        request_of(form).label == seq!['串', '口', ' '] + trimmed(form.serial_port),
        request_of(form).save_password is None,
{
    reveal_strlit("串口 ");
    assert("串口 "@ =~= seq!['串', '口', ' ']);
}

} // verus!
