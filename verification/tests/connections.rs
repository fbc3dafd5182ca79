use hapcli::desktop::connect::{
    answer_prompts, default_key_path, ssh_password_key, ConnectForm, ConnectTarget, DialogOutcome,
    FormEdit, SerialPort, SshAuth,
};
use hapcli::desktop::profiles::{
    load_profiles, profiles_path, save_profiles, AuthChoice, ConnectionKind, ConnectionProfile,
    FlowChoice, ParityChoice,
};
use hapcli::paths::LocalPath;
use hapcli::wiped::WipedText;

fn form() -> ConnectForm {
    ConnectForm::new(None, Some("/home/me"), None, None)
}

fn ssh_form() -> ConnectForm {
    let mut form = form();
    form.host = "example.com".to_string();
    form.username = "alice".to_string();
    form
}

fn profile(name: &str) -> ConnectionProfile {
    ConnectionProfile {
        name: name.to_string(),
        kind: ConnectionKind::Ssh,
        host: "office.example.com".to_string(),
        port: 2222,
        username: "alice".to_string(),
        auth: AuthChoice::Password,
        key_path: "/Users/alice/.ssh/id_ed25519".to_string(),
        post_connect_command: String::new(),
        serial_port: String::new(),
        baud_rate: 0,
        data_bits: 8,
        stop_bits: 1,
        parity: ParityChoice::Off,
        flow_control: FlowChoice::Off,
    }
}

fn path(parts: &[&str]) -> LocalPath {
    LocalPath { components: parts.iter().map(|part| part.to_string()).collect() }
}

fn problem(form: &ConnectForm) -> String {
    match form.build_request() {
        Ok(_) => String::new(),
        Err(message) => message,
    }
}

#[test]
fn ssh_request_rejects_empty_host() {
    let form = form();
    assert!(form.build_request().is_err());
    assert_eq!(problem(&form), "主机不能为空");
}

#[test]
fn ssh_request_rejects_empty_username() {
    let mut form = form();
    form.host = "example.com".to_string();
    assert!(form.build_request().is_err());
    assert_eq!(problem(&form), "用户名不能为空");
}

#[test]
fn ssh_request_password_auth() {
    let mut form = ssh_form();
    form.password = "secret".to_string();
    form.save_password = true;
    let request = form.build_request().ok().unwrap();
    assert_eq!(request.label, "alice@example.com:22");
    let (key, secret) = request.save_password.unwrap();
    assert_eq!(key, "ssh://alice@example.com:22");
    assert_eq!(secret.expose(), "secret");
}

#[test]
fn ssh_request_does_not_save_password_by_default() {
    let mut form = ssh_form();
    form.password = "secret".to_string();
    let request = form.build_request().ok().unwrap();
    assert!(request.save_password.is_none());
}

#[test]
fn ssh_request_key_auth_requires_path() {
    let mut form = ssh_form();
    form.auth = AuthChoice::Key;
    form.key_path.clear();
    assert!(form.build_request().is_err());
    assert_eq!(problem(&form), "私钥路径不能为空");
}

#[test]
fn ssh_request_takes_the_key_and_the_command() {
    let mut form = ssh_form();
    form.auth = AuthChoice::Key;
    form.key_passphrase = "words".to_string();
    form.post_connect_command = " htop ".to_string();
    let request = form.build_request().ok().unwrap();
    match request.target {
        ConnectTarget::Ssh(spec) => {
            assert_eq!(spec.timeout_secs, 20);
            assert!(spec.shell_colors);
            assert_eq!(spec.post_connect_command, Some("htop".to_string()));
            assert_eq!(spec.reconnect_password().expose(), "");
            match spec.auth {
                SshAuth::Key { path, passphrase } => {
                    assert_eq!(path, "/home/me/.ssh/id_ed25519");
                    assert_eq!(passphrase.unwrap().expose(), "words");
                }
                _ => panic!("expected a key"),
            }
        }
        _ => panic!("expected ssh target"),
    }
}

#[test]
fn telnet_request_builds_config() {
    let mut form = form();
    form.kind = ConnectionKind::Telnet;
    form.host = "router.local".to_string();
    form.port = 23;
    let request = form.build_request().ok().unwrap();
    assert_eq!(request.label, "router.local:23");
    match request.target {
        ConnectTarget::Telnet(config) => {
            assert_eq!(config.host, "router.local");
            assert_eq!(config.port, 23);
        }
        _ => panic!("expected telnet target"),
    }
}

#[test]
fn serial_request_validates_port() {
    let mut form = form();
    form.kind = ConnectionKind::Serial;
    assert!(form.build_request().is_err());
    assert_eq!(problem(&form), "串口端口不能为空");
    form.serial_port = "/dev/cu.usbserial".to_string();
    assert!(form.build_request().is_ok());
    assert_eq!(form.build_request().ok().unwrap().label, "串口 /dev/cu.usbserial");
}

#[test]
fn serial_request_validates_numbers() {
    let mut form = form();
    form.kind = ConnectionKind::Serial;
    form.serial_port = "/dev/ttyS0".to_string();
    form.baud_rate = 0;
    assert_eq!(problem(&form), "波特率必须大于 0");
    form.baud_rate = 9600;
    form.data_bits = 9;
    assert_eq!(problem(&form), "数据位必须在 5..=8 之间");
    form.data_bits = 7;
    form.stop_bits = 3;
    assert_eq!(problem(&form), "停止位必须为 1 或 2");
}

#[test]
fn current_profile_never_contains_secrets() {
    let mut form = ssh_form();
    form.password = "hunter2".to_string();
    form.key_passphrase = "passphrase".to_string();
    let profile = form.current_profile().unwrap();
    assert_eq!(profile.name, "example.com");
    assert_eq!(profile.host, "example.com");
    let shown = format!("{profile:?}");
    assert!(!shown.contains("hunter2"));
    assert!(!shown.contains("\"passphrase\""));
}

#[test]
fn a_profile_needs_a_name() {
    let mut form = form();
    assert_eq!(form.current_profile().unwrap_err(), "配置名称或主机不能为空");
    assert_eq!(form.save_current_profile().unwrap_err(), "配置名称或主机不能为空");
    assert_eq!(form.error, Some("配置名称或主机不能为空".to_string()));
}

#[test]
fn saved_profiles_load_back() {
    let mut form = ssh_form();
    form.name = " work ".to_string();
    form.password = "hunter2".to_string();
    assert_eq!(form.save_current_profile(), Ok("work".to_string()));
    form.profiles_written(Ok(()), Some("work".to_string()));
    assert_eq!(form.selected_text(), "work");
    assert_eq!(form.profiles.len(), 1);
    let before = form.current_profile().unwrap();
    let mut other = ConnectForm::new(None, None, Some(form.profiles.clone()), None);
    other.select_profile(0, None);
    assert_eq!(other.current_profile().unwrap(), before);
    assert_eq!(other.password, "");
}

#[test]
fn a_kept_password_is_filled_in() {
    let mut form = form();
    let saved = profile("office");
    assert_eq!(
        ConnectForm::stored_key(&saved),
        Some("ssh://alice@office.example.com:2222".to_string())
    );
    form.apply_profile(saved, Some(WipedText::new("pw".to_string())));
    assert_eq!(form.password, "pw");
    assert!(form.save_password);
    let mut keyed = profile("key");
    keyed.auth = AuthChoice::Key;
    assert_eq!(ConnectForm::stored_key(&keyed), None);
    form.apply_profile(keyed, Some(WipedText::new("pw".to_string())));
    assert_eq!(form.password, "");
    assert!(!form.save_password);
}

#[test]
fn profiles_of_one_name_replace_each_other() {
    let mut form = ConnectForm::new(None, None, Some(vec![profile("a"), profile("b")]), None);
    form.name = "a".to_string();
    form.host = "new.example.com".to_string();
    assert_eq!(form.save_current_profile(), Ok("a".to_string()));
    assert_eq!(form.profiles.len(), 2);
    assert_eq!(form.profiles[0].host, "new.example.com");
    form.selected_profile = Some("b".to_string());
    assert_eq!(
        form.delete_selected_profile(),
        Some(Some("ssh://alice@office.example.com:2222".to_string()))
    );
    assert_eq!(form.profiles.len(), 1);
    form.selected_profile = None;
    assert_eq!(form.delete_selected_profile(), None);
    form.profiles_written(Err("disk".to_string()), None);
    assert_eq!(form.error, Some("disk".to_string()));
}

#[test]
fn only_shown_fields_are_edited() {
    let mut form = form();
    form.edit(FormEdit::BaudRate(0));
    assert_eq!(form.baud_rate, 115200);
    form.edit(FormEdit::Kind(ConnectionKind::Serial));
    form.edit(FormEdit::BaudRate(0));
    assert_eq!(form.baud_rate, 1);
    form.edit(FormEdit::DataBits(99));
    assert_eq!(form.data_bits, 8);
    form.edit(FormEdit::Host("x".to_string()));
    assert_eq!(form.host, "");
    form.edit(FormEdit::Kind(ConnectionKind::Telnet));
    form.edit(FormEdit::Port(0));
    assert_eq!(form.port, 1);
}

#[test]
fn the_form_ends_with_a_connection() {
    let mut form = form();
    assert!(form.connect(None).is_none());
    assert_eq!(form.error, Some("主机不能为空".to_string()));
    let mut form = ssh_form();
    assert!(matches!(form.connect(Some("x".to_string())), Some(DialogOutcome::Connect(_))));
    let mut form = ssh_form();
    form.kind = ConnectionKind::Serial;
    form.serial_port = "p".to_string();
    assert!(form.connect(Some("refused".to_string())).is_none());
    assert_eq!(form.error, Some("refused".to_string()));
}

#[test]
fn serial_ports_are_listed() {
    let mut form = form();
    assert_eq!(form.serial_text(), "选择端口…");
    form.refresh_serial_ports(None);
    assert_eq!(form.error, Some("未检测到串口设备，可手动填写端口路径".to_string()));
    let port = SerialPort { display_name: "USB".to_string(), port_path: "/dev/x".to_string() };
    assert_eq!(port.label(), "USB (/dev/x)");
    form.refresh_serial_ports(Some(vec![port]));
    assert_eq!(form.serial_ports.len(), 1);
}

#[test]
fn prompts_for_secrets_are_answered() {
    let prompts = vec![
        "PASSWORD: ".to_string(),
        "One-time code".to_string(),
        "Enter PassPhrase".to_string(),
    ];
    let answers = answer_prompts(&prompts, &WipedText::new("pw".to_string()));
    assert_eq!(answers, vec!["pw".to_string(), String::new(), "pw".to_string()]);
}

#[test]
fn keys_and_labels_are_formatted() {
    assert_eq!(ssh_password_key("u", "h", 22), "ssh://u@h:22");
    assert_eq!(default_key_path(None), "~/.ssh/id_ed25519");
    assert_eq!(ConnectionKind::Serial.label(), "串口");
    assert_eq!(AuthChoice::Agent.label(), "SSH Agent");
    assert_eq!(ParityChoice::Odd.label(), "奇校验");
    assert_eq!(FlowChoice::Hardware.label(), "硬件 (RTS/CTS)");
}

#[test]
fn load_missing_file_returns_empty() {
    assert!(load_profiles(None).is_empty());
    assert_eq!(load_profiles(Some(vec![profile("a")])).len(), 1);
}

#[test]
fn profiles_are_kept_below_the_home_directory() {
    let home = path(&["/", "home", "me"]);
    let file = profiles_path(&Some(home));
    assert_eq!(file, path(&["/", "home", "me", ".hapcli", "profiles.json"]));
    assert_eq!(save_profiles(&file), Ok(path(&["/", "home", "me", ".hapcli"])));
    assert_eq!(save_profiles(&path(&["/"])), Err("无效的配置路径".to_string()));
}
