//! The window for ports that are forwarded, and the worker behind it.

use crate::json::opt_text;
use crate::text::{concat2, concat5, decimal, decimal_text, hex_text, hexadecimal, trim, trimmed};
use vstd::prelude::*;
use vstd::string::*;

verus! {

#[derive(Clone, Copy, Debug, PartialEq, Eq, Structural)]
pub enum ForwardType {
    Local,
    Remote,
    Dynamic,
}

#[derive(Clone, Copy, Debug, PartialEq, Eq, Structural)]
pub enum ForwardStatus {
    Active,
    Starting,
    Stopped,
    Error,
    Suspended,
}

/// A rule by which a port is forwarded.
#[derive(Clone, Debug, PartialEq, Eq)]
pub struct ForwardRule {
    pub id: String,
    pub forward_type: ForwardType,
    pub bind_address: String,
    pub bind_port: u16,
    pub target_host: String,
    pub target_port: u16,
    pub status: ForwardStatus,
    pub description: String,
}

#[verifier::ext_equal]
pub struct RuleView {
    pub id: Seq<char>,
    pub forward_type: ForwardType,
    pub bind_address: Seq<char>,
    pub bind_port: u16,
    pub target_host: Seq<char>,
    pub target_port: u16,
    pub status: ForwardStatus,
    pub description: Seq<char>,
}

impl View for ForwardRule {
    type V = RuleView;

    open spec fn view(&self) -> RuleView {
        RuleView {
            id: self.id@,
            forward_type: self.forward_type,
            bind_address: self.bind_address@,
            bind_port: self.bind_port,
            target_host: self.target_host@,
            target_port: self.target_port,
            status: self.status,
            description: self.description@,
        }
    }
}

pub open spec fn rule_views(rules: Seq<ForwardRule>) -> Seq<RuleView> {
    Seq::new(rules.len(), |i: int| rules[i]@)
}

pub open spec fn type_label(forward_type: ForwardType) -> Seq<char> {
    match forward_type {
        ForwardType::Local => "本地"@,
        ForwardType::Remote => "远程"@,
        ForwardType::Dynamic => "动态"@,
    }
}

pub open spec fn status_label(status: ForwardStatus) -> Seq<char> {
    match status {
        ForwardStatus::Active => "运行中"@,
        ForwardStatus::Starting => "启动中"@,
        ForwardStatus::Stopped => "已停止"@,
        ForwardStatus::Error => "错误"@,
        ForwardStatus::Suspended => "挂起"@,
    }
}

impl ForwardType {
    pub fn label(self) -> (r: &'static str)
        ensures
            r@ == type_label(self),
    {
        match self {
            ForwardType::Local => "本地",
            ForwardType::Remote => "远程",
            ForwardType::Dynamic => "动态",
        }
    }
}

impl ForwardStatus {
    pub fn label(self) -> (r: &'static str)
        ensures
            r@ == status_label(self),
    {
        match self {
            ForwardStatus::Active => "运行中",
            ForwardStatus::Starting => "启动中",
            ForwardStatus::Stopped => "已停止",
            ForwardStatus::Error => "错误",
            ForwardStatus::Suspended => "挂起",
        }
    }
}

/// An address with its port.
pub open spec fn endpoint(host: Seq<char>, port: u16) -> Seq<char> {
    host + ":"@ + decimal(port as nat)
}

fn endpoint_text(host: &str, port: u16) -> (r: String)
    ensures
        r@ == endpoint(host@, port),
{
    crate::text::concat3(host, ":", decimal_text(port as u64).as_str())
}

pub open spec fn rule_label(rule: RuleView) -> Seq<char> {
    "["@ + type_label(rule.forward_type) + "] "@ + endpoint(rule.bind_address, rule.bind_port) + (
    " → "@ + endpoint(rule.target_host, rule.target_port) + " ("@ + status_label(rule.status)
        + ")"@)
}

impl ForwardRule {
    /// How the rule is listed.
    pub fn label(&self) -> (r: String)
        ensures
            r@ == rule_label(self@),
    {
        let tail = concat5(
            " → ",
            endpoint_text(self.target_host.as_str(), self.target_port).as_str(),
            " (",
            self.status.label(),
            ")",
        );
        concat5(
            "[",
            self.forward_type.label(),
            "] ",
            endpoint_text(self.bind_address.as_str(), self.bind_port).as_str(),
            tail.as_str(),
        )
    }
}

/// What the window asks of its worker.
#[derive(Debug)]
pub enum ForwardCommand {
    Create(ForwardRule),
    Stop(String),
    List,
}

pub enum ForwardCommandView {
    Create(RuleView),
    Stop(Seq<char>),
    List,
}

impl View for ForwardCommand {
    type V = ForwardCommandView;

    open spec fn view(&self) -> ForwardCommandView {
        match *self {
            ForwardCommand::Create(rule) => ForwardCommandView::Create(rule@),
            ForwardCommand::Stop(id) => ForwardCommandView::Stop(id@),
            ForwardCommand::List => ForwardCommandView::List,
        }
    }
}

/// What a worker that was just started is asked for: its rules.
pub fn first_ports_command() -> (r: ForwardCommand)
    ensures
        r@ == ForwardCommandView::List,
{
    ForwardCommand::List
}

/// What the worker tells the window.
#[derive(Debug)]
pub enum ForwardEvent {
    Rules(Vec<ForwardRule>),
    Error(String),
}

pub enum ForwardEventView {
    Rules(Seq<RuleView>),
    Error(Seq<char>),
}

impl View for ForwardEvent {
    type V = ForwardEventView;

    open spec fn view(&self) -> ForwardEventView {
        match *self {
            ForwardEvent::Rules(rules) => ForwardEventView::Rules(rule_views(rules@)),
            ForwardEvent::Error(error) => ForwardEventView::Error(error@),
        }
    }
}

/// The window.
#[derive(Debug)]
pub struct ForwardPanel {
    pub show: bool,
    pub rules: Vec<ForwardRule>,
    pub error: Option<String>,
    pub busy: bool,
    pub bind_port: u16,
    pub target_host: String,
    pub target_port: u16,
    pub description: String,
}

#[verifier::ext_equal]
pub struct ForwardView {
    pub show: bool,
    pub rules: Seq<RuleView>,
    pub error: Option<Seq<char>>,
    pub busy: bool,
    pub bind_port: u16,
    pub target_host: Seq<char>,
    pub target_port: u16,
    pub description: Seq<char>,
}

impl View for ForwardPanel {
    type V = ForwardView;

    open spec fn view(&self) -> ForwardView {
        ForwardView {
            show: self.show,
            rules: rule_views(self.rules@),
            error: opt_text(self.error),
            busy: self.busy,
            bind_port: self.bind_port,
            target_host: self.target_host@,
            target_port: self.target_port,
            description: self.description@,
        }
    }
}

pub open spec fn initial_forward() -> ForwardView {
    ForwardView {
        show: false,
        rules: Seq::empty(),
        error: None,
        busy: false,
        bind_port: 8080,
        target_host: "localhost"@,
        target_port: 80,
        description: Seq::empty(),
    }
}

pub open spec fn forward_step(panel: ForwardView, event: ForwardEventView) -> ForwardView {
    match event {
        ForwardEventView::Rules(rules) => ForwardView { rules, busy: false, ..panel },
        ForwardEventView::Error(error) => ForwardView { error: Some(error), busy: false, ..panel },
    }
}

/// What is done in the window; a new rule is told apart by a number.
#[derive(Debug)]
pub enum ForwardWindowEvent {
    Refresh,
    Stop(usize),
    BindPort(u16),
    TargetHost(String),
    TargetPort(u16),
    Description(String),
    Add(u64),
}

/// A port that can be entered.
pub open spec fn entered_port(port: u16) -> u16 {
    if port == 0 {
        1
    } else {
        port
    }
}

pub open spec fn new_rule(panel: ForwardView, number: u64) -> RuleView {
    RuleView {
        id: "fwd-"@ + hexadecimal(number as nat),
        forward_type: ForwardType::Local,
        bind_address: "127.0.0.1"@,
        bind_port: panel.bind_port,
        target_host: trimmed(panel.target_host),
        target_port: panel.target_port,
        status: ForwardStatus::Starting,
        description: trimmed(panel.description),
    }
}

/// The window after something was done in it.
pub open spec fn forward_after(panel: ForwardView, event: ForwardWindowEvent) -> ForwardView {
    match event {
        ForwardWindowEvent::Refresh => panel,
        ForwardWindowEvent::Stop(_) => panel,
        ForwardWindowEvent::BindPort(port) => ForwardView { bind_port: entered_port(port), ..panel },
        ForwardWindowEvent::TargetHost(host) => ForwardView { target_host: host@, ..panel },
        ForwardWindowEvent::TargetPort(port) => ForwardView {
            target_port: entered_port(port),
            ..panel
        },
        ForwardWindowEvent::Description(text) => ForwardView { description: text@, ..panel },
        ForwardWindowEvent::Add(_) => if panel.busy {
            panel
        } else if trimmed(panel.target_host).len() == 0 {
            ForwardView { error: Some("目标主机不能为空"@), ..panel }
        } else {
            ForwardView { busy: true, description: Seq::empty(), ..panel }
        },
    }
}

/// The command that something done in the window sends.
pub open spec fn forward_command(panel: ForwardView, event: ForwardWindowEvent) -> Option<
    ForwardCommandView,
> {
    match event {
        ForwardWindowEvent::Refresh => Some(ForwardCommandView::List),
        ForwardWindowEvent::Stop(at) => if at < panel.rules.len() {
            Some(ForwardCommandView::Stop(panel.rules[at as int].id))
        } else {
            None
        },
        ForwardWindowEvent::Add(number) => if panel.busy || trimmed(panel.target_host).len()
            == 0 {
            None
        } else {
            Some(ForwardCommandView::Create(new_rule(panel, number)))
        },
        _ => None,
    }
}

pub open spec fn opt_command(command: Option<ForwardCommand>) -> Option<ForwardCommandView> {
    match command {
        Some(command) => Some(command@),
        None => None,
    }
}

impl ForwardPanel {
    pub fn new() -> (r: ForwardPanel)
        ensures
            r@ == initial_forward(),
    {
        let r = ForwardPanel {
            show: false,
            rules: Vec::new(),
            error: None,
            busy: false,
            bind_port: 8080,
            target_host: "localhost".to_string(),
            target_port: 80,
            description: String::new(),
        };
        assert(r@.rules =~= Seq::<RuleView>::empty());
        r
    }

    pub fn apply_event(&mut self, event: ForwardEvent)
        ensures
            final(self)@ == forward_step(old(self)@, event@),
    {
        match event {
            ForwardEvent::Rules(rules) => {
                self.rules = rules;
                self.busy = false;
            },
            ForwardEvent::Error(error) => {
                self.error = Some(error);
                self.busy = false;
            },
        }
    }

    /// How many rules there are.
    pub fn count_text(&self) -> (r: String)
        ensures
            r@ == decimal(self@.rules.len()) + " 条规则"@,
    {
        concat2(decimal_text(self.rules.len() as u64).as_str(), " 条规则")
    }
}

fn port_entered(port: u16) -> (r: u16)
    ensures
        r == entered_port(port),
{
    if port == 0 {
        1
    } else {
        port
    }
}

/// Does what was asked for in the window; gives the command for the worker.
pub fn forward_window_ui(panel: &mut ForwardPanel, event: ForwardWindowEvent) -> (r: Option<
    ForwardCommand,
>)
    ensures
        final(panel)@ == forward_after(old(panel)@, event),
        opt_command(r) == forward_command(old(panel)@, event),
{
    match event {
        ForwardWindowEvent::Refresh => Some(ForwardCommand::List),
        ForwardWindowEvent::Stop(at) => {
            if at < panel.rules.len() {
                Some(ForwardCommand::Stop(panel.rules[at].id.clone()))
            } else {
                None
            }
        },
        ForwardWindowEvent::BindPort(port) => {
            panel.bind_port = port_entered(port);
            None
        },
        ForwardWindowEvent::TargetHost(host) => {
            panel.target_host = host;
            None
        },
        ForwardWindowEvent::TargetPort(port) => {
            panel.target_port = port_entered(port);
            None
        },
        ForwardWindowEvent::Description(text) => {
            panel.description = text;
            None
        },
        ForwardWindowEvent::Add(number) => {
            if panel.busy {
                return None;
            }
            let target_host = trim(panel.target_host.as_str()).to_string();
            if target_host.as_str().unicode_len() == 0 {
                panel.error = Some("目标主机不能为空".to_string());
                return None;
            }
            let rule = ForwardRule {
                id: concat2("fwd-", hex_text(number).as_str()),
                forward_type: ForwardType::Local,
                bind_address: "127.0.0.1".to_string(),
                bind_port: panel.bind_port,
                target_host,
                target_port: panel.target_port,
                status: ForwardStatus::Starting,
                description: trim(panel.description.as_str()).to_string(),
            };
            panel.busy = true;
            panel.description = String::new();
            Some(ForwardCommand::Create(rule))
        },
    }
}

/// What the worker tells once a command was carried out: an error where there was one, then the
/// rules as they are.
pub open spec fn worker_events(failure: Option<Seq<char>>, rules: Seq<RuleView>) -> Seq<
    ForwardEventView,
> {
    match failure {
        Some(error) => seq![ForwardEventView::Error(error), ForwardEventView::Rules(rules)],
        None => seq![ForwardEventView::Rules(rules)],
    }
}

pub fn after_command(failure: Option<String>, rules: Vec<ForwardRule>) -> (r: Vec<ForwardEvent>)
    ensures
        Seq::new(r@.len(), |i: int| r@[i]@) == worker_events(
            opt_text(failure),
            rule_views(rules@),
        ),
{
    let mut r: Vec<ForwardEvent> = Vec::new();
    if let Some(error) = failure {
        r.push(ForwardEvent::Error(error));
    }
    r.push(ForwardEvent::Rules(rules));
    assert(Seq::new(r@.len(), |i: int| r@[i]@) =~= worker_events(
        opt_text(failure),
        rule_views(rules@),
    ));
    r
}

/// What is told when the worker cannot start.
pub fn runtime_failure(error: &str) -> (r: ForwardEvent)
    ensures
        r@ == ForwardEventView::Error("转发运行时创建失败: "@ + error@),
{
    ForwardEvent::Error(concat2("转发运行时创建失败: ", error))
}

/// While a rule is being made no other is; the answer of the worker ends that, and leaves the
/// rules as the worker has them.
pub proof fn law_adding_waits_for_the_answer(
    panel: ForwardView,
    number: u64,
    failure: Option<Seq<char>>,
    rules: Seq<RuleView>,
)
    requires
        !panel.busy,
        trimmed(panel.target_host).len() > 0,
    ensures
        ({
            let begun = forward_after(panel, ForwardWindowEvent::Add(number));
            let told = worker_events(failure, rules);
            let answered = forward_step(
                if told.len() == 2 {
                    forward_step(begun, told[0])
                } else {
                    begun
                },
                told.last(),
            );
            &&& forward_command(begun, ForwardWindowEvent::Add(number)) is None
            &&& !answered.busy
            &&& answered.rules == rules
            &&& answered.error == match failure {
                Some(error) => Some(error),
                None => panel.error,
            }
        }),
{
}

/// A rule that is made says what was entered: it listens on this machine at the entered port and
/// leads to the entered host and port, cut of white space at both ends.
pub proof fn law_new_rules_are_as_entered(panel: ForwardView, number: u64)
    requires
        !panel.busy,
        trimmed(panel.target_host).len() > 0,
    ensures
        ({
            let command = forward_command(panel, ForwardWindowEvent::Add(number));
            &&& command matches Some(ForwardCommandView::Create(rule))
            &&& rule.bind_port == panel.bind_port
            &&& rule.target_port == panel.target_port
            &&& rule.target_host == trimmed(panel.target_host)
            &&& rule.description == trimmed(panel.description)
            &&& rule.forward_type == ForwardType::Local
            &&& rule.status == ForwardStatus::Starting
            &&& rule.bind_address == seq!['1', '2', '7', '.', '0', '.', '0', '.', '1']
            &&& rule.id == seq!['f', 'w', 'd', '-'] + hexadecimal(number as nat)
        }),
        forward_after(panel, ForwardWindowEvent::Add(number)).busy,
        forward_after(panel, ForwardWindowEvent::Add(number)).description.len() == 0,
        forward_after(panel, ForwardWindowEvent::Add(number)).bind_port == panel.bind_port,
        forward_after(panel, ForwardWindowEvent::Add(number)).target_host == panel.target_host,
        forward_after(panel, ForwardWindowEvent::Add(number)).target_port == panel.target_port,
        forward_after(panel, ForwardWindowEvent::Add(number)).rules == panel.rules,
        forward_after(panel, ForwardWindowEvent::Add(number)).error == panel.error,
{
    reveal_strlit("127.0.0.1");
    reveal_strlit("fwd-");
    assert("127.0.0.1"@ =~= seq!['1', '2', '7', '.', '0', '.', '0', '.', '1']);
    assert("fwd-"@ =~= seq!['f', 'w', 'd', '-']);
}

/// Without a host no rule is made, and the window says so; while one is being made nothing
/// happens.
pub proof fn law_rules_need_a_host(panel: ForwardView, number: u64)
    requires
        panel.busy || trimmed(panel.target_host).len() == 0,
    ensures
        forward_command(panel, ForwardWindowEvent::Add(number)) is None,
        panel.busy ==> forward_after(panel, ForwardWindowEvent::Add(number)) == panel,
        !panel.busy ==> ({
            let after = forward_after(panel, ForwardWindowEvent::Add(number));
            &&& after.error == Some("目标主机不能为空"@)
            &&& after == (ForwardView { error: after.error, ..panel })
        }),
{
}

/// The rule of the row that was clicked is stopped, and no other; a row that is not there stops
/// nothing.
pub proof fn law_the_clicked_rule_is_stopped(panel: ForwardView, at: usize)
    ensures
        forward_after(panel, ForwardWindowEvent::Stop(at)) == panel,
        at < panel.rules.len() ==> forward_command(panel, ForwardWindowEvent::Stop(at)) == Some(
            ForwardCommandView::Stop(panel.rules[at as int].id),
        ),
        at >= panel.rules.len() ==> forward_command(panel, ForwardWindowEvent::Stop(at)) is None,
        forward_command(panel, ForwardWindowEvent::Refresh) == Some(ForwardCommandView::List),
        forward_after(panel, ForwardWindowEvent::Refresh) == panel,
{
}

/// Typing into a field changes that field and sends nothing; a port is at least one.
pub proof fn law_fields_are_edited_one_by_one(panel: ForwardView, port: u16, text: String)
    ensures
        ({
            let after = forward_after(panel, ForwardWindowEvent::BindPort(port));
            &&& after == (ForwardView { bind_port: after.bind_port, ..panel })
            &&& after.bind_port >= 1
            &&& port >= 1 ==> after.bind_port == port
            &&& port == 0 ==> after.bind_port == 1
            &&& forward_command(panel, ForwardWindowEvent::BindPort(port)) is None
        }),
        ({
            let after = forward_after(panel, ForwardWindowEvent::TargetPort(port));
            &&& after == (ForwardView { target_port: after.target_port, ..panel })
            &&& port >= 1 ==> after.target_port == port
            &&& port == 0 ==> after.target_port == 1
            &&& forward_command(panel, ForwardWindowEvent::TargetPort(port)) is None
        }),
        ({
            let after = forward_after(panel, ForwardWindowEvent::TargetHost(text));
            &&& after == (ForwardView { target_host: text@, ..panel })
            &&& forward_command(panel, ForwardWindowEvent::TargetHost(text)) is None
        }),
        ({
            let after = forward_after(panel, ForwardWindowEvent::Description(text));
            &&& after == (ForwardView { description: text@, ..panel })
            &&& forward_command(panel, ForwardWindowEvent::Description(text)) is None
        }),
{
}

/// What the worker tells is shown: rules in place of those before, an error beside them; either
/// way the window can be used again and what was typed stays.
pub proof fn law_what_the_worker_tells_is_shown(
    panel: ForwardView,
    rules: Seq<RuleView>,
    error: Seq<char>,
)
    ensures
        ({
            let after = forward_step(panel, ForwardEventView::Rules(rules));
            &&& after.rules == rules
            &&& !after.busy
            &&& after.error == panel.error
            &&& after == (ForwardView { rules: after.rules, busy: after.busy, ..panel })
        }),
        ({
            let after = forward_step(panel, ForwardEventView::Error(error));
            &&& after.error == Some(error)
            &&& !after.busy
            &&& after.rules == panel.rules
            &&& after == (ForwardView { error: after.error, busy: after.busy, ..panel })
        }),
        worker_events(Some(error), rules).len() == 2,
        worker_events(Some(error), rules)[0] == ForwardEventView::Error(error),
        worker_events(Some(error), rules)[1] == ForwardEventView::Rules(rules),
        worker_events(None, rules) == seq![ForwardEventView::Rules(rules)],
{
}

/// A new window is hidden and empty, and offers a port of its own and one of a web server.
pub proof fn law_the_window_starts_empty()
    ensures
        !initial_forward().show,
        !initial_forward().busy,
        initial_forward().rules.len() == 0,
        initial_forward().error is None,
        initial_forward().bind_port == 8080,
        initial_forward().target_port == 80,
        initial_forward().target_host == seq!['l', 'o', 'c', 'a', 'l', 'h', 'o', 's', 't'],
        initial_forward().description.len() == 0,
{
    reveal_strlit("localhost");
    assert("localhost"@ =~= seq!['l', 'o', 'c', 'a', 'l', 'h', 'o', 's', 't']);
}

/// A listed rule reads from where it listens to where it leads, between its kind and its state.
pub proof fn law_listed_rules_read_from_left_to_right(rule: RuleView)
    ensures
        rule_label(rule) == seq!['['] + type_label(rule.forward_type) + seq![']', ' ']
            + rule.bind_address + seq![':'] + decimal(rule.bind_port as nat) + seq![' ', '→', ' ']
            + rule.target_host + seq![':'] + decimal(rule.target_port as nat) + seq![' ', '(']
            + status_label(rule.status) + seq![')'],
{
    reveal_strlit("[");
    reveal_strlit("] ");
    reveal_strlit(":");
    reveal_strlit(" → ");
    reveal_strlit(" (");
    reveal_strlit(")");
    assert("["@ =~= seq!['[']);
    assert("] "@ =~= seq![']', ' ']);
    assert(":"@ =~= seq![':']);
    assert(" → "@ =~= seq![' ', '→', ' ']);
    assert(" ("@ =~= seq![' ', '(']);
    assert(")"@ =~= seq![')']);
    assert(rule_label(rule) =~= seq!['['] + type_label(rule.forward_type) + seq![']', ' ']
        + rule.bind_address + seq![':'] + decimal(rule.bind_port as nat) + seq![' ', '→', ' ']
        + rule.target_host + seq![':'] + decimal(rule.target_port as nat) + seq![' ', '(']
        + status_label(rule.status) + seq![')']);
}

/// No two kinds and no two states are named alike.
pub proof fn law_labels_of_rules_differ(
    a: ForwardType,
    b: ForwardType,
    c: ForwardStatus,
    d: ForwardStatus,
)
    ensures
        type_label(a) == type_label(b) ==> a == b,
        status_label(c) == status_label(d) ==> c == d,
        type_label(ForwardType::Local) == seq!['本', '地'],
        type_label(ForwardType::Remote) == seq!['远', '程'],
        type_label(ForwardType::Dynamic) == seq!['动', '态'],
        status_label(ForwardStatus::Active) == seq!['运', '行', '中'],
        status_label(ForwardStatus::Starting) == seq!['启', '动', '中'],
        status_label(ForwardStatus::Stopped) == seq!['已', '停', '止'],
        status_label(ForwardStatus::Error) == seq!['错', '误'],
        status_label(ForwardStatus::Suspended) == seq!['挂', '起'],
{
    reveal_strlit("本地");
    reveal_strlit("远程");
    reveal_strlit("动态");
    reveal_strlit("运行中");
    reveal_strlit("启动中");
    reveal_strlit("已停止");
    reveal_strlit("错误");
    reveal_strlit("挂起");
    assert(type_label(a)[0] == type_label(b)[0] ==> a == b);
    assert(status_label(c)[0] == status_label(d)[0] ==> c == d);
}

} // verus!
