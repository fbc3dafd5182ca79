//! The application-wide HTTP proxy: where its policy comes from and how it shapes a client.

use crate::text::{
    concat2, concat3, concat5, decimal, decimal_text, quote, quoted, trim, trimmed,
};
use crate::wiped::WipedText;
use vstd::prelude::*;
use vstd::string::*;

verus! {

#[verifier::external_type_specification]
#[verifier::external_body]
pub struct ExReqwestError(reqwest::Error);

#[verifier::external_type_specification]
#[verifier::external_body]
pub struct ExProxy(reqwest::Proxy);

#[verifier::external_type_specification]
#[verifier::external_body]
pub struct ExClient(reqwest::Client);

#[verifier::external_type_specification]
#[verifier::external_body]
pub struct ExClientBuilder(reqwest::ClientBuilder);

/// What a proxy of a client was made with.
pub ghost struct ProxyView {
    pub url: Seq<char>,
    pub exempt: Option<Seq<char>>,
    pub login: Option<(Seq<char>, Seq<char>)>,
}

/// What a client builder does about proxies: those it was given, and whether it also looks at the
/// ones of the system.
pub ghost struct ClientProxies {
    pub listed: Seq<ProxyView>,
    pub from_system: bool,
}

/// What a proxy holds.
pub uninterp spec fn proxy_view(proxy: reqwest::Proxy) -> ProxyView;

/// The proxies that a client builder holds.
pub uninterp spec fn client_proxies(builder: reqwest::ClientBuilder) -> ClientProxies;

/// The proxies that the requests of a client go through.
pub uninterp spec fn client_uses(client: reqwest::Client) -> ClientProxies;

/// Whether a text is the address of a proxy.
pub uninterp spec fn proxy_url_accepted(url: Seq<char>) -> bool;

/// How an error of the client reads.
pub uninterp spec fn client_error_text(error: reqwest::Error) -> Seq<char>;

/// `Proxy::all` parses the address; whether that works depends on the address alone. The proxy has
/// no exempt hosts and no login yet.
#[verifier::external_body]
fn proxy_for_all(url: &str) -> (r: Result<reqwest::Proxy, reqwest::Error>)
    ensures
        r is Ok == proxy_url_accepted(url@),
        r matches Ok(proxy) ==> proxy_view(proxy) == (ProxyView {
            url: url@,
            exempt: None,
            login: None,
        }),
{
    reqwest::Proxy::all(url)
}

/// `Proxy::no_proxy`, with the list as `NoProxy::from_string` takes it: the list replaces the one
/// before it.
#[verifier::external_body]
fn proxy_exempting(proxy: reqwest::Proxy, hosts: &str) -> (r: reqwest::Proxy)
    ensures
        proxy_view(r) == (ProxyView { exempt: Some(hosts@), ..proxy_view(proxy) }),
{
    proxy.no_proxy(reqwest::NoProxy::from_string(hosts))
}

/// `Proxy::basic_auth` sets the login. It panics on a proxy whose address can hold none, which the
/// addresses of the schemes here can.
#[verifier::external_body]
fn proxy_with_login(proxy: reqwest::Proxy, username: &str, password: &str) -> (r: reqwest::Proxy)
    requires
        "http"@.is_prefix_of(proxy_view(proxy).url) || "socks5"@.is_prefix_of(proxy_view(proxy).url),
    ensures
        proxy_view(r) == (ProxyView { login: Some((username@, password@)), ..proxy_view(proxy) }),
{
    proxy.basic_auth(username, password)
}

/// `ClientBuilder::no_proxy` forgets the proxies given before and those of the system.
#[verifier::external_body]
fn builder_without_proxy(builder: reqwest::ClientBuilder) -> (r: reqwest::ClientBuilder)
    ensures
        client_proxies(r) == (ClientProxies { listed: Seq::empty(), from_system: false }),
{
    builder.no_proxy()
}

/// `ClientBuilder::proxy` adds a proxy and turns those of the system off.
#[verifier::external_body]
fn builder_with_proxy(builder: reqwest::ClientBuilder, proxy: reqwest::Proxy) -> (r:
    reqwest::ClientBuilder)
    ensures
        client_proxies(r) == (ClientProxies {
            listed: client_proxies(builder).listed.push(proxy_view(proxy)),
            from_system: false,
        }),
{
    builder.proxy(proxy)
}

/// The proxies of a client that was told nothing about them: those of the system.
pub open spec fn fresh_proxies() -> ClientProxies {
    ClientProxies { listed: Seq::empty(), from_system: true }
}

/// `Client::builder` starts with no proxy of its own and with those of the system.
#[verifier::external_body]
fn fresh_builder() -> (r: reqwest::ClientBuilder)
    ensures
        client_proxies(r) == fresh_proxies(),
{
    reqwest::Client::builder()
}

/// `ClientBuilder::build` makes a client that goes through the proxies of the builder. Whether it
/// can make one depends on the machine, so that is left open.
#[verifier::external_body]
fn build_client(builder: reqwest::ClientBuilder) -> (r: Result<reqwest::Client, reqwest::Error>)
    ensures
        r matches Ok(client) ==> client_uses(client) == client_proxies(builder),
{
    builder.build()
}

/// `reqwest::Client::clone` hands out another handle on the same connection pool, which goes
/// through the same proxies.
#[verifier::external_body]
fn share_client(client: &reqwest::Client) -> (r: reqwest::Client)
    ensures
        client_uses(r) == client_uses(*client),
{
    client.clone()
}

/// The `Display` text of an error of the client.
#[verifier::external_body]
fn show_client_error(error: &reqwest::Error) -> (r: String)
    ensures
        r@ == client_error_text(*error),
{
    error.to_string()
}

pub enum ApplicationProxyError {
    Unavailable(String),
    InvalidConfiguration(String),
    Client(reqwest::Error),
}

impl ApplicationProxyError {
    pub open spec fn text(self) -> Seq<char> {
        match self {
            ApplicationProxyError::Unavailable(reason) => "application proxy is unavailable: "@
                + reason@,
            ApplicationProxyError::InvalidConfiguration(reason) =>
                "invalid application proxy configuration: "@ + reason@,
            ApplicationProxyError::Client(error) => "failed to configure application proxy: "@
                + client_error_text(error),
        }
    }

    /// How the error reads.
    pub fn message(&self) -> (r: String)
        ensures
            r@ == self.text(),
    {
        match self {
            ApplicationProxyError::Unavailable(reason) => concat2(
                "application proxy is unavailable: ",
                reason.as_str(),
            ),
            ApplicationProxyError::InvalidConfiguration(reason) => concat2(
                "invalid application proxy configuration: ",
                reason.as_str(),
            ),
            ApplicationProxyError::Client(error) => concat2(
                "failed to configure application proxy: ",
                show_client_error(error).as_str(),
            ),
        }
    }
}

#[derive(Clone, Copy, Debug, PartialEq, Eq, Structural)]
pub enum ApplicationProxyProtocol {
    HttpConnect,
    HttpsConnect,
    Socks5,
}

pub enum ApplicationProxyAuth {
    Anonymous,
    Password { username: String, password: WipedText },
}

impl ApplicationProxyAuth {
    pub open spec fn login(self) -> Option<(Seq<char>, Seq<char>)> {
        match self {
            ApplicationProxyAuth::Anonymous => None,
            ApplicationProxyAuth::Password { username, password } => Some((username@, password@)),
        }
    }

    /// What is shown of a login: never the password.
    pub open spec fn shown(self) -> Seq<char> {
        match self {
            ApplicationProxyAuth::Anonymous => "None"@,
            ApplicationProxyAuth::Password { username, .. } => "Password { username: "@ + quoted(
                username@,
            ) + ", password: \"[redacted secret]\" }"@,
        }
    }

    pub fn debug_text(&self) -> (r: String)
        ensures
            r@ == self.shown(),
    {
        match self {
            ApplicationProxyAuth::Anonymous => "None".to_owned(),
            ApplicationProxyAuth::Password { username, .. } => concat3(
                "Password { username: ",
                quote(username.as_str()).as_str(),
                ", password: \"[redacted secret]\" }",
            ),
        }
    }
}

pub struct CustomApplicationProxy {
    pub protocol: ApplicationProxyProtocol,
    pub host: String,
    pub port: u16,
    pub auth: ApplicationProxyAuth,
    pub remote_dns: bool,
    pub no_proxy: String,
}

/// The name of a protocol.
pub open spec fn protocol_name(protocol: ApplicationProxyProtocol) -> Seq<char> {
    match protocol {
        ApplicationProxyProtocol::HttpConnect => "HttpConnect"@,
        ApplicationProxyProtocol::HttpsConnect => "HttpsConnect"@,
        ApplicationProxyProtocol::Socks5 => "Socks5"@,
    }
}

fn protocol_text(protocol: ApplicationProxyProtocol) -> (r: &'static str)
    ensures
        r@ == protocol_name(protocol),
{
    match protocol {
        ApplicationProxyProtocol::HttpConnect => "HttpConnect",
        ApplicationProxyProtocol::HttpsConnect => "HttpsConnect",
        ApplicationProxyProtocol::Socks5 => "Socks5",
    }
}

fn flag_text(flag: bool) -> (r: &'static str)
    ensures
        r@ == (if flag {
            "true"@
        } else {
            "false"@
        }),
{
    if flag {
        "true"
    } else {
        "false"
    }
}

impl CustomApplicationProxy {
    pub open spec fn shown(self) -> Seq<char> {
        "CustomApplicationProxy { protocol: "@ + protocol_name(self.protocol) + ", host: "@
            + quoted(self.host@) + ", port: "@ + (decimal(self.port as nat) + ", auth: "@
            + self.auth.shown() + ", remote_dns: "@ + (if self.remote_dns {
            "true"@
        } else {
            "false"@
        })) + (", no_proxy: "@ + quoted(self.no_proxy@) + " }"@)
    }

    pub fn debug_text(&self) -> (r: String)
        ensures
            r@ == self.shown(),
    {
        let head = concat5(
            "CustomApplicationProxy { protocol: ",
            protocol_text(self.protocol),
            ", host: ",
            quote(self.host.as_str()).as_str(),
            ", port: ",
        );
        let middle = concat5(
            decimal_text(self.port as u64).as_str(),
            ", auth: ",
            self.auth.debug_text().as_str(),
            ", remote_dns: ",
            flag_text(self.remote_dns),
        );
        let tail = concat3(", no_proxy: ", quote(self.no_proxy.as_str()).as_str(), " }");
        concat3(head.as_str(), middle.as_str(), tail.as_str())
    }
}

/// Two proxies that differ in their password alone are shown alike.
pub proof fn law_password_is_never_shown(a: CustomApplicationProxy, b: CustomApplicationProxy)
    requires
        a.protocol == b.protocol,
        a.host@ == b.host@,
        a.port == b.port,
        a.remote_dns == b.remote_dns,
        a.no_proxy@ == b.no_proxy@,
        match (a.auth.login(), b.auth.login()) {
            (None, None) => true,
            (Some(first), Some(second)) => first.0 == second.0,
            _ => false,
        },
    ensures
        a.shown() == b.shown(),
{
}

pub enum ApplicationProxyPolicy {
    Direct,
    System,
    Custom(CustomApplicationProxy),
    Unavailable { reason: String },
}

impl Default for ApplicationProxyPolicy {
    fn default() -> (r: Self)
        ensures
            r is System,
    {
        ApplicationProxyPolicy::System
    }
}

/// A text without the brackets at its ends.
pub open spec fn unbracketed(s: Seq<char>) -> Seq<char>
    decreases s.len(),
{
    if s.len() == 0 {
        s
    } else if s[0] == '[' || s[0] == ']' {
        unbracketed(s.drop_first())
    } else if s.last() == '[' || s.last() == ']' {
        unbracketed(s.drop_last())
    } else {
        s
    }
}

/// The host of a proxy without white space and brackets around it.
pub fn proxy_host(host: &str) -> (r: String)
    ensures
        r@ == unbracketed(trimmed(host@)),
{
    let text = trim(host);
    let mut start: usize = 0;
    let mut end: usize = text.unicode_len();
    assert(text@.subrange(0, end as int) =~= text@);
    while start < end && (text.get_char(start) == '[' || text.get_char(start)
        == ']')
        invariant
            start <= end == text@.len(),
            unbracketed(text@.subrange(start as int, end as int)) == unbracketed(text@),
        decreases end - start,
    {
        assert(text@.subrange(start as int, end as int).drop_first() =~= text@.subrange(
            start + 1,
            end as int,
        ));
        start = start + 1;
    }
    while start < end && (text.get_char(end - 1) == '[' || text.get_char(end - 1)
        == ']')
        invariant
            start <= end <= text@.len(),
            start < end ==> text@[start as int] != '[' && text@[start as int] != ']',
            unbracketed(text@.subrange(start as int, end as int)) == unbracketed(text@),
        decreases end - start,
    {
        assert(text@.subrange(start as int, end as int).drop_last() =~= text@.subrange(
            start as int,
            end - 1,
        ));
        end = end - 1;
    }
    text.substring_char(start, end).to_owned()
}

/// The host as it stands in an address: a version 6 address is bracketed.
pub open spec fn url_host(host: Seq<char>, ipv6: bool) -> Seq<char> {
    if ipv6 {
        "["@ + unbracketed(trimmed(host)) + "]"@
    } else {
        unbracketed(trimmed(host))
    }
}

/// The host of an address; `ipv6` says whether `proxy_host` of it is a version 6 address.
fn proxy_url_host(host: &str, ipv6: bool) -> (r: String)
    ensures
        r@ == url_host(host@, ipv6),
{
    let text = proxy_host(host);
    if ipv6 {
        concat3("[", text.as_str(), "]")
    } else {
        text
    }
}

/// The scheme of the address of a proxy.
pub open spec fn url_scheme(protocol: ApplicationProxyProtocol, remote_dns: bool) -> Seq<char> {
    match protocol {
        ApplicationProxyProtocol::HttpConnect => "http"@,
        ApplicationProxyProtocol::HttpsConnect => "https"@,
        ApplicationProxyProtocol::Socks5 => if remote_dns {
            "socks5h"@
        } else {
            "socks5"@
        },
    }
}

/// The address of a proxy.
pub open spec fn proxy_address(config: CustomApplicationProxy, ipv6: bool) -> Seq<char> {
    url_scheme(config.protocol, config.remote_dns) + "://"@ + url_host(config.host@, ipv6) + ":"@
        + decimal(config.port as nat)
}

/// Whether a proxy lacks its host or its port.
pub open spec fn proxy_incomplete(config: CustomApplicationProxy) -> bool {
    trimmed(config.host@).len() == 0 || config.port == 0
}

/// The address of a proxy, where it has a host and a port and is one.
pub fn proxy_url(config: &CustomApplicationProxy, ipv6: bool) -> (r: Result<
    String,
    ApplicationProxyError,
>)
    ensures
        match r {
            Ok(url) => !proxy_incomplete(*config) && url@ == proxy_address(*config, ipv6)
                && proxy_url_accepted(url@),
            Err(ApplicationProxyError::InvalidConfiguration(reason)) => proxy_incomplete(*config)
                && reason@ == "proxy host and port are required"@,
            Err(ApplicationProxyError::Client(_)) => !proxy_incomplete(*config)
                && !proxy_url_accepted(proxy_address(*config, ipv6)),
            Err(ApplicationProxyError::Unavailable(_)) => false,
        },
{
    if trim(config.host.as_str()).is_empty() || config.port == 0 {
        return Err(
            ApplicationProxyError::InvalidConfiguration(
                "proxy host and port are required".to_owned(),
            ),
        );
    }
    let scheme = match config.protocol {
        ApplicationProxyProtocol::HttpConnect => "http",
        ApplicationProxyProtocol::HttpsConnect => "https",
        ApplicationProxyProtocol::Socks5 => if config.remote_dns {
            "socks5h"
        } else {
            "socks5"
        },
    };
    let host = proxy_url_host(config.host.as_str(), ipv6);
    let url = concat5(
        scheme,
        "://",
        host.as_str(),
        ":",
        decimal_text(config.port as u64).as_str(),
    );
    match proxy_for_all(url.as_str()) {
        Ok(_) => Ok(url),
        Err(error) => Err(ApplicationProxyError::Client(error)),
    }
}

/// What a client does about proxies under a policy that holds.
pub open spec fn policy_proxies(
    policy: ApplicationProxyPolicy,
    ipv6: bool,
    before: ClientProxies,
) -> ClientProxies {
    match policy {
        ApplicationProxyPolicy::Direct => ClientProxies { listed: Seq::empty(), from_system: false },
        ApplicationProxyPolicy::Custom(config) => ClientProxies {
            listed: seq![
                ProxyView {
                    url: proxy_address(config, ipv6),
                    exempt: if trimmed(config.no_proxy@).len() == 0 {
                        None
                    } else {
                        Some(config.no_proxy@)
                    },
                    login: config.auth.login(),
                },
            ],
            from_system: false,
        },
        _ => before,
    }
}

/// Whether a client can be made under a policy.
pub open spec fn policy_holds(policy: ApplicationProxyPolicy, ipv6: bool) -> bool {
    match policy {
        ApplicationProxyPolicy::Direct | ApplicationProxyPolicy::System => true,
        ApplicationProxyPolicy::Custom(config) => !proxy_incomplete(config) && proxy_url_accepted(
            proxy_address(config, ipv6),
        ),
        ApplicationProxyPolicy::Unavailable { .. } => false,
    }
}

/// Why none can be made: `None` for an error of the client itself.
pub open spec fn policy_complaint(policy: ApplicationProxyPolicy) -> Option<Seq<char>> {
    match policy {
        ApplicationProxyPolicy::Unavailable { reason } => Some(reason@),
        ApplicationProxyPolicy::Custom(config) => if proxy_incomplete(config) {
            Some("proxy host and port are required"@)
        } else {
            None
        },
        _ => None,
    }
}

/// Whether an error is the one that a policy leads to.
pub open spec fn is_policy_error(error: ApplicationProxyError, policy: ApplicationProxyPolicy) -> bool {
    match error {
        ApplicationProxyError::Unavailable(reason) => policy is Unavailable && policy_complaint(
            policy,
        ) == Some(reason@),
        ApplicationProxyError::InvalidConfiguration(reason) => policy is Custom && policy_complaint(
            policy,
        ) == Some(reason@),
        ApplicationProxyError::Client(_) => policy is Custom && policy_complaint(policy) is None,
    }
}

/// Whether applying a policy to a client builder came out as it should.
pub open spec fn is_configured(
    r: Result<reqwest::ClientBuilder, ApplicationProxyError>,
    policy: ApplicationProxyPolicy,
    ipv6: bool,
    builder: reqwest::ClientBuilder,
) -> bool {
    match r {
        Ok(configured) => policy_holds(policy, ipv6) && client_proxies(configured)
            == policy_proxies(policy, ipv6, client_proxies(builder)),
        Err(error) => !policy_holds(policy, ipv6) && is_policy_error(error, policy),
    }
}

/// Applies a policy to a client builder. `ipv6` says whether the host of a custom proxy is a
/// version 6 address.
pub fn configure_http_client_builder(
    builder: reqwest::ClientBuilder,
    policy: &ApplicationProxyPolicy,
    ipv6: bool,
) -> (r: Result<reqwest::ClientBuilder, ApplicationProxyError>)
    ensures
        is_configured(r, *policy, ipv6, builder),
{
    match policy {
        ApplicationProxyPolicy::Direct => Ok(builder_without_proxy(builder)),
        ApplicationProxyPolicy::System => Ok(builder),
        ApplicationProxyPolicy::Custom(config) => {
            let url = match proxy_url(config, ipv6) {
                Ok(url) => url,
                Err(error) => return Err(error),
            };
            let mut proxy = match proxy_for_all(url.as_str()) {
                Ok(proxy) => proxy,
                Err(error) => return Err(ApplicationProxyError::Client(error)),
            };
            if !trim(config.no_proxy.as_str()).is_empty() {
                proxy = proxy_exempting(proxy, config.no_proxy.as_str());
            }
            match &config.auth {
                ApplicationProxyAuth::Anonymous => {},
                ApplicationProxyAuth::Password { username, password } => {
                    proof {
                        lemma_scheme_prefix(*config, ipv6);
                    }
                    proxy = proxy_with_login(proxy, username.as_str(), password.expose());
                },
            }
            let direct = builder_without_proxy(builder);
            let configured = builder_with_proxy(direct, proxy);
            assert(client_proxies(configured).listed =~= policy_proxies(
                *policy,
                ipv6,
                client_proxies(builder),
            ).listed);
            Ok(configured)
        },
        ApplicationProxyPolicy::Unavailable { reason } => Err(
            ApplicationProxyError::Unavailable(reason.clone()),
        ),
    }
}

proof fn lemma_scheme_prefix(config: CustomApplicationProxy, ipv6: bool)
    ensures
        "http"@.is_prefix_of(proxy_address(config, ipv6)) || "socks5"@.is_prefix_of(
            proxy_address(config, ipv6),
        ),
{
    reveal_strlit("http");
    reveal_strlit("https");
    reveal_strlit("socks5");
    reveal_strlit("socks5h");
    let url = proxy_address(config, ipv6);
    let scheme = url_scheme(config.protocol, config.remote_dns);
    assert(forall|i: int| 0 <= i < scheme.len() ==> #[trigger] url[i] == scheme[i]);
    if config.protocol == ApplicationProxyProtocol::Socks5 {
        assert(url.subrange(0, 6) =~= "socks5"@);
    } else {
        assert(url.subrange(0, 4) =~= "http"@);
    }
}

/// The policy of the application with the client that was made under it.
pub struct ApplicationProxyRuntime {
    pub policy: ApplicationProxyPolicy,
    pub default_client: Option<reqwest::Client>,
    pub client_error: Option<String>,
}

impl ApplicationProxyRuntime {
    /// A runtime has a client or says why it has none.
    pub open spec fn well_formed(self) -> bool {
        self.default_client is Some <==> self.client_error is None
    }

    /// Makes the client of a policy. Where the policy holds, it can still fail for reasons of the
    /// machine; the runtime then says what the error of the client says.
    pub fn new(policy: ApplicationProxyPolicy, ipv6: bool) -> (r: Self)
        ensures
            r.well_formed(),
            r.policy == policy,
            r.default_client matches Some(client) ==> policy_holds(policy, ipv6) && client_uses(client)
                == policy_proxies(policy, ipv6, fresh_proxies()),
            policy is Unavailable ==> (r.client_error matches Some(text) && text@
                == "application proxy is unavailable: "@ + policy_complaint(policy)->Some_0),
            policy is Custom && policy_complaint(policy) is Some ==> (r.client_error matches Some(
                text,
            ) && text@ == "invalid application proxy configuration: "@ + policy_complaint(
                policy,
            )->Some_0),
            policy_complaint(policy) is None && r.default_client is None ==> exists|
                error: reqwest::Error,
            |
                (r.client_error matches Some(text) && text@
                    == "failed to configure application proxy: "@ + #[trigger] client_error_text(
                    error,
                )),
    {
        let result = match configure_http_client_builder(fresh_builder(), &policy, ipv6) {
            Ok(builder) => match build_client(builder) {
                Ok(client) => Ok(client),
                Err(error) => Err(ApplicationProxyError::Client(error)),
            },
            Err(error) => Err(error),
        };
        match result {
            Ok(client) => ApplicationProxyRuntime {
                policy,
                default_client: Some(client),
                client_error: None,
            },
            Err(error) => {
                let text = error.message();
                ApplicationProxyRuntime { policy, default_client: None, client_error: Some(text) }
            },
        }
    }

    /// The client, or why there is none.
    pub fn client(&self) -> (r: Result<reqwest::Client, ApplicationProxyError>)
        requires
            self.well_formed(),
        ensures
            match r {
                Ok(client) => self.default_client matches Some(own) && client_uses(client)
                    == client_uses(own),
                Err(ApplicationProxyError::Unavailable(reason)) => self.client_error matches Some(
                    text,
                ) && reason@ == text@,
                Err(_) => false,
            },
    {
        match &self.default_client {
            Some(client) => Ok(share_client(client)),
            None => Err(
                ApplicationProxyError::Unavailable(
                    match &self.client_error {
                        Some(text) => text.clone(),
                        None => "proxy client is unavailable".to_owned(),
                    },
                ),
            ),
        }
    }

    /// Applies the policy to another client builder.
    pub fn configure(&self, builder: reqwest::ClientBuilder, ipv6: bool) -> (r: Result<
        reqwest::ClientBuilder,
        ApplicationProxyError,
    >)
        ensures
            is_configured(r, self.policy, ipv6, builder),
    {
        configure_http_client_builder(builder, &self.policy, ipv6)
    }
}

#[derive(Clone, Copy, Debug, PartialEq, Eq, Structural)]
pub enum SettingsApplicationProxyMode {
    System,
    Direct,
    Shared,
}

#[derive(Clone, Copy, Debug, PartialEq, Eq, Structural)]
pub enum SettingsUpstreamProxyProtocol {
    Socks5,
    HttpConnect,
}

pub enum SettingsUpstreamProxyAuth {
    Anonymous,
    Password { username: String, keychain_id: Option<String> },
}

pub struct SettingsUpstreamProxy {
    pub protocol: SettingsUpstreamProxyProtocol,
    pub host: String,
    pub port: u16,
    pub auth: SettingsUpstreamProxyAuth,
    pub remote_dns: bool,
    pub no_proxy: String,
}

pub struct NetworkSettings {
    pub application_proxy_mode: SettingsApplicationProxyMode,
    pub upstream_proxy: Option<SettingsUpstreamProxy>,
}

/// Gives out passwords of the application proxy.
pub trait ApplicationProxyCredentialProvider {
    fn application_proxy_password(&self, keychain_id: &str) -> Result<
        WipedText,
        ApplicationProxyError,
    >;
}

/// The keychain entry that a policy needs the password of.
pub open spec fn needed_keychain_id(settings: NetworkSettings) -> Option<Seq<char>> {
    if settings.application_proxy_mode == SettingsApplicationProxyMode::Shared {
        match settings.upstream_proxy {
            Some(proxy) => match proxy.auth {
                SettingsUpstreamProxyAuth::Password { keychain_id: Some(id), .. } => Some(id@),
                _ => None,
            },
            None => None,
        }
    } else {
        None
    }
}

/// The policy that settings and the password they name lead to. `password` is `None` where it
/// could not be had.
pub open spec fn is_settings_policy(
    policy: ApplicationProxyPolicy,
    settings: NetworkSettings,
    password: Option<Seq<char>>,
) -> bool {
    match settings.application_proxy_mode {
        SettingsApplicationProxyMode::System => policy is System,
        SettingsApplicationProxyMode::Direct => policy is Direct,
        SettingsApplicationProxyMode::Shared => match settings.upstream_proxy {
            None => policy matches ApplicationProxyPolicy::Unavailable { reason } && reason@
                == "the shared application proxy is selected but no shared proxy is configured"@,
            Some(proxy) => match proxy.auth {
                SettingsUpstreamProxyAuth::Anonymous => is_shared_policy(policy, proxy, None),
                SettingsUpstreamProxyAuth::Password { username, keychain_id } => match keychain_id {
                    None => policy matches ApplicationProxyPolicy::Unavailable { reason } && reason@
                        == "the application proxy password is not saved"@,
                    Some(_) => match password {
                        None => policy matches ApplicationProxyPolicy::Unavailable { reason }
                            && reason@ == "the application proxy password is unavailable"@,
                        Some(text) => is_shared_policy(policy, proxy, Some((username@, text))),
                    },
                },
            },
        },
    }
}

pub open spec fn is_shared_policy(
    policy: ApplicationProxyPolicy,
    proxy: SettingsUpstreamProxy,
    login: Option<(Seq<char>, Seq<char>)>,
) -> bool {
    policy matches ApplicationProxyPolicy::Custom(config) && {
        &&& config.protocol == (match proxy.protocol {
            SettingsUpstreamProxyProtocol::Socks5 => ApplicationProxyProtocol::Socks5,
            SettingsUpstreamProxyProtocol::HttpConnect => ApplicationProxyProtocol::HttpConnect,
        })
        &&& config.host@ == proxy.host@
        &&& config.port == proxy.port
        &&& config.auth.login() == login
        &&& config.remote_dns == proxy.remote_dns
        &&& config.no_proxy@ == proxy.no_proxy@
    }
}

/// The policy of settings, with the password that `needed_keychain_id` calls for.
pub fn application_proxy_policy_with_password(
    settings: &NetworkSettings,
    password: Option<WipedText>,
) -> (r: ApplicationProxyPolicy)
    ensures
        is_settings_policy(
            r,
            *settings,
            match password {
                Some(text) => Some(text@),
                None => None,
            },
        ),
{
    match settings.application_proxy_mode {
        SettingsApplicationProxyMode::System => return ApplicationProxyPolicy::System,
        SettingsApplicationProxyMode::Direct => return ApplicationProxyPolicy::Direct,
        SettingsApplicationProxyMode::Shared => {},
    }
    let proxy = match &settings.upstream_proxy {
        Some(proxy) => proxy,
        None => {
            return ApplicationProxyPolicy::Unavailable {
                reason:
                    "the shared application proxy is selected but no shared proxy is configured".to_owned(),
            };
        },
    };
    let auth = match &proxy.auth {
        SettingsUpstreamProxyAuth::Anonymous => ApplicationProxyAuth::Anonymous,
        SettingsUpstreamProxyAuth::Password { username, keychain_id } => {
            if keychain_id.is_none() {
                return ApplicationProxyPolicy::Unavailable {
                    reason: "the application proxy password is not saved".to_owned(),
                };
            }
            match password {
                Some(password) => ApplicationProxyAuth::Password {
                    username: username.clone(),
                    password,
                },
                None => {
                    return ApplicationProxyPolicy::Unavailable {
                        reason: "the application proxy password is unavailable".to_owned(),
                    };
                },
            }
        },
    };
    ApplicationProxyPolicy::Custom(
        CustomApplicationProxy {
            protocol: match proxy.protocol {
                SettingsUpstreamProxyProtocol::Socks5 => ApplicationProxyProtocol::Socks5,
                SettingsUpstreamProxyProtocol::HttpConnect => ApplicationProxyProtocol::HttpConnect,
            },
            host: proxy.host.clone(),
            port: proxy.port,
            auth,
            remote_dns: proxy.remote_dns,
            no_proxy: proxy.no_proxy.clone(),
        },
    )
}

/// The policy of settings; a password that is named is asked of `credentials` under its keychain id,
/// and one that is not to be had makes the proxy unavailable.
pub fn application_proxy_policy_from_settings<C: ApplicationProxyCredentialProvider>(
    settings: &NetworkSettings,
    credentials: &C,
) -> (r: ApplicationProxyPolicy)
    ensures
        needed_keychain_id(*settings) is None ==> is_settings_policy(r, *settings, None),
        needed_keychain_id(*settings) matches Some(wanted) ==> exists|
            id: &str,
            answer: Result<WipedText, ApplicationProxyError>,
        |
            id@ == wanted && #[trigger] call_ensures(
                C::application_proxy_password,
                (credentials, id),
                answer,
            ) && is_settings_policy(
                r,
                *settings,
                match answer {
                    Ok(text) => Some(text@),
                    Err(_) => None,
                },
            ),
{
    let mut password: Option<WipedText> = None;
    match settings.application_proxy_mode {
        SettingsApplicationProxyMode::Shared => match &settings.upstream_proxy {
            Some(proxy) => match &proxy.auth {
                SettingsUpstreamProxyAuth::Password { keychain_id: Some(id), .. } => {
                    match credentials.application_proxy_password(id.as_str()) {
                        Ok(text) => {
                            password = Some(text);
                        },
                        Err(_) => {},
                    }
                },
                _ => {},
            },
            None => {},
        },
        _ => {},
    }
    application_proxy_policy_with_password(settings, password)
}

#[derive(Clone, Copy, Debug, PartialEq, Eq, Structural)]
pub enum UpdateProxyMode {
    Application,
    Direct,
    System,
    Custom,
}

#[derive(Clone, Copy, Debug, PartialEq, Eq, Structural)]
pub enum UpdateProxyProtocol {
    Http,
    Https,
    Socks5,
}

pub struct UpdateProxySettings {
    pub mode: UpdateProxyMode,
    pub protocol: UpdateProxyProtocol,
    pub host: String,
    pub port: u16,
    pub no_proxy: String,
}

/// Whether a policy is the one that update settings ask for on their own.
pub open spec fn is_update_policy(policy: ApplicationProxyPolicy, settings: UpdateProxySettings) -> bool {
    match settings.mode {
        UpdateProxyMode::Application => false,
        UpdateProxyMode::Direct => policy is Direct,
        UpdateProxyMode::System => policy is System,
        UpdateProxyMode::Custom => policy matches ApplicationProxyPolicy::Custom(config) && {
            &&& config.protocol == (match settings.protocol {
                UpdateProxyProtocol::Http => ApplicationProxyProtocol::HttpConnect,
                UpdateProxyProtocol::Https => ApplicationProxyProtocol::HttpsConnect,
                UpdateProxyProtocol::Socks5 => ApplicationProxyProtocol::Socks5,
            })
            &&& config.host@ == settings.host@
            &&& config.port == settings.port
            &&& config.auth.login() is None
            &&& config.remote_dns
            &&& config.no_proxy@ == settings.no_proxy@
        },
    }
}

/// The policy of update settings; `None` where they follow the application.
pub fn update_proxy_policy(settings: &UpdateProxySettings) -> (r: Option<ApplicationProxyPolicy>)
    ensures
        match r {
            Some(policy) => is_update_policy(policy, *settings),
            None => settings.mode == UpdateProxyMode::Application,
        },
{
    match settings.mode {
        UpdateProxyMode::Application => None,
        UpdateProxyMode::Direct => Some(ApplicationProxyPolicy::Direct),
        UpdateProxyMode::System => Some(ApplicationProxyPolicy::System),
        UpdateProxyMode::Custom => Some(
            ApplicationProxyPolicy::Custom(
                CustomApplicationProxy {
                    protocol: match settings.protocol {
                        UpdateProxyProtocol::Http => ApplicationProxyProtocol::HttpConnect,
                        UpdateProxyProtocol::Https => ApplicationProxyProtocol::HttpsConnect,
                        UpdateProxyProtocol::Socks5 => ApplicationProxyProtocol::Socks5,
                    },
                    host: settings.host.clone(),
                    port: settings.port,
                    auth: ApplicationProxyAuth::Anonymous,
                    remote_dns: true,
                    no_proxy: settings.no_proxy.clone(),
                },
            ),
        ),
    }
}

/// Applies update settings to a client builder; `ipv6` speaks of the host of the proxy in use.
pub fn configure_update_http_client_builder(
    builder: reqwest::ClientBuilder,
    settings: &UpdateProxySettings,
    application: &ApplicationProxyRuntime,
    ipv6: bool,
) -> (r: Result<reqwest::ClientBuilder, ApplicationProxyError>)
    ensures
        settings.mode == UpdateProxyMode::Application ==> is_configured(
            r,
            application.policy,
            ipv6,
            builder,
        ),
        settings.mode != UpdateProxyMode::Application ==> exists|policy: ApplicationProxyPolicy|
            is_update_policy(policy, *settings) && #[trigger] is_configured(
                r,
                policy,
                ipv6,
                builder,
            ),
{
    match update_proxy_policy(settings) {
        None => application.configure(builder, ipv6),
        Some(policy) => configure_http_client_builder(builder, &policy, ipv6),
    }
}

/// The address of a proxy has its scheme, its host and its port; a version 6 address stands in
/// brackets.
pub proof fn law_proxy_addresses_are_complete(config: CustomApplicationProxy)
    ensures
        proxy_address(config, false) == url_scheme(config.protocol, config.remote_dns) + seq![
            ':',
            '/',
            '/',
        ] + unbracketed(trimmed(config.host@)) + seq![':'] + decimal(config.port as nat),
        proxy_address(config, true) == url_scheme(config.protocol, config.remote_dns) + seq![
            ':',
            '/',
            '/',
        ] + (seq!['['] + unbracketed(trimmed(config.host@)) + seq![']']) + seq![':'] + decimal(
            config.port as nat,
        ),
        url_scheme(ApplicationProxyProtocol::HttpConnect, config.remote_dns) == seq![
            'h',
            't',
            't',
            'p',
        ],
        url_scheme(ApplicationProxyProtocol::HttpsConnect, config.remote_dns) == seq![
            'h',
            't',
            't',
            'p',
            's',
        ],
        url_scheme(ApplicationProxyProtocol::Socks5, true) == seq![
            's',
            'o',
            'c',
            'k',
            's',
            '5',
            'h',
        ],
        url_scheme(ApplicationProxyProtocol::Socks5, false) == seq!['s', 'o', 'c', 'k', 's', '5'],
{
    reveal_strlit("://");
    reveal_strlit(":");
    reveal_strlit("[");
    reveal_strlit("]");
    reveal_strlit("http");
    reveal_strlit("https");
    reveal_strlit("socks5");
    reveal_strlit("socks5h");
    assert("://"@ =~= seq![':', '/', '/']);
    assert(":"@ =~= seq![':']);
    assert("["@ =~= seq!['[']);
    assert("]"@ =~= seq![']']);
    assert("http"@ =~= seq!['h', 't', 't', 'p']);
    assert("https"@ =~= seq!['h', 't', 't', 'p', 's']);
    assert("socks5"@ =~= seq!['s', 'o', 'c', 'k', 's', '5']);
    assert("socks5h"@ =~= seq!['s', 'o', 'c', 'k', 's', '5', 'h']);
}

/// Brackets at either end of a host do not belong to it, and nothing else is cut.
pub proof fn law_brackets_are_cut(host: Seq<char>)
    ensures
        unbracketed(seq!['['] + host) == unbracketed(host),
        host.len() > 0 && host[0] != '[' && host[0] != ']' && host.last() != '[' && host.last()
            != ']' ==> unbracketed(host) == host && unbracketed(host.push(']')) == host,
        unbracketed(Seq::empty()).len() == 0,
{
    assert((seq!['['] + host).drop_first() =~= host);
    if host.len() > 0 && host[0] != '[' && host[0] != ']' && host.last() != '[' && host.last()
        != ']' {
        assert(host.push(']').drop_last() =~= host);
        assert(host.push(']')[0] == host[0]);
        assert(unbracketed(host) == host);
    }
}

/// What requests go through under each policy: nothing, what was set before, or the one proxy that
/// was chosen, with its login and its exempt hosts.
pub proof fn law_policies_shape_clients(
    config: CustomApplicationProxy,
    reason: String,
    ipv6: bool,
    before: ClientProxies,
)
    ensures
        policy_proxies(ApplicationProxyPolicy::Direct, ipv6, before) == (ClientProxies {
            listed: Seq::empty(),
            from_system: false,
        }),
        policy_proxies(ApplicationProxyPolicy::System, ipv6, before) == before,
        ({
            let after = policy_proxies(ApplicationProxyPolicy::Custom(config), ipv6, before);
            &&& !after.from_system
            &&& after.listed.len() == 1
            &&& after.listed[0].url == proxy_address(config, ipv6)
            &&& after.listed[0].exempt is None <==> trimmed(config.no_proxy@).len() == 0
            &&& after.listed[0].exempt matches Some(hosts) ==> hosts == config.no_proxy@
            &&& after.listed[0].login is Some <==> config.auth is Password
            &&& config.auth matches ApplicationProxyAuth::Password { username, password }
                ==> after.listed[0].login == Some((username@, password@))
        }),
        policy_holds(ApplicationProxyPolicy::Direct, ipv6),
        policy_holds(ApplicationProxyPolicy::System, ipv6),
        !policy_holds(ApplicationProxyPolicy::Unavailable { reason }, ipv6),
        policy_holds(ApplicationProxyPolicy::Custom(config), ipv6) ==> trimmed(config.host@).len()
            > 0 && config.port > 0,
        trimmed(config.host@).len() == 0 || config.port == 0 ==> policy_complaint(
            ApplicationProxyPolicy::Custom(config),
        ) == Some("proxy host and port are required"@),
        policy_complaint(ApplicationProxyPolicy::Unavailable { reason }) == Some(reason@),
        fresh_proxies().from_system && fresh_proxies().listed.len() == 0,
{
}

/// How errors read, and what is shown of a login.
pub proof fn law_proxy_errors_are_told(reason: String, username: String, password: WipedText)
    ensures
        ApplicationProxyError::Unavailable(reason).text() == "application proxy is unavailable: "@
            + reason@,
        ApplicationProxyError::InvalidConfiguration(reason).text()
            == "invalid application proxy configuration: "@ + reason@,
        ApplicationProxyAuth::Anonymous.shown() == "None"@,
        ApplicationProxyAuth::Anonymous.login() is None,
        (ApplicationProxyAuth::Password { username, password }).shown() == "Password { username: "@
            + quoted(username@) + ", password: \"[redacted secret]\" }"@,
        protocol_name(ApplicationProxyProtocol::HttpConnect) == "HttpConnect"@,
        protocol_name(ApplicationProxyProtocol::HttpsConnect) == "HttpsConnect"@,
        protocol_name(ApplicationProxyProtocol::Socks5) == "Socks5"@,
{
}

/// The password of a keychain is asked for only where a shared proxy with a login is in use.
pub proof fn law_passwords_are_asked_for_where_needed(settings: NetworkSettings, id: String)
    ensures
        settings.application_proxy_mode != SettingsApplicationProxyMode::Shared
            ==> needed_keychain_id(settings) is None,
        settings.upstream_proxy is None ==> needed_keychain_id(settings) is None,
        settings.application_proxy_mode == SettingsApplicationProxyMode::Shared ==> (
        settings.upstream_proxy matches Some(proxy) ==> (
        proxy.auth matches SettingsUpstreamProxyAuth::Password { username, keychain_id: Some(id) }
            ==> needed_keychain_id(settings) == Some(id@))),
        settings.application_proxy_mode == SettingsApplicationProxyMode::Shared ==> (
        settings.upstream_proxy matches Some(proxy) ==> (proxy.auth is Anonymous
            ==> needed_keychain_id(settings) is None)),
{
}

/// Each mode of the settings leads to its own policy; a shared proxy is taken over field by field.
pub proof fn law_settings_lead_to_policies(
    policy: ApplicationProxyPolicy,
    settings: NetworkSettings,
    password: Option<Seq<char>>,
)
    requires
        is_settings_policy(policy, settings, password),
    ensures
        settings.application_proxy_mode == SettingsApplicationProxyMode::System
            ==> policy is System,
        settings.application_proxy_mode == SettingsApplicationProxyMode::Direct
            ==> policy is Direct,
        settings.application_proxy_mode == SettingsApplicationProxyMode::Shared
            && settings.upstream_proxy is None ==> policy is Unavailable,
        settings.application_proxy_mode == SettingsApplicationProxyMode::Shared ==> (
        settings.upstream_proxy matches Some(proxy) ==> (
        policy matches ApplicationProxyPolicy::Custom(config) ==> {
            &&& config.host@ == proxy.host@
            &&& config.port == proxy.port
            &&& config.remote_dns == proxy.remote_dns
            &&& config.no_proxy@ == proxy.no_proxy@
            &&& config.protocol == ApplicationProxyProtocol::Socks5 <==> proxy.protocol
                == SettingsUpstreamProxyProtocol::Socks5
            &&& config.protocol == ApplicationProxyProtocol::HttpConnect <==> proxy.protocol
                == SettingsUpstreamProxyProtocol::HttpConnect
            &&& proxy.auth is Anonymous ==> config.auth.login() is None
            &&& proxy.auth matches SettingsUpstreamProxyAuth::Password { username, keychain_id }
                ==> password is Some && config.auth.login() == Some((username@, password->0))
        })),
        settings.application_proxy_mode == SettingsApplicationProxyMode::Shared ==> (
        settings.upstream_proxy matches Some(proxy) ==> (
        proxy.auth matches SettingsUpstreamProxyAuth::Password { username, keychain_id } ==> (
        password is None ==> policy is Unavailable))),
        settings.application_proxy_mode == SettingsApplicationProxyMode::Shared ==> (
        settings.upstream_proxy matches Some(proxy) ==> (proxy.auth is Anonymous
            ==> policy is Custom)),
{
}

/// Each mode of the update settings leads to its own policy; a proxy of their own has no login and
/// resolves names itself.
pub proof fn law_update_settings_lead_to_policies(
    policy: ApplicationProxyPolicy,
    settings: UpdateProxySettings,
)
    requires
        is_update_policy(policy, settings),
    ensures
        settings.mode != UpdateProxyMode::Application,
        settings.mode == UpdateProxyMode::Direct ==> policy is Direct,
        settings.mode == UpdateProxyMode::System ==> policy is System,
        settings.mode == UpdateProxyMode::Custom ==> ({
            &&& policy matches ApplicationProxyPolicy::Custom(config)
            &&& config.host@ == settings.host@
            &&& config.port == settings.port
            &&& config.no_proxy@ == settings.no_proxy@
            &&& config.auth.login() is None
            &&& config.remote_dns
            &&& settings.protocol == UpdateProxyProtocol::Http ==> config.protocol
                == ApplicationProxyProtocol::HttpConnect
            &&& settings.protocol == UpdateProxyProtocol::Https ==> config.protocol
                == ApplicationProxyProtocol::HttpsConnect
            &&& settings.protocol == UpdateProxyProtocol::Socks5 ==> config.protocol
                == ApplicationProxyProtocol::Socks5
        }),
{
}

/// What applying a policy comes to: a client under it where it holds, else its own error.
pub proof fn law_applied_policies(
    configured: reqwest::ClientBuilder,
    error: ApplicationProxyError,
    policy: ApplicationProxyPolicy,
    ipv6: bool,
    builder: reqwest::ClientBuilder,
)
    ensures
        is_configured(Ok(configured), policy, ipv6, builder) ==> policy_holds(policy, ipv6)
            && client_proxies(configured) == policy_proxies(policy, ipv6, client_proxies(builder)),
        is_configured(Err(error), policy, ipv6, builder) ==> !policy_holds(policy, ipv6),
        is_configured(Err(error), policy, ipv6, builder) ==> (policy matches
            ApplicationProxyPolicy::Unavailable { reason } ==> (error matches
            ApplicationProxyError::Unavailable(told) && told@ == reason@)),
        is_configured(Err(error), policy, ipv6, builder) ==> (policy matches
            ApplicationProxyPolicy::Custom(config) ==> (if trimmed(config.host@).len() == 0
            || config.port == 0 {
            error matches ApplicationProxyError::InvalidConfiguration(told) && told@
                == "proxy host and port are required"@
        } else {
            error is Client
        })),
        !is_configured(Err(error), ApplicationProxyPolicy::Direct, ipv6, builder),
        !is_configured(Err(error), ApplicationProxyPolicy::System, ipv6, builder),
{
}

/// A shared proxy that cannot be used is told why: that there is none, that its password is not
/// saved, or that it cannot be had.
pub proof fn law_unavailable_proxies_are_told(
    policy: ApplicationProxyPolicy,
    settings: NetworkSettings,
    proxy: SettingsUpstreamProxy,
    username: String,
    keychain_id: Option<String>,
)
    requires
        is_settings_policy(policy, settings, None),
        settings.application_proxy_mode is Shared,
        settings.upstream_proxy == Some(proxy) && proxy.auth == (
        SettingsUpstreamProxyAuth::Password { username, keychain_id }) || settings.upstream_proxy
            is None,
    ensures
        policy is Unavailable,
        settings.upstream_proxy is None ==> policy->Unavailable_reason@
            == "the shared application proxy is selected but no shared proxy is configured"@,
        settings.upstream_proxy is Some && keychain_id is None ==> policy->Unavailable_reason@
            == "the application proxy password is not saved"@,
        settings.upstream_proxy is Some && keychain_id is Some ==> policy->Unavailable_reason@
            == "the application proxy password is unavailable"@,
{
}

} // verus!
