//! Certificates that the user has trusted, by endpoint.

use crate::paths::{parent_of, LocalPath};
use crate::text::{
    concat2, concat3, concat4, contains_char, decimal, decimal_text, drop_leading, drop_trailing,
    lower_ascii, same, texts, to_lower_ascii, trim, trimmed, without_leading, without_trailing,
};
use vstd::prelude::*;
use vstd::string::*;

verus! {

pub const CERTIFICATE_STORE_VERSION: u32 = 1;

pub const REMOTE_DESKTOP_CERTIFICATE_STORE_FILE: &'static str = "rdp-known-certificates.json";

#[derive(Clone, Copy, Debug, Eq, PartialEq, Structural)]
pub enum RemoteDesktopProtocol {
    Rdp,
    Vnc,
}

pub open spec fn provider_id_of(protocol: RemoteDesktopProtocol) -> Seq<char> {
    match protocol {
        RemoteDesktopProtocol::Rdp => "rdp"@,
        RemoteDesktopProtocol::Vnc => "vnc"@,
    }
}

impl RemoteDesktopProtocol {
    pub fn provider_id(self) -> (r: &'static str)
        ensures
            r@ == provider_id_of(self),
    {
        match self {
            RemoteDesktopProtocol::Rdp => "rdp",
            RemoteDesktopProtocol::Vnc => "vnc",
        }
    }
}

/// Where a remote desktop is reached. `address` is the canonical form of the IP address that the
/// host writes, where it writes one.
pub struct RemoteDesktopEndpoint {
    pub host: String,
    pub port: u16,
    pub address: Option<String>,
}

/// The text of a host that may write an IP address: without white space and brackets around it.
pub open spec fn bare_host(host: Seq<char>) -> Seq<char> {
    without_trailing(without_leading(trimmed(host), '['), ']')
}

impl RemoteDesktopEndpoint {
    /// An endpoint that is reached by name.
    pub fn new(host: &str, port: u16) -> (r: Self)
        ensures
            r.host@ == host@ && r.port == port && r.address is None,
    {
        RemoteDesktopEndpoint { host: host.to_owned(), port, address: None }
    }

    /// An endpoint whose host writes an IP address.
    pub fn with_address(host: &str, port: u16, address: String) -> (r: Self)
        ensures
            r.host@ == host@ && r.port == port && r.address == Some(address),
    {
        RemoteDesktopEndpoint { host: host.to_owned(), port, address: Some(address) }
    }

    /// The text to be read as an IP address.
    pub fn address_candidate(&self) -> (r: &str)
        ensures
            r@ == bare_host(self.host@),
    {
        drop_trailing(drop_leading(trim(self.host.as_str()), '['), ']')
    }
}

/// The host as it stands in keys: the canonical address, else the name in small letters.
pub open spec fn key_host(endpoint: RemoteDesktopEndpoint) -> Seq<char> {
    match endpoint.address {
        Some(address) => address@,
        None => lower_ascii(trimmed(endpoint.host@)),
    }
}

/// Host and port of an endpoint; a host with colons stands in brackets.
pub open spec fn host_and_port(endpoint: RemoteDesktopEndpoint) -> Seq<char> {
    let host = key_host(endpoint);
    let port = decimal(endpoint.port as nat);
    if host.contains(':') {
        "["@ + host + "]:"@ + port
    } else {
        host + ":"@ + port
    }
}

/// The key of an endpoint.
pub open spec fn endpoint_key(
    protocol: RemoteDesktopProtocol,
    endpoint: RemoteDesktopEndpoint,
) -> Seq<char> {
    provider_id_of(protocol) + ("://"@ + host_and_port(endpoint))
}

fn host_and_port_text(endpoint: &RemoteDesktopEndpoint) -> (r: String)
    ensures
        r@ == host_and_port(*endpoint),
{
    let host = match &endpoint.address {
        Some(address) => address.clone(),
        None => to_lower_ascii(trim(endpoint.host.as_str())),
    };
    let port = decimal_text(endpoint.port as u64);
    if contains_char(host.as_str(), ':') {
        concat4("[", host.as_str(), "]:", port.as_str())
    } else {
        concat3(host.as_str(), ":", port.as_str())
    }
}

pub fn certificate_endpoint_key(
    protocol: RemoteDesktopProtocol,
    endpoint: &RemoteDesktopEndpoint,
) -> (r: String)
    ensures
        r@ == endpoint_key(protocol, *endpoint),
{
    let rest = concat2("://", host_and_port_text(endpoint).as_str());
    concat2(protocol.provider_id(), rest.as_str())
}

/// The key that RDP endpoints had before keys named the protocol.
pub fn legacy_rdp_certificate_endpoint_key(endpoint: &RemoteDesktopEndpoint) -> (r: String)
    ensures
        r@ == host_and_port(*endpoint),
{
    host_and_port_text(endpoint)
}

/// One trusted certificate.
pub struct CertificatePin {
    pub key: String,
    pub sha256_fingerprint: String,
}

/// The stored certificates, each key once.
pub struct CertificateStoreDocument {
    pub version: u32,
    pub certificates: Vec<CertificatePin>,
}

pub open spec fn keys_differ(pins: Seq<CertificatePin>) -> bool {
    forall|i: int, j: int|
        0 <= i < j < pins.len() ==> (#[trigger] pins[i]).key@ != (#[trigger] pins[j]).key@
}

pub open spec fn has_pin(pins: Seq<CertificatePin>, key: Seq<char>) -> bool {
    exists|i: int| 0 <= i < pins.len() && (#[trigger] pins[i]).key@ == key
}

/// The position of the pin under a key.
pub open spec fn pin_at(pins: Seq<CertificatePin>, key: Seq<char>) -> int {
    choose|i: int| 0 <= i < pins.len() && (#[trigger] pins[i]).key@ == key
}

/// A document: the version of its form, and the fingerprint under each key.
#[verifier::ext_equal]
pub struct DocumentView {
    pub version: u32,
    pub pins: Map<Seq<char>, Seq<char>>,
}

impl View for CertificateStoreDocument {
    type V = DocumentView;

    open spec fn view(&self) -> DocumentView {
        DocumentView {
            version: self.version,
            pins: Map::new(
                |key: Seq<char>| has_pin(self.certificates@, key),
                |key: Seq<char>|
                    self.certificates@[pin_at(self.certificates@, key)].sha256_fingerprint@,
            ),
        }
    }
}

impl CertificateStoreDocument {
    pub open spec fn well_formed(self) -> bool {
        keys_differ(self.certificates@)
    }

    proof fn lemma_lookup(&self, i: int)
        requires
            self.well_formed(),
            0 <= i < self.certificates@.len(),
        ensures
            self@.pins.contains_key(self.certificates@[i].key@),
            self@.pins[self.certificates@[i].key@] == self.certificates@[i].sha256_fingerprint@,
    {
        let key = self.certificates@[i].key@;
        assert(has_pin(self.certificates@, key));
        let j = pin_at(self.certificates@, key);
        assert(0 <= j < self.certificates@.len() && self.certificates@[j].key@ == key);
        if i < j {
            assert(self.certificates@[i].key@ != self.certificates@[j].key@);
        } else if j < i {
            assert(self.certificates@[j].key@ != self.certificates@[i].key@);
        }
    }

    pub fn empty() -> (r: Self)
        ensures
            r.well_formed(),
            r@ == (DocumentView {
                version: CERTIFICATE_STORE_VERSION,
                pins: Map::<Seq<char>, Seq<char>>::empty(),
            }),
    {
        let r = CertificateStoreDocument {
            version: CERTIFICATE_STORE_VERSION,
            certificates: Vec::new(),
        };
        assert(r@.pins =~= Map::<Seq<char>, Seq<char>>::empty());
        r
    }

    pub fn get(&self, key: &str) -> (r: Option<&str>)
        requires
            self.well_formed(),
        ensures
            match r {
                Some(fingerprint) => self@.pins.contains_key(key@) && self@.pins[key@] == fingerprint@,
                None => !self@.pins.contains_key(key@),
            },
    {
        let mut i: usize = 0;
        while i < self.certificates.len()
            invariant
                i <= self.certificates.len(),
                self.well_formed(),
                forall|j: int| 0 <= j < i ==> (#[trigger] self.certificates@[j]).key@ != key@,
            decreases self.certificates.len() - i,
        {
            if same(self.certificates[i].key.as_str(), key) {
                proof {
                    self.lemma_lookup(i as int);
                }
                return Some(self.certificates[i].sha256_fingerprint.as_str());
            }
            i = i + 1;
        }
        None
    }

    /// The document without two keys.
    fn copy_without(&self, key: &str, other: Option<&str>) -> (r: Self)
        requires
            self.well_formed(),
        ensures
            r.well_formed(),
            r.version == self.version,
            r@.pins == (match other {
                Some(o) => self@.pins.remove(o@).remove(key@),
                None => self@.pins.remove(key@),
            }),
            !has_pin(r.certificates@, key@),
    {
        let mut pins: Vec<CertificatePin> = Vec::new();
        let ghost mut origin: Seq<int> = Seq::empty();
        let ghost mut index: Map<int, int> = Map::empty();
        let mut i: usize = 0;
        while i < self.certificates.len()
            invariant
                i <= self.certificates.len(),
                self.well_formed(),
                origin.len() == pins@.len(),
                forall|j: int|
                    0 <= j < pins@.len() ==> 0 <= #[trigger] origin[j] < i && pins@[j].key@
                        == self.certificates@[origin[j]].key@ && pins@[j].sha256_fingerprint@
                        == self.certificates@[origin[j]].sha256_fingerprint@,
                forall|j: int, k: int|
                    0 <= j < k < origin.len() ==> #[trigger] origin[j] < #[trigger] origin[k],
                forall|j: int|
                    0 <= j < pins@.len() ==> (#[trigger] pins@[j]).key@ != key@ && (
                    other is Some ==> pins@[j].key@ != other->0@),
                forall|j: int|
                    0 <= j < i ==> {
                        let k = (#[trigger] self.certificates@[j]).key@;
                        (k != key@ && !(other is Some && k == other->0@)) ==> has_pin(pins@, k)
                    },
            decreases self.certificates.len() - i,
        {
            let pin = &self.certificates[i];
            let drop = same(pin.key.as_str(), key) || (match other {
                Some(o) => same(pin.key.as_str(), o),
                None => false,
            });
            let ghost before = pins@;
            if !drop {
                pins.push(
                    CertificatePin {
                        key: pin.key.clone(),
                        sha256_fingerprint: pin.sha256_fingerprint.clone(),
                    },
                );
                proof {
                    origin = origin.push(i as int);
                    assert(pins@[pins@.len() - 1].key@ == pin.key@);
                    assert(has_pin(pins@, pin.key@));
                }
            }
            proof {
                assert forall|k: Seq<char>| has_pin(before, k) implies has_pin(pins@, k) by {
                    let j = choose|j: int| 0 <= j < before.len() && (#[trigger] before[j]).key@ == k;
                    assert(pins@[j].key@ == k);
                }
            }
            i = i + 1;
        }
        let r = CertificateStoreDocument { version: self.version, certificates: pins };
        proof {
            assert forall|a: int, b: int| 0 <= a < b < pins@.len() implies (
            #[trigger] pins@[a]).key@ != (#[trigger] pins@[b]).key@ by {
                assert(origin[a] < origin[b]);
                assert(self.certificates@[origin[a]].key@ != self.certificates@[origin[b]].key@);
            }
            let expected = match other {
                Some(o) => self@.pins.remove(o@).remove(key@),
                None => self@.pins.remove(key@),
            };
            assert forall|k: Seq<char>| r@.pins.contains_key(k) == expected.contains_key(k) by {
                if r@.pins.contains_key(k) {
                    let j = choose|j: int| 0 <= j < pins@.len() && (#[trigger] pins@[j]).key@ == k;
                    assert(self.certificates@[origin[j]].key@ == k);
                }
            }
            assert forall|k: Seq<char>| r@.pins.contains_key(k) implies r@.pins[k] == expected[k] by {
                let j = pin_at(pins@, k);
                assert(has_pin(pins@, k));
                assert(0 <= j < pins@.len() && pins@[j].key@ == k);
                self.lemma_lookup(origin[j]);
            }
            assert(r@.pins =~= expected);
        }
        r
    }
}

/// The file of the store and what it holds.
pub struct RemoteDesktopCertificateStore {
    pub path: LocalPath,
    pub document: CertificateStoreDocument,
}

/// The fingerprint under which an endpoint is trusted: an RDP endpoint may still have its pin under
/// the key without a protocol.
pub open spec fn trusted_fingerprint(
    pins: Map<Seq<char>, Seq<char>>,
    protocol: RemoteDesktopProtocol,
    endpoint: RemoteDesktopEndpoint,
) -> Option<Seq<char>> {
    if pins.contains_key(endpoint_key(protocol, endpoint)) {
        Some(pins[endpoint_key(protocol, endpoint)])
    } else if protocol == RemoteDesktopProtocol::Rdp && pins.contains_key(host_and_port(endpoint)) {
        Some(pins[host_and_port(endpoint)])
    } else {
        None
    }
}

/// The pins after an endpoint was trusted: an RDP endpoint loses its pin under the old key.
pub open spec fn trusted(
    pins: Map<Seq<char>, Seq<char>>,
    protocol: RemoteDesktopProtocol,
    endpoint: RemoteDesktopEndpoint,
    fingerprint: Seq<char>,
) -> Map<Seq<char>, Seq<char>> {
    let base = if protocol == RemoteDesktopProtocol::Rdp {
        pins.remove(host_and_port(endpoint))
    } else {
        pins
    };
    base.insert(endpoint_key(protocol, endpoint), fingerprint)
}

impl RemoteDesktopCertificateStore {
    /// The store of a file: `document` is what was read, or nothing where there is no file yet.
    pub fn load(path: LocalPath, document: Option<CertificateStoreDocument>) -> (r: Result<
        Self,
        String,
    >)
        requires
            document matches Some(d) ==> d.well_formed(),
        ensures
            match document {
                None => r is Ok && r->Ok_0.document@ == (DocumentView {
                    version: CERTIFICATE_STORE_VERSION,
                    pins: Map::<Seq<char>, Seq<char>>::empty(),
                }) && r->Ok_0.path == path && r->Ok_0.document.well_formed(),
                Some(d) => if d.version == CERTIFICATE_STORE_VERSION {
                    r is Ok && r->Ok_0.document == d && r->Ok_0.path == path
                } else {
                    r is Err && r->Err_0@ == "unsupported remote desktop certificate store version "@
                        + decimal(d.version as nat)
                },
            },
    {
        let document = match document {
            Some(document) => document,
            None => CertificateStoreDocument::empty(),
        };
        if document.version != CERTIFICATE_STORE_VERSION {
            return Err(
                concat2(
                    "unsupported remote desktop certificate store version ",
                    decimal_text(document.version as u64).as_str(),
                ),
            );
        }
        Ok(RemoteDesktopCertificateStore { path, document })
    }

    /// The file of the store beside the settings.
    pub fn path_next_to_settings(settings_path: &LocalPath) -> (r: LocalPath)
        ensures
            r@ == (match parent_of(settings_path@) {
                Some(parent) => parent,
                None => seq!["."@],
            }).push(REMOTE_DESKTOP_CERTIFICATE_STORE_FILE@),
    {
        let mut components: Vec<String> = match settings_path.parent() {
            Some(parent) => parent.components,
            None => {
                let mut here: Vec<String> = Vec::new();
                here.push(".".to_owned());
                assert(texts(here@) =~= seq!["."@]);
                here
            },
        };
        let ghost before = components@;
        components.push(REMOTE_DESKTOP_CERTIFICATE_STORE_FILE.to_owned());
        assert(texts(components@) =~= texts(before).push(REMOTE_DESKTOP_CERTIFICATE_STORE_FILE@));
        LocalPath { components }
    }

    pub fn fingerprint(
        &self,
        protocol: RemoteDesktopProtocol,
        endpoint: &RemoteDesktopEndpoint,
    ) -> (r: Option<&str>)
        requires
            self.document.well_formed(),
        ensures
            match r {
                Some(fingerprint) => trusted_fingerprint(self.document@.pins, protocol, *endpoint)
                    == Some(fingerprint@),
                None => trusted_fingerprint(self.document@.pins, protocol, *endpoint) is None,
            },
    {
        let key = certificate_endpoint_key(protocol, endpoint);
        let namespaced = self.document.get(key.as_str());
        if namespaced.is_some() || protocol != RemoteDesktopProtocol::Rdp {
            return namespaced;
        }
        let legacy = legacy_rdp_certificate_endpoint_key(endpoint);
        self.document.get(legacy.as_str())
    }

    /// The document to be written so that the endpoint becomes trusted. The store itself changes
    /// only once it is committed.
    pub fn trust(
        &self,
        protocol: RemoteDesktopProtocol,
        endpoint: &RemoteDesktopEndpoint,
        sha256_fingerprint: String,
    ) -> (r: CertificateStoreDocument)
        requires
            self.document.well_formed(),
        ensures
            r.well_formed(),
            r@ == (DocumentView {
                version: self.document@.version,
                pins: trusted(self.document@.pins, protocol, *endpoint, sha256_fingerprint@),
            }),
    {
        let key = certificate_endpoint_key(protocol, endpoint);
        let mut next = if protocol == RemoteDesktopProtocol::Rdp {
            let legacy = legacy_rdp_certificate_endpoint_key(endpoint);
            self.document.copy_without(key.as_str(), Some(legacy.as_str()))
        } else {
            self.document.copy_without(key.as_str(), None)
        };
        let ghost before = next;
        next.certificates.push(CertificatePin { key, sha256_fingerprint });
        proof {
            let pins = next.certificates@;
            assert forall|a: int, b: int| 0 <= a < b < pins.len() implies (#[trigger] pins[a]).key@
                != (#[trigger] pins[b]).key@ by {
                assert(pins[a] == before.certificates@[a]);
                if b < before.certificates@.len() {
                    assert(pins[b] == before.certificates@[b]);
                }
            }
            let expected = trusted(self.document@.pins, protocol, *endpoint, sha256_fingerprint@);
            assert forall|k: Seq<char>| next@.pins.contains_key(k) == expected.contains_key(k) by {
                if has_pin(before.certificates@, k) {
                    let j = pin_at(before.certificates@, k);
                    assert(pins[j].key@ == k);
                }
                if has_pin(pins, k) {
                    let j = pin_at(pins, k);
                    assert(pins[j].key@ == k);
                    if j < before.certificates@.len() {
                        assert(before.certificates@[j].key@ == k);
                    }
                }
                assert(pins[pins.len() - 1].key@ == key@);
                assert(before@.pins.contains_key(k) == has_pin(before.certificates@, k));
            }
            assert forall|k: Seq<char>| next@.pins.contains_key(k) implies next@.pins[k] == expected[k] by {
                let j = pin_at(pins, k);
                assert(has_pin(pins, k));
                next.lemma_lookup(j);
                if j < before.certificates@.len() {
                    assert(pins[j] == before.certificates@[j]);
                    before.lemma_lookup(j);
                }
            }
            assert(next@.pins =~= expected);
        }
        next
    }

    /// Makes a written document the contents of the store.
    pub fn commit(&mut self, document: CertificateStoreDocument)
        ensures
            final(self).document == document,
            final(self).path == old(self).path,
    {
        self.document = document;
    }
}

/// An endpoint that was trusted has that fingerprint, and an RDP endpoint no longer has a pin under
/// its old key.
pub proof fn law_trust_is_effective(
    pins: Map<Seq<char>, Seq<char>>,
    protocol: RemoteDesktopProtocol,
    endpoint: RemoteDesktopEndpoint,
    fingerprint: Seq<char>,
)
    ensures
        trusted_fingerprint(trusted(pins, protocol, endpoint, fingerprint), protocol, endpoint)
            == Some(fingerprint),
        protocol == RemoteDesktopProtocol::Rdp ==> !trusted(
            pins,
            protocol,
            endpoint,
            fingerprint,
        ).contains_key(host_and_port(endpoint)),
{
    reveal_strlit("://");
    assert(endpoint_key(protocol, endpoint).len() > host_and_port(endpoint).len());
}

/// Trusting an endpoint changes nothing for an endpoint whose keys differ from its keys.
pub proof fn law_trust_touches_one_endpoint(
    pins: Map<Seq<char>, Seq<char>>,
    protocol: RemoteDesktopProtocol,
    endpoint: RemoteDesktopEndpoint,
    fingerprint: Seq<char>,
    other_protocol: RemoteDesktopProtocol,
    other: RemoteDesktopEndpoint,
)
    requires
        endpoint_key(other_protocol, other) != endpoint_key(protocol, endpoint),
        host_and_port(other) != host_and_port(endpoint),
        endpoint_key(other_protocol, other) != host_and_port(endpoint),
        host_and_port(other) != endpoint_key(protocol, endpoint),
    ensures
        trusted_fingerprint(
            trusted(pins, protocol, endpoint, fingerprint),
            other_protocol,
            other,
        ) == trusted_fingerprint(pins, other_protocol, other),
{
}

/// Trusting an endpoint under one protocol changes nothing for the same endpoint under the other: a
/// VNC endpoint keeps its pin where the RDP one is trusted, and an RDP endpoint keeps its own, also
/// under the key without a protocol, where the VNC one is.
pub proof fn law_trust_leaves_the_other_protocol(
    pins: Map<Seq<char>, Seq<char>>,
    protocol: RemoteDesktopProtocol,
    other_protocol: RemoteDesktopProtocol,
    endpoint: RemoteDesktopEndpoint,
    fingerprint: Seq<char>,
)
    requires
        protocol != other_protocol,
    ensures
        trusted_fingerprint(
            trusted(pins, protocol, endpoint, fingerprint),
            other_protocol,
            endpoint,
        ) == trusted_fingerprint(pins, other_protocol, endpoint),
{
    reveal_strlit("://");
    reveal_strlit("rdp");
    reveal_strlit("vnc");
    assert(endpoint_key(protocol, endpoint).len() > host_and_port(endpoint).len());
    assert(endpoint_key(other_protocol, endpoint).len() > host_and_port(endpoint).len());
    assert(endpoint_key(protocol, endpoint)[0] != endpoint_key(other_protocol, endpoint)[0]);
}

/// Keys name the protocol, the host and the port; a host with colons stands in brackets.
pub proof fn law_keys_name_the_endpoint(endpoint: RemoteDesktopEndpoint)
    ensures
        endpoint_key(RemoteDesktopProtocol::Rdp, endpoint) == seq!['r', 'd', 'p', ':', '/', '/']
            + host_and_port(endpoint),
        endpoint_key(RemoteDesktopProtocol::Vnc, endpoint) == seq!['v', 'n', 'c', ':', '/', '/']
            + host_and_port(endpoint),
        !key_host(endpoint).contains(':') ==> host_and_port(endpoint) == key_host(endpoint)
            + seq![':'] + decimal(endpoint.port as nat),
        key_host(endpoint).contains(':') ==> host_and_port(endpoint) == seq!['['] + key_host(
            endpoint,
        ) + seq![']', ':'] + decimal(endpoint.port as nat),
        endpoint.address matches Some(address) ==> key_host(endpoint) == address@,
        endpoint.address is None ==> key_host(endpoint) == lower_ascii(trimmed(endpoint.host@)),
        CERTIFICATE_STORE_VERSION == 1,
{
    reveal_strlit("rdp");
    reveal_strlit("vnc");
    reveal_strlit("://");
    reveal_strlit(":");
    reveal_strlit("[");
    reveal_strlit("]:");
    assert(endpoint_key(RemoteDesktopProtocol::Rdp, endpoint) =~= seq![
        'r',
        'd',
        'p',
        ':',
        '/',
        '/',
    ] + host_and_port(endpoint));
    assert(endpoint_key(RemoteDesktopProtocol::Vnc, endpoint) =~= seq![
        'v',
        'n',
        'c',
        ':',
        '/',
        '/',
    ] + host_and_port(endpoint));
    assert(":"@ =~= seq![':']);
    assert("["@ =~= seq!['[']);
    assert("]:"@ =~= seq![']', ':']);
}

/// Endpoints whose hosts differ only in the size of their letters, or in white space around them,
/// have one key; brackets around an address do not belong to it.
pub proof fn law_equal_hosts_have_one_key(a: RemoteDesktopEndpoint, b: RemoteDesktopEndpoint)
    requires
        a.address is None,
        b.address is None,
        a.port == b.port,
        lower_ascii(trimmed(a.host@)) == lower_ascii(trimmed(b.host@)),
    ensures
        host_and_port(a) == host_and_port(b),
        endpoint_key(RemoteDesktopProtocol::Rdp, a) == endpoint_key(RemoteDesktopProtocol::Rdp, b),
{
}

/// The address in a host is what stands between its brackets.
pub proof fn law_addresses_stand_between_brackets(inner: Seq<char>)
    requires
        inner.len() > 0,
        inner[0] != '[',
        inner.last() != ']',
        trimmed(seq!['['] + inner + seq![']']) == seq!['['] + inner + seq![']'],
        trimmed(inner) == inner,
    ensures
        bare_host(seq!['['] + inner + seq![']']) == inner,
        bare_host(inner) == inner,
{
    reveal_with_fuel(without_leading, 2);
    reveal_with_fuel(without_trailing, 2);
    let whole = seq!['['] + inner + seq![']'];
    assert(whole.drop_first() =~= inner.push(']'));
    assert(inner.push(']')[0] == inner[0]);
    assert(without_leading(whole, '[') == without_leading(inner.push(']'), '['));
    assert(inner.push(']').drop_last() =~= inner);
}

} // verus!
