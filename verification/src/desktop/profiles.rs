//! Saved connections. A profile holds no password and no passphrase.

use crate::desktop::settings::{data_file, data_path};
use crate::paths::{parent_of, LocalPath};
use crate::text::same;
use vstd::prelude::*;
use vstd::string::*;

verus! {

#[derive(Clone, Copy, Debug, PartialEq, Eq, Structural)]
pub enum ConnectionKind {
    Ssh,
    Telnet,
    Serial,
}

pub open spec fn kind_label(kind: ConnectionKind) -> Seq<char> {
    match kind {
        ConnectionKind::Ssh => "SSH"@,
        ConnectionKind::Telnet => "Telnet"@,
        ConnectionKind::Serial => "串口"@,
    }
}

impl ConnectionKind {
    pub fn label(self) -> (r: &'static str)
        ensures
            r@ == kind_label(self),
    {
        match self {
            ConnectionKind::Ssh => "SSH",
            ConnectionKind::Telnet => "Telnet",
            ConnectionKind::Serial => "串口",
        }
    }
}

#[derive(Clone, Copy, Debug, PartialEq, Eq, Structural)]
pub enum AuthChoice {
    Password,
    Key,
    Agent,
}

pub open spec fn auth_label(auth: AuthChoice) -> Seq<char> {
    match auth {
        AuthChoice::Password => "密码"@,
        AuthChoice::Key => "私钥"@,
        AuthChoice::Agent => "SSH Agent"@,
    }
}

impl AuthChoice {
    pub fn label(self) -> (r: &'static str)
        ensures
            r@ == auth_label(self),
    {
        match self {
            AuthChoice::Password => "密码",
            AuthChoice::Key => "私钥",
            AuthChoice::Agent => "SSH Agent",
        }
    }
}

#[derive(Clone, Copy, Debug, PartialEq, Eq, Structural)]
pub enum ParityChoice {
    Off,
    Odd,
    Even,
}

pub open spec fn parity_label(parity: ParityChoice) -> Seq<char> {
    match parity {
        ParityChoice::Off => "无"@,
        ParityChoice::Odd => "奇校验"@,
        ParityChoice::Even => "偶校验"@,
    }
}

impl ParityChoice {
    pub fn label(self) -> (r: &'static str)
        ensures
            r@ == parity_label(self),
    {
        match self {
            ParityChoice::Off => "无",
            ParityChoice::Odd => "奇校验",
            ParityChoice::Even => "偶校验",
        }
    }
}

#[derive(Clone, Copy, Debug, PartialEq, Eq, Structural)]
pub enum FlowChoice {
    Off,
    Software,
    Hardware,
}

pub open spec fn flow_label(flow: FlowChoice) -> Seq<char> {
    match flow {
        FlowChoice::Off => "无"@,
        FlowChoice::Software => "软件 (XON/XOFF)"@,
        FlowChoice::Hardware => "硬件 (RTS/CTS)"@,
    }
}

impl FlowChoice {
    pub fn label(self) -> (r: &'static str)
        ensures
            r@ == flow_label(self),
    {
        match self {
            FlowChoice::Off => "无",
            FlowChoice::Software => "软件 (XON/XOFF)",
            FlowChoice::Hardware => "硬件 (RTS/CTS)",
        }
    }
}

/// A connection as it is saved.
#[derive(Clone, Debug, PartialEq, Eq)]
pub struct ConnectionProfile {
    pub name: String,
    pub kind: ConnectionKind,
    pub host: String,
    pub port: u16,
    pub username: String,
    pub auth: AuthChoice,
    pub key_path: String,
    pub post_connect_command: String,
    pub serial_port: String,
    pub baud_rate: u32,
    pub data_bits: u8,
    pub stop_bits: u8,
    pub parity: ParityChoice,
    pub flow_control: FlowChoice,
}

#[verifier::ext_equal]
pub struct ProfileView {
    pub name: Seq<char>,
    pub kind: ConnectionKind,
    pub host: Seq<char>,
    pub port: u16,
    pub username: Seq<char>,
    pub auth: AuthChoice,
    pub key_path: Seq<char>,
    pub post_connect_command: Seq<char>,
    pub serial_port: Seq<char>,
    pub baud_rate: u32,
    pub data_bits: u8,
    pub stop_bits: u8,
    pub parity: ParityChoice,
    pub flow_control: FlowChoice,
}

impl View for ConnectionProfile {
    type V = ProfileView;

    open spec fn view(&self) -> ProfileView {
        ProfileView {
            name: self.name@,
            kind: self.kind,
            host: self.host@,
            port: self.port,
            username: self.username@,
            auth: self.auth,
            key_path: self.key_path@,
            post_connect_command: self.post_connect_command@,
            serial_port: self.serial_port@,
            baud_rate: self.baud_rate,
            data_bits: self.data_bits,
            stop_bits: self.stop_bits,
            parity: self.parity,
            flow_control: self.flow_control,
        }
    }
}

pub open spec fn profile_views(profiles: Seq<ConnectionProfile>) -> Seq<ProfileView> {
    Seq::new(profiles.len(), |i: int| profiles[i]@)
}

impl ConnectionProfile {
    pub fn duplicate(&self) -> (r: ConnectionProfile)
        ensures
            r@ == self@,
    {
        ConnectionProfile {
            name: self.name.clone(),
            kind: self.kind,
            host: self.host.clone(),
            port: self.port,
            username: self.username.clone(),
            auth: self.auth,
            key_path: self.key_path.clone(),
            post_connect_command: self.post_connect_command.clone(),
            serial_port: self.serial_port.clone(),
            baud_rate: self.baud_rate,
            data_bits: self.data_bits,
            stop_bits: self.stop_bits,
            parity: self.parity,
            flow_control: self.flow_control,
        }
    }
}

pub fn profiles_path(home: &Option<LocalPath>) -> (r: LocalPath)
    ensures
        r@ == data_path(*home, "profiles.json"@),
{
    data_file(home, "profiles.json")
}

/// The profiles that were read; a file that is missing or cannot be read holds none.
pub fn load_profiles(read: Option<Vec<ConnectionProfile>>) -> (r: Vec<ConnectionProfile>)
    ensures
        r@ == match read {
            Some(profiles) => profiles@,
            None => Seq::empty(),
        },
{
    match read {
        Some(profiles) => profiles,
        None => Vec::new(),
    }
}

/// The directory to create before profiles are saved in a file.
pub fn save_profiles(path: &LocalPath) -> (r: Result<LocalPath, String>)
    ensures
        match r {
            Ok(directory) => parent_of(path@) == Some(directory@),
            Err(message) => parent_of(path@) is None && message@ == "无效的配置路径"@,
        },
{
    match path.parent() {
        Some(directory) => Ok(directory),
        None => Err("无效的配置路径".to_string()),
    }
}

/// Where the first profile of a name stands; the number of profiles where there is none.
pub open spec fn profile_at(profiles: Seq<ProfileView>, name: Seq<char>) -> nat
    decreases profiles.len(),
{
    if profiles.len() == 0 || profiles[0].name == name {
        0
    } else {
        1 + profile_at(profiles.drop_first(), name)
    }
}

pub fn find_profile(profiles: &Vec<ConnectionProfile>, name: &str) -> (r: Option<usize>)
    ensures
        match r {
            Some(at) => at < profiles@.len() && at == profile_at(profile_views(profiles@), name@)
                && profiles@[at as int]@.name == name@,
            None => profile_at(profile_views(profiles@), name@) == profiles@.len(),
        },
{
    let ghost all = profile_views(profiles@);
    let mut i: usize = 0;
    assert(all.skip(0) == all);
    while i < profiles.len()
        invariant
            i <= profiles.len(),
            all == profile_views(profiles@),
            profile_at(all, name@) == i + profile_at(all.skip(i as int), name@),
        decreases profiles.len() - i,
    {
        if same(profiles[i].name.as_str(), name) {
            return Some(i);
        }
        assert(all.skip(i as int).drop_first() == all.skip(i + 1));
        i = i + 1;
    }
    None
}

/// The profiles with one more: it takes the place of the first of its name.
pub open spec fn with_profile(profiles: Seq<ProfileView>, profile: ProfileView) -> Seq<ProfileView> {
    let at = profile_at(profiles, profile.name) as int;
    if at < profiles.len() {
        profiles.update(at, profile)
    } else {
        profiles.push(profile)
    }
}

/// The profiles of other names.
pub open spec fn without_profile(profiles: Seq<ProfileView>, name: Seq<char>) -> Seq<ProfileView>
    decreases profiles.len(),
{
    if profiles.len() == 0 {
        Seq::empty()
    } else {
        let front = without_profile(profiles.drop_last(), name);
        if profiles.last().name == name {
            front
        } else {
            front.push(profiles.last())
        }
    }
}

pub fn put_profile(profiles: &mut Vec<ConnectionProfile>, profile: ConnectionProfile)
    ensures
        profile_views(final(profiles)@) == with_profile(profile_views(old(profiles)@), profile@),
{
    let ghost before = profiles@;
    match find_profile(profiles, profile.name.as_str()) {
        Some(at) => {
            let ghost view = profile@;
            profiles.set(at, profile);
            assert(profile_views(profiles@) =~= profile_views(before).update(at as int, view));
        },
        None => {
            let ghost view = profile@;
            profiles.push(profile);
            assert(profile_views(profiles@) =~= profile_views(before).push(view));
        },
    }
}

pub fn remove_profiles(profiles: &mut Vec<ConnectionProfile>, name: &str)
    ensures
        profile_views(final(profiles)@) == without_profile(profile_views(old(profiles)@), name@),
{
    let ghost all = profile_views(profiles@);
    let mut kept: Vec<ConnectionProfile> = Vec::new();
    let mut i: usize = 0;
    assert(all.take(0) == Seq::<ProfileView>::empty());
    assert(profile_views(kept@) =~= Seq::<ProfileView>::empty());
    while i < profiles.len()
        invariant
            i <= profiles.len(),
            all == profile_views(profiles@),
            profile_views(kept@) == without_profile(all.take(i as int), name@),
        decreases profiles.len() - i,
    {
        proof {
            assert(all.take(i + 1).drop_last() == all.take(i as int));
            assert(all.take(i + 1).last() == all[i as int]);
        }
        if !same(profiles[i].name.as_str(), name) {
            let ghost before = kept@;
            let copy = profiles[i].duplicate();
            kept.push(copy);
            assert(profile_views(kept@) =~= profile_views(before).push(copy@));
        }
        i = i + 1;
    }
    assert(all.take(i as int) == all);
    *profiles = kept;
}

/// No two profiles have the same name.
pub open spec fn names_differ(profiles: Seq<ProfileView>) -> bool {
    forall|i: int, j: int|
        0 <= i < j < profiles.len() ==> (#[trigger] profiles[i]).name != (
        #[trigger] profiles[j]).name
}

pub proof fn lemma_profile_at(profiles: Seq<ProfileView>, name: Seq<char>)
    ensures
        profile_at(profiles, name) <= profiles.len(),
        profile_at(profiles, name) < profiles.len() ==> profiles[profile_at(
            profiles,
            name,
        ) as int].name == name,
        forall|j: int|
            0 <= j < profile_at(profiles, name) ==> (#[trigger] profiles[j]).name != name,
    decreases profiles.len(),
{
    if profiles.len() > 0 && profiles[0].name != name {
        let rest = profiles.drop_first();
        lemma_profile_at(rest, name);
        assert forall|j: int| 0 <= j < profile_at(profiles, name) implies (
        #[trigger] profiles[j]).name != name by {
            if j > 0 {
                assert(rest[j - 1] == profiles[j]);
            }
        }
    }
}

proof fn lemma_without_profile(profiles: Seq<ProfileView>, name: Seq<char>)
    requires
        names_differ(profiles),
    ensures
        names_differ(without_profile(profiles, name)),
        forall|j: int|
            0 <= j < without_profile(profiles, name).len() ==> (#[trigger] without_profile(
                profiles,
                name,
            )[j]).name != name && profiles.contains(without_profile(profiles, name)[j]),
    decreases profiles.len(),
{
    if profiles.len() > 0 {
        let front = profiles.drop_last();
        assert forall|i: int, j: int| 0 <= i < j < front.len() implies (#[trigger] front[i]).name
            != (#[trigger] front[j]).name by {
            assert(front[i] == profiles[i] && front[j] == profiles[j]);
        }
        lemma_without_profile(front, name);
        let kept = without_profile(front, name);
        let all = without_profile(profiles, name);
        assert forall|j: int| 0 <= j < kept.len() implies profiles.contains(#[trigger] kept[j])
            && kept[j].name != profiles.last().name by {
            assert(front.contains(kept[j]));
            let k = choose|k: int| 0 <= k < front.len() && front[k] == kept[j];
            assert(profiles[k] == kept[j]);
            assert(profiles[profiles.len() - 1] == profiles.last());
        }
        assert(profiles.contains(profiles.last()));
        assert forall|j: int| 0 <= j < all.len() implies (#[trigger] all[j]).name != name
            && profiles.contains(all[j]) by {
            if j < kept.len() {
                assert(all[j] == kept[j]);
            }
        }
        assert(names_differ(all)) by {
            assert forall|i: int, j: int| 0 <= i < j < all.len() implies (#[trigger] all[i]).name
                != (#[trigger] all[j]).name by {
                assert(all[i] == kept[i]);
                if j < kept.len() {
                    assert(all[j] == kept[j]);
                }
            }
        }
    }
}

/// Saving and deleting keep the names of profiles apart; a saved profile is found under its name,
/// and a deleted one no more.
pub proof fn law_names_stay_apart(
    profiles: Seq<ProfileView>,
    profile: ProfileView,
    name: Seq<char>,
)
    requires
        names_differ(profiles),
    ensures
        names_differ(with_profile(profiles, profile)),
        with_profile(profiles, profile).contains(profile),
        names_differ(without_profile(profiles, name)),
        forall|j: int|
            0 <= j < without_profile(profiles, name).len() ==> (#[trigger] without_profile(
                profiles,
                name,
            )[j]).name != name,
{
    let at = profile_at(profiles, profile.name) as int;
    let more = with_profile(profiles, profile);
    lemma_profile_at(profiles, profile.name);
    if at < profiles.len() {
        assert(more[at] == profile);
    } else {
        assert(more[profiles.len() as int] == profile);
    }
    lemma_without_profile(profiles, name);
}

/// A profile of a new name goes to the end; one of a name that is there takes the place of the
/// first of that name. All other profiles stay as and where they are.
pub proof fn law_saving_replaces_in_place(
    profiles: Seq<ProfileView>,
    profile: ProfileView,
    at: int,
)
    requires
        0 <= at <= profiles.len(),
        at < profiles.len() ==> profiles[at].name == profile.name,
        forall|j: int| 0 <= j < at ==> (#[trigger] profiles[j]).name != profile.name,
    ensures
        ({
            let more = with_profile(profiles, profile);
            &&& more[at] == profile
            &&& at == profiles.len() ==> more.len() == profiles.len() + 1
            &&& at < profiles.len() ==> more.len() == profiles.len()
            &&& forall|j: int| 0 <= j < profiles.len() && j != at ==> #[trigger] more[j]
                == profiles[j]
        }),
{
    lemma_profile_at(profiles, profile.name);
    let found = profile_at(profiles, profile.name) as int;
    if found < at {
        assert(profiles[found].name == profile.name);
    }
    assert(found == at);
}

/// Deleting goes through the profiles one by one: those of the name go, all others stay in
/// their order.
pub proof fn law_deleting_takes_the_name_only(
    a: Seq<ProfileView>,
    b: Seq<ProfileView>,
    name: Seq<char>,
)
    ensures
        without_profile(a + b, name) == without_profile(a, name) + without_profile(b, name),
        b.len() == 1 && b[0].name == name ==> without_profile(b, name).len() == 0,
        b.len() == 1 && b[0].name != name ==> without_profile(b, name) == b,
    decreases b.len(),
{
    if b.len() == 0 {
        assert(a + b =~= a);
        assert(without_profile(a + b, name) =~= without_profile(a, name) + without_profile(
            b,
            name,
        ));
    } else {
        law_deleting_takes_the_name_only(a, b.drop_last(), name);
        assert((a + b).drop_last() =~= a + b.drop_last());
        assert(without_profile(a + b, name) =~= without_profile(a, name) + without_profile(
            b,
            name,
        ));
        if b.len() == 1 {
            assert(b.drop_last() =~= Seq::<ProfileView>::empty());
            assert(without_profile(b.drop_last(), name) =~= Seq::<ProfileView>::empty());
            assert(b[0].name != name ==> without_profile(b, name) =~= b);
        }
    }
}

/// How the choices of a profile are named; no two of a kind are named alike.
pub proof fn law_choices_are_named(
    kinds: (ConnectionKind, ConnectionKind),
    auths: (AuthChoice, AuthChoice),
    parities: (ParityChoice, ParityChoice),
    flows: (FlowChoice, FlowChoice),
)
    ensures
        kind_label(ConnectionKind::Ssh) == "SSH"@,
        kind_label(ConnectionKind::Telnet) == "Telnet"@,
        kind_label(ConnectionKind::Serial) == "串口"@,
        auth_label(AuthChoice::Password) == "密码"@,
        auth_label(AuthChoice::Key) == "私钥"@,
        auth_label(AuthChoice::Agent) == "SSH Agent"@,
        parity_label(ParityChoice::Off) == "无"@,
        parity_label(ParityChoice::Odd) == "奇校验"@,
        parity_label(ParityChoice::Even) == "偶校验"@,
        flow_label(FlowChoice::Off) == "无"@,
        flow_label(FlowChoice::Software) == "软件 (XON/XOFF)"@,
        flow_label(FlowChoice::Hardware) == "硬件 (RTS/CTS)"@,
        kind_label(kinds.0) == kind_label(kinds.1) ==> kinds.0 == kinds.1,
        auth_label(auths.0) == auth_label(auths.1) ==> auths.0 == auths.1,
        parity_label(parities.0) == parity_label(parities.1) ==> parities.0 == parities.1,
        flow_label(flows.0) == flow_label(flows.1) ==> flows.0 == flows.1,
{
    reveal_strlit("SSH");
    reveal_strlit("Telnet");
    reveal_strlit("串口");
    reveal_strlit("密码");
    reveal_strlit("私钥");
    reveal_strlit("SSH Agent");
    reveal_strlit("无");
    reveal_strlit("奇校验");
    reveal_strlit("偶校验");
    reveal_strlit("软件 (XON/XOFF)");
    reveal_strlit("硬件 (RTS/CTS)");
    assert(kind_label(kinds.0)[0] == kind_label(kinds.1)[0] ==> kinds.0 == kinds.1);
    assert(auth_label(auths.0)[0] == auth_label(auths.1)[0] ==> auths.0 == auths.1);
    assert(parity_label(parities.0)[0] == parity_label(parities.1)[0] ==> parities.0
        == parities.1);
    assert(flow_label(flows.0)[0] == flow_label(flows.1)[0] ==> flows.0 == flows.1);
}

} // verus!
