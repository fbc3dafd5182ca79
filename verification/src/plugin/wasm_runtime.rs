//! Selection of a WASM runtime build for a host, and the entry of a WASM plugin.

use crate::order::{
    compare_numbers, compare_text, flipped, int_order, is_order, lemma_lex_flips,
    lemma_lex_transitive, lex_order, text_order, Order,
};
use crate::paths::LocalPath;
use crate::plugin::events::{relative_path_problem, validate_plugin_relative_path};
use crate::plugin::protocol::{PluginError, PluginErrorKind, PluginErrorView};
use crate::text::{
    concat2, concat3, concat4, drop_leading, find_char, first_at, has_prefix, parse_unsigned,
    pieces, same, split_on, split_words, texts, trim, trimmed, unsigned_value, without_leading,
    words,
};
use vstd::prelude::*;
use vstd::string::*;

verus! {

/// The index of runtime builds that the host downloads.
#[derive(Clone, Debug, Eq, PartialEq)]
pub struct WasmRuntimeIndex {
    pub schema_version: u32,
    pub generated_at: Option<String>,
    pub runtimes: Vec<WasmRuntimeDescriptor>,
}

/// One installable runtime build.
#[derive(Clone, Debug, Eq, PartialEq)]
pub struct WasmRuntimeDescriptor {
    pub name: String,
    pub version: String,
    pub runtime_channel: String,
    pub supports: WasmRuntimeSupport,
    pub assets: Vec<WasmRuntimeAsset>,
}

/// The hosts that a runtime build can serve.
#[derive(Clone, Debug, Eq, PartialEq)]
pub struct WasmRuntimeSupport {
    pub hapcli_channels: Vec<WasmRuntimeHostChannel>,
    pub hapcli_versions: Vec<String>,
    pub plugin_protocol: Vec<u32>,
    pub wasm_guest_abi: Vec<u32>,
    pub wasi: Vec<String>,
}

/// The update channel of the host.
#[derive(Clone, Copy, Debug, Eq, Hash, PartialEq, Structural)]
pub enum WasmRuntimeHostChannel {
    Stable,
    Beta,
    GpuiPreview,
}

/// The artifact of a build for one target.
#[derive(Clone, Debug, Eq, PartialEq)]
pub struct WasmRuntimeAsset {
    pub target: String,
    pub url: String,
    pub sha256: String,
    pub signature: Option<String>,
}

/// One dot-separated part of a prerelease tag.
pub enum PrereleasePart {
    Numeric(u64),
    Text(String),
}

pub enum PartView {
    Numeric(nat),
    Text(Seq<char>),
}

impl View for PrereleasePart {
    type V = PartView;

    open spec fn view(&self) -> PartView {
        match self {
            PrereleasePart::Numeric(n) => PartView::Numeric(*n as nat),
            PrereleasePart::Text(text) => PartView::Text(text@),
        }
    }
}

/// A version: the numbers of its core and, for a prerelease, the parts of its tag.
pub struct ParsedVersion {
    pub core: Vec<u64>,
    pub prerelease: Option<Vec<PrereleasePart>>,
}

pub struct VersionView {
    pub core: Seq<nat>,
    pub prerelease: Option<Seq<PartView>>,
}

pub open spec fn number_views(numbers: Seq<u64>) -> Seq<nat> {
    Seq::new(numbers.len(), |i: int| numbers[i] as nat)
}

pub open spec fn part_views(parts: Seq<PrereleasePart>) -> Seq<PartView> {
    Seq::new(parts.len(), |i: int| parts[i]@)
}

impl View for ParsedVersion {
    type V = VersionView;

    open spec fn view(&self) -> VersionView {
        VersionView {
            core: number_views(self.core@),
            prerelease: match self.prerelease {
                Some(parts) => Some(part_views(parts@)),
                None => None,
            },
        }
    }
}

/// The number that a text writes, where it fits 64 bits.
pub open spec fn number_of(text: Seq<char>) -> Option<nat> {
    match unsigned_value(text) {
        Some(n) => if n <= u64::MAX {
            Some(n)
        } else {
            None
        },
        None => None,
    }
}

/// The part that a text stands for: a number where it writes one.
pub open spec fn part_of(text: Seq<char>) -> PartView {
    match number_of(text) {
        Some(n) => PartView::Numeric(n),
        None => PartView::Text(text),
    }
}

pub open spec fn all_numbers(parts: Seq<Seq<char>>) -> bool {
    forall|i: int| 0 <= i < parts.len() ==> number_of(#[trigger] parts[i]) is Some
}

pub open spec fn numbers_of(parts: Seq<Seq<char>>) -> Seq<nat> {
    Seq::new(parts.len(), |i: int| number_of(parts[i])->0)
}

pub open spec fn parts_of(parts: Seq<Seq<char>>) -> Seq<PartView> {
    Seq::new(parts.len(), |i: int| part_of(parts[i]))
}

/// A version text without white space around it, leading `v`s and build metadata.
pub open spec fn bare_version(raw: Seq<char>) -> Seq<char> {
    let head = without_leading(trimmed(raw), 'v');
    head.take(first_at(head, '+') as int)
}

/// The version that a text writes: numbers parted by dots, then a prerelease tag behind a dash.
pub open spec fn version_of(raw: Seq<char>) -> Option<VersionView> {
    let bare = bare_version(raw);
    let dash = first_at(bare, '-') as int;
    let core = pieces(bare.take(dash), '.');
    if !all_numbers(core) {
        None
    } else {
        Some(
            VersionView {
                core: numbers_of(core),
                prerelease: if dash < bare.len() {
                    Some(parts_of(pieces(bare.skip(dash + 1), '.')))
                } else {
                    None
                },
            },
        )
    }
}

fn parse_core(parts: &Vec<String>) -> (r: Option<Vec<u64>>)
    ensures
        match r {
            Some(numbers) => all_numbers(texts(parts@)) && number_views(numbers@) == numbers_of(
                texts(parts@),
            ),
            None => !all_numbers(texts(parts@)),
        },
{
    let mut numbers: Vec<u64> = Vec::new();
    let mut i: usize = 0;
    while i < parts.len()
        invariant
            i <= parts.len(),
            numbers@.len() == i,
            forall|j: int| 0 <= j < i ==> number_of(#[trigger] texts(parts@)[j]) is Some,
            forall|j: int| 0 <= j < i ==> number_of(texts(parts@)[j]) == Some(numbers@[j] as nat),
        decreases parts.len() - i,
    {
        match parse_unsigned(parts[i].as_str(), u64::MAX) {
            None => {
                assert(number_of(texts(parts@)[i as int]) is None);
                return None;
            },
            Some(n) => {
                numbers.push(n);
            },
        }
        i = i + 1;
    }
    assert(number_views(numbers@) =~= numbers_of(texts(parts@)));
    Some(numbers)
}

fn parse_parts(texts_in: &Vec<String>) -> (r: Vec<PrereleasePart>)
    ensures
        part_views(r@) == parts_of(texts(texts_in@)),
{
    let mut parts: Vec<PrereleasePart> = Vec::new();
    let mut i: usize = 0;
    while i < texts_in.len()
        invariant
            i <= texts_in.len(),
            parts@.len() == i,
            forall|j: int| 0 <= j < i ==> (#[trigger] parts@[j])@ == part_of(texts_in@[j]@),
        decreases texts_in.len() - i,
    {
        let text = texts_in[i].as_str();
        match parse_unsigned(text, u64::MAX) {
            Some(n) => parts.push(PrereleasePart::Numeric(n)),
            None => parts.push(PrereleasePart::Text(text.to_owned())),
        }
        i = i + 1;
    }
    assert(part_views(parts@) =~= parts_of(texts(texts_in@)));
    parts
}

impl ParsedVersion {
    pub fn parse(raw: &str) -> (r: Option<ParsedVersion>)
        ensures
            match r {
                Some(version) => version_of(raw@) == Some(version@),
                None => version_of(raw@) is None,
            },
    {
        let head = drop_leading(trim(raw), 'v');
        let total: usize = head.unicode_len();
        let end: usize = match find_char(head, '+') {
            Some(at) => at,
            None => total,
        };
        let bare = head.substring_char(0, end);
        assert(bare@ == bare_version(raw@));
        let dash = find_char(bare, '-');
        let core_end: usize = match dash {
            Some(at) => at,
            None => end,
        };
        let core_text = bare.substring_char(0, core_end);
        assert(core_text@ == bare@.take(first_at(bare@, '-') as int));
        let core_parts = split_on(core_text, '.');
        let core = match parse_core(&core_parts) {
            None => return None,
            Some(core) => core,
        };
        let prerelease = match dash {
            None => None,
            Some(at) => {
                let tag = bare.substring_char(at + 1, end);
                assert(tag@ == bare@.skip(at + 1));
                let tag_parts = split_on(tag, '.');
                Some(parse_parts(&tag_parts))
            },
        };
        Some(ParsedVersion { core, prerelease })
    }

    /// How this version stands to another.
    pub fn compare(&self, other: &ParsedVersion) -> (r: Order)
        ensures
            r == version_order(self@, other@),
    {
        let core = compare_core(&self.core, &other.core);
        match core {
            Order::Equal => match (&self.prerelease, &other.prerelease) {
                (None, None) => Order::Equal,
                (None, Some(_)) => Order::Greater,
                (Some(_), None) => Order::Less,
                (Some(left), Some(right)) => compare_prerelease(left, right),
            },
            _ => core,
        }
    }
}

/// The number at the front, 0 where there is none.
pub open spec fn front(numbers: Seq<nat>) -> nat {
    if numbers.len() > 0 {
        numbers[0]
    } else {
        0
    }
}

pub open spec fn behind_front(numbers: Seq<nat>) -> Seq<nat> {
    if numbers.len() > 0 {
        numbers.drop_first()
    } else {
        numbers
    }
}

/// The order of cores: number by number, missing numbers count as 0.
pub open spec fn core_order(a: Seq<nat>, b: Seq<nat>) -> Order
    decreases a.len() + b.len(),
{
    if a.len() == 0 && b.len() == 0 {
        Order::Equal
    } else if front(a) != front(b) {
        int_order(front(a) as int, front(b) as int)
    } else {
        core_order(behind_front(a), behind_front(b))
    }
}

/// The order of prerelease parts: numbers come before texts.
pub open spec fn part_order(a: PartView, b: PartView) -> Order {
    match (a, b) {
        (PartView::Numeric(x), PartView::Numeric(y)) => int_order(x as int, y as int),
        (PartView::Numeric(_), PartView::Text(_)) => Order::Less,
        (PartView::Text(_), PartView::Numeric(_)) => Order::Greater,
        (PartView::Text(x), PartView::Text(y)) => text_order(x, y),
    }
}

pub open spec fn by_part() -> spec_fn(PartView, PartView) -> Order {
    |x: PartView, y: PartView| part_order(x, y)
}

pub open spec fn prerelease_order(a: Seq<PartView>, b: Seq<PartView>) -> Order {
    lex_order(a, b, by_part())
}

/// The order of versions: by their cores; a release comes behind its prereleases.
pub open spec fn version_order(a: VersionView, b: VersionView) -> Order {
    if core_order(a.core, b.core) != Order::Equal {
        core_order(a.core, b.core)
    } else {
        match (a.prerelease, b.prerelease) {
            (None, None) => Order::Equal,
            (None, Some(_)) => Order::Greater,
            (Some(_), None) => Order::Less,
            (Some(x), Some(y)) => prerelease_order(x, y),
        }
    }
}

fn compare_core(a: &Vec<u64>, b: &Vec<u64>) -> (r: Order)
    ensures
        r == core_order(number_views(a@), number_views(b@)),
{
    let ghost x = number_views(a@);
    let ghost y = number_views(b@);
    let mut i: usize = 0;
    assert(from_at(x, 0) == x);
    assert(from_at(y, 0) == y);
    while i < a.len() || i < b.len()
        invariant
            x == number_views(a@),
            y == number_views(b@),
            core_order(from_at(x, i as int), from_at(y, i as int)) == core_order(x, y),
            i <= a.len() || i <= b.len(),
        decreases a.len() + b.len() - i,
    {
        let left: u64 = if i < a.len() {
            a[i]
        } else {
            0
        };
        let right: u64 = if i < b.len() {
            b[i]
        } else {
            0
        };
        assert(front(from_at(x, i as int)) == left);
        assert(front(from_at(y, i as int)) == right);
        assert(behind_front(from_at(x, i as int)) == from_at(x, i + 1));
        assert(behind_front(from_at(y, i as int)) == from_at(y, i + 1));
        let order = compare_numbers(left, right);
        match order {
            Order::Equal => {},
            _ => return order,
        }
        i = i + 1;
    }
    assert(from_at(x, i as int).len() == 0 && from_at(y, i as int).len() == 0);
    Order::Equal
}

/// The numbers from position `i` on.
pub open spec fn from_at(numbers: Seq<nat>, i: int) -> Seq<nat> {
    if i <= numbers.len() {
        numbers.skip(i)
    } else {
        Seq::empty()
    }
}

fn compare_part(a: &PrereleasePart, b: &PrereleasePart) -> (r: Order)
    ensures
        r == part_order(a@, b@),
{
    match (a, b) {
        (PrereleasePart::Numeric(x), PrereleasePart::Numeric(y)) => compare_numbers(*x, *y),
        (PrereleasePart::Numeric(_), PrereleasePart::Text(_)) => Order::Less,
        (PrereleasePart::Text(_), PrereleasePart::Numeric(_)) => Order::Greater,
        (PrereleasePart::Text(x), PrereleasePart::Text(y)) => compare_text(x.as_str(), y.as_str()),
    }
}

pub fn compare_prerelease(left: &Vec<PrereleasePart>, right: &Vec<PrereleasePart>) -> (r: Order)
    ensures
        r == prerelease_order(part_views(left@), part_views(right@)),
{
    let ghost x = part_views(left@);
    let ghost y = part_views(right@);
    let mut i: usize = 0;
    assert(x.skip(0) == x);
    assert(y.skip(0) == y);
    while i < left.len() && i < right.len()
        invariant
            i <= left.len(),
            i <= right.len(),
            x == part_views(left@),
            y == part_views(right@),
            prerelease_order(x.skip(i as int), y.skip(i as int)) == prerelease_order(x, y),
        decreases left.len() - i,
    {
        assert(x.skip(i as int)[0] == left@[i as int]@);
        assert(y.skip(i as int)[0] == right@[i as int]@);
        assert(x.skip(i as int).drop_first() == x.skip(i + 1));
        assert(y.skip(i as int).drop_first() == y.skip(i + 1));
        let order = compare_part(&left[i], &right[i]);
        match order {
            Order::Equal => {},
            _ => return order,
        }
        i = i + 1;
    }
    if i < left.len() {
        Order::Greater
    } else if i < right.len() {
        Order::Less
    } else {
        Order::Equal
    }
}

/// What a comparator allows.
pub enum VersionBound {
    AtLeast,
    AtMost,
    Above,
    Below,
    Exactly,
}

/// The bound that a comparator starts with, and how many characters write it.
pub open spec fn bound_of(comparator: Seq<char>) -> (VersionBound, int) {
    if ">="@.is_prefix_of(comparator) {
        (VersionBound::AtLeast, 2)
    } else if "<="@.is_prefix_of(comparator) {
        (VersionBound::AtMost, 2)
    } else if ">"@.is_prefix_of(comparator) {
        (VersionBound::Above, 1)
    } else if "<"@.is_prefix_of(comparator) {
        (VersionBound::Below, 1)
    } else if "="@.is_prefix_of(comparator) {
        (VersionBound::Exactly, 1)
    } else {
        (VersionBound::Exactly, 0)
    }
}

/// Whether a comparison result keeps within a bound.
pub open spec fn within(bound: VersionBound, order: Order) -> bool {
    match bound {
        VersionBound::AtLeast => order != Order::Less,
        VersionBound::AtMost => order != Order::Greater,
        VersionBound::Above => order == Order::Greater,
        VersionBound::Below => order == Order::Less,
        VersionBound::Exactly => order == Order::Equal,
    }
}

/// Whether a version meets one comparator, such as `>=2.0.0`.
pub open spec fn meets_comparator(version: VersionView, comparator: Seq<char>) -> bool {
    let (bound, width) = bound_of(comparator);
    match version_of(comparator.skip(width)) {
        Some(expected) => within(bound, version_order(version, expected)),
        None => false,
    }
}

fn read_bound(comparator: &str) -> (r: (VersionBound, usize))
    ensures
        r.0 == bound_of(comparator@).0,
        r.1 == bound_of(comparator@).1,
        r.1 <= comparator@.len(),
{
    proof {
        reveal_strlit(">=");
        reveal_strlit("<=");
        reveal_strlit(">");
        reveal_strlit("<");
        reveal_strlit("=");
    }
    if has_prefix(comparator, ">=") {
        (VersionBound::AtLeast, 2)
    } else if has_prefix(comparator, "<=") {
        (VersionBound::AtMost, 2)
    } else if has_prefix(comparator, ">") {
        (VersionBound::Above, 1)
    } else if has_prefix(comparator, "<") {
        (VersionBound::Below, 1)
    } else if has_prefix(comparator, "=") {
        (VersionBound::Exactly, 1)
    } else {
        (VersionBound::Exactly, 0)
    }
}

pub fn comparator_matches(version: &ParsedVersion, comparator: &str) -> (r: bool)
    ensures
        r == meets_comparator(version@, comparator@),
{
    let (bound, width) = read_bound(comparator);
    let total: usize = comparator.unicode_len();
    let rest = comparator.substring_char(width, total);
    assert(rest@ == comparator@.skip(width as int));
    match ParsedVersion::parse(rest) {
        None => false,
        Some(expected) => {
            let order = version.compare(&expected);
            match bound {
                VersionBound::AtLeast => order != Order::Less,
                VersionBound::AtMost => order != Order::Greater,
                VersionBound::Above => order == Order::Greater,
                VersionBound::Below => order == Order::Less,
                VersionBound::Exactly => order == Order::Equal,
            }
        },
    }
}

/// Whether a version text meets all comparators of a requirement.
pub open spec fn meets_requirement(version: Seq<char>, requirement: Seq<char>) -> bool {
    match version_of(version) {
        Some(version) => forall|i: int|
            0 <= i < words(requirement).len() ==> meets_comparator(
                version,
                #[trigger] words(requirement)[i],
            ),
        None => false,
    }
}

pub fn version_matches_requirement(version: &str, requirement: &str) -> (r: bool)
    ensures
        r == meets_requirement(version@, requirement@),
{
    let parsed = match ParsedVersion::parse(version) {
        None => return false,
        Some(parsed) => parsed,
    };
    let comparators = split_words(requirement);
    let mut i: usize = 0;
    while i < comparators.len()
        invariant
            i <= comparators.len(),
            texts(comparators@) == words(requirement@),
            version_of(version@) == Some(parsed@),
            forall|j: int|
                0 <= j < i ==> meets_comparator(parsed@, #[trigger] words(requirement@)[j]),
        decreases comparators.len() - i,
    {
        assert(words(requirement@)[i as int] == comparators@[i as int]@);
        if !comparator_matches(&parsed, comparators[i].as_str()) {
            return false;
        }
        i = i + 1;
    }
    true
}

/// Whether the build serves the host: its channel, one of its version requirements, its plugin
/// protocol, its guest interface and its WASI version.
pub open spec fn serves(
    support: WasmRuntimeSupport,
    channel: WasmRuntimeHostChannel,
    version: Seq<char>,
    protocol: u32,
    abi: u32,
    wasi: Seq<char>,
) -> bool {
    &&& support.hapcli_channels@.contains(channel)
    &&& exists|i: int|
        0 <= i < support.hapcli_versions@.len() && meets_requirement(
            version,
            (#[trigger] support.hapcli_versions@[i])@,
        )
    &&& support.plugin_protocol@.contains(protocol)
    &&& support.wasm_guest_abi@.contains(abi)
    &&& texts(support.wasi@).contains(wasi)
}

fn holds_number(numbers: &Vec<u32>, number: u32) -> (r: bool)
    ensures
        r == numbers@.contains(number),
{
    let mut i: usize = 0;
    while i < numbers.len()
        invariant
            i <= numbers.len(),
            forall|j: int| 0 <= j < i ==> numbers@[j] != number,
        decreases numbers.len() - i,
    {
        if numbers[i] == number {
            return true;
        }
        i = i + 1;
    }
    false
}

fn holds_channel(channels: &Vec<WasmRuntimeHostChannel>, channel: WasmRuntimeHostChannel) -> (r: bool)
    ensures
        r == channels@.contains(channel),
{
    let mut i: usize = 0;
    while i < channels.len()
        invariant
            i <= channels.len(),
            forall|j: int| 0 <= j < i ==> channels@[j] != channel,
        decreases channels.len() - i,
    {
        if channels[i] == channel {
            return true;
        }
        i = i + 1;
    }
    false
}

fn holds_text(list: &Vec<String>, text: &str) -> (r: bool)
    ensures
        r == texts(list@).contains(text@),
{
    let mut i: usize = 0;
    while i < list.len()
        invariant
            i <= list.len(),
            forall|j: int| 0 <= j < i ==> list@[j]@ != text@,
        decreases list.len() - i,
    {
        if same(list[i].as_str(), text) {
            assert(texts(list@)[i as int] == text@);
            return true;
        }
        i = i + 1;
    }
    assert forall|j: int| 0 <= j < texts(list@).len() implies texts(list@)[j] != text@ by {
        assert(list@[j]@ != text@);
    }
    false
}

fn meets_one_of(version: &str, requirements: &Vec<String>) -> (r: bool)
    ensures
        r == exists|i: int|
            0 <= i < requirements@.len() && meets_requirement(
                version@,
                (#[trigger] requirements@[i])@,
            ),
{
    let mut i: usize = 0;
    while i < requirements.len()
        invariant
            i <= requirements.len(),
            forall|j: int|
                0 <= j < i ==> !meets_requirement(version@, (#[trigger] requirements@[j])@),
        decreases requirements.len() - i,
    {
        if version_matches_requirement(version, requirements[i].as_str()) {
            return true;
        }
        i = i + 1;
    }
    false
}

impl WasmRuntimeDescriptor {
    /// Whether this build can serve the host with its plugin and guest interfaces.
    pub fn supports_host(
        &self,
        host_channel: WasmRuntimeHostChannel,
        host_version: &str,
        plugin_protocol: u32,
        wasm_guest_abi: u32,
        wasi: &str,
    ) -> (r: bool)
        ensures
            r == serves(
                self.supports,
                host_channel,
                host_version@,
                plugin_protocol,
                wasm_guest_abi,
                wasi@,
            ),
    {
        holds_channel(&self.supports.hapcli_channels, host_channel) && meets_one_of(
            host_version,
            &self.supports.hapcli_versions,
        ) && holds_number(&self.supports.plugin_protocol, plugin_protocol) && holds_number(
            &self.supports.wasm_guest_abi,
            wasm_guest_abi,
        ) && holds_text(&self.supports.wasi, wasi)
    }
}

/// The bytes that a WASM module starts with.
pub open spec fn is_wasm_module(bytes: Seq<u8>) -> bool {
    bytes.len() >= 4 && bytes[0] == 0 && bytes[1] == 0x61 && bytes[2] == 0x73 && bytes[3] == 0x6d
}

pub open spec fn wasm_error(
    kind: PluginErrorKind,
    code: Seq<char>,
    message: Seq<char>,
) -> PluginErrorView {
    PluginErrorView { kind, code, message }
}

/// The module of a WASM plugin: `plugin_dir` and `module` are the resolved paths and `bytes` the
/// contents of the module, or the reasons why they could not be had.
pub open spec fn wasm_entry(
    entry: Seq<char>,
    plugin_dir: Result<LocalPath, String>,
    module: Result<LocalPath, String>,
    bytes: Result<Vec<u8>, String>,
) -> Result<Seq<Seq<char>>, PluginErrorView> {
    match relative_path_problem(entry) {
        Some(message) => Err(
            wasm_error(
                PluginErrorKind::Protocol,
                "invalid_wasm_entry"@,
                "Invalid runtime entry: "@ + message,
            ),
        ),
        None => match plugin_dir {
            Err(reason) => Err(
                wasm_error(
                    PluginErrorKind::Runtime,
                    "plugin_dir_unavailable"@,
                    "Cannot resolve plugin directory: "@ + reason@,
                ),
            ),
            Ok(dir) => match module {
                Err(reason) => Err(
                    wasm_error(
                        PluginErrorKind::Runtime,
                        "wasm_entry_unavailable"@,
                        "Cannot resolve native plugin wasm entry \""@ + entry + "\": "@ + reason@,
                    ),
                ),
                Ok(file) => if !dir@.is_prefix_of(file@) {
                    Err(
                        wasm_error(
                            PluginErrorKind::Protocol,
                            "wasm_entry_escapes_plugin_dir"@,
                            "Native plugin wasm entry \""@ + entry
                                + "\" resolves outside plugin directory"@,
                        ),
                    )
                } else {
                    match bytes {
                        Err(reason) => Err(
                            wasm_error(
                                PluginErrorKind::Runtime,
                                "wasm_entry_unreadable"@,
                                "Cannot read native plugin WASM entry \""@ + entry + "\": "@
                                    + reason@,
                            ),
                        ),
                        Ok(bytes) => if is_wasm_module(bytes@) {
                            Ok(file@)
                        } else {
                            Err(
                                wasm_error(
                                    PluginErrorKind::Protocol,
                                    "wasm_entry_invalid_magic"@,
                                    "Native plugin WASM entry \""@ + entry
                                        + "\" is not a WebAssembly module"@,
                                ),
                            )
                        },
                    }
                },
            },
        },
    }
}

pub fn resolve_wasm_runtime_entry(
    entry: &str,
    plugin_dir: Result<LocalPath, String>,
    module: Result<LocalPath, String>,
    bytes: Result<Vec<u8>, String>,
) -> (r: Result<LocalPath, PluginError>)
    ensures
        match r {
            Ok(path) => wasm_entry(entry@, plugin_dir, module, bytes) == Ok::<
                Seq<Seq<char>>,
                PluginErrorView,
            >(path@),
            Err(error) => wasm_entry(entry@, plugin_dir, module, bytes) == Err::<
                Seq<Seq<char>>,
                PluginErrorView,
            >(error@),
        },
{
    match validate_plugin_relative_path(entry) {
        Err(message) => return Err(
            PluginError::protocol(
                "invalid_wasm_entry",
                concat2("Invalid runtime entry: ", message.as_str()),
            ),
        ),
        Ok(()) => {},
    }
    let dir = match plugin_dir {
        Err(reason) => return Err(
            PluginError::runtime(
                "plugin_dir_unavailable",
                concat2("Cannot resolve plugin directory: ", reason.as_str()),
            ),
        ),
        Ok(dir) => dir,
    };
    let file = match module {
        Err(reason) => return Err(
            PluginError::runtime(
                "wasm_entry_unavailable",
                concat4(
                    "Cannot resolve native plugin wasm entry \"",
                    entry,
                    "\": ",
                    reason.as_str(),
                ),
            ),
        ),
        Ok(file) => file,
    };
    if !file.starts_with(&dir) {
        return Err(
            PluginError::protocol(
                "wasm_entry_escapes_plugin_dir",
                concat3(
                    "Native plugin wasm entry \"",
                    entry,
                    "\" resolves outside plugin directory",
                ),
            ),
        );
    }
    let content = match bytes {
        Err(reason) => return Err(
            PluginError::runtime(
                "wasm_entry_unreadable",
                concat4(
                    "Cannot read native plugin WASM entry \"",
                    entry,
                    "\": ",
                    reason.as_str(),
                ),
            ),
        ),
        Ok(content) => content,
    };
    if content.len() >= 4 && content[0] == 0 && content[1] == 0x61 && content[2] == 0x73
        && content[3] == 0x6d {
        Ok(file)
    } else {
        Err(
            PluginError::protocol(
                "wasm_entry_invalid_magic",
                concat3(
                    "Native plugin WASM entry \"",
                    entry,
                    "\" is not a WebAssembly module",
                ),
            ),
        )
    }
}

proof fn lemma_text_order_is_order()
    ensures
        is_order(crate::order::by_code()),
{
}

proof fn lemma_part_order_is_order()
    ensures
        is_order(by_part()),
{
    lemma_text_order_is_order();
    assert forall|x: PartView, y: PartView| #[trigger] by_part()(x, y) == flipped(
        by_part()(y, x),
    ) by {
        if x is Text && y is Text {
            lemma_lex_flips(x->Text_0, y->Text_0, crate::order::by_code());
        }
    }
    assert forall|x: PartView, y: PartView, z: PartView|
        #[trigger] by_part()(x, y) != Order::Greater && #[trigger] by_part()(y, z)
            != Order::Greater implies by_part()(x, z) != Order::Greater by {
        if x is Text && y is Text && z is Text {
            lemma_lex_transitive(x->Text_0, y->Text_0, z->Text_0, crate::order::by_code());
        }
    }
}

proof fn lemma_core_order(a: Seq<nat>, b: Seq<nat>)
    ensures
        core_order(a, b) == flipped(core_order(b, a)),
    decreases a.len() + b.len(),
{
    if a.len() > 0 || b.len() > 0 {
        lemma_core_order(behind_front(a), behind_front(b));
    }
}

proof fn lemma_core_transitive(a: Seq<nat>, b: Seq<nat>, c: Seq<nat>)
    requires
        core_order(a, b) != Order::Greater,
        core_order(b, c) != Order::Greater,
    ensures
        core_order(a, c) != Order::Greater,
        core_order(a, c) == Order::Equal ==> core_order(a, b) == Order::Equal && core_order(b, c)
            == Order::Equal,
    decreases a.len() + b.len() + c.len(),
{
    if a.len() > 0 || b.len() > 0 || c.len() > 0 {
        assert(front(a) <= front(b) <= front(c)) by {
            if a.len() > 0 || b.len() > 0 {
                assert(core_order(a, b) == if front(a) != front(b) {
                    int_order(front(a) as int, front(b) as int)
                } else {
                    core_order(behind_front(a), behind_front(b))
                });
            }
            if b.len() > 0 || c.len() > 0 {
                assert(core_order(b, c) == if front(b) != front(c) {
                    int_order(front(b) as int, front(c) as int)
                } else {
                    core_order(behind_front(b), behind_front(c))
                });
            }
        }
        if front(a) == front(c) {
            lemma_core_transitive(behind_front(a), behind_front(b), behind_front(c));
        }
    }
}

/// Exchanging two versions exchanges how they compare; in particular a version equals itself.
pub proof fn law_version_order_flips(a: VersionView, b: VersionView)
    ensures
        version_order(a, b) == flipped(version_order(b, a)),
        version_order(a, a) == Order::Equal,
{
    lemma_part_order_is_order();
    lemma_core_order(a.core, b.core);
    lemma_core_order(a.core, a.core);
    if a.prerelease is Some {
        lemma_lex_flips(a.prerelease->0, a.prerelease->0, by_part());
        if b.prerelease is Some {
            lemma_lex_flips(a.prerelease->0, b.prerelease->0, by_part());
        }
    }
}

/// The order of versions is transitive.
pub proof fn law_version_order_transitive(a: VersionView, b: VersionView, c: VersionView)
    requires
        version_order(a, b) != Order::Greater,
        version_order(b, c) != Order::Greater,
    ensures
        version_order(a, c) != Order::Greater,
{
    lemma_part_order_is_order();
    lemma_core_transitive(a.core, b.core, c.core);
    if a.prerelease is Some && b.prerelease is Some && c.prerelease is Some && core_order(
        a.core,
        c.core,
    ) == Order::Equal {
        lemma_lex_transitive(a.prerelease->0, b.prerelease->0, c.prerelease->0, by_part());
    }
}

/// A release comes behind every prerelease of the same core.
pub proof fn law_release_behind_prerelease(core: Seq<nat>, tag: Seq<PartView>)
    ensures
        version_order(
            VersionView { core, prerelease: Some(tag) },
            VersionView { core, prerelease: None },
        ) == Order::Less,
{
    lemma_core_order(core, core);
}

/// The first number in which two cores differ decides; missing numbers are zeros.
pub proof fn law_the_first_number_decides(head: Seq<nat>, a: Seq<nat>, b: Seq<nat>)
    requires
        front(a) != front(b),
    ensures
        front(a) < front(b) ==> core_order(head + a, head + b) == Order::Less,
        front(a) > front(b) ==> core_order(head + a, head + b) == Order::Greater,
    decreases head.len(),
{
    if head.len() == 0 {
        assert(head + a =~= a);
        assert(head + b =~= b);
    } else {
        law_the_first_number_decides(head.drop_first(), a, b);
        assert((head + a).drop_first() =~= head.drop_first() + a);
        assert((head + b).drop_first() =~= head.drop_first() + b);
        assert((head + a)[0] == head[0] && (head + b)[0] == head[0]);
    }
}

/// Zeros behind a core do not count.
pub proof fn law_trailing_zeros_do_not_count(core: Seq<nat>)
    ensures
        core_order(core.push(0), core) == Order::Equal,
        core_order(core, core) == Order::Equal,
    decreases core.len(),
{
    if core.len() == 0 {
        assert(core.push(0).drop_first() =~= core);
        assert(front(core.push(0)) == 0);
        assert(core_order(core, core) == Order::Equal);
        assert(behind_front(core.push(0)) == core);
        assert(behind_front(core) == core);
    } else {
        law_trailing_zeros_do_not_count(core.drop_first());
        assert(core.push(0).drop_first() =~= core.drop_first().push(0));
        assert(core.push(0)[0] == core[0]);
    }
}

/// In a tag numbers are compared as numbers and texts as texts; a number comes before a text.
pub proof fn law_parts_of_tags_are_compared(x: nat, y: nat, s: Seq<char>, t: Seq<char>)
    ensures
        x < y ==> part_order(PartView::Numeric(x), PartView::Numeric(y)) == Order::Less,
        x > y ==> part_order(PartView::Numeric(x), PartView::Numeric(y)) == Order::Greater,
        x == y ==> part_order(PartView::Numeric(x), PartView::Numeric(y)) == Order::Equal,
        part_order(PartView::Numeric(x), PartView::Text(s)) == Order::Less,
        part_order(PartView::Text(s), PartView::Numeric(x)) == Order::Greater,
        part_order(PartView::Text(s), PartView::Text(t)) == text_order(s, t),
{
}

/// What each comparator lets through.
pub proof fn law_comparators_mean_what_they_say(
    rest: Seq<char>,
    version: VersionView,
    expected: VersionView,
)
    requires
        version_of(rest) == Some(expected),
        rest.len() > 0,
        rest[0] != '=' && rest[0] != '<' && rest[0] != '>',
    ensures
        meets_comparator(version, seq!['>', '='] + rest) == (version_order(version, expected)
            != Order::Less),
        meets_comparator(version, seq!['<', '='] + rest) == (version_order(version, expected)
            != Order::Greater),
        meets_comparator(version, seq!['>'] + rest) == (version_order(version, expected)
            == Order::Greater),
        meets_comparator(version, seq!['<'] + rest) == (version_order(version, expected)
            == Order::Less),
        meets_comparator(version, seq!['='] + rest) == (version_order(version, expected)
            == Order::Equal),
        meets_comparator(version, rest) == (version_order(version, expected) == Order::Equal),
{
    reveal_strlit(">=");
    reveal_strlit("<=");
    reveal_strlit(">");
    reveal_strlit("<");
    reveal_strlit("=");
    let ge = seq!['>', '='] + rest;
    let le = seq!['<', '='] + rest;
    let gt = seq!['>'] + rest;
    let lt = seq!['<'] + rest;
    let eq = seq!['='] + rest;
    assert(ge.subrange(0, 2) =~= ">="@);
    assert(le.subrange(0, 2) =~= "<="@);
    assert(gt.subrange(0, 1) =~= ">"@);
    assert(lt.subrange(0, 1) =~= "<"@);
    assert(eq.subrange(0, 1) =~= "="@);
    assert(ge.skip(2) =~= rest);
    assert(le.skip(2) =~= rest);
    assert(gt.skip(1) =~= rest);
    assert(lt.skip(1) =~= rest);
    assert(eq.skip(1) =~= rest);
    assert(rest.skip(0) =~= rest);
    assert(!(">="@).is_prefix_of(le)) by {
        assert(le.subrange(0, 2)[0] == '<');
    }
    assert(!(">="@).is_prefix_of(gt)) by {
        assert(gt.subrange(0, 2)[1] == rest[0]);
    }
    assert(!("<="@).is_prefix_of(gt)) by {
        assert(gt.subrange(0, 2)[0] == '>');
    }
    assert(!(">="@).is_prefix_of(lt)) by {
        assert(lt.subrange(0, 2)[0] == '<');
    }
    assert(!("<="@).is_prefix_of(lt)) by {
        assert(lt.subrange(0, 2)[1] == rest[0]);
    }
    assert(!(">"@).is_prefix_of(lt)) by {
        assert(lt.subrange(0, 1)[0] == '<');
    }
    assert(!(">="@).is_prefix_of(eq)) by {
        assert(eq.subrange(0, 2)[0] == '=');
    }
    assert(!("<="@).is_prefix_of(eq)) by {
        assert(eq.subrange(0, 2)[0] == '=');
    }
    assert(!(">"@).is_prefix_of(eq)) by {
        assert(eq.subrange(0, 1)[0] == '=');
    }
    assert(!("<"@).is_prefix_of(eq)) by {
        assert(eq.subrange(0, 1)[0] == '=');
    }
    assert(!(">="@).is_prefix_of(rest) && !("<="@).is_prefix_of(rest)) by {
        if rest.len() >= 2 {
            assert(rest.subrange(0, 2)[0] == rest[0]);
        }
    }
    assert(!(">"@).is_prefix_of(rest) && !("<"@).is_prefix_of(rest) && !("="@).is_prefix_of(
        rest,
    )) by {
        assert(rest.subrange(0, 1)[0] == rest[0]);
    }
}

/// A requirement is met where each of its comparators is, and never by what is no version.
pub proof fn law_requirements_are_met_in_full(
    version: Seq<char>,
    requirement: Seq<char>,
    i: int,
)
    ensures
        version_of(version) is None ==> !meets_requirement(version, requirement),
        version_of(version) matches Some(read) ==> (words(requirement).len() == 0
            ==> meets_requirement(version, requirement)),
        version_of(version) matches Some(read) ==> (0 <= i < words(requirement).len()
            && !meets_comparator(read, words(requirement)[i]) ==> !meets_requirement(
            version,
            requirement,
        )),
        version_of(version) matches Some(read) ==> (words(requirement).len() == 1
            ==> meets_requirement(version, requirement) == meets_comparator(
            read,
            words(requirement)[0],
        )),
{
}

/// A version is read without white space and a leading `v`, and without what follows a plus.
pub proof fn law_build_metadata_does_not_count(core: Seq<char>, build: Seq<char>)
    requires
        !core.contains('+'),
        core.len() > 0,
        core[0] != 'v',
        trimmed(core) == core,
        trimmed(seq!['v'] + core) == seq!['v'] + core,
        trimmed(core.push('+') + build) == core.push('+') + build,
    ensures
        bare_version(core) == core,
        bare_version(seq!['v'] + core) == core,
        bare_version(core.push('+') + build) == core,
        version_of(core.push('+') + build) == version_of(core),
        version_of(seq!['v'] + core) == version_of(core),
{
    assert((seq!['v'] + core).drop_first() =~= core);
    assert forall|j: int| 0 <= j < core.len() implies core[j] != '+' by {
        assert(core.contains(core[j]));
    }
    crate::text::lemma_first_at(core, '+', core.len() as int);
    assert(core.take(core.len() as int) =~= core);
    let longer = core.push('+') + build;
    assert forall|j: int| 0 <= j < core.len() implies longer[j] != '+' by {
        assert(longer[j] == core[j]);
    }
    crate::text::lemma_first_at(longer, '+', core.len() as int);
    assert(longer.take(core.len() as int) =~= core);
    assert(longer[0] == core[0]);
}

/// A version of two numbers, with or without a tag, is read as these numbers and that tag.
pub proof fn law_versions_are_read(first: nat, second: nat, tag: Seq<char>)
    requires
        first <= u64::MAX,
        second <= u64::MAX,
        tag.len() > 0,
        !tag.contains('.'),
        !tag.contains('+'),
    ensures
        ({
            let core = crate::text::decimal(first) + seq!['.'] + crate::text::decimal(second);
            let tagged = core.push('-') + tag;
            &&& bare_version(core) == core ==> version_of(core) == Some(
                VersionView { core: seq![first, second], prerelease: None },
            )
            &&& bare_version(tagged) == tagged ==> version_of(tagged) == Some(
                VersionView { core: seq![first, second], prerelease: Some(seq![part_of(tag)]) },
            )
        }),
{
    let a = crate::text::decimal(first);
    let b = crate::text::decimal(second);
    let core = a + seq!['.'] + b;
    let tagged = core.push('-') + tag;
    crate::text::law_decimal_round_trip(first);
    crate::text::law_decimal_round_trip(second);
    crate::desktop::version::lemma_digits_only(first);
    crate::desktop::version::lemma_digits_only(second);
    assert forall|j: int| 0 <= j < core.len() implies core[j] != '-' by {
        if j < a.len() {
            assert(core[j] == a[j]);
        } else if j > a.len() {
            assert(core[j] == b[j - a.len() - 1]);
        }
    }
    crate::text::lemma_first_at(core, '-', core.len() as int);
    assert forall|j: int| 0 <= j < core.len() implies tagged[j] != '-' by {
        assert(tagged[j] == core[j]);
    }
    crate::text::lemma_first_at(tagged, '-', core.len() as int);
    assert(core.take(core.len() as int) =~= core);
    assert(tagged.take(core.len() as int) =~= core);
    assert(tagged.skip(core.len() as int + 1) =~= tag);
    assert(!a.contains('.')) by {
        assert forall|i: int| 0 <= i < a.len() implies a[i] != '.' by {}
    }
    assert(!b.contains('.')) by {
        assert forall|i: int| 0 <= i < b.len() implies b[i] != '.' by {}
    }
    crate::text::law_a_string_without_separator_is_one_piece(a, '.');
    crate::text::law_a_string_without_separator_is_one_piece(b, '.');
    crate::text::law_a_string_without_separator_is_one_piece(tag, '.');
    crate::text::law_pieces_of_joined_strings(a, '.', b);
    assert(core =~= a.push('.') + b);
    let parts = pieces(core, '.');
    assert(parts =~= seq![a, b]);
    assert(all_numbers(parts));
    assert(numbers_of(parts) =~= seq![first, second]);
    assert(parts_of(seq![tag]) =~= seq![part_of(tag)]);
}

/// A build serves a host only where each of the five things is right.
pub proof fn law_builds_serve_in_every_respect(
    support: WasmRuntimeSupport,
    channel: WasmRuntimeHostChannel,
    version: Seq<char>,
    protocol: u32,
    abi: u32,
    wasi: Seq<char>,
    i: int,
)
    ensures
        serves(support, channel, version, protocol, abi, wasi) ==> support.hapcli_channels@.contains(
            channel,
        ) && support.plugin_protocol@.contains(protocol) && support.wasm_guest_abi@.contains(abi)
            && texts(support.wasi@).contains(wasi) && support.hapcli_versions@.len() > 0,
        support.hapcli_channels@.contains(channel) && support.plugin_protocol@.contains(protocol)
            && support.wasm_guest_abi@.contains(abi) && texts(support.wasi@).contains(wasi) && 0
            <= i < support.hapcli_versions@.len() && meets_requirement(
            version,
            support.hapcli_versions@[i]@,
        ) ==> serves(support, channel, version, protocol, abi, wasi),
        (forall|k: int|
            0 <= k < support.hapcli_versions@.len() ==> !meets_requirement(
                version,
                (#[trigger] support.hapcli_versions@[k])@,
            )) ==> !serves(support, channel, version, protocol, abi, wasi),
{
}

/// A module starts with a zero and the letters `asm`; an entry is taken only where its path is
/// accepted, lies in the plugin's directory and is such a module.
pub proof fn law_entries_are_modules_of_the_plugin(
    entry: Seq<char>,
    dir: LocalPath,
    file: LocalPath,
    bytes: Vec<u8>,
)
    ensures
        is_wasm_module(bytes@) <==> bytes@.len() >= 4 && bytes@[0] == 0 && bytes@[1] as int
            == 'a' as int && bytes@[2] as int == 's' as int && bytes@[3] as int == 'm' as int,
        ({
            let r = wasm_entry(
                entry,
                Ok::<LocalPath, String>(dir),
                Ok::<LocalPath, String>(file),
                Ok::<Vec<u8>, String>(bytes),
            );
            &&& r is Ok <==> relative_path_problem(entry) is None && dir@.is_prefix_of(file@)
                && is_wasm_module(bytes@)
            &&& r matches Ok(path) ==> path == file@
            &&& relative_path_problem(entry) is None && !dir@.is_prefix_of(file@) ==> (r matches Err(
                error,
            ) && error.code == "wasm_entry_escapes_plugin_dir"@ && error.kind
                == PluginErrorKind::Protocol)
            &&& relative_path_problem(entry) is None && dir@.is_prefix_of(file@)
                && !is_wasm_module(bytes@) ==> (r matches Err(error) && error.code
                == "wasm_entry_invalid_magic"@)
            &&& relative_path_problem(entry) matches Some(message) ==> (r matches Err(error)
                && error.code == "invalid_wasm_entry"@ && error.message
                == "Invalid runtime entry: "@ + message)
        }),
{
}

/// What could not be had is told by its own code.
pub proof fn law_missing_entries_are_told_apart(
    entry: Seq<char>,
    reason: String,
    dir: LocalPath,
    file: LocalPath,
    module: Result<LocalPath, String>,
    bytes: Result<Vec<u8>, String>,
)
    requires
        relative_path_problem(entry) is None,
        dir@.is_prefix_of(file@),
    ensures
        wasm_entry(entry, Err::<LocalPath, String>(reason), module, bytes) matches Err(error)
            && error.code == "plugin_dir_unavailable"@ && error.kind == PluginErrorKind::Runtime
            && error.message == "Cannot resolve plugin directory: "@ + reason@,
        wasm_entry(
            entry,
            Ok::<LocalPath, String>(dir),
            Err::<LocalPath, String>(reason),
            bytes,
        ) matches Err(error) && error.code == "wasm_entry_unavailable"@ && error.kind
            == PluginErrorKind::Runtime,
        wasm_entry(
            entry,
            Ok::<LocalPath, String>(dir),
            Ok::<LocalPath, String>(file),
            Err::<Vec<u8>, String>(reason),
        ) matches Err(error) && error.code == "wasm_entry_unreadable"@ && error.kind
            == PluginErrorKind::Runtime,
{
}

/// A module that is refused is told why: that it cannot be found, that it lies outside of the
/// directory, that it cannot be read, or that it is no module.
pub proof fn law_refused_modules_are_told(
    entry: Seq<char>,
    dir: LocalPath,
    file: LocalPath,
    bytes: Vec<u8>,
    reason: String,
    read: Result<Vec<u8>, String>,
)
    requires
        relative_path_problem(entry) is None,
    ensures
        wasm_entry(entry, Ok(dir), Err(reason), read) == Err::<Seq<Seq<char>>, PluginErrorView>(
            PluginErrorView {
                kind: PluginErrorKind::Runtime,
                code: "wasm_entry_unavailable"@,
                message: "Cannot resolve native plugin wasm entry \""@ + entry + "\": "@ + reason@,
            },
        ),
        !dir@.is_prefix_of(file@) ==> wasm_entry(entry, Ok(dir), Ok(file), read) == Err::<
            Seq<Seq<char>>,
            PluginErrorView,
        >(
            PluginErrorView {
                kind: PluginErrorKind::Protocol,
                code: "wasm_entry_escapes_plugin_dir"@,
                message: "Native plugin wasm entry \""@ + entry
                    + "\" resolves outside plugin directory"@,
            },
        ),
        dir@.is_prefix_of(file@) ==> wasm_entry(entry, Ok(dir), Ok(file), Err(reason)) == Err::<
            Seq<Seq<char>>,
            PluginErrorView,
        >(
            PluginErrorView {
                kind: PluginErrorKind::Runtime,
                code: "wasm_entry_unreadable"@,
                message: "Cannot read native plugin WASM entry \""@ + entry + "\": "@ + reason@,
            },
        ),
        dir@.is_prefix_of(file@) && !is_wasm_module(bytes@) ==> wasm_entry(
            entry,
            Ok(dir),
            Ok(file),
            Ok(bytes),
        ) == Err::<Seq<Seq<char>>, PluginErrorView>(
            PluginErrorView {
                kind: PluginErrorKind::Protocol,
                code: "wasm_entry_invalid_magic"@,
                message: "Native plugin WASM entry \""@ + entry
                    + "\" is not a WebAssembly module"@,
            },
        ),
{
}

} // verus!
