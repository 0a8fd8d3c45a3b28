//! Which controller transports a core supports from which release on.

use vstd::prelude::*;
use vstd::string::*;

use crate::metadata::kind::ClashCoreKind;
use crate::text;
use crate::text::{chars, collect, contains, find_whitespace, skip_whitespace, strip_prefix};

verus! {

// ---------------------------------------------------------------------------
// Versions
// ---------------------------------------------------------------------------

/// A release version.
#[derive(Debug, Clone, PartialEq, Eq)]
pub struct Version {
    pub major: u64,
    pub minor: u64,
    pub patch: u64,
    /// The prerelease label; empty for a release.
    pub pre: String,
    /// The build label.
    pub build: String,
}

pub struct VersionView {
    pub major: u64,
    pub minor: u64,
    pub patch: u64,
    pub pre: Seq<char>,
    pub build: Seq<char>,
}

impl Version {
    pub open spec fn view(&self) -> VersionView {
        VersionView {
            major: self.major,
            minor: self.minor,
            patch: self.patch,
            pre: self.pre@,
            build: self.build@,
        }
    }

    pub fn new(major: u64, minor: u64, patch: u64) -> (r: Version)
        ensures
            r@ == (VersionView {
                major,
                minor,
                patch,
                pre: Seq::empty(),
                build: Seq::empty(),
            }),
    {
        Version { major, minor, patch, pre: String::new(), build: String::new() }
    }
}

/// The version that a text stands for.
pub uninterp spec fn semantic_version(text: Seq<char>) -> Option<VersionView>;

/// `semver::Version::parse`: the version that the text stands for, where it is
/// one. The result is named after the text.
#[verifier::external_body]
fn parse_semver(text: &str) -> (r: Option<Version>)
    ensures
        match r {
            Some(v) => semantic_version(text@) == Some(v@),
            None => semantic_version(text@) is None,
        },
{
    let v = semver::Version::parse(text).ok()?;
    Some(Version {
        major: v.major,
        minor: v.minor,
        patch: v.patch,
        pre: v.pre.as_str().to_owned(),
        build: v.build.as_str().to_owned(),
    })
}

/// The first release with a feature.
#[derive(Debug, Clone, Copy, PartialEq, Eq, Structural)]
pub struct Floor {
    pub major: u64,
    pub minor: u64,
    pub patch: u64,
}

/// A release that is not before the floor. Prereleases do not count.
pub open spec fn reaches(floor: Floor, version: VersionView) -> bool {
    version.pre.len() == 0 && (version.major > floor.major || (version.major == floor.major && (
    version.minor > floor.minor || (version.minor == floor.minor && version.patch
        >= floor.patch))))
}

/// `semver::VersionReq::matches` of the requirement `>=major.minor.patch`: a
/// version satisfies it when it has no prerelease label and its three numbers
/// are not below.
#[verifier::external_body]
fn satisfies_floor(floor: Floor, version: &Version) -> (r: bool)
    ensures
        r == reaches(floor, version@),
{
    let text = format!(">={}.{}.{}", floor.major, floor.minor, floor.patch);
    let mut candidate = semver::Version::new(version.major, version.minor, version.patch);
    match (semver::VersionReq::parse(&text), semver::Prerelease::new(&version.pre)) {
        (Ok(requirement), Ok(pre)) => {
            candidate.pre = pre;
            requirement.matches(&candidate)
        },
        _ => false,
    }
}

/// What a version text says about a core.
#[derive(Debug, Clone, PartialEq, Eq)]
pub enum CoreVersion {
    Release(Version),
    Nightly,
    Unknown,
}

pub enum CoreVersionView {
    Release(VersionView),
    Nightly,
    Unknown,
}

impl CoreVersion {
    pub open spec fn view(&self) -> CoreVersionView {
        match self {
            CoreVersion::Release(v) => CoreVersionView::Release(v@),
            CoreVersion::Nightly => CoreVersionView::Nightly,
            CoreVersion::Unknown => CoreVersionView::Unknown,
        }
    }
}

/// The version that a word stands for, with or without a leading `v`.
pub open spec fn word_version(word: Seq<char>) -> Option<VersionView> {
    match text::after_prefix(word, "v"@) {
        Some(rest) => semantic_version(rest),
        None => semantic_version(word),
    }
}

/// The first word from `from` on that is a version.
pub open spec fn banner_version(s: Seq<char>, from: int) -> Option<VersionView>
    decreases s.len() - from,
    when 0 <= from <= s.len()
{
    let start = text::first_where(s, from, text::not_space());
    let end = text::first_where(s, start, text::space());
    proof {
        lemma_word_bounds(s, from);
    }
    if start == s.len() {
        None
    } else {
        match word_version(s.subrange(start, end)) {
            Some(v) => Some(v),
            None => banner_version(s, end),
        }
    }
}

/// A word starts at or after `from` and ends within the text.
pub proof fn lemma_word_bounds(s: Seq<char>, from: int)
    requires
        0 <= from <= s.len(),
    ensures
        ({
            let start = text::first_where(s, from, text::not_space());
            let end = text::first_where(s, start, text::space());
            &&& from <= start <= end <= s.len()
            &&& start < s.len() ==> start < end
        }),
{
    text::lemma_first_where_bounds(s, from, text::not_space());
    let start = text::first_where(s, from, text::not_space());
    text::lemma_first_where_bounds(s, start, text::space());
}

/// What a version text says: the first release in it; else that it is an alpha
/// build; else nothing.
pub open spec fn core_version(raw: Seq<char>) -> CoreVersionView {
    match banner_version(raw, 0) {
        Some(v) => CoreVersionView::Release(v),
        None => if text::contains_sub(raw, "alpha"@) {
            CoreVersionView::Nightly
        } else {
            CoreVersionView::Unknown
        },
    }
}

impl CoreVersion {
    pub fn parse(raw: &str) -> (r: CoreVersion)
        ensures
            r@ == core_version(raw@),
    {
        let cs = chars(raw);
        let n: usize = cs.len();
        let mut from: usize = 0;
        while from < n
            invariant
                cs@ == raw@,
                n == cs@.len(),
                from <= n,
                banner_version(raw@, 0) == banner_version(raw@, from as int),
            ensures
                banner_version(raw@, 0) is None,
            decreases n - from,
        {
            proof {
                lemma_word_bounds(raw@, from as int);
            }
            let start = skip_whitespace(&cs, from);
            if start == n {
                break;
            }
            let end = find_whitespace(&cs, start);
            let word = collect(&cs, start, end);
            let found = match strip_prefix(word.as_str(), "v") {
                Some(rest) => parse_semver(rest.as_str()),
                None => parse_semver(word.as_str()),
            };
            if let Some(version) = found {
                return CoreVersion::Release(version);
            }
            from = end;
        }
        if contains(raw, "alpha") {
            CoreVersion::Nightly
        } else {
            CoreVersion::Unknown
        }
    }
}

// ---------------------------------------------------------------------------
// Features
// ---------------------------------------------------------------------------

#[derive(Debug, Clone, Copy, PartialEq, Eq, Hash, Structural)]
pub enum Feature {
    /// Supports a Windows named pipe for IPC.
    NamedPipeIpc,
    /// Supports a Unix domain socket for IPC.
    UnixSocketIpc,
    /// Supports running without a TCP external controller.
    DisableTcpController,
}

/// Whether a core has a feature.
#[derive(Debug, Clone, Copy, PartialEq, Eq, Structural)]
pub enum Support {
    Yes,
    No,
    /// From this release on; the version of the core is not known.
    Since(Floor),
}

/// A set of features.
#[derive(Debug, Clone, Copy, PartialEq, Eq, Structural)]
pub struct FeatureSet {
    pub named_pipe_ipc: bool,
    pub unix_socket_ipc: bool,
    pub disable_tcp_controller: bool,
}

impl FeatureSet {
    pub open spec fn has_feature(self, feature: Feature) -> bool {
        match feature {
            Feature::NamedPipeIpc => self.named_pipe_ipc,
            Feature::UnixSocketIpc => self.unix_socket_ipc,
            Feature::DisableTcpController => self.disable_tcp_controller,
        }
    }

    pub fn contains(&self, feature: Feature) -> (r: bool)
        ensures
            r == self.has_feature(feature),
    {
        match feature {
            Feature::NamedPipeIpc => self.named_pipe_ipc,
            Feature::UnixSocketIpc => self.unix_socket_ipc,
            Feature::DisableTcpController => self.disable_tcp_controller,
        }
    }

    pub fn is_empty(&self) -> (r: bool)
        ensures
            r == (forall|f: Feature| !#[trigger] self.has_feature(f)),
    {
        let r = !self.named_pipe_ipc && !self.unix_socket_ipc && !self.disable_tcp_controller;
        proof {
            if !r {
                assert(self.has_feature(Feature::NamedPipeIpc) || self.has_feature(
                    Feature::UnixSocketIpc,
                ) || self.has_feature(Feature::DisableTcpController));
            }
        }
        r
    }

    /// The features of the set, in order.
    pub fn to_vec(&self) -> (r: Vec<Feature>)
        ensures
            r@ == feature_list(*self),
    {
        let mut out: Vec<Feature> = Vec::new();
        if self.named_pipe_ipc {
            out.push(Feature::NamedPipeIpc);
        }
        if self.unix_socket_ipc {
            out.push(Feature::UnixSocketIpc);
        }
        if self.disable_tcp_controller {
            out.push(Feature::DisableTcpController);
        }
        assert(out@ =~= feature_list(*self));
        out
    }
}

/// The features of a set, in order.
pub open spec fn feature_list(set: FeatureSet) -> Seq<Feature> {
    (if set.named_pipe_ipc {
        seq![Feature::NamedPipeIpc]
    } else {
        seq![]
    }) + (if set.unix_socket_ipc {
        seq![Feature::UnixSocketIpc]
    } else {
        seq![]
    }) + (if set.disable_tcp_controller {
        seq![Feature::DisableTcpController]
    } else {
        seq![]
    })
}

/// The first release of a family with a feature, where some release has it.
pub open spec fn floor_of(kind: ClashCoreKind, feature: Feature) -> Option<Floor> {
    match (kind, feature) {
        (ClashCoreKind::Mihomo, Feature::UnixSocketIpc) => Some(
            Floor { major: 1, minor: 18, patch: 4 },
        ),
        (ClashCoreKind::Mihomo, Feature::NamedPipeIpc) => Some(
            Floor { major: 1, minor: 18, patch: 9 },
        ),
        (ClashCoreKind::ClashRust, Feature::UnixSocketIpc) => Some(
            Floor { major: 0, minor: 9, patch: 1 },
        ),
        (ClashCoreKind::ClashRust, Feature::NamedPipeIpc) => Some(
            Floor { major: 0, minor: 9, patch: 7 },
        ),
        _ => None,
    }
}

/// Support from a release on: nightly builds have it, unknown builds do not, and
/// without a version it stays open.
pub open spec fn support_since(floor: Floor, version: Option<CoreVersionView>) -> Support {
    match version {
        None => Support::Since(floor),
        Some(CoreVersionView::Nightly) => Support::Yes,
        Some(CoreVersionView::Unknown) => Support::No,
        Some(CoreVersionView::Release(v)) => if reaches(floor, v) {
            Support::Yes
        } else {
            Support::No
        },
    }
}

pub open spec fn support_of(
    kind: ClashCoreKind,
    feature: Feature,
    version: Option<CoreVersionView>,
) -> Support {
    match floor_of(kind, feature) {
        Some(floor) => support_since(floor, version),
        None => Support::No,
    }
}

pub open spec fn version_view(version: Option<&CoreVersion>) -> Option<CoreVersionView> {
    match version {
        Some(v) => Some(v@),
        None => None,
    }
}

pub fn since(floor: Floor, version: Option<&CoreVersion>) -> (r: Support)
    ensures
        r == support_since(floor, version_view(version)),
{
    match version {
        None => Support::Since(floor),
        Some(CoreVersion::Nightly) => Support::Yes,
        Some(CoreVersion::Unknown) => Support::No,
        Some(CoreVersion::Release(v)) => if satisfies_floor(floor, v) {
            Support::Yes
        } else {
            Support::No
        },
    }
}

/// Which features something supports.
pub trait FeatureSupport {
    spec fn support(&self, feature: Feature, version: Option<CoreVersionView>) -> Support;

    fn supports(&self, feature: Feature, version: Option<&CoreVersion>) -> (r: Support)
        ensures
            r == self.support(feature, version_view(version)),
    ;

    /// The features that a given version surely has.
    fn features(&self, version: Option<&CoreVersion>) -> (r: FeatureSet)
        ensures
            forall|f: Feature|
                #[trigger] r.has_feature(f) == (self.support(f, version_view(version)) is Yes),
    {
        let a = self.supports(Feature::NamedPipeIpc, version);
        let b = self.supports(Feature::UnixSocketIpc, version);
        let c = self.supports(Feature::DisableTcpController, version);
        FeatureSet {
            named_pipe_ipc: matches!(a, Support::Yes),
            unix_socket_ipc: matches!(b, Support::Yes),
            disable_tcp_controller: matches!(c, Support::Yes),
        }
    }

    /// The features that some version has.
    fn potential_features(&self) -> (r: FeatureSet)
        ensures
            forall|f: Feature|
                #[trigger] r.has_feature(f) == !(self.support(f, None) is No),
    {
        let a = self.supports(Feature::NamedPipeIpc, None);
        let b = self.supports(Feature::UnixSocketIpc, None);
        let c = self.supports(Feature::DisableTcpController, None);
        FeatureSet {
            named_pipe_ipc: !matches!(a, Support::No),
            unix_socket_ipc: !matches!(b, Support::No),
            disable_tcp_controller: !matches!(c, Support::No),
        }
    }
}

impl FeatureSupport for ClashCoreKind {
    open spec fn support(&self, feature: Feature, version: Option<CoreVersionView>) -> Support {
        support_of(*self, feature, version)
    }

    fn supports(&self, feature: Feature, version: Option<&CoreVersion>) -> (r: Support) {
        match (*self, feature) {
            (ClashCoreKind::Mihomo, Feature::UnixSocketIpc) => since(
                Floor { major: 1, minor: 18, patch: 4 },
                version,
            ),
            (ClashCoreKind::Mihomo, Feature::NamedPipeIpc) => since(
                Floor { major: 1, minor: 18, patch: 9 },
                version,
            ),
            (ClashCoreKind::ClashRust, Feature::UnixSocketIpc) => since(
                Floor { major: 0, minor: 9, patch: 1 },
                version,
            ),
            (ClashCoreKind::ClashRust, Feature::NamedPipeIpc) => since(
                Floor { major: 0, minor: 9, patch: 7 },
                version,
            ),
            _ => Support::No,
        }
    }
}

/// What a version has, the family has in some version; and once the version is
/// known, nothing stays open.
pub proof fn law_features_are_potential_features(
    kind: ClashCoreKind,
    feature: Feature,
    version: CoreVersionView,
)
    ensures
        support_of(kind, feature, Some(version)) is Yes ==> !(support_of(kind, feature, None) is No),
        !(support_of(kind, feature, Some(version)) is Since),
{
}

/// A later release keeps the features of an earlier one.
pub proof fn law_support_is_upward_closed(
    kind: ClashCoreKind,
    feature: Feature,
    a: VersionView,
    b: VersionView,
)
    requires
        support_of(kind, feature, Some(CoreVersionView::Release(a))) is Yes,
        b.pre.len() == 0,
        b.major > a.major || (b.major == a.major && (b.minor > a.minor || (b.minor == a.minor
            && b.patch >= a.patch))),
    ensures
        support_of(kind, feature, Some(CoreVersionView::Release(b))) is Yes,
{
}

/// No core is ever run without its TCP controller.
pub proof fn law_tcp_controller_is_never_disabled(
    kind: ClashCoreKind,
    version: Option<CoreVersionView>,
)
    ensures
        support_of(kind, Feature::DisableTcpController, version) is No,
{
}

/// A release is not before another.
pub open spec fn not_before(v: VersionView, major: int, minor: int, patch: int) -> bool {
    v.major > major || (v.major == major && v.minor > minor) || (v.major == major && v.minor
        == minor && v.patch >= patch)
}

/// Which releases have a local transport: mihomo has sockets since 1.18.4 and pipes
/// since 1.18.9, clash-rs sockets since 0.9.1 and pipes since 0.9.7, and the other
/// families have neither. A prerelease has none.
pub proof fn law_transports_come_with_releases(v: VersionView)
    ensures
        ({
            let version = Some(CoreVersionView::Release(v));
            let release = v.pre.len() == 0;
            &&& support_of(ClashCoreKind::Mihomo, Feature::UnixSocketIpc, version) is Yes
                <==> release && not_before(v, 1, 18, 4)
            &&& support_of(ClashCoreKind::Mihomo, Feature::NamedPipeIpc, version) is Yes
                <==> release && not_before(v, 1, 18, 9)
            &&& support_of(ClashCoreKind::ClashRust, Feature::UnixSocketIpc, version) is Yes
                <==> release && not_before(v, 0, 9, 1)
            &&& support_of(ClashCoreKind::ClashRust, Feature::NamedPipeIpc, version) is Yes
                <==> release && not_before(v, 0, 9, 7)
            &&& !(support_of(ClashCoreKind::Meow, Feature::UnixSocketIpc, version) is Yes)
            &&& !(support_of(ClashCoreKind::Meow, Feature::NamedPipeIpc, version) is Yes)
            &&& !(support_of(ClashCoreKind::ClashPremium, Feature::UnixSocketIpc, version) is Yes)
            &&& !(support_of(ClashCoreKind::ClashPremium, Feature::NamedPipeIpc, version) is Yes)
        }),
{
}

/// What some release of a family has, its nightly builds have, a build of unknown
/// version does not, and without a version it stays open.
pub proof fn law_builds_without_a_release(kind: ClashCoreKind, feature: Feature, v: VersionView)
    requires
        support_of(kind, feature, Some(CoreVersionView::Release(v))) is Yes,
    ensures
        support_of(kind, feature, Some(CoreVersionView::Nightly)) is Yes,
        support_of(kind, feature, Some(CoreVersionView::Unknown)) is No,
        support_of(kind, feature, None) is Since,
        support_of(kind, feature, None)->Since_0.major <= v.major,
{
}

/// A leading `v` of a version is ignored.
pub proof fn law_versions_may_begin_with_a_letter(word: Seq<char>)
    requires
        word.len() == 0 || word[0] != 'v',
    ensures
        word_version(word) == semantic_version(word),
        word_version(seq!['v'] + word) == semantic_version(word),
{
    reveal_strlit("v");
    assert("v"@.len() == 1);
    assert("v"@[0] == 'v');
    let whole = seq!['v'] + word;
    assert(whole.subrange(0, 1) =~= "v"@);
    assert(whole.subrange(1, whole.len() as int) =~= word);
    if word.len() > 0 {
        assert(word.subrange(0, 1)[0] == word[0]);
    }
}

/// A release that is told is one of the words of the banner: the first that is a
/// version.
pub proof fn law_releases_are_words_of_the_banner(s: Seq<char>, from: int)
    requires
        0 <= from <= s.len(),
    ensures
        banner_version(s, from) matches Some(v) ==> exists|i: int, j: int|
            from <= i < j <= s.len() && word_version(#[trigger] s.subrange(i, j)) == Some(v)
                && forall|k: int| i <= k < j ==> !text::is_space(#[trigger] s[k]),
    decreases s.len() - from,
{
    lemma_word_bounds(s, from);
    let start = text::first_where(s, from, text::not_space());
    let end = text::first_where(s, start, text::space());
    text::lemma_first_where_bounds(s, from, text::not_space());
    if start < s.len() {
        text::lemma_first_where_bounds(s, start, text::space());
        assert forall|k: int| start <= k < end implies !text::is_space(#[trigger] s[k]) by {
            assert(!text::space()(s[k]));
        }
        if word_version(s.subrange(start, end)) is None {
            law_releases_are_words_of_the_banner(s, end);
        }
    }
}

/// A banner of one word is the version that the word is. One that tells no release
/// is an alpha build where it says so, and otherwise nothing is known.
pub proof fn law_banners_are_read(word: Seq<char>)
    requires
        word.len() > 0,
        forall|k: int| 0 <= k < word.len() ==> !text::is_space(#[trigger] word[k]),
    ensures
        word_version(word) matches Some(v) ==> core_version(word) == CoreVersionView::Release(v),
        word_version(word) is None ==> core_version(word) == (if text::contains_sub(
            word,
            "alpha"@,
        ) {
            CoreVersionView::Nightly
        } else {
            CoreVersionView::Unknown
        }),
{
    let n = word.len() as int;
    assert(text::not_space()(word[0]));
    text::lemma_first_where(word, 0, text::not_space(), 0);
    assert forall|k: int| 0 <= k < n implies !text::space()(#[trigger] word[k]) by {}
    text::lemma_first_where(word, 0, text::space(), n);
    assert(word.subrange(0, n) =~= word);
    lemma_word_bounds(word, 0);
    reveal_with_fuel(banner_version, 2);
    text::lemma_first_where(word, n, text::not_space(), n);
    lemma_word_bounds(word, n);
}

/// The list of a set holds its features and no other, each once.
pub proof fn law_lists_hold_the_features(set: FeatureSet, feature: Feature)
    ensures
        feature_list(set).contains(feature) <==> set.has_feature(feature),
        forall|i: int, j: int|
            0 <= i < j < feature_list(set).len() ==> feature_list(set)[i] != feature_list(set)[j],
{
    let list = feature_list(set);
    let a = if set.named_pipe_ipc {
        1int
    } else {
        0int
    };
    let b = if set.unix_socket_ipc {
        1int
    } else {
        0int
    };
    if set.named_pipe_ipc {
        assert(list[0] == Feature::NamedPipeIpc);
    }
    if set.unix_socket_ipc {
        assert(list[a] == Feature::UnixSocketIpc);
    }
    if set.disable_tcp_controller {
        assert(list[a + b] == Feature::DisableTcpController);
    }
}

} // verus!
