use nyanpasu_core::metadata::dist::{CoreDistribution, TagSet, VariantTag};
use nyanpasu_core::metadata::error_kind::CoreErrorKind;
use nyanpasu_core::metadata::feature::{
    since, CoreVersion, Feature, FeatureSupport, Floor, Support, Version,
};
use nyanpasu_core::metadata::kind::{ClashCoreKind, ClashCoreResourceVariant};
use nyanpasu_core::metadata::log::LogLevel;

fn tag(value: &str) -> VariantTag {
    VariantTag::new(value)
}

#[test]
fn tags_normalize_and_split_on_only_the_first_colon() {
    let tag = tag("  Future:One:Two  ");
    assert_eq!(tag.as_str(), "future:one:two");
    assert_eq!(tag.group().as_deref(), Some("future"));
    assert_eq!(tag.value(), "one:two");
    let raw: String = serde_json::from_str(r#"" Channel:ALPHA ""#).unwrap();
    assert_eq!(VariantTag::new(&raw), VariantTag::new("channel:alpha"));
}

#[test]
fn unknown_tags_roundtrip_and_deduplicate() {
    let raw: Vec<String> =
        serde_json::from_str(r#"["vendor:zeta","future:neon","vendor:zeta"]"#).unwrap();
    let decoded = TagSet::from_tags(raw.iter().map(|s| tag(s)).collect());
    assert_eq!(decoded.len(), 2);
    let texts: Vec<&str> = (0..decoded.len()).map(|i| decoded.get(i).as_str()).collect();
    assert_eq!(
        serde_json::to_string(&texts).unwrap(),
        r#"["future:neon","vendor:zeta"]"#
    );
}

#[test]
fn distribution_omits_unknown_provenance_and_queries_open_groups() {
    let plain = CoreDistribution::new(ClashCoreKind::Mihomo);
    assert_eq!(plain.kind.as_str(), "mihomo");
    assert!(plain.variant.is_none());
    assert_eq!(plain.tags.len(), 0);

    let distribution = CoreDistribution {
        kind: ClashCoreKind::Mihomo,
        variant: Some("alpha-goamd64-v3".into()),
        tags: TagSet::from_tags(vec![tag("channel:alpha"), tag("goamd64:v3"), tag("portable")]),
    };
    assert_eq!(distribution.channel().as_deref(), Some("alpha"));
    assert_eq!(distribution.tag_value("goamd64").as_deref(), Some("v3"));
    assert_eq!(distribution.tag_value("missing"), None);
}

#[test]
fn inserting_a_tag_keeps_the_order() {
    let set = TagSet::new().with(tag("b")).with(tag("a")).with(tag("B"));
    assert_eq!(set.len(), 2);
    assert_eq!(set.get(0).as_str(), "a");
    assert_eq!(tag("portable").group(), None);
    assert_eq!(tag("portable").value(), "portable");
}

#[test]
fn every_kind_roundtrips_its_wire_string() {
    for kind in CoreErrorKind::all() {
        assert_eq!(
            serde_json::to_string(kind.as_str()).unwrap(),
            format!("\"{}\"", kind.as_str())
        );
        assert_eq!(CoreErrorKind::from_wire(kind.as_str()), Some(kind));
    }
}

#[test]
fn unknown_wire_string_is_forward_compatible() {
    assert_eq!(CoreErrorKind::from_wire("a_future_kind"), None);
}

fn version(raw: &str) -> Option<CoreVersion> {
    Some(CoreVersion::parse(raw))
}

#[test]
fn parses_release_banners_and_nightly_builds() {
    assert_eq!(
        CoreVersion::parse("Mihomo Meta v1.18.9 linux amd64"),
        CoreVersion::Release(Version::new(1, 18, 9))
    );
    assert_eq!(CoreVersion::parse("alpha-deadbeef"), CoreVersion::Nightly);
    assert_eq!(CoreVersion::parse("unknown"), CoreVersion::Unknown);
}

#[test]
fn transport_floors_bracket_the_first_supported_release() {
    for (floor, last_without, first_with) in [
        (Floor { major: 1, minor: 18, patch: 4 }, "1.18.3", "1.18.4"),
        (Floor { major: 1, minor: 18, patch: 9 }, "1.18.8", "1.18.9"),
        (Floor { major: 0, minor: 9, patch: 1 }, "0.9.0", "0.9.1"),
        (Floor { major: 0, minor: 9, patch: 7 }, "0.9.6", "0.9.7"),
    ] {
        assert!(matches!(since(floor, version(last_without).as_ref()), Support::No));
        assert!(matches!(since(floor, version(first_with).as_ref()), Support::Yes));
    }
    for (kind, feature, last_without, first_with) in [
        (ClashCoreKind::Mihomo, Feature::UnixSocketIpc, "1.18.3", "1.18.4"),
        (ClashCoreKind::Mihomo, Feature::NamedPipeIpc, "1.18.8", "1.18.9"),
        (ClashCoreKind::ClashRust, Feature::UnixSocketIpc, "0.9.0", "0.9.1"),
        (ClashCoreKind::ClashRust, Feature::NamedPipeIpc, "0.9.6", "0.9.7"),
    ] {
        assert!(matches!(kind.supports(feature, version(last_without).as_ref()), Support::No));
        assert!(matches!(kind.supports(feature, version(first_with).as_ref()), Support::Yes));
    }
}

#[test]
fn unresolved_versions_return_requirements() {
    for kind in [ClashCoreKind::Mihomo, ClashCoreKind::ClashRust] {
        for feature in [Feature::NamedPipeIpc, Feature::UnixSocketIpc] {
            assert!(matches!(kind.supports(feature, None), Support::Since(_)));
        }
    }
}

#[test]
fn nightly_builds_enable_version_gated_transports() {
    for kind in [ClashCoreKind::Mihomo, ClashCoreKind::ClashRust] {
        assert!(matches!(
            kind.supports(Feature::NamedPipeIpc, Some(&CoreVersion::Nightly)),
            Support::Yes
        ));
        assert!(matches!(
            kind.supports(Feature::UnixSocketIpc, Some(&CoreVersion::Nightly)),
            Support::Yes
        ));
    }
}

#[test]
fn legacy_and_meow_cores_expose_no_local_ipc_features() {
    for kind in [ClashCoreKind::ClashPremium, ClashCoreKind::Meow] {
        assert!(kind.potential_features().is_empty());
        assert!(kind.features(version("99.0.0").as_ref()).is_empty());
    }
}

#[test]
fn disable_tcp_controller_is_reserved_but_never_enabled() {
    for kind in [
        ClashCoreKind::Mihomo,
        ClashCoreKind::ClashRust,
        ClashCoreKind::ClashPremium,
        ClashCoreKind::Meow,
    ] {
        assert!(matches!(
            kind.supports(Feature::DisableTcpController, Some(&CoreVersion::Nightly)),
            Support::No
        ));
    }
}

#[test]
fn prereleases_are_versions_of_their_own() {
    let CoreVersion::Release(parsed) = CoreVersion::parse("v1.18.9-rc.1+build") else {
        panic!("expected a release");
    };
    assert_eq!((parsed.major, parsed.minor, parsed.patch), (1, 18, 9));
    assert_eq!((parsed.pre.as_str(), parsed.build.as_str()), ("rc.1", "build"));
    let floor = Floor { major: 1, minor: 18, patch: 9 };
    assert!(matches!(since(floor, version("1.18.9-rc.1").as_ref()), Support::No));
    assert!(matches!(since(floor, version("1.18.10-rc.1").as_ref()), Support::No));
    assert!(matches!(since(floor, version("1.18.10").as_ref()), Support::Yes));
}

#[test]
fn supported_features_are_listed() {
    let set = ClashCoreKind::Mihomo.features(version("1.18.4").as_ref());
    assert_eq!(set.to_vec(), vec![Feature::UnixSocketIpc]);
    assert!(set.contains(Feature::UnixSocketIpc) && !set.contains(Feature::NamedPipeIpc));
}

#[test]
fn binaries_are_named_after_their_kind() {
    assert_eq!(ClashCoreResourceVariant::Mihomo.binary_name(".exe"), "mihomo.exe");
    assert_eq!(ClashCoreResourceVariant::ClashRustAlpha.binary_name(""), "clash-rs-alpha");
}

#[test]
fn fatal_is_the_most_severe_level() {
    assert!(LogLevel::Fatal.severity() > LogLevel::Error.severity());
    assert!(LogLevel::Error.severity() > LogLevel::Warning.severity());
}
