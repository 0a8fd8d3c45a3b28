//! The families of cores and the binaries that ship them.

use vstd::prelude::*;
use vstd::string::*;

verus! {

#[derive(Debug, Clone, Copy, PartialEq, Eq, Hash, Structural)]
pub enum CoreKind {
    Clash(ClashCoreKind),
    SingBox,
}

#[derive(Debug, Clone, Copy, PartialEq, Eq, Hash, Structural)]
pub enum ClashCoreKind {
    Mihomo,
    ClashRust,
    ClashPremium,
    Meow,
}

/// The name of a family.
pub open spec fn kind_name(kind: ClashCoreKind) -> Seq<char> {
    match kind {
        ClashCoreKind::Mihomo => "mihomo"@,
        ClashCoreKind::ClashRust => "clash-rs"@,
        ClashCoreKind::ClashPremium => "clash"@,
        ClashCoreKind::Meow => "meow"@,
    }
}

impl ClashCoreKind {
    pub fn as_str(&self) -> (r: &'static str)
        ensures
            r@ == kind_name(*self),
    {
        match self {
            ClashCoreKind::Mihomo => "mihomo",
            ClashCoreKind::ClashRust => "clash-rs",
            ClashCoreKind::ClashPremium => "clash",
            ClashCoreKind::Meow => "meow",
        }
    }
}

#[derive(Debug, Clone, Copy, PartialEq, Eq, Hash, Structural)]
pub enum ClashCoreResourceVariant {
    Mihomo,
    MihomoAlpha,
    ClashRust,
    ClashRustAlpha,
    ClashPremium,
    Meow,
}

/// The name of a shipped binary, without the platform's suffix.
pub open spec fn binary_stem(variant: ClashCoreResourceVariant) -> Seq<char> {
    match variant {
        ClashCoreResourceVariant::Mihomo => "mihomo"@,
        ClashCoreResourceVariant::MihomoAlpha => "mihomo-alpha"@,
        ClashCoreResourceVariant::ClashRust => "clash-rs"@,
        ClashCoreResourceVariant::ClashRustAlpha => "clash-rs-alpha"@,
        ClashCoreResourceVariant::ClashPremium => "clash"@,
        ClashCoreResourceVariant::Meow => "meow"@,
    }
}

impl ClashCoreResourceVariant {
    /// The file name of the binary; `exe_suffix` is what the platform appends
    /// to executables.
    pub fn binary_name(&self, exe_suffix: &str) -> (r: String)
        ensures
            r@ == binary_stem(*self) + exe_suffix@,
    {
        let stem = match self {
            ClashCoreResourceVariant::Mihomo => "mihomo",
            ClashCoreResourceVariant::MihomoAlpha => "mihomo-alpha",
            ClashCoreResourceVariant::ClashRust => "clash-rs",
            ClashCoreResourceVariant::ClashRustAlpha => "clash-rs-alpha",
            ClashCoreResourceVariant::ClashPremium => "clash",
            ClashCoreResourceVariant::Meow => "meow",
        };
        let mut out = stem.to_owned();
        out.append(exe_suffix);
        out
    }
}

/// Different families have different names.
pub proof fn law_kind_names_differ(a: ClashCoreKind, b: ClashCoreKind)
    ensures
        kind_name(a) == kind_name(b) ==> a == b,
{
    reveal_strlit("mihomo");
    reveal_strlit("clash-rs");
    reveal_strlit("clash");
    reveal_strlit("meow");
    assert("mihomo"@.len() == 6);
    assert("clash-rs"@.len() == 8);
    assert("clash"@.len() == 5);
    assert("meow"@.len() == 4);
}

/// Different binaries have different names.
pub proof fn law_binaries_have_names_of_their_own(
    a: ClashCoreResourceVariant,
    b: ClashCoreResourceVariant,
)
    ensures
        binary_stem(a) == binary_stem(b) ==> a == b,
{
    reveal_strlit("mihomo");
    reveal_strlit("mihomo-alpha");
    reveal_strlit("clash-rs");
    reveal_strlit("clash-rs-alpha");
    reveal_strlit("clash");
    reveal_strlit("meow");
    assert("mihomo"@.len() == 6);
    assert("mihomo-alpha"@.len() == 12);
    assert("clash-rs"@.len() == 8);
    assert("clash-rs-alpha"@.len() == 14);
    assert("clash"@.len() == 5);
    assert("meow"@.len() == 4);
}

} // verus!
