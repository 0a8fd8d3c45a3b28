//! The typed parts of the controller's configuration have no key twice.

use vstd::prelude::*;
use vstd::string::*;

use crate::clash_api::config;
use crate::clash_api::config::{
    ConfigPatch, RuntimeConfig, RuntimeTuicServer, RuntimeTun, TuicServerPatch, TunPatch,
};
use crate::clash_api::fields;
use crate::tree;
use crate::value::Node;

verus! {

/// The users of a TUIC listener are those of a map.
pub open spec fn mapped(tuic: RuntimeTuicServer) -> bool {
    fields::ordered(tuic.users@)
}

/// The users that a change names are those of a map.
pub open spec fn patch_mapped(tuic: TuicServerPatch) -> bool {
    tuic.users matches Some(users) ==> fields::ordered(users@)
}

#[verifier::spinoff_prover]
#[verifier::rlimit(80)]
proof fn lemma_tun_keys(v: RuntimeTun)
    ensures
        tree::well_keyed(Node::Table(v.tree())),
{
    broadcast use fields::group_keys;

    reveal_strlit("enable");
    assert("enable"@.len() == 6);
    reveal_strlit("device");
    assert("device"@.len() == 6);
    reveal_strlit("stack");
    assert("stack"@.len() == 5);
    reveal_strlit("dns-hijack");
    assert("dns-hijack"@.len() == 10);
    reveal_strlit("auto-route");
    assert("auto-route"@.len() == 10);
    reveal_strlit("auto-detect-interface");
    assert("auto-detect-interface"@.len() == 21);
    reveal_strlit("mtu");
    assert("mtu"@.len() == 3);
    reveal_strlit("gso");
    assert("gso"@.len() == 3);
    reveal_strlit("gso-max-size");
    assert("gso-max-size"@.len() == 12);
    reveal_strlit("inet4-address");
    assert("inet4-address"@.len() == 13);
    reveal_strlit("inet6-address");
    assert("inet6-address"@.len() == 13);
    reveal_strlit("iproute2-table-index");
    assert("iproute2-table-index"@.len() == 20);
    reveal_strlit("iproute2-rule-index");
    assert("iproute2-rule-index"@.len() == 19);
    reveal_strlit("auto-redirect");
    assert("auto-redirect"@.len() == 13);
    reveal_strlit("auto-redirect-input-mark");
    assert("auto-redirect-input-mark"@.len() == 24);
    reveal_strlit("auto-redirect-output-mark");
    assert("auto-redirect-output-mark"@.len() == 25);
    reveal_strlit("auto-redirect-iproute2-fallback-rule-index");
    assert("auto-redirect-iproute2-fallback-rule-index"@.len() == 42);
    reveal_strlit("loopback-address");
    assert("loopback-address"@.len() == 16);
    reveal_strlit("strict-route");
    assert("strict-route"@.len() == 12);
    reveal_strlit("route-address");
    assert("route-address"@.len() == 13);
    reveal_strlit("route-address-set");
    assert("route-address-set"@.len() == 17);
    reveal_strlit("route-exclude-address");
    assert("route-exclude-address"@.len() == 21);
    reveal_strlit("route-exclude-address-set");
    assert("route-exclude-address-set"@.len() == 25);
    reveal_strlit("include-interface");
    assert("include-interface"@.len() == 17);
    reveal_strlit("exclude-interface");
    assert("exclude-interface"@.len() == 17);
    reveal_strlit("include-uid");
    assert("include-uid"@.len() == 11);
    reveal_strlit("include-uid-range");
    assert("include-uid-range"@.len() == 17);
    reveal_strlit("exclude-uid");
    assert("exclude-uid"@.len() == 11);
    reveal_strlit("exclude-uid-range");
    assert("exclude-uid-range"@.len() == 17);
    reveal_strlit("include-android-user");
    assert("include-android-user"@.len() == 20);
    reveal_strlit("include-package");
    assert("include-package"@.len() == 15);
    reveal_strlit("exclude-package");
    assert("exclude-package"@.len() == 15);
    reveal_strlit("include-mac-address");
    assert("include-mac-address"@.len() == 19);
    reveal_strlit("exclude-mac-address");
    assert("exclude-mac-address"@.len() == 19);
    reveal_strlit("endpoint-independent-nat");
    assert("endpoint-independent-nat"@.len() == 24);
    reveal_strlit("udp-timeout");
    assert("udp-timeout"@.len() == 11);
    reveal_strlit("icmp-timeout");
    assert("icmp-timeout"@.len() == 12);
    reveal_strlit("file-descriptor");
    assert("file-descriptor"@.len() == 15);
    reveal_strlit("inet4-route-address");
    assert("inet4-route-address"@.len() == 19);
    reveal_strlit("inet6-route-address");
    assert("inet6-route-address"@.len() == 19);
    reveal_strlit("inet4-route-exclude-address");
    assert("inet4-route-exclude-address"@.len() == 27);
    reveal_strlit("inet6-route-exclude-address");
    assert("inet6-route-exclude-address"@.len() == 27);
    reveal_strlit("recvmsgx");
    assert("recvmsgx"@.len() == 8);
    reveal_strlit("sendmsgx");
    assert("sendmsgx"@.len() == 8);
    assert("mtu"@[0] == 'm');
    assert("gso"@[0] == 'g');
    assert("enable"@[0] == 'e');
    assert("device"@[0] == 'd');
    assert("recvmsgx"@[0] == 'r');
    assert("sendmsgx"@[0] == 's');
    assert("dns-hijack"@[0] == 'd');
    assert("auto-route"@[0] == 'a');
    assert("include-uid"@[0] == 'i');
    assert("exclude-uid"@[0] == 'e');
    assert("udp-timeout"@[0] == 'u');
    assert("gso-max-size"@[0] == 'g');
    assert("strict-route"@[0] == 's');
    assert("icmp-timeout"@[0] == 'i');
    assert("inet4-address"@[4] == '4');
    assert("inet6-address"@[4] == '6');
    assert("auto-redirect"@[4] == '-');
    assert("route-address"@[4] == 'e');
    assert("include-package"@[0] == 'i');
    assert("exclude-package"@[0] == 'e');
    assert("file-descriptor"@[0] == 'f');
    assert("route-address-set"@[0] == 'r' && "route-address-set"@[8] == 'd');
    assert("include-interface"@[0] == 'i' && "include-interface"@[8] == 'i');
    assert("exclude-interface"@[0] == 'e' && "exclude-interface"@[8] == 'i');
    assert("include-uid-range"@[0] == 'i' && "include-uid-range"@[8] == 'u');
    assert("exclude-uid-range"@[0] == 'e' && "exclude-uid-range"@[8] == 'u');
    assert("iproute2-rule-index"@[1] == 'p' && "iproute2-rule-index"@[4] == 'u');
    assert("include-mac-address"@[1] == 'n' && "include-mac-address"@[4] == 'u');
    assert("exclude-mac-address"@[1] == 'x' && "exclude-mac-address"@[4] == 'u');
    assert("inet4-route-address"@[1] == 'n' && "inet4-route-address"@[4] == '4');
    assert("inet6-route-address"@[1] == 'n' && "inet6-route-address"@[4] == '6');
    assert("iproute2-table-index"@[1] == 'p');
    assert("include-android-user"@[1] == 'n');
    assert("auto-detect-interface"@[0] == 'a');
    assert("route-exclude-address"@[0] == 'r');
    assert("auto-redirect-input-mark"@[0] == 'a');
    assert("endpoint-independent-nat"@[0] == 'e');
    assert("auto-redirect-output-mark"@[0] == 'a');
    assert("route-exclude-address-set"@[0] == 'r');
    assert("inet4-route-exclude-address"@[4] == '4');
    assert("inet6-route-exclude-address"@[4] == '6');
    let t = fields::no_fields();
    let t = fields::with_optional(t, "enable"@, Some(fields::flag_node(v.enable)));
    let t = fields::with_optional(t, "device"@, Some(fields::text_node(v.device)));
    let t = fields::with_optional(t, "stack"@, Some(fields::text_node(v.stack)));
    let t = fields::with_optional(t, "dns-hijack"@, Some(fields::texts_node(v.dns_hijack)));
    let t = fields::with_optional(t, "auto-route"@, Some(fields::flag_node(v.auto_route)));
    let t = fields::with_optional(
        t,
        "auto-detect-interface"@,
        Some(fields::flag_node(v.auto_detect_interface)),
    );
    let t = fields::with_optional(t, "mtu"@, Some(fields::uint_node(v.mtu)));
    let t = fields::with_optional(t, "gso"@, Some(fields::flag_node(v.gso)));
    let t = fields::with_optional(t, "gso-max-size"@, Some(fields::uint_node(v.gso_max_size)));
    let t = fields::with_optional(t, "inet4-address"@, Some(fields::texts_node(v.inet4_address)));
    let t = fields::with_optional(t, "inet6-address"@, Some(fields::texts_node(v.inet6_address)));
    let t = fields::with_optional(
        t,
        "iproute2-table-index"@,
        Some(fields::int_node(v.iproute2_table_index)),
    );
    let t = fields::with_optional(
        t,
        "iproute2-rule-index"@,
        Some(fields::int_node(v.iproute2_rule_index)),
    );
    let t = fields::with_optional(t, "auto-redirect"@, Some(fields::flag_node(v.auto_redirect)));
    let t = fields::with_optional(
        t,
        "auto-redirect-input-mark"@,
        Some(fields::uint_node(v.auto_redirect_input_mark)),
    );
    let t = fields::with_optional(
        t,
        "auto-redirect-output-mark"@,
        Some(fields::uint_node(v.auto_redirect_output_mark)),
    );
    let t = fields::with_optional(
        t,
        "auto-redirect-iproute2-fallback-rule-index"@,
        Some(fields::int_node(v.auto_redirect_iproute2_fallback_rule_index)),
    );
    let t = fields::with_optional(
        t,
        "loopback-address"@,
        Some(fields::texts_node(v.loopback_address)),
    );
    let t = fields::with_optional(t, "strict-route"@, Some(fields::flag_node(v.strict_route)));
    let t = fields::with_optional(t, "route-address"@, Some(fields::texts_node(v.route_address)));
    let t = fields::with_optional(
        t,
        "route-address-set"@,
        Some(fields::texts_node(v.route_address_set)),
    );
    let t = fields::with_optional(
        t,
        "route-exclude-address"@,
        Some(fields::texts_node(v.route_exclude_address)),
    );
    let t = fields::with_optional(
        t,
        "route-exclude-address-set"@,
        Some(fields::texts_node(v.route_exclude_address_set)),
    );
    let t = fields::with_optional(
        t,
        "include-interface"@,
        Some(fields::texts_node(v.include_interface)),
    );
    let t = fields::with_optional(
        t,
        "exclude-interface"@,
        Some(fields::texts_node(v.exclude_interface)),
    );
    let t = fields::with_optional(t, "include-uid"@, Some(fields::uints_node(v.include_uid)));
    let t = fields::with_optional(
        t,
        "include-uid-range"@,
        Some(fields::texts_node(v.include_uid_range)),
    );
    let t = fields::with_optional(t, "exclude-uid"@, Some(fields::uints_node(v.exclude_uid)));
    let t = fields::with_optional(
        t,
        "exclude-uid-range"@,
        Some(fields::texts_node(v.exclude_uid_range)),
    );
    let t = fields::with_optional(
        t,
        "include-android-user"@,
        Some(fields::ints_node(v.include_android_user)),
    );
    let t = fields::with_optional(
        t,
        "include-package"@,
        Some(fields::texts_node(v.include_package)),
    );
    let t = fields::with_optional(
        t,
        "exclude-package"@,
        Some(fields::texts_node(v.exclude_package)),
    );
    let t = fields::with_optional(
        t,
        "include-mac-address"@,
        Some(fields::texts_node(v.include_mac_address)),
    );
    let t = fields::with_optional(
        t,
        "exclude-mac-address"@,
        Some(fields::texts_node(v.exclude_mac_address)),
    );
    let t = fields::with_optional(
        t,
        "endpoint-independent-nat"@,
        Some(fields::flag_node(v.endpoint_independent_nat)),
    );
    let t = fields::with_optional(t, "udp-timeout"@, Some(fields::int_node(v.udp_timeout)));
    let t = fields::with_optional(t, "icmp-timeout"@, Some(fields::int_node(v.icmp_timeout)));
    let t = fields::with_optional(t, "file-descriptor"@, Some(fields::int_node(v.file_descriptor)));
    let t = fields::with_optional(
        t,
        "inet4-route-address"@,
        Some(fields::texts_node(v.inet4_route_address)),
    );
    let t = fields::with_optional(
        t,
        "inet6-route-address"@,
        Some(fields::texts_node(v.inet6_route_address)),
    );
    let t = fields::with_optional(
        t,
        "inet4-route-exclude-address"@,
        Some(fields::texts_node(v.inet4_route_exclude_address)),
    );
    let t = fields::with_optional(
        t,
        "inet6-route-exclude-address"@,
        Some(fields::texts_node(v.inet6_route_exclude_address)),
    );
    let t = fields::with_optional(t, "recvmsgx"@, Some(fields::flag_node(v.recvmsgx)));
    let t = fields::with_optional(t, "sendmsgx"@, Some(fields::flag_node(v.sendmsgx)));
    fields::lemma_apart(t);
    assert(t == v.tree());
}

proof fn lemma_tuic_keys(v: RuntimeTuicServer)
    requires
        mapped(v),
    ensures
        tree::well_keyed(Node::Table(v.tree())),
{
    broadcast use fields::group_keys;

    fields::lemma_pairs_keep_keys_apart(v.users);
    reveal_strlit("enable");
    assert("enable"@.len() == 6);
    reveal_strlit("listen");
    assert("listen"@.len() == 6);
    reveal_strlit("token");
    assert("token"@.len() == 5);
    reveal_strlit("users");
    assert("users"@.len() == 5);
    reveal_strlit("certificate");
    assert("certificate"@.len() == 11);
    reveal_strlit("private-key");
    assert("private-key"@.len() == 11);
    reveal_strlit("congestion-controller");
    assert("congestion-controller"@.len() == 21);
    reveal_strlit("max-idle-time");
    assert("max-idle-time"@.len() == 13);
    reveal_strlit("authentication-timeout");
    assert("authentication-timeout"@.len() == 22);
    reveal_strlit("alpn");
    assert("alpn"@.len() == 4);
    reveal_strlit("max-udp-relay-packet-size");
    assert("max-udp-relay-packet-size"@.len() == 25);
    reveal_strlit("cwnd");
    assert("cwnd"@.len() == 4);
    reveal_strlit("bbr-profile");
    assert("bbr-profile"@.len() == 11);
    assert("alpn"@[0] == 'a');
    assert("cwnd"@[0] == 'c');
    assert("token"@[0] == 't');
    assert("users"@[0] == 'u');
    assert("enable"@[0] == 'e');
    assert("listen"@[0] == 'l');
    assert("certificate"@[0] == 'c');
    assert("private-key"@[0] == 'p');
    assert("bbr-profile"@[0] == 'b');
    let t = fields::no_fields();
    let t = fields::with_optional(t, "enable"@, Some(fields::flag_node(v.enable)));
    let t = fields::with_optional(t, "listen"@, Some(fields::text_node(v.listen)));
    let t = fields::with_optional(t, "token"@, Some(fields::texts_node(v.token)));
    let t = fields::with_optional(t, "users"@, Some(fields::pairs_node(v.users)));
    let t = fields::with_optional(t, "certificate"@, Some(fields::text_node(v.certificate)));
    let t = fields::with_optional(t, "private-key"@, Some(fields::text_node(v.private_key)));
    let t = fields::with_optional(
        t,
        "congestion-controller"@,
        Some(fields::text_node(v.congestion_controller)),
    );
    let t = fields::with_optional(t, "max-idle-time"@, Some(fields::int_node(v.max_idle_time)));
    let t = fields::with_optional(
        t,
        "authentication-timeout"@,
        Some(fields::int_node(v.authentication_timeout)),
    );
    let t = fields::with_optional(t, "alpn"@, Some(fields::texts_node(v.alpn)));
    let t = fields::with_optional(
        t,
        "max-udp-relay-packet-size"@,
        Some(fields::int_node(v.max_udp_relay_packet_size)),
    );
    let t = fields::with_optional(t, "cwnd"@, Some(fields::int_node(v.cwnd)));
    let t = fields::with_optional(t, "bbr-profile"@, Some(fields::text_node(v.bbr_profile)));
    fields::lemma_apart(t);
    assert(t == v.tree());
}

#[verifier::spinoff_prover]
#[verifier::rlimit(80)]
proof fn lemma_tun_patch_keys(v: TunPatch)
    ensures
        tree::well_keyed(Node::Table(v.tree())),
{
    broadcast use fields::group_keys;

    reveal(fields::maybe_text);
    reveal(fields::maybe_flag);
    reveal(fields::maybe_int);
    reveal(fields::maybe_uint);
    reveal(fields::maybe_texts);
    reveal(fields::maybe_uints);
    reveal(fields::maybe_ints);
    reveal_strlit("enable");
    assert("enable"@.len() == 6);
    reveal_strlit("device");
    assert("device"@.len() == 6);
    reveal_strlit("stack");
    assert("stack"@.len() == 5);
    reveal_strlit("dns-hijack");
    assert("dns-hijack"@.len() == 10);
    reveal_strlit("auto-route");
    assert("auto-route"@.len() == 10);
    reveal_strlit("auto-detect-interface");
    assert("auto-detect-interface"@.len() == 21);
    reveal_strlit("mtu");
    assert("mtu"@.len() == 3);
    reveal_strlit("gso");
    assert("gso"@.len() == 3);
    reveal_strlit("gso-max-size");
    assert("gso-max-size"@.len() == 12);
    reveal_strlit("inet6-address");
    assert("inet6-address"@.len() == 13);
    reveal_strlit("iproute2-table-index");
    assert("iproute2-table-index"@.len() == 20);
    reveal_strlit("iproute2-rule-index");
    assert("iproute2-rule-index"@.len() == 19);
    reveal_strlit("auto-redirect");
    assert("auto-redirect"@.len() == 13);
    reveal_strlit("auto-redirect-input-mark");
    assert("auto-redirect-input-mark"@.len() == 24);
    reveal_strlit("auto-redirect-output-mark");
    assert("auto-redirect-output-mark"@.len() == 25);
    reveal_strlit("auto-redirect-iproute2-fallback-rule-index");
    assert("auto-redirect-iproute2-fallback-rule-index"@.len() == 42);
    reveal_strlit("loopback-address");
    assert("loopback-address"@.len() == 16);
    reveal_strlit("strict-route");
    assert("strict-route"@.len() == 12);
    reveal_strlit("route-address");
    assert("route-address"@.len() == 13);
    reveal_strlit("route-address-set");
    assert("route-address-set"@.len() == 17);
    reveal_strlit("route-exclude-address");
    assert("route-exclude-address"@.len() == 21);
    reveal_strlit("route-exclude-address-set");
    assert("route-exclude-address-set"@.len() == 25);
    reveal_strlit("include-interface");
    assert("include-interface"@.len() == 17);
    reveal_strlit("exclude-interface");
    assert("exclude-interface"@.len() == 17);
    reveal_strlit("include-uid");
    assert("include-uid"@.len() == 11);
    reveal_strlit("include-uid-range");
    assert("include-uid-range"@.len() == 17);
    reveal_strlit("exclude-uid");
    assert("exclude-uid"@.len() == 11);
    reveal_strlit("exclude-uid-range");
    assert("exclude-uid-range"@.len() == 17);
    reveal_strlit("include-android-user");
    assert("include-android-user"@.len() == 20);
    reveal_strlit("include-package");
    assert("include-package"@.len() == 15);
    reveal_strlit("exclude-package");
    assert("exclude-package"@.len() == 15);
    reveal_strlit("include-mac-address");
    assert("include-mac-address"@.len() == 19);
    reveal_strlit("exclude-mac-address");
    assert("exclude-mac-address"@.len() == 19);
    reveal_strlit("endpoint-independent-nat");
    assert("endpoint-independent-nat"@.len() == 24);
    reveal_strlit("udp-timeout");
    assert("udp-timeout"@.len() == 11);
    reveal_strlit("icmp-timeout");
    assert("icmp-timeout"@.len() == 12);
    reveal_strlit("file-descriptor");
    assert("file-descriptor"@.len() == 15);
    reveal_strlit("inet4-route-address");
    assert("inet4-route-address"@.len() == 19);
    reveal_strlit("inet6-route-address");
    assert("inet6-route-address"@.len() == 19);
    reveal_strlit("inet4-route-exclude-address");
    assert("inet4-route-exclude-address"@.len() == 27);
    reveal_strlit("inet6-route-exclude-address");
    assert("inet6-route-exclude-address"@.len() == 27);
    reveal_strlit("recvmsgx");
    assert("recvmsgx"@.len() == 8);
    reveal_strlit("sendmsgx");
    assert("sendmsgx"@.len() == 8);
    assert("mtu"@[0] == 'm');
    assert("gso"@[0] == 'g');
    assert("enable"@[0] == 'e');
    assert("device"@[0] == 'd');
    assert("recvmsgx"@[0] == 'r');
    assert("sendmsgx"@[0] == 's');
    assert("dns-hijack"@[0] == 'd');
    assert("auto-route"@[0] == 'a');
    assert("include-uid"@[0] == 'i');
    assert("exclude-uid"@[0] == 'e');
    assert("udp-timeout"@[0] == 'u');
    assert("gso-max-size"@[0] == 'g');
    assert("strict-route"@[0] == 's');
    assert("icmp-timeout"@[0] == 'i');
    assert("inet6-address"@[0] == 'i');
    assert("auto-redirect"@[0] == 'a');
    assert("route-address"@[0] == 'r');
    assert("include-package"@[0] == 'i');
    assert("exclude-package"@[0] == 'e');
    assert("file-descriptor"@[0] == 'f');
    assert("route-address-set"@[0] == 'r' && "route-address-set"@[8] == 'd');
    assert("include-interface"@[0] == 'i' && "include-interface"@[8] == 'i');
    assert("exclude-interface"@[0] == 'e' && "exclude-interface"@[8] == 'i');
    assert("include-uid-range"@[0] == 'i' && "include-uid-range"@[8] == 'u');
    assert("exclude-uid-range"@[0] == 'e' && "exclude-uid-range"@[8] == 'u');
    assert("iproute2-rule-index"@[1] == 'p' && "iproute2-rule-index"@[4] == 'u');
    assert("include-mac-address"@[1] == 'n' && "include-mac-address"@[4] == 'u');
    assert("exclude-mac-address"@[1] == 'x' && "exclude-mac-address"@[4] == 'u');
    assert("inet4-route-address"@[1] == 'n' && "inet4-route-address"@[4] == '4');
    assert("inet6-route-address"@[1] == 'n' && "inet6-route-address"@[4] == '6');
    assert("iproute2-table-index"@[1] == 'p');
    assert("include-android-user"@[1] == 'n');
    assert("auto-detect-interface"@[0] == 'a');
    assert("route-exclude-address"@[0] == 'r');
    assert("auto-redirect-input-mark"@[0] == 'a');
    assert("endpoint-independent-nat"@[0] == 'e');
    assert("auto-redirect-output-mark"@[0] == 'a');
    assert("route-exclude-address-set"@[0] == 'r');
    assert("inet4-route-exclude-address"@[4] == '4');
    assert("inet6-route-exclude-address"@[4] == '6');
    let t = fields::no_fields();
    let t = fields::with_optional(t, "enable"@, Some(fields::flag_node(v.enable)));
    let t = fields::with_optional(t, "device"@, fields::maybe_text(v.device));
    let t = fields::with_optional(t, "stack"@, fields::maybe_text(v.stack));
    let t = fields::with_optional(t, "dns-hijack"@, fields::maybe_texts(v.dns_hijack));
    let t = fields::with_optional(t, "auto-route"@, fields::maybe_flag(v.auto_route));
    let t = fields::with_optional(
        t,
        "auto-detect-interface"@,
        fields::maybe_flag(v.auto_detect_interface),
    );
    let t = fields::with_optional(t, "mtu"@, fields::maybe_uint(v.mtu));
    let t = fields::with_optional(t, "gso"@, fields::maybe_flag(v.gso));
    let t = fields::with_optional(t, "gso-max-size"@, fields::maybe_uint(v.gso_max_size));
    let t = fields::with_optional(t, "inet6-address"@, fields::maybe_texts(v.inet6_address));
    let t = fields::with_optional(
        t,
        "iproute2-table-index"@,
        fields::maybe_int(v.iproute2_table_index),
    );
    let t = fields::with_optional(
        t,
        "iproute2-rule-index"@,
        fields::maybe_int(v.iproute2_rule_index),
    );
    let t = fields::with_optional(t, "auto-redirect"@, fields::maybe_flag(v.auto_redirect));
    let t = fields::with_optional(
        t,
        "auto-redirect-input-mark"@,
        fields::maybe_uint(v.auto_redirect_input_mark),
    );
    let t = fields::with_optional(
        t,
        "auto-redirect-output-mark"@,
        fields::maybe_uint(v.auto_redirect_output_mark),
    );
    let t = fields::with_optional(
        t,
        "auto-redirect-iproute2-fallback-rule-index"@,
        fields::maybe_int(v.auto_redirect_iproute2_fallback_rule_index),
    );
    let t = fields::with_optional(t, "loopback-address"@, fields::maybe_texts(v.loopback_address));
    let t = fields::with_optional(t, "strict-route"@, fields::maybe_flag(v.strict_route));
    let t = fields::with_optional(t, "route-address"@, fields::maybe_texts(v.route_address));
    let t = fields::with_optional(
        t,
        "route-address-set"@,
        fields::maybe_texts(v.route_address_set),
    );
    let t = fields::with_optional(
        t,
        "route-exclude-address"@,
        fields::maybe_texts(v.route_exclude_address),
    );
    let t = fields::with_optional(
        t,
        "route-exclude-address-set"@,
        fields::maybe_texts(v.route_exclude_address_set),
    );
    let t = fields::with_optional(
        t,
        "include-interface"@,
        fields::maybe_texts(v.include_interface),
    );
    let t = fields::with_optional(
        t,
        "exclude-interface"@,
        fields::maybe_texts(v.exclude_interface),
    );
    let t = fields::with_optional(t, "include-uid"@, fields::maybe_uints(v.include_uid));
    let t = fields::with_optional(
        t,
        "include-uid-range"@,
        fields::maybe_texts(v.include_uid_range),
    );
    let t = fields::with_optional(t, "exclude-uid"@, fields::maybe_uints(v.exclude_uid));
    let t = fields::with_optional(
        t,
        "exclude-uid-range"@,
        fields::maybe_texts(v.exclude_uid_range),
    );
    let t = fields::with_optional(
        t,
        "include-android-user"@,
        fields::maybe_ints(v.include_android_user),
    );
    let t = fields::with_optional(t, "include-package"@, fields::maybe_texts(v.include_package));
    let t = fields::with_optional(t, "exclude-package"@, fields::maybe_texts(v.exclude_package));
    let t = fields::with_optional(
        t,
        "include-mac-address"@,
        fields::maybe_texts(v.include_mac_address),
    );
    let t = fields::with_optional(
        t,
        "exclude-mac-address"@,
        fields::maybe_texts(v.exclude_mac_address),
    );
    let t = fields::with_optional(
        t,
        "endpoint-independent-nat"@,
        fields::maybe_flag(v.endpoint_independent_nat),
    );
    let t = fields::with_optional(t, "udp-timeout"@, fields::maybe_int(v.udp_timeout));
    let t = fields::with_optional(t, "icmp-timeout"@, fields::maybe_int(v.icmp_timeout));
    let t = fields::with_optional(t, "file-descriptor"@, fields::maybe_int(v.file_descriptor));
    let t = fields::with_optional(
        t,
        "inet4-route-address"@,
        fields::maybe_texts(v.inet4_route_address),
    );
    let t = fields::with_optional(
        t,
        "inet6-route-address"@,
        fields::maybe_texts(v.inet6_route_address),
    );
    let t = fields::with_optional(
        t,
        "inet4-route-exclude-address"@,
        fields::maybe_texts(v.inet4_route_exclude_address),
    );
    let t = fields::with_optional(
        t,
        "inet6-route-exclude-address"@,
        fields::maybe_texts(v.inet6_route_exclude_address),
    );
    let t = fields::with_optional(t, "recvmsgx"@, fields::maybe_flag(v.recvmsgx));
    let t = fields::with_optional(t, "sendmsgx"@, fields::maybe_flag(v.sendmsgx));
    fields::lemma_apart(t);
    assert(t == v.tree());
}

proof fn lemma_tuic_patch_keys(v: TuicServerPatch)
    requires
        patch_mapped(v),
    ensures
        tree::well_keyed(Node::Table(v.tree())),
{
    broadcast use fields::group_keys;

    if let Some(users) = v.users {
        fields::lemma_pairs_keep_keys_apart(users);
    }
    reveal(fields::maybe_text);
    reveal(fields::maybe_int);
    reveal(fields::maybe_texts);
    reveal(fields::maybe_pairs);
    reveal_strlit("enable");
    assert("enable"@.len() == 6);
    reveal_strlit("listen");
    assert("listen"@.len() == 6);
    reveal_strlit("token");
    assert("token"@.len() == 5);
    reveal_strlit("users");
    assert("users"@.len() == 5);
    reveal_strlit("certificate");
    assert("certificate"@.len() == 11);
    reveal_strlit("private-key");
    assert("private-key"@.len() == 11);
    reveal_strlit("congestion-controller");
    assert("congestion-controller"@.len() == 21);
    reveal_strlit("max-idle-time");
    assert("max-idle-time"@.len() == 13);
    reveal_strlit("authentication-timeout");
    assert("authentication-timeout"@.len() == 22);
    reveal_strlit("alpn");
    assert("alpn"@.len() == 4);
    reveal_strlit("max-udp-relay-packet-size");
    assert("max-udp-relay-packet-size"@.len() == 25);
    reveal_strlit("cwnd");
    assert("cwnd"@.len() == 4);
    reveal_strlit("bbr-profile");
    assert("bbr-profile"@.len() == 11);
    assert("alpn"@[0] == 'a');
    assert("cwnd"@[0] == 'c');
    assert("token"@[0] == 't');
    assert("users"@[0] == 'u');
    assert("enable"@[0] == 'e');
    assert("listen"@[0] == 'l');
    assert("certificate"@[0] == 'c');
    assert("private-key"@[0] == 'p');
    assert("bbr-profile"@[0] == 'b');
    let t = fields::no_fields();
    let t = fields::with_optional(t, "enable"@, Some(fields::flag_node(v.enable)));
    let t = fields::with_optional(t, "listen"@, fields::maybe_text(v.listen));
    let t = fields::with_optional(t, "token"@, fields::maybe_texts(v.token));
    let t = fields::with_optional(t, "users"@, fields::maybe_pairs(v.users));
    let t = fields::with_optional(t, "certificate"@, fields::maybe_text(v.certificate));
    let t = fields::with_optional(t, "private-key"@, fields::maybe_text(v.private_key));
    let t = fields::with_optional(
        t,
        "congestion-controller"@,
        fields::maybe_text(v.congestion_controller),
    );
    let t = fields::with_optional(t, "max-idle-time"@, fields::maybe_int(v.max_idle_time));
    let t = fields::with_optional(
        t,
        "authentication-timeout"@,
        fields::maybe_int(v.authentication_timeout),
    );
    let t = fields::with_optional(t, "alpn"@, fields::maybe_texts(v.alpn));
    let t = fields::with_optional(
        t,
        "max-udp-relay-packet-size"@,
        fields::maybe_int(v.max_udp_relay_packet_size),
    );
    let t = fields::with_optional(t, "cwnd"@, fields::maybe_int(v.cwnd));
    let t = fields::with_optional(t, "bbr-profile"@, fields::maybe_text(v.bbr_profile));
    fields::lemma_apart(t);
    assert(t == v.tree());
}

/// What a running core shows has no key twice, so that it shows what is expected of
/// itself.
pub proof fn law_running_configs_are_well_keyed(v: RuntimeConfig)
    requires
        v.tuic_server matches Some(tuic) ==> mapped(tuic),
    ensures
        tree::well_keyed(Node::Table(v.tree())),
        config::agrees(
            tree::leaves(Node::Table(v.tree()), Seq::empty()),
            Node::Table(v.tree()),
        ),
{
    broadcast use fields::group_keys;

    if let Some(tun) = v.tun {
        lemma_tun_keys(tun);
    }
    if let Some(tuic) = v.tuic_server {
        lemma_tuic_keys(tuic);
    }
    reveal(config::maybe_tun);
    reveal(config::maybe_tuic);
    reveal(fields::maybe_text);
    reveal(fields::maybe_flag);
    reveal(fields::maybe_int);
    reveal(fields::maybe_texts);
    reveal_strlit("port");
    assert("port"@.len() == 4);
    reveal_strlit("mode");
    assert("mode"@.len() == 4);
    reveal_strlit("ipv6");
    assert("ipv6"@.len() == 4);
    reveal_strlit("socket-port");
    assert("socket-port"@.len() == 11);
    reveal_strlit("allow-lan");
    assert("allow-lan"@.len() == 9);
    reveal_strlit("log-level");
    assert("log-level"@.len() == 9);
    reveal_strlit("mixed-port");
    assert("mixed-port"@.len() == 10);
    reveal_strlit("redir-port");
    assert("redir-port"@.len() == 10);
    reveal_strlit("socks-port");
    assert("socks-port"@.len() == 10);
    reveal_strlit("tproxy-port");
    assert("tproxy-port"@.len() == 11);
    reveal_strlit("external-controller");
    assert("external-controller"@.len() == 19);
    reveal_strlit("secret");
    assert("secret"@.len() == 6);
    reveal_strlit("bind-address");
    assert("bind-address"@.len() == 12);
    reveal_strlit("sniffing");
    assert("sniffing"@.len() == 8);
    reveal_strlit("tcp-concurrent");
    assert("tcp-concurrent"@.len() == 14);
    reveal_strlit("find-process-mode");
    assert("find-process-mode"@.len() == 17);
    reveal_strlit("interface-name");
    assert("interface-name"@.len() == 14);
    reveal_strlit("tun");
    assert("tun"@.len() == 3);
    reveal_strlit("tuic-server");
    assert("tuic-server"@.len() == 11);
    reveal_strlit("ss-config");
    assert("ss-config"@.len() == 9);
    reveal_strlit("vmess-config");
    assert("vmess-config"@.len() == 12);
    reveal_strlit("tcptun-config");
    assert("tcptun-config"@.len() == 13);
    reveal_strlit("udptun-config");
    assert("udptun-config"@.len() == 13);
    reveal_strlit("authentication");
    assert("authentication"@.len() == 14);
    reveal_strlit("skip-auth-prefixes");
    assert("skip-auth-prefixes"@.len() == 18);
    reveal_strlit("lan-allowed-ips");
    assert("lan-allowed-ips"@.len() == 15);
    reveal_strlit("lan-disallowed-ips");
    assert("lan-disallowed-ips"@.len() == 18);
    assert("port"@[0] == 'p');
    assert("mode"@[0] == 'm');
    assert("ipv6"@[0] == 'i');
    assert("allow-lan"@[0] == 'a');
    assert("log-level"@[0] == 'l');
    assert("ss-config"@[0] == 's');
    assert("mixed-port"@[0] == 'm');
    assert("redir-port"@[0] == 'r');
    assert("socks-port"@[0] == 's');
    assert("socket-port"@[1] == 'o');
    assert("tproxy-port"@[1] == 'p');
    assert("tuic-server"@[1] == 'u');
    assert("bind-address"@[0] == 'b');
    assert("vmess-config"@[0] == 'v');
    assert("tcptun-config"@[0] == 't');
    assert("udptun-config"@[0] == 'u');
    assert("tcp-concurrent"@[0] == 't');
    assert("interface-name"@[0] == 'i');
    assert("authentication"@[0] == 'a');
    assert("skip-auth-prefixes"@[0] == 's');
    assert("lan-disallowed-ips"@[0] == 'l');
    let t = fields::no_fields();
    let t = fields::with_nullable(t, "port"@, fields::maybe_int(v.port));
    let t = fields::with_nullable(t, "mode"@, fields::maybe_text(v.mode));
    let t = fields::with_nullable(t, "ipv6"@, fields::maybe_flag(v.ipv6));
    let t = fields::with_nullable(t, "socket-port"@, fields::maybe_int(v.socket_port));
    let t = fields::with_nullable(t, "allow-lan"@, fields::maybe_flag(v.allow_lan));
    let t = fields::with_nullable(t, "log-level"@, fields::maybe_text(v.log_level));
    let t = fields::with_nullable(t, "mixed-port"@, fields::maybe_int(v.mixed_port));
    let t = fields::with_nullable(t, "redir-port"@, fields::maybe_int(v.redir_port));
    let t = fields::with_nullable(t, "socks-port"@, fields::maybe_int(v.socks_port));
    let t = fields::with_nullable(t, "tproxy-port"@, fields::maybe_int(v.tproxy_port));
    let t = fields::with_nullable(
        t,
        "external-controller"@,
        fields::maybe_text(v.external_controller),
    );
    let t = fields::with_nullable(t, "secret"@, fields::maybe_text(v.secret));
    let t = fields::with_nullable(t, "bind-address"@, fields::maybe_text(v.bind_address));
    let t = fields::with_nullable(t, "sniffing"@, fields::maybe_flag(v.sniffing));
    let t = fields::with_nullable(t, "tcp-concurrent"@, fields::maybe_flag(v.tcp_concurrent));
    let t = fields::with_nullable(t, "find-process-mode"@, fields::maybe_text(v.find_process_mode));
    let t = fields::with_nullable(t, "interface-name"@, fields::maybe_text(v.interface_name));
    let t = fields::with_nullable(t, "tun"@, config::maybe_tun(v.tun));
    let t = fields::with_nullable(t, "tuic-server"@, config::maybe_tuic(v.tuic_server));
    let t = fields::with_nullable(t, "ss-config"@, fields::maybe_text(v.ss_config));
    let t = fields::with_nullable(t, "vmess-config"@, fields::maybe_text(v.vmess_config));
    let t = fields::with_nullable(t, "tcptun-config"@, fields::maybe_text(v.tcptun_config));
    let t = fields::with_nullable(t, "udptun-config"@, fields::maybe_text(v.udptun_config));
    let t = fields::with_nullable(t, "authentication"@, fields::maybe_texts(v.authentication));
    let t = fields::with_nullable(
        t,
        "skip-auth-prefixes"@,
        fields::maybe_texts(v.skip_auth_prefixes),
    );
    let t = fields::with_nullable(t, "lan-allowed-ips"@, fields::maybe_texts(v.lan_allowed_ips));
    let t = fields::with_nullable(
        t,
        "lan-disallowed-ips"@,
        fields::maybe_texts(v.lan_disallowed_ips),
    );
    fields::lemma_apart(t);
    assert(t == v.tree());
    config::law_projection_of_itself(Node::Table(v.tree()));
}

/// A change has no key twice, so that it shows what is expected of itself.
pub proof fn law_changes_are_well_keyed(v: ConfigPatch)
    requires
        v.tuic_server matches Some(tuic) ==> patch_mapped(tuic),
    ensures
        tree::well_keyed(Node::Table(v.tree())),
        config::agrees(
            tree::leaves(Node::Table(v.tree()), Seq::empty()),
            Node::Table(v.tree()),
        ),
{
    broadcast use fields::group_keys;

    if let Some(tun) = v.tun {
        lemma_tun_patch_keys(tun);
    }
    if let Some(tuic) = v.tuic_server {
        lemma_tuic_patch_keys(tuic);
    }
    reveal(config::maybe_tun_patch);
    reveal(config::maybe_tuic_patch);
    reveal(fields::maybe_text);
    reveal(fields::maybe_flag);
    reveal(fields::maybe_int);
    reveal(fields::maybe_texts);
    reveal_strlit("port");
    assert("port"@.len() == 4);
    reveal_strlit("socks-port");
    assert("socks-port"@.len() == 10);
    reveal_strlit("redir-port");
    assert("redir-port"@.len() == 10);
    reveal_strlit("tproxy-port");
    assert("tproxy-port"@.len() == 11);
    reveal_strlit("mixed-port");
    assert("mixed-port"@.len() == 10);
    reveal_strlit("tun");
    assert("tun"@.len() == 3);
    reveal_strlit("tuic-server");
    assert("tuic-server"@.len() == 11);
    reveal_strlit("ss-config");
    assert("ss-config"@.len() == 9);
    reveal_strlit("vmess-config");
    assert("vmess-config"@.len() == 12);
    reveal_strlit("tcptun-config");
    assert("tcptun-config"@.len() == 13);
    reveal_strlit("udptun-config");
    assert("udptun-config"@.len() == 13);
    reveal_strlit("allow-lan");
    assert("allow-lan"@.len() == 9);
    reveal_strlit("skip-auth-prefixes");
    assert("skip-auth-prefixes"@.len() == 18);
    reveal_strlit("lan-allowed-ips");
    assert("lan-allowed-ips"@.len() == 15);
    reveal_strlit("lan-disallowed-ips");
    assert("lan-disallowed-ips"@.len() == 18);
    reveal_strlit("bind-address");
    assert("bind-address"@.len() == 12);
    reveal_strlit("mode");
    assert("mode"@.len() == 4);
    reveal_strlit("log-level");
    assert("log-level"@.len() == 9);
    reveal_strlit("ipv6");
    assert("ipv6"@.len() == 4);
    reveal_strlit("sniffing");
    assert("sniffing"@.len() == 8);
    reveal_strlit("tcp-concurrent");
    assert("tcp-concurrent"@.len() == 14);
    reveal_strlit("find-process-mode");
    assert("find-process-mode"@.len() == 17);
    reveal_strlit("interface-name");
    assert("interface-name"@.len() == 14);
    assert("port"@[0] == 'p');
    assert("mode"@[0] == 'm');
    assert("ipv6"@[0] == 'i');
    assert("ss-config"@[0] == 's');
    assert("allow-lan"@[0] == 'a');
    assert("log-level"@[0] == 'l');
    assert("socks-port"@[0] == 's');
    assert("redir-port"@[0] == 'r');
    assert("mixed-port"@[0] == 'm');
    assert("tproxy-port"@[1] == 'p');
    assert("tuic-server"@[1] == 'u');
    assert("vmess-config"@[0] == 'v');
    assert("bind-address"@[0] == 'b');
    assert("tcptun-config"@[0] == 't');
    assert("udptun-config"@[0] == 'u');
    assert("tcp-concurrent"@[0] == 't');
    assert("interface-name"@[0] == 'i');
    assert("skip-auth-prefixes"@[0] == 's');
    assert("lan-disallowed-ips"@[0] == 'l');
    let t = fields::no_fields();
    let t = fields::with_optional(t, "port"@, fields::maybe_int(v.port));
    let t = fields::with_optional(t, "socks-port"@, fields::maybe_int(v.socks_port));
    let t = fields::with_optional(t, "redir-port"@, fields::maybe_int(v.redir_port));
    let t = fields::with_optional(t, "tproxy-port"@, fields::maybe_int(v.tproxy_port));
    let t = fields::with_optional(t, "mixed-port"@, fields::maybe_int(v.mixed_port));
    let t = fields::with_optional(t, "tun"@, config::maybe_tun_patch(v.tun));
    let t = fields::with_optional(t, "tuic-server"@, config::maybe_tuic_patch(v.tuic_server));
    let t = fields::with_optional(t, "ss-config"@, fields::maybe_text(v.ss_config));
    let t = fields::with_optional(t, "vmess-config"@, fields::maybe_text(v.vmess_config));
    let t = fields::with_optional(t, "tcptun-config"@, fields::maybe_text(v.tcptun_config));
    let t = fields::with_optional(t, "udptun-config"@, fields::maybe_text(v.udptun_config));
    let t = fields::with_optional(t, "allow-lan"@, fields::maybe_flag(v.allow_lan));
    let t = fields::with_optional(
        t,
        "skip-auth-prefixes"@,
        fields::maybe_texts(v.skip_auth_prefixes),
    );
    let t = fields::with_optional(t, "lan-allowed-ips"@, fields::maybe_texts(v.lan_allowed_ips));
    let t = fields::with_optional(
        t,
        "lan-disallowed-ips"@,
        fields::maybe_texts(v.lan_disallowed_ips),
    );
    let t = fields::with_optional(t, "bind-address"@, fields::maybe_text(v.bind_address));
    let t = fields::with_optional(t, "mode"@, fields::maybe_text(v.mode));
    let t = fields::with_optional(t, "log-level"@, fields::maybe_text(v.log_level));
    let t = fields::with_optional(t, "ipv6"@, fields::maybe_flag(v.ipv6));
    let t = fields::with_optional(t, "sniffing"@, fields::maybe_flag(v.sniffing));
    let t = fields::with_optional(t, "tcp-concurrent"@, fields::maybe_flag(v.tcp_concurrent));
    let t = fields::with_optional(t, "find-process-mode"@, fields::maybe_text(v.find_process_mode));
    let t = fields::with_optional(t, "interface-name"@, fields::maybe_text(v.interface_name));
    fields::lemma_apart(t);
    assert(t == v.tree());
    config::law_projection_of_itself(Node::Table(v.tree()));
}

} // verus!
