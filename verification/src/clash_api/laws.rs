//! What the typed parts of the controller's configuration carry.

use vstd::prelude::*;

use crate::clash_api::config;
use crate::clash_api::config::{
    ConfigPatch, RuntimeConfig, RuntimeTuicServer, RuntimeTun, TuicServerPatch, TunPatch,
};
use crate::clash_api::fields;
use crate::value::Node;

verus! {

/// A list is told item by item, in its order; so are the pairs of a map.
pub proof fn law_lists_are_told_in_order(
    texts: Vec<String>,
    uints: Vec<u32>,
    ints: Vec<i64>,
    pairs: Vec<(String, String)>,
)
    ensures
        fields::texts_node(texts) matches Node::List(items) && items.len() == texts@.len() && (
        forall|i: int| 0 <= i < items.len() ==> #[trigger] items[i] == Node::Text(texts@[i]@)),
        fields::uints_node(uints) matches Node::List(items) && items.len() == uints@.len() && (
        forall|i: int| 0 <= i < items.len() ==> #[trigger] items[i] == Node::Int(uints@[i] as int)),
        fields::ints_node(ints) matches Node::List(items) && items.len() == ints@.len() && (
        forall|i: int| 0 <= i < items.len() ==> #[trigger] items[i] == Node::Int(ints@[i] as int)),
        fields::pairs_node(pairs) matches Node::Table(table) && table.len() == pairs@.len() && (
        forall|i: int|
            0 <= i < table.len() ==> #[trigger] table[i] == (
                Node::Text(pairs@[i].0@),
                Node::Text(pairs@[i].1@),
            )),
{
}

/// The table has an entry of this key with this value.
pub open spec fn carries(table: Seq<(Node, Node)>, key: Seq<char>, node: Node) -> bool {
    table.contains((Node::Text(key), node))
}

/// A number as it is told.
pub open spec fn signed(n: i64) -> Node {
    Node::Int(n as int)
}

pub open spec fn unsigned(n: u32) -> Node {
    Node::Int(n as int)
}

broadcast proof fn lemma_optional_entry(key: Seq<char>, node: Node)
    ensures
        #[trigger] fields::optional(key, Some(node)).contains((Node::Text(key), node)),
{
    reveal(fields::optional);
    assert(fields::optional(key, Some(node))[0] == (Node::Text(key), node));
}

broadcast proof fn lemma_nullable_entry(key: Seq<char>, node: Node)
    ensures
        #[trigger] fields::nullable(key, Some(node)).contains((Node::Text(key), node)),
{
    reveal(fields::nullable);
    assert(fields::nullable(key, Some(node))[0] == (Node::Text(key), node));
}

broadcast proof fn lemma_null_entry(key: Seq<char>)
    ensures
        #[trigger] fields::nullable(key, None).contains((Node::Text(key), Node::Null)),
{
    reveal(fields::nullable);
    assert(fields::nullable(key, None)[0] == (Node::Text(key), Node::Null));
}

broadcast proof fn lemma_optional_len(key: Seq<char>, node: Option<Node>)
    ensures
        #[trigger] fields::optional(key, node).len() == one(node),
{
    reveal(fields::optional);
}

broadcast proof fn lemma_nullable_len(key: Seq<char>, node: Option<Node>)
    ensures
        #[trigger] fields::nullable(key, node).len() == 1,
{
    reveal(fields::nullable);
}

broadcast group group_entries {
    vstd::seq_lib::lemma_seq_concat_contains_all_elements,
    lemma_optional_entry,
    lemma_nullable_entry,
    lemma_null_entry,
    lemma_optional_len,
    lemma_nullable_len,
}

/// One for a part that is there.
pub open spec fn one<A>(part: Option<A>) -> int {
    if part is Some {
        1
    } else {
        0
    }
}

/// The document of a running tunnel device has every field of it under its name, and
/// nothing else.
#[verifier::spinoff_prover]
#[verifier::rlimit(60)]
pub proof fn law_running_tunnels_are_told_in_full(v: RuntimeTun)
    ensures
        carries(v.tree(), "enable"@, Node::Bool(v.enable)),
        carries(v.tree(), "device"@, Node::Text(v.device@)),
        carries(v.tree(), "stack"@, Node::Text(v.stack@)),
        carries(v.tree(), "dns-hijack"@, fields::texts_node(v.dns_hijack)),
        carries(v.tree(), "auto-route"@, Node::Bool(v.auto_route)),
        carries(v.tree(), "auto-detect-interface"@, Node::Bool(v.auto_detect_interface)),
        carries(v.tree(), "mtu"@, unsigned(v.mtu)),
        carries(v.tree(), "gso"@, Node::Bool(v.gso)),
        carries(v.tree(), "gso-max-size"@, unsigned(v.gso_max_size)),
        carries(v.tree(), "inet4-address"@, fields::texts_node(v.inet4_address)),
        carries(v.tree(), "inet6-address"@, fields::texts_node(v.inet6_address)),
        carries(v.tree(), "iproute2-table-index"@, signed(v.iproute2_table_index)),
        carries(v.tree(), "iproute2-rule-index"@, signed(v.iproute2_rule_index)),
        carries(v.tree(), "auto-redirect"@, Node::Bool(v.auto_redirect)),
        carries(v.tree(), "auto-redirect-input-mark"@, unsigned(v.auto_redirect_input_mark)),
        carries(v.tree(), "auto-redirect-output-mark"@, unsigned(v.auto_redirect_output_mark)),
        carries(v.tree(), "auto-redirect-iproute2-fallback-rule-index"@, signed(v.auto_redirect_iproute2_fallback_rule_index)),
        carries(v.tree(), "loopback-address"@, fields::texts_node(v.loopback_address)),
        carries(v.tree(), "strict-route"@, Node::Bool(v.strict_route)),
        carries(v.tree(), "route-address"@, fields::texts_node(v.route_address)),
        carries(v.tree(), "route-address-set"@, fields::texts_node(v.route_address_set)),
        carries(v.tree(), "route-exclude-address"@, fields::texts_node(v.route_exclude_address)),
        carries(v.tree(), "route-exclude-address-set"@, fields::texts_node(v.route_exclude_address_set)),
        carries(v.tree(), "include-interface"@, fields::texts_node(v.include_interface)),
        carries(v.tree(), "exclude-interface"@, fields::texts_node(v.exclude_interface)),
        carries(v.tree(), "include-uid"@, fields::uints_node(v.include_uid)),
        carries(v.tree(), "include-uid-range"@, fields::texts_node(v.include_uid_range)),
        carries(v.tree(), "exclude-uid"@, fields::uints_node(v.exclude_uid)),
        carries(v.tree(), "exclude-uid-range"@, fields::texts_node(v.exclude_uid_range)),
        carries(v.tree(), "include-android-user"@, fields::ints_node(v.include_android_user)),
        carries(v.tree(), "include-package"@, fields::texts_node(v.include_package)),
        carries(v.tree(), "exclude-package"@, fields::texts_node(v.exclude_package)),
        carries(v.tree(), "include-mac-address"@, fields::texts_node(v.include_mac_address)),
        carries(v.tree(), "exclude-mac-address"@, fields::texts_node(v.exclude_mac_address)),
        carries(v.tree(), "endpoint-independent-nat"@, Node::Bool(v.endpoint_independent_nat)),
        carries(v.tree(), "udp-timeout"@, signed(v.udp_timeout)),
        carries(v.tree(), "icmp-timeout"@, signed(v.icmp_timeout)),
        carries(v.tree(), "file-descriptor"@, signed(v.file_descriptor)),
        carries(v.tree(), "inet4-route-address"@, fields::texts_node(v.inet4_route_address)),
        carries(v.tree(), "inet6-route-address"@, fields::texts_node(v.inet6_route_address)),
        carries(v.tree(), "inet4-route-exclude-address"@, fields::texts_node(v.inet4_route_exclude_address)),
        carries(v.tree(), "inet6-route-exclude-address"@, fields::texts_node(v.inet6_route_exclude_address)),
        carries(v.tree(), "recvmsgx"@, Node::Bool(v.recvmsgx)),
        carries(v.tree(), "sendmsgx"@, Node::Bool(v.sendmsgx)),
        v.tree().len() == 44,
{
    broadcast use group_entries;

}

/// The document of a running TUIC listener has every field of it under its name, and
/// nothing else.
#[verifier::spinoff_prover]
#[verifier::rlimit(60)]
pub proof fn law_running_listeners_are_told_in_full(v: RuntimeTuicServer)
    ensures
        carries(v.tree(), "enable"@, Node::Bool(v.enable)),
        carries(v.tree(), "listen"@, Node::Text(v.listen@)),
        carries(v.tree(), "token"@, fields::texts_node(v.token)),
        carries(v.tree(), "users"@, fields::pairs_node(v.users)),
        carries(v.tree(), "certificate"@, Node::Text(v.certificate@)),
        carries(v.tree(), "private-key"@, Node::Text(v.private_key@)),
        carries(v.tree(), "congestion-controller"@, Node::Text(v.congestion_controller@)),
        carries(v.tree(), "max-idle-time"@, signed(v.max_idle_time)),
        carries(v.tree(), "authentication-timeout"@, signed(v.authentication_timeout)),
        carries(v.tree(), "alpn"@, fields::texts_node(v.alpn)),
        carries(v.tree(), "max-udp-relay-packet-size"@, signed(v.max_udp_relay_packet_size)),
        carries(v.tree(), "cwnd"@, signed(v.cwnd)),
        carries(v.tree(), "bbr-profile"@, Node::Text(v.bbr_profile@)),
        v.tree().len() == 13,
{
    broadcast use group_entries;

}

/// The document of a running configuration has every field of it under its name, null
/// where it is not set, and nothing else.
#[verifier::spinoff_prover]
#[verifier::rlimit(60)]
pub proof fn law_running_configurations_are_told_in_full(v: RuntimeConfig)
    ensures
        v.port matches Some(x) ==> carries(v.tree(), "port"@, signed(x)),
        v.port is None ==> carries(v.tree(), "port"@, Node::Null),
        v.mode matches Some(x) ==> carries(v.tree(), "mode"@, Node::Text(x@)),
        v.mode is None ==> carries(v.tree(), "mode"@, Node::Null),
        v.ipv6 matches Some(x) ==> carries(v.tree(), "ipv6"@, Node::Bool(x)),
        v.ipv6 is None ==> carries(v.tree(), "ipv6"@, Node::Null),
        v.socket_port matches Some(x) ==> carries(v.tree(), "socket-port"@, signed(x)),
        v.socket_port is None ==> carries(v.tree(), "socket-port"@, Node::Null),
        v.allow_lan matches Some(x) ==> carries(v.tree(), "allow-lan"@, Node::Bool(x)),
        v.allow_lan is None ==> carries(v.tree(), "allow-lan"@, Node::Null),
        v.log_level matches Some(x) ==> carries(v.tree(), "log-level"@, Node::Text(x@)),
        v.log_level is None ==> carries(v.tree(), "log-level"@, Node::Null),
        v.mixed_port matches Some(x) ==> carries(v.tree(), "mixed-port"@, signed(x)),
        v.mixed_port is None ==> carries(v.tree(), "mixed-port"@, Node::Null),
        v.redir_port matches Some(x) ==> carries(v.tree(), "redir-port"@, signed(x)),
        v.redir_port is None ==> carries(v.tree(), "redir-port"@, Node::Null),
        v.socks_port matches Some(x) ==> carries(v.tree(), "socks-port"@, signed(x)),
        v.socks_port is None ==> carries(v.tree(), "socks-port"@, Node::Null),
        v.tproxy_port matches Some(x) ==> carries(v.tree(), "tproxy-port"@, signed(x)),
        v.tproxy_port is None ==> carries(v.tree(), "tproxy-port"@, Node::Null),
        v.external_controller matches Some(x) ==> carries(v.tree(), "external-controller"@, Node::Text(x@)),
        v.external_controller is None ==> carries(v.tree(), "external-controller"@, Node::Null),
        v.secret matches Some(x) ==> carries(v.tree(), "secret"@, Node::Text(x@)),
        v.secret is None ==> carries(v.tree(), "secret"@, Node::Null),
        v.bind_address matches Some(x) ==> carries(v.tree(), "bind-address"@, Node::Text(x@)),
        v.bind_address is None ==> carries(v.tree(), "bind-address"@, Node::Null),
        v.sniffing matches Some(x) ==> carries(v.tree(), "sniffing"@, Node::Bool(x)),
        v.sniffing is None ==> carries(v.tree(), "sniffing"@, Node::Null),
        v.tcp_concurrent matches Some(x) ==> carries(v.tree(), "tcp-concurrent"@, Node::Bool(x)),
        v.tcp_concurrent is None ==> carries(v.tree(), "tcp-concurrent"@, Node::Null),
        v.find_process_mode matches Some(x) ==> carries(v.tree(), "find-process-mode"@, Node::Text(x@)),
        v.find_process_mode is None ==> carries(v.tree(), "find-process-mode"@, Node::Null),
        v.interface_name matches Some(x) ==> carries(v.tree(), "interface-name"@, Node::Text(x@)),
        v.interface_name is None ==> carries(v.tree(), "interface-name"@, Node::Null),
        v.tun matches Some(x) ==> carries(v.tree(), "tun"@, Node::Table(x.tree())),
        v.tun is None ==> carries(v.tree(), "tun"@, Node::Null),
        v.tuic_server matches Some(x) ==> carries(v.tree(), "tuic-server"@, Node::Table(x.tree())),
        v.tuic_server is None ==> carries(v.tree(), "tuic-server"@, Node::Null),
        v.ss_config matches Some(x) ==> carries(v.tree(), "ss-config"@, Node::Text(x@)),
        v.ss_config is None ==> carries(v.tree(), "ss-config"@, Node::Null),
        v.vmess_config matches Some(x) ==> carries(v.tree(), "vmess-config"@, Node::Text(x@)),
        v.vmess_config is None ==> carries(v.tree(), "vmess-config"@, Node::Null),
        v.tcptun_config matches Some(x) ==> carries(v.tree(), "tcptun-config"@, Node::Text(x@)),
        v.tcptun_config is None ==> carries(v.tree(), "tcptun-config"@, Node::Null),
        v.udptun_config matches Some(x) ==> carries(v.tree(), "udptun-config"@, Node::Text(x@)),
        v.udptun_config is None ==> carries(v.tree(), "udptun-config"@, Node::Null),
        v.authentication matches Some(x) ==> carries(v.tree(), "authentication"@, fields::texts_node(x)),
        v.authentication is None ==> carries(v.tree(), "authentication"@, Node::Null),
        v.skip_auth_prefixes matches Some(x) ==> carries(v.tree(), "skip-auth-prefixes"@, fields::texts_node(x)),
        v.skip_auth_prefixes is None ==> carries(v.tree(), "skip-auth-prefixes"@, Node::Null),
        v.lan_allowed_ips matches Some(x) ==> carries(v.tree(), "lan-allowed-ips"@, fields::texts_node(x)),
        v.lan_allowed_ips is None ==> carries(v.tree(), "lan-allowed-ips"@, Node::Null),
        v.lan_disallowed_ips matches Some(x) ==> carries(v.tree(), "lan-disallowed-ips"@, fields::texts_node(x)),
        v.lan_disallowed_ips is None ==> carries(v.tree(), "lan-disallowed-ips"@, Node::Null),
        v.tree().len() == 27,
{
    broadcast use group_entries;

    reveal(fields::maybe_int);
    reveal(fields::maybe_text);
    reveal(fields::maybe_flag);
    reveal(config::maybe_tun);
    reveal(config::maybe_tuic);
    reveal(fields::maybe_texts);
}

/// A change of the tunnel device carries every field that is set under its name, and
/// nothing else.
#[verifier::spinoff_prover]
#[verifier::rlimit(60)]
pub proof fn law_changes_of_tunnels_carry_what_is_set(v: TunPatch)
    ensures
        carries(v.tree(), "enable"@, Node::Bool(v.enable)),
        v.device matches Some(x) ==> carries(v.tree(), "device"@, Node::Text(x@)),
        v.stack matches Some(x) ==> carries(v.tree(), "stack"@, Node::Text(x@)),
        v.dns_hijack matches Some(x) ==> carries(v.tree(), "dns-hijack"@, fields::texts_node(x)),
        v.auto_route matches Some(x) ==> carries(v.tree(), "auto-route"@, Node::Bool(x)),
        v.auto_detect_interface matches Some(x) ==> carries(v.tree(), "auto-detect-interface"@, Node::Bool(x)),
        v.mtu matches Some(x) ==> carries(v.tree(), "mtu"@, unsigned(x)),
        v.gso matches Some(x) ==> carries(v.tree(), "gso"@, Node::Bool(x)),
        v.gso_max_size matches Some(x) ==> carries(v.tree(), "gso-max-size"@, unsigned(x)),
        v.inet6_address matches Some(x) ==> carries(v.tree(), "inet6-address"@, fields::texts_node(x)),
        v.iproute2_table_index matches Some(x) ==> carries(v.tree(), "iproute2-table-index"@, signed(x)),
        v.iproute2_rule_index matches Some(x) ==> carries(v.tree(), "iproute2-rule-index"@, signed(x)),
        v.auto_redirect matches Some(x) ==> carries(v.tree(), "auto-redirect"@, Node::Bool(x)),
        v.auto_redirect_input_mark matches Some(x) ==> carries(v.tree(), "auto-redirect-input-mark"@, unsigned(x)),
        v.auto_redirect_output_mark matches Some(x) ==> carries(v.tree(), "auto-redirect-output-mark"@, unsigned(x)),
        v.auto_redirect_iproute2_fallback_rule_index matches Some(x) ==> carries(v.tree(), "auto-redirect-iproute2-fallback-rule-index"@, signed(x)),
        v.loopback_address matches Some(x) ==> carries(v.tree(), "loopback-address"@, fields::texts_node(x)),
        v.strict_route matches Some(x) ==> carries(v.tree(), "strict-route"@, Node::Bool(x)),
        v.route_address matches Some(x) ==> carries(v.tree(), "route-address"@, fields::texts_node(x)),
        v.route_address_set matches Some(x) ==> carries(v.tree(), "route-address-set"@, fields::texts_node(x)),
        v.route_exclude_address matches Some(x) ==> carries(v.tree(), "route-exclude-address"@, fields::texts_node(x)),
        v.route_exclude_address_set matches Some(x) ==> carries(v.tree(), "route-exclude-address-set"@, fields::texts_node(x)),
        v.include_interface matches Some(x) ==> carries(v.tree(), "include-interface"@, fields::texts_node(x)),
        v.exclude_interface matches Some(x) ==> carries(v.tree(), "exclude-interface"@, fields::texts_node(x)),
        v.include_uid matches Some(x) ==> carries(v.tree(), "include-uid"@, fields::uints_node(x)),
        v.include_uid_range matches Some(x) ==> carries(v.tree(), "include-uid-range"@, fields::texts_node(x)),
        v.exclude_uid matches Some(x) ==> carries(v.tree(), "exclude-uid"@, fields::uints_node(x)),
        v.exclude_uid_range matches Some(x) ==> carries(v.tree(), "exclude-uid-range"@, fields::texts_node(x)),
        v.include_android_user matches Some(x) ==> carries(v.tree(), "include-android-user"@, fields::ints_node(x)),
        v.include_package matches Some(x) ==> carries(v.tree(), "include-package"@, fields::texts_node(x)),
        v.exclude_package matches Some(x) ==> carries(v.tree(), "exclude-package"@, fields::texts_node(x)),
        v.include_mac_address matches Some(x) ==> carries(v.tree(), "include-mac-address"@, fields::texts_node(x)),
        v.exclude_mac_address matches Some(x) ==> carries(v.tree(), "exclude-mac-address"@, fields::texts_node(x)),
        v.endpoint_independent_nat matches Some(x) ==> carries(v.tree(), "endpoint-independent-nat"@, Node::Bool(x)),
        v.udp_timeout matches Some(x) ==> carries(v.tree(), "udp-timeout"@, signed(x)),
        v.icmp_timeout matches Some(x) ==> carries(v.tree(), "icmp-timeout"@, signed(x)),
        v.file_descriptor matches Some(x) ==> carries(v.tree(), "file-descriptor"@, signed(x)),
        v.inet4_route_address matches Some(x) ==> carries(v.tree(), "inet4-route-address"@, fields::texts_node(x)),
        v.inet6_route_address matches Some(x) ==> carries(v.tree(), "inet6-route-address"@, fields::texts_node(x)),
        v.inet4_route_exclude_address matches Some(x) ==> carries(v.tree(), "inet4-route-exclude-address"@, fields::texts_node(x)),
        v.inet6_route_exclude_address matches Some(x) ==> carries(v.tree(), "inet6-route-exclude-address"@, fields::texts_node(x)),
        v.recvmsgx matches Some(x) ==> carries(v.tree(), "recvmsgx"@, Node::Bool(x)),
        v.sendmsgx matches Some(x) ==> carries(v.tree(), "sendmsgx"@, Node::Bool(x)),
        v.tree().len() == 1 + one(v.device) + one(v.stack) + one(v.dns_hijack) + one(v.auto_route) + one(v.auto_detect_interface) + one(v.mtu) + one(v.gso) + one(v.gso_max_size) + one(v.inet6_address) + one(v.iproute2_table_index) + one(v.iproute2_rule_index) + one(v.auto_redirect) + one(v.auto_redirect_input_mark) + one(v.auto_redirect_output_mark) + one(v.auto_redirect_iproute2_fallback_rule_index) + one(v.loopback_address) + one(v.strict_route) + one(v.route_address) + one(v.route_address_set) + one(v.route_exclude_address) + one(v.route_exclude_address_set) + one(v.include_interface) + one(v.exclude_interface) + one(v.include_uid) + one(v.include_uid_range) + one(v.exclude_uid) + one(v.exclude_uid_range) + one(v.include_android_user) + one(v.include_package) + one(v.exclude_package) + one(v.include_mac_address) + one(v.exclude_mac_address) + one(v.endpoint_independent_nat) + one(v.udp_timeout) + one(v.icmp_timeout) + one(v.file_descriptor) + one(v.inet4_route_address) + one(v.inet6_route_address) + one(v.inet4_route_exclude_address) + one(v.inet6_route_exclude_address) + one(v.recvmsgx) + one(v.sendmsgx),
{
    broadcast use group_entries;

    reveal(fields::maybe_text);
    reveal(fields::maybe_texts);
    reveal(fields::maybe_flag);
    reveal(fields::maybe_uint);
    reveal(fields::maybe_int);
    reveal(fields::maybe_uints);
    reveal(fields::maybe_ints);
}

/// A change of the TUIC listener carries every field that is set under its name, and
/// nothing else.
#[verifier::spinoff_prover]
#[verifier::rlimit(60)]
pub proof fn law_changes_of_listeners_carry_what_is_set(v: TuicServerPatch)
    ensures
        carries(v.tree(), "enable"@, Node::Bool(v.enable)),
        v.listen matches Some(x) ==> carries(v.tree(), "listen"@, Node::Text(x@)),
        v.token matches Some(x) ==> carries(v.tree(), "token"@, fields::texts_node(x)),
        v.users matches Some(x) ==> carries(v.tree(), "users"@, fields::pairs_node(x)),
        v.certificate matches Some(x) ==> carries(v.tree(), "certificate"@, Node::Text(x@)),
        v.private_key matches Some(x) ==> carries(v.tree(), "private-key"@, Node::Text(x@)),
        v.congestion_controller matches Some(x) ==> carries(v.tree(), "congestion-controller"@, Node::Text(x@)),
        v.max_idle_time matches Some(x) ==> carries(v.tree(), "max-idle-time"@, signed(x)),
        v.authentication_timeout matches Some(x) ==> carries(v.tree(), "authentication-timeout"@, signed(x)),
        v.alpn matches Some(x) ==> carries(v.tree(), "alpn"@, fields::texts_node(x)),
        v.max_udp_relay_packet_size matches Some(x) ==> carries(v.tree(), "max-udp-relay-packet-size"@, signed(x)),
        v.cwnd matches Some(x) ==> carries(v.tree(), "cwnd"@, signed(x)),
        v.bbr_profile matches Some(x) ==> carries(v.tree(), "bbr-profile"@, Node::Text(x@)),
        v.tree().len() == 1 + one(v.listen) + one(v.token) + one(v.users) + one(v.certificate) + one(v.private_key) + one(v.congestion_controller) + one(v.max_idle_time) + one(v.authentication_timeout) + one(v.alpn) + one(v.max_udp_relay_packet_size) + one(v.cwnd) + one(v.bbr_profile),
{
    broadcast use group_entries;

    reveal(fields::maybe_text);
    reveal(fields::maybe_texts);
    reveal(fields::maybe_pairs);
    reveal(fields::maybe_int);
}

/// A change carries every field that is set under its name, and nothing else.
#[verifier::spinoff_prover]
#[verifier::rlimit(60)]
pub proof fn law_changes_carry_what_is_set(v: ConfigPatch)
    ensures
        v.port matches Some(x) ==> carries(v.tree(), "port"@, signed(x)),
        v.socks_port matches Some(x) ==> carries(v.tree(), "socks-port"@, signed(x)),
        v.redir_port matches Some(x) ==> carries(v.tree(), "redir-port"@, signed(x)),
        v.tproxy_port matches Some(x) ==> carries(v.tree(), "tproxy-port"@, signed(x)),
        v.mixed_port matches Some(x) ==> carries(v.tree(), "mixed-port"@, signed(x)),
        v.tun matches Some(x) ==> carries(v.tree(), "tun"@, Node::Table(x.tree())),
        v.tuic_server matches Some(x) ==> carries(v.tree(), "tuic-server"@, Node::Table(x.tree())),
        v.ss_config matches Some(x) ==> carries(v.tree(), "ss-config"@, Node::Text(x@)),
        v.vmess_config matches Some(x) ==> carries(v.tree(), "vmess-config"@, Node::Text(x@)),
        v.tcptun_config matches Some(x) ==> carries(v.tree(), "tcptun-config"@, Node::Text(x@)),
        v.udptun_config matches Some(x) ==> carries(v.tree(), "udptun-config"@, Node::Text(x@)),
        v.allow_lan matches Some(x) ==> carries(v.tree(), "allow-lan"@, Node::Bool(x)),
        v.skip_auth_prefixes matches Some(x) ==> carries(v.tree(), "skip-auth-prefixes"@, fields::texts_node(x)),
        v.lan_allowed_ips matches Some(x) ==> carries(v.tree(), "lan-allowed-ips"@, fields::texts_node(x)),
        v.lan_disallowed_ips matches Some(x) ==> carries(v.tree(), "lan-disallowed-ips"@, fields::texts_node(x)),
        v.bind_address matches Some(x) ==> carries(v.tree(), "bind-address"@, Node::Text(x@)),
        v.mode matches Some(x) ==> carries(v.tree(), "mode"@, Node::Text(x@)),
        v.log_level matches Some(x) ==> carries(v.tree(), "log-level"@, Node::Text(x@)),
        v.ipv6 matches Some(x) ==> carries(v.tree(), "ipv6"@, Node::Bool(x)),
        v.sniffing matches Some(x) ==> carries(v.tree(), "sniffing"@, Node::Bool(x)),
        v.tcp_concurrent matches Some(x) ==> carries(v.tree(), "tcp-concurrent"@, Node::Bool(x)),
        v.find_process_mode matches Some(x) ==> carries(v.tree(), "find-process-mode"@, Node::Text(x@)),
        v.interface_name matches Some(x) ==> carries(v.tree(), "interface-name"@, Node::Text(x@)),
        v.tree().len() == one(v.port) + one(v.socks_port) + one(v.redir_port) + one(v.tproxy_port) + one(v.mixed_port) + one(v.tun) + one(v.tuic_server) + one(v.ss_config) + one(v.vmess_config) + one(v.tcptun_config) + one(v.udptun_config) + one(v.allow_lan) + one(v.skip_auth_prefixes) + one(v.lan_allowed_ips) + one(v.lan_disallowed_ips) + one(v.bind_address) + one(v.mode) + one(v.log_level) + one(v.ipv6) + one(v.sniffing) + one(v.tcp_concurrent) + one(v.find_process_mode) + one(v.interface_name),
{
    broadcast use group_entries;

    reveal(fields::maybe_int);
    reveal(config::maybe_tun_patch);
    reveal(config::maybe_tuic_patch);
    reveal(fields::maybe_text);
    reveal(fields::maybe_flag);
    reveal(fields::maybe_texts);
}

} // verus!
