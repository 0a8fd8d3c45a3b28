//! The typed parts of the controller's configuration, and what a change of them
//! is expected to show.

use vstd::prelude::*;
use vstd::string::*;

use crate::clash_api::fields;
use crate::clash_api::fields::{
    flag_value, given, int_value, ints_value, maybe_flag_value, maybe_int_value, maybe_ints_value,
    maybe_pairs_value, maybe_text_value, maybe_texts_value, maybe_uint_value, maybe_uints_value,
    pairs_value, push_nullable, push_optional, text_value, texts_value, uint_value, uints_value,
};
use crate::tree;
use crate::tree::{collect_leaves, value_at};
use crate::value;
use crate::value::{Node, Datum};

verus! {

/// The running tunnel device.
#[derive(Debug, Clone, Default, PartialEq, Eq)]
pub struct RuntimeTun {
    pub enable: bool,
    pub device: String,
    pub stack: String,
    pub dns_hijack: Vec<String>,
    pub auto_route: bool,
    pub auto_detect_interface: bool,
    pub mtu: u32,
    pub gso: bool,
    pub gso_max_size: u32,
    pub inet4_address: Vec<String>,
    pub inet6_address: Vec<String>,
    pub iproute2_table_index: i64,
    pub iproute2_rule_index: i64,
    pub auto_redirect: bool,
    pub auto_redirect_input_mark: u32,
    pub auto_redirect_output_mark: u32,
    pub auto_redirect_iproute2_fallback_rule_index: i64,
    pub loopback_address: Vec<String>,
    pub strict_route: bool,
    pub route_address: Vec<String>,
    pub route_address_set: Vec<String>,
    pub route_exclude_address: Vec<String>,
    pub route_exclude_address_set: Vec<String>,
    pub include_interface: Vec<String>,
    pub exclude_interface: Vec<String>,
    pub include_uid: Vec<u32>,
    pub include_uid_range: Vec<String>,
    pub exclude_uid: Vec<u32>,
    pub exclude_uid_range: Vec<String>,
    pub include_android_user: Vec<i64>,
    pub include_package: Vec<String>,
    pub exclude_package: Vec<String>,
    pub include_mac_address: Vec<String>,
    pub exclude_mac_address: Vec<String>,
    pub endpoint_independent_nat: bool,
    pub udp_timeout: i64,
    pub icmp_timeout: i64,
    pub file_descriptor: i64,
    pub inet4_route_address: Vec<String>,
    pub inet6_route_address: Vec<String>,
    pub inet4_route_exclude_address: Vec<String>,
    pub inet6_route_exclude_address: Vec<String>,
    pub recvmsgx: bool,
    pub sendmsgx: bool,
}

impl RuntimeTun {
    /// The fields as a document.
    pub open spec fn tree(&self) -> Seq<(Node, Node)> {
        Seq::<(Node, Node)>::empty()
            + fields::optional("enable"@, Some(fields::flag_node(self.enable)))
            + fields::optional("device"@, Some(fields::text_node(self.device)))
            + fields::optional("stack"@, Some(fields::text_node(self.stack)))
            + fields::optional("dns-hijack"@, Some(fields::texts_node(self.dns_hijack)))
            + fields::optional("auto-route"@, Some(fields::flag_node(self.auto_route)))
            + fields::optional(
                "auto-detect-interface"@,
                Some(fields::flag_node(self.auto_detect_interface)),
            )
            + fields::optional("mtu"@, Some(fields::uint_node(self.mtu)))
            + fields::optional("gso"@, Some(fields::flag_node(self.gso)))
            + fields::optional("gso-max-size"@, Some(fields::uint_node(self.gso_max_size)))
            + fields::optional("inet4-address"@, Some(fields::texts_node(self.inet4_address)))
            + fields::optional("inet6-address"@, Some(fields::texts_node(self.inet6_address)))
            + fields::optional(
                "iproute2-table-index"@,
                Some(fields::int_node(self.iproute2_table_index)),
            )
            + fields::optional(
                "iproute2-rule-index"@,
                Some(fields::int_node(self.iproute2_rule_index)),
            )
            + fields::optional("auto-redirect"@, Some(fields::flag_node(self.auto_redirect)))
            + fields::optional(
                "auto-redirect-input-mark"@,
                Some(fields::uint_node(self.auto_redirect_input_mark)),
            )
            + fields::optional(
                "auto-redirect-output-mark"@,
                Some(fields::uint_node(self.auto_redirect_output_mark)),
            )
            + fields::optional(
                "auto-redirect-iproute2-fallback-rule-index"@,
                Some(fields::int_node(self.auto_redirect_iproute2_fallback_rule_index)),
            )
            + fields::optional("loopback-address"@, Some(fields::texts_node(self.loopback_address)))
            + fields::optional("strict-route"@, Some(fields::flag_node(self.strict_route)))
            + fields::optional("route-address"@, Some(fields::texts_node(self.route_address)))
            + fields::optional(
                "route-address-set"@,
                Some(fields::texts_node(self.route_address_set)),
            )
            + fields::optional(
                "route-exclude-address"@,
                Some(fields::texts_node(self.route_exclude_address)),
            )
            + fields::optional(
                "route-exclude-address-set"@,
                Some(fields::texts_node(self.route_exclude_address_set)),
            )
            + fields::optional(
                "include-interface"@,
                Some(fields::texts_node(self.include_interface)),
            )
            + fields::optional(
                "exclude-interface"@,
                Some(fields::texts_node(self.exclude_interface)),
            )
            + fields::optional("include-uid"@, Some(fields::uints_node(self.include_uid)))
            + fields::optional(
                "include-uid-range"@,
                Some(fields::texts_node(self.include_uid_range)),
            )
            + fields::optional("exclude-uid"@, Some(fields::uints_node(self.exclude_uid)))
            + fields::optional(
                "exclude-uid-range"@,
                Some(fields::texts_node(self.exclude_uid_range)),
            )
            + fields::optional(
                "include-android-user"@,
                Some(fields::ints_node(self.include_android_user)),
            )
            + fields::optional("include-package"@, Some(fields::texts_node(self.include_package)))
            + fields::optional("exclude-package"@, Some(fields::texts_node(self.exclude_package)))
            + fields::optional(
                "include-mac-address"@,
                Some(fields::texts_node(self.include_mac_address)),
            )
            + fields::optional(
                "exclude-mac-address"@,
                Some(fields::texts_node(self.exclude_mac_address)),
            )
            + fields::optional(
                "endpoint-independent-nat"@,
                Some(fields::flag_node(self.endpoint_independent_nat)),
            )
            + fields::optional("udp-timeout"@, Some(fields::int_node(self.udp_timeout)))
            + fields::optional("icmp-timeout"@, Some(fields::int_node(self.icmp_timeout)))
            + fields::optional("file-descriptor"@, Some(fields::int_node(self.file_descriptor)))
            + fields::optional(
                "inet4-route-address"@,
                Some(fields::texts_node(self.inet4_route_address)),
            )
            + fields::optional(
                "inet6-route-address"@,
                Some(fields::texts_node(self.inet6_route_address)),
            )
            + fields::optional(
                "inet4-route-exclude-address"@,
                Some(fields::texts_node(self.inet4_route_exclude_address)),
            )
            + fields::optional(
                "inet6-route-exclude-address"@,
                Some(fields::texts_node(self.inet6_route_exclude_address)),
            )
            + fields::optional("recvmsgx"@, Some(fields::flag_node(self.recvmsgx)))
            + fields::optional("sendmsgx"@, Some(fields::flag_node(self.sendmsgx)))
    }

    /// The fields as a document.
    pub fn to_tree(&self) -> (r: Vec<(Datum, Datum)>)
        ensures
            value::entries(r@) == self.tree(),
    {
        let mut out: Vec<(Datum, Datum)> = Vec::new();
        assert(value::entries(out@) =~= Seq::<(Node, Node)>::empty());
        push_optional(&mut out, "enable", given(flag_value(self.enable)));
        push_optional(&mut out, "device", given(text_value(&self.device)));
        push_optional(&mut out, "stack", given(text_value(&self.stack)));
        push_optional(&mut out, "dns-hijack", given(texts_value(&self.dns_hijack)));
        push_optional(&mut out, "auto-route", given(flag_value(self.auto_route)));
        push_optional(
            &mut out,
            "auto-detect-interface",
            given(flag_value(self.auto_detect_interface)),
        );
        push_optional(&mut out, "mtu", given(uint_value(self.mtu)));
        push_optional(&mut out, "gso", given(flag_value(self.gso)));
        push_optional(&mut out, "gso-max-size", given(uint_value(self.gso_max_size)));
        push_optional(&mut out, "inet4-address", given(texts_value(&self.inet4_address)));
        push_optional(&mut out, "inet6-address", given(texts_value(&self.inet6_address)));
        push_optional(
            &mut out,
            "iproute2-table-index",
            given(int_value(self.iproute2_table_index)),
        );
        push_optional(&mut out, "iproute2-rule-index", given(int_value(self.iproute2_rule_index)));
        push_optional(&mut out, "auto-redirect", given(flag_value(self.auto_redirect)));
        push_optional(
            &mut out,
            "auto-redirect-input-mark",
            given(uint_value(self.auto_redirect_input_mark)),
        );
        push_optional(
            &mut out,
            "auto-redirect-output-mark",
            given(uint_value(self.auto_redirect_output_mark)),
        );
        push_optional(
            &mut out,
            "auto-redirect-iproute2-fallback-rule-index",
            given(int_value(self.auto_redirect_iproute2_fallback_rule_index)),
        );
        push_optional(&mut out, "loopback-address", given(texts_value(&self.loopback_address)));
        push_optional(&mut out, "strict-route", given(flag_value(self.strict_route)));
        push_optional(&mut out, "route-address", given(texts_value(&self.route_address)));
        push_optional(&mut out, "route-address-set", given(texts_value(&self.route_address_set)));
        push_optional(
            &mut out,
            "route-exclude-address",
            given(texts_value(&self.route_exclude_address)),
        );
        push_optional(
            &mut out,
            "route-exclude-address-set",
            given(texts_value(&self.route_exclude_address_set)),
        );
        push_optional(&mut out, "include-interface", given(texts_value(&self.include_interface)));
        push_optional(&mut out, "exclude-interface", given(texts_value(&self.exclude_interface)));
        push_optional(&mut out, "include-uid", given(uints_value(&self.include_uid)));
        push_optional(&mut out, "include-uid-range", given(texts_value(&self.include_uid_range)));
        push_optional(&mut out, "exclude-uid", given(uints_value(&self.exclude_uid)));
        push_optional(&mut out, "exclude-uid-range", given(texts_value(&self.exclude_uid_range)));
        push_optional(
            &mut out,
            "include-android-user",
            given(ints_value(&self.include_android_user)),
        );
        push_optional(&mut out, "include-package", given(texts_value(&self.include_package)));
        push_optional(&mut out, "exclude-package", given(texts_value(&self.exclude_package)));
        push_optional(
            &mut out,
            "include-mac-address",
            given(texts_value(&self.include_mac_address)),
        );
        push_optional(
            &mut out,
            "exclude-mac-address",
            given(texts_value(&self.exclude_mac_address)),
        );
        push_optional(
            &mut out,
            "endpoint-independent-nat",
            given(flag_value(self.endpoint_independent_nat)),
        );
        push_optional(&mut out, "udp-timeout", given(int_value(self.udp_timeout)));
        push_optional(&mut out, "icmp-timeout", given(int_value(self.icmp_timeout)));
        push_optional(&mut out, "file-descriptor", given(int_value(self.file_descriptor)));
        push_optional(
            &mut out,
            "inet4-route-address",
            given(texts_value(&self.inet4_route_address)),
        );
        push_optional(
            &mut out,
            "inet6-route-address",
            given(texts_value(&self.inet6_route_address)),
        );
        push_optional(
            &mut out,
            "inet4-route-exclude-address",
            given(texts_value(&self.inet4_route_exclude_address)),
        );
        push_optional(
            &mut out,
            "inet6-route-exclude-address",
            given(texts_value(&self.inet6_route_exclude_address)),
        );
        push_optional(&mut out, "recvmsgx", given(flag_value(self.recvmsgx)));
        push_optional(&mut out, "sendmsgx", given(flag_value(self.sendmsgx)));
        out
    }

    /// The fields as one value.
    pub fn to_value(&self) -> (r: Datum)
        ensures
            r@ == Node::Table(self.tree()),
    {
        let table = self.to_tree();
        proof {
            Datum::lemma_table(table);
        }
        Datum::Table(table)
    }
}

/// A part that may be unset.
#[verifier::opaque]
pub open spec fn maybe_tun(v: Option<RuntimeTun>) -> Option<Node> {
    match v {
        Some(v) => Some(Node::Table(v.tree())),
        None => None,
    }
}

fn maybe_tun_value(v: &Option<RuntimeTun>) -> (r: Option<Datum>)
    ensures
        fields::option_node(r) == maybe_tun(*v),
{
    reveal(fields::option_node);
    reveal(maybe_tun);
    match v {
        Some(v) => Some(v.to_value()),
        None => None,
    }
}

/// The running TUIC listener.
#[derive(Debug, Clone, Default, PartialEq, Eq)]
pub struct RuntimeTuicServer {
    pub enable: bool,
    pub listen: String,
    pub token: Vec<String>,
    pub users: Vec<(String, String)>,
    pub certificate: String,
    pub private_key: String,
    pub congestion_controller: String,
    pub max_idle_time: i64,
    pub authentication_timeout: i64,
    pub alpn: Vec<String>,
    pub max_udp_relay_packet_size: i64,
    pub cwnd: i64,
    pub bbr_profile: String,
}

impl RuntimeTuicServer {
    /// The fields as a document.
    pub open spec fn tree(&self) -> Seq<(Node, Node)> {
        Seq::<(Node, Node)>::empty()
            + fields::optional("enable"@, Some(fields::flag_node(self.enable)))
            + fields::optional("listen"@, Some(fields::text_node(self.listen)))
            + fields::optional("token"@, Some(fields::texts_node(self.token)))
            + fields::optional("users"@, Some(fields::pairs_node(self.users)))
            + fields::optional("certificate"@, Some(fields::text_node(self.certificate)))
            + fields::optional("private-key"@, Some(fields::text_node(self.private_key)))
            + fields::optional(
                "congestion-controller"@,
                Some(fields::text_node(self.congestion_controller)),
            )
            + fields::optional("max-idle-time"@, Some(fields::int_node(self.max_idle_time)))
            + fields::optional(
                "authentication-timeout"@,
                Some(fields::int_node(self.authentication_timeout)),
            )
            + fields::optional("alpn"@, Some(fields::texts_node(self.alpn)))
            + fields::optional(
                "max-udp-relay-packet-size"@,
                Some(fields::int_node(self.max_udp_relay_packet_size)),
            )
            + fields::optional("cwnd"@, Some(fields::int_node(self.cwnd)))
            + fields::optional("bbr-profile"@, Some(fields::text_node(self.bbr_profile)))
    }

    /// The fields as a document.
    pub fn to_tree(&self) -> (r: Vec<(Datum, Datum)>)
        ensures
            value::entries(r@) == self.tree(),
    {
        let mut out: Vec<(Datum, Datum)> = Vec::new();
        assert(value::entries(out@) =~= Seq::<(Node, Node)>::empty());
        push_optional(&mut out, "enable", given(flag_value(self.enable)));
        push_optional(&mut out, "listen", given(text_value(&self.listen)));
        push_optional(&mut out, "token", given(texts_value(&self.token)));
        push_optional(&mut out, "users", given(pairs_value(&self.users)));
        push_optional(&mut out, "certificate", given(text_value(&self.certificate)));
        push_optional(&mut out, "private-key", given(text_value(&self.private_key)));
        push_optional(
            &mut out,
            "congestion-controller",
            given(text_value(&self.congestion_controller)),
        );
        push_optional(&mut out, "max-idle-time", given(int_value(self.max_idle_time)));
        push_optional(
            &mut out,
            "authentication-timeout",
            given(int_value(self.authentication_timeout)),
        );
        push_optional(&mut out, "alpn", given(texts_value(&self.alpn)));
        push_optional(
            &mut out,
            "max-udp-relay-packet-size",
            given(int_value(self.max_udp_relay_packet_size)),
        );
        push_optional(&mut out, "cwnd", given(int_value(self.cwnd)));
        push_optional(&mut out, "bbr-profile", given(text_value(&self.bbr_profile)));
        out
    }

    /// The fields as one value.
    pub fn to_value(&self) -> (r: Datum)
        ensures
            r@ == Node::Table(self.tree()),
    {
        let table = self.to_tree();
        proof {
            Datum::lemma_table(table);
        }
        Datum::Table(table)
    }
}

/// A part that may be unset.
#[verifier::opaque]
pub open spec fn maybe_tuic(v: Option<RuntimeTuicServer>) -> Option<Node> {
    match v {
        Some(v) => Some(Node::Table(v.tree())),
        None => None,
    }
}

fn maybe_tuic_value(v: &Option<RuntimeTuicServer>) -> (r: Option<Datum>)
    ensures
        fields::option_node(r) == maybe_tuic(*v),
{
    reveal(fields::option_node);
    reveal(maybe_tuic);
    match v {
        Some(v) => Some(v.to_value()),
        None => None,
    }
}

/// The part of the running `GET /configs` answer that is read. Fields are optional,
/// so that a controller may leave out what it does not know.
#[derive(Debug, Clone, Default, PartialEq, Eq)]
pub struct RuntimeConfig {
    pub port: Option<i64>,
    pub mode: Option<String>,
    pub ipv6: Option<bool>,
    pub socket_port: Option<i64>,
    pub allow_lan: Option<bool>,
    pub log_level: Option<String>,
    pub mixed_port: Option<i64>,
    pub redir_port: Option<i64>,
    pub socks_port: Option<i64>,
    pub tproxy_port: Option<i64>,
    pub external_controller: Option<String>,
    pub secret: Option<String>,
    pub bind_address: Option<String>,
    pub sniffing: Option<bool>,
    pub tcp_concurrent: Option<bool>,
    pub find_process_mode: Option<String>,
    pub interface_name: Option<String>,
    pub tun: Option<RuntimeTun>,
    pub tuic_server: Option<RuntimeTuicServer>,
    pub ss_config: Option<String>,
    pub vmess_config: Option<String>,
    pub tcptun_config: Option<String>,
    pub udptun_config: Option<String>,
    pub authentication: Option<Vec<String>>,
    pub skip_auth_prefixes: Option<Vec<String>>,
    pub lan_allowed_ips: Option<Vec<String>>,
    pub lan_disallowed_ips: Option<Vec<String>>,
}

impl RuntimeConfig {
    /// The fields as a document.
    pub open spec fn tree(&self) -> Seq<(Node, Node)> {
        Seq::<(Node, Node)>::empty()
            + fields::nullable("port"@, fields::maybe_int(self.port))
            + fields::nullable("mode"@, fields::maybe_text(self.mode))
            + fields::nullable("ipv6"@, fields::maybe_flag(self.ipv6))
            + fields::nullable("socket-port"@, fields::maybe_int(self.socket_port))
            + fields::nullable("allow-lan"@, fields::maybe_flag(self.allow_lan))
            + fields::nullable("log-level"@, fields::maybe_text(self.log_level))
            + fields::nullable("mixed-port"@, fields::maybe_int(self.mixed_port))
            + fields::nullable("redir-port"@, fields::maybe_int(self.redir_port))
            + fields::nullable("socks-port"@, fields::maybe_int(self.socks_port))
            + fields::nullable("tproxy-port"@, fields::maybe_int(self.tproxy_port))
            + fields::nullable("external-controller"@, fields::maybe_text(self.external_controller))
            + fields::nullable("secret"@, fields::maybe_text(self.secret))
            + fields::nullable("bind-address"@, fields::maybe_text(self.bind_address))
            + fields::nullable("sniffing"@, fields::maybe_flag(self.sniffing))
            + fields::nullable("tcp-concurrent"@, fields::maybe_flag(self.tcp_concurrent))
            + fields::nullable("find-process-mode"@, fields::maybe_text(self.find_process_mode))
            + fields::nullable("interface-name"@, fields::maybe_text(self.interface_name))
            + fields::nullable("tun"@, maybe_tun(self.tun))
            + fields::nullable("tuic-server"@, maybe_tuic(self.tuic_server))
            + fields::nullable("ss-config"@, fields::maybe_text(self.ss_config))
            + fields::nullable("vmess-config"@, fields::maybe_text(self.vmess_config))
            + fields::nullable("tcptun-config"@, fields::maybe_text(self.tcptun_config))
            + fields::nullable("udptun-config"@, fields::maybe_text(self.udptun_config))
            + fields::nullable("authentication"@, fields::maybe_texts(self.authentication))
            + fields::nullable("skip-auth-prefixes"@, fields::maybe_texts(self.skip_auth_prefixes))
            + fields::nullable("lan-allowed-ips"@, fields::maybe_texts(self.lan_allowed_ips))
            + fields::nullable("lan-disallowed-ips"@, fields::maybe_texts(self.lan_disallowed_ips))
    }

    /// The fields as a document.
    pub fn to_tree(&self) -> (r: Vec<(Datum, Datum)>)
        ensures
            value::entries(r@) == self.tree(),
    {
        let mut out: Vec<(Datum, Datum)> = Vec::new();
        assert(value::entries(out@) =~= Seq::<(Node, Node)>::empty());
        push_nullable(&mut out, "port", maybe_int_value(&self.port));
        push_nullable(&mut out, "mode", maybe_text_value(&self.mode));
        push_nullable(&mut out, "ipv6", maybe_flag_value(&self.ipv6));
        push_nullable(&mut out, "socket-port", maybe_int_value(&self.socket_port));
        push_nullable(&mut out, "allow-lan", maybe_flag_value(&self.allow_lan));
        push_nullable(&mut out, "log-level", maybe_text_value(&self.log_level));
        push_nullable(&mut out, "mixed-port", maybe_int_value(&self.mixed_port));
        push_nullable(&mut out, "redir-port", maybe_int_value(&self.redir_port));
        push_nullable(&mut out, "socks-port", maybe_int_value(&self.socks_port));
        push_nullable(&mut out, "tproxy-port", maybe_int_value(&self.tproxy_port));
        push_nullable(&mut out, "external-controller", maybe_text_value(&self.external_controller));
        push_nullable(&mut out, "secret", maybe_text_value(&self.secret));
        push_nullable(&mut out, "bind-address", maybe_text_value(&self.bind_address));
        push_nullable(&mut out, "sniffing", maybe_flag_value(&self.sniffing));
        push_nullable(&mut out, "tcp-concurrent", maybe_flag_value(&self.tcp_concurrent));
        push_nullable(&mut out, "find-process-mode", maybe_text_value(&self.find_process_mode));
        push_nullable(&mut out, "interface-name", maybe_text_value(&self.interface_name));
        push_nullable(&mut out, "tun", maybe_tun_value(&self.tun));
        push_nullable(&mut out, "tuic-server", maybe_tuic_value(&self.tuic_server));
        push_nullable(&mut out, "ss-config", maybe_text_value(&self.ss_config));
        push_nullable(&mut out, "vmess-config", maybe_text_value(&self.vmess_config));
        push_nullable(&mut out, "tcptun-config", maybe_text_value(&self.tcptun_config));
        push_nullable(&mut out, "udptun-config", maybe_text_value(&self.udptun_config));
        push_nullable(&mut out, "authentication", maybe_texts_value(&self.authentication));
        push_nullable(&mut out, "skip-auth-prefixes", maybe_texts_value(&self.skip_auth_prefixes));
        push_nullable(&mut out, "lan-allowed-ips", maybe_texts_value(&self.lan_allowed_ips));
        push_nullable(&mut out, "lan-disallowed-ips", maybe_texts_value(&self.lan_disallowed_ips));
        out
    }

    /// The fields as one value.
    pub fn to_value(&self) -> (r: Datum)
        ensures
            r@ == Node::Table(self.tree()),
    {
        let table = self.to_tree();
        proof {
            Datum::lemma_table(table);
        }
        Datum::Table(table)
    }
}

/// A change of the tunnel device.
#[derive(Debug, Clone, Default, PartialEq, Eq)]
pub struct TunPatch {
    pub enable: bool,
    pub device: Option<String>,
    pub stack: Option<String>,
    pub dns_hijack: Option<Vec<String>>,
    pub auto_route: Option<bool>,
    pub auto_detect_interface: Option<bool>,
    pub mtu: Option<u32>,
    pub gso: Option<bool>,
    pub gso_max_size: Option<u32>,
    pub inet6_address: Option<Vec<String>>,
    pub iproute2_table_index: Option<i64>,
    pub iproute2_rule_index: Option<i64>,
    pub auto_redirect: Option<bool>,
    pub auto_redirect_input_mark: Option<u32>,
    pub auto_redirect_output_mark: Option<u32>,
    pub auto_redirect_iproute2_fallback_rule_index: Option<i64>,
    pub loopback_address: Option<Vec<String>>,
    pub strict_route: Option<bool>,
    pub route_address: Option<Vec<String>>,
    pub route_address_set: Option<Vec<String>>,
    pub route_exclude_address: Option<Vec<String>>,
    pub route_exclude_address_set: Option<Vec<String>>,
    pub include_interface: Option<Vec<String>>,
    pub exclude_interface: Option<Vec<String>>,
    pub include_uid: Option<Vec<u32>>,
    pub include_uid_range: Option<Vec<String>>,
    pub exclude_uid: Option<Vec<u32>>,
    pub exclude_uid_range: Option<Vec<String>>,
    pub include_android_user: Option<Vec<i64>>,
    pub include_package: Option<Vec<String>>,
    pub exclude_package: Option<Vec<String>>,
    pub include_mac_address: Option<Vec<String>>,
    pub exclude_mac_address: Option<Vec<String>>,
    pub endpoint_independent_nat: Option<bool>,
    pub udp_timeout: Option<i64>,
    pub icmp_timeout: Option<i64>,
    pub file_descriptor: Option<i64>,
    pub inet4_route_address: Option<Vec<String>>,
    pub inet6_route_address: Option<Vec<String>>,
    pub inet4_route_exclude_address: Option<Vec<String>>,
    pub inet6_route_exclude_address: Option<Vec<String>>,
    pub recvmsgx: Option<bool>,
    pub sendmsgx: Option<bool>,
}

impl TunPatch {
    /// Every field is set.
    pub open spec fn complete(&self) -> bool {
        &&& self.device is Some
        &&& self.stack is Some
        &&& self.dns_hijack is Some
        &&& self.auto_route is Some
        &&& self.auto_detect_interface is Some
        &&& self.mtu is Some
        &&& self.gso is Some
        &&& self.gso_max_size is Some
        &&& self.inet6_address is Some
        &&& self.iproute2_table_index is Some
        &&& self.iproute2_rule_index is Some
        &&& self.auto_redirect is Some
        &&& self.auto_redirect_input_mark is Some
        &&& self.auto_redirect_output_mark is Some
        &&& self.auto_redirect_iproute2_fallback_rule_index is Some
        &&& self.loopback_address is Some
        &&& self.strict_route is Some
        &&& self.route_address is Some
        &&& self.route_address_set is Some
        &&& self.route_exclude_address is Some
        &&& self.route_exclude_address_set is Some
        &&& self.include_interface is Some
        &&& self.exclude_interface is Some
        &&& self.include_uid is Some
        &&& self.include_uid_range is Some
        &&& self.exclude_uid is Some
        &&& self.exclude_uid_range is Some
        &&& self.include_android_user is Some
        &&& self.include_package is Some
        &&& self.exclude_package is Some
        &&& self.include_mac_address is Some
        &&& self.exclude_mac_address is Some
        &&& self.endpoint_independent_nat is Some
        &&& self.udp_timeout is Some
        &&& self.icmp_timeout is Some
        &&& self.file_descriptor is Some
        &&& self.inet4_route_address is Some
        &&& self.inet6_route_address is Some
        &&& self.inet4_route_exclude_address is Some
        &&& self.inet6_route_exclude_address is Some
        &&& self.recvmsgx is Some
        &&& self.sendmsgx is Some
    }

    /// The fields as a document.
    pub open spec fn tree(&self) -> Seq<(Node, Node)> {
        Seq::<(Node, Node)>::empty()
            + fields::optional("enable"@, Some(fields::flag_node(self.enable)))
            + fields::optional("device"@, fields::maybe_text(self.device))
            + fields::optional("stack"@, fields::maybe_text(self.stack))
            + fields::optional("dns-hijack"@, fields::maybe_texts(self.dns_hijack))
            + fields::optional("auto-route"@, fields::maybe_flag(self.auto_route))
            + fields::optional(
                "auto-detect-interface"@,
                fields::maybe_flag(self.auto_detect_interface),
            )
            + fields::optional("mtu"@, fields::maybe_uint(self.mtu))
            + fields::optional("gso"@, fields::maybe_flag(self.gso))
            + fields::optional("gso-max-size"@, fields::maybe_uint(self.gso_max_size))
            + fields::optional("inet6-address"@, fields::maybe_texts(self.inet6_address))
            + fields::optional(
                "iproute2-table-index"@,
                fields::maybe_int(self.iproute2_table_index),
            )
            + fields::optional("iproute2-rule-index"@, fields::maybe_int(self.iproute2_rule_index))
            + fields::optional("auto-redirect"@, fields::maybe_flag(self.auto_redirect))
            + fields::optional(
                "auto-redirect-input-mark"@,
                fields::maybe_uint(self.auto_redirect_input_mark),
            )
            + fields::optional(
                "auto-redirect-output-mark"@,
                fields::maybe_uint(self.auto_redirect_output_mark),
            )
            + fields::optional(
                "auto-redirect-iproute2-fallback-rule-index"@,
                fields::maybe_int(self.auto_redirect_iproute2_fallback_rule_index),
            )
            + fields::optional("loopback-address"@, fields::maybe_texts(self.loopback_address))
            + fields::optional("strict-route"@, fields::maybe_flag(self.strict_route))
            + fields::optional("route-address"@, fields::maybe_texts(self.route_address))
            + fields::optional("route-address-set"@, fields::maybe_texts(self.route_address_set))
            + fields::optional(
                "route-exclude-address"@,
                fields::maybe_texts(self.route_exclude_address),
            )
            + fields::optional(
                "route-exclude-address-set"@,
                fields::maybe_texts(self.route_exclude_address_set),
            )
            + fields::optional("include-interface"@, fields::maybe_texts(self.include_interface))
            + fields::optional("exclude-interface"@, fields::maybe_texts(self.exclude_interface))
            + fields::optional("include-uid"@, fields::maybe_uints(self.include_uid))
            + fields::optional("include-uid-range"@, fields::maybe_texts(self.include_uid_range))
            + fields::optional("exclude-uid"@, fields::maybe_uints(self.exclude_uid))
            + fields::optional("exclude-uid-range"@, fields::maybe_texts(self.exclude_uid_range))
            + fields::optional(
                "include-android-user"@,
                fields::maybe_ints(self.include_android_user),
            )
            + fields::optional("include-package"@, fields::maybe_texts(self.include_package))
            + fields::optional("exclude-package"@, fields::maybe_texts(self.exclude_package))
            + fields::optional(
                "include-mac-address"@,
                fields::maybe_texts(self.include_mac_address),
            )
            + fields::optional(
                "exclude-mac-address"@,
                fields::maybe_texts(self.exclude_mac_address),
            )
            + fields::optional(
                "endpoint-independent-nat"@,
                fields::maybe_flag(self.endpoint_independent_nat),
            )
            + fields::optional("udp-timeout"@, fields::maybe_int(self.udp_timeout))
            + fields::optional("icmp-timeout"@, fields::maybe_int(self.icmp_timeout))
            + fields::optional("file-descriptor"@, fields::maybe_int(self.file_descriptor))
            + fields::optional(
                "inet4-route-address"@,
                fields::maybe_texts(self.inet4_route_address),
            )
            + fields::optional(
                "inet6-route-address"@,
                fields::maybe_texts(self.inet6_route_address),
            )
            + fields::optional(
                "inet4-route-exclude-address"@,
                fields::maybe_texts(self.inet4_route_exclude_address),
            )
            + fields::optional(
                "inet6-route-exclude-address"@,
                fields::maybe_texts(self.inet6_route_exclude_address),
            )
            + fields::optional("recvmsgx"@, fields::maybe_flag(self.recvmsgx))
            + fields::optional("sendmsgx"@, fields::maybe_flag(self.sendmsgx))
    }

    /// The fields as a document.
    pub fn to_tree(&self) -> (r: Vec<(Datum, Datum)>)
        ensures
            value::entries(r@) == self.tree(),
    {
        let mut out: Vec<(Datum, Datum)> = Vec::new();
        assert(value::entries(out@) =~= Seq::<(Node, Node)>::empty());
        push_optional(&mut out, "enable", given(flag_value(self.enable)));
        push_optional(&mut out, "device", maybe_text_value(&self.device));
        push_optional(&mut out, "stack", maybe_text_value(&self.stack));
        push_optional(&mut out, "dns-hijack", maybe_texts_value(&self.dns_hijack));
        push_optional(&mut out, "auto-route", maybe_flag_value(&self.auto_route));
        push_optional(
            &mut out,
            "auto-detect-interface",
            maybe_flag_value(&self.auto_detect_interface),
        );
        push_optional(&mut out, "mtu", maybe_uint_value(&self.mtu));
        push_optional(&mut out, "gso", maybe_flag_value(&self.gso));
        push_optional(&mut out, "gso-max-size", maybe_uint_value(&self.gso_max_size));
        push_optional(&mut out, "inet6-address", maybe_texts_value(&self.inet6_address));
        push_optional(
            &mut out,
            "iproute2-table-index",
            maybe_int_value(&self.iproute2_table_index),
        );
        push_optional(&mut out, "iproute2-rule-index", maybe_int_value(&self.iproute2_rule_index));
        push_optional(&mut out, "auto-redirect", maybe_flag_value(&self.auto_redirect));
        push_optional(
            &mut out,
            "auto-redirect-input-mark",
            maybe_uint_value(&self.auto_redirect_input_mark),
        );
        push_optional(
            &mut out,
            "auto-redirect-output-mark",
            maybe_uint_value(&self.auto_redirect_output_mark),
        );
        push_optional(
            &mut out,
            "auto-redirect-iproute2-fallback-rule-index",
            maybe_int_value(&self.auto_redirect_iproute2_fallback_rule_index),
        );
        push_optional(&mut out, "loopback-address", maybe_texts_value(&self.loopback_address));
        push_optional(&mut out, "strict-route", maybe_flag_value(&self.strict_route));
        push_optional(&mut out, "route-address", maybe_texts_value(&self.route_address));
        push_optional(&mut out, "route-address-set", maybe_texts_value(&self.route_address_set));
        push_optional(
            &mut out,
            "route-exclude-address",
            maybe_texts_value(&self.route_exclude_address),
        );
        push_optional(
            &mut out,
            "route-exclude-address-set",
            maybe_texts_value(&self.route_exclude_address_set),
        );
        push_optional(&mut out, "include-interface", maybe_texts_value(&self.include_interface));
        push_optional(&mut out, "exclude-interface", maybe_texts_value(&self.exclude_interface));
        push_optional(&mut out, "include-uid", maybe_uints_value(&self.include_uid));
        push_optional(&mut out, "include-uid-range", maybe_texts_value(&self.include_uid_range));
        push_optional(&mut out, "exclude-uid", maybe_uints_value(&self.exclude_uid));
        push_optional(&mut out, "exclude-uid-range", maybe_texts_value(&self.exclude_uid_range));
        push_optional(
            &mut out,
            "include-android-user",
            maybe_ints_value(&self.include_android_user),
        );
        push_optional(&mut out, "include-package", maybe_texts_value(&self.include_package));
        push_optional(&mut out, "exclude-package", maybe_texts_value(&self.exclude_package));
        push_optional(
            &mut out,
            "include-mac-address",
            maybe_texts_value(&self.include_mac_address),
        );
        push_optional(
            &mut out,
            "exclude-mac-address",
            maybe_texts_value(&self.exclude_mac_address),
        );
        push_optional(
            &mut out,
            "endpoint-independent-nat",
            maybe_flag_value(&self.endpoint_independent_nat),
        );
        push_optional(&mut out, "udp-timeout", maybe_int_value(&self.udp_timeout));
        push_optional(&mut out, "icmp-timeout", maybe_int_value(&self.icmp_timeout));
        push_optional(&mut out, "file-descriptor", maybe_int_value(&self.file_descriptor));
        push_optional(
            &mut out,
            "inet4-route-address",
            maybe_texts_value(&self.inet4_route_address),
        );
        push_optional(
            &mut out,
            "inet6-route-address",
            maybe_texts_value(&self.inet6_route_address),
        );
        push_optional(
            &mut out,
            "inet4-route-exclude-address",
            maybe_texts_value(&self.inet4_route_exclude_address),
        );
        push_optional(
            &mut out,
            "inet6-route-exclude-address",
            maybe_texts_value(&self.inet6_route_exclude_address),
        );
        push_optional(&mut out, "recvmsgx", maybe_flag_value(&self.recvmsgx));
        push_optional(&mut out, "sendmsgx", maybe_flag_value(&self.sendmsgx));
        out
    }

    /// The fields as one value.
    pub fn to_value(&self) -> (r: Datum)
        ensures
            r@ == Node::Table(self.tree()),
    {
        let table = self.to_tree();
        proof {
            Datum::lemma_table(table);
        }
        Datum::Table(table)
    }
}

/// A part that may be unset.
#[verifier::opaque]
pub open spec fn maybe_tun_patch(v: Option<TunPatch>) -> Option<Node> {
    match v {
        Some(v) => Some(Node::Table(v.tree())),
        None => None,
    }
}

fn maybe_tun_patch_value(v: &Option<TunPatch>) -> (r: Option<Datum>)
    ensures
        fields::option_node(r) == maybe_tun_patch(*v),
{
    reveal(fields::option_node);
    reveal(maybe_tun_patch);
    match v {
        Some(v) => Some(v.to_value()),
        None => None,
    }
}

/// A change of the TUIC listener.
#[derive(Debug, Clone, Default, PartialEq, Eq)]
pub struct TuicServerPatch {
    pub enable: bool,
    pub listen: Option<String>,
    pub token: Option<Vec<String>>,
    pub users: Option<Vec<(String, String)>>,
    pub certificate: Option<String>,
    pub private_key: Option<String>,
    pub congestion_controller: Option<String>,
    pub max_idle_time: Option<i64>,
    pub authentication_timeout: Option<i64>,
    pub alpn: Option<Vec<String>>,
    pub max_udp_relay_packet_size: Option<i64>,
    pub cwnd: Option<i64>,
    pub bbr_profile: Option<String>,
}

impl TuicServerPatch {
    /// Every field is set.
    pub open spec fn complete(&self) -> bool {
        &&& self.listen is Some
        &&& self.token is Some
        &&& self.users is Some
        &&& self.certificate is Some
        &&& self.private_key is Some
        &&& self.congestion_controller is Some
        &&& self.max_idle_time is Some
        &&& self.authentication_timeout is Some
        &&& self.alpn is Some
        &&& self.max_udp_relay_packet_size is Some
        &&& self.cwnd is Some
        &&& self.bbr_profile is Some
    }

    /// The fields as a document.
    pub open spec fn tree(&self) -> Seq<(Node, Node)> {
        Seq::<(Node, Node)>::empty()
            + fields::optional("enable"@, Some(fields::flag_node(self.enable)))
            + fields::optional("listen"@, fields::maybe_text(self.listen))
            + fields::optional("token"@, fields::maybe_texts(self.token))
            + fields::optional("users"@, fields::maybe_pairs(self.users))
            + fields::optional("certificate"@, fields::maybe_text(self.certificate))
            + fields::optional("private-key"@, fields::maybe_text(self.private_key))
            + fields::optional(
                "congestion-controller"@,
                fields::maybe_text(self.congestion_controller),
            )
            + fields::optional("max-idle-time"@, fields::maybe_int(self.max_idle_time))
            + fields::optional(
                "authentication-timeout"@,
                fields::maybe_int(self.authentication_timeout),
            )
            + fields::optional("alpn"@, fields::maybe_texts(self.alpn))
            + fields::optional(
                "max-udp-relay-packet-size"@,
                fields::maybe_int(self.max_udp_relay_packet_size),
            )
            + fields::optional("cwnd"@, fields::maybe_int(self.cwnd))
            + fields::optional("bbr-profile"@, fields::maybe_text(self.bbr_profile))
    }

    /// The fields as a document.
    pub fn to_tree(&self) -> (r: Vec<(Datum, Datum)>)
        ensures
            value::entries(r@) == self.tree(),
    {
        let mut out: Vec<(Datum, Datum)> = Vec::new();
        assert(value::entries(out@) =~= Seq::<(Node, Node)>::empty());
        push_optional(&mut out, "enable", given(flag_value(self.enable)));
        push_optional(&mut out, "listen", maybe_text_value(&self.listen));
        push_optional(&mut out, "token", maybe_texts_value(&self.token));
        push_optional(&mut out, "users", maybe_pairs_value(&self.users));
        push_optional(&mut out, "certificate", maybe_text_value(&self.certificate));
        push_optional(&mut out, "private-key", maybe_text_value(&self.private_key));
        push_optional(
            &mut out,
            "congestion-controller",
            maybe_text_value(&self.congestion_controller),
        );
        push_optional(&mut out, "max-idle-time", maybe_int_value(&self.max_idle_time));
        push_optional(
            &mut out,
            "authentication-timeout",
            maybe_int_value(&self.authentication_timeout),
        );
        push_optional(&mut out, "alpn", maybe_texts_value(&self.alpn));
        push_optional(
            &mut out,
            "max-udp-relay-packet-size",
            maybe_int_value(&self.max_udp_relay_packet_size),
        );
        push_optional(&mut out, "cwnd", maybe_int_value(&self.cwnd));
        push_optional(&mut out, "bbr-profile", maybe_text_value(&self.bbr_profile));
        out
    }

    /// The fields as one value.
    pub fn to_value(&self) -> (r: Datum)
        ensures
            r@ == Node::Table(self.tree()),
    {
        let table = self.to_tree();
        proof {
            Datum::lemma_table(table);
        }
        Datum::Table(table)
    }
}

/// A part that may be unset.
#[verifier::opaque]
pub open spec fn maybe_tuic_patch(v: Option<TuicServerPatch>) -> Option<Node> {
    match v {
        Some(v) => Some(Node::Table(v.tree())),
        None => None,
    }
}

fn maybe_tuic_patch_value(v: &Option<TuicServerPatch>) -> (r: Option<Datum>)
    ensures
        fields::option_node(r) == maybe_tuic_patch(*v),
{
    reveal(fields::option_node);
    reveal(maybe_tuic_patch);
    match v {
        Some(v) => Some(v.to_value()),
        None => None,
    }
}

/// The part of a `PATCH /configs` body that can be verified against
/// [`RuntimeConfig`]. Fields that are not set are not sent.
#[derive(Debug, Clone, Default, PartialEq, Eq)]
pub struct ConfigPatch {
    pub port: Option<i64>,
    pub socks_port: Option<i64>,
    pub redir_port: Option<i64>,
    pub tproxy_port: Option<i64>,
    pub mixed_port: Option<i64>,
    pub tun: Option<TunPatch>,
    pub tuic_server: Option<TuicServerPatch>,
    pub ss_config: Option<String>,
    pub vmess_config: Option<String>,
    pub tcptun_config: Option<String>,
    pub udptun_config: Option<String>,
    pub allow_lan: Option<bool>,
    pub skip_auth_prefixes: Option<Vec<String>>,
    pub lan_allowed_ips: Option<Vec<String>>,
    pub lan_disallowed_ips: Option<Vec<String>>,
    pub bind_address: Option<String>,
    pub mode: Option<String>,
    pub log_level: Option<String>,
    pub ipv6: Option<bool>,
    pub sniffing: Option<bool>,
    pub tcp_concurrent: Option<bool>,
    pub find_process_mode: Option<String>,
    pub interface_name: Option<String>,
}

impl ConfigPatch {
    /// Every field is set.
    pub open spec fn complete(&self) -> bool {
        &&& self.port is Some
        &&& self.socks_port is Some
        &&& self.redir_port is Some
        &&& self.tproxy_port is Some
        &&& self.mixed_port is Some
        &&& self.tun is Some
        &&& self.tuic_server is Some
        &&& self.ss_config is Some
        &&& self.vmess_config is Some
        &&& self.tcptun_config is Some
        &&& self.udptun_config is Some
        &&& self.allow_lan is Some
        &&& self.skip_auth_prefixes is Some
        &&& self.lan_allowed_ips is Some
        &&& self.lan_disallowed_ips is Some
        &&& self.bind_address is Some
        &&& self.mode is Some
        &&& self.log_level is Some
        &&& self.ipv6 is Some
        &&& self.sniffing is Some
        &&& self.tcp_concurrent is Some
        &&& self.find_process_mode is Some
        &&& self.interface_name is Some
    }

    /// The fields as a document.
    pub open spec fn tree(&self) -> Seq<(Node, Node)> {
        Seq::<(Node, Node)>::empty()
            + fields::optional("port"@, fields::maybe_int(self.port))
            + fields::optional("socks-port"@, fields::maybe_int(self.socks_port))
            + fields::optional("redir-port"@, fields::maybe_int(self.redir_port))
            + fields::optional("tproxy-port"@, fields::maybe_int(self.tproxy_port))
            + fields::optional("mixed-port"@, fields::maybe_int(self.mixed_port))
            + fields::optional("tun"@, maybe_tun_patch(self.tun))
            + fields::optional("tuic-server"@, maybe_tuic_patch(self.tuic_server))
            + fields::optional("ss-config"@, fields::maybe_text(self.ss_config))
            + fields::optional("vmess-config"@, fields::maybe_text(self.vmess_config))
            + fields::optional("tcptun-config"@, fields::maybe_text(self.tcptun_config))
            + fields::optional("udptun-config"@, fields::maybe_text(self.udptun_config))
            + fields::optional("allow-lan"@, fields::maybe_flag(self.allow_lan))
            + fields::optional("skip-auth-prefixes"@, fields::maybe_texts(self.skip_auth_prefixes))
            + fields::optional("lan-allowed-ips"@, fields::maybe_texts(self.lan_allowed_ips))
            + fields::optional("lan-disallowed-ips"@, fields::maybe_texts(self.lan_disallowed_ips))
            + fields::optional("bind-address"@, fields::maybe_text(self.bind_address))
            + fields::optional("mode"@, fields::maybe_text(self.mode))
            + fields::optional("log-level"@, fields::maybe_text(self.log_level))
            + fields::optional("ipv6"@, fields::maybe_flag(self.ipv6))
            + fields::optional("sniffing"@, fields::maybe_flag(self.sniffing))
            + fields::optional("tcp-concurrent"@, fields::maybe_flag(self.tcp_concurrent))
            + fields::optional("find-process-mode"@, fields::maybe_text(self.find_process_mode))
            + fields::optional("interface-name"@, fields::maybe_text(self.interface_name))
    }

    /// The fields as a document.
    pub fn to_tree(&self) -> (r: Vec<(Datum, Datum)>)
        ensures
            value::entries(r@) == self.tree(),
    {
        let mut out: Vec<(Datum, Datum)> = Vec::new();
        assert(value::entries(out@) =~= Seq::<(Node, Node)>::empty());
        push_optional(&mut out, "port", maybe_int_value(&self.port));
        push_optional(&mut out, "socks-port", maybe_int_value(&self.socks_port));
        push_optional(&mut out, "redir-port", maybe_int_value(&self.redir_port));
        push_optional(&mut out, "tproxy-port", maybe_int_value(&self.tproxy_port));
        push_optional(&mut out, "mixed-port", maybe_int_value(&self.mixed_port));
        push_optional(&mut out, "tun", maybe_tun_patch_value(&self.tun));
        push_optional(&mut out, "tuic-server", maybe_tuic_patch_value(&self.tuic_server));
        push_optional(&mut out, "ss-config", maybe_text_value(&self.ss_config));
        push_optional(&mut out, "vmess-config", maybe_text_value(&self.vmess_config));
        push_optional(&mut out, "tcptun-config", maybe_text_value(&self.tcptun_config));
        push_optional(&mut out, "udptun-config", maybe_text_value(&self.udptun_config));
        push_optional(&mut out, "allow-lan", maybe_flag_value(&self.allow_lan));
        push_optional(&mut out, "skip-auth-prefixes", maybe_texts_value(&self.skip_auth_prefixes));
        push_optional(&mut out, "lan-allowed-ips", maybe_texts_value(&self.lan_allowed_ips));
        push_optional(&mut out, "lan-disallowed-ips", maybe_texts_value(&self.lan_disallowed_ips));
        push_optional(&mut out, "bind-address", maybe_text_value(&self.bind_address));
        push_optional(&mut out, "mode", maybe_text_value(&self.mode));
        push_optional(&mut out, "log-level", maybe_text_value(&self.log_level));
        push_optional(&mut out, "ipv6", maybe_flag_value(&self.ipv6));
        push_optional(&mut out, "sniffing", maybe_flag_value(&self.sniffing));
        push_optional(&mut out, "tcp-concurrent", maybe_flag_value(&self.tcp_concurrent));
        push_optional(&mut out, "find-process-mode", maybe_text_value(&self.find_process_mode));
        push_optional(&mut out, "interface-name", maybe_text_value(&self.interface_name));
        out
    }

    /// The fields as one value.
    pub fn to_value(&self) -> (r: Datum)
        ensures
            r@ == Node::Table(self.tree()),
    {
        let table = self.to_tree();
        proof {
            Datum::lemma_table(table);
        }
        Datum::Table(table)
    }
}

/// What a configuration change is expected to show: a value at each of some
/// places, and nothing about any other.
#[derive(Debug)]
pub struct RuntimeProjection {
    expected: Vec<(Vec<String>, Datum)>,
}

/// Every expected value stands at its place.
pub open spec fn agrees(expected: Seq<(Seq<Seq<char>>, Node)>, actual: Node) -> bool {
    forall|i: int|
        0 <= i < expected.len() ==> shows(actual, (#[trigger] expected[i]).0, expected[i].1)
}

/// What the document holds at the path says the same as the given node.
pub open spec fn shows(actual: Node, path: Seq<Seq<char>>, expected: Node) -> bool {
    tree::at_path(actual, path) matches Some(found) && value::alike(found, expected)
}

impl RuntimeProjection {
    pub closed spec fn view(&self) -> Seq<(Seq<Seq<char>>, Node)> {
        tree::leaf_views(self.expected@)
    }

    /// What a change is expected to show: the leaves of what it carries.
    pub fn from_patch(patch: &ConfigPatch) -> (r: RuntimeProjection)
        ensures
            r@ == tree::leaves(Node::Table(patch.tree()), Seq::empty()),
    {
        RuntimeProjection::from_value(&patch.to_value())
    }

    /// What a document is expected to show: its leaves.
    pub fn from_value(value: &Datum) -> (r: RuntimeProjection)
        ensures
            r@ == tree::leaves(value@, Seq::empty()),
    {
        let mut expected: Vec<(Vec<String>, Datum)> = Vec::new();
        let top: Vec<String> = Vec::new();
        assert(tree::path_of(top@) =~= Seq::empty());
        assert(tree::leaf_views(expected@) =~= Seq::empty());
        collect_leaves(value, &top, &mut expected);
        assert(Seq::empty() + tree::leaves(value@, Seq::empty()) =~= tree::leaves(
            value@,
            Seq::empty(),
        ));
        RuntimeProjection { expected }
    }

    /// Whether a running configuration shows what is expected.
    pub fn verify(&self, actual: &RuntimeConfig) -> (r: bool)
        ensures
            r == agrees(self@, Node::Table(actual.tree())),
    {
        self.verify_value(&actual.to_value())
    }

    /// Whether a document shows what is expected.
    pub fn verify_value(&self, actual: &Datum) -> (r: bool)
        ensures
            r == agrees(self@, actual@),
    {
        let mut i: usize = 0;
        while i < self.expected.len()
            invariant
                i <= self.expected@.len(),
                forall|j: int|
                    0 <= j < i ==> shows(actual@, (#[trigger] self@[j]).0, self@[j].1),
            decreases self.expected@.len() - i,
        {
            assert(self@[i as int] == (
                tree::path_of(self.expected@[i as int].0@),
                self.expected@[i as int].1@,
            ));
            let found = match value_at(actual, &self.expected[i].0) {
                Some(v) => v.same(&self.expected[i].1),
                None => false,
            };
            if !found {
                return false;
            }
            i += 1;
        }
        true
    }
}

/// A document shows what is expected of itself.
pub proof fn law_projection_of_itself(node: Node)
    requires
        tree::well_keyed(node),
    ensures
        agrees(tree::leaves(node, Seq::empty()), node),
{
    let expected = tree::leaves(node, Seq::empty());
    assert forall|i: int| 0 <= i < expected.len() implies shows(
        node,
        (#[trigger] expected[i]).0,
        expected[i].1,
    ) by {
        tree::law_leaves_are_found(node, Seq::empty(), i);
        value::law_equal_is_alike(expected[i].1);
        assert(expected[i].0.skip(0) =~= expected[i].0);
    }
}

/// Only the places that are expected matter: documents that agree there are
/// judged alike.
pub proof fn law_projection_is_field_scoped(
    expected: Seq<(Seq<Seq<char>>, Node)>,
    a: Node,
    b: Node,
)
    requires
        forall|i: int|
            0 <= i < expected.len() ==> tree::at_path(a, (#[trigger] expected[i]).0)
                == tree::at_path(b, expected[i].0),
    ensures
        agrees(expected, a) == agrees(expected, b),
{
    if agrees(expected, a) {
        assert(agrees(expected, b));
    }
    if agrees(expected, b) {
        assert(agrees(expected, a));
    }
}

/// A change that was verified is shown: whatever it sets at a place, the running
/// configuration says the same there.
pub proof fn law_verified_changes_are_shown(
    change: Node,
    actual: Node,
    path: Seq<Seq<char>>,
    set: Node,
)
    requires
        agrees(tree::leaves(change, Seq::empty()), actual),
        tree::at_path(change, path) == Some(set),
        !(set is Table),
    ensures
        tree::at_path(actual, path) matches Some(found) && value::alike(found, set),
{
    tree::law_no_leaf_is_missed(change, Seq::empty(), path, set);
    assert(Seq::<Seq<char>>::empty() + path =~= path);
    let leaves = tree::leaves(change, Seq::empty());
    let i = choose|i: int| 0 <= i < leaves.len() && leaves[i] == (path, set);
    assert(shows(actual, leaves[i].0, leaves[i].1));
}

/// A running configuration that says at every place of a change what the change says
/// passes, whatever it says elsewhere.
pub proof fn law_shown_changes_are_verified(change: Node, actual: Node)
    requires
        tree::well_keyed(change),
        forall|path: Seq<Seq<char>>|
            (#[trigger] tree::at_path(change, path)) matches Some(set) ==> (set is Table || (
            tree::at_path(actual, path) matches Some(found) && value::alike(found, set))),
    ensures
        agrees(tree::leaves(change, Seq::empty()), actual),
{
    let leaves = tree::leaves(change, Seq::empty());
    tree::lemma_leaves_are_no_tables(change, Seq::empty());
    assert forall|i: int| 0 <= i < leaves.len() implies shows(
        actual,
        (#[trigger] leaves[i]).0,
        leaves[i].1,
    ) by {
        tree::law_leaves_are_found(change, Seq::empty(), i);
        assert(leaves[i].0.skip(0) =~= leaves[i].0);
        assert(tree::at_path(change, leaves[i].0) == Some(leaves[i].1));
    }
}

} // verus!
