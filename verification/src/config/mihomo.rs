//! Which changes a running core can take over, and how.
//!
//! Everything is denied by default: only fields that are known to be safe are
//! changed in place. Everything else takes a new process.

use vstd::prelude::*;
use vstd::string::*;

use crate::clash_api::config as api;
use crate::clash_api::config::{
    ConfigPatch, RuntimeConfig, RuntimeTuicServer, RuntimeTun, TuicServerPatch, TunPatch,
};
use crate::clash_api::fields;
use crate::error::Error;
use crate::metadata::kind::ClashCoreKind;
use crate::path;
use crate::path::same_path;
use crate::spec;
use crate::spec::InstanceSpec;
use crate::text;
use crate::text::{contains, ends_with, str_eq, str_lt};
use crate::tree;
use crate::tree::{diff, DiffEntry};
use crate::value;
use crate::value::{copy_entries, get, insert, Datum, Node, Number};

verus! {

// ---------------------------------------------------------------------------
// Fields
// ---------------------------------------------------------------------------

/// The fields that say where the controller is.
#[verifier::opaque]
pub open spec fn controller_field(s: Seq<char>) -> bool {
    ||| s == "external-controller"@
    ||| s == "external-controller-pipe"@
    ||| s == "external-controller-unix"@
    ||| s == "secret"@
}

fn is_controller_field(s: &str) -> (r: bool)
    ensures
        r == controller_field(s@),
{
    reveal(controller_field);
    str_eq(s, "external-controller")
        || str_eq(s, "external-controller-pipe")
        || str_eq(s, "external-controller-unix")
        || str_eq(s, "secret")
}

/// The fields that a running core can be told of one by one.
#[verifier::opaque]
pub open spec fn patch_field(s: Seq<char>) -> bool {
    ||| s == "port"@
    ||| s == "socks-port"@
    ||| s == "redir-port"@
    ||| s == "tproxy-port"@
    ||| s == "mixed-port"@
    ||| s == "tun"@
    ||| s == "tuic-server"@
    ||| s == "ss-config"@
    ||| s == "vmess-config"@
    ||| s == "tcptun-config"@
    ||| s == "udptun-config"@
    ||| s == "allow-lan"@
    ||| s == "skip-auth-prefixes"@
    ||| s == "lan-allowed-ips"@
    ||| s == "lan-disallowed-ips"@
    ||| s == "bind-address"@
    ||| s == "mode"@
    ||| s == "log-level"@
    ||| s == "ipv6"@
    ||| s == "sniffing"@
    ||| s == "tcp-concurrent"@
    ||| s == "find-process-mode"@
    ||| s == "interface-name"@
}

fn is_patch_field(s: &str) -> (r: bool)
    ensures
        r == patch_field(s@),
{
    reveal(patch_field);
    str_eq(s, "port")
        || str_eq(s, "socks-port")
        || str_eq(s, "redir-port")
        || str_eq(s, "tproxy-port")
        || str_eq(s, "mixed-port")
        || str_eq(s, "tun")
        || str_eq(s, "tuic-server")
        || str_eq(s, "ss-config")
        || str_eq(s, "vmess-config")
        || str_eq(s, "tcptun-config")
        || str_eq(s, "udptun-config")
        || str_eq(s, "allow-lan")
        || str_eq(s, "skip-auth-prefixes")
        || str_eq(s, "lan-allowed-ips")
        || str_eq(s, "lan-disallowed-ips")
        || str_eq(s, "bind-address")
        || str_eq(s, "mode")
        || str_eq(s, "log-level")
        || str_eq(s, "ipv6")
        || str_eq(s, "sniffing")
        || str_eq(s, "tcp-concurrent")
        || str_eq(s, "find-process-mode")
        || str_eq(s, "interface-name")
}

/// The parts of `tun` that a running core can be told of.
#[verifier::opaque]
pub open spec fn tun_field(s: Seq<char>) -> bool {
    ||| s == "enable"@
    ||| s == "device"@
    ||| s == "stack"@
    ||| s == "dns-hijack"@
    ||| s == "auto-route"@
    ||| s == "auto-detect-interface"@
    ||| s == "mtu"@
    ||| s == "gso"@
    ||| s == "gso-max-size"@
    ||| s == "inet6-address"@
    ||| s == "iproute2-table-index"@
    ||| s == "iproute2-rule-index"@
    ||| s == "auto-redirect"@
    ||| s == "auto-redirect-input-mark"@
    ||| s == "auto-redirect-output-mark"@
    ||| s == "auto-redirect-iproute2-fallback-rule-index"@
    ||| s == "loopback-address"@
    ||| s == "strict-route"@
    ||| s == "route-address"@
    ||| s == "route-address-set"@
    ||| s == "route-exclude-address"@
    ||| s == "route-exclude-address-set"@
    ||| s == "include-interface"@
    ||| s == "exclude-interface"@
    ||| s == "include-uid"@
    ||| s == "include-uid-range"@
    ||| s == "exclude-uid"@
    ||| s == "exclude-uid-range"@
    ||| s == "include-android-user"@
    ||| s == "include-package"@
    ||| s == "exclude-package"@
    ||| s == "include-mac-address"@
    ||| s == "exclude-mac-address"@
    ||| s == "endpoint-independent-nat"@
    ||| s == "udp-timeout"@
    ||| s == "icmp-timeout"@
    ||| s == "file-descriptor"@
    ||| s == "inet4-route-address"@
    ||| s == "inet6-route-address"@
    ||| s == "inet4-route-exclude-address"@
    ||| s == "inet6-route-exclude-address"@
    ||| s == "recvmsgx"@
    ||| s == "sendmsgx"@
}

fn is_tun_field(s: &str) -> (r: bool)
    ensures
        r == tun_field(s@),
{
    reveal(tun_field);
    str_eq(s, "enable")
        || str_eq(s, "device")
        || str_eq(s, "stack")
        || str_eq(s, "dns-hijack")
        || str_eq(s, "auto-route")
        || str_eq(s, "auto-detect-interface")
        || str_eq(s, "mtu")
        || str_eq(s, "gso")
        || str_eq(s, "gso-max-size")
        || str_eq(s, "inet6-address")
        || str_eq(s, "iproute2-table-index")
        || str_eq(s, "iproute2-rule-index")
        || str_eq(s, "auto-redirect")
        || str_eq(s, "auto-redirect-input-mark")
        || str_eq(s, "auto-redirect-output-mark")
        || str_eq(s, "auto-redirect-iproute2-fallback-rule-index")
        || str_eq(s, "loopback-address")
        || str_eq(s, "strict-route")
        || str_eq(s, "route-address")
        || str_eq(s, "route-address-set")
        || str_eq(s, "route-exclude-address")
        || str_eq(s, "route-exclude-address-set")
        || str_eq(s, "include-interface")
        || str_eq(s, "exclude-interface")
        || str_eq(s, "include-uid")
        || str_eq(s, "include-uid-range")
        || str_eq(s, "exclude-uid")
        || str_eq(s, "exclude-uid-range")
        || str_eq(s, "include-android-user")
        || str_eq(s, "include-package")
        || str_eq(s, "exclude-package")
        || str_eq(s, "include-mac-address")
        || str_eq(s, "exclude-mac-address")
        || str_eq(s, "endpoint-independent-nat")
        || str_eq(s, "udp-timeout")
        || str_eq(s, "icmp-timeout")
        || str_eq(s, "file-descriptor")
        || str_eq(s, "inet4-route-address")
        || str_eq(s, "inet6-route-address")
        || str_eq(s, "inet4-route-exclude-address")
        || str_eq(s, "inet6-route-exclude-address")
        || str_eq(s, "recvmsgx")
        || str_eq(s, "sendmsgx")
}

/// The parts of `tuic-server` that a running core can be told of.
#[verifier::opaque]
pub open spec fn tuic_field(s: Seq<char>) -> bool {
    ||| s == "enable"@
    ||| s == "listen"@
    ||| s == "token"@
    ||| s == "users"@
    ||| s == "certificate"@
    ||| s == "private-key"@
    ||| s == "congestion-controller"@
    ||| s == "max-idle-time"@
    ||| s == "authentication-timeout"@
    ||| s == "alpn"@
    ||| s == "max-udp-relay-packet-size"@
    ||| s == "cwnd"@
    ||| s == "bbr-profile"@
}

fn is_tuic_field(s: &str) -> (r: bool)
    ensures
        r == tuic_field(s@),
{
    reveal(tuic_field);
    str_eq(s, "enable")
        || str_eq(s, "listen")
        || str_eq(s, "token")
        || str_eq(s, "users")
        || str_eq(s, "certificate")
        || str_eq(s, "private-key")
        || str_eq(s, "congestion-controller")
        || str_eq(s, "max-idle-time")
        || str_eq(s, "authentication-timeout")
        || str_eq(s, "alpn")
        || str_eq(s, "max-udp-relay-packet-size")
        || str_eq(s, "cwnd")
        || str_eq(s, "bbr-profile")
}

/// The fields that a running core takes over when it reads its file again.
#[verifier::opaque]
pub open spec fn reload_field(s: Seq<char>) -> bool {
    ||| s == "proxies"@
    ||| s == "proxy-groups"@
    ||| s == "proxy-providers"@
    ||| s == "rule-providers"@
    ||| s == "providers"@
    ||| s == "rules"@
    ||| s == "hosts"@
    ||| s == "dns"@
}

fn is_reload_field(s: &str) -> (r: bool)
    ensures
        r == reload_field(s@),
{
    reveal(reload_field);
    str_eq(s, "proxies")
        || str_eq(s, "proxy-groups")
        || str_eq(s, "proxy-providers")
        || str_eq(s, "rule-providers")
        || str_eq(s, "providers")
        || str_eq(s, "rules")
        || str_eq(s, "hosts")
        || str_eq(s, "dns")
}

// ---------------------------------------------------------------------------
// A core that takes in nothing
// ---------------------------------------------------------------------------

/// The table with the port under `key` closed.
pub open spec fn port_closed(table: Seq<(Node, Node)>, key: Seq<char>) -> Seq<(Node, Node)> {
    match value::lookup(table, key) {
        Some(node) => match node.int64() {
            Some(port) => if port != 0 {
                value::inserted(table, key, Node::Int(0))
            } else {
                table
            },
            None => table,
        },
        None => table,
    }
}

/// The table with its `tun` device off.
pub open spec fn tun_off(table: Seq<(Node, Node)>) -> Seq<(Node, Node)> {
    match value::lookup(table, "tun"@) {
        Some(node) => match node.table() {
            Some(tun) => if switched_on(tun) {
                value::inserted(
                    table,
                    "tun"@,
                    node.with_table(value::inserted(tun, "enable"@, Node::Bool(false))),
                )
            } else {
                table
            },
            None => table,
        },
        None => table,
    }
}

/// What is described is on.
pub open spec fn switched_on(table: Seq<(Node, Node)>) -> bool {
    value::lookup(table, "enable"@) matches Some(flag) && flag.flag() == Some(true)
}

/// The document of a core that takes in nothing: its ports are closed and its
/// `tun` device is off.
pub open spec fn zeroed(table: Seq<(Node, Node)>) -> Seq<(Node, Node)> {
    tun_off(
        port_closed(
            port_closed(
                port_closed(
                    port_closed(port_closed(table, "port"@), "socks-port"@),
                    "redir-port"@,
                ),
                "tproxy-port"@,
            ),
            "mixed-port"@,
        ),
    )
}

fn close_port(document: &mut Vec<(Datum, Datum)>, key: &str)
    ensures
        value::entries(final(document)@) == port_closed(value::entries(old(document)@), key@),
{
    let open = match get(document, key) {
        Some(v) => match v.as_i64() {
            Some(port) => port != 0,
            None => false,
        },
        None => false,
    };
    if open {
        insert(document, key, Datum::Number(Number::Unsigned(0)));
    }
}

fn switch_tun_off(document: &mut Vec<(Datum, Datum)>)
    ensures
        value::entries(final(document)@) == tun_off(value::entries(old(document)@)),
{
    let changed = match get(document, "tun") {
        Some(v) => match v.as_table() {
            Some(tun) => {
                let on = match get(tun, "enable") {
                    Some(flag) => match flag.as_bool() {
                        Some(on) => on,
                        None => false,
                    },
                    None => false,
                };
                if on {
                    let mut off = copy_entries(tun);
                    insert(&mut off, "enable", Datum::Bool(false));
                    Some(v.with_table(off))
                } else {
                    None
                }
            },
            None => None,
        },
        None => None,
    };
    if let Some(off) = changed {
        insert(document, "tun", off);
    }
}

pub fn zero_inbounds(document: &mut Vec<(Datum, Datum)>)
    ensures
        value::entries(final(document)@) == zeroed(value::entries(old(document)@)),
{
    close_port(document, "port");
    close_port(document, "socks-port");
    close_port(document, "redir-port");
    close_port(document, "tproxy-port");
    close_port(document, "mixed-port");
    switch_tun_off(document);
}

// ---------------------------------------------------------------------------
// What a change takes
// ---------------------------------------------------------------------------

/// What has to be done for a changed configuration.
#[derive(Debug)]
pub enum ConfigChange {
    Noop,
    /// Tell the running core of the fields in the document.
    Patch { document: Vec<(Datum, Datum)> },
    /// Let the running core read its file again.
    Reload,
    /// Start a core anew.
    Switch,
}

pub open spec fn is_dns_listen(path: Seq<Seq<char>>) -> bool {
    path.len() > 1 && path[0] == "dns"@ && path[1] == "listen"@
}

fn names_dns_listen(path: &Vec<String>) -> (r: bool)
    ensures
        r == is_dns_listen(tree::path_of(path@)),
{
    path.len() > 1 && str_eq(path[0].as_str(), "dns") && str_eq(path[1].as_str(), "listen")
}

/// Where a core of this document answers DNS queries.
pub open spec fn dns_listen(table: Seq<(Node, Node)>) -> Option<Node> {
    match value::lookup(table, "dns"@) {
        Some(node) => match node.table() {
            Some(dns) => value::lookup(dns, "listen"@),
            None => None,
        },
        None => None,
    }
}

fn find_dns_listen(document: &Vec<(Datum, Datum)>) -> (r: Option<&Datum>)
    ensures
        match r {
            Some(v) => dns_listen(value::entries(document@)) == Some(v@),
            None => dns_listen(value::entries(document@)) is None,
        },
{
    match get(document, "dns") {
        Some(v) => match v.as_table() {
            Some(dns) => get(dns, "listen"),
            None => None,
        },
        None => None,
    }
}

/// A place below a field that a running core can be told of.
pub open spec fn nested_supported(path: Seq<Seq<char>>) -> bool {
    if path.len() == 0 {
        false
    } else if path[0] == "tun"@ {
        path.len() > 1 && tun_field(path[1])
    } else if path[0] == "tuic-server"@ {
        path.len() > 1 && tuic_field(path[1])
    } else {
        path.len() == 1
    }
}

pub fn patch_nested_path_is_supported(path: &Vec<String>) -> (r: bool)
    ensures
        r == nested_supported(tree::path_of(path@)),
{
    if path.len() == 0 {
        return false;
    }
    if str_eq(path[0].as_str(), "tun") {
        path.len() > 1 && is_tun_field(path[1].as_str())
    } else if str_eq(path[0].as_str(), "tuic-server") {
        path.len() > 1 && is_tuic_field(path[1].as_str())
    } else {
        path.len() == 1
    }
}

/// A difference that a running core can be told of: something new in a field that
/// is known to be safe.
pub open spec fn patchable(e: tree::DiffView) -> bool {
    e.new is Some && e.path.len() > 0 && patch_field(e.path[0]) && nested_supported(e.path)
}

/// A difference that a running core takes over when it reads its file again.
pub open spec fn reloadable(e: tree::DiffView) -> bool {
    e.path.len() > 0 && reload_field(e.path[0]) && !is_dns_listen(e.path) && !(e.path[0]
        == "dns"@ && e.path.len() == 1)
}

/// A difference after which a core has to be started anew, wherever it shows in
/// the source.
pub open spec fn binding(e: tree::DiffView) -> bool {
    (e.path.len() > 0 && controller_field(e.path[0])) || is_dns_listen(e.path)
}

fn entry_patchable(e: &DiffEntry) -> (r: bool)
    ensures
        r == patchable(e@),
{
    e.new.is_some() && e.path.len() > 0 && is_patch_field(e.path[0].as_str())
        && patch_nested_path_is_supported(&e.path)
}

fn entry_reloadable(e: &DiffEntry) -> (r: bool)
    ensures
        r == reloadable(e@),
{
    e.path.len() > 0 && is_reload_field(e.path[0].as_str()) && !names_dns_listen(&e.path) && !(
    str_eq(e.path[0].as_str(), "dns") && e.path.len() == 1)
}

fn entry_binding(e: &DiffEntry) -> (r: bool)
    ensures
        r == binding(e@),
{
    (e.path.len() > 0 && is_controller_field(e.path[0].as_str())) || names_dns_listen(&e.path)
}

pub open spec fn all_patchable(changes: Seq<tree::DiffView>) -> bool {
    forall|i: int| 0 <= i < changes.len() ==> patchable(#[trigger] changes[i])
}

pub open spec fn all_reloadable(changes: Seq<tree::DiffView>) -> bool {
    forall|i: int| 0 <= i < changes.len() ==> reloadable(#[trigger] changes[i])
}

pub open spec fn some_binding(changes: Seq<tree::DiffView>) -> bool {
    exists|i: int| 0 <= i < changes.len() && binding(#[trigger] changes[i])
}

fn check_patchable(changes: &Vec<DiffEntry>) -> (r: bool)
    ensures
        r == all_patchable(tree::diff_views(changes@)),
{
    let n: usize = changes.len();
    let mut i: usize = 0;
    while i < n
        invariant
            n == changes@.len(),
            i <= n,
            forall|j: int| 0 <= j < i ==> patchable(#[trigger] tree::diff_views(changes@)[j]),
        decreases n - i,
    {
        assert(tree::diff_views(changes@)[i as int] == changes@[i as int]@);
        if !entry_patchable(&changes[i]) {
            return false;
        }
        i += 1;
    }
    true
}

fn check_reloadable(changes: &Vec<DiffEntry>) -> (r: bool)
    ensures
        r == all_reloadable(tree::diff_views(changes@)),
{
    let n: usize = changes.len();
    let mut i: usize = 0;
    while i < n
        invariant
            n == changes@.len(),
            i <= n,
            forall|j: int| 0 <= j < i ==> reloadable(#[trigger] tree::diff_views(changes@)[j]),
        decreases n - i,
    {
        assert(tree::diff_views(changes@)[i as int] == changes@[i as int]@);
        if !entry_reloadable(&changes[i]) {
            return false;
        }
        i += 1;
    }
    true
}

fn check_binding(changes: &Vec<DiffEntry>) -> (r: bool)
    ensures
        r == some_binding(tree::diff_views(changes@)),
{
    let n: usize = changes.len();
    let mut i: usize = 0;
    while i < n
        invariant
            n == changes@.len(),
            i <= n,
            forall|j: int| 0 <= j < i ==> !binding(#[trigger] tree::diff_views(changes@)[j]),
        decreases n - i,
    {
        assert(tree::diff_views(changes@)[i as int] == changes@[i as int]@);
        if entry_binding(&changes[i]) {
            return true;
        }
        i += 1;
    }
    false
}

// ---------------------------------------------------------------------------
// What a running core is told
// ---------------------------------------------------------------------------

/// How many of the texts come before `k`.
pub open spec fn root_slot(roots: Seq<Seq<char>>, k: Seq<char>) -> int
    decreases roots.len(),
{
    if roots.len() == 0 {
        0
    } else if text::text_lt(roots[0], k) {
        1 + root_slot(roots.drop_first(), k)
    } else {
        0
    }
}

/// The texts with `k` among them, once and in order.
pub open spec fn with_root(roots: Seq<Seq<char>>, k: Seq<char>) -> Seq<Seq<char>> {
    let i = root_slot(roots, k);
    if i < roots.len() && roots[i] == k {
        roots
    } else {
        roots.insert(i, k)
    }
}

/// The fields in which changes lie, each once and in order.
pub open spec fn roots(changes: Seq<tree::DiffView>) -> Seq<Seq<char>>
    decreases changes.len(),
{
    if changes.len() == 0 {
        seq![]
    } else {
        let before = roots(changes.drop_last());
        let e = changes.last();
        if e.path.len() > 0 {
            with_root(before, e.path[0])
        } else {
            before
        }
    }
}

proof fn lemma_root_slot(rs: Seq<Seq<char>>, k: Seq<char>, r: int)
    requires
        0 <= r <= rs.len(),
        forall|j: int| 0 <= j < r ==> text::text_lt(#[trigger] rs[j], k),
        r < rs.len() ==> !text::text_lt(rs[r], k),
    ensures
        root_slot(rs, k) == r,
    decreases rs.len(),
{
    if rs.len() > 0 && r > 0 {
        assert(text::text_lt(rs[0], k));
        assert forall|j: int| 0 <= j < r - 1 implies text::text_lt(
            #[trigger] rs.drop_first()[j],
            k,
        ) by {
            assert(rs.drop_first()[j] == rs[j + 1]);
        }
        lemma_root_slot(rs.drop_first(), k, r - 1);
    }
}

fn collect_roots(changes: &Vec<DiffEntry>) -> (r: Vec<String>)
    ensures
        text::strings(r@) == roots(tree::diff_views(changes@)),
{
    let mut out: Vec<String> = Vec::new();
    let n: usize = changes.len();
    let mut i: usize = 0;
    let ghost all = tree::diff_views(changes@);
    assert(all.take(0) =~= Seq::empty());
    assert(text::strings(out@) =~= Seq::empty());
    while i < n
        invariant
            n == changes@.len(),
            all == tree::diff_views(changes@),
            i <= n,
            text::strings(out@) == roots(all.take(i as int)),
        decreases n - i,
    {
        proof {
            assert(all.take(i + 1).drop_last() =~= all.take(i as int));
            assert(all.take(i + 1).last() == changes@[i as int]@);
        }
        if changes[i].path.len() > 0 {
            let key = changes[i].path[0].clone();
            assert(key@ == all[i as int].path[0]);
            let m: usize = out.len();
            let mut at: usize = 0;
            while at < m && str_lt(out[at].as_str(), key.as_str())
                invariant
                    m == out@.len(),
                    at <= m,
                    forall|j: int|
                        0 <= j < at ==> text::text_lt(#[trigger] text::strings(out@)[j], key@),
                decreases m - at,
            {
                assert(text::strings(out@)[at as int] == out@[at as int]@);
                at += 1;
            }
            proof {
                if at < m {
                    assert(text::strings(out@)[at as int] == out@[at as int]@);
                }
                lemma_root_slot(text::strings(out@), key@, at as int);
            }
            let there = at < m && str_eq(out[at].as_str(), key.as_str());
            if !there {
                let ghost before = text::strings(out@);
                out.insert(at, key);
                assert(text::strings(out@) =~= before.insert(at as int, key@));
            }
        }
        i += 1;
    }
    assert(all.take(n as int) =~= all);
    out
}

/// Why nothing can be told.
pub enum PatchFault {
    /// A field is not there.
    Missing,
    NotTable,
    KeyNotText,
}

/// Which parts of a field are told.
pub enum Allowed {
    Tun,
    Tuic,
}

pub open spec fn allows(allowed: Allowed, key: Seq<char>) -> bool {
    match allowed {
        Allowed::Tun => tun_field(key),
        Allowed::Tuic => tuic_field(key),
    }
}

/// The allowed entries of a table.
pub open spec fn allowed_entries(table: Seq<(Node, Node)>, allowed: Allowed) -> Result<
    Seq<(Node, Node)>,
    PatchFault,
>
    decreases table.len(),
{
    if table.len() == 0 {
        Ok(table)
    } else {
        match allowed_entries(table.drop_last(), allowed) {
            Err(fault) => Err(fault),
            Ok(kept) => match table.last().0.text() {
                Some(key) => if !allows(allowed, key) {
                    Ok(kept)
                } else if table.last().0 is Text {
                    Ok(value::inserted(kept, key, table.last().1))
                } else {
                    Ok(kept.push(table.last()))
                },
                None => Err(PatchFault::KeyNotText),
            },
        }
    }
}

/// What is told of a field: of the two big ones only the allowed parts.
pub open spec fn told(root: Seq<char>, node: Node) -> Result<Node, PatchFault> {
    if root == "tun"@ || root == "tuic-server"@ {
        match node.table() {
            Some(table) => match allowed_entries(
                table,
                if root == "tun"@ {
                    Allowed::Tun
                } else {
                    Allowed::Tuic
                },
            ) {
                Ok(kept) => Ok(Node::Table(kept)),
                Err(fault) => Err(fault),
            },
            None => Err(PatchFault::NotTable),
        }
    } else {
        Ok(node)
    }
}

/// What is told of all the given fields.
pub open spec fn told_all(desired: Seq<(Node, Node)>, rs: Seq<Seq<char>>) -> Result<
    Seq<(Node, Node)>,
    PatchFault,
>
    decreases rs.len(),
{
    if rs.len() == 0 {
        Ok(seq![])
    } else {
        match told_all(desired, rs.drop_last()) {
            Err(fault) => Err(fault),
            Ok(before) => match value::lookup(desired, rs.last()) {
                None => Err(PatchFault::Missing),
                Some(node) => match told(rs.last(), node) {
                    Ok(node) => Ok(value::inserted(before, rs.last(), node)),
                    Err(fault) => Err(fault),
                },
            },
        }
    }
}

fn filter_mapping(v: &Datum, allowed: Allowed) -> (r: Result<Datum, PatchFault>)
    ensures
        match v@.table() {
            Some(table) => match allowed_entries(table, allowed) {
                Ok(kept) => r matches Ok(d) && d@ == Node::Table(kept),
                Err(fault) => r == Err::<Datum, PatchFault>(fault),
            },
            None => r == Err::<Datum, PatchFault>(PatchFault::NotTable),
        },
{
    let table = match v.as_table() {
        Some(table) => table,
        None => return Err(PatchFault::NotTable),
    };
    let ghost all = value::entries(table@);
    let n: usize = table.len();
    let mut kept: Vec<(Datum, Datum)> = Vec::new();
    let mut i: usize = 0;
    assert(all.take(0) =~= Seq::empty());
    assert(value::entries(kept@) =~= Seq::empty());
    while i < n
        invariant
            n == table@.len(),
            all == value::entries(table@),
            v@.table() == Some(all),
            i <= n,
            allowed_entries(all.take(i as int), allowed) == Ok::<Seq<(Node, Node)>, PatchFault>(
                value::entries(kept@),
            ),
        decreases n - i,
    {
        proof {
            assert(all.take(i + 1).drop_last() =~= all.take(i as int));
            assert(all.take(i + 1).last() == (table@[i as int].0@, table@[i as int].1@));
        }
        match table[i].0.as_str() {
            None => {
                proof {
                    lemma_allowed_prefix(all, allowed, i + 1);
                    assert(all.take(n as int) =~= all);
                }
                return Err(PatchFault::KeyNotText);
            },
            Some(key) => {
                let keep = match allowed {
                    Allowed::Tun => is_tun_field(key),
                    Allowed::Tuic => is_tuic_field(key),
                };
                if keep {
                    if let Datum::Text(_) = &table[i].0 {
                        insert(&mut kept, key, table[i].1.copy());
                    } else {
                        let ghost before = kept@;
                        kept.push((table[i].0.copy(), table[i].1.copy()));
                        assert(value::entries(kept@) =~= value::entries(before).push(
                            all[i as int],
                        ));
                    }
                }
            },
        }
        i += 1;
    }
    assert(all.take(n as int) =~= all);
    proof {
        Datum::lemma_table(kept);
    }
    Ok(Datum::Table(kept))
}

proof fn lemma_allowed_prefix(table: Seq<(Node, Node)>, allowed: Allowed, k: int)
    requires
        0 <= k <= table.len(),
        allowed_entries(table.take(k), allowed) is Err,
    ensures
        allowed_entries(table, allowed) == allowed_entries(table.take(k), allowed),
    decreases table.len() - k,
{
    if k == table.len() {
        assert(table.take(k) =~= table);
    } else {
        assert(table.take(k + 1).drop_last() =~= table.take(k));
        lemma_allowed_prefix(table, allowed, k + 1);
    }
}

proof fn lemma_told_prefix(desired: Seq<(Node, Node)>, rs: Seq<Seq<char>>, k: int)
    requires
        0 <= k <= rs.len(),
        told_all(desired, rs.take(k)) is Err,
    ensures
        told_all(desired, rs) == told_all(desired, rs.take(k)),
    decreases rs.len() - k,
{
    if k == rs.len() {
        assert(rs.take(k) =~= rs);
    } else {
        assert(rs.take(k + 1).drop_last() =~= rs.take(k));
        lemma_told_prefix(desired, rs, k + 1);
    }
}

fn tell(desired: &Vec<(Datum, Datum)>, rs: &Vec<String>) -> (r: Result<
    Vec<(Datum, Datum)>,
    PatchFault,
>)
    ensures
        match told_all(value::entries(desired@), text::strings(rs@)) {
            Ok(table) => r matches Ok(document) && value::entries(document@) == table,
            Err(fault) => r == Err::<Vec<(Datum, Datum)>, PatchFault>(fault),
        },
{
    let ghost all = text::strings(rs@);
    let ghost des = value::entries(desired@);
    let n: usize = rs.len();
    let mut document: Vec<(Datum, Datum)> = Vec::new();
    let mut i: usize = 0;
    assert(all.take(0) =~= Seq::empty());
    assert(value::entries(document@) =~= Seq::empty());
    while i < n
        invariant
            n == rs@.len(),
            all == text::strings(rs@),
            des == value::entries(desired@),
            i <= n,
            told_all(des, all.take(i as int)) == Ok::<Seq<(Node, Node)>, PatchFault>(
                value::entries(document@),
            ),
        decreases n - i,
    {
        proof {
            assert(all.take(i + 1).drop_last() =~= all.take(i as int));
            assert(all.take(i + 1).last() == rs@[i as int]@);
        }
        let root = rs[i].as_str();
        let found = match get(desired, root) {
            None => Err(PatchFault::Missing),
            Some(v) => {
                if str_eq(root, "tun") {
                    filter_mapping(v, Allowed::Tun)
                } else if str_eq(root, "tuic-server") {
                    filter_mapping(v, Allowed::Tuic)
                } else {
                    Ok(v.copy())
                }
            },
        };
        match found {
            Ok(d) => insert(&mut document, root, d),
            Err(fault) => {
                proof {
                    lemma_told_prefix(des, all, i + 1);
                }
                return Err(fault);
            },
        }
        i += 1;
    }
    assert(all.take(n as int) =~= all);
    Ok(document)
}

/// A field that is told, if it is told at all, says whether it is on.
pub open spec fn says_enable(document: Seq<(Node, Node)>, key: Seq<char>) -> bool {
    match value::lookup(document, key) {
        None => true,
        Some(node) => match node.table() {
            Some(table) => value::lookup(table, "enable"@) matches Some(flag) && flag.flag() is Some,
            None => false,
        },
    }
}

fn check_enable(document: &Vec<(Datum, Datum)>, key: &str) -> (r: bool)
    ensures
        r == says_enable(value::entries(document@), key@),
{
    match get(document, key) {
        None => true,
        Some(v) => match v.as_table() {
            Some(table) => match get(table, "enable") {
                Some(flag) => flag.as_bool().is_some(),
                None => false,
            },
            None => false,
        },
    }
}

/// What is made of changes that a running core can be told of.
pub open spec fn patch_outcome(
    desired: Seq<(Node, Node)>,
    changes: Seq<tree::DiffView>,
    r: Result<ConfigChange, Error>,
) -> bool {
    match told_all(desired, roots(changes)) {
        Err(PatchFault::Missing) => r matches Ok(c) && c is Switch,
        Err(PatchFault::NotTable) => r matches Err(Error::InvalidConfig(m)) && m@
            == "patchable nested config must be a mapping"@,
        Err(PatchFault::KeyNotText) => r matches Err(Error::InvalidConfig(m)) && m@
            == "config keys must be strings"@,
        Ok(table) => if says_enable(table, "tun"@) && says_enable(table, "tuic-server"@) {
            r matches Ok(ConfigChange::Patch { document }) && value::entries(document@) == table
        } else {
            r matches Ok(c) && c is Switch
        },
    }
}

fn build_patch(desired: &Vec<(Datum, Datum)>, changes: &Vec<DiffEntry>) -> (r: Result<
    ConfigChange,
    Error,
>)
    ensures
        patch_outcome(value::entries(desired@), tree::diff_views(changes@), r),
{
    let rs = collect_roots(changes);
    match tell(desired, &rs) {
        Err(PatchFault::Missing) => Ok(ConfigChange::Switch),
        Err(PatchFault::NotTable) => Err(
            Error::InvalidConfig("patchable nested config must be a mapping".to_owned()),
        ),
        Err(PatchFault::KeyNotText) => Err(
            Error::InvalidConfig("config keys must be strings".to_owned()),
        ),
        Ok(document) => {
            if check_enable(&document, "tun") && check_enable(&document, "tuic-server") {
                Ok(ConfigChange::Patch { document })
            } else {
                Ok(ConfigChange::Switch)
            }
        },
    }
}

// ---------------------------------------------------------------------------
// Classification
// ---------------------------------------------------------------------------

/// What it takes to bring a core from one document to another. Nothing is done in
/// place but what is known to be safe.
pub open spec fn documents_outcome(
    current: Seq<(Node, Node)>,
    desired: Seq<(Node, Node)>,
    r: Result<ConfigChange, Error>,
) -> bool {
    let changes = tree::table_diff(current, desired);
    if !value::both_alike(dns_listen(current), dns_listen(desired)) {
        r matches Ok(c) && c is Switch
    } else if changes.len() == 0 {
        r matches Ok(c) && c is Noop
    } else if all_patchable(changes) {
        patch_outcome(desired, changes, r)
    } else if all_reloadable(changes) {
        r matches Ok(c) && c is Reload
    } else {
        r matches Ok(c) && c is Switch
    }
}

fn same_listen(current: &Vec<(Datum, Datum)>, desired: &Vec<(Datum, Datum)>) -> (r: bool)
    ensures
        r == value::both_alike(
            dns_listen(value::entries(current@)),
            dns_listen(value::entries(desired@)),
        ),
{
    match (find_dns_listen(current), find_dns_listen(desired)) {
        (Some(a), Some(b)) => a.same(b),
        (None, None) => true,
        _ => false,
    }
}

pub fn classify_documents(current: &Vec<(Datum, Datum)>, desired: &Vec<(Datum, Datum)>) -> (r:
    Result<ConfigChange, Error>)
    ensures
        documents_outcome(value::entries(current@), value::entries(desired@), r),
{
    if !same_listen(current, desired) {
        return Ok(ConfigChange::Switch);
    }
    let changes = diff(current, desired);
    assert(tree::diff_views(changes@).len() == changes@.len());
    if changes.len() == 0 {
        return Ok(ConfigChange::Noop);
    }
    if check_patchable(&changes) {
        return build_patch(desired, &changes);
    }
    if check_reloadable(&changes) {
        Ok(ConfigChange::Reload)
    } else {
        Ok(ConfigChange::Switch)
    }
}

/// A core is launched differently, where `same_core` and `same_dir` say whether it is
/// the same one and works in the same directory.
pub open spec fn launch_differs(
    current: InstanceSpec,
    desired: InstanceSpec,
    same_core: bool,
    same_dir: bool,
) -> bool {
    !same_core || !same_dir || current.options != desired.options
}

/// What is known of whether a core is launched differently.
pub open spec fn spec_changed(current: InstanceSpec, desired: InstanceSpec, changed: bool) -> bool {
    exists|same_core: bool, same_dir: bool|
        #[trigger] launch_differs(current, desired, same_core, same_dir) == changed
            && spec::cores_sameness(current.core, desired.core, same_core) && path::sameness(
            current.working_dir@,
            desired.working_dir@,
            same_dir,
        )
}

fn process_spec_changed(current: &InstanceSpec, desired: &InstanceSpec) -> (r: bool)
    ensures
        spec_changed(*current, *desired, r),
{
    let same_core = current.core.same(&desired.core);
    let same_dir = same_path(current.working_dir.as_str(), desired.working_dir.as_str());
    let changed = !same_core || !same_dir || current.options != desired.options;
    assert(launch_differs(*current, *desired, same_core, same_dir) == changed);
    changed
}

/// What it takes to bring a core of a family to another configuration, where `changed`
/// says whether it is launched differently.
pub open spec fn change_given(
    changed: bool,
    kind: ClashCoreKind,
    current_source: Seq<(Node, Node)>,
    current_effective: Seq<(Node, Node)>,
    desired_source: Seq<(Node, Node)>,
    desired_effective: Seq<(Node, Node)>,
    r: Result<ConfigChange, Error>,
) -> bool {
    let source_changes = tree::table_diff(current_source, desired_source);
    if changed {
        r matches Ok(c) && c is Switch
    } else if !(kind is Mihomo) {
        if source_changes.len() == 0 && tree::table_diff(
            current_effective,
            desired_effective,
        ).len() == 0 {
            r matches Ok(c) && c is Noop
        } else {
            r matches Ok(c) && c is Switch
        }
    } else if some_binding(source_changes) {
        r matches Ok(c) && c is Switch
    } else {
        documents_outcome(current_effective, desired_effective, r)
    }
}

/// What it takes to bring a core to another configuration.
pub open spec fn change_outcome(
    current_source: Seq<(Node, Node)>,
    current_effective: Seq<(Node, Node)>,
    current_spec: InstanceSpec,
    desired_source: Seq<(Node, Node)>,
    desired_effective: Seq<(Node, Node)>,
    desired_spec: InstanceSpec,
    r: Result<ConfigChange, Error>,
) -> bool {
    exists|changed: bool|
        #[trigger] spec_changed(current_spec, desired_spec, changed) && change_given(
            changed,
            desired_spec.core.kind,
            current_source,
            current_effective,
            desired_source,
            desired_effective,
            r,
        )
}

/// What a change comes to, given whether the core is launched differently.
pub fn classify_given(
    changed: bool,
    kind: ClashCoreKind,
    current_source: &Vec<(Datum, Datum)>,
    current_effective: &Vec<(Datum, Datum)>,
    desired_source: &Vec<(Datum, Datum)>,
    desired_effective: &Vec<(Datum, Datum)>,
) -> (r: Result<ConfigChange, Error>)
    ensures
        change_given(
            changed,
            kind,
            value::entries(current_source@),
            value::entries(current_effective@),
            value::entries(desired_source@),
            value::entries(desired_effective@),
            r,
        ),
{
    if changed {
        return Ok(ConfigChange::Switch);
    }
    let source_diff = diff(current_source, desired_source);
    assert(tree::diff_views(source_diff@).len() == source_diff@.len());
    if kind != ClashCoreKind::Mihomo {
        let effective_diff = diff(current_effective, desired_effective);
        assert(tree::diff_views(effective_diff@).len() == effective_diff@.len());
        if source_diff.len() == 0 && effective_diff.len() == 0 {
            return Ok(ConfigChange::Noop);
        }
        return Ok(ConfigChange::Switch);
    }
    if check_binding(&source_diff) {
        return Ok(ConfigChange::Switch);
    }
    classify_documents(current_effective, desired_effective)
}

pub fn classify(
    current_source: &Vec<(Datum, Datum)>,
    current_effective: &Vec<(Datum, Datum)>,
    current_spec: &InstanceSpec,
    desired_source: &Vec<(Datum, Datum)>,
    desired_effective: &Vec<(Datum, Datum)>,
    desired_spec: &InstanceSpec,
) -> (r: Result<ConfigChange, Error>)
    ensures
        change_outcome(
            value::entries(current_source@),
            value::entries(current_effective@),
            *current_spec,
            value::entries(desired_source@),
            value::entries(desired_effective@),
            *desired_spec,
            r,
        ),
{
    let changed = process_spec_changed(current_spec, desired_spec);
    classify_given(
        changed,
        desired_spec.core.kind,
        current_source,
        current_effective,
        desired_source,
        desired_effective,
    )
}

/// What a core that took in nothing is told to become the desired one.
pub open spec fn restoration_outcome(
    bootstrap: Seq<(Node, Node)>,
    desired: Seq<(Node, Node)>,
    change: Result<ConfigChange, Error>,
    r: Result<Option<Vec<(Datum, Datum)>>, Error>,
) -> bool {
    &&& documents_outcome(bootstrap, desired, change)
    &&& match change {
        Ok(ConfigChange::Noop) => r matches Ok(None),
        Ok(ConfigChange::Patch { document }) => r matches Ok(Some(d)) && d == document,
        Ok(_) => r matches Err(Error::InvalidConfig(m)) && m@
            == "graceful bootstrap cannot be restored losslessly with ConfigPatch"@,
        Err(e) => r == Err::<Option<Vec<(Datum, Datum)>>, Error>(e),
    }
}

pub fn restoration_patch(bootstrap: &Vec<(Datum, Datum)>, desired: &Vec<(Datum, Datum)>) -> (r:
    Result<Option<Vec<(Datum, Datum)>>, Error>)
    ensures
        exists|change: Result<ConfigChange, Error>|
            #[trigger] restoration_outcome(
                value::entries(bootstrap@),
                value::entries(desired@),
                change,
                r,
            ),
{
    let change = classify_documents(bootstrap, desired);
    let ghost seen = change;
    let r = match change {
        Ok(ConfigChange::Noop) => Ok(None),
        Ok(ConfigChange::Patch { document }) => Ok(Some(document)),
        Ok(_) => Err(
            Error::InvalidConfig(
                "graceful bootstrap cannot be restored losslessly with ConfigPatch".to_owned(),
            ),
        ),
        Err(e) => Err(e),
    };
    assert(restoration_outcome(value::entries(bootstrap@), value::entries(desired@), seen, r));
    r
}

// ---------------------------------------------------------------------------
// Whether two cores can run side by side
// ---------------------------------------------------------------------------

/// What keeps a core from running beside another one.
#[derive(Debug, Clone, Copy, PartialEq, Eq, Structural)]
pub enum OverlapBlock {
    DnsListen,
    InboundSurface,
}

/// The value under a key is there and is not of the given kind.
pub open spec fn odd_port(table: Seq<(Node, Node)>, key: Seq<char>) -> bool {
    value::lookup(table, key) matches Some(node) && node.int64() is None
}

fn check_odd_port(document: &Vec<(Datum, Datum)>, key: &str) -> (r: bool)
    ensures
        r == odd_port(value::entries(document@), key@),
{
    match get(document, key) {
        Some(v) => v.as_i64().is_none(),
        None => false,
    }
}

pub open spec fn odd_tun(table: Seq<(Node, Node)>) -> bool {
    match value::lookup(table, "tun"@) {
        None => false,
        Some(node) => match node.table() {
            Some(tun) => value::lookup(tun, "enable"@) matches Some(flag) && flag.flag() is None,
            None => true,
        },
    }
}

fn check_odd_tun(document: &Vec<(Datum, Datum)>) -> (r: bool)
    ensures
        r == odd_tun(value::entries(document@)),
{
    match get(document, "tun") {
        None => false,
        Some(v) => match v.as_table() {
            Some(tun) => match get(tun, "enable") {
                Some(flag) => flag.as_bool().is_none(),
                None => false,
            },
            None => true,
        },
    }
}

/// A `tuic-server` that is not surely off.
pub open spec fn open_tuic(table: Seq<(Node, Node)>) -> bool {
    match value::lookup(table, "tuic-server"@) {
        None => false,
        Some(node) => match node.table() {
            Some(tuic) => match value::lookup(tuic, "enable"@) {
                Some(flag) => flag.flag() != Some(false),
                None => tuic.len() > 0,
            },
            None => true,
        },
    }
}

fn check_open_tuic(document: &Vec<(Datum, Datum)>) -> (r: bool)
    ensures
        r == open_tuic(value::entries(document@)),
{
    match get(document, "tuic-server") {
        None => false,
        Some(v) => match v.as_table() {
            Some(tuic) => match get(tuic, "enable") {
                Some(flag) => match flag.as_bool() {
                    Some(on) => on,
                    None => true,
                },
                None => tuic.len() > 0,
            },
            None => true,
        },
    }
}

/// A listener that is given as a text, other than the empty one.
pub open spec fn open_text(table: Seq<(Node, Node)>, key: Seq<char>) -> bool {
    value::lookup(table, key) matches Some(node) && !(node.text() matches Some(s) && s.len() == 0)
}

fn check_open_text(document: &Vec<(Datum, Datum)>, key: &str) -> (r: bool)
    ensures
        r == open_text(value::entries(document@), key@),
{
    match get(document, key) {
        Some(v) => match v.as_str() {
            Some(s) => !s.is_empty(),
            None => true,
        },
        None => false,
    }
}

/// Something that is not empty.
pub open spec fn nonempty(node: Node) -> bool {
    match node {
        Node::Null => false,
        Node::Text(s) => s.len() > 0,
        Node::List(items) => items.len() > 0,
        Node::Table(table) => table.len() > 0,
        _ => true,
    }
}

pub fn nonempty_collection(v: &Datum) -> (r: bool)
    ensures
        r == nonempty(v@),
{
    match v {
        Datum::Null => false,
        Datum::Text(s) => !s.as_str().is_empty(),
        Datum::List(items) => {
            proof {
                Datum::lemma_list(*items);
            }
            items.len() > 0
        },
        Datum::Table(table) => {
            proof {
                Datum::lemma_table(*table);
            }
            table.len() > 0
        },
        _ => true,
    }
}

pub open spec fn open_list(table: Seq<(Node, Node)>, key: Seq<char>) -> bool {
    value::lookup(table, key) matches Some(node) && nonempty(node)
}

fn check_open_list(document: &Vec<(Datum, Datum)>, key: &str) -> (r: bool)
    ensures
        r == open_list(value::entries(document@), key@),
{
    match get(document, key) {
        Some(v) => nonempty_collection(v),
        None => false,
    }
}

/// A field that sounds as if it took something in, and is not known.
pub open spec fn suspicious(key: Seq<char>) -> bool {
    &&& text::has_suffix(key, "-port"@) || text::contains_sub(key, "listener"@)
        || text::contains_sub(key, "inbound"@) || text::contains_sub(key, "tunnel"@)
    &&& !patch_field(key)
    &&& key != "listeners"@
    &&& key != "tunnels"@
}

fn is_suspicious(key: &str) -> (r: bool)
    ensures
        r == suspicious(key@),
{
    (ends_with(key, "-port") || contains(key, "listener") || contains(key, "inbound") || contains(
        key,
        "tunnel",
    )) && !is_patch_field(key) && !str_eq(key, "listeners") && !str_eq(key, "tunnels")
}

pub open spec fn has_suspicious(table: Seq<(Node, Node)>) -> bool {
    exists|i: int|
        0 <= i < table.len() && ((#[trigger] table[i]).0.text() matches Some(key) && suspicious(key))
}

fn check_suspicious(document: &Vec<(Datum, Datum)>) -> (r: bool)
    ensures
        r == has_suspicious(value::entries(document@)),
{
    let ghost all = value::entries(document@);
    let n: usize = document.len();
    let mut i: usize = 0;
    while i < n
        invariant
            n == document@.len(),
            all == value::entries(document@),
            i <= n,
            forall|j: int|
                0 <= j < i ==> !((#[trigger] all[j]).0.text() matches Some(key) && suspicious(key)),
        decreases n - i,
    {
        assert(all[i as int].0 == document@[i as int].0@);
        if let Some(key) = document[i].0.as_str() {
            if is_suspicious(key) {
                return true;
            }
        }
        i += 1;
    }
    false
}

/// A document that takes something in by other means than the ports that can be
/// closed and the device that can be turned off.
pub open spec fn takes_in(table: Seq<(Node, Node)>) -> bool {
    ||| odd_port(table, "port"@)
    ||| odd_port(table, "socks-port"@)
    ||| odd_port(table, "redir-port"@)
    ||| odd_port(table, "tproxy-port"@)
    ||| odd_port(table, "mixed-port"@)
    ||| odd_tun(table)
    ||| open_tuic(table)
    ||| open_text(table, "ss-config"@)
    ||| open_text(table, "vmess-config"@)
    ||| open_text(table, "tcptun-config"@)
    ||| open_text(table, "udptun-config"@)
    ||| open_list(table, "listeners"@)
    ||| open_list(table, "tunnels"@)
    ||| has_suspicious(table)
}

/// What keeps a core of this document from running beside another one.
pub open spec fn block(table: Seq<(Node, Node)>) -> Option<OverlapBlock> {
    match dns_listen(table) {
        Some(listen) => match listen.text() {
            Some(s) => if s.len() == 0 {
                None
            } else {
                Some(OverlapBlock::DnsListen)
            },
            None => if listen.untagged() is Null {
                None
            } else {
                Some(OverlapBlock::InboundSurface)
            },
        },
        None => if takes_in(table) {
            Some(OverlapBlock::InboundSurface)
        } else {
            None
        },
    }
}

pub fn overlap_block(document: &Vec<(Datum, Datum)>) -> (r: Option<OverlapBlock>)
    ensures
        r == block(value::entries(document@)),
{
    if let Some(listen) = find_dns_listen(document) {
        return match listen.as_str() {
            Some(s) => if s.is_empty() {
                None
            } else {
                Some(OverlapBlock::DnsListen)
            },
            None => if listen.is_null() {
                None
            } else {
                Some(OverlapBlock::InboundSurface)
            },
        };
    }
    if check_odd_port(document, "port") || check_odd_port(document, "socks-port")
        || check_odd_port(document, "redir-port") || check_odd_port(document, "tproxy-port")
        || check_odd_port(document, "mixed-port") || check_odd_tun(document) || check_open_tuic(
        document,
    ) || check_open_text(document, "ss-config") || check_open_text(document, "vmess-config")
        || check_open_text(document, "tcptun-config") || check_open_text(
        document,
        "udptun-config",
    ) || check_open_list(document, "listeners") || check_open_list(document, "tunnels")
        || check_suspicious(document) {
        Some(OverlapBlock::InboundSurface)
    } else {
        None
    }
}

// ---------------------------------------------------------------------------
// Laws
// ---------------------------------------------------------------------------

/// Nothing is done exactly when the documents say the same.
pub proof fn law_noop_means_unchanged(
    current: Seq<(Node, Node)>,
    desired: Seq<(Node, Node)>,
    r: Result<ConfigChange, Error>,
)
    requires
        value::is_canonical(Node::Table(current)),
        value::is_canonical(Node::Table(desired)),
        documents_outcome(current, desired, r),
    ensures
        (r matches Ok(c) && c is Noop) <==> value::alike(
            Node::Table(current),
            Node::Table(desired),
        ),
{
    tree::law_no_difference_means_alike(current, desired);
    if value::alike(Node::Table(current), Node::Table(desired)) {
        tree::law_alike_under_a_key(current, desired, "dns"@);
        value::lemma_key_index_bounds(current, "dns"@);
        value::lemma_key_index_bounds(desired, "dns"@);
        if let (Some(x), Some(y)) = (
            value::lookup(current, "dns"@),
            value::lookup(desired, "dns"@),
        ) {
            assert(x == current[value::key_index(current, "dns"@)].1);
            assert(y == desired[value::key_index(desired, "dns"@)].1);
            assert(value::is_canonical(x) && value::is_canonical(y));
            assert(x.untagged() == x && y.untagged() == y);
            assert(value::alike(x, y));
            if let (Node::Table(a), Node::Table(b)) = (x, y) {
                tree::law_alike_under_a_key(a, b, "listen"@);
            } else {
                assert(x.table() is None && y.table() is None);
            }
        }
        assert(value::both_alike(dns_listen(current), dns_listen(desired)));
    }
}

/// A running core is changed in place only where every difference lies in a field
/// that is known to be safe; a difference anywhere else takes a new process.
pub proof fn law_deny_by_default(
    current: Seq<(Node, Node)>,
    desired: Seq<(Node, Node)>,
    r: Result<ConfigChange, Error>,
    i: int,
)
    requires
        documents_outcome(current, desired, r),
        0 <= i < tree::table_diff(current, desired).len(),
    ensures
        r matches Ok(ConfigChange::Patch { .. }) ==> patchable(
            tree::table_diff(current, desired)[i],
        ),
        r matches Ok(ConfigChange::Reload) ==> reloadable(tree::table_diff(current, desired)[i]),
        !patchable(tree::table_diff(current, desired)[i]) && !reloadable(
            tree::table_diff(current, desired)[i],
        ) ==> (r matches Ok(c) && c is Switch),
{
}

/// A core is never changed in place where its controller or its DNS listener
/// changed in the source, nor where it is launched differently, nor where it is
/// of another family.
pub proof fn law_bound_changes_switch(
    current_source: Seq<(Node, Node)>,
    current_effective: Seq<(Node, Node)>,
    current_spec: InstanceSpec,
    desired_source: Seq<(Node, Node)>,
    desired_effective: Seq<(Node, Node)>,
    desired_spec: InstanceSpec,
    r: Result<ConfigChange, Error>,
)
    requires
        change_outcome(
            current_source,
            current_effective,
            current_spec,
            desired_source,
            desired_effective,
            desired_spec,
            r,
        ),
        !spec_changed(current_spec, desired_spec, false) || (desired_spec.core.kind is Mihomo
            && some_binding(tree::table_diff(current_source, desired_source))),
    ensures
        r matches Ok(c) && c is Switch,
{
}

/// Nothing comes in under this key.
pub open spec fn port_shut(table: Seq<(Node, Node)>, key: Seq<char>) -> bool {
    value::lookup(table, key) matches Some(node) ==> (node.int64() matches Some(port) ==> port == 0)
}

proof fn lemma_port_closed(table: Seq<(Node, Node)>, key: Seq<char>, k: Seq<char>)
    ensures
        value::lookup(port_closed(table, key), k) == value::lookup(table, k) || (k == key
            && value::lookup(port_closed(table, key), k) == Some(Node::Int(0))),
        port_shut(port_closed(table, key), key),
        port_shut(table, k) ==> port_shut(port_closed(table, key), k),
{
    value::lemma_lookup_inserted(table, key, Node::Int(0), k);
    value::lemma_lookup_inserted(table, key, Node::Int(0), key);
}

proof fn lemma_tun_off(table: Seq<(Node, Node)>, k: Seq<char>)
    ensures
        k != "tun"@ ==> value::lookup(tun_off(table), k) == value::lookup(table, k),
        port_shut(table, k) ==> port_shut(tun_off(table), k),
{
    if let Some(node) = value::lookup(table, "tun"@) {
        if let Some(tun) = node.table() {
            let off = value::inserted(tun, "enable"@, Node::Bool(false));
            node.lemma_with_table(off);
            value::lemma_lookup_inserted(table, "tun"@, node.with_table(off), k);
        }
    }
}

/// The document of a core that runs beside another one opens no port and turns no
/// device on.
pub proof fn law_bootstrap_takes_in_nothing(table: Seq<(Node, Node)>)
    ensures
        port_shut(zeroed(table), "port"@),
        port_shut(zeroed(table), "socks-port"@),
        port_shut(zeroed(table), "redir-port"@),
        port_shut(zeroed(table), "tproxy-port"@),
        port_shut(zeroed(table), "mixed-port"@),
        value::lookup(zeroed(table), "tun"@) matches Some(node) ==> (node.table() matches Some(tun)
            ==> !switched_on(tun)),
{
    let a = port_closed(table, "port"@);
    let b = port_closed(a, "socks-port"@);
    let c = port_closed(b, "redir-port"@);
    let d = port_closed(c, "tproxy-port"@);
    let e = port_closed(d, "mixed-port"@);
    lemma_port_closed(table, "port"@, "port"@);
    lemma_port_closed(a, "socks-port"@, "port"@);
    lemma_port_closed(b, "redir-port"@, "port"@);
    lemma_port_closed(b, "redir-port"@, "socks-port"@);
    lemma_port_closed(c, "tproxy-port"@, "port"@);
    lemma_port_closed(c, "tproxy-port"@, "socks-port"@);
    lemma_port_closed(c, "tproxy-port"@, "redir-port"@);
    lemma_port_closed(d, "mixed-port"@, "port"@);
    lemma_port_closed(d, "mixed-port"@, "socks-port"@);
    lemma_port_closed(d, "mixed-port"@, "redir-port"@);
    lemma_port_closed(d, "mixed-port"@, "tproxy-port"@);
    lemma_tun_off(e, "port"@);
    lemma_tun_off(e, "socks-port"@);
    lemma_tun_off(e, "redir-port"@);
    lemma_tun_off(e, "tproxy-port"@);
    lemma_tun_off(e, "mixed-port"@);
    if let Some(node) = value::lookup(e, "tun"@) {
        if let Some(tun) = node.table() {
            let off = value::inserted(tun, "enable"@, Node::Bool(false));
            node.lemma_with_table(off);
            value::lemma_lookup_inserted(e, "tun"@, node.with_table(off), "tun"@);
            value::lemma_lookup_inserted(tun, "enable"@, Node::Bool(false), "enable"@);
        }
    }
}

/// Every field that a running core can be told of one by one has its place in a
/// change, and in what the core shows.
pub proof fn law_patchable_fields_are_carried(
    key: Seq<char>,
    patch: ConfigPatch,
    actual: RuntimeConfig,
)
    requires
        patch.complete(),
    ensures
        value::holds_key(patch.tree(), key) <==> patch_field(key),
        patch_field(key) ==> value::holds_key(actual.tree(), key),
{
    broadcast use fields::group_keys;

    reveal(fields::maybe_text);
    reveal(fields::maybe_flag);
    reveal(fields::maybe_int);
    reveal(fields::maybe_uint);
    reveal(fields::maybe_texts);
    reveal(fields::maybe_uints);
    reveal(fields::maybe_ints);
    reveal(fields::maybe_pairs);
    reveal(patch_field);
    reveal(api::maybe_tun_patch);
    reveal(api::maybe_tuic_patch);
}

/// Every part of `tun` that a running core can be told of has its place in a change,
/// and in what the core shows.
#[verifier::spinoff_prover]
#[verifier::rlimit(60)]
pub proof fn law_patchable_parts_of_tun_are_carried(
    key: Seq<char>,
    patch: TunPatch,
    actual: RuntimeTun,
)
    requires
        patch.complete(),
    ensures
        value::holds_key(patch.tree(), key) <==> tun_field(key),
        tun_field(key) ==> value::holds_key(actual.tree(), key),
{
    broadcast use fields::group_keys;

    reveal(fields::maybe_text);
    reveal(fields::maybe_flag);
    reveal(fields::maybe_int);
    reveal(fields::maybe_uint);
    reveal(fields::maybe_texts);
    reveal(fields::maybe_uints);
    reveal(fields::maybe_ints);
    reveal(fields::maybe_pairs);
    reveal(tun_field);
}

/// Every part of `tuic-server` that a running core can be told of has its place in a
/// change, and in what the core shows.
pub proof fn law_patchable_parts_of_tuic_are_carried(
    key: Seq<char>,
    patch: TuicServerPatch,
    actual: RuntimeTuicServer,
)
    requires
        patch.complete(),
    ensures
        value::holds_key(patch.tree(), key) <==> tuic_field(key),
        tuic_field(key) ==> value::holds_key(actual.tree(), key),
{
    broadcast use fields::group_keys;

    reveal(fields::maybe_text);
    reveal(fields::maybe_flag);
    reveal(fields::maybe_int);
    reveal(fields::maybe_uint);
    reveal(fields::maybe_texts);
    reveal(fields::maybe_uints);
    reveal(fields::maybe_ints);
    reveal(fields::maybe_pairs);
    reveal(tuic_field);
}

// ---------------------------------------------------------------------------
// Laws of what a running core is told
// ---------------------------------------------------------------------------

proof fn lemma_allowed(table: Seq<(Node, Node)>, allowed: Allowed, key: Seq<char>)
    requires
        forall|i: int| 0 <= i < table.len() ==> (#[trigger] table[i]).0 is Text,
        value::distinct_keys(table),
    ensures
        allowed_entries(table, allowed) matches Ok(kept) && value::lookup(kept, key) == (if allows(
            allowed,
            key,
        ) {
            value::lookup(table, key)
        } else {
            None
        }),
    decreases table.len(),
{
    if table.len() == 0 {
    } else {
        let rest = table.drop_last();
        let n = table.len() - 1;
        let last = table[n].0->Text_0;
        assert(table[n] == table.last());
        assert forall|i: int| 0 <= i < rest.len() implies (#[trigger] rest[i]).0 is Text by {
            assert(rest[i] == table[i]);
        }
        assert forall|i: int, j: int| 0 <= i < j < rest.len() implies (#[trigger] rest[i]).0 != (
        #[trigger] rest[j]).0 by {
            assert(rest[i] == table[i] && rest[j] == table[j]);
        }
        lemma_allowed(rest, allowed, key);
        let kept = allowed_entries(rest, allowed)->Ok_0;
        value::lemma_lookup_inserted(kept, last, table[n].1, key);
        value::lemma_key_index_bounds(rest, key);
        let r = value::key_index(rest, key);
        assert forall|j: int| 0 <= j < r implies (#[trigger] table[j]).0 != Node::Text(key) by {
            assert(rest[j] == table[j]);
        }
        if r < rest.len() {
            assert(rest[r] == table[r]);
            assert(table[r].0 != table[n].0);
            value::lemma_key_index(table, key, r);
        } else if last == key {
            value::lemma_key_index(table, key, n);
        } else {
            assert(table[n].0 != Node::Text(key));
            value::lemma_key_index(table, key, n + 1);
        }
    }
}

proof fn lemma_told_all(desired: Seq<(Node, Node)>, rs: Seq<Seq<char>>, key: Seq<char>)
    requires
        told_all(desired, rs) is Ok,
    ensures
        rs.contains(key) ==> (value::lookup(desired, key) matches Some(node) && told(key, node)
            is Ok && value::lookup(told_all(desired, rs)->Ok_0, key) == Some(
            told(key, node)->Ok_0,
        )),
        !rs.contains(key) ==> value::lookup(told_all(desired, rs)->Ok_0, key) is None,
    decreases rs.len(),
{
    if rs.len() > 0 {
        let init = rs.drop_last();
        lemma_told_all(desired, init, key);
        let before = told_all(desired, init)->Ok_0;
        let node = value::lookup(desired, rs.last())->0;
        value::lemma_lookup_inserted(before, rs.last(), told(rs.last(), node)->Ok_0, key);
        assert(rs[rs.len() - 1] == rs.last());
        if rs.contains(key) && key != rs.last() {
            let i = choose|i: int| 0 <= i < rs.len() && rs[i] == key;
            assert(init[i] == key);
        }
        if init.contains(key) {
            let i = choose|i: int| 0 <= i < init.len() && init[i] == key;
            assert(rs[i] == key);
        }
    }
}

proof fn lemma_root_slot_bounds(rs: Seq<Seq<char>>, k: Seq<char>)
    ensures
        0 <= root_slot(rs, k) <= rs.len(),
    decreases rs.len(),
{
    if rs.len() > 0 {
        lemma_root_slot_bounds(rs.drop_first(), k);
    }
}

proof fn lemma_roots(changes: Seq<tree::DiffView>, key: Seq<char>)
    ensures
        roots(changes).contains(key) <==> exists|i: int|
            0 <= i < changes.len() && (#[trigger] changes[i]).path.len() > 0 && changes[i].path[0]
                == key,
    decreases changes.len(),
{
    if changes.len() > 0 {
        let init = changes.drop_last();
        lemma_roots(init, key);
        let before = roots(init);
        let e = changes.last();
        let after = roots(changes);
        assert(changes[changes.len() - 1] == e);
        if e.path.len() > 0 {
            let k = e.path[0];
            lemma_root_slot_bounds(before, k);
            let at = root_slot(before, k);
            if !(at < before.len() && before[at] == k) {
                assert(after == before.insert(at, k));
                assert(after[at] == k);
                if before.contains(key) {
                    let i = choose|i: int| 0 <= i < before.len() && before[i] == key;
                    assert(after[if i < at { i } else { i + 1 }] == key);
                }
                if after.contains(key) && key != k {
                    let i = choose|i: int| 0 <= i < after.len() && after[i] == key;
                    assert(before[if i < at { i } else { i - 1 }] == key);
                }
            }
        }
        if exists|i: int|
            0 <= i < init.len() && (#[trigger] init[i]).path.len() > 0 && init[i].path[0] == key {
            let i = choose|i: int|
                0 <= i < init.len() && (#[trigger] init[i]).path.len() > 0 && init[i].path[0]
                    == key;
            assert(changes[i] == init[i]);
        }
        if exists|i: int|
            0 <= i < changes.len() && (#[trigger] changes[i]).path.len() > 0 && changes[i].path[0]
                == key {
            let i = choose|i: int|
                0 <= i < changes.len() && (#[trigger] changes[i]).path.len() > 0
                    && changes[i].path[0] == key;
            if i < init.len() {
                assert(init[i] == changes[i]);
            }
        }
    }
}

/// A running core is told of exactly the fields in which something changed; of each it
/// is told what the desired document says, of `tun` and `tuic-server` what it says of
/// the parts that can be told.
pub proof fn law_a_core_is_told_what_changed(
    current: Seq<(Node, Node)>,
    desired: Seq<(Node, Node)>,
    document: Vec<(Datum, Datum)>,
    key: Seq<char>,
)
    requires
        value::is_canonical(Node::Table(current)),
        value::is_canonical(Node::Table(desired)),
        documents_outcome(current, desired, Ok(ConfigChange::Patch { document })),
    ensures
        value::lookup(value::entries(document@), key) is Some <==> !value::both_alike(
            value::lookup(current, key),
            value::lookup(desired, key),
        ),
        key != "tun"@ && key != "tuic-server"@ && value::lookup(value::entries(document@), key)
            is Some ==> value::lookup(value::entries(document@), key) == value::lookup(
            desired,
            key,
        ),
{
    let changes = tree::table_diff(current, desired);
    let rs = roots(changes);
    lemma_told_all(desired, rs, key);
    lemma_roots(changes, key);
    tree::lemma_canonical_well_keyed(Node::Table(current));
    tree::lemma_canonical_well_keyed(Node::Table(desired));
    if !value::both_alike(value::lookup(current, key), value::lookup(desired, key)) {
        tree::law_every_changed_field_is_told(current, desired, key);
    }
    if rs.contains(key) {
        let i = choose|i: int|
            0 <= i < changes.len() && (#[trigger] changes[i]).path.len() > 0 && changes[i].path[0]
                == key;
        tree::law_differences_are_real(current, desired, i);
        let rest = changes[i].path.drop_first();
        value::lemma_key_index_bounds(current, key);
        value::lemma_key_index_bounds(desired, key);
        if value::both_alike(value::lookup(current, key), value::lookup(desired, key)) {
            if let (Some(x), Some(y)) = (
                value::lookup(current, key),
                value::lookup(desired, key),
            ) {
                assert(value::is_canonical(current[value::key_index(current, key)].1));
                assert(value::is_canonical(desired[value::key_index(desired, key)].1));
                tree::law_alike_at_every_place(x, y, rest);
            }
        }
    }
}

/// Every change that a running core is told of reaches it: at the place of each
/// difference it is told what the desired document holds there.
pub proof fn law_a_patch_carries_every_change(
    current: Seq<(Node, Node)>,
    desired: Seq<(Node, Node)>,
    document: Vec<(Datum, Datum)>,
    i: int,
)
    requires
        value::is_canonical(Node::Table(current)),
        value::is_canonical(Node::Table(desired)),
        documents_outcome(current, desired, Ok(ConfigChange::Patch { document })),
        0 <= i < tree::table_diff(current, desired).len(),
    ensures
        tree::table_diff(current, desired)[i].new is Some,
        tree::at_path(
            Node::Table(value::entries(document@)),
            tree::table_diff(current, desired)[i].path,
        ) == tree::at_path(Node::Table(desired), tree::table_diff(current, desired)[i].path),
{
    let changes = tree::table_diff(current, desired);
    let e = changes[i];
    let rs = roots(changes);
    assert(patchable(e));
    let key = e.path[0];
    lemma_roots(changes, key);
    lemma_told_all(desired, rs, key);
    let rest = e.path.drop_first();
    let node = value::lookup(desired, key)->0;
    value::lemma_key_index_bounds(desired, key);
    assert(value::is_canonical(desired[value::key_index(desired, key)].1));
    if key == "tun"@ || key == "tuic-server"@ {
        let allowed = if key == "tun"@ {
            Allowed::Tun
        } else {
            Allowed::Tuic
        };
        assert(node.untagged() == node);
        let table = node.table()->0;
        tree::lemma_canonical_well_keyed(node);
        assert(node == Node::Table(table));
        let part = e.path[1];
        lemma_allowed(table, allowed, part);
        assert(rest[0] == part);
        reveal_with_fuel(tree::at_path, 3);
    }
}

/// Every part of `tun` that a change can carry is told with the field, as the desired
/// document has it, and no other part is.
pub proof fn law_tun_is_told_in_full(
    current: Seq<(Node, Node)>,
    desired: Seq<(Node, Node)>,
    document: Vec<(Datum, Datum)>,
    table: Seq<(Node, Node)>,
    part: Seq<char>,
    carried: TunPatch,
)
    requires
        value::is_canonical(Node::Table(current)),
        value::is_canonical(Node::Table(desired)),
        documents_outcome(current, desired, Ok(ConfigChange::Patch { document })),
        value::lookup(value::entries(document@), "tun"@) is Some,
        value::lookup(desired, "tun"@) == Some(Node::Table(table)),
        carried.complete(),
    ensures
        value::lookup(value::entries(document@), "tun"@) matches Some(Node::Table(told))
            && value::lookup(told, part) == (if value::holds_key(carried.tree(), part) {
            value::lookup(table, part)
        } else {
            None
        }),
{
    let rs = roots(tree::table_diff(current, desired));
    lemma_told_all(desired, rs, "tun"@);
    value::lemma_key_index_bounds(desired, "tun"@);
    assert(value::is_canonical(desired[value::key_index(desired, "tun"@)].1));
    tree::lemma_canonical_well_keyed(Node::Table(table));
    lemma_allowed(table, Allowed::Tun, part);
    law_patchable_parts_of_tun_are_carried(part, carried, arbitrary());
}

/// Every part of `tuic-server` that a change can carry is told with the field, as the
/// desired document has it, and no other part is.
pub proof fn law_tuic_is_told_in_full(
    current: Seq<(Node, Node)>,
    desired: Seq<(Node, Node)>,
    document: Vec<(Datum, Datum)>,
    table: Seq<(Node, Node)>,
    part: Seq<char>,
    carried: TuicServerPatch,
)
    requires
        value::is_canonical(Node::Table(current)),
        value::is_canonical(Node::Table(desired)),
        documents_outcome(current, desired, Ok(ConfigChange::Patch { document })),
        value::lookup(value::entries(document@), "tuic-server"@) is Some,
        value::lookup(desired, "tuic-server"@) == Some(Node::Table(table)),
        carried.complete(),
    ensures
        value::lookup(value::entries(document@), "tuic-server"@) matches Some(Node::Table(told))
            && value::lookup(told, part) == (if value::holds_key(carried.tree(), part) {
            value::lookup(table, part)
        } else {
            None
        }),
{
    reveal_strlit("tun");
    reveal_strlit("tuic-server");
    assert("tun"@.len() != "tuic-server"@.len());
    let rs = roots(tree::table_diff(current, desired));
    lemma_told_all(desired, rs, "tuic-server"@);
    value::lemma_key_index_bounds(desired, "tuic-server"@);
    assert(value::is_canonical(desired[value::key_index(desired, "tuic-server"@)].1));
    tree::lemma_canonical_well_keyed(Node::Table(table));
    lemma_allowed(table, Allowed::Tuic, part);
    law_patchable_parts_of_tuic_are_carried(part, carried, arbitrary());
}

/// A place that a change of a configuration can carry: a whole field, or for `tun` and
/// `tuic-server` something at or below a part of it.
pub open spec fn carried_at(
    path: Seq<Seq<char>>,
    patch: ConfigPatch,
    tun: TunPatch,
    tuic: TuicServerPatch,
) -> bool {
    &&& path.len() > 0
    &&& value::holds_key(patch.tree(), path[0])
    &&& if path[0] == "tun"@ {
        path.len() > 1 && value::holds_key(tun.tree(), path[1])
    } else if path[0] == "tuic-server"@ {
        path.len() > 1 && value::holds_key(tuic.tree(), path[1])
    } else {
        path.len() == 1
    }
}

/// A place that a core takes over when it reads its file again: proxies, their groups
/// and providers, rules and their providers, hosts, and what `dns` holds but for where
/// it listens.
pub open spec fn reread_at(path: Seq<Seq<char>>) -> bool {
    &&& path.len() > 0
    &&& {
        ||| path[0] == "proxies"@
        ||| path[0] == "proxy-groups"@
        ||| path[0] == "proxy-providers"@
        ||| path[0] == "rule-providers"@
        ||| path[0] == "providers"@
        ||| path[0] == "rules"@
        ||| path[0] == "hosts"@
        ||| path[0] == "dns"@ && path.len() > 1 && path[1] != "listen"@
    }
}

/// A core is told of changes only where a change can carry each of them and takes
/// nothing away; it reads its file again only where every change is one that it takes
/// over then. Any other change takes a new core.
pub proof fn law_changes_are_made_where_they_are_safe(
    current: Seq<(Node, Node)>,
    desired: Seq<(Node, Node)>,
    r: Result<ConfigChange, Error>,
    i: int,
    patch: ConfigPatch,
    tun: TunPatch,
    tuic: TuicServerPatch,
)
    requires
        documents_outcome(current, desired, r),
        0 <= i < tree::table_diff(current, desired).len(),
        patch.complete(),
        tun.complete(),
        tuic.complete(),
    ensures
        ({
            let e = tree::table_diff(current, desired)[i];
            &&& r matches Ok(ConfigChange::Patch { .. }) ==> e.new is Some && carried_at(
                e.path,
                patch,
                tun,
                tuic,
            )
            &&& r matches Ok(ConfigChange::Reload) ==> reread_at(e.path)
            &&& !(r matches Ok(ConfigChange::Noop))
            &&& !carried_at(e.path, patch, tun, tuic) && !reread_at(e.path) ==> (r matches Ok(c)
                && c is Switch)
            &&& r is Err ==> carried_at(e.path, patch, tun, tuic)
        }),
{
    let e = tree::table_diff(current, desired)[i];
    reveal(reload_field);
    if e.path.len() > 0 {
        law_patchable_fields_are_carried(e.path[0], patch, arbitrary());
    }
    if e.path.len() > 1 {
        law_patchable_parts_of_tun_are_carried(e.path[1], tun, arbitrary());
        law_patchable_parts_of_tuic_are_carried(e.path[1], tuic, arbitrary());
    }
}

/// Where every change is in a field that can be told as a whole and is there, the core
/// is told; where every change is one that it takes over when it reads its file again,
/// it reads it. Neither takes a new core, as long as it listens where it did.
pub proof fn law_safe_changes_are_made_in_place(
    current: Seq<(Node, Node)>,
    desired: Seq<(Node, Node)>,
    r: Result<ConfigChange, Error>,
    patch: ConfigPatch,
)
    requires
        value::is_canonical(Node::Table(current)),
        value::is_canonical(Node::Table(desired)),
        documents_outcome(current, desired, r),
        value::both_alike(dns_listen(current), dns_listen(desired)),
        tree::table_diff(current, desired).len() > 0,
        patch.complete(),
    ensures
        (forall|i: int|
            0 <= i < tree::table_diff(current, desired).len() ==> {
                let e = #[trigger] tree::table_diff(current, desired)[i];
                &&& e.new is Some
                &&& e.path.len() == 1
                &&& value::holds_key(patch.tree(), e.path[0])
                &&& e.path[0] != "tun"@
                &&& e.path[0] != "tuic-server"@
            }) ==> (r matches Ok(c) && c is Patch),
        (forall|i: int|
            0 <= i < tree::table_diff(current, desired).len() ==> reread_at(
                (#[trigger] tree::table_diff(current, desired)[i]).path,
            )) ==> (r matches Ok(c) && c is Reload),
{
    let changes = tree::table_diff(current, desired);
    if forall|i: int|
        0 <= i < changes.len() ==> {
            let e = #[trigger] changes[i];
            &&& e.new is Some
            &&& e.path.len() == 1
            &&& value::holds_key(patch.tree(), e.path[0])
            &&& e.path[0] != "tun"@
            &&& e.path[0] != "tuic-server"@
        } {
        assert forall|i: int| 0 <= i < changes.len() implies patchable(#[trigger] changes[i]) by {
            law_patchable_fields_are_carried(changes[i].path[0], patch, arbitrary());
        }
        let rs = roots(changes);
        tree::lemma_canonical_well_keyed(Node::Table(current));
        tree::lemma_canonical_well_keyed(Node::Table(desired));
        assert forall|k: int| 0 <= k < rs.len() implies value::lookup(desired, #[trigger] rs[k])
            is Some && rs[k] != "tun"@ && rs[k] != "tuic-server"@ by {
            assert(rs.contains(rs[k]));
            lemma_roots(changes, rs[k]);
            let i = choose|i: int|
                0 <= i < changes.len() && (#[trigger] changes[i]).path.len() > 0
                    && changes[i].path[0] == rs[k];
            tree::law_differences_are_real(current, desired, i);
        }
        lemma_told_plain(desired, rs);
        if rs.contains("tun"@) {
            let k = choose|k: int| 0 <= k < rs.len() && rs[k] == "tun"@;
            assert(rs[k] != "tun"@);
        }
        if rs.contains("tuic-server"@) {
            let k = choose|k: int| 0 <= k < rs.len() && rs[k] == "tuic-server"@;
            assert(rs[k] != "tuic-server"@);
        }
        lemma_told_all(desired, rs, "tun"@);
        lemma_told_all(desired, rs, "tuic-server"@);
    }
    if forall|i: int|
        0 <= i < changes.len() ==> reread_at((#[trigger] changes[i]).path) {
        assert forall|i: int| 0 <= i < changes.len() implies reloadable(#[trigger] changes[i])
            && !patchable(changes[i]) by {
            lemma_reread_is_not_told(changes[i].path);
        }
        assert(!patchable(changes[0]));
    }
}

proof fn lemma_reread_is_not_told(path: Seq<Seq<char>>)
    requires
        reread_at(path),
    ensures
        reload_field(path[0]),
        !is_dns_listen(path),
        !(path[0] == "dns"@ && path.len() == 1),
        !patch_field(path[0]),
{
    reveal(reload_field);
    reveal_strlit("proxies");
    reveal_strlit("proxy-groups");
    reveal_strlit("proxy-providers");
    reveal_strlit("rule-providers");
    reveal_strlit("providers");
    reveal_strlit("rules");
    reveal_strlit("hosts");
    reveal_strlit("dns");
    reveal_strlit("listen");
    assert("proxies"@.len() == 7 && "proxy-groups"@.len() == 12 && "proxy-providers"@.len() == 15
        && "rule-providers"@.len() == 14 && "providers"@.len() == 9 && "rules"@.len() == 5
        && "hosts"@.len() == 5 && "dns"@.len() == 3);
    assert("hosts"@[0] == 'h' && "rules"@[0] == 'r' && "dns"@[0] == 'd' && "proxies"@[0] == 'p'
        && "proxy-groups"@[0] == 'p' && "proxy-providers"@[0] == 'p' && "rule-providers"@[0]
        == 'r' && "providers"@[0] == 'p');
    reveal(patch_field);
    reveal_strlit("port");
    reveal_strlit("socks-port");
    reveal_strlit("redir-port");
    reveal_strlit("tproxy-port");
    reveal_strlit("mixed-port");
    reveal_strlit("tun");
    reveal_strlit("tuic-server");
    reveal_strlit("ss-config");
    reveal_strlit("vmess-config");
    reveal_strlit("tcptun-config");
    reveal_strlit("udptun-config");
    reveal_strlit("allow-lan");
    reveal_strlit("skip-auth-prefixes");
    reveal_strlit("lan-allowed-ips");
    reveal_strlit("lan-disallowed-ips");
    reveal_strlit("bind-address");
    reveal_strlit("mode");
    reveal_strlit("log-level");
    reveal_strlit("ipv6");
    reveal_strlit("sniffing");
    reveal_strlit("tcp-concurrent");
    reveal_strlit("find-process-mode");
    reveal_strlit("interface-name");
    assert("port"@.len() == 4 && "port"@[0] == 'p' && "socks-port"@.len() == 10 && "socks-port"@[0] == 's' && "redir-port"@.len() == 10 && "redir-port"@[0] == 'r' && "tproxy-port"@.len() == 11 && "tproxy-port"@[0] == 't');
    assert("mixed-port"@.len() == 10 && "mixed-port"@[0] == 'm' && "tun"@.len() == 3 && "tun"@[0] == 't' && "tuic-server"@.len() == 11 && "tuic-server"@[0] == 't' && "ss-config"@.len() == 9 && "ss-config"@[0] == 's');
    assert("vmess-config"@.len() == 12 && "vmess-config"@[0] == 'v' && "tcptun-config"@.len() == 13 && "tcptun-config"@[0] == 't' && "udptun-config"@.len() == 13 && "udptun-config"@[0] == 'u' && "allow-lan"@.len() == 9 && "allow-lan"@[0] == 'a');
    assert("skip-auth-prefixes"@.len() == 18 && "skip-auth-prefixes"@[0] == 's' && "lan-allowed-ips"@.len() == 15 && "lan-allowed-ips"@[0] == 'l' && "lan-disallowed-ips"@.len() == 18 && "lan-disallowed-ips"@[0] == 'l' && "bind-address"@.len() == 12 && "bind-address"@[0] == 'b');
    assert("mode"@.len() == 4 && "mode"@[0] == 'm' && "log-level"@.len() == 9 && "log-level"@[0] == 'l' && "ipv6"@.len() == 4 && "ipv6"@[0] == 'i' && "sniffing"@.len() == 8 && "sniffing"@[0] == 's');
    assert("tcp-concurrent"@.len() == 14 && "tcp-concurrent"@[0] == 't' && "find-process-mode"@.len() == 17 && "find-process-mode"@[0] == 'f' && "interface-name"@.len() == 14 && "interface-name"@[0] == 'i');
}

proof fn lemma_told_plain(desired: Seq<(Node, Node)>, rs: Seq<Seq<char>>)
    requires
        forall|k: int|
            0 <= k < rs.len() ==> value::lookup(desired, #[trigger] rs[k]) is Some && rs[k]
                != "tun"@ && rs[k] != "tuic-server"@,
    ensures
        told_all(desired, rs) is Ok,
    decreases rs.len(),
{
    if rs.len() > 0 {
        let init = rs.drop_last();
        assert forall|k: int| 0 <= k < init.len() implies value::lookup(desired, #[trigger] init[k])
            is Some && init[k] != "tun"@ && init[k] != "tuic-server"@ by {
            assert(init[k] == rs[k]);
        }
        lemma_told_plain(desired, init);
        assert(rs[rs.len() - 1] == rs.last());
    }
}

/// A core that is launched with other options, of another family, version or set of
/// features, from another binary or in another directory is always a new one.
pub proof fn law_launching_differently_takes_a_new_core(
    current_source: Seq<(Node, Node)>,
    current_effective: Seq<(Node, Node)>,
    current_spec: InstanceSpec,
    desired_source: Seq<(Node, Node)>,
    desired_effective: Seq<(Node, Node)>,
    desired_spec: InstanceSpec,
    r: Result<ConfigChange, Error>,
)
    requires
        change_outcome(
            current_source,
            current_effective,
            current_spec,
            desired_source,
            desired_effective,
            desired_spec,
            r,
        ),
        current_spec.options != desired_spec.options || current_spec.core.kind
            != desired_spec.core.kind || spec::maybe_text(current_spec.core.version)
            != spec::maybe_text(desired_spec.core.version) || text::strings(
            current_spec.core.features@,
        ) != text::strings(desired_spec.core.features@) || (path::plain_path(
            current_spec.core.binary_path@,
        ) && path::plain_path(desired_spec.core.binary_path@) && current_spec.core.binary_path@
            != desired_spec.core.binary_path@) || (path::plain_path(current_spec.working_dir@)
            && path::plain_path(desired_spec.working_dir@) && current_spec.working_dir@
            != desired_spec.working_dir@),
    ensures
        r matches Ok(c) && c is Switch,
{
}

/// A core that is launched as it was, from a source that says the same, is new only
/// where its document asks for it: nothing is done where that says the same too, and a
/// family that cannot be changed in place is left alone or started anew.
pub proof fn law_same_launches_follow_their_documents(
    current_source: Seq<(Node, Node)>,
    current_effective: Seq<(Node, Node)>,
    current_spec: &InstanceSpec,
    desired_source: Seq<(Node, Node)>,
    desired_effective: Seq<(Node, Node)>,
    desired_spec: &InstanceSpec,
    r: Result<ConfigChange, Error>,
)
    requires
        value::is_canonical(Node::Table(current_source)),
        value::is_canonical(Node::Table(current_effective)),
        value::is_canonical(Node::Table(desired_source)),
        value::is_canonical(Node::Table(desired_effective)),
        change_outcome(
            current_source,
            current_effective,
            *current_spec,
            desired_source,
            desired_effective,
            *desired_spec,
            r,
        ),
    ensures
        r matches Ok(ConfigChange::Noop) ==> value::alike(
            Node::Table(current_effective),
            Node::Table(desired_effective),
        ),
        !(desired_spec.core.kind is Mihomo) ==> (r matches Ok(c) && (c is Noop || c is Switch)),
        !(desired_spec.core.kind is Mihomo) && (r matches Ok(ConfigChange::Noop)) ==> value::alike(
            Node::Table(current_source),
            Node::Table(desired_source),
        ),
        current_spec.core == desired_spec.core && current_spec.working_dir
            == desired_spec.working_dir && current_spec.options == desired_spec.options
            && value::alike(Node::Table(current_source), Node::Table(desired_source)) ==> {
            &&& value::alike(Node::Table(current_effective), Node::Table(desired_effective)) ==> (r
                matches Ok(c) && c is Noop)
            &&& desired_spec.core.kind is Mihomo ==> documents_outcome(
                current_effective,
                desired_effective,
                r,
            )
        },
{
    tree::law_no_difference_means_alike(current_source, desired_source);
    tree::law_no_difference_means_alike(current_effective, desired_effective);
    let changed = choose|changed: bool|
        #[trigger] spec_changed(*current_spec, *desired_spec, changed) && change_given(
            changed,
            desired_spec.core.kind,
            current_source,
            current_effective,
            desired_source,
            desired_effective,
            r,
        );
    if !changed && desired_spec.core.kind is Mihomo && !some_binding(
        tree::table_diff(current_source, desired_source),
    ) {
        law_noop_means_unchanged(current_effective, desired_effective, r);
    }
}

/// A source that moves the controller, changes its secret, or changes where DNS queries
/// are answered takes a new core.
pub proof fn law_moved_controllers_take_a_new_core(
    current_source: Seq<(Node, Node)>,
    current_effective: Seq<(Node, Node)>,
    current_spec: InstanceSpec,
    desired_source: Seq<(Node, Node)>,
    desired_effective: Seq<(Node, Node)>,
    desired_spec: InstanceSpec,
    r: Result<ConfigChange, Error>,
    key: Seq<char>,
)
    requires
        value::is_canonical(Node::Table(current_source)),
        value::is_canonical(Node::Table(desired_source)),
        change_outcome(
            current_source,
            current_effective,
            current_spec,
            desired_source,
            desired_effective,
            desired_spec,
            r,
        ),
        key == "external-controller"@ || key == "external-controller-pipe"@ || key
            == "external-controller-unix"@ || key == "secret"@,
        !value::both_alike(
            value::lookup(current_source, key),
            value::lookup(desired_source, key),
        ),
    ensures
        r matches Ok(c) && c is Switch,
{
    reveal(controller_field);
    tree::law_every_changed_field_is_told(current_source, desired_source, key);
    let changes = tree::table_diff(current_source, desired_source);
    let i = choose|i: int|
        0 <= i < changes.len() && (#[trigger] changes[i]).path.len() > 0 && changes[i].path[0]
            == key;
    assert(binding(changes[i]));
}

/// The document of a core that runs beside another one is the full one, but for the
/// ports that are open, which are closed, and a `tun` device that is on, of which only
/// the switch changes.
pub proof fn law_bootstraps_change_nothing_else(table: Seq<(Node, Node)>, key: Seq<char>)
    ensures
        key != "tun"@ ==> value::lookup(zeroed(table), key) == value::lookup(table, key) || ((key
            == "port"@ || key == "socks-port"@ || key == "redir-port"@ || key == "tproxy-port"@
            || key == "mixed-port"@) && (value::lookup(table, key) matches Some(node) && (
        node.int64() matches Some(port) && port != 0)) && value::lookup(zeroed(table), key)
            == Some(Node::Int(0))),
        value::lookup(table, "tun"@) is Some <==> value::lookup(zeroed(table), "tun"@) is Some,
        value::lookup(table, "tun"@) matches Some(node) ==> {
            let off = value::lookup(zeroed(table), "tun"@)->0;
            &&& !(node.table() matches Some(tun) && switched_on(tun)) ==> off == node
            &&& node.table() matches Some(tun) ==> (off.table() matches Some(t) && (key
                != "enable"@ ==> value::lookup(t, key) == value::lookup(tun, key)) && (switched_on(
                tun,
            ) ==> value::lookup(t, "enable"@) == Some(Node::Bool(false))))
        },
{
    let a = port_closed(table, "port"@);
    let b = port_closed(a, "socks-port"@);
    let c = port_closed(b, "redir-port"@);
    let d = port_closed(c, "tproxy-port"@);
    let e = port_closed(d, "mixed-port"@);
    lemma_port_keys_differ();
    lemma_port_closed(table, "port"@, key);
    lemma_port_closed(a, "socks-port"@, key);
    lemma_port_closed(b, "redir-port"@, key);
    lemma_port_closed(c, "tproxy-port"@, key);
    lemma_port_closed(d, "mixed-port"@, key);
    lemma_port_closed(table, "port"@, "tun"@);
    lemma_port_closed(a, "socks-port"@, "tun"@);
    lemma_port_closed(b, "redir-port"@, "tun"@);
    lemma_port_closed(c, "tproxy-port"@, "tun"@);
    lemma_port_closed(d, "mixed-port"@, "tun"@);
    lemma_tun_off(e, key);
    if let Some(node) = value::lookup(e, "tun"@) {
        if let Some(tun) = node.table() {
            let off = value::inserted(tun, "enable"@, Node::Bool(false));
            node.lemma_with_table(off);
            value::lemma_lookup_inserted(e, "tun"@, node.with_table(off), "tun"@);
            value::lemma_lookup_inserted(tun, "enable"@, Node::Bool(false), "enable"@);
            value::lemma_lookup_inserted(tun, "enable"@, Node::Bool(false), key);
        }
    }
}

proof fn lemma_port_keys_differ()
    ensures
        "port"@ != "tun"@,
        "socks-port"@ != "tun"@,
        "redir-port"@ != "tun"@,
        "tproxy-port"@ != "tun"@,
        "mixed-port"@ != "tun"@,
        "port"@ != "socks-port"@,
        "port"@ != "redir-port"@,
        "port"@ != "tproxy-port"@,
        "port"@ != "mixed-port"@,
        "socks-port"@ != "redir-port"@,
        "socks-port"@ != "tproxy-port"@,
        "socks-port"@ != "mixed-port"@,
        "redir-port"@ != "tproxy-port"@,
        "redir-port"@ != "mixed-port"@,
        "tproxy-port"@ != "mixed-port"@,
{
    reveal_strlit("port");
    reveal_strlit("tun");
    reveal_strlit("socks-port");
    reveal_strlit("redir-port");
    reveal_strlit("tproxy-port");
    reveal_strlit("mixed-port");
    assert("port"@.len() == 4 && "tun"@.len() == 3 && "socks-port"@.len() == 10
        && "redir-port"@.len() == 10 && "tproxy-port"@.len() == 11 && "mixed-port"@.len() == 10);
    assert("socks-port"@[0] == 's' && "redir-port"@[0] == 'r' && "mixed-port"@[0] == 'm');
}

/// Every port that is open in the full document is closed in that of a core that runs
/// beside another one.
pub proof fn law_open_ports_are_closed(table: Seq<(Node, Node)>, key: Seq<char>)
    requires
        key == "port"@ || key == "socks-port"@ || key == "redir-port"@ || key == "tproxy-port"@
            || key == "mixed-port"@,
        value::lookup(table, key) matches Some(node) && node.int64() is Some,
    ensures
        value::lookup(zeroed(table), key) matches Some(node) && node.int64() == Some(0int),
{
    law_bootstrap_takes_in_nothing(table);
    law_bootstraps_change_nothing_else(table, key);
    lemma_port_keys_differ();
}

/// Two cores run side by side only where nothing else than the ports and the device
/// that are turned off takes anything in: whatever is said of a listener of another
/// kind is empty or off, the ports and the switch of the device can be read, and no
/// other field sounds as if it took something in.
pub proof fn law_cores_overlap_only_where_nothing_else_takes_in(
    table: Seq<(Node, Node)>,
    key: Seq<char>,
)
    requires
        block(table) is None,
        dns_listen(table) is None,
    ensures
        key == "port"@ || key == "socks-port"@ || key == "redir-port"@ || key == "tproxy-port"@
            || key == "mixed-port"@ ==> (value::lookup(table, key) matches Some(node)
            ==> node.int64() is Some),
        key == "ss-config"@ || key == "vmess-config"@ || key == "tcptun-config"@ || key
            == "udptun-config"@ ==> (value::lookup(table, key) matches Some(node) ==> (node.text()
            matches Some(s) && s.len() == 0)),
        key == "listeners"@ || key == "tunnels"@ ==> (value::lookup(table, key) matches Some(node)
            ==> (node is Null || (node matches Node::Text(s) && s.len() == 0) || (node
            matches Node::List(items) && items.len() == 0) || (node matches Node::Table(t)
            && t.len() == 0))),
        value::lookup(table, "tuic-server"@) matches Some(node) ==> (node.table() matches Some(t)
            && (t.len() == 0 || (value::lookup(t, "enable"@) matches Some(flag) && flag.flag()
            == Some(false)))),
        value::lookup(table, "tun"@) matches Some(node) ==> (node.table() matches Some(t) && (
        value::lookup(t, "enable"@) matches Some(flag) ==> flag.flag() is Some)),
{
    if let Some(node) = value::lookup(table, "tuic-server"@) {
        if let Some(t) = node.table() {
            value::lemma_key_index_bounds(t, "enable"@);
        }
    }
}

/// A core that answers DNS queries somewhere blocks another one; where it names the
/// place as nothing at all it does not.
pub proof fn law_dns_listeners_block(table: Seq<(Node, Node)>, node: Node)
    requires
        dns_listen(table) == Some(node),
    ensures
        node.text() matches Some(s) && s.len() > 0 ==> block(table) == Some(
            OverlapBlock::DnsListen,
        ),
        node.text() is None && !(node.untagged() is Null) ==> block(table) == Some(
            OverlapBlock::InboundSurface,
        ),
        node.untagged() is Null || (node.text() matches Some(s) && s.len() == 0) ==> block(table)
            is None,
{
}

/// Fields that are not known and sound as if they took something in block another core:
/// those whose names end in `-port` or speak of listeners, inbounds or tunnels.
pub proof fn law_unknown_inbounds_block(
    table: Seq<(Node, Node)>,
    i: int,
    key: Seq<char>,
    patch: ConfigPatch,
)
    requires
        0 <= i < table.len(),
        table[i].0.text() == Some(key),
        text::has_suffix(key, "-port"@) || text::contains_sub(key, "listener"@)
            || text::contains_sub(key, "inbound"@) || text::contains_sub(key, "tunnel"@),
        key != "listeners"@,
        key != "tunnels"@,
        patch.complete(),
        !value::holds_key(patch.tree(), key),
        dns_listen(table) is None,
    ensures
        block(table) == Some(OverlapBlock::InboundSurface),
{
    law_patchable_fields_are_carried(key, patch, arbitrary());
    assert(suspicious(key));
}

/// A document whose only inbounds are ports that can be closed and a device that can be
/// turned off blocks nothing.
pub proof fn law_closable_inbounds_do_not_block(table: Seq<(Node, Node)>, patch: ConfigPatch)
    requires
        patch.complete(),
        dns_listen(table) is None,
        forall|key: Seq<char>| #[trigger]
            value::lookup(table, key) matches Some(node) ==> {
                &&& key == "port"@ || key == "socks-port"@ || key == "redir-port"@ || key
                    == "tproxy-port"@ || key == "mixed-port"@ ==> node.int64() is Some
                &&& key == "tun"@ ==> (node.table() matches Some(t) && (value::lookup(
                    t,
                    "enable"@,
                ) matches Some(flag) ==> flag.flag() is Some))
                &&& key != "tuic-server"@ && key != "ss-config"@ && key != "vmess-config"@ && key
                    != "tcptun-config"@ && key != "udptun-config"@ && key != "listeners"@ && key
                    != "tunnels"@
            },
        forall|i: int|
            0 <= i < table.len() ==> ((#[trigger] table[i]).0.text() matches Some(key) ==> (
            !text::has_suffix(key, "-port"@) && !text::contains_sub(key, "listener"@)
                && !text::contains_sub(key, "inbound"@) && !text::contains_sub(key, "tunnel"@))
                || value::holds_key(patch.tree(), key)),
    ensures
        block(table) is None,
{
    assert forall|i: int| 0 <= i < table.len() implies !((#[trigger] table[i]).0.text() matches Some(
        key,
    ) && suspicious(key)) by {
        if let Some(key) = table[i].0.text() {
            law_patchable_fields_are_carried(key, patch, arbitrary());
        }
    }
}

pub proof fn lemma_zeroed_keeps_keys_apart(table: Seq<(Node, Node)>)
    requires
        value::distinct_keys(table),
    ensures
        value::distinct_keys(zeroed(table)),
{
    let a = port_closed(table, "port"@);
    let b = port_closed(a, "socks-port"@);
    let c = port_closed(b, "redir-port"@);
    let d = port_closed(c, "tproxy-port"@);
    let e = port_closed(d, "mixed-port"@);
    value::lemma_inserted_keeps_keys_apart(table, "port"@, Node::Int(0));
    value::lemma_inserted_keeps_keys_apart(a, "socks-port"@, Node::Int(0));
    value::lemma_inserted_keeps_keys_apart(b, "redir-port"@, Node::Int(0));
    value::lemma_inserted_keeps_keys_apart(c, "tproxy-port"@, Node::Int(0));
    value::lemma_inserted_keeps_keys_apart(d, "mixed-port"@, Node::Int(0));
    if let Some(node) = value::lookup(e, "tun"@) {
        if let Some(tun) = node.table() {
            value::lemma_inserted_keeps_keys_apart(
                e,
                "tun"@,
                node.with_table(value::inserted(tun, "enable"@, Node::Bool(false))),
            );
        }
    }
}

} // verus!
