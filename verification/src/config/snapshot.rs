//! Snapshots of configurations, and what a core is given of one.

use std::sync::Arc;

use vstd::prelude::*;
use vstd::string::*;
use vstd::utf8::*;

use crate::clash_api::client::Host;
use crate::config::clash;
use crate::config::clash::{
    inspect, inspect_http, resolve_controller, rewrite_managed_controller, ConfigInfo,
};
use crate::config::mihomo;
use crate::config::mihomo::zero_inbounds;
use crate::error::Error;
use crate::platform::Platform;
use crate::spec;
use crate::spec::ResolvedController;
use crate::text;
use crate::text::u64_to_hex;
use crate::tree;
use crate::value;
use crate::value::{canonicalize_table, copy_entries, Datum, Node, Refusal};
use crate::yaml;

verus! {

// ---------------------------------------------------------------------------
// Hashes
// ---------------------------------------------------------------------------

/// FNV-1a with 64 bits.
pub open spec fn fnv(bytes: Seq<u8>) -> u64
    decreases bytes.len(),
{
    if bytes.len() == 0 {
        0xcbf2_9ce4_8422_2325
    } else {
        (fnv(bytes.drop_last()) ^ (bytes.last() as u64)).wrapping_mul(0x0000_0100_0000_01b3)
    }
}

/// The hash of a text, in sixteen hexadecimal digits.
pub open spec fn hash_text(bytes: Seq<u8>) -> Seq<char> {
    text::hex16(fnv(bytes) as nat, 16)
}

pub fn semantic_hash(bytes: &[u8]) -> (r: String)
    ensures
        r@ == hash_text(bytes@),
{
    let mut hash: u64 = 0xcbf2_9ce4_8422_2325;
    let n: usize = bytes.len();
    let mut i: usize = 0;
    assert(bytes@.take(0) =~= Seq::<u8>::empty());
    while i < n
        invariant
            n == bytes@.len(),
            i <= n,
            hash == fnv(bytes@.take(i as int)),
        decreases n - i,
    {
        assert(bytes@.take(i + 1).drop_last() =~= bytes@.take(i as int));
        assert(bytes@.take(i + 1).last() == bytes@[i as int]);
        hash = hash ^ (bytes[i] as u64);
        hash = hash.wrapping_mul(0x0000_0100_0000_01b3);
        i += 1;
    }
    assert(bytes@.take(n as int) =~= bytes@);
    u64_to_hex(hash)
}

// ---------------------------------------------------------------------------
// Snapshots
// ---------------------------------------------------------------------------

/// A configuration as it was read: its document in canonical form.
pub struct ConfigSnapshot {
    source_path: String,
    document: Arc<Vec<(Datum, Datum)>>,
    source_hash: String,
}

/// What a document with no canonical form is refused with.
pub open spec fn refused(refusal: Refusal, e: Error) -> bool {
    match refusal {
        Refusal::KeyNotText => e matches Error::InvalidConfig(m) && m@
            == "all YAML mapping keys must be strings"@,
        Refusal::Tagged => e matches Error::InvalidConfig(m) && m@
            == "tagged YAML values are not supported"@,
    }
}

fn refuse(refusal: Refusal) -> (r: Error)
    ensures
        refused(refusal, r),
{
    match refusal {
        Refusal::KeyNotText => Error::InvalidConfig(
            "all YAML mapping keys must be strings".to_owned(),
        ),
        Refusal::Tagged => Error::InvalidConfig("tagged YAML values are not supported".to_owned()),
    }
}

/// The text that a canonical document is written as.
pub open spec fn written(table: Seq<(Node, Node)>) -> Result<Seq<char>, Seq<char>> {
    yaml::yaml_text(yaml::rebuilt(Node::Table(table)))
}

/// What becomes of a document that is taken for a configuration.
pub open spec fn document_outcome(
    source_path: Seq<char>,
    table: Seq<(Node, Node)>,
    r: Result<ConfigSnapshot, Error>,
) -> bool {
    match value::canonical_table(table) {
        Err(refusal) => r matches Err(e) && refused(refusal, e),
        Ok(canonical) => match written(canonical) {
            Err(words) => r matches Err(Error::Yaml(m)) && m@ == words,
            Ok(text) => r matches Ok(s) && s.path() == source_path && s.table() == canonical
                && s.hash() == hash_text(encode_utf8(text)),
        },
    }
}

/// What becomes of a text that reads as `tree`.
pub open spec fn snapshot_outcome(
    source_path: Seq<char>,
    tree: Result<Node, Seq<char>>,
    r: Result<ConfigSnapshot, Error>,
) -> bool {
    match tree {
        Err(words) => r matches Err(Error::Yaml(m)) && m@ == words,
        Ok(Node::Table(table)) => document_outcome(source_path, table, r),
        Ok(_) => r matches Err(Error::InvalidConfig(m)) && m@
            == "top-level YAML document must be a mapping"@,
    }
}

fn serialize_mapping(document: &Arc<Vec<(Datum, Datum)>>) -> (r: Result<Vec<u8>, Error>)
    requires
        value::is_canonical(Node::Table(value::entries(document@))),
    ensures
        match written(value::entries(document@)) {
            Ok(text) => r matches Ok(bytes) && bytes@ == encode_utf8(text),
            Err(words) => r matches Err(Error::Yaml(m)) && m@ == words,
        },
{
    let copy = copy_entries(document);
    proof {
        Datum::lemma_table(copy);
    }
    let whole = Datum::Table(copy);
    match yaml::write(&whole) {
        Ok(text) => Ok(text.as_str().as_bytes_vec()),
        Err(words) => Err(Error::Yaml(words)),
    }
}

impl ConfigSnapshot {
    #[verifier::type_invariant]
    spec fn wf(self) -> bool {
        value::is_canonical(Node::Table(value::entries(self.document@)))
    }

    pub closed spec fn path(&self) -> Seq<char> {
        self.source_path@
    }

    pub closed spec fn table(&self) -> Seq<(Node, Node)> {
        value::entries(self.document@)
    }

    pub closed spec fn hash(&self) -> Seq<char> {
        self.source_hash@
    }

    /// A snapshot of a configuration that was read from a file.
    pub fn from_bytes(source_path: String, raw: &[u8]) -> (r: Result<ConfigSnapshot, Error>)
        ensures
            snapshot_outcome(source_path@, yaml::yaml_tree(raw@), r),
    {
        match yaml::read(raw) {
            Ok(tree) => ConfigSnapshot::from_tree(source_path, tree),
            Err(words) => Err(Error::Yaml(words)),
        }
    }

    /// A snapshot of a configuration that reads as `tree`.
    pub fn from_tree(source_path: String, tree: Datum) -> (r: Result<ConfigSnapshot, Error>)
        ensures
            snapshot_outcome(source_path@, Ok(tree@), r),
    {
        match tree {
            Datum::Table(document) => {
                proof {
                    Datum::lemma_table(document);
                }
                ConfigSnapshot::from_document(source_path, &document)
            },
            _ => Err(
                Error::InvalidConfig("top-level YAML document must be a mapping".to_owned()),
            ),
        }
    }

    pub fn from_document(source_path: String, document: &Vec<(Datum, Datum)>) -> (r: Result<
        ConfigSnapshot,
        Error,
    >)
        ensures
            document_outcome(source_path@, value::entries(document@), r),
    {
        match canonicalize_table(document) {
            Err(refusal) => Err(refuse(refusal)),
            Ok(canonical) => {
                proof {
                    value::law_canonical_is_canonical(Node::Table(value::entries(document@)));
                }
                let document = Arc::new(canonical);
                match serialize_mapping(&document) {
                    Ok(bytes) => {
                        let source_hash = semantic_hash(bytes.as_slice());
                        Ok(ConfigSnapshot { source_path, document, source_hash })
                    },
                    Err(e) => Err(e),
                }
            },
        }
    }

    pub fn source_path(&self) -> (r: &str)
        ensures
            r@ == self.path(),
    {
        self.source_path.as_str()
    }

    pub fn document(&self) -> (r: &Arc<Vec<(Datum, Datum)>>)
        ensures
            value::entries(r@) == self.table(),
            value::is_canonical(Node::Table(value::entries(r@))),
    {
        proof {
            use_type_invariant(self);
        }
        &self.document
    }

    pub fn source_hash(&self) -> (r: &str)
        ensures
            r@ == self.hash(),
    {
        self.source_hash.as_str()
    }

    /// What the configuration says of its controller.
    pub fn info(&self, platform: Platform) -> (r: ConfigInfo)
        ensures
            clash::raw_view(r.controller) == clash::any_controller(self.table(), platform),
            spec::maybe_text(r.secret) == clash::text_under(self.table(), "secret"@),
    {
        inspect(&self.document, platform)
    }

    /// What a core is given: the configuration, with its controller at `endpoint`
    /// where there is one.
    pub fn prepare_full(&self, platform: Platform, endpoint: Option<&str>) -> (r: Result<
        PreparedConfig,
        Error,
    >)
        ensures
            prepared(self.table(), self.hash(), platform, endpoint, false, r),
    {
        self.prepare_inner(platform, endpoint, false)
    }

    /// What a core is given while another one still runs: as above, but it takes
    /// in nothing.
    pub fn prepare_bootstrap(&self, platform: Platform, endpoint: Option<&str>) -> (r: Result<
        PreparedConfig,
        Error,
    >)
        ensures
            prepared(self.table(), self.hash(), platform, endpoint, true, r),
    {
        self.prepare_inner(platform, endpoint, true)
    }

    fn prepare_inner(&self, platform: Platform, endpoint: Option<&str>, zero: bool) -> (r: Result<
        PreparedConfig,
        Error,
    >)
        ensures
            prepared(self.table(), self.hash(), platform, endpoint, zero, r),
    {
        let mut table = copy_entries(&self.document);
        if zero {
            zero_inbounds(&mut table);
        }
        let table = match endpoint {
            Some(endpoint) => rewrite_managed_controller(&table, platform, endpoint),
            None => table,
        };
        let ghost changed = value::entries(table@);
        let document = match canonicalize_table(&table) {
            Err(refusal) => return Err(refuse(refusal)),
            Ok(canonical) => Arc::new(canonical),
        };
        proof {
            value::law_canonical_is_canonical(Node::Table(changed));
        }
        let info = match endpoint {
            Some(_) => inspect(&document, platform),
            None => inspect_http(&document),
        };
        let resolved = resolve_controller(&info);
        proof {
            clash::lemma_resolvable(
                clash::raw_view(info.controller),
                spec::maybe_text(info.secret),
                resolved,
            );
        }
        let controller = match resolved {
            Ok(controller) => Arc::new(controller),
            Err(e) => return Err(e),
        };
        let bytes = match serialize_mapping(&document) {
            Ok(bytes) => bytes,
            Err(e) => return Err(e),
        };
        let effective_hash = semantic_hash(bytes.as_slice());
        Ok(
            PreparedConfig {
                bytes,
                document,
                controller,
                rewrote_controller: endpoint.is_some(),
                source_hash: self.source_hash.clone(),
                effective_hash,
            },
        )
    }
}

/// What a core is given.
pub struct PreparedConfig {
    pub bytes: Vec<u8>,
    pub document: Arc<Vec<(Datum, Datum)>>,
    pub controller: Arc<ResolvedController>,
    pub rewrote_controller: bool,
    pub source_hash: String,
    pub effective_hash: String,
}

/// The document that a core is given, before it is put in order.
pub open spec fn effective_table(
    table: Seq<(Node, Node)>,
    platform: Platform,
    endpoint: Option<&str>,
    zero: bool,
) -> Seq<(Node, Node)> {
    let quiet = if zero {
        mihomo::zeroed(table)
    } else {
        table
    };
    match endpoint {
        Some(endpoint) => clash::managed(quiet, platform, endpoint@),
        None => quiet,
    }
}

/// The controller of the document that a core is given: a managed one where there
/// is an endpoint, and otherwise only an HTTP one.
pub open spec fn effective_controller(
    table: Seq<(Node, Node)>,
    platform: Platform,
    endpoint: Option<&str>,
) -> Option<clash::RawView> {
    match endpoint {
        Some(_) => clash::any_controller(table, platform),
        None => clash::http_controller(table),
    }
}

/// What preparing a configuration comes to.
pub open spec fn prepared(
    table: Seq<(Node, Node)>,
    hash: Seq<char>,
    platform: Platform,
    endpoint: Option<&str>,
    zero: bool,
    r: Result<PreparedConfig, Error>,
) -> bool {
    match value::canonical_table(effective_table(table, platform, endpoint, zero)) {
        Err(refusal) => r matches Err(e) && refused(refusal, e),
        Ok(canonical) => {
            let raw = effective_controller(canonical, platform, endpoint);
            let secret = clash::text_under(canonical, "secret"@);
            if !clash::resolvable(raw) {
                r matches Err(e) && clash::controller_outcome(raw, secret, Err(e))
            } else {
                match written(canonical) {
                    Err(words) => r matches Err(Error::Yaml(m)) && m@ == words,
                    Ok(text) => r matches Ok(p) && {
                        &&& p.bytes@ == encode_utf8(text)
                        &&& value::entries(p.document@) == canonical
                        &&& value::is_canonical(Node::Table(canonical))
                        &&& clash::controller_outcome(raw, secret, Ok(*p.controller))
                        &&& p.rewrote_controller == endpoint is Some
                        &&& p.source_hash@ == hash
                        &&& p.effective_hash@ == hash_text(encode_utf8(text))
                    },
                }
            }
        },
    }
}

// ---------------------------------------------------------------------------
// Laws
// ---------------------------------------------------------------------------

/// The order of the entries of a document changes neither its snapshot nor its
/// hash.
pub proof fn law_hash_ignores_order(
    path_a: Seq<char>,
    path_b: Seq<char>,
    a: Seq<(Node, Node)>,
    b: Seq<(Node, Node)>,
    x: ConfigSnapshot,
    y: ConfigSnapshot,
)
    requires
        value::distinct_keys(a),
        value::distinct_keys(b),
        a.to_multiset() == b.to_multiset(),
        document_outcome(path_a, a, Ok(x)),
        document_outcome(path_b, b, Ok(y)),
    ensures
        x.table() == y.table(),
        x.hash() == y.hash(),
{
    value::law_canonical_ignores_order(a, b);
}

/// What is prepared of a configuration depends on its document alone: the same
/// document gives the same bytes and the same hash.
pub proof fn law_preparing_is_deterministic(
    table: Seq<(Node, Node)>,
    hash: Seq<char>,
    platform: Platform,
    endpoint: Option<&str>,
    zero: bool,
    a: Result<PreparedConfig, Error>,
    b: Result<PreparedConfig, Error>,
)
    requires
        prepared(table, hash, platform, endpoint, zero, a),
        prepared(table, hash, platform, endpoint, zero, b),
    ensures
        a is Ok <==> b is Ok,
        a is Ok ==> a->Ok_0.bytes@ == b->Ok_0.bytes@ && a->Ok_0.effective_hash@
            == b->Ok_0.effective_hash@ && value::entries(a->Ok_0.document@) == value::entries(
            b->Ok_0.document@,
        ),
{
}

/// A configuration without an HTTP controller is refused unless the manager owns
/// the endpoint, whatever local endpoint it names.
pub proof fn law_local_controllers_are_not_used_unmanaged(
    table: Seq<(Node, Node)>,
    hash: Seq<char>,
    platform: Platform,
    zero: bool,
    canonical: Seq<(Node, Node)>,
    r: Result<PreparedConfig, Error>,
)
    requires
        prepared(table, hash, platform, None, zero, r),
        value::canonical_table(effective_table(table, platform, None, zero)) == Ok::<
            Seq<(Node, Node)>,
            Refusal,
        >(canonical),
        clash::text_under(canonical, "external-controller"@) is None,
    ensures
        r matches Err(e) && e is ControllerMissing,
{
}

/// A configuration without an endpoint of the manager is given to a core as it is, and
/// in canonical form: what it says under every key is what the source says.
pub proof fn law_unmanaged_configurations_are_given_as_they_are(
    table: Seq<(Node, Node)>,
    hash: Seq<char>,
    platform: Platform,
    p: PreparedConfig,
)
    requires
        prepared(table, hash, platform, None, false, Ok(p)),
        value::is_canonical(Node::Table(table)),
    ensures
        value::entries(p.document@) == table,
        !p.rewrote_controller,
        p.source_hash@ == hash,
{
    value::law_canonical_fixed(Node::Table(table));
}

/// A configuration with an endpoint of the manager is given to a core with that
/// endpoint as its controller; all else that it says stays, and is taken from the
/// source, or from what takes in nothing.
pub proof fn law_managed_configurations_keep_the_rest(
    table: Seq<(Node, Node)>,
    hash: Seq<char>,
    platform: Platform,
    endpoint: &str,
    zero: bool,
    p: PreparedConfig,
    key: Seq<char>,
)
    requires
        prepared(table, hash, platform, Some(endpoint), zero, Ok(p)),
        value::is_canonical(Node::Table(table)),
        endpoint@.len() > 0,
    ensures
        p.rewrote_controller,
        p.source_hash@ == hash,
        platform is Unix ==> (p.controller.host matches Host::UnixSocket(path) && path@
            == endpoint@),
        platform is Windows ==> (p.controller.host matches Host::NamedPipe(path) && path@
            == endpoint@),
        !zero && key != "external-controller"@ && key != "external-controller-pipe"@ && key
            != "external-controller-unix"@ ==> value::lookup(value::entries(p.document@), key)
            == value::lookup(table, key),
{
    let source = if zero {
        mihomo::zeroed(table)
    } else {
        table
    };
    let raw = clash::managed(source, platform, endpoint@);
    let doc = value::entries(p.document@);
    clash::law_managed_controller_is_the_only_one(source, platform, endpoint@);
    lemma_managed_keys_apart(table, source, platform, endpoint@, zero);
    let local = clash::local_key(platform);
    value::law_canonical_table_lookup(raw, local);
    value::lemma_last_is_first(raw, local);
    if !zero && key != "external-controller"@ && key != "external-controller-pipe"@ && key
        != "external-controller-unix"@ {
        clash::law_rewriting_keeps_the_rest(table, platform, endpoint@, key);
        value::law_canonical_table_lookup(raw, key);
        value::lemma_last_is_first(raw, key);
        value::lemma_key_index_bounds(table, key);
        if let Some(node) = value::lookup(table, key) {
            assert(value::is_canonical(table[value::key_index(table, key)].1));
            value::law_canonical_fixed(node);
        }
    }
}

proof fn lemma_managed_keys_apart(
    table: Seq<(Node, Node)>,
    source: Seq<(Node, Node)>,
    platform: Platform,
    endpoint: Seq<char>,
    zero: bool,
)
    requires
        value::is_canonical(Node::Table(table)),
        source == (if zero {
            mihomo::zeroed(table)
        } else {
            table
        }),
    ensures
        value::distinct_keys(clash::managed(source, platform, endpoint)),
        value::lookup(clash::managed(source, platform, endpoint), clash::local_key(platform))
            == Some(Node::Text(endpoint)),
{
    tree::lemma_canonical_well_keyed(Node::Table(table));
    mihomo::lemma_zeroed_keeps_keys_apart(table);
    let a = value::removed(source, "external-controller"@);
    let b = value::removed(a, "external-controller-pipe"@);
    let c = value::removed(b, "external-controller-unix"@);
    value::lemma_removed_keeps_keys_apart(source, "external-controller"@);
    value::lemma_removed_keeps_keys_apart(a, "external-controller-pipe"@);
    value::lemma_removed_keeps_keys_apart(b, "external-controller-unix"@);
    let local = clash::local_key(platform);
    value::lemma_inserted_keeps_keys_apart(c, local, Node::Text(endpoint));
    value::lemma_lookup_inserted(c, local, Node::Text(endpoint), local);
}

/// What is taken for a configuration holds, under each key, what the text says last
/// under it, in canonical form; it keeps the path that it was read from, and is hashed
/// as it is written.
pub proof fn law_configurations_hold_what_was_read(
    source_path: Seq<char>,
    table: Seq<(Node, Node)>,
    r: Result<ConfigSnapshot, Error>,
    key: Seq<char>,
)
    requires
        snapshot_outcome(source_path, Ok(Node::Table(table)), r),
        r is Ok,
    ensures
        r->Ok_0.path() == source_path,
        value::is_canonical(Node::Table(r->Ok_0.table())),
        value::last_under(table, key) is None ==> value::lookup(r->Ok_0.table(), key) is None,
        value::last_under(table, key) matches Some(node) ==> (value::lookup(
            r->Ok_0.table(),
            key,
        ) matches Some(kept) && value::canonical(node) == Ok::<Node, value::Refusal>(kept)),
        written(r->Ok_0.table()) matches Ok(text) && r->Ok_0.hash() == hash_text(
            encode_utf8(text),
        ),
        r->Ok_0.hash().len() == 16,
{
    value::law_canonical_table_lookup(table, key);
    value::law_canonical_is_canonical(Node::Table(table));
    let text = written(r->Ok_0.table())->Ok_0;
    let n = fnv(encode_utf8(text)) as nat;
    text::law_digits_tell_their_number(n, n, 16);
}

/// Only a mapping is taken for a configuration; what cannot be read is told as it was
/// told.
pub proof fn law_only_mappings_are_configurations(
    source_path: Seq<char>,
    tree: Result<Node, Seq<char>>,
    r: Result<ConfigSnapshot, Error>,
)
    requires
        snapshot_outcome(source_path, tree, r),
    ensures
        r is Ok ==> (tree matches Ok(node) && node is Table),
        tree matches Err(words) ==> (r matches Err(Error::Yaml(m)) && m@ == words),
        tree matches Ok(node) ==> (!(node is Table) ==> (r matches Err(e) && e is InvalidConfig)),
{
}

} // verus!
