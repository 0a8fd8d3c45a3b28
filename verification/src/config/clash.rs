//! Where a configuration says that its controller is.

use vstd::prelude::*;
use vstd::string::*;

use crate::clash_api::client as host;
use crate::clash_api::client::Host;
use crate::error::Error;
use crate::metadata::feature::Feature;
use crate::platform::Platform;
use crate::spec;
use crate::spec::{copy_text, ResolvedController};
use crate::text;
use crate::text::{chars, collect, rfind_char, str_eq};
use crate::value;
use crate::value::{get, insert, remove, Datum, Node};

verus! {

/// A controller as a configuration names it.
#[derive(Debug, PartialEq, Eq)]
pub enum RawController {
    Pipe(String),
    Unix(String),
    Http(String),
}

pub ghost enum RawView {
    Pipe(Seq<char>),
    Unix(Seq<char>),
    Http(Seq<char>),
}

impl View for RawController {
    type V = RawView;

    open spec fn view(&self) -> RawView {
        match self {
            RawController::Pipe(s) => RawView::Pipe(s@),
            RawController::Unix(s) => RawView::Unix(s@),
            RawController::Http(s) => RawView::Http(s@),
        }
    }
}

/// What a configuration says of its controller.
#[derive(Debug)]
pub struct ConfigInfo {
    pub controller: Option<RawController>,
    pub secret: Option<String>,
}

pub open spec fn raw_view(raw: Option<RawController>) -> Option<RawView> {
    match raw {
        Some(raw) => Some(raw@),
        None => None,
    }
}

/// The text under a key, unless it is empty.
pub open spec fn text_under(table: Seq<(Node, Node)>, key: Seq<char>) -> Option<Seq<char>> {
    match value::lookup(table, key) {
        Some(node) => match node.text() {
            Some(s) => if s.len() > 0 {
                Some(s)
            } else {
                None
            },
            None => None,
        },
        None => None,
    }
}

pub fn str_value(document: &Vec<(Datum, Datum)>, key: &str) -> (r: Option<String>)
    ensures
        spec::maybe_text(r) == text_under(value::entries(document@), key@),
{
    match get(document, key) {
        Some(v) => match v.as_str() {
            Some(s) => {
                if s.is_empty() {
                    None
                } else {
                    Some(s.to_owned())
                }
            },
            None => None,
        },
        None => None,
    }
}

/// The key of the local endpoint of a platform.
pub open spec fn local_key(platform: Platform) -> Seq<char> {
    match platform {
        Platform::Windows => "external-controller-pipe"@,
        Platform::Unix => "external-controller-unix"@,
    }
}

fn local_key_text(platform: Platform) -> (r: &'static str)
    ensures
        r@ == local_key(platform),
{
    match platform {
        Platform::Windows => "external-controller-pipe",
        Platform::Unix => "external-controller-unix",
    }
}

/// What a core must be able to do to be controlled through a local endpoint.
pub open spec fn transport_feature(platform: Platform) -> Feature {
    match platform {
        Platform::Windows => Feature::NamedPipeIpc,
        Platform::Unix => Feature::UnixSocketIpc,
    }
}

pub fn local_transport_feature(platform: Platform) -> (r: Feature)
    ensures
        r == transport_feature(platform),
{
    match platform {
        Platform::Windows => Feature::NamedPipeIpc,
        Platform::Unix => Feature::UnixSocketIpc,
    }
}

/// The HTTP controller of a document.
pub open spec fn http_controller(table: Seq<(Node, Node)>) -> Option<RawView> {
    match text_under(table, "external-controller"@) {
        Some(address) => Some(RawView::Http(address)),
        None => None,
    }
}

/// The controller of a document: a local one before an HTTP one.
pub open spec fn any_controller(table: Seq<(Node, Node)>, platform: Platform) -> Option<RawView> {
    match text_under(table, local_key(platform)) {
        Some(path) => Some(
            match platform {
                Platform::Windows => RawView::Pipe(path),
                Platform::Unix => RawView::Unix(path),
            },
        ),
        None => http_controller(table),
    }
}

pub fn inspect_http(document: &Vec<(Datum, Datum)>) -> (r: ConfigInfo)
    ensures
        raw_view(r.controller) == http_controller(value::entries(document@)),
        spec::maybe_text(r.secret) == text_under(value::entries(document@), "secret"@),
{
    let controller = match str_value(document, "external-controller") {
        Some(address) => Some(RawController::Http(address)),
        None => None,
    };
    ConfigInfo { controller, secret: str_value(document, "secret") }
}

pub fn inspect(document: &Vec<(Datum, Datum)>, platform: Platform) -> (r: ConfigInfo)
    ensures
        raw_view(r.controller) == any_controller(value::entries(document@), platform),
        spec::maybe_text(r.secret) == text_under(value::entries(document@), "secret"@),
{
    match str_value(document, local_key_text(platform)) {
        Some(path) => {
            let controller = match platform {
                Platform::Windows => RawController::Pipe(path),
                Platform::Unix => RawController::Unix(path),
            };
            ConfigInfo { controller: Some(controller), secret: str_value(document, "secret") }
        },
        None => inspect_http(document),
    }
}

/// A document whose only controller is the given local endpoint.
pub open spec fn managed(
    table: Seq<(Node, Node)>,
    platform: Platform,
    endpoint: Seq<char>,
) -> Seq<(Node, Node)> {
    value::inserted(
        value::removed(
            value::removed(
                value::removed(table, "external-controller"@),
                "external-controller-pipe"@,
            ),
            "external-controller-unix"@,
        ),
        local_key(platform),
        Node::Text(endpoint),
    )
}

pub fn rewrite_managed_controller(
    document: &Vec<(Datum, Datum)>,
    platform: Platform,
    endpoint: &str,
) -> (r: Vec<(Datum, Datum)>)
    ensures
        value::entries(r@) == managed(value::entries(document@), platform, endpoint@),
{
    let first = remove(document, "external-controller");
    let second = remove(&first, "external-controller-pipe");
    let mut out = remove(&second, "external-controller-unix");
    insert(&mut out, local_key_text(platform), Datum::Text(endpoint.to_owned()));
    out
}

/// An address that listens everywhere is asked on this machine.
pub open spec fn probed_address(address: Seq<char>) -> Seq<char> {
    let i = text::last_where(address, address.len() as int, text::is_char(':'));
    if i < 0 {
        address
    } else {
        let before = address.subrange(0, i);
        if before == "0.0.0.0"@ || before == "::"@ || before == "[::]"@ || before.len() == 0 {
            "127.0.0.1:"@ + address.subrange(i + 1, address.len() as int)
        } else {
            address
        }
    }
}

pub fn probe_address(address: &str) -> (r: String)
    ensures
        r@ == probed_address(address@),
{
    let cs = chars(address);
    let n: usize = cs.len();
    match rfind_char(&cs, n, ':') {
        None => address.to_owned(),
        Some(i) => {
            let before = collect(&cs, 0, i);
            if str_eq(before.as_str(), "0.0.0.0") || str_eq(before.as_str(), "::") || str_eq(
                before.as_str(),
                "[::]",
            ) || before.as_str().is_empty() {
                let mut out = "127.0.0.1:".to_owned();
                out.append(collect(&cs, i + 1, n).as_str());
                out
            } else {
                address.to_owned()
            }
        },
    }
}

/// Where requests to a controller go, or why they cannot.
pub open spec fn controller_outcome(
    raw: Option<RawView>,
    secret: Option<Seq<char>>,
    r: Result<ResolvedController, Error>,
) -> bool {
    match raw {
        None => r matches Err(e) && e is ControllerMissing,
        Some(RawView::Pipe(path)) => r matches Ok(c) && (c.host matches Host::NamedPipe(p) && p@
            == path) && spec::maybe_text(c.secret) == secret,
        Some(RawView::Unix(path)) => r matches Ok(c) && (c.host matches Host::UnixSocket(p) && p@
            == path) && spec::maybe_text(c.secret) == secret,
        Some(RawView::Http(address)) => {
            let full = host::with_scheme(probed_address(address), "http"@);
            match r {
                Ok(c) => host::host_outcome(full, Ok(c.host)) && spec::maybe_text(c.secret)
                    == secret,
                Err(Error::Api(e)) => host::host_outcome(full, Err(e)),
                Err(_) => false,
            }
        },
    }
}

/// Whether requests to a controller can go anywhere.
pub open spec fn resolvable(raw: Option<RawView>) -> bool {
    match raw {
        None => false,
        Some(RawView::Http(address)) => host::is_base(
            host::with_scheme(probed_address(address), "http"@),
        ),
        Some(_) => true,
    }
}

pub proof fn lemma_resolvable(
    raw: Option<RawView>,
    secret: Option<Seq<char>>,
    r: Result<ResolvedController, Error>,
)
    requires
        controller_outcome(raw, secret, r),
    ensures
        r is Ok <==> resolvable(raw),
{
    if let Some(RawView::Http(address)) = raw {
        let full = host::with_scheme(probed_address(address), "http"@);
        match r {
            Ok(c) => host::law_bases_are_refused_for_cause(full, Ok(c.host)),
            Err(Error::Api(e)) => host::law_bases_are_refused_for_cause(full, Err(e)),
            Err(_) => {},
        }
    }
}

pub fn resolve_controller(info: &ConfigInfo) -> (r: Result<ResolvedController, Error>)
    ensures
        controller_outcome(raw_view(info.controller), spec::maybe_text(info.secret), r),
{
    match &info.controller {
        None => Err(Error::ControllerMissing),
        Some(RawController::Pipe(path)) => Ok(
            ResolvedController {
                host: Host::named_pipe(path.clone()),
                secret: copy_text(&info.secret),
            },
        ),
        Some(RawController::Unix(path)) => Ok(
            ResolvedController {
                host: Host::unix_socket(path.clone()),
                secret: copy_text(&info.secret),
            },
        ),
        Some(RawController::Http(address)) => {
            match Host::http(probe_address(address.as_str()).as_str()) {
                Ok(host) => Ok(ResolvedController { host, secret: copy_text(&info.secret) }),
                Err(e) => Err(Error::Api(e)),
            }
        },
    }
}

/// A rewritten document names the managed endpoint and nothing else as its
/// controller.
pub proof fn law_managed_controller_is_the_only_one(
    table: Seq<(Node, Node)>,
    platform: Platform,
    endpoint: Seq<char>,
)
    requires
        endpoint.len() > 0,
    ensures
        any_controller(managed(table, platform, endpoint), platform) == Some(
            match platform {
                Platform::Windows => RawView::Pipe(endpoint),
                Platform::Unix => RawView::Unix(endpoint),
            },
        ),
        http_controller(managed(table, platform, endpoint)) is None,
{
    reveal_strlit("external-controller");
    reveal_strlit("external-controller-pipe");
    reveal_strlit("external-controller-unix");
    assert("external-controller"@.len() == 19);
    assert("external-controller-pipe"@.len() == 24);
    assert("external-controller-unix"@.len() == 24);
    let a = value::removed(table, "external-controller"@);
    let b = value::removed(a, "external-controller-pipe"@);
    let c = value::removed(b, "external-controller-unix"@);
    value::lemma_lookup_removed(table, "external-controller"@, "external-controller"@);
    value::lemma_lookup_removed(a, "external-controller-pipe"@, "external-controller"@);
    value::lemma_lookup_removed(b, "external-controller-unix"@, "external-controller"@);
    value::lemma_lookup_inserted(
        c,
        local_key(platform),
        Node::Text(endpoint),
        local_key(platform),
    );
    value::lemma_lookup_inserted(
        c,
        local_key(platform),
        Node::Text(endpoint),
        "external-controller"@,
    );
}

/// A controller is read where it stands: a local endpoint of the platform before an
/// address, and nothing where neither is given as a text that says something.
pub proof fn law_controllers_are_read_where_they_stand(table: Seq<(Node, Node)>, platform: Platform)
    ensures
        ({
            let local = value::lookup(
                table,
                match platform {
                    Platform::Windows => "external-controller-pipe"@,
                    Platform::Unix => "external-controller-unix"@,
                },
            );
            let named = local is Some && local->0.text() is Some && local->0.text()->0.len() > 0;
            let http = value::lookup(table, "external-controller"@);
            let given = http is Some && http->0.text() is Some && http->0.text()->0.len() > 0;
            &&& named && platform is Unix ==> any_controller(table, platform) == Some(
                RawView::Unix(local->0.text()->0),
            )
            &&& named && platform is Windows ==> any_controller(table, platform) == Some(
                RawView::Pipe(local->0.text()->0),
            )
            &&& !named && given ==> any_controller(table, platform) == Some(
                RawView::Http(http->0.text()->0),
            )
            &&& !named && !given ==> any_controller(table, platform) is None
            &&& given ==> http_controller(table) == Some(RawView::Http(http->0.text()->0))
            &&& !given ==> http_controller(table) is None
        }),
{
}

/// Rewriting the controller leaves everything else of a document, its secret among it.
pub proof fn law_rewriting_keeps_the_rest(
    table: Seq<(Node, Node)>,
    platform: Platform,
    endpoint: Seq<char>,
    key: Seq<char>,
)
    requires
        key != "external-controller"@,
        key != "external-controller-pipe"@,
        key != "external-controller-unix"@,
    ensures
        value::lookup(managed(table, platform, endpoint), key) == value::lookup(table, key),
{
    let a = value::removed(table, "external-controller"@);
    let b = value::removed(a, "external-controller-pipe"@);
    let c = value::removed(b, "external-controller-unix"@);
    value::lemma_lookup_removed(table, "external-controller"@, key);
    value::lemma_lookup_removed(a, "external-controller-pipe"@, key);
    value::lemma_lookup_removed(b, "external-controller-unix"@, key);
    value::lemma_lookup_inserted(c, local_key(platform), Node::Text(endpoint), key);
}

/// A local endpoint is reached under its path, an address over HTTP, each with the
/// secret of the configuration.
pub proof fn law_controllers_are_reached_where_they_are(
    raw: Option<RawView>,
    secret: Option<Seq<char>>,
    r: Result<ResolvedController, Error>,
)
    requires
        controller_outcome(raw, secret, r),
    ensures
        raw is None ==> (r matches Err(e) && e is ControllerMissing),
        raw matches Some(RawView::Pipe(path)) ==> (r matches Ok(c) && (c.host
            matches Host::NamedPipe(p) && p@ == path)),
        raw matches Some(RawView::Unix(path)) ==> (r matches Ok(c) && (c.host
            matches Host::UnixSocket(p) && p@ == path)),
        r matches Ok(c) ==> spec::maybe_text(c.secret) == secret,
        raw matches Some(RawView::Http(_)) ==> (r matches Ok(c) ==> c.host is Http) && (r
            matches Err(e) ==> e is Api),
{
}

proof fn lemma_last_colon(before: Seq<char>, port: Seq<char>, end: int)
    requires
        !port.contains(':'),
        before.len() < end <= before.len() + 1 + port.len(),
    ensures
        text::last_where(before + seq![':'] + port, end, text::is_char(':')) == before.len(),
    decreases end,
{
    let s = before + seq![':'] + port;
    if end - 1 > before.len() {
        assert(s[end - 1] == port[end - 2 - before.len()]);
        assert(port.contains(port[end - 2 - before.len()]));
        lemma_last_colon(before, port, end - 1);
    } else {
        assert(s[end - 1] == ':');
    }
}

/// A core that listens everywhere is asked on this machine, at the same port; one that
/// listens anywhere else is asked there.
pub proof fn law_wildcards_are_asked_here(before: Seq<char>, port: Seq<char>)
    requires
        !port.contains(':'),
    ensures
        before.len() == 0 || before == "0.0.0.0"@ || before == "::"@ || before == "[::]"@
            ==> probed_address(before + seq![':'] + port) == "127.0.0.1:"@ + port,
        before.len() > 0 && before != "0.0.0.0"@ && before != "::"@ && before != "[::]"@
            ==> probed_address(before + seq![':'] + port) == before + seq![':'] + port,
{
    let s = before + seq![':'] + port;
    lemma_last_colon(before, port, s.len() as int);
    assert(s.subrange(0, before.len() as int) =~= before);
    assert(s.subrange(before.len() as int + 1, s.len() as int) =~= port);
}

} // verus!
