//! Where a controller listens and how a request reaches it.

use vstd::prelude::*;
use vstd::string::*;

use crate::clash_api::error::Error;
use crate::platform::Platform;
use crate::text;
use crate::text::{
    chars, collect, contains, decode_lossy, ends_with, starts_with, str_eq,
    u64_to_string,
};

verus! {

/// Core version information returned by `GET /version`.
#[derive(Debug, Clone, PartialEq, Eq)]
pub struct Version {
    pub meta: bool,
    pub version: String,
    pub premium: Option<bool>,
}

/// A URL, in full and by its parts. `known_port` is the port that is written or
/// else that of the scheme; `opaque` says that no relative reference can be
/// resolved against it.
#[derive(Debug, PartialEq, Eq)]
pub struct Url {
    pub text: String,
    pub scheme: String,
    pub host: Option<String>,
    pub port: Option<u16>,
    pub known_port: Option<u16>,
    pub path: String,
    pub query: Option<String>,
    pub fragment: Option<String>,
    pub opaque: bool,
}

pub ghost struct UrlView {
    pub text: Seq<char>,
    pub scheme: Seq<char>,
    pub host: Option<Seq<char>>,
    pub port: Option<u16>,
    pub known_port: Option<u16>,
    pub path: Seq<char>,
    pub query: Option<Seq<char>>,
    pub fragment: Option<Seq<char>>,
    pub opaque: bool,
}

pub open spec fn maybe(s: Option<String>) -> Option<Seq<char>> {
    match s {
        Some(s) => Some(s@),
        None => None,
    }
}

impl View for Url {
    type V = UrlView;

    open spec fn view(&self) -> UrlView {
        UrlView {
            text: self.text@,
            scheme: self.scheme@,
            host: maybe(self.host),
            port: self.port,
            known_port: self.known_port,
            path: self.path@,
            query: maybe(self.query),
            fragment: maybe(self.fragment),
            opaque: self.opaque,
        }
    }
}

fn copy_maybe(s: &Option<String>) -> (r: Option<String>)
    ensures
        r == *s,
{
    match s {
        Some(s) => Some(s.clone()),
        None => None,
    }
}

fn same_maybe(a: &Option<String>, b: &Option<String>) -> (r: bool)
    ensures
        r == (maybe(*a) == maybe(*b)),
{
    match (a, b) {
        (Some(a), Some(b)) => str_eq(a.as_str(), b.as_str()),
        (None, None) => true,
        _ => false,
    }
}

impl Url {
    pub fn copy(&self) -> (r: Url)
        ensures
            r == *self,
    {
        Url {
            text: self.text.clone(),
            scheme: self.scheme.clone(),
            host: copy_maybe(&self.host),
            port: self.port,
            known_port: self.known_port,
            path: self.path.clone(),
            query: copy_maybe(&self.query),
            fragment: copy_maybe(&self.fragment),
            opaque: self.opaque,
        }
    }

    pub fn same(&self, other: &Url) -> (r: bool)
        ensures
            r == (self@ == other@),
    {
        str_eq(self.text.as_str(), other.text.as_str()) && str_eq(
            self.scheme.as_str(),
            other.scheme.as_str(),
        ) && same_maybe(&self.host, &other.host) && self.port == other.port && self.known_port
            == other.known_port && str_eq(self.path.as_str(), other.path.as_str()) && same_maybe(
            &self.query,
            &other.query,
        ) && same_maybe(&self.fragment, &other.fragment) && self.opaque == other.opaque
    }
}

/// What an absolute URL is read as.
pub uninterp spec fn parsed_url(text: Seq<char>) -> Result<UrlView, Seq<char>>;

/// `url::Url::parse` with the accessors of `url::Url`: the URL that the text
/// stands for, or the words of the error. The result is named after the text.
/// The path of an HTTP URL without query and fragment whose text ends in a slash
/// ends in a slash.
#[verifier::external_body]
pub(crate) fn parse_url(value: &str) -> (r: Result<Url, String>)
    ensures
        match r {
            Ok(u) => parsed_url(value@) == Ok::<UrlView, Seq<char>>(u@),
            Err(e) => parsed_url(value@) == Err::<UrlView, Seq<char>>(e@),
        },
        r matches Ok(u) ==> (text::has_suffix(value@, seq!['/']) && plain_base(u@)
            ==> text::has_suffix(u.path@, seq!['/'])),
{
    let u = url::Url::parse(value).map_err(|e| e.to_string())?;
    Ok(Url {
        text: u.as_str().to_owned(),
        scheme: u.scheme().to_owned(),
        host: u.host_str().map(|s| s.to_owned()),
        port: u.port(),
        known_port: u.port_or_known_default(),
        path: u.path().to_owned(),
        query: u.query().map(|s| s.to_owned()),
        fragment: u.fragment().map(|s| s.to_owned()),
        opaque: u.cannot_be_a_base(),
    })
}

/// What a reference stands for against an absolute URL.
pub uninterp spec fn joined_url(base: Seq<char>, reference: Seq<char>) -> Result<
    UrlView,
    Seq<char>,
>;

/// `url::Url::join` on a parsed base, with the accessors of `url::Url`: the URL
/// that the reference stands for, or the words of the error of either call. The
/// result is named after both texts.
#[verifier::external_body]
pub(crate) fn join_url(base: &str, reference: &str) -> (r: Result<Url, String>)
    ensures
        match r {
            Ok(u) => joined_url(base@, reference@) == Ok::<UrlView, Seq<char>>(u@),
            Err(e) => joined_url(base@, reference@) == Err::<UrlView, Seq<char>>(e@),
        },
{
    let u = url::Url::parse(base).and_then(|b| b.join(reference)).map_err(|e| e.to_string())?;
    Ok(Url {
        text: u.as_str().to_owned(),
        scheme: u.scheme().to_owned(),
        host: u.host_str().map(|s| s.to_owned()),
        port: u.port(),
        known_port: u.port_or_known_default(),
        path: u.path().to_owned(),
        query: u.query().map(|s| s.to_owned()),
        fragment: u.fragment().map(|s| s.to_owned()),
        opaque: u.cannot_be_a_base(),
    })
}

pub open spec fn web_scheme(scheme: Seq<char>) -> bool {
    scheme == "http"@ || scheme == "https"@
}

/// A web URL with neither query nor fragment, against which references can be
/// resolved.
pub open spec fn plain_base(u: UrlView) -> bool {
    web_scheme(u.scheme) && !u.opaque && u.query is None && u.fragment is None
}

/// A base URL as a client keeps it: a path below it is appended, never put in the
/// place of its last segment.
pub open spec fn normalized(u: UrlView) -> bool {
    plain_base(u) && text::has_suffix(u.path, seq!['/'])
}

/// Why a URL is no base URL, if it is none.
pub open spec fn base_refusal(u: UrlView, e: Error) -> bool {
    if !web_scheme(u.scheme) {
        e matches Error::UnsupportedUrlScheme { scheme } && scheme@ == u.scheme
    } else if u.opaque {
        e matches Error::UrlCannotBeABase { url } && url@ == u.text
    } else {
        e matches Error::BaseUrlHasQueryOrFragment { url } && url@ == u.text
    }
}

fn check_base(u: &Url) -> (r: Result<(), Error>)
    ensures
        match r {
            Ok(()) => plain_base(u@),
            Err(e) => !plain_base(u@) && base_refusal(u@, e),
        },
{
    if !str_eq(u.scheme.as_str(), "http") && !str_eq(u.scheme.as_str(), "https") {
        return Err(Error::UnsupportedUrlScheme { scheme: u.scheme.clone() });
    }
    if u.opaque {
        return Err(Error::UrlCannotBeABase { url: u.text.clone() });
    }
    if u.query.is_some() || u.fragment.is_some() {
        return Err(Error::BaseUrlHasQueryOrFragment { url: u.text.clone() });
    }
    Ok(())
}

/// What a URL that was written in full becomes: itself, or with a slash at the
/// end of its path.
pub open spec fn base_outcome(
    value: Seq<char>,
    first: Result<UrlView, Seq<char>>,
    second: Result<UrlView, Seq<char>>,
    r: Result<UrlView, Error>,
) -> bool {
    match first {
        Err(words) => r matches Err(Error::InvalidBaseUrl { value: shown, source }) && shown@
            == value && source@ == words,
        Ok(u) => if !plain_base(u) {
            r matches Err(e) && base_refusal(u, e)
        } else if text::has_suffix(u.path, seq!['/']) {
            r == Ok::<UrlView, Error>(u)
        } else {
            match second {
                Err(words) => r matches Err(Error::InvalidBaseUrl { value: shown, source })
                    && shown@ == u.text + seq!['/'] && source@ == words,
                Ok(v) => if plain_base(v) {
                    r == Ok::<UrlView, Error>(v)
                } else {
                    r matches Err(e) && base_refusal(v, e)
                },
            }
        },
    }
}

/// How the text of a URL is read once a slash is put behind it.
pub open spec fn slashed(first: Result<UrlView, Seq<char>>) -> Result<UrlView, Seq<char>> {
    match first {
        Ok(u) => parsed_url(u.text + seq!['/']),
        Err(words) => Err(words),
    }
}

pub open spec fn url_result(r: Result<Url, Error>) -> Result<UrlView, Error> {
    match r {
        Ok(u) => Ok(u@),
        Err(e) => Err(e),
    }
}

/// What is kept of a base URL: `first` is how it reads as written, `second` how it
/// reads with a slash behind it.
pub fn choose_base(value: &str, first: Result<Url, String>, second: Result<Url, String>) -> (r:
    Result<Url, Error>)
    ensures
        base_outcome(value@, read(first), read(second), url_result(r)),
{
    match first {
        Err(source) => Err(Error::InvalidBaseUrl { value: value.to_owned(), source }),
        Ok(u) => {
            check_base(&u)?;
            proof {
                reveal_strlit("/");
                assert("/"@ =~= seq!['/']);
            }
            if ends_with(u.path.as_str(), "/") {
                return Ok(u);
            }
            match second {
                Err(source) => {
                    let mut value = u.text.clone();
                    value.push('/');
                    assert(value@ =~= u.text@ + seq!['/']);
                    Err(Error::InvalidBaseUrl { value, source })
                },
                Ok(v) => {
                    check_base(&v)?;
                    Ok(v)
                },
            }
        },
    }
}

pub open spec fn read(r: Result<Url, String>) -> Result<UrlView, Seq<char>> {
    match r {
        Ok(u) => Ok(u@),
        Err(e) => Err(e@),
    }
}

fn parse_complete_url(value: &str) -> (r: Result<Url, Error>)
    ensures
        base_outcome(
            value@,
            parsed_url(value@),
            slashed(parsed_url(value@)),
            url_result(r),
        ),
        r matches Ok(u) ==> normalized(u@),
{
    let first = parse_url(value);
    let second = match &first {
        Ok(u) => {
            let mut longer = u.text.clone();
            longer.push('/');
            assert(longer@ =~= u.text@ + seq!['/']);
            let second = parse_url(longer.as_str());
            assert(text::has_suffix(longer@, seq!['/'])) by {
                assert(longer@.subrange(longer@.len() - 1, longer@.len() as int) =~= seq!['/']);
            }
            second
        },
        Err(words) => Err(words.clone()),
    };
    choose_base(value, first, second)
}

/// The transport used to connect to the controller.
#[derive(Debug, PartialEq, Eq)]
#[non_exhaustive]
pub enum Host {
    NamedPipe(String),
    UnixSocket(String),
    Http(Url),
}

/// More descriptive alias for `Host`.
pub type ControllerEndpoint = Host;

/// The text of an endpoint that may leave its scheme to the caller.
pub open spec fn with_scheme(value: Seq<char>, scheme: Seq<char>) -> Seq<char> {
    if text::contains_sub(value, "://"@) {
        value
    } else {
        scheme + "://"@ + value
    }
}

/// An endpoint made of a base URL that was written as `value`.
pub open spec fn host_outcome(value: Seq<char>, r: Result<Host, Error>) -> bool {
    match r {
        Ok(Host::Http(u)) => normalized(u@) && base_outcome(
            value,
            parsed_url(value),
            slashed(parsed_url(value)),
            Ok(u@),
        ),
        Ok(_) => false,
        Err(e) => base_outcome(value, parsed_url(value), slashed(parsed_url(value)), Err(e)),
    }
}

fn http_host(value: &str) -> (r: Result<Host, Error>)
    ensures
        host_outcome(value@, r),
{
    match parse_complete_url(value) {
        Ok(u) => Ok(Host::Http(u)),
        Err(e) => Err(e),
    }
}

fn parse_controller_url(value: &str, default_scheme: &str) -> (r: Result<Host, Error>)
    ensures
        host_outcome(with_scheme(value@, default_scheme@), r),
{
    if contains(value, "://") {
        return http_host(value);
    }
    let mut full = default_scheme.to_owned();
    full.append("://");
    full.append(value);
    http_host(full.as_str())
}

impl Host {
    pub fn named_pipe(path: String) -> (r: Host)
        ensures
            r == Host::NamedPipe(path),
    {
        Host::NamedPipe(path)
    }

    pub fn unix_socket(path: String) -> (r: Host)
        ensures
            r == Host::UnixSocket(path),
    {
        Host::UnixSocket(path)
    }

    /// Construct an HTTP endpoint from either host:port or a complete URL.
    pub fn http(base_url: &str) -> (r: Result<Host, Error>)
        ensures
            host_outcome(with_scheme(base_url@, "http"@), r),
    {
        parse_controller_url(base_url, "http")
    }

    /// Parse an HTTPS controller endpoint. Requests to it are refused.
    pub fn https(base_url: &str) -> (r: Result<Host, Error>)
        ensures
            host_outcome(with_scheme(base_url@, "https"@), r),
    {
        parse_controller_url(base_url, "https")
    }

    /// Construct an endpoint from a complete HTTP(S) URL.
    pub fn url(base_url: &str) -> (r: Result<Host, Error>)
        ensures
            host_outcome(base_url@, r),
    {
        http_host(base_url)
    }
}

/// A text that a base URL can be made of.
pub open spec fn is_base(value: Seq<char>) -> bool {
    match parsed_url(value) {
        Err(_) => false,
        Ok(u) => plain_base(u) && (text::has_suffix(u.path, seq!['/']) || (match parsed_url(
            u.text + seq!['/'],
        ) {
            Ok(v) => plain_base(v),
            Err(_) => false,
        })),
    }
}

/// A base URL is refused exactly where none can be made of the text.
pub proof fn law_bases_are_refused_for_cause(value: Seq<char>, r: Result<Host, Error>)
    requires
        host_outcome(value, r),
    ensures
        r is Ok <==> is_base(value),
{
}

pub ghost enum HostView {
    NamedPipe(Seq<char>),
    UnixSocket(Seq<char>),
    Http(UrlView),
}

impl View for Host {
    type V = HostView;

    open spec fn view(&self) -> HostView {
        match self {
            Host::NamedPipe(path) => HostView::NamedPipe(path@),
            Host::UnixSocket(path) => HostView::UnixSocket(path@),
            Host::Http(u) => HostView::Http(u@),
        }
    }
}

impl Host {
    pub fn copy(&self) -> (r: Host)
        ensures
            r == *self,
    {
        match self {
            Host::NamedPipe(path) => Host::NamedPipe(path.clone()),
            Host::UnixSocket(path) => Host::UnixSocket(path.clone()),
            Host::Http(u) => Host::Http(u.copy()),
        }
    }

    pub fn same(&self, other: &Host) -> (r: bool)
        ensures
            r == (self@ == other@),
    {
        match (self, other) {
            (Host::NamedPipe(a), Host::NamedPipe(b)) => str_eq(a.as_str(), b.as_str()),
            (Host::UnixSocket(a), Host::UnixSocket(b)) => str_eq(a.as_str(), b.as_str()),
            (Host::Http(a), Host::Http(b)) => a.same(b),
            _ => false,
        }
    }
}

/// A base URL that a client keeps is a web URL without query and fragment whose
/// path ends in a slash.
pub proof fn law_bases_are_normalized(value: Seq<char>, r: Result<Host, Error>)
    requires
        host_outcome(value, r),
        r is Ok,
    ensures
        r matches Ok(Host::Http(u)) && normalized(u@),
{
}

/// Controller secret. It is never printed.
#[derive(Clone, PartialEq, Eq)]
pub struct Secret(String);

/// A header value may hold a tab and everything but control characters.
pub open spec fn header_safe(s: Seq<char>) -> bool {
    forall|i: int| 0 <= i < s.len() ==> header_char(#[trigger] s[i])
}

pub open spec fn header_char(c: char) -> bool {
    c == '\t' || (c as u32 >= 32 && c as u32 != 127)
}

/// `hyper::header::HeaderValue::from_str`: whether the text can be the value of a
/// header. It can unless it holds a control character other than a tab.
#[verifier::external_body]
fn header_accepts(value: &str) -> (r: bool)
    ensures
        r == header_safe(value@),
{
    hyper::header::HeaderValue::from_str(value).is_ok()
}

impl Secret {
    pub closed spec fn view(&self) -> Seq<char> {
        self.0@
    }

    pub fn new(value: &str) -> (r: Secret)
        ensures
            r@ == value@,
    {
        Secret(value.to_owned())
    }

    pub fn is_empty(&self) -> (r: bool)
        ensures
            r == (self@.len() == 0),
    {
        self.0.as_str().is_empty()
    }

    /// The authorization that a request carries: none without a secret.
    pub fn authorization_value(&self) -> (r: Result<Option<String>, Error>)
        ensures
            match r {
                Ok(None) => self@.len() == 0,
                Ok(Some(value)) => self@.len() > 0 && header_safe(self@) && value@ == "Bearer "@
                    + self@,
                Err(e) => self@.len() > 0 && !header_safe(self@) && e is InvalidHeader,
            },
    {
        if self.is_empty() {
            return Ok(None);
        }
        let mut value = "Bearer ".to_owned();
        value.append(self.0.as_str());
        proof {
            reveal_strlit("Bearer ");
            let bearer = "Bearer "@;
            assert forall|i: int| 0 <= i < self@.len() implies self@[i] == value@[i
                + bearer.len()] by {}
            if header_safe(value@) {
                assert forall|i: int| 0 <= i < self@.len() implies header_char(
                    #[trigger] self@[i],
                ) by {
                    assert(header_char(value@[i + bearer.len()]));
                }
            }
        }
        if header_accepts(value.as_str()) {
            Ok(Some(value))
        } else {
            Err(Error::InvalidHeader)
        }
    }

    /// What stands for the secret wherever it would be printed.
    pub fn debug_text(&self) -> (r: &'static str)
        ensures
            r@ == "Secret([REDACTED])"@,
    {
        "Secret([REDACTED])"
    }
}

impl Default for Secret {
    fn default() -> (r: Secret)
        ensures
            r@.len() == 0,
    {
        Secret(String::new())
    }
}

impl From<String> for Secret {
    fn from(value: String) -> (r: Secret) {
        Secret(value)
    }
}

impl vstd::std_specs::convert::FromSpecImpl<String> for Secret {
    open spec fn obeys_from_spec() -> bool {
        true
    }

    closed spec fn from_spec(value: String) -> Secret {
        Secret(value)
    }
}

/// A secret that is wrapped is kept as it is.
pub proof fn law_secret_keeps_its_value(value: String)
    ensures
        <Secret as vstd::std_specs::convert::FromSpec<String>>::from_spec(value)@ == value@,
{
}

#[derive(Debug, Clone, Copy, PartialEq, Eq, Structural)]
pub enum Method {
    Get,
    Put,
    Patch,
    Delete,
}

/// Where a request is sent.
#[derive(Debug, PartialEq, Eq)]
pub enum Route {
    Tcp { host: String, port: u16 },
    Local { endpoint: String },
}

/// What goes before the body of a request.
#[derive(Debug, PartialEq, Eq)]
pub struct RequestHead {
    pub method: Method,
    pub target: String,
    pub authority: String,
    pub authorization: Option<String>,
    pub content_type: Option<String>,
}

/// The name of a pipe in the namespace of pipes.
pub open spec fn pipe_name(raw: Seq<char>) -> Seq<char> {
    if text::has_prefix(raw, "\\\\.\\pipe\\"@) {
        raw
    } else {
        "\\\\.\\pipe\\"@ + raw
    }
}

/// Where the requests to an endpoint go on a platform, or why they cannot.
pub open spec fn route_outcome(host: Host, platform: Platform, r: Result<Route, Error>) -> bool {
    match host {
        Host::NamedPipe(path) => if platform is Windows {
            r matches Ok(Route::Local { endpoint }) && endpoint@ == pipe_name(path@)
        } else {
            r matches Err(Error::UnsupportedTransport { transport }) && transport@
                == "named pipe"@
        },
        Host::UnixSocket(path) => if platform is Unix {
            r matches Ok(Route::Local { endpoint }) && endpoint@ == path@
        } else {
            r matches Err(Error::UnsupportedTransport { transport }) && transport@
                == "unix socket"@
        },
        Host::Http(base) => if base.scheme@ != "http"@ {
            r matches Err(Error::UnsupportedTransport { transport }) && transport@ == "https"@
        } else {
            match (base.host, base.known_port) {
                (None, _) => r matches Err(Error::MissingHost { url }) && url@ == base.text@,
                (Some(_), None) => r matches Err(Error::MissingPort { url }) && url@
                    == base.text@,
                (Some(h), Some(p)) => r matches Ok(Route::Tcp { host, port }) && host@ == h@
                    && port == p,
            }
        },
    }
}

/// A text without the slashes it begins with.
pub open spec fn without_slashes(s: Seq<char>) -> Seq<char> {
    s.subrange(text::first_where(s, 0, not_slash()), s.len() as int)
}

pub open spec fn not_slash() -> spec_fn(char) -> bool {
    |c: char| c != '/'
}

fn trim_slashes(s: &str) -> (r: String)
    ensures
        r@ == without_slashes(s@),
{
    let cs = chars(s);
    let n: usize = cs.len();
    let mut i: usize = 0;
    while i < n && cs[i] == '/'
        invariant
            n == cs@.len(),
            cs@ == s@,
            i <= n,
            forall|j: int| 0 <= j < i ==> s@[j] == '/',
        decreases n - i,
    {
        i += 1;
    }
    proof {
        text::lemma_first_where(s@, 0, not_slash(), i as int);
    }
    collect(&cs, i, n)
}

/// The request target that a URL asks for.
pub open spec fn target_of(u: UrlView) -> Seq<char> {
    match u.query {
        Some(query) => u.path + "?"@ + query,
        None => u.path,
    }
}

/// The authority that a URL names, with `host` where it names none.
pub open spec fn authority_of(u: UrlView, host: Seq<char>) -> Seq<char> {
    let name = match u.host {
        Some(name) => name,
        None => host,
    };
    match u.port {
        Some(port) => name + ":"@ + text::decimal(port as nat),
        None => name,
    }
}

/// The target and the authority of a request whose URL, resolved against the
/// base, reads as `resolved`.
pub open spec fn target_outcome(
    base: UrlView,
    host: Seq<char>,
    resolved: Result<UrlView, Seq<char>>,
    r: Result<(String, String), Error>,
) -> bool {
    match resolved {
        Err(words) => r matches Err(Error::InvalidBaseUrl { value, source }) && value@ == base.text
            && source@ == words,
        Ok(u) => r matches Ok((target, authority)) && target@ == target_of(u) && authority@
            == authority_of(u, host),
    }
}

pub fn target_from(base: &Url, host: &str, resolved: Result<Url, String>) -> (r: Result<
    (String, String),
    Error,
>)
    ensures
        target_outcome(base@, host@, read(resolved), r),
{
    match resolved {
        Err(source) => Err(Error::InvalidBaseUrl { value: base.text.clone(), source }),
        Ok(u) => {
            let mut target = u.path.clone();
            if let Some(query) = &u.query {
                target.append("?");
                target.append(query.as_str());
            }
            let mut authority = match &u.host {
                Some(name) => name.clone(),
                None => host.to_owned(),
            };
            if let Some(port) = u.port {
                authority.append(":");
                authority.append(u64_to_string(port as u64).as_str());
            }
            Ok((target, authority))
        },
    }
}

/// The target and the authority of a request to `path_and_query` below a base
/// URL.
pub fn http_target(base: &Url, host: &str, path_and_query: &str) -> (r: Result<
    (String, String),
    Error,
>)
    ensures
        target_outcome(
            base@,
            host@,
            joined_url(base.text@, without_slashes(path_and_query@)),
            r,
        ),
{
    let reference = trim_slashes(path_and_query);
    let resolved = join_url(base.text.as_str(), reference.as_str());
    target_from(base, host, resolved)
}

/// A path with a query behind it, if there is one.
pub open spec fn queried(path: Seq<char>, query: Seq<char>) -> Seq<char> {
    if query.len() == 0 {
        path
    } else {
        path + "?"@ + query
    }
}

pub fn query_target(path: &str, query: &str) -> (r: String)
    ensures
        r@ == queried(path@, query@),
{
    let mut target = path.to_owned();
    if !query.is_empty() {
        target.append("?");
        target.append(query);
    }
    target
}

/// What a response means: its body, or an error that shows it.
pub open spec fn response_outcome(status: u16, body: Seq<u8>, r: Result<Vec<u8>, Error>) -> bool {
    if 200 <= status < 300 {
        r matches Ok(bytes) && bytes@ == body
    } else {
        r matches Err(Error::HttpStatus { status: shown, body: words }) && shown == status
            && words@ == text::lossy_text(body)
    }
}

pub fn response_result(status: u16, body: Vec<u8>) -> (r: Result<Vec<u8>, Error>)
    ensures
        response_outcome(status, body@, r),
{
    if status < 200 || status >= 300 {
        return Err(Error::HttpStatus { status, body: decode_lossy(body.as_slice()) });
    }
    Ok(body)
}

/// Small transport-aware controller client.
pub struct Client {
    host: Host,
    secret: Secret,
}

impl Client {
    pub closed spec fn endpoint(&self) -> Host {
        self.host
    }

    pub closed spec fn key(&self) -> Seq<char> {
        self.secret@
    }

    pub fn new(host: Host) -> (r: Client)
        ensures
            r.endpoint() == host,
            r.key().len() == 0,
    {
        Client { host, secret: Secret::default() }
    }

    pub fn with_secret(host: Host, secret: Secret) -> (r: Client)
        ensures
            r.endpoint() == host,
            r.key() == secret@,
    {
        Client { host, secret }
    }

    pub fn host(&self) -> (r: &Host)
        ensures
            *r == self.endpoint(),
    {
        &self.host
    }

    /// Where a request goes on a platform.
    pub fn route(&self, platform: Platform) -> (r: Result<Route, Error>)
        ensures
            route_outcome(self.endpoint(), platform, r),
    {
        match &self.host {
            Host::NamedPipe(path) => {
                if let Platform::Windows = platform {
                    if starts_with(path.as_str(), "\\\\.\\pipe\\") {
                        return Ok(Route::Local { endpoint: path.clone() });
                    }
                    let mut endpoint = "\\\\.\\pipe\\".to_owned();
                    endpoint.append(path.as_str());
                    Ok(Route::Local { endpoint })
                } else {
                    Err(Error::UnsupportedTransport { transport: "named pipe".to_owned() })
                }
            },
            Host::UnixSocket(path) => {
                if let Platform::Unix = platform {
                    Ok(Route::Local { endpoint: path.clone() })
                } else {
                    Err(Error::UnsupportedTransport { transport: "unix socket".to_owned() })
                }
            },
            Host::Http(base) => {
                if !str_eq(base.scheme.as_str(), "http") {
                    return Err(Error::UnsupportedTransport { transport: "https".to_owned() });
                }
                match (&base.host, base.known_port) {
                    (None, _) => Err(Error::MissingHost { url: base.text.clone() }),
                    (Some(_), None) => Err(Error::MissingPort { url: base.text.clone() }),
                    (Some(host), Some(port)) => Ok(Route::Tcp { host: host.clone(), port }),
                }
            },
        }
    }

    /// What goes before the body of a request. Only a request with a body says
    /// what the body is.
    pub fn head(&self, method: Method, target: String, authority: String, has_body: bool) -> (r:
        Result<RequestHead, Error>)
        ensures
            match r {
                Ok(head) => {
                    &&& self.key().len() == 0 || header_safe(self.key())
                    &&& head.method == method
                    &&& head.target == target
                    &&& head.authority == authority
                    &&& maybe(head.authorization) == (if self.key().len() == 0 {
                        None::<Seq<char>>
                    } else {
                        Some("Bearer "@ + self.key())
                    })
                    &&& maybe(head.content_type) == (if has_body {
                        Some("application/json"@)
                    } else {
                        None::<Seq<char>>
                    })
                },
                Err(e) => self.key().len() > 0 && !header_safe(self.key()) && e is InvalidHeader,
            },
    {
        let authorization = self.secret.authorization_value()?;
        let content_type = if has_body {
            Some("application/json".to_owned())
        } else {
            None
        };
        Ok(RequestHead { method, target, authority, authorization, content_type })
    }
}

/// A response is taken exactly where its status is one of success; then its body is,
/// unchanged. Otherwise its status is told.
pub proof fn law_responses_count_by_their_status(status: u16, body: Seq<u8>, r: Result<Vec<u8>, Error>)
    requires
        response_outcome(status, body, r),
    ensures
        r is Ok <==> status / 100 == 2,
        r matches Ok(bytes) ==> bytes@ == body,
        r matches Err(e) ==> (e matches Error::HttpStatus { status: shown, body: words } && shown
            == status && words@ == text::lossy_text(body)),
{
}

/// A request goes where its endpoint is: over TCP to the host and port of a plain HTTP
/// URL, and to a local endpoint on the platform that has it. Nothing else is reached.
pub proof fn law_requests_go_to_their_endpoint(
    host: Host,
    platform: Platform,
    r: Result<Route, Error>,
)
    requires
        route_outcome(host, platform, r),
    ensures
        host matches Host::Http(u) ==> (r is Ok <==> u.scheme@ == "http"@ && u.host is Some
            && u.known_port is Some),
        host matches Host::Http(u) ==> (r matches Ok(route) ==> (
        route matches Route::Tcp { host: h, port } && h@ == u.host->0@ && port
            == u.known_port->0)),
        host matches Host::UnixSocket(path) ==> (r is Ok <==> platform is Unix),
        host matches Host::UnixSocket(path) ==> (r matches Ok(route) ==> (
        route matches Route::Local { endpoint } && endpoint@ == path@)),
        host matches Host::NamedPipe(path) ==> (r is Ok <==> platform is Windows),
        host matches Host::NamedPipe(path) ==> (r matches Ok(route) ==> (
        route matches Route::Local { endpoint } && text::has_suffix(endpoint@, path@)
            && text::has_prefix(endpoint@, "\\\\.\\pipe\\"@))),
{
    if let Host::NamedPipe(path) = host {
        law_pipes_are_named_once(path@);
    }
}

/// The name of a pipe lies in the namespace of pipes and ends as it was written, and
/// naming it again changes nothing.
pub proof fn law_pipes_are_named_once(raw: Seq<char>)
    ensures
        text::has_prefix(pipe_name(raw), "\\\\.\\pipe\\"@),
        text::has_suffix(pipe_name(raw), raw),
        pipe_name(pipe_name(raw)) == pipe_name(raw),
        text::has_prefix(raw, "\\\\.\\pipe\\"@) ==> pipe_name(raw) == raw,
{
    let space = "\\\\.\\pipe\\"@;
    let named = space + raw;
    assert(named.subrange(0, space.len() as int) =~= space);
    assert(named.subrange(named.len() - raw.len(), named.len() - raw.len() + raw.len()) =~= raw);
    assert(raw.subrange(raw.len() - raw.len(), raw.len() - raw.len() + raw.len()) =~= raw);
}

/// A path below a base URL loses the slashes that it begins with, and nothing else.
pub proof fn law_leading_slashes_are_dropped(s: Seq<char>)
    ensures
        ({
            let rest = without_slashes(s);
            &&& rest.len() <= s.len()
            &&& rest == s.skip(s.len() - rest.len())
            &&& rest.len() > 0 ==> rest[0] != '/'
            &&& forall|i: int| 0 <= i < s.len() - rest.len() ==> #[trigger] s[i] == '/'
        }),
{
    text::lemma_first_where_bounds(s, 0, not_slash());
    let n = text::first_where(s, 0, not_slash());
    assert(s.subrange(n, s.len() as int) =~= s.skip(n));
    assert forall|i: int| 0 <= i < n implies #[trigger] s[i] == '/' by {
        assert(!not_slash()(s[i]));
    }
}

/// A query stands behind a path and a question mark, and an empty one leaves the path
/// as it is.
pub proof fn law_queries_follow_their_path(path: Seq<char>, query: Seq<char>)
    ensures
        query.len() == 0 ==> queried(path, query) == path,
        query.len() > 0 ==> queried(path, query) == path + seq!['?'] + query,
{
    reveal_strlit("?");
    assert("?"@ =~= seq!['?']);
}

/// The target of a request is the path of its URL with the query, and its authority
/// the host that the URL names, with the port where one is written.
pub proof fn law_targets_are_those_of_the_url(u: UrlView, host: Seq<char>)
    ensures
        u.query is None ==> target_of(u) == u.path,
        u.query matches Some(query) ==> target_of(u) == u.path + seq!['?'] + query,
        u.host matches Some(name) ==> (u.port is None ==> authority_of(u, host) == name),
        u.host is None && u.port is None ==> authority_of(u, host) == host,
        u.host matches Some(name) ==> (u.port matches Some(port) ==> authority_of(u, host) == name
            + seq![':'] + text::decimal(port as nat)),
{
    reveal_strlit("?");
    reveal_strlit(":");
    assert("?"@ =~= seq!['?']);
    assert(":"@ =~= seq![':']);
}

/// A scheme is put before an endpoint that has none; afterwards it has one.
pub proof fn law_schemes_are_added_once(value: Seq<char>, scheme: Seq<char>, other: Seq<char>)
    ensures
        text::contains_sub(value, "://"@) ==> with_scheme(value, scheme) == value,
        !text::contains_sub(value, "://"@) ==> with_scheme(value, scheme) == scheme + "://"@
            + value,
        with_scheme(with_scheme(value, scheme), other) == with_scheme(value, scheme),
{
    let whole = scheme + "://"@ + value;
    let n = scheme.len() as int;
    assert(whole.subrange(n, n + "://"@.len()) =~= "://"@);
    assert(text::matches_at(whole, "://"@, n));
    text::lemma_find_sub_bounds(whole, "://"@, 0);
}

/// A header takes what holds no control character but tabs.
pub proof fn law_headers_take_no_control_characters(s: Seq<char>)
    ensures
        header_safe(s) <==> forall|i: int|
            0 <= i < s.len() ==> #[trigger] s[i] == '\t' || (s[i] as u32 >= 32 && s[i] as u32
                != 127),
{
    if header_safe(s) {
        assert forall|i: int| 0 <= i < s.len() implies #[trigger] s[i] == '\t' || (s[i] as u32
            >= 32 && s[i] as u32 != 127) by {
            assert(header_char(s[i]));
        }
    }
}

/// The target of a request is that of the URL that its path stands for below the base;
/// where it stands for none, the base is told with the reason.
pub proof fn law_targets_need_a_url(
    base: UrlView,
    host: Seq<char>,
    resolved: Result<UrlView, Seq<char>>,
    r: Result<(String, String), Error>,
)
    requires
        target_outcome(base, host, resolved, r),
    ensures
        r is Ok <==> resolved is Ok,
        resolved matches Ok(u) ==> (r matches Ok((target, authority)) && (u.query is None
            ==> target@ == u.path) && (u.host is Some && u.port is None ==> authority@
            == u.host->0)),
        resolved matches Err(words) ==> (r matches Err(Error::InvalidBaseUrl { value, source })
            && value@ == base.text && source@ == words),
{
}

} // verus!
