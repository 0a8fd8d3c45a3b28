//! Where the local endpoint of an epoch lies.

use vstd::prelude::*;
use vstd::string::*;

use crate::error::Error;
use crate::path;
use crate::path::{file_name, is_absolute, is_plain_name, join, lies_in, parent};
use crate::platform::Platform;
use crate::text;
use crate::text::{contains, ends_with, replace, strip_prefix, trim, u64_to_string};

verus! {

/// A template with the number of the epoch in it.
pub open spec fn filled(template: Seq<char>, epoch: u64) -> Seq<char> {
    text::replaced(template, "{epoch}"@, text::decimal(epoch as nat), 0)
}

pub open spec fn names_epoch(template: Seq<char>) -> bool {
    text::contains_sub(template, "{epoch}"@)
}

fn fill(template: &str, epoch: u64) -> (r: String)
    ensures
        r@ == filled(template@, epoch),
{
    proof {
        reveal_strlit("{epoch}");
    }
    replace(template, "{epoch}", u64_to_string(epoch).as_str())
}

/// A template that every epoch gets an endpoint of its own from.
pub open spec fn template_outcome(template: Seq<char>, r: Result<(), Error>) -> bool {
    if !names_epoch(template) {
        r matches Err(Error::InvalidManagerOptions(m)) && m@
            == "controller_template must contain `{epoch}`"@
    } else if text::trimmed(filled(template, 0)).len() == 0 {
        r matches Err(Error::InvalidManagerOptions(m)) && m@
            == "controller_template resolves to an empty endpoint"@
    } else {
        r is Ok
    }
}

pub fn validate_controller_template(template: &str) -> (r: Result<(), Error>)
    ensures
        template_outcome(template@, r),
{
    if !contains(template, "{epoch}") {
        return Err(
            Error::InvalidManagerOptions(
                "controller_template must contain `{epoch}`".to_owned(),
            ),
        );
    }
    if trim(fill(template, 0).as_str()).as_str().is_empty() {
        return Err(
            Error::InvalidManagerOptions(
                "controller_template resolves to an empty endpoint".to_owned(),
            ),
        );
    }
    Ok(())
}

/// An endpoint, or what has to be looked up before it is known.
#[derive(Debug, PartialEq, Eq)]
pub enum EndpointPlan {
    Ready(String),
    /// A socket whose directory has to be canonicalized.
    Socket { candidate: String, parent: String },
}

/// The name of the socket of an epoch.
pub open spec fn socket_name(epoch: u64) -> Seq<char> {
    "core-"@ + text::decimal(epoch as nat) + ".sock"@
}

fn socket_file(epoch: u64) -> (r: String)
    ensures
        r@ == socket_name(epoch),
{
    let mut out = "core-".to_owned();
    out.append(u64_to_string(epoch).as_str());
    out.append(".sock");
    out
}

/// Where the endpoint of an epoch is put: as the template says, or else in the
/// platform's usual place.
pub open spec fn plan_outcome(
    platform: Platform,
    runtime_dir: Seq<char>,
    template: Option<&str>,
    epoch: u64,
    r: Result<EndpointPlan, Error>,
) -> bool {
    match template {
        Some(t) => if !names_epoch(t@) {
            r matches Err(Error::InvalidManagerOptions(m)) && m@
                == "controller_template must contain `{epoch}`"@
        } else {
            match platform {
                Platform::Windows => r matches Ok(EndpointPlan::Ready(e)) && e@ == filled(
                    t@,
                    epoch,
                ),
                Platform::Unix => if path::plain_name(filled(t@, epoch)) {
                    r matches Ok(EndpointPlan::Ready(e)) && path::joins(
                        runtime_dir,
                        filled(t@, epoch),
                        e@,
                    )
                } else {
                    exists|candidate: Seq<char>|
                        #[trigger] in_dir_or_absolute(runtime_dir, filled(t@, epoch), candidate)
                            && placed(runtime_dir, candidate, r)
                },
            }
        },
        None => match platform {
            Platform::Windows => r matches Ok(EndpointPlan::Ready(e)) && e@
                == "\\\\.\\pipe\\nyanpasu\\core-"@ + text::decimal(epoch as nat),
            Platform::Unix => r matches Ok(EndpointPlan::Ready(e)) && path::joins(
                runtime_dir,
                socket_name(epoch),
                e@,
            ),
        },
    }
}

/// The candidate is a file of the directory itself.
pub open spec fn direct(dir: Seq<char>, candidate: Seq<char>) -> bool {
    &&& dir.len() > 0
    &&& dir.last() != '/'
    &&& text::after_prefix(candidate, dir + seq!['/']) matches Some(name)
    &&& path::plain_name(name)
}

/// What is planned for a candidate: a file of the runtime directory itself is
/// taken as it is, of any other one the directory is looked up.
pub open spec fn placed(
    runtime_dir: Seq<char>,
    candidate: Seq<char>,
    r: Result<EndpointPlan, Error>,
) -> bool {
    if direct(runtime_dir, candidate) {
        r matches Ok(EndpointPlan::Ready(e)) && e@ == candidate
    } else {
        match r {
            Ok(EndpointPlan::Socket { candidate: c, parent }) => c@ == candidate
                && path::directory_of(candidate, Some(parent@)),
            Ok(_) => false,
            Err(e) => e matches Error::InvalidManagerOptions(m) && m@
                == "managed Unix controller has no parent directory"@ && path::directory_of(
                candidate,
                None,
            ),
        }
    }
}

/// The endpoint itself, where it is absolute, or else below the directory.
pub open spec fn in_dir_or_absolute(
    dir: Seq<char>,
    endpoint: Seq<char>,
    candidate: Seq<char>,
) -> bool {
    ||| candidate == endpoint && (endpoint.contains('/') || endpoint.contains('\\')) && (
    path::is_separator(endpoint[0]) || path::has_drive(endpoint))
    ||| path::joins(dir, endpoint, candidate)
}

/// The directory of a socket and the socket itself, given the two.
pub fn socket_plan(candidate: String, parent: Option<String>) -> (r: Result<EndpointPlan, Error>)
    ensures
        match parent {
            Some(parent) => r == Ok::<EndpointPlan, Error>(
                EndpointPlan::Socket { candidate, parent },
            ),
            None => r matches Err(Error::InvalidManagerOptions(m)) && m@
                == "managed Unix controller has no parent directory"@,
        },
{
    match parent {
        Some(parent) => Ok(EndpointPlan::Socket { candidate, parent }),
        None => Err(
            Error::InvalidManagerOptions(
                "managed Unix controller has no parent directory".to_owned(),
            ),
        ),
    }
}

fn is_direct(dir: &str, candidate: &str) -> (r: bool)
    ensures
        r == direct(dir@, candidate@),
{
    proof {
        reveal_strlit("/");
    }
    if dir.is_empty() || ends_with(dir, "/") {
        assert(dir@.len() > 0 ==> dir@.subrange(dir@.len() - 1, dir@.len() as int)[0]
            == dir@.last());
        return false;
    }
    let mut base = dir.to_owned();
    base.append("/");
    assert(base@ =~= dir@ + seq!['/']);
    assert(dir@.last() == '/' ==> dir@.subrange(dir@.len() - 1, dir@.len() as int) =~= "/"@);
    match strip_prefix(candidate, base.as_str()) {
        Some(name) => is_plain_name(name.as_str()),
        None => false,
    }
}

pub fn managed_endpoint_path(
    platform: Platform,
    runtime_dir: &str,
    template: Option<&str>,
    epoch: u64,
) -> (r: Result<EndpointPlan, Error>)
    ensures
        plan_outcome(platform, runtime_dir@, template, epoch, r),
{
    match template {
        Some(template) => {
            if !contains(template, "{epoch}") {
                return Err(
                    Error::InvalidManagerOptions(
                        "controller_template must contain `{epoch}`".to_owned(),
                    ),
                );
            }
            let endpoint = fill(template, epoch);
            match platform {
                Platform::Windows => Ok(EndpointPlan::Ready(endpoint)),
                Platform::Unix => {
                    if is_plain_name(endpoint.as_str()) {
                        return Ok(EndpointPlan::Ready(join(runtime_dir, endpoint.as_str())));
                    }
                    let candidate = if is_absolute(endpoint.as_str()) {
                        endpoint
                    } else {
                        join(runtime_dir, endpoint.as_str())
                    };
                    assert(in_dir_or_absolute(
                        runtime_dir@,
                        filled(template@, epoch),
                        candidate@,
                    ));
                    if is_direct(runtime_dir, candidate.as_str()) {
                        return Ok(EndpointPlan::Ready(candidate));
                    }
                    let dir = parent(candidate.as_str());
                    socket_plan(candidate, dir)
                },
            }
        },
        None => match platform {
            Platform::Windows => {
                let mut out = "\\\\.\\pipe\\nyanpasu\\core-".to_owned();
                out.append(u64_to_string(epoch).as_str());
                Ok(EndpointPlan::Ready(out))
            },
            Platform::Unix => Ok(
                EndpointPlan::Ready(join(runtime_dir, socket_file(epoch).as_str())),
            ),
        },
    }
}

/// What became of canonicalizing a directory.
#[derive(Debug)]
pub enum Canonical {
    Path(String),
    Failed(String),
    NotUtf8,
}

/// What is made of a socket whose directory was canonicalized: the directory and
/// the name of the socket, if the directory lies in the runtime directory.
pub open spec fn confined(
    runtime_dir: Seq<char>,
    candidate: Seq<char>,
    parent: Seq<char>,
    canonical: Canonical,
    inside: bool,
    name: Option<Seq<char>>,
    r: Result<(Seq<char>, Seq<char>), Error>,
) -> bool {
    match canonical {
        Canonical::Failed(words) => r matches Err(Error::InvalidManagerOptions(m)) && m@
            == "managed Unix controller parent `"@ + parent + "` cannot be canonicalized: "@
            + words@,
        Canonical::NotUtf8 => r matches Err(Error::InvalidManagerOptions(m)) && m@
            == "managed Unix controller path is not UTF-8"@,
        Canonical::Path(dir) => if !inside {
            r matches Err(Error::InvalidManagerOptions(m)) && m@ == "managed Unix controller `"@
                + candidate + "` escapes runtime directory `"@ + runtime_dir + "`"@
        } else {
            match name {
                None => r matches Err(Error::InvalidManagerOptions(m)) && m@
                    == "managed Unix controller must name a socket file"@,
                Some(name) => r matches Ok((d, n)) && d == dir@ && n == name,
            }
        },
    }
}

pub open spec fn pair_view(r: Result<(String, String), Error>) -> Result<
    (Seq<char>, Seq<char>),
    Error,
> {
    match r {
        Ok((a, b)) => Ok((a@, b@)),
        Err(e) => Err(e),
    }
}

/// Confines a socket to the runtime directory. `inside` says whether the
/// canonical directory lies in it, `name` is the name of the socket.
pub fn confine(
    runtime_dir: &str,
    candidate: &str,
    parent: &str,
    canonical: Canonical,
    inside: bool,
    name: Option<String>,
) -> (r: Result<(String, String), Error>)
    ensures
        confined(
            runtime_dir@,
            candidate@,
            parent@,
            canonical,
            inside,
            path::part(name),
            pair_view(r),
        ),
{
    match canonical {
        Canonical::Failed(words) => {
            let mut m = "managed Unix controller parent `".to_owned();
            m.append(parent);
            m.append("` cannot be canonicalized: ");
            m.append(words.as_str());
            Err(Error::InvalidManagerOptions(m))
        },
        Canonical::NotUtf8 => Err(
            Error::InvalidManagerOptions("managed Unix controller path is not UTF-8".to_owned()),
        ),
        Canonical::Path(dir) => {
            if !inside {
                let mut m = "managed Unix controller `".to_owned();
                m.append(candidate);
                m.append("` escapes runtime directory `");
                m.append(runtime_dir);
                m.append("`");
                return Err(Error::InvalidManagerOptions(m));
            }
            match name {
                None => Err(
                    Error::InvalidManagerOptions(
                        "managed Unix controller must name a socket file".to_owned(),
                    ),
                ),
                Some(name) => Ok((dir, name)),
            }
        },
    }
}

/// A socket whose canonical directory lies elsewhere.
pub open spec fn escapes(runtime_dir: Seq<char>, candidate: Seq<char>, e: Error) -> bool {
    e matches Error::InvalidManagerOptions(m) && m@ == "managed Unix controller `"@ + candidate
        + "` escapes runtime directory `"@ + runtime_dir + "`"@
}

/// What becomes of a socket whose directory was canonicalized: it lies in that
/// directory, under the last name of the candidate, or it is refused. `inside`
/// says whether the directory lies in the runtime directory.
pub open spec fn settled(
    runtime_dir: Seq<char>,
    candidate: Seq<char>,
    parent: Seq<char>,
    canonical: Canonical,
    inside: bool,
    name: Option<Seq<char>>,
    r: Result<String, Error>,
) -> bool {
    match r {
        Ok(endpoint) => canonical is Path && inside && name is Some && path::joins(
            canonical->Path_0@,
            name->0,
            endpoint@,
        ),
        Err(e) => confined(runtime_dir, candidate, parent, canonical, inside, name, Err(e)),
    }
}

/// The two things that decide are those of the canonical directory and of the
/// candidate.
pub open spec fn endpoint_outcome(
    runtime_dir: Seq<char>,
    candidate: Seq<char>,
    parent: Seq<char>,
    canonical: Canonical,
    r: Result<String, Error>,
) -> bool {
    exists|inside: bool, name: Option<Seq<char>>|
        #[trigger] settled(runtime_dir, candidate, parent, canonical, inside, name, r)
            && path::name_of(candidate, name) && (canonical matches Canonical::Path(dir)
            ==> path::lying(dir@, runtime_dir, inside))
}

pub fn managed_unix_endpoint(
    runtime_dir: &str,
    candidate: &str,
    parent: &str,
    canonical: Canonical,
) -> (r: Result<String, Error>)
    ensures
        endpoint_outcome(runtime_dir@, candidate@, parent@, canonical, r),
        canonical matches Canonical::Path(dir) && path::plain_path(dir@) && path::plain_path(
            runtime_dir@,
        ) && !path::within(dir@, runtime_dir@) ==> r is Err && escapes(
            runtime_dir@,
            candidate@,
            r->Err_0,
        ),
        forall|d: Seq<char>, name: Seq<char>|
            #[trigger] path::file_in(d, name, candidate@) && canonical is Path && (
            canonical->Path_0@ == runtime_dir@ || (path::plain_path(canonical->Path_0@)
                && path::plain_path(runtime_dir@) && path::within(
                canonical->Path_0@,
                runtime_dir@,
            ))) ==> r is Ok && path::joins(canonical->Path_0@, name, r->Ok_0@),
{
    let ghost given = canonical;
    let inside = match &canonical {
        Canonical::Path(dir) => lies_in(dir.as_str(), runtime_dir),
        _ => false,
    };
    let name = file_name(candidate);
    let ghost name_text = path::part(name);
    let r = match confine(runtime_dir, candidate, parent, canonical, inside, name) {
        Ok((dir, name)) => Ok(join(dir.as_str(), name.as_str())),
        Err(e) => Err(e),
    };
    assert(settled(runtime_dir@, candidate@, parent@, given, inside, name_text, r));
    r
}

/// How often the mark stands in a template from `from` on.
pub open spec fn marks(template: Seq<char>, mark: Seq<char>, from: int) -> nat
    decreases template.len() - from,
    when 0 <= from <= template.len() && mark.len() > 0
{
    proof {
        text::lemma_find_sub_bounds(template, mark, from);
    }
    match text::find_sub(template, mark, from) {
        Some(i) => marks(template, mark, i + mark.len()) + 1,
        None => 0,
    }
}

proof fn lemma_filled_len(template: Seq<char>, mark: Seq<char>, with: Seq<char>, from: int)
    requires
        0 <= from <= template.len(),
        mark.len() > 0,
    ensures
        text::replaced(template, mark, with, from).len() == template.len() - from + marks(
            template,
            mark,
            from,
        ) * (with.len() - mark.len()),
    decreases template.len() - from,
{
    text::lemma_find_sub_bounds(template, mark, from);
    let d: int = with.len() - mark.len();
    match text::find_sub(template, mark, from) {
        Some(i) => {
            lemma_filled_len(template, mark, with, i + mark.len());
            let n: int = marks(template, mark, i + mark.len()) as int;
            let tail = text::replaced(template, mark, with, i + mark.len());
            assert(marks(template, mark, from) == n + 1);
            assert(text::replaced(template, mark, with, from) == template.subrange(from, i) + with
                + tail);
            assert((n + 1) * d == n * d + d) by (nonlinear_arith);
        },
        None => {
            assert(marks(template, mark, from) == 0);
            assert(0 * d == 0);
        },
    }
}

/// No two epochs get the same endpoint from a template that names the epoch.
pub proof fn law_epochs_have_endpoints_of_their_own(template: Seq<char>, a: u64, b: u64)
    requires
        names_epoch(template),
        filled(template, a) == filled(template, b),
    ensures
        a == b,
{
    reveal_strlit("{epoch}");
    let mark = "{epoch}"@;
    let x = text::decimal(a as nat);
    let y = text::decimal(b as nat);
    text::law_decimal_round_trip(a as nat);
    text::law_decimal_round_trip(b as nat);
    text::lemma_find_sub_bounds(template, mark, 0);
    let i = text::find_sub(template, mark, 0)->0;
    lemma_filled_len(template, mark, x, 0);
    lemma_filled_len(template, mark, y, 0);
    let n = marks(template, mark, 0);
    assert(n > 0);
    assert(x.len() == y.len()) by {
        assert(n * (x.len() - mark.len()) == n * (y.len() - mark.len()));
        assert(x.len() - mark.len() == y.len() - mark.len()) by (nonlinear_arith)
            requires
                n * (x.len() - mark.len()) == n * (y.len() - mark.len()),
                n > 0,
        ;
    }
    let fa = filled(template, a);
    let fb = filled(template, b);
    assert(fa.subrange(i, i + x.len()) =~= x);
    assert(fb.subrange(i, i + y.len()) =~= y);
}

/// Without a template every epoch has a place of its own: a socket in the runtime
/// directory, or a named pipe, both with the number of the epoch in their name.
pub proof fn law_default_endpoints_tell_the_epoch(
    runtime_dir: Seq<char>,
    epoch: u64,
    r: Result<EndpointPlan, Error>,
    w: Result<EndpointPlan, Error>,
)
    requires
        plan_outcome(Platform::Unix, runtime_dir, None, epoch, r),
        plan_outcome(Platform::Windows, runtime_dir, None, epoch, w),
    ensures
        r matches Ok(EndpointPlan::Ready(e)) && path::joins(
            runtime_dir,
            "core-"@ + text::decimal(epoch as nat) + ".sock"@,
            e@,
        ),
        w matches Ok(EndpointPlan::Ready(e)) && text::has_suffix(
            e@,
            text::decimal(epoch as nat),
        ),
{
    let head = "\\\\.\\pipe\\nyanpasu\\core-"@;
    let number = text::decimal(epoch as nat);
    let whole = head + number;
    assert(whole.subrange(whole.len() - number.len(), whole.len() as int) =~= number);
}

/// A socket is used only in a directory that lies in the runtime directory, under the
/// name that was asked for; whatever else became of its directory it is refused.
pub proof fn law_sockets_are_confined(
    runtime_dir: Seq<char>,
    candidate: Seq<char>,
    parent: Seq<char>,
    canonical: Canonical,
    r: Result<String, Error>,
)
    requires
        endpoint_outcome(runtime_dir, candidate, parent, canonical, r),
    ensures
        r is Ok ==> canonical is Path,
        canonical matches Canonical::Path(dir) ==> (path::plain_path(dir@) && path::plain_path(
            runtime_dir,
        ) && r is Ok ==> dir@ == runtime_dir || text::has_prefix(dir@, runtime_dir + seq!['/'])),
        r matches Err(e) ==> e is InvalidManagerOptions,
{
}

/// A template is accepted where it names the epoch and gives more than white space.
pub proof fn law_templates_name_the_epoch(template: Seq<char>, r: Result<(), Error>)
    requires
        template_outcome(template, r),
    ensures
        r is Ok <==> text::contains_sub(template, "{epoch}"@) && text::trimmed(
            filled(template, 0),
        ).len() > 0,
        r matches Err(e) ==> e is InvalidManagerOptions,
{
}

/// A socket is confined exactly where the directory that its parent really is lies in the
/// directory of the manager and the path names a file; then it is that file in that
/// directory. Every other path is refused.
pub proof fn law_sockets_are_where_their_parent_is(
    runtime_dir: Seq<char>,
    candidate: Seq<char>,
    parent: Seq<char>,
    canonical: Canonical,
    inside: bool,
    name: Option<Seq<char>>,
    r: Result<(Seq<char>, Seq<char>), Error>,
)
    requires
        confined(runtime_dir, candidate, parent, canonical, inside, name, r),
    ensures
        r is Ok <==> canonical is Path && inside && name is Some,
        r matches Ok((d, n)) ==> (canonical matches Canonical::Path(dir) && d == dir@) && Some(n)
            == name,
        r matches Err(e) ==> e is InvalidManagerOptions,
{
}

/// A file lies directly in a directory exactly where its path is the directory, a slash
/// and the plain name of the file.
pub proof fn law_direct_files_are_named_plainly(
    dir: Seq<char>,
    candidate: Seq<char>,
    name: Seq<char>,
)
    requires
        dir.len() > 0,
        dir.last() != '/',
    ensures
        direct(dir, dir + seq!['/'] + name) <==> path::plain_name(name),
        direct(dir, candidate) ==> candidate.len() > dir.len() + 1 && candidate == dir + seq!['/']
            + candidate.skip(dir.len() as int + 1) && path::plain_name(
            candidate.skip(dir.len() as int + 1),
        ),
{
    let head = dir + seq!['/'];
    let whole = head + name;
    assert(whole.subrange(0, head.len() as int) =~= head);
    assert(whole.subrange(head.len() as int, whole.len() as int) =~= name);
    if direct(dir, candidate) {
        let n = head.len() as int;
        assert(candidate.subrange(0, n) == head);
        assert(candidate.subrange(n, candidate.len() as int) =~= candidate.skip(n));
        assert(candidate =~= candidate.subrange(0, n) + candidate.skip(n));
    }
}

} // verus!
