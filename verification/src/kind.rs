//! How each family of cores is launched and asked to check a configuration.

use vstd::prelude::*;
use vstd::string::*;

use crate::clash_api::client::Host;
use crate::error::Error;
use crate::metadata::kind::ClashCoreKind;
use crate::path;
use crate::path::parent;
use crate::platform::Platform;
use crate::process::command::Command;
use crate::process::error::{ProcessError, ProcessOutput};
use crate::spec::InstanceSpec;
use crate::text;
use crate::text::{lines, trim};
use crate::time;
use crate::time::Duration;

verus! {

/// The longest that a core may take to check a configuration, in seconds.
pub const CHECK_CONFIG_TIMEOUT: u64 = 30;

/// The name of the variable that lists the directories a core may read.
pub const MIHOMO_SAFE_PATHS_ENV_NAME: &'static str = "SAFE_PATHS";

/// The name of the variable that turns colours off.
pub const CLICOLOR_FORCE_ENV_NAME: &'static str = "CLICOLOR_FORCE";

/// What each family is launched with.
pub open spec fn launch_args(kind: ClashCoreKind, dir: Seq<char>, config: Seq<char>) -> Seq<
    Seq<char>,
> {
    match kind {
        ClashCoreKind::Mihomo | ClashCoreKind::Meow => seq!["-m"@, "-d"@, dir, "-f"@, config],
        ClashCoreKind::ClashRust => seq!["-d"@, dir, "-c"@, config],
        ClashCoreKind::ClashPremium => seq!["-d"@, dir, "-f"@, config],
    }
}

pub fn run_args(kind: ClashCoreKind, working_dir: &str, config_path: &str) -> (r: Vec<String>)
    ensures
        text::strings(r@) == launch_args(kind, working_dir@, config_path@),
{
    let mut out: Vec<String> = Vec::new();
    if let ClashCoreKind::Mihomo | ClashCoreKind::Meow = kind {
        out.push("-m".to_owned());
    }
    out.push("-d".to_owned());
    out.push(working_dir.to_owned());
    if let ClashCoreKind::ClashRust = kind {
        out.push("-c".to_owned());
    } else {
        out.push("-f".to_owned());
    }
    out.push(config_path.to_owned());
    assert(text::strings(out@) =~= launch_args(kind, working_dir@, config_path@));
    out
}

/// A clash-rs core is told of a local endpoint when it is launched; the others
/// read it from their configuration.
pub open spec fn endpoint_args(kind: ClashCoreKind, host: Host) -> Seq<Seq<char>> {
    match (kind, host) {
        (ClashCoreKind::ClashRust, Host::NamedPipe(path)) => seq!["--controller-ipc"@, path@],
        (ClashCoreKind::ClashRust, Host::UnixSocket(path)) => seq!["--controller-ipc"@, path@],
        _ => seq![],
    }
}

pub fn controller_args(kind: ClashCoreKind, host: &Host) -> (r: Vec<String>)
    ensures
        text::strings(r@) == endpoint_args(kind, *host),
{
    let mut out: Vec<String> = Vec::new();
    if let ClashCoreKind::ClashRust = kind {
        match host {
            Host::NamedPipe(path) | Host::UnixSocket(path) => {
                out.push("--controller-ipc".to_owned());
                out.push(path.clone());
            },
            _ => {},
        }
    }
    assert(text::strings(out@) =~= endpoint_args(kind, *host));
    out
}

/// What a core is given to check a configuration.
pub fn check_args(working_dir: &str, config_path: &str) -> (r: Vec<String>)
    ensures
        text::strings(r@) == seq!["-t"@, "-d"@, working_dir@, "-f"@, config_path@],
{
    let mut out: Vec<String> = Vec::new();
    out.push("-t".to_owned());
    out.push("-d".to_owned());
    out.push(working_dir.to_owned());
    out.push("-f".to_owned());
    out.push(config_path.to_owned());
    assert(text::strings(out@) =~= seq!["-t"@, "-d"@, working_dir@, "-f"@, config_path@]);
    out
}

/// What separates the entries of a list of paths.
pub open spec fn list_separator(platform: Platform) -> Seq<char> {
    match platform {
        Platform::Windows => ";"@,
        Platform::Unix => ":"@,
    }
}

pub open spec fn safe_paths(platform: Platform, working: Seq<char>, config: Seq<char>) -> Seq<
    char,
> {
    working + list_separator(platform) + config
}

pub fn mihomo_safe_paths(platform: Platform, working_dir: &str, config_dir: &str) -> (r: String)
    ensures
        r@ == safe_paths(platform, working_dir@, config_dir@),
{
    let mut out = working_dir.to_owned();
    match platform {
        Platform::Windows => out.append(";"),
        Platform::Unix => out.append(":"),
    }
    out.append(config_dir);
    out
}

pub open spec fn pairs(envs: Seq<(String, String)>) -> Seq<(Seq<char>, Seq<char>)> {
    Seq::new(envs.len(), |i: int| (envs[i].0@, envs[i].1@))
}

/// The environment that every core is run in.
pub open spec fn core_env(platform: Platform, working: Seq<char>, config_dir: Seq<char>) -> Seq<
    (Seq<char>, Seq<char>),
> {
    seq![
        (MIHOMO_SAFE_PATHS_ENV_NAME@, safe_paths(platform, working, config_dir)),
        (CLICOLOR_FORCE_ENV_NAME@, "0"@),
    ]
}

/// The command with the environment of a core.
pub fn with_core_env(
    command: Command,
    platform: Platform,
    working_dir: &str,
    config_dir: &str,
) -> (r: Command)
    requires
        command.envs@.len() == 0,
    ensures
        r.program == command.program,
        r.args == command.args,
        r.current_dir == command.current_dir,
        r.timeout == command.timeout,
        r.epoch_pid_file == command.epoch_pid_file,
        pairs(r.envs@) == core_env(platform, working_dir@, config_dir@),
{
    let first = command.env(
        MIHOMO_SAFE_PATHS_ENV_NAME,
        mihomo_safe_paths(platform, working_dir, config_dir).as_str(),
    );
    let ghost one = first.envs@;
    assert(one.drop_last().len() == 0);
    let second = first.env(CLICOLOR_FORCE_ENV_NAME, "0");
    proof {
        assert(second.envs@.drop_last()[0] == second.envs@[0]);
        assert(one.last() == one[0]);
        assert(pairs(second.envs@) =~= core_env(platform, working_dir@, config_dir@));
    }
    second
}

/// The command that checks a configuration, given the directory that the
/// configuration lies in, where it lies in one.
pub fn check_command(
    spec: &InstanceSpec,
    config_dir: Option<&str>,
    platform: Platform,
    timeout: Duration,
) -> (r: Result<Command, Error>)
    ensures
        match config_dir {
            None => r matches Err(Error::ConfigNotFound(path)) && path@ == spec.config_path@,
            Some(dir) => r matches Ok(c) && c.program@ == spec.core.binary_path@ && text::strings(
                c.args@,
            ) == seq!["-t"@, "-d"@, spec.working_dir@, "-f"@, spec.config_path@] && pairs(c.envs@)
                == core_env(platform, spec.working_dir@, dir@) && c.timeout == Some(timeout)
                && c.current_dir is None && c.epoch_pid_file is None,
        },
{
    match config_dir {
        None => Err(Error::ConfigNotFound(spec.config_path.clone())),
        Some(dir) => {
            let base = Command::new(spec.core.binary_path.as_str());
            let args = check_args(spec.working_dir.as_str(), spec.config_path.as_str());
            let ghost given = args@;
            let base = base.args(args);
            assert(base.args@ =~= given);
            let base = base.timeout(timeout);
            Ok(with_core_env(base, platform, spec.working_dir.as_str(), dir))
        },
    }
}

/// The command that checks a configuration. A configuration that lies in no
/// directory is not found.
pub fn plan_check(spec: &InstanceSpec, platform: Platform, timeout: Duration) -> (r: Result<
    Command,
    Error,
>)
    ensures
        match r {
            Ok(c) => c.program@ == spec.core.binary_path@ && text::strings(c.args@) == seq![
                "-t"@,
                "-d"@,
                spec.working_dir@,
                "-f"@,
                spec.config_path@,
            ] && c.timeout == Some(timeout) && (exists|dir: Seq<char>|
                path::directory_of(spec.config_path@, Some(dir)) && pairs(c.envs@)
                    == #[trigger] core_env(platform, spec.working_dir@, dir)),
            Err(e) => e matches Error::ConfigNotFound(path) && path@ == spec.config_path@
                && path::directory_of(spec.config_path@, None),
        },
        spec.config_path@.len() == 0 ==> r is Err,
        forall|dir: Seq<char>, name: Seq<char>|
            #[trigger] path::file_in(dir, name, spec.config_path@) ==> r is Ok && pairs(
                r->Ok_0.envs@,
            ) == core_env(platform, spec.working_dir@, dir),
{
    let dir = parent(spec.config_path.as_str());
    match &dir {
        Some(dir) => check_command(spec, Some(dir.as_str()), platform, timeout),
        None => check_command(spec, None, platform, timeout),
    }
}

/// What a failed check said: what it complained of, or else the last line that it
/// printed.
pub open spec fn output_summary(stdout: Seq<char>, stderr: Seq<char>) -> Seq<char> {
    let err = text::trimmed(stderr);
    let out = text::trimmed(stdout);
    if err.len() > 0 {
        err
    } else if out.len() == 0 {
        "core rejected the config without diagnostics"@
    } else {
        text::lines_of(out).last()
    }
}

pub fn summarize_output(stdout: &str, stderr: &str) -> (r: String)
    ensures
        r@ == output_summary(stdout@, stderr@),
{
    let err = trim(stderr);
    if !err.as_str().is_empty() {
        return err;
    }
    let out = trim(stdout);
    if out.as_str().is_empty() {
        return "core rejected the config without diagnostics".to_owned();
    }
    let all = lines(out.as_str());
    let n: usize = all.len();
    if n > 0 {
        assert(text::strings(all@).last() == all@[n - 1]@);
        return all[n - 1].clone();
    }
    proof {
        text::lemma_some_line(out@);
    }
    out
}

/// What the check of a configuration came to.
pub open spec fn check_outcome(
    output: Result<ProcessOutput, ProcessError>,
    r: Result<(), Error>,
) -> bool {
    match output {
        Err(ProcessError::Timeout { after }) => r matches Err(Error::ConfigCheckFailed(m)) && m@
            == "config check timed out after "@ + time::span_text(after@),
        Err(other) => r matches Err(Error::Process(e)) && e == other,
        Ok(o) => if o.code == Some(0i32) {
            r is Ok
        } else {
            r matches Err(Error::ConfigCheckFailed(m)) && m@ == output_summary(
                o.stdout@,
                o.stderr@,
            )
        },
    }
}

pub fn check_result(output: Result<ProcessOutput, ProcessError>) -> (r: Result<(), Error>)
    ensures
        check_outcome(output, r),
{
    match output {
        Err(ProcessError::Timeout { after }) => {
            let mut m = "config check timed out after ".to_owned();
            m.append(after.text().as_str());
            Err(Error::ConfigCheckFailed(m))
        },
        Err(other) => Err(Error::Process(other)),
        Ok(o) => {
            if o.success() {
                return Ok(());
            }
            Err(Error::ConfigCheckFailed(summarize_output(o.stdout.as_str(), o.stderr.as_str())))
        },
    }
}

/// Every family is told its directory behind `-d` and the configuration last, behind
/// the word that it knows for it; those that speak mihomo's dialect are told so.
pub proof fn law_cores_are_told_their_files(kind: ClashCoreKind, dir: Seq<char>, config: Seq<char>)
    ensures
        ({
            let args = launch_args(kind, dir, config);
            let n = args.len() as int;
            &&& n >= 4
            &&& args[n - 4] == "-d"@
            &&& args[n - 3] == dir
            &&& args[n - 2] == (if kind is ClashRust {
                "-c"@
            } else {
                "-f"@
            })
            &&& args[n - 1] == config
            &&& kind is Mihomo || kind is Meow ==> n == 5 && args[0] == "-m"@
            &&& kind is ClashRust || kind is ClashPremium ==> n == 4
        }),
{
}

/// A local endpoint is handed to a clash-rs core as it is; nothing else is handed
/// to any core.
pub proof fn law_local_endpoints_are_handed_over(kind: ClashCoreKind, host: Host)
    ensures
        endpoint_args(kind, host).len() > 0 <==> kind is ClashRust && (host is NamedPipe
            || host is UnixSocket),
        kind is ClashRust ==> (host matches Host::NamedPipe(path) ==> endpoint_args(kind, host)
            == seq!["--controller-ipc"@, path@]),
        kind is ClashRust ==> (host matches Host::UnixSocket(path) ==> endpoint_args(kind, host)
            == seq!["--controller-ipc"@, path@]),
{
}

/// A core may read its directory and that of its configuration, and both are told
/// apart by one character.
pub proof fn law_both_directories_are_safe(
    platform: Platform,
    working: Seq<char>,
    config: Seq<char>,
)
    ensures
        ({
            let paths = safe_paths(platform, working, config);
            &&& paths.len() == working.len() + 1 + config.len()
            &&& paths.take(working.len() as int) == working
            &&& paths.skip(working.len() as int + 1) == config
            &&& paths[working.len() as int] == (if platform is Windows {
                ';'
            } else {
                ':'
            })
            &&& exists|i: int|
                0 <= i < core_env(platform, working, config).len() && #[trigger] core_env(
                    platform,
                    working,
                    config,
                )[i] == ("SAFE_PATHS"@, paths)
            &&& exists|i: int|
                0 <= i < core_env(platform, working, config).len() && #[trigger] core_env(
                    platform,
                    working,
                    config,
                )[i] == ("CLICOLOR_FORCE"@, "0"@)
        }),
{
    reveal_strlit(";");
    reveal_strlit(":");
    let paths = safe_paths(platform, working, config);
    assert(paths.take(working.len() as int) =~= working);
    assert(paths.skip(working.len() as int + 1) =~= config);
    let env = core_env(platform, working, config);
    assert(env[0] == ("SAFE_PATHS"@, paths));
    assert(env[1] == ("CLICOLOR_FORCE"@, "0"@));
}

/// A configuration passes its check exactly where the core ends with zero. What the
/// core complained of is told; where it did not, its last line is, and where it
/// said nothing, that.
pub proof fn law_checks_end_as_the_core_does(
    output: Result<ProcessOutput, ProcessError>,
    r: Result<(), Error>,
)
    requires
        check_outcome(output, r),
    ensures
        r is Ok <==> (output matches Ok(o) && o.code == Some(0i32)),
        output matches Ok(o) ==> (r matches Err(error) ==> (
        error matches Error::ConfigCheckFailed(m) && {
            &&& text::trimmed(o.stderr@).len() > 0 ==> m@ == text::trimmed(o.stderr@)
            &&& text::trimmed(o.stderr@).len() == 0 && text::trimmed(o.stdout@).len() > 0 ==> m@
                == text::lines_of(text::trimmed(o.stdout@)).last()
        })),
        output matches Err(ProcessError::Timeout { after }) ==> r matches Err(
            Error::ConfigCheckFailed(_),
        ),
        output matches Err(error) ==> (!(error is Timeout) ==> (r matches Err(Error::Process(e))
            && e == error)),
{
}

} // verus!
