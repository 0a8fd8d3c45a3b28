use std::sync::Arc;

use nyanpasu_core::capability::resolve_features;
use nyanpasu_core::clash_api::client::Host;
use nyanpasu_core::config::clash::{probe_address, RawController};
use nyanpasu_core::config::endpoint::{
    managed_endpoint_path, managed_unix_endpoint, validate_controller_template, Canonical,
    EndpointPlan,
};
use nyanpasu_core::config::mihomo::{
    classify, classify_documents, overlap_block, patch_nested_path_is_supported,
    restoration_patch, ConfigChange, OverlapBlock,
};
use nyanpasu_core::config::snapshot::{semantic_hash, ConfigSnapshot};
use nyanpasu_core::error::Error;
use nyanpasu_core::kind::{
    check_result, controller_args, mihomo_safe_paths, plan_check, run_args, summarize_output,
};
use nyanpasu_core::metadata::kind::ClashCoreKind;
use nyanpasu_core::path::is_plain_name;
use nyanpasu_core::platform::Platform;
use nyanpasu_core::process::error::{ProcessError, ProcessOutput};
use nyanpasu_core::process::supervisor::RestartPolicy;
use nyanpasu_core::spec::{
    CoreSpec, InstanceOptions, InstanceSpec, LocalIpcPolicy, ManagerOptions,
};
use nyanpasu_core::time::Duration;
use nyanpasu_core::value::{get, Datum};
use nyanpasu_core::yaml;

fn snapshot(raw: &str) -> ConfigSnapshot {
    ConfigSnapshot::from_bytes("source.yaml".into(), raw.as_bytes()).unwrap()
}

#[test]
fn canonical_hash_ignores_mapping_order() {
    let first = snapshot("secret: token\nexternal-controller: 127.0.0.1:9090\n");
    let second = snapshot("external-controller: 127.0.0.1:9090\nsecret: token\n");
    let first = first.prepare_full(Platform::Unix, None).unwrap();
    let second = second.prepare_full(Platform::Unix, None).unwrap();
    assert_eq!(first.source_hash, second.source_hash);
    assert_eq!(first.effective_hash, second.effective_hash);
    assert_eq!(first.bytes, second.bytes);
}

#[test]
fn wildcard_http_controller_is_probed_through_loopback() {
    let prepared = snapshot("external-controller: 0.0.0.0:9090\n")
        .prepare_full(Platform::Unix, None)
        .unwrap();
    let Host::Http(url) = &prepared.controller.host else {
        panic!("expected HTTP controller");
    };
    assert_eq!(url.text, "http://127.0.0.1:9090/");
}

#[test]
fn managed_controller_is_epoch_scoped_and_replaces_http() {
    let source = snapshot("external-controller: 127.0.0.1:9090\nsecret: token\n");
    let plan =
        managed_endpoint_path(Platform::Unix, "runtime", Some("managed-{epoch}.sock"), 7).unwrap();
    let EndpointPlan::Ready(endpoint) = plan else {
        panic!("expected an endpoint");
    };
    assert_eq!(endpoint, "runtime/managed-7.sock");
    let prepared = source.prepare_full(Platform::Unix, Some(&endpoint)).unwrap();
    let text = String::from_utf8(prepared.bytes.clone()).unwrap();
    assert!(!text.contains("external-controller: 127.0.0.1:9090"));
    assert!(text.contains("managed-7.sock"));
    assert_eq!(prepared.controller.secret.as_deref(), Some("token"));
    assert!(matches!(prepared.controller.host, Host::UnixSocket(_)));

    let pipe =
        managed_endpoint_path(Platform::Windows, "runtime", Some("managed-{epoch}.sock"), 7)
            .unwrap();
    assert_eq!(pipe, EndpointPlan::Ready("managed-7.sock".into()));
    let prepared = source.prepare_full(Platform::Windows, Some("managed-7.sock")).unwrap();
    assert!(matches!(prepared.controller.host, Host::NamedPipe(_)));
}

#[test]
fn extracts_http_controller_and_secret() {
    let info = snapshot("external-controller: 127.0.0.1:9090\nsecret: s3cret\n").info(Platform::Unix);
    assert_eq!(
        info.controller,
        Some(RawController::Http("127.0.0.1:9090".into()))
    );
    assert_eq!(info.secret.as_deref(), Some("s3cret"));
}

#[test]
fn http_mode_ignores_a_user_declared_local_controller() {
    let source = snapshot("external-controller-unix: /tmp/source.sock");
    assert!(matches!(
        source.prepare_full(Platform::Unix, None),
        Err(Error::ControllerMissing)
    ));
    let source = snapshot(r"external-controller-pipe: \\.\pipe\source");
    assert!(matches!(
        source.prepare_full(Platform::Windows, None),
        Err(Error::ControllerMissing)
    ));
}

#[test]
fn source_path_is_retained_for_revision_identity() {
    let snapshot = snapshot("external-controller: 127.0.0.1:9090\n");
    assert_eq!(snapshot.source_path(), "source.yaml");
}

#[test]
fn hashes_are_sixteen_digits() {
    assert_eq!(semantic_hash(b""), "cbf29ce484222325");
    assert_eq!(semantic_hash(b"a"), "af63dc4c8601ec8c");
    assert_eq!(semantic_hash(b"foobar"), "85944171f73967e8");
}

#[test]
fn sources_have_to_be_mappings() {
    for raw in ["- a\n", "x"] {
        assert!(matches!(
            ConfigSnapshot::from_bytes("source.yaml".into(), raw.as_bytes()),
            Err(Error::InvalidConfig(_))
        ));
    }
    assert!(matches!(
        ConfigSnapshot::from_bytes("source.yaml".into(), b"a: [\n"),
        Err(Error::Yaml(_))
    ));
}

#[test]
fn wildcards_become_loopback() {
    assert_eq!(probe_address("0.0.0.0:1"), "127.0.0.1:1");
    assert_eq!(probe_address("[::]:1"), "127.0.0.1:1");
    assert_eq!(probe_address(":1"), "127.0.0.1:1");
    assert_eq!(probe_address("10.0.0.1:1"), "10.0.0.1:1");
    assert_eq!(probe_address("localhost"), "localhost");
}

#[test]
fn documents_survive_reading_and_writing() {
    let raw = "b: -3\na:\n- 1\n- two\n- true\n- null\nc: 1.5\nd: {x: y}\n";
    let read = yaml::read(raw.as_bytes()).unwrap();
    let written = ConfigSnapshot::from_tree("s".into(), read).unwrap();
    let again = yaml::write(&Datum::Table(
        written.document().iter().map(|e| (e.0.copy(), e.1.copy())).collect(),
    ))
    .unwrap();
    assert_eq!(again, "a:\n- 1\n- two\n- true\n- null\nb: -3\nc: 1.5\nd:\n  x: y\n");
    assert!(yaml::read(b"a: [").is_err());
}

#[test]
fn tags_are_refused() {
    assert!(ConfigSnapshot::from_bytes("s".into(), b"a: !x 1\n").is_err());
}

#[test]
fn bootstraps_take_in_nothing() {
    let prepared = snapshot(
        "external-controller: 127.0.0.1:9090\nmixed-port: 7890\ntun: {enable: true, stack: mixed}\n",
    )
    .prepare_bootstrap(Platform::Unix, None)
    .unwrap();
    let text = String::from_utf8(prepared.bytes).unwrap();
    assert!(text.contains("mixed-port: 0\n"), "{text}");
    assert!(text.contains("enable: false\n"), "{text}");
}

fn document(raw: &str) -> Vec<(Datum, Datum)> {
    let Datum::Table(entries) = yaml::read(raw.as_bytes()).unwrap() else {
        panic!("expected a mapping");
    };
    entries
}

#[test]
fn changes_are_classified_deny_by_default() {
    let current = document("mode: rule\nport: 1\nrules: [a]\n");
    let same = document("mode: rule\nport: 1\nrules: [a]\n");
    assert!(matches!(classify_documents(&current, &same), Ok(ConfigChange::Noop)));
    let patched = document("mode: global\nport: 1\nrules: [a]\n");
    let Ok(ConfigChange::Patch { document: patch }) = classify_documents(&current, &patched) else {
        panic!("expected a patch");
    };
    assert_eq!(patch.len(), 1);
    assert_eq!(get(&patch, "mode").unwrap().as_str(), Some("global"));
    let reloaded = document("mode: rule\nport: 1\nrules: [b]\n");
    assert!(matches!(classify_documents(&current, &reloaded), Ok(ConfigChange::Reload)));
    let unknown = document("mode: rule\nport: 1\nrules: [a]\nnovelty: true\n");
    assert!(matches!(classify_documents(&current, &unknown), Ok(ConfigChange::Switch)));
}

#[test]
fn bound_listeners_need_a_new_core() {
    let current = document("dns: {listen: '0.0.0.0:53'}\n");
    let desired = document("dns: {listen: '0.0.0.0:54'}\n");
    assert!(matches!(classify_documents(&current, &desired), Ok(ConfigChange::Switch)));
}

#[test]
fn bootstraps_are_restored_with_a_patch() {
    let bootstrap = document("mixed-port: 0\nmode: rule\n");
    let full = document("mixed-port: 7890\nmode: rule\n");
    let patch = restoration_patch(&bootstrap, &full).unwrap().unwrap();
    assert_eq!(get(&patch, "mixed-port").unwrap().as_i64(), Some(7890));
    assert!(restoration_patch(&full, &full).unwrap().is_none());
    let other = document("mixed-port: 7890\nmode: rule\nnovelty: 1\n");
    assert!(matches!(restoration_patch(&bootstrap, &other), Err(Error::InvalidConfig(_))));
}

fn spec(kind: ClashCoreKind, version: Option<&str>) -> InstanceSpec {
    InstanceSpec {
        core: CoreSpec {
            kind,
            binary_path: "/opt/core".into(),
            version: version.map(|v| v.to_owned()),
            features: Arc::new(Vec::new()),
        },
        config_path: "/data/config.yaml".into(),
        working_dir: "/data".into(),
        pid_file: None,
        options: InstanceOptions::default(),
    }
}

#[test]
fn another_binary_needs_a_new_core() {
    let source = document("mode: rule\n");
    let current = spec(ClashCoreKind::Mihomo, Some("v1.18.9"));
    let mut desired = current.copy();
    assert!(matches!(
        classify(&source, &source, &current, &source, &source, &desired),
        Ok(ConfigChange::Noop)
    ));
    desired.core.binary_path = "/opt/other".into();
    assert!(matches!(
        classify(&source, &source, &current, &source, &source, &desired),
        Ok(ConfigChange::Switch)
    ));
}

#[test]
fn overlap_is_blocked_by_what_cannot_be_closed() {
    assert_eq!(overlap_block(&document("mode: rule\n")), None);
    assert_eq!(
        overlap_block(&document("dns: {listen: '0.0.0.0:53'}\n")),
        Some(OverlapBlock::DnsListen)
    );
    assert_eq!(overlap_block(&document("dns: {listen: ''}\n")), None);
    assert_eq!(
        overlap_block(&document("listeners: [{name: x}]\n")),
        Some(OverlapBlock::InboundSurface)
    );
}

#[test]
fn tags_hide_nothing_that_takes_in() {
    assert_eq!(overlap_block(&document("port: !x 0\n")), None);
    assert_eq!(
        overlap_block(&document("port: !x five\n")),
        Some(OverlapBlock::InboundSurface)
    );
    assert_eq!(
        overlap_block(&document("dns: !x {listen: !y '0.0.0.0:53'}\n")),
        Some(OverlapBlock::DnsListen)
    );
    assert_eq!(overlap_block(&document("tun: !x {enable: false}\n")), None);
}

#[test]
fn the_sign_of_a_zero_changes_nothing() {
    let current = document("dns: {listen: 0.0}\nnovelty: 0.0\n");
    let desired = document("dns: {listen: -0.0}\nnovelty: -0.0\n");
    assert!(matches!(classify_documents(&current, &desired), Ok(ConfigChange::Noop)));
}

#[test]
fn the_order_of_the_entries_changes_nothing() {
    let current = document("rules: [{a: 1, b: {c: x, d: 0.0}}]\nmode: rule\n");
    let desired = document("mode: rule\nrules: [{b: {d: -0.0, c: x}, a: 1}]\n");
    assert!(matches!(classify_documents(&current, &desired), Ok(ConfigChange::Noop)));
    let other = document("mode: rule\nrules: [{b: {d: 0.0}, a: 1}]\n");
    assert!(matches!(classify_documents(&current, &other), Ok(ConfigChange::Reload)));
}

#[test]
fn a_slash_at_the_end_of_a_directory_changes_nothing() {
    let source = document("mode: rule\n");
    let current = spec(ClashCoreKind::Mihomo, Some("v1.18.9"));
    let mut desired = current.copy();
    desired.working_dir = "/data/".into();
    desired.core.binary_path = "/opt//core".into();
    assert!(matches!(
        classify(&source, &source, &current, &source, &source, &desired),
        Ok(ConfigChange::Noop)
    ));
    desired.working_dir = "/data/sub".into();
    assert!(matches!(
        classify(&source, &source, &current, &source, &source, &desired),
        Ok(ConfigChange::Switch)
    ));
}

#[test]
fn colons_may_stand_in_the_name_of_a_socket() {
    let EndpointPlan::Ready(path) =
        managed_endpoint_path(Platform::Unix, "/run", Some("core:{epoch}.sock"), 4).unwrap()
    else {
        panic!("expected an endpoint");
    };
    assert_eq!(path, "/run/core:4.sock");
}

#[test]
fn every_patchable_field_has_its_place_in_a_change() {
    let current = document("interface-name: a\nlan-disallowed-ips: [x]\n");
    let desired = document("interface-name: b\nlan-disallowed-ips: [y]\n");
    let Ok(ConfigChange::Patch { document: patch }) = classify_documents(&current, &desired) else {
        panic!("expected a patch");
    };
    assert_eq!(get(&patch, "interface-name").unwrap().as_str(), Some("b"));
    assert!(get(&patch, "lan-disallowed-ips").is_some());
}

#[test]
fn only_known_nested_fields_are_patched() {
    let path = |keys: &[&str]| keys.iter().map(|k| k.to_string()).collect::<Vec<String>>();
    assert!(patch_nested_path_is_supported(&path(&["tun", "enable"])));
    assert!(!patch_nested_path_is_supported(&path(&["tun", "novelty"])));
}

#[test]
fn controller_template_must_name_the_epoch() {
    assert!(validate_controller_template("core-{epoch}.sock").is_ok());
    assert!(matches!(
        validate_controller_template("core.sock"),
        Err(Error::InvalidManagerOptions(m)) if m == "controller_template must contain `{epoch}`"
    ));
    assert!(managed_endpoint_path(Platform::Unix, "/run", Some("core.sock"), 0).is_err());
}

#[test]
fn endpoints_default_to_the_platforms_place() {
    assert_eq!(
        managed_endpoint_path(Platform::Windows, "/run", None, 4).unwrap(),
        EndpointPlan::Ready(r"\\.\pipe\nyanpasu\core-4".into())
    );
    assert!(matches!(
        managed_endpoint_path(Platform::Unix, "/run", None, 4).unwrap(),
        EndpointPlan::Ready(path) if path.ends_with("core-4.sock") && path.starts_with("/run")
    ));
}

#[test]
fn plain_names_are_neither_detours_nor_paths() {
    for name in ["core-4.sock", "...", "a b", ".x"] {
        assert!(is_plain_name(name), "{name}");
    }
    for name in ["", ".", "..", "a/b", "a\\b", "C:x"] {
        assert!(!is_plain_name(name), "{name}");
    }
}

#[test]
fn sockets_below_the_runtime_directory_are_looked_up() {
    let plan =
        managed_endpoint_path(Platform::Unix, "/srv/run", Some("sub/core-{epoch}.sock"), 4);
    assert_eq!(
        plan.unwrap(),
        EndpointPlan::Socket {
            candidate: "/srv/run/sub/core-4.sock".into(),
            parent: "/srv/run/sub".into()
        }
    );
    assert_eq!(
        managed_unix_endpoint(
            "/srv/run",
            "/srv/run/sub/core-4.sock",
            "/srv/run/sub",
            Canonical::Path("/srv/run/deep/sub".into())
        )
        .unwrap(),
        "/srv/run/deep/sub/core-4.sock"
    );
    let beside = managed_unix_endpoint(
        "/srv/run",
        "/srv/run/sub/core-4.sock",
        "/srv/run/sub",
        Canonical::Path("/srv/runner".into()),
    );
    assert!(matches!(
        beside,
        Err(Error::InvalidManagerOptions(m)) if m == "managed Unix controller \
            `/srv/run/sub/core-4.sock` escapes runtime directory `/srv/run`"
    ));
    assert!(matches!(
        managed_endpoint_path(Platform::Unix, "/", Some("{epoch}/.."), 4),
        Ok(EndpointPlan::Socket { .. })
    ));
}

#[test]
fn absolute_templates_are_taken_as_they_are() {
    assert_eq!(
        managed_endpoint_path(Platform::Unix, "/srv", Some("/srv/core-{epoch}.sock"), 4).unwrap(),
        EndpointPlan::Ready("/srv/core-4.sock".into())
    );
    assert_eq!(
        managed_endpoint_path(Platform::Unix, "/run", Some("/srv/core-{epoch}.sock"), 4).unwrap(),
        EndpointPlan::Socket { candidate: "/srv/core-4.sock".into(), parent: "/srv".into() }
    );
}

#[test]
fn endpoints_stay_in_the_runtime_directory() {
    let escaped = managed_unix_endpoint(
        "/srv/runtime",
        "/srv/runtime/../core-1.sock",
        "/srv/runtime/..",
        Canonical::Path("/srv".into()),
    );
    assert!(matches!(escaped, Err(Error::InvalidManagerOptions(m)) if m.contains("escapes")));
    let failed = managed_unix_endpoint(
        "/srv/runtime",
        "/srv/runtime/x/core-1.sock",
        "/srv/runtime/x",
        Canonical::Failed("missing".into()),
    );
    assert!(matches!(
        failed,
        Err(Error::InvalidManagerOptions(m))
            if m == "managed Unix controller parent `/srv/runtime/x` cannot be canonicalized: missing"
    ));
    let unnamed = managed_unix_endpoint(
        "/srv/runtime",
        "/srv/runtime/..",
        "/srv/runtime",
        Canonical::Path("/srv/runtime".into()),
    );
    assert!(matches!(unnamed, Err(Error::InvalidManagerOptions(m)) if m.contains("must name")));
    assert!(managed_unix_endpoint("/srv", "x", "y", Canonical::NotUtf8).is_err());
}

#[test]
fn run_args_match_each_core_profile() {
    let dir = "C:/data";
    let config = "C:/data/config.yaml";
    assert_eq!(
        run_args(ClashCoreKind::Mihomo, dir, config),
        ["-m", "-d", "C:/data", "-f", "C:/data/config.yaml"]
    );
    assert_eq!(
        run_args(ClashCoreKind::ClashRust, dir, config),
        ["-d", "C:/data", "-c", "C:/data/config.yaml"]
    );
    assert_eq!(
        run_args(ClashCoreKind::ClashPremium, dir, config),
        ["-d", "C:/data", "-f", "C:/data/config.yaml"]
    );
    assert_eq!(
        run_args(ClashCoreKind::Meow, dir, config),
        run_args(ClashCoreKind::Mihomo, dir, config)
    );
}

#[test]
fn clash_rs_receives_local_controller_cli_args() {
    let host = Host::unix_socket("/tmp/core.sock".into());
    assert_eq!(
        controller_args(ClashCoreKind::ClashRust, &host),
        ["--controller-ipc", "/tmp/core.sock"]
    );
    assert!(controller_args(ClashCoreKind::Mihomo, &host).is_empty());
}

#[test]
fn safe_paths_use_the_platform_separator() {
    assert_eq!(mihomo_safe_paths(Platform::Windows, "/a", "/b"), "/a;/b");
    assert_eq!(mihomo_safe_paths(Platform::Unix, "/a", "/b"), "/a:/b");
}

#[test]
fn diagnostics_prefer_stderr_then_last_stdout_line() {
    assert_eq!(summarize_output("first\nlast", ""), "last");
    assert_eq!(summarize_output("ignored", "fatal"), "fatal");
}

#[test]
fn checks_run_beside_the_configuration() {
    let command =
        plan_check(&spec(ClashCoreKind::Mihomo, None), Platform::Unix, Duration::from_secs(30))
            .unwrap();
    assert_eq!(command.program, "/opt/core");
    assert_eq!(command.args, ["-t", "-d", "/data", "-f", "/data/config.yaml"]);
    assert!(command.envs.contains(&("SAFE_PATHS".to_owned(), "/data:/data".to_owned())));
    assert_eq!(command.timeout, Some(Duration::from_secs(30)));
    let mut nowhere = spec(ClashCoreKind::Mihomo, None);
    nowhere.config_path = String::new();
    assert!(matches!(
        plan_check(&nowhere, Platform::Unix, Duration::from_secs(30)),
        Err(Error::ConfigNotFound(_))
    ));
}

#[test]
fn refused_configurations_say_why() {
    let output = |code, stderr: &str| {
        Ok(ProcessOutput { code, stdout: "last".into(), stderr: stderr.into() })
    };
    assert!(check_result(output(Some(0), "")).is_ok());
    assert!(matches!(
        check_result(output(Some(1), "bad")),
        Err(Error::ConfigCheckFailed(m)) if m == "bad"
    ));
    assert!(matches!(
        check_result(Err(ProcessError::Timeout { after: Duration::from_secs(2) })),
        Err(Error::ConfigCheckFailed(m)) if m == "config check timed out after 2s"
    ));
    assert!(matches!(
        check_result(Err(ProcessError::AlreadyExited)),
        Err(Error::Process(ProcessError::AlreadyExited))
    ));
}

#[test]
fn instance_options_defaults_match_spec() {
    let options = InstanceOptions::default();
    assert_eq!(options.startup_timeout, Duration::from_secs(30));
    assert_eq!(options.health.interval(), Duration::from_millis(250));
    assert_eq!(options.health.timeout(), Duration::from_secs(1));
    assert_eq!(options.health.failure_threshold().get(), 3);
    assert_eq!(options.health.success_threshold().get(), 1);
    assert_eq!(options.health.start_period(), Duration::zero());
    assert_eq!(
        options.restart_policy,
        RestartPolicy::OnFailure { max_restarts: 5 }
    );
}

#[test]
fn manager_defaults_keep_the_source_http_controller() {
    let options = ManagerOptions::default();
    assert_eq!(options.local_ipc_policy, LocalIpcPolicy::Disable);
    assert!(options.controller_template.is_none());
    assert!(options.runtime_dir.is_none());
    assert_eq!(options.control_timeout, Duration::from_secs(10));
    assert_eq!(options.reconcile_timeout, Duration::from_secs(30));
    assert_eq!(options.stop_timeout, Duration::from_secs(10));
    assert!(options.log_sink_enabled);
    assert_eq!(options.log_max_bytes, 4 * 1024 * 1024);
    assert_eq!(options.log_max_files, 5);
}

#[test]
fn explicit_core_version_resolves_without_asking() {
    let core = spec(ClashCoreKind::Mihomo, Some("v1.18.9")).core;
    let resolved =
        resolve_features(&core, None, LocalIpcPolicy::Disable, Platform::Windows).unwrap();
    assert_eq!(resolved.version.as_deref(), Some("v1.18.9"));
    assert!(!resolved.runtime.local_ipc);
    let forced = resolve_features(&core, None, LocalIpcPolicy::Force, Platform::Windows).unwrap();
    assert!(forced.runtime.local_ipc);
    let old = spec(ClashCoreKind::Mihomo, Some("v1.0.0")).core;
    assert!(resolve_features(&old, None, LocalIpcPolicy::Force, Platform::Unix).is_err());
    assert!(!resolve_features(&old, None, LocalIpcPolicy::Prefer, Platform::Unix)
        .unwrap()
        .runtime
        .local_ipc);
}
