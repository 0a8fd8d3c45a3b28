use nyanpasu_core::clash_api::client::{
    choose_base, http_target, query_target, response_result, target_from, Client, Host, Method,
    Route, Secret, Url,
};
use nyanpasu_core::clash_api::config::{
    ConfigPatch, RuntimeConfig, RuntimeProjection, RuntimeTuicServer, RuntimeTun, TuicServerPatch,
    TunPatch,
};
use nyanpasu_core::clash_api::configs::{UpdateConfigOptions, UpdateConfigRequest};
use nyanpasu_core::clash_api::error::Error;
use nyanpasu_core::clash_api::traffic::{Bytes, BytesPerSecond, Traffic};
use nyanpasu_core::platform::Platform;
use nyanpasu_core::value::{Datum, Number};

#[test]
fn request_constructors_select_one_source() {
    assert_eq!(
        UpdateConfigRequest::from_path("config.yaml"),
        UpdateConfigRequest {
            path: "config.yaml".into(),
            payload: String::new(),
        }
    );
    assert_eq!(
        UpdateConfigRequest::from_payload("port: 7890"),
        UpdateConfigRequest {
            path: String::new(),
            payload: "port: 7890".into(),
        }
    );
}

#[test]
fn update_target_carries_the_force_flag() {
    assert_eq!(UpdateConfigOptions { force: true }.target(), "/configs?force=true");
    assert_eq!(UpdateConfigOptions::default().target(), "/configs?force=false");
}

#[test]
fn traffic_uses_signed_fields() {
    let raw: serde_json::Value =
        serde_json::from_str(r#"{"up":-1,"down":2,"upTotal":3,"downTotal":4}"#).unwrap();
    let traffic = Traffic {
        up: BytesPerSecond::new(raw["up"].as_i64().unwrap()),
        down: BytesPerSecond::new(raw["down"].as_i64().unwrap()),
        up_total: Bytes::new(raw["upTotal"].as_i64().unwrap()),
        down_total: Bytes::new(raw["downTotal"].as_i64().unwrap()),
    };
    assert_eq!(traffic.up.get(), -1);
    assert_eq!(traffic.down_total.get(), 4);
}

#[test]
fn amounts_are_printed_and_converted() {
    assert_eq!(Bytes::new(-5).text(), "-5");
    assert_eq!(BytesPerSecond::new(12).text(), "12");
    assert_eq!(i64::from(Bytes::from(7)), 7);
    assert_eq!(i64::from(BytesPerSecond::from(-7)), -7);
}

#[test]
fn host_port_is_ergonomic_and_normalized() {
    let Host::Http(url) = Host::http("127.0.0.1:9090/api").unwrap() else {
        panic!("expected http host");
    };
    assert_eq!(url.text.as_str(), "http://127.0.0.1:9090/api/");
}

#[test]
fn full_urls_are_kept_and_ports_are_known() {
    let Host::Http(url) = Host::https("example.com").unwrap() else {
        panic!("expected http host");
    };
    assert_eq!(url.text, "https://example.com/");
    assert_eq!(url.port, None);
    assert_eq!(url.known_port, Some(443));
    let Host::Http(url) = Host::url("http://[::1]:9090").unwrap() else {
        panic!("expected http host");
    };
    assert_eq!(url.host.as_deref(), Some("[::1]"));
    assert_eq!(url.port, Some(9090));
}

#[test]
fn invalid_controller_urls_are_rejected() {
    assert!(matches!(
        Host::url("ftp://127.0.0.1/api"),
        Err(Error::UnsupportedUrlScheme { .. })
    ));
    assert!(matches!(
        Host::url("http://127.0.0.1/api?secret=x"),
        Err(Error::BaseUrlHasQueryOrFragment { .. })
    ));
    assert!(matches!(
        Host::url("http://127.0.0.1/api#part"),
        Err(Error::BaseUrlHasQueryOrFragment { .. })
    ));
    assert!(matches!(Host::url("not a url"), Err(Error::InvalidBaseUrl { .. })));
    assert!(matches!(Host::http("http://"), Err(Error::InvalidBaseUrl { .. })));
}

fn parsed(text: &str, path: &str) -> Url {
    Url {
        text: text.into(),
        scheme: "http".into(),
        host: Some("127.0.0.1".into()),
        port: Some(9090),
        known_port: Some(9090),
        path: path.into(),
        query: None,
        fragment: None,
        opaque: false,
    }
}

#[test]
fn bases_end_in_a_slash() {
    let first = parsed("http://127.0.0.1:9090/api", "/api");
    let second = parsed("http://127.0.0.1:9090/api/", "/api/");
    let chosen = choose_base("127.0.0.1:9090/api", Ok(first), Ok(second)).unwrap();
    assert_eq!(chosen.text, "http://127.0.0.1:9090/api/");
    let opaque = Url { opaque: true, ..parsed("http:x", "x") };
    assert!(matches!(
        choose_base("http:x", Ok(opaque), Err("unused".into())),
        Err(Error::UrlCannotBeABase { .. })
    ));
}

#[test]
fn secret_debug_is_redacted() {
    let secret = Secret::new("do-not-log-me");
    assert!(!secret.debug_text().contains("do-not-log-me"));
}

#[test]
fn secrets_become_bearer_tokens() {
    assert_eq!(
        Secret::new("key").authorization_value().unwrap().as_deref(),
        Some("Bearer key")
    );
    assert_eq!(Secret::new("").authorization_value().unwrap(), None);
    assert!(Secret::new("").is_empty());
    assert!(matches!(
        Secret::new("a\nb").authorization_value(),
        Err(Error::InvalidHeader)
    ));
}

#[test]
fn local_endpoint_kinds_are_preserved() {
    assert!(matches!(
        Host::named_pipe("chimera-test".into()),
        Host::NamedPipe(path) if path == "chimera-test"
    ));
    assert!(matches!(
        Host::unix_socket("/tmp/chimera-test.sock".into()),
        Host::UnixSocket(path) if path == "/tmp/chimera-test.sock"
    ));
}

#[test]
fn endpoints_are_reached_on_their_platform_only() {
    let pipe = Client::new(Host::named_pipe("chimera".into()));
    assert_eq!(
        pipe.route(Platform::Windows).unwrap(),
        Route::Local { endpoint: r"\\.\pipe\chimera".into() }
    );
    assert!(matches!(
        pipe.route(Platform::Unix),
        Err(Error::UnsupportedTransport { transport }) if transport == "named pipe"
    ));
    let socket = Client::new(Host::unix_socket("/run/core.sock".into()));
    assert_eq!(
        socket.route(Platform::Unix).unwrap(),
        Route::Local { endpoint: "/run/core.sock".into() }
    );
    assert!(matches!(
        socket.route(Platform::Windows),
        Err(Error::UnsupportedTransport { transport }) if transport == "unix socket"
    ));
    let http = Client::new(Host::http("127.0.0.1:9090").unwrap());
    assert_eq!(
        http.route(Platform::Unix).unwrap(),
        Route::Tcp { host: "127.0.0.1".into(), port: 9090 }
    );
}

#[test]
fn targets_are_resolved_below_the_base() {
    let Host::Http(base) = Host::http("127.0.0.1:9090/api").unwrap() else {
        panic!("expected http host");
    };
    assert_eq!(
        http_target(&base, "127.0.0.1", "/configs?force=true").unwrap(),
        ("/api/configs?force=true".to_owned(), "127.0.0.1:9090".to_owned())
    );
    let resolved = Url { query: Some("a=b".into()), ..parsed("x", "/api/x") };
    assert_eq!(
        target_from(&base, "127.0.0.1", Ok(resolved)).unwrap(),
        ("/api/x?a=b".to_owned(), "127.0.0.1:9090".to_owned())
    );
    assert!(matches!(
        target_from(&base, "127.0.0.1", Err("bad".into())),
        Err(Error::InvalidBaseUrl { source, .. }) if source == "bad"
    ));
    assert_eq!(query_target("/x", ""), "/x");
    assert_eq!(query_target("/x", "a=b"), "/x?a=b");
}

#[test]
fn request_heads_carry_the_secret_and_the_kind_of_body() {
    let client = Client::with_secret(Host::unix_socket("s".into()), Secret::new("key"));
    let head = client.head(Method::Put, "/configs".into(), "localhost".into(), true).unwrap();
    assert_eq!(head.authorization.as_deref(), Some("Bearer key"));
    assert_eq!(head.content_type.as_deref(), Some("application/json"));
    let bare = Client::new(Host::unix_socket("s".into()));
    let head = bare.head(Method::Get, "/version".into(), "localhost".into(), false).unwrap();
    assert_eq!((head.authorization, head.content_type), (None, None));
    assert!(matches!(bare.host(), Host::UnixSocket(path) if path == "s"));
}

#[test]
fn responses_outside_the_two_hundreds_are_errors() {
    assert_eq!(response_result(204, vec![1]).unwrap(), vec![1]);
    assert!(matches!(
        response_result(404, b"gone".to_vec()),
        Err(Error::HttpStatus { status: 404, body }) if body == "gone"
    ));
    assert!(response_result(199, Vec::new()).is_err());
    assert!(response_result(300, Vec::new()).is_err());
}

#[test]
fn status_errors_name_the_status() {
    let shown = Error::HttpStatus { status: 404, body: "gone".into() }.message();
    assert!(shown.contains("404 Not Found") && shown.contains("gone"), "{shown}");
}

#[test]
fn projection_verifies_only_fields_carried_by_patch() {
    let patch = ConfigPatch {
        allow_lan: Some(true),
        mode: Some("rule".into()),
        ..ConfigPatch::default()
    };
    let projection = RuntimeProjection::from_patch(&patch);
    let mut actual = RuntimeConfig {
        allow_lan: Some(true),
        mode: Some("rule".into()),
        mixed_port: Some(7890),
        ..RuntimeConfig::default()
    };
    assert!(projection.verify(&actual));

    actual.mode = Some("global".into());
    assert!(!projection.verify(&actual));
}

#[test]
fn tun_projection_requires_enable_and_changed_nested_fields() {
    let patch = ConfigPatch {
        tun: Some(TunPatch {
            enable: true,
            stack: Some("mixed".into()),
            auto_route: Some(true),
            include_interface: Some(vec!["Ethernet".into()]),
            inet4_route_exclude_address: Some(vec!["192.168.0.0/16".into()]),
            ..TunPatch::default()
        }),
        ..ConfigPatch::default()
    };
    let projection = RuntimeProjection::from_patch(&patch);
    let actual = RuntimeConfig {
        tun: Some(RuntimeTun {
            enable: true,
            stack: "mixed".into(),
            auto_route: true,
            include_interface: vec!["Ethernet".into()],
            inet4_route_exclude_address: vec!["192.168.0.0/16".into()],
            ..RuntimeTun::default()
        }),
        ..RuntimeConfig::default()
    };
    assert!(projection.verify(&actual));
}

#[test]
fn extended_patch_surface_verifies_tuic_and_access_ranges() {
    let patch = ConfigPatch {
        tuic_server: Some(TuicServerPatch {
            enable: true,
            listen: Some("127.0.0.1:10443".into()),
            alpn: Some(vec!["h3".into()]),
            ..TuicServerPatch::default()
        }),
        skip_auth_prefixes: Some(vec!["127.0.0.0/8".into()]),
        lan_allowed_ips: Some(vec!["192.168.0.0/16".into()]),
        ss_config: Some("ss://runtime".into()),
        ..ConfigPatch::default()
    };
    let projection = RuntimeProjection::from_patch(&patch);
    let actual = RuntimeConfig {
        tuic_server: Some(RuntimeTuicServer {
            enable: true,
            listen: "127.0.0.1:10443".into(),
            alpn: vec!["h3".into()],
            ..RuntimeTuicServer::default()
        }),
        skip_auth_prefixes: Some(vec!["127.0.0.0/8".into()]),
        lan_allowed_ips: Some(vec!["192.168.0.0/16".into()]),
        ss_config: Some("ss://runtime".into()),
        ..RuntimeConfig::default()
    };
    assert!(projection.verify(&actual));
}

#[test]
fn the_interface_of_a_change_is_verified() {
    let projection = RuntimeProjection::from_patch(&ConfigPatch {
        interface_name: Some("eth0".into()),
        ..ConfigPatch::default()
    });
    let mut actual =
        RuntimeConfig { interface_name: Some("eth0".into()), ..RuntimeConfig::default() };
    assert!(projection.verify(&actual));
    actual.interface_name = Some("wlan0".into());
    assert!(!projection.verify(&actual));
    assert!(!projection.verify(&RuntimeConfig::default()));
}

#[test]
fn the_refused_addresses_of_a_change_are_verified() {
    let projection = RuntimeProjection::from_patch(&ConfigPatch {
        lan_disallowed_ips: Some(vec!["10.0.0.0/8".into()]),
        ..ConfigPatch::default()
    });
    let mut actual = RuntimeConfig {
        lan_disallowed_ips: Some(vec!["10.0.0.0/8".into()]),
        ..RuntimeConfig::default()
    };
    assert!(projection.verify(&actual));
    actual.lan_disallowed_ips = Some(Vec::new());
    assert!(!projection.verify(&actual));
}

#[test]
fn sendmsgx_is_a_part_of_tun() {
    let projection = RuntimeProjection::from_patch(&ConfigPatch {
        tun: Some(TunPatch { enable: true, sendmsgx: Some(true), ..TunPatch::default() }),
        ..ConfigPatch::default()
    });
    let shown = |sendmsgx: bool| RuntimeConfig {
        tun: Some(RuntimeTun { enable: true, sendmsgx, ..RuntimeTun::default() }),
        ..RuntimeConfig::default()
    };
    assert!(projection.verify(&shown(true)));
    assert!(!projection.verify(&shown(false)));
}

#[test]
fn the_bbr_profile_is_a_part_of_tuic() {
    let projection = RuntimeProjection::from_patch(&ConfigPatch {
        tuic_server: Some(TuicServerPatch {
            enable: true,
            bbr_profile: Some("aggressive".into()),
            ..TuicServerPatch::default()
        }),
        ..ConfigPatch::default()
    });
    let shown = |profile: &str| RuntimeConfig {
        tuic_server: Some(RuntimeTuicServer {
            enable: true,
            bbr_profile: profile.into(),
            ..RuntimeTuicServer::default()
        }),
        ..RuntimeConfig::default()
    };
    assert!(projection.verify(&shown("aggressive")));
    assert!(!projection.verify(&shown("standard")));
}

#[test]
fn the_two_zeros_are_one_number() {
    let decimal = |s: &str| Datum::Number(Number::Decimal(s.into()));
    assert!(decimal("0.0").same(&decimal("-0.0")));
    assert!(decimal("1.5").same(&decimal("1.5")));
    assert!(!decimal("1.5").same(&decimal("-1.5")));
    assert!(Datum::List(vec![decimal("0.0")]).same(&Datum::List(vec![decimal("-0.0")])));
    assert!(!decimal("0.0").same(&Datum::Number(Number::Unsigned(0))));
}

#[test]
fn values_are_read_below_their_tags() {
    let tagged = |inner: Datum| Datum::Tagged("!x".into(), Box::new(inner));
    assert_eq!(tagged(text("a")).as_str(), Some("a"));
    assert_eq!(tagged(tagged(Datum::Bool(true))).as_bool(), Some(true));
    assert_eq!(tagged(Datum::Number(Number::Negative(-3))).as_i64(), Some(-3));
    assert!(tagged(Datum::Null).is_null());
    assert_eq!(tagged(Datum::Table(Vec::new())).as_table().map(|t| t.len()), Some(0));
    assert_eq!(tagged(text("a")).as_bool(), None);
}

fn text(s: &str) -> Datum {
    Datum::Text(s.to_owned())
}

#[test]
fn projections_of_documents_ignore_what_they_do_not_name() {
    let expected = Datum::Table(vec![(
        text("dns"),
        Datum::Table(vec![(text("enable"), Datum::Bool(true))]),
    )]);
    let actual = Datum::Table(vec![
        (text("port"), Datum::Number(Number::Unsigned(7890))),
        (
            text("dns"),
            Datum::Table(vec![(text("enable"), Datum::Bool(true)), (text("x"), Datum::Null)]),
        ),
    ]);
    let projection = RuntimeProjection::from_value(&expected);
    assert!(projection.verify_value(&actual));
    assert!(projection.verify_value(&expected));
    assert!(!projection.verify_value(&Datum::Table(vec![])));
}
