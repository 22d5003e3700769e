use sandbox_config::tls::config::{
    default_cache_capacity, default_cert_validity_hours, default_intercepted_ports, default_true,
    CertCacheConfig, InterceptCaConfig, ScopedUpstreamCaCert, ScopedVerifyUpstream, TlsConfig,
};
use sandbox_config::tls::domain::{DomainName, DomainNameError};
use sandbox_config::tls::host::{TlsLoopbackHost, TlsLoopbackHostError};
use sandbox_config::tls::port::NonZeroPort;
use sandbox_config::tls::routes::{TargetAddr, TlsLoopbackRouteError, TlsLoopbackRoutes};
use std::path::PathBuf;

fn loopback(port: u16) -> Option<TargetAddr> {
    Some(TargetAddr { ip: [127, 0, 0, 1], port })
}

fn host(text: &str) -> TlsLoopbackHost {
    text.parse().expect("valid exact host")
}

fn port(number: u16) -> NonZeroPort {
    NonZeroPort::new(number).expect("non-zero port")
}

/// The routes under `loopback_routes` of a JSON document.
fn parse_routes(json: &str) -> Result<TlsLoopbackRoutes, TlsLoopbackRouteError> {
    let config: serde_json::Value = serde_json::from_str(json).expect("JSON document");
    let entries: Vec<(String, u16)> = config["loopback_routes"]
        .as_object()
        .expect("object of routes")
        .iter()
        .map(|(host, port)| (host.clone(), port.as_u64().expect("port number") as u16))
        .collect();
    TlsLoopbackRoutes::from_entries(&entries)
}

#[test]
fn loopback_routes_match_only_the_exact_canonical_host() {
    let mut routes = TlsLoopbackRoutes::default();
    routes.insert(
        "LLM-BROKER.ORBIT.INVALID."
            .parse()
            .expect("valid exact host"),
        NonZeroPort::new(43123).expect("non-zero port"),
    );

    assert_eq!(routes.target("llm-broker.orbit.invalid"), loopback(43123));
    assert_eq!(routes.target("LLM-BROKER.ORBIT.INVALID."), loopback(43123));
    assert_eq!(routes.target("other.llm-broker.orbit.invalid"), None);
}

#[test]
fn loopback_routes_deserialize_validated_hosts_and_nonzero_ports() {
    let routes = parse_routes(
        r#"{
                "loopback_routes": {
                    "llm-broker.orbit.invalid": 43123
                }
            }"#,
    )
    .expect("valid loopback route");

    let target = routes.target("llm-broker.orbit.invalid").expect("socket address");
    let [a, b, c, d] = target.ip;
    assert_eq!(format!("{a}.{b}.{c}.{d}:{}", target.port), "127.0.0.1:43123");

    assert!(parse_routes(r#"{"loopback_routes":{"*.orbit.invalid":43123}}"#).is_err());
    assert!(parse_routes(r#"{"loopback_routes":{"llm-broker.orbit.invalid":0}}"#).is_err());
}

#[test]
fn every_spelling_of_a_host_is_routed() {
    let mut routes = TlsLoopbackRoutes::default();
    routes.insert(host("Api.Example.com"), port(8443));
    for text in ["api.example.com", "API.EXAMPLE.COM", "aPi.example.com.", "api.example.com."] {
        assert_eq!(routes.target(text), loopback(8443));
    }
    for text in ["", ".", "example.com", "x.api.example.com", ".api.example.com"] {
        assert_eq!(routes.target(text), None);
    }
    assert_eq!(routes.target("api.example.com.."), None);
    assert_eq!(routes.target("*.example.com"), None);
    assert_eq!(routes.target("api.example.co"), None);
}

#[test]
fn the_last_port_of_a_host_counts() {
    let mut routes = TlsLoopbackRoutes::default();
    routes.insert(host("a.test"), port(1));
    routes.insert(host("b.test"), port(2));
    routes.insert(host("A.TEST."), port(3));
    assert_eq!(routes.target("a.test"), loopback(3));
    assert_eq!(routes.target("b.test"), loopback(2));
    assert_eq!(routes.to_entries().len(), 2);
}

#[test]
fn routes_are_kept_in_the_order_of_their_hosts() {
    let mut routes = TlsLoopbackRoutes::default();
    let names = ["m.test", "b.test", "z.test", "a.test", "b", "n_1.test", "n-1.test", "9.test"];
    for (i, name) in names.iter().enumerate() {
        routes.insert(host(name), port(1000 + i as u16));
    }
    let mut expected: Vec<(String, u16)> = names
        .iter()
        .enumerate()
        .map(|(i, name)| (name.to_string(), 1000 + i as u16))
        .collect();
    expected.sort();
    assert_eq!(routes.to_entries(), expected);
    for (i, name) in names.iter().enumerate() {
        assert_eq!(routes.target(name), loopback(1000 + i as u16));
    }
}

#[test]
fn routes_survive_being_written_out_and_read_back() {
    let mut routes = TlsLoopbackRoutes::default();
    routes.insert(host("B.Example."), port(65535));
    routes.insert(host("a.example"), port(1));
    let entries = routes.to_entries();
    let read = TlsLoopbackRoutes::from_entries(&entries).unwrap();
    assert_eq!(read.to_entries(), entries);
    assert_eq!(read.target("b.example"), loopback(65535));
    assert_eq!(read.clone().to_entries(), entries);
}

#[test]
fn a_later_entry_replaces_an_earlier_one() {
    let entries = vec![
        ("a.test".to_string(), 1),
        ("A.test".to_string(), 2),
        ("c.test".to_string(), 3),
    ];
    let routes = TlsLoopbackRoutes::from_entries(&entries).unwrap();
    assert_eq!(routes.target("a.test"), loopback(2));
    assert_eq!(routes.to_entries(), vec![("a.test".to_string(), 2), ("c.test".to_string(), 3)]);
}

#[test]
fn the_first_entry_at_fault_decides_the_error() {
    let wildcard = ("*.test".to_string(), 0);
    let zero = ("a.test".to_string(), 0);
    let empty = ("".to_string(), 1);
    let good = ("b.test".to_string(), 1);
    let load = |entries: &[(String, u16)]| TlsLoopbackRoutes::from_entries(entries).unwrap_err();
    assert_eq!(
        load(&[good.clone(), wildcard.clone(), zero.clone()]),
        TlsLoopbackRouteError::Host(TlsLoopbackHostError::Wildcard)
    );
    assert_eq!(load(&[good.clone(), zero, empty.clone()]), TlsLoopbackRouteError::ZeroPort);
    assert_eq!(
        load(&[empty, wildcard, good]),
        TlsLoopbackRouteError::Host(TlsLoopbackHostError::InvalidDomain(DomainNameError::Empty))
    );
    assert!(TlsLoopbackRoutes::from_entries(&[]).unwrap().to_entries().is_empty());
}

#[test]
fn hosts_are_canonical_and_exact() {
    let name = String::from(host("EXAMPLE.Com."));
    assert_eq!(name, "example.com");
    assert_eq!(host(&name), host("EXAMPLE.Com."));
    assert_eq!(host(&name).as_str(), "example.com");
    assert_eq!(
        TlsLoopbackHost::try_from("*.example.com".to_string()),
        Err(TlsLoopbackHostError::Wildcard)
    );
    assert_eq!("a b*".parse::<TlsLoopbackHost>(), Err(TlsLoopbackHostError::Wildcard));
    assert_eq!(
        "a b".parse::<TlsLoopbackHost>(),
        Err(TlsLoopbackHostError::InvalidDomain(DomainNameError::InvalidCharacter))
    );
}

#[test]
fn a_name_error_becomes_a_host_error() {
    assert_eq!(
        TlsLoopbackHostError::from(DomainNameError::TooLong),
        TlsLoopbackHostError::InvalidDomain(DomainNameError::TooLong)
    );
}

#[test]
fn a_route_changes_nothing_below_its_host() {
    let mut routes = TlsLoopbackRoutes::default();
    routes.insert(host("x.a.test"), port(1));
    routes.insert(host("a.test"), port(2));
    assert_eq!(routes.target("x.a.test"), loopback(1));
    assert_eq!(routes.target("y.a.test"), None);
}

#[test]
fn host_errors_say_what_is_wrong() {
    assert_eq!(
        TlsLoopbackHostError::Wildcard.message(),
        "TLS loopback route host must not contain a wildcard"
    );
    assert_eq!(
        TlsLoopbackHostError::InvalidDomain(DomainNameError::TooLong).message(),
        DomainNameError::TooLong.message()
    );
    assert_eq!(DomainNameError::Empty.message(), "domain name must hold a label");
    assert_eq!(
        DomainNameError::InvalidCharacter.message(),
        "domain name holds an invalid character"
    );
    assert_eq!(DomainNameError::TooLong.message(), "domain name is too long");
    assert_eq!(DomainNameError::InvalidLabel.message(), "domain name holds an invalid label");
}

#[test]
fn names_are_parsed_or_refused() {
    let parse = |text: &str| text.parse::<DomainName>().map(|name| name.into_string());
    assert_eq!(parse("_Dmarc.Example.org."), Ok("_dmarc.example.org".to_string()));
    assert_eq!(parse("localhost"), Ok("localhost".to_string()));
    assert_eq!(parse("a-1.b"), Ok("a-1.b".to_string()));
    assert_eq!(parse(""), Err(DomainNameError::Empty));
    assert_eq!(parse("."), Err(DomainNameError::Empty));
    assert_eq!(parse(".."), Err(DomainNameError::InvalidLabel));
    assert_eq!(parse("a..b"), Err(DomainNameError::InvalidLabel));
    assert_eq!(parse(".a"), Err(DomainNameError::InvalidLabel));
    assert_eq!(parse("a.-b"), Err(DomainNameError::InvalidLabel));
    assert_eq!(parse("a-.b"), Err(DomainNameError::InvalidLabel));
    assert_eq!(parse("b\u{fc}cher.example"), Err(DomainNameError::InvalidCharacter));
    assert_eq!(parse("a/b"), Err(DomainNameError::InvalidCharacter));
}

#[test]
fn names_and_labels_have_a_longest_length() {
    let parse = |text: &str| text.parse::<DomainName>().map(|name| name.as_str().len());
    let label = "a".repeat(63);
    assert_eq!(parse(&label), Ok(63));
    assert_eq!(parse(&"a".repeat(64)), Err(DomainNameError::InvalidLabel));
    let longest = format!("{label}.{label}.{label}.{}", "a".repeat(61));
    assert_eq!(parse(&longest), Ok(253));
    assert_eq!(parse(&format!("{longest}.")), Ok(253));
    assert_eq!(parse(&format!("{longest}a")), Err(DomainNameError::TooLong));
}

#[test]
fn zero_is_no_port() {
    assert!(NonZeroPort::new(0).is_none());
    assert_eq!(port(1).get(), 1);
    assert_eq!(port(65535).get(), 65535);
}

#[test]
fn defaults_intercept_nothing_and_verify_everything() {
    let config = TlsConfig::default();
    assert!(!config.enabled);
    assert_eq!(config.intercepted_ports, vec![443]);
    assert!(config.bypass.is_empty());
    assert!(config.loopback_routes.to_entries().is_empty());
    assert_eq!(config.loopback_routes.target("example.com"), None);
    assert!(config.verify_upstream);
    assert!(config.block_quic_on_intercept);
    assert!(config.upstream_ca_cert.is_empty());
    assert!(config.scoped_upstream_ca_cert.is_empty());
    assert!(config.scoped_verify_upstream.is_empty());
    assert!(config.intercept_ca.cert_path.is_none());
    assert!(config.intercept_ca.key_path.is_none());
    assert_eq!(config.cache.capacity, 1000);
    assert_eq!(config.cache.validity_hours, 24);
    assert!(default_true());
    assert_eq!(default_intercepted_ports(), vec![443]);
    assert_eq!(default_cache_capacity(), 1000);
    assert_eq!(default_cert_validity_hours(), 24);
    assert_eq!(CertCacheConfig::default().capacity, 1000);
}

#[test]
fn a_clone_holds_the_same_settings() {
    let mut config = TlsConfig::default();
    config.bypass.push("*.internal".to_string());
    config.loopback_routes.insert(host("a.test"), port(9));
    config.upstream_ca_cert.push(PathBuf::from("/etc/ca.pem"));
    config.scoped_upstream_ca_cert.push(ScopedUpstreamCaCert {
        pattern: "*.corp".to_string(),
        path: PathBuf::from("/etc/corp.pem"),
    });
    config
        .scoped_verify_upstream
        .push(ScopedVerifyUpstream { pattern: "lab.test".to_string(), verify: false });
    config.intercept_ca = InterceptCaConfig {
        cert_path: Some(PathBuf::from("/etc/cert.pem")),
        key_path: None,
    };
    let copy = config.clone();
    assert_eq!(format!("{copy:?}"), format!("{config:?}"));
    assert_eq!(copy.upstream_ca_cert, vec![PathBuf::from("/etc/ca.pem")]);
    assert_eq!(copy.loopback_routes.target("a.test"), loopback(9));
}
