//! TLS interception configuration types.
//!
//! These types configure inline TLS interception. All TCP connections of a sandbox
//! terminate in its networking stack, so interception is handled by proxy tasks and
//! needs no redirect rules in the kernel.

use super::routes::TlsLoopbackRoutes;
use std::path::PathBuf;
use vstd::prelude::*;

verus! {

/// `std::path::PathBuf`, a path that is carried through and never looked into.
#[verifier::external_type_specification]
#[verifier::external_body]
pub struct ExPathBuf(std::path::PathBuf);

/// `PathBuf::clone` returns a duplicate: the same path.
pub assume_specification[ <std::path::PathBuf as Clone>::clone ](
    path: &std::path::PathBuf,
) -> (copy: std::path::PathBuf)
    ensures
        copy == *path,
;

/// TLS interception configuration.
#[derive(Debug)]
pub struct TlsConfig {
    /// Whether TLS interception is enabled.
    pub enabled: bool,
    /// TCP ports subject to TLS interception (default: `[443]`).
    pub intercepted_ports: Vec<u16>,
    /// Domains to bypass. Supports exact match and `*.suffix` wildcards.
    pub bypass: Vec<String>,
    /// Exact TLS hostnames redirected to a host loopback listener.
    ///
    /// Only the port is configurable. The destination address is always
    /// `127.0.0.1`, so this cannot become an arbitrary host-side proxy.
    pub loopback_routes: TlsLoopbackRoutes,
    /// Whether to verify the upstream server's TLS certificate.
    pub verify_upstream: bool,
    /// Drop UDP to intercepted ports when TLS interception is active,
    /// forcing QUIC traffic to fall back to TCP/TLS.
    pub block_quic_on_intercept: bool,
    /// CA certificate PEM files to trust for upstream server verification.
    pub upstream_ca_cert: Vec<PathBuf>,
    /// Host-scoped CA certificate PEM files to trust for upstream server verification.
    pub scoped_upstream_ca_cert: Vec<ScopedUpstreamCaCert>,
    /// Host-scoped upstream verification overrides.
    pub scoped_verify_upstream: Vec<ScopedVerifyUpstream>,
    /// Interception CA configuration. The TLS proxy uses this CA to sign
    /// per-domain certificates that it presents to the guest during interception.
    pub intercept_ca: InterceptCaConfig,
    /// Per-domain certificate cache configuration.
    pub cache: CertCacheConfig,
}

/// A CA certificate PEM file trusted only for matching upstream hosts.
#[derive(Debug)]
pub struct ScopedUpstreamCaCert {
    /// Host pattern this CA applies to. Supports exact hosts and `*.suffix` wildcards.
    pub pattern: String,
    /// Path to the CA certificate PEM file.
    pub path: PathBuf,
}

/// An upstream certificate verification override for matching hosts.
#[derive(Debug)]
pub struct ScopedVerifyUpstream {
    /// Host pattern this override applies to. Supports exact hosts and `*.suffix`
    /// wildcards.
    pub pattern: String,
    /// Whether to verify matching upstream server certificates.
    pub verify: bool,
}

/// Certificate authority configuration for TLS interception.
#[derive(Debug)]
pub struct InterceptCaConfig {
    /// Path to an existing CA certificate PEM file.
    /// If `None`, a CA is auto-generated and persisted.
    pub cert_path: Option<PathBuf>,
    /// Path to an existing CA private key PEM file.
    /// If `None`, a key is auto-generated and persisted.
    pub key_path: Option<PathBuf>,
}

/// Per-domain certificate cache configuration.
#[derive(Debug, Clone, Copy)]
pub struct CertCacheConfig {
    /// Maximum number of cached certificates. Default: 1000.
    pub capacity: usize,
    /// Certificate validity duration in hours. Default: 24.
    pub validity_hours: u64,
}

impl TlsConfig {
    /// Both configurations hold the same settings.
    pub open spec fn same_settings(self, other: Self) -> bool {
        &&& self.enabled == other.enabled
        &&& self.intercepted_ports@ == other.intercepted_ports@
        &&& self.bypass.len() == other.bypass.len()
        &&& forall|i: int|
            0 <= i < self.bypass.len() ==> (#[trigger] self.bypass@[i])@ == other.bypass@[i]@
        &&& self.loopback_routes.routes() == other.loopback_routes.routes()
        &&& self.verify_upstream == other.verify_upstream
        &&& self.block_quic_on_intercept == other.block_quic_on_intercept
        &&& self.upstream_ca_cert@ == other.upstream_ca_cert@
        &&& self.scoped_upstream_ca_cert.len() == other.scoped_upstream_ca_cert.len()
        &&& forall|i: int|
            0 <= i < self.scoped_upstream_ca_cert.len() ==> (
            #[trigger] self.scoped_upstream_ca_cert@[i]).same_settings(
                other.scoped_upstream_ca_cert@[i],
            )
        &&& self.scoped_verify_upstream.len() == other.scoped_verify_upstream.len()
        &&& forall|i: int|
            0 <= i < self.scoped_verify_upstream.len() ==> (
            #[trigger] self.scoped_verify_upstream@[i]).same_settings(
                other.scoped_verify_upstream@[i],
            )
        &&& self.intercept_ca == other.intercept_ca
        &&& self.cache == other.cache
    }
}

impl ScopedUpstreamCaCert {
    /// Both entries hold the same pattern and the same path.
    pub open spec fn same_settings(self, other: Self) -> bool {
        self.pattern@ == other.pattern@ && self.path == other.path
    }
}

impl ScopedVerifyUpstream {
    /// Both entries hold the same pattern and the same switch.
    pub open spec fn same_settings(self, other: Self) -> bool {
        self.pattern@ == other.pattern@ && self.verify == other.verify
    }
}

impl Clone for TlsConfig {
    fn clone(&self) -> (copy: Self)
        ensures
            self.same_settings(copy),
            copy.enabled == self.enabled,
            copy.intercepted_ports@ == self.intercepted_ports@,
            copy.bypass@.map_values(|domain: String| domain@) == self.bypass@.map_values(
                |domain: String| domain@,
            ),
            copy.loopback_routes@ == self.loopback_routes@,
            copy.verify_upstream == self.verify_upstream,
            copy.block_quic_on_intercept == self.block_quic_on_intercept,
            copy.upstream_ca_cert@ == self.upstream_ca_cert@,
            copy.scoped_upstream_ca_cert@.map_values(
                |cert: ScopedUpstreamCaCert| (cert.pattern@, cert.path),
            ) == self.scoped_upstream_ca_cert@.map_values(
                |cert: ScopedUpstreamCaCert| (cert.pattern@, cert.path),
            ),
            copy.scoped_verify_upstream@.map_values(
                |scope: ScopedVerifyUpstream| (scope.pattern@, scope.verify),
            ) == self.scoped_verify_upstream@.map_values(
                |scope: ScopedVerifyUpstream| (scope.pattern@, scope.verify),
            ),
            copy.intercept_ca == self.intercept_ca,
            copy.cache == self.cache,
    {
        let intercepted_ports = self.intercepted_ports.clone();
        let upstream_ca_cert = self.upstream_ca_cert.clone();
        assert(intercepted_ports@ =~= self.intercepted_ports@);
        assert(upstream_ca_cert@ =~= self.upstream_ca_cert@);
        TlsConfig {
            enabled: self.enabled,
            intercepted_ports,
            bypass: self.bypass.clone(),
            loopback_routes: self.loopback_routes.clone(),
            verify_upstream: self.verify_upstream,
            block_quic_on_intercept: self.block_quic_on_intercept,
            upstream_ca_cert,
            scoped_upstream_ca_cert: self.scoped_upstream_ca_cert.clone(),
            scoped_verify_upstream: self.scoped_verify_upstream.clone(),
            intercept_ca: self.intercept_ca.clone(),
            cache: self.cache,
        }
    }
}

impl Clone for ScopedUpstreamCaCert {
    fn clone(&self) -> (copy: Self)
        ensures
            self.same_settings(copy),
            copy.pattern@ == self.pattern@,
            copy.path == self.path,
    {
        ScopedUpstreamCaCert { pattern: self.pattern.clone(), path: self.path.clone() }
    }
}

impl Clone for ScopedVerifyUpstream {
    fn clone(&self) -> (copy: Self)
        ensures
            self.same_settings(copy),
            copy.pattern@ == self.pattern@,
            copy.verify == self.verify,
    {
        ScopedVerifyUpstream { pattern: self.pattern.clone(), verify: self.verify }
    }
}

impl Clone for InterceptCaConfig {
    fn clone(&self) -> (copy: Self)
        ensures
            copy == *self,
    {
        InterceptCaConfig { cert_path: self.cert_path.clone(), key_path: self.key_path.clone() }
    }
}

impl Default for TlsConfig {
    fn default() -> (config: Self)
        ensures
            !config.enabled,
            config.intercepted_ports@ == seq![443u16],
            config.bypass@ == Seq::<String>::empty(),
            config.loopback_routes@ == Map::<Seq<char>, u16>::empty(),
            config.verify_upstream,
            config.block_quic_on_intercept,
            config.upstream_ca_cert@ == Seq::<PathBuf>::empty(),
            config.scoped_upstream_ca_cert@ == Seq::<ScopedUpstreamCaCert>::empty(),
            config.scoped_verify_upstream@ == Seq::<ScopedVerifyUpstream>::empty(),
            config.intercept_ca.cert_path is None,
            config.intercept_ca.key_path is None,
            config.cache.capacity == 1000,
            config.cache.validity_hours == 24,
    {
        TlsConfig {
            enabled: false,
            intercepted_ports: default_intercepted_ports(),
            bypass: Vec::new(),
            loopback_routes: TlsLoopbackRoutes::default(),
            verify_upstream: default_true(),
            block_quic_on_intercept: default_true(),
            upstream_ca_cert: Vec::new(),
            scoped_upstream_ca_cert: Vec::new(),
            scoped_verify_upstream: Vec::new(),
            intercept_ca: InterceptCaConfig::default(),
            cache: CertCacheConfig::default(),
        }
    }
}

impl Default for InterceptCaConfig {
    fn default() -> (config: Self)
        ensures
            config.cert_path is None,
            config.key_path is None,
    {
        InterceptCaConfig { cert_path: None, key_path: None }
    }
}

impl Default for CertCacheConfig {
    fn default() -> (config: Self)
        ensures
            config.capacity == 1000,
            config.validity_hours == 24,
    {
        CertCacheConfig {
            capacity: default_cache_capacity(),
            validity_hours: default_cert_validity_hours(),
        }
    }
}

/// The value of a switch that is on unless it is turned off.
pub fn default_true() -> (value: bool)
    ensures
        value,
{
    true
}

/// The ports that are intercepted unless others are set.
pub fn default_intercepted_ports() -> (ports: Vec<u16>)
    ensures
        ports@ == seq![443u16],
{
    vec![443]
}

/// The number of certificates that are cached unless another is set.
pub fn default_cache_capacity() -> (capacity: usize)
    ensures
        capacity == 1000,
{
    1000
}

/// The number of hours that a certificate is valid unless another is set.
pub fn default_cert_validity_hours() -> (hours: u64)
    ensures
        hours == 24,
{
    24
}

} // verus!
