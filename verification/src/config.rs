//! Runtime configuration: server binding, proxy target, test-run defaults,
//! and a concurrently readable/updatable shared snapshot of all three.

use vstd::prelude::*;
use vstd::rwlock::{RwLock, RwLockPredicate};
use vstd::string::StringExecFns;

verus! {

/// Where the HTTP server binds.
pub struct ServerConfig {
    /// Host to bind the server to.
    pub host: String,
    /// Port to listen on.
    pub port: u16,
}

/// Mathematical model of a [`ServerConfig`].
pub struct ServerConfigView {
    pub host: Seq<char>,
    pub port: u16,
}

impl View for ServerConfig {
    type V = ServerConfigView;

    open spec fn view(&self) -> ServerConfigView {
        ServerConfigView { host: self.host@, port: self.port }
    }
}

/// The host a server uses when none is configured.
pub fn default_host() -> (r: String)
    ensures
        r@ == "127.0.0.1"@,
{
    "127.0.0.1".to_owned()
}

/// The port a server uses when none is configured.
pub fn default_port() -> (r: u16)
    ensures
        r == 3000,
{
    3000
}

impl Default for ServerConfig {
    fn default() -> (r: Self)
        ensures
            r@ == (ServerConfigView { host: "127.0.0.1"@, port: 3000 }),
    {
        ServerConfig { host: default_host(), port: default_port() }
    }
}

impl Clone for ServerConfig {
    fn clone(&self) -> (r: Self)
        ensures
            r@ == self@,
    {
        ServerConfig { host: self.host.clone(), port: self.port }
    }
}

/// Whether inbound requests are forwarded, and to where.
pub struct ProxyConfig {
    /// Whether proxy mode is enabled.
    pub enabled: bool,
    /// Target base URL to forward requests to.
    pub target: Option<String>,
}

/// Mathematical model of a [`ProxyConfig`].
pub struct ProxyConfigView {
    pub enabled: bool,
    pub target: Option<Seq<char>>,
}

impl View for ProxyConfig {
    type V = ProxyConfigView;

    open spec fn view(&self) -> ProxyConfigView {
        ProxyConfigView {
            enabled: self.enabled,
            target: match self.target {
                Some(ref t) => Some(t@),
                None => None,
            },
        }
    }
}

impl Default for ProxyConfig {
    fn default() -> (r: Self)
        ensures
            r@ == (ProxyConfigView { enabled: false, target: None::<Seq<char>> }),
    {
        ProxyConfig { enabled: false, target: None }
    }
}

impl Clone for ProxyConfig {
    fn clone(&self) -> (r: Self)
        ensures
            r@ == self@,
    {
        ProxyConfig {
            enabled: self.enabled,
            target: match &self.target {
                Some(t) => Some(t.clone()),
                None => None,
            },
        }
    }
}

/// Parameters of one paced test run against a target endpoint.
pub struct TestConfig {
    /// Number of calls to make.
    pub num_calls: u32,
    /// Pacing delay between calls, in milliseconds; 0 means no delay.
    pub frequency_ms: u64,
    /// HTTP method name (an unrecognised name falls back to GET).
    pub method: String,
    /// Target URL; when absent the server's own bound address is used.
    pub target_url: Option<String>,
    /// Optional request body.
    pub body: Option<String>,
    /// Ordered header list; duplicate names are allowed and order is kept.
    pub headers: Vec<(String, String)>,
}

/// Mathematical model of a [`TestConfig`].
pub struct TestConfigView {
    pub num_calls: u32,
    pub frequency_ms: u64,
    pub method: Seq<char>,
    pub target_url: Option<Seq<char>>,
    pub body: Option<Seq<char>>,
    pub headers: Seq<(Seq<char>, Seq<char>)>,
}

/// The model of one header pair.
pub open spec fn header_view(p: (String, String)) -> (Seq<char>, Seq<char>) {
    (p.0@, p.1@)
}

impl View for TestConfig {
    type V = TestConfigView;

    open spec fn view(&self) -> TestConfigView {
        TestConfigView {
            num_calls: self.num_calls,
            frequency_ms: self.frequency_ms,
            method: self.method@,
            target_url: match self.target_url {
                Some(ref t) => Some(t@),
                None => None,
            },
            body: match self.body {
                Some(ref b) => Some(b@),
                None => None,
            },
            headers: self.headers@.map_values(|p: (String, String)| header_view(p)),
        }
    }
}

/// The call count a test run uses when none is configured.
pub fn default_num_calls() -> (r: u32)
    ensures
        r == 10,
{
    10
}

/// The pacing delay a test run uses when none is configured.
pub fn default_frequency_ms() -> (r: u64)
    ensures
        r == 100,
{
    100
}

/// The HTTP method a test run uses when none is configured.
pub fn default_method() -> (r: String)
    ensures
        r@ == "GET"@,
{
    "GET".to_owned()
}

impl Default for TestConfig {
    fn default() -> (r: Self)
        ensures
            r.num_calls == 10,
            r.frequency_ms == 100,
            r@.method == "GET"@,
            r.target_url is None,
            r.body is None,
            r@.headers == Seq::<(Seq<char>, Seq<char>)>::empty(),
    {
        let r = TestConfig {
            num_calls: default_num_calls(),
            frequency_ms: default_frequency_ms(),
            method: default_method(),
            target_url: None,
            body: None,
            headers: Vec::new(),
        };
        proof {
            assert(r@.headers =~= Seq::<(Seq<char>, Seq<char>)>::empty());
        }
        r
    }
}

/// Copies a header list; the copy's entries match the original pair for
/// pair, in the same order.
pub fn clone_headers(hs: &Vec<(String, String)>) -> (r: Vec<(String, String)>)
    ensures
        r@.map_values(|p: (String, String)| header_view(p)) == hs@.map_values(
            |p: (String, String)| header_view(p),
        ),
{
    let mut r: Vec<(String, String)> = Vec::new();
    let mut i: usize = 0;
    while i < hs.len()
        invariant
            i <= hs@.len(),
            r@.len() == i,
            forall|j: int|
                0 <= j < i ==> #[trigger] header_view(r@[j]) == header_view(hs@[j]),
        decreases hs@.len() - i,
    {
        let name = hs[i].0.clone();
        let value = hs[i].1.clone();
        r.push((name, value));
        i += 1;
    }
    proof {
        assert(r@.map_values(|p: (String, String)| header_view(p)) =~= hs@.map_values(
            |p: (String, String)| header_view(p),
        ));
    }
    r
}

impl Clone for TestConfig {
    fn clone(&self) -> (r: Self)
        ensures
            r@ == self@,
    {
        TestConfig {
            num_calls: self.num_calls,
            frequency_ms: self.frequency_ms,
            method: self.method.clone(),
            target_url: match &self.target_url {
                Some(t) => Some(t.clone()),
                None => None,
            },
            body: match &self.body {
                Some(b) => Some(b.clone()),
                None => None,
            },
            headers: clone_headers(&self.headers),
        }
    }
}

/// The whole application configuration.
pub struct AppConfig {
    /// Server binding.
    pub server: ServerConfig,
    /// Proxy mode.
    pub proxy: ProxyConfig,
    /// Test-run defaults.
    pub test: TestConfig,
}

/// Mathematical model of an [`AppConfig`].
pub struct AppConfigView {
    pub server: ServerConfigView,
    pub proxy: ProxyConfigView,
    pub test: TestConfigView,
}

impl View for AppConfig {
    type V = AppConfigView;

    open spec fn view(&self) -> AppConfigView {
        AppConfigView { server: self.server@, proxy: self.proxy@, test: self.test@ }
    }
}

impl Default for AppConfig {
    fn default() -> (r: Self)
        ensures
            r@.server == (ServerConfigView { host: "127.0.0.1"@, port: 3000 }),
            r@.proxy == (ProxyConfigView { enabled: false, target: None::<Seq<char>> }),
            r.test.num_calls == 10,
            r.test.frequency_ms == 100,
            r@.test.method == "GET"@,
    {
        AppConfig {
            server: ServerConfig::default(),
            proxy: ProxyConfig::default(),
            test: TestConfig::default(),
        }
    }
}

impl Clone for AppConfig {
    fn clone(&self) -> (r: Self)
        ensures
            r@ == self@,
    {
        AppConfig { server: self.server.clone(), proxy: self.proxy.clone(), test: self.test.clone() }
    }
}

/// Lock predicate for the shared configuration: any configuration value is
/// admissible.
struct ConfigInv {}

impl RwLockPredicate<AppConfig> for ConfigInv {
    open spec fn inv(self, v: AppConfig) -> bool {
        true
    }
}

/// A configuration snapshot shared between concurrent tasks: readers always
/// get a complete copy taken under the lock, never a partially written one,
/// and writers replace whole sections at once.
#[derive(Clone)]
pub struct SharedConfig {
    inner: std::sync::Arc<RwLock<AppConfig, ConfigInv>>,
}

impl SharedConfig {
    /// Wraps a configuration for shared use.
    pub fn new(config: AppConfig) -> Self {
        SharedConfig { inner: std::sync::Arc::new(RwLock::new(config, Ghost(ConfigInv {}))) }
    }

    /// Returns a copy of the configuration as it stood at one instant under
    /// the lock (a snapshot; the shared value may change afterwards).
    pub fn get(&self) -> AppConfig {
        let handle = self.inner.acquire_read();
        let r = handle.borrow().clone();
        handle.release_read();
        r
    }

    /// Replaces the proxy section, leaving the rest untouched.
    pub fn update_proxy(&self, proxy: ProxyConfig) {
        let (mut config, handle) = self.inner.acquire_write();
        config.proxy = proxy;
        handle.release_write(config);
    }

    /// Replaces the test section, leaving the rest untouched.
    pub fn update_test(&self, test: TestConfig) {
        let (mut config, handle) = self.inner.acquire_write();
        config.test = test;
        handle.release_write(config);
    }

    /// Replaces the entire configuration.
    pub fn update(&self, config: AppConfig) {
        let (old_config, handle) = self.inner.acquire_write();
        let _ = old_config;
        handle.release_write(config);
    }
}

} // verus!
