//! The gateway: one explicitly constructed access point owning the
//! catalog together with the global enable flag and the configured
//! catalog file path. A process that wants single-instance semantics
//! holds one gateway behind its own lock; every decision the gateway
//! makes is a pure function of its state and the values handed in.

use vstd::prelude::*;

use crate::proxy::{
    entry_view, refresh_outcome, refresh_state, CatalogSource, ProxyConfig, ProxyError,
    ProxyManager,
};

verus! {

/// The access surface wrapping the shared catalog: the catalog itself,
/// the proxy-enabled flag (default true), and the catalog file path
/// (default the well-known `proxies.txt`).
pub struct ProxyGateway {
    manager: ProxyManager,
    enabled: bool,
    file_path: String,
}

impl ProxyGateway {
    /// The wrapped catalog.
    pub closed spec fn spec_manager(self) -> ProxyManager {
        self.manager
    }

    /// The global proxy-enabled flag.
    pub closed spec fn spec_enabled(self) -> bool {
        self.enabled
    }

    /// The configured catalog file path.
    pub closed spec fn spec_file_path(self) -> Seq<char> {
        self.file_path@
    }

    /// A gateway in its default state: proxies enabled, the well-known
    /// file name, and an empty catalog that loads on first use.
    pub fn new() -> (g: ProxyGateway)
        ensures
            g.spec_enabled() == true,
            g.spec_file_path() == "proxies.txt"@,
            g.spec_manager().entries() == Seq::<(Seq<char>, u16, Seq<char>, Seq<char>)>::empty(),
            g.spec_manager().spec_last_updated() == 0,
            g.spec_manager().spec_update_interval() == 300,
    {
        ProxyGateway {
            manager: ProxyManager::new(),
            enabled: true,
            file_path: String::from_str("proxies.txt"),
        }
    }

    /// Read access to the wrapped catalog, for pure reads such as
    /// `proxy_count` and `needs_reload`.
    pub fn get_proxy_manager(&self) -> (m: &ProxyManager)
        ensures
            *m == self.spec_manager(),
    {
        &self.manager
    }

    /// Delegates to the catalog's random selection under this gateway's
    /// state; the flag and the path are untouched.
    pub fn get_random_proxy(&mut self, now: u64, source: &CatalogSource) -> (r: Result<
        ProxyConfig,
        ProxyError,
    >)
        ensures
            refresh_state(old(self).spec_manager(), final(self).spec_manager(), now, *source),
            final(self).spec_enabled() == old(self).spec_enabled(),
            final(self).spec_file_path() == old(self).spec_file_path(),
            r is Ok <==> refresh_outcome(old(self).spec_manager(), now, *source) is None,
            r matches Err(e) ==> Some(e) == refresh_outcome(old(self).spec_manager(), now, *source),
            r matches Ok(p) ==> final(self).spec_manager().entries().contains(entry_view(p)),
    {
        self.manager.get_random_proxy(now, source)
    }

    /// Sets whether outbound requests should use a proxy at all.
    pub fn set_proxy_enabled(&mut self, enabled: bool)
        ensures
            final(self).spec_enabled() == enabled,
            final(self).spec_file_path() == old(self).spec_file_path(),
            final(self).spec_manager() == old(self).spec_manager(),
    {
        self.enabled = enabled;
    }

    /// Whether proxy use is globally enabled; true until set otherwise.
    pub fn is_proxy_enabled(&self) -> (r: bool)
        ensures
            r == self.spec_enabled(),
    {
        self.enabled
    }

    /// Sets the catalog source path.
    pub fn set_proxy_file_path(&mut self, path: String)
        ensures
            final(self).spec_file_path() == path@,
            final(self).spec_enabled() == old(self).spec_enabled(),
            final(self).spec_manager() == old(self).spec_manager(),
    {
        self.file_path = path;
    }

    /// The configured catalog source path.
    pub fn get_proxy_file_path(&self) -> (r: String)
        ensures
            r@ == self.spec_file_path(),
    {
        self.file_path.clone()
    }

    /// The one gate a caller checks before requesting a proxy: true
    /// exactly when proxy use is enabled and the configured file exists
    /// — `file_exists` is the caller's existence check of the
    /// configured path, made without opening or parsing the file.
    pub fn should_use_proxy(&self, file_exists: bool) -> (r: bool)
        ensures
            r == (self.spec_enabled() && file_exists),
    {
        self.enabled && file_exists
    }
}

} // verus!

