//! The proxy catalog: one credentials record per line of a flat text
//! file, cached under a time-based refresh policy, selected at random.

use rand::Rng;
use vstd::prelude::*;

use crate::text::{
    all_digits, dec_digits, digits_val, parse_u16, parse_u16_spec, split_on, split_on_char,
    trim_spec, trim_str, u16_to_string, views_of,
};

verus! {

/// One set of forward-proxy connection credentials.
#[derive(Debug)]
pub struct ProxyConfig {
    pub host: String,
    pub port: u16,
    pub username: String,
    pub password: String,
}

/// The mathematical content of an entry: host, port, username, password.
pub open spec fn entry_view(c: ProxyConfig) -> (Seq<char>, u16, Seq<char>, Seq<char>) {
    (c.host@, c.port, c.username@, c.password@)
}

/// What one catalog line means: after trimming, exactly four fields
/// separated by `:`, the second a sixteen-bit port; every other field
/// is taken verbatim.
pub open spec fn parse_line_spec(s: Seq<char>) -> Option<(Seq<char>, u16, Seq<char>, Seq<char>)> {
    let parts = split_on(trim_spec(s), ':');
    if parts.len() == 4 {
        match parse_u16_spec(parts[1]) {
            Some(port) => Some((parts[0], port, parts[2], parts[3])),
            None => None,
        }
    } else {
        None
    }
}

/// The message reported for a line that does not parse.
pub open spec fn from_string_err_text(s: Seq<char>) -> Seq<char> {
    if split_on(trim_spec(s), ':').len() != 4 {
        "Invalid proxy format: "@ + s
    } else {
        "Invalid port in proxy: "@ + s
    }
}

impl Clone for ProxyConfig {
    /// An exact copy: the returned entry equals the one cloned, field
    /// for field.
    fn clone(&self) -> (r: Self)
        ensures
            r == *self,
    {
        let r = ProxyConfig {
            host: self.host.clone(),
            port: self.port,
            username: self.username.clone(),
            password: self.password.clone(),
        };
        r
    }
}

impl ProxyConfig {
    /// Reads one catalog record of the form `host:port:username:password`,
    /// succeeding exactly on well-formed four-field lines with a valid
    /// sixteen-bit port and returning those four fields unchanged.
    pub fn from_string(proxy_str: &str) -> (r: Result<ProxyConfig, String>)
        ensures
            r is Ok <==> parse_line_spec(proxy_str@) is Some,
            r matches Ok(c) ==> parse_line_spec(proxy_str@) == Some(entry_view(c)),
            r matches Err(m) ==> m@ == from_string_err_text(proxy_str@),
    {
        let trimmed = trim_str(proxy_str);
        let parts = split_on_char(trimmed, ':');
        if parts.len() != 4 {
            return Err(String::from_str("Invalid proxy format: ").concat(proxy_str));
        }
        match parse_u16(parts[1]) {
            Some(port) => Ok(
                ProxyConfig {
                    host: parts[0].to_owned(),
                    port,
                    username: parts[2].to_owned(),
                    password: parts[3].to_owned(),
                },
            ),
            None => Err(String::from_str("Invalid port in proxy: ").concat(proxy_str)),
        }
    }

    /// The entry as an HTTP proxy for outbound requests: exactly the
    /// URL `http://host:port`, with this entry's basic-auth credentials
    /// attached, succeeding precisely when the proxy constructor
    /// accepts that URL text. The proxy value itself is opaque.
    pub fn to_reqwest_proxy(&self) -> (r: Result<reqwest::Proxy, reqwest::Error>)
        ensures
            r is Ok <==> http_proxy_accepts(
                "http://"@ + self.host@ + ":"@ + dec_digits(self.port as int),
            ),
    {
        let url = String::from_str("http://").concat(self.host.as_str()).concat(":").concat(
            u16_to_string(self.port).as_str(),
        );
        proof {
            reveal_strlit("http://");
            assert(url@.subrange(0, 7) =~= "http://"@);
        }
        http_proxy_with_auth(url.as_str(), self.username.as_str(), self.password.as_str())
    }

    /// The entry as `host:port`, the display form that omits credentials.
    pub fn to_display_string(&self) -> (r: String)
        ensures
            r@ == self.host@ + ":"@ + dec_digits(self.port as int),
    {
        self.host.clone().concat(":").concat(u16_to_string(self.port).as_str())
    }
}

/// reqwest::Proxy, declared so an entry can be converted for outbound
/// requests; the value is opaque here.
#[verifier::external_type_specification]
#[verifier::external_body]
pub struct ExProxy(reqwest::Proxy);

/// True of the URL texts that reqwest's HTTP proxy constructor accepts.
/// Acceptance is a fixed function of the text alone.
pub uninterp spec fn http_proxy_accepts(url: Seq<char>) -> bool;

/// Relies on reqwest::Proxy::http and Proxy::basic_auth: builds a proxy
/// intercepting HTTP traffic from the given URL, with the basic-auth
/// credentials attached, failing exactly when the URL is rejected. The
/// URL handed in starts with `http://`, so an accepted URL has the
/// `http` scheme and a non-empty host, and the credential attachment
/// (which refuses only file-scheme and hostless URLs) cannot panic.
#[verifier::external_body]
fn http_proxy_with_auth(url: &str, username: &str, password: &str) -> (r: Result<
    reqwest::Proxy,
    reqwest::Error,
>)
    requires
        url@.len() >= 7,
        url@.subrange(0, 7) == "http://"@,
    ensures
        r is Ok <==> http_proxy_accepts(url@),
{
    match reqwest::Proxy::http(url) {
        Ok(proxy) => Ok(proxy.basic_auth(username, password)),
        Err(e) => Err(e),
    }
}

/// True of a line the reload pass passes over silently: blank once
/// trimmed, or a comment whose first non-blank character is `#`.
pub open spec fn line_skipped(s: Seq<char>) -> bool {
    trim_spec(s).len() == 0 || trim_spec(s)[0] == '#'
}

/// The entry of each line that parses, in line order, with blank lines,
/// comments and malformed lines left out.
pub open spec fn entries_of_lines(lines: Seq<Seq<char>>) -> Seq<
    (Seq<char>, u16, Seq<char>, Seq<char>),
>
    decreases lines.len(),
{
    if lines.len() == 0 {
        Seq::empty()
    } else {
        let rest = entries_of_lines(lines.drop_last());
        if line_skipped(lines.last()) {
            rest
        } else {
            match parse_line_spec(lines.last()) {
                Some(e) => rest.push(e),
                None => rest,
            }
        }
    }
}

/// The one-based numbers of the lines that are neither blank nor
/// comments and still do not parse.
pub open spec fn malformed_line_numbers(lines: Seq<Seq<char>>) -> Seq<int>
    decreases lines.len(),
{
    if lines.len() == 0 {
        Seq::empty()
    } else {
        let rest = malformed_line_numbers(lines.drop_last());
        if !line_skipped(lines.last()) && parse_line_spec(lines.last()) is None {
            rest.push(lines.len() as int)
        } else {
            rest
        }
    }
}

/// The valid entries of a whole catalog text, line by line.
pub open spec fn catalog_entries(content: Seq<char>) -> Seq<
    (Seq<char>, u16, Seq<char>, Seq<char>),
> {
    entries_of_lines(split_on(content, '\n'))
}

/// The one-based numbers of the malformed lines of a catalog text.
pub open spec fn catalog_malformed(content: Seq<char>) -> Seq<int> {
    malformed_line_numbers(split_on(content, '\n'))
}

/// The views of a vector of entries.
pub open spec fn entry_views(cs: Seq<ProxyConfig>) -> Seq<(Seq<char>, u16, Seq<char>, Seq<char>)> {
    cs.map_values(|c: ProxyConfig| entry_view(c))
}

/// The numbers held in a vector, as mathematical integers.
pub open spec fn nums_of(v: Seq<usize>) -> Seq<int> {
    v.map_values(|i: usize| i as int)
}

/// Reads a whole catalog text: returns the entries of the lines that
/// parse, in order, and the one-based numbers of the malformed lines.
/// A malformed line is skipped, never fatal.
pub fn parse_catalog(content: &str) -> (r: (Vec<ProxyConfig>, Vec<usize>))
    ensures
        entry_views(r.0@) == catalog_entries(content@),
        nums_of(r.1@) == catalog_malformed(content@),
{
    let lines = split_on_char(content, '\n');
    let ghost lviews = views_of(lines@);
    let mut entries: Vec<ProxyConfig> = Vec::new();
    let mut malformed: Vec<usize> = Vec::new();
    let mut i: usize = 0;
    proof {
        assert(lviews.subrange(0, 0) =~= Seq::<Seq<char>>::empty());
        assert(entry_views(entries@) =~= Seq::<(Seq<char>, u16, Seq<char>, Seq<char>)>::empty());
        assert(nums_of(malformed@) =~= Seq::<int>::empty());
    }
    while i < lines.len()
        invariant
            i <= lines@.len(),
            lviews == views_of(lines@),
            lviews == split_on(content@, '\n'),
            entry_views(entries@) == entries_of_lines(lviews.subrange(0, i as int)),
            nums_of(malformed@) == malformed_line_numbers(lviews.subrange(0, i as int)),
        decreases lines@.len() - i,
    {
        proof {
            assert(lviews.subrange(0, i + 1).drop_last() =~= lviews.subrange(0, i as int));
            assert(lviews.subrange(0, i + 1).last() == lines@[i as int]@);
        }
        let line = lines[i];
        let t = trim_str(line);
        let skip = t.is_empty() || t.get_char(0) == '#';
        if !skip {
            match ProxyConfig::from_string(line) {
                Ok(c) => {
                    let ghost ev = entry_views(entries@);
                    proof {
                        assert(parse_line_spec(line@) == Some(entry_view(c)));
                    }
                    entries.push(c);
                    proof {
                        assert(entry_views(entries@) =~= ev.push(entry_view(c)));
                    }
                },
                Err(_) => {
                    let ghost mv = nums_of(malformed@);
                    malformed.push(i + 1);
                    proof {
                        assert(nums_of(malformed@) =~= mv.push(i + 1));
                    }
                },
            }
        }
        i = i + 1;
    }
    proof {
        assert(lviews.subrange(0, lviews.len() as int) =~= lviews);
    }
    (entries, malformed)
}

/// Why a catalog or selection operation failed.
#[derive(Clone, Copy, PartialEq, Eq, Structural, Debug)]
pub enum ProxyError {
    /// The configured catalog file is missing at reload time.
    NotFound,
    /// The file exists but could not be read.
    IoFailure,
    /// The file was read but held zero valid entries.
    EmptyCatalog,
    /// Selection was requested while no entries are present.
    Unavailable,
    /// The shared-state lock could not be acquired.
    LockFailure,
}

/// What reading the catalog file produced, handed in by the caller that
/// performs the file access: the file was missing, unreadable, or read
/// in full as text.
#[derive(Debug)]
pub enum CatalogSource {
    Missing,
    Unreadable,
    Text(String),
}

/// Relies on rand::thread_rng and rand::Rng::gen_range: a thread-local
/// generator drawing an index below the bound; the range handed over is
/// never empty, so the call does not panic. Nothing further is assumed
/// of the value drawn.
#[verifier::external_body]
fn random_below(n: usize) -> (r: usize)
    requires
        n > 0,
    ensures
        r < n,
{
    rand::thread_rng().gen_range(0..n)
}

/// The in-memory catalog: the current entries, the time of the last
/// successful load, and the fixed refresh interval, in seconds.
pub struct ProxyManager {
    proxies: Vec<ProxyConfig>,
    last_updated: u64,
    update_interval: u64,
}

/// The error, if any, with which a freshness check at time `now` over
/// the catalog text `source` must end: fresh state needs nothing; stale
/// state reports a missing or unreadable file, or a text with zero
/// valid entries, and succeeds otherwise.
pub open spec fn refresh_outcome(pre: ProxyManager, now: u64, source: CatalogSource) -> Option<
    ProxyError,
> {
    if !pre.is_stale(now) {
        None
    } else {
        match source {
            CatalogSource::Missing => Some(ProxyError::NotFound),
            CatalogSource::Unreadable => Some(ProxyError::IoFailure),
            CatalogSource::Text(c) => if catalog_entries(c@).len() == 0 {
                Some(ProxyError::EmptyCatalog)
            } else {
                None
            },
        }
    }
}

/// How the catalog state changes under a freshness check: unchanged
/// unless a stale catalog is reloaded from a text with at least one
/// valid entry, in which case the entries are replaced wholesale and
/// the load time becomes `now`.
pub open spec fn refresh_state(
    pre: ProxyManager,
    post: ProxyManager,
    now: u64,
    source: CatalogSource,
) -> bool {
    if !pre.is_stale(now) || refresh_outcome(pre, now, source) is Some {
        post == pre
    } else {
        match source {
            CatalogSource::Text(c) => {
                &&& post.entries() == catalog_entries(c@)
                &&& post.spec_last_updated() == now
                &&& post.spec_update_interval() == pre.spec_update_interval()
            },
            _ => false,
        }
    }
}

impl ProxyManager {
    /// The current entries, as their mathematical views.
    pub closed spec fn entries(self) -> Seq<(Seq<char>, u16, Seq<char>, Seq<char>)> {
        entry_views(self.proxies@)
    }

    /// The time of the last successful load, in seconds.
    pub closed spec fn spec_last_updated(self) -> u64 {
        self.last_updated
    }

    /// The refresh interval, in seconds.
    pub closed spec fn spec_update_interval(self) -> u64 {
        self.update_interval
    }

    /// Whether a freshness check at time `now` must reload: the catalog
    /// was never successfully loaded, or the interval has elapsed.
    pub open spec fn is_stale(self, now: u64) -> bool {
        self.entries().len() == 0 || now > self.spec_last_updated() + self.spec_update_interval()
    }

    /// An empty catalog that reloads on first use, refreshing every
    /// five minutes.
    pub fn new() -> (m: ProxyManager)
        ensures
            m.entries() == Seq::<(Seq<char>, u16, Seq<char>, Seq<char>)>::empty(),
            m.spec_last_updated() == 0,
            m.spec_update_interval() == 300,
    {
        let m = ProxyManager { proxies: Vec::new(), last_updated: 0, update_interval: 300 };
        proof {
            assert(entry_views(m.proxies@) =~= Seq::<(Seq<char>, u16, Seq<char>, Seq<char>)>::empty());
        }
        m
    }

    /// The number of entries currently cached. A pure read: never
    /// triggers a reload.
    pub fn proxy_count(&self) -> (n: usize)
        ensures
            n == self.entries().len(),
    {
        self.proxies.len()
    }

    /// Whether a freshness check at `now` would reload. A pure read.
    pub fn needs_reload(&self, now: u64) -> (r: bool)
        ensures
            r == self.is_stale(now),
    {
        if self.proxies.len() == 0 {
            true
        } else {
            match self.last_updated.checked_add(self.update_interval) {
                Some(deadline) => now > deadline,
                None => false,
            }
        }
    }

    /// Replaces the entries from the catalog text, keeping the previous
    /// state whenever the text yields zero valid entries.
    fn load_proxies(&mut self, source: &CatalogSource) -> (r: Result<(), ProxyError>)
        ensures
            source matches CatalogSource::Missing ==> r == Err::<(), ProxyError>(
                ProxyError::NotFound,
            ) && *final(self) == *old(self),
            source matches CatalogSource::Unreadable ==> r == Err::<(), ProxyError>(
                ProxyError::IoFailure,
            ) && *final(self) == *old(self),
            source matches CatalogSource::Text(c) ==> (catalog_entries(c@).len() == 0 ==> r
                == Err::<(), ProxyError>(ProxyError::EmptyCatalog) && *final(self) == *old(self)),
            source matches CatalogSource::Text(c) ==> (catalog_entries(c@).len() > 0 ==> r
                == Ok::<(), ProxyError>(()) && final(self).entries() == catalog_entries(c@)
                && final(self).spec_last_updated() == old(self).spec_last_updated()
                && final(self).spec_update_interval() == old(self).spec_update_interval()),
    {
        match source {
            CatalogSource::Missing => Err(ProxyError::NotFound),
            CatalogSource::Unreadable => Err(ProxyError::IoFailure),
            CatalogSource::Text(content) => {
                let (entries, _malformed) = parse_catalog(content.as_str());
                if entries.len() == 0 {
                    Err(ProxyError::EmptyCatalog)
                } else {
                    self.proxies = entries;
                    Ok(())
                }
            },
        }
    }

    /// The freshness check: reloads from `source` exactly when the
    /// catalog is stale at `now`, and otherwise touches nothing — a
    /// second call within the refresh interval is a no-op. A reload
    /// failure is propagated and leaves the prior state intact.
    pub fn ensure_proxies_loaded(&mut self, now: u64, source: &CatalogSource) -> (r: Result<
        (),
        ProxyError,
    >)
        ensures
            refresh_state(*old(self), *final(self), now, *source),
            r is Ok <==> refresh_outcome(*old(self), now, *source) is None,
            r matches Err(e) ==> Some(e) == refresh_outcome(*old(self), now, *source),
    {
        if self.needs_reload(now) {
            match self.load_proxies(source) {
                Err(e) => {
                    return Err(e);
                },
                Ok(()) => {},
            }
            self.last_updated = now;
        }
        Ok(())
    }

    /// Ensures freshness, then returns one entry of the current catalog,
    /// chosen at random — always an exact element, never fabricated.
    pub fn get_random_proxy(&mut self, now: u64, source: &CatalogSource) -> (r: Result<
        ProxyConfig,
        ProxyError,
    >)
        ensures
            refresh_state(*old(self), *final(self), now, *source),
            r is Ok <==> refresh_outcome(*old(self), now, *source) is None,
            r matches Err(e) ==> Some(e) == refresh_outcome(*old(self), now, *source),
            r matches Ok(p) ==> final(self).entries().contains(entry_view(p)),
    {
        match self.ensure_proxies_loaded(now, source) {
            Err(e) => {
                return Err(e);
            },
            Ok(()) => {},
        }
        if self.proxies.len() == 0 {
            return Err(ProxyError::Unavailable);
        }
        let idx = random_below(self.proxies.len());
        let picked = (&self.proxies[idx]).clone();
        proof {
            assert(self.entries()[idx as int] == entry_view(self.proxies@[idx as int]));
        }
        Ok(picked)
    }
}

/// Well-formedness law: every four-field line built from colon-free
/// host, username and password texts and a decimal port that fits in
/// sixteen bits parses, and parses to exactly those four fields,
/// provided the line carries no blank space at its ends.
pub proof fn lemma_well_formed_line_parses(
    host: Seq<char>,
    port: Seq<char>,
    username: Seq<char>,
    password: Seq<char>,
)
    requires
        forall|i: int| 0 <= i < host.len() ==> host[i] != ':',
        forall|i: int| 0 <= i < username.len() ==> username[i] != ':',
        forall|i: int| 0 <= i < password.len() ==> password[i] != ':',
        port.len() > 0,
        all_digits(port),
        digits_val(port) <= 0xffff,
        trim_spec(host + seq![':'] + port + seq![':'] + username + seq![':'] + password) == host
            + seq![':'] + port + seq![':'] + username + seq![':'] + password,
    ensures
        parse_line_spec(host + seq![':'] + port + seq![':'] + username + seq![':'] + password)
            == Some((host, digits_val(port) as u16, username, password)),
{
    let line = host + seq![':'] + port + seq![':'] + username + seq![':'] + password;
    crate::text::lemma_split_on_no_sep(host, ':');
    let s1 = host.push(':');
    crate::text::lemma_split_on_push_sep(host, ':');
    assert(split_on(s1, ':') =~= seq![host, Seq::<char>::empty()]);
    let s2 = s1 + port;
    crate::text::lemma_split_on_extend(s1, port, ':');
    assert(Seq::<char>::empty() + port =~= port);
    assert(split_on(s2, ':') =~= seq![host, port]);
    let s3 = s2.push(':');
    crate::text::lemma_split_on_push_sep(s2, ':');
    assert(split_on(s3, ':') =~= seq![host, port, Seq::<char>::empty()]);
    let s4 = s3 + username;
    crate::text::lemma_split_on_extend(s3, username, ':');
    assert(Seq::<char>::empty() + username =~= username);
    assert(split_on(s4, ':') =~= seq![host, port, Seq::<char>::empty() + username]);
    assert(split_on(s4, ':') =~= seq![host, port, username]);
    let s5 = s4.push(':');
    crate::text::lemma_split_on_push_sep(s4, ':');
    assert(split_on(s5, ':') =~= seq![host, port, username, Seq::<char>::empty()]);
    let s6 = s5 + password;
    crate::text::lemma_split_on_extend(s5, password, ':');
    assert(Seq::<char>::empty() + password =~= password);
    assert(split_on(s6, ':') =~= seq![host, port, username, password]);
    assert(s6 =~= line);
    let parts = split_on(trim_spec(line), ':');
    assert(parts =~= seq![host, port, username, password]);
    assert(parts[1] == port);
    assert(port[0] != '+');
    assert(parse_u16_spec(port) == Some(digits_val(port) as u16));
}

/// Freshness law: a catalog holding at least one entry stays fresh for
/// the whole refresh interval after its last successful load, so a
/// freshness check within the interval performs no reload.
pub proof fn lemma_fresh_within_interval(m: ProxyManager, now: u64)
    requires
        m.entries().len() > 0,
        now <= m.spec_last_updated() + m.spec_update_interval(),
    ensures
        !m.is_stale(now),
{
}

/// Staleness law: once the refresh interval has elapsed since the last
/// successful load, a freshness check reloads again.
pub proof fn lemma_stale_after_interval(m: ProxyManager, now: u64)
    requires
        now > m.spec_last_updated() + m.spec_update_interval(),
    ensures
        m.is_stale(now),
{
}

/// Idempotence law: after a stale catalog reloads successfully at
/// `now`, every further freshness check up to `now` plus the refresh
/// interval needs nothing, succeeds whatever source it is handed, and
/// leaves the state exactly as the reload left it — the reload's file
/// read is the only one of the interval.
pub proof fn lemma_reload_then_fresh(
    pre: ProxyManager,
    post: ProxyManager,
    now: u64,
    later: u64,
    source: CatalogSource,
)
    requires
        pre.is_stale(now),
        refresh_outcome(pre, now, source) is None,
        refresh_state(pre, post, now, source),
        later <= now + post.spec_update_interval(),
    ensures
        !post.is_stale(later),
        forall|src: CatalogSource| refresh_outcome(post, later, src) is None,
        forall|next: ProxyManager, src: CatalogSource|
            refresh_state(post, next, later, src) ==> next == post,
{
}

} // verus!
