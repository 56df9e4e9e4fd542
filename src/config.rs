//! Exporter settings and the values derived from them.

use std::time::Duration;
use vstd::prelude::*;
use crate::text::{bare_host, decimal, host_of_url, push_decimal};

verus! {

/// Settings of the exporter, as read from the command line and the environment.
pub struct Config {
    /// Device base URLs, e.g. `http://192.168.1.100`.
    pub hosts: Vec<String>,
    /// Optional display names, in the same order as `hosts`.
    pub names: Option<Vec<String>>,
    pub username: String,
    pub password: Option<String>,
    pub port: u16,
    pub bind: String,
    /// Seconds between two poll cycles.
    pub poll_interval: u64,
    /// Per-request timeout in seconds.
    pub http_timeout: u64,
    pub log_level: String,
    pub enable_discovery: bool,
    /// Seconds between two discovery runs.
    pub discovery_interval: u64,
}

/// The duration of `secs` whole seconds.
pub uninterp spec fn seconds(secs: u64) -> Duration;

/// Relies on `Duration::from_secs`, which depends on its argument alone.
#[verifier::external_body]
fn duration_from_secs(secs: u64) -> (r: Duration)
    ensures
        r == seconds(secs),
{
    Duration::from_secs(secs)
}

impl Config {
    /// The display name of the device at position `i`: the configured name when one is
    /// given for that position, else the bare host of its URL.
    pub open spec fn display_name(&self, i: int) -> Seq<char> {
        match self.names {
            Some(ns) if 0 <= i < ns@.len() => ns@[i]@,
            _ => bare_host(self.hosts@[i]@),
        }
    }

    /// `bind:port`.
    pub fn metrics_bind_address(&self) -> (r: String)
        ensures
            r@ == self.bind@ + seq![':'] + decimal(self.port as nat),
    {
        let mut r = self.bind.clone();
        r.append(":");
        proof {
            reveal_strlit(":");
        }
        push_decimal(&mut r, self.port as u64);
        assert(r@ =~= self.bind@ + seq![':'] + decimal(self.port as nat));
        r
    }

    pub fn poll_interval_duration(&self) -> (r: Duration)
        ensures
            r == seconds(self.poll_interval),
    {
        duration_from_secs(self.poll_interval)
    }

    pub fn http_timeout_duration(&self) -> (r: Duration)
        ensures
            r == seconds(self.http_timeout),
    {
        duration_from_secs(self.http_timeout)
    }

    pub fn discovery_interval_duration(&self) -> (r: Duration)
        ensures
            r == seconds(self.discovery_interval),
    {
        duration_from_secs(self.discovery_interval)
    }

    /// Basic-auth credentials: present exactly when a password is configured.
    pub fn auth(&self) -> (r: Option<(String, String)>)
        ensures
            r == match self.password {
                Some(p) => Some((self.username, p)),
                None => None::<(String, String)>,
            },
    {
        match &self.password {
            Some(p) => Some((self.username.clone(), p.clone())),
            None => None,
        }
    }

    /// Whether entry `i` of `r` pairs host `i` with its display name.
    pub open spec fn named_entry(&self, r: Seq<(String, String)>, i: int) -> bool {
        r[i].0@ == self.hosts@[i]@ && r[i].1@ == self.display_name(i)
    }

    /// Each host paired with its display name, in configuration order.
    pub fn get_device_names(&self) -> (r: Vec<(String, String)>)
        ensures
            r@.len() == self.hosts@.len(),
            forall|i: int| 0 <= i < r@.len() ==> #[trigger] self.named_entry(r@, i),
    {
        let mut r: Vec<(String, String)> = Vec::new();
        let n = self.hosts.len();
        let mut i: usize = 0;
        while i < n
            invariant
                n == self.hosts@.len(),
                i <= n,
                r@.len() == i,
                forall|k: int| 0 <= k < i ==> #[trigger] self.named_entry(r@, k),
            decreases n - i,
        {
            let host = &self.hosts[i];
            let name = match &self.names {
                Some(ns) if i < ns.len() => ns[i].clone(),
                _ => host_of_url(host.as_str()),
            };
            assert(name@ == self.display_name(i as int));
            let ghost prev = r@;
            r.push((host.clone(), name));
            assert forall|k: int| 0 <= k < i + 1 implies #[trigger] self.named_entry(r@, k) by {
                if k < i {
                    assert(self.named_entry(prev, k));
                }
            }
            i = i + 1;
        }
        r
    }
}

} // verus!
