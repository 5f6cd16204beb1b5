//! Passive control-plane metrics: the configuration switch and the counters
//! that protocols publish into.

use vstd::prelude::*;

verus! {

/// Output format of the metric files.
#[derive(Clone, Copy, Debug, PartialEq, Eq, Structural)]
pub enum Format {
    Jsonl,
    Csv,
    Both,
}

impl Default for Format {
    /// Both JSON Lines and CSV.
    fn default() -> (f: Format)
        ensures
            f == Format::Both,
    {
        Format::Both
    }
}

impl Format {
    /// Whether JSON Lines output is wanted.
    pub fn wants_jsonl(&self) -> (r: bool)
        ensures
            r == (*self == Format::Jsonl || *self == Format::Both),
    {
        match self {
            Format::Jsonl | Format::Both => true,
            Format::Csv => false,
        }
    }

    /// Whether CSV output is wanted.
    pub fn wants_csv(&self) -> (r: bool)
        ensures
            r == (*self == Format::Csv || *self == Format::Both),
    {
        match self {
            Format::Csv | Format::Both => true,
            Format::Jsonl => false,
        }
    }
}

/// The `[observability]` section of the daemon configuration.
#[derive(Clone, Debug)]
pub struct Config {
    /// Master switch.
    pub enabled: bool,
    /// Directory for metric files.
    pub dir: String,
    /// Basename of the metric files, without extension.
    pub file_prefix: String,
    /// Sample period in milliseconds (at least 100 is used).
    pub interval_ms: u64,
    /// Output format.
    pub format: Format,
    /// Whether to include the process resident set size.
    pub include_process: bool,
}

impl Default for Config {
    /// Disabled; files `holod-metrics.*` under `/var/log/holo`; one sample a
    /// second; both formats; process size included.
    fn default() -> (c: Config)
        ensures
            !c.enabled,
            c.dir@ == "/var/log/holo"@,
            c.file_prefix@ == "holod-metrics"@,
            c.interval_ms == 1000,
            c.format == Format::Both,
            c.include_process,
    {
        Config {
            enabled: false,
            dir: String::from_str("/var/log/holo"),
            file_prefix: String::from_str("holod-metrics"),
            interval_ms: 1000,
            format: Format::Both,
            include_process: true,
        }
    }
}

impl Config {
    /// Sample period actually used: the configured one, but at least 100 ms.
    pub fn sample_interval_ms(&self) -> (ms: u64)
        ensures
            ms == (if self.interval_ms < 100 {
                100
            } else {
                self.interval_ms
            }),
    {
        if self.interval_ms < 100 {
            100
        } else {
            self.interval_ms
        }
    }
}

/// Process-wide counters and identity that protocols publish into.
#[derive(Debug)]
pub struct Metrics {
    pub system_id: Option<String>,
    pub instance_name: Option<String>,
    pub hostname: Option<String>,
    pub fib_install: bool,
    pub lsdb_l1_lsp: u64,
    pub lsdb_l2_lsp: u64,
    pub lsdb_fp_l1: u64,
    pub lsdb_fp_l2: u64,
    pub spf_runs_l1: u64,
    pub spf_runs_l2: u64,
    pub last_spf_us_l1: u64,
    pub last_spf_us_l2: u64,
    pub rib_ipv4_active: u64,
    pub rib_ipv6_active: u64,
    pub rib_mpls_entries: u64,
    pub fib_ip_installs: u64,
    pub fib_ip_installs_skipped: u64,
    pub fib_ip_uninstalls: u64,
    pub fib_ip_uninstalls_skipped: u64,
}

/// The counter after one more event, wrapping to zero.
pub open spec fn bump(c: u64) -> u64 {
    if c == u64::MAX {
        0
    } else {
        (c + 1) as u64
    }
}

/// The sum, saturating at `u64::MAX`.
pub open spec fn saturating_sum(a: u64, b: u64) -> u64 {
    if a + b > u64::MAX {
        u64::MAX
    } else {
        (a + b) as u64
    }
}

impl Metrics {
    /// All counters zero, no identity, FIB installation off.
    pub open spec fn is_fresh(&self) -> bool {
        &&& self.system_id is None
        &&& self.instance_name is None
        &&& self.hostname is None
        &&& !self.fib_install
        &&& self.lsdb_l1_lsp == 0 && self.lsdb_l2_lsp == 0
        &&& self.lsdb_fp_l1 == 0 && self.lsdb_fp_l2 == 0
        &&& self.spf_runs_l1 == 0 && self.spf_runs_l2 == 0
        &&& self.last_spf_us_l1 == 0 && self.last_spf_us_l2 == 0
        &&& self.rib_ipv4_active == 0 && self.rib_ipv6_active == 0 && self.rib_mpls_entries == 0
        &&& self.fib_ip_installs == 0 && self.fib_ip_installs_skipped == 0
        &&& self.fib_ip_uninstalls == 0 && self.fib_ip_uninstalls_skipped == 0
    }

    /// New hub: all counters zero, no identity.
    pub fn new() -> (m: Metrics)
        ensures
            m.is_fresh(),
    {
        Metrics {
            system_id: None,
            instance_name: None,
            hostname: None,
            fib_install: false,
            lsdb_l1_lsp: 0,
            lsdb_l2_lsp: 0,
            lsdb_fp_l1: 0,
            lsdb_fp_l2: 0,
            spf_runs_l1: 0,
            spf_runs_l2: 0,
            last_spf_us_l1: 0,
            last_spf_us_l2: 0,
            rib_ipv4_active: 0,
            rib_ipv6_active: 0,
            rib_mpls_entries: 0,
            fib_ip_installs: 0,
            fib_ip_installs_skipped: 0,
            fib_ip_uninstalls: 0,
            fib_ip_uninstalls_skipped: 0,
        }
    }

    /// Publishes the IS-IS System ID.
    pub fn set_system_id(&mut self, id: &str)
        ensures
            final(self).system_id matches Some(s) && s@ == id@,
            *final(self) == (Metrics { system_id: final(self).system_id, ..*old(self) }),
    {
        self.system_id = Some(String::from_str(id));
    }

    /// Publishes the IS-IS instance name.
    pub fn set_instance_name(&mut self, name: &str)
        ensures
            final(self).instance_name matches Some(s) && s@ == name@,
            *final(self) == (Metrics { instance_name: final(self).instance_name, ..*old(self) }),
    {
        self.instance_name = Some(String::from_str(name));
    }

    /// Publishes the hostname.
    pub fn set_hostname(&mut self, name: &str)
        ensures
            final(self).hostname matches Some(s) && s@ == name@,
            *final(self) == (Metrics { hostname: final(self).hostname, ..*old(self) }),
    {
        self.hostname = Some(String::from_str(name));
    }

    /// Publishes whether routes are installed in the FIB.
    pub fn set_fib_install(&mut self, enabled: bool)
        ensures
            *final(self) == (Metrics { fib_install: enabled, ..*old(self) }),
    {
        self.fib_install = enabled;
    }

    /// Publishes the LSP count and fingerprint of level 1 or 2; any other
    /// level is ignored.
    pub fn set_lsdb(&mut self, level: u8, lsp_count: u64, fingerprint: u64)
        ensures
            *final(self) == (if level == 1 {
                Metrics { lsdb_l1_lsp: lsp_count, lsdb_fp_l1: fingerprint, ..*old(self) }
            } else if level == 2 {
                Metrics { lsdb_l2_lsp: lsp_count, lsdb_fp_l2: fingerprint, ..*old(self) }
            } else {
                *old(self)
            }),
    {
        if level == 1 {
            self.lsdb_l1_lsp = lsp_count;
            self.lsdb_fp_l1 = fingerprint;
        } else if level == 2 {
            self.lsdb_l2_lsp = lsp_count;
            self.lsdb_fp_l2 = fingerprint;
        }
    }

    /// Records a completed SPF run of level 1 or 2: one more run, and its
    /// duration; any other level is ignored.
    pub fn record_spf(&mut self, level: u8, duration_us: u64)
        ensures
            *final(self) == (if level == 1 {
                Metrics {
                    spf_runs_l1: bump(old(self).spf_runs_l1),
                    last_spf_us_l1: duration_us,
                    ..*old(self)
                }
            } else if level == 2 {
                Metrics {
                    spf_runs_l2: bump(old(self).spf_runs_l2),
                    last_spf_us_l2: duration_us,
                    ..*old(self)
                }
            } else {
                *old(self)
            }),
    {
        if level == 1 {
            self.spf_runs_l1 = if self.spf_runs_l1 == u64::MAX {
                0
            } else {
                self.spf_runs_l1 + 1
            };
            self.last_spf_us_l1 = duration_us;
        } else if level == 2 {
            self.spf_runs_l2 = if self.spf_runs_l2 == u64::MAX {
                0
            } else {
                self.spf_runs_l2 + 1
            };
            self.last_spf_us_l2 = duration_us;
        }
    }

    /// Publishes the RIB sizes.
    pub fn set_rib_sizes(&mut self, v4: u64, v6: u64, mpls: u64)
        ensures
            *final(self) == (Metrics {
                rib_ipv4_active: v4,
                rib_ipv6_active: v6,
                rib_mpls_entries: mpls,
                ..*old(self)
            }),
    {
        self.rib_ipv4_active = v4;
        self.rib_ipv6_active = v6;
        self.rib_mpls_entries = mpls;
    }

    /// Publishes the FIB counters.
    pub fn set_fib_counters(
        &mut self,
        ip_installs: u64,
        ip_installs_skipped: u64,
        ip_uninstalls: u64,
        ip_uninstalls_skipped: u64,
    )
        ensures
            *final(self) == (Metrics {
                fib_ip_installs: ip_installs,
                fib_ip_installs_skipped: ip_installs_skipped,
                fib_ip_uninstalls: ip_uninstalls,
                fib_ip_uninstalls_skipped: ip_uninstalls_skipped,
                ..*old(self)
            }),
    {
        self.fib_ip_installs = ip_installs;
        self.fib_ip_installs_skipped = ip_installs_skipped;
        self.fib_ip_uninstalls = ip_uninstalls;
        self.fib_ip_uninstalls_skipped = ip_uninstalls_skipped;
    }
}

} // verus!
