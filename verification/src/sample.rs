//! Sample rows of the passive metrics export: taking a sample from the
//! counters, and writing it as a CSV row.

use vstd::prelude::*;

use crate::observability::{saturating_sum, Metrics};
use crate::text::{bool_text, chars_of, decimal, push_bool, push_decimal, push_str, string_push};

verus! {

/// Header line of the CSV metric file.
pub const CSV_HEADER: &'static str = "ts_unix_ms,ts_rfc3339,system_id,instance_name,hostname,fib_install,lsdb_l1_lsp,lsdb_l2_lsp,lsdb_lsp_total,lsdb_fp_l1,lsdb_fp_l2,spf_runs_l1,spf_runs_l2,last_spf_us_l1,last_spf_us_l2,rib_ipv4_active,rib_ipv6_active,rib_mpls_entries,fib_ip_installs,fib_ip_installs_skipped,fib_ip_uninstalls,fib_ip_uninstalls_skipped,rss_kb";

/// One sample row.
#[derive(Clone, Debug)]
pub struct Sample {
    pub ts_unix_ms: u64,
    pub ts_rfc3339: String,
    pub system_id: Option<String>,
    pub instance_name: Option<String>,
    pub hostname: Option<String>,
    pub fib_install: bool,
    pub lsdb_l1_lsp: u64,
    pub lsdb_l2_lsp: u64,
    pub lsdb_lsp_total: u64,
    pub lsdb_fp_l1: u64,
    pub lsdb_fp_l2: u64,
    pub spf_runs_l1: u64,
    pub spf_runs_l2: u64,
    pub last_spf_us_l1: u64,
    pub last_spf_us_l2: u64,
    pub rib_ipv4_active: u64,
    pub rib_ipv6_active: u64,
    pub rib_mpls_entries: u64,
    pub fib_ip_installs: u64,
    pub fib_ip_installs_skipped: u64,
    pub fib_ip_uninstalls: u64,
    pub fib_ip_uninstalls_skipped: u64,
    /// Resident set size in kB, when taken.
    pub rss_kb: Option<u64>,
}

/// Latest Unix time, in milliseconds, that samples can be stamped with.
pub const MAX_SAMPLE_UNIX_MS: u64 = 8_000_000_000_000_000;

/// RFC 3339 text of a Unix time in milliseconds, in UTC, with millisecond
/// precision and a `Z` suffix.
pub uninterp spec fn rfc3339_utc_millis(unix_ms: u64) -> Seq<char>;

/// Formats a Unix time in milliseconds as RFC 3339 text.
///
/// Calls chrono's `DateTime::<Utc>::from_timestamp_millis` on the time and
/// `to_rfc3339_opts` with millisecond precision and `Z`; the contract names
/// the result. Times up to `MAX_SAMPLE_UNIX_MS` lie well inside the range
/// chrono represents (years up to 262143), so the conversion succeeds.
#[verifier::external_body]
fn chrono_rfc3339(unix_ms: u64) -> (s: String)
    requires
        unix_ms <= MAX_SAMPLE_UNIX_MS,
    ensures
        s@ == rfc3339_utc_millis(unix_ms),
{
    let dt = chrono::DateTime::from_timestamp_millis(unix_ms as i64).unwrap();
    dt.to_rfc3339_opts(chrono::SecondsFormat::Millis, true)
}

/// The characters of an optional string.
pub open spec fn opt_chars(s: Option<String>) -> Option<Seq<char>> {
    match s {
        Some(s) => Some(s@),
        None => None,
    }
}

/// Copies an optional string.
fn clone_opt_string(s: &Option<String>) -> (r: Option<String>)
    ensures
        opt_chars(r) == opt_chars(*s),
{
    match s {
        Some(x) => Some(x.clone()),
        None => None,
    }
}

impl Metrics {
    /// Takes a sample of the counters at Unix time `now_unix_ms`.
    ///
    /// `lsdb_lsp_total` is the saturating sum of both levels' LSP counts; the
    /// resident set size is recorded only when `include_process` is set.
    pub fn snapshot(&self, include_process: bool, now_unix_ms: u64, rss_kb: Option<u64>) -> (s:
        Sample)
        requires
            now_unix_ms <= MAX_SAMPLE_UNIX_MS,
        ensures
            s.ts_unix_ms == now_unix_ms,
            s.ts_rfc3339@ == rfc3339_utc_millis(now_unix_ms),
            opt_chars(s.system_id) == opt_chars(self.system_id),
            opt_chars(s.instance_name) == opt_chars(self.instance_name),
            opt_chars(s.hostname) == opt_chars(self.hostname),
            s.fib_install == self.fib_install,
            s.lsdb_l1_lsp == self.lsdb_l1_lsp,
            s.lsdb_l2_lsp == self.lsdb_l2_lsp,
            s.lsdb_lsp_total == saturating_sum(self.lsdb_l1_lsp, self.lsdb_l2_lsp),
            s.lsdb_fp_l1 == self.lsdb_fp_l1,
            s.lsdb_fp_l2 == self.lsdb_fp_l2,
            s.spf_runs_l1 == self.spf_runs_l1,
            s.spf_runs_l2 == self.spf_runs_l2,
            s.last_spf_us_l1 == self.last_spf_us_l1,
            s.last_spf_us_l2 == self.last_spf_us_l2,
            s.rib_ipv4_active == self.rib_ipv4_active,
            s.rib_ipv6_active == self.rib_ipv6_active,
            s.rib_mpls_entries == self.rib_mpls_entries,
            s.fib_ip_installs == self.fib_ip_installs,
            s.fib_ip_installs_skipped == self.fib_ip_installs_skipped,
            s.fib_ip_uninstalls == self.fib_ip_uninstalls,
            s.fib_ip_uninstalls_skipped == self.fib_ip_uninstalls_skipped,
            s.rss_kb == (if include_process {
                rss_kb
            } else {
                None
            }),
    {
        let total = if self.lsdb_l1_lsp > u64::MAX - self.lsdb_l2_lsp {
            u64::MAX
        } else {
            self.lsdb_l1_lsp + self.lsdb_l2_lsp
        };
        Sample {
            ts_unix_ms: now_unix_ms,
            ts_rfc3339: chrono_rfc3339(now_unix_ms),
            system_id: clone_opt_string(&self.system_id),
            instance_name: clone_opt_string(&self.instance_name),
            hostname: clone_opt_string(&self.hostname),
            fib_install: self.fib_install,
            lsdb_l1_lsp: self.lsdb_l1_lsp,
            lsdb_l2_lsp: self.lsdb_l2_lsp,
            lsdb_lsp_total: total,
            lsdb_fp_l1: self.lsdb_fp_l1,
            lsdb_fp_l2: self.lsdb_fp_l2,
            spf_runs_l1: self.spf_runs_l1,
            spf_runs_l2: self.spf_runs_l2,
            last_spf_us_l1: self.last_spf_us_l1,
            last_spf_us_l2: self.last_spf_us_l2,
            rib_ipv4_active: self.rib_ipv4_active,
            rib_ipv6_active: self.rib_ipv6_active,
            rib_mpls_entries: self.rib_mpls_entries,
            fib_ip_installs: self.fib_ip_installs,
            fib_ip_installs_skipped: self.fib_ip_installs_skipped,
            fib_ip_uninstalls: self.fib_ip_uninstalls,
            fib_ip_uninstalls_skipped: self.fib_ip_uninstalls_skipped,
            rss_kb: if include_process {
                rss_kb
            } else {
                None
            },
        }
    }
}

/// `s` with every double quote doubled.
pub open spec fn double_quotes(s: Seq<char>) -> Seq<char>
    decreases s.len(),
{
    if s.len() == 0 {
        Seq::empty()
    } else if s.last() == '"' {
        double_quotes(s.drop_last()) + seq!['"', '"']
    } else {
        double_quotes(s.drop_last()).push(s.last())
    }
}

/// A CSV field: a text holding a comma, a double quote or a newline is
/// enclosed in double quotes with its double quotes doubled; any other text
/// stands as it is.
pub open spec fn csv_field(s: Seq<char>) -> Seq<char> {
    if s.contains(',') || s.contains('"') || s.contains('\n') {
        seq!['"'] + double_quotes(s) + seq!['"']
    } else {
        s
    }
}

/// The text of an optional string, empty when absent.
pub open spec fn opt_text(s: Option<String>) -> Seq<char> {
    match s {
        Some(s) => s@,
        None => Seq::empty(),
    }
}

/// `a` followed by a comma and `b`.
pub open spec fn comma(a: Seq<char>, b: Seq<char>) -> Seq<char> {
    a + seq![','] + b
}

/// The CSV row of a sample: its fields in header order, separated by
/// commas; text fields as [`csv_field`] says, absent texts and an absent
/// resident set size empty, numbers in decimal, booleans as `true`/`false`.
pub open spec fn csv_row(s: &Sample) -> Seq<char> {
    let r = decimal(s.ts_unix_ms as nat);
    let r = comma(r, csv_field(s.ts_rfc3339@));
    let r = comma(r, csv_field(opt_text(s.system_id)));
    let r = comma(r, csv_field(opt_text(s.instance_name)));
    let r = comma(r, csv_field(opt_text(s.hostname)));
    let r = comma(r, bool_text(s.fib_install));
    let r = comma(r, decimal(s.lsdb_l1_lsp as nat));
    let r = comma(r, decimal(s.lsdb_l2_lsp as nat));
    let r = comma(r, decimal(s.lsdb_lsp_total as nat));
    let r = comma(r, decimal(s.lsdb_fp_l1 as nat));
    let r = comma(r, decimal(s.lsdb_fp_l2 as nat));
    let r = comma(r, decimal(s.spf_runs_l1 as nat));
    let r = comma(r, decimal(s.spf_runs_l2 as nat));
    let r = comma(r, decimal(s.last_spf_us_l1 as nat));
    let r = comma(r, decimal(s.last_spf_us_l2 as nat));
    let r = comma(r, decimal(s.rib_ipv4_active as nat));
    let r = comma(r, decimal(s.rib_ipv6_active as nat));
    let r = comma(r, decimal(s.rib_mpls_entries as nat));
    let r = comma(r, decimal(s.fib_ip_installs as nat));
    let r = comma(r, decimal(s.fib_ip_installs_skipped as nat));
    let r = comma(r, decimal(s.fib_ip_uninstalls as nat));
    let r = comma(r, decimal(s.fib_ip_uninstalls_skipped as nat));
    comma(
        r,
        match s.rss_kb {
            Some(v) => decimal(v as nat),
            None => Seq::empty(),
        },
    )
}

/// Appends a text as a CSV field.
fn push_csv_field(out: &mut String, s: &str)
    ensures
        final(out)@ == old(out)@ + csv_field(s@),
{
    let chars = chars_of(s);
    let mut needs_quotes = false;
    let mut i: usize = 0;
    while i < chars.len()
        invariant
            chars@ == s@,
            i <= chars@.len(),
            needs_quotes == (exists|j: int|
                0 <= j < i && (chars@[j] == ',' || chars@[j] == '"' || chars@[j] == '\n')),
        decreases chars@.len() - i,
    {
        let c = chars[i];
        if c == ',' || c == '"' || c == '\n' {
            needs_quotes = true;
        }
        i += 1;
    }
    let ghost has = s@.contains(',') || s@.contains('"') || s@.contains('\n');
    assert(needs_quotes == has) by {
        if needs_quotes {
            let j = choose|j: int|
                0 <= j < chars@.len() && (chars@[j] == ',' || chars@[j] == '"' || chars@[j]
                    == '\n');
            assert(s@[j] == chars@[j]);
        }
        if s@.contains(',') {
            let j = choose|j: int| 0 <= j < s@.len() && s@[j] == ',';
            assert(chars@[j] == ',');
        }
        if s@.contains('"') {
            let j = choose|j: int| 0 <= j < s@.len() && s@[j] == '"';
            assert(chars@[j] == '"');
        }
        if s@.contains('\n') {
            let j = choose|j: int| 0 <= j < s@.len() && s@[j] == '\n';
            assert(chars@[j] == '\n');
        }
    }
    if !needs_quotes {
        push_str(out, s);
        return ;
    }
    let ghost o0 = out@;
    string_push(out, '"');
    let mut k: usize = 0;
    while k < chars.len()
        invariant
            chars@ == s@,
            k <= chars@.len(),
            out@ == o0 + seq!['"'] + double_quotes(s@.take(k as int)),
        decreases chars@.len() - k,
    {
        assert(s@.take(k + 1).drop_last() =~= s@.take(k as int));
        let c = chars[k];
        if c == '"' {
            string_push(out, '"');
            string_push(out, '"');
            assert(out@ =~= o0 + seq!['"'] + double_quotes(s@.take(k + 1)));
        } else {
            string_push(out, c);
            assert(out@ =~= o0 + seq!['"'] + double_quotes(s@.take(k + 1)));
        }
        k += 1;
    }
    string_push(out, '"');
    assert(s@.take(chars@.len() as int) =~= s@);
    assert(out@ =~= o0 + csv_field(s@));
}

/// Appends an optional text as a CSV field, empty when absent.
fn push_opt_csv_field(out: &mut String, s: &Option<String>)
    ensures
        final(out)@ == old(out)@ + csv_field(opt_text(*s)),
{
    match s {
        Some(x) => push_csv_field(out, x.as_str()),
        None => {
            assert(csv_field(Seq::<char>::empty()) =~= Seq::<char>::empty()) by {
                assert(!Seq::<char>::empty().contains(','));
                assert(!Seq::<char>::empty().contains('"'));
                assert(!Seq::<char>::empty().contains('\n'));
            }
            assert(old(out)@ + csv_field(opt_text(*s)) =~= old(out)@);
        },
    }
}

/// Appends a comma then a decimal number.
fn push_comma_decimal(out: &mut String, v: u64)
    ensures
        final(out)@ == comma(old(out)@, decimal(v as nat)),
{
    string_push(out, ',');
    push_decimal(out, v);
    assert(out@ =~= comma(old(out)@, decimal(v as nat)));
}

impl Sample {
    /// The CSV row of the sample.
    pub fn to_csv_row(&self) -> (row: String)
        ensures
            row@ == csv_row(self),
    {
        let mut out = String::new();
        push_decimal(&mut out, self.ts_unix_ms);
        let ghost a = out@;
        string_push(&mut out, ',');
        push_csv_field(&mut out, self.ts_rfc3339.as_str());
        assert(out@ =~= comma(a, csv_field(self.ts_rfc3339@)));
        let ghost a = out@;
        string_push(&mut out, ',');
        push_opt_csv_field(&mut out, &self.system_id);
        assert(out@ =~= comma(a, csv_field(opt_text(self.system_id))));
        let ghost a = out@;
        string_push(&mut out, ',');
        push_opt_csv_field(&mut out, &self.instance_name);
        assert(out@ =~= comma(a, csv_field(opt_text(self.instance_name))));
        let ghost a = out@;
        string_push(&mut out, ',');
        push_opt_csv_field(&mut out, &self.hostname);
        assert(out@ =~= comma(a, csv_field(opt_text(self.hostname))));
        let ghost a = out@;
        string_push(&mut out, ',');
        push_bool(&mut out, self.fib_install);
        assert(out@ =~= comma(a, bool_text(self.fib_install)));
        push_comma_decimal(&mut out, self.lsdb_l1_lsp);
        push_comma_decimal(&mut out, self.lsdb_l2_lsp);
        push_comma_decimal(&mut out, self.lsdb_lsp_total);
        push_comma_decimal(&mut out, self.lsdb_fp_l1);
        push_comma_decimal(&mut out, self.lsdb_fp_l2);
        push_comma_decimal(&mut out, self.spf_runs_l1);
        push_comma_decimal(&mut out, self.spf_runs_l2);
        push_comma_decimal(&mut out, self.last_spf_us_l1);
        push_comma_decimal(&mut out, self.last_spf_us_l2);
        push_comma_decimal(&mut out, self.rib_ipv4_active);
        push_comma_decimal(&mut out, self.rib_ipv6_active);
        push_comma_decimal(&mut out, self.rib_mpls_entries);
        push_comma_decimal(&mut out, self.fib_ip_installs);
        push_comma_decimal(&mut out, self.fib_ip_installs_skipped);
        push_comma_decimal(&mut out, self.fib_ip_uninstalls);
        push_comma_decimal(&mut out, self.fib_ip_uninstalls_skipped);
        match self.rss_kb {
            Some(v) => push_comma_decimal(&mut out, v),
            None => {
                let ghost a = out@;
                string_push(&mut out, ',');
                assert(out@ =~= comma(a, Seq::<char>::empty()));
            },
        }
        out
    }
}

/// Unicode White_Space characters, those that `char::is_whitespace` accepts.
pub open spec fn is_white_space(c: char) -> bool {
    ||| c == '\t' || c == '\n' || c == '\u{0B}' || c == '\u{0C}' || c == '\r' || c == ' '
    ||| c == '\u{85}' || c == '\u{A0}' || c == '\u{1680}'
    ||| '\u{2000}' <= c <= '\u{200A}'
    ||| c == '\u{2028}' || c == '\u{2029}' || c == '\u{202F}' || c == '\u{205F}' || c == '\u{3000}'
}

fn white_space(c: char) -> (r: bool)
    ensures
        r == is_white_space(c),
{
    c == '\t' || c == '\n' || c == '\u{0B}' || c == '\u{0C}' || c == '\r' || c == ' ' || c
        == '\u{85}' || c == '\u{A0}' || c == '\u{1680}' || ('\u{2000}' <= c && c <= '\u{200A}')
        || c == '\u{2028}' || c == '\u{2029}' || c == '\u{202F}' || c == '\u{205F}' || c
        == '\u{3000}'
}

/// Position of the first line feed at or after `i`, or the length.
pub open spec fn line_end(t: Seq<char>, i: int) -> int
    decreases t.len() - i,
{
    if i >= t.len() {
        t.len() as int
    } else if t[i] == '\n' {
        i
    } else {
        line_end(t, i + 1)
    }
}

/// Position of the first character at or after `i` that is (`ws`) or is not
/// (`!ws`) white space, or `hi`.
pub open spec fn scan_until(t: Seq<char>, i: int, hi: int, ws: bool) -> int
    decreases hi - i,
{
    if i >= hi {
        hi
    } else if is_white_space(t[i]) == ws {
        i
    } else {
        scan_until(t, i + 1, hi, ws)
    }
}

/// The label that opens the resident set size line.
pub open spec fn vmrss_label() -> Seq<char> {
    seq!['V', 'm', 'R', 'S', 'S', ':']
}

/// The resident set size reported in a `/proc/self/status` text from
/// position `i` on: in the first line that begins with `VmRSS:`, the first
/// white-space separated word after the label, read as an unsigned 64-bit
/// decimal number; none when no line begins with the label, when that line
/// has no word after it, or when the word is not such a number.
pub open spec fn rss_kb_from(t: Seq<char>, i: int) -> Option<u64>
    decreases t.len() - i,
{
    if i < 0 || i >= t.len() {
        None
    } else {
        let e = line_end(t, i);
        if e - i >= 6 && t.subrange(i, i + 6) == vmrss_label() {
            let a = scan_until(t, i + 6, e, false);
            if a >= e {
                None
            } else {
                let b = scan_until(t, a, e, true);
                match crate::spf_config::spec_parse_unsigned(t.subrange(a, b), u64::MAX as nat) {
                    Some(v) => Some(v as u64),
                    None => None,
                }
            }
        } else if e >= t.len() {
            None
        } else {
            proof {
                lemma_line_end(t, i);
            }
            rss_kb_from(t, e + 1)
        }
    }
}

/// A line ends at or after its start and within the text.
pub proof fn lemma_line_end(t: Seq<char>, i: int)
    requires
        0 <= i <= t.len(),
    ensures
        i <= line_end(t, i) <= t.len(),
    decreases t.len() - i,
{
    if i < t.len() && t[i] != '\n' {
        lemma_line_end(t, i + 1);
    }
}

proof fn lemma_scan_until(t: Seq<char>, i: int, hi: int, ws: bool)
    requires
        0 <= i <= hi,
    ensures
        i <= scan_until(t, i, hi, ws) <= hi,
    decreases hi - i,
{
    if i < hi && is_white_space(t[i]) != ws {
        lemma_scan_until(t, i + 1, hi, ws);
    }
}

fn find_line_end(t: &Vec<char>, i: usize) -> (e: usize)
    requires
        i <= t@.len(),
    ensures
        e == line_end(t@, i as int),
{
    let mut j = i;
    while j < t.len() && t[j] != '\n'
        invariant
            i <= j <= t@.len(),
            line_end(t@, i as int) == line_end(t@, j as int),
        decreases t@.len() - j,
    {
        j += 1;
    }
    j
}

fn find_scan_until(t: &Vec<char>, i: usize, hi: usize, ws: bool) -> (e: usize)
    requires
        i <= hi <= t@.len(),
    ensures
        e == scan_until(t@, i as int, hi as int, ws),
{
    let mut j = i;
    while j < hi && white_space(t[j]) != ws
        invariant
            i <= j <= hi,
            hi <= t@.len(),
            scan_until(t@, i as int, hi as int, ws) == scan_until(t@, j as int, hi as int, ws),
        decreases hi - j,
    {
        j += 1;
    }
    j
}

/// The resident set size, in kB, reported in a `/proc/self/status` text.
pub fn rss_kb_from_status(text: &str) -> (r: Option<u64>)
    ensures
        r == rss_kb_from(text@, 0),
{
    let t = chars_of(text);
    let mut i: usize = 0;
    while i < t.len()
        invariant
            t@ == text@,
            i <= t@.len(),
            rss_kb_from(text@, 0) == rss_kb_from(text@, i as int),
        decreases t@.len() - i,
    {
        let e = find_line_end(&t, i);
        proof {
            lemma_line_end(t@, i as int);
        }
        let label = ['V', 'm', 'R', 'S', 'S', ':'];
        let mut is_label = e - i >= 6;
        if is_label {
            let mut k: usize = 0;
            assert(t@.subrange(i as int, i as int) =~= vmrss_label().take(0));
            while k < 6
                invariant
                    i + 6 <= e <= t@.len(),
                    k <= 6,
                    label@ == vmrss_label(),
                    is_label == (t@.subrange(i as int, i + k) == vmrss_label().take(k as int)),
                decreases 6 - k,
            {
                assert(t@.subrange(i as int, i + k + 1) =~= t@.subrange(i as int, i + k).push(
                    t@[i + k],
                ));
                assert(vmrss_label().take(k + 1) =~= vmrss_label().take(k as int).push(
                    vmrss_label()[k as int],
                ));
                if t[i + k] != label[k] {
                    is_label = false;
                    assert(t@.subrange(i as int, i + k + 1)[k as int] != vmrss_label().take(
                        k + 1,
                    )[k as int]);
                } else if !is_label {
                    proof {
                        if t@.subrange(i as int, i + k + 1) == vmrss_label().take(k + 1) {
                            assert(t@.subrange(i as int, i + k) =~= t@.subrange(
                                i as int,
                                i + k + 1,
                            ).drop_last());
                            assert(vmrss_label().take(k as int) =~= vmrss_label().take(
                                k + 1,
                            ).drop_last());
                        }
                    }
                }
                k += 1;
            }
            assert(vmrss_label().take(6) =~= vmrss_label());
        }
        if is_label {
            let a = find_scan_until(&t, i + 6, e, false);
            if a >= e {
                return None;
            }
            proof {
                lemma_scan_until(t@, a as int, e as int, true);
            }
            let b = find_scan_until(&t, a, e, true);
            return crate::spf_config::parse_unsigned_range(&t, a, b, u64::MAX);
        }
        if e >= t.len() {
            return None;
        }
        i = e + 1;
    }
    None
}


/// `p` is where a line of `t` starts: the beginning of the text or just
/// after a line feed.
pub open spec fn starts_line(t: Seq<char>, p: int) -> bool {
    0 <= p <= t.len() && (p == 0 || t[p - 1] == '\n')
}

/// The six characters of `t` at `p` are `VmRSS:`.
pub open spec fn vmrss_at(t: Seq<char>, p: int) -> bool {
    &&& 0 <= p
    &&& p + 6 <= t.len()
    &&& t[p] == 'V'
    &&& t[p + 1] == 'm'
    &&& t[p + 2] == 'R'
    &&& t[p + 3] == 'S'
    &&& t[p + 4] == 'S'
    &&& t[p + 5] == ':'
}

/// In the line whose `VmRSS:` label is at `p`, the first white-space
/// separated word after the label reads as the unsigned 64-bit decimal `v`.
pub open spec fn first_word_reads(t: Seq<char>, p: int, v: u64) -> bool {
    exists|a: int, b: int|
        #![trigger t.subrange(a, b)]
        p + 6 <= a < b <= t.len() && (forall|k: int|
            p + 6 <= k < a ==> is_white_space(#[trigger] t[k]) && t[k] != '\n') && (forall|k: int|
            a <= k < b ==> !is_white_space(#[trigger] t[k])) && (b == t.len() || is_white_space(
            t[b],
        )) && crate::spf_config::spec_parse_unsigned(t.subrange(a, b), u64::MAX as nat) == Some(
            v as nat,
        )
}

/// What `line_end` finds: no line feed before it, and a line feed or the
/// end of the text at it.
proof fn lemma_line_end_props(t: Seq<char>, i: int)
    requires
        0 <= i <= t.len(),
    ensures
        i <= line_end(t, i) <= t.len(),
        forall|k: int| i <= k < line_end(t, i) ==> #[trigger] t[k] != '\n',
        line_end(t, i) == t.len() || t[line_end(t, i)] == '\n',
    decreases t.len() - i,
{
    if i < t.len() && t[i] != '\n' {
        lemma_line_end_props(t, i + 1);
    }
}

/// What `scan_until` finds: characters before it are not of the sought
/// kind, and at it the sought kind or the bound.
proof fn lemma_scan_props(t: Seq<char>, i: int, hi: int, ws: bool)
    requires
        0 <= i <= hi <= t.len(),
    ensures
        i <= scan_until(t, i, hi, ws) <= hi,
        forall|k: int| i <= k < scan_until(t, i, hi, ws) ==> is_white_space(#[trigger] t[k]) != ws,
        scan_until(t, i, hi, ws) == hi || is_white_space(t[scan_until(t, i, hi, ws)]) == ws,
    decreases hi - i,
{
    if i < hi && is_white_space(t[i]) != ws {
        lemma_scan_props(t, i + 1, hi, ws);
    }
}

/// The label test of [`rss_kb_from`] at a position holds exactly when the
/// text reads `VmRSS:` there.
proof fn lemma_label_at(t: Seq<char>, i: int)
    requires
        0 <= i < t.len(),
    ensures
        (line_end(t, i) - i >= 6 && t.subrange(i, i + 6) == vmrss_label()) <==> vmrss_at(t, i),
{
    lemma_line_end_props(t, i);
    let e = line_end(t, i);
    if vmrss_at(t, i) {
        if e < i + 6 {
            assert(t[e] != '\n');
        }
        assert(t.subrange(i, i + 6) =~= vmrss_label());
    }
    if e - i >= 6 && t.subrange(i, i + 6) == vmrss_label() {
        assert(t.subrange(i, i + 6)[0] == t[i]);
        assert(t.subrange(i, i + 6)[1] == t[i + 1]);
        assert(t.subrange(i, i + 6)[2] == t[i + 2]);
        assert(t.subrange(i, i + 6)[3] == t[i + 3]);
        assert(t.subrange(i, i + 6)[4] == t[i + 4]);
        assert(t.subrange(i, i + 6)[5] == t[i + 5]);
    }
}

/// From a line start `i`: a result is read from the first line at or after
/// `i` that reads `VmRSS:`, as the first word after the label; there is none
/// without such a line; and when that line's first word reads as a number,
/// the result is that number.
proof fn lemma_rss_from_line(t: Seq<char>, i: int)
    requires
        starts_line(t, i),
    ensures
        rss_kb_from(t, i) matches Some(v) ==> exists|p: int|
            #![trigger vmrss_at(t, p)]
            i <= p && starts_line(t, p) && vmrss_at(t, p) && (forall|q: int|
                i <= q < p && starts_line(t, q) ==> !vmrss_at(t, q)) && first_word_reads(t, p, v),
        (forall|p: int| i <= p && starts_line(t, p) ==> !vmrss_at(t, p)) ==> rss_kb_from(t, i)
            is None,
        forall|p: int, v: u64|
            i <= p && starts_line(t, p) && vmrss_at(t, p) && (forall|q: int|
                i <= q < p && starts_line(t, q) ==> !vmrss_at(t, q)) && #[trigger] first_word_reads(
                t,
                p,
                v,
            ) ==> rss_kb_from(t, i) == Some(v),
    decreases t.len() - i,
{
    if i >= t.len() {
        assert forall|p: int, v: u64|
            i <= p && starts_line(t, p) && vmrss_at(t, p) && (forall|q: int|
                i <= q < p && starts_line(t, q) ==> !vmrss_at(t, q)) && #[trigger] first_word_reads(
                t,
                p,
                v,
            ) implies rss_kb_from(t, i) == Some(v) by {}
        return;
    }
    lemma_line_end_props(t, i);
    lemma_label_at(t, i);
    let e = line_end(t, i);
    // No line starts strictly inside the line that starts at `i`.
    assert forall|q: int| i < q <= e implies !starts_line(t, q) by {
        assert(t[q - 1] != '\n');
    }
    if vmrss_at(t, i) {
        assert(e - i >= 6);
        lemma_scan_props(t, i + 6, e, false);
        let a = scan_until(t, i + 6, e, false);
        if a < e {
            lemma_scan_props(t, a, e, true);
            let b = scan_until(t, a, e, true);
            assert(b > a);
            assert forall|k: int| i + 6 <= k < a implies is_white_space(#[trigger] t[k]) && t[k]
                != '\n' by {}
            assert(b == t.len() || is_white_space(t[b])) by {
                if b == e && e < t.len() {
                    assert(t[e] == '\n');
                }
            }
            if let Some(v) = rss_kb_from(t, i) {
                let parsed = crate::spf_config::spec_parse_unsigned(
                    t.subrange(a, b),
                    u64::MAX as nat,
                );
                assert(parsed is Some);
                assert(parsed->0 <= u64::MAX);
                assert(parsed == Some(v as nat));
                assert(first_word_reads(t, i, v));
            }
            assert forall|p: int, v: u64|
                i <= p && starts_line(t, p) && vmrss_at(t, p) && (forall|q: int|
                    i <= q < p && starts_line(t, q) ==> !vmrss_at(t, q))
                    && #[trigger] first_word_reads(t, p, v) implies rss_kb_from(t, i) == Some(v) by {
                assert(p == i) by {
                    if p > i {
                        assert(starts_line(t, i));
                    }
                }
                let (a2, b2) = choose|a2: int, b2: int|
                    #![trigger t.subrange(a2, b2)]
                    p + 6 <= a2 < b2 <= t.len() && (forall|k: int|
                        p + 6 <= k < a2 ==> is_white_space(#[trigger] t[k]) && t[k] != '\n')
                        && (forall|k: int| a2 <= k < b2 ==> !is_white_space(#[trigger] t[k])) && (b2
                        == t.len() || is_white_space(t[b2]))
                        && crate::spf_config::spec_parse_unsigned(
                        t.subrange(a2, b2),
                        u64::MAX as nat,
                    ) == Some(v as nat);
                assert(a2 == a) by {
                    if a < a2 {
                        assert(is_white_space(t[a]));
                    }
                    if a2 < a {
                        assert(!is_white_space(t[a2]));
                    }
                }
                assert(b2 == b) by {
                    if b < b2 {
                        if b == e {
                            assert(t[e] == '\n');
                        }
                        assert(!is_white_space(t[b]));
                    }
                    if b2 < b {
                        assert(is_white_space(t[b2]));
                        assert(!is_white_space(t[b2]));
                    }
                }
            }
        } else {
            assert forall|p: int, v: u64|
                i <= p && starts_line(t, p) && vmrss_at(t, p) && (forall|q: int|
                    i <= q < p && starts_line(t, q) ==> !vmrss_at(t, q))
                    && #[trigger] first_word_reads(t, p, v) implies rss_kb_from(t, i) == Some(v) by {
                assert(p == i) by {
                    if p > i {
                        assert(starts_line(t, i));
                    }
                }
                let (a2, b2) = choose|a2: int, b2: int|
                    #![trigger t.subrange(a2, b2)]
                    p + 6 <= a2 < b2 <= t.len() && (forall|k: int|
                        p + 6 <= k < a2 ==> is_white_space(#[trigger] t[k]) && t[k] != '\n')
                        && (forall|k: int| a2 <= k < b2 ==> !is_white_space(#[trigger] t[k])) && (b2
                        == t.len() || is_white_space(t[b2]))
                        && crate::spf_config::spec_parse_unsigned(
                        t.subrange(a2, b2),
                        u64::MAX as nat,
                    ) == Some(v as nat);
                if e < a2 {
                    assert(t[e] == '\n');
                } else {
                    assert(is_white_space(t[a2]));
                }
            }
        }
    } else if e >= t.len() {
        assert forall|p: int, v: u64|
            i <= p && starts_line(t, p) && vmrss_at(t, p) && (forall|q: int|
                i <= q < p && starts_line(t, q) ==> !vmrss_at(t, q)) && #[trigger] first_word_reads(
                t,
                p,
                v,
            ) implies rss_kb_from(t, i) == Some(v) by {
            assert(p > i);
        }
    } else {
        lemma_rss_from_line(t, e + 1);
        assert(starts_line(t, e + 1));
        if let Some(v) = rss_kb_from(t, i) {
            let p = choose|p: int|
                #![trigger vmrss_at(t, p)]
                e + 1 <= p && starts_line(t, p) && vmrss_at(t, p) && (forall|q: int|
                    e + 1 <= q < p && starts_line(t, q) ==> !vmrss_at(t, q)) && first_word_reads(
                    t,
                    p,
                    v,
                );
            assert forall|q: int| i <= q < p && starts_line(t, q) implies !vmrss_at(t, q) by {
                if q <= e && q > i {
                    assert(!starts_line(t, q));
                }
            }
        }
        assert forall|p: int, v: u64|
            i <= p && starts_line(t, p) && vmrss_at(t, p) && (forall|q: int|
                i <= q < p && starts_line(t, q) ==> !vmrss_at(t, q)) && #[trigger] first_word_reads(
                t,
                p,
                v,
            ) implies rss_kb_from(t, i) == Some(v) by {
            assert(p > e) by {
                if p <= e {
                    if p > i {
                        assert(!starts_line(t, p));
                    }
                }
            }
        }
    }
}

/// The resident set size is read from the first line that begins with
/// `VmRSS:` and from no other: a result is the first word after that label,
/// read as a number; a text with no line beginning with `VmRSS:` gives none,
/// whatever other lines it holds; and when that first word reads as a
/// number, it is the result.
pub proof fn law_rss_read_from_first_vmrss_line(t: Seq<char>)
    ensures
        rss_kb_from(t, 0) matches Some(v) ==> exists|p: int|
            #![trigger vmrss_at(t, p)]
            starts_line(t, p) && vmrss_at(t, p) && (forall|q: int|
                0 <= q < p && starts_line(t, q) ==> !vmrss_at(t, q)) && first_word_reads(t, p, v),
        (forall|p: int| starts_line(t, p) ==> !vmrss_at(t, p)) ==> rss_kb_from(t, 0) is None,
        forall|p: int, v: u64|
            starts_line(t, p) && vmrss_at(t, p) && (forall|q: int|
                0 <= q < p && starts_line(t, q) ==> !vmrss_at(t, q)) && #[trigger] first_word_reads(
                t,
                p,
                v,
            ) ==> rss_kb_from(t, 0) == Some(v),
{
    lemma_rss_from_line(t, 0);
}


/// The pieces of `s` between its commas, in order: a text without a comma is
/// a single piece.
pub open spec fn comma_pieces(s: Seq<char>) -> Seq<Seq<char>>
    decreases s.len(),
{
    if s.len() == 0 {
        seq![Seq::empty()]
    } else {
        let p = comma_pieces(s.drop_last());
        if s.last() == ',' {
            p.push(Seq::empty())
        } else {
            p.update(p.len() - 1, p.last().push(s.last()))
        }
    }
}

proof fn lemma_comma_pieces_len(s: Seq<char>)
    ensures
        comma_pieces(s).len() >= 1,
    decreases s.len(),
{
    if s.len() > 0 {
        lemma_comma_pieces_len(s.drop_last());
    }
}

/// A text without a comma is a single piece.
proof fn lemma_comma_pieces_single(s: Seq<char>)
    requires
        !s.contains(','),
    ensures
        comma_pieces(s) == seq![s],
    decreases s.len(),
{
    if s.len() > 0 {
        let init = s.drop_last();
        assert(!init.contains(',')) by {
            if init.contains(',') {
                let w = choose|w: int| 0 <= w < init.len() && init[w] == ',';
                assert(s[w] == ',');
            }
        }
        lemma_comma_pieces_single(init);
        assert(s[s.len() - 1] == s.last());
        assert(init.push(s.last()) =~= s);
        assert(comma_pieces(s) =~= seq![s]);
    } else {
        assert(s =~= Seq::<char>::empty());
    }
}

/// The pieces of two texts joined by a comma are the pieces of the first
/// followed by those of the second.
proof fn lemma_comma_pieces_join(a: Seq<char>, b: Seq<char>)
    ensures
        comma_pieces(a + seq![','] + b) == comma_pieces(a) + comma_pieces(b),
    decreases b.len(),
{
    let ab = a + seq![','] + b;
    if b.len() == 0 {
        assert(ab.drop_last() =~= a);
        assert(comma_pieces(a) + comma_pieces(b) =~= comma_pieces(a).push(Seq::empty()));
    } else {
        let b0 = b.drop_last();
        lemma_comma_pieces_join(a, b0);
        lemma_comma_pieces_len(b0);
        assert(ab.drop_last() =~= a + seq![','] + b0);
        assert(ab.last() == b.last());
        let pa = comma_pieces(a);
        let pb0 = comma_pieces(b0);
        if b.last() == ',' {
            assert(comma_pieces(ab) =~= pa + pb0.push(Seq::empty()));
        } else {
            assert(comma_pieces(ab) =~= pa + pb0.update(pb0.len() - 1, pb0.last().push(b.last())));
        }
    }
}

/// Appending a comma and a text without a comma adds that text as the last
/// piece.
proof fn lemma_comma_pieces_push(a: Seq<char>, x: Seq<char>)
    requires
        !x.contains(','),
    ensures
        comma_pieces(comma(a, x)) == comma_pieces(a).push(x),
{
    lemma_comma_pieces_join(a, x);
    lemma_comma_pieces_single(x);
    assert(comma_pieces(a) + seq![x] =~= comma_pieces(a).push(x));
}

/// Decimal digits hold no comma.
proof fn lemma_decimal_no_comma(n: nat)
    ensures
        !decimal(n).contains(','),
    decreases n,
{
    if n >= 10 {
        lemma_decimal_no_comma(n / 10);
        let d = decimal(n);
        assert forall|i: int| 0 <= i < d.len() implies d[i] != ',' by {
            if i < d.len() - 1 {
                assert(d[i] == decimal(n / 10)[i]);
            }
        }
    }
}

/// Doubling quotes adds no comma.
proof fn lemma_double_quotes_no_comma(s: Seq<char>)
    requires
        !s.contains(','),
    ensures
        !double_quotes(s).contains(','),
    decreases s.len(),
{
    if s.len() > 0 {
        let init = s.drop_last();
        assert(!init.contains(',')) by {
            if init.contains(',') {
                let w = choose|w: int| 0 <= w < init.len() && init[w] == ',';
                assert(s[w] == ',');
            }
        }
        lemma_double_quotes_no_comma(init);
        assert(s[s.len() - 1] == s.last());
        let d = double_quotes(s);
        let d0 = double_quotes(init);
        assert forall|i: int| 0 <= i < d.len() implies d[i] != ',' by {
            if i < d0.len() {
                assert(d[i] == d0[i]);
            }
        }
    }
}

/// A CSV field of a text without a comma holds no comma.
proof fn lemma_csv_field_no_comma(s: Seq<char>)
    requires
        !s.contains(','),
    ensures
        !csv_field(s).contains(','),
{
    if s.contains(',') || s.contains('"') || s.contains('\n') {
        lemma_double_quotes_no_comma(s);
        let d = double_quotes(s);
        let f = csv_field(s);
        assert forall|i: int| 0 <= i < f.len() implies f[i] != ',' by {
            if 0 < i < f.len() - 1 {
                assert(f[i] == d[i - 1]);
            }
        }
    }
}


/// The columns of the CSV header, in order.
pub open spec fn csv_header_columns() -> Seq<Seq<char>> {
    seq![
        "ts_unix_ms"@,
        "ts_rfc3339"@,
        "system_id"@,
        "instance_name"@,
        "hostname"@,
        "fib_install"@,
        "lsdb_l1_lsp"@,
        "lsdb_l2_lsp"@,
        "lsdb_lsp_total"@,
        "lsdb_fp_l1"@,
        "lsdb_fp_l2"@,
        "spf_runs_l1"@,
        "spf_runs_l2"@,
        "last_spf_us_l1"@,
        "last_spf_us_l2"@,
        "rib_ipv4_active"@,
        "rib_ipv6_active"@,
        "rib_mpls_entries"@,
        "fib_ip_installs"@,
        "fib_ip_installs_skipped"@,
        "fib_ip_uninstalls"@,
        "fib_ip_uninstalls_skipped"@,
        "rss_kb"@,
    ]
}

/// The header splits at its commas into its columns.
proof fn lemma_csv_header_pieces()
    ensures
        comma_pieces(CSV_HEADER@) == csv_header_columns(),
{
    reveal_strlit("ts_unix_ms,ts_rfc3339,system_id,instance_name,hostname,fib_install,lsdb_l1_lsp,lsdb_l2_lsp,lsdb_lsp_total,lsdb_fp_l1,lsdb_fp_l2,spf_runs_l1,spf_runs_l2,last_spf_us_l1,last_spf_us_l2,rib_ipv4_active,rib_ipv6_active,rib_mpls_entries,fib_ip_installs,fib_ip_installs_skipped,fib_ip_uninstalls,fib_ip_uninstalls_skipped,rss_kb");
    reveal_strlit("ts_unix_ms");
    reveal_strlit("ts_rfc3339");
    reveal_strlit("system_id");
    reveal_strlit("instance_name");
    reveal_strlit("hostname");
    reveal_strlit("fib_install");
    reveal_strlit("lsdb_l1_lsp");
    reveal_strlit("lsdb_l2_lsp");
    reveal_strlit("lsdb_lsp_total");
    reveal_strlit("lsdb_fp_l1");
    reveal_strlit("lsdb_fp_l2");
    reveal_strlit("spf_runs_l1");
    reveal_strlit("spf_runs_l2");
    reveal_strlit("last_spf_us_l1");
    reveal_strlit("last_spf_us_l2");
    reveal_strlit("rib_ipv4_active");
    reveal_strlit("rib_ipv6_active");
    reveal_strlit("rib_mpls_entries");
    reveal_strlit("fib_ip_installs");
    reveal_strlit("fib_ip_installs_skipped");
    reveal_strlit("fib_ip_uninstalls");
    reveal_strlit("fib_ip_uninstalls_skipped");
    reveal_strlit("rss_kb");
    let c = csv_header_columns();
    let r0 = c[0];
    let r1 = comma(r0, c[1]);
    let r2 = comma(r1, c[2]);
    let r3 = comma(r2, c[3]);
    let r4 = comma(r3, c[4]);
    let r5 = comma(r4, c[5]);
    let r6 = comma(r5, c[6]);
    let r7 = comma(r6, c[7]);
    let r8 = comma(r7, c[8]);
    let r9 = comma(r8, c[9]);
    let r10 = comma(r9, c[10]);
    let r11 = comma(r10, c[11]);
    let r12 = comma(r11, c[12]);
    let r13 = comma(r12, c[13]);
    let r14 = comma(r13, c[14]);
    let r15 = comma(r14, c[15]);
    let r16 = comma(r15, c[16]);
    let r17 = comma(r16, c[17]);
    let r18 = comma(r17, c[18]);
    let r19 = comma(r18, c[19]);
    let r20 = comma(r19, c[20]);
    let r21 = comma(r20, c[21]);
    let r22 = comma(r21, c[22]);
    assert(CSV_HEADER@ =~= r22);
    assert(!c[0].contains(','));
    assert(!c[1].contains(','));
    assert(!c[2].contains(','));
    assert(!c[3].contains(','));
    assert(!c[4].contains(','));
    assert(!c[5].contains(','));
    assert(!c[6].contains(','));
    assert(!c[7].contains(','));
    assert(!c[8].contains(','));
    assert(!c[9].contains(','));
    assert(!c[10].contains(','));
    assert(!c[11].contains(','));
    assert(!c[12].contains(','));
    assert(!c[13].contains(','));
    assert(!c[14].contains(','));
    assert(!c[15].contains(','));
    assert(!c[16].contains(','));
    assert(!c[17].contains(','));
    assert(!c[18].contains(','));
    assert(!c[19].contains(','));
    assert(!c[20].contains(','));
    assert(!c[21].contains(','));
    assert(!c[22].contains(','));
    lemma_comma_pieces_single(r0);
    lemma_comma_pieces_push(r0, c[1]);
    lemma_comma_pieces_push(r1, c[2]);
    lemma_comma_pieces_push(r2, c[3]);
    lemma_comma_pieces_push(r3, c[4]);
    lemma_comma_pieces_push(r4, c[5]);
    lemma_comma_pieces_push(r5, c[6]);
    lemma_comma_pieces_push(r6, c[7]);
    lemma_comma_pieces_push(r7, c[8]);
    lemma_comma_pieces_push(r8, c[9]);
    lemma_comma_pieces_push(r9, c[10]);
    lemma_comma_pieces_push(r10, c[11]);
    lemma_comma_pieces_push(r11, c[12]);
    lemma_comma_pieces_push(r12, c[13]);
    lemma_comma_pieces_push(r13, c[14]);
    lemma_comma_pieces_push(r14, c[15]);
    lemma_comma_pieces_push(r15, c[16]);
    lemma_comma_pieces_push(r16, c[17]);
    lemma_comma_pieces_push(r17, c[18]);
    lemma_comma_pieces_push(r18, c[19]);
    lemma_comma_pieces_push(r19, c[20]);
    lemma_comma_pieces_push(r20, c[21]);
    lemma_comma_pieces_push(r21, c[22]);
    assert(comma_pieces(r22) =~= c);
}


/// Six commas and texts without commas appended to `a` add those texts as
/// six last pieces.
proof fn lemma_comma_pieces_push6(
    a: Seq<char>,
    x1: Seq<char>,
    x2: Seq<char>,
    x3: Seq<char>,
    x4: Seq<char>,
    x5: Seq<char>,
    x6: Seq<char>,
)
    requires
        !x1.contains(','),
        !x2.contains(','),
        !x3.contains(','),
        !x4.contains(','),
        !x5.contains(','),
        !x6.contains(','),
    ensures
        comma_pieces(comma(comma(comma(comma(comma(comma(a, x1), x2), x3), x4), x5), x6))
            == comma_pieces(a) + seq![x1, x2, x3, x4, x5, x6],
{
    lemma_comma_pieces_push(a, x1);
    lemma_comma_pieces_push(comma(a, x1), x2);
    lemma_comma_pieces_push(comma(comma(a, x1), x2), x3);
    lemma_comma_pieces_push(comma(comma(comma(a, x1), x2), x3), x4);
    lemma_comma_pieces_push(comma(comma(comma(comma(a, x1), x2), x3), x4), x5);
    lemma_comma_pieces_push(comma(comma(comma(comma(comma(a, x1), x2), x3), x4), x5), x6);
    assert(comma_pieces(comma(comma(comma(comma(comma(comma(a, x1), x2), x3), x4), x5), x6))
        =~= comma_pieces(a) + seq![x1, x2, x3, x4, x5, x6]);
}

/// The first piece of a text without a comma followed by four commas and
/// texts is that text; there are at least five pieces, and exactly the five
/// texts when none of them holds a comma.
proof fn lemma_comma_pieces_head(
    x0: Seq<char>,
    x1: Seq<char>,
    x2: Seq<char>,
    x3: Seq<char>,
    x4: Seq<char>,
)
    requires
        !x0.contains(','),
    ensures
        comma_pieces(comma(comma(comma(comma(x0, x1), x2), x3), x4)).len() >= 5,
        comma_pieces(comma(comma(comma(comma(x0, x1), x2), x3), x4))[0] == x0,
        (!x1.contains(',') && !x2.contains(',') && !x3.contains(',') && !x4.contains(','))
            ==> comma_pieces(comma(comma(comma(comma(x0, x1), x2), x3), x4)) == seq![
            x0,
            x1,
            x2,
            x3,
            x4,
        ],
{
    let r1 = comma(x0, x1);
    let r2 = comma(r1, x2);
    let r3 = comma(r2, x3);
    let r4 = comma(r3, x4);
    lemma_comma_pieces_single(x0);
    lemma_comma_pieces_join(x0, x1);
    lemma_comma_pieces_join(r1, x2);
    lemma_comma_pieces_join(r2, x3);
    lemma_comma_pieces_join(r3, x4);
    lemma_comma_pieces_len(x1);
    lemma_comma_pieces_len(x2);
    lemma_comma_pieces_len(x3);
    lemma_comma_pieces_len(x4);
    assert(comma_pieces(r1)[0] == x0);
    assert(comma_pieces(r2)[0] == x0);
    assert(comma_pieces(r3)[0] == x0);
    assert(comma_pieces(r4)[0] == x0);
    if !x1.contains(',') && !x2.contains(',') && !x3.contains(',') && !x4.contains(',') {
        lemma_comma_pieces_single(x1);
        lemma_comma_pieces_single(x2);
        lemma_comma_pieces_single(x3);
        lemma_comma_pieces_single(x4);
        assert(comma_pieces(r4) =~= seq![x0, x1, x2, x3, x4]);
    }
}

/// The resident set size as its CSV column writes it: its decimal digits,
/// empty when absent.
pub open spec fn rss_text(v: Option<u64>) -> Seq<char> {
    match v {
        Some(v) => decimal(v as nat),
        None => Seq::empty(),
    }
}

/// Each column of a sample's CSV row holds the field that the header names
/// for it. Split at its commas, the header is its 23 column names; the row's
/// first piece is `ts_unix_ms`, and its last eighteen pieces are, in header
/// order from `fib_install` to `rss_kb`, those fields in decimal (`true` or
/// `false` for `fib_install`, empty for an absent `rss_kb`). When none of the
/// texts holds a comma, the row has exactly 23 pieces and the second to
/// fifth hold `ts_rfc3339`, `system_id`, `instance_name` and `hostname` as
/// CSV fields.
pub proof fn law_csv_row_columns_follow_header(s: Sample)
    ensures
        ({
            let h = comma_pieces(CSV_HEADER@);
            let f = comma_pieces(csv_row(&s));
            let n = f.len();
            &&& h.len() == 23
            &&& n >= 23
            &&& h[0] == "ts_unix_ms"@
            &&& f[0] == decimal(s.ts_unix_ms as nat)
            &&& h[5] == "fib_install"@
            &&& f[n - 18] == bool_text(s.fib_install)
            &&& h[6] == "lsdb_l1_lsp"@
            &&& f[n - 17] == decimal(s.lsdb_l1_lsp as nat)
            &&& h[7] == "lsdb_l2_lsp"@
            &&& f[n - 16] == decimal(s.lsdb_l2_lsp as nat)
            &&& h[8] == "lsdb_lsp_total"@
            &&& f[n - 15] == decimal(s.lsdb_lsp_total as nat)
            &&& h[9] == "lsdb_fp_l1"@
            &&& f[n - 14] == decimal(s.lsdb_fp_l1 as nat)
            &&& h[10] == "lsdb_fp_l2"@
            &&& f[n - 13] == decimal(s.lsdb_fp_l2 as nat)
            &&& h[11] == "spf_runs_l1"@
            &&& f[n - 12] == decimal(s.spf_runs_l1 as nat)
            &&& h[12] == "spf_runs_l2"@
            &&& f[n - 11] == decimal(s.spf_runs_l2 as nat)
            &&& h[13] == "last_spf_us_l1"@
            &&& f[n - 10] == decimal(s.last_spf_us_l1 as nat)
            &&& h[14] == "last_spf_us_l2"@
            &&& f[n - 9] == decimal(s.last_spf_us_l2 as nat)
            &&& h[15] == "rib_ipv4_active"@
            &&& f[n - 8] == decimal(s.rib_ipv4_active as nat)
            &&& h[16] == "rib_ipv6_active"@
            &&& f[n - 7] == decimal(s.rib_ipv6_active as nat)
            &&& h[17] == "rib_mpls_entries"@
            &&& f[n - 6] == decimal(s.rib_mpls_entries as nat)
            &&& h[18] == "fib_ip_installs"@
            &&& f[n - 5] == decimal(s.fib_ip_installs as nat)
            &&& h[19] == "fib_ip_installs_skipped"@
            &&& f[n - 4] == decimal(s.fib_ip_installs_skipped as nat)
            &&& h[20] == "fib_ip_uninstalls"@
            &&& f[n - 3] == decimal(s.fib_ip_uninstalls as nat)
            &&& h[21] == "fib_ip_uninstalls_skipped"@
            &&& f[n - 2] == decimal(s.fib_ip_uninstalls_skipped as nat)
            &&& h[22] == "rss_kb"@
            &&& f[n - 1] == rss_text(s.rss_kb)
            &&& (!s.ts_rfc3339@.contains(',') && !opt_text(s.system_id).contains(',')
                && !opt_text(s.instance_name).contains(',') && !opt_text(s.hostname).contains(','))
                ==> {
                &&& n == 23
                &&& h[1] == "ts_rfc3339"@
                &&& f[1] == csv_field(s.ts_rfc3339@)
                &&& h[2] == "system_id"@
                &&& f[2] == csv_field(opt_text(s.system_id))
                &&& h[3] == "instance_name"@
                &&& f[3] == csv_field(opt_text(s.instance_name))
                &&& h[4] == "hostname"@
                &&& f[4] == csv_field(opt_text(s.hostname))
            }
        }),
{
    lemma_csv_header_pieces();
    let x0 = decimal(s.ts_unix_ms as nat);
    let x1 = csv_field(s.ts_rfc3339@);
    let x2 = csv_field(opt_text(s.system_id));
    let x3 = csv_field(opt_text(s.instance_name));
    let x4 = csv_field(opt_text(s.hostname));
    let x5 = bool_text(s.fib_install);
    let x6 = decimal(s.lsdb_l1_lsp as nat);
    let x7 = decimal(s.lsdb_l2_lsp as nat);
    let x8 = decimal(s.lsdb_lsp_total as nat);
    let x9 = decimal(s.lsdb_fp_l1 as nat);
    let x10 = decimal(s.lsdb_fp_l2 as nat);
    let x11 = decimal(s.spf_runs_l1 as nat);
    let x12 = decimal(s.spf_runs_l2 as nat);
    let x13 = decimal(s.last_spf_us_l1 as nat);
    let x14 = decimal(s.last_spf_us_l2 as nat);
    let x15 = decimal(s.rib_ipv4_active as nat);
    let x16 = decimal(s.rib_ipv6_active as nat);
    let x17 = decimal(s.rib_mpls_entries as nat);
    let x18 = decimal(s.fib_ip_installs as nat);
    let x19 = decimal(s.fib_ip_installs_skipped as nat);
    let x20 = decimal(s.fib_ip_uninstalls as nat);
    let x21 = decimal(s.fib_ip_uninstalls_skipped as nat);
    let x22 = rss_text(s.rss_kb);
    let r4 = comma(comma(comma(comma(x0, x1), x2), x3), x4);
    let r10 = comma(comma(comma(comma(comma(comma(r4, x5), x6), x7), x8), x9), x10);
    let r16 = comma(comma(comma(comma(comma(comma(r10, x11), x12), x13), x14), x15), x16);
    let r22 = comma(comma(comma(comma(comma(comma(r16, x17), x18), x19), x20), x21), x22);
    assert(csv_row(&s) == r22);
    lemma_decimal_no_comma(s.ts_unix_ms as nat);
    assert(!x5.contains(',')) by {
        reveal_strlit("true");
        reveal_strlit("false");
    }
    lemma_decimal_no_comma(s.lsdb_l1_lsp as nat);
    lemma_decimal_no_comma(s.lsdb_l2_lsp as nat);
    lemma_decimal_no_comma(s.lsdb_lsp_total as nat);
    lemma_decimal_no_comma(s.lsdb_fp_l1 as nat);
    lemma_decimal_no_comma(s.lsdb_fp_l2 as nat);
    lemma_decimal_no_comma(s.spf_runs_l1 as nat);
    lemma_decimal_no_comma(s.spf_runs_l2 as nat);
    lemma_decimal_no_comma(s.last_spf_us_l1 as nat);
    lemma_decimal_no_comma(s.last_spf_us_l2 as nat);
    lemma_decimal_no_comma(s.rib_ipv4_active as nat);
    lemma_decimal_no_comma(s.rib_ipv6_active as nat);
    lemma_decimal_no_comma(s.rib_mpls_entries as nat);
    lemma_decimal_no_comma(s.fib_ip_installs as nat);
    lemma_decimal_no_comma(s.fib_ip_installs_skipped as nat);
    lemma_decimal_no_comma(s.fib_ip_uninstalls as nat);
    lemma_decimal_no_comma(s.fib_ip_uninstalls_skipped as nat);
    if let Some(v) = s.rss_kb {
        lemma_decimal_no_comma(v as nat);
    }
    if !s.ts_rfc3339@.contains(',') && !opt_text(s.system_id).contains(',') && !opt_text(
        s.instance_name,
    ).contains(',') && !opt_text(s.hostname).contains(',') {
        lemma_csv_field_no_comma(s.ts_rfc3339@);
        lemma_csv_field_no_comma(opt_text(s.system_id));
        lemma_csv_field_no_comma(opt_text(s.instance_name));
        lemma_csv_field_no_comma(opt_text(s.hostname));
    }
    lemma_comma_pieces_head(x0, x1, x2, x3, x4);
    lemma_comma_pieces_push6(r4, x5, x6, x7, x8, x9, x10);
    lemma_comma_pieces_push6(r10, x11, x12, x13, x14, x15, x16);
    lemma_comma_pieces_push6(r16, x17, x18, x19, x20, x21, x22);
    let p4 = comma_pieces(r4);
    assert(comma_pieces(r22) =~= p4 + seq![
        x5,
        x6,
        x7,
        x8,
        x9,
        x10,
        x11,
        x12,
        x13,
        x14,
        x15,
        x16,
        x17,
        x18,
        x19,
        x20,
        x21,
        x22,
    ]);
}

} // verus!
