//! Domain metric events written as NDJSON lines: the events the protocols
//! emit, and the `schema` and `ts` fields every written line carries.

use vstd::prelude::*;

verus! {

/// Schema tag of every event.
pub const SCHEMA: &'static str = "holo.metrics.v1";

/// A value of an event field.
#[derive(Debug)]
pub enum MetricValue {
    Str(String),
    U64(u64),
    Bool(bool),
    Null,
}

/// Mathematical value of a [`MetricValue`].
pub enum MetricValueView {
    Str(Seq<char>),
    U64(u64),
    Bool(bool),
    Null,
}

impl View for MetricValue {
    type V = MetricValueView;

    open spec fn view(&self) -> MetricValueView {
        match self {
            MetricValue::Str(s) => MetricValueView::Str(s@),
            MetricValue::U64(v) => MetricValueView::U64(*v),
            MetricValue::Bool(b) => MetricValueView::Bool(*b),
            MetricValue::Null => MetricValueView::Null,
        }
    }
}

/// A named field of an event.
#[derive(Debug)]
pub struct MetricField {
    pub key: String,
    pub value: MetricValue,
}

/// A domain event: a JSON object given as its fields.
#[derive(Debug)]
pub struct MetricsEvent {
    pub fields: Vec<MetricField>,
}

/// The fields of an event as key and value pairs.
pub open spec fn event_fields(e: MetricsEvent) -> Seq<(Seq<char>, MetricValueView)> {
    e.fields@.map_values(|f: MetricField| (f.key@, f.value@))
}

/// Some field has key `k`.
pub open spec fn has_field(fields: Seq<(Seq<char>, MetricValueView)>, k: Seq<char>) -> bool {
    exists|i: int| 0 <= i < fields.len() && #[trigger] fields[i].0 == k
}

/// Some field has key `k`, and every field with key `k` holds `v`.
pub open spec fn field_holds(
    fields: Seq<(Seq<char>, MetricValueView)>,
    k: Seq<char>,
    v: MetricValueView,
) -> bool {
    &&& has_field(fields, k)
    &&& forall|i: int| 0 <= i < fields.len() && #[trigger] fields[i].0 == k ==> fields[i].1 == v
}

fn field(key: &str, value: MetricValue) -> (f: MetricField)
    ensures
        f.key@ == key@,
        f.value@ == value@,
{
    MetricField { key: String::from_str(key), value }
}

fn str_value(s: &str) -> (v: MetricValue)
    ensures
        v@ == MetricValueView::Str(s@),
{
    MetricValue::Str(String::from_str(s))
}

/// The fields of the IS-IS SPF finish event.
pub open spec fn isis_spf_finish_fields(
    instance: Seq<char>,
    level: Seq<char>,
    spf_type: Seq<char>,
    duration_us: u64,
    schedule_to_start_us: Option<u64>,
    trigger_lsp_count: u64,
    spf_runs: u32,
) -> Seq<(Seq<char>, MetricValueView)> {
    seq![
        ("kind"@, MetricValueView::Str("isis.spf.finish"@)),
        ("protocol"@, MetricValueView::Str("isis"@)),
        ("instance"@, MetricValueView::Str(instance)),
        ("level"@, MetricValueView::Str(level)),
        ("spf_type"@, MetricValueView::Str(spf_type)),
        ("duration_us"@, MetricValueView::U64(duration_us)),
        ("schedule_to_start_us"@, match schedule_to_start_us {
            Some(v) => MetricValueView::U64(v),
            None => MetricValueView::Null,
        }),
        ("trigger_lsp_count"@, MetricValueView::U64(trigger_lsp_count)),
        ("spf_runs"@, MetricValueView::U64(spf_runs as u64)),
    ]
}

/// The IS-IS SPF finish event (control-plane timing).
pub fn isis_spf_finish_event(
    instance: &str,
    level: &str,
    spf_type: &str,
    duration_us: u64,
    schedule_to_start_us: Option<u64>,
    trigger_lsp_count: u64,
    spf_runs: u32,
) -> (e: MetricsEvent)
    ensures
        event_fields(e) == isis_spf_finish_fields(
            instance@,
            level@,
            spf_type@,
            duration_us,
            schedule_to_start_us,
            trigger_lsp_count,
            spf_runs,
        ),
        field_holds(event_fields(e), "instance"@, MetricValueView::Str(instance@)),
        field_holds(event_fields(e), "level"@, MetricValueView::Str(level@)),
        field_holds(event_fields(e), "spf_type"@, MetricValueView::Str(spf_type@)),
        field_holds(event_fields(e), "duration_us"@, MetricValueView::U64(duration_us)),
        field_holds(
            event_fields(e),
            "trigger_lsp_count"@,
            MetricValueView::U64(trigger_lsp_count),
        ),
        field_holds(event_fields(e), "spf_runs"@, MetricValueView::U64(spf_runs as u64)),
{
    let mut fields: Vec<MetricField> = Vec::new();
    fields.push(field("kind", str_value("isis.spf.finish")));
    fields.push(field("protocol", str_value("isis")));
    fields.push(field("instance", str_value(instance)));
    fields.push(field("level", str_value(level)));
    fields.push(field("spf_type", str_value(spf_type)));
    fields.push(field("duration_us", MetricValue::U64(duration_us)));
    let sched = match schedule_to_start_us {
        Some(v) => MetricValue::U64(v),
        None => MetricValue::Null,
    };
    fields.push(field("schedule_to_start_us", sched));
    fields.push(field("trigger_lsp_count", MetricValue::U64(trigger_lsp_count)));
    fields.push(field("spf_runs", MetricValue::U64(spf_runs as u64)));
    let e = MetricsEvent { fields };
    assert(event_fields(e) =~= isis_spf_finish_fields(
        instance@,
        level@,
        spf_type@,
        duration_us,
        schedule_to_start_us,
        trigger_lsp_count,
        spf_runs,
    ));
    proof {
        law_spf_finish_fields_hold_arguments(
            instance@,
            level@,
            spf_type@,
            duration_us,
            schedule_to_start_us,
            trigger_lsp_count,
            spf_runs,
        );
    }
    e
}

/// Counters of one RIB/FIB update batch.
#[derive(Clone, Copy, Debug, PartialEq, Eq, Structural)]
pub struct RibBatchCounters {
    pub fib_install: bool,
    pub prefixes_touched: u64,
    pub mpls_touched: u64,
    pub rib_ipv4_active: u64,
    pub rib_ipv6_active: u64,
    pub rib_mpls_entries: u64,
    pub ip_installs: u64,
    pub ip_installs_skipped: u64,
    pub ip_uninstalls: u64,
    pub ip_uninstalls_skipped: u64,
    pub mpls_installs: u64,
    pub mpls_installs_skipped: u64,
    pub mpls_uninstalls: u64,
    pub mpls_uninstalls_skipped: u64,
}

/// The fields of the end-of-batch RIB/FIB event.
pub open spec fn routing_rib_batch_fields(c: RibBatchCounters) -> Seq<
    (Seq<char>, MetricValueView),
> {
    seq![
        ("kind"@, MetricValueView::Str("routing.rib.batch"@)),
        ("protocol"@, MetricValueView::Str("routing"@)),
        ("fib_install"@, MetricValueView::Bool(c.fib_install)),
        ("prefixes_touched"@, MetricValueView::U64(c.prefixes_touched)),
        ("mpls_touched"@, MetricValueView::U64(c.mpls_touched)),
        ("rib_ipv4_active"@, MetricValueView::U64(c.rib_ipv4_active)),
        ("rib_ipv6_active"@, MetricValueView::U64(c.rib_ipv6_active)),
        ("rib_mpls_entries"@, MetricValueView::U64(c.rib_mpls_entries)),
        ("ip_installs"@, MetricValueView::U64(c.ip_installs)),
        ("ip_installs_skipped"@, MetricValueView::U64(c.ip_installs_skipped)),
        ("ip_uninstalls"@, MetricValueView::U64(c.ip_uninstalls)),
        ("ip_uninstalls_skipped"@, MetricValueView::U64(c.ip_uninstalls_skipped)),
        ("mpls_installs"@, MetricValueView::U64(c.mpls_installs)),
        ("mpls_installs_skipped"@, MetricValueView::U64(c.mpls_installs_skipped)),
        ("mpls_uninstalls"@, MetricValueView::U64(c.mpls_uninstalls)),
        ("mpls_uninstalls_skipped"@, MetricValueView::U64(c.mpls_uninstalls_skipped)),
    ]
}

/// The end-of-batch RIB/FIB event; none when the batch touched no prefix and
/// no MPLS entry.
pub fn routing_rib_batch_event(c: &RibBatchCounters) -> (e: Option<MetricsEvent>)
    ensures
        (c.prefixes_touched == 0 && c.mpls_touched == 0) <==> e is None,
        e matches Some(ev) ==> event_fields(ev) == routing_rib_batch_fields(*c),
        e matches Some(ev) ==> field_holds(
            event_fields(ev),
            "rib_ipv4_active"@,
            MetricValueView::U64(c.rib_ipv4_active),
        ) && field_holds(
            event_fields(ev),
            "rib_ipv6_active"@,
            MetricValueView::U64(c.rib_ipv6_active),
        ),
{
    if c.prefixes_touched == 0 && c.mpls_touched == 0 {
        return None;
    }
    let mut fields: Vec<MetricField> = Vec::new();
    fields.push(field("kind", str_value("routing.rib.batch")));
    fields.push(field("protocol", str_value("routing")));
    fields.push(field("fib_install", MetricValue::Bool(c.fib_install)));
    fields.push(field("prefixes_touched", MetricValue::U64(c.prefixes_touched)));
    fields.push(field("mpls_touched", MetricValue::U64(c.mpls_touched)));
    fields.push(field("rib_ipv4_active", MetricValue::U64(c.rib_ipv4_active)));
    fields.push(field("rib_ipv6_active", MetricValue::U64(c.rib_ipv6_active)));
    fields.push(field("rib_mpls_entries", MetricValue::U64(c.rib_mpls_entries)));
    fields.push(field("ip_installs", MetricValue::U64(c.ip_installs)));
    fields.push(field("ip_installs_skipped", MetricValue::U64(c.ip_installs_skipped)));
    fields.push(field("ip_uninstalls", MetricValue::U64(c.ip_uninstalls)));
    fields.push(field("ip_uninstalls_skipped", MetricValue::U64(c.ip_uninstalls_skipped)));
    fields.push(field("mpls_installs", MetricValue::U64(c.mpls_installs)));
    fields.push(field("mpls_installs_skipped", MetricValue::U64(c.mpls_installs_skipped)));
    fields.push(field("mpls_uninstalls", MetricValue::U64(c.mpls_uninstalls)));
    fields.push(field("mpls_uninstalls_skipped", MetricValue::U64(c.mpls_uninstalls_skipped)));
    let e = MetricsEvent { fields };
    assert(event_fields(e) =~= routing_rib_batch_fields(*c));
    proof {
        law_rib_batch_fields_hold_counters(*c);
    }
    Some(e)
}

/// The fields of the bootstrap line written when the sink opens.
pub open spec fn start_fields(ts: Seq<char>, path: Seq<char>) -> Seq<
    (Seq<char>, MetricValueView),
> {
    seq![
        ("schema"@, MetricValueView::Str(SCHEMA@)),
        ("ts"@, MetricValueView::Str(ts)),
        ("kind"@, MetricValueView::Str("observability.start"@)),
        ("path"@, MetricValueView::Str(path)),
    ]
}

/// The bootstrap event written when the sink opens, so that the file is not
/// empty.
pub fn start_event(ts: &str, path: &str) -> (e: MetricsEvent)
    ensures
        event_fields(e) == start_fields(ts@, path@),
{
    let mut fields: Vec<MetricField> = Vec::new();
    fields.push(field("schema", str_value(SCHEMA)));
    fields.push(field("ts", str_value(ts)));
    fields.push(field("kind", str_value("observability.start")));
    fields.push(field("path", str_value(path)));
    let e = MetricsEvent { fields };
    assert(event_fields(e) =~= start_fields(ts@, path@));
    e
}

/// The fields with `(k, v)` added at the end when no field has key `k`.
pub open spec fn or_insert(
    fields: Seq<(Seq<char>, MetricValueView)>,
    k: Seq<char>,
    v: MetricValueView,
) -> Seq<(Seq<char>, MetricValueView)> {
    if has_field(fields, k) {
        fields
    } else {
        fields.push((k, v))
    }
}

/// Adds `(key, value)` when no field has that key.
fn insert_if_absent(e: &mut MetricsEvent, key: &str, value: MetricValue)
    ensures
        event_fields(*final(e)) == or_insert(event_fields(*old(e)), key@, value@),
{
    let ghost f0 = event_fields(*e);
    let k = String::from_str(key);
    let mut i: usize = 0;
    while i < e.fields.len()
        invariant
            f0 == event_fields(*e),
            k@ == key@,
            i <= e.fields@.len(),
            forall|j: int| 0 <= j < i ==> #[trigger] f0[j].0 != key@,
        decreases e.fields@.len() - i,
    {
        if e.fields[i].key == k {
            assert(f0[i as int].0 == key@);
            return;
        }
        i += 1;
    }
    e.fields.push(MetricField { key: k, value });
    assert(event_fields(*e) =~= f0.push((key@, value@)));
}

/// The event as written: a `schema` field and a `ts` field are added when
/// missing; fields already present are kept.
pub fn with_schema_and_ts(e: MetricsEvent, ts: &str) -> (r: MetricsEvent)
    ensures
        event_fields(r) == or_insert(
            or_insert(event_fields(e), "schema"@, MetricValueView::Str(SCHEMA@)),
            "ts"@,
            MetricValueView::Str(ts@),
        ),
{
    let mut e = e;
    insert_if_absent(&mut e, "schema", str_value(SCHEMA));
    insert_if_absent(&mut e, "ts", str_value(ts));
    e
}

/// Every written line has a `schema` and a `ts` field; events that carry
/// neither get the library schema and the given time stamp, after their own
/// fields, which stay as they were.
pub proof fn law_written_events_carry_schema_and_ts(
    fields: Seq<(Seq<char>, MetricValueView)>,
    ts: Seq<char>,
)
    ensures
        ({
            let w = or_insert(
                or_insert(fields, "schema"@, MetricValueView::Str(SCHEMA@)),
                "ts"@,
                MetricValueView::Str(ts),
            );
            &&& has_field(w, "schema"@)
            &&& has_field(w, "ts"@)
            &&& w.take(fields.len() as int) == fields
            &&& (!has_field(fields, "schema"@) && !has_field(fields, "ts"@)) ==> w == fields.push(
                ("schema"@, MetricValueView::Str(SCHEMA@)),
            ).push(("ts"@, MetricValueView::Str(ts)))
        }),
{
    let s1 = or_insert(fields, "schema"@, MetricValueView::Str(SCHEMA@));
    let w = or_insert(s1, "ts"@, MetricValueView::Str(ts));
    if !has_field(fields, "schema"@) {
        assert(s1[fields.len() as int].0 == "schema"@);
    }
    if !has_field(s1, "ts"@) {
        assert(w[s1.len() as int].0 == "ts"@);
        assert(has_field(w, "schema"@)) by {
            let i = choose|i: int| 0 <= i < s1.len() && #[trigger] s1[i].0 == "schema"@;
            assert(w[i] == s1[i]);
        }
    }
    assert(w.take(fields.len() as int) =~= fields);
    if !has_field(fields, "schema"@) && !has_field(fields, "ts"@) {
        reveal_strlit("schema");
        reveal_strlit("ts");
        assert(!has_field(s1, "ts"@)) by {
            if has_field(s1, "ts"@) {
                let i = choose|i: int| 0 <= i < s1.len() && #[trigger] s1[i].0 == "ts"@;
                if i < fields.len() {
                    assert(fields[i] == s1[i]);
                } else {
                    assert(s1[i].0 == "schema"@);
                    assert("schema"@.len() != "ts"@.len());
                }
            }
        }
    }
}

/// Each field of the SPF finish event holds the argument of its name: the
/// instance, level, SPF type, duration, schedule-to-start delay (null when
/// absent), trigger LSP count and run count, under kind `isis.spf.finish`
/// and protocol `isis`.
pub proof fn law_spf_finish_fields_hold_arguments(
    instance: Seq<char>,
    level: Seq<char>,
    spf_type: Seq<char>,
    duration_us: u64,
    schedule_to_start_us: Option<u64>,
    trigger_lsp_count: u64,
    spf_runs: u32,
)
    ensures
        ({
            let f = isis_spf_finish_fields(
                instance,
                level,
                spf_type,
                duration_us,
                schedule_to_start_us,
                trigger_lsp_count,
                spf_runs,
            );
            &&& field_holds(f, "kind"@, MetricValueView::Str("isis.spf.finish"@))
            &&& field_holds(f, "protocol"@, MetricValueView::Str("isis"@))
            &&& field_holds(f, "instance"@, MetricValueView::Str(instance))
            &&& field_holds(f, "level"@, MetricValueView::Str(level))
            &&& field_holds(f, "spf_type"@, MetricValueView::Str(spf_type))
            &&& field_holds(f, "duration_us"@, MetricValueView::U64(duration_us))
            &&& field_holds(f, "schedule_to_start_us"@, match schedule_to_start_us {
                Some(v) => MetricValueView::U64(v),
                None => MetricValueView::Null,
            })
            &&& field_holds(f, "trigger_lsp_count"@, MetricValueView::U64(trigger_lsp_count))
            &&& field_holds(f, "spf_runs"@, MetricValueView::U64(spf_runs as u64))
        }),
{
    reveal_strlit("kind");
    reveal_strlit("protocol");
    reveal_strlit("instance");
    reveal_strlit("level");
    reveal_strlit("spf_type");
    reveal_strlit("duration_us");
    reveal_strlit("schedule_to_start_us");
    reveal_strlit("trigger_lsp_count");
    reveal_strlit("spf_runs");
    let f = isis_spf_finish_fields(
        instance,
        level,
        spf_type,
        duration_us,
        schedule_to_start_us,
        trigger_lsp_count,
        spf_runs,
    );
    assert(f[0].0 == "kind"@);
    assert(f[1].0 == "protocol"@);
    assert(f[2].0 == "instance"@);
    assert(f[3].0 == "level"@);
    assert(f[4].0 == "spf_type"@);
    assert(f[5].0 == "duration_us"@);
    assert(f[6].0 == "schedule_to_start_us"@);
    assert(f[7].0 == "trigger_lsp_count"@);
    assert(f[8].0 == "spf_runs"@);
    assert("instance"@[1] != "spf_type"@[1]);
    assert("instance"@[1] != "spf_runs"@[1]);
    assert("spf_type"@[4] != "spf_runs"@[4]);
}

/// Each field of the RIB/FIB batch event holds the counter of its name,
/// under kind `routing.rib.batch` and protocol `routing`.
pub proof fn law_rib_batch_fields_hold_counters(c: RibBatchCounters)
    ensures
        ({
            let f = routing_rib_batch_fields(c);
            &&& field_holds(f, "kind"@, MetricValueView::Str("routing.rib.batch"@))
            &&& field_holds(f, "protocol"@, MetricValueView::Str("routing"@))
            &&& field_holds(f, "fib_install"@, MetricValueView::Bool(c.fib_install))
            &&& field_holds(f, "prefixes_touched"@, MetricValueView::U64(c.prefixes_touched))
            &&& field_holds(f, "mpls_touched"@, MetricValueView::U64(c.mpls_touched))
            &&& field_holds(f, "rib_ipv4_active"@, MetricValueView::U64(c.rib_ipv4_active))
            &&& field_holds(f, "rib_ipv6_active"@, MetricValueView::U64(c.rib_ipv6_active))
            &&& field_holds(f, "rib_mpls_entries"@, MetricValueView::U64(c.rib_mpls_entries))
            &&& field_holds(f, "ip_installs"@, MetricValueView::U64(c.ip_installs))
            &&& field_holds(f, "ip_installs_skipped"@, MetricValueView::U64(c.ip_installs_skipped))
            &&& field_holds(f, "ip_uninstalls"@, MetricValueView::U64(c.ip_uninstalls))
            &&& field_holds(
                f,
                "ip_uninstalls_skipped"@,
                MetricValueView::U64(c.ip_uninstalls_skipped),
            )
            &&& field_holds(f, "mpls_installs"@, MetricValueView::U64(c.mpls_installs))
            &&& field_holds(
                f,
                "mpls_installs_skipped"@,
                MetricValueView::U64(c.mpls_installs_skipped),
            )
            &&& field_holds(f, "mpls_uninstalls"@, MetricValueView::U64(c.mpls_uninstalls))
            &&& field_holds(
                f,
                "mpls_uninstalls_skipped"@,
                MetricValueView::U64(c.mpls_uninstalls_skipped),
            )
        }),
{
    reveal_strlit("kind");
    reveal_strlit("protocol");
    reveal_strlit("fib_install");
    reveal_strlit("prefixes_touched");
    reveal_strlit("mpls_touched");
    reveal_strlit("rib_ipv4_active");
    reveal_strlit("rib_ipv6_active");
    reveal_strlit("rib_mpls_entries");
    reveal_strlit("ip_installs");
    reveal_strlit("ip_installs_skipped");
    reveal_strlit("ip_uninstalls");
    reveal_strlit("ip_uninstalls_skipped");
    reveal_strlit("mpls_installs");
    reveal_strlit("mpls_installs_skipped");
    reveal_strlit("mpls_uninstalls");
    reveal_strlit("mpls_uninstalls_skipped");
    let f = routing_rib_batch_fields(c);
    assert(f[0].0 == "kind"@);
    assert(f[1].0 == "protocol"@);
    assert(f[2].0 == "fib_install"@);
    assert(f[3].0 == "prefixes_touched"@);
    assert(f[4].0 == "mpls_touched"@);
    assert(f[5].0 == "rib_ipv4_active"@);
    assert(f[6].0 == "rib_ipv6_active"@);
    assert(f[7].0 == "rib_mpls_entries"@);
    assert(f[8].0 == "ip_installs"@);
    assert(f[9].0 == "ip_installs_skipped"@);
    assert(f[10].0 == "ip_uninstalls"@);
    assert(f[11].0 == "ip_uninstalls_skipped"@);
    assert(f[12].0 == "mpls_installs"@);
    assert(f[13].0 == "mpls_installs_skipped"@);
    assert(f[14].0 == "mpls_uninstalls"@);
    assert(f[15].0 == "mpls_uninstalls_skipped"@);
    assert("fib_install"@[0] != "ip_installs"@[0]);
    assert("prefixes_touched"@[0] != "rib_mpls_entries"@[0]);
    assert("rib_ipv4_active"@[7] != "rib_ipv6_active"@[7]);
    assert("rib_ipv4_active"@[0] != "mpls_uninstalls"@[0]);
    assert("rib_ipv6_active"@[0] != "mpls_uninstalls"@[0]);
    assert("ip_uninstalls"@[0] != "mpls_installs"@[0]);
    assert("ip_uninstalls_skipped"@[0] != "mpls_installs_skipped"@[0]);
}

/// Every domain event names its `kind`.
pub proof fn law_domain_events_carry_kind(
    instance: Seq<char>,
    level: Seq<char>,
    spf_type: Seq<char>,
    duration_us: u64,
    schedule_to_start_us: Option<u64>,
    trigger_lsp_count: u64,
    spf_runs: u32,
    c: RibBatchCounters,
    ts: Seq<char>,
    path: Seq<char>,
)
    ensures
        has_field(
            isis_spf_finish_fields(
                instance,
                level,
                spf_type,
                duration_us,
                schedule_to_start_us,
                trigger_lsp_count,
                spf_runs,
            ),
            "kind"@,
        ),
        has_field(routing_rib_batch_fields(c), "kind"@),
        has_field(start_fields(ts, path), "kind"@),
{
    assert(isis_spf_finish_fields(
        instance,
        level,
        spf_type,
        duration_us,
        schedule_to_start_us,
        trigger_lsp_count,
        spf_runs,
    )[0].0 == "kind"@);
    assert(routing_rib_batch_fields(c)[0].0 == "kind"@);
    assert(start_fields(ts, path)[2].0 == "kind"@);
}

} // verus!
