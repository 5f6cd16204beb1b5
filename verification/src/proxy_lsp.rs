//! Proxy LSP synthesis on the Area Leader (RFC 9666 §4.4): what the Proxy
//! LSP carries, and whether to originate, keep or purge it.

use vstd::prelude::*;

use crate::area_proxy::{is_leader, spec_is_leader};
use crate::config::{AddressFamily, AreaProxyRole, InstanceCfg};
use crate::lsdb::{
    any_area_proxy_for_system_id, any_for_system_id, entry_ids_for_system_id, first_with_lsp_id,
    get_by_lspid, ids_for_system_id, lsp_has_area_proxy, Arena, Lsdb, LspEntry,
};
use crate::min_table::{
    covers_keys, has_key, insert_min, is_winning_candidate, lemma_min_table_covers,
    lemma_min_table_entry, lemma_min_table_sorted, min_table, sorted_by_key, MetricKeyed,
};
use crate::packet::{
    area_addrs_view, clone_area_addrs, Ipv4Reach, Ipv6Reach, IsReach, LevelNumber, Lsp, LspId, LspTlvs, LspTlvsView,
    SystemId, LSP_FLAG_IS_TYPE2, NLPID_IPV4, NLPID_IPV6,
};
use crate::text::{push_str, push_system_id, system_id_text};

verus! {

/// An LSP of the level-2 database feeds the Proxy LSP: it is not the
/// instance's own, not the Proxy LSP, carries the Area Proxy TLV (an inside
/// router), and is alive.
pub open spec fn feeds_proxy_lsp(cfg: &InstanceCfg, proxy: SystemId, lsp: Lsp) -> bool {
    &&& cfg.system_id != Some(lsp.lsp_id.system_id)
    &&& lsp.lsp_id.system_id != proxy
    &&& lsp.tlvs.area_proxy is Some
    &&& lsp.rem_lifetime != 0
    &&& lsp.seqno != 0
}

/// `acc` followed by the items not yet in it, in first-seen order.
pub open spec fn add_new(acc: Seq<u8>, items: Seq<u8>) -> Seq<u8>
    decreases items.len(),
{
    if items.len() == 0 {
        acc
    } else {
        let prev = add_new(acc, items.drop_last());
        if prev.contains(items.last()) {
            prev
        } else {
            prev.push(items.last())
        }
    }
}

/// Protocols supported by the feeding LSPs, each once, in first-seen order.
pub open spec fn feeding_protocols(entries: Seq<LspEntry>, cfg: &InstanceCfg, proxy: SystemId) -> Seq<
    u8,
>
    decreases entries.len(),
{
    if entries.len() == 0 {
        Seq::empty()
    } else {
        let prev = feeding_protocols(entries.drop_last(), cfg, proxy);
        let lsp = entries.last().data;
        if feeds_proxy_lsp(cfg, proxy, lsp) {
            add_new(prev, lsp.tlvs.protocols_supported@)
        } else {
            prev
        }
    }
}

/// The neighbors that are outside the proxy area: no LSP of theirs in `all`
/// carries the Area Proxy TLV.
pub open spec fn outside_neighbors(nbrs: Seq<IsReach>, all: Seq<LspEntry>) -> Seq<IsReach>
    decreases nbrs.len(),
{
    if nbrs.len() == 0 {
        Seq::empty()
    } else {
        let prev = outside_neighbors(nbrs.drop_last(), all);
        if any_for_system_id(all, nbrs.last().neighbor.system_id, |l: Lsp| lsp_has_area_proxy(l)) {
            prev
        } else {
            prev.push(nbrs.last())
        }
    }
}

/// IS reachability candidates: the outside neighbors of each feeding LSP, in
/// database order.
pub open spec fn is_candidates(
    entries: Seq<LspEntry>,
    all: Seq<LspEntry>,
    cfg: &InstanceCfg,
    proxy: SystemId,
) -> Seq<IsReach>
    decreases entries.len(),
{
    if entries.len() == 0 {
        Seq::empty()
    } else {
        let prev = is_candidates(entries.drop_last(), all, cfg, proxy);
        let lsp = entries.last().data;
        if feeds_proxy_lsp(cfg, proxy, lsp) {
            prev + outside_neighbors(lsp.tlvs.ext_is_reach@, all)
        } else {
            prev
        }
    }
}

/// IPv4 reachability candidates: the IPv4 prefixes of each feeding LSP.
pub open spec fn ipv4_candidates(entries: Seq<LspEntry>, cfg: &InstanceCfg, proxy: SystemId) -> Seq<
    crate::packet::Ipv4Reach,
>
    decreases entries.len(),
{
    if entries.len() == 0 {
        Seq::empty()
    } else {
        let prev = ipv4_candidates(entries.drop_last(), cfg, proxy);
        let lsp = entries.last().data;
        if feeds_proxy_lsp(cfg, proxy, lsp) {
            prev + lsp.tlvs.ext_ipv4_reach@
        } else {
            prev
        }
    }
}

/// IPv6 reachability candidates: the IPv6 prefixes of each feeding LSP.
pub open spec fn ipv6_candidates(entries: Seq<LspEntry>, cfg: &InstanceCfg, proxy: SystemId) -> Seq<
    crate::packet::Ipv6Reach,
>
    decreases entries.len(),
{
    if entries.len() == 0 {
        Seq::empty()
    } else {
        let prev = ipv6_candidates(entries.drop_last(), cfg, proxy);
        let lsp = entries.last().data;
        if feeds_proxy_lsp(cfg, proxy, lsp) {
            prev + lsp.tlvs.ipv6_reach@
        } else {
            prev
        }
    }
}

/// NLPIDs of the enabled address families, IPv4 first.
pub open spec fn enabled_af_nlpids(cfg: &InstanceCfg) -> Seq<u8> {
    (if cfg.ipv4_enabled {
        seq![NLPID_IPV4]
    } else {
        Seq::empty()
    }) + (if cfg.ipv6_enabled {
        seq![NLPID_IPV6]
    } else {
        Seq::empty()
    })
}

/// Dynamic hostname of the Proxy LSP: `proxy-` followed by the proxy System
/// ID in dotted hexadecimal.
pub open spec fn proxy_hostname(proxy: SystemId) -> Seq<char> {
    seq!['p', 'r', 'o', 'x', 'y', '-'] + system_id_text(proxy)
}

/// The TLVs of the Proxy LSP, or none.
///
/// None unless the instance is the Area Leader with a proxy System ID and the
/// feeding LSPs reach at least one outside neighbor. Otherwise: the protocols
/// of the feeding LSPs (those of the enabled address families when they name
/// none), the configured area addresses, the `proxy-` hostname, the LSP MTU
/// as buffer size, for each outside neighbor, IPv4 prefix and IPv6 prefix the
/// lowest-metric entry among the feeding LSPs (earliest on ties) in ascending
/// key order, and no Area Proxy TLV.
pub open spec fn proxy_lsp_tlvs(cfg: &InstanceCfg, entries: Seq<LspEntry>) -> Option<LspTlvsView> {
    if !spec_is_leader(cfg) || cfg.area_proxy.proxy_system_id is None {
        None
    } else {
        let proxy = cfg.area_proxy.proxy_system_id->0;
        let ext_is = min_table(is_candidates(entries, entries, cfg, proxy));
        if ext_is.len() == 0 {
            None
        } else {
            let protocols = feeding_protocols(entries, cfg, proxy);
            Some(
                LspTlvsView {
                    protocols_supported: if protocols.len() == 0 {
                        enabled_af_nlpids(cfg)
                    } else {
                        protocols
                    },
                    area_addrs: area_addrs_view(cfg.area_addrs@),
                    hostname: Some(proxy_hostname(proxy)),
                    lsp_buf_size: Some(cfg.lsp_mtu),
                    ext_is_reach: ext_is,
                    ext_ipv4_reach: min_table(ipv4_candidates(entries, cfg, proxy)),
                    ipv6_reach: min_table(ipv6_candidates(entries, cfg, proxy)),
                    area_proxy: None,
                },
            )
        }
    }
}

/// Adds to `acc` the items it does not hold yet.
fn add_protocols(acc: &mut Vec<u8>, items: &Vec<u8>)
    ensures
        final(acc)@ == add_new(old(acc)@, items@),
{
    let ghost a0 = acc@;
    for j in 0..items.len()
        invariant
            acc@ == add_new(a0, items@.take(j as int)),
            j <= items@.len(),
    {
        assert(items@.take(j + 1).drop_last() =~= items@.take(j as int));
        let p = items[j];
        let mut found = false;
        let mut i: usize = 0;
        while i < acc.len()
            invariant
                i <= acc@.len(),
                found == acc@.take(i as int).contains(p),
            decreases acc@.len() - i,
        {
            let ghost before = acc@.take(i as int);
            assert(acc@.take(i + 1) =~= before.push(acc@[i as int]));
            if acc[i] == p {
                found = true;
                assert(acc@.take(i + 1)[i as int] == p);
            } else {
                proof {
                    let t1 = acc@.take(i + 1);
                    if t1.contains(p) {
                        let w = choose|w: int| 0 <= w < t1.len() && t1[w] == p;
                        assert(before[w] == p);
                    }
                }
            }
            if found {
                assert(acc@.take(i + 1).contains(p)) by {
                    if acc@[i as int] != p {
                        let w = choose|w: int| 0 <= w < before.len() && before[w] == p;
                        assert(acc@.take(i + 1)[w] == p);
                    }
                }
            }
            i += 1;
        }
        assert(acc@.take(i as int) =~= acc@);
        if !found {
            acc.push(p);
        }
    }
    assert(items@.take(items@.len() as int) =~= items@);
}

/// Adds every entry of `items` to a minimum-metric table.
pub(crate) fn add_all_min<V: MetricKeyed>(table: &mut Vec<V>, items: &Vec<V>, Ghost(c0): Ghost<
    Seq<V>,
>)
    requires
        old(table)@ == min_table(c0),
    ensures
        final(table)@ == min_table(c0 + items@),
{
    for j in 0..items.len()
        invariant
            table@ == min_table(c0 + items@.take(j as int)),
            j <= items@.len(),
    {
        assert((c0 + items@.take(j + 1)).drop_last() =~= c0 + items@.take(j as int));
        assert((c0 + items@.take(j + 1)).last() == items@[j as int]);
        insert_min(table, items[j]);
    }
    assert(items@.take(items@.len() as int) =~= items@);
}

/// Adds the outside neighbors among `nbrs` to the IS reachability table.
fn add_outside_neighbors(
    table: &mut Vec<IsReach>,
    nbrs: &Vec<IsReach>,
    lsdb: &Lsdb,
    arena: &Arena,
    Ghost(c0): Ghost<Seq<IsReach>>,
)
    requires
        lsdb.wf(arena),
        old(table)@ == min_table(c0),
    ensures
        final(table)@ == min_table(c0 + outside_neighbors(nbrs@, lsdb.entries(arena))),
{
    let ghost all = lsdb.entries(arena);
    for j in 0..nbrs.len()
        invariant
            lsdb.wf(arena),
            all == lsdb.entries(arena),
            table@ == min_table(c0 + outside_neighbors(nbrs@.take(j as int), all)),
            j <= nbrs@.len(),
    {
        let nbr = nbrs[j];
        let ghost prev = c0 + outside_neighbors(nbrs@.take(j as int), all);
        assert(nbrs@.take(j + 1).drop_last() =~= nbrs@.take(j as int));
        if !any_area_proxy_for_system_id(lsdb, arena, nbr.neighbor.system_id) {
            assert((prev.push(nbr)).drop_last() =~= prev);
            assert(c0 + outside_neighbors(nbrs@.take(j + 1), all) =~= prev.push(nbr));
            insert_min(table, nbr);
        } else {
            assert(c0 + outside_neighbors(nbrs@.take(j + 1), all) =~= prev);
        }
    }
    assert(nbrs@.take(nbrs@.len() as int) =~= nbrs@);
}

/// Whether an LSP feeds the Proxy LSP.
fn lsp_feeds_proxy_lsp(cfg: &InstanceCfg, proxy: SystemId, lsp: &Lsp) -> (r: bool)
    ensures
        r == feeds_proxy_lsp(cfg, proxy, *lsp),
{
    if let Some(local) = cfg.system_id {
        if lsp.lsp_id.system_id == local {
            return false;
        }
    }
    lsp.lsp_id.system_id != proxy && lsp.tlvs.area_proxy.is_some() && lsp.rem_lifetime != 0
        && lsp.seqno != 0
}

/// Builds the Proxy LSP TLVs from the Inside Edge level-2 LSPs (leader path).
pub fn build_proxy_lsp_tlvs(cfg: &InstanceCfg, lsdb_l2: &Lsdb, lsp_entries: &Arena) -> (r: Option<
    LspTlvs,
>)
    requires
        lsdb_l2.wf(lsp_entries),
    ensures
        match proxy_lsp_tlvs(cfg, lsdb_l2.entries(lsp_entries)) {
            Some(v) => r matches Some(t) && t@ == v,
            None => r is None,
        },
{
    if !is_leader(cfg) {
        return None;
    }
    let proxy = match cfg.area_proxy.proxy_system_id {
        Some(p) => p,
        None => return None,
    };
    let ghost entries = lsdb_l2.entries(lsp_entries);
    let mut ext_is: Vec<IsReach> = Vec::new();
    let mut ipv4: Vec<crate::packet::Ipv4Reach> = Vec::new();
    let mut ipv6: Vec<crate::packet::Ipv6Reach> = Vec::new();
    let mut protocols: Vec<u8> = Vec::new();
    let n = lsdb_l2.len();
    assert(entries.take(0) =~= Seq::<LspEntry>::empty());
    for k in 0..n
        invariant
            n == lsdb_l2.ids@.len(),
            lsdb_l2.wf(lsp_entries),
            entries == lsdb_l2.entries(lsp_entries),
            protocols@ == feeding_protocols(entries.take(k as int), cfg, proxy),
            ext_is@ == min_table(is_candidates(entries.take(k as int), entries, cfg, proxy)),
            ipv4@ == min_table(ipv4_candidates(entries.take(k as int), cfg, proxy)),
            ipv6@ == min_table(ipv6_candidates(entries.take(k as int), cfg, proxy)),
    {
        let e = lsdb_l2.entry(lsp_entries, k);
        let lsp = &e.data;
        assert(entries.take(k + 1).drop_last() =~= entries.take(k as int));
        assert(entries.take(k + 1).last() == entries[k as int]);
        if lsp_feeds_proxy_lsp(cfg, proxy, lsp) {
            add_protocols(&mut protocols, &lsp.tlvs.protocols_supported);
            add_outside_neighbors(
                &mut ext_is,
                &lsp.tlvs.ext_is_reach,
                lsdb_l2,
                lsp_entries,
                Ghost(is_candidates(entries.take(k as int), entries, cfg, proxy)),
            );
            add_all_min(
                &mut ipv4,
                &lsp.tlvs.ext_ipv4_reach,
                Ghost(ipv4_candidates(entries.take(k as int), cfg, proxy)),
            );
            add_all_min(
                &mut ipv6,
                &lsp.tlvs.ipv6_reach,
                Ghost(ipv6_candidates(entries.take(k as int), cfg, proxy)),
            );
        }
    }
    assert(entries.take(n as int) =~= entries);

    if ext_is.len() == 0 {
        return None;
    }
    if protocols.len() == 0 {
        if cfg.is_af_enabled(AddressFamily::Ipv4) {
            protocols.push(NLPID_IPV4);
        }
        if cfg.is_af_enabled(AddressFamily::Ipv6) {
            protocols.push(NLPID_IPV6);
        }
        assert(protocols@ =~= enabled_af_nlpids(cfg));
    }
    let mut hostname = String::new();
    push_str(&mut hostname, "proxy-");
    push_system_id(&mut hostname, proxy);
    proof {
        reveal_strlit("proxy-");
    }
    assert(hostname@ =~= proxy_hostname(proxy));
    let tlvs = LspTlvs {
        protocols_supported: protocols,
        area_addrs: clone_area_addrs(&cfg.area_addrs),
        hostname: Some(hostname),
        lsp_buf_size: Some(cfg.lsp_mtu),
        ext_is_reach: ext_is,
        ext_ipv4_reach: ipv4,
        ipv6_reach: ipv6,
        area_proxy: None,
    };
    Some(tlvs)
}

/// Arena indices of the LSP fragments of the configured proxy System ID, in
/// database order; none without a proxy System ID.
pub open spec fn proxy_lsp_ids(cfg: &InstanceCfg, entries: Seq<LspEntry>) -> Seq<usize> {
    match cfg.area_proxy.proxy_system_id {
        Some(proxy) => ids_for_system_id(entries, proxy),
        None => Seq::empty(),
    }
}

/// Collects the LSP fragments of the configured proxy System ID, to be
/// purged.
pub fn purge_proxy_lsp(cfg: &InstanceCfg, lsdb_l2: &Lsdb, lsp_entries: &Arena) -> (ids: Vec<usize>)
    requires
        lsdb_l2.wf(lsp_entries),
    ensures
        ids@ == proxy_lsp_ids(cfg, lsdb_l2.entries(lsp_entries)),
{
    match cfg.area_proxy.proxy_system_id {
        Some(proxy) => entry_ids_for_system_id(lsdb_l2, lsp_entries, proxy),
        None => Vec::new(),
    }
}

/// What the Area Leader does about its Proxy LSP.
#[derive(Debug)]
pub enum ProxyLspAction {
    /// Purge these LSP fragments (arena indices).
    Purge(Vec<usize>),
    /// The Proxy LSP in the database is alive and carries the same TLVs.
    Keep,
    /// Originate (or refresh) this Proxy LSP.
    Originate(Lsp),
}

/// The sequence number after `s`, wrapping to zero.
pub open spec fn next_seqno(s: u32) -> u32 {
    if s == u32::MAX {
        0
    } else {
        (s + 1) as u32
    }
}

/// LSP ID of the Proxy LSP: fragment 0 of the proxy System ID.
pub open spec fn proxy_lsp_id(proxy: SystemId) -> LspId {
    LspId { system_id: proxy, pseudonode: 0, fragment: 0 }
}

/// Decides whether to originate, refresh, keep or purge the Proxy LSP.
///
/// Purge the proxy fragments when no Proxy LSP TLVs can be built (not the
/// leader, no proxy System ID, or no outside neighbor). Keep when the
/// database already holds a live Proxy LSP with the same TLVs. Otherwise
/// originate a level-2 LSP with the instance's LSP lifetime, the IS-type-2
/// flag, the built TLVs, and the sequence number after the one in the
/// database (1 when there is none).
pub fn originate_proxy_lsp(cfg: &InstanceCfg, lsdb_l2: &Lsdb, lsp_entries: &Arena) -> (r:
    ProxyLspAction)
    requires
        lsdb_l2.wf(lsp_entries),
    ensures
        !(cfg.area_proxy.enabled && (cfg.area_proxy.role == AreaProxyRole::Leader
            || cfg.area_proxy.role == AreaProxyRole::Static)) ==> (r matches ProxyLspAction::Purge(
            ids,
        ) && ids@ == proxy_lsp_ids(cfg, lsdb_l2.entries(lsp_entries))),
        ({
            let entries = lsdb_l2.entries(lsp_entries);
            match proxy_lsp_tlvs(cfg, entries) {
                None => r matches ProxyLspAction::Purge(ids) && ids@ == proxy_lsp_ids(cfg, entries),
                Some(tv) => {
                    let id = proxy_lsp_id(cfg.area_proxy.proxy_system_id->0);
                    match first_with_lsp_id(entries, id) {
                        Some(k) => if entries[k].data.tlvs@ == tv && entries[k].data.rem_lifetime
                            != 0 {
                            r is Keep
                        } else {
                            r matches ProxyLspAction::Originate(lsp) && lsp.level
                                == LevelNumber::L2 && lsp.rem_lifetime == cfg.lsp_lifetime
                                && lsp.lsp_id == id && lsp.seqno == next_seqno(
                                entries[k].data.seqno,
                            ) && lsp.flags == LSP_FLAG_IS_TYPE2 && lsp.tlvs@ == tv
                        },
                        None => r matches ProxyLspAction::Originate(lsp) && lsp.level
                            == LevelNumber::L2 && lsp.rem_lifetime == cfg.lsp_lifetime
                            && lsp.lsp_id == id && lsp.seqno == 1 && lsp.flags == LSP_FLAG_IS_TYPE2
                            && lsp.tlvs@ == tv,
                    }
                },
            }
        }),
{
    let tlvs = match build_proxy_lsp_tlvs(cfg, lsdb_l2, lsp_entries) {
        Some(t) => t,
        None => {
            return ProxyLspAction::Purge(purge_proxy_lsp(cfg, lsdb_l2, lsp_entries));
        },
    };
    let proxy = match cfg.area_proxy.proxy_system_id {
        Some(p) => p,
        None => {
            return ProxyLspAction::Purge(purge_proxy_lsp(cfg, lsdb_l2, lsp_entries));
        },
    };
    let lsp_id = LspId { system_id: proxy, pseudonode: 0, fragment: 0 };
    let seqno = match get_by_lspid(lsdb_l2, lsp_entries, lsp_id) {
        Some(old) => {
            if old.data.tlvs.same_contents(&tlvs) && old.data.rem_lifetime != 0 {
                return ProxyLspAction::Keep;
            }
            if old.data.seqno == u32::MAX {
                0
            } else {
                old.data.seqno + 1
            }
        },
        None => 1,
    };
    ProxyLspAction::Originate(
        Lsp {
            level: LevelNumber::L2,
            rem_lifetime: cfg.lsp_lifetime,
            lsp_id,
            seqno,
            flags: LSP_FLAG_IS_TYPE2,
            tlvs,
        },
    )
}

/// Every outside neighbor has no LSP carrying the Area Proxy TLV.
proof fn lemma_outside_neighbors_are_outside(nbrs: Seq<IsReach>, all: Seq<LspEntry>)
    ensures
        forall|i: int|
            0 <= i < outside_neighbors(nbrs, all).len() ==> !any_for_system_id(
                all,
                (#[trigger] outside_neighbors(nbrs, all)[i]).neighbor.system_id,
                |l: Lsp| lsp_has_area_proxy(l),
            ),
    decreases nbrs.len(),
{
    if nbrs.len() > 0 {
        let prev = outside_neighbors(nbrs.drop_last(), all);
        let cur = outside_neighbors(nbrs, all);
        lemma_outside_neighbors_are_outside(nbrs.drop_last(), all);
        assert forall|i: int| 0 <= i < cur.len() implies !any_for_system_id(
            all,
            (#[trigger] cur[i]).neighbor.system_id,
            |l: Lsp| lsp_has_area_proxy(l),
        ) by {
            if i < prev.len() {
                assert(cur[i] == prev[i]);
            }
        }
    }
}

/// Every IS reachability candidate is an outside neighbor.
proof fn lemma_is_candidates_are_outside(
    entries: Seq<LspEntry>,
    all: Seq<LspEntry>,
    cfg: &InstanceCfg,
    proxy: SystemId,
)
    ensures
        forall|i: int|
            0 <= i < is_candidates(entries, all, cfg, proxy).len() ==> !any_for_system_id(
                all,
                (#[trigger] is_candidates(entries, all, cfg, proxy)[i]).neighbor.system_id,
                |l: Lsp| lsp_has_area_proxy(l),
            ),
    decreases entries.len(),
{
    if entries.len() > 0 {
        let prev = is_candidates(entries.drop_last(), all, cfg, proxy);
        lemma_is_candidates_are_outside(entries.drop_last(), all, cfg, proxy);
        let lsp = entries.last().data;
        if feeds_proxy_lsp(cfg, proxy, lsp) {
            let nb = outside_neighbors(lsp.tlvs.ext_is_reach@, all);
            lemma_outside_neighbors_are_outside(lsp.tlvs.ext_is_reach@, all);
            assert forall|i: int| 0 <= i < (prev + nb).len() implies !any_for_system_id(
                all,
                (#[trigger] (prev + nb)[i]).neighbor.system_id,
                |l: Lsp| lsp_has_area_proxy(l),
            ) by {
                if i >= prev.len() {
                    assert((prev + nb)[i] == nb[i - prev.len()]);
                } else {
                    assert((prev + nb)[i] == prev[i]);
                }
            }
        }
    }
}

/// The Proxy LSP is built only by the Area Leader with a proxy System ID.
pub proof fn law_proxy_lsp_only_on_leader(cfg: &InstanceCfg, entries: Seq<LspEntry>)
    requires
        !spec_is_leader(cfg) || cfg.area_proxy.proxy_system_id is None,
    ensures
        proxy_lsp_tlvs(cfg, entries) is None,
{
}

/// The Proxy LSP advertises at least one IS neighbor, never carries the Area
/// Proxy TLV, and every neighbor it advertises is outside the proxy area: no
/// LSP of that neighbor carries the Area Proxy TLV.
pub proof fn law_proxy_lsp_neighbors_are_outside(cfg: &InstanceCfg, entries: Seq<LspEntry>)
    requires
        proxy_lsp_tlvs(cfg, entries) is Some,
    ensures
        ({
            let v = proxy_lsp_tlvs(cfg, entries)->0;
            &&& v.ext_is_reach.len() > 0
            &&& v.area_proxy is None
            &&& forall|i: int|
                0 <= i < v.ext_is_reach.len() ==> !any_for_system_id(
                    entries,
                    (#[trigger] v.ext_is_reach[i]).neighbor.system_id,
                    |l: Lsp| lsp_has_area_proxy(l),
                )
        }),
{
    let proxy = cfg.area_proxy.proxy_system_id->0;
    let cands = is_candidates(entries, entries, cfg, proxy);
    let v = proxy_lsp_tlvs(cfg, entries)->0;
    lemma_is_candidates_are_outside(entries, entries, cfg, proxy);
    assert forall|i: int| 0 <= i < v.ext_is_reach.len() implies !any_for_system_id(
        entries,
        (#[trigger] v.ext_is_reach[i]).neighbor.system_id,
        |l: Lsp| lsp_has_area_proxy(l),
    ) by {
        let j = lemma_min_table_entry(cands, i);
        assert(v.ext_is_reach[i] == cands[j]);
    }
}

/// Only an enabled Leader or Static router builds the Proxy LSP: with Area
/// Proxy disabled, or in the Inside or Edge role, there are no Proxy LSP
/// TLVs, whatever the database holds.
pub proof fn law_only_leader_or_static_builds_proxy_lsp(cfg: &InstanceCfg, entries: Seq<LspEntry>)
    ensures
        proxy_lsp_tlvs(cfg, entries) is Some ==> cfg.area_proxy.enabled && (cfg.area_proxy.role
            == AreaProxyRole::Leader || cfg.area_proxy.role == AreaProxyRole::Static),
        !cfg.area_proxy.enabled ==> proxy_lsp_tlvs(cfg, entries) is None,
        cfg.area_proxy.role == AreaProxyRole::Inside ==> proxy_lsp_tlvs(cfg, entries) is None,
        cfg.area_proxy.role == AreaProxyRole::Edge ==> proxy_lsp_tlvs(cfg, entries) is None,
{
}

/// Every outside neighbor and every prefix that a feeding LSP advertises
/// appears in the Proxy LSP exactly once, in ascending key order, with the
/// lowest metric any feeding LSP advertises for it (the earliest such entry
/// on ties).
pub proof fn law_proxy_lsp_lowest_metric(cfg: &InstanceCfg, entries: Seq<LspEntry>)
    requires
        proxy_lsp_tlvs(cfg, entries) is Some,
    ensures
        ({
            let v = proxy_lsp_tlvs(cfg, entries)->0;
            let proxy = cfg.area_proxy.proxy_system_id->0;
            &&& sorted_by_key(v.ext_is_reach)
            &&& sorted_by_key(v.ext_ipv4_reach)
            &&& sorted_by_key(v.ipv6_reach)
            &&& forall|r: int|
                0 <= r < v.ext_is_reach.len() ==> is_winning_candidate(
                    is_candidates(entries, entries, cfg, proxy),
                    #[trigger] v.ext_is_reach[r],
                )
            &&& forall|r: int|
                0 <= r < v.ext_ipv4_reach.len() ==> is_winning_candidate(
                    ipv4_candidates(entries, cfg, proxy),
                    #[trigger] v.ext_ipv4_reach[r],
                )
            &&& forall|r: int|
                0 <= r < v.ipv6_reach.len() ==> is_winning_candidate(
                    ipv6_candidates(entries, cfg, proxy),
                    #[trigger] v.ipv6_reach[r],
                )
            &&& covers_keys(v.ext_is_reach, is_candidates(entries, entries, cfg, proxy))
            &&& covers_keys(v.ext_ipv4_reach, ipv4_candidates(entries, cfg, proxy))
            &&& covers_keys(v.ipv6_reach, ipv6_candidates(entries, cfg, proxy))
        }),
{
    let proxy = cfg.area_proxy.proxy_system_id->0;
    let c1 = is_candidates(entries, entries, cfg, proxy);
    let c4 = ipv4_candidates(entries, cfg, proxy);
    let c6 = ipv6_candidates(entries, cfg, proxy);
    lemma_min_table_sorted(c1);
    lemma_min_table_sorted(c4);
    lemma_min_table_sorted(c6);
    assert forall|r: int| 0 <= r < min_table(c1).len() implies is_winning_candidate(
        c1,
        #[trigger] min_table(c1)[r],
    ) by {
        let j = lemma_min_table_entry(c1, r);
        assert(c1[j] == min_table(c1)[r]);
    }
    assert forall|r: int| 0 <= r < min_table(c4).len() implies is_winning_candidate(
        c4,
        #[trigger] min_table(c4)[r],
    ) by {
        let j = lemma_min_table_entry(c4, r);
        assert(c4[j] == min_table(c4)[r]);
    }
    assert forall|r: int| 0 <= r < min_table(c6).len() implies is_winning_candidate(
        c6,
        #[trigger] min_table(c6)[r],
    ) by {
        let j = lemma_min_table_entry(c6, r);
        assert(c6[j] == min_table(c6)[r]);
    }
    assert forall|j: int| 0 <= j < c1.len() implies has_key(
        min_table(c1),
        #[trigger] c1[j].key_of(),
    ) by {
        let r = lemma_min_table_covers(c1, j);
    }
    assert forall|j: int| 0 <= j < c4.len() implies has_key(
        min_table(c4),
        #[trigger] c4[j].key_of(),
    ) by {
        let r = lemma_min_table_covers(c4, j);
    }
    assert forall|j: int| 0 <= j < c6.len() implies has_key(
        min_table(c6),
        #[trigger] c6[j].key_of(),
    ) by {
        let r = lemma_min_table_covers(c6, j);
    }
}

/// Every entry of `add_new(acc, items)` is in `acc` or in `items`.
proof fn lemma_add_new_from(acc: Seq<u8>, items: Seq<u8>)
    ensures
        forall|j: int|
            0 <= j < add_new(acc, items).len() ==> acc.contains(#[trigger] add_new(acc, items)[j])
                || items.contains(add_new(acc, items)[j]),
    decreases items.len(),
{
    if items.len() > 0 {
        let prev = add_new(acc, items.drop_last());
        lemma_add_new_from(acc, items.drop_last());
        let cur = add_new(acc, items);
        assert forall|j: int| 0 <= j < cur.len() implies acc.contains(#[trigger] cur[j])
            || items.contains(cur[j]) by {
            if j < prev.len() {
                assert(cur[j] == prev[j]);
                if items.drop_last().contains(prev[j]) {
                    let w = choose|w: int| 0 <= w < items.drop_last().len() && items.drop_last()[w]
                        == prev[j];
                    assert(items[w] == prev[j]);
                }
            } else {
                assert(cur[j] == items.last());
                assert(items[items.len() - 1] == items.last());
            }
        }
    }
}

/// The `k`-th entry is a live LSP of an inside router, one that carries the
/// Area Proxy TLV, and is neither the instance's own LSP nor the Proxy LSP.
pub open spec fn live_inside_source(
    cfg: &InstanceCfg,
    proxy: SystemId,
    entries: Seq<LspEntry>,
    k: int,
) -> bool {
    &&& 0 <= k < entries.len()
    &&& entries[k].data.tlvs.area_proxy is Some
    &&& entries[k].data.rem_lifetime != 0
    &&& entries[k].data.seqno != 0
    &&& cfg.system_id != Some(entries[k].data.lsp_id.system_id)
    &&& entries[k].data.lsp_id.system_id != proxy
}

/// Some live inside-router LSP advertises the IS neighbor `r`.
pub open spec fn is_reach_from_inside(
    cfg: &InstanceCfg,
    proxy: SystemId,
    entries: Seq<LspEntry>,
    r: IsReach,
) -> bool {
    exists|k: int|
        live_inside_source(cfg, proxy, entries, k)
            && #[trigger] entries[k].data.tlvs.ext_is_reach@.contains(r)
}

/// Some live inside-router LSP advertises the IPv4 prefix entry `r`.
pub open spec fn ipv4_reach_from_inside(
    cfg: &InstanceCfg,
    proxy: SystemId,
    entries: Seq<LspEntry>,
    r: Ipv4Reach,
) -> bool {
    exists|k: int|
        live_inside_source(cfg, proxy, entries, k)
            && #[trigger] entries[k].data.tlvs.ext_ipv4_reach@.contains(r)
}

/// Some live inside-router LSP advertises the IPv6 prefix entry `r`.
pub open spec fn ipv6_reach_from_inside(
    cfg: &InstanceCfg,
    proxy: SystemId,
    entries: Seq<LspEntry>,
    r: Ipv6Reach,
) -> bool {
    exists|k: int|
        live_inside_source(cfg, proxy, entries, k)
            && #[trigger] entries[k].data.tlvs.ipv6_reach@.contains(r)
}

/// Some live inside-router LSP supports the protocol `p`.
pub open spec fn protocol_from_inside(
    cfg: &InstanceCfg,
    proxy: SystemId,
    entries: Seq<LspEntry>,
    p: u8,
) -> bool {
    exists|k: int|
        live_inside_source(cfg, proxy, entries, k)
            && #[trigger] entries[k].data.tlvs.protocols_supported@.contains(p)
}

/// Every protocol gathered from the database is supported by an inside
/// router's LSP.
proof fn lemma_feeding_protocols_from(entries: Seq<LspEntry>, cfg: &InstanceCfg, proxy: SystemId)
    ensures
        forall|j: int|
            0 <= j < feeding_protocols(entries, cfg, proxy).len() ==> protocol_from_inside(
                cfg,
                proxy,
                entries,
                #[trigger] feeding_protocols(entries, cfg, proxy)[j],
            ),
    decreases entries.len(),
{
    if entries.len() > 0 {
        let init = entries.drop_last();
        let prev = feeding_protocols(init, cfg, proxy);
        let cur = feeding_protocols(entries, cfg, proxy);
        let lsp = entries.last().data;
        let last = entries.len() - 1;
        lemma_feeding_protocols_from(init, cfg, proxy);
        if feeds_proxy_lsp(cfg, proxy, lsp) {
            lemma_add_new_from(prev, lsp.tlvs.protocols_supported@);
        }
        assert forall|j: int| 0 <= j < cur.len() implies protocol_from_inside(
            cfg,
            proxy,
            entries,
            #[trigger] cur[j],
        ) by {
            if !feeds_proxy_lsp(cfg, proxy, lsp) {
                assert(cur[j] == prev[j]);
            }
            if prev.contains(cur[j]) {
                let w = choose|w: int| 0 <= w < prev.len() && prev[w] == cur[j];
                assert(protocol_from_inside(cfg, proxy, init, prev[w]));
                let k = choose|k: int|
                    live_inside_source(cfg, proxy, init, k)
                        && #[trigger] init[k].data.tlvs.protocols_supported@.contains(prev[w]);
                assert(init[k] == entries[k]);
                assert(live_inside_source(cfg, proxy, entries, k));
                assert(entries[k].data.tlvs.protocols_supported@.contains(cur[j]));
            } else {
                assert(feeds_proxy_lsp(cfg, proxy, lsp));
                assert(entries[last] == entries.last());
                assert(live_inside_source(cfg, proxy, entries, last));
                assert(entries[last].data.tlvs.protocols_supported@.contains(cur[j]));
            }
        }
    }
}

/// Every outside neighbor is one of the neighbors it was taken from.
proof fn lemma_outside_neighbors_from(nbrs: Seq<IsReach>, all: Seq<LspEntry>)
    ensures
        forall|j: int|
            0 <= j < outside_neighbors(nbrs, all).len() ==> nbrs.contains(
                #[trigger] outside_neighbors(nbrs, all)[j],
            ),
    decreases nbrs.len(),
{
    if nbrs.len() > 0 {
        let prev = outside_neighbors(nbrs.drop_last(), all);
        let cur = outside_neighbors(nbrs, all);
        lemma_outside_neighbors_from(nbrs.drop_last(), all);
        assert forall|j: int| 0 <= j < cur.len() implies nbrs.contains(#[trigger] cur[j]) by {
            if j < prev.len() {
                assert(cur[j] == prev[j]);
                let w = choose|w: int| 0 <= w < nbrs.drop_last().len() && nbrs.drop_last()[w]
                    == prev[j];
                assert(nbrs[w] == prev[j]);
            } else {
                assert(nbrs[nbrs.len() - 1] == cur[j]);
            }
        }
    }
}

/// Every IS reachability candidate is advertised by an inside router's LSP.
proof fn lemma_is_candidates_from(
    entries: Seq<LspEntry>,
    all: Seq<LspEntry>,
    cfg: &InstanceCfg,
    proxy: SystemId,
)
    ensures
        forall|j: int|
            0 <= j < is_candidates(entries, all, cfg, proxy).len() ==> is_reach_from_inside(
                cfg,
                proxy,
                entries,
                #[trigger] is_candidates(entries, all, cfg, proxy)[j],
            ),
    decreases entries.len(),
{
    if entries.len() > 0 {
        let init = entries.drop_last();
        let prev = is_candidates(init, all, cfg, proxy);
        let cur = is_candidates(entries, all, cfg, proxy);
        let lsp = entries.last().data;
        let last = entries.len() - 1;
        lemma_is_candidates_from(init, all, cfg, proxy);
        lemma_outside_neighbors_from(lsp.tlvs.ext_is_reach@, all);
        assert forall|j: int| 0 <= j < cur.len() implies is_reach_from_inside(
            cfg,
            proxy,
            entries,
            #[trigger] cur[j],
        ) by {
            if j < prev.len() {
                assert(cur[j] == prev[j]);
                assert(is_reach_from_inside(cfg, proxy, init, prev[j]));
                let k = choose|k: int|
                    live_inside_source(cfg, proxy, init, k)
                        && #[trigger] init[k].data.tlvs.ext_is_reach@.contains(prev[j]);
                assert(init[k] == entries[k]);
                assert(live_inside_source(cfg, proxy, entries, k));
                assert(entries[k].data.tlvs.ext_is_reach@.contains(cur[j]));
            } else {
                let nb = outside_neighbors(lsp.tlvs.ext_is_reach@, all);
                assert(cur[j] == nb[j - prev.len()]);
                assert(entries[last] == entries.last());
                assert(live_inside_source(cfg, proxy, entries, last));
                assert(entries[last].data.tlvs.ext_is_reach@.contains(cur[j]));
            }
        }
    }
}

/// Every IPv4 candidate is advertised by an inside router's LSP.
proof fn lemma_ipv4_candidates_from(entries: Seq<LspEntry>, cfg: &InstanceCfg, proxy: SystemId)
    ensures
        forall|j: int|
            0 <= j < ipv4_candidates(entries, cfg, proxy).len() ==> ipv4_reach_from_inside(
                cfg,
                proxy,
                entries,
                #[trigger] ipv4_candidates(entries, cfg, proxy)[j],
            ),
    decreases entries.len(),
{
    if entries.len() > 0 {
        let init = entries.drop_last();
        let prev = ipv4_candidates(init, cfg, proxy);
        let cur = ipv4_candidates(entries, cfg, proxy);
        let lsp = entries.last().data;
        let last = entries.len() - 1;
        lemma_ipv4_candidates_from(init, cfg, proxy);
        assert forall|j: int| 0 <= j < cur.len() implies ipv4_reach_from_inside(
            cfg,
            proxy,
            entries,
            #[trigger] cur[j],
        ) by {
            if j < prev.len() {
                assert(cur[j] == prev[j]);
                assert(ipv4_reach_from_inside(cfg, proxy, init, prev[j]));
                let k = choose|k: int|
                    live_inside_source(cfg, proxy, init, k)
                        && #[trigger] init[k].data.tlvs.ext_ipv4_reach@.contains(prev[j]);
                assert(init[k] == entries[k]);
                assert(live_inside_source(cfg, proxy, entries, k));
                assert(entries[k].data.tlvs.ext_ipv4_reach@.contains(cur[j]));
            } else {
                assert(cur[j] == lsp.tlvs.ext_ipv4_reach@[j - prev.len()]);
                assert(entries[last] == entries.last());
                assert(live_inside_source(cfg, proxy, entries, last));
                assert(entries[last].data.tlvs.ext_ipv4_reach@.contains(cur[j]));
            }
        }
    }
}

/// Every IPv6 candidate is advertised by an inside router's LSP.
proof fn lemma_ipv6_candidates_from(entries: Seq<LspEntry>, cfg: &InstanceCfg, proxy: SystemId)
    ensures
        forall|j: int|
            0 <= j < ipv6_candidates(entries, cfg, proxy).len() ==> ipv6_reach_from_inside(
                cfg,
                proxy,
                entries,
                #[trigger] ipv6_candidates(entries, cfg, proxy)[j],
            ),
    decreases entries.len(),
{
    if entries.len() > 0 {
        let init = entries.drop_last();
        let prev = ipv6_candidates(init, cfg, proxy);
        let cur = ipv6_candidates(entries, cfg, proxy);
        let lsp = entries.last().data;
        let last = entries.len() - 1;
        lemma_ipv6_candidates_from(init, cfg, proxy);
        assert forall|j: int| 0 <= j < cur.len() implies ipv6_reach_from_inside(
            cfg,
            proxy,
            entries,
            #[trigger] cur[j],
        ) by {
            if j < prev.len() {
                assert(cur[j] == prev[j]);
                assert(ipv6_reach_from_inside(cfg, proxy, init, prev[j]));
                let k = choose|k: int|
                    live_inside_source(cfg, proxy, init, k)
                        && #[trigger] init[k].data.tlvs.ipv6_reach@.contains(prev[j]);
                assert(init[k] == entries[k]);
                assert(live_inside_source(cfg, proxy, entries, k));
                assert(entries[k].data.tlvs.ipv6_reach@.contains(cur[j]));
            } else {
                assert(cur[j] == lsp.tlvs.ipv6_reach@[j - prev.len()]);
                assert(entries[last] == entries.last());
                assert(live_inside_source(cfg, proxy, entries, last));
                assert(entries[last].data.tlvs.ipv6_reach@.contains(cur[j]));
            }
        }
    }
}

/// Everything the Proxy LSP advertises comes from the level-2 LSPs of inside
/// routers: each IS neighbor, IPv4 prefix and IPv6 prefix is advertised by a
/// live LSP that carries the Area Proxy TLV and is neither the instance's own
/// nor the Proxy LSP, and each supported protocol is supported by such an LSP
/// or belongs to an enabled address family. An LSP without the Area Proxy
/// TLV, such as an outside router's, contributes no entry.
pub proof fn law_proxy_lsp_comes_from_inside_routers(cfg: &InstanceCfg, entries: Seq<LspEntry>)
    requires
        proxy_lsp_tlvs(cfg, entries) is Some,
    ensures
        ({
            let v = proxy_lsp_tlvs(cfg, entries)->0;
            let proxy = cfg.area_proxy.proxy_system_id->0;
            &&& forall|r: int|
                0 <= r < v.ext_is_reach.len() ==> is_reach_from_inside(
                    cfg,
                    proxy,
                    entries,
                    #[trigger] v.ext_is_reach[r],
                )
            &&& forall|r: int|
                0 <= r < v.ext_ipv4_reach.len() ==> ipv4_reach_from_inside(
                    cfg,
                    proxy,
                    entries,
                    #[trigger] v.ext_ipv4_reach[r],
                )
            &&& forall|r: int|
                0 <= r < v.ipv6_reach.len() ==> ipv6_reach_from_inside(
                    cfg,
                    proxy,
                    entries,
                    #[trigger] v.ipv6_reach[r],
                )
            &&& forall|r: int|
                0 <= r < v.protocols_supported.len() ==> protocol_from_inside(
                    cfg,
                    proxy,
                    entries,
                    #[trigger] v.protocols_supported[r],
                ) || (v.protocols_supported[r] == NLPID_IPV4 && cfg.ipv4_enabled) || (
                v.protocols_supported[r] == NLPID_IPV6 && cfg.ipv6_enabled)
        }),
{
    let proxy = cfg.area_proxy.proxy_system_id->0;
    let v = proxy_lsp_tlvs(cfg, entries)->0;
    let c1 = is_candidates(entries, entries, cfg, proxy);
    let c4 = ipv4_candidates(entries, cfg, proxy);
    let c6 = ipv6_candidates(entries, cfg, proxy);
    let protocols = feeding_protocols(entries, cfg, proxy);
    lemma_is_candidates_from(entries, entries, cfg, proxy);
    lemma_ipv4_candidates_from(entries, cfg, proxy);
    lemma_ipv6_candidates_from(entries, cfg, proxy);
    lemma_feeding_protocols_from(entries, cfg, proxy);
    assert forall|r: int| 0 <= r < v.ext_is_reach.len() implies is_reach_from_inside(
        cfg,
        proxy,
        entries,
        #[trigger] v.ext_is_reach[r],
    ) by {
        let j = lemma_min_table_entry(c1, r);
        assert(v.ext_is_reach[r] == c1[j]);
    }
    assert forall|r: int| 0 <= r < v.ext_ipv4_reach.len() implies ipv4_reach_from_inside(
        cfg,
        proxy,
        entries,
        #[trigger] v.ext_ipv4_reach[r],
    ) by {
        let j = lemma_min_table_entry(c4, r);
        assert(v.ext_ipv4_reach[r] == c4[j]);
    }
    assert forall|r: int| 0 <= r < v.ipv6_reach.len() implies ipv6_reach_from_inside(
        cfg,
        proxy,
        entries,
        #[trigger] v.ipv6_reach[r],
    ) by {
        let j = lemma_min_table_entry(c6, r);
        assert(v.ipv6_reach[r] == c6[j]);
    }
    assert forall|r: int| 0 <= r < v.protocols_supported.len() implies protocol_from_inside(
        cfg,
        proxy,
        entries,
        #[trigger] v.protocols_supported[r],
    ) || (v.protocols_supported[r] == NLPID_IPV4 && cfg.ipv4_enabled) || (
    v.protocols_supported[r] == NLPID_IPV6 && cfg.ipv6_enabled) by {
        if protocols.len() == 0 {
            let e = enabled_af_nlpids(cfg);
            assert(v.protocols_supported == e);
            if cfg.ipv4_enabled && r == 0 {
                assert(e[0] == NLPID_IPV4);
            } else if cfg.ipv4_enabled {
                assert(e[1] == NLPID_IPV6);
            } else {
                assert(e[0] == NLPID_IPV6);
            }
        } else {
            assert(v.protocols_supported[r] == protocols[r]);
        }
    }
}


/// Dropping an LSP without the Area Proxy TLV does not change which System
/// IDs have an LSP carrying that TLV.
proof fn lemma_any_area_proxy_remove(all: Seq<LspEntry>, i: int, sid: SystemId)
    requires
        0 <= i < all.len(),
        all[i].data.tlvs.area_proxy is None,
    ensures
        any_for_system_id(all.remove(i), sid, |l: Lsp| lsp_has_area_proxy(l)) == any_for_system_id(
            all,
            sid,
            |l: Lsp| lsp_has_area_proxy(l),
        ),
{
    let r = all.remove(i);
    if any_for_system_id(all, sid, |l: Lsp| lsp_has_area_proxy(l)) {
        let k = choose|k: int|
            0 <= k < all.len() && #[trigger] all[k].data.lsp_id.system_id == sid
                && lsp_has_area_proxy(all[k].data);
        if k < i {
            assert(r[k] == all[k]);
        } else {
            assert(r[k - 1] == all[k]);
        }
    }
    if any_for_system_id(r, sid, |l: Lsp| lsp_has_area_proxy(l)) {
        let k = choose|k: int|
            0 <= k < r.len() && #[trigger] r[k].data.lsp_id.system_id == sid && lsp_has_area_proxy(
                r[k].data,
            );
        if k < i {
            assert(r[k] == all[k]);
        } else {
            assert(r[k] == all[k + 1]);
        }
    }
}

proof fn lemma_outside_neighbors_remove(nbrs: Seq<IsReach>, all: Seq<LspEntry>, i: int)
    requires
        0 <= i < all.len(),
        all[i].data.tlvs.area_proxy is None,
    ensures
        outside_neighbors(nbrs, all.remove(i)) == outside_neighbors(nbrs, all),
    decreases nbrs.len(),
{
    if nbrs.len() > 0 {
        lemma_outside_neighbors_remove(nbrs.drop_last(), all, i);
        lemma_any_area_proxy_remove(all, i, nbrs.last().neighbor.system_id);
    }
}

proof fn lemma_is_candidates_all_remove(
    entries: Seq<LspEntry>,
    all: Seq<LspEntry>,
    i: int,
    cfg: &InstanceCfg,
    proxy: SystemId,
)
    requires
        0 <= i < all.len(),
        all[i].data.tlvs.area_proxy is None,
    ensures
        is_candidates(entries, all.remove(i), cfg, proxy) == is_candidates(entries, all, cfg, proxy),
    decreases entries.len(),
{
    if entries.len() > 0 {
        lemma_is_candidates_all_remove(entries.drop_last(), all, i, cfg, proxy);
        lemma_outside_neighbors_remove(entries.last().data.tlvs.ext_is_reach@, all, i);
    }
}

/// The drop-last of a sequence with an entry removed before its end.
proof fn lemma_remove_drop_last(s: Seq<LspEntry>, i: int)
    requires
        0 <= i < s.len() - 1,
    ensures
        s.remove(i).drop_last() == s.drop_last().remove(i),
        s.remove(i).last() == s.last(),
{
    assert(s.remove(i).drop_last() =~= s.drop_last().remove(i));
}

proof fn lemma_candidates_remove(
    entries: Seq<LspEntry>,
    all: Seq<LspEntry>,
    i: int,
    cfg: &InstanceCfg,
    proxy: SystemId,
)
    requires
        0 <= i < entries.len(),
        !feeds_proxy_lsp(cfg, proxy, entries[i].data),
    ensures
        feeding_protocols(entries.remove(i), cfg, proxy) == feeding_protocols(entries, cfg, proxy),
        is_candidates(entries.remove(i), all, cfg, proxy) == is_candidates(entries, all, cfg, proxy),
        ipv4_candidates(entries.remove(i), cfg, proxy) == ipv4_candidates(entries, cfg, proxy),
        ipv6_candidates(entries.remove(i), cfg, proxy) == ipv6_candidates(entries, cfg, proxy),
    decreases entries.len(),
{
    if i == entries.len() - 1 {
        assert(entries.remove(i) =~= entries.drop_last());
        assert(entries[i] == entries.last());
    } else {
        lemma_remove_drop_last(entries, i);
        lemma_candidates_remove(entries.drop_last(), all, i, cfg, proxy);
        assert(entries.drop_last()[i] == entries[i]);
    }
}

/// An LSP without the Area Proxy TLV, such as an outside router's, has no
/// bearing on the Proxy LSP: removing it from the level-2 database leaves
/// the Proxy LSP TLVs as they were.
pub proof fn law_lsp_without_area_proxy_tlv_does_not_feed(
    cfg: &InstanceCfg,
    entries: Seq<LspEntry>,
    i: int,
)
    requires
        0 <= i < entries.len(),
        entries[i].data.tlvs.area_proxy is None,
    ensures
        proxy_lsp_tlvs(cfg, entries.remove(i)) == proxy_lsp_tlvs(cfg, entries),
{
    if spec_is_leader(cfg) && cfg.area_proxy.proxy_system_id is Some {
        let proxy = cfg.area_proxy.proxy_system_id->0;
        lemma_candidates_remove(entries, entries, i, cfg, proxy);
        lemma_is_candidates_all_remove(entries.remove(i), entries, i, cfg, proxy);
    }
}

} // verus!
