//! Measurement fixture: a bidirectional ring of level-2 LSPs, optionally
//! with an Area Proxy LSP attached to the first node, to time SPF flat
//! against Area Proxy on the same database.

use vstd::prelude::*;

use crate::config::{AreaProxyRole, InstanceAreaProxyCfg, InstanceCfg, MetricType};
use crate::packet::{
    AreaAddr, Ipv4Reach, Ipv6Reach, IsReach, LanId, LevelNumber, Lsp, LspId, LspTlvs, SystemId,
    LSP_FLAG_IS_TYPE1, LSP_FLAG_IS_TYPE2, NLPID_IPV4, NLPID_IPV6,
};
use crate::text::{decimal, push_decimal, push_str};

verus! {

/// Lifetime given to fixture LSPs, in seconds.
pub const FIXTURE_LSP_LIFETIME: u16 = 1200;

/// Metric of every fixture adjacency.
pub const FIXTURE_METRIC: u32 = 10;

/// System ID of ring node `byte`: five zero octets then `byte`.
pub open spec fn spec_sid(byte: u8) -> SystemId {
    SystemId(0, 0, 0, 0, 0, byte)
}

/// System ID of ring node `byte`.
pub fn sid(byte: u8) -> (s: SystemId)
    ensures
        s == spec_sid(byte),
{
    SystemId(0, 0, 0, 0, 0, byte)
}

/// Proxy System ID of the fixture: `0000.0000.00a1`.
pub fn proxy_sid() -> (s: SystemId)
    ensures
        s == spec_sid(0xa1),
{
    SystemId(0, 0, 0, 0, 0, 0xa1)
}

/// IS reachability toward `neighbor` (pseudonode 0) with `metric`.
pub open spec fn spec_is_reach(neighbor: SystemId, metric: u32) -> IsReach {
    IsReach { neighbor: LanId { system_id: neighbor, pseudonode: 0 }, metric }
}

/// IS reachability toward `neighbor` with `metric`.
pub fn make_is_reach(neighbor: SystemId, metric: u32) -> (r: IsReach)
    ensures
        r == spec_is_reach(neighbor, metric),
{
    IsReach { neighbor: LanId { system_id: neighbor, pseudonode: 0 }, metric }
}

/// IS reachability entries toward each neighbor, in order, with the fixture
/// metric.
pub open spec fn reaches_to(neighbors: Seq<SystemId>) -> Seq<IsReach> {
    neighbors.map_values(|n: SystemId| spec_is_reach(n, FIXTURE_METRIC))
}

/// IS reachability entries toward each neighbor with the fixture metric.
pub fn reaches_of(neighbors: &Vec<SystemId>) -> (r: Vec<IsReach>)
    ensures
        r@ == reaches_to(neighbors@),
{
    let mut r: Vec<IsReach> = Vec::new();
    for i in 0..neighbors.len()
        invariant
            r@ == reaches_to(neighbors@.take(i as int)),
    {
        r.push(make_is_reach(neighbors[i], FIXTURE_METRIC));
        assert(r@ =~= reaches_to(neighbors@.take(i + 1)));
    }
    assert(neighbors@.take(neighbors@.len() as int) =~= neighbors@);
    r
}

/// A fixture ring node LSP: level 2, fixture lifetime, fragment 0 of
/// `sys`, IS type 1 and 2, supporting IPv4 and IPv6, reaching the neighbors.
pub open spec fn is_ring_node_lsp(l: Lsp, sys: SystemId, neighbors: Seq<SystemId>, seqno: u32) -> bool {
    &&& l.level == LevelNumber::L2
    &&& l.rem_lifetime == FIXTURE_LSP_LIFETIME
    &&& l.lsp_id == (LspId { system_id: sys, pseudonode: 0, fragment: 0 })
    &&& l.seqno == seqno
    &&& l.flags == LSP_FLAG_IS_TYPE1 | LSP_FLAG_IS_TYPE2
    &&& l.tlvs.protocols_supported@ == seq![NLPID_IPV4, NLPID_IPV6]
    &&& l.tlvs.area_addrs@.len() == 0
    &&& l.tlvs.hostname is None
    &&& l.tlvs.lsp_buf_size is None
    &&& l.tlvs.ext_is_reach@ == reaches_to(neighbors)
    &&& l.tlvs.ext_ipv4_reach@.len() == 0
    &&& l.tlvs.ipv6_reach@.len() == 0
    &&& l.tlvs.area_proxy is None
}

/// Builds a ring node LSP of `sys` reaching `neighbors`.
pub fn make_node_lsp(sys: SystemId, neighbors: &Vec<SystemId>, seqno: u32) -> (l: Lsp)
    ensures
        is_ring_node_lsp(l, sys, neighbors@, seqno),
{
    let mut protocols: Vec<u8> = Vec::new();
    protocols.push(NLPID_IPV4);
    protocols.push(NLPID_IPV6);
    assert(protocols@ =~= seq![NLPID_IPV4, NLPID_IPV6]);
    let area_addrs: Vec<AreaAddr> = Vec::new();
    let ipv4: Vec<Ipv4Reach> = Vec::new();
    let ipv6: Vec<Ipv6Reach> = Vec::new();
    Lsp {
        level: LevelNumber::L2,
        rem_lifetime: FIXTURE_LSP_LIFETIME,
        lsp_id: LspId { system_id: sys, pseudonode: 0, fragment: 0 },
        seqno,
        flags: LSP_FLAG_IS_TYPE1 | LSP_FLAG_IS_TYPE2,
        tlvs: LspTlvs {
            protocols_supported: protocols,
            area_addrs,
            hostname: None,
            lsp_buf_size: None,
            ext_is_reach: reaches_of(neighbors),
            ext_ipv4_reach: ipv4,
            ipv6_reach: ipv6,
            area_proxy: None,
        },
    }
}

/// System ID of the `i`-th ring node (counting from 0): node numbers start
/// at 1.
pub open spec fn ring_node(i: int) -> SystemId {
    spec_sid((i + 1) as u8)
}

/// Neighbors of the `i`-th node of a ring of `n`: the previous node, the next
/// node, and for the first node the proxy System ID when a Proxy LSP is
/// attached.
pub open spec fn ring_neighbors(n: int, i: int, with_proxy_lsp: bool) -> Seq<SystemId> {
    let base = seq![ring_node((i + n - 1) % n), ring_node((i + 1) % n)];
    if with_proxy_lsp && i == 0 {
        base.push(spec_sid(0xa1))
    } else {
        base
    }
}

/// The LSPs of a ring of `n` nodes in the order they are installed: node
/// `i` (System ID `i + 1`) reaches its two ring neighbors; with a Proxy LSP,
/// node 0 also reaches the proxy System ID and a last LSP of the proxy
/// System ID reaches node 0. All sequence numbers are 1.
pub open spec fn is_ring_lsdb(lsps: Seq<Lsp>, n: int, with_proxy_lsp: bool) -> bool {
    &&& lsps.len() == n + (if with_proxy_lsp {
        1int
    } else {
        0int
    })
    &&& forall|i: int|
        0 <= i < n ==> is_ring_node_lsp(
            #[trigger] lsps[i],
            ring_node(i),
            ring_neighbors(n, i, with_proxy_lsp),
            1,
        )
    &&& with_proxy_lsp ==> is_ring_node_lsp(lsps[n], spec_sid(0xa1), seq![ring_node(0)], 1)
}

fn ring_lsps(n: usize, with_proxy_lsp: bool) -> (lsps: Vec<Lsp>)
    requires
        3 <= n <= 250,
    ensures
        is_ring_lsdb(lsps@, n as int, with_proxy_lsp),
{
    let mut lsps: Vec<Lsp> = Vec::new();
    for i in 0..n
        invariant
            3 <= n <= 250,
            lsps@.len() == i,
            forall|j: int|
                0 <= j < i ==> is_ring_node_lsp(
                    #[trigger] lsps@[j],
                    ring_node(j),
                    ring_neighbors(n as int, j, with_proxy_lsp),
                    1,
                ),
    {
        let me = sid((i + 1) as u8);
        let left = sid((((i + n - 1) % n) + 1) as u8);
        let right = sid((((i + 1) % n) + 1) as u8);
        let mut neigh: Vec<SystemId> = Vec::new();
        neigh.push(left);
        neigh.push(right);
        if with_proxy_lsp && i == 0 {
            neigh.push(proxy_sid());
        }
        assert(neigh@ =~= ring_neighbors(n as int, i as int, with_proxy_lsp));
        let lsp = make_node_lsp(me, &neigh, 1);
        lsps.push(lsp);
    }
    if with_proxy_lsp {
        let mut neigh: Vec<SystemId> = Vec::new();
        neigh.push(sid(1));
        assert(neigh@ =~= seq![ring_node(0)]);
        let lsp = make_node_lsp(proxy_sid(), &neigh, 1);
        lsps.push(lsp);
    }
    lsps
}

/// The configuration a measurement world starts with: the instance defaults
/// with the Area Proxy defaults.
pub open spec fn is_default_instance_cfg(cfg: InstanceCfg) -> bool {
    &&& cfg.system_id is None
    &&& cfg.area_addrs@.len() == 0
    &&& cfg.lsp_mtu == 1492
    &&& cfg.lsp_lifetime == 1200
    &&& cfg.metric_type == MetricType::Wide
    &&& cfg.ipv4_enabled
    &&& cfg.ipv6_enabled
    &&& !cfg.area_proxy.enabled
    &&& cfg.area_proxy.role == AreaProxyRole::Inside
    &&& cfg.area_proxy.proxy_system_id is None
}

/// Name of the ring world of `n` nodes: `prof-ring-` and `n` in decimal.
pub open spec fn ring_world_name(n: nat) -> Seq<char> {
    seq!['p', 'r', 'o', 'f', '-', 'r', 'i', 'n', 'g', '-'] + decimal(n)
}

/// Everything SPF measurements on one ring need: the level-2 LSPs in the
/// order they are installed, the instance configuration SPF runs under, and
/// the root.
pub struct SpfBenchWorld {
    pub name: String,
    pub config: InstanceCfg,
    pub lsps: Vec<Lsp>,
    pub root: SystemId,
    pub n_nodes: usize,
    pub n_lsps: usize,
}

impl SpfBenchWorld {
    /// Switches Area Proxy on or off and sets the proxy System ID; switching
    /// it on also makes the router an Inside router.
    pub fn set_area_proxy(&mut self, enabled: bool, proxy: Option<SystemId>)
        ensures
            final(self).config.area_proxy.enabled == enabled,
            final(self).config.area_proxy.proxy_system_id == proxy,
            final(self).config.area_proxy.role == (if enabled {
                AreaProxyRole::Inside
            } else {
                old(self).config.area_proxy.role
            }),
            final(self).config.system_id == old(self).config.system_id,
            final(self).config.area_addrs@ == old(self).config.area_addrs@,
            final(self).config.lsp_mtu == old(self).config.lsp_mtu,
            final(self).config.lsp_lifetime == old(self).config.lsp_lifetime,
            final(self).config.metric_type == old(self).config.metric_type,
            final(self).config.ipv4_enabled == old(self).config.ipv4_enabled,
            final(self).config.ipv6_enabled == old(self).config.ipv6_enabled,
            final(self).name@ == old(self).name@,
            final(self).lsps@ == old(self).lsps@,
            final(self).root == old(self).root,
            final(self).n_nodes == old(self).n_nodes,
            final(self).n_lsps == old(self).n_lsps,
    {
        self.config.area_proxy.enabled = enabled;
        self.config.area_proxy.proxy_system_id = proxy;
        if enabled {
            self.config.area_proxy.role = AreaProxyRole::Inside;
        }
    }
}

/// Builds a bidirectional ring of `n` nodes, plus an Area Proxy LSP attached
/// to node 0 when `with_proxy_lsp`. The same LSPs serve flat and proxy
/// measurements; only the Area Proxy configuration differs between them.
pub fn build_ring_world(n: usize, with_proxy_lsp: bool) -> (w: SpfBenchWorld)
    requires
        3 <= n <= 250,
    ensures
        w.name@ == ring_world_name(n as nat),
        is_default_instance_cfg(w.config),
        is_ring_lsdb(w.lsps@, n as int, with_proxy_lsp),
        w.root == ring_node(0),
        w.n_nodes == n,
        w.n_lsps == w.lsps@.len(),
{
    let mut name = String::new();
    push_str(&mut name, "prof-ring-");
    push_decimal(&mut name, n as u64);
    proof {
        reveal_strlit("prof-ring-");
        assert(name@ =~= ring_world_name(n as nat));
    }
    let mut config = InstanceCfg::new();
    config.area_proxy = InstanceAreaProxyCfg::new();
    let lsps = ring_lsps(n, with_proxy_lsp);
    let n_lsps = lsps.len();
    SpfBenchWorld { name, config, lsps, root: sid(1), n_nodes: n, n_lsps }
}

/// Timing of flat against Area Proxy SPF on one ring.
#[derive(Clone, Debug)]
pub struct MeasureRow {
    pub n: usize,
    pub n_lsps: usize,
    pub iters: u32,
    pub flat_total_ns: u128,
    pub proxy_total_ns: u128,
    pub flat_verts: usize,
    pub proxy_verts: usize,
    pub spf_method: String,
}

} // verus!
