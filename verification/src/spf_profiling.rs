//! Profiling fixture: an R×C torus of inside routers whose first column also
//! peers with the Area Proxy System ID, as genuine level-2 LSPs.

use vstd::prelude::*;

use crate::config::{InstanceCfg, MetricType};
use crate::packet::{
    AreaAddr, AreaProxyStlvs, AreaProxyTlv, Ipv4Reach, Ipv6Reach, LevelNumber, Lsp, LspId,
    LspTlvs, SystemId, LSP_FLAG_IS_TYPE1, LSP_FLAG_IS_TYPE2, NLPID_IPV4,
};
use crate::spf_fixture::{reaches_of, reaches_to, FIXTURE_LSP_LIFETIME};
use crate::text::{format_system_id, system_id_text};

verus! {

/// Label of every exported measurement row.
pub const SPF_METHOD_REAL: &'static str = "real_compute_spt";

/// LSP buffer size advertised by torus LSPs.
pub const TORUS_LSP_BUF_SIZE: u16 = 1492;

/// Instance configuration for profiling: the defaults with wide metrics,
/// IPv4 enabled, IPv6 disabled and Area Proxy off.
pub fn profiling_instance_cfg() -> (cfg: InstanceCfg)
    ensures
        cfg.metric_type == MetricType::Wide,
        cfg.ipv4_enabled,
        !cfg.ipv6_enabled,
        !cfg.area_proxy.enabled,
        cfg.system_id is None,
        cfg.area_proxy.proxy_system_id is None,
        cfg.area_addrs@.len() == 0,
{
    let mut cfg = InstanceCfg::new();
    cfg.metric_type = MetricType::Wide;
    cfg.ipv4_enabled = true;
    cfg.ipv6_enabled = false;
    cfg.area_proxy.enabled = false;
    cfg
}

/// System ID of grid node (`r`, `c`) in a grid of `cols` columns: two zero
/// octets, the low three octets of its 1-based number `r * cols + c + 1`
/// taken as a 32-bit number (big-endian), then the low nibble of `r` above
/// the low nibble of `c`.
pub open spec fn spec_grid_sid(r: nat, c: nat, cols: nat) -> SystemId {
    let n = (r * cols + c + 1) % 0x1_0000_0000;
    SystemId(
        0,
        0,
        ((n / 0x10000) % 256) as u8,
        ((n / 0x100) % 256) as u8,
        (n % 256) as u8,
        ((r % 16) * 16 + c % 16) as u8,
    )
}

/// System ID of grid node (`r`, `c`).
pub fn grid_sid(r: usize, c: usize, cols: usize) -> (s: SystemId)
    requires
        r * cols + c + 1 <= usize::MAX,
    ensures
        s == spec_grid_sid(r as nat, c as nat, cols as nat),
{
    let x: usize = r * cols + c + 1;
    let x64: u64 = x as u64;
    let n: u32 = x64 as u32;
    assert(n == x64 % 0x1_0000_0000) by (bit_vector)
        requires
            n == x64 as u32,
    ;
    let b1: u8 = ((n >> 16) & 0xff) as u8;
    let b2: u8 = ((n >> 8) & 0xff) as u8;
    let b3: u8 = (n & 0xff) as u8;
    let rb: u8 = (r % 256) as u8;
    let cb: u8 = (c % 256) as u8;
    let last: u8 = (rb << 4u8) | (cb & 0x0f);
    proof {
        assert((n >> 16) & 0xff == (n / 0x10000) % 256) by (bit_vector);
        assert((n >> 8) & 0xff == (n / 0x100) % 256) by (bit_vector);
        assert(n & 0xff == n % 256) by (bit_vector);
        assert((rb << 4u8) | (cb & 0x0f) == (rb % 16) * 16 + cb % 16) by (bit_vector);
        assert(rb % 16 == r % 16);
        assert(cb % 16 == c % 16);
    }
    SystemId(0, 0, b1, b2, b3, last)
}

/// System ID from its six octets.
pub fn sid_bytes(b: [u8; 6]) -> (s: SystemId)
    ensures
        s.octets() == b@,
{
    SystemId::from_bytes(b)
}

/// A System ID as three dot-separated groups of four lower-case hexadecimal
/// digits.
pub fn format_sid(s: SystemId) -> (r: String)
    ensures
        r@ == system_id_text(s),
{
    format_system_id(s)
}

/// A torus LSP: level 2, fixture lifetime, fragment 0 of `me`, IS type 1 and
/// 2, supporting IPv4, buffer size 1492, reaching the neighbors, and
/// carrying an Area Proxy TLV without sub-TLVs when `inside`.
pub open spec fn is_torus_lsp(l: Lsp, me: SystemId, nbrs: Seq<SystemId>, inside: bool) -> bool {
    &&& l.level == LevelNumber::L2
    &&& l.rem_lifetime == FIXTURE_LSP_LIFETIME
    &&& l.lsp_id == (LspId { system_id: me, pseudonode: 0, fragment: 0 })
    &&& l.seqno == 1
    &&& l.flags == LSP_FLAG_IS_TYPE1 | LSP_FLAG_IS_TYPE2
    &&& l.tlvs.protocols_supported@ == seq![NLPID_IPV4]
    &&& l.tlvs.area_addrs@.len() == 0
    &&& l.tlvs.hostname is None
    &&& l.tlvs.lsp_buf_size == Some(TORUS_LSP_BUF_SIZE)
    &&& l.tlvs.ext_is_reach@ == reaches_to(nbrs)
    &&& l.tlvs.ext_ipv4_reach@.len() == 0
    &&& l.tlvs.ipv6_reach@.len() == 0
    &&& l.tlvs.area_proxy == (if inside {
        Some(AreaProxyTlv { sub_tlvs: AreaProxyStlvs { system_id: None } })
    } else {
        None
    })
}

/// Builds a torus LSP of `me` reaching `nbrs`.
pub fn make_node_lsp(me: SystemId, nbrs: &Vec<SystemId>, inside: bool) -> (l: Lsp)
    ensures
        is_torus_lsp(l, me, nbrs@, inside),
{
    let mut protocols: Vec<u8> = Vec::new();
    protocols.push(NLPID_IPV4);
    assert(protocols@ =~= seq![NLPID_IPV4]);
    let area_addrs: Vec<AreaAddr> = Vec::new();
    let ipv4: Vec<Ipv4Reach> = Vec::new();
    let ipv6: Vec<Ipv6Reach> = Vec::new();
    let area_proxy = if inside {
        Some(AreaProxyTlv { sub_tlvs: AreaProxyStlvs { system_id: None } })
    } else {
        None
    };
    Lsp {
        level: LevelNumber::L2,
        rem_lifetime: FIXTURE_LSP_LIFETIME,
        lsp_id: LspId { system_id: me, pseudonode: 0, fragment: 0 },
        seqno: 1,
        flags: LSP_FLAG_IS_TYPE1 | LSP_FLAG_IS_TYPE2,
        tlvs: LspTlvs {
            protocols_supported: protocols,
            area_addrs,
            hostname: None,
            lsp_buf_size: Some(TORUS_LSP_BUF_SIZE),
            ext_is_reach: reaches_of(nbrs),
            ext_ipv4_reach: ipv4,
            ipv6_reach: ipv6,
            area_proxy,
        },
    }
}

/// Torus neighbors of grid node (`r`, `c`): right, left, down and up with
/// wrap-around, and the proxy System ID for the first column.
pub open spec fn torus_neighbors(r: nat, c: nat, rows: nat, cols: nat, proxy: SystemId) -> Seq<
    SystemId,
> {
    let base = seq![
        spec_grid_sid(r, (c + 1) % cols, cols),
        spec_grid_sid(r, ((c + cols - 1) % (cols as int)) as nat, cols),
        spec_grid_sid((r + 1) % rows, c, cols),
        spec_grid_sid(((r + rows - 1) % (rows as int)) as nat, c, cols),
    ];
    if c == 0 {
        base.push(proxy)
    } else {
        base
    }
}

/// The first-column grid nodes, which the proxy System ID peers with.
pub open spec fn proxy_neighbors(rows: nat, cols: nat) -> Seq<SystemId> {
    Seq::new(rows, |r: int| spec_grid_sid(r as nat, 0, cols))
}

/// The LSPs of an `rows`×`cols` torus, row by row: each grid node is an
/// inside router reaching its four torus neighbors (and the proxy System ID
/// in the first column); a last LSP of the proxy System ID, not inside,
/// reaches the first-column nodes.
pub open spec fn is_torus_lsdb(lsps: Seq<Lsp>, rows: nat, cols: nat, proxy: SystemId) -> bool {
    &&& lsps.len() == rows * cols + 1
    &&& forall|r: int, c: int|
        0 <= r < rows && 0 <= c < cols ==> is_torus_lsp(
            #[trigger] lsps[r * cols + c],
            spec_grid_sid(r as nat, c as nat, cols),
            torus_neighbors(r as nat, c as nat, rows, cols, proxy),
            true,
        )
    &&& is_torus_lsp(lsps[(rows * cols) as int], proxy, proxy_neighbors(rows, cols), false)
}

/// Builds the LSPs of an `rows`×`cols` torus (see [`is_torus_lsdb`]).
pub fn build_torus_lsps(rows: usize, cols: usize, proxy: SystemId) -> (lsps: Vec<Lsp>)
    requires
        rows >= 2,
        cols >= 2,
        rows * cols < usize::MAX,
    ensures
        is_torus_lsdb(lsps@, rows as nat, cols as nat, proxy),
{
    let mut lsps: Vec<Lsp> = Vec::new();
    assert(0 * cols == 0);
    for r in 0..rows
        invariant
            rows >= 2,
            cols >= 2,
            rows * cols < usize::MAX,
            lsps@.len() == r * cols,
            forall|rr: int, cc: int|
                0 <= rr < r && 0 <= cc < cols ==> is_torus_lsp(
                    #[trigger] lsps@[rr * cols + cc],
                    spec_grid_sid(rr as nat, cc as nat, cols as nat),
                    torus_neighbors(rr as nat, cc as nat, rows as nat, cols as nat, proxy),
                    true,
                ),
    {
        for c in 0..cols
            invariant
                rows >= 2,
                cols >= 2,
                r < rows,
                rows * cols < usize::MAX,
                lsps@.len() == r * cols + c,
                forall|rr: int, cc: int|
                    0 <= rr < r && 0 <= cc < cols ==> is_torus_lsp(
                        #[trigger] lsps@[rr * cols + cc],
                        spec_grid_sid(rr as nat, cc as nat, cols as nat),
                        torus_neighbors(rr as nat, cc as nat, rows as nat, cols as nat, proxy),
                        true,
                    ),
                forall|cc: int|
                    0 <= cc < c ==> is_torus_lsp(
                        #[trigger] lsps@[r * cols + cc],
                        spec_grid_sid(r as nat, cc as nat, cols as nat),
                        torus_neighbors(r as nat, cc as nat, rows as nat, cols as nat, proxy),
                        true,
                    ),
        {
            proof {
                lemma_grid_bounds(r as nat, c as nat, rows as nat, cols as nat);
            }
            let me = grid_sid(r, c, cols);
            let mut nbrs: Vec<SystemId> = Vec::new();
            nbrs.push(grid_sid(r, (c + 1) % cols, cols));
            nbrs.push(grid_sid(r, (c + cols - 1) % cols, cols));
            nbrs.push(grid_sid((r + 1) % rows, c, cols));
            nbrs.push(grid_sid((r + rows - 1) % rows, c, cols));
            if c == 0 {
                nbrs.push(proxy);
            }
            assert(nbrs@ =~= torus_neighbors(r as nat, c as nat, rows as nat, cols as nat, proxy));
            let ghost before = lsps@;
            lsps.push(make_node_lsp(me, &nbrs, true));
            proof {
                assert(lsps@[r * cols + c] == lsps@.last());
                assert forall|rr: int, cc: int| 0 <= rr < r && 0 <= cc < cols implies #[trigger] lsps@[
                    rr * cols + cc] == before[rr * cols + cc] by {
                    lemma_row_index(rr, cc, r as int, cols as int);
                }
                assert forall|cc: int| 0 <= cc < c implies #[trigger] lsps@[r * cols + cc]
                    == before[r * cols + cc] by {}
            }
        }
        proof {
            assert forall|rr: int, cc: int| 0 <= rr < r + 1 && 0 <= cc < cols implies is_torus_lsp(
                #[trigger] lsps@[rr * cols + cc],
                spec_grid_sid(rr as nat, cc as nat, cols as nat),
                torus_neighbors(rr as nat, cc as nat, rows as nat, cols as nat, proxy),
                true,
            ) by {
                if rr == r {
                } else {
                }
            }
            assert((r + 1) * cols == r * cols + cols) by (nonlinear_arith);
        }
    }
    let mut pnbrs: Vec<SystemId> = Vec::new();
    for r in 0..rows
        invariant
            rows >= 2,
            cols >= 2,
            rows * cols < usize::MAX,
            pnbrs@ == proxy_neighbors(r as nat, cols as nat),
    {
        proof {
            lemma_grid_bounds(r as nat, 0, rows as nat, cols as nat);
            assert(r * cols + 0 + 1 <= usize::MAX);
        }
        pnbrs.push(grid_sid(r, 0, cols));
        assert(pnbrs@ =~= proxy_neighbors((r + 1) as nat, cols as nat));
    }
    let ghost before = lsps@;
    lsps.push(make_node_lsp(proxy, &pnbrs, false));
    proof {
        assert forall|rr: int, cc: int| 0 <= rr < rows && 0 <= cc < cols implies #[trigger] lsps@[rr
            * cols + cc] == before[rr * cols + cc] by {
            lemma_row_index(rr, cc, rows as int, cols as int);
        }
    }
    lsps
}

/// Proxy System ID of the profiling torus: `0000.0000.00a1`.
pub open spec fn torus_proxy_sid() -> SystemId {
    SystemId(0, 0, 0, 0, 0, 0xa1)
}

/// An `rows`×`cols` torus of inside routers whose first column also peers
/// with the Area Proxy System ID, with the instance configuration that SPF
/// runs under.
pub struct SpfProfilingHarness {
    config: InstanceCfg,
    lsps: Vec<Lsp>,
    rows: usize,
    cols: usize,
    root: SystemId,
    proxy: SystemId,
}

impl SpfProfilingHarness {
    #[verifier::type_invariant]
    spec fn well_formed(self) -> bool {
        &&& self.rows >= 2
        &&& self.cols >= 2
        &&& self.rows * self.cols < usize::MAX
    }

    /// Rows of the torus.
    pub closed spec fn rows_of(self) -> nat {
        self.rows as nat
    }

    /// Columns of the torus.
    pub closed spec fn cols_of(self) -> nat {
        self.cols as nat
    }

    /// Node SPF runs from.
    pub closed spec fn root_of(self) -> SystemId {
        self.root
    }

    /// Area Proxy System ID of the torus.
    pub closed spec fn proxy_of(self) -> SystemId {
        self.proxy
    }

    /// Level-2 LSPs of the torus, in the order they are installed.
    pub closed spec fn lsps_of(self) -> Seq<Lsp> {
        self.lsps@
    }

    /// Instance configuration SPF runs under.
    pub closed spec fn config_of(self) -> InstanceCfg {
        self.config
    }

    /// Builds an `rows`×`cols` torus of bidirectional wide-metric IS
    /// reachability LSPs: grid nodes are inside routers, the proxy System ID
    /// `0000.0000.00a1` peers with the first column, SPF runs from node
    /// (0, 0) under the profiling configuration with that proxy System ID.
    pub fn torus(rows: usize, cols: usize) -> (h: SpfProfilingHarness)
        requires
            rows >= 2,
            cols >= 2,
            rows * cols < usize::MAX,
        ensures
            h.rows_of() == rows,
            h.cols_of() == cols,
            h.proxy_of() == torus_proxy_sid(),
            h.root_of() == spec_grid_sid(0, 0, cols as nat),
            is_torus_lsdb(h.lsps_of(), rows as nat, cols as nat, torus_proxy_sid()),
            h.config_of().metric_type == MetricType::Wide,
            h.config_of().ipv4_enabled,
            !h.config_of().ipv6_enabled,
            !h.config_of().area_proxy.enabled,
            h.config_of().area_proxy.proxy_system_id == Some(torus_proxy_sid()),
            h.config_of().system_id is None,
            h.config_of().area_addrs@.len() == 0,
    {
        let mut config = profiling_instance_cfg();
        let proxy = sid_bytes([0x00, 0x00, 0x00, 0x00, 0x00, 0xa1]);
        assert(proxy == torus_proxy_sid());
        config.area_proxy.proxy_system_id = Some(proxy);
        let lsps = build_torus_lsps(rows, cols, proxy);
        assert(0 * cols + 0 + 1 <= usize::MAX);
        let root = grid_sid(0, 0, cols);
        SpfProfilingHarness { config, lsps, rows, cols, root, proxy }
    }

    /// Number of grid nodes.
    pub fn n_nodes(&self) -> (n: usize)
        ensures
            n == self.rows_of() * self.cols_of(),
    {
        proof {
            use_type_invariant(self);
        }
        self.rows * self.cols
    }

    /// Node SPF runs from.
    pub fn root(&self) -> (s: SystemId)
        ensures
            s == self.root_of(),
    {
        self.root
    }

    /// Area Proxy System ID of the torus.
    pub fn proxy(&self) -> (s: SystemId)
        ensures
            s == self.proxy_of(),
    {
        self.proxy
    }
}

/// Grid numbers of nodes inside the torus fit the System ID encoding.
proof fn lemma_grid_bounds(r: nat, c: nat, rows: nat, cols: nat)
    requires
        r < rows,
        c < cols,
        rows >= 2,
        cols >= 2,
        rows * cols < usize::MAX,
    ensures
        c + cols < usize::MAX,
        r + rows < usize::MAX,
        r * cols + c + 1 <= usize::MAX,
        r * cols + (c + 1) % cols + 1 <= usize::MAX,
        r * cols + (c + cols - 1) % (cols as int) + 1 <= usize::MAX,
        ((r + 1) % rows) * cols + c + 1 <= usize::MAX,
        ((r + rows - 1) % (rows as int)) * cols + c + 1 <= usize::MAX,
{
    assert(2 * cols <= rows * cols && 2 * rows <= rows * cols) by (nonlinear_arith)
        requires
            rows >= 2,
            cols >= 2,
    ;
    assert(r * cols + c < rows * cols) by (nonlinear_arith)
        requires
            r < rows,
            c < cols,
    ;
    assert(r * cols + (c + 1) % cols < rows * cols) by (nonlinear_arith)
        requires
            r < rows,
            cols > 0,
            (c + 1) % cols < cols,
    ;
    assert(r * cols + (c + cols - 1) % (cols as int) < rows * cols) by (nonlinear_arith)
        requires
            r < rows,
            (c + cols - 1) % (cols as int) < cols,
    ;
    assert(((r + 1) % rows) * cols + c < rows * cols) by (nonlinear_arith)
        requires
            rows > 0,
            (r + 1) % rows < rows,
            c < cols,
    ;
    assert(((r + rows - 1) % (rows as int)) * cols + c < rows * cols) by (nonlinear_arith)
        requires
            (r + rows - 1) % (rows as int) < rows,
            c < cols,
    ;
}

/// Positions of earlier rows come before row `r`.
proof fn lemma_row_index(rr: int, cc: int, r: int, cols: int)
    requires
        0 <= rr < r,
        0 <= cc < cols,
    ensures
        0 <= rr * cols + cc < r * cols,
{
    assert(0 <= rr * cols + cc < r * cols) by (nonlinear_arith)
        requires
            0 <= rr < r,
            0 <= cc < cols,
    ;
}

} // verus!
