use holo_area_proxy::config::{AreaProxyRole, InstanceCfg};
use holo_area_proxy::lsdb::{Arena, Lsdb, LspEntry};
use holo_area_proxy::packet::{
    AreaAddr, AreaProxyStlvs, AreaProxyTlv, Ipv4Prefix, Ipv4Reach, Ipv6Prefix, Ipv6Reach,
    IsReach, LanId, LevelNumber, Lsp, LspId, LspTlvs, SystemId, LSP_FLAG_IS_TYPE2,
};
use holo_area_proxy::proxy_lsp::{
    build_proxy_lsp_tlvs, originate_proxy_lsp, purge_proxy_lsp, ProxyLspAction,
};

fn sid(b: u8) -> SystemId {
    SystemId(0, 0, 0, 0, 0, b)
}

fn reach(n: u8, metric: u32) -> IsReach {
    IsReach { neighbor: LanId { system_id: sid(n), pseudonode: 0 }, metric }
}

fn v4(a: [u8; 4], len: u8, metric: u32) -> Ipv4Reach {
    Ipv4Reach { prefix: Ipv4Prefix { addr: u32::from_be_bytes(a), len }, metric, up_down: false }
}

fn tlvs(protocols: Vec<u8>, is: Vec<IsReach>, ip4: Vec<Ipv4Reach>, ip6: Vec<Ipv6Reach>, inside: bool) -> LspTlvs {
    LspTlvs {
        protocols_supported: protocols,
        area_addrs: vec![],
        hostname: None,
        lsp_buf_size: None,
        ext_is_reach: is,
        ext_ipv4_reach: ip4,
        ipv6_reach: ip6,
        area_proxy: if inside {
            Some(AreaProxyTlv { sub_tlvs: AreaProxyStlvs { system_id: None } })
        } else {
            None
        },
    }
}

fn lsp(s: SystemId, rem_lifetime: u16, seqno: u32, t: LspTlvs) -> Lsp {
    Lsp {
        level: LevelNumber::L2,
        rem_lifetime,
        lsp_id: LspId { system_id: s, pseudonode: 0, fragment: 0 },
        seqno,
        flags: 2,
        tlvs: t,
    }
}

fn db(lsps: Vec<Lsp>) -> (Lsdb, Arena) {
    let mut items = Vec::new();
    let mut ids = Vec::new();
    for (i, data) in lsps.into_iter().enumerate() {
        items.push(LspEntry { id: i, data });
        ids.push(i);
    }
    (Lsdb { ids }, Arena { items })
}

fn leader_cfg() -> InstanceCfg {
    let mut cfg = InstanceCfg::default();
    cfg.system_id = Some(sid(1));
    cfg.area_proxy.enabled = true;
    cfg.area_proxy.role = AreaProxyRole::Leader;
    cfg.area_proxy.proxy_system_id = Some(sid(0xa0));
    cfg.area_addrs = vec![AreaAddr { bytes: vec![0x49, 0, 1] }];
    cfg
}

fn area_lsps() -> Vec<Lsp> {
    let v6 = Ipv6Reach {
        prefix: Ipv6Prefix { addr: 0x2001_0db8_u128 << 96, len: 32 },
        metric: 3,
        up_down: false,
        external: false,
    };
    vec![
        // Own LSP: ignored.
        lsp(sid(1), 1200, 5, tlvs(vec![0x81], vec![reach(0x20, 1)], vec![], vec![], true)),
        lsp(
            sid(2),
            1200,
            3,
            tlvs(
                vec![0xcc],
                vec![reach(3, 10), reach(0x10, 20), reach(0x11, 5)],
                vec![v4([10, 0, 0, 0], 24, 10)],
                vec![],
                true,
            ),
        ),
        lsp(
            sid(3),
            1200,
            3,
            tlvs(
                vec![0xcc, 0x8e],
                vec![reach(0x10, 15), reach(2, 1)],
                vec![v4([192, 168, 0, 0], 16, 1), v4([10, 0, 0, 0], 24, 5)],
                vec![v6],
                true,
            ),
        ),
        // Outside router: no Area Proxy TLV, not a source.
        lsp(sid(0x10), 1200, 3, tlvs(vec![0xcc], vec![reach(2, 20)], vec![], vec![], false)),
        // Expired inside router: not a source.
        lsp(sid(4), 0, 3, tlvs(vec![0xcc], vec![reach(0x12, 1)], vec![], vec![], true)),
    ]
}

#[test]
fn proxy_lsp_collects_outside_neighbors_and_best_prefixes() {
    let cfg = leader_cfg();
    let (lsdb, arena) = db(area_lsps());
    let t = build_proxy_lsp_tlvs(&cfg, &lsdb, &arena).unwrap();
    assert_eq!(t.protocols_supported, vec![0xcc, 0x8e]);
    assert_eq!(t.ext_is_reach, vec![reach(0x10, 15), reach(0x11, 5)]);
    assert_eq!(
        t.ext_ipv4_reach,
        vec![v4([10, 0, 0, 0], 24, 5), v4([192, 168, 0, 0], 16, 1)]
    );
    assert_eq!(t.ipv6_reach.len(), 1);
    assert_eq!(t.hostname.as_deref(), Some("proxy-0000.0000.00a0"));
    assert_eq!(t.lsp_buf_size, Some(1492));
    assert_eq!(t.area_addrs.len(), 1);
    assert_eq!(t.area_addrs[0].bytes, vec![0x49, 0, 1]);
    assert!(t.area_proxy.is_none());
}

#[test]
fn proxy_lsp_ties_keep_first_and_protocols_fall_back() {
    let mut cfg = leader_cfg();
    cfg.ipv6_enabled = false;
    let (lsdb, arena) = db(vec![
        lsp(sid(2), 1200, 1, tlvs(vec![], vec![reach(0x10, 7)], vec![v4([1, 0, 0, 0], 8, 4)], vec![], true)),
        lsp(sid(3), 1200, 1, tlvs(vec![], vec![reach(0x10, 7)], vec![Ipv4Reach { up_down: true, ..v4([1, 0, 0, 0], 8, 4) }], vec![], true)),
    ]);
    let t = build_proxy_lsp_tlvs(&cfg, &lsdb, &arena).unwrap();
    assert_eq!(t.protocols_supported, vec![0xcc]);
    assert_eq!(t.ext_is_reach, vec![reach(0x10, 7)]);
    assert_eq!(t.ext_ipv4_reach, vec![v4([1, 0, 0, 0], 8, 4)]);
}

#[test]
fn proxy_lsp_needs_leader_proxy_sid_and_an_outside_neighbor() {
    let (lsdb, arena) = db(area_lsps());
    let mut cfg = leader_cfg();
    cfg.area_proxy.role = AreaProxyRole::Edge;
    assert!(build_proxy_lsp_tlvs(&cfg, &lsdb, &arena).is_none());
    let mut cfg = leader_cfg();
    cfg.area_proxy.proxy_system_id = None;
    assert!(build_proxy_lsp_tlvs(&cfg, &lsdb, &arena).is_none());
    let cfg = leader_cfg();
    let (lsdb, arena) = db(vec![lsp(sid(2), 1200, 1, tlvs(vec![0xcc], vec![reach(3, 1)], vec![], vec![], true)),
        lsp(sid(3), 1200, 1, tlvs(vec![0xcc], vec![reach(2, 1)], vec![], vec![], true))]);
    assert!(build_proxy_lsp_tlvs(&cfg, &lsdb, &arena).is_none());
}

#[test]
fn originate_new_then_keep_then_refresh() {
    let cfg = leader_cfg();
    let (lsdb, arena) = db(area_lsps());
    let lsp0 = match originate_proxy_lsp(&cfg, &lsdb, &arena) {
        ProxyLspAction::Originate(l) => l,
        other => panic!("unexpected {other:?}"),
    };
    assert_eq!(lsp0.seqno, 1);
    assert_eq!(lsp0.lsp_id, LspId { system_id: sid(0xa0), pseudonode: 0, fragment: 0 });
    assert_eq!(lsp0.flags, LSP_FLAG_IS_TYPE2);
    assert_eq!(lsp0.rem_lifetime, cfg.lsp_lifetime);
    assert_eq!(lsp0.level, LevelNumber::L2);

    // Same TLVs already in the database and alive: keep.
    let mut with_proxy = area_lsps();
    with_proxy.push(lsp0);
    let (lsdb, arena) = db(with_proxy);
    assert!(matches!(originate_proxy_lsp(&cfg, &lsdb, &arena), ProxyLspAction::Keep));

    // Expired copy: refresh with the next sequence number.
    let mut lsps = area_lsps();
    let mut stale = match originate_proxy_lsp(&cfg, &db(area_lsps()).0, &db(area_lsps()).1) {
        ProxyLspAction::Originate(l) => l,
        _ => unreachable!(),
    };
    stale.rem_lifetime = 0;
    stale.seqno = 41;
    lsps.push(stale);
    let (lsdb, arena) = db(lsps);
    match originate_proxy_lsp(&cfg, &lsdb, &arena) {
        ProxyLspAction::Originate(l) => assert_eq!(l.seqno, 42),
        other => panic!("unexpected {other:?}"),
    }

    // Changed TLVs: refresh; sequence numbers wrap.
    let mut lsps = area_lsps();
    lsps.push(lsp(sid(0xa0), 1200, u32::MAX, tlvs(vec![], vec![], vec![], vec![], false)));
    let (lsdb, arena) = db(lsps);
    match originate_proxy_lsp(&cfg, &lsdb, &arena) {
        ProxyLspAction::Originate(l) => assert_eq!(l.seqno, 0),
        other => panic!("unexpected {other:?}"),
    }
}

#[test]
fn non_leader_purges_proxy_fragments() {
    let mut cfg = leader_cfg();
    cfg.area_proxy.role = AreaProxyRole::Edge;
    let mut lsps = area_lsps();
    lsps.push(lsp(sid(0xa0), 1200, 3, tlvs(vec![], vec![], vec![], vec![], false)));
    let mut frag1 = lsp(sid(0xa0), 1200, 3, tlvs(vec![], vec![], vec![], vec![], false));
    frag1.lsp_id.fragment = 1;
    lsps.push(frag1);
    let (lsdb, arena) = db(lsps);
    match originate_proxy_lsp(&cfg, &lsdb, &arena) {
        ProxyLspAction::Purge(ids) => assert_eq!(ids, vec![5, 6]),
        other => panic!("unexpected {other:?}"),
    }
    assert_eq!(purge_proxy_lsp(&cfg, &lsdb, &arena), vec![5, 6]);
    cfg.area_proxy.proxy_system_id = None;
    assert_eq!(purge_proxy_lsp(&cfg, &lsdb, &arena), Vec::<usize>::new());
}
