use holo_area_proxy::area_proxy::{
    build_local_area_proxy_tlv, hello_source, hello_source_for, is_leader,
    is_local_hello_identity, is_local_hello_identity_for, may_flood_lsp,
    should_originate_tlv20, snp_source_system_id, system_id_in_l1_lsdb,
};
use holo_area_proxy::config::{AreaProxyRole, InstanceCfg, Interface, InterfaceCfg};
use holo_area_proxy::lsdb::{Arena, Lsdb, LspEntry};
use holo_area_proxy::packet::{
    AreaProxyStlvs, AreaProxySystemIdStlv, AreaProxyTlv, LevelNumber, Lsp, LspId, LspTlvs,
    SystemId,
};

fn sid(bytes: [u8; 6]) -> SystemId {
    SystemId::from_bytes(bytes)
}

fn edge_cfg(real: SystemId, proxy: SystemId) -> InstanceCfg {
    let mut cfg = InstanceCfg::default();
    cfg.system_id = Some(real);
    cfg.area_proxy.enabled = true;
    cfg.area_proxy.role = AreaProxyRole::Edge;
    cfg.area_proxy.proxy_system_id = Some(proxy);
    cfg
}

fn empty_tlvs() -> LspTlvs {
    LspTlvs {
        protocols_supported: vec![],
        area_addrs: vec![],
        hostname: None,
        lsp_buf_size: None,
        ext_is_reach: vec![],
        ext_ipv4_reach: vec![],
        ipv6_reach: vec![],
        area_proxy: None,
    }
}

fn lsp(system_id: SystemId, rem_lifetime: u16, seqno: u32, area_proxy: bool) -> Lsp {
    let mut tlvs = empty_tlvs();
    if area_proxy {
        tlvs.area_proxy = Some(AreaProxyTlv { sub_tlvs: AreaProxyStlvs { system_id: None } });
    }
    Lsp {
        level: LevelNumber::L2,
        rem_lifetime,
        lsp_id: LspId { system_id, pseudonode: 0, fragment: 0 },
        seqno,
        flags: 2,
        tlvs,
    }
}

fn db(lsps: Vec<Lsp>) -> (Lsdb, Arena) {
    let mut items = Vec::new();
    let mut ids = Vec::new();
    for (i, data) in lsps.into_iter().enumerate() {
        items.push(LspEntry { id: i, data });
        ids.push(i);
    }
    (Lsdb { ids }, Arena { items })
}

#[test]
fn hello_source_uses_proxy_sid_on_outside_edge() {
    let real = sid([0, 0, 0, 0, 0, 2]);
    let proxy = sid([0, 0, 0, 0, 0, 0xa0]);
    let cfg = edge_cfg(real, proxy);

    assert_eq!(hello_source_for(&cfg, true), Some(proxy));
    assert_eq!(hello_source_for(&cfg, false), Some(real));
}

#[test]
fn local_hello_identity_accepts_proxy_sid_on_outside() {
    let real = sid([0, 0, 0, 0, 0, 2]);
    let proxy = sid([0, 0, 0, 0, 0, 0xa0]);
    let other = sid([0, 0, 0, 0, 0, 0x11]);
    let cfg = edge_cfg(real, proxy);

    // Outside-facing: real SID and Proxy SID are both local.
    assert!(is_local_hello_identity_for(&cfg, true, real));
    assert!(is_local_hello_identity_for(&cfg, true, proxy));
    assert!(!is_local_hello_identity_for(&cfg, true, other));

    // Inside-facing: only the real SID is local (IIH still uses real SID).
    assert!(is_local_hello_identity_for(&cfg, false, real));
    assert!(!is_local_hello_identity_for(&cfg, false, proxy));
    assert!(!is_local_hello_identity_for(&cfg, false, other));
}

#[test]
fn hello_source_without_proxy_sid_falls_back_to_real() {
    let real = sid([0, 0, 0, 0, 0, 2]);
    let mut cfg = edge_cfg(real, real);
    cfg.area_proxy.proxy_system_id = None;
    assert_eq!(hello_source_for(&cfg, true), Some(real));
}

#[test]
fn hello_source_inside_role_keeps_real_sid() {
    let real = sid([0, 0, 0, 0, 0, 2]);
    let proxy = sid([0, 0, 0, 0, 0, 0xa0]);
    let mut cfg = edge_cfg(real, proxy);
    cfg.area_proxy.role = AreaProxyRole::Inside;
    assert_eq!(hello_source_for(&cfg, true), Some(real));
    cfg.area_proxy.role = AreaProxyRole::Static;
    assert_eq!(hello_source_for(&cfg, true), Some(proxy));
    cfg.area_proxy.enabled = false;
    assert_eq!(hello_source_for(&cfg, true), Some(real));
}

#[test]
fn hello_source_without_system_id_is_none() {
    let cfg = InstanceCfg::default();
    assert_eq!(hello_source_for(&cfg, true), None);
    assert!(!is_local_hello_identity_for(&cfg, true, sid([0, 0, 0, 0, 0, 1])));
}

#[test]
fn interface_variants_follow_outside_flag() {
    let real = sid([0, 0, 0, 0, 0, 2]);
    let proxy = sid([0, 0, 0, 0, 0, 0xa0]);
    let cfg = edge_cfg(real, proxy);
    let outside = Interface { config: InterfaceCfg { area_proxy_outside: true } };
    let inside = Interface { config: InterfaceCfg { area_proxy_outside: false } };
    assert_eq!(hello_source(&cfg, &outside), Some(proxy));
    assert_eq!(hello_source(&cfg, &inside), Some(real));
    assert_eq!(snp_source_system_id(&cfg, &outside), Some(proxy));
    assert!(is_local_hello_identity(&cfg, &outside, proxy));
    assert!(!is_local_hello_identity(&cfg, &inside, proxy));
}

#[test]
fn leader_needs_enabled_leader_or_static_role() {
    let real = sid([0, 0, 0, 0, 0, 2]);
    let mut cfg = edge_cfg(real, real);
    assert!(!is_leader(&cfg));
    cfg.area_proxy.role = AreaProxyRole::Leader;
    assert!(is_leader(&cfg));
    cfg.area_proxy.role = AreaProxyRole::Static;
    assert!(is_leader(&cfg));
    cfg.area_proxy.enabled = false;
    assert!(!is_leader(&cfg));
    assert!(!should_originate_tlv20(&cfg));
}

#[test]
fn local_area_proxy_tlv_carries_proxy_sid() {
    let real = sid([0, 0, 0, 0, 0, 2]);
    let proxy = sid([0, 0, 0, 0, 0, 0xa0]);
    let mut cfg = edge_cfg(real, proxy);
    let tlv = build_local_area_proxy_tlv(&cfg).unwrap();
    assert_eq!(tlv.sub_tlvs.system_id, Some(AreaProxySystemIdStlv(proxy)));
    cfg.area_proxy.proxy_system_id = None;
    let tlv = build_local_area_proxy_tlv(&cfg).unwrap();
    assert_eq!(tlv.sub_tlvs.system_id, None);
    cfg.area_proxy.enabled = false;
    assert!(build_local_area_proxy_tlv(&cfg).is_none());
}

#[test]
fn flooding_filter_on_outside_edge() {
    let real = sid([0, 0, 0, 0, 0, 2]);
    let proxy = sid([0, 0, 0, 0, 0, 0xa0]);
    let inside_node = sid([0, 0, 0, 0, 0, 3]);
    let l1_node = sid([0, 0, 0, 0, 0, 4]);
    let far = sid([0, 0, 0, 0, 0, 5]);
    let cfg = edge_cfg(real, proxy);
    let (l1, arena) = db(vec![lsp(l1_node, 1200, 7, false), lsp(far, 0, 7, false)]);

    // The Proxy LSP always goes out, even carrying the TLV.
    let proxy_lsp = lsp(proxy, 1200, 1, true);
    assert!(may_flood_lsp(&cfg, true, LevelNumber::L2, &proxy_lsp, &l1, &arena));
    // R2: an LSP with the Area Proxy TLV stays inside.
    let inside_lsp = lsp(inside_node, 1200, 1, true);
    assert!(!may_flood_lsp(&cfg, true, LevelNumber::L2, &inside_lsp, &l1, &arena));
    // ... but not on inside-facing links, nor at level 1.
    assert!(may_flood_lsp(&cfg, false, LevelNumber::L2, &inside_lsp, &l1, &arena));
    assert!(may_flood_lsp(&cfg, true, LevelNumber::L1, &inside_lsp, &l1, &arena));
    // R1: a source live in the L1 LSDB stays inside.
    let l2_of_l1 = lsp(l1_node, 1200, 1, false);
    assert!(!may_flood_lsp(&cfg, true, LevelNumber::L2, &l2_of_l1, &l1, &arena));
    assert!(system_id_in_l1_lsdb(&l1, &arena, l1_node));
    // A purged (zero lifetime) L1 LSP does not count.
    let l2_far = lsp(far, 1200, 1, false);
    assert!(!system_id_in_l1_lsdb(&l1, &arena, far));
    assert!(may_flood_lsp(&cfg, true, LevelNumber::L2, &l2_far, &l1, &arena));
}
