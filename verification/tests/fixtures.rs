use holo_area_proxy::config::{AreaProxyRole, MetricType};
use holo_area_proxy::packet::{SystemId, LSP_FLAG_IS_TYPE1, LSP_FLAG_IS_TYPE2};
use holo_area_proxy::spf_fixture::{build_ring_world, make_is_reach, make_node_lsp, proxy_sid, sid};
use holo_area_proxy::spf_profiling::{
    build_torus_lsps, format_sid, grid_sid, profiling_instance_cfg, sid_bytes, SpfProfilingHarness,
    SPF_METHOD_REAL,
};

#[test]
fn ring_with_proxy_lsp() {
    let world = build_ring_world(4, true);
    assert_eq!(world.name, "prof-ring-4");
    assert_eq!(world.n_nodes, 4);
    assert_eq!(world.n_lsps, 5);
    assert_eq!(world.root, sid(1));
    assert!(!world.config.area_proxy.enabled);
    let lsps = &world.lsps;
    assert_eq!(lsps.len(), 5);
    let n0: Vec<SystemId> = lsps[0].tlvs.ext_is_reach.iter().map(|r| r.neighbor.system_id).collect();
    assert_eq!(n0, vec![sid(4), sid(2), proxy_sid()]);
    let n3: Vec<SystemId> = lsps[3].tlvs.ext_is_reach.iter().map(|r| r.neighbor.system_id).collect();
    assert_eq!(n3, vec![sid(3), sid(1)]);
    assert_eq!(lsps[4].lsp_id.system_id, proxy_sid());
    assert_eq!(lsps[4].tlvs.ext_is_reach, vec![make_is_reach(sid(1), 10)]);
    assert!(lsps.iter().all(|l| l.seqno == 1 && l.rem_lifetime == 1200));
    assert_eq!(lsps[0].flags, LSP_FLAG_IS_TYPE1 | LSP_FLAG_IS_TYPE2);
    let flat = build_ring_world(3, false);
    assert_eq!(flat.lsps.len(), 3);
    assert_eq!(flat.n_lsps, 3);
    assert_eq!(build_ring_world(250, false).name, "prof-ring-250");
}

#[test]
fn node_lsp_supports_both_families() {
    let l = make_node_lsp(sid(9), &vec![sid(8)], 7);
    assert_eq!(l.tlvs.protocols_supported, vec![0xcc, 0x8e]);
    assert_eq!(l.seqno, 7);
    assert_eq!(l.tlvs.ext_is_reach[0].metric, 10);
}

#[test]
fn grid_system_ids() {
    assert_eq!(grid_sid(0, 0, 4), sid_bytes([0, 0, 0, 0, 1, 0x00]));
    assert_eq!(grid_sid(2, 3, 4), sid_bytes([0, 0, 0, 0, 12, 0x23]));
    assert_eq!(grid_sid(20, 17, 300), sid_bytes([0, 0, 0, 0x17, 0x82, 0x41]));
    assert_eq!(format_sid(grid_sid(2, 3, 4)), "0000.0000.0c23");
    assert_eq!(format_sid(sid_bytes([0xde, 0xad, 0xbe, 0xef, 0x01, 0xa1])), "dead.beef.01a1");
}

#[test]
fn torus_lsps_layout() {
    let proxy = sid_bytes([0, 0, 0, 0, 0, 0xa1]);
    let lsps = build_torus_lsps(3, 4, proxy);
    assert_eq!(lsps.len(), 13);
    let first = &lsps[0];
    assert_eq!(first.lsp_id.system_id, grid_sid(0, 0, 4));
    let nbrs: Vec<SystemId> = first.tlvs.ext_is_reach.iter().map(|r| r.neighbor.system_id).collect();
    assert_eq!(nbrs, vec![grid_sid(0, 1, 4), grid_sid(0, 3, 4), grid_sid(1, 0, 4), grid_sid(2, 0, 4), proxy]);
    assert!(first.tlvs.area_proxy.is_some());
    assert_eq!(lsps[5].tlvs.ext_is_reach.len(), 4);
    let last = &lsps[12];
    assert_eq!(last.lsp_id.system_id, proxy);
    assert!(last.tlvs.area_proxy.is_none());
    assert_eq!(last.tlvs.ext_is_reach.len(), 3);
    assert_eq!(last.tlvs.lsp_buf_size, Some(1492));
}

#[test]
fn profiling_config() {
    let cfg = profiling_instance_cfg();
    assert_eq!(cfg.metric_type, MetricType::Wide);
    assert!(cfg.ipv4_enabled && !cfg.ipv6_enabled && !cfg.area_proxy.enabled);
    assert_eq!(SPF_METHOD_REAL, "real_compute_spt");
}

#[test]
fn ring_world_area_proxy_switch() {
    let mut world = build_ring_world(5, true);
    world.set_area_proxy(false, None);
    assert!(!world.config.area_proxy.enabled);
    assert_eq!(world.config.area_proxy.proxy_system_id, None);
    world.set_area_proxy(true, Some(proxy_sid()));
    assert!(world.config.area_proxy.enabled);
    assert_eq!(world.config.area_proxy.proxy_system_id, Some(proxy_sid()));
    assert_eq!(world.config.area_proxy.role, AreaProxyRole::Inside);
    assert_eq!(world.lsps.len(), 6);
}

#[test]
fn torus_harness_identity() {
    let h = SpfProfilingHarness::torus(6, 6);
    assert_eq!(h.n_nodes(), 36);
    assert_eq!(h.root(), grid_sid(0, 0, 6));
    assert_eq!(h.proxy(), sid_bytes([0, 0, 0, 0, 0, 0xa1]));
    assert_eq!(format_sid(h.root()), "0000.0000.0100");
    let h2 = SpfProfilingHarness::torus(10, 3);
    assert_eq!(h2.n_nodes(), 30);
}
