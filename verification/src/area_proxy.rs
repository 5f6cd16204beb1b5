//! RFC 9666 Area Proxy helpers: roles, hello identities, the local Area
//! Proxy TLV, and the Inside Edge flooding filter.

use vstd::prelude::*;

use crate::config::{role_uses_proxy_sid_on_outside, AreaProxyRole, InstanceCfg, Interface};
use crate::lsdb::{any_for_system_id, any_live_for_system_id, lsp_is_live, Arena, Lsdb, LspEntry};
use crate::packet::{AreaProxySystemIdStlv, AreaProxyTlv, LevelNumber, Lsp, SystemId};

verus! {

/// Area Proxy is enabled on the instance.
pub open spec fn spec_is_enabled(cfg: &InstanceCfg) -> bool {
    cfg.area_proxy.enabled
}

/// The instance is the Area Leader (elected or static) for the Proxy LSP.
pub open spec fn spec_is_leader(cfg: &InstanceCfg) -> bool {
    cfg.area_proxy.enabled && (cfg.area_proxy.role == AreaProxyRole::Leader
        || cfg.area_proxy.role == AreaProxyRole::Static)
}

/// Source System ID of hellos on an interface: the Area Proxy System ID on
/// outside-facing interfaces of edge, leader and static routers when one is
/// configured, the instance's own System ID otherwise; none without a System
/// ID.
pub open spec fn spec_hello_source(cfg: &InstanceCfg, outside_facing: bool) -> Option<SystemId> {
    match cfg.system_id {
        None => None,
        Some(local) => {
            if !cfg.area_proxy.enabled || !outside_facing {
                Some(local)
            } else if role_uses_proxy_sid_on_outside(cfg.area_proxy.role) {
                match cfg.area_proxy.proxy_system_id {
                    Some(proxy) => Some(proxy),
                    None => Some(local),
                }
            } else {
                Some(local)
            }
        },
    }
}

/// `system_id` is the instance's own System ID or the System ID it sources
/// hellos with on the interface.
pub open spec fn spec_is_local_hello_identity(
    cfg: &InstanceCfg,
    outside_facing: bool,
    system_id: SystemId,
) -> bool {
    cfg.system_id == Some(system_id) || spec_hello_source(cfg, outside_facing) == Some(system_id)
}

/// Whether an LSP may be flooded out an interface: always, unless Area Proxy
/// is enabled, the LSP is of level 2 and the interface is outside-facing; in
/// that case the Proxy LSP itself may, an LSP carrying the Area Proxy TLV may
/// not, and an LSP whose source has a live LSP in the level-1 database may
/// not.
pub open spec fn spec_may_flood_lsp(
    cfg: &InstanceCfg,
    outside_facing: bool,
    level: LevelNumber,
    lsp: Lsp,
    l1_entries: Seq<LspEntry>,
) -> bool {
    if !cfg.area_proxy.enabled || level != LevelNumber::L2 || !outside_facing {
        true
    } else if cfg.area_proxy.proxy_system_id == Some(lsp.lsp_id.system_id) {
        true
    } else if lsp.tlvs.area_proxy is Some {
        false
    } else {
        !any_for_system_id(l1_entries, lsp.lsp_id.system_id, |l: Lsp| lsp_is_live(l))
    }
}

/// Returns true when Area Proxy is enabled on the instance.
pub fn is_enabled(cfg: &InstanceCfg) -> (r: bool)
    ensures
        r == spec_is_enabled(cfg),
{
    cfg.area_proxy.enabled
}

/// True when this instance should originate the Area Proxy TLV on its level-2
/// LSP fragment 0: exactly when Area Proxy is enabled.
pub fn should_originate_tlv20(cfg: &InstanceCfg) -> (r: bool)
    ensures
        r == spec_is_enabled(cfg),
{
    cfg.area_proxy.enabled
}

/// True when this instance acts as Area Leader (or static leader) for the
/// Proxy LSP.
pub fn is_leader(cfg: &InstanceCfg) -> (r: bool)
    ensures
        r == spec_is_leader(cfg),
        r == (cfg.area_proxy.enabled && (cfg.area_proxy.role == AreaProxyRole::Leader
            || cfg.area_proxy.role == AreaProxyRole::Static)),
{
    if !cfg.area_proxy.enabled {
        return false;
    }
    match cfg.area_proxy.role {
        AreaProxyRole::Leader | AreaProxyRole::Static => true,
        _ => false,
    }
}

/// True when the interface is configured as outside-facing under Area Proxy.
pub fn is_outside_facing(iface: &Interface) -> (r: bool)
    ensures
        r == iface.config.area_proxy_outside,
{
    iface.config.is_outside_facing()
}

/// Effective hello source System ID for an interface.
pub fn hello_source(cfg: &InstanceCfg, iface: &Interface) -> (r: Option<SystemId>)
    ensures
        r == spec_hello_source(cfg, iface.config.area_proxy_outside),
{
    hello_source_for(cfg, is_outside_facing(iface))
}

/// Same as [`hello_source`], taking an explicit outside-facing flag. A
/// missing proxy System ID falls back to the real System ID.
pub fn hello_source_for(cfg: &InstanceCfg, outside_facing: bool) -> (r: Option<SystemId>)
    ensures
        r == spec_hello_source(cfg, outside_facing),
{
    let local = match cfg.system_id {
        Some(local) => local,
        None => return None,
    };
    if !cfg.area_proxy.enabled || !outside_facing {
        return Some(local);
    }
    if cfg.area_proxy.uses_proxy_sid_on_outside() {
        match cfg.area_proxy.proxy_system_id {
            Some(proxy) => Some(proxy),
            None => Some(local),
        }
    } else {
        Some(local)
    }
}

/// Whether `system_id` is a local identity for three-way adjacency
/// validation on the interface: the real System ID, or the System ID that
/// hellos on the interface are sourced with.
pub fn is_local_hello_identity(cfg: &InstanceCfg, iface: &Interface, system_id: SystemId) -> (r:
    bool)
    ensures
        r == spec_is_local_hello_identity(cfg, iface.config.area_proxy_outside, system_id),
{
    is_local_hello_identity_for(cfg, is_outside_facing(iface), system_id)
}

/// Same as [`is_local_hello_identity`], taking an explicit outside-facing
/// flag.
pub fn is_local_hello_identity_for(
    cfg: &InstanceCfg,
    outside_facing: bool,
    system_id: SystemId,
) -> (r: bool)
    ensures
        r == spec_is_local_hello_identity(cfg, outside_facing, system_id),
{
    if let Some(local) = cfg.system_id {
        if system_id == local {
            return true;
        }
    }
    if let Some(source) = hello_source_for(cfg, outside_facing) {
        if system_id == source {
            return true;
        }
    }
    false
}

/// Source System ID of CSNPs and PSNPs on an interface: the hello source.
pub fn snp_source_system_id(cfg: &InstanceCfg, iface: &Interface) -> (r: Option<SystemId>)
    ensures
        r == spec_hello_source(cfg, iface.config.area_proxy_outside),
{
    hello_source(cfg, iface)
}

/// Whether the source `system_id` of a level-2 LSP has a live LSP in the
/// level-1 database.
pub fn system_id_in_l1_lsdb(lsdb_l1: &Lsdb, lsp_entries: &Arena, system_id: SystemId) -> (r:
    bool)
    requires
        lsdb_l1.wf(lsp_entries),
    ensures
        r == any_for_system_id(lsdb_l1.entries(lsp_entries), system_id, |l: Lsp| lsp_is_live(l)),
{
    any_live_for_system_id(lsdb_l1, lsp_entries, system_id)
}

/// Whether an LSP may be flooded out an interface.
pub fn may_flood_lsp(
    cfg: &InstanceCfg,
    outside_facing: bool,
    level: LevelNumber,
    lsp: &Lsp,
    lsdb_l1: &Lsdb,
    lsp_entries: &Arena,
) -> (r: bool)
    requires
        lsdb_l1.wf(lsp_entries),
    ensures
        r == spec_may_flood_lsp(cfg, outside_facing, level, *lsp, lsdb_l1.entries(lsp_entries)),
{
    if !cfg.area_proxy.enabled || level != LevelNumber::L2 {
        return true;
    }
    if !outside_facing {
        return true;
    }
    if let Some(proxy_sid) = cfg.area_proxy.proxy_system_id {
        if lsp.lsp_id.system_id == proxy_sid {
            return true;
        }
    }
    if lsp.tlvs.area_proxy.is_some() {
        return false;
    }
    if system_id_in_l1_lsdb(lsdb_l1, lsp_entries, lsp.lsp_id.system_id) {
        return false;
    }
    true
}

/// Builds the Area Proxy TLV for the local level-2 LSP fragment 0: none when
/// Area Proxy is disabled, else one carrying the proxy System ID sub-TLV when
/// a proxy System ID is configured.
pub fn build_local_area_proxy_tlv(cfg: &InstanceCfg) -> (r: Option<AreaProxyTlv>)
    ensures
        r == (if spec_is_enabled(cfg) {
            Some(
                AreaProxyTlv {
                    sub_tlvs: crate::packet::AreaProxyStlvs {
                        system_id: match cfg.area_proxy.proxy_system_id {
                            Some(sid) => Some(AreaProxySystemIdStlv(sid)),
                            None => None,
                        },
                    },
                },
            )
        } else {
            None
        }),
{
    if !should_originate_tlv20(cfg) {
        return None;
    }
    Some(AreaProxyTlv::with_proxy_system_id(cfg.area_proxy.proxy_system_id))
}

/// The System ID that hellos are sourced with is always accepted as a local
/// identity in three-way adjacency checks.
pub proof fn law_hello_source_is_local_identity(cfg: &InstanceCfg, outside_facing: bool)
    ensures
        spec_hello_source(cfg, outside_facing) matches Some(s) ==> spec_is_local_hello_identity(
            cfg,
            outside_facing,
            s,
        ),
{
}

/// The real System ID is a local identity on every interface.
pub proof fn law_real_system_id_is_local(cfg: &InstanceCfg, outside_facing: bool)
    ensures
        cfg.system_id matches Some(s) ==> spec_is_local_hello_identity(cfg, outside_facing, s),
{
}

/// Inside-facing interfaces source hellos with the real System ID.
pub proof fn law_inside_facing_uses_real_system_id(cfg: &InstanceCfg)
    ensures
        spec_hello_source(cfg, false) == cfg.system_id,
{
}

/// Without a configured proxy System ID, hellos are sourced with the real
/// System ID on every interface.
pub proof fn law_missing_proxy_system_id_falls_back(cfg: &InstanceCfg, outside_facing: bool)
    requires
        cfg.area_proxy.proxy_system_id is None,
    ensures
        spec_hello_source(cfg, outside_facing) == cfg.system_id,
{
}

/// An enabled edge, leader or static router with a System ID sources hellos
/// on outside-facing interfaces with the configured proxy System ID.
pub proof fn law_outside_edge_uses_proxy_system_id(cfg: &InstanceCfg, proxy: SystemId)
    requires
        cfg.area_proxy.enabled,
        cfg.area_proxy.role != AreaProxyRole::Inside,
        cfg.system_id is Some,
        cfg.area_proxy.proxy_system_id == Some(proxy),
    ensures
        spec_hello_source(cfg, true) == Some(proxy),
        spec_is_local_hello_identity(cfg, true, proxy),
{
}

/// Flooding is filtered only on outside-facing interfaces, for level-2 LSPs,
/// with Area Proxy enabled.
pub proof fn law_flooding_filtered_only_outside(
    cfg: &InstanceCfg,
    outside_facing: bool,
    level: LevelNumber,
    lsp: Lsp,
    l1_entries: Seq<LspEntry>,
)
    requires
        !outside_facing || !cfg.area_proxy.enabled || level == LevelNumber::L1,
    ensures
        spec_may_flood_lsp(cfg, outside_facing, level, lsp, l1_entries),
{
}

/// The Proxy LSP itself may always be flooded.
pub proof fn law_proxy_lsp_always_flooded(
    cfg: &InstanceCfg,
    outside_facing: bool,
    level: LevelNumber,
    lsp: Lsp,
    l1_entries: Seq<LspEntry>,
)
    requires
        cfg.area_proxy.proxy_system_id == Some(lsp.lsp_id.system_id),
    ensures
        spec_may_flood_lsp(cfg, outside_facing, level, lsp, l1_entries),
{
}

/// An LSP carrying the Area Proxy TLV, other than the Proxy LSP, never leaks
/// out an outside-facing interface at level 2 (R2), and neither does one
/// whose source has a live LSP in the level-1 database (R1).
pub proof fn law_inside_lsps_do_not_leak(cfg: &InstanceCfg, lsp: Lsp, l1_entries: Seq<LspEntry>)
    requires
        cfg.area_proxy.enabled,
        cfg.area_proxy.proxy_system_id != Some(lsp.lsp_id.system_id),
        lsp.tlvs.area_proxy is Some || any_for_system_id(
            l1_entries,
            lsp.lsp_id.system_id,
            |l: Lsp| lsp_is_live(l),
        ),
    ensures
        !spec_may_flood_lsp(cfg, true, LevelNumber::L2, lsp, l1_entries),
{
}

} // verus!
