//! Instance and interface configuration read by the Area Proxy logic.

use vstd::prelude::*;

use crate::packet::{AreaAddr, SystemId};

verus! {

/// Area Proxy role of a router (RFC 9666).
#[derive(Clone, Copy, Debug, PartialEq, Eq, Structural)]
pub enum AreaProxyRole {
    /// Inside router: all its adjacencies are inside the proxy area.
    Inside,
    /// Inside Edge router: has outside-facing interfaces.
    Edge,
    /// Area Leader candidate that originates the Proxy LSP when elected.
    Leader,
    /// Statically configured leader.
    Static,
}

/// Instance-level Area Proxy configuration.
#[derive(Clone, Copy, Debug, PartialEq, Eq, Structural)]
pub struct InstanceAreaProxyCfg {
    pub enabled: bool,
    pub role: AreaProxyRole,
    pub proxy_system_id: Option<SystemId>,
}

/// The role sources hellos with the Area Proxy System ID on outside-facing
/// interfaces: every role that sits on the area edge.
pub open spec fn role_uses_proxy_sid_on_outside(role: AreaProxyRole) -> bool {
    role != AreaProxyRole::Inside
}

impl InstanceAreaProxyCfg {
    /// Area Proxy disabled, Inside role, no proxy System ID.
    pub fn new() -> (cfg: InstanceAreaProxyCfg)
        ensures
            !cfg.enabled,
            cfg.role == AreaProxyRole::Inside,
            cfg.proxy_system_id is None,
    {
        InstanceAreaProxyCfg { enabled: false, role: AreaProxyRole::Inside, proxy_system_id: None }
    }

    /// Whether the configured role sources hellos with the Area Proxy System
    /// ID on outside-facing interfaces.
    pub fn uses_proxy_sid_on_outside(&self) -> (r: bool)
        ensures
            r == role_uses_proxy_sid_on_outside(self.role),
    {
        match self.role {
            AreaProxyRole::Inside => false,
            _ => true,
        }
    }
}

/// Metric style of the instance.
#[derive(Clone, Copy, Debug, PartialEq, Eq, Structural)]
pub enum MetricType {
    Wide,
    Old,
    Both,
}

/// IS-IS instance configuration.
#[derive(Debug)]
pub struct InstanceCfg {
    pub system_id: Option<SystemId>,
    pub area_addrs: Vec<AreaAddr>,
    pub lsp_mtu: u16,
    pub lsp_lifetime: u16,
    pub metric_type: MetricType,
    pub ipv4_enabled: bool,
    pub ipv6_enabled: bool,
    pub area_proxy: InstanceAreaProxyCfg,
}

/// Address family.
#[derive(Clone, Copy, Debug, PartialEq, Eq, Structural)]
pub enum AddressFamily {
    Ipv4,
    Ipv6,
}

impl InstanceCfg {
    /// The default instance configuration: no System ID, no area address,
    /// an LSP MTU of 1492 octets, an LSP lifetime of 1200 seconds, wide
    /// metrics, both address families enabled and Area Proxy off.
    pub fn new() -> (cfg: InstanceCfg)
        ensures
            cfg.system_id is None,
            cfg.area_addrs@.len() == 0,
            cfg.lsp_mtu == 1492,
            cfg.lsp_lifetime == 1200,
            cfg.metric_type == MetricType::Wide,
            cfg.ipv4_enabled,
            cfg.ipv6_enabled,
            !cfg.area_proxy.enabled,
            cfg.area_proxy.role == AreaProxyRole::Inside,
            cfg.area_proxy.proxy_system_id is None,
    {
        InstanceCfg {
            system_id: None,
            area_addrs: Vec::new(),
            lsp_mtu: 1492,
            lsp_lifetime: 1200,
            metric_type: MetricType::Wide,
            ipv4_enabled: true,
            ipv6_enabled: true,
            area_proxy: InstanceAreaProxyCfg::new(),
        }
    }

    /// Whether the address family is enabled.
    pub fn is_af_enabled(&self, af: AddressFamily) -> (r: bool)
        ensures
            r == (match af {
                AddressFamily::Ipv4 => self.ipv4_enabled,
                AddressFamily::Ipv6 => self.ipv6_enabled,
            }),
    {
        match af {
            AddressFamily::Ipv4 => self.ipv4_enabled,
            AddressFamily::Ipv6 => self.ipv6_enabled,
        }
    }
}

impl Default for InstanceCfg {
    /// The same as [`InstanceCfg::new`].
    fn default() -> (cfg: InstanceCfg)
        ensures
            cfg.system_id is None,
            cfg.area_addrs@.len() == 0,
            cfg.lsp_mtu == 1492,
            cfg.lsp_lifetime == 1200,
            cfg.metric_type == MetricType::Wide,
            cfg.ipv4_enabled,
            cfg.ipv6_enabled,
            !cfg.area_proxy.enabled,
            cfg.area_proxy.role == AreaProxyRole::Inside,
            cfg.area_proxy.proxy_system_id is None,
    {
        InstanceCfg::new()
    }
}

/// Interface configuration as far as Area Proxy reads it.
#[derive(Clone, Copy, Debug, PartialEq, Eq, Structural)]
pub struct InterfaceCfg {
    pub area_proxy_outside: bool,
}

impl InterfaceCfg {
    /// Whether the interface is configured as outside-facing under Area Proxy.
    pub fn is_outside_facing(&self) -> (r: bool)
        ensures
            r == self.area_proxy_outside,
    {
        self.area_proxy_outside
    }
}

/// An IS-IS interface.
#[derive(Clone, Copy, Debug, PartialEq, Eq, Structural)]
pub struct Interface {
    pub config: InterfaceCfg,
}

} // verus!
