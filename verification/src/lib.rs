//! Area Proxy (RFC 9666) helpers for IS-IS, SPF start-up defaults and
//! passive control-plane metrics.

pub mod packet;
pub mod lsdb;
pub mod config;
pub mod min_table;
pub mod text;
pub mod area_proxy;
pub mod proxy_lsp;
pub mod subtlv;
pub mod spf_config;
pub mod observability;
pub mod sample;
pub mod metrics_emit;
pub mod spf_fixture;
pub mod spf_profiling;
