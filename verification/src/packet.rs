//! IS-IS packet data as the Area Proxy logic reads it: identifiers,
//! reachability entries, the TLVs of an LSP and the LSP itself.

use vstd::prelude::*;

verus! {

/// NLPID of IPv4 in the Protocols Supported TLV.
pub const NLPID_IPV4: u8 = 0xcc;

/// NLPID of IPv6 in the Protocols Supported TLV.
pub const NLPID_IPV6: u8 = 0x8e;

/// LSP flag: the originator is a Level-1 IS.
pub const LSP_FLAG_IS_TYPE1: u8 = 0x01;

/// LSP flag: the originator is a Level-2 IS.
pub const LSP_FLAG_IS_TYPE2: u8 = 0x02;

/// An IS-IS System ID: six octets, most significant first.
#[derive(Clone, Copy, Debug, PartialEq, Eq, Structural)]
pub struct SystemId(pub u8, pub u8, pub u8, pub u8, pub u8, pub u8);

impl SystemId {
    /// The six octets in order.
    pub open spec fn octets(self) -> Seq<u8> {
        seq![self.0, self.1, self.2, self.3, self.4, self.5]
    }

    /// The octets read as a big-endian integer.
    pub open spec fn as_int(self) -> int {
        ((((self.0 as int * 256 + self.1) * 256 + self.2) * 256 + self.3) * 256 + self.4) * 256
            + self.5
    }

    /// Builds a System ID from its six octets.
    pub fn from_bytes(b: [u8; 6]) -> (sid: SystemId)
        ensures
            sid.octets() == b@,
    {
        let sid = SystemId(b[0], b[1], b[2], b[3], b[4], b[5]);
        assert(sid.octets() =~= b@);
        sid
    }

    /// The six octets of this System ID.
    pub fn to_bytes(&self) -> (b: [u8; 6])
        ensures
            b@ == self.octets(),
    {
        let b = [self.0, self.1, self.2, self.3, self.4, self.5];
        assert(b@ =~= self.octets());
        b
    }

    /// The octets read as a big-endian integer, the order in which System IDs
    /// compare.
    pub fn to_int(&self) -> (v: u64)
        ensures
            v == self.as_int(),
            v < 0x1_0000_0000_0000,
    {
        let v: u64 = ((((self.0 as u64 * 256 + self.1 as u64) * 256 + self.2 as u64) * 256
            + self.3 as u64) * 256 + self.4 as u64) * 256 + self.5 as u64;
        v
    }
}

/// Level of an LSP database.
#[derive(Clone, Copy, Debug, PartialEq, Eq, Structural)]
pub enum LevelNumber {
    L1,
    L2,
}

/// A LAN ID: a System ID and a pseudonode number.
#[derive(Clone, Copy, Debug, PartialEq, Eq, Structural)]
pub struct LanId {
    pub system_id: SystemId,
    pub pseudonode: u8,
}

/// An LSP ID: System ID, pseudonode number and fragment number.
#[derive(Clone, Copy, Debug, PartialEq, Eq, Structural)]
pub struct LspId {
    pub system_id: SystemId,
    pub pseudonode: u8,
    pub fragment: u8,
}

/// An IPv4 prefix: address and prefix length.
#[derive(Clone, Copy, Debug, PartialEq, Eq, Structural)]
pub struct Ipv4Prefix {
    pub addr: u32,
    pub len: u8,
}

/// An IPv6 prefix: address and prefix length.
#[derive(Clone, Copy, Debug, PartialEq, Eq, Structural)]
pub struct Ipv6Prefix {
    pub addr: u128,
    pub len: u8,
}

/// Extended IS reachability entry.
#[derive(Clone, Copy, Debug, PartialEq, Eq, Structural)]
pub struct IsReach {
    pub neighbor: LanId,
    pub metric: u32,
}

/// Extended IPv4 reachability entry.
#[derive(Clone, Copy, Debug, PartialEq, Eq, Structural)]
pub struct Ipv4Reach {
    pub prefix: Ipv4Prefix,
    pub metric: u32,
    pub up_down: bool,
}

/// IPv6 reachability entry.
#[derive(Clone, Copy, Debug, PartialEq, Eq, Structural)]
pub struct Ipv6Reach {
    pub prefix: Ipv6Prefix,
    pub metric: u32,
    pub up_down: bool,
    pub external: bool,
}

/// Area Proxy System Identifier Sub-TLV: exactly the six octets of the Area
/// Proxy System ID.
#[derive(Clone, Copy, Debug, PartialEq, Eq, Structural)]
pub struct AreaProxySystemIdStlv(pub SystemId);

/// Sub-TLVs of the Area Proxy TLV.
#[derive(Clone, Copy, Debug, PartialEq, Eq, Structural)]
pub struct AreaProxyStlvs {
    pub system_id: Option<AreaProxySystemIdStlv>,
}

/// Area Proxy TLV (type 20).
#[derive(Clone, Copy, Debug, PartialEq, Eq, Structural)]
pub struct AreaProxyTlv {
    pub sub_tlvs: AreaProxyStlvs,
}

impl AreaProxyTlv {
    /// An Area Proxy TLV that carries the System ID sub-TLV when a proxy
    /// System ID is given, and no sub-TLV otherwise.
    pub fn with_proxy_system_id(proxy_system_id: Option<SystemId>) -> (tlv: AreaProxyTlv)
        ensures
            tlv.sub_tlvs.system_id == (match proxy_system_id {
                Some(sid) => Some(AreaProxySystemIdStlv(sid)),
                None => None,
            }),
    {
        let system_id = match proxy_system_id {
            Some(sid) => Some(AreaProxySystemIdStlv(sid)),
            None => None,
        };
        AreaProxyTlv { sub_tlvs: AreaProxyStlvs { system_id } }
    }
}

/// An area address: one to thirteen octets.
#[derive(Debug)]
pub struct AreaAddr {
    pub bytes: Vec<u8>,
}

/// The TLVs of an LSP that the Area Proxy logic reads or writes.
#[derive(Debug)]
pub struct LspTlvs {
    pub protocols_supported: Vec<u8>,
    pub area_addrs: Vec<AreaAddr>,
    pub hostname: Option<String>,
    pub lsp_buf_size: Option<u16>,
    pub ext_is_reach: Vec<IsReach>,
    pub ext_ipv4_reach: Vec<Ipv4Reach>,
    pub ipv6_reach: Vec<Ipv6Reach>,
    pub area_proxy: Option<AreaProxyTlv>,
}

/// Mathematical value of [`LspTlvs`].
pub struct LspTlvsView {
    pub protocols_supported: Seq<u8>,
    pub area_addrs: Seq<Seq<u8>>,
    pub hostname: Option<Seq<char>>,
    pub lsp_buf_size: Option<u16>,
    pub ext_is_reach: Seq<IsReach>,
    pub ext_ipv4_reach: Seq<Ipv4Reach>,
    pub ipv6_reach: Seq<Ipv6Reach>,
    pub area_proxy: Option<AreaProxyTlv>,
}

/// The octets of each area address.
pub open spec fn area_addrs_view(a: Seq<AreaAddr>) -> Seq<Seq<u8>> {
    a.map_values(|x: AreaAddr| x.bytes@)
}

/// The characters of an optional string.
pub open spec fn opt_string_view(s: Option<String>) -> Option<Seq<char>> {
    match s {
        Some(s) => Some(s@),
        None => None,
    }
}

impl View for LspTlvs {
    type V = LspTlvsView;

    open spec fn view(&self) -> LspTlvsView {
        LspTlvsView {
            protocols_supported: self.protocols_supported@,
            area_addrs: area_addrs_view(self.area_addrs@),
            hostname: opt_string_view(self.hostname),
            lsp_buf_size: self.lsp_buf_size,
            ext_is_reach: self.ext_is_reach@,
            ext_ipv4_reach: self.ext_ipv4_reach@,
            ipv6_reach: self.ipv6_reach@,
            area_proxy: self.area_proxy,
        }
    }
}

/// A link state PDU.
#[derive(Debug)]
pub struct Lsp {
    pub level: LevelNumber,
    pub rem_lifetime: u16,
    pub lsp_id: LspId,
    pub seqno: u32,
    pub flags: u8,
    pub tlvs: LspTlvs,
}

/// Copies a list of area addresses octet for octet.
pub fn clone_area_addrs(a: &Vec<AreaAddr>) -> (r: Vec<AreaAddr>)
    ensures
        area_addrs_view(r@) == area_addrs_view(a@),
{
    let mut r: Vec<AreaAddr> = Vec::new();
    for i in 0..a.len()
        invariant
            r@.len() == i,
            i <= a@.len(),
            forall|j: int| 0 <= j < i ==> #[trigger] r@[j].bytes@ == a@[j].bytes@,
    {
        let bytes = a[i].bytes.clone();
        assert(bytes@ =~= a@[i as int].bytes@);
        r.push(AreaAddr { bytes });
    }
    assert(area_addrs_view(r@) =~= area_addrs_view(a@));
    r
}

/// Whether two octet vectors hold the same octets.
fn bytes_eq(a: &Vec<u8>, b: &Vec<u8>) -> (r: bool)
    ensures
        r == (a@ == b@),
{
    if a.len() != b.len() {
        return false;
    }
    let mut i: usize = 0;
    while i < a.len()
        invariant
            a@.len() == b@.len(),
            i <= a@.len(),
            forall|j: int| 0 <= j < i ==> a@[j] == b@[j],
        decreases a@.len() - i,
    {
        if a[i] != b[i] {
            return false;
        }
        i += 1;
    }
    assert(a@ =~= b@);
    true
}

/// Whether two lists of area addresses hold the same addresses.
fn area_addrs_eq(a: &Vec<AreaAddr>, b: &Vec<AreaAddr>) -> (r: bool)
    ensures
        r == (area_addrs_view(a@) == area_addrs_view(b@)),
{
    if a.len() != b.len() {
        assert(area_addrs_view(a@).len() != area_addrs_view(b@).len());
        return false;
    }
    let mut i: usize = 0;
    while i < a.len()
        invariant
            a@.len() == b@.len(),
            i <= a@.len(),
            forall|j: int| 0 <= j < i ==> #[trigger] a@[j].bytes@ == b@[j].bytes@,
        decreases a@.len() - i,
    {
        if !bytes_eq(&a[i].bytes, &b[i].bytes) {
            assert(area_addrs_view(a@)[i as int] != area_addrs_view(b@)[i as int]);
            return false;
        }
        i += 1;
    }
    assert(area_addrs_view(a@) =~= area_addrs_view(b@));
    true
}

/// Whether two vectors of IsReach entries are equal.
fn is_reach_vec_eq(a: &Vec<IsReach>, b: &Vec<IsReach>) -> (r: bool)
    ensures
        r == (a@ == b@),
{
    if a.len() != b.len() {
        return false;
    }
    let mut i: usize = 0;
    while i < a.len()
        invariant
            a@.len() == b@.len(),
            i <= a@.len(),
            forall|j: int| 0 <= j < i ==> a@[j] == b@[j],
        decreases a@.len() - i,
    {
        if a[i] != b[i] {
            return false;
        }
        i += 1;
    }
    assert(a@ =~= b@);
    true
}

/// Whether two vectors of Ipv4Reach entries are equal.
fn ipv4_reach_vec_eq(a: &Vec<Ipv4Reach>, b: &Vec<Ipv4Reach>) -> (r: bool)
    ensures
        r == (a@ == b@),
{
    if a.len() != b.len() {
        return false;
    }
    let mut i: usize = 0;
    while i < a.len()
        invariant
            a@.len() == b@.len(),
            i <= a@.len(),
            forall|j: int| 0 <= j < i ==> a@[j] == b@[j],
        decreases a@.len() - i,
    {
        if a[i] != b[i] {
            return false;
        }
        i += 1;
    }
    assert(a@ =~= b@);
    true
}

/// Whether two vectors of Ipv6Reach entries are equal.
fn ipv6_reach_vec_eq(a: &Vec<Ipv6Reach>, b: &Vec<Ipv6Reach>) -> (r: bool)
    ensures
        r == (a@ == b@),
{
    if a.len() != b.len() {
        return false;
    }
    let mut i: usize = 0;
    while i < a.len()
        invariant
            a@.len() == b@.len(),
            i <= a@.len(),
            forall|j: int| 0 <= j < i ==> a@[j] == b@[j],
        decreases a@.len() - i,
    {
        if a[i] != b[i] {
            return false;
        }
        i += 1;
    }
    assert(a@ =~= b@);
    true
}

/// Whether two optional strings are equal.
fn opt_string_eq(a: &Option<String>, b: &Option<String>) -> (r: bool)
    ensures
        r == (opt_string_view(*a) == opt_string_view(*b)),
{
    match (a, b) {
        (Some(x), Some(y)) => *x == *y,
        (None, None) => true,
        _ => false,
    }
}

impl LspTlvs {
    /// Whether `self` and `other` carry the same TLV contents.
    pub fn same_contents(&self, other: &LspTlvs) -> (r: bool)
        ensures
            r == (self@ == other@),
    {
        bytes_eq(&self.protocols_supported, &other.protocols_supported)
            && area_addrs_eq(&self.area_addrs, &other.area_addrs)
            && opt_string_eq(&self.hostname, &other.hostname)
            && self.lsp_buf_size == other.lsp_buf_size
            && is_reach_vec_eq(&self.ext_is_reach, &other.ext_is_reach)
            && ipv4_reach_vec_eq(&self.ext_ipv4_reach, &other.ext_ipv4_reach)
            && ipv6_reach_vec_eq(&self.ipv6_reach, &other.ipv6_reach)
            && self.area_proxy == other.area_proxy
    }
}

} // verus!
