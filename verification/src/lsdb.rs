//! LSP storage: an arena of LSP entries and a link state database that
//! indexes into it.

use vstd::prelude::*;

use crate::packet::{Lsp, LspId, SystemId};

verus! {

/// An LSP stored in the arena, with the arena index it lives at.
#[derive(Debug)]
pub struct LspEntry {
    pub id: usize,
    pub data: Lsp,
}

/// Storage of LSP entries, addressed by index.
#[derive(Debug)]
pub struct Arena {
    pub items: Vec<LspEntry>,
}

/// A link state database of one level: the arena indices of its LSPs, in
/// database order.
#[derive(Debug)]
pub struct Lsdb {
    pub ids: Vec<usize>,
}

impl Lsdb {
    /// Every index of the database names an entry of the arena.
    pub open spec fn wf(&self, arena: &Arena) -> bool {
        forall|k: int| 0 <= k < self.ids@.len() ==> #[trigger] self.ids@[k] < arena.items@.len()
    }

    /// The entries of the database, in database order.
    pub open spec fn entries(&self, arena: &Arena) -> Seq<LspEntry> {
        self.ids@.map_values(|i: usize| arena.items@[i as int])
    }

    /// The `k`-th entry of the database.
    pub fn entry<'a>(&self, arena: &'a Arena, k: usize) -> (e: &'a LspEntry)
        requires
            self.wf(arena),
            k < self.ids@.len(),
        ensures
            *e == self.entries(arena)[k as int],
    {
        &arena.items[self.ids[k]]
    }

    /// Number of LSPs in the database.
    pub fn len(&self) -> (n: usize)
        ensures
            n == self.ids@.len(),
    {
        self.ids.len()
    }
}

/// Some entry of `entries` was originated by `sid` and satisfies `p`.
pub open spec fn any_for_system_id(
    entries: Seq<LspEntry>,
    sid: SystemId,
    p: spec_fn(Lsp) -> bool,
) -> bool {
    exists|k: int|
        0 <= k < entries.len() && #[trigger] entries[k].data.lsp_id.system_id == sid && p(
            entries[k].data,
        )
}

/// The LSP is alive: remaining lifetime and sequence number are both non-zero.
pub open spec fn lsp_is_live(lsp: Lsp) -> bool {
    lsp.rem_lifetime != 0 && lsp.seqno != 0
}

/// The LSP carries the Area Proxy TLV.
pub open spec fn lsp_has_area_proxy(lsp: Lsp) -> bool {
    lsp.tlvs.area_proxy is Some
}

/// Whether some LSP of `sid` in the database is alive.
pub fn any_live_for_system_id(lsdb: &Lsdb, arena: &Arena, sid: SystemId) -> (r: bool)
    requires
        lsdb.wf(arena),
    ensures
        r == any_for_system_id(lsdb.entries(arena), sid, |l: Lsp| lsp_is_live(l)),
{
    let ghost entries = lsdb.entries(arena);
    let n = lsdb.len();
    for k in 0..n
        invariant
            n == lsdb.ids@.len(),
            lsdb.wf(arena),
            entries == lsdb.entries(arena),
            forall|j: int|
                0 <= j < k && #[trigger] entries[j].data.lsp_id.system_id == sid ==> !lsp_is_live(
                    entries[j].data,
                ),
    {
        let e = lsdb.entry(arena, k);
        if e.data.lsp_id.system_id == sid && e.data.rem_lifetime != 0 && e.data.seqno != 0 {
            assert(entries[k as int].data.lsp_id.system_id == sid);
            return true;
        }
    }
    false
}

/// Whether some LSP of `sid` in the database carries the Area Proxy TLV.
pub fn any_area_proxy_for_system_id(lsdb: &Lsdb, arena: &Arena, sid: SystemId) -> (r: bool)
    requires
        lsdb.wf(arena),
    ensures
        r == any_for_system_id(lsdb.entries(arena), sid, |l: Lsp| lsp_has_area_proxy(l)),
{
    let ghost entries = lsdb.entries(arena);
    let n = lsdb.len();
    for k in 0..n
        invariant
            n == lsdb.ids@.len(),
            lsdb.wf(arena),
            entries == lsdb.entries(arena),
            forall|j: int|
                0 <= j < k && #[trigger] entries[j].data.lsp_id.system_id == sid
                    ==> !lsp_has_area_proxy(entries[j].data),
    {
        let e = lsdb.entry(arena, k);
        if e.data.lsp_id.system_id == sid && e.data.tlvs.area_proxy.is_some() {
            assert(entries[k as int].data.lsp_id.system_id == sid);
            return true;
        }
    }
    false
}

/// The arena indices, in database order, of the entries originated by `sid`.
pub open spec fn ids_for_system_id(entries: Seq<LspEntry>, sid: SystemId) -> Seq<usize>
    decreases entries.len(),
{
    if entries.len() == 0 {
        Seq::empty()
    } else {
        let prev = ids_for_system_id(entries.drop_last(), sid);
        if entries.last().data.lsp_id.system_id == sid {
            prev.push(entries.last().id)
        } else {
            prev
        }
    }
}

/// The arena indices of the entries originated by `sid`, in database order.
pub fn entry_ids_for_system_id(lsdb: &Lsdb, arena: &Arena, sid: SystemId) -> (ids: Vec<usize>)
    requires
        lsdb.wf(arena),
    ensures
        ids@ == ids_for_system_id(lsdb.entries(arena), sid),
{
    let ghost entries = lsdb.entries(arena);
    let mut ids: Vec<usize> = Vec::new();
    let n = lsdb.len();
    for k in 0..n
        invariant
            n == lsdb.ids@.len(),
            lsdb.wf(arena),
            entries == lsdb.entries(arena),
            ids@ == ids_for_system_id(entries.take(k as int), sid),
    {
        let e = lsdb.entry(arena, k);
        assert(entries.take(k + 1).drop_last() =~= entries.take(k as int));
        if e.data.lsp_id.system_id == sid {
            ids.push(e.id);
        }
    }
    assert(entries.take(n as int) =~= entries);
    ids
}

/// Index of the first entry with LSP ID `id`, if there is one.
pub open spec fn first_with_lsp_id(entries: Seq<LspEntry>, id: LspId) -> Option<int> {
    if exists|k: int| 0 <= k < entries.len() && #[trigger] entries[k].data.lsp_id == id {
        Some(
            choose|k: int|
                0 <= k < entries.len() && #[trigger] entries[k].data.lsp_id == id && forall|j: int|
                    0 <= j < k ==> #[trigger] entries[j].data.lsp_id != id,
        )
    } else {
        None
    }
}

/// Looks up the first entry of the database with LSP ID `id`.
pub fn get_by_lspid<'a>(lsdb: &Lsdb, arena: &'a Arena, id: LspId) -> (r: Option<&'a LspEntry>)
    requires
        lsdb.wf(arena),
    ensures
        match first_with_lsp_id(lsdb.entries(arena), id) {
            Some(k) => r == Some(&lsdb.entries(arena)[k]),
            None => r is None,
        },
{
    let ghost entries = lsdb.entries(arena);
    let n = lsdb.len();
    for k in 0..n
        invariant
            n == lsdb.ids@.len(),
            lsdb.wf(arena),
            entries == lsdb.entries(arena),
            forall|j: int| 0 <= j < k ==> #[trigger] entries[j].data.lsp_id != id,
    {
        let e = lsdb.entry(arena, k);
        if e.data.lsp_id == id {
            assert(entries[k as int].data.lsp_id == id);
            proof {
                let c = choose|c: int|
                    0 <= c < entries.len() && #[trigger] entries[c].data.lsp_id == id && forall|j: int|
                        0 <= j < c ==> #[trigger] entries[j].data.lsp_id != id;
                if c < k {
                    assert(entries[c].data.lsp_id != id);
                } else if c > k {
                    assert(entries[k as int].data.lsp_id != id);
                }
            }
            return Some(e);
        }
    }
    None
}

} // verus!
