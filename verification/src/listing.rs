//! Client-list filtering and pane content sizing. The visible client set
//! and the scrollable content size are recomputed on every draw, because
//! the client set and the command strings change from tick to tick.

use vstd::prelude::*;
use vstd::string::StrSliceExecFns;
use crate::store::ClientStats;

verus! {

/// Width of the fixed row prefix (pid/memory/engine columns and spacing)
/// that precedes the command text of a client row.
pub const ROW_PREFIX_WIDTH: usize = 83;

/// Whether a client is shown: everything under "show all", otherwise only
/// clients the collaborator marked active.
pub open spec fn spec_visible(c: ClientStats, all_clients: bool) -> bool {
    all_clients || c.is_active
}

/// Indices of the visible clients, in listed order.
pub open spec fn spec_visible_idx(clis: Seq<ClientStats>, all_clients: bool) -> Seq<usize>
    decreases clis.len(),
{
    if clis.len() == 0 {
        Seq::empty()
    } else if spec_visible(clis.last(), all_clients) {
        spec_visible_idx(clis.drop_last(), all_clients).push((clis.len() - 1) as usize)
    } else {
        spec_visible_idx(clis.drop_last(), all_clients)
    }
}

/// Every listed index is in bounds, visible, and the list is strictly
/// increasing (so rows keep the stored order).
pub proof fn lemma_visible_idx_props(clis: Seq<ClientStats>, all_clients: bool)
    requires
        clis.len() <= usize::MAX,
    ensures
        ({
            let idx = spec_visible_idx(clis, all_clients);
            &&& idx.len() <= clis.len()
            &&& forall|k: int|
                0 <= k < idx.len() ==> (#[trigger] idx[k]) < clis.len() && spec_visible(
                    clis[idx[k] as int],
                    all_clients,
                )
            &&& forall|k: int, l: int| 0 <= k < l < idx.len() ==> idx[k] < idx[l]
        }),
    decreases clis.len(),
{
    if clis.len() > 0 {
        lemma_visible_idx_props(clis.drop_last(), all_clients);
        let prev = spec_visible_idx(clis.drop_last(), all_clients);
        assert forall|k: int|
            0 <= k < prev.len() implies (#[trigger] prev[k]) < clis.len() - 1 && spec_visible(
            clis[prev[k] as int],
            all_clients,
        ) by {
            assert(clis.drop_last()[prev[k] as int] == clis[prev[k] as int]);
        }
        if spec_visible(clis.last(), all_clients) {
            let idx = prev.push((clis.len() - 1) as usize);
            assert(idx.last() == (clis.len() - 1) as usize);
            assert forall|k: int|
                0 <= k < idx.len() implies (#[trigger] idx[k]) < clis.len() && spec_visible(
                clis[idx[k] as int],
                all_clients,
            ) by {
                if k < idx.len() - 1 {
                    assert(idx[k] == prev[k]);
                } else {
                    assert(idx[k] == (clis.len() - 1) as usize);
                    assert(clis[clis.len() - 1] == clis.last());
                }
            }
            assert forall|k: int, l: int| 0 <= k < l < idx.len() implies idx[k] < idx[l] by {
                if l < idx.len() - 1 {
                    assert(idx[k] == prev[k]);
                    assert(idx[l] == prev[l]);
                } else {
                    assert(idx[k] == prev[k]);
                    assert(idx[l] == (clis.len() - 1) as usize);
                }
            }
        }
    }
}

/// Collects the indices of the visible clients, in listed order.
pub fn visible_clients(clis: &Vec<ClientStats>, all_clients: bool) -> (r: Vec<usize>)
    ensures
        r@ == spec_visible_idx(clis@, all_clients),
{
    let n = clis.len();
    let mut r: Vec<usize> = Vec::new();
    let mut i: usize = 0;
    proof {
        assert(clis@.take(0) =~= Seq::<ClientStats>::empty());
    }
    while i < n
        invariant
            i <= n,
            n == clis@.len(),
            r@ == spec_visible_idx(clis@.take(i as int), all_clients),
        decreases n - i,
    {
        if all_clients || clis[i].is_active {
            r.push(i);
        }
        proof {
            assert(clis@.take(i + 1).drop_last() =~= clis@.take(i as int));
            assert(clis@.take(i + 1).last() == clis@[i as int]);
        }
        i += 1;
    }
    proof {
        assert(clis@.take(n as int) =~= clis@);
    }
    r
}

/// Width one client row wants: the fixed prefix plus both command strings.
pub open spec fn spec_row_width(c: ClientStats) -> int {
    ROW_PREFIX_WIDTH + c.comm@.len() + c.cmdline@.len()
}

/// Content size of the client-list pane: wide enough for the viewport and
/// for every visible row, one line per visible client plus the header.
pub open spec fn spec_list_width(clis: Seq<ClientStats>, idx: Seq<usize>, base: int) -> int
    decreases idx.len(),
{
    if idx.len() == 0 {
        base
    } else {
        let rest = spec_list_width(clis, idx.drop_last(), base);
        let w = spec_row_width(clis[idx.last() as int]);
        if w > rest {
            w
        } else {
            rest
        }
    }
}

/// Computes the client-list pane content size for the visible rows:
/// the maximum of the viewport width and every visible row's width, and
/// one line per row plus the header line.
pub fn clients_view_size(clis: &Vec<ClientStats>, idx: &Vec<usize>, viewport_w: usize) -> (r: (
    usize,
    usize,
))
    requires
        forall|k: int| 0 <= k < idx@.len() ==> (#[trigger] idx@[k]) < clis@.len(),
        forall|k: int|
            0 <= k < idx@.len() ==> spec_row_width(clis@[idx@[k] as int]) <= usize::MAX,
        idx@.len() < usize::MAX,
    ensures
        r.0 == spec_list_width(clis@, idx@, viewport_w as int),
        r.1 == idx@.len() + 1,
{
    let mut w: usize = viewport_w;
    let n = idx.len();
    let mut k: usize = 0;
    proof {
        assert(idx@.take(0) =~= Seq::<usize>::empty());
    }
    while k < n
        invariant
            k <= n,
            n == idx@.len(),
            forall|j: int| 0 <= j < idx@.len() ==> (#[trigger] idx@[j]) < clis@.len(),
            forall|j: int|
                0 <= j < idx@.len() ==> spec_row_width(clis@[idx@[j] as int]) <= usize::MAX,
            w == spec_list_width(clis@, idx@.take(k as int), viewport_w as int),
        decreases n - k,
    {
        let c = &clis[idx[k]];
        let row = ROW_PREFIX_WIDTH + c.comm.as_str().unicode_len() + c.cmdline.as_str().unicode_len();
        if row > w {
            w = row;
        }
        proof {
            assert(idx@.take(k + 1).drop_last() =~= idx@.take(k as int));
            assert(idx@.take(k + 1).last() == idx@[k as int]);
        }
        k += 1;
    }
    proof {
        assert(idx@.take(n as int) =~= idx@);
    }
    (w, n + 1)
}

/// Width the command pane's content wants: `[comm] cmdline`, the two
/// strings plus three framing characters.
pub fn command_width(c: &ClientStats) -> (r: usize)
    requires
        c.comm@.len() + c.cmdline@.len() + 3 <= usize::MAX,
    ensures
        r == c.comm@.len() + c.cmdline@.len() + 3,
{
    c.comm.as_str().unicode_len() + c.cmdline.as_str().unicode_len() + 3
}

} // verus!
