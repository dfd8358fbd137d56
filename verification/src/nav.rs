//! Navigation state machines: the circular device-tab selector and the
//! client chart-category selector (with its empty-category skip correction).

use vstd::prelude::*;
use vstd::arithmetic::div_mod::lemma_small_mod;

verus! {

/// Where the device-tab selector lands after one `next` step.
pub open spec fn spec_tab_next(sel: nat, len: nat) -> nat {
    if len == 0 {
        sel
    } else if sel + 1 < len {
        sel + 1
    } else {
        0
    }
}

/// Where the device-tab selector lands after one `previous` step.
pub open spec fn spec_tab_previous(sel: nat, len: nat) -> nat {
    if len == 0 {
        sel
    } else if sel > 0 {
        (sel - 1) as nat
    } else {
        (len - 1) as nat
    }
}

/// `spec_tab_next` iterated `k` times.
pub open spec fn spec_tab_next_iter(sel: nat, len: nat, k: nat) -> nat
    decreases k,
{
    if k == 0 {
        sel
    } else {
        spec_tab_next(spec_tab_next_iter(sel, len, (k - 1) as nat), len)
    }
}

/// Circular index over the device list shown in the tab bar.
pub struct QmDevicesTabState {
    devs: Vec<String>,
    sel: usize,
}

impl QmDevicesTabState {
    pub closed spec fn devs_spec(&self) -> Seq<String> {
        self.devs@
    }

    pub closed spec fn sel_spec(&self) -> nat {
        self.sel as nat
    }

    /// Selection always points into the list (or is zero when there are no
    /// devices).
    pub open spec fn wf(&self) -> bool {
        if self.devs_spec().len() == 0 {
            self.sel_spec() == 0
        } else {
            self.sel_spec() < self.devs_spec().len()
        }
    }

    pub fn new(devs: Vec<String>) -> (r: QmDevicesTabState)
        ensures
            r.wf(),
            r.devs_spec() == devs@,
            r.sel_spec() == 0,
    {
        QmDevicesTabState { devs, sel: 0 }
    }

    pub fn devices(&self) -> (r: &Vec<String>)
        ensures
            r@ == self.devs_spec(),
    {
        &self.devs
    }

    pub fn selected(&self) -> (r: usize)
        ensures
            r == self.sel_spec(),
    {
        self.sel
    }

    /// Advances the selection, wrapping at the end; a no-op on an empty list.
    pub fn next(&mut self)
        requires
            old(self).wf(),
        ensures
            final(self).wf(),
            final(self).devs_spec() == old(self).devs_spec(),
            final(self).sel_spec() == spec_tab_next(old(self).sel_spec(), old(self).devs_spec().len()),
    {
        let len = self.devs.len();
        if len == 0 {
            return ;
        }
        proof {
            if self.sel + 1 < len {
                lemma_small_mod((self.sel + 1) as nat, len as nat);
            } else {
                vstd::arithmetic::div_mod::lemma_mod_self_0(len as int);
            }
        }
        self.sel = (self.sel + 1) % len;
    }

    /// Moves the selection back, wrapping at the start; a no-op on an empty
    /// list.
    pub fn previous(&mut self)
        requires
            old(self).wf(),
        ensures
            final(self).wf(),
            final(self).devs_spec() == old(self).devs_spec(),
            final(self).sel_spec() == spec_tab_previous(
                old(self).sel_spec(),
                old(self).devs_spec().len(),
            ),
    {
        if self.devs.is_empty() {
            return ;
        }
        if self.sel > 0 {
            self.sel = self.sel - 1;
        } else {
            self.sel = self.devs.len() - 1;
        }
    }
}

/// `previous` undoes `next` on a non-empty list.
pub proof fn lemma_tab_next_previous_identity(sel: nat, len: nat)
    requires
        sel < len,
    ensures
        spec_tab_previous(spec_tab_next(sel, len), len) == sel,
{
}

/// `next` undoes `previous` on a non-empty list.
pub proof fn lemma_tab_previous_next_identity(sel: nat, len: nat)
    requires
        sel < len,
    ensures
        spec_tab_next(spec_tab_previous(sel, len), len) == sel,
{
}

/// After `k` `next` steps the selection is the start advanced by `k`,
/// modulo the list length.
pub proof fn lemma_tab_next_iter_mod(sel: nat, len: nat, k: nat)
    requires
        sel < len,
    ensures
        spec_tab_next_iter(sel, len, k) == ((sel + k) as int) % (len as int),
    decreases k,
{
    if k == 0 {
        lemma_small_mod(sel, len);
    } else {
        lemma_tab_next_iter_mod(sel, len, (k - 1) as nat);
        let prev = spec_tab_next_iter(sel, len, (k - 1) as nat);
        assert(prev == ((sel + k - 1) as int) % (len as int));
        vstd::arithmetic::div_mod::lemma_mod_bound((sel + k - 1) as int, len as int);
        vstd::arithmetic::div_mod::lemma_fundamental_div_mod((sel + k - 1) as int, len as int);
        let q0 = ((sel + k - 1) as int) / (len as int);
        assert((sel + k - 1) as int == (len as int) * q0 + prev);
        if prev + 1 < len {
            assert(q0 * (len as int) == (len as int) * q0) by (nonlinear_arith);
            assert((sel + k) as int == q0 * (len as int) + (prev + 1));
            vstd::arithmetic::div_mod::lemma_fundamental_div_mod_converse(
                (sel + k) as int,
                len as int,
                q0,
                (prev + 1) as int,
            );
        } else {
            assert((q0 + 1) * (len as int) == (len as int) * q0 + (len as int))
                by (nonlinear_arith);
            assert((sel + k) as int == (q0 + 1) * (len as int) + 0);
            vstd::arithmetic::div_mod::lemma_fundamental_div_mod_converse(
                (sel + k) as int,
                len as int,
                q0 + 1,
                0,
            );
        }
    }
}

/// Applying `next` exactly `K` times to a `K`-element list returns the
/// selection to where it started.
pub proof fn lemma_tab_next_full_cycle(sel: nat, len: nat)
    requires
        sel < len,
    ensures
        spec_tab_next_iter(sel, len, len) == sel,
{
    lemma_tab_next_iter_mod(sel, len, len);
    vstd::arithmetic::div_mod::lemma_mod_add_multiples_vanish(sel as int, len as int);
    assert(((sel + len) as int) % (len as int) == (sel as int) % (len as int));
    lemma_small_mod(sel, len);
}

/// The three chart categories of the client-detail view.
#[derive(Clone, Copy, PartialEq, Eq, Structural, Debug)]
pub enum ClientStatsFocus {
    MemInfo,
    Engines,
    Cpu,
}

/// The last navigation direction the category selector took.
#[derive(Clone, Copy, PartialEq, Eq, Structural, Debug)]
pub enum ClientStatsOp {
    Next,
    Previous,
}

/// Successor in the three-state category cycle.
pub open spec fn spec_focus_next(f: ClientStatsFocus) -> ClientStatsFocus {
    match f {
        ClientStatsFocus::MemInfo => ClientStatsFocus::Engines,
        ClientStatsFocus::Engines => ClientStatsFocus::Cpu,
        ClientStatsFocus::Cpu => ClientStatsFocus::MemInfo,
    }
}

/// Predecessor in the three-state category cycle.
pub open spec fn spec_focus_previous(f: ClientStatsFocus) -> ClientStatsFocus {
    match f {
        ClientStatsFocus::MemInfo => ClientStatsFocus::Cpu,
        ClientStatsFocus::Engines => ClientStatsFocus::MemInfo,
        ClientStatsFocus::Cpu => ClientStatsFocus::Engines,
    }
}

/// Chart-category selector of the client-detail view: a three-state cycle
/// that remembers the last direction taken, so a draw can step past the
/// engines category exactly once when the client has no engines.
pub struct ClientStatsState {
    pub sel: ClientStatsFocus,
    pub last_op: ClientStatsOp,
}

impl ClientStatsState {
    pub fn new() -> (r: ClientStatsState)
        ensures
            r.sel == ClientStatsFocus::MemInfo,
            r.last_op == ClientStatsOp::Next,
    {
        ClientStatsState { sel: ClientStatsFocus::MemInfo, last_op: ClientStatsOp::Next }
    }

    pub fn next(&mut self)
        ensures
            final(self).sel == spec_focus_next(old(self).sel),
            final(self).last_op == ClientStatsOp::Next,
    {
        self.sel = match self.sel {
            ClientStatsFocus::MemInfo => ClientStatsFocus::Engines,
            ClientStatsFocus::Engines => ClientStatsFocus::Cpu,
            ClientStatsFocus::Cpu => ClientStatsFocus::MemInfo,
        };
        self.last_op = ClientStatsOp::Next;
    }

    pub fn previous(&mut self)
        ensures
            final(self).sel == spec_focus_previous(old(self).sel),
            final(self).last_op == ClientStatsOp::Previous,
    {
        self.sel = match self.sel {
            ClientStatsFocus::MemInfo => ClientStatsFocus::Cpu,
            ClientStatsFocus::Engines => ClientStatsFocus::MemInfo,
            ClientStatsFocus::Cpu => ClientStatsFocus::Engines,
        };
        self.last_op = ClientStatsOp::Previous;
    }

    /// Re-applies the last direction taken, exactly once.
    pub fn repeat_op(&mut self)
        ensures
            old(self).last_op == ClientStatsOp::Next ==> final(self).sel == spec_focus_next(
                old(self).sel,
            ),
            old(self).last_op == ClientStatsOp::Previous ==> final(self).sel
                == spec_focus_previous(old(self).sel),
            final(self).last_op == old(self).last_op,
    {
        if self.last_op == ClientStatsOp::Next {
            self.next();
        } else {
            self.previous();
        }
    }

    /// Draw-time correction: if the resolved category is `Engines` but the
    /// selected client's engine mapping is empty, the last direction is
    /// re-applied exactly once to move past the invalid state. Any other
    /// state is left untouched, so re-evaluating this every draw causes no
    /// extra jump when the engine set flips between empty and non-empty.
    pub fn skip_empty_engines(&mut self, has_engines: bool)
        ensures
            has_engines || old(self).sel != ClientStatsFocus::Engines ==> *final(self) == *old(self),
            !has_engines ==> final(self).sel != ClientStatsFocus::Engines,
            !has_engines && old(self).sel == ClientStatsFocus::Engines ==> {
                &&& old(self).last_op == ClientStatsOp::Next ==> final(self).sel
                    == ClientStatsFocus::Cpu
                &&& old(self).last_op == ClientStatsOp::Previous ==> final(self).sel
                    == ClientStatsFocus::MemInfo
                &&& final(self).last_op == old(self).last_op
            },
    {
        if self.sel == ClientStatsFocus::Engines && !has_engines {
            self.repeat_op();
        }
    }
}

/// The category cycle has period three: three `next` steps return to the
/// starting category, and fewer do not.
pub proof fn lemma_focus_next_period3(f: ClientStatsFocus)
    ensures
        spec_focus_next(spec_focus_next(spec_focus_next(f))) == f,
        spec_focus_next(f) != f,
        spec_focus_next(spec_focus_next(f)) != f,
{
}

/// `previous` undoes `next` in the category cycle.
pub proof fn lemma_focus_next_previous_identity(f: ClientStatsFocus)
    ensures
        spec_focus_previous(spec_focus_next(f)) == f,
        spec_focus_next(spec_focus_previous(f)) == f,
{
}

/// The resolved category after a `next` step followed by the draw-time
/// correction for a client with an empty engine mapping.
pub open spec fn spec_corrected_next(f: ClientStatsFocus) -> ClientStatsFocus {
    if spec_focus_next(f) == ClientStatsFocus::Engines {
        spec_focus_next(spec_focus_next(f))
    } else {
        spec_focus_next(f)
    }
}

/// For a client with an empty engine mapping the corrected cycle never
/// resolves to `Engines` and alternates between the two remaining
/// categories: an effective period of two.
pub proof fn lemma_corrected_cycle_period2(f: ClientStatsFocus)
    requires
        f != ClientStatsFocus::Engines,
    ensures
        spec_corrected_next(f) != ClientStatsFocus::Engines,
        spec_corrected_next(f) != f,
        spec_corrected_next(spec_corrected_next(f)) == f,
{
}

} // verus!
