//! Telemetry store: the device list, each device's metric histories, each
//! device's client list, and the globally shared tick-timestamp axis.
//! Clients are created on first observation, updated in place on each tick
//! they persist, and are simply absent once the collaborator that samples
//! the system stops listing them.

use vstd::prelude::*;
use vstd::string::StrSliceExecFns;
use crate::history::RingHistory;

verus! {

/// One per-tick sample of a device's memory counters.
#[derive(Clone, Copy, PartialEq, Eq, Structural, Debug)]
pub struct DevMem {
    pub smem_used: u64,
    pub smem_total: u64,
    pub smem_rss: u64,
    pub vram_used: u64,
    pub vram_total: u64,
    pub vram_rss: u64,
}

/// One per-tick sample of a device's frequency counters (MHz).
#[derive(Clone, Copy, PartialEq, Eq, Structural, Debug)]
pub struct DevFreqs {
    pub min_freq: u64,
    pub max_freq: u64,
    pub cur_freq: u64,
    pub act_freq: u64,
}

/// One per-tick sample of a client's memory counters.
#[derive(Clone, Copy, PartialEq, Eq, Structural, Debug)]
pub struct CliMem {
    pub smem_rss: u64,
    pub smem_used: u64,
    pub vram_rss: u64,
    pub vram_used: u64,
}

/// Strict lexicographic order on names, by unicode code point. Engine
/// series take their palette slots from this order, so coloring is
/// deterministic and independent of the order engines were first observed.
pub open spec fn lex_lt(a: Seq<char>, b: Seq<char>) -> bool
    decreases a.len(),
{
    if b.len() == 0 {
        false
    } else if a.len() == 0 {
        true
    } else if a[0] < b[0] {
        true
    } else if b[0] < a[0] {
        false
    } else {
        lex_lt(a.skip(1), b.skip(1))
    }
}

/// No name precedes itself.
pub proof fn lemma_lex_lt_irrefl(a: Seq<char>)
    ensures
        !lex_lt(a, a),
    decreases a.len(),
{
    if a.len() > 0 {
        lemma_lex_lt_irrefl(a.skip(1));
    }
}

/// Any two names are ordered one way or the other, or are equal.
pub proof fn lemma_lex_lt_total(a: Seq<char>, b: Seq<char>)
    ensures
        lex_lt(a, b) || lex_lt(b, a) || a =~= b,
    decreases a.len(),
{
    if b.len() == 0 {
        if a.len() == 0 {
            assert(a =~= b);
        }
    } else if a.len() == 0 {
    } else {
        if a[0] < b[0] {
        } else if b[0] < a[0] {
        } else {
            assert(a[0] == b[0]);
            lemma_lex_lt_total(a.skip(1), b.skip(1));
            if !lex_lt(a.skip(1), b.skip(1)) && !lex_lt(b.skip(1), a.skip(1)) {
                assert(a.skip(1) =~= b.skip(1));
                assert forall|i: int| 0 <= i < a.len() implies a[i] == b[i] by {
                    if i > 0 {
                        assert(a[i] == a.skip(1)[i - 1]);
                        assert(b[i] == b.skip(1)[i - 1]);
                    }
                }
                assert(a =~= b);
            }
        }
    }
}

/// The name order is transitive.
pub proof fn lemma_lex_lt_trans(a: Seq<char>, b: Seq<char>, c: Seq<char>)
    requires
        lex_lt(a, b),
        lex_lt(b, c),
    ensures
        lex_lt(a, c),
    decreases a.len(),
{
    if a.len() > 0 {
        if a[0] == b[0] && b[0] == c[0] {
            lemma_lex_lt_trans(a.skip(1), b.skip(1), c.skip(1));
        }
    }
}

/// Decides `lex_lt(a@, b@)` by scanning both names in step.
pub fn str_lex_lt(a: &str, b: &str) -> (r: bool)
    ensures
        r == lex_lt(a@, b@),
{
    let la = a.unicode_len();
    let lb = b.unicode_len();
    let mut i: usize = 0;
    proof {
        assert(a@.skip(0) =~= a@);
        assert(b@.skip(0) =~= b@);
    }
    while i < la && i < lb
        invariant
            i <= la,
            i <= lb,
            la == a@.len(),
            lb == b@.len(),
            lex_lt(a@, b@) == lex_lt(a@.skip(i as int), b@.skip(i as int)),
        decreases la - i,
    {
        let ca = a.get_char(i);
        let cb = b.get_char(i);
        if ca < cb {
            return true;
        }
        if cb < ca {
            return false;
        }
        proof {
            lemma_lex_skip_step(a@, b@, i as int);
        }
        i += 1;
    }
    if i < lb {
        return true;
    }
    proof {
        if i < la {
        } else {
            assert(a@.skip(i as int).len() == 0);
        }
    }
    false
}

/// Skipping one equal leading character does not change the order of the
/// remainders.
proof fn lemma_lex_skip_step(a: Seq<char>, b: Seq<char>, i: int)
    requires
        0 <= i < a.len(),
        0 <= i < b.len(),
        a[i] == b[i],
    ensures
        lex_lt(a.skip(i), b.skip(i)) == lex_lt(a.skip(i + 1), b.skip(i + 1)),
{
    assert(a.skip(i).skip(1) =~= a.skip(i + 1));
    assert(b.skip(i).skip(1) =~= b.skip(i + 1));
    assert(a.skip(i)[0] == a[i]);
    assert(b.skip(i)[0] == b[i]);
}

/// One engine of a client: the engine name and its utilization history.
/// A percentage sample is carried as the IEEE-754 bit pattern of the value
/// the collaborator measured; the model routes it and never interprets it,
/// so zero (the pattern of 0.0) is the padding value.
pub struct EngineStats {
    pub name: String,
    pub usage: RingHistory<u64>,
}

/// The engine list is strictly sorted by name.
pub open spec fn engines_sorted(engs: Seq<EngineStats>) -> bool {
    forall|i: int, j: int|
        0 <= i < j < engs.len() ==> lex_lt(#[trigger] engs[i].name@, #[trigger] engs[j].name@)
}

/// One client: a process holding an open handle to a device, identified by
/// the `(device, pid, minor, client id)` tuple; the process id alone is not
/// stable, as a process may hold several handles.
pub struct ClientStats {
    pub pid: u32,
    pub drm_minor: u32,
    pub client_id: u32,
    pub comm: String,
    pub cmdline: String,
    pub is_active: bool,
    pub mem_info: RingHistory<CliMem>,
    pub eng_stats: Vec<EngineStats>,
    pub cpu_usage: RingHistory<u64>,
}

impl ClientStats {
    /// Well-formed: ring invariants hold, every history carries at least
    /// one sample (so readers can default to the latest value), and the
    /// engine list is strictly sorted by name.
    pub open spec fn wf(&self) -> bool {
        &&& self.mem_info.wf()
        &&& self.mem_info@.len() >= 1
        &&& self.cpu_usage.wf()
        &&& self.cpu_usage@.len() >= 1
        &&& forall|i: int|
            0 <= i < self.eng_stats@.len() ==> (#[trigger] self.eng_stats@[i].usage).wf()
                && self.eng_stats@[i].usage@.len() >= 1
        &&& engines_sorted(self.eng_stats@)
    }

    /// Whether an engine of this name is already tracked.
    pub open spec fn has_engine(&self, name: Seq<char>) -> bool {
        exists|i: int| 0 <= i < self.eng_stats@.len() && (#[trigger] self.eng_stats@[i].name)@ == name
    }

    /// Latest memory sample.
    pub fn latest_mem(&self) -> (r: CliMem)
        requires
            self.mem_info@.len() >= 1,
        ensures
            r == self.mem_info@.last(),
    {
        self.mem_info.last()
    }

    /// Latest CPU-usage sample (bit pattern).
    pub fn latest_cpu(&self) -> (r: u64)
        requires
            self.cpu_usage@.len() >= 1,
        ensures
            r == self.cpu_usage@.last(),
    {
        self.cpu_usage.last()
    }

    /// Latest utilization sample (bit pattern) of every engine, in the
    /// stored name order.
    pub fn latest_engine_usage(&self) -> (r: Vec<u64>)
        requires
            self.wf(),
        ensures
            r@.len() == self.eng_stats@.len(),
            forall|i: int| 0 <= i < r@.len() ==> r@[i] == (#[trigger] self.eng_stats@[i].usage)@.last(),
    {
        let mut r: Vec<u64> = Vec::new();
        let mut i: usize = 0;
        let n = self.eng_stats.len();
        while i < n
            invariant
                i <= n,
                n == self.eng_stats@.len(),
                self.wf(),
                r@.len() == i,
                forall|j: int| 0 <= j < i ==> r@[j] == (#[trigger] self.eng_stats@[j].usage)@.last(),
            decreases n - i,
        {
            r.push(self.eng_stats[i].usage.last());
            i += 1;
        }
        r
    }

    /// Records one utilization sample for the named engine: appended to the
    /// engine's history if the engine is tracked, otherwise the engine is
    /// inserted at its place in the name order with this first sample.
    /// Returns the index of the engine touched.
    pub fn upsert_engine_sample(&mut self, name: String, cap: usize, sample: u64) -> (idx: usize)
        requires
            old(self).wf(),
            cap >= 1,
        ensures
            final(self).wf(),
            final(self).pid == old(self).pid,
            final(self).drm_minor == old(self).drm_minor,
            final(self).client_id == old(self).client_id,
            final(self).comm == old(self).comm,
            final(self).cmdline == old(self).cmdline,
            final(self).is_active == old(self).is_active,
            final(self).mem_info == old(self).mem_info,
            final(self).cpu_usage == old(self).cpu_usage,
            idx < final(self).eng_stats@.len(),
            final(self).eng_stats@[idx as int].name@ == name@,
            final(self).eng_stats@[idx as int].usage@.len() >= 1,
            final(self).eng_stats@[idx as int].usage@.last() == sample,
            old(self).has_engine(name@) ==> {
                &&& final(self).eng_stats@.len() == old(self).eng_stats@.len()
                &&& old(self).eng_stats@[idx as int].name@ == name@
                &&& forall|j: int|
                    0 <= j < old(self).eng_stats@.len() && j != idx ==> final(self).eng_stats@[j]
                        == old(self).eng_stats@[j]
                &&& final(self).eng_stats@[idx as int].usage@ == if old(
                    self,
                ).eng_stats@[idx as int].usage@.len() < old(self).eng_stats@[idx as int].usage.cap() {
                    old(self).eng_stats@[idx as int].usage@.push(sample)
                } else {
                    old(self).eng_stats@[idx as int].usage@.skip(1).push(sample)
                }
            },
            !old(self).has_engine(name@) ==> {
                &&& final(self).eng_stats@.len() == old(self).eng_stats@.len() + 1
                &&& final(self).eng_stats@ == old(self).eng_stats@.insert(
                    idx as int,
                    final(self).eng_stats@[idx as int],
                )
                &&& final(self).eng_stats@[idx as int].usage@ =~= seq![sample]
            },
    {
        let n = self.eng_stats.len();
        let mut i: usize = 0;
        while i < n
            invariant
                i <= n,
                n == self.eng_stats@.len(),
                *self == *old(self),
                self.wf(),
                cap >= 1,
                forall|j: int| 0 <= j < i ==> lex_lt((#[trigger] self.eng_stats@[j].name)@, name@),
            decreases n - i,
        {
            if name == self.eng_stats[i].name {
                let ghost old_engs = self.eng_stats@;
                self.eng_stats[i].usage.push(sample);
                proof {
                    assert(self.eng_stats@ =~= old_engs.update(
                        i as int,
                        self.eng_stats@[i as int],
                    ));
                    assert(self.eng_stats@[i as int].name == old_engs[i as int].name);
                    assert forall|p: int, q: int|
                        0 <= p < q < self.eng_stats@.len() implies lex_lt(
                        #[trigger] self.eng_stats@[p].name@,
                        #[trigger] self.eng_stats@[q].name@,
                    ) by {
                        assert(old_engs[p].name == self.eng_stats@[p].name);
                        assert(old_engs[q].name == self.eng_stats@[q].name);
                    }
                }
                return i;
            }
            let precedes = str_lex_lt(self.eng_stats[i].name.as_str(), name.as_str());
            if !precedes {
                // The scanned name follows `name` and differs from it, so
                // `name` is not tracked and this is its sorted slot.
                proof {
                    lemma_lex_lt_total(name@, self.eng_stats@[i as int].name@);
                    assert(lex_lt(name@, self.eng_stats@[i as int].name@));
                    lemma_upsert_absent(self.eng_stats@, name@, i as int);
                    assert forall|j: int| i <= j < self.eng_stats@.len() implies lex_lt(
                        name@,
                        (#[trigger] self.eng_stats@[j].name)@,
                    ) by {
                        if j > i {
                            lemma_lex_lt_trans(
                                name@,
                                self.eng_stats@[i as int].name@,
                                self.eng_stats@[j].name@,
                            );
                        }
                    }
                }
                let ghost old_engs = self.eng_stats@;
                let eng = EngineStats { name, usage: single_sample_ring(cap, sample) };
                let ghost geng = eng;
                self.eng_stats.insert(i, eng);
                proof {
                    old_engs.insert_ensures(i as int, geng);
                    assert(self.eng_stats@[i as int].usage@ =~= seq![sample]);
                    lemma_sorted_after_insert(old_engs, self.eng_stats@, i as int);
                }
                return i;
            }
            i += 1;
        }
        proof {
            lemma_upsert_absent(self.eng_stats@, name@, n as int);
        }
        let ghost old_engs = self.eng_stats@;
        let eng = EngineStats { name, usage: single_sample_ring(cap, sample) };
        let ghost geng = eng;
        self.eng_stats.insert(n, eng);
        proof {
            old_engs.insert_ensures(n as int, geng);
            assert(self.eng_stats@[n as int].usage@ =~= seq![sample]);
            lemma_sorted_after_insert(old_engs, self.eng_stats@, n as int);
        }
        n
    }
}

/// A fresh ring holding exactly one sample.
fn single_sample_ring(cap: usize, sample: u64) -> (r: RingHistory<u64>)
    requires
        cap >= 1,
    ensures
        r.wf(),
        r@ =~= seq![sample],
        r.cap() == cap,
{
    let mut r = RingHistory::new(cap);
    r.push(sample);
    proof {
        assert(r@ =~= seq![sample]);
    }
    r
}

/// If every name before `i` precedes `name` and the name at `i` (when there
/// is one) follows it, then `name` is nowhere in the sorted engine list.
proof fn lemma_upsert_absent(engs: Seq<EngineStats>, name: Seq<char>, i: int)
    requires
        0 <= i <= engs.len(),
        engines_sorted(engs),
        forall|j: int| 0 <= j < i ==> lex_lt((#[trigger] engs[j].name)@, name),
        i < engs.len() ==> lex_lt(name, engs[i].name@),
    ensures
        forall|j: int| 0 <= j < engs.len() ==> (#[trigger] engs[j].name)@ != name,
{
    assert forall|j: int| 0 <= j < engs.len() implies (#[trigger] engs[j].name)@ != name by {
        if j < i {
            if engs[j].name@ == name {
                lemma_lex_lt_irrefl(name);
            }
        } else {
            if engs[j].name@ == name {
                if j == i {
                    lemma_lex_lt_irrefl(name);
                } else {
                    lemma_lex_lt_trans(name, engs[i].name@, engs[j].name@);
                    lemma_lex_lt_irrefl(name);
                }
            }
        }
    }
}

/// Inserting at a slot whose predecessors all precede the new name and
/// whose successors all follow it keeps the list strictly sorted.
proof fn lemma_sorted_after_insert(old_engs: Seq<EngineStats>, new_engs: Seq<EngineStats>, i: int)
    requires
        0 <= i <= old_engs.len(),
        engines_sorted(old_engs),
        new_engs == old_engs.insert(i, new_engs[i]),
        new_engs.len() == old_engs.len() + 1,
        forall|j: int| 0 <= j < i ==> lex_lt((#[trigger] old_engs[j].name)@, new_engs[i].name@),
        forall|j: int|
            i <= j < old_engs.len() ==> lex_lt(new_engs[i].name@, (#[trigger] old_engs[j].name)@),
    ensures
        engines_sorted(new_engs),
{
    assert forall|p: int, q: int| 0 <= p < q < new_engs.len() implies lex_lt(
        #[trigger] new_engs[p].name@,
        #[trigger] new_engs[q].name@,
    ) by {
        if p < i && q < i {
            assert(new_engs[p] == old_engs[p]);
            assert(new_engs[q] == old_engs[q]);
        } else if p < i && q == i {
            assert(new_engs[p] == old_engs[p]);
        } else if p < i && q > i {
            assert(new_engs[p] == old_engs[p]);
            assert(new_engs[q] == old_engs[q - 1]);
            if q - 1 == i {
                assert(i <= q - 1 < old_engs.len());
            } else {
                assert(lex_lt(old_engs[p].name@, old_engs[q - 1].name@));
            }
        } else if p == i {
            assert(new_engs[q] == old_engs[q - 1]);
        } else {
            assert(new_engs[p] == old_engs[p - 1]);
            assert(new_engs[q] == old_engs[q - 1]);
        }
    }
}

/// One device: identity and labels, its metric histories, its known engine
/// names, and the clients currently holding a handle to it.
pub struct DeviceState {
    pub pci_dev: String,
    pub drv_name: String,
    pub dev_type: String,
    pub dev_nodes: String,
    pub vdr_dev_rev: String,
    pub eng_names: Vec<String>,
    pub mem_info: RingHistory<DevMem>,
    pub freqs: RingHistory<DevFreqs>,
    pub clis_stats: Vec<ClientStats>,
}

/// The `(pid, minor, client id)` part of a client's identity key; the
/// device part is the list the client sits in.
pub open spec fn client_key(c: ClientStats) -> (u32, u32, u32) {
    (c.pid, c.drm_minor, c.client_id)
}

impl DeviceState {
    /// Well-formed: ring invariants hold, every listed client is
    /// well-formed, and client identity keys are unique within the list.
    pub open spec fn wf(&self) -> bool {
        &&& self.mem_info.wf()
        &&& self.freqs.wf()
        &&& forall|i: int| 0 <= i < self.clis_stats@.len() ==> (#[trigger] self.clis_stats@[i]).wf()
        &&& forall|i: int, j: int|
            0 <= i < j < self.clis_stats@.len() ==> client_key(#[trigger] self.clis_stats@[i])
                != client_key(#[trigger] self.clis_stats@[j])
    }

    /// Latest device memory sample.
    pub fn latest_mem(&self) -> (r: DevMem)
        requires
            self.mem_info@.len() >= 1,
        ensures
            r == self.mem_info@.last(),
    {
        self.mem_info.last()
    }
}

/// The whole model: the shared tick-timestamp axis and the device list.
pub struct TelemetryStore {
    pub timestamps: RingHistory<u64>,
    pub devs: Vec<DeviceState>,
}

impl TelemetryStore {
    /// Well-formed: the axis ring invariant holds, every device is
    /// well-formed, and no client history is longer than the shared axis
    /// (an entity observed after tracking began has a shorter history).
    pub open spec fn wf(&self) -> bool {
        &&& self.timestamps.wf()
        &&& forall|d: int| 0 <= d < self.devs@.len() ==> (#[trigger] self.devs@[d]).wf()
        &&& forall|d: int, c: int|
            0 <= d < self.devs@.len() && 0 <= c < self.devs@[d].clis_stats@.len() ==> {
                &&& (#[trigger] self.devs@[d].clis_stats@[c]).mem_info@.len()
                    <= self.timestamps@.len()
                &&& self.devs@[d].clis_stats@[c].cpu_usage@.len() <= self.timestamps@.len()
                &&& forall|e: int|
                    0 <= e < self.devs@[d].clis_stats@[c].eng_stats@.len() ==> (
                    #[trigger] self.devs@[d].clis_stats@[c].eng_stats@[e]).usage@.len()
                        <= self.timestamps@.len()
            }
    }

    /// Index of the first device at the given PCI slot, if any.
    pub fn get_device(&self, slot: &String) -> (r: Option<usize>)
        ensures
            match r {
                Some(i) => i < self.devs@.len() && self.devs@[i as int].pci_dev@ == slot@
                    && forall|j: int| 0 <= j < i ==> (#[trigger] self.devs@[j].pci_dev)@ != slot@,
                None => forall|j: int|
                    0 <= j < self.devs@.len() ==> (#[trigger] self.devs@[j].pci_dev)@ != slot@,
            },
    {
        let n = self.devs.len();
        let mut i: usize = 0;
        while i < n
            invariant
                i <= n,
                n == self.devs@.len(),
                forall|j: int| 0 <= j < i ==> (#[trigger] self.devs@[j].pci_dev)@ != slot@,
            decreases n - i,
        {
            if self.devs[i].pci_dev == *slot {
                return Some(i);
            }
            i += 1;
        }
        None
    }
}

/// In a well-formed store every chart of every listed client can be built
/// against the shared axis: the client is well-formed and none of its
/// histories is longer than the timestamp axis.
pub proof fn lemma_store_charts_ready(store: TelemetryStore, d: int, c: int)
    requires
        store.wf(),
        0 <= d < store.devs@.len(),
        0 <= c < store.devs@[d].clis_stats@.len(),
    ensures
        store.devs@[d].clis_stats@[c].wf(),
        store.devs@[d].clis_stats@[c].mem_info@.len() <= store.timestamps@.len(),
        store.devs@[d].clis_stats@[c].cpu_usage@.len() <= store.timestamps@.len(),
        forall|e: int|
            0 <= e < store.devs@[d].clis_stats@[c].eng_stats@.len() ==> (
            #[trigger] store.devs@[d].clis_stats@[c].eng_stats@[e]).usage@.len()
                <= store.timestamps@.len(),
{
}

} // verus!
