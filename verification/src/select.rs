//! Client-identity resolution and view selection. A captured client
//! selection is matched against the live client list on every draw; when
//! the client is gone, the stored selection is left untouched and a fixed
//! notice is rendered instead, so repeated draws do not thrash.

use vstd::prelude::*;
use crate::store::{ClientStats, DeviceState, TelemetryStore, client_key};
use crate::nav::QmDevicesTabState;

verus! {

/// A captured client selection: the identity key of the client whose
/// detail view was opened.
pub struct DrmClientSelected {
    pub pci_dev: String,
    pub pid: u32,
    pub drm_minor: u32,
    pub client_id: u32,
}

impl DrmClientSelected {
    pub fn new(pci_dev: String, pid: u32, drm_minor: u32, client_id: u32) -> (r:
        DrmClientSelected)
        ensures
            r.pci_dev@ == pci_dev@,
            r.pid == pid,
            r.drm_minor == drm_minor,
            r.client_id == client_id,
    {
        DrmClientSelected { pci_dev, pid, drm_minor, client_id }
    }
}

/// Whether a live client matches a captured selection (the device part of
/// the key is the list the client sits in).
pub open spec fn sel_matches(c: ClientStats, s: DrmClientSelected) -> bool {
    c.pid == s.pid && c.drm_minor == s.drm_minor && c.client_id == s.client_id
}

/// Linear scan of the device's client list for the captured selection;
/// the last match wins, as in the list's draw order. The selection itself
/// is only read: a vanished client never changes it.
pub fn find_client(dev: &DeviceState, sel: &DrmClientSelected) -> (r: Option<usize>)
    ensures
        match r {
            Some(i) => i < dev.clis_stats@.len() && sel_matches(dev.clis_stats@[i as int], *sel)
                && forall|j: int|
                i < j < dev.clis_stats@.len() ==> !sel_matches(
                    #[trigger] dev.clis_stats@[j],
                    *sel,
                ),
            None => forall|j: int|
                0 <= j < dev.clis_stats@.len() ==> !sel_matches(#[trigger] dev.clis_stats@[j], *sel),
        },
{
    let n = dev.clis_stats.len();
    let mut found: Option<usize> = None;
    let mut i: usize = 0;
    while i < n
        invariant
            i <= n,
            n == dev.clis_stats@.len(),
            match found {
                Some(k) => k < i && sel_matches(dev.clis_stats@[k as int], *sel) && forall|j: int|
                    k < j < i ==> !sel_matches(#[trigger] dev.clis_stats@[j], *sel),
                None => forall|j: int|
                    0 <= j < i ==> !sel_matches(#[trigger] dev.clis_stats@[j], *sel),
            },
        decreases n - i,
    {
        let c = &dev.clis_stats[i];
        if c.pid == sel.pid && c.drm_minor == sel.drm_minor && c.client_id == sel.client_id {
            found = Some(i);
        }
        i += 1;
    }
    found
}

/// In a well-formed device the match is unique: identity keys are unique
/// within a device's client list, so two matching indices are the same.
pub proof fn lemma_match_unique(dev: DeviceState, sel: DrmClientSelected, i: int, j: int)
    requires
        dev.wf(),
        0 <= i < dev.clis_stats@.len(),
        0 <= j < dev.clis_stats@.len(),
        sel_matches(dev.clis_stats@[i], sel),
        sel_matches(dev.clis_stats@[j], sel),
    ensures
        i == j,
{
    if i != j {
        assert(client_key(dev.clis_stats@[i]) == client_key(dev.clis_stats@[j]));
    }
}

/// The tab list shown at the top: the one configured device slot when a
/// filter is set, otherwise every stored device's slot.
pub fn device_tabs(dev_slot: &Option<String>, store: &TelemetryStore) -> (r: Vec<String>)
    ensures
        match dev_slot {
            Some(s) => r@.len() == 1 && r@[0]@ == s@,
            None => r@.len() == store.devs@.len() && forall|i: int|
                0 <= i < r@.len() ==> (#[trigger] r@[i])@ == store.devs@[i].pci_dev@,
        },
{
    let mut r: Vec<String> = Vec::new();
    match dev_slot {
        Some(s) => {
            r.push(s.clone());
        },
        None => {
            let n = store.devs.len();
            let mut i: usize = 0;
            while i < n
                invariant
                    i <= n,
                    n == store.devs@.len(),
                    r@.len() == i,
                    forall|j: int| 0 <= j < i ==> (#[trigger] r@[j])@ == store.devs@[j].pci_dev@,
                decreases n - i,
            {
                r.push(store.devs[i].pci_dev.clone());
                i += 1;
            }
        },
    }
    r
}

/// What the main area shows for the current tab selection.
pub enum MainView {
    /// No devices at all: a fixed notice.
    NoDevices,
    /// The selected slot is not in the store: a fixed notice naming it.
    MissingDevice,
    /// The device at this store index is rendered.
    Device(usize),
}

/// Resolves the tab selection against the store: the soft-failure path
/// (device absent from the latest snapshot) renders a notice and never
/// reassigns the selection.
pub fn pick_main_view(tabs: &QmDevicesTabState, store: &TelemetryStore) -> (r: MainView)
    requires
        tabs.wf(),
    ensures
        tabs.devs_spec().len() == 0 <==> r is NoDevices,
        match r {
            MainView::NoDevices => tabs.devs_spec().len() == 0,
            MainView::MissingDevice => forall|j: int|
                0 <= j < store.devs@.len() ==> (#[trigger] store.devs@[j].pci_dev)@
                    != tabs.devs_spec()[tabs.sel_spec() as int]@,
            MainView::Device(i) => i < store.devs@.len() && store.devs@[i as int].pci_dev@
                == tabs.devs_spec()[tabs.sel_spec() as int]@,
        },
{
    let devs = tabs.devices();
    if devs.len() == 0 {
        return MainView::NoDevices;
    }
    let slot = &devs[tabs.selected()];
    match store.get_device(slot) {
        Some(i) => MainView::Device(i),
        None => MainView::MissingDevice,
    }
}

} // verus!
