use qmassa::history::RingHistory;
use qmassa::nav::QmDevicesTabState;
use qmassa::select::{device_tabs, find_client, pick_main_view, DrmClientSelected, MainView};
use qmassa::store::{CliMem, ClientStats, DevFreqs, DevMem, DeviceState, TelemetryStore};

fn bare_client(pid: u32, minor: u32, id: u32) -> ClientStats {
    let mut mem_info = RingHistory::new(8);
    mem_info.push(CliMem { smem_rss: 0, smem_used: 0, vram_rss: 0, vram_used: 0 });
    let mut cpu_usage = RingHistory::new(8);
    cpu_usage.push(0);
    ClientStats {
        pid,
        drm_minor: minor,
        client_id: id,
        comm: String::from("proc"),
        cmdline: String::from("/usr/bin/proc"),
        is_active: true,
        mem_info,
        eng_stats: Vec::new(),
        cpu_usage,
    }
}

fn device_with_clients(slot: &str, clients: Vec<ClientStats>) -> DeviceState {
    let mut mem_info = RingHistory::new(8);
    mem_info.push(DevMem {
        smem_used: 0,
        smem_total: 0,
        smem_rss: 0,
        vram_used: 0,
        vram_total: 0,
        vram_rss: 0,
    });
    let mut freqs = RingHistory::new(8);
    freqs.push(DevFreqs { min_freq: 0, max_freq: 0, cur_freq: 0, act_freq: 0 });
    DeviceState {
        pci_dev: String::from(slot),
        drv_name: String::from("drv"),
        dev_type: String::from("Discrete"),
        dev_nodes: String::from("card1"),
        vdr_dev_rev: String::from("label"),
        eng_names: Vec::new(),
        mem_info,
        freqs,
        clis_stats: clients,
    }
}

#[test]
fn lookup_returns_unique_live_match() {
    // Same pid twice: the process holds two handles; only the full tuple
    // identifies the client.
    let dev = device_with_clients(
        "0000:00:02.0",
        vec![bare_client(100, 128, 1), bare_client(100, 128, 2), bare_client(7, 129, 1)],
    );
    let sel = DrmClientSelected::new(String::from("0000:00:02.0"), 100, 128, 2);
    assert_eq!(find_client(&dev, &sel), Some(1));
}

#[test]
fn lookup_misses_when_client_is_gone() {
    let dev = device_with_clients("0000:00:02.0", vec![bare_client(100, 128, 1)]);
    let sel = DrmClientSelected::new(String::from("0000:00:02.0"), 100, 128, 9);
    assert_eq!(find_client(&dev, &sel), None);
    // The stored selection is left untouched: no auto-deselect, no
    // fallback, so the notice stays stable across draws.
    assert_eq!(sel.pid, 100);
    assert_eq!(sel.drm_minor, 128);
    assert_eq!(sel.client_id, 9);
    assert_eq!(sel.pci_dev, "0000:00:02.0");
    assert_eq!(find_client(&dev, &sel), None);
}

#[test]
fn pid_alone_does_not_identify_a_client() {
    let dev = device_with_clients(
        "0000:00:02.0",
        vec![bare_client(100, 128, 1), bare_client(100, 129, 1)],
    );
    let sel = DrmClientSelected::new(String::from("0000:00:02.0"), 100, 129, 1);
    assert_eq!(find_client(&dev, &sel), Some(1));
}

#[test]
fn device_tabs_follow_filter_or_store() {
    let store = TelemetryStore {
        timestamps: RingHistory::new(8),
        devs: vec![
            device_with_clients("0000:00:02.0", Vec::new()),
            device_with_clients("0000:03:00.0", Vec::new()),
        ],
    };
    let all = device_tabs(&None, &store);
    assert_eq!(all, vec![String::from("0000:00:02.0"), String::from("0000:03:00.0")]);
    let one = device_tabs(&Some(String::from("0000:03:00.0")), &store);
    assert_eq!(one, vec![String::from("0000:03:00.0")]);
}

#[test]
fn main_view_resolves_tab_selection() {
    let store = TelemetryStore {
        timestamps: RingHistory::new(8),
        devs: vec![device_with_clients("0000:00:02.0", Vec::new())],
    };
    let empty = QmDevicesTabState::new(Vec::new());
    assert!(matches!(pick_main_view(&empty, &store), MainView::NoDevices));

    let known = QmDevicesTabState::new(vec![String::from("0000:00:02.0")]);
    assert!(matches!(pick_main_view(&known, &store), MainView::Device(0)));

    // A filter naming a slot the store has never seen: the soft-failure
    // notice, not an error.
    let missing = QmDevicesTabState::new(vec![String::from("0000:7f:00.0")]);
    assert!(matches!(pick_main_view(&missing, &store), MainView::MissingDevice));
}
