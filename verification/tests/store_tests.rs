use qmassa::history::RingHistory;
use qmassa::chart::engines_chart;
use qmassa::store::{CliMem, ClientStats, DevFreqs, DevMem, DeviceState, TelemetryStore};

fn sample_client(pid: u32, minor: u32, id: u32, active: bool) -> ClientStats {
    let mut mem_info = RingHistory::new(8);
    mem_info.push(CliMem { smem_rss: 1, smem_used: 2, vram_rss: 3, vram_used: 4 });
    let mut cpu_usage = RingHistory::new(8);
    cpu_usage.push(0);
    ClientStats {
        pid,
        drm_minor: minor,
        client_id: id,
        comm: String::from("proc"),
        cmdline: String::from("/usr/bin/proc --flag"),
        is_active: active,
        mem_info,
        eng_stats: Vec::new(),
        cpu_usage,
    }
}

fn sample_device(slot: &str) -> DeviceState {
    let mut mem_info = RingHistory::new(8);
    mem_info.push(DevMem {
        smem_used: 10,
        smem_total: 100,
        smem_rss: 5,
        vram_used: 20,
        vram_total: 200,
        vram_rss: 7,
    });
    let mut freqs = RingHistory::new(8);
    freqs.push(DevFreqs { min_freq: 300, max_freq: 1200, cur_freq: 600, act_freq: 580 });
    DeviceState {
        pci_dev: String::from(slot),
        drv_name: String::from("i915"),
        dev_type: String::from("Integrated"),
        dev_nodes: String::from("card0 renderD128"),
        vdr_dev_rev: String::from("Vendor Model rev 4"),
        eng_names: vec![String::from("render"), String::from("video")],
        mem_info,
        freqs,
        clis_stats: Vec::new(),
    }
}

#[test]
fn ring_history_evicts_oldest_at_capacity() {
    let mut ring: RingHistory<u64> = RingHistory::new(3);
    ring.push(1);
    ring.push(2);
    ring.push(3);
    assert_eq!(ring.samples(), &vec![1, 2, 3]);
    ring.push(4);
    assert_eq!(ring.samples(), &vec![2, 3, 4]);
    assert_eq!(ring.len(), 3);
    assert_eq!(ring.capacity(), 3);
    assert_eq!(ring.last(), 4);
}

#[test]
fn upsert_keeps_engines_sorted_by_name() {
    let mut cli = sample_client(1, 128, 10, true);
    cli.upsert_engine_sample(String::from("video"), 8, 11);
    cli.upsert_engine_sample(String::from("copy"), 8, 12);
    cli.upsert_engine_sample(String::from("render"), 8, 13);
    let names: Vec<&str> = cli.eng_stats.iter().map(|e| e.name.as_str()).collect();
    assert_eq!(names, vec!["copy", "render", "video"]);
}

#[test]
fn upsert_appends_to_existing_engine() {
    let mut cli = sample_client(1, 128, 10, true);
    cli.upsert_engine_sample(String::from("render"), 8, 11);
    cli.upsert_engine_sample(String::from("render"), 8, 12);
    assert_eq!(cli.eng_stats.len(), 1);
    assert_eq!(cli.eng_stats[0].usage.samples(), &vec![11, 12]);
}

#[test]
fn engine_palette_slots_follow_name_order() {
    let mut cli = sample_client(1, 128, 10, true);
    cli.upsert_engine_sample(String::from("video"), 8, 1);
    cli.upsert_engine_sample(String::from("blitter"), 8, 2);
    cli.upsert_engine_sample(String::from("render"), 8, 3);
    let axis: Vec<u64> = vec![1000];
    let series = engines_chart(&cli, &axis);
    assert_eq!(series.len(), 3);
    assert_eq!(series[0].name, "blitter");
    assert_eq!(series[0].palette_slot, 1);
    assert_eq!(series[1].name, "render");
    assert_eq!(series[1].palette_slot, 2);
    assert_eq!(series[2].name, "video");
    assert_eq!(series[2].palette_slot, 3);
    assert_eq!(series[0].points, vec![(1000, 2)]);
}

#[test]
fn latest_readers_return_most_recent_samples() {
    let mut cli = sample_client(1, 128, 10, true);
    cli.mem_info.push(CliMem { smem_rss: 9, smem_used: 8, vram_rss: 7, vram_used: 6 });
    cli.cpu_usage.push(55);
    cli.upsert_engine_sample(String::from("render"), 8, 21);
    cli.upsert_engine_sample(String::from("render"), 8, 22);
    assert_eq!(cli.latest_mem().smem_rss, 9);
    assert_eq!(cli.latest_cpu(), 55);
    assert_eq!(cli.latest_engine_usage(), vec![22]);
}

#[test]
fn get_device_finds_slot_by_name() {
    let store = TelemetryStore {
        timestamps: RingHistory::new(8),
        devs: vec![sample_device("0000:00:02.0"), sample_device("0000:03:00.0")],
    };
    assert_eq!(store.get_device(&String::from("0000:03:00.0")), Some(1));
    assert_eq!(store.get_device(&String::from("0000:00:02.0")), Some(0));
    assert_eq!(store.get_device(&String::from("0000:7f:00.0")), None);
}
