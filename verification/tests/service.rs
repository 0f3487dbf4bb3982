use systeminfo::collector::Collector;
use systeminfo::service::ServiceState;
use systeminfo::snapshot::{RawDisk, RawMemory, RawNetwork, RawSample, RawComponent};
use systeminfo::json::snapshot_json;
use systeminfo::SystemInfoError;

fn empty_sample() -> RawSample {
    RawSample {
        global_cpu_usage: 0,
        core_usages: Vec::new(),
        components: Vec::new(),
        memory: RawMemory {
            total_kb: 0,
            used_kb: 0,
            free_kb: 0,
            available_kb: 0,
            swap_total_kb: 0,
            swap_used_kb: 0,
        },
        disks: Vec::new(),
        networks: Vec::new(),
    }
}

fn sample_with_memory(total_kb: u64, used_kb: u64) -> RawSample {
    let mut s = empty_sample();
    s.global_cpu_usage = 4257;
    s.memory.total_kb = total_kb;
    s.memory.used_kb = used_kb;
    s.memory.free_kb = total_kb - used_kb;
    s.memory.available_kb = total_kb - used_kb;
    s
}

#[test]
fn health_is_always_ok() {
    let st = ServiceState::new(1000);
    let (code, body) = st.handle_health();
    assert_eq!(code, 200);
    assert_eq!(body, "OK");
}

#[test]
fn initial_metrics_are_zero_valued_not_an_error() {
    let st = ServiceState::new(1000);
    let (code, body) = st.handle_metrics();
    assert_eq!(code, 200);
    assert_eq!(
        body,
        "system_cpu_usage 0.00\nsystem_memory_used_bytes 0\nsystem_memory_total_bytes 0\n"
    );
}

#[test]
fn initial_read_reports_not_yet_populated() {
    let c = Collector::new(1000);
    let r = c.current_snapshot();
    assert!(matches!(r, Err(SystemInfoError::NotYetPopulated)));
}

#[test]
fn first_json_request_triggers_refresh_and_returns_snapshot() {
    // Before any refresh, the JSON route performs the first one itself and
    // answers with that snapshot.
    let mut st = ServiceState::new(1000);
    let snap = systeminfo::snapshot::build_snapshot(&sample_with_memory(15_625_000, 7_812_500));
    let expected = snapshot_json(&snap);
    let (code, body) = st.handle_json_metrics(Ok(snap));
    assert_eq!(code, 200);
    assert_eq!(body, expected);
    assert!(st.collector.current_snapshot().is_ok());
    let (_, metrics) = st.handle_metrics();
    assert_eq!(
        metrics,
        "system_cpu_usage 42.57\nsystem_memory_used_bytes 8000000000\nsystem_memory_total_bytes 16000000000\n"
    );
}

#[test]
fn json_reports_exact_memory_bytes() {
    // 16,000,000,000 bytes total and 8,000,000,000 used; a consumer's
    // derived usage percentage is exactly half.
    let snap = systeminfo::snapshot::build_snapshot(&sample_with_memory(15_625_000, 7_812_500));
    assert_eq!(snap.memory.total, 16_000_000_000);
    assert_eq!(snap.memory.used, 8_000_000_000);
    let body = snapshot_json(&snap);
    assert!(body.contains("\"totalBytes\":16000000000"));
    assert!(body.contains("\"usedBytes\":8000000000"));
    let pct = snap.memory.used as f64 / snap.memory.total as f64 * 100.0;
    assert_eq!(pct, 50.0);
}

#[test]
fn disk_used_is_total_less_available() {
    let mut s = empty_sample();
    s.disks.push(RawDisk {
        name: String::from("sda1"),
        mount_point: String::from("/"),
        total: 100_000_000_000,
        available: 40_000_000_000,
    });
    let snap = systeminfo::snapshot::build_snapshot(&s);
    assert_eq!(snap.disks.len(), 1);
    assert_eq!(snap.disks[0].name, "sda1");
    assert_eq!(snap.disks[0].used, 60_000_000_000);
    assert_eq!(snap.disks[0].free, 40_000_000_000);
}

#[test]
fn read_path_is_idempotent_without_refresh() {
    let mut st = ServiceState::new(500);
    let snap = systeminfo::snapshot::build_snapshot(&sample_with_memory(1_048_576, 524_288));
    st.scheduler_tick(Ok(snap)).unwrap();
    let body1 = snapshot_json(st.collector.current_snapshot().unwrap());
    let body2 = snapshot_json(st.collector.current_snapshot().unwrap());
    assert_eq!(body1, body2);
    let (_, m1) = st.handle_metrics();
    let (_, m2) = st.handle_metrics();
    assert_eq!(m1, m2);
}

#[test]
fn failed_refresh_keeps_previous_snapshot() {
    // A refresh that fails right after a successful one leaves the earlier
    // snapshot published, byte for byte.
    let mut st = ServiceState::new(500);
    let snap = systeminfo::snapshot::build_snapshot(&sample_with_memory(2_000_000, 1_000_000));
    st.scheduler_tick(Ok(snap)).unwrap();
    let before = snapshot_json(st.collector.current_snapshot().unwrap());
    let r = st.scheduler_tick(Err(SystemInfoError::CpuError));
    assert!(matches!(r, Err(SystemInfoError::CpuError)));
    let after = snapshot_json(st.collector.current_snapshot().unwrap());
    assert_eq!(before, after);
}

#[test]
fn failed_json_request_is_a_500_with_the_message() {
    let mut st = ServiceState::new(500);
    let (code, body) = st.handle_json_metrics(Err(SystemInfoError::MemoryError));
    assert_eq!(code, 500);
    assert_eq!(body, "Failed to get memory information");
}

#[test]
fn snapshot_invariants_hold_after_build() {
    let mut s = sample_with_memory(4_000_000, 3_999_999);
    s.core_usages = vec![100, 9_950, 20_000];
    s.components.push(RawComponent {
        label: String::from("Core 1"),
        temperature: 5_550,
    });
    s.components.push(RawComponent {
        label: String::from("Package id 0"),
        temperature: 6_025,
    });
    s.disks.push(RawDisk {
        name: String::from("nvme0n1p2"),
        mount_point: String::from("/home"),
        total: 512_000,
        available: 128_000,
    });
    let snap = systeminfo::snapshot::build_snapshot(&s);
    assert!(snap.memory.used <= snap.memory.total);
    for d in &snap.disks {
        assert!(d.used <= d.total);
    }
    assert_eq!(snap.cpu_cores.len(), 3);
    assert_eq!(snap.cpu_cores[0].idle, 9_900);
    assert_eq!(snap.cpu_cores[2].idle, 0);
    assert_eq!(snap.cpu_cores[1].temperature, Some(5_550));
    assert_eq!(snap.cpu_cores[0].temperature, None);
    assert_eq!(snap.global_cpu.temperature, Some(6_025));
    // no interface qualified, so the sentinel entry stands alone
    assert_eq!(snap.networks.len(), 1);
    assert_eq!(snap.networks[0].interface, "N/A");
    assert_eq!(snap.networks[0].ip_address, "N/A");
}

#[test]
fn qualifying_interface_is_published_with_its_address() {
    let mut s = empty_sample();
    s.networks.push(RawNetwork {
        interface: String::from("lo"),
        rx_bytes: 10,
        tx_bytes: 10,
        ip_text: String::from("    inet 127.0.0.1/8 scope host lo\n"),
    });
    s.networks.push(RawNetwork {
        interface: String::from("eth0"),
        rx_bytes: 123_456,
        tx_bytes: 654_321,
        ip_text: String::from(
            "2: eth0: <BROADCAST,MULTICAST,UP,LOWER_UP> mtu 1500\n    inet 192.168.1.42/24 brd 192.168.1.255 scope global dynamic eth0\n",
        ),
    });
    s.networks.push(RawNetwork {
        interface: String::from("docker0"),
        rx_bytes: 999,
        tx_bytes: 999,
        ip_text: String::from("    inet 172.17.0.1/16 scope global docker0\n"),
    });
    let snap = systeminfo::snapshot::build_snapshot(&s);
    assert_eq!(snap.networks.len(), 1);
    assert_eq!(snap.networks[0].interface, "eth0");
    assert_eq!(snap.networks[0].ip_address, "192.168.1.42");
    assert_eq!(snap.networks[0].rx_bytes, 123_456);
    assert_eq!(snap.networks[0].tx_bytes, 654_321);
    let body = snapshot_json(&snap);
    assert!(body.contains("\"interfaceName\":\"eth0\""));
    assert!(body.contains("\"ipAddress\":\"192.168.1.42\""));
}

#[test]
fn json_has_the_full_stable_schema() {
    let mut s = sample_with_memory(15_625_000, 7_812_500);
    s.disks.push(RawDisk {
        name: String::from("sda1"),
        mount_point: String::from("/"),
        total: 100_000_000_000,
        available: 40_000_000_000,
    });
    let snap = systeminfo::snapshot::build_snapshot(&s);
    let body = snapshot_json(&snap);
    assert_eq!(
        body,
        "{\"cpuUsagePercent\":42.57,\
         \"memory\":{\"totalBytes\":16000000000,\"usedBytes\":8000000000,\
         \"availableBytes\":8000000000,\"swapTotalBytes\":0,\"swapUsedBytes\":0},\
         \"disks\":[{\"name\":\"sda1\",\"mountPoint\":\"/\",\"totalBytes\":100000000000,\
         \"usedBytes\":60000000000,\"availableBytes\":40000000000}],\
         \"networks\":[{\"interfaceName\":\"N/A\",\"ipAddress\":\"N/A\",\"rxBytes\":0,\"txBytes\":0}]}"
    );
}

#[test]
fn json_escapes_special_characters_in_names() {
    let mut s = empty_sample();
    s.disks.push(RawDisk {
        name: String::from("odd\"name\\here"),
        mount_point: String::from("/mnt/tab\there"),
        total: 10,
        available: 4,
    });
    let snap = systeminfo::snapshot::build_snapshot(&s);
    let body = snapshot_json(&snap);
    assert!(body.contains("\"name\":\"odd\\\"name\\\\here\""));
    assert!(body.contains("\"mountPoint\":\"/mnt/tab\\u0009here\""));
}

#[test]
fn collector_publishes_whole_snapshots_in_order() {
    let mut c = Collector::new(250);
    assert_eq!(c.update_interval_ms(), 250);
    let s1 = systeminfo::snapshot::build_snapshot(&sample_with_memory(1_000, 500));
    let s2 = systeminfo::snapshot::build_snapshot(&sample_with_memory(2_000, 700));
    c.apply_refresh(Ok(s1)).unwrap();
    assert_eq!(c.current_snapshot().unwrap().memory.total, 1_024_000);
    c.apply_refresh(Ok(s2)).unwrap();
    // the reader sees the latest fully applied refresh, all fields together
    let cur = c.current_snapshot().unwrap();
    assert_eq!(cur.memory.total, 2_048_000);
    assert_eq!(cur.memory.used, 716_800);
}

#[test]
fn memory_conversion_saturates_instead_of_wrapping() {
    let mut s = empty_sample();
    s.memory.total_kb = u64::MAX;
    s.memory.used_kb = u64::MAX;
    let snap = systeminfo::snapshot::build_snapshot(&s);
    assert_eq!(snap.memory.total, u64::MAX);
    assert_eq!(snap.memory.used, u64::MAX);
    assert!(snap.memory.used <= snap.memory.total);
}

#[test]
fn cpu_gauge_keeps_two_decimal_places() {
    let mut st = ServiceState::new(100);
    let mut s = empty_sample();
    s.global_cpu_usage = 5;
    st.scheduler_tick(Ok(systeminfo::snapshot::build_snapshot(&s))).unwrap();
    let (_, m) = st.handle_metrics();
    assert!(m.starts_with("system_cpu_usage 0.05\n"));
    s.global_cpu_usage = 10_000;
    st.scheduler_tick(Ok(systeminfo::snapshot::build_snapshot(&s))).unwrap();
    let (_, m2) = st.handle_metrics();
    assert!(m2.starts_with("system_cpu_usage 100.00\n"));
}

#[test]
fn error_messages_match_their_kinds() {
    assert_eq!(SystemInfoError::CpuError.message(), "Failed to get CPU information");
    assert_eq!(SystemInfoError::MemoryError.message(), "Failed to get memory information");
    assert_eq!(
        SystemInfoError::TemperatureError.message(),
        "Failed to get temperature information"
    );
    assert_eq!(SystemInfoError::DiskError.message(), "Failed to get disk information");
    assert_eq!(SystemInfoError::NetworkError.message(), "Failed to get network information");
    assert_eq!(
        SystemInfoError::IoError(String::from("broken pipe")).message(),
        "I/O error: broken pipe"
    );
    assert_eq!(
        SystemInfoError::ServiceError(String::from("bind failed")).message(),
        "Service error: bind failed"
    );
    assert_eq!(SystemInfoError::NotYetPopulated.message(), "No snapshot collected yet");
}
