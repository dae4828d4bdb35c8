use ot_ews::config::AppConfig;
use ot_ews::scanner::{
    plan_needs_privilege, probe_entries, scan_needs_privilege, scan_log_path, scan_plan, start_scan, ProbeOutcome,
    ScanEntry, ScanStart,
};

fn config(active: bool, scan: &[&str]) -> AppConfig {
    AppConfig {
        ports: vec!["8080".to_string()],
        active,
        scan_ports: scan.iter().map(|s| s.to_string()).collect(),
    }
}

#[test]
fn plan_skips_malformed_and_zero_entries() {
    let specs: Vec<String> = ["2000", "abc", "0", "3-1", "0-2", "", "2000"]
        .iter()
        .map(|s| s.to_string())
        .collect();
    assert_eq!(scan_plan(&specs), vec![2000, 0, 1, 2, 2000]);
}

#[test]
fn privilege_needed_for_low_ports_only() {
    assert!(plan_needs_privilege(&vec![5000, 1024]));
    assert!(!plan_needs_privilege(&vec![1025, 65535]));
    assert!(!plan_needs_privilege(&vec![]));
}

#[test]
fn disabled_scan_makes_no_log() {
    assert!(matches!(start_scan("10.0.0.1", &config(false, &["80", "2000"]), true), ScanStart::Disabled));
    assert!(matches!(start_scan("10.0.0.1", &config(false, &["2000"]), false), ScanStart::Disabled));
}

#[test]
fn unprivileged_low_port_scan_is_refused() {
    assert!(matches!(
        start_scan("10.0.0.1", &config(true, &["3000", "1000-1030"]), false),
        ScanStart::PrivilegeDenied
    ));
}

#[test]
fn privileged_low_port_scan_goes_ahead() {
    match start_scan("10.0.0.1", &config(true, &["22", "80"]), true) {
        ScanStart::Probe(s) => {
            assert_eq!(s.ports, vec![22, 80]);
            assert_eq!(s.next, 0);
        }
        _ => panic!("expected a scan"),
    }
}

#[test]
fn high_port_scan_needs_no_privilege() {
    match start_scan("192.168.1.7", &config(true, &["8000-8002", "bad"]), false) {
        ScanStart::Probe(mut s) => {
            assert_eq!(s.log_path, "logs/192.168.1.7-scan.log");
            assert_eq!(s.ports, vec![8000, 8001, 8002]);
            assert_eq!(s.next_port(), Some(8000));
            let e = s.record(ProbeOutcome::Refused("refused".to_string()));
            assert_eq!(e, vec![ScanEntry::ConnectFailed(8000, "refused".to_string())]);
            assert_eq!(s.next_port(), Some(8001));
            let e = s.record(ProbeOutcome::Open(vec![]));
            assert_eq!(e, vec![ScanEntry::PortOpen(8001), ScanEntry::NoImmediateData(8001)]);
            let e = s.record(ProbeOutcome::Open(b"SSH-2.0".to_vec()));
            assert_eq!(
                e,
                vec![ScanEntry::PortOpen(8002), ScanEntry::DataReceived(8002, b"SSH-2.0".to_vec())]
            );
            assert_eq!(s.next_port(), None);
        }
        _ => panic!("expected a scan"),
    }
}

#[test]
fn failed_connect_leaves_one_line() {
    let e = probe_entries(7, ProbeOutcome::Refused("connection refused".to_string()));
    assert_eq!(e, vec![ScanEntry::ConnectFailed(7, "connection refused".to_string())]);
}

#[test]
fn open_port_leaves_open_and_one_data_line() {
    let e = probe_entries(21, ProbeOutcome::Open(b"220 ready".to_vec()));
    assert_eq!(e, vec![ScanEntry::PortOpen(21), ScanEntry::DataReceived(21, b"220 ready".to_vec())]);
    let e = probe_entries(21, ProbeOutcome::Open(vec![]));
    assert_eq!(e, vec![ScanEntry::PortOpen(21), ScanEntry::NoImmediateData(21)]);
}

#[test]
fn scan_log_path_names_target() {
    assert_eq!(scan_log_path("::1"), "logs/::1-scan.log");
}

fn specs(list: &[&str]) -> Vec<String> {
    list.iter().map(|s| s.to_string()).collect()
}

#[test]
fn plan_keeps_port_zero_inside_ranges() {
    assert_eq!(scan_plan(&specs(&["0-2"])), vec![0, 1, 2]);
    assert_eq!(scan_plan(&specs(&["0-0"])), vec![0]);
    assert_eq!(scan_plan(&specs(&["0", "00", "+0", "5"])), vec![5]);
}

#[test]
fn privilege_test_sees_every_resolved_port() {
    assert!(scan_needs_privilege(&specs(&["0", "9000"])));
    assert!(scan_needs_privilege(&specs(&["9000", "1000-2000"])));
    assert!(scan_needs_privilege(&specs(&["1024"])));
    assert!(!scan_needs_privilege(&specs(&["1025", "2000-1000", "abc", "x-5"])));
}

#[test]
fn unprivileged_zero_entry_refuses_whole_scan() {
    assert!(matches!(
        start_scan("10.0.0.1", &config(true, &["0", "9000"]), false),
        ScanStart::PrivilegeDenied
    ));
}

#[test]
fn privileged_zero_range_probes_port_zero() {
    match start_scan("10.0.0.1", &config(true, &["0-2"]), true) {
        ScanStart::Probe(s) => assert_eq!(s.ports, vec![0, 1, 2]),
        _ => panic!("expected a scan"),
    }
}
