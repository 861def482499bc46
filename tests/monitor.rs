use ptop::frame::{extract_data, format_cpu, render, reset_cursor};
use ptop::monitor::{cycle_output, MonitorConfig, Phase};
use ptop::process::{process_label, rank, ProcessRecord, SystemIdentity, SystemSnapshot};
use ptop::text::{decimal_text, pad_right, signed_text};
use ptop::units::{display_unit, humanize, with_unit_suffix, Unit};

fn record(pid: i32, cpu: Option<u32>, mem: u64, label: &str) -> ProcessRecord {
    ProcessRecord::new(pid, cpu, mem, label.to_string())
}

fn unknown_identity() -> SystemIdentity {
    SystemIdentity { name: None, kernel_version: None, os_version: None, host_name: None }
}

fn snapshot(total: u64, used: u64, processes: Vec<ProcessRecord>) -> SystemSnapshot {
    SystemSnapshot {
        identity: unknown_identity(),
        total_memory: total,
        used_memory: used,
        total_swap: 0,
        used_swap: 0,
        processes,
    }
}

fn labels(view: &[ProcessRecord]) -> Vec<String> {
    view.iter().map(|r| r.label.clone()).collect()
}

#[test]
fn humanize_zero_is_plain_kilobytes() {
    assert_eq!(humanize(0), "0 kb");
}

#[test]
fn humanize_below_boundary_is_plain_kilobytes() {
    assert_eq!(humanize(1023), "1023 kb");
    assert_eq!(humanize(7), "7 kb");
}

#[test]
fn humanize_boundary_is_one_megabyte() {
    assert_eq!(humanize(1024), "1.00 MB");
}

#[test]
fn humanize_scales_with_two_decimals() {
    assert_eq!(humanize(1536), "1.50 MB");
    assert_eq!(humanize(2048), "2.00 MB");
    assert_eq!(humanize(1048576), "1.00 GB");
    assert_eq!(humanize(1073741824), "1.00 TB");
}

#[test]
fn humanize_largest_input_stays_in_largest_unit() {
    assert_eq!(humanize(u64::MAX), "16.00 ZB");
}

#[test]
fn humanize_unit_never_rolls_back_on_samples() {
    let samples: [u64; 9] = [0, 1, 1023, 1024, 1048575, 1048576, 1073741824, 1u64 << 50, u64::MAX];
    let rank_of = |s: &str| -> usize {
        ["kb", "MB", "GB", "TB", "PB", "EB", "ZB"]
            .iter()
            .position(|u| s.ends_with(u))
            .unwrap()
    };
    for w in samples.windows(2) {
        assert!(rank_of(&humanize(w[0])) <= rank_of(&humanize(w[1])));
    }
}

#[test]
fn display_unit_picks_largest_whole_unit() {
    assert_eq!(display_unit(1023), None);
    assert_eq!(display_unit(1024), Some(Unit::Mb));
    assert_eq!(display_unit(1048575), Some(Unit::Mb));
    assert_eq!(display_unit(1048576), Some(Unit::Gb));
    assert_eq!(display_unit(1u64 << 60), Some(Unit::Zb));
}

#[test]
fn unit_suffix_is_appended() {
    assert_eq!(with_unit_suffix("3.25".to_string(), Unit::Tb), "3.25 TB");
}

#[test]
fn numbers_are_written_in_decimal() {
    assert_eq!(decimal_text(0), "0");
    assert_eq!(decimal_text(90210), "90210");
    assert_eq!(signed_text(-42), "-42");
    assert_eq!(signed_text(i32::MIN), "-2147483648");
}

#[test]
fn padding_fills_to_width() {
    let mut s = "ab".to_string();
    pad_right(&mut s, 5);
    assert_eq!(s, "ab   ");
    let mut t = "abcdef".to_string();
    pad_right(&mut t, 3);
    assert_eq!(t, "abcdef");
}

#[test]
fn cpu_has_two_decimals() {
    assert_eq!(format_cpu(Some(990)), "9.90");
    assert_eq!(format_cpu(Some(5)), "0.05");
    assert_eq!(format_cpu(Some(12345)), "123.45");
    assert_eq!(format_cpu(None), "NaN");
}

#[test]
fn missing_identity_field_is_placeholder() {
    assert_eq!(extract_data(None), "N/A");
    assert_eq!(extract_data(Some("box".to_string())), "box");
}

#[test]
fn label_joins_command_line() {
    let cmd = vec!["/bin/sh".to_string(), "-c".to_string(), "true".to_string()];
    assert_eq!(process_label("sh", &cmd), "/bin/sh -c true");
    assert_eq!(process_label("kworker", &Vec::new()), "kworker");
}

#[test]
fn rank_orders_ties_by_snapshot_and_truncates() {
    let s = snapshot(
        0,
        0,
        vec![record(1, Some(500), 100, "a"), record(2, Some(500), 200, "b"), record(3, Some(990), 50, "c")],
    );
    assert_eq!(labels(&rank(&s, 3)), vec!["c", "a", "b"]);
    let top = rank(&s, 2);
    assert_eq!(labels(&top), vec!["c", "a"]);
    assert_eq!(top[0].pid, 3);
    assert_eq!(top[1].pid, 1);
}

#[test]
fn rank_keeps_all_when_fewer_than_limit() {
    let s = snapshot(0, 0, vec![record(1, Some(10), 1, "x"), record(2, Some(20), 1, "y")]);
    assert_eq!(labels(&rank(&s, 10)), vec!["y", "x"]);
    assert!(rank(&s, 0).is_empty());
}

#[test]
fn rank_drops_empty_labels() {
    let s = snapshot(
        0,
        0,
        vec![record(1, Some(9999), 1, ""), record(2, Some(1), 1, "kept"), record(3, None, 1, "")],
    );
    let view = rank(&s, 10);
    assert_eq!(labels(&view), vec!["kept"]);
    let frame = render(&s, &view);
    assert!(!frame.contains("9999"));
    assert!(!frame.lines().any(|l| l.starts_with("1 ")));
}

#[test]
fn rank_puts_unmeasured_last() {
    let s = snapshot(
        0,
        0,
        vec![record(1, None, 1, "nan"), record(2, Some(0), 1, "zero"), record(3, Some(300), 1, "busy")],
    );
    assert_eq!(labels(&rank(&s, 10)), vec!["busy", "zero", "nan"]);
}

#[test]
fn rank_of_empty_snapshot_is_empty() {
    let s = snapshot(0, 0, Vec::new());
    assert!(rank(&s, 10).is_empty());
}

#[test]
fn frame_for_empty_process_list() {
    let s = snapshot(2048, 1024, Vec::new());
    let view = rank(&s, 10);
    let frame = render(&s, &view);
    let expected = "System name: \tN/A\nKernel version: N/A\nOS version:   \tN/A\nHostname:     \tN/A\n\n\
RAM: \t1.00 MB/2.00 MB\nSwap: \t0 kb/0 kb\n\n\
PID        CPU %         MEM        PROCESS\n";
    assert_eq!(frame, expected);
}

#[test]
fn frame_rows_are_fixed_width() {
    let mut s = snapshot(4096, 1000, vec![record(42, Some(1234), 512, "init")]);
    s.identity.host_name = Some("box".to_string());
    let view = rank(&s, 10);
    let frame = render(&s, &view);
    assert!(frame.contains("Hostname:     \tbox\n"));
    assert!(frame.contains("RAM: \t1000 kb/4.00 MB\n"));
    assert!(frame.ends_with("42         12.34\t\t 512 kb     init      \n"));
}

#[test]
fn rendering_twice_is_identical() {
    let s = snapshot(8192, 4096, vec![record(5, Some(77), 2048, "daemon"), record(6, None, 3, "odd")]);
    let view = rank(&s, 10);
    assert_eq!(render(&s, &view), render(&s, &view));
}

#[test]
fn cycle_output_clears_then_draws() {
    let s = snapshot(2048, 1024, vec![record(1, Some(100), 1, "p")]);
    let config = MonitorConfig::standard();
    assert_eq!(config.interval_secs, 2);
    assert_eq!(config.max_rows, 10);
    let out = cycle_output(&s, &config);
    assert!(out.starts_with("\x1b[2J\x1b[1;1H"));
    assert!(out.ends_with(&render(&s, &rank(&s, 10))));
    assert_eq!(reset_cursor(), "\x1b[2J\x1b[1;1H");
}

#[test]
fn phases_cycle_in_order() {
    let mut p = Phase::Idle;
    let expected = [Phase::Sampling, Phase::Ranking, Phase::Rendering, Phase::Sleeping, Phase::Idle];
    for e in expected {
        p = p.next();
        assert_eq!(p, e);
    }
}
