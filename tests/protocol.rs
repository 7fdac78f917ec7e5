use lights_out::command::{off_tasks, summarize_off, OffTask};
use lights_out::daemon::{daemon_step, initial_phase, sample_report, DaemonAction, DaemonPhase, SUBINTERVALS};
use lights_out::gpu::{disable_writes, SmbusWrite};
use lights_out::lianli::{find_hub, hub_after_write, hub_packet_at, packet_kind, HubNext, HubPacketKind};
use lights_out::sensor::SensorError;
use lights_out::swap_bytes;

#[test]
fn swap_bytes_exchanges_bytes() {
    assert_eq!(swap_bytes(0x8021), 0x2180);
    assert_eq!(swap_bytes(0x80A0), 0xA080);
    assert_eq!(swap_bytes(0x00FF), 0xFF00);
    assert_eq!(swap_bytes(0x1234), 0x3412);
}

#[test]
fn gpu_disable_sequence() {
    assert_eq!(
        disable_writes(),
        vec![
            SmbusWrite::Word { command: 0, value: 0x2180 },
            SmbusWrite::Byte { command: 1, value: 0 },
            SmbusWrite::Word { command: 0, value: 0xA080 },
            SmbusWrite::Byte { command: 1, value: 1 },
        ]
    );
}

/// Runs the hub sequence against outcomes `ok(pos)` and returns the positions sent
/// and whether it finished.
fn run_hub(ok: impl Fn(u8) -> bool) -> (Vec<u8>, bool) {
    let mut sent = Vec::new();
    let mut pos = 0u8;
    loop {
        sent.push(pos);
        match hub_after_write(pos, ok(pos)) {
            HubNext::Send(p) => pos = p,
            HubNext::Done => return (sent, true),
            HubNext::Abort => return (sent, false),
        }
    }
}

#[test]
fn hub_packets_per_channel() {
    for ch in 0..4u8 {
        let kinds: Vec<HubPacketKind> = (0..4).map(|k| packet_kind(4 * ch + k)).collect();
        assert_eq!(
            kinds,
            vec![HubPacketKind::ColorFan, HubPacketKind::ColorEdge, HubPacketKind::CommitFan, HubPacketKind::CommitEdge]
        );
        let color_fan = hub_packet_at(4 * ch);
        let color_edge = hub_packet_at(4 * ch + 1);
        let commit_fan = hub_packet_at(4 * ch + 2);
        let commit_edge = hub_packet_at(4 * ch + 3);
        assert_eq!(color_fan.len(), 146);
        assert_eq!(color_edge.len(), 146);
        assert_eq!(&color_fan[..2], &[0xe0, 0x30 + 2 * ch]);
        assert_eq!(&color_edge[..2], &[0xe0, 0x31 + 2 * ch]);
        assert!(color_fan[2..].iter().all(|&b| b == 0));
        assert_eq!(commit_fan.len(), 65);
        assert_eq!(&commit_fan[..6], &[0xe0, 0x10 + 2 * ch, 0x01, 0x02, 0x00, 0x08]);
        assert_eq!(&commit_edge[..6], &[0xe0, 0x11 + 2 * ch, 0x01, 0x02, 0x00, 0x08]);
        assert!(commit_edge[6..].iter().all(|&b| b == 0));
    }
}

#[test]
fn hub_sequence_sends_sixteen_packets() {
    let (sent, done) = run_hub(|_| true);
    assert!(done);
    assert_eq!(sent, (0..16).collect::<Vec<u8>>());
}

#[test]
fn hub_color_failure_does_not_stop_commits() {
    let (sent, done) = run_hub(|p| p % 4 >= 2);
    assert!(done);
    assert_eq!(sent.len(), 16);
    let (sent, done) = run_hub(|p| p != 5);
    assert!(done);
    assert_eq!(sent, (0..16).collect::<Vec<u8>>());
}

#[test]
fn hub_commit_failure_aborts() {
    let (sent, done) = run_hub(|p| p != 6);
    assert!(!done);
    assert_eq!(sent, (0..7).collect::<Vec<u8>>());
    let (sent, done) = run_hub(|p| p != 3);
    assert!(!done);
    assert_eq!(sent, vec![0, 1, 2, 3]);
}

#[test]
fn hub_is_found_by_ids() {
    let devices = vec![(0x046d, 0xc52b), (0x0cf2, 0xa103), (0x0cf2, 0xa104), (0x0cf2, 0xa104)];
    assert_eq!(find_hub(&devices), Some(2));
    assert_eq!(find_hub(&devices[..2].to_vec()), None);
}

#[test]
fn daemon_cycle_and_cancellation() {
    let mut phase = initial_phase();
    let (next, action) = daemon_step(phase, false);
    assert_eq!(action, DaemonAction::Sample);
    phase = next;
    for _ in 0..SUBINTERVALS {
        let (next, action) = daemon_step(phase, false);
        assert_eq!(action, DaemonAction::Sleep);
        phase = next;
    }
    let (next, action) = daemon_step(phase, false);
    assert_eq!(action, DaemonAction::Sample);
    phase = next;
    let (next, _) = daemon_step(phase, false);
    phase = next;
    assert_eq!(phase, DaemonPhase::Wait(1));
    let (next, action) = daemon_step(phase, true);
    assert_eq!(action, DaemonAction::Exit);
    assert_eq!(next, DaemonPhase::Stopped);
    assert_eq!(daemon_step(next, false), (DaemonPhase::Stopped, DaemonAction::Exit));
    assert_eq!(daemon_step(DaemonPhase::Sample, true).1, DaemonAction::Exit);
}

#[test]
fn daemon_sample_report() {
    let (t, buf) = sample_report(b"52125\n").unwrap();
    assert_eq!(t, 52);
    assert_eq!(&buf[..6], &[0xD0, 0x85, 0xB8, 0x0B, 52, 0]);
    assert_eq!(sample_report(b"n/a"), Err(SensorError::Malformed));
}

#[test]
fn off_with_missing_hub_is_partial_success() {
    let tasks = off_tasks();
    assert_eq!(
        tasks,
        vec![OffTask::CoolerLights, OffTask::HubLights, OffTask::GpuLights, OffTask::CoolerFanSilent]
    );
    let outcomes: Vec<bool> = tasks.iter().map(|t| *t != OffTask::HubLights).collect();
    let summary = summarize_off(&outcomes);
    assert_eq!(summary.attempted, 4);
    assert_eq!(summary.succeeded, 3);
    assert!(summary.is_partial());
    let none = summarize_off(&vec![false, false, false, false]);
    assert_eq!(none.succeeded, 0);
    assert!(!none.is_partial());
    assert!(!summarize_off(&vec![true; 4]).is_partial());
}
