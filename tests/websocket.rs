use hardwave_bridge::protocol::{AudioPacket, NUM_BANDS};
use hardwave_bridge::websocket::{
    port_from_setting, ConnectionState, Outbox, Supervisor, HEARTBEAT_INTERVAL_MS,
    LANE_CAPACITY, MAX_BACKOFF_MS,
};

#[test]
fn three_failures_back_off_by_doubling() {
    let mut s = Supervisor::new();
    assert_eq!(s.state(), ConnectionState::Disconnected);
    let mut waits = Vec::new();
    for _ in 0..3 {
        s.begin_attempt();
        assert_eq!(s.state(), ConnectionState::Connecting);
        waits.push(s.connect_failed());
        assert_eq!(s.state(), ConnectionState::Disconnected);
    }
    assert_eq!(waits, vec![100, 200, 400]);
}

#[test]
fn success_resets_backoff() {
    let mut s = Supervisor::new();
    for _ in 0..4 {
        s.begin_attempt();
        s.connect_failed();
    }
    s.begin_attempt();
    s.connect_succeeded();
    assert_eq!(s.state(), ConnectionState::Connected);
    assert!(s.state().is_connected());
    assert_eq!(s.session_ended(), 100);
    assert_eq!(s.state(), ConnectionState::Disconnected);
    s.begin_attempt();
    assert_eq!(s.connect_failed(), 100);
    s.begin_attempt();
    assert_eq!(s.connect_failed(), 200);
}

#[test]
fn backoff_is_capped() {
    let mut s = Supervisor::new();
    let mut last = 0;
    for _ in 0..10 {
        s.begin_attempt();
        last = s.connect_failed();
    }
    assert_eq!(last, MAX_BACKOFF_MS);
    s.begin_attempt();
    assert_eq!(s.connect_failed(), 5000);
}

#[test]
fn heartbeat_when_idle_for_an_interval() {
    let mut out = Outbox::new(0);
    assert_eq!(out.next_message(None, 10), None);
    assert_eq!(out.next_message(None, 999), None);
    let hb = out.next_message(None, HEARTBEAT_INTERVAL_MS).unwrap();
    assert_eq!(hb, AudioPacket::new_heartbeat(0, 0).to_bytes());
    assert_eq!(out.next_message(None, 1500), None);
    assert!(out.next_message(None, 2000).is_some());
    assert!(out.next_message(None, 3003).is_some());
}

#[test]
fn payload_suppresses_heartbeat() {
    let mut out = Outbox::new(0);
    let p = AudioPacket::new_fft(48000, 5, [1; NUM_BANDS], [2; NUM_BANDS], 3, 4, 5, 6);
    for t in [900u64, 1800, 2700] {
        assert_eq!(out.next_message(Some(p), t), Some(p.to_bytes()));
        assert_eq!(out.next_message(None, t + 999), None);
    }
    let hb = out.next_message(None, 3700).unwrap();
    assert_eq!(AudioPacket::from_bytes(&hb).unwrap(), AudioPacket::new_heartbeat(0, 0));
}

#[test]
fn port_setting_is_held_to_range() {
    assert_eq!(port_from_setting(9847), 9847);
    assert_eq!(port_from_setting(80), 1024);
    assert_eq!(port_from_setting(-5), 1024);
    assert_eq!(port_from_setting(70000), 65535);
    assert_eq!(port_from_setting(65535), 65535);
}

#[test]
fn flooded_lane_keeps_its_capacity() {
    let (tx, rx) = crossbeam_channel::bounded::<AudioPacket>(LANE_CAPACITY);
    for i in 0..40u64 {
        let _ = tx.try_send(AudioPacket::new_heartbeat(0, i));
    }
    assert_eq!(rx.len(), 32);
    let kept: Vec<u64> = rx.try_iter().map(|p| p.timestamp_ms).collect();
    assert_eq!(kept, (0..32).collect::<Vec<u64>>());
}
