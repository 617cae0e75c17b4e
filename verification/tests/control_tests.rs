use scrcpy_custom::control::bitrate::BitrateController;
use scrcpy_custom::network::protocol::ControlMessage;
use scrcpy_custom::network::NetworkStats;

fn stats(rtt_ms: u64, packet_loss_milli: u64) -> NetworkStats {
    NetworkStats { rtt_ms, packet_loss_milli, ..Default::default() }
}

fn announced(msg: Option<ControlMessage>) -> Option<u32> {
    match msg {
        Some(ControlMessage::SetBitrate(b)) => Some(b),
        Some(_) => panic!("only bitrate messages are announced"),
        None => None,
    }
}

#[test]
fn test_bitrate_adjustment() {
    let mut controller = BitrateController::new(8, 2, 20);

    // Good network - should increase
    let good_stats = NetworkStats {
        rtt_ms: 50,
        packet_loss_milli: 100,
        bandwidth_kbps: 20_000,
        ..Default::default()
    };

    let msg = controller.update_at(&good_stats, 1100);
    assert!(msg.is_some());
    assert_eq!(controller.current_bitrate(), 9);

    // Poor network - should decrease
    let poor_stats = NetworkStats {
        rtt_ms: 300,
        packet_loss_milli: 5000,
        bandwidth_kbps: 5_000,
        ..Default::default()
    };

    let msg = controller.update_at(&poor_stats, 2200);
    assert!(msg.is_some());
    assert!(controller.current_bitrate() < 9);
}

#[test]
fn aimd_under_poor_network() {
    let mut controller = BitrateController::new(8, 2, 20);
    let poor = stats(300, 5000);
    assert_eq!(announced(controller.update_at(&poor, 0)), None);
    assert_eq!(controller.current_bitrate(), 8);
    assert_eq!(announced(controller.update_at(&poor, 1100)), Some(6));
    assert_eq!(controller.current_bitrate(), 6);
    let good = stats(50, 100);
    assert_eq!(good.quality_score(), 932_000);
    assert_eq!(announced(controller.update_at(&good, 2200)), Some(7));
    assert_eq!(controller.current_bitrate(), 7);
}

#[test]
fn one_adjustment_per_interval() {
    let mut controller = BitrateController::new(8, 2, 20);
    let poor = stats(300, 0);
    assert_eq!(announced(controller.update_at(&poor, 999)), None);
    assert_eq!(announced(controller.update_at(&poor, 1000)), Some(6));
    assert_eq!(announced(controller.update_at(&poor, 1999)), None);
    assert_eq!(announced(controller.update_at(&poor, 2000)), Some(4));
    assert_eq!(announced(controller.update_at(&poor, 3000)), Some(3));
    assert_eq!(announced(controller.update_at(&poor, 4000)), Some(2));
    // At the minimum nothing changes and nothing is announced.
    assert_eq!(announced(controller.update_at(&poor, 5000)), None);
    assert_eq!(controller.current_bitrate(), 2);
    // A clock that runs backwards adjusts nothing.
    assert_eq!(announced(controller.update_at(&stats(0, 0), 10)), None);
}

#[test]
fn increase_stops_at_the_maximum_and_mediocre_quality_holds() {
    let mut controller = BitrateController::new(19, 2, 20);
    let good = stats(0, 0);
    assert_eq!(announced(controller.update_at(&good, 1000)), Some(20));
    assert_eq!(announced(controller.update_at(&good, 2000)), None);
    // rtt 200 and loss 2 % are not over the thresholds; quality is 0.6.
    let mediocre = stats(200, 2000);
    assert_eq!(mediocre.quality_score(), 600_000);
    assert_eq!(announced(controller.update_at(&mediocre, 3000)), None);
    assert_eq!(controller.current_bitrate(), 20);
    // Quality of exactly 0.8 is not above it.
    let edge = stats(100, 1000);
    assert_eq!(edge.quality_score(), 800_000);
    let mut controller = BitrateController::new(5, 2, 20);
    assert_eq!(announced(controller.update_at(&edge, 1000)), None);
    assert_eq!(announced(controller.update_at(&stats(100, 999), 1000)), Some(6));
}

#[test]
fn update_reads_the_clock() {
    let mut controller = BitrateController::new(8, 2, 20);
    // Right after creation the interval has not passed.
    assert_eq!(announced(controller.update(&stats(300, 5000))), None);
    assert_eq!(controller.current_bitrate(), 8);
}

#[test]
fn set_bitrate_clamps() {
    let mut controller = BitrateController::new(8, 2, 20);
    assert_eq!(announced(controller.set_bitrate(50)), Some(20));
    assert_eq!(announced(controller.set_bitrate(20)), None);
    assert_eq!(announced(controller.set_bitrate(0)), Some(2));
    assert_eq!(announced(controller.set_bitrate(7)), Some(7));
    assert_eq!(controller.current_bitrate(), 7);
}

#[test]
fn quality_score_bounds() {
    assert_eq!(stats(0, 0).quality_score(), 1_000_000);
    assert_eq!(stats(500, 5000).quality_score(), 0);
    assert_eq!(stats(u64::MAX, u64::MAX).quality_score(), 0);
    assert_eq!(stats(250, 2500).quality_score(), 500_000);
    assert_eq!(stats(0, 5000).quality_score(), 600_000);
    assert_eq!(stats(500, 0).quality_score(), 400_000);
    assert_eq!(stats(300, 5000).quality_score(), 240_000);
}
