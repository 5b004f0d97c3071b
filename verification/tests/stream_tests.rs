use gmocoin::market_stream::FrameRoute;
use gmocoin::market_stream::MarketStream;
use gmocoin::market_stream::route_frame;
use gmocoin::private_stream::PrivateEventKind;
use gmocoin::private_stream::PrivatePhase;
use gmocoin::private_stream::PrivateStep;
use gmocoin::private_stream::PrivateStream;
use gmocoin::private_stream::classify_channel;
use gmocoin::private_stream::route_private_frame;

#[test]
fn replay_is_sorted_and_deduplicated() {
    let mut s = MarketStream::new();
    s.subscribe(b"ticker".to_vec(), b"BTC_JPY".to_vec(), b"".to_vec());
    s.subscribe(b"trades".to_vec(), b"BTC_JPY".to_vec(), b"TAKER_ONLY".to_vec());
    // An identical second subscribe changes nothing.
    s.subscribe(b"ticker".to_vec(), b"BTC_JPY".to_vec(), b"".to_vec());
    let cmds = s.on_connected();
    assert_eq!(cmds.len(), 2);
    assert_eq!(
        cmds[0],
        b"{\"channel\":\"ticker\",\"command\":\"subscribe\",\"symbol\":\"BTC_JPY\"}".to_vec()
    );
    assert_eq!(
        cmds[1],
        b"{\"channel\":\"trades\",\"command\":\"subscribe\",\"option\":\"TAKER_ONLY\",\"symbol\":\"BTC_JPY\"}"
            .to_vec()
    );
}

#[test]
fn subscribe_while_connected_queues_command() {
    let mut s = MarketStream::new();
    let _ = s.on_connected();
    s.subscribe(b"ticker".to_vec(), b"ETH_JPY".to_vec(), b"".to_vec());
    let queued = s.drain_outgoing();
    assert_eq!(
        queued,
        vec![b"{\"channel\":\"ticker\",\"command\":\"subscribe\",\"symbol\":\"ETH_JPY\"}".to_vec()]
    );
    // The queue was taken; nothing is left.
    assert!(s.drain_outgoing().is_empty());
}

#[test]
fn queued_commands_replay_after_reconnect_via_set_only() {
    let mut s = MarketStream::new();
    let _ = s.on_connected();
    s.subscribe(b"ticker".to_vec(), b"BTC_JPY".to_vec(), b"".to_vec());
    let _ = s.on_disconnected();
    // The queued copy is replayed from the queue or the set, but only once.
    let cmds = s.on_connected();
    assert_eq!(cmds.len(), 1);
}

#[test]
fn backoff_doubles_and_caps_then_resets() {
    let mut s = MarketStream::new();
    let mut delays = Vec::new();
    for _ in 0..8 {
        delays.push(s.on_disconnected());
    }
    assert_eq!(delays, vec![1, 2, 4, 8, 16, 32, 64, 64]);
    let _ = s.on_connected();
    assert_eq!(s.on_disconnected(), 1);
}

#[test]
fn private_backoff_doubles_from_five_and_caps_at_sixty() {
    let mut s = PrivateStream::new();
    let mut delays = Vec::new();
    for _ in 0..6 {
        delays.push(s.on_token_failure());
    }
    assert_eq!(delays, vec![5, 10, 20, 40, 60, 60]);
    let _ = s.on_connected(b"tok".to_vec(), 0);
    assert_eq!(s.on_stream_end(), 5);
}

#[test]
fn connect_subscribes_four_channels_in_order() {
    let mut s = PrivateStream::new();
    let cmds = s.on_connected(b"tok".to_vec(), 0);
    assert_eq!(
        cmds,
        vec![
            b"{\"channel\":\"executionEvents\",\"command\":\"subscribe\"}".to_vec(),
            b"{\"channel\":\"orderEvents\",\"command\":\"subscribe\"}".to_vec(),
            b"{\"channel\":\"positionEvents\",\"command\":\"subscribe\"}".to_vec(),
            b"{\"channel\":\"positionSummaryEvents\",\"command\":\"subscribe\"}".to_vec(),
        ]
    );
}

#[test]
fn renewal_due_only_after_interval() {
    let mut s = PrivateStream::new();
    let _ = s.on_connected(b"tok".to_vec(), 1_000);
    assert!(matches!(s.next_step(1_000 + 899_999), PrivateStep::AwaitFrame));
    match s.next_step(1_000 + 900_000) {
        PrivateStep::RenewToken { token } => assert_eq!(token, b"tok".to_vec()),
        _ => panic!("renewal not issued at the interval"),
    }
    // A successful renewal restarts the interval.
    s.on_renewed(2_000_000);
    assert!(matches!(s.next_step(2_000_000 + 899_999), PrivateStep::AwaitFrame));
}

#[test]
fn renewal_failure_forces_fresh_acquisition() {
    let mut s = PrivateStream::new();
    let _ = s.on_connected(b"tok".to_vec(), 0);
    // The renewal PUT failed: the connection is over and the token is
    // discarded; the next cycle starts with a fresh token acquisition.
    let _ = s.on_stream_end();
    assert!(matches!(s.phase, PrivatePhase::Idle));
    assert!(matches!(s.next_step(0), PrivateStep::AcquireToken));
}

#[test]
fn shutdown_wins_everywhere() {
    let mut m = MarketStream::new();
    assert!(!m.should_stop());
    m.request_shutdown();
    assert!(m.should_stop());

    let mut p = PrivateStream::new();
    let _ = p.on_connected(b"tok".to_vec(), 0);
    p.request_shutdown();
    assert!(matches!(p.next_step(2_000_000), PrivateStep::Stop));
}

#[test]
fn shutdown_can_be_cleared_for_reconnect() {
    // The subscription set survives a disconnect/connect cycle.
    let mut m = MarketStream::new();
    m.subscribe(b"ticker".to_vec(), b"BTC_JPY".to_vec(), b"".to_vec());
    m.request_shutdown();
    assert!(m.should_stop());
    m.clear_shutdown();
    assert!(!m.should_stop());
    let cmds = m.on_connected();
    assert_eq!(cmds.len(), 1);

    let mut p = PrivateStream::new();
    p.request_shutdown();
    assert!(matches!(p.next_step(0), PrivateStep::Stop));
    p.clear_shutdown();
    assert!(matches!(p.next_step(0), PrivateStep::AcquireToken));
}

#[test]
fn private_frames_with_error_are_dropped() {
    assert_eq!(route_private_frame(true, b"orderEvents"), None);
    assert_eq!(
        route_private_frame(false, b"orderEvents"),
        Some(PrivateEventKind::OrderUpdate)
    );
    assert_eq!(
        route_private_frame(false, b"whatever"),
        Some(PrivateEventKind::Unknown)
    );
}

#[test]
fn frames_route_by_channel() {
    assert_eq!(route_frame(false, b"ticker"), FrameRoute::Ticker);
    assert_eq!(route_frame(false, b"orderbooks"), FrameRoute::OrderBooks);
    assert_eq!(route_frame(false, b"trades"), FrameRoute::Trades);
    assert_eq!(route_frame(false, b"klines"), FrameRoute::Dropped);
    assert_eq!(route_frame(false, b""), FrameRoute::Dropped);
    // An explicit error field drops the frame whatever its channel.
    assert_eq!(route_frame(true, b"ticker"), FrameRoute::Dropped);
}

#[test]
fn private_channels_classify() {
    assert_eq!(classify_channel(b"executionEvents"), PrivateEventKind::ExecutionUpdate);
    assert_eq!(classify_channel(b"orderEvents"), PrivateEventKind::OrderUpdate);
    assert_eq!(classify_channel(b"positionEvents"), PrivateEventKind::PositionUpdate);
    assert_eq!(
        classify_channel(b"positionSummaryEvents"),
        PrivateEventKind::PositionSummaryUpdate
    );
    assert_eq!(classify_channel(b"somethingElse"), PrivateEventKind::Unknown);
    assert_eq!(classify_channel(b"orderEvents").label(), "OrderUpdate");
    assert_eq!(classify_channel(b"nope").label(), "Unknown");
}
