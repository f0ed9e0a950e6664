use stock_alert::session::{monitor_step, MonitorAction, MonitorEvent, MonitorPhase};

#[test]
fn no_positions_waits_for_close() {
    let r = monitor_step(MonitorPhase::Idle, false, MonitorEvent::PositionsLoaded { count: 0 });
    assert_eq!(r, (MonitorPhase::Idle, MonitorAction::WaitForClose));
}

#[test]
fn a_session_from_load_to_close() {
    let (p, a) = monitor_step(MonitorPhase::Idle, false, MonitorEvent::PositionsLoaded { count: 2 });
    assert_eq!((p, a), (MonitorPhase::WaitingForOpen, MonitorAction::CheckTradingHours));
    let (p, a) = monitor_step(p, false, MonitorEvent::TradingAnswer { open: false });
    assert_eq!((p, a), (MonitorPhase::WaitingForOpen, MonitorAction::SleepThenCheck));
    let (p, a) = monitor_step(p, false, MonitorEvent::TradingAnswer { open: true });
    assert_eq!((p, a), (MonitorPhase::Monitoring, MonitorAction::Subscribe));
    let (p, a) = monitor_step(p, false, MonitorEvent::QuoteReceived);
    assert_eq!((p, a), (MonitorPhase::Monitoring, MonitorAction::HandleQuote));
    let (p, a) = monitor_step(p, false, MonitorEvent::Tick { open: true });
    assert_eq!((p, a), (MonitorPhase::Monitoring, MonitorAction::Continue));
    let (p, a) = monitor_step(p, false, MonitorEvent::Tick { open: false });
    assert_eq!((p, a), (MonitorPhase::Idle, MonitorAction::WriteBackAndWaitForClose));
}

#[test]
fn playback_ignores_trading_hours() {
    let r = monitor_step(MonitorPhase::WaitingForOpen, true, MonitorEvent::TradingAnswer { open: false });
    assert_eq!(r, (MonitorPhase::Monitoring, MonitorAction::Subscribe));
    let r = monitor_step(MonitorPhase::Monitoring, true, MonitorEvent::Tick { open: false });
    assert_eq!(r, (MonitorPhase::Monitoring, MonitorAction::Continue));
}

#[test]
fn closed_channel_ends_monitoring() {
    let r = monitor_step(MonitorPhase::Monitoring, true, MonitorEvent::ChannelClosed);
    assert_eq!(r, (MonitorPhase::Idle, MonitorAction::WriteBackAndWaitForClose));
}

#[test]
fn events_out_of_phase_change_nothing() {
    let r = monitor_step(MonitorPhase::Idle, false, MonitorEvent::QuoteReceived);
    assert_eq!(r, (MonitorPhase::Idle, MonitorAction::Continue));
    let r = monitor_step(MonitorPhase::WaitingForOpen, false, MonitorEvent::PositionsLoaded { count: 1 });
    assert_eq!(r, (MonitorPhase::WaitingForOpen, MonitorAction::Continue));
}
