//! The monitoring cycle: positions are watched only during trading hours
//! (always, when quotes are played back from a file). A step function takes
//! the current phase and what just happened, and gives the next phase and
//! what to do; the caller does it and reports the next event.
use vstd::prelude::*;

verus! {

/// Where the monitoring cycle stands.
#[derive(Debug, Clone, Copy, PartialEq, Eq, Structural)]
pub enum MonitorPhase {
    /// Between sessions: the positions are to be loaded.
    Idle,
    /// Positions are loaded; waiting for the market to open.
    WaitingForOpen,
    /// Subscribed; quotes are being handled.
    Monitoring,
}

/// What happened.
#[derive(Debug, Clone, Copy, PartialEq, Eq, Structural)]
pub enum MonitorEvent {
    /// The positions were loaded; there are `count` of them.
    PositionsLoaded { count: u64 },
    /// The trading-hours answer asked for while waiting.
    TradingAnswer { open: bool },
    /// A quote arrived.
    QuoteReceived,
    /// The quote channel closed.
    ChannelClosed,
    /// A minute passed without the channel closing; `open` is the
    /// trading-hours answer then.
    Tick { open: bool },
}

/// What to do next.
#[derive(Debug, Clone, Copy, PartialEq, Eq, Structural)]
pub enum MonitorAction {
    /// Wait until the session is over, then load the positions again.
    WaitForClose,
    /// Ask whether the market is open now.
    CheckTradingHours,
    /// Sleep 10 seconds, then ask again whether the market is open.
    SleepThenCheck,
    /// Subscribe to the quotes of the loaded positions.
    Subscribe,
    /// Hand the quote to the position book.
    HandleQuote,
    /// Nothing; wait for the next event.
    Continue,
    /// Write the positions back, wait until the session is over, then load
    /// the positions again.
    WriteBackAndWaitForClose,
}

/// The next phase and action:
/// - no positions loaded: stay idle and wait for the session's end;
/// - positions loaded: wait for the market to open, asking now;
/// - while waiting, an open market (or playback from a file) starts
///   monitoring with a subscription, a closed one asks again in 10 s;
/// - while monitoring, a quote is handled; a closed channel, or a minute's
///   tick that finds the market closed (unless playing back from a file),
///   ends monitoring: write back and wait for the session's end;
/// - any other event changes nothing.
pub open spec fn monitor_next(phase: MonitorPhase, is_test: bool, event: MonitorEvent) -> (
    MonitorPhase,
    MonitorAction,
) {
    match (phase, event) {
        (MonitorPhase::Idle, MonitorEvent::PositionsLoaded { count }) => if count == 0 {
            (MonitorPhase::Idle, MonitorAction::WaitForClose)
        } else {
            (MonitorPhase::WaitingForOpen, MonitorAction::CheckTradingHours)
        },
        (MonitorPhase::WaitingForOpen, MonitorEvent::TradingAnswer { open }) => if open || is_test {
            (MonitorPhase::Monitoring, MonitorAction::Subscribe)
        } else {
            (MonitorPhase::WaitingForOpen, MonitorAction::SleepThenCheck)
        },
        (MonitorPhase::Monitoring, MonitorEvent::QuoteReceived) => (
            MonitorPhase::Monitoring,
            MonitorAction::HandleQuote,
        ),
        (MonitorPhase::Monitoring, MonitorEvent::ChannelClosed) => (
            MonitorPhase::Idle,
            MonitorAction::WriteBackAndWaitForClose,
        ),
        (MonitorPhase::Monitoring, MonitorEvent::Tick { open }) => if !open && !is_test {
            (MonitorPhase::Idle, MonitorAction::WriteBackAndWaitForClose)
        } else {
            (MonitorPhase::Monitoring, MonitorAction::Continue)
        },
        _ => (phase, MonitorAction::Continue),
    }
}

/// Takes one step of the monitoring cycle (see `monitor_next`).
pub fn monitor_step(phase: MonitorPhase, is_test: bool, event: MonitorEvent) -> (r: (
    MonitorPhase,
    MonitorAction,
))
    ensures
        r == monitor_next(phase, is_test, event),
{
    match (phase, event) {
        (MonitorPhase::Idle, MonitorEvent::PositionsLoaded { count }) => if count == 0 {
            (MonitorPhase::Idle, MonitorAction::WaitForClose)
        } else {
            (MonitorPhase::WaitingForOpen, MonitorAction::CheckTradingHours)
        },
        (MonitorPhase::WaitingForOpen, MonitorEvent::TradingAnswer { open }) => if open || is_test {
            (MonitorPhase::Monitoring, MonitorAction::Subscribe)
        } else {
            (MonitorPhase::WaitingForOpen, MonitorAction::SleepThenCheck)
        },
        (MonitorPhase::Monitoring, MonitorEvent::QuoteReceived) => (
            MonitorPhase::Monitoring,
            MonitorAction::HandleQuote,
        ),
        (MonitorPhase::Monitoring, MonitorEvent::ChannelClosed) => (
            MonitorPhase::Idle,
            MonitorAction::WriteBackAndWaitForClose,
        ),
        (MonitorPhase::Monitoring, MonitorEvent::Tick { open }) => if !open && !is_test {
            (MonitorPhase::Idle, MonitorAction::WriteBackAndWaitForClose)
        } else {
            (MonitorPhase::Monitoring, MonitorAction::Continue)
        },
        _ => (phase, MonitorAction::Continue),
    }
}

/// Outside playback from a file, monitoring only runs during trading
/// hours: a subscription only follows an answer that the market is open,
/// and a tick that finds it closed ends monitoring with a write-back.
pub proof fn law_monitors_only_in_session(phase: MonitorPhase, event: MonitorEvent)
    ensures
        monitor_next(phase, false, event).1 is Subscribe ==> phase is WaitingForOpen && event
            == (MonitorEvent::TradingAnswer { open: true }),
        phase is Monitoring && event == (MonitorEvent::Tick { open: false }) ==> monitor_next(
            phase,
            false,
            event,
        ) == (MonitorPhase::Idle, MonitorAction::WriteBackAndWaitForClose),
{
}

/// Quotes are only handled while monitoring, and monitoring is only
/// entered with a subscription.
pub proof fn law_quotes_only_while_monitoring(phase: MonitorPhase, is_test: bool, event: MonitorEvent)
    ensures
        monitor_next(phase, is_test, event).1 is HandleQuote ==> phase is Monitoring,
        !(phase is Monitoring) && monitor_next(phase, is_test, event).0 is Monitoring
            ==> monitor_next(phase, is_test, event).1 is Subscribe,
{
}

/// A closed quote channel always ends monitoring, for a live stream and
/// for playback alike: the positions are written back and the cycle waits
/// for the session's end.
pub proof fn law_closed_channel_ends_monitoring(is_test: bool)
    ensures
        monitor_next(MonitorPhase::Monitoring, is_test, MonitorEvent::ChannelClosed) == (
            MonitorPhase::Idle,
            MonitorAction::WriteBackAndWaitForClose,
        ),
{
}

/// While monitoring, every quote is handled and monitoring goes on; a
/// tick that finds the market open never ends it.
pub proof fn law_monitoring_goes_on(is_test: bool)
    ensures
        monitor_next(MonitorPhase::Monitoring, is_test, MonitorEvent::QuoteReceived) == (
            MonitorPhase::Monitoring,
            MonitorAction::HandleQuote,
        ),
        monitor_next(MonitorPhase::Monitoring, is_test, MonitorEvent::Tick { open: true }).0
            is Monitoring,
        monitor_next(MonitorPhase::Monitoring, true, MonitorEvent::Tick { open: false }).0
            is Monitoring,
{
}

/// Loading positions: none means nothing to watch until the session's end;
/// some means asking whether the market is open, and an open market (or
/// playback) then starts monitoring with a subscription.
pub proof fn law_loaded_positions_lead_to_monitoring(is_test: bool, count: u64)
    ensures
        count == 0 ==> monitor_next(MonitorPhase::Idle, is_test, MonitorEvent::PositionsLoaded { count })
            == (MonitorPhase::Idle, MonitorAction::WaitForClose),
        count > 0 ==> monitor_next(MonitorPhase::Idle, is_test, MonitorEvent::PositionsLoaded { count })
            == (MonitorPhase::WaitingForOpen, MonitorAction::CheckTradingHours),
        monitor_next(MonitorPhase::WaitingForOpen, is_test, MonitorEvent::TradingAnswer { open: true })
            == (MonitorPhase::Monitoring, MonitorAction::Subscribe),
        monitor_next(MonitorPhase::WaitingForOpen, true, MonitorEvent::TradingAnswer { open: false })
            == (MonitorPhase::Monitoring, MonitorAction::Subscribe),
        monitor_next(MonitorPhase::WaitingForOpen, false, MonitorEvent::TradingAnswer { open: false })
            == (MonitorPhase::WaitingForOpen, MonitorAction::SleepThenCheck),
{
}

} // verus!
