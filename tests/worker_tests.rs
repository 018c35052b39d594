use sysmon::config::{MonitorCommand, MonitorConfig};
use sysmon::worker::{AfterPublish, Poll, Step, WorkerState};

#[test]
fn default_config() {
    let c = MonitorConfig::default();
    assert_eq!(c.update_interval_ms, 1000);
    assert_eq!(c.process_limit, 50);
}

#[test]
fn empty_queue_samples_and_sleeps_for_interval() {
    let mut w = WorkerState::new(MonitorConfig::default());
    assert!(w.is_running());
    assert_eq!(w.on_poll(Poll::Empty), Step::Sample);
    assert_eq!(w.on_publish(true), AfterPublish::Sleep(1000));
    assert!(w.is_running());
}

#[test]
fn shutdown_stops_before_sampling() {
    let mut w = WorkerState::new(MonitorConfig::default());
    assert_eq!(w.on_poll(Poll::Received(MonitorCommand::Shutdown)), Step::Stop);
    assert!(!w.is_running());
    assert_eq!(w.on_poll(Poll::Empty), Step::Stop);
    assert_eq!(w.on_poll(Poll::Received(MonitorCommand::SetInterval(10))), Step::Stop);
    assert_eq!(w.on_publish(true), AfterPublish::Stop);
    assert!(!w.is_running());
}

#[test]
fn later_interval_wins() {
    let mut w = WorkerState::new(MonitorConfig::default());
    assert_eq!(w.on_poll(Poll::Received(MonitorCommand::SetInterval(500))), Step::Sample);
    assert_eq!(w.on_poll(Poll::Received(MonitorCommand::SetInterval(2000))), Step::Sample);
    assert_eq!(w.on_publish(true), AfterPublish::Sleep(2000));
    assert_eq!(w.interval_ms(), 2000);
}

#[test]
fn set_interval_takes_effect_at_next_sleep() {
    let mut w = WorkerState::new(MonitorConfig { update_interval_ms: 250, process_limit: 5 });
    assert_eq!(w.on_poll(Poll::Empty), Step::Sample);
    assert_eq!(w.on_publish(true), AfterPublish::Sleep(250));
    assert_eq!(w.on_poll(Poll::Received(MonitorCommand::SetInterval(750))), Step::Sample);
    assert_eq!(w.on_publish(true), AfterPublish::Sleep(750));
}

#[test]
fn disconnected_controller_stops() {
    let mut w = WorkerState::new(MonitorConfig::default());
    assert_eq!(w.on_poll(Poll::Disconnected), Step::Stop);
    assert!(!w.is_running());
}

#[test]
fn lost_consumer_stops() {
    let mut w = WorkerState::new(MonitorConfig::default());
    assert_eq!(w.on_poll(Poll::Empty), Step::Sample);
    assert_eq!(w.on_publish(false), AfterPublish::Stop);
    assert!(!w.is_running());
    assert_eq!(w.on_poll(Poll::Empty), Step::Stop);
}
