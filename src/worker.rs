use vstd::prelude::*;

use crate::config::{MonitorCommand, MonitorConfig};

verus! {

/// What a non-blocking look at the command queue found.
#[derive(PartialEq, Eq, Structural, Clone, Copy, Debug)]
pub enum Poll {
    Received(MonitorCommand),
    Empty,
    /// The controller is gone.
    Disconnected,
}

/// What the worker does after looking at the command queue.
#[derive(PartialEq, Eq, Structural, Clone, Copy, Debug)]
pub enum Step {
    /// Take one snapshot and publish it.
    Sample,
    /// Leave the loop.
    Stop,
}

/// What the worker does after trying to publish a snapshot.
#[derive(PartialEq, Eq, Structural, Clone, Copy, Debug)]
pub enum AfterPublish {
    /// Sleep this many milliseconds, then start the next tick.
    Sleep(u64),
    /// Leave the loop.
    Stop,
}

/// The decisions of the sampling loop: its configuration and liveness.
pub struct WorkerState {
    pub config: MonitorConfig,
    pub running: bool,
}

/// The abstract state of the worker: (interval in ms, process limit, running).
pub struct WorkerModel {
    pub interval_ms: u64,
    pub process_limit: usize,
    pub running: bool,
}

impl View for WorkerState {
    type V = WorkerModel;

    open spec fn view(&self) -> WorkerModel {
        WorkerModel {
            interval_ms: self.config.update_interval_ms,
            process_limit: self.config.process_limit,
            running: self.running,
        }
    }
}

/// The state of a worker just started with `config`.
pub open spec fn started(config: MonitorConfig) -> WorkerModel {
    WorkerModel {
        interval_ms: config.update_interval_ms,
        process_limit: config.process_limit,
        running: true,
    }
}

/// The state and step that follow a look at the command queue.
pub open spec fn poll_next(s: WorkerModel, p: Poll) -> (WorkerModel, Step) {
    if !s.running {
        (s, Step::Stop)
    } else {
        match p {
            Poll::Received(MonitorCommand::SetInterval(v)) => (
                WorkerModel { interval_ms: v, ..s },
                Step::Sample,
            ),
            Poll::Received(MonitorCommand::Shutdown) => (
                WorkerModel { running: false, ..s },
                Step::Stop,
            ),
            Poll::Empty => (s, Step::Sample),
            Poll::Disconnected => (WorkerModel { running: false, ..s }, Step::Stop),
        }
    }
}

/// The state and action that follow an attempt to publish a snapshot.
pub open spec fn publish_next(s: WorkerModel, delivered: bool) -> (WorkerModel, AfterPublish) {
    if s.running && delivered {
        (s, AfterPublish::Sleep(s.interval_ms))
    } else {
        (WorkerModel { running: false, ..s }, AfterPublish::Stop)
    }
}

/// The state after a run of looks at the command queue.
pub open spec fn after_polls(s: WorkerModel, ps: Seq<Poll>) -> WorkerModel
    decreases ps.len(),
{
    if ps.len() == 0 {
        s
    } else {
        let (t, _) = poll_next(after_polls(s, ps.drop_last()), ps.last());
        t
    }
}

impl WorkerState {
    /// A running worker with the given configuration.
    pub fn new(config: MonitorConfig) -> (r: Self)
        ensures
            r.config == config,
            r.running,
            r@ == started(config),
    {
        WorkerState { config, running: true }
    }

    pub fn is_running(&self) -> (r: bool)
        ensures
            r == self.running,
    {
        self.running
    }

    pub fn interval_ms(&self) -> (r: u64)
        ensures
            r == self.config.update_interval_ms,
    {
        self.config.update_interval_ms
    }

    /// Applies what the command queue held at the start of a tick.
    pub fn on_poll(&mut self, p: Poll) -> (r: Step)
        ensures
            (final(self)@, r) == poll_next(old(self)@, p),
    {
        if !self.running {
            return Step::Stop;
        }
        match p {
            Poll::Received(MonitorCommand::SetInterval(v)) => {
                self.config.update_interval_ms = v;
                Step::Sample
            },
            Poll::Received(MonitorCommand::Shutdown) => {
                self.running = false;
                Step::Stop
            },
            Poll::Empty => Step::Sample,
            Poll::Disconnected => {
                self.running = false;
                Step::Stop
            },
        }
    }

    /// Applies the outcome of publishing a snapshot: sleep for the current
    /// interval when the consumer took it, stop when the consumer is gone.
    pub fn on_publish(&mut self, delivered: bool) -> (r: AfterPublish)
        ensures
            (final(self)@, r) == publish_next(old(self)@, delivered),
    {
        if self.running && delivered {
            AfterPublish::Sleep(self.config.update_interval_ms)
        } else {
            self.running = false;
            AfterPublish::Stop
        }
    }
}

/// Once the worker has stopped, no look at the command queue makes it sample
/// again, and it stays stopped.
pub proof fn lemma_stopped_is_final(s: WorkerModel, ps: Seq<Poll>)
    requires
        !s.running,
    ensures
        after_polls(s, ps) == s,
        forall|p: Poll| #[trigger] poll_next(s, p) == (s, Step::Stop),
    decreases ps.len(),
{
    if ps.len() > 0 {
        lemma_stopped_is_final(s, ps.drop_last());
    }
}

/// A shutdown command stops the worker: it is told to stop before sampling,
/// the liveness flag is cleared, and nothing that follows samples again.
pub proof fn lemma_shutdown_stops(s: WorkerModel, later: Seq<Poll>)
    ensures
        poll_next(s, Poll::Received(MonitorCommand::Shutdown)).1 == Step::Stop,
        !poll_next(s, Poll::Received(MonitorCommand::Shutdown)).0.running,
        forall|p: Poll|
            #[trigger] poll_next(poll_next(s, Poll::Received(MonitorCommand::Shutdown)).0, p).1
                == Step::Stop,
        !after_polls(poll_next(s, Poll::Received(MonitorCommand::Shutdown)).0, later).running,
{
    lemma_stopped_is_final(poll_next(s, Poll::Received(MonitorCommand::Shutdown)).0, later);
}

/// Interval changes keep no history: in a started worker each sleep uses the
/// interval of the last change applied before it, and later ticks without
/// commands keep it.
pub proof fn lemma_last_interval_wins(config: MonitorConfig, a: u64, b: u64)
    ensures
        ({
            let s = started(config);
            let (s1, first_step) = poll_next(s, Poll::Received(MonitorCommand::SetInterval(a)));
            let (s2, first_sleep) = publish_next(s1, true);
            let (s3, second_step) = poll_next(s2, Poll::Received(MonitorCommand::SetInterval(b)));
            let (s4, second_sleep) = publish_next(s3, true);
            let (s5, third_step) = poll_next(s4, Poll::Empty);
            &&& first_step == Step::Sample && first_sleep == AfterPublish::Sleep(a)
            &&& second_step == Step::Sample && second_sleep == AfterPublish::Sleep(b)
            &&& third_step == Step::Sample && publish_next(s5, true).1 == AfterPublish::Sleep(b)
        }),
{
}

/// A consumer that has gone away stops the worker after the tick in which
/// the failed publish happened, and it does not sample again.
pub proof fn lemma_lost_consumer_stops(s: WorkerModel, later: Seq<Poll>)
    ensures
        publish_next(s, false).1 == AfterPublish::Stop,
        !publish_next(s, false).0.running,
        after_polls(publish_next(s, false).0, later) == publish_next(s, false).0,
{
    lemma_stopped_is_final(publish_next(s, false).0, later);
}

} // verus!
