//! What the process entry point decides: when to ask the long-lived tasks to
//! stop, when it is done itself, and how a shutdown escalates.
use vstd::prelude::*;

verus! {

/// How hard a shutdown is being asked for.
#[derive(Debug, Clone, Copy, PartialEq, Eq, Structural)]
pub enum QuitLevel {
    PoliteQuit,
    UnpoliteQuit,
    Kill,
}

impl Default for QuitLevel {
    fn default() -> (l: Self)
        ensures
            l == QuitLevel::PoliteQuit,
    {
        QuitLevel::PoliteQuit
    }
}

/// The signal sent to a subprocess that is asked to quit.
#[derive(Debug, Clone, Copy, PartialEq, Eq, Structural)]
pub enum Signal {
    Int,
    Term,
    Kill,
}

impl QuitLevel {
    /// The level that follows this one; nothing follows `Kill` but `Kill`.
    pub open spec fn spec_next(self) -> QuitLevel {
        match self {
            QuitLevel::PoliteQuit => QuitLevel::UnpoliteQuit,
            _ => QuitLevel::Kill,
        }
    }

    /// How far up the escalation this level stands.
    pub open spec fn rank(self) -> nat {
        match self {
            QuitLevel::PoliteQuit => 0,
            QuitLevel::UnpoliteQuit => 1,
            QuitLevel::Kill => 2,
        }
    }

    #[verifier::when_used_as_spec(spec_next)]
    pub fn next(self) -> (l: Self)
        ensures
            l == self.spec_next(),
    {
        match self {
            QuitLevel::PoliteQuit => QuitLevel::UnpoliteQuit,
            _ => QuitLevel::Kill,
        }
    }

    /// How many seconds the escalation timer waits at this level before it
    /// announces the next one.
    pub fn patience_secs(self) -> (s: u64)
        ensures
            s == (if self == QuitLevel::PoliteQuit {
                10u64
            } else {
                5u64
            }),
    {
        match self {
            QuitLevel::PoliteQuit => 10,
            QuitLevel::UnpoliteQuit => 5,
            QuitLevel::Kill => 5,
        }
    }

    /// The signal that a subprocess receives at this level. A level that
    /// could not be read counts as the last one.
    pub fn signal(level: Option<QuitLevel>) -> (s: Signal)
        ensures
            s == (match level {
                Some(QuitLevel::PoliteQuit) => Signal::Int,
                Some(QuitLevel::UnpoliteQuit) => Signal::Term,
                _ => Signal::Kill,
            }),
    {
        match level {
            Some(QuitLevel::PoliteQuit) => Signal::Int,
            Some(QuitLevel::UnpoliteQuit) => Signal::Term,
            Some(QuitLevel::Kill) => Signal::Kill,
            None => Signal::Kill,
        }
    }
}

/// Escalation never steps back, and reaches `Kill` after two steps from
/// anywhere.
pub proof fn lemma_escalation(l: QuitLevel)
    ensures
        l.rank() <= l.next().rank(),
        l != QuitLevel::Kill ==> l.rank() < l.next().rank(),
        l.next().next() == QuitLevel::Kill,
{
}

/// What is broadcast to every long-lived task of the escalating supervisor.
#[derive(Debug, Clone, Copy, PartialEq, Eq, Structural)]
pub enum SystemMsg {
    QuitLevel(QuitLevel),
}

impl From<QuitLevel> for SystemMsg {
    fn from(v: QuitLevel) -> (m: Self) {
        SystemMsg::QuitLevel(v)
    }
}

impl vstd::std_specs::convert::FromSpecImpl<QuitLevel> for SystemMsg {
    open spec fn obeys_from_spec() -> bool {
        true
    }

    open spec fn from_spec(v: QuitLevel) -> Self {
        SystemMsg::QuitLevel(v)
    }
}

/// What the escalating supervisor does after an interrupt.
#[derive(Debug, Clone, Copy, PartialEq, Eq, Structural)]
pub enum Escalation {
    /// broadcast this level and go on
    Announce(QuitLevel),
    /// the last level had been reached before: leave at once
    Leave,
}

/// An interrupt arrives while the shutdown stands at `level` (`None`: no
/// shutdown yet). The shutdown moves one level up, starting politely; an
/// interrupt after `Kill` ends the supervisor.
pub fn on_interrupt(level: Option<QuitLevel>) -> (r: (Option<QuitLevel>, Escalation))
    ensures
        r.0 == Some(
            match level {
                Some(l) => l.next(),
                None => QuitLevel::PoliteQuit,
            },
        ),
        r.1 == (if level == Some(QuitLevel::Kill) {
            Escalation::Leave
        } else {
            Escalation::Announce(r.0->0)
        }),
{
    let quitnext = match level {
        Some(l) => l.next(),
        None => QuitLevel::default(),
    };
    let verdict = match level {
        Some(QuitLevel::Kill) => Escalation::Leave,
        _ => Escalation::Announce(quitnext),
    };
    (Some(quitnext), verdict)
}

/// A service ended while the shutdown stands at `level`. If no shutdown was
/// under way one starts politely, and that level is to be announced.
pub fn on_service_exit(level: Option<QuitLevel>) -> (r: (Option<QuitLevel>, Option<QuitLevel>))
    ensures
        r == (match level {
            Some(l) => (Some(l), None::<QuitLevel>),
            None => (Some(QuitLevel::PoliteQuit), Some(QuitLevel::PoliteQuit)),
        }),
{
    match level {
        Some(l) => (Some(l), None),
        None => (Some(QuitLevel::PoliteQuit), Some(QuitLevel::PoliteQuit)),
    }
}

/// One of the three long-lived tasks.
#[derive(Debug, Clone, Copy, PartialEq, Eq, Structural)]
pub enum Task {
    Db,
    Publish,
    Www,
}

/// How a task ended.
#[derive(Debug, Clone, Copy, PartialEq, Eq, Structural)]
pub enum Exit {
    Clean,
    Failed,
    Panicked,
}

/// What the supervisor's main loop can observe.
#[derive(Debug, Clone, Copy, PartialEq, Eq, Structural)]
pub enum Happening {
    Exited(Task, Exit),
    Interrupt,
}

/// How loudly something is logged.
#[derive(Debug, Clone, Copy, PartialEq, Eq, Structural)]
pub enum Loudness {
    Butt,
    Warn,
    Crit,
}

/// What the supervisor does about one happening.
#[derive(Debug, Clone, Copy, PartialEq, Eq, Structural)]
pub struct Reaction {
    /// how loudly to log the happening
    pub loudness: Loudness,
    /// drop the sender of the system channel now, which asks every task to stop
    pub signal_shutdown: bool,
    /// every task has ended: join the database thread and return
    pub finished: bool,
}

/// The supervisor's view of the tasks it watches.
#[derive(Debug, Clone, Copy, PartialEq, Eq, Structural)]
pub struct Supervisor {
    pub db_running: bool,
    pub publish_running: bool,
    pub www_running: bool,
    /// whether the tasks have been asked to stop
    pub signalled: bool,
}

impl Supervisor {
    pub open spec fn spec_start() -> Supervisor {
        Supervisor { db_running: true, publish_running: true, www_running: true, signalled: false }
    }

    /// Whether any task is still running.
    pub open spec fn spec_busy(self) -> bool {
        self.db_running || self.publish_running || self.www_running
    }

    /// The supervisor after a happening.
    pub open spec fn after(self, h: Happening) -> Supervisor {
        match h {
            Happening::Exited(Task::Db, _) => Supervisor {
                db_running: false,
                signalled: true,
                ..self
            },
            Happening::Exited(Task::Publish, _) => Supervisor {
                publish_running: false,
                signalled: true,
                ..self
            },
            Happening::Exited(Task::Www, _) => Supervisor {
                www_running: false,
                signalled: true,
                ..self
            },
            Happening::Interrupt => Supervisor { signalled: true, ..self },
        }
    }

    /// How loudly a happening is logged.
    pub open spec fn loudness(h: Happening) -> Loudness {
        match h {
            Happening::Exited(_, Exit::Clean) => Loudness::Butt,
            Happening::Exited(_, _) => Loudness::Crit,
            Happening::Interrupt => Loudness::Warn,
        }
    }

    /// All three tasks running, nobody asked to stop.
    pub fn start() -> (s: Supervisor)
        ensures
            s == Supervisor::spec_start(),
    {
        Supervisor { db_running: true, publish_running: true, www_running: true, signalled: false }
    }

    #[verifier::when_used_as_spec(spec_busy)]
    pub fn busy(self) -> (b: bool)
        ensures
            b == self.spec_busy(),
    {
        self.db_running || self.publish_running || self.www_running
    }

    /// Takes note of a happening. The first happening of any kind asks every
    /// task to stop; later ones do not ask again. The supervisor is finished
    /// once no task is running.
    pub fn step(&mut self, h: Happening) -> (r: Reaction)
        ensures
            *final(self) == old(self).after(h),
            r.loudness == Supervisor::loudness(h),
            r.signal_shutdown == !old(self).signalled,
            r.finished == !final(self).spec_busy(),
    {
        let first = !self.signalled;
        let loudness = match h {
            Happening::Exited(_, Exit::Clean) => Loudness::Butt,
            Happening::Exited(_, _) => Loudness::Crit,
            Happening::Interrupt => Loudness::Warn,
        };
        match h {
            Happening::Exited(Task::Db, _) => self.db_running = false,
            Happening::Exited(Task::Publish, _) => self.publish_running = false,
            Happening::Exited(Task::Www, _) => self.www_running = false,
            Happening::Interrupt => {},
        }
        self.signalled = true;
        Reaction { loudness, signal_shutdown: first, finished: !self.busy() }
    }
}

/// The supervisor after a run of happenings, oldest first.
pub open spec fn after_all(s: Supervisor, hs: Seq<Happening>) -> Supervisor
    decreases hs.len(),
{
    if hs.len() == 0 {
        s
    } else {
        after_all(s, hs.drop_last()).after(hs.last())
    }
}

/// After any happening at all the tasks have been asked to stop, and a task
/// that ended stays ended: so shutdown is signalled exactly once, at the
/// first happening.
pub proof fn lemma_signalled_once(s: Supervisor, hs: Seq<Happening>)
    requires
        hs.len() > 0,
    ensures
        after_all(s, hs).signalled,
        !s.db_running ==> !after_all(s, hs).db_running,
        !s.publish_running ==> !after_all(s, hs).publish_running,
        !s.www_running ==> !after_all(s, hs).www_running,
    decreases hs.len(),
{
    if hs.len() > 1 {
        lemma_signalled_once(s, hs.drop_last());
    } else {
        assert(after_all(s, hs.drop_last()) == s);
    }
}

/// Interrupts alone never finish the supervisor: it returns only when all
/// three tasks have ended.
pub proof fn lemma_finished_needs_every_exit(s: Supervisor, hs: Seq<Happening>)
    requires
        s.spec_busy(),
        forall|i: int| 0 <= i < hs.len() ==> hs[i] == Happening::Interrupt,
    ensures
        after_all(s, hs).spec_busy(),
    decreases hs.len(),
{
    if hs.len() > 0 {
        lemma_finished_needs_every_exit(s, hs.drop_last());
    }
}

} // verus!
