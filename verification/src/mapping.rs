//! The mapping session: lifecycle state machine, the frozen routing
//! snapshot, and the dispatch decisions of the worker loop.

use vstd::prelude::*;

use crate::controller::VirtualController;
use crate::device::InputDevice;
use crate::error::AppError;
use crate::keys::{RawEvent, EV_KEY, VALUE_PRESS};
use crate::router::{route_events, spec_route_all, Emission, KeyRouter};

verus! {

/// The first key pressed (value 1, not release or repeat) in a batch
/// of raw events, if any: what interactive capture waits for.
pub open spec fn spec_first_press(evs: Seq<RawEvent>) -> Option<u16>
    decreases evs.len(),
{
    if evs.len() == 0 {
        None
    } else if evs[0].etype == EV_KEY && evs[0].value == VALUE_PRESS {
        Some(evs[0].code)
    } else {
        spec_first_press(evs.drop_first())
    }
}

/// Scans a batch of raw events for the first key press.
pub fn first_key_press(events: &Vec<RawEvent>) -> (r: Option<u16>)
    ensures
        r == spec_first_press(events@),
{
    let n = events.len();
    let mut i: usize = 0;
    proof {
        assert(events@.skip(0) =~= events@);
    }
    while i < n
        invariant
            n == events@.len(),
            i <= n,
            spec_first_press(events@) == spec_first_press(events@.skip(i as int)),
        decreases n - i,
    {
        let ev = events[i];
        proof {
            assert(events@.skip(i as int)[0] == events@[i as int]);
            assert(events@.skip(i as int).drop_first() =~= events@.skip(i + 1 as int));
        }
        if ev.etype == EV_KEY && ev.value == VALUE_PRESS {
            return Some(ev.code);
        }
        i += 1;
    }
    proof {
        assert(events@.skip(n as int) =~= Seq::<RawEvent>::empty());
    }
    None
}

/// The lifecycle of a mapping session. `Starting` and `Stopping` are
/// held only while `start_mapping` and `stop_mapping` themselves run;
/// between calls a session rests in `Idle` or `Running`.
#[derive(Clone, Copy, Debug, PartialEq, Eq, Structural)]
pub enum SessionState {
    Idle,
    Starting,
    Running,
    Stopping,
}

/// The mapping session: the selected physical keyboard, the registered
/// controllers, and the lifecycle state. Exactly one session runs per
/// physical device; the worker that drives the device I/O receives the
/// frozen `KeyRouter` that `start_mapping` returns and never reads the
/// live controllers.
pub struct DeviceMapper {
    pub keyboard: InputDevice,
    pub controllers: Vec<VirtualController>,
    pub state: SessionState,
}

impl DeviceMapper {
    /// Well-formedness: every registered controller's mapping binds
    /// each source key at most once.
    pub open spec fn wf(self) -> bool {
        forall|i: int| 0 <= i < self.controllers@.len() ==> (#[trigger] self.controllers@[i]).wf()
    }

    /// The lifecycle state the session rests in.
    pub open spec fn session_state(self) -> SessionState {
        self.state
    }

    /// A fresh session for a physical keyboard: no controllers, idle.
    pub fn new(keyboard: InputDevice) -> (r: DeviceMapper)
        ensures
            r.wf(),
            r.keyboard == keyboard,
            r.controllers@.len() == 0,
            r.session_state() is Idle,
    {
        DeviceMapper { keyboard, controllers: Vec::new(), state: SessionState::Idle }
    }

    /// Whether a mapping session is running.
    pub fn is_running(&self) -> (r: bool)
        ensures
            r == (self.session_state() is Running),
    {
        match self.state {
            SessionState::Running => true,
            _ => false,
        }
    }

    /// Registers a controller. Takes effect on the next `start_mapping`;
    /// a running session keeps its frozen snapshot.
    pub fn add_controller(&mut self, controller: VirtualController)
        requires
            old(self).wf(),
            controller.wf(),
        ensures
            final(self).wf(),
            final(self).controllers@ == old(self).controllers@.push(controller),
            final(self).keyboard == old(self).keyboard,
            final(self).session_state() == old(self).session_state(),
    {
        self.controllers.push(controller);
        proof {
            assert forall|i: int|
                0 <= i < self.controllers@.len() implies (#[trigger] self.controllers@[i]).wf() by {
                if i < old(self).controllers@.len() {
                    assert(self.controllers@[i] == old(self).controllers@[i]);
                } else {
                    assert(self.controllers@[i] == controller);
                }
            }
        }
    }

    /// Starts a mapping pass: freezes every registered controller's
    /// mapping into a `KeyRouter` and moves to `Running`. Fails with
    /// `AlreadyRunning` unless the session is idle, and with
    /// `NoControllers` when none is registered; a failed start changes
    /// nothing. The caller hands the returned router to the worker
    /// that owns the device I/O.
    pub fn start_mapping(&mut self) -> (r: Result<KeyRouter, AppError>)
        requires
            old(self).wf(),
        ensures
            final(self).wf(),
            final(self).keyboard == old(self).keyboard,
            final(self).controllers@ == old(self).controllers@,
            (r is Ok) <==> (old(self).session_state() is Idle && old(self).controllers@.len()
                > 0),
            match r {
                Ok(router) => {
                    &&& final(self).session_state() is Running
                    &&& router.wf()
                    &&& router.is_snapshot_of(old(self).controllers@)
                },
                Err(e) => {
                    &&& final(self).session_state() == old(self).session_state()
                    &&& e == (if old(self).session_state() is Idle {
                        AppError::NoControllers
                    } else {
                        AppError::AlreadyRunning
                    })
                },
            },
    {
        match self.state {
            SessionState::Idle => {},
            _ => {
                return Err(AppError::AlreadyRunning);
            },
        }
        if self.controllers.len() == 0 {
            return Err(AppError::NoControllers);
        }
        self.state = SessionState::Starting;
        let router = KeyRouter::build(&self.controllers);
        self.state = SessionState::Running;
        Ok(router)
    }

    /// Ends the mapping pass and returns to `Idle`. Safe to call in any
    /// state and any number of times; once idle it changes nothing.
    /// The caller is expected to have cancelled and joined the worker
    /// (or to be reacting to a worker that exited on its own, e.g. on
    /// an acquisition failure).
    pub fn stop_mapping(&mut self)
        ensures
            old(self).wf() ==> final(self).wf(),
            final(self).keyboard == old(self).keyboard,
            final(self).controllers@ == old(self).controllers@,
            final(self).session_state() is Idle,
    {
        self.state = SessionState::Stopping;
        self.state = SessionState::Idle;
        proof {
            if old(self).wf() {
                assert forall|i: int|
                    0 <= i < self.controllers@.len() implies (#[trigger] self.controllers@[i]).wf() by {
                    assert(self.controllers@[i] == old(self).controllers@[i]);
                }
            }
        }
    }

    /// Interactive capture: the first key pressed in a polled batch, or
    /// `None` when the batch holds no press and the caller must poll
    /// again. Capture needs the physical device for itself, so it must
    /// not run beside a running session.
    pub fn capture_key(&self, events: &Vec<RawEvent>) -> (r: Option<u16>)
        requires
            !(self.session_state() is Running),
        ensures
            r == spec_first_press(events@),
    {
        first_key_press(events)
    }
}

/// What the worker observes in one turn of its poll loop: an
/// operating-system termination signal relayed by the bridge, the
/// cancellation flag found cleared on a tick, a batch of physical
/// events, or an I/O failure while fetching.
pub enum WorkerEvent {
    Signal,
    Cancelled,
    Batch(Vec<RawEvent>),
    FetchFailed,
}

/// What a worker run leaves behind: every emission it decided, whether
/// the physical device was released, and how the loop ended.
#[derive(Debug)]
pub struct WorkerOutcome {
    pub emissions: Vec<Emission>,
    pub released: bool,
    pub result: Result<(), AppError>,
}

/// The emissions a worker owes for a poll sequence: the routed batches
/// up to the first cancellation, signal or fetch failure.
pub open spec fn spec_worker_emissions(r: KeyRouter, polls: Seq<WorkerEvent>) -> Seq<Emission>
    decreases polls.len(),
{
    if polls.len() == 0 {
        Seq::empty()
    } else {
        match polls[0] {
            WorkerEvent::Batch(evs) => spec_route_all(r, evs@) + spec_worker_emissions(
                r,
                polls.drop_first(),
            ),
            WorkerEvent::Signal => Seq::empty(),
            WorkerEvent::Cancelled => Seq::empty(),
            WorkerEvent::FetchFailed => Seq::empty(),
        }
    }
}

/// How a worker run ends for a poll sequence: an `IoFailure` exactly
/// when a fetch fails before any cancellation, otherwise success.
pub open spec fn spec_worker_result(polls: Seq<WorkerEvent>) -> Result<(), AppError>
    decreases polls.len(),
{
    if polls.len() == 0 {
        Ok(())
    } else {
        match polls[0] {
            WorkerEvent::Batch(_) => spec_worker_result(polls.drop_first()),
            WorkerEvent::Signal => Ok(()),
            WorkerEvent::Cancelled => Ok(()),
            WorkerEvent::FetchFailed => Err(AppError::IoFailure),
        }
    }
}

/// Cancellation bounds the session: once the worker observes a stop —
/// an explicit cancellation or a relayed termination signal — at poll
/// turn `k`, nothing past that turn is dispatched and the run ends
/// successfully. Together with `run_worker`'s release guarantee this is
/// the stop protocol: cancel, and the device comes back released after
/// at most the batches already under way.
pub proof fn lemma_cancellation_bounds_dispatch(r: KeyRouter, polls: Seq<WorkerEvent>, k: int)
    requires
        0 <= k < polls.len(),
        polls[k] is Cancelled || polls[k] is Signal,
        forall|j: int| 0 <= j < k ==> (#[trigger] polls[j]) is Batch,
    ensures
        spec_worker_emissions(r, polls) == spec_worker_emissions(r, polls.take(k)),
        spec_worker_result(polls) == Ok::<(), AppError>(()),
    decreases k,
{
    if k == 0 {
        assert(spec_worker_emissions(r, polls.take(0)) =~= Seq::<Emission>::empty());
    } else {
        assert(polls[0] is Batch);
        let rest = polls.drop_first();
        assert forall|j: int| 0 <= j < k - 1 implies (#[trigger] rest[j]) is Batch by {
            assert(rest[j] == polls[j + 1]);
        }
        assert(rest[k - 1] == polls[k]);
        lemma_cancellation_bounds_dispatch(r, rest, k - 1);
        assert(polls.take(k)[0] == polls[0]);
        assert(polls.take(k).drop_first() =~= rest.take(k - 1));
    }
}

/// The dispatch loop of one session, over the poll turns the device
/// layer observed. A failed open or grab is fatal to the run before
/// any dispatch and leaves the device unreleased only because it was
/// never acquired; after a successful grab the device is released on
/// every exit path — cancellation, signal, exhaustion and I/O failure
/// alike.
pub fn run_worker(router: &KeyRouter, open_ok: bool, grab_ok: bool, polls: &Vec<WorkerEvent>) -> (r:
    WorkerOutcome)
    requires
        router.wf(),
    ensures
        r.released == (open_ok && grab_ok),
        !open_ok ==> r.result == Err::<(), AppError>(AppError::DeviceOpenFailed)
            && r.emissions@.len() == 0,
        open_ok && !grab_ok ==> r.result == Err::<(), AppError>(AppError::DeviceBusy)
            && r.emissions@.len() == 0,
        open_ok && grab_ok ==> {
            &&& r.emissions@ == spec_worker_emissions(*router, polls@)
            &&& r.result == spec_worker_result(polls@)
        },
{
    if !open_ok {
        return WorkerOutcome {
            emissions: Vec::new(),
            released: false,
            result: Err(AppError::DeviceOpenFailed),
        };
    }
    if !grab_ok {
        return WorkerOutcome {
            emissions: Vec::new(),
            released: false,
            result: Err(AppError::DeviceBusy),
        };
    }
    let mut emissions: Vec<Emission> = Vec::new();
    let n = polls.len();
    let mut i: usize = 0;
    proof {
        assert(polls@.skip(0) =~= polls@);
        assert(emissions@ + spec_worker_emissions(*router, polls@.skip(0)) =~= spec_worker_emissions(
            *router,
            polls@,
        ));
    }
    while i < n
        invariant
            open_ok,
            grab_ok,
            router.wf(),
            n == polls@.len(),
            i <= n,
            spec_worker_emissions(*router, polls@) == emissions@ + spec_worker_emissions(
                *router,
                polls@.skip(i as int),
            ),
            spec_worker_result(polls@) == spec_worker_result(polls@.skip(i as int)),
        decreases n - i,
    {
        proof {
            assert(polls@.skip(i as int)[0] == polls@[i as int]);
            assert(polls@.skip(i as int).drop_first() =~= polls@.skip(i + 1 as int));
        }
        let turn = &polls[i];
        match turn {
            WorkerEvent::Signal => {
                proof {
                    assert(emissions@ + spec_worker_emissions(*router, polls@.skip(i as int))
                        =~= emissions@);
                }
                return WorkerOutcome { emissions, released: true, result: Ok(()) };
            },
            WorkerEvent::Cancelled => {
                proof {
                    assert(emissions@ + spec_worker_emissions(*router, polls@.skip(i as int))
                        =~= emissions@);
                }
                return WorkerOutcome { emissions, released: true, result: Ok(()) };
            },
            WorkerEvent::FetchFailed => {
                proof {
                    assert(emissions@ + spec_worker_emissions(*router, polls@.skip(i as int))
                        =~= emissions@);
                }
                return WorkerOutcome {
                    emissions,
                    released: true,
                    result: Err(AppError::IoFailure),
                };
            },
            WorkerEvent::Batch(evs) => {
                let ghost pre = emissions@;
                let mut ems = route_events(router, evs);
                emissions.append(&mut ems);
                proof {
                    assert(emissions@ + spec_worker_emissions(*router, polls@.skip(i + 1 as int))
                        =~= pre + spec_worker_emissions(*router, polls@.skip(i as int)));
                }
            },
        }
        i += 1;
    }
    proof {
        assert(polls@.skip(n as int) =~= Seq::<WorkerEvent>::empty());
        assert(emissions@ + spec_worker_emissions(*router, polls@.skip(n as int)) =~= emissions@);
    }
    WorkerOutcome { emissions, released: true, result: Ok(()) }
}

} // verus!
