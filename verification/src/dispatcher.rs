use vstd::prelude::*;
use crate::structs::{server_eq, Server};

verus! {

/// Message types that spawned workers and outside command surfaces send
/// back to the core loop.
pub enum CoreMessage {
    /// Start a fetch-all run; the flag asks that its completion chain
    /// into an announce-all run.
    StartGofer(bool),
    StartAnnouncer,
    StartSoloAnnouncer(Server),
    StartDiscordBot,
    /// The delivery connection reported ready and its handle is stored
    /// outside the core.
    TransferDiscordHttp,
    Quit,
}

/// Types of workers, the solo announcer keyed by its destination.
pub enum Worker {
    Gofer,
    Announcer,
    SoloAnnouncer(Server),
    DiscordBot,
}

/// Two workers fill the same slot: same kind, and for solo announcers the
/// same destination.
pub open spec fn worker_eq(a: Worker, b: Worker) -> bool {
    match (a, b) {
        (Worker::Gofer, Worker::Gofer) => true,
        (Worker::Announcer, Worker::Announcer) => true,
        (Worker::SoloAnnouncer(x), Worker::SoloAnnouncer(y)) => server_eq(x, y),
        (Worker::DiscordBot, Worker::DiscordBot) => true,
        _ => false,
    }
}

impl PartialEq for Worker {
    fn eq(&self, other: &Self) -> (r: bool) {
        match self {
            Worker::Gofer => matches!(other, Worker::Gofer),
            Worker::Announcer => matches!(other, Worker::Announcer),
            Worker::SoloAnnouncer(x) => match other {
                Worker::SoloAnnouncer(y) => x == y,
                _ => false,
            },
            Worker::DiscordBot => matches!(other, Worker::DiscordBot),
        }
    }
}

impl vstd::std_specs::cmp::PartialEqSpecImpl for Worker {
    open spec fn obeys_eq_spec() -> bool {
        true
    }

    open spec fn eq_spec(&self, other: &Worker) -> bool {
        worker_eq(*self, *other)
    }
}

/// A worker slot of this kind is currently running.
pub open spec fn spec_tracked(tr: Seq<Worker>, w: Worker) -> bool {
    exists|i: int| 0 <= i < tr.len() && worker_eq(#[trigger] tr[i], w)
}

/// The tracker with the first worker of this kind removed.
pub open spec fn spec_remove_first(tr: Seq<Worker>, w: Worker) -> Seq<Worker>
    decreases tr.len(),
{
    if tr.len() == 0 {
        tr
    } else if worker_eq(tr.first(), w) {
        tr.drop_first()
    } else {
        seq![tr.first()] + spec_remove_first(tr.drop_first(), w)
    }
}

/// At most one worker per slot: the tracker's invariant.
pub open spec fn spec_tracker_wf(tr: Seq<Worker>) -> bool {
    forall|i: int, j: int|
        0 <= i < j < tr.len() ==> !worker_eq(#[trigger] tr[i], #[trigger] tr[j])
}

/// Removing at the first match is `spec_remove_first`.
proof fn lemma_remove_first_at(tr: Seq<Worker>, w: Worker, k: int)
    requires
        0 <= k < tr.len(),
        forall|j: int| 0 <= j < k ==> !worker_eq(#[trigger] tr[j], w),
        worker_eq(tr[k], w),
    ensures
        spec_remove_first(tr, w) == tr.remove(k),
    decreases tr.len(),
{
    if k == 0 {
        assert(tr.remove(0) =~= tr.drop_first());
    } else {
        let rest = tr.drop_first();
        assert(forall|j: int| 0 <= j < k - 1 ==> !worker_eq(#[trigger] rest[j], w));
        lemma_remove_first_at(rest, w, k - 1);
        assert(tr.remove(k) =~= seq![tr.first()] + rest.remove(k - 1));
    }
}

proof fn lemma_remove_first_absent(tr: Seq<Worker>, w: Worker)
    requires
        !spec_tracked(tr, w),
    ensures
        spec_remove_first(tr, w) == tr,
    decreases tr.len(),
{
    if tr.len() > 0 {
        assert(!worker_eq(tr[0], w));
        lemma_remove_first_absent(tr.drop_first(), w);
        assert(seq![tr.first()] + tr.drop_first() =~= tr);
    }
}

/// Checks whether a worker of this kind is already tracked; the index of
/// the first one if so. This keeps the core from starting two instances
/// of the same slot.
pub fn get_tracker_index(tracker: &Vec<Worker>, find: &Worker) -> (r: Option<usize>)
    ensures
        match r {
            Some(i) => {
                &&& i < tracker@.len()
                &&& worker_eq(tracker@[i as int], *find)
                &&& forall|j: int| 0 <= j < i ==> !worker_eq(#[trigger] tracker@[j], *find)
                &&& spec_tracked(tracker@, *find)
            },
            None => !spec_tracked(tracker@, *find),
        },
{
    let n = tracker.len();
    let mut i: usize = 0;
    while i < n
        invariant
            n == tracker@.len(),
            i <= n,
            forall|j: int| 0 <= j < i ==> !worker_eq(#[trigger] tracker@[j], *find),
        decreases n - i,
    {
        if tracker[i] == *find {
            return Some(i);
        }
        i = i + 1;
    }
    None
}

/// Adds a worker to the tracker.
pub fn add_tracker(tracker: &mut Vec<Worker>, worker: Worker)
    ensures
        final(tracker)@ == old(tracker)@.push(worker),
{
    tracker.push(worker);
}

/// Removes the first worker of this kind from the tracker, if any; its
/// index when one was there.
pub fn remove_tracker(tracker: &mut Vec<Worker>, worker: &Worker) -> (r: Option<usize>)
    ensures
        final(tracker)@ == spec_remove_first(old(tracker)@, *worker),
        match r {
            Some(i) => spec_tracked(old(tracker)@, *worker) && i < old(tracker)@.len(),
            None => !spec_tracked(old(tracker)@, *worker) && final(tracker)@ == old(tracker)@,
        },
{
    let ghost pre = tracker@;
    match get_tracker_index(tracker, worker) {
        Some(i) => {
            tracker.remove(i);
            proof {
                lemma_remove_first_at(pre, *worker, i as int);
            }
            Some(i)
        },
        None => {
            proof {
                lemma_remove_first_absent(pre, *worker);
            }
            None
        },
    }
}

/// Why a start request was rejected; rejections are non-fatal and the
/// triggering event is simply dropped.
#[derive(Debug, Clone, Copy, PartialEq, Eq, Structural)]
pub enum CoreError {
    /// A worker of that slot is already running.
    AlreadyRunning,
    /// No delivery connection is available yet.
    DiscordNotReady,
}

/// What the loop around the core must do next: spawn a worker task, feed
/// a trigger back into the loop, or shut down.
pub enum Action {
    SpawnGofer,
    SpawnAnnouncer,
    SpawnSoloAnnouncer(Server),
    SpawnDiscordBot,
    EmitStartAnnouncer,
    EmitStartDiscordBot,
    Shutdown,
}

/// The core dispatcher's in-memory state: the worker tracker, whether a
/// delivery connection handle has been received, whether the running
/// fetch-all should chain into an announce-all, and whether the loop is
/// shutting down.
pub struct Dispatcher {
    pub tracker: Vec<Worker>,
    pub discord_ready: bool,
    pub trigger_announcer_on_gofer_finish: bool,
    pub quitting: bool,
}

impl Dispatcher {
    /// The dispatcher's invariant: at most one worker per slot.
    pub open spec fn wf(&self) -> bool {
        spec_tracker_wf(self.tracker@)
    }

    /// The idle starting state; the caller boots it by feeding
    /// `StartGofer(true)` and `StartDiscordBot`.
    pub fn new() -> (r: Dispatcher)
        ensures
            r.wf(),
            r.tracker@.len() == 0,
            !r.discord_ready,
            !r.trigger_announcer_on_gofer_finish,
            !r.quitting,
    {
        Dispatcher {
            tracker: Vec::new(),
            discord_ready: false,
            trigger_announcer_on_gofer_finish: false,
            quitting: false,
        }
    }
}

/// Starts the fetch-all worker slot: tracked and spawned unless one is
/// already running.
pub fn start_gofer(d: &mut Dispatcher) -> (r: Result<(), CoreError>)
    requires
        old(d).wf(),
    ensures
        final(d).wf(),
        final(d).discord_ready == old(d).discord_ready,
        final(d).trigger_announcer_on_gofer_finish == old(d).trigger_announcer_on_gofer_finish,
        final(d).quitting == old(d).quitting,
        match r {
            Ok(()) => !spec_tracked(old(d).tracker@, Worker::Gofer) && final(d).tracker@ == old(
                d,
            ).tracker@.push(Worker::Gofer),
            Err(e) => e == CoreError::AlreadyRunning && spec_tracked(
                old(d).tracker@,
                Worker::Gofer,
            ) && *final(d) == *old(d),
        },
{
    if get_tracker_index(&d.tracker, &Worker::Gofer).is_some() {
        return Err(CoreError::AlreadyRunning);
    }
    let ghost pre = d.tracker@;
    add_tracker(&mut d.tracker, Worker::Gofer);
    proof {
        lemma_push_untracked_wf(pre, Worker::Gofer);
    }
    Ok(())
}

/// Starts the bot-connection worker slot unless one is already running.
pub fn start_discord_bot(d: &mut Dispatcher) -> (r: Result<(), CoreError>)
    requires
        old(d).wf(),
    ensures
        final(d).wf(),
        final(d).discord_ready == old(d).discord_ready,
        final(d).trigger_announcer_on_gofer_finish == old(d).trigger_announcer_on_gofer_finish,
        final(d).quitting == old(d).quitting,
        match r {
            Ok(()) => !spec_tracked(old(d).tracker@, Worker::DiscordBot) && final(d).tracker@
                == old(d).tracker@.push(Worker::DiscordBot),
            Err(e) => e == CoreError::AlreadyRunning && spec_tracked(
                old(d).tracker@,
                Worker::DiscordBot,
            ) && *final(d) == *old(d),
        },
{
    if get_tracker_index(&d.tracker, &Worker::DiscordBot).is_some() {
        return Err(CoreError::AlreadyRunning);
    }
    let ghost pre = d.tracker@;
    add_tracker(&mut d.tracker, Worker::DiscordBot);
    proof {
        lemma_push_untracked_wf(pre, Worker::DiscordBot);
    }
    Ok(())
}

/// The worker an announce request names: the batch announcer, or a solo
/// announcer keyed by the destination.
pub open spec fn spec_announce_worker(server: Option<Server>) -> Worker {
    match server {
        Some(s) => Worker::SoloAnnouncer(s),
        None => Worker::Announcer,
    }
}

/// Starts an announce worker slot: rejected without a delivery
/// connection, and while the same slot is running; a solo announcer's
/// slot is its destination, so distinct destinations run concurrently.
pub fn start_announcer(d: &mut Dispatcher, server: Option<Server>) -> (r: Result<(), CoreError>)
    requires
        old(d).wf(),
    ensures
        final(d).wf(),
        final(d).discord_ready == old(d).discord_ready,
        final(d).trigger_announcer_on_gofer_finish == old(d).trigger_announcer_on_gofer_finish,
        final(d).quitting == old(d).quitting,
        match r {
            Ok(()) => {
                &&& old(d).discord_ready
                &&& !spec_tracked(old(d).tracker@, spec_announce_worker(server))
                &&& final(d).tracker@ == old(d).tracker@.push(spec_announce_worker(server))
            },
            Err(CoreError::DiscordNotReady) => !old(d).discord_ready && *final(d) == *old(d),
            Err(CoreError::AlreadyRunning) => {
                &&& old(d).discord_ready
                &&& spec_tracked(old(d).tracker@, spec_announce_worker(server))
                &&& *final(d) == *old(d)
            },
        },
{
    let worker = match server {
        Some(s) => Worker::SoloAnnouncer(s),
        None => Worker::Announcer,
    };
    if !d.discord_ready {
        return Err(CoreError::DiscordNotReady);
    }
    if get_tracker_index(&d.tracker, &worker).is_some() {
        return Err(CoreError::AlreadyRunning);
    }
    let ghost pre = d.tracker@;
    add_tracker(&mut d.tracker, worker);
    proof {
        lemma_push_untracked_wf(pre, spec_announce_worker(server));
    }
    Ok(())
}

/// Pushing an untracked slot keeps the tracker's invariant.
proof fn lemma_push_untracked_wf(tr: Seq<Worker>, w: Worker)
    requires
        spec_tracker_wf(tr),
        !spec_tracked(tr, w),
    ensures
        spec_tracker_wf(tr.push(w)),
{
    let tr2 = tr.push(w);
    assert forall|i: int, j: int| 0 <= i < j < tr2.len() implies !worker_eq(tr2[i], tr2[j]) by {
        if j == tr2.len() - 1 {
            assert(!worker_eq(tr[i], w));
            assert(worker_eq(tr2[i], tr[i]) == worker_eq(tr[i], tr[i]) || true);
            assert(tr2[i] == tr[i]);
        }
    }
}

/// Removing a worker keeps the tracker's invariant.
proof fn lemma_remove_wf(tr: Seq<Worker>, k: int)
    requires
        spec_tracker_wf(tr),
        0 <= k < tr.len(),
    ensures
        spec_tracker_wf(tr.remove(k)),
{
    let tr2 = tr.remove(k);
    assert forall|i: int, j: int| 0 <= i < j < tr2.len() implies !worker_eq(tr2[i], tr2[j]) by {
        let i0 = if i < k {
            i
        } else {
            i + 1
        };
        let j0 = if j < k {
            j
        } else {
            j + 1
        };
        assert(tr2[i] == tr[i0] && tr2[j] == tr[j0]);
    }
}

impl Dispatcher {
    /// One trigger event, as the loop sees it. Rejections are silent
    /// no-ops; an accepted request yields the actions the loop performs.
    /// After `Quit` nothing is accepted.
    pub fn handle_message(&mut self, msg: CoreMessage) -> (acts: Vec<Action>)
        requires
            old(self).wf(),
        ensures
            final(self).wf(),
            old(self).quitting ==> *final(self) == *old(self) && acts@.len() == 0,
            !old(self).quitting ==> match msg {
                CoreMessage::StartGofer(chain) => {
                    if spec_tracked(old(self).tracker@, Worker::Gofer) {
                        *final(self) == *old(self) && acts@.len() == 0
                    } else {
                        &&& final(self).tracker@ == old(self).tracker@.push(Worker::Gofer)
                        &&& final(self).trigger_announcer_on_gofer_finish == chain
                        &&& final(self).discord_ready == old(self).discord_ready
                        &&& final(self).quitting == old(self).quitting
                        &&& acts@ == seq![Action::SpawnGofer]
                    }
                },
                CoreMessage::StartAnnouncer => {
                    if old(self).discord_ready && !spec_tracked(
                        old(self).tracker@,
                        Worker::Announcer,
                    ) {
                        &&& final(self).tracker@ == old(self).tracker@.push(Worker::Announcer)
                        &&& final(self).discord_ready == old(self).discord_ready
                        &&& final(self).trigger_announcer_on_gofer_finish == old(
                            self,
                        ).trigger_announcer_on_gofer_finish
                        &&& final(self).quitting == old(self).quitting
                        &&& acts@ == seq![Action::SpawnAnnouncer]
                    } else {
                        *final(self) == *old(self) && acts@.len() == 0
                    }
                },
                CoreMessage::StartSoloAnnouncer(server) => {
                    if old(self).discord_ready && !spec_tracked(
                        old(self).tracker@,
                        Worker::SoloAnnouncer(server),
                    ) {
                        &&& final(self).tracker@.len() == old(self).tracker@.len() + 1
                        &&& forall|j: int|
                            0 <= j < old(self).tracker@.len() ==> final(self).tracker@[j] == old(
                                self,
                            ).tracker@[j]
                        &&& worker_eq(final(self).tracker@.last(), Worker::SoloAnnouncer(server))
                        &&& final(self).discord_ready == old(self).discord_ready
                        &&& final(self).trigger_announcer_on_gofer_finish == old(
                            self,
                        ).trigger_announcer_on_gofer_finish
                        &&& final(self).quitting == old(self).quitting
                        &&& acts@ == seq![Action::SpawnSoloAnnouncer(server)]
                    } else {
                        *final(self) == *old(self) && acts@.len() == 0
                    }
                },
                CoreMessage::StartDiscordBot => {
                    if spec_tracked(old(self).tracker@, Worker::DiscordBot) {
                        *final(self) == *old(self) && acts@.len() == 0
                    } else {
                        &&& final(self).tracker@ == old(self).tracker@.push(Worker::DiscordBot)
                        &&& final(self).discord_ready == old(self).discord_ready
                        &&& final(self).trigger_announcer_on_gofer_finish == old(
                            self,
                        ).trigger_announcer_on_gofer_finish
                        &&& final(self).quitting == old(self).quitting
                        &&& acts@ == seq![Action::SpawnDiscordBot]
                    }
                },
                CoreMessage::TransferDiscordHttp => {
                    &&& final(self).tracker@ == old(self).tracker@
                    &&& final(self).discord_ready
                    &&& final(self).trigger_announcer_on_gofer_finish == old(
                        self,
                    ).trigger_announcer_on_gofer_finish
                    &&& final(self).quitting == old(self).quitting
                    &&& acts@.len() == 0
                },
                CoreMessage::Quit => {
                    &&& final(self).tracker@ == old(self).tracker@
                    &&& final(self).discord_ready == old(self).discord_ready
                    &&& final(self).trigger_announcer_on_gofer_finish == old(
                        self,
                    ).trigger_announcer_on_gofer_finish
                    &&& final(self).quitting
                    &&& acts@ == seq![Action::Shutdown]
                },
            },
    {
        let mut acts: Vec<Action> = Vec::new();
        if self.quitting {
            return acts;
        }
        match msg {
            CoreMessage::StartGofer(chain) => {
                match start_gofer(self) {
                    Ok(()) => {
                        self.trigger_announcer_on_gofer_finish = chain;
                        acts.push(Action::SpawnGofer);
                        proof {
                            assert(acts@ =~= seq![Action::SpawnGofer]);
                        }
                    },
                    Err(_) => {},
                }
            },
            CoreMessage::StartAnnouncer => {
                match start_announcer(self, None) {
                    Ok(()) => {
                        acts.push(Action::SpawnAnnouncer);
                        proof {
                            assert(acts@ =~= seq![Action::SpawnAnnouncer]);
                        }
                    },
                    Err(_) => {},
                }
            },
            CoreMessage::StartSoloAnnouncer(server) => {
                if self.discord_ready {
                    let worker = Worker::SoloAnnouncer(server.duplicate());
                    if get_tracker_index(&self.tracker, &worker).is_none() {
                        let ghost pre = self.tracker@;
                        proof {
                            assert forall|i: int| 0 <= i < pre.len() implies !worker_eq(
                                #[trigger] pre[i],
                                Worker::SoloAnnouncer(server),
                            ) by {
                                assert(!worker_eq(pre[i], worker));
                            }
                            lemma_push_untracked_wf(pre, worker);
                        }
                        add_tracker(&mut self.tracker, worker);
                        acts.push(Action::SpawnSoloAnnouncer(server));
                        proof {
                            assert(acts@ =~= seq![Action::SpawnSoloAnnouncer(server)]);
                        }
                    }
                }
            },
            CoreMessage::StartDiscordBot => {
                match start_discord_bot(self) {
                    Ok(()) => {
                        acts.push(Action::SpawnDiscordBot);
                        proof {
                            assert(acts@ =~= seq![Action::SpawnDiscordBot]);
                        }
                    },
                    Err(_) => {},
                }
            },
            CoreMessage::TransferDiscordHttp => {
                self.discord_ready = true;
            },
            CoreMessage::Quit => {
                self.quitting = true;
                acts.push(Action::Shutdown);
                proof {
                    assert(acts@ =~= seq![Action::Shutdown]);
                }
            },
        }
        acts
    }

    /// One worker-completion event: the worker's slot is untracked. A
    /// finished fetch-all chains into an announce-all when that was
    /// requested; a finished bot connection drops the stored handle and
    /// asks for a reconnect. During shutdown completions only untrack.
    pub fn handle_worker_finished(&mut self, worker: &Worker) -> (acts: Vec<Action>)
        requires
            old(self).wf(),
        ensures
            final(self).wf(),
            final(self).tracker@ == spec_remove_first(old(self).tracker@, *worker),
            final(self).quitting == old(self).quitting,
            old(self).quitting ==> {
                &&& acts@.len() == 0
                &&& final(self).discord_ready == old(self).discord_ready
                &&& final(self).trigger_announcer_on_gofer_finish == old(
                    self,
                ).trigger_announcer_on_gofer_finish
            },
            !old(self).quitting ==> match *worker {
                Worker::Gofer => {
                    &&& final(self).discord_ready == old(self).discord_ready
                    &&& !final(self).trigger_announcer_on_gofer_finish
                    &&& if old(self).trigger_announcer_on_gofer_finish {
                        acts@ == seq![Action::EmitStartAnnouncer]
                    } else {
                        acts@.len() == 0
                    }
                },
                Worker::DiscordBot => {
                    &&& !final(self).discord_ready
                    &&& final(self).trigger_announcer_on_gofer_finish == old(
                        self,
                    ).trigger_announcer_on_gofer_finish
                    &&& acts@ == seq![Action::EmitStartDiscordBot]
                },
                _ => {
                    &&& final(self).discord_ready == old(self).discord_ready
                    &&& final(self).trigger_announcer_on_gofer_finish == old(
                        self,
                    ).trigger_announcer_on_gofer_finish
                    &&& acts@.len() == 0
                },
            },
    {
        let mut acts: Vec<Action> = Vec::new();
        let ghost pre = self.tracker@;
        match remove_tracker(&mut self.tracker, worker) {
            Some(i) => {
                proof {
                    lemma_remove_first_at_wf(pre, *worker);
                }
            },
            None => {},
        }
        if self.quitting {
            return acts;
        }
        match worker {
            Worker::Gofer => {
                if self.trigger_announcer_on_gofer_finish {
                    self.trigger_announcer_on_gofer_finish = false;
                    acts.push(Action::EmitStartAnnouncer);
                    proof {
                        assert(acts@ =~= seq![Action::EmitStartAnnouncer]);
                    }
                }
            },
            Worker::DiscordBot => {
                self.discord_ready = false;
                acts.push(Action::EmitStartDiscordBot);
                proof {
                    assert(acts@ =~= seq![Action::EmitStartDiscordBot]);
                }
            },
            _ => {},
        }
        acts
    }
}

/// Removing a slot's first worker keeps the tracker's invariant.
proof fn lemma_remove_first_at_wf(tr: Seq<Worker>, w: Worker)
    requires
        spec_tracker_wf(tr),
    ensures
        spec_tracker_wf(spec_remove_first(tr, w)),
    decreases tr.len(),
{
    if tr.len() > 0 && !worker_eq(tr.first(), w) {
        lemma_remove_first_at_wf(tr.drop_first(), w);
        let tr2 = seq![tr.first()] + spec_remove_first(tr.drop_first(), w);
        let rest2 = spec_remove_first(tr.drop_first(), w);
        assert forall|i: int, j: int| 0 <= i < j < tr2.len() implies !worker_eq(
            tr2[i],
            tr2[j],
        ) by {
            if i == 0 {
                assert(tr2[j] == rest2[j - 1]);
                lemma_remove_first_members(tr.drop_first(), w, j - 1);
            } else {
                assert(tr2[i] == rest2[i - 1] && tr2[j] == rest2[j - 1]);
            }
        }
    }
}

/// Every member of the shrunken tracker was a member of the original.
proof fn lemma_remove_first_members(tr: Seq<Worker>, w: Worker, k: int)
    requires
        0 <= k < spec_remove_first(tr, w).len(),
    ensures
        exists|i: int|
            0 <= i < tr.len() && tr[i] == #[trigger] spec_remove_first(tr, w)[k],
    decreases tr.len(),
{
    if tr.len() > 0 {
        if worker_eq(tr.first(), w) {
            assert(spec_remove_first(tr, w)[k] == tr[k + 1]);
        } else {
            if k == 0 {
                assert(spec_remove_first(tr, w)[0] == tr[0]);
            } else {
                lemma_remove_first_members(tr.drop_first(), w, k - 1);
                let i0 = choose|i: int|
                    0 <= i < tr.drop_first().len() && tr.drop_first()[i] == spec_remove_first(
                        tr.drop_first(),
                        w,
                    )[k - 1];
                assert(tr[i0 + 1] == spec_remove_first(tr, w)[k]);
            }
        }
    }
}

/// Under the tracker invariant, removing a slot's worker leaves nothing
/// of that slot tracked: the completion of the running fetch-all frees
/// its slot, so the next fetch trigger spawns again.
pub proof fn lemma_retrigger_after_completion(tr: Seq<Worker>, w: Worker)
    requires
        spec_tracker_wf(tr),
    ensures
        !spec_tracked(spec_remove_first(tr, w), w),
    decreases tr.len(),
{
    if tr.len() > 0 {
        if worker_eq(tr.first(), w) {
            assert forall|i: int| 0 <= i < tr.drop_first().len() implies !worker_eq(
                #[trigger] tr.drop_first()[i],
                w,
            ) by {
                assert(tr.drop_first()[i] == tr[i + 1]);
                assert(!worker_eq(tr[0], tr[i + 1]));
                lemma_worker_eq_trans(tr[0], tr[i + 1], w);
            }
        } else {
            lemma_retrigger_after_completion(tr.drop_first(), w);
            let tr2 = seq![tr.first()] + spec_remove_first(tr.drop_first(), w);
            assert forall|i: int| 0 <= i < tr2.len() implies !worker_eq(
                #[trigger] tr2[i],
                w,
            ) by {
                if i > 0 {
                    assert(tr2[i] == spec_remove_first(tr.drop_first(), w)[i - 1]);
                }
            }
        }
    }
}

/// Slot equality runs through equal slots.
proof fn lemma_worker_eq_trans(a: Worker, b: Worker, w: Worker)
    ensures
        worker_eq(b, w) && !worker_eq(a, b) ==> !worker_eq(a, w),
{
}

/// Tracking a solo announcer for one destination neither blocks nor frees
/// another destination's slot, while a second trigger for the tracked
/// destination finds its slot taken: distinct destinations run
/// concurrently, the same destination does not run twice.
pub proof fn lemma_solo_announcers_independent(tr: Seq<Worker>, a: Server, b: Server)
    ensures
        spec_tracked(tr.push(Worker::SoloAnnouncer(a)), Worker::SoloAnnouncer(a)),
        !server_eq(a, b) ==> spec_tracked(
            tr.push(Worker::SoloAnnouncer(a)),
            Worker::SoloAnnouncer(b),
        ) == spec_tracked(tr, Worker::SoloAnnouncer(b)),
{
    let tr2 = tr.push(Worker::SoloAnnouncer(a));
    assert(tr2[tr.len() as int] == Worker::SoloAnnouncer(a));
    assert(worker_eq(tr2[tr.len() as int], Worker::SoloAnnouncer(a)));
    if !server_eq(a, b) {
        if spec_tracked(tr, Worker::SoloAnnouncer(b)) {
            let i = choose|i: int|
                0 <= i < tr.len() && worker_eq(#[trigger] tr[i], Worker::SoloAnnouncer(b));
            assert(worker_eq(tr2[i], Worker::SoloAnnouncer(b)));
        }
        if spec_tracked(tr2, Worker::SoloAnnouncer(b)) {
            let i = choose|i: int|
                0 <= i < tr2.len() && worker_eq(#[trigger] tr2[i], Worker::SoloAnnouncer(b));
            assert(i < tr.len());
            assert(worker_eq(tr[i], Worker::SoloAnnouncer(b)));
        }
    }
}

impl Worker {
    /// The worker's display label.
    pub fn label(&self) -> (r: String)
        ensures
            match *self {
                Worker::Gofer => r@ == "Gofer"@,
                Worker::Announcer => r@ == "Announcer"@,
                Worker::SoloAnnouncer(s) => r@ == "Solo Announcer for "@ + s.identifier@,
                Worker::DiscordBot => r@ == "Discord Bot"@,
            },
    {
        match self {
            Worker::Gofer => String::from_str("Gofer"),
            Worker::Announcer => String::from_str("Announcer"),
            Worker::SoloAnnouncer(s) => String::from_str("Solo Announcer for ").concat(
                s.identifier.as_str(),
            ),
            Worker::DiscordBot => String::from_str("Discord Bot"),
        }
    }
}

/// Where the strictly sequential one-shot run stands.
pub enum OneShotPhase {
    /// The bot connection was started; awaiting the delivery handle.
    AwaitDiscord,
    /// The fetch-all worker was started; awaiting its completion.
    AwaitGofer,
    /// The announce-all worker was started; awaiting its completion.
    AwaitAnnouncer,
    /// Everything ran; disconnect and exit cleanly.
    Finished,
    /// A worker failed or the bot connection exited early; abort.
    Failed,
}

/// What the one-shot loop observed.
pub enum OneShotEvent {
    /// The delivery connection reported ready.
    DiscordReady,
    /// A worker task finished.
    WorkerFinished(Worker),
}

/// One step of the one-shot sequence: connect, fetch, announce, then
/// disconnect, each stage awaited before the next; the bot connection
/// exiting while awaited aborts the whole run.
pub open spec fn spec_one_shot_step(phase: OneShotPhase, event: OneShotEvent) -> (
    OneShotPhase,
    Option<Action>,
) {
    match phase {
        OneShotPhase::AwaitDiscord => match event {
            OneShotEvent::DiscordReady => (OneShotPhase::AwaitGofer, Some(Action::SpawnGofer)),
            OneShotEvent::WorkerFinished(_) => (OneShotPhase::Failed, None),
        },
        OneShotPhase::AwaitGofer => match event {
            OneShotEvent::WorkerFinished(w) => if worker_eq(w, Worker::Gofer) {
                (OneShotPhase::AwaitAnnouncer, Some(Action::SpawnAnnouncer))
            } else if worker_eq(w, Worker::DiscordBot) {
                (OneShotPhase::Failed, None)
            } else {
                (OneShotPhase::AwaitGofer, None)
            },
            OneShotEvent::DiscordReady => (OneShotPhase::AwaitGofer, None),
        },
        OneShotPhase::AwaitAnnouncer => match event {
            OneShotEvent::WorkerFinished(w) => if worker_eq(w, Worker::Announcer) {
                (OneShotPhase::Finished, Some(Action::Shutdown))
            } else if worker_eq(w, Worker::DiscordBot) {
                (OneShotPhase::Failed, None)
            } else {
                (OneShotPhase::AwaitAnnouncer, None)
            },
            OneShotEvent::DiscordReady => (OneShotPhase::AwaitAnnouncer, None),
        },
        OneShotPhase::Finished => (OneShotPhase::Finished, None),
        OneShotPhase::Failed => (OneShotPhase::Failed, None),
    }
}

/// Advances the one-shot sequence on one observed event, as
/// `spec_one_shot_step` says.
pub fn one_shot_step(phase: &OneShotPhase, event: &OneShotEvent) -> (r: (
    OneShotPhase,
    Option<Action>,
))
    ensures
        r == spec_one_shot_step(*phase, *event),
{
    match phase {
        OneShotPhase::AwaitDiscord => match event {
            OneShotEvent::DiscordReady => (OneShotPhase::AwaitGofer, Some(Action::SpawnGofer)),
            OneShotEvent::WorkerFinished(_) => (OneShotPhase::Failed, None),
        },
        OneShotPhase::AwaitGofer => match event {
            OneShotEvent::WorkerFinished(w) => {
                if *w == Worker::Gofer {
                    (OneShotPhase::AwaitAnnouncer, Some(Action::SpawnAnnouncer))
                } else if *w == Worker::DiscordBot {
                    (OneShotPhase::Failed, None)
                } else {
                    (OneShotPhase::AwaitGofer, None)
                }
            },
            OneShotEvent::DiscordReady => (OneShotPhase::AwaitGofer, None),
        },
        OneShotPhase::AwaitAnnouncer => match event {
            OneShotEvent::WorkerFinished(w) => {
                if *w == Worker::Announcer {
                    (OneShotPhase::Finished, Some(Action::Shutdown))
                } else if *w == Worker::DiscordBot {
                    (OneShotPhase::Failed, None)
                } else {
                    (OneShotPhase::AwaitAnnouncer, None)
                }
            },
            OneShotEvent::DiscordReady => (OneShotPhase::AwaitAnnouncer, None),
        },
        OneShotPhase::Finished => (OneShotPhase::Finished, None),
        OneShotPhase::Failed => (OneShotPhase::Failed, None),
    }
}

} // verus!
