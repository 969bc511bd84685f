//! The event consumer: drains queued events in bounded batches and plans one
//! upload per plain-file add/modify event.
//!
//! The consumer owns the shared [`EventQueue`] and a [`ThreadStatus`] flag.
//! Its background loop lives outside this crate; each loop iteration, after
//! its fixed sleep, calls [`FileEventConsumer::tick`], dispatches every event
//! of the returned batch, and stops for good when the returned phase is
//! [`LoopPhase::Exited`]. A dispatch failure never stops the batch: the batch
//! is decided before any dispatch runs, so the remaining events are still
//! attempted and the loop goes on regardless of prior failures.
//!
//! Remove and rename events are not dispatched: deletions and renames are
//! driven directly by the surrounding application rather than inferred from
//! filesystem notifications. Events that concern a directory rather than a
//! plain file are filtered out as well.

use crate::events::drained_of;
use crate::events::remaining_of;
use crate::events::EventQueue;
use crate::events::EventView;
use crate::events::FileAction;
use crate::events::FileEvent;
use crate::system_path::lemma_parse_empty;
use crate::system_path::parse_segs;
use crate::system_path::path_of;
use crate::system_path::SystemPath;
use crate::ThreadStatus;
use vstd::prelude::*;

verus! {

/// Whether a background loop is still iterating or has exited for good.
#[derive(PartialEq, Eq, Structural, Clone, Copy, Debug)]
pub enum LoopPhase {
    /// the loop will run another iteration
    Running,
    /// the loop has exited and never re-enters
    Exited,
}

/// The phase a background loop is in after one iteration that observed the
/// given status: an exited loop stays exited whatever the status says, and a
/// running loop exits exactly when it observes `Kill`.
pub open spec fn phase_after(phase: LoopPhase, status: ThreadStatus) -> LoopPhase {
    if phase == LoopPhase::Exited || status == ThreadStatus::Kill {
        LoopPhase::Exited
    } else {
        LoopPhase::Running
    }
}

/// Whether a consumer iteration in the given phase drains the queue: only a
/// running loop that observes `Resume` does; `Pause` idles and `Kill` exits.
pub open spec fn tick_drains(phase: LoopPhase, status: ThreadStatus) -> bool {
    phase == LoopPhase::Running && status == ThreadStatus::Resume
}

/// Once a loop has exited, no later status write — `Resume` included —
/// resurrects it; and a running loop that observes `Kill` exits.
pub proof fn lemma_kill_is_terminal(status: ThreadStatus)
    ensures
        phase_after(LoopPhase::Exited, status) == LoopPhase::Exited,
        phase_after(LoopPhase::Running, ThreadStatus::Kill) == LoopPhase::Exited,
{
}

/// After a clear the queue is empty, and a consumer tick on an empty queue
/// hands nothing to dispatch, whatever the batch size: no dispatch occurs for
/// cleared events.
pub proof fn lemma_clear_discards(n: int)
    requires
        n >= 0,
    ensures
        drained_of(Seq::<EventView>::empty(), n) == Seq::<EventView>::empty(),
        remaining_of(Seq::<EventView>::empty(), n) == Seq::<EventView>::empty(),
{
    assert(drained_of(Seq::<EventView>::empty(), n) =~= Seq::<EventView>::empty());
    assert(remaining_of(Seq::<EventView>::empty(), n) =~= Seq::<EventView>::empty());
}

/// Dispatch failure isolation: what a tick hands out for dispatch is exactly
/// the most recent batch of the queue — the same events, each exactly once.
/// The batch is fixed before any dispatch runs, so a failure on one event
/// changes nothing about the attempts on the others.
pub proof fn lemma_batch_attempted_once(q: Seq<EventView>, n: int)
    requires
        n >= 0,
    ensures
        drained_of(q, n).to_multiset() == q.skip(q.len() - crate::events::batch_len(
            q,
            n,
        )).to_multiset(),
        drained_of(q, n).len() == crate::events::batch_len(q, n),
{
    q.skip(q.len() - crate::events::batch_len(q, n)).lemma_reverse_to_multiset();
}

/// Consumer for [`FileEvent`]s. The owning tracker toggles it between `Pause`
/// and `Resume` as tracking stops and starts; only explicit teardown requests
/// `Kill`. The batch size is fixed at construction.
pub struct FileEventConsumer {
    /// The queue of events waiting to be consumed
    consumable: EventQueue,
    /// The status the background loop observes on each iteration
    thread_status: ThreadStatus,
    /// How many events are processed in one loop iteration
    batch_size: usize,
}

impl FileEventConsumer {
    /// The views of the queued events, oldest first.
    pub closed spec fn queue_view(&self) -> Seq<EventView> {
        self.consumable@
    }

    /// The status the background loop will observe next.
    pub closed spec fn status(&self) -> ThreadStatus {
        self.thread_status
    }

    /// The fixed batch size.
    pub closed spec fn batch(&self) -> int {
        self.batch_size as int
    }

    /// Create a new consumer: an empty queue, a paused loop, and a batch size
    /// of five.
    pub fn new() -> (r: FileEventConsumer)
        ensures
            r.queue_view() == Seq::<EventView>::empty(),
            r.status() == ThreadStatus::Pause,
            r.batch() == 5,
    {
        FileEventConsumer {
            consumable: EventQueue::new(),
            thread_status: ThreadStatus::Pause,
            batch_size: 5,
        }
    }

    /// A handle on the event queue, for manual injection and inspection.
    pub fn get_data_reference(&mut self) -> (r: &mut EventQueue)
        ensures
            (*r)@ == old(self).queue_view(),
            final(self).queue_view() == (*final(r))@,
            final(self).status() == old(self).status(),
            final(self).batch() == old(self).batch(),
    {
        &mut self.consumable
    }

    /// Let the background loop drain on its next iterations.
    pub fn start(&mut self)
        ensures
            final(self).status() == ThreadStatus::Resume,
            final(self).queue_view() == old(self).queue_view(),
            final(self).batch() == old(self).batch(),
    {
        self.thread_status = ThreadStatus::Resume;
    }

    /// Push an event onto the queue.
    pub fn add_event(&mut self, f: FileEvent)
        ensures
            final(self).queue_view() == old(self).queue_view().push(f@),
            final(self).status() == old(self).status(),
            final(self).batch() == old(self).batch(),
    {
        self.consumable.push(f);
    }

    /// Discard all queued events without processing them.
    pub fn clear(&mut self)
        ensures
            final(self).queue_view() == Seq::<EventView>::empty(),
            final(self).status() == old(self).status(),
            final(self).batch() == old(self).batch(),
    {
        self.consumable.clear();
    }

    /// Idle the background loop: it keeps iterating but stops draining.
    pub fn pause(&mut self)
        ensures
            final(self).status() == ThreadStatus::Pause,
            final(self).queue_view() == old(self).queue_view(),
            final(self).batch() == old(self).batch(),
    {
        self.thread_status = ThreadStatus::Pause;
    }

    /// End the background loop: the next iteration observes `Kill` and exits
    /// for good.
    pub fn end(&mut self)
        ensures
            final(self).status() == ThreadStatus::Kill,
            final(self).queue_view() == old(self).queue_view(),
            final(self).batch() == old(self).batch(),
    {
        self.thread_status = ThreadStatus::Kill;
    }

    /// One iteration of the consumer's background loop, after its sleep: the
    /// batch to dispatch and the phase the loop is in afterwards.
    ///
    /// A running loop that observes `Resume` drains up to the batch size,
    /// most-recently-pushed first; one that observes `Pause` drains nothing;
    /// one that observes `Kill` drains nothing and exits. The whole batch is
    /// decided here, before any dispatch outcome is known.
    pub fn tick(&mut self, phase: LoopPhase) -> (r: (Vec<FileEvent>, LoopPhase))
        ensures
            r.1 == phase_after(phase, old(self).status()),
            final(self).status() == old(self).status(),
            final(self).batch() == old(self).batch(),
            tick_drains(phase, old(self).status()) ==> r.0.deep_view() == drained_of(
                old(self).queue_view(),
                old(self).batch(),
            ) && final(self).queue_view() == remaining_of(
                old(self).queue_view(),
                old(self).batch(),
            ),
            !tick_drains(phase, old(self).status()) ==> r.0.deep_view() == Seq::<
                EventView,
            >::empty() && final(self).queue_view() == old(self).queue_view(),
    {
        let empty_batch: Vec<FileEvent> = Vec::new();
        proof {
            assert(empty_batch.deep_view() =~= Seq::<EventView>::empty());
        }
        if matches!(phase, LoopPhase::Exited) {
            return (empty_batch, LoopPhase::Exited);
        }
        match self.thread_status {
            ThreadStatus::Kill => (empty_batch, LoopPhase::Exited),
            ThreadStatus::Pause => (empty_batch, LoopPhase::Running),
            ThreadStatus::Resume => {
                let batch = self.consumable.drain_batch(self.batch_size);
                (batch, LoopPhase::Running)
            },
        }
    }
}

/// What the dispatch of one add/modify event needs: the directory of the
/// affected file on each side, and the file's name.
pub struct UploadRequest {
    /// The directory that holds the file locally
    pub local_dir: SystemPath,
    /// The corresponding directory on the remote store
    pub remote_dir: SystemPath,
    /// The name of the file itself
    pub filename: String,
}

/// The parent segments and the final name of a Linux-style path string: the
/// parsed segments with the last one split off; a path of at most one segment
/// leaves the root as the parent.
pub open spec fn split_parent(s: Seq<char>) -> (Seq<Seq<char>>, Seq<char>) {
    let segs = parse_segs(s, '/');
    if segs.len() == 0 {
        (seq![seq!['/']], Seq::<char>::empty())
    } else if segs.len() == 1 {
        (seq![seq!['/']], segs[0])
    } else {
        (segs.drop_last(), segs.last())
    }
}

/// Whether an event reaches the dispatch capability at all: only additions
/// and modifications of plain files do. `is_dir` carries what the filesystem
/// said about the local path: `None` when it could not be read (the event is
/// skipped), otherwise whether the entry is a directory.
pub open spec fn dispatchable(e: EventView, is_dir: Option<bool>) -> bool {
    &&& is_dir == Some(false)
    &&& (e.action == FileAction::Added || e.action == FileAction::Modified)
}

/// Decide what, if anything, to dispatch for one drained event.
///
/// Returns an upload request exactly for add/modify events whose local entry
/// the filesystem reports as a plain file; directory events, unreadable
/// entries, removals, renames and other actions yield nothing. The request
/// splits each path into the containing directory and the file name.
pub fn plan_dispatch(event: &FileEvent, is_dir: Option<bool>) -> (r: Option<UploadRequest>)
    ensures
        r is Some <==> dispatchable(event@, is_dir),
        r is Some ==> {
            let req = r->Some_0;
            &&& req.local_dir.segs() == split_parent(event@.local_path).0
            &&& req.local_dir.str_view() == path_of(req.local_dir.segs())
            &&& req.remote_dir.segs() == split_parent(event@.remote_path).0
            &&& req.remote_dir.str_view() == path_of(req.remote_dir.segs())
            &&& req.filename@ == split_parent(event@.local_path).1
        },
{
    match is_dir {
        None => {
            return None;
        },
        Some(true) => {
            return None;
        },
        Some(false) => {},
    }
    match event.action() {
        FileAction::Added | FileAction::Modified => {
            let ghost lp_chars = event@.local_path;
            let ghost rp_chars = event@.remote_path;
            let mut local_dir = SystemPath::new();
            let lp_string = event.local_path().clone();
            proof {
                assert(lp_string@ == lp_chars);
            }
            local_dir.set_path(lp_string);
            proof {
                if lp_chars.len() == 0 {
                    assert(lp_chars =~= Seq::<char>::empty());
                    lemma_parse_empty('/');
                }
                assert(local_dir.segs() == parse_segs(lp_chars, '/'));
            }
            let filename = local_dir.popd();
            proof {
                assert(local_dir.segs() == split_parent(lp_chars).0 && filename@ == split_parent(
                    lp_chars,
                ).1);
            }
            let mut remote_dir = SystemPath::new();
            remote_dir.set_path(event.remote_path().clone());
            proof {
                if rp_chars.len() == 0 {
                    assert(rp_chars =~= Seq::<char>::empty());
                    lemma_parse_empty('/');
                }
                assert(remote_dir.segs() == parse_segs(rp_chars, '/'));
            }
            remote_dir.popd();
            proof {
                assert(remote_dir.segs() == split_parent(rp_chars).0);
            }
            Some(UploadRequest { local_dir, remote_dir, filename })
        },
        _ => None,
    }
}

} // verus!
