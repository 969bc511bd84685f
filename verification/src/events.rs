//! Change events and the shared event queue.
//!
//! A [`FileEvent`] describes one filesystem mutation: the kind of action, the
//! path of the affected entry on the local filesystem, and the corresponding
//! path on the remote store. Events are created by the watcher's decode step,
//! queued in an [`EventQueue`], and either consumed exactly once by the
//! consumer loop or discarded unconsumed by an explicit clear.
//!
//! Draining pops from the tail of the queue, so a batch comes out
//! most-recently-pushed first; the events left behind keep their order,
//! oldest first.

use vstd::prelude::*;
use vstd::seq_lib::*;

verus! {

/// The kind of filesystem mutation a change record reports.
#[derive(PartialEq, Eq, Structural, Clone, Copy, Debug)]
pub enum FileAction {
    /// a file or directory was created
    Added,
    /// a file or directory was removed
    Removed,
    /// a file's contents were written
    Modified,
    /// one half of a rename: the record carries the old name
    RenamedOldName,
    /// the other half of a rename: the record carries the new name
    RenamedNewName,
    /// any other nonzero action code the notification reported
    Other(u32),
}

/// The mathematical value of a [`FileEvent`]: the action together with both
/// paths as character sequences.
pub ghost struct EventView {
    pub action: FileAction,
    pub local_path: Seq<char>,
    pub remote_path: Seq<char>,
}

/// One decoded filesystem change notification, immutable once constructed.
#[derive(Debug)]
pub struct FileEvent {
    /// The kind of file action the notification reported
    event_type: FileAction,
    /// Path to the affected file on the remote store
    remote_file_path: String,
    /// Local path to the affected file
    local_file_path: String,
}

impl View for FileEvent {
    type V = EventView;

    closed spec fn view(&self) -> EventView {
        EventView {
            action: self.event_type,
            local_path: self.local_file_path@,
            remote_path: self.remote_file_path@,
        }
    }
}

impl DeepView for FileEvent {
    type V = EventView;

    open spec fn deep_view(&self) -> EventView {
        self.view()
    }
}

impl FileEvent {
    /// Create a new event with the given action and local and remote paths.
    pub fn new(event_type: FileAction, local_path: String, remote_path: String) -> (r: FileEvent)
        ensures
            r@ == (EventView { action: event_type, local_path: local_path@, remote_path: remote_path@ }),
    {
        FileEvent { event_type, local_file_path: local_path, remote_file_path: remote_path }
    }

    /// The kind of action this event reports.
    pub fn action(&self) -> (r: FileAction)
        ensures
            r == self@.action,
    {
        self.event_type
    }

    /// The path of the affected entry on the local filesystem.
    pub fn local_path(&self) -> (r: &String)
        ensures
            r@ == self@.local_path,
    {
        &self.local_file_path
    }

    /// The corresponding path on the remote store.
    pub fn remote_path(&self) -> (r: &String)
        ensures
            r@ == self@.remote_path,
    {
        &self.remote_file_path
    }
}

/// How many events a drain of `n` removes from a queue of view `q`: `n`, or
/// the whole queue when fewer are present.
pub open spec fn batch_len(q: Seq<EventView>, n: int) -> int {
    if n <= q.len() {
        n
    } else {
        q.len() as int
    }
}

/// What a drain of `n` returns: the last `batch_len` events of the queue,
/// most-recently-pushed first.
pub open spec fn drained_of(q: Seq<EventView>, n: int) -> Seq<EventView> {
    q.skip(q.len() - batch_len(q, n)).reverse()
}

/// What a drain of `n` leaves behind: the first events of the queue, in their
/// previous order.
pub open spec fn remaining_of(q: Seq<EventView>, n: int) -> Seq<EventView> {
    q.take(q.len() - batch_len(q, n))
}

/// A mutable, insertion-ordered sequence of [`FileEvent`]s.
///
/// Only the watcher appends, and only the consumer (by draining) or the
/// tracker's stop operation (by clearing) removes; none of the operations
/// fail.
pub struct EventQueue {
    events: Vec<FileEvent>,
}

impl View for EventQueue {
    type V = Seq<EventView>;

    closed spec fn view(&self) -> Seq<EventView> {
        self.events.deep_view()
    }
}

impl EventQueue {
    /// Create a new empty queue.
    pub fn new() -> (r: EventQueue)
        ensures
            r@ == Seq::<EventView>::empty(),
    {
        let r = EventQueue { events: Vec::new() };
        proof {
            assert(r@ =~= Seq::<EventView>::empty());
        }
        r
    }

    /// The number of pending events.
    pub fn len(&self) -> (r: usize)
        ensures
            r == self@.len(),
    {
        self.events.len()
    }

    /// Append an event at the tail of the queue.
    pub fn push(&mut self, event: FileEvent)
        ensures
            final(self)@ == old(self)@.push(event@),
    {
        let ghost e = event@;
        self.events.push(event);
        proof {
            assert(self@ =~= old(self)@.push(e));
        }
    }

    /// Remove all pending events without handing any of them on.
    pub fn clear(&mut self)
        ensures
            final(self)@ == Seq::<EventView>::empty(),
    {
        self.events.clear();
        proof {
            assert(self@ =~= Seq::<EventView>::empty());
        }
    }

    /// Remove and return at most `max_count` events. The returned batch pops
    /// from the tail, most-recently-pushed first; whatever stays in the queue
    /// keeps its order, oldest first.
    pub fn drain_batch(&mut self, max_count: usize) -> (r: Vec<FileEvent>)
        ensures
            r.deep_view() == drained_of(old(self)@, max_count as int),
            final(self)@ == remaining_of(old(self)@, max_count as int),
    {
        let ghost q0 = self@;
        let mut local: Vec<FileEvent> = Vec::new();
        let mut loop_size = max_count;
        if loop_size > self.events.len() {
            loop_size = self.events.len();
        }
        let ghost k = loop_size as int;
        let mut j: usize = 0;
        proof {
            assert(local.deep_view() =~= Seq::<EventView>::empty());
            assert(self@ =~= q0.take(q0.len() as int));
        }
        while j < loop_size
            invariant
                j <= loop_size,
                k == loop_size as int,
                k <= q0.len(),
                self.events.deep_view() == q0.take(q0.len() - j),
                local.deep_view() == Seq::new(j as nat, |i: int| q0[q0.len() - 1 - i]),
            decreases loop_size - j,
        {
            let ghost evs0 = self.events.deep_view();
            let ghost loc0 = local.deep_view();
            let popped = self.events.pop();
            match popped {
                Some(e) => {
                    proof {
                        assert(e@ == evs0[evs0.len() - 1]);
                        assert(evs0[evs0.len() - 1] == q0[q0.len() - 1 - j]);
                        assert(self.events.deep_view() =~= q0.take(q0.len() - (j + 1)));
                    }
                    let ghost ev = e@;
                    local.push(e);
                    proof {
                        assert(local.deep_view() =~= loc0.push(ev));
                        assert(loc0.push(ev) =~= Seq::new(
                            (j + 1) as nat,
                            |i: int| q0[q0.len() - 1 - i],
                        ));
                    }
                },
                None => {
                    proof {
                        assert(false);
                    }
                },
            }
            j = j + 1;
        }
        proof {
            assert(local.deep_view() =~= drained_of(q0, max_count as int));
            assert(self.events.deep_view() =~= remaining_of(q0, max_count as int));
        }
        local
    }
}

/// Draining at least as many events as are queued returns the whole queue —
/// the same events, as a multiset — and leaves the queue empty.
pub proof fn lemma_drain_batch_full(q: Seq<EventView>, n: int)
    requires
        n >= q.len(),
    ensures
        drained_of(q, n).to_multiset() == q.to_multiset(),
        drained_of(q, n).len() == q.len(),
        remaining_of(q, n) == Seq::<EventView>::empty(),
{
    assert(q.skip(0) =~= q);
    q.lemma_reverse_to_multiset();
    assert(remaining_of(q, n) =~= Seq::<EventView>::empty());
}

/// Draining fewer events than are queued returns exactly the `n`
/// most-recently-pushed ones, latest first, and leaves the remainder in the
/// queue, oldest first.
pub proof fn lemma_drain_batch_partial(q: Seq<EventView>, n: int)
    requires
        0 <= n < q.len(),
    ensures
        drained_of(q, n).len() == n,
        forall|i: int| 0 <= i < n ==> drained_of(q, n)[i] == q[q.len() - 1 - i],
        remaining_of(q, n) == q.take(q.len() - n),
        forall|i: int| 0 <= i < q.len() - n ==> remaining_of(q, n)[i] == q[i],
{
}

} // verus!
