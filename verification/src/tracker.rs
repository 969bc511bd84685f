//! The composition root of the change-detection pipeline: one watcher, one
//! consumer, and the lifecycle operations that coordinate them.
//!
//! A tracker owns the watched root path, the control flag the watcher's
//! background loop observes, and the event consumer. Starting tracking marks
//! the watcher loop active and resumes both loops; stopping it asks the
//! watcher loop to die and pauses and clears the consumer, discarding
//! whatever events were still queued — stopping dispatches nothing. The
//! consumer's own background loop is never killed by a stop: it is paused and
//! later resumed by the next start, for the lifetime of the tracker.
//!
//! The watcher's thread itself lives outside this crate. It must report its
//! exit (after observing `Kill`, or after a fatal streaming error) through
//! [`DirectoryTracker::watcher_exited`]; a new watch can only start once the
//! previous loop has done so, which rules out two watcher loops feeding the
//! same queue.

use crate::consumer::FileEventConsumer;
use crate::events::EventView;
use crate::system_path::SystemPath;
use crate::ThreadStatus;
use vstd::prelude::*;

verus! {

/// Tracks all file events under one directory: the watched path, the watcher
/// loop's control flag, and the consumer of the decoded events.
pub struct DirectoryTracker {
    /// The directory being tracked
    path: SystemPath,
    /// The status the watcher's background loop observes
    thread_control: ThreadStatus,
    /// The consumer for the decoded file events
    consumer: FileEventConsumer,
    /// Whether a watcher loop is currently active
    tracking: bool,
}

impl DirectoryTracker {
    /// The segments of the watched path.
    pub closed spec fn path_segs(&self) -> Seq<Seq<char>> {
        self.path.segs()
    }

    /// The rendered string of the watched path.
    pub closed spec fn path_str(&self) -> Seq<char> {
        self.path.str_view()
    }

    /// The status the watcher loop will observe next.
    pub closed spec fn watcher_control(&self) -> ThreadStatus {
        self.thread_control
    }

    /// The status the consumer loop will observe next.
    pub closed spec fn consumer_status(&self) -> ThreadStatus {
        self.consumer.status()
    }

    /// The views of the queued events.
    pub closed spec fn queue_view(&self) -> Seq<EventView> {
        self.consumer.queue_view()
    }

    /// The consumer's batch size.
    pub closed spec fn batch(&self) -> int {
        self.consumer.batch()
    }

    /// Whether a watcher loop is currently active.
    pub closed spec fn is_tracking(&self) -> bool {
        self.tracking
    }

    /// Create a new tracker for the given path: no watcher loop is active
    /// yet, and the consumer starts paused with an empty queue.
    pub fn new(path: SystemPath) -> (r: DirectoryTracker)
        ensures
            r.path_segs() == path.segs(),
            r.path_str() == path.str_view(),
            r.watcher_control() == ThreadStatus::Resume,
            r.consumer_status() == ThreadStatus::Pause,
            r.queue_view() == Seq::<EventView>::empty(),
            r.batch() == 5,
            !r.is_tracking(),
    {
        DirectoryTracker {
            path,
            thread_control: ThreadStatus::Resume,
            consumer: FileEventConsumer::new(),
            tracking: false,
        }
    }

    /// Begin tracking a path: store it, let the watcher loop run, resume the
    /// consumer, and mark the watcher active.
    ///
    /// A new watch may only start when no watcher loop is active; the caller
    /// acquires the watch handle first (a failure there is a fatal setup
    /// error and never reaches this function) and spawns the loop afterwards.
    pub fn start_tracking(&mut self, path: &SystemPath)
        requires
            !old(self).is_tracking(),
        ensures
            final(self).path_segs() == path.segs(),
            final(self).path_str() == path.str_view(),
            final(self).watcher_control() == ThreadStatus::Resume,
            final(self).consumer_status() == ThreadStatus::Resume,
            final(self).queue_view() == old(self).queue_view(),
            final(self).batch() == old(self).batch(),
            final(self).is_tracking(),
    {
        self.thread_control = ThreadStatus::Resume;
        self.path = path.clone();
        self.consumer.start();
        self.tracking = true;
    }

    /// Stop tracking: ask the watcher loop to die, pause the consumer, and
    /// discard all queued events — nothing queued at a stop is ever
    /// dispatched. The consumer loop itself stays alive, merely paused, and
    /// the watcher loop stays marked active until it reports its exit.
    pub fn stop_tracking(&mut self)
        ensures
            final(self).watcher_control() == ThreadStatus::Kill,
            final(self).consumer_status() == ThreadStatus::Pause,
            final(self).queue_view() == Seq::<EventView>::empty(),
            final(self).batch() == old(self).batch(),
            final(self).path_segs() == old(self).path_segs(),
            final(self).path_str() == old(self).path_str(),
            final(self).is_tracking() == old(self).is_tracking(),
    {
        self.thread_control = ThreadStatus::Kill;
        self.consumer.pause();
        self.consumer.clear();
    }

    /// The watcher loop reports that it has exited — after observing `Kill`,
    /// or after a fatal streaming error. Only then may a new watch start.
    pub fn watcher_exited(&mut self)
        ensures
            !final(self).is_tracking(),
            final(self).watcher_control() == old(self).watcher_control(),
            final(self).consumer_status() == old(self).consumer_status(),
            final(self).queue_view() == old(self).queue_view(),
            final(self).batch() == old(self).batch(),
            final(self).path_segs() == old(self).path_segs(),
            final(self).path_str() == old(self).path_str(),
    {
        self.tracking = false;
    }

    /// The status the watcher loop observes on this iteration.
    pub fn watcher_status(&self) -> (r: ThreadStatus)
        ensures
            r == self.watcher_control(),
    {
        self.thread_control
    }

    /// Whether a watcher loop is currently active.
    pub fn tracking_active(&self) -> (r: bool)
        ensures
            r == self.is_tracking(),
    {
        self.tracking
    }

    /// The watched path.
    pub fn path_ref(&self) -> (r: &SystemPath)
        ensures
            r.segs() == self.path_segs(),
            r.str_view() == self.path_str(),
    {
        &self.path
    }

    /// The consumer, for driving its loop and feeding its queue.
    pub fn consumer_mut(&mut self) -> (r: &mut FileEventConsumer)
        ensures
            (*r).queue_view() == old(self).queue_view(),
            (*r).status() == old(self).consumer_status(),
            (*r).batch() == old(self).batch(),
            final(self).queue_view() == (*final(r)).queue_view(),
            final(self).consumer_status() == (*final(r)).status(),
            final(self).batch() == (*final(r)).batch(),
            final(self).watcher_control() == old(self).watcher_control(),
            final(self).path_segs() == old(self).path_segs(),
            final(self).path_str() == old(self).path_str(),
            final(self).is_tracking() == old(self).is_tracking(),
    {
        &mut self.consumer
    }
}

} // verus!
