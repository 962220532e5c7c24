//! What the event loop does with each event: the decision is taken here, on
//! the cached snapshot handed over by value before the cache is updated.

use vstd::prelude::*;
use crate::detector::{ThreadSnapshot, is_transition, did_transition, carries};

verus! {

/// The identifiers that the engine is configured with.
#[derive(Debug, Clone, Copy, PartialEq, Eq, Structural)]
pub struct SyncConfig {
    /// The server whose threads are synced.
    pub server_id: u64,
    /// The label whose addition triggers a sync.
    pub sync_label: u64,
    /// The forum whose threads are bug reports.
    pub forum_channel_id: u64,
}

/// An event of the stream, reduced to what the engine reads.
#[derive(Debug, Clone)]
pub enum ThreadEvent {
    /// A thread's metadata changed; the snapshot is its new state.
    ThreadUpdate(ThreadSnapshot),
    /// Any other kind of event.
    Other,
    /// The stream failed to yield an event.
    StreamFailure { fatal: bool },
}

/// What the event loop is to do for one event, before it updates the cache.
#[derive(Debug, Clone, Copy, PartialEq, Eq, Structural)]
pub enum EventAction {
    Ignore,
    /// Create an issue for the thread from its seed message, migrate the
    /// seed message's attachments and reply in the thread.
    SyncThread { channel_id: u64, seed_message_id: u64 },
    /// The stream cannot go on: leave the loop.
    StopLoop,
}

/// The thread is a report of the configured forum.
pub open spec fn in_forum(config: SyncConfig, t: ThreadSnapshot) -> bool {
    t.parent_id == Some(config.forum_channel_id)
}

pub open spec fn event_action(config: SyncConfig, cached: Option<ThreadSnapshot>, event: ThreadEvent) -> EventAction {
    match event {
        ThreadEvent::ThreadUpdate(after) => {
            if in_forum(config, after) && is_transition(cached, after, config.sync_label) {
                EventAction::SyncThread { channel_id: after.channel_id, seed_message_id: after.channel_id }
            } else {
                EventAction::Ignore
            }
        },
        ThreadEvent::Other => EventAction::Ignore,
        ThreadEvent::StreamFailure { fatal } => if fatal {
            EventAction::StopLoop
        } else {
            EventAction::Ignore
        },
    }
}

/// Decides what to do with `event`, given the thread's snapshot as the cache
/// held it before this event. The seed message of a forum thread shares the
/// thread's identifier.
pub fn handle_tag_updates(config: &SyncConfig, cached: &Option<ThreadSnapshot>, event: &ThreadEvent) -> (r: EventAction)
    ensures
        r == event_action(*config, *cached, *event),
{
    match event {
        ThreadEvent::ThreadUpdate(after) => {
            if after.parent_id != Some(config.forum_channel_id) {
                return EventAction::Ignore;
            }
            if did_transition(cached, after, config.sync_label) {
                EventAction::SyncThread { channel_id: after.channel_id, seed_message_id: after.channel_id }
            } else {
                EventAction::Ignore
            }
        },
        ThreadEvent::Other => EventAction::Ignore,
        ThreadEvent::StreamFailure { fatal } => if *fatal {
            EventAction::StopLoop
        } else {
            EventAction::Ignore
        },
    }
}

/// Only a fatal stream failure ends the loop; no other event does.
pub proof fn lemma_only_fatal_failure_stops(config: SyncConfig, cached: Option<ThreadSnapshot>, event: ThreadEvent)
    ensures
        event_action(config, cached, event) == EventAction::StopLoop <==> event == (ThreadEvent::StreamFailure {
            fatal: true,
        }),
{
}

/// The stages of syncing one thread, in the order they run.
#[derive(Debug, Clone, Copy, PartialEq, Eq, Structural)]
pub enum SyncStage {
    /// Fetch the thread's seed message.
    FetchSeed,
    /// Create the issue.
    CreateIssue,
    /// Move the seed message's attachments to the issue.
    MigrateAttachments,
    /// Post the synced reply in the thread.
    PostReply,
}

pub open spec fn stage_at(i: int) -> SyncStage {
    if i == 0 {
        SyncStage::FetchSeed
    } else if i == 1 {
        SyncStage::CreateIssue
    } else if i == 2 {
        SyncStage::MigrateAttachments
    } else {
        SyncStage::PostReply
    }
}

/// What the sync of a thread asks for next.
#[derive(Debug, Clone, Copy, PartialEq, Eq, Structural)]
pub enum WorkflowStep {
    Perform(SyncStage),
    /// Every stage went through.
    Synced,
    /// The stage failed; the sync of this event is given up, with no retry.
    Abandoned(SyncStage),
}

/// The progress of the sync of one thread.
#[derive(Debug, Clone, Copy, PartialEq, Eq, Structural)]
pub struct SyncWorkflow {
    pub channel_id: u64,
    /// How many stages went through.
    pub completed: usize,
    pub abandoned: bool,
}

impl SyncWorkflow {
    pub open spec fn wf(self) -> bool {
        self.completed <= 4 && (self.abandoned ==> self.completed < 4)
    }

    pub open spec fn step(self) -> WorkflowStep {
        if self.abandoned {
            WorkflowStep::Abandoned(stage_at(self.completed as int))
        } else if self.completed < 4 {
            WorkflowStep::Perform(stage_at(self.completed as int))
        } else {
            WorkflowStep::Synced
        }
    }

    /// The sync of `channel_id`, nothing done yet.
    pub fn new(channel_id: u64) -> (r: SyncWorkflow)
        ensures
            r.wf(),
            r == (SyncWorkflow { channel_id, completed: 0, abandoned: false }),
    {
        SyncWorkflow { channel_id, completed: 0, abandoned: false }
    }

    /// What to do next.
    pub fn next_step(&self) -> (r: WorkflowStep)
        ensures
            r == self.step(),
    {
        let stage = if self.completed == 0 {
            SyncStage::FetchSeed
        } else if self.completed == 1 {
            SyncStage::CreateIssue
        } else if self.completed == 2 {
            SyncStage::MigrateAttachments
        } else {
            SyncStage::PostReply
        };
        if self.abandoned {
            WorkflowStep::Abandoned(stage)
        } else if self.completed < 4 {
            WorkflowStep::Perform(stage)
        } else {
            WorkflowStep::Synced
        }
    }

    /// Records whether the stage that `next_step` asked for went through.
    pub fn record(&mut self, succeeded: bool)
        requires
            old(self).wf(),
            old(self).step() is Perform,
        ensures
            final(self).wf(),
            final(self).channel_id == old(self).channel_id,
            succeeded ==> final(self).completed == old(self).completed + 1 && !final(self).abandoned,
            !succeeded ==> final(self).completed == old(self).completed && final(self).abandoned,
    {
        if succeeded {
            self.completed = self.completed + 1;
        } else {
            self.abandoned = true;
        }
    }
}

/// The stages run in their order: a stage is asked for only once every
/// stage before it went through, so the reply is posted only after the issue
/// was created and the attachments moved; once a stage fails, no stage is
/// asked for again.
pub proof fn lemma_workflow_order(w: SyncWorkflow, succeeded: bool)
    requires
        w.wf(),
    ensures
        w.step() matches WorkflowStep::Perform(s) ==> s == stage_at(w.completed as int)
            && !w.abandoned,
        w.step() == WorkflowStep::Perform(SyncStage::PostReply) ==> w.completed == 3,
        w.abandoned ==> !(w.step() is Perform),
{
}

/// An update of a thread outside the configured forum is ignored, whatever
/// its labels and whatever the cache held.
pub proof fn lemma_foreign_thread_ignored(config: SyncConfig, cached: Option<ThreadSnapshot>, after: ThreadSnapshot)
    requires
        after.parent_id != Some(config.forum_channel_id),
    ensures
        event_action(config, cached, ThreadEvent::ThreadUpdate(after)) == EventAction::Ignore,
{
}

/// Once the cache holds a snapshot that carries the sync label, a later
/// update of that thread causes no second sync: in particular the same update
/// seen twice, with the cache refreshed in between, syncs at most once.
pub proof fn lemma_sync_at_most_once(config: SyncConfig, cached: ThreadSnapshot, after: ThreadSnapshot)
    requires
        carries(cached, config.sync_label),
    ensures
        event_action(config, Some(cached), ThreadEvent::ThreadUpdate(after)) == EventAction::Ignore,
        event_action(config, Some(after), ThreadEvent::ThreadUpdate(after)) == EventAction::Ignore,
{
}

} // verus!
