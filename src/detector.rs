//! Deciding whether a thread has just been given the sync label.

use vstd::prelude::*;

verus! {

/// A thread's state at one point in time.
#[derive(Debug, Clone)]
pub struct ThreadSnapshot {
    /// The server the thread belongs to, when the platform names one.
    pub server_id: Option<u64>,
    pub channel_id: u64,
    /// The applied label identifiers, in the order the platform gives them.
    pub labels: Vec<u64>,
    pub parent_id: Option<u64>,
    pub name: Option<String>,
}

/// The snapshot carries `label`.
pub open spec fn carries(s: ThreadSnapshot, label: u64) -> bool {
    s.labels@.contains(label)
}

/// A sync-triggering transition: the label is on the thread now, and was not
/// on it before (or nothing was known of it before).
pub open spec fn is_transition(before: Option<ThreadSnapshot>, after: ThreadSnapshot, label: u64) -> bool {
    carries(after, label) && (before is None || !carries(before->0, label))
}

/// Whether `label` is among `labels`.
pub fn has_label(labels: &Vec<u64>, label: u64) -> (r: bool)
    ensures
        r == labels@.contains(label),
{
    let mut i: usize = 0;
    while i < labels.len()
        invariant
            i <= labels@.len(),
            forall|k: int| 0 <= k < i ==> labels@[k] != label,
        decreases labels@.len() - i,
    {
        if labels[i] == label {
            return true;
        }
        i = i + 1;
    }
    false
}

/// Whether the thread has just been given the sync label: it carries the
/// label now, and did not before. A thread seen for the first time counts
/// as not having carried it.
pub fn did_transition(before: &Option<ThreadSnapshot>, after: &ThreadSnapshot, sync_label: u64) -> (r: bool)
    ensures
        r == is_transition(*before, *after, sync_label),
{
    if !has_label(&after.labels, sync_label) {
        return false;
    }
    match before {
        None => true,
        Some(b) => !has_label(&b.labels, sync_label),
    }
}

/// The three cases of the transition rule: a first sighting with the label,
/// a label newly added, and a label that was already there.
pub proof fn lemma_transition_cases(
    before_without: ThreadSnapshot,
    before_with: ThreadSnapshot,
    after: ThreadSnapshot,
    label: u64,
)
    requires
        carries(after, label),
        !carries(before_without, label),
        carries(before_with, label),
    ensures
        is_transition(None, after, label),
        is_transition(Some(before_without), after, label),
        !is_transition(Some(before_with), after, label),
{
}

} // verus!
