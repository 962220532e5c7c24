//! The event loop's use of the snapshot cache: the cached state of a thread is
//! read before the cache takes in the event, and the decision is taken on it.

use vstd::prelude::*;
use twilight_cache_inmemory::InMemoryCache;
use twilight_model::gateway::event::Event;
use crate::detector::{ThreadSnapshot, carries};
use crate::driver::{EventAction, SyncConfig, ThreadEvent, event_action, handle_tag_updates};

verus! {

#[verifier::external_type_specification]
#[verifier::external_body]
pub struct ExInMemoryCache(InMemoryCache);

#[verifier::external_type_specification]
#[verifier::external_body]
pub struct ExEvent(Event);

/// What the cache holds: for each cached channel, its applied label identifiers.
pub uninterp spec fn cached_thread_labels(cache: InMemoryCache) -> Map<u64, Seq<u64>>;

/// The cache was configured to keep channels.
pub uninterp spec fn keeps_channels(cache: InMemoryCache) -> bool;

/// Relies on `InMemoryCache::builder`, `resource_types(ResourceType::CHANNEL)`
/// and `build`: an empty cache that keeps channels.
#[verifier::external_body]
fn channel_cache() -> (r: InMemoryCache)
    ensures
        keeps_channels(r),
        cached_thread_labels(r).dom() == Set::<u64>::empty(),
{
    InMemoryCache::builder().resource_types(twilight_cache_inmemory::ResourceType::CHANNEL).build()
}

/// Relies on `InMemoryCache::channel`: channels are stored under their own
/// identifier, and a copy of the one asked for is made as plain values.
#[verifier::external_body]
fn cached_snapshot(cache: &InMemoryCache, channel_id: u64) -> (r: Option<ThreadSnapshot>)
    ensures
        r is Some <==> cached_thread_labels(*cache).contains_key(channel_id),
        r matches Some(s) ==> s.channel_id == channel_id && s.labels@ == cached_thread_labels(
            *cache,
        )[channel_id],
{
    let c = cache.channel(twilight_model::id::Id::new_checked(channel_id)?)?;
    let c = c.value();
    Some(ThreadSnapshot {
        server_id: c.guild_id.map(|g| g.get()),
        channel_id: c.id.get(),
        labels: c.applied_tags.as_ref().map_or(Vec::new(), |t| t.iter().map(|i| i.get()).collect()),
        parent_id: c.parent_id.map(|p| p.get()),
        name: c.name.clone(),
    })
}

/// Relies on twilight_model's `Event::ThreadUpdate` variant: the identifier
/// of the updated thread, for a thread update, and nothing for any other event.
#[verifier::external_body]
fn thread_update_id(event: &Event) -> (r: Option<u64>) {
    match event {
        Event::ThreadUpdate(update) => Some(update.0.id.get()),
        _ => None,
    }
}

/// Relies on `InMemoryCache::update`: a cache that keeps channels stores the
/// channel of a thread update under its identifier, replacing what it held;
/// the thread is handed back as plain values. The configuration is unchanged.
#[verifier::external_body]
fn take_in(cache: &mut InMemoryCache, event: &Event) -> (r: Option<ThreadSnapshot>)
    ensures
        keeps_channels(*final(cache)) == keeps_channels(*old(cache)),
        keeps_channels(*old(cache)) ==> (r matches Some(t) ==> cached_thread_labels(*final(cache))
            == cached_thread_labels(*old(cache)).insert(t.channel_id, t.labels@)),
{
    cache.update(event);
    let Event::ThreadUpdate(update) = event else { return None };
    let c = &update.0;
    Some(ThreadSnapshot {
        server_id: c.guild_id.map(|g| g.get()),
        channel_id: c.id.get(),
        labels: c.applied_tags.as_ref().map_or(Vec::new(), |t| t.iter().map(|i| i.get()).collect()),
        parent_id: c.parent_id.map(|p| p.get()),
        name: c.name.clone(),
    })
}

/// An empty snapshot cache that keeps channels.
pub fn new_snapshot_cache() -> (r: InMemoryCache)
    ensures
        keeps_channels(r),
        cached_thread_labels(r).dom() == Set::<u64>::empty(),
{
    channel_cache()
}

/// What the loop decided for one event, and on what.
#[derive(Debug, Clone)]
pub struct EventDecision {
    pub action: EventAction,
    /// The thread's state as the cache held it before the event.
    pub before: Option<ThreadSnapshot>,
    /// The event, reduced to what the engine reads.
    pub event: ThreadEvent,
}

/// Takes one event of the stream: reads the thread's cached state, lets the
/// cache take in the event, and decides on the state read before.
pub fn process_event(config: &SyncConfig, cache: &mut InMemoryCache, event: &Event) -> (r: EventDecision)
    ensures
        r.action == event_action(*config, r.before, r.event),
        r.before matches Some(b) ==> (r.event matches ThreadEvent::ThreadUpdate(a) && b.channel_id
            == a.channel_id),
        r.event matches ThreadEvent::ThreadUpdate(a) ==> (r.before is Some <==> cached_thread_labels(
            *old(cache),
        ).contains_key(a.channel_id)),
        r.event matches ThreadEvent::ThreadUpdate(a) ==> (r.before matches Some(b) ==> b.labels@
            == cached_thread_labels(*old(cache))[a.channel_id]),
        keeps_channels(*old(cache)) ==> (r.event matches ThreadEvent::ThreadUpdate(a)
            ==> cached_thread_labels(*final(cache)) == cached_thread_labels(*old(cache)).insert(
            a.channel_id,
            a.labels@,
        )),
        keeps_channels(*final(cache)) == keeps_channels(*old(cache)),
        !(r.action is StopLoop),
{
    let key = thread_update_id(event);
    let before = match key {
        Some(id) => cached_snapshot(cache, id),
        None => None,
    };
    let seen = take_in(cache, event);
    // The event's thread is read twice: once for the key, once as the cache
    // took it in. Where the two readings disagree, the event is not acted on.
    let (thread_event, before) = match seen {
        Some(t) => match key {
            Some(id) => if id == t.channel_id {
                (ThreadEvent::ThreadUpdate(t), before)
            } else {
                (ThreadEvent::Other, None)
            },
            None => (ThreadEvent::Other, None),
        },
        None => (ThreadEvent::Other, None),
    };
    let action = handle_tag_updates(config, &before, &thread_event);
    EventDecision { action, before, event: thread_event }
}

/// Once a cache that keeps channels has taken in an update of a thread that
/// carries the sync label, the next update of that thread syncs nothing: the
/// state read for it then carries the label.
pub proof fn lemma_cached_update_not_synced_again(
    config: SyncConfig,
    first: ThreadSnapshot,
    held: Map<u64, Seq<u64>>,
    before: Option<ThreadSnapshot>,
    second: ThreadSnapshot,
)
    requires
        carries(first, config.sync_label),
        second.channel_id == first.channel_id,
        before is Some <==> held.insert(first.channel_id, first.labels@).contains_key(second.channel_id),
        before matches Some(b) ==> b.labels@ == held.insert(first.channel_id, first.labels@)[second.channel_id],
    ensures
        event_action(config, before, ThreadEvent::ThreadUpdate(second)) == EventAction::Ignore,
{
    assert(before->0.labels@ == first.labels@);
}

} // verus!
