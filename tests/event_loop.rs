use forum_sync::driver::{EventAction, SyncConfig, ThreadEvent};
use forum_sync::snapshots::{new_snapshot_cache, process_event};
use twilight_model::channel::{Channel, ChannelType};
use twilight_model::gateway::event::Event;
use twilight_model::gateway::payload::incoming::ThreadUpdate;
use twilight_model::id::Id;

const FORUM: u64 = 900;
const LABEL: u64 = 7;

fn config() -> SyncConfig {
    SyncConfig { server_id: 555, sync_label: LABEL, forum_channel_id: FORUM }
}

fn thread_channel(id: u64, parent: u64, tags: &[u64], name: &str) -> Channel {
    Channel {
        application_id: None,
        applied_tags: Some(tags.iter().map(|t| Id::new(*t)).collect()),
        available_tags: None,
        bitrate: None,
        default_auto_archive_duration: None,
        default_forum_layout: None,
        default_reaction_emoji: None,
        default_sort_order: None,
        default_thread_rate_limit_per_user: None,
        flags: None,
        guild_id: Some(Id::new(555)),
        icon: None,
        id: Id::new(id),
        invitable: None,
        kind: ChannelType::PublicThread,
        last_message_id: None,
        last_pin_timestamp: None,
        managed: None,
        member: None,
        member_count: None,
        message_count: None,
        name: Some(name.to_string()),
        newly_created: None,
        nsfw: None,
        owner_id: None,
        parent_id: Some(Id::new(parent)),
        permission_overwrites: None,
        position: None,
        rate_limit_per_user: None,
        recipients: None,
        rtc_region: None,
        thread_metadata: None,
        topic: None,
        user_limit: None,
        video_quality_mode: None,
    }
}

fn update(channel: Channel) -> Event {
    Event::ThreadUpdate(Box::new(ThreadUpdate(channel)))
}

#[test]
fn tagged_thread_syncs_once_through_the_cache() {
    let mut cache = new_snapshot_cache();
    let first = process_event(&config(), &mut cache, &update(thread_channel(42, FORUM, &[LABEL], "Crash")));
    assert!(first.before.is_none());
    assert_eq!(first.action, EventAction::SyncThread { channel_id: 42, seed_message_id: 42 });
    match &first.event {
        ThreadEvent::ThreadUpdate(t) => {
            assert_eq!(t.channel_id, 42);
            assert_eq!(t.labels, vec![LABEL]);
            assert_eq!(t.parent_id, Some(FORUM));
            assert_eq!(t.server_id, Some(555));
            assert_eq!(t.name.as_deref(), Some("Crash"));
        }
        other => panic!("unexpected {:?}", other),
    }
    let second = process_event(&config(), &mut cache, &update(thread_channel(42, FORUM, &[LABEL], "Crash")));
    assert_eq!(second.before.as_ref().map(|b| b.labels.clone()), Some(vec![LABEL]));
    assert_eq!(second.action, EventAction::Ignore);
}

#[test]
fn label_added_after_first_sighting_syncs() {
    let mut cache = new_snapshot_cache();
    let first = process_event(&config(), &mut cache, &update(thread_channel(43, FORUM, &[3], "Lag")));
    assert_eq!(first.action, EventAction::Ignore);
    let second = process_event(&config(), &mut cache, &update(thread_channel(43, FORUM, &[3, LABEL], "Lag")));
    assert_eq!(second.action, EventAction::SyncThread { channel_id: 43, seed_message_id: 43 });
}

#[test]
fn other_events_reach_no_decision() {
    let mut cache = new_snapshot_cache();
    let d = process_event(&config(), &mut cache, &Event::GatewayReconnect);
    assert_eq!(d.action, EventAction::Ignore);
    assert!(d.before.is_none());
    assert!(matches!(d.event, ThreadEvent::Other));
}

#[test]
fn thread_of_another_forum_is_ignored_through_the_cache() {
    let mut cache = new_snapshot_cache();
    let d = process_event(&config(), &mut cache, &update(thread_channel(44, FORUM + 1, &[LABEL], "Other")));
    assert_eq!(d.action, EventAction::Ignore);
}

#[test]
fn cached_state_of_another_thread_is_not_read() {
    let mut cache = new_snapshot_cache();
    let first = process_event(&config(), &mut cache, &update(thread_channel(45, FORUM, &[LABEL], "One")));
    assert_eq!(first.action, EventAction::SyncThread { channel_id: 45, seed_message_id: 45 });
    let other = process_event(&config(), &mut cache, &update(thread_channel(46, FORUM, &[LABEL], "Two")));
    assert!(other.before.is_none());
    assert_eq!(other.action, EventAction::SyncThread { channel_id: 46, seed_message_id: 46 });
}
