use forum_sync::attachments::{
    attachment_content_type, attachments_endpoint, AttachmentMigration, AttachmentRef, MigrationStep,
};
use forum_sync::detector::{did_transition, has_label, ThreadSnapshot};
use forum_sync::driver::{handle_tag_updates, EventAction, SyncConfig, SyncStage, SyncWorkflow, ThreadEvent, WorkflowStep};
use forum_sync::models::{
    AsStr, IssueType, JiraContentType, JiraMarkType, JiraTextType, Project, Resolutions, StatusCategoryId,
};
use forum_sync::notify::{issue_update_reply, status_update_message};
use forum_sync::codec::ReferenceError;
use forum_sync::sync::{build_jira_issue, check_issue_creation, issue_endpoint, synced_reply, SeedMessage, SyncError};

const FORUM: u64 = 900;
const GUILD: u64 = 555;
const LABEL: u64 = 7;

fn config() -> SyncConfig {
    SyncConfig { server_id: GUILD, sync_label: LABEL, forum_channel_id: FORUM }
}

fn thread(channel_id: u64, parent: Option<u64>, labels: Vec<u64>, name: Option<&str>) -> ThreadSnapshot {
    ThreadSnapshot { server_id: Some(GUILD), channel_id, labels, parent_id: parent, name: name.map(|n| n.to_string()) }
}

fn seed(channel_id: u64, content: &str, attachments: Vec<AttachmentRef>) -> SeedMessage {
    SeedMessage { id: channel_id, channel_id, content: content.to_string(), attachments }
}

fn attachment(name: &str, content_type: Option<&str>) -> AttachmentRef {
    AttachmentRef {
        url: format!("https://cdn.chat.example/{}", name),
        filename: name.to_string(),
        content_type: content_type.map(|c| c.to_string()),
        size: Some(10),
    }
}

#[test]
fn has_label_finds_members_only() {
    assert!(has_label(&vec![1, 7, 9], 7));
    assert!(!has_label(&vec![1, 9], 7));
    assert!(!has_label(&vec![], 7));
}

#[test]
fn transition_cases() {
    let after = thread(42, Some(FORUM), vec![LABEL], None);
    assert!(did_transition(&None, &after, LABEL));
    assert!(did_transition(&Some(thread(42, Some(FORUM), vec![], None)), &after, LABEL));
    assert!(!did_transition(&Some(thread(42, Some(FORUM), vec![LABEL], None)), &after, LABEL));
    let without = thread(42, Some(FORUM), vec![3], None);
    assert!(!did_transition(&None, &without, LABEL));
}

#[test]
fn foreign_threads_are_ignored_whatever_their_labels() {
    for parent in [Some(FORUM + 1), None] {
        let after = thread(42, parent, vec![LABEL], Some("x"));
        assert_eq!(handle_tag_updates(&config(), &None, &ThreadEvent::ThreadUpdate(after)), EventAction::Ignore);
    }
    assert_eq!(handle_tag_updates(&config(), &None, &ThreadEvent::Other), EventAction::Ignore);
}

#[test]
fn end_to_end_first_sync() {
    let after = thread(42, Some(FORUM), vec![3, LABEL], Some("Crash on start"));
    let action = handle_tag_updates(&config(), &None, &ThreadEvent::ThreadUpdate(after.clone()));
    assert_eq!(action, EventAction::SyncThread { channel_id: 42, seed_message_id: 42 });
    let message = seed(42, "It crashes.", vec![]);
    let issue = build_jira_issue(&config(), &message, &after);
    assert_eq!(issue.fields.summary, "Crash on start");
    assert!(issue.fields.description.starts_with("Report Origin: https://chat.example/channels/555/42/42"));
    assert_eq!(issue.fields.description, "Report Origin: https://chat.example/channels/555/42/42\n\nIt crashes.");
    let reply = synced_reply("CD-17");
    assert!(reply.contains("CD-17"));
    assert_eq!(
        reply,
        "This has been added to our bug tracking system as the issue CD-17.  As we resolve that issue, updates will be posted back here."
    );
}

#[test]
fn second_update_with_cached_label_creates_nothing() {
    let after = thread(42, Some(FORUM), vec![LABEL], Some("Crash"));
    let first = handle_tag_updates(&config(), &None, &ThreadEvent::ThreadUpdate(after.clone()));
    assert_eq!(first, EventAction::SyncThread { channel_id: 42, seed_message_id: 42 });
    let cached = Some(after.clone());
    let second = handle_tag_updates(&config(), &cached, &ThreadEvent::ThreadUpdate(after));
    assert_eq!(second, EventAction::Ignore);
}

#[test]
fn summary_defaults_to_post_id() {
    let t = thread(31337, Some(FORUM), vec![LABEL], None);
    let issue = build_jira_issue(&config(), &seed(31337, "", vec![]), &t);
    assert_eq!(issue.fields.summary, "Bug Report from Post ID: 31337");
    assert_eq!(issue.fields.description, "Report Origin: https://chat.example/channels/555/31337/31337\n\n");
    assert_eq!(issue.fields.project.key, "Cells Dev");
    assert_eq!(issue.fields.project.id, "10000");
    assert_eq!(issue.fields.issuetype.id, "10004");
    assert!(issue.fields.issuetype.name.is_none());
    assert!(issue.fields.status_category.is_none());
}

#[test]
fn creation_status_is_checked() {
    assert!(check_issue_creation(201, String::from("{}")).is_ok());
    assert!(check_issue_creation(200, String::new()).is_ok());
    match check_issue_creation(400, String::from("bad field")) {
        Err(SyncError::IssueCreationRejected { status, body }) => {
            assert_eq!(status, 400);
            assert_eq!(body, "bad field");
        }
        other => panic!("unexpected {:?}", other),
    }
    assert!(check_issue_creation(300, String::new()).is_err());
    assert!(check_issue_creation(199, String::new()).is_err());
}

#[test]
fn endpoints() {
    assert_eq!(issue_endpoint("https://t.example"), "https://t.example/rest/api/2/issue");
    assert_eq!(attachments_endpoint("https://t.example", "CD-3"), "https://t.example/rest/api/2/issue/CD-3/attachments");
}

#[test]
fn content_type_falls_back_to_png() {
    assert_eq!(attachment_content_type(&attachment("a.png", None)), "image/png");
    assert_eq!(attachment_content_type(&attachment("a.txt", Some("text/plain"))), "text/plain");
}

fn run_with(outcomes: &[bool]) -> (usize, MigrationStep, Vec<usize>) {
    let mut m = AttachmentMigration::new(outcomes.len());
    let mut calls = 0;
    let mut order = Vec::new();
    loop {
        match m.next_step() {
            MigrationStep::Upload { index } => {
                calls += 1;
                order.push(index);
                m.record(outcomes[index]);
            }
            done => return (calls, done, order),
        }
    }
}

#[test]
fn migration_stops_at_first_failure() {
    let (calls, end, order) = run_with(&[true, false, true]);
    assert_eq!(calls, 2);
    assert_eq!(end, MigrationStep::Failed { index: 1 });
    assert_eq!(order, vec![0, 1]);
}

#[test]
fn migration_uploads_all_in_order() {
    let (calls, end, order) = run_with(&[true, true, true]);
    assert_eq!(calls, 3);
    assert_eq!(end, MigrationStep::Done);
    assert_eq!(order, vec![0, 1, 2]);
    let (calls, end, _) = run_with(&[]);
    assert_eq!(calls, 0);
    assert_eq!(end, MigrationStep::Done);
}

#[test]
fn webhook_reply_goes_to_origin_thread() {
    let d = "Report Origin: https://chat.example/channels/555/42/42\n\nIt crashes.";
    let reply = issue_update_reply(d, "In Progress").unwrap();
    assert_eq!(reply.channel_id, 42);
    assert_eq!(reply.text, "Your bug report has been updated. The new status is In Progress.");
    assert_eq!(status_update_message("Done"), "Your bug report has been updated. The new status is Done.");
}

#[test]
fn webhook_for_foreign_issue_is_dropped() {
    assert!(matches!(issue_update_reply("Filed by hand", "Done"), Err(ReferenceError::ReferenceNotFound)));
    assert!(matches!(
        issue_update_reply("Report Origin: https://chat.example/channels/1/two/3", "Done"),
        Err(ReferenceError::MalformedReference { .. })
    ));
}

#[test]
fn model_defaults_and_names() {
    let p = Project::default();
    assert_eq!((p.key.as_str(), p.id.as_str()), ("Cells Dev", "10000"));
    let t = IssueType::default();
    assert_eq!(t.id, "10004");
    assert!(t.name.is_none());
    assert_eq!(JiraContentType::Paragraph.as_str(), "paragraph");
    assert_eq!(JiraContentType::Heading.as_str(), "heading");
    assert_eq!(JiraContentType::BulletList.as_str(), "bulletList");
    assert_eq!(JiraTextType::Text.as_str(), "text");
    assert_eq!(JiraMarkType::Strong.as_str(), "strong");
    assert_eq!(JiraMarkType::Emphasis.as_str(), "em");
    assert_eq!(JiraMarkType::Link.as_str(), "link");
}

#[test]
fn status_and_resolution_codes() {
    assert_eq!(StatusCategoryId::Backlog.code(), 10000);
    assert_eq!(StatusCategoryId::InProgress.code(), 3);
    assert_eq!(StatusCategoryId::from_code(10006), Some(StatusCategoryId::InQA));
    assert_eq!(StatusCategoryId::from_code(1), None);
    assert_eq!(Resolutions::WonTDo.code(), 10001);
    assert_eq!(Resolutions::from_code(10003), Some(Resolutions::CannotReproduce));
    assert_eq!(Resolutions::from_code(9), None);
}

#[test]
fn only_fatal_stream_failures_stop_the_loop() {
    assert_eq!(
        handle_tag_updates(&config(), &None, &ThreadEvent::StreamFailure { fatal: true }),
        EventAction::StopLoop
    );
    assert_eq!(
        handle_tag_updates(&config(), &None, &ThreadEvent::StreamFailure { fatal: false }),
        EventAction::Ignore
    );
}

fn run_workflow(outcomes: &[bool]) -> (Vec<SyncStage>, WorkflowStep) {
    let mut w = SyncWorkflow::new(42);
    let mut performed = Vec::new();
    loop {
        match w.next_step() {
            WorkflowStep::Perform(stage) => {
                let ok = outcomes[performed.len()];
                performed.push(stage);
                w.record(ok);
            }
            end => return (performed, end),
        }
    }
}

#[test]
fn workflow_runs_stages_in_order() {
    let (performed, end) = run_workflow(&[true, true, true, true]);
    assert_eq!(
        performed,
        vec![SyncStage::FetchSeed, SyncStage::CreateIssue, SyncStage::MigrateAttachments, SyncStage::PostReply]
    );
    assert_eq!(end, WorkflowStep::Synced);
}

#[test]
fn workflow_gives_up_after_a_failed_stage() {
    let (performed, end) = run_workflow(&[true, false, true, true]);
    assert_eq!(performed, vec![SyncStage::FetchSeed, SyncStage::CreateIssue]);
    assert_eq!(end, WorkflowStep::Abandoned(SyncStage::CreateIssue));
    let (performed, end) = run_workflow(&[true, true, false, true]);
    assert_eq!(performed.len(), 3);
    assert_eq!(end, WorkflowStep::Abandoned(SyncStage::MigrateAttachments));
}
