//! The tracker issue built for a thread, and what follows its creation.

use vstd::prelude::*;
use crate::codec::{origin_text, encode_report_origin, decimal, push_decimal, decode_reference, lemma_decode_encode, ends_url};
use crate::detector::ThreadSnapshot;
use crate::driver::SyncConfig;
use crate::models::{JiraIssue, IssueFields, Project, IssueType};
use crate::attachments::AttachmentRef;

verus! {

/// The first message of a thread, whose text and attachments go into the issue.
#[derive(Debug, Clone)]
pub struct SeedMessage {
    pub id: u64,
    pub channel_id: u64,
    pub content: String,
    pub attachments: Vec<AttachmentRef>,
}

/// Why a sync or a notification did not go through.
#[derive(Debug, Clone)]
pub enum SyncError {
    /// The tracker answered the creation request with a status other than success.
    IssueCreationRejected { status: u16, body: String },
    /// Fetching or uploading the attachment at `index` failed.
    AttachmentTransferFailed { index: usize, cause: String },
    /// The reply could not be posted in the thread.
    NotifyFailed { cause: String },
}

/// The summary of a thread that has no display name.
pub open spec fn default_summary(channel_id: u64) -> Seq<char> {
    "Bug Report from Post ID: "@ + decimal(channel_id as nat)
}

/// The summary of the issue made for a thread.
pub open spec fn issue_summary(thread: ThreadSnapshot) -> Seq<char> {
    match thread.name {
        Some(n) => n@,
        None => default_summary(thread.channel_id),
    }
}

/// An issue description: the origin reference, a blank line, then the body.
pub open spec fn issue_description(server: u64, channel: u64, message: u64, body: Seq<char>) -> Seq<char> {
    origin_text(server, channel, message) + seq!['\n', '\n'] + body
}

pub open spec fn synced_reply_text(key: Seq<char>) -> Seq<char> {
    "This has been added to our bug tracking system as the issue "@ + key
        + ".  As we resolve that issue, updates will be posted back here."@
}

/// The issue to create for `thread`, whose seed message is `message`.
pub fn build_jira_issue(config: &SyncConfig, message: &SeedMessage, thread: &ThreadSnapshot) -> (r: JiraIssue)
    ensures
        r.fields.summary@ == issue_summary(*thread),
        r.fields.description@ == issue_description(
            config.server_id,
            message.channel_id,
            message.id,
            message.content@,
        ),
        r.fields.project.key@ == "Cells Dev"@,
        r.fields.project.id@ == "10000"@,
        r.fields.issuetype.id@ == "10004"@,
        r.fields.issuetype.name is None,
        r.fields.status_category is None,
{
    let summary = match &thread.name {
        Some(n) => n.clone(),
        None => {
            let mut s = String::from_str("Bug Report from Post ID: ");
            push_decimal(&mut s, thread.channel_id);
            s
        },
    };
    let mut description = encode_report_origin(config.server_id, message.channel_id, message.id);
    proof {
        reveal_strlit("\n\n");
    }
    description.append("\n\n");
    description.append(message.content.as_str());
    JiraIssue {
        fields: IssueFields {
            project: Project::default(),
            summary,
            description,
            issuetype: IssueType::default(),
            status_category: None,
        },
    }
}

/// The origin reference of an issue description reads back as the thread's
/// server, channel and seed message, whatever the body holds.
pub proof fn lemma_description_round_trip(server: u64, channel: u64, message: u64, body: Seq<char>)
    ensures
        decode_reference(issue_description(server, channel, message, body)) == Ok::<
            (u64, u64, u64),
            Option<Seq<char>>,
        >((server, channel, message)),
{
    let rest = seq!['\n', '\n'] + body;
    assert(ends_url(rest[0]));
    assert(issue_description(server, channel, message, body) =~= origin_text(server, channel, message) + rest);
    lemma_decode_encode(server, channel, message, rest);
}

/// The outcome of an issue creation request, from the tracker's status code
/// and response body: any 2xx status is a success.
pub fn check_issue_creation(status: u16, body: String) -> (r: Result<(), SyncError>)
    ensures
        200 <= status <= 299 ==> r is Ok,
        !(200 <= status <= 299) ==> (r matches Err(SyncError::IssueCreationRejected { status: s, body: b })
            && s == status && b@ == body@),
{
    if 200 <= status && status <= 299 {
        Ok(())
    } else {
        Err(SyncError::IssueCreationRejected { status, body })
    }
}

/// The reply posted in a thread once its issue exists.
pub fn synced_reply(issue_key: &str) -> (r: String)
    ensures
        r@ == synced_reply_text(issue_key@),
{
    let mut r = String::from_str("This has been added to our bug tracking system as the issue ");
    r.append(issue_key);
    r.append(".  As we resolve that issue, updates will be posted back here.");
    r
}

/// The tracker's issue creation endpoint under `base`.
pub fn issue_endpoint(base: &str) -> (r: String)
    ensures
        r@ == base@ + "/rest/api/2/issue"@,
{
    let mut r = String::from_str(base);
    r.append("/rest/api/2/issue");
    r
}

} // verus!
