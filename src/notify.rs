//! Turning a tracker webhook into a reply in the thread the issue came from.

use vstd::prelude::*;
use crate::codec::{ReferenceError, parse_message_url_from_issue_update, decode_reference, decode_outcome};

verus! {

pub open spec fn status_message_text(status: Seq<char>) -> Seq<char> {
    "Your bug report has been updated. The new status is "@ + status + "."@
}

/// The message that tells a thread its issue changed status.
pub fn status_update_message(status: &str) -> (r: String)
    ensures
        r@ == status_message_text(status@),
{
    let mut r = String::from_str("Your bug report has been updated. The new status is ");
    r.append(status);
    r.append(".");
    r
}

/// A reply to post: the thread's channel and the text.
#[derive(Debug, Clone)]
pub struct ThreadReply {
    pub channel_id: u64,
    pub text: String,
}

/// What a status change of an issue leads to: a reply in the thread named by
/// the origin reference of its description, or, for an issue that did not
/// come from a thread, the reason none is sent.
pub fn issue_update_reply(description: &str, status: &str) -> (r: Result<ThreadReply, ReferenceError>)
    ensures
        match decode_reference(description@) {
            Ok(t) => r matches Ok(reply) && reply.channel_id == t.1 && reply.text@ == status_message_text(status@),
            Err(e) => r matches Err(err) && decode_outcome(Err(err)) == Err::<(u64, u64, u64), Option<Seq<char>>>(e),
        },
{
    match parse_message_url_from_issue_update(description) {
        Ok(origin) => Ok(ThreadReply { channel_id: origin.channel_id, text: status_update_message(status) }),
        Err(e) => Err(e),
    }
}

} // verus!
