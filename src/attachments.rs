//! Moving a seed message's attachments to the issue, one at a time, in order,
//! stopping at the first failure.

use vstd::prelude::*;

verus! {

/// An attachment of the seed message.
#[derive(Debug, Clone)]
pub struct AttachmentRef {
    pub url: String,
    pub filename: String,
    pub content_type: Option<String>,
    pub size: Option<u64>,
}

/// The content type an attachment is uploaded with.
pub open spec fn upload_content_type(a: AttachmentRef) -> Seq<char> {
    match a.content_type {
        Some(c) => c@,
        None => "image/png"@,
    }
}

/// The content type to upload `attachment` with: its declared one, or
/// `image/png` when it declares none.
pub fn attachment_content_type(attachment: &AttachmentRef) -> (r: String)
    ensures
        r@ == upload_content_type(*attachment),
{
    match &attachment.content_type {
        Some(c) => c.clone(),
        None => String::from_str("image/png"),
    }
}

/// The tracker's attachment endpoint of the issue `issue_key` under `base`.
pub fn attachments_endpoint(base: &str, issue_key: &str) -> (r: String)
    ensures
        r@ == base@ + "/rest/api/2/issue/"@ + issue_key@ + "/attachments"@,
{
    let mut r = String::from_str(base);
    r.append("/rest/api/2/issue/");
    r.append(issue_key);
    r.append("/attachments");
    r
}

/// What the migration asks for next.
#[derive(Debug, Clone, Copy, PartialEq, Eq, Structural)]
pub enum MigrationStep {
    /// Fetch the attachment at `index` and upload it.
    Upload { index: usize },
    /// Every attachment was uploaded.
    Done,
    /// The attachment at `index` failed; nothing more is uploaded.
    Failed { index: usize },
}

/// The progress of one migration.
#[derive(Debug, Clone, Copy, PartialEq, Eq, Structural)]
pub struct AttachmentMigration {
    pub total: usize,
    /// How many attachments were uploaded.
    pub uploaded: usize,
    /// The attachment that failed, if one did.
    pub failed: Option<usize>,
}

impl AttachmentMigration {
    pub open spec fn wf(self) -> bool {
        &&& self.uploaded <= self.total
        &&& (self.failed matches Some(i) ==> i == self.uploaded && i < self.total)
    }

    pub open spec fn step(self) -> MigrationStep {
        match self.failed {
            Some(i) => MigrationStep::Failed { index: i },
            None => if self.uploaded < self.total {
                MigrationStep::Upload { index: self.uploaded }
            } else {
                MigrationStep::Done
            },
        }
    }

    /// The state after the upload asked for by `step` succeeded or failed.
    pub open spec fn after(self, succeeded: bool) -> AttachmentMigration {
        if succeeded {
            AttachmentMigration { uploaded: (self.uploaded + 1) as usize, ..self }
        } else {
            AttachmentMigration { failed: Some(self.uploaded), ..self }
        }
    }

    /// A migration of `total` attachments, none uploaded yet.
    pub fn new(total: usize) -> (r: AttachmentMigration)
        ensures
            r.wf(),
            r.total == total,
            r.uploaded == 0,
            r.failed is None,
    {
        AttachmentMigration { total, uploaded: 0, failed: None }
    }

    /// What to do next.
    pub fn next_step(&self) -> (r: MigrationStep)
        ensures
            r == self.step(),
    {
        match self.failed {
            Some(i) => MigrationStep::Failed { index: i },
            None => if self.uploaded < self.total {
                MigrationStep::Upload { index: self.uploaded }
            } else {
                MigrationStep::Done
            },
        }
    }

    /// Records the outcome of the upload that `next_step` asked for.
    pub fn record(&mut self, succeeded: bool)
        requires
            old(self).wf(),
            old(self).step() is Upload,
        ensures
            final(self).wf(),
            *final(self) == old(self).after(succeeded),
    {
        if succeeded {
            self.uploaded = self.uploaded + 1;
        } else {
            self.failed = Some(self.uploaded);
        }
    }
}

/// Runs a migration on the upload outcomes `outcomes`, one taken for each
/// upload asked for; the final state and the number of uploads made.
pub open spec fn run_migration(m: AttachmentMigration, outcomes: Seq<bool>) -> (AttachmentMigration, nat)
    decreases outcomes.len(),
{
    if outcomes.len() == 0 || !(m.step() is Upload) {
        (m, 0)
    } else {
        let (f, n) = run_migration(m.after(outcomes[0]), outcomes.drop_first());
        (f, n + 1)
    }
}

/// Uploads go in order and stop at the first failure: when the attachment
/// at `f` fails after all before it succeeded, exactly `f + 1` uploads are
/// made and the migration ends failed at `f`; when none fails, every
/// attachment is uploaded once and it ends done.
pub proof fn lemma_migration_short_circuits(total: usize, outcomes: Seq<bool>, f: int)
    requires
        0 <= f <= total,
        f <= outcomes.len(),
        forall|i: int| 0 <= i < f ==> #[trigger] outcomes[i],
        f < total ==> f < outcomes.len() && !outcomes[f],
    ensures
        f < total ==> run_migration(AttachmentMigration { total, uploaded: 0, failed: None }, outcomes).1 == f + 1,
        f < total ==> run_migration(AttachmentMigration { total, uploaded: 0, failed: None }, outcomes).0.step()
            == (MigrationStep::Failed { index: f as usize }),
        f == total ==> run_migration(AttachmentMigration { total, uploaded: 0, failed: None }, outcomes).1 == total,
        f == total ==> run_migration(AttachmentMigration { total, uploaded: 0, failed: None }, outcomes).0.step()
            == MigrationStep::Done,
{
    lemma_run_from(AttachmentMigration { total, uploaded: 0, failed: None }, outcomes, f);
}

proof fn lemma_run_from(m: AttachmentMigration, outcomes: Seq<bool>, f: int)
    requires
        m.wf(),
        m.failed is None,
        m.uploaded <= f <= m.total,
        f - m.uploaded <= outcomes.len(),
        forall|i: int| 0 <= i < f - m.uploaded ==> #[trigger] outcomes[i],
        f < m.total ==> f - m.uploaded < outcomes.len() && !outcomes[f - m.uploaded],
    ensures
        f < m.total ==> run_migration(m, outcomes).1 == f - m.uploaded + 1,
        f < m.total ==> run_migration(m, outcomes).0.step() == (MigrationStep::Failed { index: f as usize }),
        f == m.total ==> run_migration(m, outcomes).1 == m.total - m.uploaded,
        f == m.total ==> run_migration(m, outcomes).0.step() == MigrationStep::Done,
    decreases m.total - m.uploaded,
{
    if m.uploaded < m.total {
        let rest = outcomes.drop_first();
        if m.uploaded < f {
            assert(outcomes[0]);
            assert forall|i: int| 0 <= i < f - (m.uploaded + 1) implies #[trigger] rest[i] by {
                assert(rest[i] == outcomes[i + 1]);
            }
            if f < m.total {
                assert(rest[f - (m.uploaded + 1)] == outcomes[f - m.uploaded]);
            }
            lemma_run_from(m.after(true), rest, f);
        } else {
            let g = m.after(false);
            assert(run_migration(g, rest) == (g, 0nat));
        }
    }
}

} // verus!
