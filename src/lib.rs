//! Synchronisation engine between forum threads of a chat platform and an
//! issue tracker: the origin reference codec, the tag transition detector,
//! the issue payload builder, the attachment migration state machine, the
//! webhook notifier, the event driver's decisions and its use of the
//! snapshot cache.

pub mod codec;
pub mod models;
pub mod detector;
pub mod driver;
pub mod sync;
pub mod attachments;
pub mod notify;
pub mod snapshots;
