//! The operations that move a message through its lifecycle, each one atomic
//! step on the queue's tables.

pub mod exclusive_dispatch;
pub mod get_next_missing;
pub mod get_next_retryable;
pub mod get_next_unattempted;
pub mod history;
pub mod lifecycle;
pub mod publish_message;
pub mod report_dead;
pub mod report_retryable;
pub mod report_success;
pub mod request_lease;
pub mod selection;
pub mod tables;
pub mod with_schema;

pub use tables::{
    DatabaseError, DeadAttempt, ErrorRecord, ErrorRow, FailedAttempt, Lease, MessageRecord,
    MessageRow, QueueState, SucceededAttempt, Tables,
};
pub use publish_message::{publish_message, publish_message_at};
pub use get_next_unattempted::{get_next_unattempted, get_next_unattempted_skip_locked};
pub use report_dead::{report_dead, report_dead_with_id};
pub use report_retryable::{report_retryable, report_retryable_with_ids};
pub use report_success::report_success;
pub use request_lease::request_lease;
pub use get_next_missing::{get_next_missing, get_next_missing_skip_locked};
pub use get_next_retryable::{get_next_retryable, get_next_retryable_skip_locked};
pub use with_schema::{set_schema_statement, Queries};
