//! An incremental HTTP/1.1 client engine for a task-stepping host.
//!
//! The host calls a step on a long-lived transfer task; each step does one
//! slice of work. This library holds the verified decisions of that engine:
//! the request head that is sent, the byte-by-byte response head parser, the
//! download and upload bookkeeping and the task's status machine. Sockets,
//! TLS sessions and the host's storage live outside it and hand it plain
//! values.

pub mod bytes;
pub mod chars;
pub mod method;
pub mod error;
pub mod head;
pub mod request;
pub mod target;
pub mod task;

pub use bytes::{decimal_bytes, parse_decimal};
pub use error::HttpError;
pub use request::{get_headers, remaining_length, request_head};
pub use target::{accept_url, check_written, get_port, host_name, plan_target, server_name, Target};
pub use task::{
    content_length, creating_connection, downloading, error, get_buffer_size, initialize,
    step_action, upload_content_length, uploading, ReadOutcome, StepAction, Task, TaskStatus,
};
pub use head::{parse_response_head, HeadParser, ResponseMeta};
pub use method::{get_method, Method};
