//! Userspace side of the FUSE protocol: identifier translation, request
//! parameters, receive buffers, and the decisions of a filesystem session.
//!
//! The library performs no I/O on the FUSE device. It decides what a session
//! does next and what a result means; the program around it talks to
//! `/dev/fuse`, mounts and unmounts, and runs threads.

pub mod abi;
pub mod align;
pub mod channel;
pub mod errno;
pub mod event_loop;
pub mod forget_one;
pub mod mapping;
pub mod mount_option;
pub mod multi_thread;
pub mod read_buf;
pub mod request_param;
pub mod session;

pub use abi::{INodeNo, RequestId};
pub use forget_one::ForgetOne;
pub use mapping::{FilesystemMapping, IdMap};
pub use mount_option::MountOption;
pub use read_buf::MAX_WRITE_SIZE;
pub use request_param::Request;
pub use session::{FilesystemSession, SessionACL, SessionUnmounter};
