//! Batch file transfers through the Windows shell, and selection of recycle
//! bin entries: the decision logic behind two command-line front-ends.
//!
//! Nothing here touches the file system, the shell or the recycle bin. Each
//! module turns plain values into plain values, so that whoever owns those
//! capabilities can read, call and print around it.

pub mod audit;
pub mod catalog;
pub mod cli;
pub mod expand;
pub mod selection;
pub mod session;
pub mod text;
pub mod transfer;

pub use audit::{compose_log_line, log_line, LOG_FILENAME};
pub use catalog::{enumerate, search, DeletedItem, StoreEntry};
pub use cli::{select_mode, split_arguments, wants_version, BinMode, TransferArguments};
pub use expand::{expand, wildcard_directory, DirectoryEntry, Listing};
pub use selection::parse_indices;
pub use session::{parse_command, Action, Command, Event, Phase, Session};
pub use transfer::{
    perform_operation, process_sources, win32_shell_operation, FileOperation, PlanError,
    ShellReply, ShellRequest, TransferOutcome, TransferRequest,
};
