//! The batch transfer engine: one shell request for a whole list of sources.
//!
//! Every source of a batch goes to the shell in a single file operation, so
//! that the shell shows one progress dialog and offers one undo. What the
//! shell reports then holds of the whole batch. The engine builds the
//! request and reads the reply; the call itself is made by whoever owns the
//! shell.

use vstd::prelude::*;
use vstd::string::StringExecFns;
use crate::expand::{
    collect_paths, entry_views, expand, expansion, listing_views, paths_of, DirectoryEntry,
    Listing,
};
use crate::text::{hex_digits, join, joined, push_hex, push_utf16, text_views, utf16};

verus! {

/// The shell's code for a move (`FO_MOVE`).
pub const FO_MOVE: u32 = 0x0001;

/// The shell's code for a copy (`FO_COPY`).
pub const FO_COPY: u32 = 0x0002;

/// The shell's flag that creates a missing destination directory without
/// asking (`FOF_NOCONFIRMMKDIR`).
pub const FOF_NOCONFIRMMKDIR: u16 = 0x0200;

/// The kind of a batch transfer.
#[derive(Debug, Clone, Copy, PartialEq, Eq, Structural)]
pub enum FileOperation {
    Copy,
    Move,
}

impl FileOperation {
    /// The name of the operation as it appears in audit records.
    pub open spec fn name(self) -> Seq<char> {
        match self {
            FileOperation::Copy => "COPY"@,
            FileOperation::Move => "MOVE"@,
        }
    }

    /// The shell's code for the operation.
    pub open spec fn code(self) -> u32 {
        match self {
            FileOperation::Copy => FO_COPY,
            FileOperation::Move => FO_MOVE,
        }
    }

    /// The upper-case name of the operation.
    pub fn as_str(&self) -> (name: &'static str)
        ensures
            name@ == self.name(),
    {
        match self {
            FileOperation::Copy => "COPY",
            FileOperation::Move => "MOVE",
        }
    }

    /// The shell's code for the operation.
    pub fn shell_code(&self) -> (code: u32)
        ensures
            code == self.code(),
    {
        match self {
            FileOperation::Copy => FO_COPY,
            FileOperation::Move => FO_MOVE,
        }
    }
}

/// A text as the shell takes it: UTF-16 with a NUL at the end.
pub open spec fn wide_string(s: Seq<char>) -> Seq<u16> {
    utf16(s).push(0)
}

/// The paths as the shell takes a list: each as a wide string, one after
/// the other.
pub open spec fn wide_list(paths: Seq<Seq<char>>) -> Seq<u16>
    decreases paths.len(),
{
    if paths.len() == 0 {
        Seq::empty()
    } else {
        wide_list(paths.drop_last()) + wide_string(paths.last())
    }
}

/// A list of paths with the NUL that ends the list.
pub open spec fn double_null_wide(paths: Seq<Seq<char>>) -> Seq<u16> {
    wide_list(paths).push(0)
}

/// Encodes a text for the shell.
pub fn to_wide_string(s: &str) -> (wide: Vec<u16>)
    ensures
        wide@ == wide_string(s@),
{
    let mut wide: Vec<u16> = Vec::new();
    push_utf16(&mut wide, s);
    wide.push(0);
    wide
}

/// Encodes a list of paths for the shell: every path ends in a NUL, and one
/// more NUL ends the list.
pub fn to_double_null_wide(paths: &Vec<String>) -> (wide: Vec<u16>)
    ensures
        wide@ == double_null_wide(text_views(paths@)),
{
    let mut wide: Vec<u16> = Vec::new();
    let mut i: usize = 0;
    while i < paths.len()
        invariant
            i <= paths.len(),
            wide@ == wide_list(text_views(paths@).take(i as int)),
        decreases paths.len() - i,
    {
        assert(text_views(paths@).take(i + 1).drop_last() == text_views(paths@).take(i as int));
        push_utf16(&mut wide, paths[i].as_str());
        wide.push(0);
        i += 1;
    }
    assert(text_views(paths@).take(paths.len() as int) == text_views(paths@));
    wide.push(0);
    wide
}

/// What is handed to the shell's file operation.
#[derive(Debug, Clone, PartialEq, Eq)]
pub struct ShellRequest {
    /// The operation's code.
    pub function: u32,
    /// The sources, as a double-NUL-terminated list.
    pub from: Vec<u16>,
    /// The destination, as a wide string.
    pub to: Vec<u16>,
    /// The operation's flags.
    pub flags: u16,
}

/// What the shell's file operation gave back.
#[derive(Debug, Clone, Copy, PartialEq, Eq, Structural)]
pub struct ShellReply {
    /// The status code; zero is success.
    pub status: i32,
    /// Whether the user cancelled any part of the batch.
    pub any_operations_aborted: bool,
}

/// One batch: the sources as they were expanded, duplicates included, and
/// the single destination.
#[derive(Debug, Clone, PartialEq, Eq)]
pub struct TransferRequest {
    pub sources: Vec<String>,
    pub destination: String,
    pub kind: FileOperation,
}

/// What a `TransferRequest` holds, as plain values.
pub struct TransferRequestView {
    pub sources: Seq<Seq<char>>,
    pub destination: Seq<char>,
    pub kind: FileOperation,
}

impl View for TransferRequest {
    type V = TransferRequestView;

    open spec fn view(&self) -> TransferRequestView {
        TransferRequestView {
            sources: text_views(self.sources@),
            destination: self.destination@,
            kind: self.kind,
        }
    }
}

impl TransferRequestView {
    /// A request that may be dispatched names at least one source.
    pub open spec fn well_formed(self) -> bool {
        self.sources.len() > 0
    }

    /// The audit record of the dispatch: the kind, every source, and the
    /// destination.
    pub open spec fn record(self) -> Seq<char> {
        self.kind.name() + ": \""@ + joined(self.sources, "; "@) + "\" --> \""@ + self.destination
            + "\""@
    }
}

impl TransferRequest {
    /// Makes a request, unless there is no source.
    pub fn new(sources: Vec<String>, destination: String, kind: FileOperation) -> (request: Option<
        TransferRequest,
    >)
        ensures
            request is Some <==> sources@.len() > 0,
            request matches Some(made) ==> made@ == (TransferRequestView {
                sources: text_views(sources@),
                destination: destination@,
                kind,
            }) && made@.well_formed(),
    {
        if sources.len() == 0 {
            None
        } else {
            Some(TransferRequest { sources, destination, kind })
        }
    }

    /// The record to be written to the audit log before the dispatch.
    pub fn audit_record(&self) -> (record: String)
        ensures
            record@ == self@.record(),
    {
        let mut record = self.kind.as_str().to_owned();
        record.append(": \"");
        let sources = join(&self.sources, "; ");
        record.append(sources.as_str());
        record.append("\" --> \"");
        record.append(self.destination.as_str());
        record.append("\"");
        record
    }

    /// What is to be handed to the shell: all the sources in one list.
    pub fn shell_request(&self) -> (request: ShellRequest)
        ensures
            request.function == self@.kind.code(),
            request.from@ == double_null_wide(self@.sources),
            request.to@ == wide_string(self@.destination),
            request.flags == FOF_NOCONFIRMMKDIR,
    {
        ShellRequest {
            function: self.kind.shell_code(),
            from: to_double_null_wide(&self.sources),
            to: to_wide_string(self.destination.as_str()),
            flags: FOF_NOCONFIRMMKDIR,
        }
    }
}

/// How a batch ended.
#[derive(Debug, Clone, PartialEq, Eq)]
pub enum TransferOutcome {
    /// The whole batch was transferred.
    Completed,
    /// The user cancelled some or all of it.
    AbortedByUser,
    /// The shell failed with a status code.
    Failed { code: i32, message: String },
}

/// What a `TransferOutcome` holds, as plain values.
pub enum TransferOutcomeView {
    Completed,
    AbortedByUser,
    Failed { code: i32, message: Seq<char> },
}

impl View for TransferOutcome {
    type V = TransferOutcomeView;

    open spec fn view(&self) -> TransferOutcomeView {
        match self {
            TransferOutcome::Completed => TransferOutcomeView::Completed,
            TransferOutcome::AbortedByUser => TransferOutcomeView::AbortedByUser,
            TransferOutcome::Failed { code, message } => TransferOutcomeView::Failed {
                code: *code,
                message: message@,
            },
        }
    }
}

impl TransferOutcomeView {
    /// The record to be written to the audit log after the dispatch: the
    /// failure's message, and nothing where the batch did not fail.
    pub open spec fn record(self) -> Option<Seq<char>> {
        match self {
            TransferOutcomeView::Failed { code, message } => Some(message),
            _ => None,
        }
    }
}

impl TransferOutcome {
    /// The record to be written to the audit log after the dispatch, if any.
    pub fn audit_record(&self) -> (record: Option<String>)
        ensures
            match self@.record() {
                Some(text) => record matches Some(written) && written@ == text,
                None => record is None,
            },
    {
        match self {
            TransferOutcome::Failed { code, message } => Some(message.clone()),
            _ => None,
        }
    }
}

/// The status code as the 32 bits that hold it.
pub open spec fn status_bits(code: i32) -> nat {
    if code >= 0 {
        code as nat
    } else {
        (code + 0x1_0000_0000) as nat
    }
}

/// The message for a failed batch: the status code as eight hexadecimal
/// digits.
pub open spec fn failure_text(code: i32) -> Seq<char> {
    "SHFileOperation failed: 0x"@ + hex_digits(status_bits(code), 8)
}

/// The message for a failed batch.
pub fn failure_message(code: i32) -> (message: String)
    ensures
        message@ == failure_text(code),
{
    let bits: u32 = if code >= 0 {
        code as u32
    } else {
        (code as i64 + 0x1_0000_0000i64) as u32
    };
    let mut message = "SHFileOperation failed: 0x".to_owned();
    push_hex(&mut message, bits, 8);
    message
}

/// How a batch ended, by the shell's reply. A cancellation by the user comes
/// first: it is no failure, whatever the status code says.
pub open spec fn outcome_of(reply: ShellReply) -> TransferOutcomeView {
    if reply.any_operations_aborted {
        TransferOutcomeView::AbortedByUser
    } else if reply.status != 0 {
        TransferOutcomeView::Failed { code: reply.status, message: failure_text(reply.status) }
    } else {
        TransferOutcomeView::Completed
    }
}

/// Reads the shell's reply.
pub fn interpret_reply(reply: ShellReply) -> (outcome: TransferOutcome)
    ensures
        outcome@ == outcome_of(reply),
{
    if reply.any_operations_aborted {
        TransferOutcome::AbortedByUser
    } else if reply.status != 0 {
        TransferOutcome::Failed { code: reply.status, message: failure_message(reply.status) }
    } else {
        TransferOutcome::Completed
    }
}

/// The end of a shell file operation: `Ok(true)` where the batch was
/// transferred, `Ok(false)` where the user cancelled, the failure's message
/// otherwise.
pub fn win32_shell_operation(reply: ShellReply) -> (result: Result<bool, String>)
    ensures
        match outcome_of(reply) {
            TransferOutcomeView::Completed => result == Ok::<bool, String>(true),
            TransferOutcomeView::AbortedByUser => result == Ok::<bool, String>(false),
            TransferOutcomeView::Failed { code, message } => result matches Err(text) && text@
                == message,
        },
{
    match interpret_reply(reply) {
        TransferOutcome::Completed => Ok(true),
        TransferOutcome::AbortedByUser => Ok(false),
        TransferOutcome::Failed { code, message } => Err(message),
    }
}

/// A reply with the abort flag set means a cancellation, whatever its
/// status code.
pub proof fn law_abort_comes_first(status: i32)
    ensures
        outcome_of(ShellReply { status, any_operations_aborted: true })
            == TransferOutcomeView::AbortedByUser,
{
}

/// Why no request could be made.
#[derive(Debug, Clone, PartialEq, Eq)]
pub enum PlanError {
    /// A token asks for the entries of this directory, and no listing of it
    /// was given.
    UnlistedDirectory(String),
    /// There is nothing to transfer.
    NoSources,
}

/// Makes the request for a list of source tokens: the tokens are expanded
/// and all that they stand for goes into one request.
pub fn process_sources(
    sources: &Vec<String>,
    listings: &Vec<Listing>,
    dest: &str,
    operation: FileOperation,
) -> (plan: Result<TransferRequest, PlanError>)
    ensures
        match expansion(text_views(sources@), listing_views(listings@)) {
            Err(directory) => plan matches Err(PlanError::UnlistedDirectory(named)) && named@
                == directory,
            Ok(paths) => if paths.len() == 0 {
                plan matches Err(PlanError::NoSources)
            } else {
                plan matches Ok(request) && request@.well_formed() && request@ == (
                    TransferRequestView { sources: paths, destination: dest@, kind: operation }
                )
            },
        },
{
    match expand(sources, listings) {
        Err(directory) => Err(PlanError::UnlistedDirectory(directory)),
        Ok(paths) => match TransferRequest::new(paths, dest.to_owned(), operation) {
            Some(request) => Ok(request),
            None => Err(PlanError::NoSources),
        },
    }
}

/// Makes the request for the contents of a directory: every entry that was
/// met, or, if `recursive` is set, the regular files among them.
pub fn perform_operation(
    entries: &Vec<DirectoryEntry>,
    dest: &str,
    recursive: bool,
    operation: FileOperation,
) -> (plan: Result<TransferRequest, PlanError>)
    ensures
        ({
            let paths = paths_of(entry_views(entries@), recursive);
            if paths.len() == 0 {
                plan matches Err(PlanError::NoSources)
            } else {
                plan matches Ok(request) && request@.well_formed() && request@ == (
                    TransferRequestView { sources: paths, destination: dest@, kind: operation }
                )
            }
        }),
{
    let paths = collect_paths(entries, recursive);
    match TransferRequest::new(paths, dest.to_owned(), operation) {
        Some(request) => Ok(request),
        None => Err(PlanError::NoSources),
    }
}

} // verus!
