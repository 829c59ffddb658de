//! What the two front-ends decide from their command lines.

use vstd::prelude::*;
use crate::text::{same_text, text_views};

verus! {

/// What the recycle bin manager is asked to do.
#[derive(Debug, Clone, Copy, PartialEq, Eq, Structural)]
pub enum BinMode {
    /// Show what the bin holds.
    List,
    /// Empty the bin.
    Clean,
    /// Run the interactive session.
    Interactive,
    /// Empty the bin, then show what is left.
    CleanThenList,
}

/// The mode that the flags ask for: listing comes before cleaning, cleaning
/// before the session; with no flag the bin is cleaned and then listed.
pub open spec fn mode_of(list: bool, clean: bool, interactive: bool) -> BinMode {
    if list {
        BinMode::List
    } else if clean {
        BinMode::Clean
    } else if interactive {
        BinMode::Interactive
    } else {
        BinMode::CleanThenList
    }
}

/// Picks the mode of the recycle bin manager from its three flags.
pub fn select_mode(list: bool, clean: bool, interactive: bool) -> (mode: BinMode)
    ensures
        mode == mode_of(list, clean, interactive),
{
    if list {
        BinMode::List
    } else if clean {
        BinMode::Clean
    } else if interactive {
        BinMode::Interactive
    } else {
        BinMode::CleanThenList
    }
}

/// A command line that asks for the version and nothing else: the program's
/// name and `-v` or `--version`.
pub open spec fn is_version_request(args: Seq<Seq<char>>) -> bool {
    args.len() == 2 && (args[1] == "-v"@ || args[1] == "--version"@)
}

/// Whether the command line asks for the version.
pub fn wants_version(args: &Vec<String>) -> (wanted: bool)
    ensures
        wanted == is_version_request(text_views(args@)),
{
    args.len() == 2 && (same_text(args[1].as_str(), "-v") || same_text(
        args[1].as_str(),
        "--version",
    ))
}

/// The arguments of the transfer tool: the sources and the destination.
#[derive(Debug, Clone, PartialEq, Eq)]
pub struct TransferArguments {
    pub sources: Vec<String>,
    pub destination: String,
}

/// Splits the command line of the transfer tool. After the program's name
/// come the sources, at least one, and last the destination; with less than
/// that there is nothing to run.
pub fn split_arguments(args: &Vec<String>) -> (split: Option<TransferArguments>)
    ensures
        split is Some <==> args.len() >= 3,
        split matches Some(found) ==> {
            &&& text_views(found.sources@) == text_views(args@).subrange(1, args.len() - 1)
            &&& found.destination@ == args@[args.len() - 1]@
        },
{
    let n: usize = args.len();
    if n < 3 {
        return None;
    }
    let mut sources: Vec<String> = Vec::new();
    let mut i: usize = 1;
    while i < n - 1
        invariant
            3 <= n == args.len(),
            1 <= i <= n - 1,
            text_views(sources@) == text_views(args@).subrange(1, i as int),
        decreases n - i,
    {
        let copy = args[i].clone();
        sources.push(copy);
        assert(text_views(args@).subrange(1, i + 1) == text_views(args@).subrange(
            1,
            i as int,
        ).push(copy@));
        i += 1;
    }
    Some(TransferArguments { sources, destination: args[n - 1].clone() })
}

} // verus!
