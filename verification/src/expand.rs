//! Expansion of source tokens into the paths of one batch.
//!
//! A token that ends in `*` stands for the entries of a directory, one level
//! deep; any other token is a path and is taken as it is. Reading a
//! directory is not done here: the entries of each directory come in as a
//! `Listing`.

use vstd::prelude::*;
use crate::text::{chars_of, same_text, string_of, text_views};

verus! {

/// Whether a token asks for the entries of a directory.
pub open spec fn is_wildcard(token: Seq<char>) -> bool {
    token.len() > 0 && token.last() == '*'
}

/// The directory whose entries a token asks for: what stands before the
/// final `*`, or the current directory if nothing does.
pub open spec fn directory_of(token: Seq<char>) -> Option<Seq<char>> {
    if !is_wildcard(token) {
        None
    } else if token.len() == 1 {
        Some("."@)
    } else {
        Some(token.drop_last())
    }
}

/// The directory that has to be listed for a token, if any.
pub fn wildcard_directory(token: &str) -> (directory: Option<String>)
    ensures
        match directory {
            Some(path) => directory_of(token@) == Some(path@),
            None => directory_of(token@) is None,
        },
{
    let chars = chars_of(token);
    let n: usize = chars.len();
    if n == 0 || chars[n - 1] != '*' {
        None
    } else if n == 1 {
        Some(".".to_owned())
    } else {
        Some(string_of(&chars, 0, n - 1))
    }
}

/// The immediate entries of one directory, in the order the directory gave
/// them.
#[derive(Debug, Clone, PartialEq, Eq)]
pub struct Listing {
    pub directory: String,
    pub entries: Vec<String>,
}

/// What a `Listing` holds, as plain values.
pub struct ListingView {
    pub directory: Seq<char>,
    pub entries: Seq<Seq<char>>,
}

impl View for Listing {
    type V = ListingView;

    open spec fn view(&self) -> ListingView {
        ListingView { directory: self.directory@, entries: text_views(self.entries@) }
    }
}

/// The views of some listings.
pub open spec fn listing_views(listings: Seq<Listing>) -> Seq<ListingView> {
    listings.map_values(|listing: Listing| listing@)
}

/// The entries of `directory` by the first listing that is of it.
pub open spec fn entries_of(listings: Seq<ListingView>, directory: Seq<char>) -> Option<
    Seq<Seq<char>>,
>
    decreases listings.len(),
{
    if listings.len() == 0 {
        None
    } else if listings.first().directory == directory {
        Some(listings.first().entries)
    } else {
        entries_of(listings.drop_first(), directory)
    }
}

/// The paths that one token stands for; `None` where its directory is not
/// listed.
pub open spec fn token_paths(token: Seq<char>, listings: Seq<ListingView>) -> Option<
    Seq<Seq<char>>,
> {
    match directory_of(token) {
        Some(directory) => entries_of(listings, directory),
        None => Some(seq![token]),
    }
}

/// The paths that the tokens stand for, token after token, with nothing
/// dropped and nothing merged: a path that two tokens reach stands twice.
/// Where a token's directory is not listed, the first such directory is the
/// error.
pub open spec fn expansion(tokens: Seq<Seq<char>>, listings: Seq<ListingView>) -> Result<
    Seq<Seq<char>>,
    Seq<char>,
>
    decreases tokens.len(),
{
    if tokens.len() == 0 {
        Ok(Seq::empty())
    } else {
        match expansion(tokens.drop_last(), listings) {
            Err(directory) => Err(directory),
            Ok(paths) => match token_paths(tokens.last(), listings) {
                Some(more) => Ok(paths + more),
                None => Err(directory_of(tokens.last())->0),
            },
        }
    }
}

/// Looks up the listing of a directory.
fn find_listing<'a>(listings: &'a Vec<Listing>, directory: &str) -> (found: Option<&'a Listing>)
    ensures
        match found {
            Some(listing) => entries_of(listing_views(listings@), directory@) == Some(
                listing@.entries,
            ),
            None => entries_of(listing_views(listings@), directory@) is None,
        },
{
    let mut i: usize = 0;
    assert(listing_views(listings@).skip(0) == listing_views(listings@));
    while i < listings.len()
        invariant
            i <= listings.len(),
            entries_of(listing_views(listings@), directory@) == entries_of(
                listing_views(listings@).skip(i as int),
                directory@,
            ),
        decreases listings.len() - i,
    {
        assert(listing_views(listings@).skip(i as int).drop_first() == listing_views(
            listings@,
        ).skip(i + 1));
        if same_text(listings[i].directory.as_str(), directory) {
            return Some(&listings[i]);
        }
        i += 1;
    }
    None
}

/// Appends copies of `more` to `paths`.
fn push_all(paths: &mut Vec<String>, more: &Vec<String>)
    ensures
        text_views(final(paths)@) == text_views(old(paths)@) + text_views(more@),
{
    let mut i: usize = 0;
    while i < more.len()
        invariant
            i <= more.len(),
            text_views(paths@) == text_views(old(paths)@) + text_views(more@).take(i as int),
        decreases more.len() - i,
    {
        let ghost before = paths@;
        let copy = more[i].clone();
        paths.push(copy);
        assert(text_views(paths@) == text_views(before).push(copy@));
        i += 1;
    }
}

/// Expands the tokens into the paths of one batch, in the order of the
/// tokens. Fails with the first directory that a token asks for and no
/// listing is of.
pub fn expand(tokens: &Vec<String>, listings: &Vec<Listing>) -> (paths: Result<Vec<String>, String>)
    ensures
        match paths {
            Ok(found) => expansion(text_views(tokens@), listing_views(listings@)) == Ok::<
                Seq<Seq<char>>,
                Seq<char>,
            >(text_views(found@)),
            Err(directory) => expansion(text_views(tokens@), listing_views(listings@)) == Err::<
                Seq<Seq<char>>,
                Seq<char>,
            >(directory@),
        },
{
    let mut paths: Vec<String> = Vec::new();
    let mut i: usize = 0;
    assert(text_views(paths@) =~= Seq::empty());
    while i < tokens.len()
        invariant
            i <= tokens.len(),
            expansion(text_views(tokens@).take(i as int), listing_views(listings@)) == Ok::<
                Seq<Seq<char>>,
                Seq<char>,
            >(text_views(paths@)),
        decreases tokens.len() - i,
    {
        assert(text_views(tokens@).take(i + 1).drop_last() == text_views(tokens@).take(i as int));
        let ghost before = paths@;
        match wildcard_directory(tokens[i].as_str()) {
            Some(directory) => {
                match find_listing(listings, directory.as_str()) {
                    Some(listing) => {
                        push_all(&mut paths, &listing.entries);
                    },
                    None => {
                        proof {
                            lemma_expansion_fails(
                                text_views(tokens@),
                                listing_views(listings@),
                                i + 1,
                            );
                        }
                        return Err(directory);
                    },
                }
            },
            None => {
                let copy = tokens[i].clone();
                paths.push(copy);
                assert(text_views(paths@) == text_views(before) + seq![copy@]);
            },
        }
        i += 1;
    }
    assert(text_views(tokens@).take(tokens.len() as int) == text_views(tokens@));
    Ok(paths)
}

/// A failure among the first tokens is the failure of the whole expansion.
proof fn lemma_expansion_fails(tokens: Seq<Seq<char>>, listings: Seq<ListingView>, n: int)
    requires
        0 <= n <= tokens.len(),
        expansion(tokens.take(n), listings) is Err,
    ensures
        expansion(tokens, listings) == expansion(tokens.take(n), listings),
    decreases tokens.len(),
{
    if n == tokens.len() {
        assert(tokens.take(n) == tokens);
    } else {
        assert(tokens.drop_last().take(n) == tokens.take(n));
        lemma_expansion_fails(tokens.drop_last(), listings, n);
    }
}

/// One entry met on a walk through a directory tree.
#[derive(Debug, Clone, PartialEq, Eq)]
pub struct DirectoryEntry {
    pub path: String,
    /// Whether the entry is a regular file.
    pub is_file: bool,
}

/// What a `DirectoryEntry` holds, as plain values.
pub struct DirectoryEntryView {
    pub path: Seq<char>,
    pub is_file: bool,
}

impl View for DirectoryEntry {
    type V = DirectoryEntryView;

    open spec fn view(&self) -> DirectoryEntryView {
        DirectoryEntryView { path: self.path@, is_file: self.is_file }
    }
}

/// The views of some entries.
pub open spec fn entry_views(entries: Seq<DirectoryEntry>) -> Seq<DirectoryEntryView> {
    entries.map_values(|entry: DirectoryEntry| entry@)
}

/// The paths of the entries, in their order; of the regular files alone if
/// `files_only` is set.
pub open spec fn paths_of(entries: Seq<DirectoryEntryView>, files_only: bool) -> Seq<Seq<char>>
    decreases entries.len(),
{
    if entries.len() == 0 {
        Seq::empty()
    } else {
        let earlier = paths_of(entries.drop_last(), files_only);
        if entries.last().is_file || !files_only {
            earlier.push(entries.last().path)
        } else {
            earlier
        }
    }
}

/// Collects the paths of the entries, in their order; of the regular files
/// alone if `files_only` is set.
pub fn collect_paths(entries: &Vec<DirectoryEntry>, files_only: bool) -> (paths: Vec<String>)
    ensures
        text_views(paths@) == paths_of(entry_views(entries@), files_only),
{
    let mut paths: Vec<String> = Vec::new();
    let mut i: usize = 0;
    while i < entries.len()
        invariant
            i <= entries.len(),
            text_views(paths@) == paths_of(entry_views(entries@).take(i as int), files_only),
        decreases entries.len() - i,
    {
        assert(entry_views(entries@).take(i + 1).drop_last() == entry_views(entries@).take(
            i as int,
        ));
        if entries[i].is_file || !files_only {
            paths.push(entries[i].path.clone());
        }
        i += 1;
    }
    assert(entry_views(entries@).take(entries.len() as int) == entry_views(entries@));
    paths
}

/// A lone `*` stands for the entries of the current directory: each once,
/// in the order of the listing.
pub proof fn law_star_yields_the_listing(listings: Seq<ListingView>, entries: Seq<Seq<char>>)
    requires
        entries_of(listings, "."@) == Some(entries),
    ensures
        expansion(seq!["*"@], listings) == Ok::<Seq<Seq<char>>, Seq<char>>(entries),
{
    reveal_strlit("*");
    reveal_with_fuel(expansion, 2);
}

/// A wildcard token given twice yields every entry of its directory twice:
/// the whole listing, then the whole listing again.
pub proof fn law_repeated_token_yields_twice(
    token: Seq<char>,
    listings: Seq<ListingView>,
    entries: Seq<Seq<char>>,
)
    requires
        directory_of(token) matches Some(directory) && entries_of(listings, directory) == Some(
            entries,
        ),
    ensures
        expansion(seq![token, token], listings) == Ok::<Seq<Seq<char>>, Seq<char>>(
            entries + entries,
        ),
{
    reveal_with_fuel(expansion, 2);
    assert(expansion(seq![token, token].drop_last(), listings) == Ok::<Seq<Seq<char>>, Seq<char>>(
        entries,
    ));
}

} // verus!
