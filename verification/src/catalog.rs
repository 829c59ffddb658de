//! The catalog of deleted items: a snapshot of what the store held when it
//! was enumerated, indexed from zero in the order the store gave.
//!
//! A snapshot is not a live view. Any index into it holds only until the
//! next enumeration.

use vstd::prelude::*;
use crate::text::{chars_of, decode_utf16_lossy, lowercase, string_of, utf16_lossy};

verus! {

/// The text without the NUL characters at its end.
pub open spec fn without_trailing_nul(s: Seq<char>) -> Seq<char>
    decreases s.len(),
{
    if s.len() > 0 && s.last() == '\0' {
        without_trailing_nul(s.drop_last())
    } else {
        s
    }
}

/// The text that a NUL-padded buffer of UTF-16 units holds.
pub fn text_of_wide(units: &Vec<u16>) -> (text: String)
    ensures
        text@ == without_trailing_nul(utf16_lossy(units@)),
{
    let chars = decode_utf16_lossy(units);
    let mut end: usize = chars.len();
    assert(chars@.subrange(0, end as int) == chars@);
    while end > 0 && chars[end - 1] == '\0'
        invariant
            end <= chars.len(),
            without_trailing_nul(chars@) == without_trailing_nul(chars@.subrange(0, end as int)),
        decreases end,
    {
        assert(chars@.subrange(0, end as int).drop_last() == chars@.subrange(0, end - 1));
        end -= 1;
    }
    string_of(&chars, 0, end)
}

/// One entry of the deleted-items store.
#[derive(Debug, Clone, PartialEq, Eq)]
pub struct DeletedItem {
    /// The name shown to the user; never empty.
    pub display_name: String,
    /// The path the item had when it was deleted; empty if unknown.
    pub original_path: String,
    /// When the item was deleted, in microseconds since the Unix epoch, or
    /// the time of the enumeration where the store does not tell.
    pub deleted_at: i64,
    /// The item's size in bytes; 0 where the store does not tell.
    pub size_bytes: u64,
}

/// What a `DeletedItem` holds, as plain values.
pub struct DeletedItemView {
    pub display_name: Seq<char>,
    pub original_path: Seq<char>,
    pub deleted_at: i64,
    pub size_bytes: u64,
}

impl View for DeletedItem {
    type V = DeletedItemView;

    open spec fn view(&self) -> DeletedItemView {
        DeletedItemView {
            display_name: self.display_name@,
            original_path: self.original_path@,
            deleted_at: self.deleted_at,
            size_bytes: self.size_bytes,
        }
    }
}

impl DeletedItemView {
    /// An item has a name.
    pub open spec fn well_formed(self) -> bool {
        self.display_name.len() > 0
    }

    /// Whether the item's name holds `query`, letter case aside. The query is
    /// taken as it is: it is the caller's to lower its case.
    pub open spec fn matches(self, query: Seq<char>) -> bool {
        has_substring(lowercase(self.display_name), query)
    }
}

/// The views of the items of a snapshot.
pub open spec fn item_views(items: Seq<DeletedItem>) -> Seq<DeletedItemView> {
    items.map_values(|item: DeletedItem| item@)
}

/// What the store's enumeration yields for one of its handles: each piece
/// of metadata is there or could not be resolved.
#[derive(Debug, Clone, PartialEq, Eq)]
pub struct StoreEntry {
    pub display_name: Option<String>,
    pub original_path: Option<String>,
    pub deleted_at: Option<i64>,
    pub size_bytes: Option<u64>,
}

/// What a `StoreEntry` holds, as plain values.
pub struct StoreEntryView {
    pub display_name: Option<Seq<char>>,
    pub original_path: Option<Seq<char>>,
    pub deleted_at: Option<i64>,
    pub size_bytes: Option<u64>,
}

impl View for StoreEntry {
    type V = StoreEntryView;

    open spec fn view(&self) -> StoreEntryView {
        StoreEntryView {
            display_name: match self.display_name {
                Some(name) => Some(name@),
                None => None,
            },
            original_path: match self.original_path {
                Some(path) => Some(path@),
                None => None,
            },
            deleted_at: self.deleted_at,
            size_bytes: self.size_bytes,
        }
    }
}

impl StoreEntryView {
    /// An entry makes an item if its name and its path were resolved and the
    /// name is not empty.
    pub open spec fn resolvable(self) -> bool {
        &&& self.display_name matches Some(name) && name.len() > 0
        &&& self.original_path is Some
    }

    /// The item that a resolvable entry makes. Where the store told no time
    /// of deletion the item has `enumerated_at`; where it told no size, 0.
    pub open spec fn item(self, enumerated_at: i64) -> DeletedItemView {
        DeletedItemView {
            display_name: self.display_name->0,
            original_path: self.original_path->0,
            deleted_at: match self.deleted_at {
                Some(at) => at,
                None => enumerated_at,
            },
            size_bytes: match self.size_bytes {
                Some(size) => size,
                None => 0,
            },
        }
    }
}

/// The views of the entries of an enumeration.
pub open spec fn entry_views(entries: Seq<StoreEntry>) -> Seq<StoreEntryView> {
    entries.map_values(|entry: StoreEntry| entry@)
}

/// The snapshot that an enumeration makes: the items of its resolvable
/// entries, in the order of the entries.
pub open spec fn snapshot_of(entries: Seq<StoreEntryView>, enumerated_at: i64) -> Seq<
    DeletedItemView,
>
    decreases entries.len(),
{
    if entries.len() == 0 {
        Seq::empty()
    } else {
        let earlier = snapshot_of(entries.drop_last(), enumerated_at);
        if entries.last().resolvable() {
            earlier.push(entries.last().item(enumerated_at))
        } else {
            earlier
        }
    }
}

/// Makes one entry into an item, or skips it.
pub fn resolve(entry: &StoreEntry, enumerated_at: i64) -> (item: Option<DeletedItem>)
    ensures
        item is Some <==> entry@.resolvable(),
        item matches Some(made) ==> made@ == entry@.item(enumerated_at) && made@.well_formed(),
{
    match (&entry.display_name, &entry.original_path) {
        (Some(name), Some(path)) => {
            if name.as_str().unicode_len() == 0 {
                return None;
            }
            let deleted_at: i64 = match entry.deleted_at {
                Some(at) => at,
                None => enumerated_at,
            };
            let size_bytes: u64 = match entry.size_bytes {
                Some(size) => size,
                None => 0,
            };
            Some(
                DeletedItem {
                    display_name: name.clone(),
                    original_path: path.clone(),
                    deleted_at,
                    size_bytes,
                },
            )
        },
        _ => None,
    }
}

/// Builds the snapshot of an enumeration. Entries whose name or path could
/// not be resolved are left out; the others keep the store's order.
pub fn enumerate(entries: &Vec<StoreEntry>, enumerated_at: i64) -> (items: Vec<DeletedItem>)
    ensures
        item_views(items@) == snapshot_of(entry_views(entries@), enumerated_at),
        forall|i: int| 0 <= i < items.len() ==> (#[trigger] items[i])@.well_formed(),
{
    let mut items: Vec<DeletedItem> = Vec::new();
    let mut i: usize = 0;
    while i < entries.len()
        invariant
            i <= entries.len(),
            item_views(items@) == snapshot_of(entry_views(entries@).take(i as int), enumerated_at),
            forall|j: int| 0 <= j < items.len() ==> (#[trigger] items[j])@.well_formed(),
        decreases entries.len() - i,
    {
        assert(entry_views(entries@).take(i + 1).drop_last() == entry_views(entries@).take(
            i as int,
        ));
        match resolve(&entries[i], enumerated_at) {
            Some(item) => {
                items.push(item);
            },
            None => {},
        }
        i += 1;
    }
    assert(entry_views(entries@).take(entries.len() as int) == entry_views(entries@));
    items
}

/// `needle` stands in `hay` at position `at`.
pub open spec fn occurs_at(hay: Seq<char>, needle: Seq<char>, at: int) -> bool {
    &&& 0 <= at
    &&& at + needle.len() <= hay.len()
    &&& hay.subrange(at, at + needle.len()) == needle
}

/// `needle` stands somewhere in `hay`.
pub open spec fn has_substring(hay: Seq<char>, needle: Seq<char>) -> bool {
    exists|at: int| occurs_at(hay, needle, at)
}

/// Whether `needle` stands in `hay` at position `at`.
fn matches_at(hay: &Vec<char>, needle: &Vec<char>, at: usize) -> (found: bool)
    requires
        at + needle.len() <= hay.len(),
    ensures
        found == occurs_at(hay@, needle@, at as int),
{
    let mut i: usize = 0;
    while i < needle.len()
        invariant
            i <= needle.len(),
            at + needle.len() <= hay.len(),
            forall|j: int| 0 <= j < i ==> hay@[at + j] == needle@[j],
        decreases needle.len() - i,
    {
        if hay[at + i] != needle[i] {
            return false;
        }
        i += 1;
    }
    assert(hay@.subrange(at as int, at + needle.len()) =~= needle@);
    true
}

/// Whether `needle` stands somewhere in `hay`.
pub fn contains_text(hay: &Vec<char>, needle: &Vec<char>) -> (found: bool)
    ensures
        found == has_substring(hay@, needle@),
{
    if needle.len() > hay.len() {
        return false;
    }
    let last: usize = hay.len() - needle.len();
    let mut at: usize = 0;
    loop
        invariant
            at <= last,
            last + needle.len() == hay.len(),
            forall|j: int| 0 <= j < at ==> !occurs_at(hay@, needle@, j),
        decreases last - at,
    {
        if matches_at(hay, needle, at) {
            return true;
        }
        if at == last {
            return false;
        }
        at += 1;
    }
}

/// The positions in a snapshot of the items that match a query, in
/// ascending order.
pub open spec fn matches_in(items: Seq<DeletedItemView>, query: Seq<char>) -> Seq<usize>
    decreases items.len(),
{
    if items.len() == 0 {
        Seq::empty()
    } else {
        let earlier = matches_in(items.drop_last(), query);
        if items.last().matches(query) {
            earlier.push((items.len() - 1) as usize)
        } else {
            earlier
        }
    }
}

/// The matches are positions in the snapshot, in ascending order.
pub proof fn lemma_matches_are_positions(items: Seq<DeletedItemView>, query: Seq<char>)
    requires
        items.len() <= usize::MAX,
    ensures
        forall|i: int|
            0 <= i < matches_in(items, query).len() ==> #[trigger] matches_in(items, query)[i]
                < items.len(),
        forall|i: int, j: int|
            0 <= i < j < matches_in(items, query).len() ==> matches_in(items, query)[i]
                < matches_in(items, query)[j],
    decreases items.len(),
{
    if items.len() > 0 {
        lemma_matches_are_positions(items.drop_last(), query);
        let found = matches_in(items, query);
        let earlier = matches_in(items.drop_last(), query);
        assert forall|i: int| 0 <= i < found.len() implies #[trigger] found[i] < items.len() by {
            if i < earlier.len() {
                assert(found[i] == earlier[i]);
            }
        }
        assert forall|i: int, j: int| 0 <= i < j < found.len() implies found[i] < found[j] by {
            assert(found[i] == earlier[i]);
            if j < earlier.len() {
                assert(found[j] == earlier[j]);
            }
        }
    }
}

/// Looks for `query` in the names of a snapshot, letter case of the names
/// aside. The positions that come back are those of the snapshot as it is.
pub fn search(items: &Vec<DeletedItem>, query: &str) -> (found: Vec<usize>)
    ensures
        found@ == matches_in(item_views(items@), query@),
        forall|i: int| 0 <= i < found.len() ==> #[trigger] found[i] < items.len(),
{
    let needle = chars_of(query);
    let mut found: Vec<usize> = Vec::new();
    let mut i: usize = 0;
    while i < items.len()
        invariant
            i <= items.len(),
            needle@ == query@,
            found@ == matches_in(item_views(items@).take(i as int), query@),
        decreases items.len() - i,
    {
        assert(item_views(items@).take(i + 1).drop_last() == item_views(items@).take(i as int));
        let lower = items[i].display_name.as_str().to_lowercase();
        let hay = chars_of(lower.as_str());
        if contains_text(&hay, &needle) {
            found.push(i);
        }
        i += 1;
    }
    assert(item_views(items@).take(items.len() as int) == item_views(items@));
    proof {
        lemma_matches_are_positions(item_views(items@), query@);
    }
    found
}

} // verus!
