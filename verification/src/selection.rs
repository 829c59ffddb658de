//! Selection tokens: a single number, a range `a-b` or a comma list, read
//! against a snapshot of known length.
//!
//! Numbers in a token count from one; the indices that come out count from
//! zero. A token never fails to parse: what is malformed or out of range
//! selects nothing.

use vstd::prelude::*;
use crate::text::{
    chars_of, decimal, find_char, is_digit, lemma_decimal, parse_usize, parsed_usize, trim_bounds,
    trimmed, unsigned_digits, unsigned_value,
};

verus! {

/// `s[a..b]` is one of the fields that `sep` divides `s` into: it reaches
/// from one end or separator to the next and holds no separator.
pub open spec fn is_field(s: Seq<char>, sep: char, a: int, b: int) -> bool {
    &&& 0 <= a <= b <= s.len()
    &&& (a == 0 || s[a - 1] == sep)
    &&& (b == s.len() || s[b] == sep)
    &&& forall|i: int| a <= i < b ==> s[i] != sep
}

/// The field `token[a..b]` of a comma list names the entry at `index`.
pub open spec fn field_selects(token: Seq<char>, a: int, b: int, index: int) -> bool {
    &&& is_field(token, ',', a, b)
    &&& parsed_usize(trimmed(token.subrange(a, b))) == Some((index + 1) as usize)
}

/// A comma list selects the entries that one of its fields names.
pub open spec fn list_selects(token: Seq<char>, count: nat, index: int) -> bool {
    &&& 0 <= index < count
    &&& exists|a: int, b: int| field_selects(token, a, b, index)
}

/// `s[at]` is the first occurrence of `c` in `s`.
pub open spec fn first_at(s: Seq<char>, c: char, at: int) -> bool {
    &&& 0 <= at < s.len()
    &&& s[at] == c
    &&& forall|i: int| 0 <= i < at ==> s[i] != c
}

/// The number before the first `-` of a range token.
pub open spec fn range_start(token: Seq<char>, dash: int) -> Option<usize> {
    parsed_usize(trimmed(token.subrange(0, dash)))
}

/// The number after the first `-` of a range token.
pub open spec fn range_end(token: Seq<char>, dash: int) -> Option<usize> {
    parsed_usize(trimmed(token.subrange(dash + 1, token.len() as int)))
}

/// A range selects the entries from its first number to its second, both
/// included; none if the first is the greater, or if either is no number.
pub open spec fn range_selects(token: Seq<char>, count: nat, index: int) -> bool {
    &&& 0 <= index < count
    &&& exists|dash: int| #[trigger]
        first_at(token, '-', dash) && match (range_start(token, dash), range_end(token, dash)) {
            (Some(start), Some(end)) => start <= index + 1 <= end,
            _ => false,
        }
}

/// A single number selects the entry that it names.
pub open spec fn single_selects(token: Seq<char>, count: nat, index: int) -> bool {
    &&& 0 <= index < count
    &&& parsed_usize(token) == Some((index + 1) as usize)
}

/// Whether `token`, read against a snapshot of `count` entries, selects the
/// entry at the zero-based `index`.
pub open spec fn selects(token: Seq<char>, count: nat, index: int) -> bool {
    if token.contains(',') {
        list_selects(token, count, index)
    } else if token.contains('-') {
        range_selects(token, count, index)
    } else {
        single_selects(token, count, index)
    }
}

/// Strictly ascending: sorted, and nothing twice.
pub open spec fn is_ascending(s: Seq<usize>) -> bool {
    forall|i: int, j: int| 0 <= i < j < s.len() ==> s[i] < s[j]
}

/// A selection over a snapshot of `count` entries: ascending indices below
/// `count`.
pub open spec fn is_selection(s: Seq<usize>, count: nat) -> bool {
    &&& is_ascending(s)
    &&& forall|i: int| 0 <= i < s.len() ==> s[i] < count
}

/// The selected indices below `limit`, in ascending order.
pub open spec fn selection_below(token: Seq<char>, count: nat, limit: nat) -> Seq<usize>
    decreases limit,
{
    if limit == 0 {
        Seq::empty()
    } else {
        let lower = selection_below(token, count, (limit - 1) as nat);
        if selects(token, count, limit - 1) {
            lower.push((limit - 1) as usize)
        } else {
            lower
        }
    }
}

/// The selection that a token makes in a snapshot of `count` entries: every
/// index that it selects, once, in ascending order.
pub open spec fn selection(token: Seq<char>, count: nat) -> Seq<usize> {
    selection_below(token, count, count)
}

/// An ascending sequence that holds just the selected indices below `limit`
/// is the selection below `limit`.
proof fn lemma_ascending_is_selection(s: Seq<usize>, token: Seq<char>, count: nat, limit: nat)
    requires
        limit <= count <= usize::MAX,
        is_ascending(s),
        forall|k: usize| s.contains(k) <==> (k < limit && selects(token, count, k as int)),
    ensures
        s == selection_below(token, count, limit),
    decreases limit,
{
    if limit == 0 {
        if s.len() > 0 {
            assert(s.contains(s[0]));
        }
    } else {
        let top = (limit - 1) as usize;
        if selects(token, count, limit - 1) {
            assert(s.contains(top));
            let at = choose|at: int| 0 <= at < s.len() && s[at] == top;
            if at < s.len() - 1 {
                assert(s.contains(s[s.len() - 1]));
            }
            let lower = s.drop_last();
            assert forall|k: usize| lower.contains(k) <==> (k < limit - 1 && selects(
                token,
                count,
                k as int,
            )) by {
                if lower.contains(k) {
                    let i = choose|i: int| 0 <= i < lower.len() && lower[i] == k;
                    assert(s.contains(k));
                }
                if k < limit - 1 && selects(token, count, k as int) {
                    assert(s.contains(k));
                    let i = choose|i: int| 0 <= i < s.len() && s[i] == k;
                    assert(lower[i] == k);
                }
            }
            lemma_ascending_is_selection(lower, token, count, (limit - 1) as nat);
        } else {
            assert forall|k: usize| s.contains(k) <==> (k < limit - 1 && selects(
                token,
                count,
                k as int,
            )) by {}
            lemma_ascending_is_selection(s, token, count, (limit - 1) as nat);
        }
    }
}

/// The selection below `limit` is ascending, stays below `limit`, and holds
/// an index if and only if the token selects it.
proof fn lemma_selection_below(token: Seq<char>, count: nat, limit: nat)
    requires
        limit <= count <= usize::MAX,
    ensures
        is_ascending(selection_below(token, count, limit)),
        forall|i: int|
            0 <= i < selection_below(token, count, limit).len() ==> #[trigger] selection_below(
                token,
                count,
                limit,
            )[i] < limit,
        forall|k: usize|
            selection_below(token, count, limit).contains(k) <==> (k < limit && selects(
                token,
                count,
                k as int,
            )),
    decreases limit,
{
    let s = selection_below(token, count, limit);
    if limit > 0 {
        let lower = selection_below(token, count, (limit - 1) as nat);
        lemma_selection_below(token, count, (limit - 1) as nat);
        let top = (limit - 1) as usize;
        assert forall|k: usize| s.contains(k) <==> (k < limit && selects(token, count, k as int)) by {
            if k < limit && selects(token, count, k as int) {
                if k == top {
                    assert(s[s.len() - 1] == k);
                } else {
                    let i = choose|i: int| 0 <= i < lower.len() && lower[i] == k;
                    assert(s[i] == k);
                }
            }
        }
    }
}

/// Whatever the token, its selection is sorted, holds nothing twice, stays
/// within the snapshot, and holds an index if and only if the token selects
/// it.
pub proof fn law_selection_is_exact(token: Seq<char>, count: nat)
    requires
        count <= usize::MAX,
    ensures
        is_selection(selection(token, count), count),
        forall|k: usize|
            selection(token, count).contains(k) <==> selects(token, count, k as int),
{
    lemma_selection_below(token, count, count);
}

/// Puts `index` at its place in an ascending vector, unless it is there.
fn insert_ascending(indices: &mut Vec<usize>, index: usize)
    requires
        is_ascending(old(indices)@),
    ensures
        is_ascending(final(indices)@),
        forall|k: usize|
            final(indices)@.contains(k) <==> (old(indices)@.contains(k) || k == index),
{
    let mut at: usize = 0;
    while at < indices.len() && indices[at] < index
        invariant
            at <= indices.len(),
            *indices == *old(indices),
            forall|i: int| 0 <= i < at ==> indices@[i] < index,
        decreases indices.len() - at,
    {
        at += 1;
    }
    if at < indices.len() && indices[at] == index {
        return ;
    }
    let ghost before = indices@;
    indices.insert(at, index);
    let ghost after = indices@;
    assert forall|k: usize| after.contains(k) <==> (before.contains(k) || k == index) by {
        if before.contains(k) {
            let i = choose|i: int| 0 <= i < before.len() && before[i] == k;
            if i < at {
                assert(after[i] == k);
            } else {
                assert(after[i + 1] == k);
            }
        }
        if k == index {
            assert(after[at as int] == k);
        }
    }
}

/// As `list_selects`, by the fields that end before `limit` alone.
spec fn list_selects_before(token: Seq<char>, count: nat, limit: int, index: int) -> bool {
    &&& 0 <= index < count
    &&& exists|a: int, b: int| b < limit && field_selects(token, a, b, index)
}

/// A field is known by any position between its bounds.
proof fn lemma_field_unique(s: Seq<char>, sep: char, start: int, end: int, a: int, b: int)
    requires
        is_field(s, sep, start, end),
        is_field(s, sep, a, b),
        start <= b <= end,
    ensures
        a == start,
        b == end,
{
}

/// Reads a comma list: every field is trimmed and read as a number.
fn select_list(chars: &Vec<char>, count: usize) -> (indices: Vec<usize>)
    ensures
        is_selection(indices@, count as nat),
        forall|k: usize| indices@.contains(k) <==> list_selects(chars@, count as nat, k as int),
{
    let n: usize = chars.len();
    let mut indices: Vec<usize> = Vec::new();
    let mut start: usize = 0;
    loop
        invariant_except_break
            start <= n == chars.len(),
            start == 0 || chars@[start - 1] == ',',
            forall|k: usize|
                indices@.contains(k) <==> list_selects_before(
                    chars@,
                    count as nat,
                    start as int,
                    k as int,
                ),
        invariant
            is_selection(indices@, count as nat),
        ensures
            forall|k: usize|
                indices@.contains(k) <==> list_selects(chars@, count as nat, k as int),
        decreases n - start,
    {
        let end: usize = match find_char(chars, start, n, ',') {
            Some(comma) => comma,
            None => n,
        };
        let (a, b) = trim_bounds(chars, start, end);
        let number = parse_usize(chars, a, b);
        let ghost before = indices@;
        match number {
            Some(n1) => {
                if n1 > 0 && n1 <= count {
                    insert_ascending(&mut indices, n1 - 1);
                    assert forall|i: int| 0 <= i < indices@.len() implies indices@[i] < count by {
                        assert(indices@.contains(indices@[i]));
                    }
                }
            },
            None => {},
        }
        assert forall|k: usize|
            indices@.contains(k) <==> list_selects_before(
                chars@,
                count as nat,
                end + 1,
                k as int,
            ) by {
            if indices@.contains(k) && !before.contains(k) {
                assert(field_selects(chars@, start as int, end as int, k as int));
            }
            if list_selects_before(chars@, count as nat, end + 1, k as int) {
                let (a2, b2) = choose|a2: int, b2: int|
                    b2 < end + 1 && field_selects(chars@, a2, b2, k as int);
                if b2 >= start {
                    lemma_field_unique(chars@, ',', start as int, end as int, a2, b2);
                }
            }
        }
        if end == n {
            break ;
        }
        start = end + 1;
    }
    indices
}

/// Reads a range whose first `-` stands at `dash`.
fn select_range(chars: &Vec<char>, count: usize, dash: usize) -> (indices: Vec<usize>)
    requires
        first_at(chars@, '-', dash as int),
    ensures
        is_selection(indices@, count as nat),
        forall|k: usize| indices@.contains(k) <==> range_selects(chars@, count as nat, k as int),
{
    let n: usize = chars.len();
    let (a1, b1) = trim_bounds(chars, 0, dash);
    let (a2, b2) = trim_bounds(chars, dash + 1, n);
    let first = parse_usize(chars, a1, b1);
    let last = parse_usize(chars, a2, b2);
    let mut indices: Vec<usize> = Vec::new();
    match (first, last) {
        (Some(start), Some(end)) => {
            let low: usize = if start < 1 {
                0
            } else {
                start - 1
            };
            let high: usize = if end > count {
                count
            } else {
                end
            };
            let mut index: usize = low;
            while index < high
                invariant
                    low <= index,
                    high <= count,
                    forall|i: int|
                        0 <= i < indices@.len() ==> low <= #[trigger] indices@[i] && indices@[i]
                            < index && indices@[i] < high,
                    is_ascending(indices@),
                    forall|k: usize| low <= k < index && k < high ==> indices@.contains(k),
                decreases high - index,
            {
                let ghost before = indices@;
                indices.push(index);
                assert(indices@[before.len() as int] == index);
                assert forall|k: usize| low <= k < index + 1 && k < high implies indices@.contains(
                    k,
                ) by {
                    if k < index {
                        assert(before.contains(k));
                        let j = choose|j: int| 0 <= j < before.len() && before[j] == k;
                        assert(indices@[j] == k);
                    }
                }
                index += 1;
            }
            assert forall|k: usize|
                indices@.contains(k) <==> range_selects(chars@, count as nat, k as int) by {
                if indices@.contains(k) {
                    assert(first_at(chars@, '-', dash as int));
                }
            }
        },
        _ => {},
    }
    indices
}

/// Reads a single number.
fn select_single(chars: &Vec<char>, count: usize) -> (indices: Vec<usize>)
    ensures
        is_selection(indices@, count as nat),
        forall|k: usize| indices@.contains(k) <==> single_selects(chars@, count as nat, k as int),
{
    let mut indices: Vec<usize> = Vec::new();
    assert(chars@.subrange(0, chars.len() as int) == chars@);
    match parse_usize(chars, 0, chars.len()) {
        Some(number) => {
            if number > 0 && number <= count {
                indices.push(number - 1);
                assert(indices@[0] == number - 1);
            }
        },
        None => {},
    }
    indices
}

/// Reads a selection token against a snapshot of `count` entries.
///
/// A token with a comma is a list, one with `-` and no comma is a range, any
/// other is a single number. The result holds each selected index once, in
/// ascending order.
pub fn parse_indices(input: &str, count: usize) -> (indices: Vec<usize>)
    ensures
        indices@ == selection(input@, count as nat),
        is_selection(indices@, count as nat),
        forall|k: usize| indices@.contains(k) <==> selects(input@, count as nat, k as int),
{
    let chars = chars_of(input);
    let n: usize = chars.len();
    let indices = if find_char(&chars, 0, n, ',').is_some() {
        select_list(&chars, count)
    } else {
        match find_char(&chars, 0, n, '-') {
            Some(dash) => select_range(&chars, count, dash),
            None => select_single(&chars, count),
        }
    };
    proof {
        lemma_ascending_is_selection(indices@, input@, count as nat, count as nat);
    }
    indices
}

/// A numeral holds neither a comma nor a `-`: it is read as a single number.
pub proof fn lemma_numeral_is_single(token: Seq<char>)
    requires
        unsigned_value(token) is Some,
    ensures
        !token.contains(','),
        !token.contains('-'),
{
    let digits = unsigned_digits(token);
    assert forall|i: int| 0 <= i < token.len() implies token[i] != ',' && token[i] != '-' by {
        if token[0] == '+' {
            if i > 0 {
                assert(is_digit(digits[i - 1]));
            }
        } else {
            assert(is_digit(digits[i]));
        }
    }
}

/// A token that is the numeral of `k`, with `k` from 1 to `count`, selects
/// the entry at `k - 1` and no other.
pub proof fn law_number_selects_its_entry(count: nat, k: nat)
    requires
        1 <= k <= count <= usize::MAX,
    ensures
        selection(decimal(k), count) == seq![(k - 1) as usize],
{
    let token = decimal(k);
    lemma_decimal(k);
    lemma_numeral_is_single(token);
    let chosen = seq![(k - 1) as usize];
    assert forall|j: usize| chosen.contains(j) <==> (j < count && selects(
        token,
        count,
        j as int,
    )) by {
        if j == k - 1 {
            assert(chosen[0] == j);
        }
    }
    lemma_ascending_is_selection(chosen, token, count, count);
}

/// A token that is the numeral of 0, or of a number above `count`, selects
/// nothing.
pub proof fn law_number_out_of_range_selects_nothing(count: nat, k: nat)
    requires
        count <= usize::MAX,
        k == 0 || k > count,
    ensures
        selection(decimal(k), count) == Seq::<usize>::empty(),
{
    let token = decimal(k);
    lemma_decimal(k);
    lemma_numeral_is_single(token);
    let chosen = Seq::<usize>::empty();
    assert forall|j: usize| chosen.contains(j) <==> (j < count && selects(
        token,
        count,
        j as int,
    )) by {}
    lemma_ascending_is_selection(chosen, token, count, count);
}

} // verus!
