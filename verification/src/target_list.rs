//! The persisted list of marked senders: a JSON array of strings that every
//! mutation leaves strictly ascending and free of repeats.
//!
//! The functions here work on the contents of the file; reading and writing
//! the file itself is the caller's part.

use vstd::prelude::*;
use crate::error::TriageError;
use crate::json::{json_string_array, parse_string_array, string_array_json, write_string_array};
use crate::order::{
    compare, lemma_text_lt_asymmetric, lemma_text_lt_irreflexive, lemma_text_lt_total,
    lemma_text_lt_transitive, text_lt, Order,
};

verus! {

/// Each entry comes strictly before every later one.
pub open spec fn strictly_ascending(list: Seq<Seq<char>>) -> bool {
    forall|i: int, j: int| 0 <= i < j < list.len() ==> text_lt(#[trigger] list[i], #[trigger] list[j])
}

/// `list` is the persisted form of the set `members`: strictly ascending, and
/// holding exactly the members.
pub open spec fn lists(list: Seq<Seq<char>>, members: Set<Seq<char>>) -> bool {
    &&& strictly_ascending(list)
    &&& forall|x: Seq<char>| #[trigger] list.contains(x) <==> members.contains(x)
}

/// The persisted form of a set of addresses.
pub open spec fn listing(members: Set<Seq<char>>) -> Seq<Seq<char>> {
    choose|list: Seq<Seq<char>>| lists(list, members)
}

/// The list that is stored after `address` was added to a stored `list`:
/// the entries of `list` and `address`, sorted, each once.
pub open spec fn with_address(list: Seq<Seq<char>>, address: Seq<char>) -> Seq<Seq<char>> {
    listing(list.to_set().insert(address))
}

/// The list after each of `addresses` was added in turn.
pub open spec fn with_addresses(list: Seq<Seq<char>>, addresses: Seq<Seq<char>>) -> Seq<Seq<char>>
    decreases addresses.len(),
{
    if addresses.len() == 0 {
        list
    } else {
        with_address(with_addresses(list, addresses.drop_last()), addresses.last())
    }
}

/// The list that a file's content stands for: none for an empty file,
/// otherwise what the JSON text holds; `None` where the text is no JSON array
/// of strings.
pub open spec fn stored_list(content: Seq<char>) -> Option<Seq<Seq<char>>> {
    if content.len() == 0 {
        Some(Seq::empty())
    } else {
        json_string_array(content)
    }
}

/// A strictly ascending list holds nothing twice.
pub proof fn lemma_ascending_no_duplicates(list: Seq<Seq<char>>)
    requires
        strictly_ascending(list),
    ensures
        list.no_duplicates(),
{
    assert forall|i: int, j: int| 0 <= i < list.len() && 0 <= j < list.len() && i != j implies list[i]
        != list[j] by {
        if i < j {
            lemma_text_lt_asymmetric(list[i], list[j]);
        } else {
            lemma_text_lt_asymmetric(list[j], list[i]);
        }
    }
}

/// In a strictly ascending list an entry at an earlier place comes before, and
/// an equal entry stands at the same place.
proof fn lemma_ascending_places(list: Seq<Seq<char>>, i: int, j: int)
    requires
        strictly_ascending(list),
        0 <= i < list.len(),
        0 <= j < list.len(),
    ensures
        text_lt(list[i], list[j]) ==> i < j,
        list[i] == list[j] ==> i == j,
{
    if i < j {
        lemma_text_lt_asymmetric(list[i], list[j]);
    } else if j < i {
        lemma_text_lt_asymmetric(list[j], list[i]);
    } else {
        lemma_text_lt_irreflexive(list[i]);
    }
}

/// A set of addresses has at most one persisted form.
pub proof fn lemma_lists_unique(a: Seq<Seq<char>>, b: Seq<Seq<char>>, members: Set<Seq<char>>)
    requires
        lists(a, members),
        lists(b, members),
    ensures
        a == b,
    decreases a.len(),
{
    if a.len() == 0 {
        if b.len() > 0 {
            assert(b.contains(b[0]));
            assert(a.contains(b[0]));
        }
    } else {
        let top = a.last();
        assert(a.contains(top));
        assert(b.contains(top));
        let other = b.last();
        assert(b.contains(other));
        assert(a.contains(other));
        assert(top == other) by {
            if top != other {
                // Then `top` stands before `other` in `b`, and `other` before `top` in `a`.
                lemma_text_lt_asymmetric(top, other);
            }
        }
        let a0 = a.drop_last();
        let b0 = b.drop_last();
        let rest = members.remove(top);
        assert forall|x: Seq<char>| #[trigger] a0.contains(x) <==> rest.contains(x) by {
            lemma_drop_last_contains(a, x);
        }
        assert forall|x: Seq<char>| #[trigger] b0.contains(x) <==> rest.contains(x) by {
            lemma_drop_last_contains(b, x);
        }
        lemma_lists_unique(a0, b0, rest);
        assert(a =~= a0.push(top));
    }
}

/// What a strictly ascending list holds before its last entry: all that it
/// holds but that entry.
proof fn lemma_drop_last_contains(list: Seq<Seq<char>>, x: Seq<char>)
    requires
        strictly_ascending(list),
        list.len() > 0,
    ensures
        list.drop_last().contains(x) <==> (list.contains(x) && x != list.last()),
{
    let front = list.drop_last();
    if front.contains(x) {
        let i = choose|i: int| 0 <= i < front.len() && front[i] == x;
        lemma_ascending_places(list, i, list.len() - 1);
    }
    if list.contains(x) && x != list.last() {
        let i = choose|i: int| 0 <= i < list.len() && list[i] == x;
        assert(front[i] == x);
    }
}

/// `list` with `x` put where it belongs: unchanged where `x` is an entry.
spec fn placed(list: Seq<Seq<char>>, x: Seq<char>) -> Seq<Seq<char>>
    decreases list.len(),
{
    if list.len() == 0 {
        seq![x]
    } else if text_lt(list.last(), x) {
        list.push(x)
    } else if list.last() == x {
        list
    } else {
        placed(list.drop_last(), x).push(list.last())
    }
}

/// Putting an address where it belongs keeps the list ascending and adds
/// nothing else.
proof fn lemma_placed(list: Seq<Seq<char>>, x: Seq<char>)
    requires
        strictly_ascending(list),
    ensures
        strictly_ascending(placed(list, x)),
        forall|y: Seq<char>| #[trigger] placed(list, x).contains(y) <==> (list.contains(y) || y == x),
    decreases list.len(),
{
    let out = placed(list, x);
    if list.len() == 0 {
        assert(out[0] == x);
    } else if text_lt(list.last(), x) {
        assert forall|i: int, j: int| 0 <= i < j < out.len() implies text_lt(
            #[trigger] out[i],
            #[trigger] out[j],
        ) by {
            if j == list.len() && i < list.len() - 1 {
                lemma_text_lt_transitive(list[i], list.last(), x);
            }
        }
        assert forall|y: Seq<char>| #[trigger] out.contains(y) <==> (list.contains(y) || y == x) by {
            if list.contains(y) {
                let i = choose|i: int| 0 <= i < list.len() && list[i] == y;
                assert(out[i] == y);
            }
            if y == x {
                assert(out[list.len() as int] == y);
            }
        }
    } else if list.last() != x {
        let front = list.drop_last();
        let top = list.last();
        lemma_placed(front, x);
        let inner = placed(front, x);
        lemma_text_lt_total(top, x);
        assert forall|i: int| 0 <= i < inner.len() implies text_lt(#[trigger] inner[i], top) by {
            assert(inner.contains(inner[i]));
        }
        assert forall|y: Seq<char>| #[trigger] out.contains(y) <==> (list.contains(y) || y == x) by {
            lemma_drop_last_contains(list, y);
            if out.contains(y) {
                let i = choose|i: int| 0 <= i < out.len() && out[i] == y;
                if i < inner.len() {
                    assert(inner.contains(y));
                }
            }
            if y == x || (list.contains(y) && y != top) {
                assert(inner.contains(y));
            }
            if y == top {
                assert(out[inner.len() as int] == y);
            }
        }
    }
}

/// The entries of a list, each once and in ascending order.
spec fn sorted(items: Seq<Seq<char>>) -> Seq<Seq<char>>
    decreases items.len(),
{
    if items.len() == 0 {
        Seq::empty()
    } else {
        placed(sorted(items.drop_last()), items.last())
    }
}

/// The sorted entries are the persisted form of the set of the entries.
proof fn lemma_sorted(items: Seq<Seq<char>>)
    ensures
        lists(sorted(items), items.to_set()),
    decreases items.len(),
{
    let out = sorted(items);
    if items.len() > 0 {
        let front = items.drop_last();
        lemma_sorted(front);
        lemma_placed(sorted(front), items.last());
        assert forall|x: Seq<char>| #[trigger] out.contains(x) <==> items.to_set().contains(x) by {
            if items.contains(x) {
                let i = choose|i: int| 0 <= i < items.len() && items[i] == x;
                if i < front.len() {
                    assert(front[i] == x);
                }
            }
        }
    }
}

/// Every list of addresses has a persisted form of its entries, and
/// `listing` is it.
pub proof fn lemma_listing(items: Seq<Seq<char>>)
    ensures
        lists(listing(items.to_set()), items.to_set()),
{
    lemma_sorted(items);
}

/// What `with_address` holds: the entries of `list` and `address`, strictly
/// ascending, each once.
pub proof fn lemma_with_address(list: Seq<Seq<char>>, address: Seq<char>)
    ensures
        strictly_ascending(with_address(list, address)),
        with_address(list, address).no_duplicates(),
        forall|x: Seq<char>| #[trigger]
            with_address(list, address).contains(x) <==> (list.contains(x) || x == address),
{
    let items = list.push(address);
    assert(items.to_set() =~= list.to_set().insert(address)) by {
        assert forall|x: Seq<char>| items.to_set().contains(x) <==> list.to_set().insert(
            address,
        ).contains(x) by {
            if list.contains(x) {
                let i = choose|i: int| 0 <= i < list.len() && list[i] == x;
                assert(items[i] == x);
            }
            if x == address {
                assert(items[list.len() as int] == x);
            }
        }
    }
    lemma_listing(items);
    lemma_ascending_no_duplicates(with_address(list, address));
}

/// A list that is strictly ascending and holds the entries of `list` and
/// `address` is the list stored after the address was added.
pub proof fn lemma_with_address_is(list: Seq<Seq<char>>, address: Seq<char>, out: Seq<Seq<char>>)
    requires
        strictly_ascending(out),
        forall|x: Seq<char>| #[trigger] out.contains(x) <==> (list.contains(x) || x == address),
    ensures
        out == with_address(list, address),
{
    let members = list.to_set().insert(address);
    lemma_with_address(list, address);
    lemma_lists_unique(out, with_address(list, address), members);
}

/// Adding the same address twice stores the same list as adding it once.
pub proof fn lemma_add_idempotent(list: Seq<Seq<char>>, address: Seq<char>)
    ensures
        with_address(with_address(list, address), address) == with_address(list, address),
{
    let once = with_address(list, address);
    lemma_with_address(list, address);
    lemma_with_address_is(once, address, once);
}

/// Adding an address that a strictly ascending list already holds leaves the
/// list as it is.
pub proof fn lemma_add_present(list: Seq<Seq<char>>, address: Seq<char>)
    requires
        strictly_ascending(list),
        list.contains(address),
    ensures
        with_address(list, address) == list,
{
    lemma_with_address_is(list, address, list);
}

/// After any sequence of adds the stored list is strictly ascending and holds
/// nothing twice: after one or more adds whatever list one starts from, and
/// after none where the list was so before, as the empty list of a new store
/// is.
pub proof fn lemma_adds_ascending(list: Seq<Seq<char>>, addresses: Seq<Seq<char>>)
    requires
        addresses.len() > 0 || strictly_ascending(list),
    ensures
        strictly_ascending(with_addresses(list, addresses)),
        with_addresses(list, addresses).no_duplicates(),
{
    if addresses.len() > 0 {
        lemma_with_address(with_addresses(list, addresses.drop_last()), addresses.last());
    } else {
        lemma_ascending_no_duplicates(list);
    }
}

/// Puts `address` where it belongs in a strictly ascending list, unless the
/// list holds it already.
pub fn place(list: &mut Vec<String>, address: String)
    requires
        strictly_ascending(old(list).deep_view()),
    ensures
        final(list).deep_view() == with_address(old(list).deep_view(), address@),
        strictly_ascending(final(list).deep_view()),
        forall|x: Seq<char>| #[trigger]
            final(list).deep_view().contains(x) <==> (old(list).deep_view().contains(x) || x
                == address@),
{
    let ghost before = list.deep_view();
    let mut p: usize = 0;
    let mut here = false;
    while p < list.len() && !here
        invariant
            p <= list.len(),
            list.deep_view() == before,
            strictly_ascending(before),
            here ==> p < list.len() && text_lt(address@, before[p as int]),
            forall|j: int| 0 <= j < p ==> text_lt(#[trigger] before[j], address@),
        decreases list.len() - p + (if here { 0int } else { 1int }),
    {
        match compare(list[p].as_str(), address.as_str()) {
            Order::Less => {
                p = p + 1;
            },
            Order::Equal => {
                proof {
                    assert(before[p as int] == address@);
                    lemma_with_address_is(before, address@, before);
                }
                return ;
            },
            Order::Greater => {
                here = true;
            },
        }
    }
    list.insert(p, address);
    proof {
        let after = list.deep_view();
        assert(after =~= before.insert(p as int, address@));
        assert forall|i: int, j: int| 0 <= i < j < after.len() implies text_lt(
            #[trigger] after[i],
            #[trigger] after[j],
        ) by {
            if i == p && j > p + 1 {
                lemma_text_lt_transitive(address@, before[p as int], before[j - 1]);
            }
        }
        assert forall|x: Seq<char>| #[trigger] after.contains(x) <==> (before.contains(x) || x
            == address@) by {
            if before.contains(x) {
                let i = choose|i: int| 0 <= i < before.len() && before[i] == x;
                if i < p {
                    assert(after[i] == x);
                } else {
                    assert(after[i + 1] == x);
                }
            }
            if x == address@ {
                assert(after[p as int] == x);
            }
        }
        lemma_with_address_is(before, address@, after);
    }
}

/// The list to store after `address` was added to `list`: whatever order and
/// repeats `list` came with, the result is sorted and holds each entry once.
pub fn add_address(list: Vec<String>, address: String) -> (out: Vec<String>)
    ensures
        out.deep_view() == with_address(list.deep_view(), address@),
        strictly_ascending(out.deep_view()),
        out.deep_view().no_duplicates(),
        forall|x: Seq<char>| #[trigger]
            out.deep_view().contains(x) <==> (list.deep_view().contains(x) || x == address@),
{
    let ghost given = list.deep_view();
    let mut out: Vec<String> = Vec::new();
    let mut i: usize = 0;
    while i < list.len()
        invariant
            i <= list.len(),
            list.deep_view() == given,
            strictly_ascending(out.deep_view()),
            forall|x: Seq<char>| #[trigger]
                out.deep_view().contains(x) <==> given.take(i as int).contains(x),
        decreases list.len() - i,
    {
        let entry = list[i].clone();
        place(&mut out, entry);
        proof {
            let now = given.take(i + 1);
            assert forall|x: Seq<char>| #[trigger]
                out.deep_view().contains(x) <==> now.contains(x) by {
                if x == given[i as int] {
                    assert(now[i as int] == x);
                }
            }
        }
        i = i + 1;
    }
    proof {
        assert(given.take(list.len() as int) =~= given);
    }
    place(&mut out, address);
    proof {
        lemma_with_address_is(given, address@, out.deep_view());
        lemma_ascending_no_duplicates(out.deep_view());
    }
    out
}

/// Reads the stored list from the content of its file. An empty file stands
/// for an empty list. The entries come as they are stored.
pub fn list(content: &str) -> (r: Result<Vec<String>, TriageError>)
    ensures
        match r {
            Ok(entries) => stored_list(content@) == Some(entries.deep_view()),
            Err(e) => stored_list(content@) is None && e == TriageError::ParseDBError,
        },
{
    if content.is_empty() {
        let entries: Vec<String> = Vec::new();
        return Ok(entries);
    }
    match parse_string_array(content) {
        Ok(entries) => Ok(entries),
        Err(_) => Err(TriageError::ParseDBError),
    }
}

/// One whole mutation of the store: from the content of the file as it was
/// read and the address to add, the bytes to overwrite the file with.
///
/// Fails with `ParseDBError` exactly where the content is neither empty nor a
/// JSON array of strings, and with `EncodeDBError` exactly where the JSON
/// writer refuses the new list.
pub fn add(content: &str, address: &str) -> (r: Result<Vec<u8>, TriageError>)
    ensures
        match stored_list(content@) {
            None => r == Err::<Vec<u8>, TriageError>(TriageError::ParseDBError),
            Some(entries) => match string_array_json(with_address(entries, address@)) {
                Some(bytes) => r matches Ok(b) && b@ == bytes,
                None => r == Err::<Vec<u8>, TriageError>(TriageError::EncodeDBError),
            },
        },
{
    match list(content) {
        Err(e) => Err(e),
        Ok(entries) => {
            let next = add_address(entries, address.to_owned());
            match write_string_array(&next) {
                Ok(bytes) => Ok(bytes),
                Err(_) => Err(TriageError::EncodeDBError),
            }
        },
    }
}

} // verus!
