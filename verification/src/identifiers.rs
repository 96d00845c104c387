//! Fresh identifiers, and lists of identifiers as sets.

use vstd::prelude::*;

verus! {

/// Whether a 128-bit value has the version and variant bits of a random
/// identifier. The nil identifier has not.
pub open spec fn random_uuid(id: u128) -> bool {
    id & 0xf000_c000_0000_0000_0000u128 == 0x4000_8000_0000_0000_0000u128
}

/// Draws a random identifier with `uuid::Uuid::new_v4` and hands out its
/// 128-bit value. Of the value only this is claimed: it has the version and
/// variant bits that the crate sets. What the other bits are is chance.
#[verifier::external_body]
pub(crate) fn fresh_uuid() -> (id: u128)
    ensures
        random_uuid(id),
{
    uuid::Uuid::new_v4().as_u128()
}

/// A random identifier is never the nil one.
pub proof fn law_random_identifiers_are_not_nil(id: u128)
    requires
        random_uuid(id),
    ensures
        id != 0,
{
    assert(id & 0xf000_c000_0000_0000_0000u128 == 0x4000_8000_0000_0000_0000u128 ==> id != 0)
        by (bit_vector);
}

/// Strictly ascending: sorted, and without repetition.
pub open spec fn ascending(ids: Seq<u128>) -> bool {
    forall|i: int, j: int| 0 <= i < j < ids.len() ==> ids[i] < ids[j]
}

/// `ids` names every member of `members` exactly once and nothing else.
pub open spec fn lists_exactly(ids: Seq<u128>, members: Set<u128>) -> bool {
    &&& ids.no_duplicates()
    &&& ids.to_set() == members
}

/// One more element of a prefix adds exactly that element to its members.
pub proof fn lemma_take_next<T>(items: Seq<T>, index: int)
    requires
        0 <= index < items.len(),
    ensures
        items.take(index + 1) == items.take(index).push(items[index]),
        forall|item: T| #[trigger]
            items.take(index + 1).contains(item) <==> items.take(index).contains(item) || item
                == items[index],
{
    assert(items.take(index + 1) =~= items.take(index).push(items[index]));
    assert forall|item: T| #[trigger]
        items.take(index + 1).contains(item) <==> items.take(index).contains(item) || item
        == items[index] by {
        let longer = items.take(index + 1);
        let shorter = items.take(index);
        if longer.contains(item) {
            let at = choose|i: int| 0 <= i < longer.len() && longer[i] == item;
            if at < index {
                assert(shorter[at] == item);
            }
        }
        if shorter.contains(item) {
            let at = choose|i: int| 0 <= i < shorter.len() && shorter[i] == item;
            assert(longer[at] == item);
        }
        assert(longer[index] == items[index]);
    }
}

/// Appending an item adds exactly that item to the members.
pub proof fn lemma_push_contains<T>(items: Seq<T>, added: T)
    ensures
        forall|item: T| #[trigger]
            items.push(added).contains(item) <==> items.contains(item) || item == added,
        items.no_duplicates() && !items.contains(added) ==> items.push(added).no_duplicates(),
{
    let longer = items.push(added);
    assert forall|item: T| #[trigger] longer.contains(item) <==> items.contains(item) || item
        == added by {
        if items.contains(item) {
            let at = choose|i: int| 0 <= i < items.len() && items[i] == item;
            assert(longer[at] == item);
        }
        assert(longer[items.len() as int] == added);
    }
}

/// Adds `id` to an ascending list, unless it is there already.
pub fn insert_ascending(ids: &mut Vec<u128>, id: u128)
    requires
        ascending(old(ids)@),
    ensures
        ascending(final(ids)@),
        final(ids)@.to_set() == old(ids)@.to_set().insert(id),
{
    let mut index: usize = 0;
    while index < ids.len() && ids[index] < id
        invariant
            index <= ids.len(),
            ids@ == old(ids)@,
            forall|i: int| 0 <= i < index ==> ids@[i] < id,
        decreases ids.len() - index,
    {
        index += 1;
    }
    if index < ids.len() && ids[index] == id {
        assert(ids@.to_set() =~= ids@.to_set().insert(id)) by {
            assert(ids@[index as int] == id);
        }
        return;
    }
    ids.insert(index, id);
    proof {
        let before = old(ids)@;
        let after = ids@;
        assert(after == before.insert(index as int, id));
        assert forall|member: u128| after.to_set().contains(member) implies before.to_set().insert(
            id,
        ).contains(member) by {
            let at = choose|i: int| 0 <= i < after.len() && after[i] == member;
            if at < index {
                assert(before[at] == member);
            } else if at > index {
                assert(before[at - 1] == member);
            }
        }
        assert forall|member: u128| before.to_set().insert(id).contains(member) implies after.to_set().contains(
            member,
        ) by {
            if member == id {
                assert(after[index as int] == id);
            } else {
                let at = choose|i: int| 0 <= i < before.len() && before[i] == member;
                if at < index {
                    assert(after[at] == member);
                } else {
                    assert(after[at + 1] == member);
                }
            }
        }
        assert(after.to_set() =~= before.to_set().insert(id));
    }
}

/// Whether `id` occurs in `ids`.
pub fn contains_id(ids: &Vec<u128>, id: u128) -> (found: bool)
    ensures
        found == ids@.contains(id),
{
    let mut index: usize = 0;
    while index < ids.len()
        invariant
            index <= ids.len(),
            forall|i: int| 0 <= i < index ==> ids@[i] != id,
        decreases ids.len() - index,
    {
        if ids[index] == id {
            assert(ids@[index as int] == id);
            return true;
        }
        index += 1;
    }
    false
}

/// The ascending list of the members of `ids`.
pub fn ascending_members(ids: &Vec<u128>) -> (sorted: Vec<u128>)
    ensures
        ascending(sorted@),
        sorted@.to_set() == ids@.to_set(),
{
    let mut sorted: Vec<u128> = Vec::new();
    let mut index: usize = 0;
    assert(sorted@.to_set() =~= ids@.take(0).to_set());
    while index < ids.len()
        invariant
            index <= ids.len(),
            ascending(sorted@),
            sorted@.to_set() == ids@.take(index as int).to_set(),
        decreases ids.len() - index,
    {
        insert_ascending(&mut sorted, ids[index]);
        assert(ids@.take(index + 1) =~= ids@.take(index as int).push(ids@[index as int]));
        proof {
            ids@.take(index as int).lemma_push_to_set_commute(ids@[index as int]);
        }
        index += 1;
    }
    assert(ids@.take(index as int) =~= ids@);
    sorted
}

/// A list as long as a duplicate-free one that contains all its members has
/// exactly these members, each once.
pub proof fn lemma_same_length_cover(ids: Seq<u128>, members: Seq<u128>)
    requires
        members.no_duplicates(),
        ids.len() == members.len(),
        forall|i: int| 0 <= i < members.len() ==> ids.contains(#[trigger] members[i]),
    ensures
        lists_exactly(ids, members.to_set()),
{
    members.unique_seq_to_set();
    ids.lemma_cardinality_of_set();
    vstd::seq_lib::seq_to_set_is_finite(ids);
    vstd::seq_lib::seq_to_set_is_finite(members);
    assert(members.to_set().subset_of(ids.to_set()));
    vstd::set_lib::lemma_len_subset(members.to_set(), ids.to_set());
    vstd::set_lib::lemma_subset_equality(members.to_set(), ids.to_set());
    ids.lemma_no_dup_set_cardinality();
}

/// Whether `ids` lists every member of `members` exactly once and nothing
/// else.
pub fn same_members(ids: &Vec<u128>, members: &Vec<u128>) -> (same: bool)
    requires
        members@.no_duplicates(),
    ensures
        same == lists_exactly(ids@, members@.to_set()),
{
    if ids.len() != members.len() {
        proof {
            if lists_exactly(ids@, members@.to_set()) {
                ids@.unique_seq_to_set();
                members@.unique_seq_to_set();
            }
        }
        return false;
    }
    let mut index: usize = 0;
    while index < members.len()
        invariant
            index <= members.len(),
            forall|i: int| 0 <= i < index ==> ids@.contains(#[trigger] members@[i]),
        decreases members.len() - index,
    {
        if !contains_id(ids, members[index]) {
            assert(members@.to_set().contains(members@[index as int]));
            assert(!ids@.to_set().contains(members@[index as int]));
            return false;
        }
        index += 1;
    }
    proof {
        lemma_same_length_cover(ids@, members@);
    }
    true
}

/// An ascending list names nothing twice, and stays ascending exactly under
/// additions that are greater than its last element.
pub proof fn law_ascending_lists_grow_at_the_end(ids: Seq<u128>, next: u128)
    ensures
        ascending(ids) ==> ids.no_duplicates(),
        ascending(Seq::<u128>::empty()),
        ascending(ids.push(next)) <==> ascending(ids) && (ids.len() > 0 ==> ids.last() < next),
{
    let longer = ids.push(next);
    if ascending(longer) {
        assert forall|i: int, j: int| 0 <= i < j < ids.len() implies ids[i] < ids[j] by {
            assert(longer[i] < longer[j]);
        }
        if ids.len() > 0 {
            assert(longer[ids.len() - 1] < longer[ids.len() as int]);
        }
    }
    if ascending(ids) && (ids.len() > 0 ==> ids.last() < next) {
        assert forall|i: int, j: int| 0 <= i < j < longer.len() implies longer[i] < longer[j] by {
            if j == ids.len() && i < ids.len() - 1 {
                assert(ids[i] < ids[ids.len() - 1]);
            }
        }
    }
}

/// A list names a set exactly if it holds what the set holds and nothing twice;
/// it is then as long as the set is large.
pub proof fn law_exact_lists_hold_every_member_once(ids: Seq<u128>, members: Set<u128>)
    ensures
        lists_exactly(ids, members) <==> (ids.no_duplicates() && forall|id: u128|
            members.contains(id) <==> #[trigger] ids.contains(id)),
        lists_exactly(ids, members) ==> ids.len() == members.len(),
{
    if lists_exactly(ids, members) {
        ids.unique_seq_to_set();
        assert forall|id: u128| members.contains(id) <==> #[trigger] ids.contains(id) by {
            assert(ids.to_set().contains(id) <==> ids.contains(id));
        }
    }
    if ids.no_duplicates() && forall|id: u128|
        members.contains(id) <==> #[trigger] ids.contains(id) {
        assert forall|id: u128| ids.to_set().contains(id) <==> members.contains(id) by {
            assert(ids.to_set().contains(id) <==> ids.contains(id));
        }
        assert(ids.to_set() =~= members);
    }
}

} // verus!
