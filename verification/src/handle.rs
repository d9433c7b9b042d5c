//! Overlay handles: a slot number in the low half, a version in the high half.
use vstd::prelude::*;

verus! {

/// The number of the slot that a handle points at.
pub open spec fn slot_index(handle: u64) -> int {
    handle as int % 0x1_0000_0000
}

/// The version of the slot's content that a handle asks for.
///
/// The lowest bit of the version says that a slot is occupied. A handle always
/// asks for an occupied slot, whatever that bit of the handle holds.
pub open spec fn slot_version(handle: u64) -> int {
    let version = handle as int / 0x1_0000_0000;
    if version % 2 == 0 {
        version + 1
    } else {
        version
    }
}

/// The handle of the given slot in the given version.
pub open spec fn make_handle(index: int, version: int) -> u64 {
    (version * 0x1_0000_0000 + index) as u64
}

/// The form in which a handle is given out: the one whose version is odd.
pub open spec fn canonical(handle: u64) -> u64 {
    make_handle(slot_index(handle), slot_version(handle))
}

/// The handles of the occupied slots, in the order of the slots, where
/// `versions` holds the version of each slot.
pub open spec fn live_handles(versions: Seq<u32>) -> Seq<u64>
    decreases versions.len(),
{
    if versions.len() == 0 {
        Seq::empty()
    } else {
        let before = live_handles(versions.drop_last());
        if versions.last() % 2 == 1 {
            before.push(make_handle(versions.len() - 1, versions.last() as int))
        } else {
            before
        }
    }
}

/// The parts of a handle that was put together from a slot number and an odd
/// version are that number and that version.
pub proof fn lemma_handle_parts(index: int, version: int)
    requires
        0 <= index < 0x1_0000_0000,
        0 <= version < 0x1_0000_0000,
        version % 2 == 1,
    ensures
        slot_index(make_handle(index, version)) == index,
        slot_version(make_handle(index, version)) == version,
        canonical(make_handle(index, version)) == make_handle(index, version),
{
}

/// The parts of a handle lie in the range of a half of it, and its canonical
/// form has the same parts.
pub proof fn lemma_canonical(handle: u64)
    ensures
        0 <= slot_index(handle) < 0x1_0000_0000,
        0 < slot_version(handle) < 0x1_0000_0000,
        slot_version(handle) % 2 == 1,
        slot_index(canonical(handle)) == slot_index(handle),
        slot_version(canonical(handle)) == slot_version(handle),
        canonical(canonical(handle)) == canonical(handle),
{
    lemma_handle_parts(slot_index(handle), slot_version(handle));
}

/// The listed handles are exactly those of the occupied slots, in ascending
/// order of the slots.
pub proof fn lemma_live_handles(versions: Seq<u32>)
    requires
        versions.len() <= 0x1_0000_0000,
    ensures
        forall|j: int|
            0 <= j < live_handles(versions).len() ==> {
                let h = #[trigger] live_handles(versions)[j];
                &&& 0 <= slot_index(h) < versions.len()
                &&& versions[slot_index(h)] == slot_version(h)
                &&& canonical(h) == h
            },
        forall|j: int, k: int|
            0 <= j < k < live_handles(versions).len() ==> slot_index(
                #[trigger] live_handles(versions)[j],
            ) < slot_index(#[trigger] live_handles(versions)[k]),
        forall|i: int|
            0 <= i < versions.len() && #[trigger] versions[i] % 2 == 1
                ==> live_handles(versions).contains(make_handle(i, versions[i] as int)),
        live_handles(versions).len() <= versions.len(),
    decreases versions.len(),
{
    if versions.len() > 0 {
        let shorter = versions.drop_last();
        let last = versions.len() - 1;
        lemma_live_handles(shorter);
        let before = live_handles(shorter);
        let all = live_handles(versions);
        if versions.last() % 2 == 1 {
            lemma_handle_parts(last, versions.last() as int);
        }
        assert forall|j: int| 0 <= j < all.len() implies {
            let h = #[trigger] all[j];
            &&& 0 <= slot_index(h) < versions.len()
            &&& versions[slot_index(h)] == slot_version(h)
            &&& canonical(h) == h
        } by {
            if j < before.len() {
                assert(all[j] == before[j]);
            }
        }
        assert forall|j: int, k: int| 0 <= j < k < all.len() implies slot_index(#[trigger] all[j])
            < slot_index(#[trigger] all[k]) by {
            assert(all[j] == before[j]);
            if k < before.len() {
                assert(all[k] == before[k]);
            }
        }
        assert forall|i: int| 0 <= i < versions.len() && #[trigger] versions[i] % 2
            == 1 implies all.contains(make_handle(i, versions[i] as int)) by {
            if i < last {
                assert(shorter[i] == versions[i]);
                let j = choose|j: int|
                    0 <= j < before.len() && before[j] == make_handle(i, versions[i] as int);
                assert(all[j] == before[j]);
            } else {
                assert(all[all.len() - 1] == make_handle(i, versions[i] as int));
            }
        }
    }
}

/// Replacing the version of one slot changes the number of occupied slots by the
/// difference that the replacement makes at that slot.
pub proof fn lemma_live_count_update(versions: Seq<u32>, index: int, version: u32)
    requires
        0 <= index < versions.len(),
    ensures
        live_handles(versions.update(index, version)).len() + versions[index] as int % 2
            == live_handles(versions).len() + version as int % 2,
    decreases versions.len(),
{
    let updated = versions.update(index, version);
    if index == versions.len() - 1 {
        assert(updated.drop_last() =~= versions.drop_last());
    } else {
        assert(updated.drop_last() =~= versions.drop_last().update(index, version));
        lemma_live_count_update(versions.drop_last(), index, version);
    }
}

} // verus!
