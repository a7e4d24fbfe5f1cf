//! The "most recent N" listing: every key that the backend holds is read,
//! the keys are ranked from the latest write to the earliest, and the first N
//! are written out again.
//!
//! Nothing is filtered out. A key whose time cannot be read counts as written
//! at the greatest time there is and so comes first; keys of one time come in
//! the reverse of the order in which the backend listed them.

use vstd::prelude::*;
use vstd::seq_lib::*;
use crate::key::{decode, decode_key, encode, encode_key, law_decode_composite_key, KeyParts, KeyPartsView};

verus! {

/// Where an entry of time `epoch` goes in a ranking: behind the leading
/// entries that are later than it.
pub open spec fn slot(ranking: Seq<KeyPartsView>, epoch: u64) -> int
    decreases ranking.len(),
{
    if ranking.len() == 0 || ranking[0].epoch <= epoch {
        0
    } else {
        1 + slot(ranking.drop_first(), epoch)
    }
}

/// The ranking of the listed entries. Each entry in turn goes behind the
/// entries that are later than it and ahead of all others, those of its own
/// time included.
pub open spec fn ranked(listed: Seq<KeyPartsView>) -> Seq<KeyPartsView>
    decreases listed.len(),
{
    if listed.len() == 0 {
        Seq::empty()
    } else {
        let before = ranked(listed.drop_last());
        before.insert(slot(before, listed.last().epoch), listed.last())
    }
}

/// Each listed key, read.
pub open spec fn decode_all(keys: Seq<Seq<char>>) -> Seq<KeyPartsView> {
    keys.map_values(|key: Seq<char>| decode(key))
}

/// Each entry, written as a key.
pub open spec fn encode_all(entries: Seq<KeyPartsView>) -> Seq<Seq<char>> {
    entries.map_values(|parts: KeyPartsView| encode(parts))
}

/// How many keys a listing of at most `amount` shows when `held` are held.
pub open spec fn shown(held: nat, amount: nat) -> nat {
    if amount < held {
        amount
    } else {
        held
    }
}

/// The listing: the first `amount` of the ranked keys, or all where there
/// are fewer.
pub open spec fn latest_of(keys: Seq<Seq<char>>, amount: nat) -> Seq<Seq<char>> {
    let ranking = ranked(decode_all(keys));
    encode_all(ranking.take(shown(ranking.len(), amount) as int))
}

/// The views of the entries of a vector.
pub open spec fn views(entries: Seq<KeyParts>) -> Seq<KeyPartsView> {
    entries.map_values(|parts: KeyParts| parts@)
}

/// Whether no entry is earlier than one that stands behind it.
pub open spec fn descending(ranking: Seq<KeyPartsView>) -> bool {
    forall|a: int, b: int|
        0 <= a < b < ranking.len() ==> (#[trigger] ranking[a]).epoch >= (
        #[trigger] ranking[b]).epoch
}

/// The slot lies within the ranking, behind entries that are all later than
/// `epoch`, and ahead of one that is not.
proof fn lemma_slot(ranking: Seq<KeyPartsView>, epoch: u64)
    ensures
        0 <= slot(ranking, epoch) <= ranking.len(),
        forall|k: int| 0 <= k < slot(ranking, epoch) ==> (#[trigger] ranking[k]).epoch > epoch,
        slot(ranking, epoch) < ranking.len() ==> ranking[slot(ranking, epoch)].epoch <= epoch,
    decreases ranking.len(),
{
    if !(ranking.len() == 0 || ranking[0].epoch <= epoch) {
        let rest = ranking.drop_first();
        lemma_slot(rest, epoch);
        assert forall|k: int| 0 <= k < slot(ranking, epoch) implies (#[trigger] ranking[k]).epoch
            > epoch by {
            if k > 0 {
                assert(ranking[k] == rest[k - 1]);
            }
        }
    }
}

/// A place behind entries that are all later than `epoch`, and ahead of one
/// that is not, is the slot.
proof fn lemma_slot_found(ranking: Seq<KeyPartsView>, epoch: u64, at: int)
    requires
        0 <= at <= ranking.len(),
        forall|k: int| 0 <= k < at ==> (#[trigger] ranking[k]).epoch > epoch,
        at < ranking.len() ==> ranking[at].epoch <= epoch,
    ensures
        slot(ranking, epoch) == at,
    decreases at,
{
    if at > 0 {
        let rest = ranking.drop_first();
        assert forall|k: int| 0 <= k < at - 1 implies (#[trigger] rest[k]).epoch > epoch by {
            assert(rest[k] == ranking[k + 1]);
        }
        lemma_slot_found(rest, epoch, at - 1);
    }
}

/// Ranking loses nothing and adds nothing: the ranking holds each listed
/// entry as often as it was listed.
pub proof fn law_ranked_keeps_every_entry(listed: Seq<KeyPartsView>)
    ensures
        ranked(listed).len() == listed.len(),
        ranked(listed).to_multiset() == listed.to_multiset(),
    decreases listed.len(),
{
    broadcast use {to_multiset_insert, to_multiset_build};

    if listed.len() == 0 {
        assert(ranked(listed) =~= listed);
    } else {
        let before = ranked(listed.drop_last());
        law_ranked_keeps_every_entry(listed.drop_last());
        lemma_slot(before, listed.last().epoch);
        assert(listed =~= listed.drop_last().push(listed.last()));
    }
}

/// A ranking runs from the latest write to the earliest.
pub proof fn law_ranked_descending(listed: Seq<KeyPartsView>)
    ensures
        descending(ranked(listed)),
    decreases listed.len(),
{
    if listed.len() > 0 {
        let before = ranked(listed.drop_last());
        let last = listed.last();
        let at = slot(before, last.epoch);
        let after = before.insert(at, last);
        law_ranked_descending(listed.drop_last());
        lemma_slot(before, last.epoch);
        before.insert_ensures(at, last);
        assert forall|a: int, b: int| 0 <= a < b < after.len() implies (#[trigger] after[a]).epoch
            >= (#[trigger] after[b]).epoch by {
            if at < a {
                assert(after[a] == before[a - 1] && after[b] == before[b - 1]);
            } else if at < b {
                assert(after[b] == before[b - 1]);
            }
        }
    }
}

/// A listing shows `amount` keys, or all that are held where there are
/// fewer, and runs from the latest write to the earliest.
pub proof fn law_latest_descending(keys: Seq<Seq<char>>, amount: nat)
    ensures
        latest_of(keys, amount).len() == shown(keys.len(), amount),
        descending(decode_all(latest_of(keys, amount))),
{
    let ranking = ranked(decode_all(keys));
    let latest = latest_of(keys, amount);
    law_ranked_keeps_every_entry(decode_all(keys));
    law_ranked_descending(decode_all(keys));
    assert forall|a: int| 0 <= a < latest.len() implies #[trigger] decode_all(latest)[a]
        == ranking[a] by {
        law_decode_composite_key(ranking[a].epoch, ranking[a].id);
    }
    assert forall|a: int, b: int| 0 <= a < b < latest.len() implies (#[trigger] decode_all(
        latest,
    )[a]).epoch >= (#[trigger] decode_all(latest)[b]).epoch by {
        assert(ranking[a].epoch >= ranking[b].epoch);
    }
}

/// Keys whose time cannot be read are kept and shown first: in a listing,
/// a key that stands ahead of one ranked at the greatest time is ranked at
/// the greatest time too, so no key of an earlier time comes before it. And
/// a listing that is asked for as many keys as are held shows each of them,
/// as often as it was listed, in the form that its reading writes back.
pub proof fn law_unreadable_keys_come_first(keys: Seq<Seq<char>>, amount: nat)
    ensures
        forall|a: int, b: int|
            0 <= a < b < latest_of(keys, amount).len() && decode(
                #[trigger] latest_of(keys, amount)[b],
            ).epoch == u64::MAX ==> decode(#[trigger] latest_of(keys, amount)[a]).epoch
                == u64::MAX,
        amount >= keys.len() ==> latest_of(keys, amount).to_multiset() == encode_all(
            decode_all(keys),
        ).to_multiset(),
{
    let latest = latest_of(keys, amount);
    law_latest_descending(keys, amount);
    assert forall|a: int, b: int|
        0 <= a < b < latest.len() && decode(#[trigger] latest[b]).epoch == u64::MAX implies decode(
        #[trigger] latest[a],
    ).epoch == u64::MAX by {
        assert(decode_all(latest)[a].epoch >= decode_all(latest)[b].epoch);
    }
    if amount >= keys.len() {
        let listed = decode_all(keys);
        let ranking = ranked(listed);
        law_ranked_keeps_every_entry(listed);
        assert(ranking.take(ranking.len() as int) =~= ranking);
        lemma_encode_all_multiset(ranking, listed);
    }
}

/// Entries that are the same up to their order are written as keys that are
/// the same up to their order.
proof fn lemma_encode_all_multiset(left: Seq<KeyPartsView>, right: Seq<KeyPartsView>)
    requires
        left.to_multiset() == right.to_multiset(),
    ensures
        encode_all(left).to_multiset() == encode_all(right).to_multiset(),
    decreases left.len(),
{
    broadcast use group_to_multiset_ensures;

    left.to_multiset_ensures();
    right.to_multiset_ensures();
    if left.len() > 0 {
        let x = left.last();
        assert(right.to_multiset().count(x) > 0);
        let i = choose|i: int| 0 <= i < right.len() && right[i] == x;
        let left_rest = left.drop_last();
        let right_rest = right.remove(i);
        assert(left =~= left_rest.push(x));
        assert(left_rest.to_multiset() =~= left.to_multiset().remove(x));
        lemma_encode_all_multiset(left_rest, right_rest);
        assert(encode_all(left) =~= encode_all(left_rest).push(encode(x)));
        assert(encode_all(right_rest) =~= encode_all(right).remove(i));
        assert(encode_all(right).to_multiset() =~= encode_all(right_rest).to_multiset().insert(
            encode(x),
        )) by {
            encode_all(right).to_multiset_ensures();
        }
    }
}

/// Where the entry that was listed at `i` stands in the ranking.
pub open spec fn place(listed: Seq<KeyPartsView>, i: int) -> int
    recommends
        0 <= i < listed.len(),
    decreases listed.len(),
{
    if listed.len() == 0 {
        0
    } else {
        let at = slot(ranked(listed.drop_last()), listed.last().epoch);
        if i >= listed.len() - 1 {
            at
        } else if place(listed.drop_last(), i) < at {
            place(listed.drop_last(), i)
        } else {
            place(listed.drop_last(), i) + 1
        }
    }
}

/// Each listed entry stands at its place in the ranking.
pub proof fn law_entry_stands_at_its_place(listed: Seq<KeyPartsView>, i: int)
    requires
        0 <= i < listed.len(),
    ensures
        0 <= place(listed, i) < listed.len(),
        ranked(listed)[place(listed, i)] == listed[i],
    decreases listed.len(),
{
    let rest = listed.drop_last();
    let before = ranked(rest);
    let at = slot(before, listed.last().epoch);
    law_ranked_keeps_every_entry(rest);
    lemma_slot(before, listed.last().epoch);
    before.insert_ensures(at, listed.last());
    if i < listed.len() - 1 {
        law_entry_stands_at_its_place(rest, i);
    }
}

/// What decides the order of a ranking. Of two listed entries, the one of
/// the later time stands first; of two entries of one time, the one that
/// was listed later stands first. So the ranking is what sorting the listed
/// entries by their time, those of one time left in their order, and then
/// reversing the whole gives.
pub proof fn law_ranking_order(listed: Seq<KeyPartsView>, i: int, j: int)
    requires
        0 <= i < j < listed.len(),
    ensures
        listed[i].epoch > listed[j].epoch ==> place(listed, i) < place(listed, j),
        listed[i].epoch <= listed[j].epoch ==> place(listed, j) < place(listed, i),
    decreases listed.len(),
{
    let rest = listed.drop_last();
    let before = ranked(rest);
    let at = slot(before, listed.last().epoch);
    law_ranked_keeps_every_entry(rest);
    law_ranked_descending(rest);
    lemma_slot(before, listed.last().epoch);
    law_entry_stands_at_its_place(rest, i);
    if j < listed.len() - 1 {
        law_ranking_order(rest, i, j);
    } else if listed[i].epoch > listed[j].epoch && place(rest, i) > at {
        assert(before[at].epoch >= before[place(rest, i)].epoch);
    }
}

/// Whether each entry is later than all that stand behind it.
pub open spec fn strictly_descending(ranking: Seq<KeyPartsView>) -> bool {
    forall|a: int, b: int|
        0 <= a < b < ranking.len() ==> (#[trigger] ranking[a]).epoch > (
        #[trigger] ranking[b]).epoch
}

/// No two of the listed entries are of one time.
pub open spec fn distinct_epochs(listed: Seq<KeyPartsView>) -> bool {
    forall|i: int, j: int|
        0 <= i < j < listed.len() ==> (#[trigger] listed[i]).epoch != (#[trigger] listed[j]).epoch
}

/// No key is listed twice, and no two of the listed keys are read as one
/// time.
pub open spec fn distinct_times(keys: Seq<Seq<char>>) -> bool {
    &&& keys.no_duplicates()
    &&& forall|one: Seq<char>, other: Seq<char>|
        keys.contains(one) && keys.contains(other) && one != other ==> decode(one).epoch
            != decode(other).epoch
}

/// Where no two entries are of one time, each entry of the ranking is
/// later than the next.
proof fn lemma_ranked_strictly_descending(listed: Seq<KeyPartsView>)
    requires
        distinct_epochs(listed),
    ensures
        strictly_descending(ranked(listed)),
    decreases listed.len(),
{
    broadcast use to_multiset_contains;

    if listed.len() > 0 {
        let rest = listed.drop_last();
        let before = ranked(rest);
        let last = listed.last();
        let at = slot(before, last.epoch);
        let after = before.insert(at, last);
        assert forall|i: int, j: int| 0 <= i < j < rest.len() implies (#[trigger] rest[i]).epoch != (
        #[trigger] rest[j]).epoch by {
            assert(rest[i] == listed[i] && rest[j] == listed[j]);
        }
        lemma_ranked_strictly_descending(rest);
        law_ranked_keeps_every_entry(rest);
        lemma_slot(before, last.epoch);
        before.insert_ensures(at, last);
        assert forall|k: int| 0 <= k < before.len() implies (#[trigger] before[k]).epoch
            != last.epoch by {
            assert(rest.to_multiset().count(before[k]) > 0);
            let i = choose|i: int| 0 <= i < rest.len() && rest[i] == before[k];
            assert(listed[i] == before[k]);
        }
        assert forall|a: int, b: int| 0 <= a < b < after.len() implies (#[trigger] after[a]).epoch
            > (#[trigger] after[b]).epoch by {
            if at < a {
                assert(after[a] == before[a - 1] && after[b] == before[b - 1]);
            } else if at < b {
                assert(after[b] == before[b - 1]);
            }
        }
    }
}

/// Two rankings that hold the same entries, each later than the next, are
/// one ranking.
proof fn lemma_strictly_descending_is_unique(left: Seq<KeyPartsView>, right: Seq<KeyPartsView>)
    requires
        strictly_descending(left),
        strictly_descending(right),
        forall|entry: KeyPartsView| left.contains(entry) <==> right.contains(entry),
    ensures
        left == right,
    decreases left.len(),
{
    if left.len() == 0 {
        if right.len() > 0 {
            assert(right.contains(right[0]));
        }
    } else {
        assert(left.contains(left[0]));
        assert(right.contains(right[0]));
        assert(left[0] == right[0]);
        let left_rest = left.drop_first();
        let right_rest = right.drop_first();
        assert forall|entry: KeyPartsView| left_rest.contains(entry) <==> right_rest.contains(
            entry,
        ) by {
            if left_rest.contains(entry) {
                let k = choose|k: int| 0 <= k < left_rest.len() && left_rest[k] == entry;
                assert(left[k + 1] == entry && left[0].epoch > left[k + 1].epoch);
                assert(left.contains(entry));
                let m = choose|m: int| 0 <= m < right.len() && right[m] == entry;
                assert(right_rest[m - 1] == entry);
            }
            if right_rest.contains(entry) {
                let k = choose|k: int| 0 <= k < right_rest.len() && right_rest[k] == entry;
                assert(right[k + 1] == entry && right[0].epoch > right[k + 1].epoch);
                assert(right.contains(entry));
                let m = choose|m: int| 0 <= m < left.len() && left[m] == entry;
                assert(left_rest[m - 1] == entry);
            }
        }
        assert forall|a: int, b: int| 0 <= a < b < left_rest.len() implies (
        #[trigger] left_rest[a]).epoch > (#[trigger] left_rest[b]).epoch by {
            assert(left[a + 1].epoch > left[b + 1].epoch);
        }
        assert forall|a: int, b: int| 0 <= a < b < right_rest.len() implies (
        #[trigger] right_rest[a]).epoch > (#[trigger] right_rest[b]).epoch by {
            assert(right[a + 1].epoch > right[b + 1].epoch);
        }
        lemma_strictly_descending_is_unique(left_rest, right_rest);
        assert(left =~= seq![left[0]] + left_rest);
    }
}

/// Keys that are listed as `keys`, read: no two of one time.
proof fn lemma_distinct_times_read(keys: Seq<Seq<char>>)
    requires
        distinct_times(keys),
    ensures
        distinct_epochs(decode_all(keys)),
{
    let listed = decode_all(keys);
    assert forall|i: int, j: int| 0 <= i < j < listed.len() implies (#[trigger] listed[i]).epoch != (
    #[trigger] listed[j]).epoch by {
        assert(keys.contains(keys[i]) && keys.contains(keys[j]));
    }
}

/// A listing can be repeated: while the backend holds the same keys, no two
/// of them read as one time, the listing comes out the same, in whatever
/// order the backend lists its keys.
pub proof fn law_listing_is_repeatable(first: Seq<Seq<char>>, second: Seq<Seq<char>>, amount: nat)
    requires
        distinct_times(first),
        second.no_duplicates(),
        forall|key: Seq<char>| first.contains(key) <==> second.contains(key),
    ensures
        latest_of(first, amount) == latest_of(second, amount),
{
    broadcast use to_multiset_contains;

    let left = decode_all(first);
    let right = decode_all(second);
    lemma_distinct_times_read(first);
    lemma_distinct_times_read(second);
    lemma_ranked_strictly_descending(left);
    lemma_ranked_strictly_descending(right);
    law_ranked_keeps_every_entry(left);
    law_ranked_keeps_every_entry(right);
    assert forall|entry: KeyPartsView| ranked(left).contains(entry) <==> ranked(right).contains(
        entry,
    ) by {
        assert(ranked(left).contains(entry) <==> left.to_multiset().count(entry) > 0);
        assert(ranked(right).contains(entry) <==> right.to_multiset().count(entry) > 0);
        if left.contains(entry) {
            let i = choose|i: int| 0 <= i < left.len() && left[i] == entry;
            assert(first.contains(first[i]));
            let j = choose|j: int| 0 <= j < second.len() && second[j] == first[i];
            assert(right[j] == entry);
        }
        if right.contains(entry) {
            let i = choose|i: int| 0 <= i < right.len() && right[i] == entry;
            assert(second.contains(second[i]));
            let j = choose|j: int| 0 <= j < first.len() && first[j] == second[i];
            assert(left[j] == entry);
        }
    }
    lemma_strictly_descending_is_unique(ranked(left), ranked(right));
}

/// Finds the slot of an entry of time `epoch` in a ranking.
fn find_slot(ranking: &Vec<KeyParts>, epoch: u64) -> (at: usize)
    ensures
        at == slot(views(ranking@), epoch),
        at <= ranking.len(),
{
    let mut at: usize = 0;
    while at < ranking.len() && ranking[at].epoch > epoch
        invariant
            at <= ranking.len(),
            forall|k: int| 0 <= k < at ==> (#[trigger] views(ranking@)[k]).epoch > epoch,
        decreases ranking.len() - at,
    {
        at = at + 1;
    }
    proof {
        lemma_slot_found(views(ranking@), epoch, at as int);
    }
    at
}

/// Reads the listed keys and ranks them, keeping the first `amount` of the
/// ranking and no more.
fn rank_keys(keys: &Vec<String>, amount: usize) -> (top: Vec<KeyParts>)
    ensures
        views(top@) == ranked(decode_all(keys.deep_view())).take(
            shown(keys.len() as nat, amount as nat) as int,
        ),
{
    let ghost listed = decode_all(keys.deep_view());
    let mut top: Vec<KeyParts> = Vec::new();
    let mut i: usize = 0;
    while i < keys.len()
        invariant
            i <= keys.len(),
            listed == decode_all(keys.deep_view()),
            listed.len() == keys.len(),
            views(top@) == ranked(listed.take(i as int)).take(
                shown(i as nat, amount as nat) as int,
            ),
        decreases keys.len() - i,
    {
        let parts = decode_key(keys[i].as_str());
        let at = find_slot(&top, parts.epoch);
        let ghost kept = top@;
        let ghost full = ranked(listed.take(i as int));
        let ghost count = shown(i as nat, amount as nat) as int;
        let ghost whole = slot(full, parts.epoch);
        let ghost next = full.insert(whole, parts@);
        proof {
            assert(listed.take(i + 1).drop_last() =~= listed.take(i as int));
            law_ranked_keeps_every_entry(listed.take(i as int));
            lemma_slot(full, parts.epoch);
            lemma_slot_found(
                full.take(count),
                parts.epoch,
                if whole < count {
                    whole
                } else {
                    count
                },
            );
        }
        if at < amount {
            top.insert(at, parts);
            proof {
                assert(views(top@) =~= views(kept).insert(at as int, parts@));
                assert(views(top@) =~= next.take(count + 1));
            }
            if top.len() > amount {
                top.pop();
            }
        }
        proof {
            assert(views(top@) =~= next.take(shown((i + 1) as nat, amount as nat) as int));
        }
        i = i + 1;
    }
    proof {
        assert(listed.take(i as int) =~= listed);
    }
    top
}

/// Lists the latest `amount` of `keys`, or all of them where there are
/// fewer, from the latest write to the earliest. Every key is read,
/// whatever `amount` is; the work grows with the number of keys times
/// the number of keys shown.
pub fn latest_keys(keys: &Vec<String>, amount: usize) -> (latest: Vec<String>)
    ensures
        latest.deep_view() == latest_of(keys.deep_view(), amount as nat),
{
    let top = rank_keys(keys, amount);
    let ghost wanted = latest_of(keys.deep_view(), amount as nat);
    proof {
        law_ranked_keeps_every_entry(decode_all(keys.deep_view()));
    }
    let mut latest: Vec<String> = Vec::new();
    let mut i: usize = 0;
    while i < top.len()
        invariant
            i <= top.len(),
            wanted == encode_all(views(top@)),
            latest.len() == i,
            forall|k: int| 0 <= k < i ==> (#[trigger] latest[k])@ == wanted[k],
        decreases top.len() - i,
    {
        let key = encode_key(top[i].epoch, top[i].id.as_str());
        latest.push(key);
        i = i + 1;
    }
    latest
}

} // verus!
