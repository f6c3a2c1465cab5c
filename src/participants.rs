use vstd::prelude::*;

use crate::block::{coins_view, Participant};
use crate::bytes::{bytes_eq, digest_eq};
use crate::validator::ValidatorState;

verus! {

/// Whether two participants hold the same key and the same coin public inputs.
pub open spec fn same_participant(a: Participant, b: Participant) -> bool {
    a.public_key@ == b.public_key@ && coins_view(a.coins@) == coins_view(b.coins@)
}

/// Whether key `a` precedes key `b`: at the first byte where they differ, `a`'s is lower.
pub open spec fn key_lt(a: Seq<u8>, b: Seq<u8>) -> bool {
    exists|k: int| 0 <= k < a.len() && k < b.len() && a[k] < b[k] && forall|j: int| 0 <= j < k ==> #[trigger] a[j] == b[j]
}

/// Index of the first participant of `ps` with key `key`, if any.
pub open spec fn key_index(ps: Seq<Participant>, key: Seq<u8>, i: int) -> bool {
    &&& 0 <= i < ps.len()
    &&& ps[i].public_key@ == key
    &&& forall|j: int| 0 <= j < i ==> (#[trigger] ps[j]).public_key@ != key
}

/// Whether `key` precedes the key at `pos` but none before it: the place it is
/// inserted at.
pub open spec fn insert_position(ps: Seq<Participant>, key: Seq<u8>, pos: int) -> bool {
    &&& 0 <= pos <= ps.len()
    &&& forall|j: int| 0 <= j < pos ==> key_lt((#[trigger] ps[j]).public_key@, key)
    &&& pos < ps.len() ==> !key_lt(ps[pos].public_key@, key)
}

fn key_less(a: &[u8; 32], b: &[u8; 32]) -> (r: bool)
    ensures
        r == key_lt(a@, b@),
{
    let mut i: usize = 0;
    while i < 32
        invariant
            i <= 32,
            forall|j: int| 0 <= j < i ==> #[trigger] a@[j] == b@[j],
        decreases 32 - i,
    {
        if a[i] != b[i] {
            if a[i] < b[i] {
                return true;
            }
            assert forall|k: int| 0 <= k < 32 && a@[k] < b@[k] implies !(forall|j: int| 0 <= j < k ==> #[trigger] a@[j] == b@[j]) by {
                if k > i {
                    assert(a@[i as int] != b@[i as int]);
                }
            }
            return false;
        }
        i = i + 1;
    }
    false
}

fn row_eq(a: &Vec<Vec<u8>>, b: &Vec<Vec<u8>>) -> (r: bool)
    ensures
        r == (a@.map_values(|x: Vec<u8>| x@) == b@.map_values(|x: Vec<u8>| x@)),
{
    if a.len() != b.len() {
        assert(a@.map_values(|x: Vec<u8>| x@).len() != b@.map_values(|x: Vec<u8>| x@).len());
        return false;
    }
    let mut i: usize = 0;
    while i < a.len()
        invariant
            a@.len() == b@.len(),
            i <= a@.len(),
            forall|j: int| 0 <= j < i ==> (#[trigger] a@[j])@ == b@[j]@,
        decreases a@.len() - i,
    {
        if !bytes_eq(a[i].as_slice(), b[i].as_slice()) {
            assert(a@.map_values(|x: Vec<u8>| x@)[i as int] != b@.map_values(|x: Vec<u8>| x@)[i as int]);
            return false;
        }
        i = i + 1;
    }
    assert(a@.map_values(|x: Vec<u8>| x@) =~= b@.map_values(|x: Vec<u8>| x@));
    true
}

/// Whether two participants hold the same key and coin public inputs.
pub fn participant_eq(a: &Participant, b: &Participant) -> (r: bool)
    ensures
        r == same_participant(*a, *b),
{
    if !digest_eq(&a.public_key, &b.public_key) {
        return false;
    }
    if a.coins.len() != b.coins.len() {
        assert(coins_view(a.coins@).len() != coins_view(b.coins@).len());
        return false;
    }
    let mut i: usize = 0;
    while i < a.coins.len()
        invariant
            a.coins@.len() == b.coins@.len(),
            i <= a.coins@.len(),
            forall|j: int| 0 <= j < i ==> #[trigger] coins_view(a.coins@)[j] == coins_view(b.coins@)[j],
        decreases a.coins@.len() - i,
    {
        if !row_eq(&a.coins[i], &b.coins[i]) {
            assert(coins_view(a.coins@)[i as int] != coins_view(b.coins@)[i as int]);
            return false;
        }
        i = i + 1;
    }
    assert(coins_view(a.coins@) =~= coins_view(b.coins@));
    true
}

/// Records `participant` in `ps_vec`, kept ordered by key.
fn record_participant(ps_vec: &mut Vec<Participant>, participant: Participant) -> (r: bool)
    ensures
        ({
            let ps = old(ps_vec)@;
            let key = participant.public_key@;
            if exists|i: int| key_index(ps, key, i) && same_participant(ps[i], participant) {
                !r && final(ps_vec)@ == ps
            } else if exists|i: int| key_index(ps, key, i) {
                r && forall|i: int| key_index(ps, key, i) ==> final(ps_vec)@ == ps.update(i, participant)
            } else {
                r && exists|pos: int| insert_position(ps, key, pos) && final(ps_vec)@ == ps.insert(pos, participant)
            }
        }),
{
    let ghost ps = ps_vec@;
    let ghost key = participant.public_key@;
    let mut i: usize = 0;
    while i < ps_vec.len()
        invariant
            ps == ps_vec@,
            ps == old(ps_vec)@,
            key == participant.public_key@,
            i <= ps.len(),
            forall|j: int| 0 <= j < i ==> (#[trigger] ps[j]).public_key@ != key,
        decreases ps.len() - i,
    {
        if digest_eq(&ps_vec[i].public_key, &participant.public_key) {
            assert(key_index(ps, key, i as int));
            assert forall|m: int| key_index(ps, key, m) implies m == i by {
                if m < i {
                    assert(ps[m].public_key@ != key);
                } else if m > i {
                    assert(ps[i as int].public_key@ == key);
                }
            }
            if participant_eq(&ps_vec[i], &participant) {
                return false;
            }
            assert(!exists|m: int| key_index(ps, key, m) && same_participant(ps[m], participant));
            ps_vec.set(i, participant);
            return true;
        }
        i = i + 1;
    }
    assert(forall|m: int| !key_index(ps, key, m));
    let mut pos: usize = 0;
    let mut found = false;
    while pos < ps_vec.len() && !found
        invariant
            found ==> pos < ps.len() && !key_lt(ps[pos as int].public_key@, key),
            ps == ps_vec@,
            ps == old(ps_vec)@,
            key == participant.public_key@,
            pos <= ps.len(),
            forall|j: int| 0 <= j < pos ==> key_lt((#[trigger] ps[j]).public_key@, key),
        decreases ps.len() - pos + (if found { 0int } else { 1int }),
    {
        if key_less(&ps_vec[pos].public_key, &participant.public_key) {
            pos = pos + 1;
        } else {
            found = true;
        }
    }
    assert(insert_position(ps, key, pos as int));
    ps_vec.insert(pos, participant);
    true
}

impl ValidatorState {
    /// Records a participant, keeping the list ordered by key: a participant with the same
    /// key is replaced, otherwise the new one is inserted before the first key it
    /// precedes. Returns false, changing nothing, when an identical record is already held.
    pub fn append_participant(&mut self, participant: Participant) -> (r: bool)
        ensures
            final(self).consensus.proposals == old(self).consensus.proposals,
            final(self).blockchain == old(self).blockchain,
            final(self).unconfirmed_txs == old(self).unconfirmed_txs,
            final(self).participating == old(self).participating,
            final(self).public_key == old(self).public_key,
            final(self).consensus.coins == old(self).consensus.coins,
            final(self).consensus.epoch == old(self).consensus.epoch,
            final(self).consensus.epoch_eta == old(self).consensus.epoch_eta,
            final(self).consensus.genesis_block == old(self).consensus.genesis_block,
            final(self).consensus.genesis_ts == old(self).consensus.genesis_ts,
            final(self).consensus.refreshed == old(self).consensus.refreshed,
            ({
                let ps = old(self).consensus.participants@;
                let key = participant.public_key@;
                if exists|i: int| key_index(ps, key, i) && same_participant(ps[i], participant) {
                    !r && final(self).consensus.participants@ == ps
                } else if exists|i: int| key_index(ps, key, i) {
                    r && forall|i: int| key_index(ps, key, i) ==> final(self).consensus.participants@ == ps.update(i, participant)
                } else {
                    r && exists|pos: int| insert_position(ps, key, pos) && final(self).consensus.participants@ == ps.insert(pos, participant)
                }
            }),
    {
        record_participant(&mut self.consensus.participants, participant)
    }
}

} // verus!
