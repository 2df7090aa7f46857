//! The touch contacts actually delivered to clients.
//!
//! A contact's recipient may differ from the surface under the finger: an
//! implicit or compositor-owned grab can redirect the down event. The table
//! keeps, for each touch slot, the contact that was delivered on it, including
//! contacts that predate the installation of a popup grab. Slots are
//! identities `K`; each seat keeps a table of its own.

use crate::identity::Identity;
use vstd::prelude::*;

verus! {

/// No two entries share a slot.
pub open spec fn distinct_slots<K, V>(s: Seq<(K, V)>) -> bool {
    forall|i: int, j: int| 0 <= i < s.len() && 0 <= j < s.len() && i != j ==> s[i].0 != s[j].0
}

/// Whether some entry has `slot`.
pub open spec fn has_slot<K, V>(s: Seq<(K, V)>, slot: K) -> bool {
    exists|i: int| 0 <= i < s.len() && #[trigger] s[i].0 == slot
}

/// The contact of the entry with `slot`.
pub open spec fn slot_contact<K, V>(s: Seq<(K, V)>, slot: K) -> V {
    s[choose|i: int| 0 <= i < s.len() && #[trigger] s[i].0 == slot].1
}

/// The entries read as a map from slot to contact.
pub open spec fn contacts_map<K, V>(s: Seq<(K, V)>) -> Map<K, V> {
    Map::new(|slot: K| has_slot(s, slot), |slot: K| slot_contact(s, slot))
}

/// The slots of the entries whose flag is set.
pub open spec fn flagged_slots<K, V>(s: Seq<(K, V)>, flags: Seq<bool>) -> Set<K> {
    Set::new(|slot: K| exists|i: int| 0 <= i < s.len() && flags[i] && #[trigger] s[i].0 == slot)
}

/// The entries whose flag is set, in their order.
pub open spec fn kept_entries<K, V>(s: Seq<(K, V)>, flags: Seq<bool>) -> Seq<(K, V)>
    decreases s.len(),
{
    if s.len() == 0 {
        Seq::empty()
    } else {
        kept_entries(s.drop_last(), flags.take(s.len() - 1)) + (if flags[s.len() - 1] {
            seq![s.last()]
        } else {
            Seq::empty()
        })
    }
}

/// The contacts of `m` whose contact satisfies `pred`.
pub open spec fn contacts_where<K, V>(m: Map<K, V>, pred: spec_fn(V) -> bool) -> Map<K, V> {
    m.restrict(m.dom().filter(|k: K| pred(m[k])))
}

proof fn lemma_contact_at<K, V>(s: Seq<(K, V)>, i: int)
    requires
        distinct_slots(s),
        0 <= i < s.len(),
    ensures
        contacts_map(s).dom().contains(s[i].0),
        contacts_map(s)[s[i].0] == s[i].1,
{
    assert(has_slot(s, s[i].0));
}

/// Contacts in flight, one per touch slot `K`.
pub struct TouchContacts<K, V> {
    entries: Vec<(K, V)>,
}

impl<K: Identity, V> TouchContacts<K, V> {
    /// The entries, one per slot.
    pub closed spec fn entries(&self) -> Seq<(K, V)> {
        self.entries@
    }

    /// No two entries share a slot.
    pub open spec fn wf(&self) -> bool {
        distinct_slots(self.entries())
    }

    /// The contact of each slot.
    pub open spec fn contacts(&self) -> Map<K, V> {
        contacts_map(self.entries())
    }

    /// A table with no contact.
    pub fn new() -> (r: Self)
        ensures
            r.wf(),
            r.entries() == Seq::<(K, V)>::empty(),
            r.contacts() == Map::<K, V>::empty(),
    {
        let r = TouchContacts { entries: Vec::new() };
        assert(r.contacts() =~= Map::<K, V>::empty());
        r
    }

    /// The number of contacts.
    pub fn len(&self) -> (r: usize)
        ensures
            r == self.entries().len(),
    {
        self.entries.len()
    }

    /// The `i`-th entry: a slot and its contact.
    pub fn entry(&self, i: usize) -> (r: &(K, V))
        requires
            i < self.entries().len(),
        ensures
            *r == self.entries()[i as int],
    {
        &self.entries[i]
    }

    /// The index of the entry with `slot`, if any.
    fn position(&self, slot: &K) -> (r: Option<usize>)
        ensures
            match r {
                Some(i) => i < self.entries@.len() && self.entries@[i as int].0 == *slot,
                None => !has_slot(self.entries@, *slot),
            },
    {
        let n = self.entries.len();
        let mut i: usize = 0;
        while i < n
            invariant
                n == self.entries@.len(),
                i <= n,
                forall|j: int| 0 <= j < i ==> self.entries@[j].0 != *slot,
            decreases n - i,
        {
            if self.entries[i].0.same_as(slot) {
                return Some(i);
            }
            i = i + 1;
        }
        None
    }

    /// Store `contact` as the contact of `slot`, replacing the one it had.
    pub fn insert(&mut self, slot: K, contact: V)
        requires
            old(self).wf(),
        ensures
            final(self).wf(),
            final(self).contacts() == old(self).contacts().insert(slot, contact),
    {
        let ghost before = self.entries@;
        match self.position(&slot) {
            Some(i) => {
                let _ = self.entries.remove(i);
                self.entries.insert(i, (slot, contact));
                let ghost after = self.entries@;
                assert(after =~= before.update(i as int, (slot, contact)));
                assert(distinct_slots(after));
                assert forall|k: K| #[trigger] has_slot(after, k) <==> (has_slot(before, k) || k == slot) by {
                    if has_slot(before, k) {
                        let j = choose|j: int| 0 <= j < before.len() && #[trigger] before[j].0 == k;
                        assert(after[j].0 == k);
                    }
                    if k == slot {
                        assert(after[i as int].0 == k);
                    }
                    if has_slot(after, k) {
                        let j = choose|j: int| 0 <= j < after.len() && #[trigger] after[j].0 == k;
                        assert(before[j].0 == k);
                    }
                }
                assert forall|k: K| #[trigger] has_slot(after, k) implies slot_contact(after, k)
                    == (if k == slot { contact } else { slot_contact(before, k) }) by {
                    let j = choose|j: int| 0 <= j < after.len() && #[trigger] after[j].0 == k;
                    lemma_contact_at(after, j);
                    if k != slot {
                        lemma_contact_at(before, j);
                    }
                }
                assert(self.contacts() =~= old(self).contacts().insert(slot, contact));
            },
            None => {
                self.entries.push((slot, contact));
                let ghost after = self.entries@;
                assert(after =~= before.push((slot, contact)));
                assert(distinct_slots(after));
                let ghost n = before.len() as int;
                assert forall|k: K| #[trigger] has_slot(after, k) <==> (has_slot(before, k) || k == slot) by {
                    if has_slot(before, k) {
                        let j = choose|j: int| 0 <= j < before.len() && #[trigger] before[j].0 == k;
                        assert(after[j].0 == k);
                    }
                    if k == slot {
                        assert(after[n].0 == k);
                    }
                    if has_slot(after, k) {
                        let j = choose|j: int| 0 <= j < after.len() && #[trigger] after[j].0 == k;
                        if j < n {
                            assert(before[j].0 == k);
                        }
                    }
                }
                assert forall|k: K| #[trigger] has_slot(after, k) implies slot_contact(after, k)
                    == (if k == slot { contact } else { slot_contact(before, k) }) by {
                    let j = choose|j: int| 0 <= j < after.len() && #[trigger] after[j].0 == k;
                    lemma_contact_at(after, j);
                    if k != slot {
                        lemma_contact_at(before, j);
                    }
                }
                assert(self.contacts() =~= old(self).contacts().insert(slot, contact));
            },
        }
    }

    /// Remove the contact of `slot`, returning it if there was one.
    pub fn remove(&mut self, slot: &K) -> (r: Option<V>)
        requires
            old(self).wf(),
        ensures
            final(self).wf(),
            final(self).contacts() == old(self).contacts().remove(*slot),
            r == (if old(self).contacts().dom().contains(*slot) {
                Some(old(self).contacts()[*slot])
            } else {
                None
            }),
    {
        let ghost before = self.entries@;
        match self.position(slot) {
            Some(i) => {
                let (_, contact) = self.entries.remove(i);
                let ghost after = self.entries@;
                proof {
                    lemma_contact_at(before, i as int);
                    assert(after =~= before.remove(i as int));
                    assert(distinct_slots(after)) by {
                        assert forall|a: int, b: int| 0 <= a < after.len() && 0 <= b < after.len() && a != b
                            implies after[a].0 != after[b].0 by {
                            let a0 = if a < i { a } else { a + 1 };
                            let b0 = if b < i { b } else { b + 1 };
                            assert(after[a] == before[a0]);
                            assert(after[b] == before[b0]);
                        }
                    }
                    assert forall|k: K| #[trigger] has_slot(after, k) <==> (has_slot(before, k) && k != *slot) by {
                        if has_slot(before, k) && k != *slot {
                            let j = choose|j: int| 0 <= j < before.len() && #[trigger] before[j].0 == k;
                            assert(j != i);
                            if j < i {
                                assert(after[j].0 == k);
                            } else {
                                assert(after[j - 1].0 == k);
                            }
                        }
                        if has_slot(after, k) {
                            let j = choose|j: int| 0 <= j < after.len() && #[trigger] after[j].0 == k;
                            let j0 = if j < i { j } else { j + 1 };
                            assert(before[j0].0 == k);
                            assert(j0 != i);
                        }
                    }
                    assert forall|k: K| #[trigger] has_slot(after, k) implies slot_contact(after, k)
                        == slot_contact(before, k) by {
                        let j = choose|j: int| 0 <= j < after.len() && #[trigger] after[j].0 == k;
                        let j0 = if j < i { j } else { j + 1 };
                        lemma_contact_at(after, j);
                        assert(before[j0] == after[j]);
                        lemma_contact_at(before, j0);
                    }
                    assert(self.contacts() =~= old(self).contacts().remove(*slot));
                }
                Some(contact)
            },
            None => {
                assert(self.contacts() =~= old(self).contacts().remove(*slot));
                None
            },
        }
    }

    /// Keep exactly the entries whose flag in `keep` is set, in their order.
    pub fn retain_flagged(&mut self, keep: &Vec<bool>)
        requires
            old(self).wf(),
            keep@.len() == old(self).entries().len(),
        ensures
            final(self).wf(),
            final(self).contacts() == old(self).contacts().restrict(
                flagged_slots(old(self).entries(), keep@),
            ),
            final(self).entries() == kept_entries(old(self).entries(), keep@),
    {
        let ghost orig = self.entries@;
        let mut rest: Vec<(K, V)> = Vec::new();
        std::mem::swap(&mut rest, &mut self.entries);
        let mut kept: Vec<(K, V)> = Vec::new();
        let ghost mut src: Seq<int> = Seq::empty();
        let ghost mut dst: Map<int, int> = Map::empty();
        let n = keep.len();
        let mut i: usize = 0;
        while i < n
            invariant
                n == keep@.len(),
                n == orig.len(),
                distinct_slots(orig),
                i <= n,
                rest@ == orig.skip(i as int),
                kept@ == kept_entries(orig.take(i as int), keep@.take(i as int)),
                src.len() == kept@.len(),
                forall|a: int| #![trigger src[a]] 0 <= a < src.len() ==> 0 <= src[a] < i && keep@[src[a]]
                    && kept@[a] == orig[src[a]],
                forall|a: int, c: int| 0 <= a < c < src.len() ==> #[trigger] src[a] < #[trigger] src[c],
                forall|b: int| #![trigger dst[b]] 0 <= b < i && keep@[b] ==> 0 <= dst[b] < src.len()
                    && src[dst[b]] == b,
            decreases n - i,
        {
            assert(rest@[0] == orig[i as int]);
            let e = rest.remove(0);
            assert(rest@ =~= orig.skip(i + 1));
            proof {
                let s1 = orig.take(i + 1);
                let f1 = keep@.take(i + 1);
                assert(s1.drop_last() =~= orig.take(i as int));
                assert(f1.take(i as int) =~= keep@.take(i as int));
                assert(s1.last() == orig[i as int]);
                assert(f1[i as int] == keep@[i as int]);
            }
            if keep[i] {
                proof {
                    dst = dst.insert(i as int, src.len() as int);
                    src = src.push(i as int);
                }
                kept.push(e);
            }
            i = i + 1;
        }
        proof {
            assert(orig.take(n as int) =~= orig);
            assert(keep@.take(n as int) =~= keep@);
        }
        self.entries = kept;
        proof {
            let after = self.entries@;
            let fl = flagged_slots(orig, keep@);
            assert(distinct_slots(after)) by {
                assert forall|a: int, c: int| 0 <= a < after.len() && 0 <= c < after.len() && a != c
                    implies after[a].0 != after[c].0 by {
                    if a < c {
                        assert(src[a] < src[c]);
                    } else {
                        assert(src[c] < src[a]);
                    }
                    assert(after[a] == orig[src[a]]);
                    assert(after[c] == orig[src[c]]);
                }
            }
            assert forall|k: K| #[trigger] has_slot(after, k) <==> (has_slot(orig, k) && fl.contains(k)) by {
                if has_slot(after, k) {
                    let a = choose|a: int| 0 <= a < after.len() && #[trigger] after[a].0 == k;
                    let b = src[a];
                    assert(orig[b] == after[a]);
                    assert(orig[b].0 == k);
                }
                if has_slot(orig, k) && fl.contains(k) {
                    let b = choose|b: int| 0 <= b < orig.len() && keep@[b] && #[trigger] orig[b].0 == k;
                    let a = dst[b];
                    assert(src[a] == b);
                    assert(after[a] == orig[b]);
                    assert(after[a].0 == k);
                }
            }
            assert forall|k: K| #[trigger] has_slot(after, k) implies slot_contact(after, k)
                == slot_contact(orig, k) by {
                let a = choose|a: int| 0 <= a < after.len() && #[trigger] after[a].0 == k;
                let b = src[a];
                assert(orig[b] == after[a]);
                lemma_contact_at(after, a);
                lemma_contact_at(orig, b);
            }
            assert(self.contacts() =~= old(self).contacts().restrict(fl));
        }
    }
}

impl<K: Identity, V> TouchContacts<K, V> {
    /// A down event was delivered on `slot` to a target: its contact is kept
    /// if the target is still alive.
    pub fn record_down(&mut self, target_alive: bool, slot: K, contact: V)
        requires
            old(self).wf(),
        ensures
            final(self).wf(),
            final(self).contacts() == (if target_alive {
                old(self).contacts().insert(slot, contact)
            } else {
                old(self).contacts()
            }),
    {
        if target_alive {
            self.insert(slot, contact);
        }
    }

    /// An up event was delivered on `slot`: the contact is over.
    pub fn record_up(&mut self, slot: &K)
        requires
            old(self).wf(),
        ensures
            final(self).wf(),
            final(self).contacts() == old(self).contacts().remove(*slot),
    {
        let _ = self.remove(slot);
    }

    /// A cancel was delivered to a target: every contact delivered to the
    /// target's client is dropped. `same_client[i]` tells whether the target
    /// of the `i`-th entry belongs to that client.
    pub fn cancel_client(&mut self, same_client: &Vec<bool>)
        requires
            old(self).wf(),
            same_client@.len() == old(self).entries().len(),
        ensures
            final(self).wf(),
            final(self).contacts() == old(self).contacts().remove_keys(
                flagged_slots(old(self).entries(), same_client@),
            ),
            final(self).entries() == kept_entries(
                old(self).entries(),
                Seq::new(same_client@.len(), |i: int| !same_client@[i]),
            ),
    {
        let ghost orig = self.entries@;
        let n = same_client.len();
        let mut keep: Vec<bool> = Vec::new();
        let mut i: usize = 0;
        while i < n
            invariant
                n == same_client@.len(),
                i <= n,
                keep@.len() == i,
                forall|j: int| 0 <= j < i ==> keep@[j] == !same_client@[j],
            decreases n - i,
        {
            keep.push(!same_client[i]);
            i = i + 1;
        }
        assert(keep@ =~= Seq::new(same_client@.len(), |i: int| !same_client@[i]));
        self.retain_flagged(&keep);
        proof {
            let kept = flagged_slots(orig, keep@);
            let dropped = flagged_slots(orig, same_client@);
            assert forall|k: K| has_slot(orig, k) implies (#[trigger] kept.contains(k) <==> !dropped.contains(k)) by {
                let j = choose|j: int| 0 <= j < orig.len() && #[trigger] orig[j].0 == k;
                if kept.contains(k) {
                    let b = choose|b: int| 0 <= b < orig.len() && keep@[b] && #[trigger] orig[b].0 == k;
                    assert(b == j);
                    if dropped.contains(k) {
                        let c = choose|c: int| 0 <= c < orig.len() && same_client@[c] && #[trigger] orig[c].0 == k;
                        assert(c == j);
                    }
                } else {
                    if !same_client@[j] {
                        assert(keep@[j]);
                        assert(kept.contains(k));
                    }
                    assert(dropped.contains(k));
                }
            }
            assert(self.contacts() =~= old(self).contacts().remove_keys(dropped));
        }
    }
}

/// Drop the contacts whose target is no longer alive: `alive[i]` tells
/// whether the target of the `i`-th entry is.
pub fn prune_touch_contacts<K: Identity, V>(contacts: &mut TouchContacts<K, V>, alive: &Vec<bool>)
    requires
        old(contacts).wf(),
        alive@.len() == old(contacts).entries().len(),
    ensures
        final(contacts).wf(),
        final(contacts).contacts() == old(contacts).contacts().restrict(
            flagged_slots(old(contacts).entries(), alive@),
        ),
        final(contacts).entries() == kept_entries(old(contacts).entries(), alive@),
{
    contacts.retain_flagged(alive);
}

/// A contact lasts from its down to its up: after a down and an up on the
/// same slot, the slot has no contact, and every other slot has the contact
/// it had before the down.
pub proof fn lemma_up_ends_contact<K, V>(before: Map<K, V>, target_alive: bool, slot: K, contact: V)
    ensures
        ({
            let after_down = if target_alive { before.insert(slot, contact) } else { before };
            after_down.remove(slot) == before.remove(slot)
        }),
{
    let after_down = if target_alive { before.insert(slot, contact) } else { before };
    assert(after_down.remove(slot) =~= before.remove(slot));
}

/// Each flag is `pred` of its entry's contact.
pub open spec fn flags_of<K, V>(entries: Seq<(K, V)>, flags: Seq<bool>, pred: spec_fn(V) -> bool) -> bool {
    &&& flags.len() == entries.len()
    &&& forall|i: int| 0 <= i < entries.len() ==> flags[i] == pred(#[trigger] entries[i].1)
}

/// Pruning twice is pruning once: when the contacts' liveness `alive` has not
/// changed in between, the second prune keeps every contact the first kept.
pub proof fn lemma_prune_twice_is_prune_once<K: Identity, V>(
    first: TouchContacts<K, V>,
    first_alive: Seq<bool>,
    second: TouchContacts<K, V>,
    second_alive: Seq<bool>,
    alive: spec_fn(V) -> bool,
)
    requires
        first.wf(),
        second.wf(),
        flags_of(first.entries(), first_alive, alive),
        second.contacts() == first.contacts().restrict(flagged_slots(first.entries(), first_alive)),
        flags_of(second.entries(), second_alive, alive),
    ensures
        second.contacts().restrict(flagged_slots(second.entries(), second_alive)) == second.contacts(),
{
    let e1 = first.entries();
    let e2 = second.entries();
    let f1 = flagged_slots(e1, first_alive);
    let f2 = flagged_slots(e2, second_alive);
    assert forall|k: K| second.contacts().dom().contains(k) implies #[trigger] f2.contains(k) by {
        let i = choose|i: int| 0 <= i < e1.len() && first_alive[i] && #[trigger] e1[i].0 == k;
        lemma_contact_at(e1, i);
        let j = choose|j: int| 0 <= j < e2.len() && #[trigger] e2[j].0 == k;
        lemma_contact_at(e2, j);
        assert(second_alive[j]);
    }
    assert(second.contacts().restrict(f2) =~= second.contacts());
}

/// Cancelling twice is cancelling once: when which contacts belong to the
/// cancelled client (`of_client`) has not changed in between, the second
/// cancel drops nothing.
pub proof fn lemma_cancel_twice_is_cancel_once<K: Identity, V>(
    first: TouchContacts<K, V>,
    first_same: Seq<bool>,
    second: TouchContacts<K, V>,
    second_same: Seq<bool>,
    of_client: spec_fn(V) -> bool,
)
    requires
        first.wf(),
        second.wf(),
        flags_of(first.entries(), first_same, of_client),
        second.contacts() == first.contacts().remove_keys(flagged_slots(first.entries(), first_same)),
        flags_of(second.entries(), second_same, of_client),
    ensures
        second.contacts().remove_keys(flagged_slots(second.entries(), second_same)) == second.contacts(),
{
    let e1 = first.entries();
    let e2 = second.entries();
    let d1 = flagged_slots(e1, first_same);
    let d2 = flagged_slots(e2, second_same);
    assert forall|k: K| second.contacts().dom().contains(k) implies !#[trigger] d2.contains(k) by {
        let i = choose|i: int| 0 <= i < e1.len() && #[trigger] e1[i].0 == k;
        lemma_contact_at(e1, i);
        if first_same[i] {
            assert(d1.contains(k));
        }
        let j = choose|j: int| 0 <= j < e2.len() && #[trigger] e2[j].0 == k;
        lemma_contact_at(e2, j);
        if d2.contains(k) {
            let j2 = choose|j2: int| 0 <= j2 < e2.len() && second_same[j2] && #[trigger] e2[j2].0 == k;
            assert(j2 == j);
        }
    }
    assert(second.contacts().remove_keys(d2) =~= second.contacts());
}

proof fn lemma_flagged_is_predicate<K: Identity, V>(c: TouchContacts<K, V>, flags: Seq<bool>, pred: spec_fn(V) -> bool, k: K)
    requires
        c.wf(),
        flags_of(c.entries(), flags, pred),
        c.contacts().dom().contains(k),
    ensures
        flagged_slots(c.entries(), flags).contains(k) == pred(c.contacts()[k]),
{
    let e = c.entries();
    let j = choose|j: int| 0 <= j < e.len() && #[trigger] e[j].0 == k;
    lemma_contact_at(e, j);
    if flagged_slots(e, flags).contains(k) {
        let j2 = choose|j2: int| 0 <= j2 < e.len() && flags[j2] && #[trigger] e[j2].0 == k;
        assert(j2 == j);
    } else {
        if flags[j] {
            assert(flagged_slots(e, flags).contains(k));
        }
    }
}

/// Pruning with the liveness of each entry's target keeps exactly the live
/// contacts: the contact map `prune_touch_contacts` leaves is the old one
/// filtered by `alive`.
pub proof fn lemma_prune_keeps_exactly_live<K: Identity, V>(
    c: TouchContacts<K, V>,
    alive_flags: Seq<bool>,
    alive: spec_fn(V) -> bool,
)
    requires
        c.wf(),
        flags_of(c.entries(), alive_flags, alive),
    ensures
        c.contacts().restrict(flagged_slots(c.entries(), alive_flags)) == contacts_where(c.contacts(), alive),
{
    let m = c.contacts();
    assert forall|k: K| m.dom().contains(k) implies
        #[trigger] flagged_slots(c.entries(), alive_flags).contains(k) == alive(m[k]) by {
        lemma_flagged_is_predicate(c, alive_flags, alive, k);
    }
    assert(m.restrict(flagged_slots(c.entries(), alive_flags)) =~= contacts_where(m, alive));
}

/// Cancelling with, for each entry, whether its target belongs to the
/// cancelled client drops exactly that client's contacts and keeps all
/// others: the contact map `cancel_client` leaves is the old one filtered by
/// "not of the client".
pub proof fn lemma_cancel_drops_exactly_client<K: Identity, V>(
    c: TouchContacts<K, V>,
    same_flags: Seq<bool>,
    of_client: spec_fn(V) -> bool,
)
    requires
        c.wf(),
        flags_of(c.entries(), same_flags, of_client),
    ensures
        c.contacts().remove_keys(flagged_slots(c.entries(), same_flags)) == contacts_where(
            c.contacts(),
            |v: V| !of_client(v),
        ),
{
    let m = c.contacts();
    assert forall|k: K| m.dom().contains(k) implies
        #[trigger] flagged_slots(c.entries(), same_flags).contains(k) == of_client(m[k]) by {
        lemma_flagged_is_predicate(c, same_flags, of_client, k);
    }
    assert(m.remove_keys(flagged_slots(c.entries(), same_flags)) =~= contacts_where(m, |v: V| !of_client(v)));
}

} // verus!
