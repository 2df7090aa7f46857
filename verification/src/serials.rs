//! The input serials that authorize popup grabs.
//!
//! A client may only grab a popup with the serial of an input event that the
//! compositor actually delivered to it. Each delivery is recorded here as a
//! pair of the event's serial and the receiving client.

use crate::identity::Identity;
use vstd::prelude::*;

verus! {

/// The serials of input events delivered to clients.
pub struct InputSerials<C> {
    deliveries: Vec<(u32, C)>,
}

impl<C> View for InputSerials<C> {
    type V = Set<(u32, C)>;

    /// The set of `(serial, client)` deliveries recorded.
    closed spec fn view(&self) -> Set<(u32, C)> {
        Set::new(|d: (u32, C)| self.deliveries@.contains(d))
    }
}

impl<C: Identity> InputSerials<C> {
    /// A store that has recorded no delivery.
    pub fn new() -> (r: Self)
        ensures
            r@ == Set::<(u32, C)>::empty(),
    {
        let r = InputSerials { deliveries: Vec::new() };
        assert(r@ =~= Set::<(u32, C)>::empty());
        r
    }

    /// Whether the event with `serial` was delivered to `client`.
    pub fn contains(&self, serial: u32, client: &C) -> (r: bool)
        ensures
            r == self@.contains((serial, *client)),
    {
        let n = self.deliveries.len();
        let mut i: usize = 0;
        while i < n
            invariant
                n == self.deliveries@.len(),
                i <= n,
                forall|j: int| 0 <= j < i ==> self.deliveries@[j] != (serial, *client),
            decreases n - i,
        {
            let d = &self.deliveries[i];
            if d.0 == serial && d.1.same_as(client) {
                assert(self.deliveries@.contains((serial, *client))) by {
                    assert(self.deliveries@[i as int] == (serial, *client));
                }
                return true;
            }
            i = i + 1;
        }
        assert(!self.deliveries@.contains((serial, *client)));
        false
    }

    /// Record that the event with `serial` was delivered to `client`.
    pub fn record(&mut self, serial: u32, client: C)
        ensures
            final(self)@ == old(self)@.insert((serial, client)),
    {
        if !self.contains(serial, &client) {
            let ghost before = self.deliveries@;
            self.deliveries.push((serial, client));
            assert(self.deliveries@ == before.push((serial, client)));
            assert forall|d: (u32, C)| self.deliveries@.contains(d) <==> (before.contains(d) || d == (serial, client)) by {
                if self.deliveries@.contains(d) {
                    let k = choose|k: int| 0 <= k < self.deliveries@.len() && self.deliveries@[k] == d;
                    if k < before.len() {
                        assert(before[k] == d);
                    }
                }
                if before.contains(d) {
                    let k = choose|k: int| 0 <= k < before.len() && before[k] == d;
                    assert(self.deliveries@[k] == d);
                }
                if d == (serial, client) {
                    assert(self.deliveries@[before.len() as int] == d);
                }
            }
            assert(self@ =~= old(self)@.insert((serial, client)));
        } else {
            assert(self@ =~= old(self)@.insert((serial, client)));
        }
    }

    /// Forget every recorded delivery.
    pub fn clear(&mut self)
        ensures
            final(self)@ == Set::<(u32, C)>::empty(),
    {
        self.deliveries = Vec::new();
        assert(self@ =~= Set::<(u32, C)>::empty());
    }
}

} // verus!
