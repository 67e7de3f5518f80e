//! Bookkeeping of the scripted transport used in tests: which fake
//! connections are open, by direction, and where an injected message goes.
use vstd::prelude::*;

use crate::identity::{ConnDirection, ConnId};

verus! {

pub struct MockConnections {
    incoming: Vec<ConnId>,
    outgoing: Vec<ConnId>,
}

pub open spec fn no_dup(s: Seq<ConnId>) -> bool {
    forall|i: int, j: int| 0 <= i < s.len() && 0 <= j < s.len() && i != j ==> s[i] != s[j]
}

fn position(v: &Vec<ConnId>, conn: ConnId) -> (r: Option<usize>)
    ensures
        r is None <==> !v@.contains(conn),
        r matches Some(i) ==> i < v@.len() && v@[i as int] == conn,
{
    let n = v.len();
    let mut i: usize = 0;
    while i < n
        invariant
            n == v@.len(),
            i <= n,
            forall|j: int| 0 <= j < i ==> v@[j] != conn,
        decreases n - i,
    {
        if v[i] == conn {
            return Some(i);
        }
        i = i + 1;
    }
    None
}

fn add_to(list: &mut Vec<ConnId>, conn: ConnId)
    requires
        no_dup(old(list)@),
    ensures
        no_dup(final(list)@),
        final(list)@.to_set() == old(list)@.to_set().insert(conn),
{
    if position(list, conn).is_none() {
        list.push(conn);
        proof {
            assert(list@.to_set() =~= old(list)@.to_set().insert(conn)) by {
                assert forall|c: ConnId| list@.contains(c) <==> (old(list)@.contains(c) || c == conn) by {
                    if list@.contains(c) {
                        let a = choose|a: int| 0 <= a < list@.len() && list@[a] == c;
                        if a < old(list)@.len() {
                            assert(old(list)@[a] == c);
                        }
                    }
                    if old(list)@.contains(c) {
                        let a = choose|a: int| 0 <= a < old(list)@.len() && old(list)@[a] == c;
                        assert(list@[a] == c);
                    }
                    if c == conn {
                        assert(list@[old(list)@.len() as int] == c);
                    }
                }
            }
        }
    } else {
        proof {
            assert(list@.to_set() =~= old(list)@.to_set().insert(conn));
        }
    }
}

fn remove_from(list: &mut Vec<ConnId>, conn: ConnId) -> (r: bool)
    requires
        no_dup(old(list)@),
    ensures
        no_dup(final(list)@),
        r == old(list)@.to_set().contains(conn),
        final(list)@.to_set() == old(list)@.to_set().remove(conn),
{
    let ghost before = list@;
    match position(list, conn) {
        Some(i) => {
            list.remove(i);
            proof {
                let after = list@;
                assert forall|a: int, b: int|
                    0 <= a < after.len() && 0 <= b < after.len() && a != b implies after[a]
                    != after[b] by {
                    let a2 = if a < i { a } else { a + 1 };
                    let b2 = if b < i { b } else { b + 1 };
                    assert(after[a] == before[a2] && after[b] == before[b2]);
                }
                assert forall|c: ConnId| after.contains(c) <==> (before.contains(c) && c != conn) by {
                    if after.contains(c) {
                        let a = choose|a: int| 0 <= a < after.len() && after[a] == c;
                        let a2 = if a < i { a } else { a + 1 };
                        assert(after[a] == before[a2]);
                    }
                    if before.contains(c) && c != conn {
                        let a = choose|a: int| 0 <= a < before.len() && before[a] == c;
                        assert(a != i);
                        let a2 = if a < i { a } else { a - 1 };
                        assert(after[a2] == before[a]);
                    }
                }
                assert(after.to_set() =~= before.to_set().remove(conn));
                assert(before[i as int] == conn);
            }
            true
        },
        None => {
            proof {
                assert(before.to_set() =~= before.to_set().remove(conn));
            }
            false
        },
    }
}

impl MockConnections {
    /// Open connections of one direction.
    pub closed spec fn open(&self, direction: ConnDirection) -> Set<ConnId> {
        match direction {
            ConnDirection::Incoming => self.incoming@.to_set(),
            ConnDirection::Outgoing => self.outgoing@.to_set(),
        }
    }

    pub closed spec fn wf(&self) -> bool {
        no_dup(self.incoming@) && no_dup(self.outgoing@)
    }

    pub fn new() -> (r: Self)
        ensures
            r.wf(),
            r.open(ConnDirection::Incoming) == Set::<ConnId>::empty(),
            r.open(ConnDirection::Outgoing) == Set::<ConnId>::empty(),
    {
        let r = MockConnections { incoming: Vec::new(), outgoing: Vec::new() };
        proof {
            assert(r.incoming@.to_set() =~= Set::<ConnId>::empty());
            assert(r.outgoing@.to_set() =~= Set::<ConnId>::empty());
        }
        r
    }

    /// Records an open connection.
    pub fn add(&mut self, direction: ConnDirection, conn: ConnId)
        requires
            old(self).wf(),
        ensures
            final(self).wf(),
            final(self).open(direction) == old(self).open(direction).insert(conn),
            forall|d: ConnDirection| d != direction ==> final(self).open(d) == old(self).open(d),
    {
        match direction {
            ConnDirection::Incoming => add_to(&mut self.incoming, conn),
            ConnDirection::Outgoing => add_to(&mut self.outgoing, conn),
        }
    }

    /// Where a message for `conn` goes: an incoming connection first, then an outgoing one.
    pub fn route(&self, conn: ConnId) -> (r: Option<ConnDirection>)
        ensures
            self.open(ConnDirection::Incoming).contains(conn) ==> r == Some(ConnDirection::Incoming),
            !self.open(ConnDirection::Incoming).contains(conn) && self.open(
                ConnDirection::Outgoing,
            ).contains(conn) ==> r == Some(ConnDirection::Outgoing),
            !self.open(ConnDirection::Incoming).contains(conn) && !self.open(
                ConnDirection::Outgoing,
            ).contains(conn) ==> r is None,
    {
        if position(&self.incoming, conn).is_some() {
            Some(ConnDirection::Incoming)
        } else if position(&self.outgoing, conn).is_some() {
            Some(ConnDirection::Outgoing)
        } else {
            None
        }
    }

    /// Closes a connection; `false` when it was not open in that direction.
    pub fn remove(&mut self, direction: ConnDirection, conn: ConnId) -> (r: bool)
        requires
            old(self).wf(),
        ensures
            final(self).wf(),
            r == old(self).open(direction).contains(conn),
            final(self).open(direction) == old(self).open(direction).remove(conn),
            forall|d: ConnDirection| d != direction ==> final(self).open(d) == old(self).open(d),
    {
        match direction {
            ConnDirection::Incoming => remove_from(&mut self.incoming, conn),
            ConnDirection::Outgoing => remove_from(&mut self.outgoing, conn),
        }
    }
}

} // verus!
