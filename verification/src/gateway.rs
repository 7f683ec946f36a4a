use vstd::prelude::*;
use crate::messages::{Message, MessageModel, QueryRequest};

verus! {

/// No two strings of the sequence are equal.
pub open spec fn unique_strings(s: Seq<Seq<char>>) -> bool {
    forall|i: int, j: int| 0 <= i < j < s.len() ==> s[i] != s[j]
}

/// The federation gateway's namespace membership: the set of remote
/// namespaces this peer has joined, beyond its home namespace.
pub struct Gateway {
    connected: Vec<String>,
}

impl View for Gateway {
    type V = Seq<Seq<char>>;

    closed spec fn view(&self) -> Seq<Seq<char>> {
        self.connected.deep_view()
    }
}

impl Gateway {
    /// Internal invariant: a namespace is joined at most once.
    pub open spec fn wf(&self) -> bool {
        unique_strings(self@)
    }

    /// A gateway joined to no remote namespace.
    pub fn new() -> (g: Gateway)
        ensures
            g.wf(),
            g@ == Seq::<Seq<char>>::empty(),
    {
        let g = Gateway { connected: Vec::new() };
        proof {
            assert(g@ =~= Seq::<Seq<char>>::empty());
        }
        g
    }

    /// Position of the namespace in the joined list, if joined.
    fn find(&self, network_id: &String) -> (r: Option<usize>)
        ensures
            match r {
                Option::Some(i) => i < self@.len() && self@[i as int] == network_id@,
                Option::None => !self@.contains(network_id@),
            },
    {
        let mut idx: usize = 0;
        while idx < self.connected.len()
            invariant
                idx <= self.connected@.len(),
                forall|j: int| 0 <= j < idx ==> self.connected.deep_view()[j] != network_id@,
            decreases self.connected@.len() - idx,
        {
            proof {
                assert(self.connected.deep_view()[idx as int] == self.connected@[idx as int]@);
            }
            if self.connected[idx].eq(network_id) {
                return Option::Some(idx);
            }
            idx += 1;
        }
        proof {
            assert(forall|j: int| 0 <= j < self@.len() ==> self@[j] != network_id@);
        }
        Option::None
    }

    /// Whether this peer is joined to the namespace.
    pub fn is_connected(&self, network_id: &String) -> (b: bool)
        ensures
            b == self@.contains(network_id@),
    {
        match self.find(network_id) {
            Option::Some(i) => {
                proof {
                    assert(self@[i as int] == network_id@);
                }
                true
            },
            Option::None => false,
        }
    }

    /// Number of joined namespaces.
    pub fn count(&self) -> (n: usize)
        ensures
            n == self@.len(),
    {
        self.connected.len()
    }

    /// The joined namespace at a position.
    pub fn at(&self, i: usize) -> (ns: &String)
        requires
            i < self@.len(),
        ensures
            ns@ == self@[i as int],
    {
        proof {
            assert(self.connected.deep_view()[i as int] == self.connected@[i as int]@);
        }
        &self.connected[i]
    }

    /// Joins a namespace. Idempotent: joining one already joined changes
    /// nothing.
    pub fn connect(&mut self, network_id: String) -> (joined: bool)
        requires
            old(self).wf(),
        ensures
            final(self).wf(),
            joined == !old(self)@.contains(network_id@),
            final(self)@ == if old(self)@.contains(network_id@) {
                old(self)@
            } else {
                old(self)@.push(network_id@)
            },
    {
        match self.find(&network_id) {
            Option::Some(i) => {
                proof {
                    assert(self@.contains(network_id@));
                }
                false
            },
            Option::None => {
                self.connected.push(network_id);
                proof {
                    assert(self@ =~= old(self)@.push(network_id@));
                    assert forall|x: int, y: int| 0 <= x < y < self@.len()
                        implies self@[x] != self@[y] by {
                        if y == self@.len() - 1 {
                            assert(old(self)@[x] != network_id@);
                        }
                    }
                }
                true
            },
        }
    }

    /// Leaves a namespace: no further writes or sync are processed for it.
    /// Idempotent: leaving one not joined changes nothing. Entries already
    /// merged for the namespace are retained in the store (they become
    /// unreachable for writes, not purged).
    pub fn disconnect(&mut self, network_id: &String) -> (left: bool)
        requires
            old(self).wf(),
        ensures
            final(self).wf(),
            left == old(self)@.contains(network_id@),
            !final(self)@.contains(network_id@),
            if old(self)@.contains(network_id@) {
                exists|i: int|
                    0 <= i < old(self)@.len() && old(self)@[i] == network_id@
                    && final(self)@ == old(self)@.remove(i)
            } else {
                final(self)@ == old(self)@
            },
    {
        match self.find(network_id) {
            Option::Some(i) => {
                proof {
                    assert(self@.contains(network_id@));
                }
                self.connected.remove(i);
                proof {
                    assert(self@ =~= old(self)@.remove(i as int));
                    assert forall|x: int, y: int| 0 <= x < y < self@.len()
                        implies self@[x] != self@[y] by {
                        if x < i as int {
                            if y < i as int {
                                assert(old(self)@[x] != old(self)@[y]);
                            } else {
                                assert(old(self)@[x] != old(self)@[y + 1]);
                            }
                        } else {
                            assert(old(self)@[x + 1] != old(self)@[y + 1]);
                        }
                    }
                    assert forall|j: int| 0 <= j < self@.len()
                        implies self@[j] != network_id@ by {
                        if j < i as int {
                            assert(old(self)@[j] != old(self)@[i as int]);
                        } else {
                            assert(old(self)@[j + 1] != old(self)@[i as int]);
                        }
                    }
                }
                true
            },
            Option::None => false,
        }
    }

    /// Translates a query into the target namespace's dissemination scope.
    /// Returns the message to broadcast, or nothing — immediately, with no
    /// broadcast attempted — when this peer is not joined to that namespace.
    /// The bounded wait for the reply belongs to the caller.
    pub fn forward_query(&self, query: &QueryRequest) -> (r: Option<Message>)
        ensures
            match r {
                Option::Some(m) => self@.contains(query.network_id@)
                    && m@ == MessageModel::Query(query@),
                Option::None => !self@.contains(query.network_id@),
            },
    {
        if self.is_connected(&query.network_id) {
            Option::Some(Message::Query(query.duplicate()))
        } else {
            Option::None
        }
    }
}

} // verus!
