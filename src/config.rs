//! The orchestrator's configuration: the peers to try and the attempt limit.
use vstd::prelude::*;

verus! {

/// Peers to handshake with, without duplicates, and how many attempts each
/// one gets.
#[derive(Debug)]
pub struct HandTool {
    node_list: Vec<String>,
    max_handshake_attempts: i8,
}

impl HandTool {
    /// The peer strings, in the order they are held.
    pub closed spec fn node_seq(&self) -> Seq<Seq<char>> {
        self.node_list@.map_values(|s: String| s@)
    }

    /// The set of peer strings.
    pub open spec fn nodes(&self) -> Set<Seq<char>> {
        self.node_seq().to_set()
    }

    pub closed spec fn max_attempts(&self) -> i8 {
        self.max_handshake_attempts
    }

    /// Each peer is held once and at least one attempt is allowed.
    pub open spec fn wf(&self) -> bool {
        &&& self.node_seq().no_duplicates()
        &&& self.max_attempts() >= 1
    }

    /// No peers, two attempts each.
    pub fn new() -> (r: HandTool)
        ensures
            r.wf(),
            r.nodes() == Set::<Seq<char>>::empty(),
            r.max_attempts() == 2,
    {
        let r = HandTool { node_list: Vec::new(), max_handshake_attempts: 2 };
        assert(r.node_seq() =~= Seq::<Seq<char>>::empty());
        r
    }

    /// Adds a peer; one already present is not added twice.
    pub fn add_node(&mut self, node: &String)
        requires
            old(self).wf(),
        ensures
            final(self).wf(),
            final(self).nodes() == old(self).nodes().insert(node@),
            final(self).max_attempts() == old(self).max_attempts(),
    {
        let mut i: usize = 0;
        while i < self.node_list.len()
            invariant
                0 <= i <= self.node_list@.len(),
                self.wf(),
                *self == *old(self),
                forall|k: int| 0 <= k < i ==> self.node_seq()[k] != node@,
            decreases self.node_list@.len() - i,
        {
            if self.node_list[i] == *node {
                assert(self.node_seq().contains(node@)) by {
                    assert(self.node_seq()[i as int] == node@);
                }
                assert(self.nodes().insert(node@) =~= self.nodes());
                return;
            }
            i = i + 1;
        }
        let ghost before = self.node_seq();
        self.node_list.push(node.clone());
        assert(self.node_seq() =~= before.push(node@));
        assert(!before.contains(node@));
        assert(self.nodes() =~= before.to_set().insert(node@)) by {
            before.lemma_push_to_set_commute(node@);
        }
    }

    /// Removes a peer, if present.
    pub fn remove_node(&mut self, node: String)
        requires
            old(self).wf(),
        ensures
            final(self).wf(),
            final(self).nodes() == old(self).nodes().remove(node@),
            final(self).max_attempts() == old(self).max_attempts(),
    {
        let mut i: usize = 0;
        while i < self.node_list.len()
            invariant
                0 <= i <= self.node_list@.len(),
                self.wf(),
                *self == *old(self),
                forall|k: int| 0 <= k < i ==> self.node_seq()[k] != node@,
            decreases self.node_list@.len() - i,
        {
            if self.node_list[i] == node {
                let ghost before = self.node_seq();
                assert(before[i as int] == node@);
                self.node_list.remove(i);
                assert(self.node_seq() =~= before.remove(i as int));
                assert(self.node_seq().no_duplicates()) by {
                    let after = self.node_seq();
                    assert forall|a: int, b: int| 0 <= a < after.len() && 0 <= b < after.len() && a != b
                        implies after[a] != after[b] by {
                        let oa = if a < i { a } else { a + 1 };
                        let ob = if b < i { b } else { b + 1 };
                        assert(after[a] == before[oa]);
                        assert(after[b] == before[ob]);
                    }
                }
                assert(self.nodes() =~= before.to_set().remove(node@)) by {
                    assert forall|x: Seq<char>| #[trigger] self.nodes().contains(x) <==> (
                    before.to_set().contains(x) && x != node@) by {
                        if self.nodes().contains(x) {
                            let k = choose|k: int| 0 <= k < self.node_seq().len() && self.node_seq()[k] == x;
                            if k < i {
                                assert(before[k] == x);
                            } else {
                                assert(before[k + 1] == x);
                            }
                            assert(before.contains(x));
                        }
                        if before.to_set().contains(x) && x != node@ {
                            let k = choose|k: int| 0 <= k < before.len() && before[k] == x;
                            if k < i {
                                assert(self.node_seq()[k] == x);
                            } else {
                                assert(self.node_seq()[k - 1] == x);
                            }
                        }
                    }
                }
                return;
            }
            i = i + 1;
        }
        assert(!self.node_seq().contains(node@));
        assert(self.nodes().remove(node@) =~= self.nodes());
    }

    /// The peers, each once.
    pub fn get_nodes(&self) -> (r: &Vec<String>)
        requires
            self.wf(),
        ensures
            r@.map_values(|s: String| s@) == self.node_seq(),
            r@.map_values(|s: String| s@).no_duplicates(),
    {
        &self.node_list
    }

    /// How many attempts each peer gets.
    pub fn get_max_handshake_attempts(&self) -> (r: i8)
        ensures
            r == self.max_attempts(),
    {
        self.max_handshake_attempts
    }

    /// Sets the attempt limit; a value below one is ignored and the previous
    /// limit kept.
    pub fn set_max_handshake_attempts(&mut self, max_handshake_attempts: i8)
        requires
            old(self).wf(),
        ensures
            final(self).wf(),
            final(self).nodes() == old(self).nodes(),
            max_handshake_attempts >= 1 ==> final(self).max_attempts() == max_handshake_attempts,
            max_handshake_attempts < 1 ==> final(self).max_attempts() == old(self).max_attempts(),
    {
        if max_handshake_attempts < 1 {
            return;
        }
        self.max_handshake_attempts = max_handshake_attempts;
    }
}

/// First public test-network seed node.
pub const SEED_NODE_A: &'static str = "testnet-seed.bitcoin.jonasschnelli.ch:18333";

/// Second public test-network seed node.
pub const SEED_NODE_B: &'static str = "seed.testnet.bitcoin.sprovoost.nl:18333";

impl Default for HandTool {
    /// The two public test-network seed nodes, two attempts each.
    fn default() -> (r: HandTool)
        ensures
            r.wf(),
            r.nodes() == Set::<Seq<char>>::empty().insert(SEED_NODE_A@).insert(SEED_NODE_B@),
            r.max_attempts() == 2,
    {
        let mut r = HandTool::new();
        r.add_node(&String::from_str(SEED_NODE_A));
        r.add_node(&String::from_str(SEED_NODE_B));
        r
    }
}

} // verus!
