use vstd::prelude::*;

use crate::account::AccountId;

verus! {

/// Length in bytes of a proposal's description.
pub const DESCRIPTOR_LEN: usize = 32;

/// The role a voter was registered with.
#[derive(Debug, Clone, Copy, PartialEq, Eq, Structural)]
pub enum RoleType {
    Default,
    Admin,
}

/// A vote that was counted.
#[derive(Debug, Clone, Copy, PartialEq, Eq)]
pub struct VoteCast {
    pub voter: AccountId,
    pub vote: bool,
}

/// Number of entries of `s` equal to `b`.
pub open spec fn count_votes(s: Seq<bool>, b: bool) -> nat
    decreases s.len(),
{
    if s.len() == 0 {
        0
    } else {
        count_votes(s.drop_last(), b) + if s.last() == b {
            1nat
        } else {
            0nat
        }
    }
}

/// A description of all zero bytes.
pub open spec fn blank_descriptor() -> [u8; 32] {
    vstd::array::spec_array_fill_for_copy_type::<u8, 32>(0u8)
}

/// The state of a voting registry as the contracts speak of it.
pub ghost struct DaoView {
    /// Role and registration number of each voter.
    pub voters: Map<AccountId, (RoleType, u32)>,
    /// Proposal descriptions, numbered by position.
    pub proposals: Seq<[u8; 32]>,
    /// Position in a proposal's vote record of the vote of each
    /// (proposal, voter number) pair.
    pub vote_index: Map<(u32, u32), u32>,
    /// Vote record of each proposal that has one.
    pub votes: Map<u32, Seq<bool>>,
    pub events: Seq<VoteCast>,
}

impl DaoView {
    /// The state after `caller` asks to be registered: a new voter gets the
    /// default role and the next number, unless all numbers are taken.
    pub open spec fn after_register(self, caller: AccountId) -> DaoView {
        if self.voters.contains_key(caller) || self.voters.len() >= u32::MAX {
            self
        } else {
            DaoView {
                voters: self.voters.insert(caller, (RoleType::Default, self.voters.len() as u32)),
                ..self
            }
        }
    }

    /// The state after a proposal with `descriptor` is filed, under the next
    /// number, unless all numbers are taken.
    pub open spec fn after_create_proposal(self, descriptor: [u8; 32]) -> DaoView {
        if self.proposals.len() >= u32::MAX {
            self
        } else {
            DaoView { proposals: self.proposals.push(descriptor), ..self }
        }
    }

    /// The state after `caller` votes `vote` on proposal `prop_id`.
    ///
    /// Only a registered voter's vote on a proposal that has a vote record
    /// counts: it replaces the voter's earlier vote on it, or is appended to
    /// the record.
    pub open spec fn after_vote(self, caller: AccountId, prop_id: u32, vote: bool) -> DaoView {
        if prop_id > self.proposals.len() || !self.voters.contains_key(caller)
            || !self.votes.contains_key(prop_id) {
            self
        } else {
            let key = (prop_id, self.voters[caller].1);
            let record = self.votes[prop_id];
            let cast = self.events.push(VoteCast { voter: caller, vote });
            if self.vote_index.contains_key(key) {
                DaoView {
                    votes: self.votes.insert(
                        prop_id,
                        record.update(self.vote_index[key] as int, vote),
                    ),
                    events: cast,
                    ..self
                }
            } else if record.len() >= u32::MAX {
                self
            } else {
                DaoView {
                    vote_index: self.vote_index.insert(key, record.len() as u32),
                    votes: self.votes.insert(prop_id, record.push(vote)),
                    events: cast,
                    ..self
                }
            }
        }
    }

    /// Description, yes votes and no votes of proposal `prop_id`; zeros where
    /// there is no such proposal, and no votes where it has no vote record.
    pub open spec fn proposal_summary(self, prop_id: u32) -> ([u8; 32], nat, nat) {
        let desc = if prop_id < self.proposals.len() {
            self.proposals[prop_id as int]
        } else {
            blank_descriptor()
        };
        if prop_id > self.proposals.len() {
            (blank_descriptor(), 0, 0)
        } else if self.votes.contains_key(prop_id) {
            (desc, count_votes(self.votes[prop_id], true), count_votes(self.votes[prop_id], false))
        } else {
            (desc, 0, 0)
        }
    }
}

/// `v` lists each voter of `m` once, at the position of its number.
spec fn voters_agree(v: Seq<(AccountId, RoleType)>, m: Map<AccountId, (RoleType, u32)>) -> bool {
    &&& m.dom().finite()
    &&& m.len() == v.len()
    &&& forall|i: int, j: int| 0 <= i < j < v.len() ==> v[i].0 != v[j].0
    &&& forall|i: int|
        0 <= i < v.len() ==> #[trigger] m.contains_key(v[i].0) && m[v[i].0] == (v[i].1, i as u32)
    &&& forall|a: AccountId|
        #[trigger] m.contains_key(a) ==> exists|i: int| 0 <= i < v.len() && v[i].0 == a
}

/// `v` lists each entry of `m` once.
spec fn index_agrees(v: Seq<((u32, u32), u32)>, m: Map<(u32, u32), u32>) -> bool {
    &&& forall|i: int, j: int| 0 <= i < j < v.len() ==> v[i].0 != v[j].0
    &&& forall|i: int| 0 <= i < v.len() ==> #[trigger] m.contains_key(v[i].0) && m[v[i].0] == v[i].1
    &&& forall|k: (u32, u32)|
        #[trigger] m.contains_key(k) ==> exists|i: int| 0 <= i < v.len() && v[i].0 == k
}

/// `v` lists each vote record of `m` once.
spec fn votes_agree(v: Seq<(u32, Vec<bool>)>, m: Map<u32, Seq<bool>>) -> bool {
    &&& forall|i: int, j: int| 0 <= i < j < v.len() ==> v[i].0 != v[j].0
    &&& forall|i: int|
        0 <= i < v.len() ==> #[trigger] m.contains_key(v[i].0) && m[v[i].0] == v[i].1@
    &&& forall|p: u32|
        #[trigger] m.contains_key(p) ==> exists|i: int| 0 <= i < v.len() && v[i].0 == p
    &&& forall|p: u32| #[trigger] m.contains_key(p) ==> m[p].len() <= u32::MAX
}

/// Every indexed vote lies inside the record of its proposal.
spec fn index_in_records(ix: Map<(u32, u32), u32>, votes: Map<u32, Seq<bool>>) -> bool {
    forall|k: (u32, u32)|
        #[trigger] ix.contains_key(k) ==> votes.contains_key(k.0) && ix[k] < votes[k.0].len()
}

/// Replacing the record at position `pi` by one with the same key keeps the
/// list in agreement with the map updated at that key.
proof fn lemma_record_replaced(
    old_v: Seq<(u32, Vec<bool>)>,
    v: Seq<(u32, Vec<bool>)>,
    old_m: Map<u32, Seq<bool>>,
    pi: int,
    m: Map<u32, Seq<bool>>,
)
    requires
        votes_agree(old_v, old_m),
        0 <= pi < old_v.len(),
        v == old_v.update(pi, v[pi]),
        v[pi].0 == old_v[pi].0,
        v[pi].1@.len() <= u32::MAX,
        m == old_m.insert(v[pi].0, v[pi].1@),
    ensures
        votes_agree(v, m),
{
    assert forall|p: u32| #[trigger] m.contains_key(p) implies exists|i: int|
        0 <= i < v.len() && v[i].0 == p by {
        assert(old_m.contains_key(p));
        let i = choose|i: int| 0 <= i < old_v.len() && old_v[i].0 == p;
        assert(v[i].0 == p);
    }
    assert forall|i: int| 0 <= i < v.len() implies #[trigger] m.contains_key(v[i].0) && m[v[i].0]
        == v[i].1@ by {
        if i != pi {
            assert(old_m.contains_key(old_v[i].0));
        }
    }
    assert forall|p: u32| #[trigger] m.contains_key(p) implies m[p].len() <= u32::MAX by {
        if p != v[pi].0 {
            assert(old_m.contains_key(p));
        }
    }
}

/// A registry of voters and proposals, with votes on proposals.
pub struct SimpleDao {
    voters: Vec<(AccountId, RoleType)>,
    voter_model: Ghost<Map<AccountId, (RoleType, u32)>>,
    proposals: Vec<[u8; 32]>,
    vote_index: Vec<((u32, u32), u32)>,
    vote_index_model: Ghost<Map<(u32, u32), u32>>,
    votes: Vec<(u32, Vec<bool>)>,
    votes_model: Ghost<Map<u32, Seq<bool>>>,
    events: Vec<VoteCast>,
}

impl View for SimpleDao {
    type V = DaoView;

    closed spec fn view(&self) -> DaoView {
        DaoView {
            voters: self.voter_model@,
            proposals: self.proposals@,
            vote_index: self.vote_index_model@,
            votes: self.votes_model@,
            events: self.events@,
        }
    }
}

impl SimpleDao {
    /// The lists agree with the view, with each key once, and every indexed
    /// vote lies inside its proposal's record.
    pub closed spec fn wf(&self) -> bool {
        &&& self.voters@.len() <= u32::MAX
        &&& voters_agree(self.voters@, self.voter_model@)
        &&& index_agrees(self.vote_index@, self.vote_index_model@)
        &&& votes_agree(self.votes@, self.votes_model@)
        &&& index_in_records(self.vote_index_model@, self.votes_model@)
    }

    /// A registry whose only voter is `caller`, as administrator, number 0.
    pub fn deploy(caller: AccountId) -> (r: SimpleDao)
        ensures
            r.wf(),
            r@ == (DaoView {
                voters: map![caller => (RoleType::Admin, 0u32)],
                proposals: Seq::empty(),
                vote_index: Map::empty(),
                votes: Map::empty(),
                events: Seq::empty(),
            }),
    {
        let mut voters: Vec<(AccountId, RoleType)> = Vec::new();
        voters.push((caller, RoleType::Admin));
        let ghost first = map![caller => (RoleType::Admin, 0u32)];
        let r = SimpleDao {
            voters,
            voter_model: Ghost(first),
            proposals: Vec::new(),
            vote_index: Vec::new(),
            vote_index_model: Ghost(Map::empty()),
            votes: Vec::new(),
            votes_model: Ghost(Map::empty()),
            events: Vec::new(),
        };
        proof {
            assert(r.voter_model@.dom() =~= set![caller]);
            assert(r.voters@[0].0 == caller);
            assert(r.proposals@ =~= Seq::<[u8; 32]>::empty());
            assert(r.events@ =~= Seq::<VoteCast>::empty());
        }
        r
    }

    /// Number of registered voters.
    pub fn get_voter_count(&self) -> (r: u32)
        requires
            self.wf(),
        ensures
            r == self@.voters.len(),
    {
        self.voters.len() as u32
    }

    /// Everything that was voted, oldest first.
    pub fn events(&self) -> (r: &Vec<VoteCast>)
        ensures
            r@ == self@.events,
    {
        &self.events
    }

    /// Position of `a` in the voter list, if registered.
    fn find_voter(&self, a: &AccountId) -> (r: Option<usize>)
        requires
            self.wf(),
        ensures
            match r {
                Some(i) => i < self.voters@.len() && self.voters@[i as int].0 == *a,
                None => !self@.voters.contains_key(*a),
            },
    {
        let mut i: usize = 0;
        while i < self.voters.len()
            invariant
                self.wf(),
                i <= self.voters@.len(),
                forall|j: int| 0 <= j < i ==> self.voters@[j].0 != *a,
            decreases self.voters@.len() - i,
        {
            if self.voters[i].0 == *a {
                return Some(i);
            }
            i = i + 1;
        }
        None
    }

    /// Position of the vote record of proposal `p`, if it has one.
    fn find_votes(&self, p: u32) -> (r: Option<usize>)
        requires
            self.wf(),
        ensures
            match r {
                Some(i) => i < self.votes@.len() && self.votes@[i as int].0 == p,
                None => !self@.votes.contains_key(p),
            },
    {
        let mut i: usize = 0;
        while i < self.votes.len()
            invariant
                self.wf(),
                i <= self.votes@.len(),
                forall|j: int| 0 <= j < i ==> self.votes@[j].0 != p,
            decreases self.votes@.len() - i,
        {
            if self.votes[i].0 == p {
                return Some(i);
            }
            i = i + 1;
        }
        None
    }

    /// Position of the index entry for `key`, if there is one.
    fn find_vote_index(&self, key: (u32, u32)) -> (r: Option<usize>)
        requires
            self.wf(),
        ensures
            match r {
                Some(i) => i < self.vote_index@.len() && self.vote_index@[i as int].0 == key,
                None => !self@.vote_index.contains_key(key),
            },
    {
        let mut i: usize = 0;
        while i < self.vote_index.len()
            invariant
                self.wf(),
                i <= self.vote_index@.len(),
                forall|j: int| 0 <= j < i ==> self.vote_index@[j].0 != key,
            decreases self.vote_index@.len() - i,
        {
            let (p, v) = self.vote_index[i].0;
            if p == key.0 && v == key.1 {
                return Some(i);
            }
            i = i + 1;
        }
        None
    }

    /// Registers `caller` with the default role and the next number, where
    /// `caller` is not registered yet and a number is left.
    pub fn register(&mut self, caller: &AccountId)
        requires
            old(self).wf(),
        ensures
            final(self).wf(),
            final(self)@ == old(self)@.after_register(*caller),
    {
        if self.find_voter(caller).is_some() || self.voters.len() >= u32::MAX as usize {
            return;
        }
        let id = self.voters.len() as u32;
        self.voters.push((*caller, RoleType::Default));
        proof {
            self.voter_model@ = self.voter_model@.insert(*caller, (RoleType::Default, id));
            let n = self.voters@.len() - 1;
            assert(self.voters@[n].0 == *caller);
            assert forall|j: int| 0 <= j < n implies self.voters@[j].0 != *caller by {
                assert(old(self).voter_model@.contains_key(old(self).voters@[j].0));
            }
            assert(self.voter_model@.dom() =~= old(self).voter_model@.dom().insert(*caller));
            assert forall|a: AccountId| #[trigger]
                self.voter_model@.contains_key(a) implies exists|i: int|
                0 <= i < self.voters@.len() && self.voters@[i].0 == a by {
                if a != *caller {
                    assert(old(self).voter_model@.contains_key(a));
                    let i = choose|i: int|
                        0 <= i < old(self).voters@.len() && old(self).voters@[i].0 == a;
                    assert(self.voters@[i].0 == a);
                }
            }
        }
    }

    /// Files a proposal with `descriptor` under the next number, where a
    /// number is left.
    pub fn create_proposal(&mut self, descriptor: [u8; 32])
        requires
            old(self).wf(),
        ensures
            final(self).wf(),
            final(self)@ == old(self)@.after_create_proposal(descriptor),
    {
        if self.proposals.len() >= u32::MAX as usize {
            return;
        }
        self.proposals.push(descriptor);
    }

    /// Description, yes votes and no votes of proposal `prop_id`.
    pub fn get_proposal(&self, prop_id: u32) -> (r: ([u8; 32], u32, u32))
        requires
            self.wf(),
        ensures
            r.0 == self@.proposal_summary(prop_id).0,
            r.1 == self@.proposal_summary(prop_id).1,
            r.2 == self@.proposal_summary(prop_id).2,
    {
        if prop_id as usize > self.proposals.len() {
            return ([0u8; 32], 0, 0);
        }
        let desc = if (prop_id as usize) < self.proposals.len() {
            self.proposals[prop_id as usize]
        } else {
            [0u8; 32]
        };
        match self.find_votes(prop_id) {
            Some(pi) => {
                let record = &self.votes[pi].1;
                proof {
                    assert(self.votes_model@.contains_key(self.votes@[pi as int].0));
                }
                let mut yes: u32 = 0;
                let mut no: u32 = 0;
                let mut i: usize = 0;
                while i < record.len()
                    invariant
                        i <= record@.len() <= u32::MAX,
                        yes == count_votes(record@.take(i as int), true),
                        no == count_votes(record@.take(i as int), false),
                        yes + no == i,
                    decreases record@.len() - i,
                {
                    proof {
                        assert(record@.take(i + 1).drop_last() =~= record@.take(i as int));
                    }
                    if record[i] {
                        yes = yes + 1;
                    } else {
                        no = no + 1;
                    }
                    i = i + 1;
                }
                proof {
                    assert(record@.take(i as int) =~= record@);
                }
                (desc, yes, no)
            },
            None => (desc, 0, 0),
        }
    }

    /// Records the vote `vote` of `caller` on proposal `prop_id`, replacing
    /// the caller's earlier vote on it. Counts only for a registered voter
    /// and a proposal that has a vote record; a counted vote is reported.
    pub fn vote(&mut self, caller: &AccountId, prop_id: u32, vote: bool)
        requires
            old(self).wf(),
        ensures
            final(self).wf(),
            final(self)@ == old(self)@.after_vote(*caller, prop_id, vote),
    {
        if prop_id as usize > self.proposals.len() {
            return;
        }
        let vi = match self.find_voter(caller) {
            Some(i) => i,
            None => {
                return;
            },
        };
        let pi = match self.find_votes(prop_id) {
            Some(i) => i,
            None => {
                return;
            },
        };
        proof {
            assert(self.voter_model@.contains_key(self.voters@[vi as int].0));
            assert(self.votes_model@.contains_key(self.votes@[pi as int].0));
        }
        let voter_id = vi as u32;
        let key = (prop_id, voter_id);
        let ghost record = self.votes_model@[prop_id];
        match self.find_vote_index(key) {
            Some(k) => {
                proof {
                    assert(self.vote_index_model@.contains_key(self.vote_index@[k as int].0));
                }
                let idx = self.vote_index[k].1 as usize;
                self.votes[pi].1.set(idx, vote);
                proof {
                    let updated = self.votes_model@.insert(prop_id, record.update(idx as int, vote));
                    let ix = self.vote_index_model@;
                    assert forall|k2: (u32, u32)| #[trigger] ix.contains_key(k2) implies
                        updated.contains_key(k2.0) && ix[k2] < updated[k2.0].len() by {
                        assert(old(self).vote_index_model@.contains_key(k2));
                    }
                    self.votes_model@ = updated;
                    lemma_record_replaced(
                        old(self).votes@,
                        self.votes@,
                        old(self).votes_model@,
                        pi as int,
                        updated,
                    );
                }
            },
            None => {
                let len = self.votes[pi].1.len();
                if len >= u32::MAX as usize {
                    return;
                }
                self.vote_index.push((key, len as u32));
                self.votes[pi].1.push(vote);
                proof {
                    self.vote_index_model@ = self.vote_index_model@.insert(key, len as u32);
                    self.votes_model@ = self.votes_model@.insert(prop_id, record.push(vote));
                    lemma_record_replaced(
                        old(self).votes@,
                        self.votes@,
                        old(self).votes_model@,
                        pi as int,
                        self.votes_model@,
                    );
                    let v = self.vote_index@;
                    let m = self.vote_index_model@;
                    let ov = old(self).vote_index@;
                    let om = old(self).vote_index_model@;
                    let n = ov.len() as int;
                    assert(v[n].0 == key);
                    assert forall|j: int| 0 <= j < n implies ov[j].0 != key by {
                        assert(om.contains_key(ov[j].0));
                    }
                    assert forall|k2: (u32, u32)| #[trigger] m.contains_key(k2) implies exists|
                        i: int,
                    | 0 <= i < v.len() && v[i].0 == k2 by {
                        if k2 != key {
                            assert(om.contains_key(k2));
                            let i = choose|i: int| 0 <= i < ov.len() && ov[i].0 == k2;
                            assert(v[i].0 == k2);
                        }
                    }
                    let records = self.votes_model@;
                    assert forall|k2: (u32, u32)| #[trigger] m.contains_key(k2) implies
                        records.contains_key(k2.0) && m[k2] < records[k2.0].len() by {
                        if k2 != key {
                            assert(om.contains_key(k2));
                        }
                    }
                }
            },
        }
        self.events.push(VoteCast { voter: *caller, vote });
    }
}

} // verus!
