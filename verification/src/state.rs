//! The persisted state: the configuration, the polls by id and the ballots
//! by voter and poll.

use vstd::prelude::*;
use crate::lookup::{first_index, lemma_first_index};
use crate::order::{ascending, key_less, key_lt, lemma_key_lt_total, lemma_key_lt_transitive};
use crate::poll::{Ballot, Poll, PollView};

verus! {

/// The configuration record.
#[derive(Debug, Clone, PartialEq, Eq)]
pub struct Config {
    /// The administrator's identity, as the host validated it.
    pub admin: String,
}

/// A stored ballot as a mathematical value.
pub struct BallotRecord {
    pub voter: Seq<char>,
    pub poll_id: Seq<char>,
    pub option: Seq<char>,
}

/// The state as a mathematical value: the administrator, if one is set, the
/// polls with their ids in listing order, and the ballots.
pub struct StateView {
    pub config: Option<Seq<char>>,
    pub polls: Seq<(Seq<char>, PollView)>,
    pub ballots: Seq<BallotRecord>,
}

/// The first index at or after `start` whose id does not come before `id`,
/// or the length of `ids` where every id does.
pub open spec fn lower_bound(ids: Seq<Seq<char>>, id: Seq<char>, start: int) -> int
    decreases ids.len() - start,
{
    if start < 0 || start >= ids.len() {
        ids.len() as int
    } else if !key_lt(ids[start], id) {
        start
    } else {
        lower_bound(ids, id, start + 1)
    }
}

/// What `lower_bound` finds lies at or after `start`, does not come before
/// `id`, and everything between `start` and it does.
pub proof fn lemma_lower_bound(ids: Seq<Seq<char>>, id: Seq<char>, start: int)
    requires
        0 <= start <= ids.len(),
    ensures
        start <= lower_bound(ids, id, start) <= ids.len(),
        lower_bound(ids, id, start) < ids.len() ==> !key_lt(ids[lower_bound(ids, id, start)], id),
        forall|j: int| start <= j < lower_bound(ids, id, start) ==> key_lt(#[trigger] ids[j], id),
    decreases ids.len() - start,
{
    if start < ids.len() && key_lt(ids[start], id) {
        lemma_lower_bound(ids, id, start + 1);
    }
}

/// The number of ballots in `ballots` that were cast in the poll `id`.
pub open spec fn ballots_cast(ballots: Seq<BallotRecord>, id: Seq<char>) -> int
    decreases ballots.len(),
{
    if ballots.len() == 0 {
        0
    } else {
        ballots_cast(ballots.drop_last(), id) + if ballots.last().poll_id == id {
            1int
        } else {
            0int
        }
    }
}

impl StateView {
    /// The state before initialization: nothing is stored.
    pub open spec fn empty() -> StateView {
        StateView { config: None, polls: Seq::empty(), ballots: Seq::empty() }
    }

    /// The ids of the polls, in listing order.
    pub open spec fn poll_ids(self) -> Seq<Seq<char>> {
        self.polls.map_values(|e: (Seq<char>, PollView)| e.0)
    }

    /// The pairs of voter and poll id under which the ballots are stored.
    pub open spec fn ballot_keys(self) -> Seq<(Seq<char>, Seq<char>)> {
        self.ballots.map_values(|b: BallotRecord| (b.voter, b.poll_id))
    }

    /// The polls are listed by ascending id, so that no id occurs twice,
    /// and no voter has two ballots in one poll.
    pub open spec fn wf(self) -> bool {
        &&& ascending(self.poll_ids())
        &&& forall|i: int, j: int|
            0 <= i < j < self.ballots.len() ==> #[trigger] self.ballot_keys()[i]
                != #[trigger] self.ballot_keys()[j]
    }

    /// The poll stored under `id`.
    pub open spec fn poll(self, id: Seq<char>) -> Option<PollView> {
        let i = first_index(self.poll_ids(), id, 0);
        if i < self.polls.len() {
            Some(self.polls[i].1)
        } else {
            None
        }
    }

    /// The choice of `voter` in the poll `id`.
    pub open spec fn ballot(self, voter: Seq<char>, id: Seq<char>) -> Option<Seq<char>> {
        let i = first_index(self.ballot_keys(), (voter, id), 0);
        if i < self.ballots.len() {
            Some(self.ballots[i].option)
        } else {
            None
        }
    }

    /// The number of voters with a ballot in the poll `id`.
    pub open spec fn voters(self, id: Seq<char>) -> int {
        ballots_cast(self.ballots, id)
    }

    /// This state with `admin` as the administrator.
    pub open spec fn with_config(self, admin: Seq<char>) -> StateView {
        StateView { config: Some(admin), ..self }
    }

    /// This state with `poll` stored under `id`: in place of the poll that
    /// was there, or else at the place that keeps the ids ascending.
    pub open spec fn with_poll(self, id: Seq<char>, poll: PollView) -> StateView {
        let i = first_index(self.poll_ids(), id, 0);
        if i < self.polls.len() {
            StateView { polls: self.polls.update(i, (id, poll)), ..self }
        } else {
            StateView {
                polls: self.polls.insert(lower_bound(self.poll_ids(), id, 0), (id, poll)),
                ..self
            }
        }
    }

    /// This state with `option` as the choice of `voter` in the poll `id`:
    /// in place of the voter's earlier ballot there, or else as a new one.
    pub open spec fn with_ballot(self, voter: Seq<char>, id: Seq<char>, option: Seq<char>) -> StateView {
        let i = first_index(self.ballot_keys(), (voter, id), 0);
        let record = BallotRecord { voter, poll_id: id, option };
        if i < self.ballots.len() {
            StateView { ballots: self.ballots.update(i, record), ..self }
        } else {
            StateView { ballots: self.ballots.push(record), ..self }
        }
    }
}

/// Storing a poll keeps the state well formed.
pub proof fn lemma_with_poll_wf(s: StateView, id: Seq<char>, poll: PollView)
    requires
        s.wf(),
    ensures
        s.with_poll(id, poll).wf(),
{
    let ids = s.poll_ids();
    let after = s.with_poll(id, poll);
    let i = first_index(ids, id, 0);
    lemma_first_index(ids, id, 0);
    assert(after.ballot_keys() =~= s.ballot_keys());
    if i < s.polls.len() {
        assert(after.poll_ids() =~= ids);
    } else {
        let r = lower_bound(ids, id, 0);
        lemma_lower_bound(ids, id, 0);
        assert(after.poll_ids() =~= ids.insert(r, id));
        assert forall|j: int| r <= j < ids.len() implies key_lt(id, #[trigger] ids[j]) by {
            lemma_key_lt_total(id, ids[r]);
            if r < j {
                lemma_key_lt_transitive(id, ids[r], ids[j]);
            }
        }
        assert forall|a: int, b: int| 0 <= a < b < ids.len() + 1 implies key_lt(
            #[trigger] ids.insert(r, id)[a],
            #[trigger] ids.insert(r, id)[b],
        ) by {
            let x = if a < r { a } else { a - 1 };
            let y = if b < r { b } else { b - 1 };
            if a != r && b != r {
                assert(key_lt(ids[x], ids[y]));
            } else if a == r {
                assert(key_lt(id, ids[y]));
            } else {
                assert(key_lt(ids[x], id));
            }
        }
    }
}

/// Storing a ballot keeps the state well formed.
pub proof fn lemma_with_ballot_wf(s: StateView, voter: Seq<char>, id: Seq<char>, option: Seq<char>)
    requires
        s.wf(),
    ensures
        s.with_ballot(voter, id, option).wf(),
{
    let keys = s.ballot_keys();
    let after = s.with_ballot(voter, id, option);
    let i = first_index(keys, (voter, id), 0);
    lemma_first_index(keys, (voter, id), 0);
    assert(after.poll_ids() =~= s.poll_ids());
    if i < s.ballots.len() {
        assert(after.ballot_keys() =~= keys);
    } else {
        assert(after.ballot_keys() =~= keys.push((voter, id)));
        assert forall|a: int, b: int| 0 <= a < b < after.ballots.len() implies #[trigger] after.ballot_keys()[a]
            != #[trigger] after.ballot_keys()[b] by {
            if b < keys.len() {
                assert(keys[a] != keys[b]);
            }
        }
    }
}

/// The state that the module keeps between calls.
#[derive(Debug, Clone, PartialEq, Eq)]
pub struct Store {
    config: Option<Config>,
    polls: Vec<(String, Poll)>,
    ballots: Vec<(String, String, Ballot)>,
}

impl View for Store {
    type V = StateView;

    closed spec fn view(&self) -> StateView {
        StateView {
            config: match self.config {
                Some(c) => Some(c.admin@),
                None => None,
            },
            polls: self.polls@.map_values(|e: (String, Poll)| (e.0@, e.1@)),
            ballots: self.ballots@.map_values(
                |e: (String, String, Ballot)|
                    BallotRecord { voter: e.0@, poll_id: e.1@, option: e.2@ },
            ),
        }
    }
}

impl Store {
    /// The invariant of the state, which every operation keeps.
    pub open spec fn wf(&self) -> bool {
        self@.wf()
    }

    /// A state in which nothing is stored.
    pub fn new() -> (r: Store)
        ensures
            r@ == StateView::empty(),
            r.wf(),
    {
        let r = Store { config: None, polls: Vec::new(), ballots: Vec::new() };
        assert(r@.polls =~= Seq::empty());
        assert(r@.ballots =~= Seq::empty());
        r
    }

    /// The administrator, if the state was initialized.
    pub fn load_config(&self) -> (r: Option<Config>)
        ensures
            r is Some <==> self@.config is Some,
            r is Some ==> r->0.admin@ == self@.config->0,
    {
        match &self.config {
            Some(c) => Some(Config { admin: c.admin.clone() }),
            None => None,
        }
    }

    /// Writes the configuration, over an earlier one if there is any.
    pub fn save_config(&mut self, config: Config)
        ensures
            final(self)@ == old(self)@.with_config(config.admin@),
            old(self).wf() ==> final(self).wf(),
    {
        self.config = Some(config);
        assert(self@.poll_ids() == old(self)@.poll_ids());
        assert(self@.ballot_keys() == old(self)@.ballot_keys());
    }

    /// The poll stored under `id`, if there is one.
    pub fn may_load_poll(&self, id: &String) -> (r: Option<Poll>)
        ensures
            r is Some <==> self@.poll(id@) is Some,
            r is Some ==> r->0@ == self@.poll(id@)->0,
    {
        let mut i: usize = 0;
        while i < self.polls.len()
            invariant
                i <= self.polls.len(),
                first_index(self@.poll_ids(), id@, 0) == first_index(self@.poll_ids(), id@, i as int),
            decreases self.polls.len() - i,
        {
            assert(self@.poll_ids()[i as int] == self.polls@[i as int].0@);
            if self.polls[i].0 == *id {
                return Some(self.polls[i].1.duplicate());
            }
            i = i + 1;
        }
        None
    }

    /// Writes `poll` under `id`, over the poll that was there if there is
    /// one.
    pub fn save_poll(&mut self, id: String, poll: Poll)
        requires
            old(self).wf(),
        ensures
            final(self)@ == old(self)@.with_poll(id@, poll@),
            final(self).wf(),
    {
        let mut i: usize = 0;
        while i < self.polls.len()
            invariant
                *self == *old(self),
                self.wf(),
                i <= self.polls.len(),
                first_index(self@.poll_ids(), id@, 0) == first_index(self@.poll_ids(), id@, i as int),
            decreases self.polls.len() - i,
        {
            assert(self@.poll_ids()[i as int] == self.polls@[i as int].0@);
            if self.polls[i].0 == id {
                proof {
                    lemma_with_poll_wf(self@, id@, poll@);
                }
                self.polls.set(i, (id, poll));
                assert(self@.polls =~= old(self)@.polls.update(i as int, (id@, poll@)));
                return ;
            }
            i = i + 1;
        }
        let mut r: usize = 0;
        while r < self.polls.len() && key_less(self.polls[r].0.as_str(), id.as_str())
            invariant
                *self == *old(self),
                self.wf(),
                r <= self.polls.len(),
                lower_bound(self@.poll_ids(), id@, 0) == lower_bound(self@.poll_ids(), id@, r as int),
                forall|j: int|
                    0 <= j < self.polls.len() ==> self@.poll_ids()[j] == (#[trigger] self.polls@[j]).0@,
            decreases self.polls.len() - r,
        {
            r = r + 1;
        }
        proof {
            lemma_with_poll_wf(self@, id@, poll@);
        }
        self.polls.insert(r, (id, poll));
        assert(self@.polls =~= old(self)@.polls.insert(r as int, (id@, poll@)));
    }

    /// The polls, by ascending id.
    pub fn all_polls(&self) -> (r: Vec<Poll>)
        ensures
            r@.len() == self@.polls.len(),
            forall|i: int| 0 <= i < r@.len() ==> (#[trigger] r@[i])@ == self@.polls[i].1,
    {
        let mut out: Vec<Poll> = Vec::new();
        let mut i: usize = 0;
        while i < self.polls.len()
            invariant
                i <= self.polls.len(),
                out@.len() == i,
                forall|j: int| 0 <= j < i ==> (#[trigger] out@[j])@ == self@.polls[j].1,
            decreases self.polls.len() - i,
        {
            out.push(self.polls[i].1.duplicate());
            i = i + 1;
        }
        out
    }

    /// The ballot of `voter` in the poll `id`, if there is one.
    pub fn may_load_ballot(&self, voter: &String, id: &String) -> (r: Option<Ballot>)
        ensures
            r is Some <==> self@.ballot(voter@, id@) is Some,
            r is Some ==> r->0@ == self@.ballot(voter@, id@)->0,
    {
        let mut i: usize = 0;
        while i < self.ballots.len()
            invariant
                i <= self.ballots.len(),
                first_index(self@.ballot_keys(), (voter@, id@), 0) == first_index(
                    self@.ballot_keys(),
                    (voter@, id@),
                    i as int,
                ),
            decreases self.ballots.len() - i,
        {
            assert(self@.ballot_keys()[i as int] == (self.ballots@[i as int].0@, self.ballots@[i as int].1@));
            if self.ballots[i].0 == *voter && self.ballots[i].1 == *id {
                return Some(self.ballots[i].2.duplicate());
            }
            i = i + 1;
        }
        None
    }

    /// Writes `ballot` as the choice of `voter` in the poll `id`, over the
    /// voter's earlier ballot there if there is one.
    pub fn save_ballot(&mut self, voter: String, id: String, ballot: Ballot)
        requires
            old(self).wf(),
        ensures
            final(self)@ == old(self)@.with_ballot(voter@, id@, ballot@),
            final(self).wf(),
    {
        let mut i: usize = 0;
        while i < self.ballots.len()
            invariant
                *self == *old(self),
                self.wf(),
                i <= self.ballots.len(),
                first_index(self@.ballot_keys(), (voter@, id@), 0) == first_index(
                    self@.ballot_keys(),
                    (voter@, id@),
                    i as int,
                ),
            decreases self.ballots.len() - i,
        {
            assert(self@.ballot_keys()[i as int] == (self.ballots@[i as int].0@, self.ballots@[i as int].1@));
            if self.ballots[i].0 == voter && self.ballots[i].1 == id {
                proof {
                    lemma_with_ballot_wf(self@, voter@, id@, ballot@);
                }
                self.ballots.set(i, (voter, id, ballot));
                assert(self@.ballots =~= old(self)@.ballots.update(
                    i as int,
                    BallotRecord { voter: voter@, poll_id: id@, option: ballot@ },
                ));
                return ;
            }
            i = i + 1;
        }
        proof {
            lemma_with_ballot_wf(self@, voter@, id@, ballot@);
        }
        self.ballots.push((voter, id, ballot));
        assert(self@.ballots =~= old(self)@.ballots.push(
            BallotRecord { voter: voter@, poll_id: id@, option: ballot@ },
        ));
    }
}

} // verus!
