//! A poll, its options and their tallies, and the arithmetic of one vote.

use vstd::prelude::*;
use crate::error::ContractError;
use crate::lookup::{first_index, lemma_first_index};

verus! {

/// The largest number of options that a poll may be created with.
pub const MAX_OPTIONS: usize = 10;

/// One voter's standing choice in one poll.
#[derive(Debug, Clone, PartialEq, Eq)]
pub struct Ballot {
    /// The label of the chosen option.
    pub option: String,
}

/// A question with its options, each a label and the number of standing
/// ballots that name it.
#[derive(Debug, Clone, PartialEq, Eq)]
pub struct Poll {
    /// The account that created the poll.
    pub creator: String,
    /// The question put to the voters.
    pub question: String,
    /// The options in the order given at creation.
    pub options: Vec<(String, u64)>,
}

/// A poll as a mathematical value.
pub struct PollView {
    pub creator: Seq<char>,
    pub question: Seq<char>,
    pub options: Seq<(Seq<char>, u64)>,
}

impl View for Ballot {
    type V = Seq<char>;

    open spec fn view(&self) -> Seq<char> {
        self.option@
    }
}

impl View for Poll {
    type V = PollView;

    open spec fn view(&self) -> PollView {
        PollView {
            creator: self.creator@,
            question: self.question@,
            options: self.options@.map_values(|o: (String, u64)| (o.0@, o.1)),
        }
    }
}

/// The sum of the tallies of `options`.
pub open spec fn tally_sum(options: Seq<(Seq<char>, u64)>) -> int
    decreases options.len(),
{
    if options.len() == 0 {
        0
    } else {
        tally_sum(options.drop_last()) + options.last().1
    }
}

/// Replacing one tally changes the sum by the difference.
pub proof fn lemma_tally_sum_update(options: Seq<(Seq<char>, u64)>, i: int, t: u64)
    requires
        0 <= i < options.len(),
    ensures
        tally_sum(options.update(i, (options[i].0, t))) == tally_sum(options) - options[i].1 + t,
    decreases options.len(),
{
    let after = options.update(i, (options[i].0, t));
    if i == options.len() - 1 {
        assert(after.drop_last() =~= options.drop_last());
    } else {
        lemma_tally_sum_update(options.drop_last(), i, t);
        assert(after.drop_last() =~= options.drop_last().update(i, (options[i].0, t)));
    }
}

/// Options that all have the tally 0 sum to 0.
pub proof fn lemma_tally_sum_zero(options: Seq<(Seq<char>, u64)>)
    requires
        forall|i: int| 0 <= i < options.len() ==> options[i].1 == 0,
    ensures
        tally_sum(options) == 0,
    decreases options.len(),
{
    if options.len() > 0 {
        lemma_tally_sum_zero(options.drop_last());
    }
}

impl PollView {
    /// The labels of the options, in order.
    pub open spec fn labels(self) -> Seq<Seq<char>> {
        self.options.map_values(|o: (Seq<char>, u64)| o.0)
    }

    /// The index of the first option labelled `label`, or the number of
    /// options where none is.
    pub open spec fn position(self, label: Seq<char>) -> int {
        first_index(self.labels(), label, 0)
    }

    /// Whether an option is labelled `label`.
    pub open spec fn has_option(self, label: Seq<char>) -> bool {
        self.position(label) < self.options.len()
    }

    /// The tally that counts the ballots for `label`.
    pub open spec fn tally(self, label: Seq<char>) -> u64
        recommends
            self.has_option(label),
    {
        self.options[self.position(label)].1
    }

    /// The number of ballots counted over all options.
    pub open spec fn total(self) -> int {
        tally_sum(self.options)
    }

    /// This poll with the tally for `label` set to `t`.
    pub open spec fn with_tally(self, label: Seq<char>, t: u64) -> PollView
        recommends
            self.has_option(label),
    {
        PollView { options: self.options.update(self.position(label), (label, t)), ..self }
    }

    /// A ballot for `label` can be withdrawn: the option exists and counts
    /// at least one ballot.
    pub open spec fn can_retract(self, label: Seq<char>) -> bool {
        self.has_option(label) && self.tally(label) >= 1
    }

    /// This poll with one ballot fewer for `label`.
    pub open spec fn retracted(self, label: Seq<char>) -> PollView {
        self.with_tally(label, (self.tally(label) - 1) as u64)
    }

    /// A ballot for `label` can be counted: the option exists and its tally
    /// is below the largest number it can hold.
    pub open spec fn can_credit(self, label: Seq<char>) -> bool {
        self.has_option(label) && self.tally(label) < u64::MAX
    }

    /// This poll with one ballot more for `label`.
    pub open spec fn credited(self, label: Seq<char>) -> PollView {
        self.with_tally(label, (self.tally(label) + 1) as u64)
    }

    /// This poll once the voter's earlier choice, if any, is taken back.
    pub open spec fn without(self, prior: Option<Seq<char>>) -> PollView {
        match prior {
            Some(old) => self.retracted(old),
            None => self,
        }
    }

    /// A vote for `label` by a voter whose earlier choice was `prior` can be
    /// counted. Nothing is asked where the poll has no such option, since
    /// the vote is then refused.
    pub open spec fn vote_defined(self, prior: Option<Seq<char>>, label: Seq<char>) -> bool {
        self.has_option(label) ==> {
            &&& prior is Some ==> self.can_retract(prior->0)
            &&& self.without(prior).can_credit(label)
        }
    }

    /// This poll after a vote for `label` by a voter whose earlier choice
    /// was `prior`.
    pub open spec fn voted(self, prior: Option<Seq<char>>, label: Seq<char>) -> PollView {
        self.without(prior).credited(label)
    }

    /// The poll that `creator` opens on `question`: the labels in the given
    /// order, each with the tally 0.
    pub open spec fn fresh(creator: Seq<char>, question: Seq<char>, labels: Seq<Seq<char>>) -> PollView {
        PollView { creator, question, options: labels.map_values(|l: Seq<char>| (l, 0u64)) }
    }
}

/// Setting a tally keeps the labels, and with them every position.
pub proof fn lemma_with_tally_labels(p: PollView, label: Seq<char>, t: u64)
    requires
        p.has_option(label),
    ensures
        p.with_tally(label, t).labels() == p.labels(),
        p.with_tally(label, t).options.len() == p.options.len(),
{
    lemma_first_index(p.labels(), label, 0);
    assert(p.with_tally(label, t).labels() =~= p.labels());
}

impl Ballot {
    /// A ballot with the same choice.
    pub fn duplicate(&self) -> (r: Ballot)
        ensures
            r@ == self@,
    {
        Ballot { option: self.option.clone() }
    }
}

impl Poll {
    /// Opens a poll. With more than `MAX_OPTIONS` labels it is refused.
    pub fn new(creator: String, question: String, labels: &Vec<String>) -> (r: Result<
        Poll,
        ContractError,
    >)
        ensures
            labels.len() > MAX_OPTIONS ==> r == Err::<Poll, ContractError>(
                ContractError::TooManyOptions {  },
            ),
            labels.len() <= MAX_OPTIONS ==> r is Ok && r->Ok_0@ == PollView::fresh(
                creator@,
                question@,
                labels@.map_values(|l: String| l@),
            ),
    {
        if labels.len() > MAX_OPTIONS {
            return Err(ContractError::TooManyOptions {  });
        }
        let mut options: Vec<(String, u64)> = Vec::new();
        let mut i: usize = 0;
        while i < labels.len()
            invariant
                i <= labels.len(),
                options.len() == i,
                forall|j: int| 0 <= j < i ==> options@[j].0@ == labels@[j]@ && options@[j].1 == 0,
            decreases labels.len() - i,
        {
            options.push((labels[i].clone(), 0));
            i = i + 1;
        }
        let poll = Poll { creator, question, options };
        assert(poll@.options =~= PollView::fresh(
            creator@,
            question@,
            labels@.map_values(|l: String| l@),
        ).options);
        Ok(poll)
    }

    /// A poll with the same contents.
    pub fn duplicate(&self) -> (r: Poll)
        ensures
            r@ == self@,
    {
        let mut options: Vec<(String, u64)> = Vec::new();
        let mut i: usize = 0;
        while i < self.options.len()
            invariant
                i <= self.options.len(),
                options.len() == i,
                forall|j: int| 0 <= j < i ==> options@[j].0@ == self.options@[j].0@ && options@[j].1
                    == self.options@[j].1,
            decreases self.options.len() - i,
        {
            options.push((self.options[i].0.clone(), self.options[i].1));
            i = i + 1;
        }
        let poll = Poll { creator: self.creator.clone(), question: self.question.clone(), options };
        assert(poll@.options =~= self@.options);
        poll
    }

    /// The index of the first option labelled `label`.
    pub fn position(&self, label: &String) -> (r: Option<usize>)
        ensures
            r is Some <==> self@.has_option(label@),
            r is Some ==> r->0 == self@.position(label@),
    {
        let mut i: usize = 0;
        while i < self.options.len()
            invariant
                i <= self.options.len(),
                self@.position(label@) == first_index(self@.labels(), label@, i as int),
            decreases self.options.len() - i,
        {
            assert(self@.labels()[i as int] == self.options@[i as int].0@);
            if self.options[i].0 == *label {
                return Some(i);
            }
            i = i + 1;
        }
        None
    }

    /// Whether the vote of a voter whose earlier choice was `prior` can be
    /// counted for `label`: the test of `vote_defined`.
    pub fn accepts(&self, prior: &Option<Ballot>, label: &String) -> (r: bool)
        ensures
            r == self@.vote_defined(ballot_choice(*prior), label@),
    {
        let target = match self.position(label) {
            Some(t) => t,
            None => {
                return true;
            },
        };
        proof {
            lemma_first_index(self@.labels(), label@, 0);
        }
        match prior {
            Some(b) => {
                match self.position(&b.option) {
                    Some(p) => {
                        proof {
                            lemma_first_index(self@.labels(), b@, 0);
                            lemma_with_tally_labels(self@, b@, (self@.tally(b@) - 1) as u64);
                        }
                        if self.options[p].1 < 1 {
                            false
                        } else if p == target {
                            true
                        } else {
                            self.options[target].1 < u64::MAX
                        }
                    },
                    None => false,
                }
            },
            None => self.options[target].1 < u64::MAX,
        }
    }

    /// Counts a vote for `label` by a voter whose earlier choice was
    /// `prior`. A label that the poll lacks is refused before anything is
    /// changed; otherwise the earlier choice loses one ballot and `label`
    /// gains one.
    pub fn apply_vote(&mut self, prior: &Option<Ballot>, label: &String) -> (r: Result<
        (),
        ContractError,
    >)
        requires
            old(self)@.vote_defined(ballot_choice(*prior), label@),
        ensures
            !old(self)@.has_option(label@) ==> r == Err::<(), ContractError>(
                ContractError::OptionNotFound {  },
            ) && final(self)@ == old(self)@,
            old(self)@.has_option(label@) ==> r == Ok::<(), ContractError>(()) && final(self)@ == old(
                self,
            )@.voted(ballot_choice(*prior), label@),
    {
        if self.position(label).is_none() {
            return Err(ContractError::OptionNotFound {  });
        }
        let ghost before = self@;
        match prior {
            Some(b) => {
                let p = self.position(&b.option).unwrap();
                proof {
                    lemma_first_index(self@.labels(), b@, 0);
                    lemma_with_tally_labels(self@, b@, (self@.tally(b@) - 1) as u64);
                }
                let entry = (self.options[p].0.clone(), self.options[p].1 - 1);
                self.options.set(p, entry);
                assert(self@.options =~= before.retracted(b@).options);
            },
            None => {},
        }
        let ghost middle = self@;
        let t = self.position(label).unwrap();
        proof {
            lemma_first_index(self@.labels(), label@, 0);
        }
        let entry = (self.options[t].0.clone(), self.options[t].1 + 1);
        self.options.set(t, entry);
        assert(self@.options =~= middle.credited(label@).options);
        Ok(())
    }
}

/// The choice that a ballot records, where there is one.
pub open spec fn ballot_choice(b: Option<Ballot>) -> Option<Seq<char>> {
    match b {
        Some(b) => Some(b@),
        None => None,
    }
}

} // verus!
