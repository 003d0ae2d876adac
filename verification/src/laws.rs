//! What holds of the commands taken together: what is read back after a
//! write, and how the tallies of a poll follow its ballots.

use vstd::prelude::*;
use crate::contract::{create_poll_result, vote_defined, vote_result};
use crate::lookup::{first_index, lemma_first_index, lemma_first_index_is};
use crate::poll::{lemma_tally_sum_update, lemma_tally_sum_zero, lemma_with_tally_labels, PollView, MAX_OPTIONS};
use crate::order::lemma_key_lt_irreflexive;
use crate::state::{ballots_cast, lemma_lower_bound, lower_bound, BallotRecord, StateView};

verus! {

/// After a poll is stored under `id`, that poll is read under `id`, and
/// under every other id what was read before.
pub proof fn law_poll_read_back(s: StateView, id: Seq<char>, poll: PollView, other: Seq<char>)
    ensures
        s.with_poll(id, poll).poll(id) == Some(poll),
        other != id ==> s.with_poll(id, poll).poll(other) == s.poll(other),
        s.with_poll(id, poll).ballots == s.ballots,
        s.with_poll(id, poll).config == s.config,
{
    let ids = s.poll_ids();
    let after = s.with_poll(id, poll);
    let i = first_index(ids, id, 0);
    let k = first_index(ids, other, 0);
    lemma_first_index(ids, id, 0);
    lemma_first_index(ids, other, 0);
    if i < s.polls.len() {
        assert(after.poll_ids() =~= ids);
    } else {
        let r = lower_bound(ids, id, 0);
        lemma_lower_bound(ids, id, 0);
        let ids2 = ids.insert(r, id);
        assert(after.poll_ids() =~= ids2);
        lemma_first_index_is(ids2, id, r);
        if other != id {
            let k2 = if k < r { k } else { k + 1 };
            assert forall|j: int| 0 <= j < k2 implies ids2[j] != other by {
                if j < r {
                    assert(ids2[j] == ids[j]);
                } else if j > r {
                    assert(ids2[j] == ids[j - 1]);
                }
            }
            lemma_first_index_is(ids2, other, k2);
        }
    }
}

/// In a well-formed state every listed poll is the one read under its id,
/// and the ids are listed in ascending order.
pub proof fn law_listing(s: StateView, i: int, j: int)
    requires
        s.wf(),
        0 <= i < s.polls.len(),
        0 <= j < s.polls.len(),
    ensures
        s.poll(s.polls[i].0) == Some(s.polls[i].1),
        i < j ==> crate::order::key_lt(s.polls[i].0, s.polls[j].0),
{
    let ids = s.poll_ids();
    assert(ids[i] == s.polls[i].0);
    assert(ids[j] == s.polls[j].0);
    assert forall|k: int| 0 <= k < i implies ids[k] != ids[i] by {
        lemma_key_lt_irreflexive(ids[i]);
    }
    lemma_first_index_is(ids, ids[i], i);
}

/// After a ballot is stored for a voter and a poll, it is read for them,
/// and for every other pair what was read before.
pub proof fn law_ballot_read_back(
    s: StateView,
    voter: Seq<char>,
    id: Seq<char>,
    option: Seq<char>,
    other_voter: Seq<char>,
    other_id: Seq<char>,
)
    ensures
        s.with_ballot(voter, id, option).ballot(voter, id) == Some(option),
        (other_voter, other_id) != (voter, id) ==> s.with_ballot(voter, id, option).ballot(
            other_voter,
            other_id,
        ) == s.ballot(other_voter, other_id),
        s.with_ballot(voter, id, option).polls == s.polls,
        s.with_ballot(voter, id, option).config == s.config,
{
    let keys = s.ballot_keys();
    let after = s.with_ballot(voter, id, option);
    let i = first_index(keys, (voter, id), 0);
    let k = first_index(keys, (other_voter, other_id), 0);
    lemma_first_index(keys, (voter, id), 0);
    lemma_first_index(keys, (other_voter, other_id), 0);
    if i < s.ballots.len() {
        assert(after.ballot_keys() =~= keys);
    } else {
        let keys2 = keys.push((voter, id));
        assert(after.ballot_keys() =~= keys2);
        lemma_first_index_is(keys2, (voter, id), keys.len() as int);
        if (other_voter, other_id) != (voter, id) {
            let k2 = if k < keys.len() { k } else { k + 1 };
            lemma_first_index_is(keys2, (other_voter, other_id), k2);
        }
    }
}

/// A ballot stored for a voter who had none in the poll adds one voter to
/// that poll; a ballot stored over an earlier one adds none. The number of
/// voters of every other poll stays.
pub proof fn law_ballot_count(
    s: StateView,
    voter: Seq<char>,
    id: Seq<char>,
    option: Seq<char>,
    other_id: Seq<char>,
)
    ensures
        s.with_ballot(voter, id, option).voters(id) == s.voters(id) + if s.ballot(voter, id) is None {
            1int
        } else {
            0int
        },
        other_id != id ==> s.with_ballot(voter, id, option).voters(other_id) == s.voters(other_id),
{
    let keys = s.ballot_keys();
    let i = first_index(keys, (voter, id), 0);
    let record = BallotRecord { voter, poll_id: id, option };
    lemma_first_index(keys, (voter, id), 0);
    if i < s.ballots.len() {
        assert(keys[i] == (s.ballots[i].voter, s.ballots[i].poll_id));
        lemma_ballots_cast_update(s.ballots, i, record, id);
        lemma_ballots_cast_update(s.ballots, i, record, other_id);
    } else {
        assert(s.ballots.push(record).drop_last() =~= s.ballots);
    }
}

/// Replacing a ballot by one of the same poll keeps the number of ballots
/// cast in every poll.
proof fn lemma_ballots_cast_update(ballots: Seq<BallotRecord>, i: int, record: BallotRecord, id: Seq<char>)
    requires
        0 <= i < ballots.len(),
        record.poll_id == ballots[i].poll_id,
    ensures
        ballots_cast(ballots.update(i, record), id) == ballots_cast(ballots, id),
    decreases ballots.len(),
{
    let after = ballots.update(i, record);
    if i == ballots.len() - 1 {
        assert(after.drop_last() =~= ballots.drop_last());
    } else {
        lemma_ballots_cast_update(ballots.drop_last(), i, record, id);
        assert(after.drop_last() =~= ballots.drop_last().update(i, record));
    }
}

/// A poll as it is created has its labels in the given order, every
/// tally at 0, and no ballot counted.
pub proof fn law_fresh_poll(creator: Seq<char>, question: Seq<char>, labels: Seq<Seq<char>>)
    ensures
        PollView::fresh(creator, question, labels).labels() == labels,
        PollView::fresh(creator, question, labels).options.len() == labels.len(),
        forall|i: int|
            0 <= i < labels.len() ==> (#[trigger] PollView::fresh(creator, question, labels).options[i]).1
                == 0,
        PollView::fresh(creator, question, labels).total() == 0,
{
    let p = PollView::fresh(creator, question, labels);
    assert(p.labels() =~= labels);
    lemma_tally_sum_zero(p.options);
}

/// Creating a poll with no more options than a poll may have succeeds, and
/// the poll is then read under its id as it was created.
pub proof fn law_create_poll_succeeds(
    s: StateView,
    sender: Seq<char>,
    id: Seq<char>,
    question: Seq<char>,
    labels: Seq<Seq<char>>,
)
    requires
        labels.len() <= MAX_OPTIONS,
    ensures
        create_poll_result(s, sender, id, question, labels) is Ok,
        create_poll_result(s, sender, id, question, labels)->Ok_0.poll(id) == Some(
            PollView::fresh(sender, question, labels),
        ),
{
    law_poll_read_back(s, id, PollView::fresh(sender, question, labels), id);
}

/// Setting the tally of one option changes the total by the difference
/// and leaves the tally of every other option as it was.
pub proof fn law_with_tally(p: PollView, label: Seq<char>, t: u64, other: Seq<char>)
    requires
        p.has_option(label),
    ensures
        p.with_tally(label, t).labels() == p.labels(),
        p.with_tally(label, t).tally(label) == t,
        p.with_tally(label, t).total() == p.total() - p.tally(label) + t,
        other != label && p.has_option(other) ==> p.with_tally(label, t).tally(other) == p.tally(
            other,
        ),
{
    lemma_with_tally_labels(p, label, t);
    lemma_first_index(p.labels(), label, 0);
    lemma_first_index(p.labels(), other, 0);
    lemma_tally_sum_update(p.options, p.position(label), t);
}

/// A successful vote counts one ballot more in total where the voter had
/// no ballot, and as many as before where the voter had one. The chosen
/// option then counts one more than it did once the earlier choice was
/// taken back.
pub proof fn law_vote_total(p: PollView, prior: Option<Seq<char>>, label: Seq<char>)
    requires
        p.has_option(label),
        p.vote_defined(prior, label),
    ensures
        p.voted(prior, label).labels() == p.labels(),
        p.voted(prior, label).total() == p.total() + if prior is None {
            1int
        } else {
            0int
        },
        p.voted(prior, label).tally(label) == p.without(prior).tally(label) + 1,
{
    let mid = p.without(prior);
    if prior is Some {
        law_with_tally(p, prior->0, (p.tally(prior->0) - 1) as u64, label);
    }
    law_with_tally(mid, label, (mid.tally(label) + 1) as u64, label);
}

/// A successful vote that changes the choice takes one ballot from the
/// earlier option, gives one to the chosen option, and leaves every other
/// tally as it was.
pub proof fn law_vote_moves_one(p: PollView, old_label: Seq<char>, label: Seq<char>, other: Seq<char>)
    requires
        p.has_option(label),
        p.vote_defined(Some(old_label), label),
        old_label != label,
    ensures
        p.voted(Some(old_label), label).tally(old_label) == p.tally(old_label) - 1,
        p.voted(Some(old_label), label).tally(label) == p.tally(label) + 1,
        other != old_label && other != label && p.has_option(other) ==> p.voted(Some(old_label), label).tally(other)
            == p.tally(other),
{
    let mid = p.retracted(old_label);
    law_with_tally(p, old_label, (p.tally(old_label) - 1) as u64, label);
    law_with_tally(p, old_label, (p.tally(old_label) - 1) as u64, other);
    law_with_tally(mid, label, (mid.tally(label) + 1) as u64, old_label);
    law_with_tally(mid, label, (mid.tally(label) + 1) as u64, other);
}

/// A voter who votes again for the option that the voter's ballot already
/// names is accepted, and the poll is left as it was.
pub proof fn law_revote_same_label(p: PollView, label: Seq<char>)
    requires
        p.can_retract(label),
    ensures
        p.vote_defined(Some(label), label),
        p.voted(Some(label), label) == p,
{
    let mid = p.retracted(label);
    law_with_tally(p, label, (p.tally(label) - 1) as u64, label);
    lemma_first_index(p.labels(), label, 0);
    assert(p.labels()[p.position(label)] == p.options[p.position(label)].0);
    assert(p.voted(Some(label), label).options =~= p.options);
}

/// The tallies of the poll `id` sum to the number of voters who have a
/// ballot in it; nothing is asked where no such poll is stored.
pub open spec fn balanced(s: StateView, id: Seq<char>) -> bool {
    match s.poll(id) {
        Some(p) => p.total() == s.voters(id),
        None => true,
    }
}

/// A successful vote keeps every poll balanced that was: the poll voted
/// in, where the total and the number of voters grow together, and every
/// other poll, where neither changes.
pub proof fn law_vote_keeps_balance(
    s: StateView,
    voter: Seq<char>,
    id: Seq<char>,
    label: Seq<char>,
    any_id: Seq<char>,
)
    requires
        vote_defined(s, voter, id, label),
        vote_result(s, voter, id, label) is Ok,
        balanced(s, any_id),
    ensures
        balanced(vote_result(s, voter, id, label)->Ok_0, any_id),
        vote_result(s, voter, id, label)->Ok_0.ballot(voter, id) == Some(label),
{
    let p = s.poll(id)->0;
    let prior = s.ballot(voter, id);
    let mid = s.with_ballot(voter, id, label);
    let after = mid.with_poll(id, p.voted(prior, label));
    law_ballot_read_back(s, voter, id, label, voter, id);
    law_ballot_count(s, voter, id, label, any_id);
    law_poll_read_back(mid, id, p.voted(prior, label), any_id);
    law_vote_total(p, prior, label);
    assert(mid.poll(any_id) == s.poll(any_id));
    assert(after.voters(any_id) == mid.voters(any_id));
    assert(after.ballot(voter, id) == mid.ballot(voter, id));
}

/// A poll created under an id for which no ballot is stored is balanced,
/// and creating a poll keeps every poll under another id balanced that
/// was.
pub proof fn law_create_poll_keeps_balance(
    s: StateView,
    sender: Seq<char>,
    id: Seq<char>,
    question: Seq<char>,
    labels: Seq<Seq<char>>,
    any_id: Seq<char>,
)
    requires
        create_poll_result(s, sender, id, question, labels) is Ok,
        any_id == id ==> s.voters(id) == 0,
        any_id != id ==> balanced(s, any_id),
    ensures
        balanced(create_poll_result(s, sender, id, question, labels)->Ok_0, any_id),
{
    let p = PollView::fresh(sender, question, labels);
    law_poll_read_back(s, id, p, any_id);
    law_fresh_poll(sender, question, labels);
    assert(s.with_poll(id, p).voters(any_id) == s.voters(any_id));
}

/// Whether `record` is a ballot of the poll `id` for `label`, as 1 or 0.
pub open spec fn names(record: BallotRecord, id: Seq<char>, label: Seq<char>) -> int {
    if record.poll_id == id && record.option == label {
        1
    } else {
        0
    }
}

/// The number of ballots in `ballots` that were cast in the poll `id` for
/// `label`.
pub open spec fn ballots_naming(ballots: Seq<BallotRecord>, id: Seq<char>, label: Seq<char>) -> int
    decreases ballots.len(),
{
    if ballots.len() == 0 {
        0
    } else {
        ballots_naming(ballots.drop_last(), id, label) + names(ballots.last(), id, label)
    }
}

/// Every label's ballots in the poll `id` are counted by the tally of
/// that label, and no ballot names a label that the poll lacks; nothing is
/// asked where no such poll is stored.
pub open spec fn counted(s: StateView, id: Seq<char>) -> bool {
    match s.poll(id) {
        Some(p) => forall|label: Seq<char>| #[trigger]
            ballots_naming(s.ballots, id, label) == if p.has_option(label) {
                p.tally(label) as int
            } else {
                0
            },
        None => true,
    }
}

/// Replacing one ballot changes the number of ballots for a label by what
/// the two ballots name.
proof fn lemma_ballots_naming_update(
    ballots: Seq<BallotRecord>,
    i: int,
    record: BallotRecord,
    id: Seq<char>,
    label: Seq<char>,
)
    requires
        0 <= i < ballots.len(),
    ensures
        ballots_naming(ballots.update(i, record), id, label) == ballots_naming(ballots, id, label) - names(
            ballots[i],
            id,
            label,
        ) + names(record, id, label),
    decreases ballots.len(),
{
    let after = ballots.update(i, record);
    if i == ballots.len() - 1 {
        assert(after.drop_last() =~= ballots.drop_last());
    } else {
        lemma_ballots_naming_update(ballots.drop_last(), i, record, id, label);
        assert(after.drop_last() =~= ballots.drop_last().update(i, record));
    }
}

/// The ballots for one label in a poll are at most the ballots cast in
/// that poll.
proof fn lemma_ballots_naming_range(ballots: Seq<BallotRecord>, id: Seq<char>, label: Seq<char>)
    ensures
        0 <= ballots_naming(ballots, id, label) <= ballots_cast(ballots, id),
    decreases ballots.len(),
{
    if ballots.len() > 0 {
        lemma_ballots_naming_range(ballots.drop_last(), id, label);
    }
}

/// The ballots for one label in a poll are at least those found at any
/// one place.
proof fn lemma_ballots_naming_at(ballots: Seq<BallotRecord>, i: int, id: Seq<char>, label: Seq<char>)
    requires
        0 <= i < ballots.len(),
    ensures
        names(ballots[i], id, label) <= ballots_naming(ballots, id, label),
    decreases ballots.len(),
{
    if i == ballots.len() - 1 {
        lemma_ballots_naming_range(ballots.drop_last(), id, label);
    } else {
        lemma_ballots_naming_at(ballots.drop_last(), i, id, label);
    }
}

/// Where the ballots of a poll are counted, every vote in it for one of
/// its options can be carried out, for every voter, as long as the tally of
/// that option is below the largest number it can hold.
pub proof fn law_counted_vote_defined(s: StateView, voter: Seq<char>, id: Seq<char>, label: Seq<char>)
    requires
        counted(s, id),
        s.poll(id) is Some ==> s.poll(id)->0.has_option(label) ==> s.poll(id)->0.tally(label) < u64::MAX,
    ensures
        vote_defined(s, voter, id, label),
{
    if s.poll(id) is Some && s.poll(id)->0.has_option(label) {
        let p = s.poll(id)->0;
        let prior = s.ballot(voter, id);
        if prior is Some {
            let earlier = prior->0;
            let i = first_index(s.ballot_keys(), (voter, id), 0);
            lemma_first_index(s.ballot_keys(), (voter, id), 0);
            assert(s.ballot_keys()[i] == (s.ballots[i].voter, s.ballots[i].poll_id));
            lemma_ballots_naming_at(s.ballots, i, id, earlier);
            assert(ballots_naming(s.ballots, id, earlier) >= 1);
            law_with_tally(p, earlier, (p.tally(earlier) - 1) as u64, label);
        }
    }
}

/// A successful vote keeps the ballots of every poll counted that were.
pub proof fn law_vote_keeps_count(
    s: StateView,
    voter: Seq<char>,
    id: Seq<char>,
    label: Seq<char>,
    any_id: Seq<char>,
)
    requires
        vote_defined(s, voter, id, label),
        vote_result(s, voter, id, label) is Ok,
        counted(s, any_id),
    ensures
        counted(vote_result(s, voter, id, label)->Ok_0, any_id),
{
    let p = s.poll(id)->0;
    let prior = s.ballot(voter, id);
    let mid = s.with_ballot(voter, id, label);
    let q = p.voted(prior, label);
    let after = mid.with_poll(id, q);
    let record = BallotRecord { voter, poll_id: id, option: label };
    let i = first_index(s.ballot_keys(), (voter, id), 0);
    lemma_first_index(s.ballot_keys(), (voter, id), 0);
    law_ballot_read_back(s, voter, id, label, voter, id);
    law_poll_read_back(mid, id, q, any_id);
    law_vote_total(p, prior, label);
    assert(mid.poll(any_id) == s.poll(any_id));
    assert(after.ballots == mid.ballots);
    if after.poll(any_id) is Some {
        let r = after.poll(any_id)->0;
        assert forall|x: Seq<char>| #[trigger]
            ballots_naming(after.ballots, any_id, x) == if r.has_option(x) {
                r.tally(x) as int
            } else {
                0
            } by {
            assert(ballots_naming(s.ballots, any_id, x) == if s.poll(any_id)->0.has_option(x) {
                s.poll(any_id)->0.tally(x) as int
            } else {
                0
            });
            if prior is Some {
                assert(s.ballot_keys()[i] == (s.ballots[i].voter, s.ballots[i].poll_id));
                lemma_ballots_naming_update(s.ballots, i, record, any_id, x);
                if any_id == id {
                    let earlier = prior->0;
                    if earlier == label {
                        law_revote_same_label(p, label);
                    } else {
                        law_vote_moves_one(p, earlier, label, x);
                    }
                }
            } else {
                assert(s.ballots.push(record).drop_last() =~= s.ballots);
                if any_id == id {
                    law_with_tally(p, label, (p.tally(label) + 1) as u64, x);
                }
            }
        }
    }
}

/// A poll created under an id for which no ballot is stored has its
/// ballots counted, and creating a poll keeps the ballots of every poll
/// under another id counted that were.
pub proof fn law_create_poll_keeps_count(
    s: StateView,
    sender: Seq<char>,
    id: Seq<char>,
    question: Seq<char>,
    labels: Seq<Seq<char>>,
    any_id: Seq<char>,
)
    requires
        create_poll_result(s, sender, id, question, labels) is Ok,
        any_id == id ==> s.voters(id) == 0,
        any_id != id ==> counted(s, any_id),
    ensures
        counted(create_poll_result(s, sender, id, question, labels)->Ok_0, any_id),
{
    let p = PollView::fresh(sender, question, labels);
    let after = s.with_poll(id, p);
    law_poll_read_back(s, id, p, any_id);
    law_fresh_poll(sender, question, labels);
    if any_id == id {
        assert forall|x: Seq<char>| #[trigger]
            ballots_naming(after.ballots, id, x) == if p.has_option(x) {
                p.tally(x) as int
            } else {
                0
            } by {
            lemma_ballots_naming_range(s.ballots, id, x);
            lemma_first_index(p.labels(), x, 0);
        }
    } else {
        assert(after.poll(any_id) == s.poll(any_id));
    }
}

} // verus!
