//! The daily job: scores the outstanding bets by each player's local day,
//! names the winner and resets the round.

use crate::clock::{day_offset, local_day_offset, Timestamp};
use crate::commands::Data;
use crate::db::{fetch_all_bets_joined, reset_round, JoinedBet, Tables};
use crate::zone::{known_zone, Zone};
use vstd::prelude::*;

verus! {

/// A bet with its scoring key: the whole seconds from the start of the
/// player's local day to the bet. Smaller is better.
#[derive(Clone, Copy, Debug, PartialEq, Eq, Structural)]
pub struct Score {
    pub user_id: i64,
    pub offset: i64,
}

/// Why the job stopped short of a reset.
#[derive(Clone, Copy, Debug, PartialEq, Eq, Structural)]
pub enum DailyError {
    /// The zone name stored for this player does not name a zone.
    UnknownZone { user_id: i64 },
    /// The local day of this player's bet has no single start, or the bet
    /// lies outside the calendar.
    NoLocalDay { user_id: i64 },
    /// The winner could not be told.
    NotDelivered { winner: Score },
}

/// Whether the chat platform took the message to the winner.
#[derive(Clone, Copy, Debug, PartialEq, Eq, Structural)]
pub enum Delivery {
    Delivered,
    Failed,
}

/// How a round ended.
#[derive(Clone, Copy, Debug, PartialEq, Eq, Structural)]
pub enum Round {
    /// Nobody bet: nobody is told anything and nothing is reset.
    NoBets,
    /// The winner was told and the round reset.
    Won(Score),
}

/// The score of a bet of `user_id` at `bet_time`, for a player registered
/// under `zone_name`.
pub open spec fn score_of(user_id: i64, bet_time: Timestamp, zone_name: Seq<char>) -> Result<
    Score,
    DailyError,
> {
    if !known_zone(zone_name) {
        Err(DailyError::UnknownZone { user_id })
    } else {
        match day_offset(zone_name, bet_time) {
            Some(offset) => Ok(Score { user_id, offset }),
            None => Err(DailyError::NoLocalDay { user_id }),
        }
    }
}

pub open spec fn row_score(row: JoinedBet) -> Result<Score, DailyError> {
    score_of(row.user_id, row.bet_time, row.zone_name@)
}

/// The ranking: by offset, and among equal offsets by user id.
pub open spec fn no_worse(a: Score, b: Score) -> bool {
    a.offset < b.offset || (a.offset == b.offset && a.user_id <= b.user_id)
}

/// Whether `winner` is one of `scores` and none of them ranks before it.
pub open spec fn best_of(scores: Seq<Score>, winner: Score) -> bool {
    &&& scores.contains(winner)
    &&& forall|i: int| 0 <= i < scores.len() ==> no_worse(winner, #[trigger] scores[i])
}

/// The scores of rows that all have one, in the rows' order.
pub open spec fn scores_of(rows: Seq<JoinedBet>) -> Seq<Score> {
    Seq::new(rows.len(), |i: int| row_score(rows[i])->Ok_0)
}

/// Whether row `i` is the first of `rows` without a score.
pub open spec fn first_unscored(rows: Seq<JoinedBet>, i: int) -> bool {
    &&& 0 <= i < rows.len()
    &&& row_score(rows[i]) is Err
    &&& forall|k: int| 0 <= k < i ==> (#[trigger] row_score(rows[k])) is Ok
}

/// The message sent to the winner.
pub fn winner_notice() -> (text: &'static str)
    ensures
        text@ == "You won!"@,
{
    "You won!"
}

/// The ranking is total: of two scores one is no worse than the other, and
/// two that are each no worse than the other are the same.
pub proof fn lemma_ranking_total(a: Score, b: Score)
    ensures
        no_worse(a, b) || no_worse(b, a),
        no_worse(a, b) && no_worse(b, a) ==> a == b,
{
}

/// A list of scores has at most one best.
pub proof fn lemma_best_unique(scores: Seq<Score>, a: Score, b: Score)
    requires
        best_of(scores, a),
        best_of(scores, b),
    ensures
        a == b,
{
    let i = choose|i: int| 0 <= i < scores.len() && scores[i] == a;
    let j = choose|j: int| 0 <= j < scores.len() && scores[j] == b;
    assert(no_worse(b, scores[i]));
    assert(no_worse(a, scores[j]));
}

/// Scores one bet.
pub fn score(row: &JoinedBet) -> (r: Result<Score, DailyError>)
    ensures
        r == row_score(*row),
{
    match Zone::parse(row.zone_name.as_str()) {
        Err(_) => Err(DailyError::UnknownZone { user_id: row.user_id }),
        Ok(zone) => match local_day_offset(&zone, row.bet_time) {
            Some(offset) => Ok(Score { user_id: row.user_id, offset }),
            None => Err(DailyError::NoLocalDay { user_id: row.user_id }),
        },
    }
}

/// Scores every bet, or stops at the first that has no score.
pub fn score_all(rows: &Vec<JoinedBet>) -> (r: Result<Vec<Score>, DailyError>)
    ensures
        match r {
            Ok(scores) => {
                &&& forall|i: int| 0 <= i < rows.len() ==> (#[trigger] row_score(rows[i])) is Ok
                &&& scores@ == scores_of(rows@)
            },
            Err(e) => exists|i: int|
                first_unscored(rows@, i) && row_score(rows[i]) == Err::<Score, DailyError>(e),
        },
{
    let mut scores: Vec<Score> = Vec::new();
    let mut i: usize = 0;
    while i < rows.len()
        invariant
            i <= rows.len(),
            scores.len() == i,
            forall|k: int|
                0 <= k < i ==> (#[trigger] row_score(rows[k])) == Ok::<Score, DailyError>(
                    scores[k],
                ),
        decreases rows.len() - i,
    {
        match score(&rows[i]) {
            Ok(s) => {
                scores.push(s);
            },
            Err(e) => {
                assert(first_unscored(rows@, i as int));
                return Err(e);
            },
        }
        i += 1;
    }
    assert(scores@ =~= scores_of(rows@));
    Ok(scores)
}

/// The best of `scores`: the smallest offset, and among equal offsets the
/// smallest user id.
pub fn pick_winner(scores: &Vec<Score>) -> (r: Option<Score>)
    ensures
        r is None <==> scores.len() == 0,
        r matches Some(winner) ==> best_of(scores@, winner),
{
    if scores.len() == 0 {
        return None;
    }
    let mut best = scores[0];
    let mut i: usize = 1;
    while i < scores.len()
        invariant
            1 <= i <= scores.len(),
            exists|k: int| 0 <= k < i && scores[k] == best,
            forall|k: int| 0 <= k < i ==> no_worse(best, #[trigger] scores[k]),
        decreases scores.len() - i,
    {
        let s = scores[i];
        if s.offset < best.offset || (s.offset == best.offset && s.user_id < best.user_id) {
            best = s;
        }
        i += 1;
    }
    Some(best)
}

/// The winner among the joined bets: `None` where there are no bets, an
/// error where a bet has no score.
pub fn daily_winner(rows: &Vec<JoinedBet>) -> (r: Result<Option<Score>, DailyError>)
    ensures
        match r {
            Ok(None) => rows.len() == 0,
            Ok(Some(winner)) => {
                &&& forall|i: int| 0 <= i < rows.len() ==> (#[trigger] row_score(rows[i])) is Ok
                &&& best_of(scores_of(rows@), winner)
            },
            Err(e) => exists|i: int|
                first_unscored(rows@, i) && row_score(rows[i]) == Err::<Score, DailyError>(e),
        },
{
    match score_all(rows) {
        Err(e) => Err(e),
        Ok(scores) => Ok(pick_winner(&scores)),
    }
}

impl Tables {
    /// The score of the outstanding bet of `user_id`.
    pub open spec fn bet_score(self, user_id: i64) -> Result<Score, DailyError> {
        score_of(user_id, self.bets[user_id], self.users[user_id])
    }

    /// Whether `winner` is the score of an outstanding bet, every bet has a
    /// score, and none ranks before `winner`.
    pub open spec fn won_by(self, winner: Score) -> bool {
        &&& self.bets.contains_key(winner.user_id)
        &&& self.bet_score(winner.user_id) == Ok::<Score, DailyError>(winner)
        &&& forall|id: i64| #[trigger]
            self.bets.contains_key(id) ==> self.bet_score(id) is Ok && no_worse(
                winner,
                self.bet_score(id)->Ok_0,
            )
    }

    /// Whether some outstanding bet fails to score with `e`.
    pub open spec fn fails_with(self, e: DailyError) -> bool {
        exists|id: i64| #[trigger]
            self.bets.contains_key(id) && self.bet_score(id) == Err::<Score, DailyError>(e)
    }
}

/// The winner does not hang on the order of the rows: whatever join of the
/// tables is scored, the best of its scores is the round's winner.
pub proof fn lemma_winner_of_any_join(tables: Tables, rows: Seq<JoinedBet>, winner: Score)
    requires
        tables.joined_as(rows),
        forall|i: int| 0 <= i < rows.len() ==> (#[trigger] row_score(rows[i])) is Ok,
        best_of(scores_of(rows), winner),
    ensures
        tables.won_by(winner),
{
    let scores = scores_of(rows);
    let i = choose|i: int| 0 <= i < scores.len() && scores[i] == winner;
    assert(row_score(rows[i]) is Ok);
    assert(tables.bet_score(rows[i].user_id) == row_score(rows[i]));
    assert forall|id: i64| #[trigger] tables.bets.contains_key(id) implies tables.bet_score(id) is Ok
        && no_worse(winner, tables.bet_score(id)->Ok_0) by {
        let k = choose|k: int| 0 <= k < rows.len() && (#[trigger] rows[k]).user_id == id;
        assert(row_score(rows[k]) is Ok);
        assert(tables.bet_score(id) == row_score(rows[k]));
        assert(no_worse(winner, scores[k]));
    }
}

/// A round has at most one winner.
pub proof fn lemma_winner_unique(tables: Tables, a: Score, b: Score)
    requires
        tables.won_by(a),
        tables.won_by(b),
    ensures
        a == b,
{
    assert(tables.bets.contains_key(a.user_id));
    assert(tables.bets.contains_key(b.user_id));
}

/// A bet that fails to score in some join of the tables fails in the tables.
pub proof fn lemma_failure_of_any_join(tables: Tables, rows: Seq<JoinedBet>, i: int, e: DailyError)
    requires
        tables.joined_as(rows),
        0 <= i < rows.len(),
        row_score(rows[i]) == Err::<Score, DailyError>(e),
    ensures
        tables.fails_with(e),
{
    assert(tables.bets.contains_key(rows[i].user_id));
    assert(tables.bet_score(rows[i].user_id) == row_score(rows[i]));
}

/// The daily job on the store. With no bets it ends at once. Otherwise it
/// scores the bets and picks the winner; `gateway` says whether the message
/// to the winner went out. Only then is the round reset: any failure leaves
/// the store as it was, for the next run to find.
pub fn run(data: &mut Data, gateway: Delivery) -> (r: Result<Round, DailyError>)
    ensures
        match r {
            Ok(Round::NoBets) => {
                &&& forall|id: i64| !old(data)@.bets.contains_key(id)
                &&& final(data)@ == old(data)@
            },
            Ok(Round::Won(winner)) => {
                &&& gateway == Delivery::Delivered
                &&& old(data)@.won_by(winner)
                &&& final(data)@ == Tables::empty()
            },
            Err(DailyError::NotDelivered { winner }) => {
                &&& gateway == Delivery::Failed
                &&& old(data)@.won_by(winner)
                &&& final(data)@ == old(data)@
            },
            Err(e) => {
                &&& old(data)@.fails_with(e)
                &&& final(data)@ == old(data)@
            },
        },
{
    let rows = fetch_all_bets_joined(&data.pool);
    match daily_winner(&rows) {
        Err(e) => {
            proof {
                let i = choose|i: int|
                    first_unscored(rows@, i) && row_score(rows[i]) == Err::<Score, DailyError>(e);
                lemma_failure_of_any_join(data@, rows@, i, e);
            }
            Err(e)
        },
        Ok(None) => Ok(Round::NoBets),
        Ok(Some(winner)) => {
            proof {
                lemma_winner_of_any_join(data@, rows@, winner);
            }
            match gateway {
                Delivery::Failed => Err(DailyError::NotDelivered { winner }),
                Delivery::Delivered => {
                    reset_round(&mut data.pool);
                    Ok(Round::Won(winner))
                },
            }
        },
    }
}

} // verus!
