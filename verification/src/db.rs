//! The shared store: the `users` and `bets` tables and the operations of the
//! data access layer on them.

use crate::clock::Timestamp;
use crate::zone::{known_zone, Zone};
use vstd::prelude::*;

verus! {

/// A row of `users`: a player and the zone name registered for them.
#[derive(Clone, Debug, PartialEq, Eq)]
pub struct User {
    pub id: i64,
    pub timezone: String,
}

/// A row of `bets`: the instant at which a player's "first" was seen.
#[derive(Clone, Copy, Debug, PartialEq, Eq, Structural)]
pub struct Bet {
    pub user_id: i64,
    pub bet_time: Timestamp,
}

/// An outstanding bet together with its owner's registered zone name.
#[derive(Clone, Debug, PartialEq, Eq)]
pub struct JoinedBet {
    pub user_id: i64,
    pub bet_time: Timestamp,
    pub zone_name: String,
}

/// Why an operation on the store failed.
#[derive(Clone, Copy, Debug, PartialEq, Eq, Structural)]
pub enum StoreError {
    /// The zone name stored for the user does not name a zone.
    CorruptTimezone,
    /// A bet was offered for a user who has no row in `users`.
    UnknownUser,
}

/// The two tables as maps from user id: `users` to the registered zone name,
/// `bets` to the instant of the outstanding bet.
pub struct Tables {
    pub users: Map<i64, Seq<char>>,
    pub bets: Map<i64, Timestamp>,
}

impl Tables {
    pub open spec fn empty() -> Tables {
        Tables { users: Map::empty(), bets: Map::empty() }
    }

    /// Referential integrity: every bet belongs to a registered user.
    pub open spec fn consistent(self) -> bool {
        forall|id: i64| self.bets.contains_key(id) ==> self.users.contains_key(id)
    }

    /// Every registered zone name is one the zone database knows.
    pub open spec fn zones_known(self) -> bool {
        forall|id: i64| self.users.contains_key(id) ==> known_zone(#[trigger] self.users[id])
    }

    /// Insert-or-replace of a user's zone name.
    pub open spec fn upsert_timezone(self, user_id: i64, zone_name: Seq<char>) -> Tables {
        Tables { users: self.users.insert(user_id, zone_name), bets: self.bets }
    }

    /// Insert of a bet that leaves an earlier bet of the same user alone, and
    /// takes none from a user without a row.
    pub open spec fn record_bet(self, user_id: i64, bet_time: Timestamp) -> Tables {
        if self.users.contains_key(user_id) && !self.bets.contains_key(user_id) {
            Tables { users: self.users, bets: self.bets.insert(user_id, bet_time) }
        } else {
            self
        }
    }

    /// The tables after the bets `times` were offered for `user_id` one
    /// after the other.
    pub open spec fn record_bets(self, user_id: i64, times: Seq<Timestamp>) -> Tables
        decreases times.len(),
    {
        if times.len() == 0 {
            self
        } else {
            self.record_bets(user_id, times.drop_last()).record_bet(user_id, times.last())
        }
    }

    /// Whether `rows` is the join of `bets` with `users`, in some order: one
    /// row for each outstanding bet, with the bet's instant and its owner's
    /// zone name.
    pub open spec fn joined_as(self, rows: Seq<JoinedBet>) -> bool {
        &&& forall|i: int|
            0 <= i < rows.len() ==> {
                let row = #[trigger] rows[i];
                &&& self.bets.contains_key(row.user_id)
                &&& self.users.contains_key(row.user_id)
                &&& row.bet_time == self.bets[row.user_id]
                &&& row.zone_name@ == self.users[row.user_id]
            }
        &&& forall|i: int, j: int|
            0 <= i < j < rows.len() ==> (#[trigger] rows[i]).user_id != (#[trigger] rows[j]).user_id
        &&& forall|id: i64|
            self.bets.contains_key(id) ==> exists|i: int|
                0 <= i < rows.len() && (#[trigger] rows[i]).user_id == id
    }
}

/// Each operation keeps referential integrity.
pub proof fn lemma_operations_keep_consistency(
    tables: Tables,
    user_id: i64,
    zone_name: Seq<char>,
    bet_time: Timestamp,
)
    requires
        tables.consistent(),
    ensures
        Tables::empty().consistent(),
        tables.upsert_timezone(user_id, zone_name).consistent(),
        tables.record_bet(user_id, bet_time).consistent(),
{
}

/// Registering a known zone keeps every registered zone known; bets do not
/// touch the registrations.
pub proof fn lemma_operations_keep_zones_known(
    tables: Tables,
    user_id: i64,
    zone_name: Seq<char>,
    bet_time: Timestamp,
)
    requires
        tables.zones_known(),
        known_zone(zone_name),
    ensures
        Tables::empty().zones_known(),
        tables.upsert_timezone(user_id, zone_name).zones_known(),
        tables.record_bet(user_id, bet_time).zones_known(),
{
}

/// At most one bet per user per round, and the first one wins: when a
/// registered user without a bet in this round is offered the bets `times`
/// in turn, the user ends with exactly the first of them, and nobody else's
/// row changes.
pub proof fn lemma_first_bet_wins(tables: Tables, user_id: i64, times: Seq<Timestamp>)
    requires
        tables.users.contains_key(user_id),
        !tables.bets.contains_key(user_id),
        times.len() > 0,
    ensures
        tables.record_bets(user_id, times) == tables.record_bet(user_id, times[0]),
        tables.record_bets(user_id, times).bets == tables.bets.insert(user_id, times[0]),
        tables.record_bets(user_id, times).users == tables.users,
    decreases times.len(),
{
    if times.len() == 1 {
        assert(times.drop_last().len() == 0);
        assert(tables.record_bets(user_id, times.drop_last()) == tables);
    } else {
        lemma_first_bet_wins(tables, user_id, times.drop_last());
        assert(times.drop_last()[0] == times[0]);
    }
}

/// Once a user has a bet, further bets of that user change nothing.
pub proof fn lemma_later_bets_ignored(tables: Tables, user_id: i64, times: Seq<Timestamp>)
    requires
        tables.bets.contains_key(user_id),
    ensures
        tables.record_bets(user_id, times) == tables,
    decreases times.len(),
{
    if times.len() > 0 {
        lemma_later_bets_ignored(tables, user_id, times.drop_last());
    }
}

/// The in-memory store. Its rows keep the keys unique and every bet tied to
/// a user.
pub struct Store {
    users: Vec<User>,
    bets: Vec<Bet>,
}

spec fn user_ids(rows: Seq<User>) -> Seq<i64> {
    Seq::new(rows.len(), |i: int| rows[i].id)
}

spec fn bet_ids(rows: Seq<Bet>) -> Seq<i64> {
    Seq::new(rows.len(), |i: int| rows[i].user_id)
}

spec fn users_table(rows: Seq<User>) -> Map<i64, Seq<char>> {
    Map::new(
        |id: i64| user_ids(rows).contains(id),
        |id: i64| rows[user_ids(rows).index_of(id)].timezone@,
    )
}

spec fn bets_table(rows: Seq<Bet>) -> Map<i64, Timestamp> {
    Map::new(
        |id: i64| bet_ids(rows).contains(id),
        |id: i64| rows[bet_ids(rows).index_of(id)].bet_time,
    )
}

proof fn lemma_index_of(ids: Seq<i64>, i: int)
    requires
        ids.no_duplicates(),
        0 <= i < ids.len(),
    ensures
        ids.contains(ids[i]),
        ids.index_of(ids[i]) == i,
{
    assert(ids.contains(ids[i]));
    let k = ids.index_of(ids[i]);
    assert(0 <= k < ids.len() && ids[k] == ids[i]);
}

proof fn lemma_push_id(ids: Seq<i64>, id: i64)
    requires
        ids.no_duplicates(),
        !ids.contains(id),
    ensures
        ids.push(id).no_duplicates(),
        forall|other: i64| ids.push(id).contains(other) <==> (other == id || ids.contains(other)),
{
    let grown = ids.push(id);
    assert forall|i: int, j: int|
        0 <= i < grown.len() && 0 <= j < grown.len() && i != j implies grown[i] != grown[j] by {
        if i < ids.len() {
            assert(ids.contains(grown[i]));
        }
        if j < ids.len() {
            assert(ids.contains(grown[j]));
        }
    }
    assert forall|other: i64| grown.contains(other) <==> (other == id || ids.contains(other)) by {
        if grown.contains(other) {
            let k = choose|k: int| 0 <= k < grown.len() && grown[k] == other;
            if k < ids.len() {
                assert(ids[k] == other);
            }
        }
        if ids.contains(other) {
            let k = choose|k: int| 0 <= k < ids.len() && ids[k] == other;
            assert(grown[k] == other);
        }
        if other == id {
            assert(grown[ids.len() as int] == other);
        }
    }
}

proof fn lemma_users_push(rows: Seq<User>, user: User)
    requires
        user_ids(rows).no_duplicates(),
        !user_ids(rows).contains(user.id),
    ensures
        user_ids(rows.push(user)) == user_ids(rows).push(user.id),
        user_ids(rows.push(user)).no_duplicates(),
        users_table(rows.push(user)) == users_table(rows).insert(user.id, user.timezone@),
{
    let ids = user_ids(rows);
    let grown = rows.push(user);
    assert(user_ids(grown) =~= ids.push(user.id));
    lemma_push_id(ids, user.id);
    assert forall|id: i64| user_ids(grown).contains(id) implies #[trigger] users_table(grown)[id]
        == users_table(rows).insert(user.id, user.timezone@)[id] by {
        let k = user_ids(grown).index_of(id);
        lemma_index_of(user_ids(grown), k);
        if id != user.id {
            let j = ids.index_of(id);
            lemma_index_of(ids, j);
            lemma_index_of(user_ids(grown), j);
        } else {
            lemma_index_of(user_ids(grown), rows.len() as int);
        }
    }
    assert(users_table(grown) =~= users_table(rows).insert(user.id, user.timezone@));
}

proof fn lemma_users_replace(rows: Seq<User>, i: int, user: User)
    requires
        user_ids(rows).no_duplicates(),
        0 <= i < rows.len(),
        rows[i].id == user.id,
    ensures
        user_ids(rows.update(i, user)) == user_ids(rows),
        users_table(rows.update(i, user)) == users_table(rows).insert(user.id, user.timezone@),
{
    let ids = user_ids(rows);
    let changed = rows.update(i, user);
    assert(user_ids(changed) =~= ids);
    lemma_index_of(ids, i);
    assert forall|id: i64| ids.contains(id) implies #[trigger] users_table(changed)[id]
        == users_table(rows).insert(user.id, user.timezone@)[id] by {
        let k = ids.index_of(id);
        lemma_index_of(ids, k);
    }
    assert(users_table(changed) =~= users_table(rows).insert(user.id, user.timezone@));
}

proof fn lemma_bets_push(rows: Seq<Bet>, bet: Bet)
    requires
        bet_ids(rows).no_duplicates(),
        !bet_ids(rows).contains(bet.user_id),
    ensures
        bet_ids(rows.push(bet)) == bet_ids(rows).push(bet.user_id),
        bet_ids(rows.push(bet)).no_duplicates(),
        bets_table(rows.push(bet)) == bets_table(rows).insert(bet.user_id, bet.bet_time),
{
    let ids = bet_ids(rows);
    let grown = rows.push(bet);
    assert(bet_ids(grown) =~= ids.push(bet.user_id));
    lemma_push_id(ids, bet.user_id);
    assert forall|id: i64| bet_ids(grown).contains(id) implies #[trigger] bets_table(grown)[id]
        == bets_table(rows).insert(bet.user_id, bet.bet_time)[id] by {
        let k = bet_ids(grown).index_of(id);
        lemma_index_of(bet_ids(grown), k);
        if id != bet.user_id {
            let j = ids.index_of(id);
            lemma_index_of(ids, j);
            lemma_index_of(bet_ids(grown), j);
        } else {
            lemma_index_of(bet_ids(grown), rows.len() as int);
        }
    }
    assert(bets_table(grown) =~= bets_table(rows).insert(bet.user_id, bet.bet_time));
}

/// The index of the row of `id` among `users`, if it has one.
fn user_position(users: &Vec<User>, id: i64) -> (r: Option<usize>)
    ensures
        r matches Some(i) ==> i < users.len() && users[i as int].id == id,
        r is None ==> !user_ids(users@).contains(id),
{
    let mut i: usize = 0;
    while i < users.len()
        invariant
            i <= users.len(),
            forall|k: int| 0 <= k < i ==> users[k].id != id,
        decreases users.len() - i,
    {
        if users[i].id == id {
            return Some(i);
        }
        i += 1;
    }
    None
}

/// The index of the bet of `id` among `bets`, if it has one.
fn bet_position(bets: &Vec<Bet>, id: i64) -> (r: Option<usize>)
    ensures
        r matches Some(i) ==> i < bets.len() && bets[i as int].user_id == id,
        r is None ==> !bet_ids(bets@).contains(id),
{
    let mut i: usize = 0;
    while i < bets.len()
        invariant
            i <= bets.len(),
            forall|k: int| 0 <= k < i ==> bets[k].user_id != id,
        decreases bets.len() - i,
    {
        if bets[i].user_id == id {
            return Some(i);
        }
        i += 1;
    }
    None
}

impl View for Store {
    type V = Tables;

    closed spec fn view(&self) -> Tables {
        Tables { users: users_table(self.users@), bets: bets_table(self.bets@) }
    }
}

impl Store {
    #[verifier::type_invariant]
    spec fn well_formed(self) -> bool {
        &&& user_ids(self.users@).no_duplicates()
        &&& bet_ids(self.bets@).no_duplicates()
        &&& forall|id: i64| bet_ids(self.bets@).contains(id) ==> user_ids(self.users@).contains(id)
    }

    /// A store with both tables empty.
    pub fn new() -> (store: Store)
        ensures
            store@ == Tables::empty(),
    {
        let store = Store { users: Vec::new(), bets: Vec::new() };
        assert(store@.users =~= Map::empty());
        assert(store@.bets =~= Map::empty());
        store
    }

    /// Whether both tables are empty.
    pub fn is_empty(&self) -> (r: bool)
        ensures
            r == (self@ == Tables::empty()),
    {
        proof {
            use_type_invariant(self);
            if self.users.len() > 0 {
                lemma_index_of(user_ids(self.users@), 0);
                assert(self@.users.contains_key(self.users[0].id));
            } else {
                assert(self@.users =~= Map::empty());
                if self.bets.len() > 0 {
                    lemma_index_of(bet_ids(self.bets@), 0);
                }
                assert(self@.bets =~= Map::empty());
            }
        }
        self.users.len() == 0
    }
}

/// Moves the rows out of the store, which is left empty.
fn take_rows(pool: &mut Store) -> (rows: (Vec<User>, Vec<Bet>))
    ensures
        users_table(rows.0@) == old(pool)@.users,
        bets_table(rows.1@) == old(pool)@.bets,
        user_ids(rows.0@).no_duplicates(),
        bet_ids(rows.1@).no_duplicates(),
        forall|id: i64| bet_ids(rows.1@).contains(id) ==> user_ids(rows.0@).contains(id),
        final(pool)@ == Tables::empty(),
{
    let mut held = Store::new();
    core::mem::swap(pool, &mut held);
    proof {
        use_type_invariant(&held);
    }
    let Store { users, bets } = held;
    (users, bets)
}

/// The zone registered for `user_id`, if any. A stored name that the zone
/// database does not know is reported, never replaced.
pub fn get_timezone(user_id: i64, pool: &Store) -> (r: Result<Option<Zone>, StoreError>)
    ensures
        match r {
            Ok(None) => !pool@.users.contains_key(user_id),
            Ok(Some(zone)) => {
                &&& pool@.users.contains_key(user_id)
                &&& zone@ == pool@.users[user_id]
                &&& known_zone(zone@)
            },
            Err(e) => {
                &&& e == StoreError::CorruptTimezone
                &&& pool@.users.contains_key(user_id)
                &&& !known_zone(pool@.users[user_id])
            },
        },
{
    proof {
        use_type_invariant(pool);
    }
    match user_position(&pool.users, user_id) {
        None => Ok(None),
        Some(i) => {
            proof {
                lemma_index_of(user_ids(pool.users@), i as int);
            }
            match Zone::parse(pool.users[i].timezone.as_str()) {
                Ok(zone) => Ok(Some(zone)),
                Err(_) => Err(StoreError::CorruptTimezone),
            }
        },
    }
}

/// Registers `zone_name` for `user_id`, in place of an earlier registration
/// if there is one. The name is stored as given: validating it is the
/// caller's part.
pub fn upsert_timezone(user_id: i64, zone_name: &str, pool: &mut Store)
    ensures
        final(pool)@ == old(pool)@.upsert_timezone(user_id, zone_name@),
        final(pool)@.consistent(),
{
    let (mut users, bets) = take_rows(pool);
    let user = User { id: user_id, timezone: zone_name.to_owned() };
    match user_position(&users, user_id) {
        Some(i) => {
            proof {
                lemma_users_replace(users@, i as int, user);
            }
            users[i] = user;
        },
        None => {
            proof {
                lemma_users_push(users@, user);
                lemma_push_id(user_ids(users@), user_id);
            }
            users.push(user);
        },
    }
    *pool = Store { users, bets };
}

/// Records a bet of `user_id` at `bet_time`, unless the user already has one
/// in this round: then nothing changes. A user without a row in `users`
/// cannot bet.
pub fn record_bet(user_id: i64, bet_time: Timestamp, pool: &mut Store) -> (r: Result<
    (),
    StoreError,
>)
    ensures
        final(pool)@ == old(pool)@.record_bet(user_id, bet_time),
        final(pool)@.consistent(),
        r is Ok <==> old(pool)@.users.contains_key(user_id),
        r is Err ==> r == Err::<(), StoreError>(StoreError::UnknownUser),
{
    let (users, mut bets) = take_rows(pool);
    let found = user_position(&users, user_id);
    if let Some(i) = found {
        proof {
            lemma_index_of(user_ids(users@), i as int);
        }
        match bet_position(&bets, user_id) {
            Some(j) => {
                proof {
                    lemma_index_of(bet_ids(bets@), j as int);
                }
            },
            None => {
                let bet = Bet { user_id, bet_time };
                proof {
                    lemma_bets_push(bets@, bet);
                    lemma_push_id(bet_ids(bets@), user_id);
                }
                bets.push(bet);
            },
        }
    }
    *pool = Store { users, bets };
    match found {
        Some(_) => Ok(()),
        None => Err(StoreError::UnknownUser),
    }
}

/// All outstanding bets, each joined with its owner's zone name. The order
/// of the rows carries no meaning.
pub fn fetch_all_bets_joined(pool: &Store) -> (rows: Vec<JoinedBet>)
    ensures
        pool@.joined_as(rows@),
{
    proof {
        use_type_invariant(pool);
    }
    let mut rows: Vec<JoinedBet> = Vec::new();
    let mut i: usize = 0;
    while i < pool.bets.len()
        invariant
            i <= pool.bets.len(),
            rows.len() == i,
            user_ids(pool.users@).no_duplicates(),
            bet_ids(pool.bets@).no_duplicates(),
            forall|id: i64|
                bet_ids(pool.bets@).contains(id) ==> user_ids(pool.users@).contains(id),
            forall|k: int|
                0 <= k < i ==> {
                    let row = #[trigger] rows[k];
                    &&& row.user_id == pool.bets[k].user_id
                    &&& row.bet_time == pool.bets[k].bet_time
                    &&& pool@.users.contains_key(row.user_id)
                    &&& row.zone_name@ == pool@.users[row.user_id]
                },
        decreases pool.bets.len() - i,
    {
        let bet = pool.bets[i];
        proof {
            lemma_index_of(bet_ids(pool.bets@), i as int);
        }
        match user_position(&pool.users, bet.user_id) {
            Some(p) => {
                proof {
                    lemma_index_of(user_ids(pool.users@), p as int);
                }
                rows.push(
                    JoinedBet {
                        user_id: bet.user_id,
                        bet_time: bet.bet_time,
                        zone_name: pool.users[p].timezone.clone(),
                    },
                );
            },
            None => {
                unreached::<()>();
            },
        }
        i += 1;
    }
    proof {
        let ids = bet_ids(pool.bets@);
        assert forall|k: int| 0 <= k < rows.len() implies {
            let row = #[trigger] rows[k];
            &&& pool@.bets.contains_key(row.user_id)
            &&& row.bet_time == pool@.bets[row.user_id]
        } by {
            lemma_index_of(ids, k);
        }
        assert forall|a: int, b: int| 0 <= a < b < rows.len() implies (#[trigger] rows[a]).user_id
            != (#[trigger] rows[b]).user_id by {
            assert(ids[a] != ids[b]);
        }
        assert forall|id: i64| pool@.bets.contains_key(id) implies exists|k: int|
            0 <= k < rows.len() && (#[trigger] rows[k]).user_id == id by {
            let k = ids.index_of(id);
            assert(rows[k].user_id == id);
        }
    }
    rows
}

/// Deletes every user, and with them every bet: the next round starts from
/// an empty registry.
pub fn reset_round(pool: &mut Store)
    ensures
        final(pool)@ == Tables::empty(),
{
    let emptied = Store::new();
    *pool = emptied;
}

} // verus!
