use first_bot::clock::Timestamp;
use first_bot::commands::{change_timezone, on_message, Data, Message};
use first_bot::daily::{
    daily_winner, pick_winner, run, score, score_all, winner_notice, DailyError, Delivery, Round,
    Score,
};
use first_bot::db::{fetch_all_bets_joined, upsert_timezone, JoinedBet};

const A: i64 = 1;
const B: i64 = 2;

fn bet(user_id: i64, secs: i64, zone: &str) -> JoinedBet {
    JoinedBet { user_id, bet_time: Timestamp { secs, nanos: 0 }, zone_name: zone.to_string() }
}

fn say_first(data: &mut Data, author: u64, secs: i64) {
    let message = Message { author, content: "first".to_string() };
    on_message(&message, data, Timestamp { secs, nanos: 0 }).unwrap();
}

#[test]
fn earlier_in_the_day_wins() {
    // A at 2024-01-01T00:10:00Z, B at 2024-01-01T00:05:00Z, both in UTC.
    let rows = vec![bet(A, 1_704_067_800, "UTC"), bet(B, 1_704_067_500, "UTC")];
    assert_eq!(
        score_all(&rows),
        Ok(vec![Score { user_id: A, offset: 600 }, Score { user_id: B, offset: 300 }])
    );
    assert_eq!(daily_winner(&rows), Ok(Some(Score { user_id: B, offset: 300 })));
}

#[test]
fn each_bet_counts_in_its_own_zone() {
    // A at 2024-01-01T23:00:00Z in London, B at 2024-01-01T08:30:00Z in Tokyo.
    let rows = vec![bet(A, 1_704_150_000, "Europe/London"), bet(B, 1_704_097_800, "Asia/Tokyo")];
    assert_eq!(score(&rows[0]), Ok(Score { user_id: A, offset: 82_800 }));
    assert_eq!(score(&rows[1]), Ok(Score { user_id: B, offset: 63_000 }));
    assert_eq!(daily_winner(&rows), Ok(Some(Score { user_id: B, offset: 63_000 })));
}

#[test]
fn the_later_instant_can_win() {
    // Tokyo bets at 15:00:10Z, ten seconds into its day; London bet at 00:01:00Z, a minute into its.
    let rows = vec![bet(A, 1_704_067_260, "Europe/London"), bet(B, 1_704_121_210, "Asia/Tokyo")];
    assert_eq!(daily_winner(&rows), Ok(Some(Score { user_id: B, offset: 10 })));
}

#[test]
fn no_bets_no_winner() {
    assert_eq!(daily_winner(&Vec::new()), Ok(None));
    assert_eq!(score_all(&Vec::new()), Ok(Vec::new()));
    assert_eq!(pick_winner(&Vec::new()), None);
}

#[test]
fn a_single_bet_wins() {
    let rows = vec![bet(A, 1_704_067_800, "UTC")];
    assert_eq!(daily_winner(&rows), Ok(Some(Score { user_id: A, offset: 600 })));
}

#[test]
fn equal_offsets_go_to_the_smaller_id() {
    let scores = vec![
        Score { user_id: 9, offset: 40 },
        Score { user_id: 3, offset: 40 },
        Score { user_id: 5, offset: 40 },
        Score { user_id: 1, offset: 41 },
    ];
    assert_eq!(pick_winner(&scores), Some(Score { user_id: 3, offset: 40 }));
    let rows = vec![bet(7, 1_704_067_500, "UTC"), bet(4, 1_704_121_500, "Asia/Tokyo")];
    assert_eq!(daily_winner(&rows), Ok(Some(Score { user_id: 4, offset: 300 })));
}

#[test]
fn pick_winner_takes_the_smallest_offset() {
    let scores = vec![
        Score { user_id: 1, offset: 5 },
        Score { user_id: 2, offset: -3 },
        Score { user_id: 3, offset: 0 },
    ];
    assert_eq!(pick_winner(&scores), Some(Score { user_id: 2, offset: -3 }));
}

#[test]
fn an_unknown_zone_stops_the_scoring() {
    let rows = vec![bet(A, 1_704_067_800, "UTC"), bet(B, 1_704_067_500, "Atlantis/Deep")];
    assert_eq!(score(&rows[1]), Err(DailyError::UnknownZone { user_id: B }));
    assert_eq!(score_all(&rows), Err(DailyError::UnknownZone { user_id: B }));
    assert_eq!(daily_winner(&rows), Err(DailyError::UnknownZone { user_id: B }));
}

#[test]
fn a_day_without_a_start_stops_the_scoring() {
    // 2018-11-04 in Sao Paulo began at 01:00.
    let rows = vec![bet(A, 1_541_340_000, "America/Sao_Paulo"), bet(B, 1_704_067_500, "UTC")];
    assert_eq!(daily_winner(&rows), Err(DailyError::NoLocalDay { user_id: A }));
    let rows = vec![bet(A, i64::MAX, "UTC")];
    assert_eq!(daily_winner(&rows), Err(DailyError::NoLocalDay { user_id: A }));
}

#[test]
fn the_first_bad_row_is_the_one_reported() {
    let rows = vec![
        bet(A, 1_704_067_800, "UTC"),
        bet(B, 1_541_340_000, "America/Sao_Paulo"),
        bet(3, 1_704_067_500, "Atlantis/Deep"),
    ];
    assert_eq!(daily_winner(&rows), Err(DailyError::NoLocalDay { user_id: B }));
}

#[test]
fn the_winner_is_told_that_they_won() {
    assert_eq!(winner_notice(), "You won!");
}

#[test]
fn round_of_alice_and_bob() {
    let mut data = Data::new();
    change_timezone(&mut data, 11, "America/New_York").unwrap();
    change_timezone(&mut data, 22, "Asia/Tokyo").unwrap();
    // Alice at 2024-06-01T04:00:30Z, Bob at 2024-06-01T00:01:00Z.
    say_first(&mut data, 11, 1_717_214_430);
    say_first(&mut data, 22, 1_717_200_060);
    assert_eq!(run(&mut data, Delivery::Delivered), Ok(Round::Won(Score { user_id: 11, offset: 30 })));
    assert!(data.pool.is_empty());
    assert!(fetch_all_bets_joined(&data.pool).is_empty());
}

#[test]
fn round_without_bets_ends_without_reset() {
    let mut data = Data::new();
    change_timezone(&mut data, 11, "America/New_York").unwrap();
    assert_eq!(run(&mut data, Delivery::Delivered), Ok(Round::NoBets));
    assert_eq!(run(&mut data, Delivery::Failed), Ok(Round::NoBets));
    assert!(!data.pool.is_empty());
    let mut empty = Data::new();
    assert_eq!(run(&mut empty, Delivery::Delivered), Ok(Round::NoBets));
    assert!(empty.pool.is_empty());
}

#[test]
fn round_with_a_corrupt_zone_is_not_reset() {
    let mut data = Data::new();
    change_timezone(&mut data, 11, "America/New_York").unwrap();
    say_first(&mut data, 11, 1_717_214_430);
    upsert_timezone(33, "UTC", &mut data.pool);
    say_first(&mut data, 33, 1_717_200_060);
    upsert_timezone(33, "Not/AZone", &mut data.pool);
    let before = fetch_all_bets_joined(&data.pool);
    assert_eq!(run(&mut data, Delivery::Delivered), Err(DailyError::UnknownZone { user_id: 33 }));
    assert_eq!(fetch_all_bets_joined(&data.pool), before);
    assert_eq!(before.len(), 2);
}

#[test]
fn round_is_kept_when_the_winner_cannot_be_told() {
    let mut data = Data::new();
    change_timezone(&mut data, 11, "America/New_York").unwrap();
    say_first(&mut data, 11, 1_717_214_430);
    let winner = Score { user_id: 11, offset: 30 };
    assert_eq!(run(&mut data, Delivery::Failed), Err(DailyError::NotDelivered { winner }));
    assert_eq!(fetch_all_bets_joined(&data.pool).len(), 1);
    assert_eq!(run(&mut data, Delivery::Delivered), Ok(Round::Won(winner)));
    assert!(data.pool.is_empty());
}

#[test]
fn corrupt_zone_of_a_user_without_a_bet_does_not_matter() {
    let mut data = Data::new();
    change_timezone(&mut data, 11, "UTC").unwrap();
    say_first(&mut data, 11, 1_704_067_500);
    upsert_timezone(33, "Not/AZone", &mut data.pool);
    assert_eq!(run(&mut data, Delivery::Delivered), Ok(Round::Won(Score { user_id: 11, offset: 300 })));
    assert!(data.pool.is_empty());
}
