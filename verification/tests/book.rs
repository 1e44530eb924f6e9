use fastbook::orderbook;
use fastbook::Deallocated;

fn bits(q: f64) -> u64 {
    q.to_bits()
}

fn qty(b: u64) -> f64 {
    f64::from_bits(b)
}

#[test]
fn scenario_bids() {
    let (mut w, r) = orderbook();
    w.update_bids(&[(100, bits(1.5)), (101, bits(2.0))]);
    let (best, _) = r.best_bid();
    assert_eq!(best, Ok(Some((101, bits(2.0)))));
    assert_eq!(qty(best.unwrap().unwrap().1), 2.0);
    w.update_bids(&[(101, bits(0.0))]);
    let (best, _) = r.best_bid();
    assert_eq!(best, Ok(Some((100, bits(1.5)))));
    assert_eq!(qty(best.unwrap().unwrap().1), 1.5);
}

#[test]
fn scenario_asks() {
    let (mut w, r) = orderbook();
    w.update_asks(&[(100, bits(1.5)), (99, bits(2.0))]);
    let (best, _) = r.best_ask();
    assert_eq!(best, Ok(Some((99, bits(2.0)))));
    assert_eq!(qty(best.unwrap().unwrap().1), 2.0);
}

#[test]
fn fresh_book_is_empty() {
    let (_w, r) = orderbook();
    let (bid, _) = r.best_bid();
    let (ask, _) = r.best_ask();
    assert_eq!(bid, Ok(None));
    assert_eq!(ask, Ok(None));
}

#[test]
fn overwrite_is_whole_pattern() {
    let (mut w, r) = orderbook();
    w.update_bids(&[(100, bits(1.0))]);
    let (best, _) = r.best_bid();
    let seen = best.unwrap().unwrap().1;
    assert!(seen == bits(1.0) || seen == bits(3.0));
    assert_eq!(qty(seen), 1.0);
    w.update_bids(&[(100, bits(3.0))]);
    let (best, _) = r.best_bid();
    let seen = best.unwrap().unwrap().1;
    assert!(seen == bits(1.0) || seen == bits(3.0));
    assert_eq!(qty(seen), 3.0);
}

#[test]
fn last_write_wins_in_one_batch() {
    let (mut w, r) = orderbook();
    w.update_bids(&[(100, bits(1.0)), (100, bits(2.0)), (100, bits(7.25))]);
    let (best, _) = r.best_bid();
    assert_eq!(best, Ok(Some((100, bits(7.25)))));
}

#[test]
fn zero_removes_level() {
    let (mut w, r) = orderbook();
    w.update_bids(&[(100, bits(1.0)), (101, bits(2.0)), (101, bits(0.0))]);
    let (best, _) = r.best_bid();
    assert_eq!(best, Ok(Some((100, bits(1.0)))));
    w.update_bids(&[(100, bits(0.0))]);
    let (best, _) = r.best_bid();
    assert_eq!(best, Ok(None));
}

#[test]
fn negative_zero_also_removes() {
    let (mut w, r) = orderbook();
    w.update_asks(&[(100, bits(1.5))]);
    w.update_asks(&[(100, bits(-0.0))]);
    let (best, _) = r.best_ask();
    assert_eq!(best, Ok(None));
}

#[test]
fn removing_absent_level_is_noop() {
    let (mut w, r) = orderbook();
    w.update_bids(&[(100, bits(0.0))]);
    let (best, _) = r.best_bid();
    assert_eq!(best, Ok(None));
    w.update_bids(&[(42, bits(1.0))]);
    w.update_bids(&[(100, bits(0.0))]);
    let (best, _) = r.best_bid();
    assert_eq!(best, Ok(Some((42, bits(1.0)))));
}

#[test]
fn sides_are_independent() {
    let (mut w, r) = orderbook();
    w.update_bids(&[(100, bits(1.0))]);
    let (ask, _) = r.best_ask();
    assert_eq!(ask, Ok(None));
    w.update_asks(&[(200, bits(2.0))]);
    w.update_bids(&[(100, bits(0.0))]);
    let (ask, _) = r.best_ask();
    assert_eq!(ask, Ok(Some((200, bits(2.0)))));
}

#[test]
fn release_makes_queries_fail() {
    let (mut w, r) = orderbook();
    w.update_bids(&[(100, bits(1.0))]);
    let r2 = r.clone();
    w.release();
    let (bid, _) = r.best_bid();
    let (ask, _) = r.best_ask();
    assert_eq!(bid, Err(Deallocated));
    assert_eq!(ask, Err(Deallocated));
    let (bid2, _) = r2.best_bid();
    assert_eq!(bid2, Err(Deallocated));
    let r3 = r2.clone();
    let (bid3, _) = r3.best_bid();
    assert_eq!(bid3, Err(Deallocated));
}

#[test]
fn clones_share_the_book_and_dropping_them_changes_nothing() {
    let (mut w, r) = orderbook();
    w.update_bids(&[(100, bits(1.5))]);
    let r2 = r.clone();
    let r3 = r2.clone();
    let (b1, _) = r.best_bid();
    let (b2, _) = r2.best_bid();
    let (b3, _) = r3.best_bid();
    assert_eq!(b1, Ok(Some((100, bits(1.5)))));
    assert_eq!(b2, b1);
    assert_eq!(b3, b1);
    drop(r);
    drop(r2);
    let (b3, _) = r3.best_bid();
    assert_eq!(b3, Ok(Some((100, bits(1.5)))));
    w.update_bids(&[(101, bits(2.5))]);
    let (b3, _) = r3.best_bid();
    assert_eq!(b3, Ok(Some((101, bits(2.5)))));
}

#[test]
fn split_batches_equal_one_batch() {
    let (mut w1, r1) = orderbook();
    let (mut w2, r2) = orderbook();
    let all: Vec<(u64, u64)> = vec![
        (100, bits(1.0)),
        (101, bits(2.0)),
        (100, bits(0.0)),
        (102, bits(3.0)),
        (101, bits(4.5)),
    ];
    w1.update_bids(&all);
    w2.update_bids(&all[..2]);
    w2.update_bids(&all[2..]);
    let (b1, _) = r1.best_bid();
    let (b2, _) = r2.best_bid();
    assert_eq!(b1, b2);
    assert_eq!(b1, Ok(Some((102, bits(3.0)))));
}

#[test]
fn mixed_sequence_exact_outcome() {
    let (mut w, r) = orderbook();
    w.update_asks(&[
        (50, bits(1.0)),
        (40, bits(2.0)),
        (60, bits(3.0)),
        (40, bits(0.0)),
        (45, bits(2.5)),
        (45, bits(6.75)),
        (50, bits(0.0)),
    ]);
    let (ask, _) = r.best_ask();
    assert_eq!(ask, Ok(Some((45, bits(6.75)))));
    assert_eq!(f64::from_bits(ask.unwrap().unwrap().1), 6.75);
}

#[test]
fn bid_is_maximum_ask_is_minimum() {
    let (mut w, r) = orderbook();
    let levels: Vec<(u64, u64)> = vec![
        (105, bits(1.0)),
        (90, bits(2.0)),
        (140, bits(3.0)),
        (101, bits(4.0)),
        (125, bits(5.0)),
    ];
    w.update_bids(&levels);
    w.update_asks(&levels);
    let (bid, _) = r.best_bid();
    let (ask, _) = r.best_ask();
    assert_eq!(bid, Ok(Some((140, bits(3.0)))));
    assert_eq!(ask, Ok(Some((90, bits(2.0)))));
}
