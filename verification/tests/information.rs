use prediction_market_event::{Empty, Error, Event, Information, V1};

fn xs(n: usize) -> String {
    std::iter::repeat('x').take(n).collect::<String>()
}

fn v1(title: usize, description: usize, outcome_titles: [usize; 3]) -> Information {
    Information::V1(V1 {
        title: xs(title),
        description: xs(description),
        outcome_titles: vec![
            xs(outcome_titles[0]),
            xs(outcome_titles[1]),
            xs(outcome_titles[2]),
        ],
        expected_payout_unix_seconds: 0,
    })
}

#[test]
fn information_none_1() {
    let event = Event::new_with_random_nonce(3, 1, Information::Empty);

    let res = event.validate(&[Empty::ID]);
    assert!(matches!(res, Ok(())));
}

#[test]
fn information_v1_1() {
    let event = Event::new_with_random_nonce(3, 1, v1(256, 10 * 1024, [64, 64, 64]));

    let res = event.validate(&[V1::ID]);
    assert!(matches!(res, Ok(())));
}

#[test]
fn information_v1_too_many_outcome_titles() {
    let event = Event::new_with_random_nonce(2, 1, v1(256, 10 * 1024, [64, 64, 64]));

    let res = event.validate(&[V1::ID]);
    assert!(matches!(res, Err(Error::Validation(_))));
    println!("{res:?}");
}

#[test]
fn information_v1_not_enough_outcome_titles() {
    let event = Event::new_with_random_nonce(4, 1, v1(256, 10 * 1024, [64, 64, 64]));

    let res = event.validate(&[V1::ID]);
    assert!(matches!(res, Err(Error::Validation(_))));
    println!("{res:?}");
}

#[test]
fn information_v1_title_too_long() {
    let event = Event::new_with_random_nonce(3, 1, v1(256 + 1, 10 * 1024, [64, 64, 64]));

    let res = event.validate(&[V1::ID]);
    assert!(matches!(res, Err(Error::Validation(_))));
    println!("{res:?}");
}

#[test]
fn information_v1_description_too_long() {
    let event = Event::new_with_random_nonce(3, 1, v1(256, 10 * 1024 + 1, [64, 64, 64]));

    let res = event.validate(&[V1::ID]);
    assert!(matches!(res, Err(Error::Validation(_))));
    println!("{res:?}");
}

#[test]
fn information_v1_outcome_title_too_long() {
    let event = Event::new_with_random_nonce(3, 1, v1(256, 10 * 1024, [64, 64 + 1, 64]));

    let res = event.validate(&[V1::ID]);
    assert!(matches!(res, Err(Error::Validation(_))));
    println!("{res:?}");
}
