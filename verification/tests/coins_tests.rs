use ica_registry::coins::Coin;
use ica_registry::coins::Coins;
use ica_registry::errors::Error;

fn coin(denom: &str, amount: u128) -> Coin {
    Coin { denom: denom.to_string(), amount }
}

#[test]
fn empty_is_empty() {
    let c = Coins::empty();
    assert!(c.is_empty());
}

#[test]
fn add_positive_makes_nonempty() {
    let mut c = Coins::empty();
    c.add(coin("uosmo", 1)).unwrap();
    assert!(!c.is_empty());
}

#[test]
fn add_zero_amount_still_records_denom() {
    let mut c = Coins::empty();
    c.add(coin("uatom", 0)).unwrap();
    assert!(!c.is_empty());
    assert_eq!(c.to_vec(), vec![coin("uatom", 0)]);
}

#[test]
fn add_sums_duplicate_denominations() {
    let mut c = Coins::empty();
    c.add(coin("uosmo", 10)).unwrap();
    c.add(coin("uatom", 5)).unwrap();
    c.add(coin("uosmo", 7)).unwrap();
    assert_eq!(c.to_vec(), vec![coin("uatom", 5), coin("uosmo", 17)]);
}

#[test]
fn to_vec_is_sorted_ascending() {
    let mut c = Coins::empty();
    c.add(coin("zeta", 1)).unwrap();
    c.add(coin("alpha", 2)).unwrap();
    c.add(coin("mid", 3)).unwrap();
    let v = c.to_vec();
    assert_eq!(
        v,
        vec![coin("alpha", 2), coin("mid", 3), coin("zeta", 1)]
    );
}

#[test]
fn add_overflow_fails_and_leaves_aggregate_unchanged() {
    let mut c = Coins::empty();
    c.add(coin("uatom", u128::MAX)).unwrap();
    let err = c.add(coin("uatom", 1)).unwrap_err();
    assert_eq!(err, Error::Overflow);
    assert_eq!(c.to_vec(), vec![coin("uatom", u128::MAX)]);
}

#[test]
fn add_overflow_does_not_touch_other_denoms() {
    let mut c = Coins::empty();
    c.add(coin("uatom", u128::MAX)).unwrap();
    c.add(coin("uosmo", 3)).unwrap();
    let err = c.add(coin("uatom", 5)).unwrap_err();
    assert_eq!(err, Error::Overflow);
    assert_eq!(c.to_vec(), vec![coin("uatom", u128::MAX), coin("uosmo", 3)]);
}

#[test]
fn add_up_to_exact_max_succeeds() {
    let mut c = Coins::empty();
    c.add(coin("uatom", u128::MAX - 4)).unwrap();
    c.add(coin("uatom", 4)).unwrap();
    assert_eq!(c.to_vec(), vec![coin("uatom", u128::MAX)]);
}

#[test]
fn from_trusted_unchecked_overwrites_duplicates() {
    let c = Coins::from_trusted_unchecked(vec![
        coin("uatom", 1),
        coin("uosmo", 3),
        coin("uatom", 9),
    ]);
    assert_eq!(c.to_vec(), vec![coin("uatom", 9), coin("uosmo", 3)]);
}

#[test]
fn from_trusted_unchecked_keeps_zero_amounts() {
    let c = Coins::from_trusted_unchecked(vec![coin("uion", 0)]);
    assert!(!c.is_empty());
    assert_eq!(c.to_vec(), vec![coin("uion", 0)]);
}

#[test]
fn render_empty_is_brackets() {
    let c = Coins::empty();
    assert_eq!(c.render(), "[]");
}

#[test]
fn render_joins_entries_in_order() {
    let mut c = Coins::empty();
    c.add(coin("uosmo", 10)).unwrap();
    c.add(coin("atom", 5)).unwrap();
    assert_eq!(c.render(), "5atom,10uosmo");
}

#[test]
fn render_multi_digit_amounts() {
    let mut c = Coins::empty();
    c.add(coin("b", 120)).unwrap();
    c.add(coin("a", 0)).unwrap();
    assert_eq!(c.render(), "0a,120b");
}
