use node_viewer::status::{aggregate_status, is_alert, StatCode};

#[test]
fn aggregate_reports_the_most_severe_status() {
    assert_eq!(
        aggregate_status(&[StatCode::Warning, StatCode::Okay, StatCode::Ng, StatCode::Warning]),
        StatCode::Ng
    );
    assert_eq!(aggregate_status(&[StatCode::Warning, StatCode::Okay]), StatCode::Warning);
    assert_eq!(aggregate_status(&[StatCode::Okay, StatCode::Okay]), StatCode::Okay);
}

#[test]
fn aggregate_of_nothing_is_okay() {
    assert_eq!(aggregate_status(&[]), StatCode::Okay);
}

#[test]
fn aggregate_of_one_status_is_that_status() {
    assert_eq!(aggregate_status(&[StatCode::Okay]), StatCode::Okay);
    assert_eq!(aggregate_status(&[StatCode::Warning]), StatCode::Warning);
    assert_eq!(aggregate_status(&[StatCode::Ng]), StatCode::Ng);
}

#[test]
fn aggregate_ng_wins_wherever_it_stands() {
    assert_eq!(aggregate_status(&[StatCode::Ng, StatCode::Okay, StatCode::Warning]), StatCode::Ng);
    assert_eq!(aggregate_status(&[StatCode::Okay, StatCode::Ng, StatCode::Warning]), StatCode::Ng);
    assert_eq!(aggregate_status(&[StatCode::Okay, StatCode::Warning, StatCode::Ng]), StatCode::Ng);
}

#[test]
fn aggregate_is_the_same_for_every_order() {
    let base = [StatCode::Warning, StatCode::Okay, StatCode::Ng];
    let orders: [[usize; 3]; 6] =
        [[0, 1, 2], [0, 2, 1], [1, 0, 2], [1, 2, 0], [2, 0, 1], [2, 1, 0]];
    for order in orders {
        let permuted = [base[order[0]], base[order[1]], base[order[2]]];
        assert_eq!(aggregate_status(&permuted), StatCode::Ng);
    }
    let mild = [StatCode::Okay, StatCode::Warning, StatCode::Okay];
    for order in orders {
        let permuted = [mild[order[0]], mild[order[1]], mild[order[2]]];
        assert_eq!(aggregate_status(&permuted), StatCode::Warning);
    }
}

#[test]
fn aggregate_is_an_element_no_less_severe_than_any_other() {
    let rank = |s: StatCode| -> u8 {
        match s {
            StatCode::Okay => 0,
            StatCode::Warning => 1,
            StatCode::Ng => 2,
        }
    };
    let all = [StatCode::Okay, StatCode::Warning, StatCode::Ng];
    for a in all {
        for b in all {
            for c in all {
                let input = [a, b, c];
                let result = aggregate_status(&input);
                assert!(input.contains(&result));
                for s in input {
                    assert!(rank(s) <= rank(result));
                }
            }
        }
    }
}

#[test]
fn alert_is_anything_but_okay() {
    assert!(!is_alert(&StatCode::Okay));
    assert!(is_alert(&StatCode::Warning));
    assert!(is_alert(&StatCode::Ng));
}
