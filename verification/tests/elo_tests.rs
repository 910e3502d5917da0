use elo::elo;
use elo::expected_score;
use elo::EloConfig;
use elo::EloRating;
use elo::Outcomes;

#[test]
fn test_elo() {
    let (winner_new_elo, loser_new_elo) = elo(
        &EloRating { rating: 1000 },
        &EloRating { rating: 1000 },
        &Outcomes::WIN,
        &EloConfig::new(),
    );
    assert!(winner_new_elo.rating == 1016);
    assert!(loser_new_elo.rating == 984);

    let (winner_new_elo, loser_new_elo) = elo(
        &EloRating { rating: 1000 },
        &EloRating { rating: 1000 },
        &Outcomes::LOSS,
        &EloConfig::new(),
    );
    assert!(winner_new_elo.rating == 984);
    assert!(loser_new_elo.rating == 1016);

    let (winner_new_elo, loser_new_elo) = elo(
        &EloRating { rating: 1000 },
        &EloRating { rating: 1000 },
        &Outcomes::DRAW,
        &EloConfig::new(),
    );
    assert!(winner_new_elo.rating == 1000);
    assert!(loser_new_elo.rating == 1000);

    let (winner_new_elo, loser_new_elo) = elo(
        &EloRating { rating: 500 },
        &EloRating { rating: 1500 },
        &Outcomes::WIN,
        &EloConfig::default(),
    );
    assert!(winner_new_elo.rating == 531);
    assert!(loser_new_elo.rating == 1469);
}

#[test]
fn test_expected_score() {
    let player_one = EloRating::new();
    let player_two = EloRating::default();

    let winner_expected = expected_score(&player_one, &player_two);

    assert!(((winner_expected * 100) >> 10) == 50);
    // loser: 50%

    let player_one = EloRating { rating: 2251 };
    let player_two = EloRating { rating: 1934 };

    let winner_expected = expected_score(&player_one, &player_two);

    assert!(((winner_expected * 100) >> 10) == 86);
    // loser: 14%
}

#[test]
fn test_misc_stuff() {
    let player_one = EloRating::new();
    let config = EloConfig::new();

    assert_eq!(player_one, player_one.clone());
    assert!(config.k == config.clone().k);

    assert!(!format!("{player_one:?}").is_empty());
    assert!(!format!("{config:?}").is_empty());

    assert_eq!(player_one, EloRating::from(1000));
}

#[test]
fn test_zero_sum_conservation() {
    let pairs = [(1000u64, 1000u64), (500, 1500), (1500, 500), (2251, 1934), (5000, 10000)];
    let outcomes = [Outcomes::WIN, Outcomes::LOSS, Outcomes::DRAW];
    let config = EloConfig::new();
    for &(r1, r2) in pairs.iter() {
        for outcome in outcomes.iter() {
            let (one, two) = elo(
                &EloRating { rating: r1 },
                &EloRating { rating: r2 },
                outcome,
                &config,
            );
            assert_eq!(one.rating + two.rating, r1 + r2);
        }
    }
}

#[test]
fn test_draw_symmetry() {
    let (one, two) = elo(
        &EloRating { rating: 1234 },
        &EloRating { rating: 1234 },
        &Outcomes::DRAW,
        &EloConfig::new(),
    );
    assert_eq!(one.rating, 1234);
    assert_eq!(two.rating, 1234);
}

#[test]
fn test_monotonic_reward() {
    let pairs = [(1000u64, 1200u64), (1200, 1000), (500, 1500), (1500, 500), (5000, 10000)];
    let config = EloConfig::new();
    for &(r1, r2) in pairs.iter() {
        let p1 = EloRating { rating: r1 };
        let p2 = EloRating { rating: r2 };
        let (won, _) = elo(&p1, &p2, &Outcomes::WIN, &config);
        assert!(won.rating >= r1);
        let (lost, _) = elo(&p1, &p2, &Outcomes::LOSS, &config);
        assert!(lost.rating <= r1);
    }
    // a heavy favourite gains nothing from the expected win
    let (one, two) = elo(
        &EloRating { rating: 1500 },
        &EloRating { rating: 500 },
        &Outcomes::WIN,
        &config,
    );
    assert_eq!(one.rating, 1500);
    assert_eq!(two.rating, 500);
}

#[test]
fn test_expected_score_symmetry() {
    let pairs = [(1000u64, 1200u64), (500, 1500), (2251, 1934), (777, 777), (5000, 10000)];
    for &(r1, r2) in pairs.iter() {
        let a = expected_score(&EloRating { rating: r1 }, &EloRating { rating: r2 });
        let b = expected_score(&EloRating { rating: r2 }, &EloRating { rating: r1 });
        assert_eq!(a + b, 1024);
    }
    assert_eq!(expected_score(&EloRating { rating: 2251 }, &EloRating { rating: 1934 }), 882);
    assert_eq!(expected_score(&EloRating { rating: 1934 }, &EloRating { rating: 2251 }), 142);
}

#[test]
fn test_expected_score_midpoint() {
    let a = expected_score(&EloRating { rating: 777 }, &EloRating { rating: 777 });
    assert_eq!(a, 512);
}

#[test]
fn test_upset_amplification() {
    let a = EloRating { rating: 500 };
    let config = EloConfig::new();
    let (strong_win, _) = elo(&a, &EloRating { rating: 1500 }, &Outcomes::WIN, &config);
    let (weak_win, _) = elo(&a, &EloRating { rating: 1000 }, &Outcomes::WIN, &config);
    assert_eq!(strong_win.rating - 500, 31);
    assert_eq!(weak_win.rating - 500, 30);
    assert!(strong_win.rating > weak_win.rating);
}

#[test]
fn test_outcome_points() {
    assert_eq!(Outcomes::WIN.to_chess_points(), 1024);
    assert_eq!(Outcomes::DRAW.to_chess_points(), 512);
    assert_eq!(Outcomes::LOSS.to_chess_points(), 0);
}

#[test]
fn test_defaults() {
    assert_eq!(EloRating::new().rating, 1000);
    assert_eq!(EloRating::default().rating, 1000);
    assert_eq!(EloConfig::new().k, 32);
    assert_eq!(EloConfig::default().k, 32);
}

#[test]
fn test_conversions() {
    let r = EloRating::from(1325);
    assert_eq!(r.rating, 1325);
    let n = u64::from(EloRating { rating: 711 });
    assert_eq!(n, 711);
}

#[test]
fn test_uneven_win() {
    let (one, two) = elo(
        &EloRating { rating: 600 },
        &EloRating { rating: 711 },
        &Outcomes::WIN,
        &EloConfig::new(),
    );
    assert_eq!(one.rating, 620);
    assert_eq!(two.rating, 691);
}

#[test]
fn test_widest_gap() {
    // the largest rating gap the update is defined for
    let low = EloRating { rating: 5000 };
    let high = EloRating { rating: 10000 };
    assert_eq!(expected_score(&low, &high), 0);
    assert_eq!(expected_score(&high, &low), 1024);
    let (one, two) = elo(&low, &high, &Outcomes::WIN, &EloConfig::new());
    assert_eq!(one.rating, 5032);
    assert_eq!(two.rating, 9968);
    let (one, two) = elo(&low, &high, &Outcomes::LOSS, &EloConfig::new());
    assert_eq!(one.rating, 5000);
    assert_eq!(two.rating, 10000);
}

#[test]
fn test_zero_k() {
    // a zero k-value freezes both ratings whatever the outcome
    let (one, two) = elo(
        &EloRating { rating: 1000 },
        &EloRating { rating: 1200 },
        &Outcomes::WIN,
        &EloConfig { k: 0 },
    );
    assert_eq!(one.rating, 1000);
    assert_eq!(two.rating, 1200);
}
