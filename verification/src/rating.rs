//! Elo ratings, match outcomes, and the deterministic rating update.
//!
//! The expected score of a player comes from the logistic model
//! `1 / (1 + 10^((r2 - r1) / 400))`, evaluated entirely in fixed-point
//! integer arithmetic at scale `2^10`; a rating update moves the first
//! player's rating by the k-weighted difference between the actual and the
//! expected score and gives the exact opposite move to the second player, so
//! the sum of the two ratings never changes.

use crate::fixed::fp_pow10;
use crate::fixed::lemma_pow10_fp_ge;
use crate::fixed::lemma_pow10_fp_monotone;
use crate::fixed::pow10_fp;
use crate::fixed::SCALE;
use vstd::arithmetic::div_mod::lemma_div_is_ordered;
use vstd::arithmetic::div_mod::lemma_div_is_ordered_by_denominator;
use vstd::arithmetic::div_mod::lemma_div_multiples_vanish;
use vstd::arithmetic::div_mod::lemma_div_pos_is_pos;
use vstd::arithmetic::mul::lemma_mul_inequality;
use vstd::arithmetic::mul::lemma_mul_is_commutative;
use vstd::prelude::*;

verus! {

/// One squared scale unit: `1.0 * 1.0` at the fixed-point scale, used as the
/// numerator of a fixed-point reciprocal so that the quotient comes back at
/// scale.
pub const SCALE_SQ: u64 = 1024 * 1024;

/// The possible outcomes for a match: Win, Draw, Loss.
///
/// Note that this is always from the perspective of player one.
/// That means a win is a win for player one and a loss is a win for player
/// two.
#[derive(Clone, Copy, Debug, PartialEq, Eq, Structural)]
pub enum Outcomes {
    /// A win, from player_one's perspective.
    WIN,
    /// A loss, from player_one's perspective.
    LOSS,
    /// A draw.
    DRAW,
}

/// The score a match outcome contributes at the fixed-point scale: a win
/// counts 1.0, a draw 0.5, a loss 0.0.
pub open spec fn score_fp(o: Outcomes) -> int {
    match o {
        Outcomes::WIN => 1024,
        Outcomes::DRAW => 512,
        Outcomes::LOSS => 0,
    }
}

impl Outcomes {
    /// Converts the outcome of the match into the points used in chess
    /// (1 = Win, 0.5 = Draw, 0 = Loss), at the fixed-point scale.
    #[must_use]
    pub fn to_chess_points(self) -> (r: u64)
        ensures
            r == score_fp(self),
    {
        match self {
            Self::WIN => SCALE,
            Self::DRAW => SCALE / 2,
            Self::LOSS => 0,
        }
    }
}

/// The Elo rating of a player.
///
/// The default rating is 1000.
#[derive(Clone, Copy, Debug, PartialEq, Eq, Structural)]
pub struct EloRating {
    /// The player's Elo rating number, by default 1000.
    pub rating: u64,
}

impl EloRating {
    /// Initialise a new `EloRating` with a rating of 1000.
    #[must_use]
    pub fn new() -> (r: Self)
        ensures
            r.rating == 1000,
    {
        Self { rating: 1000 }
    }
}

impl Default for EloRating {
    fn default() -> (r: Self)
        ensures
            r.rating == 1000,
    {
        Self::new()
    }
}

impl From<u64> for EloRating {
    fn from(r: u64) -> (s: Self) {
        Self { rating: r }
    }
}

impl vstd::std_specs::convert::FromSpecImpl<u64> for EloRating {
    open spec fn obeys_from_spec() -> bool {
        true
    }

    open spec fn from_spec(r: u64) -> Self {
        EloRating { rating: r }
    }
}

impl From<EloRating> for u64 {
    fn from(r: EloRating) -> (n: u64) {
        r.rating
    }
}

impl vstd::std_specs::convert::FromSpecImpl<EloRating> for u64 {
    open spec fn obeys_from_spec() -> bool {
        true
    }

    open spec fn from_spec(r: EloRating) -> u64 {
        r.rating
    }
}

/// Constants used in the Elo calculations.
#[derive(Clone, Copy, Debug)]
pub struct EloConfig {
    /// The k-value is the maximum amount of rating change from a single
    /// match. In chess, k-values from 40 to 10 are used, with the most common
    /// being 32, 24, 16 or 10. The higher the number, the more volatile the
    /// ranking. Here the default is 32.
    pub k: u64,
}

impl EloConfig {
    /// Initialise a new `EloConfig` with a k value of 32.
    #[must_use]
    pub fn new() -> (r: Self)
        ensures
            r.k == 32,
    {
        Self { k: 32 }
    }
}

impl Default for EloConfig {
    fn default() -> (r: Self)
        ensures
            r.k == 32,
    {
        Self::new()
    }
}

/// The absolute difference of two ratings.
pub open spec fn abs_diff(a: int, b: int) -> int {
    if a >= b {
        a - b
    } else {
        b - a
    }
}

/// The expected score of the first player at the fixed-point scale: the
/// logistic model `1 / (1 + 10^((r2 - r1) / 400))` in fixed point. The
/// quotient computes the expectation of the lower-rated player, which is the
/// first player's own exactly when `r2 >= r1`; otherwise the first player's
/// expectation is its complement.
pub open spec fn expected_fp(r1: int, r2: int) -> int {
    let low = 1048576int / (1024 + pow10_fp(abs_diff(r1, r2) * 1024 / 400));
    if r2 >= r1 {
        low
    } else {
        1024 - low
    }
}

/// The first player's new rating: the old rating promoted to the fixed-point
/// scale, moved by the k-weighted difference between the actual and the
/// expected score, and scaled back down.
pub open spec fn new_rating_one(r1: int, r2: int, o: Outcomes, k: int) -> int {
    (r1 * 1024 + k * score_fp(o) - k * expected_fp(r1, r2)) / 1024
}

/// The inputs a rating update is defined for. The k-value may not exceed
/// either rating, so that no update can drive a rating below zero; the gap
/// between the ratings may not exceed 5000, the span the fixed-point
/// exponential is built for; and the first rating leaves enough headroom for
/// the intermediate fixed-point terms to stay within `u64`.
pub open spec fn update_allowed(r1: int, r2: int, k: int) -> bool {
    &&& k <= r1
    &&& k <= r2
    &&& abs_diff(r1, r2) <= 5000
    &&& r1 + k < 0x20000000000000
}

/// Calculates the expected score of a player based on two Elo ratings, at
/// the fixed-point scale: 1024 means certain victory for the first player, 0
/// certain loss, 512 even chances. Callers render it as a percentage with
/// `(result * 100) / 1024`.
#[must_use]
pub fn expected_score(player_one: &EloRating, player_two: &EloRating) -> (r: u64)
    requires
        abs_diff(player_one.rating as int, player_two.rating as int) <= 5000,
    ensures
        r == expected_fp(player_one.rating as int, player_two.rating as int),
        r <= 1024,
{
    let diff = if player_one.rating >= player_two.rating {
        player_one.rating - player_two.rating
    } else {
        player_two.rating - player_one.rating
    };
    let x = diff * SCALE / 400;
    proof {
        lemma_div_is_ordered((diff * 1024) as int, 5000int * 1024, 400);
    }
    let p = fp_pow10(x);
    proof {
        lemma_div_pos_is_pos((diff * 1024) as int, 400);
        lemma_pow10_fp_ge(x as int);
        lemma_div_is_ordered_by_denominator(1048576, 2048, (1024 + p) as int);
    }
    let exp_one = SCALE_SQ / (SCALE + p);
    if player_two.rating >= player_one.rating {
        exp_one
    } else {
        SCALE - exp_one
    }
}

/// Calculates the new ratings of two players based on their old ratings and
/// the outcome of the game.
///
/// The outcome of the match is in the perspective of `player_one`: a win is
/// a win for `player_one` and a loss is a win for `player_two`.
///
/// The update is zero-sum: the two new ratings always add up to the two old
/// ones. A win never lowers the first player's rating, a loss never raises
/// it, and a draw between equally rated players changes nothing.
#[must_use]
pub fn elo(
    player_one: &EloRating,
    player_two: &EloRating,
    outcome: &Outcomes,
    config: &EloConfig,
) -> (r: (EloRating, EloRating))
    requires
        update_allowed(player_one.rating as int, player_two.rating as int, config.k as int),
    ensures
        r.0.rating == new_rating_one(
            player_one.rating as int,
            player_two.rating as int,
            *outcome,
            config.k as int,
        ),
        r.0.rating + r.1.rating == player_one.rating + player_two.rating,
        *outcome == Outcomes::WIN ==> r.0.rating >= player_one.rating,
        *outcome == Outcomes::LOSS ==> r.0.rating <= player_one.rating,
        player_one.rating == player_two.rating && *outcome == Outcomes::DRAW ==> r.0 == *player_one
            && r.1 == *player_two,
{
    let r1 = player_one.rating;
    let k = config.k;
    let expected = expected_score(player_one, player_two);
    let actual = outcome.to_chess_points();
    proof {
        lemma_mul_inequality(actual as int, 1024, k as int);
        lemma_mul_is_commutative(k as int, actual as int);
        lemma_mul_inequality(expected as int, 1024, k as int);
        lemma_mul_is_commutative(k as int, expected as int);
        if player_one.rating == player_two.rating && *outcome == Outcomes::DRAW {
            lemma_expected_score_midpoint(r1 as int);
        }
    }
    let one_new = (r1 * SCALE + k * actual - k * expected) / SCALE;
    proof {
        let num = r1 * 1024 + k * actual - k * expected;
        lemma_div_is_ordered(num, (r1 + k) as int * 1024, 1024);
        lemma_div_multiples_vanish((r1 + k) as int, 1024);
        lemma_mul_is_commutative((r1 + k) as int, 1024);
        lemma_div_multiples_vanish(r1 as int, 1024);
        lemma_mul_is_commutative(r1 as int, 1024);
        if actual >= expected {
            lemma_mul_inequality(expected as int, actual as int, k as int);
            lemma_div_is_ordered(r1 as int * 1024, num, 1024);
        } else {
            lemma_mul_inequality(actual as int, expected as int, k as int);
            lemma_div_is_ordered(num, r1 as int * 1024, 1024);
        }
    }
    let two_new = player_one.rating + player_two.rating - one_new;
    (EloRating { rating: one_new }, EloRating { rating: two_new })
}

/// Expected-score midpoint law: two equal ratings give an expected score of
/// exactly one half at the fixed-point scale.
pub proof fn lemma_expected_score_midpoint(r: int)
    ensures
        expected_fp(r, r) == 512,
{
    assert(pow10_fp(0) == 1024) by {
        reveal_with_fuel(crate::fixed::exp_frac_from, 2);
        reveal_with_fuel(crate::fixed::exp_whole, 1);
    }
    assert(abs_diff(r, r) * 1024 / 400 == 0);
}

/// Expected-score symmetry law: the two players' expected scores always add
/// up to exactly 1.0 at the fixed-point scale.
pub proof fn lemma_expected_score_symmetry(r1: int, r2: int)
    ensures
        expected_fp(r1, r2) + expected_fp(r2, r1) == 1024,
{
    if r1 == r2 {
        lemma_expected_score_midpoint(r1);
    }
}

/// Upset amplification law, in its monotone form: with the first player's
/// rating fixed, a win against a stronger opponent pays at least as much as
/// a win against a weaker one. The payoff is monotone rather than strictly
/// increasing because the final rescaling rounds away gaps smaller than one
/// rating point.
pub proof fn lemma_upset_amplification(a: int, b: int, c: int, k: int)
    requires
        0 <= a <= c <= b,
        0 <= k,
    ensures
        new_rating_one(a, b, Outcomes::WIN, k) >= new_rating_one(a, c, Outcomes::WIN, k),
{
    let xc = (c - a) * 1024 / 400;
    let xb = (b - a) * 1024 / 400;
    lemma_div_is_ordered((c - a) * 1024, (b - a) * 1024, 400);
    lemma_div_pos_is_pos((c - a) * 1024, 400);
    lemma_pow10_fp_monotone(xc, xb);
    lemma_pow10_fp_ge(xc);
    lemma_div_is_ordered_by_denominator(1048576, 1024 + pow10_fp(xc), 1024 + pow10_fp(xb));
    let eb = expected_fp(a, b);
    let ec = expected_fp(a, c);
    lemma_mul_inequality(eb, ec, k);
    lemma_mul_is_commutative(k, eb);
    lemma_mul_is_commutative(k, ec);
    lemma_div_is_ordered(a * 1024 + k * 1024 - k * ec, a * 1024 + k * 1024 - k * eb, 1024);
}

} // verus!
