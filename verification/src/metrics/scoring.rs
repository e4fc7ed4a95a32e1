//! The weighted combination of metric scores.
//!
//! Weights and scores are whole numbers of millionths. The combined score is
//! the weighted mean of the scores that are present, rounded down. Weights
//! need not add up to one whole.

use crate::types::metric_results::MetricScores;
use crate::types::metric_results::SCORE_ONE;
use vstd::prelude::*;

verus! {

/// The weight of each metric in the combined score, in millionths.
#[derive(Clone, Copy, Debug, PartialEq, Eq, Structural)]
pub struct ScoreWeights {
    pub pixel: u32,
    pub layout: u32,
    pub typography: u32,
    pub color: u32,
    pub content: u32,
}

impl Default for ScoreWeights {
    fn default() -> (r: Self)
        ensures
            r == (ScoreWeights {
                pixel: 350_000,
                layout: 250_000,
                typography: 150_000,
                color: 150_000,
                content: 100_000,
            }),
    {
        Self {
            pixel: 350_000,
            layout: 250_000,
            typography: 150_000,
            color: 150_000,
            content: 100_000,
        }
    }
}

impl ScoreWeights {
    /// The sum of the five weights.
    pub open spec fn total(&self) -> int {
        self.pixel + self.layout + self.typography + self.color + self.content
    }

    /// The sum of the five weights.
    pub fn sum(&self) -> (r: u64)
        ensures
            r == self.total(),
    {
        self.pixel as u64 + self.layout as u64 + self.typography as u64 + self.color as u64
            + self.content as u64
    }
}

/// The score of a slot: none for a metric that did not run.
pub open spec fn pixel_score(scores: MetricScores) -> Option<u32> {
    match scores.pixel {
        Some(m) => Some(m.score),
        None => None,
    }
}

/// The score of the layout slot.
pub open spec fn layout_score(scores: MetricScores) -> Option<u32> {
    match scores.layout {
        Some(m) => Some(m.score),
        None => None,
    }
}

/// The score of the typography slot.
pub open spec fn typography_score(scores: MetricScores) -> Option<u32> {
    match scores.typography {
        Some(m) => Some(m.score),
        None => None,
    }
}

/// The score of the color slot.
pub open spec fn color_score(scores: MetricScores) -> Option<u32> {
    match scores.color {
        Some(m) => Some(m.score),
        None => None,
    }
}

/// The score of the content slot.
pub open spec fn content_score(scores: MetricScores) -> Option<u32> {
    match scores.content {
        Some(m) => Some(m.score),
        None => None,
    }
}

/// What a slot adds to the weighted sum: weight times score where the metric
/// ran, nothing where it did not.
pub open spec fn weighted(score: Option<u32>, weight: u32) -> int {
    match score {
        Some(s) => weight * s,
        None => 0,
    }
}

/// What a slot adds to the divisor: its weight where the metric ran.
pub open spec fn counted_weight(score: Option<u32>, weight: u32) -> int {
    match score {
        Some(_) => weight as int,
        None => 0,
    }
}

/// The sum of weight times score over the metrics that ran.
pub open spec fn weighted_sum(scores: MetricScores, weights: ScoreWeights) -> int {
    weighted(pixel_score(scores), weights.pixel) + weighted(layout_score(scores), weights.layout)
        + weighted(typography_score(scores), weights.typography) + weighted(
        color_score(scores),
        weights.color,
    ) + weighted(content_score(scores), weights.content)
}

/// The sum of the weights of the metrics that ran.
pub open spec fn present_weight(scores: MetricScores, weights: ScoreWeights) -> int {
    counted_weight(pixel_score(scores), weights.pixel) + counted_weight(
        layout_score(scores),
        weights.layout,
    ) + counted_weight(typography_score(scores), weights.typography) + counted_weight(
        color_score(scores),
        weights.color,
    ) + counted_weight(content_score(scores), weights.content)
}

/// The combined score: the weighted sum over the weight of the metrics that
/// ran, rounded down; nothing where no weight is present.
pub open spec fn combined_score(scores: MetricScores, weights: ScoreWeights) -> int {
    if present_weight(scores, weights) > 0 {
        weighted_sum(scores, weights) / present_weight(scores, weights)
    } else {
        0
    }
}

proof fn lemma_weighted_bound(score: Option<u32>, weight: u32, most: int)
    requires
        score matches Some(s) ==> s <= most,
        0 <= most,
    ensures
        0 <= weighted(score, weight) <= counted_weight(score, weight) * most,
        0 <= counted_weight(score, weight) <= 0xffff_ffff,
{
    match score {
        Some(s) => {
            assert(0 <= weight * s <= weight * most) by (nonlinear_arith)
                requires
                    0 <= s <= most,
                    0 <= weight,
            ;
        },
        None => {},
    }
}

/// No score that is present is over `most`.
pub open spec fn scores_at_most(scores: MetricScores, most: int) -> bool {
    &&& pixel_score(scores) matches Some(s) ==> s <= most
    &&& layout_score(scores) matches Some(s) ==> s <= most
    &&& typography_score(scores) matches Some(s) ==> s <= most
    &&& color_score(scores) matches Some(s) ==> s <= most
    &&& content_score(scores) matches Some(s) ==> s <= most
}

proof fn lemma_combined_at_most(scores: MetricScores, weights: ScoreWeights, most: int)
    requires
        scores_at_most(scores, most),
        0 <= most,
    ensures
        0 <= weighted_sum(scores, weights) <= present_weight(scores, weights) * most,
        0 <= present_weight(scores, weights) <= 5 * 0xffff_ffff,
        0 <= combined_score(scores, weights) <= most,
{
    lemma_weighted_bound(pixel_score(scores), weights.pixel, most);
    lemma_weighted_bound(layout_score(scores), weights.layout, most);
    lemma_weighted_bound(typography_score(scores), weights.typography, most);
    lemma_weighted_bound(color_score(scores), weights.color, most);
    lemma_weighted_bound(content_score(scores), weights.content, most);
    let a = counted_weight(pixel_score(scores), weights.pixel);
    let b = counted_weight(layout_score(scores), weights.layout);
    let c = counted_weight(typography_score(scores), weights.typography);
    let d = counted_weight(color_score(scores), weights.color);
    let e = counted_weight(content_score(scores), weights.content);
    assert((a + b + c + d + e) * most == a * most + b * most + c * most + d * most + e * most)
        by (nonlinear_arith);
    let num = weighted_sum(scores, weights);
    let den = present_weight(scores, weights);
    if den > 0 {
        assert(0 <= num / den <= most) by (nonlinear_arith)
            requires
                0 <= num <= den * most,
                den > 0,
        ;
    }
}

/// Whatever the scores and the weights, the combined score is no less than
/// nothing and no more than the best score present; for scores in the unit
/// interval it lies in the unit interval.
pub proof fn law_combined_score_bounded(scores: MetricScores, weights: ScoreWeights)
    ensures
        0 <= combined_score(scores, weights) <= 0xffff_ffff,
        scores.well_formed() ==> combined_score(scores, weights) <= SCORE_ONE,
{
    lemma_combined_at_most(scores, weights, 0xffff_ffff);
    if scores.well_formed() {
        lemma_combined_at_most(scores, weights, SCORE_ONE as int);
    }
}

fn add_slot(weighted_so_far: u128, weight_so_far: u128, score: Option<u32>, weight: u32) -> (r: (
    u128,
    u128,
))
    requires
        weighted_so_far <= 4 * 0xffff_ffff * 0xffff_ffff,
        weight_so_far <= 4 * 0xffff_ffff,
    ensures
        r.0 == weighted_so_far + weighted(score, weight),
        r.1 == weight_so_far + counted_weight(score, weight),
{
    match score {
        Some(s) => {
            assert(weight * s <= 0xffff_ffff * 0xffff_ffff) by (nonlinear_arith)
                requires
                    0 <= weight <= 0xffff_ffff,
                    0 <= s <= 0xffff_ffff,
            ;
            (weighted_so_far + weight as u128 * s as u128, weight_so_far + weight as u128)
        },
        None => (weighted_so_far, weight_so_far),
    }
}

/// Combines the scores of the metrics that ran into one, weighting each by
/// its weight.
pub fn calculate_combined_score(scores: &MetricScores, weights: &ScoreWeights) -> (r: u32)
    ensures
        r == combined_score(*scores, *weights),
        scores.well_formed() ==> r <= SCORE_ONE,
{
    proof {
        law_combined_score_bounded(*scores, *weights);
        lemma_weighted_bound(pixel_score(*scores), weights.pixel, 0xffff_ffff);
        lemma_weighted_bound(layout_score(*scores), weights.layout, 0xffff_ffff);
        lemma_weighted_bound(typography_score(*scores), weights.typography, 0xffff_ffff);
        lemma_weighted_bound(color_score(*scores), weights.color, 0xffff_ffff);
        lemma_weighted_bound(content_score(*scores), weights.content, 0xffff_ffff);
        assert(forall|w: int| 0 <= w <= 0xffff_ffff ==> #[trigger] (w * 0xffff_ffff) <= 0xffff_ffff * 0xffff_ffff);
    }
    let pixel = match &scores.pixel {
        Some(m) => Some(m.score),
        None => None,
    };
    let layout = match &scores.layout {
        Some(m) => Some(m.score),
        None => None,
    };
    let typography = match &scores.typography {
        Some(m) => Some(m.score),
        None => None,
    };
    let color = match &scores.color {
        Some(m) => Some(m.score),
        None => None,
    };
    let content = match &scores.content {
        Some(m) => Some(m.score),
        None => None,
    };
    let (sum, weight) = add_slot(0, 0, pixel, weights.pixel);
    let (sum, weight) = add_slot(sum, weight, layout, weights.layout);
    let (sum, weight) = add_slot(sum, weight, typography, weights.typography);
    let (sum, weight) = add_slot(sum, weight, color, weights.color);
    let (sum, weight) = add_slot(sum, weight, content, weights.content);
    if weight > 0 {
        (sum / weight) as u32
    } else {
        0
    }
}

} // verus!
