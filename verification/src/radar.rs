//! The layout of the radar chart: one point for each thematic, set around a
//! circle. Angles and radii are exact fractions; nothing is drawn here.

use crate::scoring::{score_views, Ratio, Score, ThematicScore, ThematicScoreView};
use crate::text::{decimal, decimal_string};
use vstd::prelude::*;
use vstd::string::*;

verus! {

/// An angle, counted in right angles: `num / den` quarter turns clockwise
/// from the axis that points to the right, so `-1` points to the top.
#[derive(Clone, Copy, Debug, PartialEq, Eq, Structural)]
pub struct Angle {
    pub num: i128,
    pub den: u128,
}

impl View for Angle {
    type V = Ratio;

    open spec fn view(&self) -> Ratio {
        Ratio { num: self.num as int, den: self.den as int }
    }
}

/// The distance of a point from the centre, as the fraction `num / den` of
/// the radius of the chart.
#[derive(Clone, Copy, Debug, PartialEq, Eq, Structural)]
pub struct RadiusFraction {
    pub num: u128,
    pub den: u128,
}

impl View for RadiusFraction {
    type V = Ratio;

    open spec fn view(&self) -> Ratio {
        Ratio { num: self.num as int, den: self.den as int }
    }
}

/// The point of one thematic on the chart.
#[derive(Debug)]
pub struct RadarPoint {
    pub thematic: String,
    pub angle: Angle,
    pub radius_fraction: RadiusFraction,
    /// The score in whole points, followed by `%`.
    pub score_label: String,
}

/// What a `RadarPoint` holds.
pub struct RadarPointView {
    pub thematic: Seq<char>,
    pub angle: Ratio,
    pub radius_fraction: Ratio,
    pub score_label: Seq<char>,
}

impl View for RadarPoint {
    type V = RadarPointView;

    open spec fn view(&self) -> RadarPointView {
        RadarPointView {
            thematic: self.thematic@,
            angle: self.angle@,
            radius_fraction: self.radius_fraction@,
            score_label: self.score_label@,
        }
    }
}

/// What a list of points holds.
pub open spec fn point_views(points: Seq<RadarPoint>) -> Seq<RadarPointView> {
    points.map_values(|p: RadarPoint| p@)
}

/// The angle of the thematic at position `i` of `n`, in right angles: `i`
/// steps of a full turn divided by `n`, less the right angle that puts the
/// first thematic at the top.
pub open spec fn angle_of(i: int, n: int) -> Ratio {
    Ratio { num: 4 * i - n, den: n }
}

/// The fraction of the radius that a score reaches: the score over 100.
pub open spec fn radius_of(score: Ratio) -> Ratio {
    score.shared_among(100)
}

/// The label of a score: its whole points and a `%`.
pub open spec fn label_of(score: Ratio) -> Seq<char> {
    decimal(score.rounded() as nat).push('%')
}

/// The point of the thematic at position `i` of `scores`.
pub open spec fn point_of(scores: Seq<ThematicScoreView>, i: int) -> RadarPointView {
    RadarPointView {
        thematic: scores[i].thematic,
        angle: angle_of(i, scores.len() as int),
        radius_fraction: radius_of(scores[i].score),
        score_label: label_of(scores[i].score),
    }
}

/// The points of `scores`, in their order.
pub open spec fn layout_of(scores: Seq<ThematicScoreView>) -> Seq<RadarPointView> {
    Seq::new(scores.len(), |i: int| point_of(scores, i))
}

/// The label of `score`.
pub fn score_label(score: &Score) -> (label: String)
    ensures
        label@ == label_of(score@),
{
    proof {
        reveal_strlit("%");
    }
    let label = decimal_string(score.rounded() as u64).concat("%");
    assert(label@ =~= label_of(score@));
    label
}

/// Lays the thematics out around the circle, in the order of `scores`: the
/// first at the top and the others clockwise at equal steps, each as far
/// from the centre as its score is from 0 to 100. No thematic gives no
/// point.
pub fn radar_layout(scores: &Vec<ThematicScore>) -> (points: Vec<RadarPoint>)
    ensures
        point_views(points@) == layout_of(score_views(scores@)),
{
    let n = scores.len();
    let ghost all = score_views(scores@);
    let mut points: Vec<RadarPoint> = Vec::new();
    let mut i: usize = 0;
    while i < n
        invariant
            i <= n,
            n == scores.len(),
            all == score_views(scores@),
            points@.len() == i,
            forall|j: int| 0 <= j < i ==> (#[trigger] points@[j])@ == point_of(all, j),
        decreases n - i,
    {
        let entry = &scores[i];
        assert(all[i as int] == entry@);
        let num = entry.score.numerator();
        let den = entry.score.denominator();
        let point = RadarPoint {
            thematic: entry.thematic.clone(),
            angle: Angle { num: 4 * (i as i128) - (n as i128), den: n as u128 },
            radius_fraction: RadiusFraction { num, den: den * 100 },
            score_label: score_label(&entry.score),
        };
        points.push(point);
        i += 1;
    }
    assert(point_views(points@) =~= layout_of(all));
    points
}

/// The layout has one point for each thematic. The first angle is one right
/// angle back from the axis, which is the top of the chart; from one point
/// to the next the angle grows by four right angles over the number of
/// thematics, an equal share of the full turn; and a point's fraction of
/// the radius is its score over 100.
pub proof fn lemma_layout_is_even(scores: Seq<ThematicScoreView>)
    ensures
        layout_of(scores).len() == scores.len(),
        scores.len() > 0 ==> layout_of(scores)[0].angle.is_exactly(-1),
        forall|i: int|
            0 <= i && i + 1 < scores.len() ==> (#[trigger] layout_of(scores)[i + 1]).angle.minus(
                layout_of(scores)[i].angle,
            ).same(Ratio { num: 4, den: scores.len() as int }),
        forall|i: int|
            0 <= i < scores.len() ==> {
                let p = #[trigger] layout_of(scores)[i];
                &&& p.thematic == scores[i].thematic
                &&& p.radius_fraction.num * 100 * scores[i].score.den == scores[i].score.num
                    * p.radius_fraction.den
            },
{
    let n = scores.len() as int;
    assert forall|i: int| 0 <= i && i + 1 < scores.len() implies (#[trigger] layout_of(scores)[i
        + 1]).angle.minus(layout_of(scores)[i].angle).same(Ratio { num: 4, den: n }) by {
        let a = angle_of(i + 1, n);
        let b = angle_of(i, n);
        assert((a.num * b.den - b.num * a.den) * n == 4 * (a.den * b.den)) by (nonlinear_arith)
            requires
                a.num == 4 * (i + 1) - n,
                b.num == 4 * i - n,
                a.den == n,
                b.den == n,
        ;
    }
    assert forall|i: int| 0 <= i < scores.len() implies {
        let p = #[trigger] layout_of(scores)[i];
        &&& p.thematic == scores[i].thematic
        &&& p.radius_fraction.num * 100 * scores[i].score.den == scores[i].score.num
            * p.radius_fraction.den
    } by {
        let s = scores[i].score;
        assert(s.num * 100 * s.den == s.num * (s.den * 100)) by (nonlinear_arith);
    }
}

} // verus!
