//! Scores: exact fractions of 100 points, the averages of the thematics and
//! their mean.

use crate::arith::{
    gcd_of, lcm, lemma_gcd_divides, lemma_lcm, lemma_multiple, lemma_multiple_of_multiple,
};
use crate::models::{Answer, QuestionView};
use crate::survey::{stored, AnswerStore, QuestionBank};
use crate::text::{
    lemma_lex_irreflexive, lemma_lex_total, lemma_lex_transitive, lex_lt, str_eq, str_lt,
};
use vstd::arithmetic::div_mod::{lemma_fundamental_div_mod, lemma_fundamental_div_mod_converse};
use vstd::prelude::*;

verus! {

/// A fraction `num / den`. Scores are held as fractions so that an average
/// is exact whatever the number of questions.
pub struct Ratio {
    pub num: int,
    pub den: int,
}

impl Ratio {
    /// A score lies between 0 and 100 points and has a positive denominator.
    pub open spec fn is_score(self) -> bool {
        1 <= self.den && 0 <= self.num <= 100 * self.den
    }

    /// Whether two fractions are the same number.
    pub open spec fn same(self, other: Ratio) -> bool {
        self.num * other.den == other.num * self.den
    }

    /// Whether the fraction is the whole number `points`.
    pub open spec fn is_exactly(self, points: int) -> bool {
        self.num == points * self.den
    }

    /// Whether the fraction is `points` or less.
    pub open spec fn at_most(self, points: int) -> bool {
        self.num <= points * self.den
    }

    /// The nearest whole number, a half counting upward.
    pub open spec fn rounded(self) -> int {
        (2 * self.num + self.den) / (2 * self.den)
    }

    /// The sum of two fractions.
    pub open spec fn plus(self, other: Ratio) -> Ratio {
        Ratio { num: self.num * other.den + other.num * self.den, den: self.den * other.den }
    }

    /// The difference of two fractions.
    pub open spec fn minus(self, other: Ratio) -> Ratio {
        Ratio { num: self.num * other.den - other.num * self.den, den: self.den * other.den }
    }

    /// The fraction divided by `n`.
    pub open spec fn shared_among(self, n: int) -> Ratio {
        Ratio { num: self.num, den: self.den * n }
    }

    /// The band that the fraction falls in.
    pub open spec fn band(self) -> ScoreBand {
        if self.at_most(20) {
            ScoreBand::Lowest
        } else if self.at_most(40) {
            ScoreBand::Low
        } else if self.at_most(60) {
            ScoreBand::Middle
        } else if self.at_most(80) {
            ScoreBand::High
        } else {
            ScoreBand::Highest
        }
    }
}

/// The five bands of a score: up to 20 points, up to 40, up to 60, up to 80,
/// and above.
#[derive(Clone, Copy, Debug, PartialEq, Eq, Structural)]
pub enum ScoreBand {
    Lowest,
    Low,
    Middle,
    High,
    Highest,
}

/// A score between 0 and 100 points, held exactly.
#[derive(Clone, Copy, Debug)]
pub struct Score {
    num: u128,
    den: u128,
}

impl View for Score {
    type V = Ratio;

    closed spec fn view(&self) -> Ratio {
        Ratio { num: self.num as int, den: self.den as int }
    }
}

impl Score {
    #[verifier::type_invariant]
    spec fn inv(self) -> bool {
        self@.is_score() && 100 * self.den <= u128::MAX
    }

    /// The score `num / den`, where that is a score and a hundred times the
    /// denominator still fits the machine's widest integer.
    pub fn new(num: u128, den: u128) -> (score: Option<Score>)
        ensures
            score is Some <==> 1 <= den && num <= 100 * den && 100 * den <= u128::MAX,
            score matches Some(s) ==> s@ == (Ratio { num: num as int, den: den as int }),
    {
        if den == 0 || den > u128::MAX / 100 {
            return None;
        }
        if num > 100 * den {
            return None;
        }
        Some(Score { num, den })
    }

    /// The numerator of the score.
    pub fn numerator(&self) -> (num: u128)
        ensures
            num == self@.num,
            self@.is_score(),
    {
        proof {
            use_type_invariant(self);
        }
        self.num
    }

    /// The denominator of the score.
    pub fn denominator(&self) -> (den: u128)
        ensures
            den == self@.den,
            self@.is_score(),
            100 * den <= u128::MAX,
    {
        proof {
            use_type_invariant(self);
        }
        self.den
    }

    /// Whether the score is `points` or less.
    pub fn at_most(&self, points: u64) -> (r: bool)
        ensures
            r == self@.at_most(points as int),
    {
        proof {
            use_type_invariant(self);
        }
        if points >= 100 {
            assert(100 * self.den <= points * self.den) by (nonlinear_arith)
                requires
                    points >= 100,
                    self.den >= 1,
            ;
            true
        } else {
            assert(points * self.den <= 100 * self.den) by (nonlinear_arith)
                requires
                    points < 100,
                    self.den >= 1,
            ;
            self.num <= (points as u128) * self.den
        }
    }

    /// Whether the score is the whole number `points`.
    pub fn is_exactly(&self, points: u64) -> (r: bool)
        ensures
            r == self@.is_exactly(points as int),
    {
        proof {
            use_type_invariant(self);
        }
        if points > 100 {
            assert(100 * self.den < points * self.den) by (nonlinear_arith)
                requires
                    points > 100,
                    self.den >= 1,
            ;
            false
        } else {
            assert(points * self.den <= 100 * self.den) by (nonlinear_arith)
                requires
                    points <= 100,
                    self.den >= 1,
            ;
            self.num == (points as u128) * self.den
        }
    }

    /// The score as a whole number of points, a half counting upward.
    pub fn rounded(&self) -> (points: u32)
        ensures
            points == self@.rounded(),
            points <= 100,
    {
        proof {
            use_type_invariant(self);
        }
        let whole = self.num / self.den;
        let rest = self.num % self.den;
        proof {
            let n = self.num as int;
            let d = self.den as int;
            let q = whole as int;
            let r = rest as int;
            lemma_fundamental_div_mod(n, d);
            assert(n == d * q + r);
            assert(q <= 100) by (nonlinear_arith)
                requires
                    n == d * q + r,
                    0 <= r,
                    n <= 100 * d,
                    d >= 1,
            ;
            if r >= d - r {
                assert(2 * n + d == (q + 1) * (2 * d) + (2 * r - d)) by (nonlinear_arith)
                    requires
                        n == d * q + r,
                ;
                lemma_fundamental_div_mod_converse(2 * n + d, 2 * d, q + 1, 2 * r - d);
                assert(q + 1 <= 100) by (nonlinear_arith)
                    requires
                        n == d * q + r,
                        2 * r >= d,
                        n <= 100 * d,
                        d >= 1,
                ;
            } else {
                assert(2 * n + d == q * (2 * d) + (2 * r + d)) by (nonlinear_arith)
                    requires
                        n == d * q + r,
                ;
                lemma_fundamental_div_mod_converse(2 * n + d, 2 * d, q, 2 * r + d);
            }
        }
        if rest >= self.den - rest {
            (whole + 1) as u32
        } else {
            whole as u32
        }
    }

    /// The band that the score falls in.
    pub fn band(&self) -> (band: ScoreBand)
        ensures
            band == self@.band(),
    {
        if self.at_most(20) {
            ScoreBand::Lowest
        } else if self.at_most(40) {
            ScoreBand::Low
        } else if self.at_most(60) {
            ScoreBand::Middle
        } else if self.at_most(80) {
            ScoreBand::High
        } else {
            ScoreBand::Highest
        }
    }
}

/// The average score of one thematic.
#[derive(Debug)]
pub struct ThematicScore {
    pub thematic: String,
    pub score: Score,
}

/// What a `ThematicScore` holds.
pub struct ThematicScoreView {
    pub thematic: Seq<char>,
    pub score: Ratio,
}

impl View for ThematicScore {
    type V = ThematicScoreView;

    open spec fn view(&self) -> ThematicScoreView {
        ThematicScoreView { thematic: self.thematic@, score: self.score@ }
    }
}

/// What a list of thematic scores holds.
pub open spec fn score_views(scores: Seq<ThematicScore>) -> Seq<ThematicScoreView> {
    scores.map_values(|e: ThematicScore| e@)
}

/// The points that a question brings in: those of its answer, and none
/// while it has no answer.
pub open spec fn points_of(answers: Map<u128, Answer>, q: QuestionView) -> nat {
    match stored(answers, q.id) {
        Some(answer) => answer.score(),
        None => 0,
    }
}

/// How many of the questions belong to the thematic `name`.
pub open spec fn thematic_count(questions: Seq<QuestionView>, name: Seq<char>) -> nat
    decreases questions.len(),
{
    if questions.len() == 0 {
        0
    } else {
        thematic_count(questions.drop_last(), name) + if questions.last().thematic == name {
            1nat
        } else {
            0nat
        }
    }
}

/// The points that the questions of the thematic `name` bring in together.
pub open spec fn thematic_points(
    questions: Seq<QuestionView>,
    answers: Map<u128, Answer>,
    name: Seq<char>,
) -> nat
    decreases questions.len(),
{
    if questions.len() == 0 {
        0
    } else {
        thematic_points(questions.drop_last(), answers, name) + if questions.last().thematic
            == name {
            points_of(answers, questions.last())
        } else {
            0nat
        }
    }
}

/// The names go strictly upward in dictionary order, so none comes twice.
pub open spec fn sorted_by_name(scores: Seq<ThematicScoreView>) -> bool {
    forall|i: int, j: int|
        0 <= i < j < scores.len() ==> lex_lt(
            (#[trigger] scores[i]).thematic,
            (#[trigger] scores[j]).thematic,
        )
}

/// `scores` is the scoring of `questions` under `answers`: one entry for
/// each thematic that a question carries and for no other name, in
/// dictionary order of the names; the entry of a thematic is the sum of the
/// points of its questions over their number.
pub open spec fn is_scoring_of(
    scores: Seq<ThematicScoreView>,
    questions: Seq<QuestionView>,
    answers: Map<u128, Answer>,
) -> bool {
    &&& sorted_by_name(scores)
    &&& forall|i: int|
        0 <= i < scores.len() ==> {
            let e = #[trigger] scores[i];
            &&& e.score.den >= 1
            &&& e.score.den == thematic_count(questions, e.thematic)
            &&& e.score.num == thematic_points(questions, answers, e.thematic)
        }
    &&& forall|j: int|
        0 <= j < questions.len() ==> exists|i: int|
            0 <= i < scores.len() && (#[trigger] scores[i]).thematic
                == (#[trigger] questions[j]).thematic
}

/// What the question at `k` adds to the count and to the points of `name`.
pub open spec fn tally_step(
    questions: Seq<QuestionView>,
    answers: Map<u128, Answer>,
    k: int,
    name: Seq<char>,
) -> bool {
    &&& thematic_count(questions.take(k + 1), name) == thematic_count(questions.take(k), name)
        + if questions[k].thematic == name {
        1nat
    } else {
        0nat
    }
    &&& thematic_points(questions.take(k + 1), answers, name) == thematic_points(
        questions.take(k),
        answers,
        name,
    ) + if questions[k].thematic == name {
        points_of(answers, questions[k])
    } else {
        0nat
    }
}

/// One more question adds one to the count of its thematic and its points
/// to the points of its thematic, and nothing to any other name.
pub proof fn lemma_tally_step(
    questions: Seq<QuestionView>,
    answers: Map<u128, Answer>,
    k: int,
    name: Seq<char>,
)
    requires
        0 <= k < questions.len(),
    ensures
        tally_step(questions, answers, k, name),
{
    assert(questions.take(k + 1).drop_last() =~= questions.take(k));
    assert(questions.take(k + 1).last() == questions[k]);
}

/// A name that no question carries has no question and no points.
pub proof fn lemma_tally_absent(
    questions: Seq<QuestionView>,
    answers: Map<u128, Answer>,
    name: Seq<char>,
)
    requires
        forall|j: int| 0 <= j < questions.len() ==> (#[trigger] questions[j]).thematic != name,
    ensures
        thematic_count(questions, name) == 0,
        thematic_points(questions, answers, name) == 0,
    decreases questions.len(),
{
    if questions.len() > 0 {
        assert(questions.last() == questions[questions.len() - 1]);
        assert forall|j: int| 0 <= j < questions.drop_last().len() implies (
        #[trigger] questions.drop_last()[j]).thematic != name by {
            assert(questions.drop_last()[j] == questions[j]);
        }
        lemma_tally_absent(questions.drop_last(), answers, name);
    }
}

/// A thematic has no more questions than there are, and no more than 100
/// points for each of its questions: its average is a score.
pub proof fn lemma_tally_bounds(
    questions: Seq<QuestionView>,
    answers: Map<u128, Answer>,
    name: Seq<char>,
)
    ensures
        thematic_count(questions, name) <= questions.len(),
        thematic_points(questions, answers, name) <= 100 * thematic_count(questions, name),
    decreases questions.len(),
{
    if questions.len() > 0 {
        lemma_tally_bounds(questions.drop_last(), answers, name);
    }
}

/// Scores the questions of `bank` under `answers`, thematic by thematic. A
/// question without an answer counts with no points; it is not left out.
pub fn thematic_scores(bank: &QuestionBank, answers: &AnswerStore) -> (scores: Vec<ThematicScore>)
    ensures
        is_scoring_of(score_views(scores@), bank@, answers@),
{
    let mut scores: Vec<ThematicScore> = Vec::new();
    let n = bank.len();
    let mut k: usize = 0;
    while k < n
        invariant
            k <= n,
            n == bank@.len(),
            is_scoring_of(score_views(scores@), bank@.take(k as int), answers@),
        decreases n - k,
    {
        let question = bank.at(k);
        let ghost name = question@.thematic;
        let ghost before = score_views(scores@);
        let ghost asked = bank@.take(k as int);
        let ghost next = bank@.take(k + 1);
        // Where the name stands, or where it belongs.
        let mut p: usize = 0;
        while p < scores.len() && str_lt(scores[p].thematic.as_str(), question.thematic.as_str())
            invariant
                p <= scores.len(),
                name == question@.thematic,
                before == score_views(scores@),
                forall|i: int| 0 <= i < p ==> lex_lt((#[trigger] before[i]).thematic, name),
            decreases scores.len() - p,
        {
            assert(before[p as int] == scores@[p as int]@);
            p += 1;
        }
        let found = p < scores.len() && str_eq(
            scores[p].thematic.as_str(),
            question.thematic.as_str(),
        );
        let points: u128 = match answers.get(question.id) {
            Some(answer) => answer.to_score() as u128,
            None => 0,
        };
        proof {
            assert(points == points_of(answers@, bank@[k as int]));
            if p < before.len() {
                assert(before[p as int] == scores@[p as int]@);
            }
            lemma_lex_irreflexive(name);
            assert forall|i: int| 0 <= i < before.len() && i != p implies (
            #[trigger] before[i]).thematic != name by {
                if i > p {
                    assert(lex_lt(before[p as int].thematic, before[i].thematic));
                }
            }
            assert forall|i: int| 0 <= i < before.len() implies tally_step(
                bank@,
                answers@,
                k as int,
                (#[trigger] before[i]).thematic,
            ) by {
                lemma_tally_step(bank@, answers@, k as int, before[i].thematic);
            }
            lemma_tally_step(bank@, answers@, k as int, name);
            lemma_tally_bounds(asked, answers@, name);
            assert forall|j: int| 0 <= j < k implies asked[j] == #[trigger] next[j] by {}
            assert(next[k as int] == bank@[k as int]);
        }
        if found {
            let entry = &scores[p];
            let num = entry.score.numerator();
            let den = entry.score.denominator();
            let updated = ThematicScore {
                thematic: entry.thematic.clone(),
                score: Score { num: num + points, den: den + 1 },
            };
            scores.set(p, updated);
            proof {
                let after = score_views(scores@);
                assert(after =~= before.update(p as int, updated@));
                assert forall|i: int| 0 <= i < after.len() implies (#[trigger] after[i]).thematic
                    == before[i].thematic by {}
                assert(sorted_by_name(after)) by {
                    assert forall|i: int, j: int| 0 <= i < j < after.len() implies lex_lt(
                        (#[trigger] after[i]).thematic,
                        (#[trigger] after[j]).thematic,
                    ) by {
                        assert(lex_lt(before[i].thematic, before[j].thematic));
                    }
                }
                assert forall|j: int| 0 <= j < next.len() implies exists|i: int|
                    0 <= i < after.len() && (#[trigger] after[i]).thematic == (
                    #[trigger] next[j]).thematic by {
                    if j < k {
                        let i = choose|i: int|
                            0 <= i < before.len() && (#[trigger] before[i]).thematic
                                == asked[j].thematic;
                        assert(after[i].thematic == next[j].thematic);
                    } else {
                        assert(after[p as int].thematic == next[j].thematic);
                    }
                }
                assert forall|i: int| 0 <= i < after.len() implies {
                    let e = #[trigger] after[i];
                    &&& e.score.den >= 1
                    &&& e.score.den == thematic_count(next, e.thematic)
                    &&& e.score.num == thematic_points(next, answers@, e.thematic)
                } by {
                    assert(tally_step(bank@, answers@, k as int, before[i].thematic));
                    if i != p {
                        assert(after[i] == before[i]);
                    }
                }
            }
        } else {
            let added = ThematicScore {
                thematic: question.thematic.clone(),
                score: Score { num: points, den: 1 },
            };
            proof {
                assert forall|j: int| 0 <= j < asked.len() implies (#[trigger] asked[j]).thematic
                    != name by {
                    let i = choose|i: int|
                        0 <= i < before.len() && (#[trigger] before[i]).thematic
                            == asked[j].thematic;
                }
                lemma_tally_absent(asked, answers@, name);
                assert forall|i: int| p <= i < before.len() implies lex_lt(
                    name,
                    (#[trigger] before[i]).thematic,
                ) by {
                    lemma_lex_total(before[p as int].thematic, name);
                    if i > p {
                        assert(lex_lt(before[p as int].thematic, before[i].thematic));
                        lemma_lex_transitive(name, before[p as int].thematic, before[i].thematic);
                    }
                }
            }
            scores.insert(p, added);
            proof {
                let after = score_views(scores@);
                assert(after =~= before.insert(p as int, added@));
                assert forall|i: int| 0 <= i < after.len() && i != p implies #[trigger] after[i]
                    == before[if i < p {
                    i
                } else {
                    i - 1
                }] by {}
                assert(sorted_by_name(after)) by {
                    assert forall|i: int, j: int| 0 <= i < j < after.len() implies lex_lt(
                        (#[trigger] after[i]).thematic,
                        (#[trigger] after[j]).thematic,
                    ) by {
                        if j == p {
                            assert(lex_lt(before[i].thematic, name));
                        } else if i == p {
                            assert(lex_lt(name, before[j - 1].thematic));
                        } else {
                            let i0 = if i < p {
                                i
                            } else {
                                i - 1
                            };
                            assert(lex_lt(before[i0].thematic, before[j - 1].thematic) || j < p);
                            if j < p {
                                assert(lex_lt(before[i].thematic, before[j].thematic));
                            }
                        }
                    }
                }
                assert forall|j: int| 0 <= j < next.len() implies exists|i: int|
                    0 <= i < after.len() && (#[trigger] after[i]).thematic == (
                    #[trigger] next[j]).thematic by {
                    if j < k {
                        let i = choose|i: int|
                            0 <= i < before.len() && (#[trigger] before[i]).thematic
                                == asked[j].thematic;
                        let i1 = if i < p {
                            i
                        } else {
                            i + 1
                        };
                        assert(after[i1].thematic == next[j].thematic);
                    } else {
                        assert(after[p as int].thematic == next[j].thematic);
                    }
                }
                assert forall|i: int| 0 <= i < after.len() implies {
                    let e = #[trigger] after[i];
                    &&& e.score.den >= 1
                    &&& e.score.den == thematic_count(next, e.thematic)
                    &&& e.score.num == thematic_points(next, answers@, e.thematic)
                } by {
                    if i != p {
                        let i0 = if i < p {
                            i
                        } else {
                            i - 1
                        };
                        assert(tally_step(bank@, answers@, k as int, before[i0].thematic));
                    }
                }
            }
        }
        k += 1;
    }
    proof {
        assert(bank@.take(k as int) =~= bank@);
    }
    scores
}

/// The sum of the scores of a list, as one fraction over the product of the
/// denominators.
pub open spec fn sum_of(scores: Seq<ThematicScoreView>) -> Ratio
    decreases scores.len(),
{
    if scores.len() == 0 {
        Ratio { num: 0, den: 1 }
    } else {
        sum_of(scores.drop_last()).plus(scores.last().score)
    }
}

/// The mean of the scores of a list, each thematic weighing the same
/// whatever the number of its questions. The mean of no score is 0.
pub open spec fn mean_of(scores: Seq<ThematicScoreView>) -> Ratio {
    if scores.len() == 0 {
        Ratio { num: 0, den: 1 }
    } else {
        sum_of(scores).shared_among(scores.len() as int)
    }
}

/// Every entry of the list is a score.
pub open spec fn all_scores(scores: Seq<ThematicScoreView>) -> bool {
    forall|i: int| 0 <= i < scores.len() ==> (#[trigger] scores[i]).score.is_score()
}

/// The first `i` entries of a list of scores are scores.
proof fn lemma_prefix_scores(scores: Seq<ThematicScoreView>, i: int)
    requires
        all_scores(scores),
        0 <= i <= scores.len(),
    ensures
        all_scores(scores.take(i)),
{
    assert forall|j: int| 0 <= j < scores.take(i).len() implies (#[trigger] scores.take(
        i,
    )[j]).score.is_score() by {
        assert(scores.take(i)[j] == scores[j]);
    }
}

/// The sum of `n` scores lies between 0 and `100 * n`.
pub proof fn lemma_sum_bounds(scores: Seq<ThematicScoreView>)
    requires
        all_scores(scores),
    ensures
        sum_of(scores).den >= 1,
        0 <= sum_of(scores).num <= 100 * scores.len() * sum_of(scores).den,
    decreases scores.len(),
{
    if scores.len() > 0 {
        let rest = scores.drop_last();
        assert forall|i: int| 0 <= i < rest.len() implies (#[trigger] rest[i]).score.is_score() by {
            assert(rest[i] == scores[i]);
        }
        lemma_sum_bounds(rest);
        let s = sum_of(rest);
        let e = scores.last().score;
        let n = rest.len() as int;
        assert(e.is_score()) by {
            assert(scores.last() == scores[scores.len() - 1]);
        }
        assert(s.den * e.den >= 1 && 0 <= s.num * e.den + e.num * s.den && s.num * e.den + e.num
            * s.den <= 100 * (n + 1) * (s.den * e.den)) by (nonlinear_arith)
            requires
                s.den >= 1,
                e.den >= 1,
                0 <= s.num <= 100 * n * s.den,
                0 <= e.num <= 100 * e.den,
                n >= 0,
        ;
    }
}

/// Where every thematic has the same score, the mean is that score.
pub proof fn lemma_mean_of_equal_scores(scores: Seq<ThematicScoreView>, points: int)
    requires
        scores.len() >= 1,
        forall|i: int|
            0 <= i < scores.len() ==> (#[trigger] scores[i]).score.is_exactly(points),
    ensures
        mean_of(scores).is_exactly(points),
{
    lemma_sum_of_equal_scores(scores, points);
    let s = sum_of(scores);
    let n = scores.len() as int;
    assert(s.num == points * (s.den * n)) by (nonlinear_arith)
        requires
            s.num == points * n * s.den,
    ;
}

/// The sum of `n` scores that are all `points` is `n * points`.
proof fn lemma_sum_of_equal_scores(scores: Seq<ThematicScoreView>, points: int)
    requires
        forall|i: int|
            0 <= i < scores.len() ==> (#[trigger] scores[i]).score.is_exactly(points),
    ensures
        sum_of(scores).num == points * scores.len() * sum_of(scores).den,
    decreases scores.len(),
{
    if scores.len() > 0 {
        let rest = scores.drop_last();
        assert forall|i: int| 0 <= i < rest.len() implies (#[trigger] rest[i]).score.is_exactly(
            points,
        ) by {
            assert(rest[i] == scores[i]);
        }
        lemma_sum_of_equal_scores(rest, points);
        let s = sum_of(rest);
        let e = scores.last().score;
        let n = rest.len() as int;
        assert(e.is_exactly(points)) by {
            assert(scores.last() == scores[scores.len() - 1]);
        }
        assert(s.num * e.den + e.num * s.den == points * (n + 1) * (s.den * e.den))
            by (nonlinear_arith)
            requires
                s.num == points * n * s.den,
                e.num == points * e.den,
        ;
    }
}

/// The least common denominator of the scores of a list.
pub open spec fn common_den(scores: Seq<ThematicScoreView>) -> nat
    decreases scores.len(),
{
    if scores.len() == 0 {
        1
    } else {
        lcm(common_den(scores.drop_last()), scores.last().score.den as nat)
    }
}

/// The sum of the numerators of the scores of a list once each score is
/// brought over the denominator `den`.
pub open spec fn sum_over(scores: Seq<ThematicScoreView>, den: int) -> int
    decreases scores.len(),
{
    if scores.len() == 0 {
        0
    } else {
        sum_over(scores.drop_last(), den) + scores.last().score.num * (den
            / scores.last().score.den)
    }
}

/// The global score of a list of scores: their mean, written over the
/// least common denominator times the number of scores. The global score
/// of no score is 0.
pub open spec fn global_of(scores: Seq<ThematicScoreView>) -> Ratio {
    if scores.len() == 0 {
        Ratio { num: 0, den: 1 }
    } else {
        Ratio {
            num: sum_over(scores, common_den(scores) as int),
            den: (common_den(scores) * scores.len()) as int,
        }
    }
}

/// The least common denominator of the first scores of a list divides that
/// of the whole list, and is no greater.
pub proof fn lemma_common_den_prefix(scores: Seq<ThematicScoreView>, i: int)
    requires
        all_scores(scores),
        0 <= i <= scores.len(),
    ensures
        1 <= common_den(scores.take(i)) <= common_den(scores),
        common_den(scores) % common_den(scores.take(i)) == 0,
    decreases scores.len() - i,
{
    if i == scores.len() {
        assert(scores.take(i) =~= scores);
        lemma_common_den_positive(scores);
        let all = common_den(scores);
        assert((1 * all) % all == 0) by {
            vstd::arithmetic::div_mod::lemma_mod_multiples_basic(1, all as int);
        }
    } else {
        lemma_common_den_prefix(scores, i + 1);
        lemma_prefix_scores(scores, i);
        lemma_common_den_positive(scores.take(i));
        assert(scores.take(i + 1).drop_last() =~= scores.take(i));
        assert(scores.take(i + 1).last() == scores[i]);
        let here = common_den(scores.take(i));
        let next = common_den(scores.take(i + 1));
        let all = common_den(scores);
        lemma_lcm(here, scores[i].score.den as nat);
        lemma_multiple(all, next);
        lemma_multiple_of_multiple(next, all / next, here);
    }
}

/// The least common denominator of scores is positive.
pub proof fn lemma_common_den_positive(scores: Seq<ThematicScoreView>)
    requires
        all_scores(scores),
    ensures
        common_den(scores) >= 1,
    decreases scores.len(),
{
    if scores.len() > 0 {
        let rest = scores.drop_last();
        assert(scores.take(scores.len() - 1) =~= rest);
        lemma_prefix_scores(scores, scores.len() - 1);
        lemma_common_den_positive(rest);
        assert(scores.last() == scores[scores.len() - 1]);
        lemma_lcm(common_den(rest), scores.last().score.den as nat);
    }
}

/// The denominator of each score divides the least common denominator.
pub proof fn lemma_den_divides_common(scores: Seq<ThematicScoreView>, i: int)
    requires
        all_scores(scores),
        0 <= i < scores.len(),
    ensures
        common_den(scores) % (scores[i].score.den as nat) == 0,
{
    lemma_common_den_prefix(scores, i + 1);
    lemma_common_den_prefix(scores, i);
    assert(scores.take(i + 1).drop_last() =~= scores.take(i));
    assert(scores.take(i + 1).last() == scores[i]);
    let next = common_den(scores.take(i + 1));
    let all = common_den(scores);
    lemma_lcm(common_den(scores.take(i)), scores[i].score.den as nat);
    lemma_multiple(all, next);
    lemma_multiple_of_multiple(next, all / next, scores[i].score.den as nat);
}

/// Over a denominator that every score's denominator divides, the summed
/// numerators are the sum of the scores, and lie between 0 and 100 for each
/// score.
pub proof fn lemma_sum_over_is_the_sum(scores: Seq<ThematicScoreView>, den: nat)
    requires
        all_scores(scores),
        den >= 1,
        forall|i: int|
            0 <= i < scores.len() ==> den % ((#[trigger] scores[i]).score.den as nat) == 0,
    ensures
        sum_over(scores, den as int) * sum_of(scores).den == sum_of(scores).num * den,
        0 <= sum_over(scores, den as int) <= 100 * scores.len() * den,
    decreases scores.len(),
{
    if scores.len() > 0 {
        let rest = scores.drop_last();
        let e = scores.last().score;
        assert(scores.last() == scores[scores.len() - 1]);
        assert(scores.take(scores.len() - 1) =~= rest);
        lemma_prefix_scores(scores, scores.len() - 1);
        assert forall|i: int| 0 <= i < rest.len() implies den % ((#[trigger] rest[i]).score.den
            as nat) == 0 by {
            assert(rest[i] == scores[i]);
        }
        lemma_sum_over_is_the_sum(rest, den);
        lemma_sum_bounds(rest);
        lemma_multiple(den, e.den as nat);
        let n = sum_over(rest, den as int);
        let s = sum_of(rest);
        let q = den as int / e.den;
        let k = rest.len() as int;
        let l = den as int;
        assert(e.num * q >= 0 && e.num * q <= 100 * l) by (nonlinear_arith)
            requires
                0 <= e.num <= 100 * e.den,
                l == e.den * q,
                e.den >= 1,
                q >= 0,
        ;
        assert(100 * k * l + 100 * l == 100 * (k + 1) * l) by (nonlinear_arith);
        assert((n + e.num * q) * (s.den * e.den) == (s.num * e.den + e.num * s.den) * l)
            by (nonlinear_arith)
            requires
                n * s.den == s.num * l,
                l == e.den * q,
        ;
    } else {
        assert(100 * 0 * den == 0) by (nonlinear_arith);
    }
}

/// The global score is the mean of the scores, and is a score.
pub proof fn lemma_global_is_the_mean(scores: Seq<ThematicScoreView>)
    requires
        all_scores(scores),
    ensures
        global_of(scores).same(mean_of(scores)),
        global_of(scores).is_score(),
{
    if scores.len() > 0 {
        let l = common_den(scores);
        lemma_common_den_positive(scores);
        assert forall|i: int| 0 <= i < scores.len() implies l % ((#[trigger] scores[i]).score.den
            as nat) == 0 by {
            lemma_den_divides_common(scores, i);
        }
        lemma_sum_over_is_the_sum(scores, l);
        let n = sum_over(scores, l as int);
        let s = sum_of(scores);
        let t = scores.len() as int;
        assert(n * (s.den * t) == s.num * (l * t)) by (nonlinear_arith)
            requires
                n * s.den == s.num * l,
        ;
        assert(l * t >= 1 && 100 * t * l == 100 * (l * t)) by (nonlinear_arith)
            requires
                l >= 1,
                t >= 1,
        ;
    }
}

/// Where every thematic has the same score, the global score is that score.
pub proof fn lemma_global_of_equal_scores(scores: Seq<ThematicScoreView>, points: int)
    requires
        all_scores(scores),
        scores.len() >= 1,
        forall|i: int|
            0 <= i < scores.len() ==> (#[trigger] scores[i]).score.is_exactly(points),
    ensures
        global_of(scores).is_exactly(points),
{
    lemma_global_is_the_mean(scores);
    lemma_mean_of_equal_scores(scores, points);
    lemma_sum_bounds(scores);
    let g = global_of(scores);
    let m = mean_of(scores);
    let t = scores.len() as int;
    assert(m.den >= 1) by (nonlinear_arith)
        requires
            m.den == sum_of(scores).den * t,
            sum_of(scores).den >= 1,
            t >= 1,
    ;
    assert(g.num == points * g.den) by (nonlinear_arith)
        requires
            g.num * m.den == m.num * g.den,
            m.num == points * m.den,
            m.den >= 1,
    ;
}

/// The entries of a scoring are scores: none is below 0 or above 100.
pub proof fn lemma_scoring_gives_scores(
    scores: Seq<ThematicScoreView>,
    questions: Seq<QuestionView>,
    answers: Map<u128, Answer>,
)
    requires
        is_scoring_of(scores, questions, answers),
    ensures
        all_scores(scores),
{
    assert forall|i: int| 0 <= i < scores.len() implies (#[trigger] scores[i]).score.is_score() by {
        lemma_tally_bounds(questions, answers, scores[i].thematic);
    }
}

/// Where every question brings in `points`, a thematic has `points` for
/// each of its questions.
proof fn lemma_tally_uniform(
    questions: Seq<QuestionView>,
    answers: Map<u128, Answer>,
    name: Seq<char>,
    points: nat,
)
    requires
        forall|j: int|
            0 <= j < questions.len() ==> points_of(answers, #[trigger] questions[j]) == points,
    ensures
        thematic_points(questions, answers, name) == points * thematic_count(questions, name),
    decreases questions.len(),
{
    if questions.len() > 0 {
        let rest = questions.drop_last();
        assert forall|j: int| 0 <= j < rest.len() implies points_of(answers, #[trigger] rest[j])
            == points by {
            assert(rest[j] == questions[j]);
        }
        lemma_tally_uniform(rest, answers, name, points);
        assert(questions.last() == questions[questions.len() - 1]);
        let c = thematic_count(rest, name);
        assert(points * c + points == points * (c + 1)) by (nonlinear_arith);
    } else {
        assert(points * 0 == 0) by (nonlinear_arith);
    }
}

/// Where every question has the same answer, or none has any, every
/// thematic has the score of that answer, and so has the mean: 100 where
/// all say yes, 0 where all say no, 50 where none knows, and 0 where nothing
/// is answered, an unanswered question counting as 0 and not being left out.
pub proof fn lemma_same_answer_everywhere(
    scores: Seq<ThematicScoreView>,
    questions: Seq<QuestionView>,
    answers: Map<u128, Answer>,
    given: Option<Answer>,
)
    requires
        is_scoring_of(scores, questions, answers),
        forall|j: int|
            0 <= j < questions.len() ==> stored(answers, (#[trigger] questions[j]).id) == given,
    ensures
        ({
            let points: int = match given {
                Some(answer) => answer.score() as int,
                None => 0,
            };
            &&& forall|i: int|
                0 <= i < scores.len() ==> (#[trigger] scores[i]).score.is_exactly(points)
            &&& scores.len() >= 1 ==> mean_of(scores).is_exactly(points)
            &&& scores.len() >= 1 ==> global_of(scores).is_exactly(points)
        }),
{
    let points: nat = match given {
        Some(answer) => answer.score(),
        None => 0,
    };
    assert forall|i: int| 0 <= i < scores.len() implies (#[trigger] scores[i]).score.is_exactly(
        points as int,
    ) by {
        lemma_tally_uniform(questions, answers, scores[i].thematic, points);
    }
    if scores.len() >= 1 {
        lemma_mean_of_equal_scores(scores, points as int);
        lemma_scoring_gives_scores(scores, questions, answers);
        lemma_global_of_equal_scores(scores, points as int);
    }
}

/// Whether `scores` has an entry of the name `name`.
pub open spec fn has_name(scores: Seq<ThematicScoreView>, name: Seq<char>) -> bool {
    exists|i: int| 0 <= i < scores.len() && (#[trigger] scores[i]).thematic == name
}

/// Two lists in strict dictionary order that hold the same names hold them
/// at the same places.
proof fn lemma_same_names(a: Seq<ThematicScoreView>, b: Seq<ThematicScoreView>)
    requires
        sorted_by_name(a),
        sorted_by_name(b),
        forall|i: int| 0 <= i < a.len() ==> has_name(b, (#[trigger] a[i]).thematic),
        forall|j: int| 0 <= j < b.len() ==> has_name(a, (#[trigger] b[j]).thematic),
    ensures
        a.len() == b.len(),
        forall|i: int| 0 <= i < a.len() ==> (#[trigger] a[i]).thematic == b[i].thematic,
    decreases a.len(),
{
    if a.len() == 0 {
        if b.len() > 0 {
            assert(has_name(a, b[0].thematic));
        }
    } else {
        let la = a.len() - 1;
        let lb = b.len() - 1;
        assert(has_name(b, a[la].thematic));
        let j = choose|j: int| 0 <= j < b.len() && (#[trigger] b[j]).thematic == a[la].thematic;
        assert(has_name(a, b[lb].thematic));
        let i = choose|i: int| 0 <= i < a.len() && (#[trigger] a[i]).thematic == b[lb].thematic;
        assert(a[la].thematic == b[lb].thematic) by {
            if j < lb && i < la {
                assert(lex_lt(b[j].thematic, b[lb].thematic));
                assert(lex_lt(a[i].thematic, a[la].thematic));
                lemma_lex_transitive(a[la].thematic, b[lb].thematic, a[la].thematic);
                lemma_lex_irreflexive(a[la].thematic);
            }
        }
        let ra = a.drop_last();
        let rb = b.drop_last();
        assert forall|x: int| 0 <= x < ra.len() implies has_name(rb, (#[trigger] ra[x]).thematic) by {
            assert(ra[x] == a[x]);
            assert(has_name(b, a[x].thematic));
            let y = choose|y: int| 0 <= y < b.len() && (#[trigger] b[y]).thematic == a[x].thematic;
            assert(lex_lt(a[x].thematic, a[la].thematic));
            lemma_lex_irreflexive(a[x].thematic);
            assert(rb[y].thematic == ra[x].thematic);
        }
        assert forall|y: int| 0 <= y < rb.len() implies has_name(ra, (#[trigger] rb[y]).thematic) by {
            assert(rb[y] == b[y]);
            assert(has_name(a, b[y].thematic));
            let x = choose|x: int| 0 <= x < a.len() && (#[trigger] a[x]).thematic == b[y].thematic;
            assert(lex_lt(b[y].thematic, b[lb].thematic));
            lemma_lex_irreflexive(b[y].thematic);
            assert(ra[x].thematic == rb[y].thematic);
        }
        assert(sorted_by_name(ra)) by {
            assert forall|x: int, y: int| 0 <= x < y < ra.len() implies lex_lt(
                (#[trigger] ra[x]).thematic,
                (#[trigger] ra[y]).thematic,
            ) by {
                assert(lex_lt(a[x].thematic, a[y].thematic));
            }
        }
        assert(sorted_by_name(rb)) by {
            assert forall|x: int, y: int| 0 <= x < y < rb.len() implies lex_lt(
                (#[trigger] rb[x]).thematic,
                (#[trigger] rb[y]).thematic,
            ) by {
                assert(lex_lt(b[x].thematic, b[y].thematic));
            }
        }
        lemma_same_names(ra, rb);
        assert forall|x: int| 0 <= x < a.len() implies (#[trigger] a[x]).thematic
            == b[x].thematic by {
            if x < la {
                assert(ra[x] == a[x] && rb[x] == b[x]);
            }
        }
    }
}

/// A name with a question is the thematic of some question.
proof fn lemma_counted_name_occurs(questions: Seq<QuestionView>, name: Seq<char>)
    requires
        thematic_count(questions, name) >= 1,
    ensures
        exists|j: int| 0 <= j < questions.len() && (#[trigger] questions[j]).thematic == name,
{
    if forall|j: int| 0 <= j < questions.len() ==> (#[trigger] questions[j]).thematic != name {
        lemma_tally_absent(questions, Map::empty(), name);
    }
}

/// Every name of one scoring is a name of every other scoring of the same
/// questions.
proof fn lemma_scorings_share_names(
    a: Seq<ThematicScoreView>,
    b: Seq<ThematicScoreView>,
    questions: Seq<QuestionView>,
    answers: Map<u128, Answer>,
)
    requires
        is_scoring_of(a, questions, answers),
        is_scoring_of(b, questions, answers),
    ensures
        forall|i: int| 0 <= i < a.len() ==> has_name(b, (#[trigger] a[i]).thematic),
{
    assert forall|i: int| 0 <= i < a.len() implies has_name(b, (#[trigger] a[i]).thematic) by {
        lemma_counted_name_occurs(questions, a[i].thematic);
        let q = choose|q: int|
            0 <= q < questions.len() && (#[trigger] questions[q]).thematic == a[i].thematic;
        let j = choose|j: int|
            0 <= j < b.len() && (#[trigger] b[j]).thematic == (#[trigger] questions[q]).thematic;
        assert(b[j].thematic == a[i].thematic);
    }
}

/// Questions and answers have one scoring only: scoring them again gives
/// the same scores.
pub proof fn lemma_scoring_is_unique(
    a: Seq<ThematicScoreView>,
    b: Seq<ThematicScoreView>,
    questions: Seq<QuestionView>,
    answers: Map<u128, Answer>,
)
    requires
        is_scoring_of(a, questions, answers),
        is_scoring_of(b, questions, answers),
    ensures
        a == b,
{
    lemma_scorings_share_names(a, b, questions, answers);
    lemma_scorings_share_names(b, a, questions, answers);
    lemma_same_names(a, b);
    assert forall|i: int| 0 <= i < a.len() implies a[i] == b[i] by {
        assert(a[i].thematic == b[i].thematic);
        assert(a[i].score.num == b[i].score.num);
        assert(a[i].score.den == b[i].score.den);
    }
    assert(a =~= b);
}

/// The outcome of an assessment: the average score of each thematic, and
/// how many of the questions have an answer.
#[derive(Debug)]
pub struct SurveyResults {
    scores: Vec<ThematicScore>,
    total_answered: usize,
    total_questions: usize,
}

/// What a `SurveyResults` holds.
pub struct SurveyResultsView {
    pub scores: Seq<ThematicScoreView>,
    pub total_answered: nat,
    pub total_questions: nat,
}

impl SurveyResultsView {
    /// The thematics stand in dictionary order, each once and with a score,
    /// and no more questions have an answer than there are questions.
    pub open spec fn wf(self) -> bool {
        &&& sorted_by_name(self.scores)
        &&& all_scores(self.scores)
        &&& self.total_answered <= self.total_questions
    }
}

impl View for SurveyResults {
    type V = SurveyResultsView;

    closed spec fn view(&self) -> SurveyResultsView {
        SurveyResultsView {
            scores: score_views(self.scores@),
            total_answered: self.total_answered as nat,
            total_questions: self.total_questions as nat,
        }
    }
}

impl SurveyResults {
    #[verifier::type_invariant]
    spec fn inv(self) -> bool {
        self@.wf()
    }

    /// Puts results together from a scoring and the two counts.
    pub(crate) fn assemble(
        scores: Vec<ThematicScore>,
        total_answered: usize,
        total_questions: usize,
    ) -> (results: SurveyResults)
        requires
            sorted_by_name(score_views(scores@)),
            all_scores(score_views(scores@)),
            total_answered <= total_questions,
        ensures
            results@.scores == score_views(scores@),
            results@.total_answered == total_answered,
            results@.total_questions == total_questions,
    {
        SurveyResults { scores, total_answered, total_questions }
    }

    /// The scores of the thematics, in dictionary order of their names.
    pub fn scores(&self) -> (scores: &Vec<ThematicScore>)
        ensures
            score_views(scores@) == self@.scores,
            self@.wf(),
    {
        proof {
            use_type_invariant(self);
        }
        &self.scores
    }

    /// The score of the thematic `thematic`, if the results hold one of
    /// that name.
    pub fn score_of(&self, thematic: &str) -> (score: Option<Score>)
        ensures
            match score {
                Some(s) => exists|i: int|
                    0 <= i < self@.scores.len() && (#[trigger] self@.scores[i]).thematic
                        == thematic@ && self@.scores[i].score == s@,
                None => forall|i: int|
                    0 <= i < self@.scores.len() ==> (#[trigger] self@.scores[i]).thematic
                        != thematic@,
            },
    {
        let mut i: usize = 0;
        while i < self.scores.len()
            invariant
                i <= self.scores.len(),
                forall|j: int|
                    0 <= j < i ==> (#[trigger] self@.scores[j]).thematic != thematic@,
            decreases self.scores.len() - i,
        {
            assert(self@.scores[i as int] == self.scores@[i as int]@);
            if str_eq(self.scores[i].thematic.as_str(), thematic) {
                return Some(self.scores[i].score);
            }
            i += 1;
        }
        None
    }

    /// How many questions have an answer.
    pub fn total_answered(&self) -> (n: usize)
        ensures
            n == self@.total_answered,
            n <= self@.total_questions,
    {
        proof {
            use_type_invariant(self);
        }
        self.total_answered
    }

    /// How many questions were asked.
    pub fn total_questions(&self) -> (n: usize)
        ensures
            n == self@.total_questions,
    {
        self.total_questions
    }

    /// The global score: the mean of the scores of the thematics, as one
    /// exact fraction over their least common denominator times their
    /// number. It is `None` where a hundred times that denominator does not
    /// fit the machine's widest integer.
    pub fn global_score(&self) -> (global: Option<Score>)
        ensures
            global is Some <==> 100 * global_of(self@.scores).den <= u128::MAX,
            global matches Some(s) ==> s@ == global_of(self@.scores),
            global_of(self@.scores).same(mean_of(self@.scores)),
    {
        proof {
            use_type_invariant(self);
            lemma_global_is_the_mean(self@.scores);
        }
        let ghost all = self@.scores;
        let t = self.scores.len();
        if t == 0 {
            return Some(Score { num: 0, den: 1 });
        }
        // The denominator first: nothing is added up unless the result fits.
        let mut den: u128 = 1;
        let mut i: usize = 0;
        while i < t
            invariant
                i <= t,
                t == self.scores.len(),
                t >= 1,
                all == score_views(self.scores@),
                all == self@.scores,
                all_scores(all),
                global_of(all).same(mean_of(all)),
                den == common_den(all.take(i as int)),
            decreases t - i,
        {
            let d = self.scores[i].score.denominator();
            proof {
                assert(all[i as int] == self.scores@[i as int]@);
                assert(all.take(i + 1).drop_last() =~= all.take(i as int));
                assert(all.take(i + 1).last() == all[i as int]);
                lemma_common_den_prefix(all, i as int);
                lemma_common_den_prefix(all, i + 1);
                lemma_gcd_divides(den as nat, d as nat);
                lemma_lcm(den as nat, d as nat);
            }
            let share = d / gcd_of(den, d);
            match den.checked_mul(share) {
                Some(product) => {
                    den = product;
                },
                None => {
                    assert(100 * (common_den(all) * t) > u128::MAX) by (nonlinear_arith)
                        requires
                            common_den(all) > u128::MAX,
                            t >= 1,
                    ;
                    return None;
                },
            }
            i += 1;
        }
        proof {
            assert(all.take(t as int) =~= all);
            lemma_common_den_positive(all);
        }
        let shared = match den.checked_mul(t as u128) {
            Some(product) => product,
            None => {
                return None;
            },
        };
        if shared > u128::MAX / 100 {
            return None;
        }
        let mut num: u128 = 0;
        let mut j: usize = 0;
        while j < t
            invariant
                j <= t,
                t == self.scores.len(),
                t >= 1,
                all == score_views(self.scores@),
                all_scores(all),
                den == common_den(all),
                den >= 1,
                shared == den * t,
                100 * (den * t) <= u128::MAX,
                num == sum_over(all.take(j as int), den as int),
                num <= 100 * j * den,
            decreases t - j,
        {
            let a = self.scores[j].score.numerator();
            let b = self.scores[j].score.denominator();
            proof {
                assert(all[j as int] == self.scores@[j as int]@);
                assert(all.take(j + 1).drop_last() =~= all.take(j as int));
                assert(all.take(j + 1).last() == all[j as int]);
                lemma_den_divides_common(all, j as int);
                lemma_multiple(den as nat, b as nat);
                let q = (den / b) as int;
                assert(a * q <= 100 * den && a * q >= 0) by (nonlinear_arith)
                    requires
                        0 <= a <= 100 * b,
                        den == b * q,
                        b >= 1,
                        q >= 0,
                ;
                assert(100 * j * den + 100 * den == 100 * (j + 1) * den && 100 * (j + 1) * den
                    <= 100 * (den * t)) by (nonlinear_arith)
                    requires
                        j + 1 <= t,
                        den >= 1,
                ;
            }
            num = num + a * (den / b);
            j += 1;
        }
        proof {
            assert(all.take(t as int) =~= all);
            assert(100 * t * den == 100 * (den * t) && den * t >= 1) by (nonlinear_arith)
                requires
                    t >= 1,
                    den >= 1,
            ;
        }
        Some(Score { num, den: shared })
    }
}

} // verus!
