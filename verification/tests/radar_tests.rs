use mini_audit::models::{QuestionYaml, ThematicQuestions};
use mini_audit::radar::{radar_layout, score_label, Angle, RadiusFraction};
use mini_audit::scoring::{Score, ThematicScore};
use mini_audit::survey::Survey;

fn entry(name: &str, num: u128, den: u128) -> ThematicScore {
    ThematicScore { thematic: name.to_string(), score: Score::new(num, den).unwrap() }
}

fn radians(angle: &Angle) -> f64 {
    angle.num as f64 / angle.den as f64 * std::f64::consts::FRAC_PI_2
}

#[test]
fn no_thematic_gives_no_point() {
    assert!(radar_layout(&Vec::new()).is_empty());
}

#[test]
fn one_thematic_stands_at_the_top() {
    let points = radar_layout(&vec![entry("A", 100, 1)]);
    assert_eq!(points.len(), 1);
    assert_eq!(points[0].thematic, "A");
    assert_eq!(points[0].angle, Angle { num: -1, den: 1 });
    assert_eq!(points[0].radius_fraction, RadiusFraction { num: 100, den: 100 });
    assert_eq!(points[0].score_label, "100%");
}

#[test]
fn five_thematics_are_evenly_spaced_from_the_top() {
    let scores = vec![
        entry("Business Model", 100, 2),
        entry("Financement", 0, 3),
        entry("Go-to-Market", 250, 3),
        entry("Organisation", 100, 1),
        entry("Produit", 100, 3),
    ];
    let points = radar_layout(&scores);
    assert_eq!(points.len(), 5);
    let expected = [-5i128, -1, 3, 7, 11];
    for (i, point) in points.iter().enumerate() {
        assert_eq!(point.thematic, scores[i].thematic);
        assert_eq!(point.angle, Angle { num: expected[i], den: 5 });
        let wanted = i as f64 * (2.0 * std::f64::consts::PI / 5.0) - std::f64::consts::FRAC_PI_2;
        assert!((radians(&point.angle) - wanted).abs() < 1e-12);
    }
    assert_eq!(radians(&points[0].angle), -std::f64::consts::FRAC_PI_2);
    for pair in points.windows(2) {
        assert_eq!(pair[1].angle.num - pair[0].angle.num, 4);
        assert_eq!(pair[1].angle.den, pair[0].angle.den);
    }
}

#[test]
fn radius_fraction_is_the_score_over_100() {
    let points = radar_layout(&vec![entry("A", 100, 2), entry("B", 250, 3), entry("C", 0, 7)]);
    assert_eq!(points[0].radius_fraction, RadiusFraction { num: 100, den: 200 });
    assert_eq!(points[1].radius_fraction, RadiusFraction { num: 250, den: 300 });
    assert_eq!(points[2].radius_fraction, RadiusFraction { num: 0, den: 700 });
    let half = points[0].radius_fraction;
    assert_eq!(half.num as f64 / half.den as f64, 0.5);
}

#[test]
fn labels_show_whole_points() {
    assert_eq!(score_label(&Score::new(0, 1).unwrap()), "0%");
    assert_eq!(score_label(&Score::new(100, 3).unwrap()), "33%");
    assert_eq!(score_label(&Score::new(125, 2).unwrap()), "63%");
    assert_eq!(score_label(&Score::new(100, 1).unwrap()), "100%");
    let points = radar_layout(&vec![entry("A", 200, 3)]);
    assert_eq!(points[0].score_label, "67%");
}

#[test]
fn layout_of_results_follows_their_order() {
    let sources = vec![
        Some(ThematicQuestions {
            thematic: "Z".to_string(),
            questions: vec![QuestionYaml { text: "z".to_string(), description: None }],
        }),
        Some(ThematicQuestions {
            thematic: "A".to_string(),
            questions: vec![QuestionYaml { text: "a".to_string(), description: None }],
        }),
    ];
    let mut survey = Survey::new(&sources);
    survey.answer_question(0, "oui");
    let results = survey.get_results();
    let points = radar_layout(results.scores());
    assert_eq!(points.len(), 2);
    assert_eq!(points[0].thematic, "A");
    assert_eq!(points[0].score_label, "0%");
    assert_eq!(points[0].angle, Angle { num: -2, den: 2 });
    assert_eq!(points[1].thematic, "Z");
    assert_eq!(points[1].score_label, "100%");
    assert_eq!(points[1].angle, Angle { num: 2, den: 2 });
}
