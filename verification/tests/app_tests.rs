use mini_audit::app::{App, Effect, FormData, Msg, Screen, SubmissionState};
use mini_audit::models::{QuestionYaml, ThematicQuestions};
use mini_audit::survey::Survey;
use mini_audit::validation::FormError;
use mini_audit::view::ViewState;

fn definition(name: &str, texts: &[&str]) -> Option<ThematicQuestions> {
    Some(ThematicQuestions {
        thematic: name.to_string(),
        questions: texts
            .iter()
            .map(|t| QuestionYaml { text: t.to_string(), description: None })
            .collect(),
    })
}

fn app() -> App {
    App::new(vec![definition("A", &["a1", "a2"]), None, definition("B", &["b1", "b2"])])
}

fn started() -> App {
    let mut app = app();
    app.update(Msg::StartSurvey);
    app
}

fn fill(app: &mut App) {
    for (field, value) in [
        ("startup_name", "Acme"),
        ("contact_name", "Ada"),
        ("contact_email", "ada@acme.io"),
        ("contact_phone", "06 12 34 56 78"),
        ("message", "Bonjour"),
    ] {
        app.update(Msg::UpdateFormField(field.to_string(), value.to_string()));
    }
}

fn value_is(score: &mini_audit::scoring::Score, points: u128) -> bool {
    score.numerator() == points * score.denominator()
}

#[test]
fn starts_on_the_welcome_screen() {
    let app = app();
    assert_eq!(app.screen(), Screen::Welcome);
    assert!(app.survey().is_none());
    assert!(app.results().is_none());
    assert_eq!(app.current_question_index(), 0);
    assert!(matches!(app.submission(), SubmissionState::Idle));
    assert!(app.form_error().is_none());
    assert_eq!(app.form_data().startup_name, "");
    assert!(matches!(app.view_state(), ViewState::Welcome));
}

#[test]
fn start_builds_the_assessment_and_shows_the_first_question() {
    let mut app = app();
    let effect = app.update(Msg::StartSurvey);
    assert!(matches!(effect, Effect::Render));
    assert_eq!(app.screen(), Screen::Questions);
    assert_eq!(app.current_question_index(), 0);
    let survey = app.survey().unwrap();
    assert_eq!(survey.total_questions(), 4);
    assert_eq!(survey.get_question(0).question.text, "a1");
    assert_eq!(survey.get_question(2).question.text, "b1");
}

#[test]
fn starting_again_drops_the_answers() {
    let mut app = started();
    app.update(Msg::AnswerQuestion("oui".to_string()));
    app.update(Msg::StartSurvey);
    assert_eq!(app.current_question_index(), 0);
    assert_eq!(app.screen(), Screen::Questions);
    let survey = app.survey().unwrap();
    assert_eq!(survey.get_question(0).answer, None);
}

#[test]
fn answering_records_and_moves_on() {
    let mut app = started();
    let effect = app.update(Msg::AnswerQuestion("oui".to_string()));
    assert!(matches!(effect, Effect::Render));
    assert_eq!(app.current_question_index(), 1);
    assert_eq!(app.screen(), Screen::Questions);
    assert_eq!(app.survey().unwrap().get_question(0).answer, Some("oui".to_string()));
    assert!(app.results().is_none());
}

#[test]
fn an_unknown_token_moves_on_without_recording() {
    let mut app = started();
    app.update(Msg::AnswerQuestion("bof".to_string()));
    assert_eq!(app.current_question_index(), 1);
    assert_eq!(app.survey().unwrap().get_question(0).answer, None);
}

#[test]
fn next_skips_without_an_answer() {
    let mut app = started();
    app.update(Msg::NextQuestion);
    assert_eq!(app.current_question_index(), 1);
    assert_eq!(app.survey().unwrap().get_results().total_answered(), 0);
}

#[test]
fn previous_at_the_first_question_changes_nothing() {
    let mut app = started();
    app.update(Msg::PreviousQuestion);
    assert_eq!(app.current_question_index(), 0);
    assert_eq!(app.screen(), Screen::Questions);
    app.update(Msg::NextQuestion);
    app.update(Msg::NextQuestion);
    app.update(Msg::PreviousQuestion);
    assert_eq!(app.current_question_index(), 1);
}

#[test]
fn the_last_question_leads_to_the_results() {
    let mut app = started();
    for _ in 0..3 {
        app.update(Msg::AnswerQuestion("oui".to_string()));
    }
    assert_eq!(app.current_question_index(), 3);
    assert_eq!(app.screen(), Screen::Questions);
    app.update(Msg::AnswerQuestion("non".to_string()));
    assert_eq!(app.screen(), Screen::Results);
    assert_eq!(app.current_question_index(), 3);
    let results = app.results().unwrap();
    assert_eq!(results.total_answered(), 4);
    assert!(value_is(&results.score_of("A").unwrap(), 100));
    assert!(value_is(&results.score_of("B").unwrap(), 50));
}

#[test]
fn next_on_the_last_question_leads_to_the_results() {
    let mut app = started();
    for _ in 0..4 {
        app.update(Msg::NextQuestion);
    }
    assert_eq!(app.screen(), Screen::Results);
    assert_eq!(app.current_question_index(), 3);
    assert_eq!(app.results().unwrap().total_answered(), 0);
}

#[test]
fn the_position_stays_in_range_whatever_the_commands() {
    let mut app = started();
    let mut seed: u32 = 12345;
    for _ in 0..500 {
        seed = seed.wrapping_mul(1103515245).wrapping_add(12345);
        let msg = match (seed >> 16) % 3 {
            0 => Msg::AnswerQuestion("oui".to_string()),
            1 => Msg::NextQuestion,
            _ => Msg::PreviousQuestion,
        };
        app.update(msg);
        assert!(app.current_question_index() < 4);
        assert_eq!(app.survey().unwrap().total_questions(), 4);
    }
}

#[test]
fn end_to_end_through_the_controller() {
    let mut app = started();
    app.update(Msg::AnswerQuestion("oui".to_string()));
    app.update(Msg::AnswerQuestion("oui".to_string()));
    app.update(Msg::AnswerQuestion("non".to_string()));
    app.update(Msg::PreviousQuestion);
    app.update(Msg::NextQuestion);
    app.update(Msg::AnswerQuestion("non".to_string()));
    app.update(Msg::ShowResults);
    assert_eq!(app.screen(), Screen::Results);
    let results = app.results().unwrap();
    assert_eq!(results.scores().len(), 2);
    let a = results.score_of("A").unwrap();
    let b = results.score_of("B").unwrap();
    assert_eq!(a.numerator() as f64 / a.denominator() as f64, 100.0);
    assert_eq!(b.numerator() as f64 / b.denominator() as f64, 0.0);
    let global = results.global_score().unwrap();
    assert_eq!(global.numerator() as f64 / global.denominator() as f64, 50.0);
    assert_eq!(results.total_answered(), 4);
}

#[test]
fn show_results_can_be_repeated() {
    let mut app = started();
    app.update(Msg::AnswerQuestion("oui".to_string()));
    app.update(Msg::ShowResults);
    let first = app.results().unwrap().score_of("A").unwrap();
    app.update(Msg::ShowResults);
    let second = app.results().unwrap().score_of("A").unwrap();
    assert_eq!(
        (first.numerator(), first.denominator()),
        (second.numerator(), second.denominator())
    );
    assert_eq!((second.numerator(), second.denominator()), (100, 2));
    assert_eq!(app.screen(), Screen::Results);
}

#[test]
fn show_results_without_an_assessment_changes_nothing() {
    let mut app = app();
    let effect = app.update(Msg::ShowResults);
    assert!(matches!(effect, Effect::Render));
    assert_eq!(app.screen(), Screen::Welcome);
    assert!(app.results().is_none());
    app.update(Msg::AnswerQuestion("oui".to_string()));
    app.update(Msg::NextQuestion);
    app.update(Msg::PreviousQuestion);
    assert_eq!(app.screen(), Screen::Welcome);
    assert_eq!(app.current_question_index(), 0);
}

#[test]
fn contact_and_back() {
    let mut app = started();
    app.update(Msg::ShowResults);
    app.update(Msg::ShowContact);
    assert_eq!(app.screen(), Screen::Contact);
    assert!(app.results().is_some());
    app.update(Msg::BackToResults);
    assert_eq!(app.screen(), Screen::Results);
    assert!(app.results().is_some());
    assert!(app.survey().is_some());
}

#[test]
fn update_field_sets_the_named_field() {
    let mut app = app();
    fill(&mut app);
    let form = app.form_data();
    assert_eq!(form.startup_name, "Acme");
    assert_eq!(form.contact_name, "Ada");
    assert_eq!(form.contact_email, "ada@acme.io");
    assert_eq!(form.contact_phone, "06 12 34 56 78");
    assert_eq!(form.message, "Bonjour");
}

#[test]
fn update_of_an_unknown_field_is_passed_over() {
    let mut app = app();
    fill(&mut app);
    let effect = app.update(Msg::UpdateFormField("email".to_string(), "x".to_string()));
    assert!(matches!(effect, Effect::Render));
    app.update(Msg::UpdateFormField("".to_string(), "x".to_string()));
    app.update(Msg::UpdateFormField("Startup_name".to_string(), "x".to_string()));
    let form = app.form_data();
    assert_eq!(form.startup_name, "Acme");
    assert_eq!(form.contact_email, "ada@acme.io");
}

#[test]
fn set_field_on_the_form() {
    let mut form = FormData::default();
    form.set_field("message", "m".to_string());
    form.set_field("nothing", "n".to_string());
    assert_eq!(form.message, "m");
    assert_eq!(form.startup_name, "");
    let copy = form.clone();
    assert_eq!(copy.message, "m");
}

#[test]
fn submit_of_a_form_with_an_error_sets_the_message() {
    let mut app = app();
    let effect = app.update(Msg::SubmitForm);
    assert!(matches!(effect, Effect::Render));
    assert_eq!(app.form_error().unwrap(), "Le nom de la startup est requis");
    assert!(matches!(app.submission(), SubmissionState::Idle));
    assert_eq!(app.screen(), Screen::Welcome);
}

#[test]
fn submit_of_a_good_form_hands_out_the_request() {
    let mut app = app();
    app.update(Msg::SubmitForm);
    fill(&mut app);
    let effect = app.update(Msg::SubmitForm);
    match effect {
        Effect::Send(body) => {
            let value: serde_json::Value = serde_json::from_str(&body).unwrap();
            assert_eq!(value["startup_name"].as_str(), Some("Acme"));
            assert_eq!(value["contact_email"].as_str(), Some("ada@acme.io"));
        }
        other => panic!("no request: {:?}", other),
    }
    assert!(matches!(app.submission(), SubmissionState::Submitting));
    assert!(app.form_error().is_none());
}

#[test]
fn second_submit_while_pending_is_turned_down() {
    let mut app = app();
    fill(&mut app);
    assert!(matches!(app.update(Msg::SubmitForm), Effect::Send(_)));
    let second = app.update(Msg::SubmitForm);
    assert!(matches!(second, Effect::Ignored));
    assert!(matches!(app.submission(), SubmissionState::Submitting));
    assert!(app.form_error().is_none());
    assert_eq!(app.form_data().startup_name, "Acme");
}

#[test]
fn success_settles_the_request() {
    let mut app = app();
    fill(&mut app);
    app.update(Msg::SubmitForm);
    let effect = app.update(Msg::FormSubmitSuccess);
    assert!(matches!(effect, Effect::Render));
    assert!(matches!(app.submission(), SubmissionState::Succeeded));
    assert!(app.form_error().is_none());
}

#[test]
fn failure_settles_the_request_and_allows_another() {
    let mut app = app();
    fill(&mut app);
    app.update(Msg::SubmitForm);
    app.update(Msg::FormSubmitError("Erreur HTTP: 500".to_string()));
    match app.submission() {
        SubmissionState::Failed(message) => assert_eq!(message, "Erreur HTTP: 500"),
        other => panic!("no failure: {:?}", other),
    }
    assert_eq!(app.form_error().unwrap(), "Erreur HTTP: 500");
    assert!(matches!(app.update(Msg::SubmitForm), Effect::Send(_)));
    assert!(matches!(app.submission(), SubmissionState::Submitting));
    assert!(app.form_error().is_none());
}

#[test]
fn reset_clears_everything() {
    let mut app = started();
    app.update(Msg::AnswerQuestion("oui".to_string()));
    app.update(Msg::ShowResults);
    app.update(Msg::ShowContact);
    fill(&mut app);
    app.update(Msg::SubmitForm);
    app.update(Msg::FormSubmitError("x".to_string()));
    let effect = app.update(Msg::GoToWelcome);
    assert!(matches!(effect, Effect::Render));
    assert_eq!(app.screen(), Screen::Welcome);
    assert!(app.survey().is_none());
    assert!(app.results().is_none());
    assert_eq!(app.current_question_index(), 0);
    assert!(matches!(app.submission(), SubmissionState::Idle));
    assert!(app.form_error().is_none());
    assert_eq!(app.form_data().startup_name, "");
    assert_eq!(app.form_data().message, "");
    app.update(Msg::StartSurvey);
    assert_eq!(app.survey().unwrap().total_questions(), 4);
}

#[test]
fn empty_bank_is_degenerate_but_harmless() {
    let mut app = App::new(vec![None]);
    app.update(Msg::StartSurvey);
    assert_eq!(app.screen(), Screen::Questions);
    assert_eq!(app.current_question_index(), 0);
    match app.view_state() {
        ViewState::Questions(view) => {
            assert_eq!(view.question.question.text, "Question introuvable");
            assert_eq!(view.number, 1);
            assert_eq!(view.total, 0);
            assert!(view.progress.is_none());
            assert!(view.is_first);
            assert!(view.is_last);
        }
        other => panic!("no questions view: {:?}", other),
    }
    app.update(Msg::PreviousQuestion);
    assert_eq!(app.current_question_index(), 0);
    app.update(Msg::AnswerQuestion("oui".to_string()));
    assert_eq!(app.screen(), Screen::Results);
    assert_eq!(app.current_question_index(), 0);
    let results = app.results().unwrap();
    assert_eq!(results.total_questions(), 0);
    assert_eq!(results.total_answered(), 0);
    assert!(results.scores().is_empty());
}

#[test]
fn questions_view_shows_position_and_progress() {
    let mut app = started();
    app.update(Msg::AnswerQuestion("non".to_string()));
    app.update(Msg::PreviousQuestion);
    match app.view_state() {
        ViewState::Questions(view) => {
            assert_eq!(view.question.question.text, "a1");
            assert_eq!(view.question.thematic, "A");
            assert_eq!(view.question.answer, Some("non".to_string()));
            assert_eq!((view.number, view.total), (1, 4));
            let progress = view.progress.unwrap();
            assert_eq!((progress.numerator(), progress.denominator()), (100, 4));
            assert_eq!(progress.numerator() as f64 / progress.denominator() as f64, 25.0);
            assert!(view.is_first);
            assert!(!view.is_last);
        }
        other => panic!("no questions view: {:?}", other),
    }
    for _ in 0..3 {
        app.update(Msg::NextQuestion);
    }
    match app.view_state() {
        ViewState::Questions(view) => {
            assert_eq!((view.number, view.total), (4, 4));
            assert!(view.progress.unwrap().is_exactly(100));
            assert!(!view.is_first);
            assert!(view.is_last);
        }
        other => panic!("no questions view: {:?}", other),
    }
}

#[test]
fn results_view_shows_summary_and_chart() {
    let mut app = started();
    app.update(Msg::BackToResults);
    assert!(matches!(app.view_state(), ViewState::ResultsMissing));
    app.update(Msg::AnswerQuestion("oui".to_string()));
    app.update(Msg::ShowResults);
    match app.view_state() {
        ViewState::Results(view) => {
            assert_eq!(view.total_answered, 1);
            assert_eq!(view.total_questions, 4);
            assert_eq!(view.summary.rows.len(), 2);
            assert_eq!(view.summary.rows[0].score_label, "50%");
            assert_eq!(view.summary.global.unwrap().label, "25%");
            assert_eq!(view.chart.len(), 2);
            assert_eq!(view.chart[0].thematic, "A");
            assert_eq!(view.chart[1].score_label, "0%");
        }
        other => panic!("no results view: {:?}", other),
    }
}

#[test]
fn contact_view_shows_form_and_field_errors() {
    let mut app = app();
    app.update(Msg::ShowContact);
    match app.view_state() {
        ViewState::Contact(view) => {
            assert!(!view.form_submitted);
            assert!(!view.form_submitting);
            assert!(view.form_error.is_none());
            assert_eq!(view.email_error, None);
            assert_eq!(view.phone_error, None);
        }
        other => panic!("no contact view: {:?}", other),
    }
    app.update(Msg::UpdateFormField("contact_email".to_string(), "ada@".to_string()));
    app.update(Msg::UpdateFormField("contact_phone".to_string(), "12".to_string()));
    app.update(Msg::SubmitForm);
    match app.view_state() {
        ViewState::Contact(view) => {
            assert_eq!(view.form_data.contact_email, "ada@");
            assert_eq!(view.email_error, Some(FormError::EmailFormat));
            assert_eq!(view.phone_error, Some(FormError::PhoneFormat));
            assert_eq!(view.form_error.unwrap(), "Le nom de la startup est requis");
        }
        other => panic!("no contact view: {:?}", other),
    }
    fill(&mut app);
    app.update(Msg::SubmitForm);
    match app.view_state() {
        ViewState::Contact(view) => {
            assert!(view.form_submitting);
            assert!(!view.form_submitted);
            assert_eq!(view.email_error, None);
        }
        other => panic!("no contact view: {:?}", other),
    }
    app.update(Msg::FormSubmitSuccess);
    match app.view_state() {
        ViewState::Contact(view) => {
            assert!(view.form_submitted);
            assert!(!view.form_submitting);
        }
        other => panic!("no contact view: {:?}", other),
    }
}

#[test]
fn screen_state_carries_the_position() {
    let mut app = app();
    assert_eq!(app.screen_state(), mini_audit::app::ScreenState::Welcome);
    app.update(Msg::StartSurvey);
    app.update(Msg::NextQuestion);
    assert_eq!(app.screen_state(), mini_audit::app::ScreenState::Questions(1));
    app.update(Msg::ShowResults);
    assert_eq!(app.screen_state(), mini_audit::app::ScreenState::Results);
    app.update(Msg::ShowContact);
    assert_eq!(app.screen_state(), mini_audit::app::ScreenState::Contact);
}

#[test]
fn next_question_gives_results_at_the_last_question_only() {
    let mut survey = Survey::new(&vec![definition("A", &["a1", "a2", "a3"])]);
    survey.answer_question(0, "oui");
    assert!(App::next_question(&survey, 0).is_none());
    assert!(App::next_question(&survey, 1).is_none());
    let results = App::next_question(&survey, 2).unwrap();
    assert_eq!(results.total_answered(), 1);
    assert_eq!(results.total_questions(), 3);
    assert!(App::next_question(&survey, 3).is_some());
    assert!(App::next_question(&survey, usize::MAX).is_some());
    let empty = Survey::new(&Vec::new());
    assert!(App::next_question(&empty, 0).is_some());
}

#[test]
fn showing_results_twice_gives_the_same_results() {
    let mut app = started();
    app.update(Msg::AnswerQuestion("oui".to_string()));
    app.update(Msg::AnswerQuestion("je-ne-sais-pas".to_string()));
    app.update(Msg::ShowResults);
    let first: Vec<(String, u128, u128)> = app
        .results()
        .unwrap()
        .scores()
        .iter()
        .map(|e| (e.thematic.clone(), e.score.numerator(), e.score.denominator()))
        .collect();
    let answered = app.results().unwrap().total_answered();
    app.update(Msg::ShowResults);
    let second: Vec<(String, u128, u128)> = app
        .results()
        .unwrap()
        .scores()
        .iter()
        .map(|e| (e.thematic.clone(), e.score.numerator(), e.score.denominator()))
        .collect();
    assert_eq!(first, second);
    assert_eq!(first, vec![("A".to_string(), 150, 2), ("B".to_string(), 0, 2)]);
    assert_eq!(app.results().unwrap().total_answered(), answered);
    assert_eq!(app.screen(), Screen::Results);
}
