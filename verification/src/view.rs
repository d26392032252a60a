//! What the screens are given to show. Everything in here is worked out
//! from the state of the controller; nothing is drawn.

use crate::app::FormData;
use crate::feedback::ResultsSummary;
use crate::models::QuestionData;
use crate::radar::RadarPoint;
use crate::scoring::{Ratio, Score};
use crate::validation::{
    is_valid_email, is_valid_phone, valid_email, valid_phone, FormError,
};
use vstd::prelude::*;

verus! {

/// The text shown where the results screen has no results to show.
pub const MSG_NO_RESULTS: &'static str = "Aucun résultat disponible";

/// What the questions screen shows.
#[derive(Debug)]
pub struct QuestionsView {
    /// The question on display, with its answer so far.
    pub question: QuestionData,
    /// The number of the question, counted from 1.
    pub number: usize,
    /// How many questions there are.
    pub total: usize,
    /// How far the assessment has come, in points out of 100: the number of
    /// the question over the number of questions. `None` where there is no
    /// question.
    pub progress: Option<Score>,
    /// Whether there is no question to go back to.
    pub is_first: bool,
    /// Whether moving on leads to the results.
    pub is_last: bool,
}

/// How far the question at `index` of `total` is into the assessment.
pub open spec fn progress_of(index: int, total: int) -> Ratio {
    Ratio { num: 100 * (index + 1), den: total }
}

/// What the contact screen shows.
#[derive(Debug)]
pub struct ContactView {
    pub form_data: FormData,
    /// Whether the form went through.
    pub form_submitted: bool,
    pub form_error: Option<String>,
    /// Whether a request is under way.
    pub form_submitting: bool,
    /// What to say beside the e-mail field, if anything.
    pub email_error: Option<FormError>,
    /// What to say beside the telephone field, if anything.
    pub phone_error: Option<FormError>,
}

/// What is said beside a field that holds `value`: nothing while the field
/// is empty or acceptable, else `error`.
pub open spec fn field_error(value: Seq<char>, acceptable: bool, error: FormError) -> Option<
    FormError,
> {
    if value.len() > 0 && !acceptable {
        Some(error)
    } else {
        None
    }
}

/// What is said beside the e-mail field while it holds `email`.
pub fn email_field_error(email: &str) -> (error: Option<FormError>)
    ensures
        error == field_error(email@, valid_email(email@), FormError::EmailFormat),
{
    if !email.is_empty() && !is_valid_email(email) {
        Some(FormError::EmailFormat)
    } else {
        None
    }
}

/// What is said beside the telephone field while it holds `phone`.
pub fn phone_field_error(phone: &str) -> (error: Option<FormError>)
    ensures
        error == field_error(phone@, valid_phone(phone@), FormError::PhoneFormat),
{
    if !phone.is_empty() && !is_valid_phone(phone) {
        Some(FormError::PhoneFormat)
    } else {
        None
    }
}

/// What the results screen shows.
#[derive(Debug)]
pub struct ResultsView {
    pub summary: ResultsSummary,
    /// The points of the radar chart.
    pub chart: Vec<RadarPoint>,
    pub total_answered: usize,
    pub total_questions: usize,
}

/// What the screen on display is given to show.
#[derive(Debug)]
pub enum ViewState {
    Welcome,
    Questions(QuestionsView),
    Results(ResultsView),
    /// The results screen, before any assessment was scored.
    ResultsMissing,
    Contact(ContactView),
}

} // verus!
