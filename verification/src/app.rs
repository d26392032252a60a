//! The controller of an assessment: which screen is shown, which question
//! is asked, and what becomes of the contact form.

use crate::feedback::{is_summary_of, summarize};
use crate::ids::is_random_uuid;
use crate::json::json_text;
use crate::models::{
    clone_opt, opt_view, Answer, QuestionView, ThematicQuestions, ThematicQuestionsView,
};
use crate::radar::{layout_of, point_views, radar_layout};
use crate::scoring::{
    is_scoring_of, lemma_scoring_is_unique, Score, SurveyResults, SurveyResultsView,
};
use crate::survey::{content_of, flatten, recorded, source_view, Survey, SurveyView};
use crate::text::str_eq;
use crate::transport::{contact_members, contact_payload};
use crate::validation::{first_error, valid_email, valid_phone, validate_form, FormError};
use crate::view::{
    email_field_error, field_error, phone_field_error, progress_of, ContactView, QuestionsView,
    ResultsView, ViewState,
};
use vstd::prelude::*;

verus! {

/// The name of the form field that holds the startup's name.
pub const FIELD_STARTUP_NAME: &'static str = "startup_name";

/// The name of the form field that holds the contact's name.
pub const FIELD_CONTACT_NAME: &'static str = "contact_name";

/// The name of the form field that holds the contact's e-mail address.
pub const FIELD_CONTACT_EMAIL: &'static str = "contact_email";

/// The name of the form field that holds the contact's telephone number.
pub const FIELD_CONTACT_PHONE: &'static str = "contact_phone";

/// The name of the form field that holds the message.
pub const FIELD_MESSAGE: &'static str = "message";

/// The screens of the application.
#[derive(Clone, Copy, Debug, PartialEq, Eq, Structural)]
pub enum Screen {
    Welcome,
    Questions,
    Results,
    Contact,
}

/// The screen on display together with what it stands at: the questions
/// screen carries the position of its question.
#[derive(Clone, Copy, Debug, PartialEq, Eq, Structural)]
pub enum ScreenState {
    Welcome,
    Questions(usize),
    Results,
    Contact,
}

/// What the contact form holds.
#[derive(Debug)]
pub struct FormData {
    pub startup_name: String,
    pub contact_name: String,
    pub contact_email: String,
    pub contact_phone: String,
    pub message: String,
}

/// What a `FormData` holds.
pub struct FormDataView {
    pub startup_name: Seq<char>,
    pub contact_name: Seq<char>,
    pub contact_email: Seq<char>,
    pub contact_phone: Seq<char>,
    pub message: Seq<char>,
}

impl FormDataView {
    /// The form with every field empty.
    pub open spec fn empty() -> FormDataView {
        FormDataView {
            startup_name: Seq::empty(),
            contact_name: Seq::empty(),
            contact_email: Seq::empty(),
            contact_phone: Seq::empty(),
            message: Seq::empty(),
        }
    }

    /// The form once the field `field` is set to `value`. A name that is
    /// not the name of a field changes nothing.
    pub open spec fn with_field(self, field: Seq<char>, value: Seq<char>) -> FormDataView {
        if field == FIELD_STARTUP_NAME@ {
            FormDataView { startup_name: value, ..self }
        } else if field == FIELD_CONTACT_NAME@ {
            FormDataView { contact_name: value, ..self }
        } else if field == FIELD_CONTACT_EMAIL@ {
            FormDataView { contact_email: value, ..self }
        } else if field == FIELD_CONTACT_PHONE@ {
            FormDataView { contact_phone: value, ..self }
        } else if field == FIELD_MESSAGE@ {
            FormDataView { message: value, ..self }
        } else {
            self
        }
    }
}

impl View for FormData {
    type V = FormDataView;

    open spec fn view(&self) -> FormDataView {
        FormDataView {
            startup_name: self.startup_name@,
            contact_name: self.contact_name@,
            contact_email: self.contact_email@,
            contact_phone: self.contact_phone@,
            message: self.message@,
        }
    }
}

impl Clone for FormData {
    fn clone(&self) -> (copy: Self)
        ensures
            copy@ == self@,
    {
        FormData {
            startup_name: self.startup_name.clone(),
            contact_name: self.contact_name.clone(),
            contact_email: self.contact_email.clone(),
            contact_phone: self.contact_phone.clone(),
            message: self.message.clone(),
        }
    }
}

impl Default for FormData {
    fn default() -> (form: Self)
        ensures
            form@ == FormDataView::empty(),
    {
        FormData {
            startup_name: String::new(),
            contact_name: String::new(),
            contact_email: String::new(),
            contact_phone: String::new(),
            message: String::new(),
        }
    }
}

impl FormData {
    /// Sets the field named `field` to `value`. A name that is not the name
    /// of a field is passed over.
    pub fn set_field(&mut self, field: &str, value: String)
        ensures
            final(self)@ == old(self)@.with_field(field@, value@),
    {
        if str_eq(field, FIELD_STARTUP_NAME) {
            self.startup_name = value;
        } else if str_eq(field, FIELD_CONTACT_NAME) {
            self.contact_name = value;
        } else if str_eq(field, FIELD_CONTACT_EMAIL) {
            self.contact_email = value;
        } else if str_eq(field, FIELD_CONTACT_PHONE) {
            self.contact_phone = value;
        } else if str_eq(field, FIELD_MESSAGE) {
            self.message = value;
        }
    }
}

/// The commands that the controller takes, from the screens and from the
/// transport.
#[derive(Debug)]
pub enum Msg {
    StartSurvey,
    /// The token of the answer to the question on display.
    AnswerQuestion(String),
    NextQuestion,
    PreviousQuestion,
    ShowResults,
    ShowContact,
    BackToResults,
    /// The name of a form field and its new value.
    UpdateFormField(String, String),
    SubmitForm,
    FormSubmitSuccess,
    /// The message of the failure.
    FormSubmitError(String),
    GoToWelcome,
}

/// Where the sending of the contact form stands.
#[derive(Debug)]
pub enum SubmissionState {
    /// Nothing was sent yet.
    Idle,
    /// A request is under way; no other is taken until it is settled.
    Submitting,
    /// The last request went through.
    Succeeded,
    /// The last request failed, with this message.
    Failed(String),
}

/// What a `SubmissionState` holds.
pub enum SubmissionView {
    Idle,
    Submitting,
    Succeeded,
    Failed(Seq<char>),
}

impl View for SubmissionState {
    type V = SubmissionView;

    open spec fn view(&self) -> SubmissionView {
        match self {
            SubmissionState::Idle => SubmissionView::Idle,
            SubmissionState::Submitting => SubmissionView::Submitting,
            SubmissionState::Succeeded => SubmissionView::Succeeded,
            SubmissionState::Failed(message) => SubmissionView::Failed(message@),
        }
    }
}

/// What the caller of `App::update` has to do once the command is taken.
#[derive(Debug)]
pub enum Effect {
    /// The command was turned down and nothing changed.
    Ignored,
    /// The state may have changed: draw the screen again.
    Render,
    /// Draw the screen again, and post this body to the contact address.
    /// The outcome comes back as `Msg::FormSubmitSuccess` or
    /// `Msg::FormSubmitError`.
    Send(String),
}

/// What an `App` holds.
pub struct AppView {
    pub screen: Screen,
    pub survey: Option<SurveyView>,
    /// The position of the question on display.
    pub index: nat,
    pub results: Option<SurveyResultsView>,
    pub form: FormDataView,
    pub submission: SubmissionView,
    pub form_error: Option<Seq<char>>,
    /// The definitions that every assessment is built from.
    pub sources: Seq<Option<ThematicQuestionsView>>,
}

/// `survey` is an assessment that has just been started on `sources`: their
/// questions in order, each under a random identifier, and no answer.
pub open spec fn is_fresh(survey: SurveyView, sources: Seq<Option<ThematicQuestionsView>>) -> bool {
    &&& survey.questions.map_values(|q: QuestionView| content_of(q)) == flatten(sources)
    &&& forall|i: int|
        0 <= i < survey.questions.len() ==> is_random_uuid((#[trigger] survey.questions[i]).id)
    &&& survey.answers == Map::<u128, Answer>::empty()
    &&& survey.wf()
}

/// `results` is what scoring `survey` gives.
pub open spec fn is_results_of(results: SurveyResultsView, survey: SurveyView) -> bool {
    &&& is_scoring_of(results.scores, survey.questions, survey.answers)
    &&& results.total_answered == survey.answers.dom().len()
    &&& results.total_questions == survey.questions.len()
    &&& results.wf()
}

impl AppView {
    /// The state in which an application starts, and to which it is reset.
    pub open spec fn initial(sources: Seq<Option<ThematicQuestionsView>>) -> AppView {
        AppView {
            screen: Screen::Welcome,
            survey: None,
            index: 0,
            results: None,
            form: FormDataView::empty(),
            submission: SubmissionView::Idle,
            form_error: None,
            sources,
        }
    }

    /// The screen on display, the questions screen with its position.
    pub open spec fn screen_state(self) -> ScreenState {
        match self.screen {
            Screen::Welcome => ScreenState::Welcome,
            Screen::Questions => ScreenState::Questions(self.index as usize),
            Screen::Results => ScreenState::Results,
            Screen::Contact => ScreenState::Contact,
        }
    }

    /// The questions screen is shown only while there is an assessment, the
    /// assessment is well formed, and the position stays inside it: below
    /// the number of its questions, and 0 where it has none.
    pub open spec fn wf(self) -> bool {
        &&& self.screen == Screen::Questions ==> self.survey is Some
        &&& match self.survey {
            Some(s) => s.wf() && (self.index < s.questions.len() || (s.questions.len() == 0
                && self.index == 0)),
            None => self.index == 0,
        }
    }

    /// The state once `token` is recorded as the answer to the question on
    /// display. Nothing changes without an assessment or a question.
    pub open spec fn answered(self, token: Seq<char>) -> AppView {
        match self.survey {
            Some(s) => if self.index < s.questions.len() {
                AppView {
                    survey: Some(
                        SurveyView {
                            answers: recorded(
                                s.answers,
                                s.questions[self.index as int].id,
                                token,
                            ),
                            ..s
                        },
                    ),
                    ..self
                }
            } else {
                self
            },
            None => self,
        }
    }

    /// `post` is this state once the assessment is scored and the results
    /// are shown. Nothing changes without an assessment.
    pub open spec fn shows_results(self, post: AppView) -> bool {
        match self.survey {
            Some(s) => {
                &&& post.results matches Some(r) && is_results_of(r, s)
                &&& post == AppView { screen: Screen::Results, results: post.results, ..self }
            },
            None => post == self,
        }
    }

    /// `post` is this state once it has moved on from the question on
    /// display: to the next question, or after the last one to the results.
    pub open spec fn moves_on(self, post: AppView) -> bool {
        match self.survey {
            Some(s) => if self.index + 1 < s.questions.len() {
                post == AppView { index: self.index + 1, ..self }
            } else {
                self.shows_results(post)
            },
            None => post == self,
        }
    }

    /// `post` is the state that the command `msg` leads to from this one.
    pub open spec fn step(self, msg: Msg, post: AppView) -> bool {
        match msg {
            Msg::StartSurvey => {
                &&& post.survey matches Some(s) && is_fresh(s, self.sources)
                &&& post == AppView {
                    screen: Screen::Questions,
                    survey: post.survey,
                    index: 0,
                    ..self
                }
            },
            Msg::AnswerQuestion(token) => self.answered(token@).moves_on(post),
            Msg::NextQuestion => self.moves_on(post),
            Msg::PreviousQuestion => post == AppView {
                index: if self.index > 0 {
                    (self.index - 1) as nat
                } else {
                    0
                },
                ..self
            },
            Msg::ShowResults => self.shows_results(post),
            Msg::ShowContact => post == AppView { screen: Screen::Contact, ..self },
            Msg::BackToResults => post == AppView { screen: Screen::Results, ..self },
            Msg::UpdateFormField(field, value) => post == AppView {
                form: self.form.with_field(field@, value@),
                ..self
            },
            Msg::SubmitForm => if self.submission is Submitting {
                post == self
            } else {
                match first_error(self.form) {
                    Some(error) => post == AppView { form_error: Some(error.text()), ..self },
                    None => post == AppView {
                        submission: SubmissionView::Submitting,
                        form_error: None,
                        ..self
                    },
                }
            },
            Msg::FormSubmitSuccess => post == AppView {
                submission: SubmissionView::Succeeded,
                form_error: None,
                ..self
            },
            Msg::FormSubmitError(message) => post == AppView {
                submission: SubmissionView::Failed(message@),
                form_error: Some(message@),
                ..self
            },
            Msg::GoToWelcome => post == AppView::initial(self.sources),
        }
    }

    /// `effect` is what the command `msg` asks of the caller in this state.
    /// Only the sending of the form can be turned down, while a request is
    /// under way, or ask for a request, where the form passes its checks.
    pub open spec fn emits(self, msg: Msg, effect: Effect) -> bool {
        match msg {
            Msg::SubmitForm => if self.submission is Submitting {
                effect is Ignored
            } else if first_error(self.form) is Some {
                effect is Render
            } else {
                effect matches Effect::Send(body) && body@ == json_text(contact_members(self.form))
            },
            _ => effect is Render,
        }
    }
}

/// `view` is what the questions screen shows in the state `app`: the
/// question at the position, its number counted from 1, the number of
/// questions, and how far that is into the assessment. Where the assessment
/// has no question, the stand-in question is shown as number 1 of 0, without
/// progress, and moving on leads to the results.
pub open spec fn shows_question(app: AppView, view: QuestionsView) -> bool {
    &&& app.survey matches Some(s)
    &&& s.shows(app.index as int, view.question@)
    &&& view.number == app.index + 1
    &&& view.total == s.questions.len()
    &&& view.is_first == (app.index == 0)
    &&& view.is_last == (app.index + 1 >= s.questions.len())
    &&& match view.progress {
        Some(p) => s.questions.len() > 0 && p@ == progress_of(
            app.index as int,
            s.questions.len() as int,
        ),
        None => s.questions.len() == 0,
    }
}

/// `view` is what the results screen shows of `results`.
pub open spec fn shows_results_of(results: SurveyResultsView, view: ResultsView) -> bool {
    &&& is_summary_of(view.summary, results.scores)
    &&& point_views(view.chart@) == layout_of(results.scores)
    &&& view.total_answered == results.total_answered
    &&& view.total_questions == results.total_questions
}

/// `view` is what the contact screen shows in the state `app`.
pub open spec fn shows_contact(app: AppView, view: ContactView) -> bool {
    &&& view.form_data@ == app.form
    &&& view.form_submitted == (app.submission is Succeeded)
    &&& view.form_submitting == (app.submission is Submitting)
    &&& opt_view(view.form_error) == app.form_error
    &&& view.email_error == field_error(
        app.form.contact_email,
        valid_email(app.form.contact_email),
        FormError::EmailFormat,
    )
    &&& view.phone_error == field_error(
        app.form.contact_phone,
        valid_phone(app.form.contact_phone),
        FormError::PhoneFormat,
    )
}

/// `view` is what is shown in the state `app`.
pub open spec fn shows(app: AppView, view: ViewState) -> bool {
    match app.screen {
        Screen::Welcome => view is Welcome,
        Screen::Questions => view matches ViewState::Questions(q) && shows_question(app, q),
        Screen::Results => match app.results {
            Some(r) => view matches ViewState::Results(v) && shows_results_of(r, v),
            None => view is ResultsMissing,
        },
        Screen::Contact => view matches ViewState::Contact(c) && shows_contact(app, c),
    }
}

/// The controller of the application.
pub struct App {
    screen: Screen,
    survey: Option<Survey>,
    current_question_index: usize,
    results: Option<SurveyResults>,
    form_data: FormData,
    submission: SubmissionState,
    form_error: Option<String>,
    sources: Vec<Option<ThematicQuestions>>,
}

impl View for App {
    type V = AppView;

    closed spec fn view(&self) -> AppView {
        AppView {
            screen: self.screen,
            survey: match self.survey {
                Some(s) => Some(s@),
                None => None,
            },
            index: self.current_question_index as nat,
            results: match self.results {
                Some(r) => Some(r@),
                None => None,
            },
            form: self.form_data@,
            submission: self.submission@,
            form_error: opt_view(self.form_error),
            sources: self.sources@.map_values(|s: Option<ThematicQuestions>| source_view(s)),
        }
    }
}

impl App {
    #[verifier::type_invariant]
    spec fn inv(self) -> bool {
        self@.wf()
    }

    /// An application on the welcome screen. Each assessment that it starts
    /// asks the questions of `sources`, where `None` stands for a definition
    /// that could not be read.
    pub fn new(sources: Vec<Option<ThematicQuestions>>) -> (app: App)
        ensures
            app@ == AppView::initial(
                sources@.map_values(|s: Option<ThematicQuestions>| source_view(s)),
            ),
            app@.wf(),
    {
        App {
            screen: Screen::Welcome,
            survey: None,
            current_question_index: 0,
            results: None,
            form_data: FormData::default(),
            submission: SubmissionState::Idle,
            form_error: None,
            sources,
        }
    }

    /// What moving on from the question at `index` comes to: `None` where a
    /// next question is there to be shown, and the results of the
    /// assessment at the last question or beyond.
    pub fn next_question(survey: &Survey, index: usize) -> (results: Option<SurveyResults>)
        ensures
            index + 1 < survey@.questions.len() ==> results is None,
            index + 1 >= survey@.questions.len() ==> (results matches Some(r) && is_results_of(
                r@,
                survey@,
            )),
            survey@.questions.len() <= usize::MAX,
    {
        let total = survey.total_questions();
        if total > 0 && index < total - 1 {
            None
        } else {
            Some(survey.get_results())
        }
    }

    /// Takes one command: the state moves as `AppView::step` says, and the
    /// result tells the caller what to do next.
    pub fn update(&mut self, msg: Msg) -> (effect: Effect)
        ensures
            old(self)@.step(msg, final(self)@),
            old(self)@.emits(msg, effect),
            old(self)@.wf(),
            final(self)@.wf(),
    {
        let mut taken = App::new(Vec::new());
        core::mem::swap(self, &mut taken);
        proof {
            use_type_invariant(&taken);
        }
        let ghost pre = taken@;
        let App {
            mut screen,
            mut survey,
            mut current_question_index,
            mut results,
            mut form_data,
            mut submission,
            mut form_error,
            sources,
        } = taken;
        let mut effect = Effect::Render;
        match msg {
            Msg::StartSurvey => {
                survey = Some(Survey::new(&sources));
                current_question_index = 0;
                screen = Screen::Questions;
            },
            Msg::AnswerQuestion(token) => {
                match survey {
                    Some(mut s) => {
                        s.answer_question(current_question_index, token.as_str());
                        match App::next_question(&s, current_question_index) {
                            Some(r) => {
                                results = Some(r);
                                screen = Screen::Results;
                            },
                            None => {
                                current_question_index = current_question_index + 1;
                            },
                        }
                        survey = Some(s);
                    },
                    None => {
                        survey = None;
                    },
                }
            },
            Msg::NextQuestion => {
                match &survey {
                    Some(s) => {
                        match App::next_question(s, current_question_index) {
                            Some(r) => {
                                results = Some(r);
                                screen = Screen::Results;
                            },
                            None => {
                                current_question_index = current_question_index + 1;
                            },
                        }
                    },
                    None => {},
                }
            },
            Msg::PreviousQuestion => {
                if current_question_index > 0 {
                    current_question_index = current_question_index - 1;
                }
            },
            Msg::ShowResults => {
                match &survey {
                    Some(s) => {
                        results = Some(s.get_results());
                        screen = Screen::Results;
                    },
                    None => {},
                }
            },
            Msg::ShowContact => {
                screen = Screen::Contact;
            },
            Msg::BackToResults => {
                screen = Screen::Results;
            },
            Msg::UpdateFormField(field, value) => {
                form_data.set_field(field.as_str(), value);
            },
            Msg::SubmitForm => {
                match submission {
                    SubmissionState::Submitting => {
                        effect = Effect::Ignored;
                    },
                    _ => {
                        match validate_form(&form_data) {
                            Some(error) => {
                                form_error = Some(error.message());
                            },
                            None => {
                                submission = SubmissionState::Submitting;
                                form_error = None;
                                effect = Effect::Send(contact_payload(&form_data));
                            },
                        }
                    },
                }
            },
            Msg::FormSubmitSuccess => {
                submission = SubmissionState::Succeeded;
                form_error = None;
            },
            Msg::FormSubmitError(message) => {
                form_error = Some(message.clone());
                submission = SubmissionState::Failed(message);
            },
            Msg::GoToWelcome => {
                screen = Screen::Welcome;
                survey = None;
                current_question_index = 0;
                results = None;
                form_data = FormData::default();
                submission = SubmissionState::Idle;
                form_error = None;
            },
        }
        *self = App {
            screen,
            survey,
            current_question_index,
            results,
            form_data,
            submission,
            form_error,
            sources,
        };
        effect
    }

    /// What the screen on display is given to show.
    pub fn view_state(&self) -> (view: ViewState)
        ensures
            shows(self@, view),
            self@.wf(),
    {
        proof {
            use_type_invariant(self);
        }
        match self.screen {
            Screen::Welcome => ViewState::Welcome,
            Screen::Questions => match &self.survey {
                Some(survey) => {
                    let index = self.current_question_index;
                    let total = survey.total_questions();
                    let number = index + 1;
                    ViewState::Questions(
                        QuestionsView {
                            question: survey.get_question(index),
                            number,
                            total,
                            progress: Score::new(100 * (number as u128), total as u128),
                            is_first: index == 0,
                            is_last: number >= total,
                        },
                    )
                },
                None => ViewState::Welcome,
            },
            Screen::Results => match &self.results {
                Some(results) => ViewState::Results(
                    ResultsView {
                        summary: summarize(results),
                        chart: radar_layout(results.scores()),
                        total_answered: results.total_answered(),
                        total_questions: results.total_questions(),
                    },
                ),
                None => ViewState::ResultsMissing,
            },
            Screen::Contact => ViewState::Contact(
                ContactView {
                    form_data: self.form_data.clone(),
                    form_submitted: match self.submission {
                        SubmissionState::Succeeded => true,
                        _ => false,
                    },
                    form_error: clone_opt(&self.form_error),
                    form_submitting: match self.submission {
                        SubmissionState::Submitting => true,
                        _ => false,
                    },
                    email_error: email_field_error(self.form_data.contact_email.as_str()),
                    phone_error: phone_field_error(self.form_data.contact_phone.as_str()),
                },
            ),
        }
    }

    /// The screen on display.
    pub fn screen(&self) -> (screen: Screen)
        ensures
            screen == self@.screen,
    {
        self.screen
    }

    /// The screen on display, the questions screen with the position of
    /// its question: a position below the number of questions, or 0 where
    /// the assessment has none.
    pub fn screen_state(&self) -> (state: ScreenState)
        ensures
            state == self@.screen_state(),
            state matches ScreenState::Questions(index) ==> (self@.survey matches Some(s) && (index
                < s.questions.len() || (index == 0 && s.questions.len() == 0))),
    {
        proof {
            use_type_invariant(self);
        }
        match self.screen {
            Screen::Welcome => ScreenState::Welcome,
            Screen::Questions => ScreenState::Questions(self.current_question_index),
            Screen::Results => ScreenState::Results,
            Screen::Contact => ScreenState::Contact,
        }
    }

    /// The position of the question on display.
    pub fn current_question_index(&self) -> (index: usize)
        ensures
            index == self@.index,
            self@.wf(),
    {
        proof {
            use_type_invariant(self);
        }
        self.current_question_index
    }

    /// The assessment under way, if there is one.
    pub fn survey(&self) -> (survey: Option<&Survey>)
        ensures
            match survey {
                Some(s) => self@.survey == Some(s@),
                None => self@.survey is None,
            },
    {
        match &self.survey {
            Some(s) => Some(s),
            None => None,
        }
    }

    /// The results of the last scoring, if there was one.
    pub fn results(&self) -> (results: Option<&SurveyResults>)
        ensures
            match results {
                Some(r) => self@.results == Some(r@),
                None => self@.results is None,
            },
    {
        match &self.results {
            Some(r) => Some(r),
            None => None,
        }
    }

    /// What the contact form holds.
    pub fn form_data(&self) -> (form: &FormData)
        ensures
            form@ == self@.form,
    {
        &self.form_data
    }

    /// Where the sending of the contact form stands.
    pub fn submission(&self) -> (submission: &SubmissionState)
        ensures
            submission@ == self@.submission,
    {
        &self.submission
    }

    /// The message to show on the contact screen, if there is one.
    pub fn form_error(&self) -> (error: Option<&String>)
        ensures
            match error {
                Some(message) => self@.form_error == Some(message@),
                None => self@.form_error is None,
            },
    {
        match &self.form_error {
            Some(message) => Some(message),
            None => None,
        }
    }
}

/// Whether `msg` is one of the commands that move through the questions.
pub open spec fn is_navigation(msg: Msg) -> bool {
    msg is AnswerQuestion || msg is NextQuestion || msg is PreviousQuestion
}

/// Recording an answer leads from a well-formed state to a well-formed
/// state.
pub proof fn lemma_answered_keeps_wf(pre: AppView, token: Seq<char>)
    requires
        pre.wf(),
    ensures
        pre.answered(token).wf(),
{
    if let Some(s) = pre.survey {
        if pre.index < s.questions.len() {
            let after = pre.answered(token).survey->0;
            assert forall|id: u128| after.answers.contains_key(id) implies after.asks(id) by {
                if s.answers.contains_key(id) {
                    assert(s.asks(id));
                    let i = choose|i: int|
                        0 <= i < s.questions.len() && (#[trigger] s.questions[i]).id == id;
                    assert(after.questions[i].id == id);
                } else {
                    assert(after.questions[pre.index as int].id == id);
                }
            }
        }
    }
}

/// Every command leads from a well-formed state to a well-formed state.
pub proof fn lemma_step_keeps_wf(pre: AppView, msg: Msg, post: AppView)
    requires
        pre.wf(),
        pre.step(msg, post),
    ensures
        post.wf(),
{
    if let Msg::AnswerQuestion(token) = msg {
        lemma_answered_keeps_wf(pre, token@);
    }
}

/// Going back from the first question changes nothing.
pub proof fn lemma_previous_at_first_question(pre: AppView, post: AppView)
    requires
        pre.index == 0,
        pre.step(Msg::PreviousQuestion, post),
    ensures
        post == pre,
{
}

/// Whatever sequence of answers, steps forward and steps back is taken
/// through an assessment that has questions, the questions stay the same and
/// the position stays below their number.
pub proof fn lemma_navigation_stays_in_range(states: Seq<AppView>, msgs: Seq<Msg>)
    requires
        states.len() == msgs.len() + 1,
        states[0].wf(),
        states[0].survey is Some,
        states[0].survey->0.questions.len() > 0,
        forall|i: int|
            0 <= i < msgs.len() ==> is_navigation(#[trigger] msgs[i]) && states[i].step(
                msgs[i],
                states[i + 1],
            ),
    ensures
        forall|i: int|
            0 <= i < states.len() ==> {
                &&& (#[trigger] states[i]).survey is Some
                &&& states[i].survey->0.questions == states[0].survey->0.questions
                &&& states[i].index < states[0].survey->0.questions.len()
            },
    decreases msgs.len(),
{
    if msgs.len() > 0 {
        let n = msgs.len() as int;
        let before = states.drop_last();
        let earlier = msgs.drop_last();
        assert forall|i: int| 0 <= i < earlier.len() implies is_navigation(#[trigger] earlier[i])
            && before[i].step(earlier[i], before[i + 1]) by {
            assert(is_navigation(msgs[i]) && states[i].step(msgs[i], states[i + 1]));
        }
        lemma_navigation_stays_in_range(before, earlier);
        assert(before[n - 1] == states[n - 1]);
        assert(is_navigation(msgs[n - 1]) && states[n - 1].step(msgs[n - 1], states[n]));
        assert forall|i: int| 0 <= i < states.len() implies {
            &&& (#[trigger] states[i]).survey is Some
            &&& states[i].survey->0.questions == states[0].survey->0.questions
            &&& states[i].index < states[0].survey->0.questions.len()
        } by {
            if i < n {
                assert(before[i] == states[i]);
            }
        }
    }
}

/// Showing the results again changes nothing: the second scoring gives the
/// results of the first.
pub proof fn lemma_show_results_is_idempotent(start: AppView, once: AppView, twice: AppView)
    requires
        start.step(Msg::ShowResults, once),
        once.step(Msg::ShowResults, twice),
    ensures
        twice == once,
{
    if let Some(s) = start.survey {
        let first = once.results->0;
        let second = twice.results->0;
        lemma_scoring_is_unique(first.scores, second.scores, s.questions, s.answers);
    }
}

/// While a request is under way no second one is sent: where sending the
/// form has handed out a request, sending it again at once is turned down
/// and changes nothing.
pub proof fn lemma_second_submit_is_turned_down(
    start: AppView,
    pending: AppView,
    after: AppView,
    first: Effect,
    second: Effect,
)
    requires
        start.step(Msg::SubmitForm, pending),
        start.emits(Msg::SubmitForm, first),
        first is Send,
        pending.step(Msg::SubmitForm, after),
        pending.emits(Msg::SubmitForm, second),
    ensures
        second is Ignored,
        after == pending,
{
}

} // verus!
