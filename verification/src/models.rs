//! The data of an assessment: questions, answers and what the user is shown
//! of them.

use crate::text::str_eq;
use vstd::prelude::*;

verus! {

/// The token that stands for "yes".
pub const TOKEN_YES: &'static str = "oui";

/// The token that stands for "no".
pub const TOKEN_NO: &'static str = "non";

/// The token that stands for "I do not know".
pub const TOKEN_UNKNOWN: &'static str = "je-ne-sais-pas";

/// What a user can reply to a question.
#[derive(Clone, Copy, Debug, PartialEq, Eq, Structural)]
pub enum Answer {
    Oui,
    Non,
    JeNeSaisPas,
}

impl Answer {
    /// The answer that a token stands for, if it stands for one.
    pub open spec fn parse(token: Seq<char>) -> Option<Answer> {
        if token == TOKEN_YES@ {
            Some(Answer::Oui)
        } else if token == TOKEN_NO@ {
            Some(Answer::Non)
        } else if token == TOKEN_UNKNOWN@ {
            Some(Answer::JeNeSaisPas)
        } else {
            None
        }
    }

    /// The token that stands for this answer.
    pub open spec fn token(self) -> Seq<char> {
        match self {
            Answer::Oui => TOKEN_YES@,
            Answer::Non => TOKEN_NO@,
            Answer::JeNeSaisPas => TOKEN_UNKNOWN@,
        }
    }

    /// The points that this answer is worth, out of 100.
    pub open spec fn score(self) -> nat {
        match self {
            Answer::Oui => 100,
            Answer::Non => 0,
            Answer::JeNeSaisPas => 50,
        }
    }

    /// Reads an answer token. Any string but the three tokens gives `None`.
    pub fn from_str(s: &str) -> (answer: Option<Answer>)
        ensures
            answer == Answer::parse(s@),
    {
        if str_eq(s, TOKEN_YES) {
            Some(Answer::Oui)
        } else if str_eq(s, TOKEN_NO) {
            Some(Answer::Non)
        } else if str_eq(s, TOKEN_UNKNOWN) {
            Some(Answer::JeNeSaisPas)
        } else {
            None
        }
    }

    /// The token of this answer, as `from_str` reads it.
    pub fn as_str(&self) -> (token: &'static str)
        ensures
            token@ == self.token(),
    {
        match self {
            Answer::Oui => TOKEN_YES,
            Answer::Non => TOKEN_NO,
            Answer::JeNeSaisPas => TOKEN_UNKNOWN,
        }
    }

    /// The points of this answer: 100 for yes, 0 for no, 50 for unknown.
    pub fn to_score(&self) -> (points: u64)
        ensures
            points == self.score(),
    {
        match self {
            Answer::Oui => 100,
            Answer::Non => 0,
            Answer::JeNeSaisPas => 50,
        }
    }
}

/// The characters of an optional string.
pub open spec fn opt_view(value: Option<String>) -> Option<Seq<char>> {
    match value {
        Some(s) => Some(s@),
        None => None,
    }
}

/// A copy of an optional string.
pub fn clone_opt(value: &Option<String>) -> (copy: Option<String>)
    ensures
        opt_view(copy) == opt_view(*value),
{
    match value {
        Some(s) => Some(s.clone()),
        None => None,
    }
}

/// One question of the bank.
#[derive(Debug)]
pub struct Question {
    /// What tells this question from every other one.
    pub id: u128,
    pub text: String,
    pub description: Option<String>,
    /// The name of the thematic that the question belongs to.
    pub thematic: String,
}

/// What a `Question` holds.
pub struct QuestionView {
    pub id: u128,
    pub text: Seq<char>,
    pub description: Option<Seq<char>>,
    pub thematic: Seq<char>,
}

impl View for Question {
    type V = QuestionView;

    open spec fn view(&self) -> QuestionView {
        QuestionView {
            id: self.id,
            text: self.text@,
            description: opt_view(self.description),
            thematic: self.thematic@,
        }
    }
}

impl Clone for Question {
    fn clone(&self) -> (copy: Self)
        ensures
            copy@ == self@,
    {
        Question {
            id: self.id,
            text: self.text.clone(),
            description: clone_opt(&self.description),
            thematic: self.thematic.clone(),
        }
    }
}

/// A question as a thematic definition supplies it: no identifier yet, and
/// the thematic is that of the definition.
#[derive(Debug)]
pub struct QuestionYaml {
    pub text: String,
    pub description: Option<String>,
}

/// What a `QuestionYaml` holds.
pub struct QuestionYamlView {
    pub text: Seq<char>,
    pub description: Option<Seq<char>>,
}

impl View for QuestionYaml {
    type V = QuestionYamlView;

    open spec fn view(&self) -> QuestionYamlView {
        QuestionYamlView { text: self.text@, description: opt_view(self.description) }
    }
}

/// A thematic definition: a name and its questions, in the order in which
/// they are asked.
#[derive(Debug)]
pub struct ThematicQuestions {
    pub thematic: String,
    pub questions: Vec<QuestionYaml>,
}

/// What a `ThematicQuestions` holds.
pub struct ThematicQuestionsView {
    pub thematic: Seq<char>,
    pub questions: Seq<QuestionYamlView>,
}

impl View for ThematicQuestions {
    type V = ThematicQuestionsView;

    open spec fn view(&self) -> ThematicQuestionsView {
        ThematicQuestionsView {
            thematic: self.thematic@,
            questions: self.questions@.map_values(|q: QuestionYaml| q@),
        }
    }
}

/// The question on display, with the answer that it has so far.
#[derive(Debug)]
pub struct QuestionData {
    pub question: Question,
    pub thematic: String,
    /// The token of the recorded answer, if there is one.
    pub answer: Option<String>,
}

/// What a `QuestionData` holds.
pub struct QuestionDataView {
    pub question: QuestionView,
    pub thematic: Seq<char>,
    pub answer: Option<Seq<char>>,
}

impl View for QuestionData {
    type V = QuestionDataView;

    open spec fn view(&self) -> QuestionDataView {
        QuestionDataView {
            question: self.question@,
            thematic: self.thematic@,
            answer: opt_view(self.answer),
        }
    }
}

/// Reading the token of an answer gives the answer back.
pub proof fn lemma_token_round_trip(answer: Answer)
    ensures
        Answer::parse(answer.token()) == Some(answer),
{
    reveal_strlit("oui");
    reveal_strlit("non");
    reveal_strlit("je-ne-sais-pas");
    assert(TOKEN_YES@.len() == 3);
    assert(TOKEN_NO@.len() == 3);
    assert(TOKEN_UNKNOWN@.len() == 14);
    assert(TOKEN_YES@[0] == 'o');
    assert(TOKEN_NO@[0] == 'n');
}

} // verus!
