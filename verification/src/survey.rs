//! The question bank, the answer store, and the survey that owns both.

use crate::ids::{
    has_random_uuid_layout, is_random_uuid, lemma_spare_ids_count, random_id, spare, spare_id,
    spare_ids,
};
use crate::models::{
    clone_opt, Answer, Question, QuestionData, QuestionDataView, QuestionView,
    QuestionYamlView, ThematicQuestions, ThematicQuestionsView,
};
use crate::scoring::{
    is_scoring_of, lemma_scoring_gives_scores, score_views, thematic_scores, SurveyResults,
};
use std::collections::HashMap;
use vstd::prelude::*;

verus! {

/// The text shown in place of a question that does not exist.
pub const MISSING_QUESTION_TEXT: &'static str = "Question introuvable";

/// What a supplied definition holds; `None` stands for one that could not be
/// read.
pub open spec fn source_view(source: Option<ThematicQuestions>) -> Option<ThematicQuestionsView> {
    match source {
        Some(t) => Some(t@),
        None => None,
    }
}

/// What a question says, apart from its identifier.
pub struct QuestionContent {
    pub thematic: Seq<char>,
    pub text: Seq<char>,
    pub description: Option<Seq<char>>,
}

/// What `q` says.
pub open spec fn content_of(q: QuestionView) -> QuestionContent {
    QuestionContent { thematic: q.thematic, text: q.text, description: q.description }
}

/// The questions of one definition, each tagged with the definition's name.
pub open spec fn tagged(t: ThematicQuestionsView) -> Seq<QuestionContent> {
    t.questions.map_values(
        |q: QuestionYamlView|
            QuestionContent { thematic: t.thematic, text: q.text, description: q.description },
    )
}

/// The questions of a list of definitions: group after group in the order of
/// the list, unreadable definitions left out.
pub open spec fn flatten(sources: Seq<Option<ThematicQuestionsView>>) -> Seq<QuestionContent>
    decreases sources.len(),
{
    if sources.len() == 0 {
        Seq::empty()
    } else {
        flatten(sources.drop_last()) + match sources.last() {
            Some(t) => tagged(t),
            None => Seq::empty(),
        }
    }
}

/// No two questions have the same identifier.
pub open spec fn distinct_ids(questions: Seq<QuestionView>) -> bool {
    forall|i: int, j: int|
        0 <= i < j < questions.len() ==> (#[trigger] questions[i]).id != (
        #[trigger] questions[j]).id
}

/// Whether one of `questions` has the identifier `id`.
pub open spec fn has_id(questions: Seq<Question>, id: u128) -> bool {
    exists|i: int| 0 <= i < questions.len() && (#[trigger] questions[i]).id == id
}

/// Whether one of `taken` has the identifier `id`.
pub fn holds_id(taken: &Vec<Question>, id: u128) -> (held: bool)
    ensures
        held == has_id(taken@, id),
{
    let mut i: usize = 0;
    while i < taken.len()
        invariant
            i <= taken.len(),
            forall|j: int| 0 <= j < i ==> (#[trigger] taken@[j]).id != id,
        decreases taken.len() - i,
    {
        if taken[i].id == id {
            return true;
        }
        i += 1;
    }
    false
}

/// An identifier for one more question beside `taken`: the drawn one where
/// it has the layout of a random UUID and no question has it yet, else the
/// first spare identifier that no question has.
pub fn fresh_id(taken: &Vec<Question>, drawn: u128) -> (id: u128)
    ensures
        is_random_uuid(id),
        !has_id(taken@, id),
        is_random_uuid(drawn) && !has_id(taken@, drawn) ==> id == drawn,
{
    if has_random_uuid_layout(drawn) && !holds_id(taken, drawn) {
        return drawn;
    }
    let ghost views = taken@.map_values(|q: Question| q@);
    let mut k: usize = 0;
    loop
        invariant
            k <= taken.len(),
            views == taken@.map_values(|q: Question| q@),
            !is_random_uuid(drawn) || has_id(taken@, drawn),
            forall|j: u128| j < k ==> has_id(taken@, #[trigger] spare_id(j)),
        decreases taken.len() - k,
    {
        let candidate = spare(k);
        if !holds_id(taken, candidate) {
            return candidate;
        }
        proof {
            // Were all of the first k + 1 spare identifiers taken, there
            // would be as many questions.
            let ids = spare_ids((k + 1) as nat);
            lemma_spare_ids_count((k + 1) as nat);
            assert forall|id: u128| ids.contains(id) implies exists|i: int|
                0 <= i < views.len() && (#[trigger] views[i]).id == id by {
                let j = choose|j: u128| j < k + 1 && #[trigger] spare_id(j) == id;
                assert(has_id(taken@, spare_id(j)));
                let i = choose|i: int| 0 <= i < taken@.len() && (#[trigger] taken@[i]).id == id;
                assert(views[i].id == id);
            }
            lemma_answered_bound(views, ids);
        }
        k += 1;
    }
}

/// The catalog of questions of one assessment, in the order in which they
/// are asked. It does not change once built.
pub struct QuestionBank {
    questions: Vec<Question>,
}

impl View for QuestionBank {
    type V = Seq<QuestionView>;

    closed spec fn view(&self) -> Seq<QuestionView> {
        self.questions@.map_values(|q: Question| q@)
    }
}

impl QuestionBank {
    #[verifier::type_invariant]
    spec fn inv(self) -> bool {
        distinct_ids(self@)
    }

    /// Builds the bank from the supplied definitions. Each question gets an
    /// identifier that no other question of the bank has, drawn at random,
    /// and the name of its definition. The second
    /// result lists the positions of the definitions that could not be read
    /// and were left out.
    pub fn build(sources: &Vec<Option<ThematicQuestions>>) -> (built: (QuestionBank, Vec<usize>))
        ensures
            built.0@.map_values(|q: QuestionView| content_of(q)) == flatten(
                sources@.map_values(|s: Option<ThematicQuestions>| source_view(s)),
            ),
            forall|i: int| 0 <= i < built.0@.len() ==> is_random_uuid(#[trigger] built.0@[i].id),
            distinct_ids(built.0@),
            forall|k: int|
                0 <= k < built.1@.len() ==> 0 <= #[trigger] built.1@[k] < sources@.len()
                    && sources@[built.1@[k] as int] is None,
            forall|k: int, l: int| 0 <= k < l < built.1@.len() ==> built.1@[k] < built.1@[l],
            forall|i: int|
                0 <= i < sources@.len() && (#[trigger] sources@[i]) is None ==> built.1@.contains(
                    i as usize,
                ),
    {
        let ghost views = sources@.map_values(|s: Option<ThematicQuestions>| source_view(s));
        let mut questions: Vec<Question> = Vec::new();
        let mut skipped: Vec<usize> = Vec::new();
        let mut i: usize = 0;
        while i < sources.len()
            invariant
                i <= sources.len(),
                views == sources@.map_values(|s: Option<ThematicQuestions>| source_view(s)),
                questions@.map_values(|q: Question| content_of(q@)) == flatten(
                    views.take(i as int),
                ),
                forall|k: int|
                    0 <= k < questions@.len() ==> is_random_uuid(#[trigger] questions@[k].id),
                forall|a: int, b: int|
                    0 <= a < b < questions@.len() ==> (#[trigger] questions@[a]).id != (
                    #[trigger] questions@[b]).id,
                forall|k: int|
                    0 <= k < skipped@.len() ==> 0 <= #[trigger] skipped@[k] < i
                        && sources@[skipped@[k] as int] is None,
                forall|k: int, l: int| 0 <= k < l < skipped@.len() ==> skipped@[k] < skipped@[l],
                forall|j: int|
                    0 <= j < i && (#[trigger] sources@[j]) is None ==> skipped@.contains(j as usize),
            decreases sources.len() - i,
        {
            let ghost before = questions@;
            proof {
                assert(views.take(i + 1).drop_last() =~= views.take(i as int));
                assert(views.take(i + 1).last() == views[i as int]);
            }
            match &sources[i] {
                Some(definition) => {
                    let ghost t = definition@;
                    let mut j: usize = 0;
                    while j < definition.questions.len()
                        invariant
                            j <= definition.questions.len(),
                            t == definition@,
                            questions@.map_values(|q: Question| content_of(q@)) == before.map_values(
                                |q: Question| content_of(q@),
                            ) + tagged(t).take(j as int),
                            forall|k: int|
                                0 <= k < questions@.len() ==> is_random_uuid(
                                    #[trigger] questions@[k].id,
                                ),
                            forall|a: int, b: int|
                                0 <= a < b < questions@.len() ==> (#[trigger] questions@[a]).id
                                    != (#[trigger] questions@[b]).id,
                        decreases definition.questions.len() - j,
                    {
                        let source = &definition.questions[j];
                        let question = Question {
                            id: fresh_id(&questions, random_id()),
                            text: source.text.clone(),
                            description: clone_opt(&source.description),
                            thematic: definition.thematic.clone(),
                        };
                        let ghost previous = questions@;
                        questions.push(question);
                        proof {
                            assert(content_of(question@) == tagged(t)[j as int]);
                            assert(questions@.map_values(|q: Question| content_of(q@))
                                =~= previous.map_values(|q: Question| content_of(q@)).push(
                                content_of(question@),
                            ));
                            assert(tagged(t).take(j + 1) =~= tagged(t).take(j as int).push(
                                tagged(t)[j as int],
                            ));
                        }
                        j += 1;
                    }
                    proof {
                        assert(tagged(t).take(j as int) =~= tagged(t));
                    }
                },
                None => {
                    let ghost old_skipped = skipped@;
                    skipped.push(i);
                    proof {
                        assert(questions@.map_values(|q: Question| content_of(q@)) =~= flatten(
                            views.take(i as int),
                        ) + Seq::<QuestionContent>::empty());
                        assert(skipped@[old_skipped.len() as int] == i);
                        assert forall|m: int|
                            0 <= m < i + 1 && (#[trigger] sources@[m]) is None implies skipped@
                            .contains(m as usize) by {
                            if m < i {
                                let k = choose|k: int|
                                    0 <= k < old_skipped.len() && old_skipped[k] == m as usize;
                                assert(skipped@[k] == m as usize);
                            }
                        }
                    }
                },
            }
            i += 1;
        }
        proof {
            assert(views.take(i as int) =~= views);
        }
        let bank = QuestionBank { questions };
        proof {
            assert(bank@.map_values(|q: QuestionView| content_of(q)) =~= bank.questions@.map_values(
                |q: Question| content_of(q@),
            ));
        }
        (bank, skipped)
    }

    /// How many questions the bank holds.
    pub fn len(&self) -> (n: usize)
        ensures
            n == self@.len(),
            distinct_ids(self@),
    {
        proof {
            use_type_invariant(self);
        }
        self.questions.len()
    }

    /// The question at `index`, which the bank must hold.
    pub(crate) fn at(&self, index: usize) -> (question: &Question)
        requires
            index < self@.len(),
        ensures
            question@ == self@[index as int],
    {
        &self.questions[index]
    }

    /// The question at `index`, if there is one.
    pub fn get(&self, index: usize) -> (found: Option<&Question>)
        ensures
            index < self@.len() ==> found is Some && found->0@ == self@[index as int],
            index >= self@.len() ==> found is None,
    {
        if index < self.questions.len() {
            Some(&self.questions[index])
        } else {
            None
        }
    }
}

/// What a store holds once `token` is recorded for `id`: the answer that the
/// token stands for replaces whatever `id` had; a token that stands for no
/// answer changes nothing.
pub open spec fn recorded(answers: Map<u128, Answer>, id: u128, token: Seq<char>) -> Map<
    u128,
    Answer,
> {
    match Answer::parse(token) {
        Some(answer) => answers.insert(id, answer),
        None => answers,
    }
}

/// The answer that a store holds for `id`, if it holds one.
pub open spec fn stored(answers: Map<u128, Answer>, id: u128) -> Option<Answer> {
    if answers.contains_key(id) {
        Some(answers[id])
    } else {
        None
    }
}

/// The answers given so far, by question identifier: at most one for each.
pub struct AnswerStore {
    answers: HashMap<u128, Answer>,
}

impl View for AnswerStore {
    type V = Map<u128, Answer>;

    closed spec fn view(&self) -> Map<u128, Answer> {
        self.answers@
    }
}

impl AnswerStore {
    /// A store that holds no answer.
    pub fn new() -> (store: AnswerStore)
        ensures
            store@ == Map::<u128, Answer>::empty(),
    {
        AnswerStore { answers: HashMap::new() }
    }

    /// Records the answer that `token` stands for against `id`. Recording
    /// again replaces the earlier answer; an unknown token is passed over.
    pub fn record(&mut self, id: u128, token: &str)
        ensures
            final(self)@ == recorded(old(self)@, id, token@),
    {
        match Answer::from_str(token) {
            Some(answer) => {
                self.answers.insert(id, answer);
            },
            None => {},
        }
    }

    /// The answer recorded for `id`, if there is one.
    pub fn get(&self, id: u128) -> (answer: Option<Answer>)
        ensures
            answer == stored(self@, id),
    {
        match self.answers.get(&id) {
            Some(answer) => Some(*answer),
            None => None,
        }
    }

    /// How many questions have an answer.
    pub fn len(&self) -> (n: usize)
        ensures
            n == self@.dom().len(),
            self@.dom().finite(),
    {
        self.answers.len()
    }
}

/// What a `Survey` holds.
pub struct SurveyView {
    pub questions: Seq<QuestionView>,
    pub answers: Map<u128, Answer>,
}

impl SurveyView {
    /// Whether some question of the survey has the identifier `id`.
    pub open spec fn asks(self, id: u128) -> bool {
        exists|i: int| 0 <= i < self.questions.len() && (#[trigger] self.questions[i]).id == id
    }

    /// `data` is what is shown for the position `index`: the question there
    /// with its thematic and the token of its answer so far, or, where the
    /// survey has no such question, a stand-in with the text
    /// `MISSING_QUESTION_TEXT`, a random identifier and nothing else.
    pub open spec fn shows(self, index: int, data: QuestionDataView) -> bool {
        if 0 <= index < self.questions.len() {
            let q = self.questions[index];
            &&& data.question == q
            &&& data.thematic == q.thematic
            &&& data.answer == match stored(self.answers, q.id) {
                Some(answer) => Some(answer.token()),
                None => None,
            }
        } else {
            &&& data.question.text == MISSING_QUESTION_TEXT@
            &&& data.question.description is None
            &&& data.question.thematic == Seq::<char>::empty()
            &&& is_random_uuid(data.question.id)
            &&& data.thematic == Seq::<char>::empty()
            &&& data.answer is None
        }
    }

    /// No two questions have the same identifier, and every answer belongs
    /// to a question of the survey.
    pub open spec fn wf(self) -> bool {
        &&& distinct_ids(self.questions)
        &&& forall|id: u128| self.answers.contains_key(id) ==> self.asks(id)
    }
}

/// One assessment: its questions and the answers given to them so far.
pub struct Survey {
    bank: QuestionBank,
    answers: AnswerStore,
}

impl View for Survey {
    type V = SurveyView;

    closed spec fn view(&self) -> SurveyView {
        SurveyView { questions: self.bank@, answers: self.answers@ }
    }
}

impl Survey {
    #[verifier::type_invariant]
    spec fn inv(self) -> bool {
        self@.wf()
    }

    /// Starts an assessment on the supplied definitions: the questions of
    /// the readable ones in the order given, each under an identifier of
    /// its own, and no answer yet.
    pub fn new(sources: &Vec<Option<ThematicQuestions>>) -> (survey: Survey)
        ensures
            survey@.questions.map_values(|q: QuestionView| content_of(q)) == flatten(
                sources@.map_values(|s: Option<ThematicQuestions>| source_view(s)),
            ),
            forall|i: int|
                0 <= i < survey@.questions.len() ==> is_random_uuid(
                    #[trigger] survey@.questions[i].id,
                ),
            distinct_ids(survey@.questions),
            survey@.answers == Map::<u128, Answer>::empty(),
            survey@.wf(),
    {
        let (bank, _) = QuestionBank::build(sources);
        Survey { bank, answers: AnswerStore::new() }
    }

    /// How many questions the survey asks.
    pub fn total_questions(&self) -> (n: usize)
        ensures
            n == self@.questions.len(),
            self@.wf(),
    {
        proof {
            use_type_invariant(self);
        }
        self.bank.len()
    }

    /// The question at `index` with its thematic and the token of its
    /// answer so far. Where the survey has no such question, a stand-in
    /// comes back: the text `MISSING_QUESTION_TEXT`, an identifier of its
    /// own draw, no description, an empty thematic and no answer.
    pub fn get_question(&self, index: usize) -> (data: QuestionData)
        ensures
            self@.shows(index as int, data@),
            self@.wf(),
    {
        proof {
            use_type_invariant(self);
        }
        match self.bank.get(index) {
            Some(question) => {
                let answer = match self.answers.get(question.id) {
                    Some(answer) => Some(answer.as_str().to_string()),
                    None => None,
                };
                QuestionData {
                    question: question.clone(),
                    thematic: question.thematic.clone(),
                    answer,
                }
            },
            None => QuestionData {
                question: Question {
                    id: random_id(),
                    text: MISSING_QUESTION_TEXT.to_string(),
                    description: None,
                    thematic: String::new(),
                },
                thematic: String::new(),
                answer: None,
            },
        }
    }

    /// Records the answer that `answer_str` stands for against the question
    /// at `index`. Nothing changes where the survey has no such question or
    /// the token stands for no answer.
    pub fn answer_question(&mut self, index: usize, answer_str: &str)
        ensures
            final(self)@.questions == old(self)@.questions,
            final(self)@.answers == if index < old(self)@.questions.len() {
                recorded(old(self)@.answers, old(self)@.questions[index as int].id, answer_str@)
            } else {
                old(self)@.answers
            },
            old(self)@.wf(),
            final(self)@.wf(),
    {
        let mut taken = Survey {
            bank: QuestionBank { questions: Vec::new() },
            answers: AnswerStore::new(),
        };
        core::mem::swap(self, &mut taken);
        proof {
            use_type_invariant(&taken);
        }
        let ghost before = taken@;
        let Survey { bank, mut answers } = taken;
        match bank.get(index) {
            Some(question) => {
                answers.record(question.id, answer_str);
            },
            None => {},
        }
        proof {
            let after = SurveyView { questions: bank@, answers: answers@ };
            assert forall|id: u128| after.answers.contains_key(id) implies after.asks(id) by {
                if before.answers.contains_key(id) {
                    assert(before.asks(id));
                } else {
                    assert(after.questions[index as int].id == id);
                }
            }
        }
        *self = Survey { bank, answers };
    }

    /// Scores the assessment as it stands: the average of each thematic,
    /// how many questions have an answer, and how many there are.
    pub fn get_results(&self) -> (results: SurveyResults)
        ensures
            is_scoring_of(results@.scores, self@.questions, self@.answers),
            results@.total_answered == self@.answers.dom().len(),
            results@.total_questions == self@.questions.len(),
            results@.total_answered <= results@.total_questions,
            results@.wf(),
            self@.wf(),
    {
        proof {
            use_type_invariant(self);
        }
        let scores = thematic_scores(&self.bank, &self.answers);
        let total_answered = self.answers.len();
        let total_questions = self.bank.len();
        proof {
            lemma_scoring_gives_scores(score_views(scores@), self@.questions, self@.answers);
            assert forall|id: u128| self@.answers.dom().contains(id) implies exists|i: int|
                0 <= i < self@.questions.len() && (#[trigger] self@.questions[i]).id == id by {
                assert(self@.asks(id));
            }
            lemma_answered_bound(self@.questions, self@.answers.dom());
        }
        SurveyResults::assemble(scores, total_answered, total_questions)
    }
}

/// A set of identifiers that all belong to questions of a list has no more
/// members than the list has questions.
pub proof fn lemma_answered_bound(questions: Seq<QuestionView>, ids: Set<u128>)
    requires
        ids.finite(),
        forall|id: u128|
            ids.contains(id) ==> exists|i: int|
                0 <= i < questions.len() && (#[trigger] questions[i]).id == id,
    ensures
        ids.len() <= questions.len(),
    decreases questions.len(),
{
    if questions.len() == 0 {
        assert(ids =~= Set::<u128>::empty());
    } else {
        let last = questions.last().id;
        let rest = ids.remove(last);
        assert forall|id: u128| rest.contains(id) implies exists|i: int|
            0 <= i < questions.drop_last().len() && (#[trigger] questions.drop_last()[i]).id
                == id by {
            let i = choose|i: int| 0 <= i < questions.len() && (#[trigger] questions[i]).id == id;
            assert(questions.drop_last()[i].id == id);
        }
        lemma_answered_bound(questions.drop_last(), rest);
    }
}

/// An answer recorded for an identifier is the one that is found there
/// afterwards, whatever was recorded before: the second of two recordings
/// wins. A token that stands for no answer leaves the earlier one in place.
pub proof fn lemma_record_overwrites(
    answers: Map<u128, Answer>,
    id: u128,
    first: Seq<char>,
    second: Seq<char>,
)
    ensures
        stored(recorded(recorded(answers, id, first), id, second), id) == match Answer::parse(
            second,
        ) {
            Some(answer) => Some(answer),
            None => stored(recorded(answers, id, first), id),
        },
        forall|other: u128|
            other != id ==> stored(recorded(recorded(answers, id, first), id, second), other)
                == stored(answers, other),
{
}

/// The identifiers of the questions of a list.
pub open spec fn ids_of(questions: Seq<QuestionView>) -> Set<u128> {
    Set::new(|id: u128| exists|i: int| 0 <= i < questions.len() && (#[trigger] questions[i]).id == id)
}

/// Questions with identifiers of their own have as many identifiers as
/// there are questions.
pub proof fn lemma_distinct_ids_count(questions: Seq<QuestionView>)
    requires
        distinct_ids(questions),
    ensures
        ids_of(questions).finite(),
        ids_of(questions).len() == questions.len(),
    decreases questions.len(),
{
    if questions.len() == 0 {
        assert(ids_of(questions) =~= Set::<u128>::empty());
    } else {
        let rest = questions.drop_last();
        let last = questions.last();
        assert forall|i: int, j: int| 0 <= i < j < rest.len() implies (#[trigger] rest[i]).id != (
        #[trigger] rest[j]).id by {
            assert(rest[i] == questions[i] && rest[j] == questions[j]);
        }
        lemma_distinct_ids_count(rest);
        assert(!ids_of(rest).contains(last.id)) by {
            if ids_of(rest).contains(last.id) {
                let i = choose|i: int| 0 <= i < rest.len() && (#[trigger] rest[i]).id == last.id;
                assert(questions[i].id == questions[questions.len() - 1].id);
            }
        }
        assert(ids_of(questions) =~= ids_of(rest).insert(last.id)) by {
            assert forall|id: u128| ids_of(questions).contains(id) implies ids_of(rest).insert(
                last.id,
            ).contains(id) by {
                let i = choose|i: int|
                    0 <= i < questions.len() && (#[trigger] questions[i]).id == id;
                if i < rest.len() {
                    assert(rest[i].id == id);
                }
            }
            assert forall|id: u128| ids_of(rest).insert(last.id).contains(id) implies ids_of(
                questions,
            ).contains(id) by {
                if id == last.id {
                    assert(questions[questions.len() - 1].id == id);
                } else {
                    let i = choose|i: int| 0 <= i < rest.len() && (#[trigger] rest[i]).id == id;
                    assert(questions[i].id == id);
                }
            }
        }
    }
}

/// An answer to one question leaves the answer of every other question as
/// it was.
pub proof fn lemma_answer_leaves_others(survey: SurveyView, i: int, j: int, token: Seq<char>)
    requires
        survey.wf(),
        0 <= i < survey.questions.len(),
        0 <= j < survey.questions.len(),
        i != j,
    ensures
        stored(recorded(survey.answers, survey.questions[i].id, token), survey.questions[j].id)
            == stored(survey.answers, survey.questions[j].id),
{
    if i < j {
        assert(survey.questions[i].id != survey.questions[j].id);
    } else {
        assert(survey.questions[j].id != survey.questions[i].id);
    }
}

/// Where every question has an answer, as many questions are answered as
/// there are questions.
pub proof fn lemma_all_answered_counts_all(survey: SurveyView)
    requires
        survey.wf(),
        forall|i: int|
            0 <= i < survey.questions.len() ==> survey.answers.contains_key(
                (#[trigger] survey.questions[i]).id,
            ),
    ensures
        survey.answers.dom().len() == survey.questions.len(),
{
    lemma_distinct_ids_count(survey.questions);
    assert(survey.answers.dom() =~= ids_of(survey.questions)) by {
        assert forall|id: u128| survey.answers.dom().contains(id) implies ids_of(
            survey.questions,
        ).contains(id) by {
            assert(survey.asks(id));
        }
        assert forall|id: u128| ids_of(survey.questions).contains(id) implies survey.answers.dom().contains(
            id,
        ) by {
            let i = choose|i: int|
                0 <= i < survey.questions.len() && (#[trigger] survey.questions[i]).id == id;
            assert(survey.answers.contains_key(survey.questions[i].id));
        }
    }
}

} // verus!
