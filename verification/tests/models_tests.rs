use mini_audit::models::{
    clone_opt, Answer, Question, TOKEN_NO, TOKEN_UNKNOWN, TOKEN_YES,
};

#[test]
fn from_str_reads_the_three_tokens() {
    assert_eq!(Answer::from_str("oui"), Some(Answer::Oui));
    assert_eq!(Answer::from_str("non"), Some(Answer::Non));
    assert_eq!(Answer::from_str("je-ne-sais-pas"), Some(Answer::JeNeSaisPas));
}

#[test]
fn from_str_turns_down_anything_else() {
    assert_eq!(Answer::from_str(""), None);
    assert_eq!(Answer::from_str("Oui"), None);
    assert_eq!(Answer::from_str("oui "), None);
    assert_eq!(Answer::from_str("yes"), None);
    assert_eq!(Answer::from_str("je ne sais pas"), None);
}

#[test]
fn to_score_gives_the_points_of_each_answer() {
    assert_eq!(Answer::Oui.to_score(), 100);
    assert_eq!(Answer::Non.to_score(), 0);
    assert_eq!(Answer::JeNeSaisPas.to_score(), 50);
}

#[test]
fn as_str_gives_the_token_that_from_str_reads() {
    assert_eq!(Answer::Oui.as_str(), TOKEN_YES);
    assert_eq!(Answer::Non.as_str(), TOKEN_NO);
    assert_eq!(Answer::JeNeSaisPas.as_str(), TOKEN_UNKNOWN);
    for answer in [Answer::Oui, Answer::Non, Answer::JeNeSaisPas] {
        assert_eq!(Answer::from_str(answer.as_str()), Some(answer));
    }
}

#[test]
fn a_cloned_question_holds_the_same() {
    let question = Question {
        id: 42,
        text: "Avez-vous des clients ?".to_string(),
        description: Some("Des clients qui paient".to_string()),
        thematic: "Business Model".to_string(),
    };
    let copy = question.clone();
    assert_eq!(copy.id, 42);
    assert_eq!(copy.text, "Avez-vous des clients ?");
    assert_eq!(copy.description, Some("Des clients qui paient".to_string()));
    assert_eq!(copy.thematic, "Business Model");
    assert_eq!(clone_opt(&None), None);
}
