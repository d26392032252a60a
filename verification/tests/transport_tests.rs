use mini_audit::app::{FormData, Msg};
use mini_audit::transport::{
    contact_payload, interpret, Outcome, ResponseBody, CONTACT_CONTENT_TYPE, CONTACT_PATH,
};

fn form() -> FormData {
    FormData {
        startup_name: "Acme".to_string(),
        contact_name: "Ada Lovelace".to_string(),
        contact_email: "ada@acme.io".to_string(),
        contact_phone: "+33 6 12 34 56 78".to_string(),
        message: "Bonjour".to_string(),
    }
}

fn failure(outcome: Outcome) -> String {
    match interpret(outcome) {
        Msg::FormSubmitError(message) => message,
        other => panic!("no failure: {:?}", other),
    }
}

#[test]
fn payload_is_the_json_object_of_the_five_fields() {
    let body = contact_payload(&form());
    assert_eq!(
        body,
        "{\"contact_email\":\"ada@acme.io\",\"contact_name\":\"Ada Lovelace\",\
         \"contact_phone\":\"+33 6 12 34 56 78\",\"message\":\"Bonjour\",\
         \"startup_name\":\"Acme\"}"
    );
}

#[test]
fn payload_reads_back_as_the_form() {
    let mut data = form();
    data.message = "Ligne 1\nLigne \"2\" \\ é".to_string();
    data.contact_phone = String::new();
    let body = contact_payload(&data);
    let value: serde_json::Value = serde_json::from_str(&body).unwrap();
    let object = value.as_object().unwrap();
    assert_eq!(object.len(), 5);
    assert_eq!(object["startup_name"].as_str(), Some("Acme"));
    assert_eq!(object["contact_name"].as_str(), Some("Ada Lovelace"));
    assert_eq!(object["contact_email"].as_str(), Some("ada@acme.io"));
    assert_eq!(object["contact_phone"].as_str(), Some(""));
    assert_eq!(object["message"].as_str(), Some("Ligne 1\nLigne \"2\" \\ é"));
}

#[test]
fn payload_of_the_empty_form_has_five_empty_members() {
    let body = contact_payload(&FormData::default());
    assert_eq!(
        body,
        "{\"contact_email\":\"\",\"contact_name\":\"\",\"contact_phone\":\"\",\
         \"message\":\"\",\"startup_name\":\"\"}"
    );
}

#[test]
fn request_goes_to_the_contact_path_as_json() {
    assert_eq!(CONTACT_PATH, "/api/contact");
    assert_eq!(CONTACT_CONTENT_TYPE, "application/json");
}

#[test]
fn every_2xx_is_a_success() {
    for status in [200u16, 201, 204, 299] {
        let msg = interpret(Outcome::Answered { status, body: ResponseBody::Unavailable });
        assert!(matches!(msg, Msg::FormSubmitSuccess));
        let msg = interpret(Outcome::Answered {
            status,
            body: ResponseBody::Text("ignored".to_string()),
        });
        assert!(matches!(msg, Msg::FormSubmitSuccess));
    }
}

#[test]
fn other_statuses_fail_with_the_body() {
    for status in [0u16, 199, 300, 404, 500, u16::MAX] {
        let message = failure(Outcome::Answered {
            status,
            body: ResponseBody::Text("Adresse refusée".to_string()),
        });
        assert_eq!(message, "Adresse refusée");
    }
}

#[test]
fn failure_without_text_gives_a_generic_message() {
    assert_eq!(
        failure(Outcome::Answered { status: 500, body: ResponseBody::NotText }),
        "Erreur inconnue"
    );
    assert_eq!(
        failure(Outcome::Answered { status: 500, body: ResponseBody::Unreadable }),
        "Erreur lors de la lecture de la réponse"
    );
    assert_eq!(
        failure(Outcome::Answered { status: 503, body: ResponseBody::Unavailable }),
        "Erreur HTTP: 503"
    );
    assert_eq!(
        failure(Outcome::Answered { status: 0, body: ResponseBody::Unavailable }),
        "Erreur HTTP: 0"
    );
}

#[test]
fn transport_failures_carry_their_description() {
    assert_eq!(
        failure(Outcome::Unreachable("JsValue(TypeError)".to_string())),
        "Erreur réseau: JsValue(TypeError)"
    );
    assert_eq!(
        failure(Outcome::RequestRefused("JsValue(SyntaxError)".to_string())),
        "Erreur lors de la création de la requête: JsValue(SyntaxError)"
    );
    assert_eq!(failure(Outcome::NotAResponse), "Réponse invalide");
}
