//! What is handed to the transport, and what is made of its report.

use crate::app::{
    FormData, FormDataView, Msg, FIELD_CONTACT_EMAIL, FIELD_CONTACT_NAME, FIELD_CONTACT_PHONE,
    FIELD_MESSAGE, FIELD_STARTUP_NAME,
};
use crate::json::{json_text, no_members, TextObject};
use crate::text::{decimal, decimal_string};
use vstd::prelude::*;
use vstd::string::*;

verus! {

/// The path that a contact request is posted to.
pub const CONTACT_PATH: &'static str = "/api/contact";

/// The content type of a contact request.
pub const CONTACT_CONTENT_TYPE: &'static str = "application/json";

/// The members of the JSON object that carries a contact request: the five
/// fields under their names.
pub open spec fn contact_members(form: FormDataView) -> Map<Seq<char>, Seq<char>> {
    no_members().insert(FIELD_STARTUP_NAME@, form.startup_name).insert(
        FIELD_CONTACT_NAME@,
        form.contact_name,
    ).insert(FIELD_CONTACT_EMAIL@, form.contact_email).insert(
        FIELD_CONTACT_PHONE@,
        form.contact_phone,
    ).insert(FIELD_MESSAGE@, form.message)
}

/// The body of the request that carries `form`: a JSON object with the five
/// fields as strings.
pub fn contact_payload(form: &FormData) -> (body: String)
    ensures
        body@ == json_text(contact_members(form@)),
{
    let mut object = TextObject::new();
    object.put(FIELD_STARTUP_NAME, form.startup_name.as_str());
    object.put(FIELD_CONTACT_NAME, form.contact_name.as_str());
    object.put(FIELD_CONTACT_EMAIL, form.contact_email.as_str());
    object.put(FIELD_CONTACT_PHONE, form.contact_phone.as_str());
    object.put(FIELD_MESSAGE, form.message.as_str());
    object.into_text()
}

/// What could be had of the body of a response.
#[derive(Debug)]
pub enum ResponseBody {
    /// The body, read as text.
    Text(String),
    /// The body was read and is no text.
    NotText,
    /// Reading the body failed.
    Unreadable,
    /// The body could not be asked for.
    Unavailable,
}

/// What the transport reports of one contact request.
#[derive(Debug)]
pub enum Outcome {
    /// The request could not be built; the payload describes why.
    RequestRefused(String),
    /// The request did not get through; the payload describes why.
    Unreachable(String),
    /// Something came back that is no response.
    NotAResponse,
    /// A response came back.
    Answered { status: u16, body: ResponseBody },
}

/// The start of the message for a request that could not be built.
pub const MSG_REQUEST_REFUSED: &'static str = "Erreur lors de la création de la requête: ";

/// The start of the message for a request that did not get through.
pub const MSG_UNREACHABLE: &'static str = "Erreur réseau: ";

/// The message for what is no response.
pub const MSG_NOT_A_RESPONSE: &'static str = "Réponse invalide";

/// The message for a body that is no text.
pub const MSG_NOT_TEXT: &'static str = "Erreur inconnue";

/// The message for a body that could not be read.
pub const MSG_UNREADABLE: &'static str = "Erreur lors de la lecture de la réponse";

/// The start of the message that gives the status of a response.
pub const MSG_STATUS: &'static str = "Erreur HTTP: ";

/// A response reports success when its status is one of the 2xx.
pub open spec fn is_success(status: u16) -> bool {
    200 <= status <= 299
}

/// Whether `outcome` is a response that reports success.
pub open spec fn succeeded(outcome: Outcome) -> bool {
    outcome matches Outcome::Answered { status, .. } && is_success(status)
}

/// The message for an outcome that is no success: the body of the response
/// where there is one, else what went wrong.
pub open spec fn failure_text(outcome: Outcome) -> Seq<char> {
    match outcome {
        Outcome::RequestRefused(detail) => MSG_REQUEST_REFUSED@ + detail@,
        Outcome::Unreachable(detail) => MSG_UNREACHABLE@ + detail@,
        Outcome::NotAResponse => MSG_NOT_A_RESPONSE@,
        Outcome::Answered { status, body } => match body {
            ResponseBody::Text(text) => text@,
            ResponseBody::NotText => MSG_NOT_TEXT@,
            ResponseBody::Unreadable => MSG_UNREADABLE@,
            ResponseBody::Unavailable => MSG_STATUS@ + decimal(status as nat),
        },
    }
}

/// Turns the report of the transport into the command that tells the
/// controller of it: success for a 2xx response, and a failure with its
/// message for anything else.
pub fn interpret(outcome: Outcome) -> (msg: Msg)
    ensures
        succeeded(outcome) ==> msg is FormSubmitSuccess,
        !succeeded(outcome) ==> (msg matches Msg::FormSubmitError(message) && message@
            == failure_text(outcome)),
{
    match outcome {
        Outcome::RequestRefused(detail) => {
            Msg::FormSubmitError(MSG_REQUEST_REFUSED.to_string().concat(detail.as_str()))
        },
        Outcome::Unreachable(detail) => {
            Msg::FormSubmitError(MSG_UNREACHABLE.to_string().concat(detail.as_str()))
        },
        Outcome::NotAResponse => Msg::FormSubmitError(MSG_NOT_A_RESPONSE.to_string()),
        Outcome::Answered { status, body } => {
            if 200 <= status && status <= 299 {
                Msg::FormSubmitSuccess
            } else {
                match body {
                    ResponseBody::Text(text) => Msg::FormSubmitError(text),
                    ResponseBody::NotText => Msg::FormSubmitError(MSG_NOT_TEXT.to_string()),
                    ResponseBody::Unreadable => Msg::FormSubmitError(MSG_UNREADABLE.to_string()),
                    ResponseBody::Unavailable => Msg::FormSubmitError(
                        MSG_STATUS.to_string().concat(decimal_string(status as u64).as_str()),
                    ),
                }
            }
        },
    }
}

} // verus!
