//! The core of a self-assessment for startups: a bank of yes/no/unknown
//! questions grouped by thematic, the answers given to them, the scores
//! that follow, the layout of the radar chart, the rules of the contact
//! form, and the controller that moves between the screens.

pub mod app;
pub mod arith;
pub mod feedback;
pub mod ids;
pub mod json;
pub mod models;
pub mod radar;
pub mod scoring;
pub mod survey;
pub mod text;
pub mod transport;
pub mod validation;
pub mod view;
