//! Quizinart: a quiz-practice web application.  This crate holds its rules:
//! how sessions pick questions, how answers are read and graded, how
//! accounts log in and register, what the pages show and link to.
use vstd::prelude::*;

pub mod answer;
pub mod assets;
pub mod auth;
pub mod email;
pub mod error;
pub mod extract;
pub mod forms;
pub mod locale;
pub mod models;
pub mod names;
pub mod pages;
pub mod quiz;
pub mod selection;
pub mod sharing;
pub mod stats;
pub mod text;
pub mod web;

verus! {

/// What every request handler shares: the store, the account service and
/// whether cookies are marked `Secure`.
#[derive(Clone)]
pub struct AppState<D> {
    pub db: D,
    pub auth: auth::AuthService,
    pub secure_cookies: bool,
}

} // verus!
