//! Accounts: password rules, password hashing and the decisions of the
//! account flows (login, registration, e-mail verification, password reset
//! and change).
//!
//! Every flow alternates storage and mail work, which the caller performs,
//! with decisions, which stand here: a flow is a small machine whose `step`
//! takes what the last piece of work answered and says what to do next, or
//! how the flow ends.
use argon2::password_hash::rand_core::OsRng;
use argon2::password_hash::{PasswordHash, PasswordHasher, PasswordVerifier, SaltString};
use argon2::Argon2;
use vstd::prelude::*;

use vstd::string::StringSliceAdditionalSpecFns;

use crate::text::{owned, utf8_len};

verus! {

/// Shortest accepted password, in bytes of UTF-8.
pub const MIN_PASSWORD_LENGTH: usize = 8;

/// A logged-in user.
#[derive(Clone)]
pub struct AuthUser {
    pub id: i32,
    pub email: String,
    pub display_name: String,
    pub is_admin: bool,
    pub is_demo: bool,
}

/// Why an account flow failed outright.
#[derive(Debug, Clone, Copy, PartialEq, Eq)]
pub enum AuthError {
    /// The user vanished between checking the password and looking them up.
    UserNotFound,
    /// Sending a verification e-mail failed.
    EmailSendFailed,
    /// Hashing a password failed.
    HashFailed,
    /// A flow was told of work it had not asked for.
    OutOfOrder,
}

/// How a registration ended.
#[derive(Debug, Clone, PartialEq, Eq)]
pub enum RegisterOutcome {
    /// User created and logged in at once (no e-mail verification); the session token.
    LoggedIn(String),
    /// Unverified user created and the verification e-mail sent; the address.
    VerificationSent(String),
    /// Unverified user created, but the verification e-mail could not be sent; the address.
    VerificationEmailFailed(String),
    /// A required field was empty.
    EmptyFields,
    /// The address is already in use.
    EmailTaken,
    /// The password is too short.
    WeakPassword,
}

/// How a login ended.
#[derive(Debug, Clone, PartialEq, Eq)]
pub enum LoginOutcome {
    /// Logged in; the session token.
    Success(String),
    /// Wrong password, or no such user.
    InvalidCredentials,
    /// Right password, but the address is not verified yet.
    EmailNotVerified,
}

/// How a password reset ended.
#[derive(Debug, Clone, Copy, PartialEq, Eq)]
pub enum ResetPasswordOutcome {
    Success,
    EmptyPassword,
    WeakPassword,
    InvalidToken,
}

/// How a password change ended.
#[derive(Debug, Clone, Copy, PartialEq, Eq)]
pub enum ChangePasswordOutcome {
    Success,
    EmptyFields,
    WeakPassword,
    IncorrectPassword,
    DemoUser,
}

/// Whether a password is long enough.
pub open spec fn strong_password(password: &str) -> bool {
    password.len() >= MIN_PASSWORD_LENGTH
}

/// The link `"{base_url}/verify-email/{token}"`.
pub open spec fn verification_link(base_url: Seq<char>, token: Seq<char>) -> Seq<char> {
    base_url + "/verify-email/"@ + token
}

/// The link `"{base_url}/reset-password/{token}"`.
pub open spec fn reset_link(base_url: Seq<char>, token: Seq<char>) -> Seq<char> {
    base_url + "/reset-password/"@ + token
}

/// The settings the account flows depend on.
#[derive(Clone)]
pub struct AuthService {
    email_enabled: bool,
    base_url: String,
}

impl AuthService {
    /// Whether e-mail verification is on.
    pub closed spec fn spec_email_enabled(&self) -> bool {
        self.email_enabled
    }

    /// The base of the links sent by mail.
    pub closed spec fn spec_base_url(&self) -> Seq<char> {
        self.base_url@
    }

    /// A service; e-mail verification is on when mail can be sent.
    pub fn new(email_enabled: bool, base_url: String) -> (r: Self)
        ensures
            r.spec_email_enabled() == email_enabled,
            r.spec_base_url() == base_url@,
    {
        AuthService { email_enabled, base_url }
    }

    /// Whether e-mail verification is on (production mode).
    pub fn email_enabled(&self) -> (r: bool)
        ensures
            r == self.spec_email_enabled(),
    {
        self.email_enabled
    }

    /// The base of the links sent by mail.
    pub fn base_url(&self) -> (r: &str)
        ensures
            r@ == self.spec_base_url(),
    {
        self.base_url.as_str()
    }

    /// The link that verifies an address.
    pub fn verification_url(&self, token: &str) -> (r: String)
        ensures
            r@ == verification_link(self.spec_base_url(), token@),
    {
        let mut r = self.base_url.clone();
        r.append("/verify-email/");
        r.append(token);
        r
    }

    /// The link that resets a password.
    pub fn reset_url(&self, token: &str) -> (r: String)
        ensures
            r@ == reset_link(self.spec_base_url(), token@),
    {
        let mut r = self.base_url.clone();
        r.append("/reset-password/");
        r.append(token);
        r
    }
}

// ---------------------------------------------------------------------------
// Login
// ---------------------------------------------------------------------------

/// Where a login stands.
#[derive(Debug, Clone, Copy, PartialEq, Eq)]
pub enum LoginPhase {
    CheckingPassword,
    CheckingEmail,
    FindingUser,
    CreatingSession,
    Done,
}

/// What the caller answers a login with: the result of the work it was asked for.
pub enum LoginEvent {
    /// Whether the password matched the stored one (false when there is no such user).
    PasswordChecked(bool),
    /// Whether the address is verified.
    EmailChecked(bool),
    /// The id of the user with that address, if any.
    UserFound(Option<i32>),
    /// The token of the new session.
    SessionCreated(String),
}

/// What a login asks for next, or how it ends.
#[derive(Debug, Clone, PartialEq, Eq)]
pub enum LoginAction {
    /// Check the password of the address.
    VerifyPassword,
    /// Check whether the address is verified.
    CheckEmailVerified,
    /// Look the user up by address.
    FindUser,
    /// Create a session for the user.
    CreateSession(i32),
    /// The login ended.
    Finish(LoginOutcome),
    /// The login failed.
    Fail(AuthError),
}

/// A login in progress.
pub struct LoginFlow {
    email_enabled: bool,
    phase: LoginPhase,
    password_ok: bool,
    email_verified: bool,
}

impl LoginFlow {
    /// What the phase of a login says of what was learned: past the password
    /// check the password matched, and past the address check (or with
    /// verification off) the address is verified.
    #[verifier::type_invariant]
    closed spec fn wf(&self) -> bool {
        &&& (self.phase == LoginPhase::CheckingEmail ==> self.password_ok && self.email_enabled)
        &&& ((self.phase == LoginPhase::FindingUser || self.phase == LoginPhase::CreatingSession)
            ==> self.password_ok && (self.email_enabled ==> self.email_verified))
    }

    /// Where the login stands.
    pub closed spec fn phase(&self) -> LoginPhase {
        self.phase
    }

    /// Whether the password was found right.
    pub closed spec fn password_ok(&self) -> bool {
        self.password_ok
    }

    /// Whether the address was found verified.
    pub closed spec fn email_verified(&self) -> bool {
        self.email_verified
    }

    /// Whether e-mail verification is on for this login.
    pub closed spec fn email_enabled(&self) -> bool {
        self.email_enabled
    }

    /// Starts a login; the first thing to do is to check the password.
    pub fn start(email_enabled: bool) -> (r: (LoginFlow, LoginAction))
        ensures
            r.0.phase() == LoginPhase::CheckingPassword,
            r.0.email_enabled() == email_enabled,
            !r.0.password_ok(),
            !r.0.email_verified(),
            r.1 == LoginAction::VerifyPassword,
    {
        (LoginFlow { email_enabled, phase: LoginPhase::CheckingPassword, password_ok: false, email_verified: false }, LoginAction::VerifyPassword)
    }

    /// Takes the answer to the last request and says what comes next.
    ///
    /// A wrong password ends the login with `InvalidCredentials`; with
    /// verification on, an unverified address ends it with
    /// `EmailNotVerified`; otherwise the user is looked up (missing: the
    /// login fails) and a session is created, whose token is the result.
    pub fn step(&mut self, event: LoginEvent) -> (r: LoginAction)
        ensures
            final(self).email_enabled() == old(self).email_enabled(),
            r == login_next(old(self).phase(), old(self).email_enabled(), event),
            final(self).phase() == login_next_phase(old(self).phase(), old(self).email_enabled(), event),
            final(self).password_ok() == (old(self).password_ok() || (old(self).phase() == LoginPhase::CheckingPassword && event == LoginEvent::PasswordChecked(true))),
            final(self).email_verified() == (old(self).email_verified() || (old(self).phase() == LoginPhase::CheckingEmail && event == LoginEvent::EmailChecked(true))),
            // What every login keeps: a session is only asked for, and success
            // only reported, after the password matched and, with verification
            // on, the address was found verified.
            (r is CreateSession || r matches LoginAction::Finish(LoginOutcome::Success(_)))
                ==> final(self).password_ok() && (final(self).email_enabled() ==> final(self).email_verified()),
            // A failed password check ends the login with `InvalidCredentials`,
            // with verification on or off, and nothing else does.
            (r == LoginAction::Finish(LoginOutcome::InvalidCredentials))
                <==> (old(self).phase() == LoginPhase::CheckingPassword && event == LoginEvent::PasswordChecked(false)),
            // `EmailNotVerified` only comes after the password matched, with
            // verification on, from an address found unverified.
            r == LoginAction::Finish(LoginOutcome::EmailNotVerified)
                ==> old(self).password_ok() && old(self).email_enabled() && event == LoginEvent::EmailChecked(false),
    {
        proof {
            use_type_invariant(&*self);
        }
        match (self.phase, event) {
            (LoginPhase::CheckingPassword, LoginEvent::PasswordChecked(ok)) => {
                if !ok {
                    self.phase = LoginPhase::Done;
                    LoginAction::Finish(LoginOutcome::InvalidCredentials)
                } else {
                    self.password_ok = true;
                    if self.email_enabled {
                        self.phase = LoginPhase::CheckingEmail;
                        LoginAction::CheckEmailVerified
                    } else {
                        self.phase = LoginPhase::FindingUser;
                        LoginAction::FindUser
                    }
                }
            },
            (LoginPhase::CheckingEmail, LoginEvent::EmailChecked(verified)) => {
                if !verified {
                    self.phase = LoginPhase::Done;
                    LoginAction::Finish(LoginOutcome::EmailNotVerified)
                } else {
                    self.email_verified = true;
                    self.phase = LoginPhase::FindingUser;
                    LoginAction::FindUser
                }
            },
            (LoginPhase::FindingUser, LoginEvent::UserFound(user)) => {
                match user {
                    None => {
                        self.phase = LoginPhase::Done;
                        LoginAction::Fail(AuthError::UserNotFound)
                    },
                    Some(id) => {
                        self.phase = LoginPhase::CreatingSession;
                        LoginAction::CreateSession(id)
                    },
                }
            },
            (LoginPhase::CreatingSession, LoginEvent::SessionCreated(token)) => {
                self.phase = LoginPhase::Done;
                LoginAction::Finish(LoginOutcome::Success(token))
            },
            _ => {
                self.phase = LoginPhase::Done;
                LoginAction::Fail(AuthError::OutOfOrder)
            },
        }
    }
}

/// What a login in `phase` does on `event`.
pub open spec fn login_next(phase: LoginPhase, email_enabled: bool, event: LoginEvent) -> LoginAction {
    match (phase, event) {
        (LoginPhase::CheckingPassword, LoginEvent::PasswordChecked(ok)) =>
            if !ok { LoginAction::Finish(LoginOutcome::InvalidCredentials) }
            else if email_enabled { LoginAction::CheckEmailVerified }
            else { LoginAction::FindUser },
        (LoginPhase::CheckingEmail, LoginEvent::EmailChecked(verified)) =>
            if !verified { LoginAction::Finish(LoginOutcome::EmailNotVerified) } else { LoginAction::FindUser },
        (LoginPhase::FindingUser, LoginEvent::UserFound(user)) => match user {
            None => LoginAction::Fail(AuthError::UserNotFound),
            Some(id) => LoginAction::CreateSession(id),
        },
        (LoginPhase::CreatingSession, LoginEvent::SessionCreated(token)) => LoginAction::Finish(LoginOutcome::Success(token)),
        _ => LoginAction::Fail(AuthError::OutOfOrder),
    }
}

/// Where a login in `phase` stands after `event`.
pub open spec fn login_next_phase(phase: LoginPhase, email_enabled: bool, event: LoginEvent) -> LoginPhase {
    match login_next(phase, email_enabled, event) {
        LoginAction::CheckEmailVerified => LoginPhase::CheckingEmail,
        LoginAction::FindUser => LoginPhase::FindingUser,
        LoginAction::CreateSession(_) => LoginPhase::CreatingSession,
        _ => LoginPhase::Done,
    }
}

// ---------------------------------------------------------------------------
// Registration
// ---------------------------------------------------------------------------

/// Where a registration stands.
#[derive(Debug, Clone, Copy, PartialEq, Eq)]
pub enum RegisterPhase {
    CheckingEmail,
    CreatingUser,
    CreatingSession,
    CreatingUnverifiedUser,
    SendingVerification,
    Done,
}

/// What the caller answers a registration with.
pub enum RegisterEvent {
    /// Whether the address is already in use.
    EmailExists(bool),
    /// The id of the user just created (verification off).
    UserCreated(i32),
    /// The token of the new session.
    SessionCreated(String),
    /// The verification token of the unverified user just created.
    UnverifiedUserCreated(String),
    /// Whether the verification e-mail went out.
    VerificationEmailSent(bool),
}

/// What a registration asks for next, or how it ends.
#[derive(Debug, Clone, PartialEq, Eq)]
pub enum RegisterAction {
    /// Check whether the address is in use.
    CheckEmailExists,
    /// Create a verified user.
    CreateUser,
    /// Create a session for the user.
    CreateSession(i32),
    /// Create an unverified user with a verification token.
    CreateUnverifiedUser,
    /// Send the verification e-mail for this token (the link is
    /// [`AuthService::verification_url`] of it).
    SendVerificationEmail(String),
    /// The registration ended.
    Finish(RegisterOutcome),
    /// The registration failed.
    Fail(AuthError),
}

/// The outcome of a registration decided before any storage work: empty
/// fields, then a short password; `None` when the registration goes on.
pub open spec fn register_precheck(email: &str, password: &str, display_name: &str) -> Option<RegisterOutcome> {
    if email@.len() == 0 || password@.len() == 0 || display_name@.len() == 0 {
        Some(RegisterOutcome::EmptyFields)
    } else if !strong_password(password) {
        Some(RegisterOutcome::WeakPassword)
    } else {
        None
    }
}

/// A registration in progress.
pub struct RegisterFlow {
    email_enabled: bool,
    phase: RegisterPhase,
    email: String,
    checks_passed: bool,
    email_free: bool,
}

impl RegisterFlow {
    /// What the phase says of what was learned: any creation comes after the
    /// fields passed their checks and the address was found free, and the
    /// kind of user created follows the verification setting.
    #[verifier::type_invariant]
    closed spec fn wf(&self) -> bool {
        &&& (self.phase != RegisterPhase::CheckingEmail && self.phase != RegisterPhase::Done)
            ==> self.checks_passed && self.email_free
        &&& self.phase == RegisterPhase::CheckingEmail ==> self.checks_passed
        &&& (self.phase == RegisterPhase::CreatingUser || self.phase == RegisterPhase::CreatingSession) ==> !self.email_enabled
        &&& (self.phase == RegisterPhase::CreatingUnverifiedUser || self.phase == RegisterPhase::SendingVerification) ==> self.email_enabled
    }

    /// Where the registration stands.
    pub closed spec fn phase(&self) -> RegisterPhase {
        self.phase
    }

    /// Whether e-mail verification is on for this registration.
    pub closed spec fn email_enabled(&self) -> bool {
        self.email_enabled
    }

    /// The address being registered.
    pub closed spec fn email(&self) -> String {
        self.email
    }

    /// Whether the fields passed their checks.
    pub closed spec fn checks_passed(&self) -> bool {
        self.checks_passed
    }

    /// Whether the address was found free.
    pub closed spec fn email_free(&self) -> bool {
        self.email_free
    }

    /// Starts a registration: empty fields or a short password end it at
    /// once; otherwise the address is checked first.
    pub fn start(service: &AuthService, email: &str, password: &str, display_name: &str) -> (r: (RegisterFlow, RegisterAction))
        ensures
            r.0.email_enabled() == service.spec_email_enabled(),
            r.0.email()@ == email@,
            !r.0.email_free(),
            match register_precheck(email, password, display_name) {
                Some(o) => r.1 == RegisterAction::Finish(o) && r.0.phase() == RegisterPhase::Done,
                None => r.1 == RegisterAction::CheckEmailExists && r.0.phase() == RegisterPhase::CheckingEmail
                    && r.0.checks_passed(),
            },
    {
        if email.is_empty() || password.is_empty() || display_name.is_empty() {
            let f = RegisterFlow { email_enabled: service.email_enabled(), phase: RegisterPhase::Done, email: owned(email), checks_passed: false, email_free: false };
            return (f, RegisterAction::Finish(RegisterOutcome::EmptyFields));
        }
        if password.len() < MIN_PASSWORD_LENGTH {
            let f = RegisterFlow { email_enabled: service.email_enabled(), phase: RegisterPhase::Done, email: owned(email), checks_passed: false, email_free: false };
            return (f, RegisterAction::Finish(RegisterOutcome::WeakPassword));
        }
        let f = RegisterFlow { email_enabled: service.email_enabled(), phase: RegisterPhase::CheckingEmail, email: owned(email), checks_passed: true, email_free: false };
        (f, RegisterAction::CheckEmailExists)
    }

    /// Takes the answer to the last request and says what comes next.
    ///
    /// A taken address ends with `EmailTaken`.  With verification off a user
    /// and a session are created and the result is `LoggedIn`; with it on an
    /// unverified user is created and the verification link is mailed: the
    /// result is `VerificationSent`, or `VerificationEmailFailed` when the
    /// mail could not be sent.
    pub fn step(&mut self, event: RegisterEvent) -> (r: RegisterAction)
        ensures
            final(self).email_enabled() == old(self).email_enabled(),
            final(self).email() == old(self).email(),
            final(self).checks_passed() == old(self).checks_passed(),
            r == register_next(old(self).phase(), old(self).email_enabled(), old(self).email(), event),
            final(self).phase() == register_next_phase(old(self).phase(), old(self).email_enabled(), old(self).email(), event),
            // What every registration keeps: users are created, and success is
            // reported, only after the fields passed and the address was free;
            // a logged-in result only with verification off, a sent
            // verification only with it on.
            (r == RegisterAction::CreateUser || r == RegisterAction::CreateUnverifiedUser || r is CreateSession
                || r is SendVerificationEmail || r matches RegisterAction::Finish(RegisterOutcome::LoggedIn(_))
                || r matches RegisterAction::Finish(RegisterOutcome::VerificationSent(_)))
                ==> final(self).checks_passed() && final(self).email_free(),
            r matches RegisterAction::Finish(RegisterOutcome::LoggedIn(_)) ==> !final(self).email_enabled(),
            r matches RegisterAction::Finish(RegisterOutcome::VerificationSent(_)) ==> final(self).email_enabled(),
            // A taken address ends the registration with `EmailTaken`, with
            // verification on or off, and nothing else does.
            (r == RegisterAction::Finish(RegisterOutcome::EmailTaken))
                <==> (old(self).phase() == RegisterPhase::CheckingEmail && event == RegisterEvent::EmailExists(true)),
            // A failed verification mail is reported only for a user created
            // with a free address, with verification on, after the mail failed.
            r matches RegisterAction::Finish(RegisterOutcome::VerificationEmailFailed(_))
                ==> old(self).email_free() && old(self).email_enabled() && event == RegisterEvent::VerificationEmailSent(false),
    {
        proof {
            use_type_invariant(&*self);
        }
        match (self.phase, event) {
            (RegisterPhase::CheckingEmail, RegisterEvent::EmailExists(exists)) => {
                if exists {
                    self.phase = RegisterPhase::Done;
                    RegisterAction::Finish(RegisterOutcome::EmailTaken)
                } else {
                    self.email_free = true;
                    if !self.email_enabled {
                        self.phase = RegisterPhase::CreatingUser;
                        RegisterAction::CreateUser
                    } else {
                        self.phase = RegisterPhase::CreatingUnverifiedUser;
                        RegisterAction::CreateUnverifiedUser
                    }
                }
            },
            (RegisterPhase::CreatingUser, RegisterEvent::UserCreated(id)) => {
                self.phase = RegisterPhase::CreatingSession;
                RegisterAction::CreateSession(id)
            },
            (RegisterPhase::CreatingSession, RegisterEvent::SessionCreated(token)) => {
                self.phase = RegisterPhase::Done;
                RegisterAction::Finish(RegisterOutcome::LoggedIn(token))
            },
            (RegisterPhase::CreatingUnverifiedUser, RegisterEvent::UnverifiedUserCreated(token)) => {
                self.phase = RegisterPhase::SendingVerification;
                RegisterAction::SendVerificationEmail(token)
            },
            (RegisterPhase::SendingVerification, RegisterEvent::VerificationEmailSent(sent)) => {
                self.phase = RegisterPhase::Done;
                if sent {
                    RegisterAction::Finish(RegisterOutcome::VerificationSent(self.email.clone()))
                } else {
                    RegisterAction::Finish(RegisterOutcome::VerificationEmailFailed(self.email.clone()))
                }
            },
            _ => {
                self.phase = RegisterPhase::Done;
                RegisterAction::Fail(AuthError::OutOfOrder)
            },
        }
    }
}

/// What a registration in `phase` does on `event`.
pub open spec fn register_next(phase: RegisterPhase, email_enabled: bool, email: String, event: RegisterEvent) -> RegisterAction {
    match (phase, event) {
        (RegisterPhase::CheckingEmail, RegisterEvent::EmailExists(exists)) =>
            if exists { RegisterAction::Finish(RegisterOutcome::EmailTaken) }
            else if !email_enabled { RegisterAction::CreateUser }
            else { RegisterAction::CreateUnverifiedUser },
        (RegisterPhase::CreatingUser, RegisterEvent::UserCreated(id)) => RegisterAction::CreateSession(id),
        (RegisterPhase::CreatingSession, RegisterEvent::SessionCreated(token)) => RegisterAction::Finish(RegisterOutcome::LoggedIn(token)),
        (RegisterPhase::CreatingUnverifiedUser, RegisterEvent::UnverifiedUserCreated(token)) =>
            RegisterAction::SendVerificationEmail(token),
        (RegisterPhase::SendingVerification, RegisterEvent::VerificationEmailSent(sent)) =>
            if sent { RegisterAction::Finish(RegisterOutcome::VerificationSent(email)) }
            else { RegisterAction::Finish(RegisterOutcome::VerificationEmailFailed(email)) },
        _ => RegisterAction::Fail(AuthError::OutOfOrder),
    }
}

/// Where a registration in `phase` stands after `event`.
pub open spec fn register_next_phase(phase: RegisterPhase, email_enabled: bool, email: String, event: RegisterEvent) -> RegisterPhase {
    match register_next(phase, email_enabled, email, event) {
        RegisterAction::CreateUser => RegisterPhase::CreatingUser,
        RegisterAction::CreateSession(_) => RegisterPhase::CreatingSession,
        RegisterAction::CreateUnverifiedUser => RegisterPhase::CreatingUnverifiedUser,
        RegisterAction::SendVerificationEmail(_) => RegisterPhase::SendingVerification,
        _ => RegisterPhase::Done,
    }
}

/// Law of login outcomes: a login whose password check fails ends with
/// `InvalidCredentials` whether e-mail verification is on or off, and no
/// other answer ends it so; `EmailNotVerified` ends only a login whose
/// address check failed.
pub proof fn lemma_login_outcomes(phase: LoginPhase, email_enabled: bool, event: LoginEvent)
    ensures
        login_next(LoginPhase::CheckingPassword, email_enabled, LoginEvent::PasswordChecked(false))
            == LoginAction::Finish(LoginOutcome::InvalidCredentials),
        (login_next(phase, email_enabled, event) == LoginAction::Finish(LoginOutcome::InvalidCredentials))
            <==> (phase == LoginPhase::CheckingPassword && event == LoginEvent::PasswordChecked(false)),
        (login_next(phase, email_enabled, event) == LoginAction::Finish(LoginOutcome::EmailNotVerified))
            <==> (phase == LoginPhase::CheckingEmail && event == LoginEvent::EmailChecked(false)),
{
}

/// Law of registration outcomes: a registration told that the address
/// exists ends with `EmailTaken` whether e-mail verification is on or off,
/// and no other answer ends it so; `VerificationEmailFailed` ends only a
/// registration whose verification mail failed, and names its address.
pub proof fn lemma_register_outcomes(phase: RegisterPhase, email_enabled: bool, email: String, event: RegisterEvent)
    ensures
        register_next(RegisterPhase::CheckingEmail, email_enabled, email, RegisterEvent::EmailExists(true))
            == RegisterAction::Finish(RegisterOutcome::EmailTaken),
        (register_next(phase, email_enabled, email, event) == RegisterAction::Finish(RegisterOutcome::EmailTaken))
            <==> (phase == RegisterPhase::CheckingEmail && event == RegisterEvent::EmailExists(true)),
        (register_next(phase, email_enabled, email, event) is Finish
            && register_next(phase, email_enabled, email, event)->Finish_0 is VerificationEmailFailed)
            <==> (phase == RegisterPhase::SendingVerification && event == RegisterEvent::VerificationEmailSent(false)),
        register_next(phase, email_enabled, email, event) == RegisterAction::Finish(RegisterOutcome::VerificationEmailFailed(email))
            <==> (phase == RegisterPhase::SendingVerification && event == RegisterEvent::VerificationEmailSent(false)),
{
}

// ---------------------------------------------------------------------------
// Verification mail, password reset and change
// ---------------------------------------------------------------------------

/// What a resend of the verification mail does next.
#[derive(Debug, Clone, PartialEq, Eq)]
pub enum ResendAction {
    /// Mail the verification link for this token.
    SendVerificationEmail(String),
    /// Nothing more to do (no unverified user with that address).
    Finish,
}

/// After a new verification token was asked for: mail it when there is one.
pub fn resend_after_token(token: Option<String>) -> (r: ResendAction)
    ensures
        match token {
            Some(t) => r == ResendAction::SendVerificationEmail(t),
            None => r == ResendAction::Finish,
        },
{
    match token {
        Some(t) => ResendAction::SendVerificationEmail(t),
        None => ResendAction::Finish,
    }
}

/// After the verification mail was sent: a failed send fails the resend.
pub fn resend_after_send(sent: bool) -> (r: Result<(), AuthError>)
    ensures
        r == (if sent { Ok::<(), AuthError>(()) } else { Err::<(), AuthError>(AuthError::EmailSendFailed) }),
{
    if sent { Ok(()) } else { Err(AuthError::EmailSendFailed) }
}

/// What a forgotten-password request does next, or its answer.
#[derive(Debug, Clone, PartialEq, Eq)]
pub enum ForgotAction {
    /// Create a reset token for the address.
    CreateResetToken,
    /// Mail the reset link for this token.
    SendResetEmail(String),
    /// The answer: whether reset mail is configured.
    Finish(bool),
}

/// Starts a forgotten-password request: without mail it answers `false` at
/// once.
pub fn forgot_password_start(service: &AuthService) -> (r: ForgotAction)
    ensures
        r == (if service.spec_email_enabled() { ForgotAction::CreateResetToken } else { ForgotAction::Finish(false) }),
{
    if !service.email_enabled() {
        ForgotAction::Finish(false)
    } else {
        ForgotAction::CreateResetToken
    }
}

/// After a reset token was asked for: mail it when there is one (an unknown
/// or unverified address gets none), else answer `true`.
pub fn forgot_after_token(token: Option<String>) -> (r: ForgotAction)
    ensures
        match token {
            Some(t) => r == ForgotAction::SendResetEmail(t),
            None => r == ForgotAction::Finish(true),
        },
{
    match token {
        Some(t) => ForgotAction::SendResetEmail(t),
        None => ForgotAction::Finish(true),
    }
}

/// After the reset mail was sent: the answer is `true` whether or not the
/// mail went out, so that the answer does not tell whether the address exists.
pub fn forgot_after_send(sent: bool) -> (r: bool)
    ensures
        r,
{
    true
}

/// Whether a reset token is valid: the lookup found its address.
pub fn reset_token_valid(email: Option<String>) -> (r: bool)
    ensures
        r == email is Some,
{
    email.is_some()
}

/// The outcome of a password reset decided before the token is used: an
/// empty password, then a short one; `None` when the reset goes on.
pub open spec fn reset_precheck(new_password: &str) -> Option<ResetPasswordOutcome> {
    if new_password@.len() == 0 {
        Some(ResetPasswordOutcome::EmptyPassword)
    } else if !strong_password(new_password) {
        Some(ResetPasswordOutcome::WeakPassword)
    } else {
        None
    }
}

/// Checks a new password before a reset; see [`reset_precheck`].
pub fn reset_password_precheck(new_password: &str) -> (r: Option<ResetPasswordOutcome>)
    ensures
        r == reset_precheck(new_password),
{
    if new_password.is_empty() {
        Some(ResetPasswordOutcome::EmptyPassword)
    } else if new_password.len() < MIN_PASSWORD_LENGTH {
        Some(ResetPasswordOutcome::WeakPassword)
    } else {
        None
    }
}

/// The outcome of a reset once the token was used.
pub fn reset_password_outcome(reset_done: bool) -> (r: ResetPasswordOutcome)
    ensures
        r == (if reset_done { ResetPasswordOutcome::Success } else { ResetPasswordOutcome::InvalidToken }),
{
    if reset_done { ResetPasswordOutcome::Success } else { ResetPasswordOutcome::InvalidToken }
}

/// The outcome of a password change decided before the stored password is
/// checked: demo users may not change it, then empty fields, then a short
/// new password; `None` when the change goes on.
pub open spec fn change_precheck(is_demo: bool, current: &str, new_password: &str) -> Option<ChangePasswordOutcome> {
    if is_demo {
        Some(ChangePasswordOutcome::DemoUser)
    } else if current@.len() == 0 || new_password@.len() == 0 {
        Some(ChangePasswordOutcome::EmptyFields)
    } else if !strong_password(new_password) {
        Some(ChangePasswordOutcome::WeakPassword)
    } else {
        None
    }
}

/// Checks a password change request; see [`change_precheck`].
pub fn change_password_precheck(is_demo: bool, current: &str, new_password: &str) -> (r: Option<ChangePasswordOutcome>)
    ensures
        r == change_precheck(is_demo, current, new_password),
{
    if is_demo {
        Some(ChangePasswordOutcome::DemoUser)
    } else if current.is_empty() || new_password.is_empty() {
        Some(ChangePasswordOutcome::EmptyFields)
    } else if new_password.len() < MIN_PASSWORD_LENGTH {
        Some(ChangePasswordOutcome::WeakPassword)
    } else {
        None
    }
}

/// The outcome of a change once the stored password was checked.
pub fn change_password_outcome(changed: bool) -> (r: ChangePasswordOutcome)
    ensures
        r == (if changed { ChangePasswordOutcome::Success } else { ChangePasswordOutcome::IncorrectPassword }),
{
    if changed { ChangePasswordOutcome::Success } else { ChangePasswordOutcome::IncorrectPassword }
}

// ---------------------------------------------------------------------------
// Password hashing
// ---------------------------------------------------------------------------

/// Whether `password` matches the PHC hash string `hash` under Argon2
/// (`PasswordHash::new` then `Argon2::verify_password`); false when the
/// string does not parse.
pub uninterp spec fn argon2_verifies(password: Seq<char>, hash: Seq<char>) -> bool;

/// The longest password, in bytes, that Argon2 takes (`argon2::MAX_PWD_LEN`).
pub const MAX_PASSWORD_BYTES: u64 = 0xFFFF_FFFF;

/// `Argon2::default().hash_password` with a fresh random salt
/// (`SaltString::generate`), as a PHC string.  The salt is random, so
/// nothing fixes the string; stated is the round trip the crate documents:
/// the password verifies against it.  With the default parameters and a
/// generated salt, hashing fails only for a password longer than
/// `MAX_PASSWORD_BYTES` bytes; `None` then.
#[verifier::external_body]
fn argon2_hash(password: &str) -> (r: Option<String>)
    ensures
        match r {
            Some(h) => argon2_verifies(password@, h@),
            None => utf8_len(password@) > MAX_PASSWORD_BYTES,
        },
{
    let salt = SaltString::generate(&mut OsRng);
    match Argon2::default().hash_password(password.as_bytes(), &salt) {
        Ok(h) => Some(h.to_string()),
        Err(_) => None,
    }
}

/// `PasswordHash::new(hash)` then `Argon2::default().verify_password`:
/// whether the password matches the stored hash string.
#[verifier::external_body]
fn argon2_verify(password: &str, hash: &str) -> (r: bool)
    ensures
        r == argon2_verifies(password@, hash@),
{
    match PasswordHash::new(hash) {
        Ok(parsed) => Argon2::default().verify_password(password.as_bytes(), &parsed).is_ok(),
        Err(_) => false,
    }
}

/// Hashes a password for storage; only a password longer than Argon2
/// takes fails.
pub fn hash_password(password: &str) -> (r: Result<String, AuthError>)
    ensures
        match r {
            Ok(h) => argon2_verifies(password@, h@),
            Err(e) => e == AuthError::HashFailed && utf8_len(password@) > MAX_PASSWORD_BYTES,
        },
{
    match argon2_hash(password) {
        Some(h) => Ok(h),
        None => Err(AuthError::HashFailed),
    }
}

/// Whether a password matches a stored hash.
pub fn verify_password(password: &str, hash: &str) -> (r: bool)
    ensures
        r == argon2_verifies(password@, hash@),
{
    argon2_verify(password, hash)
}

/// The hash checked when an address has no user, so that an unknown address
/// takes as long to refuse as a wrong password.
pub open spec fn dummy_hash() -> Seq<char> {
    "$argon2id$v=19$m=19456,t=2,p=1$AAAAAAAAAAAAAAAAAAAAAA$AAAAAAAAAAAAAAAAAAAAAAAAAAAAAAAAAAAAAAAAAAA"@
}

/// Checks a login password against the stored hash of the address, or
/// against a fixed dummy hash when the address has no user.
pub fn verify_stored_password(stored_hash: Option<&str>, password: &str) -> (r: bool)
    ensures
        r == argon2_verifies(password@, match stored_hash { Some(h) => h@, None => dummy_hash() }),
{
    match stored_hash {
        Some(h) => argon2_verify(password, h),
        None => argon2_verify(password, "$argon2id$v=19$m=19456,t=2,p=1$AAAAAAAAAAAAAAAAAAAAAA$AAAAAAAAAAAAAAAAAAAAAAAAAAAAAAAAAAAAAAAAAAA"),
    }
}

/// The new hash to store for a password change: `None` when the user has no
/// stored hash or the current password does not match it.
pub fn password_change_hash(stored_hash: Option<&str>, current: &str, new_password: &str) -> (r: Result<Option<String>, AuthError>)
    ensures
        match stored_hash {
            None => r == Ok::<Option<String>, AuthError>(None),
            Some(h) => if !argon2_verifies(current@, h@) {
                r == Ok::<Option<String>, AuthError>(None)
            } else {
                match r {
                    Ok(Some(nh)) => argon2_verifies(new_password@, nh@),
                    Ok(None) => false,
                    Err(e) => e == AuthError::HashFailed && utf8_len(new_password@) > MAX_PASSWORD_BYTES,
                }
            },
        },
{
    match stored_hash {
        None => Ok(None),
        Some(h) => {
            if !argon2_verify(current, h) {
                return Ok(None);
            }
            match hash_password(new_password) {
                Ok(nh) => Ok(Some(nh)),
                Err(e) => Err(e),
            }
        },
    }
}

/// The password given to the account made for data owned by the old admin:
/// the old admin password, or `admin` when there was none.
pub fn migration_password(admin_password: Option<String>) -> (r: String)
    ensures
        r@ == match admin_password { Some(p) => p@, None => "admin"@ },
{
    match admin_password {
        Some(p) => p,
        None => owned("admin"),
    }
}

} // verus!
