use quizinart::auth::{
    change_password_outcome, change_password_precheck, forgot_after_send, forgot_after_token,
    forgot_password_start, hash_password, migration_password, password_change_hash,
    reset_password_outcome, reset_password_precheck, reset_token_valid, resend_after_send,
    resend_after_token, verify_password, verify_stored_password, AuthError, AuthService,
    ChangePasswordOutcome, ForgotAction, LoginAction, LoginEvent, LoginFlow, LoginOutcome,
    RegisterAction, RegisterEvent, RegisterFlow, RegisterOutcome, ResendAction,
    ResetPasswordOutcome,
};

fn dev_service() -> AuthService {
    AuthService::new(false, "http://localhost".to_string())
}

fn prod_service() -> AuthService {
    AuthService::new(true, "http://localhost".to_string())
}

// ----- login -----

#[test]
fn login_success_returns_session_token() {
    let (mut flow, first) = LoginFlow::start(false);
    assert_eq!(first, LoginAction::VerifyPassword);
    assert_eq!(flow.step(LoginEvent::PasswordChecked(true)), LoginAction::FindUser);
    assert_eq!(flow.step(LoginEvent::UserFound(Some(1))), LoginAction::CreateSession(1));
    let end = flow.step(LoginEvent::SessionCreated("session-token-123".to_string()));
    assert!(matches!(end, LoginAction::Finish(LoginOutcome::Success(ref t)) if t == "session-token-123"));
}

#[test]
fn login_wrong_password_returns_invalid_credentials() {
    let (mut flow, _) = LoginFlow::start(false);
    let end = flow.step(LoginEvent::PasswordChecked(false));
    assert_eq!(end, LoginAction::Finish(LoginOutcome::InvalidCredentials));
}

#[test]
fn login_unverified_email_returns_email_not_verified() {
    let (mut flow, _) = LoginFlow::start(true);
    assert_eq!(flow.step(LoginEvent::PasswordChecked(true)), LoginAction::CheckEmailVerified);
    let end = flow.step(LoginEvent::EmailChecked(false));
    assert_eq!(end, LoginAction::Finish(LoginOutcome::EmailNotVerified));
}

#[test]
fn login_verified_email_goes_on_to_the_session() {
    let (mut flow, _) = LoginFlow::start(true);
    flow.step(LoginEvent::PasswordChecked(true));
    assert_eq!(flow.step(LoginEvent::EmailChecked(true)), LoginAction::FindUser);
    assert_eq!(flow.step(LoginEvent::UserFound(Some(7))), LoginAction::CreateSession(7));
}

#[test]
fn login_missing_user_after_password_fails() {
    let (mut flow, _) = LoginFlow::start(false);
    flow.step(LoginEvent::PasswordChecked(true));
    assert_eq!(flow.step(LoginEvent::UserFound(None)), LoginAction::Fail(AuthError::UserNotFound));
}

#[test]
fn login_event_out_of_order_fails() {
    let (mut flow, _) = LoginFlow::start(false);
    let end = flow.step(LoginEvent::SessionCreated("early".to_string()));
    assert_eq!(end, LoginAction::Fail(AuthError::OutOfOrder));
}

// ----- registration -----

#[test]
fn register_empty_fields_returns_empty_fields() {
    let svc = dev_service();
    let (_, a) = RegisterFlow::start(&svc, "", "pass", "name");
    assert_eq!(a, RegisterAction::Finish(RegisterOutcome::EmptyFields));
    let (_, a) = RegisterFlow::start(&svc, "a@b.com", "", "name");
    assert_eq!(a, RegisterAction::Finish(RegisterOutcome::EmptyFields));
    let (_, a) = RegisterFlow::start(&svc, "a@b.com", "pass", "");
    assert_eq!(a, RegisterAction::Finish(RegisterOutcome::EmptyFields));
}

#[test]
fn register_short_password_returns_weak_password() {
    let svc = dev_service();
    let (_, a) = RegisterFlow::start(&svc, "a@b.com", "1234567", "name");
    assert_eq!(a, RegisterAction::Finish(RegisterOutcome::WeakPassword));
    let (_, a) = RegisterFlow::start(&svc, "a@b.com", "12345678", "name");
    assert_eq!(a, RegisterAction::CheckEmailExists);
}

#[test]
fn register_email_taken_returns_email_taken() {
    let svc = dev_service();
    let (mut flow, a) = RegisterFlow::start(&svc, "taken@example.com", "password123", "name");
    assert_eq!(a, RegisterAction::CheckEmailExists);
    let end = flow.step(RegisterEvent::EmailExists(true));
    assert_eq!(end, RegisterAction::Finish(RegisterOutcome::EmailTaken));
}

#[test]
fn register_dev_mode_returns_logged_in() {
    let svc = dev_service();
    let (mut flow, _) = RegisterFlow::start(&svc, "new@example.com", "password123", "Name");
    assert_eq!(flow.step(RegisterEvent::EmailExists(false)), RegisterAction::CreateUser);
    assert_eq!(flow.step(RegisterEvent::UserCreated(1)), RegisterAction::CreateSession(1));
    let end = flow.step(RegisterEvent::SessionCreated("session-abc".to_string()));
    assert!(matches!(end, RegisterAction::Finish(RegisterOutcome::LoggedIn(ref t)) if t == "session-abc"));
}

#[test]
fn register_prod_mode_returns_verification_sent() {
    let svc = prod_service();
    let (mut flow, _) = RegisterFlow::start(&svc, "new@example.com", "password123", "Name");
    assert_eq!(flow.step(RegisterEvent::EmailExists(false)), RegisterAction::CreateUnverifiedUser);
    let send = flow.step(RegisterEvent::UnverifiedUserCreated("token-xyz".to_string()));
    assert_eq!(send, RegisterAction::SendVerificationEmail("token-xyz".to_string()));
    assert_eq!(svc.verification_url("token-xyz"), "http://localhost/verify-email/token-xyz");
    let end = flow.step(RegisterEvent::VerificationEmailSent(true));
    assert!(matches!(end, RegisterAction::Finish(RegisterOutcome::VerificationSent(ref e)) if e == "new@example.com"));
}

#[test]
fn register_prod_mode_email_failure_returns_verification_email_failed() {
    let svc = prod_service();
    let (mut flow, _) = RegisterFlow::start(&svc, "new@example.com", "password123", "Name");
    flow.step(RegisterEvent::EmailExists(false));
    flow.step(RegisterEvent::UnverifiedUserCreated("token-xyz".to_string()));
    let end = flow.step(RegisterEvent::VerificationEmailSent(false));
    assert!(matches!(end, RegisterAction::Finish(RegisterOutcome::VerificationEmailFailed(ref e)) if e == "new@example.com"));
}

// ----- password change -----

#[test]
fn change_password_empty_fields_returns_empty_fields() {
    assert_eq!(change_password_precheck(false, "", "new"), Some(ChangePasswordOutcome::EmptyFields));
    assert_eq!(change_password_precheck(false, "old", ""), Some(ChangePasswordOutcome::EmptyFields));
}

#[test]
fn change_password_success() {
    assert_eq!(change_password_precheck(false, "oldpassword", "newpassword"), None);
    assert_eq!(change_password_outcome(true), ChangePasswordOutcome::Success);
}

#[test]
fn change_password_incorrect_returns_incorrect() {
    assert_eq!(change_password_precheck(false, "wrongpassword", "newpassword"), None);
    assert_eq!(change_password_outcome(false), ChangePasswordOutcome::IncorrectPassword);
}

#[test]
fn change_password_demo_user_returns_demo_user() {
    assert_eq!(change_password_precheck(true, "oldpassword", "newpassword"), Some(ChangePasswordOutcome::DemoUser));
    assert_eq!(change_password_precheck(true, "", ""), Some(ChangePasswordOutcome::DemoUser));
}

#[test]
fn change_password_short_new_password_is_weak() {
    assert_eq!(change_password_precheck(false, "oldpassword", "short"), Some(ChangePasswordOutcome::WeakPassword));
}

// ----- verification mail -----

#[test]
fn resend_verification_calls_regenerate_token() {
    assert_eq!(resend_after_token(None), ResendAction::Finish);
}

#[test]
fn resend_verification_sends_email_on_token() {
    assert_eq!(
        resend_after_token(Some("new-token".to_string())),
        ResendAction::SendVerificationEmail("new-token".to_string())
    );
    assert_eq!(resend_after_send(true), Ok(()));
}

#[test]
fn resend_verification_email_failure_returns_error() {
    assert_eq!(resend_after_send(false), Err(AuthError::EmailSendFailed));
}

// ----- forgotten password -----

#[test]
fn forgot_password_not_configured_returns_false() {
    assert_eq!(forgot_password_start(&dev_service()), ForgotAction::Finish(false));
}

#[test]
fn forgot_password_configured_returns_true() {
    assert_eq!(forgot_password_start(&prod_service()), ForgotAction::CreateResetToken);
    assert_eq!(forgot_after_token(None), ForgotAction::Finish(true));
}

#[test]
fn forgot_password_email_failure_still_returns_true() {
    assert_eq!(
        forgot_after_token(Some("reset-token".to_string())),
        ForgotAction::SendResetEmail("reset-token".to_string())
    );
    assert_eq!(prod_service().reset_url("reset-token"), "http://localhost/reset-password/reset-token");
    assert!(forgot_after_send(false));
    assert!(forgot_after_send(true));
}

// ----- password reset -----

#[test]
fn validate_reset_token_valid() {
    assert!(reset_token_valid(Some("user@example.com".to_string())));
}

#[test]
fn validate_reset_token_invalid() {
    assert!(!reset_token_valid(None));
}

#[test]
fn reset_password_empty_returns_empty_password() {
    assert_eq!(reset_password_precheck(""), Some(ResetPasswordOutcome::EmptyPassword));
}

#[test]
fn reset_password_success() {
    assert_eq!(reset_password_precheck("newpassword"), None);
    assert_eq!(reset_password_outcome(true), ResetPasswordOutcome::Success);
}

#[test]
fn reset_password_invalid_token() {
    assert_eq!(reset_password_outcome(false), ResetPasswordOutcome::InvalidToken);
}

#[test]
fn reset_password_short_is_weak() {
    assert_eq!(reset_password_precheck("1234567"), Some(ResetPasswordOutcome::WeakPassword));
}

// ----- hashing -----

#[test]
fn hashed_password_verifies_and_others_do_not() {
    let h = hash_password("correct horse").expect("hashing works");
    assert!(h.starts_with("$argon2"));
    assert_ne!(h, "correct horse");
    assert!(verify_password("correct horse", &h));
    assert!(!verify_password("wrong horse", &h));
    assert!(!verify_password("correct horse", "not a hash"));
}

#[test]
fn any_ordinary_password_hashes() {
    for p in ["", "a", "pässwörd ✓", "パスワード"] {
        let h = hash_password(p).expect("hashing works");
        assert!(verify_password(p, &h));
    }
}

#[test]
fn stored_password_check_uses_dummy_hash_for_unknown_user() {
    let h = hash_password("password123").expect("hashing works");
    assert!(verify_stored_password(Some(&h), "password123"));
    assert!(!verify_stored_password(Some(&h), "password124"));
    assert!(!verify_stored_password(None, "password123"));
}

#[test]
fn password_change_hash_requires_current_password() {
    let h = hash_password("oldpassword").expect("hashing works");
    assert_eq!(password_change_hash(Some(&h), "wrong", "newpassword"), Ok(None));
    assert_eq!(password_change_hash(None, "oldpassword", "newpassword"), Ok(None));
    let new_hash = password_change_hash(Some(&h), "oldpassword", "newpassword")
        .expect("hashing works")
        .expect("current password matches");
    assert!(verify_password("newpassword", &new_hash));
}

#[test]
fn migration_password_defaults_to_admin() {
    assert_eq!(migration_password(None), "admin");
    assert_eq!(migration_password(Some("secret".to_string())), "secret");
}
