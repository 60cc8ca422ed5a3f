use quizinart::assets::{
    asset_path, build_asset_map, content_hash_tag, content_type_for, hashed_asset_path,
    resolve_static_path, AssetFile, CachePolicy,
};
use quizinart::email::{
    password_reset_email, verification_email, RetryState, ResendEmailSender, SendAction,
    FROM_ADDRESS,
};
use quizinart::extract::{
    guard_after_admin_check, guard_after_admin_create, guard_after_admin_user, guard_after_user_lookup, guard_start,
    GuardStep, IsHtmx, Locale,
};
use quizinart::auth::AuthUser;
use quizinart::error::AppError;
use quizinart::locale::{
    accept_language_entries, choose_locale, first_supported_locale, locale_to_store,
    match_supported_locale,
};
use quizinart::web::{
    clear_cookie, clear_cookie_string, cookie, cookie_string, csrf_allows, is_htmx_request,
    refreshed_session_cookie, secure_cookies, security_headers,
};

#[test]
fn cookie_texts() {
    assert_eq!(
        cookie_string("user_session", "abc", false),
        "user_session=abc; HttpOnly; Max-Age=86400; Path=/; SameSite=Lax"
    );
    assert_eq!(
        cookie_string("lang", "ja", true),
        "lang=ja; HttpOnly; Max-Age=86400; Path=/; SameSite=Lax; Secure"
    );
    assert_eq!(clear_cookie_string("quiz_session", false), "quiz_session=; HttpOnly; Max-Age=0; Path=/; SameSite=Strict");
    assert_eq!(
        clear_cookie_string("quiz_session", true),
        "quiz_session=; HttpOnly; Max-Age=0; Path=/; SameSite=Strict; Secure"
    );
    let h = cookie("user_session", "abc", true).expect("valid header");
    assert_eq!(h.to_str().expect("ascii"), "user_session=abc; HttpOnly; Max-Age=86400; Path=/; SameSite=Lax; Secure");
    assert!(cookie("user_session", "bad\nvalue", false).is_err());
    assert!(clear_cookie("x\u{7f}", false).is_err());
    let c = clear_cookie("quiz_session", false).expect("valid header");
    assert_eq!(c.to_str().expect("ascii"), "quiz_session=; HttpOnly; Max-Age=0; Path=/; SameSite=Strict");
    assert!(!c.is_sensitive());
}

#[test]
fn session_cookie_is_refreshed_after_success_only() {
    let h = refreshed_session_cookie(true, Some("tok"), false).expect("refreshed");
    assert_eq!(h.to_str().expect("ascii"), "user_session=tok; HttpOnly; Max-Age=86400; Path=/; SameSite=Lax");
    assert!(refreshed_session_cookie(false, Some("tok"), false).is_none());
    assert!(refreshed_session_cookie(true, None, false).is_none());
    assert!(refreshed_session_cookie(true, Some("t\u{1}k"), false).is_none());
}

#[test]
fn csrf_rules() {
    assert!(csrf_allows("GET", None, None, None));
    assert!(!csrf_allows("POST", None, None, None));
    assert!(csrf_allows("POST", Some("true"), None, None));
    assert!(!csrf_allows("DELETE", Some("false"), None, None));
    assert!(csrf_allows("PATCH", None, Some("https://quiz.example.com"), Some("quiz.example.com")));
    assert!(!csrf_allows("PUT", None, Some("https://evil.example"), Some("quiz.example.com")));
    assert!(!csrf_allows("PUT", None, Some("https://quiz.example.com"), None));
    assert!(csrf_allows("POST", None, Some("http://localhost:3000"), Some("localhost:3000")));
    assert!(!csrf_allows("POST", None, Some("https://evilexample.com"), Some("example.com")));
    assert!(!csrf_allows("POST", None, Some("example.com"), Some("example.com")));
    assert!(!csrf_allows("POST", None, Some("https://example.com.evil"), Some("example.com")));
    assert!(is_htmx_request(Some("true")));
    assert!(!is_htmx_request(Some("TRUE")));
    assert!(IsHtmx::from_header(Some("true")).0);
}

#[test]
fn secure_cookie_setting() {
    assert!(secure_cookies(true, "http://127.0.0.1:1414"));
    assert!(secure_cookies(false, "https://quizinart.onrender.com"));
    assert!(!secure_cookies(false, "http://127.0.0.1:1414"));
    let headers = security_headers();
    assert_eq!(headers.len(), 4);
    assert_eq!(headers[1], ("X-Frame-Options", "DENY"));
}

#[test]
fn supported_locales() {
    assert_eq!(match_supported_locale("ja"), Some("ja"));
    assert_eq!(match_supported_locale("ja-JP"), Some("ja"));
    assert_eq!(match_supported_locale("en-US"), Some("en"));
    assert_eq!(match_supported_locale("zh"), Some("zh-CN"));
    assert_eq!(match_supported_locale("zh-Hans-CN"), Some("zh-CN"));
    assert_eq!(match_supported_locale("zh-Hant-TW"), Some("zh-TW"));
    assert_eq!(match_supported_locale("zh-TW"), Some("zh-TW"));
    assert_eq!(match_supported_locale("zh-HK"), None);
    assert_eq!(match_supported_locale("fr"), None);
    assert_eq!(match_supported_locale("jap"), None);
    assert_eq!(locale_to_store("zh-CN"), "zh-CN");
    assert_eq!(locale_to_store("fr"), "en");
}

#[test]
fn accept_language_entries_and_choice() {
    let entries = accept_language_entries(" fr-CH ; q=0.9 , ja;q=0.8, en ,de; foo=1 ;q= 0.5 ");
    let view: Vec<(String, Option<String>)> = entries.into_iter().map(|e| (e.lang, e.quality)).collect();
    assert_eq!(
        view,
        vec![
            ("fr-CH".to_string(), Some("0.9".to_string())),
            ("ja".to_string(), Some("0.8".to_string())),
            ("en".to_string(), None),
            ("de".to_string(), Some("0.5".to_string())),
        ]
    );
    let ranked = vec!["fr-CH".to_string(), "ja".to_string(), "en".to_string()];
    assert_eq!(first_supported_locale(&ranked), Some("ja"));
    assert_eq!(choose_locale(Some("zh-TW"), Some(&ranked)), "zh-TW");
    assert_eq!(choose_locale(Some("xx"), Some(&ranked)), "ja");
    assert_eq!(choose_locale(None, None), "en");
    assert_eq!(Locale::from_parts(None, Some(&["de".to_string()])).0, "en");
}

#[test]
fn email_messages() {
    let m = verification_email("a@b.c", "http://x/verify-email/T");
    assert_eq!(m.from, FROM_ADDRESS);
    assert_eq!(m.to, vec!["a@b.c".to_string()]);
    assert_eq!(m.subject, "Verify your Quizinart account");
    assert!(m.html.contains("<a href=\"http://x/verify-email/T\">http://x/verify-email/T</a>"));
    assert!(m.html.ends_with("This link expires in 24 hours.</p>"));
    let r = password_reset_email("a@b.c", "http://x/reset-password/R");
    assert_eq!(r.subject, "Reset your Quizinart password");
    assert!(r.html.starts_with("<h2>Password Reset</h2>"));
    assert!(ResendEmailSender::new("key".to_string()).is_enabled());
    assert!(!ResendEmailSender::new(String::new()).is_enabled());
}

#[test]
fn email_retry_policy() {
    let (mut st, first) = RetryState::start();
    assert_eq!(first, SendAction::Send);
    assert_eq!(st.after_attempt(false), SendAction::WaitThenSend(1));
    assert_eq!(st.after_attempt(false), SendAction::WaitThenSend(2));
    assert_eq!(st.after_attempt(false), SendAction::GiveUp);
    assert_eq!(st.after_attempt(false), SendAction::GiveUp);
    let (mut late, _) = RetryState::start();
    assert_eq!(late.after_attempt(false), SendAction::WaitThenSend(1));
    assert_eq!(late.after_attempt(true), SendAction::Delivered);
    let (mut ok, _) = RetryState::start();
    assert_eq!(ok.after_attempt(true), SendAction::Delivered);
}

fn user(id: i32) -> AuthUser {
    AuthUser { id, email: "admin@local".to_string(), display_name: "Admin".to_string(), is_admin: true, is_demo: false }
}

#[test]
fn auth_guard_steps() {
    assert!(matches!(guard_start(Some("s1"), Some("a1")), GuardStep::LookUpUserSession(ref v) if v == "s1"));
    assert!(matches!(guard_start(None, Some("a1")), GuardStep::CheckAdminSession(ref v) if v == "a1"));
    assert!(matches!(guard_start(None, None), GuardStep::Reject(AppError::Unauthorized)));
    assert!(matches!(guard_after_user_lookup(Some(user(3)), None), GuardStep::Accept(ref u) if u.id == 3));
    assert!(matches!(guard_after_user_lookup(None, Some("a")), GuardStep::CheckAdminSession(_)));
    assert!(matches!(guard_after_user_lookup(None, None), GuardStep::Reject(AppError::Unauthorized)));
    assert!(matches!(guard_after_admin_check(true), GuardStep::LookUpAdminUser));
    assert!(matches!(guard_after_admin_check(false), GuardStep::Reject(_)));
    assert!(matches!(guard_after_admin_user(Some(user(1))), GuardStep::Accept(_)));
    assert!(matches!(guard_after_admin_user(None), GuardStep::CreateAdminUser));
    assert!(matches!(guard_after_admin_create(Some(user(2))), GuardStep::Accept(ref u) if u.id == 2));
    assert!(matches!(guard_after_admin_create(None), GuardStep::Reject(AppError::Unauthorized)));
}

#[test]
fn hashed_asset_names() {
    assert_eq!(hashed_asset_path(None, "index.css", "1a2b3c4d"), "index.1a2b3c4d.css");
    assert_eq!(hashed_asset_path(Some("htmx"), "htmx.min.js", "abcd0123"), "htmx/htmx.min.abcd0123.js");
    assert_eq!(hashed_asset_path(Some(""), "LICENSE", "00000000"), "LICENSE.00000000");
    assert_eq!(hashed_asset_path(None, ".hidden", "ffffffff"), ".hidden.ffffffff");
    // SHA-256 of the empty input starts with e3b0c442.
    assert_eq!(content_hash_tag(b""), "e3b0c442");
    // SHA-256 of "abc" starts with ba7816bf.
    assert_eq!(content_hash_tag(b"abc"), "ba7816bf");
    assert_eq!(content_type_for("a.css"), "text/css");
    assert_eq!(content_type_for("a.b.svg"), "image/svg+xml");
    assert_eq!(content_type_for("app.js"), "text/javascript");
    assert_eq!(content_type_for("font.woff2"), "application/octet-stream");
    assert_eq!(content_type_for("js"), "application/octet-stream");
}

#[test]
fn asset_map_round_trip() {
    let files = vec![
        AssetFile { path: "index.css".to_string(), parent: None, file_name: "index.css".to_string(), contents: b"abc".to_vec() },
        AssetFile {
            path: "htmx/htmx.min.js".to_string(),
            parent: Some("htmx".to_string()),
            file_name: "htmx.min.js".to_string(),
            contents: Vec::new(),
        },
    ];
    let map = build_asset_map(&files);
    assert_eq!(asset_path(&map, "index.css"), "/static/index.ba7816bf.css");
    assert_eq!(asset_path(&map, "htmx/htmx.min.js"), "/static/htmx/htmx.min.e3b0c442.js");
    assert_eq!(asset_path(&map, "missing.png"), "/static/missing.png");
    assert_eq!(resolve_static_path(&map, "index.ba7816bf.css"), ("index.css".to_string(), CachePolicy::Immutable));
    assert_eq!(resolve_static_path(&map, "index.css"), ("index.css".to_string(), CachePolicy::Short));
    assert_eq!(CachePolicy::Immutable.header_value(), "max-age=31536000, immutable");
    assert_eq!(CachePolicy::Short.header_value(), "max-age=3600, must-revalidate");
}
