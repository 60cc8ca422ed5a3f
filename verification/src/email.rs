//! Account e-mails: what is sent, and how often sending is tried.
//!
//! Mail goes out through the Resend API.  A failed request is tried again
//! after a pause of one second that doubles each time, at most three
//! attempts in all: so the pauses are 1 s and 2 s.
use vstd::prelude::*;
use vstd::string::*;

verus! {

/// How many attempts one e-mail gets in all.
pub const MAX_RETRIES: u32 = 3;

/// The endpoint of the Resend API.
pub const RESEND_API_URL: &'static str = "https://api.resend.com/emails";

/// The sender of every e-mail.
pub const FROM_ADDRESS: &'static str = "Quizinart <noreply@quizinart.numachang.com>";

/// Sends e-mail with a Resend API key; an empty key turns e-mail off.
#[derive(Clone)]
pub struct ResendEmailSender {
    api_key: String,
}

impl ResendEmailSender {
    /// The key the sender was made with.
    pub closed spec fn key(&self) -> Seq<char> {
        self.api_key@
    }

    pub fn new(api_key: String) -> (r: Self)
        ensures
            r.key() == api_key@,
    {
        Self { api_key }
    }

    /// Whether e-mail is configured: the key is not empty.
    pub fn is_enabled(&self) -> (r: bool)
        ensures
            r == (self.key().len() > 0),
    {
        !self.api_key.as_str().is_empty()
    }

    /// The API key, for the `Authorization` header of a request.
    pub fn api_key(&self) -> (r: &str)
        ensures
            r@ == self.key(),
    {
        self.api_key.as_str()
    }
}

/// One e-mail as the Resend API takes it.
pub struct EmailMessage {
    pub from: String,
    pub to: Vec<String>,
    pub subject: String,
    pub html: String,
}

/// The body of the verification e-mail for a link.
pub open spec fn verification_html(url: Seq<char>) -> Seq<char> {
    "<h2>Welcome to Quizinart!</h2>\n<p>Click the link below to verify your email address:</p>\n<p><a href=\""@
        + url + "\">"@ + url + "</a></p>\n<p>This link expires in 24 hours.</p>"@
}

/// The body of the password-reset e-mail for a link.
pub open spec fn password_reset_html(url: Seq<char>) -> Seq<char> {
    "<h2>Password Reset</h2>\n<p>Click the link below to reset your password:</p>\n<p><a href=\""@
        + url + "\">"@ + url
        + "</a></p>\n<p>This link expires in 1 hour.</p>\n<p>If you did not request this, you can safely ignore this email.</p>"@
}

/// Whether a message goes from the site's address to `to` alone, with the
/// given subject and body.
pub open spec fn is_message(m: EmailMessage, to: Seq<char>, subject: Seq<char>, html: Seq<char>) -> bool {
    &&& m.from@ == FROM_ADDRESS@
    &&& m.to@.len() == 1
    &&& m.to@[0]@ == to
    &&& m.subject@ == subject
    &&& m.html@ == html
}

/// A message from the site to one address.
fn message(to: &str, subject: &str, html: String) -> (r: EmailMessage)
    ensures
        is_message(r, to@, subject@, html@),
{
    let mut recipients: Vec<String> = Vec::new();
    recipients.push(String::from_str(to));
    EmailMessage { from: String::from_str(FROM_ADDRESS), to: recipients, subject: String::from_str(subject), html }
}

/// `<a href="{url}">{url}</a>` between a head and a tail.
fn link_body(head: &str, url: &str, tail: &str) -> (r: String)
    ensures
        r@ == head@ + url@ + "\">"@ + url@ + tail@,
{
    let mut h = String::from_str(head);
    h.append(url);
    h.append("\">");
    h.append(url);
    h.append(tail);
    h
}

/// The e-mail that asks a new user to confirm the address.
pub fn verification_email(to_email: &str, verification_url: &str) -> (r: EmailMessage)
    ensures
        is_message(r, to_email@, "Verify your Quizinart account"@, verification_html(verification_url@)),
{
    let html = link_body(
        "<h2>Welcome to Quizinart!</h2>\n<p>Click the link below to verify your email address:</p>\n<p><a href=\"",
        verification_url,
        "</a></p>\n<p>This link expires in 24 hours.</p>",
    );
    message(to_email, "Verify your Quizinart account", html)
}

/// The e-mail that carries a password-reset link.
pub fn password_reset_email(to_email: &str, reset_url: &str) -> (r: EmailMessage)
    ensures
        is_message(r, to_email@, "Reset your Quizinart password"@, password_reset_html(reset_url@)),
{
    let html = link_body(
        "<h2>Password Reset</h2>\n<p>Click the link below to reset your password:</p>\n<p><a href=\"",
        reset_url,
        "</a></p>\n<p>This link expires in 1 hour.</p>\n<p>If you did not request this, you can safely ignore this email.</p>",
    );
    message(to_email, "Reset your Quizinart password", html)
}

/// `2^n`.
pub open spec fn pow2(n: nat) -> nat
    decreases n,
{
    if n == 0 { 1 } else { 2 * pow2((n - 1) as nat) }
}

/// `2^n` as a machine integer.
fn pow2_u64(n: u32) -> (r: u64)
    requires
        n < 64,
    ensures
        r == pow2(n as nat),
{
    let mut r: u64 = 1;
    let mut i: u32 = 0;
    while i < n
        invariant
            i <= n < 64,
            r == pow2(i as nat),
        decreases n - i,
    {
        proof {
            lemma_pow2_bound(i as nat);
        }
        r = r * 2;
        i = i + 1;
    }
    r
}

/// `2^n` grows with `n`, and `2^62` is `0x4000_0000_0000_0000`.
proof fn lemma_pow2_bound(n: nat)
    requires
        n < 63,
    ensures
        pow2(n) <= 0x4000_0000_0000_0000,
{
    lemma_pow2_monotone(n, 62);
    reveal_with_fuel(pow2, 63);
}

/// `2^n <= 2^m` for `n <= m`.
proof fn lemma_pow2_monotone(n: nat, m: nat)
    requires
        n <= m,
    ensures
        pow2(n) <= pow2(m),
    decreases m - n,
{
    if n < m {
        lemma_pow2_monotone(n + 1, m);
    }
}

/// What the sender does next.
#[derive(Debug, Clone, Copy, PartialEq, Eq)]
pub enum SendAction {
    /// Make one request now.
    Send,
    /// Wait this many seconds, then make one request.
    WaitThenSend(u64),
    /// The e-mail went out.
    Delivered,
    /// Every attempt failed; the last error is the result.
    GiveUp,
}

/// Where the sending of one e-mail stands: the number of attempts made.
pub struct RetryState {
    attempts: u32,
}

impl RetryState {
    /// The attempts made so far.
    pub closed spec fn made(&self) -> nat {
        self.attempts as nat
    }

    #[verifier::type_invariant]
    spec fn wf(&self) -> bool {
        1 <= self.attempts <= MAX_RETRIES
    }

    /// The first attempt is made at once.
    pub fn start() -> (r: (RetryState, SendAction))
        ensures
            r.0.made() == 1,
            r.1 == SendAction::Send,
    {
        (RetryState { attempts: 1 }, SendAction::Send)
    }

    /// After an attempt: a success ends the sending; a failure is followed by
    /// another attempt after `2^(n-1)` seconds, `n` the attempts made, until
    /// `MAX_RETRIES` attempts are spent; the failure of the last one gives up.
    pub fn after_attempt(&mut self, delivered: bool) -> (r: SendAction)
        ensures
            delivered ==> r == SendAction::Delivered && final(self).made() == old(self).made(),
            !delivered && old(self).made() < MAX_RETRIES ==> r == SendAction::WaitThenSend(pow2((old(self).made() - 1) as nat) as u64)
                && final(self).made() == old(self).made() + 1,
            !delivered && old(self).made() >= MAX_RETRIES ==> r == SendAction::GiveUp && final(self).made() == old(self).made(),
            final(self).made() <= MAX_RETRIES,
    {
        proof {
            use_type_invariant(&*self);
        }
        if delivered {
            return SendAction::Delivered;
        }
        if self.attempts < MAX_RETRIES {
            let delay: u64 = pow2_u64(self.attempts - 1);
            self.attempts = self.attempts + 1;
            SendAction::WaitThenSend(delay)
        } else {
            SendAction::GiveUp
        }
    }
}

} // verus!
