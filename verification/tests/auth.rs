use crossword_web::auth::{
    cancel_confirm_body, change_password_errors, classify_password_error, confirm_error,
    credentials_rejected, delete_ready, display_name_input, email_checkable, email_error,
    form_encode, in_request_mode, is_token_error, login_password_error, name_error, proc_missing,
    reset_password_check, reset_request_email, signup_password_error, trpc_err_msg,
    username_checkable, username_error, PasswordChangeError, ProfilePanel, SignupForm,
    email_hint, login_invalid, reset_reply, reset_view, signup_outcome, unique_from, username_hint,
    ResetReply, ResetView, SignIn, SignInAction, classify_lowered, err_msg_from, reset_email_from,
    token_dead, url_rejected, notice_for, quota_text, role_label, verified_label, Notice,
};
use crossword_web::query::query_value;

fn form(name: &str, username: &str, email: &str, password: &str, confirm: &str) -> SignupForm {
    SignupForm {
        name: name.to_string(),
        username: username.to_string(),
        email: email.to_string(),
        password: password.to_string(),
        confirm: confirm.to_string(),
        username_unique: true,
        email_unique: true,
        checking_username: false,
        checking_email: false,
    }
}

#[test]
fn credentials_body_is_form_encoded() {
    assert_eq!(
        form_encode(&[("email", "a+b@x.io"), ("password", "p a&s=s~"), ("csrfToken", "t_1.-")]),
        "email=a%2Bb%40x.io&password=p+a%26s%3Ds~&csrfToken=t_1.-"
    );
    assert_eq!(form_encode(&[("k", "é")]), "k=%C3%A9");
    assert_eq!(form_encode(&[]), "");
}

#[test]
fn field_errors_name_each_problem() {
    assert_eq!(email_error(""), "Email address is required.");
    assert_eq!(email_error("nobody"), "Please enter a valid email address.");
    assert_eq!(email_error("a@b.c"), "");
    assert_eq!(login_password_error(""), "Password is required.");
    assert_eq!(login_password_error("x"), "");
    assert_eq!(name_error("   "), "Full Name is required.");
    assert_eq!(name_error(" A "), "Full Name must be at least 2 characters.");
    assert_eq!(name_error("é"), "");
    assert_eq!(username_error(""), "Username is required.");
    assert_eq!(username_error("ab"), "Username must be at least 3 characters.");
    assert_eq!(username_error("abc"), "");
    assert!(username_checkable(" abc "));
    assert!(!username_checkable(" ab "));
    assert!(email_checkable("a@b.c"));
    assert!(!email_checkable("a@b"));
    assert_eq!(signup_password_error(""), "Password is required.");
    assert_eq!(signup_password_error("1234567"), "Password must be at least 8 characters.");
    assert_eq!(signup_password_error("12345678"), "");
    assert_eq!(confirm_error("", "12345678"), "Please re-enter your password.");
    assert_eq!(confirm_error("1234567x", "12345678"), "Passwords do not match.");
    assert_eq!(confirm_error("12345678", "12345678"), "");
}

#[test]
fn signup_form_is_invalid_until_every_field_passes() {
    let ok = form("Ann Lee", "annlee", "ann@x.io", "12345678", "12345678");
    let e = ok.errors();
    assert_eq!((e.name, e.username, e.email, e.password, e.confirm), ("", "", "", "", ""));
    assert!(!ok.is_invalid());
    let mut taken = form("Ann Lee", "annlee", "ann@x.io", "12345678", "12345678");
    taken.username_unique = false;
    assert!(taken.is_invalid());
    let mut checking = form("Ann Lee", "annlee", "ann@x.io", "12345678", "12345678");
    checking.checking_email = true;
    assert!(checking.is_invalid());
    let bad = form("A", "annlee", "ann@x.io", "12345678", "1234567");
    assert_eq!(bad.errors().name, "Full Name must be at least 2 characters.");
    assert_eq!(bad.errors().confirm, "Passwords do not match.");
    assert!(bad.is_invalid());
}

#[test]
fn server_errors_read_as_their_message() {
    assert_eq!(trpc_err_msg(r#"{"message":"Not allowed","code":-32600}"#.to_string()), "Not allowed");
    assert_eq!(trpc_err_msg("plain failure".to_string()), "plain failure");
    assert_eq!(trpc_err_msg(r#"{"message":7}"#.to_string()), r#"{"message":7}"#);
    assert_eq!(trpc_err_msg("[1,2]".to_string()), "[1,2]");
    assert!(credentials_rejected(r#"{"url":"https://x.io/login?error=CredentialsSignin"}"#));
    assert!(!credentials_rejected(r#"{"url":"https://x.io/"}"#));
    assert!(!credentials_rejected("not json"));
    assert!(proc_missing("TRPC: procedure not implemented: user.x"));
    assert!(!proc_missing("boom"));
}

#[test]
fn reset_flow_checks() {
    assert!(is_token_error("Token EXPIRED"));
    assert!(is_token_error("invalid token"));
    assert!(is_token_error("Token already used"));
    assert!(!is_token_error("invalid password"));
    assert_eq!(reset_request_email("  Ann@X.io "), Ok("ann@x.io".to_string()));
    assert_eq!(reset_request_email("ann"), Err("Enter the email you signed up with."));
    assert_eq!(reset_password_check("short", "short"), Err("Password must be at least 8 characters."));
    assert_eq!(reset_password_check("12345678", "12345679"), Err("Passwords don't match."));
    assert_eq!(reset_password_check("12345678", "12345678"), Ok(()));
    assert!(in_request_mode(false, false));
    assert!(in_request_mode(true, true));
    assert!(!in_request_mode(true, false));
}

#[test]
fn profile_forms() {
    assert_eq!(change_password_errors("short", "short"), ("New password must be at least 8 characters.", ""));
    assert_eq!(change_password_errors("12345678", "x"), ("", "Passwords don't match."));
    assert_eq!(classify_password_error("procedure not implemented".to_string()), PasswordChangeError::Unavailable);
    assert_eq!(
        classify_password_error("Account has No Password.".to_string()),
        PasswordChangeError::NoPassword(
            "Account has No Password. Use “Forgot password” on the sign-in page to set one via an email reset instead.".to_string()
        )
    );
    assert_eq!(classify_password_error("nope".to_string()), PasswordChangeError::Other("nope".to_string()));
    assert_eq!(display_name_input("  Olive "), Ok("Olive".to_string()));
    assert_eq!(display_name_input("   "), Err("Display name can't be empty."));
    assert!(delete_ready(" ANN@x.io ", "ann@X.IO"));
    assert!(!delete_ready("ann@x.i", "ann@x.io"));
    assert_eq!(
        cancel_confirm_body(Some("June 1, 2025")),
        "Your Pro access stays active until June 1, 2025, then you'll move to the Free plan. No further charges."
    );
    assert!(cancel_confirm_body(None).contains("end of the current billing period"));
    assert_eq!(ProfilePanel::Danger.title(), "Danger Zone");
}

#[test]
fn query_values_come_from_the_first_matching_piece() {
    assert_eq!(query_value("?f=active&q=nasa", "q"), Some("nasa".to_string()));
    assert_eq!(query_value("??q=&q=moon", "q"), Some("moon".to_string()));
    assert_eq!(query_value("?f=active", "q"), None);
    assert_eq!(query_value("", "f"), None);
    assert_eq!(query_value("?qq=1&q=2", "q"), Some("2".to_string()));
    assert_eq!(query_value("?q=a=b", "q"), Some("a=b".to_string()));
}

#[test]
fn sign_in_flow_posts_credentials_then_finishes_or_reports() {
    assert!(login_invalid("", "pw"));
    assert!(login_invalid("a@b.c", ""));
    assert!(!login_invalid("a@b.c", "pw"));
    let (mut s, a) = SignIn::start(false);
    assert_eq!(a, SignInAction::FetchCsrf);
    assert!(s.loading);
    match s.on_csrf(Ok("tok".to_string()), "a@b.c", "p w") {
        SignInAction::Post { url, body } => {
            assert_eq!(url, "/api/auth/callback/credentials");
            assert_eq!(body, "csrfToken=tok&email=a%40b.c&password=p+w&callbackUrl=%2F&json=true");
        }
        other => panic!("unexpected {other:?}"),
    }
    assert_eq!(s.on_reply(Ok(r#"{"url":"/?error=CredentialsSignin"}"#.to_string())), SignInAction::Stop);
    assert_eq!(s.error, "Invalid email or password.");
    assert!(!s.loading);

    let (mut s, _) = SignIn::start(false);
    assert_eq!(s.on_reply(Ok(r#"{"url":"/"}"#.to_string())), SignInAction::Finish);
    assert!(s.loading);

    let (mut s, _) = SignIn::start(true);
    match s.on_csrf(Ok("t".to_string()), "ignored@x.io", "ignored") {
        SignInAction::Post { url, body } => {
            assert_eq!(url, "/api/auth/callback/local-dev");
            assert_eq!(body, "csrfToken=t&email=&callbackUrl=%2F&json=true");
        }
        other => panic!("unexpected {other:?}"),
    }
    s.on_reply(Ok(r#"{"url":"x?error=1"}"#.to_string()));
    assert_eq!(s.error, "Dev bypass unavailable (production build?).");

    let (mut s, _) = SignIn::start(false);
    assert_eq!(s.on_csrf(Err("offline".to_string()), "a@b.c", "pw"), SignInAction::Stop);
    assert_eq!(s.error, "Failed to fetch CSRF token: offline");
    let (mut s, _) = SignIn::start(false);
    assert_eq!(s.on_reply(Err("503".to_string())), SignInAction::Stop);
    assert_eq!(s.error, "503");
}

#[test]
fn signup_hints_and_outcomes() {
    let mut f = form("Ann Lee", "an", "ann@x", "12345678", "12345678");
    assert_eq!(username_hint(&f, false), None);
    assert_eq!(username_hint(&f, true), Some(("error auth-hint", "Username must be at least 3 characters.")));
    assert_eq!(email_hint(&f, true), Some(("error auth-hint", "Please enter a valid email address.")));
    f.username = "annlee".to_string();
    f.email = "ann@x.io".to_string();
    f.checking_username = true;
    assert_eq!(username_hint(&f, true), Some(("muted auth-hint", "Checking availability...")));
    f.checking_username = false;
    f.username_unique = false;
    assert_eq!(username_hint(&f, true), Some(("error auth-hint", "Username is already taken.")));
    f.username_unique = true;
    assert_eq!(username_hint(&f, true), Some(("success auth-hint", "Username is available!")));
    f.email_unique = false;
    assert_eq!(email_hint(&f, true), Some(("error auth-hint", "Email is already registered.")));
    f.email_unique = true;
    assert_eq!(email_hint(&f, true), Some(("success auth-hint", "Email is available!")));
    assert!(unique_from(Ok(None)));
    assert!(!unique_from(Ok(Some(false))));
    assert!(unique_from(Err("down".to_string())));
    assert_eq!(signup_outcome(Ok((Some(true), None))), Ok(()));
    assert_eq!(signup_outcome(Ok((Some(false), Some("Email taken".to_string())))), Err("Email taken".to_string()));
    assert_eq!(signup_outcome(Ok((None, Some(String::new())))), Err("Something went wrong — please try again.".to_string()));
    assert_eq!(signup_outcome(Err("boom".to_string())), Err("boom".to_string()));
}

#[test]
fn reset_page_views_and_replies() {
    assert_eq!(reset_view(false, false, false, false), ResetView::RequestLink);
    assert_eq!(reset_view(true, false, false, false), ResetView::NewPassword);
    assert_eq!(reset_view(true, false, false, true), ResetView::Expired);
    assert_eq!(reset_view(true, true, false, true), ResetView::RequestLink);
    assert_eq!(
        reset_view(true, false, true, false),
        ResetView::Done("Password updated. Sign in with your new password.")
    );
    assert_eq!(
        reset_view(false, false, true, false),
        ResetView::Done("If that address has an account, a reset link is on its way. It expires in 1 hour.")
    );
    assert_eq!(reset_reply(Ok(()), true), ResetReply::Done);
    assert_eq!(reset_reply(Err("Token expired".to_string()), true), ResetReply::Expired);
    assert_eq!(reset_reply(Err("Token expired".to_string()), false), ResetReply::Failed("Token expired".to_string()));
    assert_eq!(reset_reply(Err("server down".to_string()), true), ResetReply::Failed("server down".to_string()));
}

#[test]
fn decisions_after_parsing_and_lowercasing() {
    assert_eq!(err_msg_from("raw".to_string(), Some("Nice".to_string())), "Nice");
    assert_eq!(err_msg_from("raw".to_string(), None), "raw");
    assert!(url_rejected(Some("/login?error=x".to_string())));
    assert!(!url_rejected(Some("/".to_string())));
    assert!(!url_rejected(None));
    assert!(token_dead("token was used"));
    assert!(!token_dead("Token Expired"));
    assert!(!token_dead("bad token"));
    assert_eq!(reset_email_from("a@b".to_string()), Ok("a@b".to_string()));
    assert_eq!(reset_email_from("ab".to_string()), Err("Enter the email you signed up with."));
    assert_eq!(classify_lowered("X".to_string(), "no password set"), PasswordChangeError::NoPassword(
        "X Use “Forgot password” on the sign-in page to set one via an email reset instead.".to_string()
    ));
    assert_eq!(classify_lowered("No Password".to_string(), "x"), PasswordChangeError::Other("No Password".to_string()));
}

#[test]
fn profile_toasts_and_labels() {
    let done = "Verification email sent.";
    let soon = "Resending verification emails isn't available yet.";
    assert_eq!(notice_for(Ok(()), done, soon), Notice::Success(done));
    assert_eq!(
        notice_for(Err(r#"{"message":"procedure not implemented: user.resendVerification"}"#.to_string()), done, soon),
        Notice::Warning(soon)
    );
    assert_eq!(notice_for(Err("Use the billing portal".to_string()), done, soon), Notice::Error("Use the billing portal".to_string()));
    assert_eq!(role_label(true), "Admin");
    assert_eq!(role_label(false), "Player");
    assert_eq!(verified_label(false), "Unverified");
    assert_eq!(quota_text(12), "12 / ∞");
}
