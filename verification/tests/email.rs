use positron::email::{change_mails, confirm_code, finish_change_at, gen_code, ChangeInfo, EmailChangeError, EmailState};

fn template(which: &str, code: &str, link: &str) -> String {
    format!(
        r#"
  <!DOCTYPE html>
  <html lang="en">
    <head>
      <meta charset="UTF-8">
      <meta name="viewport" content="width=device-width, initial-scale=1.0">
      <title>Confirm Code</title>
    </head>
    <body>
      <div style="display: flex; flex-direction: column;">
        <header style="padding: 1rem; display: flex; flex-direction: column; align-items: center; justify-content: center;">
          <h2 style="margin: 0;">Confirm Code</h2>
          <p style="margin: 0;">Enter this code on the website to confirm that this is your {} email</p>
        </header>
        <div style="display: flex; align-items: center; justify-content: center;">
          <h3>{}</h3>
        </div>
        <footer style="display: flex; align-items: center; justify-content: center;">
          <p>Mail send from <a href="{}">{}</a></p>
        </footer>
      </div>
    </body>
  </html>
  "#,
        which, code, link, link
    )
}

#[test]
fn confirm_code_for_old_address() {
    let mail = confirm_code(&"123456".to_string(), true, &"https://positron.example".to_string());
    assert_eq!(mail, template("old", "123456", "https://positron.example"));
    assert!(mail.contains("this is your old email"));
}

#[test]
fn confirm_code_for_new_address() {
    let mail = confirm_code(&"000042".to_string(), false, &"https://p.example".to_string());
    assert_eq!(mail, template("new", "000042", "https://p.example"));
    assert!(mail.contains("<h3>000042</h3>"));
    assert!(mail.contains(r#"<a href="https://p.example">https://p.example</a>"#));
}

#[test]
fn new_address_mail_is_old_one_with_word_replaced() {
    // a code and a link that themselves hold the phrase do not move the
    // replacement: the word comes first
    for (code, link) in [("123456", "https://p.example"), ("your old email", "your old email")] {
        let (code, link) = (code.to_string(), link.to_string());
        let old = confirm_code(&code, true, &link);
        assert_eq!(confirm_code(&code, false, &link), old.replacen("your old email", "your new email", 1));
    }
}

fn is_code(c: &str) -> bool {
    c.chars().count() == 6 && c.chars().all(|ch| ch.is_ascii_digit())
}

#[test]
fn codes_are_six_digits() {
    for _ in 0..50 {
        assert!(is_code(&gen_code()));
    }
}

fn info(exp: i64) -> ChangeInfo {
    ChangeInfo {
        exp,
        old_code: "111111".into(),
        new_code: "222222".into(),
        new_email: "new@x.com".into(),
    }
}

#[test]
fn codes_are_checked_exactly_and_until_expiry() {
    let i = info(1_000);
    assert!(i.check_old_at(&"111111".to_string(), 1_000));
    assert!(!i.check_old_at(&"111111".to_string(), 1_001));
    assert!(!i.check_old_at(&"222222".to_string(), 0));
    assert!(i.check_new_at(&"222222".to_string(), 999));
    assert!(!i.check_new_at(&"111111".to_string(), 999));
}

#[test]
fn checks_by_the_clock() {
    let live = info(i64::MAX);
    assert!(live.check_old("111111".to_string()));
    assert!(live.check_new("222222".to_string()));
    assert!(!live.check_old("222222".to_string()));
    let expired = info(0);
    assert!(!expired.check_new("222222".to_string()));
}

#[test]
fn finishing_needs_a_pending_change() {
    assert_eq!(
        finish_change_at(None, &"1".to_string(), &"2".to_string(), 0),
        Err(EmailChangeError::NoPendingChange)
    );
}

#[test]
fn finishing_needs_both_codes() {
    let i = info(100);
    assert_eq!(
        finish_change_at(Some(&i), &"111111".to_string(), &"222222".to_string(), 50),
        Ok("new@x.com".to_string())
    );
    assert_eq!(
        finish_change_at(Some(&i), &"111111".to_string(), &"111111".to_string(), 50),
        Err(EmailChangeError::WrongCode)
    );
    assert_eq!(
        finish_change_at(Some(&i), &"222222".to_string(), &"222222".to_string(), 50),
        Err(EmailChangeError::WrongCode)
    );
    assert_eq!(
        finish_change_at(Some(&i), &"111111".to_string(), &"222222".to_string(), 101),
        Err(EmailChangeError::WrongCode)
    );
}

#[test]
fn gen_info_sets_expiry_from_now() {
    let state = EmailState::init(300);
    let now = 1_717_243_200_000_000i64;
    let i = state.gen_info_at("new@x.com".to_string(), now).unwrap();
    assert_eq!(i.exp, now + 300 * 1_000_000);
    assert_eq!(i.new_email, "new@x.com");
    assert!(is_code(&i.old_code));
    assert!(is_code(&i.new_code));
}

#[test]
fn gen_info_fails_when_expiry_is_out_of_range() {
    let state = EmailState::init(i64::MAX / 1000);
    assert!(state.gen_info_at("a@b.c".to_string(), 0).is_none());
}

#[test]
fn gen_info_by_the_clock_lies_ahead() {
    let state = EmailState::init(600);
    let before = chrono::Utc::now().timestamp_micros();
    let i = state.gen_info("a@b.c".to_string()).unwrap();
    assert!(i.exp >= before + 600 * 1_000_000);
}

#[test]
fn pending_change_is_stored_and_dropped_on_success() {
    let mut state = EmailState::init(300);
    state.start(7, info(100));
    assert!(state.change_req.contains_key(&7));
    // a wrong code keeps the pending change
    assert_eq!(
        state.finish(7, &"111111".to_string(), &"000000".to_string(), 50),
        Err(EmailChangeError::WrongCode)
    );
    assert!(state.change_req.contains_key(&7));
    // another user has nothing pending
    assert_eq!(
        state.finish(8, &"111111".to_string(), &"222222".to_string(), 50),
        Err(EmailChangeError::NoPendingChange)
    );
    assert_eq!(
        state.finish(7, &"111111".to_string(), &"222222".to_string(), 50),
        Ok("new@x.com".to_string())
    );
    assert!(!state.change_req.contains_key(&7));
}

#[test]
fn starting_again_replaces_the_pending_change() {
    let mut state = EmailState::init(300);
    state.start(7, info(100));
    let mut other = info(100);
    other.new_email = "other@x.com".into();
    state.start(7, other);
    assert_eq!(
        state.finish(7, &"111111".to_string(), &"222222".to_string(), 50),
        Ok("other@x.com".to_string())
    );
}

#[test]
fn change_mails_carry_the_two_codes() {
    let (old, new) = change_mails(&info(100), &"https://p.example".to_string());
    assert_eq!(old, template("old", "111111", "https://p.example"));
    assert_eq!(new, template("new", "222222", "https://p.example"));
}
