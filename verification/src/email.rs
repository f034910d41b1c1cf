//! Changing the e-mail address of an account: the confirmation mail, the
//! codes sent to the old and the new address, and their check.
use crate::clock::{add_seconds, now_micros, representable, spec_add_seconds};
use rand::Rng;
use std::collections::HashMap;
use vstd::prelude::*;

verus! {

/// The confirmation mail up to the word that names the address (old or new).
pub const CONFIRM_OPENING: &'static str = r#"
  <!DOCTYPE html>
  <html lang="en">
    <head>
      <meta charset="UTF-8">
      <meta name="viewport" content="width=device-width, initial-scale=1.0">
      <title>Confirm Code</title>
    </head>
    <body>
      <div style="display: flex; flex-direction: column;">
        <header style="padding: 1rem; display: flex; flex-direction: column; align-items: center; justify-content: center;">
          <h2 style="margin: 0;">Confirm Code</h2>
          <p style="margin: 0;">Enter this code on the website to confirm that this is your "#;

/// The confirmation mail between that word and the code.
pub const CONFIRM_AFTER_WHICH: &'static str = r#" email</p>
        </header>
        <div style="display: flex; align-items: center; justify-content: center;">
          <h3>"#;

/// The confirmation mail between the code and the site link.
pub const CONFIRM_AFTER_CODE: &'static str = r#"</h3>
        </div>
        <footer style="display: flex; align-items: center; justify-content: center;">
          <p>Mail send from <a href=""#;

/// The confirmation mail between the link target and its text.
pub const CONFIRM_AFTER_LINK: &'static str = r#"">"#;

/// The confirmation mail after the link text.
pub const CONFIRM_CLOSING: &'static str = r#"</a></p>
        </footer>
      </div>
    </body>
  </html>
  "#;

/// The confirmation mail: it asks to enter `code` on the site to confirm
/// that the address is the account's old (or new) one, and links the site.
pub open spec fn spec_confirm_code(code: Seq<char>, old: bool, link: Seq<char>) -> Seq<char> {
    CONFIRM_OPENING@ + (if old {
        "old"@
    } else {
        "new"@
    }) + CONFIRM_AFTER_WHICH@ + code + CONFIRM_AFTER_CODE@ + link + CONFIRM_AFTER_LINK@ + link
        + CONFIRM_CLOSING@
}

/// The confirmation mail after the word that names the address.
pub open spec fn confirm_tail(code: Seq<char>, link: Seq<char>) -> Seq<char> {
    CONFIRM_AFTER_WHICH@ + code + CONFIRM_AFTER_CODE@ + link + CONFIRM_AFTER_LINK@ + link
        + CONFIRM_CLOSING@
}

/// The mails to the old and the new address differ only in the word that
/// names the address, which stands before the code and the link.
pub proof fn lemma_confirm_mails_differ_in_word_only(code: Seq<char>, link: Seq<char>)
    ensures
        spec_confirm_code(code, true, link) == CONFIRM_OPENING@ + "old"@ + confirm_tail(code, link),
        spec_confirm_code(code, false, link) == CONFIRM_OPENING@ + "new"@ + confirm_tail(code, link),
{
    broadcast use vstd::seq_lib::group_seq_properties;

    assert(spec_confirm_code(code, true, link) =~= CONFIRM_OPENING@ + "old"@ + confirm_tail(code, link));
    assert(spec_confirm_code(code, false, link) =~= CONFIRM_OPENING@ + "new"@ + confirm_tail(code, link));
}

/// Whether `pat` occurs in `s` at position `i`.
pub open spec fn occurs_at(s: Seq<char>, pat: Seq<char>, i: int) -> bool {
    0 <= i && i + pat.len() <= s.len() && s.subrange(i, i + pat.len()) == pat
}

/// `s` with the first occurrence of `from` replaced by `to` (what
/// `str::replacen` gives with a count of one); `s` itself where `from` does
/// not occur.
pub open spec fn replace_first(s: Seq<char>, from: Seq<char>, to: Seq<char>) -> Seq<char> {
    if exists|i: int| occurs_at(s, from, i) {
        let i = choose|i: int|
            occurs_at(s, from, i) && forall|j: int| 0 <= j < i ==> !occurs_at(s, from, j);
        s.take(i) + to + s.skip(i + from.len())
    } else {
        s
    }
}

/// The opening of the mail ends with `your `, and before that no `y` is
/// followed by an `o`.
proof fn lemma_opening_text()
    ensures
        CONFIRM_OPENING@.len() >= 5,
        CONFIRM_OPENING@.skip(CONFIRM_OPENING@.len() - 5) == "your "@,
        forall|j: int|
            0 <= j < CONFIRM_OPENING@.len() - 5 ==> !(#[trigger] CONFIRM_OPENING@[j] == 'y'
                && CONFIRM_OPENING@[j + 1] == 'o'),
        CONFIRM_AFTER_WHICH@.len() >= 6,
        CONFIRM_AFTER_WHICH@.take(6) == " email"@,
{
    reveal_strlit(r#"
  <!DOCTYPE html>
  <html lang="en">
    <head>
      <meta charset="UTF-8">
      <meta name="viewport" content="width=device-width, initial-scale=1.0">
      <title>Confirm Code</title>
    </head>
    <body>
      <div style="display: flex; flex-direction: column;">
        <header style="padding: 1rem; display: flex; flex-direction: column; align-items: center; justify-content: center;">
          <h2 style="margin: 0;">Confirm Code</h2>
          <p style="margin: 0;">Enter this code on the website to confirm that this is your "#);
    reveal_strlit(r#" email</p>
        </header>
        <div style="display: flex; align-items: center; justify-content: center;">
          <h3>"#);
    reveal_strlit("your ");
    reveal_strlit(" email");
    let o = CONFIRM_OPENING@;
    assert(o.skip(o.len() - 5) =~= "your "@);
    assert(CONFIRM_AFTER_WHICH@.take(6) =~= " email"@);
}

/// The mail to the new address is the mail to the old one with its first
/// `your old email` replaced by `your new email`.
pub proof fn lemma_new_mail_replaces_word(code: Seq<char>, link: Seq<char>)
    ensures
        spec_confirm_code(code, false, link) == replace_first(
            spec_confirm_code(code, true, link),
            "your old email"@,
            "your new email"@,
        ),
{
    lemma_opening_text();
    reveal_strlit("your old email");
    reveal_strlit("your new email");
    reveal_strlit("old");
    reveal_strlit("new");
    reveal_strlit("your ");
    reveal_strlit(" email");
    let o = CONFIRM_OPENING@;
    let tail = confirm_tail(code, link);
    let s = o + "old"@ + tail;
    let from = "your old email"@;
    let to = "your new email"@;
    let p = o.len() - 5;
    assert(s =~= spec_confirm_code(code, true, link));
    assert(spec_confirm_code(code, false, link) =~= o + "new"@ + tail);
    assert(tail.take(6) == " email"@) by {
        assert(tail.take(6) =~= CONFIRM_AFTER_WHICH@.take(6));
    }
    assert(s.subrange(p, p + 14) =~= from) by {
        assert forall|k: int| 0 <= k < 14 implies s.subrange(p, p + 14)[k] == from[k] by {
            if k < 5 {
                assert(s[p + k] == o.skip(p)[k]);
            } else if k < 8 {
                assert(s[p + k] == "old"@[k - 5]);
            } else {
                assert(s[p + k] == tail.take(6)[k - 8]);
            }
        }
    }
    assert(occurs_at(s, from, p));
    assert forall|j: int| 0 <= j < p implies !occurs_at(s, from, j) by {
        if occurs_at(s, from, j) {
            assert(s.subrange(j, j + 14)[0] == from[0]);
            assert(s.subrange(j, j + 14)[1] == from[1]);
            assert(s[j] == o[j]);
            assert(s[j + 1] == o[j + 1]);
        }
    }
    let i = choose|i: int|
        occurs_at(s, from, i) && forall|j: int| 0 <= j < i ==> !occurs_at(s, from, j);
    if i < p {
        assert(!occurs_at(s, from, i));
    } else if i > p {
        assert(!occurs_at(s, from, p));
    }
    assert(i == p);
    assert(s.take(p) + to + s.skip(p + 14) =~= o + "new"@ + tail) by {
        assert(s.take(p) =~= o.take(p));
        assert(s.skip(p + 14) =~= tail.skip(6));
        assert(o =~= o.take(p) + "your "@) by {
            assert(o.skip(p) == "your "@);
            assert forall|k: int| p <= k < o.len() implies o[k] == o.skip(p)[k - p] by {}
        }
        assert(tail =~= " email"@ + tail.skip(6)) by {
            assert forall|k: int| 0 <= k < 6 implies tail[k] == tail.take(6)[k] by {}
        }
        assert(to =~= "your "@ + "new"@ + " email"@);
    }
}

/// The HTML body of the mail that carries a confirmation code.
pub fn confirm_code(code: &String, old: bool, link: &String) -> (mail: String)
    ensures
        mail@ == spec_confirm_code(code@, old, link@),
{
    let which = if old {
        "old"
    } else {
        "new"
    };
    String::from_str(CONFIRM_OPENING).concat(which).concat(CONFIRM_AFTER_WHICH).concat(
        code.as_str(),
    ).concat(CONFIRM_AFTER_CODE).concat(link.as_str()).concat(CONFIRM_AFTER_LINK).concat(
        link.as_str(),
    ).concat(CONFIRM_CLOSING)
}

/// A number of the half-open range `low..high`, drawn with `rand::rng()`
/// from `rand::distr::Uniform::new(low, high)`, which yields values of that
/// range and fails only on an empty range (excluded here).
#[verifier::external_body]
fn random_in_range(low: u8, high: u8) -> (d: u8)
    requires
        low < high,
    ensures
        low <= d < high,
{
    rand::rng().sample(rand::distr::Uniform::new(low, high).unwrap())
}

/// The text made of `chars` in order, built with `String::from_iter`.
#[verifier::external_body]
pub(crate) fn text_from_chars(chars: Vec<char>) -> (t: String)
    ensures
        t@ == chars@,
{
    String::from_iter(chars)
}

/// Whether `code` is a confirmation code: six decimal digits.
pub open spec fn is_code(code: Seq<char>) -> bool {
    code.len() == 6 && forall|i: int| 0 <= i < 6 ==> '0' <= #[trigger] code[i] <= '9'
}

/// A fresh random confirmation code of six decimal digits.
pub fn gen_code() -> (code: String)
    ensures
        is_code(code@),
{
    let mut chars: Vec<char> = Vec::new();
    let mut i: usize = 0;
    while i < 6
        invariant
            i <= 6,
            chars@.len() == i,
            forall|j: int| 0 <= j < i ==> '0' <= #[trigger] chars@[j] <= '9',
        decreases 6 - i,
    {
        let d = random_in_range(48, 58);
        chars.push(d as char);
        i += 1;
    }
    text_from_chars(chars)
}

/// A pending change of address: the codes sent to the old and the new
/// address, the new address, and until when (microseconds since the epoch)
/// the codes are accepted.
pub struct ChangeInfo {
    pub exp: i64,
    pub old_code: String,
    pub new_code: String,
    pub new_email: String,
}

impl ChangeInfo {
    /// A code is accepted up to and including the expiry instant, and only
    /// when it is exactly the code sent.
    pub open spec fn accepts(self, code: Seq<char>, sent: Seq<char>, now: i64) -> bool {
        self.exp >= now && code == sent
    }

    /// Whether `code` is the code sent to the old address, at time `now`.
    pub fn check_old_at(&self, code: &String, now: i64) -> (ok: bool)
        ensures
            ok == self.accepts(code@, self.old_code@, now),
    {
        self.exp >= now && *code == self.old_code
    }

    /// Whether `code` is the code sent to the new address, at time `now`.
    pub fn check_new_at(&self, code: &String, now: i64) -> (ok: bool)
        ensures
            ok == self.accepts(code@, self.new_code@, now),
    {
        self.exp >= now && *code == self.new_code
    }

    /// Whether `code` is the code sent to the old address and has not
    /// expired by the clock: the check at the instant the clock reads, which
    /// is some point in time `chrono` can represent. A code other than the
    /// one sent is refused whatever the time.
    pub fn check_old(&self, code: String) -> (ok: bool)
        ensures
            exists|now: i64|
                #![trigger self.accepts(code@, self.old_code@, now)]
                representable(now as int) && ok == self.accepts(code@, self.old_code@, now),
            ok ==> code@ == self.old_code@,
            code@ != self.old_code@ ==> !ok,
    {
        let now = now_micros();
        let ok = self.check_old_at(&code, now);
        assert(representable(now as int) && ok == self.accepts(code@, self.old_code@, now));
        ok
    }

    /// Whether `code` is the code sent to the new address and has not
    /// expired by the clock: the check at the instant the clock reads, which
    /// is some point in time `chrono` can represent. A code other than the
    /// one sent is refused whatever the time.
    pub fn check_new(&self, code: String) -> (ok: bool)
        ensures
            exists|now: i64|
                #![trigger self.accepts(code@, self.new_code@, now)]
                representable(now as int) && ok == self.accepts(code@, self.new_code@, now),
            ok ==> code@ == self.new_code@,
            code@ != self.new_code@ ==> !ok,
    {
        let now = now_micros();
        let ok = self.check_new_at(&code, now);
        assert(representable(now as int) && ok == self.accepts(code@, self.new_code@, now));
        ok
    }
}

/// Why finishing a change of address was refused.
#[derive(Debug, Clone, Copy, PartialEq, Eq, Structural)]
pub enum EmailChangeError {
    /// No change was started for the account.
    NoPendingChange,
    /// One of the two codes is wrong or has expired.
    WrongCode,
}

/// The outcome of finishing a change of address at time `now`: without a
/// pending change it is refused; otherwise both codes must be accepted,
/// and the result is the new address.
pub open spec fn spec_finish_change(
    pending: Option<ChangeInfo>,
    old_code: Seq<char>,
    new_code: Seq<char>,
    now: i64,
) -> Result<Seq<char>, EmailChangeError> {
    match pending {
        None => Err(EmailChangeError::NoPendingChange),
        Some(info) => if info.accepts(old_code, info.old_code@, now) && info.accepts(
            new_code,
            info.new_code@,
            now,
        ) {
            Ok(info.new_email@)
        } else {
            Err(EmailChangeError::WrongCode)
        },
    }
}

/// The pending change of `user` in `changes`, if any.
pub open spec fn pending_change(changes: Map<u128, ChangeInfo>, user: u128) -> Option<ChangeInfo> {
    if changes.contains_key(user) {
        Some(changes[user])
    } else {
        None
    }
}

/// Finishing a change of address at time `now`: both codes must be
/// accepted; the result is the new address.
pub fn finish_change_at(pending: Option<&ChangeInfo>, old_code: &String, new_code: &String, now: i64) -> (r:
    Result<String, EmailChangeError>)
    ensures
        match pending {
            None => r == Err::<String, EmailChangeError>(EmailChangeError::NoPendingChange),
            Some(info) => if info.accepts(old_code@, info.old_code@, now) && info.accepts(
                new_code@,
                info.new_code@,
                now,
            ) {
                r matches Ok(email) && email@ == info.new_email@
            } else {
                r == Err::<String, EmailChangeError>(EmailChangeError::WrongCode)
            },
        },
{
    match pending {
        None => Err(EmailChangeError::NoPendingChange),
        Some(info) => {
            if !info.check_old_at(old_code, now) || !info.check_new_at(new_code, now) {
                Err(EmailChangeError::WrongCode)
            } else {
                Ok(info.new_email.clone())
            }
        },
    }
}

/// The pending changes of address, one per user, and how long (in
/// seconds) their codes stay valid.
pub struct EmailState {
    pub change_req: HashMap<u128, ChangeInfo>,
    pub exp: i64,
}

/// The two confirmation mails of a change: the one to the old address
/// carries the old code, the one to the new address the new code; both
/// link `site_link`.
pub fn change_mails(info: &ChangeInfo, site_link: &String) -> (mails: (String, String))
    ensures
        mails.0@ == spec_confirm_code(info.old_code@, true, site_link@),
        mails.1@ == spec_confirm_code(info.new_code@, false, site_link@),
{
    (confirm_code(&info.old_code, true, site_link), confirm_code(&info.new_code, false, site_link))
}

impl EmailState {
    /// No pending changes; codes valid for `exp` seconds.
    pub fn init(exp: i64) -> (s: Self)
        ensures
            s.change_req@ == Map::<u128, ChangeInfo>::empty(),
            s.exp == exp,
    {
        EmailState { change_req: HashMap::new(), exp }
    }

    /// Records `info` as the pending change of `user`, replacing an earlier
    /// one.
    pub fn start(&mut self, user: u128, info: ChangeInfo)
        ensures
            final(self).change_req@ == old(self).change_req@.insert(user, info),
            final(self).exp == old(self).exp,
    {
        broadcast use vstd::std_specs::hash::group_hash_axioms;

        self.change_req.insert(user, info);
    }

    /// Finishes the pending change of `user` at time `now` with the two
    /// codes: the outcome is that of `finish_change_at`, and the pending
    /// change is dropped exactly when the change succeeded.
    pub fn finish(&mut self, user: u128, old_code: &String, new_code: &String, now: i64) -> (r: Result<
        String,
        EmailChangeError,
    >)
        ensures
            match r {
                Ok(email) => spec_finish_change(
                    pending_change(old(self).change_req@, user),
                    old_code@,
                    new_code@,
                    now,
                ) == Ok::<Seq<char>, EmailChangeError>(email@),
                Err(e) => spec_finish_change(
                    pending_change(old(self).change_req@, user),
                    old_code@,
                    new_code@,
                    now,
                ) == Err::<Seq<char>, EmailChangeError>(e),
            },
            final(self).change_req@ == (if r is Ok {
                old(self).change_req@.remove(user)
            } else {
                old(self).change_req@
            }),
            final(self).exp == old(self).exp,
    {
        broadcast use vstd::std_specs::hash::group_hash_axioms;

        let r = finish_change_at(self.change_req.get(&user), old_code, new_code, now);
        if r.is_ok() {
            self.change_req.remove(&user);
        }
        r
    }

    /// Starts a change of address at time `now`: two fresh codes and the
    /// expiry `exp` seconds later; `None` when that instant cannot be
    /// represented.
    pub fn gen_info_at(&self, new_email: String, now: i64) -> (r: Option<ChangeInfo>)
        requires
            -(i64::MAX / 1000) <= self.exp <= i64::MAX / 1000,
        ensures
            match r {
                Some(info) => {
                    &&& spec_add_seconds(now, self.exp) == Some(info.exp)
                    &&& info.new_email@ == new_email@
                    &&& is_code(info.old_code@)
                    &&& is_code(info.new_code@)
                },
                None => spec_add_seconds(now, self.exp) is None,
            },
            r matches Some(info) ==> info.exp == now + self.exp * 1_000_000 && representable(
                info.exp as int,
            ),
            representable(now as int) && representable(now + self.exp * 1_000_000) ==> r is Some,
    {
        let old_code = gen_code();
        let new_code = gen_code();
        match add_seconds(now, self.exp) {
            Some(exp) => Some(ChangeInfo { exp, old_code, new_code, new_email }),
            None => None,
        }
    }

    /// Starts a change of address now, by the clock: at the instant the
    /// clock reads (some point in time `chrono` can represent), the codes
    /// expire `exp` seconds later; there is no result exactly when that
    /// expiry cannot be represented.
    pub fn gen_info(&self, new_email: String) -> (r: Option<ChangeInfo>)
        requires
            -(i64::MAX / 1000) <= self.exp <= i64::MAX / 1000,
        ensures
            exists|now: i64|
                #![trigger representable(now as int)]
                representable(now as int) && (r is Some <==> representable(
                    now + self.exp * 1_000_000,
                )) && (r matches Some(info) ==> info.exp == now + self.exp * 1_000_000),
            r matches Some(info) ==> info.new_email@ == new_email@ && is_code(info.old_code@)
                && is_code(info.new_code@),
    {
        let now = now_micros();
        let r = self.gen_info_at(new_email, now);
        assert(representable(now as int) && (r is Some <==> representable(
            now + self.exp * 1_000_000,
        )) && (r matches Some(info) ==> info.exp == now + self.exp * 1_000_000));
        r
    }
}

/// Up to its expiry a pending change is finished by the two codes that were
/// sent, and after its expiry by no codes at all.
pub proof fn lemma_codes_valid_until_expiry(info: ChangeInfo, old_code: Seq<char>, new_code: Seq<char>, now: i64)
    ensures
        now <= info.exp ==> info.accepts(info.old_code@, info.old_code@, now) && info.accepts(
            info.new_code@,
            info.new_code@,
            now,
        ),
        now > info.exp ==> !info.accepts(old_code, info.old_code@, now) && !info.accepts(
            new_code,
            info.new_code@,
            now,
        ),
{
}

} // verus!
