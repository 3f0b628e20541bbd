//! OTP Verification Engine: issue, rate-limit, verify, expire, lock.
//!
//! A code lives 300 seconds; a fresh request within 60 seconds of issuance
//! is rate-limited; five failed confirmations lock the phone until expiry
//! or a fresh issuance; a successful confirmation is single-use and mints a
//! 24-hour (86400 s) session token.

use vstd::prelude::*;
use crate::crypto::argon_matches;
use crate::crypto::fresh_id;
use crate::crypto::hash_code;
use crate::crypto::random_code;
use crate::crypto::verify_code;
use crate::models::User;
use crate::models::VerificationCode;
use crate::phone::normalize_phone;
use crate::phone::normalize_spec;
use crate::state::AppState;
use crate::token::jwt_claims_of;
use crate::token::jwt_token_of;
use crate::token::mint_token;

verus! {

/// Outcome of a code request.
pub enum RequestOutcome {
    /// A code was issued and its hash stored; the code itself is handed
    /// back for the transport (SMS) layer to deliver.
    Issued { code: Vec<u8> },
    /// The phone number failed normalization.
    InvalidPhone,
    /// A code for this phone was issued less than 60 seconds ago.
    RateLimited,
    /// The hashing library failed; nothing was stored.
    Fault,
}

/// Outcome of a code confirmation.
pub enum ConfirmOutcome {
    /// The code matched: the verification record is gone, a user row
    /// exists for the phone, and a fresh device id and session token are
    /// handed back.
    Confirmed { user_id: u128, device_id: u128, auth_token: Vec<u8> },
    /// The phone number failed normalization.
    InvalidPhone,
    /// No pending code for this phone, or it has expired.
    NotFoundOrExpired,
    /// Five failed attempts: locked until expiry or a fresh issuance.
    Locked,
    /// The code did not match; the attempt counter was incremented.
    BadCode,
}

/// The decimal digits of a six-digit code value.
pub open spec fn code_digits_spec(n: u32) -> Seq<u8> {
    seq![
        (n / 100000 % 10 + 48) as u8,
        (n / 10000 % 10 + 48) as u8,
        (n / 1000 % 10 + 48) as u8,
        (n / 100 % 10 + 48) as u8,
        (n / 10 % 10 + 48) as u8,
        (n % 10 + 48) as u8,
    ]
}

/// Six ASCII digits with a nonzero leading digit.
pub open spec fn valid_code_digits(code: Seq<u8>) -> bool {
    &&& code.len() == 6
    &&& forall|k: int| 0 <= k < 6 ==> 48 <= #[trigger] code[k] <= 57
    &&& code[0] != 48
}

/// An unexpired code for `p` was issued less than 60 seconds before `now`
/// (expiry is issuance + 300, so this is `now + 240 < expires_at`).
pub open spec fn rate_limit_hit(s: AppState, p: Seq<u8>, now: u64) -> bool {
    s.has_code(p) && now + 240 < s.code_at(p).expires_at
}

/// Every table but the verification codes is untouched.
pub open spec fn rest_unchanged(a: AppState, b: AppState) -> bool {
    &&& a.users@ == b.users@
    &&& a.devices@ == b.devices@
    &&& a.prekeys@ == b.prekeys@
    &&& a.next_prekey_id == b.next_prekey_id
    &&& a.jwt_secret@ == b.jwt_secret@
}

/// Codes of every phone other than `p` are exactly as they were.
pub open spec fn codes_unchanged_except(a: AppState, b: AppState, p: Seq<u8>) -> bool {
    forall|q: Seq<u8>|
        q != p ==> #[trigger] b.has_code(q) == a.has_code(q) && (a.has_code(q) ==> b.code_at(q)
            == a.code_at(q))
}

/// The store transition of a successful issuance for `p`: the new record
/// overwrites any prior one, expires at `now + 300`, starts with a zero
/// attempt counter, and stores an Argon2 hash of the issued code (never the
/// code itself: the PHC string begins with `$`).
pub open spec fn issued_step(pre: AppState, post: AppState, p: Seq<u8>, code: Seq<u8>, now: u64) -> bool {
    &&& post.has_code(p)
    &&& post.code_at(p).phone_number@ == p
    &&& post.code_at(p).expires_at == now + 300
    &&& post.code_at(p).attempt_count == 0
    &&& argon_matches(code, post.code_at(p).code_hash@)
    &&& post.code_at(p).code_hash@.len() > 0
    &&& post.code_at(p).code_hash@[0] == '$'
    &&& codes_unchanged_except(pre, post, p)
    &&& rest_unchanged(pre, post)
}

/// A pending, unexpired code for `p` exists at `now`.
pub open spec fn confirm_applicable(s: AppState, p: Seq<u8>, now: u64) -> bool {
    s.has_code(p) && now <= s.code_at(p).expires_at
}

/// The phone is locked: a pending, unexpired code has absorbed five failed
/// attempts. This does not depend on the code a caller presents.
pub open spec fn confirm_locked(s: AppState, p: Seq<u8>, now: u64) -> bool {
    confirm_applicable(s, p, now) && s.code_at(p).attempt_count >= 5
}

/// The store transition of a failed confirmation: the attempt counter of
/// the record for `p` grows by one and everything else stands.
pub open spec fn bad_code_step(pre: AppState, post: AppState, p: Seq<u8>) -> bool {
    &&& post.has_code(p)
    &&& post.code_at(p).phone_number@ == p
    &&& post.code_at(p).code_hash@ == pre.code_at(p).code_hash@
    &&& post.code_at(p).expires_at == pre.code_at(p).expires_at
    &&& post.code_at(p).attempt_count == pre.code_at(p).attempt_count + 1
    &&& codes_unchanged_except(pre, post, p)
    &&& rest_unchanged(pre, post)
}

/// The placeholder name a user row is created with.
pub open spec fn default_name() -> Seq<u8> {
    seq![78u8, 101u8, 119u8, 32u8, 117u8, 115u8, 101u8, 114u8]
}

/// The store transition of a successful confirmation for `p`: the
/// verification record is deleted (single use), and a user keyed by `p`
/// exists afterwards — the one that already did, or a fresh row whose id is
/// the returned `u`.
pub open spec fn confirmed_step(pre: AppState, post: AppState, p: Seq<u8>, u: u128, now: u64) -> bool {
    &&& !post.has_code(p)
    &&& codes_unchanged_except(pre, post, p)
    &&& if pre.has_user(p) {
        post.users@ == pre.users@ && u == pre.user_at(p).id
    } else {
        &&& post.users@.len() == pre.users@.len() + 1
        &&& post.users@.drop_last() == pre.users@
        &&& post.users@.last().id == u
        &&& post.users@.last().phone_number@ == p
        &&& post.users@.last().name@ == default_name()
        &&& post.users@.last().created_at == now
    }
    &&& post.has_user(p)
    &&& post.user_at(p).id == u
    &&& post.devices@ == pre.devices@
    &&& post.prekeys@ == pre.prekeys@
    &&& post.next_prekey_id == pre.next_prekey_id
    &&& post.jwt_secret@ == pre.jwt_secret@
}

/// Builds the six decimal digits of a code value.
fn code_digits(n: u32) -> (r: Vec<u8>)
    requires
        100000 <= n <= 999999,
    ensures
        r@ == code_digits_spec(n),
        valid_code_digits(r@),
{
    let mut v: Vec<u8> = Vec::new();
    v.push((n / 100000 % 10) as u8 + 48);
    v.push((n / 10000 % 10) as u8 + 48);
    v.push((n / 1000 % 10) as u8 + 48);
    v.push((n / 100 % 10) as u8 + 48);
    v.push((n / 10 % 10) as u8 + 48);
    v.push((n % 10) as u8 + 48);
    proof {
        assert(v@ =~= code_digits_spec(n));
        assert(n / 100000 >= 1);
        assert(n / 100000 <= 9);
        assert(n / 100000 % 10 == n / 100000);
    }
    v
}

impl AppState {
    /// `RequestCode`: normalizes the phone, applies the 60-second rate
    /// limit, and on success stores a salted Argon2 hash of a fresh random
    /// six-digit code with expiry `now + 300` and a reset attempt counter,
    /// overwriting any prior record for the phone.
    pub fn register_phone(&mut self, phone: &[u8], now: u64) -> (r: RequestOutcome)
        requires
            old(self).wf(),
            now + 300 <= u64::MAX,
        ensures
            final(self).wf(),
            match r {
                RequestOutcome::InvalidPhone => normalize_spec(phone@) is None && *final(self)
                    == *old(self),
                RequestOutcome::RateLimited => {
                    &&& normalize_spec(phone@) matches Some(p)
                    &&& rate_limit_hit(*old(self), p, now)
                    &&& *final(self) == *old(self)
                },
                RequestOutcome::Fault => {
                    &&& normalize_spec(phone@) matches Some(p)
                    &&& !rate_limit_hit(*old(self), p, now)
                    &&& *final(self) == *old(self)
                },
                RequestOutcome::Issued { code } => {
                    &&& normalize_spec(phone@) matches Some(p)
                    &&& !rate_limit_hit(*old(self), p, now)
                    &&& valid_code_digits(code@)
                    &&& issued_step(*old(self), *final(self), p, code@, now)
                },
            },
    {
        let p = match normalize_phone(phone) {
            Some(p) => p,
            None => {
                return RequestOutcome::InvalidPhone;
            },
        };
        let found = self.find_code(p.as_slice());
        if let Some(i) = found {
            proof {
                self.lemma_code_idx(p@, i as int);
            }
            if now + 240 < self.codes[i].expires_at {
                return RequestOutcome::RateLimited;
            }
        }
        let n = random_code();
        let code = code_digits(n);
        let hash = match hash_code(code.as_slice()) {
            Some(h) => h,
            None => {
                return RequestOutcome::Fault;
            },
        };
        let ghost pre = *self;
        let rec = VerificationCode {
            phone_number: p,
            code_hash: hash,
            expires_at: now + 300,
            attempt_count: 0,
        };
        let ghost precodes = self.codes@;
        match found {
            Some(i) => {
                self.codes.remove(i);
                self.codes.push(rec);
                proof {
                    let ghost pp = rec.phone_number@;
                    let newlen = self.codes@.len() - 1;
                    assert forall|a: int, b: int|
                        0 <= a < b < self.codes@.len() implies self.codes@[a].phone_number@
                        != self.codes@[b].phone_number@ by {
                        if b < newlen {
                            lemma_remove_maps(precodes, i as int, a, b);
                        } else {
                            lemma_remove_keeps_others(precodes, i as int, a, pp);
                        }
                    }
                    self.lemma_code_idx(pp, newlen);
                    assert forall|q: Seq<u8>| q != pp implies #[trigger] self.has_code(q)
                        == pre.has_code(q) && (pre.has_code(q) ==> self.code_at(q) == pre.code_at(
                        q,
                    )) by {
                        lemma_replace_frame(pre, *self, i as int, pp, q);
                    }
                }
            },
            None => {
                self.codes.push(rec);
                proof {
                    let ghost pp = rec.phone_number@;
                    let newlen = self.codes@.len() - 1;
                    assert(forall|j: int|
                        0 <= j < newlen ==> self.codes@[j].phone_number@ != pp);
                    self.lemma_code_idx(pp, newlen);
                    assert forall|q: Seq<u8>| q != pp implies #[trigger] self.has_code(q)
                        == pre.has_code(q) && (pre.has_code(q) ==> self.code_at(q) == pre.code_at(
                        q,
                    )) by {
                        lemma_push_frame(pre, *self, pp, q);
                    }
                }
            },
        }
        RequestOutcome::Issued { code }
    }
}

/// Builds the placeholder name for a freshly created user row.
fn default_name_bytes() -> (r: Vec<u8>)
    ensures
        r@ == default_name(),
{
    let mut v: Vec<u8> = Vec::new();
    v.push(78);
    v.push(101);
    v.push(119);
    v.push(32);
    v.push(117);
    v.push(115);
    v.push(101);
    v.push(114);
    proof {
        assert(v@ =~= default_name());
    }
    v
}

impl AppState {
    /// `ConfirmCode`: normalizes the phone, checks record presence, expiry,
    /// and the lockout threshold of five failed attempts, then verifies the
    /// code against the stored hash. A mismatch increments and persists the
    /// attempt counter; a match deletes the record (single use), finds or
    /// creates the user row for the phone, allocates a fresh device id, and
    /// mints a 24-hour session token over the pair.
    pub fn register_confirm(&mut self, phone: &[u8], otp: &[u8], now: u64) -> (r: ConfirmOutcome)
        requires
            old(self).wf(),
            now + 86400 <= u64::MAX,
        ensures
            final(self).wf(),
            match r {
                ConfirmOutcome::InvalidPhone => normalize_spec(phone@) is None && *final(self)
                    == *old(self),
                ConfirmOutcome::NotFoundOrExpired => {
                    &&& normalize_spec(phone@) matches Some(p)
                    &&& !confirm_applicable(*old(self), p, now)
                    &&& *final(self) == *old(self)
                },
                ConfirmOutcome::Locked => {
                    &&& normalize_spec(phone@) matches Some(p)
                    &&& confirm_locked(*old(self), p, now)
                    &&& *final(self) == *old(self)
                },
                ConfirmOutcome::BadCode => {
                    &&& normalize_spec(phone@) matches Some(p)
                    &&& confirm_applicable(*old(self), p, now)
                    &&& !confirm_locked(*old(self), p, now)
                    &&& !argon_matches(otp@, old(self).code_at(p).code_hash@)
                    &&& bad_code_step(*old(self), *final(self), p)
                },
                ConfirmOutcome::Confirmed { user_id, device_id, auth_token } => {
                    &&& normalize_spec(phone@) matches Some(p)
                    &&& confirm_applicable(*old(self), p, now)
                    &&& !confirm_locked(*old(self), p, now)
                    &&& argon_matches(otp@, old(self).code_at(p).code_hash@)
                    &&& confirmed_step(*old(self), *final(self), p, user_id, now)
                    &&& auth_token@ == jwt_token_of(
                        user_id,
                        device_id,
                        (now + 86400) as u64,
                        old(self).jwt_secret@,
                    )
                    &&& jwt_claims_of(auth_token@, old(self).jwt_secret@) == Some(
                        (user_id, device_id, (now + 86400) as u64),
                    )
                },
            },
    {
        let p = match normalize_phone(phone) {
            Some(p) => p,
            None => {
                return ConfirmOutcome::InvalidPhone;
            },
        };
        let i = match self.find_code(p.as_slice()) {
            Some(i) => i,
            None => {
                return ConfirmOutcome::NotFoundOrExpired;
            },
        };
        proof {
            self.lemma_code_idx(p@, i as int);
        }
        if now > self.codes[i].expires_at {
            return ConfirmOutcome::NotFoundOrExpired;
        }
        let attempts = self.codes[i].attempt_count;
        if attempts >= 5 {
            return ConfirmOutcome::Locked;
        }
        let ok = verify_code(otp, self.codes[i].code_hash.as_str());
        if !ok {
            let ghost pre = *self;
            let ghost precodes = self.codes@;
            let mut rec = self.codes.remove(i);
            rec.attempt_count = attempts + 1;
            self.codes.push(rec);
            proof {
                let ghost pp = pre.codes@[i as int].phone_number@;
                let newlen = self.codes@.len() - 1;
                assert forall|a: int, b: int|
                    0 <= a < b < self.codes@.len() implies self.codes@[a].phone_number@
                    != self.codes@[b].phone_number@ by {
                    if b < newlen {
                        lemma_remove_maps(precodes, i as int, a, b);
                    } else {
                        lemma_remove_keeps_others(precodes, i as int, a, pp);
                    }
                }
                self.lemma_code_idx(pp, newlen);
                assert forall|q: Seq<u8>| q != pp implies #[trigger] self.has_code(q)
                    == pre.has_code(q) && (pre.has_code(q) ==> self.code_at(q) == pre.code_at(
                    q,
                )) by {
                    lemma_replace_frame(pre, *self, i as int, pp, q);
                }
            }
            return ConfirmOutcome::BadCode;
        }
        let mut existed: bool = false;
        let ghost mut uidx: int = 0;
        let mut user_id: u128 = 0;
        match self.find_user(p.as_slice()) {
            Some(j) => {
                proof {
                    self.lemma_user_idx(p@, j as int);
                    uidx = j as int;
                }
                existed = true;
                user_id = self.users[j].id;
            },
            None => {
                user_id = fresh_id();
            },
        }
        let device_id = fresh_id();
        let auth_token = mint_token(user_id, device_id, now, 86400, self.jwt_secret.as_slice());
        let ghost pre = *self;
        let ghost precodes = self.codes@;
        if !existed {
            let row = User {
                id: user_id,
                name: default_name_bytes(),
                phone_number: p,
                created_at: now,
            };
            self.users.push(row);
        }
        self.codes.remove(i);
        proof {
            let ghost pp = precodes[i as int].phone_number@;
            let newlen = self.codes@.len();
            assert forall|a: int, b: int|
                0 <= a < b < self.codes@.len() implies self.codes@[a].phone_number@
                != self.codes@[b].phone_number@ by {
                lemma_remove_maps(precodes, i as int, a, b);
            }
            assert forall|a: int| 0 <= a < self.codes@.len() implies self.codes@[
                a
            ].phone_number@ != pp by {
                lemma_remove_keeps_others(precodes, i as int, a, pp);
            }
            assert(!self.has_code(pp));
            assert forall|q: Seq<u8>| q != pp implies #[trigger] self.has_code(q) == pre.has_code(
                q,
            ) && (pre.has_code(q) ==> self.code_at(q) == pre.code_at(q)) by {
                lemma_remove_frame(pre, *self, i as int, pp, q);
            }
            if pre.has_user(pp) {
                self.lemma_user_idx(pp, uidx);
            } else {
                self.lemma_user_idx(pp, self.users@.len() - 1);
                assert(self.users@.drop_last() =~= pre.users@);
            }
        }
        ConfirmOutcome::Confirmed { user_id, device_id, auth_token }
    }
}

/// Frame for deleting the record at `i` (phone `p`): every other phone's
/// record is untouched.
proof fn lemma_remove_frame(pre: AppState, post: AppState, i: int, p: Seq<u8>, q: Seq<u8>)
    requires
        pre.wf(),
        0 <= i < pre.codes@.len(),
        pre.codes@[i].phone_number@ == p,
        post.codes@ == pre.codes@.remove(i),
        forall|x: int, y: int|
            0 <= x < y < post.codes@.len() ==> post.codes@[x].phone_number@
                != post.codes@[y].phone_number@,
        q != p,
    ensures
        post.has_code(q) == pre.has_code(q),
        pre.has_code(q) ==> post.code_at(q) == pre.code_at(q),
{
    if pre.has_code(q) {
        let k = pre.code_idx(q);
        pre.lemma_code_idx(q, k);
        assert(k != i);
        let k2 = if k < i { k } else { k - 1 };
        assert(post.codes@[k2] == pre.codes@[k]);
        let j = post.code_idx(q);
        if j != k2 {
            assert(post.codes@[j].phone_number@ == q && post.codes@[k2].phone_number@ == q);
        }
        assert(post.has_code(q) && post.code_idx(q) == k2);
    }
    if post.has_code(q) {
        let k = post.code_idx(q);
        assert(0 <= k < post.codes@.len() && post.codes@[k].phone_number@ == q);
        let k2 = if k < i { k } else { k + 1 };
        assert(post.codes@[k] == pre.codes@[k2]);
        pre.lemma_code_idx(q, k2);
    }
}

/// Indices below the removed one keep their records; those at or above it
/// shift down by one.
proof fn lemma_remove_maps(s: Seq<VerificationCode>, i: int, a: int, b: int)
    requires
        0 <= i < s.len(),
        0 <= a < b < s.len() - 1,
    ensures
        s.remove(i)[a] == s[if a < i { a } else { a + 1 }],
        s.remove(i)[b] == s[if b < i { b } else { b + 1 }],
{
}

/// After removing the only record whose phone is `p`, no record for `p`
/// remains (given unique phones).
proof fn lemma_remove_keeps_others(s: Seq<VerificationCode>, i: int, a: int, p: Seq<u8>)
    requires
        0 <= i < s.len(),
        0 <= a < s.len() - 1,
        s[i].phone_number@ == p,
        forall|x: int, y: int|
            0 <= x < y < s.len() ==> s[x].phone_number@ != s[y].phone_number@,
    ensures
        s.remove(i)[a].phone_number@ != p,
{
    if a < i {
        assert(s.remove(i)[a] == s[a]);
    } else {
        assert(s.remove(i)[a] == s[a + 1]);
    }
}

/// Frame for replacing the record at `i` (phone `p`) by a fresh record for
/// `p` at the back: every other phone's record is untouched.
proof fn lemma_replace_frame(pre: AppState, post: AppState, i: int, p: Seq<u8>, q: Seq<u8>)
    requires
        pre.wf(),
        post.wf(),
        0 <= i < pre.codes@.len(),
        pre.codes@[i].phone_number@ == p,
        post.codes@ == pre.codes@.remove(i).push(post.codes@.last()),
        post.codes@.len() > 0,
        post.codes@.last().phone_number@ == p,
        q != p,
    ensures
        post.has_code(q) == pre.has_code(q),
        pre.has_code(q) ==> post.code_at(q) == pre.code_at(q),
{
    let n = pre.codes@.len();
    if pre.has_code(q) {
        let k = pre.code_idx(q);
        pre.lemma_code_idx(q, k);
        assert(k != i);
        let k2 = if k < i { k } else { k - 1 };
        assert(post.codes@[k2] == pre.codes@[k]);
        post.lemma_code_idx(q, k2);
    }
    if post.has_code(q) {
        let k = post.code_idx(q);
        assert(0 <= k < post.codes@.len() && post.codes@[k].phone_number@ == q);
        assert(k != post.codes@.len() - 1);
        let k2 = if k < i { k } else { k + 1 };
        assert(post.codes@[k] == pre.codes@[k2]);
        pre.lemma_code_idx(q, k2);
    }
}

/// Frame for appending a fresh record for `p`: every other phone's record
/// is untouched.
proof fn lemma_push_frame(pre: AppState, post: AppState, p: Seq<u8>, q: Seq<u8>)
    requires
        pre.wf(),
        post.wf(),
        post.codes@ == pre.codes@.push(post.codes@.last()),
        post.codes@.len() > 0,
        post.codes@.last().phone_number@ == p,
        q != p,
    ensures
        post.has_code(q) == pre.has_code(q),
        pre.has_code(q) ==> post.code_at(q) == pre.code_at(q),
{
    if pre.has_code(q) {
        let k = pre.code_idx(q);
        pre.lemma_code_idx(q, k);
        assert(post.codes@[k] == pre.codes@[k]);
        post.lemma_code_idx(q, k);
    }
    if post.has_code(q) {
        let k = post.code_idx(q);
        assert(0 <= k < post.codes@.len() && post.codes@[k].phone_number@ == q);
        assert(k != post.codes@.len() - 1);
        assert(post.codes@[k] == pre.codes@[k]);
        pre.lemma_code_idx(q, k);
    }
}

/// Law: for every valid phone, a `RequestCode` that issued at `t0` makes a
/// second `RequestCode` within 60 seconds hit the rate limit (and so, by
/// the contract of `register_phone`, return `RateLimited`).
pub proof fn lemma_second_request_rate_limited(
    pre: AppState,
    post: AppState,
    p: Seq<u8>,
    code: Seq<u8>,
    t0: u64,
    t1: u64,
)
    requires
        issued_step(pre, post, p, code, t0),
        t0 + 300 <= u64::MAX,
        t0 <= t1 < t0 + 60,
    ensures
        rate_limit_hit(post, p, t1),
{
}

/// Law: a correct confirmation is single-use — a `Confirmed` transition
/// for `p` deletes the verification record, so no pending code for `p`
/// remains and, by the contract of `register_confirm`, a second
/// confirmation for `p` at any later time returns `NotFoundOrExpired`.
pub proof fn lemma_confirmation_single_use(
    pre: AppState,
    post: AppState,
    p: Seq<u8>,
    u: u128,
    now: u64,
    later: u64,
)
    requires
        confirmed_step(pre, post, p, u, now),
    ensures
        !confirm_applicable(post, p, later),
{
}

/// Law: each wrong code grows the attempt counter of the phone's record by
/// exactly one, so the counter increases monotonically over failed
/// confirmations.
pub proof fn lemma_attempts_increase(pre: AppState, post: AppState, p: Seq<u8>)
    requires
        bad_code_step(pre, post, p),
    ensures
        post.code_at(p).attempt_count == pre.code_at(p).attempt_count + 1,
{
}

/// Law: once the counter of a pending, unexpired code reaches five, the
/// phone is locked whatever code a caller presents — `confirm_locked` does
/// not mention the presented code, and by the contract of
/// `register_confirm` the outcome is then `Locked` and nothing changes.
pub proof fn lemma_lockout(s: AppState, p: Seq<u8>, now: u64)
    requires
        confirm_applicable(s, p, now),
        s.code_at(p).attempt_count >= 5,
    ensures
        confirm_locked(s, p, now),
{
}


impl RequestOutcome {
    /// The numeric status of the response envelope for this outcome:
    /// 202 code issued (async-style success), 400 invalid input,
    /// 429 rate-limited, 500 internal fault.
    pub fn status(&self) -> (s: u16)
        ensures
            s == match *self {
                RequestOutcome::Issued { .. } => 202u16,
                RequestOutcome::InvalidPhone => 400u16,
                RequestOutcome::RateLimited => 429u16,
                RequestOutcome::Fault => 500u16,
            },
    {
        match self {
            RequestOutcome::Issued { .. } => 202,
            RequestOutcome::InvalidPhone => 400,
            RequestOutcome::RateLimited => 429,
            RequestOutcome::Fault => 500,
        }
    }
}

impl ConfirmOutcome {
    /// The numeric status of the response envelope for this outcome:
    /// 200 success, 400 invalid input, 401 bad credential, 403 locked.
    pub fn status(&self) -> (s: u16)
        ensures
            s == match *self {
                ConfirmOutcome::Confirmed { .. } => 200u16,
                ConfirmOutcome::InvalidPhone => 400u16,
                ConfirmOutcome::NotFoundOrExpired => 401u16,
                ConfirmOutcome::Locked => 403u16,
                ConfirmOutcome::BadCode => 401u16,
            },
    {
        match self {
            ConfirmOutcome::Confirmed { .. } => 200,
            ConfirmOutcome::InvalidPhone => 400,
            ConfirmOutcome::NotFoundOrExpired => 401,
            ConfirmOutcome::Locked => 403,
            ConfirmOutcome::BadCode => 401,
        }
    }
}


} // verus!
