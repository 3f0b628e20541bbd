//! Device Key-Bundle Manager: exactly-once bundle upload, one-time prekey
//! consumption, and the authenticated device listing.
//!
//! Key material arrives base64-encoded and is decoded before storage; a
//! device id accepts exactly one bundle; a successful upload mints a
//! rotated 7-day (604800 s) session token; each one-time prekey is handed
//! out at most once.

use vstd::prelude::*;
use crate::encoding::b64_decode;
use crate::encoding::b64_of;
use crate::models::Device;
use crate::models::OneTimePrekey;
use crate::state::AppState;
use crate::token::jwt_claims_of;
use crate::token::jwt_token_of;
use crate::token::mint_token;

verus! {

/// A key-upload request as the transport hands it over: base64 text for
/// each key, and the device metadata.
pub struct UploadKeysRequest {
    pub identity_key_pub: Vec<u8>,
    pub signed_prekey_pub: Vec<u8>,
    pub signed_prekey_signature: Vec<u8>,
    pub one_time_prekeys: Vec<Vec<u8>>,
    pub device_name: Vec<u8>,
    pub push_token: Vec<u8>,
}

/// Outcome of a key-bundle upload.
pub enum UploadOutcome {
    /// The bundle was stored as one transaction (device row plus one row
    /// per one-time prekey) and a rotated 7-day token minted.
    Accepted { device_id: u128, auth_token: Vec<u8> },
    /// A bundle for this device id already exists; nothing was written.
    Conflict,
    /// Some field was not valid base64; nothing was written.
    DecodeError,
}

/// The views of a vector of byte strings.
pub open spec fn views_of(ks: Seq<Vec<u8>>) -> Seq<Seq<u8>> {
    ks.map_values(|k: Vec<u8>| k@)
}

/// Decoding every element: `Some` of the decoded sequence when each element
/// is valid base64, `None` otherwise.
pub open spec fn decode_all(ks: Seq<Seq<u8>>) -> Option<Seq<Seq<u8>>>
    decreases ks.len(),
{
    if ks.len() == 0 {
        Some(Seq::empty())
    } else {
        match (decode_all(ks.drop_last()), b64_of(ks.last())) {
            (Some(rest), Some(k)) => Some(rest.push(k)),
            _ => None,
        }
    }
}

/// What the whole request decodes to: identity key, signed prekey, its
/// signature, and the one-time prekeys, or `None` on any decode failure.
pub open spec fn bundle_decoded(req: UploadKeysRequest) -> Option<
    (Seq<u8>, Seq<u8>, Seq<u8>, Seq<Seq<u8>>),
> {
    match (
        b64_of(req.identity_key_pub@),
        b64_of(req.signed_prekey_pub@),
        b64_of(req.signed_prekey_signature@),
        decode_all(views_of(req.one_time_prekeys@)),
    ) {
        (Some(ik), Some(spk), Some(sig), Some(otks)) => Some((ik, spk, sig, otks)),
        _ => None,
    }
}

/// The store transition of an accepted upload: one device row appended with
/// the decoded material, one unconsumed prekey row per decoded one-time
/// prekey with consecutive surrogate ids, everything else untouched.
pub open spec fn upload_step(
    pre: AppState,
    post: AppState,
    user_id: u128,
    device_id: u128,
    b: (Seq<u8>, Seq<u8>, Seq<u8>, Seq<Seq<u8>>),
    name: Seq<u8>,
    push_token: Seq<u8>,
    now: u64,
) -> bool {
    &&& post.devices@.len() == pre.devices@.len() + 1
    &&& post.devices@.drop_last() == pre.devices@
    &&& post.devices@.last().id == device_id
    &&& post.devices@.last().user_id == user_id
    &&& post.devices@.last().name@ == name
    &&& post.devices@.last().created_at == now
    &&& post.devices@.last().is_revoked == false
    &&& post.devices@.last().identity_key_pub@ == b.0
    &&& post.devices@.last().signed_prekey_pub@ == b.1
    &&& post.devices@.last().signed_prekey_signature@ == b.2
    &&& post.devices@.last().push_token@ == push_token
    &&& post.prekeys@.len() == pre.prekeys@.len() + b.3.len()
    &&& forall|j: int| 0 <= j < pre.prekeys@.len() ==> post.prekeys@[j] == pre.prekeys@[j]
    &&& forall|j: int|
        pre.prekeys@.len() <= j < post.prekeys@.len() ==> {
            let rec = #[trigger] post.prekeys@[j];
            &&& rec.device_id == device_id
            &&& rec.prekey_pub@ == b.3[j - pre.prekeys@.len()]
            &&& !rec.is_consumed
            &&& rec.created_at == now
            &&& rec.id == pre.next_prekey_id + (j - pre.prekeys@.len())
        }
    &&& post.next_prekey_id == pre.next_prekey_id + b.3.len()
    &&& post.codes@ == pre.codes@
    &&& post.users@ == pre.users@
    &&& post.jwt_secret@ == pre.jwt_secret@
}

/// If some element fails to decode, the whole sequence fails to decode.
proof fn lemma_decode_all_none(ks: Seq<Seq<u8>>, k: int)
    requires
        0 <= k < ks.len(),
        b64_of(ks[k]) is None,
    ensures
        decode_all(ks) is None,
    decreases ks.len(),
{
    if k == ks.len() - 1 {
        assert(ks.last() == ks[k]);
    } else {
        assert(ks.drop_last()[k] == ks[k]);
        lemma_decode_all_none(ks.drop_last(), k);
    }
}

impl AppState {
    /// `UploadBundle`: rejects a second upload for the same device id with
    /// `Conflict` before anything else, decodes every base64 field (any
    /// failure is the client's `DecodeError`), and on acceptance writes the
    /// device row and all prekey rows as one transaction and mints a
    /// rotated 7-day token for the same identity.
    #[verifier::loop_isolation(false)]
    pub fn upload_keys(
        &mut self,
        user_id: u128,
        device_id: u128,
        req: UploadKeysRequest,
        now: u64,
    ) -> (r: UploadOutcome)
        requires
            old(self).wf(),
            now + 604800 <= u64::MAX,
            old(self).next_prekey_id + req.one_time_prekeys@.len() <= u64::MAX,
        ensures
            final(self).wf(),
            match r {
                UploadOutcome::Conflict => old(self).has_device(device_id) && *final(self)
                    == *old(self),
                UploadOutcome::DecodeError => {
                    &&& !old(self).has_device(device_id)
                    &&& bundle_decoded(req) is None
                    &&& *final(self) == *old(self)
                },
                UploadOutcome::Accepted { device_id: d, auth_token } => {
                    &&& d == device_id
                    &&& !old(self).has_device(device_id)
                    &&& bundle_decoded(req) matches Some(b)
                    &&& upload_step(
                        *old(self),
                        *final(self),
                        user_id,
                        device_id,
                        b,
                        req.device_name@,
                        req.push_token@,
                        now,
                    )
                    &&& auth_token@ == jwt_token_of(
                        user_id,
                        device_id,
                        (now + 604800) as u64,
                        old(self).jwt_secret@,
                    )
                    &&& jwt_claims_of(auth_token@, old(self).jwt_secret@) == Some(
                        (user_id, device_id, (now + 604800) as u64),
                    )
                },
            },
    {
        if let Some(_) = self.find_device(device_id) {
            return UploadOutcome::Conflict;
        }
        let ik = match b64_decode(req.identity_key_pub.as_slice()) {
            Some(v) => v,
            None => {
                return UploadOutcome::DecodeError;
            },
        };
        let spk = match b64_decode(req.signed_prekey_pub.as_slice()) {
            Some(v) => v,
            None => {
                return UploadOutcome::DecodeError;
            },
        };
        let sig = match b64_decode(req.signed_prekey_signature.as_slice()) {
            Some(v) => v,
            None => {
                return UploadOutcome::DecodeError;
            },
        };
        let ghost allviews = views_of(req.one_time_prekeys@);
        let mut otks: Vec<Vec<u8>> = Vec::new();
        let m = req.one_time_prekeys.len();
        let mut k: usize = 0;
        while k < m
            invariant
                0 <= k <= m,
                m == req.one_time_prekeys@.len(),
                allviews == views_of(req.one_time_prekeys@),
                allviews.len() == m,
                decode_all(views_of(req.one_time_prekeys@.subrange(0, k as int))) == Some(
                    views_of(otks@),
                ),
                views_of(otks@).len() == k,
            decreases m - k,
        {
            proof {
                assert(views_of(req.one_time_prekeys@.subrange(0, k + 1)).drop_last() =~= views_of(
                    req.one_time_prekeys@.subrange(0, k as int),
                ));
                assert(views_of(req.one_time_prekeys@.subrange(0, k + 1)).last()
                    == req.one_time_prekeys@[k as int]@);
                assert(allviews[k as int] == req.one_time_prekeys@[k as int]@);
            }
            match b64_decode(req.one_time_prekeys[k].as_slice()) {
                Some(v) => {
                    let ghost prev = otks@;
                    otks.push(v);
                    proof {
                        assert(views_of(otks@) =~= views_of(prev).push(v@));
                    }
                },
                None => {
                    proof {
                        lemma_decode_all_none(allviews, k as int);
                    }
                    return UploadOutcome::DecodeError;
                },
            }
            k = k + 1;
        }
        proof {
            assert(req.one_time_prekeys@.subrange(0, m as int) =~= req.one_time_prekeys@);
        }
        let auth_token = mint_token(user_id, device_id, now, 604800, self.jwt_secret.as_slice());
        let ghost pre = *self;
        let dev = Device {
            id: device_id,
            user_id,
            name: req.device_name,
            created_at: now,
            is_revoked: false,
            identity_key_pub: ik,
            signed_prekey_pub: spk,
            signed_prekey_signature: sig,
            push_token: req.push_token,
        };
        let ghost gdev = dev;
        self.devices.push(dev);
        proof {
            assert(self.devices@.drop_last() =~= pre.devices@);
        }
        let ghost preotks = otks@;
        let total = otks.len();
        let mut done: usize = 0;
        while done < total
            invariant
                0 <= done <= total,
                total == preotks.len(),
                otks@ == preotks.subrange(done as int, total as int),
                self.next_prekey_id == pre.next_prekey_id + done,
                pre.next_prekey_id + total <= u64::MAX,
                self.prekeys@.len() == pre.prekeys@.len() + done,
                forall|j: int| 0 <= j < pre.prekeys@.len() ==> self.prekeys@[j] == pre.prekeys@[j],
                forall|j: int|
                    pre.prekeys@.len() <= j < self.prekeys@.len() ==> {
                        let rec = #[trigger] self.prekeys@[j];
                        &&& rec.device_id == device_id
                        &&& rec.prekey_pub@ == preotks[j - pre.prekeys@.len()]@
                        &&& !rec.is_consumed
                        &&& rec.created_at == now
                        &&& rec.id == pre.next_prekey_id + (j - pre.prekeys@.len())
                    },
                forall|j: int| 0 <= j < self.prekeys@.len() ==> (#[trigger] self.prekeys@[j].id)
                    < self.next_prekey_id,
                forall|x: int, y: int|
                    0 <= x < y < self.prekeys@.len() ==> self.prekeys@[x].id
                        != self.prekeys@[y].id,
                self.devices@ == pre.devices@.push(gdev),
                self.devices@.len() == pre.devices@.len() + 1,
                self.codes@ == pre.codes@,
                self.users@ == pre.users@,
                self.jwt_secret@ == pre.jwt_secret@,
                pre.wf(),
            decreases total - done,
        {
            let v = otks.remove(0);
            proof {
                assert(v@ == preotks[done as int]@);
                assert(otks@ =~= preotks.subrange(done + 1, total as int));
            }
            let row = OneTimePrekey {
                id: self.next_prekey_id,
                device_id,
                prekey_pub: v,
                is_consumed: false,
                created_at: now,
            };
            self.prekeys.push(row);
            self.next_prekey_id = self.next_prekey_id + 1;
            done = done + 1;
        }
        UploadOutcome::Accepted { device_id, auth_token }
    }
}

/// Law: bundle upload is idempotent-rejecting — an accepted upload
/// materializes the device row, so by the contract of `upload_keys` every
/// later upload for the same device id returns `Conflict` and writes
/// nothing.
pub proof fn lemma_upload_once(
    pre: AppState,
    post: AppState,
    user_id: u128,
    device_id: u128,
    b: (Seq<u8>, Seq<u8>, Seq<u8>, Seq<Seq<u8>>),
    name: Seq<u8>,
    push_token: Seq<u8>,
    now: u64,
)
    requires
        upload_step(pre, post, user_id, device_id, b, name, push_token, now),
    ensures
        post.has_device(device_id),
{
    assert(post.devices@[post.devices@.len() - 1].id == device_id);
}

/// One consumption transition: the row at some index `i` of the device,
/// previously unconsumed, is the one handed out (`id`, `key`) and is now
/// marked consumed; every other row and table stands.
pub open spec fn consume_at(
    pre: AppState,
    post: AppState,
    device: u128,
    id: u64,
    key: Seq<u8>,
    i: int,
) -> bool {
    &&& 0 <= i < pre.prekeys@.len()
    &&& pre.prekeys@[i].device_id == device
    &&& !pre.prekeys@[i].is_consumed
    &&& pre.prekeys@[i].id == id
    &&& pre.prekeys@[i].prekey_pub@ == key
    &&& post.prekeys@.len() == pre.prekeys@.len()
    &&& post.prekeys@.drop_last() == pre.prekeys@.remove(i)
    &&& post.prekeys@.last().id == id
    &&& post.prekeys@.last().device_id == device
    &&& post.prekeys@.last().is_consumed
    &&& post.prekeys@.last().prekey_pub@ == key
    &&& post.prekeys@.last().created_at == pre.prekeys@[i].created_at
    &&& post.codes@ == pre.codes@
    &&& post.users@ == pre.users@
    &&& post.devices@ == pre.devices@
    &&& post.next_prekey_id == pre.next_prekey_id
    &&& post.jwt_secret@ == pre.jwt_secret@
}

/// The store transition of a successful consumption: some row as in
/// `consume_at`.
pub open spec fn consume_step(pre: AppState, post: AppState, device: u128, id: u64, key: Seq<u8>) -> bool {
    exists|i: int| consume_at(pre, post, device, id, key, i)
}

/// An element of a sequence with one index removed comes from the original,
/// skipping the removed index.
proof fn lemma_remove_idx<T>(s: Seq<T>, i: int, a: int)
    requires
        0 <= i < s.len(),
        0 <= a < s.len() - 1,
    ensures
        s.remove(i)[a] == s[if a < i { a } else { a + 1 }],
{
}

impl AppState {
    /// `ConsumeOneTimePrekey`: atomically selects an unconsumed prekey of
    /// the device, marks it consumed (a move that is never reversed), and
    /// hands back its surrogate id and public key; `None` exactly when no
    /// unconsumed prekey remains for the device.
    #[verifier::loop_isolation(false)]
    pub fn consume_one_time_prekey(&mut self, device_id: u128) -> (r: Option<(u64, Vec<u8>)>)
        requires
            old(self).wf(),
        ensures
            final(self).wf(),
            match r {
                Some(pair) => consume_step(*old(self), *final(self), device_id, pair.0, pair.1@),
                None => !old(self).has_unconsumed_prekey(device_id) && *final(self) == *old(
                    self,
                ),
            },
    {
        let n = self.prekeys.len();
        let mut i: usize = 0;
        while i < n
            invariant
                0 <= i <= n,
                *self == *old(self),
                n == self.prekeys@.len(),
                forall|j: int|
                    0 <= j < i ==> !(self.prekeys@[j].device_id == device_id
                        && !self.prekeys@[j].is_consumed),
            decreases n - i,
        {
            if self.prekeys[i].device_id == device_id && !self.prekeys[i].is_consumed {
                let ghost pre = *self;
                let ghost prepk = self.prekeys@;
                let mut rec = self.prekeys.remove(i);
                rec.is_consumed = true;
                let id = rec.id;
                let key = clone_bytes(&rec.prekey_pub);
                self.prekeys.push(rec);
                proof {
                    let newlen = self.prekeys@.len() - 1;
                    assert forall|a: int, b: int|
                        0 <= a < b < self.prekeys@.len() implies self.prekeys@[a].id
                        != self.prekeys@[b].id by {
                        if b < newlen {
                            lemma_remove_idx(prepk, i as int, a);
                            lemma_remove_idx(prepk, i as int, b);
                        } else {
                            lemma_remove_idx(prepk, i as int, a);
                        }
                    }
                    assert forall|a: int| 0 <= a < self.prekeys@.len() implies (
                    #[trigger] self.prekeys@[a].id) < self.next_prekey_id by {
                        if a < newlen {
                            lemma_remove_idx(prepk, i as int, a);
                        }
                    }
                    assert(self.prekeys@.drop_last() =~= prepk.remove(i as int));
                    assert(consume_at(pre, *self, device_id, id, key@, i as int));
                }
                return Some((id, key));
            }
            i = i + 1;
        }
        None
    }

    /// Device listing for an authenticated user: the id and name of every
    /// device row bound to the user id, in store order.
    #[verifier::loop_isolation(false)]
    pub fn get_devices(&self, user_id: u128) -> (r: Vec<(u128, Vec<u8>)>)
        ensures
            pairs_views(r@) == devices_listing(self.devices@, user_id),
    {
        let mut out: Vec<(u128, Vec<u8>)> = Vec::new();
        let n = self.devices.len();
        let mut i: usize = 0;
        while i < n
            invariant
                0 <= i <= n,
                pairs_views(out@) == devices_listing(
                    self.devices@.subrange(0, i as int),
                    user_id,
                ),
            decreases n - i,
        {
            proof {
                assert(self.devices@.subrange(0, i + 1).drop_last() =~= self.devices@.subrange(
                    0,
                    i as int,
                ));
                assert(self.devices@.subrange(0, i + 1).last() == self.devices@[i as int]);
            }
            if self.devices[i].user_id == user_id {
                let ghost prevout = out@;
                let name = clone_bytes(&self.devices[i].name);
                let id = self.devices[i].id;
                out.push((id, name));
                proof {
                    assert(pairs_views(out@) =~= pairs_views(prevout).push(
                        (self.devices@[i as int].id, self.devices@[i as int].name@),
                    ));
                }
            }
            i = i + 1;
        }
        proof {
            assert(self.devices@.subrange(0, n as int) =~= self.devices@);
        }
        out
    }
}

/// The pairs of a listing, by view.
pub open spec fn pairs_views(ps: Seq<(u128, Vec<u8>)>) -> Seq<(u128, Seq<u8>)> {
    ps.map_values(|p: (u128, Vec<u8>)| (p.0, p.1@))
}

/// The device listing of a user over the device table: id and name of each
/// row whose `user_id` is the user, in store order.
pub open spec fn devices_listing(ds: Seq<Device>, user: u128) -> Seq<(u128, Seq<u8>)>
    decreases ds.len(),
{
    if ds.len() == 0 {
        Seq::empty()
    } else {
        let rest = devices_listing(ds.drop_last(), user);
        if ds.last().user_id == user {
            rest.push((ds.last().id, ds.last().name@))
        } else {
            rest
        }
    }
}

/// Copies a byte string.
fn clone_bytes(v: &Vec<u8>) -> (r: Vec<u8>)
    ensures
        r@ == v@,
{
    let mut out: Vec<u8> = Vec::new();
    let n = v.len();
    let mut i: usize = 0;
    while i < n
        invariant
            0 <= i <= n,
            n == v@.len(),
            out@ == v@.subrange(0, i as int),
        decreases n - i,
    {
        out.push(v[i]);
        proof {
            assert(v@.subrange(0, i + 1) =~= v@.subrange(0, i as int).push(v@[i as int]));
        }
        i = i + 1;
    }
    proof {
        assert(v@.subrange(0, n as int) =~= v@);
    }
    out
}

/// Law: no one-time prekey is handed out twice — two consumptions in a
/// row for the same device yield rows with distinct surrogate ids, because
/// the first marks its row consumed and a consumption only ever picks an
/// unconsumed row.
pub proof fn lemma_consume_distinct(
    s0: AppState,
    s1: AppState,
    s2: AppState,
    device: u128,
    id1: u64,
    k1: Seq<u8>,
    id2: u64,
    k2: Seq<u8>,
)
    requires
        s0.wf(),
        consume_step(s0, s1, device, id1, k1),
        consume_step(s1, s2, device, id2, k2),
    ensures
        id1 != id2,
{
    let i = choose|i: int| consume_at(s0, s1, device, id1, k1, i);
    assert(consume_at(s0, s1, device, id1, k1, i));
    let j = choose|j: int| consume_at(s1, s2, device, id2, k2, j);
    assert(consume_at(s1, s2, device, id2, k2, j));
    if id1 == id2 {
        let n = s1.prekeys@.len();
        assert(s1.prekeys@[n - 1].is_consumed);
        assert(!s1.prekeys@[j].is_consumed);
        assert(j != n - 1);
        assert(s1.prekeys@.drop_last()[j] == s1.prekeys@[j]);
        let j2 = if j < i { j } else { j + 1 };
        lemma_remove_idx(s0.prekeys@, i, j);
        assert(s0.prekeys@[j2].id == id2);
        assert(s0.prekeys@[i].id == id1);
        assert(j2 != i);
        assert(false);
    }
}

impl UploadOutcome {
    /// The numeric status of the response envelope for this outcome:
    /// 200 success, 400 invalid input, 409 duplicate bundle.
    pub fn status(&self) -> (s: u16)
        ensures
            s == match *self {
                UploadOutcome::Accepted { .. } => 200u16,
                UploadOutcome::Conflict => 409u16,
                UploadOutcome::DecodeError => 400u16,
            },
    {
        match self {
            UploadOutcome::Accepted { .. } => 200,
            UploadOutcome::Conflict => 409,
            UploadOutcome::DecodeError => 400,
        }
    }
}

/// How many unconsumed prekeys of `device` a prekey table holds.
pub open spec fn unconsumed_count(pks: Seq<OneTimePrekey>, device: u128) -> nat
    decreases pks.len(),
{
    if pks.len() == 0 {
        0
    } else {
        unconsumed_count(pks.drop_last(), device) + (
        if pks.last().device_id == device && !pks.last().is_consumed {
            1nat
        } else {
            0nat
        })
    }
}

/// Removing a row lowers the count by that row's contribution.
proof fn lemma_count_remove(pks: Seq<OneTimePrekey>, device: u128, i: int)
    requires
        0 <= i < pks.len(),
    ensures
        unconsumed_count(pks, device) == unconsumed_count(pks.remove(i), device) + (
        if pks[i].device_id == device && !pks[i].is_consumed {
            1nat
        } else {
            0nat
        }),
    decreases pks.len(),
{
    if i == pks.len() - 1 {
        assert(pks.remove(i) =~= pks.drop_last());
    } else {
        assert(pks.remove(i).drop_last() =~= pks.drop_last().remove(i));
        assert(pks.remove(i).last() == pks.last());
        lemma_count_remove(pks.drop_last(), device, i);
    }
}

/// The count is zero exactly when no unconsumed prekey for the device
/// exists.
pub proof fn lemma_count_zero_iff_exhausted(s: AppState, device: u128)
    ensures
        (unconsumed_count(s.prekeys@, device) == 0) <==> !s.has_unconsumed_prekey(device),
{
    lemma_count_zero_iff_none(s.prekeys@, device);
    if s.has_unconsumed_prekey(device) {
        let i = choose|i: int|
            0 <= i < s.prekeys@.len() && s.prekeys@[i].device_id == device
                && !s.prekeys@[i].is_consumed;
        assert(!(s.prekeys@[i].device_id != device || s.prekeys@[i].is_consumed));
    }
}

proof fn lemma_count_zero_iff_none(pks: Seq<OneTimePrekey>, device: u128)
    ensures
        (unconsumed_count(pks, device) == 0) <==> (forall|i: int|
            0 <= i < pks.len() ==> (#[trigger] pks[i].device_id) != device
                || pks[i].is_consumed),
    decreases pks.len(),
{
    if pks.len() > 0 {
        lemma_count_zero_iff_none(pks.drop_last(), device);
        assert(forall|i: int|
            0 <= i < pks.len() - 1 ==> pks.drop_last()[i] == pks[i]);
        assert(pks.last() == pks[pks.len() - 1]);
    }
}

/// Law: consumption exhausts the pool — a successful consumption for a
/// device lowers its number of unconsumed prekeys by exactly one (and by
/// the contract of `consume_one_time_prekey`, `None` comes exactly when
/// that number is zero), so as many consumptions as there are unconsumed
/// rows leave none behind.
pub proof fn lemma_consume_decrements(
    pre: AppState,
    post: AppState,
    device: u128,
    id: u64,
    key: Seq<u8>,
)
    requires
        consume_step(pre, post, device, id, key),
    ensures
        unconsumed_count(pre.prekeys@, device) == unconsumed_count(post.prekeys@, device) + 1,
{
    let i = choose|i: int| consume_at(pre, post, device, id, key, i);
    assert(consume_at(pre, post, device, id, key, i));
    lemma_count_remove(pre.prekeys@, device, i);
    assert(post.prekeys@.len() > 0);
    assert(unconsumed_count(post.prekeys@, device) == unconsumed_count(
        post.prekeys@.drop_last(),
        device,
    ));
}

proof fn lemma_count_extend(pre: Seq<OneTimePrekey>, post: Seq<OneTimePrekey>, device: u128, m: int)
    requires
        pre.len() <= m <= post.len(),
        forall|j: int| 0 <= j < pre.len() ==> post[j] == pre[j],
        forall|j: int|
            pre.len() <= j < post.len() ==> (#[trigger] post[j]).device_id == device
                && !post[j].is_consumed,
    ensures
        unconsumed_count(post.take(m), device) == unconsumed_count(pre, device) + (m
            - pre.len()),
    decreases m,
{
    if m == pre.len() {
        assert(post.take(m) =~= pre);
    } else {
        lemma_count_extend(pre, post, device, m - 1);
        assert(post.take(m).drop_last() =~= post.take(m - 1));
        assert(post.take(m).last() == post[m - 1]);
    }
}

/// Law: an accepted upload raises the device's number of unconsumed
/// prekeys by exactly the number of prekeys in the bundle — together with
/// `lemma_consume_decrements`, after that many consumptions none remains.
pub proof fn lemma_upload_adds_prekeys(
    pre: AppState,
    post: AppState,
    user_id: u128,
    device_id: u128,
    b: (Seq<u8>, Seq<u8>, Seq<u8>, Seq<Seq<u8>>),
    name: Seq<u8>,
    push_token: Seq<u8>,
    now: u64,
)
    requires
        upload_step(pre, post, user_id, device_id, b, name, push_token, now),
    ensures
        unconsumed_count(post.prekeys@, device_id) == unconsumed_count(pre.prekeys@, device_id)
            + b.3.len(),
{
    lemma_count_extend(pre.prekeys@, post.prekeys@, device_id, post.prekeys@.len() as int);
    assert(post.prekeys@.take(post.prekeys@.len() as int) =~= post.prekeys@);
}

} // verus!
