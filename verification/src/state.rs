//! The application context: the token-signing secret together with the
//! modeled credential store (verification codes, users, devices, one-time
//! prekeys), and its point lookups.
//!
//! The store is kept as vectors of rows with uniqueness invariants, the
//! transactional counterpart of the unique keys the schema declares.

use vstd::prelude::*;
use crate::models::Device;
use crate::models::OneTimePrekey;
use crate::models::User;
use crate::models::VerificationCode;

verus! {

/// Shared application context: signing secret plus the credential store.
pub struct AppState {
    pub jwt_secret: Vec<u8>,
    pub codes: Vec<VerificationCode>,
    pub users: Vec<User>,
    pub devices: Vec<Device>,
    pub prekeys: Vec<OneTimePrekey>,
    pub next_prekey_id: u64,
}

impl AppState {
    /// Store invariants: unique keys per table, bounded attempt counters,
    /// and prekey surrogate ids below the allocation counter.
    pub open spec fn wf(self) -> bool {
        &&& forall|i: int, j: int|
            0 <= i < j < self.codes@.len() ==> self.codes@[i].phone_number@
                != self.codes@[j].phone_number@
        &&& forall|i: int| 0 <= i < self.codes@.len() ==> self.codes@[i].attempt_count <= 5
        &&& forall|i: int, j: int|
            0 <= i < j < self.users@.len() ==> self.users@[i].phone_number@
                != self.users@[j].phone_number@
        &&& forall|i: int, j: int|
            0 <= i < j < self.devices@.len() ==> self.devices@[i].id != self.devices@[j].id
        &&& forall|i: int, j: int|
            0 <= i < j < self.prekeys@.len() ==> self.prekeys@[i].id != self.prekeys@[j].id
        &&& forall|i: int| 0 <= i < self.prekeys@.len() ==> self.prekeys@[i].id
            < self.next_prekey_id
    }

    /// A pending verification code exists for this phone number.
    pub open spec fn has_code(self, p: Seq<u8>) -> bool {
        exists|i: int| 0 <= i < self.codes@.len() && self.codes@[i].phone_number@ == p
    }

    /// Index of the pending code for `p` (meaningful under `wf` and `has_code`).
    pub open spec fn code_idx(self, p: Seq<u8>) -> int {
        choose|i: int| 0 <= i < self.codes@.len() && self.codes@[i].phone_number@ == p
    }

    /// The pending code record for `p`.
    pub open spec fn code_at(self, p: Seq<u8>) -> VerificationCode {
        self.codes@[self.code_idx(p)]
    }

    /// A user row exists for this phone number.
    pub open spec fn has_user(self, p: Seq<u8>) -> bool {
        exists|i: int| 0 <= i < self.users@.len() && self.users@[i].phone_number@ == p
    }

    /// Index of the user row for `p`.
    pub open spec fn user_idx(self, p: Seq<u8>) -> int {
        choose|i: int| 0 <= i < self.users@.len() && self.users@[i].phone_number@ == p
    }

    /// The user row for `p`.
    pub open spec fn user_at(self, p: Seq<u8>) -> User {
        self.users@[self.user_idx(p)]
    }

    /// A device row exists for this device id.
    pub open spec fn has_device(self, id: u128) -> bool {
        exists|i: int| 0 <= i < self.devices@.len() && self.devices@[i].id == id
    }

    /// An unconsumed one-time prekey exists for this device.
    pub open spec fn has_unconsumed_prekey(self, device: u128) -> bool {
        exists|i: int|
            0 <= i < self.prekeys@.len() && self.prekeys@[i].device_id == device
                && !self.prekeys@[i].is_consumed
    }

    /// Under `wf`, the index found for a matching phone is the chosen one.
    pub proof fn lemma_code_idx(self, p: Seq<u8>, i: int)
        requires
            self.wf(),
            0 <= i < self.codes@.len(),
            self.codes@[i].phone_number@ == p,
        ensures
            self.has_code(p),
            self.code_idx(p) == i,
            self.code_at(p) == self.codes@[i],
    {
        assert(self.has_code(p));
        let j = self.code_idx(p);
        if j < i {
            assert(self.codes@[j].phone_number@ != self.codes@[i].phone_number@);
        } else if j > i {
            assert(self.codes@[i].phone_number@ != self.codes@[j].phone_number@);
        }
    }

    /// Under `wf`, the index found for a matching user phone is the chosen one.
    pub proof fn lemma_user_idx(self, p: Seq<u8>, i: int)
        requires
            self.wf(),
            0 <= i < self.users@.len(),
            self.users@[i].phone_number@ == p,
        ensures
            self.has_user(p),
            self.user_idx(p) == i,
            self.user_at(p) == self.users@[i],
    {
        assert(self.has_user(p));
        let j = self.user_idx(p);
        if j < i {
            assert(self.users@[j].phone_number@ != self.users@[i].phone_number@);
        } else if j > i {
            assert(self.users@[i].phone_number@ != self.users@[j].phone_number@);
        }
    }

    /// A fresh context: the signing secret and an empty store.
    pub fn new(jwt_secret: Vec<u8>) -> (r: AppState)
        ensures
            r.wf(),
            r.jwt_secret@ == jwt_secret@,
            r.codes@.len() == 0,
            r.users@.len() == 0,
            r.devices@.len() == 0,
            r.prekeys@.len() == 0,
    {
        AppState {
            jwt_secret,
            codes: Vec::new(),
            users: Vec::new(),
            devices: Vec::new(),
            prekeys: Vec::new(),
            next_prekey_id: 0,
        }
    }

    /// Point lookup: index of the pending code for this phone.
    pub(crate) fn find_code(&self, p: &[u8]) -> (r: Option<usize>)
        ensures
            match r {
                Some(i) => i < self.codes@.len() && self.codes@[i as int].phone_number@ == p@,
                None => !self.has_code(p@),
            },
    {
        let n = self.codes.len();
        let mut i: usize = 0;
        while i < n
            invariant
                0 <= i <= n,
                n == self.codes@.len(),
                forall|j: int| 0 <= j < i ==> self.codes@[j].phone_number@ != p@,
            decreases n - i,
        {
            if bytes_eq(self.codes[i].phone_number.as_slice(), p) {
                return Some(i);
            }
            i = i + 1;
        }
        None
    }

    /// Point lookup: index of the user row for this phone.
    pub(crate) fn find_user(&self, p: &[u8]) -> (r: Option<usize>)
        ensures
            match r {
                Some(i) => i < self.users@.len() && self.users@[i as int].phone_number@ == p@,
                None => !self.has_user(p@),
            },
    {
        let n = self.users.len();
        let mut i: usize = 0;
        while i < n
            invariant
                0 <= i <= n,
                n == self.users@.len(),
                forall|j: int| 0 <= j < i ==> self.users@[j].phone_number@ != p@,
            decreases n - i,
        {
            if bytes_eq(self.users[i].phone_number.as_slice(), p) {
                return Some(i);
            }
            i = i + 1;
        }
        None
    }

    /// Point lookup: index of the device row for this id.
    pub(crate) fn find_device(&self, id: u128) -> (r: Option<usize>)
        ensures
            match r {
                Some(i) => i < self.devices@.len() && self.devices@[i as int].id == id,
                None => !self.has_device(id),
            },
    {
        let n = self.devices.len();
        let mut i: usize = 0;
        while i < n
            invariant
                0 <= i <= n,
                n == self.devices@.len(),
                forall|j: int| 0 <= j < i ==> self.devices@[j].id != id,
            decreases n - i,
        {
            if self.devices[i].id == id {
                return Some(i);
            }
            i = i + 1;
        }
        None
    }

    /// The attempt counter of the pending code for a normalized phone, if any.
    pub fn attempt_count(&self, phone: &[u8]) -> (r: Option<u32>)
        requires
            self.wf(),
        ensures
            match r {
                Some(c) => self.has_code(phone@) && self.code_at(phone@).attempt_count == c,
                None => !self.has_code(phone@),
            },
    {
        match self.find_code(phone) {
            Some(i) => {
                proof {
                    self.lemma_code_idx(phone@, i as int);
                }
                Some(self.codes[i].attempt_count)
            },
            None => None,
        }
    }

    /// The stored code hash for a normalized phone, if a code is pending.
    pub fn code_hash_for(&self, phone: &[u8]) -> (r: Option<&String>)
        requires
            self.wf(),
        ensures
            match r {
                Some(h) => self.has_code(phone@) && self.code_at(phone@).code_hash@ == h@,
                None => !self.has_code(phone@),
            },
    {
        match self.find_code(phone) {
            Some(i) => {
                proof {
                    self.lemma_code_idx(phone@, i as int);
                }
                Some(&self.codes[i].code_hash)
            },
            None => None,
        }
    }

    /// The id of the user row for a normalized phone, if one exists.
    pub fn user_id_for(&self, phone: &[u8]) -> (r: Option<u128>)
        requires
            self.wf(),
        ensures
            match r {
                Some(u) => self.has_user(phone@) && self.user_at(phone@).id == u,
                None => !self.has_user(phone@),
            },
    {
        match self.find_user(phone) {
            Some(i) => {
                proof {
                    self.lemma_user_idx(phone@, i as int);
                }
                Some(self.users[i].id)
            },
            None => None,
        }
    }
}

/// Byte-string equality, element by element.
pub fn bytes_eq(a: &[u8], b: &[u8]) -> (r: bool)
    ensures
        r == (a@ == b@),
{
    if a.len() != b.len() {
        return false;
    }
    let n = a.len();
    let mut i: usize = 0;
    while i < n
        invariant
            0 <= i <= n,
            n == a@.len(),
            n == b@.len(),
            forall|j: int| 0 <= j < i ==> a@[j] == b@[j],
        decreases n - i,
    {
        if a[i] != b[i] {
            return false;
        }
        i = i + 1;
    }
    proof {
        assert(a@ =~= b@);
    }
    true
}

} // verus!
