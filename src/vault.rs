//! The vault: salt, cost parameters, a verifier record and the table of
//! sealed service records, with the operations that unlock and change it.
//! Reading and writing the vault file is left to the caller.

use vstd::prelude::*;
use vstd::string::StringSliceAdditionalSpecFns;
use crate::assoc::{
    assoc_map,
    entry_names,
    lemma_assoc_map_at,
    lemma_assoc_map_dom,
    lemma_assoc_map_remove,
};
use crate::bundle::{bundle_decoded, bundle_fields, bundle_from_json, bundle_to_json, SecretBundle};
use crate::codec::{base64_decoded, decode_b64, encode_b64, json_object_text};
use crate::crypto::{
    derived_key,
    drop_key,
    encrypt,
    open_record,
    opened_record,
    random_bytes,
    zeroize_vec,
    KdfParams,
    MAX_PLAINTEXT_LEN,
};
use crate::error::VaultError;

verus! {

/// A sealed payload: base64 nonce and base64 ciphertext (tag included).
#[derive(Clone, Debug)]
pub struct EncRecord {
    pub nonce_b64: String,
    pub ct_b64: String,
}

/// The whole persisted state of one vault. Service names are unique.
pub struct Vault {
    pub salt_b64: String,
    pub kdf: KdfParams,
    pub secrets: Vec<(String, EncRecord)>,
    pub verifier: EncRecord,
}

/// Length in bytes of the salt drawn at `init`.
pub const SALT_LEN: usize = 16;

/// The plaintext sealed in the verifier record: "vault-check".
pub open spec fn verifier_sentinel() -> Seq<u8> {
    seq![118u8, 97, 117, 108, 116, 45, 99, 104, 101, 99, 107]
}

/// The cost parameters a new vault gets.
pub open spec fn initial_kdf() -> KdfParams {
    KdfParams { m_cost_kib: 19456, t_cost: 2, p_cost: 1 }
}

fn verifier_plaintext() -> (r: Vec<u8>)
    ensures
        r@ == verifier_sentinel(),
{
    let r: Vec<u8> = vec![118u8, 97, 117, 108, 116, 45, 99, 104, 101, 99, 107];
    assert(r@ =~= verifier_sentinel());
    r
}

fn bytes_equal(a: &[u8], b: &[u8]) -> (r: bool)
    ensures
        r == (a@ == b@),
{
    if a.len() != b.len() {
        return false;
    }
    let mut i: usize = 0;
    while i < a.len()
        invariant
            a@.len() == b@.len(),
            0 <= i <= a@.len(),
            forall|j: int| 0 <= j < i ==> a@[j] == b@[j],
        decreases a.len() - i,
    {
        if a[i] != b[i] {
            return false;
        }
        i = i + 1;
    }
    assert(a@ =~= b@);
    true
}

/// A record that opens under a key to the serialized form of a bundle.
pub open spec fn seals_bundle(key: Seq<u8>, rec: EncRecord, b: (Seq<char>, Seq<char>, Option<Seq<char>>)) -> bool {
    &&& opened_record(key, rec.nonce_b64@, rec.ct_b64@) == Some(json_object_text(bundle_fields(b)))
    &&& bundle_decoded(json_object_text(bundle_fields(b))) == Some(b)
}

impl Vault {
    /// Service names are unique.
    pub open spec fn wf(&self) -> bool {
        entry_names(self.secrets@).no_duplicates()
    }

    /// The service names, in table order.
    pub open spec fn service_names(&self) -> Seq<Seq<char>> {
        entry_names(self.secrets@)
    }

    /// The table as a map from service name to sealed record.
    pub open spec fn records(&self) -> Map<Seq<char>, EncRecord> {
        assoc_map(self.secrets@)
    }

    /// Salt, costs and verifier: all that a password check reads.
    pub open spec fn same_lock(&self, other: &Vault) -> bool {
        &&& self.salt_b64@ == other.salt_b64@
        &&& self.kdf == other.kdf
        &&& self.verifier.nonce_b64@ == other.verifier.nonce_b64@
        &&& self.verifier.ct_b64@ == other.verifier.ct_b64@
    }

    /// The key a password derives under this vault's salt and costs.
    pub open spec fn key_for(&self, password: Seq<u8>) -> Result<Seq<u8>, VaultError> {
        match base64_decoded(self.salt_b64@) {
            Some(salt) => derived_key(password, salt, self.kdf),
            None => Err(VaultError::CorruptVault),
        }
    }

    /// Whether a key opens the verifier record to the sentinel.
    pub open spec fn key_opens_verifier(&self, key: Seq<u8>) -> bool {
        opened_record(key, self.verifier.nonce_b64@, self.verifier.ct_b64@) == Some(
            verifier_sentinel(),
        )
    }

    /// The vault key if the password is the master password; else why not.
    pub open spec fn unlock(&self, password: Seq<u8>) -> Result<Seq<u8>, VaultError> {
        match self.key_for(password) {
            Ok(key) => if self.key_opens_verifier(key) {
                Ok(key)
            } else {
                Err(VaultError::IncorrectPassword)
            },
            Err(e) => Err(e),
        }
    }

    /// What `get_service` returns.
    pub open spec fn retrieve(&self, password: Seq<u8>, service: Seq<char>) -> Result<
        (Seq<char>, Seq<char>, Option<Seq<char>>),
        VaultError,
    > {
        match self.unlock(password) {
            Err(e) => Err(e),
            Ok(key) => if !self.records().contains_key(service) {
                Err(VaultError::ServiceNotFound)
            } else {
                let rec = self.records()[service];
                match opened_record(key, rec.nonce_b64@, rec.ct_b64@) {
                    None => Err(VaultError::AuthenticationFailure),
                    Some(plain) => match bundle_decoded(plain) {
                        Some(b) => Ok(b),
                        None => Err(VaultError::CorruptVault),
                    },
                }
            },
        }
    }

    /// Creates a vault for a master password: a fresh random salt, the
    /// initial costs, a verifier sealed under the derived key, no services.
    pub fn init(master_password: &str) -> (r: Result<Vault, VaultError>)
        ensures
            r is Ok <==> master_password.spec_bytes().len() <= 0xFFFF_FFFF,
            r matches Err(e) ==> e == VaultError::InvalidParameters,
            r matches Ok(v) ==> {
                &&& v.wf()
                &&& v.secrets@.len() == 0
                &&& v.kdf == initial_kdf()
                &&& v.unlock(master_password.spec_bytes()) is Ok
                &&& base64_decoded(v.salt_b64@) matches Some(salt) && salt.len() == SALT_LEN
            },
    {
        let kdf = KdfParams { m_cost_kib: 19456, t_cost: 2, p_cost: 1 };
        let mut salt = random_bytes(SALT_LEN);
        let salt_b64 = encode_b64(salt.as_slice());
        let key = match crate::crypto::derive_key(master_password, salt.as_slice(), kdf) {
            Ok(k) => k,
            Err(e) => {
                crate::crypto::zeroize_bytes(salt.as_mut_slice());
                return Err(e);
            },
        };
        crate::crypto::zeroize_bytes(salt.as_mut_slice());
        let sentinel = verifier_plaintext();
        let sealed = encrypt(&key, sentinel.as_slice());
        drop_key(key);
        let (nonce_b64, ct_b64) = match sealed {
            Ok(x) => x,
            Err(e) => return Err(e),
        };
        let vault = Vault {
            salt_b64,
            kdf,
            secrets: Vec::new(),
            verifier: EncRecord { nonce_b64, ct_b64 },
        };
        assert(entry_names(vault.secrets@) =~= Seq::<Seq<char>>::empty());
        Ok(vault)
    }

    /// Derives the vault key from a password.
    pub fn derive_key(&self, master_password: &str) -> (r: Result<[u8; 32], VaultError>)
        ensures
            match r {
                Ok(k) => self.key_for(master_password.spec_bytes()) == Ok::<
                    Seq<u8>,
                    VaultError,
                >(k@),
                Err(e) => self.key_for(master_password.spec_bytes()) == Err::<
                    Seq<u8>,
                    VaultError,
                >(e),
            },
    {
        let salt = match decode_b64(self.salt_b64.as_str()) {
            Ok(s) => s,
            Err(e) => return Err(e),
        };
        crate::crypto::derive_key(master_password, salt.as_slice(), self.kdf)
    }

    /// Checks a key against the verifier record.
    pub fn verify_master(&self, key: &[u8; 32]) -> (r: Result<(), VaultError>)
        ensures
            r is Ok <==> self.key_opens_verifier(key@),
            r matches Err(e) ==> e == VaultError::IncorrectPassword,
    {
        match open_record(key, self.verifier.nonce_b64.as_str(), self.verifier.ct_b64.as_str()) {
            Ok(check) => {
                let sentinel = verifier_plaintext();
                let ok = bytes_equal(check.as_slice(), sentinel.as_slice());
                zeroize_vec(check);
                if ok {
                    Ok(())
                } else {
                    Err(VaultError::IncorrectPassword)
                }
            },
            Err(_) => Err(VaultError::IncorrectPassword),
        }
    }

    /// Succeeds exactly when the password is the master password.
    pub fn check_password(&self, master_password: &str) -> (r: Result<(), VaultError>)
        ensures
            r is Ok <==> self.unlock(master_password.spec_bytes()) is Ok,
            r matches Err(e) ==> self.unlock(master_password.spec_bytes()) == Err::<
                Seq<u8>,
                VaultError,
            >(e),
    {
        let key = match self.derive_key(master_password) {
            Ok(k) => k,
            Err(e) => return Err(e),
        };
        let r = self.verify_master(&key);
        drop_key(key);
        r
    }

    fn find_service(&self, service: &str) -> (r: Option<usize>)
        ensures
            match r {
                Some(i) => i < self.secrets@.len() && self.secrets@[i as int].0@ == service@,
                None => !self.service_names().contains(service@),
            },
    {
        let name = service.to_owned();
        let mut i: usize = 0;
        while i < self.secrets.len()
            invariant
                0 <= i <= self.secrets@.len(),
                name@ == service@,
                forall|j: int| 0 <= j < i ==> self.secrets@[j].0@ != service@,
            decreases self.secrets.len() - i,
        {
            if self.secrets[i].0 == name {
                return Some(i);
            }
            i = i + 1;
        }
        assert(!self.service_names().contains(service@)) by {
            if self.service_names().contains(service@) {
                let j = choose|j: int|
                    0 <= j < self.service_names().len() && self.service_names()[j] == service@;
                assert(self.secrets@[j].0@ == service@);
            }
        }
        None
    }

    /// Lists the service names, in table order.
    pub fn list_services(&self, master_password: &str) -> (r: Result<Vec<String>, VaultError>)
        ensures
            r is Ok <==> self.unlock(master_password.spec_bytes()) is Ok,
            r matches Ok(names) ==> names@.map_values(|s: String| s@) == self.service_names(),
            r matches Err(e) ==> self.unlock(master_password.spec_bytes()) == Err::<
                Seq<u8>,
                VaultError,
            >(e),
    {
        match self.check_password(master_password) {
            Ok(()) => {},
            Err(e) => return Err(e),
        }
        let mut names: Vec<String> = Vec::new();
        let mut i: usize = 0;
        while i < self.secrets.len()
            invariant
                0 <= i <= self.secrets@.len(),
                names@.len() == i,
                names@.map_values(|s: String| s@) == self.service_names().take(i as int),
            decreases self.secrets.len() - i,
        {
            let ghost prev = names@;
            let name = self.secrets[i].0.clone();
            names.push(name);
            assert forall|j: int| 0 <= j < i implies #[trigger] names@[j]@ == self.service_names()[j] by {
                assert(names@[j] == prev[j]);
                assert(prev.map_values(|s: String| s@)[j] == self.service_names().take(i as int)[j]);
            }
            assert(names@[i as int]@ == self.service_names()[i as int]);
            i = i + 1;
            assert(names@.map_values(|s: String| s@) =~= self.service_names().take(i as int));
        }
        assert(self.service_names().take(i as int) =~= self.service_names());
        Ok(names)
    }

    /// Opens the bundle stored for a service.
    pub fn get_service(&self, master_password: &str, service: &str) -> (r: Result<
        SecretBundle,
        VaultError,
    >)
        requires
            self.wf(),
        ensures
            match r {
                Ok(b) => self.retrieve(master_password.spec_bytes(), service@) == Ok::<
                    (Seq<char>, Seq<char>, Option<Seq<char>>),
                    VaultError,
                >(b@),
                Err(e) => self.retrieve(master_password.spec_bytes(), service@) == Err::<
                    (Seq<char>, Seq<char>, Option<Seq<char>>),
                    VaultError,
                >(e),
            },
    {
        match self.check_password(master_password) {
            Ok(()) => {},
            Err(e) => return Err(e),
        }
        let i = match self.find_service(service) {
            Some(i) => i,
            None => {
                proof {
                    lemma_assoc_map_dom(self.secrets@);
                }
                return Err(VaultError::ServiceNotFound);
            },
        };
        proof {
            lemma_assoc_map_at(self.secrets@, i as int);
        }
        let key = match self.derive_key(master_password) {
            Ok(k) => k,
            Err(e) => return Err(e),
        };
        let rec = &self.secrets[i].1;
        let plain = match open_record(&key, rec.nonce_b64.as_str(), rec.ct_b64.as_str()) {
            Ok(p) => p,
            Err(e) => {
                drop_key(key);
                return Err(e);
            },
        };
        drop_key(key);
        let bundle = bundle_from_json(plain.as_slice());
        zeroize_vec(plain);
        bundle
    }

    /// Puts a record under a service name, replacing any record there.
    fn put_record(&mut self, service: &str, rec: EncRecord)
        requires
            old(self).wf(),
        ensures
            final(self).wf(),
            final(self).same_lock(old(self)),
            final(self).records() == old(self).records().insert(service@, rec),
    {
        proof {
            lemma_assoc_map_dom(self.secrets@);
        }
        match self.find_service(service) {
            Some(i) => {
                proof {
                    lemma_assoc_map_remove(self.secrets@, i as int);
                }
                let ghost before = self.secrets@;
                self.secrets.remove(i);
                assert(!entry_names(self.secrets@).contains(service@)) by {
                    let names = entry_names(before);
                    assert(names[i as int] == service@);
                    assert(names.no_duplicates());
                    assert(entry_names(self.secrets@) == names.remove(i as int));
                    if entry_names(self.secrets@).contains(service@) {
                        let j = choose|j: int|
                            0 <= j < names.remove(i as int).len() && names.remove(i as int)[j]
                                == service@;
                        let j2 = if j < i { j } else { j + 1 };
                        assert(names.remove(i as int)[j] == names[j2]);
                        assert(j2 != i);
                        assert(names[j2] == names[i as int]);
                    }
                }
            },
            None => {},
        }
        let ghost mid = self.secrets@;
        self.secrets.push((service.to_owned(), rec));
        assert(self.secrets@.drop_last() =~= mid);
        assert(entry_names(self.secrets@) =~= entry_names(mid).push(service@));
        assert(self.records() =~= old(self).records().insert(service@, rec));
    }

    /// Seals a bundle under a service name, replacing any record there.
    pub fn add_service(&mut self, master_password: &str, service: &str, secret_bundle: &SecretBundle) -> (r: Result<
        (),
        VaultError,
    >)
        requires
            old(self).wf(),
        ensures
            final(self).wf(),
            r is Ok <==> old(self).unlock(master_password.spec_bytes()) is Ok && json_object_text(
                bundle_fields(secret_bundle@),
            ).len() <= MAX_PLAINTEXT_LEN,
            r is Err ==> *final(self) == *old(self),
            old(self).unlock(master_password.spec_bytes()) is Err ==> r == Err::<(), VaultError>(
                old(self).unlock(master_password.spec_bytes())->Err_0,
            ),
            old(self).unlock(master_password.spec_bytes()) is Ok ==> r is Err ==> r == Err::<
                (),
                VaultError,
            >(VaultError::EncryptionFailure),
            r is Ok ==> {
                let rec = final(self).records()[service@];
                let key = old(self).unlock(master_password.spec_bytes())->Ok_0;
                &&& final(self).same_lock(old(self))
                &&& final(self).records() == old(self).records().insert(service@, rec)
                &&& seals_bundle(key, rec, secret_bundle@)
            },
    {
        match self.check_password(master_password) {
            Ok(()) => {},
            Err(e) => return Err(e),
        }
        let key = match self.derive_key(master_password) {
            Ok(k) => k,
            Err(e) => return Err(e),
        };
        match self.verify_master(&key) {
            Ok(()) => {},
            Err(e) => {
                drop_key(key);
                return Err(e);
            },
        }
        let plaintext = match bundle_to_json(secret_bundle) {
            Ok(p) => p,
            Err(e) => {
                drop_key(key);
                return Err(e);
            },
        };
        let sealed = encrypt(&key, plaintext.as_slice());
        drop_key(key);
        zeroize_vec(plaintext);
        let (nonce_b64, ct_b64) = match sealed {
            Ok(x) => x,
            Err(e) => return Err(e),
        };
        let rec = EncRecord { nonce_b64, ct_b64 };
        self.put_record(service, rec);
        assert(self.records()[service@] == rec);
        Ok(())
    }

    /// Removes the record of a service.
    pub fn delete_service(&mut self, master_password: &str, service: &str) -> (r: Result<
        (),
        VaultError,
    >)
        requires
            old(self).wf(),
        ensures
            final(self).wf(),
            final(self).same_lock(old(self)),
            r is Ok <==> old(self).unlock(master_password.spec_bytes()) is Ok && old(
                self,
            ).records().contains_key(service@),
            r is Ok ==> final(self).records() == old(self).records().remove(service@),
            r matches Err(e) ==> *final(self) == *old(self),
            r matches Err(e) ==> old(self).unlock(master_password.spec_bytes()) is Ok ==> e
                == VaultError::ServiceNotFound,
            r matches Err(e) ==> old(self).unlock(master_password.spec_bytes()) is Err ==> old(
                self,
            ).unlock(master_password.spec_bytes()) == Err::<Seq<u8>, VaultError>(e),
    {
        match self.check_password(master_password) {
            Ok(()) => {},
            Err(e) => return Err(e),
        }
        proof {
            lemma_assoc_map_dom(self.secrets@);
        }
        match self.find_service(service) {
            Some(i) => {
                proof {
                    lemma_assoc_map_at(self.secrets@, i as int);
                    lemma_assoc_map_remove(self.secrets@, i as int);
                }
                self.secrets.remove(i);
                Ok(())
            },
            None => Err(VaultError::ServiceNotFound),
        }
    }
}

/// A password check reads only the salt, the costs and the verifier record:
/// two vaults that share them accept the same passwords and give the same
/// key. Checking a password again, also after services were added or
/// deleted, gives the same answer.
pub proof fn lemma_password_check_stable(a: &Vault, b: &Vault, password: Seq<u8>)
    requires
        a.same_lock(b),
    ensures
        a.unlock(password) == b.unlock(password),
{
}

/// After a service's record is deleted, looking it up fails with
/// `ServiceNotFound` and the service is no longer listed.
pub proof fn lemma_deleted_service_gone(
    before: &Vault,
    after: &Vault,
    password: Seq<u8>,
    service: Seq<char>,
)
    requires
        after.wf(),
        after.same_lock(before),
        after.records() == before.records().remove(service),
        before.unlock(password) is Ok,
    ensures
        after.retrieve(password, service) == Err::<
            (Seq<char>, Seq<char>, Option<Seq<char>>),
            VaultError,
        >(VaultError::ServiceNotFound),
        !after.service_names().contains(service),
{
    lemma_password_check_stable(after, before, password);
    lemma_assoc_map_dom(after.secrets@);
}

/// A bundle that `add_service` sealed under a service name comes back
/// unchanged from `get_service` with the same master password.
pub proof fn lemma_added_bundle_retrieved(
    before: &Vault,
    after: &Vault,
    password: Seq<u8>,
    service: Seq<char>,
    b: (Seq<char>, Seq<char>, Option<Seq<char>>),
)
    requires
        after.same_lock(before),
        before.unlock(password) is Ok,
        after.records().contains_key(service),
        seals_bundle(before.unlock(password)->Ok_0, after.records()[service], b),
    ensures
        after.retrieve(password, service) == Ok::<
            (Seq<char>, Seq<char>, Option<Seq<char>>),
            VaultError,
        >(b),
{
    lemma_password_check_stable(after, before, password);
}

/// Adding twice under one service name leaves only the second bundle: the
/// table is the first one with the second record put in, and a lookup gives
/// the second bundle.
pub proof fn lemma_second_add_wins(
    v0: &Vault,
    v1: &Vault,
    v2: &Vault,
    password: Seq<u8>,
    service: Seq<char>,
    first: EncRecord,
    second: EncRecord,
    b1: (Seq<char>, Seq<char>, Option<Seq<char>>),
    b2: (Seq<char>, Seq<char>, Option<Seq<char>>),
)
    requires
        v1.same_lock(v0),
        v2.same_lock(v1),
        v0.unlock(password) is Ok,
        v1.records() == v0.records().insert(service, first),
        seals_bundle(v0.unlock(password)->Ok_0, first, b1),
        v2.records() == v1.records().insert(service, second),
        seals_bundle(v1.unlock(password)->Ok_0, second, b2),
    ensures
        v2.records() == v0.records().insert(service, second),
        v2.retrieve(password, service) == Ok::<
            (Seq<char>, Seq<char>, Option<Seq<char>>),
            VaultError,
        >(b2),
{
    lemma_password_check_stable(v1, v0, password);
    assert(v2.records() =~= v0.records().insert(service, second));
    lemma_added_bundle_retrieved(v1, v2, password, service, b2);
}

} // verus!
