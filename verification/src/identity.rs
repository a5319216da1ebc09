//! A device's Ed25519 identity, its certificates, and the contacts it
//! knows, keyed by their identity strings.
use vstd::prelude::*;
use crate::bytes;
use crate::primitives;
use crate::text;

verus! {

/// A device's certificate.
#[derive(Debug)]
pub struct DeviceCertificate {
    pub device_id: String,
    pub device_name: String,
    pub public_key: Vec<u8>,
    pub account_pubkey: Vec<u8>,
    pub signature: Vec<u8>,
    pub created_at: i64,
    pub expires_at: Option<i64>,
}

/// An account's certificate.
#[derive(Debug)]
pub struct AccountCertificate {
    pub account_id: String,
    pub ca_pubkey: Vec<u8>,
    pub account_pubkey: Vec<u8>,
    pub signature: Vec<u8>,
    pub created_at: i64,
    pub expires_at: Option<i64>,
}

/// A device identity: an Ed25519 key pair (the 32-byte secret and public
/// keys) and the device's certificates.
#[derive(Debug)]
pub struct Identity {
    pub signing_key: [u8; 32],
    pub verifying_key: [u8; 32],
    pub device_id: String,
    pub device_name: String,
    pub device_cert: DeviceCertificate,
    pub account_cert: Option<AccountCertificate>,
}

/// Why a signature was refused.
#[derive(Debug, Clone, Copy, PartialEq, Eq, Structural)]
pub enum IdentityError {
    /// The signature is not 64 bytes long.
    SignatureLength,
    /// The signature does not verify.
    BadSignature,
}

/// Whether two device certificates hold the same values.
pub open spec fn same_device_cert(a: DeviceCertificate, b: DeviceCertificate) -> bool {
    &&& a.device_id@ == b.device_id@ && a.device_name@ == b.device_name@
    &&& a.public_key@ == b.public_key@ && a.account_pubkey@ == b.account_pubkey@
    &&& a.signature@ == b.signature@ && a.created_at == b.created_at && a.expires_at == b.expires_at
}

/// Whether two account certificates hold the same values.
pub open spec fn same_account_cert(a: AccountCertificate, b: AccountCertificate) -> bool {
    &&& a.account_id@ == b.account_id@ && a.ca_pubkey@ == b.ca_pubkey@
    &&& a.account_pubkey@ == b.account_pubkey@ && a.signature@ == b.signature@
    &&& a.created_at == b.created_at && a.expires_at == b.expires_at
}

/// Whether two identities hold the same values.
pub open spec fn same_identity(a: Identity, b: Identity) -> bool {
    &&& a.signing_key@ == b.signing_key@ && a.verifying_key@ == b.verifying_key@
    &&& a.device_id@ == b.device_id@ && a.device_name@ == b.device_name@
    &&& same_device_cert(a.device_cert, b.device_cert)
    &&& match (a.account_cert, b.account_cert) {
        (Some(x), Some(y)) => same_account_cert(x, y),
        (None, None) => true,
        _ => false,
    }
}

fn copy_bytes(v: &Vec<u8>) -> (r: Vec<u8>)
    ensures
        r@ == v@,
{
    let r = bytes::copy_range(v.as_slice(), 0, v.len());
    assert(r@ =~= v@);
    r
}

/// A copy of a device certificate.
pub fn copy_device_cert(c: &DeviceCertificate) -> (r: DeviceCertificate)
    ensures
        same_device_cert(r, *c),
{
    DeviceCertificate {
        device_id: text::copy_string(&c.device_id),
        device_name: text::copy_string(&c.device_name),
        public_key: copy_bytes(&c.public_key),
        account_pubkey: copy_bytes(&c.account_pubkey),
        signature: copy_bytes(&c.signature),
        created_at: c.created_at,
        expires_at: c.expires_at,
    }
}

/// A copy of an account certificate.
pub fn copy_account_cert(c: &AccountCertificate) -> (r: AccountCertificate)
    ensures
        same_account_cert(r, *c),
{
    AccountCertificate {
        account_id: text::copy_string(&c.account_id),
        ca_pubkey: copy_bytes(&c.ca_pubkey),
        account_pubkey: copy_bytes(&c.account_pubkey),
        signature: copy_bytes(&c.signature),
        created_at: c.created_at,
        expires_at: c.expires_at,
    }
}

/// A copy of an identity.
pub fn copy_identity(i: &Identity) -> (r: Identity)
    ensures
        same_identity(r, *i),
{
    Identity {
        signing_key: i.signing_key,
        verifying_key: i.verifying_key,
        device_id: text::copy_string(&i.device_id),
        device_name: text::copy_string(&i.device_name),
        device_cert: copy_device_cert(&i.device_cert),
        account_cert: match &i.account_cert {
            Some(a) => Some(copy_account_cert(a)),
            None => None,
        },
    }
}

impl Identity {
    /// A fresh identity named `device_name`: a random Ed25519 key pair, a
    /// random device id, and a self-issued device certificate created now
    /// that carries the public key, with no account key, no signature and
    /// no expiry. There is no account certificate.
    pub fn generate(device_name: String) -> (r: Result<Self, IdentityError>)
        ensures
            r matches Ok(id) && {
                &&& id.verifying_key@ == primitives::ed25519_public_key(id.signing_key@)
                &&& id.device_name@ == device_name@
                &&& id.device_cert.device_id@ == id.device_id@
                &&& id.device_cert.device_name@ == device_name@
                &&& id.device_cert.public_key@ == id.verifying_key@
                &&& id.device_cert.account_pubkey@.len() == 0
                &&& id.device_cert.signature@.len() == 0
                &&& id.device_cert.expires_at is None
                &&& id.account_cert is None
            },
    {
        let signing_key = primitives::random_bytes32();
        let verifying_key = primitives::ed25519_public(&signing_key);
        let device_id = primitives::uuid_v4();
        let now = crate::messaging::protocol::now_secs();
        let public_key = bytes::copy_range(&verifying_key, 0, 32);
        assert(public_key@ =~= verifying_key@);
        let device_cert = DeviceCertificate {
            device_id: text::copy_string(&device_id),
            device_name,
            public_key,
            account_pubkey: Vec::new(),
            signature: Vec::new(),
            created_at: now,
            expires_at: None,
        };
        Ok(Identity {
            signing_key,
            verifying_key,
            device_id,
            device_name: text::copy_string(&device_cert.device_name),
            device_cert,
            account_cert: None,
        })
    }

    /// The identity string: the public key in URL-safe base64 without
    /// padding.
    pub fn identity_string(&self) -> (r: String)
        ensures
            r@ == primitives::base64url_nopad(self.verifying_key@),
    {
        primitives::base64url_encode(&self.verifying_key)
    }

    /// The Ed25519 signature of `msg`.
    pub fn sign(&self, msg: &[u8]) -> (r: Vec<u8>)
        ensures
            r@ == primitives::ed25519_signature(self.signing_key@, msg@),
            r@.len() == 64,
    {
        let s = primitives::ed25519_sign(&self.signing_key, msg);
        let v = bytes::copy_range(&s, 0, 64);
        assert(v@ =~= s@);
        v
    }

    /// Check a strict Ed25519 signature of `msg` under the identity's
    /// public key.
    pub fn verify(&self, msg: &[u8], sig: &[u8]) -> (r: Result<(), IdentityError>)
        ensures
            sig@.len() != 64 ==> r == Err::<(), IdentityError>(IdentityError::SignatureLength),
            sig@.len() == 64 ==> (r is Ok <==> primitives::ed25519_accepts(self.verifying_key@, msg@, sig@)),
            sig@.len() == 64 && !primitives::ed25519_accepts(self.verifying_key@, msg@, sig@)
                ==> r == Err::<(), IdentityError>(IdentityError::BadSignature),
    {
        if sig.len() != 64 {
            return Err(IdentityError::SignatureLength);
        }
        let s = bytes::take64(sig, 0);
        assert(s@ =~= sig@);
        if primitives::ed25519_verify_strict(&self.verifying_key, msg, &s) {
            Ok(())
        } else {
            Err(IdentityError::BadSignature)
        }
    }
}

/// A contact, under its identity string.
#[derive(Debug)]
pub struct Contact {
    pub identity_string: String,
    pub display_name: String,
    pub device_cert: DeviceCertificate,
    pub added_at: i64,
    pub verified: bool,
    pub blocked: bool,
}

/// Whether two contacts hold the same values.
pub open spec fn same_contact(a: Contact, b: Contact) -> bool {
    &&& a.identity_string@ == b.identity_string@ && a.display_name@ == b.display_name@
    &&& same_device_cert(a.device_cert, b.device_cert)
    &&& a.added_at == b.added_at && a.verified == b.verified && a.blocked == b.blocked
}

/// A copy of a contact.
pub fn copy_contact(c: &Contact) -> (r: Contact)
    ensures
        same_contact(r, *c),
{
    Contact {
        identity_string: text::copy_string(&c.identity_string),
        display_name: text::copy_string(&c.display_name),
        device_cert: copy_device_cert(&c.device_cert),
        added_at: c.added_at,
        verified: c.verified,
        blocked: c.blocked,
    }
}

/// The position of the contact with identity string `key`, or -1.
pub open spec fn key_pos(cs: Seq<Contact>, key: Seq<char>) -> int
    decreases cs.len(),
{
    if cs.len() == 0 {
        -1
    } else if cs.last().identity_string@ == key {
        cs.len() - 1
    } else {
        key_pos(cs.drop_last(), key)
    }
}

pub proof fn lemma_key_pos(cs: Seq<Contact>, key: Seq<char>)
    ensures
        -1 <= key_pos(cs, key) < cs.len(),
        key_pos(cs, key) >= 0 ==> cs[key_pos(cs, key)].identity_string@ == key,
        key_pos(cs, key) == -1 <==> forall|j: int| 0 <= j < cs.len() ==> cs[j].identity_string@ != key,
    decreases cs.len(),
{
    if cs.len() > 0 {
        lemma_key_pos(cs.drop_last(), key);
        assert forall|j: int| 0 <= j < cs.len() - 1 implies cs.drop_last()[j] == cs[j] by {}
    }
}

/// No two contacts share an identity string.
pub open spec fn keys_unique(cs: Seq<Contact>) -> bool {
    forall|i: int, j: int| 0 <= i < j < cs.len() ==> cs[i].identity_string@ != cs[j].identity_string@
}

/// The device identity and the contacts it keeps.
pub struct IdentityManager {
    identity: Option<Identity>,
    contacts: Vec<Contact>,
}

impl IdentityManager {
    /// The contacts, in the order they were first added.
    pub closed spec fn spec_contacts(&self) -> Seq<Contact> {
        self.contacts@
    }

    /// The identity, if one was installed.
    pub closed spec fn spec_identity(&self) -> Option<Identity> {
        self.identity
    }

    /// Whether contacts are keyed by distinct identity strings.
    pub open spec fn wf(&self) -> bool {
        keys_unique(self.spec_contacts())
    }

    /// A manager without identity or contacts.
    pub fn new() -> (r: Self)
        ensures
            r.wf(),
            r.spec_identity() is None,
            r.spec_contacts() == Seq::<Contact>::empty(),
    {
        IdentityManager { identity: None, contacts: Vec::new() }
    }

    /// Install the device identity (generated or loaded by the caller).
    pub fn set_identity(&mut self, identity: Identity)
        ensures
            final(self).spec_identity() == Some(identity),
            final(self).spec_contacts() == old(self).spec_contacts(),
    {
        self.identity = Some(identity);
    }

    /// A copy of the identity, if any.
    pub fn get_identity(&self) -> (r: Option<Identity>)
        ensures
            match (r, self.spec_identity()) {
                (Some(a), Some(b)) => same_identity(a, b),
                (None, None) => true,
                _ => false,
            },
    {
        match &self.identity {
            Some(i) => Some(copy_identity(i)),
            None => None,
        }
    }

    /// The identity string of the identity, if any.
    pub fn get_identity_string(&self) -> (r: Option<String>)
        ensures
            match self.spec_identity() {
                Some(i) => r matches Some(s) && s@ == primitives::base64url_nopad(i.verifying_key@),
                None => r is None,
            },
    {
        match &self.identity {
            Some(i) => Some(i.identity_string()),
            None => None,
        }
    }

    fn find(&self, key: &str) -> (r: Option<usize>)
        ensures
            match r {
                None => key_pos(self.contacts@, key@) == -1,
                Some(i) => i == key_pos(self.contacts@, key@) && i < self.contacts@.len(),
            },
    {
        proof { lemma_key_pos(self.contacts@, key@); }
        let mut i: usize = self.contacts.len();
        while i > 0
            invariant
                i <= self.contacts@.len(),
                key_pos(self.contacts@, key@) < i,
            decreases i,
        {
            let ghost before = i;
            i = i - 1;
            if primitives::str_eq(self.contacts[i].identity_string.as_str(), key) {
                proof { lemma_key_pos_last(self.contacts@, key@, i as int); }
                return Some(i);
            }
            proof { lemma_key_pos_skip(self.contacts@, key@, i as int); }
        }
        None
    }

    /// Store a contact under its identity string, replacing the contact
    /// already stored under it.
    pub fn add_contact(&mut self, contact: Contact)
        requires
            old(self).wf(),
        ensures
            final(self).wf(),
            final(self).spec_identity() == old(self).spec_identity(),
            ({
                let i = key_pos(old(self).spec_contacts(), contact.identity_string@);
                final(self).spec_contacts() == if i >= 0 {
                    old(self).spec_contacts().update(i, contact)
                } else {
                    old(self).spec_contacts().push(contact)
                }
            }),
    {
        proof { lemma_key_pos(self.contacts@, contact.identity_string@); }
        match self.find(contact.identity_string.as_str()) {
            Some(i) => {
                let mut c = contact;
                self.contacts.set_and_swap(i, &mut c);
            },
            None => {
                self.contacts.push(contact);
            },
        }
    }

    /// Forget the contact stored under `identity_string`, if any.
    pub fn remove_contact(&mut self, identity_string: &str)
        requires
            old(self).wf(),
        ensures
            final(self).wf(),
            final(self).spec_identity() == old(self).spec_identity(),
            ({
                let i = key_pos(old(self).spec_contacts(), identity_string@);
                final(self).spec_contacts() == if i >= 0 {
                    old(self).spec_contacts().remove(i)
                } else {
                    old(self).spec_contacts()
                }
            }),
            key_pos(final(self).spec_contacts(), identity_string@) == -1,
    {
        proof { lemma_key_pos(self.contacts@, identity_string@); }
        match self.find(identity_string) {
            Some(i) => {
                let _c = self.contacts.remove(i);
                proof { lemma_key_pos(self.contacts@, identity_string@); }
            },
            None => {},
        }
    }

    /// Copies of all contacts.
    pub fn get_contacts(&self) -> (r: Vec<Contact>)
        ensures
            r@.len() == self.spec_contacts().len(),
            forall|j: int| 0 <= j < r@.len() ==> same_contact(#[trigger] r@[j], self.spec_contacts()[j]),
    {
        let mut r: Vec<Contact> = Vec::new();
        let mut i: usize = 0;
        while i < self.contacts.len()
            invariant
                i <= self.contacts@.len(),
                r@.len() == i,
                forall|j: int| 0 <= j < i ==> same_contact(#[trigger] r@[j], self.contacts@[j]),
            decreases self.contacts@.len() - i,
        {
            r.push(copy_contact(&self.contacts[i]));
            i = i + 1;
        }
        r
    }

    /// A copy of the contact stored under `identity_string`, if any.
    pub fn get_contact(&self, identity_string: &str) -> (r: Option<Contact>)
        ensures
            ({
                let i = key_pos(self.spec_contacts(), identity_string@);
                if i < 0 { r is None } else { r matches Some(c) && same_contact(c, self.spec_contacts()[i]) }
            }),
    {
        match self.find(identity_string) {
            Some(i) => Some(copy_contact(&self.contacts[i])),
            None => None,
        }
    }
}

proof fn lemma_key_pos_last(cs: Seq<Contact>, key: Seq<char>, i: int)
    requires
        0 <= i < cs.len(),
        key_pos(cs, key) <= i,
        cs[i].identity_string@ == key,
    ensures
        key_pos(cs, key) == i,
    decreases cs.len(),
{
    if i < cs.len() - 1 {
        assert(cs.last().identity_string@ != key || key_pos(cs, key) == cs.len() - 1);
        lemma_key_pos(cs.drop_last(), key);
        lemma_key_pos_last(cs.drop_last(), key, i);
    }
}

proof fn lemma_key_pos_skip(cs: Seq<Contact>, key: Seq<char>, i: int)
    requires
        0 <= i < cs.len(),
        key_pos(cs, key) <= i,
        cs[i].identity_string@ != key,
    ensures
        key_pos(cs, key) < i,
    decreases cs.len(),
{
    lemma_key_pos(cs.drop_last(), key);
    if i < cs.len() - 1 {
        assert(cs.drop_last()[i] == cs[i]);
        lemma_key_pos_skip(cs.drop_last(), key, i);
    }
}

} // verus!
