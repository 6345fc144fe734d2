use vstd::prelude::*;

verus! {

/// Length of a public key of the `crypto_box` construction.
pub const PUBLIC_KEY_BYTES: usize = 32;

/// Length of a secret key of the `crypto_box` construction.
pub const SECRET_KEY_BYTES: usize = 32;

/// Length of a `crypto_box` nonce.
pub const NONCE_BYTES: usize = 24;

/// Length of the authentication tag that sealing adds to a plaintext.
pub const MAC_BYTES: usize = 16;

/// A 32-byte public key.
pub struct PublicKey(pub [u8; PUBLIC_KEY_BYTES]);

impl View for PublicKey {
    type V = Seq<u8>;

    open spec fn view(&self) -> Seq<u8> {
        self.0@
    }
}

impl PublicKey {
    pub fn key(&self) -> (r: &[u8; PUBLIC_KEY_BYTES])
        ensures
            r@ == self@,
    {
        &self.0
    }

    pub fn new(k: [u8; PUBLIC_KEY_BYTES]) -> (r: Self)
        ensures
            r@ == k@,
    {
        PublicKey(k)
    }

    /// A copy of the key.
    pub fn duplicate(&self) -> (r: Self)
        ensures
            r@ == self@,
    {
        PublicKey(self.0)
    }

    /// Whether both keys hold the same bytes.
    pub fn same_as(&self, other: &PublicKey) -> (r: bool)
        ensures
            r == (self@ == other@),
    {
        let mut i: usize = 0;
        while i < PUBLIC_KEY_BYTES
            invariant
                0 <= i <= PUBLIC_KEY_BYTES,
                self@.len() == PUBLIC_KEY_BYTES,
                other@.len() == PUBLIC_KEY_BYTES,
                forall|j: int| 0 <= j < i ==> self@[j] == other@[j],
            decreases PUBLIC_KEY_BYTES - i,
        {
            if self.0[i] != other.0[i] {
                return false;
            }
            i = i + 1;
        }
        assert(self@ =~= other@);
        true
    }
}

/// A 32-byte secret key.
pub struct SecretKey(pub [u8; SECRET_KEY_BYTES]);

impl View for SecretKey {
    type V = Seq<u8>;

    open spec fn view(&self) -> Seq<u8> {
        self.0@
    }
}

impl SecretKey {
    pub fn key(&self) -> (r: &[u8; SECRET_KEY_BYTES])
        ensures
            r@ == self@,
    {
        &self.0
    }

    pub fn new(k: [u8; SECRET_KEY_BYTES]) -> (r: Self)
        ensures
            r@ == k@,
    {
        SecretKey(k)
    }
}

/// A 24-byte nonce.
pub struct Nonce(pub [u8; NONCE_BYTES]);

impl View for Nonce {
    type V = Seq<u8>;

    open spec fn view(&self) -> Seq<u8> {
        self.0@
    }
}

impl Nonce {
    pub fn new(n: [u8; NONCE_BYTES]) -> (r: Self)
        ensures
            r@ == n@,
    {
        Nonce(n)
    }

    pub fn value(&self) -> (r: &[u8; NONCE_BYTES])
        ensures
            r@ == self@,
    {
        &self.0
    }
}

/// The outcome of a failed authentication: the ciphertext, nonce or keys
/// do not match, or the ciphertext is too short to carry a tag.
#[derive(Clone, Copy, Debug, PartialEq, Eq, Structural)]
pub struct AuthFailure;

/// Length of the ciphertext that sealing a plaintext of `plaintext_len` bytes produces.
pub fn ciphertext_len(plaintext_len: usize) -> (r: usize)
    requires
        plaintext_len + MAC_BYTES <= usize::MAX,
    ensures
        r == plaintext_len + MAC_BYTES,
{
    plaintext_len + MAC_BYTES
}

/// Length of the plaintext inside a ciphertext of `ciphertext_len` bytes;
/// a ciphertext shorter than the tag is rejected before any opening is tried.
pub fn plaintext_len(ciphertext_len: usize) -> (r: Result<usize, AuthFailure>)
    ensures
        ciphertext_len < MAC_BYTES <==> r is Err,
        r is Ok ==> r->Ok_0 == ciphertext_len - MAC_BYTES,
{
    if ciphertext_len < MAC_BYTES {
        Err(AuthFailure)
    } else {
        Ok(ciphertext_len - MAC_BYTES)
    }
}

/// Interprets the status that opening returned: zero means the tag verified
/// and `plaintext` holds the message; anything else yields no plaintext at all.
pub fn open_outcome(status: i32, plaintext: Vec<u8>) -> (r: Result<Vec<u8>, AuthFailure>)
    ensures
        status == 0 <==> r is Ok,
        r is Ok ==> r->Ok_0@ == plaintext@,
{
    if status == 0 {
        Ok(plaintext)
    } else {
        Err(AuthFailure)
    }
}

/// Copies a vector of exactly `N` bytes into an array.
pub fn to_array<const N: usize>(v: Vec<u8>) -> (r: [u8; N])
    requires
        v@.len() == N,
    ensures
        r@ == v@,
{
    let mut a: [u8; N] = [0u8; N];
    let mut i: usize = 0;
    while i < N
        invariant
            0 <= i <= N,
            v@.len() == N,
            a@.len() == N,
            forall|j: int| 0 <= j < i ==> a@[j] == v@[j],
        decreases N - i,
    {
        a[i] = v[i];
        i = i + 1;
    }
    assert(a@ =~= v@);
    a
}

} // verus!
