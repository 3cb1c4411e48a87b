//! The encryption collaborator: mode names, key derivation, and AES-256 in
//! counter mode with a random 16-byte nonce prefix.

use vstd::prelude::*;
use aes::Aes256;
use ctr::cipher::{KeyIvInit, StreamCipher};
use rand::rngs::OsRng;
use rand::RngCore;
use crate::text::{lower_of, lowercase, trim, trimmed_of};
use vstd::string::StringSliceAdditionalSpecFns;
use vstd::utf8::encode_utf8;

verus! {

/// The bytes of the nonce prefix.
pub const IV_LEN: usize = 16;

/// How a file is encrypted.
#[derive(Debug, Clone, Copy, PartialEq, Eq, Structural)]
pub enum CryptoMode {
    Aes256Ctr,
    Quantum,
}

/// Why encryption or decryption refused its input.
#[derive(Debug, Clone, Copy, PartialEq, Eq, Structural)]
pub enum CryptoError {
    /// No key material was given.
    EmptyKey,
    /// The data is shorter than its nonce prefix.
    MissingIv,
}

/// The mode a lower-cased name selects, or `fallback` for any other name.
pub open spec fn mode_named(lname: Seq<char>, fallback: CryptoMode) -> CryptoMode {
    if lname == "quantum"@ {
        CryptoMode::Quantum
    } else if lname == "aes"@ || lname == "aes256"@ || lname == "aes-ctr"@ {
        CryptoMode::Aes256Ctr
    } else {
        fallback
    }
}

/// The mode a configured setting selects: exactly "quantum" selects the
/// experimental cipher; anything else, or nothing, selects AES.
pub open spec fn mode_of_setting(setting: Option<Seq<char>>) -> CryptoMode {
    match setting {
        Some(s) => if s == "quantum"@ {
            CryptoMode::Quantum
        } else {
            CryptoMode::Aes256Ctr
        },
        None => CryptoMode::Aes256Ctr,
    }
}

/// The two strings hold the same characters.
fn same_text(a: &str, b: &str) -> (r: bool)
    ensures
        r == (a@ == b@),
{
    a.to_owned() == b.to_owned()
}

impl CryptoMode {
    /// The default mode for a configured setting, if one is set.
    pub fn from_setting(setting: Option<&str>) -> (r: CryptoMode)
        ensures
            r == mode_of_setting(
                match setting {
                    Some(s) => Some(s@),
                    None => None,
                },
            ),
    {
        match setting {
            Some(s) => if same_text(s, "quantum") {
                CryptoMode::Quantum
            } else {
                CryptoMode::Aes256Ctr
            },
            None => CryptoMode::Aes256Ctr,
        }
    }

    /// The mode an already lower-cased name selects, or `fallback`.
    pub fn from_lowered(lname: &str, fallback: CryptoMode) -> (r: CryptoMode)
        ensures
            r == mode_named(lname@, fallback),
    {
        if same_text(lname, "quantum") {
            CryptoMode::Quantum
        } else if same_text(lname, "aes") || same_text(lname, "aes256") || same_text(lname, "aes-ctr") {
            CryptoMode::Aes256Ctr
        } else {
            fallback
        }
    }

    /// The mode a name selects, ignoring case: "quantum", or one of "aes",
    /// "aes256" and "aes-ctr"; any other name selects `fallback`.
    pub fn from_str(s: &str, fallback: CryptoMode) -> (r: CryptoMode)
        ensures
            r == mode_named(lower_of(s@), fallback),
    {
        let l = lowercase(s);
        CryptoMode::from_lowered(l.as_str(), fallback)
    }

    /// The mode's name.
    pub fn as_str(&self) -> (r: &'static str)
        ensures
            *self == CryptoMode::Aes256Ctr ==> r@ == "aes"@,
            *self == CryptoMode::Quantum ==> r@ == "quantum"@,
    {
        match self {
            CryptoMode::Aes256Ctr => "aes",
            CryptoMode::Quantum => "quantum",
        }
    }
}

/// What AES-256 in counter mode with a 128-bit big-endian counter makes of
/// `data` under `key` and `iv`.
pub uninterp spec fn aes256_ctr(key: Seq<u8>, iv: Seq<u8>, data: Seq<u8>) -> Seq<u8>;

/// Relies on `ctr::Ctr128BE<aes::Aes256>`, built by `KeyIvInit::new`, and on
/// `StreamCipher::apply_keystream`: the keystream for `key` and `iv` is XORed
/// into the buffer in place, so its length is kept and applying the same
/// keystream again restores the input. The 128-bit counter cannot run out for
/// any buffer that fits in memory.
#[verifier::external_body]
fn apply_aes256_ctr(key: &[u8; 32], iv: &[u8; 16], buf: &mut Vec<u8>)
    ensures
        final(buf)@ == aes256_ctr(key@, iv@, old(buf)@),
        final(buf)@.len() == old(buf)@.len(),
        aes256_ctr(key@, iv@, final(buf)@) == old(buf)@,
{
    let mut cipher = ctr::Ctr128BE::<Aes256>::new(key.into(), iv.into());
    cipher.apply_keystream(buf);
}

/// Relies on `rand::rngs::OsRng` through `RngCore::fill_bytes`: sixteen bytes
/// from the operating system's generator; nothing is known of their values.
#[verifier::external_body]
fn random_iv() -> (r: [u8; 16]) {
    let mut iv = [0u8; 16];
    OsRng.fill_bytes(&mut iv);
    iv
}

/// Encrypts `data` with AES-256-CTR.
pub fn encrypt_aes_ctr256(data: &[u8], key: &[u8; 32], iv: &[u8; 16]) -> (r: Vec<u8>)
    ensures
        r@ == aes256_ctr(key@, iv@, data@),
        r@.len() == data@.len(),
        aes256_ctr(key@, iv@, r@) == data@,
{
    let mut buffer = vstd::slice::slice_to_vec(data);
    apply_aes256_ctr(key, iv, &mut buffer);
    buffer
}

/// Decrypts `data` with AES-256-CTR, which is the same operation as
/// encrypting.
pub fn decrypt_aes_ctr256(data: &[u8], key: &[u8; 32], iv: &[u8; 16]) -> (r: Vec<u8>)
    ensures
        r@ == aes256_ctr(key@, iv@, data@),
        r@.len() == data@.len(),
        aes256_ctr(key@, iv@, r@) == data@,
{
    encrypt_aes_ctr256(data, key, iv)
}

/// Byte `i` of the key derived from `key`: the key itself where it reaches,
/// then its bytes again, each plus its position, wrapping.
pub open spec fn key_byte(key: Seq<u8>, i: int) -> u8 {
    if i < key.len() {
        key[i]
    } else {
        key[i % (key.len() as int)].wrapping_add(i as u8)
    }
}

/// The 256-bit key derived from caller key material: truncated when longer,
/// padded deterministically when shorter.
pub open spec fn derived_key(key: Seq<u8>) -> Seq<u8> {
    Seq::new(32, |i: int| key_byte(key, i))
}

/// Derives the 256-bit key from caller key material.
pub fn derive_key(key: &[u8]) -> (r: [u8; 32])
    requires
        key@.len() > 0,
    ensures
        r@ == derived_key(key@),
{
    let n = key.len();
    let mut k = [0u8; 32];
    let mut i: usize = 0;
    while i < 32
        invariant
            n == key@.len(),
            n > 0,
            i <= 32,
            k@.len() == 32,
            forall|j: int| 0 <= j < i ==> #[trigger] k@[j] == key_byte(key@, j),
        decreases 32 - i,
    {
        let b = if i < n {
            key[i]
        } else {
            key[i % n].wrapping_add(i as u8)
        };
        k.set(i, b);
        i = i + 1;
    }
    assert(k@ =~= derived_key(key@));
    k
}

/// `c` is `iv` followed by `data` encrypted under the key derived from `key`.
pub open spec fn sealed(c: Seq<u8>, key: Seq<u8>, iv: Seq<u8>, data: Seq<u8>) -> bool {
    &&& iv.len() == IV_LEN
    &&& c == iv + aes256_ctr(derived_key(key), iv, data)
}

/// What decryption makes of `c`: the part after the nonce prefix, decrypted
/// under the prefix and the key derived from `key`.
pub open spec fn opened(c: Seq<u8>, key: Seq<u8>) -> Seq<u8> {
    aes256_ctr(derived_key(key), c.subrange(0, IV_LEN as int), c.subrange(IV_LEN as int, c.len() as int))
}

/// Encrypts `data` under `key` with the given nonce: the nonce, then the
/// ciphertext. An empty key is refused.
pub fn encrypt_aes_with_iv(data: &[u8], key: &[u8], iv: &[u8; 16]) -> (r: Result<Vec<u8>, CryptoError>)
    ensures
        key@.len() > 0 ==> r is Ok,
        key@.len() == 0 <==> r == Err::<Vec<u8>, CryptoError>(CryptoError::EmptyKey),
        r matches Ok(c) ==> c@.len() == IV_LEN + data@.len() && sealed(c@, key@, iv@, data@) && opened(
            c@,
            key@,
        ) == data@,
{
    if key.len() == 0 {
        return Err(CryptoError::EmptyKey);
    }
    let k = derive_key(key);
    let body = encrypt_aes_ctr256(data, &k, iv);
    let mut out: Vec<u8> = Vec::new();
    let mut i: usize = 0;
    while i < 16
        invariant
            i <= 16,
            iv@.len() == 16,
            out@ == iv@.subrange(0, i as int),
        decreases 16 - i,
    {
        out.push(iv[i]);
        assert(iv@.subrange(0, i + 1) =~= iv@.subrange(0, i as int).push(iv@[i as int]));
        i = i + 1;
    }
    let mut j: usize = 0;
    while j < body.len()
        invariant
            j <= body@.len(),
            iv@.len() == 16,
            out@ == iv@ + body@.subrange(0, j as int),
        decreases body@.len() - j,
    {
        out.push(body[j]);
        assert(body@.subrange(0, j + 1) =~= body@.subrange(0, j as int).push(body@[j as int]));
        j = j + 1;
    }
    assert(body@.subrange(0, body@.len() as int) =~= body@);
    assert(out@.subrange(0, 16) =~= iv@);
    assert(out@.subrange(16, out@.len() as int) =~= body@);
    Ok(out)
}

/// Encrypts `data` under `key` with a fresh random nonce, which leads the
/// output. An empty key is refused.
pub fn encrypt_aes(data: &[u8], key: &[u8]) -> (r: Result<Vec<u8>, CryptoError>)
    ensures
        key@.len() > 0 ==> r is Ok,
        key@.len() == 0 <==> r == Err::<Vec<u8>, CryptoError>(CryptoError::EmptyKey),
        r matches Ok(c) ==> c@.len() == IV_LEN + data@.len() && sealed(
            c@,
            key@,
            c@.subrange(0, IV_LEN as int),
            data@,
        ) && opened(c@, key@) == data@,
{
    let iv = random_iv();
    let r = encrypt_aes_with_iv(data, key, &iv);
    match &r {
        Ok(c) => {
            assert(c@.subrange(0, 16) =~= iv@);
        },
        Err(_) => {},
    }
    r
}

/// Decrypts what `encrypt_aes` produced: data shorter than the nonce is
/// refused, and so is an empty key.
pub fn decrypt_aes(data: &[u8], key: &[u8]) -> (r: Result<Vec<u8>, CryptoError>)
    ensures
        data@.len() < IV_LEN <==> r == Err::<Vec<u8>, CryptoError>(CryptoError::MissingIv),
        data@.len() >= IV_LEN && key@.len() == 0 <==> r == Err::<Vec<u8>, CryptoError>(
            CryptoError::EmptyKey,
        ),
        r matches Ok(p) ==> p@ == opened(data@, key@),
{
    if data.len() < 16 {
        return Err(CryptoError::MissingIv);
    }
    if key.len() == 0 {
        return Err(CryptoError::EmptyKey);
    }
    let k = derive_key(key);
    let mut iv = [0u8; 16];
    let mut i: usize = 0;
    while i < 16
        invariant
            i <= 16,
            data@.len() >= 16,
            iv@.len() == 16,
            forall|j: int| 0 <= j < i ==> #[trigger] iv@[j] == data@[j],
        decreases 16 - i,
    {
        iv.set(i, data[i]);
        i = i + 1;
    }
    assert(iv@ =~= data@.subrange(0, 16));
    let mut body: Vec<u8> = Vec::new();
    let mut j: usize = 16;
    while j < data.len()
        invariant
            16 <= j <= data@.len(),
            body@ == data@.subrange(16, j as int),
        decreases data@.len() - j,
    {
        body.push(data[j]);
        assert(data@.subrange(16, j + 1) =~= data@.subrange(16, j as int).push(data@[j as int]));
        j = j + 1;
    }
    Ok(decrypt_aes_ctr256(body.as_slice(), &k, &iv))
}

/// The bytes of the entropy pool of the experimental cipher.
pub const ENTROPY_POOL_LEN: usize = 64;

/// The bytes of the length header of the experimental cipher's output.
pub const LENGTH_HEADER_LEN: usize = 8;

/// 256 to the power `n`.
pub open spec fn pow256(n: nat) -> nat
    decreases n,
{
    if n == 0 {
        1
    } else {
        256 * pow256((n - 1) as nat)
    }
}

/// The number that bytes encode, least significant first.
pub open spec fn le_value(s: Seq<u8>) -> nat
    decreases s.len(),
{
    if s.len() == 0 {
        0
    } else {
        (s[0] + 256 * le_value(s.drop_first())) as nat
    }
}

/// Reads a little-endian `u64` from the first eight bytes of `b`.
pub fn read_le_u64(b: &[u8]) -> (r: u64)
    requires
        b@.len() >= 8,
    ensures
        r == le_value(b@.subrange(0, 8)),
{
    let mut v: u64 = 0;
    let mut i: usize = 8;
    proof {
        assert(b@.subrange(8, 8).len() == 0);
    }
    while i > 0
        invariant
            i <= 8,
            b@.len() >= 8,
            v == le_value(b@.subrange(i as int, 8)),
            v < pow256((8 - i) as nat),
        decreases i,
    {
        let ghost k: nat = (8 - i) as nat;
        let byte = b[i - 1];
        assert(b@.subrange(i - 1, 8).drop_first() =~= b@.subrange(i as int, 8));
        assert(pow256(k + 1) == 256 * pow256(k));
        assert(pow256(8) == 18446744073709551616) by {
            reveal_with_fuel(pow256, 9);
        }
        assert(k + 1 <= 8);
        assert(pow256(k + 1) <= pow256(8)) by {
            lemma_pow256_monotone(k + 1, 8);
        }
        assert(byte + 256 * v < pow256(k + 1)) by (nonlinear_arith)
            requires
                v < pow256(k),
                byte < 256,
                pow256(k + 1) == 256 * pow256(k),
        ;
        v = byte as u64 + 256 * v;
        i = i - 1;
    }
    v
}

/// Powers of 256 grow with the exponent.
pub proof fn lemma_pow256_monotone(a: nat, b: nat)
    requires
        a <= b,
    ensures
        pow256(a) <= pow256(b),
    decreases b,
{
    if a < b {
        lemma_pow256_monotone(a, (b - 1) as nat);
    }
}

/// What decryption leaves to be done.
#[derive(Debug)]
pub enum Decryption {
    /// The plaintext.
    Plain(Vec<u8>),
    /// The experimental cipher's rounds must still be reversed over `body`
    /// with the key; the result is then cut to `declared_len` bytes.
    QuantumRounds { declared_len: u64, body: Vec<u8> },
}

/// Decrypts `data` under `key` in `mode`. AES data is decrypted here. Data
/// of the experimental cipher is unframed: its length header is read and its
/// body handed back for the rounds to be reversed; data too short for a
/// header is handed back unchanged.
pub fn decrypt_with_mode(data: &[u8], key: &[u8], mode: CryptoMode) -> (r: Result<Decryption, CryptoError>)
    ensures
        mode == CryptoMode::Aes256Ctr ==> match r {
            Ok(Decryption::Plain(p)) => data@.len() >= IV_LEN && key@.len() > 0 && p@ == opened(data@, key@),
            Ok(_) => false,
            Err(e) => (e == CryptoError::MissingIv) == (data@.len() < IV_LEN) && (e == CryptoError::EmptyKey)
                == (data@.len() >= IV_LEN && key@.len() == 0),
        },
        mode == CryptoMode::Quantum && data@.len() < LENGTH_HEADER_LEN ==> (r matches Ok(Decryption::Plain(p))
            && p@ == data@),
        mode == CryptoMode::Quantum && data@.len() >= LENGTH_HEADER_LEN ==> (r matches Ok(
            Decryption::QuantumRounds { declared_len, body },
        ) && declared_len == le_value(data@.subrange(0, 8)) && body@ == data@.subrange(8, data@.len() as int)),
{
    match mode {
        CryptoMode::Aes256Ctr => match decrypt_aes(data, key) {
            Ok(p) => Ok(Decryption::Plain(p)),
            Err(e) => Err(e),
        },
        CryptoMode::Quantum => {
            if data.len() < 8 {
                return Ok(Decryption::Plain(vstd::slice::slice_to_vec(data)));
            }
            let declared_len = read_le_u64(data);
            let mut body: Vec<u8> = Vec::new();
            let mut j: usize = 8;
            while j < data.len()
                invariant
                    8 <= j <= data@.len(),
                    body@ == data@.subrange(8, j as int),
                decreases data@.len() - j,
            {
                body.push(data[j]);
                assert(data@.subrange(8, j + 1) =~= data@.subrange(8, j as int).push(data@[j as int]));
                j = j + 1;
            }
            Ok(Decryption::QuantumRounds { declared_len, body })
        },
    }
}

/// Cuts the output of the reversed rounds to the length its header declared;
/// a declared length beyond the body leaves it whole.
pub fn finish_quantum(body: Vec<u8>, declared_len: u64) -> (r: Vec<u8>)
    ensures
        declared_len < body@.len() ==> r@ == body@.subrange(0, declared_len as int),
        declared_len >= body@.len() ==> r@ == body@,
{
    let mut out = body;
    if (declared_len as u128) < (out.len() as u128) {
        out.truncate(declared_len as usize);
    }
    out
}

/// The eight little-endian bytes of `n`.
pub fn le_u64_bytes(n: u64) -> (r: Vec<u8>)
    ensures
        r@.len() == 8,
        le_value(r@) == n,
{
    let mut out: Vec<u8> = Vec::new();
    let mut rest: u64 = n;
    let mut i: usize = 0;
    proof {
        assert(le_value(out@) == 0);
        assert(pow256(0) == 1);
        assert(pow256(8) == 18446744073709551616) by {
            reveal_with_fuel(pow256, 9);
        }
    }
    while i < 8
        invariant
            i <= 8,
            out@.len() == i,
            n == le_value(out@) + pow256(i as nat) * rest,
            rest < pow256((8 - i) as nat),
        decreases 8 - i,
    {
        let byte = (rest % 256) as u8;
        let next = rest / 256;
        proof {
            lemma_le_value_push(out@, byte);
            assert(pow256((i + 1) as nat) == 256 * pow256(i as nat));
            assert(pow256((8 - i) as nat) == 256 * pow256((8 - i - 1) as nat));
            assert(rest == byte + 256 * next);
            assert(pow256(i as nat) * rest == pow256(i as nat) * byte + pow256((i + 1) as nat) * next)
                by (nonlinear_arith)
                requires
                    rest == byte + 256 * next,
                    pow256((i + 1) as nat) == 256 * pow256(i as nat),
            ;
            assert(next < pow256((8 - i - 1) as nat)) by (nonlinear_arith)
                requires
                    rest < 256 * pow256((8 - i - 1) as nat),
                    next == rest / 256,
            ;
        }
        out.push(byte);
        rest = next;
        i = i + 1;
    }
    assert(pow256(0) == 1);
    out
}

/// Appending a byte adds it at the next power of 256.
pub proof fn lemma_le_value_push(s: Seq<u8>, b: u8)
    ensures
        le_value(s.push(b)) == le_value(s) + pow256(s.len()) * b,
    decreases s.len(),
{
    if s.len() == 0 {
        assert(s.push(b).drop_first() =~= Seq::<u8>::empty());
        assert(le_value(s.push(b).drop_first()) == 0);
        assert(s.push(b)[0] == b);
        assert(le_value(s.push(b)) == b);
        assert(pow256(0) == 1);
        assert(le_value(s) == 0);
    } else {
        assert(s.push(b).drop_first() =~= s.drop_first().push(b));
        assert(s.push(b)[0] == s[0]);
        lemma_le_value_push(s.drop_first(), b);
        let x = le_value(s.drop_first());
        let p = pow256((s.len() - 1) as nat);
        assert(pow256(s.len()) == 256 * p);
        assert(s.drop_first().len() == s.len() - 1);
        assert(le_value(s.drop_first().push(b)) == x + p * b);
        assert(le_value(s) == s[0] + 256 * x);
        assert(le_value(s.push(b)) == s[0] + 256 * (x + p * b));
        assert(s[0] + 256 * (x + p * b) == (s[0] + 256 * x) + (256 * p) * b) by (nonlinear_arith);
        assert((256 * p) * b == pow256(s.len()) * b);
    }
}

/// Frames the output of the experimental cipher's rounds: its length as
/// eight little-endian bytes, then the bytes themselves.
pub fn frame_quantum(body: &[u8]) -> (r: Vec<u8>)
    ensures
        r@.len() == LENGTH_HEADER_LEN + body@.len(),
        le_value(r@.subrange(0, 8)) == body@.len(),
        r@.subrange(8, r@.len() as int) == body@,
{
    let mut out = le_u64_bytes(body.len() as u64);
    let ghost header = out@;
    let mut j: usize = 0;
    while j < body.len()
        invariant
            j <= body@.len(),
            header.len() == 8,
            out@ == header + body@.subrange(0, j as int),
        decreases body@.len() - j,
    {
        out.push(body[j]);
        assert(body@.subrange(0, j + 1) =~= body@.subrange(0, j as int).push(body@[j as int]));
        j = j + 1;
    }
    assert(out@.subrange(0, 8) =~= header);
    assert(out@.subrange(8, out@.len() as int) =~= body@);
    out
}

/// Relies on `rand::rngs::OsRng` through `RngCore::fill_bytes`: `n` bytes
/// from the operating system's generator; nothing is known of their values.
#[verifier::external_body]
fn os_random_bytes(n: usize) -> (r: Vec<u8>)
    ensures
        r@.len() == n,
{
    let mut buf = vec![0u8; n];
    OsRng.fill_bytes(&mut buf);
    buf
}

/// The entropy pool of the experimental cipher: the first bytes of the key,
/// as many as fit, then random bytes.
pub fn seed_entropy_pool(key: &[u8]) -> (r: Vec<u8>)
    ensures
        r@.len() == ENTROPY_POOL_LEN,
        key@.len() >= ENTROPY_POOL_LEN ==> r@ == key@.subrange(0, ENTROPY_POOL_LEN as int),
        key@.len() < ENTROPY_POOL_LEN ==> r@.subrange(0, key@.len() as int) == key@,
{
    let n = if key.len() < 64 {
        key.len()
    } else {
        64
    };
    let mut pool: Vec<u8> = Vec::new();
    let mut i: usize = 0;
    while i < n
        invariant
            i <= n,
            n <= key@.len(),
            n <= 64,
            pool@ == key@.subrange(0, i as int),
        decreases n - i,
    {
        pool.push(key[i]);
        assert(key@.subrange(0, i + 1) =~= key@.subrange(0, i as int).push(key@[i as int]));
        i = i + 1;
    }
    if n < 64 {
        let fill = os_random_bytes(64 - n);
        let mut j: usize = 0;
        while j < fill.len()
            invariant
                j <= fill@.len(),
                fill@.len() == 64 - n,
                pool@.len() == n + j,
                pool@.subrange(0, n as int) == key@.subrange(0, n as int),
            decreases fill@.len() - j,
        {
            pool.push(fill[j]);
            assert(pool@.subrange(0, n as int) =~= key@.subrange(0, n as int));
            j = j + 1;
        }
    }
    assert(key@.len() < 64 ==> key@.subrange(0, n as int) =~= key@);
    pool
}

/// Key material from an already trimmed entry: its UTF-8 bytes, refused
/// when the entry is empty.
pub fn key_from_trimmed(t: &str) -> (r: Option<Vec<u8>>)
    ensures
        r is None <==> t@.len() == 0,
        r matches Some(k) ==> k@ == t.spec_bytes(),
{
    if t.unicode_len() == 0 {
        None
    } else {
        Some(t.as_bytes_vec())
    }
}

/// Key material from a typed entry: trimmed, then refused when empty.
pub fn key_from_entry(entry: &str) -> (r: Option<Vec<u8>>)
    ensures
        r is None <==> trimmed_of(entry@).len() == 0,
        r matches Some(k) ==> k@ == encode_utf8(trimmed_of(entry@)),
{
    key_from_trimmed(trim(entry))
}

} // verus!
