//! The ids of nodes: public keys in Base58.

use ed25519_dalek::SigningKey;
use rand::rngs::OsRng;
use vstd::prelude::*;

use crate::peer::PeerId;

verus! {

/// The digits of Base58, from 0 to 57.
pub open spec fn base58_alphabet() -> Seq<char> {
    "123456789ABCDEFGHJKLMNPQRSTUVWXYZabcdefghijkmnopqrstuvwxyz"@
}

/// The values of Base58 digits.
pub open spec fn base58_digits(text: Seq<char>) -> Seq<int> {
    text.map_values(|digit: char| base58_alphabet().index_of(digit))
}

/// The values of bytes, taken as digits.
pub open spec fn byte_digits(bytes: Seq<u8>) -> Seq<int> {
    bytes.map_values(|byte: u8| byte as int)
}

/// The number that digits stand for, the most significant first.
pub open spec fn number(digits: Seq<int>, base: int) -> int
    decreases digits.len(),
{
    if digits.len() == 0 {
        0
    } else {
        number(digits.drop_last(), base) * base + digits.last()
    }
}

/// How many zeros digits start with.
pub open spec fn leading_zeros(digits: Seq<int>) -> nat
    decreases digits.len(),
{
    if digits.len() == 0 || digits[0] != 0 {
        0
    } else {
        1 + leading_zeros(digits.drop_first())
    }
}

/// Whether `text` is the Base58 form of `bytes`: it consists of digits of the
/// alphabet, stands for the same number, and starts with as many zeros.
pub open spec fn is_base58_of(text: Seq<char>, bytes: Seq<u8>) -> bool {
    &&& forall|i: int| 0 <= i < text.len() ==> base58_alphabet().contains(#[trigger] text[i])
    &&& number(base58_digits(text), 58) == number(byte_digits(bytes), 256)
    &&& leading_zeros(base58_digits(text)) == leading_zeros(byte_digits(bytes))
}

/// The Ed25519 public key of a secret key, as `ed25519_dalek` derives it.
pub uninterp spec fn public_key(secret: Seq<u8>) -> Seq<u8>;

/// Calls `SigningKey::generate` of `ed25519_dalek` with the operating system's
/// random numbers and takes the bytes of the secret key. Which key results rests
/// on chance, so nothing is promised of it but its length.
#[verifier::external_body]
fn generate_secret_key() -> (secret: [u8; 32])
{
    SigningKey::generate(&mut OsRng).to_bytes()
}

/// Calls `SigningKey::from_bytes` of `ed25519_dalek` and takes the bytes of its
/// `verifying_key`. It is trusted to depend on the secret key alone; how the
/// public key follows from it is left unsaid.
#[verifier::external_body]
fn derive_public_key(secret: &[u8; 32]) -> (key: [u8; 32])
    ensures
        key@ == public_key(secret@),
{
    SigningKey::from_bytes(secret).verifying_key().to_bytes()
}

/// Calls `encode` of `bs58`, with its default alphabet, and `into_string`. It is
/// trusted to return the Base58 form of the key.
#[verifier::external_body]
fn base58_encode(key: &[u8; 32]) -> (text: String)
    ensures
        is_base58_of(text@, key@),
{
    bs58::encode(key).into_string()
}

/// The id of the node that has a public key.
pub fn peer_id_of(key: &[u8; 32]) -> (peer_id: PeerId)
    ensures
        is_base58_of(peer_id@, key@),
{
    base58_encode(key)
}

/// The id of the node that has a secret key.
pub fn peer_id_of_secret(secret: &[u8; 32]) -> (peer_id: PeerId)
    ensures
        is_base58_of(peer_id@, public_key(secret@)),
{
    let key = derive_public_key(secret);
    peer_id_of(&key)
}

/// The id of a new node: that of a secret key drawn by chance.
pub fn generate_peer_id() -> (peer_id: PeerId)
    ensures
        exists|secret: [u8; 32]| #[trigger] is_base58_of(peer_id@, public_key(secret@)),
{
    let secret = generate_secret_key();
    peer_id_of_secret(&secret)
}

/// The digits of a base.
pub open spec fn are_digits(digits: Seq<int>, base: int) -> bool {
    forall|i: int| 0 <= i < digits.len() ==> 0 <= #[trigger] digits[i] < base
}

/// Digits that stand for 0 are zeros.
proof fn lemma_zero(digits: Seq<int>, base: int)
    requires
        base > 1,
        are_digits(digits, base),
    ensures
        number(digits, base) >= 0,
        number(digits, base) == 0 <==> leading_zeros(digits) == digits.len(),
        number(digits, base) == 0 <==> forall|i: int|
            0 <= i < digits.len() ==> #[trigger] digits[i] == 0,
    decreases digits.len(),
{
    lemma_leading_zeros(digits);
    if digits.len() > 0 {
        let front = digits.drop_last();
        lemma_zero(front, base);
        let high = number(front, base);
        assert(high * base >= 0 && (high > 0 ==> high * base > 0)) by (nonlinear_arith)
            requires
                high >= 0,
                base > 1,
        ;
        assert(digits.last() == digits[digits.len() - 1]);
        if number(digits, base) == 0 {
            assert forall|i: int| 0 <= i < digits.len() implies #[trigger] digits[i] == 0 by {
                if i < digits.len() - 1 {
                    assert(front[i] == digits[i]);
                }
            }
        }
        if forall|i: int| 0 <= i < digits.len() ==> #[trigger] digits[i] == 0 {
            assert forall|i: int| 0 <= i < front.len() implies #[trigger] front[i] == 0 by {
                assert(front[i] == digits[i]);
            }
            assert(high * base == 0) by (nonlinear_arith)
                requires
                    high == 0,
            ;
        }
    }
}

/// Leading zeros are zeros, and a digit that is none follows them.
proof fn lemma_leading_zeros(digits: Seq<int>)
    ensures
        leading_zeros(digits) <= digits.len(),
        forall|i: int| 0 <= i < leading_zeros(digits) ==> #[trigger] digits[i] == 0,
        leading_zeros(digits) < digits.len() ==> digits[leading_zeros(digits) as int] != 0,
    decreases digits.len(),
{
    if digits.len() > 0 && digits[0] == 0 {
        let rest = digits.drop_first();
        lemma_leading_zeros(rest);
        assert forall|i: int| 0 <= i < leading_zeros(digits) implies #[trigger] digits[i] == 0 by {
            if i > 0 {
                assert(rest[i - 1] == digits[i]);
            }
        }
    }
}

/// Digits are determined by the number they stand for and their leading zeros.
proof fn lemma_digits_unique(a: Seq<int>, b: Seq<int>, base: int)
    requires
        base > 1,
        are_digits(a, base),
        are_digits(b, base),
        number(a, base) == number(b, base),
        leading_zeros(a) == leading_zeros(b),
    ensures
        a == b,
    decreases a.len(),
{
    lemma_zero(a, base);
    lemma_zero(b, base);
    lemma_leading_zeros(a);
    lemma_leading_zeros(b);
    if number(a, base) == 0 {
        assert(a =~= b);
    } else {
        let (fa, fb) = (a.drop_last(), b.drop_last());
        let (na, nb) = (number(fa, base), number(fb, base));
        let (la, lb) = (a.last(), b.last());
        assert(la == a[a.len() - 1] && lb == b[b.len() - 1]);
        assert(na == nb && la == lb) by (nonlinear_arith)
            requires
                na * base + la == nb * base + lb,
                0 <= la < base,
                0 <= lb < base,
                base > 1,
        ;
        lemma_same_front_zeros(a);
        lemma_same_front_zeros(b);
        lemma_digits_unique(fa, fb, base);
        assert(a =~= fa.push(la));
        assert(b =~= fb.push(lb));
    }
}

/// Where not all digits are zeros, the last one does not count for the leading zeros.
proof fn lemma_same_front_zeros(digits: Seq<int>)
    requires
        leading_zeros(digits) < digits.len(),
    ensures
        leading_zeros(digits.drop_last()) == leading_zeros(digits),
{
    let front = digits.drop_last();
    let (z, f) = (leading_zeros(digits), leading_zeros(front));
    lemma_leading_zeros(digits);
    lemma_leading_zeros(front);
    if f < z {
        assert(front[f as int] == digits[f as int]);
    }
    if z < f {
        assert(front[z as int] == digits[z as int]);
    }
}

/// No two public keys have the same id: an id tells its key.
pub proof fn law_id_tells_key(id: Seq<char>, key: Seq<u8>, other: Seq<u8>)
    requires
        is_base58_of(id, key),
        is_base58_of(id, other),
    ensures
        key == other,
{
    let (a, b) = (byte_digits(key), byte_digits(other));
    lemma_digits_unique(a, b, 256);
    assert forall|i: int| 0 <= i < key.len() implies key[i] == other[i] by {
        assert(a[i] == b[i]);
    }
    assert(key =~= other);
}

/// A public key has one id.
pub proof fn law_key_has_one_id(key: Seq<u8>, id: Seq<char>, other: Seq<char>)
    requires
        is_base58_of(id, key),
        is_base58_of(other, key),
    ensures
        id == other,
{
    let alphabet = base58_alphabet();
    reveal_strlit("123456789ABCDEFGHJKLMNPQRSTUVWXYZabcdefghijkmnopqrstuvwxyz");
    assert(alphabet.len() == 58);
    let (a, b) = (base58_digits(id), base58_digits(other));
    assert forall|i: int| 0 <= i < a.len() implies 0 <= #[trigger] a[i] < 58 && alphabet[a[i]]
        == id[i] by {
        assert(alphabet.contains(id[i]));
    }
    assert forall|i: int| 0 <= i < b.len() implies 0 <= #[trigger] b[i] < 58 && alphabet[b[i]]
        == other[i] by {
        assert(alphabet.contains(other[i]));
    }
    lemma_digits_unique(a, b, 58);
    assert forall|i: int| 0 <= i < id.len() implies id[i] == other[i] by {
        assert(a[i] == b[i]);
    }
    assert(id =~= other);
}

} // verus!
