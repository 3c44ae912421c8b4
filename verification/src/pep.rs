//! Physical endpoint identifiers: a content hash that names one machine.
//!
//! The identifier is the unpadded URL-safe base64 text of the 128-bit XXH3
//! digest of `sticker (4 bytes, little endian) | machine (16 bytes) | room
//! (UTF-8) | location (16 bytes)`. The byte order is load-bearing: changing it
//! changes every identifier ever derived.

use vstd::prelude::*;
use vstd::utf8::*;

verus! {

/// The `n` low bytes of `x`, least significant first.
pub open spec fn le_bytes(x: nat, n: nat) -> Seq<u8>
    decreases n,
{
    if n == 0 {
        Seq::empty()
    } else {
        seq![(x % 256) as u8] + le_bytes(x / 256, (n - 1) as nat)
    }
}

/// `le_bytes(x, n)` has `n` bytes.
pub proof fn lemma_le_bytes_len(x: nat, n: nat)
    ensures
        le_bytes(x, n).len() == n,
    decreases n,
{
    if n > 0 {
        lemma_le_bytes_len(x / 256, (n - 1) as nat);
    }
}

/// The bytes that are hashed, in their fixed order.
pub open spec fn pep_preimage(
    sticker_number: u32,
    machine_id: Seq<u8>,
    room_id: Seq<char>,
    location_id: Seq<u8>,
) -> Seq<u8> {
    le_bytes(sticker_number as nat, 4) + machine_id + encode_utf8(room_id) + location_id
}

/// The 128-bit XXH3 digest (seed 0, default secret) of a byte string.
pub uninterp spec fn xxh3_128_digest(input: Seq<u8>) -> u128;

/// The character that stands for a six-bit value in the URL-safe alphabet
/// `A-Z a-z 0-9 - _`.
pub open spec fn url_safe_symbol(v: int) -> char {
    if v < 26 {
        (v + 65) as char
    } else if v < 52 {
        (v + 71) as char
    } else if v < 62 {
        (v - 4) as char
    } else if v == 62 {
        '-'
    } else {
        '_'
    }
}

/// Byte `k` of `bytes`, or zero past the end.
pub open spec fn byte_or_zero(bytes: Seq<u8>, k: int) -> int {
    if 0 <= k < bytes.len() {
        bytes[k] as int
    } else {
        0
    }
}

/// The `i`-th six-bit group of `bytes` read as one bit string, most
/// significant bit first, with zero bits after the end.
pub open spec fn sextet(bytes: Seq<u8>, i: int) -> int {
    let q = i / 4;
    let b0 = byte_or_zero(bytes, 3 * q);
    let b1 = byte_or_zero(bytes, 3 * q + 1);
    let b2 = byte_or_zero(bytes, 3 * q + 2);
    if i % 4 == 0 {
        b0 / 4
    } else if i % 4 == 1 {
        (b0 % 4) * 16 + b1 / 16
    } else if i % 4 == 2 {
        (b1 % 16) * 4 + b2 / 64
    } else {
        b2 % 64
    }
}

/// Number of characters of the unpadded base64 text of `n` bytes.
pub open spec fn base64_len(n: nat) -> nat {
    ((n * 4 + 2) / 3) as nat
}

/// Unpadded URL-safe base64 text of a byte string.
pub open spec fn base64_url(bytes: Seq<u8>) -> Seq<char> {
    Seq::new(base64_len(bytes.len()), |i: int| url_safe_symbol(sextet(bytes, i)))
}

/// The identifier text that belongs to a digest.
pub open spec fn pep_of_digest(digest: u128) -> Seq<char> {
    base64_url(le_bytes(digest as nat, 16))
}

/// The identifier text of one machine.
pub open spec fn pep_text(
    sticker_number: u32,
    machine_id: Seq<u8>,
    room_id: Seq<char>,
    location_id: Seq<u8>,
) -> Seq<char> {
    pep_of_digest(xxh3_128_digest(pep_preimage(sticker_number, machine_id, room_id, location_id)))
}

/// Calls `xxhash_rust::xxh3::xxh3_128`. Nothing is proved of the hash itself:
/// the contract only names its result, which depends on the input bytes alone.
#[verifier::external_body]
fn xxh3_128(input: &[u8]) -> (digest: u128)
    ensures
        digest == xxh3_128_digest(input@),
{
    xxhash_rust::xxh3::xxh3_128(input)
}

/// Calls `Engine::encode` of the `base64` crate on its `URL_SAFE_NO_PAD`
/// engine. The contract claims that the text is the base64 encoding of the
/// input in the URL-safe alphabet, without padding characters. The bound keeps
/// the length computation of the crate away from overflow.
#[verifier::external_body]
fn base64_url_no_pad(bytes: &[u8]) -> (text: String)
    requires
        bytes@.len() <= 0x3000_0000,
    ensures
        text@ == base64_url(bytes@),
{
    base64::Engine::encode(&base64::engine::general_purpose::URL_SAFE_NO_PAD, bytes)
}

/// The `n` low bytes of `x`, least significant first.
pub fn to_le_bytes(x: u128, n: usize) -> (out: Vec<u8>)
    ensures
        out@ == le_bytes(x as nat, n as nat),
        out@.len() == n,
{
    let mut out: Vec<u8> = Vec::new();
    let mut rest: u128 = x;
    let mut i: usize = 0;
    while i < n
        invariant
            i <= n,
            le_bytes(x as nat, n as nat) == out@ + le_bytes(rest as nat, (n - i) as nat),
        decreases n - i,
    {
        let low: u8 = (rest % 256) as u8;
        proof {
            assert(le_bytes(rest as nat, (n - i) as nat) == seq![low] + le_bytes(
                (rest / 256) as nat,
                (n - i - 1) as nat,
            ));
            assert(out@ + (seq![low] + le_bytes((rest / 256) as nat, (n - i - 1) as nat))
                == out@.push(low) + le_bytes((rest / 256) as nat, (n - i - 1) as nat));
        }
        out.push(low);
        rest = rest / 256;
        i = i + 1;
    }
    assert(le_bytes(rest as nat, 0) == Seq::<u8>::empty());
    assert(out@ + Seq::<u8>::empty() == out@);
    proof {
        lemma_le_bytes_len(x as nat, n as nat);
    }
    out
}

/// Appends every byte of `src` to `buf`.
fn append_bytes(buf: &mut Vec<u8>, src: &[u8])
    ensures
        final(buf)@ == old(buf)@ + src@,
{
    let mut i: usize = 0;
    while i < src.len()
        invariant
            i <= src@.len(),
            buf@ == old(buf)@ + src@.subrange(0, i as int),
        decreases src@.len() - i,
    {
        buf.push(src[i]);
        i = i + 1;
    }
    assert(src@.subrange(0, src@.len() as int) == src@);
}

/// The identifier text that belongs to a digest: the base64 text of its 16
/// bytes, least significant first.
pub fn pep_from_digest(digest: u128) -> (text: String)
    ensures
        text@ == pep_of_digest(digest),
{
    let bytes = to_le_bytes(digest, 16);
    base64_url_no_pad(bytes.as_slice())
}

/// What names one physical machine: the number on its sticker, its own
/// identifier, and the room and location it stands in.
pub struct PhysicalEndpointId {
    pub sticker_number: u32,
    pub machine_id: [u8; 16],
    pub room_id: String,
    pub location_id: [u8; 16],
}

impl PhysicalEndpointId {
    /// The bytes that are hashed for this machine.
    pub fn preimage(&self) -> (bytes: Vec<u8>)
        ensures
            bytes@ == pep_preimage(
                self.sticker_number,
                self.machine_id@,
                self.room_id@,
                self.location_id@,
            ),
    {
        let mut bytes = to_le_bytes(self.sticker_number as u128, 4);
        append_bytes(&mut bytes, self.machine_id.as_slice());
        append_bytes(&mut bytes, self.room_id.as_str().as_bytes());
        append_bytes(&mut bytes, self.location_id.as_slice());
        bytes
    }

    /// The identifier of this machine. Total and free of side effects: equal
    /// inputs give equal text.
    pub fn calculate_pep(&self) -> (text: String)
        ensures
            text@ == pep_text(
                self.sticker_number,
                self.machine_id@,
                self.room_id@,
                self.location_id@,
            ),
    {
        let bytes = self.preimage();
        let digest = xxh3_128(bytes.as_slice());
        pep_from_digest(digest)
    }
}

/// The value that a character of the URL-safe alphabet stands for.
pub open spec fn url_safe_value(c: char) -> int {
    let n = c as int;
    if 65 <= n <= 90 {
        n - 65
    } else if 97 <= n <= 122 {
        n - 71
    } else if 48 <= n <= 57 {
        n + 4
    } else if c == '-' {
        62
    } else {
        63
    }
}

/// Whether a character belongs to the URL-safe alphabet.
pub open spec fn is_url_safe(c: char) -> bool {
    let n = c as int;
    65 <= n <= 90 || 97 <= n <= 122 || 48 <= n <= 57 || c == '-' || c == '_'
}

/// The value of character `i` of `text`, or zero past the end.
pub open spec fn value_or_zero(text: Seq<char>, i: int) -> int {
    if 0 <= i < text.len() {
        url_safe_value(text[i])
    } else {
        0
    }
}

/// The bytes that an unpadded URL-safe base64 text stands for.
pub open spec fn base64_url_decode(text: Seq<char>) -> Seq<u8> {
    Seq::new(
        (text.len() * 3 / 4) as nat,
        |k: int|
            {
                let q = k / 3;
                let v0 = value_or_zero(text, 4 * q);
                let v1 = value_or_zero(text, 4 * q + 1);
                let v2 = value_or_zero(text, 4 * q + 2);
                let v3 = value_or_zero(text, 4 * q + 3);
                (if k % 3 == 0 {
                    v0 * 4 + v1 / 16
                } else if k % 3 == 1 {
                    (v1 % 16) * 16 + v2 / 4
                } else {
                    (v2 % 4) * 64 + v3
                }) as u8
            },
    )
}

/// The number of values that `n` bytes can take.
pub open spec fn limit(n: nat) -> nat
    decreases n,
{
    if n == 0 {
        1
    } else {
        256 * limit((n - 1) as nat)
    }
}

/// Numbers that fit in `n` bytes and have the same bytes are equal.
pub proof fn lemma_le_bytes_injective(x: nat, y: nat, n: nat)
    requires
        x < limit(n),
        y < limit(n),
        le_bytes(x, n) == le_bytes(y, n),
    ensures
        x == y,
    decreases n,
{
    if n > 0 {
        let m = (n - 1) as nat;
        let a = seq![(x % 256) as u8] + le_bytes(x / 256, m);
        let b = seq![(y % 256) as u8] + le_bytes(y / 256, m);
        assert(a[0] == b[0]);
        assert(le_bytes(x / 256, m) =~= a.subrange(1, a.len() as int));
        assert(le_bytes(y / 256, m) =~= b.subrange(1, b.len() as int));
        lemma_le_bytes_injective(x / 256, y / 256, m);
    }
}

/// Every six-bit group is below 64, and the alphabet gives each value a
/// character of its own.
pub proof fn lemma_symbols(bytes: Seq<u8>, i: int)
    requires
        0 <= i,
    ensures
        0 <= sextet(bytes, i) < 64,
        is_url_safe(url_safe_symbol(sextet(bytes, i))),
        url_safe_value(url_safe_symbol(sextet(bytes, i))) == sextet(bytes, i),
{
}

/// Three bytes cut into four six-bit groups, and put together again.
proof fn lemma_regroup(b0: int, b1: int, b2: int)
    requires
        0 <= b0 < 256,
        0 <= b1 < 256,
        0 <= b2 < 256,
    ensures
        (b0 / 4) * 4 + ((b0 % 4) * 16 + b1 / 16) / 16 == b0,
        (((b0 % 4) * 16 + b1 / 16) % 16) * 16 + ((b1 % 16) * 4 + b2 / 64) / 4 == b1,
        (((b1 % 16) * 4 + b2 / 64) % 4) * 64 + b2 % 64 == b2,
{
}

/// Character `i` of a base64 text stands for the `i`-th six-bit group.
proof fn lemma_value_of_symbol(bytes: Seq<u8>, i: int)
    requires
        0 <= i < base64_len(bytes.len()),
    ensures
        value_or_zero(base64_url(bytes), i) == sextet(bytes, i),
{
    lemma_symbols(bytes, i);
}

/// Byte `k` of the bytes that a base64 text stands for is byte `k` of the
/// bytes it was made from.
proof fn lemma_decode_byte(bytes: Seq<u8>, k: int)
    requires
        0 <= k < bytes.len(),
    ensures
        k < base64_url_decode(base64_url(bytes)).len(),
        base64_url_decode(base64_url(bytes))[k] == bytes[k],
{
    let text = base64_url(bytes);
    let q = k / 3;
    let b0 = byte_or_zero(bytes, 3 * q);
    let b1 = byte_or_zero(bytes, 3 * q + 1);
    let b2 = byte_or_zero(bytes, 3 * q + 2);
    lemma_regroup(b0, b1, b2);
    assert(sextet(bytes, 4 * q) == b0 / 4);
    assert(sextet(bytes, 4 * q + 1) == (b0 % 4) * 16 + b1 / 16);
    assert(sextet(bytes, 4 * q + 2) == (b1 % 16) * 4 + b2 / 64);
    assert(sextet(bytes, 4 * q + 3) == b2 % 64);
    if k % 3 == 0 {
        lemma_value_of_symbol(bytes, 4 * q);
        lemma_value_of_symbol(bytes, 4 * q + 1);
    } else if k % 3 == 1 {
        lemma_value_of_symbol(bytes, 4 * q + 1);
        lemma_value_of_symbol(bytes, 4 * q + 2);
    } else {
        lemma_value_of_symbol(bytes, 4 * q + 2);
        lemma_value_of_symbol(bytes, 4 * q + 3);
    }
}

/// The base64 text of a byte string is made of the URL-safe alphabet, has no
/// padding, and stands for exactly that byte string.
pub proof fn lemma_base64_round_trip(bytes: Seq<u8>)
    ensures
        base64_url(bytes).len() == base64_len(bytes.len()),
        forall|i: int|
            0 <= i < base64_url(bytes).len() ==> is_url_safe(#[trigger] base64_url(bytes)[i]),
        base64_url_decode(base64_url(bytes)) == bytes,
{
    let text = base64_url(bytes);
    assert forall|i: int| 0 <= i < text.len() implies is_url_safe(#[trigger] text[i]) by {
        lemma_symbols(bytes, i);
    }
    let back = base64_url_decode(text);
    assert(back.len() == bytes.len());
    assert forall|k: int| 0 <= k < bytes.len() implies back[k] == bytes[k] by {
        lemma_decode_byte(bytes, k);
    }
    assert(back =~= bytes);
}

/// Equal inputs give equal identifiers: the identifier is a function of the
/// four inputs and of nothing else.
pub proof fn lemma_pep_deterministic(
    sticker_a: u32,
    machine_a: Seq<u8>,
    room_a: Seq<char>,
    location_a: Seq<u8>,
    sticker_b: u32,
    machine_b: Seq<u8>,
    room_b: Seq<char>,
    location_b: Seq<u8>,
)
    requires
        sticker_a == sticker_b,
        machine_a == machine_b,
        room_a == room_b,
        location_a == location_b,
    ensures
        pep_text(sticker_a, machine_a, room_a, location_a) == pep_text(
            sticker_b,
            machine_b,
            room_b,
            location_b,
        ),
{
}

/// An identifier has 22 characters of the URL-safe alphabet, no padding, and
/// stands for exactly 16 bytes: those of the digest, least significant first.
pub proof fn lemma_pep_format(digest: u128)
    ensures
        pep_of_digest(digest).len() == 22,
        forall|i: int| 0 <= i < 22 ==> is_url_safe(#[trigger] pep_of_digest(digest)[i]),
        base64_url_decode(pep_of_digest(digest)).len() == 16,
        base64_url_decode(pep_of_digest(digest)) == le_bytes(digest as nat, 16),
{
    lemma_le_bytes_len(digest as nat, 16);
    lemma_base64_round_trip(le_bytes(digest as nat, 16));
}

/// Two identifiers are equal exactly when their digests are: the text loses
/// nothing of the digest.
pub proof fn lemma_pep_text_tells_digests_apart(a: u128, b: u128)
    ensures
        pep_of_digest(a) == pep_of_digest(b) <==> a == b,
{
    if pep_of_digest(a) == pep_of_digest(b) {
        lemma_base64_round_trip(le_bytes(a as nat, 16));
        lemma_base64_round_trip(le_bytes(b as nat, 16));
        lemma_limit_16();
        lemma_le_bytes_injective(a as nat, b as nat, 16);
    }
}

proof fn lemma_limit_16()
    ensures
        limit(4) == 0x1_0000_0000,
        limit(16) == 0x1_0000_0000_0000_0000_0000_0000_0000_0000,
{
    assert(limit(0) == 1);
    assert(limit(1) == 0x100);
    assert(limit(2) == 0x10000);
    assert(limit(3) == 0x1000000);
    assert(limit(4) == 0x100000000);
    assert(limit(5) == 0x10000000000);
    assert(limit(6) == 0x1000000000000);
    assert(limit(7) == 0x100000000000000);
    assert(limit(8) == 0x10000000000000000);
    assert(limit(9) == 0x1000000000000000000);
    assert(limit(10) == 0x100000000000000000000);
    assert(limit(11) == 0x10000000000000000000000);
    assert(limit(12) == 0x1000000000000000000000000);
    assert(limit(13) == 0x100000000000000000000000000);
    assert(limit(14) == 0x10000000000000000000000000000);
    assert(limit(15) == 0x1000000000000000000000000000000);
    assert(limit(16) == 0x100000000000000000000000000000000);
}

/// Machines that differ in any input are hashed from different bytes: the
/// preimage tells every sticker number, machine, room and location apart.
/// (That their digests differ too is a property of the hash, and holds only
/// with overwhelming probability.)
pub proof fn lemma_preimage_injective(
    sticker_a: u32,
    machine_a: Seq<u8>,
    room_a: Seq<char>,
    location_a: Seq<u8>,
    sticker_b: u32,
    machine_b: Seq<u8>,
    room_b: Seq<char>,
    location_b: Seq<u8>,
)
    requires
        machine_a.len() == 16,
        machine_b.len() == 16,
        location_a.len() == 16,
        location_b.len() == 16,
        pep_preimage(sticker_a, machine_a, room_a, location_a) == pep_preimage(
            sticker_b,
            machine_b,
            room_b,
            location_b,
        ),
    ensures
        sticker_a == sticker_b,
        machine_a == machine_b,
        room_a == room_b,
        location_a == location_b,
{
    let pa = pep_preimage(sticker_a, machine_a, room_a, location_a);
    let pb = pep_preimage(sticker_b, machine_b, room_b, location_b);
    let ea = encode_utf8(room_a);
    let eb = encode_utf8(room_b);
    lemma_le_bytes_len(sticker_a as nat, 4);
    lemma_le_bytes_len(sticker_b as nat, 4);
    assert(pa.len() == 36 + ea.len());
    assert(pb.len() == 36 + eb.len());
    assert(le_bytes(sticker_a as nat, 4) =~= pa.subrange(0, 4));
    assert(le_bytes(sticker_b as nat, 4) =~= pb.subrange(0, 4));
    assert(machine_a =~= pa.subrange(4, 20));
    assert(machine_b =~= pb.subrange(4, 20));
    assert(ea =~= pa.subrange(20, 20 + ea.len() as int));
    assert(eb =~= pb.subrange(20, 20 + eb.len() as int));
    assert(location_a =~= pa.subrange(20 + ea.len() as int, 36 + ea.len() as int));
    assert(location_b =~= pb.subrange(20 + eb.len() as int, 36 + eb.len() as int));
    lemma_limit_16();
    lemma_le_bytes_injective(sticker_a as nat, sticker_b as nat, 4);
    encode_utf8_decode_utf8(room_a);
    encode_utf8_decode_utf8(room_b);
}

/// Two machines that differ in any input share an identifier only if the
/// hash collides: their preimages differ and have the same digest. Nothing
/// else in the derivation can make two identifiers coincide.
pub proof fn lemma_shared_pep_is_a_collision(
    sticker_a: u32,
    machine_a: Seq<u8>,
    room_a: Seq<char>,
    location_a: Seq<u8>,
    sticker_b: u32,
    machine_b: Seq<u8>,
    room_b: Seq<char>,
    location_b: Seq<u8>,
)
    requires
        machine_a.len() == 16,
        machine_b.len() == 16,
        location_a.len() == 16,
        location_b.len() == 16,
        sticker_a != sticker_b || machine_a != machine_b || room_a != room_b || location_a
            != location_b,
    ensures
        pep_preimage(sticker_a, machine_a, room_a, location_a) != pep_preimage(
            sticker_b,
            machine_b,
            room_b,
            location_b,
        ),
        pep_text(sticker_a, machine_a, room_a, location_a) == pep_text(
            sticker_b,
            machine_b,
            room_b,
            location_b,
        ) <==> xxh3_128_digest(pep_preimage(sticker_a, machine_a, room_a, location_a))
            == xxh3_128_digest(pep_preimage(sticker_b, machine_b, room_b, location_b)),
{
    if pep_preimage(sticker_a, machine_a, room_a, location_a) == pep_preimage(
        sticker_b,
        machine_b,
        room_b,
        location_b,
    ) {
        lemma_preimage_injective(
            sticker_a,
            machine_a,
            room_a,
            location_a,
            sticker_b,
            machine_b,
            room_b,
            location_b,
        );
    }
    lemma_pep_text_tells_digests_apart(
        xxh3_128_digest(pep_preimage(sticker_a, machine_a, room_a, location_a)),
        xxh3_128_digest(pep_preimage(sticker_b, machine_b, room_b, location_b)),
    );
}

} // verus!
