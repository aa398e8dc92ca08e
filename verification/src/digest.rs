use vstd::prelude::*;

verus! {

/// The BLAKE3 hash of a byte string, in its default mode with 32 bytes of output.
pub uninterp spec fn blake3_digest(input: Seq<u8>) -> Seq<u8>;

/// Calls `blake3::hash`: the result is the 32-byte BLAKE3 hash of the whole input.
#[verifier::external_body]
pub(crate) fn blake3_hash(input: &[u8]) -> (digest: [u8; 32])
    ensures
        digest@ == blake3_digest(input@),
{
    *blake3::hash(input).as_bytes()
}

/// Whether two digests are the same.
pub(crate) fn same_digest(left: &[u8; 32], right: &[u8; 32]) -> (answer: bool)
    ensures
        answer == (left@ == right@),
{
    let mut i: usize = 0;
    while i < 32
        invariant
            i <= 32,
            forall|k: int| 0 <= k < i ==> left@[k] == right@[k],
        decreases 32 - i,
    {
        if left[i] != right[i] {
            return false;
        }
        i += 1;
    }
    proof {
        assert(left@ =~= right@);
    }
    true
}

/// Whether every byte of a digest is zero.
pub(crate) fn is_zero_digest(digest: &[u8; 32]) -> (answer: bool)
    ensures
        answer == (digest@ == zero_digest()),
{
    let mut i: usize = 0;
    while i < 32
        invariant
            i <= 32,
            forall|k: int| 0 <= k < i ==> digest@[k] == 0,
        decreases 32 - i,
    {
        if digest[i] != 0 {
            proof {
                assert(zero_digest()[i as int] == 0);
            }
            return false;
        }
        i += 1;
    }
    proof {
        assert(digest@ =~= zero_digest());
    }
    true
}

/// Thirty-two zero bytes.
pub open spec fn zero_digest() -> Seq<u8> {
    Seq::new(32, |i: int| 0u8)
}

/// The `width` low bytes of `value`, most significant first.
pub open spec fn big_endian(value: nat, width: nat) -> Seq<u8>
    decreases width,
{
    if width == 0 {
        Seq::empty()
    } else {
        big_endian(value / 256, (width - 1) as nat).push((value % 256) as u8)
    }
}

/// Two's complement image of a signed 64-bit integer.
pub open spec fn unsigned_image(value: i64) -> nat {
    if value >= 0 {
        value as nat
    } else {
        (value + 0x1_0000_0000_0000_0000) as nat
    }
}

pub open spec fn encoded_u64(value: u64) -> Seq<u8> {
    big_endian(value as nat, 8)
}

pub open spec fn encoded_u32(value: u32) -> Seq<u8> {
    big_endian(value as nat, 4)
}

pub open spec fn encoded_u16(value: u16) -> Seq<u8> {
    big_endian(value as nat, 2)
}

pub open spec fn encoded_i64(value: i64) -> Seq<u8> {
    big_endian(unsigned_image(value), 8)
}

/// Bytes behind their own length.
pub open spec fn framed(bytes: Seq<u8>) -> Seq<u8> {
    big_endian(bytes.len(), 8) + bytes
}

pub open spec fn utf8(text: Seq<char>) -> Seq<u8> {
    vstd::utf8::encode_utf8(text)
}

pub proof fn lemma_big_endian_len(value: nat, width: nat)
    ensures
        big_endian(value, width).len() == width,
    decreases width,
{
    if width > 0 {
        lemma_big_endian_len(value / 256, (width - 1) as nat);
    }
}

/// Appends the big-endian image of a 64-bit integer.
pub(crate) fn put_u64(buffer: &mut Vec<u8>, value: u64)
    ensures
        final(buffer)@ == old(buffer)@ + encoded_u64(value),
{
    let b7: u64 = value;
    let b6: u64 = b7 / 256;
    let b5: u64 = b6 / 256;
    let b4: u64 = b5 / 256;
    let b3: u64 = b4 / 256;
    let b2: u64 = b3 / 256;
    let b1: u64 = b2 / 256;
    let b0: u64 = b1 / 256;
    buffer.push((b0 % 256) as u8);
    buffer.push((b1 % 256) as u8);
    buffer.push((b2 % 256) as u8);
    buffer.push((b3 % 256) as u8);
    buffer.push((b4 % 256) as u8);
    buffer.push((b5 % 256) as u8);
    buffer.push((b6 % 256) as u8);
    buffer.push((b7 % 256) as u8);
    proof {
        reveal_with_fuel(big_endian, 9);
        assert(buffer@ =~= old(buffer)@ + encoded_u64(value));
    }
}

/// Appends the big-endian image of a 32-bit integer.
pub(crate) fn put_u32(buffer: &mut Vec<u8>, value: u32)
    ensures
        final(buffer)@ == old(buffer)@ + encoded_u32(value),
{
    let b3: u32 = value;
    let b2: u32 = b3 / 256;
    let b1: u32 = b2 / 256;
    let b0: u32 = b1 / 256;
    buffer.push((b0 % 256) as u8);
    buffer.push((b1 % 256) as u8);
    buffer.push((b2 % 256) as u8);
    buffer.push((b3 % 256) as u8);
    proof {
        reveal_with_fuel(big_endian, 5);
        assert(buffer@ =~= old(buffer)@ + encoded_u32(value));
    }
}

/// Appends the big-endian image of a 16-bit integer.
pub(crate) fn put_u16(buffer: &mut Vec<u8>, value: u16)
    ensures
        final(buffer)@ == old(buffer)@ + encoded_u16(value),
{
    buffer.push((value / 256) as u8);
    buffer.push((value % 256) as u8);
    proof {
        reveal_with_fuel(big_endian, 3);
        assert(buffer@ =~= old(buffer)@ + encoded_u16(value));
    }
}

/// Appends the big-endian two's complement image of a signed 64-bit integer.
pub(crate) fn put_i64(buffer: &mut Vec<u8>, value: i64)
    ensures
        final(buffer)@ == old(buffer)@ + encoded_i64(value),
{
    let image: u64 = if value >= 0 {
        value as u64
    } else {
        u64::MAX - (-(value + 1)) as u64
    };
    put_u64(buffer, image);
}

/// Appends one byte.
pub(crate) fn put_byte(buffer: &mut Vec<u8>, byte: u8)
    ensures
        final(buffer)@ == old(buffer)@ + seq![byte],
{
    buffer.push(byte);
    proof {
        assert(buffer@ =~= old(buffer)@ + seq![byte]);
    }
}

/// A buffer that starts with a domain label.
pub(crate) fn labelled(label: &str) -> (buffer: Vec<u8>)
    ensures
        buffer@ == utf8(label@),
{
    let mut buffer: Vec<u8> = Vec::new();
    put_bytes(&mut buffer, label.as_bytes());
    proof {
        assert(buffer@ =~= utf8(label@));
    }
    buffer
}

/// Appends bytes as they are.
pub(crate) fn put_bytes(buffer: &mut Vec<u8>, bytes: &[u8])
    ensures
        final(buffer)@ == old(buffer)@ + bytes@,
{
    buffer.extend_from_slice(bytes);
    proof {
        assert(buffer@ =~= old(buffer)@ + bytes@);
    }
}

/// Appends bytes behind their own length.
pub(crate) fn put_framed(buffer: &mut Vec<u8>, bytes: &[u8])
    ensures
        final(buffer)@ == old(buffer)@ + framed(bytes@),
{
    put_u64(buffer, bytes.len() as u64);
    put_bytes(buffer, bytes);
    proof {
        assert(buffer@ =~= old(buffer)@ + framed(bytes@));
    }
}

/// What the lowest digit of a number of base 256 counts for behind so many others.
pub open spec fn place_value(places: nat) -> nat
    decreases places,
{
    if places == 0 {
        1
    } else {
        256 * place_value((places - 1) as nat)
    }
}

/// The number that bytes stand for where the first is the most significant.
pub open spec fn big_endian_value(bytes: Seq<u8>) -> nat
    decreases bytes.len(),
{
    if bytes.len() == 0 {
        0
    } else {
        bytes[0] as nat * place_value((bytes.len() - 1) as nat) + big_endian_value(
            bytes.drop_first(),
        )
    }
}

proof fn lemma_one_more_byte(bytes: Seq<u8>, last: u8)
    ensures
        big_endian_value(bytes.push(last)) == 256 * big_endian_value(bytes) + last,
    decreases bytes.len(),
{
    let longer = bytes.push(last);
    if bytes.len() == 0 {
        assert(longer.drop_first() =~= Seq::<u8>::empty());
        assert(place_value(0) == 1);
        assert(longer[0] == last);
        assert(big_endian_value(longer.drop_first()) == 0);
    } else {
        let rest = bytes.drop_first();
        assert(longer.drop_first() =~= rest.push(last));
        lemma_one_more_byte(rest, last);
        let first = bytes[0] as nat;
        let place = place_value((bytes.len() - 1) as nat);
        assert(place_value(bytes.len()) == 256 * place);
        assert(first * (256 * place) == 256 * (first * place)) by (nonlinear_arith);
    }
}

/// A number's image, read with its most significant byte first, is the number.
pub proof fn lemma_images_read_back(value: nat, width: nat)
    requires
        value < place_value(width),
    ensures
        big_endian_value(big_endian(value, width)) == value,
        big_endian(value, width).len() == width,
    decreases width,
{
    lemma_big_endian_len(value, width);
    if width > 0 {
        let before = (width - 1) as nat;
        lemma_images_read_back(value / 256, before);
        lemma_one_more_byte(big_endian(value / 256, before), (value % 256) as u8);
    }
}

/// Integers of one width have different images, and the image of an unsigned one reads back as
/// itself.
pub proof fn lemma_encoded_integers_tell_apart(
    a: u64,
    b: u64,
    c: u32,
    d: u32,
    e: i64,
    f: i64,
)
    ensures
        big_endian_value(encoded_u64(a)) == a,
        encoded_u64(a) == encoded_u64(b) <==> a == b,
        big_endian_value(encoded_u32(c)) == c,
        encoded_u32(c) == encoded_u32(d) <==> c == d,
        encoded_i64(e) == encoded_i64(f) <==> e == f,
        e >= 0 ==> big_endian_value(encoded_i64(e)) == e,
        e < 0 ==> big_endian_value(encoded_i64(e)) == 0x1_0000_0000_0000_0000 + e,
{
    reveal_with_fuel(place_value, 9);
    lemma_images_read_back(a as nat, 8);
    lemma_images_read_back(b as nat, 8);
    lemma_images_read_back(c as nat, 4);
    lemma_images_read_back(d as nat, 4);
    lemma_images_read_back(unsigned_image(e), 8);
    lemma_images_read_back(unsigned_image(f), 8);
}

/// Bytes behind their length end where the length says: what follows them cannot be taken for a
/// part of them.
pub proof fn lemma_frames_are_told_apart(a: Seq<u8>, x: Seq<u8>, b: Seq<u8>, y: Seq<u8>)
    requires
        a.len() <= u64::MAX,
        b.len() <= u64::MAX,
        framed(a) + x == framed(b) + y,
    ensures
        a == b,
        x == y,
{
    reveal_with_fuel(place_value, 9);
    lemma_images_read_back(a.len(), 8);
    lemma_images_read_back(b.len(), 8);
    let left = framed(a) + x;
    let right = framed(b) + y;
    assert(left.take(8) =~= big_endian(a.len(), 8));
    assert(right.take(8) =~= big_endian(b.len(), 8));
    assert(a.len() == b.len());
    assert(left.subrange(8, 8 + a.len() as int) =~= a);
    assert(right.subrange(8, 8 + b.len() as int) =~= b);
    assert(left.skip(8 + a.len() as int) =~= x);
    assert(right.skip(8 + b.len() as int) =~= y);
}

} // verus!
