use vstd::prelude::*;
use crate::api::Status;
use crate::wire::{u32_at, bytes32, get_u32_le, put_u32_le, lemma_le32_of_bytes};

verus! {

/// The kind number of a Gaussian blur pass in filter descriptions.
pub const FILTER_PASS_KIND_GAUSSIAN: u32 = 1;

/// What a filter pipeline run did: how many passes ran, and how many of
/// them frosted the image.
#[derive(Debug, Clone, Copy, Default, PartialEq, Eq, Structural)]
pub struct FilterReport {
    pub executed_passes: u32,
    pub frost_passes: u32,
}

/// Why an RGBA buffer of `len` bytes does not fit `width` by `height`, if
/// it does not: an empty size or a wrong length is an invalid argument, a
/// byte count past the machine word is out of range.
pub open spec fn rgba_len_failure(width: u32, height: u32, len: int) -> Option<Status> {
    if width == 0 || height == 0 {
        Some(Status::InvalidArgument)
    } else if width * height * 4 > usize::MAX {
        Some(Status::OutOfRange)
    } else if len != width * height * 4 {
        Some(Status::InvalidArgument)
    } else {
        None
    }
}

/// Checks an RGBA buffer length, as `rgba_len_failure` says.
pub fn validate_rgba_len(width: u32, height: u32, len: usize) -> (r: Result<(), Status>)
    ensures
        match rgba_len_failure(width, height, len as int) {
            Some(s) => r == Err::<(), Status>(s),
            None => r is Ok,
        },
{
    if width == 0 || height == 0 {
        return Err(Status::InvalidArgument);
    }
    let expected = match (width as usize).checked_mul(height as usize) {
        Some(p) => match p.checked_mul(4) {
            Some(n) => n,
            None => return Err(Status::OutOfRange),
        },
        None => {
            assert(width * height * 4 > usize::MAX) by (nonlinear_arith)
                requires
                    width * height > usize::MAX,
            ;
            return Err(Status::OutOfRange);
        },
    };
    if expected != len {
        return Err(Status::InvalidArgument);
    }
    Ok(())
}

/// A failure of the GPU path, with its message.
#[derive(Debug, Clone, PartialEq, Eq)]
pub struct VulkanError {
    pub message: String,
}

impl VulkanError {
    /// An error with this message.
    pub fn new(message: &str) -> (r: Self)
        ensures
            r.message@ == message@,
    {
        VulkanError { message: message.to_owned() }
    }
}

/// The little-endian words of `bytes`, four bytes each; trailing bytes that
/// do not fill a word are left out.
pub open spec fn words_of(bytes: Seq<u8>) -> Seq<u32> {
    Seq::new(bytes.len() / 4, |i: int| u32_at(bytes, 4 * i))
}

/// The little-endian bytes of `words`, in order.
pub open spec fn bytes_of_words(words: Seq<u32>) -> Seq<u8>
    decreases words.len(),
{
    if words.len() == 0 {
        Seq::empty()
    } else {
        bytes_of_words(words.drop_last()) + bytes32(words.last())
    }
}

proof fn lemma_bytes_of_words_len(words: Seq<u32>)
    ensures
        bytes_of_words(words).len() == 4 * words.len(),
    decreases words.len(),
{
    if words.len() > 0 {
        lemma_bytes_of_words_len(words.drop_last());
    }
}

proof fn lemma_bytes_of_words_at(words: Seq<u32>, i: int)
    requires
        0 <= i < words.len(),
    ensures
        bytes_of_words(words).subrange(4 * i, 4 * i + 4) == bytes32(words[i]),
    decreases words.len(),
{
    lemma_bytes_of_words_len(words);
    lemma_bytes_of_words_len(words.drop_last());
    if i < words.len() - 1 {
        lemma_bytes_of_words_at(words.drop_last(), i);
        assert(bytes_of_words(words).subrange(4 * i, 4 * i + 4) =~= bytes_of_words(
            words.drop_last(),
        ).subrange(4 * i, 4 * i + 4));
    } else {
        assert(bytes_of_words(words).subrange(4 * i, 4 * i + 4) =~= bytes32(words[i]));
    }
}

/// Packs RGBA bytes into little-endian words, one per pixel.
pub fn pack_rgba_words(bytes: &[u8]) -> (r: Vec<u32>)
    ensures
        r@ == words_of(bytes@),
{
    let n = bytes.len() / 4;
    let mut out: Vec<u32> = Vec::new();
    let mut i: usize = 0;
    while i < n
        invariant
            n == bytes@.len() / 4,
            bytes@.len() <= usize::MAX,
            i <= n,
            out@ == words_of(bytes@).take(i as int),
        decreases n - i,
    {
        assert(4 * i + 4 <= bytes@.len()) by (nonlinear_arith)
            requires
                i < n,
                n == bytes@.len() / 4,
        ;
        let off: usize = i + i + i + i;
        out.push(get_u32_le(bytes, off));
        i += 1;
        assert(out@ =~= words_of(bytes@).take(i as int));
    }
    assert(words_of(bytes@).take(n as int) =~= words_of(bytes@));
    out
}

/// The little-endian bytes of `words`.
pub fn words_to_le_bytes(words: &[u32]) -> (r: Vec<u8>)
    ensures
        r@ == bytes_of_words(words@),
{
    let mut out: Vec<u8> = Vec::new();
    let mut i: usize = 0;
    while i < words.len()
        invariant
            i <= words@.len(),
            out@ == bytes_of_words(words@.take(i as int)),
        decreases words@.len() - i,
    {
        put_u32_le(&mut out, words[i]);
        assert(words@.take(i + 1).drop_last() =~= words@.take(i as int));
        i += 1;
    }
    assert(words@.take(words@.len() as int) =~= words@);
    out
}

/// Writes each word's little-endian bytes over the pixels of `out_bytes`,
/// as many pixels as there are words for.
pub fn unpack_rgba_words(words: &[u32], out_bytes: &mut Vec<u8>)
    requires
        old(out_bytes)@.len() / 4 <= words@.len(),
    ensures
        final(out_bytes)@.len() == old(out_bytes)@.len(),
        forall|i: int| 0 <= i < old(out_bytes)@.len() / 4 ==> #[trigger] u32_at(final(out_bytes)@, 4 * i) == words@[i],
        forall|j: int| 4 * (old(out_bytes)@.len() / 4) <= j < old(out_bytes)@.len() ==> final(out_bytes)@[j] == old(out_bytes)@[j],
{
    let n = out_bytes.len() / 4;
    let ghost len = out_bytes@.len();
    let mut i: usize = 0;
    while i < n
        invariant
            n == len / 4,
            len <= usize::MAX,
            out_bytes@.len() == len,
            n <= words@.len(),
            i <= n,
            forall|k: int| 0 <= k < i ==> #[trigger] u32_at(out_bytes@, 4 * k) == words@[k],
            forall|j: int| 4 * i <= j < len ==> out_bytes@[j] == old(out_bytes)@[j],
        decreases n - i,
    {
        let w = words[i];
        assert(4 * i + 4 <= len) by (nonlinear_arith)
            requires
                i < n,
                n == len / 4,
        ;
        let ghost prev = out_bytes@;
        let off: usize = i + i + i + i;
        out_bytes.set(off, w as u8);
        out_bytes.set(off + 1, (w >> 8u32) as u8);
        out_bytes.set(off + 2, (w >> 16u32) as u8);
        out_bytes.set(off + 3, (w >> 24u32) as u8);
        proof {
            lemma_le32_of_bytes(w);
            assert forall|k: int| 0 <= k < i + 1 implies #[trigger] u32_at(out_bytes@, 4 * k) == words@[k] by {
                if k == i {
                    assert(u32_at(out_bytes@, 4 * k) == w);
                } else {
                    assert(u32_at(prev, 4 * k) == words@[k]);
                    assert(out_bytes@[4 * k] == prev[4 * k]);
                    assert(out_bytes@[4 * k + 1] == prev[4 * k + 1]);
                    assert(out_bytes@[4 * k + 2] == prev[4 * k + 2]);
                    assert(out_bytes@[4 * k + 3] == prev[4 * k + 3]);
                }
            }
        }
        i += 1;
    }
}

/// The words of a buffer read back from the GPU; a length that is not a
/// whole number of words is the error `vulkan_output_not_aligned`.
pub fn le_bytes_to_words(bytes: &[u8]) -> (r: Result<Vec<u32>, VulkanError>)
    ensures
        bytes@.len() % 4 == 0 ==> (r matches Ok(w) && w@ == words_of(bytes@)),
        bytes@.len() % 4 != 0 ==> (r matches Err(e) && e.message@ == "vulkan_output_not_aligned"@),
{
    if bytes.len() % 4 != 0 {
        return Err(VulkanError::new("vulkan_output_not_aligned"));
    }
    Ok(pack_rgba_words(bytes))
}

/// Reading words back from their little-endian bytes gives the words.
pub proof fn lemma_words_roundtrip(words: Seq<u32>)
    ensures
        words_of(bytes_of_words(words)) == words,
{
    lemma_bytes_of_words_len(words);
    let b = bytes_of_words(words);
    assert forall|i: int| 0 <= i < words.len() implies #[trigger] words_of(b)[i] == words[i] by {
        lemma_bytes_of_words_at(words, i);
        lemma_le32_of_bytes(words[i]);
        assert(b[4 * i] == b.subrange(4 * i, 4 * i + 4)[0]);
        assert(b[4 * i + 1] == b.subrange(4 * i, 4 * i + 4)[1]);
        assert(b[4 * i + 2] == b.subrange(4 * i, 4 * i + 4)[2]);
        assert(b[4 * i + 3] == b.subrange(4 * i, 4 * i + 4)[3]);
    }
    assert(words_of(b) =~= words);
}

} // verus!
