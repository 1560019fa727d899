//! Bytes as they are handed to the GPU.
use vstd::prelude::*;

verus! {

/// The byte of value `256^k` of a word.
pub open spec fn word_byte(w: u32, k: int) -> int {
    if k == 0 {
        w as int % 256
    } else if k == 1 {
        w as int / 0x100 % 256
    } else if k == 2 {
        w as int / 0x1_0000 % 256
    } else {
        w as int / 0x100_0000 % 256
    }
}

/// The bytes of the words, each word with its low byte first.
pub open spec fn low_first(words: Seq<u32>, bytes: Seq<u8>) -> bool {
    &&& bytes.len() == 4 * words.len()
    &&& forall|i: int, k: int|
        #![trigger word_byte(words[i], k)]
        0 <= i < words.len() && 0 <= k < 4 ==> bytes[4 * i + k] == word_byte(words[i], k)
}

/// The bytes of the words, each word with its high byte first.
pub open spec fn high_first(words: Seq<u32>, bytes: Seq<u8>) -> bool {
    &&& bytes.len() == 4 * words.len()
    &&& forall|i: int, k: int|
        #![trigger word_byte(words[i], k)]
        0 <= i < words.len() && 0 <= k < 4 ==> bytes[4 * i + 3 - k] == word_byte(words[i], k)
}

/// The bytes of the words in the order of the machine.
pub open spec fn in_machine_order(words: Seq<u32>, bytes: Seq<u8>) -> bool {
    low_first(words, bytes) || high_first(words, bytes)
}

/// `bytemuck::cast_slice`: the memory of the words as bytes. All words come
/// with the same byte order, low or high byte first; which one depends on the
/// machine and is left open.
#[verifier::external_body]
pub(crate) fn words_as_bytes(words: &[u32]) -> (r: Vec<u8>)
    ensures
        in_machine_order(words@, r@),
{
    bytemuck::cast_slice::<u32, u8>(words).to_vec()
}

/// The bytes of a list of vertex indices.
pub fn index_bytes(indices: &Vec<u32>) -> (r: Vec<u8>)
    ensures
        in_machine_order(indices@, r@),
{
    words_as_bytes(indices.as_slice())
}

/// The words of the command that draws a whole mesh once: number of indices,
/// one instance, first index, base vertex and first instance all zero.
pub open spec fn draw_words(index_count: u32) -> Seq<u32> {
    seq![index_count, 1, 0, 0, 0]
}

/// The command that draws a whole mesh once, as the GPU reads it.
pub fn draw_command_bytes(index_count: u32) -> (r: Vec<u8>)
    ensures
        r@.len() == 20,
        in_machine_order(draw_words(index_count), r@),
{
    let mut words: Vec<u32> = Vec::new();
    words.push(index_count);
    words.push(1);
    words.push(0);
    words.push(0);
    words.push(0);
    assert(words@ =~= draw_words(index_count));
    words_as_bytes(words.as_slice())
}

/// The four bytes of a word make the word again, the first counting one, and
/// each next one 256 times the one before.
pub proof fn law_word_bytes(w: u32, k: int)
    requires
        0 <= k < 4,
    ensures
        0 <= word_byte(w, k) < 256,
        word_byte(w, 0) + 0x100 * word_byte(w, 1) + 0x1_0000 * word_byte(w, 2) + 0x100_0000
            * word_byte(w, 3) == w,
{
}

/// Words in either order of bytes: four bytes for each, its own, the lowest
/// first or last.
pub proof fn law_byte_orders(words: Seq<u32>, bytes: Seq<u8>, i: int)
    requires
        0 <= i < words.len(),
    ensures
        low_first(words, bytes) ==> bytes.len() == 4 * words.len() && bytes[4 * i] + 0x100
            * bytes[4 * i + 1] + 0x1_0000 * bytes[4 * i + 2] + 0x100_0000 * bytes[4 * i + 3]
            == words[i],
        high_first(words, bytes) ==> bytes.len() == 4 * words.len() && bytes[4 * i + 3] + 0x100
            * bytes[4 * i + 2] + 0x1_0000 * bytes[4 * i + 1] + 0x100_0000 * bytes[4 * i]
            == words[i],
        in_machine_order(words, bytes) <==> low_first(words, bytes) || high_first(words, bytes),
{
    let w = words[i];
    law_word_bytes(w, 0);
    assert(word_byte(words[i], 0) == w as int % 256);
    assert(word_byte(words[i], 1) == w as int / 0x100 % 256);
    assert(word_byte(words[i], 2) == w as int / 0x1_0000 % 256);
    assert(word_byte(words[i], 3) == w as int / 0x100_0000 % 256);
}

/// A draw of a mesh: its indices, one instance, and everything from the
/// start.
pub proof fn law_draw_words(index_count: u32, i: int)
    ensures
        draw_words(index_count).len() == 5,
        draw_words(index_count)[0] == index_count,
        draw_words(index_count)[1] == 1,
        2 <= i < 5 ==> draw_words(index_count)[i] == 0,
{
}

} // verus!
