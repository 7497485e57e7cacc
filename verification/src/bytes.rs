//! Big-endian integers, the number format of every packet on the wire.

use vstd::prelude::*;

verus! {

/// The number that a byte string spells, most significant byte first.
pub open spec fn be_value(bytes: Seq<u8>) -> nat
    decreases bytes.len(),
{
    if bytes.len() == 0 {
        0
    } else {
        be_value(bytes.drop_last()) * 256 + bytes.last() as nat
    }
}

/// The `width` byte string that spells `value`, most significant byte first.
pub open spec fn be_bytes(value: nat, width: nat) -> Seq<u8>
    decreases width,
{
    if width == 0 {
        Seq::empty()
    } else {
        be_bytes(value / 256, (width - 1) as nat).push((value % 256) as u8)
    }
}

/// How many numbers fit in `width` bytes.
pub open spec fn be_range(width: nat) -> nat
    decreases width,
{
    if width == 0 {
        1
    } else {
        256 * be_range((width - 1) as nat)
    }
}

/// The ranges of the integer widths that occur in packets.
pub proof fn lemma_be_ranges()
    ensures
        be_range(1) == 0x100,
        be_range(2) == 0x1_0000,
        be_range(4) == 0x1_0000_0000,
        be_range(8) == 0x1_0000_0000_0000_0000,
{
    reveal_with_fuel(be_range, 9);
}

/// `width` bytes spell a number below `be_range(width)`.
pub proof fn lemma_be_value_bound(bytes: Seq<u8>)
    ensures
        be_value(bytes) < be_range(bytes.len()),
    decreases bytes.len(),
{
    if bytes.len() > 0 {
        lemma_be_value_bound(bytes.drop_last());
    }
}

/// A number is spelled with as many bytes as asked for.
pub proof fn lemma_be_bytes_len(value: nat, width: nat)
    ensures
        be_bytes(value, width).len() == width,
    decreases width,
{
    if width > 0 {
        lemma_be_bytes_len(value / 256, (width - 1) as nat);
    }
}

/// Reading gives back the number that was written, if it fits.
pub proof fn lemma_be_read_write(value: nat, width: nat)
    requires
        value < be_range(width),
    ensures
        be_bytes(value, width).len() == width,
        be_value(be_bytes(value, width)) == value,
    decreases width,
{
    lemma_be_bytes_len(value, width);
    if width > 0 {
        lemma_be_read_write(value / 256, (width - 1) as nat);
        assert(be_bytes(value, width).drop_last() =~= be_bytes(value / 256, (width - 1) as nat));
    }
}

/// Writing the number that was read gives back the bytes.
pub proof fn lemma_be_write_read(bytes: Seq<u8>)
    ensures
        be_bytes(be_value(bytes), bytes.len()) == bytes,
    decreases bytes.len(),
{
    if bytes.len() > 0 {
        lemma_be_write_read(bytes.drop_last());
        let high = be_value(bytes.drop_last());
        let low = bytes.last();
        assert((high * 256 + low as nat) / 256 == high);
        assert((high * 256 + low as nat) % 256 == low as nat);
        assert(be_bytes(be_value(bytes), bytes.len()) =~= bytes);
    }
}

/// Appends `value` to `out`, as `width` bytes.
pub fn push_be(out: &mut Vec<u8>, value: u64, width: usize)
    ensures
        final(out)@ == old(out)@ + be_bytes(value as nat, width as nat),
    decreases width,
{
    if width > 0 {
        push_be(out, value / 256, width - 1);
        out.push((value % 256) as u8);
        assert(out@ =~= old(out)@ + be_bytes(value as nat, width as nat));
    }
}

/// The number spelled by the `width` bytes of `data` from `start` on.
pub fn read_be(data: &[u8], start: usize, width: usize) -> (value: u64)
    requires
        width <= 8,
        start + width <= data@.len(),
    ensures
        value == be_value(data@.subrange(start as int, start + width)),
        value < be_range(width as nat),
{
    let mut value: u64 = 0;
    let mut taken: usize = 0;
    while taken < width
        invariant
            taken <= width <= 8,
            start + width <= data@.len(),
            value == be_value(data@.subrange(start as int, start + taken)),
        decreases width - taken,
    {
        assert(data@.len() == data.len());
        let byte: u8 = data[start + taken];
        proof {
            let ghost next = data@.subrange(start as int, start + taken + 1);
            assert(next.drop_last() =~= data@.subrange(start as int, start + taken));
            lemma_be_value_bound(next);
            reveal_with_fuel(be_range, 9);
        }
        value = value * 256 + byte as u64;
        taken += 1;
    }
    proof {
        lemma_be_value_bound(data@.subrange(start as int, start + width));
    }
    value
}

/// The numbers `words` one after the other, each as `width` bytes.
pub open spec fn be_words(words: Seq<nat>, width: nat) -> Seq<u8>
    decreases words.len(),
{
    if words.len() == 0 {
        Seq::empty()
    } else {
        be_words(words.drop_last(), width) + be_bytes(words.last(), width)
    }
}

/// Each word stands where the words before it end.
pub proof fn lemma_be_words(words: Seq<nat>, width: nat)
    ensures
        be_words(words, width).len() == words.len() * width,
        forall|i: int|
            #![trigger words[i]]
            0 <= i < words.len() ==> be_words(words, width).subrange(i * width, i * width + width)
                == be_bytes(words[i], width),
    decreases words.len(),
{
    if words.len() > 0 {
        let init = words.drop_last();
        lemma_be_words(init, width);
        lemma_be_bytes_len(words.last(), width);
        assert((words.len() - 1) * width + width == words.len() * width) by (nonlinear_arith);
        assert forall|i: int| #![trigger words[i]] 0 <= i < words.len() implies be_words(
            words,
            width,
        ).subrange(i * width, i * width + width) == be_bytes(words[i], width) by {
            if i < init.len() {
                assert(words[i] == init[i]);
                assert(0 <= i * width && i * width + width <= init.len() * width)
                    by (nonlinear_arith)
                    requires
                        0 <= i < init.len(),
                ;
                assert(be_words(words, width).subrange(i * width, i * width + width) =~= be_words(
                    init,
                    width,
                ).subrange(i * width, i * width + width));
            } else {
                assert(be_words(words, width).subrange(i * width, i * width + width) =~= be_bytes(
                    words[i],
                    width,
                ));
            }
        }
    }
}

/// The numbers of a sequence of machine words.
pub open spec fn word_values(words: Seq<u64>) -> Seq<nat> {
    words.map_values(|word: u64| word as nat)
}

/// Appends `words` to `out`, each as `width` bytes.
pub fn push_words(out: &mut Vec<u8>, words: &[u64], width: usize)
    ensures
        final(out)@ == old(out)@ + be_words(word_values(words@), width as nat),
{
    let mut done: usize = 0;
    while done < words.len()
        invariant
            done <= words@.len(),
            out@ == old(out)@ + be_words(word_values(words@.take(done as int)), width as nat),
        decreases words@.len() - done,
    {
        push_be(out, words[done], width);
        proof {
            let ghost next = word_values(words@.take(done + 1));
            assert(next.drop_last() =~= word_values(words@.take(done as int)));
            assert(next.last() == words@[done as int]);
        }
        done += 1;
    }
    assert(words@.take(done as int) =~= words@);
}

} // verus!
