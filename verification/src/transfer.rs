//! Block transfers between main RAM and a device.
//!
//! Both consoles count a transfer in words, in one or two 16-bit fields, and walk
//! RAM upward or downward from a base address.

use vstd::prelude::*;

use crate::bits::lemma_dma_sync;
use crate::bytes::{halves, high_half, law_word_round_trip, low_half, with_word, word_at};

verus! {

/// The number of words in main RAM.
pub const MAX_RAM_WORDS: u64 = 0x8_0000;

/// The two-bit synchronization mode.
pub open spec fn sync_of(chcr: u32) -> int {
    (chcr as int / 0x200) % 4
}

/// A 16-bit count in which zero stands for 65536.
pub open spec fn count_of(field: u16) -> int {
    if field == 0 {
        0x1_0000
    } else {
        field as int
    }
}

/// The programmed number of words.
pub open spec fn words_of(bcr: u32, sync: int) -> int {
    if sync == 0 {
        count_of(low_half(bcr))
    } else {
        count_of(low_half(bcr)) * count_of(high_half(bcr))
    }
}

/// The address of word `index` of a transfer.
pub open spec fn word_address(base: u32, index: int, decrement: bool) -> int {
    if decrement {
        base - 4 * index
    } else {
        base + 4 * index
    }
}

/// Whether every word of a transfer lies in a RAM of `size` bytes.
pub open spec fn in_ram(base: u32, words: u64, decrement: bool, size: int) -> bool {
    &&& base + 4 <= size
    &&& 0 <= word_address(base, words - 1, decrement)
    &&& word_address(base, words - 1, decrement) + 4 <= size
}

/// The words that a transfer takes from RAM, in transfer order.
pub open spec fn outgoing(ram: Seq<u8>, base: u32, words: nat, decrement: bool) -> Seq<u32> {
    Seq::new(words, |index: int| word_at(ram, word_address(base, index, decrement)))
}

/// RAM after a transfer put `words` there, in transfer order.
pub open spec fn incoming(
    ram: Seq<u8>,
    base: u32,
    words: Seq<u32>,
    decrement: bool,
) -> Seq<u8>
    decreases words.len(),
{
    if words.len() == 0 {
        ram
    } else {
        with_word(
            incoming(ram, base, words.drop_last(), decrement),
            word_address(base, words.len() - 1, decrement),
            words.last(),
        )
    }
}

/// Returns the two-bit synchronization mode.
pub fn sync_mode(chcr: u32) -> (result: u8)
    ensures
        result == sync_of(chcr),
{
    proof {
        lemma_dma_sync(chcr);
    }
    ((chcr & 0x600) >> 9) as u8
}

/// Returns the programmed number of words.
pub fn programmed_words(bcr: u32, sync: u8) -> (result: u64)
    requires
        sync <= 1,
    ensures
        result == words_of(bcr, sync as int),
        1 <= result <= 0x1_0000_0000,
{
    let (low, high) = halves(bcr);
    let low: u64 = if low == 0 {
        0x1_0000
    } else {
        u64::from(low)
    };
    let high: u64 = if high == 0 {
        0x1_0000
    } else {
        u64::from(high)
    };
    proof {
        assert(1 <= low * high <= 0x1_0000_0000) by (nonlinear_arith)
            requires
                1 <= low <= 0x1_0000,
                1 <= high <= 0x1_0000,
        ;
    }
    if sync == 0 {
        low
    } else {
        low * high
    }
}

/// Reports whether every word of a transfer lies in a RAM of `size` bytes.
pub fn range_fits(base: u32, words: u64, decrement: bool, size: usize) -> (result: bool)
    requires
        1 <= words <= MAX_RAM_WORDS,
    ensures
        result == in_ram(base, words, decrement, size as int),
{
    let first: u64 = base as u64;
    let span: u64 = (words - 1) * 4;
    let size: u64 = size as u64;
    if first + 4 > size {
        false
    } else if decrement {
        span <= first
    } else {
        first + span + 4 <= size
    }
}

/// Returns the address of word `index` of a transfer that lies in RAM.
pub fn transfer_address(
    base: u32,
    index: u64,
    decrement: bool,
    words: u64,
    size: usize,
) -> (result: usize)
    requires
        index < words <= MAX_RAM_WORDS,
        in_ram(base, words, decrement, size as int),
    ensures
        result == word_address(base, index as int, decrement),
        result + 4 <= size,
{
    let offset: usize = index as usize * 4;
    if decrement {
        base as usize - offset
    } else {
        base as usize + offset
    }
}

/// Whether `at` is a byte of one of the first `count` words of a transfer.
pub open spec fn covered(base: u32, count: int, decrement: bool, at: int) -> bool {
    if decrement {
        base - 4 * (count - 1) <= at < base + 4
    } else {
        base <= at < base + 4 * count
    }
}

/// A transfer into RAM changes only the bytes of its words.
pub proof fn law_receiving_changes_only_its_range(
    ram: Seq<u8>,
    base: u32,
    words: Seq<u32>,
    decrement: bool,
    count: u64,
)
    requires
        words.len() <= count,
        in_ram(base, count, decrement, ram.len() as int),
    ensures
        incoming(ram, base, words, decrement).len() == ram.len(),
        forall|at: int|
            0 <= at < ram.len() && !covered(base, words.len() as int, decrement, at)
                ==> #[trigger] incoming(ram, base, words, decrement)[at] == ram[at],
    decreases words.len(),
{
    if words.len() > 0 {
        let shorter = words.drop_last();
        law_receiving_changes_only_its_range(ram, base, shorter, decrement, count);
        let before = incoming(ram, base, shorter, decrement);
        let address = word_address(base, words.len() - 1, decrement);
        law_word_round_trip(before, address, words.last());
    }
}

/// Words that a transfer puts into RAM are found at their addresses in transfer
/// order.
pub proof fn law_received_words_are_in_place(
    ram: Seq<u8>,
    base: u32,
    words: Seq<u32>,
    decrement: bool,
    count: u64,
    index: int,
)
    requires
        words.len() <= count,
        in_ram(base, count, decrement, ram.len() as int),
        0 <= index < words.len(),
    ensures
        word_at(
            incoming(ram, base, words, decrement),
            word_address(base, index, decrement),
        ) == words[index],
    decreases words.len(),
{
    let shorter = words.drop_last();
    law_receiving_changes_only_its_range(ram, base, shorter, decrement, count);
    let before = incoming(ram, base, shorter, decrement);
    let address = word_address(base, words.len() - 1, decrement);
    law_word_round_trip(before, address, words.last());
    if index < words.len() - 1 {
        law_received_words_are_in_place(ram, base, shorter, decrement, count, index);
        let at = word_address(base, index, decrement);
        let after = incoming(ram, base, words, decrement);
        assert(after == with_word(before, address, words.last()));
        assert(after[at] == before[at]);
        assert(after[at + 1] == before[at + 1]);
        assert(after[at + 2] == before[at + 2]);
        assert(after[at + 3] == before[at + 3]);
    }
}

/// The fields of the transfer registers.
pub proof fn lemma_fields(value: u32, flags: u32)
    by (bit_vector)
    ensures
        value & 0x00ff_fffc == value % 0x100_0000 - value % 4,
        value & 1 != 0 <==> value % 2 == 1,
        value & 2 != 0 <==> (value / 2) % 2 == 1,
        value & 8 != 0 <==> (value / 8) % 2 == 1,
        value & 0x8_0000 != 0 <==> (value / 0x8_0000) % 2 == 1,
        value & 0x100_0000 != 0 <==> (value / 0x100_0000) % 2 == 1,
        value & 0x1000_0000 != 0 <==> (value / 0x1000_0000) % 2 == 1,
        value & 0x8000 != 0 <==> (value / 0x8000) % 2 == 1,
        value & 0x80_0000 != 0 <==> (value / 0x80_0000) % 2 == 1,
        (value & 0x1100_0603) % 4 == value % 4,
        ((value & 0x1100_0603) / 0x200) % 4 == (value / 0x200) % 4,
        ((value & 0x1100_0603) / 0x100_0000) % 2 == (value / 0x100_0000) % 2,
        ((value & 0x1100_0603) / 0x1000_0000) % 2 == (value / 0x1000_0000) % 2,
        (value & !0x1100_0000u32) % 0x100_0000 == value % 0x100_0000,
        (value & !0x1100_0000u32) % 4 == value % 4,
        ((value & !0x1100_0000u32) / 0x200) % 4 == (value / 0x200) % 4,
        ((value & !0x1100_0000u32) / 0x100_0000) % 2 == 0,
        ((value & !0x1100_0000u32) / 0x1000_0000) % 2 == 0,
        (value & !0x100_0000u32) % 0x100_0000 == value % 0x100_0000,
        (value & !0x100_0000u32) / 0x200_0000 == value / 0x200_0000,
        ((value & !0x100_0000u32) / 0x100_0000) % 2 == 0,
        ((value & 0x007f_0000) << 8u32) & flags != 0 <==> ((value / 0x1_0000) % 0x80) & ((flags
            / 0x100_0000) % 0x80) != 0,
        ((value >> 16u32) & 0x7f) & ((flags >> 24u32) & 0x7f) == ((value / 0x1_0000) % 0x80) & ((
        flags / 0x100_0000) % 0x80),
        ((value >> 16u32) & 0x3f) & ((flags >> 24u32) & 0x3f) == ((value / 0x1_0000) % 0x40) & ((
        flags / 0x100_0000) % 0x40),
        (value & 0x00ff_803f) / 0x8000 == (value % 0x100_0000) / 0x8000,
        (value & 0x00ff_803f) % 0x40 == value % 0x40,
        value & 0x00ff_ffff == value % 0x100_0000,
{
}

/// A block count of zero stands for 65536, and without blocks only the lower half counts.
pub proof fn law_word_counts(low: u16, high: u16, bcr: u32)
    requires
        bcr == low + 0x1_0000 * high,
    ensures
        low > 0 ==> words_of(bcr, 0) == low,
        low == 0 ==> words_of(bcr, 0) == 0x1_0000,
        low > 0 && high > 0 ==> words_of(bcr, 1) == low * high,
        low == 0 && high > 0 ==> words_of(bcr, 1) == 0x1_0000 * high,
        low > 0 && high == 0 ==> words_of(bcr, 1) == low * 0x1_0000,
        low == 0 && high == 0 ==> words_of(bcr, 1) == 0x1_0000_0000,
        forall|chcr: u32| #[trigger] sync_of(chcr) == (chcr as int / 0x200) % 4,
{
}

/// Words are taken from RAM upward or downward from the base, low byte first, and a range
/// is good when all of its words lie in RAM.
pub proof fn law_transfer_order(ram: Seq<u8>, base: u32, words: u64, decrement: bool, index: int)
    requires
        0 <= index < words,
        in_ram(base, words, decrement, ram.len() as int),
    ensures
        ({
            let at = if decrement {
                base - 4 * index
            } else {
                base + 4 * index
            };
            &&& 0 <= at
            &&& at + 4 <= ram.len()
            &&& outgoing(ram, base, words as nat, decrement).len() == words
            &&& outgoing(ram, base, words as nat, decrement)[index] == ram[at] + 0x100 * ram[at
                + 1] + 0x1_0000 * ram[at + 2] + 0x100_0000 * ram[at + 3]
        }),
{
}

proof fn lemma_received(ram: Seq<u8>, base: u32, words: Seq<u32>, decrement: bool)
    requires
        words.len() > 0 ==> 0 <= word_address(base, words.len() - 1, decrement),
        words.len() > 0 ==> word_address(base, words.len() - 1, decrement) + 4 <= ram.len(),
        base + 4 <= ram.len(),
    ensures
        incoming(ram, base, words, decrement).len() == ram.len(),
        forall|index: int|
            0 <= index < words.len() ==> word_at(
                incoming(ram, base, words, decrement),
                #[trigger] word_address(base, index, decrement),
            ) == words[index],
        forall|other: int|
            0 <= other < ram.len() && (if decrement {
                other >= base + 4 || other < base + 4 - 4 * words.len()
            } else {
                other < base || other >= base + 4 * words.len()
            }) ==> #[trigger] incoming(ram, base, words, decrement)[other] == ram[other],
    decreases words.len(),
{
    if words.len() > 0 {
        let shorter = words.drop_last();
        lemma_received(ram, base, shorter, decrement);
        let before = incoming(ram, base, shorter, decrement);
        let at = word_address(base, words.len() - 1, decrement);
        law_word_round_trip(before, at, words.last());
        let after = incoming(ram, base, words, decrement);
        assert(after == with_word(before, at, words.last()));
        assert forall|index: int| 0 <= index < words.len() implies word_at(
            after,
            #[trigger] word_address(base, index, decrement),
        ) == words[index] by {
            let place = word_address(base, index, decrement);
            if index < words.len() - 1 {
                assert(words[index] == shorter[index]);
                assert(word_at(before, place) == shorter[index]);
                assert(after[place] == before[place]);
                assert(after[place + 1] == before[place + 1]);
                assert(after[place + 2] == before[place + 2]);
                assert(after[place + 3] == before[place + 3]);
            }
        }
        assert forall|other: int|
            0 <= other < ram.len() && (if decrement {
                other >= base + 4 || other < base + 4 - 4 * words.len()
            } else {
                other < base || other >= base + 4 * words.len()
            }) implies #[trigger] after[other] == ram[other] by {
            assert(after[other] == before[other]);
        }
    }
}

/// Received words go upward or downward from the base, low byte first, and the rest of RAM
/// keeps what it held.
pub proof fn law_received_words(
    ram: Seq<u8>,
    base: u32,
    words: Seq<u32>,
    decrement: bool,
    index: int,
    other: int,
)
    requires
        0 <= index < words.len() <= u64::MAX,
        in_ram(base, words.len() as u64, decrement, ram.len() as int),
        0 <= other < ram.len(),
    ensures
        ({
            let at = if decrement {
                base - 4 * index
            } else {
                base + 4 * index
            };
            let first = if decrement {
                base + 4 - 4 * words.len()
            } else {
                base as int
            };
            let after = incoming(ram, base, words, decrement);
            &&& after.len() == ram.len()
            &&& words[index] == after[at] + 0x100 * after[at + 1] + 0x1_0000 * after[at + 2]
                + 0x100_0000 * after[at + 3]
            &&& !(first <= other < first + 4 * words.len()) ==> after[other] == ram[other]
        }),
{
    lemma_received(ram, base, words, decrement);
    let at = word_address(base, index, decrement);
    assert(word_at(incoming(ram, base, words, decrement), at) == words[index]);
}

} // verus!
