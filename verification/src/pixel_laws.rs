//! What a buffer of pixels holds.
use vstd::arithmetic::div_mod::{lemma_mod_sub_multiples_vanish, lemma_small_mod};
use vstd::prelude::*;

use crate::pixel::{repeats, Pixel};

verus! {

/// The component in two bytes of a buffer, the one that counts less being at `low`.
pub open spec fn component_at(buffer: Seq<u8>, low: int, high: int) -> int {
    buffer[low] + 256 * buffer[high]
}

/// Whether pixel `i` of the buffer is `pixel`, each component with its low byte at `low` and its
/// high byte at `high` of its two bytes.
pub open spec fn pixel_at(buffer: Seq<u8>, i: int, pixel: Pixel, low: int, high: int) -> bool {
    &&& component_at(buffer, 8 * i + low, 8 * i + high) == pixel.r
    &&& component_at(buffer, 8 * i + 2 + low, 8 * i + 2 + high) == pixel.g
    &&& component_at(buffer, 8 * i + 4 + low, 8 * i + 4 + high) == pixel.b
    &&& component_at(buffer, 8 * i + 6 + low, 8 * i + 6 + high) == pixel.a
}

/// A buffer that is filled with a pixel holds that pixel at every place, each component in two
/// bytes, red first and the opacity last; which byte of a component comes first is one of two
/// ways, and the same everywhere.
pub proof fn law_every_pixel_is_filled(buffer: Seq<u8>, pixel: Pixel, i: int)
    requires
        0 <= i,
        8 * i + 8 <= buffer.len(),
    ensures
        repeats(buffer, pixel.low_first()) ==> pixel_at(buffer, i, pixel, 0, 1),
        repeats(buffer, pixel.high_first()) ==> pixel_at(buffer, i, pixel, 1, 0),
{
    assert(pixel.low_first().len() == 8);
    assert(pixel.high_first().len() == 8);
    assert forall|k: int| 0 <= k < 8 implies #[trigger] ((8 * i + k) % 8) == k by {
    }
    let at: int = 8 * i;
    if repeats(buffer, pixel.low_first()) {
        let bytes = pixel.low_first();
        assert(buffer[at] == bytes[(8 * i + 0) % 8]);
        assert(buffer[at + 1] == bytes[(8 * i + 1) % 8]);
        assert(buffer[at + 2] == bytes[(8 * i + 2) % 8]);
        assert(buffer[at + 3] == bytes[(8 * i + 3) % 8]);
        assert(buffer[at + 4] == bytes[(8 * i + 4) % 8]);
        assert(buffer[at + 5] == bytes[(8 * i + 5) % 8]);
        assert(buffer[at + 6] == bytes[(8 * i + 6) % 8]);
        assert(buffer[at + 7] == bytes[(8 * i + 7) % 8]);
    }
    if repeats(buffer, pixel.high_first()) {
        let bytes = pixel.high_first();
        assert(buffer[at] == bytes[(8 * i + 0) % 8]);
        assert(buffer[at + 1] == bytes[(8 * i + 1) % 8]);
        assert(buffer[at + 2] == bytes[(8 * i + 2) % 8]);
        assert(buffer[at + 3] == bytes[(8 * i + 3) % 8]);
        assert(buffer[at + 4] == bytes[(8 * i + 4) % 8]);
        assert(buffer[at + 5] == bytes[(8 * i + 5) % 8]);
        assert(buffer[at + 6] == bytes[(8 * i + 6) % 8]);
        assert(buffer[at + 7] == bytes[(8 * i + 7) % 8]);
    }
}

/// A buffer repeats some bytes exactly if it starts with them, as far as it goes, and each later
/// byte is the one that came that many bytes before.
pub proof fn law_repetition_has_a_period(buffer: Seq<u8>, bytes: Seq<u8>)
    requires
        bytes.len() > 0,
    ensures
        repeats(buffer, bytes) <==> {
            &&& forall|i: int|
                0 <= i < buffer.len() && i < bytes.len() ==> #[trigger] buffer[i] == bytes[i]
            &&& forall|i: int|
                bytes.len() <= i < buffer.len() ==> #[trigger] buffer[i] == buffer[i - bytes.len()]
        },
{
    let period = bytes.len() as int;
    assert forall|i: int| period <= i implies #[trigger] (i % period) == (i - period) % period by {
        lemma_mod_sub_multiples_vanish(i, period);
    }
    if repeats(buffer, bytes) {
        assert forall|i: int| 0 <= i < buffer.len() && i < period implies #[trigger] buffer[i]
            == bytes[i] by {
            lemma_small_mod(i as nat, period as nat);
        }
        assert forall|i: int| period <= i < buffer.len() implies #[trigger] buffer[i] == buffer[i
            - period] by {
            assert(i % period == (i - period) % period);
        }
    }
    if (forall|i: int|
        0 <= i < buffer.len() && i < bytes.len() ==> #[trigger] buffer[i] == bytes[i]) && (forall|
        i: int,
    |
        bytes.len() <= i < buffer.len() ==> #[trigger] buffer[i] == buffer[i - bytes.len()]) {
        assert forall|i: int| 0 <= i < buffer.len() implies #[trigger] buffer[i] == bytes[i
            % period] by {
            lemma_periodic(buffer, bytes, i);
        }
    }
}

proof fn lemma_periodic(buffer: Seq<u8>, bytes: Seq<u8>, i: int)
    requires
        bytes.len() > 0,
        0 <= i < buffer.len(),
        forall|i: int|
            0 <= i < buffer.len() && i < bytes.len() ==> #[trigger] buffer[i] == bytes[i],
        forall|i: int|
            bytes.len() <= i < buffer.len() ==> #[trigger] buffer[i] == buffer[i - bytes.len()],
    ensures
        buffer[i] == bytes[i % bytes.len() as int],
    decreases i,
{
    let period = bytes.len() as int;
    if i < period {
        lemma_small_mod(i as nat, period as nat);
    } else {
        lemma_periodic(buffer, bytes, i - period);
        lemma_mod_sub_multiples_vanish(i, period);
    }
}

/// A color without transparency has its three components and full opacity.
pub proof fn law_opaque_color_has_its_components(r: u16, g: u16, b: u16)
    ensures
        Pixel::opaque(r, g, b) == (Pixel { r, g, b, a: 0x3c00 }),
{
}

} // verus!
