//! Pixels of four half-precision components, and buffers of them.
use vstd::prelude::*;

verus! {

/// How many bytes a pixel takes up.
pub const PIXEL_BYTES: u32 = 8;

/// The bit pattern of one in half precision.
pub const HALF_ONE: u16 = 0x3c00;

/// A color with opacity. Each component is the bit pattern of a half-precision number.
#[derive(Clone, Copy, Debug, PartialEq, Eq)]
pub struct Pixel {
    pub r: u16,
    pub g: u16,
    pub b: u16,
    pub a: u16,
}

/// Calls `rgb::Rgb::with_alpha`.
/// Claimed: it keeps the three components and takes the fourth as it is given.
#[verifier::external_body]
fn with_alpha(r: u16, g: u16, b: u16, a: u16) -> (pixel: Pixel)
    ensures
        pixel == (Pixel { r, g, b, a }),
{
    let color = rgb::Rgb::new(r, g, b).with_alpha(a);
    Pixel { r: color.r, g: color.g, b: color.b, a: color.a }
}

/// The low byte of a component.
pub open spec fn low(component: u16) -> u8 {
    (component % 256) as u8
}

/// The high byte of a component.
pub open spec fn high(component: u16) -> u8 {
    (component / 256) as u8
}

impl Pixel {
    /// The color without transparency.
    pub open spec fn opaque(r: u16, g: u16, b: u16) -> Self {
        Pixel { r, g, b, a: HALF_ONE }
    }

    /// The bytes of the pixel on a machine that stores low bytes first.
    pub open spec fn low_first(self) -> Seq<u8> {
        seq![
            low(self.r),
            high(self.r),
            low(self.g),
            high(self.g),
            low(self.b),
            high(self.b),
            low(self.a),
            high(self.a),
        ]
    }

    /// The bytes of the pixel on a machine that stores high bytes first.
    pub open spec fn high_first(self) -> Seq<u8> {
        seq![
            high(self.r),
            low(self.r),
            high(self.g),
            low(self.g),
            high(self.b),
            low(self.b),
            high(self.a),
            low(self.a),
        ]
    }

    /// Makes a color without transparency.
    pub fn new_opaque(r: u16, g: u16, b: u16) -> (pixel: Pixel)
        ensures
            pixel == Pixel::opaque(r, g, b),
    {
        with_alpha(r, g, b, HALF_ONE)
    }
}

/// Calls `bytemuck::bytes_of` on the four components.
/// Claimed: they come out in order, each in the byte order of the machine, which is not said.
#[verifier::external_body]
fn bytes_of(pixel: Pixel) -> (bytes: Vec<u8>)
    ensures
        bytes@ == pixel.low_first() || bytes@ == pixel.high_first(),
{
    bytemuck::bytes_of(&[pixel.r, pixel.g, pixel.b, pixel.a]).to_vec()
}

/// Whether `buffer` is `bytes` over and over.
pub open spec fn repeats(buffer: Seq<u8>, bytes: Seq<u8>) -> bool {
    forall|i: int| 0 <= i < buffer.len() ==> #[trigger] buffer[i] == bytes[i % bytes.len() as int]
}

/// Fills `buffer` with `bytes` over and over.
pub fn fill_bytes(buffer: &mut [u8], bytes: &[u8])
    requires
        bytes@.len() > 0,
    ensures
        final(buffer)@.len() == old(buffer)@.len(),
        repeats(final(buffer)@, bytes@),
{
    let length = buffer.len();
    let mut i: usize = 0;
    while i < length
        invariant
            bytes@.len() > 0,
            length == buffer@.len(),
            buffer@.len() == old(buffer)@.len(),
            i <= length,
            forall|j: int| 0 <= j < i ==> #[trigger] buffer@[j] == bytes@[j % bytes@.len() as int],
        decreases length - i,
    {
        buffer[i] = bytes[i % bytes.len()];
        i += 1;
    }
}

/// Fills a buffer of whole pixels with one color, in the byte order of the machine.
pub fn fill_pixels(buffer: &mut [u8], pixel: Pixel)
    requires
        old(buffer)@.len() % PIXEL_BYTES as nat == 0,
    ensures
        final(buffer)@.len() == old(buffer)@.len(),
        repeats(final(buffer)@, pixel.low_first()) || repeats(final(buffer)@, pixel.high_first()),
{
    let bytes = bytes_of(pixel);
    fill_bytes(buffer, bytes.as_slice());
}

} // verus!
