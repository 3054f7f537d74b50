//! Conversion of a raw buffer of any catalog encoding into a canonical
//! 8-bit-per-channel image.
use crate::pixel_format::{ChannelOrder, ColorLayout, DataType};
use crate::sample::{f32_sample, f32_sample_at, f64_sample, f64_sample_at, u16_sample, u16_sample_at};
use crate::sample::{lemma_float_zero, lemma_u16_rescale_saturates};
use vstd::arithmetic::div_mod::{
    lemma_div_multiples_vanish, lemma_fundamental_div_mod, lemma_fundamental_div_mod_converse,
    lemma_mod_multiples_basic, lemma_mod_pos_bound,
};
use vstd::prelude::*;

verus! {

/// 8-bit value of one channel sample of encoding `t`, whose bytes begin `b`.
pub open spec fn sample_value(t: DataType, b: Seq<u8>) -> u8 {
    match t.spec_bytes_per_color() {
        1 => b[0],
        2 => u16_sample(b),
        4 => f32_sample(b),
        _ => f64_sample(b),
    }
}

/// Every sample of `bytes`, read in encoding `t`, as an 8-bit value.
pub open spec fn type_converted(t: DataType, bytes: Seq<u8>) -> Seq<u8> {
    let w = t.spec_bytes_per_color() as int;
    Seq::new(
        (bytes.len() as int / w) as nat,
        |i: int| sample_value(t, bytes.subrange(i * w, i * w + w)),
    )
}

/// Index whose value lands at index `i` when the first and third channel of
/// each `c`-channel pixel trade places.
pub open spec fn swapped_index(i: int, c: int) -> int {
    if i % c == 0 {
        i + 2
    } else if i % c == 2 {
        i - 2
    } else {
        i
    }
}

/// Whether a channel order asks for a permutation of pixels with `channels` channels.
pub open spec fn swaps(channels: int, order: ChannelOrder) -> bool {
    order == ChannelOrder::Bgr && (channels == 3 || channels == 4)
}

/// `s` with the first and third channel of each pixel exchanged where `order`
/// is BGR and pixels have 3 or 4 channels; `s` itself otherwise.
pub open spec fn reordered(s: Seq<u8>, channels: int, order: ChannelOrder) -> Seq<u8> {
    if swaps(channels, order) {
        Seq::new(s.len(), |i: int| s[swapped_index(i, channels)])
    } else {
        s
    }
}

/// The canonical buffer for `bytes` in encoding `t` and channel order `order`.
pub open spec fn converted(t: DataType, bytes: Seq<u8>, order: ChannelOrder) -> Seq<u8> {
    reordered(type_converted(t, bytes), t.spec_channels() as int, order)
}

/// Byte length of a `width` by `height` image in encoding `t`.
pub open spec fn expected_len(t: DataType, width: u32, height: u32) -> int {
    width as int * height as int * t.spec_bytes_per_pixel() as int
}

/// Failures of reading, converting and saving an image.
#[derive(Clone, Debug, PartialEq, Eq)]
pub enum ImageProcessingError {
    /// The address text is not a hexadecimal number.
    MalformedAddress,
    /// The memory of the other process could not be read.
    ReadFailure(String),
    /// The buffer length does not match the dimensions and the encoding.
    PreconditionViolation,
    /// The image codec failed to encode or write the image.
    ImageError(String),
    /// The file system failed, for instance to create the directory.
    IoError(String),
}

/// A normalized image: 8 bits per channel, in a canonical layout.
#[derive(Clone, Debug)]
pub struct ImageData {
    pub data: Vec<u8>,
    pub color_type: ColorLayout,
    pub width: u32,
    pub height: u32,
}

impl ImageData {
    /// The buffer holds exactly one canonical pixel per position.
    pub open spec fn wf(&self) -> bool {
        self.data@.len() == self.width as int * self.height as int
            * self.color_type.spec_channel_count() as int
    }
}

fn type_convert(t: DataType, bytes: Vec<u8>) -> (r: Vec<u8>)
    ensures
        r@ == type_converted(t, bytes@),
{
    let w = t.bytes_per_color() as usize;
    if w == 1 {
        assert(type_converted(t, bytes@) =~= bytes@);
        return bytes;
    }
    let count = bytes.len() / w;
    let mut out: Vec<u8> = Vec::with_capacity(count);
    let mut i: usize = 0;
    proof {
        lemma_fundamental_div_mod(bytes@.len() as int, w as int);
    }
    while i < count
        invariant
            w == t.spec_bytes_per_color(),
            w == 2 || w == 4 || w == 8,
            count == (bytes@.len() as int) / (w as int),
            bytes@.len() <= usize::MAX,
            bytes@.len() == w * count + (bytes@.len() as int) % (w as int),
            (bytes@.len() as int) % (w as int) >= 0,
            i <= count,
            out@.len() == i,
            forall|j: int|
                0 <= j < i ==> out@[j] == sample_value(t, bytes@.subrange(j * w, j * w + w)),
        decreases count - i,
    {
        assert(i * w + w <= bytes@.len()) by (nonlinear_arith)
            requires
                i < count,
                bytes@.len() == w * count + (bytes@.len() as int) % (w as int),
                (bytes@.len() as int) % (w as int) >= 0,
                w > 0,
        ;
        let at = i * w;
        let v = if w == 2 {
            u16_sample_at(&bytes, at)
        } else if w == 4 {
            f32_sample_at(&bytes, at)
        } else {
            f64_sample_at(&bytes, at)
        };
        out.push(v);
        i = i + 1;
    }
    assert(out@ =~= type_converted(t, bytes@));
    out
}

fn reorder(s: Vec<u8>, channels: u8, order: ChannelOrder) -> (r: Vec<u8>)
    requires
        1 <= channels <= 4,
        (s@.len() as int) % (channels as int) == 0,
    ensures
        r@ == reordered(s@, channels as int, order),
{
    if !(order == ChannelOrder::Bgr && (channels == 3 || channels == 4)) {
        return s;
    }
    let c = channels as usize;
    let n = s.len();
    let mut out: Vec<u8> = Vec::with_capacity(n);
    let mut i: usize = 0;
    proof {
        lemma_fundamental_div_mod(n as int, c as int);
    }
    while i < n
        invariant
            c == channels,
            c == 3 || c == 4,
            n == s@.len(),
            n == c * (n / c),
            i <= n,
            out@.len() == i,
            forall|j: int| 0 <= j < i ==> out@[j] == s@[swapped_index(j, c as int)],
        decreases n - i,
    {
        let k = i % c;
        proof {
            lemma_fundamental_div_mod(i as int, c as int);
            if k == 0 {
                assert(i + c <= n) by (nonlinear_arith)
                    requires
                        i == c * (i / c) + i % c,
                        i % c == 0,
                        n == c * (n / c),
                        i < n,
                        c >= 3,
                ;
            }
        }
        let from = if k == 0 {
            i + 2
        } else if k == 2 {
            i - 2
        } else {
            i
        };
        out.push(s[from]);
        i = i + 1;
    }
    assert(out@ =~= reordered(s@, channels as int, order));
    out
}

/// The samples of a buffer of whole pixels come in whole pixels.
proof fn lemma_whole_pixels(len: int, c: int, w: int)
    requires
        len >= 0,
        c >= 1,
        w >= 1,
        len % (c * w) == 0,
    ensures
        (len / w) % c == 0,
{
    assert(c * w >= 1) by (nonlinear_arith)
        requires
            c >= 1,
            w >= 1,
    ;
    lemma_fundamental_div_mod(len, c * w);
    let k = len / (c * w);
    assert(len == w * (c * k)) by (nonlinear_arith)
        requires
            len == (c * w) * k + len % (c * w),
            len % (c * w) == 0,
    ;
    lemma_div_multiples_vanish(c * k, w);
    lemma_mod_multiples_basic(k, c);
    assert(w * (c * k) / w == c * k);
    assert((k * c) % c == 0);
    assert(c * k == k * c) by (nonlinear_arith);
}

/// Within a buffer of whole `c`-channel pixels, the swap partner of an index
/// is an index of the buffer, and swapping twice returns to it.
proof fn lemma_swapped_index(i: int, c: int, n: int)
    requires
        c == 3 || c == 4,
        0 <= i < n,
        n % c == 0,
    ensures
        0 <= swapped_index(i, c) < n,
        swapped_index(swapped_index(i, c), c) == i,
{
    lemma_fundamental_div_mod(i, c);
    lemma_fundamental_div_mod(n, c);
    lemma_mod_pos_bound(i, c);
    let q = i / c;
    let r = i % c;
    assert(i == q * c + r) by (nonlinear_arith)
        requires
            i == c * (i / c) + i % c,
            q == i / c,
            r == i % c,
    ;
    if r == 0 {
        assert(i + c <= n) by (nonlinear_arith)
            requires
                i == c * (i / c) + i % c,
                i % c == 0,
                n == c * (n / c) + n % c,
                n % c == 0,
                i < n,
                c >= 3,
        ;
        lemma_fundamental_div_mod_converse(i + 2, c, q, 2);
    } else if r == 2 {
        lemma_fundamental_div_mod_converse(i - 2, c, q, 0);
    }
}

/// Converting a buffer of whole pixels whose bytes are all zero gives zeros,
/// except for 16-bit samples, which give 255.
pub proof fn lemma_zero_buffer_converts(t: DataType, bytes: Seq<u8>, order: ChannelOrder)
    requires
        (bytes.len() as int) % (t.spec_bytes_per_pixel() as int) == 0,
        forall|i: int| 0 <= i < bytes.len() ==> bytes[i] == 0,
    ensures
        converted(t, bytes, order) == Seq::new(
            ((bytes.len() as int) / (t.spec_bytes_per_color() as int)) as nat,
            |i: int|
                if t.spec_bytes_per_color() == 2 {
                    255u8
                } else {
                    0u8
                },
        ),
{
    let w = t.spec_bytes_per_color() as int;
    let c = t.spec_channels() as int;
    let expect = Seq::new(
        ((bytes.len() as int) / w) as nat,
        |i: int|
            if w == 2 {
                255u8
            } else {
                0u8
            },
    );
    lemma_u16_rescale_saturates(0);
    lemma_float_zero(23, 255, 127);
    lemma_float_zero(52, 2047, 1023);
    let tc = type_converted(t, bytes);
    assert forall|i: int| 0 <= i < tc.len() implies tc[i] == expect[i] by {
        assert(i * w + w <= bytes.len()) by (nonlinear_arith)
            requires
                0 <= i < (bytes.len() as int) / w,
                w >= 1,
        ;
        let b = bytes.subrange(i * w, i * w + w);
        assert(forall|k: int| 0 <= k < w ==> b[k] == 0);
    }
    assert(tc =~= expect);
    lemma_whole_pixels(bytes.len() as int, c, w);
    if swaps(c, order) {
        assert forall|i: int| 0 <= i < tc.len() implies converted(t, bytes, order)[i]
            == expect[i] by {
            lemma_swapped_index(i, c, tc.len() as int);
        }
    }
    assert(converted(t, bytes, order) =~= expect);
}

/// The BGR swap undoes itself: swapping the converted BGR buffer of 3- or
/// 4-channel pixels gives the RGB conversion back, and 1- or 2-channel
/// buffers are the same in either order.
pub proof fn lemma_channel_swap_involution(t: DataType, bytes: Seq<u8>)
    requires
        (bytes.len() as int) % (t.spec_bytes_per_pixel() as int) == 0,
    ensures
        t.spec_channels() == 3 || t.spec_channels() == 4 ==> reordered(
            converted(t, bytes, ChannelOrder::Bgr),
            t.spec_channels() as int,
            ChannelOrder::Bgr,
        ) == converted(t, bytes, ChannelOrder::Rgb),
        t.spec_channels() == 1 || t.spec_channels() == 2 ==> converted(t, bytes, ChannelOrder::Bgr)
            == converted(t, bytes, ChannelOrder::Rgb),
{
    let w = t.spec_bytes_per_color() as int;
    let c = t.spec_channels() as int;
    let tc = type_converted(t, bytes);
    lemma_whole_pixels(bytes.len() as int, c, w);
    if c == 3 || c == 4 {
        let once = converted(t, bytes, ChannelOrder::Bgr);
        let twice = reordered(once, c, ChannelOrder::Bgr);
        assert forall|i: int| 0 <= i < tc.len() implies twice[i] == tc[i] by {
            lemma_swapped_index(i, c, tc.len() as int);
        }
        assert(twice =~= tc);
    }
}

/// The RGBA form of a gray-and-alpha buffer: each gray value fills the three
/// colour channels, the alpha value is kept.
pub open spec fn rgba_of_gray_alpha(s: Seq<u8>) -> Seq<u8> {
    Seq::new(
        (s.len() / 2 * 4) as nat,
        |i: int|
            if i % 4 == 3 {
                s[2 * (i / 4) + 1]
            } else {
                s[2 * (i / 4)]
            },
    )
}

/// Expands a gray-and-alpha buffer into RGBA, for displays that take colour only.
pub fn gray_alpha_to_rgba(data: &Vec<u8>) -> (r: Vec<u8>)
    ensures
        r@ == rgba_of_gray_alpha(data@),
{
    let len = data.len();
    let pixels = len / 2;
    let mut out: Vec<u8> = Vec::new();
    let mut p: usize = 0;
    while p < pixels
        invariant
            len == data@.len(),
            pixels == data@.len() / 2,
            p <= pixels,
            out@.len() == 4 * p,
            forall|i: int|
                0 <= i < 4 * p ==> #[trigger] out@[i] == (if i % 4 == 3 {
                    data@[2 * (i / 4) + 1]
                } else {
                    data@[2 * (i / 4)]
                }),
        decreases pixels - p,
    {
        let gray = data[2 * p];
        let alpha = data[2 * p + 1];
        out.push(gray);
        out.push(gray);
        out.push(gray);
        out.push(alpha);
        proof {
            assert forall|i: int| 0 <= i < 4 * p + 4 implies #[trigger] out@[i] == (if i % 4
                == 3 {
                data@[2 * (i / 4) + 1]
            } else {
                data@[2 * (i / 4)]
            }) by {
                if i >= 4 * p {
                    lemma_fundamental_div_mod_converse(i, 4, p as int, i - 4 * p);
                }
            }
        }
        p = p + 1;
    }
    assert(out@ =~= rgba_of_gray_alpha(data@));
    out
}

impl DataType {
    /// Converts a buffer of whole pixels of this encoding into the canonical
    /// 8-bit buffer, then applies the channel order.
    pub fn convert_to_supported(&self, bytes: Vec<u8>, channel_order: ChannelOrder) -> (r: Vec<u8>)
        requires
            (bytes@.len() as int) % (self.spec_bytes_per_pixel() as int) == 0,
        ensures
            r@ == converted(*self, bytes@, channel_order),
            r@.len() == (bytes@.len() as int) / (self.spec_bytes_per_color() as int),
    {
        let c = self.channels();
        proof {
            lemma_whole_pixels(
                bytes@.len() as int,
                self.spec_channels() as int,
                self.spec_bytes_per_color() as int,
            );
        }
        let type_conv = type_convert(*self, bytes);
        reorder(type_conv, c, channel_order)
    }

    /// Builds the normalized image of a `width` by `height` buffer of this
    /// encoding. A buffer of any other length is refused.
    pub fn init_image_data(
        &self,
        bytes: Vec<u8>,
        width: u32,
        height: u32,
        channel_order: ChannelOrder,
    ) -> (r: Result<ImageData, ImageProcessingError>)
        ensures
            r is Ok <==> bytes@.len() == expected_len(*self, width, height),
            r matches Err(e) ==> e is PreconditionViolation,
            r matches Ok(img) ==> {
                &&& img.data@ == converted(*self, bytes@, channel_order)
                &&& img.color_type == self.spec_color_layout()
                &&& img.width == width
                &&& img.height == height
                &&& img.wf()
            },
    {
        let len = bytes.len() as u64;
        let bpp = self.bytes_per_pixel() as u64;
        proof {
            assert(width as u64 * height as u64 <= u64::MAX) by (nonlinear_arith)
                requires
                    width <= u32::MAX,
                    height <= u32::MAX,
            ;
        }
        let area: u64 = width as u64 * height as u64;
        if area > u64::MAX / bpp {
            proof {
                assert(area * bpp > u64::MAX) by (nonlinear_arith)
                    requires
                        area > u64::MAX / bpp,
                        bpp >= 1,
                ;
                assert(len == bytes@.len());
            }
            return Err(ImageProcessingError::PreconditionViolation);
        }
        proof {
            assert(area * bpp <= u64::MAX) by (nonlinear_arith)
                requires
                    area <= u64::MAX / bpp,
                    bpp >= 1,
            ;
        }
        let expected: u64 = area * bpp;
        if len != expected {
            return Err(ImageProcessingError::PreconditionViolation);
        }
        proof {
            lemma_mod_multiples_basic(area as int, bpp as int);
            assert(bytes@.len() == area * bpp);
        }
        let data = self.convert_to_supported(bytes, channel_order);
        proof {
            lemma_div_multiples_vanish(
                width as int * height as int * self.spec_channels() as int,
                self.spec_bytes_per_color() as int,
            );
            assert(area * bpp == self.spec_bytes_per_color() as int * (width as int
                * height as int * self.spec_channels() as int)) by (nonlinear_arith)
                requires
                    area == width as int * height as int,
                    bpp == self.spec_channels() as int * self.spec_bytes_per_color() as int,
            ;
        }
        Ok(ImageData { data, color_type: self.color_layout(), width, height })
    }
}

} // verus!
