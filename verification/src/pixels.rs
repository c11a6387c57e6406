//! Pixel formats and the row flip applied to read-back data.

use vstd::prelude::*;
use vstd::arithmetic::div_mod::lemma_fundamental_div_mod;
use vstd::arithmetic::div_mod::lemma_fundamental_div_mod_converse;
use vstd::arithmetic::div_mod::lemma_mod_bound;
use crate::context;

verus! {

/// The shape of one pixel as transferred between the device and memory: how
/// many channels it has, how wide each channel is, and the device's tag for
/// the scalar type of a channel.
#[derive(Clone, Copy, Debug, PartialEq, Eq, Structural)]
pub struct TextureDataType {
    pub channels: u32,
    pub bytes_per_channel: u32,
    pub data_type: u32,
}

impl TextureDataType {
    /// A meaningful pixel shape: one to four channels, each 1, 2 or 4 bytes.
    pub open spec fn wf(self) -> bool {
        1 <= self.channels <= 4 && (self.bytes_per_channel == 1 || self.bytes_per_channel == 2
            || self.bytes_per_channel == 4)
    }
}

/// The pixel transfer format matching a channel count.
pub open spec fn format_spec(channels: u32) -> u32 {
    if channels == 1 {
        context::RED
    } else if channels == 2 {
        context::RG
    } else if channels == 3 {
        context::RGB
    } else {
        context::RGBA
    }
}

/// The pixel transfer format for data of the given shape.
pub fn format_from_data_type(data_type: TextureDataType) -> (r: u32)
    requires
        data_type.wf(),
    ensures
        r == format_spec(data_type.channels),
{
    match data_type.channels {
        1 => context::RED,
        2 => context::RG,
        3 => context::RGB,
        _ => context::RGBA,
    }
}

/// How many bytes one pixel occupies in a read-back transfer.
///
/// When a channel is a single byte the transfer is forced to the four-channel
/// byte format, whatever the data's own channel count, which some platforms
/// require of byte-sized reads; wider channels transfer as they are.
pub open spec fn transfer_bytes_per_pixel_spec(data_type: TextureDataType) -> int {
    if data_type.bytes_per_channel == 1 {
        4
    } else {
        data_type.channels * data_type.bytes_per_channel
    }
}

/// How many bytes one pixel occupies in a read-back transfer.
pub fn transfer_bytes_per_pixel(data_type: TextureDataType) -> (r: u32)
    requires
        data_type.wf(),
    ensures
        r == transfer_bytes_per_pixel_spec(data_type),
        1 <= r <= 16,
{
    let c = data_type.channels;
    let b = data_type.bytes_per_channel;
    proof {
        assert(1 <= c * b <= 16) by (nonlinear_arith)
            requires
                1 <= c <= 4,
                1 <= b <= 4,
        ;
    }
    if b == 1 {
        4
    } else {
        c * b
    }
}

/// The pixel transfer format of a read-back: byte-sized channels are read in
/// the four-channel format (see [`transfer_bytes_per_pixel_spec`]); wider
/// channels transfer in the format matching their count.
pub open spec fn transfer_format_spec(data_type: TextureDataType) -> u32 {
    if data_type.bytes_per_channel == 1 {
        context::RGBA
    } else {
        format_spec(data_type.channels)
    }
}

/// The pixel transfer format of a read-back.
pub fn transfer_format(data_type: TextureDataType) -> (r: u32)
    requires
        data_type.wf(),
    ensures
        r == transfer_format_spec(data_type),
{
    if data_type.bytes_per_channel == 1 {
        context::RGBA
    } else {
        format_from_data_type(data_type)
    }
}

/// The vertical flip of pixel data laid out in rows: within the first
/// `width * height` elements, row `r` of the result is row `height - 1 - r`
/// of the input; anything beyond that prefix is untouched.
pub open spec fn flip_y_spec<T>(s: Seq<T>, width: int, height: int) -> Seq<T> {
    Seq::new(
        s.len(),
        |i: int|
            if i < width * height {
                s[(height - 1 - i / width) * width + i % width]
            } else {
                s[i]
            },
    )
}

/// Flipping twice gives back the original data, for every width and height
/// (an odd height leaves the middle row in place).
pub proof fn lemma_flip_y_involution<T>(s: Seq<T>, width: int, height: int)
    requires
        width >= 0,
        height >= 0,
        width * height <= s.len(),
    ensures
        flip_y_spec(flip_y_spec(s, width, height), width, height) == s,
{
    let f = flip_y_spec(s, width, height);
    let g = flip_y_spec(f, width, height);
    assert forall|i: int| 0 <= i < s.len() implies g[i] == s[i] by {
        if i < width * height {
            assert(width > 0) by (nonlinear_arith)
                requires
                    0 <= i < width * height,
                    width >= 0,
            ;
            let r = i / width;
            let c = i % width;
            lemma_fundamental_div_mod(i, width);
            lemma_mod_bound(i, width);
            assert(0 <= r < height) by (nonlinear_arith)
                requires
                    width > 0,
                    0 <= c < width,
                    i == width * r + c,
                    0 <= i < width * height,
            ;
            let j = (height - 1 - r) * width + c;
            lemma_fundamental_div_mod_converse(j, width, height - 1 - r, c);
            assert(j / width == height - 1 - r);
            assert(j % width == c);
            assert(0 <= j < width * height) by (nonlinear_arith)
                requires
                    width > 0,
                    0 <= c < width,
                    0 <= height - 1 - r < height,
                    j == (height - 1 - r) * width + c,
            ;
            assert(g[i] == f[j]);
            let k = (height - 1 - j / width) * width + j % width;
            assert(f[j] == s[k]);
            assert(height - 1 - j / width == r);
            assert(k == r * width + c);
            assert(k == i);
        } else {
            assert(g[i] == f[i]);
            assert(f[i] == s[i]);
        }
    }
    assert(g =~= s);
}

/// Reverses the order of the first `height` rows of `pixels`, laid out as
/// rows of `width` elements each: the device hands rows bottom-up, callers
/// expect the top row first. Elements beyond `width * height` stay where
/// they are.
pub fn flip_y<T: Copy>(pixels: &mut Vec<T>, width: usize, height: usize)
    requires
        width * height <= old(pixels)@.len(),
    ensures
        final(pixels)@ == flip_y_spec(old(pixels)@, width as int, height as int),
{
    let ghost s = pixels@;
    let ghost flipped = flip_y_spec(s, width as int, height as int);
    let n = pixels.len();
    let mut out: Vec<T> = Vec::new();
    let mut r: usize = 0;
    while r < height
        invariant
            r <= height,
            pixels@ == s,
            width * height <= s.len(),
            n == s.len(),
            flipped == flip_y_spec(s, width as int, height as int),
            out@.len() == r * width,
            forall|k: int| 0 <= k < out@.len() ==> out@[k] == flipped[k],
        decreases height - r,
    {
        let mut c: usize = 0;
        while c < width
            invariant
                r < height,
                c <= width,
                pixels@ == s,
                width * height <= s.len(),
                n == s.len(),
                flipped == flip_y_spec(s, width as int, height as int),
                out@.len() == r * width + c,
                forall|k: int| 0 <= k < out@.len() ==> out@[k] == flipped[k],
            decreases width - c,
        {
            proof {
                assert((height - 1 - r) * width + c < width * height && r * width + c < width
                    * height) by (nonlinear_arith)
                    requires
                        0 <= r < height,
                        0 <= c < width,
                ;
                lemma_fundamental_div_mod_converse(
                    r as int * width + c,
                    width as int,
                    r as int,
                    c as int,
                );
            }
            let src = (height - 1 - r) * width + c;
            out.push(pixels[src]);
            c += 1;
        }
        proof {
            assert((r + 1) * width == r * width + width) by (nonlinear_arith);
        }
        r += 1;
    }
    proof {
        assert(height * width == width * height) by (nonlinear_arith);
    }
    let mut k: usize = height * width;
    while k < n
        invariant
            width * height <= k <= n,
            pixels@ == s,
            n == s.len(),
            flipped == flip_y_spec(s, width as int, height as int),
            out@.len() == k,
            forall|j: int| 0 <= j < out@.len() ==> out@[j] == flipped[j],
        decreases n - k,
    {
        out.push(pixels[k]);
        k += 1;
    }
    proof {
        assert(out@ =~= flipped);
    }
    *pixels = out;
}

} // verus!
