//! A solid frame buffer for a shell surface, sized by its configure event and
//! its scale factor.
use vstd::prelude::*;

verus! {

/// The little-endian bytes of `v`.
pub open spec fn le_bytes(v: u32) -> Seq<u8> {
    seq![(v & 0xff) as u8, ((v >> 8) & 0xff) as u8, ((v >> 16) & 0xff) as u8, ((v >> 24) & 0xff) as u8]
}

/// The big-endian bytes of `v`.
pub open spec fn be_bytes(v: u32) -> Seq<u8> {
    seq![((v >> 24) & 0xff) as u8, ((v >> 16) & 0xff) as u8, ((v >> 8) & 0xff) as u8, (v & 0xff) as u8]
}

/// Relies on byteorder's `ByteOrder::write_u32` for `NativeEndian`, which is
/// `LittleEndian` or `BigEndian` by the target: it writes `to_le_bytes` or
/// `to_be_bytes` of `v` into the first four bytes.
#[verifier::external_body]
fn native_bytes(v: u32) -> (r: [u8; 4])
    ensures
        r@ == le_bytes(v) || r@ == be_bytes(v),
{
    let mut b = [0u8; 4];
    <byteorder::NativeEndian as byteorder::ByteOrder>::write_u32(&mut b, v);
    b
}

/// Size drawn when the compositor leaves the choice to the client.
pub const DEFAULT_WIDTH: u32 = 1024;

/// Size drawn when the compositor leaves the choice to the client.
pub const DEFAULT_HEIGHT: u32 = 768;

/// Colour of every pixel: opaque black, in ARGB8888.
pub const FILL_COLOUR: u32 = 0xFF000000;

/// A frame buffer in ARGB8888, in the machine's byte order.
pub struct Frame {
    /// Width in buffer pixels
    pub width: u32,
    /// Height in buffer pixels
    pub height: u32,
    /// Bytes per row
    pub stride: u32,
    /// The pixel bytes, row after row
    pub pixels: Vec<u8>,
}

/// Buffer size in pixels for a surface of `size` (the default size if
/// `None`) at `scale_factor`.
pub open spec fn frame_dimensions(size: Option<(u32, u32)>, scale_factor: u32) -> (int, int) {
    let (w, h) = match size {
        Some(s) => s,
        None => (DEFAULT_WIDTH, DEFAULT_HEIGHT),
    };
    (w * scale_factor, h * scale_factor)
}

/// The frame fits: its byte count and height fit in 32 bits and its stride
/// in an `i32`.
pub open spec fn frame_fits(size: Option<(u32, u32)>, scale_factor: u32) -> bool {
    let (w, h) = frame_dimensions(size, scale_factor);
    4 * w * h <= u32::MAX && 4 * w <= i32::MAX && h <= u32::MAX
}

/// Every pixel of `pixels` holds the four bytes `px`.
pub open spec fn filled(pixels: Seq<u8>, px: Seq<u8>) -> bool {
    forall|i: int| 0 <= i < pixels.len() ==> #[trigger] pixels[i] == px[i % 4]
}

/// Draws a frame filled with `FILL_COLOUR` for a surface of `size` (the
/// default size if `None`) at `scale_factor`; `None` when it does not fit.
pub fn draw_frame(size: Option<(u32, u32)>, scale_factor: u32) -> (r: Option<Frame>)
    ensures
        !frame_fits(size, scale_factor) ==> r is None,
        frame_fits(size, scale_factor) ==> (r matches Some(f) && f.width == frame_dimensions(size, scale_factor).0
            && f.height == frame_dimensions(size, scale_factor).1 && f.stride == 4 * f.width
            && f.pixels@.len() == 4 * f.width * f.height && (filled(f.pixels@, le_bytes(FILL_COLOUR)) || filled(
            f.pixels@,
            be_bytes(FILL_COLOUR),
        ))),
{
    let (w, h) = match size {
        Some(s) => s,
        None => (DEFAULT_WIDTH, DEFAULT_HEIGHT),
    };
    proof {
        assert(w * scale_factor <= u32::MAX * u32::MAX) by (nonlinear_arith)
            requires w <= u32::MAX, scale_factor <= u32::MAX;
        assert(h * scale_factor <= u32::MAX * u32::MAX) by (nonlinear_arith)
            requires h <= u32::MAX, scale_factor <= u32::MAX;
    }
    let width = (w as u64) * (scale_factor as u64);
    let height = (h as u64) * (scale_factor as u64);
    assert(frame_dimensions(size, scale_factor) == (width as int, height as int));
    if width > (i32::MAX / 4) as u64 || height > u32::MAX as u64 {
        assert(!frame_fits(size, scale_factor));
        return None;
    }
    proof {
        assert(width * height <= u32::MAX * u32::MAX) by (nonlinear_arith)
            requires width <= u32::MAX, height <= u32::MAX;
    }
    let area = width * height;
    if area > (u32::MAX / 4) as u64 {
        proof {
            assert(4 * width * height > u32::MAX) by (nonlinear_arith)
                requires area == width * height, area > u32::MAX / 4;
        }
        return None;
    }
    proof {
        assert(4 * width * height <= u32::MAX) by (nonlinear_arith)
            requires area == width * height, area <= u32::MAX / 4;
    }
    let width = width as u32;
    let height = height as u32;
    let px = native_bytes(FILL_COLOUR);
    let count = width as usize * height as usize;
    let mut pixels: Vec<u8> = Vec::new();
    let mut k: usize = 0;
    while k < count
        invariant
            count == width * height,
            4 * count <= u32::MAX,
            0 <= k <= count,
            pixels@.len() == 4 * k,
            forall|i: int| 0 <= i < pixels@.len() ==> #[trigger] pixels@[i] == px@[i % 4],
        decreases count - k,
    {
        let ghost before = pixels@;
        pixels.push(px[0]);
        pixels.push(px[1]);
        pixels.push(px[2]);
        pixels.push(px[3]);
        proof {
            assert forall|i: int| 0 <= i < pixels@.len() implies #[trigger] pixels@[i] == px@[i % 4] by {
                if i >= 4 * k {
                    assert((4 * k + (i - 4 * k)) % 4 == i - 4 * k);
                } else {
                    assert(pixels@[i] == before[i]);
                }
            }
        }
        k = k + 1;
    }
    proof {
        assert(pixels@.len() == 4 * width * height) by (nonlinear_arith)
            requires pixels@.len() == 4 * count, count == width * height;
        if px@ == le_bytes(FILL_COLOUR) {
            assert(filled(pixels@, le_bytes(FILL_COLOUR)));
        } else {
            assert(filled(pixels@, be_bytes(FILL_COLOUR)));
        }
    }
    Some(Frame { width, height, stride: 4 * width, pixels })
}

} // verus!
