//! The scannable visual encoding of a bootstrap URI: a QR code rendered to
//! a gray-scale PNG and returned base64-encoded.
//!
//! The module/pixel scale is computed from the payload size — a long URI
//! simply yields a denser code — and the pixel raster is laid out by
//! verified code. Only the QR module matrix, the PNG byte stream and the
//! base64 text come from outside crates.

use vstd::prelude::*;
use vstd::arithmetic::div_mod::{lemma_fundamental_div_mod, lemma_fundamental_div_mod_converse};
use vstd::string::StringSliceAdditionalSpecFns;
use image::ImageEncoder;
use crate::encoding::{base64_of, base64_encode};

verus! {

/// The target image width in pixels; the scale is derived from it.
pub const QR_IMAGE_SIZE: usize = 256;

/// What the QR encoder returns for a byte sequence, at the medium error
/// correction level: the module count per side and the module colors in
/// row-major order (`true` is dark), or nothing when the data does not fit
/// any code version.
pub uninterp spec fn qr_modules(data: Seq<u8>) -> Option<(int, Seq<bool>)>;

/// Relies on `qrcode::QrCode::new`, `width` and `to_colors`: the smallest
/// fitting code at medium error correction, a function of the data alone.
/// The width of a (non-micro) code is `4v + 17` for version `v` in 1..=40,
/// and `to_colors` hands out one color per module, row-major.
#[verifier::external_body]
fn qr_encode(data: &str) -> (r: Result<(usize, Vec<bool>), String>)
    ensures
        r is Ok <==> qr_modules(data.spec_bytes()) is Some,
        r matches Ok(v) ==> {
            &&& qr_modules(data.spec_bytes()) == Some((v.0 as int, v.1@))
            &&& 21 <= v.0 <= 177
            &&& v.1@.len() == v.0 * v.0
        },
{
    match qrcode::QrCode::new(data.as_bytes()) {
        Ok(code) => {
            let width = code.width();
            let colors: Vec<bool> = code.to_colors().iter().map(
                |c| *c == qrcode::Color::Dark,
            ).collect();
            Ok((width, colors))
        },
        Err(e) => Err(e.to_string()),
    }
}

/// What the PNG encoder produces for an 8-bit gray-scale image of the
/// given square size and pixel bytes: deterministic, so only named.
pub uninterp spec fn png_of(size: int, pixels: Seq<u8>) -> Seq<u8>;

/// Relies on `image::codecs::png::PngEncoder::write_image` with the `L8`
/// color type: encodes a square 8-bit gray-scale raster; the byte stream is
/// a function of size and pixels alone, and begins with the eight-byte PNG
/// signature. The buffer length must match the dimensions, or the call
/// panics; with a matching buffer, non-zero dimensions and an in-memory
/// writer, no error path remains, so the call succeeds.
#[verifier::external_body]
fn png_encode_gray(size: usize, pixels: &Vec<u8>) -> (r: Result<Vec<u8>, String>)
    requires
        1 <= size <= 0xFFFF,
        pixels@.len() == size * size,
    ensures
        r is Ok,
        r matches Ok(v) ==> {
            &&& v@ == png_of(size as int, pixels@)
            &&& v@.len() >= 8
            &&& v@.subrange(0, 8) == seq![
                137u8,
                80u8,
                78u8,
                71u8,
                13u8,
                10u8,
                26u8,
                10u8,
            ]
        },
{
    let mut out: Vec<u8> = Vec::new();
    let encoder = image::codecs::png::PngEncoder::new(&mut out);
    match encoder.write_image(
        pixels.as_slice(),
        size as u32,
        size as u32,
        image::ExtendedColorType::L8,
    ) {
        Ok(()) => Ok(out),
        Err(e) => Err(e.to_string()),
    }
}

/// The pixel scale for a module count: the target width divided by the
/// count, and at least one, so arbitrarily dense codes still render.
pub open spec fn qr_scale(mc: int) -> int {
    let s = 256int / mc;
    if s >= 1 {
        s
    } else {
        1
    }
}

/// The quiet-zone width in pixels.
pub open spec fn qr_quiet(mc: int) -> int {
    2 * qr_scale(mc)
}

/// The rendered image width in pixels: the scaled modules plus the quiet
/// zone on both sides.
pub open spec fn qr_size(mc: int) -> int {
    mc * qr_scale(mc) + 4 * qr_scale(mc)
}

/// The gray value of one pixel: dark where a dark module is scaled over
/// it, white elsewhere and in the quiet zone.
pub open spec fn qr_pixel(modules: Seq<bool>, mc: int, x: int, y: int) -> u8 {
    let sc = qr_scale(mc);
    let q = qr_quiet(mc);
    if q <= x < q + mc * sc && q <= y < q + mc * sc {
        let mx = (x - q) / sc;
        let my = (y - q) / sc;
        if modules[my * mc + mx] {
            0u8
        } else {
            255u8
        }
    } else {
        255u8
    }
}

/// The full pixel raster, row-major.
pub open spec fn qr_pixels(modules: Seq<bool>, mc: int) -> Seq<u8> {
    Seq::new(
        (qr_size(mc) * qr_size(mc)) as nat,
        |k: int| qr_pixel(modules, mc, k % qr_size(mc), k / qr_size(mc)),
    )
}

/// Renders the module matrix to a square gray-scale raster, scaled and
/// padded with a quiet zone. Returns the image width and the pixels.
pub fn render_qr(mc: usize, modules: &Vec<bool>) -> (r: (usize, Vec<u8>))
    requires
        1 <= mc <= 177,
        modules@.len() == mc * mc,
    ensures
        r.0 == qr_size(mc as int),
        5 <= r.0 <= 46336,
        r.1@ == qr_pixels(modules@, mc as int),
        r.1@.len() == r.0 * r.0,
{
    let s0 = QR_IMAGE_SIZE / mc;
    let sc: usize = if s0 >= 1 {
        s0
    } else {
        1
    };
    proof {
        assert(sc == qr_scale(mc as int));
        assert(1 <= sc <= 256);
        assert(mc * sc <= 177 * 256) by (nonlinear_arith)
            requires
                1 <= mc <= 177,
                1 <= sc <= 256,
        ;
    }
    let q = 2 * sc;
    let body = mc * sc;
    let size = body + 4 * sc;
    proof {
        assert(size == qr_size(mc as int));
        assert(size * size <= 46336 * 46336) by (nonlinear_arith)
            requires
                0 <= size <= 46336,
        ;
    }
    let mut px: Vec<u8> = Vec::new();
    let mut y: usize = 0;
    while y < size
        invariant
            1 <= mc <= 177,
            modules@.len() == mc * mc,
            sc == qr_scale(mc as int),
            1 <= sc <= 256,
            q == 2 * sc,
            body == mc * sc,
            body <= 45312,
            size == qr_size(mc as int),
            size <= 46336,
            y <= size,
            px@.len() == y * size,
            forall|k: int|
                0 <= k < y * size ==> px@[k] == qr_pixel(
                    modules@,
                    mc as int,
                    k % (size as int),
                    k / (size as int),
                ),
        decreases size - y,
    {
        let mut x: usize = 0;
        proof {
            assert(y * size + size <= size * size) by (nonlinear_arith)
                requires
                    0 <= y < size,
            ;
        }
        while x < size
            invariant
                1 <= mc <= 177,
                modules@.len() == mc * mc,
                sc == qr_scale(mc as int),
                1 <= sc <= 256,
                q == 2 * sc,
                body == mc * sc,
                body <= 45312,
                size == qr_size(mc as int),
                size <= 46336,
                y < size,
                x <= size,
                y * size + size <= size * size,
                px@.len() == y * size + x,
                forall|k: int|
                    0 <= k < y * size + x ==> px@[k] == qr_pixel(
                        modules@,
                        mc as int,
                        k % (size as int),
                        k / (size as int),
                    ),
            decreases size - x,
        {
            let v: u8 = if x >= q && x - q < body && y >= q && y - q < body {
                let mx = (x - q) / sc;
                let my = (y - q) / sc;
                proof {
                    lemma_fundamental_div_mod((x - q) as int, sc as int);
                    lemma_fundamental_div_mod((y - q) as int, sc as int);
                    assert(mx < mc) by (nonlinear_arith)
                        requires
                            sc >= 1,
                            mx == (x - q) as int / (sc as int),
                            (x - q) as int == (sc as int) * mx + (x - q) as int % (sc as int),
                            0 <= (x - q) as int % (sc as int),
                            (x - q) < mc * sc,
                    ;
                    assert(my < mc) by (nonlinear_arith)
                        requires
                            sc >= 1,
                            my == (y - q) as int / (sc as int),
                            (y - q) as int == (sc as int) * my + (y - q) as int % (sc as int),
                            0 <= (y - q) as int % (sc as int),
                            (y - q) < mc * sc,
                    ;
                    assert(my * mc + mx < mc * mc && my * mc <= 31329 && mc * mc <= 31329) by (
                    nonlinear_arith)
                        requires
                            0 <= mx < mc,
                            0 <= my < mc,
                            mc <= 177,
                    ;
                }
                if modules[my * mc + mx] {
                    0u8
                } else {
                    255u8
                }
            } else {
                255u8
            };
            proof {
                assert(v == qr_pixel(modules@, mc as int, x as int, y as int));
            }
            px.push(v);
            proof {
                lemma_fundamental_div_mod_converse(
                    (y * size + x) as int,
                    size as int,
                    y as int,
                    x as int,
                );
                assert((y * size + x) as int % (size as int) == x as int);
                assert((y * size + x) as int / (size as int) == y as int);
            }
            x = x + 1;
        }
        proof {
            assert(y * size + size == (y + 1) * size) by (nonlinear_arith);
        }
        y = y + 1;
    }
    proof {
        assert(px@ =~= qr_pixels(modules@, mc as int));
    }
    (size, px)
}

/// Encodes `data` as a QR code, renders it to a gray-scale PNG with a
/// payload-derived scale, and returns the PNG base64-encoded. Fails exactly
/// when the data fits no QR code version.
pub fn generate_qr_base64(data: &str) -> (r: Result<String, String>)
    ensures
        r is Ok <==> qr_modules(data.spec_bytes()) is Some,
        r matches Ok(s) ==> {
            &&& {
                let m = qr_modules(data.spec_bytes())->Some_0;
                s@ == base64_of(png_of(qr_size(m.0), qr_pixels(m.1, m.0)))
            }
            &&& s@.len() > 0
        },
{
    let encoded = qr_encode(data);
    match encoded {
        Ok((mc, modules)) => {
            let (size, pixels) = render_qr(mc, &modules);
            match png_encode_gray(size, &pixels) {
                Ok(png) => Ok(base64_encode(png.as_slice())),
                Err(e) => Err(e),
            }
        },
        Err(e) => Err(e),
    }
}

} // verus!
