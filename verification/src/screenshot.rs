//! Screen fingerprints: a 256-bit average hash of a screen capture, the test
//! that tells two captures apart, and the geometry that picks and scales the
//! captured monitor.

use vstd::prelude::*;
use base64::Engine;
use image::{DynamicImage, RgbaImage};
use image::imageops::FilterType;
use image::codecs::jpeg::JpegEncoder;

verus! {

/// A 256-bit perceptual hash, stored as four 64-bit words.
pub type ScreenHash = [u64; 4];

/// Bit `i` (`0 <= i < 64`) of `x`.
pub open spec fn bit(x: u64, i: u32) -> bool {
    (x >> i) & 1 == 1
}

/// Number of set bits of `x` below bit `n`.
pub open spec fn bits_below(x: u64, n: u32) -> nat
    decreases n,
{
    if n == 0 {
        0
    } else {
        bits_below(x, (n - 1) as u32) + if bit(x, (n - 1) as u32) {
            1nat
        } else {
            0nat
        }
    }
}

/// `u64::count_ones`.
pub open spec fn popcount(x: u64) -> nat {
    bits_below(x, 64)
}

/// Number of bit positions in which two hashes differ.
pub open spec fn hamming(a: Seq<u64>, b: Seq<u64>) -> nat {
    popcount(a[0] ^ b[0]) + popcount(a[1] ^ b[1]) + popcount(a[2] ^ b[2]) + popcount(a[3] ^ b[3])
}

/// Hashes further apart than this many bits belong to different screens.
pub const DIFF_THRESHOLD: u32 = 10;

/// The number of set bits of `x`.
pub fn count_ones(x: u64) -> (r: u32)
    ensures
        r == popcount(x),
        r <= 64,
{
    let mut n: u32 = 0;
    let mut i: u32 = 0;
    while i < 64
        invariant
            i <= 64,
            n == bits_below(x, i),
            n <= i,
        decreases 64 - i,
    {
        let b = (x >> i) & 1;
        if b == 1 {
            n = n + 1;
        }
        i = i + 1;
    }
    n
}

/// Whether two screen hashes differ by more than `DIFF_THRESHOLD` bits: enough to
/// catch a tab switch or a changed file, not a blinking cursor.
pub fn screens_differ(a: &ScreenHash, b: &ScreenHash) -> (r: bool)
    ensures
        r == (hamming(a@, b@) > DIFF_THRESHOLD),
{
    let d = count_ones(a[0] ^ b[0]) + count_ones(a[1] ^ b[1]) + count_ones(a[2] ^ b[2])
        + count_ones(a[3] ^ b[3]);
    d > DIFF_THRESHOLD
}

/// Number of the first `n` bit positions (of 256) at which two hashes differ.
pub open spec fn differing_bits(a: Seq<u64>, b: Seq<u64>, n: int) -> nat
    decreases n,
{
    if n <= 0 {
        0
    } else {
        differing_bits(a, b, n - 1) + if hash_bit(a, n - 1) != hash_bit(b, n - 1) {
            1nat
        } else {
            0nat
        }
    }
}

/// Sum of the set bits of the first `k` words of `a ^ b`.
spec fn words_popcount(a: Seq<u64>, b: Seq<u64>, k: int) -> nat
    decreases k,
{
    if k <= 0 {
        0
    } else {
        words_popcount(a, b, k - 1) + popcount(a[k - 1] ^ b[k - 1])
    }
}

proof fn lemma_xor_bit(x: u64, y: u64, i: u32)
    requires
        i < 64,
    ensures
        bit(x ^ y, i) == (bit(x, i) != bit(y, i)),
{
    assert((((x ^ y) >> i) & 1 == 1) == (((x >> i) & 1 == 1) != ((y >> i) & 1 == 1)))
        by (bit_vector)
        requires
            i < 64,
    ;
}

proof fn lemma_differing_bits_prefix(a: Seq<u64>, b: Seq<u64>, n: int)
    requires
        a.len() == 4,
        b.len() == 4,
        0 <= n < 256,
    ensures
        differing_bits(a, b, n) == words_popcount(a, b, n / 64) + bits_below(
            a[n / 64] ^ b[n / 64],
            (n % 64) as u32,
        ),
    decreases n,
{
    if n > 0 {
        let p = n - 1;
        lemma_differing_bits_prefix(a, b, p);
        let k = p / 64;
        let m = p % 64;
        lemma_xor_bit(a[k], b[k], m as u32);
        assert(hash_bit(a, p) == bit(a[k], m as u32));
        if m < 63 {
            assert(n / 64 == k && n % 64 == m + 1);
            assert(bits_below(a[k] ^ b[k], (m + 1) as u32) == bits_below(a[k] ^ b[k], m as u32) + if bit(
                a[k] ^ b[k],
                m as u32,
            ) {
                1nat
            } else {
                0nat
            });
        } else {
            assert(n / 64 == k + 1 && n % 64 == 0);
            assert(bits_below(a[k] ^ b[k], 64) == bits_below(a[k] ^ b[k], 63) + if bit(
                a[k] ^ b[k],
                63,
            ) {
                1nat
            } else {
                0nat
            });
            assert(words_popcount(a, b, k + 1) == words_popcount(a, b, k) + popcount(a[k] ^ b[k]));
        }
    } else {
        assert(bits_below(a[0] ^ b[0], 0) == 0);
    }
}

/// The distance between two screen hashes is the number of the 256 bit
/// positions, across all four words, at which they differ.
pub proof fn law_hamming_counts_differing_bits(a: ScreenHash, b: ScreenHash)
    ensures
        hamming(a@, b@) == differing_bits(a@, b@, 256),
{
    let (x, y) = (a@, b@);
    lemma_differing_bits_prefix(x, y, 255);
    let k: int = 3;
    lemma_xor_bit(x[k], y[k], 63);
    assert(hash_bit(x, 255) == bit(x[3], 63));
    assert(bits_below(x[3] ^ y[3], 64) == bits_below(x[3] ^ y[3], 63) + if bit(x[3] ^ y[3], 63) {
        1nat
    } else {
        0nat
    });
    reveal_with_fuel(words_popcount, 4);
}

proof fn lemma_bits_below_zero(n: u32)
    requires
        n <= 64,
    ensures
        bits_below(0, n) == 0,
    decreases n,
{
    if n > 0 {
        let k = (n - 1) as u32;
        assert((0u64 >> k) & 1 == 0) by (bit_vector)
            requires
                k < 64,
        ;
        lemma_bits_below_zero(k);
    }
}

/// A screen never differs from itself.
pub proof fn law_screen_same_as_itself(a: ScreenHash)
    ensures
        hamming(a@, a@) == 0,
{
    assert forall|k: int| 0 <= k < 4 implies #[trigger] (a@[k] ^ a@[k]) == 0u64 by {
        let x = a@[k];
        assert(x ^ x == 0) by (bit_vector);
    }
    lemma_bits_below_zero(64);
}

/// Whether two screens differ does not depend on their order.
pub proof fn law_screens_differ_symmetric(a: ScreenHash, b: ScreenHash)
    ensures
        hamming(a@, b@) == hamming(b@, a@),
{
    assert forall|k: int| 0 <= k < 4 implies #[trigger] (a@[k] ^ b@[k]) == b@[k] ^ a@[k] by {
        let x = a@[k];
        let y = b@[k];
        assert(x ^ y == y ^ x) by (bit_vector);
    }
}


/// Sum of a sequence of bytes.
pub open spec fn sum_bytes(s: Seq<u8>) -> nat
    decreases s.len(),
{
    if s.len() == 0 {
        0
    } else {
        sum_bytes(s.drop_last()) + (s.last() as nat)
    }
}

/// Pixels of the grayscale thumbnail a screen hash is computed from (16×16).
pub const HASH_PIXELS: usize = 256;

/// Mean brightness of the thumbnail, rounded down.
pub open spec fn mean_brightness(pixels: Seq<u8>) -> nat {
    sum_bytes(pixels) / (HASH_PIXELS as nat)
}

/// The mean a hash compares pixels with is the average brightness of the
/// thumbnail rounded down: 256 times it is at most the sum of the pixels, and
/// 256 times the next integer exceeds that sum.
pub proof fn law_mean_is_rounded_average(pixels: Seq<u8>)
    ensures
        mean_brightness(pixels) * 256 <= sum_bytes(pixels) < (mean_brightness(pixels) + 1) * 256,
{
    let m = mean_brightness(pixels);
    let t = sum_bytes(pixels);
    assert(m * 256 <= t < (m + 1) * 256) by (nonlinear_arith)
        requires
            m == t / 256,
    ;
}

/// Bit `i` (`0 <= i < 256`) of a screen hash.
pub open spec fn hash_bit(h: Seq<u64>, i: int) -> bool {
    bit(h[i / 64], (i % 64) as u32)
}

/// The average hash of a 16×16 grayscale thumbnail: bit `i` is set exactly when
/// pixel `i` is brighter than the mean.
pub open spec fn is_average_hash(h: Seq<u64>, pixels: Seq<u8>) -> bool {
    &&& h.len() == 4
    &&& forall|i: int| 0 <= i < HASH_PIXELS ==> #[trigger] hash_bit(h, i) == (pixels[i]
        > mean_brightness(pixels))
}

proof fn lemma_set_bit(x: u64, k: u32, j: u32)
    requires
        k < 64,
        j < 64,
    ensures
        bit(x | (1u64 << k), j) == (j == k || bit(x, j)),
{
    assert(((x | (1u64 << k)) >> j) & 1 == 1 <==> (j == k || (x >> j) & 1 == 1)) by (bit_vector)
        requires
            k < 64,
            j < 64,
    ;
}

proof fn lemma_zero_bits(j: u32)
    requires
        j < 64,
    ensures
        !bit(0, j),
{
    assert((0u64 >> j) & 1 != 1) by (bit_vector)
        requires
            j < 64,
    ;
}

/// The average hash of a 16×16 grayscale thumbnail (row by row, one byte per pixel).
pub fn hash_from_thumbnail(pixels: &[u8]) -> (r: ScreenHash)
    requires
        pixels@.len() == HASH_PIXELS,
    ensures
        is_average_hash(r@, pixels@),
{
    let mut sum: u32 = 0;
    let mut i: usize = 0;
    while i < HASH_PIXELS
        invariant
            i <= HASH_PIXELS == pixels@.len(),
            sum == sum_bytes(pixels@.take(i as int)),
            sum <= 255 * i,
        decreases HASH_PIXELS - i,
    {
        assert(pixels@.take(i + 1).drop_last() =~= pixels@.take(i as int));
        sum = sum + pixels[i] as u32;
        i = i + 1;
    }
    assert(pixels@.take(HASH_PIXELS as int) =~= pixels@);
    let mean = sum / 256;
    let mut hash: ScreenHash = [0u64; 4];
    proof {
        assert forall|j: int| 0 <= j < HASH_PIXELS implies !#[trigger] hash_bit(hash@, j) by {
            lemma_zero_bits((j % 64) as u32);
        }
    }
    let mut i: usize = 0;
    while i < HASH_PIXELS
        invariant
            i <= HASH_PIXELS == pixels@.len(),
            mean == mean_brightness(pixels@),
            hash@.len() == 4,
            forall|j: int| 0 <= j < i ==> #[trigger] hash_bit(hash@, j) == (pixels@[j] > mean),
            forall|j: int| i <= j < HASH_PIXELS ==> !#[trigger] hash_bit(hash@, j),
        decreases HASH_PIXELS - i,
    {
        if pixels[i] as u32 > mean {
            let w = i / 64;
            let k = (i % 64) as u32;
            let ghost old_hash = hash@;
            hash[w] = hash[w] | (1u64 << k);
            proof {
                assert forall|j: int| 0 <= j < HASH_PIXELS implies #[trigger] hash_bit(hash@, j)
                    == (j == i || hash_bit(old_hash, j)) by {
                    if j / 64 == w {
                        lemma_set_bit(old_hash[w as int], k, (j % 64) as u32);
                    }
                }
            }
        }
        i = i + 1;
    }
    hash
}

/// A thumbnail of one uniform brightness has the all-zero hash.
pub proof fn law_uniform_screen_hash_is_zero(h: Seq<u64>, pixels: Seq<u8>)
    requires
        is_average_hash(h, pixels),
        pixels.len() == HASH_PIXELS,
        forall|i: int| 0 <= i < HASH_PIXELS ==> #[trigger] pixels[i] == pixels[0],
    ensures
        forall|i: int| 0 <= i < HASH_PIXELS ==> !#[trigger] hash_bit(h, i),
{
    lemma_sum_uniform(pixels, HASH_PIXELS as int);
    assert(pixels.take(HASH_PIXELS as int) =~= pixels);
    assert forall|i: int| 0 <= i < HASH_PIXELS implies !#[trigger] hash_bit(h, i) by {
        assert(pixels[i] == pixels[0]);
    }
}

proof fn lemma_sum_uniform(pixels: Seq<u8>, n: int)
    requires
        0 <= n <= pixels.len(),
        forall|i: int| 0 <= i < pixels.len() ==> #[trigger] pixels[i] == pixels[0],
    ensures
        sum_bytes(pixels.take(n)) == n * pixels[0],
    decreases n,
{
    if n > 0 {
        assert(pixels.take(n).drop_last() =~= pixels.take(n - 1));
        lemma_sum_uniform(pixels, n - 1);
        assert(pixels[n - 1] == pixels[0]);
        assert(pixels.take(n).last() == pixels[n - 1]);
        assert(n * pixels[0] == (n - 1) * pixels[0] + pixels[0]) by (nonlinear_arith);
    } else {
        assert(pixels.take(0) =~= Seq::<u8>::empty());
    }
}


// ───────────────────────────── choosing the monitor ─────────────────────────────

/// Where a monitor lies on the desktop.
#[derive(Clone, Debug)]
pub struct MonitorArea {
    pub x: i32,
    pub y: i32,
    pub width: u32,
    pub height: u32,
}

/// The monitor's right and bottom edges fit in `i32`.
pub open spec fn area_ok(m: MonitorArea) -> bool {
    &&& i32::MIN <= m.x + (m.width as i32) <= i32::MAX
    &&& i32::MIN <= m.y + (m.height as i32) <= i32::MAX
}

/// The monitor shows the point `(cx, cy)`.
pub open spec fn covers(m: MonitorArea, cx: i32, cy: i32) -> bool {
    cx >= m.x && cx < m.x + (m.width as i32) && cy >= m.y && cy < m.y + (m.height as i32)
}

/// The monitor a capture is taken from: the first that shows the cursor, else
/// the first monitor; an error when there is none.
pub fn monitor_at(monitors: &Vec<MonitorArea>, cx: i32, cy: i32) -> (r: Result<usize, String>)
    requires
        forall|i: int| 0 <= i < monitors@.len() ==> area_ok(#[trigger] monitors@[i]),
    ensures
        r is Err <==> monitors@.len() == 0,
        r matches Err(e) ==> e@ == "No monitor found"@,
        r matches Ok(i) ==> i < monitors@.len() && (if exists|j: int|
            0 <= j < monitors@.len() && covers(#[trigger] monitors@[j], cx, cy) {
            covers(monitors@[i as int], cx, cy) && forall|j: int|
                0 <= j < i ==> !covers(#[trigger] monitors@[j], cx, cy)
        } else {
            i == 0
        }),
{
    let mut i: usize = 0;
    while i < monitors.len()
        invariant
            i <= monitors@.len(),
            forall|j: int| 0 <= j < monitors@.len() ==> area_ok(#[trigger] monitors@[j]),
            forall|j: int| 0 <= j < i ==> !covers(#[trigger] monitors@[j], cx, cy),
        decreases monitors.len() - i,
    {
        let m = &monitors[i];
        assert(area_ok(monitors@[i as int]));
        let w = m.width as i32;
        let h = m.height as i32;
        if cx >= m.x && cx < m.x + w && cy >= m.y && cy < m.y + h {
            assert(covers(monitors@[i as int], cx, cy));
            return Ok(i);
        }
        i = i + 1;
    }
    if monitors.len() == 0 {
        Err("No monitor found".to_owned())
    } else {
        Ok(0)
    }
}

// ───────────────────────────── encoding a capture ─────────────────────────────

/// A captured screen: `width × height` RGBA pixels, row by row.
pub struct Frame {
    pub width: u32,
    pub height: u32,
    pub rgba: Vec<u8>,
}

/// The buffer holds exactly the frame's pixels.
pub open spec fn frame_ok(width: u32, height: u32, rgba: Seq<u8>) -> bool {
    rgba.len() == width * height * 4
}

/// Captures wider than this are scaled down to it before they are hashed and sent.
pub const MAX_CAPTURE_WIDTH: u32 = 1920;

/// Quality of the JPEG sent for analysis.
pub const JPEG_QUALITY: u8 = 80;

/// What `DynamicImage::resize` with the Lanczos3 filter makes of an RGBA image:
/// the largest image of the same proportions within `nw × nh`, as its pixels,
/// width and height.
pub uninterp spec fn lanczos_fit(rgba: Seq<u8>, w: u32, h: u32, nw: u32, nh: u32) -> (Seq<u8>, u32, u32);

/// What `resize_exact(16, 16, FilterType::Triangle).to_luma8()` makes of an RGBA
/// image: 16×16 grayscale pixels, row by row.
pub uninterp spec fn triangle_gray16(rgba: Seq<u8>, w: u32, h: u32) -> Seq<u8>;

/// What JPEG encoding (of the image's RGB channels, at the given quality)
/// gives, or `None` when the encoder refuses the image.
pub uninterp spec fn jpeg_of(rgba: Seq<u8>, w: u32, h: u32, quality: u8) -> Option<Seq<u8>>;

/// At least one: the smallest side `DynamicImage::resize` gives an image.
pub open spec fn at_least_one(n: u32) -> u32 {
    if n == 0 {
        1
    } else {
        n
    }
}

/// `DynamicImage::resize` with the Lanczos3 filter (image crate). The pixels
/// are named, not spelled out; the buffer holds exactly the pixels, and the
/// image fits within `nw × nh` (a side is at least one pixel).
#[verifier::external_body]
fn resize_to_fit(rgba: &Vec<u8>, w: u32, h: u32, nw: u32, nh: u32) -> (r: (Vec<u8>, u32, u32))
    requires
        frame_ok(w, h, rgba@),
    ensures
        (r.0@, r.1, r.2) == lanczos_fit(rgba@, w, h, nw, nh),
        frame_ok(r.1, r.2, r.0@),
        r.1 <= at_least_one(nw),
        r.2 <= at_least_one(nh),
{
    let img = RgbaImage::from_raw(w, h, rgba.clone()).unwrap();
    let out = DynamicImage::ImageRgba8(img).resize(nw, nh, FilterType::Lanczos3).into_rgba8();
    let (ow, oh) = out.dimensions();
    (out.into_raw(), ow, oh)
}

/// `resize_exact(16, 16, FilterType::Triangle)` then `to_luma8` (image crate):
/// the thumbnail a screen hash is taken of, 256 grayscale pixels.
#[verifier::external_body]
fn gray_thumbnail(rgba: &Vec<u8>, w: u32, h: u32) -> (r: Vec<u8>)
    requires
        frame_ok(w, h, rgba@),
    ensures
        r@ == triangle_gray16(rgba@, w, h),
        r@.len() == HASH_PIXELS,
{
    let img = RgbaImage::from_raw(w, h, rgba.clone()).unwrap();
    DynamicImage::ImageRgba8(img).resize_exact(16, 16, FilterType::Triangle).to_luma8().into_raw()
}

/// `JpegEncoder::new_with_quality` on the image's RGB channels (image crate).
/// The bytes are named, not spelled out; the error's text is not stated.
#[verifier::external_body]
fn encode_jpeg(rgba: &Vec<u8>, w: u32, h: u32, quality: u8) -> (r: Result<Vec<u8>, String>)
    requires
        frame_ok(w, h, rgba@),
    ensures
        r is Ok <==> jpeg_of(rgba@, w, h, quality) is Some,
        r matches Ok(b) ==> b@ == jpeg_of(rgba@, w, h, quality)->Some_0,
{
    let img = RgbaImage::from_raw(w, h, rgba.clone()).unwrap();
    let rgb = DynamicImage::ImageRgba8(img).into_rgb8();
    let mut buf = Vec::new();
    match rgb.write_with_encoder(JpegEncoder::new_with_quality(&mut buf, quality)) {
        Ok(()) => Ok(buf),
        Err(e) => Err(e.to_string()),
    }
}

/// The base64 digit of a 6-bit value (standard alphabet).
pub open spec fn b64_digit(v: nat) -> char {
    if v < 26 {
        (65 + v) as char
    } else if v < 52 {
        (97 + v - 26) as char
    } else if v < 62 {
        (48 + v - 52) as char
    } else if v == 62 {
        '+'
    } else {
        '/'
    }
}

/// Standard base64 with `=` padding (RFC 4648, section 4).
pub open spec fn base64_standard(b: Seq<u8>) -> Seq<char>
    decreases b.len(),
{
    if b.len() == 0 {
        seq![]
    } else if b.len() == 1 {
        let x = b[0] as nat;
        seq![b64_digit(x / 4), b64_digit((x % 4) * 16), '=', '=']
    } else if b.len() == 2 {
        let x = b[0] as nat;
        let y = b[1] as nat;
        seq![b64_digit(x / 4), b64_digit((x % 4) * 16 + y / 16), b64_digit((y % 16) * 4), '=']
    } else {
        let x = b[0] as nat;
        let y = b[1] as nat;
        let z = b[2] as nat;
        seq![
            b64_digit(x / 4),
            b64_digit((x % 4) * 16 + y / 16),
            b64_digit((y % 16) * 4 + z / 64),
            b64_digit(z % 64),
        ] + base64_standard(b.skip(3))
    }
}

/// `base64::engine::general_purpose::STANDARD.encode` (base64 crate): standard
/// alphabet, padded.
#[verifier::external_body]
fn encode_base64(bytes: &Vec<u8>) -> (r: String)
    ensures
        r@ == base64_standard(bytes@),
{
    base64::engine::general_purpose::STANDARD.encode(bytes)
}

/// The frame that is hashed and sent: scaled to `MAX_CAPTURE_WIDTH` wide when
/// it is wider, keeping its proportions.
pub open spec fn fitted(rgba: Seq<u8>, w: u32, h: u32) -> (Seq<u8>, u32, u32) {
    if w > MAX_CAPTURE_WIDTH {
        lanczos_fit(rgba, w, h, MAX_CAPTURE_WIDTH, ((MAX_CAPTURE_WIDTH * h) / (w as int)) as u32)
    } else {
        (rgba, w, h)
    }
}

/// A capture as it is sent and remembered: the base64 of its JPEG encoding and
/// its screen hash, both of the fitted frame, which is at most
/// `MAX_CAPTURE_WIDTH` wide.
pub fn encode_frame(frame: Frame) -> (r: Result<(String, ScreenHash), String>)
    requires
        frame_ok(frame.width, frame.height, frame.rgba@),
        frame.width > MAX_CAPTURE_WIDTH ==> MAX_CAPTURE_WIDTH * frame.height <= u32::MAX,
    ensures
        ({
            let f = fitted(frame.rgba@, frame.width, frame.height);
            &&& f.1 <= MAX_CAPTURE_WIDTH
            &&& frame.width > MAX_CAPTURE_WIDTH ==> f.2 <= at_least_one(
                ((MAX_CAPTURE_WIDTH * frame.height) / (frame.width as int)) as u32,
            )
            &&& r is Ok <==> jpeg_of(f.0, f.1, f.2, JPEG_QUALITY) is Some
            &&& r matches Ok((b64, hash)) ==> {
                &&& b64@ == base64_standard(jpeg_of(f.0, f.1, f.2, JPEG_QUALITY)->Some_0)
                &&& is_average_hash(hash@, triangle_gray16(f.0, f.1, f.2))
            }
        }),
{
    let (pixels, w, h) = if frame.width > MAX_CAPTURE_WIDTH {
        let nh = (MAX_CAPTURE_WIDTH * frame.height) / frame.width;
        resize_to_fit(&frame.rgba, frame.width, frame.height, MAX_CAPTURE_WIDTH, nh)
    } else {
        (frame.rgba, frame.width, frame.height)
    };
    let thumb = gray_thumbnail(&pixels, w, h);
    let hash = hash_from_thumbnail(thumb.as_slice());
    let jpeg = encode_jpeg(&pixels, w, h, JPEG_QUALITY)?;
    Ok((encode_base64(&jpeg), hash))
}

} // verus!
