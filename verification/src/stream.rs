//! Screen preview streams: their settings, the multipart parts and WebRTC
//! data-channel packets that carry frames, the IVF frame headers read from
//! the VP8 encoder, and the JPEG re-encoding of frames.

use vstd::prelude::*;
use vstd::string::*;

use crate::text::{decimal, push_decimal};

verus! {

/// `v` kept within `lo..=hi` (`Ord::clamp`).
pub open spec fn clamp(v: int, lo: int, hi: int) -> int {
    if v < lo {
        lo
    } else if v > hi {
        hi
    } else {
        v
    }
}

fn clamp_u32(v: u32, lo: u32, hi: u32) -> (r: u32)
    requires
        lo <= hi,
    ensures
        r == clamp(v as int, lo as int, hi as int),
{
    if v < lo {
        lo
    } else if v > hi {
        hi
    } else {
        v
    }
}

fn clamp_u8(v: u8, lo: u8, hi: u8) -> (r: u8)
    requires
        lo <= hi,
    ensures
        r == clamp(v as int, lo as int, hi as int),
{
    if v < lo {
        lo
    } else if v > hi {
        hi
    } else {
        v
    }
}

/// The settings of a preview stream, from what the client asked for.
#[derive(Clone, Debug, PartialEq, Eq)]
pub struct StreamSettings {
    /// Frames per second.
    pub fps: u32,
    /// Widest frame, in pixels, after re-encoding.
    pub max_width: u32,
    /// JPEG quality of re-encoded frames.
    pub quality: u8,
}

/// The settings of a multipart preview: 8 fps (1 to 15), 720 px (240 to
/// 4096), quality 70 (35 to 95), each taken from the request when given.
pub fn multipart_stream_settings(fps: Option<u32>, max_width: Option<u32>, quality: Option<u8>) -> (r:
    StreamSettings)
    ensures
        r.fps == clamp(
            match fps {
                Some(f) => f as int,
                None => 8,
            },
            1,
            15,
        ),
        r.max_width == clamp(
            match max_width {
                Some(w) => w as int,
                None => 720,
            },
            240,
            4096,
        ),
        r.quality == clamp(
            match quality {
                Some(q) => q as int,
                None => 70,
            },
            35,
            95,
        ),
{
    StreamSettings {
        fps: clamp_u32(fps.unwrap_or(8), 1, 15),
        max_width: clamp_u32(max_width.unwrap_or(720), 240, 4096),
        quality: clamp_u8(quality.unwrap_or(70), 35, 95),
    }
}

/// The settings of a WebRTC preview: as a multipart preview, but 12 fps (1 to 20).
pub fn webrtc_stream_settings(fps: Option<u32>, max_width: Option<u32>, quality: Option<u8>) -> (r:
    StreamSettings)
    ensures
        r.fps == clamp(
            match fps {
                Some(f) => f as int,
                None => 12,
            },
            1,
            20,
        ),
        r.max_width == clamp(
            match max_width {
                Some(w) => w as int,
                None => 720,
            },
            240,
            4096,
        ),
        r.quality == clamp(
            match quality {
                Some(q) => q as int,
                None => 70,
            },
            35,
            95,
        ),
{
    StreamSettings {
        fps: clamp_u32(fps.unwrap_or(12), 1, 20),
        max_width: clamp_u32(max_width.unwrap_or(720), 240, 4096),
        quality: clamp_u8(quality.unwrap_or(70), 35, 95),
    }
}

/// The time between frames, in milliseconds.
pub fn frame_delay_ms(fps: u32) -> (r: u64)
    requires
        fps > 0,
    ensures
        r == 1000int / (fps as int),
{
    1000 / fps as u64
}

/// `s.to_ascii_lowercase() == word` for a `word` without uppercase ASCII letters.
pub open spec fn lower_eq(s: Seq<char>, word: Seq<char>) -> bool {
    &&& s.len() == word.len()
    &&& forall|i: int| 0 <= i < s.len() ==> lower_code(#[trigger] s[i]) == word[i] as u32
}

/// The code of `char::to_ascii_lowercase` applied to `c`.
pub open spec fn lower_code(c: char) -> u32 {
    if 'A' <= c && c <= 'Z' {
        (c as u32 + 32) as u32
    } else {
        c as u32
    }
}

fn lower_equals(s: &[char], word: &str) -> (r: bool)
    ensures
        r == lower_eq(s@, word@),
{
    let w = crate::text::chars_of(word);
    if s.len() != w.len() {
        return false;
    }
    let mut i: usize = 0;
    while i < s.len()
        invariant
            w@ == word@,
            s@.len() == w@.len(),
            i <= s@.len(),
            forall|k: int| 0 <= k < i ==> lower_code(#[trigger] s@[k]) == w@[k] as u32,
        decreases s@.len() - i,
    {
        let c = s[i];
        let code = if 'A' <= c && c <= 'Z' {
            c as u32 + 32
        } else {
            c as u32
        };
        if code != w[i] as u32 {
            return false;
        }
        i = i + 1;
    }
    true
}

/// Whether a frame is re-encoded as JPEG: always for format `jpeg`, never for
/// `native`, and otherwise (`auto`) for simulator frames that are not JPEG yet.
pub open spec fn encodes_jpeg(format: Seq<char>, android: bool, content_type: Seq<char>) -> bool {
    if lower_eq(format, "jpeg"@) {
        true
    } else if lower_eq(format, "native"@) {
        false
    } else {
        !android && content_type != "image/jpeg"@
    }
}

pub fn should_encode_jpeg(format: &str, android: bool, content_type: &str) -> (r: bool)
    ensures
        r == encodes_jpeg(format@, android, content_type@),
{
    let f = crate::text::chars_of(format);
    if lower_equals(f.as_slice(), "jpeg") {
        true
    } else if lower_equals(f.as_slice(), "native") {
        false
    } else {
        let ct = crate::text::chars_of(content_type);
        !android && !crate::text::chars_eq_str(ct.as_slice(), "image/jpeg")
    }
}

/// Whether an `appmo` preview re-encodes: only when the format is `jpeg` (any ASCII case).
pub fn appmo_encodes_jpeg(format: Option<&str>) -> (r: bool)
    ensures
        r == (format matches Some(f) && lower_eq(f@, "jpeg"@)),
{
    match format {
        Some(f) => {
            let cs = crate::text::chars_of(f);
            lower_equals(cs.as_slice(), "jpeg")
        },
        None => false,
    }
}

/// The header of one part of a `multipart/x-mixed-replace` stream.
pub open spec fn multipart_part_header(boundary: Seq<char>, content_type: Seq<char>, len: nat) -> Seq<
    char,
> {
    "\r\n--"@ + boundary + "\r\nContent-Type: "@ + content_type + "\r\nContent-Length: "@ + decimal(
        len,
    ) + "\r\nCache-Control: no-store\r\n\r\n"@
}

/// One part of a multipart preview stream: the part header, then the frame.
pub fn multipart_part(boundary: &str, content_type: &str, frame: &[u8]) -> (r: Vec<u8>)
    ensures
        r@ == vstd::utf8::encode_utf8(multipart_part_header(boundary@, content_type@, frame@.len()))
            + frame@,
{
    let mut h = String::from_str("\r\n--");
    h.append(boundary);
    h.append("\r\nContent-Type: ");
    h.append(content_type);
    h.append("\r\nContent-Length: ");
    push_decimal(&mut h, frame.len() as u64);
    h.append("\r\nCache-Control: no-store\r\n\r\n");
    let hb = h.as_str().as_bytes();
    let mut out: Vec<u8> = Vec::new();
    let mut i: usize = 0;
    while i < hb.len()
        invariant
            i <= hb@.len(),
            out@ == hb@.subrange(0, i as int),
        decreases hb@.len() - i,
    {
        out.push(hb[i]);
        i = i + 1;
    }
    let mut j: usize = 0;
    while j < frame.len()
        invariant
            j <= frame@.len(),
            out@ == hb@ + frame@.subrange(0, j as int),
        decreases frame@.len() - j,
    {
        out.push(frame[j]);
        j = j + 1;
    }
    assert(frame@.subrange(0, frame@.len() as int) =~= frame@);
    out
}

/// The bytes of each WebRTC data-channel packet carry at most this many bytes of the frame.
pub const CHUNK_SIZE: usize = 12288;

/// The number of packets that carry a frame of `n` bytes.
pub open spec fn packet_count(n: nat) -> nat {
    ((n + 12287) / 12288) as nat
}

/// `v` as four big-endian bytes.
pub open spec fn be32(v: nat) -> Seq<u8> {
    seq![
        ((v / 0x1000000) % 256) as u8,
        ((v / 0x10000) % 256) as u8,
        ((v / 0x100) % 256) as u8,
        (v % 256) as u8,
    ]
}

fn be32_bytes(v: u32) -> (r: [u8; 4])
    ensures
        r@ == be32(v as nat),
{
    let r = [
        ((v / 0x1000000) % 256) as u8,
        ((v / 0x10000) % 256) as u8,
        ((v / 0x100) % 256) as u8,
        (v % 256) as u8,
    ];
    assert(r@ =~= be32(v as nat));
    r
}

/// Packet `i` of a frame: the frame number, the flags (1 on the first
/// packet, 2 on the last), the length of the media type (only the first
/// packet carries it, cut to 255 bytes), the frame length, the media type
/// bytes, and the packet's share of the frame.
pub open spec fn frame_packet(frame_seq: u32, content_type: Seq<u8>, frame: Seq<u8>, i: nat) -> Seq<
    u8,
> {
    let n = frame.len();
    let start = i * 12288;
    let end = if start + 12288 < n {
        start + 12288
    } else {
        n
    };
    let first = i == 0;
    let last = end == n;
    let ct_len: nat = if first {
        if content_type.len() < 255 {
            content_type.len()
        } else {
            255
        }
    } else {
        0
    };
    be32(frame_seq as nat) + seq![((if first { 1int } else { 0int }) + (if last { 2int } else { 0int })) as u8, ct_len as u8]
        + be32((n % 0x1_0000_0000) as nat) + content_type.take(ct_len as int) + frame.subrange(
        start as int,
        end as int,
    )
}

/// The packets that carry a frame over the preview data channel.
pub open spec fn frame_packets(frame_seq: u32, content_type: Seq<u8>, frame: Seq<u8>) -> Seq<Seq<u8>> {
    Seq::new(packet_count(frame.len()), |i: int| frame_packet(frame_seq, content_type, frame, i as nat))
}

/// The views of packets.
pub open spec fn packets_view(v: Seq<Vec<u8>>) -> Seq<Seq<u8>> {
    v.map_values(|p: Vec<u8>| p@)
}

fn push_bytes(out: &mut Vec<u8>, b: &[u8], lo: usize, hi: usize)
    requires
        lo <= hi <= b@.len(),
    ensures
        final(out)@ == old(out)@ + b@.subrange(lo as int, hi as int),
{
    let ghost start = out@;
    let mut i = lo;
    while i < hi
        invariant
            lo <= i <= hi <= b@.len(),
            out@ == start + b@.subrange(lo as int, i as int),
        decreases hi - i,
    {
        out.push(b[i]);
        i = i + 1;
    }
}

/// Splits a frame into the packets of the preview data channel.
pub fn webrtc_frame_packets(frame_seq: u32, content_type: &str, frame: &[u8]) -> (r: Vec<Vec<u8>>)
    ensures
        packets_view(r@) == frame_packets(frame_seq, content_type.spec_bytes(), frame@),
{
    let ct = content_type.as_bytes();
    let n = frame.len();
    let total = (n as u64 % 0x1_0000_0000u64) as u32;
    let mut out: Vec<Vec<u8>> = Vec::new();
    let mut offset: usize = 0;
    let ghost spec_all = frame_packets(frame_seq, ct@, frame@);
    while offset < n
        invariant
            n == frame@.len(),
            ct@ == content_type.spec_bytes(),
            total == (n as int) % 0x1_0000_0000int,
            offset <= n,
            offset < n ==> offset == out@.len() * 12288,
            offset == n ==> out@.len() == packet_count(n as nat),
            out@.len() <= packet_count(n as nat),
            forall|k: int| 0 <= k < out@.len() ==> #[trigger] out@[k]@ == frame_packet(
                frame_seq,
                ct@,
                frame@,
                k as nat,
            ),
        decreases n - offset,
    {
        let i = out.len();
        let end = if n - offset > CHUNK_SIZE {
            offset + CHUNK_SIZE
        } else {
            n
        };
        let first = offset == 0;
        let last = end == n;
        let ct_len = if first {
            if ct.len() < 255 {
                ct.len()
            } else {
                255
            }
        } else {
            0
        };
        let mut p: Vec<u8> = Vec::new();
        let s = be32_bytes(frame_seq);
        push_bytes(&mut p, &s, 0, 4);
        p.push(((if first { 1u8 } else { 0u8 }) + (if last { 2u8 } else { 0u8 })) as u8);
        p.push(ct_len as u8);
        let t = be32_bytes(total);
        push_bytes(&mut p, &t, 0, 4);
        push_bytes(&mut p, ct, 0, ct_len);
        push_bytes(&mut p, frame, offset, end);
        proof {
            assert(s@.subrange(0, 4) =~= s@);
            assert(t@.subrange(0, 4) =~= t@);
            assert(ct@.subrange(0, ct_len as int) =~= ct@.take(ct_len as int));
            assert(p@ =~= frame_packet(frame_seq, ct@, frame@, i as nat));
        }
        out.push(p);
        offset = end;
        proof {
            assert(i * 12288 < n);
            if offset == n {
                assert(n <= (i + 1) * 12288);
                assert(out@.len() == packet_count(n as nat));
            } else {
                assert(offset == (i + 1) * 12288);
                assert(out@.len() < packet_count(n as nat));
            }
        }
    }
    proof {
        assert(packets_view(out@) =~= spec_all);
    }
    out
}

/// The size of the file header that starts an IVF stream.
pub const IVF_FILE_HEADER_LEN: usize = 32;

/// The size of the header before each IVF frame.
pub const IVF_FRAME_HEADER_LEN: usize = 12;

/// The largest VP8 frame accepted from the encoder.
pub const MAX_VP8_FRAME_LEN: u32 = 8 * 1024 * 1024;

/// Four little-endian bytes as a number.
pub open spec fn le32(b: Seq<u8>) -> nat {
    (b[0] + 256 * b[1] + 65536 * b[2] + 16777216 * b[3]) as nat
}

/// The frame length an IVF frame header gives, refused when 0 or over 8 MiB.
pub open spec fn ivf_frame_len(header: Seq<u8>) -> Result<nat, Seq<char>> {
    let n = le32(header);
    if n == 0 || n > 8 * 1024 * 1024 {
        Err("ffmpeg emitted invalid VP8 frame length: "@ + decimal(n))
    } else {
        Ok(n)
    }
}

/// Reads the frame length from an IVF frame header.
pub fn ivf_frame_length(header: &[u8]) -> (r: Result<usize, String>)
    requires
        header@.len() == 12,
    ensures
        match ivf_frame_len(header@) {
            Ok(n) => r == Ok::<usize, String>(n as usize),
            Err(m) => r matches Err(e) && e@ == m,
        },
{
    let n: u32 = header[0] as u32 + 256 * header[1] as u32 + 65536 * header[2] as u32 + 16777216
        * header[3] as u32;
    if n == 0 || n > MAX_VP8_FRAME_LEN {
        let mut m = String::from_str("ffmpeg emitted invalid VP8 frame length: ");
        push_decimal(&mut m, n as u64);
        return Err(m);
    }
    Ok(n as usize)
}

/// `image::ImageError`.
#[verifier::external_type_specification]
#[verifier::external_body]
pub struct ExImageError(image::ImageError);

/// The width and height of the image that `image::load_from_memory` decodes
/// from some bytes, or none when they cannot be decoded.
pub uninterp spec fn decoded_size(bytes: Seq<u8>) -> Option<(u32, u32)>;

/// The JPEG at some quality that `JpegEncoder` writes of the image decoded
/// from some bytes, or none when decoding or encoding fails.
pub uninterp spec fn jpeg_encoding(bytes: Seq<u8>, quality: u8) -> Option<Seq<u8>>;

/// The JPEG at some quality of the image decoded from some bytes and resized
/// by `DynamicImage::resize` (triangle filter) to fit a width and height, or
/// none when decoding or encoding fails.
pub uninterp spec fn resized_jpeg_encoding(bytes: Seq<u8>, width: u32, height: u32, quality: u8) -> Option<
    Seq<u8>,
>;

/// `image::load_from_memory`, then `GenericImageView::dimensions`: the size of
/// the decoded image, or the decoding error. Both depend on the bytes alone;
/// the size is named.
#[verifier::external_body]
fn decode_size(bytes: &[u8]) -> (r: Result<(u32, u32), image::ImageError>)
    ensures
        r is Ok <==> decoded_size(bytes@) is Some,
        r matches Ok(size) ==> decoded_size(bytes@) == Some(size),
{
    image::load_from_memory(bytes).map(|img| image::GenericImageView::dimensions(&img))
}

/// `image::load_from_memory`, then `JpegEncoder::new_with_quality(..)
/// .encode_image(..)`: the image written as JPEG at `quality`. The result
/// depends on its arguments alone and is named.
#[verifier::external_body]
fn encode_jpeg(bytes: &[u8], quality: u8) -> (r: Result<Vec<u8>, image::ImageError>)
    ensures
        r is Ok <==> jpeg_encoding(bytes@, quality) is Some,
        r matches Ok(v) ==> jpeg_encoding(bytes@, quality) == Some(v@),
{
    let img = image::load_from_memory(bytes)?;
    let mut encoded = Vec::new();
    image::codecs::jpeg::JpegEncoder::new_with_quality(&mut encoded, quality).encode_image(&img)?;
    Ok(encoded)
}

/// `image::load_from_memory`, `DynamicImage::resize` with the triangle filter
/// to fit `width` by `height`, then `JpegEncoder` at `quality`. The result
/// depends on its arguments alone and is named.
#[verifier::external_body]
fn encode_resized_jpeg(bytes: &[u8], width: u32, height: u32, quality: u8) -> (r: Result<Vec<u8>, image::ImageError>)
    ensures
        r is Ok <==> resized_jpeg_encoding(bytes@, width, height, quality) is Some,
        r matches Ok(v) ==> resized_jpeg_encoding(bytes@, width, height, quality) == Some(v@),
{
    let img = image::load_from_memory(bytes)?;
    let resized = img.resize(width, height, image::imageops::FilterType::Triangle);
    let mut encoded = Vec::new();
    image::codecs::jpeg::JpegEncoder::new_with_quality(&mut encoded, quality).encode_image(&resized)?;
    Ok(encoded)
}

/// The height that keeps the aspect ratio of a `width` by `height` image
/// brought to `max_width`: at least 1.
pub open spec fn scaled_height(width: nat, height: nat, max_width: nat) -> nat {
    let h = height * max_width / width;
    if h < 1 {
        1
    } else {
        h
    }
}

/// The size a frame is resized to before re-encoding: none when it is no
/// wider than `max_width`, else `max_width` wide with the aspect ratio kept.
pub fn stream_resize_target(width: u32, height: u32, max_width: u32) -> (r: Option<(u32, u32)>)
    ensures
        width <= max_width ==> r is None,
        width > max_width ==> r == Some((max_width, scaled_height(width as nat, height as nat, max_width as nat) as u32))
            && scaled_height(width as nat, height as nat, max_width as nat) <= u32::MAX,
{
    if width <= max_width {
        return None;
    }
    assert(height as int * max_width as int <= u32::MAX as int * u32::MAX as int) by (nonlinear_arith)
        requires
            height <= u32::MAX,
            max_width <= u32::MAX,
    ;
    let product = height as u64 * max_width as u64;
    let h = product / width as u64;
    assert(h <= height) by (nonlinear_arith)
        requires
            h == product / width as u64,
            product == height as int * max_width as int,
            max_width < width,
    ;
    let h = if h < 1 {
        1
    } else {
        h
    };
    Some((max_width, h as u32))
}

/// The size a `width` by `height` frame is resized to: none when it is no
/// wider than `max_width`, else `max_width` wide with the aspect ratio kept.
pub open spec fn resize_target(width: u32, height: u32, max_width: u32) -> Option<(u32, u32)> {
    if width <= max_width {
        None
    } else {
        Some((max_width, scaled_height(width as nat, height as nat, max_width as nat) as u32))
    }
}

/// The JPEG a preview frame becomes: the decoded image, shrunk to
/// `max_width` when it is wider, written at `quality`; none when the image
/// cannot be decoded or encoded.
pub open spec fn stream_jpeg(bytes: Seq<u8>, max_width: u32, quality: u8) -> Option<Seq<u8>> {
    match decoded_size(bytes) {
        None => None,
        Some((w, h)) => match resize_target(w, h, max_width) {
            Some((tw, th)) => resized_jpeg_encoding(bytes, tw, th, quality),
            None => jpeg_encoding(bytes, quality),
        },
    }
}

/// Re-encodes a frame as JPEG at `quality`, first shrinking it to `max_width`
/// when it is wider.
pub fn encode_stream_frame(bytes: &[u8], max_width: u32, quality: u8) -> (r: Result<(&'static str, Vec<u8>), image::ImageError>)
    ensures
        match stream_jpeg(bytes@, max_width, quality) {
            Some(b) => r matches Ok((ct, v)) && ct@ == "image/jpeg"@ && v@ == b,
            None => r is Err,
        },
{
    let (width, height) = decode_size(bytes)?;
    let encoded = match stream_resize_target(width, height, max_width) {
        Some((w, h)) => encode_resized_jpeg(bytes, w, h, quality)?,
        None => encode_jpeg(bytes, quality)?,
    };
    Ok(("image/jpeg", encoded))
}

/// The JPEG sent to the VP8 encoder: a JPEG frame as it is when frames may be
/// 4096 px wide, any other frame re-encoded as a preview frame.
pub fn prepare_video_jpeg_frame(content_type: &str, bytes: Vec<u8>, max_width: u32, quality: u8) -> (r:
    Result<Vec<u8>, image::ImageError>)
    ensures
        content_type@ == "image/jpeg"@ && max_width >= 4096 ==> r == Ok::<Vec<u8>, image::ImageError>(bytes),
        !(content_type@ == "image/jpeg"@ && max_width >= 4096) ==> match stream_jpeg(bytes@, max_width, quality) {
            Some(b) => r matches Ok(v) && v@ == b,
            None => r is Err,
        },
{
    let ct = crate::text::chars_of(content_type);
    if crate::text::chars_eq_str(ct.as_slice(), "image/jpeg") && max_width >= 4096 {
        Ok(bytes)
    } else {
        match encode_stream_frame(bytes.as_slice(), max_width, quality) {
            Ok((_, encoded)) => Ok(encoded),
            Err(e) => Err(e),
        }
    }
}

/// The `ffmpeg` arguments that turn MJPEG frames read from standard input at
/// `fps` into a real-time VP8 stream in IVF framing on standard output.
pub open spec fn vp8_encoder_args(fps: u32) -> Seq<Seq<char>> {
    seq![
        "-hide_banner"@,
        "-loglevel"@,
        "error"@,
        "-fflags"@,
        "nobuffer"@,
        "-flags"@,
        "low_delay"@,
        "-f"@,
        "mjpeg"@,
        "-framerate"@,
        decimal(fps as nat),
        "-i"@,
        "pipe:0"@,
        "-an"@,
        "-c:v"@,
        "libvpx"@,
        "-deadline"@,
        "realtime"@,
        "-cpu-used"@,
        "8"@,
        "-lag-in-frames"@,
        "0"@,
        "-auto-alt-ref"@,
        "0"@,
        "-error-resilient"@,
        "1"@,
        "-g"@,
        "30"@,
        "-quality"@,
        "realtime"@,
        "-f"@,
        "ivf"@,
        "pipe:1"@,
    ]
}

pub fn vp8_encoder_command_args(fps: u32) -> (r: Vec<String>)
    ensures
        crate::text::strings_view(r@) == vp8_encoder_args(fps),
{
    let mut v: Vec<String> = Vec::new();
    v.push(String::from_str("-hide_banner"));
    v.push(String::from_str("-loglevel"));
    v.push(String::from_str("error"));
    v.push(String::from_str("-fflags"));
    v.push(String::from_str("nobuffer"));
    v.push(String::from_str("-flags"));
    v.push(String::from_str("low_delay"));
    v.push(String::from_str("-f"));
    v.push(String::from_str("mjpeg"));
    v.push(String::from_str("-framerate"));
    v.push(crate::text::decimal_string(fps as u64));
    v.push(String::from_str("-i"));
    v.push(String::from_str("pipe:0"));
    v.push(String::from_str("-an"));
    v.push(String::from_str("-c:v"));
    v.push(String::from_str("libvpx"));
    v.push(String::from_str("-deadline"));
    v.push(String::from_str("realtime"));
    v.push(String::from_str("-cpu-used"));
    v.push(String::from_str("8"));
    v.push(String::from_str("-lag-in-frames"));
    v.push(String::from_str("0"));
    v.push(String::from_str("-auto-alt-ref"));
    v.push(String::from_str("0"));
    v.push(String::from_str("-error-resilient"));
    v.push(String::from_str("1"));
    v.push(String::from_str("-g"));
    v.push(String::from_str("30"));
    v.push(String::from_str("-quality"));
    v.push(String::from_str("realtime"));
    v.push(String::from_str("-f"));
    v.push(String::from_str("ivf"));
    v.push(String::from_str("pipe:1"));
    assert(crate::text::strings_view(v@) =~= vp8_encoder_args(fps));
    v
}

/// What the VP8 preview does while it waits for its peer to connect.
#[derive(Debug, PartialEq, Eq, Structural)]
pub enum EncoderWait {
    /// The peer is connected: start the encoder.
    Start,
    /// Check again shortly.
    Wait,
    /// The connection ended before the encoder started.
    Closed,
    /// The connection took longer than 8 seconds.
    TimedOut,
}

/// The next step of waiting for the peer: start once connected, give up when
/// the connection has ended or more than 8 s (8_000_000_000 ns) have passed,
/// else wait.
pub fn encoder_wait_step(connected: bool, ended: bool, elapsed_ns: u64) -> (r: EncoderWait)
    ensures
        connected ==> r == EncoderWait::Start,
        !connected && ended ==> r == EncoderWait::Closed,
        !connected && !ended && elapsed_ns > 8_000_000_000 ==> r == EncoderWait::TimedOut,
        !connected && !ended && elapsed_ns <= 8_000_000_000 ==> r == EncoderWait::Wait,
{
    if connected {
        EncoderWait::Start
    } else if ended {
        EncoderWait::Closed
    } else if elapsed_ns > 8_000_000_000 {
        EncoderWait::TimedOut
    } else {
        EncoderWait::Wait
    }
}

/// Where the share of the frame carried by packet `i` ends.
pub open spec fn chunk_end(n: nat, i: nat) -> nat {
    if i * 12288 + 12288 < n {
        i * 12288 + 12288
    } else {
        n
    }
}

/// The shares of the frame carried by packets `0..k`, joined in order.
pub open spec fn chunks_joined(frame: Seq<u8>, k: nat) -> Seq<u8>
    decreases k,
{
    if k == 0 {
        seq![]
    } else {
        chunks_joined(frame, (k - 1) as nat) + frame.subrange(
            (k - 1) * 12288,
            chunk_end(frame.len(), (k - 1) as nat) as int,
        )
    }
}

proof fn lemma_chunks_joined(frame: Seq<u8>, k: nat)
    requires
        k <= packet_count(frame.len()),
    ensures
        chunks_joined(frame, k) == frame.take(
            if k * 12288 < frame.len() {
                (k * 12288) as int
            } else {
                frame.len() as int
            },
        ),
    decreases k,
{
    let n = frame.len();
    if k == 0 {
        assert(frame.take(0) =~= Seq::<u8>::empty());
    } else {
        lemma_chunks_joined(frame, (k - 1) as nat);
        assert((k - 1) * 12288 < n);
        let e = chunk_end(n, (k - 1) as nat);
        assert(e == if k * 12288 < n {
            (k * 12288) as int
        } else {
            n as int
        });
        assert(frame.take((k - 1) * 12288) + frame.subrange((k - 1) * 12288, e as int) =~= frame.take(
            e as int,
        ));
    }
}

/// The number that four bytes spell in big-endian order, from index `at`.
pub open spec fn be32_at(p: Seq<u8>, at: int) -> int {
    p[at] as int * 0x1000000 + p[at + 1] as int * 0x10000 + p[at + 2] as int * 0x100 + p[at + 3] as int
}

proof fn lemma_be32_reads_back(v: u32)
    ensures
        be32_at(be32(v as nat), 0) == v,
{
    let x = v;
    assert(((x / 0x1000000) % 256) * 0x1000000 + ((x / 0x10000) % 256) * 0x10000 + ((x / 0x100)
        % 256) * 0x100 + x % 256 == x) by (bit_vector);
    let b = be32(v as nat);
    assert(b[0] as int == (v as nat / 0x1000000) % 256);
    assert(b[1] as int == (v as nat / 0x10000) % 256);
    assert(b[2] as int == (v as nat / 0x100) % 256);
    assert(b[3] as int == v as nat % 256);
}

/// Every packet of a frame names it: its first four bytes spell the frame
/// number and bytes 6 to 9 the frame's whole length, both big-endian, so a
/// receiver can size the frame from any packet.
pub proof fn law_packet_headers_name_the_frame(frame_seq: u32, content_type: Seq<u8>, frame: Seq<u8>)
    requires
        frame.len() < 0x1_0000_0000,
    ensures
        forall|i: nat|
            i < packet_count(frame.len()) ==> {
                &&& be32_at(#[trigger] frame_packet(frame_seq, content_type, frame, i), 0) == frame_seq
                &&& be32_at(frame_packet(frame_seq, content_type, frame, i), 6) == frame.len()
            },
{
    let n = frame.len();
    lemma_be32_reads_back(frame_seq);
    lemma_be32_reads_back(n as u32);
    assert forall|i: nat| i < packet_count(n) implies {
        &&& be32_at(#[trigger] frame_packet(frame_seq, content_type, frame, i), 0) == frame_seq
        &&& be32_at(frame_packet(frame_seq, content_type, frame, i), 6) == n
    } by {
        let p = frame_packet(frame_seq, content_type, frame, i);
        let sq = be32(frame_seq as nat);
        let ln = be32((n % 0x1_0000_0000) as nat);
        assert((n % 0x1_0000_0000) as nat == (n as u32) as nat);
        assert(ln == be32((n as u32) as nat));
        assert(p[0] == sq[0] && p[1] == sq[1] && p[2] == sq[2] && p[3] == sq[3]);
        assert(p[6] == ln[0] && p[7] == ln[1] && p[8] == ln[2] && p[9] == ln[3]);
    }
}

/// The packets of a frame carry it whole: packet `i` is a header (10 bytes,
/// plus the media type on the first packet) followed by the `i`-th share of
/// the frame; the shares joined in order are the frame; the first packet
/// alone has flag 1 and the last alone has flag 2.
pub proof fn law_packets_carry_frame(frame_seq: u32, content_type: Seq<u8>, frame: Seq<u8>)
    ensures
        chunks_joined(frame, packet_count(frame.len())) == frame,
        forall|i: nat|
            i < packet_count(frame.len()) ==> {
                let ct_len: int = if i == 0 {
                    if content_type.len() < 255 {
                        content_type.len() as int
                    } else {
                        255
                    }
                } else {
                    0
                };
                &&& exists|h: Seq<u8>|
                    h.len() == 10 + ct_len && #[trigger] frame_packet(frame_seq, content_type, frame, i)
                        == h + frame.subrange((i * 12288) as int, chunk_end(frame.len(), i) as int)
                &&& (frame_packet(frame_seq, content_type, frame, i)[4] & 1 == 1) == (i == 0)
                &&& (chunk_end(frame.len(), i) == frame.len()) == (i + 1 == packet_count(frame.len()))
            },
{
    let n = frame.len();
    lemma_chunks_joined(frame, packet_count(n));
    assert(packet_count(n) * 12288 >= n);
    assert(frame.take(n as int) =~= frame);
    assert forall|i: nat| i < packet_count(n) implies {
        let ct_len: int = if i == 0 {
            if content_type.len() < 255 {
                content_type.len() as int
            } else {
                255
            }
        } else {
            0
        };
        &&& exists|h: Seq<u8>|
            h.len() == 10 + ct_len && #[trigger] frame_packet(frame_seq, content_type, frame, i) == h
                + frame.subrange((i * 12288) as int, chunk_end(n, i) as int)
        &&& (frame_packet(frame_seq, content_type, frame, i)[4] & 1 == 1) == (i == 0)
        &&& (chunk_end(n, i) == n) == (i + 1 == packet_count(n))
    } by {
        let start = (i * 12288) as int;
        let e = chunk_end(n, i);
        let first = i == 0;
        let last = e == n;
        let ct_len: nat = if first {
            if content_type.len() < 255 {
                content_type.len()
            } else {
                255
            }
        } else {
            0
        };
        let flags = ((if first { 1int } else { 0int }) + (if last { 2int } else { 0int })) as u8;
        let h = be32(frame_seq as nat) + seq![flags, ct_len as u8] + be32((n % 0x1_0000_0000) as nat)
            + content_type.take(ct_len as int);
        assert(frame_packet(frame_seq, content_type, frame, i) == h + frame.subrange(start, e as int));
        assert(h[4] == flags);
        assert((h + frame.subrange(start, e as int))[4] == flags);
        assert(flags & 1 == 1 <==> first) by (bit_vector)
            requires
                flags == ((if first { 1int } else { 0int }) + (if last { 2int } else { 0int })) as u8,
        ;
    }
}

} // verus!
