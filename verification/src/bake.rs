//! Offline bake of a music video: frame accounting, the GPU readback
//! layout, the stripping of row padding from read-back frames, and the
//! encoder command line.

use vstd::prelude::*;
use crate::text::{decimal, spec_decimal};

verus! {

/// Frame accounting of a running bake.
pub struct BakeFrames {
    pub frame_index: u32,
    pub total_frames: u32,
}

impl BakeFrames {
    pub open spec fn spec_done(self) -> bool {
        self.frame_index >= self.total_frames
    }

    /// A fresh bake of `total_frames` frames.
    pub fn new(total_frames: u32) -> (r: BakeFrames)
        ensures
            r.frame_index == 0,
            r.total_frames == total_frames,
    {
        BakeFrames { frame_index: 0, total_frames }
    }

    /// Whether every frame has been rendered.
    pub fn done(&self) -> (r: bool)
        ensures
            r == self.spec_done(),
    {
        self.frame_index >= self.total_frames
    }

    /// Count one rendered frame; returns whether the bake just finished.
    pub fn advance(&mut self) -> (r: bool)
        requires
            old(self).frame_index < u32::MAX,
        ensures
            final(self).frame_index == old(self).frame_index + 1,
            final(self).total_frames == old(self).total_frames,
            r == final(self).spec_done(),
    {
        self.frame_index = self.frame_index + 1;
        self.done()
    }
}

/// A bake of `total` frames that starts fresh is done after exactly
/// `total` frames have been counted, and not before.
pub proof fn lemma_bake_ends_after_total(total: u32, counted: u32)
    ensures
        (BakeFrames { frame_index: counted, total_frames: total }).spec_done() <==> counted >= total,
        !(BakeFrames { frame_index: 0, total_frames: total }).spec_done() <==> total > 0,
{
}

/// Bytes of one read-back row: four bytes per pixel, padded up to the
/// next multiple of the copy alignment.
pub open spec fn spec_padded_row(width: u32, align: u32) -> int {
    ((width * 4 + align - 1) / align as int) * align
}

/// Layout of the staging buffer a captured frame is copied into.
pub struct CaptureLayout {
    pub width: u32,
    pub height: u32,
    pub bytes_per_row: u32,
    pub staging_size: u64,
}

proof fn lemma_padding_bounds(u: int, a: int)
    requires
        u >= 0,
        a > 0,
    ensures
        ((u + a - 1) / a) * a >= u,
        ((u + a - 1) / a) * a < u + a,
        (((u + a - 1) / a) * a) % a == 0,
        ((u + a - 1) / a) * a >= 0,
{
    let x = u + a - 1;
    let q = x / a;
    vstd::arithmetic::div_mod::lemma_fundamental_div_mod(x, a);
    vstd::arithmetic::div_mod::lemma_mod_bound(x, a);
    vstd::arithmetic::div_mod::lemma_mod_multiples_basic(q, a);
    vstd::arithmetic::mul::lemma_mul_is_commutative(q, a);
    vstd::arithmetic::div_mod::lemma_div_pos_is_pos(x, a);
    assert(q * a >= 0) by (nonlinear_arith)
        requires
            q >= 0,
            a > 0,
    ;
}

/// The readback layout is computable without overflow.
pub open spec fn spec_layout_fits(width: u32, height: u32, align: u32) -> bool {
    &&& align > 0
    &&& width * 4 + align <= u32::MAX
    &&& spec_padded_row(width, align) * height <= u32::MAX
}

/// Readback layout of a `width` x `height` BGRA frame when rows must be
/// copied at multiples of `align` bytes.
pub fn capture_layout(width: u32, height: u32, align: u32) -> (r: CaptureLayout)
    requires
        spec_layout_fits(width, height, align),
    ensures
        r.width == width,
        r.height == height,
        r.bytes_per_row == spec_padded_row(width, align),
        r.bytes_per_row % align == 0,
        width * 4 <= r.bytes_per_row < width * 4 + align,
        r.staging_size == r.bytes_per_row * height,
{
    proof {
        lemma_padding_bounds(width * 4, align as int);
    }
    let unpadded = width * 4;
    let bytes_per_row = (unpadded + align - 1) / align * align;
    let staging = bytes_per_row * height;
    CaptureLayout { width, height, bytes_per_row, staging_size: staging as u64 }
}

/// The readback layout, or `None` for a frame so large that its row or
/// buffer size would overflow 32 bits.
pub fn checked_capture_layout(width: u32, height: u32, align: u32) -> (r: Option<CaptureLayout>)
    ensures
        r is Some <==> spec_layout_fits(width, height, align),
        r matches Some(l) ==> {
            &&& l.width == width
            &&& l.height == height
            &&& l.bytes_per_row == spec_padded_row(width, align)
            &&& l.staging_size == l.bytes_per_row * height
        },
{
    if align == 0 {
        return None;
    }
    let row_sum: u64 = width as u64 * 4 + align as u64;
    if row_sum > u32::MAX as u64 {
        return None;
    }
    proof {
        lemma_padding_bounds(width * 4, align as int);
    }
    let padded: u64 = (width as u64 * 4 + align as u64 - 1) / align as u64 * align as u64;
    assert(padded == spec_padded_row(width, align));
    assert(padded * (height as u64) <= u64::MAX) by (nonlinear_arith)
        requires
            padded <= u32::MAX,
            height <= u32::MAX,
    ;
    let size: u64 = padded * height as u64;
    if size > u32::MAX as u64 {
        return None;
    }
    Some(capture_layout(width, height, align))
}

/// The first `rows` rows of `row_bytes` bytes each, out of a buffer whose
/// rows start every `stride` bytes.
pub open spec fn spec_strip(data: Seq<u8>, row_bytes: int, rows: nat, stride: int) -> Seq<u8>
    decreases rows,
{
    if rows == 0 {
        Seq::empty()
    } else {
        let r = rows - 1;
        spec_strip(data, row_bytes, (rows - 1) as nat, stride) + data.subrange(
            r * stride,
            r * stride + row_bytes,
        )
    }
}

/// Row `r`, column `c` of the stripped frame is row `r`, column `c` of the
/// padded buffer, and the stripped frame is exactly `rows * row_bytes` long.
pub proof fn lemma_strip_keeps_pixels(
    data: Seq<u8>,
    row_bytes: int,
    rows: nat,
    stride: int,
    r: int,
    c: int,
)
    requires
        0 <= row_bytes <= stride,
        rows * stride <= data.len(),
        0 <= r < rows,
        0 <= c < row_bytes,
    ensures
        spec_strip(data, row_bytes, rows, stride).len() == rows * row_bytes,
        spec_strip(data, row_bytes, rows, stride)[r * row_bytes + c] == data[r * stride + c],
    decreases rows,
{
    lemma_strip_len(data, row_bytes, rows, stride);
    let last = rows - 1;
    assert(last * stride + stride == rows * stride) by (nonlinear_arith)
        requires
            last == rows - 1,
    ;
    assert(last * stride >= 0) by (nonlinear_arith)
        requires
            last >= 0,
            stride >= 0,
    ;
    lemma_strip_len(data, row_bytes, last as nat, stride);
    if r < last {
        lemma_strip_keeps_pixels(data, row_bytes, last as nat, stride, r, c);
        assert(r * row_bytes + c < last * row_bytes) by (nonlinear_arith)
            requires
                0 <= r < last,
                0 <= c < row_bytes,
        ;
    } else {
        assert(r * row_bytes + c - last * row_bytes == c) by (nonlinear_arith)
            requires
                r == last,
        ;
    }
}

proof fn lemma_strip_len(data: Seq<u8>, row_bytes: int, rows: nat, stride: int)
    requires
        0 <= row_bytes <= stride,
        rows * stride <= data.len(),
    ensures
        spec_strip(data, row_bytes, rows, stride).len() == rows * row_bytes,
    decreases rows,
{
    if rows == 0 {
        assert(spec_strip(data, row_bytes, rows, stride) =~= Seq::<u8>::empty());
    } else {
        let last = rows - 1;
        assert(spec_strip(data, row_bytes, rows, stride) == spec_strip(data, row_bytes, last as nat, stride)
            + data.subrange(last * stride, last * stride + row_bytes));
        assert(last * stride + stride == rows * stride) by (nonlinear_arith)
            requires
                last == rows - 1,
        ;
        assert(last * stride <= rows * stride);
        lemma_strip_len(data, row_bytes, last as nat, stride);
        assert(last * stride >= 0) by (nonlinear_arith)
            requires
                last >= 0,
                stride >= 0,
        ;
        assert(last * row_bytes + row_bytes == rows * row_bytes) by (nonlinear_arith)
            requires
                last == rows - 1,
        ;
    }
}

/// Copies the visible bytes of each row out of a padded readback buffer, so
/// the encoder receives `rows` tightly packed rows of `row_bytes` bytes.
pub fn strip_row_padding(data: &[u8], row_bytes: usize, rows: usize, stride: usize) -> (r: Vec<u8>)
    requires
        row_bytes <= stride,
        rows * stride <= data@.len(),
    ensures
        r@ == spec_strip(data@, row_bytes as int, rows as nat, stride as int),
        r@.len() == rows * row_bytes,
{
    let mut out: Vec<u8> = Vec::new();
    let mut row: usize = 0;
    let mut start: usize = 0;
    while row < rows
        invariant
            row <= rows,
            row_bytes <= stride,
            rows * stride <= data.len(),
            start == row * stride,
            out@ == spec_strip(data@, row_bytes as int, row as nat, stride as int),
        decreases rows - row,
    {
        assert(start + stride <= rows * stride) by (nonlinear_arith)
            requires
                start == row * stride,
                row < rows,
        ;
        let ghost before = out@;
        let mut c: usize = 0;
        while c < row_bytes
            invariant
                c <= row_bytes,
                row_bytes <= stride,
                start + stride <= data.len(),
                out@ == before + data@.subrange(start as int, start + c),
            decreases row_bytes - c,
        {
            out.push(data[start + c]);
            c = c + 1;
            assert(out@ =~= before + data@.subrange(start as int, start + c));
        }
        assert(out@ == spec_strip(data@, row_bytes as int, (row + 1) as nat, stride as int));
        assert((row + 1) * stride == start + stride) by (nonlinear_arith)
            requires
                start == row * stride,
        ;
        row = row + 1;
        start = start + stride;
    }
    proof {
        lemma_strip_len(data@, row_bytes as int, rows as nat, stride as int);
    }
    out
}

/// The text of each argument in a list of owned strings.
pub open spec fn views_of(v: Seq<String>) -> Seq<Seq<char>> {
    v.map_values(|s: String| s@)
}

/// `WxH` frame size as the encoder's `-video_size` expects it.
pub open spec fn spec_video_size(width: u32, height: u32) -> Seq<char> {
    spec_decimal(width as nat) + "x"@ + spec_decimal(height as nat)
}

/// Encoder command line for a bake: raw BGRA frames of `width` x `height`
/// at `fps` arrive on stdin, the audio comes from `audio`, and the result
/// is an H.264 / AAC MP4 at `output` that ends with the shorter stream.
pub open spec fn spec_ffmpeg_args(
    width: u32,
    height: u32,
    fps: u32,
    audio: Seq<char>,
    output: Seq<char>,
) -> Seq<Seq<char>> {
    seq![
        "-y"@, "-hide_banner"@,
        "-loglevel"@, "warning"@,
        "-f"@, "rawvideo"@,
        "-pixel_format"@, "bgra"@,
        "-video_size"@, spec_video_size(width, height),
        "-framerate"@, spec_decimal(fps as nat),
        "-i"@, "-"@,
        "-i"@, audio,
        "-map"@, "0:v"@,
        "-map"@, "1:a"@,
        "-c:v"@, "libx264"@,
        "-preset"@, "veryfast"@,
        "-tune"@, "film"@,
        "-threads"@, "0"@,
        "-crf"@, "18"@,
        "-pix_fmt"@, "yuv420p"@,
        "-c:a"@, "aac"@,
        "-b:a"@, "192k"@,
        "-shortest"@,
        "-movflags"@, "+faststart"@,
        output,
    ]
}

fn push_arg(args: &mut Vec<String>, a: &str)
    ensures
        views_of(final(args)@) == views_of(old(args)@).push(a@),
{
    let ghost before = views_of(args@);
    args.push(String::from_str(a));
    assert(views_of(args@) =~= before.push(a@));
}

/// `WxH` text of a frame size.
pub fn video_size_arg(width: u32, height: u32) -> (r: String)
    ensures
        r@ == spec_video_size(width, height),
{
    let mut s = decimal(width);
    s.append("x");
    let h = decimal(height);
    s.append(h.as_str());
    s
}

/// The arguments the encoder is started with for a bake.
pub fn ffmpeg_args(width: u32, height: u32, fps: u32, audio: &str, output: &str) -> (r: Vec<String>)
    ensures
        views_of(r@) == spec_ffmpeg_args(width, height, fps, audio@, output@),
        r@.len() == 40,
        r@[9]@ == spec_decimal(width as nat) + "x"@ + spec_decimal(height as nat),
        r@[11]@ == spec_decimal(fps as nat),
        r@[15]@ == audio@,
        r@[39]@ == output@,
{
    let mut v: Vec<String> = Vec::new();
    push_arg(&mut v, "-y");
    push_arg(&mut v, "-hide_banner");
    push_arg(&mut v, "-loglevel");
    push_arg(&mut v, "warning");
    push_arg(&mut v, "-f");
    push_arg(&mut v, "rawvideo");
    push_arg(&mut v, "-pixel_format");
    push_arg(&mut v, "bgra");
    push_arg(&mut v, "-video_size");
    let size = video_size_arg(width, height);
    push_arg(&mut v, size.as_str());
    push_arg(&mut v, "-framerate");
    let rate = decimal(fps);
    push_arg(&mut v, rate.as_str());
    push_arg(&mut v, "-i");
    push_arg(&mut v, "-");
    push_arg(&mut v, "-i");
    push_arg(&mut v, audio);
    push_arg(&mut v, "-map");
    push_arg(&mut v, "0:v");
    push_arg(&mut v, "-map");
    push_arg(&mut v, "1:a");
    push_arg(&mut v, "-c:v");
    push_arg(&mut v, "libx264");
    push_arg(&mut v, "-preset");
    push_arg(&mut v, "veryfast");
    push_arg(&mut v, "-tune");
    push_arg(&mut v, "film");
    push_arg(&mut v, "-threads");
    push_arg(&mut v, "0");
    push_arg(&mut v, "-crf");
    push_arg(&mut v, "18");
    push_arg(&mut v, "-pix_fmt");
    push_arg(&mut v, "yuv420p");
    push_arg(&mut v, "-c:a");
    push_arg(&mut v, "aac");
    push_arg(&mut v, "-b:a");
    push_arg(&mut v, "192k");
    push_arg(&mut v, "-shortest");
    push_arg(&mut v, "-movflags");
    push_arg(&mut v, "+faststart");
    push_arg(&mut v, output);
    assert(views_of(v@) =~= spec_ffmpeg_args(width, height, fps, audio@, output@));
    proof {
        lemma_ffmpeg_args_carry_inputs(width, height, fps, audio@, output@);
        assert(v@[9]@ == views_of(v@)[9]);
        assert(v@[11]@ == views_of(v@)[11]);
        assert(v@[15]@ == views_of(v@)[15]);
        assert(v@[39]@ == views_of(v@)[39]);
    }
    v
}

/// The encoder arguments carry the bake's inputs: the frame size as `WxH`
/// in decimal, the frame rate as the decimal of `fps` (so a 30 fps bake is
/// encoded at 30 fps), the audio path as the second input and the output
/// path last; the raw stdin video is the first input.
pub proof fn lemma_ffmpeg_args_carry_inputs(
    width: u32,
    height: u32,
    fps: u32,
    audio: Seq<char>,
    output: Seq<char>,
)
    ensures
        spec_ffmpeg_args(width, height, fps, audio, output).len() == 40,
        spec_ffmpeg_args(width, height, fps, audio, output)[8] == "-video_size"@,
        spec_ffmpeg_args(width, height, fps, audio, output)[9] == spec_decimal(width as nat) + "x"@
            + spec_decimal(height as nat),
        spec_ffmpeg_args(width, height, fps, audio, output)[10] == "-framerate"@,
        spec_ffmpeg_args(width, height, fps, audio, output)[11] == spec_decimal(fps as nat),
        spec_ffmpeg_args(width, height, fps, audio, output)[12] == "-i"@,
        spec_ffmpeg_args(width, height, fps, audio, output)[13] == "-"@,
        spec_ffmpeg_args(width, height, fps, audio, output)[14] == "-i"@,
        spec_ffmpeg_args(width, height, fps, audio, output)[15] == audio,
        spec_ffmpeg_args(width, height, fps, audio, output)[39] == output,
{
}

} // verus!
