use shader_experiment::bake::{capture_layout, ffmpeg_args, strip_row_padding, video_size_arg, BakeFrames};
use shader_experiment::beats::{beat_grid_hops, bin_range, every_nth};
use shader_experiment::bloom::{bloom_level_size, bloom_passes, BloomPass, BloomStage};
use shader_experiment::text::{clock_label, decimal, progress_label};

#[test]
fn beat_grid_steps_by_period() {
    assert_eq!(beat_grid_hops(3, 10, 45), vec![3, 13, 23, 33, 43]);
    assert_eq!(beat_grid_hops(0, 4, 12), vec![0, 4, 8]);
    assert_eq!(beat_grid_hops(5, 1, 8), vec![5, 6, 7]);
}

#[test]
fn beat_grid_empty_when_phase_past_end() {
    assert!(beat_grid_hops(12, 4, 12).is_empty());
    assert!(beat_grid_hops(0, 4, 0).is_empty());
    assert_eq!(beat_grid_hops(0, usize::MAX, usize::MAX), vec![0]);
}

#[test]
fn phrase_marks_every_sixteenth_beat() {
    let beats: Vec<f32> = (0..40).map(|i| i as f32 * 0.5).collect();
    assert_eq!(every_nth(&beats, 16), vec![0.0, 8.0, 16.0]);
    assert_eq!(every_nth(&[1, 2, 3], 1), vec![1, 2, 3]);
    assert!(every_nth::<u8>(&[], 16).is_empty());
    assert_eq!(every_nth(&[7, 8, 9], 16), vec![7]);
}

#[test]
fn bin_range_skips_dc_and_stays_nonempty() {
    assert_eq!(bin_range(0, 3, 512), (1, 3));
    assert_eq!(bin_range(46, 209, 512), (46, 209));
    assert_eq!(bin_range(600, 700, 512), (510, 511));
    assert_eq!(bin_range(20, 10, 512), (20, 21));
    assert_eq!(bin_range(0, 0, 2), (0, 1));
}

#[test]
fn bloom_levels_halve_down_to_one_pixel() {
    assert_eq!(bloom_level_size(1920, 1080, 0), (960, 540));
    assert_eq!(bloom_level_size(1920, 1080, 1), (480, 270));
    assert_eq!(bloom_level_size(1920, 1080, 2), (240, 135));
    assert_eq!(bloom_level_size(1920, 1080, 3), (120, 67));
    assert_eq!(bloom_level_size(1920, 1080, 4), (60, 33));
    assert_eq!(bloom_level_size(1, 3, 0), (1, 1));
    assert_eq!(bloom_level_size(u32::MAX, 0, 30), (1, 1));
}

fn pass(stage: BloomStage, target: usize, source_group: usize) -> BloomPass {
    BloomPass { stage, target, source_group }
}

#[test]
fn bloom_pass_order_for_five_levels() {
    let expected = vec![
        pass(BloomStage::Extract, 0, 0),
        pass(BloomStage::Downsample, 1, 1),
        pass(BloomStage::Downsample, 2, 2),
        pass(BloomStage::Downsample, 3, 3),
        pass(BloomStage::Downsample, 4, 4),
        pass(BloomStage::Upsample, 3, 5),
        pass(BloomStage::Upsample, 2, 4),
        pass(BloomStage::Upsample, 1, 3),
        pass(BloomStage::Upsample, 0, 2),
    ];
    assert_eq!(bloom_passes(5), expected);
    assert_eq!(bloom_passes(1), vec![pass(BloomStage::Extract, 0, 0)]);
}

#[test]
fn bloom_passes_never_read_their_target() {
    for levels in 1..8 {
        let passes = bloom_passes(levels);
        assert_eq!(passes.len(), 2 * levels - 1);
        for (j, p) in passes.iter().enumerate() {
            assert!(p.source_group <= levels);
            if p.source_group > 0 {
                let read = p.source_group - 1;
                assert_ne!(read, p.target);
                assert!(passes[..j].iter().any(|q| q.target == read));
            }
        }
        assert_eq!(passes.last().unwrap().target, 0);
    }
}

#[test]
fn decimal_text() {
    assert_eq!(decimal(0), "0");
    assert_eq!(decimal(7), "7");
    assert_eq!(decimal(10), "10");
    assert_eq!(decimal(305), "305");
    assert_eq!(decimal(u32::MAX), "4294967295");
}

#[test]
fn clock_label_pads_seconds() {
    assert_eq!(clock_label(3, 7), "3:07");
    assert_eq!(clock_label(12, 45), "12:45");
    assert_eq!(clock_label(0, 0), "0:00");
    assert_eq!(clock_label(1, 10), "1:10");
}

#[test]
fn progress_label_counts_frames() {
    assert_eq!(progress_label(5, 120), "5 / 120");
    assert_eq!(progress_label(0, 0), "0 / 0");
}

#[test]
fn bake_frames_finish_after_total() {
    let mut f = BakeFrames::new(3);
    assert!(!f.done());
    assert!(!f.advance());
    assert!(!f.advance());
    assert!(f.advance());
    assert_eq!(f.frame_index, 3);
    assert!(f.done());
    assert!(BakeFrames::new(0).done());
}

#[test]
fn capture_layout_pads_rows_to_alignment() {
    let l = capture_layout(1920, 1080, 256);
    assert_eq!(l.bytes_per_row, 7680);
    assert_eq!(l.staging_size, 7680 * 1080);
    let l = capture_layout(1000, 500, 256);
    assert_eq!(l.bytes_per_row, 4096);
    assert_eq!(l.staging_size, 4096 * 500);
    assert_eq!((l.width, l.height), (1000, 500));
    let l = capture_layout(1, 1, 256);
    assert_eq!(l.bytes_per_row, 256);
    let l = capture_layout(0, 5, 256);
    assert_eq!(l.bytes_per_row, 0);
}

#[test]
fn strip_row_padding_packs_rows() {
    let data = [1u8, 2, 3, 0, 4, 5, 6, 0, 9, 9];
    assert_eq!(strip_row_padding(&data, 3, 2, 4), vec![1, 2, 3, 4, 5, 6]);
    assert!(strip_row_padding(&data, 3, 0, 4).is_empty());
    assert_eq!(strip_row_padding(&data, 4, 2, 4), data[..8].to_vec());
}

#[test]
fn strip_row_padding_keeps_every_pixel() {
    let (w4, h, stride) = (12usize, 5usize, 16usize);
    let data: Vec<u8> = (0..(h * stride) as u32).map(|i| (i % 251) as u8).collect();
    let out = strip_row_padding(&data, w4, h, stride);
    assert_eq!(out.len(), w4 * h);
    for r in 0..h {
        for c in 0..w4 {
            assert_eq!(out[r * w4 + c], data[r * stride + c]);
        }
    }
}

#[test]
fn video_size_text() {
    assert_eq!(video_size_arg(1920, 1080), "1920x1080");
    assert_eq!(video_size_arg(0, 7), "0x7");
}

#[test]
fn ffmpeg_command_line() {
    let args = ffmpeg_args(1920, 1080, 60, "song.mp3", "out.mp4");
    let expected: Vec<&str> = vec![
        "-y", "-hide_banner", "-loglevel", "warning", "-f", "rawvideo", "-pixel_format", "bgra",
        "-video_size", "1920x1080", "-framerate", "60", "-i", "-", "-i", "song.mp3", "-map",
        "0:v", "-map", "1:a", "-c:v", "libx264", "-preset", "veryfast", "-tune", "film",
        "-threads", "0", "-crf", "18", "-pix_fmt", "yuv420p", "-c:a", "aac", "-b:a", "192k",
        "-shortest", "-movflags", "+faststart", "out.mp4",
    ];
    assert_eq!(args, expected);
}
