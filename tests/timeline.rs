use timelens::bucket::bucket_index;
use timelens::compositor::Compositor;
use timelens::config::{validate, Arguments, Config, ConfigError, PartialConfig};
use timelens::error::TimelineError;
use timelens::frame::Frame;
use timelens::grid::{grid_count, grid_position, grid_size};
use timelens::manifest::{cue, grid_filename, manifest, time_range, timestamp, zero_padded_string};
use timelens::tracker::{CompletionTracker, Phase};

const SECOND: u64 = 1_000_000_000;

fn layout(width: usize, tw: usize, th: usize) -> Config {
    Config {
        width,
        height: 16,
        thumbnail_width: tw,
        thumbnail_height: th,
        max_grid_width: 1000,
        max_grid_height: 1000,
        input_filename: String::from("video.mp4"),
        timeline_filename: None,
        vtt_filename: Some(String::from("out/thumbs.vtt")),
    }
}

fn args(width: Option<&str>, height: Option<&str>) -> Arguments {
    Arguments {
        input_filename: String::from("video.mp4"),
        width: width.map(String::from),
        height: height.map(String::from),
        thumbnail_height: None,
        timeline: None,
        thumbnails: None,
    }
}

fn solid(width: usize, height: usize, pixel: [u8; 4]) -> Frame {
    let mut data = Vec::new();
    for _ in 0..width * height {
        data.extend_from_slice(&pixel);
    }
    Frame::from_parts(data, width, height, None).unwrap()
}

#[test]
fn test_timestamp() {
    assert_eq!(timestamp((13 + 60 * (30 + 60 * 2)) * 1000), "2:30:13.000");
}

#[test]
fn timestamp_without_hours() {
    assert_eq!(timestamp(9013), "00:09.013");
    assert_eq!(timestamp(0), "00:00.000");
}

#[test]
fn timestamp_with_hours() {
    assert_eq!(timestamp(7513000), "2:05:13.000");
    assert_eq!(timestamp(36_000_000 + 61_001), "10:01:01.001");
}

#[test]
fn zero_padding() {
    assert_eq!(zero_padded_string(7, 3), "007");
    assert_eq!(zero_padded_string(1234, 2), "1234");
}

#[test]
fn buckets_of_unordered_frames() {
    let d = 4 * SECOND;
    let pts = [3_500_000_000u64, 200_000_000, 1_900_000_000, 1_100_000_000];
    let buckets: Vec<usize> = pts.iter().map(|&t| bucket_index(Some(t), d, 4).unwrap()).collect();
    assert_eq!(buckets, vec![3, 0, 1, 1]);

    let mut tracker = CompletionTracker::new(4);
    for &b in &buckets {
        tracker.record(b);
    }
    assert_eq!(tracker.done, vec![1, 2, 0, 1]);
    let filled: Vec<bool> = tracker.done.iter().map(|&n| n >= 1).collect();
    assert_eq!(filled, vec![true, true, false, true]);
    assert!(!tracker.is_complete());
    assert_eq!(tracker.columns_done(), 3);
    assert_eq!(tracker.phase(false), Phase::Running);

    let fifth = bucket_index(Some(2_500_000_000), d, 4).unwrap();
    assert_eq!(fifth, 2);
    tracker.record(fifth);
    assert!(tracker.is_complete());
    assert_eq!(tracker.phase(false), Phase::Done);
}

#[test]
fn exhausted_source_ends_the_run() {
    let tracker = CompletionTracker::new(3);
    assert_eq!(tracker.phase(true), Phase::Done);
    assert_eq!(tracker.phase(false), Phase::Running);
}

#[test]
fn bucket_stays_in_range() {
    let d = 7 * SECOND;
    for k in 0..70u64 {
        let b = bucket_index(Some(k * SECOND / 10), d, 5).unwrap();
        assert!(b < 5);
        assert_eq!(b as u64, 5 * k / 70);
    }
    assert_eq!(bucket_index(Some(d), d, 5), Ok(4));
    assert_eq!(bucket_index(Some(3 * d), d, 5), Ok(4));
    assert_eq!(bucket_index(Some(u64::MAX), 1, usize::MAX), Ok(usize::MAX - 1));
}

#[test]
fn bucket_boundary_rounds_down() {
    assert_eq!(bucket_index(Some(SECOND), 4 * SECOND, 4), Ok(1));
    assert_eq!(bucket_index(Some(SECOND - 1), 4 * SECOND, 4), Ok(0));
}

#[test]
fn bucket_errors() {
    assert_eq!(bucket_index(None, SECOND, 4), Err(TimelineError::MissingTimestamp));
    assert_eq!(bucket_index(Some(5), 0, 4), Err(TimelineError::InvalidDuration));
}

#[test]
fn grid_placement_scenario() {
    let c = layout(1000, 160, 120);
    assert_eq!(grid_position(47, &c), (0, 800, 840));
    assert_eq!(grid_position(48, &c), (1, 0, 0));
    assert_eq!(grid_position(6, &c), (0, 0, 120));
    assert_eq!(grid_size(&c), (960, 960));
    assert_eq!(grid_count(&c), 21);
}

#[test]
fn grid_count_is_a_ceiling() {
    assert_eq!(grid_count(&layout(48, 160, 120)), 1);
    assert_eq!(grid_count(&layout(49, 160, 120)), 2);
    assert_eq!(grid_count(&layout(96, 160, 120)), 2);
    assert_eq!(grid_count(&layout(1, 1000, 1000)), 1);
}

#[test]
fn grid_placement_is_one_to_one() {
    let c = layout(1000, 160, 120);
    let mut seen = std::collections::HashSet::new();
    for i in 0..1000 {
        let (file, x, y) = grid_position(i, &c);
        assert!(x + 160 <= 960 && y + 120 <= 960);
        assert!(file < grid_count(&c));
        assert!(seen.insert((file, x, y)));
    }
}

#[test]
fn time_ranges_partition_the_stream() {
    assert_eq!(time_range(10_000, 3, 0), (0, 3333));
    assert_eq!(time_range(10_000, 3, 1), (3333, 6666));
    assert_eq!(time_range(10_000, 3, 2), (6666, 10_000));
    let mut end = 0;
    for i in 0..7 {
        let (from, to) = time_range(1000, 7, i);
        assert_eq!(from, end);
        assert!(from < to);
        end = to;
    }
    assert_eq!(end, 1000);
}

#[test]
fn collapse_averages_rows() {
    let data = vec![
        10, 20, 30, 0, 11, 21, 31, 0, 12, 22, 32, 0, //
        0, 0, 0, 0, 255, 255, 255, 0, 255, 255, 254, 0,
    ];
    let f = Frame::from_parts(data, 3, 2, Some(42)).unwrap();
    let c = f.collapse();
    assert_eq!((c.width, c.height, c.pts), (1, 2, Some(42)));
    assert_eq!(c.data, vec![11, 21, 31, 255, 170, 170, 169, 255]);
}

#[test]
fn resample_averages_source_rows() {
    let data = vec![10, 0, 0, 0, 20, 0, 0, 0, 31, 0, 0, 0, 40, 0, 0, 0];
    let f = Frame::from_parts(data, 1, 4, None).unwrap();
    let r = f.resample(2);
    assert_eq!(r.data, vec![15, 0, 0, 255, 35, 0, 0, 255]);
    let up = Frame::from_parts(vec![9, 8, 7, 6], 1, 1, None).unwrap().resample(3);
    assert_eq!(up.data, vec![9, 8, 7, 255, 9, 8, 7, 255, 9, 8, 7, 255]);
}

#[test]
fn resample_to_same_height_is_identity() {
    let mut data = Vec::new();
    for i in 0..6u8 {
        data.extend_from_slice(&[i, 2 * i, 3 * i, 255]);
    }
    let f = Frame::from_parts(data.clone(), 2, 3, None).unwrap();
    assert_eq!(f.resample(3).data, data);
}

#[test]
fn scale_to_a_column() {
    let data = vec![
        0, 0, 0, 0, 100, 100, 100, 0, //
        50, 60, 70, 0, 50, 60, 70, 0,
    ];
    let f = Frame::from_parts(data, 2, 2, Some(7)).unwrap();
    let s = f.scale(1, 1).unwrap();
    assert_eq!((s.width, s.height, s.pts), (1, 1, Some(7)));
    assert_eq!(s.data, vec![50, 55, 60, 255]);
    assert!(f.scale(2, 2).is_none());
}

#[test]
fn frame_buffer_must_match_its_size() {
    assert_eq!(Frame::from_parts(vec![0; 15], 2, 2, None).err(), Some(TimelineError::BufferUnavailable));
    assert_eq!(
        Frame::from_parts(vec![], usize::MAX, 2, None).err(),
        Some(TimelineError::BufferUnavailable)
    );
    let f = Frame::new(3, 2);
    assert_eq!(f.data, vec![0; 24]);
}

#[test]
fn copy_pastes_a_rectangle() {
    let mut dst = solid(3, 3, [1, 1, 1, 1]);
    let src = solid(2, 1, [9, 8, 7, 6]);
    dst.copy(&src, 1, 2);
    let mut expected = vec![1u8; 36];
    for x in 1..3 {
        let k = (2 * 3 + x) * 4;
        expected[k..k + 4].copy_from_slice(&[9, 8, 7, 6]);
    }
    assert_eq!(dst.data, expected);
}

#[test]
fn copy_twice_equals_copy_once() {
    let mut once = solid(4, 2, [5, 5, 5, 5]);
    let column = solid(1, 2, [1, 2, 3, 255]);
    once.copy(&column, 2, 0);
    let mut twice = once.data.clone();
    let mut again = Frame::from_parts(twice.clone(), 4, 2, None).unwrap();
    again.copy(&column, 2, 0);
    twice = again.data;
    assert_eq!(twice, once.data);
}

#[test]
fn compositor_places_column_and_thumbnail() {
    let c = Config { width: 4, height: 2, ..layout(4, 2, 2) };
    let mut comp = Compositor::new(&c);
    assert_eq!(comp.grids.len(), 1);
    let column = solid(1, 2, [1, 2, 3, 255]);
    let thumb = solid(2, 2, [7, 7, 7, 255]);
    let i = comp.process(&c, 4 * SECOND, Some(2_100_000_000), Some(&column), Some(&thumb)).unwrap();
    assert_eq!(i, 2);
    let t = &comp.timeline.data;
    assert_eq!(&t[2 * 4..3 * 4], &[1, 2, 3, 255]);
    assert_eq!(&t[(4 + 2) * 4..(4 + 3) * 4], &[1, 2, 3, 255]);
    assert_eq!(&t[0..4], &[0, 0, 0, 0]);
    let g = &comp.grids[0];
    let k = (0 * g.width + 4) * 4;
    assert_eq!(&g.data[k..k + 4], &[7, 7, 7, 255]);
    assert_eq!(comp.tracker.done, vec![0, 0, 1, 0]);
    assert!(!comp.is_complete());
    assert_eq!(
        comp.process(&c, 4 * SECOND, None, Some(&column), None),
        Err(TimelineError::MissingTimestamp)
    );
    assert_eq!(comp.tracker.done, vec![0, 0, 1, 0]);
}

#[test]
fn thumbnail_beyond_the_grids_is_refused() {
    let c = layout(48, 160, 120);
    let mut comp = Compositor::new(&c);
    let thumb = solid(160, 120, [1, 1, 1, 255]);
    assert_eq!(comp.compose_thumbnail(&c, 47, &thumb), Ok(()));
    assert_eq!(comp.compose_thumbnail(&c, 48, &thumb), Err(TimelineError::GridIndexOutOfRange));
}

#[test]
fn defaults_without_sizes() {
    let p = validate(&args(None, None)).unwrap();
    assert_eq!((p.width, p.height, p.thumbnail_height), (1000, 100, 90));
    assert_eq!(p.timeline_filename.as_deref(), Some("video.mp4.timeline.jpg"));
    assert_eq!(p.vtt_filename, None);
}

#[test]
fn one_size_gives_the_other() {
    let p = validate(&args(None, Some("20"))).unwrap();
    assert_eq!((p.width, p.height), (200, 20));
    let p = validate(&args(Some("+160"), None)).unwrap();
    assert_eq!((p.width, p.height), (160, 16));
    let p = validate(&args(Some("16"), Some("10000"))).unwrap();
    assert_eq!((p.width, p.height), (16, 10000));
}

#[test]
fn size_errors() {
    let err = |w: Option<&str>, h: Option<&str>| validate(&args(w, h)).err();
    assert_eq!(err(Some("foo"), None), Some(ConfigError::WidthNotInteger));
    assert_eq!(err(Some("-100"), None), Some(ConfigError::WidthNotInteger));
    assert_eq!(err(Some("100.0"), None), Some(ConfigError::WidthNotInteger));
    assert_eq!(err(Some(""), None), Some(ConfigError::WidthNotInteger));
    assert_eq!(err(None, Some("foo")), Some(ConfigError::HeightNotInteger));
    assert_eq!(err(Some("0"), None), Some(ConfigError::WidthTooSmall));
    assert_eq!(err(Some("159"), None), Some(ConfigError::HeightTooSmall));
    assert_eq!(err(None, Some("15")), Some(ConfigError::HeightTooSmall));
    assert_eq!(err(Some("10001"), Some("16")), Some(ConfigError::WidthTooLarge));
    assert_eq!(err(Some("16"), Some("10001")), Some(ConfigError::HeightTooLarge));
    assert_eq!(err(None, Some("1000000000000000000")), Some(ConfigError::WidthTooLarge));
}

#[test]
fn thumbnail_height_errors() {
    let mut a = args(None, None);
    a.thumbnail_height = Some(String::from("nope"));
    assert_eq!(validate(&a).err(), Some(ConfigError::ThumbnailHeightNotInteger));
    a.thumbnail_height = Some(String::from("15"));
    assert_eq!(validate(&a).err(), Some(ConfigError::ThumbnailHeightTooSmall));
    a.thumbnail_height = Some(String::from("10001"));
    assert_eq!(validate(&a).err(), Some(ConfigError::ThumbnailHeightTooLarge));
    a.thumbnail_height = Some(String::from("120"));
    assert_eq!(validate(&a).unwrap().thumbnail_height, 120);
}

#[test]
fn output_names_need_their_extension() {
    let mut a = args(None, None);
    a.timeline = Some(String::from("out/timeline.jpg"));
    let p = validate(&a).unwrap();
    assert_eq!(p.timeline_filename.as_deref(), Some("out/timeline.jpg"));
    a.timeline = Some(String::from("timeline.png"));
    assert_eq!(validate(&a).err(), Some(ConfigError::TimelineNotJpg));
    a.timeline = Some(String::from(".jpg"));
    assert_eq!(validate(&a).err(), Some(ConfigError::TimelineNotJpg));

    let mut a = args(None, None);
    a.thumbnails = Some(String::from("dir/thumbs.vtt"));
    let p = validate(&a).unwrap();
    assert_eq!(p.timeline_filename, None);
    assert_eq!(p.vtt_filename.as_deref(), Some("dir/thumbs.vtt"));
    a.thumbnails = Some(String::from("thumbs"));
    assert_eq!(validate(&a).err(), Some(ConfigError::ThumbnailsNotVtt));
}

fn partial(th: usize) -> PartialConfig {
    let mut a = args(None, None);
    a.thumbnail_height = Some(th.to_string());
    validate(&a).unwrap()
}

#[test]
fn thumbnail_width_from_aspect_ratio() {
    let c = partial(120).complete(640, 480).unwrap();
    assert_eq!((c.thumbnail_width, c.thumbnail_height), (160, 120));
    let c = partial(90).complete(1920, 1080).unwrap();
    assert_eq!(c.thumbnail_width, 160);
    assert_eq!(partial(90).complete(0, 1080).err(), Some(ConfigError::UnknownFrameSize));
    assert_eq!(partial(16).complete(1, 100).err(), Some(ConfigError::ThumbnailTooNarrow));
    assert_eq!(partial(900).complete(2, 1).err(), Some(ConfigError::ThumbnailTooWide));
    assert_eq!(partial(1001).complete(1, 10).err(), Some(ConfigError::ThumbnailTooTall));
}

#[test]
fn grid_file_names() {
    let c = layout(4, 160, 120);
    assert_eq!(grid_filename(3, &c), "out/thumbs-03.jpg");
    assert_eq!(grid_filename(12, &c), "out/thumbs-12.jpg");
}

#[test]
fn one_cue() {
    assert_eq!(
        cue(1000, 3_661_500, "a-00.jpg", 160, 0, 160, 90),
        "00:01.000 --> 1:01:01.500\na-00.jpg?xywh=160,0,160,90\n\n"
    );
}

#[test]
fn manifest_lists_every_column() {
    let c = layout(2, 160, 120);
    let text = manifest(&c, 4000);
    assert_eq!(
        text,
        "WEBVTT\n\n\
         00:00.000 --> 00:02.000\nthumbs-00.jpg?xywh=0,0,160,120\n\n\
         00:02.000 --> 00:04.000\nthumbs-00.jpg?xywh=160,0,160,120\n\n"
    );
}

#[test]
fn timeline_columns_are_opaque() {
    let c = Config { width: 2, height: 2, ..layout(2, 2, 2) };
    let mut comp = Compositor::new(&c);
    let column = solid(1, 2, [4, 5, 6, 0]);
    comp.compose_column(&c, 1, &column);
    assert_eq!(comp.timeline.data, vec![0, 0, 0, 0, 4, 5, 6, 255, 0, 0, 0, 0, 4, 5, 6, 255]);
    assert_eq!(column.opaque().data, vec![4, 5, 6, 255, 4, 5, 6, 255]);
}
