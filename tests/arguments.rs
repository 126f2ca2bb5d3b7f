use timelens::config::{validate, Arguments, Config};
use timelens::manifest::{grid_filename, manifest};

// Frame size of the decoded test video.
const VIDEO_WIDTH: usize = 320;
const VIDEO_HEIGHT: usize = 240;

fn arguments(line: &str) -> Arguments {
    let mut a = Arguments {
        input_filename: String::from("test.mkv"),
        width: None,
        height: None,
        thumbnail_height: None,
        timeline: None,
        thumbnails: None,
    };
    let words: Vec<&str> = line.split(' ').filter(|w| !w.is_empty()).collect();
    let mut k = 0;
    while k < words.len() {
        let value = Some(String::from(words[k + 1]));
        match words[k] {
            "-w" => a.width = value,
            "-h" => a.height = value,
            "-H" => a.thumbnail_height = value,
            "--timeline" => a.timeline = value,
            "--thumbnails" => a.thumbnails = value,
            other => panic!("unexpected option {}", other),
        }
        k += 2;
    }
    a
}

fn run(line: &str) -> Option<Config> {
    let partial = validate(&arguments(line)).ok()?;
    partial.complete(VIDEO_WIDTH, VIDEO_HEIGHT).ok()
}

fn ok(line: &str) {
    assert!(run(line).is_some(), "expected success: {}", line);
}

fn fail(line: &str) {
    assert!(run(line).is_none(), "expected failure: {}", line);
}

#[test]
fn size() {
    fail("-w foo");
    fail("-h foo");

    fail("-w -100");
    fail("-h -100");

    fail("-w 100.0");
    fail("-h 100.0");

    fail("-w 0");
    fail("-h 0");

    fail("-w ''");
    fail("-h ''");

    fail("-w 1");
    fail("-h 1");

    fail("-w 15");
    fail("-h 15");

    fail("-w 16 -h 10001");
    fail("-w 10001 -h 16");

    fail("-w 159");

    ok("-w 160");
    ok("-h 16");
    ok("-w 16 -h 16");
    ok("-w 16 -h 1000");
    ok("-w 1000 -h 16");

    ok("-w 1000");
    ok("-h 1000");
    ok("-w 1000 -h 1000");

    ok("-w 10000");
    ok("-w 16 -h 10000");
}

#[test]
fn timeline_file() {
    fail("--timeline .");
    fail("--timeline ..");
    fail("--timeline /");
    fail("--timeline nope.txt");

    ok("--timeline test.mkv.different.jpg");
}

#[test]
fn thumbnail_height() {
    let vtt = "/tmp/timelens/test.vtt";

    fail(&format!("--thumbnails {} -H nope", vtt));
    fail(&format!("--thumbnails {} -H -100", vtt));
    fail(&format!("--thumbnails {} -H 0", vtt));
    fail(&format!("--thumbnails {} -H ''", vtt));
    fail(&format!("--thumbnails {} -H 15", vtt));

    ok(&format!("--thumbnails {} -H 16", vtt));
    ok(&format!("--thumbnails {} -H 100", vtt));

    fail(&format!("--thumbnails {} -H 10001", vtt));
}

#[test]
fn thumbnails() {
    fail("--thumbnails nope.jpg");

    let vtt = "/tmp/timelens/test.vtt";
    let config = run(&format!("--thumbnails {} -w 1000 -h 1000 -H 120", vtt)).unwrap();
    assert_eq!(grid_filename(1, &config), "/tmp/timelens/test-01.jpg");
    let text = manifest(&config, 20_000);
    assert!(text.starts_with("WEBVTT\n\n"));
    assert!(text.contains("test"));
    assert!(!text.contains("nope"));
    assert!(!text.contains("/tmp/"));
}
