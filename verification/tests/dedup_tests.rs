use buncher::args::{Args, Operation, Rotate, Size2D};
use buncher::collect::{Collector, Verdict};
use buncher::dedup::{content_digest, DuplicateTracker};
use buncher::naming::MediaKind;
use buncher::plan::{Edit, OutputFormat};

fn hex(d: &[u8]) -> String {
    d.iter().map(|b| format!("{:02x}", b)).collect()
}

#[test]
fn digest_is_sha3_256() {
    assert_eq!(
        hex(&content_digest(b"abc")),
        "3a985da74fe225b2045c172d6bd390bd855f086e3e9d525b46bfe24511431532"
    );
    assert_eq!(
        hex(&content_digest(b"")),
        "a7ffc6f8bf1ed76651c14756a061d662f580ff4de43b49fa82d80a4b80f8434a"
    );
}

#[test]
fn second_copy_is_the_duplicate() {
    let mut t = DuplicateTracker::new();
    assert!(t.record_content(MediaKind::Image, b"one"));
    assert!(t.record_content(MediaKind::Image, b"two"));
    assert!(!t.record_content(MediaKind::Image, b"one"));
    // videos are tracked apart from images
    assert!(t.record_content(MediaKind::Video, b"one"));
    assert!(!t.record_content(MediaKind::Video, b"one"));
}

#[test]
fn collector_when_cleaning() {
    let mut target = DuplicateTracker::new();
    assert!(target.record_content(MediaKind::Image, b"already in output"));
    let mut c = Collector::new(target, true, false, false);
    assert_eq!(c.duplicates(), Some(0));
    assert_eq!(c.consider(MediaKind::Image, Some(&b"already in output"[..])), Verdict::Remove);
    assert_eq!(c.consider(MediaKind::Image, Some(&b"new"[..])), Verdict::Process);
    assert_eq!(c.consider(MediaKind::Image, Some(&b"new"[..])), Verdict::Remove);
    assert_eq!(c.consider(MediaKind::Video, Some(&b"new"[..])), Verdict::Process);
    assert_eq!(c.duplicates(), Some(2));
}

#[test]
fn collector_without_cleaning() {
    let mut c = Collector::new(DuplicateTracker::new(), false, true, true);
    assert_eq!(c.duplicates(), None);
    assert_eq!(c.consider(MediaKind::Image, None), Verdict::Skip);
    assert_eq!(c.consider(MediaKind::Video, None), Verdict::Process);
    assert_eq!(c.consider(MediaKind::Video, Some(&b"x"[..])), Verdict::Process);
    let mut d = Collector::new(DuplicateTracker::new(), false, true, false);
    assert_eq!(d.consider(MediaKind::Video, None), Verdict::Skip);
}

fn args_with_everything() -> Args {
    Args {
        directory: "in".to_string(),
        output: Some("out".to_string()),
        clean: false,
        separate_videos: false,
        additional: vec![Operation::Grayscale, Operation::Flip],
        flip: false,
        mirror: false,
        invert: false,
        grayscale: false,
        png: true,
        blur_bits: Some(1.5f32.to_bits()),
        brighten: Some(-10),
        hue: Some(90),
        rotate: Some(Rotate::Rotate270),
        thumbnail: Some(Size2D { width: 8, height: 9 }),
        resize: Some(Size2D { width: 64, height: 64 }),
        ignore: None,
        one: false,
    }
}

#[test]
fn edit_order() {
    let a = args_with_everything();
    assert_eq!(
        a.edit_plan(),
        vec![
            Edit::Grayscale,
            Edit::Flip,
            Edit::Blur(1.5f32.to_bits()),
            Edit::Brighten(-10),
            Edit::HueRotate(90),
            Edit::Resize(Size2D { width: 64, height: 64 }),
            Edit::Thumbnail(Size2D { width: 8, height: 9 }),
            Edit::Rotate(Rotate::Rotate270),
        ]
    );
    assert_eq!(a.output_format(), OutputFormat::Png);
    assert_eq!(a.output_format().extension(), "png");
    assert_eq!(OutputFormat::Jpeg.extension(), "jpg");
}

#[test]
fn nothing_to_do_means_no_edits() {
    let mut a = args_with_everything();
    a.output = None;
    a.additional = vec![];
    a.blur_bits = None;
    a.brighten = None;
    a.hue = None;
    a.rotate = None;
    a.thumbnail = None;
    a.resize = None;
    assert!(a.nothing_todo());
    assert!(a.edit_plan().is_empty());
}
