use tif2tiles::progress_event::parse_progress_percent;
use tif2tiles::progress_event::ProgressEvent;

#[test]
fn percent_signs_are_read() {
    assert_eq!(parse_progress_percent("Generating: 42%"), Some(42));
    assert_eq!(parse_progress_percent("42% of 100%"), Some(42));
    assert_eq!(parse_progress_percent("层100%"), Some(100));
    assert_eq!(parse_progress_percent("255%"), Some(255));
    assert_eq!(parse_progress_percent("300%"), None);
    assert_eq!(parse_progress_percent("-5%"), Some(5));
}

#[test]
fn dotted_progress_is_read() {
    assert_eq!(parse_progress_percent("0...10...20...30"), Some(30));
    assert_eq!(parse_progress_percent("0...10...20...30..."), Some(30));
    assert_eq!(parse_progress_percent("0...10... 20 ...xx...101"), Some(20));
    assert_eq!(parse_progress_percent("...done."), None);
    assert_eq!(parse_progress_percent("% 0...50..."), Some(50));
    assert_eq!(parse_progress_percent("300% 0...50..."), None);
    assert_eq!(parse_progress_percent("%...50..."), Some(50));
}

#[test]
fn lines_without_progress_have_none() {
    assert_eq!(parse_progress_percent(""), None);
    assert_eq!(parse_progress_percent("Creating output file"), None);
    assert_eq!(parse_progress_percent("100"), None);
}

#[test]
fn reports_are_capped_at_one_hundred() {
    let e = ProgressEvent::new("job", "stage", "info", "message", 250);
    assert_eq!(e.percent, 100);
    assert_eq!(e.job_id, "job");
    assert_eq!(e.stage, "stage");
    assert_eq!(e.level, "info");
    assert_eq!(e.message, "message");
    assert_eq!(ProgressEvent::new("", "", "", "", 99).percent, 99);
}
