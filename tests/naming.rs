use download_manager::job::State;
use download_manager::naming::{file_name_of_url, job_name_for, resolve_name, stamped_name};
use download_manager::text::{decimal_text, parse_size};

fn is_stamp(s: &str) -> bool {
    let parts: Vec<&str> = s.split('_').collect();
    parts.len() == 6
        && parts[0].len() == 4
        && parts[1].len() == 3
        && parts[1].chars().all(|c| c.is_ascii_alphabetic())
        && [0usize, 2, 3, 4, 5].iter().all(|&i| parts[i].chars().all(|c| c.is_ascii_digit()))
        && [2usize, 3, 4, 5].iter().all(|&i| parts[i].len() == 2)
}

#[test]
fn colliding_name_gets_timestamp_suffix() {
    let first = resolve_name("report.pdf", false);
    let second = resolve_name("report.pdf", true);
    assert_eq!(first, "report.pdf");
    assert_ne!(first, second);
    assert!(second.starts_with("report_"));
    assert!(second.ends_with(".pdf"));
    let stamp = &second["report_".len()..second.len() - ".pdf".len()];
    assert!(is_stamp(stamp), "{}", stamp);
}

#[test]
fn stamp_goes_before_last_extension() {
    assert_eq!(stamped_name("a.tar.gz", "T"), "a.tar_T.gz");
    assert_eq!(stamped_name("archive", "T"), "archive_T");
    assert_eq!(stamped_name(".hidden", "T"), "_T.hidden");
}

#[test]
fn file_name_is_last_url_segment() {
    assert_eq!(file_name_of_url("http://host/dir/a.zip"), Some("a.zip".to_string()));
    assert_eq!(file_name_of_url("http://host/"), Some(String::new()));
    assert_eq!(file_name_of_url("nothing"), None);
    assert_eq!(job_name_for("http://h/x.iso", &Some("mine".to_string())), Some("mine.iso".to_string()));
    assert_eq!(job_name_for("http://h/x", &Some("mine".to_string())), None);
    assert_eq!(job_name_for("http://h/x", &None), Some("x".to_string()));
    assert_eq!(job_name_for("http://host/", &None), None);
    assert_eq!(job_name_for("http://host/", &Some("mine".to_string())), None);
}

#[test]
fn decimal_rendering() {
    assert_eq!(decimal_text(0), "0");
    assert_eq!(decimal_text(7), "7");
    assert_eq!(decimal_text(1234), "1234");
    assert_eq!(decimal_text(u64::MAX), "18446744073709551615");
}

#[test]
fn state_words() {
    assert_eq!(State::Waiting.to_string(), "Waiting");
    assert_eq!(State::Active.to_string(), "Active");
    assert_eq!(State::Done.to_string(), "Done");
    assert_eq!(State::Failed.to_string(), "Failed");
    assert_eq!(State::default(), State::Waiting);
}

#[test]
fn size_field_parsing() {
    assert_eq!(parse_size("0"), Some(0));
    assert_eq!(parse_size("1024"), Some(1024));
    assert_eq!(parse_size("18446744073709551615"), Some(u64::MAX));
    assert_eq!(parse_size("18446744073709551616"), None);
    assert_eq!(parse_size(""), None);
    assert_eq!(parse_size("12a"), None);
    assert_eq!(parse_size("+5"), None);
    assert_eq!(parse_size(" 5"), None);
}
