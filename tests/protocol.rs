use download_manager::commands::{ListCommands, ManagerCommands};
use download_manager::protocol::{bad_request_text, classify, extract_body, response_text, route_request, Routed};
use download_manager::scheduler::Scheduler;

fn padded(text: &str) -> Vec<u8> {
    let mut buf = vec![0u8; 2048];
    buf[..text.len()].copy_from_slice(text.as_bytes());
    buf
}

#[test]
fn get_request_is_refused_without_dispatch() {
    let mut s = Scheduler::new(1, "p".to_string());
    s.dispatch(ManagerCommands::Add { url: "http://h/a.zip".to_string(), custom_name: None, custom_download_path: None });
    let before = s.dispatch(ManagerCommands::List { subcommands: ListCommands::All });
    let buf = padded("GET /command HTTP/1.1\r\nHost: localhost\r\n\r\n{\"subcommands\":\"x\"}");
    let r = route_request(&buf);
    assert!(matches!(r, Routed::MethodNotAllowed));
    assert_eq!(r.rejection(), Some("HTTP/1.1 405 Method Not Allowed\r\n\r\n\r\n".to_string()));
    let after = s.dispatch(ManagerCommands::List { subcommands: ListCommands::All });
    assert_eq!(before, after);
}

#[test]
fn wrong_path_is_not_found() {
    let r = route_request(&padded("POST /other HTTP/1.1\r\n\r\n{}"));
    assert!(matches!(r, Routed::NotFound));
    assert_eq!(r.rejection(), Some("HTTP/1.1 404 Not Found\r\n\r\n\r\n".to_string()));
}

#[test]
fn missing_separator_is_bad_request() {
    let r = route_request(&padded("POST /command HTTP/1.1\r\nHost: x\r\n"));
    assert!(matches!(r, Routed::BadRequest));
    assert_eq!(r.rejection(), Some("HTTP/1.1 400 Bad Request\r\n\r\n\r\n".to_string()));
    assert_eq!(bad_request_text(), "HTTP/1.1 400 Bad Request\r\n\r\n\r\n");
}

#[test]
fn empty_body_is_bad_request() {
    let r = route_request(&padded("POST /command HTTP/1.1\r\nHost: x\r\n\r\n"));
    assert!(matches!(r, Routed::BadRequest));
}

#[test]
fn post_body_is_cut_at_first_nul() {
    let r = route_request(&padded("POST /command HTTP/1.1\r\nHost: x\r\n\r\n{\"a\":1}"));
    match r {
        Routed::Command(body) => assert_eq!(body, b"{\"a\":1}".to_vec()),
        _ => panic!("expected a command"),
    }
    assert!(r_is_none(&route_request(&padded("POST /command HTTP/1.1\r\n\r\nxy"))));
}

fn r_is_none(r: &Routed) -> bool {
    r.rejection().is_none()
}

#[test]
fn body_after_first_blank_line() {
    assert_eq!(extract_body(b"h\r\n\r\nab\r\n\r\ncd"), Some(b"ab\r\n\r\ncd".to_vec()));
    assert_eq!(extract_body(b"h\r\n\r\nab\0cd"), Some(b"ab".to_vec()));
    assert_eq!(extract_body(b"no separator"), None);
    assert_eq!(extract_body(b"h\r\n\r\n\0junk"), None);
}

#[test]
fn classify_checks_method_then_path() {
    let post = Some("POST".to_string());
    let cmd = Some("/command".to_string());
    assert!(matches!(classify(&None, &cmd, b"x\r\n\r\ny"), Routed::MethodNotAllowed));
    assert!(matches!(classify(&Some("PUT".to_string()), &None, b""), Routed::MethodNotAllowed));
    assert!(matches!(classify(&post, &None, b"x\r\n\r\ny"), Routed::NotFound));
    assert!(matches!(classify(&post, &cmd, b"x\r\n\r\ny"), Routed::Command(_)));
}

#[test]
fn ok_response_concatenates_lines() {
    let lines = vec!["a\r\n".to_string(), String::new(), "b\r\n".to_string()];
    assert_eq!(response_text(&lines), "HTTP/1.1 200 Ok\r\n\r\na\r\nb\r\n");
    assert_eq!(response_text(&Vec::new()), "HTTP/1.1 200 Ok\r\n\r\n");
}
