use download_manager::commands::{ListCommands, ManagerCommands};
use download_manager::job::State;
use download_manager::scheduler::Scheduler;

fn add_cmd(url: &str) -> ManagerCommands {
    ManagerCommands::Add { url: url.to_string(), custom_name: None, custom_download_path: None }
}

fn list(s: &mut Scheduler, scope: ListCommands) -> Vec<String> {
    s.dispatch(ManagerCommands::List { subcommands: scope })
}

#[test]
fn added_job_waits_until_promoted() {
    let mut s = Scheduler::new(2, "/tmp/downloads".to_string());
    assert_eq!(s.dispatch(add_cmd("http://host/a.zip")), vec!["File added".to_string()]);
    assert_eq!(list(&mut s, ListCommands::Active), vec![String::new()]);
    let all = list(&mut s, ListCommands::All);
    assert_eq!(all.len(), 3);
    assert!(all[0].contains("a.zip"));
    assert!(all[0].contains("Waiting"));
    assert_eq!(all[0], "a.zip  ( _ / )  Waiting\r\n");
    assert_eq!(all[1], "");
    assert_eq!(all[2], "");
}

#[test]
fn one_slot_promotes_one_job_per_tick() {
    let mut s = Scheduler::new(1, "/tmp/downloads".to_string());
    s.dispatch(add_cmd("http://host/a.zip"));
    s.dispatch(add_cmd("http://host/b.zip"));
    let first = s.promote();
    assert!(first.is_some());
    assert_eq!(s.active_len(), 1);
    assert_eq!(s.waiting_len(), 1);
    assert!(s.promote().is_none());
    assert_eq!(s.active_len(), 1);
    assert_eq!(s.waiting_len(), 1);
    let ex = first.unwrap();
    assert_eq!(ex.id(), 0);
    assert_eq!(ex.job().state, State::Active);
    assert_eq!(ex.job().name, "a.zip");
}

#[test]
fn failed_probe_moves_job_to_done() {
    let mut s = Scheduler::new(4, "/tmp/downloads".to_string());
    for url in ["http://host/a.zip", "http://host/b.zip", "http://host/c.zip", "http://host/d.zip"] {
        s.dispatch(add_cmd(url));
    }
    let mut executors = Vec::new();
    for _ in 0..4 {
        executors.push(s.promote().unwrap());
    }
    let mut ex = executors.pop().unwrap();
    assert_eq!(ex.id(), 3);
    assert!(!ex.record_probe(Err("connection refused".to_string())));
    assert!(ex.is_finished());
    assert_eq!(ex.job().state, State::Failed);
    let err = ex.job().resulted_err.clone().unwrap();
    assert!(!err.is_empty());
    assert!(s.complete(ex));
    assert_eq!(s.active_len(), 3);
    assert_eq!(s.done_len(), 1);
    assert_eq!(list(&mut s, ListCommands::Done), vec!["d.zip  ( _ / )  Failed\r\n".to_string()]);
    assert!(!list(&mut s, ListCommands::Active)[0].contains("d.zip"));
}

#[test]
fn ids_count_up_from_zero() {
    let mut s = Scheduler::new(3, "p".to_string());
    for url in ["http://h/1.a", "http://h/2.a", "http://h/3.a"] {
        s.dispatch(add_cmd(url));
    }
    let ids: Vec<usize> = (0..3).map(|_| s.promote().unwrap().id()).collect();
    assert_eq!(ids, vec![0, 1, 2]);
}

#[test]
fn zero_limit_never_promotes() {
    let mut s = Scheduler::new(0, "p".to_string());
    s.dispatch(add_cmd("http://h/a.b"));
    assert!(s.promote().is_none());
    assert_eq!(s.waiting_len(), 1);
}

#[test]
fn completed_job_shows_size_and_final_name() {
    let mut s = Scheduler::new(1, "p".to_string());
    s.dispatch(add_cmd("http://host/report.pdf"));
    let mut ex = s.promote().unwrap();
    assert!(ex.record_probe(Ok(Some(1024))));
    assert!(!ex.is_finished());
    ex.record_store(Ok("report_2024_Jan_01_00_00_00.pdf".to_string()));
    assert!(ex.is_finished());
    assert!(s.complete(ex));
    assert_eq!(
        list(&mut s, ListCommands::Done),
        vec!["report_2024_Jan_01_00_00_00.pdf  ( _ / 1024)  Done\r\n".to_string()]
    );
    assert_eq!(s.active_len(), 0);
}

#[test]
fn storage_failure_fails_the_job() {
    let mut s = Scheduler::new(1, "p".to_string());
    s.dispatch(add_cmd("http://host/x.bin"));
    let mut ex = s.promote().unwrap();
    assert!(ex.record_probe(Ok(None)));
    ex.record_store(Err("permission denied".to_string()));
    assert_eq!(ex.job().state, State::Failed);
    assert_eq!(ex.job().resulted_err, Some("permission denied".to_string()));
    assert!(s.complete(ex));
    assert_eq!(list(&mut s, ListCommands::Done)[0], "x.bin  ( _ / )  Failed\r\n");
}

#[test]
fn completing_an_unknown_id_changes_nothing() {
    let mut a = Scheduler::new(1, "p".to_string());
    let mut b = Scheduler::new(1, "p".to_string());
    a.dispatch(add_cmd("http://h/a.zip"));
    b.dispatch(add_cmd("http://h/b.zip"));
    let mut ex = b.promote().unwrap();
    ex.record_store(Err("e".to_string()));
    let _ = a.promote();
    let mut other = Scheduler::new(1, "p".to_string());
    assert!(!other.complete(ex));
    assert_eq!(other.done_len(), 0);
}

#[test]
fn info_prefers_done_then_waiting_then_active() {
    let mut s = Scheduler::new(1, "p".to_string());
    s.dispatch(add_cmd("http://h/same.zip"));
    s.dispatch(add_cmd("http://h/same.zip"));
    let mut ex = s.promote().unwrap();
    let info = |s: &mut Scheduler| s.dispatch(ManagerCommands::Info { filename: "same.zip".to_string() });
    assert_eq!(info(&mut s), vec!["same.zip  ( _ / )  Waiting\r\n".to_string()]);
    ex.record_probe(Ok(Some(7)));
    ex.record_store(Ok("same.zip".to_string()));
    s.complete(ex);
    assert_eq!(info(&mut s), vec!["same.zip  ( _ / 7)  Done\r\n".to_string()]);
    let _ = s.promote().unwrap();
    assert_eq!(info(&mut s), vec!["same.zip  ( _ / 7)  Done\r\n".to_string()]);
}

#[test]
fn info_finds_active_job_last() {
    let mut s = Scheduler::new(1, "p".to_string());
    s.dispatch(add_cmd("http://h/run.iso"));
    let _ex = s.promote().unwrap();
    assert_eq!(
        s.dispatch(ManagerCommands::Info { filename: "run.iso".to_string() }),
        vec!["run.iso  ( _ / )  Active\r\n".to_string()]
    );
    assert_eq!(
        s.dispatch(ManagerCommands::Info { filename: "none".to_string() }),
        vec!["This file is not found!!".to_string()]
    );
}

#[test]
fn list_all_orders_waiting_active_done() {
    let mut s = Scheduler::new(2, "p".to_string());
    s.dispatch(add_cmd("http://h/d.zip"));
    s.dispatch(add_cmd("http://h/a.zip"));
    s.dispatch(add_cmd("http://h/w.zip"));
    let mut ex = s.promote().unwrap();
    let _keep = s.promote().unwrap();
    ex.record_store(Ok("d.zip".to_string()));
    s.complete(ex);
    assert_eq!(
        list(&mut s, ListCommands::All),
        vec![
            "w.zip  ( _ / )  Waiting\r\n".to_string(),
            "a.zip  ( _ / )  Active\r\n".to_string(),
            "d.zip  ( _ / )  Done\r\n".to_string(),
        ]
    );
}

#[test]
fn add_uses_custom_name_and_path() {
    let mut s = Scheduler::new(1, "default".to_string());
    s.dispatch(ManagerCommands::Add {
        url: "http://h/archive.tar.gz".to_string(),
        custom_name: Some("backup".to_string()),
        custom_download_path: Some("/other".to_string()),
    });
    let ex = s.promote().unwrap();
    assert_eq!(ex.job().name, "backup.gz");
    assert_eq!(ex.job().download_path, "/other");
    assert_eq!(ex.job().url, "http://h/archive.tar.gz");
    s.dispatch(add_cmd("http://h/plain.txt"));
    assert_eq!(s.download_path(), "default");
    assert_eq!(s.max_jobs(), 1);
}

#[test]
fn add_without_file_name_is_refused() {
    let mut s = Scheduler::new(1, "p".to_string());
    let r = s.dispatch(add_cmd("no-slash-here"));
    assert_eq!(r, vec!["no file name can be derived from the url".to_string()]);
    assert_eq!(s.waiting_len(), 0);
    let r = s.add(Some("x".to_string()), "p".to_string(), "http://h/noext".to_string());
    assert!(r.is_err());
    assert_eq!(s.waiting_len(), 0);
}

#[test]
fn cancel_and_start_change_nothing() {
    let mut s = Scheduler::new(1, "p".to_string());
    s.dispatch(add_cmd("http://h/a.zip"));
    assert_eq!(
        s.dispatch(ManagerCommands::Cancel { filename: "a.zip".to_string() }),
        vec!["cancel command [not working yet]".to_string()]
    );
    let r = s.dispatch(ManagerCommands::Start { active_downloads: 3, download_path: "q".to_string() });
    assert!(r.is_empty());
    assert_eq!(s.waiting_len(), 1);
}

#[test]
fn url_with_empty_last_segment_is_refused() {
    let mut s = Scheduler::new(1, "p".to_string());
    let r = s.add(None, "p".to_string(), "http://host/".to_string());
    assert_eq!(r, Err("no file name can be derived from the url".to_string()));
    assert_eq!(s.waiting_len(), 0);
    assert_eq!(list(&mut s, ListCommands::All), vec![String::new(), String::new(), String::new()]);
}

#[test]
fn probed_size_shows_while_active() {
    let mut s = Scheduler::new(1, "p".to_string());
    s.dispatch(add_cmd("http://host/big.iso"));
    let mut ex = s.promote().unwrap();
    assert!(ex.record_probe(Ok(Some(4096))));
    assert!(s.update_active(ex.id(), ex.job().snapshot()));
    assert_eq!(list(&mut s, ListCommands::Active), vec!["big.iso  ( _ / 4096)  Active\r\n".to_string()]);
    assert_eq!(
        s.dispatch(ManagerCommands::Info { filename: "big.iso".to_string() }),
        vec!["big.iso  ( _ / 4096)  Active\r\n".to_string()]
    );
    assert!(!s.update_active(ex.id() + 1, ex.job().snapshot()));
    ex.record_store(Ok("big.iso".to_string()));
    assert!(s.complete(ex));
    assert_eq!(list(&mut s, ListCommands::Active), vec![String::new()]);
    assert_eq!(list(&mut s, ListCommands::Done), vec!["big.iso  ( _ / 4096)  Done\r\n".to_string()]);
}
