use dbi_ftp::errors::FtpError;
use dbi_ftp::manager::FTPManager;
use dbi_ftp::manager::GameFile;
use dbi_ftp::manager::ManagerEvent;
use dbi_ftp::manager::WorkerStep;

fn file(id: u32, path: &str, name: &str, size: u64) -> GameFile {
    GameFile {
        game_id: id,
        game_title: format!("game {id}"),
        file_path: path.to_string(),
        file_name: name.to_string(),
        file_size: size,
    }
}

#[test]
fn enqueue_rejects_duplicate_path() {
    let mut mgr = FTPManager::new();
    let mut events: Vec<ManagerEvent> = Vec::new();
    assert_eq!(mgr.queue_file(file(1, "/g/1/a.nsp", "a.nsp", 10), &mut events), Ok(true));
    assert_eq!(mgr.get_queue().len(), 1);
    // Same path again: rejected, length unchanged.
    assert_eq!(
        mgr.queue_file(file(1, "/g/1/a.nsp", "a.nsp", 10), &mut events),
        Err(FtpError::DuplicateEntry)
    );
    assert_eq!(mgr.get_queue().len(), 1);
}

#[test]
fn enqueue_starts_one_worker_and_reports_length() {
    let mut mgr = FTPManager::new();
    let mut events: Vec<ManagerEvent> = Vec::new();
    assert_eq!(mgr.queue_file(file(1, "/g/1/a.nsp", "a.nsp", 10), &mut events), Ok(true));
    // A worker already runs: the second enqueue must not start another.
    assert_eq!(mgr.queue_file(file(2, "/g/2/b.nsp", "b.nsp", 20), &mut events), Ok(false));
    assert!(mgr.is_transferring());
    let lengths: Vec<usize> = events
        .iter()
        .map(|e| match e {
            ManagerEvent::QueueUpdated { queue_length } => *queue_length,
            _ => panic!("only queue events expected"),
        })
        .collect();
    assert_eq!(lengths, vec![1, 2]);
}

#[test]
fn clear_while_busy_fails_and_keeps_queue() {
    let mut mgr = FTPManager::new();
    let mut events: Vec<ManagerEvent> = Vec::new();
    mgr.queue_file(file(1, "/g/1/a.nsp", "a.nsp", 10), &mut events).unwrap();
    assert!(mgr.is_transferring());
    let before = events.len();
    assert_eq!(mgr.clear_queue(&mut events), Err(FtpError::Busy));
    assert_eq!(mgr.get_queue().len(), 1);
    assert_eq!(events.len(), before);
}

#[test]
fn clear_when_idle_empties_queue() {
    let mut mgr = FTPManager::new();
    let mut events: Vec<ManagerEvent> = Vec::new();
    assert_eq!(mgr.clear_queue(&mut events), Ok(()));
    assert!(mgr.get_queue().is_empty());
    assert!(matches!(events.last(), Some(ManagerEvent::QueueUpdated { queue_length: 0 })));
}

#[test]
fn cancel_semantics() {
    let mut mgr = FTPManager::new();
    let mut events: Vec<ManagerEvent> = Vec::new();
    mgr.set_ftp_ip("10.0.0.9".to_string(), true).unwrap();
    mgr.queue_file(file(1, "/g/1/a.nsp", "a.nsp", 10), &mut events).unwrap();
    mgr.queue_file(file(2, "/g/2/b.nsp", "b.nsp", 20), &mut events).unwrap();
    mgr.queue_file(file(3, "/g/3/c.nsp", "c.nsp", 30), &mut events).unwrap();
    // The worker picks up the first task; it is now transferring.
    match mgr.worker_next(&mut events) {
        WorkerStep::Upload { file, ftp_ip } => {
            assert_eq!(file.file_path, "/g/1/a.nsp");
            assert_eq!(ftp_ip, "10.0.0.9");
        },
        other => panic!("expected an upload step, got {other:?}"),
    }
    // Cancelling the in-flight task is refused.
    assert_eq!(
        mgr.remove_from_queue(&"/g/1/a.nsp".to_string(), &mut events),
        Err(FtpError::InUse)
    );
    // Cancelling a queued task removes exactly that one.
    assert_eq!(mgr.get_queue().len(), 2);
    assert_eq!(mgr.remove_from_queue(&"/g/2/b.nsp".to_string(), &mut events), Ok(()));
    let queue = mgr.get_queue();
    assert_eq!(queue.len(), 1);
    assert_eq!(queue[0].file_path, "/g/3/c.nsp");
    // An unknown path is reported as such.
    assert_eq!(
        mgr.remove_from_queue(&"/g/9/z.nsp".to_string(), &mut events),
        Err(FtpError::NotFound)
    );
}

#[test]
fn set_target_unreachable_leaves_target_unset() {
    let mut mgr = FTPManager::new();
    assert_eq!(mgr.set_ftp_ip("10.0.0.5".to_string(), false), Err(FtpError::Unreachable));
    assert_eq!(mgr.get_ftp_ip(), None);
}

#[test]
fn set_target_rejects_malformed_address() {
    let mut mgr = FTPManager::new();
    assert_eq!(mgr.set_ftp_ip("300.1.1.1".to_string(), true), Err(FtpError::InvalidAddress));
    assert_eq!(mgr.set_ftp_ip("10.0.0".to_string(), true), Err(FtpError::InvalidAddress));
    assert_eq!(mgr.set_ftp_ip("1.2.3.4.5".to_string(), true), Err(FtpError::InvalidAddress));
    assert_eq!(mgr.get_ftp_ip(), None);
}

#[test]
fn set_target_commits_reachable_address() {
    let mut mgr = FTPManager::new();
    assert_eq!(mgr.set_ftp_ip("192.168.1.50".to_string(), true), Ok(()));
    assert_eq!(mgr.get_ftp_ip(), Some("192.168.1.50".to_string()));
}

#[test]
fn queue_length_accounting_over_commands() {
    let mut mgr = FTPManager::new();
    let mut events: Vec<ManagerEvent> = Vec::new();
    let mut enqueued = 0usize;
    let mut removed = 0usize;
    for i in 0..5u32 {
        if mgr.queue_file(file(i, &format!("/g/{i}/f.nsp"), "f.nsp", 1), &mut events).is_ok() {
            enqueued += 1;
        }
    }
    // A duplicate enqueue fails and counts for nothing.
    assert!(mgr.queue_file(file(0, "/g/0/f.nsp", "f.nsp", 1), &mut events).is_err());
    if mgr.remove_from_queue(&"/g/3/f.nsp".to_string(), &mut events).is_ok() {
        removed += 1;
    }
    // A failed cancel counts for nothing either.
    assert!(mgr.remove_from_queue(&"/g/3/f.nsp".to_string(), &mut events).is_err());
    assert_eq!(mgr.get_queue().len(), enqueued - removed);
}
