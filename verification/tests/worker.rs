use dbi_ftp::manager::compute_speed;
use dbi_ftp::manager::FTPManager;
use dbi_ftp::manager::GameFile;
use dbi_ftp::manager::ManagerEvent;
use dbi_ftp::manager::TransferStatus;
use dbi_ftp::manager::WorkerStep;
use dbi_ftp::transfer::UploadError;

fn file(id: u32, path: &str, name: &str, size: u64) -> GameFile {
    GameFile {
        game_id: id,
        game_title: format!("game {id}"),
        file_path: path.to_string(),
        file_name: name.to_string(),
        file_size: size,
    }
}

#[test]
fn worker_without_target_fails_each_task_and_drains() {
    let mut mgr = FTPManager::new();
    let mut events: Vec<ManagerEvent> = Vec::new();
    mgr.queue_file(file(7, "/g/7/a.nsp", "a.nsp", 100), &mut events).unwrap();
    mgr.queue_file(file(7, "/g/7/b.xci", "b.xci", 200), &mut events).unwrap();
    events.clear();

    assert!(matches!(mgr.worker_next(&mut events), WorkerStep::NoTarget));
    assert!(matches!(mgr.worker_next(&mut events), WorkerStep::NoTarget));
    assert!(matches!(mgr.worker_next(&mut events), WorkerStep::Stop));

    let errors: Vec<(u32, String, String)> = events
        .iter()
        .filter_map(|e| match e {
            ManagerEvent::TransferError { game_id, file_name, error } => {
                Some((*game_id, file_name.clone(), error.clone()))
            },
            _ => None,
        })
        .collect();
    assert_eq!(errors.len(), 2);
    assert_eq!(errors[0], (7, "a.nsp".to_string(), "no target configured".to_string()));
    assert_eq!(errors[1], (7, "b.xci".to_string(), "no target configured".to_string()));
    assert!(mgr.get_queue().is_empty());
    assert!(!mgr.is_transferring());
}

#[test]
fn worker_uploads_and_reports_completion() {
    let mut mgr = FTPManager::new();
    let mut events: Vec<ManagerEvent> = Vec::new();
    mgr.set_ftp_ip("10.0.0.9".to_string(), true).unwrap();
    mgr.queue_file(file(5, "/g/5/a.nsp", "a.nsp", 1000), &mut events).unwrap();
    events.clear();

    let (upload_file, target) = match mgr.worker_next(&mut events) {
        WorkerStep::Upload { file, ftp_ip } => (file, ftp_ip),
        other => panic!("expected an upload step, got {other:?}"),
    };
    assert_eq!(upload_file.file_name, "a.nsp");
    assert_eq!(target, "10.0.0.9");

    // While the upload runs, the active transfer reads 0% transferring.
    let current = mgr.get_current_transfer().unwrap();
    assert_eq!(current.game_id, 5);
    assert_eq!(current.file_name, "a.nsp");
    assert_eq!(current.bytes_transferred, 0);
    assert_eq!(current.total_bytes, 1000);
    assert_eq!(current.progress_percent, 0);
    assert_eq!(current.status, TransferStatus::Transferring);
    match &events[0] {
        ManagerEvent::TransferProgress { progress } => {
            assert_eq!(progress.progress_percent, 0);
            assert_eq!(progress.status, TransferStatus::Transferring);
        },
        other => panic!("expected a progress event, got {other:?}"),
    }
    events.clear();

    mgr.worker_finish(Ok(()), 4, &mut events);
    assert!(mgr.get_current_transfer().is_none());
    match &events[0] {
        ManagerEvent::TransferProgress { progress } => {
            assert_eq!(progress.bytes_transferred, 1000);
            assert_eq!(progress.total_bytes, 1000);
            assert_eq!(progress.progress_percent, 100);
            assert_eq!(progress.transfer_speed, 250);
            assert_eq!(progress.eta_seconds, 0);
            assert_eq!(progress.status, TransferStatus::Completed);
        },
        other => panic!("expected a progress event, got {other:?}"),
    }
    assert!(matches!(
        &events[1],
        ManagerEvent::TransferComplete { game_id: 5, .. }
    ));
    assert!(matches!(
        &events[2],
        ManagerEvent::QueueUpdated { queue_length: 0 }
    ));
    assert!(matches!(mgr.worker_next(&mut events), WorkerStep::Stop));
}

#[test]
fn worker_reports_upload_failure_verbatim() {
    let mut mgr = FTPManager::new();
    let mut events: Vec<ManagerEvent> = Vec::new();
    mgr.set_ftp_ip("10.0.0.9".to_string(), true).unwrap();
    mgr.queue_file(file(3, "/g/3/c.nsz", "c.nsz", 50), &mut events).unwrap();
    events.clear();

    assert!(matches!(mgr.worker_next(&mut events), WorkerStep::Upload { .. }));
    events.clear();
    mgr.worker_finish(
        Err(UploadError::Connect("connection refused".to_string())),
        0,
        &mut events,
    );
    match &events[0] {
        ManagerEvent::TransferError { game_id, file_name, error } => {
            assert_eq!(*game_id, 3);
            assert_eq!(file_name, "c.nsz");
            assert_eq!(error, "Failed to connect to FTP server: connection refused");
        },
        other => panic!("expected an error event, got {other:?}"),
    }
    assert!(matches!(
        &events[1],
        ManagerEvent::QueueUpdated { queue_length: 0 }
    ));
    assert!(mgr.get_current_transfer().is_none());
}

#[test]
fn upload_error_messages_name_the_step() {
    assert_eq!(
        UploadError::Login("530".to_string()).message(),
        "FTP login failed: 530"
    );
    assert_eq!(
        UploadError::BinaryMode("500".to_string()).message(),
        "Failed to set binary mode: 500"
    );
    assert_eq!(
        UploadError::Upload("timed out".to_string()).message(),
        "FTP upload failed: timed out"
    );
    assert_eq!(
        UploadError::LocalFile("no such file".to_string()).message(),
        "Failed to open local file: no such file"
    );
}

#[test]
fn speed_is_size_over_elapsed() {
    assert_eq!(compute_speed(1000, 4), 250);
    assert_eq!(compute_speed(999, 1000), 0);
    assert_eq!(compute_speed(12345, 0), 0);
}
