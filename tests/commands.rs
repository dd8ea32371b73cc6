use pake_shell::commands::{
    download_message, DownloadAction, DownloadEvent, DownloadPhase, DownloadSession, MessageType,
};

fn run(events: Vec<DownloadEvent>) -> (DownloadPhase, Vec<DownloadAction>) {
    let mut session = DownloadSession::new();
    let mut all = Vec::new();
    for event in events {
        all.extend(session.step(event));
    }
    (session.phase, all)
}

fn failure_toasts(actions: &[DownloadAction]) -> usize {
    actions
        .iter()
        .filter(|a| matches!(a, DownloadAction::ShowToast(MessageType::Failure)))
        .count()
}

#[test]
fn english_messages() {
    assert_eq!(download_message(MessageType::Start, &None), "Start downloading~");
    assert_eq!(
        download_message(MessageType::Success, &Some("en-US".to_string())),
        "Download successful, saved to download directory~"
    );
    assert_eq!(
        download_message(MessageType::Failure, &Some("z".to_string())),
        "Download failed, please check your network connection~"
    );
}

#[test]
fn chinese_messages() {
    assert_eq!(download_message(MessageType::Start, &Some("zh-CN".to_string())), "开始下载中~");
    assert_eq!(
        download_message(MessageType::Success, &Some("zh".to_string())),
        "下载成功，已保存到下载目录~"
    );
    assert_eq!(
        download_message(MessageType::Failure, &Some("zh-TW".to_string())),
        "下载失败，请检查你的网络连接~"
    );
}

#[test]
fn url_download_succeeds() {
    let (phase, actions) =
        run(vec![DownloadEvent::StartFromUrl, DownloadEvent::Fetched, DownloadEvent::Written]);
    assert_eq!(phase, DownloadPhase::Finished);
    assert_eq!(actions.len(), 5);
    assert!(matches!(actions[0], DownloadAction::ShowToast(MessageType::Start)));
    assert!(matches!(actions[1], DownloadAction::Fetch));
    assert!(matches!(actions[2], DownloadAction::WriteFile));
    assert!(matches!(actions[3], DownloadAction::ShowToast(MessageType::Success)));
    assert!(matches!(actions[4], DownloadAction::Finish(Ok(()))));
}

#[test]
fn unreachable_url_fails_once_without_writing() {
    let error = "error sending request for url (http://unreachable.invalid/)".to_string();
    let (phase, actions) = run(vec![
        DownloadEvent::StartFromUrl,
        DownloadEvent::FetchFailed(error.clone()),
        DownloadEvent::Fetched,
        DownloadEvent::Written,
    ]);
    assert_eq!(phase, DownloadPhase::Finished);
    assert_eq!(failure_toasts(&actions), 1);
    assert!(!actions.iter().any(|a| matches!(a, DownloadAction::WriteFile)));
    match actions.last() {
        Some(DownloadAction::Finish(Err(e))) => assert_eq!(e, &error),
        _ => panic!("expected an error result"),
    }
}

#[test]
fn binary_download_writes_directly() {
    let (phase, actions) = run(vec![DownloadEvent::StartFromBytes, DownloadEvent::Written]);
    assert_eq!(phase, DownloadPhase::Finished);
    assert_eq!(actions.len(), 4);
    assert!(matches!(actions[1], DownloadAction::WriteFile));
    assert!(!actions.iter().any(|a| matches!(a, DownloadAction::Fetch)));
}

#[test]
fn write_failure_reports_error() {
    let (_, actions) = run(vec![
        DownloadEvent::StartFromBytes,
        DownloadEvent::WriteFailed("permission denied".to_string()),
    ]);
    assert_eq!(failure_toasts(&actions), 1);
    match actions.last() {
        Some(DownloadAction::Finish(Err(e))) => assert_eq!(e, "permission denied"),
        _ => panic!("expected an error result"),
    }
}

#[test]
fn events_out_of_order_are_ignored() {
    let mut session = DownloadSession::new();
    assert!(session.step(DownloadEvent::Written).is_empty());
    assert!(session.step(DownloadEvent::Fetched).is_empty());
    assert_eq!(session.phase, DownloadPhase::Idle);
}
