use ytdlp_applet::setup::{
    common_bin_dirs, downloader_extra_args, downloader_timeout_secs, executable_mode, release_url,
    update_args,
    Binary, SetupAction, SetupStage,
};

/// Runs the preparation, answering each question from `answer`, and returns
/// the actions taken.
fn run(answer: impl Fn(SetupAction) -> bool) -> Vec<SetupAction> {
    let mut s = SetupStage::start();
    let mut seen = Vec::new();
    for _ in 0..64 {
        if s.is_done() {
            return seen;
        }
        let a = s.action();
        seen.push(a);
        s = s.next(answer(a));
    }
    panic!("preparation did not end");
}

#[test]
fn everything_cached_and_working() {
    let acts = run(|a| !matches!(a, SetupAction::FindSystem(_)));
    assert_eq!(
        acts,
        vec![
            SetupAction::CreateDataDir,
            SetupAction::FindSystem(Binary::Ffmpeg),
            SetupAction::FindSystem(Binary::Ffprobe),
            SetupAction::Exists(Binary::Ffmpeg),
            SetupAction::Exists(Binary::Ffmpeg),
            SetupAction::Exists(Binary::Ffmpeg),
            SetupAction::MakeExecutable(Binary::Ffmpeg),
            SetupAction::Exists(Binary::Ytdlp),
            SetupAction::CheckCached,
            SetupAction::Exists(Binary::Ytdlp),
            SetupAction::MakeExecutable(Binary::Ytdlp),
            SetupAction::Exists(Binary::Ytdlp),
            SetupAction::SpawnUpdate,
        ]
    );
}

#[test]
fn nothing_anywhere() {
    let acts = run(|_| false);
    assert!(acts.contains(&SetupAction::InstallFfmpeg));
    assert!(acts.contains(&SetupAction::RemoveFfmpegArchive));
    assert!(acts.contains(&SetupAction::RemoveBrokenYtdlp));
    assert!(acts.contains(&SetupAction::DownloadYtdlp));
    assert!(acts.contains(&SetupAction::InstallYtdlp));
    assert!(!acts.contains(&SetupAction::SpawnUpdate));
    assert!(!acts.contains(&SetupAction::MakeExecutable(Binary::Ytdlp)));
}

#[test]
fn system_binaries_are_linked() {
    let acts = run(|a| match a {
        SetupAction::FindSystem(_) => true,
        SetupAction::Exists(_) => false,
        SetupAction::LegacyExists(_) => false,
        SetupAction::CheckCached => false,
        SetupAction::CheckSystem => true,
        _ => true,
    });
    assert!(acts.contains(&SetupAction::LinkSystem(Binary::Ffmpeg)));
    assert!(acts.contains(&SetupAction::LinkSystem(Binary::Ffprobe)));
    assert!(acts.contains(&SetupAction::LinkSystem(Binary::Ytdlp)));
    assert!(!acts.contains(&SetupAction::DownloadYtdlp));
}

#[test]
fn legacy_copies() {
    let acts = run(|a| matches!(a, SetupAction::LegacyExists(_) | SetupAction::CheckCached));
    assert!(acts.contains(&SetupAction::CopyLegacy(Binary::Ffmpeg)));
    assert!(acts.contains(&SetupAction::CopyLegacy(Binary::Ytdlp)));
    assert!(!acts.contains(&SetupAction::RemoveBrokenYtdlp));
}

#[test]
fn release_urls() {
    assert_eq!(
        release_url("aarch64"),
        "https://github.com/yt-dlp/yt-dlp/releases/latest/download/yt-dlp_linux_aarch64"
    );
    assert_eq!(
        release_url("x86_64"),
        "https://github.com/yt-dlp/yt-dlp/releases/latest/download/yt-dlp"
    );
}

#[test]
fn modes() {
    assert_eq!(executable_mode(0o644), Some(0o755));
    assert_eq!(executable_mode(0o100644), Some(0o755));
    assert_eq!(executable_mode(0o700), None);
    assert_eq!(executable_mode(0o001), None);
}

#[test]
fn constants() {
    assert_eq!(common_bin_dirs(), vec!["/usr/bin", "/usr/local/bin", "/bin"]);
    assert_eq!(downloader_extra_args(), vec!["--concurrent-fragments", "4"]);
    assert_eq!(downloader_timeout_secs(), 300);
    assert_eq!(Binary::Ffmpeg.file_name(), "ffmpeg");
    assert_eq!(Binary::Ffprobe.file_name(), "ffprobe");
    assert_eq!(Binary::Ytdlp.file_name(), "yt-dlp");
}

#[test]
fn update_arguments() {
    assert_eq!(update_args(), vec!["--update-to", "stable"]);
}
