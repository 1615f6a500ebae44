use ytdlp_applet::display::{eta_text, EtaText, SizeLine, StatusLine};
use ytdlp_applet::panel::ActiveDownload;

fn dl() -> ActiveDownload {
    ActiveDownload {
        id: 0,
        percent_bits: 0,
        speed_bits: 0,
        eta_secs: None,
        downloaded_bytes: 0,
        total_bytes: 0,
        is_post_processing: false,
        is_audio: false,
        playlist_current: None,
        playlist_total: None,
        playlist_title: None,
    }
}

#[test]
fn eta_texts() {
    assert_eq!(eta_text(None), EtaText::Calculating);
    assert_eq!(eta_text(Some(1)), EtaText::Seconds(1));
    assert_eq!(eta_text(Some(59)), EtaText::Seconds(59));
    assert_eq!(eta_text(Some(60)), EtaText::MinutesSeconds { mins: 1, secs: 0 });
    assert_eq!(eta_text(Some(3723)), EtaText::MinutesSeconds { mins: 62, secs: 3 });
}

#[test]
fn status_lines() {
    let mut d = dl();
    assert_eq!(d.status_line(), StatusLine::Transfer(EtaText::Calculating));
    d.eta_secs = Some(5);
    assert_eq!(d.status_line(), StatusLine::Transfer(EtaText::Seconds(5)));
    d.is_post_processing = true;
    assert_eq!(d.status_line(), StatusLine::PostProcessing);
    d.is_audio = true;
    assert_eq!(d.status_line(), StatusLine::PostProcessingAudio);
}

#[test]
fn size_lines() {
    let mut d = dl();
    assert_eq!(d.size_line(), SizeLine::Empty);
    d.downloaded_bytes = 1_258_291;
    assert_eq!(d.size_line(), SizeLine::DownloadedOnly(1_258_291));
    d.total_bytes = 3_984_588;
    assert_eq!(d.size_line(), SizeLine::Both { downloaded: 1_258_291, total: 3_984_588 });
}

#[test]
fn playlist_lines() {
    let mut d = dl();
    assert_eq!(d.playlist_line(), None);
    d.playlist_current = Some(3);
    assert_eq!(d.playlist_line(), None);
    d.playlist_total = Some(4);
    assert_eq!(d.playlist_line(), Some((3, 4, String::new())));
    d.playlist_title = Some("Title".into());
    assert_eq!(d.playlist_line(), Some((3, 4, "Title".to_string())));
}
