use std::collections::BTreeSet;
use ytdlp_applet::formats::{AudioCodec, AudioQuality, VideoCodec, VideoContainer, VideoQuality};
use ytdlp_applet::panel::{start_folder, Panel, PanelEffect, PanelEvent};

fn panel() -> Panel {
    Panel::new("/home/u/Videos".to_string(), "/home/u/Music".to_string())
}

fn start(p: &mut Panel, video: bool) -> ytdlp_applet::panel::DownloadRequest {
    match p.update(PanelEvent::Download { video_selected: video }) {
        PanelEffect::Start(r) => r,
        _ => panic!("no job started"),
    }
}

#[test]
fn new_panel_defaults() {
    let p = panel();
    assert_eq!(p.video_folder, "/home/u/Videos");
    assert_eq!(p.audio_folder, "/home/u/Music");
    assert!(p.url.is_empty() && p.custom_name.is_empty());
    assert_eq!(p.video_container, VideoContainer::MP4);
    assert_eq!(p.video_quality, VideoQuality::Highest);
    assert_eq!(p.audio_quality, AudioQuality::Best);
    assert_eq!(p.video_codec, VideoCodec::Any);
    assert_eq!(p.audio_codec, AudioCodec::Any);
    assert!(p.active_downloads.is_empty());
    assert_eq!(p.next_download_id, 0);
    assert!(!p.show_platforms);
}

#[test]
fn download_starts_a_job_and_clears_inputs() {
    let mut p = panel();
    p.update(PanelEvent::EnterUrl("https://y/watch?v=1".into()));
    p.update(PanelEvent::EnterCustomName("  clip ".into()));
    p.update(PanelEvent::VideoContainerSelected(1));
    p.update(PanelEvent::VideoQualitySelected(2));
    let r = start(&mut p, true);
    assert_eq!(r.id, 0);
    assert!(r.video_selected);
    assert_eq!(r.url, "https://y/watch?v=1");
    assert_eq!(r.custom_name.as_deref(), Some("  clip "));
    assert_eq!(r.output_dir, "/home/u/Videos");
    assert_eq!(r.video_container_ext, "mkv");
    assert_eq!(r.audio_ext, "best");
    assert_eq!(r.video_quality, VideoQuality::HD);
    assert_eq!(r.audio_quality, AudioQuality::Best);
    assert!(p.url.is_empty() && p.custom_name.is_empty());
    assert_eq!(p.next_download_id, 1);
    assert_eq!(p.active_downloads.len(), 1);
    let d = &p.active_downloads[0];
    assert_eq!(d.id, 0);
    assert!(!d.is_audio);
    assert_eq!((d.percent_bits, d.speed_bits, d.eta_secs), (0, 0, None));
}

#[test]
fn audio_download_uses_audio_folder_and_codec() {
    let mut p = panel();
    p.update(PanelEvent::EnterCustomName("   ".into()));
    p.update(PanelEvent::AudioCodecSelected(2));
    p.update(PanelEvent::AudioQualitySelected(4));
    let r = start(&mut p, false);
    assert_eq!(r.custom_name, None);
    assert_eq!(r.output_dir, "/home/u/Music");
    assert_eq!(r.audio_ext, "opus");
    assert_eq!(r.audio_quality, AudioQuality::Worst);
    assert!(p.active_downloads[0].is_audio);
}

#[test]
fn ids_are_fresh_and_finish_removes() {
    let mut p = panel();
    let a = start(&mut p, true);
    let b = start(&mut p, false);
    let c = start(&mut p, true);
    assert_eq!((a.id, b.id, c.id), (0, 1, 2));
    assert!(matches!(p.update(PanelEvent::Finished(1)), PanelEffect::Release(1)));
    let ids: Vec<u32> = p.active_downloads.iter().map(|d| d.id).collect();
    assert_eq!(ids, vec![0, 2]);
    assert!(matches!(p.update(PanelEvent::CancelDownload(0)), PanelEffect::Cancel(0)));
    let ids: Vec<u32> = p.active_downloads.iter().map(|d| d.id).collect();
    assert_eq!(ids, vec![2]);
    assert!(matches!(p.update(PanelEvent::Finished(7)), PanelEffect::Release(7)));
    assert_eq!(p.active_downloads.len(), 1);
}

#[test]
fn next_id_wraps() {
    let mut p = panel();
    p.next_download_id = u32::MAX;
    let r = start(&mut p, true);
    assert_eq!(r.id, u32::MAX);
    assert_eq!(p.next_download_id, 0);
}

#[test]
fn progress_updates_the_download() {
    let mut p = panel();
    start(&mut p, true);
    start(&mut p, true);
    p.update(PanelEvent::DownloadProgress {
        id: 1,
        percent_bits: 45.5f32.to_bits(),
        speed_bits: 2.5f64.to_bits(),
        eta_secs: Some(12),
        downloaded_bytes: 100,
        total_bytes: 200,
        is_post_processing: false,
    });
    let d = &p.active_downloads[1];
    assert_eq!(f32::from_bits(d.percent_bits), 45.5);
    assert_eq!(f64::from_bits(d.speed_bits), 2.5);
    assert_eq!((d.eta_secs, d.downloaded_bytes, d.total_bytes), (Some(12), 100, 200));
    assert_eq!(p.active_downloads[0].percent_bits, 0);
}

#[test]
fn progress_for_unknown_id_changes_nothing() {
    let mut p = panel();
    start(&mut p, true);
    let eff = p.update(PanelEvent::DownloadProgress {
        id: 9,
        percent_bits: 1,
        speed_bits: 1,
        eta_secs: Some(1),
        downloaded_bytes: 1,
        total_bytes: 1,
        is_post_processing: true,
    });
    assert!(matches!(eff, PanelEffect::Nothing));
    let d = &p.active_downloads[0];
    assert_eq!((d.percent_bits, d.total_bytes, d.is_post_processing), (0, 0, false));
}

#[test]
fn playlist_entry_resets_progress() {
    let mut p = panel();
    start(&mut p, false);
    p.update(PanelEvent::DownloadProgress {
        id: 0,
        percent_bits: 50f32.to_bits(),
        speed_bits: 3f64.to_bits(),
        eta_secs: Some(4),
        downloaded_bytes: 10,
        total_bytes: 20,
        is_post_processing: true,
    });
    p.update(PanelEvent::PlaylistProgress { id: 0, current: 3, total: 4, video_title: String::new() });
    let d = &p.active_downloads[0];
    assert_eq!((d.playlist_current, d.playlist_total), (Some(3), Some(4)));
    assert_eq!(d.playlist_title, None);
    assert_eq!((d.percent_bits, d.downloaded_bytes, d.total_bytes, d.eta_secs), (0, 0, 0, None));
    assert!(!d.is_post_processing);
    assert_eq!(f64::from_bits(d.speed_bits), 3.0);
    p.update(PanelEvent::PlaylistProgress { id: 0, current: 4, total: 4, video_title: "Song".into() });
    assert_eq!(p.active_downloads[0].playlist_title.as_deref(), Some("Song"));
}

#[test]
fn selections_ignore_out_of_range() {
    let mut p = panel();
    p.update(PanelEvent::VideoQualitySelected(9));
    p.update(PanelEvent::VideoCodecSelected(4));
    p.update(PanelEvent::AudioQualitySelected(5));
    p.update(PanelEvent::AudioCodecSelected(4));
    p.update(PanelEvent::VideoContainerSelected(3));
    assert_eq!(p.video_quality, VideoQuality::Highest);
    assert_eq!(p.video_codec, VideoCodec::Any);
    assert_eq!(p.audio_quality, AudioQuality::Best);
    assert_eq!(p.audio_codec, AudioCodec::Any);
    assert_eq!(p.video_container, VideoContainer::MP4);
    p.update(PanelEvent::VideoCodecSelected(0));
    assert_eq!(p.video_codec, VideoCodec::AV1);
    p.update(PanelEvent::VideoContainerSelected(2));
    assert_eq!(p.video_container, VideoContainer::WebM);
}

#[test]
fn folder_choice_and_toggles() {
    let mut p = panel();
    assert!(matches!(
        p.update(PanelEvent::ProcessSelectFolder { folder: "/v2".into(), video_selected: true }),
        PanelEffect::TogglePopup
    ));
    assert!(matches!(
        p.update(PanelEvent::ProcessSelectFolder { folder: "/a2".into(), video_selected: false }),
        PanelEffect::TogglePopup
    ));
    assert_eq!((p.video_folder.as_str(), p.audio_folder.as_str()), ("/v2", "/a2"));
    p.update(PanelEvent::TogglePlatforms);
    assert!(p.show_platforms);
    p.update(PanelEvent::TogglePlatforms);
    assert!(!p.show_platforms);
}

#[test]
fn start_folders() {
    assert_eq!(start_folder(None, true), "~/Videos");
    assert_eq!(start_folder(None, false), "~/Music");
    assert_eq!(start_folder(Some("/srv/v".into()), true), "/srv/v");
}

#[test]
fn finishing_a_new_download_restores_the_list() {
    let mut p = panel();
    start(&mut p, true);
    start(&mut p, false);
    let before: Vec<u32> = p.active_downloads.iter().map(|d| d.id).collect();
    let r = start(&mut p, true);
    assert!(!before.contains(&r.id));
    p.update(PanelEvent::Finished(r.id));
    let after: Vec<u32> = p.active_downloads.iter().map(|d| d.id).collect();
    assert_eq!(before, after);
}

#[test]
fn picking_the_shown_entry_keeps_the_choice() {
    let mut p = panel();
    p.update(PanelEvent::AudioCodecSelected(1));
    let shown = p.audio_codec.position().unwrap();
    p.update(PanelEvent::AudioCodecSelected(shown));
    assert_eq!(p.audio_codec, AudioCodec::ACC);
    let shown = p.video_quality.position().unwrap();
    p.update(PanelEvent::VideoQualitySelected(shown));
    assert_eq!(p.video_quality, VideoQuality::Highest);
}

#[test]
fn entry_title_sets_only_a_non_empty_title() {
    let mut p = panel();
    let r = start(&mut p, true);
    p.update(PanelEvent::EntryTitle { id: r.id, title: "First".into() });
    assert_eq!(p.active_downloads[0].playlist_title.as_deref(), Some("First"));
    p.update(PanelEvent::EntryTitle { id: r.id, title: String::new() });
    assert_eq!(p.active_downloads[0].playlist_title.as_deref(), Some("First"));
    p.update(PanelEvent::EntryTitle { id: 99, title: "Other".into() });
    assert_eq!(p.active_downloads.len(), 1);
    assert_eq!(p.active_downloads[0].playlist_title.as_deref(), Some("First"));
}

#[test]
fn cancel_ids_follow_effects() {
    let mut p = panel();
    let mut ids: BTreeSet<u32> = BTreeSet::new();
    let events = vec![
        PanelEvent::Download { video_selected: true },
        PanelEvent::Download { video_selected: false },
        PanelEvent::Download { video_selected: true },
        PanelEvent::CancelDownload(1),
        PanelEvent::Finished(0),
        PanelEvent::Finished(5),
        PanelEvent::Download { video_selected: false },
    ];
    for ev in events {
        match p.update(ev) {
            PanelEffect::Start(r) => {
                ids.insert(r.id);
            }
            PanelEffect::Cancel(id) | PanelEffect::Release(id) => {
                ids.remove(&id);
            }
            _ => {}
        }
        let shown: BTreeSet<u32> = p.active_downloads.iter().map(|d| d.id).collect();
        assert_eq!(ids, shown);
    }
}

#[test]
fn a_new_entry_never_shows_the_previous_title() {
    let mut p = panel();
    let r = start(&mut p, false);
    p.update(PanelEvent::PlaylistProgress { id: r.id, current: 1, total: 2, video_title: String::new() });
    p.update(PanelEvent::EntryTitle { id: r.id, title: "First".into() });
    assert_eq!(p.active_downloads[0].playlist_line(), Some((1, 2, "First".to_string())));
    p.update(PanelEvent::PlaylistProgress { id: r.id, current: 2, total: 2, video_title: String::new() });
    assert_eq!(p.active_downloads[0].playlist_title, None);
    assert_eq!(p.active_downloads[0].playlist_line(), Some((2, 2, String::new())));
}
