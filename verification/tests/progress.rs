use ytdlp_applet::panel::{Panel, PanelEffect, PanelEvent};
use ytdlp_applet::progress::{classify_output_line, scan_progress_line, OutputLine, Scale};

#[test]
fn scan_typical_line() {
    let s = scan_progress_line("[download]  45.2% of 12.34MiB at 2.45MiB/s ETA 00:03").unwrap();
    assert_eq!(s.percent_text, "45.2");
    let speed = s.speed.unwrap();
    assert_eq!(speed.number, "2.45");
    assert_eq!(speed.scale, Scale::Mebi);
    assert_eq!(s.eta_secs, Some(3));
    let total = s.total.unwrap();
    assert_eq!(total.number, "12.34");
    assert_eq!(total.scale, Scale::Mebi);
}

#[test]
fn scan_kibi_gibi_and_hours() {
    let s = scan_progress_line("[download]   7.0% of ~ 5.00KiB at 1.50GiB/s ETA 1:02:03 (frag 3/9)")
        .unwrap();
    assert_eq!(s.percent_text, "7.0");
    let speed = s.speed.unwrap();
    assert_eq!((speed.number.as_str(), speed.scale), ("1.50", Scale::Gibi));
    assert_eq!(s.eta_secs, Some(3723));
    let total = s.total.unwrap();
    assert_eq!((total.number.as_str(), total.scale), ("5.00", Scale::Kibi));
}

#[test]
fn scan_decimal_units() {
    let s = scan_progress_line("[download] 10% of 3GB at 800KB/s ETA 05:00").unwrap();
    let speed = s.speed.unwrap();
    assert_eq!((speed.number.as_str(), speed.scale), ("800", Scale::Kibi));
    let total = s.total.unwrap();
    assert_eq!((total.number.as_str(), total.scale), ("3", Scale::Gibi));
    assert_eq!(s.eta_secs, Some(300));
}

#[test]
fn scan_unknown_fields() {
    let s = scan_progress_line("[download]  0.0% of Unknown at Unknown B/s ETA Unknown").unwrap();
    assert_eq!(s.percent_text, "0.0");
    assert!(s.speed.is_none());
    assert!(s.total.is_none());
    assert_eq!(s.eta_secs, None);
}

#[test]
fn scan_eta_bad_fields_read_as_zero() {
    let s = scan_progress_line("[download] 1% ETA xx:07").unwrap();
    assert_eq!(s.eta_secs, Some(7));
    let s = scan_progress_line("[download] 1% ETA 1:2:3:4").unwrap();
    assert_eq!(s.eta_secs, None);
}

#[test]
fn scan_eta_wraps_like_u64() {
    // 18446744073709551615 * 60 + 0, reduced modulo 2^64.
    let s = scan_progress_line("[download] 1% ETA 18446744073709551615:00").unwrap();
    assert_eq!(s.eta_secs, Some(18446744073709551615u64.wrapping_mul(60)));
    let s = scan_progress_line("[download] 1% ETA 18446744073709551616:05").unwrap();
    assert_eq!(s.eta_secs, Some(5));
}

#[test]
fn scan_repeated_unit_suffix_is_trimmed_away() {
    let s = scan_progress_line("[download] 5% at 2MiB/sMiB/s").unwrap();
    let speed = s.speed.unwrap();
    assert_eq!((speed.number.as_str(), speed.scale), ("2", Scale::Mebi));
}

#[test]
fn scan_rejects_other_lines() {
    assert!(scan_progress_line("[youtube] abc: Downloading webpage").is_none());
    assert!(scan_progress_line("[download] Destination: a.mp4").is_none());
    assert!(scan_progress_line(" [download] 5%").is_none());
    assert!(scan_progress_line("").is_none());
}

#[test]
fn scale_bytes() {
    assert_eq!(Scale::Kibi.bytes_per_unit(), 1024);
    assert_eq!(Scale::Mebi.bytes_per_unit(), 1_048_576);
    assert_eq!(Scale::Gibi.bytes_per_unit(), 1_073_741_824);
}

#[test]
fn classify_post_processing() {
    for line in [
        "[Merger] Merging formats into \"a.mkv\"",
        "[ExtractAudio] Destination: a.mp3",
        "[Fixup] fixing",
        "[ffmpeg] Merging",
        "[download] 100% [Merger]",
    ] {
        assert!(matches!(classify_output_line(line), OutputLine::PostProcessing));
    }
}

#[test]
fn classify_playlist_items() {
    match classify_output_line("[download] Downloading item 3 of 15") {
        OutputLine::PlaylistItem { current, total } => assert_eq!((current, total), (3, 15)),
        _ => panic!("not a playlist item"),
    }
    match classify_output_line("[download] Downloading item x of  y z") {
        OutputLine::PlaylistItem { current, total } => assert_eq!((current, total), (1, 1)),
        _ => panic!("not a playlist item"),
    }
    match classify_output_line("[download] Downloading item 2 of ") {
        OutputLine::PlaylistItem { current, total } => assert_eq!((current, total), (2, 1)),
        _ => panic!("not a playlist item"),
    }
    assert!(matches!(
        classify_output_line("[download] Downloading video 2 of 4"),
        OutputLine::Other
    ));
    assert!(matches!(
        classify_output_line("[download] Downloading item 4"),
        OutputLine::Other
    ));
}

#[test]
fn classify_progress_and_other() {
    match classify_output_line("[download]  50.0% of 2.00MiB at 1.00MiB/s ETA 00:01") {
        OutputLine::Progress(s) => {
            assert_eq!(s.percent_text, "50.0");
            assert_eq!(s.eta_secs, Some(1));
        }
        _ => panic!("not progress"),
    }
    assert!(matches!(classify_output_line("[info] hello"), OutputLine::Other));
}

#[test]
fn eta_fields_accept_plus_sign() {
    let s = scan_progress_line("[download] 3% ETA +1:+2").unwrap();
    assert_eq!(s.eta_secs, Some(62));
    let s = scan_progress_line("[download] 3% ETA +:2").unwrap();
    assert_eq!(s.eta_secs, Some(2));
    let s = scan_progress_line("[download] 3% ETA -1:2").unwrap();
    assert_eq!(s.eta_secs, Some(2));
}

#[test]
fn playlist_numbers_beyond_u32_read_as_one() {
    match classify_output_line("[download] Downloading item 4294967296 of 4294967295") {
        OutputLine::PlaylistItem { current, total } => assert_eq!((current, total), (1, 4294967295)),
        _ => panic!("not a playlist item"),
    }
}

fn destination(line: &str) -> Option<String> {
    match classify_output_line(line) {
        OutputLine::Destination { title } => Some(title),
        _ => None,
    }
}

#[test]
fn destination_lines_name_the_entry() {
    assert_eq!(
        destination("[download] Destination: /home/u/Music/My Song.webm").as_deref(),
        Some("My Song")
    );
    assert_eq!(
        destination("[download] Destination: /v/Clip v1.2.f137.mp4").as_deref(),
        Some("Clip v1.2")
    );
    assert_eq!(destination("[download] Destination: /v/Clip.fx.mp4").as_deref(), Some("Clip.fx"));
    assert_eq!(destination("[download] Destination: name").as_deref(), Some("name"));
    assert_eq!(destination("[download] Destination: 100% Hits.mp3").as_deref(), Some("100% Hits"));
    assert_eq!(destination("[download]  Destination: a.mp4"), None);
}

#[test]
fn playlist_title_from_output() {
    let mut p = Panel::new("/v".into(), "/a".into());
    let id = match p.update(PanelEvent::Download { video_selected: false }) {
        PanelEffect::Start(r) => r.id,
        _ => panic!("no job"),
    };
    for line in [
        "[download] Downloading item 3 of 4",
        "[download] Destination: /a/Entry Three.m4a",
    ] {
        match classify_output_line(line) {
            OutputLine::PlaylistItem { current, total } => {
                p.update(PanelEvent::PlaylistProgress { id, current, total, video_title: String::new() });
            }
            OutputLine::Destination { title } => {
                p.update(PanelEvent::EntryTitle { id, title });
            }
            _ => panic!("unexpected line"),
        }
    }
    assert_eq!(p.active_downloads[0].playlist_line(), Some((3, 4, "Entry Three".to_string())));
}
