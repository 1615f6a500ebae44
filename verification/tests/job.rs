use ytdlp_applet::formats::{AudioQuality, VideoQuality};
use ytdlp_applet::job::{
    audio_quality_arg, detect_playlist, display_title, download_args, format_filter,
    entry_title, is_leftover_file, job_end, output_template, title_query_args, Notice,
};

#[test]
fn playlist_detection() {
    assert!(detect_playlist("https://www.youtube.com/watch?v=a&list=PL1"));
    assert!(detect_playlist("https://www.youtube.com/playlist?x=1"));
    assert!(!detect_playlist("https://www.youtube.com/watch?v=a"));
    assert!(!detect_playlist(""));
}

#[test]
fn title_query() {
    assert_eq!(
        title_query_args("U"),
        vec!["--print", "%(title)s", "--no-warnings", "--no-playlist", "U"]
    );
}

#[test]
fn titles() {
    assert_eq!(display_title(&Some(" mine ".to_string()), Some("x".into())), " mine ");
    assert_eq!(display_title(&None, Some("  Song Title \n".into())), "Song Title");
    assert_eq!(display_title(&None, Some(" \n".into())), "Download");
    assert_eq!(display_title(&None, None), "Download");
}

#[test]
fn templates() {
    assert_eq!(output_template(&None, "/home/u/Videos"), "/home/u/Videos/%(title)s.%(ext)s");
    assert_eq!(
        output_template(&Some("  clip ".into()), "/home/u/Videos"),
        "/home/u/Videos/clip.%(ext)s"
    );
    assert_eq!(output_template(&Some("   ".into()), "/m"), "/m/%(title)s.%(ext)s");
}

#[test]
fn filters() {
    assert_eq!(format_filter(VideoQuality::Highest), "bestvideo+bestaudio/best");
    assert_eq!(
        format_filter(VideoQuality::FHD),
        "bestvideo[height<=1080]+bestaudio/best[height<=1080]/best"
    );
    assert_eq!(
        format_filter(VideoQuality::HD),
        "bestvideo[height<=720]+bestaudio/best[height<=720]/best"
    );
    assert_eq!(
        format_filter(VideoQuality::SD),
        "bestvideo[height<=480]+bestaudio/best[height<=480]/best"
    );
    assert_eq!(format_filter(VideoQuality::Lowest), "worstvideo+worstaudio/worst");
    let qs = [
        (AudioQuality::Best, "0"),
        (AudioQuality::High, "2"),
        (AudioQuality::Medium, "5"),
        (AudioQuality::Low, "7"),
        (AudioQuality::Worst, "9"),
    ];
    for (q, a) in qs {
        assert_eq!(audio_quality_arg(q), a);
    }
}

#[test]
fn video_args() {
    let a = download_args(
        "/lib/ffmpeg",
        "/v/%(title)s.%(ext)s",
        "https://y/watch?v=1",
        true,
        "mkv",
        "mp3",
        VideoQuality::HD,
        AudioQuality::Best,
    );
    assert_eq!(
        a,
        vec![
            "--ffmpeg-location",
            "/lib/ffmpeg",
            "--newline",
            "--progress",
            "--no-mtime",
            "--extractor-args",
            "youtube:player_client=default,web_embedded,ios",
            "-o",
            "/v/%(title)s.%(ext)s",
            "--no-playlist",
            "-f",
            "bestvideo[height<=720]+bestaudio/best[height<=720]/best",
            "--merge-output-format",
            "mkv",
            "--remux-video",
            "mkv",
            "https://y/watch?v=1",
        ]
    );
}

#[test]
fn video_args_unknown_container() {
    let a = download_args("f", "t", "u/playlist", true, "avi", "", VideoQuality::Lowest, AudioQuality::Best);
    assert_eq!(
        a,
        vec![
            "--ffmpeg-location",
            "f",
            "--newline",
            "--progress",
            "--no-mtime",
            "--extractor-args",
            "youtube:player_client=default,web_embedded,ios",
            "-o",
            "t",
            "--yes-playlist",
            "-f",
            "worstvideo+worstaudio/worst",
            "u/playlist",
        ]
    );
}

#[test]
fn audio_args() {
    let a = download_args("f", "t", "u&list=1", false, "mp4", "opus", VideoQuality::Highest, AudioQuality::Low);
    assert_eq!(
        a,
        vec![
            "--ffmpeg-location",
            "f",
            "--newline",
            "--progress",
            "--no-mtime",
            "--extractor-args",
            "youtube:player_client=default,web_embedded,ios",
            "-o",
            "t",
            "--yes-playlist",
            "-x",
            "--audio-format",
            "opus",
            "--audio-quality",
            "7",
            "u&list=1",
        ]
    );
}

#[test]
fn leftovers() {
    assert!(is_leftover_file(0, "song.mp3"));
    assert!(is_leftover_file(10, "a.mp4.part"));
    assert!(is_leftover_file(10, "a.ytdl"));
    assert!(is_leftover_file(10, "temp_video_1.mp4"));
    assert!(is_leftover_file(10, "temp_audio_1.m4a"));
    assert!(!is_leftover_file(10, "a.mp4"));
    assert!(!is_leftover_file(10, "a.part.mp4"));
    assert!(!is_leftover_file(10, "my_temp_video_1.mp4"));
}

#[test]
fn titles_of_blank_names_fall_back() {
    // A blank name never reaches the job: the panel passes `None` for it.
    assert_eq!(display_title(&None, Some(String::new())), "Download");
}

#[test]
fn job_ends() {
    let ok = job_end(true);
    assert_eq!(ok.notice, Notice::Finished);
    assert!(!ok.update_ytdlp);
    let failed = job_end(false);
    assert_eq!(failed.notice, Notice::FailedRetry);
    assert!(failed.update_ytdlp);
    assert_eq!(Notice::Started.message_id(), "download-started");
    assert_eq!(Notice::Finished.message_id(), "finished-download");
    assert_eq!(Notice::FailedRetry.message_id(), "download-failed");
}

#[test]
fn entry_titles_only_without_a_typed_name() {
    assert_eq!(entry_title(&None, "Song".into()).as_deref(), Some("Song"));
    assert_eq!(entry_title(&Some("mine".into()), "mine".into()), None);
}
