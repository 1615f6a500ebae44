use ytdlp_applet::formats::{AudioCodec, AudioQuality, VideoCodec, VideoContainer, VideoQuality};
use yt_dlp::model::selector::{
    AudioCodecPreference, AudioQuality as YtAudioQuality, VideoCodecPreference,
    VideoQuality as YtVideoQuality,
};

#[test]
fn video_quality_labels() {
    assert_eq!(VideoQuality::Highest.label(), "Highest");
    assert_eq!(VideoQuality::FHD.label(), "1080p");
    assert_eq!(VideoQuality::HD.label(), "720p");
    assert_eq!(VideoQuality::SD.label(), "480p");
    assert_eq!(VideoQuality::Lowest.label(), "Lowest");
}

#[test]
fn video_codec_labels() {
    assert_eq!(VideoCodec::AV1.label(), "AV1");
    assert_eq!(VideoCodec::AVC1.label(), "AVC1");
    assert_eq!(VideoCodec::VP9.label(), "VP9");
    assert_eq!(VideoCodec::Any.label(), "Any");
}

#[test]
fn audio_quality_labels() {
    assert_eq!(AudioQuality::Best.label(), "Highest");
    assert_eq!(AudioQuality::High.label(), "192kbps");
    assert_eq!(AudioQuality::Medium.label(), "128kbps");
    assert_eq!(AudioQuality::Low.label(), "96kbps");
    assert_eq!(AudioQuality::Worst.label(), "Lowest");
}

#[test]
fn audio_codec_labels() {
    assert_eq!(AudioCodec::Opus.label(), "Opus");
    assert_eq!(AudioCodec::ACC.label(), "AAC");
    assert_eq!(AudioCodec::MP3.label(), "MP3");
    assert_eq!(AudioCodec::Any.label(), "Any");
}

#[test]
fn defaults() {
    assert_eq!(VideoQuality::default(), VideoQuality::Highest);
    assert_eq!(VideoCodec::default(), VideoCodec::Any);
    assert_eq!(AudioQuality::default(), AudioQuality::Best);
    assert_eq!(AudioCodec::default(), AudioCodec::Any);
    assert_eq!(VideoContainer::default(), VideoContainer::MP4);
}

#[test]
fn video_quality_into_selector() {
    let all = [
        (VideoQuality::Highest, YtVideoQuality::Best),
        (VideoQuality::FHD, YtVideoQuality::High),
        (VideoQuality::HD, YtVideoQuality::Medium),
        (VideoQuality::SD, YtVideoQuality::Low),
        (VideoQuality::Lowest, YtVideoQuality::Worst),
    ];
    for (q, y) in all {
        let got: YtVideoQuality = q.into();
        assert_eq!(got, y);
    }
}

#[test]
fn video_codec_into_selector() {
    let got: VideoCodecPreference = VideoCodec::AV1.into();
    assert_eq!(got, VideoCodecPreference::AV1);
    let got: VideoCodecPreference = VideoCodec::AVC1.into();
    assert_eq!(got, VideoCodecPreference::AVC1);
    let got: VideoCodecPreference = VideoCodec::VP9.into();
    assert_eq!(got, VideoCodecPreference::VP9);
    let got: VideoCodecPreference = VideoCodec::Any.into();
    assert_eq!(got, VideoCodecPreference::Any);
}

#[test]
fn audio_quality_into_selector() {
    let got: YtAudioQuality = AudioQuality::Best.into();
    assert_eq!(got, YtAudioQuality::Best);
    let got: YtAudioQuality = AudioQuality::High.into();
    assert_eq!(got, YtAudioQuality::High);
    let got: YtAudioQuality = AudioQuality::Medium.into();
    assert_eq!(got, YtAudioQuality::Medium);
    let got: YtAudioQuality = AudioQuality::Low.into();
    assert_eq!(got, YtAudioQuality::Low);
    let got: YtAudioQuality = AudioQuality::Worst.into();
    assert_eq!(got, YtAudioQuality::Worst);
}

#[test]
fn audio_codec_into_selector() {
    let got: AudioCodecPreference = AudioCodec::Opus.into();
    assert_eq!(got, AudioCodecPreference::Opus);
    let got: AudioCodecPreference = AudioCodec::ACC.into();
    assert_eq!(got, AudioCodecPreference::AAC);
    let got: AudioCodecPreference = AudioCodec::MP3.into();
    assert_eq!(got, AudioCodecPreference::MP3);
    let got: AudioCodecPreference = AudioCodec::Any.into();
    assert_eq!(got, AudioCodecPreference::Any);
}

#[test]
fn dropdown_round_trip() {
    for i in 0..5 {
        let q = VideoQuality::option_at(i).unwrap();
        assert_eq!(q.position(), Some(i));
        let a = AudioQuality::option_at(i).unwrap();
        assert_eq!(a.position(), Some(i));
    }
    for i in 0..4 {
        assert_eq!(VideoCodec::option_at(i).unwrap().position(), Some(i));
        assert_eq!(AudioCodec::option_at(i).unwrap().position(), Some(i));
    }
    for i in 0..3 {
        assert_eq!(VideoContainer::option_at(i).unwrap().position(), Some(i));
    }
    assert_eq!(VideoQuality::option_at(5), None);
    assert_eq!(VideoCodec::option_at(4), None);
    assert_eq!(AudioQuality::option_at(usize::MAX), None);
    assert_eq!(AudioCodec::option_at(4), None);
    assert_eq!(VideoContainer::option_at(3), None);
}

#[test]
fn dropdown_order() {
    assert_eq!(AudioCodec::option_at(0), Some(AudioCodec::MP3));
    assert_eq!(AudioCodec::option_at(1), Some(AudioCodec::ACC));
    assert_eq!(AudioCodec::option_at(2), Some(AudioCodec::Opus));
    assert_eq!(AudioCodec::option_at(3), Some(AudioCodec::Any));
    assert_eq!(VideoContainer::option_at(2), Some(VideoContainer::WebM));
}

#[test]
fn dropdown_labels_match_choice_labels() {
    let labels = VideoQuality::option_labels();
    for (i, l) in labels.iter().enumerate() {
        assert_eq!(*l, VideoQuality::option_at(i).unwrap().label());
    }
    let labels = VideoCodec::option_labels();
    for (i, l) in labels.iter().enumerate() {
        assert_eq!(*l, VideoCodec::option_at(i).unwrap().label());
    }
    let labels = AudioQuality::option_labels();
    for (i, l) in labels.iter().enumerate() {
        assert_eq!(*l, AudioQuality::option_at(i).unwrap().label());
    }
    assert_eq!(
        AudioCodec::option_labels(),
        vec!["MP3", "AAC (M4A)", "Opus", "Any"]
    );
    assert_eq!(VideoContainer::option_labels(), vec!["MP4", "MKV", "WebM"]);
}

#[test]
fn extensions() {
    assert_eq!(VideoContainer::MP4.extension(), "mp4");
    assert_eq!(VideoContainer::MKV.extension(), "mkv");
    assert_eq!(VideoContainer::WebM.extension(), "webm");
    assert_eq!(AudioCodec::MP3.extension(), "mp3");
    assert_eq!(AudioCodec::ACC.extension(), "m4a");
    assert_eq!(AudioCodec::Opus.extension(), "opus");
    assert_eq!(AudioCodec::Any.extension(), "best");
}

#[test]
fn labels_are_distinct() {
    let v: Vec<&str> = (0..5).map(|i| VideoQuality::option_at(i).unwrap().label()).collect();
    for i in 0..v.len() {
        for j in 0..i {
            assert_ne!(v[i], v[j]);
        }
    }
    let a: Vec<&str> = (0..4).map(|i| AudioCodec::option_at(i).unwrap().label()).collect();
    for i in 0..a.len() {
        for j in 0..i {
            assert_ne!(a[i], a[j]);
        }
    }
}
