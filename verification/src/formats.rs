//! The choices the panel offers: video quality and codec, audio quality and
//! codec, and the video container; their labels, the order in which the
//! dropdowns list them, and the selectors of yt-dlp that they stand for.
use vstd::prelude::*;
use vstd::std_specs::convert::FromSpecImpl;

use yt_dlp::model::selector::AudioCodecPreference as YtAudioCodec;
use yt_dlp::model::selector::AudioQuality as YtAudioQuality;
use yt_dlp::model::selector::VideoCodecPreference as YtVideoCodec;
use yt_dlp::model::selector::VideoQuality as YtVideoQuality;

verus! {

/// yt-dlp's video quality selector, declared with its variants so that the
/// conversions below can say which variant each choice becomes.
#[verifier::external_type_specification]
pub struct ExYtVideoQuality(YtVideoQuality);

/// yt-dlp's video codec preference, declared with its variants.
#[verifier::external_type_specification]
pub struct ExYtVideoCodec(YtVideoCodec);

/// yt-dlp's audio quality selector, declared with its variants.
#[verifier::external_type_specification]
pub struct ExYtAudioQuality(YtAudioQuality);

/// yt-dlp's audio codec preference, declared with its variants.
#[verifier::external_type_specification]
pub struct ExYtAudioCodec(YtAudioCodec);

// ---------------------------------------------------------------------------
// Video quality
// ---------------------------------------------------------------------------

/// The video quality the user picks.
#[derive(Debug, PartialEq, Eq, Structural, Clone, Copy)]
pub enum VideoQuality {
    Highest,
    FHD,
    HD,
    SD,
    Lowest,
}

impl Default for VideoQuality {
    fn default() -> (d: Self)
        ensures
            d == VideoQuality::Highest,
    {
        VideoQuality::Highest
    }
}

/// The label shown for a video quality.
pub open spec fn video_quality_label(v: VideoQuality) -> Seq<char> {
    match v {
        VideoQuality::Highest => "Highest"@,
        VideoQuality::FHD => "1080p"@,
        VideoQuality::HD => "720p"@,
        VideoQuality::SD => "480p"@,
        VideoQuality::Lowest => "Lowest"@,
    }
}

/// The video quality options in the order the dropdown lists them.
pub open spec fn video_quality_options() -> Seq<VideoQuality> {
    seq![VideoQuality::Highest, VideoQuality::FHD, VideoQuality::HD, VideoQuality::SD, VideoQuality::Lowest]
}

/// The place of a video quality in [`video_quality_options`].
pub open spec fn video_quality_index(v: VideoQuality) -> nat {
    match v {
        VideoQuality::Highest => 0,
        VideoQuality::FHD => 1,
        VideoQuality::HD => 2,
        VideoQuality::SD => 3,
        VideoQuality::Lowest => 4,
    }
}

/// yt-dlp's selector for a video quality.
pub open spec fn video_quality_selector(v: VideoQuality) -> YtVideoQuality {
    match v {
        VideoQuality::Highest => YtVideoQuality::Best,
        VideoQuality::FHD => YtVideoQuality::High,
        VideoQuality::HD => YtVideoQuality::Medium,
        VideoQuality::SD => YtVideoQuality::Low,
        VideoQuality::Lowest => YtVideoQuality::Worst,
    }
}

impl VideoQuality {
    /// The label shown for this choice.
    pub fn label(&self) -> (s: &'static str)
        ensures
            s@ == video_quality_label(*self),
    {
        match self {
            VideoQuality::Highest => "Highest",
            VideoQuality::FHD => "1080p",
            VideoQuality::HD => "720p",
            VideoQuality::SD => "480p",
            VideoQuality::Lowest => "Lowest",
        }
    }

    /// The option at `idx` of the dropdown, if there is one.
    pub fn option_at(idx: usize) -> (r: Option<Self>)
        ensures
            r == (if idx < video_quality_options().len() {
                Some(video_quality_options()[idx as int])
            } else {
                None
            }),
    {
        match idx {
            0 => Some(VideoQuality::Highest),
            1 => Some(VideoQuality::FHD),
            2 => Some(VideoQuality::HD),
            3 => Some(VideoQuality::SD),
            4 => Some(VideoQuality::Lowest),
            _ => None,
        }
    }

    /// The place of this choice in the dropdown.
    pub fn position(&self) -> (r: Option<usize>)
        ensures
            r == Some(video_quality_index(*self) as usize),
    {
        match self {
            VideoQuality::Highest => Some(0),
            VideoQuality::FHD => Some(1),
            VideoQuality::HD => Some(2),
            VideoQuality::SD => Some(3),
            VideoQuality::Lowest => Some(4),
        }
    }

    /// The labels of the dropdown, in the order of its options.
    pub fn option_labels() -> (v: Vec<&'static str>)
        ensures
            v@.len() == video_quality_options().len(),
            forall|i: int| 0 <= i < v@.len() ==> (#[trigger] v@[i])@ == video_quality_option_label(i),
    {
        let v: Vec<&'static str> = vec!["Highest", "1080p", "720p", "480p", "Lowest"];
        v
    }
}

/// The label of the dropdown entry `i`.
pub open spec fn video_quality_option_label(i: int) -> Seq<char> {
    if i == 0 {
        "Highest"@
    } else if i == 1 {
        "1080p"@
    } else if i == 2 {
        "720p"@
    } else if i == 3 {
        "480p"@
    } else {
        "Lowest"@
    }
}

impl From<VideoQuality> for YtVideoQuality {
    fn from(val: VideoQuality) -> (r: Self) {
        match val {
            VideoQuality::Highest => YtVideoQuality::Best,
            VideoQuality::FHD => YtVideoQuality::High,
            VideoQuality::HD => YtVideoQuality::Medium,
            VideoQuality::SD => YtVideoQuality::Low,
            VideoQuality::Lowest => YtVideoQuality::Worst,
        }
    }
}

impl FromSpecImpl<VideoQuality> for YtVideoQuality {
    open spec fn obeys_from_spec() -> bool {
        true
    }

    open spec fn from_spec(v: VideoQuality) -> Self {
        video_quality_selector(v)
    }
}

// ---------------------------------------------------------------------------
// Video codec
// ---------------------------------------------------------------------------

/// The video codec the user picks.
#[derive(Debug, PartialEq, Eq, Structural, Clone, Copy)]
pub enum VideoCodec {
    AV1,
    AVC1,
    VP9,
    Any,
}

impl Default for VideoCodec {
    fn default() -> (d: Self)
        ensures
            d == VideoCodec::Any,
    {
        VideoCodec::Any
    }
}

/// The label shown for a video codec.
pub open spec fn video_codec_label(v: VideoCodec) -> Seq<char> {
    match v {
        VideoCodec::AV1 => "AV1"@,
        VideoCodec::AVC1 => "AVC1"@,
        VideoCodec::VP9 => "VP9"@,
        VideoCodec::Any => "Any"@,
    }
}

/// The video codec options in the order the dropdown lists them.
pub open spec fn video_codec_options() -> Seq<VideoCodec> {
    seq![VideoCodec::AV1, VideoCodec::AVC1, VideoCodec::VP9, VideoCodec::Any]
}

/// The place of a video codec in [`video_codec_options`].
pub open spec fn video_codec_index(v: VideoCodec) -> nat {
    match v {
        VideoCodec::AV1 => 0,
        VideoCodec::AVC1 => 1,
        VideoCodec::VP9 => 2,
        VideoCodec::Any => 3,
    }
}

/// yt-dlp's selector for a video codec.
pub open spec fn video_codec_selector(v: VideoCodec) -> YtVideoCodec {
    match v {
        VideoCodec::AV1 => YtVideoCodec::AV1,
        VideoCodec::AVC1 => YtVideoCodec::AVC1,
        VideoCodec::VP9 => YtVideoCodec::VP9,
        VideoCodec::Any => YtVideoCodec::Any,
    }
}

impl VideoCodec {
    /// The label shown for this choice.
    pub fn label(&self) -> (s: &'static str)
        ensures
            s@ == video_codec_label(*self),
    {
        match self {
            VideoCodec::AV1 => "AV1",
            VideoCodec::AVC1 => "AVC1",
            VideoCodec::VP9 => "VP9",
            VideoCodec::Any => "Any",
        }
    }

    /// The option at `idx` of the dropdown, if there is one.
    pub fn option_at(idx: usize) -> (r: Option<Self>)
        ensures
            r == (if idx < video_codec_options().len() {
                Some(video_codec_options()[idx as int])
            } else {
                None
            }),
    {
        match idx {
            0 => Some(VideoCodec::AV1),
            1 => Some(VideoCodec::AVC1),
            2 => Some(VideoCodec::VP9),
            3 => Some(VideoCodec::Any),
            _ => None,
        }
    }

    /// The place of this choice in the dropdown.
    pub fn position(&self) -> (r: Option<usize>)
        ensures
            r == Some(video_codec_index(*self) as usize),
    {
        match self {
            VideoCodec::AV1 => Some(0),
            VideoCodec::AVC1 => Some(1),
            VideoCodec::VP9 => Some(2),
            VideoCodec::Any => Some(3),
        }
    }

    /// The labels of the dropdown, in the order of its options.
    pub fn option_labels() -> (v: Vec<&'static str>)
        ensures
            v@.len() == video_codec_options().len(),
            forall|i: int| 0 <= i < v@.len() ==> (#[trigger] v@[i])@ == video_codec_option_label(i),
    {
        let v: Vec<&'static str> = vec!["AV1", "AVC1", "VP9", "Any"];
        v
    }
}

/// The label of the dropdown entry `i`.
pub open spec fn video_codec_option_label(i: int) -> Seq<char> {
    if i == 0 {
        "AV1"@
    } else if i == 1 {
        "AVC1"@
    } else if i == 2 {
        "VP9"@
    } else {
        "Any"@
    }
}

impl From<VideoCodec> for YtVideoCodec {
    fn from(val: VideoCodec) -> (r: Self) {
        match val {
            VideoCodec::AV1 => YtVideoCodec::AV1,
            VideoCodec::AVC1 => YtVideoCodec::AVC1,
            VideoCodec::VP9 => YtVideoCodec::VP9,
            VideoCodec::Any => YtVideoCodec::Any,
        }
    }
}

impl FromSpecImpl<VideoCodec> for YtVideoCodec {
    open spec fn obeys_from_spec() -> bool {
        true
    }

    open spec fn from_spec(v: VideoCodec) -> Self {
        video_codec_selector(v)
    }
}

// ---------------------------------------------------------------------------
// Audio quality
// ---------------------------------------------------------------------------

/// The audio quality the user picks.
#[derive(Debug, PartialEq, Eq, Structural, Clone, Copy)]
pub enum AudioQuality {
    Best,
    High,
    Medium,
    Low,
    Worst,
}

impl Default for AudioQuality {
    fn default() -> (d: Self)
        ensures
            d == AudioQuality::Best,
    {
        AudioQuality::Best
    }
}

/// The label shown for a audio quality.
pub open spec fn audio_quality_label(v: AudioQuality) -> Seq<char> {
    match v {
        AudioQuality::Best => "Highest"@,
        AudioQuality::High => "192kbps"@,
        AudioQuality::Medium => "128kbps"@,
        AudioQuality::Low => "96kbps"@,
        AudioQuality::Worst => "Lowest"@,
    }
}

/// The audio quality options in the order the dropdown lists them.
pub open spec fn audio_quality_options() -> Seq<AudioQuality> {
    seq![AudioQuality::Best, AudioQuality::High, AudioQuality::Medium, AudioQuality::Low, AudioQuality::Worst]
}

/// The place of a audio quality in [`audio_quality_options`].
pub open spec fn audio_quality_index(v: AudioQuality) -> nat {
    match v {
        AudioQuality::Best => 0,
        AudioQuality::High => 1,
        AudioQuality::Medium => 2,
        AudioQuality::Low => 3,
        AudioQuality::Worst => 4,
    }
}

/// yt-dlp's selector for a audio quality.
pub open spec fn audio_quality_selector(v: AudioQuality) -> YtAudioQuality {
    match v {
        AudioQuality::Best => YtAudioQuality::Best,
        AudioQuality::High => YtAudioQuality::High,
        AudioQuality::Medium => YtAudioQuality::Medium,
        AudioQuality::Low => YtAudioQuality::Low,
        AudioQuality::Worst => YtAudioQuality::Worst,
    }
}

impl AudioQuality {
    /// The label shown for this choice.
    pub fn label(&self) -> (s: &'static str)
        ensures
            s@ == audio_quality_label(*self),
    {
        match self {
            AudioQuality::Best => "Highest",
            AudioQuality::High => "192kbps",
            AudioQuality::Medium => "128kbps",
            AudioQuality::Low => "96kbps",
            AudioQuality::Worst => "Lowest",
        }
    }

    /// The option at `idx` of the dropdown, if there is one.
    pub fn option_at(idx: usize) -> (r: Option<Self>)
        ensures
            r == (if idx < audio_quality_options().len() {
                Some(audio_quality_options()[idx as int])
            } else {
                None
            }),
    {
        match idx {
            0 => Some(AudioQuality::Best),
            1 => Some(AudioQuality::High),
            2 => Some(AudioQuality::Medium),
            3 => Some(AudioQuality::Low),
            4 => Some(AudioQuality::Worst),
            _ => None,
        }
    }

    /// The place of this choice in the dropdown.
    pub fn position(&self) -> (r: Option<usize>)
        ensures
            r == Some(audio_quality_index(*self) as usize),
    {
        match self {
            AudioQuality::Best => Some(0),
            AudioQuality::High => Some(1),
            AudioQuality::Medium => Some(2),
            AudioQuality::Low => Some(3),
            AudioQuality::Worst => Some(4),
        }
    }

    /// The labels of the dropdown, in the order of its options.
    pub fn option_labels() -> (v: Vec<&'static str>)
        ensures
            v@.len() == audio_quality_options().len(),
            forall|i: int| 0 <= i < v@.len() ==> (#[trigger] v@[i])@ == audio_quality_option_label(i),
    {
        let v: Vec<&'static str> = vec!["Highest", "192kbps", "128kbps", "96kbps", "Lowest"];
        v
    }
}

/// The label of the dropdown entry `i`.
pub open spec fn audio_quality_option_label(i: int) -> Seq<char> {
    if i == 0 {
        "Highest"@
    } else if i == 1 {
        "192kbps"@
    } else if i == 2 {
        "128kbps"@
    } else if i == 3 {
        "96kbps"@
    } else {
        "Lowest"@
    }
}

impl From<AudioQuality> for YtAudioQuality {
    fn from(val: AudioQuality) -> (r: Self) {
        match val {
            AudioQuality::Best => YtAudioQuality::Best,
            AudioQuality::High => YtAudioQuality::High,
            AudioQuality::Medium => YtAudioQuality::Medium,
            AudioQuality::Low => YtAudioQuality::Low,
            AudioQuality::Worst => YtAudioQuality::Worst,
        }
    }
}

impl FromSpecImpl<AudioQuality> for YtAudioQuality {
    open spec fn obeys_from_spec() -> bool {
        true
    }

    open spec fn from_spec(v: AudioQuality) -> Self {
        audio_quality_selector(v)
    }
}

// ---------------------------------------------------------------------------
// Audio codec
// ---------------------------------------------------------------------------

/// The audio codec the user picks.
#[derive(Debug, PartialEq, Eq, Structural, Clone, Copy)]
pub enum AudioCodec {
    Opus,
    /// AAC, labelled `AAC`.
    ACC,
    MP3,
    Any,
}

impl Default for AudioCodec {
    fn default() -> (d: Self)
        ensures
            d == AudioCodec::Any,
    {
        AudioCodec::Any
    }
}

/// The label shown for a audio codec.
pub open spec fn audio_codec_label(v: AudioCodec) -> Seq<char> {
    match v {
        AudioCodec::Opus => "Opus"@,
        AudioCodec::ACC => "AAC"@,
        AudioCodec::MP3 => "MP3"@,
        AudioCodec::Any => "Any"@,
    }
}

/// The audio codec options in the order the dropdown lists them.
pub open spec fn audio_codec_options() -> Seq<AudioCodec> {
    seq![AudioCodec::MP3, AudioCodec::ACC, AudioCodec::Opus, AudioCodec::Any]
}

/// The place of a audio codec in [`audio_codec_options`].
pub open spec fn audio_codec_index(v: AudioCodec) -> nat {
    match v {
        AudioCodec::Opus => 2,
        AudioCodec::ACC => 1,
        AudioCodec::MP3 => 0,
        AudioCodec::Any => 3,
    }
}

/// yt-dlp's selector for a audio codec.
pub open spec fn audio_codec_selector(v: AudioCodec) -> YtAudioCodec {
    match v {
        AudioCodec::Opus => YtAudioCodec::Opus,
        AudioCodec::ACC => YtAudioCodec::AAC,
        AudioCodec::MP3 => YtAudioCodec::MP3,
        AudioCodec::Any => YtAudioCodec::Any,
    }
}

/// The file extension handed to yt-dlp for a audio codec.
pub open spec fn audio_codec_extension(v: AudioCodec) -> Seq<char> {
    match v {
        AudioCodec::Opus => "opus"@,
        AudioCodec::ACC => "m4a"@,
        AudioCodec::MP3 => "mp3"@,
        AudioCodec::Any => "best"@,
    }
}

impl AudioCodec {
    /// The label shown for this choice.
    pub fn label(&self) -> (s: &'static str)
        ensures
            s@ == audio_codec_label(*self),
    {
        match self {
            AudioCodec::Opus => "Opus",
            AudioCodec::ACC => "AAC",
            AudioCodec::MP3 => "MP3",
            AudioCodec::Any => "Any",
        }
    }

    /// The file extension handed to yt-dlp for this choice.
    pub fn extension(&self) -> (s: &'static str)
        ensures
            s@ == audio_codec_extension(*self),
    {
        match self {
            AudioCodec::Opus => "opus",
            AudioCodec::ACC => "m4a",
            AudioCodec::MP3 => "mp3",
            AudioCodec::Any => "best",
        }
    }

    /// The option at `idx` of the dropdown, if there is one.
    pub fn option_at(idx: usize) -> (r: Option<Self>)
        ensures
            r == (if idx < audio_codec_options().len() {
                Some(audio_codec_options()[idx as int])
            } else {
                None
            }),
    {
        match idx {
            0 => Some(AudioCodec::MP3),
            1 => Some(AudioCodec::ACC),
            2 => Some(AudioCodec::Opus),
            3 => Some(AudioCodec::Any),
            _ => None,
        }
    }

    /// The place of this choice in the dropdown.
    pub fn position(&self) -> (r: Option<usize>)
        ensures
            r == Some(audio_codec_index(*self) as usize),
    {
        match self {
            AudioCodec::Opus => Some(2),
            AudioCodec::ACC => Some(1),
            AudioCodec::MP3 => Some(0),
            AudioCodec::Any => Some(3),
        }
    }

    /// The labels of the dropdown, in the order of its options.
    pub fn option_labels() -> (v: Vec<&'static str>)
        ensures
            v@.len() == audio_codec_options().len(),
            forall|i: int| 0 <= i < v@.len() ==> (#[trigger] v@[i])@ == audio_codec_option_label(i),
    {
        let v: Vec<&'static str> = vec!["MP3", "AAC (M4A)", "Opus", "Any"];
        v
    }
}

/// The label of the dropdown entry `i`.
pub open spec fn audio_codec_option_label(i: int) -> Seq<char> {
    if i == 0 {
        "MP3"@
    } else if i == 1 {
        "AAC (M4A)"@
    } else if i == 2 {
        "Opus"@
    } else {
        "Any"@
    }
}

impl From<AudioCodec> for YtAudioCodec {
    fn from(val: AudioCodec) -> (r: Self) {
        match val {
            AudioCodec::Opus => YtAudioCodec::Opus,
            AudioCodec::ACC => YtAudioCodec::AAC,
            AudioCodec::MP3 => YtAudioCodec::MP3,
            AudioCodec::Any => YtAudioCodec::Any,
        }
    }
}

impl FromSpecImpl<AudioCodec> for YtAudioCodec {
    open spec fn obeys_from_spec() -> bool {
        true
    }

    open spec fn from_spec(v: AudioCodec) -> Self {
        audio_codec_selector(v)
    }
}

// ---------------------------------------------------------------------------
// Video container
// ---------------------------------------------------------------------------

/// The video container the user picks.
#[derive(Debug, PartialEq, Eq, Structural, Clone, Copy)]
pub enum VideoContainer {
    MP4,
    MKV,
    WebM,
}

impl Default for VideoContainer {
    fn default() -> (d: Self)
        ensures
            d == VideoContainer::MP4,
    {
        VideoContainer::MP4
    }
}

/// The video container options in the order the dropdown lists them.
pub open spec fn video_container_options() -> Seq<VideoContainer> {
    seq![VideoContainer::MP4, VideoContainer::MKV, VideoContainer::WebM]
}

/// The place of a video container in [`video_container_options`].
pub open spec fn video_container_index(v: VideoContainer) -> nat {
    match v {
        VideoContainer::MP4 => 0,
        VideoContainer::MKV => 1,
        VideoContainer::WebM => 2,
    }
}

/// The file extension handed to yt-dlp for a video container.
pub open spec fn video_container_extension(v: VideoContainer) -> Seq<char> {
    match v {
        VideoContainer::MP4 => "mp4"@,
        VideoContainer::MKV => "mkv"@,
        VideoContainer::WebM => "webm"@,
    }
}

impl VideoContainer {
    /// The file extension handed to yt-dlp for this choice.
    pub fn extension(&self) -> (s: &'static str)
        ensures
            s@ == video_container_extension(*self),
    {
        match self {
            VideoContainer::MP4 => "mp4",
            VideoContainer::MKV => "mkv",
            VideoContainer::WebM => "webm",
        }
    }

    /// The option at `idx` of the dropdown, if there is one.
    pub fn option_at(idx: usize) -> (r: Option<Self>)
        ensures
            r == (if idx < video_container_options().len() {
                Some(video_container_options()[idx as int])
            } else {
                None
            }),
    {
        match idx {
            0 => Some(VideoContainer::MP4),
            1 => Some(VideoContainer::MKV),
            2 => Some(VideoContainer::WebM),
            _ => None,
        }
    }

    /// The place of this choice in the dropdown.
    pub fn position(&self) -> (r: Option<usize>)
        ensures
            r == Some(video_container_index(*self) as usize),
    {
        match self {
            VideoContainer::MP4 => Some(0),
            VideoContainer::MKV => Some(1),
            VideoContainer::WebM => Some(2),
        }
    }

    /// The labels of the dropdown, in the order of its options.
    pub fn option_labels() -> (v: Vec<&'static str>)
        ensures
            v@.len() == video_container_options().len(),
            forall|i: int| 0 <= i < v@.len() ==> (#[trigger] v@[i])@ == video_container_option_label(i),
    {
        let v: Vec<&'static str> = vec!["MP4", "MKV", "WebM"];
        v
    }
}

/// The label of the dropdown entry `i`.
pub open spec fn video_container_option_label(i: int) -> Seq<char> {
    if i == 0 {
        "MP4"@
    } else if i == 1 {
        "MKV"@
    } else {
        "WebM"@
    }
}

// ---------------------------------------------------------------------------
// Laws
// ---------------------------------------------------------------------------

/// Each dropdown lists every choice exactly once: the entry at a choice's
/// position is that choice, and the entry at a position has that position.
pub proof fn lemma_dropdowns_round_trip()
    ensures
        forall|v: VideoQuality| #![trigger video_quality_index(v)]
            video_quality_index(v) < video_quality_options().len()
                && video_quality_options()[video_quality_index(v) as int] == v,
        forall|i: int| 0 <= i < video_quality_options().len() ==> video_quality_index(#[trigger] video_quality_options()[i]) == i,
        forall|v: VideoCodec| #![trigger video_codec_index(v)]
            video_codec_index(v) < video_codec_options().len()
                && video_codec_options()[video_codec_index(v) as int] == v,
        forall|i: int| 0 <= i < video_codec_options().len() ==> video_codec_index(#[trigger] video_codec_options()[i]) == i,
        forall|v: AudioQuality| #![trigger audio_quality_index(v)]
            audio_quality_index(v) < audio_quality_options().len()
                && audio_quality_options()[audio_quality_index(v) as int] == v,
        forall|i: int| 0 <= i < audio_quality_options().len() ==> audio_quality_index(#[trigger] audio_quality_options()[i]) == i,
        forall|v: AudioCodec| #![trigger audio_codec_index(v)]
            audio_codec_index(v) < audio_codec_options().len()
                && audio_codec_options()[audio_codec_index(v) as int] == v,
        forall|i: int| 0 <= i < audio_codec_options().len() ==> audio_codec_index(#[trigger] audio_codec_options()[i]) == i,
        forall|v: VideoContainer| #![trigger video_container_index(v)]
            video_container_index(v) < video_container_options().len()
                && video_container_options()[video_container_index(v) as int] == v,
        forall|i: int| 0 <= i < video_container_options().len() ==> video_container_index(#[trigger] video_container_options()[i]) == i,
{
    assert forall|i: int| 0 <= i < video_quality_options().len() implies video_quality_index(#[trigger] video_quality_options()[i]) == i by {
        assert(i == 0 || i == 1 || i == 2 || i == 3 || i == 4);
    }
    assert forall|i: int| 0 <= i < video_codec_options().len() implies video_codec_index(#[trigger] video_codec_options()[i]) == i by {
        assert(i == 0 || i == 1 || i == 2 || i == 3);
    }
    assert forall|i: int| 0 <= i < audio_quality_options().len() implies audio_quality_index(#[trigger] audio_quality_options()[i]) == i by {
        assert(i == 0 || i == 1 || i == 2 || i == 3 || i == 4);
    }
    assert forall|i: int| 0 <= i < audio_codec_options().len() implies audio_codec_index(#[trigger] audio_codec_options()[i]) == i by {
        assert(i == 0 || i == 1 || i == 2 || i == 3);
    }
    assert forall|i: int| 0 <= i < video_container_options().len() implies video_container_index(#[trigger] video_container_options()[i]) == i by {
        assert(i == 0 || i == 1 || i == 2);
    }
}

/// The dropdowns of video quality, video codec and audio quality show each
/// choice under its own label.
pub proof fn lemma_dropdown_labels_are_choice_labels(i: int)
    ensures
        0 <= i < video_quality_options().len() ==> video_quality_option_label(i) == video_quality_label(
            video_quality_options()[i],
        ),
        0 <= i < video_codec_options().len() ==> video_codec_option_label(i) == video_codec_label(
            video_codec_options()[i],
        ),
        0 <= i < audio_quality_options().len() ==> audio_quality_option_label(i) == audio_quality_label(
            audio_quality_options()[i],
        ),
{
}

/// The audio codec dropdown shows each choice under its own label, except the
/// AAC entry, which it calls `AAC (M4A)`.
pub proof fn lemma_audio_codec_dropdown_labels(i: int)
    requires
        0 <= i < audio_codec_options().len(),
        audio_codec_options()[i] != AudioCodec::ACC,
    ensures
        audio_codec_option_label(i) == audio_codec_label(audio_codec_options()[i]),
{
}

/// Different choices of one kind have different labels.
pub proof fn lemma_labels_distinct()
    ensures
        forall|a: VideoQuality, b: VideoQuality| a != b ==> video_quality_label(a) != video_quality_label(b),
        forall|a: VideoCodec, b: VideoCodec| a != b ==> video_codec_label(a) != video_codec_label(b),
        forall|a: AudioQuality, b: AudioQuality| a != b ==> audio_quality_label(a) != audio_quality_label(b),
        forall|a: AudioCodec, b: AudioCodec| a != b ==> audio_codec_label(a) != audio_codec_label(b),
{
    reveal_strlit("Highest");
    reveal_strlit("1080p");
    reveal_strlit("720p");
    reveal_strlit("480p");
    reveal_strlit("Lowest");
    reveal_strlit("AV1");
    reveal_strlit("AVC1");
    reveal_strlit("VP9");
    reveal_strlit("Any");
    reveal_strlit("192kbps");
    reveal_strlit("128kbps");
    reveal_strlit("96kbps");
    reveal_strlit("Opus");
    reveal_strlit("AAC");
    reveal_strlit("MP3");
    assert forall|a: VideoQuality, b: VideoQuality| a != b implies video_quality_label(a) != video_quality_label(b) by {
        assert(video_quality_label(a).len() != video_quality_label(b).len() || video_quality_label(a)[0]
            != video_quality_label(b)[0] || video_quality_label(a)[1] != video_quality_label(b)[1]);
    }
    assert forall|a: VideoCodec, b: VideoCodec| a != b implies video_codec_label(a) != video_codec_label(b) by {
        assert(video_codec_label(a).len() != video_codec_label(b).len() || video_codec_label(a)[0]
            != video_codec_label(b)[0] || video_codec_label(a)[2] != video_codec_label(b)[2]);
    }
    assert forall|a: AudioQuality, b: AudioQuality| a != b implies audio_quality_label(a) != audio_quality_label(b) by {
        assert(audio_quality_label(a).len() != audio_quality_label(b).len() || audio_quality_label(a)[0]
            != audio_quality_label(b)[0] || audio_quality_label(a)[1] != audio_quality_label(b)[1]);
    }
    assert forall|a: AudioCodec, b: AudioCodec| a != b implies audio_codec_label(a) != audio_codec_label(b) by {
        assert(audio_codec_label(a).len() != audio_codec_label(b).len() || audio_codec_label(a)[0]
            != audio_codec_label(b)[0] || audio_codec_label(a)[1] != audio_codec_label(b)[1]);
    }
}

/// Different choices of one kind stand for different selectors of yt-dlp.
pub proof fn lemma_selectors_distinct()
    ensures
        forall|a: VideoQuality, b: VideoQuality| a != b ==> video_quality_selector(a) != video_quality_selector(b),
        forall|a: VideoCodec, b: VideoCodec| a != b ==> video_codec_selector(a) != video_codec_selector(b),
        forall|a: AudioQuality, b: AudioQuality| a != b ==> audio_quality_selector(a) != audio_quality_selector(b),
        forall|a: AudioCodec, b: AudioCodec| a != b ==> audio_codec_selector(a) != audio_codec_selector(b),
{
}

} // verus!
