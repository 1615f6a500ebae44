//! The state of the panel and the downloads in flight, and how each event
//! changes it: the decisions of the applet, apart from the windowing and the
//! work that the application performs for them.
use vstd::prelude::*;
use vstd::string::{StrSliceExecFns, StringExecFns};

use crate::formats::{
    audio_codec_extension, audio_quality_options, video_codec_options, video_container_extension,
    video_container_options, video_quality_options, audio_codec_options, AudioCodec, AudioQuality,
    VideoCodec, VideoContainer, VideoQuality,
};
use crate::text::{chars_of, trim, trim_of};

verus! {

/// The progress shown for one download.
///
/// The rate and the percentage are the bit patterns of the `f64` and `f32`
/// that yt-dlp's output was read into (`f64::to_bits`, `f32::to_bits`); the
/// panel only stores and shows them.
pub struct ActiveDownload {
    pub id: u32,
    pub percent_bits: u32,
    pub speed_bits: u64,
    pub eta_secs: Option<u64>,
    pub downloaded_bytes: u64,
    pub total_bytes: u64,
    pub is_post_processing: bool,
    pub is_audio: bool,
    /// The playlist entry being fetched, for a playlist.
    pub playlist_current: Option<u32>,
    pub playlist_total: Option<u32>,
    pub playlist_title: Option<String>,
}

/// The mathematical content of an [`ActiveDownload`].
pub struct DownloadModel {
    pub id: u32,
    pub percent_bits: u32,
    pub speed_bits: u64,
    pub eta_secs: Option<u64>,
    pub downloaded_bytes: u64,
    pub total_bytes: u64,
    pub is_post_processing: bool,
    pub is_audio: bool,
    pub playlist_current: Option<u32>,
    pub playlist_total: Option<u32>,
    pub playlist_title: Option<Seq<char>>,
}

pub open spec fn text_of(o: Option<String>) -> Option<Seq<char>> {
    match o {
        Some(s) => Some(s@),
        None => None,
    }
}

impl View for ActiveDownload {
    type V = DownloadModel;

    open spec fn view(&self) -> DownloadModel {
        DownloadModel {
            id: self.id,
            percent_bits: self.percent_bits,
            speed_bits: self.speed_bits,
            eta_secs: self.eta_secs,
            downloaded_bytes: self.downloaded_bytes,
            total_bytes: self.total_bytes,
            is_post_processing: self.is_post_processing,
            is_audio: self.is_audio,
            playlist_current: self.playlist_current,
            playlist_total: self.playlist_total,
            playlist_title: text_of(self.playlist_title),
        }
    }
}

/// The downloads of a list, each by its model.
pub open spec fn downloads_model(ds: Seq<ActiveDownload>) -> Seq<DownloadModel> {
    ds.map_values(|d: ActiveDownload| d@)
}

/// What the panel holds besides its windows and widgets.
pub struct Panel {
    pub video_folder: String,
    pub audio_folder: String,
    pub url: String,
    pub custom_name: String,
    pub video_container: VideoContainer,
    pub video_quality: VideoQuality,
    pub audio_quality: AudioQuality,
    pub video_codec: VideoCodec,
    pub audio_codec: AudioCodec,
    pub active_downloads: Vec<ActiveDownload>,
    pub next_download_id: u32,
    pub show_platforms: bool,
}

/// The mathematical content of a [`Panel`].
pub struct PanelModel {
    pub video_folder: Seq<char>,
    pub audio_folder: Seq<char>,
    pub url: Seq<char>,
    pub custom_name: Seq<char>,
    pub video_container: VideoContainer,
    pub video_quality: VideoQuality,
    pub audio_quality: AudioQuality,
    pub video_codec: VideoCodec,
    pub audio_codec: AudioCodec,
    pub downloads: Seq<DownloadModel>,
    pub next_download_id: u32,
    pub show_platforms: bool,
}

impl View for Panel {
    type V = PanelModel;

    open spec fn view(&self) -> PanelModel {
        PanelModel {
            video_folder: self.video_folder@,
            audio_folder: self.audio_folder@,
            url: self.url@,
            custom_name: self.custom_name@,
            video_container: self.video_container,
            video_quality: self.video_quality,
            audio_quality: self.audio_quality,
            video_codec: self.video_codec,
            audio_codec: self.audio_codec,
            downloads: downloads_model(self.active_downloads@),
            next_download_id: self.next_download_id,
            show_platforms: self.show_platforms,
        }
    }
}

/// What the user or a running download tells the panel.
pub enum PanelEvent {
    EnterUrl(String),
    EnterCustomName(String),
    /// A folder was chosen; it is the video folder when the video tab is active.
    ProcessSelectFolder { folder: String, video_selected: bool },
    VideoContainerSelected(usize),
    VideoQualitySelected(usize),
    AudioQualitySelected(usize),
    VideoCodecSelected(usize),
    AudioCodecSelected(usize),
    /// The download button was pressed on the video tab or the audio tab.
    Download { video_selected: bool },
    CancelDownload(u32),
    DownloadProgress {
        id: u32,
        percent_bits: u32,
        speed_bits: u64,
        eta_secs: Option<u64>,
        downloaded_bytes: u64,
        total_bytes: u64,
        is_post_processing: bool,
    },
    PlaylistProgress { id: u32, current: u32, total: u32, video_title: String },
    /// The title of the entry a download is fetching became known.
    EntryTitle { id: u32, title: String },
    Finished(u32),
    TogglePlatforms,
}

/// Everything a new download job needs.
pub struct DownloadRequest {
    pub id: u32,
    pub video_selected: bool,
    pub url: String,
    /// The name typed for the file, where it is not blank.
    pub custom_name: Option<String>,
    pub output_dir: String,
    pub video_container_ext: &'static str,
    pub audio_ext: &'static str,
    pub video_quality: VideoQuality,
    pub audio_quality: AudioQuality,
}

/// The mathematical content of a [`DownloadRequest`].
pub struct RequestModel {
    pub id: u32,
    pub video_selected: bool,
    pub url: Seq<char>,
    pub custom_name: Option<Seq<char>>,
    pub output_dir: Seq<char>,
    pub video_container_ext: Seq<char>,
    pub audio_ext: Seq<char>,
    pub video_quality: VideoQuality,
    pub audio_quality: AudioQuality,
}

impl View for DownloadRequest {
    type V = RequestModel;

    open spec fn view(&self) -> RequestModel {
        RequestModel {
            id: self.id,
            video_selected: self.video_selected,
            url: self.url@,
            custom_name: text_of(self.custom_name),
            output_dir: self.output_dir@,
            video_container_ext: self.video_container_ext@,
            audio_ext: self.audio_ext@,
            video_quality: self.video_quality,
            audio_quality: self.audio_quality,
        }
    }
}

/// What the application does after an event.
pub enum PanelEffect {
    Nothing,
    /// Close the popup, or open it where it is closed.
    TogglePopup,
    /// Stop the download job with this id and tell the user it was cancelled.
    Cancel(u32),
    /// Drop the means of cancelling the download job with this id.
    Release(u32),
    /// Start a download job.
    Start(DownloadRequest),
}

/// The mathematical content of a [`PanelEffect`].
pub enum EffectModel {
    Nothing,
    TogglePopup,
    Cancel(u32),
    Release(u32),
    Start(RequestModel),
}

impl View for PanelEffect {
    type V = EffectModel;

    open spec fn view(&self) -> EffectModel {
        match self {
            PanelEffect::Nothing => EffectModel::Nothing,
            PanelEffect::TogglePopup => EffectModel::TogglePopup,
            PanelEffect::Cancel(id) => EffectModel::Cancel(*id),
            PanelEffect::Release(id) => EffectModel::Release(*id),
            PanelEffect::Start(r) => EffectModel::Start(r@),
        }
    }
}

/// The folder a tab starts with: the user's videos or music folder where the
/// system names one, else `~/Videos` or `~/Music`.
pub open spec fn start_folder_of(found: Option<Seq<char>>, video: bool) -> Seq<char> {
    match found {
        Some(f) => f,
        None => if video {
            "~/Videos"@
        } else {
            "~/Music"@
        },
    }
}

/// The folder a tab starts with, given the one the system names, if any.
pub fn start_folder(found: Option<String>, video: bool) -> (f: String)
    ensures
        f@ == start_folder_of(text_of(found), video),
{
    match found {
        Some(f) => f,
        None => if video {
            String::from_str("~/Videos")
        } else {
            String::from_str("~/Music")
        },
    }
}

/// A download that has just started.
pub open spec fn fresh_download(id: u32, is_audio: bool) -> DownloadModel {
    DownloadModel {
        id,
        percent_bits: 0,
        speed_bits: 0,
        eta_secs: None,
        downloaded_bytes: 0,
        total_bytes: 0,
        is_post_processing: false,
        is_audio,
        playlist_current: None,
        playlist_total: None,
        playlist_title: None,
    }
}

/// The downloads of `ds` whose id is not `id`, in their order.
pub open spec fn without_id(ds: Seq<DownloadModel>, id: u32) -> Seq<DownloadModel>
    decreases ds.len(),
{
    if ds.len() == 0 {
        ds
    } else {
        let pre = without_id(ds.drop_last(), id);
        if ds.last().id != id {
            pre.push(ds.last())
        } else {
            pre
        }
    }
}

/// `i` is the first place of `ds` that holds a download with this id.
pub open spec fn is_first_with_id(ds: Seq<DownloadModel>, id: u32, i: int) -> bool {
    0 <= i < ds.len() && ds[i].id == id && forall|j: int| 0 <= j < i ==> ds[j].id != id
}

/// The first place of `ds` that holds a download with this id.
pub open spec fn first_with_id(ds: Seq<DownloadModel>, id: u32) -> Option<int> {
    if exists|i: int| is_first_with_id(ds, id, i) {
        Some(choose|i: int| is_first_with_id(ds, id, i))
    } else {
        None
    }
}

/// `d` after a progress report.
pub open spec fn with_progress(
    d: DownloadModel,
    percent_bits: u32,
    speed_bits: u64,
    eta_secs: Option<u64>,
    downloaded_bytes: u64,
    total_bytes: u64,
    is_post_processing: bool,
) -> DownloadModel {
    DownloadModel {
        percent_bits,
        speed_bits,
        eta_secs,
        downloaded_bytes,
        total_bytes,
        is_post_processing,
        ..d
    }
}

/// `d` when a playlist entry starts: the entry's numbers, its title where it
/// is not empty and no title otherwise (the previous entry's title is never
/// kept), and the progress of the previous entry cleared (the rate is kept).
pub open spec fn with_playlist_entry(
    d: DownloadModel,
    current: u32,
    total: u32,
    title: Seq<char>,
) -> DownloadModel {
    DownloadModel {
        playlist_current: Some(current),
        playlist_total: Some(total),
        playlist_title: if title.len() > 0 {
            Some(title)
        } else {
            None
        },
        percent_bits: 0,
        downloaded_bytes: 0,
        total_bytes: 0,
        eta_secs: None,
        is_post_processing: false,
        ..d
    }
}

/// `d` with the title of the entry it fetches, where the title is not empty.
pub open spec fn with_entry_title(d: DownloadModel, title: Seq<char>) -> DownloadModel {
    DownloadModel {
        playlist_title: if title.len() > 0 {
            Some(title)
        } else {
            d.playlist_title
        },
        ..d
    }
}

/// The option of a dropdown at `idx`, or the current choice where there is none.
pub open spec fn pick<T>(options: Seq<T>, idx: usize, current: T) -> T {
    if idx < options.len() {
        options[idx as int]
    } else {
        current
    }
}

/// The name typed for the file as the job gets it: none when it is blank.
pub open spec fn typed_name(name: Seq<char>) -> Option<Seq<char>> {
    if trim(name).len() == 0 {
        None
    } else {
        Some(name)
    }
}

/// The job that the download button starts.
pub open spec fn request_for(m: PanelModel, video_selected: bool) -> RequestModel {
    RequestModel {
        id: m.next_download_id,
        video_selected,
        url: m.url,
        custom_name: typed_name(m.custom_name),
        output_dir: if video_selected {
            m.video_folder
        } else {
            m.audio_folder
        },
        video_container_ext: video_container_extension(m.video_container),
        audio_ext: audio_codec_extension(m.audio_codec),
        video_quality: m.video_quality,
        audio_quality: m.audio_quality,
    }
}

/// The panel after an event, and what the application must do for it.
pub open spec fn step(m: PanelModel, ev: PanelEvent) -> (PanelModel, EffectModel) {
    match ev {
        PanelEvent::EnterUrl(url) => (PanelModel { url: url@, ..m }, EffectModel::Nothing),
        PanelEvent::EnterCustomName(name) => (
            PanelModel { custom_name: name@, ..m },
            EffectModel::Nothing,
        ),
        PanelEvent::ProcessSelectFolder { folder, video_selected } => (
            if video_selected {
                PanelModel { video_folder: folder@, ..m }
            } else {
                PanelModel { audio_folder: folder@, ..m }
            },
            EffectModel::TogglePopup,
        ),
        PanelEvent::VideoContainerSelected(idx) => (
            PanelModel {
                video_container: pick(video_container_options(), idx, m.video_container),
                ..m
            },
            EffectModel::Nothing,
        ),
        PanelEvent::VideoQualitySelected(idx) => (
            PanelModel { video_quality: pick(video_quality_options(), idx, m.video_quality), ..m },
            EffectModel::Nothing,
        ),
        PanelEvent::AudioQualitySelected(idx) => (
            PanelModel { audio_quality: pick(audio_quality_options(), idx, m.audio_quality), ..m },
            EffectModel::Nothing,
        ),
        PanelEvent::VideoCodecSelected(idx) => (
            PanelModel { video_codec: pick(video_codec_options(), idx, m.video_codec), ..m },
            EffectModel::Nothing,
        ),
        PanelEvent::AudioCodecSelected(idx) => (
            PanelModel { audio_codec: pick(audio_codec_options(), idx, m.audio_codec), ..m },
            EffectModel::Nothing,
        ),
        PanelEvent::Download { video_selected } => (
            PanelModel {
                downloads: m.downloads.push(fresh_download(m.next_download_id, !video_selected)),
                next_download_id: ((m.next_download_id + 1) % 0x1_0000_0000) as u32,
                url: Seq::empty(),
                custom_name: Seq::empty(),
                ..m
            },
            EffectModel::Start(request_for(m, video_selected)),
        ),
        PanelEvent::CancelDownload(id) => (
            PanelModel { downloads: without_id(m.downloads, id), ..m },
            EffectModel::Cancel(id),
        ),
        PanelEvent::DownloadProgress {
            id,
            percent_bits,
            speed_bits,
            eta_secs,
            downloaded_bytes,
            total_bytes,
            is_post_processing,
        } => (
            PanelModel {
                downloads: match first_with_id(m.downloads, id) {
                    Some(i) => m.downloads.update(
                        i,
                        with_progress(
                            m.downloads[i],
                            percent_bits,
                            speed_bits,
                            eta_secs,
                            downloaded_bytes,
                            total_bytes,
                            is_post_processing,
                        ),
                    ),
                    None => m.downloads,
                },
                ..m
            },
            EffectModel::Nothing,
        ),
        PanelEvent::PlaylistProgress { id, current, total, video_title } => (
            PanelModel {
                downloads: match first_with_id(m.downloads, id) {
                    Some(i) => m.downloads.update(
                        i,
                        with_playlist_entry(m.downloads[i], current, total, video_title@),
                    ),
                    None => m.downloads,
                },
                ..m
            },
            EffectModel::Nothing,
        ),
        PanelEvent::EntryTitle { id, title } => (
            PanelModel {
                downloads: match first_with_id(m.downloads, id) {
                    Some(i) => m.downloads.update(i, with_entry_title(m.downloads[i], title@)),
                    None => m.downloads,
                },
                ..m
            },
            EffectModel::Nothing,
        ),
        PanelEvent::Finished(id) => (
            PanelModel { downloads: without_id(m.downloads, id), ..m },
            EffectModel::Release(id),
        ),
        PanelEvent::TogglePlatforms => (
            PanelModel { show_platforms: !m.show_platforms, ..m },
            EffectModel::Nothing,
        ),
    }
}

/// The first download with an id is the one `first_with_id` names.
proof fn lemma_first_with_id(ds: Seq<DownloadModel>, id: u32, i: int)
    requires
        is_first_with_id(ds, id, i),
    ensures
        first_with_id(ds, id) == Some(i),
{
    let j = choose|j: int| is_first_with_id(ds, id, j);
    assert(is_first_with_id(ds, id, j));
    if j < i {
        assert(ds[j].id != id);
    } else if i < j {
        assert(ds[i].id != id);
    }
}

proof fn lemma_downloads_model_push(ds: Seq<ActiveDownload>, d: ActiveDownload)
    ensures
        downloads_model(ds.push(d)) == downloads_model(ds).push(d@),
{
    assert(downloads_model(ds.push(d)) =~= downloads_model(ds).push(d@));
}

impl Panel {
    /// A panel that saves videos to `video_folder` and audio to `audio_folder`,
    /// with every choice at its default and no download running.
    pub fn new(video_folder: String, audio_folder: String) -> (p: Panel)
        ensures
            p@.video_folder == video_folder@,
            p@.audio_folder == audio_folder@,
            p@.url.len() == 0,
            p@.custom_name.len() == 0,
            p@.video_container == VideoContainer::MP4,
            p@.video_quality == VideoQuality::Highest,
            p@.audio_quality == AudioQuality::Best,
            p@.video_codec == VideoCodec::Any,
            p@.audio_codec == AudioCodec::Any,
            p@.downloads.len() == 0,
            p@.next_download_id == 0,
            !p@.show_platforms,
    {
        let p = Panel {
            video_folder,
            audio_folder,
            url: String::new(),
            custom_name: String::new(),
            video_container: VideoContainer::MP4,
            video_quality: VideoQuality::Highest,
            audio_quality: AudioQuality::Best,
            video_codec: VideoCodec::Any,
            audio_codec: AudioCodec::Any,
            active_downloads: Vec::new(),
            next_download_id: 0,
            show_platforms: false,
        };
        assert(p@.downloads =~= Seq::<DownloadModel>::empty());
        p
    }

    /// The first place of the list that holds the download with this id.
    fn position_of(&self, id: u32) -> (r: Option<usize>)
        ensures
            match r {
                Some(i) => first_with_id(self@.downloads, id) == Some(i as int) && i
                    < self.active_downloads@.len(),
                None => first_with_id(self@.downloads, id) is None,
            },
    {
        let ghost ds = self@.downloads;
        let mut i: usize = 0;
        while i < self.active_downloads.len()
            invariant
                ds == self@.downloads,
                ds.len() == self.active_downloads@.len(),
                i <= ds.len(),
                forall|j: int| 0 <= j < i ==> ds[j].id != id,
            decreases self.active_downloads@.len() - i,
        {
            if self.active_downloads[i].id == id {
                proof {
                    assert(ds[i as int].id == id);
                    lemma_first_with_id(ds, id, i as int);
                }
                return Some(i);
            }
            i += 1;
        }
        assert(!exists|j: int| is_first_with_id(ds, id, j));
        None
    }

    /// Drops every download with this id, keeping the others in their order.
    fn drop_downloads(&mut self, id: u32)
        ensures
            final(self)@ == (PanelModel { downloads: without_id(old(self)@.downloads, id), ..old(self)@ }),
    {
        let mut rest: Vec<ActiveDownload> = Vec::new();
        std::mem::swap(&mut rest, &mut self.active_downloads);
        let ghost orig = rest@;
        let ghost om = downloads_model(orig);
        let mut kept: Vec<ActiveDownload> = Vec::new();
        let ghost mut k: int = 0;
        assert(om.subrange(0, 0) =~= Seq::<DownloadModel>::empty());
        assert(downloads_model(kept@) =~= Seq::<DownloadModel>::empty());
        while rest.len() > 0
            invariant
                om == downloads_model(orig),
                0 <= k <= orig.len(),
                rest@ == orig.subrange(k, orig.len() as int),
                downloads_model(kept@) == without_id(om.subrange(0, k), id),
                self.active_downloads@.len() == 0,
                self.video_folder == old(self).video_folder,
                self.audio_folder == old(self).audio_folder,
                self.url == old(self).url,
                self.custom_name == old(self).custom_name,
                self.video_container == old(self).video_container,
                self.video_quality == old(self).video_quality,
                self.audio_quality == old(self).audio_quality,
                self.video_codec == old(self).video_codec,
                self.audio_codec == old(self).audio_codec,
                self.next_download_id == old(self).next_download_id,
                self.show_platforms == old(self).show_platforms,
                orig == old(self).active_downloads@,
            decreases rest@.len(),
        {
            let d = rest.remove(0);
            proof {
                assert(d == orig[k]);
                assert(om.subrange(0, k + 1).drop_last() =~= om.subrange(0, k));
                assert(om.subrange(0, k + 1).last() == d@);
            }
            if d.id != id {
                proof {
                    lemma_downloads_model_push(kept@, d);
                }
                kept.push(d);
            }
            proof {
                k = k + 1;
                assert(rest@ =~= orig.subrange(k, orig.len() as int));
            }
        }
        assert(om.subrange(0, k) =~= om);
        self.active_downloads = kept;
    }

    /// Records a progress report on the first download with this id, if any.
    fn record_progress(
        &mut self,
        id: u32,
        percent_bits: u32,
        speed_bits: u64,
        eta_secs: Option<u64>,
        downloaded_bytes: u64,
        total_bytes: u64,
        is_post_processing: bool,
    )
        ensures
            final(self)@ == (PanelModel {
                downloads: match first_with_id(old(self)@.downloads, id) {
                    Some(i) => old(self)@.downloads.update(
                        i,
                        with_progress(
                            old(self)@.downloads[i],
                            percent_bits,
                            speed_bits,
                            eta_secs,
                            downloaded_bytes,
                            total_bytes,
                            is_post_processing,
                        ),
                    ),
                    None => old(self)@.downloads,
                },
                ..old(self)@
            }),
    {
        if let Some(i) = self.position_of(id) {
            let ghost before = self@.downloads;
            let mut d = self.active_downloads.remove(i);
            d.percent_bits = percent_bits;
            d.speed_bits = speed_bits;
            d.eta_secs = eta_secs;
            d.downloaded_bytes = downloaded_bytes;
            d.total_bytes = total_bytes;
            d.is_post_processing = is_post_processing;
            self.active_downloads.insert(i, d);
            assert(self@.downloads =~= before.update(
                i as int,
                with_progress(
                    before[i as int],
                    percent_bits,
                    speed_bits,
                    eta_secs,
                    downloaded_bytes,
                    total_bytes,
                    is_post_processing,
                ),
            ));
        }
    }

    /// Records the start of a playlist entry on the first download with this id, if any.
    fn record_playlist_entry(&mut self, id: u32, current: u32, total: u32, video_title: String)
        ensures
            final(self)@ == (PanelModel {
                downloads: match first_with_id(old(self)@.downloads, id) {
                    Some(i) => old(self)@.downloads.update(
                        i,
                        with_playlist_entry(old(self)@.downloads[i], current, total, video_title@),
                    ),
                    None => old(self)@.downloads,
                },
                ..old(self)@
            }),
    {
        if let Some(i) = self.position_of(id) {
            let ghost before = self@.downloads;
            let ghost title = video_title@;
            let mut d = self.active_downloads.remove(i);
            d.playlist_current = Some(current);
            d.playlist_total = Some(total);
            d.playlist_title = if video_title.as_str().unicode_len() > 0 {
                Some(video_title)
            } else {
                None
            };
            d.percent_bits = 0;
            d.downloaded_bytes = 0;
            d.total_bytes = 0;
            d.eta_secs = None;
            d.is_post_processing = false;
            self.active_downloads.insert(i, d);
            assert(self@.downloads =~= before.update(
                i as int,
                with_playlist_entry(before[i as int], current, total, title),
            ));
        }
    }

    /// Records the title of the entry fetched by the first download with this id, if any.
    fn record_entry_title(&mut self, id: u32, title: String)
        ensures
            final(self)@ == (PanelModel {
                downloads: match first_with_id(old(self)@.downloads, id) {
                    Some(i) => old(self)@.downloads.update(
                        i,
                        with_entry_title(old(self)@.downloads[i], title@),
                    ),
                    None => old(self)@.downloads,
                },
                ..old(self)@
            }),
    {
        if let Some(i) = self.position_of(id) {
            let ghost before = self@.downloads;
            let ghost t = title@;
            let mut d = self.active_downloads.remove(i);
            if title.as_str().unicode_len() > 0 {
                d.playlist_title = Some(title);
            }
            self.active_downloads.insert(i, d);
            assert(self@.downloads =~= before.update(i as int, with_entry_title(before[i as int], t)));
        }
    }

    /// Applies an event to the panel and says what the application must do.
    pub fn update(&mut self, ev: PanelEvent) -> (eff: PanelEffect)
        ensures
            step(old(self)@, ev) == (final(self)@, eff@),
    {
        match ev {
            PanelEvent::EnterUrl(url) => {
                self.url = url;
                PanelEffect::Nothing
            },
            PanelEvent::EnterCustomName(name) => {
                self.custom_name = name;
                PanelEffect::Nothing
            },
            PanelEvent::ProcessSelectFolder { folder, video_selected } => {
                if video_selected {
                    self.video_folder = folder;
                } else {
                    self.audio_folder = folder;
                }
                PanelEffect::TogglePopup
            },
            PanelEvent::VideoContainerSelected(idx) => {
                if let Some(c) = VideoContainer::option_at(idx) {
                    self.video_container = c;
                }
                PanelEffect::Nothing
            },
            PanelEvent::VideoQualitySelected(idx) => {
                if let Some(q) = VideoQuality::option_at(idx) {
                    self.video_quality = q;
                }
                PanelEffect::Nothing
            },
            PanelEvent::AudioQualitySelected(idx) => {
                if let Some(q) = AudioQuality::option_at(idx) {
                    self.audio_quality = q;
                }
                PanelEffect::Nothing
            },
            PanelEvent::VideoCodecSelected(idx) => {
                if let Some(c) = VideoCodec::option_at(idx) {
                    self.video_codec = c;
                }
                PanelEffect::Nothing
            },
            PanelEvent::AudioCodecSelected(idx) => {
                if let Some(c) = AudioCodec::option_at(idx) {
                    self.audio_codec = c;
                }
                PanelEffect::Nothing
            },
            PanelEvent::Download { video_selected } => {
                let ghost m = self@;
                let download_id = self.next_download_id;
                self.next_download_id = self.next_download_id.wrapping_add(1);
                let fresh = ActiveDownload {
                    id: download_id,
                    percent_bits: 0,
                    speed_bits: 0,
                    eta_secs: None,
                    downloaded_bytes: 0,
                    total_bytes: 0,
                    is_post_processing: false,
                    is_audio: !video_selected,
                    playlist_current: None,
                    playlist_total: None,
                    playlist_title: None,
                };
                proof {
                    lemma_downloads_model_push(self.active_downloads@, fresh);
                }
                self.active_downloads.push(fresh);
                let url = self.url.clone();
                let name_chars = chars_of(self.custom_name.as_str());
                let trimmed = trim_of(&name_chars);
                let custom_name = if trimmed.len() == 0 {
                    None
                } else {
                    Some(self.custom_name.clone())
                };
                self.url = String::new();
                self.custom_name = String::new();
                let output_dir = if video_selected {
                    self.video_folder.clone()
                } else {
                    self.audio_folder.clone()
                };
                let request = DownloadRequest {
                    id: download_id,
                    video_selected,
                    url,
                    custom_name,
                    output_dir,
                    video_container_ext: self.video_container.extension(),
                    audio_ext: self.audio_codec.extension(),
                    video_quality: self.video_quality,
                    audio_quality: self.audio_quality,
                };
                assert(request@ == request_for(m, video_selected));
                PanelEffect::Start(request)
            },
            PanelEvent::CancelDownload(id) => {
                self.drop_downloads(id);
                PanelEffect::Cancel(id)
            },
            PanelEvent::DownloadProgress {
                id,
                percent_bits,
                speed_bits,
                eta_secs,
                downloaded_bytes,
                total_bytes,
                is_post_processing,
            } => {
                self.record_progress(
                    id,
                    percent_bits,
                    speed_bits,
                    eta_secs,
                    downloaded_bytes,
                    total_bytes,
                    is_post_processing,
                );
                PanelEffect::Nothing
            },
            PanelEvent::PlaylistProgress { id, current, total, video_title } => {
                self.record_playlist_entry(id, current, total, video_title);
                PanelEffect::Nothing
            },
            PanelEvent::EntryTitle { id, title } => {
                self.record_entry_title(id, title);
                PanelEffect::Nothing
            },
            PanelEvent::Finished(id) => {
                self.drop_downloads(id);
                PanelEffect::Release(id)
            },
            PanelEvent::TogglePlatforms => {
                self.show_platforms = !self.show_platforms;
                PanelEffect::Nothing
            },
        }
    }
}

/// Every download has an id below the next one handed out, and no two
/// downloads share an id.
pub open spec fn ids_fresh(m: PanelModel) -> bool {
    &&& forall|i: int| 0 <= i < m.downloads.len() ==> (#[trigger] m.downloads[i]).id < m.next_download_id
    &&& forall|i: int, j: int|
        0 <= i < j < m.downloads.len() ==> (#[trigger] m.downloads[i]).id != (#[trigger] m.downloads[j]).id
}

/// A download of `ds` is kept by `without_id` exactly when its id differs,
/// and nothing else is added.
pub proof fn lemma_without_id_members(ds: Seq<DownloadModel>, id: u32)
    ensures
        forall|d: DownloadModel| #[trigger] without_id(ds, id).contains(d) <==> (ds.contains(d) && d.id != id),
        without_id(ds, id).len() <= ds.len(),
    decreases ds.len(),
{
    if ds.len() > 0 {
        let pre = ds.drop_last();
        lemma_without_id_members(pre, id);
        let pw = without_id(pre, id);
        let w = without_id(ds, id);
        assert forall|d: DownloadModel| #[trigger] w.contains(d) <==> (ds.contains(d) && d.id != id) by {
            if ds.contains(d) && d.id != id {
                let k = choose|k: int| 0 <= k < ds.len() && ds[k] == d;
                if k < ds.len() - 1 {
                    assert(pre[k] == d);
                    assert(pre.contains(d));
                    assert(pw.contains(d));
                    let k2 = choose|k2: int| 0 <= k2 < pw.len() && pw[k2] == d;
                    if ds.last().id != id {
                        assert(w[k2] == d);
                    } else {
                        assert(w[k2] == d);
                    }
                    assert(w.contains(d));
                } else {
                    assert(ds.last() == d);
                    assert(w == pw.push(d));
                    assert(w[w.len() - 1] == d);
                    assert(w.contains(d));
                }
            }
            if w.contains(d) {
                let k = choose|k: int| 0 <= k < w.len() && w[k] == d;
                if ds.last().id != id && k == w.len() - 1 {
                    assert(d == ds.last());
                    assert(ds[ds.len() - 1] == d);
                    assert(ds.contains(d));
                } else {
                    assert(pw[k] == d);
                    assert(pw.contains(d));
                    let k2 = choose|k2: int| 0 <= k2 < pre.len() && pre[k2] == d;
                    assert(ds[k2] == d);
                    assert(ds.contains(d));
                }
            }
        }
    }
}

/// Where no download has the id, `without_id` keeps the list as it is.
pub proof fn lemma_without_absent_id(ds: Seq<DownloadModel>, id: u32)
    requires
        forall|i: int| 0 <= i < ds.len() ==> (#[trigger] ds[i]).id != id,
    ensures
        without_id(ds, id) == ds,
    decreases ds.len(),
{
    if ds.len() > 0 {
        let pre = ds.drop_last();
        assert forall|i: int| 0 <= i < pre.len() implies (#[trigger] pre[i]).id != id by {
            assert(pre[i] == ds[i]);
        }
        lemma_without_absent_id(pre, id);
        assert(ds.last() == ds[ds.len() - 1]);
        assert(pre.push(ds.last()) =~= ds);
    }
}

/// Every event keeps the ids of the downloads distinct and below the next id,
/// as long as the next id has not reached `u32::MAX` when a download starts.
pub proof fn lemma_step_keeps_ids_fresh(m: PanelModel, ev: PanelEvent)
    requires
        ids_fresh(m),
        ev is Download ==> m.next_download_id < u32::MAX,
    ensures
        ids_fresh(step(m, ev).0),
{
    let post = step(m, ev).0;
    match ev {
        PanelEvent::Download { video_selected } => {
            let ds = post.downloads;
            assert(ds.len() == m.downloads.len() + 1);
            assert forall|i: int| 0 <= i < ds.len() implies (#[trigger] ds[i]).id < post.next_download_id by {
                if i < m.downloads.len() {
                    assert(ds[i] == m.downloads[i]);
                }
            }
            assert forall|i: int, j: int| 0 <= i < j < ds.len() implies (#[trigger] ds[i]).id != (
            #[trigger] ds[j]).id by {
                assert(ds[i] == m.downloads[i]);
                if j < m.downloads.len() {
                    assert(ds[j] == m.downloads[j]);
                }
            }
        },
        PanelEvent::CancelDownload(id) => {
            lemma_without_id_fresh(m, id);
        },
        PanelEvent::Finished(id) => {
            lemma_without_id_fresh(m, id);
        },
        PanelEvent::DownloadProgress { id, .. } => {
            lemma_update_keeps_ids(m, id, post.downloads);
        },
        PanelEvent::PlaylistProgress { id, .. } => {
            lemma_update_keeps_ids(m, id, post.downloads);
        },
        PanelEvent::EntryTitle { id, .. } => {
            lemma_update_keeps_ids(m, id, post.downloads);
        },
        _ => {},
    }
}

proof fn lemma_update_keeps_ids(m: PanelModel, id: u32, ds: Seq<DownloadModel>)
    requires
        ids_fresh(m),
        ds.len() == m.downloads.len(),
        forall|i: int| 0 <= i < ds.len() ==> (#[trigger] ds[i]).id == m.downloads[i].id,
    ensures
        ids_fresh(PanelModel { downloads: ds, ..m }),
{
    assert forall|i: int, j: int| 0 <= i < j < ds.len() implies (#[trigger] ds[i]).id != (
    #[trigger] ds[j]).id by {
        assert(m.downloads[i].id != m.downloads[j].id);
    }
}

proof fn lemma_without_id_fresh(m: PanelModel, id: u32)
    requires
        ids_fresh(m),
    ensures
        ids_fresh(PanelModel { downloads: without_id(m.downloads, id), ..m }),
    decreases m.downloads.len(),
{
    let ds = m.downloads;
    if ds.len() > 0 {
        let pm = PanelModel { downloads: ds.drop_last(), ..m };
        assert forall|i: int, j: int| 0 <= i < j < pm.downloads.len() implies (#[trigger] pm.downloads[i]).id != (
        #[trigger] pm.downloads[j]).id by {
            assert(ds[i].id != ds[j].id);
        }
        assert forall|i: int| 0 <= i < pm.downloads.len() implies (#[trigger] pm.downloads[i]).id < m.next_download_id by {
            assert(pm.downloads[i] == ds[i]);
        }
        lemma_without_id_fresh(pm, id);
        let pre = without_id(ds.drop_last(), id);
        lemma_without_id_members(ds.drop_last(), id);
        if ds.last().id != id {
            let w = pre.push(ds.last());
            assert(ds.last() == ds[ds.len() - 1]);
            assert forall|i: int, j: int| 0 <= i < j < w.len() implies (#[trigger] w[i]).id != (
            #[trigger] w[j]).id by {
                if j == w.len() - 1 {
                    assert(pre.contains(w[i]));
                    let k = choose|k: int| 0 <= k < ds.drop_last().len() && ds.drop_last()[k] == w[i];
                    assert(ds[k] == w[i]);
                } else {
                    assert(w[i] == pre[i] && w[j] == pre[j]);
                }
            }
            assert forall|i: int| 0 <= i < w.len() implies (#[trigger] w[i]).id < m.next_download_id by {
                if i < pre.len() {
                    assert(w[i] == pre[i]);
                }
            }
        }
    }
}

/// Cancelling or finishing a download leaves no download with its id, and
/// every other download stays.
pub proof fn lemma_removal_is_exact(m: PanelModel, id: u32, d: DownloadModel)
    ensures
        step(m, PanelEvent::Finished(id)).0.downloads.contains(d) <==> (m.downloads.contains(d) && d.id
            != id),
        step(m, PanelEvent::CancelDownload(id)).0.downloads.contains(d) <==> (m.downloads.contains(d)
            && d.id != id),
{
    lemma_without_id_members(m.downloads, id);
}

/// A progress report for an id that no download has changes nothing.
pub proof fn lemma_progress_for_unknown_id(
    m: PanelModel,
    id: u32,
    percent_bits: u32,
    speed_bits: u64,
    eta_secs: Option<u64>,
    downloaded_bytes: u64,
    total_bytes: u64,
    is_post_processing: bool,
)
    requires
        forall|i: int| 0 <= i < m.downloads.len() ==> (#[trigger] m.downloads[i]).id != id,
    ensures
        step(
            m,
            PanelEvent::DownloadProgress {
                id,
                percent_bits,
                speed_bits,
                eta_secs,
                downloaded_bytes,
                total_bytes,
                is_post_processing,
            },
        ).0 == m,
{
    assert(!exists|i: int| is_first_with_id(m.downloads, id, i));
    assert(step(
        m,
        PanelEvent::DownloadProgress {
            id,
            percent_bits,
            speed_bits,
            eta_secs,
            downloaded_bytes,
            total_bytes,
            is_post_processing,
        },
    ).0 =~= m);
}

/// A new download gets an id that no running download has, and finishing it
/// right away gives back the list of downloads as it was.
pub proof fn lemma_finish_undoes_download(m: PanelModel, video_selected: bool)
    requires
        ids_fresh(m),
    ensures
        ({
            let (post, eff) = step(m, PanelEvent::Download { video_selected });
            &&& eff matches EffectModel::Start(r) && r.id == m.next_download_id
            &&& forall|i: int| 0 <= i < m.downloads.len() ==> (#[trigger] m.downloads[i]).id != m.next_download_id
            &&& step(post, PanelEvent::Finished(m.next_download_id)).0.downloads == m.downloads
        }),
{
    let post = step(m, PanelEvent::Download { video_selected }).0;
    let ds = post.downloads;
    let id = m.next_download_id;
    assert(ds.drop_last() =~= m.downloads);
    assert(ds.last().id == id);
    lemma_without_absent_id(m.downloads, id);
}

/// Picking the entry of a dropdown that shows the current choice keeps it.
pub proof fn lemma_pick_current_entry(m: PanelModel)
    ensures
        step(m, PanelEvent::VideoQualitySelected(crate::formats::video_quality_index(m.video_quality) as usize)).0
            == m,
        step(m, PanelEvent::AudioQualitySelected(crate::formats::audio_quality_index(m.audio_quality) as usize)).0
            == m,
        step(m, PanelEvent::VideoCodecSelected(crate::formats::video_codec_index(m.video_codec) as usize)).0
            == m,
        step(m, PanelEvent::AudioCodecSelected(crate::formats::audio_codec_index(m.audio_codec) as usize)).0
            == m,
        step(
            m,
            PanelEvent::VideoContainerSelected(
                crate::formats::video_container_index(m.video_container) as usize,
            ),
        ).0 == m,
{
    assert(step(m, PanelEvent::VideoQualitySelected(crate::formats::video_quality_index(m.video_quality) as usize)).0
        =~= m);
    assert(step(m, PanelEvent::AudioQualitySelected(crate::formats::audio_quality_index(m.audio_quality) as usize)).0
        =~= m);
    assert(step(m, PanelEvent::VideoCodecSelected(crate::formats::video_codec_index(m.video_codec) as usize)).0
        =~= m);
    assert(step(m, PanelEvent::AudioCodecSelected(crate::formats::audio_codec_index(m.audio_codec) as usize)).0
        =~= m);
    assert(step(
        m,
        PanelEvent::VideoContainerSelected(crate::formats::video_container_index(m.video_container) as usize),
    ).0 =~= m);
}

/// The ids of the downloads of a list.
pub open spec fn download_ids(ds: Seq<DownloadModel>) -> Set<u32> {
    Set::new(|id: u32| exists|i: int| 0 <= i < ds.len() && (#[trigger] ds[i]).id == id)
}

/// The ids whose jobs the application can cancel, after it carries out an
/// effect: it keeps a means of cancelling each job it starts, fires and drops
/// it on `Cancel`, and drops it on `Release`.
pub open spec fn cancel_ids_after(ids: Set<u32>, eff: EffectModel) -> Set<u32> {
    match eff {
        EffectModel::Start(r) => ids.insert(r.id),
        EffectModel::Cancel(id) => ids.remove(id),
        EffectModel::Release(id) => ids.remove(id),
        _ => ids,
    }
}

proof fn lemma_download_ids_without(ds: Seq<DownloadModel>, id: u32)
    ensures
        download_ids(without_id(ds, id)) == download_ids(ds).remove(id),
{
    lemma_without_id_members(ds, id);
    let w = without_id(ds, id);
    assert forall|x: u32| #[trigger] download_ids(w).contains(x) <==> download_ids(ds).remove(id).contains(x) by {
        if download_ids(w).contains(x) {
            let i = choose|i: int| 0 <= i < w.len() && (#[trigger] w[i]).id == x;
            assert(w.contains(w[i]));
            let j = choose|j: int| 0 <= j < ds.len() && ds[j] == w[i];
            assert(ds[j].id == x);
        }
        if download_ids(ds).remove(id).contains(x) {
            let j = choose|j: int| 0 <= j < ds.len() && (#[trigger] ds[j]).id == x;
            assert(ds.contains(ds[j]));
            assert(w.contains(ds[j]));
            let i = choose|i: int| 0 <= i < w.len() && w[i] == ds[j];
            assert(w[i].id == x);
        }
    }
    assert(download_ids(w) =~= download_ids(ds).remove(id));
}

proof fn lemma_download_ids_same_ids(a: Seq<DownloadModel>, b: Seq<DownloadModel>)
    requires
        a.len() == b.len(),
        forall|i: int| 0 <= i < a.len() ==> (#[trigger] a[i]).id == b[i].id,
    ensures
        download_ids(a) == download_ids(b),
{
    assert forall|x: u32| #[trigger] download_ids(a).contains(x) <==> download_ids(b).contains(x) by {
        if download_ids(a).contains(x) {
            let i = choose|i: int| 0 <= i < a.len() && (#[trigger] a[i]).id == x;
            assert(b[i].id == x);
        }
        if download_ids(b).contains(x) {
            let i = choose|i: int| 0 <= i < b.len() && (#[trigger] b[i]).id == x;
            assert(a[i].id == x);
        }
    }
    assert(download_ids(a) =~= download_ids(b));
}

/// The jobs the application can cancel are exactly the downloads the panel
/// shows: a new panel shows none, and where the two agree before an event,
/// carrying out the event's effect keeps them in agreement.
pub proof fn lemma_cancel_ids_track_downloads(m: PanelModel, ev: PanelEvent, ids: Set<u32>)
    requires
        ids == download_ids(m.downloads),
    ensures
        download_ids(Seq::<DownloadModel>::empty()) == Set::<u32>::empty(),
        cancel_ids_after(ids, step(m, ev).1) == download_ids(step(m, ev).0.downloads),
{
    assert(download_ids(Seq::<DownloadModel>::empty()) =~= Set::<u32>::empty());
    let (post, eff) = step(m, ev);
    let ds = m.downloads;
    match ev {
        PanelEvent::Download { video_selected } => {
            let n = m.next_download_id;
            let p = post.downloads;
            assert forall|x: u32| #[trigger] download_ids(p).contains(x) <==> ids.insert(n).contains(x) by {
                if download_ids(p).contains(x) {
                    let i = choose|i: int| 0 <= i < p.len() && (#[trigger] p[i]).id == x;
                    if i < ds.len() {
                        assert(p[i] == ds[i]);
                    }
                }
                if ids.contains(x) {
                    let i = choose|i: int| 0 <= i < ds.len() && (#[trigger] ds[i]).id == x;
                    assert(p[i] == ds[i]);
                }
                if x == n {
                    assert(p[ds.len() as int].id == n);
                }
            }
            assert(download_ids(p) =~= ids.insert(n));
        },
        PanelEvent::CancelDownload(id) => {
            lemma_download_ids_without(ds, id);
        },
        PanelEvent::Finished(id) => {
            lemma_download_ids_without(ds, id);
        },
        PanelEvent::DownloadProgress { id, .. } => {
            lemma_download_ids_same_ids(post.downloads, ds);
        },
        PanelEvent::PlaylistProgress { id, .. } => {
            lemma_download_ids_same_ids(post.downloads, ds);
        },
        PanelEvent::EntryTitle { id, .. } => {
            lemma_download_ids_same_ids(post.downloads, ds);
        },
        _ => {},
    }
}

/// The title shown for the download with this id: none when an entry starts
/// without one, the title of the entry once it becomes known, and unchanged
/// by progress reports. So the row never names an entry that came before.
pub proof fn lemma_playlist_title(
    m: PanelModel,
    id: u32,
    i: int,
    current: u32,
    total: u32,
    title: String,
    percent_bits: u32,
    speed_bits: u64,
    eta_secs: Option<u64>,
    downloaded_bytes: u64,
    total_bytes: u64,
    is_post_processing: bool,
)
    requires
        first_with_id(m.downloads, id) == Some(i),
    ensures
        0 <= i < m.downloads.len(),
        step(m, PanelEvent::PlaylistProgress { id, current, total, video_title: title }).0.downloads[i].playlist_title
            == (if title@.len() > 0 {
            Some(title@)
        } else {
            None
        }),
        title@.len() > 0 ==> step(m, PanelEvent::EntryTitle { id, title }).0.downloads[i].playlist_title
            == Some(title@),
        step(
            m,
            PanelEvent::DownloadProgress {
                id,
                percent_bits,
                speed_bits,
                eta_secs,
                downloaded_bytes,
                total_bytes,
                is_post_processing,
            },
        ).0.downloads[i].playlist_title == m.downloads[i].playlist_title,
{
    let ds = m.downloads;
    assert(exists|j: int| is_first_with_id(ds, id, j));
    assert(is_first_with_id(ds, id, i));
    let pl = step(m, PanelEvent::PlaylistProgress { id, current, total, video_title: title }).0;
    assert(pl.downloads == ds.update(i, with_playlist_entry(ds[i], current, total, title@)));
    let et = step(m, PanelEvent::EntryTitle { id, title }).0;
    assert(et.downloads == ds.update(i, with_entry_title(ds[i], title@)));
    let pr = step(
        m,
        PanelEvent::DownloadProgress {
            id,
            percent_bits,
            speed_bits,
            eta_secs,
            downloaded_bytes,
            total_bytes,
            is_post_processing,
        },
    ).0;
    assert(pr.downloads == ds.update(
        i,
        with_progress(
            ds[i],
            percent_bits,
            speed_bits,
            eta_secs,
            downloaded_bytes,
            total_bytes,
            is_post_processing,
        ),
    ));
}

/// A progress report reaches the first download with its id and no other:
/// that download takes every reported figure (share, rate, time left, bytes
/// received, total size and whether yt-dlp is post-processing) and keeps its
/// id, kind and playlist entry; every other download, the order of the list
/// and the rest of the panel stay as they were, and nothing is asked of the
/// application.
pub proof fn lemma_progress_is_recorded(
    m: PanelModel,
    id: u32,
    i: int,
    percent_bits: u32,
    speed_bits: u64,
    eta_secs: Option<u64>,
    downloaded_bytes: u64,
    total_bytes: u64,
    is_post_processing: bool,
)
    requires
        0 <= i < m.downloads.len(),
        m.downloads[i].id == id,
        forall|j: int| 0 <= j < i ==> (#[trigger] m.downloads[j]).id != id,
    ensures
        ({
            let (post, eff) = step(
                m,
                PanelEvent::DownloadProgress {
                    id,
                    percent_bits,
                    speed_bits,
                    eta_secs,
                    downloaded_bytes,
                    total_bytes,
                    is_post_processing,
                },
            );
            let old_d = m.downloads[i];
            let d = post.downloads[i];
            &&& eff == EffectModel::Nothing
            &&& post.downloads.len() == m.downloads.len()
            &&& d.percent_bits == percent_bits
            &&& d.speed_bits == speed_bits
            &&& d.eta_secs == eta_secs
            &&& d.downloaded_bytes == downloaded_bytes
            &&& d.total_bytes == total_bytes
            &&& d.is_post_processing == is_post_processing
            &&& d.id == old_d.id && d.is_audio == old_d.is_audio
            &&& d.playlist_current == old_d.playlist_current
            &&& d.playlist_total == old_d.playlist_total
            &&& d.playlist_title == old_d.playlist_title
            &&& forall|j: int| 0 <= j < m.downloads.len() && j != i ==> post.downloads[j] == m.downloads[j]
            &&& post == PanelModel { downloads: post.downloads, ..m }
        }),
{
    let ds = m.downloads;
    assert(is_first_with_id(ds, id, i));
    let k = choose|k: int| is_first_with_id(ds, id, k);
    assert(is_first_with_id(ds, id, k));
    assert(k == i) by {
        if k < i {
            assert(ds[k].id != id);
        } else if k > i {
            assert(ds[i].id != id);
        }
    }
}

} // verus!
