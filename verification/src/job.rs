//! The download job: the command lines handed to yt-dlp, the title shown for a
//! download, and the files a finished or cancelled job leaves behind.
use vstd::prelude::*;
use vstd::string::StringExecFns;

use crate::formats::{AudioQuality, VideoQuality};
use crate::text::{
    chars_of, concat, contains, ends_with, ends_with_exec, find_in, is_ws, lemma_trim_shortens,
    lemma_trim_start_ws_prefix, lemma_trim_surrounded, same_text, starts_with, starts_with_exec,
    string_of, trim, trim_of,
};
use crate::panel::typed_name;

verus! {

/// The texts of a list of strings.
pub open spec fn texts(v: Seq<String>) -> Seq<Seq<char>> {
    v.map_values(|s: String| s@)
}

/// Appends `s` to a list of arguments.
fn push_arg(args: &mut Vec<String>, s: &str)
    ensures
        texts(final(args)@) == texts(old(args)@).push(s@),
{
    let a = String::from_str(s);
    args.push(a);
    assert(texts(args@) =~= texts(old(args)@).push(s@));
}

/// The address names a playlist.
pub open spec fn is_playlist_url(url: Seq<char>) -> bool {
    contains(url, "list="@) || contains(url, "/playlist"@)
}

/// Whether the address names a playlist: it holds `list=` or `/playlist`.
pub fn detect_playlist(url: &str) -> (b: bool)
    ensures
        b == is_playlist_url(url@),
{
    let u = chars_of(url);
    let a = chars_of("list=");
    let b = chars_of("/playlist");
    find_in(&u, &a).is_some() || find_in(&u, &b).is_some()
}

/// The arguments that make yt-dlp print the title of the video at `url`.
pub open spec fn title_query_args_of(url: Seq<char>) -> Seq<Seq<char>> {
    seq!["--print"@, "%(title)s"@, "--no-warnings"@, "--no-playlist"@, url]
}

/// The arguments that make yt-dlp print the title of the video at `url`.
pub fn title_query_args(url: &str) -> (args: Vec<String>)
    ensures
        texts(args@) == title_query_args_of(url@),
{
    let mut args: Vec<String> = Vec::new();
    push_arg(&mut args, "--print");
    push_arg(&mut args, "%(title)s");
    push_arg(&mut args, "--no-warnings");
    push_arg(&mut args, "--no-playlist");
    push_arg(&mut args, url);
    assert(texts(args@) =~= title_query_args_of(url@));
    args
}

/// The title shown for a download: the name typed for it; else the title that
/// yt-dlp printed, trimmed, where that is not blank; else `Download`.
pub open spec fn display_title_of(custom: Option<Seq<char>>, printed: Option<Seq<char>>) -> Seq<char> {
    match custom {
        Some(c) => c,
        None => match printed {
            Some(p) => if trim(p).len() > 0 {
                trim(p)
            } else {
                "Download"@
            },
            None => "Download"@,
        },
    }
}

/// The title shown for a download, from the name typed for it and the output
/// of the title query, where it was valid UTF-8.
pub fn display_title(custom_name: &Option<String>, printed: Option<String>) -> (t: String)
    ensures
        t@ == display_title_of(
            match custom_name {
                Some(c) => Some(c@),
                None => None,
            },
            match printed {
                Some(p) => Some(p@),
                None => None,
            },
        ),
{
    match custom_name {
        Some(c) => c.clone(),
        None => match printed {
            Some(p) => {
                let chars = chars_of(p.as_str());
                let t = trim_of(&chars);
                if t.len() > 0 {
                    string_of(&t)
                } else {
                    String::from_str("Download")
                }
            },
            None => String::from_str("Download"),
        },
    }
}

/// The output template: `<dir>/<name>.%(ext)s` for a typed name that is not
/// blank, trimmed; else `<dir>/%(title)s.%(ext)s`.
pub open spec fn output_template_of(custom: Option<Seq<char>>, dir: Seq<char>) -> Seq<char> {
    match custom {
        Some(name) => if trim(name).len() > 0 {
            dir + "/"@ + trim(name) + ".%(ext)s"@
        } else {
            dir + "/%(title)s.%(ext)s"@
        },
        None => dir + "/%(title)s.%(ext)s"@,
    }
}

/// The output template handed to yt-dlp with `-o`.
pub fn output_template(custom_name: &Option<String>, output_dir: &str) -> (t: String)
    ensures
        t@ == output_template_of(
            match custom_name {
                Some(c) => Some(c@),
                None => None,
            },
            output_dir@,
        ),
{
    let dir = chars_of(output_dir);
    let default_tail = chars_of("/%(title)s.%(ext)s");
    match custom_name {
        Some(name) => {
            let chars = chars_of(name.as_str());
            let trimmed = trim_of(&chars);
            if trimmed.len() > 0 {
                let slash = chars_of("/");
                let ext = chars_of(".%(ext)s");
                let a = concat(&dir, &slash);
                let b = concat(&a, &trimmed);
                let c = concat(&b, &ext);
                string_of(&c)
            } else {
                let c = concat(&dir, &default_tail);
                string_of(&c)
            }
        },
        None => {
            let c = concat(&dir, &default_tail);
            string_of(&c)
        },
    }
}

/// yt-dlp's format filter for a video quality.
pub open spec fn format_filter_of(q: VideoQuality) -> Seq<char> {
    match q {
        VideoQuality::Highest => "bestvideo+bestaudio/best"@,
        VideoQuality::FHD => "bestvideo[height<=1080]+bestaudio/best[height<=1080]/best"@,
        VideoQuality::HD => "bestvideo[height<=720]+bestaudio/best[height<=720]/best"@,
        VideoQuality::SD => "bestvideo[height<=480]+bestaudio/best[height<=480]/best"@,
        VideoQuality::Lowest => "worstvideo+worstaudio/worst"@,
    }
}

/// yt-dlp's format filter for a video quality.
pub fn format_filter(q: VideoQuality) -> (s: &'static str)
    ensures
        s@ == format_filter_of(q),
{
    match q {
        VideoQuality::Highest => "bestvideo+bestaudio/best",
        VideoQuality::FHD => "bestvideo[height<=1080]+bestaudio/best[height<=1080]/best",
        VideoQuality::HD => "bestvideo[height<=720]+bestaudio/best[height<=720]/best",
        VideoQuality::SD => "bestvideo[height<=480]+bestaudio/best[height<=480]/best",
        VideoQuality::Lowest => "worstvideo+worstaudio/worst",
    }
}

/// yt-dlp's `--audio-quality` value (0 best, 9 worst) for an audio quality.
pub open spec fn audio_quality_arg_of(q: AudioQuality) -> Seq<char> {
    match q {
        AudioQuality::Best => "0"@,
        AudioQuality::High => "2"@,
        AudioQuality::Medium => "5"@,
        AudioQuality::Low => "7"@,
        AudioQuality::Worst => "9"@,
    }
}

/// yt-dlp's `--audio-quality` value for an audio quality.
pub fn audio_quality_arg(q: AudioQuality) -> (s: &'static str)
    ensures
        s@ == audio_quality_arg_of(q),
{
    match q {
        AudioQuality::Best => "0",
        AudioQuality::High => "2",
        AudioQuality::Medium => "5",
        AudioQuality::Low => "7",
        AudioQuality::Worst => "9",
    }
}

/// The arguments that fix the container of a video: only for `mp4`, `mkv`
/// and `webm`.
pub open spec fn container_args_of(ext: Seq<char>) -> Seq<Seq<char>> {
    if ext == "mp4"@ || ext == "mkv"@ || ext == "webm"@ {
        seq!["--merge-output-format"@, ext, "--remux-video"@, ext]
    } else {
        Seq::empty()
    }
}

/// The YouTube player clients a download asks for, which avoid YouTube's
/// SABR-only streams.
pub open spec fn player_clients_arg() -> Seq<char> {
    "youtube:player_client=default,web_embedded,ios"@
}

/// The arguments of a download: where ffmpeg is, line-by-line progress, no
/// file times, the YouTube player clients, the output template, the playlist switch, then the format
/// filter and container for a video or the audio extraction settings for
/// audio, and last the address.
pub open spec fn download_args_of(
    ffmpeg: Seq<char>,
    template: Seq<char>,
    url: Seq<char>,
    video_selected: bool,
    container_ext: Seq<char>,
    audio_ext: Seq<char>,
    video_quality: VideoQuality,
    audio_quality: AudioQuality,
) -> Seq<Seq<char>> {
    let base = seq![
        "--ffmpeg-location"@,
        ffmpeg,
        "--newline"@,
        "--progress"@,
        "--no-mtime"@,
        "--extractor-args"@,
        player_clients_arg(),
        "-o"@,
        template,
        if is_playlist_url(url) {
            "--yes-playlist"@
        } else {
            "--no-playlist"@
        },
    ];
    let mode = if video_selected {
        seq!["-f"@, format_filter_of(video_quality)] + container_args_of(container_ext)
    } else {
        seq!["-x"@, "--audio-format"@, audio_ext, "--audio-quality"@, audio_quality_arg_of(audio_quality)]
    };
    base + mode + seq![url]
}

/// The arguments that run a download in yt-dlp.
pub fn download_args(
    ffmpeg_location: &str,
    template: &str,
    url: &str,
    video_selected: bool,
    container_ext: &str,
    audio_ext: &str,
    video_quality: VideoQuality,
    audio_quality: AudioQuality,
) -> (args: Vec<String>)
    ensures
        texts(args@) == download_args_of(
            ffmpeg_location@,
            template@,
            url@,
            video_selected,
            container_ext@,
            audio_ext@,
            video_quality,
            audio_quality,
        ),
{
    let mut args: Vec<String> = Vec::new();
    push_arg(&mut args, "--ffmpeg-location");
    push_arg(&mut args, ffmpeg_location);
    push_arg(&mut args, "--newline");
    push_arg(&mut args, "--progress");
    push_arg(&mut args, "--no-mtime");
    push_arg(&mut args, "--extractor-args");
    push_arg(&mut args, "youtube:player_client=default,web_embedded,ios");
    push_arg(&mut args, "-o");
    push_arg(&mut args, template);
    if detect_playlist(url) {
        push_arg(&mut args, "--yes-playlist");
    } else {
        push_arg(&mut args, "--no-playlist");
    }
    if video_selected {
        push_arg(&mut args, "-f");
        push_arg(&mut args, format_filter(video_quality));
        if same_text(container_ext, "mp4") || same_text(container_ext, "mkv") || same_text(
            container_ext,
            "webm",
        ) {
            push_arg(&mut args, "--merge-output-format");
            push_arg(&mut args, container_ext);
            push_arg(&mut args, "--remux-video");
            push_arg(&mut args, container_ext);
        }
    } else {
        push_arg(&mut args, "-x");
        push_arg(&mut args, "--audio-format");
        push_arg(&mut args, audio_ext);
        push_arg(&mut args, "--audio-quality");
        push_arg(&mut args, audio_quality_arg(audio_quality));
    }
    push_arg(&mut args, url);
    assert(texts(args@) =~= download_args_of(
        ffmpeg_location@,
        template@,
        url@,
        video_selected,
        container_ext@,
        audio_ext@,
        video_quality,
        audio_quality,
    ));
    args
}

/// A file that a download leaves behind and that is removed afterwards: an
/// empty file, a `.part` or `.ytdl` file, or a `temp_video_` or `temp_audio_` file.
pub open spec fn is_leftover_of(len: u64, name: Seq<char>) -> bool {
    len == 0 || ends_with(name, ".part"@) || ends_with(name, ".ytdl"@) || starts_with(
        name,
        "temp_video_"@,
    ) || starts_with(name, "temp_audio_"@)
}

/// Whether a regular file of `len` bytes named `name` is left over from a download.
pub fn is_leftover_file(len: u64, name: &str) -> (b: bool)
    ensures
        b == is_leftover_of(len, name@),
{
    let n = chars_of(name);
    let part = chars_of(".part");
    let ytdl = chars_of(".ytdl");
    let tv = chars_of("temp_video_");
    let ta = chars_of("temp_audio_");
    len == 0 || ends_with_exec(&n, &part) || ends_with_exec(&n, &ytdl) || starts_with_exec(&n, &tv)
        || starts_with_exec(&n, &ta)
}

/// The title to show for the entry that a `Destination` line names: the title
/// the file is saved under, unless a file name was typed, since then every
/// entry is saved under that name and the file tells nothing of the entry.
pub open spec fn entry_title_of(custom: Option<Seq<char>>, saved: Seq<char>) -> Option<Seq<char>> {
    match custom {
        Some(_) => None,
        None => Some(saved),
    }
}

/// The title to show for the entry saved under `saved`, given the name typed
/// for the download.
pub fn entry_title(custom_name: &Option<String>, saved: String) -> (t: Option<String>)
    ensures
        match t {
            Some(s) => entry_title_of(
                match custom_name {
                    Some(c) => Some(c@),
                    None => None,
                },
                saved@,
            ) == Some(s@),
            None => entry_title_of(
                match custom_name {
                    Some(c) => Some(c@),
                    None => None,
                },
                saved@,
            ) is None,
        },
{
    match custom_name {
        Some(_) => None,
        None => Some(saved),
    }
}

/// What the user is told about a download.
#[derive(Debug, PartialEq, Eq, Structural, Clone, Copy)]
pub enum Notice {
    /// The download started.
    Started,
    /// The download finished.
    Finished,
    /// The download failed; yt-dlp is being updated and the user may retry.
    FailedRetry,
}

/// The id of the message text of a notice.
pub open spec fn notice_message_of(n: Notice) -> Seq<char> {
    match n {
        Notice::Started => "download-started"@,
        Notice::Finished => "finished-download"@,
        Notice::FailedRetry => "download-failed"@,
    }
}

impl Notice {
    /// The id of the message text of this notice.
    pub fn message_id(&self) -> (s: &'static str)
        ensures
            s@ == notice_message_of(*self),
    {
        match self {
            Notice::Started => "download-started",
            Notice::Finished => "finished-download",
            Notice::FailedRetry => "download-failed",
        }
    }
}

/// What follows the end of a download job: the notice shown, and whether
/// yt-dlp updates itself because the download failed.
pub struct JobEnd {
    pub notice: Notice,
    pub update_ytdlp: bool,
}

/// The end of a download job that succeeded or not: a finished notice after
/// a success; after a failure, an update of yt-dlp and a notice to retry.
pub fn job_end(succeeded: bool) -> (e: JobEnd)
    ensures
        e.notice == (if succeeded {
            Notice::Finished
        } else {
            Notice::FailedRetry
        }),
        e.update_ytdlp == !succeeded,
{
    if succeeded {
        JobEnd { notice: Notice::Finished, update_ytdlp: false }
    } else {
        JobEnd { notice: Notice::FailedRetry, update_ytdlp: true }
    }
}

/// The address is always the last argument; the player clients follow
/// `--extractor-args` and the output template follows `-o`; the playlist switch matches the address; a video download carries
/// its format filter and an audio download extracts the audio with the
/// chosen format and quality.
pub proof fn lemma_download_args_shape(
    ffmpeg: Seq<char>,
    template: Seq<char>,
    url: Seq<char>,
    video_selected: bool,
    container_ext: Seq<char>,
    audio_ext: Seq<char>,
    video_quality: VideoQuality,
    audio_quality: AudioQuality,
)
    ensures
        ({
            let a = download_args_of(
                ffmpeg,
                template,
                url,
                video_selected,
                container_ext,
                audio_ext,
                video_quality,
                audio_quality,
            );
            &&& a.last() == url
            &&& a[0] == "--ffmpeg-location"@ && a[1] == ffmpeg
            &&& a[2] == "--newline"@ && a[3] == "--progress"@ && a[4] == "--no-mtime"@
            &&& a[5] == "--extractor-args"@ && a[6] == player_clients_arg()
            &&& a[7] == "-o"@ && a[8] == template
            &&& a[9] == if is_playlist_url(url) {
                "--yes-playlist"@
            } else {
                "--no-playlist"@
            }
            &&& video_selected ==> a[10] == "-f"@ && a[11] == format_filter_of(video_quality)
            &&& !video_selected ==> a.len() == 16 && a[10] == "-x"@ && a[11] == "--audio-format"@
                && a[12] == audio_ext && a[13] == "--audio-quality"@ && a[14]
                == audio_quality_arg_of(audio_quality)
        }),
{
}

/// A download started from the panel always has a title to show: the name
/// typed for it is passed on only when it is not blank.
pub proof fn lemma_display_title_not_blank(name: Seq<char>, printed: Option<Seq<char>>)
    ensures
        display_title_of(typed_name(name), printed).len() > 0,
{
    reveal_strlit("Download");
    lemma_trim_shortens(name);
}

/// The output template always puts the file in the chosen directory and
/// lets yt-dlp add the extension.
pub proof fn lemma_output_template_shape(custom: Option<Seq<char>>, dir: Seq<char>)
    ensures
        starts_with(output_template_of(custom, dir), dir + "/"@),
        ends_with(output_template_of(custom, dir), ".%(ext)s"@),
{
    reveal_strlit("/");
    reveal_strlit(".%(ext)s");
    reveal_strlit("/%(title)s.%(ext)s");
    let t = output_template_of(custom, dir);
    let n: int = dir.len() as int;
    assert(t.subrange(0, n + 1) =~= dir + "/"@);
    assert(t.subrange(t.len() - 8, t.len() as int) =~= ".%(ext)s"@);
}

/// A typed name is kept whole in the template: whatever whitespace surrounds
/// it is dropped, and everything between its first and last visible
/// characters, inner spaces included, stands between the slash after the
/// folder and the extension. A name made only of whitespace counts as none.
pub proof fn lemma_output_template_keeps_typed_name(
    lead: Seq<char>,
    name: Seq<char>,
    tail: Seq<char>,
    blank: Seq<char>,
    dir: Seq<char>,
)
    requires
        forall|i: int| 0 <= i < lead.len() ==> is_ws(#[trigger] lead[i]),
        forall|i: int| 0 <= i < tail.len() ==> is_ws(#[trigger] tail[i]),
        forall|i: int| 0 <= i < blank.len() ==> is_ws(#[trigger] blank[i]),
        name.len() > 0,
        !is_ws(name[0]),
        !is_ws(name.last()),
    ensures
        output_template_of(Some(lead + name + tail), dir) == dir + "/"@ + name + ".%(ext)s"@,
        output_template_of(Some(blank), dir) == output_template_of(None, dir),
        output_template_of(None, dir) == dir + "/%(title)s.%(ext)s"@,
{
    lemma_trim_surrounded(lead, name, tail);
    lemma_trim_start_ws_prefix(blank, Seq::<char>::empty());
    assert(blank + Seq::<char>::empty() =~= blank);
    assert(trim(blank) =~= Seq::<char>::empty());
}

/// In a video download the format filter is followed by the container
/// arguments exactly when the container is `mp4`, `mkv` or `webm`: the
/// merge format and the remux target, both that container; for any other
/// container the address follows the filter directly.
pub proof fn lemma_video_container_args(
    ffmpeg: Seq<char>,
    template: Seq<char>,
    url: Seq<char>,
    container_ext: Seq<char>,
    audio_ext: Seq<char>,
    video_quality: VideoQuality,
    audio_quality: AudioQuality,
)
    ensures
        ({
            let a = download_args_of(
                ffmpeg,
                template,
                url,
                true,
                container_ext,
                audio_ext,
                video_quality,
                audio_quality,
            );
            &&& (container_ext == "mp4"@ || container_ext == "mkv"@ || container_ext == "webm"@)
                ==> a.len() == 17 && a[12] == "--merge-output-format"@ && a[13] == container_ext
                && a[14] == "--remux-video"@ && a[15] == container_ext && a[16] == url
            &&& !(container_ext == "mp4"@ || container_ext == "mkv"@ || container_ext == "webm"@)
                ==> a.len() == 13 && a[12] == url
        }),
{
}

} // verus!
