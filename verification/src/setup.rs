//! The preparation of the binaries the applet runs (yt-dlp, ffmpeg, ffprobe):
//! which step comes next after each file check, copy, link or download, and
//! the few values those steps need.
use vstd::prelude::*;

use crate::text::same_text;

verus! {

/// A binary the applet keeps in its data directory.
#[derive(Debug, PartialEq, Eq, Structural, Clone, Copy)]
pub enum Binary {
    Ffmpeg,
    Ffprobe,
    Ytdlp,
}

/// A piece of outside work. Each is answered by a `bool`: the answer to a
/// question, the success of a download, or anything for the rest.
#[derive(Debug, PartialEq, Eq, Structural, Clone, Copy)]
pub enum SetupAction {
    /// Create the data directory.
    CreateDataDir,
    /// Is the binary among the system's? The application keeps the path found.
    FindSystem(Binary),
    /// Is the binary in the data directory?
    Exists(Binary),
    /// Is the binary in the former data directory?
    LegacyExists(Binary),
    /// Link the system's binary found last into the data directory.
    LinkSystem(Binary),
    /// Copy the binary from the former data directory.
    CopyLegacy(Binary),
    /// Download ffmpeg with yt-dlp's installer; answered by its success.
    InstallFfmpeg,
    /// Remove the archive of a failed ffmpeg download.
    RemoveFfmpegArchive,
    /// Make the binary executable where no one may execute it.
    MakeExecutable(Binary),
    /// Does the cached yt-dlp run `--version` successfully?
    CheckCached,
    /// Remove the cached yt-dlp and its partial download.
    RemoveBrokenYtdlp,
    /// Does the system's yt-dlp run `--version` successfully?
    CheckSystem,
    /// Download the latest yt-dlp release; answered by its success.
    DownloadYtdlp,
    /// Download yt-dlp with yt-dlp's installer.
    InstallYtdlp,
    /// Start yt-dlp's self-update in the background.
    SpawnUpdate,
    /// Nothing more to do.
    Finish,
}

/// The step that the preparation of the binaries has reached.
#[derive(Debug, PartialEq, Eq, Structural, Clone, Copy)]
pub enum SetupStage {
    /// Create the data directory.
    CreateDataDir,
    /// Look for ffmpeg among the system's binaries.
    FindFfmpeg,
    /// Is ffmpeg in the data directory already?
    FfmpegCachedForLink,
    /// Link the system's ffmpeg into the data directory.
    LinkFfmpeg,
    /// Look for ffprobe among the system's binaries.
    FindFfprobe,
    /// Is ffprobe in the data directory already?
    FfprobeCachedForLink,
    /// Link the system's ffprobe into the data directory.
    LinkFfprobe,
    /// Is ffmpeg in the data directory now?
    FfmpegCachedForLegacy,
    /// Is ffmpeg in the former data directory?
    LegacyFfmpeg,
    /// Copy ffmpeg from the former data directory.
    CopyLegacyFfmpeg,
    /// Is ffmpeg in the data directory now?
    FfmpegCachedForInstall,
    /// Download ffmpeg with yt-dlp's installer.
    InstallFfmpeg,
    /// Remove the archive of a failed ffmpeg download.
    RemoveFfmpegArchive,
    /// Is ffmpeg in the data directory now?
    FfmpegCachedForMode,
    /// Make ffmpeg executable.
    FixFfmpegMode,
    /// Is yt-dlp in the data directory?
    YtdlpCachedForLegacy,
    /// Is yt-dlp in the former data directory?
    LegacyYtdlp,
    /// Copy yt-dlp from the former data directory.
    CopyLegacyYtdlp,
    /// Does the cached yt-dlp run `--version` successfully?
    CheckYtdlp,
    /// Remove the broken yt-dlp and its partial download.
    RemoveBrokenYtdlp,
    /// Look for yt-dlp among the system's binaries.
    FindYtdlp,
    /// Does the system's yt-dlp run `--version` successfully?
    CheckSystemYtdlp,
    /// Link the system's yt-dlp into the data directory.
    LinkYtdlp,
    /// Download the latest yt-dlp release.
    DownloadYtdlp,
    /// Is yt-dlp in the data directory now?
    YtdlpCachedForInstall,
    /// Download yt-dlp with yt-dlp's installer.
    InstallYtdlp,
    /// Is yt-dlp in the data directory now?
    YtdlpCachedForMode,
    /// Make yt-dlp executable.
    FixYtdlpMode,
    /// Is yt-dlp in the data directory now?
    YtdlpCachedForUpdate,
    /// Start yt-dlp's self-update in the background.
    SpawnUpdate,
    /// Setup is over.
    Done,
}

/// The work a stage asks for.
pub open spec fn action_of(s: SetupStage) -> SetupAction {
    match s {
        SetupStage::CreateDataDir => SetupAction::CreateDataDir,
        SetupStage::FindFfmpeg => SetupAction::FindSystem(Binary::Ffmpeg),
        SetupStage::FfmpegCachedForLink => SetupAction::Exists(Binary::Ffmpeg),
        SetupStage::LinkFfmpeg => SetupAction::LinkSystem(Binary::Ffmpeg),
        SetupStage::FindFfprobe => SetupAction::FindSystem(Binary::Ffprobe),
        SetupStage::FfprobeCachedForLink => SetupAction::Exists(Binary::Ffprobe),
        SetupStage::LinkFfprobe => SetupAction::LinkSystem(Binary::Ffprobe),
        SetupStage::FfmpegCachedForLegacy => SetupAction::Exists(Binary::Ffmpeg),
        SetupStage::LegacyFfmpeg => SetupAction::LegacyExists(Binary::Ffmpeg),
        SetupStage::CopyLegacyFfmpeg => SetupAction::CopyLegacy(Binary::Ffmpeg),
        SetupStage::FfmpegCachedForInstall => SetupAction::Exists(Binary::Ffmpeg),
        SetupStage::InstallFfmpeg => SetupAction::InstallFfmpeg,
        SetupStage::RemoveFfmpegArchive => SetupAction::RemoveFfmpegArchive,
        SetupStage::FfmpegCachedForMode => SetupAction::Exists(Binary::Ffmpeg),
        SetupStage::FixFfmpegMode => SetupAction::MakeExecutable(Binary::Ffmpeg),
        SetupStage::YtdlpCachedForLegacy => SetupAction::Exists(Binary::Ytdlp),
        SetupStage::LegacyYtdlp => SetupAction::LegacyExists(Binary::Ytdlp),
        SetupStage::CopyLegacyYtdlp => SetupAction::CopyLegacy(Binary::Ytdlp),
        SetupStage::CheckYtdlp => SetupAction::CheckCached,
        SetupStage::RemoveBrokenYtdlp => SetupAction::RemoveBrokenYtdlp,
        SetupStage::FindYtdlp => SetupAction::FindSystem(Binary::Ytdlp),
        SetupStage::CheckSystemYtdlp => SetupAction::CheckSystem,
        SetupStage::LinkYtdlp => SetupAction::LinkSystem(Binary::Ytdlp),
        SetupStage::DownloadYtdlp => SetupAction::DownloadYtdlp,
        SetupStage::YtdlpCachedForInstall => SetupAction::Exists(Binary::Ytdlp),
        SetupStage::InstallYtdlp => SetupAction::InstallYtdlp,
        SetupStage::YtdlpCachedForMode => SetupAction::Exists(Binary::Ytdlp),
        SetupStage::FixYtdlpMode => SetupAction::MakeExecutable(Binary::Ytdlp),
        SetupStage::YtdlpCachedForUpdate => SetupAction::Exists(Binary::Ytdlp),
        SetupStage::SpawnUpdate => SetupAction::SpawnUpdate,
        SetupStage::Done => SetupAction::Finish,
    }
}

/// The stage that follows a stage, given the answer to its work.
pub open spec fn next_of(s: SetupStage, answer: bool) -> SetupStage {
    match s {
        SetupStage::CreateDataDir => SetupStage::FindFfmpeg,
        SetupStage::FindFfmpeg => if answer {
            SetupStage::FfmpegCachedForLink
        } else {
            SetupStage::FindFfprobe
        },
        SetupStage::FfmpegCachedForLink => if answer {
            SetupStage::FindFfprobe
        } else {
            SetupStage::LinkFfmpeg
        },
        SetupStage::LinkFfmpeg => SetupStage::FindFfprobe,
        SetupStage::FindFfprobe => if answer {
            SetupStage::FfprobeCachedForLink
        } else {
            SetupStage::FfmpegCachedForLegacy
        },
        SetupStage::FfprobeCachedForLink => if answer {
            SetupStage::FfmpegCachedForLegacy
        } else {
            SetupStage::LinkFfprobe
        },
        SetupStage::LinkFfprobe => SetupStage::FfmpegCachedForLegacy,
        SetupStage::FfmpegCachedForLegacy => if answer {
            SetupStage::FfmpegCachedForInstall
        } else {
            SetupStage::LegacyFfmpeg
        },
        SetupStage::LegacyFfmpeg => if answer {
            SetupStage::CopyLegacyFfmpeg
        } else {
            SetupStage::FfmpegCachedForInstall
        },
        SetupStage::CopyLegacyFfmpeg => SetupStage::FfmpegCachedForInstall,
        SetupStage::FfmpegCachedForInstall => if answer {
            SetupStage::FfmpegCachedForMode
        } else {
            SetupStage::InstallFfmpeg
        },
        SetupStage::InstallFfmpeg => if answer {
            SetupStage::FfmpegCachedForMode
        } else {
            SetupStage::RemoveFfmpegArchive
        },
        SetupStage::RemoveFfmpegArchive => SetupStage::FfmpegCachedForMode,
        SetupStage::FfmpegCachedForMode => if answer {
            SetupStage::FixFfmpegMode
        } else {
            SetupStage::YtdlpCachedForLegacy
        },
        SetupStage::FixFfmpegMode => SetupStage::YtdlpCachedForLegacy,
        SetupStage::YtdlpCachedForLegacy => if answer {
            SetupStage::CheckYtdlp
        } else {
            SetupStage::LegacyYtdlp
        },
        SetupStage::LegacyYtdlp => if answer {
            SetupStage::CopyLegacyYtdlp
        } else {
            SetupStage::CheckYtdlp
        },
        SetupStage::CopyLegacyYtdlp => SetupStage::CheckYtdlp,
        SetupStage::CheckYtdlp => if answer {
            SetupStage::YtdlpCachedForMode
        } else {
            SetupStage::RemoveBrokenYtdlp
        },
        SetupStage::RemoveBrokenYtdlp => SetupStage::FindYtdlp,
        SetupStage::FindYtdlp => if answer {
            SetupStage::CheckSystemYtdlp
        } else {
            SetupStage::DownloadYtdlp
        },
        SetupStage::CheckSystemYtdlp => if answer {
            SetupStage::LinkYtdlp
        } else {
            SetupStage::DownloadYtdlp
        },
        SetupStage::LinkYtdlp => SetupStage::YtdlpCachedForMode,
        SetupStage::DownloadYtdlp => if answer {
            SetupStage::YtdlpCachedForMode
        } else {
            SetupStage::YtdlpCachedForInstall
        },
        SetupStage::YtdlpCachedForInstall => if answer {
            SetupStage::YtdlpCachedForMode
        } else {
            SetupStage::InstallYtdlp
        },
        SetupStage::InstallYtdlp => SetupStage::YtdlpCachedForMode,
        SetupStage::YtdlpCachedForMode => if answer {
            SetupStage::FixYtdlpMode
        } else {
            SetupStage::YtdlpCachedForUpdate
        },
        SetupStage::FixYtdlpMode => SetupStage::YtdlpCachedForUpdate,
        SetupStage::YtdlpCachedForUpdate => if answer {
            SetupStage::SpawnUpdate
        } else {
            SetupStage::Done
        },
        SetupStage::SpawnUpdate => SetupStage::Done,
        SetupStage::Done => SetupStage::Done,
    }
}

/// The place of a stage in the order in which stages follow each other.
pub open spec fn rank(s: SetupStage) -> nat {
    match s {
        SetupStage::CreateDataDir => 0,
        SetupStage::FindFfmpeg => 1,
        SetupStage::FfmpegCachedForLink => 2,
        SetupStage::LinkFfmpeg => 3,
        SetupStage::FindFfprobe => 4,
        SetupStage::FfprobeCachedForLink => 5,
        SetupStage::LinkFfprobe => 6,
        SetupStage::FfmpegCachedForLegacy => 7,
        SetupStage::LegacyFfmpeg => 8,
        SetupStage::CopyLegacyFfmpeg => 9,
        SetupStage::FfmpegCachedForInstall => 10,
        SetupStage::InstallFfmpeg => 11,
        SetupStage::RemoveFfmpegArchive => 12,
        SetupStage::FfmpegCachedForMode => 13,
        SetupStage::FixFfmpegMode => 14,
        SetupStage::YtdlpCachedForLegacy => 15,
        SetupStage::LegacyYtdlp => 16,
        SetupStage::CopyLegacyYtdlp => 17,
        SetupStage::CheckYtdlp => 18,
        SetupStage::RemoveBrokenYtdlp => 19,
        SetupStage::FindYtdlp => 20,
        SetupStage::CheckSystemYtdlp => 21,
        SetupStage::LinkYtdlp => 22,
        SetupStage::DownloadYtdlp => 23,
        SetupStage::YtdlpCachedForInstall => 24,
        SetupStage::InstallYtdlp => 25,
        SetupStage::YtdlpCachedForMode => 26,
        SetupStage::FixYtdlpMode => 27,
        SetupStage::YtdlpCachedForUpdate => 28,
        SetupStage::SpawnUpdate => 29,
        SetupStage::Done => 30,
    }
}

impl SetupStage {
    /// The first stage.
    pub fn start() -> (s: SetupStage)
        ensures
            s == SetupStage::CreateDataDir,
    {
        SetupStage::CreateDataDir
    }

    /// The work this stage asks for.
    pub fn action(&self) -> (a: SetupAction)
        ensures
            a == action_of(*self),
    {
        match self {
            SetupStage::CreateDataDir => SetupAction::CreateDataDir,
            SetupStage::FindFfmpeg => SetupAction::FindSystem(Binary::Ffmpeg),
            SetupStage::FfmpegCachedForLink => SetupAction::Exists(Binary::Ffmpeg),
            SetupStage::LinkFfmpeg => SetupAction::LinkSystem(Binary::Ffmpeg),
            SetupStage::FindFfprobe => SetupAction::FindSystem(Binary::Ffprobe),
            SetupStage::FfprobeCachedForLink => SetupAction::Exists(Binary::Ffprobe),
            SetupStage::LinkFfprobe => SetupAction::LinkSystem(Binary::Ffprobe),
            SetupStage::FfmpegCachedForLegacy => SetupAction::Exists(Binary::Ffmpeg),
            SetupStage::LegacyFfmpeg => SetupAction::LegacyExists(Binary::Ffmpeg),
            SetupStage::CopyLegacyFfmpeg => SetupAction::CopyLegacy(Binary::Ffmpeg),
            SetupStage::FfmpegCachedForInstall => SetupAction::Exists(Binary::Ffmpeg),
            SetupStage::InstallFfmpeg => SetupAction::InstallFfmpeg,
            SetupStage::RemoveFfmpegArchive => SetupAction::RemoveFfmpegArchive,
            SetupStage::FfmpegCachedForMode => SetupAction::Exists(Binary::Ffmpeg),
            SetupStage::FixFfmpegMode => SetupAction::MakeExecutable(Binary::Ffmpeg),
            SetupStage::YtdlpCachedForLegacy => SetupAction::Exists(Binary::Ytdlp),
            SetupStage::LegacyYtdlp => SetupAction::LegacyExists(Binary::Ytdlp),
            SetupStage::CopyLegacyYtdlp => SetupAction::CopyLegacy(Binary::Ytdlp),
            SetupStage::CheckYtdlp => SetupAction::CheckCached,
            SetupStage::RemoveBrokenYtdlp => SetupAction::RemoveBrokenYtdlp,
            SetupStage::FindYtdlp => SetupAction::FindSystem(Binary::Ytdlp),
            SetupStage::CheckSystemYtdlp => SetupAction::CheckSystem,
            SetupStage::LinkYtdlp => SetupAction::LinkSystem(Binary::Ytdlp),
            SetupStage::DownloadYtdlp => SetupAction::DownloadYtdlp,
            SetupStage::YtdlpCachedForInstall => SetupAction::Exists(Binary::Ytdlp),
            SetupStage::InstallYtdlp => SetupAction::InstallYtdlp,
            SetupStage::YtdlpCachedForMode => SetupAction::Exists(Binary::Ytdlp),
            SetupStage::FixYtdlpMode => SetupAction::MakeExecutable(Binary::Ytdlp),
            SetupStage::YtdlpCachedForUpdate => SetupAction::Exists(Binary::Ytdlp),
            SetupStage::SpawnUpdate => SetupAction::SpawnUpdate,
            SetupStage::Done => SetupAction::Finish,
        }
    }

    /// The stage that follows, given the answer to this stage's work.
    pub fn next(&self, answer: bool) -> (s: SetupStage)
        ensures
            s == next_of(*self, answer),
    {
        match self {
            SetupStage::CreateDataDir => SetupStage::FindFfmpeg,
            SetupStage::FindFfmpeg => if answer {
                SetupStage::FfmpegCachedForLink
            } else {
                SetupStage::FindFfprobe
            },
            SetupStage::FfmpegCachedForLink => if answer {
                SetupStage::FindFfprobe
            } else {
                SetupStage::LinkFfmpeg
            },
            SetupStage::LinkFfmpeg => SetupStage::FindFfprobe,
            SetupStage::FindFfprobe => if answer {
                SetupStage::FfprobeCachedForLink
            } else {
                SetupStage::FfmpegCachedForLegacy
            },
            SetupStage::FfprobeCachedForLink => if answer {
                SetupStage::FfmpegCachedForLegacy
            } else {
                SetupStage::LinkFfprobe
            },
            SetupStage::LinkFfprobe => SetupStage::FfmpegCachedForLegacy,
            SetupStage::FfmpegCachedForLegacy => if answer {
                SetupStage::FfmpegCachedForInstall
            } else {
                SetupStage::LegacyFfmpeg
            },
            SetupStage::LegacyFfmpeg => if answer {
                SetupStage::CopyLegacyFfmpeg
            } else {
                SetupStage::FfmpegCachedForInstall
            },
            SetupStage::CopyLegacyFfmpeg => SetupStage::FfmpegCachedForInstall,
            SetupStage::FfmpegCachedForInstall => if answer {
                SetupStage::FfmpegCachedForMode
            } else {
                SetupStage::InstallFfmpeg
            },
            SetupStage::InstallFfmpeg => if answer {
                SetupStage::FfmpegCachedForMode
            } else {
                SetupStage::RemoveFfmpegArchive
            },
            SetupStage::RemoveFfmpegArchive => SetupStage::FfmpegCachedForMode,
            SetupStage::FfmpegCachedForMode => if answer {
                SetupStage::FixFfmpegMode
            } else {
                SetupStage::YtdlpCachedForLegacy
            },
            SetupStage::FixFfmpegMode => SetupStage::YtdlpCachedForLegacy,
            SetupStage::YtdlpCachedForLegacy => if answer {
                SetupStage::CheckYtdlp
            } else {
                SetupStage::LegacyYtdlp
            },
            SetupStage::LegacyYtdlp => if answer {
                SetupStage::CopyLegacyYtdlp
            } else {
                SetupStage::CheckYtdlp
            },
            SetupStage::CopyLegacyYtdlp => SetupStage::CheckYtdlp,
            SetupStage::CheckYtdlp => if answer {
                SetupStage::YtdlpCachedForMode
            } else {
                SetupStage::RemoveBrokenYtdlp
            },
            SetupStage::RemoveBrokenYtdlp => SetupStage::FindYtdlp,
            SetupStage::FindYtdlp => if answer {
                SetupStage::CheckSystemYtdlp
            } else {
                SetupStage::DownloadYtdlp
            },
            SetupStage::CheckSystemYtdlp => if answer {
                SetupStage::LinkYtdlp
            } else {
                SetupStage::DownloadYtdlp
            },
            SetupStage::LinkYtdlp => SetupStage::YtdlpCachedForMode,
            SetupStage::DownloadYtdlp => if answer {
                SetupStage::YtdlpCachedForMode
            } else {
                SetupStage::YtdlpCachedForInstall
            },
            SetupStage::YtdlpCachedForInstall => if answer {
                SetupStage::YtdlpCachedForMode
            } else {
                SetupStage::InstallYtdlp
            },
            SetupStage::InstallYtdlp => SetupStage::YtdlpCachedForMode,
            SetupStage::YtdlpCachedForMode => if answer {
                SetupStage::FixYtdlpMode
            } else {
                SetupStage::YtdlpCachedForUpdate
            },
            SetupStage::FixYtdlpMode => SetupStage::YtdlpCachedForUpdate,
            SetupStage::YtdlpCachedForUpdate => if answer {
                SetupStage::SpawnUpdate
            } else {
                SetupStage::Done
            },
            SetupStage::SpawnUpdate => SetupStage::Done,
            SetupStage::Done => SetupStage::Done,
        }
    }

    /// Whether the preparation is over.
    pub fn is_done(&self) -> (b: bool)
        ensures
            b == (*self == SetupStage::Done),
    {
        match self {
            SetupStage::Done => true,
            _ => false,
        }
    }
}

/// The address of the latest yt-dlp release for the machine's architecture:
/// the aarch64 build on `aarch64`, the Python zipapp elsewhere.
pub open spec fn release_url_of(arch: Seq<char>) -> Seq<char> {
    if arch == "aarch64"@ {
        "https://github.com/yt-dlp/yt-dlp/releases/latest/download/yt-dlp_linux_aarch64"@
    } else {
        "https://github.com/yt-dlp/yt-dlp/releases/latest/download/yt-dlp"@
    }
}

/// The address of the latest yt-dlp release for the architecture `arch`.
pub fn release_url(arch: &str) -> (u: &'static str)
    ensures
        u@ == release_url_of(arch@),
{
    if same_text(arch, "aarch64") {
        "https://github.com/yt-dlp/yt-dlp/releases/latest/download/yt-dlp_linux_aarch64"
    } else {
        "https://github.com/yt-dlp/yt-dlp/releases/latest/download/yt-dlp"
    }
}

/// The permission bits a binary gets when no one may execute it (`rwxr-xr-x`);
/// `None` when someone may already.
pub open spec fn executable_mode_of(mode: u32) -> Option<u32> {
    if mode & 0o111 == 0 {
        Some(0o755)
    } else {
        None
    }
}

/// The permission bits a binary with mode `mode` must get to be executable.
pub fn executable_mode(mode: u32) -> (m: Option<u32>)
    ensures
        m == executable_mode_of(mode),
{
    if mode & 0o111 == 0 {
        Some(0o755)
    } else {
        None
    }
}

/// The directories searched for a system binary before those of `PATH`.
pub open spec fn common_bin_dirs_of() -> Seq<Seq<char>> {
    seq!["/usr/bin"@, "/usr/local/bin"@, "/bin"@]
}

/// The directories searched for a system binary before those of `PATH`, in order.
pub fn common_bin_dirs() -> (v: Vec<&'static str>)
    ensures
        v@.len() == common_bin_dirs_of().len(),
        forall|i: int| 0 <= i < v@.len() ==> (#[trigger] v@[i])@ == common_bin_dirs_of()[i],
{
    let v: Vec<&'static str> = vec!["/usr/bin", "/usr/local/bin", "/bin"];
    v
}

/// The name of a binary in the data directory.
pub open spec fn file_name_of(b: Binary) -> Seq<char> {
    match b {
        Binary::Ffmpeg => "ffmpeg"@,
        Binary::Ffprobe => "ffprobe"@,
        Binary::Ytdlp => "yt-dlp"@,
    }
}

impl Binary {
    /// The name of this binary in the data directory and on the system.
    pub fn file_name(&self) -> (s: &'static str)
        ensures
            s@ == file_name_of(*self),
    {
        match self {
            Binary::Ffmpeg => "ffmpeg",
            Binary::Ffprobe => "ffprobe",
            Binary::Ytdlp => "yt-dlp",
        }
    }
}

/// The arguments added to every download: four fragments fetched at once.
pub open spec fn downloader_extra_args_of() -> Seq<Seq<char>> {
    seq!["--concurrent-fragments"@, "4"@]
}

/// The arguments added to every download, in order.
pub fn downloader_extra_args() -> (v: Vec<&'static str>)
    ensures
        v@.len() == downloader_extra_args_of().len(),
        forall|i: int| 0 <= i < v@.len() ==> (#[trigger] v@[i])@ == downloader_extra_args_of()[i],
{
    let v: Vec<&'static str> = vec!["--concurrent-fragments", "4"];
    v
}

/// The arguments that make yt-dlp update itself to the latest stable release.
pub open spec fn update_args_of() -> Seq<Seq<char>> {
    seq!["--update-to"@, "stable"@]
}

/// The arguments that make yt-dlp update itself, in order.
pub fn update_args() -> (v: Vec<&'static str>)
    ensures
        v@.len() == update_args_of().len(),
        forall|i: int| 0 <= i < v@.len() ==> (#[trigger] v@[i])@ == update_args_of()[i],
{
    let v: Vec<&'static str> = vec!["--update-to", "stable"];
    v
}

/// The seconds a download may take before the downloader gives up.
pub fn downloader_timeout_secs() -> (t: u64)
    ensures
        t == 300,
{
    300
}

/// The preparation always moves forward: every stage but the last leads to a
/// later one, so it ends after at most 30 steps, and the last stage stays.
pub proof fn lemma_setup_moves_forward(s: SetupStage, answer: bool)
    ensures
        rank(s) <= 30,
        s != SetupStage::Done ==> rank(next_of(s, answer)) > rank(s),
        s == SetupStage::Done ==> next_of(s, answer) == SetupStage::Done,
{
}

/// The self-update is started only right after yt-dlp was found in the data
/// directory; ffmpeg is downloaded only when none is there; a cached yt-dlp
/// is removed only when it failed to run; yt-dlp is downloaded only when
/// the system offers none that runs; and yt-dlp's installer is run only when
/// that download failed and no yt-dlp is in the data directory after it.
pub proof fn lemma_setup_guards(s: SetupStage, answer: bool)
    ensures
        next_of(s, answer) == SetupStage::SpawnUpdate ==> s == SetupStage::YtdlpCachedForUpdate
            && answer,
        next_of(s, answer) == SetupStage::InstallFfmpeg ==> s == SetupStage::FfmpegCachedForInstall
            && !answer,
        next_of(s, answer) == SetupStage::RemoveBrokenYtdlp ==> s == SetupStage::CheckYtdlp && !answer,
        next_of(s, answer) == SetupStage::DownloadYtdlp ==> (s == SetupStage::FindYtdlp
            || s == SetupStage::CheckSystemYtdlp) && !answer,
        next_of(s, answer) == SetupStage::LinkFfmpeg ==> s == SetupStage::FfmpegCachedForLink && !answer,
        next_of(s, answer) == SetupStage::LinkYtdlp ==> s == SetupStage::CheckSystemYtdlp && answer,
        next_of(s, answer) == SetupStage::YtdlpCachedForInstall ==> s == SetupStage::DownloadYtdlp
            && !answer,
        next_of(s, answer) == SetupStage::InstallYtdlp ==> s == SetupStage::YtdlpCachedForInstall
            && !answer,
{
}

/// A binary given new permission bits may then be executed by everyone.
pub proof fn lemma_executable_mode_sets_exec_bits(mode: u32)
    ensures
        executable_mode_of(mode) matches Some(m) ==> m & 0o111 == 0o111,
        executable_mode_of(mode) is None ==> mode & 0o111 != 0,
{
    assert((0o755u32 & 0o111u32) == 0o111u32) by (bit_vector);
}

} // verus!
