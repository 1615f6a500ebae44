//! What the panel shows for a download, before numbers are formatted.
use vstd::prelude::*;

use crate::panel::ActiveDownload;

verus! {

/// The time-left part of a progress line.
#[derive(Debug, PartialEq, Eq, Structural, Clone, Copy)]
pub enum EtaText {
    /// No estimate yet.
    Calculating,
    /// Less than a minute: the seconds.
    Seconds(u64),
    /// A minute or more: whole minutes and the seconds beyond them.
    MinutesSeconds { mins: u64, secs: u64 },
}

/// The first line under a download.
#[derive(Debug, PartialEq, Eq, Structural, Clone, Copy)]
pub enum StatusLine {
    /// The audio is being extracted or converted.
    PostProcessingAudio,
    /// The video is being merged or fixed up.
    PostProcessing,
    /// The transfer runs: its rate and percentage, then the time left.
    Transfer(EtaText),
}

/// The size line under a download.
#[derive(Debug, PartialEq, Eq, Structural, Clone, Copy)]
pub enum SizeLine {
    /// `downloaded / total`.
    Both { downloaded: u64, total: u64 },
    /// Only the bytes received, the total being unknown.
    DownloadedOnly(u64),
    /// Nothing received and the total unknown.
    Empty,
}

/// The time-left text for an estimate.
pub open spec fn eta_text_of(eta: Option<u64>) -> EtaText {
    match eta {
        Some(secs) => if secs / 60 > 0 {
            EtaText::MinutesSeconds { mins: secs / 60, secs: secs % 60 }
        } else {
            EtaText::Seconds(secs % 60)
        },
        None => EtaText::Calculating,
    }
}

/// The status line of a download.
pub open spec fn status_of(post_processing: bool, is_audio: bool, eta: Option<u64>) -> StatusLine {
    if post_processing {
        if is_audio {
            StatusLine::PostProcessingAudio
        } else {
            StatusLine::PostProcessing
        }
    } else {
        StatusLine::Transfer(eta_text_of(eta))
    }
}

/// The size line of a download.
pub open spec fn size_of(downloaded: u64, total: u64) -> SizeLine {
    if total > 0 {
        SizeLine::Both { downloaded, total }
    } else if downloaded > 0 {
        SizeLine::DownloadedOnly(downloaded)
    } else {
        SizeLine::Empty
    }
}

/// The time-left text for an estimate.
pub fn eta_text(eta: Option<u64>) -> (t: EtaText)
    ensures
        t == eta_text_of(eta),
{
    match eta {
        Some(secs) => {
            let mins = secs / 60;
            let s = secs % 60;
            if mins > 0 {
                EtaText::MinutesSeconds { mins, secs: s }
            } else {
                EtaText::Seconds(s)
            }
        },
        None => EtaText::Calculating,
    }
}

impl ActiveDownload {
    /// The status line shown under this download.
    pub fn status_line(&self) -> (s: StatusLine)
        ensures
            s == status_of(self.is_post_processing, self.is_audio, self.eta_secs),
    {
        if self.is_post_processing {
            if self.is_audio {
                StatusLine::PostProcessingAudio
            } else {
                StatusLine::PostProcessing
            }
        } else {
            StatusLine::Transfer(eta_text(self.eta_secs))
        }
    }

    /// The size line shown under this download.
    pub fn size_line(&self) -> (s: SizeLine)
        ensures
            s == size_of(self.downloaded_bytes, self.total_bytes),
    {
        if self.total_bytes > 0 {
            SizeLine::Both { downloaded: self.downloaded_bytes, total: self.total_bytes }
        } else if self.downloaded_bytes > 0 {
            SizeLine::DownloadedOnly(self.downloaded_bytes)
        } else {
            SizeLine::Empty
        }
    }

    /// The playlist line shown above this download: the entry, the number of
    /// entries and the entry's title (empty where none is known), where both
    /// numbers are known.
    pub fn playlist_line(&self) -> (p: Option<(u32, u32, String)>)
        ensures
            match p {
                Some((c, t, title)) => self.playlist_current == Some(c) && self.playlist_total
                    == Some(t) && title@ == match self.playlist_title {
                    Some(s) => s@,
                    None => Seq::<char>::empty(),
                },
                None => self.playlist_current is None || self.playlist_total is None,
            },
    {
        match (self.playlist_current, self.playlist_total) {
            (Some(c), Some(t)) => {
                let title = match &self.playlist_title {
                    Some(s) => s.clone(),
                    None => String::new(),
                };
                Some((c, t, title))
            },
            _ => None,
        }
    }
}

/// An estimate is shown as whole minutes and the seconds beyond them, which
/// add up to it, or as seconds alone below a minute.
pub proof fn lemma_eta_text_adds_up(secs: u64)
    ensures
        match eta_text_of(Some(secs)) {
            EtaText::MinutesSeconds { mins, secs: s } => mins > 0 && s < 60 && mins * 60 + s == secs,
            EtaText::Seconds(s) => s == secs && secs < 60,
            EtaText::Calculating => false,
        },
{
}

} // verus!
