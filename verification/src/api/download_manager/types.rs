//! The values the download queue keeps and the events it announces.
use crate::text::string_from;
use vstd::prelude::*;

verus! {

/// Where a download stands.
#[derive(Clone, Copy, Debug, PartialEq, Eq, Structural)]
pub enum DownloadStatus {
    Queued,
    Downloading,
    Finished,
    Failed,
    Canceled,
}

/// The level of a message event.
#[derive(Clone, Copy, Debug, PartialEq, Eq, Structural)]
pub enum MessageLevel {
    Info,
    Warn,
    Error,
}

/// The bit pattern (`f64::to_bits`) of a progress of 0 percent.
pub const PROGRESS_NONE: u64 = 0;

/// The bit pattern (`f64::to_bits`) of a progress of 100 percent.
pub const PROGRESS_FULL: u64 = 0x4059_0000_0000_0000;

/// A track found at a source and about to be downloaded.
#[derive(Clone, Debug)]
pub struct DiscoveredMusicTrack {
    pub id: i64,
    pub title: String,
    pub artist: String,
    pub artwork_url: Option<String>,
    pub permalink_url: Option<String>,
}

/// What is shown of a track in the queue.
#[derive(Clone, Debug)]
pub struct DownloadTrackDetails {
    pub title: String,
    pub artist: String,
    pub artwork_url: Option<String>,
    pub source_url: Option<String>,
}

/// A download in the queue, or one that just left it.
#[derive(Clone, Debug)]
pub struct DownloadItem {
    pub id: i64,
    pub details: DownloadTrackDetails,
    pub status: DownloadStatus,
    /// The file format it was saved in, by name.
    pub format: Option<String>,
    /// When it finished, in seconds since the epoch.
    pub created_at: Option<u64>,
    /// The percentage done, an `f64` held as its bit pattern
    /// (`f64::to_bits`); its arithmetic is the caller's.
    pub progress: Option<u64>,
    /// The size of the saved file in bytes.
    pub size: Option<u64>,
    pub error: Option<String>,
}

/// An event announced to the clients that watch the queue.
#[derive(Clone, Debug)]
pub enum ServerEvent {
    TrackUpdate { item: Box<DownloadItem> },
    SyncFinished { url: Option<String> },
    SyncStarted { url: String },
    Error { message: String },
    Message { message: String, level: MessageLevel },
}

/// A copy of an optional string.
pub fn copy_opt_string(o: &Option<String>) -> (r: Option<String>)
    ensures
        r == *o,
{
    match o {
        Some(s) => Some(s.clone()),
        None => None,
    }
}

impl DownloadTrackDetails {
    /// A copy of these details.
    pub fn duplicate(&self) -> (r: Self)
        ensures
            r == *self,
    {
        DownloadTrackDetails {
            title: self.title.clone(),
            artist: self.artist.clone(),
            artwork_url: copy_opt_string(&self.artwork_url),
            source_url: copy_opt_string(&self.source_url),
        }
    }
}

impl DownloadItem {
    /// Whether the download is still waiting or running.
    pub open spec fn active(&self) -> bool {
        self.status == DownloadStatus::Queued || self.status == DownloadStatus::Downloading
    }

    /// Whether the download is still waiting or running.
    pub fn is_active(&self) -> (r: bool)
        ensures
            r == self.active(),
    {
        match self.status {
            DownloadStatus::Queued | DownloadStatus::Downloading => true,
            _ => false,
        }
    }

    /// The queue entry of a newly discovered track: queued, with nothing
    /// known yet of its format, time, progress, size or error.
    pub open spec fn from_spec(task: DiscoveredMusicTrack) -> DownloadItem {
        DownloadItem {
            id: task.id,
            details: DownloadTrackDetails {
                title: task.title,
                artist: task.artist,
                artwork_url: task.artwork_url,
                source_url: task.permalink_url,
            },
            status: DownloadStatus::Queued,
            format: None,
            created_at: None,
            progress: None,
            size: None,
            error: None,
        }
    }

    /// The queue entry of a discovered track keeps each of its details: its
    /// id, title, artist, artwork and source link; it is queued, with nothing
    /// else known yet.
    pub proof fn lemma_from_keeps_details(task: DiscoveredMusicTrack)
        ensures
            Self::from_spec(task).id == task.id,
            Self::from_spec(task).details.title == task.title,
            Self::from_spec(task).details.artist == task.artist,
            Self::from_spec(task).details.artwork_url == task.artwork_url,
            Self::from_spec(task).details.source_url == task.permalink_url,
            Self::from_spec(task).status == DownloadStatus::Queued,
            Self::from_spec(task).format is None && Self::from_spec(task).created_at is None
                && Self::from_spec(task).progress is None && Self::from_spec(task).size is None
                && Self::from_spec(task).error is None,
    {
    }

    /// The queue entry of a newly discovered track.
    pub fn from(task: DiscoveredMusicTrack) -> (r: DownloadItem)
        ensures
            r == Self::from_spec(task),
            r.id == task.id,
            r.details.title == task.title,
            r.details.artist == task.artist,
            r.details.artwork_url == task.artwork_url,
            r.details.source_url == task.permalink_url,
            r.status == DownloadStatus::Queued,
            r.format is None && r.created_at is None && r.progress is None && r.size is None && r.error is None,
    {
        DownloadItem {
            id: task.id,
            details: DownloadTrackDetails {
                title: task.title,
                artist: task.artist,
                artwork_url: task.artwork_url,
                source_url: task.permalink_url,
            },
            status: DownloadStatus::Queued,
            format: None,
            created_at: None,
            progress: None,
            size: None,
            error: None,
        }
    }

    /// A copy of this item.
    pub fn duplicate(&self) -> (r: Self)
        ensures
            r == *self,
    {
        DownloadItem {
            id: self.id,
            details: self.details.duplicate(),
            status: self.status,
            format: copy_opt_string(&self.format),
            created_at: self.created_at,
            progress: self.progress,
            size: self.size,
            error: copy_opt_string(&self.error),
        }
    }
}

/// The welcome event sent to a client that starts watching the queue.
pub fn welcome_event() -> (r: ServerEvent)
    ensures
        r matches ServerEvent::Message { message, level } && message@ == "Connected to event stream"@
            && level == MessageLevel::Info,
{
    ServerEvent::Message { message: string_from("Connected to event stream"), level: MessageLevel::Info }
}

} // verus!
