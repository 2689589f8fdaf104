//! Getting the audio of YouTube videos: the video id, the reading of what
//! YouTube and `yt-dlp` answer, and the choices of the download.
pub mod downloader;
pub mod extractor;
pub mod id;
pub mod innertube;
pub mod models;
pub mod ytdlp;
pub mod ytdlp_download;
