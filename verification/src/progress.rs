//! The progress model: small structured counters pushed to a
//! caller-supplied sink while a pipeline runs. The online pipeline reports
//! a download counter and a build counter; the local pipeline reports one
//! counter per phase. The ratio shown to a user is the sink's business;
//! the core only counts.

use vstd::prelude::*;

verus! {

/// One progress counter: `current` of `max` steps done.
#[derive(Debug, Clone, Copy, PartialEq, Eq, Structural)]
pub struct ProgressUpdate {
    pub current: usize,
    pub max: usize,
}

impl Default for ProgressUpdate {
    fn default() -> (r: Self)
        ensures
            r.current == 0,
            r.max == 0,
    {
        ProgressUpdate { current: 0, max: 0 }
    }
}

/// The progress shape of the local-disk pipeline: one counter per phase.
#[derive(Debug, Clone, Copy, PartialEq, Eq, Structural)]
pub struct Progress {
    pub header: ProgressUpdate,
    pub data_chunks: ProgressUpdate,
    pub event_chunks: ProgressUpdate,
    pub checkpoint_chunks: ProgressUpdate,
}

impl Default for Progress {
    fn default() -> (r: Self)
        ensures
            r == (Progress {
                header: ProgressUpdate { current: 0, max: 0 },
                data_chunks: ProgressUpdate { current: 0, max: 0 },
                event_chunks: ProgressUpdate { current: 0, max: 0 },
                checkpoint_chunks: ProgressUpdate { current: 0, max: 0 },
            }),
    {
        Progress {
            header: ProgressUpdate { current: 0, max: 0 },
            data_chunks: ProgressUpdate { current: 0, max: 0 },
            event_chunks: ProgressUpdate { current: 0, max: 0 },
            checkpoint_chunks: ProgressUpdate { current: 0, max: 0 },
        }
    }
}

/// The progress shape of the online pipeline: the download fan-out and the
/// final build.
#[derive(Debug, Clone, Copy, PartialEq, Eq, Structural)]
pub struct DownloadProgress {
    pub download: ProgressUpdate,
    pub build: ProgressUpdate,
}

impl Default for DownloadProgress {
    fn default() -> (r: Self)
        ensures
            r.download.current == 0 && r.download.max == 0,
            r.build.current == 0 && r.build.max == 0,
    {
        DownloadProgress {
            download: ProgressUpdate { current: 0, max: 0 },
            build: ProgressUpdate { current: 0, max: 0 },
        }
    }
}

/// The caps of a local processing run: how many stream chunks, events and
/// checkpoints to take at most. (The progress sink that accompanies them
/// in the driver is I/O and stays with the driver.)
#[derive(Debug, Clone, Copy, PartialEq, Eq, Structural)]
pub struct Config {
    pub data_count: usize,
    pub event_count: usize,
    pub checkpoint_count: usize,
}

impl Default for Config {
    /// No caps: process everything.
    fn default() -> (r: Self)
        ensures
            r.data_count == usize::MAX,
            r.event_count == usize::MAX,
            r.checkpoint_count == usize::MAX,
    {
        Config {
            data_count: usize::MAX,
            event_count: usize::MAX,
            checkpoint_count: usize::MAX,
        }
    }
}

} // verus!
