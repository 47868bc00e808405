//! Tools for re-assembling a recorded game session ("replay") into the
//! playback engine's native container format: a fixed-layout metadata
//! record followed by a list of typed, length-prefixed chunks.
//!
//! The crate covers the byte-level encoders (bounded write buffer,
//! metadata record, chunk container), the decision logic of the download
//! orchestration (replay-id validation, paginated discovery, retry/backoff
//! policy, deterministic ordering of parallel fetches), the local-disk
//! pipeline, and the progress-counter models of both pipelines. The
//! network and file I/O around these lives with the drivers, which consume
//! the core through plain values.

pub mod buffer;
pub mod chunk;
pub mod cli;
pub mod dates;
pub mod discovery;
pub mod errors;
pub mod events;
pub mod meta;
pub mod model;
pub mod nums;
pub mod order;
pub mod pipeline;
pub mod progress;
pub mod retry;
pub mod text;
pub mod utf16;

pub use buffer::ReplayBuffer;
pub use chunk::{build_replay, chunk_to_bytes, container_size_checked, write_string_buffer, Chunk,
    ReplayPart};
pub use cli::{find_cli_arg, CliArg, CliCfg};
pub use dates::{format_date_label, parse_created, ticks_from_millis, CreatedTime};
pub use discovery::{check_replay_id, discovery_decide, replay_item_from_api, scan_pages,
    start_download_decision, total_pages, validate_replay_id, ApiReplay, ApiResponse,
    DiscoveryDecision, DiscoveryResult, ReplayItem};
pub use errors::{BufferOp, FormatError, ReplayError};
pub use events::{chunk_from_event, event_chunks, Event, EventData, EventKind};
pub use meta::{build_meta, build_name_block, display_string, MetaData};
pub use model::{DownloadedReplayInfo, Page, PlatformFilter, ReplayFilters, ReplayListState,
    Settings};
pub use order::{sort_by_key, strip_keys};
pub use pipeline::{assemble_replay, local_filename, lookup_timing, online_chunk_list,
    process_local,
    replay_filename, stream_chunk, stream_file_index, stream_file_key, LocalOutput, TimingEntry};
pub use progress::{Config, DownloadProgress, Progress, ProgressUpdate};
pub use retry::{retry_result_error, retry_step, run_retry, RequestOutcome, RetryDecision,
    RetryPolicy, RetryResult, RetrySim};
pub use text::{format_u64, format_u64_padded, parse_i32, parse_i64, parse_usize,
    sanitize_friendly_name};
pub use utf16::utf16_le_bytes;
