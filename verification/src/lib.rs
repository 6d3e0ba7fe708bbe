//! Core of a self-updating service installer: release selection, asset
//! matching, semantic-version comparison, archive dispatch, a zip-slip path
//! guard, and the installation state machine, with progress reporting on a
//! broadcast channel.
//!
//! Network transfers, filesystem writes and OS service control are performed
//! by the surrounding application; this crate holds every decision those
//! steps depend on, each with a verified contract.

mod arch;
mod archive;
mod config;
mod error;
mod manager;
mod progress;
mod release;
mod text;
mod version;

pub use arch::{arch_of, patterns_of, Architecture};
pub use config::{display_name_of, InstallationConfig};
pub use archive::{archive_format_of, classify_archive, escapes_target, is_sep, keeps_segment, kept_segments, lemma_sanitized_segments_confined, raw_segments, sanitize_entry_path, split_segments, ArchiveFormat};
pub use error::InstallError;
pub use manager::{update_accepts, update_emits, update_next, InstallationManager, UpdateAction, UpdateEvent, UpdateStage};
pub use release::{asset_score, first_qualifying, first_scoring, match_count, selected_asset, AssetView, GitHubAsset, GitHubRelease, ReleaseView};
pub use progress::{clamped, progress_fraction, State, StateProgress, PROGRESS_SCALE};
pub use text::{contains_seq, ends_with, lower_of, str_contains, str_ends_with, str_eq};
pub use version::{bytes_lex_lt, lemma_version_lt_asymmetric, lemma_version_lt_connected, lemma_version_lt_transitive, ident_lt, idents_lt, ident_of, is_digits, pre_view_of, semver_parts, split_dots, trim_leading_v, trimmed_v, version_lt, PreIdent, PreIdentView, Version, VersionView};
