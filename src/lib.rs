//! Track revision history, royalty splits and content screening for a
//! collaborative music platform.
//!
//! [`TrackStore`] is the aggregate root: it owns every track with its
//! append-only version history, the artist royalty ledger, the moderation
//! queue, the keyword screen and the activity log. Callers pass the caller
//! identity and the current time in explicitly.

pub mod analytics;
pub mod collab;
pub mod edits;
pub mod history;
pub mod insights;
pub mod ledger;
pub mod moderation;
pub mod ops;
pub mod queries;
pub mod royalty;
pub mod screen;
pub mod store;
pub mod text;
pub mod track;
pub mod types;

pub use analytics::TrackTotals;
pub use collab::{CollabRequest, CollabRequestStatus, CollabRequests};
pub use history::VersionComparison;
pub use insights::{PlatformRankings, RevenueInsights, rank_by_amount};
pub use ledger::ArtistLedger;
pub use moderation::{ModerationQueue, ModerationQueueItem, ModerationStatus, ModerationTargetType};
pub use queries::{MAX_FILE_SIZE, TrackAnalytics, UploadError};
pub use royalty::split_payment;
pub use screen::ContentScreen;
pub use store::TrackStore;
pub use track::{Track, TrackRecord, TrackRole, TrackVersion, TrackVisibility};
pub use types::{Activity, Comment, Payment, Split, UserRole, log_activity};
