//! Client-side delivery core for an error-reporting service: a persisted,
//! multi-window rate limiter, an offline report store naming scheme, and the
//! delivery pipeline that decides whether a report is sent, suppressed, or
//! replaced by a single "rate limit" notice.

pub mod appinfo;
pub mod bugsnag_impl;
pub mod deviceinfo;
pub mod event;
pub mod exception;
pub mod ext;
pub mod jsontext;
pub mod notification;
pub mod persist;
pub mod rate_limit;
pub mod stacktrace;
pub mod user;

pub use appinfo::AppInfo;
pub use bugsnag_impl::{Bugsnag, Error, NotifyBuilder, RetryStep, SendPrep, Severity, StoreOutcome};
pub use deviceinfo::DeviceInfo;
pub use event::Event;
pub use exception::Exception;
pub use notification::Notification;
pub use rate_limit::{RateLimit, RateLimitNotificationOptions, SendLimit};
pub use stacktrace::Frame;
pub use user::User;
