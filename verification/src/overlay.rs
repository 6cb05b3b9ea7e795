//! Diagnostic overlay: the integer bookkeeping and text of the HUD.
pub mod hud_text;
pub mod metrics_log;
pub mod watermark;

pub use metrics_log::MetricsLog;
pub use watermark::AuthorizationStatus;
