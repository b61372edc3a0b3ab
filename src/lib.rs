//! Tutoring-session bookkeeping: validated time entries, half-hour rounding,
//! invoice aggregation in exact fixed-point money, and template rendering.

pub mod text;
pub mod clock;
pub mod money;
pub mod entry;
pub mod invoice;
pub mod template;
pub mod generate;
