//! A time-locked escrow that schedules its own refund on an external task
//! queue, together with the pieces that scheduling needs: derived signing
//! authorities, call descriptors and their compiled form, trigger policy and
//! task registrations. A small one-slot store with pluggable encodings comes
//! alongside.
pub mod address;
pub mod compile;
pub mod escrow;
pub mod instruction;
pub mod keyed;
pub mod oracle;
pub mod program;
pub mod schedule;
pub mod storage;
