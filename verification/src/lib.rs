//! Conversion of peer-to-peer payment history into ledger import rows.

pub mod money;
pub mod record;
