//! Billing response formatters.
pub mod audit;
pub mod contact;
pub mod invoices;
pub mod money;
pub mod prepaid;
pub mod usage;




pub use money::{money_cell, parse_cents};
pub use prepaid::fmt_prepaid;
pub use audit::fmt_audit_event;
pub use contact::{fmt_billing_info, fmt_payment_methods, fmt_spending_limits};
pub use invoices::{fmt_invoice_detail, fmt_invoice_preview, fmt_invoices};

