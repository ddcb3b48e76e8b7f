//! Tool parameters, as the MCP client sends them.
pub mod audit;
pub mod billing;
pub mod keys;

pub use audit::ListAuditEventsParams;
pub use billing::{
    GetInvoiceParams, GetUsageParams, ListInvoicesParams, SetBillingInfoParams,
    SetDefaultPaymentMethodParams, SetSpendingLimitParams, TopUpParams,
};
pub use keys::{
    ApiKeyIdParams, CreateApiKeyParams, DeleteApiKeyParams, ListApiKeysParams, RotateApiKeyParams,
    UpdateApiKeyParams,
};
