//! API key tool parameters.
use vstd::prelude::*;

verus! {

pub struct ListApiKeysParams {
    /// Max results per page (default 20).
    pub page_size: Option<u32>,
    /// Pagination token from a previous list_api_keys call.
    pub pagination_token: Option<String>,
    /// Optional ACL filters — only return keys that match these ACL strings.
    pub acl_filters: Option<Vec<String>>,
    /// If true, only return non-expired / active keys (default false).
    pub active_only: Option<bool>,
}

pub struct CreateApiKeyParams {
    /// Human-readable name for the API key.
    pub name: String,
    /// ACL strings. Use ["api-key:model:*", "api-key:endpoint:*"] for full access.
    pub acls: Vec<String>,
    /// Queries-per-second limit (optional).
    pub qps: Option<u32>,
    /// Queries-per-minute limit (optional).
    pub qpm: Option<u32>,
    /// Tokens-per-minute limit (optional; sent as string).
    pub tpm: Option<u64>,
    /// Expiration time, RFC3339 (optional).
    pub expire_time: Option<String>,
}

pub struct UpdateApiKeyParams {
    /// API key ID (not the secret).
    pub api_key_id: String,
    pub name: Option<String>,
    pub acls: Option<Vec<String>>,
    pub qps: Option<u32>,
    pub qpm: Option<u32>,
    pub tpm: Option<u64>,
    pub disabled: Option<bool>,
}

pub struct DeleteApiKeyParams {
    pub api_key_id: String,
    /// Must be exactly "DELETE".
    pub confirm: String,
}

pub struct RotateApiKeyParams {
    pub api_key_id: String,
    /// Must be exactly "ROTATE".
    pub confirm: String,
}

pub struct ApiKeyIdParams {
    pub api_key_id: String,
}

} // verus!
