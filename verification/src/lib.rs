//! Quote aggregation engine: provider eligibility, dispatch bookkeeping,
//! quote normalisation and short-lived correlation of results.

pub mod amount;
pub mod approval;
pub mod bungee;
pub mod create_clients;
pub mod dapps;
pub mod deserialization_helpers;
pub mod fetch_token_details;
pub mod filter_dapps;
pub mod fixed_point;
pub mod format_swap_details;
pub mod json;
pub mod keyed_store;
pub mod load_resources;
pub mod quote;
pub mod quote_handler;
pub mod quote_router;
pub mod quote_service;
pub mod serializer;
pub mod text;
pub mod token_conversion;
pub mod token_storage;
pub mod utils;
pub mod validate_params;
