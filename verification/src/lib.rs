//! Verified core of the SAPIENT kernel study and C API: the integer arithmetic
//! of the Q4_K dot-product kernels, the deterministic fixtures they are
//! checked on, and the decisions behind the C ABI.
pub mod abi;
pub mod capi;
pub mod fixture;
pub mod quant;
pub mod text;
pub mod transcript;

pub use capi::{
    SAPIENT_API_VERSION, SAPIENT_BACKEND_AUTO, SAPIENT_BACKEND_CPU, SAPIENT_BACKEND_METAL,
    SAPIENT_BACKEND_WGPU, SAPIENT_ERR_GENERATION, SAPIENT_ERR_INTERNAL,
    SAPIENT_ERR_INVALID_ARGUMENT, SAPIENT_ERR_LOAD, SAPIENT_ERR_PANIC, SAPIENT_OK,
};
pub use fixture::lcg_bytes;
pub use quant::get_scale_min_k4;
