//! Verified building blocks of an H.264/SVC video encoder.
#![allow(non_snake_case, non_camel_case_types, non_upper_case_globals)]
use vstd::prelude::*;

pub mod bits;
pub mod vlc_encoder;
pub mod mb;
pub mod svc_set_mb_syn_cavlc;
pub mod cavlc_mb_residual;
pub mod cavlc_mb_pred;
pub mod svc_encode_mb;
pub mod svc_set_mb_syn_cabac;
pub mod svc_motion_estimate;
pub mod feature_search;
pub mod svc_mode_decision;
pub mod svc_encode_slice;
pub mod wels_encoder_ext;

verus! {

} // verus!
