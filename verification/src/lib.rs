use vstd::prelude::*;

pub mod cli;
pub mod devices;
pub mod edid;
pub mod execution;
pub mod golden;
pub mod labels;
pub mod overrides;
pub mod plan;
pub mod settings;
pub mod srv;
pub mod stress;
pub mod text;
pub mod thermal;
pub mod vbios;
pub mod values;
pub mod verify;

verus! {

} // verus!
