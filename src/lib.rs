//! Parameter signatures of a Python-like scripting language and the binding
//! of a call's arguments to a signature's parameter slots.

mod kind;
mod signature;
mod builder;
mod bind;
mod fill;
mod render;
mod docs;
mod modes;
mod system_stats;
mod parser;
pub mod laws;

pub use kind::ParameterKind;
pub use signature::ParamIndices;
pub use signature::ParametersSpec;
pub use builder::ParametersSpecBuilder;
pub use bind::{
    Arguments, ArgValue, BindError, CallModel, FunctionError, KwEntry, SlotModel, StarArgs, StarKwargs,
};
pub use docs::{DocDefault, DocModel, DocParam, DocParams};
pub use modes::{ModeModel, ParamMode};
pub use system_stats::DiskSpaceStats;
pub use parser::ParametersParser;
