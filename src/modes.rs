use vstd::prelude::*;
use crate::kind::ParameterKind;
use crate::signature::ParametersSpec;

verus! {

/// How a caller can supply a parameter; the flag says whether it must.
#[derive(Clone, Debug, PartialEq, Eq)]
pub enum ParamMode {
    PosOnly(bool),
    PosOrName(String, bool),
    NameOnly(String, bool),
    Args,
    Kwargs,
}

/// A parameter mode, as mathematical values.
pub enum ModeModel {
    PosOnly(bool),
    PosOrName(Seq<char>, bool),
    NameOnly(Seq<char>, bool),
    Args,
    Kwargs,
}

impl ParamMode {
    pub open spec fn model(self) -> ModeModel {
        match self {
            ParamMode::PosOnly(r) => ModeModel::PosOnly(r),
            ParamMode::PosOrName(n, r) => ModeModel::PosOrName(n@, r),
            ParamMode::NameOnly(n, r) => ModeModel::NameOnly(n@, r),
            ParamMode::Args => ModeModel::Args,
            ParamMode::Kwargs => ModeModel::Kwargs,
        }
    }
}

impl<V> ParametersSpec<V> {
    /// The mode of parameter `i`.
    pub open spec fn mode_of(&self, i: int) -> ModeModel {
        let name = self.names()[i];
        let required = self.kinds()[i] is Required;
        if i < self.ix().num_positional_only {
            ModeModel::PosOnly(required)
        } else if i < self.ix().num_positional {
            ModeModel::PosOrName(name, required)
        } else {
            match self.kinds()[i] {
                ParameterKind::Args => ModeModel::Args,
                ParameterKind::KWargs => ModeModel::Kwargs,
                _ => ModeModel::NameOnly(name, required),
            }
        }
    }

    /// Each parameter's name and mode, in order.
    pub fn iter_param_modes(&self) -> (r: Vec<(String, ParamMode)>)
        requires
            self.wf(),
        ensures
            r@.len() == self.num_params(),
            forall|i: int| 0 <= i < r@.len() ==> (#[trigger] r@[i]).0@ == self.names()[i] && r@[i].1.model() == self.mode_of(i),
    {
        let n = self.param_kinds.len();
        let mut r: Vec<(String, ParamMode)> = Vec::with_capacity(n);
        let mut i: usize = 0;
        while i < n
            invariant
                self.wf(),
                n == self.num_params(),
                0 <= i <= n,
                r@.len() == i,
                forall|j: int| 0 <= j < i ==> (#[trigger] r@[j]).0@ == self.names()[j] && r@[j].1.model() == self.mode_of(j),
            decreases n - i,
        {
            let required = match &self.param_kinds[i] {
                ParameterKind::Required => true,
                _ => false,
            };
            let mode = if i < self.indices.num_positional_only {
                ParamMode::PosOnly(required)
            } else if i < self.indices.num_positional {
                ParamMode::PosOrName(self.param_names[i].clone(), required)
            } else {
                match &self.param_kinds[i] {
                    ParameterKind::Args => ParamMode::Args,
                    ParameterKind::KWargs => ParamMode::Kwargs,
                    _ => ParamMode::NameOnly(self.param_names[i].clone(), required),
                }
            };
            r.push((self.param_names[i].clone(), mode));
            i = i + 1;
        }
        r
    }
}

} // verus!
