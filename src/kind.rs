use vstd::prelude::*;

verus! {

/// How one formal parameter behaves when a call does not supply it.
#[derive(Clone, Copy, Debug)]
pub enum ParameterKind<V> {
    /// The call must supply it.
    Required,
    /// When it is not supplied there is no error, and its slot stays empty.
    Optional,
    /// When it is not supplied its slot receives the held default.
    Defaulted(V),
    /// The `*args` sink: positional arguments left over.
    Args,
    /// The `**kwargs` sink: named arguments that match no parameter.
    KWargs,
}

impl<V> ParameterKind<V> {
    /// A parameter that is neither of the two variadic sinks.
    pub open spec fn is_regular(self) -> bool {
        !(self is Args) && !(self is KWargs)
    }

    pub(crate) fn is_regular_exec(&self) -> (r: bool)
        ensures
            r == self.is_regular(),
    {
        match self {
            ParameterKind::Args => false,
            ParameterKind::KWargs => false,
            _ => true,
        }
    }
}

} // verus!
