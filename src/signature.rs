use vstd::prelude::*;
use crate::kind::ParameterKind;

verus! {

/// Where the parameter groups of a signature begin and end.
#[derive(Clone, Copy, Debug, PartialEq, Eq, Structural)]
pub struct ParamIndices {
    /// Number of leading parameters that can only be filled by position.
    pub num_positional_only: usize,
    /// Number of leading parameters that can be filled by position,
    /// the positional-only ones included.
    pub num_positional: usize,
    /// Index of the `*args` sink, if there is one.
    pub args: Option<usize>,
    /// Index of the `**kwargs` sink, if there is one.
    pub kwargs: Option<usize>,
}

/// The shape rules that every finished signature obeys, stated over its
/// parameter names, kinds and group boundaries.
pub open spec fn layout_wf<V>(
    names: Seq<Seq<char>>,
    kinds: Seq<ParameterKind<V>>,
    ix: ParamIndices,
) -> bool {
    &&& names.len() == kinds.len()
    &&& kinds.len() < usize::MAX
    &&& ix.num_positional_only <= ix.num_positional <= kinds.len()
    &&& forall|i: int| 0 <= i < ix.num_positional ==> (#[trigger] kinds[i]).is_regular()
    &&& match ix.args {
        Some(a) => a == ix.num_positional && a < kinds.len() && kinds[a as int] is Args,
        None => true,
    }
    &&& match ix.kwargs {
        Some(k) => k + 1 == kinds.len() && kinds[k as int] is KWargs,
        None => true,
    }
    &&& forall|i: int| 0 <= i < kinds.len() && (#[trigger] kinds[i]) is Args
        ==> ix.args == Some(i as usize)
    &&& forall|i: int| 0 <= i < kinds.len() && (#[trigger] kinds[i]) is KWargs
        ==> ix.kwargs == Some(i as usize)
    &&& forall|i: int, j: int|
        ix.num_positional_only <= i < j < kinds.len() && kinds[i].is_regular()
            && kinds[j].is_regular() ==> #[trigger] names[i] != #[trigger] names[j]
}

/// Whether parameter `i` can be addressed by name.
pub open spec fn is_named_param<V>(kinds: Seq<ParameterKind<V>>, ix: ParamIndices, i: int) -> bool {
    ix.num_positional_only <= i < kinds.len() && kinds[i].is_regular()
}

/// The index of the parameter that `name` addresses, if any.
pub open spec fn name_index_of<V>(
    names: Seq<Seq<char>>,
    kinds: Seq<ParameterKind<V>>,
    ix: ParamIndices,
    name: Seq<char>,
) -> Option<int> {
    if exists|i: int| is_named_param(kinds, ix, i) && #[trigger] names[i] == name {
        Some(choose|i: int| is_named_param(kinds, ix, i) && #[trigger] names[i] == name)
    } else {
        None
    }
}

/// A frozen parameter signature: names and kinds in declaration order and
/// the boundaries of the positional-only, positional, `*args`, named-only
/// and `**kwargs` groups.
#[derive(Clone, Debug)]
pub struct ParametersSpec<V> {
    /// Only used in error messages.
    pub(crate) function_name: String,
    /// Parameter kinds in the order they occur.
    pub(crate) param_kinds: Vec<ParameterKind<V>>,
    /// Parameter names in the order they occur.
    pub(crate) param_names: Vec<String>,
    pub(crate) indices: ParamIndices,
}

impl<V> ParametersSpec<V> {
    pub open(crate) spec fn function_name_view(&self) -> Seq<char> {
        self.function_name@
    }

    pub open(crate) spec fn names(&self) -> Seq<Seq<char>> {
        self.param_names@.map_values(|s: String| s@)
    }

    pub open(crate) spec fn kinds(&self) -> Seq<ParameterKind<V>> {
        self.param_kinds@
    }

    pub open(crate) spec fn ix(&self) -> ParamIndices {
        self.indices
    }

    pub open spec fn num_params(&self) -> int {
        self.kinds().len() as int
    }

    pub open spec fn wf(&self) -> bool {
        layout_wf(self.names(), self.kinds(), self.ix())
    }

    pub open spec fn name_index(&self, name: Seq<char>) -> Option<int> {
        name_index_of(self.names(), self.kinds(), self.ix(), name)
    }

    /// Number of function parameters.
    pub fn len(&self) -> (r: usize)
        requires
            self.wf(),
        ensures
            r == self.num_params(),
    {
        self.param_kinds.len()
    }

    /// The name under which the function appears in diagnostics.
    pub fn signature(&self) -> (r: String)
        ensures
            r@ == self.function_name_view(),
    {
        self.function_name.clone()
    }

    /// The index of the parameter that `name` addresses, if any.
    pub(crate) fn resolve_name(&self, name: &String) -> (r: Option<usize>)
        requires
            self.wf(),
        ensures
            r matches Some(i) ==> self.name_index(name@) == Some(i as int) && is_named_param(
                self.kinds(),
                self.ix(),
                i as int,
            ),
            r is None ==> self.name_index(name@) is None,
    {
        let n = self.param_kinds.len();
        let mut i: usize = self.indices.num_positional_only;
        while i < n
            invariant
                self.wf(),
                n == self.num_params(),
                self.ix().num_positional_only <= i <= n,
                forall|j: int|
                    self.ix().num_positional_only <= j < i && is_named_param(
                        self.kinds(),
                        self.ix(),
                        j,
                    ) ==> self.names()[j] != name@,
            decreases n - i,
        {
            if self.param_kinds[i].is_regular_exec() && self.param_names[i] == *name {
                proof {
                    let w = choose|j: int|
                        is_named_param(self.kinds(), self.ix(), j) && #[trigger] self.names()[j]
                            == name@;
                    assert(is_named_param(self.kinds(), self.ix(), i as int) && self.names()[i as int] == name@);
                    if w != i {
                        if w < i {
                            assert(self.names()[w] != self.names()[i as int]);
                        } else {
                            assert(self.names()[i as int] != self.names()[w]);
                        }
                    }
                }
                return Some(i);
            }
            i = i + 1;
        }
        None
    }
}

} // verus!
