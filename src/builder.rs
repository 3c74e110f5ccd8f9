use vstd::prelude::*;
use crate::kind::ParameterKind;
use crate::signature::{layout_wf, ParamIndices, ParametersSpec};

verus! {

/// Where in the grammar
/// `[pos-only] [/] [pos-or-named] [*args | *] [named-only] [**kwargs]`
/// the builder stands. It only moves forward.
#[derive(Clone, Copy, Debug, PartialEq, Eq, Structural)]
pub enum CurrentParameterStyle {
    /// Parameter can be only filled positionally.
    PosOnly,
    /// Parameter can be filled positionally or by name.
    PosOrNamed,
    /// Parameter can be filled by name only.
    NamedOnly,
    /// No more parameters accepted.
    NoMore,
}

/// Builder for [`ParametersSpec`].
pub struct ParametersSpecBuilder<V> {
    pub(crate) function_name: String,
    pub(crate) param_names: Vec<String>,
    pub(crate) param_kinds: Vec<ParameterKind<V>>,
    /// Number of parameters that can be filled only positionally.
    pub(crate) positional_only: usize,
    /// Number of parameters that can be filled positionally.
    pub(crate) positional: usize,
    pub(crate) current_style: CurrentParameterStyle,
    pub(crate) args: Option<usize>,
    pub(crate) kwargs: Option<usize>,
}

impl<V> ParametersSpecBuilder<V> {
    pub open(crate) spec fn function_name_view(&self) -> Seq<char> {
        self.function_name@
    }

    pub open(crate) spec fn names(&self) -> Seq<Seq<char>> {
        self.param_names@.map_values(|s: String| s@)
    }

    pub open(crate) spec fn kinds(&self) -> Seq<ParameterKind<V>> {
        self.param_kinds@
    }

    pub open(crate) spec fn style(&self) -> CurrentParameterStyle {
        self.current_style
    }

    pub open(crate) spec fn ix(&self) -> ParamIndices {
        ParamIndices {
            num_positional_only: self.positional_only,
            num_positional: self.positional,
            args: self.args,
            kwargs: self.kwargs,
        }
    }

    pub open spec fn num_params(&self) -> int {
        self.kinds().len() as int
    }

    /// The builder's state agrees with the parameters added so far.
    pub open spec fn wf(&self) -> bool {
        &&& layout_wf(self.names(), self.kinds(), self.ix())
        &&& self.kinds().len() + 2 < usize::MAX
        &&& (self.style() is PosOnly ==> self.ix().num_positional_only
            == self.ix().num_positional == self.kinds().len())
        &&& (self.style() is PosOrNamed ==> self.ix().num_positional == self.kinds().len())
        &&& ((self.style() is PosOnly || self.style() is PosOrNamed) ==> self.ix().args is None)
        &&& (self.style() is NoMore <==> self.ix().kwargs is Some)
    }

    /// Whether a regular parameter called `name` may be added now: not after
    /// `**kwargs`, and a name that can be used at a call site must be new.
    pub open spec fn can_add(&self, name: Seq<char>) -> bool {
        &&& !(self.style() is NoMore)
        &&& self.kinds().len() + 3 < usize::MAX
        &&& (!(self.style() is PosOnly) ==> forall|i: int|
            self.ix().num_positional_only <= i < self.num_params() && (
            #[trigger] self.kinds()[i]).is_regular() ==> self.names()[i] != name)
    }

    /// `new` is `old` with the regular parameter `name` of kind `kind` appended.
    pub open spec fn appended(old: Self, new: Self, name: Seq<char>, kind: ParameterKind<V>) -> bool {
        &&& new.function_name_view() == old.function_name_view()
        &&& new.names() == old.names().push(name)
        &&& new.kinds() == old.kinds().push(kind)
        &&& new.style() == old.style()
        &&& new.ix().args == old.ix().args
        &&& new.ix().kwargs == old.ix().kwargs
        &&& new.ix().num_positional == if old.style() is PosOnly || old.style() is PosOrNamed {
            old.num_params() + 1
        } else {
            old.ix().num_positional as int
        }
        &&& new.ix().num_positional_only == if old.style() is PosOnly {
            old.num_params() + 1
        } else {
            old.ix().num_positional_only as int
        }
    }

    fn add(&mut self, name: &str, val: ParameterKind<V>)
        requires
            old(self).wf(),
            old(self).can_add(name@),
            val.is_regular(),
        ensures
            final(self).wf(),
            Self::appended(*old(self), *final(self), name@, val),
    {
        let i = self.param_kinds.len();
        self.param_names.push(name.to_owned());
        self.param_kinds.push(val);
        if self.args.is_none() && self.current_style != CurrentParameterStyle::NamedOnly {
            // Before `*args` or `*` a parameter can be entered positionally.
            self.positional = i + 1;
            if self.current_style == CurrentParameterStyle::PosOnly {
                self.positional_only = i + 1;
            }
        }
        proof {
            assert(self.names() =~= old(self).names().push(name@));
            let names = self.names();
            let kinds = self.kinds();
            let ix = self.ix();
            assert forall|a: int, b: int|
                ix.num_positional_only <= a < b < kinds.len() && kinds[a].is_regular()
                    && kinds[b].is_regular() implies #[trigger] names[a] != #[trigger] names[b] by {
                if b == i {
                    assert(old(self).kinds()[a].is_regular());
                } else {
                    assert(old(self).names()[a] != old(self).names()[b]);
                }
            }
        }
    }

    /// Add a required parameter. It is an error if the caller does not
    /// supply it.
    pub fn required(&mut self, name: &str)
        requires
            old(self).wf(),
            old(self).can_add(name@),
        ensures
            final(self).wf(),
            Self::appended(*old(self), *final(self), name@, ParameterKind::Required),
    {
        self.add(name, ParameterKind::Required);
    }

    /// Add an optional parameter. Its slot stays empty if the caller does
    /// not supply it.
    pub fn optional(&mut self, name: &str)
        requires
            old(self).wf(),
            old(self).can_add(name@),
        ensures
            final(self).wf(),
            Self::appended(*old(self), *final(self), name@, ParameterKind::Optional),
    {
        self.add(name, ParameterKind::Optional);
    }

    /// Add a parameter whose slot receives `val` if the caller does not
    /// supply it.
    pub fn defaulted(&mut self, name: &str, val: V)
        requires
            old(self).wf(),
            old(self).can_add(name@),
        ensures
            final(self).wf(),
            Self::appended(*old(self), *final(self), name@, ParameterKind::Defaulted(val)),
    {
        self.add(name, ParameterKind::Defaulted(val));
    }

    /// `new` is `old` with the style moved to `style` and nothing else changed.
    pub open spec fn restyled(old: Self, new: Self, style: CurrentParameterStyle) -> bool {
        &&& new.function_name_view() == old.function_name_view()
        &&& new.names() == old.names()
        &&& new.kinds() == old.kinds()
        &&& new.ix() == old.ix()
        &&& new.style() == style
    }

    /// `new` is `old` with a variadic sink `name` of kind `kind` appended.
    pub open spec fn sink_appended(
        old: Self,
        new: Self,
        name: Seq<char>,
        kind: ParameterKind<V>,
    ) -> bool {
        &&& new.function_name_view() == old.function_name_view()
        &&& new.names() == old.names().push(name)
        &&& new.kinds() == old.kinds().push(kind)
        &&& new.ix().num_positional_only == old.ix().num_positional_only
        &&& new.ix().num_positional == old.ix().num_positional
    }

    /// Add an `*args` parameter, which collects the positional arguments
    /// left over. Regular parameters added after it can only be supplied by
    /// name.
    pub fn args(&mut self)
        requires
            old(self).wf(),
            old(self).style() is PosOnly || old(self).style() is PosOrNamed,
            old(self).num_params() + 3 < usize::MAX,
        ensures
            final(self).wf(),
            Self::sink_appended(*old(self), *final(self), seq!['*', 'a', 'r', 'g', 's'], ParameterKind::Args),
            final(self).ix().args == Some(old(self).num_params() as usize),
            final(self).ix().kwargs == old(self).ix().kwargs,
            final(self).style() is NamedOnly,
    {
        let sink_name = "*args".to_owned();
        proof {
            reveal_strlit("*args");
            assert(sink_name@ =~= seq!['*', 'a', 'r', 'g', 's']);
        }
        self.param_names.push(sink_name);
        self.param_kinds.push(ParameterKind::Args);
        self.args = Some(self.param_kinds.len() - 1);
        self.current_style = CurrentParameterStyle::NamedOnly;
        proof {
            assert(self.names() =~= old(self).names().push(seq!['*', 'a', 'r', 'g', 's']));
            let names = self.names();
            let kinds = self.kinds();
            let ix = self.ix();
            assert forall|a: int, b: int|
                ix.num_positional_only <= a < b < kinds.len() && kinds[a].is_regular()
                    && kinds[b].is_regular() implies #[trigger] names[a] != #[trigger] names[b] by {
                assert(old(self).names()[a] != old(self).names()[b]);
            }
        }
    }

    /// Following parameters can be filled positionally or by name: the `/`
    /// of a declaration.
    pub fn no_more_positional_only_args(&mut self)
        requires
            old(self).wf(),
            old(self).style() is PosOnly,
        ensures
            final(self).wf(),
            Self::restyled(*old(self), *final(self), CurrentParameterStyle::PosOrNamed),
    {
        self.current_style = CurrentParameterStyle::PosOrNamed;
    }

    /// The function has no `*args` parameter, but following parameters can
    /// only be supplied by name: the bare `*` of a declaration.
    pub fn no_more_positional_args(&mut self)
        requires
            old(self).wf(),
            old(self).style() is PosOnly || old(self).style() is PosOrNamed,
        ensures
            final(self).wf(),
            Self::restyled(*old(self), *final(self), CurrentParameterStyle::NamedOnly),
    {
        self.current_style = CurrentParameterStyle::NamedOnly;
    }

    /// Add a `**kwargs` parameter, which collects the named arguments that
    /// match no parameter. No parameter can follow it.
    pub fn kwargs(&mut self)
        requires
            old(self).wf(),
            !(old(self).style() is NoMore),
            old(self).num_params() + 3 < usize::MAX,
        ensures
            final(self).wf(),
            Self::sink_appended(
                *old(self),
                *final(self),
                seq!['*', '*', 'k', 'w', 'a', 'r', 'g', 's'],
                ParameterKind::KWargs,
            ),
            final(self).ix().args == old(self).ix().args,
            final(self).ix().kwargs == Some(old(self).num_params() as usize),
            final(self).style() is NoMore,
    {
        let sink_name = "**kwargs".to_owned();
        proof {
            reveal_strlit("**kwargs");
            assert(sink_name@ =~= seq!['*', '*', 'k', 'w', 'a', 'r', 'g', 's']);
        }
        self.param_names.push(sink_name);
        self.param_kinds.push(ParameterKind::KWargs);
        self.kwargs = Some(self.param_kinds.len() - 1);
        self.current_style = CurrentParameterStyle::NoMore;
        proof {
            assert(self.names() =~= old(self).names().push(seq!['*', '*', 'k', 'w', 'a', 'r', 'g', 's']));
            let names = self.names();
            let kinds = self.kinds();
            let ix = self.ix();
            assert forall|a: int, b: int|
                ix.num_positional_only <= a < b < kinds.len() && kinds[a].is_regular()
                    && kinds[b].is_regular() implies #[trigger] names[a] != #[trigger] names[b] by {
                assert(old(self).names()[a] != old(self).names()[b]);
            }
        }
    }

    /// Freeze the parameters added so far into a signature.
    pub fn finish(self) -> (r: ParametersSpec<V>)
        requires
            self.wf(),
        ensures
            r.wf(),
            r.function_name_view() == self.function_name_view(),
            r.names() == self.names(),
            r.kinds() == self.kinds(),
            r.ix() == self.ix(),
    {
        ParametersSpec {
            function_name: self.function_name,
            param_kinds: self.param_kinds,
            param_names: self.param_names,
            indices: ParamIndices {
                num_positional_only: self.positional_only,
                num_positional: self.positional,
                args: self.args,
                kwargs: self.kwargs,
            },
        }
    }
}

impl<V> ParametersSpec<V> {
    /// Start the signature of a function called `function_name`.
    pub fn new(function_name: String) -> (r: ParametersSpecBuilder<V>)
        ensures
            r.wf(),
            r.function_name_view() == function_name@,
            r.num_params() == 0,
            r.style() is PosOnly,
    {
        Self::with_capacity(function_name, 0)
    }

    /// Start the signature of a function called `function_name`, with room
    /// for `capacity` parameters reserved.
    pub fn with_capacity(function_name: String, capacity: usize) -> (r: ParametersSpecBuilder<V>)
        ensures
            r.wf(),
            r.function_name_view() == function_name@,
            r.num_params() == 0,
            r.style() is PosOnly,
    {
        ParametersSpecBuilder {
            function_name,
            param_names: Vec::with_capacity(capacity),
            param_kinds: Vec::with_capacity(capacity),
            positional_only: 0,
            positional: 0,
            current_style: CurrentParameterStyle::PosOnly,
            args: None,
            kwargs: None,
        }
    }
}

} // verus!
