use vstd::prelude::*;
use crate::kind::ParameterKind;
use crate::signature::ParametersSpec;

verus! {

impl<V> ParametersSpec<V> {
    /// Which parameters a call with `pos` positional arguments fills by
    /// position.
    pub open spec fn filled_by_position(&self, pos: int) -> Seq<bool> {
        Seq::new(self.num_params() as nat, |i: int| i < pos && i < self.ix().num_positional)
    }

    /// Names, in order, mark the parameter they address; a parameter marked
    /// twice fails, and so does an unknown name where there is no
    /// `**kwargs`.
    pub open spec fn fill_by_names(&self, names: Seq<Seq<char>>, filled: Seq<bool>) -> Option<Seq<bool>>
        decreases names.len(),
    {
        if names.len() == 0 {
            Some(filled)
        } else {
            match self.name_index(names[0]) {
                Some(i) => if filled[i] {
                    None
                } else {
                    self.fill_by_names(names.drop_first(), filled.update(i, true))
                },
                None => if self.ix().kwargs is None {
                    None
                } else {
                    self.fill_by_names(names.drop_first(), filled)
                },
            }
        }
    }

    /// Whether a call with `pos` positional arguments and the named
    /// arguments `names` can be bound: the positional arguments fit (or
    /// `*args` takes the rest), every name is accepted once, and every
    /// required parameter is filled.
    pub open spec fn can_fill(&self, pos: int, names: Seq<Seq<char>>) -> bool {
        &&& (pos <= self.ix().num_positional || self.ix().args is Some)
        &&& match self.fill_by_names(names, self.filled_by_position(pos)) {
            None => false,
            Some(f) => forall|i: int| 0 <= i < self.num_params() && !f[i] ==> !(#[trigger] self.kinds()[i] is Required),
        }
    }

    /// Check whether a call with `pos` positional arguments and the named
    /// arguments `names` could be bound to this signature.
    pub fn can_fill_with_args(&self, pos: usize, names: &[&str]) -> (r: bool)
        requires
            self.wf(),
        ensures
            r == self.can_fill(pos as int, names@.map_values(|s: &str| s@)),
    {
        let ghost names_m = names@.map_values(|s: &str| s@);
        let n = self.param_kinds.len();
        let np = self.indices.num_positional;
        if pos > np && self.indices.args.is_none() {
            return false;
        }
        let mut filled: Vec<bool> = Vec::with_capacity(n);
        let mut i: usize = 0;
        while i < n
            invariant
                n == self.num_params(),
                0 <= i <= n,
                np == self.ix().num_positional,
                filled@ =~= self.filled_by_position(pos as int).subrange(0, i as int),
            decreases n - i,
        {
            filled.push(i < pos && i < np);
            i = i + 1;
        }
        assert(names_m.subrange(0, names_m.len() as int) =~= names_m);
        assert(filled@ =~= self.filled_by_position(pos as int));
        let mut j: usize = 0;
        while j < names.len()
            invariant
                self.wf(),
                n == self.num_params(),
                filled@.len() == n,
                0 <= j <= names@.len(),
                names_m == names@.map_values(|s: &str| s@),
                self.fill_by_names(names_m, self.filled_by_position(pos as int)) == self.fill_by_names(
                    names_m.subrange(j as int, names_m.len() as int),
                    filled@,
                ),
            decreases names@.len() - j,
        {
            let ghost rest = names_m.subrange(j as int, names_m.len() as int);
            assert(rest.drop_first() =~= names_m.subrange(j + 1, names_m.len() as int));
            let name = names[j].to_owned();
            match self.resolve_name(&name) {
                Some(k) => {
                    if filled[k] {
                        return false;
                    }
                    filled.set(k, true);
                },
                None => {
                    if self.indices.kwargs.is_none() {
                        return false;
                    }
                },
            }
            j = j + 1;
        }
        assert(names_m.subrange(j as int, names_m.len() as int) =~= Seq::<Seq<char>>::empty());
        let mut i: usize = 0;
        while i < n
            invariant
                self.wf(),
                n == self.num_params(),
                filled@.len() == n,
                0 <= i <= n,
                pos <= self.ix().num_positional || self.ix().args is Some,
                names_m == names@.map_values(|s: &str| s@),
                self.fill_by_names(names_m, self.filled_by_position(pos as int)) == Some(filled@),
                forall|k: int| 0 <= k < i && !filled@[k] ==> !(#[trigger] self.kinds()[k] is Required),
            decreases n - i,
        {
            if !filled[i] {
                if let ParameterKind::Required = self.param_kinds[i] {
                    assert(!filled@[i as int] && self.kinds()[i as int] is Required);
                    return false;
                }
            }
            i = i + 1;
        }
        true
    }
}

} // verus!
