use vstd::prelude::*;
use crate::kind::ParameterKind;
use crate::signature::ParametersSpec;

verus! {

/// What the documentation shows as a parameter's default.
#[derive(Clone, Debug, PartialEq, Eq)]
pub enum DocDefault<V> {
    /// The parameter may be left out, and then has no value (shown as `_`).
    Unspecified,
    /// The parameter's default value.
    Value(V),
}

/// One entry of a function's parameter documentation.
#[derive(Clone, Debug, PartialEq, Eq)]
pub enum DocParam<T, V> {
    Arg { name: String, docs: Option<String>, typ: T, default_value: Option<DocDefault<V>> },
    Args { name: String, docs: Option<String>, tuple_elem_ty: T },
    Kwargs { name: String, docs: Option<String>, dict_value_ty: T },
    /// The `/` that ends the positional-only parameters.
    OnlyPosBefore,
    /// The `*` after which parameters can only be named.
    OnlyNamedAfter,
}

/// The parameter documentation of a function.
#[derive(Clone, Debug, PartialEq, Eq)]
pub struct DocParams<T, V> {
    pub params: Vec<DocParam<T, V>>,
}

/// A documentation entry, as mathematical values.
pub enum DocModel<T, V> {
    Arg { name: Seq<char>, docs: Option<Seq<char>>, typ: T, default_value: Option<DocDefault<V>> },
    Args { name: Seq<char>, docs: Option<Seq<char>>, typ: T },
    Kwargs { name: Seq<char>, docs: Option<Seq<char>>, typ: T },
    OnlyPosBefore,
    OnlyNamedAfter,
}

pub open spec fn opt_text(o: Option<String>) -> Option<Seq<char>> {
    match o {
        Some(s) => Some(s@),
        None => None,
    }
}

impl<T, V> DocParam<T, V> {
    pub open spec fn model(self) -> DocModel<T, V> {
        match self {
            DocParam::Arg { name, docs, typ, default_value } => DocModel::Arg {
                name: name@,
                docs: opt_text(docs),
                typ,
                default_value,
            },
            DocParam::Args { name, docs, tuple_elem_ty } => DocModel::Args {
                name: name@,
                docs: opt_text(docs),
                typ: tuple_elem_ty,
            },
            DocParam::Kwargs { name, docs, dict_value_ty } => DocModel::Kwargs {
                name: name@,
                docs: opt_text(docs),
                typ: dict_value_ty,
            },
            DocParam::OnlyPosBefore => DocModel::OnlyPosBefore,
            DocParam::OnlyNamedAfter => DocModel::OnlyNamedAfter,
        }
    }
}

pub type DocText = Seq<(Seq<char>, Option<Seq<char>>)>;

pub open spec fn docs_view(d: Seq<(String, Option<String>)>) -> DocText {
    d.map_values(|p: (String, Option<String>)| (p.0@, opt_text(p.1)))
}

/// The documentation given for `name`: that of its first entry, if any.
pub open spec fn doc_of(docs: DocText, name: Seq<char>) -> Option<Seq<char>>
    decreases docs.len(),
{
    if docs.len() == 0 {
        None
    } else if docs[0].0 == name {
        docs[0].1
    } else {
        doc_of(docs.drop_first(), name)
    }
}

impl<V> ParametersSpec<V> {
    /// The documentation entry of parameter `i`, of type `typ`.
    pub open spec fn doc_entry<T>(&self, i: int, typ: T, docs: DocText) -> DocModel<T, V> {
        let name = self.names()[i];
        let d = doc_of(docs, name);
        match self.kinds()[i] {
            ParameterKind::Required => DocModel::Arg { name, docs: d, typ, default_value: None },
            ParameterKind::Optional => DocModel::Arg {
                name,
                docs: d,
                typ,
                default_value: Some(DocDefault::Unspecified),
            },
            ParameterKind::Defaulted(v) => DocModel::Arg {
                name,
                docs: d,
                typ,
                default_value: Some(DocDefault::Value(v)),
            },
            ParameterKind::Args => DocModel::Args { name, docs: d, typ },
            ParameterKind::KWargs => DocModel::Kwargs { name, docs: d, typ },
        }
    }

    /// The entries for parameter `i`: a `/` before the first parameter that
    /// can be named, where positional-only ones precede it; a `*` before the
    /// first named-only regular parameter; then the parameter itself.
    pub open spec fn doc_group<T>(&self, i: int, typ: T, docs: DocText) -> Seq<DocModel<T, V>> {
        let slash: Seq<DocModel<T, V>> = if i != 0 && i == self.ix().num_positional_only {
            seq![DocModel::OnlyPosBefore]
        } else {
            Seq::empty()
        };
        let star: Seq<DocModel<T, V>> = if self.kinds()[i].is_regular() && i == self.ix().num_positional {
            seq![DocModel::OnlyNamedAfter]
        } else {
            Seq::empty()
        };
        slash + star + seq![self.doc_entry(i, typ, docs)]
    }

    /// The groups of the first `k` parameters, in order.
    pub open spec fn doc_prefix<T>(&self, k: int, types: Seq<T>, docs: DocText) -> Seq<DocModel<T, V>>
        decreases k,
    {
        if k <= 0 {
            Seq::empty()
        } else {
            self.doc_prefix(k - 1, types, docs) + self.doc_group(k - 1, types[k - 1], docs)
        }
    }

    /// The whole documentation: the groups of all parameters, and a final
    /// `/` where every parameter is positional-only.
    pub open spec fn doc_model<T>(&self, types: Seq<T>, docs: DocText) -> Seq<DocModel<T, V>> {
        let n = self.num_params();
        self.doc_prefix(n, types, docs) + if self.ix().num_positional_only == n && n != 0 {
            seq![DocModel::OnlyPosBefore]
        } else {
            Seq::empty()
        }
    }
}

fn doc_lookup(docs: &Vec<(String, Option<String>)>, name: &String) -> (r: Option<String>)
    ensures
        opt_text(r) == doc_of(docs_view(docs@), name@),
{
    let ghost all = docs_view(docs@);
    let mut i: usize = 0;
    assert(all.subrange(0, all.len() as int) =~= all);
    while i < docs.len()
        invariant
            0 <= i <= docs@.len(),
            all == docs_view(docs@),
            doc_of(all, name@) == doc_of(all.subrange(i as int, all.len() as int), name@),
        decreases docs@.len() - i,
    {
        let ghost rest = all.subrange(i as int, all.len() as int);
        assert(rest.drop_first() =~= all.subrange(i + 1, all.len() as int));
        if docs[i].0 == *name {
            return match &docs[i].1 {
                Some(d) => Some(d.clone()),
                None => None,
            };
        }
        i = i + 1;
    }
    None
}

impl<V: Copy> ParametersSpec<V> {
    /// Documentation for each of the parameters. `parameter_types` holds the
    /// type of each parameter, in order; `parameter_docs` the documentation
    /// of parameters by name.
    pub fn documentation<T>(
        &self,
        parameter_types: Vec<T>,
        parameter_docs: Vec<(String, Option<String>)>,
    ) -> (r: DocParams<T, V>)
        requires
            self.wf(),
            parameter_types@.len() == self.num_params(),
        ensures
            r.params@.map_values(|p: DocParam<T, V>| p.model()) == self.doc_model(
                parameter_types@,
                docs_view(parameter_docs@),
            ),
    {
        let ghost types = parameter_types@;
        let ghost docs = docs_view(parameter_docs@);
        let n = self.param_kinds.len();
        let npo = self.indices.num_positional_only;
        let np = self.indices.num_positional;
        let mut types_left = parameter_types;
        let mut params: Vec<DocParam<T, V>> = Vec::new();
        let mut i: usize = 0;
        assert(params@.map_values(|p: DocParam<T, V>| p.model()) =~= self.doc_prefix(0, types, docs));
        while i < n
            invariant
                self.wf(),
                n == self.num_params(),
                npo == self.ix().num_positional_only,
                np == self.ix().num_positional,
                types.len() == n,
                0 <= i <= n,
                docs == docs_view(parameter_docs@),
                types_left@ == types.subrange(i as int, n as int),
                params@.map_values(|p: DocParam<T, V>| p.model()) == self.doc_prefix(i as int, types, docs),
            decreases n - i,
        {
            let ghost prev = params@.map_values(|p: DocParam<T, V>| p.model());
            let typ = types_left.remove(0);
            assert(typ == types[i as int]);
            assert(types_left@ =~= types.subrange(i + 1, n as int));
            if i != 0 && i == npo {
                params.push(DocParam::OnlyPosBefore);
            }
            let regular = self.param_kinds[i].is_regular_exec();
            if regular && i == np {
                params.push(DocParam::OnlyNamedAfter);
            }
            let name = self.param_names[i].clone();
            let d = doc_lookup(&parameter_docs, &name);
            let entry = match &self.param_kinds[i] {
                ParameterKind::Required => DocParam::Arg { name, docs: d, typ, default_value: None },
                ParameterKind::Optional => DocParam::Arg {
                    name,
                    docs: d,
                    typ,
                    default_value: Some(DocDefault::Unspecified),
                },
                ParameterKind::Defaulted(v) => DocParam::Arg {
                    name,
                    docs: d,
                    typ,
                    default_value: Some(DocDefault::Value(*v)),
                },
                ParameterKind::Args => DocParam::Args { name, docs: d, tuple_elem_ty: typ },
                ParameterKind::KWargs => DocParam::Kwargs { name, docs: d, dict_value_ty: typ },
            };
            params.push(entry);
            assert(params@.map_values(|p: DocParam<T, V>| p.model()) =~= prev + self.doc_group(i as int, types[i as int], docs));
            i = i + 1;
        }
        if npo == n && n != 0 {
            params.push(DocParam::OnlyPosBefore);
        }
        assert(params@.map_values(|p: DocParam<T, V>| p.model()) =~= self.doc_model(types, docs));
        DocParams { params }
    }
}

} // verus!
