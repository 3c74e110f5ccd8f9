use vstd::prelude::*;
use vstd::string::{StrSliceExecFns, StringExecFns};
use crate::kind::ParameterKind;
use crate::signature::ParametersSpec;

verus! {

/// A parameter's name without the `**`, `*` or `$` that marks its mode.
pub open spec fn bare_name(n: Seq<char>) -> Seq<char> {
    let a = if n.len() >= 2 && n[0] == '*' && n[1] == '*' { n.skip(2) } else { n };
    let b = if a.len() >= 1 && a[0] == '*' { a.skip(1) } else { a };
    if b.len() >= 1 && b[0] == '$' { b.skip(1) } else { b }
}

/// The items of a parameter list joined by `", "`.
pub open spec fn join_items(items: Seq<Seq<char>>) -> Seq<char>
    decreases items.len(),
{
    if items.len() == 0 {
        Seq::empty()
    } else if items.len() == 1 {
        items[0]
    } else {
        join_items(items.drop_last()) + seq![',', ' '] + items.last()
    }
}

pub open spec fn slash_item() -> Seq<char> {
    seq!['/']
}

pub open spec fn star_item() -> Seq<char> {
    seq!['*']
}

fn bare_name_exec(name: &String) -> (r: String)
    ensures
        r@ == bare_name(name@),
{
    let s = name.as_str();
    let len = s.unicode_len();
    let ghost n = name@;
    let mut start: usize = 0;
    if len >= 2 && s.get_char(0) == '*' && s.get_char(1) == '*' {
        start = 2;
    }
    let ghost a = if start == 2 { n.skip(2) } else { n };
    assert(a =~= n.subrange(start as int, len as int));
    if start < len && s.get_char(start) == '*' {
        start = start + 1;
    }
    let ghost b = if a.len() >= 1 && a[0] == '*' { a.skip(1) } else { a };
    assert(b =~= n.subrange(start as int, len as int));
    if start < len && s.get_char(start) == '$' {
        start = start + 1;
    }
    assert(bare_name(n) =~= n.subrange(start as int, len as int));
    s.substring_char(start, len).to_owned()
}

impl<V> ParametersSpec<V> {
    /// How parameter `i` appears in a `def`: its bare name, with `=...` for a
    /// default, `*` before `*args` and `**` before `**kwargs`.
    pub open spec fn render_param(&self, i: int) -> Seq<char> {
        let bare = bare_name(self.names()[i]);
        match self.kinds()[i] {
            ParameterKind::Defaulted(_) => bare + seq!['=', '.', '.', '.'],
            ParameterKind::Args => seq!['*'] + bare,
            ParameterKind::KWargs => seq!['*', '*'] + bare,
            _ => bare,
        }
    }

    /// Parameters `from <= i < to`, rendered.
    pub open spec fn render_range(&self, from: int, to: int) -> Seq<Seq<char>> {
        Seq::new((to - from) as nat, |j: int| self.render_param(from + j))
    }

    /// Where the named-only regular parameters begin.
    pub open spec fn named_only_start(&self) -> int {
        match self.ix().args {
            Some(a) => a + 1,
            None => self.ix().num_positional as int,
        }
    }

    /// Where the named-only regular parameters end.
    pub open spec fn named_only_end(&self) -> int {
        match self.ix().kwargs {
            Some(k) => k as int,
            None => self.num_params(),
        }
    }

    /// The items of the parameter list: positional-only parameters and `/`
    /// after them if there are any; the other positional parameters;
    /// `*args`, or a bare `*` where named-only parameters follow and there
    /// is no `*args`; the named-only parameters; `**kwargs`.
    pub open spec fn param_items(&self) -> Seq<Seq<char>> {
        let npo = self.ix().num_positional_only as int;
        let np = self.ix().num_positional as int;
        let slash = if npo > 0 { seq![slash_item()] } else { Seq::empty() };
        let star = match self.ix().args {
            Some(a) => seq![self.render_param(a as int)],
            None => if self.named_only_start() < self.named_only_end() { seq![star_item()] } else { Seq::empty() },
        };
        let kw = match self.ix().kwargs {
            Some(k) => seq![self.render_param(k as int)],
            None => Seq::empty(),
        };
        self.render_range(0, npo) + slash + self.render_range(npo, np) + star + self.render_range(
            self.named_only_start(),
            self.named_only_end(),
        ) + kw
    }

    fn render_param_exec(&self, i: usize) -> (r: String)
        requires
            self.wf(),
            i < self.num_params(),
        ensures
            r@ == self.render_param(i as int),
    {
        let bare = bare_name_exec(&self.param_names[i]);
        match &self.param_kinds[i] {
            ParameterKind::Defaulted(_) => {
                let mut r = bare;
                proof {
                    reveal_strlit("=...");
                }
                r.append("=...");
                r
            },
            ParameterKind::Args => {
                let mut r = String::new();
                proof {
                    reveal_strlit("*");
                }
                r.append("*");
                r.append(bare.as_str());
                r
            },
            ParameterKind::KWargs => {
                let mut r = String::new();
                proof {
                    reveal_strlit("**");
                }
                r.append("**");
                r.append(bare.as_str());
                r
            },
            _ => bare,
        }
    }

    fn push_range(&self, items: &mut Vec<String>, from: usize, to: usize)
        requires
            self.wf(),
            from <= to <= self.num_params(),
        ensures
            final(items)@.map_values(|s: String| s@) == old(items)@.map_values(|s: String| s@) + self.render_range(
                from as int,
                to as int,
            ),
    {
        let mut i: usize = from;
        while i < to
            invariant
                self.wf(),
                from <= i <= to <= self.num_params(),
                items@.map_values(|s: String| s@) =~= old(items)@.map_values(|s: String| s@) + self.render_range(
                    from as int,
                    i as int,
                ),
            decreases to - i,
        {
            let ghost prev = items@;
            let s = self.render_param_exec(i);
            items.push(s);
            assert(items@.map_values(|s: String| s@) =~= prev.map_values(|s: String| s@).push(self.render_param(i as int)));
            assert(self.render_range(from as int, i + 1) =~= self.render_range(from as int, i as int).push(self.render_param(i as int)));
            i = i + 1;
        }
    }

    /// Function parameters as they would appear in a `def`, without types
    /// and with `...` for default values.
    pub fn parameters_str(&self) -> (r: String)
        requires
            self.wf(),
        ensures
            r@ == join_items(self.param_items()),
    {
        let n = self.param_kinds.len();
        let npo = self.indices.num_positional_only;
        let np = self.indices.num_positional;
        let mut items: Vec<String> = Vec::new();
        assert(items@.map_values(|s: String| s@) =~= Seq::<Seq<char>>::empty());
        self.push_range(&mut items, 0, npo);
        if npo > 0 {
            let ghost prev = items@;
            let sep = "/".to_owned();
            proof {
                reveal_strlit("/");
                assert(sep@ =~= slash_item());
            }
            items.push(sep);
            assert(items@.map_values(|s: String| s@) =~= prev.map_values(|s: String| s@).push(slash_item()));
        }
        self.push_range(&mut items, npo, np);
        let start = match self.indices.args {
            Some(a) => a + 1,
            None => np,
        };
        let end = match self.indices.kwargs {
            Some(k) => k,
            None => n,
        };
        match self.indices.args {
            Some(a) => {
                let ghost prev = items@;
                items.push(self.render_param_exec(a));
                assert(items@.map_values(|s: String| s@) =~= prev.map_values(|s: String| s@).push(self.render_param(a as int)));
            },
            None => {
                if start < end {
                    let ghost prev = items@;
                    let sep = "*".to_owned();
                    proof {
                        reveal_strlit("*");
                        assert(sep@ =~= star_item());
                    }
                    items.push(sep);
                    assert(items@.map_values(|s: String| s@) =~= prev.map_values(|s: String| s@).push(star_item()));
                }
            },
        }
        self.push_range(&mut items, start, end);
        match self.indices.kwargs {
            Some(k) => {
                let ghost prev = items@;
                items.push(self.render_param_exec(k));
                assert(items@.map_values(|s: String| s@) =~= prev.map_values(|s: String| s@).push(self.render_param(k as int)));
            },
            None => {},
        }
        assert(items@.map_values(|s: String| s@) =~= self.param_items());
        let mut r = String::new();
        let mut i: usize = 0;
        let ghost all = items@.map_values(|s: String| s@);
        while i < items.len()
            invariant
                0 <= i <= items@.len(),
                all == items@.map_values(|s: String| s@),
                r@ == join_items(all.subrange(0, i as int)),
            decreases items@.len() - i,
        {
            assert(all.subrange(0, i + 1).drop_last() =~= all.subrange(0, i as int));
            if i > 0 {
                proof {
                    reveal_strlit(", ");
                }
                r.append(", ");
            } else {
                assert(r@ =~= Seq::<char>::empty());
            }
            r.append(items[i].as_str());
            i = i + 1;
        }
        assert(all.subrange(0, i as int) =~= all);
        r
    }
}

} // verus!
