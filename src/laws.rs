use vstd::prelude::*;
use crate::bind::{BindError, CallModel, Pairs, SlotModel, Slots, min_int};
use crate::kind::ParameterKind;
use crate::docs::{DocModel, DocText};
use crate::render::{slash_item, star_item};
use crate::signature::ParametersSpec;

verus! {

/// A call that the fast path accepts binds, by the general rules, to the
/// positional arguments in order, each in its own slot.
pub proof fn lemma_fast_path_agrees<V>(s: ParametersSpec<V>, call: CallModel<V>)
    requires
        s.wf(),
        s.fast_path_eligible(call),
    ensures
        s.bind_model(call) == Ok::<_, crate::bind::BindError>(
            Seq::new(s.num_params() as nat, |i: int| Some(SlotModel::Value(call.pos[i]))),
        ),
{
    let n = s.num_params();
    let slots = s.positional_slots(call.pos);
    assert(slots =~= Seq::new(n as nat, |i: int| Some(SlotModel::Value(call.pos[i]))));
    assert(s.named_stage(call) == (slots, n, Seq::<(Seq<char>, V)>::empty()));
    assert(s.positional_overflow(call.pos) =~= Seq::<V>::empty());
    assert(s.defaults_phase(n, slots) == Ok::<_, crate::bind::BindError>(slots));
    if let Some(a) = s.ix().args {
        assert(false);
    }
    if let Some(k) = s.ix().kwargs {
        assert(s.kinds()[k as int].is_regular());
        assert(false);
    }
}

/// Binding is a function of the signature and the call: equal calls have
/// equal outcomes, slot contents and errors alike.
pub proof fn lemma_bind_deterministic<V>(s: ParametersSpec<V>, c1: CallModel<V>, c2: CallModel<V>)
    requires
        c1 == c2,
    ensures
        s.bind_model(c1) == s.bind_model(c2),
{
}

proof fn lemma_named_keeps<V>(s: ParametersSpec<V>, named: Pairs<V>, slots: Slots<V>, lowest: int, ov: Pairs<V>)
    requires
        s.wf(),
        slots.len() == s.num_params(),
    ensures
        s.named_phase(named, slots, lowest, ov).0.len() == slots.len(),
        forall|i: int| 0 <= i < slots.len() && slots[i] is Some ==> (#[trigger] s.named_phase(named, slots, lowest, ov).0[i]) is Some,
    decreases named.len(),
{
    if named.len() > 0 {
        let (n, v) = named[0];
        match s.name_index(n) {
            Some(i) => {
                lemma_named_keeps(s, named.drop_first(), slots.update(i, Some(SlotModel::Value(v))), min_int(lowest, i), ov);
            },
            None => {
                lemma_named_keeps(s, named.drop_first(), slots, lowest, crate::bind::overflow_insert(ov, n, v).0);
            },
        }
    }
}

proof fn lemma_star_fills<V>(s: ParametersSpec<V>, items: Seq<V>, slots: Slots<V>, next: int, star: Seq<V>)
    requires
        s.wf(),
        slots.len() == s.num_params(),
        0 <= next <= s.ix().num_positional,
        forall|i: int| 0 <= i < next ==> (#[trigger] slots[i]) is Some,
    ensures
        s.star_phase(items, slots, next, star).0.len() == slots.len(),
        next <= s.star_phase(items, slots, next, star).1 <= s.ix().num_positional,
        forall|i: int| 0 <= i < s.star_phase(items, slots, next, star).1 ==> (#[trigger] s.star_phase(items, slots, next, star).0[i]) is Some,
    decreases items.len(),
{
    if items.len() > 0 {
        if next < s.ix().num_positional {
            let slots2 = slots.update(next, Some(SlotModel::Value(items[0])));
            assert forall|i: int| 0 <= i < next + 1 implies (#[trigger] slots2[i]) is Some by {
                if i < next {
                    assert(slots[i] is Some);
                }
            }
            lemma_star_fills(s, items.drop_first(), slots2, next + 1, star);
        } else {
            lemma_star_fills(s, items.drop_first(), slots, next, star.push(items[0]));
        }
    }
}

proof fn lemma_kwargs_keeps<V>(s: ParametersSpec<V>, es: Seq<(Option<Seq<char>>, V)>, slots: Slots<V>, ov: Pairs<V>)
    requires
        s.wf(),
        slots.len() == s.num_params(),
        s.kwargs_phase(es, slots, ov) is Ok,
    ensures
        s.kwargs_phase(es, slots, ov)->Ok_0.0.len() == slots.len(),
        forall|i: int| 0 <= i < slots.len() && slots[i] is Some ==> (#[trigger] s.kwargs_phase(es, slots, ov)->Ok_0.0[i]) is Some,
    decreases es.len(),
{
    if es.len() > 0 {
        if let Some(k) = es[0].0 {
            match s.name_index(k) {
                Some(i) => {
                    lemma_kwargs_keeps(s, es.drop_first(), slots.update(i, Some(SlotModel::Value(es[0].1))), ov);
                },
                None => {
                    lemma_kwargs_keeps(s, es.drop_first(), slots, crate::bind::overflow_insert(ov, k, es[0].1).0);
                },
            }
        }
    }
}

proof fn lemma_defaults_fill<V>(s: ParametersSpec<V>, index: int, slots: Slots<V>)
    requires
        s.wf(),
        slots.len() == s.num_params(),
        0 <= index,
        s.defaults_phase(index, slots) is Ok,
    ensures
        s.defaults_phase(index, slots)->Ok_0.len() == slots.len(),
        forall|i: int| 0 <= i < slots.len() && slots[i] is Some ==> (#[trigger] s.defaults_phase(index, slots)->Ok_0[i]) is Some,
        forall|i: int| index <= i < slots.len() && (#[trigger] s.defaults_phase(index, slots)->Ok_0[i]) is None
            ==> s.kinds()[i] is Optional || s.kinds()[i] is Args || s.kinds()[i] is KWargs,
    decreases s.num_params() - index,
{
    if index < s.num_params() {
        if slots[index] is Some {
            lemma_defaults_fill(s, index + 1, slots);
        } else {
            match s.kinds()[index] {
                ParameterKind::Defaulted(v) => {
                    lemma_defaults_fill(s, index + 1, slots.update(index, Some(SlotModel::Value(v))));
                },
                _ => {
                    lemma_defaults_fill(s, index + 1, slots);
                },
            }
        }
    }
}

/// After a successful binding every parameter slot holds a value, but for
/// an optional parameter that the call did not supply.
pub proof fn lemma_bound_slots_are_filled<V>(s: ParametersSpec<V>, call: CallModel<V>)
    requires
        s.wf(),
        s.bind_model(call) is Ok,
    ensures
        s.bind_model(call)->Ok_0.len() == s.num_params(),
        forall|i: int| 0 <= i < s.num_params() && (#[trigger] s.bind_model(call)->Ok_0[i]) is None
            ==> s.kinds()[i] is Optional,
{
    let n = s.num_params();
    let slots1 = s.positional_slots(call.pos);
    let next1 = min_int(call.pos.len() as int, s.ix().num_positional as int);
    let (slots2, lowest, ov2) = s.named_stage(call);
    lemma_named_keeps(s, call.named, slots1, n, Seq::empty());
    assert forall|i: int| 0 <= i < next1 implies (#[trigger] slots2[i]) is Some by {
        assert(slots1[i] is Some);
    }
    let (slots3, next3, star3) = s.star_stage(call, slots2)->Ok_0;
    if let Some(Some(items)) = call.args {
        lemma_star_fills(s, items, slots2, next1, s.positional_overflow(call.pos));
    }
    let after_kwargs = match call.kwargs {
        None => Ok::<(Slots<V>, Pairs<V>), BindError>((slots3, ov2)),
        Some(None) => Err(BindError::KwArgsIsNotDict),
        Some(Some(es)) => s.kwargs_phase(es, slots3, ov2),
    };
    let (slots5, ov5) = after_kwargs->Ok_0;
    if let Some(Some(es)) = call.kwargs {
        lemma_kwargs_keeps(s, es, slots3, ov2);
    }
    lemma_defaults_fill(s, next3, slots5);
    let slots6 = s.defaults_phase(next3, slots5)->Ok_0;
    let r = s.bind_model(call)->Ok_0;
    assert(r == s.sinks_phase(slots6, star3, ov5)->Ok_0);
    assert forall|i: int| 0 <= i < n && (#[trigger] r[i]) is None implies s.kinds()[i] is Optional by {
        if i < next3 {
            assert(slots3[i] is Some);
            assert(slots5[i] is Some);
            assert(slots6[i] is Some);
        } else {
            assert(slots6[i] is None);
            if s.kinds()[i] is Args {
                assert(s.ix().args == Some(i as usize));
            }
            if s.kinds()[i] is KWargs {
                assert(s.ix().kwargs == Some(i as usize));
            }
        }
    }
}

/// The names of a call's named arguments, in order.
pub open spec fn named_keys<V>(named: Pairs<V>) -> Seq<Seq<char>> {
    named.map_values(|p: (Seq<char>, V)| p.0)
}

/// No name occurs twice.
pub open spec fn distinct_names(keys: Seq<Seq<char>>) -> bool {
    forall|a: int, b: int| 0 <= a < b < keys.len() ==> keys[a] != keys[b]
}

proof fn lemma_name_index_names<V>(s: ParametersSpec<V>, n: Seq<char>)
    ensures
        s.name_index(n) matches Some(i) ==> s.names()[i] == n && 0 <= i < s.num_params(),
{
}

proof fn lemma_named_effect<V>(s: ParametersSpec<V>, named: Pairs<V>, slots: Slots<V>, lowest: int, ov: Pairs<V>)
    requires
        s.wf(),
        slots.len() == s.num_params(),
    ensures
        s.named_phase(named, slots, lowest, ov).0.len() == slots.len(),
        forall|i: int| 0 <= i < slots.len() && (#[trigger] s.named_phase(named, slots, lowest, ov).0[i]) is None
            ==> slots[i] is None,
        forall|i: int, k: int| 0 <= i < slots.len() && 0 <= k < named.len() && s.name_index(#[trigger] named[k].0) == Some(i)
            ==> (#[trigger] s.named_phase(named, slots, lowest, ov).0[i]) is Some,
        forall|i: int| 0 <= i < slots.len() && (#[trigger] s.named_phase(named, slots, lowest, ov).0[i]) is Some
            ==> slots[i] is Some || exists|k: int| 0 <= k < named.len() && s.name_index(#[trigger] named[k].0) == Some(i),
        s.named_phase(named, slots, lowest, ov).1 <= lowest,
        forall|k: int| 0 <= k < named.len() && s.name_index(#[trigger] named[k].0) is Some
            ==> s.named_phase(named, slots, lowest, ov).1 <= s.name_index(named[k].0)->Some_0,
        s.named_phase(named, slots, lowest, ov).2.len() >= ov.len(),
        forall|k: int| 0 <= k < named.len() && s.name_index(#[trigger] named[k].0) is None
            ==> s.named_phase(named, slots, lowest, ov).2.len() > 0,
    decreases named.len(),
{
    if named.len() > 0 {
        let (n, v) = named[0];
        let rest = named.drop_first();
        lemma_name_index_names(s, n);
        let (slots_b, lowest_b, ov_b) = match s.name_index(n) {
            Some(i) => (slots.update(i, Some(SlotModel::Value(v))), min_int(lowest, i), ov),
            None => (slots, lowest, crate::bind::overflow_insert(ov, n, v).0),
        };
        lemma_named_effect(s, rest, slots_b, lowest_b, ov_b);
        let r = s.named_phase(named, slots, lowest, ov);
        assert(r == s.named_phase(rest, slots_b, lowest_b, ov_b));
        assert forall|k: int| 1 <= k < named.len() implies #[trigger] named[k] == rest[k - 1] by {}
        assert forall|i: int| 0 <= i < slots.len() && (#[trigger] r.0[i]) is Some
            implies slots[i] is Some || exists|k: int| 0 <= k < named.len() && s.name_index(#[trigger] named[k].0) == Some(i) by {
            if !(slots_b[i] is Some) {
                let k = choose|k: int| 0 <= k < rest.len() && s.name_index(#[trigger] rest[k].0) == Some(i);
                assert(named[k + 1] == rest[k]);
            } else if !(slots[i] is Some) {
                assert(s.name_index(named[0].0) == Some(i));
            }
        }
        assert forall|i: int, k: int| 0 <= i < slots.len() && 0 <= k < named.len() && s.name_index(#[trigger] named[k].0) == Some(i)
            implies (#[trigger] r.0[i]) is Some by {
            if k > 0 {
                assert(rest[k - 1] == named[k]);
            }
        }
        assert forall|k: int| 0 <= k < named.len() && s.name_index(#[trigger] named[k].0) is Some
            implies r.1 <= s.name_index(named[k].0)->Some_0 by {
            if k > 0 {
                assert(rest[k - 1] == named[k]);
            }
        }
        if s.name_index(n) is None {
            if let Some(j) = crate::bind::key_position(ov, n) {
                assert(ov.len() > 0);
            }
            assert(ov_b.len() > 0);
        }
        assert(ov_b.len() >= ov.len());
        assert forall|k: int| 0 <= k < named.len() && s.name_index(#[trigger] named[k].0) is None
            implies r.2.len() > 0 by {
            if k > 0 {
                assert(rest[k - 1] == named[k]);
            }
        }
    }
}

proof fn lemma_fill_names<V>(s: ParametersSpec<V>, names: Seq<Seq<char>>, filled: Seq<bool>)
    requires
        s.wf(),
        filled.len() == s.num_params(),
        distinct_names(names),
        forall|k: int| 0 <= k < names.len() && s.name_index(#[trigger] names[k]) is Some
            ==> !filled[s.name_index(names[k])->Some_0],
        forall|k: int| 0 <= k < names.len() && s.name_index(#[trigger] names[k]) is None ==> s.ix().kwargs is Some,
    ensures
        s.fill_by_names(names, filled) is Some,
        s.fill_by_names(names, filled)->Some_0.len() == filled.len(),
        forall|i: int| 0 <= i < filled.len() && !(#[trigger] s.fill_by_names(names, filled)->Some_0[i])
            ==> !filled[i] && forall|k: int| 0 <= k < names.len() ==> s.name_index(#[trigger] names[k]) != Some(i),
    decreases names.len(),
{
    if names.len() > 0 {
        let rest = names.drop_first();
        assert forall|k: int| 1 <= k < names.len() implies #[trigger] names[k] == rest[k - 1] by {}
        lemma_name_index_names(s, names[0]);
        match s.name_index(names[0]) {
            Some(i) => {
                let f2 = filled.update(i, true);
                assert forall|k: int| 0 <= k < rest.len() && s.name_index(#[trigger] rest[k]) is Some
                    implies !f2[s.name_index(rest[k])->Some_0] by {
                    assert(names[k + 1] == rest[k]);
                    lemma_name_index_names(s, rest[k]);
                    assert(names[0] != names[k + 1]);
                }
                assert forall|k: int| 0 <= k < rest.len() && s.name_index(#[trigger] rest[k]) is None
                    implies s.ix().kwargs is Some by {
                    assert(names[k + 1] == rest[k]);
                }
                lemma_fill_names(s, rest, f2);
                let r = s.fill_by_names(names, filled)->Some_0;
                assert forall|j: int| 0 <= j < filled.len() && !(#[trigger] r[j])
                    implies !filled[j] && forall|k: int| 0 <= k < names.len() ==> s.name_index(#[trigger] names[k]) != Some(j) by {
                    assert forall|k: int| 0 <= k < names.len() implies s.name_index(#[trigger] names[k]) != Some(j) by {
                        if k > 0 {
                            assert(rest[k - 1] == names[k]);
                        }
                    }
                }
            },
            None => {
                assert forall|k: int| 0 <= k < rest.len() && s.name_index(#[trigger] rest[k]) is Some
                    implies !filled[s.name_index(rest[k])->Some_0] by {
                    assert(names[k + 1] == rest[k]);
                }
                assert forall|k: int| 0 <= k < rest.len() && s.name_index(#[trigger] rest[k]) is None
                    implies s.ix().kwargs is Some by {
                    assert(names[k + 1] == rest[k]);
                }
                lemma_fill_names(s, rest, filled);
                let r = s.fill_by_names(names, filled)->Some_0;
                assert forall|j: int| 0 <= j < filled.len() && !(#[trigger] r[j])
                    implies !filled[j] && forall|k: int| 0 <= k < names.len() ==> s.name_index(#[trigger] names[k]) != Some(j) by {
                    assert forall|k: int| 0 <= k < names.len() implies s.name_index(#[trigger] names[k]) != Some(j) by {
                        if k > 0 {
                            assert(rest[k - 1] == names[k]);
                        }
                    }
                }
            },
        }
    }
}

proof fn lemma_defaults_required<V>(s: ParametersSpec<V>, index: int, slots: Slots<V>)
    requires
        s.wf(),
        slots.len() == s.num_params(),
        0 <= index,
        s.defaults_phase(index, slots) is Ok,
    ensures
        forall|i: int| index <= i < slots.len() && (#[trigger] slots[i]) is None ==> !(s.kinds()[i] is Required),
    decreases s.num_params() - index,
{
    if index < s.num_params() {
        if slots[index] is Some {
            lemma_defaults_required(s, index + 1, slots);
        } else {
            match s.kinds()[index] {
                ParameterKind::Defaulted(v) => {
                    let s2 = slots.update(index, Some(SlotModel::Value(v)));
                    lemma_defaults_required(s, index + 1, s2);
                    assert forall|i: int| index < i < slots.len() && (#[trigger] slots[i]) is None implies !(s.kinds()[i] is Required) by {
                        assert(s2[i] == slots[i]);
                    }
                },
                _ => {
                    lemma_defaults_required(s, index + 1, slots);
                },
            }
        }
    }
}

/// A call without spliced `*args` or `**kwargs`, whose names are distinct,
/// that binds without error is one that the feasibility check accepts for
/// its number of positional arguments and its names.
pub proof fn lemma_bind_ok_is_feasible<V>(s: ParametersSpec<V>, call: CallModel<V>)
    requires
        s.wf(),
        call.args is None,
        call.kwargs is None,
        distinct_names(named_keys(call.named)),
        s.bind_model(call) is Ok,
    ensures
        s.can_fill(call.pos.len() as int, named_keys(call.named)),
{
    let n = s.num_params();
    let keys = named_keys(call.named);
    let slots1 = s.positional_slots(call.pos);
    let next1 = min_int(call.pos.len() as int, s.ix().num_positional as int);
    let filled0 = s.filled_by_position(call.pos.len() as int);
    lemma_named_effect(s, call.named, slots1, n, Seq::empty());
    let (slots2, lowest, ov2) = s.named_stage(call);
    let star1 = s.positional_overflow(call.pos);
    assert(s.star_stage(call, slots2) == Ok::<_, BindError>((slots2, next1, star1)));
    assert(next1 <= lowest);
    assert(s.bind_model(call) == s.final_stage(slots2, next1, star1, ov2));
    lemma_defaults_required(s, next1, slots2);
    let slots6 = s.defaults_phase(next1, slots2)->Ok_0;
    assert(s.sinks_phase(slots6, star1, ov2) is Ok);
    if s.ix().args is None {
        assert(star1.len() == 0);
    }
    assert forall|k: int| 0 <= k < keys.len() && s.name_index(#[trigger] keys[k]) is Some
        implies !filled0[s.name_index(keys[k])->Some_0] by {
        assert(keys[k] == call.named[k].0);
        lemma_name_index_names(s, keys[k]);
    }
    assert forall|k: int| 0 <= k < keys.len() && s.name_index(#[trigger] keys[k]) is None
        implies s.ix().kwargs is Some by {
        assert(keys[k] == call.named[k].0);
        if s.ix().kwargs is None {
            assert(ov2.len() > 0);
        }
    }
    lemma_fill_names(s, keys, filled0);
    let f = s.fill_by_names(keys, filled0)->Some_0;
    assert forall|i: int| 0 <= i < n && !f[i] implies !(#[trigger] s.kinds()[i] is Required) by {
        assert(!filled0[i]);
        assert(slots1[i] is None);
        if slots2[i] is Some {
            let k = choose|k: int| 0 <= k < call.named.len() && s.name_index(#[trigger] call.named[k].0) == Some(i);
            assert(keys[k] == call.named[k].0);
        }
        assert(i >= next1);
    }
}

proof fn lemma_filter_keeps_all<A>(xs: Seq<A>, pred: spec_fn(A) -> bool)
    requires
        forall|i: int| 0 <= i < xs.len() ==> pred(#[trigger] xs[i]),
    ensures
        xs.filter(pred) == xs,
    decreases xs.len(),
{
    reveal_with_fuel(Seq::filter, 1);
    if xs.len() > 0 {
        lemma_filter_keeps_all(xs.drop_last(), pred);
        assert(xs.drop_last().push(xs.last()) =~= xs);
    }
}

proof fn lemma_filter_drops_all<A>(xs: Seq<A>, pred: spec_fn(A) -> bool)
    requires
        forall|i: int| 0 <= i < xs.len() ==> !pred(#[trigger] xs[i]),
    ensures
        xs.filter(pred) == Seq::<A>::empty(),
    decreases xs.len(),
{
    reveal_with_fuel(Seq::filter, 1);
    if xs.len() > 0 {
        lemma_filter_drops_all(xs.drop_last(), pred);
    }
}

proof fn lemma_range_concat<V>(s: ParametersSpec<V>, a: int, b: int, c: int)
    requires
        a <= b <= c,
    ensures
        s.render_range(a, b) + s.render_range(b, c) == s.render_range(a, c),
{
    assert(s.render_range(a, b) + s.render_range(b, c) =~= s.render_range(a, c));
}

/// Leaving out its `/` and bare `*` separators, the parameter list of a
/// signature shows every parameter, in declaration order, by its bare name
/// (and a sink with its `*` or `**`).
#[verifier::spinoff_prover]
#[verifier::rlimit(60)]
pub proof fn lemma_parameters_str_lists_every_parameter<V>(s: ParametersSpec<V>)
    requires
        s.wf(),
        forall|i: int| 0 <= i < s.num_params() ==> #[trigger] s.render_param(i) != slash_item() && s.render_param(i) != star_item(),
    ensures
        s.param_items().filter(|x: Seq<char>| x != slash_item() && x != star_item()) == s.render_range(0, s.num_params()),
{
    let pred = |x: Seq<char>| x != slash_item() && x != star_item();
    let n = s.num_params();
    let npo = s.ix().num_positional_only as int;
    let np = s.ix().num_positional as int;
    let start = s.named_only_start();
    let end = s.named_only_end();
    if let Some(k) = s.ix().kwargs {
        assert(s.kinds()[k as int] is KWargs);
        if k < np {
            assert(s.kinds()[k as int].is_regular());
        }
        if let Some(a) = s.ix().args {
            assert(a != k);
        }
    }
    assert(0 <= npo <= np <= start <= end <= n);
    let slash = if npo > 0 { seq![slash_item()] } else { Seq::empty() };
    let star = match s.ix().args {
        Some(a) => seq![s.render_param(a as int)],
        None => if start < end { seq![star_item()] } else { Seq::empty() },
    };
    let kw = match s.ix().kwargs {
        Some(k) => seq![s.render_param(k as int)],
        None => Seq::empty(),
    };
    let ra = s.render_range(0, npo);
    let rb = s.render_range(npo, np);
    let rc = s.render_range(start, end);
    assert(s.param_items() == ra + slash + rb + star + rc + kw);
    Seq::filter_distributes_over_add(ra + slash + rb + star + rc, kw, pred);
    Seq::filter_distributes_over_add(ra + slash + rb + star, rc, pred);
    Seq::filter_distributes_over_add(ra + slash + rb, star, pred);
    Seq::filter_distributes_over_add(ra + slash, rb, pred);
    Seq::filter_distributes_over_add(ra, slash, pred);
    lemma_filter_keeps_all(ra, pred);
    lemma_filter_keeps_all(rb, pred);
    lemma_filter_keeps_all(rc, pred);
    lemma_filter_drops_all(slash, pred);
    let star_kept = match s.ix().args {
        Some(a) => seq![s.render_param(a as int)],
        None => Seq::empty(),
    };
    if s.ix().args is Some {
        lemma_filter_keeps_all(star, pred);
    } else {
        lemma_filter_drops_all(star, pred);
    }
    lemma_filter_keeps_all(kw, pred);
    assert(s.param_items().filter(pred) == ra + rb + star_kept + rc + kw);
    lemma_range_concat(s, 0, npo, np);
    match s.ix().args {
        Some(a) => {
            assert(star_kept =~= s.render_range(np, np + 1));
            lemma_range_concat(s, 0, np, np + 1);
            lemma_range_concat(s, 0, np + 1, end);
        },
        None => {
            assert(star_kept + rc =~= rc);
            lemma_range_concat(s, 0, np, end);
        },
    }
    match s.ix().kwargs {
        Some(k) => {
            assert(kw =~= s.render_range(end, end + 1));
            lemma_range_concat(s, 0, end, end + 1);
        },
        None => {
            assert(kw =~= Seq::<Seq<char>>::empty());
        },
    }
    assert(ra + rb + star_kept + rc + kw =~= s.render_range(0, n));
}

/// Whether a documentation entry describes a parameter, rather than
/// separating groups of them.
pub open spec fn is_param_entry<T, V>(d: DocModel<T, V>) -> bool {
    d is Arg || d is Args || d is Kwargs
}

proof fn lemma_filter_single<A>(x: A, pred: spec_fn(A) -> bool)
    ensures
        seq![x].filter(pred) == if pred(x) { seq![x] } else { Seq::<A>::empty() },
{
    reveal_with_fuel(Seq::filter, 2);
    assert(seq![x].drop_last() =~= Seq::<A>::empty());
}

proof fn lemma_filter_empty<A>(pred: spec_fn(A) -> bool)
    ensures
        Seq::<A>::empty().filter(pred) == Seq::<A>::empty(),
{
    reveal_with_fuel(Seq::filter, 1);
}

proof fn lemma_filter_parts<A>(prev: Seq<A>, slash: Seq<A>, star: Seq<A>, entry: A, pred: spec_fn(A) -> bool)
    requires
        slash.len() <= 1,
        star.len() <= 1,
    ensures
        (prev + slash + star + seq![entry]).filter(pred).len() == prev.filter(pred).len() + (if slash.len()
            == 1 && pred(slash[0]) {
            1int
        } else {
            0int
        }) + (if star.len() == 1 && pred(star[0]) {
            1int
        } else {
            0int
        }) + (if pred(entry) {
            1int
        } else {
            0int
        }),
{
    Seq::filter_distributes_over_add(prev + slash + star, seq![entry], pred);
    Seq::filter_distributes_over_add(prev + slash, star, pred);
    Seq::filter_distributes_over_add(prev, slash, pred);
    lemma_filter_single(entry, pred);
    lemma_filter_empty(pred);
    if slash.len() == 1 {
        assert(slash == seq![slash[0]]);
        lemma_filter_single(slash[0], pred);
    } else {
        assert(slash == Seq::<A>::empty());
    }
    if star.len() == 1 {
        assert(star == seq![star[0]]);
        lemma_filter_single(star[0], pred);
    } else {
        assert(star == Seq::<A>::empty());
    }
}


proof fn lemma_doc_prefix_split<V, T>(s: ParametersSpec<V>, k: int, types: Seq<T>, docs: DocText, pred: spec_fn(DocModel<T, V>) -> bool)
    requires
        s.wf(),
        0 < k <= s.num_params(),
    ensures
        s.doc_prefix(k, types, docs).filter(pred).len() == s.doc_prefix(k - 1, types, docs).filter(pred).len()
            + (if k - 1 != 0 && k - 1 == s.ix().num_positional_only && pred(DocModel::OnlyPosBefore) {
            1int
        } else {
            0int
        }) + (if s.kinds()[k - 1].is_regular() && k - 1 == s.ix().num_positional && pred(DocModel::OnlyNamedAfter) {
            1int
        } else {
            0int
        }) + (if pred(s.doc_entry(k - 1, types[k - 1], docs)) {
            1int
        } else {
            0int
        }),
{
    let i = k - 1;
    let slash: Seq<DocModel<T, V>> = if i != 0 && i == s.ix().num_positional_only {
        seq![DocModel::OnlyPosBefore]
    } else {
        Seq::empty()
    };
    let star: Seq<DocModel<T, V>> = if s.kinds()[i].is_regular() && i == s.ix().num_positional {
        seq![DocModel::OnlyNamedAfter]
    } else {
        Seq::empty()
    };
    let entry = s.doc_entry(i, types[i], docs);
    assert(s.doc_prefix(k, types, docs) == s.doc_prefix(i, types, docs) + slash + star + seq![entry]);
    lemma_filter_parts(s.doc_prefix(i, types, docs), slash, star, entry, pred);
}


proof fn lemma_doc_prefix_entries<V, T>(s: ParametersSpec<V>, k: int, types: Seq<T>, docs: DocText)
    requires
        s.wf(),
        0 <= k <= s.num_params(),
    ensures
        s.doc_prefix(k, types, docs).filter(|d: DocModel<T, V>| is_param_entry(d)).len() == k,
    decreases k,
{
    let p = |d: DocModel<T, V>| is_param_entry(d);
    if k > 0 {
        lemma_doc_prefix_entries(s, k - 1, types, docs);
        lemma_doc_prefix_split(s, k, types, docs, p);
    } else {
        lemma_filter_empty(p);
    }
}

proof fn lemma_doc_prefix_slashes<V, T>(s: ParametersSpec<V>, k: int, types: Seq<T>, docs: DocText)
    requires
        s.wf(),
        0 <= k <= s.num_params(),
    ensures
        s.doc_prefix(k, types, docs).filter(|d: DocModel<T, V>| d is OnlyPosBefore).len() == if 0
            < s.ix().num_positional_only < k {
            1int
        } else {
            0int
        },
    decreases k,
{
    let p = |d: DocModel<T, V>| d is OnlyPosBefore;
    if k > 0 {
        lemma_doc_prefix_slashes(s, k - 1, types, docs);
        lemma_doc_prefix_split(s, k, types, docs, p);
    } else {
        lemma_filter_empty(p);
    }
}

proof fn lemma_doc_prefix_stars<V, T>(s: ParametersSpec<V>, k: int, types: Seq<T>, docs: DocText)
    requires
        s.wf(),
        0 <= k <= s.num_params(),
    ensures
        s.doc_prefix(k, types, docs).filter(|d: DocModel<T, V>| d is OnlyNamedAfter).len() == if s.ix().num_positional
            < k && s.kinds()[s.ix().num_positional as int].is_regular() {
            1int
        } else {
            0int
        },
    decreases k,
{
    let p = |d: DocModel<T, V>| d is OnlyNamedAfter;
    if k > 0 {
        lemma_doc_prefix_stars(s, k - 1, types, docs);
        lemma_doc_prefix_split(s, k, types, docs, p);
    } else {
        lemma_filter_empty(p);
    }
}


/// The documentation of a signature has one parameter entry per
/// parameter, and besides them at most one `/` and at most one `*`.
#[verifier::spinoff_prover]
pub proof fn lemma_documentation_counts<V, T>(s: ParametersSpec<V>, types: Seq<T>, docs: DocText)
    requires
        s.wf(),
        types.len() == s.num_params(),
    ensures
        s.doc_model(types, docs).filter(|d: DocModel<T, V>| is_param_entry(d)).len() == s.num_params(),
        s.doc_model(types, docs).filter(|d: DocModel<T, V>| d is OnlyPosBefore).len() <= 1,
        s.doc_model(types, docs).filter(|d: DocModel<T, V>| d is OnlyNamedAfter).len() <= 1,
{
    let n = s.num_params();
    lemma_doc_prefix_entries(s, n, types, docs);
    lemma_doc_prefix_slashes(s, n, types, docs);
    lemma_doc_prefix_stars(s, n, types, docs);
    let prev = s.doc_prefix(n, types, docs);
    if s.ix().num_positional_only == n && n != 0 {
        let tail: Seq<DocModel<T, V>> = seq![DocModel::OnlyPosBefore];
        assert(s.doc_model(types, docs) == prev + tail);
        lemma_tail_counts(prev, DocModel::OnlyPosBefore);
    } else {
        assert(s.doc_model(types, docs) =~= prev);
    }
}

proof fn lemma_tail_counts<T, V>(prev: Seq<DocModel<T, V>>, x: DocModel<T, V>)
    ensures
        (prev + seq![x]).filter(|d: DocModel<T, V>| is_param_entry(d)).len() == prev.filter(|d: DocModel<T, V>| is_param_entry(d)).len() + (if is_param_entry(x) { 1int } else { 0int }),
        (prev + seq![x]).filter(|d: DocModel<T, V>| d is OnlyPosBefore).len() == prev.filter(|d: DocModel<T, V>| d is OnlyPosBefore).len() + (if x is OnlyPosBefore { 1int } else { 0int }),
        (prev + seq![x]).filter(|d: DocModel<T, V>| d is OnlyNamedAfter).len() == prev.filter(|d: DocModel<T, V>| d is OnlyNamedAfter).len() + (if x is OnlyNamedAfter { 1int } else { 0int }),
{
    lemma_filter_parts(prev, Seq::empty(), Seq::empty(), x, |d: DocModel<T, V>| is_param_entry(d));
    lemma_filter_parts(prev, Seq::empty(), Seq::empty(), x, |d: DocModel<T, V>| d is OnlyPosBefore);
    lemma_filter_parts(prev, Seq::empty(), Seq::empty(), x, |d: DocModel<T, V>| d is OnlyNamedAfter);
    assert(prev + Seq::<DocModel<T, V>>::empty() + Seq::<DocModel<T, V>>::empty() == prev);
}

} // verus!
