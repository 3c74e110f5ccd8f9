use vstd::prelude::*;
use crate::kind::ParameterKind;
use crate::signature::ParametersSpec;

verus! {

/// A `*args` value spliced into a call, as the caller found it.
#[derive(Clone, Debug, PartialEq, Eq)]
pub enum StarArgs<V> {
    /// The value could be iterated; these are its items in order.
    Items(Vec<V>),
    /// The value cannot be iterated.
    NotIterable,
}

/// One entry of a `**kwargs` mapping spliced into a call.
#[derive(Clone, Debug, PartialEq, Eq)]
pub struct KwEntry<V> {
    /// The key, or `None` where the key is not a string.
    pub key: Option<String>,
    pub value: V,
}

/// A `**kwargs` value spliced into a call, as the caller found it.
#[derive(Clone, Debug, PartialEq, Eq)]
pub enum StarKwargs<V> {
    /// The value is a mapping; these are its entries in order.
    Entries(Vec<KwEntry<V>>),
    /// The value is not a mapping.
    NotDict,
}

/// The actual arguments of one call.
#[derive(Clone, Debug, PartialEq, Eq)]
pub struct Arguments<V> {
    /// Positional arguments, in order.
    pub pos: Vec<V>,
    /// Named arguments, in order.
    pub named: Vec<(String, V)>,
    /// A spliced `*args` value.
    pub args: Option<StarArgs<V>>,
    /// A spliced `**kwargs` value.
    pub kwargs: Option<StarKwargs<V>>,
}

/// What a parameter slot holds after binding.
#[derive(Clone, Debug, PartialEq, Eq)]
pub enum ArgValue<V> {
    /// A single argument value or default.
    Value(V),
    /// The tuple of the `*args` sink.
    Tuple(Vec<V>),
    /// The mapping of the `**kwargs` sink, in insertion order.
    Dict(Vec<(String, V)>),
}

/// A call that cannot be bound to the signature.
#[derive(Clone, Debug, PartialEq, Eq)]
pub enum FunctionError {
    /// A required parameter received no value.
    MissingParameter { name: String, function: String },
    /// A parameter received a value twice.
    RepeatedArg { name: String },
    /// Positional arguments were left over and there is no `*args`.
    ExtraPositionalArg { count: usize, function: String },
    /// Named arguments matched no parameter and there is no `**kwargs`.
    ExtraNamedArg { names: Vec<String>, function: String },
    /// The `*args` value cannot be iterated.
    ArgsArrayIsNotIterable,
    /// A key of the `**kwargs` value is not a string.
    ArgsValueIsNotString,
    /// The `**kwargs` value is not a mapping.
    KwArgsIsNotDict,
}

/// The contents of a slot, as mathematical values.
pub enum SlotModel<V> {
    Value(V),
    Tuple(Seq<V>),
    Dict(Seq<(Seq<char>, V)>),
}

/// A binding error, as mathematical values.
pub enum BindError {
    MissingParameter { name: Seq<char>, function: Seq<char> },
    RepeatedArg { name: Seq<char> },
    ExtraPositionalArg { count: nat, function: Seq<char> },
    ExtraNamedArg { names: Seq<Seq<char>>, function: Seq<char> },
    ArgsArrayIsNotIterable,
    ArgsValueIsNotString,
    KwArgsIsNotDict,
}

/// A call, as mathematical values. `args` is `Some(None)` for a `*args`
/// value that cannot be iterated, `kwargs` is `Some(None)` for a `**kwargs`
/// value that is not a mapping, and a `**kwargs` key is `None` where it is
/// not a string.
pub struct CallModel<V> {
    pub pos: Seq<V>,
    pub named: Seq<(Seq<char>, V)>,
    pub args: Option<Option<Seq<V>>>,
    pub kwargs: Option<Option<Seq<(Option<Seq<char>>, V)>>>,
}

pub type Slots<V> = Seq<Option<SlotModel<V>>>;

pub type Pairs<V> = Seq<(Seq<char>, V)>;

pub open spec fn pairs_view<V>(v: Seq<(String, V)>) -> Pairs<V> {
    v.map_values(|p: (String, V)| (p.0@, p.1))
}

pub open spec fn opt_string_view(o: Option<String>) -> Option<Seq<char>> {
    match o {
        Some(s) => Some(s@),
        None => None,
    }
}

impl<V> ArgValue<V> {
    pub open spec fn model(self) -> SlotModel<V> {
        match self {
            ArgValue::Value(v) => SlotModel::Value(v),
            ArgValue::Tuple(t) => SlotModel::Tuple(t@),
            ArgValue::Dict(d) => SlotModel::Dict(pairs_view(d@)),
        }
    }
}

pub open spec fn slot_view<V>(o: Option<ArgValue<V>>) -> Option<SlotModel<V>> {
    match o {
        Some(a) => Some(a.model()),
        None => None,
    }
}

/// The first `n` slots of `s`, as mathematical values.
pub open spec fn slots_view<V>(s: Seq<Option<ArgValue<V>>>, n: int) -> Slots<V> {
    Seq::new(n as nat, |i: int| slot_view(s[i]))
}

impl FunctionError {
    pub open spec fn model(self) -> BindError {
        match self {
            FunctionError::MissingParameter { name, function } => BindError::MissingParameter {
                name: name@,
                function: function@,
            },
            FunctionError::RepeatedArg { name } => BindError::RepeatedArg { name: name@ },
            FunctionError::ExtraPositionalArg { count, function } => BindError::ExtraPositionalArg {
                count: count as nat,
                function: function@,
            },
            FunctionError::ExtraNamedArg { names, function } => BindError::ExtraNamedArg {
                names: names@.map_values(|s: String| s@),
                function: function@,
            },
            FunctionError::ArgsArrayIsNotIterable => BindError::ArgsArrayIsNotIterable,
            FunctionError::ArgsValueIsNotString => BindError::ArgsValueIsNotString,
            FunctionError::KwArgsIsNotDict => BindError::KwArgsIsNotDict,
        }
    }
}

impl<V> Arguments<V> {
    pub open spec fn model(&self) -> CallModel<V> {
        CallModel {
            pos: self.pos@,
            named: pairs_view(self.named@),
            args: match self.args {
                None => None,
                Some(StarArgs::Items(items)) => Some(Some(items@)),
                Some(StarArgs::NotIterable) => Some(None),
            },
            kwargs: match self.kwargs {
                None => None,
                Some(StarKwargs::Entries(es)) => Some(
                    Some(es@.map_values(|e: KwEntry<V>| (opt_string_view(e.key), e.value))),
                ),
                Some(StarKwargs::NotDict) => Some(None),
            },
        }
    }
}

/// The position of `key` in the keyword overflow `ov`, if it is there.
pub open spec fn key_position<V>(ov: Pairs<V>, key: Seq<char>) -> Option<int> {
    if exists|i: int| 0 <= i < ov.len() && (#[trigger] ov[i]).0 == key {
        Some(choose|i: int| 0 <= i < ov.len() && (#[trigger] ov[i]).0 == key)
    } else {
        None
    }
}

/// Insertion into the keyword overflow: an existing key keeps its place and
/// takes the new value, a new key goes last. The flag says whether the key
/// was there already.
pub open spec fn overflow_insert<V>(ov: Pairs<V>, key: Seq<char>, v: V) -> (Pairs<V>, bool) {
    match key_position(ov, key) {
        Some(i) => (ov.update(i, (key, v)), true),
        None => (ov.push((key, v)), false),
    }
}

pub open spec fn keys_unique<V>(ov: Pairs<V>) -> bool {
    forall|i: int, j: int| 0 <= i < j < ov.len() ==> (#[trigger] ov[i]).0 != (#[trigger] ov[j]).0
}

pub open spec fn min_int(a: int, b: int) -> int {
    if a <= b { a } else { b }
}

impl<V> ParametersSpec<V> {
    /// Slots after the positional arguments: the first ones in order, up to
    /// the number of positional parameters.
    pub open spec fn positional_slots(&self, pos: Seq<V>) -> Slots<V> {
        let next = min_int(pos.len() as int, self.ix().num_positional as int);
        Seq::new(self.num_params() as nat, |i: int| if i < next { Some(SlotModel::Value(pos[i])) } else { None })
    }

    /// Positional arguments beyond the positional parameters.
    pub open spec fn positional_overflow(&self, pos: Seq<V>) -> Seq<V> {
        if pos.len() <= self.ix().num_positional {
            Seq::empty()
        } else {
            pos.subrange(self.ix().num_positional as int, pos.len() as int)
        }
    }

    /// Named arguments, in order: a known name fills its slot (a later one
    /// wins) and lowers `lowest`, the smallest slot filled by name; an
    /// unknown one goes to the keyword overflow.
    pub open spec fn named_phase(
        &self,
        named: Pairs<V>,
        slots: Slots<V>,
        lowest: int,
        ov: Pairs<V>,
    ) -> (Slots<V>, int, Pairs<V>)
        decreases named.len(),
    {
        if named.len() == 0 {
            (slots, lowest, ov)
        } else {
            let (n, v) = named[0];
            match self.name_index(n) {
                Some(i) => self.named_phase(
                    named.drop_first(),
                    slots.update(i, Some(SlotModel::Value(v))),
                    min_int(lowest, i),
                    ov,
                ),
                None => self.named_phase(named.drop_first(), slots, lowest, overflow_insert(ov, n, v).0),
            }
        }
    }

    /// Items of `*args`, in order: each fills the next positional slot, and
    /// once those are used up goes to the positional overflow.
    pub open spec fn star_phase(
        &self,
        items: Seq<V>,
        slots: Slots<V>,
        next: int,
        star: Seq<V>,
    ) -> (Slots<V>, int, Seq<V>)
        decreases items.len(),
    {
        if items.len() == 0 {
            (slots, next, star)
        } else if next < self.ix().num_positional {
            self.star_phase(items.drop_first(), slots.update(next, Some(SlotModel::Value(items[0]))), next + 1, star)
        } else {
            self.star_phase(items.drop_first(), slots, next, star.push(items[0]))
        }
    }

    /// Entries of `**kwargs`, in order: a key that is not a string fails; a
    /// known name fills its slot and fails if the slot was filled already; an
    /// unknown one goes to the keyword overflow and fails if it was there.
    pub open spec fn kwargs_phase(
        &self,
        es: Seq<(Option<Seq<char>>, V)>,
        slots: Slots<V>,
        ov: Pairs<V>,
    ) -> Result<(Slots<V>, Pairs<V>), BindError>
        decreases es.len(),
    {
        if es.len() == 0 {
            Ok((slots, ov))
        } else {
            match es[0].0 {
                None => Err(BindError::ArgsValueIsNotString),
                Some(k) => match self.name_index(k) {
                    Some(i) => if slots[i] is Some {
                        Err(BindError::RepeatedArg { name: k })
                    } else {
                        self.kwargs_phase(es.drop_first(), slots.update(i, Some(SlotModel::Value(es[0].1))), ov)
                    },
                    None => {
                        let (ov2, dup) = overflow_insert(ov, k, es[0].1);
                        if dup {
                            Err(BindError::RepeatedArg { name: k })
                        } else {
                            self.kwargs_phase(es.drop_first(), slots, ov2)
                        }
                    },
                },
            }
        }
    }

    /// Empty slots from `index` on: a required parameter fails, a defaulted
    /// one takes its default, the others stay empty.
    pub open spec fn defaults_phase(&self, index: int, slots: Slots<V>) -> Result<Slots<V>, BindError>
        decreases self.num_params() - index,
    {
        if index >= self.num_params() || index < 0 {
            Ok(slots)
        } else if slots[index] is Some {
            self.defaults_phase(index + 1, slots)
        } else {
            match self.kinds()[index] {
                ParameterKind::Required => Err(
                    BindError::MissingParameter {
                        name: self.names()[index],
                        function: self.function_name_view(),
                    },
                ),
                ParameterKind::Defaulted(v) => self.defaults_phase(
                    index + 1,
                    slots.update(index, Some(SlotModel::Value(v))),
                ),
                _ => self.defaults_phase(index + 1, slots),
            }
        }
    }

    /// The two sinks: the overflows fill `*args` and `**kwargs`, and fail
    /// where they are not empty and the sink is absent.
    pub open spec fn sinks_phase(&self, slots: Slots<V>, star: Seq<V>, ov: Pairs<V>) -> Result<Slots<V>, BindError> {
        let with_args = match self.ix().args {
            Some(a) => Ok(slots.update(a as int, Some(SlotModel::Tuple(star)))),
            None => if star.len() > 0 {
                Err(BindError::ExtraPositionalArg { count: star.len(), function: self.function_name_view() })
            } else {
                Ok(slots)
            },
        };
        match with_args {
            Err(e) => Err(e),
            Ok(s) => match self.ix().kwargs {
                Some(k) => Ok(s.update(k as int, Some(SlotModel::Dict(ov)))),
                None => if ov.len() > 0 {
                    Err(BindError::ExtraNamedArg {
                        names: ov.map_values(|p: (Seq<char>, V)| p.0),
                        function: self.function_name_view(),
                    })
                } else {
                    Ok(s)
                },
            },
        }
    }

    /// Positional, then named arguments.
    pub open spec fn named_stage(&self, call: CallModel<V>) -> (Slots<V>, int, Pairs<V>) {
        self.named_phase(call.named, self.positional_slots(call.pos), self.num_params(), Seq::empty())
    }

    /// Then the spliced `*args`: the slots, the next positional slot to
    /// fill, and the positional overflow.
    pub open spec fn star_stage(&self, call: CallModel<V>, slots: Slots<V>) -> Result<(Slots<V>, int, Seq<V>), BindError> {
        let next1 = min_int(call.pos.len() as int, self.ix().num_positional as int);
        let star1 = self.positional_overflow(call.pos);
        match call.args {
            None => Ok((slots, next1, star1)),
            Some(None) => Err(BindError::ArgsArrayIsNotIterable),
            Some(Some(items)) => Ok(self.star_phase(items, slots, next1, star1)),
        }
    }

    /// Then the spliced `**kwargs`, the defaults and the sinks.
    pub open spec fn kwargs_stage(
        &self,
        kwargs: Option<Option<Seq<(Option<Seq<char>>, V)>>>,
        slots: Slots<V>,
        next: int,
        star: Seq<V>,
        ov: Pairs<V>,
    ) -> Result<Slots<V>, BindError> {
        let after_kwargs = match kwargs {
            None => Ok((slots, ov)),
            Some(None) => Err(BindError::KwArgsIsNotDict),
            Some(Some(es)) => self.kwargs_phase(es, slots, ov),
        };
        match after_kwargs {
            Err(e) => Err(e),
            Ok((slots5, ov5)) => self.final_stage(slots5, next, star, ov5),
        }
    }

    /// Then the defaults and the sinks.
    pub open spec fn final_stage(&self, slots: Slots<V>, next: int, star: Seq<V>, ov: Pairs<V>) -> Result<Slots<V>, BindError> {
        match self.defaults_phase(next, slots) {
            Err(e) => Err(e),
            Ok(slots6) => self.sinks_phase(slots6, star, ov),
        }
    }

    /// The outcome of binding `call` to this signature: the contents of the
    /// parameter slots, or the first error met. A parameter filled both by
    /// position and by name is reported before anything of `**kwargs`.
    pub open spec fn bind_model(&self, call: CallModel<V>) -> Result<Slots<V>, BindError> {
        let (slots2, lowest, ov2) = self.named_stage(call);
        match self.star_stage(call, slots2) {
            Err(e) => Err(e),
            Ok((slots3, next3, star3)) => if next3 > lowest {
                Err(BindError::RepeatedArg { name: self.names()[lowest] })
            } else {
                self.kwargs_stage(call.kwargs, slots3, next3, star3, ov2)
            },
        }
    }

    /// Whether a call takes the fast path: exactly one positional argument
    /// for each parameter, all of them positional, and nothing else.
    pub open spec fn fast_path_eligible(&self, call: CallModel<V>) -> bool {
        &&& call.pos.len() == self.ix().num_positional
        &&& call.pos.len() == self.num_params()
        &&& call.named.len() == 0
        &&& call.args is None
        &&& call.kwargs is None
    }
}

/// `after` agrees with `before` on every slot from `n` on.
pub open spec fn same_tail<V>(after: Seq<Option<ArgValue<V>>>, before: Seq<Option<ArgValue<V>>>, n: int) -> bool {
    &&& after.len() == before.len()
    &&& forall|j: int| n <= j < before.len() ==> after[j] == before[j]
}

/// What a binding call returned and left in the slots, against the model's
/// outcome `m`.
pub open spec fn bind_outcome<V>(
    r: Result<(), FunctionError>,
    slots: Seq<Option<ArgValue<V>>>,
    n: int,
    m: Result<Slots<V>, BindError>,
) -> bool {
    match m {
        Ok(s) => r is Ok && slots_view(slots, n) == s,
        Err(e) => r matches Err(x) && x.model() == e,
    }
}

fn put<V>(slots: &mut Vec<Option<ArgValue<V>>>, i: usize, a: ArgValue<V>, Ghost(n): Ghost<int>)
    requires
        i < n <= old(slots)@.len(),
    ensures
        same_tail(final(slots)@, old(slots)@, n),
        slots_view(final(slots)@, n) == slots_view(old(slots)@, n).update(i as int, Some(a.model())),
{
    let ghost m = a.model();
    slots.set(i, Some(a));
    assert(slots_view(slots@, n) =~= slots_view(old(slots)@, n).update(i as int, Some(m)));
}

proof fn lemma_key_position<V>(ov: Pairs<V>, key: Seq<char>, i: int)
    requires
        keys_unique(ov),
        0 <= i < ov.len(),
        ov[i].0 == key,
    ensures
        key_position(ov, key) == Some(i),
{
    let c = choose|c: int| 0 <= c < ov.len() && (#[trigger] ov[c]).0 == key;
    assert(0 <= c < ov.len() && ov[c].0 == key);
    if c < i {
        assert(ov[c].0 != ov[i].0);
    } else if c > i {
        assert(ov[i].0 != ov[c].0);
    }
}

fn overflow_insert_exec<V: Copy>(ov: &mut Vec<(String, V)>, key: String, v: V) -> (dup: bool)
    requires
        keys_unique(pairs_view(old(ov)@)),
    ensures
        keys_unique(pairs_view(final(ov)@)),
        (pairs_view(final(ov)@), dup) == overflow_insert(pairs_view(old(ov)@), key@, v),
{
    let ghost before = pairs_view(ov@);
    let mut i: usize = 0;
    while i < ov.len()
        invariant
            0 <= i <= ov@.len(),
            ov@ == old(ov)@,
            before == pairs_view(ov@),
            keys_unique(before),
            forall|j: int| 0 <= j < i ==> before[j].0 != key@,
        decreases ov@.len() - i,
    {
        if ov[i].0 == key {
            proof {
                lemma_key_position(before, key@, i as int);
            }
            let ghost kv = key@;
            ov.set(i, (key, v));
            assert(pairs_view(ov@) =~= before.update(i as int, (kv, v)));
            assert forall|a: int, b: int| 0 <= a < b < pairs_view(ov@).len() implies
                (#[trigger] pairs_view(ov@)[a]).0 != (#[trigger] pairs_view(ov@)[b]).0 by {
                assert(before[a].0 != before[b].0);
            }
            return true;
        }
        i = i + 1;
    }
    let ghost kv = key@;
    ov.push((key, v));
    assert(key_position(before, kv) is None);
    assert(pairs_view(ov@) =~= before.push((kv, v)));
    assert forall|a: int, b: int| 0 <= a < b < pairs_view(ov@).len() implies
        (#[trigger] pairs_view(ov@)[a]).0 != (#[trigger] pairs_view(ov@)[b]).0 by {
        if b < before.len() {
            assert(before[a].0 != before[b].0);
        } else {
            assert(before[a].0 != kv);
        }
    }
    false
}

fn overflow_names<V>(ov: &Vec<(String, V)>) -> (r: Vec<String>)
    ensures
        r@.map_values(|s: String| s@) == pairs_view(ov@).map_values(|p: (Seq<char>, V)| p.0),
{
    let mut r: Vec<String> = Vec::new();
    let mut i: usize = 0;
    while i < ov.len()
        invariant
            0 <= i <= ov@.len(),
            r@.map_values(|s: String| s@) =~= pairs_view(ov@).map_values(|p: (Seq<char>, V)| p.0).subrange(0, i as int),
        decreases ov@.len() - i,
    {
        let ghost prev = r@;
        let k = ov[i].0.clone();
        r.push(k);
        assert(r@.map_values(|s: String| s@) =~= prev.map_values(|s: String| s@).push(pairs_view(ov@)[i as int].0));
        i = i + 1;
    }
    r
}

impl<V: Copy> ParametersSpec<V> {
    /// Move the arguments of a call into `slots`, one per parameter: fill
    /// the positional and named parameters, gather the leftovers into the
    /// `*args` and `**kwargs` sinks, and apply defaults. The outcome is
    /// [`bind_model`](ParametersSpec::bind_model); slots beyond the
    /// parameters are left alone.
    pub fn collect(&self, args: &Arguments<V>, slots: &mut Vec<Option<ArgValue<V>>>) -> (r: Result<(), FunctionError>)
        requires
            self.wf(),
            old(slots)@.len() >= self.num_params(),
            forall|i: int| 0 <= i < old(slots)@.len() ==> (#[trigger] old(slots)@[i]) is None,
        ensures
            same_tail(final(slots)@, old(slots)@, self.num_params()),
            bind_outcome(r, final(slots)@, self.num_params(), self.bind_model(args.model())),
    {
        let n = self.param_kinds.len();
        if args.pos.len() == self.indices.num_positional && args.pos.len() == n && args.named.len() == 0
            && args.args.is_none() && args.kwargs.is_none() {
            // Every parameter is positional and receives its argument: no
            // default, no sink, nothing to look up.
            proof {
                crate::laws::lemma_fast_path_agrees(*self, args.model());
            }
            let ghost ni = n as int;
            let mut i: usize = 0;
            while i < n
                invariant
                    n == self.num_params(),
                    ni == n,
                    n == args.pos@.len(),
                    0 <= i <= n,
                    ni <= old(slots)@.len(),
                    forall|j: int| 0 <= j < old(slots)@.len() ==> (#[trigger] old(slots)@[j]) is None,
                    same_tail(slots@, old(slots)@, ni),
                    forall|j: int| 0 <= j < n ==> #[trigger] slots_view(slots@, ni)[j] == if j < i {
                        Some(SlotModel::Value(args.pos@[j]))
                    } else {
                        None
                    },
                decreases n - i,
            {
                put(slots, i, ArgValue::Value(args.pos[i]), Ghost(ni));
                i = i + 1;
            }
            assert(slots_view(slots@, ni) =~= Seq::new(n as nat, |j: int| Some(SlotModel::Value(args.pos@[j]))));
            return Ok(());
        }
        self.collect_slow(args, slots)
    }

    /// Bind the arguments of a call into a fresh vector of slots, one per
    /// parameter.
    pub fn collect_into(&self, args: &Arguments<V>) -> (r: Result<Vec<Option<ArgValue<V>>>, FunctionError>)
        requires
            self.wf(),
        ensures
            match self.bind_model(args.model()) {
                Ok(m) => r matches Ok(s) && s@.len() == self.num_params() && slots_view(s@, self.num_params()) == m,
                Err(e) => r matches Err(x) && x.model() == e,
            },
    {
        let n = self.param_kinds.len();
        let mut slots: Vec<Option<ArgValue<V>>> = Vec::with_capacity(n);
        let mut i: usize = 0;
        while i < n
            invariant
                0 <= i <= n,
                slots@.len() == i,
                forall|j: int| 0 <= j < i ==> (#[trigger] slots@[j]) is None,
            decreases n - i,
        {
            slots.push(None);
            i = i + 1;
        }
        match self.collect(args, &mut slots) {
            Ok(()) => Ok(slots),
            Err(e) => Err(e),
        }
    }

    fn collect_slow(&self, args: &Arguments<V>, slots: &mut Vec<Option<ArgValue<V>>>) -> (r: Result<(), FunctionError>)
        requires
            self.wf(),
            old(slots)@.len() >= self.num_params(),
            forall|i: int| 0 <= i < old(slots)@.len() ==> (#[trigger] old(slots)@[i]) is None,
        ensures
            same_tail(final(slots)@, old(slots)@, self.num_params()),
            bind_outcome(r, final(slots)@, self.num_params(), self.bind_model(args.model())),
    {
        let n = self.param_kinds.len();
        let np = self.indices.num_positional;
        let ghost ni = n as int;
        let ghost call = args.model();
        // Positional arguments.
        let mut next_position: usize = 0;
        let mut star_args: Vec<V> = Vec::new();
        let mut j: usize = 0;
        assert(slots_view(slots@, ni) =~= Seq::new(n as nat, |i: int| if i < 0 { Some(SlotModel::Value(args.pos@[i])) } else { None }));
        while j < args.pos.len()
            invariant
                self.wf(),
                n == self.num_params(),
                ni == n,
                np == self.ix().num_positional,
                0 <= j <= args.pos@.len(),
                next_position as int == min_int(j as int, np as int),
                star_args@ == (if j <= np { Seq::<V>::empty() } else { args.pos@.subrange(np as int, j as int) }),
                slots_view(slots@, ni) == Seq::new(n as nat, |i: int| if i < next_position { Some(SlotModel::Value(args.pos@[i])) } else { None }),
                same_tail(slots@, old(slots)@, ni),
                ni <= old(slots)@.len(),
            decreases args.pos@.len() - j,
        {
            let v = args.pos[j];
            if next_position < np {
                put(slots, next_position, ArgValue::Value(v), Ghost(ni));
                next_position = next_position + 1;
                assert(slots_view(slots@, ni) =~= Seq::new(n as nat, |i: int| if i < next_position { Some(SlotModel::Value(args.pos@[i])) } else { None }));
            } else {
                star_args.push(v);
                assert(star_args@ =~= args.pos@.subrange(np as int, j + 1));
            }
            j = j + 1;
        }
        assert(slots_view(slots@, ni) == self.positional_slots(call.pos));
        assert(star_args@ == self.positional_overflow(call.pos));
        // Named arguments.
        let ghost slots1 = slots_view(slots@, ni);
        let mut lowest_name: usize = n;
        let mut overflow: Vec<(String, V)> = Vec::new();
        let mut k: usize = 0;
        assert(call.named.subrange(0, call.named.len() as int) =~= call.named);
        assert(pairs_view(overflow@) =~= Seq::<(Seq<char>, V)>::empty());
        while k < args.named.len()
            invariant
                self.wf(),
                n == self.num_params(),
                ni == n,
                np == self.ix().num_positional,
                call == args.model(),
                0 <= k <= args.named@.len(),
                lowest_name <= n,
                next_position <= np,
                self.named_phase(call.named, slots1, ni, Seq::empty()) == self.named_phase(
                    call.named.subrange(k as int, call.named.len() as int),
                    slots_view(slots@, ni),
                    lowest_name as int,
                    pairs_view(overflow@),
                ),
                keys_unique(pairs_view(overflow@)),
                same_tail(slots@, old(slots)@, ni),
                ni <= old(slots)@.len(),
            decreases args.named@.len() - k,
        {
            let name = &args.named[k].0;
            let v = args.named[k].1;
            let ghost rest = call.named.subrange(k as int, call.named.len() as int);
            assert(rest[0] == (name@, v));
            assert(rest.drop_first() =~= call.named.subrange(k + 1, call.named.len() as int));
            match self.resolve_name(name) {
                Some(i) => {
                    put(slots, i, ArgValue::Value(v), Ghost(ni));
                    if i < lowest_name {
                        lowest_name = i;
                    }
                },
                None => {
                    overflow_insert_exec(&mut overflow, name.clone(), v);
                },
            }
            k = k + 1;
        }
        assert(call.named.subrange(k as int, call.named.len() as int) =~= Seq::<(Seq<char>, V)>::empty());
        assert(self.named_stage(call) == (slots_view(slots@, ni), lowest_name as int, pairs_view(overflow@)));
        // Spliced `*args`.
        let ghost slots2 = slots_view(slots@, ni);
        let ghost next1 = next_position as int;
        let ghost star1 = star_args@;
        match &args.args {
            None => {},
            Some(StarArgs::NotIterable) => {
                return Err(FunctionError::ArgsArrayIsNotIterable);
            },
            Some(StarArgs::Items(items)) => {
                let mut j: usize = 0;
                assert(items@.subrange(0, items@.len() as int) =~= items@);
                while j < items.len()
                    invariant
                        self.wf(),
                        n == self.num_params(),
                        ni == n,
                        np == self.ix().num_positional,
                        0 <= j <= items@.len(),
                        next_position <= np,
                        self.star_phase(items@, slots2, next1, star1) == self.star_phase(
                            items@.subrange(j as int, items@.len() as int),
                            slots_view(slots@, ni),
                            next_position as int,
                            star_args@,
                        ),
                        same_tail(slots@, old(slots)@, ni),
                        ni <= old(slots)@.len(),
                    decreases items@.len() - j,
                {
                    let v = items[j];
                    let ghost rest = items@.subrange(j as int, items@.len() as int);
                    assert(rest[0] == v);
                    assert(rest.drop_first() =~= items@.subrange(j + 1, items@.len() as int));
                    if next_position < np {
                        put(slots, next_position, ArgValue::Value(v), Ghost(ni));
                        next_position = next_position + 1;
                    } else {
                        star_args.push(v);
                    }
                    j = j + 1;
                }
                assert(items@.subrange(j as int, items@.len() as int) =~= Seq::<V>::empty());
            },
        }
        assert(self.star_stage(call, slots2) == Ok::<_, BindError>((slots_view(slots@, ni), next_position as int, star_args@)));
        // A parameter filled both by position and by name.
        if next_position > lowest_name {
            return Err(FunctionError::RepeatedArg { name: self.param_names[lowest_name].clone() });
        }
        // Spliced `**kwargs`.
        let ghost slots3 = slots_view(slots@, ni);
        let ghost ov2 = pairs_view(overflow@);
        let ghost next3 = next_position as int;
        let ghost star3 = star_args@;
        assert(self.bind_model(call) == self.kwargs_stage(call.kwargs, slots3, next3, star3, ov2));
        match &args.kwargs {
            None => {},
            Some(StarKwargs::NotDict) => {
                return Err(FunctionError::KwArgsIsNotDict);
            },
            Some(StarKwargs::Entries(es)) => {
                let ghost es_m = es@.map_values(|e: KwEntry<V>| (opt_string_view(e.key), e.value));
                let mut j: usize = 0;
                assert(es_m.subrange(0, es_m.len() as int) =~= es_m);
                while j < es.len()
                    invariant
                        self.wf(),
                        n == self.num_params(),
                        ni == n,
                        0 <= j <= es@.len(),
                        es_m == es@.map_values(|e: KwEntry<V>| (opt_string_view(e.key), e.value)),
                        self.kwargs_phase(es_m, slots3, ov2) == self.kwargs_phase(
                            es_m.subrange(j as int, es_m.len() as int),
                            slots_view(slots@, ni),
                            pairs_view(overflow@),
                        ),
                        keys_unique(pairs_view(overflow@)),
                        same_tail(slots@, old(slots)@, ni),
                        ni <= old(slots)@.len(),
                        call == args.model(),
                        call.kwargs == Some(Some(es_m)),
                        self.bind_model(call) == self.kwargs_stage(call.kwargs, slots3, next3, star3, ov2),
                        next3 == next_position as int,
                        star3 == star_args@,
                    decreases es@.len() - j,
                {
                    let e = &es[j];
                    let ghost rest = es_m.subrange(j as int, es_m.len() as int);
                    assert(rest[0] == (opt_string_view(e.key), e.value));
                    assert(rest.drop_first() =~= es_m.subrange(j + 1, es_m.len() as int));
                    match &e.key {
                        None => {
                            return Err(FunctionError::ArgsValueIsNotString);
                        },
                        Some(key) => {
                            let v = e.value;
                            match self.resolve_name(key) {
                                Some(i) => {
                                    if slots[i].is_some() {
                                        return Err(FunctionError::RepeatedArg { name: key.clone() });
                                    }
                                    put(slots, i, ArgValue::Value(v), Ghost(ni));
                                },
                                None => {
                                    if overflow_insert_exec(&mut overflow, key.clone(), v) {
                                        return Err(FunctionError::RepeatedArg { name: key.clone() });
                                    }
                                },
                            }
                        },
                    }
                    j = j + 1;
                }
                assert(es_m.subrange(j as int, es_m.len() as int) =~= Seq::<(Option<Seq<char>>, V)>::empty());
            },
        }
        // Defaults, and required parameters left empty.
        let ghost slots5 = slots_view(slots@, ni);
        assert(self.bind_model(call) == self.final_stage(slots5, next3, star3, pairs_view(overflow@)));
        let mut index: usize = next_position;
        while index < n
            invariant
                self.wf(),
                n == self.num_params(),
                ni == n,
                next3 <= index <= n,
                self.defaults_phase(next3, slots5) == self.defaults_phase(index as int, slots_view(slots@, ni)),
                self.bind_model(call) == self.final_stage(slots5, next3, star3, pairs_view(overflow@)),
                call == args.model(),
                next3 == next_position as int,
                star3 == star_args@,
                same_tail(slots@, old(slots)@, ni),
                ni <= old(slots)@.len(),
            decreases n - index,
        {
            if slots[index].is_none() {
                match &self.param_kinds[index] {
                    ParameterKind::Required => {
                        let name = self.param_names[index].clone();
                        let function = self.signature();
                        assert(slots_view(slots@, ni)[index as int] is None);
                        assert(name@ == self.names()[index as int]);
                        assert(self.defaults_phase(index as int, slots_view(slots@, ni)) == Err::<Slots<V>, BindError>(BindError::MissingParameter { name: name@, function: function@ }));
                        return Err(
                            FunctionError::MissingParameter { name, function },
                        );
                    },
                    ParameterKind::Defaulted(x) => {
                        put(slots, index, ArgValue::Value(*x), Ghost(ni));
                    },
                    _ => {},
                }
            }
            index = index + 1;
        }
        // The two sinks. Missing parameters are reported before unexpected
        // ones, so that a misspelt name reads as the parameter it missed.
        match self.indices.args {
            Some(a) => {
                put(slots, a, ArgValue::Tuple(star_args), Ghost(ni));
            },
            None => {
                if star_args.len() > 0 {
                    return Err(
                        FunctionError::ExtraPositionalArg {
                            count: star_args.len(),
                            function: self.signature(),
                        },
                    );
                }
            },
        }
        match self.indices.kwargs {
            Some(k) => {
                put(slots, k, ArgValue::Dict(overflow), Ghost(ni));
            },
            None => {
                if overflow.len() > 0 {
                    let names = overflow_names(&overflow);
                    return Err(FunctionError::ExtraNamedArg { names, function: self.signature() });
                }
            },
        }
        Ok(())
    }
}

} // verus!
