use starlark_params::{
    ArgValue, Arguments, DocDefault, DocParam, FunctionError, KwEntry, ParamMode, ParametersSpec,
    StarArgs, StarKwargs,
};

/// `f(a, b=10, *args, c, **kwargs)`
fn sig_f() -> ParametersSpec<i32> {
    let mut b = ParametersSpec::new("f".to_owned());
    b.no_more_positional_only_args();
    b.required("a");
    b.defaulted("b", 10);
    b.args();
    b.required("c");
    b.kwargs();
    b.finish()
}

/// `g($x, /, y, *, z)`
fn sig_g() -> ParametersSpec<i32> {
    let mut b = ParametersSpec::new("g".to_owned());
    b.required("$x");
    b.no_more_positional_only_args();
    b.required("y");
    b.no_more_positional_args();
    b.required("z");
    b.finish()
}

fn call(pos: &[i32], named: &[(&str, i32)]) -> Arguments<i32> {
    Arguments {
        pos: pos.to_vec(),
        named: named.iter().map(|(n, v)| (n.to_string(), *v)).collect(),
        args: None,
        kwargs: None,
    }
}

fn kwargs_of(entries: &[(&str, i32)]) -> StarKwargs<i32> {
    StarKwargs::Entries(
        entries
            .iter()
            .map(|(k, v)| KwEntry { key: Some(k.to_string()), value: *v })
            .collect(),
    )
}

fn val(v: i32) -> Option<ArgValue<i32>> {
    Some(ArgValue::Value(v))
}

fn tuple(v: &[i32]) -> Option<ArgValue<i32>> {
    Some(ArgValue::Tuple(v.to_vec()))
}

fn dict(v: &[(&str, i32)]) -> Option<ArgValue<i32>> {
    Some(ArgValue::Dict(v.iter().map(|(k, x)| (k.to_string(), *x)).collect()))
}

#[test]
fn overflow_goes_to_both_sinks() {
    let r = sig_f().collect_into(&call(&[1, 2, 3, 4], &[("c", 5), ("d", 6)])).unwrap();
    assert_eq!(r, vec![val(1), val(2), tuple(&[3, 4]), val(5), dict(&[("d", 6)])]);
}

#[test]
fn missing_named_only_parameter() {
    let r = sig_f().collect_into(&call(&[1], &[]));
    assert_eq!(
        r,
        Err(FunctionError::MissingParameter { name: "c".to_owned(), function: "f".to_owned() })
    );
}

#[test]
fn positional_and_named_collide() {
    let r = sig_f().collect_into(&call(&[1, 2], &[("a", 9)]));
    assert_eq!(r, Err(FunctionError::RepeatedArg { name: "a".to_owned() }));
}

#[test]
fn all_by_name_with_default() {
    let r = sig_f().collect_into(&call(&[], &[("a", 1), ("c", 2)])).unwrap();
    assert_eq!(r, vec![val(1), val(10), tuple(&[]), val(2), dict(&[])]);
}

#[test]
fn spliced_args_and_kwargs() {
    let mut c = call(&[1, 2], &[("c", 4)]);
    c.args = Some(StarArgs::Items(vec![3]));
    c.kwargs = Some(kwargs_of(&[("e", 5)]));
    let r = sig_f().collect_into(&c).unwrap();
    assert_eq!(r, vec![val(1), val(2), tuple(&[3]), val(4), dict(&[("e", 5)])]);
}

#[test]
fn positional_only_and_named_only() {
    let r = sig_g().collect_into(&call(&[1, 2], &[("z", 3)])).unwrap();
    assert_eq!(r, vec![val(1), val(2), val(3)]);
}

#[test]
fn positional_only_name_is_unknown() {
    let r = sig_g().collect_into(&call(&[1], &[("x", 9), ("y", 2), ("z", 3)]));
    assert_eq!(
        r,
        Err(FunctionError::ExtraNamedArg { names: vec!["x".to_owned()], function: "g".to_owned() })
    );
}

#[test]
fn positional_only_name_goes_to_kwargs() {
    let mut b = ParametersSpec::new("h".to_owned());
    b.required("x");
    b.kwargs();
    let h = b.finish();
    let r = h.collect_into(&call(&[1], &[("x", 2)])).unwrap();
    assert_eq!(r, vec![val(1), dict(&[("x", 2)])]);
}

#[test]
fn zero_parameters_zero_arguments() {
    let s: ParametersSpec<i32> = ParametersSpec::new("z".to_owned()).finish();
    assert_eq!(s.len(), 0);
    assert_eq!(s.collect_into(&call(&[], &[])), Ok(vec![]));
    assert!(s.can_fill_with_args(0, &[]));
    assert!(!s.can_fill_with_args(1, &[]));
    assert_eq!(s.parameters_str(), "");
}

#[test]
fn zero_parameters_extra_positional() {
    let s: ParametersSpec<i32> = ParametersSpec::new("z".to_owned()).finish();
    assert_eq!(
        s.collect_into(&call(&[7, 8], &[])),
        Err(FunctionError::ExtraPositionalArg { count: 2, function: "z".to_owned() })
    );
}

#[test]
fn all_positional_fast_path() {
    let mut b = ParametersSpec::new("p".to_owned());
    b.required("a");
    b.required("b");
    b.required("c");
    let p = b.finish();
    let c = call(&[4, 5, 6], &[]);
    assert_eq!(p.collect_into(&c).unwrap(), vec![val(4), val(5), val(6)]);
    let mut slots = vec![None, None, None, None];
    assert_eq!(p.collect(&c, &mut slots), Ok(()));
    assert_eq!(slots, vec![val(4), val(5), val(6), None]);
}

#[test]
fn named_and_kwargs_same_name() {
    let mut c = call(&[1], &[("c", 5)]);
    c.kwargs = Some(kwargs_of(&[("c", 6)]));
    assert_eq!(
        sig_f().collect_into(&c),
        Err(FunctionError::RepeatedArg { name: "c".to_owned() })
    );
    let mut c = call(&[1, 2], &[("c", 5), ("d", 1)]);
    c.kwargs = Some(kwargs_of(&[("d", 2)]));
    assert_eq!(
        sig_f().collect_into(&c),
        Err(FunctionError::RepeatedArg { name: "d".to_owned() })
    );
}

#[test]
fn args_splat_fills_exactly() {
    let mut b = ParametersSpec::new("h".to_owned());
    b.no_more_positional_only_args();
    b.required("a");
    b.required("b");
    b.required("c");
    let h = b.finish();
    let mut c = call(&[1], &[]);
    c.args = Some(StarArgs::Items(vec![2, 3]));
    assert_eq!(h.collect_into(&c).unwrap(), vec![val(1), val(2), val(3)]);
    let mut c = call(&[1], &[]);
    c.args = Some(StarArgs::Items(vec![2, 3, 4]));
    assert_eq!(
        h.collect_into(&c),
        Err(FunctionError::ExtraPositionalArg { count: 1, function: "h".to_owned() })
    );
}

#[test]
fn optional_left_empty() {
    let mut b = ParametersSpec::new("o".to_owned());
    b.no_more_positional_only_args();
    b.required("a");
    b.optional("b");
    let o = b.finish();
    assert_eq!(o.collect_into(&call(&[1], &[])).unwrap(), vec![val(1), None]);
    assert_eq!(o.collect_into(&call(&[1], &[("b", 2)])).unwrap(), vec![val(1), val(2)]);
}

#[test]
fn splice_errors() {
    let mut c = call(&[1], &[("c", 2)]);
    c.args = Some(StarArgs::NotIterable);
    assert_eq!(sig_f().collect_into(&c), Err(FunctionError::ArgsArrayIsNotIterable));
    let mut c = call(&[1], &[("c", 2)]);
    c.kwargs = Some(StarKwargs::NotDict);
    assert_eq!(sig_f().collect_into(&c), Err(FunctionError::KwArgsIsNotDict));
    let mut c = call(&[1], &[("c", 2)]);
    c.kwargs = Some(StarKwargs::Entries(vec![KwEntry { key: None, value: 3 }]));
    assert_eq!(sig_f().collect_into(&c), Err(FunctionError::ArgsValueIsNotString));
}

#[test]
fn later_named_value_wins_in_kwargs() {
    let r = sig_f().collect_into(&call(&[1], &[("c", 2), ("d", 3), ("d", 4)])).unwrap();
    assert_eq!(r, vec![val(1), val(10), tuple(&[]), val(2), dict(&[("d", 4)])]);
}

#[test]
fn feasibility_check() {
    let f = sig_f();
    assert!(f.can_fill_with_args(1, &["c"]));
    assert!(f.can_fill_with_args(5, &["c", "zz"]));
    assert!(!f.can_fill_with_args(1, &[]));
    assert!(!f.can_fill_with_args(0, &["c", "c", "a"]));
    assert!(!f.can_fill_with_args(1, &["a", "c", "a"]));
    let g = sig_g();
    assert!(g.can_fill_with_args(2, &["z"]));
    assert!(!g.can_fill_with_args(3, &["z"]));
    assert!(!g.can_fill_with_args(1, &["x", "y", "z"]));
    assert!(!g.can_fill_with_args(1, &["y", "z", "w"]));
}

#[test]
fn successful_bind_is_feasible() {
    let f = sig_f();
    assert!(f.collect_into(&call(&[1, 2, 3, 4], &[("c", 5), ("d", 6)])).is_ok());
    assert!(f.can_fill_with_args(4, &["c", "d"]));
    let g = sig_g();
    assert!(g.collect_into(&call(&[1, 2], &[("z", 3)])).is_ok());
    assert!(g.can_fill_with_args(2, &["z"]));
}

#[test]
fn binding_is_repeatable() {
    let f = sig_f();
    let c = call(&[1, 2, 3], &[("c", 5), ("q", 1)]);
    assert_eq!(f.collect_into(&c), f.collect_into(&c));
    let c = call(&[1], &[]);
    assert_eq!(f.collect_into(&c), f.collect_into(&c));
}

#[test]
fn parameters_string() {
    assert_eq!(sig_f().parameters_str(), "a, b=..., *args, c, **kwargs");
    assert_eq!(sig_g().parameters_str(), "x, /, y, *, z");
    let mut b = ParametersSpec::<i32>::new("k".to_owned());
    b.required("a");
    b.optional("b");
    assert_eq!(b.finish().parameters_str(), "a, b, /");
}

#[test]
fn signature_and_len() {
    let f = sig_f();
    assert_eq!(f.signature(), "f");
    assert_eq!(f.len(), 5);
}

#[test]
fn param_modes() {
    let modes = sig_g().iter_param_modes();
    assert_eq!(
        modes,
        vec![
            ("$x".to_owned(), ParamMode::PosOnly(true)),
            ("y".to_owned(), ParamMode::PosOrName("y".to_owned(), true)),
            ("z".to_owned(), ParamMode::NameOnly("z".to_owned(), true)),
        ]
    );
    let modes = sig_f().iter_param_modes();
    assert_eq!(modes[1].1, ParamMode::PosOrName("b".to_owned(), false));
    assert_eq!(modes[2].1, ParamMode::Args);
    assert_eq!(modes[4].1, ParamMode::Kwargs);
}

#[test]
fn documentation_entries() {
    let docs = vec![("c".to_owned(), Some("the c".to_owned()))];
    let d = sig_f().documentation(vec!["ta", "tb", "targs", "tc", "tkw"], docs);
    assert_eq!(
        d.params,
        vec![
            DocParam::Arg { name: "a".to_owned(), docs: None, typ: "ta", default_value: None },
            DocParam::Arg {
                name: "b".to_owned(),
                docs: None,
                typ: "tb",
                default_value: Some(DocDefault::Value(10)),
            },
            DocParam::Args { name: "*args".to_owned(), docs: None, tuple_elem_ty: "targs" },
            DocParam::Arg {
                name: "c".to_owned(),
                docs: Some("the c".to_owned()),
                typ: "tc",
                default_value: None,
            },
            DocParam::Kwargs { name: "**kwargs".to_owned(), docs: None, dict_value_ty: "tkw" },
        ]
    );
    let d = sig_g().documentation(vec![1u8, 2, 3], vec![]);
    assert_eq!(d.params.len(), 5);
    assert_eq!(d.params[1], DocParam::OnlyPosBefore);
    assert_eq!(d.params[3], DocParam::OnlyNamedAfter);
}

#[test]
fn documentation_all_positional_only() {
    let mut b = ParametersSpec::<i32>::new("k".to_owned());
    b.required("a");
    b.optional("b");
    let d = b.finish().documentation(vec![(), ()], vec![]);
    assert_eq!(d.params.len(), 3);
    assert_eq!(
        d.params[1],
        DocParam::Arg {
            name: "b".to_owned(),
            docs: None,
            typ: (),
            default_value: Some(DocDefault::Unspecified)
        }
    );
    assert_eq!(d.params[2], DocParam::OnlyPosBefore);
}

#[test]
fn parser_reads_slots_in_order() {
    let mut p = sig_f().parser(&call(&[1, 2, 3], &[("c", 4)])).unwrap();
    assert_eq!(p.len(), 5);
    assert_eq!(p.next_slot(), val(1));
    assert_eq!(p.next_slot(), val(2));
    assert_eq!(p.next_slot(), tuple(&[3]));
    assert_eq!(p.next_slot(), val(4));
    assert_eq!(p.next_slot(), dict(&[]));
    assert_eq!(p.len(), 0);
    assert!(sig_f().parser(&call(&[], &[])).is_err());
}
