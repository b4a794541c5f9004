use zsh_system::{dispatch, Conddef, Features, HandlerTable, Mathfunc, Paramdef};

type Handler = fn(&str, &[&str]) -> i32;

fn hello(_name: &str, _args: &[&str]) -> i32 {
    42
}

fn bye(_name: &str, _args: &[&str]) -> i32 {
    3
}

#[test]
fn materialized_command_count_matches_additions() {
    let mut table: HandlerTable<Handler> = HandlerTable::new();
    let f: Features<Handler> = Features::new();
    let f = f.add_builtin(&mut table, "hello", hello as Handler);
    let f = f.add_builtin(&mut table, "bye", bye as Handler);
    let mut f = f.add_builtin(&mut table, "hello", bye as Handler);
    let raw = f.as_zsh_features();
    assert_eq!(raw.bn_size, 3);
    assert_eq!(raw.cd_size, 0);
    assert_eq!(raw.mf_size, 0);
    assert_eq!(raw.pd_size, 0);
    assert_eq!(raw.n_abstract, 0);
    assert_eq!(f.raw_builtins().len(), 3);
    assert_eq!(f.raw_builtins()[1].name, "bye");
    assert_eq!(table.len(), 2);
    assert_eq!(dispatch(&table, "hello", &[]), 42);
    assert_eq!(dispatch(&table, "bye", &[]), 3);
}

#[test]
fn empty_feature_set_materializes_to_nothing() {
    let mut f: Features<Handler> = Features::new();
    let raw = f.as_zsh_features();
    assert_eq!(raw.bn_size, 0);
    assert!(f.raw_builtins().is_empty());
    assert!(f.raw_paramdefs().is_empty());
}

#[test]
fn every_descriptor_kind_reaches_its_array() {
    let mut table: HandlerTable<Handler> = HandlerTable::new();
    let f: Features<Handler> = Features::new();
    let f = f
        .add_builtin(&mut table, "hello", hello as Handler)
        .add_condition(Conddef::new("-t", 1, Some(0x1000), 1, 2, Some("mymod")))
        .add_function(Mathfunc::new("sq", 0, Some(0x2000), None, 1, 1))
        .add_param(Paramdef::new("MYVAR", 4, 0x3000, 0x4000));
    let mut f = f;
    let raw = f.as_zsh_features();
    assert_eq!((raw.bn_size, raw.cd_size, raw.mf_size, raw.pd_size), (1, 1, 1, 1));
    let c = &f.raw_conddefs()[0];
    assert_eq!(c.name, "-t");
    assert_eq!((c.flags, c.handler, c.min, c.max), (1, Some(0x1000), 1, 2));
    assert_eq!(c.module.as_deref(), Some("mymod"));
    let m = &f.raw_mathfuncs()[0];
    assert_eq!(m.name, "sq");
    assert_eq!((m.nfunc, m.sfunc, m.min_args, m.max_args), (Some(0x2000), None, 1, 1));
    let p = &f.raw_paramdefs()[0];
    assert_eq!(p.name, "MYVAR");
    assert_eq!((p.flags, p.var, p.gsu), (4, 0x3000, 0x4000));
}

#[test]
fn regenerating_replaces_the_arrays() {
    let mut table: HandlerTable<Handler> = HandlerTable::new();
    let f: Features<Handler> = Features::new();
    let mut f = f.add_builtin(&mut table, "hello", hello as Handler);
    assert_eq!(f.as_zsh_features().bn_size, 1);
    assert_eq!(f.as_zsh_features().bn_size, 1);
    assert_eq!(f.raw_builtins().len(), 1);
    assert_eq!(f.builtin_count(), 1);
}

#[test]
fn condition_without_module_has_none() {
    let c = Conddef::new("-z", 0, None, 0, 1, None);
    let raw = c.as_raw();
    assert!(raw.module.is_none());
    assert!(raw.handler.is_none());
}
