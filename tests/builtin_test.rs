use zsh_system::{dispatch, dispatch_raw, register_handler, Builtin, HandlerTable};

type Handler = fn(&str, &[&str]) -> i32;

fn hello(_name: &str, _args: &[&str]) -> i32 {
    42
}

fn other(_name: &str, _args: &[&str]) -> i32 {
    7
}

fn arg_count(_name: &str, args: &[&str]) -> i32 {
    args.len() as i32
}

fn name_len(name: &str, _args: &[&str]) -> i32 {
    name.len() as i32
}

fn second_arg_len(_name: &str, args: &[&str]) -> i32 {
    if args.len() > 1 {
        args[1].len() as i32
    } else {
        -1
    }
}

#[test]
fn registered_command_dispatches_to_its_handler() {
    let mut table: HandlerTable<Handler> = HandlerTable::new();
    register_handler(&mut table, "hello", hello as Handler);
    assert_eq!(dispatch(&table, "hello", &[]), 42);
}

#[test]
fn missing_command_gives_status_one() {
    let mut table: HandlerTable<Handler> = HandlerTable::new();
    register_handler(&mut table, "hello", hello as Handler);
    assert_eq!(dispatch(&table, "missing", &[]), 1);
}

#[test]
fn empty_table_gives_status_one() {
    let table: HandlerTable<Handler> = HandlerTable::new();
    assert_eq!(dispatch(&table, "hello", &["x"]), 1);
}

#[test]
fn second_registration_keeps_the_first_handler() {
    let mut table: HandlerTable<Handler> = HandlerTable::new();
    register_handler(&mut table, "cmd", hello as Handler);
    register_handler(&mut table, "cmd", other as Handler);
    assert_eq!(table.len(), 1);
    assert_eq!(dispatch(&table, "cmd", &[]), 42);
}

#[test]
fn handlers_receive_name_and_arguments() {
    let mut table: HandlerTable<Handler> = HandlerTable::new();
    register_handler(&mut table, "count", arg_count as Handler);
    register_handler(&mut table, "namelen", name_len as Handler);
    assert_eq!(table.len(), 2);
    assert_eq!(dispatch(&table, "count", &["a", "b", "c"]), 3);
    assert_eq!(dispatch(&table, "namelen", &[]), 7);
}

#[test]
fn raw_dispatch_skips_arguments_that_are_not_text() {
    let mut table: HandlerTable<Handler> = HandlerTable::new();
    register_handler(&mut table, "count", arg_count as Handler);
    register_handler(&mut table, "second", second_arg_len as Handler);
    let argv: Vec<&[u8]> = vec![b"one", &[0xff, 0xfe], b"three"];
    assert_eq!(dispatch_raw(&table, Some(b"count"), &argv), 2);
    assert_eq!(dispatch_raw(&table, Some(b"second"), &argv), 5);
}

#[test]
fn raw_dispatch_with_missing_or_bad_name_uses_the_empty_name() {
    let mut table: HandlerTable<Handler> = HandlerTable::new();
    register_handler(&mut table, "", hello as Handler);
    assert_eq!(dispatch_raw(&table, None, &[]), 42);
    assert_eq!(dispatch_raw(&table, Some(&[0xc3, 0x28]), &[]), 42);
    let empty: HandlerTable<Handler> = HandlerTable::new();
    assert_eq!(dispatch_raw(&empty, None, &[]), 1);
}

#[test]
fn builtin_descriptor_has_open_argument_bounds() {
    let b = Builtin::new("hello", hello as Handler);
    let raw = b.as_raw();
    assert_eq!(raw.name, "hello");
    assert_eq!(raw.min_args, 0);
    assert_eq!(raw.max_args, -1);
    assert_eq!((b.handler())("hello", &[]), 42);
}
