use zsh_system::{
    dispatch, status, Features, HandlerTable, Hook, LifecycleError, ModuleSlot, Stage, ZshModule,
    ZshResult,
};

type Handler = fn(&str, &[&str]) -> i32;

fn hello(_name: &str, _args: &[&str]) -> i32 {
    42
}

#[derive(Default)]
struct TestModule {
    setup_called: bool,
}

impl ZshModule for TestModule {
    type Handler = Handler;

    fn setup(&mut self) -> ZshResult {
        self.setup_called = true;
        Ok(())
    }
    fn features(&self, table: &mut HandlerTable<Handler>) -> Features<Handler> {
        Features::new().add_builtin(table, "hello", hello as Handler)
    }
    fn boot(&mut self) -> ZshResult {
        if self.setup_called {
            Ok(())
        } else {
            Err("Setup not called".to_string())
        }
    }
    fn cleanup(&mut self) -> ZshResult {
        Ok(())
    }
    fn finish(&mut self) -> ZshResult {
        Ok(())
    }
}

struct FailingModule;

impl ZshModule for FailingModule {
    type Handler = Handler;

    fn setup(&mut self) -> ZshResult {
        Err("no resources".to_string())
    }
    fn features(&self, _table: &mut HandlerTable<Handler>) -> Features<Handler> {
        Features::new()
    }
}

#[test]
fn test_module_lifecycle_and_hooks() {
    let mut table: HandlerTable<Handler> = HandlerTable::new();
    let mut slot: ModuleSlot<TestModule> = ModuleSlot::new();
    assert_eq!(status(&slot.setup(TestModule::default(), &mut table)), 0);
    assert_eq!(status(&slot.boot()), 0);
    assert_eq!(Hook::run("test_event", true), Ok(()));
    assert_eq!(status(&slot.cleanup()), 0);
    assert_eq!(status(&slot.finish()), 0);
}

#[test]
fn second_setup_fails_and_keeps_the_instance() {
    let mut table: HandlerTable<Handler> = HandlerTable::new();
    let mut slot: ModuleSlot<TestModule> = ModuleSlot::new();
    assert!(!slot.initialized());
    assert_eq!(status(&slot.setup(TestModule::default(), &mut table)), 0);
    let again = slot.setup(TestModule::default(), &mut table);
    assert_eq!(status(&again), 1);
    assert!(matches!(again, Err(LifecycleError::AlreadyInitialized)));
    assert!(slot.initialized());
    assert_eq!(status(&slot.boot()), 0);
}

#[test]
fn setup_registers_the_module_commands() {
    let mut table: HandlerTable<Handler> = HandlerTable::new();
    let mut slot: ModuleSlot<TestModule> = ModuleSlot::new();
    assert_eq!(status(&slot.setup(TestModule::default(), &mut table)), 0);
    assert_eq!(dispatch(&table, "hello", &[]), 42);
    assert_eq!(dispatch(&table, "missing", &[]), 1);
    let raw = slot.features().expect("counts fit");
    assert_eq!(raw.bn_size, 1);
}

#[test]
fn failing_setup_leaves_no_instance() {
    let mut table: HandlerTable<Handler> = HandlerTable::new();
    let mut slot: ModuleSlot<FailingModule> = ModuleSlot::new();
    let r = slot.setup(FailingModule, &mut table);
    assert_eq!(status(&r), 1);
    match &r {
        Err(e) => {
            assert!(matches!(e, LifecycleError::Failed(Stage::Setup, _)));
            assert_eq!(e.message(), "setup failed: no resources");
        }
        Ok(()) => panic!("setup should fail"),
    }
    assert!(!slot.initialized());
}

#[test]
fn already_initialized_message() {
    assert_eq!(
        LifecycleError::AlreadyInitialized.message(),
        "Failed to initialize module storage (already initialized)"
    );
}
