//! The module lifecycle: one extension instance per loaded module, set up
//! once, then booted, cleaned up and finished, with its feature set cached.
use vstd::prelude::*;
use crate::builtin::HandlerTable;
use crate::features::{Features, RawFeatures};

verus! {

/// The result of a lifecycle behaviour; the error says why it failed.
pub type ZshResult = Result<(), String>;

/// The behaviour of an extension: what it does at each lifecycle stage and
/// the features it offers.
pub trait ZshModule {
    /// The type of its command handlers.
    type Handler: Copy;

    /// Runs once, when the host first loads the module.
    fn setup(&mut self) -> ZshResult {
        Ok(())
    }

    /// Runs when the host enables the module's features.
    fn boot(&mut self) -> ZshResult {
        Ok(())
    }

    /// Runs when the host disables the features or unloads the module.
    fn cleanup(&mut self) -> ZshResult {
        Ok(())
    }

    /// Runs last, before the module leaves memory.
    fn finish(&mut self) -> ZshResult {
        Ok(())
    }

    /// The features the module offers; command handlers go into `table`.
    fn features(&self, table: &mut HandlerTable<Self::Handler>) -> Features<Self::Handler>;
}

/// A lifecycle stage that runs an extension behaviour.
#[derive(Debug, Clone, Copy, PartialEq, Eq, Structural)]
pub enum Stage {
    Setup,
    Boot,
    Cleanup,
    Finish,
}

/// Why a lifecycle stage failed.
#[derive(Debug)]
pub enum LifecycleError {
    /// Setup ran while an instance already exists.
    AlreadyInitialized,
    /// The extension's behaviour for a stage reported an error.
    Failed(Stage, String),
}

/// What a `LifecycleError` says, over plain values.
pub enum LifecycleFailure {
    AlreadyInitialized,
    Failed(Stage, Seq<char>),
}

impl View for LifecycleError {
    type V = LifecycleFailure;

    open spec fn view(&self) -> LifecycleFailure {
        match self {
            LifecycleError::AlreadyInitialized => LifecycleFailure::AlreadyInitialized,
            LifecycleError::Failed(s, m) => LifecycleFailure::Failed(*s, m@),
        }
    }
}

pub open spec fn stage_name(stage: Stage) -> Seq<char> {
    match stage {
        Stage::Setup => "setup"@,
        Stage::Boot => "boot"@,
        Stage::Cleanup => "cleanup"@,
        Stage::Finish => "finish"@,
    }
}

impl LifecycleError {
    /// The line to log for this error.
    pub fn message(&self) -> (r: String)
        ensures
            r@ == match self@ {
                LifecycleFailure::AlreadyInitialized => "Failed to initialize module storage (already initialized)"@,
                LifecycleFailure::Failed(s, m) => stage_name(s) + " failed: "@ + m,
            },
    {
        match self {
            LifecycleError::AlreadyInitialized => "Failed to initialize module storage (already initialized)".to_string(),
            LifecycleError::Failed(stage, m) => {
                let mut s = match stage {
                    Stage::Setup => "setup".to_string(),
                    Stage::Boot => "boot".to_string(),
                    Stage::Cleanup => "cleanup".to_string(),
                    Stage::Finish => "finish".to_string(),
                };
                s.append(" failed: ");
                s.append(m.as_str());
                s
            },
        }
    }
}

/// The status the host receives: `0` for success, `1` for failure.
pub open spec fn status_of(r: Result<(), LifecycleFailure>) -> i32 {
    if r is Ok {
        0
    } else {
        1
    }
}

pub open spec fn outcome_view(r: Result<(), LifecycleError>) -> Result<(), LifecycleFailure> {
    match r {
        Ok(()) => Ok(()),
        Err(e) => Err(e@),
    }
}

/// The status the host receives for a stage's outcome.
pub fn status(r: &Result<(), LifecycleError>) -> (s: i32)
    ensures
        s == status_of(outcome_view(*r)),
{
    match r {
        Ok(()) => 0,
        Err(_) => 1,
    }
}

/// A setup call, from whether an instance existed before (`was`) and after
/// (`now`) and what it returned: with an instance it fails and keeps it;
/// without one, an instance exists afterwards exactly when setup succeeded.
pub open spec fn setup_step(was: bool, now: bool, r: Result<(), LifecycleFailure>) -> bool {
    if was {
        now && r == Err::<(), LifecycleFailure>(LifecycleFailure::AlreadyInitialized)
    } else {
        (r is Ok <==> now) && (r matches Err(e) ==> e matches LifecycleFailure::Failed(Stage::Setup, _))
    }
}

/// The first setup that succeeds returns status `0`; every setup after it
/// returns a nonzero status and leaves the instance in place.
pub proof fn lemma_setup_once(now1: bool, now2: bool, r1: Result<(), LifecycleFailure>, r2: Result<(), LifecycleFailure>)
    requires
        setup_step(false, now1, r1),
        r1 is Ok,
        setup_step(now1, now2, r2),
    ensures
        status_of(r1) == 0,
        status_of(r2) != 0,
        r2 == Err::<(), LifecycleFailure>(LifecycleFailure::AlreadyInitialized),
        now2,
{
}

/// The extension instance and the feature set it offered at setup.
pub struct ModuleContainer<M: ZshModule> {
    pub instance: M,
    pub features_cache: Features<M::Handler>,
}

/// Holds the module's single extension instance, once setup has made it.
pub struct ModuleSlot<M: ZshModule> {
    container: Option<ModuleContainer<M>>,
}

impl<M: ZshModule> ModuleSlot<M> {
    pub closed spec fn is_initialized(&self) -> bool {
        self.container is Some
    }

    /// The feature set cached at setup.
    pub closed spec fn cached_features(&self) -> Features<M::Handler> {
        self.container.unwrap().features_cache
    }

    pub fn new() -> (r: Self)
        ensures
            !r.is_initialized(),
    {
        ModuleSlot { container: None }
    }

    pub fn initialized(&self) -> (r: bool)
        ensures
            r == self.is_initialized(),
    {
        self.container.is_some()
    }

    /// The feature set cached at setup.
    pub fn cached(&self) -> (r: &Features<M::Handler>)
        requires
            self.is_initialized(),
        ensures
            *r == self.cached_features(),
    {
        &self.container.as_ref().unwrap().features_cache
    }

    /// Sets up a fresh instance and caches its features, unless an instance
    /// already exists; command handlers go into `table`.
    pub fn setup(&mut self, instance: M, table: &mut HandlerTable<M::Handler>) -> (r: Result<(), LifecycleError>)
        ensures
            setup_step(old(self).is_initialized(), final(self).is_initialized(), outcome_view(r)),
    {
        if self.container.is_some() {
            return Err(LifecycleError::AlreadyInitialized);
        }
        let mut instance = instance;
        match instance.setup() {
            Ok(()) => {
                let features_cache = instance.features(table);
                self.container = Some(ModuleContainer { instance, features_cache });
                Ok(())
            },
            Err(e) => Err(LifecycleError::Failed(Stage::Setup, e)),
        }
    }

    /// Regenerates the cached feature set's host-facing arrays and returns
    /// their lengths; `None` where a count does not fit the host's integer.
    pub fn features(&mut self) -> (r: Option<RawFeatures>)
        requires
            old(self).is_initialized(),
        ensures
            final(self).is_initialized(),
            ({
                let f = old(self).cached_features();
                r is None <==> f.builtins().len() > i32::MAX || f.conddefs().len() > i32::MAX
                    || f.math_funcs().len() > i32::MAX || f.param_defs().len() > i32::MAX
            }),
            r is None ==> final(self).cached_features() == old(self).cached_features(),
            r matches Some(raw) ==> {
                let f = old(self).cached_features();
                let g = final(self).cached_features();
                &&& g.same_definitions(&f)
                &&& raw.bn_size == f.builtins().len()
                &&& raw.cd_size == f.conddefs().len()
                &&& raw.mf_size == f.math_funcs().len()
                &&& raw.pd_size == f.param_defs().len()
                &&& raw.n_abstract == f.n_abstract()
                &&& g.raw_builtins_spec().len() == f.builtins().len()
                &&& g.raw_conddefs_spec().len() == f.conddefs().len()
                &&& g.raw_mathfuncs_spec().len() == f.math_funcs().len()
                &&& g.raw_paramdefs_spec().len() == f.param_defs().len()
            },
    {
        match &mut self.container {
            Some(c) => {
                let f = &mut c.features_cache;
                if f.builtin_count() > 2147483647 || f.conddef_count() > 2147483647
                    || f.math_func_count() > 2147483647 || f.param_def_count() > 2147483647 {
                    None
                } else {
                    Some(f.as_zsh_features())
                }
            },
            None => None,
        }
    }

    /// Runs the extension's behaviour for `stage`, which is not setup.
    fn run_stage(&mut self, stage: Stage) -> (r: Result<(), LifecycleError>)
        requires
            old(self).is_initialized(),
            stage != Stage::Setup,
        ensures
            final(self).is_initialized(),
            r matches Err(e) ==> e@ matches LifecycleFailure::Failed(s, _) && s == stage,
    {
        match &mut self.container {
            Some(c) => {
                let res = match stage {
                    Stage::Boot => c.instance.boot(),
                    Stage::Cleanup => c.instance.cleanup(),
                    _ => c.instance.finish(),
                };
                match res {
                    Ok(()) => Ok(()),
                    Err(e) => Err(LifecycleError::Failed(stage, e)),
                }
            },
            None => Ok(()),
        }
    }

    /// Boots the instance; calling it before setup is a protocol violation.
    pub fn boot(&mut self) -> (r: Result<(), LifecycleError>)
        requires
            old(self).is_initialized(),
        ensures
            final(self).is_initialized(),
            r matches Err(e) ==> e@ matches LifecycleFailure::Failed(Stage::Boot, _),
    {
        self.run_stage(Stage::Boot)
    }

    /// Cleans the instance up; calling it before setup is a protocol violation.
    pub fn cleanup(&mut self) -> (r: Result<(), LifecycleError>)
        requires
            old(self).is_initialized(),
        ensures
            final(self).is_initialized(),
            r matches Err(e) ==> e@ matches LifecycleFailure::Failed(Stage::Cleanup, _),
    {
        self.run_stage(Stage::Cleanup)
    }

    /// Finishes the instance; calling it before setup is a protocol violation.
    pub fn finish(&mut self) -> (r: Result<(), LifecycleError>)
        requires
            old(self).is_initialized(),
        ensures
            final(self).is_initialized(),
            r matches Err(e) ==> e@ matches LifecycleFailure::Failed(Stage::Finish, _),
    {
        self.run_stage(Stage::Finish)
    }
}

} // verus!
