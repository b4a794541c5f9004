//! Building blocks for native shell extensions: a name-keyed command
//! dispatcher, feature descriptor sets, cached variable handles, hook
//! registration decisions and the module lifecycle.
//!
//! Everything here is plain data and decisions; the host's C interface is
//! driven by the caller, which hands the host's answers back as values.

mod builtin;
mod descriptors;
mod features;
mod hook;
mod module;
mod params;
mod text;

pub use builtin::{
    accepts_all, command_name, count_named, dispatch, dispatch_raw, lemma_lookup_push,
    lemma_register_fresh, lemma_register_twice, lookup_in, names_unique, raw_command_name,
    register_handler, registered, Builtin, HandlerTable, RawBuiltin,
};
pub use descriptors::{Conddef, Mathfunc, Paramdef, RawConddef, RawMathfunc, RawParamdef};
pub use features::{commands_after, lemma_command_count, Features, RawFeatures};
pub use hook::{
    add_outcome, hook_array, lemma_add_twice, missing_function, remove_outcome, run_outcome, Hook,
    HookError, HookFailure,
};
pub use module::{
    lemma_setup_once, setup_step, stage_name, status, status_of, LifecycleError,
    LifecycleFailure, ModuleContainer, ModuleSlot, Stage, ZshModule, ZshResult,
};
pub use params::{
    after_lookup, array_value, assigned, c_compatible, has_nul, kind_of_flags, lemma_cache_lookups,
    lemma_value_round_trip, next_step, rendered, run_accesses, scalar_value, CacheView,
    FloatParam, NodeCache, NodeStep, ParamError, ParamValue, ValueModel, ZshAnyPtr, ZshParamPtr,
    ZshParamType, ZshParameter, ZshType, PM_ARRAY, PM_FFLOAT, PM_INTEGER,
};
pub use text::{
    all_digits, decimal, digits_of, digits_value, host_text, host_texts, is_space, is_word,
    join_spaced, join_words, lemma_integer_round_trip, lemma_text_round_trip, lemma_words_are_words,
    lemma_words_round_trip, lossy_text, parse_i64, parse_integer, render_integer, scan_words,
    space, split_words, texts_of, utf8_items, words,
};
