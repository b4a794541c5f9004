//! Decisions behind adding, removing and running native hook callbacks.
//!
//! The caller asks the host for the hook's definition and its registered
//! callbacks (by address), hands the answer to these functions, and acts on
//! what they return: register, deregister, run, or report the error.
use vstd::prelude::*;
use crate::params::{c_compatible, has_nul};
use crate::text::{texts_of, utf8_items};

verus! {

/// Why a hook operation failed.
#[derive(Debug)]
pub enum HookError {
    /// The callback is already registered on the named hook.
    AlreadyExists(String),
    /// The hook, or the callback on it, does not exist; says which.
    NotFound(String),
    /// The hook name holds a NUL character and cannot reach the host.
    InvalidString,
}

/// What a `HookError` says, over plain values.
pub enum HookFailure {
    AlreadyExists(Seq<char>),
    NotFound(Seq<char>),
    InvalidString,
}

impl View for HookError {
    type V = HookFailure;

    open spec fn view(&self) -> HookFailure {
        match self {
            HookError::AlreadyExists(s) => HookFailure::AlreadyExists(s@),
            HookError::NotFound(s) => HookFailure::NotFound(s@),
            HookError::InvalidString => HookFailure::InvalidString,
        }
    }
}

impl PartialEq for HookError {
    fn eq(&self, other: &HookError) -> (r: bool)
        ensures
            r == (self@ == other@),
    {
        match self {
            HookError::AlreadyExists(a) => match other {
                HookError::AlreadyExists(b) => (*a).eq(b),
                _ => false,
            },
            HookError::NotFound(a) => match other {
                HookError::NotFound(b) => (*a).eq(b),
                _ => false,
            },
            HookError::InvalidString => match other {
                HookError::InvalidString => true,
                _ => false,
            },
        }
    }
}

impl vstd::std_specs::cmp::PartialEqSpecImpl for HookError {
    open spec fn obeys_eq_spec() -> bool {
        true
    }

    open spec fn eq_spec(&self, other: &HookError) -> bool {
        self@ == other@
    }
}

impl Eq for HookError {}

/// The outcome of a hook operation, over plain values.
pub open spec fn outcome_view(r: Result<(), HookError>) -> Result<(), HookFailure> {
    match r {
        Ok(()) => Ok(()),
        Err(e) => Err(e@),
    }
}

/// Adding `func` to hook `name`, whose registered callbacks are `funcs`
/// (`None`: the host does not know the hook). `Ok` means: register it.
pub open spec fn add_outcome(name: Seq<char>, func: usize, funcs: Option<Seq<usize>>) -> Result<(), HookFailure> {
    if has_nul(name) {
        Err(HookFailure::InvalidString)
    } else if funcs matches Some(fs) && fs.contains(func) {
        Err(HookFailure::AlreadyExists(name))
    } else {
        Ok(())
    }
}

/// The message of a callback missing from a known hook.
pub open spec fn missing_function(name: Seq<char>) -> Seq<char> {
    "Function in hook '"@ + name + "'"@
}

/// Removing `func` from hook `name`. `Ok` means: deregister it.
pub open spec fn remove_outcome(name: Seq<char>, func: usize, funcs: Option<Seq<usize>>) -> Result<(), HookFailure> {
    if has_nul(name) {
        Err(HookFailure::InvalidString)
    } else {
        match funcs {
            None => Err(HookFailure::NotFound(name)),
            Some(fs) => if fs.contains(func) {
                Ok(())
            } else {
                Err(HookFailure::NotFound(missing_function(name)))
            },
        }
    }
}

/// Running hook `name`, which the host knows when `defined`. `Ok` means:
/// run it.
pub open spec fn run_outcome(name: Seq<char>, defined: bool) -> Result<(), HookFailure> {
    if has_nul(name) {
        Err(HookFailure::InvalidString)
    } else if !defined {
        Err(HookFailure::NotFound(name))
    } else {
        Ok(())
    }
}

/// The script-level array that the host checks before it fires a hook.
pub open spec fn hook_array(name: Seq<char>) -> Seq<char> {
    name + "_functions"@
}

/// Adding a callback a second time fails with `AlreadyExists` once the
/// first addition has been registered with the hook; removing a callback
/// that is not registered fails with `NotFound`.
pub proof fn lemma_add_twice(name: Seq<char>, func: usize, other: usize, funcs: Seq<usize>)
    requires
        add_outcome(name, func, Some(funcs)) is Ok,
        !funcs.contains(other),
    ensures
        add_outcome(name, func, Some(funcs.push(func))) == Err::<(), HookFailure>(HookFailure::AlreadyExists(name)),
        remove_outcome(name, other, Some(funcs)) == Err::<(), HookFailure>(
            HookFailure::NotFound(missing_function(name)),
        ),
{
    assert(funcs.push(func)[funcs.len() as int] == func);
}

fn contains_func(funcs: &[usize], func: usize) -> (r: bool)
    ensures
        r == funcs@.contains(func),
{
    let mut i: usize = 0;
    while i < funcs.len()
        invariant
            0 <= i <= funcs@.len(),
            forall|k: int| 0 <= k < i ==> funcs@[k] != func,
        decreases funcs@.len() - i,
    {
        if funcs[i] == func {
            return true;
        }
        i = i + 1;
    }
    false
}

/// Operations on the host's named hooks.
pub struct Hook;

impl Hook {
    /// The names of the host's hooks that are text, in the host's order.
    pub fn list(raw_names: &[&[u8]]) -> (r: Vec<String>)
        ensures
            r@.map_values(|s: String| s@) == texts_of(raw_names@.map_values(|b: &[u8]| b@)),
    {
        let names = utf8_items(raw_names);
        let mut out: Vec<String> = Vec::new();
        let mut i: usize = 0;
        while i < names.len()
            invariant
                0 <= i <= names@.len(),
                out@.map_values(|s: String| s@) == names@.map_values(|s: &str| s@).take(i as int),
            decreases names@.len() - i,
        {
            let ghost before = out@;
            let s = names[i].to_string();
            assert(s@ == names@[i as int]@);
            out.push(s);
            assert(out@.map_values(|s: String| s@) =~= before.map_values(|s: String| s@).push(s@));
            assert(out@.map_values(|s: String| s@) =~= names@.map_values(|s: &str| s@).take(i + 1));
            i = i + 1;
        }
        assert(names@.map_values(|s: &str| s@).take(names@.len() as int) =~= names@.map_values(|s: &str| s@));
        out
    }

    /// Decides whether `func` may be added to hook `name`, given the
    /// callbacks the host has registered there (`None`: unknown hook).
    pub fn add(name: &str, func: usize, funcs: Option<&[usize]>) -> (r: Result<(), HookError>)
        ensures
            outcome_view(r) == add_outcome(name@, func, match funcs {
                Some(fs) => Some(fs@),
                None => None::<Seq<usize>>,
            }),
    {
        if !c_compatible(name) {
            return Err(HookError::InvalidString);
        }
        match funcs {
            Some(fs) => if contains_func(fs, func) {
                Err(HookError::AlreadyExists(name.to_string()))
            } else {
                Ok(())
            },
            None => Ok(()),
        }
    }

    /// Decides whether `func` may be removed from hook `name`.
    pub fn remove(name: &str, func: usize, funcs: Option<&[usize]>) -> (r: Result<(), HookError>)
        ensures
            outcome_view(r) == remove_outcome(name@, func, match funcs {
                Some(fs) => Some(fs@),
                None => None::<Seq<usize>>,
            }),
    {
        if !c_compatible(name) {
            return Err(HookError::InvalidString);
        }
        match funcs {
            None => Err(HookError::NotFound(name.to_string())),
            Some(fs) => if contains_func(fs, func) {
                Ok(())
            } else {
                let mut msg = "Function in hook '".to_string();
                msg.append(name);
                msg.append("'");
                Err(HookError::NotFound(msg))
            },
        }
    }

    /// Decides whether hook `name` can be run, with or without data.
    pub fn run(name: &str, defined: bool) -> (r: Result<(), HookError>)
        ensures
            outcome_view(r) == run_outcome(name@, defined),
    {
        if !c_compatible(name) {
            Err(HookError::InvalidString)
        } else if !defined {
            Err(HookError::NotFound(name.to_string()))
        } else {
            Ok(())
        }
    }

    /// The name of the array the host checks before it fires hook `name`.
    pub fn array_name(name: &str) -> (r: String)
        ensures
            r@ == hook_array(name@),
    {
        let mut s = name.to_string();
        s.append("_functions");
        s
    }

    /// The value to store in the hook's array so that the host fires native
    /// callbacks: a single no-op command where the array is missing or
    /// empty, and nothing to store where it has entries.
    pub fn activation(current: Option<&[String]>) -> (r: Option<Vec<String>>)
        ensures
            match current {
                Some(v) if v@.len() > 0 => r is None,
                _ => r matches Some(w) && w@.len() == 1 && w@[0]@ == ":"@,
            },
    {
        match current {
            Some(v) if v.len() > 0 => None,
            _ => {
                let mut w: Vec<String> = Vec::new();
                w.push(":".to_string());
                Some(w)
            },
        }
    }
}

} // verus!
