//! The set of features a module offers, and its host-facing arrays.
//!
//! `as_zsh_features` regenerates the arrays and keeps them inside the set,
//! so what the host reads stays valid until the next regeneration.
use vstd::prelude::*;
use crate::builtin::{register_handler, registered, Builtin, HandlerTable, RawBuiltin};
use crate::descriptors::{Conddef, Mathfunc, Paramdef, RawConddef, RawMathfunc, RawParamdef};

verus! {

/// The counts the host reads beside the four arrays.
pub struct RawFeatures {
    pub bn_size: i32,
    pub cd_size: i32,
    pub mf_size: i32,
    pub pd_size: i32,
    pub n_abstract: i32,
}

/// Commands, condition tests, expression functions and variable
/// definitions, in the order they were added, with their host-facing arrays.
pub struct Features<H> {
    builtins: Vec<Builtin<H>>,
    conddefs: Vec<Conddef>,
    math_funcs: Vec<Mathfunc>,
    param_defs: Vec<Paramdef>,
    n_abstract: i32,
    raw_builtins: Vec<RawBuiltin>,
    raw_conddefs: Vec<RawConddef>,
    raw_mathfuncs: Vec<RawMathfunc>,
    raw_paramdefs: Vec<RawParamdef>,
}

/// The command list after adding one command per call, from an empty set.
pub open spec fn commands_after<H>(calls: Seq<(Seq<char>, H)>) -> Seq<(Seq<char>, H)>
    decreases calls.len(),
{
    if calls.len() == 0 {
        Seq::empty()
    } else {
        commands_after(calls.drop_last()).push(calls.last())
    }
}

/// The command array holds one entry per command added since the set was
/// made, names added twice included: only the handler table drops repeats.
pub proof fn lemma_command_count<H>(calls: Seq<(Seq<char>, H)>)
    ensures
        commands_after(calls) == calls,
        commands_after(calls).len() == calls.len(),
    decreases calls.len(),
{
    if calls.len() > 0 {
        lemma_command_count(calls.drop_last());
        assert(calls.drop_last().push(calls.last()) =~= calls);
    }
}

impl<H: Copy> Features<H> {
    /// The commands, as (name, handler) pairs, in order.
    pub closed spec fn commands(&self) -> Seq<(Seq<char>, H)> {
        self.builtins@.map_values(|b: Builtin<H>| (b.name(), b.handler_spec()))
    }

    pub closed spec fn builtins(&self) -> Seq<Builtin<H>> {
        self.builtins@
    }

    pub closed spec fn conddefs(&self) -> Seq<Conddef> {
        self.conddefs@
    }

    pub closed spec fn math_funcs(&self) -> Seq<Mathfunc> {
        self.math_funcs@
    }

    pub closed spec fn param_defs(&self) -> Seq<Paramdef> {
        self.param_defs@
    }

    pub closed spec fn n_abstract(&self) -> i32 {
        self.n_abstract
    }

    pub closed spec fn raw_builtins_spec(&self) -> Seq<RawBuiltin> {
        self.raw_builtins@
    }

    pub closed spec fn raw_conddefs_spec(&self) -> Seq<RawConddef> {
        self.raw_conddefs@
    }

    pub closed spec fn raw_mathfuncs_spec(&self) -> Seq<RawMathfunc> {
        self.raw_mathfuncs@
    }

    pub closed spec fn raw_paramdefs_spec(&self) -> Seq<RawParamdef> {
        self.raw_paramdefs@
    }

    /// The same definitions as `other`.
    pub open spec fn same_definitions(&self, other: &Self) -> bool {
        &&& self.builtins() == other.builtins()
        &&& self.conddefs() == other.conddefs()
        &&& self.math_funcs() == other.math_funcs()
        &&& self.param_defs() == other.param_defs()
        &&& self.n_abstract() == other.n_abstract()
    }

    /// An empty set.
    pub fn new() -> (r: Self)
        ensures
            r.builtins().len() == 0,
            r.commands() == Seq::<(Seq<char>, H)>::empty(),
            r.conddefs().len() == 0,
            r.math_funcs().len() == 0,
            r.param_defs().len() == 0,
            r.n_abstract() == 0,
            r.raw_builtins_spec().len() == 0,
            r.raw_conddefs_spec().len() == 0,
            r.raw_mathfuncs_spec().len() == 0,
            r.raw_paramdefs_spec().len() == 0,
    {
        let r = Features {
            builtins: Vec::new(),
            conddefs: Vec::new(),
            math_funcs: Vec::new(),
            param_defs: Vec::new(),
            n_abstract: 0,
            raw_builtins: Vec::new(),
            raw_conddefs: Vec::new(),
            raw_mathfuncs: Vec::new(),
            raw_paramdefs: Vec::new(),
        };
        assert(r.commands() =~= Seq::<(Seq<char>, H)>::empty());
        r
    }

    /// Adds a command and installs its handler in `table` under its name;
    /// the table keeps the first handler of a name it already holds.
    pub fn add_builtin(self, table: &mut HandlerTable<H>, name: &str, handler: H) -> (r: Self)
        requires
            old(table).wf(),
        ensures
            final(table).entries() == registered(old(table).entries(), name@, handler),
            final(table).wf(),
            r.commands() == self.commands().push((name@, handler)),
            r.builtins().len() == self.builtins().len() + 1,
            r.builtins().last().min_args() == 0,
            r.builtins().last().max_args() == -1,
            r.builtins().drop_last() == self.builtins(),
            r.conddefs() == self.conddefs(),
            r.math_funcs() == self.math_funcs(),
            r.param_defs() == self.param_defs(),
            r.n_abstract() == self.n_abstract(),
    {
        let mut f = self;
        register_handler(table, name, handler);
        f.builtins.push(Builtin::new(name, handler));
        assert(f.commands() =~= self.commands().push((name@, handler)));
        assert(f.builtins@.drop_last() =~= self.builtins@);
        f
    }

    /// Adds a condition test.
    pub fn add_condition(self, cond: Conddef) -> (r: Self)
        ensures
            r.conddefs() == self.conddefs().push(cond),
            r.builtins() == self.builtins(),
            r.commands() == self.commands(),
            r.math_funcs() == self.math_funcs(),
            r.param_defs() == self.param_defs(),
            r.n_abstract() == self.n_abstract(),
    {
        let mut f = self;
        f.conddefs.push(cond);
        f
    }

    /// Adds an expression function.
    pub fn add_function(self, func: Mathfunc) -> (r: Self)
        ensures
            r.math_funcs() == self.math_funcs().push(func),
            r.builtins() == self.builtins(),
            r.commands() == self.commands(),
            r.conddefs() == self.conddefs(),
            r.param_defs() == self.param_defs(),
            r.n_abstract() == self.n_abstract(),
    {
        let mut f = self;
        f.math_funcs.push(func);
        f
    }

    /// Adds a variable definition.
    pub fn add_param(self, param: Paramdef) -> (r: Self)
        ensures
            r.param_defs() == self.param_defs().push(param),
            r.builtins() == self.builtins(),
            r.commands() == self.commands(),
            r.conddefs() == self.conddefs(),
            r.math_funcs() == self.math_funcs(),
            r.n_abstract() == self.n_abstract(),
    {
        let mut f = self;
        f.param_defs.push(param);
        f
    }

    /// Regenerates the four host-facing arrays from the definitions, keeps
    /// them in the set, and returns their lengths.
    pub fn as_zsh_features(&mut self) -> (r: RawFeatures)
        requires
            old(self).builtins().len() <= i32::MAX,
            old(self).conddefs().len() <= i32::MAX,
            old(self).math_funcs().len() <= i32::MAX,
            old(self).param_defs().len() <= i32::MAX,
        ensures
            final(self).same_definitions(old(self)),
            final(self).commands() == old(self).commands(),
            r.bn_size == old(self).builtins().len(),
            r.cd_size == old(self).conddefs().len(),
            r.mf_size == old(self).math_funcs().len(),
            r.pd_size == old(self).param_defs().len(),
            r.n_abstract == old(self).n_abstract(),
            final(self).raw_builtins_spec().len() == old(self).builtins().len(),
            forall|i: int| 0 <= i < old(self).builtins().len() ==> {
                let raw = #[trigger] final(self).raw_builtins_spec()[i];
                let b = old(self).builtins()[i];
                raw.name@ == b.name() && raw.min_args == b.min_args() && raw.max_args == b.max_args()
            },
            final(self).raw_conddefs_spec().len() == old(self).conddefs().len(),
            forall|i: int| 0 <= i < old(self).conddefs().len() ==> {
                let raw = #[trigger] final(self).raw_conddefs_spec()[i];
                let c = old(self).conddefs()[i];
                &&& raw.name@ == c.name()
                &&& raw.flags == c.flags()
                &&& raw.handler == c.handler()
                &&& raw.min == c.min()
                &&& raw.max == c.max()
                &&& (raw.module == None::<String> <==> c.module() is None)
                &&& (raw.module matches Some(m) ==> c.module() == Some(m@))
            },
            final(self).raw_mathfuncs_spec().len() == old(self).math_funcs().len(),
            forall|i: int| 0 <= i < old(self).math_funcs().len() ==> {
                let raw = #[trigger] final(self).raw_mathfuncs_spec()[i];
                let m = old(self).math_funcs()[i];
                &&& raw.name@ == m.name()
                &&& raw.flags == m.flags()
                &&& raw.nfunc == m.nfunc()
                &&& raw.sfunc == m.sfunc()
                &&& raw.min_args == m.min_args()
                &&& raw.max_args == m.max_args()
            },
            final(self).raw_paramdefs_spec().len() == old(self).param_defs().len(),
            forall|i: int| 0 <= i < old(self).param_defs().len() ==> {
                let raw = #[trigger] final(self).raw_paramdefs_spec()[i];
                let p = old(self).param_defs()[i];
                raw.name@ == p.name() && raw.flags == p.flags() && raw.var == p.var() && raw.gsu == p.gsu()
            },
    {
        let mut rb: Vec<RawBuiltin> = Vec::new();
        let mut i: usize = 0;
        while i < self.builtins.len()
            invariant
                0 <= i <= self.builtins@.len(),
                rb@.len() == i,
                forall|k: int| 0 <= k < i ==> {
                    let raw = #[trigger] rb@[k];
                    let b = self.builtins@[k];
                    raw.name@ == b.name() && raw.min_args == b.min_args() && raw.max_args == b.max_args()
                },
            decreases self.builtins@.len() - i,
        {
            rb.push(self.builtins[i].as_raw());
            i = i + 1;
        }
        let mut rc: Vec<RawConddef> = Vec::new();
        let mut i: usize = 0;
        while i < self.conddefs.len()
            invariant
                0 <= i <= self.conddefs@.len(),
                rc@.len() == i,
                forall|k: int| 0 <= k < i ==> {
                    let raw = #[trigger] rc@[k];
                    let c = self.conddefs@[k];
                    &&& raw.name@ == c.name()
                    &&& raw.flags == c.flags()
                    &&& raw.handler == c.handler()
                    &&& raw.min == c.min()
                    &&& raw.max == c.max()
                    &&& (raw.module == None::<String> <==> c.module() is None)
                    &&& (raw.module matches Some(m) ==> c.module() == Some(m@))
                },
            decreases self.conddefs@.len() - i,
        {
            rc.push(self.conddefs[i].as_raw());
            i = i + 1;
        }
        let mut rm: Vec<RawMathfunc> = Vec::new();
        let mut i: usize = 0;
        while i < self.math_funcs.len()
            invariant
                0 <= i <= self.math_funcs@.len(),
                rm@.len() == i,
                forall|k: int| 0 <= k < i ==> {
                    let raw = #[trigger] rm@[k];
                    let m = self.math_funcs@[k];
                    &&& raw.name@ == m.name()
                    &&& raw.flags == m.flags()
                    &&& raw.nfunc == m.nfunc()
                    &&& raw.sfunc == m.sfunc()
                    &&& raw.min_args == m.min_args()
                    &&& raw.max_args == m.max_args()
                },
            decreases self.math_funcs@.len() - i,
        {
            rm.push(self.math_funcs[i].as_raw());
            i = i + 1;
        }
        let mut rp: Vec<RawParamdef> = Vec::new();
        let mut i: usize = 0;
        while i < self.param_defs.len()
            invariant
                0 <= i <= self.param_defs@.len(),
                rp@.len() == i,
                forall|k: int| 0 <= k < i ==> {
                    let raw = #[trigger] rp@[k];
                    let p = self.param_defs@[k];
                    raw.name@ == p.name() && raw.flags == p.flags() && raw.var == p.var() && raw.gsu == p.gsu()
                },
            decreases self.param_defs@.len() - i,
        {
            rp.push(self.param_defs[i].as_raw());
            i = i + 1;
        }
        let r = RawFeatures {
            bn_size: rb.len() as i32,
            cd_size: rc.len() as i32,
            mf_size: rm.len() as i32,
            pd_size: rp.len() as i32,
            n_abstract: self.n_abstract,
        };
        self.raw_builtins = rb;
        self.raw_conddefs = rc;
        self.raw_mathfuncs = rm;
        self.raw_paramdefs = rp;
        r
    }

    pub fn builtin_count(&self) -> (r: usize)
        ensures
            r == self.builtins().len(),
    {
        self.builtins.len()
    }

    pub fn conddef_count(&self) -> (r: usize)
        ensures
            r == self.conddefs().len(),
    {
        self.conddefs.len()
    }

    pub fn math_func_count(&self) -> (r: usize)
        ensures
            r == self.math_funcs().len(),
    {
        self.math_funcs.len()
    }

    pub fn param_def_count(&self) -> (r: usize)
        ensures
            r == self.param_defs().len(),
    {
        self.param_defs.len()
    }

    /// The command array from the last regeneration.
    pub fn raw_builtins(&self) -> (r: &[RawBuiltin])
        ensures
            r@ == self.raw_builtins_spec(),
    {
        self.raw_builtins.as_slice()
    }

    /// The condition array from the last regeneration.
    pub fn raw_conddefs(&self) -> (r: &[RawConddef])
        ensures
            r@ == self.raw_conddefs_spec(),
    {
        self.raw_conddefs.as_slice()
    }

    /// The expression function array from the last regeneration.
    pub fn raw_mathfuncs(&self) -> (r: &[RawMathfunc])
        ensures
            r@ == self.raw_mathfuncs_spec(),
    {
        self.raw_mathfuncs.as_slice()
    }

    /// The variable definition array from the last regeneration.
    pub fn raw_paramdefs(&self) -> (r: &[RawParamdef])
        ensures
            r@ == self.raw_paramdefs_spec(),
    {
        self.raw_paramdefs.as_slice()
    }
}

} // verus!
