//! Descriptors of condition tests, expression functions and variables that
//! a module offers, and the host-facing form of each.
//!
//! Host functions and host storage are carried as addresses: the library
//! never calls or reads them, it only hands them on.
use vstd::prelude::*;

verus! {

/// A condition test: its name, flags, handler, argument bounds and the
/// module that owns it, if any.
pub struct Conddef {
    name: String,
    flags: i32,
    handler: Option<usize>,
    min: i32,
    max: i32,
    module: Option<String>,
}

/// The host-facing form of a condition test.
pub struct RawConddef {
    pub name: String,
    pub flags: i32,
    pub handler: Option<usize>,
    pub min: i32,
    pub max: i32,
    pub module: Option<String>,
}

impl Conddef {
    pub closed spec fn name(&self) -> Seq<char> {
        self.name@
    }

    pub closed spec fn flags(&self) -> i32 {
        self.flags
    }

    pub closed spec fn handler(&self) -> Option<usize> {
        self.handler
    }

    pub closed spec fn min(&self) -> i32 {
        self.min
    }

    pub closed spec fn max(&self) -> i32 {
        self.max
    }

    pub closed spec fn module(&self) -> Option<Seq<char>> {
        match self.module {
            Some(m) => Some(m@),
            None => None,
        }
    }

    pub fn new(name: &str, flags: i32, handler: Option<usize>, min: i32, max: i32, module: Option<&str>) -> (r: Self)
        ensures
            r.name() == name@,
            r.flags() == flags,
            r.handler() == handler,
            r.min() == min,
            r.max() == max,
            r.module() == match module {
                Some(m) => Some(m@),
                None => None::<Seq<char>>,
            },
    {
        let module = match module {
            Some(m) => Some(m.to_string()),
            None => None,
        };
        Conddef { name: name.to_string(), flags, handler, min, max, module }
    }

    /// The descriptor the host reads; it carries every field as it is.
    pub fn as_raw(&self) -> (r: RawConddef)
        ensures
            r.name@ == self.name(),
            r.flags == self.flags(),
            r.handler == self.handler(),
            r.min == self.min(),
            r.max == self.max(),
            r.module == None::<String> <==> self.module() is None,
            r.module matches Some(m) ==> self.module() == Some(m@),
    {
        let module = match &self.module {
            Some(m) => Some(m.clone()),
            None => None,
        };
        RawConddef {
            name: self.name.clone(),
            flags: self.flags,
            handler: self.handler,
            min: self.min,
            max: self.max,
            module,
        }
    }
}

/// An expression function: its name, flags, numeric and string handlers,
/// and argument bounds.
pub struct Mathfunc {
    name: String,
    flags: i32,
    nfunc: Option<usize>,
    sfunc: Option<usize>,
    min_args: i32,
    max_args: i32,
}

/// The host-facing form of an expression function.
pub struct RawMathfunc {
    pub name: String,
    pub flags: i32,
    pub nfunc: Option<usize>,
    pub sfunc: Option<usize>,
    pub min_args: i32,
    pub max_args: i32,
}

impl Mathfunc {
    pub closed spec fn name(&self) -> Seq<char> {
        self.name@
    }

    pub closed spec fn flags(&self) -> i32 {
        self.flags
    }

    pub closed spec fn nfunc(&self) -> Option<usize> {
        self.nfunc
    }

    pub closed spec fn sfunc(&self) -> Option<usize> {
        self.sfunc
    }

    pub closed spec fn min_args(&self) -> i32 {
        self.min_args
    }

    pub closed spec fn max_args(&self) -> i32 {
        self.max_args
    }

    pub fn new(
        name: &str,
        flags: i32,
        nfunc: Option<usize>,
        sfunc: Option<usize>,
        min_args: i32,
        max_args: i32,
    ) -> (r: Self)
        ensures
            r.name() == name@,
            r.flags() == flags,
            r.nfunc() == nfunc,
            r.sfunc() == sfunc,
            r.min_args() == min_args,
            r.max_args() == max_args,
    {
        Mathfunc { name: name.to_string(), flags, nfunc, sfunc, min_args, max_args }
    }

    /// The descriptor the host reads; it carries every field as it is.
    pub fn as_raw(&self) -> (r: RawMathfunc)
        ensures
            r.name@ == self.name(),
            r.flags == self.flags(),
            r.nfunc == self.nfunc(),
            r.sfunc == self.sfunc(),
            r.min_args == self.min_args(),
            r.max_args == self.max_args(),
    {
        RawMathfunc {
            name: self.name.clone(),
            flags: self.flags,
            nfunc: self.nfunc,
            sfunc: self.sfunc,
            min_args: self.min_args,
            max_args: self.max_args,
        }
    }
}

/// A variable the module defines: its name, flags, the address of its
/// storage and of its get/set/unset table.
pub struct Paramdef {
    name: String,
    flags: i32,
    var: usize,
    gsu: usize,
}

/// The host-facing form of a variable definition.
pub struct RawParamdef {
    pub name: String,
    pub flags: i32,
    pub var: usize,
    pub gsu: usize,
}

impl Paramdef {
    pub closed spec fn name(&self) -> Seq<char> {
        self.name@
    }

    pub closed spec fn flags(&self) -> i32 {
        self.flags
    }

    pub closed spec fn var(&self) -> usize {
        self.var
    }

    pub closed spec fn gsu(&self) -> usize {
        self.gsu
    }

    pub fn new(name: &str, flags: i32, var: usize, gsu: usize) -> (r: Self)
        ensures
            r.name() == name@,
            r.flags() == flags,
            r.var() == var,
            r.gsu() == gsu,
    {
        Paramdef { name: name.to_string(), flags, var, gsu }
    }

    /// The descriptor the host reads; it carries every field as it is.
    pub fn as_raw(&self) -> (r: RawParamdef)
        ensures
            r.name@ == self.name(),
            r.flags == self.flags(),
            r.var == self.var(),
            r.gsu == self.gsu(),
    {
        RawParamdef { name: self.name.clone(), flags: self.flags, var: self.var, gsu: self.gsu }
    }
}

} // verus!
