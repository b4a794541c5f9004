//! Access to host variables: the kind of a variable, the conversions of the
//! dynamic accessor, and handles that cache the host's variable node so
//! that repeated access skips the name lookup.
//!
//! The host reads and writes themselves are the caller's: a handle says
//! whether its cached node can be used or a lookup is due, and takes the
//! lookup's answer back.
use core::marker::PhantomData;
use vstd::prelude::*;
use crate::text::{
    decimal, host_text, host_texts, is_word, join_spaced, join_words, lemma_integer_round_trip,
    lemma_words_are_words, lemma_words_round_trip, lossy_text, parse_i64, parse_integer, render_integer, split_words, words,
};

verus! {

/// Flag bit of an array variable.
pub const PM_ARRAY: u32 = 1;

/// Flag bit of an integer variable.
pub const PM_INTEGER: u32 = 2;

/// Flag bit of a fixed-notation floating variable.
pub const PM_FFLOAT: u32 = 8;

/// The kind of value a host variable holds.
#[derive(Debug, Clone, Copy, PartialEq, Eq, Structural)]
pub enum ZshType {
    Scalar,
    Array,
    Integer,
    Float,
}

/// The kind that a variable's flags declare; array wins over integer, and
/// integer over float.
pub open spec fn kind_of_flags(flags: u32) -> ZshType {
    if flags & PM_ARRAY != 0 {
        ZshType::Array
    } else if flags & PM_INTEGER != 0 {
        ZshType::Integer
    } else if flags & PM_FFLOAT != 0 {
        ZshType::Float
    } else {
        ZshType::Scalar
    }
}

impl ZshType {
    pub fn from_flags(flags: u32) -> (r: ZshType)
        ensures
            r == kind_of_flags(flags),
    {
        if flags & PM_ARRAY != 0 {
            ZshType::Array
        } else if flags & PM_INTEGER != 0 {
            ZshType::Integer
        } else if flags & PM_FFLOAT != 0 {
            ZshType::Float
        } else {
            ZshType::Scalar
        }
    }
}

/// Why a variable access failed.
#[derive(Debug, Clone, Copy, PartialEq, Eq, Structural)]
pub enum ParamError {
    /// The name holds a NUL character and cannot reach the host.
    InvalidName,
    /// The host has no variable of that name.
    NotFound,
    /// Text given to an integer variable is not an integer.
    NotAnInteger,
    /// Text given to a floating variable is not a number.
    NotAFloat,
}

impl ParamError {
    pub fn message(&self) -> (r: &'static str)
        ensures
            r@ == match *self {
                ParamError::InvalidName => "Invalid name"@,
                ParamError::NotFound => "Parameter not found"@,
                ParamError::NotAnInteger => "Not an integer"@,
                ParamError::NotAFloat => "Not a float"@,
            },
    {
        match self {
            ParamError::InvalidName => "Invalid name",
            ParamError::NotFound => "Parameter not found",
            ParamError::NotAnInteger => "Not an integer",
            ParamError::NotAFloat => "Not a float",
        }
    }
}

/// Whether `s` holds a NUL character, which a host string cannot carry.
pub open spec fn has_nul(s: Seq<char>) -> bool {
    exists|i: int| 0 <= i < s.len() && s[i] == '\0'
}

/// Whether `s` can be handed to the host as a NUL-terminated string.
pub fn c_compatible(s: &str) -> (r: bool)
    ensures
        r == !has_nul(s@),
{
    let n = s.unicode_len();
    let mut i: usize = 0;
    while i < n
        invariant
            n == s@.len(),
            0 <= i <= n,
            forall|k: int| 0 <= k < i ==> s@[k] != '\0',
        decreases n - i,
    {
        if s.get_char(i) == '\0' {
            return false;
        }
        i = i + 1;
    }
    true
}

/// The value of a scalar variable from the host's string slot: an empty
/// slot reads as the empty string.
pub fn scalar_value(raw: Option<&[u8]>) -> (r: String)
    ensures
        r@ == match raw {
            Some(b) => lossy_text(b@),
            None => Seq::empty(),
        },
{
    match raw {
        Some(b) => host_text(b),
        None => String::new(),
    }
}

/// The value of an array variable from the host's string list: an empty
/// slot reads as the empty list.
pub fn array_value(raw: Option<&[&[u8]]>) -> (r: Vec<String>)
    ensures
        r@.len() == match raw {
            Some(items) => items@.len(),
            None => 0,
        },
        raw matches Some(items) ==> forall|i: int| 0 <= i < items@.len() ==> #[trigger] r@[i]@ == lossy_text(items@[i]@),
{
    match raw {
        Some(items) => host_texts(items),
        None => Vec::new(),
    }
}

/// A cached handle's state: the variable's name and the node found for it.
pub struct CacheView {
    pub name: Seq<char>,
    pub node: Option<usize>,
}

/// What a handle does before an access.
#[derive(Debug, Clone, Copy, PartialEq, Eq, Structural)]
pub enum NodeStep {
    /// Use the cached node, which is still live.
    Cached(usize),
    /// Look the name up in the host's variable table.
    Lookup,
}

/// The step before an access, given whether the cached node (if any) is
/// still live, that is, its name field is still set.
pub open spec fn next_step(c: CacheView, live: bool) -> Result<NodeStep, ParamError> {
    match c.node {
        Some(n) if live => Ok(NodeStep::Cached(n)),
        _ => if has_nul(c.name) {
            Err(ParamError::InvalidName)
        } else {
            Ok(NodeStep::Lookup)
        },
    }
}

/// The state after a lookup answered `found`; a failed lookup keeps it.
pub open spec fn after_lookup(c: CacheView, found: Option<usize>) -> CacheView {
    match found {
        Some(n) => CacheView { name: c.name, node: Some(n) },
        None => c,
    }
}

/// A run of accesses: `lives[i]` tells whether the cached node was live at
/// access `i`, and every lookup finds `found`. Gives the final state and
/// how many lookups were made.
pub open spec fn run_accesses(c: CacheView, lives: Seq<bool>, found: usize) -> (CacheView, nat)
    decreases lives.len(),
{
    if lives.len() == 0 {
        (c, 0)
    } else {
        let (c1, k) = run_accesses(c, lives.drop_last(), found);
        if next_step(c1, lives.last()) == Ok::<NodeStep, ParamError>(NodeStep::Lookup) {
            (after_lookup(c1, Some(found)), k + 1)
        } else {
            (c1, k)
        }
    }
}

proof fn lemma_live_run(c: CacheView, lives: Seq<bool>, found: usize)
    requires
        c.node is Some,
        forall|i: int| 0 <= i < lives.len() ==> #[trigger] lives[i],
    ensures
        run_accesses(c, lives, found) == (c, 0nat),
    decreases lives.len(),
{
    if lives.len() > 0 {
        lemma_live_run(c, lives.drop_last(), found);
        assert(lives[lives.len() - 1]);
    }
}

/// Once a handle holds a node, accesses that find it live make no lookup;
/// after the node is invalidated, exactly one lookup happens, and the
/// accesses after it make none.
pub proof fn lemma_cache_lookups(c: CacheView, invalid_at: int, n: nat, found: usize)
    requires
        c.node is Some,
        !has_nul(c.name),
        0 <= invalid_at < n,
    ensures
        run_accesses(c, Seq::new(n, |i: int| true), found) == (c, 0nat),
        run_accesses(c, Seq::new(n, |i: int| i != invalid_at), found).1 == 1,
        run_accesses(c, Seq::new(n, |i: int| i != invalid_at), found).0.node == Some(found),
    decreases n,
{
    lemma_live_run(c, Seq::new(n, |i: int| true), found);
    let lives = Seq::new(n, |i: int| i != invalid_at);
    lemma_invalid_run(c, lives, invalid_at, found);
}

proof fn lemma_invalid_run(c: CacheView, lives: Seq<bool>, invalid_at: int, found: usize)
    requires
        c.node is Some,
        !has_nul(c.name),
        0 <= invalid_at < lives.len(),
        forall|i: int| 0 <= i < lives.len() ==> #[trigger] lives[i] == (i != invalid_at),
    ensures
        run_accesses(c, lives, found).1 == 1,
        run_accesses(c, lives, found).0 == (CacheView { name: c.name, node: Some(found) }),
    decreases lives.len(),
{
    let init = lives.drop_last();
    if lives.len() - 1 == invalid_at {
        lemma_live_run(c, init, found);
    } else {
        assert(forall|i: int| 0 <= i < init.len() ==> #[trigger] init[i] == (i != invalid_at));
        lemma_invalid_run(c, init, invalid_at, found);
        assert(lives[lives.len() - 1]);
    }
}

/// The name of a variable and the host node cached for it.
pub struct NodeCache {
    name: String,
    node: Option<usize>,
}

impl View for NodeCache {
    type V = CacheView;

    closed spec fn view(&self) -> CacheView {
        CacheView { name: self.name@, node: self.node }
    }
}

impl NodeCache {
    pub fn new(name: &str) -> (r: Self)
        ensures
            r@ == (CacheView { name: name@, node: None }),
    {
        NodeCache { name: name.to_string(), node: None }
    }

    pub fn name(&self) -> (r: &str)
        ensures
            r@ == self@.name,
    {
        self.name.as_str()
    }

    /// The cached node, whose liveness the caller checks before `step`.
    pub fn cached(&self) -> (r: Option<usize>)
        ensures
            r == self@.node,
    {
        self.node
    }

    pub fn step(&self, live: bool) -> (r: Result<NodeStep, ParamError>)
        ensures
            r == next_step(self@, live),
    {
        match self.node {
            Some(n) if live => Ok(NodeStep::Cached(n)),
            _ => if c_compatible(self.name.as_str()) {
                Ok(NodeStep::Lookup)
            } else {
                Err(ParamError::InvalidName)
            },
        }
    }

    /// Takes the answer of a lookup: a found node is cached and returned.
    pub fn resolved(&mut self, found: Option<usize>) -> (r: Result<usize, ParamError>)
        ensures
            final(self)@ == after_lookup(old(self)@, found),
            r == match found {
                Some(n) => Ok::<usize, ParamError>(n),
                None => Err(ParamError::NotFound),
            },
    {
        match found {
            Some(n) => {
                self.node = Some(n);
                Ok(n)
            },
            None => Err(ParamError::NotFound),
        }
    }
}

/// The value types a typed handle can stand for.
pub trait ZshParamType: Sized {}

impl ZshParamType for String {}

impl ZshParamType for i64 {}

impl ZshParamType for Vec<String> {}

/// Stands for a floating variable; its values are read and written by the
/// caller, outside the library.
pub struct FloatParam;

impl ZshParamType for FloatParam {}

/// A handle on one host variable of a known kind, with its node cached.
pub struct ZshParamPtr<T: ZshParamType> {
    cache: NodeCache,
    _marker: PhantomData<T>,
}

impl<T: ZshParamType> ZshParamPtr<T> {
    pub closed spec fn cache(&self) -> CacheView {
        self.cache@
    }

    pub fn new(name: &str) -> (r: Self)
        ensures
            r.cache() == (CacheView { name: name@, node: None }),
    {
        ZshParamPtr { cache: NodeCache::new(name), _marker: PhantomData }
    }

    pub fn name(&self) -> (r: &str)
        ensures
            r@ == self.cache().name,
    {
        self.cache.name()
    }

    pub fn cached_node(&self) -> (r: Option<usize>)
        ensures
            r == self.cache().node,
    {
        self.cache.cached()
    }

    pub fn node_step(&self, live: bool) -> (r: Result<NodeStep, ParamError>)
        ensures
            r == next_step(self.cache(), live),
    {
        self.cache.step(live)
    }

    pub fn accept_lookup(&mut self, found: Option<usize>) -> (r: Result<usize, ParamError>)
        ensures
            final(self).cache() == after_lookup(old(self).cache(), found),
            r == match found {
                Some(n) => Ok::<usize, ParamError>(n),
                None => Err(ParamError::NotFound),
            },
    {
        self.cache.resolved(found)
    }
}

/// Entry point for host variable access.
pub struct ZshParameter;

impl ZshParameter {
    /// A handle that caches the variable's node after its first lookup.
    pub fn direct<T: ZshParamType>(name: &str) -> (r: ZshParamPtr<T>)
        ensures
            r.cache() == (CacheView { name: name@, node: None }),
    {
        ZshParamPtr::<T>::new(name)
    }
}

/// A value of a variable whose kind is learnt at run time; floating values
/// stay with the caller.
pub enum ParamValue {
    Scalar(String),
    Integer(i64),
    Array(Vec<String>),
}

/// What a `ParamValue` holds, over plain values.
pub enum ValueModel {
    Scalar(Seq<char>),
    Integer(int),
    Array(Seq<Seq<char>>),
}

impl View for ParamValue {
    type V = ValueModel;

    open spec fn view(&self) -> ValueModel {
        match self {
            ParamValue::Scalar(s) => ValueModel::Scalar(s@),
            ParamValue::Integer(i) => ValueModel::Integer(*i as int),
            ParamValue::Array(v) => ValueModel::Array(v@.map_values(|w: String| w@)),
        }
    }
}

/// A value as text: integers in decimal, arrays joined with single spaces.
pub open spec fn rendered(v: ValueModel) -> Seq<char> {
    match v {
        ValueModel::Scalar(s) => s,
        ValueModel::Integer(i) => decimal(i),
        ValueModel::Array(ws) => join_spaced(ws),
    }
}

/// The value that text gives a variable of kind `kind`: a scalar takes it
/// as it is, an integer reads it as a number, an array takes its words.
pub open spec fn assigned(kind: ZshType, text: Seq<char>) -> Result<ValueModel, ParamError> {
    match kind {
        ZshType::Integer => match parse_integer(text) {
            Some(i) => Ok(ValueModel::Integer(i)),
            None => Err(ParamError::NotAnInteger),
        },
        ZshType::Array => Ok(ValueModel::Array(words(text))),
        _ => Ok(ValueModel::Scalar(text)),
    }
}

/// A handle on a host variable of any kind, with its node cached.
pub struct ZshAnyPtr {
    cache: NodeCache,
}

impl ZshAnyPtr {
    pub closed spec fn cache(&self) -> CacheView {
        self.cache@
    }

    pub fn new(name: &str) -> (r: Self)
        ensures
            r.cache() == (CacheView { name: name@, node: None }),
    {
        ZshAnyPtr { cache: NodeCache::new(name) }
    }

    pub fn name(&self) -> (r: &str)
        ensures
            r@ == self.cache().name,
    {
        self.cache.name()
    }

    pub fn cached_node(&self) -> (r: Option<usize>)
        ensures
            r == self.cache().node,
    {
        self.cache.cached()
    }

    pub fn node_step(&self, live: bool) -> (r: Result<NodeStep, ParamError>)
        ensures
            r == next_step(self.cache(), live),
    {
        self.cache.step(live)
    }

    pub fn accept_lookup(&mut self, found: Option<usize>) -> (r: Result<usize, ParamError>)
        ensures
            final(self).cache() == after_lookup(old(self).cache(), found),
            r == match found {
                Some(n) => Ok::<usize, ParamError>(n),
                None => Err(ParamError::NotFound),
            },
    {
        self.cache.resolved(found)
    }

    /// The value read from the variable, as text.
    pub fn get_as_string(value: &ParamValue) -> (r: String)
        ensures
            r@ == rendered(value@),
    {
        match value {
            ParamValue::Scalar(s) => s.clone(),
            ParamValue::Integer(i) => render_integer(*i),
            ParamValue::Array(v) => join_words(v.as_slice()),
        }
    }

    /// The value to store in a variable of kind `kind` for the given text.
    pub fn set_from_string(kind: ZshType, text: &str) -> (r: Result<ParamValue, ParamError>)
        requires
            kind != ZshType::Float,
        ensures
            match r {
                Ok(v) => assigned(kind, text@) == Ok::<ValueModel, ParamError>(v@),
                Err(e) => assigned(kind, text@) == Err::<ValueModel, ParamError>(e),
            },
    {
        match kind {
            ZshType::Integer => match parse_i64(text) {
                Some(i) => Ok(ParamValue::Integer(i)),
                None => Err(ParamError::NotAnInteger),
            },
            ZshType::Array => Ok(ParamValue::Array(split_words(text))),
            _ => Ok(ParamValue::Scalar(text.to_string())),
        }
    }
}

/// Storing text and reading it back: a scalar or integer value read as
/// text and stored again is the same value, and so is an array of words;
/// storing text twice over its own reading changes nothing.
pub proof fn lemma_value_round_trip(kind: ZshType, text: Seq<char>, v: ValueModel)
    requires
        kind != ZshType::Float,
    ensures
        v is Scalar ==> assigned(ZshType::Scalar, rendered(v)) == Ok::<ValueModel, ParamError>(v),
        v matches ValueModel::Integer(i) ==> (i64::MIN <= i <= i64::MAX
            ==> assigned(ZshType::Integer, rendered(v)) == Ok::<ValueModel, ParamError>(v)),
        v matches ValueModel::Array(ws) ==> ((forall|k: int| 0 <= k < ws.len() ==> is_word(#[trigger] ws[k]))
            ==> assigned(ZshType::Array, rendered(v)) == Ok::<ValueModel, ParamError>(v)),
        assigned(kind, text) matches Ok(w) ==> assigned(kind, rendered(w)) == Ok::<ValueModel, ParamError>(w),
{
    match v {
        ValueModel::Integer(i) => {
            if i64::MIN <= i <= i64::MAX {
                lemma_integer_round_trip(i as i64);
            }
        },
        ValueModel::Array(ws) => {
            if forall|k: int| 0 <= k < ws.len() ==> is_word(#[trigger] ws[k]) {
                lemma_words_round_trip(ws);
            }
        },
        _ => {},
    }
    match assigned(kind, text) {
        Ok(ValueModel::Integer(i)) => {
            lemma_integer_round_trip(i as i64);
        },
        Ok(ValueModel::Array(ws)) => {
            lemma_words_are_words(text);
            lemma_words_round_trip(ws);
        },
        _ => {},
    }
}

} // verus!
