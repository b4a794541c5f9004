//! Command descriptors and the name-keyed handler table that the host's
//! command trampoline dispatches through.
use vstd::prelude::*;
use vstd::utf8::{decode_utf8, valid_utf8};
use crate::text::{name_text, texts_of, utf8_items};

verus! {

/// What the table holds under a name: the first handler registered for it.
pub open spec fn lookup_in<H>(entries: Seq<(Seq<char>, H)>, name: Seq<char>) -> Option<H>
    decreases entries.len(),
{
    if entries.len() == 0 {
        None
    } else if entries[0].0 == name {
        Some(entries[0].1)
    } else {
        lookup_in(entries.drop_first(), name)
    }
}

/// The entries after registering `handler` under `name`: a name that is
/// already present keeps its handler and the table is unchanged.
pub open spec fn registered<H>(entries: Seq<(Seq<char>, H)>, name: Seq<char>, handler: H) -> Seq<(Seq<char>, H)> {
    if lookup_in(entries, name) is Some {
        entries
    } else {
        entries.push((name, handler))
    }
}

/// Each name occurs at most once.
pub open spec fn names_unique<H>(entries: Seq<(Seq<char>, H)>) -> bool {
    forall|i: int, j: int| 0 <= i < j < entries.len() ==> entries[i].0 != entries[j].0
}

/// The number of entries registered under `name`.
pub open spec fn count_named<H>(entries: Seq<(Seq<char>, H)>, name: Seq<char>) -> nat
    decreases entries.len(),
{
    if entries.len() == 0 {
        0
    } else {
        (if entries.last().0 == name { 1nat } else { 0nat }) + count_named(entries.drop_last(), name)
    }
}

pub proof fn lemma_lookup_push<H>(entries: Seq<(Seq<char>, H)>, name: Seq<char>, e: (Seq<char>, H))
    ensures
        lookup_in(entries.push(e), name) == (if lookup_in(entries, name) is Some {
            lookup_in(entries, name)
        } else if e.0 == name {
            Some(e.1)
        } else {
            None
        }),
    decreases entries.len(),
{
    if entries.len() > 0 {
        assert(entries.push(e)[0] == entries[0]);
        assert(entries.push(e).drop_first() =~= entries.drop_first().push(e));
        lemma_lookup_push(entries.drop_first(), name, e);
    } else {
        assert(entries.push(e).drop_first() =~= entries);
    }
}

proof fn lemma_lookup_none_count<H>(entries: Seq<(Seq<char>, H)>, name: Seq<char>)
    requires
        lookup_in(entries, name) is None,
    ensures
        count_named(entries, name) == 0,
    decreases entries.len(),
{
    if entries.len() > 0 {
        let init = entries.drop_last();
        assert(init.push(entries.last()) =~= entries);
        lemma_lookup_push(init, name, entries.last());
        lemma_lookup_none_count(init, name);
    }
}

/// Registering under a fresh name makes that handler the one found under it,
/// and leaves what every other name finds as it was.
pub proof fn lemma_register_fresh<H>(entries: Seq<(Seq<char>, H)>, name: Seq<char>, handler: H, other: Seq<char>)
    requires
        lookup_in(entries, name) is None,
    ensures
        lookup_in(registered(entries, name, handler), name) == Some(handler),
        other != name ==> lookup_in(registered(entries, name, handler), other) == lookup_in(entries, other),
{
    lemma_lookup_push(entries, name, (name, handler));
    lemma_lookup_push(entries, other, (name, handler));
}

/// Registering one name twice installs exactly one handler, the first: the
/// second registration changes nothing.
pub proof fn lemma_register_twice<H>(entries: Seq<(Seq<char>, H)>, name: Seq<char>, first: H, second: H)
    requires
        lookup_in(entries, name) is None,
    ensures
        registered(registered(entries, name, first), name, second) == registered(entries, name, first),
        lookup_in(registered(registered(entries, name, first), name, second), name) == Some(first),
        count_named(registered(registered(entries, name, first), name, second), name) == 1,
{
    lemma_lookup_push(entries, name, (name, first));
    lemma_lookup_none_count(entries, name);
    assert(entries.push((name, first)).drop_last() =~= entries);
}

/// A command the module offers: its name, the handler that runs it, and
/// the bounds on its argument count (`-1` as the upper bound means none).
pub struct Builtin<H> {
    name: String,
    handler: H,
    min_args: i32,
    max_args: i32,
}

/// The host-facing form of a command descriptor. The host's handler slot is
/// always the shared trampoline, which routes by name through the table.
pub struct RawBuiltin {
    pub name: String,
    pub min_args: i32,
    pub max_args: i32,
}

impl<H: Copy> Builtin<H> {
    pub closed spec fn name(&self) -> Seq<char> {
        self.name@
    }

    pub closed spec fn handler_spec(&self) -> H {
        self.handler
    }

    pub closed spec fn min_args(&self) -> i32 {
        self.min_args
    }

    pub closed spec fn max_args(&self) -> i32 {
        self.max_args
    }

    /// A command with no lower bound and no upper bound on its arguments.
    pub fn new(name: &str, handler: H) -> (r: Self)
        ensures
            r.name() == name@,
            r.handler_spec() == handler,
            r.min_args() == 0,
            r.max_args() == -1,
    {
        Builtin { name: name.to_string(), handler, min_args: 0, max_args: -1 }
    }

    pub fn handler(&self) -> (r: H)
        ensures
            r == self.handler_spec(),
    {
        self.handler
    }

    /// The descriptor the host reads for this command.
    pub fn as_raw(&self) -> (r: RawBuiltin)
        ensures
            r.name@ == self.name(),
            r.min_args == self.min_args(),
            r.max_args == self.max_args(),
    {
        RawBuiltin { name: self.name.clone(), min_args: self.min_args, max_args: self.max_args }
    }
}

/// A name-keyed table of command handlers; each name appears at most once.
pub struct HandlerTable<H> {
    entries: Vec<(String, H)>,
}

impl<H> HandlerTable<H> {
    /// The registered (name, handler) pairs, in order of registration.
    pub closed spec fn entries(&self) -> Seq<(Seq<char>, H)> {
        self.entries@.map_values(|e: (String, H)| (e.0@, e.1))
    }

    pub open spec fn lookup(&self, name: Seq<char>) -> Option<H> {
        lookup_in(self.entries(), name)
    }

    pub open spec fn wf(&self) -> bool {
        names_unique(self.entries())
    }

    pub fn new() -> (r: Self)
        ensures
            r.entries() == Seq::<(Seq<char>, H)>::empty(),
            r.wf(),
    {
        let r = HandlerTable { entries: Vec::new() };
        assert(r.entries() =~= Seq::<(Seq<char>, H)>::empty());
        r
    }

    /// The number of registered names.
    pub fn len(&self) -> (r: usize)
        ensures
            r == self.entries().len(),
    {
        self.entries.len()
    }

    /// The position of `name` in the table, if it is registered.
    fn position(&self, name: &str) -> (r: Option<usize>)
        ensures
            match r {
                None => self.lookup(name@) is None,
                Some(i) => i < self.entries().len() && self.entries()[i as int].0 == name@
                    && self.lookup(name@) == Some(self.entries()[i as int].1),
            },
    {
        let key = name.to_string();
        let mut i: usize = 0;
        proof {
            assert(self.entries().skip(0) =~= self.entries());
        }
        while i < self.entries.len()
            invariant
                0 <= i <= self.entries@.len(),
                key@ == name@,
                lookup_in(self.entries(), name@) == lookup_in(self.entries().skip(i as int), name@),
            decreases self.entries@.len() - i,
        {
            proof {
                assert(self.entries().skip(i as int).drop_first() =~= self.entries().skip(i + 1));
                assert(self.entries().skip(i as int)[0] == self.entries()[i as int]);
            }
            if self.entries[i].0 == key {
                return Some(i);
            }
            i = i + 1;
        }
        None
    }
}

/// Installs `handler` under `name` unless the name is already taken; a
/// second registration under a name is dropped and the first handler stays.
pub fn register_handler<H>(table: &mut HandlerTable<H>, name: &str, handler: H)
    requires
        old(table).wf(),
    ensures
        final(table).entries() == registered(old(table).entries(), name@, handler),
        final(table).wf(),
{
    match table.position(name) {
        Some(_) => {},
        None => {
            let ghost before = table.entries();
            table.entries.push((name.to_string(), handler));
            proof {
                assert(table.entries() =~= before.push((name@, handler)));
                assert forall|i: int| 0 <= i < before.len() implies before[i].0 != name@ by {
                    if before[i].0 == name@ {
                        lemma_lookup_push(before.take(i), name@, before[i]);
                        assert(before.take(i).push(before[i]) =~= before.take(i + 1));
                        lemma_lookup_prefix(before, i + 1, name@);
                    }
                };
            }
        },
    }
}

/// A name found in a prefix is found in the whole sequence.
proof fn lemma_lookup_prefix<H>(entries: Seq<(Seq<char>, H)>, n: int, name: Seq<char>)
    requires
        0 <= n <= entries.len(),
        lookup_in(entries.take(n), name) is Some,
    ensures
        lookup_in(entries, name) is Some,
    decreases entries.len() - n,
{
    if n < entries.len() {
        assert(entries.take(n).push(entries[n]) =~= entries.take(n + 1));
        lemma_lookup_push(entries.take(n), name, entries[n]);
        lemma_lookup_prefix(entries, n + 1, name);
    } else {
        assert(entries.take(n) =~= entries);
    }
}

/// Calls the handler registered under `name` with the command name and its
/// arguments; an unknown name gives the generic failure status `1`.
pub fn dispatch<H: Fn(&str, &[&str]) -> i32>(table: &HandlerTable<H>, name: &str, args: &[&str]) -> (r: i32)
    requires
        table.lookup(name@) matches Some(h) ==> call_requires(h, (name, args)),
    ensures
        match table.lookup(name@) {
            None => r == 1,
            Some(h) => call_ensures(h, (name, args), r),
        },
{
    match table.position(name) {
        Some(i) => (table.entries[i].1)(name, args),
        None => 1,
    }
}

/// The command name as the trampoline reads it: missing or undecodable
/// names become the empty name.
pub open spec fn command_name(name: Option<Seq<u8>>) -> Seq<char> {
    match name {
        Some(b) => if valid_utf8(b) {
            decode_utf8(b)
        } else {
            Seq::empty()
        },
        None => Seq::empty(),
    }
}

/// The command name the trampoline reads from the host's raw name.
pub open spec fn raw_command_name(name: Option<&[u8]>) -> Seq<char> {
    match name {
        Some(b) => command_name(Some(b@)),
        None => command_name(None),
    }
}

/// The handler can be called on any name and arguments.
pub open spec fn accepts_all<H: Fn(&str, &[&str]) -> i32>(h: H) -> bool {
    forall|n: &str, a: &[&str]| #[trigger] call_requires(h, (n, a))
}

/// What the host's command trampoline does with the raw command name and
/// argument strings: decodes them, skipping arguments that are not text,
/// and dispatches by name.
pub fn dispatch_raw<H: Fn(&str, &[&str]) -> i32>(table: &HandlerTable<H>, name: Option<&[u8]>, argv: &[&[u8]]) -> (r: i32)
    requires
        table.lookup(raw_command_name(name)) matches Some(h) ==> accepts_all(h),
    ensures
        ({
            let nm = raw_command_name(name);
            match table.lookup(nm) {
                None => r == 1,
                Some(h) => exists|n: &str, a: &[&str]|
                    #![trigger call_ensures(h, (n, a), r)]
                    n@ == nm && a@.map_values(|s: &str| s@) == texts_of(argv@.map_values(|b: &[u8]| b@))
                        && call_ensures(h, (n, a), r),
            }
        }),
{
    let ghost nm = raw_command_name(name);
    let n = name_text(name);
    assert(n@ == nm);
    let args = utf8_items(argv);
    let a = args.as_slice();
    proof {
        if let Some(h) = table.lookup(nm) {
            assert(accepts_all(h));
            assert(call_requires(h, (n, a)));
        }
    }
    let r = dispatch(table, n, a);
    proof {
        if let Some(h) = table.lookup(nm) {
            assert(n@ == nm && a@.map_values(|s: &str| s@) == texts_of(argv@.map_values(|b: &[u8]| b@))
                && call_ensures(h, (n, a), r));
        }
    }
    r
}

} // verus!
