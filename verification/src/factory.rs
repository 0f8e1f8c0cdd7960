//! Object factory: constructors registered by class name.
use vstd::prelude::*;

verus! {

/// Error returned when a process-wide factory is installed a second time.
#[derive(Clone, Copy, Debug, PartialEq, Eq, Structural)]
pub struct FactoryAlreadySet;

impl FactoryAlreadySet {
    /// The human-readable message of the error.
    pub fn message(&self) -> (r: &'static str)
        ensures
            r@ == "ObjectFactory is already installed"@,
    {
        "ObjectFactory is already installed"
    }
}

struct FactoryEntry<C> {
    name: String,
    ctor: C,
}

/// The constructor registered last under `n` (entries carry distinct names).
spec fn lookup_entry<C>(es: Seq<FactoryEntry<C>>, n: Seq<char>) -> Option<C>
    decreases es.len(),
{
    if es.len() == 0 {
        None
    } else if es.last().name@ == n {
        Some(es.last().ctor)
    } else {
        lookup_entry(es.drop_last(), n)
    }
}

spec fn distinct_entries<C>(es: Seq<FactoryEntry<C>>) -> bool {
    forall|i: int, j: int| 0 <= i < j < es.len() ==> es[i].name@ != es[j].name@
}

proof fn lemma_entry_absent<C>(es: Seq<FactoryEntry<C>>, n: Seq<char>)
    requires
        forall|j: int| 0 <= j < es.len() ==> es[j].name@ != n,
    ensures
        lookup_entry(es, n) is None,
    decreases es.len(),
{
    if es.len() > 0 {
        lemma_entry_absent(es.drop_last(), n);
    }
}

proof fn lemma_entry_at<C>(es: Seq<FactoryEntry<C>>, n: Seq<char>, i: int)
    requires
        distinct_entries(es),
        0 <= i < es.len(),
        es[i].name@ == n,
    ensures
        lookup_entry(es, n) == Some(es[i].ctor),
    decreases es.len(),
{
    if i != es.len() - 1 {
        assert(es.drop_last()[i] == es[i]);
        lemma_entry_at(es.drop_last(), n, i);
    }
}

/// Registry of constructors keyed by class name.
pub struct ObjectFactory<C> {
    registry: Vec<FactoryEntry<C>>,
}

impl<C> ObjectFactory<C> {
    /// Internal consistency: at most one constructor per class name.
    pub closed spec fn wf(&self) -> bool {
        distinct_entries(self.registry@)
    }

    /// The constructor registered under `name`, if any.
    pub closed spec fn constructor(&self, name: Seq<char>) -> Option<C> {
        lookup_entry(self.registry@, name)
    }

    /// An empty factory.
    pub fn new() -> (r: ObjectFactory<C>)
        ensures
            r.wf(),
            forall|n: Seq<char>| #[trigger] r.constructor(n) is None,
    {
        let r = ObjectFactory { registry: Vec::new() };
        assert forall|n: Seq<char>| #[trigger] r.constructor(n) is None by {
            lemma_entry_absent(r.registry@, n);
        }
        r
    }

    fn entry_index(&self, name: &String) -> (r: Option<usize>)
        ensures
            r matches Some(i) ==> i < self.registry@.len() && self.registry@[i as int].name@ == name@,
            r is None ==> forall|j: int| 0 <= j < self.registry@.len() ==> self.registry@[j].name@ != name@,
    {
        let mut i: usize = 0;
        while i < self.registry.len()
            invariant
                i <= self.registry@.len(),
                forall|j: int| 0 <= j < i ==> self.registry@[j].name@ != name@,
            decreases self.registry@.len() - i,
        {
            if self.registry[i].name == *name {
                return Some(i);
            }
            i = i + 1;
        }
        None
    }

    /// Registers `ctor` under `class_name`, replacing an earlier registration of that name.
    pub fn register(&mut self, class_name: String, ctor: C)
        requires
            old(self).wf(),
        ensures
            final(self).wf(),
            forall|n: Seq<char>|
                #[trigger] final(self).constructor(n) == if n == class_name@ {
                    Some(ctor)
                } else {
                    old(self).constructor(n)
                },
    {
        let ghost old_es = self.registry@;
        let ghost key = class_name@;
        match self.entry_index(&class_name) {
            Some(i) => {
                let old_entry = self.registry.remove(i);
                self.registry.insert(i, FactoryEntry { name: old_entry.name, ctor });
                let ghost new_es = self.registry@;
                assert(new_es =~= old_es.update(i as int, new_es[i as int]));
                assert forall|n: Seq<char>|
                    #[trigger] lookup_entry(new_es, n) == if n == key {
                        Some(ctor)
                    } else {
                        lookup_entry(old_es, n)
                    } by {
                    if n == key {
                        lemma_entry_at(new_es, n, i as int);
                    } else if exists|k: int| 0 <= k < old_es.len() && old_es[k].name@ == n {
                        let k = choose|k: int| 0 <= k < old_es.len() && old_es[k].name@ == n;
                        lemma_entry_at(old_es, n, k);
                        assert(new_es[k] == old_es[k]);
                        lemma_entry_at(new_es, n, k);
                    } else {
                        lemma_entry_absent(old_es, n);
                        lemma_entry_absent(new_es, n);
                    }
                }
            },
            None => {
                self.registry.push(FactoryEntry { name: class_name, ctor });
                let ghost new_es = self.registry@;
                assert(new_es =~= old_es.push(new_es.last()));
                assert forall|n: Seq<char>|
                    #[trigger] lookup_entry(new_es, n) == if n == key {
                        Some(ctor)
                    } else {
                        lookup_entry(old_es, n)
                    } by {
                    if n == key {
                        lemma_entry_at(new_es, n, new_es.len() - 1);
                    } else {
                        assert(new_es.drop_last() =~= old_es);
                    }
                }
            },
        }
    }

    /// Creates an instance of `class_name`; `None` when no constructor is registered
    /// under that name.
    pub fn create<T>(&self, class_name: &str) -> (r: Option<T>)
        where
            C: Fn() -> T,
        requires
            self.wf(),
            forall|n: Seq<char>| #[trigger] self.constructor(n) matches Some(c) ==> c.requires(()),
        ensures
            r is Some <==> self.constructor(class_name@) is Some,
            r matches Some(v) ==> self.constructor(class_name@)->0.ensures((), v),
    {
        let key = class_name.to_owned();
        match self.entry_index(&key) {
            Some(i) => {
                proof {
                    lemma_entry_at(self.registry@, class_name@, i as int);
                }
                let c = &self.registry[i].ctor;
                assert(self.constructor(class_name@) == Some(*c));
                Some(c())
            },
            None => {
                proof {
                    lemma_entry_absent(self.registry@, class_name@);
                }
                None
            },
        }
    }
}

} // verus!
