use vstd::prelude::*;

verus! {

/// A mapping from backend names to compute factories.
///
/// At most one factory is held per name; registering a name again replaces
/// its factory. The registry owns its factories and keeps no reference to the
/// engines they build.
pub struct ComputeRegistry<F> {
    entries: Vec<(String, F)>,
    model: Ghost<Map<Seq<char>, F>>,
}

impl<F> View for ComputeRegistry<F> {
    type V = Map<Seq<char>, F>;

    closed spec fn view(&self) -> Map<Seq<char>, F> {
        self.model@
    }
}

impl<F> ComputeRegistry<F> {
    /// The stored names are pairwise distinct, and the entries hold exactly
    /// the pairs of the model.
    pub closed spec fn wf(&self) -> bool {
        &&& forall|i: int, j: int|
            0 <= i < self.entries@.len() && 0 <= j < self.entries@.len() && i != j
                ==> self.entries@[i].0@ != self.entries@[j].0@
        &&& forall|i: int|
            0 <= i < self.entries@.len() ==> {
                &&& #[trigger] self.model@.contains_key(self.entries@[i].0@)
                &&& self.model@[self.entries@[i].0@] == self.entries@[i].1
            }
        &&& forall|k: Seq<char>|
            #[trigger] self.model@.contains_key(k) ==> exists|i: int|
                0 <= i < self.entries@.len() && self.entries@[i].0@ == k
    }

    /// An empty registry.
    pub fn new() -> (r: Self)
        ensures
            r.wf(),
            r@ == Map::<Seq<char>, F>::empty(),
    {
        ComputeRegistry { entries: Vec::new(), model: Ghost(Map::empty()) }
    }

    /// The position of the entry stored under `name`, if any.
    fn position(&self, name: &String) -> (r: Option<usize>)
        requires
            self.wf(),
        ensures
            match r {
                Some(i) => i < self.entries@.len() && self.entries@[i as int].0@ == name@,
                None => !self@.contains_key(name@),
            },
    {
        let mut i: usize = 0;
        while i < self.entries.len()
            invariant
                i <= self.entries@.len(),
                forall|j: int| 0 <= j < i ==> self.entries@[j].0@ != name@,
            decreases self.entries@.len() - i,
        {
            if self.entries[i].0.eq(name) {
                return Some(i);
            }
            i = i + 1;
        }
        None
    }

    /// Registers `factory` under `name`, replacing any factory registered
    /// under that name before (the last registration wins).
    pub fn register_compute_factory(&mut self, name: &str, factory: F)
        requires
            old(self).wf(),
        ensures
            final(self).wf(),
            final(self)@ == old(self)@.insert(name@, factory),
    {
        let key = name.to_owned();
        let found = self.position(&key);
        let ghost new_model = self.model@.insert(name@, factory);
        let ghost old_entries = self.entries@;
        match found {
            Some(i) => {
                self.entries[i] = (key, factory);
                proof {
                    assert forall|k: Seq<char>| #[trigger] new_model.contains_key(k) implies exists|j: int|
                        0 <= j < self.entries@.len() && self.entries@[j].0@ == k by {
                        if k != name@ {
                            let j = choose|j: int| 0 <= j < old_entries.len() && old_entries[j].0@ == k;
                            assert(self.entries@[j].0@ == k);
                        } else {
                            assert(self.entries@[i as int].0@ == k);
                        }
                    }
                }
            },
            None => {
                self.entries.push((key, factory));
                proof {
                    assert forall|k: Seq<char>| #[trigger] new_model.contains_key(k) implies exists|j: int|
                        0 <= j < self.entries@.len() && self.entries@[j].0@ == k by {
                        if k != name@ {
                            let j = choose|j: int| 0 <= j < old_entries.len() && old_entries[j].0@ == k;
                            assert(self.entries@[j].0@ == k);
                        } else {
                            assert(self.entries@[old_entries.len() as int].0@ == k);
                        }
                    }
                }
            },
        }
        self.model = Ghost(new_model);
        proof {
            assert(forall|i: int, j: int|
                0 <= i < self.entries@.len() && 0 <= j < self.entries@.len() && i != j
                    ==> self.entries@[i].0@ != self.entries@[j].0@);
            assert(forall|i: int|
                0 <= i < self.entries@.len() ==> {
                    &&& #[trigger] self.model@.contains_key(self.entries@[i].0@)
                    &&& self.model@[self.entries@[i].0@] == self.entries@[i].1
                });
        }
    }

    /// Whether a factory is registered under `name`.
    pub fn is_registered(&self, name: &str) -> (r: bool)
        requires
            self.wf(),
        ensures
            r == self@.contains_key(name@),
    {
        let key = name.to_owned();
        self.position(&key).is_some()
    }

    /// Instantiates an engine through the factory registered under `name`.
    ///
    /// When no factory is registered under `name` the result is `None` and
    /// `create` is not called. Otherwise `create` is handed that factory and
    /// its result comes back as `Some`: the registry decides which factory
    /// builds the engine, `create` decides how (it forwards the caller's
    /// configuration, and may start an asynchronous construction that the
    /// caller then awaits).
    pub fn create_compute_using_factory<'a, E, C: FnOnce(&'a F) -> E>(
        &'a self,
        name: &str,
        create: C,
    ) -> (r: Option<E>)
        requires
            self.wf(),
            self@.contains_key(name@) ==> create.requires((&self@[name@],)),
        ensures
            r is None <==> !self@.contains_key(name@),
            r matches Some(engine) ==> create.ensures((&self@[name@],), engine),
    {
        let key = name.to_owned();
        match self.position(&key) {
            Some(i) => {
                let factory = &self.entries[i].1;
                Some(create(factory))
            },
            None => None,
        }
    }
}

} // verus!
