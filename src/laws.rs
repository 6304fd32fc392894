//! What holds of the registry over any sequence of registrations.

use vstd::prelude::*;

verus! {

/// The contents of a registry that held `m` after `regs` are registered in
/// order, each `(name, factory)` as one `register_compute_factory` call.
pub open spec fn after_registrations<F>(
    m: Map<Seq<char>, F>,
    regs: Seq<(Seq<char>, F)>,
) -> Map<Seq<char>, F>
    decreases regs.len(),
{
    if regs.len() == 0 {
        m
    } else {
        after_registrations(m, regs.drop_last()).insert(regs.last().0, regs.last().1)
    }
}

/// Whether some registration in `regs` names `name`.
pub open spec fn names<F>(regs: Seq<(Seq<char>, F)>, name: Seq<char>) -> bool {
    exists|i: int| 0 <= i < regs.len() && (#[trigger] regs[i]).0 == name
}

/// A name that was never registered is absent: starting from an empty
/// registry, registrations of other names never make it present.
pub proof fn lemma_unregistered_name_absent<F>(regs: Seq<(Seq<char>, F)>, name: Seq<char>)
    requires
        !names(regs, name),
    ensures
        !after_registrations(Map::<Seq<char>, F>::empty(), regs).contains_key(name),
    decreases regs.len(),
{
    if regs.len() > 0 {
        let init = regs.drop_last();
        assert(!names(init, name)) by {
            if names(init, name) {
                let i = choose|i: int| 0 <= i < init.len() && (#[trigger] init[i]).0 == name;
                assert(regs[i] == init[i]);
            }
        }
        assert(regs[regs.len() - 1] == regs.last());
        lemma_unregistered_name_absent(init, name);
    }
}

/// The last registration of a name decides its factory: a name registered
/// with `f` is present with `f` until it is registered again, and the later
/// registration replaces `f`.
pub proof fn lemma_last_registration_wins<F>(
    m: Map<Seq<char>, F>,
    regs: Seq<(Seq<char>, F)>,
    i: int,
)
    requires
        0 <= i < regs.len(),
        forall|j: int| i < j < regs.len() ==> (#[trigger] regs[j]).0 != regs[i].0,
    ensures
        after_registrations(m, regs).contains_key(regs[i].0),
        after_registrations(m, regs)[regs[i].0] == regs[i].1,
    decreases regs.len(),
{
    if i < regs.len() - 1 {
        let init = regs.drop_last();
        assert(init[i] == regs[i]);
        assert forall|j: int| i < j < init.len() implies (#[trigger] init[j]).0 != init[i].0 by {
            assert(init[j] == regs[j]);
        }
        assert(regs[regs.len() - 1] == regs.last());
        lemma_last_registration_wins(m, init, i);
    }
}

/// A registration leaves the factories of all other names as they were.
pub proof fn lemma_other_names_untouched<F>(
    m: Map<Seq<char>, F>,
    regs: Seq<(Seq<char>, F)>,
    name: Seq<char>,
)
    requires
        !names(regs, name),
    ensures
        after_registrations(m, regs).contains_key(name) == m.contains_key(name),
        m.contains_key(name) ==> after_registrations(m, regs)[name] == m[name],
    decreases regs.len(),
{
    if regs.len() > 0 {
        let init = regs.drop_last();
        assert(!names(init, name)) by {
            if names(init, name) {
                let i = choose|i: int| 0 <= i < init.len() && (#[trigger] init[i]).0 == name;
                assert(regs[i] == init[i]);
            }
        }
        assert(regs[regs.len() - 1] == regs.last());
        lemma_other_names_untouched(m, init, name);
    }
}

/// Registrations under pairwise distinct names lose no write: once all of
/// them are done, each name is present with its own factory, and every
/// other name is as it was. So the result does not depend on the order in
/// which the registrations were carried out.
pub proof fn lemma_distinct_registrations_all_observable<F>(
    m: Map<Seq<char>, F>,
    regs: Seq<(Seq<char>, F)>,
)
    requires
        forall|i: int, j: int|
            0 <= i < regs.len() && 0 <= j < regs.len() && i != j ==> (#[trigger] regs[i]).0
                != (#[trigger] regs[j]).0,
    ensures
        forall|i: int|
            0 <= i < regs.len() ==> {
                &&& after_registrations(m, regs).contains_key((#[trigger] regs[i]).0)
                &&& after_registrations(m, regs)[regs[i].0] == regs[i].1
            },
        forall|k: Seq<char>|
            !names(regs, k) ==> {
                &&& after_registrations(m, regs).contains_key(k) == m.contains_key(k)
                &&& m.contains_key(k) ==> after_registrations(m, regs)[k] == m[k]
            },
{
    assert forall|i: int| 0 <= i < regs.len() implies {
        &&& after_registrations(m, regs).contains_key((#[trigger] regs[i]).0)
        &&& after_registrations(m, regs)[regs[i].0] == regs[i].1
    } by {
        lemma_last_registration_wins(m, regs, i);
    }
    assert forall|k: Seq<char>| !names(regs, k) implies {
        &&& after_registrations(m, regs).contains_key(k) == m.contains_key(k)
        &&& m.contains_key(k) ==> after_registrations(m, regs)[k] == m[k]
    } by {
        lemma_other_names_untouched(m, regs, k);
    }
}

} // verus!
