//! Unique identifiers for grammar symbols, issued by per-session generators.

use vstd::prelude::*;

verus! {

/// A symbol identifier: a generator scope paired with a sequence number.
/// Two identifiers are equal exactly when both parts are equal, so
/// identifiers issued by generators with different scopes never collide,
/// even when their sequence numbers coincide.
#[derive(Debug, PartialEq, Eq, Hash, Copy, Clone, Structural)]
pub struct Id {
    generator_id: usize,
    id: usize,
}

impl Id {
    /// The scope of the generator that issued this identifier.
    pub closed spec fn scope_spec(&self) -> usize {
        self.generator_id
    }

    /// The position of this identifier in its generator's issue order.
    pub closed spec fn index_spec(&self) -> usize {
        self.id
    }
}

/// A generator for [`Id`]s. Every identifier it issues carries the
/// generator's scope and a sequence number that starts at zero and grows by
/// one on each issuance, so identifiers from one generator are pairwise
/// distinct.
///
/// A verified library cannot own process-global mutable state, so the scope
/// is not drawn from a hidden counter: [`IdGenerator::new`] takes it from
/// the caller, and handing every generator a distinct scope is the caller's
/// duty. A host program draws scopes from one shared counter of its own;
/// [`lemma_ids_of_distinct_generators_differ`] then guarantees that
/// identifiers from two generators never collide.
pub struct IdGenerator {
    id: usize,
    idx: usize,
}

impl IdGenerator {
    /// The scope stamped onto every identifier this generator issues.
    pub closed spec fn scope_spec(&self) -> usize {
        self.id
    }

    /// The sequence number the next issued identifier will carry.
    pub closed spec fn next_spec(&self) -> usize {
        self.idx
    }

    /// Creates a generator with the given scope. Identifiers from two
    /// generators built with different scopes are never equal; callers that
    /// need that guarantee must hand every generator a scope of its own.
    pub fn new(scope: usize) -> (g: IdGenerator)
        ensures
            g.scope_spec() == scope,
            g.next_spec() == 0,
    {
        IdGenerator { id: scope, idx: 0 }
    }

    /// Issues the next identifier: it carries this generator's scope and the
    /// current sequence number, which is then advanced by one and never
    /// reused.
    pub fn id(&mut self) -> (r: Id)
        requires
            old(self).next_spec() < usize::MAX,
        ensures
            r.scope_spec() == old(self).scope_spec(),
            r.index_spec() == old(self).next_spec(),
            final(self).scope_spec() == old(self).scope_spec(),
            final(self).next_spec() == old(self).next_spec() + 1,
    {
        let old_id = self.idx;
        self.idx = self.idx + 1;
        Id { generator_id: self.id, id: old_id }
    }
}

/// Identifier scoping, first half: two identifiers are equal exactly when
/// both their generator scope and their sequence number agree. Together with
/// the contract of [`IdGenerator::id`], which issues strictly increasing
/// sequence numbers under one scope, identifiers issued by one generator at
/// two different calls are never equal.
pub proof fn lemma_id_equality(a: Id, b: Id)
    ensures
        (a == b) <==> (a.scope_spec() == b.scope_spec() && a.index_spec() == b.index_spec()),
{
}

/// Identifier scoping, second half: identifiers issued by generators with
/// distinct scopes are never equal, even when their sequence numbers
/// coincide.
pub proof fn lemma_ids_of_distinct_generators_differ(a: Id, b: Id)
    requires
        a.scope_spec() != b.scope_spec(),
    ensures
        a != b,
{
}

/// Identifiers issued by one generator at distinct calls carry distinct
/// sequence numbers and are therefore never equal.
pub proof fn lemma_ids_of_distinct_calls_differ(a: Id, b: Id)
    requires
        a.scope_spec() == b.scope_spec(),
        a.index_spec() != b.index_spec(),
    ensures
        a != b,
{
}

} // verus!
