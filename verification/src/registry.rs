//! A deduplicating, identifier-assigning store of structural type
//! descriptions, built while walking a contract's public surface.
//!
//! Types are compared structurally: two occurrences of a type that
//! serialize to the same schema text receive the same identifier.
//! Identifiers are assigned in first-encounter order starting at zero, and
//! hold for the duration of one generation pass only.

use crate::paths::str_eq;
use vstd::prelude::*;

verus! {

/// The registry's content after one more registration: unchanged when the
/// schema is already held, extended by it otherwise.
pub open spec fn reg_insert(s: Seq<Seq<char>>, t: Seq<char>) -> Seq<Seq<char>> {
    if s.contains(t) {
        s
    } else {
        s.push(t)
    }
}

/// The identifier a registration yields: the index of the schema's first
/// occurrence, or the next fresh index when it is new.
pub open spec fn reg_id(s: Seq<Seq<char>>, t: Seq<char>) -> int
    decreases s.len(),
{
    if s.len() == 0 {
        0
    } else if s[0] == t {
        0
    } else {
        1 + reg_id(s.drop_first(), t)
    }
}

/// The identifier of a held schema points at its first occurrence; a schema
/// not held gets the next fresh index.
pub proof fn lemma_reg_id_range(s: Seq<Seq<char>>, t: Seq<char>)
    ensures
        s.contains(t) ==> 0 <= reg_id(s, t) < s.len() && s[reg_id(s, t)] == t,
        !s.contains(t) ==> reg_id(s, t) == s.len(),
    decreases s.len(),
{
    if s.len() == 0 {
    } else if s[0] == t {
    } else {
        lemma_reg_id_range(s.drop_first(), t);
        if s.contains(t) {
            let i = choose|i: int| 0 <= i < s.len() && s[i] == t;
            assert(s.drop_first()[i - 1] == t);
            assert(s.drop_first().contains(t));
        } else {
            assert(forall|i: int|
                0 <= i < s.drop_first().len() ==> #[trigger] s.drop_first()[i] == s[i + 1]);
            assert(!s.drop_first().contains(t)) by {
                if s.drop_first().contains(t) {
                    let i = choose|i: int|
                        0 <= i < s.drop_first().len() && s.drop_first()[i] == t;
                    assert(s[i + 1] == t);
                }
            }
        }
    }
}

/// The identifier is the index of the first matching entry.
pub proof fn lemma_reg_id_first(s: Seq<Seq<char>>, t: Seq<char>, i: int)
    requires
        0 <= i < s.len(),
        s[i] == t,
        forall|j: int| 0 <= j < i ==> s[j] != t,
    ensures
        reg_id(s, t) == i,
    decreases i,
{
    if i == 0 {
    } else {
        lemma_reg_id_first(s.drop_first(), t, i - 1);
    }
}

/// A schema matched by no entry is not held.
pub proof fn lemma_reg_absent(s: Seq<Seq<char>>, t: Seq<char>)
    requires
        forall|j: int| 0 <= j < s.len() ==> s[j] != t,
    ensures
        !s.contains(t),
        reg_id(s, t) == s.len(),
    decreases s.len(),
{
    if s.contains(t) {
        let i = choose|i: int| 0 <= i < s.len() && s[i] == t;
    }
    if s.len() > 0 {
        assert(forall|j: int|
            0 <= j < s.drop_first().len() ==> #[trigger] s.drop_first()[j] == s[j + 1]);
        lemma_reg_absent(s.drop_first(), t);
    }
}

/// Registering the same schema twice yields the same identifier both times,
/// and the second registration leaves the registry unchanged.
pub proof fn lemma_register_twice(s: Seq<Seq<char>>, t: Seq<char>)
    ensures
        reg_id(reg_insert(s, t), t) == reg_id(s, t),
        reg_insert(reg_insert(s, t), t) == reg_insert(s, t),
{
    lemma_reg_id_range(s, t);
    if s.contains(t) {
    } else {
        let s1 = s.push(t);
        assert(s1[s.len() as int] == t);
        assert(s1.contains(t));
        assert(forall|j: int| 0 <= j < s.len() ==> s1[j] == s[j]);
        lemma_reg_id_first(s1, t, s.len() as int);
    }
}

/// Two structurally distinct schemas held by one registry have distinct
/// identifiers.
pub proof fn lemma_register_distinct(s: Seq<Seq<char>>, t1: Seq<char>, t2: Seq<char>)
    requires
        t1 != t2,
        s.contains(t1),
        s.contains(t2),
    ensures
        reg_id(s, t1) != reg_id(s, t2),
{
    lemma_reg_id_range(s, t1);
    lemma_reg_id_range(s, t2);
}

/// A deduplicating, identifier-assigning store of structural type
/// descriptions.
pub struct TypeRegistry {
    schemas: Vec<String>,
}

impl View for TypeRegistry {
    type V = Seq<Seq<char>>;

    closed spec fn view(&self) -> Seq<Seq<char>> {
        Seq::new(self.schemas@.len(), |i: int| self.schemas@[i]@)
    }
}

impl TypeRegistry {
    /// An empty registry.
    pub fn new() -> (r: TypeRegistry)
        ensures
            r@ == Seq::<Seq<char>>::empty(),
    {
        let r = TypeRegistry { schemas: Vec::new() };
        proof {
            assert(r@ =~= Seq::<Seq<char>>::empty());
        }
        r
    }

    /// How many distinct schemas the registry holds.
    pub fn len(&self) -> (n: usize)
        ensures
            n == self@.len(),
    {
        self.schemas.len()
    }

    /// The schema at an identifier, for emitting the type table in
    /// identifier order.
    pub fn schema_at(&self, id: usize) -> (r: &String)
        requires
            id < self@.len(),
        ensures
            r@ == self@[id as int],
    {
        &self.schemas[id]
    }

    /// Register a structural type description: a schema already held reads
    /// back its first-encounter identifier and the registry is unchanged; a
    /// new schema is appended and receives the next fresh identifier.
    pub fn register_type(&mut self, schema: String) -> (id: u32)
        requires
            old(self)@.len() < u32::MAX as int,
        ensures
            final(self)@ == reg_insert(old(self)@, schema@),
            id as int == reg_id(old(self)@, schema@),
            (id as int) < final(self)@.len(),
    {
        let ghost s0 = self@;
        let n = self.schemas.len();
        let mut i: usize = 0;
        while i < n
            invariant
                i <= n,
                n == self.schemas@.len(),
                s0 == self@,
                s0.len() == n,
                n < u32::MAX as int,
                forall|j: int| 0 <= j < i ==> s0[j] != schema@,
            decreases n - i,
        {
            if str_eq(self.schemas[i].as_str(), schema.as_str()) {
                proof {
                    assert(s0[i as int] == schema@);
                    lemma_reg_id_first(s0, schema@, i as int);
                    assert(s0.contains(schema@));
                }
                return i as u32;
            }
            i = i + 1;
        }
        proof {
            lemma_reg_absent(s0, schema@);
        }
        self.schemas.push(schema);
        proof {
            assert(self@ =~= s0.push(schema@));
        }
        n as u32
    }
}

} // verus!
