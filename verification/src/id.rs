//! Widget and window identifiers.
//!
//! Identifiers come in three shapes: `Unique` (a bare sequence number),
//! `Custom` (a sequence number paired with a name), and `IdSet` (an ordered
//! group of identifiers standing in for all of its members). Sequence
//! numbers are issued by an [`IdCounter`], monotonically from 1, so that
//! every freshly allocated identifier is distinct from the ones issued
//! before it. Window-node handles live in a second namespace, offset past
//! `u64::MAX`, so that no window handle can ever collide with a general
//! sequence number in the shared 128-bit numeric space.

use vstd::prelude::*;

verus! {

/// The pair of monotonic counters backing identifier allocation: one for
/// the general namespace (widget identifiers) and one for the disjoint
/// window-handle namespace.
pub struct IdCounter {
    /// The next sequence number of the general namespace.
    pub general: u64,
    /// The next offset of the window-handle namespace.
    pub window: u64,
}

impl IdCounter {
    /// Both namespaces count from 1; neither counter ever reads 0.
    pub open spec fn wf(self) -> bool {
        &&& self.general >= 1
        &&& self.window >= 1
    }

    /// A fresh pair of counters, both starting at 1.
    pub fn new() -> (c: IdCounter)
        ensures
            c.general == 1,
            c.window == 1,
            c.wf(),
    {
        IdCounter { general: 1, window: 1 }
    }
}

/// Internal representation of an [`Id`].
#[derive(Debug)]
pub enum Internal {
    /// A globally unique identifier: just a sequence number.
    Unique(u64),
    /// A named identifier: a sequence number paired with a name. The
    /// sequence number only keeps distinct `Custom` instances apart
    /// internally; both equality relations compare the name.
    Custom(u64, String),
    /// An ordered group of identifiers standing in for all of its members.
    /// An `IdSet` has no single scalar identity and must never be converted
    /// to a numeric node handle.
    IdSet(Vec<Internal>),
}

/// The identifier of a generic widget.
#[derive(Debug)]
pub struct Id(pub Internal);

impl Id {
    /// Creates a custom [`Id`] carrying `name`, stamped with the next
    /// general sequence number.
    pub fn new(counter: &mut IdCounter, name: String) -> (id: Id)
        requires
            old(counter).general < u64::MAX,
        ensures
            id.0 == Internal::Custom(old(counter).general, name),
            final(counter).general == old(counter).general + 1,
            final(counter).window == old(counter).window,
    {
        Id(Internal::Custom(Self::next(counter), name))
    }

    /// Resets the general sequence counter to 1.
    ///
    /// Intended only for isolated test runs: identifiers allocated before
    /// a reset are no longer guaranteed distinct from those allocated
    /// after it.
    pub fn reset(counter: &mut IdCounter)
        ensures
            final(counter).general == 1,
            final(counter).window == old(counter).window,
    {
        counter.general = 1;
    }

    /// Hands out the next general sequence number and advances the counter.
    fn next(counter: &mut IdCounter) -> (n: u64)
        requires
            old(counter).general < u64::MAX,
        ensures
            n == old(counter).general,
            final(counter).general == old(counter).general + 1,
            final(counter).window == old(counter).window,
    {
        let n = counter.general;
        counter.general = counter.general + 1;
        n
    }

    /// Creates a unique [`Id`].
    ///
    /// Each call consumes a fresh sequence number, so every call returns
    /// an identifier distinct from all earlier ones (until a [`Id::reset`]).
    pub fn unique(counter: &mut IdCounter) -> (id: Id)
        requires
            old(counter).general < u64::MAX,
        ensures
            id.0 == Internal::Unique(old(counter).general),
            final(counter).general == old(counter).general + 1,
            final(counter).window == old(counter).window,
    {
        let n = Self::next(counter);
        Id(Internal::Unique(n))
    }
}

/// Structural equality: the equality used by generic containers. Two
/// identifiers are equal only within the same shape, and only by the
/// shape's natural key: the sequence number for `Unique`, the name for
/// `Custom` (the sequence number is ignored), and the member sequence,
/// element-wise and order-sensitive, for `IdSet`. A `Unique` and a
/// `Custom` are never structurally equal, even with matching numbers.
pub open spec fn structural_eq(a: Internal, b: Internal) -> bool
    decreases a,
{
    match (a, b) {
        (Internal::Unique(l), Internal::Unique(r)) => l == r,
        (Internal::Custom(_, ln), Internal::Custom(_, rn)) => ln@ == rn@,
        (Internal::IdSet(l), Internal::IdSet(r)) => {
            &&& l@.len() == r@.len()
            &&& forall|i: int| 0 <= i < l@.len() ==> structural_eq(#[trigger] l@[i], r@[i])
        },
        _ => false,
    }
}

/// Domain equivalence: the looser, business-meaningful relation deciding
/// whether two identifiers denote the same logical entity.
///
/// - `Unique` vs `Unique`: the sequence numbers match.
/// - `Custom` vs `Custom`: the sequence numbers match **or** the names match.
/// - `Unique` vs `Custom` (either order): the sequence numbers match.
/// - `IdSet` vs `IdSet`: the member sequences match element-wise
///   (structurally, order-sensitive).
/// - `IdSet` vs non-set (either order): some member of the set is
///   domain-equivalent to the other value, recursively.
///
/// The relation is reflexive by construction but not transitive across
/// mixed shapes: `Unique(1)` matches `Custom(1, "a")`, and `Custom(1, "a")`
/// matches `Custom(2, "a")` by name, yet `Unique(1)` does not match
/// `Custom(2, "a")`. This looseness is deliberate and left as documented.
pub open spec fn domain_eq(a: Internal, b: Internal) -> bool
    decreases a, b,
{
    match a {
        Internal::Unique(l) => match b {
            Internal::Unique(r) => l == r,
            Internal::Custom(r0, _) => l == r0,
            Internal::IdSet(r) => exists|i: int|
                0 <= i < r@.len() && domain_eq(a, #[trigger] r@[i]),
        },
        Internal::Custom(l0, ln) => match b {
            Internal::Unique(r) => l0 == r,
            Internal::Custom(r0, rn) => l0 == r0 || ln@ == rn@,
            Internal::IdSet(r) => exists|i: int|
                0 <= i < r@.len() && domain_eq(a, #[trigger] r@[i]),
        },
        Internal::IdSet(l) => match b {
            Internal::IdSet(r) => {
                &&& l@.len() == r@.len()
                &&& forall|i: int| 0 <= i < l@.len() ==> structural_eq(#[trigger] l@[i], r@[i])
            },
            _ => exists|i: int| 0 <= i < l@.len() && domain_eq(#[trigger] l@[i], b),
        },
    }
}

/// Full structural identity, field for field: unlike [`structural_eq`] it
/// also compares the sequence numbers of `Custom` identifiers. It is what
/// a deep copy preserves, and it refines both equality relations.
pub open spec fn deep_eq(a: Internal, b: Internal) -> bool
    decreases a,
{
    match (a, b) {
        (Internal::Unique(l), Internal::Unique(r)) => l == r,
        (Internal::Custom(l0, ln), Internal::Custom(r0, rn)) => l0 == r0 && ln@ == rn@,
        (Internal::IdSet(l), Internal::IdSet(r)) => {
            &&& l@.len() == r@.len()
            &&& forall|i: int| 0 <= i < l@.len() ==> deep_eq(#[trigger] l@[i], r@[i])
        },
        _ => false,
    }
}

impl Clone for Internal {
    /// A deep copy, field for field.
    fn clone(&self) -> (r: Internal)
        ensures
            deep_eq(r, *self),
        decreases *self,
    {
        match self {
            Internal::Unique(n) => {
                assert(*self == Internal::Unique(*n));
                Internal::Unique(*n)
            },
            Internal::Custom(n, s) => {
                assert(*self == Internal::Custom(*n, *s));
                Internal::Custom(*n, s.clone())
            },
            Internal::IdSet(v) => {
                assert(*self == Internal::IdSet(*v));
                let mut out: Vec<Internal> = Vec::new();
                let mut i: usize = 0;
                while i < v.len()
                    invariant
                        i <= v@.len(),
                        *self == Internal::IdSet(*v),
                        out@.len() == i as int,
                        forall|j: int| 0 <= j < i ==> deep_eq(#[trigger] out@[j], v@[j]),
                    decreases v@.len() - i,
                {
                    proof {
                        assert(decreases_to!(*self => self->IdSet_0));
                        assert(decreases_to!(self->IdSet_0 => (self->IdSet_0)@));
                        assert(decreases_to!((self->IdSet_0)@ => (self->IdSet_0)@[i as int]));
                        assert((self->IdSet_0)@ == v@);
                    }
                    out.push(v[i].clone());
                    i = i + 1;
                }
                let r = Internal::IdSet(out);
                assert(deep_eq(r, *self));
                r
            },
        }
    }
}

impl Clone for Id {
    /// A deep copy, field for field.
    fn clone(&self) -> (r: Id)
        ensures
            deep_eq(r.0, self.0),
    {
        Id(self.0.clone())
    }
}

/// Decides structural equality, recursing through nested sets.
fn structural_eq_impl(a: &Internal, b: &Internal) -> (r: bool)
    ensures
        r == structural_eq(*a, *b),
    decreases *a,
{
    match a {
        Internal::Unique(l) => {
            assert(*a == Internal::Unique(*l));
            match b {
                Internal::Unique(rn) => {
                    let res = *l == *rn;
                    assert(res == structural_eq(*a, *b));
                    res
                },
                _ => {
                    assert(!structural_eq(*a, *b));
                    false
                },
            }
        },
        Internal::Custom(_, ln) => {
            match b {
                Internal::Custom(_, rn) => {
                    let res = ln.eq(rn);
                    assert(res == structural_eq(*a, *b));
                    res
                },
                _ => {
                    assert(!structural_eq(*a, *b));
                    false
                },
            }
        },
        Internal::IdSet(l) => {
            assert(*a == Internal::IdSet(*l));
            match b {
                Internal::IdSet(rv) => {
                    if l.len() != rv.len() {
                        assert(!structural_eq(*a, *b));
                        return false;
                    }
                    let mut i: usize = 0;
                    while i < l.len()
                        invariant
                            i <= l@.len(),
                            l@.len() == rv@.len(),
                            *a == Internal::IdSet(*l),
                            *b == Internal::IdSet(*rv),
                            forall|j: int| 0 <= j < i ==> structural_eq(#[trigger] l@[j], rv@[j]),
                        decreases l@.len() - i,
                    {
                        proof {
                            assert(decreases_to!(*a => a->IdSet_0));
                            assert(decreases_to!(a->IdSet_0 => (a->IdSet_0)@));
                            assert(decreases_to!((a->IdSet_0)@ => (a->IdSet_0)@[i as int]));
                            assert((a->IdSet_0)@ == l@);
                        }
                        if !structural_eq_impl(&l[i], &rv[i]) {
                            assert(!structural_eq(*a, *b));
                            return false;
                        }
                        i = i + 1;
                    }
                    assert(structural_eq(*a, *b));
                    true
                },
                _ => {
                    assert(!structural_eq(*a, *b));
                    false
                },
            }
        },
    }
}

/// Decides domain equivalence, recursing through nested sets.
fn domain_eq_impl(a: &Internal, b: &Internal) -> (r: bool)
    ensures
        r == domain_eq(*a, *b),
    decreases *a, *b,
{
    match a {
        Internal::Unique(l) => {
            assert(*a == Internal::Unique(*l));
            match b {
                Internal::Unique(rn) => {
                    let res = *l == *rn;
                    assert(res == domain_eq(*a, *b));
                    res
                },
                Internal::Custom(r0, _) => {
                    let res = *l == *r0;
                    assert(res == domain_eq(*a, *b));
                    res
                },
                Internal::IdSet(rv) => {
                    assert(*b == Internal::IdSet(*rv));
                    let mut i: usize = 0;
                    while i < rv.len()
                        invariant
                            i <= rv@.len(),
                            *a == Internal::Unique(*l),
                            *b == Internal::IdSet(*rv),
                            forall|j: int| 0 <= j < i ==> !domain_eq(*a, #[trigger] rv@[j]),
                        decreases rv@.len() - i,
                    {
                        proof {
                            assert(decreases_to!(*b => b->IdSet_0));
                            assert(decreases_to!(b->IdSet_0 => (b->IdSet_0)@));
                            assert(decreases_to!((b->IdSet_0)@ => (b->IdSet_0)@[i as int]));
                            assert((b->IdSet_0)@ == rv@);
                        }
                        if domain_eq_impl(a, &rv[i]) {
                            assert(domain_eq(*a, *b));
                            return true;
                        }
                        i = i + 1;
                    }
                    assert(!domain_eq(*a, *b));
                    false
                },
            }
        },
        Internal::Custom(l0, ln) => {
            assert(*a == Internal::Custom(*l0, *ln));
            match b {
                Internal::Unique(rn) => {
                    let res = *l0 == *rn;
                    assert(res == domain_eq(*a, *b));
                    res
                },
                Internal::Custom(r0, rn) => {
                    let res = *l0 == *r0 || ln.eq(rn);
                    assert(res == domain_eq(*a, *b));
                    res
                },
                Internal::IdSet(rv) => {
                    assert(*b == Internal::IdSet(*rv));
                    let mut i: usize = 0;
                    while i < rv.len()
                        invariant
                            i <= rv@.len(),
                            *a == Internal::Custom(*l0, *ln),
                            *b == Internal::IdSet(*rv),
                            forall|j: int| 0 <= j < i ==> !domain_eq(*a, #[trigger] rv@[j]),
                        decreases rv@.len() - i,
                    {
                        proof {
                            assert(decreases_to!(*b => b->IdSet_0));
                            assert(decreases_to!(b->IdSet_0 => (b->IdSet_0)@));
                            assert(decreases_to!((b->IdSet_0)@ => (b->IdSet_0)@[i as int]));
                            assert((b->IdSet_0)@ == rv@);
                        }
                        if domain_eq_impl(a, &rv[i]) {
                            assert(domain_eq(*a, *b));
                            return true;
                        }
                        i = i + 1;
                    }
                    assert(!domain_eq(*a, *b));
                    false
                },
            }
        },
        Internal::IdSet(lv) => {
            assert(*a == Internal::IdSet(*lv));
            match b {
                Internal::IdSet(_) => {
                    let res = structural_eq_impl(a, b);
                    assert(res == domain_eq(*a, *b));
                    res
                },
                _ => {
                    let mut i: usize = 0;
                    while i < lv.len()
                        invariant
                            i <= lv@.len(),
                            *a == Internal::IdSet(*lv),
                            !(*b is IdSet),
                            forall|j: int| 0 <= j < i ==> !domain_eq(#[trigger] lv@[j], *b),
                        decreases lv@.len() - i,
                    {
                        proof {
                            assert(decreases_to!(*a => a->IdSet_0));
                            assert(decreases_to!(a->IdSet_0 => (a->IdSet_0)@));
                            assert(decreases_to!((a->IdSet_0)@ => (a->IdSet_0)@[i as int]));
                            assert((a->IdSet_0)@ == lv@);
                        }
                        if domain_eq_impl(&lv[i], b) {
                            assert(domain_eq(*a, *b));
                            return true;
                        }
                        i = i + 1;
                    }
                    assert(!domain_eq(*a, *b));
                    false
                },
            }
        },
    }
}

/// Similar to `PartialEq`, but only intended for comparing identifiers:
/// decides the domain equivalence relation instead of structural equality.
/// Callers choose explicitly which of the two semantics they need;
/// generic containers keep using the structural `==`.
pub trait IdEq {
    /// The relation this comparison decides, at the specification level.
    spec fn domain_spec(&self, other: &Self) -> bool;

    /// Compare two values for domain equivalence, by their number or name.
    fn eq(&self, other: &Self) -> (r: bool)
        ensures
            r == self.domain_spec(other),
    ;
}

impl IdEq for Internal {
    open spec fn domain_spec(&self, other: &Internal) -> bool {
        domain_eq(*self, *other)
    }

    fn eq(&self, other: &Self) -> (r: bool) {
        domain_eq_impl(self, other)
    }
}

impl PartialEq for Internal {
    /// Structural equality, the relation generic containers key by.
    fn eq(&self, other: &Self) -> (r: bool) {
        structural_eq_impl(self, other)
    }
}

impl vstd::std_specs::cmp::PartialEqSpecImpl for Internal {
    open spec fn obeys_eq_spec() -> bool {
        true
    }

    open spec fn eq_spec(&self, other: &Internal) -> bool {
        structural_eq(*self, *other)
    }
}

impl Eq for Internal {}

impl PartialEq for Id {
    /// Structural equality of the wrapped representations.
    fn eq(&self, other: &Self) -> (r: bool) {
        structural_eq_impl(&self.0, &other.0)
    }
}

impl vstd::std_specs::cmp::PartialEqSpecImpl for Id {
    open spec fn obeys_eq_spec() -> bool {
        true
    }

    open spec fn eq_spec(&self, other: &Id) -> bool {
        structural_eq(self.0, other.0)
    }
}

impl Eq for Id {}

/// A rolling hash of a name, one mixing step per character.
pub open spec fn str_hash_spec(s: Seq<char>) -> u64
    decreases s.len(),
{
    if s.len() == 0 {
        5381u64
    } else {
        str_hash_spec(s.subrange(0, s.len() - 1)).wrapping_mul(31).wrapping_add(
            s[s.len() - 1] as u64,
        )
    }
}

/// A rolling hash of a member sequence, one mixing step per member.
pub open spec fn seq_hash_spec(s: Seq<Internal>) -> u64
    decreases s,
{
    if s.len() == 0 {
        5381u64
    } else {
        seq_hash_spec(s.subrange(0, s.len() - 1)).wrapping_mul(31).wrapping_add(
            hash_spec(s[s.len() - 1]),
        )
    }
}

/// The hash key of an identifier. It agrees with structural equality, as
/// container contracts require: `Unique` hashes its sequence number,
/// `Custom` hashes its name only (so two same-named instances with
/// different sequence numbers collide and compare equal), and `IdSet`
/// hashes the member sequence.
pub open spec fn hash_spec(a: Internal) -> u64
    decreases a,
{
    match a {
        Internal::Unique(n) => n,
        Internal::Custom(_, s) => str_hash_spec(s@),
        Internal::IdSet(v) => seq_hash_spec(v@),
    }
}

/// Computes [`str_hash_spec`] of a name.
fn str_hash(s: &str) -> (h: u64)
    ensures
        h == str_hash_spec(s@),
{
    let n = s.unicode_len();
    let mut h: u64 = 5381;
    let mut i: usize = 0;
    proof {
        assert(s@.subrange(0, 0) =~= Seq::<char>::empty());
    }
    while i < n
        invariant
            i <= n,
            n as nat == s@.len(),
            h == str_hash_spec(s@.subrange(0, i as int)),
        decreases n - i,
    {
        let c = s.get_char(i);
        proof {
            let pre = s@.subrange(0, i as int + 1);
            assert(pre.subrange(0, pre.len() - 1) =~= s@.subrange(0, i as int));
            assert(pre[pre.len() - 1] == s@[i as int]);
        }
        h = h.wrapping_mul(31).wrapping_add(c as u64);
        i = i + 1;
    }
    proof {
        assert(s@.subrange(0, s@.len() as int) =~= s@);
    }
    h
}

impl Internal {
    /// A deterministic 64-bit hash of the identifier, agreeing with
    /// structural equality: structurally equal identifiers hash alike
    /// (see [`lemma_hash_consistent`]).
    pub fn hash(&self) -> (h: u64)
        ensures
            h == hash_spec(*self),
        decreases *self,
    {
        match self {
            Internal::Unique(n) => {
                assert(*self == Internal::Unique(*n));
                *n
            },
            Internal::Custom(_, s) => str_hash(s.as_str()),
            Internal::IdSet(v) => {
                assert(*self == Internal::IdSet(*v));
                let mut h: u64 = 5381;
                let mut i: usize = 0;
                proof {
                    assert(v@.subrange(0, 0) =~= Seq::<Internal>::empty());
                }
                while i < v.len()
                    invariant
                        i <= v@.len(),
                        *self == Internal::IdSet(*v),
                        h == seq_hash_spec(v@.subrange(0, i as int)),
                    decreases v@.len() - i,
                {
                    proof {
                        assert(decreases_to!(*self => self->IdSet_0));
                        assert(decreases_to!(self->IdSet_0 => (self->IdSet_0)@));
                        assert(decreases_to!((self->IdSet_0)@ => (self->IdSet_0)@[i as int]));
                        assert((self->IdSet_0)@ == v@);
                        let pre = v@.subrange(0, i as int + 1);
                        assert(pre.subrange(0, pre.len() - 1) =~= v@.subrange(0, i as int));
                        assert(pre[pre.len() - 1] == v@[i as int]);
                    }
                    let hm = v[i].hash();
                    h = h.wrapping_mul(31).wrapping_add(hm);
                    i = i + 1;
                }
                proof {
                    assert(v@.subrange(0, v@.len() as int) =~= v@);
                }
                h
            },
        }
    }
}

impl Id {
    /// The hash of the wrapped representation; see [`Internal::hash`].
    pub fn hash(&self) -> (h: u64)
        ensures
            h == hash_spec(self.0),
    {
        self.0.hash()
    }
}

/// The scalar numeric form of a non-set identifier: its sequence number
/// widened to 128 bits. A set identifier has no scalar identity; the
/// placeholder 0 is never exposed, since every conversion excludes sets.
pub open spec fn scalar_spec(a: Internal) -> u128 {
    match a {
        Internal::Unique(n) => n as u128,
        Internal::Custom(n, _) => n as u128,
        Internal::IdSet(_) => 0,
    }
}

impl Id {
    /// The flat 128-bit numeric node handle of this identifier: its
    /// sequence number, nonzero and unchanged by the widening.
    ///
    /// Converting a set identifier is a process-level invariant violation
    /// (a set stands for several nodes, each with its own identifier), and
    /// so is a sequence number of 0, which no allocator ever issues; both
    /// are ruled out by the precondition, so the conversion is total and
    /// deterministic on everything it accepts. An unchecked caller that
    /// reaches the set arm anyway is stopped rather than handed a
    /// made-up scalar that would corrupt downstream keying.
    pub fn node_id(&self) -> (h: u128)
        requires
            !(self.0 is IdSet),
            scalar_spec(self.0) != 0,
        ensures
            h == scalar_spec(self.0),
            h != 0,
    {
        match &self.0 {
            Internal::Unique(n) => *n as u128,
            Internal::Custom(n, _) => *n as u128,
            Internal::IdSet(_) => vstd::pervasive::unreached(),
        }
    }

    /// The display form: a `Custom` identifier renders as its name, the
    /// other shapes as fixed placeholders (they have no human-meaningful
    /// name). For debugging and logging only, not a serialization format.
    pub fn label(&self) -> (s: String)
        ensures
            (match self.0 {
                Internal::Unique(_) => s@ == "Undefined"@,
                Internal::Custom(_, n) => s@ == n@,
                Internal::IdSet(_) => s@ == "Set"@,
            }),
    {
        match &self.0 {
            Internal::Unique(_) => String::from_str("Undefined"),
            Internal::Custom(_, n) => n.clone(),
            Internal::IdSet(_) => String::from_str("Set"),
        }
    }
}

// Not meant to be used directly.
impl From<u64> for Id {
    /// Wraps a raw sequence number as a `Unique` identifier.
    fn from(value: u64) -> (id: Id) {
        Id(Internal::Unique(value))
    }
}

impl vstd::std_specs::convert::FromSpecImpl<u64> for Id {
    open spec fn obeys_from_spec() -> bool {
        true
    }

    open spec fn from_spec(value: u64) -> Id {
        Id(Internal::Unique(value))
    }
}

/// Allocates the next window node handle: a value in the namespace offset
/// past `u64::MAX`, so it is nonzero and can never equal a general-namespace
/// sequence number widened to 128 bits.
pub fn window_node_id(counter: &mut IdCounter) -> (h: u128)
    requires
        old(counter).window >= 1,
        old(counter).window < u64::MAX,
    ensures
        h == u64::MAX as u128 + old(counter).window as u128,
        h > u64::MAX as u128,
        final(counter).window == old(counter).window + 1,
        final(counter).general == old(counter).general,
{
    let n = counter.window;
    counter.window = counter.window + 1;
    u64::MAX as u128 + n as u128
}

/// Law: structural equality is reflexive — every identifier is
/// structurally equal to itself.
pub proof fn lemma_structural_eq_reflexive(a: Internal)
    ensures
        structural_eq(a, a),
    decreases a,
{
    match a {
        Internal::IdSet(v) => {
            assert forall|i: int| 0 <= i < v@.len() implies structural_eq(
                #[trigger] v@[i],
                v@[i],
            ) by {
                lemma_structural_eq_reflexive(v@[i]);
            }
        },
        _ => {},
    }
}

/// Law: structural equality is symmetric.
pub proof fn lemma_structural_eq_symmetric(a: Internal, b: Internal)
    ensures
        structural_eq(a, b) == structural_eq(b, a),
    decreases a,
{
    match (a, b) {
        (Internal::IdSet(l), Internal::IdSet(r)) => {
            if l@.len() == r@.len() {
                assert forall|i: int| 0 <= i < l@.len() implies structural_eq(
                    #[trigger] l@[i],
                    r@[i],
                ) == structural_eq(r@[i], l@[i]) by {
                    lemma_structural_eq_symmetric(l@[i], r@[i]);
                }
            }
        },
        _ => {},
    }
}

/// Law: structural equality is transitive. Together with reflexivity and
/// symmetry it is a genuine equivalence relation, as the `Eq` marker on
/// these types promises to generic containers.
pub proof fn lemma_structural_eq_transitive(a: Internal, b: Internal, c: Internal)
    requires
        structural_eq(a, b),
        structural_eq(b, c),
    ensures
        structural_eq(a, c),
    decreases a,
{
    match (a, b, c) {
        (Internal::IdSet(l), Internal::IdSet(m), Internal::IdSet(r)) => {
            assert forall|i: int| 0 <= i < l@.len() implies structural_eq(
                #[trigger] l@[i],
                r@[i],
            ) by {
                assert(structural_eq(l@[i], m@[i]));
                assert(structural_eq(m@[i], r@[i]));
                lemma_structural_eq_transitive(l@[i], m@[i], r@[i]);
            }
        },
        _ => {},
    }
}

/// Law: domain equivalence is symmetric — "either order" holds not just
/// for the `Unique` vs `Custom` cross match but for every pair of shapes.
pub proof fn lemma_domain_eq_symmetric(a: Internal, b: Internal)
    ensures
        domain_eq(a, b) == domain_eq(b, a),
    decreases a, b,
{
    match (a, b) {
        (Internal::IdSet(l), Internal::IdSet(r)) => {
            if l@.len() == r@.len() {
                assert forall|i: int| 0 <= i < l@.len() implies structural_eq(
                    #[trigger] l@[i],
                    r@[i],
                ) == structural_eq(r@[i], l@[i]) by {
                    lemma_structural_eq_symmetric(l@[i], r@[i]);
                }
            }
        },
        (Internal::IdSet(l), _) => {
            assert forall|i: int| 0 <= i < l@.len() implies domain_eq(#[trigger] l@[i], b)
                == domain_eq(b, l@[i]) by {
                lemma_domain_eq_symmetric(l@[i], b);
            }
        },
        (_, Internal::IdSet(r)) => {
            assert forall|i: int| 0 <= i < r@.len() implies domain_eq(a, #[trigger] r@[i])
                == domain_eq(r@[i], a) by {
                lemma_domain_eq_symmetric(a, r@[i]);
            }
        },
        _ => {},
    }
}

/// Law: domain equivalence is reflexive by construction — every
/// identifier denotes the same logical entity as itself.
pub proof fn lemma_domain_eq_reflexive(a: Internal)
    ensures
        domain_eq(a, a),
{
    match a {
        Internal::IdSet(v) => {
            assert forall|i: int| 0 <= i < v@.len() implies structural_eq(
                #[trigger] v@[i],
                v@[i],
            ) by {
                lemma_structural_eq_reflexive(v@[i]);
            }
        },
        _ => {},
    }
}

/// Law: a deep copy preserves structural equality — full field-for-field
/// identity refines the container relation.
pub proof fn lemma_deep_eq_implies_structural(a: Internal, b: Internal)
    requires
        deep_eq(a, b),
    ensures
        structural_eq(a, b),
    decreases a,
{
    match (a, b) {
        (Internal::IdSet(l), Internal::IdSet(r)) => {
            assert forall|i: int| 0 <= i < l@.len() implies structural_eq(
                #[trigger] l@[i],
                r@[i],
            ) by {
                lemma_deep_eq_implies_structural(l@[i], r@[i]);
            }
        },
        _ => {},
    }
}

/// Law: domain equivalence is not transitive across mixed shapes, and
/// deliberately so: a `Unique` matches a `Custom` with its number, that
/// `Custom` matches any other `Custom` with its name, yet the `Unique`
/// does not match the latter when the numbers differ.
pub proof fn lemma_domain_eq_not_transitive(n1: u64, n2: u64, s: String)
    requires
        n1 != n2,
    ensures
        domain_eq(Internal::Unique(n1), Internal::Custom(n1, s)),
        domain_eq(Internal::Custom(n1, s), Internal::Custom(n2, s)),
        !domain_eq(Internal::Unique(n1), Internal::Custom(n2, s)),
{
}

/// Law: identifiers carrying distinct sequence numbers are distinct under
/// both relations. Every allocation consumes a fresh, strictly larger
/// sequence number, so any run of [`Id::unique`] calls without a reset
/// yields pairwise structurally distinct identifiers, none
/// domain-equivalent to any other.
pub proof fn lemma_unique_distinct(a: Id, b: Id, na: u64, nb: u64)
    requires
        a.0 == Internal::Unique(na),
        b.0 == Internal::Unique(nb),
        na != nb,
    ensures
        !structural_eq(a.0, b.0),
        !domain_eq(a.0, b.0),
{
}

/// Law: two `Custom` identifiers built from the same name are
/// domain-equivalent, whatever their sequence numbers — and under the
/// container relation, which compares `Custom` identifiers by name alone,
/// they are structurally equal as well.
pub proof fn lemma_custom_same_name(n1: u64, s1: String, n2: u64, s2: String)
    requires
        s1@ == s2@,
    ensures
        domain_eq(Internal::Custom(n1, s1), Internal::Custom(n2, s2)),
        structural_eq(Internal::Custom(n1, s1), Internal::Custom(n2, s2)),
{
}

/// Law: a `Unique` identifier is domain-equivalent to any `Custom`
/// identifier carrying the same sequence number, in either order and
/// regardless of the name — yet the two are never structurally equal.
pub proof fn lemma_unique_matches_custom(k: u64, name: String)
    ensures
        domain_eq(Internal::Unique(k), Internal::Custom(k, name)),
        domain_eq(Internal::Custom(k, name), Internal::Unique(k)),
        !structural_eq(Internal::Unique(k), Internal::Custom(k, name)),
        !structural_eq(Internal::Custom(k, name), Internal::Unique(k)),
{
}

/// Law: a set stands in for its members. Against a non-set value, a set
/// is domain-equivalent exactly when one of its members is (recursively);
/// against another set, exactly when the member sequences match
/// element-wise and in order.
pub proof fn lemma_idset_matches(members: Vec<Internal>, v: Internal)
    requires
        !(v is IdSet),
    ensures
        domain_eq(Internal::IdSet(members), v) <==> (exists|i: int|
            0 <= i < members@.len() && domain_eq(#[trigger] members@[i], v)),
        domain_eq(v, Internal::IdSet(members)) <==> (exists|i: int|
            0 <= i < members@.len() && domain_eq(v, #[trigger] members@[i])),
{
    assert(Internal::IdSet(members)->IdSet_0 == members);
}

/// Law: two sets are domain-equivalent only by exact element-wise match
/// of their member sequences, order included — membership overlap is not
/// enough.
pub proof fn lemma_idset_vs_idset(l: Vec<Internal>, r: Vec<Internal>)
    ensures
        domain_eq(Internal::IdSet(l), Internal::IdSet(r)) <==> (l@.len() == r@.len()
            && forall|i: int| 0 <= i < l@.len() ==> structural_eq(#[trigger] l@[i], r@[i])),
{
}

/// Congruence of the member-sequence hash: sequences whose members hash
/// alike, position by position, hash alike.
proof fn lemma_seq_hash_congruent(l: Seq<Internal>, r: Seq<Internal>)
    requires
        l.len() == r.len(),
        forall|i: int| 0 <= i < l.len() ==> hash_spec(#[trigger] l[i]) == hash_spec(r[i]),
    ensures
        seq_hash_spec(l) == seq_hash_spec(r),
    decreases l.len(),
{
    if l.len() > 0 {
        let l1 = l.subrange(0, l.len() - 1);
        let r1 = r.subrange(0, r.len() - 1);
        assert forall|i: int| 0 <= i < l1.len() implies hash_spec(#[trigger] l1[i])
            == hash_spec(r1[i]) by {
            assert(l1[i] == l[i]);
            assert(r1[i] == r[i]);
        }
        lemma_seq_hash_congruent(l1, r1);
        assert(hash_spec(l[l.len() - 1]) == hash_spec(r[r.len() - 1]));
    }
}

/// Law: hashing is consistent with structural equality — structurally
/// equal identifiers have equal hashes, as the container-key contract
/// requires. In particular two `Custom` identifiers with the same name
/// and different sequence numbers collide.
pub proof fn lemma_hash_consistent(a: Internal, b: Internal)
    requires
        structural_eq(a, b),
    ensures
        hash_spec(a) == hash_spec(b),
    decreases a,
{
    match (a, b) {
        (Internal::IdSet(l), Internal::IdSet(r)) => {
            assert forall|i: int| 0 <= i < l@.len() implies hash_spec(#[trigger] l@[i])
                == hash_spec(r@[i]) by {
                lemma_hash_consistent(l@[i], r@[i]);
            }
            lemma_seq_hash_congruent(l@, r@);
        },
        _ => {},
    }
}

/// Law: the scalar conversion is deterministic and reversible. For a
/// non-set identifier the scalar form is exactly its sequence number,
/// it fits in 64 bits, and wrapping it back via `From<u64>` yields a
/// `Unique` identifier that is domain-equivalent to the original —
/// structurally equal, when the original was itself `Unique`.
pub proof fn lemma_scalar_round_trip(id: Id)
    requires
        !(id.0 is IdSet),
    ensures
        scalar_spec(id.0) <= u64::MAX as u128,
        domain_eq(Internal::Unique(scalar_spec(id.0) as u64), id.0),
        id.0 is Unique ==> structural_eq(Internal::Unique(scalar_spec(id.0) as u64), id.0),
{
}

/// Law: the window-handle namespace is disjoint from the general
/// namespace. Every window handle lies strictly above `u64::MAX`, while
/// the scalar form of any identifier fits in 64 bits, so the two can
/// never collide however many allocations each side makes.
pub proof fn lemma_window_handle_disjoint(h: u128, id: Id)
    requires
        h > u64::MAX as u128,
        !(id.0 is IdSet),
    ensures
        h != scalar_spec(id.0),
{
}

} // verus!
