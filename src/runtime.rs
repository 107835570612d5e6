//! The capabilities that generated wrappers route through. A weak-data
//! domain implements them once and every wrapper over that domain reuses
//! them.
use vstd::prelude::*;

verus! {

/// Errors that generated code can create by itself.
pub trait Error: Sized {
    /// Whether this is the error of a value that no variant recognised.
    spec fn is_no_variant_recognized(&self) -> bool;

    /// The error of a value that no configured variant recognises.
    fn no_variant_recognized() -> (r: Self)
        ensures
            r.is_no_variant_recognized(),
    ;
}

/// Projects a weak value onto its strong shape, and back.
///
/// `project` says what a weak value is as a strong one, if it has that
/// shape; `embed` what weak value a strong one becomes.
pub trait Descriptor: Sized {
    type Weak;
    type Strong;
    type Error: Error;

    spec fn project(&self, weak: Self::Weak) -> Option<Self::Strong>;

    spec fn embed(&self, strong: Self::Strong) -> Self::Weak;

    /// Whether `e` is this descriptor's error for a weak value that does not
    /// have the strong shape.
    spec fn is_shape_error(&self, weak: Self::Weak, e: Self::Error) -> bool;

    /// Borrows a weak value as its strong shape.
    fn strong<'a>(&self, weak: &'a Self::Weak) -> (r: Result<&'a Self::Strong, Self::Error>)
        ensures
            match r {
                Ok(s) => self.project(*weak) == Some(*s),
                Err(e) => self.project(*weak) is None && self.is_shape_error(*weak, e),
            },
    ;

    /// Borrows a weak value mutably as its strong shape.
    fn strong_mut<'a>(&self, weak: &'a mut Self::Weak) -> (r: Result<&'a mut Self::Strong, Self::Error>)
        ensures
            match r {
                Ok(s) => self.project(*old(weak)) == Some(*s) && *final(weak) == self.embed(*final(s)),
                Err(e) => self.project(*old(weak)) is None && self.is_shape_error(*old(weak), e)
                    && *final(weak) == *old(weak),
            },
    ;

    /// Turns a strong value into a weak one.
    fn strong_into_weak(&self, strong: Self::Strong) -> (r: Self::Weak)
        ensures
            r == self.embed(strong),
    ;

    /// Turns a weak value into a strong one, if it has the strong shape.
    fn try_weak_into_strong(&self, weak: Self::Weak) -> (r: Result<Self::Strong, Self::Error>)
        ensures
            match r {
                Ok(s) => self.project(weak) == Some(s),
                Err(e) => self.project(weak) is None && self.is_shape_error(weak, e),
            },
    ;
}

/// Whether a descriptor's two conversions are inverses: a weak value has
/// the strong shape `s` exactly when it is the weak form of `s`.
pub open spec fn conversions_invert<D: Descriptor>(d: D) -> bool {
    forall|w: D::Weak, s: D::Strong| #[trigger] d.project(w) == Some(s) <==> w == #[trigger] d.embed(s)
}

/// For a descriptor whose conversions are inverses, a wrapper built from a
/// strong value (`strong_into_weak`) turns back into that same value
/// (`try_weak_into_strong` succeeds with it), and a weak value of strong
/// shape comes back unchanged from the strong value it projects to.
pub proof fn lemma_strong_round_trip<D: Descriptor>(d: D, s: D::Strong, w: D::Weak)
    requires
        conversions_invert(d),
    ensures
        d.project(d.embed(s)) == Some(s),
        d.project(w) matches Some(t) ==> d.embed(t) == w,
{
    assert(d.project(d.embed(s)) == Some(s) <==> d.embed(s) == d.embed(s));
    if let Some(t) = d.project(w) {
        assert(d.project(w) == Some(t) <==> w == d.embed(t));
    }
}

/// Access to a strongly typed value's fields by name.
///
/// `field` says what the field `name` of a strong value holds, if it is
/// there.
pub trait FieldAccess<Strong, E, T, N> {
    spec fn field(&self, strong: Strong, name: N) -> Option<T>;

    /// Whether `e` is this capability's error for accessing the field
    /// `name` of `strong`.
    spec fn is_access_error(&self, strong: Strong, name: N, e: E) -> bool;

    /// Borrows a field; fails exactly where it is absent.
    fn get<'a>(&self, strong: &'a Strong, name: N) -> (r: Result<&'a T, E>)
        ensures
            r is Ok <==> self.field(*strong, name) is Some,
            r matches Ok(t) ==> self.field(*strong, name) == Some(*t),
            r matches Err(e) ==> self.is_access_error(*strong, name, e),
    ;

    /// Borrows a field mutably; fails exactly where it is absent.
    fn get_mut<'a>(&self, strong: &'a mut Strong, name: N) -> (r: Result<&'a mut T, E>)
        ensures
            r is Ok <==> self.field(*old(strong), name) is Some,
            r matches Ok(t) ==> self.field(*old(strong), name) == Some(*t),
            r matches Err(e) ==> self.is_access_error(*old(strong), name, e),
    ;

    /// Writes a field, whether or not it was there.
    fn set(&self, strong: &mut Strong, name: N, value: T) -> (r: Result<(), E>)
        ensures
            r is Ok ==> self.field(*final(strong), name) == Some(value),
            r matches Err(e) ==> self.is_access_error(*old(strong), name, e),
    ;

    /// Writes a field and hands back the new slot and the value it replaced,
    /// if there was one.
    fn insert<'a>(&self, strong: &'a mut Strong, name: N, value: T) -> (r: Result<(&'a mut T, Option<T>), E>)
        ensures
            r matches Ok((slot, prev)) ==> *slot == value && prev == self.field(*old(strong), name),
            r matches Err(e) ==> self.is_access_error(*old(strong), name, e),
    ;
}

/// Access to a union's fields by name, where the requested field may not be
/// the one that is active.
pub trait UnionFieldAccess<Strong, E, T, N> {
    /// What the field `name` holds, where it is the active one.
    spec fn field(&self, strong: Strong, name: N) -> Option<T>;

    /// Whether `e` is this capability's error for accessing the field
    /// `name` of `strong`.
    spec fn is_access_error(&self, strong: Strong, name: N, e: E) -> bool;

    /// Borrows a field, or nothing where another field is active.
    fn get<'a>(&self, strong: &'a Strong, name: N) -> (r: Result<Option<&'a T>, E>)
        ensures
            r matches Ok(o) ==> (o is Some <==> self.field(*strong, name) is Some),
            r matches Ok(Some(t)) ==> self.field(*strong, name) == Some(*t),
            r matches Err(e) ==> self.is_access_error(*strong, name, e),
    ;

    /// Borrows a field mutably, or nothing where another field is active.
    fn get_mut<'a>(&self, strong: &'a mut Strong, name: N) -> (r: Result<Option<&'a mut T>, E>)
        ensures
            r matches Ok(o) ==> (o is Some <==> self.field(*old(strong), name) is Some),
            r matches Ok(Some(t)) ==> self.field(*old(strong), name) == Some(*t),
            r matches Err(e) ==> self.is_access_error(*old(strong), name, e),
    ;

    /// Writes a field, making it the active one.
    fn set(&self, strong: &mut Strong, name: N, value: T) -> (r: Result<(), E>)
        ensures
            r is Ok ==> self.field(*final(strong), name) == Some(value),
            r matches Err(e) ==> self.is_access_error(*old(strong), name, e),
    ;

    /// Writes a field and hands back the new slot and the value it replaced,
    /// if there was one.
    fn insert<'a>(&self, strong: &'a mut Strong, name: N, value: T) -> (r: Result<(&'a mut T, Option<T>), E>)
        ensures
            r matches Ok((slot, prev)) ==> *slot == value && prev == self.field(*old(strong), name),
            r matches Err(e) ==> self.is_access_error(*old(strong), name, e),
    ;
}

/// Tests whether a strong value currently is a given enum variant.
///
/// `accepts` says what the test gives for the variant keyed `name`.
pub trait VariantFilter<Strong, E, N> {
    spec fn accepts(&self, strong: Strong, name: N) -> Result<bool, E>;

    fn predicate(&self, strong: &Strong, name: N) -> (r: Result<bool, E>)
        ensures
            r == self.accepts(*strong, name),
    ;
}

/// Access to the fields of the variant that a strong value currently is.
pub trait VariantFieldAccess<Strong, E, T, N> {
    spec fn field(&self, strong: Strong, name: N) -> Option<T>;

    fn get<'a>(&self, strong: &'a Strong, name: N) -> (r: Result<&'a T, E>)
        ensures
            r matches Ok(t) ==> self.field(*strong, name) == Some(*t),
    ;

    fn get_mut<'a>(&self, strong: &'a mut Strong, name: N) -> (r: Result<&'a mut T, E>)
        ensures
            r matches Ok(t) ==> self.field(*old(strong), name) == Some(*t),
    ;

    fn set(&self, strong: &mut Strong, name: N, value: T) -> (r: Result<(), E>)
        ensures
            r is Ok ==> self.field(*final(strong), name) == Some(value),
    ;

    fn insert<'a>(&self, strong: &'a mut Strong, name: N, value: T) -> (r: Result<(&'a mut T, Option<T>), E>)
        ensures
            r matches Ok((slot, prev)) ==> *slot == value && prev == self.field(*old(strong), name),
    ;
}

} // verus!

verus! {

/// A wrapper type that holds exactly one value of `T` and can be built from
/// and taken apart into it.
pub trait TransparentView<T>: Sized {
    /// The value the wrapper holds.
    spec fn inner(&self) -> T;

    /// The wrapper that holds `value`.
    spec fn wrapped(value: T) -> Self;

    /// Wrapping and unwrapping undo each other: the wrapper of a value holds
    /// that value, and rewrapping a wrapper's value gives the same wrapper.
    proof fn lemma_wrap_unwrap(value: T, w: Self)
        ensures
            Self::wrapped(value).inner() == value,
            Self::wrapped(w.inner()) == w,
    ;

    fn from_inner(value: T) -> (r: Self)
        ensures
            r == Self::wrapped(value),
            r.inner() == value,
    ;

    fn into_inner(self) -> (r: T)
        ensures
            r == self.inner(),
    ;

    fn as_inner(&self) -> (r: &T)
        ensures
            *r == self.inner(),
    ;
}

/// Every type is a wrapper of itself.
impl<T> TransparentView<T> for T {
    open spec fn inner(&self) -> T {
        *self
    }

    open spec fn wrapped(value: T) -> T {
        value
    }

    proof fn lemma_wrap_unwrap(value: T, w: T) {
    }

    fn from_inner(value: T) -> (r: T) {
        value
    }

    fn into_inner(self) -> (r: T) {
        self
    }

    fn as_inner(&self) -> (r: &T) {
        self
    }
}

/// A generated wrapper: its descriptor's projections of the weak value it
/// holds.
pub trait Faible: Sized {
    type Descriptor: Descriptor;

    /// The descriptor the wrapper was declared with.
    spec fn descriptor(&self) -> Self::Descriptor;

    /// The weak value the wrapper holds.
    spec fn weak(&self) -> <Self::Descriptor as Descriptor>::Weak;

    /// Borrows the held weak value as its strong shape.
    fn as_strong(&self) -> (r: Result<&<Self::Descriptor as Descriptor>::Strong, <Self::Descriptor as Descriptor>::Error>)
        ensures
            match r {
                Ok(s) => self.descriptor().project(self.weak()) == Some(*s),
                Err(e) => self.descriptor().project(self.weak()) is None
                    && self.descriptor().is_shape_error(self.weak(), e),
            },
    ;

    /// Borrows the held weak value mutably as its strong shape.
    fn as_strong_mut(&mut self) -> (r: Result<
        &mut <Self::Descriptor as Descriptor>::Strong,
        <Self::Descriptor as Descriptor>::Error,
    >)
        ensures
            match r {
                Ok(s) => old(self).descriptor().project(old(self).weak()) == Some(*s),
                Err(e) => old(self).descriptor().project(old(self).weak()) is None
                    && old(self).descriptor().is_shape_error(old(self).weak(), e)
                    && *final(self) == *old(self),
            },
    ;
}

/// The outcome of testing variants in order.
pub enum Dispatch<E> {
    /// The variant at this position was the first to be accepted.
    Matched(int),
    /// A test failed before any variant was accepted.
    Failed(E),
    /// No variant was accepted.
    Unrecognized,
}

/// Testing the variants keyed `names` from position `from` on, in order,
/// stopping at the first that is accepted or at the first failure.
pub open spec fn dispatch<S, E, N, F: VariantFilter<S, E, N>>(f: F, s: S, names: Seq<N>, from: int) -> Dispatch<E>
    decreases names.len() - from,
{
    if from < 0 || from >= names.len() {
        Dispatch::Unrecognized
    } else {
        match f.accepts(s, names[from]) {
            Err(e) => Dispatch::Failed(e),
            Ok(true) => Dispatch::Matched(from),
            Ok(false) => dispatch(f, s, names, from + 1),
        }
    }
}

/// Determines which variant a strong value is: the variants are tested in
/// declaration order and the first that is accepted wins. A failing test
/// ends the search with its error; where no variant is accepted, the
/// result is the error of an unrecognised value.
pub fn select_variant<S, E: Error, N: Copy, F: VariantFilter<S, E, N>>(filter: &F, strong: &S, names: &[N]) -> (r: Result<usize, E>)
    ensures
        match dispatch(*filter, *strong, names@, 0) {
            Dispatch::Matched(i) => r == Ok::<usize, E>(i as usize),
            Dispatch::Failed(e) => r == Err::<usize, E>(e),
            Dispatch::Unrecognized => r matches Err(e) && e.is_no_variant_recognized(),
        },
{
    let mut i: usize = 0;
    while i < names.len()
        invariant
            i <= names@.len(),
            dispatch(*filter, *strong, names@, 0) == dispatch(*filter, *strong, names@, i as int),
        decreases names@.len() - i,
    {
        match filter.predicate(strong, names[i]) {
            Err(e) => {
                return Err(e);
            },
            Ok(true) => {
                return Ok(i);
            },
            Ok(false) => {},
        }
        i = i + 1;
    }
    Err(E::no_variant_recognized())
}

/// Dispatch follows declaration order: where a variant is selected, every
/// earlier variant was tested and refused, and the selected one accepted;
/// where none is recognised, every variant was tested and refused.
pub proof fn lemma_dispatch_in_order<S, E, N, F: VariantFilter<S, E, N>>(f: F, s: S, names: Seq<N>, from: int)
    requires
        0 <= from <= names.len(),
    ensures
        dispatch(f, s, names, from) matches Dispatch::Matched(i) ==> from <= i < names.len()
            && f.accepts(s, names[i]) == Ok::<bool, E>(true)
            && forall|j: int| from <= j < i ==> f.accepts(s, #[trigger] names[j]) == Ok::<bool, E>(false),
        dispatch(f, s, names, from) matches Dispatch::Failed(e) ==> exists|i: int| from <= i < names.len()
            && f.accepts(s, #[trigger] names[i]) == Err::<bool, E>(e)
            && forall|j: int| from <= j < i ==> f.accepts(s, #[trigger] names[j]) == Ok::<bool, E>(false),
        dispatch(f, s, names, from) is Unrecognized ==> forall|j: int| from <= j < names.len()
            ==> f.accepts(s, #[trigger] names[j]) == Ok::<bool, E>(false),
    decreases names.len() - from,
{
    if from < names.len() {
        lemma_dispatch_in_order(f, s, names, from + 1);
        match f.accepts(s, names[from]) {
            Err(e) => {
                assert(f.accepts(s, names[from]) == Err::<bool, E>(e));
            },
            Ok(true) => {},
            Ok(false) => {
                if let Dispatch::Failed(e) = dispatch(f, s, names, from) {
                    let i = choose|i: int| from + 1 <= i < names.len()
                        && f.accepts(s, #[trigger] names[i]) == Err::<bool, E>(e)
                        && forall|j: int| from + 1 <= j < i ==> f.accepts(s, #[trigger] names[j]) == Ok::<bool, E>(false);
                    assert(forall|j: int| from <= j < i ==> f.accepts(s, #[trigger] names[j]) == Ok::<bool, E>(false));
                }
            },
        }
    }
}

} // verus!

verus! {

/// Borrows the field `name` of a weak value: the value is first projected
/// onto its strong shape, then the field is looked up. This is what a
/// generated getter does. A failed projection gives the descriptor's shape
/// error; a missing field the field access's own error.
pub fn field_get<'a, D, T, N>(d: &D, weak: &'a D::Weak, name: N) -> (r: Result<&'a T, D::Error>)
    where
        D: Descriptor + FieldAccess<D::Strong, D::Error, T, N>,
        D::Strong: 'a,
        T: 'a,
    ensures
        d.project(*weak) is None ==> (r matches Err(e) && d.is_shape_error(*weak, e)),
        d.project(*weak) matches Some(s) ==> (r is Ok <==> <D as FieldAccess<D::Strong, D::Error, T, N>>::field(d, s, name) is Some)
            && (r matches Ok(t) ==> <D as FieldAccess<D::Strong, D::Error, T, N>>::field(d, s, name) == Some(*t))
            && (r matches Err(e) ==> <D as FieldAccess<D::Strong, D::Error, T, N>>::is_access_error(d, s, name, e)),
{
    let strong = d.strong(weak)?;
    FieldAccess::get(d, strong, name)
}

/// Borrows the field `name` of a weak value mutably. This is what a
/// generated mutable getter does.
pub fn field_get_mut<'a, D, T, N>(d: &D, weak: &'a mut D::Weak, name: N) -> (r: Result<&'a mut T, D::Error>)
    where
        D: Descriptor + FieldAccess<D::Strong, D::Error, T, N>,
        D::Strong: 'a,
        T: 'a,
    ensures
        d.project(*old(weak)) is None ==> (r matches Err(e) && d.is_shape_error(*old(weak), e))
            && *final(weak) == *old(weak),
        d.project(*old(weak)) matches Some(s) ==> (r is Ok <==> <D as FieldAccess<D::Strong, D::Error, T, N>>::field(d, s, name) is Some)
            && (r matches Ok(t) ==> <D as FieldAccess<D::Strong, D::Error, T, N>>::field(d, s, name) == Some(*t))
            && (r matches Err(e) ==> <D as FieldAccess<D::Strong, D::Error, T, N>>::is_access_error(d, s, name, e)),
{
    let strong = d.strong_mut(weak)?;
    FieldAccess::get_mut(d, strong, name)
}

/// Writes the field `name` of a weak value. This is what a generated setter
/// does.
pub fn field_set<D, T, N>(d: &D, weak: &mut D::Weak, name: N, value: T) -> (r: Result<(), D::Error>)
    where
        D: Descriptor + FieldAccess<D::Strong, D::Error, T, N>,
    ensures
        d.project(*old(weak)) is None ==> (r matches Err(e) && d.is_shape_error(*old(weak), e))
            && *final(weak) == *old(weak),
        d.project(*old(weak)) matches Some(s) ==> (r matches Err(e) ==> <D as FieldAccess<D::Strong, D::Error, T, N>>::is_access_error(d, s, name, e)),
        r is Ok ==> exists|s: D::Strong| *final(weak) == d.embed(s)
            && <D as FieldAccess<D::Strong, D::Error, T, N>>::field(d, s, name) == Some(value),
{
    let strong = d.strong_mut(weak)?;
    FieldAccess::set(d, strong, name, value)
}

/// Writes the field `name` of a weak value and hands back the new slot and
/// the value it replaced, if the field was there. This is what a generated
/// insert method does.
pub fn field_insert<'a, D, T, N>(d: &D, weak: &'a mut D::Weak, name: N, value: T) -> (r: Result<(&'a mut T, Option<T>), D::Error>)
    where
        D: Descriptor + FieldAccess<D::Strong, D::Error, T, N>,
        D::Strong: 'a,
        T: 'a,
    ensures
        d.project(*old(weak)) is None ==> (r matches Err(e) && d.is_shape_error(*old(weak), e))
            && *final(weak) == *old(weak),
        d.project(*old(weak)) matches Some(s) ==> (r matches Ok((slot, prev)) ==> *slot == value
            && prev == <D as FieldAccess<D::Strong, D::Error, T, N>>::field(d, s, name))
            && (r matches Err(e) ==> <D as FieldAccess<D::Strong, D::Error, T, N>>::is_access_error(d, s, name, e)),
{
    let strong = d.strong_mut(weak)?;
    FieldAccess::insert(d, strong, name, value)
}

/// Borrows the union field `name` of a weak value, or nothing where another
/// field is active. This is what a generated union getter does.
pub fn union_field_get<'a, D, T, N>(d: &D, weak: &'a D::Weak, name: N) -> (r: Result<Option<&'a T>, D::Error>)
    where
        D: Descriptor + UnionFieldAccess<D::Strong, D::Error, T, N>,
        D::Strong: 'a,
        T: 'a,
    ensures
        d.project(*weak) is None ==> (r matches Err(e) && d.is_shape_error(*weak, e)),
        d.project(*weak) matches Some(s) ==> (r matches Ok(o) ==> (o is Some <==> <D as UnionFieldAccess<D::Strong, D::Error, T, N>>::field(d, s, name) is Some))
            && (r matches Ok(Some(t)) ==> <D as UnionFieldAccess<D::Strong, D::Error, T, N>>::field(d, s, name) == Some(*t))
            && (r matches Err(e) ==> <D as UnionFieldAccess<D::Strong, D::Error, T, N>>::is_access_error(d, s, name, e)),
{
    let strong = d.strong(weak)?;
    UnionFieldAccess::get(d, strong, name)
}

/// Borrows the union field `name` of a weak value mutably, or nothing where
/// another field is active.
pub fn union_field_get_mut<'a, D, T, N>(d: &D, weak: &'a mut D::Weak, name: N) -> (r: Result<Option<&'a mut T>, D::Error>)
    where
        D: Descriptor + UnionFieldAccess<D::Strong, D::Error, T, N>,
        D::Strong: 'a,
        T: 'a,
    ensures
        d.project(*old(weak)) is None ==> (r matches Err(e) && d.is_shape_error(*old(weak), e))
            && *final(weak) == *old(weak),
        d.project(*old(weak)) matches Some(s) ==> (r matches Ok(o) ==> (o is Some <==> <D as UnionFieldAccess<D::Strong, D::Error, T, N>>::field(d, s, name) is Some))
            && (r matches Ok(Some(t)) ==> <D as UnionFieldAccess<D::Strong, D::Error, T, N>>::field(d, s, name) == Some(*t))
            && (r matches Err(e) ==> <D as UnionFieldAccess<D::Strong, D::Error, T, N>>::is_access_error(d, s, name, e)),
{
    let strong = d.strong_mut(weak)?;
    UnionFieldAccess::get_mut(d, strong, name)
}

/// Writes the union field `name` of a weak value, making it the active one.
pub fn union_field_set<D, T, N>(d: &D, weak: &mut D::Weak, name: N, value: T) -> (r: Result<(), D::Error>)
    where
        D: Descriptor + UnionFieldAccess<D::Strong, D::Error, T, N>,
    ensures
        d.project(*old(weak)) is None ==> (r matches Err(e) && d.is_shape_error(*old(weak), e))
            && *final(weak) == *old(weak),
        d.project(*old(weak)) matches Some(s) ==> (r matches Err(e) ==> <D as UnionFieldAccess<D::Strong, D::Error, T, N>>::is_access_error(d, s, name, e)),
        r is Ok ==> exists|s: D::Strong| *final(weak) == d.embed(s)
            && <D as UnionFieldAccess<D::Strong, D::Error, T, N>>::field(d, s, name) == Some(value),
{
    let strong = d.strong_mut(weak)?;
    UnionFieldAccess::set(d, strong, name, value)
}

/// Writes the union field `name` of a weak value and hands back the new
/// slot and the value it replaced, if there was one.
pub fn union_field_insert<'a, D, T, N>(d: &D, weak: &'a mut D::Weak, name: N, value: T) -> (r: Result<(&'a mut T, Option<T>), D::Error>)
    where
        D: Descriptor + UnionFieldAccess<D::Strong, D::Error, T, N>,
        D::Strong: 'a,
        T: 'a,
    ensures
        d.project(*old(weak)) is None ==> (r matches Err(e) && d.is_shape_error(*old(weak), e))
            && *final(weak) == *old(weak),
        d.project(*old(weak)) matches Some(s) ==> (r matches Ok((slot, prev)) ==> *slot == value
            && prev == <D as UnionFieldAccess<D::Strong, D::Error, T, N>>::field(d, s, name))
            && (r matches Err(e) ==> <D as UnionFieldAccess<D::Strong, D::Error, T, N>>::is_access_error(d, s, name, e)),
{
    let strong = d.strong_mut(weak)?;
    UnionFieldAccess::insert(d, strong, name, value)
}

/// Determines which variant a weak value is, by its strong shape: the
/// variants keyed `names` are tested in declaration order and the first
/// that is accepted wins. A failed projection gives the descriptor's shape
/// error.
pub fn variant_of_weak<D, N: Copy>(d: &D, weak: &D::Weak, names: &[N]) -> (r: Result<usize, D::Error>)
    where
        D: Descriptor + VariantFilter<D::Strong, D::Error, N>,
    ensures
        d.project(*weak) is None ==> (r matches Err(e) && d.is_shape_error(*weak, e)),
        d.project(*weak) matches Some(s) ==> match dispatch(*d, s, names@, 0) {
            Dispatch::Matched(i) => r == Ok::<usize, D::Error>(i as usize),
            Dispatch::Failed(e) => r == Err::<usize, D::Error>(e),
            Dispatch::Unrecognized => r matches Err(e) && e.is_no_variant_recognized(),
        },
{
    let strong = d.strong(weak)?;
    select_variant(d, strong, names)
}

} // verus!
