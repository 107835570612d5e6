//! A descriptor for weak values that are string-keyed maps: the strong
//! shape of a weak value is the map it holds, and fields are entries.
use vstd::prelude::*;
use crate::runtime::{Descriptor, Error, FieldAccess, VariantFilter};
use crate::tokens::str_eq;

verus! {

/// A map from field names to values, in insertion order.
#[derive(Debug, PartialEq, Eq)]
pub struct ObjectMap<V> {
    pub entries: Vec<(String, V)>,
}

/// A loosely typed value: nothing, a plain value, or a map of them.
#[derive(Debug, PartialEq, Eq)]
pub enum Loose<V> {
    Null,
    Scalar(V),
    Object(ObjectMap<V>),
}

/// What can go wrong when reading a loose value as a map.
#[derive(Debug, PartialEq, Eq)]
pub enum ObjectError {
    /// The weak value is not a map.
    ExpectedObject,
    /// The map has no entry of this name.
    MissingField(String),
    /// No variant recognised the map.
    NoVariantRecognized,
}

impl Error for ObjectError {
    open spec fn is_no_variant_recognized(&self) -> bool {
        self is NoVariantRecognized
    }

    fn no_variant_recognized() -> (r: ObjectError) {
        ObjectError::NoVariantRecognized
    }
}

/// The position of the first entry named `name`, if any.
pub open spec fn find_entry<V>(es: Seq<(String, V)>, name: Seq<char>) -> Option<int>
    decreases es.len(),
{
    if es.len() == 0 {
        None
    } else {
        match find_entry(es.drop_last(), name) {
            Some(i) => Some(i),
            None => if es.last().0@ == name { Some(es.len() - 1) } else { None },
        }
    }
}

/// The value of the entry named `name`, if any.
pub open spec fn lookup<V>(m: ObjectMap<V>, name: Seq<char>) -> Option<V> {
    match find_entry(m.entries@, name) {
        Some(i) => Some(m.entries@[i].1),
        None => None,
    }
}

proof fn lemma_find_entry<V>(es: Seq<(String, V)>, name: Seq<char>)
    ensures
        match find_entry(es, name) {
            Some(i) => 0 <= i < es.len() && es[i].0@ == name && forall|j: int| 0 <= j < i ==> (#[trigger] es[j]).0@ != name,
            None => forall|j: int| 0 <= j < es.len() ==> (#[trigger] es[j]).0@ != name,
        },
    decreases es.len(),
{
    if es.len() > 0 {
        lemma_find_entry(es.drop_last(), name);
        assert(forall|j: int| 0 <= j < es.len() - 1 ==> es.drop_last()[j] == es[j]);
    }
}

proof fn lemma_find_entry_unique<V>(es: Seq<(String, V)>, name: Seq<char>, i: int)
    requires
        0 <= i < es.len(),
        es[i].0@ == name,
        forall|j: int| 0 <= j < i ==> (#[trigger] es[j]).0@ != name,
    ensures
        find_entry(es, name) == Some(i),
{
    lemma_find_entry(es, name);
}

proof fn lemma_find_entry_update<V>(es: Seq<(String, V)>, name: Seq<char>, i: int, v: V)
    requires
        find_entry(es, name) == Some(i),
    ensures
        find_entry(es.update(i, (es[i].0, v)), name) == Some(i),
{
    lemma_find_entry(es, name);
    let es2 = es.update(i, (es[i].0, v));
    assert forall|j: int| 0 <= j < i implies (#[trigger] es2[j]).0@ != name by {
        assert(es2[j] == es[j]);
    }
    lemma_find_entry_unique(es2, name, i);
}

proof fn lemma_find_entry_update_any<V>(es: Seq<(String, V)>, name: Seq<char>, i: int)
    requires
        find_entry(es, name) == Some(i),
    ensures
        forall|v: V| #[trigger] find_entry(es.update(i, (es[i].0, v)), name) == Some(i),
{
    assert forall|v: V| #[trigger] find_entry(es.update(i, (es[i].0, v)), name) == Some(i) by {
        lemma_find_entry_update(es, name, i, v);
    }
}

proof fn lemma_find_entry_push<V>(es: Seq<(String, V)>, name: Seq<char>, k: String, v: V)
    requires
        find_entry(es, name) is None,
        k@ == name,
    ensures
        find_entry(es.push((k, v)), name) == Some(es.len() as int),
{
    assert(es.push((k, v)).drop_last() =~= es);
}

/// The position of the first entry named `name`, if any.
fn position<V>(m: &ObjectMap<V>, name: &str) -> (r: Option<usize>)
    ensures
        match r {
            Some(i) => i < m.entries@.len() && find_entry(m.entries@, name@) == Some(i as int),
            None => find_entry(m.entries@, name@) is None,
        },
{
    let mut i: usize = 0;
    while i < m.entries.len()
        invariant
            i <= m.entries@.len(),
            forall|j: int| 0 <= j < i ==> (#[trigger] m.entries@[j]).0@ != name@,
        decreases m.entries@.len() - i,
    {
        if str_eq(m.entries[i].0.as_str(), name) {
            proof { lemma_find_entry_unique(m.entries@, name@, i as int); }
            return Some(i);
        }
        i = i + 1;
    }
    proof { lemma_find_entry(m.entries@, name@); }
    None
}

fn missing(name: &str) -> (r: ObjectError)
    ensures
        r matches ObjectError::MissingField(n) && n@ == name@,
{
    ObjectError::MissingField(String::from_str(name))
}

/// The descriptor of loose values whose strong shape is a map.
pub struct ObjectDescriptor<V> {
    marker: core::marker::PhantomData<V>,
}

impl<V> ObjectDescriptor<V> {
    pub fn new() -> Self {
        ObjectDescriptor { marker: core::marker::PhantomData }
    }
}

impl<V> Descriptor for ObjectDescriptor<V> {
    type Weak = Loose<V>;
    type Strong = ObjectMap<V>;
    type Error = ObjectError;

    open spec fn project(&self, weak: Loose<V>) -> Option<ObjectMap<V>> {
        match weak {
            Loose::Object(m) => Some(m),
            _ => None,
        }
    }

    open spec fn embed(&self, strong: ObjectMap<V>) -> Loose<V> {
        Loose::Object(strong)
    }

    open spec fn is_shape_error(&self, weak: Loose<V>, e: ObjectError) -> bool {
        e is ExpectedObject
    }

    fn strong<'a>(&self, weak: &'a Loose<V>) -> (r: Result<&'a ObjectMap<V>, ObjectError>)
        ensures
            r matches Err(e) ==> e is ExpectedObject,
    {
        match weak {
            Loose::Object(m) => Ok(m),
            _ => Err(ObjectError::ExpectedObject),
        }
    }

    fn strong_mut<'a>(&self, weak: &'a mut Loose<V>) -> (r: Result<&'a mut ObjectMap<V>, ObjectError>)
        ensures
            r matches Err(e) ==> e is ExpectedObject && *final(weak) == *old(weak),
            r matches Ok(s) ==> *final(weak) == Loose::Object(*final(s)),
    {
        match weak {
            Loose::Object(m) => Ok(m),
            _ => Err(ObjectError::ExpectedObject),
        }
    }

    fn strong_into_weak(&self, strong: ObjectMap<V>) -> (r: Loose<V>) {
        Loose::Object(strong)
    }

    fn try_weak_into_strong(&self, weak: Loose<V>) -> (r: Result<ObjectMap<V>, ObjectError>) {
        match weak {
            Loose::Object(m) => Ok(m),
            _ => Err(ObjectError::ExpectedObject),
        }
    }
}

/// The map descriptor's conversions undo each other.
pub proof fn lemma_object_conversions_invert<V>(d: ObjectDescriptor<V>)
    ensures
        crate::runtime::conversions_invert(d),
{
}

impl<'n, V> FieldAccess<ObjectMap<V>, ObjectError, V, &'n str> for ObjectDescriptor<V> {
    open spec fn field(&self, strong: ObjectMap<V>, name: &'n str) -> Option<V> {
        lookup(strong, name@)
    }

    open spec fn is_access_error(&self, strong: ObjectMap<V>, name: &'n str, e: ObjectError) -> bool {
        e matches ObjectError::MissingField(n) && n@ == name@
    }

    fn get<'a>(&self, strong: &'a ObjectMap<V>, name: &'n str) -> (r: Result<&'a V, ObjectError>)
        ensures
            r is Ok <==> lookup(*strong, name@) is Some,
            r matches Err(e) ==> e matches ObjectError::MissingField(n) && n@ == name@,
    {
        match position(strong, name) {
            Some(i) => Ok(&strong.entries[i].1),
            None => Err(missing(name)),
        }
    }

    fn get_mut<'a>(&self, strong: &'a mut ObjectMap<V>, name: &'n str) -> (r: Result<&'a mut V, ObjectError>)
        ensures
            r is Ok <==> lookup(*old(strong), name@) is Some,
            r matches Err(e) ==> e matches ObjectError::MissingField(n) && n@ == name@,
            r matches Ok(t) ==> lookup(*final(strong), name@) == Some(*final(t)),
    {
        match position(strong, name) {
            Some(i) => {
                proof { lemma_find_entry_update_any(strong.entries@, name@, i as int); }
                Ok(&mut strong.entries[i].1)
            },
            None => Err(missing(name)),
        }
    }

    fn set(&self, strong: &mut ObjectMap<V>, name: &'n str, value: V) -> (r: Result<(), ObjectError>)
        ensures
            r is Ok,
    {
        match position(strong, name) {
            Some(i) => {
                let ghost es = strong.entries@;
                let mut v = value;
                core::mem::swap(&mut strong.entries[i].1, &mut v);
                proof { lemma_find_entry_update(es, name@, i as int, value); }
                assert(strong.entries@ =~= es.update(i as int, (es[i as int].0, value)));
            },
            None => {
                let ghost es = strong.entries@;
                let k = String::from_str(name);
                strong.entries.push((k, value));
                proof { lemma_find_entry_push(es, name@, k, value); }
            },
        }
        Ok(())
    }

    fn insert<'a>(&self, strong: &'a mut ObjectMap<V>, name: &'n str, value: V) -> (r: Result<(&'a mut V, Option<V>), ObjectError>)
        ensures
            r is Ok,
            r matches Ok((slot, _)) ==> lookup(*final(strong), name@) == Some(*final(slot)),
    {
        match position(strong, name) {
            Some(i) => {
                let mut v = value;
                core::mem::swap(&mut strong.entries[i].1, &mut v);
                proof {
                    lemma_find_entry_update(old(strong).entries@, name@, i as int, value);
                    lemma_find_entry_update_any(strong.entries@, name@, i as int);
                }
                Ok((&mut strong.entries[i].1, Some(v)))
            },
            None => {
                let ghost es = strong.entries@;
                let k = String::from_str(name);
                strong.entries.push((k, value));
                let last = strong.entries.len() - 1;
                proof {
                    lemma_find_entry_push(es, name@, k, value);
                    lemma_find_entry_update_any(strong.entries@, name@, last as int);
                }
                Ok((&mut strong.entries[last].1, None))
            },
        }
    }
}

/// Variants of an externally tagged map: the variant keyed `name` is
/// accepted where the map has an entry of that name.
impl<'n, V> VariantFilter<ObjectMap<V>, ObjectError, &'n str> for ObjectDescriptor<V> {
    open spec fn accepts(&self, strong: ObjectMap<V>, name: &'n str) -> Result<bool, ObjectError> {
        Ok(lookup(strong, name@) is Some)
    }

    fn predicate(&self, strong: &ObjectMap<V>, name: &'n str) -> (r: Result<bool, ObjectError>) {
        Ok(position(strong, name).is_some())
    }
}

} // verus!
