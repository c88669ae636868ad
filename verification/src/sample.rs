use vstd::prelude::*;

use crate::GenericEnum;

verus! {

/// A small message family, written out in full as the synthesizer
/// prescribes, one method set per classified field: message `A` holds two
/// optional message fields, a repeated message field, an enumerated
/// field, a scalar field, a text field and a byte field; message `B`
/// holds one scalar field; `E` is a two-valued enumeration.
///
/// The methods here realize the accessor shapes that `classify` and
/// `accessor_kinds` assign to those fields, and carry the contracts that
/// every realization of a shape must meet.
#[derive(Clone, Copy, PartialEq, Eq, Structural, Debug)]
pub struct B {
    pub b: u64,
}

impl B {
    /// The canonical zero value of `B`.
    pub open spec fn spec_default() -> B {
        B { b: 0 }
    }

    /// The canonical default instance: every call returns the one
    /// zero-valued `B`, equal to a freshly constructed default.
    pub fn default_instance() -> (r: B)
        ensures
            r == B::spec_default(),
    {
        B { b: 0 }
    }

    /// Store the scalar field.
    pub fn set_b(&mut self, value: u64)
        ensures
            *final(self) == (B { b: value }),
    {
        self.b = value;
    }

    /// Read the scalar field by copy.
    pub fn get_b(&self) -> (r: u64)
        ensures
            r == self.b,
    {
        self.b
    }
}

impl Default for B {
    fn default() -> (r: B)
        ensures
            r == B::spec_default(),
    {
        B { b: 0 }
    }
}

/// A two-valued enumeration; its values number 0 and 1 in declaration
/// order.
#[derive(Clone, Copy, PartialEq, Eq, Structural, Debug)]
pub enum E {
    T,
    C,
}

impl E {
    /// The integer number of a value.
    pub open spec fn spec_number(self) -> i32 {
        match self {
            E::T => 0,
            E::C => 1,
        }
    }

    /// The value a stored integer decodes to, if any.
    pub open spec fn spec_from_i32(i: i32) -> Option<E> {
        if i == 0 {
            Some(E::T)
        } else if i == 1 {
            Some(E::C)
        } else {
            None
        }
    }

    /// The integer number of a value.
    pub fn number(self) -> (r: i32)
        ensures
            r == self.spec_number(),
    {
        match self {
            E::T => 0,
            E::C => 1,
        }
    }

    /// Decode a stored integer: exactly the integers 0 and 1 decode, to
    /// the values they number.
    pub fn from_i32(i: i32) -> (r: Option<E>)
        ensures
            r == E::spec_from_i32(i),
    {
        match i {
            0 => Some(E::T),
            1 => Some(E::C),
            _ => None,
        }
    }
}

impl Default for E {
    fn default() -> (r: E)
        ensures
            r == E::T,
    {
        E::T
    }
}

impl GenericEnum for E {
    open spec fn spec_values() -> Seq<E> {
        seq![E::T, E::C]
    }

    fn values() -> (r: Vec<E>) {
        let mut v: Vec<E> = Vec::new();
        v.push(E::T);
        v.push(E::C);
        assert(v@ =~= Self::spec_values());
        v
    }
}

/// A stored enumeration integer that decodes to no declared value.
#[derive(Clone, Copy, PartialEq, Eq, Structural, Debug)]
pub struct EnumValueError {
    pub value: i32,
}

/// A message with one field of every accessor shape.
#[derive(Debug)]
pub struct A {
    pub b1: Option<B>,
    pub b2: Option<B>,
    pub b3: Vec<B>,
    pub e: i32,
    pub notify_only: bool,
    pub cf: String,
    pub key: Vec<u8>,
}

impl A {
    /// Every field holds its zero or empty value.
    pub open spec fn is_default(self) -> bool {
        &&& self.b1 is None
        &&& self.b2 is None
        &&& self.b3@ == Seq::<B>::empty()
        &&& self.e == 0
        &&& self.notify_only == false
        &&& self.cf@ == Seq::<char>::empty()
        &&& self.key@ == Seq::<u8>::empty()
    }

    /// What `get` reads from an optional message field: the stored value,
    /// or the canonical default when the field is empty.
    pub open spec fn b1_read(self) -> B {
        match self.b1 {
            Some(v) => v,
            None => B::spec_default(),
        }
    }

    /// The `b2` counterpart of [`A::b1_read`].
    pub open spec fn b2_read(self) -> B {
        match self.b2 {
            Some(v) => v,
            None => B::spec_default(),
        }
    }

    /// What `get_e` decodes from the stored enumeration integer.
    pub open spec fn e_decoded(self) -> Result<E, EnumValueError> {
        match E::spec_from_i32(self.e) {
            Some(v) => Ok(v),
            None => Err(EnumValueError { value: self.e }),
        }
    }

    /// The canonical default instance: every call returns a value equal
    /// to a freshly constructed default, every field at its zero or
    /// empty value.
    pub fn default_instance() -> (r: A)
        ensures
            r.is_default(),
    {
        A {
            b1: None,
            b2: None,
            b3: Vec::new(),
            e: 0,
            notify_only: false,
            cf: String::new(),
            key: Vec::new(),
        }
    }

    /// Store a whole value in the optional message field `b1`.
    pub fn set_b1(&mut self, value: B)
        ensures
            *final(self) == (A { b1: Some(value), ..*old(self) }),
    {
        self.b1 = Some(value);
    }

    /// Read `b1`; an empty field reads as the canonical default.
    pub fn get_b1(&self) -> (r: B)
        ensures
            r == self.b1_read(),
    {
        match self.b1 {
            Some(v) => v,
            None => B::default_instance(),
        }
    }

    /// Borrow `b1` mutably, first materializing the default when the
    /// field is empty. The materialization is an observable mutation:
    /// after the call the field holds a value.
    pub fn mut_b1(&mut self) -> (r: &mut B)
        ensures
            *r == old(self).b1_read(),
            *final(self) == (A { b1: Some(*final(r)), ..*old(self) }),
    {
        self.b1.get_or_insert(B::default_instance())
    }

    /// Move `b1` out, resetting the field to empty; an empty field yields
    /// the canonical default.
    pub fn take_b1(&mut self) -> (r: B)
        ensures
            r == old(self).b1_read(),
            *final(self) == (A { b1: None, ..*old(self) }),
    {
        match self.b1 {
            Some(v) => {
                self.b1 = None;
                v
            },
            None => B::default_instance(),
        }
    }

    /// Whether `b1` holds a value.
    pub fn has_b1(&self) -> (r: bool)
        ensures
            r == (self.b1 is Some),
    {
        self.b1.is_some()
    }

    /// Store a whole value in the optional message field `b2`.
    pub fn set_b2(&mut self, value: B)
        ensures
            *final(self) == (A { b2: Some(value), ..*old(self) }),
    {
        self.b2 = Some(value);
    }

    /// Read `b2`; an empty field reads as the canonical default.
    pub fn get_b2(&self) -> (r: B)
        ensures
            r == self.b2_read(),
    {
        match self.b2 {
            Some(v) => v,
            None => B::default_instance(),
        }
    }

    /// Borrow `b2` mutably, first materializing the default when the
    /// field is empty.
    pub fn mut_b2(&mut self) -> (r: &mut B)
        ensures
            *r == old(self).b2_read(),
            *final(self) == (A { b2: Some(*final(r)), ..*old(self) }),
    {
        self.b2.get_or_insert(B::default_instance())
    }

    /// Move `b2` out, resetting the field to empty.
    pub fn take_b2(&mut self) -> (r: B)
        ensures
            r == old(self).b2_read(),
            *final(self) == (A { b2: None, ..*old(self) }),
    {
        match self.b2 {
            Some(v) => {
                self.b2 = None;
                v
            },
            None => B::default_instance(),
        }
    }

    /// Whether `b2` holds a value.
    pub fn has_b2(&self) -> (r: bool)
        ensures
            r == (self.b2 is Some),
    {
        self.b2.is_some()
    }

    /// Store the whole list of the repeated field `b3`.
    pub fn set_b3(&mut self, value: Vec<B>)
        ensures
            *final(self) == (A { b3: value, ..*old(self) }),
    {
        self.b3 = value;
    }

    /// Read the repeated field `b3` as a read-only view of the list.
    pub fn get_b3(&self) -> (r: &[B])
        ensures
            r@ == self.b3@,
    {
        self.b3.as_slice()
    }

    /// Borrow the list of the repeated field `b3` mutably.
    pub fn mut_b3(&mut self) -> (r: &mut Vec<B>)
        ensures
            *r == old(self).b3,
            *final(self) == (A { b3: *final(r), ..*old(self) }),
    {
        &mut self.b3
    }

    /// Move the list of `b3` out, resetting the field to an empty list.
    pub fn take_b3(&mut self) -> (r: Vec<B>)
        ensures
            r == old(self).b3,
            *final(self) == (A { b3: final(self).b3, ..*old(self) }),
            final(self).b3@ == Seq::<B>::empty(),
    {
        let mut tmp: Vec<B> = Vec::new();
        core::mem::swap(&mut self.b3, &mut tmp);
        tmp
    }

    /// Decode the enumerated field: the declared value the stored integer
    /// numbers, or the invalid-value error naming the stored integer.
    pub fn get_e(&self) -> (r: Result<E, EnumValueError>)
        ensures
            r == self.e_decoded(),
    {
        match E::from_i32(self.e) {
            Some(v) => Ok(v),
            None => Err(EnumValueError { value: self.e }),
        }
    }

    /// Store a declared value's integer number in the enumerated field.
    pub fn set_e(&mut self, value: E)
        ensures
            *final(self) == (A { e: value.spec_number(), ..*old(self) }),
    {
        self.e = value.number();
    }

    /// Store the scalar field.
    pub fn set_notify_only(&mut self, value: bool)
        ensures
            *final(self) == (A { notify_only: value, ..*old(self) }),
    {
        self.notify_only = value;
    }

    /// Read the scalar field by copy.
    pub fn get_notify_only(&self) -> (r: bool)
        ensures
            r == self.notify_only,
    {
        self.notify_only
    }

    /// Store the text field.
    pub fn set_cf(&mut self, value: String)
        ensures
            *final(self) == (A { cf: value, ..*old(self) }),
    {
        self.cf = value;
    }

    /// Read the text field as a borrowed text view.
    pub fn get_cf(&self) -> (r: &str)
        ensures
            r@ == self.cf@,
    {
        self.cf.as_str()
    }

    /// Move the text out, resetting the field to empty text.
    pub fn take_cf(&mut self) -> (r: String)
        ensures
            r == old(self).cf,
            *final(self) == (A { cf: final(self).cf, ..*old(self) }),
            final(self).cf@ == Seq::<char>::empty(),
    {
        let mut tmp = String::new();
        core::mem::swap(&mut self.cf, &mut tmp);
        tmp
    }

    /// Store the byte field.
    pub fn set_key(&mut self, value: Vec<u8>)
        ensures
            *final(self) == (A { key: value, ..*old(self) }),
    {
        self.key = value;
    }

    /// Read the byte field as a read-only view.
    pub fn get_key(&self) -> (r: &[u8])
        ensures
            r@ == self.key@,
    {
        self.key.as_slice()
    }

    /// Move the bytes out, resetting the field to an empty sequence.
    pub fn take_key(&mut self) -> (r: Vec<u8>)
        ensures
            r == old(self).key,
            *final(self) == (A { key: final(self).key, ..*old(self) }),
            final(self).key@ == Seq::<u8>::empty(),
    {
        let mut tmp: Vec<u8> = Vec::new();
        core::mem::swap(&mut self.key, &mut tmp);
        tmp
    }
}

impl Default for A {
    /// A fresh instance: every field at its zero or empty value, equal by
    /// value to the canonical default instance.
    fn default() -> (r: A)
        ensures
            r.is_default(),
    {
        A::default_instance()
    }
}

/// The value registry is stable: `values` always returns the one fixed
/// sequence of declared values, in declaration order, with one entry per
/// declared value.
pub proof fn lemma_enum_registry_stable()
    ensures
        E::spec_values() == seq![E::T, E::C],
        E::spec_values().len() == 2,
{
}

/// The default instance is canonical: every call of `default_instance`
/// yields the one zero-valued `B`, equal by value to a freshly
/// constructed default.
pub proof fn lemma_default_instance_canonical()
    ensures
        B::spec_default() == (B { b: 0 }),
{
}

/// An optional message field, before any mutation, reads as the default
/// instance; after `set(v)` it reads as `v`; `take` after `set(v)` yields
/// `v` and leaves the field reading as the default again.
pub proof fn lemma_optional_message_accessors(a: A, v: B)
    ensures
        a.is_default() ==> a.b1_read() == B::spec_default(),
        (A { b1: Some(v), ..a }).b1_read() == v,
        (A { b1: None, ..(A { b1: Some(v), ..a }) }).b1_read() == B::spec_default(),
{
}

/// A repeated field on a fresh instance is the empty list; after
/// `set(xs)` it reads as exactly `xs`, in order, and `take` yields it
/// while the reset field reads empty again.
pub proof fn lemma_repeated_accessors(a: A, xs: Vec<B>)
    ensures
        a.is_default() ==> a.b3@ == Seq::<B>::empty(),
        (A { b3: xs, ..a }).b3 == xs,
        (A { b3: xs, ..a }).b3@ == xs@,
{
}

/// An enumerated field reads back exactly the value stored into it, and
/// every integer that numbers no declared value decodes to the
/// invalid-value error, never to a silent default.
pub proof fn lemma_enumeration_accessors(a: A, v: E, i: i32)
    ensures
        (A { e: v.spec_number(), ..a }).e_decoded() == Ok::<E, EnumValueError>(v),
        (E::spec_from_i32(i) is None) <==> (i != 0 && i != 1),
        E::spec_from_i32(i) is None ==> (A { e: i, ..a }).e_decoded() == Err::<E, EnumValueError>(
            EnumValueError { value: i },
        ),
{
}

} // verus!
