use vstd::prelude::*;

use vstd::string::StringExecFns;

use crate::classify::{Cardinality, FieldClass, FieldClassView, FieldKind, FieldKindView};

verus! {

/// One method of an accessor set.
#[derive(Clone, Copy, PartialEq, Eq, Structural, Debug)]
pub enum AccessorKind {
    /// `set_<field>`: store a whole value.
    Setter,
    /// `get_<field>`: read the value, absent values falling back to a default.
    Getter,
    /// `mut_<field>`: borrow the value mutably, materializing a default first
    /// when the field is empty.
    Mutator,
    /// `take_<field>`: move the value out, resetting the field to empty.
    Taker,
    /// `has_<field>`: whether a value is present.
    Presence,
}

/// The method-name prefix of one accessor.
pub open spec fn accessor_prefix(k: AccessorKind) -> Seq<char> {
    match k {
        AccessorKind::Setter => "set_"@,
        AccessorKind::Getter => "get_"@,
        AccessorKind::Mutator => "mut_"@,
        AccessorKind::Taker => "take_"@,
        AccessorKind::Presence => "has_"@,
    }
}

/// The fixed method set of one accessor shape, in emission order.
///
/// An enumerated field keeps the enumeration shape whatever its
/// cardinality (the observed accessor shapes give only singular
/// enumeration accessors); otherwise a repeated field takes the list
/// shape, and a singular field takes the shape of its kind.
pub open spec fn accessor_shape(c: FieldClassView) -> Seq<AccessorKind> {
    match c.kind {
        FieldKindView::Enumeration(_) => seq![AccessorKind::Getter, AccessorKind::Setter],
        _ => {
            if c.cardinality is Repeated {
                seq![AccessorKind::Setter, AccessorKind::Getter, AccessorKind::Mutator, AccessorKind::Taker]
            } else {
                match c.kind {
                    FieldKindView::MessageValue => seq![
                        AccessorKind::Setter,
                        AccessorKind::Getter,
                        AccessorKind::Mutator,
                        AccessorKind::Taker,
                        AccessorKind::Presence,
                    ],
                    FieldKindView::Scalar => seq![AccessorKind::Setter, AccessorKind::Getter],
                    FieldKindView::Text => seq![
                        AccessorKind::Setter,
                        AccessorKind::Getter,
                        AccessorKind::Taker,
                    ],
                    FieldKindView::Bytes => seq![
                        AccessorKind::Setter,
                        AccessorKind::Getter,
                        AccessorKind::Taker,
                    ],
                    FieldKindView::Enumeration(_) => seq![],
                }
            }
        },
    }
}

/// One synthesized method: its full name and its accessor shape.
#[derive(Debug)]
pub struct AccessorMethod {
    pub name: String,
    pub shape: AccessorKind,
}

/// The mathematical value of an `AccessorMethod`.
pub ghost struct AccessorMethodView {
    pub name: Seq<char>,
    pub shape: AccessorKind,
}

impl View for AccessorMethod {
    type V = AccessorMethodView;

    open spec fn view(&self) -> AccessorMethodView {
        AccessorMethodView { name: self.name@, shape: self.shape }
    }
}

/// The mathematical values of a method list.
pub open spec fn method_views(ms: Seq<AccessorMethod>) -> Seq<AccessorMethodView> {
    ms.map_values(|m: AccessorMethod| m@)
}

/// The full method set synthesized for one field: the shape's methods,
/// each named by its prefix joined to the field name.
pub open spec fn field_method_views(name: Seq<char>, c: FieldClassView) -> Seq<AccessorMethodView> {
    accessor_shape(c).map_values(
        |k: AccessorKind| AccessorMethodView { name: accessor_prefix(k) + name, shape: k },
    )
}

/// Join a method-name prefix to a field name.
fn prefixed(prefix: &str, field: &str) -> (r: String)
    ensures
        r@ == prefix@ + field@,
{
    prefix.to_owned().concat(field)
}

/// The full name of one accessor of a field.
fn method_name(shape: AccessorKind, field: &str) -> (r: String)
    ensures
        r@ == accessor_prefix(shape) + field@,
{
    match shape {
        AccessorKind::Setter => prefixed("set_", field),
        AccessorKind::Getter => prefixed("get_", field),
        AccessorKind::Mutator => prefixed("mut_", field),
        AccessorKind::Taker => prefixed("take_", field),
        AccessorKind::Presence => prefixed("has_", field),
    }
}

/// The method set of one accessor shape, in emission order.
pub fn accessor_kinds(class: &FieldClass) -> (r: Vec<AccessorKind>)
    ensures
        r@ == accessor_shape(class@),
{
    let mut v: Vec<AccessorKind> = Vec::new();
    let is_enumeration = match &class.kind {
        FieldKind::Enumeration(_) => true,
        _ => false,
    };
    if is_enumeration {
        v.push(AccessorKind::Getter);
        v.push(AccessorKind::Setter);
    } else if let Cardinality::Repeated = class.cardinality {
        v.push(AccessorKind::Setter);
        v.push(AccessorKind::Getter);
        v.push(AccessorKind::Mutator);
        v.push(AccessorKind::Taker);
    } else {
        match &class.kind {
            FieldKind::MessageValue => {
                v.push(AccessorKind::Setter);
                v.push(AccessorKind::Getter);
                v.push(AccessorKind::Mutator);
                v.push(AccessorKind::Taker);
                v.push(AccessorKind::Presence);
            },
            FieldKind::Scalar => {
                v.push(AccessorKind::Setter);
                v.push(AccessorKind::Getter);
            },
            FieldKind::Text => {
                v.push(AccessorKind::Setter);
                v.push(AccessorKind::Getter);
                v.push(AccessorKind::Taker);
            },
            FieldKind::Bytes => {
                v.push(AccessorKind::Setter);
                v.push(AccessorKind::Getter);
                v.push(AccessorKind::Taker);
            },
            FieldKind::Enumeration(_) => {},
        }
    }
    assert(v@ =~= accessor_shape(class@));
    v
}

/// Synthesize the method set of one classified field.
pub fn field_methods(field: &str, class: &FieldClass) -> (r: Vec<AccessorMethod>)
    ensures
        method_views(r@) == field_method_views(field@, class@),
{
    let shapes = accessor_kinds(class);
    let mut out: Vec<AccessorMethod> = Vec::new();
    let n = shapes.len();
    let mut i: usize = 0;
    while i < n
        invariant
            n == shapes@.len(),
            shapes@ == accessor_shape(class@),
            i <= n,
            out@.len() == i,
            method_views(out@) =~= field_method_views(field@, class@).take(i as int),
        decreases n - i,
    {
        let shape = shapes[i];
        let name = method_name(shape, field);
        let ghost pre = out@;
        out.push(AccessorMethod { name, shape });
        proof {
            let target = field_method_views(field@, class@);
            assert(target[i as int] == (AccessorMethodView {
                name: accessor_prefix(shapes@[i as int]) + field@,
                shape: shapes@[i as int],
            }));
            assert(out@ == pre.push(AccessorMethod { name, shape }));
            assert forall|j: int| 0 <= j < i + 1 implies method_views(out@)[j] == target.take(
                i + 1,
            )[j] by {
                assert(method_views(out@)[j] == out@[j]@);
                assert(target.take(i + 1)[j] == target[j]);
                if j < i {
                    assert(out@[j] == pre[j]);
                    assert(method_views(pre)[j] == pre[j]@);
                    assert(method_views(pre)[j] == target.take(i as int)[j]);
                }
            }
        }
        assert(method_views(out@) =~= field_method_views(field@, class@).take(i + 1));
        i += 1;
    }
    assert(field_method_views(field@, class@).take(n as int) =~= field_method_views(
        field@,
        class@,
    ));
    out
}

} // verus!
