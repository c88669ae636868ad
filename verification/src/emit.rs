use vstd::prelude::*;

use crate::classify::{
    classified_cardinality, classified_kind, classify, conflicting, ClassifyError,
    FieldClassView,
};
use crate::schema::{EnumSchema, EnumVariant, FieldDeclView, MessageSchema, TypeDecl};
use crate::synth::{field_method_views, field_methods, method_views, AccessorMethod,
    AccessorMethodView};

verus! {

/// One generated unit: the augmentation emitted for one declared schema
/// type.
#[derive(Debug)]
pub enum GeneratedUnit {
    /// Accessor augmentation for one message type: the canonical
    /// `default_instance` accessor, which every message unit defines,
    /// and the synthesized method set of every classified field, in
    /// field order.
    MessageImpl {
        name: String,
        defines_default_instance: bool,
        methods: Vec<AccessorMethod>,
    },
    /// The ordered value registry of one enumeration type: every declared
    /// value as a (name, number) pair, in declaration order.
    EnumImpl { name: String, variants: Vec<EnumVariant> },
}

/// The mathematical value of a `GeneratedUnit`.
pub ghost enum GeneratedUnitView {
    MessageImpl {
        name: Seq<char>,
        defines_default_instance: bool,
        methods: Seq<AccessorMethodView>,
    },
    EnumImpl { name: Seq<char>, variants: Seq<(Seq<char>, i32)> },
}

impl View for GeneratedUnit {
    type V = GeneratedUnitView;

    open spec fn view(&self) -> GeneratedUnitView {
        match self {
            GeneratedUnit::MessageImpl { name, defines_default_instance, methods } => GeneratedUnitView::MessageImpl {
                name: name@,
                defines_default_instance: *defines_default_instance,
                methods: method_views(methods@),
            },
            GeneratedUnit::EnumImpl { name, variants } => GeneratedUnitView::EnumImpl {
                name: name@,
                variants: variants@.map_values(|v: EnumVariant| (v.name@, v.number)),
            },
        }
    }
}

/// The classification of one field's marker list.
pub open spec fn class_of(ms: Seq<crate::schema::MarkerView>) -> FieldClassView {
    FieldClassView { kind: classified_kind(ms), cardinality: classified_cardinality(ms) }
}

/// The method set contributed by one field: none when its metadata is
/// absent, else the synthesized set of its classification.
pub open spec fn field_contribution(f: FieldDeclView) -> Seq<AccessorMethodView> {
    match f.markers {
        None => Seq::<AccessorMethodView>::empty(),
        Some(ms) => field_method_views(f.name, class_of(ms)),
    }
}

/// The method set of a whole message: each field's contribution, in
/// field order.
pub open spec fn message_methods(fields: Seq<FieldDeclView>) -> Seq<AccessorMethodView>
    decreases fields.len(),
{
    if fields.len() == 0 {
        Seq::<AccessorMethodView>::empty()
    } else {
        field_contribution(fields[0]) + message_methods(fields.drop_first())
    }
}

/// Some field of the message carries conflicting metadata.
pub open spec fn message_conflict(fields: Seq<FieldDeclView>) -> bool {
    exists|i: int|
        0 <= i < fields.len() && #[trigger] fields[i].markers is Some && conflicting(
            fields[i].markers->0,
        )
}

/// Appending one field appends its contribution.
proof fn lemma_message_methods_push(fields: Seq<FieldDeclView>, f: FieldDeclView)
    ensures
        message_methods(fields.push(f)) == message_methods(fields) + field_contribution(f),
    decreases fields.len(),
{
    if fields.len() == 0 {
        assert(fields.push(f)[0] == f);
        assert(fields.push(f).drop_first() =~= fields);
        assert(message_methods(fields.push(f)) == field_contribution(f) + message_methods(fields));
        assert(field_contribution(f) + message_methods(fields) =~= message_methods(fields)
            + field_contribution(f));
    } else {
        assert(fields.push(f)[0] == fields[0]);
        assert(fields.push(f).drop_first() =~= fields.drop_first().push(f));
        lemma_message_methods_push(fields.drop_first(), f);
        assert(field_contribution(fields[0]) + (message_methods(fields.drop_first())
            + field_contribution(f)) =~= (field_contribution(fields[0]) + message_methods(
            fields.drop_first(),
        )) + field_contribution(f));
    }
}

/// Emit the accessor augmentation of one message type.
///
/// The unit always defines the type's canonical default-instance
/// accessor. Fields without metadata are excluded; every other field is
/// classified and contributes its synthesized method set, in field
/// order. Emission fails exactly when some field's metadata is
/// conflicting.
pub fn emit_message(schema: &MessageSchema) -> (r: Result<GeneratedUnit, ClassifyError>)
    ensures
        r is Ok <==> !message_conflict(schema.fields_view()),
        r is Ok ==> r->Ok_0@ == (GeneratedUnitView::MessageImpl {
            name: schema.name@,
            defines_default_instance: true,
            methods: message_methods(schema.fields_view()),
        }),
        r is Err ==> r->Err_0 == ClassifyError::ConflictingMarkers,
{
    let ghost fields = schema.fields_view();
    let mut methods: Vec<AccessorMethod> = Vec::new();
    let n = schema.fields.len();
    let mut i: usize = 0;
    while i < n
        invariant
            n == schema.fields@.len(),
            fields == schema.fields_view(),
            i <= n,
            method_views(methods@) == message_methods(fields.take(i as int)),
            forall|k: int|
                0 <= k < i && #[trigger] fields[k].markers is Some ==> !conflicting(
                    fields[k].markers->0,
                ),
        decreases n - i,
    {
        let field = &schema.fields[i];
        assert(field@ == fields[i as int]);
        match &field.markers {
            None => {
                proof {
                    assert(fields.take(i + 1).drop_last() =~= fields.take(i as int));
                    assert(fields.take(i + 1).last() == fields[i as int]);
                    lemma_message_methods_push(fields.take(i as int), fields[i as int]);
                    assert(fields.take(i as int).push(fields[i as int]) =~= fields.take(i + 1));
                    assert(method_views(methods@) =~= message_methods(fields.take(i + 1)));
                }
            },
            Some(ms) => {
                let class = match classify(ms) {
                    Ok(c) => c,
                    Err(e) => {
                        return Err(e);
                    },
                };
                let mut more = field_methods(field.name.as_str(), &class);
                let ghost pre = methods@;
                methods.append(&mut more);
                proof {
                    assert(ms@.map_values(|m: crate::schema::Marker| m@) == fields[i as int].markers->0);
                    assert(class@ == class_of(fields[i as int].markers->0));
                    lemma_message_methods_push(fields.take(i as int), fields[i as int]);
                    assert(fields.take(i as int).push(fields[i as int]) =~= fields.take(i + 1));
                    assert(method_views(methods@) =~= method_views(pre) + field_contribution(
                        fields[i as int],
                    ));
                    assert(method_views(methods@) =~= message_methods(fields.take(i + 1)));
                }
            },
        }
        i += 1;
    }
    proof {
        assert(fields.take(n as int) =~= fields);
    }
    Ok(
        GeneratedUnit::MessageImpl {
            name: schema.name.clone(),
            defines_default_instance: true,
            methods,
        },
    )
}

/// Emit the value registry of one enumeration type: the declared values,
/// in declaration order. Declared numbers must be unique within the type.
pub fn emit_enumeration(schema: &EnumSchema) -> (r: GeneratedUnit)
    requires
        schema.wf(),
    ensures
        r@ == (GeneratedUnitView::EnumImpl {
            name: schema.name@,
            variants: schema.variants_view(),
        }),
{
    let mut variants: Vec<EnumVariant> = Vec::new();
    let n = schema.variants.len();
    let mut i: usize = 0;
    while i < n
        invariant
            n == schema.variants@.len(),
            i <= n,
            variants@.len() == i,
            variants@.map_values(|v: EnumVariant| (v.name@, v.number)) =~= schema.variants_view()
                .take(i as int),
        decreases n - i,
    {
        let v = &schema.variants[i];
        variants.push(EnumVariant { name: v.name.clone(), number: v.number });
        assert(variants@.map_values(|v: EnumVariant| (v.name@, v.number)) =~= schema
            .variants_view().take(i + 1));
        i += 1;
    }
    assert(schema.variants_view().take(n as int) =~= schema.variants_view());
    GeneratedUnit::EnumImpl { name: schema.name.clone(), variants }
}

/// Emit the generated unit of one declared schema type: accessor
/// augmentation for a message, the value registry for an enumeration.
pub fn classicalize(decl: &TypeDecl) -> (r: Result<GeneratedUnit, ClassifyError>)
    requires
        match decl {
            TypeDecl::Message(_) => true,
            TypeDecl::Enumeration(schema) => schema.wf(),
        },
    ensures
        match decl {
            TypeDecl::Message(schema) => {
                &&& r is Ok <==> !message_conflict(schema.fields_view())
                &&& r is Ok ==> r->Ok_0@ == (GeneratedUnitView::MessageImpl {
                    name: schema.name@,
                    defines_default_instance: true,
                    methods: message_methods(schema.fields_view()),
                })
                &&& r is Err ==> r->Err_0 == ClassifyError::ConflictingMarkers
            },
            TypeDecl::Enumeration(schema) => {
                &&& r is Ok
                &&& r->Ok_0@ == (GeneratedUnitView::EnumImpl {
                    name: schema.name@,
                    variants: schema.variants_view(),
                })
            },
        },
{
    match decl {
        TypeDecl::Message(schema) => emit_message(schema),
        TypeDecl::Enumeration(schema) => Ok(emit_enumeration(schema)),
    }
}

} // verus!
