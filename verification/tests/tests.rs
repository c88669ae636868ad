use jinkela::builder::{descriptor_path, parse_descriptor, BuildError, Builder};
use jinkela::classify::{classify, Cardinality, ClassifyError, FieldClass, FieldKind};
use jinkela::emit::{classicalize, GeneratedUnit};
use jinkela::namespace::{assemble_namespace, sort_names};
use jinkela::sample::{A, B, EnumValueError, E};
use jinkela::schema::{EnumSchema, EnumVariant, FieldDecl, Marker, MessageSchema, TypeDecl};
use jinkela::synth::{field_methods, AccessorKind};
use jinkela::GenericEnum;

use protobuf::Message;

fn word(w: &str) -> Marker {
    Marker::Word(w.to_owned())
}

fn key_value(k: &str, v: &str) -> Marker {
    Marker::KeyValue(k.to_owned(), v.to_owned())
}

#[test]
fn test_methods() {
    let mut a = A::default();
    assert!(!a.has_b1());
    assert!(!a.has_b2());
    assert_eq!(a.get_b1().b, 0);
    assert_eq!(a.get_b2().b, 0);
    a.mut_b1().b = 2;
    a.mut_b2().b = 1;
    assert!(a.has_b1());
    assert!(a.has_b2());
    assert_eq!(a.get_b1().b, 2);
    assert_eq!(a.get_b2().b, 1);
    assert_eq!(a.take_b2().b, 1);
    let b = B::default();
    assert_eq!(B::default_instance(), b);
    a.set_b2(b);
    assert_eq!(a.get_b2().b, 0);
    assert_eq!(a.get_e(), Ok(E::T));
    a.e = E::C as i32;
    assert_eq!(a.get_e(), Ok(E::C));
    assert_eq!(a.get_b3(), &[]);
    a.mut_b3().push(B::default());
    assert_eq!(a.take_b3(), vec![B::default()]);
    assert_eq!(a.get_b3(), &[]);
    a.set_b3(vec![B::default(), B::default()]);
    assert_eq!(a.get_b3().len(), 2);
    a.set_cf("test".to_owned());
    assert_eq!(a.get_cf(), "test");
    assert_eq!(a.take_cf(), "test".to_owned());
    a.set_key(b"test".to_vec());
    assert_eq!(a.get_key(), b"test");
    assert_eq!(a.take_key(), b"test".to_vec());
    a.set_notify_only(true);
    assert!(a.get_notify_only());
}

#[test]
fn test_enum() {
    assert_eq!(E::values(), vec![E::T, E::C]);
}

#[test]
fn enum_values_stable_across_calls() {
    assert_eq!(E::values(), E::values());
    assert_eq!(E::values().len(), 2);
}

#[test]
fn default_instance_is_canonical() {
    assert_eq!(B::default_instance(), B::default_instance());
    assert_eq!(B::default_instance(), B::default());
    assert_eq!(B::default_instance().b, 0);
    let a = A::default_instance();
    assert!(!a.has_b1());
    assert!(!a.has_b2());
    assert_eq!(a.get_b3(), &[]);
    assert_eq!(a.e, 0);
    assert!(!a.get_notify_only());
    assert_eq!(a.get_cf(), "");
    assert_eq!(a.get_key(), b"");
}

#[test]
fn enum_field_rejects_undeclared_integer() {
    let mut a = A::default();
    a.set_e(E::C);
    assert_eq!(a.e, 1);
    assert_eq!(a.get_e(), Ok(E::C));
    a.e = 7;
    assert_eq!(a.get_e(), Err(EnumValueError { value: 7 }));
    assert_eq!(E::from_i32(0), Some(E::T));
    assert_eq!(E::from_i32(1), Some(E::C));
    assert_eq!(E::from_i32(2), None);
    assert_eq!(E::from_i32(-1), None);
}

#[test]
fn take_after_set_restores_default() {
    let mut a = A::default();
    a.set_b1(B { b: 9 });
    assert_eq!(a.take_b1(), B { b: 9 });
    assert!(!a.has_b1());
    assert_eq!(a.get_b1(), B::default_instance());
}

#[test]
fn classify_bare_markers() {
    let r = classify(&vec![word("message"), word("optional")]).unwrap();
    assert!(matches!(r.kind, FieldKind::MessageValue));
    assert_eq!(r.cardinality, Cardinality::Optional);

    let r = classify(&vec![word("bytes")]).unwrap();
    assert!(matches!(r.kind, FieldKind::Bytes));
    assert_eq!(r.cardinality, Cardinality::Optional);

    let r = classify(&vec![word("message"), word("repeated")]).unwrap();
    assert!(matches!(r.kind, FieldKind::MessageValue));
    assert_eq!(r.cardinality, Cardinality::Repeated);
}

#[test]
fn classify_defaults_to_optional_scalar() {
    let r = classify(&vec![word("uint64"), key_value("tag", "1")]).unwrap();
    assert!(matches!(r.kind, FieldKind::Scalar));
    assert_eq!(r.cardinality, Cardinality::Optional);
}

#[test]
fn classify_enumeration_marker() {
    let r = classify(&vec![key_value("enumeration", "E")]).unwrap();
    match r.kind {
        FieldKind::Enumeration(name) => assert_eq!(name, "E"),
        other => panic!("expected enumeration, got {:?}", other),
    }
}

#[test]
fn classify_rejects_conflicting_markers() {
    let r = classify(&vec![word("message"), word("string")]);
    assert_eq!(r.unwrap_err(), ClassifyError::ConflictingMarkers);

    let r = classify(&vec![word("message"), key_value("enumeration", "E")]);
    assert_eq!(r.unwrap_err(), ClassifyError::ConflictingMarkers);

    let r = classify(&vec![word("optional"), word("repeated")]);
    assert_eq!(r.unwrap_err(), ClassifyError::ConflictingMarkers);

    let r = classify(&vec![word("bytes"), word("bytes")]).unwrap();
    assert!(matches!(r.kind, FieldKind::Bytes));
}

#[test]
fn accessor_shapes_per_field_kind() {
    let methods = field_methods(
        "cf",
        &FieldClass { kind: FieldKind::Text, cardinality: Cardinality::Optional },
    );
    let names: Vec<&str> = methods.iter().map(|m| m.name.as_str()).collect();
    assert_eq!(names, vec!["set_cf", "get_cf", "take_cf"]);

    let methods = field_methods(
        "b1",
        &FieldClass { kind: FieldKind::MessageValue, cardinality: Cardinality::Optional },
    );
    let names: Vec<&str> = methods.iter().map(|m| m.name.as_str()).collect();
    assert_eq!(names, vec!["set_b1", "get_b1", "mut_b1", "take_b1", "has_b1"]);
    assert_eq!(methods[0].shape, AccessorKind::Setter);
    assert_eq!(methods[4].shape, AccessorKind::Presence);

    let methods = field_methods(
        "b3",
        &FieldClass { kind: FieldKind::MessageValue, cardinality: Cardinality::Repeated },
    );
    let names: Vec<&str> = methods.iter().map(|m| m.name.as_str()).collect();
    assert_eq!(names, vec!["set_b3", "get_b3", "mut_b3", "take_b3"]);

    let methods = field_methods(
        "e",
        &FieldClass { kind: FieldKind::Enumeration("E".to_owned()), cardinality: Cardinality::Optional },
    );
    let names: Vec<&str> = methods.iter().map(|m| m.name.as_str()).collect();
    assert_eq!(names, vec!["get_e", "set_e"]);
}

fn field(name: &str, markers: Option<Vec<Marker>>) -> FieldDecl {
    FieldDecl { name: name.to_owned(), markers }
}

#[test]
fn classicalize_message_emits_every_field_in_order() {
    let schema = MessageSchema {
        name: "A".to_owned(),
        fields: vec![
            field("b1", Some(vec![word("message"), word("optional")])),
            field("b3", Some(vec![word("message"), word("repeated")])),
            field("e", Some(vec![key_value("enumeration", "E")])),
            field("notify_only", Some(vec![word("bool")])),
            field("cf", Some(vec![word("string")])),
            field("key", Some(vec![word("bytes")])),
            field("hidden", None),
        ],
    };
    let unit = classicalize(&TypeDecl::Message(schema)).unwrap();
    match unit {
        GeneratedUnit::MessageImpl { name, defines_default_instance, methods } => {
            assert_eq!(name, "A");
            assert!(defines_default_instance);
            let names: Vec<&str> = methods.iter().map(|m| m.name.as_str()).collect();
            assert_eq!(
                names,
                vec![
                    "set_b1", "get_b1", "mut_b1", "take_b1", "has_b1",
                    "set_b3", "get_b3", "mut_b3", "take_b3",
                    "get_e", "set_e",
                    "set_notify_only", "get_notify_only",
                    "set_cf", "get_cf", "take_cf",
                    "set_key", "get_key", "take_key",
                ]
            );
        },
        other => panic!("expected a message unit, got {:?}", other),
    }
}

#[test]
fn classicalize_message_reports_conflicting_field() {
    let schema = MessageSchema {
        name: "A".to_owned(),
        fields: vec![field("x", Some(vec![word("message"), word("bytes")]))],
    };
    let r = classicalize(&TypeDecl::Message(schema));
    assert_eq!(r.unwrap_err(), ClassifyError::ConflictingMarkers);
}

#[test]
fn classicalize_enumeration_lists_variants_in_order() {
    let schema = EnumSchema {
        name: "E".to_owned(),
        variants: vec![
            EnumVariant { name: "T".to_owned(), number: 0 },
            EnumVariant { name: "C".to_owned(), number: 1 },
        ],
    };
    let unit = classicalize(&TypeDecl::Enumeration(schema)).unwrap();
    match unit {
        GeneratedUnit::EnumImpl { name, variants } => {
            assert_eq!(name, "E");
            assert_eq!(variants.len(), 2);
            assert_eq!(variants[0].name, "T");
            assert_eq!(variants[0].number, 0);
            assert_eq!(variants[1].name, "C");
            assert_eq!(variants[1].number, 1);
        },
        other => panic!("expected an enumeration unit, got {:?}", other),
    }
}

#[test]
fn sort_names_orders_lexicographically() {
    let names = vec!["metapb".to_owned(), "eraftpb".to_owned(), "kvrpcpb".to_owned()];
    let sorted = sort_names(&names);
    assert_eq!(sorted, vec!["eraftpb".to_owned(), "kvrpcpb".to_owned(), "metapb".to_owned()]);
}

#[test]
fn namespace_unit_nests_dotted_packages() {
    let stems = vec!["raft.serverpb".to_owned(), "metapb".to_owned()];
    let lines = assemble_namespace(&stems);
    assert_eq!(
        lines,
        vec![
            "pub mod metapb;".to_owned(),
            "pub mod raft {".to_owned(),
            " pub mod serverpb {".to_owned(),
            "include!(\"raft.serverpb.rs\");".to_owned(),
            " }".to_owned(),
            "}".to_owned(),
        ]
    );
}

#[test]
fn namespace_unit_normalizes_hyphens() {
    let stems = vec!["raft-cmdpb".to_owned()];
    let lines = assemble_namespace(&stems);
    assert_eq!(lines, vec!["pub mod raft_cmdpb;".to_owned()]);
}

#[test]
fn namespace_unit_is_deterministic() {
    let one = vec!["b.pb".to_owned(), "a".to_owned(), "c-d".to_owned()];
    let two = vec!["c-d".to_owned(), "b.pb".to_owned(), "a".to_owned()];
    assert_eq!(assemble_namespace(&one), assemble_namespace(&two));
}

#[test]
fn builder_collects_configuration() {
    let mut b = Builder::new();
    b.out_dir("out").include_dir("/x").include_dir("/y").compile_proto("/x/a.proto");
    assert_eq!(b.out_dir, Some("out".to_owned()));
    assert_eq!(b.includes, vec!["/x".to_owned(), "/y".to_owned()]);
    assert_eq!(b.sources, vec!["/x/a.proto".to_owned()]);
}

#[test]
fn proto_dir_prefers_explicit_override() {
    let mut b = Builder::new();
    b.out_dir("explicit");
    assert_eq!(b.proto_dir(Some("root")).unwrap(), "explicit");

    let b2 = Builder::new();
    assert_eq!(b2.proto_dir(Some("root")).unwrap(), "root/protos");
    assert!(matches!(b2.proto_dir(None), Err(BuildError::MissingOutputLocation)));
}

#[test]
fn descriptor_artifact_has_fixed_name() {
    assert_eq!(descriptor_path("out/protos"), "out/protos/mod.desc");
}

#[test]
fn relative_sources_strip_include_directories() {
    let mut b = Builder::new();
    b.include_dir("/x").include_dir("/y/").compile_proto("/x/a.proto").compile_proto(
        "/y/sub/b.proto",
    );
    assert_eq!(
        b.relative_sources().unwrap(),
        vec!["a.proto".to_owned(), "sub/b.proto".to_owned()]
    );
}

#[test]
fn relative_sources_take_first_matching_include() {
    let mut b = Builder::new();
    b.include_dir("/x/sub").include_dir("/x").compile_proto("/x/sub/a.proto");
    assert_eq!(b.relative_sources().unwrap(), vec!["a.proto".to_owned()]);
}

#[test]
fn unrooted_source_is_a_fatal_configuration_error() {
    let mut b = Builder::new();
    b.include_dir("/x").compile_proto("/x/a.proto").compile_proto("/elsewhere/b.proto");
    assert!(matches!(
        b.relative_sources(),
        Err(BuildError::SourceOutsideIncludes { index: 1 })
    ));
    let desc = parse_descriptor(&descriptor_bytes(&[])).unwrap();
    assert!(matches!(
        b.build_grpcio(&desc),
        Err(BuildError::SourceOutsideIncludes { index: 1 })
    ));
}

fn descriptor_bytes(names: &[&str]) -> Vec<u8> {
    let mut set = protobuf::descriptor::FileDescriptorSet::new();
    for name in names {
        let mut file = protobuf::descriptor::FileDescriptorProto::new();
        file.set_name((*name).to_owned());
        set.mut_file().push(file);
    }
    set.write_to_bytes().unwrap()
}

#[test]
fn build_grpcio_generates_no_stubs_without_services() {
    let desc = parse_descriptor(&descriptor_bytes(&["a.proto", "b.proto"])).unwrap();
    let mut b = Builder::new();
    b.include_dir("/x").compile_proto("/x/a.proto").compile_proto("/x/b.proto");
    let units = b.build_grpcio(&desc).unwrap();
    assert!(units.is_empty());
}

#[test]
fn build_grpcio_rejects_undeclared_source() {
    let desc = parse_descriptor(&descriptor_bytes(&["a.proto"])).unwrap();
    let mut b = Builder::new();
    b.include_dir("/x").compile_proto("/x/other.proto");
    assert!(matches!(
        b.build_grpcio(&desc),
        Err(BuildError::SourceNotInDescriptor { index: 0 })
    ));
}

#[test]
fn unreadable_descriptor_is_reported() {
    assert!(matches!(
        parse_descriptor(&[0x0A, 0x05, 0x00]),
        Err(BuildError::DescriptorUnreadable { .. })
    ));
    let round_trip = descriptor_bytes(&["a.proto"]);
    assert!(parse_descriptor(&round_trip).is_ok());
}
