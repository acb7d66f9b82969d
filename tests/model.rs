use protodoc::closure::gather_types;
use protodoc::comments::{get_description, Location, SourceInfo};
use protodoc::descriptor::{
    EnumDescriptor, EnumValueDescriptor, FieldDescriptor, FileDescriptor, GeneratorRequest,
    MessageDescriptor, MethodDescriptor, ScalarKind, ServiceDescriptor,
};
use protodoc::error::DocError;
use protodoc::index::{get_types, TypeIndex};
use protodoc::proto::{scalar_type_name, FieldType, Types};
use protodoc::render::{build_pages, Page};
use protodoc::services::{get_services, CallType};

fn field(name: &str, number: i32, kind: ScalarKind, type_ref: Option<&str>) -> FieldDescriptor {
    FieldDescriptor {
        name: name.to_string(),
        number,
        label: None,
        kind,
        type_ref: type_ref.map(|t| t.to_string()),
        proto3_optional: false,
    }
}

fn message(name: &str, fields: Vec<FieldDescriptor>, nested: Vec<MessageDescriptor>) -> MessageDescriptor {
    MessageDescriptor { name: name.to_string(), fields, nested, enums: vec![] }
}

fn loc(path: &[i32], leading: &str, trailing: &str) -> Location {
    Location {
        path: path.to_vec(),
        leading_comments: leading.to_string(),
        trailing_comments: trailing.to_string(),
    }
}

fn method(name: &str, input: &str, output: &str, server: bool, client: bool, deprecated: Option<bool>) -> MethodDescriptor {
    MethodDescriptor {
        name: name.to_string(),
        input_type: input.to_string(),
        output_type: output.to_string(),
        client_streaming: client,
        server_streaming: server,
        deprecated,
    }
}

fn file(
    name: &str,
    package: &str,
    messages: Vec<MessageDescriptor>,
    enums: Vec<EnumDescriptor>,
    services: Vec<ServiceDescriptor>,
    locations: Option<Vec<Location>>,
) -> FileDescriptor {
    FileDescriptor {
        name: name.to_string(),
        package: package.to_string(),
        messages,
        enums,
        services,
        source_info: locations.map(|location| SourceInfo { location }),
    }
}

fn request(files: Vec<FileDescriptor>, generate: &[&str]) -> GeneratorRequest {
    GeneratorRequest {
        files,
        files_to_generate: generate.iter().map(|s| s.to_string()).collect(),
        parameter: None,
    }
}

fn message_of(types: &TypeIndex, at: usize) -> &protodoc::proto::MessageType {
    match &types.types[at] {
        Types::Message(m) => m,
        Types::Enum(_) => panic!("expected a message"),
    }
}

fn end_to_end_request() -> GeneratorRequest {
    let req = message("Req", vec![field("x", 1, ScalarKind::String, None)], vec![]);
    let resp = message("Resp", vec![field("y", 1, ScalarKind::String, None)], vec![]);
    let service = ServiceDescriptor {
        name: "S".to_string(),
        methods: vec![method("M", ".a.Req", ".a.Resp", false, false, None)],
        deprecated: None,
    };
    let f = file(
        "a.proto",
        "a",
        vec![req, resp],
        vec![],
        vec![service],
        Some(vec![loc(&[6, 0, 2, 0], "Does M.", "")]),
    );
    request(vec![f], &["a.proto"])
}

#[test]
fn untyped_fields_show_scalar_keywords() {
    let kinds = [
        ScalarKind::Double, ScalarKind::Float, ScalarKind::Int64, ScalarKind::Uint64,
        ScalarKind::Int32, ScalarKind::Fixed64, ScalarKind::Fixed32, ScalarKind::Bool,
        ScalarKind::String, ScalarKind::Group, ScalarKind::Bytes, ScalarKind::Uint32,
        ScalarKind::Enum, ScalarKind::Sfixed32, ScalarKind::Sfixed64, ScalarKind::Sint32,
        ScalarKind::Sint64,
    ];
    for kind in kinds {
        let ty = FieldType::from(&field("f", 1, kind, None)).unwrap();
        assert!(!ty.name().is_empty());
        assert_eq!(ty.name(), scalar_type_name(kind));
    }
    assert_eq!(FieldType::from(&field("f", 1, ScalarKind::Message, None)).unwrap().name(), "");
    assert_eq!(scalar_type_name(ScalarKind::Sfixed64), "sfixed64");
    let custom = FieldType::from(&field("f", 1, ScalarKind::Message, Some(".a.b.Thing"))).unwrap();
    assert_eq!(custom.name(), "Thing");
}

#[test]
fn fields_sort_by_number() {
    let m = message(
        "M",
        vec![
            field("c", 3, ScalarKind::Int32, None),
            field("a", 1, ScalarKind::Int32, None),
            field("b", 2, ScalarKind::Int32, None),
        ],
        vec![],
    );
    let f = file("m.proto", "p", vec![m], vec![], vec![], Some(vec![loc(&[4, 0, 2, 0], "third", "")]));
    let types = get_types(&request(vec![f], &[])).unwrap();
    let m = message_of(&types, 0);
    let numbers: Vec<i32> = m.fields.iter().map(|f| f.number).collect();
    assert_eq!(numbers, vec![1, 2, 3]);
    assert_eq!(m.fields[2].name, "c");
    assert_eq!(m.fields[2].leading_comments, "third");
    assert_eq!(m.fields[0].leading_comments, "");
}

#[test]
fn enum_values_sharing_a_number_keep_order() {
    let e = EnumDescriptor {
        name: "E".to_string(),
        values: vec![
            EnumValueDescriptor { name: "X".to_string(), number: 1 },
            EnumValueDescriptor { name: "Y".to_string(), number: 0 },
            EnumValueDescriptor { name: "Z".to_string(), number: 1 },
        ],
    };
    let f = file(
        "e.proto",
        "p",
        vec![],
        vec![e],
        vec![],
        Some(vec![loc(&[5, 0], "An enum.", ""), loc(&[5, 0, 2, 2], "", " zed  \n")]),
    );
    let types = get_types(&request(vec![f], &[])).unwrap();
    match &types.types[0] {
        Types::Enum(e) => {
            let names: Vec<&str> = e.values.iter().map(|v| v.name.as_str()).collect();
            assert_eq!(names, vec!["Y", "X", "Z"]);
            assert_eq!(e.description, "An enum.");
            assert_eq!(e.values[2].trailing_comments, " zed");
        }
        Types::Message(_) => panic!("expected an enum"),
    }
}

#[test]
fn closure_of_a_cycle_terminates() {
    let m = message("M", vec![field("n", 1, ScalarKind::Message, Some(".a.N"))], vec![]);
    let n = message("N", vec![field("o", 1, ScalarKind::Message, Some(".a.O"))], vec![]);
    let o = message("O", vec![field("m", 1, ScalarKind::Message, Some(".a.M"))], vec![]);
    let f = file("c.proto", "a", vec![m, n, o], vec![], vec![], Some(vec![]));
    let types = get_types(&request(vec![f], &[])).unwrap();
    let closure = gather_types(0, &types);
    assert_eq!(closure, vec![1, 2]);
    assert_eq!(message_of(&types, closure[0]).name, "N");
    assert_eq!(message_of(&types, closure[1]).name, "O");
}

#[test]
fn closure_skips_enums_scalars_and_unknown_packages() {
    let top = message(
        "Top",
        vec![
            field("e", 1, ScalarKind::Enum, Some(".a.Color")),
            field("s", 2, ScalarKind::String, None),
            field("x", 3, ScalarKind::Message, Some(".elsewhere.X")),
        ],
        vec![],
    );
    let color = EnumDescriptor { name: "Color".to_string(), values: vec![] };
    let f = file("t.proto", "a", vec![top], vec![color], vec![], Some(vec![]));
    let types = get_types(&request(vec![f], &[])).unwrap();
    assert_eq!(gather_types(0, &types), vec![1]);
    assert_eq!(gather_types(1, &types), Vec::<usize>::new());
}

#[test]
fn description_lookup_needs_exact_path() {
    let info = SourceInfo {
        location: vec![loc(&[4, 0], "first", ""), loc(&[4, 0, 2, 1], "field", ""), loc(&[4, 0], "second", "")],
    };
    assert_eq!(get_description(&info, &vec![4, 0]), "first");
    assert_eq!(get_description(&info, &vec![4, 0, 2, 1]), "field");
    assert_eq!(get_description(&info, &vec![4]), "");
    assert_eq!(get_description(&info, &vec![4, 0, 2]), "");
    assert_eq!(get_description(&info, &vec![6, 0]), "");
}

#[test]
fn streaming_flags_select_call_type() {
    let m = |server, client| CallType::from(&method("M", ".a.A", ".a.A", server, client, None));
    assert_eq!(m(true, false), CallType::ServerStreaming);
    assert_eq!(m(false, false), CallType::Unary);
    assert_eq!(m(true, true), CallType::BidiStreaming);
    assert_eq!(m(false, true), CallType::ClientStreaming);
    assert_eq!(CallType::BidiStreaming.as_str(), "bidi streaming");
    assert_eq!(CallType::Unary.as_str(), "unary");
}

#[test]
fn methods_split_by_deprecation_in_order() {
    let a = message("A", vec![], vec![]);
    let service = ServiceDescriptor {
        name: "S".to_string(),
        methods: vec![
            method("One", ".p.A", ".p.A", false, false, None),
            method("Two", ".p.A", ".p.A", false, false, Some(true)),
            method("Three", ".p.A", ".p.A", false, false, Some(false)),
            method("Four", ".p.A", ".p.A", false, false, Some(true)),
            method("Five", ".p.A", ".p.A", false, false, None),
        ],
        deprecated: Some(true),
    };
    let f = file("s.proto", "p", vec![a], vec![], vec![service], Some(vec![]));
    let req = request(vec![f], &["s.proto"]);
    let types = get_types(&req).unwrap();
    let services = get_services(&req, "s.proto", &types).unwrap();
    assert!(services[0].deprecated);
    let page = Page::from(services, &types);
    let active: Vec<&str> = page.services[0].methods.iter().map(|m| m.name.as_str()).collect();
    let old: Vec<&str> = page.services[0].deprecated_methods.iter().map(|m| m.name.as_str()).collect();
    assert_eq!(active, vec!["One", "Three", "Five"]);
    assert_eq!(old, vec!["Two", "Four"]);
}

#[test]
fn end_to_end_single_unary_method() {
    let req = end_to_end_request();
    let types = get_types(&req).unwrap();
    let services = get_services(&req, "a.proto", &types).unwrap();
    assert_eq!(services.len(), 1);
    let s = &services[0];
    assert_eq!(s.name, "S");
    assert_eq!(s.package, "a");
    assert_eq!(s.methods.len(), 1);
    let m = &s.methods[0];
    assert_eq!(m.name, "M");
    assert_eq!(m.call_type, CallType::Unary);
    assert_eq!(m.description, "Does M.");
    assert!(!m.deprecated);
    let input = message_of(&types, m.input_type);
    let output = message_of(&types, m.output_type);
    assert_eq!(input.name, "Req");
    assert_eq!(output.name, "Resp");
    assert_eq!(input.fields.len(), 1);
    assert_eq!(output.fields.len(), 1);
    assert_eq!(input.fields[0].name, "x");
    assert_eq!(output.fields[0].name, "y");
}

#[test]
fn pages_list_self_contained_types() {
    let req = end_to_end_request();
    let types = get_types(&req).unwrap();
    let pages = build_pages(&req, &types).unwrap();
    assert_eq!(pages.len(), 1);
    let m = &pages[0].services[0].methods[0];
    assert_eq!(m.input_types, vec![0]);
    assert_eq!(m.output_types, vec![1]);
}

#[test]
fn nested_messages_are_flattened_with_depth() {
    let inner = message("Inner", vec![field("v", 1, ScalarKind::Bool, None)], vec![]);
    let outer = message("Outer", vec![field("i", 1, ScalarKind::Message, Some(".p.Outer.Inner"))], vec![inner]);
    let f = file(
        "n.proto",
        "p",
        vec![outer],
        vec![],
        vec![],
        Some(vec![loc(&[4, 0], "outer", ""), loc(&[4, 0, 3, 0], "inner", ""), loc(&[4, 0, 3, 0, 2, 0], "v field", "")]),
    );
    let types = get_types(&request(vec![f], &[])).unwrap();
    assert_eq!(types.types.len(), 2);
    let outer = message_of(&types, 0);
    let inner = message_of(&types, 1);
    assert_eq!((outer.name.as_str(), outer.depth, outer.description.as_str()), ("Outer", 0, "outer"));
    assert_eq!((inner.name.as_str(), inner.depth, inner.description.as_str()), ("Inner", 1, "inner"));
    assert_eq!(inner.fields[0].leading_comments, "v field");
    assert_eq!(types.packages.len(), 1);
    assert_eq!(types.packages[0].members, vec![0, 1]);
    // The reference to a nested type names package "p.Outer", which has no bucket.
    assert_eq!(gather_types(0, &types), Vec::<usize>::new());
}

#[test]
fn files_of_one_package_share_a_bucket() {
    let f1 = file("x.proto", "p", vec![message("A", vec![], vec![])], vec![], vec![], Some(vec![]));
    let f2 = file("y.proto", "q", vec![message("B", vec![], vec![])], vec![], vec![], Some(vec![]));
    let f3 = file("z.proto", "p", vec![message("C", vec![], vec![])], vec![], vec![], Some(vec![]));
    let types = get_types(&request(vec![f1, f2, f3], &[])).unwrap();
    assert_eq!(types.packages.len(), 2);
    assert_eq!(types.packages[0].name, "p");
    assert_eq!(types.packages[0].members, vec![0, 2]);
    assert_eq!(types.packages[1].members, vec![1]);
}

#[test]
fn repeated_and_optional_fields() {
    let mut list = field("list", 1, ScalarKind::Int32, None);
    list.label = Some(3);
    let mut maybe = field("maybe", 2, ScalarKind::Int32, None);
    maybe.label = Some(1);
    maybe.proto3_optional = true;
    let f = file("r.proto", "p", vec![message("R", vec![list, maybe], vec![])], vec![], vec![], Some(vec![]));
    let types = get_types(&request(vec![f], &[])).unwrap();
    let r = message_of(&types, 0);
    assert!(r.fields[0].repeated && !r.fields[0].optional);
    assert!(!r.fields[1].repeated && r.fields[1].optional);
}

#[test]
fn missing_file_is_reported() {
    let req = end_to_end_request();
    let types = get_types(&req).unwrap();
    match get_services(&req, "b.proto", &types) {
        Err(DocError::FileNotFound(name)) => assert_eq!(name, "b.proto"),
        _ => panic!("expected a missing file"),
    }
}

#[test]
fn missing_comment_table_is_reported() {
    let f = file("a.proto", "a", vec![], vec![], vec![], None);
    let req = request(vec![f], &["a.proto"]);
    assert!(matches!(get_types(&req), Err(DocError::MissingSourceInfo)));
    let empty = get_types(&request(vec![], &[])).unwrap();
    assert!(matches!(get_services(&req, "a.proto", &empty), Err(DocError::MissingSourceInfo)));
}

#[test]
fn unresolved_method_type_is_reported() {
    let mut req = end_to_end_request();
    req.files[0].services[0].methods[0].output_type = ".a.Nope".to_string();
    let types = get_types(&req).unwrap();
    match get_services(&req, "a.proto", &types) {
        Err(DocError::UnresolvedTypeReference(name)) => assert_eq!(name, ".a.Nope"),
        _ => panic!("expected an unresolved reference"),
    }
    assert!(build_pages(&req, &types).is_err());
}

#[test]
fn malformed_references_are_reported() {
    let mut req = end_to_end_request();
    req.files[0].services[0].methods[0].input_type = "Req".to_string();
    let types = get_types(&req).unwrap();
    assert!(matches!(
        get_services(&req, "a.proto", &types),
        Err(DocError::MalformedTypeReference(_))
    ));
    let bad = message("Bad", vec![field("f", 1, ScalarKind::Message, Some("Baz"))], vec![]);
    let f = file("b.proto", "b", vec![bad], vec![], vec![], Some(vec![]));
    assert!(matches!(
        get_types(&request(vec![f], &[])),
        Err(DocError::MalformedTypeReference(_))
    ));
}

#[test]
fn enums_inside_messages_are_indexed() {
    let mut outer = message("Outer", vec![field("s", 1, ScalarKind::Enum, Some(".p.State"))], vec![]);
    outer.enums.push(EnumDescriptor {
        name: "State".to_string(),
        values: vec![EnumValueDescriptor { name: "IDLE".to_string(), number: 0 }],
    });
    let top = EnumDescriptor { name: "Top".to_string(), values: vec![] };
    let f = file(
        "n.proto",
        "p",
        vec![outer],
        vec![top],
        vec![],
        Some(vec![loc(&[4, 0, 4, 0], "inner state", ""), loc(&[4, 0, 4, 0, 2, 0], "idle", "")]),
    );
    let types = get_types(&request(vec![f], &[])).unwrap();
    assert_eq!(types.types.len(), 3);
    match &types.types[1] {
        Types::Enum(e) => {
            assert_eq!(e.name, "State");
            assert_eq!(e.description, "inner state");
            assert_eq!(e.values[0].leading_comments, "idle");
        }
        Types::Message(_) => panic!("expected an enum"),
    }
    assert!(matches!(&types.types[2], Types::Enum(e) if e.name == "Top"));
    assert_eq!(gather_types(0, &types), vec![1]);
}
