use schema_encoding::encoding::{
    DefaultLoc, EncodingConfig, PathSegment, PathTemplate, SchemaUnderConstruction, WireLoc,
    SEGMENT_LITERAL, SEGMENT_PARAM, SEGMENT_WILDCARD,
};
use schema_encoding::endpoint::{
    handshake_encoding, request_encoding, response_encoding, Rpc, PARAM_STRING,
};
use schema_encoding::error::EncodingError;
use schema_encoding::method::{split_by_loc, Method};
use schema_encoding::model::{Decl, Field, FieldList, Metadata, Type, TypeList, WireSpec};
use schema_encoding::registry::{Builder, FieldEntry, StructValue};
use schema_encoding::resolve::resolve_type;

fn builtin(kind: u32) -> Type {
    Type::Builtin { kind }
}

fn named(id: u32, args: Vec<Type>) -> Type {
    Type::Named { id, type_arguments: type_list(args) }
}

fn type_list(v: Vec<Type>) -> TypeList {
    let mut l = TypeList::Nil;
    for t in v.into_iter().rev() {
        l = TypeList::Cons { head: Box::new(t), validation: None, tail: Box::new(l) };
    }
    l
}

fn field(name: &str, typ: Type, wire: Option<WireSpec>) -> Field {
    Field { name: name.to_string(), typ: Some(typ), optional: false, validation: None, wire }
}

fn strukt(fields: Vec<Field>) -> Type {
    let mut l = FieldList::Nil;
    for f in fields.into_iter().rev() {
        l = FieldList::Cons { head: Box::new(f), tail: Box::new(l) };
    }
    Type::Struct { fields: l }
}

fn decl(name: &str, typ: Type) -> Decl {
    Decl { name: name.to_string(), typ: Some(typ) }
}

fn meta(decls: Vec<Decl>) -> Metadata {
    Metadata { decls }
}

fn seg(value: &str, seg_type: i32) -> PathSegment {
    PathSegment { value: value.to_string(), seg_type, value_type: PARAM_STRING }
}

fn path(segs: Vec<PathSegment>) -> PathTemplate {
    PathTemplate { segments: segs }
}

fn rpc(methods: &[&str], request: Option<Type>, p: Option<PathTemplate>) -> Rpc {
    Rpc {
        service_name: "svc".to_string(),
        name: "ep".to_string(),
        http_methods: methods.iter().map(|m| m.to_string()).collect(),
        streaming_request: false,
        streaming_response: false,
        request_schema: request,
        response_schema: None,
        handshake_schema: None,
        path: p,
    }
}

fn names(v: &StructValue) -> Vec<String> {
    v.fields.iter().map(|f| f.name.clone()).collect()
}

fn value(b: &Builder, h: Option<usize>) -> &StructValue {
    &b.values[h.expect("a handle")]
}

fn compute_with(
    m: &Metadata,
    b: &mut Builder,
    d: Option<DefaultLoc>,
    p: Option<&PathTemplate>,
    t: &Type,
) -> Result<SchemaUnderConstruction, EncodingError> {
    let cfg = EncodingConfig {
        meta: m,
        default_loc: d,
        rpc_path: p,
        supports_body: true,
        supports_query: true,
        supports_header: true,
        supports_path: true,
    };
    cfg.compute(b, t)
}

#[test]
fn self_reference_stays_unexpanded() {
    let m = meta(vec![decl("Node", strukt(vec![field("next", named(0, vec![]), None)]))]);
    let r = resolve_type(&m.decls, &named(0, vec![])).unwrap();
    assert_eq!(r, strukt(vec![field("next", named(0, vec![]), None)]));
}

#[test]
fn cycle_through_five_declarations_terminates() {
    let mut decls = Vec::new();
    for i in 0..5u32 {
        decls.push(decl("D", strukt(vec![field("next", named((i + 1) % 5, vec![]), None)])));
    }
    let m = meta(decls);
    let r = resolve_type(&m.decls, &named(0, vec![])).unwrap();
    let mut expected = named(0, vec![]);
    for _ in 0..5 {
        expected = strukt(vec![field("next", expected, None)]);
    }
    assert_eq!(r, expected);
}

#[test]
fn type_arguments_are_substituted() {
    let generic = strukt(vec![field("v", Type::TypeParameter { param_idx: 0 }, None)]);
    let m = meta(vec![decl("Box", generic)]);
    let r = resolve_type(&m.decls, &named(0, vec![builtin(7)])).unwrap();
    assert_eq!(r, strukt(vec![field("v", builtin(7), None)]));
}

#[test]
fn type_parameter_out_of_range_is_malformed() {
    let generic = strukt(vec![field("v", Type::TypeParameter { param_idx: 1 }, None)]);
    let m = meta(vec![decl("Box", generic)]);
    let r = resolve_type(&m.decls, &named(0, vec![builtin(7)]));
    assert_eq!(r, Err(EncodingError::MalformedMetadata));
}

#[test]
fn unknown_declaration_is_malformed() {
    let m = meta(vec![]);
    assert_eq!(resolve_type(&m.decls, &named(3, vec![])), Err(EncodingError::MalformedMetadata));
}

#[test]
fn pointer_resolves_to_its_base() {
    let m = meta(vec![]);
    let t = Type::Pointer { base: Some(Box::new(builtin(2))) };
    assert_eq!(resolve_type(&m.decls, &t), Ok(builtin(2)));
    let missing = Type::Pointer { base: None };
    assert_eq!(resolve_type(&m.decls, &missing), Err(EncodingError::MalformedMetadata));
}

#[test]
fn concrete_type_resolves_to_itself() {
    let m = meta(vec![]);
    let t = strukt(vec![
        field("a", builtin(1), None),
        field(
            "b",
            Type::Mapping {
                key: Some(Box::new(builtin(3))),
                value: Some(Box::new(builtin(4))),
                key_validation: Some(1),
                value_validation: None,
            },
            None,
        ),
        field(
            "c",
            Type::List {
                elem: Some(Box::new(Type::Literal { value: "x".to_string() })),
                elem_validation: Some(2),
            },
            None,
        ),
        field("d", Type::Union { types: type_list(vec![builtin(1), builtin(2)]) }, None),
    ]);
    let r = resolve_type(&m.decls, &t).unwrap();
    assert_eq!(r, t);
}

#[test]
fn map_without_value_is_malformed() {
    let m = meta(vec![]);
    let t = Type::Mapping {
        key: Some(Box::new(builtin(3))),
        value: None,
        key_validation: None,
        value_validation: None,
    };
    assert_eq!(resolve_type(&m.decls, &t), Err(EncodingError::MalformedMetadata));
}

#[test]
fn fields_split_across_locations() {
    let m = meta(vec![]);
    let t = strukt(vec![
        field("a", builtin(1), None),
        field("b", builtin(1), Some(WireSpec::Header { name: None })),
        field("c", builtin(1), Some(WireSpec::Query)),
        field("d", builtin(1), Some(WireSpec::Cookie { name: Some("sess".to_string()) })),
        field("id", builtin(1), Some(WireSpec::Header { name: None })),
    ]);
    let p = path(vec![seg("users", SEGMENT_LITERAL), seg("id", SEGMENT_PARAM)]);
    let mut b = Builder::new();
    let s = compute_with(&m, &mut b, Some(DefaultLoc::Body), Some(&p), &t).unwrap();
    assert_eq!(names(value(&b, s.combined)), vec!["a", "b", "c", "d"]);
    assert_eq!(names(value(&b, s.body)), vec!["a"]);
    assert_eq!(names(value(&b, s.query)), vec!["c"]);
    assert_eq!(names(value(&b, s.header)), vec!["b"]);
    assert_eq!(names(value(&b, s.cookie)), vec!["d"]);
    assert_eq!(value(&b, s.header).fields[0].name_override, Some("b".to_string()));
    assert_eq!(value(&b, s.cookie).fields[0].name_override, Some("sess".to_string()));
    assert_eq!(value(&b, s.body).fields[0].name_override, None);
    assert_eq!(s.combined, Some(0));
    assert_eq!(b.values.len(), 5);
    assert_eq!(s.rpc_path, Some(p));
}

#[test]
fn path_fields_are_excluded_from_every_group() {
    let m = meta(vec![]);
    let t = strukt(vec![
        field("rest", builtin(1), Some(WireSpec::Query)),
        field("key", builtin(1), Some(WireSpec::Cookie { name: None })),
        field("x", builtin(1), None),
    ]);
    let p = path(vec![seg("rest", SEGMENT_WILDCARD), seg("key", SEGMENT_PARAM)]);
    let mut b = Builder::new();
    let s = compute_with(&m, &mut b, Some(DefaultLoc::Query), Some(&p), &t).unwrap();
    assert_eq!(names(value(&b, s.combined)), vec!["x"]);
    assert_eq!(names(value(&b, s.query)), vec!["x"]);
    assert_eq!(s.body, None);
    assert_eq!(s.header, None);
    assert_eq!(s.cookie, None);
}

#[test]
fn empty_struct_registers_only_combined() {
    let m = meta(vec![]);
    let mut b = Builder::new();
    let s = compute_with(&m, &mut b, Some(DefaultLoc::Body), None, &strukt(vec![])).unwrap();
    assert_eq!(s.combined, Some(0));
    assert_eq!(s.body, None);
    assert_eq!(b.values.len(), 1);
    assert!(b.values[0].fields.is_empty());
}

#[test]
fn non_struct_payload_has_no_groups() {
    let m = meta(vec![]);
    let mut b = Builder::new();
    let p = path(vec![seg("x", SEGMENT_LITERAL)]);
    let s = compute_with(&m, &mut b, Some(DefaultLoc::Body), Some(&p), &builtin(1)).unwrap();
    assert_eq!(s.combined, None);
    assert_eq!(s.rpc_path, Some(path(vec![seg("x", SEGMENT_LITERAL)])));
    assert!(b.values.is_empty());
}

#[test]
fn missing_default_location_fails() {
    let m = meta(vec![]);
    let mut b = Builder::new();
    let t = strukt(vec![field("a", builtin(1), None)]);
    let r = compute_with(&m, &mut b, None, None, &t);
    assert_eq!(r.err(), Some(EncodingError::MissingLocation { field: "a".to_string() }));
    let annotated = strukt(vec![field("a", builtin(1), Some(WireSpec::Query))]);
    assert!(compute_with(&m, &mut b, None, None, &annotated).is_ok());
}

#[test]
fn field_without_type_is_malformed() {
    let m = meta(vec![]);
    let mut b = Builder::new();
    let f = Field { name: "a".to_string(), typ: None, optional: false, validation: None, wire: None };
    let t = Type::Struct { fields: FieldList::Cons { head: Box::new(f), tail: Box::new(FieldList::Nil) } };
    let r = compute_with(&m, &mut b, Some(DefaultLoc::Body), None, &t);
    assert!(matches!(r, Err(EncodingError::MalformedMetadata)));
}

#[test]
fn invalid_segment_kind_is_malformed() {
    let m = meta(vec![]);
    let mut b = Builder::new();
    let p = path(vec![seg("x", 9)]);
    let t = strukt(vec![field("a", builtin(1), None)]);
    let r = compute_with(&m, &mut b, Some(DefaultLoc::Body), Some(&p), &t);
    assert!(matches!(r, Err(EncodingError::MalformedMetadata)));
    assert!(b.values.is_empty());
}

#[test]
fn config_field_fails_whole_compute() {
    let m = meta(vec![]);
    let mut b = Builder::new();
    let t = strukt(vec![field("a", builtin(1), None), field("cfg", Type::Config, None)]);
    let r = compute_with(&m, &mut b, Some(DefaultLoc::Body), None, &t);
    assert!(matches!(r, Err(EncodingError::UnsupportedType)));
    assert!(b.values.is_empty());
}

#[test]
fn methods_group_by_body_support() {
    let m = meta(vec![]);
    let t = strukt(vec![
        field("F", builtin(1), None),
        field("x", builtin(1), Some(WireSpec::Header { name: Some("X-Foo".to_string()) })),
    ]);
    let r = rpc(&["GET", "POST"], Some(t), None);
    let mut b = Builder::new();
    let groups = request_encoding(&mut b, &m, &r).unwrap();
    assert_eq!(groups.len(), 2);
    let post = groups.iter().find(|g| g.methods == vec![Method::POST]).unwrap();
    let get = groups.iter().find(|g| g.methods == vec![Method::GET]).unwrap();
    assert_eq!(names(value(&b, post.schema.body)), vec!["F"]);
    assert_eq!(post.schema.query, None);
    assert_eq!(names(value(&b, get.schema.query)), vec!["F"]);
    assert_eq!(get.schema.body, None);
    for g in [post, get] {
        let h = value(&b, g.schema.header);
        assert_eq!(names(h), vec!["x"]);
        assert_eq!(h.fields[0].name_override, Some("X-Foo".to_string()));
    }
}

#[test]
fn split_by_loc_puts_body_methods_first() {
    let groups = split_by_loc(&vec![Method::GET, Method::PUT, Method::DELETE, Method::PATCH]);
    assert_eq!(groups.len(), 2);
    assert_eq!(groups[0].0, DefaultLoc::Body);
    assert_eq!(groups[0].1, vec![Method::PUT, Method::PATCH]);
    assert_eq!(groups[1].0, DefaultLoc::Query);
    assert_eq!(groups[1].1, vec![Method::GET, Method::DELETE]);
    assert!(split_by_loc(&vec![]).is_empty());
}

#[test]
fn streaming_request_has_one_body_group() {
    let m = meta(vec![]);
    let t = strukt(vec![field("a", builtin(1), None), field("b", builtin(1), None)]);
    let mut r = rpc(&["GET", "POST", "PUT"], Some(t), Some(path(vec![seg("id", SEGMENT_PARAM)])));
    r.streaming_request = true;
    let mut b = Builder::new();
    let groups = request_encoding(&mut b, &m, &r).unwrap();
    assert_eq!(groups.len(), 1);
    assert_eq!(groups[0].methods, vec![Method::GET]);
    let s = &groups[0].schema;
    assert_eq!(names(value(&b, s.body)), vec!["a", "b"]);
    assert_eq!(s.query, None);
    assert_eq!(s.header, None);
    assert_eq!(s.rpc_path, None);
}

#[test]
fn request_without_schema_shares_one_group() {
    let m = meta(vec![]);
    let r = rpc(&["GET", "POST"], None, None);
    let mut b = Builder::new();
    let groups = request_encoding(&mut b, &m, &r).unwrap();
    assert_eq!(groups.len(), 1);
    assert_eq!(groups[0].methods, vec![Method::GET, Method::POST]);
    assert_eq!(groups[0].schema.combined, None);
    let p = groups[0].schema.rpc_path.as_ref().unwrap();
    assert_eq!(p.segments.len(), 1);
    assert_eq!(p.segments[0].value, "svc.ep");
    assert_eq!(p.segments[0].seg_type, SEGMENT_LITERAL);
}

#[test]
fn unknown_method_is_rejected() {
    let m = meta(vec![]);
    let r = rpc(&["GET", "FETCH"], None, None);
    let mut b = Builder::new();
    assert!(matches!(request_encoding(&mut b, &m, &r), Err(EncodingError::InvalidMethod)));
    let lower = rpc(&["get"], None, None);
    assert!(matches!(request_encoding(&mut b, &m, &lower), Err(EncodingError::InvalidMethod)));
}

#[test]
fn handshake_flag_from_wildcard_path() {
    let m = meta(vec![]);
    let mut r = rpc(&["GET"], None, Some(path(vec![seg("files", SEGMENT_LITERAL), seg("rest", SEGMENT_WILDCARD)])));
    r.streaming_response = true;
    let mut b = Builder::new();
    let h = handshake_encoding(&mut b, &m, &r).unwrap().unwrap();
    assert!(h.parse_data);
    assert_eq!(h.schema.combined, None);
    assert_eq!(h.schema.body, None);
    assert_eq!(h.schema.query, None);
    assert_eq!(h.schema.header, None);
    assert_eq!(h.schema.cookie, None);
    assert!(b.values.is_empty());
}

#[test]
fn handshake_flag_false_for_literal_path() {
    let m = meta(vec![]);
    let mut r = rpc(&["GET"], None, Some(path(vec![seg("files", SEGMENT_LITERAL)])));
    r.streaming_request = true;
    let mut b = Builder::new();
    let h = handshake_encoding(&mut b, &m, &r).unwrap().unwrap();
    assert!(!h.parse_data);
}

#[test]
fn handshake_absent_without_streaming() {
    let m = meta(vec![]);
    let r = rpc(&["GET"], None, None);
    let mut b = Builder::new();
    assert!(handshake_encoding(&mut b, &m, &r).unwrap().is_none());
}

#[test]
fn handshake_schema_defaults_to_query() {
    let m = meta(vec![]);
    let mut r = rpc(&["GET"], None, None);
    r.streaming_request = true;
    r.handshake_schema = Some(strukt(vec![field("token", builtin(1), None)]));
    let mut b = Builder::new();
    let h = handshake_encoding(&mut b, &m, &r).unwrap().unwrap();
    assert!(h.parse_data);
    assert_eq!(names(value(&b, h.schema.query)), vec!["token"]);
    assert_eq!(h.schema.body, None);
}

#[test]
fn response_defaults_to_body() {
    let m = meta(vec![]);
    let mut r = rpc(&["GET"], None, None);
    r.response_schema = Some(strukt(vec![
        field("data", builtin(1), None),
        field("etag", builtin(1), Some(WireSpec::Header { name: Some("ETag".to_string()) })),
    ]));
    let mut b = Builder::new();
    let s = response_encoding(&mut b, &m, &r).unwrap();
    assert_eq!(names(value(&b, s.body)), vec!["data"]);
    assert_eq!(names(value(&b, s.header)), vec!["etag"]);
    assert_eq!(s.rpc_path, None);
    let none = rpc(&["GET"], None, None);
    let s2 = response_encoding(&mut b, &m, &none).unwrap();
    assert_eq!(s2.combined, None);
}

#[test]
fn build_reads_registered_values() {
    let m = meta(vec![]);
    let t = strukt(vec![field("a", builtin(1), None), field("b", builtin(1), Some(WireSpec::Query))]);
    let p = path(vec![seg("x", SEGMENT_LITERAL)]);
    let mut b = Builder::new();
    let s = compute_with(&m, &mut b, Some(DefaultLoc::Body), Some(&p), &t).unwrap();
    let reg = b.freeze();
    let built = s.build(&reg).unwrap();
    assert_eq!(names(built.combined.as_ref().unwrap()), vec!["a", "b"]);
    assert_eq!(names(built.body.as_ref().unwrap()), vec!["a"]);
    assert_eq!(names(built.query.as_ref().unwrap()), vec!["b"]);
    assert!(built.header.is_none());
    assert_eq!(built.path, Some(path(vec![seg("x", SEGMENT_LITERAL)])));
}

#[test]
fn build_rejects_unknown_value_type() {
    let reg = Builder::new().freeze();
    let bad = PathSegment { value: "id".to_string(), seg_type: SEGMENT_PARAM, value_type: 99 };
    let s = SchemaUnderConstruction {
        combined: None,
        body: None,
        query: None,
        header: None,
        cookie: None,
        rpc_path: Some(path(vec![bad])),
    };
    assert!(matches!(s.build(&reg), Err(EncodingError::MalformedMetadata)));
}

#[test]
fn default_loc_converts() {
    assert!(matches!(DefaultLoc::Body.into_wire_loc(), WireLoc::Body));
    assert!(matches!(DefaultLoc::Query.into_wire_loc(), WireLoc::Query));
}

#[test]
fn struct_field_copies_metadata() {
    let b = Builder::new();
    let f = Field {
        name: "n".to_string(),
        typ: Some(builtin(5)),
        optional: true,
        validation: Some(3),
        wire: None,
    };
    let e = b.struct_field(&f).unwrap();
    assert_eq!(
        e,
        FieldEntry {
            name: "n".to_string(),
            typ: builtin(5),
            optional: true,
            validation: Some(3),
            name_override: None,
        }
    );
}

#[test]
fn validation_is_kept_through_substitution() {
    let generic = Type::Union {
        types: TypeList::Cons {
            head: Box::new(Type::TypeParameter { param_idx: 0 }),
            validation: Some(4),
            tail: Box::new(TypeList::Cons {
                head: Box::new(Type::List {
                    elem: Some(Box::new(Type::TypeParameter { param_idx: 0 })),
                    elem_validation: Some(5),
                }),
                validation: None,
                tail: Box::new(TypeList::Nil),
            }),
        },
    };
    let m = meta(vec![decl("U", generic)]);
    let r = resolve_type(&m.decls, &named(0, vec![builtin(8)])).unwrap();
    let expected = Type::Union {
        types: TypeList::Cons {
            head: Box::new(builtin(8)),
            validation: Some(4),
            tail: Box::new(TypeList::Cons {
                head: Box::new(Type::List { elem: Some(Box::new(builtin(8))), elem_validation: Some(5) }),
                validation: None,
                tail: Box::new(TypeList::Nil),
            }),
        },
    };
    assert_eq!(r, expected);
}

#[test]
fn streaming_request_ignores_query_and_header_annotations() {
    let m = meta(vec![]);
    let t = strukt(vec![
        field("a", builtin(1), Some(WireSpec::Query)),
        field("b", builtin(1), Some(WireSpec::Header { name: None })),
        field("c", builtin(1), Some(WireSpec::Cookie { name: None })),
    ]);
    let mut r = rpc(&["GET"], Some(t), None);
    r.streaming_request = true;
    let mut b = Builder::new();
    let groups = request_encoding(&mut b, &m, &r).unwrap();
    assert_eq!(groups.len(), 1);
    let s = &groups[0].schema;
    assert_eq!(names(value(&b, s.body)), vec!["a", "b", "c"]);
    assert_eq!(s.query, None);
    assert_eq!(s.header, None);
    assert_eq!(s.cookie, None);
}

#[test]
fn response_moves_query_annotation_to_body() {
    let m = meta(vec![]);
    let mut r = rpc(&["GET"], None, None);
    r.response_schema = Some(strukt(vec![field("q", builtin(1), Some(WireSpec::Query))]));
    let mut b = Builder::new();
    let s = response_encoding(&mut b, &m, &r).unwrap();
    assert_eq!(names(value(&b, s.body)), vec!["q"]);
    assert_eq!(s.query, None);
}

#[test]
fn unsupported_annotation_without_default_fails() {
    let m = meta(vec![]);
    let mut b = Builder::new();
    let cfg = EncodingConfig {
        meta: &m,
        default_loc: None,
        rpc_path: None,
        supports_body: true,
        supports_query: false,
        supports_header: true,
        supports_path: false,
    };
    let t = strukt(vec![field("q", builtin(1), Some(WireSpec::Query))]);
    assert_eq!(cfg.compute(&mut b, &t).err(), Some(EncodingError::MissingLocation { field: "q".to_string() }));
}

#[test]
fn body_default_without_body_support_fails() {
    let m = meta(vec![]);
    let mut b = Builder::new();
    let cfg = EncodingConfig {
        meta: &m,
        default_loc: Some(DefaultLoc::Body),
        rpc_path: None,
        supports_body: false,
        supports_query: true,
        supports_header: true,
        supports_path: true,
    };
    let t = strukt(vec![field("x", builtin(1), None), field("y", builtin(1), Some(WireSpec::Query))]);
    assert_eq!(cfg.compute(&mut b, &t).err(), Some(EncodingError::MissingLocation { field: "x".to_string() }));
}

#[test]
fn repeated_field_name_keeps_each_field() {
    let m = meta(vec![]);
    let mut b = Builder::new();
    let t = strukt(vec![
        field("a", builtin(1), Some(WireSpec::Query)),
        field("a", builtin(2), Some(WireSpec::Query)),
    ]);
    let s = compute_with(&m, &mut b, None, None, &t).unwrap();
    assert_eq!(names(value(&b, s.combined)), vec!["a", "a"]);
    let q = value(&b, s.query);
    assert_eq!(names(q), vec!["a", "a"]);
    assert_eq!(q.fields[0].typ, builtin(1));
    assert_eq!(q.fields[1].typ, builtin(2));
    assert_eq!(s.body, None);
}

#[test]
fn cycle_with_extra_fields_expands_each_declaration_once() {
    let mut decls = Vec::new();
    for i in 0..3u32 {
        decls.push(decl(
            "D",
            strukt(vec![field("next", named((i + 1) % 3, vec![]), None), field("n", builtin(i), None)]),
        ));
    }
    let m = meta(decls);
    let r = resolve_type(&m.decls, &named(0, vec![])).unwrap();
    let mut expected = named(0, vec![]);
    for i in (0..3u32).rev() {
        expected = strukt(vec![field("next", expected, None), field("n", builtin(i), None)]);
    }
    assert_eq!(r, expected);
}
