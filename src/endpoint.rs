//! Schema construction for an endpoint: the handshake of a streaming
//! endpoint, the request (one schema per method group) and the response.
use vstd::prelude::*;
use crate::encoding::{
    DefaultLoc, EncodingConfig, PARAM_TYPE_COUNT, PathSegment, PathTemplate, SEGMENT_FALLBACK,
    SEGMENT_LITERAL, SEGMENT_PARAM, SEGMENT_WILDCARD, SchemaUnderConstruction, SegmentView,
    binds_field, compute_post, compute_spec, lemma_compute_outcome_kind, no_handles, outcome_post,
    lemma_body_only, placement, reg_of, same_path, schema_matches, segment_kind_valid,
};
use crate::error::EncodingError;
use crate::method::{Method, method_groups, parse_all, parse_methods, split_by_loc};
use crate::model::{Metadata, Type};
use crate::registry::{Builder, FieldEntry, Registry, StructValue, values_view};

verus! {

/// The value type code of a string path parameter.
pub const PARAM_STRING: i32 = 0;

/// An endpoint as the metadata describes it.
pub struct Rpc {
    pub service_name: String,
    pub name: String,
    pub http_methods: Vec<String>,
    pub streaming_request: bool,
    pub streaming_response: bool,
    pub request_schema: Option<Type>,
    pub response_schema: Option<Type>,
    pub handshake_schema: Option<Type>,
    pub path: Option<PathTemplate>,
}

pub struct ReqSchemaUnderConstruction {
    pub methods: Vec<Method>,
    pub schema: SchemaUnderConstruction,
}

pub struct HandshakeSchemaUnderConstruction {
    /// Whether the handshake reads data out of the path.
    pub parse_data: bool,
    pub schema: SchemaUnderConstruction,
}

/// The schemas of one method group, built against a frozen registry.
pub struct Schema {
    pub combined: Option<StructValue>,
    pub query: Option<StructValue>,
    pub header: Option<StructValue>,
    pub body: Option<StructValue>,
    pub path: Option<PathTemplate>,
    pub cookie: Option<StructValue>,
}

pub struct ReqSchema {
    pub methods: Vec<Method>,
    pub schema: Schema,
}

pub struct HandshakeSchema {
    pub parse_data: bool,
    pub schema: Schema,
}

pub open spec fn is_streaming(rpc: Rpc) -> bool {
    rpc.streaming_request || rpc.streaming_response
}

/// The endpoint's path template; without one, the single literal segment
/// `service.endpoint`.
pub open spec fn endpoint_path(rpc: Rpc) -> Seq<SegmentView> {
    match rpc.path {
        Some(p) => p@,
        None => seq![
            SegmentView {
                value: rpc.service_name@ + "."@ + rpc.name@,
                seg_type: SEGMENT_LITERAL,
                value_type: PARAM_STRING,
            },
        ],
    }
}

/// The endpoint declares a path with a parameter, wildcard or fallback segment.
pub open spec fn has_path_params(p: Option<PathTemplate>) -> bool {
    match p {
        None => false,
        Some(t) => any_binding(t@),
    }
}

pub open spec fn any_binding(p: Seq<SegmentView>) -> bool {
    exists|i: int| 0 <= i < p.len() && binds_field(#[trigger] p[i])
}

/// `s` has no groups and carries `path`.
pub open spec fn empty_schema(s: SchemaUnderConstruction, path: Option<Seq<SegmentView>>) -> bool {
    no_handles(s) && same_path(s.rpc_path, path)
}

pub open spec fn handshake_post(
    decls: Seq<crate::model::Decl>,
    rpc: Rpc,
    r: Result<Option<HandshakeSchemaUnderConstruction>, EncodingError>,
    before: Seq<StructValue>,
    after: Seq<StructValue>,
) -> bool {
    if !is_streaming(rpc) {
        r matches Ok(None) && after == before
    } else {
        let path = Some(endpoint_path(rpc));
        match rpc.handshake_schema {
            None => r matches Ok(Some(h)) && h.parse_data == has_path_params(rpc.path) && empty_schema(
                h.schema,
                path,
            ) && after == before,
            Some(t) => match compute_spec(decls, path, placement(Some(DefaultLoc::Query), true, true), t) {
                Err(e) => r == Err::<Option<HandshakeSchemaUnderConstruction>, EncodingError>(e)
                    && after == before,
                Ok(o) => r matches Ok(Some(h)) && h.parse_data && outcome_post(
                    o,
                    path,
                    h.schema,
                    before,
                    after,
                ),
            },
        }
    }
}

/// The values that partitioning `t` for each group of `gs` adds, in order.
pub open spec fn added(
    decls: Seq<crate::model::Decl>,
    path: Option<Seq<SegmentView>>,
    t: Type,
    gs: Seq<(DefaultLoc, Seq<Method>)>,
) -> Seq<Seq<FieldEntry>>
    decreases gs.len(),
{
    if gs.len() == 0 {
        Seq::empty()
    } else {
        added(decls, path, t, gs.drop_last()) + reg_of(
            compute_spec(decls, path, placement(Some(gs.last().0), true, true), t)->Ok_0,
        )
    }
}

/// One schema per method group in `gs`, each partitioned with its group's
/// default location; the registry grows by each group's values in turn.
pub open spec fn groups_post(
    decls: Seq<crate::model::Decl>,
    path: Option<Seq<SegmentView>>,
    t: Type,
    gs: Seq<(DefaultLoc, Seq<Method>)>,
    r: Result<Vec<ReqSchemaUnderConstruction>, EncodingError>,
    before: Seq<StructValue>,
    after: Seq<StructValue>,
) -> bool {
    if gs.len() == 0 {
        r matches Ok(v) && v@.len() == 0 && after == before
    } else {
        match compute_spec(decls, path, placement(Some(DefaultLoc::Body), true, true), t) {
            Err(e) => r == Err::<Vec<ReqSchemaUnderConstruction>, EncodingError>(e) && after == before,
            Ok(_) => r matches Ok(v) && v@.len() == gs.len() && values_view(after) == values_view(
                before,
            ) + added(decls, path, t, gs) && forall|i: int|
                0 <= i < gs.len() ==> (#[trigger] v@[i]).methods@ == gs[i].1 && schema_matches(
                    v@[i].schema,
                    compute_spec(decls, path, placement(Some(gs[i].0), true, true), t)->Ok_0,
                    (before.len() + added(decls, path, t, gs.take(i)).len()) as int,
                    path,
                ),
        }
    }
}

/// `s` carries no query, header or cookie group.
pub open spec fn body_only(s: SchemaUnderConstruction) -> bool {
    s.query is None && s.header is None && s.cookie is None
}

/// A single request schema for the placeholder method GET.
pub open spec fn single_request(r: Result<Vec<ReqSchemaUnderConstruction>, EncodingError>) -> bool {
    r matches Ok(v) && v@.len() == 1 && v@[0].methods@ == seq![Method::GET]
}

pub open spec fn request_post(
    decls: Seq<crate::model::Decl>,
    rpc: Rpc,
    r: Result<Vec<ReqSchemaUnderConstruction>, EncodingError>,
    before: Seq<StructValue>,
    after: Seq<StructValue>,
) -> bool {
    if is_streaming(rpc) {
        match rpc.request_schema {
            None => single_request(r) && empty_schema(r->Ok_0@[0].schema, None) && after == before,
            Some(t) => match compute_spec(decls, None, placement(Some(DefaultLoc::Body), false, false), t) {
                Err(e) => r == Err::<Vec<ReqSchemaUnderConstruction>, EncodingError>(e) && after
                    == before,
                Ok(o) => single_request(r) && outcome_post(o, None, r->Ok_0@[0].schema, before, after)
                    && body_only(r->Ok_0@[0].schema),
            },
        }
    } else {
        match parse_methods(rpc.http_methods@) {
            None => r == Err::<Vec<ReqSchemaUnderConstruction>, EncodingError>(
                EncodingError::InvalidMethod,
            ) && after == before,
            Some(ms) => match rpc.request_schema {
                None => r matches Ok(v) && v@.len() == 1 && v@[0].methods@ == ms && empty_schema(
                    v@[0].schema,
                    Some(endpoint_path(rpc)),
                ) && after == before,
                Some(t) => groups_post(
                    decls,
                    Some(endpoint_path(rpc)),
                    t,
                    method_groups(ms),
                    r,
                    before,
                    after,
                ),
            },
        }
    }
}

pub open spec fn response_post(
    decls: Seq<crate::model::Decl>,
    rpc: Rpc,
    r: Result<SchemaUnderConstruction, EncodingError>,
    before: Seq<StructValue>,
    after: Seq<StructValue>,
) -> bool {
    match rpc.response_schema {
        None => r matches Ok(s) && empty_schema(s, None) && after == before,
        Some(t) => compute_post(
            compute_spec(decls, None, placement(Some(DefaultLoc::Body), false, true), t),
            None,
            r,
            before,
            after,
        ),
    }
}

fn just_get() -> (r: Vec<Method>)
    ensures
        r@ == seq![Method::GET],
{
    let mut v: Vec<Method> = Vec::new();
    v.push(Method::GET);
    assert(v@ =~= seq![Method::GET]);
    v
}

fn no_schema(path: Option<PathTemplate>) -> (r: SchemaUnderConstruction)
    ensures
        no_handles(r),
        r.rpc_path == path,
{
    SchemaUnderConstruction {
        combined: None,
        body: None,
        query: None,
        header: None,
        cookie: None,
        rpc_path: path,
    }
}

fn make_endpoint_path(rpc: &Rpc) -> (r: PathTemplate)
    ensures
        r@ == endpoint_path(*rpc),
{
    match &rpc.path {
        Some(p) => p.copy(),
        None => {
            let value = rpc.service_name.clone().concat(".").concat(rpc.name.as_str());
            let mut segments: Vec<PathSegment> = Vec::new();
            segments.push(PathSegment { value, seg_type: SEGMENT_LITERAL, value_type: PARAM_STRING });
            let r = PathTemplate { segments };
            assert(r@ =~= endpoint_path(*rpc));
            r
        },
    }
}

fn path_has_params(p: &Option<PathTemplate>) -> (r: bool)
    ensures
        r == has_path_params(*p),
{
    match p {
        None => false,
        Some(t) => {
            let mut i: usize = 0;
            while i < t.segments.len()
                invariant
                    *p == Some(*t),
                    i <= t.segments.len(),
                    forall|j: int| 0 <= j < i ==> !binds_field(#[trigger] t@[j]),
                decreases t.segments.len() - i,
            {
                let k = t.segments[i].seg_type;
                assert(t@[i as int] == t.segments@[i as int]@);
                if k == SEGMENT_PARAM || k == SEGMENT_WILDCARD || k == SEGMENT_FALLBACK {
                    assert(t@[i as int] == t.segments@[i as int]@);
                    assert(binds_field(t@[i as int]));
                    assert(any_binding(t@));
                    return true;
                }
                i = i + 1;
            }
            false
        },
    }
}

fn copy_methods(v: &Vec<Method>) -> (r: Vec<Method>)
    ensures
        r@ == v@,
{
    let mut out: Vec<Method> = Vec::new();
    let mut i: usize = 0;
    while i < v.len()
        invariant
            i <= v.len(),
            out@ == v@.take(i as int),
        decreases v.len() - i,
    {
        out.push(v[i]);
        assert(v@.take(i + 1) =~= v@.take(i as int).push(v@[i as int]));
        i = i + 1;
    }
    assert(v@.take(i as int) =~= v@);
    out
}

/// Computes the handshake encoding of a streaming endpoint; `None` for
/// an endpoint that does not stream.
pub fn handshake_encoding(builder: &mut Builder, meta: &Metadata, rpc: &Rpc) -> (r: Result<
    Option<HandshakeSchemaUnderConstruction>,
    EncodingError,
>)
    ensures
        handshake_post(meta.decls@, *rpc, r, old(builder).values@, final(builder).values@),
{
    if !rpc.streaming_request && !rpc.streaming_response {
        return Ok(None);
    }
    let rpc_path = make_endpoint_path(rpc);
    let handshake_schema = match &rpc.handshake_schema {
        None => {
            let parse_data = path_has_params(&rpc.path);
            return Ok(
                Some(HandshakeSchemaUnderConstruction { parse_data, schema: no_schema(Some(rpc_path)) }),
            );
        },
        Some(t) => t,
    };
    let config = EncodingConfig {
        meta,
        default_loc: Some(DefaultLoc::Query),
        rpc_path: Some(&rpc_path),
        supports_body: false,
        supports_query: true,
        supports_header: true,
        supports_path: true,
    };
    let schema = match config.compute(builder, handshake_schema) {
        Err(e) => return Err(e),
        Ok(s) => s,
    };
    Ok(Some(HandshakeSchemaUnderConstruction { parse_data: true, schema }))
}

/// Computes the request encoding: one schema for a streaming endpoint,
/// otherwise one per group of methods that share a default location.
pub fn request_encoding(builder: &mut Builder, meta: &Metadata, rpc: &Rpc) -> (r: Result<
    Vec<ReqSchemaUnderConstruction>,
    EncodingError,
>)
    ensures
        request_post(meta.decls@, *rpc, r, old(builder).values@, final(builder).values@),
{
    if rpc.streaming_request || rpc.streaming_response {
        let request_schema = match &rpc.request_schema {
            None => {
                let mut v: Vec<ReqSchemaUnderConstruction> = Vec::new();
                v.push(ReqSchemaUnderConstruction { methods: just_get(), schema: no_schema(None) });
                return Ok(v);
            },
            Some(t) => t,
        };
        let config = EncodingConfig {
            meta,
            default_loc: Some(DefaultLoc::Body),
            rpc_path: None,
            supports_body: true,
            supports_query: false,
            supports_header: false,
            supports_path: false,
        };
        let schema = match config.compute(builder, request_schema) {
            Err(e) => return Err(e),
            Ok(s) => s,
        };
        proof {
            if let Ok(Type::Struct { fields }) = crate::resolve::resolve_top(meta.decls@, *request_schema) {
                lemma_body_only(fields, None);
            }
        }
        let mut v: Vec<ReqSchemaUnderConstruction> = Vec::new();
        v.push(ReqSchemaUnderConstruction { methods: just_get(), schema });
        return Ok(v);
    }
    let methods = match parse_all(&rpc.http_methods) {
        Err(e) => return Err(e),
        Ok(ms) => ms,
    };
    let rpc_path = make_endpoint_path(rpc);
    let request_schema = match &rpc.request_schema {
        None => {
            let mut v: Vec<ReqSchemaUnderConstruction> = Vec::new();
            v.push(ReqSchemaUnderConstruction { methods, schema: no_schema(Some(rpc_path)) });
            return Ok(v);
        },
        Some(t) => t,
    };
    let groups = split_by_loc(&methods);
    let ghost gs = method_groups(methods@);
    let ghost path = Some(rpc_path@);
    let ghost decls = meta.decls@;
    let ghost before = builder.values@;
    let mut schemas: Vec<ReqSchemaUnderConstruction> = Vec::new();
    let mut i: usize = 0;
    while i < groups.len()
        invariant
            groups@.len() == gs.len(),
            forall|k: int|
                0 <= k < gs.len() ==> (#[trigger] groups@[k]).0 == gs[k].0 && groups@[k].1@ == gs[k].1,
            path == Some(rpc_path@),
            path == Some(endpoint_path(*rpc)),
            decls == meta.decls@,
            before == old(builder).values@,
            gs == method_groups(parse_methods(rpc.http_methods@)->Some_0),
            parse_methods(rpc.http_methods@) is Some,
            !is_streaming(*rpc),
            rpc.request_schema == Some(*request_schema),
            i <= groups.len(),
            schemas@.len() == i,
            i == 0 ==> builder.values@ == before,
            i > 0 ==> compute_spec(decls, path, placement(Some(DefaultLoc::Body), true, true), *request_schema) is Ok,
            values_view(builder.values@) == values_view(before) + added(
                decls,
                path,
                *request_schema,
                gs.take(i as int),
            ),
            forall|k: int|
                0 <= k < i ==> (#[trigger] schemas@[k]).methods@ == gs[k].1 && schema_matches(
                    schemas@[k].schema,
                    compute_spec(decls, path, placement(Some(gs[k].0), true, true), *request_schema)->Ok_0,
                    (before.len() + added(decls, path, *request_schema, gs.take(k)).len()) as int,
                    path,
                ),
        decreases groups.len() - i,
    {
        let loc = groups[i].0;
        let config = EncodingConfig {
            meta,
            default_loc: Some(loc),
            rpc_path: Some(&rpc_path),
            supports_body: true,
            supports_query: true,
            supports_header: true,
            supports_path: true,
        };
        let ghost bl = builder.values@;
        let res = config.compute(builder, request_schema);
        proof {
            lemma_compute_outcome_kind(decls, path, loc, DefaultLoc::Body, true, true, *request_schema);
            lemma_compute_outcome_kind(decls, path, DefaultLoc::Body, loc, true, true, *request_schema);
        }
        match res {
            Err(e) => {
                return Err(e);
            },
            Ok(s) => {
                let ghost o = compute_spec(decls, path, placement(Some(loc), true, true), *request_schema)->Ok_0;
                assert(gs.take(i + 1).drop_last() =~= gs.take(i as int));
                assert(values_view(builder.values@) =~= values_view(before) + added(
                    decls,
                    path,
                    *request_schema,
                    gs.take(i + 1),
                ));
                assert(values_view(bl).len() == bl.len());
                schemas.push(ReqSchemaUnderConstruction { methods: copy_methods(&groups[i].1), schema: s });
            },
        }
        i = i + 1;
    }
    assert(gs.take(i as int) =~= gs);
    Ok(schemas)
}

/// Computes the response encoding.
pub fn response_encoding(builder: &mut Builder, meta: &Metadata, rpc: &Rpc) -> (r: Result<
    SchemaUnderConstruction,
    EncodingError,
>)
    ensures
        response_post(meta.decls@, *rpc, r, old(builder).values@, final(builder).values@),
{
    let response_schema = match &rpc.response_schema {
        None => return Ok(no_schema(None)),
        Some(t) => t,
    };
    let config = EncodingConfig {
        meta,
        default_loc: Some(DefaultLoc::Body),
        rpc_path: None,
        supports_body: true,
        supports_query: false,
        supports_header: true,
        supports_path: false,
    };
    config.compute(builder, response_schema)
}

/// Every handle of `s` names a value of a registry with `n` values.
pub open spec fn handles_below(s: SchemaUnderConstruction, n: int) -> bool {
    &&& (s.combined matches Some(h) ==> h < n)
    &&& (s.body matches Some(h) ==> h < n)
    &&& (s.query matches Some(h) ==> h < n)
    &&& (s.header matches Some(h) ==> h < n)
    &&& (s.cookie matches Some(h) ==> h < n)
}

/// `v` is the registered value of handle `h`, if there is one.
pub open spec fn fetched(v: Option<StructValue>, h: Option<usize>, reg: Seq<StructValue>) -> bool {
    match h {
        None => v is None,
        Some(x) => v matches Some(sv) && sv.fields@ == reg[x as int].fields@,
    }
}

/// Each segment has a known kind and a known value type.
pub open spec fn path_well_typed(p: Seq<SegmentView>) -> bool {
    forall|i: int| 0 <= i < p.len() ==> segment_well_typed(#[trigger] p[i])
}

pub open spec fn segment_well_typed(s: SegmentView) -> bool {
    segment_kind_valid(s.seg_type) && 0 <= s.value_type < PARAM_TYPE_COUNT
}

pub open spec fn build_post(s: SchemaUnderConstruction, reg: Seq<StructValue>, r: Result<Schema, EncodingError>) -> bool {
    match s.rpc_path {
        Some(p) if !path_well_typed(p@) => r == Err::<Schema, EncodingError>(
            EncodingError::MalformedMetadata,
        ),
        _ => r matches Ok(out) && fetched(out.combined, s.combined, reg) && fetched(
            out.body,
            s.body,
            reg,
        ) && fetched(out.query, s.query, reg) && fetched(out.header, s.header, reg) && fetched(
            out.cookie,
            s.cookie,
            reg,
        ) && same_path(
            out.path,
            match s.rpc_path {
                Some(p) => Some(p@),
                None => None,
            },
        ),
    }
}

fn fetch(reg: &Registry, h: Option<usize>) -> (r: Option<StructValue>)
    requires
        h matches Some(x) ==> x < reg.values@.len(),
    ensures
        fetched(r, h, reg.values@),
{
    match h {
        None => None,
        Some(x) => Some(reg.schema(x)),
    }
}

fn check_path(p: &PathTemplate) -> (r: bool)
    ensures
        r == path_well_typed(p@),
{
    let mut i: usize = 0;
    while i < p.segments.len()
        invariant
            i <= p.segments.len(),
            forall|j: int| 0 <= j < i ==> segment_well_typed(#[trigger] p@[j]),
        decreases p.segments.len() - i,
    {
        let s = &p.segments[i];
        assert(p@[i as int] == p.segments@[i as int]@);
        if s.seg_type < SEGMENT_LITERAL || s.seg_type > SEGMENT_FALLBACK || s.value_type < 0
            || s.value_type >= PARAM_TYPE_COUNT {
            assert(!segment_well_typed(p@[i as int]));
            return false;
        }
        i = i + 1;
    }
    true
}

impl SchemaUnderConstruction {
    /// Looks up each group's value in the frozen registry and checks the path.
    pub fn build(self, reg: &Registry) -> (r: Result<Schema, EncodingError>)
        requires
            handles_below(self, reg.values@.len() as int),
        ensures
            build_post(self, reg.values@, r),
    {
        if let Some(p) = &self.rpc_path {
            if !check_path(p) {
                return Err(EncodingError::MalformedMetadata);
            }
        }
        Ok(
            Schema {
                combined: fetch(reg, self.combined),
                body: fetch(reg, self.body),
                query: fetch(reg, self.query),
                header: fetch(reg, self.header),
                cookie: fetch(reg, self.cookie),
                path: self.rpc_path,
            },
        )
    }
}

impl ReqSchemaUnderConstruction {
    pub fn build(self, reg: &Registry) -> (r: Result<ReqSchema, EncodingError>)
        requires
            handles_below(self.schema, reg.values@.len() as int),
        ensures
            match r {
                Ok(out) => out.methods@ == self.methods@ && build_post(
                    self.schema,
                    reg.values@,
                    Ok(out.schema),
                ),
                Err(e) => build_post(self.schema, reg.values@, Err(e)),
            },
    {
        let schema = match self.schema.build(reg) {
            Err(e) => return Err(e),
            Ok(s) => s,
        };
        Ok(ReqSchema { methods: self.methods, schema })
    }
}

impl HandshakeSchemaUnderConstruction {
    pub fn build(self, reg: &Registry) -> (r: Result<HandshakeSchema, EncodingError>)
        requires
            handles_below(self.schema, reg.values@.len() as int),
        ensures
            match r {
                Ok(out) => out.parse_data == self.parse_data && build_post(
                    self.schema,
                    reg.values@,
                    Ok(out.schema),
                ),
                Err(e) => build_post(self.schema, reg.values@, Err(e)),
            },
    {
        let schema = match self.schema.build(reg) {
            Err(e) => return Err(e),
            Ok(s) => s,
        };
        Ok(HandshakeSchema { parse_data: self.parse_data, schema })
    }
}

} // verus!
