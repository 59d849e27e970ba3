//! Wire-location partitioning: splits the fields of a resolved struct into
//! the groups that travel in the body, the query string, headers and cookies.
use vstd::prelude::*;
use crate::error::EncodingError;
use crate::model::{Field, FieldList, Metadata, Type, TypeList, WireSpec};
use crate::registry::{Builder, FieldEntry, StructValue, entry_spec, values_view};
use crate::resolve::{resolve_top, resolve_type};

verus! {

/// Where a field without an explicit placement travels.
#[derive(Debug, Clone, Copy, PartialOrd, Ord, PartialEq, Eq, Hash, Structural)]
pub enum DefaultLoc {
    Body,
    Query,
}

/// The resolved placement of a field.
#[derive(Debug, Clone, PartialOrd, Ord, PartialEq, Eq, Hash)]
pub enum WireLoc {
    Body,
    Query,
    Header(String),
    Path,
    Cookie(String),
}

pub const SEGMENT_LITERAL: i32 = 0;

pub const SEGMENT_PARAM: i32 = 1;

pub const SEGMENT_WILDCARD: i32 = 2;

pub const SEGMENT_FALLBACK: i32 = 3;

/// The number of value types a path parameter may declare.
pub const PARAM_TYPE_COUNT: i32 = 13;

/// One segment of a URL path template.
#[derive(Debug, PartialEq, Eq)]
pub struct PathSegment {
    /// The literal text, or the parameter's name.
    pub value: String,
    /// One of the `SEGMENT_*` kinds.
    pub seg_type: i32,
    /// The declared value type, below `PARAM_TYPE_COUNT`.
    pub value_type: i32,
}

#[derive(Debug, PartialEq, Eq)]
pub struct PathTemplate {
    pub segments: Vec<PathSegment>,
}

/// A path segment as a value.
pub struct SegmentView {
    pub value: Seq<char>,
    pub seg_type: i32,
    pub value_type: i32,
}

impl View for PathSegment {
    type V = SegmentView;

    open spec fn view(&self) -> SegmentView {
        SegmentView { value: self.value@, seg_type: self.seg_type, value_type: self.value_type }
    }
}

impl View for PathTemplate {
    type V = Seq<SegmentView>;

    open spec fn view(&self) -> Seq<SegmentView> {
        self.segments@.map_values(|s: PathSegment| s@)
    }
}

pub open spec fn spec_into_wire_loc(d: DefaultLoc) -> WireLoc {
    match d {
        DefaultLoc::Body => WireLoc::Body,
        DefaultLoc::Query => WireLoc::Query,
    }
}

impl DefaultLoc {
    pub fn into_wire_loc(self) -> (r: WireLoc)
        ensures
            r == spec_into_wire_loc(self),
    {
        match self {
            DefaultLoc::Body => WireLoc::Body,
            DefaultLoc::Query => WireLoc::Query,
        }
    }
}

pub open spec fn segment_kind_valid(k: i32) -> bool {
    SEGMENT_LITERAL <= k <= SEGMENT_FALLBACK
}

/// A parameter, wildcard or fallback segment: it binds a field by name.
pub open spec fn binds_field(s: SegmentView) -> bool {
    s.seg_type == SEGMENT_PARAM || s.seg_type == SEGMENT_WILDCARD || s.seg_type == SEGMENT_FALLBACK
}

pub open spec fn segments_valid(p: Seq<SegmentView>) -> bool {
    forall|i: int| 0 <= i < p.len() ==> segment_kind_valid(#[trigger] p[i].seg_type)
}

/// The field named `name` is carried in the URL path.
pub open spec fn is_path_field(path: Option<Seq<SegmentView>>, name: Seq<char>) -> bool {
    match path {
        None => false,
        Some(p) => path_binds(p, name),
    }
}

/// Some segment of `segs` binds the name `name`.
pub open spec fn path_binds(segs: Seq<SegmentView>, name: Seq<char>) -> bool {
    exists|i: int| 0 <= i < segs.len() && binds_field(#[trigger] segs[i]) && segs[i].value == name
}

/// Two optional path templates hold the same segments.
pub open spec fn same_path(a: Option<PathTemplate>, b: Option<Seq<SegmentView>>) -> bool {
    match (a, b) {
        (None, None) => true,
        (Some(x), Some(y)) => x@ == y,
        _ => false,
    }
}

/// What a context offers fields: the default location of unannotated
/// fields, and whether the query string and headers are available. Cookies
/// travel in a header.
pub struct Placement {
    pub default: Option<DefaultLoc>,
    pub query: bool,
    pub header: bool,
}

pub open spec fn placement(default: Option<DefaultLoc>, query: bool, header: bool) -> Placement {
    Placement { default, query, header }
}

/// The default location of `p`, as a placement.
pub open spec fn fallback_loc(p: Placement) -> Option<WireLoc> {
    match p.default {
        None => None,
        Some(dl) => Some(spec_into_wire_loc(dl)),
    }
}

/// The placement of a field outside the path, if one is known. An explicit
/// placement that the context does not offer gives way to the default.
pub open spec fn field_loc_spec(f: Field, p: Placement) -> Option<WireLoc> {
    match f.wire {
        None => fallback_loc(p),
        Some(WireSpec::Header { name }) => if p.header {
            Some(
                WireLoc::Header(
                    match name {
                        Some(n) => n,
                        None => f.name,
                    },
                ),
            )
        } else {
            fallback_loc(p)
        },
        Some(WireSpec::Query) => if p.query {
            Some(WireLoc::Query)
        } else {
            fallback_loc(p)
        },
        Some(WireSpec::Cookie { name }) => if p.header {
            Some(
                WireLoc::Cookie(
                    match name {
                        Some(n) => n,
                        None => f.name,
                    },
                ),
            )
        } else {
            fallback_loc(p)
        },
    }
}

/// The fields of each group, in field order.
pub struct Groups {
    pub combined: Seq<FieldEntry>,
    pub body: Seq<FieldEntry>,
    pub query: Seq<FieldEntry>,
    pub header: Seq<FieldEntry>,
    pub cookie: Seq<FieldEntry>,
}

pub open spec fn no_groups() -> Groups {
    Groups {
        combined: Seq::empty(),
        body: Seq::empty(),
        query: Seq::empty(),
        header: Seq::empty(),
        cookie: Seq::empty(),
    }
}

pub open spec fn with_override(e: FieldEntry, n: Option<String>) -> FieldEntry {
    FieldEntry {
        name: e.name,
        typ: e.typ,
        optional: e.optional,
        validation: e.validation,
        name_override: n,
    }
}

/// `g` with entry `e` placed in front, in `combined` and in the group of `loc`.
pub open spec fn add_front(g: Groups, e: FieldEntry, loc: WireLoc) -> Groups {
    let combined = seq![e] + g.combined;
    match loc {
        WireLoc::Body => Groups { combined, body: seq![e] + g.body, ..g },
        WireLoc::Query => Groups { combined, query: seq![e] + g.query, ..g },
        WireLoc::Header(n) => Groups {
            combined,
            header: seq![with_override(e, Some(n))] + g.header,
            ..g
        },
        WireLoc::Path => Groups { combined, ..g },
        WireLoc::Cookie(n) => Groups {
            combined,
            cookie: seq![with_override(e, Some(n))] + g.cookie,
            ..g
        },
    }
}

/// Some field of `l` that the path does not bind is named `name`.
pub open spec fn has_kept_name(l: FieldList, path: Option<Seq<SegmentView>>, name: Seq<char>) -> bool
    decreases l,
{
    match l {
        FieldList::Nil => false,
        FieldList::Cons { head, tail } => (!is_path_field(path, head.name@) && head.name@ == name)
            || has_kept_name(*tail, path, name),
    }
}

/// The groups of the fields of `l`; the first failing field decides the error.
pub open spec fn partition_spec(l: FieldList, path: Option<Seq<SegmentView>>, d: Placement) -> Result<
    Groups,
    EncodingError,
>
    decreases l,
{
    match l {
        FieldList::Nil => Ok(no_groups()),
        FieldList::Cons { head, tail } => {
            if is_path_field(path, head.name@) {
                partition_spec(*tail, path, d)
            } else {
                match entry_spec(*head) {
                    Err(e) => Err(e),
                    Ok(e) => match field_loc_spec(*head, d) {
                        None => Err(EncodingError::MissingLocation { field: head.name }),
                        Some(loc) => match partition_spec(*tail, path, d) {
                            Err(x) => Err(x),
                            Ok(g) => Ok(add_front(g, e, loc)),
                        },
                    },
                }
            }
        },
    }
}

pub open spec fn concat_groups(g: Groups, h: Groups) -> Groups {
    Groups {
        combined: g.combined + h.combined,
        body: g.body + h.body,
        query: g.query + h.query,
        header: g.header + h.header,
        cookie: g.cookie + h.cookie,
    }
}

pub open spec fn join(g: Groups, r: Result<Groups, EncodingError>) -> Result<Groups, EncodingError> {
    match r {
        Err(e) => Err(e),
        Ok(h) => Ok(concat_groups(g, h)),
    }
}

/// What partitioning type `t` comes to: `None` where it resolves to no struct.
pub open spec fn compute_spec(
    decls: Seq<crate::model::Decl>,
    path: Option<Seq<SegmentView>>,
    d: Placement,
    t: Type,
) -> Result<Option<Groups>, EncodingError> {
    match resolve_top(decls, t) {
        Err(e) => Err(e),
        Ok(rt) => match rt {
            Type::Struct { fields } => {
                if path matches Some(p) && !segments_valid(p) {
                    Err(EncodingError::MalformedMetadata)
                } else {
                    match partition_spec(fields, path, d) {
                        Err(e) => Err(e),
                        Ok(g) => Ok(Some(g)),
                    }
                }
            },
            _ => Ok(None),
        },
    }
}

pub open spec fn present(s: Seq<FieldEntry>) -> int {
    if s.len() > 0 {
        1
    } else {
        0
    }
}

pub open spec fn handle_if(s: Seq<FieldEntry>, h: int) -> Option<usize> {
    if s.len() > 0 {
        Some(h as usize)
    } else {
        None
    }
}

pub open spec fn nonempty(s: Seq<FieldEntry>) -> Seq<Seq<FieldEntry>> {
    if s.len() > 0 {
        seq![s]
    } else {
        Seq::empty()
    }
}

/// The values registered for `g`: combined, then each non-empty group.
pub open spec fn registered(g: Groups) -> Seq<Seq<FieldEntry>> {
    seq![g.combined] + nonempty(g.body) + nonempty(g.query) + nonempty(g.header) + nonempty(
        g.cookie,
    )
}

/// The handles of `s` are those that registering `g` from `base` on gives.
pub open spec fn handles_match(s: SchemaUnderConstruction, g: Groups, base: int) -> bool {
    let q = base + 1 + present(g.body);
    let h = q + present(g.query);
    let c = h + present(g.header);
    &&& s.combined == Some(base as usize)
    &&& s.body == handle_if(g.body, base + 1)
    &&& s.query == handle_if(g.query, q)
    &&& s.header == handle_if(g.header, h)
    &&& s.cookie == handle_if(g.cookie, c)
}

pub open spec fn no_handles(s: SchemaUnderConstruction) -> bool {
    &&& s.combined is None
    &&& s.body is None
    &&& s.query is None
    &&& s.header is None
    &&& s.cookie is None
}

/// The values that registering outcome `o` adds.
pub open spec fn reg_of(o: Option<Groups>) -> Seq<Seq<FieldEntry>> {
    match o {
        None => Seq::empty(),
        Some(g) => registered(g),
    }
}

/// `s` holds the handles that registering `o` from `base` on gives, and `path`.
pub open spec fn schema_matches(
    s: SchemaUnderConstruction,
    o: Option<Groups>,
    base: int,
    path: Option<Seq<SegmentView>>,
) -> bool {
    &&& same_path(s.rpc_path, path)
    &&& match o {
        None => no_handles(s),
        Some(g) => handles_match(s, g, base),
    }
}

/// `s` and the registry's values before and after show outcome `o`.
pub open spec fn outcome_post(
    o: Option<Groups>,
    path: Option<Seq<SegmentView>>,
    s: SchemaUnderConstruction,
    before: Seq<StructValue>,
    after: Seq<StructValue>,
) -> bool {
    &&& schema_matches(s, o, before.len() as int, path)
    &&& values_view(after) == values_view(before) + reg_of(o)
}

/// How the outcome `out` of partitioning shows in the result `r` and in the
/// registry's values before and after.
pub open spec fn compute_post(
    out: Result<Option<Groups>, EncodingError>,
    path: Option<Seq<SegmentView>>,
    r: Result<SchemaUnderConstruction, EncodingError>,
    before: Seq<StructValue>,
    after: Seq<StructValue>,
) -> bool {
    match out {
        Err(e) => r == Err::<SchemaUnderConstruction, EncodingError>(e) && after == before,
        Ok(o) => r matches Ok(s) && outcome_post(o, path, s, before, after),
    }
}

/// Handles of registered values for each group, and the path template.
pub struct SchemaUnderConstruction {
    pub combined: Option<usize>,
    pub body: Option<usize>,
    pub query: Option<usize>,
    pub header: Option<usize>,
    pub cookie: Option<usize>,
    pub rpc_path: Option<PathTemplate>,
}

/// The context in which a type is partitioned.
pub struct EncodingConfig<'a> {
    pub meta: &'a Metadata,
    pub default_loc: Option<DefaultLoc>,
    pub rpc_path: Option<&'a PathTemplate>,
    /// Without a body, the body is no default location.
    pub supports_body: bool,
    /// Without a query string, a field annotated for it takes the default.
    pub supports_query: bool,
    /// Without headers, a field annotated as a header or a cookie takes the
    /// default.
    pub supports_header: bool,
    /// Not consulted: which fields the path binds follows `rpc_path` alone,
    /// and the contexts without a path give none.
    pub supports_path: bool,
}

impl PathSegment {
    pub fn copy(&self) -> (r: PathSegment)
        ensures
            r == *self,
    {
        PathSegment { value: self.value.clone(), seg_type: self.seg_type, value_type: self.value_type }
    }
}

impl PathTemplate {
    pub fn copy(&self) -> (r: PathTemplate)
        ensures
            r.segments@ == self.segments@,
            r@ == self@,
    {
        let mut segments: Vec<PathSegment> = Vec::new();
        let mut i: usize = 0;
        while i < self.segments.len()
            invariant
                i <= self.segments.len(),
                segments@ == self.segments@.take(i as int),
            decreases self.segments.len() - i,
        {
            segments.push(self.segments[i].copy());
            assert(self.segments@.take(i + 1) =~= self.segments@.take(i as int).push(
                self.segments@[i as int],
            ));
            i = i + 1;
        }
        assert(self.segments@.take(i as int) =~= self.segments@);
        PathTemplate { segments }
    }
}

pub(crate) fn copy_path(p: Option<&PathTemplate>) -> (r: Option<PathTemplate>)
    ensures
        same_path(
            r,
            match p {
                Some(x) => Some(x@),
                None => None,
            },
        ),
{
    match p {
        None => None,
        Some(x) => Some(x.copy()),
    }
}

fn path_has_field(p: &PathTemplate, name: &String) -> (r: bool)
    ensures
        r == path_binds(p@, name@),
{
    let mut i: usize = 0;
    while i < p.segments.len()
        invariant
            i <= p.segments.len(),
            forall|j: int|
                0 <= j < i ==> !(binds_field(#[trigger] p@[j]) && p@[j].value == name@),
        decreases p.segments.len() - i,
    {
        let s = &p.segments[i];
        if (s.seg_type == SEGMENT_PARAM || s.seg_type == SEGMENT_WILDCARD || s.seg_type
            == SEGMENT_FALLBACK) && s.value == *name {
            assert(binds_field(p@[i as int]) && p@[i as int].value == name@);
            return true;
        }
        i = i + 1;
    }
    false
}

fn path_segments_valid(p: &PathTemplate) -> (r: bool)
    ensures
        r == segments_valid(p@),
{
    let mut i: usize = 0;
    while i < p.segments.len()
        invariant
            i <= p.segments.len(),
            forall|j: int| 0 <= j < i ==> segment_kind_valid(#[trigger] p@[j].seg_type),
        decreases p.segments.len() - i,
    {
        let k = p.segments[i].seg_type;
        if k < SEGMENT_LITERAL || k > SEGMENT_FALLBACK {
            assert(!segment_kind_valid(p@[i as int].seg_type));
            return false;
        }
        i = i + 1;
    }
    true
}

fn on_path(path: Option<&PathTemplate>, name: &String) -> (r: bool)
    ensures
        r == is_path_field(
            match path {
                Some(p) => Some(p@),
                None => None,
            },
            name@,
        ),
{
    match path {
        None => false,
        Some(p) => path_has_field(p, name),
    }
}

fn fallback(d: Option<DefaultLoc>) -> (r: Option<WireLoc>)
    ensures
        r == fallback_loc(placement(d, false, false)),
{
    match d {
        None => None,
        Some(dl) => Some(dl.into_wire_loc()),
    }
}

fn field_loc(f: &Field, d: Option<DefaultLoc>, query: bool, header: bool) -> (r: Option<WireLoc>)
    ensures
        r == field_loc_spec(*f, placement(d, query, header)),
{
    match &f.wire {
        None => fallback(d),
        Some(WireSpec::Header { name }) => if header {
            Some(
                WireLoc::Header(
                    match name {
                        Some(n) => n.clone(),
                        None => f.name.clone(),
                    },
                ),
            )
        } else {
            fallback(d)
        },
        Some(WireSpec::Query) => if query {
            Some(WireLoc::Query)
        } else {
            fallback(d)
        },
        Some(WireSpec::Cookie { name }) => if header {
            Some(
                WireLoc::Cookie(
                    match name {
                        Some(n) => n.clone(),
                        None => f.name.clone(),
                    },
                ),
            )
        } else {
            fallback(d)
        },
    }
}

proof fn lemma_join_front(g: Groups, e: FieldEntry, loc: WireLoc, rest: Result<Groups, EncodingError>)
    ensures
        join(
            g,
            match rest {
                Err(x) => Err(x),
                Ok(h) => Ok(add_front(h, e, loc)),
            },
        ) == join(add_back(g, e, loc), rest),
{
    match rest {
        Err(_) => {},
        Ok(h) => {
            let a = concat_groups(g, add_front(h, e, loc));
            let b = concat_groups(add_back(g, e, loc), h);
            assert(a.combined =~= b.combined);
            assert(a.body =~= b.body);
            assert(a.query =~= b.query);
            assert(a.header =~= b.header);
            assert(a.cookie =~= b.cookie);
        },
    }
}

/// `g` with entry `e` placed at the back, in `combined` and in the group of `loc`.
pub open spec fn add_back(g: Groups, e: FieldEntry, loc: WireLoc) -> Groups {
    let combined = g.combined.push(e);
    match loc {
        WireLoc::Body => Groups { combined, body: g.body.push(e), ..g },
        WireLoc::Query => Groups { combined, query: g.query.push(e), ..g },
        WireLoc::Header(n) => Groups { combined, header: g.header.push(with_override(e, Some(n))), ..g },
        WireLoc::Path => Groups { combined, ..g },
        WireLoc::Cookie(n) => Groups { combined, cookie: g.cookie.push(with_override(e, Some(n))), ..g },
    }
}

proof fn lemma_view_push(s: Seq<StructValue>, v: StructValue)
    ensures
        values_view(s.push(v)) == values_view(s).push(v.fields@),
{
    assert(values_view(s.push(v)) =~= values_view(s).push(v.fields@));
}

fn register_nonempty(builder: &mut Builder, fields: Vec<FieldEntry>) -> (r: Option<usize>)
    ensures
        r == handle_if(fields@, old(builder).values@.len() as int),
        values_view(final(builder).values@) == values_view(old(builder).values@) + nonempty(fields@),
        final(builder).values@.len() == old(builder).values@.len() + present(fields@),
{
    if fields.len() > 0 {
        let ghost f = fields@;
        let v = StructValue { fields };
        proof {
            lemma_view_push(builder.values@, v);
        }
        let h = builder.register_value(v);
        assert(values_view(old(builder).values@) + nonempty(f) =~= values_view(old(builder).values@).push(f));
        Some(h)
    } else {
        assert(values_view(old(builder).values@) + nonempty(fields@) =~= values_view(old(builder).values@));
        None
    }
}

proof fn lemma_partition_outcome_kind(
    l: FieldList,
    path: Option<Seq<SegmentView>>,
    d1: DefaultLoc,
    d2: DefaultLoc,
    query: bool,
    header: bool,
)
    ensures
        partition_spec(l, path, placement(Some(d1), query, header)) is Err ==> partition_spec(
            l,
            path,
            placement(Some(d2), query, header),
        ) == partition_spec(l, path, placement(Some(d1), query, header)),
        partition_spec(l, path, placement(Some(d1), query, header)) is Ok ==> partition_spec(
            l,
            path,
            placement(Some(d2), query, header),
        ) is Ok,
    decreases l,
{
    match l {
        FieldList::Nil => {},
        FieldList::Cons { head: _, tail } => lemma_partition_outcome_kind(*tail, path, d1, d2, query, header),
    }
}

/// With a default location given, which default it is decides only where
/// fields go, never whether partitioning fails or with which error.
pub proof fn lemma_compute_outcome_kind(
    decls: Seq<crate::model::Decl>,
    path: Option<Seq<SegmentView>>,
    d1: DefaultLoc,
    d2: DefaultLoc,
    query: bool,
    header: bool,
    t: Type,
)
    ensures
        compute_spec(decls, path, placement(Some(d1), query, header), t) is Err ==> compute_spec(
            decls,
            path,
            placement(Some(d2), query, header),
            t,
        ) == compute_spec(decls, path, placement(Some(d1), query, header), t),
        compute_spec(decls, path, placement(Some(d1), query, header), t) is Ok ==> compute_spec(
            decls,
            path,
            placement(Some(d2), query, header),
            t,
        ) is Ok,
{
    if let Ok(Type::Struct { fields }) = resolve_top(decls, t) {
        lemma_partition_outcome_kind(fields, path, d1, d2, query, header);
    }
}

impl<'a> EncodingConfig<'a> {
    /// The path template of the context, as a value.
    pub open spec fn path_of(&self) -> Option<Seq<SegmentView>> {
        match self.rpc_path {
            Some(p) => Some(p@),
            None => None,
        }
    }

    /// The default location, unless it is the body and the context carries
    /// no body.
    pub open spec fn effective_default(&self) -> Option<DefaultLoc> {
        if self.default_loc == Some(DefaultLoc::Body) && !self.supports_body {
            None
        } else {
            self.default_loc
        }
    }

    /// What the context offers fields.
    pub open spec fn placement_of(&self) -> Placement {
        placement(self.effective_default(), self.supports_query, self.supports_header)
    }

    /// Resolves `typ` and, where it is a struct, registers its combined group
    /// and each non-empty wire group.
    pub fn compute(&self, builder: &mut Builder, typ: &Type) -> (r: Result<SchemaUnderConstruction, EncodingError>)
        ensures
            compute_post(
                compute_spec(self.meta.decls@, self.path_of(), self.placement_of(), *typ),
                self.path_of(),
                r,
                old(builder).values@,
                final(builder).values@,
            ),
    {
        let resolved = match resolve_type(&self.meta.decls, typ) {
            Err(e) => return Err(e),
            Ok(t) => t,
        };
        let fields = match &resolved {
            Type::Struct { fields } => fields,
            _ => {
                assert(values_view(builder.values@) =~= values_view(builder.values@) + reg_of(None));
                return Ok(
                    SchemaUnderConstruction {
                        combined: None,
                        body: None,
                        query: None,
                        header: None,
                        cookie: None,
                        rpc_path: copy_path(self.rpc_path),
                    },
                );
            },
        };
        if let Some(p) = self.rpc_path {
            if !path_segments_valid(p) {
                return Err(EncodingError::MalformedMetadata);
            }
        }
        let ghost path = self.path_of();
        let default_loc = if self.default_loc == Some(DefaultLoc::Body) && !self.supports_body {
            None
        } else {
            self.default_loc
        };
        let ghost d = self.placement_of();
        assert(compute_spec(self.meta.decls@, path, d, *typ) == match partition_spec(*fields, path, d) {
            Err(e) => Err(e),
            Ok(g) => Ok(Some(g)),
        });
        let mut combined: Vec<FieldEntry> = Vec::new();
        let mut body: Vec<FieldEntry> = Vec::new();
        let mut query: Vec<FieldEntry> = Vec::new();
        let mut header: Vec<FieldEntry> = Vec::new();
        let mut cookie: Vec<FieldEntry> = Vec::new();
        let mut cur: &FieldList = fields;
        assert(concat_groups(no_groups(), partition_spec(*fields, path, d)->Ok_0) =~= partition_spec(*fields, path, d)->Ok_0) by {
            if let Ok(h) = partition_spec(*fields, path, d) {
                let a = concat_groups(no_groups(), h);
                assert(a.combined =~= h.combined);
                assert(a.body =~= h.body);
                assert(a.query =~= h.query);
                assert(a.header =~= h.header);
                assert(a.cookie =~= h.cookie);
            }
        }
        loop
            invariant
                path == self.path_of(),
                d == self.placement_of(),
                default_loc == self.effective_default(),
                compute_spec(self.meta.decls@, path, d, *typ) == match partition_spec(*fields, path, d) {
                    Err(e) => Err(e),
                    Ok(g) => Ok(Some(g)),
                },
                partition_spec(*fields, path, d) == join(
                    Groups {
                        combined: combined@,
                        body: body@,
                        query: query@,
                        header: header@,
                        cookie: cookie@,
                    },
                    partition_spec(*cur, path, d),
                ),
            ensures
                *cur == FieldList::Nil,
            decreases *cur,
        {
            match cur {
                FieldList::Nil => break,
                FieldList::Cons { head, tail } => {
                    let bound = on_path(self.rpc_path, &head.name);
                    if !bound {
                        let entry = match builder.struct_field(head) {
                            Err(e) => {
                                assert(partition_spec(*cur, path, d) == Err::<Groups, EncodingError>(e));
                                return Err(e);
                            },
                            Ok(e) => e,
                        };
                        let loc = match field_loc(head, default_loc, self.supports_query, self.supports_header) {
                            None => {
                                let err = EncodingError::MissingLocation { field: head.name.clone() };
                                assert(partition_spec(*cur, path, d) == Err::<Groups, EncodingError>(err));
                                return Err(err);
                            },
                            Some(l) => l,
                        };
                        proof {
                            lemma_join_front(
                                Groups {
                                    combined: combined@,
                                    body: body@,
                                    query: query@,
                                    header: header@,
                                    cookie: cookie@,
                                },
                                entry,
                                loc,
                                partition_spec(**tail, path, d),
                            );
                        }
                        combined.push(entry.copy());
                        match loc {
                            WireLoc::Body => body.push(entry),
                            WireLoc::Query => query.push(entry),
                            WireLoc::Header(n) => {
                                let mut e = entry;
                                e.name_override = Some(n);
                                header.push(e);
                            },
                            WireLoc::Path => {},
                            WireLoc::Cookie(n) => {
                                let mut e = entry;
                                e.name_override = Some(n);
                                cookie.push(e);
                            },
                        }
                    }
                    cur = &**tail;
                },
            }
        }
        let ghost g = Groups {
            combined: combined@,
            body: body@,
            query: query@,
            header: header@,
            cookie: cookie@,
        };
        assert(concat_groups(g, no_groups()) =~= g) by {
            let a = concat_groups(g, no_groups());
            assert(a.combined =~= g.combined);
            assert(a.body =~= g.body);
            assert(a.query =~= g.query);
            assert(a.header =~= g.header);
            assert(a.cookie =~= g.cookie);
        }
        let ghost before = builder.values@;
        let ghost cv = combined@;
        let c = builder.register_value(StructValue { fields: combined });
        proof {
            lemma_view_push(before, builder.values@.last());
        }
        assert(values_view(builder.values@) =~= values_view(before) + seq![cv]);
        let b = register_nonempty(builder, body);
        let q = register_nonempty(builder, query);
        let h = register_nonempty(builder, header);
        let k = register_nonempty(builder, cookie);
        assert(values_view(builder.values@) =~= values_view(before) + registered(g));
        Ok(
            SchemaUnderConstruction {
                combined: Some(c),
                body: b,
                query: q,
                header: h,
                cookie: k,
                rpc_path: copy_path(self.rpc_path),
            },
        )
    }
}

} // verus!

verus! {

/// The number of fields of `l` that the path does not bind.
pub open spec fn kept_count(l: FieldList, path: Option<Seq<SegmentView>>) -> nat
    decreases l,
{
    match l {
        FieldList::Nil => 0,
        FieldList::Cons { head, tail } => (if is_path_field(path, head.name@) {
            0nat
        } else {
            1nat
        }) + kept_count(*tail, path),
    }
}

/// The names of the fields of `l` that the path does not bind, in order.
pub open spec fn kept_names(l: FieldList, path: Option<Seq<SegmentView>>) -> Seq<Seq<char>>
    decreases l,
{
    match l {
        FieldList::Nil => Seq::empty(),
        FieldList::Cons { head, tail } => if is_path_field(path, head.name@) {
            kept_names(*tail, path)
        } else {
            seq![head.name@] + kept_names(*tail, path)
        },
    }
}

pub open spec fn entry_names(s: Seq<FieldEntry>) -> Seq<Seq<char>> {
    s.map_values(|e: FieldEntry| e.name@)
}

/// No entry of `s` is named by a path segment.
pub open spec fn names_clear(s: Seq<FieldEntry>, path: Option<Seq<SegmentView>>) -> bool {
    forall|i: int| 0 <= i < s.len() ==> !is_path_field(path, (#[trigger] s[i]).name@)
}

/// Every field outside the path is in `combined` once, in field order, and in
/// exactly one of the body, query, header and cookie groups: those add up to
/// `combined`, which holds one entry per such field.
pub proof fn lemma_each_field_in_one_group(l: FieldList, path: Option<Seq<SegmentView>>, d: Placement)
    requires
        partition_spec(l, path, d) is Ok,
    ensures
        ({
            let g = partition_spec(l, path, d)->Ok_0;
            &&& g.combined.len() == kept_count(l, path)
            &&& entry_names(g.combined) == kept_names(l, path)
            &&& g.body.len() + g.query.len() + g.header.len() + g.cookie.len() == g.combined.len()
        }),
    decreases l,
{
    if let FieldList::Cons { head, tail } = l {
        lemma_each_field_in_one_group(*tail, path, d);
        if !is_path_field(path, head.name@) {
            let e = entry_spec(*head)->Ok_0;
            let gc = partition_spec(*tail, path, d)->Ok_0.combined;
            assert(entry_names(seq![e] + gc) =~= seq![e.name@] + entry_names(gc));
        }
    } else {
        assert(entry_names(Seq::<FieldEntry>::empty()) =~= Seq::<Seq<char>>::empty());
    }
}

proof fn lemma_names_clear_front(e: FieldEntry, s: Seq<FieldEntry>, path: Option<Seq<SegmentView>>)
    requires
        !is_path_field(path, e.name@),
        names_clear(s, path),
    ensures
        names_clear(seq![e] + s, path),
{
    assert forall|i: int| 0 <= i < (seq![e] + s).len() implies !is_path_field(
        path,
        (#[trigger] (seq![e] + s)[i]).name@,
    ) by {
        if i > 0 {
            assert((seq![e] + s)[i] == s[i - 1]);
        }
    }
}

/// A field whose name a path segment binds lands in no group, whatever its
/// own wire placement.
pub proof fn lemma_path_fields_excluded(l: FieldList, path: Option<Seq<SegmentView>>, d: Placement)
    requires
        partition_spec(l, path, d) is Ok,
    ensures
        ({
            let g = partition_spec(l, path, d)->Ok_0;
            &&& names_clear(g.combined, path)
            &&& names_clear(g.body, path)
            &&& names_clear(g.query, path)
            &&& names_clear(g.header, path)
            &&& names_clear(g.cookie, path)
        }),
    decreases l,
{
    if let FieldList::Cons { head, tail } = l {
        lemma_path_fields_excluded(*tail, path, d);
        if !is_path_field(path, head.name@) {
            let e = entry_spec(*head)->Ok_0;
            let g = partition_spec(*tail, path, d)->Ok_0;
            let loc = field_loc_spec(*head, d)->Some_0;
            lemma_names_clear_front(e, g.combined, path);
            lemma_names_clear_front(e, g.body, path);
            lemma_names_clear_front(e, g.query, path);
            match loc {
                WireLoc::Header(n) => lemma_names_clear_front(with_override(e, Some(n)), g.header, path),
                WireLoc::Cookie(n) => lemma_names_clear_front(with_override(e, Some(n)), g.cookie, path),
                _ => {},
            }
        }
    }
}

} // verus!

verus! {

/// Partitioning a struct with a field of config type fails with
/// `UnsupportedType`, once every field before it resolves.
pub proof fn lemma_compute_rejects_config(
    decls: Seq<crate::model::Decl>,
    path: Option<Seq<SegmentView>>,
    d: Placement,
    fields: FieldList,
    k: int,
)
    requires
        0 <= k < crate::model::fields_seq(fields).len(),
        crate::model::fields_seq(fields)[k].typ == Some(Type::Config),
        forall|j: int|
            0 <= j < k ==> crate::resolve::field_resolves(
                decls,
                #[trigger] crate::model::fields_seq(fields)[j],
                TypeList::Nil,
                Seq::empty(),
            ),
    ensures
        compute_spec(decls, path, d, Type::Struct { fields }) == Err::<Option<Groups>, EncodingError>(
            EncodingError::UnsupportedType,
        ),
{
    crate::resolve::lemma_config_field_rejected(decls, fields, TypeList::Nil, Seq::empty(), k);
}

} // verus!

verus! {

/// Where the query string and headers are unavailable and the body is the
/// default, every field travels in the body: the query, header and cookie
/// groups stay empty.
pub proof fn lemma_body_only(l: FieldList, path: Option<Seq<SegmentView>>)
    requires
        partition_spec(l, path, placement(Some(DefaultLoc::Body), false, false)) is Ok,
    ensures
        ({
            let g = partition_spec(l, path, placement(Some(DefaultLoc::Body), false, false))->Ok_0;
            &&& g.query.len() == 0
            &&& g.header.len() == 0
            &&& g.cookie.len() == 0
            &&& g.body.len() == g.combined.len()
        }),
    decreases l,
{
    if let FieldList::Cons { head: _, tail } = l {
        lemma_body_only(*tail, path);
    }
}

} // verus!

verus! {

/// No two fields of `l` outside the path share a name.
pub open spec fn distinct_kept(l: FieldList, path: Option<Seq<SegmentView>>) -> bool
    decreases l,
{
    match l {
        FieldList::Nil => true,
        FieldList::Cons { head, tail } => (!is_path_field(path, head.name@) ==> !has_kept_name(
            *tail,
            path,
            head.name@,
        )) && distinct_kept(*tail, path),
    }
}

/// Some entry of `s` is named `n`.
pub open spec fn named_in(s: Seq<FieldEntry>, n: Seq<char>) -> bool {
    exists|i: int| 0 <= i < s.len() && (#[trigger] s[i]).name@ == n
}

/// How many of the body, query, header and cookie groups hold an entry named `n`.
pub open spec fn group_hits(g: Groups, n: Seq<char>) -> int {
    (if named_in(g.body, n) { 1int } else { 0int }) + (if named_in(g.query, n) { 1int } else { 0int })
        + (if named_in(g.header, n) { 1int } else { 0int }) + (if named_in(g.cookie, n) {
        1int
    } else {
        0int
    })
}

proof fn lemma_named_in_front(e: FieldEntry, s: Seq<FieldEntry>, n: Seq<char>)
    ensures
        named_in(seq![e] + s, n) == (e.name@ == n || named_in(s, n)),
{
    if named_in(s, n) {
        let i = choose|i: int| 0 <= i < s.len() && (#[trigger] s[i]).name@ == n;
        assert((seq![e] + s)[i + 1] == s[i]);
    }
    if e.name@ == n {
        assert((seq![e] + s)[0] == e);
    }
    if named_in(seq![e] + s, n) {
        let i = choose|i: int| 0 <= i < (seq![e] + s).len() && (#[trigger] (seq![e] + s)[i]).name@ == n;
        if i > 0 {
            assert((seq![e] + s)[i] == s[i - 1]);
        }
    }
}

/// Where the fields outside the path have distinct names, each such name is
/// held by exactly one of the body, query, header and cookie groups, and no
/// other name is held by any: the groups are disjoint and together hold every
/// such field.
pub proof fn lemma_groups_partition_names(l: FieldList, path: Option<Seq<SegmentView>>, d: Placement)
    requires
        partition_spec(l, path, d) is Ok,
        distinct_kept(l, path),
    ensures
        forall|n: Seq<char>|
            #[trigger] group_hits(partition_spec(l, path, d)->Ok_0, n) == if has_kept_name(l, path, n) {
                1int
            } else {
                0int
            },
    decreases l,
{
    if let FieldList::Cons { head, tail } = l {
        lemma_groups_partition_names(*tail, path, d);
        if !is_path_field(path, head.name@) {
            let e = entry_spec(*head)->Ok_0;
            let h = partition_spec(*tail, path, d)->Ok_0;
            let loc = field_loc_spec(*head, d)->Some_0;
            let g = partition_spec(l, path, d)->Ok_0;
            assert forall|n: Seq<char>| #[trigger] group_hits(g, n) == if has_kept_name(l, path, n) {
                1int
            } else {
                0int
            } by {
                assert(group_hits(h, n) == if has_kept_name(*tail, path, n) {
                    1int
                } else {
                    0int
                });
                lemma_named_in_front(e, h.body, n);
                lemma_named_in_front(e, h.query, n);
                match loc {
                    WireLoc::Header(x) => lemma_named_in_front(with_override(e, Some(x)), h.header, n),
                    WireLoc::Cookie(x) => lemma_named_in_front(with_override(e, Some(x)), h.cookie, n),
                    _ => {},
                }
            }
        }
    }
}

} // verus!

verus! {

/// The wire placement declared on the field of `l` named `n` outside the
/// path, if there is such a field.
pub open spec fn kept_wire(l: FieldList, path: Option<Seq<SegmentView>>, n: Seq<char>) -> Option<
    Option<WireSpec>,
>
    decreases l,
{
    match l {
        FieldList::Nil => None,
        FieldList::Cons { head, tail } => if !is_path_field(path, head.name@) && head.name@ == n {
            Some(head.wire)
        } else {
            kept_wire(*tail, path, n)
        },
    }
}

/// Where the query string and headers are available, an unannotated field
/// lands in the group of the default location, and a field annotated as a
/// header lands in the header group, whatever the default.
pub proof fn lemma_default_grouping(
    l: FieldList,
    path: Option<Seq<SegmentView>>,
    dl: DefaultLoc,
    n: Seq<char>,
)
    requires
        partition_spec(l, path, placement(Some(dl), true, true)) is Ok,
    ensures
        ({
            let g = partition_spec(l, path, placement(Some(dl), true, true))->Ok_0;
            &&& kept_wire(l, path, n) == Some(None::<WireSpec>) ==> (if dl == DefaultLoc::Body {
                named_in(g.body, n)
            } else {
                named_in(g.query, n)
            })
            &&& kept_wire(l, path, n) matches Some(Some(WireSpec::Header { .. })) ==> named_in(
                g.header,
                n,
            )
        }),
    decreases l,
{
    let d = placement(Some(dl), true, true);
    if let FieldList::Cons { head, tail } = l {
        lemma_default_grouping(*tail, path, dl, n);
        if !is_path_field(path, head.name@) {
            let e = entry_spec(*head)->Ok_0;
            let h = partition_spec(*tail, path, d)->Ok_0;
            let loc = field_loc_spec(*head, d)->Some_0;
            lemma_named_in_front(e, h.body, n);
            lemma_named_in_front(e, h.query, n);
            match loc {
                WireLoc::Header(x) => lemma_named_in_front(with_override(e, Some(x)), h.header, n),
                WireLoc::Cookie(x) => lemma_named_in_front(with_override(e, Some(x)), h.cookie, n),
                _ => {},
            }
        }
    }
}

} // verus!

verus! {

/// The value registered under a handle holds `s`, where `s` is non-empty,
/// and there is no handle otherwise.
pub open spec fn holds_group(
    h: Option<usize>,
    s: Seq<FieldEntry>,
    after: Seq<StructValue>,
) -> bool {
    match h {
        None => s.len() == 0,
        Some(x) => s.len() > 0 && (x as int) < after.len() && after[x as int].fields@ == s,
    }
}

/// After a successful partition, the value under each handle of the schema
/// holds exactly its group's entries: `combined` always, each wire group
/// where it is non-empty.
pub proof fn lemma_handles_hold_groups(
    g: Groups,
    s: SchemaUnderConstruction,
    before: Seq<StructValue>,
    after: Seq<StructValue>,
)
    requires
        handles_match(s, g, before.len() as int),
        values_view(after) == values_view(before) + registered(g),
        after.len() <= usize::MAX,
    ensures
        s.combined matches Some(c) && (c as int) < after.len() && after[c as int].fields@ == g.combined,
        holds_group(s.body, g.body, after),
        holds_group(s.query, g.query, after),
        holds_group(s.header, g.header, after),
        holds_group(s.cookie, g.cookie, after),
{
    let n = before.len() as int;
    let vb = values_view(before);
    let va = values_view(after);
    let p0 = seq![g.combined];
    let p1 = p0 + nonempty(g.body);
    let p2 = p1 + nonempty(g.query);
    let p3 = p2 + nonempty(g.header);
    let p4 = p3 + nonempty(g.cookie);
    assert(va == vb + p4);
    assert(va.len() == after.len());
    assert(vb.len() == n);
    assert forall|i: int| 0 <= i < after.len() implies va[i] == after[i].fields@ by {}
    assert(va[n] == p4[0]);
    assert(p4[0] == g.combined);
    assert((n as usize) as int == n);
    if g.body.len() > 0 {
        assert(p4[1] == g.body);
        assert(va[n + 1] == p4[1]);
        assert(((n + 1) as usize) as int == n + 1);
    }
    let q = 1 + present(g.body);
    if g.query.len() > 0 {
        assert(p4[q] == g.query);
        assert(va[n + q] == p4[q]);
    }
    let h = q + present(g.query);
    if g.header.len() > 0 {
        assert(p4[h] == g.header);
        assert(va[n + h] == p4[h]);
    }
    let c = h + present(g.header);
    if g.cookie.len() > 0 {
        assert(p4[c] == g.cookie);
        assert(va[n + c] == p4[c]);
    }
}

} // verus!
