//! HTTP methods and the default location each gives unannotated fields.
use vstd::prelude::*;
use crate::encoding::DefaultLoc;
use crate::error::EncodingError;

verus! {

#[allow(non_camel_case_types)]
#[derive(Debug, Clone, Copy, PartialEq, Eq, Hash, Structural)]
pub enum Method {
    GET,
    HEAD,
    POST,
    PUT,
    DELETE,
    CONNECT,
    OPTIONS,
    TRACE,
    PATCH,
}

/// The method named `s`, in upper case.
pub open spec fn method_named(s: Seq<char>) -> Option<Method> {
    if s == "GET"@ {
        Some(Method::GET)
    } else if s == "HEAD"@ {
        Some(Method::HEAD)
    } else if s == "POST"@ {
        Some(Method::POST)
    } else if s == "PUT"@ {
        Some(Method::PUT)
    } else if s == "DELETE"@ {
        Some(Method::DELETE)
    } else if s == "CONNECT"@ {
        Some(Method::CONNECT)
    } else if s == "OPTIONS"@ {
        Some(Method::OPTIONS)
    } else if s == "TRACE"@ {
        Some(Method::TRACE)
    } else if s == "PATCH"@ {
        Some(Method::PATCH)
    } else {
        None
    }
}

/// GET, HEAD and DELETE carry no body; the other methods do.
pub open spec fn spec_supports_body(m: Method) -> bool {
    !(m == Method::GET || m == Method::HEAD || m == Method::DELETE)
}

pub open spec fn default_loc_of(m: Method) -> DefaultLoc {
    if spec_supports_body(m) {
        DefaultLoc::Body
    } else {
        DefaultLoc::Query
    }
}

/// The methods of `ms` whose default location is `loc`, in order.
pub open spec fn methods_at(ms: Seq<Method>, loc: DefaultLoc) -> Seq<Method>
    decreases ms.len(),
{
    if ms.len() == 0 {
        Seq::empty()
    } else {
        let r = methods_at(ms.drop_last(), loc);
        if default_loc_of(ms.last()) == loc {
            r.push(ms.last())
        } else {
            r
        }
    }
}

/// The parsed method names, or `None` where one does not parse.
pub open spec fn parse_methods(ss: Seq<String>) -> Option<Seq<Method>>
    decreases ss.len(),
{
    if ss.len() == 0 {
        Some(Seq::empty())
    } else {
        match (parse_methods(ss.drop_last()), method_named(ss.last()@)) {
            (Some(ms), Some(m)) => Some(ms.push(m)),
            _ => None,
        }
    }
}

/// The method groups: body-carrying methods, then the others, each group
/// present where it has a method.
pub open spec fn method_groups(ms: Seq<Method>) -> Seq<(DefaultLoc, Seq<Method>)> {
    let b = methods_at(ms, DefaultLoc::Body);
    let q = methods_at(ms, DefaultLoc::Query);
    let bs = if b.len() > 0 {
        seq![(DefaultLoc::Body, b)]
    } else {
        Seq::empty()
    };
    let qs = if q.len() > 0 {
        seq![(DefaultLoc::Query, q)]
    } else {
        Seq::empty()
    };
    bs + qs
}

fn is_named(s: &String, name: &str) -> (r: bool)
    ensures
        r == (s@ == name@),
{
    *s == String::from_str(name)
}

impl Method {
    pub fn supports_body(&self) -> (r: bool)
        ensures
            r == spec_supports_body(*self),
    {
        match self {
            Method::GET | Method::HEAD | Method::DELETE => false,
            _ => true,
        }
    }

    /// Parses an upper-case method name.
    pub fn parse(s: &String) -> (r: Result<Method, EncodingError>)
        ensures
            match method_named(s@) {
                Some(m) => r == Ok::<Method, EncodingError>(m),
                None => r == Err::<Method, EncodingError>(EncodingError::InvalidMethod),
            },
    {
        if is_named(s, "GET") {
            Ok(Method::GET)
        } else if is_named(s, "HEAD") {
            Ok(Method::HEAD)
        } else if is_named(s, "POST") {
            Ok(Method::POST)
        } else if is_named(s, "PUT") {
            Ok(Method::PUT)
        } else if is_named(s, "DELETE") {
            Ok(Method::DELETE)
        } else if is_named(s, "CONNECT") {
            Ok(Method::CONNECT)
        } else if is_named(s, "OPTIONS") {
            Ok(Method::OPTIONS)
        } else if is_named(s, "TRACE") {
            Ok(Method::TRACE)
        } else if is_named(s, "PATCH") {
            Ok(Method::PATCH)
        } else {
            Err(EncodingError::InvalidMethod)
        }
    }
}

/// Parses each method name, in order.
pub fn parse_all(ss: &Vec<String>) -> (r: Result<Vec<Method>, EncodingError>)
    ensures
        match parse_methods(ss@) {
            Some(ms) => r matches Ok(v) && v@ == ms,
            None => r == Err::<Vec<Method>, EncodingError>(EncodingError::InvalidMethod),
        },
{
    let mut out: Vec<Method> = Vec::new();
    let mut i: usize = 0;
    while i < ss.len()
        invariant
            i <= ss.len(),
            parse_methods(ss@.take(i as int)) == Some(out@),
        decreases ss.len() - i,
    {
        assert(ss@.take(i + 1).drop_last() =~= ss@.take(i as int));
        match Method::parse(&ss[i]) {
            Err(e) => {
                assert(parse_methods(ss@.take(i + 1)) is None);
                proof {
                    lemma_parse_prefix_fails(ss@, i + 1);
                }
                return Err(e);
            },
            Ok(m) => out.push(m),
        }
        i = i + 1;
    }
    assert(ss@.take(i as int) =~= ss@);
    Ok(out)
}

proof fn lemma_parse_prefix_fails(ss: Seq<String>, n: int)
    requires
        0 <= n <= ss.len(),
        parse_methods(ss.take(n)) is None,
    ensures
        parse_methods(ss) is None,
    decreases ss.len() - n,
{
    if n < ss.len() {
        assert(ss.take(n + 1).drop_last() =~= ss.take(n));
        lemma_parse_prefix_fails(ss, n + 1);
    } else {
        assert(ss.take(n) =~= ss);
    }
}

fn methods_with_loc(ms: &Vec<Method>, loc: DefaultLoc) -> (r: Vec<Method>)
    ensures
        r@ == methods_at(ms@, loc),
{
    let mut out: Vec<Method> = Vec::new();
    let mut i: usize = 0;
    while i < ms.len()
        invariant
            i <= ms.len(),
            out@ == methods_at(ms@.take(i as int), loc),
        decreases ms.len() - i,
    {
        assert(ms@.take(i + 1).drop_last() =~= ms@.take(i as int));
        let m = ms[i];
        let ml = if m.supports_body() {
            DefaultLoc::Body
        } else {
            DefaultLoc::Query
        };
        if ml == loc {
            out.push(m);
        }
        i = i + 1;
    }
    assert(ms@.take(i as int) =~= ms@);
    out
}

/// Groups methods by the default location they give unannotated fields.
pub fn split_by_loc(ms: &Vec<Method>) -> (r: Vec<(DefaultLoc, Vec<Method>)>)
    ensures
        r@.len() == method_groups(ms@).len(),
        forall|i: int|
            0 <= i < r@.len() ==> (#[trigger] r@[i]).0 == method_groups(ms@)[i].0 && r@[i].1@
                == method_groups(ms@)[i].1,
{
    let mut out: Vec<(DefaultLoc, Vec<Method>)> = Vec::new();
    let b = methods_with_loc(ms, DefaultLoc::Body);
    let q = methods_with_loc(ms, DefaultLoc::Query);
    if b.len() > 0 {
        out.push((DefaultLoc::Body, b));
    }
    if q.len() > 0 {
        out.push((DefaultLoc::Query, q));
    }
    out
}

} // verus!

verus! {

/// GET and POST fall in two groups: POST, which carries a body, and GET,
/// whose unannotated fields go to the query string.
pub proof fn lemma_get_post_groups()
    ensures
        method_groups(seq![Method::GET, Method::POST]) == seq![
            (DefaultLoc::Body, seq![Method::POST]),
            (DefaultLoc::Query, seq![Method::GET]),
        ],
{
    let ms = seq![Method::GET, Method::POST];
    assert(ms.drop_last() =~= seq![Method::GET]);
    assert(seq![Method::GET].drop_last() =~= Seq::<Method>::empty());
    assert(ms.last() == Method::POST);
    assert(seq![Method::GET].last() == Method::GET);
    assert(methods_at(Seq::<Method>::empty(), DefaultLoc::Body) == Seq::<Method>::empty());
    assert(methods_at(Seq::<Method>::empty(), DefaultLoc::Query) == Seq::<Method>::empty());
    assert(methods_at(seq![Method::GET], DefaultLoc::Body) == Seq::<Method>::empty());
    assert(methods_at(seq![Method::GET], DefaultLoc::Query) =~= seq![Method::GET]);
    assert(methods_at(ms, DefaultLoc::Body) =~= seq![Method::POST]);
    assert(methods_at(ms, DefaultLoc::Query) =~= seq![Method::GET]);
    assert(method_groups(ms) =~= seq![
        (DefaultLoc::Body, seq![Method::POST]),
        (DefaultLoc::Query, seq![Method::GET]),
    ]);
}

} // verus!
