//! A small fluent builder for URL strings. A builder accumulates a
//! scheme, a host, an optional port, an ordered list of path segments
//! and an ordered list of query key/value pairs, and renders them as
//! `<scheme>://<host>[:<port>][/<seg>/...][?<k>=<v>&...]` with each
//! segment, key and value percent-encoded on its own. Every operation
//! returns a new value, so a shared prefix can be branched into several
//! independent URLs.

use vstd::prelude::*;

pub mod decimal;
pub mod encoding;
pub mod extra_iters;
pub mod prepend_if_not_empty;

use crate::decimal::dec_digits;
use crate::encoding::encode_chars;
use vstd::string::StringExecFns;

verus! {

/// The mathematical content of a builder: what it will render, before
/// any encoding or joining has happened.
pub ghost struct UrlParts {
    pub scheme: Seq<char>,
    pub host: Seq<char>,
    pub port: Option<u16>,
    pub paths: Seq<Seq<char>>,
    pub query: Seq<(Seq<char>, Seq<char>)>,
}

/// The state after a `port` call: only the port changes, and a second
/// call overwrites the first.
pub open spec fn with_port(u: UrlParts, port: u16) -> UrlParts {
    UrlParts { port: Some(port), ..u }
}

/// The state after a `path` call: the segment goes to the end of the
/// path list, everything else stays.
pub open spec fn with_path(u: UrlParts, segment: Seq<char>) -> UrlParts {
    UrlParts { paths: u.paths.push(segment), ..u }
}

/// The state after a `query` call: the pair goes to the end of the query
/// list, everything else stays.
pub open spec fn with_query(u: UrlParts, key: Seq<char>, value: Seq<char>) -> UrlParts {
    UrlParts { query: u.query.push((key, value)), ..u }
}

/// The items joined with `sep` between each two neighbours; no separator
/// before the first or after the last.
pub open spec fn join(items: Seq<Seq<char>>, sep: Seq<char>) -> Seq<char>
    decreases items.len(),
{
    if items.len() == 0 {
        Seq::empty()
    } else if items.len() == 1 {
        items[0]
    } else {
        join(items.drop_last(), sep) + sep + items.last()
    }
}

/// Each path segment percent-encoded on its own.
pub open spec fn encode_all(items: Seq<Seq<char>>) -> Seq<Seq<char>> {
    items.map_values(|s: Seq<char>| encode_chars(s))
}

/// The path fragment: encoded segments joined with `/`, with one leading
/// `/` when there is at least one segment, and empty otherwise. A single
/// empty segment still renders its leading `/`.
pub open spec fn spec_path_fragment(paths: Seq<Seq<char>>) -> Seq<char> {
    if paths.len() == 0 {
        Seq::empty()
    } else {
        seq!['/'] + join(encode_all(paths), seq!['/'])
    }
}

/// One query pair rendered as `key=value`, both sides percent-encoded on
/// their own.
pub open spec fn pair_fragment(pair: (Seq<char>, Seq<char>)) -> Seq<char> {
    encode_chars(pair.0) + seq!['='] + encode_chars(pair.1)
}

/// The query fragment: rendered pairs joined with `&`, with one leading
/// `?` when there is at least one pair, and empty otherwise.
pub open spec fn spec_query_fragment(query: Seq<(Seq<char>, Seq<char>)>) -> Seq<char> {
    if query.len() == 0 {
        Seq::empty()
    } else {
        seq!['?'] + join(query.map_values(|p: (Seq<char>, Seq<char>)| pair_fragment(p)), seq!['&'])
    }
}

/// The port fragment: `:` and the decimal digits when a port is set, and
/// empty otherwise.
pub open spec fn spec_port_fragment(port: Option<u16>) -> Seq<char> {
    match port {
        Some(p) => seq![':'] + dec_digits(p as int),
        None => Seq::empty(),
    }
}

/// Everything up to and including the port: scheme, `://`, host, port
/// fragment.
pub open spec fn authority(u: UrlParts) -> Seq<char> {
    u.scheme + seq![':', '/', '/'] + u.host + spec_port_fragment(u.port)
}

/// The whole URL that `build` returns.
pub open spec fn render(u: UrlParts) -> Seq<char> {
    authority(u) + spec_path_fragment(u.paths) + spec_query_fragment(u.query)
}

/// A fluent URL builder. Every operation takes the builder by value and
/// returns the updated one; cloning an intermediate builder forks it
/// into branches that no longer affect one another.
pub struct Early {
    scheme: String,
    host: String,
    port: Option<u16>,
    paths: Vec<String>,
    query: Vec<(String, String)>,
}

impl View for Early {
    type V = UrlParts;

    closed spec fn view(&self) -> UrlParts {
        UrlParts {
            scheme: self.scheme@,
            host: self.host@,
            port: self.port,
            paths: self.paths.deep_view(),
            query: self.query.deep_view(),
        }
    }
}

/// Law: appending a path segment appends exactly one `/` and the encoded
/// segment to the path fragment, and an empty path list renders nothing.
/// So segments `s1 .. sn` render as `/e(s1)/e(s2)/.../e(sn)`, with no
/// trailing separator.
pub proof fn lemma_path_fragment_appends(paths: Seq<Seq<char>>, segment: Seq<char>)
    ensures
        spec_path_fragment(paths.push(segment)) == spec_path_fragment(paths) + seq!['/']
            + encode_chars(segment),
        spec_path_fragment(Seq::<Seq<char>>::empty()) == Seq::<char>::empty(),
{
    let e = encode_all(paths);
    let e2 = encode_all(paths.push(segment));
    assert(e2.drop_last() =~= e);
    assert(e2.last() == encode_chars(segment));
    if paths.len() == 0 {
        assert(join(e2, seq!['/']) == e2[0]);
        assert(spec_path_fragment(paths.push(segment)) =~= spec_path_fragment(paths) + seq!['/']
            + encode_chars(segment));
    } else {
        assert(join(e2, seq!['/']) == join(e, seq!['/']) + seq!['/'] + encode_chars(segment));
        assert(spec_path_fragment(paths.push(segment)) =~= spec_path_fragment(paths) + seq!['/']
            + encode_chars(segment));
    }
}

/// Law: appending a query pair appends exactly one separator (`?` before
/// the first pair, `&` before every later one) and `key=value`, both
/// sides encoded on their own, and an empty query list renders nothing.
/// So pairs `(k1,v1) .. (kn,vn)` render as
/// `?e(k1)=e(v1)&...&e(kn)=e(vn)`.
pub proof fn lemma_query_fragment_appends(
    query: Seq<(Seq<char>, Seq<char>)>,
    key: Seq<char>,
    value: Seq<char>,
)
    ensures
        spec_query_fragment(query.push((key, value))) == spec_query_fragment(query) + (
        if query.len() == 0 {
            seq!['?']
        } else {
            seq!['&']
        }) + encode_chars(key) + seq!['='] + encode_chars(value),
        spec_query_fragment(Seq::<(Seq<char>, Seq<char>)>::empty()) == Seq::<char>::empty(),
{
    let rendered = query.map_values(|p: (Seq<char>, Seq<char>)| pair_fragment(p));
    let rendered2 = query.push((key, value)).map_values(
        |p: (Seq<char>, Seq<char>)| pair_fragment(p),
    );
    assert(rendered2.drop_last() =~= rendered);
    assert(rendered2.last() == pair_fragment((key, value)));
    if query.len() == 0 {
        assert(join(rendered2, seq!['&']) == rendered2[0]);
        assert(spec_query_fragment(query.push((key, value))) =~= spec_query_fragment(query)
            + seq!['?'] + encode_chars(key) + seq!['='] + encode_chars(value));
    } else {
        assert(join(rendered2, seq!['&']) == join(rendered, seq!['&']) + seq!['&']
            + pair_fragment((key, value)));
        assert(spec_query_fragment(query.push((key, value))) =~= spec_query_fragment(query)
            + seq!['&'] + encode_chars(key) + seq!['='] + encode_chars(value));
    }
}

/// Law: forking. Branching one base into two continuations, each with its
/// own appended segment, renders two URLs that share the base's
/// authority, path prefix and query and differ only in the one segment
/// each branch added: neither branch's segment reaches the other.
pub proof fn lemma_fork_independence(base: UrlParts, left: Seq<char>, right: Seq<char>)
    ensures
        render(with_path(base, left)) == authority(base) + spec_path_fragment(base.paths)
            + seq!['/'] + encode_chars(left) + spec_query_fragment(base.query),
        render(with_path(base, right)) == authority(base) + spec_path_fragment(base.paths)
            + seq!['/'] + encode_chars(right) + spec_query_fragment(base.query),
{
    lemma_path_fragment_appends(base.paths, left);
    lemma_path_fragment_appends(base.paths, right);
    assert(render(with_path(base, left)) =~= authority(base) + spec_path_fragment(base.paths)
        + seq!['/'] + encode_chars(left) + spec_query_fragment(base.query));
    assert(render(with_path(base, right)) =~= authority(base) + spec_path_fragment(base.paths)
        + seq!['/'] + encode_chars(right) + spec_query_fragment(base.query));
}

/// Law: the last `port` call wins. Setting the port twice leaves the same
/// state and the same rendered URL as setting it once to the second
/// value; the first value leaves no trace.
pub proof fn lemma_port_last_write_wins(u: UrlParts, first: u16, second: u16)
    ensures
        with_port(with_port(u, first), second) == with_port(u, second),
        render(with_port(with_port(u, first), second)) == render(with_port(u, second)),
{
}

/// An element-wise copy of a list of strings.
fn clone_strings(v: &Vec<String>) -> (r: Vec<String>)
    ensures
        r.deep_view() == v.deep_view(),
{
    let mut r: Vec<String> = Vec::new();
    let mut i: usize = 0;
    while i < v.len()
        invariant
            i <= v.len(),
            r@.len() == i,
            forall|j: int| 0 <= j < i ==> (#[trigger] r@[j])@ == v@[j]@,
        decreases v.len() - i,
    {
        r.push(v[i].clone());
        i += 1;
    }
    proof {
        assert(r.deep_view() =~= v.deep_view());
    }
    r
}

/// An element-wise copy of a list of string pairs.
fn clone_pairs(v: &Vec<(String, String)>) -> (r: Vec<(String, String)>)
    ensures
        r.deep_view() == v.deep_view(),
{
    let mut r: Vec<(String, String)> = Vec::new();
    let mut i: usize = 0;
    while i < v.len()
        invariant
            i <= v.len(),
            r@.len() == i,
            forall|j: int| 0 <= j < i ==> (#[trigger] r@[j]).0@ == v@[j].0@ && r@[j].1@ == v@[
                j].1@,
        decreases v.len() - i,
    {
        let key = v[i].0.clone();
        let value = v[i].1.clone();
        r.push((key, value));
        i += 1;
    }
    proof {
        assert(r.deep_view() =~= v.deep_view());
    }
    r
}

impl Clone for Early {
    /// A fork: the clone renders the same URL as the builder it was made
    /// from, and extending either of the two afterwards never changes the
    /// other.
    fn clone(&self) -> (r: Self)
        ensures
            r@ == self@,
    {
        let r = Early {
            scheme: self.scheme.clone(),
            host: self.host.clone(),
            port: self.port,
            paths: clone_strings(&self.paths),
            query: clone_pairs(&self.query),
        };
        proof {
            assert(r@ =~~= self@);
        }
        r
    }
}

impl Early {
    /// A builder with the given scheme and host, both taken verbatim, and
    /// no port, path segments or query pairs yet.
    pub fn new(scheme: &str, host: &str) -> (r: Self)
        ensures
            r@ == (UrlParts {
                scheme: scheme@,
                host: host@,
                port: None,
                paths: Seq::empty(),
                query: Seq::empty(),
            }),
    {
        let r = Early {
            scheme: String::from_str(scheme),
            host: String::from_str(host),
            port: None,
            paths: Vec::new(),
            query: Vec::new(),
        };
        proof {
            assert(r@.paths =~= Seq::<Seq<char>>::empty());
            assert(r@.query =~= Seq::<(Seq<char>, Seq<char>)>::empty());
        }
        r
    }

    /// Set the port; a later call overwrites an earlier one.
    pub fn port(self, port: u16) -> (r: Self)
        ensures
            r@ == with_port(self@, port),
    {
        Early { port: Some(port), ..self }
    }

    /// Append one path segment; nothing is normalized or rejected here,
    /// rendering escapes whatever needs escaping.
    pub fn path(self, path: &str) -> (r: Self)
        ensures
            r@ == with_path(self@, path@),
    {
        let mut r = self;
        r.paths.push(String::from_str(path));
        proof {
            assert(r@.paths =~= self@.paths.push(path@));
        }
        r
    }

    /// Append one query key/value pair; duplicate keys stay as separate
    /// pairs in order.
    pub fn query(self, key: &str, value: &str) -> (r: Self)
        ensures
            r@ == with_query(self@, key@, value@),
    {
        let mut r = self;
        r.query.push((String::from_str(key), String::from_str(value)));
        proof {
            assert(r@.query =~= self@.query.push((key@, value@)));
        }
        r
    }

    /// Render the whole URL: scheme, `://`, host, then the port, path and
    /// query fragments, each empty when there is nothing to render.
    pub fn build(self) -> (r: String)
        ensures
            r@ == render(self@),
    {
        let ghost u = self@;
        let port = self.port_fragment();
        let query = self.query_fragment();
        let path = self.path_fragment();
        let Early { scheme, host, .. } = self;
        let mut out = scheme;
        out.append("://");
        out.append(host.as_str());
        out.append(port.as_str());
        out.append(path.as_str());
        out.append(query.as_str());
        proof {
            reveal_strlit("://");
            assert(("://")@ =~= seq![':', '/', '/']);
            assert(out@ =~= render(u));
        }
        out
    }

    /// The `:<digits>` fragment, or nothing when no port was set.
    fn port_fragment(&self) -> (r: String)
        ensures
            r@ == spec_port_fragment(self@.port),
    {
        match self.port {
            Some(p) => {
                let mut s = String::from_str(":");
                let digits = crate::decimal::u16_to_string(p);
                s.append(digits.as_str());
                proof {
                    reveal_strlit(":");
                    assert(s@ =~= seq![':'] + dec_digits(p as int));
                }
                s
            },
            None => String::new(),
        }
    }

    /// The `/<seg>/<seg>` fragment, or nothing when there are no
    /// segments.
    fn path_fragment(&self) -> (r: String)
        ensures
            r@ == spec_path_fragment(self@.paths),
    {
        let ghost segs = encode_all(self@.paths);
        let mut joined = String::new();
        let mut i: usize = 0;
        while i < self.paths.len()
            invariant
                i <= self.paths.len(),
                segs == encode_all(self@.paths),
                segs.len() == self.paths.len(),
                joined@ == join(segs.take(i as int), seq!['/']),
            decreases self.paths.len() - i,
        {
            if i > 0 {
                joined.append("/");
            }
            let e = crate::encoding::encode(self.paths[i].as_str());
            joined.append(e.as_str());
            proof {
                reveal_strlit("/");
                assert(("/")@ =~= seq!['/']);
                assert(segs[i as int] == encode_chars(self@.paths[i as int]));
                assert(segs.take(i as int + 1).drop_last() =~= segs.take(i as int));
                assert(joined@ =~= join(segs.take(i as int + 1), seq!['/']));
            }
            i += 1;
        }
        proof {
            assert(segs.take(self.paths.len() as int) =~= segs);
        }
        if self.paths.len() == 0 {
            joined
        } else {
            let r = String::from_str("/").concat(joined.as_str());
            proof {
                reveal_strlit("/");
                assert(r@ =~= spec_path_fragment(self@.paths));
            }
            r
        }
    }

    /// The `?<k>=<v>&<k>=<v>` fragment, or nothing when there are no
    /// pairs.
    fn query_fragment(&self) -> (r: String)
        ensures
            r@ == spec_query_fragment(self@.query),
    {
        let ghost pairs = self@.query.map_values(
            |p: (Seq<char>, Seq<char>)| pair_fragment(p),
        );
        let mut joined = String::new();
        let mut i: usize = 0;
        while i < self.query.len()
            invariant
                i <= self.query.len(),
                pairs == self@.query.map_values(|p: (Seq<char>, Seq<char>)| pair_fragment(p)),
                pairs.len() == self.query.len(),
                joined@ == join(pairs.take(i as int), seq!['&']),
            decreases self.query.len() - i,
        {
            if i > 0 {
                joined.append("&");
            }
            let key = crate::encoding::encode(self.query[i].0.as_str());
            let value = crate::encoding::encode(self.query[i].1.as_str());
            joined.append(key.as_str());
            joined.append("=");
            joined.append(value.as_str());
            proof {
                reveal_strlit("&");
                reveal_strlit("=");
                assert(("&")@ =~= seq!['&']);
                assert(("=")@ =~= seq!['=']);
                assert(pairs[i as int] == pair_fragment(self@.query[i as int]));
                assert(self@.query[i as int] == (self.query@[i as int].0@, self.query@[
                    i as int].1@));
                assert(pairs.take(i as int + 1).drop_last() =~= pairs.take(i as int));
                assert(joined@ =~= join(pairs.take(i as int + 1), seq!['&']));
            }
            i += 1;
        }
        proof {
            assert(pairs.take(self.query.len() as int) =~= pairs);
        }
        if self.query.len() == 0 {
            joined
        } else {
            let r = String::from_str("?").concat(joined.as_str());
            proof {
                reveal_strlit("?");
                assert(r@ =~= spec_query_fragment(self@.query));
            }
            r
        }
    }
}

} // verus!
