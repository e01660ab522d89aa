//! The configuration of the GraphQL client: its endpoint and the headers
//! sent with each request.

use vstd::prelude::*;

verus! {

/// A client of a GraphQL API.
pub struct Client {
    endpoint: String,
    headers: Vec<(String, String)>,
}

/// The ways a request can go wrong.
#[derive(Debug, PartialEq, Eq, Clone)]
pub enum ClientError {
    /// The body couldn't be built.
    Body,
    /// An error caused by `window.fetch`.
    Network(String),
    /// Error in a dynamic JS cast that should have worked.
    Cast,
    /// No window object could be retrieved.
    NoWindow,
    /// Response shape does not match the generated code.
    ResponseShape,
    /// Response could not be converted to text.
    ResponseText,
    /// Exception thrown when building the request.
    RequestError,
    /// Other JS exception.
    JsException,
}

/// The headers as a map from name to value: a later entry for a name
/// replaces an earlier one.
pub open spec fn headers_map(headers: Seq<(String, String)>) -> Map<Seq<char>, Seq<char>>
    decreases headers.len(),
{
    if headers.len() == 0 {
        Map::empty()
    } else {
        headers_map(headers.drop_last()).insert(headers.last().0@, headers.last().1@)
    }
}

/// No two headers have the same name.
pub open spec fn unique_names(headers: Seq<(String, String)>) -> bool {
    forall|i: int, j: int| 0 <= i < j < headers.len() ==> (#[trigger] headers[i]).0@ != (#[trigger] headers[j]).0@
}

/// The names of the headers are the domain of their map.
proof fn lemma_headers_domain(headers: Seq<(String, String)>, name: Seq<char>)
    ensures
        headers_map(headers).dom().contains(name) <==> exists|i: int| 0 <= i < headers.len() && (#[trigger] headers[i]).0@ == name,
    decreases headers.len(),
{
    if headers.len() > 0 {
        let prefix = headers.drop_last();
        lemma_headers_domain(prefix, name);
        if exists|i: int| 0 <= i < prefix.len() && (#[trigger] prefix[i]).0@ == name {
            let i = choose|i: int| 0 <= i < prefix.len() && (#[trigger] prefix[i]).0@ == name;
            assert(headers[i] == prefix[i]);
        }
        if exists|i: int| 0 <= i < headers.len() && (#[trigger] headers[i]).0@ == name {
            let i = choose|i: int| 0 <= i < headers.len() && (#[trigger] headers[i]).0@ == name;
            if i < prefix.len() {
                assert(prefix[i] == headers[i]);
            }
        }
    }
}

/// Replacing the value of a header of a name is inserting the name's new
/// value in the map.
proof fn lemma_headers_update(headers: Seq<(String, String)>, k: int, entry: (String, String))
    requires
        unique_names(headers),
        0 <= k < headers.len(),
        headers[k].0@ == entry.0@,
    ensures
        headers_map(headers.update(k, entry)) == headers_map(headers).insert(entry.0@, entry.1@),
    decreases headers.len(),
{
    let updated = headers.update(k, entry);
    let prefix = headers.drop_last();
    if k == headers.len() - 1 {
        assert(updated.drop_last() =~= prefix);
        assert(headers_map(updated) =~= headers_map(headers).insert(entry.0@, entry.1@));
    } else {
        assert(updated.drop_last() =~= prefix.update(k, entry));
        assert(unique_names(prefix)) by {
            assert forall|i: int, j: int| 0 <= i < j < prefix.len() implies (#[trigger] prefix[i]).0@ != (#[trigger] prefix[j]).0@ by {
                assert(prefix[i] == headers[i] && prefix[j] == headers[j]);
            }
        }
        lemma_headers_update(prefix, k, entry);
        assert(headers[k].0@ != headers.last().0@);
        assert(headers_map(updated) =~= headers_map(headers).insert(entry.0@, entry.1@));
    }
}

impl Client {
    /// The endpoint.
    pub closed spec fn endpoint_spec(&self) -> Seq<char> {
        self.endpoint@
    }

    /// The headers, by name.
    pub closed spec fn headers_spec(&self) -> Map<Seq<char>, Seq<char>> {
        headers_map(self.headers@)
    }

    #[verifier::type_invariant]
    closed spec fn names_unique(self) -> bool {
        unique_names(self.headers@)
    }

    /// A client of the API at `endpoint`, without headers.
    pub fn new(endpoint: &str) -> (c: Client)
        ensures
            c.endpoint_spec() == endpoint@,
            c.headers_spec() == Map::<Seq<char>, Seq<char>>::empty(),
    {
        Client { endpoint: endpoint.to_owned(), headers: Vec::new() }
    }

    /// The endpoint.
    pub fn endpoint(&self) -> (s: &String)
        ensures
            s@ == self.endpoint_spec(),
    {
        &self.endpoint
    }

    /// The value of the header `name`, if any.
    pub fn header(&self, name: &str) -> (r: Option<&String>)
        ensures
            r is Some <==> self.headers_spec().dom().contains(name@),
            r matches Some(v) ==> v@ == self.headers_spec()[name@],
    {
        proof {
            use_type_invariant(self);
        }
        match header_position(&self.headers, name) {
            Some(k) => {
                proof {
                    lemma_headers_domain(self.headers@, name@);
                    lemma_headers_value(self.headers@, k as int);
                }
                Some(&self.headers[k].1)
            },
            None => {
                proof {
                    lemma_headers_domain(self.headers@, name@);
                }
                None
            },
        }
    }

    /// Adds a header to those sent with the requests (replacing the value
    /// of a header of the same name).
    pub fn add_header(&mut self, name: &str, value: &str)
        ensures
            final(self).endpoint_spec() == old(self).endpoint_spec(),
            final(self).headers_spec() == old(self).headers_spec().insert(name@, value@),
    {
        proof {
            use_type_invariant(&*self);
        }
        let entry = (name.to_owned(), value.to_owned());
        match header_position(&self.headers, name) {
            Some(k) => {
                proof {
                    lemma_headers_update(self.headers@, k as int, entry);
                    assert forall|i: int, j: int| 0 <= i < j < self.headers@.update(k as int, entry).len() implies
                        (#[trigger] self.headers@.update(k as int, entry)[i]).0@ != (#[trigger] self.headers@.update(k as int, entry)[j]).0@ by {
                    }
                }
                let mut headers: Vec<(String, String)> = Vec::new();
                std::mem::swap(&mut headers, &mut self.headers);
                headers.set(k, entry);
                self.headers = headers;
            },
            None => {
                proof {
                    assert(headers_map(self.headers@.push(entry)) == headers_map(self.headers@).insert(name@, value@)) by {
                        assert(self.headers@.push(entry).drop_last() =~= self.headers@);
                    }
                }
                let mut headers: Vec<(String, String)> = Vec::new();
                std::mem::swap(&mut headers, &mut self.headers);
                headers.push(entry);
                self.headers = headers;
            },
        }
    }
}

/// The headers that a request sets, by name: `Content-Type` and `Accept`
/// both `application/json`, then the client's own headers, which replace
/// those of the same name.
pub open spec fn request_headers_map(own: Map<Seq<char>, Seq<char>>) -> Map<Seq<char>, Seq<char>> {
    map!["Content-Type"@ => "application/json"@, "Accept"@ => "application/json"@].union_prefer_right(own)
}

/// The map of headers one after the other is the map of the first, with
/// the second's entries taking precedence.
proof fn lemma_headers_concat(a: Seq<(String, String)>, b: Seq<(String, String)>)
    ensures
        headers_map(a + b) == headers_map(a).union_prefer_right(headers_map(b)),
    decreases b.len(),
{
    if b.len() == 0 {
        assert(a + b =~= a);
        assert(headers_map(a).union_prefer_right(headers_map(b)) =~= headers_map(a));
    } else {
        lemma_headers_concat(a, b.drop_last());
        assert((a + b).drop_last() =~= a + b.drop_last());
        assert((a + b).last() == b.last());
        assert(headers_map(a + b) =~= headers_map(a).union_prefer_right(headers_map(b)));
    }
}

impl Client {
    /// The headers that each request sets, in the order they are set:
    /// `Content-Type` and `Accept`, both `application/json`, then the
    /// client's own headers (setting a header again replaces its value).
    pub fn request_headers(&self) -> (r: Vec<(String, String)>)
        ensures
            r@.len() >= 2,
            r@[0].0@ == "Content-Type"@ && r@[0].1@ == "application/json"@,
            r@[1].0@ == "Accept"@ && r@[1].1@ == "application/json"@,
            unique_names(r@.skip(2)),
            headers_map(r@.skip(2)) == self.headers_spec(),
            headers_map(r@) == request_headers_map(self.headers_spec()),
    {
        proof {
            use_type_invariant(self);
        }
        let mut r: Vec<(String, String)> = Vec::new();
        r.push(("Content-Type".to_owned(), "application/json".to_owned()));
        r.push(("Accept".to_owned(), "application/json".to_owned()));
        let ghost fixed = r@;
        let mut i: usize = 0;
        while i < self.headers.len()
            invariant
                i <= self.headers.len(),
                r@.len() == 2 + i,
                r@.take(2) == fixed,
                forall|j: int| 0 <= j < i ==> (#[trigger] r@[2 + j]).0@ == self.headers@[j].0@ && r@[2 + j].1@ == self.headers@[j].1@,
            decreases self.headers.len() - i,
        {
            let (name, value) = &self.headers[i];
            r.push((name.clone(), value.clone()));
            i = i + 1;
        }
        proof {
            let own = r@.skip(2);
            assert(r@ =~= fixed + own);
            assert(forall|j: int| 0 <= j < own.len() ==> #[trigger] own[j] == r@[2 + j]);
            lemma_same_names_same_map(own, self.headers@);
            assert forall|x: int, y: int| 0 <= x < y < own.len() implies (#[trigger] own[x]).0@ != (#[trigger] own[y]).0@ by {
                assert(own[x] == r@[2 + x] && own[y] == r@[2 + y]);
            }
            lemma_headers_concat(fixed, own);
            reveal_strlit("Content-Type");
            reveal_strlit("Accept");
            assert(fixed.drop_last().drop_last() =~= Seq::<(String, String)>::empty());
            assert(fixed.drop_last().last() == fixed[0]);
            assert(fixed.last() == fixed[1]);
            assert(headers_map(fixed.drop_last().drop_last()) == Map::<Seq<char>, Seq<char>>::empty());
            assert(headers_map(fixed.drop_last()) == Map::<Seq<char>, Seq<char>>::empty().insert("Content-Type"@, "application/json"@));
            assert(headers_map(fixed) == Map::<Seq<char>, Seq<char>>::empty().insert("Content-Type"@, "application/json"@).insert("Accept"@, "application/json"@));
            assert(headers_map(fixed) =~= map!["Content-Type"@ => "application/json"@, "Accept"@ => "application/json"@]);
        }
        r
    }
}

/// Headers with the same names and values, entry by entry, have the same
/// map.
proof fn lemma_same_names_same_map(a: Seq<(String, String)>, b: Seq<(String, String)>)
    requires
        a.len() == b.len(),
        forall|j: int| 0 <= j < a.len() ==> (#[trigger] a[j]).0@ == b[j].0@ && a[j].1@ == b[j].1@,
    ensures
        headers_map(a) == headers_map(b),
    decreases a.len(),
{
    if a.len() > 0 {
        assert forall|j: int| 0 <= j < a.len() - 1 implies (#[trigger] a.drop_last()[j]).0@ == b.drop_last()[j].0@
            && a.drop_last()[j].1@ == b.drop_last()[j].1@ by {
            assert(a.drop_last()[j] == a[j] && b.drop_last()[j] == b[j]);
        }
        lemma_same_names_same_map(a.drop_last(), b.drop_last());
        assert(a.last() == a[a.len() - 1] && b.last() == b[b.len() - 1]);
    }
}

/// The value of the last header of a name is its value in the map, when
/// names are unique.
proof fn lemma_headers_value(headers: Seq<(String, String)>, k: int)
    requires
        unique_names(headers),
        0 <= k < headers.len(),
    ensures
        headers_map(headers)[headers[k].0@] == headers[k].1@,
        headers_map(headers).dom().contains(headers[k].0@),
    decreases headers.len(),
{
    let prefix = headers.drop_last();
    if k < headers.len() - 1 {
        assert(unique_names(prefix)) by {
            assert forall|i: int, j: int| 0 <= i < j < prefix.len() implies (#[trigger] prefix[i]).0@ != (#[trigger] prefix[j]).0@ by {
                assert(prefix[i] == headers[i] && prefix[j] == headers[j]);
            }
        }
        assert(prefix[k] == headers[k]);
        lemma_headers_value(prefix, k);
        assert(headers[k].0@ != headers.last().0@);
    }
}

/// The position of the header with this name.
fn header_position(headers: &Vec<(String, String)>, name: &str) -> (r: Option<usize>)
    ensures
        r is None ==> forall|i: int| 0 <= i < headers.len() ==> (#[trigger] headers@[i]).0@ != name@,
        r matches Some(k) ==> k < headers.len() && headers@[k as int].0@ == name@,
{
    let mut i: usize = 0;
    while i < headers.len()
        invariant
            i <= headers.len(),
            forall|j: int| 0 <= j < i ==> (#[trigger] headers@[j]).0@ != name@,
        decreases headers.len() - i,
    {
        if str_equal(headers[i].0.as_str(), name) {
            return Some(i);
        }
        i = i + 1;
    }
    None
}

/// Compares two strings character by character.
fn str_equal(a: &str, b: &str) -> (r: bool)
    ensures
        r == (a@ == b@),
{
    let x = a.to_owned();
    let y = b.to_owned();
    x == y
}


/// Reading a header gives back what adding it wrote: after
/// [Client::add_header] with `name` and `value` (which inserts `value` at
/// `name` in the headers), [Client::header] of `name` finds `value`, and
/// every other header is as it was.
pub proof fn law_header_read_after_add(headers: Map<Seq<char>, Seq<char>>, name: Seq<char>, value: Seq<char>, other: Seq<char>)
    ensures
        headers.insert(name, value).dom().contains(name),
        headers.insert(name, value)[name] == value,
        other != name ==> (headers.insert(name, value).dom().contains(other) <==> headers.dom().contains(other)),
        other != name && headers.dom().contains(other) ==> headers.insert(name, value)[other] == headers[other],
{
}

} // verus!
