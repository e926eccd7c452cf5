//! The in-memory dog store and its two sample handlers: a GET endpoint
//! that lists the stored names as JSON, and a POST endpoint that adds a
//! name, refusing duplicates.

use vstd::prelude::*;
use vstd::rwlock::RwLock;
use vstd::string::StringExecFns;
use std::sync::Arc;
use crate::body::{json_as_str, json_get};
use crate::handlers::{Handler, HandlerPath, HandlerResult, canonical_path};
use crate::request::{HTTPMethod, Request};
use crate::response::ResponseBuilder;
use crate::status::ResponseStatus;
use crate::strutil::{join_char, push_char, str_eq, views};

verus! {

/// The names of the dogs on record, in insertion order.
pub struct DogStore {
    pub names: Vec<String>,
}

impl DogStore {
    /// Puts one more name on record, at the end.
    pub fn add(&mut self, name: &str)
        ensures
            final(self).names@.len() == old(self).names@.len() + 1,
            final(self).names@[old(self).names@.len() as int]@ == name@,
            forall|i: int|
                0 <= i < old(self).names@.len() ==> final(self).names@[i] == old(self).names@[i],
    {
        self.names.push(name.to_owned());
    }

    /// True iff a dog of this name is on record.
    pub fn has_name(&self, name: &str) -> (r: bool)
        ensures
            r == exists|i: int| 0 <= i < self.names@.len() && (#[trigger] self.names@[i])@
                == name@,
    {
        let n = self.names.len();
        for i in 0..n
            invariant
                n == self.names@.len(),
                forall|j: int| 0 <= j < i ==> (#[trigger] self.names@[j])@ != name@,
        {
            if str_eq(self.names[i].as_str(), name) {
                return true;
            }
        }
        proof {
            if exists|i: int|
                0 <= i < self.names@.len() && (#[trigger] self.names@[i])@ == name@ {
                let w = choose|w: int|
                    0 <= w < self.names@.len() && (#[trigger] self.names@[w])@ == name@;
                assert(self.names@[w]@ != name@);
            }
        }
        false
    }
}

impl Default for DogStore {
    /// A store with no dogs on record.
    fn default() -> (r: Self)
        ensures
            r.names@.len() == 0,
    {
        DogStore { names: Vec::new() }
    }
}

/// The lock predicate over the shared store: any record is a valid
/// store.
pub struct DogStorePred;

impl vstd::rwlock::RwLockPredicate<DogStore> for DogStorePred {
    open spec fn inv(self, v: DogStore) -> bool {
        true
    }
}

/// The store as the handlers share it: reference-counted behind a
/// reader-writer lock.
pub type SharedDogStore = Arc<RwLock<DogStore, DogStorePred>>;

/// A fresh shared store with no dogs on record.
pub fn new_shared_store() -> SharedDogStore {
    Arc::new(RwLock::new(DogStore { names: Vec::new() }, Ghost(DogStorePred {  })))
}

/// The hexadecimal digit for `d` in `0 ..= 15`, lower-case.
pub open spec fn hex_char(d: int) -> char {
    if d < 10 {
        ((48 + d) as u32) as char
    } else {
        ((87 + d) as u32) as char
    }
}

/// A JSON string character: `"` and `\` escaped with a backslash, the
/// named control characters as their short escapes, any other control
/// character as `\u00XY`, and everything else as written.
pub open spec fn esc_one(c: char) -> Seq<char> {
    if c == '"' || c == '\\' {
        seq!['\\', c]
    } else if c == '\u{08}' {
        seq!['\\', 'b']
    } else if c == '\t' {
        seq!['\\', 't']
    } else if c == '\n' {
        seq!['\\', 'n']
    } else if c == '\u{0c}' {
        seq!['\\', 'f']
    } else if c == '\r' {
        seq!['\\', 'r']
    } else if (c as u32) < 32 {
        seq!['\\', 'u', '0', '0', hex_char((c as u32 / 16) as int), hex_char(
            (c as u32 % 16) as int,
        )]
    } else {
        seq![c]
    }
}

fn hex_char_exec(d: u32) -> (r: char)
    requires
        d <= 15,
    ensures
        r == hex_char(d as int),
{
    let b: u8 = d as u8;
    proof {
        assert((d as u8) as u32 == d) by (bit_vector)
            requires
                d <= 15,
        ;
    }
    if d < 10 {
        ((48 + b) as char)
    } else {
        ((87 + b) as char)
    }
}

/// The body of a JSON string: every character escaped as needed.
pub open spec fn json_escape(s: Seq<char>) -> Seq<char>
    decreases s.len(),
{
    if s.len() == 0 {
        Seq::empty()
    } else {
        json_escape(s.drop_last()) + esc_one(s.last())
    }
}

fn json_escape_str(s: &str) -> (r: String)
    ensures
        r@ == json_escape(s@),
{
    let n = s.unicode_len();
    let mut out = String::new();
    for i in 0..n
        invariant
            n == s@.len(),
            out@ =~= json_escape(s@.subrange(0, i as int)),
    {
        let c = s.get_char(i);
        if c == '"' || c == '\\' {
            push_char(&mut out, '\\');
            push_char(&mut out, c);
        } else if c == '\u{08}' {
            push_char(&mut out, '\\');
            push_char(&mut out, 'b');
        } else if c == '\t' {
            push_char(&mut out, '\\');
            push_char(&mut out, 't');
        } else if c == '\n' {
            push_char(&mut out, '\\');
            push_char(&mut out, 'n');
        } else if c == '\u{0c}' {
            push_char(&mut out, '\\');
            push_char(&mut out, 'f');
        } else if c == '\r' {
            push_char(&mut out, '\\');
            push_char(&mut out, 'r');
        } else if (c as u32) < 32 {
            push_char(&mut out, '\\');
            push_char(&mut out, 'u');
            push_char(&mut out, '0');
            push_char(&mut out, '0');
            let d: u32 = c as u32;
            push_char(&mut out, hex_char_exec(d / 16));
            push_char(&mut out, hex_char_exec(d % 16));
        } else {
            push_char(&mut out, c);
        }
        proof {
            assert(s@.subrange(0, i + 1).drop_last() =~= s@.subrange(0, i as int));
            assert(out@ =~= json_escape(s@.subrange(0, i + 1)));
        }
    }
    proof {
        assert(s@.subrange(0, n as int) =~= s@);
    }
    out
}

/// One name as a JSON string, quoted and escaped.
pub open spec fn json_string(s: Seq<char>) -> Seq<char> {
    seq!['"'] + json_escape(s) + seq!['"']
}

/// The store's names as the GET endpoint serializes them:
/// `{"names":[...]}` with each name a JSON string.
pub open spec fn dogs_json_spec(names: Seq<Seq<char>>) -> Seq<char> {
    "{\"names\":["@ + join_char(names.map_values(|n: Seq<char>| json_string(n)), ',') + "]}"@
}

/// Serializes the names to `{"names":[...]}`.
pub fn dogs_json(names: &Vec<String>) -> (r: String)
    ensures
        r@ == dogs_json_spec(views(names@)),
{
    let mut out = String::from_str("{\"names\":[");
    let ghost prefix = out@;
    let ghost strung = views(names@).map_values(|n: Seq<char>| json_string(n));
    let k = names.len();
    for i in 0..k
        invariant
            k == names@.len(),
            strung == views(names@).map_values(|n: Seq<char>| json_string(n)),
            strung.len() == k,
            prefix == "{\"names\":["@,
            i == 0 ==> out@ =~= prefix,
            i >= 1 ==> out@ =~= prefix + join_char(strung.subrange(0, i as int), ','),
    {
        let ghost prev = out@;
        if i != 0 {
            push_char(&mut out, ',');
        }
        push_char(&mut out, '"');
        let escaped = json_escape_str(names[i].as_str());
        out.append(escaped.as_str());
        push_char(&mut out, '"');
        proof {
            assert(views(names@)[i as int] == names@[i as int]@);
            if i == 0 {
                assert(out@ =~= prefix + json_string(names@[0]@));
                assert(join_char(strung.subrange(0, 1), ',') == strung.subrange(0, 1)[0]);
                assert(out@ =~= prefix + join_char(strung.subrange(0, 1), ','));
            } else {
                assert(out@ =~= prev + seq![','] + json_string(names@[i as int]@));
                let sub = strung.subrange(0, i + 1);
                assert(sub.drop_last() =~= strung.subrange(0, i as int));
                assert(sub.last() == strung[i as int]);
                assert(join_char(sub, ',') == join_char(sub.drop_last(), ',') + seq![',']
                    + sub.last());
                assert(out@ =~= prefix + join_char(strung.subrange(0, i + 1), ','));
            }
        }
    }
    proof {
        assert(strung.subrange(0, k as int) =~= strung);
    }
    out.append("]}");
    proof {
        assert(out@ =~= dogs_json_spec(views(names@)));
    }
    out
}

/// The GET endpoint: answers `GET /dogs` with the stored names as JSON.
pub struct DogStoreGetHandler {
    store: SharedDogStore,
    path: HandlerPath,
    method: HTTPMethod,
}

impl DogStoreGetHandler {
    /// A GET handler over the shared store, routed at `/dogs`.
    pub fn new(store: SharedDogStore) -> (r: Self)
        ensures
            r.spec_method() == HTTPMethod::Get,
            r.spec_path() == canonical_path("/dogs"@),
    {
        proof {
            reveal_strlit("/dogs");
        }
        Self { store, path: HandlerPath::new("/dogs"), method: HTTPMethod::Get }
    }
}

impl Handler for DogStoreGetHandler {
    closed spec fn spec_path(&self) -> Seq<char> {
        self.path@
    }

    closed spec fn spec_method(&self) -> HTTPMethod {
        self.method
    }

    fn get_path(&self) -> (r: &HandlerPath) {
        &self.path
    }

    fn get_method(&self) -> (r: &HTTPMethod) {
        &self.method
    }

    fn on_request(&self, req: Request) -> HandlerResult {
        let handle = self.store.acquire_read();
        let jsonified = dogs_json(&handle.borrow().names);
        handle.release_read();
        let built = ResponseBuilder::from_request(&req).ok().header(
            "Content-Type",
            "application/json",
        ).body(jsonified).build();
        match built {
            Ok(res) => HandlerResult::Done(res),
            Err(_) => {
                proof {
                    assert(false);
                }
                HandlerResult::Continue(req)
            },
        }
    }
}

/// The POST endpoint: adds the dog named in the JSON body, with 201 for
/// a new name, 409 for a duplicate, and 400 for a body it cannot read.
pub struct DogStorePostHandler {
    store: SharedDogStore,
    path: HandlerPath,
    method: HTTPMethod,
}

impl DogStorePostHandler {
    /// A POST handler over the shared store, routed at `/dogs`.
    pub fn new(store: SharedDogStore) -> (r: Self)
        ensures
            r.spec_method() == HTTPMethod::Post,
            r.spec_path() == canonical_path("/dogs"@),
    {
        proof {
            reveal_strlit("/dogs");
        }
        Self { store, path: HandlerPath::new("/dogs"), method: HTTPMethod::Post }
    }
}

impl Handler for DogStorePostHandler {
    closed spec fn spec_path(&self) -> Seq<char> {
        self.path@
    }

    closed spec fn spec_method(&self) -> HTTPMethod {
        self.method
    }

    fn get_path(&self) -> (r: &HandlerPath) {
        &self.path
    }

    fn get_method(&self) -> (r: &HTTPMethod) {
        &self.method
    }

    fn on_request(&self, req: Request) -> HandlerResult {
        let builder = ResponseBuilder::from_request(&req);
        let parsed = match req.read_body_json() {
            Ok(v) => match json_get(&v, "name") {
                Some(field) => json_as_str(field),
                None => None,
            },
            Err(e) => {
                let built = builder.bad_request().body(e.message()).build();
                match built {
                    Ok(res) => {
                        return HandlerResult::Done(res);
                    },
                    Err(_) => {
                        proof {
                            assert(false);
                        }
                        return HandlerResult::Continue(req);
                    },
                }
            },
        };
        let dog_name = match parsed {
            Some(n) => n,
            None => {
                let built = builder.bad_request().body(
                    String::from_str("The body must name the dog to add"),
                ).build();
                match built {
                    Ok(res) => {
                        return HandlerResult::Done(res);
                    },
                    Err(_) => {
                        proof {
                            assert(false);
                        }
                        return HandlerResult::Continue(req);
                    },
                }
            },
        };
        let (mut store, handle) = self.store.acquire_write();
        let duplicate = store.has_name(dog_name.as_str());
        let built = if duplicate {
            builder.status(ResponseStatus::Conflict).body(String::from_str("Not added")).build()
        } else {
            store.add(dog_name.as_str());
            builder.status(ResponseStatus::Created).body(String::from_str("Added")).build()
        };
        handle.release_write(store);
        match built {
            Ok(res) => HandlerResult::Done(res),
            Err(_) => {
                proof {
                    assert(false);
                }
                HandlerResult::Continue(req)
            },
        }
    }
}

} // verus!
