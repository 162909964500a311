//! The module registry: routes a module-qualified request to the handler
//! registered under the module's name.
use crate::error_codes::{BAD_REQUEST, INTERNAL_ERROR, NOT_FOUND};
use crate::errors::{create_error_response, ErrorResponse};
use vstd::prelude::*;
use vstd::string::StringExecFns;

verus! {

/// The modules that a request may name.
#[derive(Debug, Clone, Copy, PartialEq, Eq, Structural)]
pub enum ModuleType {
    Audio,
    Display,
    Network,
}

/// The name of a module on the wire.
pub open spec fn module_name(m: ModuleType) -> Seq<char> {
    match m {
        ModuleType::Audio => "audio"@,
        ModuleType::Display => "display"@,
        ModuleType::Network => "network"@,
    }
}

impl ModuleType {
    /// The name of this module on the wire.
    pub fn as_str(&self) -> (r: &'static str)
        ensures
            r@ == module_name(*self),
    {
        match self {
            ModuleType::Audio => "audio",
            ModuleType::Display => "display",
            ModuleType::Network => "network",
        }
    }
}

/// The lower-case form of a text, as `str::to_lowercase` computes it.
pub uninterp spec fn lower_of(s: Seq<char>) -> Seq<char>;

/// Relies on str::to_lowercase: its result depends on the characters alone.
#[verifier::external_body]
fn lowercase(s: &str) -> (r: String)
    ensures
        r@ == lower_of(s@),
{
    s.to_lowercase()
}

/// The table of handlers by key, as the names and handlers list them.
pub open spec fn table_of<H>(names: Seq<Seq<char>>, handlers: Seq<H>) -> Map<Seq<char>, H>
    decreases names.len(),
{
    if names.len() == 0 || handlers.len() != names.len() {
        Map::empty()
    } else {
        table_of(names.drop_last(), handlers.drop_last()).insert(names.last(), handlers.last())
    }
}

/// No name is listed twice.
pub open spec fn distinct_names(names: Seq<Seq<char>>) -> bool {
    forall|a: int, b: int| 0 <= a < b < names.len() ==> names[a] != names[b]
}

/// The keys of the table are the names, and each maps to its own handler.
proof fn lemma_table_of<H>(names: Seq<Seq<char>>, handlers: Seq<H>)
    requires
        names.len() == handlers.len(),
        distinct_names(names),
    ensures
        forall|k: Seq<char>|
            table_of(names, handlers).contains_key(k) <==> names.contains(k),
        forall|i: int|
            0 <= i < names.len() ==> table_of(names, handlers)[#[trigger] names[i]] == handlers[i],
    decreases names.len(),
{
    if names.len() > 0 {
        let pn = names.drop_last();
        let ph = handlers.drop_last();
        lemma_table_of(pn, ph);
        assert forall|k: Seq<char>| table_of(names, handlers).contains_key(k) <==> names.contains(
            k,
        ) by {
            if names.contains(k) {
                let i = names.index_of(k);
                if i < names.len() - 1 {
                    assert(pn[i] == k);
                }
            }
            if pn.contains(k) {
                let i = pn.index_of(k);
                assert(names[i] == k);
            }
        }
        assert forall|i: int| 0 <= i < names.len() implies table_of(names, handlers)[
            #[trigger] names[i]] == handlers[i] by {
            if i < names.len() - 1 {
                assert(pn[i] == names[i]);
                assert(ph[i] == handlers[i]);
                assert(names[i] != names[names.len() - 1]);
            }
        }
    }
}

/// What the dispatcher does with a request.
#[derive(Debug)]
pub enum Routing {
    /// Answer at once with this error envelope; no handler is invoked.
    Respond(ErrorResponse),
    /// Hand the payload to the handler at `index`.
    Forward { index: usize, payload: String },
}

/// The status code with which a request is answered at once, or none where
/// it goes to a handler: a missing payload is refused before any lookup.
pub open spec fn route_code<H>(table: Map<Seq<char>, H>, key: Seq<char>, has_payload: bool) -> Option<
    u16,
> {
    if !has_payload {
        Some(BAD_REQUEST)
    } else if !table.contains_key(key) {
        Some(NOT_FOUND)
    } else {
        None
    }
}

/// The message of a request without a payload.
pub open spec fn missing_payload_message() -> Seq<char> {
    "Payload is missing in the request"@
}

/// The message of a request for a module that is not registered.
pub open spec fn not_found_message() -> Seq<char> {
    "Resource not found"@
}

/// Handlers registered by module name; names are compared in lower case.
pub struct ModuleRegistry<H> {
    names: Vec<String>,
    handlers: Vec<H>,
}

impl<H> ModuleRegistry<H> {
    /// The registered names, in lower case.
    pub closed spec fn keys(&self) -> Seq<Seq<char>> {
        self.names@.map_values(|n: String| n@)
    }

    /// The handler at a position of the registry.
    pub closed spec fn handler_at(&self, i: int) -> H {
        self.handlers@[i]
    }

    /// The number of registered handlers.
    pub closed spec fn size(&self) -> nat {
        self.handlers@.len()
    }

    /// The table from lower-case module name to handler.
    pub closed spec fn table(&self) -> Map<Seq<char>, H> {
        table_of(self.keys(), self.handlers@)
    }

    /// The registry's own invariant: one handler per name, no name twice.
    pub closed spec fn wf(&self) -> bool {
        &&& self.names.len() == self.handlers.len()
        &&& distinct_names(self.keys())
    }

    /// An empty registry.
    pub fn new() -> (r: ModuleRegistry<H>)
        ensures
            r.wf(),
            r.table() == Map::<Seq<char>, H>::empty(),
            r.size() == 0,
    {
        ModuleRegistry { names: Vec::new(), handlers: Vec::new() }
    }

    /// The position of the handler registered under a lower-case key.
    pub fn find_lowered(&self, key: &String) -> (r: Option<usize>)
        requires
            self.wf(),
        ensures
            r is None <==> !self.table().contains_key(key@),
            r is Some ==> r->Some_0 < self.size() && self.handler_at(r->Some_0 as int)
                == self.table()[key@] && self.keys()[r->Some_0 as int] == key@,
    {
        proof {
            lemma_table_of(self.keys(), self.handlers@);
        }
        let mut i: usize = 0;
        while i < self.names.len()
            invariant
                i <= self.names.len(),
                self.wf(),
                forall|j: int| 0 <= j < i ==> self.keys()[j] != key@,
            decreases self.names.len() - i,
        {
            assert(self.keys()[i as int] == self.names@[i as int]@);
            if self.names[i] == *key {
                assert(self.keys()[i as int] == key@);
                assert(self.keys().contains(key@));
                proof {
                    lemma_table_of(self.keys(), self.handlers@);
                }
                return Some(i);
            }
            i = i + 1;
        }
        assert(!self.keys().contains(key@));
        None
    }

    /// Registers a handler under a lower-case key, replacing the handler
    /// that the key had.
    pub fn register_lowered(&mut self, key: String, handler: H)
        requires
            old(self).wf(),
        ensures
            final(self).wf(),
            final(self).table() == old(self).table().insert(key@, handler),
    {
        let ghost old_keys = self.keys();
        let ghost old_handlers = self.handlers@;
        proof {
            lemma_table_of(old_keys, old_handlers);
        }
        match self.find_lowered(&key) {
            Some(i) => {
                self.handlers.set(i, handler);
                proof {
                    assert(self.keys() =~= old_keys);
                    lemma_table_of(self.keys(), self.handlers@);
                    assert(old_keys[i as int] == key@);
                    assert forall|k: Seq<char>| #[trigger] self.table().contains_key(k) implies
                        self.table()[k] == old_table_insert(old_keys, old_handlers, key@, handler)[k] by {
                        assert(old_keys.contains(k));
                        let j = choose|j: int| 0 <= j < old_keys.len() && old_keys[j] == k;
                        assert(self.table()[self.keys()[j]] == self.handlers@[j]);
                        if j != i {
                            if j < i {
                                assert(old_keys[j] != old_keys[i as int]);
                            } else {
                                assert(old_keys[i as int] != old_keys[j]);
                            }
                            assert(table_of(old_keys, old_handlers)[old_keys[j]] == old_handlers[j]);
                        }
                    }
                    assert(old_keys.contains(key@));
                    assert forall|k: Seq<char>| #[trigger] self.table().contains_key(k)
                        <==> old_table_insert(old_keys, old_handlers, key@, handler).contains_key(k) by {
                        assert(self.table().contains_key(k) == self.keys().contains(k));
                        assert(table_of(old_keys, old_handlers).contains_key(k) == old_keys.contains(k));
                        if k == key@ {
                            assert(old_keys.contains(k));
                        }
                    }
                    assert(self.table() =~= old_table_insert(old_keys, old_handlers, key@, handler));
                }
            },
            None => {
                let ghost k = key@;
                self.names.push(key);
                self.handlers.push(handler);
                proof {
                    assert(self.keys() =~= old_keys.push(k));
                    assert(self.keys().drop_last() =~= old_keys);
                    assert(self.handlers@.drop_last() =~= old_handlers);
                    assert(!old_keys.contains(k));
                    assert forall|a: int, b: int| 0 <= a < b < self.keys().len() implies self.keys()[a]
                        != self.keys()[b] by {
                        if b == old_keys.len() {
                            assert(old_keys[a] != k);
                        }
                    }
                }
            },
        }
    }

    /// Registers a handler under a module name, compared in lower case.
    pub fn register(&mut self, module_name: &str, handler: H)
        requires
            old(self).wf(),
        ensures
            final(self).wf(),
            final(self).table() == old(self).table().insert(lower_of(module_name@), handler),
    {
        let key = lowercase(module_name);
        self.register_lowered(key, handler);
    }

    /// Whether a handler is registered under a module name, compared in
    /// lower case.
    pub fn has_module(&self, module_name: &str) -> (r: bool)
        requires
            self.wf(),
        ensures
            r == self.table().contains_key(lower_of(module_name@)),
    {
        let key = lowercase(module_name);
        self.find_lowered(&key).is_some()
    }

    /// The handler at a position that a lookup returned.
    pub fn handler(&self, index: usize) -> (r: &H)
        requires
            self.wf(),
            index < self.size(),
        ensures
            *r == self.handler_at(index as int),
    {
        &self.handlers[index]
    }

    /// Decides what becomes of a request for the module with a lower-case
    /// key: refused without a payload, not found for an unknown key, else
    /// forwarded to the key's handler with the payload unchanged.
    pub fn route_lowered(&self, key: &String, payload: Option<String>) -> (r: Routing)
        requires
            self.wf(),
        ensures
            route_code(self.table(), key@, payload is Some) is Some <==> r is Respond,
            r matches Routing::Respond(e) ==> {
                &&& Some(e.code) == route_code(self.table(), key@, payload is Some)
                &&& e.details is None
                &&& payload is None ==> e.message@ == missing_payload_message()
                &&& payload is Some ==> e.message@ == not_found_message()
            },
            r matches Routing::Forward { index, payload: p } ==> {
                &&& index < self.size()
                &&& self.handler_at(index as int) == self.table()[key@]
                &&& payload == Some(p)
            },
    {
        match payload {
            None => Routing::Respond(
                create_error_response(BAD_REQUEST, "Payload is missing in the request", None),
            ),
            Some(p) => match self.find_lowered(key) {
                None => Routing::Respond(
                    create_error_response(NOT_FOUND, "Resource not found", None),
                ),
                Some(index) => Routing::Forward { index, payload: p },
            },
        }
    }

    /// Decides what becomes of a request for a module, its name compared in
    /// lower case.
    pub fn handle(&self, module_name: &str, payload: Option<String>) -> (r: Routing)
        requires
            self.wf(),
        ensures
            route_code(self.table(), lower_of(module_name@), payload is Some) is Some
                <==> r is Respond,
            r matches Routing::Respond(e) ==> {
                &&& Some(e.code) == route_code(
                    self.table(),
                    lower_of(module_name@),
                    payload is Some,
                )
                &&& e.details is None
                &&& payload is None ==> e.message@ == missing_payload_message()
                &&& payload is Some ==> e.message@ == not_found_message()
            },
            r matches Routing::Forward { index, payload: p } ==> {
                &&& index < self.size()
                &&& self.handler_at(index as int) == self.table()[lower_of(module_name@)]
                &&& payload == Some(p)
            },
    {
        let key = lowercase(module_name);
        self.route_lowered(&key, payload)
    }
}


/// The table after one insertion.
spec fn old_table_insert<H>(names: Seq<Seq<char>>, handlers: Seq<H>, key: Seq<char>, h: H) -> Map<
    Seq<char>,
    H,
> {
    table_of(names, handlers).insert(key, h)
}

/// The answer to a request that is not a module-qualified envelope.
pub fn invalid_request_format() -> (r: ErrorResponse)
    ensures
        r.code == BAD_REQUEST,
        r.message@ == "Invalid request format"@,
        r.details is None,
{
    create_error_response(BAD_REQUEST, "Invalid request format", None)
}

/// The answer to a payload that the module's handler could not decode.
pub fn parse_failure(module: &str, detail: &str) -> (r: ErrorResponse)
    ensures
        r.code == BAD_REQUEST,
        r.message@ == "Failed to parse "@ + module@ + " request: "@ + detail@,
        r.details is None,
{
    let message = String::from_str("Failed to parse ").concat(module).concat(" request: ").concat(
        detail,
    );
    ErrorResponse { code: BAD_REQUEST, message, details: None }
}

/// The answer to a handler that failed unexpectedly; what went wrong stays
/// on the server.
pub fn handler_failure(module: &str) -> (r: ErrorResponse)
    ensures
        r.code == INTERNAL_ERROR,
        r.message@ == "Failed to handle request for module '"@ + module@ + "'"@,
        r.details is None,
{
    let message = String::from_str("Failed to handle request for module '").concat(module).concat(
        "'",
    );
    ErrorResponse { code: INTERNAL_ERROR, message, details: None }
}

/// A request for a module that no handler is registered under is answered
/// with 404, whatever its payload holds, so long as it has one.
pub proof fn lemma_unregistered_module_not_found<H>(
    table: Map<Seq<char>, H>,
    key: Seq<char>,
)
    requires
        !table.contains_key(key),
    ensures
        route_code(table, key, true) == Some(NOT_FOUND),
{
}

/// A request without a payload is answered with 400 before any handler is
/// looked up, whatever module it names.
pub proof fn lemma_missing_payload_refused<H>(table: Map<Seq<char>, H>, key: Seq<char>)
    ensures
        route_code(table, key, false) == Some(BAD_REQUEST),
{
}

} // verus!
