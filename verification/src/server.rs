//! Dispatch decisions: the route table, what a handler's outcome means
//! for the connection, and the response a static-file request gets.
//!
//! The accept loop, the sockets and the handler closures live in the
//! caller; everything here decides from plain values and is verified.
use vstd::prelude::*;
use vstd::string::*;
use crate::error::ServerError;
use crate::headers::upsert;
use crate::response::HttpResponse;
use crate::status::HttpStatus;
use crate::text::dec_digits;

verus! {

/// What a route handler reports it did with the connection.
#[derive(Debug, PartialEq, Eq, Structural)]
pub enum Flag {
    /// A static file was served; the connection closes.
    StaticFile,
    /// The handler produced its own response; the connection closes.
    DynamicRoute,
    /// The connection was promoted to an event stream and must be handed
    /// to the registry instead of being closed.
    EventStream,
}

/// What the dispatcher does with a connection once its handler, or the
/// static-file fallback, has reported.
#[derive(Debug, PartialEq, Eq, Structural)]
pub enum HandleAction {
    /// The response went out; close the connection.
    Done,
    /// Promotion: hand the connection to the registry, do not close it.
    AddToRegistry,
    /// Nothing was sent; send a best-effort 404, then close.
    Send404,
}

/// The route table: the registered paths, in registration order. The
/// caller keeps the handler for slot `i` at position `i`; registering a
/// path again reuses its slot, so the last registration wins.
pub struct RouteTable {
    paths: Vec<String>,
}

impl RouteTable {
    /// The registered paths, in slot order.
    pub closed spec fn paths_view(&self) -> Seq<Seq<char>> {
        self.paths@.map_values(|p: String| p@)
    }

    /// No path occupies two slots.
    pub closed spec fn wf(&self) -> bool {
        forall|i: int, j: int|
            0 <= i < j < self.paths_view().len() ==> self.paths_view()[i] != self.paths_view()[j]
    }

    /// An empty table.
    pub fn new() -> (r: RouteTable)
        ensures
            r.paths_view() == Seq::<Seq<char>>::empty(),
            r.wf(),
    {
        let r = RouteTable { paths: Vec::new() };
        proof {
            assert(r.paths_view() =~= Seq::<Seq<char>>::empty());
        }
        r
    }

    /// Registers `path` and returns its handler slot: the slot it already
    /// holds when present — the caller overwrites that handler, so the
    /// last registration for a path wins — or a fresh slot at the end.
    #[verifier::loop_isolation(false)]
    pub fn route(&mut self, path: &str) -> (slot: usize)
        requires
            old(self).wf(),
        ensures
            final(self).wf(),
            slot < final(self).paths_view().len(),
            final(self).paths_view()[slot as int] == path@,
            old(self).paths_view().contains(path@) ==> final(self).paths_view() == old(
                self,
            ).paths_view(),
            !old(self).paths_view().contains(path@) ==> final(self).paths_view() == old(
                self,
            ).paths_view().push(path@) && slot == old(self).paths_view().len(),
    {
        let n = self.paths.len();
        let mut i: usize = 0;
        while i < n
            invariant
                0 <= i <= n == self.paths.len(),
                forall|k: int| 0 <= k < i ==> self.paths_view()[k] != path@,
            decreases n - i,
        {
            if self.paths[i] == path.to_owned() {
                return i;
            }
            i = i + 1;
        }
        self.paths.push(path.to_owned());
        proof {
            assert(self.paths_view() =~= old(self).paths_view().push(path@));
        }
        n
    }

    /// The handler slot registered for `path`, if any.
    #[verifier::loop_isolation(false)]
    pub fn lookup(&self, path: &str) -> (r: Option<usize>)
        ensures
            match r {
                Some(i) => i < self.paths_view().len() && self.paths_view()[i as int] == path@,
                None => !self.paths_view().contains(path@),
            },
    {
        let n = self.paths.len();
        let mut i: usize = 0;
        while i < n
            invariant
                0 <= i <= n == self.paths.len(),
                forall|k: int| 0 <= k < i ==> self.paths_view()[k] != path@,
            decreases n - i,
    {
            if self.paths[i] == path.to_owned() {
                return Some(i);
            }
            i = i + 1;
        }
        None
    }

    /// How many slots the table holds.
    pub fn len(&self) -> (r: usize)
        ensures
            r == self.paths_view().len(),
    {
        self.paths.len()
    }
}

/// Which way a request goes: to the handler in its slot, or to the
/// static-file fallback. A request whose path is registered goes to its
/// handler, never to a file.
pub fn route_decision(table: &RouteTable, url: &str) -> (r: Option<usize>)
    ensures
        match r {
            Some(i) => i < table.paths_view().len() && table.paths_view()[i as int] == url@,
            None => !table.paths_view().contains(url@),
        },
{
    table.lookup(url)
}

/// A registered path never falls through to the static-file fallback:
/// the slot its registration reports keeps it in the table, so a lookup
/// for it cannot come back empty and the dispatcher always picks its
/// handler.
pub proof fn lemma_registered_route_is_dispatched(table: RouteTable, slot: usize, path: Seq<char>)
    requires
        slot < table.paths_view().len(),
        table.paths_view()[slot as int] == path,
    ensures
        table.paths_view().contains(path),
{
}

/// What the dispatcher does once the handler or the fallback reports:
/// a served response closes the connection, a promotion hands it to the
/// registry, and an error falls back to a best-effort 404.
pub fn handle_outcome(flag: &Result<Flag, ServerError>) -> (r: HandleAction)
    ensures
        flag matches Ok(Flag::StaticFile) ==> r == HandleAction::Done,
        flag matches Ok(Flag::DynamicRoute) ==> r == HandleAction::Done,
        flag matches Ok(Flag::EventStream) ==> r == HandleAction::AddToRegistry,
        flag is Err ==> r == HandleAction::Send404,
{
    match flag {
        Ok(Flag::StaticFile) => HandleAction::Done,
        Ok(Flag::DynamicRoute) => HandleAction::Done,
        Ok(Flag::EventStream) => HandleAction::AddToRegistry,
        Err(_) => HandleAction::Send404,
    }
}

/// The response a static-file request gets, from the resolver's outcome:
/// the resolved bytes with their MIME type as a 200, or the not-found
/// document as a 404. A request for a path the resolver does not know
/// always comes back with status 404.
pub fn respond_static(resolved: Option<(Vec<u8>, String)>, not_found_doc: Vec<u8>) -> (r:
    HttpResponse)
    ensures
        resolved matches Some(file) ==> r.status == HttpStatus::OK && (r.body matches Some(b) && b@
            == file.0@) && r.headers.raw.pairs() == upsert(
            upsert(
                Seq::<crate::headers::HeaderPair>::empty(),
                "Content-Length"@,
                dec_digits(file.0@.len() as nat),
            ),
            "Content-Type"@,
            file.1@,
        ),
        resolved is None ==> r.status == HttpStatus::NotFound && (r.body matches Some(b) && b@
            == not_found_doc@),
        resolved is None ==> r.headers.raw.pairs() == upsert(
            upsert(
                Seq::<crate::headers::HeaderPair>::empty(),
                "Content-Length"@,
                dec_digits(not_found_doc@.len() as nat),
            ),
            "Content-Type"@,
            "text/html; charset=utf-8"@,
        ),
        r.headers.raw.wf(),
{
    match resolved {
        Some((bytes, mime)) => HttpResponse::with_static_file(bytes, mime.as_str()),
        None => {
            let mut response = HttpResponse::new();
            response.set_status(HttpStatus::NotFound);
            response.set_body(not_found_doc, "text/html; charset=utf-8");
            response
        },
    }
}

} // verus!
