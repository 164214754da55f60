use vstd::prelude::*;

use crate::table::{
    find_binding, lemma_table_map_at, lemma_table_map_domain, lemma_table_map_push, names_unique,
    table_map, Binding,
};
use crate::types::{Message, MessageQueue};

verus! {

/// What a request to load a model came to.
#[derive(Debug, Clone, Copy, PartialEq, Eq, Structural)]
pub enum LoadOutcome {
    /// The path was loaded before; its identifier is handed back, nothing is loaded.
    Cached { id: u128 },
    /// The path is new: the caller loads it and files the model under `id`.
    Loaded { id: u128 },
    /// The path is new, but the identifier drawn for it already names another
    /// model; nothing changed.
    IdTaken,
}

/// No identifier names two paths.
pub open spec fn ids_unique(m: Map<Seq<char>, u128>) -> bool {
    forall|p: Seq<char>, q: Seq<char>|
        #![trigger m[p], m[q]]
        m.contains_key(p) && m.contains_key(q) && p != q ==> m[p] != m[q]
}

/// The outcome of a request for `path` on the cache `m`, when `candidate` is
/// the identifier drawn for a new model.
pub open spec fn load_result(m: Map<Seq<char>, u128>, path: Seq<char>, candidate: u128) -> LoadOutcome {
    if m.contains_key(path) {
        LoadOutcome::Cached { id: m[path] }
    } else if m.contains_value(candidate) {
        LoadOutcome::IdTaken
    } else {
        LoadOutcome::Loaded { id: candidate }
    }
}

/// The cache after that request.
pub open spec fn load_next(m: Map<Seq<char>, u128>, path: Seq<char>, candidate: u128) -> Map<Seq<char>, u128> {
    if load_result(m, path, candidate) is Loaded {
        m.insert(path, candidate)
    } else {
        m
    }
}

/// The notifications that a request with outcome `r` sends: a ready message
/// whenever it has an identifier.
pub open spec fn ready_messages(r: LoadOutcome) -> Seq<Message> {
    match r {
        LoadOutcome::Cached { id } => seq![Message::StaticModelReady { id }],
        LoadOutcome::Loaded { id } => seq![Message::StaticModelReady { id }],
        LoadOutcome::IdTaken => Seq::empty(),
    }
}

/// A request that did not fail leaves the cache holding the identifier it
/// returned, and keeps identifiers unique.
pub proof fn lemma_load_next_files_result(m: Map<Seq<char>, u128>, path: Seq<char>, candidate: u128)
    requires
        ids_unique(m),
    ensures
        ids_unique(load_next(m, path, candidate)),
        load_result(m, path, candidate) is Cached ==> load_next(m, path, candidate)[path]
            == load_result(m, path, candidate)->Cached_id,
        load_result(m, path, candidate) is Loaded ==> load_next(m, path, candidate)[path]
            == load_result(m, path, candidate)->Loaded_id,
        !(load_result(m, path, candidate) is IdTaken) ==> load_next(m, path, candidate).contains_key(path),
{
    let n = load_next(m, path, candidate);
    if load_result(m, path, candidate) is Loaded {
        assert forall|p: Seq<char>, q: Seq<char>|
            #![trigger n[p], n[q]]
            n.contains_key(p) && n.contains_key(q) && p != q implies n[p] != n[q] by {
            if p == path {
                assert(m.contains_key(q) && m[q] == n[q]);
            } else if q == path {
                assert(m.contains_key(p) && m[p] == n[p]);
            }
        }
    }
}

/// Requesting the same path twice gives the same identifier both times, and
/// each request sends a ready message for it.
pub proof fn lemma_same_path_same_id(m: Map<Seq<char>, u128>, path: Seq<char>, c1: u128, c2: u128)
    requires
        ids_unique(m),
        !(load_result(m, path, c1) is IdTaken),
    ensures
        ({
            let r1 = load_result(m, path, c1);
            let r2 = load_result(load_next(m, path, c1), path, c2);
            let id = if r1 is Cached { r1->Cached_id } else { r1->Loaded_id };
            &&& r2 == (LoadOutcome::Cached { id })
            &&& ready_messages(r1) == seq![Message::StaticModelReady { id }]
            &&& ready_messages(r2) == seq![Message::StaticModelReady { id }]
        }),
{
    lemma_load_next_files_result(m, path, c1);
}

/// Requests for two distinct paths that both succeed give two distinct
/// identifiers.
pub proof fn lemma_distinct_paths_distinct_ids(
    m: Map<Seq<char>, u128>,
    p: Seq<char>,
    q: Seq<char>,
    c1: u128,
    c2: u128,
)
    requires
        ids_unique(m),
        p != q,
        !(load_result(m, p, c1) is IdTaken),
        !(load_result(load_next(m, p, c1), q, c2) is IdTaken),
    ensures
        ({
            let r1 = load_result(m, p, c1);
            let r2 = load_result(load_next(m, p, c1), q, c2);
            let id1 = if r1 is Cached { r1->Cached_id } else { r1->Loaded_id };
            let id2 = if r2 is Cached { r2->Cached_id } else { r2->Loaded_id };
            id1 != id2
        }),
{
    lemma_load_next_files_result(m, p, c1);
    let n = load_next(m, p, c1);
    if !n.contains_key(q) {
        assert(n.contains_key(p));
    } else {
        assert(n[p] != n[q]);
    }
}

/// Relies on `uuid::Uuid::new_v4` (read back with `Uuid::as_u128`): a random
/// version-4 identifier, whose version field holds 4. It panics only where
/// the operating system's random source fails.
#[verifier::external_body]
fn random_model_id() -> (r: u128)
    ensures
        (r >> 76u128) & 0xfu128 == 4u128,
{
    uuid::Uuid::new_v4().as_u128()
}

/// The cache that maps each model path to the identifier it was loaded under.
pub struct ModelCache {
    paths: Vec<Binding<u128>>,
}

impl View for ModelCache {
    type V = Map<Seq<char>, u128>;

    closed spec fn view(&self) -> Map<Seq<char>, u128> {
        table_map(self.paths@)
    }
}

impl ModelCache {
    /// Paths are unique, and so are identifiers.
    pub closed spec fn wf(&self) -> bool {
        names_unique(self.paths@) && ids_unique(self@)
    }

    /// An empty cache.
    pub fn new() -> (r: ModelCache)
        ensures
            r.wf(),
            r@ == Map::<Seq<char>, u128>::empty(),
    {
        ModelCache { paths: Vec::new() }
    }

    /// Whether some path is filed under `id`.
    pub fn contains_id(&self, id: u128) -> (r: bool)
        requires
            self.wf(),
        ensures
            r == self@.contains_value(id),
    {
        let mut i: usize = 0;
        while i < self.paths.len()
            invariant
                i <= self.paths@.len(),
                names_unique(self.paths@),
                forall|j: int| 0 <= j < i ==> self.paths@[j].value != id,
            decreases self.paths@.len() - i,
        {
            if self.paths[i].value == id {
                proof {
                    lemma_table_map_at(self.paths@, i as int);
                }
                return true;
            }
            i += 1;
        }
        proof {
            if self@.contains_value(id) {
                let k = choose|k: Seq<char>| self@.contains_key(k) && self@[k] == id;
                lemma_table_map_domain(self.paths@, k);
                let j = choose|j: int| 0 <= j < self.paths@.len() && self.paths@[j].name@ == k;
                lemma_table_map_at(self.paths@, j);
            }
        }
        false
    }

    /// The identifier `path` is filed under, if it was loaded.
    pub fn lookup(&self, path: &str) -> (r: Option<u128>)
        requires
            self.wf(),
        ensures
            r == (if self@.contains_key(path@) { Some(self@[path@]) } else { None::<u128> }),
    {
        let key = path.to_owned();
        match find_binding(&self.paths, &key) {
            Some(i) => {
                proof {
                    lemma_table_map_at(self.paths@, i as int);
                }
                Some(self.paths[i].value)
            },
            None => None,
        }
    }

    /// Handles a request to load `path`, with `candidate` as the identifier
    /// of a new model: a cached path gives back its identifier; a new one is
    /// filed under `candidate` unless that already names another model. Each
    /// outcome with an identifier appends a ready message to `ready`.
    pub fn resolve_load(&mut self, path: &str, candidate: u128, ready: &mut MessageQueue) -> (r: LoadOutcome)
        requires
            old(self).wf(),
        ensures
            final(self).wf(),
            r == load_result(old(self)@, path@, candidate),
            final(self)@ == load_next(old(self)@, path@, candidate),
            final(ready)@ == old(ready)@ + ready_messages(r),
    {
        match self.lookup(path) {
            Some(id) => {
                ready.push_back(Message::StaticModelReady { id });
                proof {
                    assert(old(ready)@.push(Message::StaticModelReady { id }) =~= old(ready)@ + ready_messages(
                        LoadOutcome::Cached { id },
                    ));
                }
                LoadOutcome::Cached { id }
            },
            None => {
                if self.contains_id(candidate) {
                    proof {
                        assert(ready@ =~= old(ready)@ + ready_messages(LoadOutcome::IdTaken));
                    }
                    LoadOutcome::IdTaken
                } else {
                    let b = Binding { name: path.to_owned(), value: candidate };
                    proof {
                        lemma_table_map_push(self.paths@, b);
                    }
                    self.paths.push(b);
                    proof {
                        let m = old(self)@;
                        assert forall|p: Seq<char>, q: Seq<char>|
                            #![trigger self@[p], self@[q]]
                            self@.contains_key(p) && self@.contains_key(q) && p != q
                                implies self@[p] != self@[q] by {
                            if p == path@ {
                                assert(m.contains_key(q) && m[q] == self@[q]);
                            } else if q == path@ {
                                assert(m.contains_key(p) && m[p] == self@[p]);
                            }
                        }
                    }
                    ready.push_back(Message::StaticModelReady { id: candidate });
                    proof {
                        assert(old(ready)@.push(Message::StaticModelReady { id: candidate }) =~= old(ready)@
                            + ready_messages(LoadOutcome::Loaded { id: candidate }));
                    }
                    LoadOutcome::Loaded { id: candidate }
                }
            },
        }
    }

    /// Handles a request to load `path`, drawing a random identifier for a
    /// new model. A cached path always gives back its identifier; for a new
    /// path the outcome is that of `resolve_load` with the identifier drawn.
    pub fn request_load(&mut self, path: &str, ready: &mut MessageQueue) -> (r: LoadOutcome)
        requires
            old(self).wf(),
        ensures
            final(self).wf(),
            old(self)@.contains_key(path@) ==> r == (LoadOutcome::Cached { id: old(self)@[path@] }),
            exists|candidate: u128|
                r == load_result(old(self)@, path@, candidate) && final(self)@ == load_next(
                    old(self)@,
                    path@,
                    candidate,
                ),
            final(ready)@ == old(ready)@ + ready_messages(r),
    {
        let candidate = random_model_id();
        self.resolve_load(path, candidate, ready)
    }
}

} // verus!
