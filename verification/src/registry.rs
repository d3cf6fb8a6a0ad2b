//! The backend registry: a map from service name to its current backend
//! list. Request handlers read it; a synchronization loop owns it and applies
//! refresh messages, so no reader ever shares a lock with the writer.

use vstd::prelude::*;
use vstd::hash_map::StringHashMap;
use crate::backend::Backend;

verus! {

/// A named collection of backends, as carried by a refresh message. An
/// absent list means "no known backends", which is distinct from a name that
/// was never looked up.
pub struct Service {
    pub name: String,
    pub backends: Option<Vec<Backend>>,
}

impl Service {
    /// A service snapshot under the given name with the given backend list.
    pub fn new(name: &str, backends: Option<Vec<Backend>>) -> (r: Self)
        ensures
            r.name@ == name@,
            r.backends == backends,
    {
        Service { name: name.to_owned(), backends }
    }
}

/// Copies of every backend of a list, field for field.
fn clone_backends(v: &Vec<Backend>) -> (r: Vec<Backend>)
    ensures
        r.deep_view() == v.deep_view(),
{
    let mut out: Vec<Backend> = Vec::new();
    let mut i: usize = 0;
    while i < v.len()
        invariant
            0 <= i <= v.len(),
            out.len() == i,
            forall|k: int| 0 <= k < i ==> out@[k]@ == v@[k]@,
        decreases v.len() - i,
    {
        out.push(v[i].clone());
        i = i + 1;
    }
    proof {
        assert(out.deep_view() =~= v.deep_view());
    }
    out
}

/// A copy of a cached backend list, so that callers receive a snapshot and
/// never a handle into the registry itself.
fn clone_backend_list(v: &Option<Vec<Backend>>) -> (r: Option<Vec<Backend>>)
    ensures
        r.deep_view() == v.deep_view(),
{
    match v {
        None => None,
        Some(list) => Some(clone_backends(list)),
    }
}

/// Whether answering a lookup for `name` against registry contents `m`
/// requires a discovery fetch: it does exactly when the name is absent.
pub open spec fn needs_fetch(m: Map<Seq<char>, Option<Vec<Backend>>>, name: Seq<char>) -> bool {
    !m.contains_key(name)
}

/// The outcome of a registry read: either the cached snapshot for the name,
/// or the instruction to ask discovery because the name is not cached.
pub enum Lookup {
    Cached(Option<Vec<Backend>>),
    NeedsFetch,
}

/// One message received by the synchronization loop: a refresh for one
/// service, an empty poll, or the news that the producer side is gone.
pub enum RefreshEvent {
    Refresh(Service),
    Empty,
    Closed,
}

/// What the synchronization loop does next: poll again, or terminate because
/// no further refresh will ever arrive.
pub enum SyncAction {
    Continue,
    Stop,
}

/// The registry. One owner applies refreshes through [`Mgr::sync_step`];
/// readers get value snapshots through [`Mgr::get_service`], so a read can
/// never block on, or be corrupted by, a writer.
pub struct Mgr {
    services: StringHashMap<Option<Vec<Backend>>>,
}

impl View for Mgr {
    type V = Map<Seq<char>, Option<Vec<Backend>>>;

    closed spec fn view(&self) -> Map<Seq<char>, Option<Vec<Backend>>> {
        self.services@
    }
}

impl Mgr {
    /// An empty registry: nothing cached, every lookup needs a fetch.
    pub fn new() -> (r: Self)
        ensures
            r@ == Map::<Seq<char>, Option<Vec<Backend>>>::empty(),
    {
        Mgr { services: StringHashMap::new() }
    }

    /// A read: the cached snapshot when the name is present, and the
    /// instruction to fetch exactly when it is not. Total on every registry
    /// state, so a read can never fail.
    pub fn get_service(&self, svc: &str) -> (r: Lookup)
        ensures
            match r {
                Lookup::Cached(b) => self@.contains_key(svc@) && b.deep_view()
                    == self@[svc@].deep_view(),
                Lookup::NeedsFetch => needs_fetch(self@, svc@),
            },
    {
        match self.services.get(svc) {
            Some(b) => Lookup::Cached(clone_backend_list(b)),
            None => Lookup::NeedsFetch,
        }
    }

    /// Caches the result of the discovery fetch that answered a cache miss,
    /// so that no later lookup of this name fetches again.
    pub fn record_fetched(&mut self, name: &str, backends: Option<Vec<Backend>>)
        ensures
            final(self)@ == old(self)@.insert(name@, backends),
    {
        self.services.insert(name.to_owned(), backends);
    }

    /// Applies one refresh message: a name already present has its backend
    /// list replaced wholesale; a message for a name not present is a no-op,
    /// and in neither case does the registry gain or lose a key.
    pub fn apply_refresh(&mut self, update: Service)
        ensures
            old(self)@.contains_key(update.name@) ==> final(self)@ == old(self)@.insert(
                update.name@,
                update.backends,
            ),
            !old(self)@.contains_key(update.name@) ==> final(self)@ == old(self)@,
            final(self)@.dom() == old(self)@.dom(),
    {
        if self.services.contains_key(update.name.as_str()) {
            let Service { name, backends } = update;
            self.services.insert(name, backends);
            proof {
                assert(self@.dom() =~= old(self)@.dom());
            }
        }
    }

    /// One turn of the synchronization loop: a refresh message is applied (a
    /// no-op for an unknown name) and the loop goes on; an empty poll changes
    /// nothing; a closed channel changes nothing and stops the loop, after
    /// which the registry is frozen but still readable.
    pub fn sync_step(&mut self, event: RefreshEvent) -> (r: SyncAction)
        ensures
            match event {
                RefreshEvent::Refresh(update) => {
                    &&& r == SyncAction::Continue
                    &&& old(self)@.contains_key(update.name@) ==> final(self)@ == old(
                        self,
                    )@.insert(update.name@, update.backends)
                    &&& !old(self)@.contains_key(update.name@) ==> final(self)@ == old(self)@
                    &&& final(self)@.dom() == old(self)@.dom()
                },
                RefreshEvent::Empty => final(self)@ == old(self)@ && r == SyncAction::Continue,
                RefreshEvent::Closed => final(self)@ == old(self)@ && r == SyncAction::Stop,
            },
    {
        match event {
            RefreshEvent::Refresh(update) => {
                self.apply_refresh(update);
                SyncAction::Continue
            },
            RefreshEvent::Empty => SyncAction::Continue,
            RefreshEvent::Closed => SyncAction::Stop,
        }
    }
}

/// A name already cached is answered without a fetch; a name not cached needs
/// one fetch, and once its result is recorded, no lookup of that name ever
/// needs a fetch again. So each name triggers at most one discovery call
/// between refreshes.
pub proof fn lemma_discovery_once(
    m: Map<Seq<char>, Option<Vec<Backend>>>,
    name: Seq<char>,
    fetched: Option<Vec<Backend>>,
)
    ensures
        m.contains_key(name) ==> !needs_fetch(m, name),
        !m.contains_key(name) ==> needs_fetch(m, name),
        !needs_fetch(m.insert(name, fetched), name),
{
}

} // verus!
