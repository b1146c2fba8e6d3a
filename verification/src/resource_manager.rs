//! A cache of shared resources, each loaded once and then found by its name.

use std::rc::Rc;
use vstd::hash_map::StringHashMap;
use vstd::prelude::*;

verus! {

/// Something that can load a resource by its name. Whether a load succeeds and
/// what it brings is the loader's business: nothing is promised of it here.
pub trait ResourceLoader<R> {
    fn load(&self, data: &str) -> Result<R, String>;
}

/// Another handle on the resource that `resource` shares. Believed of `clone`
/// of the standard library's `Rc`: the new handle stands for the same value.
#[verifier::external_body]
fn share<R>(resource: &Rc<R>) -> (shared: Rc<R>)
    ensures
        shared == *resource,
{
    resource.clone()
}

/// A cache of resources that a loader brings, each under the name by which it
/// was asked for.
#[verifier::reject_recursive_types(R)]
pub struct ResourceManager<'l, R, L: ResourceLoader<R>> {
    loader: &'l L,
    cache: StringHashMap<Rc<R>>,
}

impl<'l, R, L: ResourceLoader<R>> View for ResourceManager<'l, R, L> {
    type V = Map<Seq<char>, Rc<R>>;

    /// What the cache holds: for each name the resource kept under it.
    closed spec fn view(&self) -> Map<Seq<char>, Rc<R>> {
        self.cache@
    }
}

impl<'l, R, L: ResourceLoader<R>> ResourceManager<'l, R, L> {
    /// An empty cache for what `loader` brings.
    pub fn new(loader: &'l L) -> (manager: Self)
        ensures
            manager@ == Map::<Seq<char>, Rc<R>>::empty(),
    {
        ResourceManager { loader, cache: StringHashMap::new() }
    }

    /// The resource kept under `details`, if there is one.
    pub fn lookup(&self, details: &str) -> (found: Option<Rc<R>>)
        ensures
            found is Some <==> self@.contains_key(details@),
            found is Some ==> found->0 == self@[details@],
    {
        match self.cache.get(details) {
            Some(resource) => Some(share(resource)),
            None => None,
        }
    }

    /// Takes in what the loader brought for `details`. A resource is kept
    /// under that name and handed on; an error is handed on and the cache
    /// stays as it is.
    pub fn store(&mut self, details: &str, loaded: Result<R, String>) -> (r: Result<Rc<R>, String>)
        ensures
            match loaded {
                Ok(resource) => r is Ok && *r->Ok_0 == resource && final(self)@ == old(self)@.insert(
                    details@,
                    r->Ok_0,
                ),
                Err(e) => r == Err::<Rc<R>, String>(e) && final(self)@ == old(self)@,
            },
    {
        match loaded {
            Ok(resource) => {
                let shared = Rc::new(resource);
                let handle = share(&shared);
                self.cache.insert(details.to_owned(), shared);
                Ok(handle)
            },
            Err(e) => Err(e),
        }
    }

    /// The resource named `details`: the one that the cache holds under that
    /// name, or else the one that the loader brings for it, which the cache
    /// then holds. If the loader fails, its error is handed on and the cache
    /// stays as it is.
    pub fn load(&mut self, details: &str) -> (r: Result<Rc<R>, String>)
        ensures
            old(self)@.contains_key(details@) ==> r is Ok && r->Ok_0 == old(self)@[details@]
                && final(self)@ == old(self)@,
            !old(self)@.contains_key(details@) ==> match r {
                Ok(resource) => final(self)@ == old(self)@.insert(details@, resource),
                Err(_) => final(self)@ == old(self)@,
            },
    {
        match self.lookup(details) {
            Some(resource) => Ok(resource),
            None => {
                let loaded = self.loader.load(details);
                self.store(details, loaded)
            },
        }
    }
}

} // verus!
