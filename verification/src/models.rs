//! The model registry: which models there are, and how each one is reached.
//!
//! A task names a model by its registry key. The key leads to the name under
//! which the model is served and to its provider; both are handed to the
//! supervised tool explicitly, so that nothing falls back to a default.

use crate::text;
use vstd::prelude::*;

verus! {

/// How a provider is referred to, and where it is.
#[derive(Debug, PartialEq, Eq)]
pub struct ProviderRef {
    /// Its name in the configuration of the supervised tool.
    pub id: String,
    /// Its base URL, where the configuration is overridden.
    pub base_url: Option<String>,
    /// Its wire protocol, where the configuration is overridden.
    pub wire_api: Option<String>,
}

impl Clone for ProviderRef {
    fn clone(&self) -> (out: Self)
        ensures
            out == *self,
    {
        ProviderRef {
            id: self.id.clone(),
            base_url: text::clone_opt(&self.base_url),
            wire_api: text::clone_opt(&self.wire_api),
        }
    }
}

/// Sampling parameters that the provider middleware puts into requests.
#[derive(Debug, PartialEq, Eq)]
pub struct InjectParams {
    /// The temperature, as the JSON number that is sent.
    pub temperature: Option<String>,
}

impl Clone for InjectParams {
    fn clone(&self) -> (out: Self)
        ensures
            out == *self,
    {
        InjectParams { temperature: text::clone_opt(&self.temperature) }
    }
}

/// One model.
#[derive(Debug, PartialEq, Eq)]
pub struct ModelEntry {
    /// The name under which the server knows the model.
    pub served_name: String,
    /// Who serves it.
    pub provider: ProviderRef,
    /// The URL to probe before a task is started, if any.
    pub endpoint_probe: Option<String>,
    /// What the middleware injects, if anything.
    pub inject: Option<InjectParams>,
}

impl Clone for ModelEntry {
    fn clone(&self) -> (out: Self)
        ensures
            out == *self,
    {
        ModelEntry {
            served_name: self.served_name.clone(),
            provider: self.provider.clone(),
            endpoint_probe: text::clone_opt(&self.endpoint_probe),
            inject: match &self.inject {
                Some(inject) => Some(inject.clone()),
                None => None,
            },
        }
    }
}

/// A model under its key.
#[derive(Debug)]
pub struct Listing {
    /// The key.
    pub key: String,
    /// The model.
    pub entry: ModelEntry,
}

/// Why a model was not found.
#[derive(Debug, PartialEq, Eq)]
pub enum RegistryError {
    /// There is no such key.
    UnknownModel {
        /// The key.
        key: String,
    },
}

impl RegistryError {
    /// The error in words.
    pub open spec fn words(&self) -> Seq<char> {
        match self {
            RegistryError::UnknownModel { key } => "unknown model key: "@ + key@,
        }
    }

    /// The error in words.
    pub fn message(&self) -> (out: String)
        ensures
            out@ == self.words(),
    {
        match self {
            RegistryError::UnknownModel { key } => text::cat2("unknown model key: ", key.as_str()),
        }
    }
}

/// All models, each under a key of its own.
#[derive(Debug)]
pub struct ModelRegistry {
    models: Vec<Listing>,
}

/// The place of `key` in a list; its length where the key is not in it.
pub open spec fn place_of(list: Seq<Listing>, key: Seq<char>) -> nat
    decreases list.len(),
{
    if list.len() == 0 || list.first().key@ == key {
        0
    } else {
        1 + place_of(list.drop_first(), key)
    }
}

/// The place of the first model served as `name`; the length of the list where
/// there is none.
pub open spec fn place_serving(list: Seq<Listing>, name: Seq<char>) -> nat
    decreases list.len(),
{
    if list.len() == 0 || list.first().entry.served_name@ == name {
        0
    } else {
        1 + place_serving(list.drop_first(), name)
    }
}

/// Whether no key occurs twice in a list.
pub open spec fn distinct_keys(list: Seq<Listing>) -> bool {
    forall|i: int, j: int|
        0 <= i < j < list.len() ==> (#[trigger] list[i]).key@ != (#[trigger] list[j]).key@
}

impl ModelRegistry {
    /// What holds of a registry at all times: no key occurs twice.
    pub open spec fn wf(&self) -> bool {
        distinct_keys(self.listed())
    }

    /// The models in the order in which they were registered.
    pub closed spec fn listed(&self) -> Seq<Listing> {
        self.models@
    }

    /// The model under `key`, if there is one.
    pub open spec fn entry_of(&self, key: Seq<char>) -> Option<ModelEntry> {
        let place = place_of(self.listed(), key);
        if place < self.listed().len() {
            Some(self.listed()[place as int].entry)
        } else {
            None
        }
    }

    /// The key of the first model that is served as `name`, if there is one.
    pub open spec fn key_of_served(&self, name: Seq<char>) -> Option<Seq<char>> {
        let place = place_serving(self.listed(), name);
        if place < self.listed().len() {
            Some(self.listed()[place as int].key@)
        } else {
            None
        }
    }

    /// A registry without models.
    pub fn new() -> (out: Self)
        ensures
            out.wf(),
            out.listed() == Seq::<Listing>::empty(),
    {
        ModelRegistry { models: Vec::new() }
    }

    fn find(&self, key: &str) -> (place: usize)
        ensures
            place == place_of(self.listed(), key@),
            place <= self.listed().len(),
    {
        let mut at: usize = 0;
        assert(self.models@.skip(0) =~= self.models@);
        while at < self.models.len()
            invariant
                at <= self.models@.len(),
                place_of(self.models@, key@) == at + place_of(self.models@.skip(at as int), key@),
            decreases self.models@.len() - at,
        {
            if text::same_text(self.models[at].key.as_str(), key) {
                return at;
            }
            assert(self.models@.skip(at as int).drop_first() =~= self.models@.skip(at + 1));
            at = at + 1;
        }
        at
    }

    /// Registers a model. A model that was under the same key before gives way.
    pub fn insert(&mut self, key: String, entry: ModelEntry)
        ensures
            ({
                let before = old(self).listed();
                let place = place_of(before, key@) as int;
                let listing = Listing { key, entry };
                final(self).listed() == if place < before.len() {
                    before.update(place, listing)
                } else {
                    before.push(listing)
                }
            }),
            old(self).wf() ==> final(self).wf(),
    {
        proof {
            lemma_place_of_is_found(self.models@, key@);
        }
        let place = self.find(key.as_str());
        let listing = Listing { key, entry };
        if place < self.models.len() {
            self.models.set(place, listing);
        } else {
            self.models.push(listing);
        }
    }

    /// The model under `key`.
    pub fn resolve(&self, key: &str) -> (out: Result<&ModelEntry, RegistryError>)
        ensures
            match self.entry_of(key@) {
                Some(entry) => out == Ok::<&ModelEntry, RegistryError>(&entry),
                None => out matches Err(RegistryError::UnknownModel { key: named }) && named@ == key@,
            },
    {
        let place = self.find(key);
        if place < self.models.len() {
            Ok(&self.models[place].entry)
        } else {
            Err(RegistryError::UnknownModel { key: key.to_owned() })
        }
    }

    /// The key under which a served model is registered.
    pub fn key_serving(&self, name: &str) -> (out: Option<String>)
        ensures
            text::opt_text(out) == self.key_of_served(name@),
    {
        let mut at: usize = 0;
        assert(self.models@.skip(0) =~= self.models@);
        while at < self.models.len()
            invariant
                at <= self.models@.len(),
                place_serving(self.models@, name@) == at + place_serving(
                    self.models@.skip(at as int),
                    name@,
                ),
            decreases self.models@.len() - at,
        {
            if text::same_text(self.models[at].entry.served_name.as_str(), name) {
                return Some(self.models[at].key.clone());
            }
            assert(self.models@.skip(at as int).drop_first() =~= self.models@.skip(at + 1));
            at = at + 1;
        }
        None
    }
}

/// What `place_of` finds, where it finds something, is under the key.
proof fn lemma_place_of_is_found(list: Seq<Listing>, key: Seq<char>)
    ensures
        place_of(list, key) <= list.len(),
        place_of(list, key) < list.len() ==> list[place_of(list, key) as int].key@ == key,
        forall|i: int| 0 <= i < place_of(list, key) ==> (#[trigger] list[i]).key@ != key,
    decreases list.len(),
{
    if list.len() > 0 && list.first().key@ != key {
        lemma_place_of_is_found(list.drop_first(), key);
        assert forall|i: int| 0 <= i < place_of(list, key) implies (#[trigger] list[i]).key@
            != key by {
            if i > 0 {
                assert(list.drop_first()[i - 1] == list[i]);
            }
        }
    }
}

proof fn lemma_place_of_first(list: Seq<Listing>, key: Seq<char>, at: int)
    requires
        0 <= at < list.len(),
        list[at].key@ == key,
        forall|i: int| 0 <= i < at ==> (#[trigger] list[i]).key@ != key,
    ensures
        place_of(list, key) == at,
{
    lemma_place_of_is_found(list, key);
    let place = place_of(list, key) as int;
    if place > at {
        assert(list[at].key@ != key);
    } else if place < at {
        assert(list[place].key@ != key);
    }
}

/// Law: what was registered under a key is what the key leads to, and no other
/// key is affected.
pub proof fn law_insert_and_resolve(
    before: ModelRegistry,
    after: ModelRegistry,
    key: String,
    entry: ModelEntry,
    other: Seq<char>,
)
    requires
        after.listed() == ({
            let place = place_of(before.listed(), key@) as int;
            let listing = Listing { key, entry };
            if place < before.listed().len() {
                before.listed().update(place, listing)
            } else {
                before.listed().push(listing)
            }
        }),
    ensures
        before.wf() ==> after.wf(),
        after.entry_of(key@) == Some(entry),
        other != key@ ==> after.entry_of(other) == before.entry_of(other),
{
    let list = before.listed();
    let place = place_of(list, key@) as int;
    lemma_place_of_is_found(list, key@);
    assert forall|i: int| 0 <= i < place implies (#[trigger] after.listed()[i]).key@ != key@ by {
        assert(list[i].key@ != key@);
    }
    lemma_place_of_first(after.listed(), key@, place);
    if other != key@ {
        lemma_place_of_is_found(list, other);
        let spot = place_of(list, other) as int;
        assert forall|i: int| 0 <= i < spot implies (#[trigger] after.listed()[i]).key@
            != other by {
            if i < list.len() {
                assert(list[i].key@ != other);
            }
        }
        if spot < list.len() {
            lemma_place_of_first(after.listed(), other, spot);
        } else {
            lemma_place_of_is_found(after.listed(), other);
            let found = place_of(after.listed(), other) as int;
            if found < after.listed().len() {
                if found < list.len() {
                    assert(list[found].key@ != other);
                }
            }
        }
    }
}

} // verus!
