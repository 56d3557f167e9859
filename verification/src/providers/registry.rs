//! Provider kinds, provider configuration and the store of API keys.

use vstd::prelude::*;
use crate::keyed::{
    distinct_keys, find, has_key, keyed_view, lemma_upsert, lookup, upsert, value_of,
};

verus! {

/// The wire protocol of a provider.
#[derive(Debug, Clone, Copy, PartialEq, Eq, Structural)]
pub enum ProviderKind {
    Anthropic,
    OpenAI,
}

impl ProviderKind {
    /// The name of the kind on the wire.
    pub open spec fn wire_name(self) -> Seq<char> {
        match self {
            ProviderKind::Anthropic => "anthropic"@,
            ProviderKind::OpenAI => "openai"@,
        }
    }

    /// The name of the kind on the wire.
    pub fn as_str(&self) -> (r: &'static str)
        ensures
            r@ == self.wire_name(),
    {
        match self {
            ProviderKind::Anthropic => "anthropic",
            ProviderKind::OpenAI => "openai",
        }
    }
}

/// A configured provider.
#[derive(Debug, PartialEq)]
pub struct ProviderConfig {
    pub id: String,
    pub kind: ProviderKind,
    pub base_url: Option<String>,
    pub default_model: String,
}

impl Clone for ProviderConfig {
    /// A copy with the same fields.
    fn clone(&self) -> (r: ProviderConfig)
        ensures
            r == *self,
    {
        ProviderConfig {
            id: self.id.clone(),
            kind: self.kind,
            base_url: clone_text(&self.base_url),
            default_model: self.default_model.clone(),
        }
    }
}

/// A copy of an optional string.
pub fn clone_text(text: &Option<String>) -> (r: Option<String>)
    ensures
        r == *text,
{
    match text {
        Some(t) => Some(t.clone()),
        None => None,
    }
}

/// The API key stored under a provider id, if any.
pub open spec fn stored_key(
    secrets: Map<Seq<char>, Seq<char>>,
    id: Seq<char>,
) -> Option<Seq<char>> {
    if secrets.contains_key(id) {
        Some(secrets[id])
    } else {
        None
    }
}

/// The view of an optional string.
pub open spec fn key_view(found: Option<String>) -> Option<Seq<char>> {
    match found {
        Some(v) => Some(v@),
        None => None,
    }
}

/// A store of API keys by provider id.
pub trait SecretStore: Send + Sync {
    /// The store is in order; every store handed out by a constructor is.
    spec fn valid(&self) -> bool;

    /// The keys held, by provider id.
    spec fn secrets(&self) -> Map<Seq<char>, Seq<char>>;

    /// Stores `value` under `id`, in place of any key held there. A store
    /// that reports failure has kept what it held.
    fn set_key(&mut self, id: &str, value: &str) -> (r: Result<(), String>)
        requires
            old(self).valid(),
        ensures
            final(self).valid(),
            r is Ok ==> final(self).secrets() == old(self).secrets().insert(id@, value@),
            r is Err ==> final(self).secrets() == old(self).secrets(),
    ;

    /// The key stored under `id`.
    fn get_key(&self, id: &str) -> (r: Result<Option<String>, String>)
        requires
            self.valid(),
        ensures
            r matches Ok(found) ==> key_view(found) == stored_key(self.secrets(), id@),
    ;
}

/// A [`SecretStore`] that keeps its keys in memory.
pub struct InMemorySecretStore {
    data: Vec<(String, String)>,
}

impl InMemorySecretStore {
    /// No provider id is held twice.
    pub closed spec fn wf(&self) -> bool {
        distinct_keys(keyed_view(self.data@))
    }

    /// The keys held, by provider id.
    pub closed spec fn held(&self) -> Map<Seq<char>, Seq<char>> {
        Map::new(
            |id: Seq<char>| has_key(keyed_view(self.data@), id),
            |id: Seq<char>| value_of(keyed_view(self.data@), id)@,
        )
    }

    /// An empty store.
    pub fn new() -> (r: Self)
        ensures
            r.wf(),
            r.held() == Map::<Seq<char>, Seq<char>>::empty(),
    {
        let r = InMemorySecretStore { data: Vec::new() };
        assert(r.held() =~= Map::<Seq<char>, Seq<char>>::empty());
        r
    }
}

impl SecretStore for InMemorySecretStore {
    open spec fn valid(&self) -> bool {
        self.wf()
    }

    open spec fn secrets(&self) -> Map<Seq<char>, Seq<char>> {
        self.held()
    }

    /// Stores `value` under `id`; never fails.
    fn set_key(&mut self, id: &str, value: &str) -> (r: Result<(), String>)
        ensures
            r is Ok,
    {
        let ghost before = keyed_view(self.data@);
        let entry = (id.to_string(), value.to_string());
        proof {
            lemma_upsert(before, (id@, entry.1));
        }
        match find(&self.data, id) {
            Some(i) => {
                self.data.set(i, entry);
            },
            None => {
                self.data.push(entry);
            },
        }
        proof {
            let after = keyed_view(self.data@);
            assert(after =~= upsert(before, (id@, entry.1)));
            assert forall|k: Seq<char>|
                has_key(after, k) == (k == id@ || has_key(before, k)) && (has_key(after, k)
                    ==> value_of(after, k)@ == if k == id@ {
                    value@
                } else {
                    value_of(before, k)@
                }) by {
                assert(lookup(after, k) == if k == id@ {
                    Some(entry.1)
                } else {
                    lookup(before, k)
                });
            }
            assert(self.held() =~= old(self).held().insert(id@, value@));
        }
        Ok(())
    }

    /// The key stored under `id`; never fails.
    fn get_key(&self, id: &str) -> (r: Result<Option<String>, String>)
        ensures
            r is Ok,
    {
        match find(&self.data, id) {
            Some(i) => Ok(Some(self.data[i].1.clone())),
            None => Ok(None),
        }
    }
}

} // verus!
