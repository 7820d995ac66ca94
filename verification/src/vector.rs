//! Payloads of the vector service.

use crate::collection::{check_collection_name, collection_name_errors};
use crate::text::{trim, trimmed};
use crate::validation::{char_count, ValidationErrors};
use vstd::prelude::*;

verus! {

#[derive(Debug)]
pub struct CreateCollectionPayload {
    /// Collection name. Cannot contain special characters.
    pub name: String,
    /// Collection embedding model.
    pub model: String,
    /// Vector database provider.
    pub vector_provider: String,
    /// Embeddings provider.
    pub embedding_provider: String,
}

impl CreateCollectionPayload {
    /// Trim the name, then check it: non-empty, made of `a-z A-Z 0-9 _`, starting with a capital
    /// letter.
    pub fn validify(&mut self) -> (res: Result<(), ValidationErrors>)
        ensures
            final(self).name@ == trim(old(self).name@),
            final(self).model == old(self).model,
            final(self).vector_provider == old(self).vector_provider,
            final(self).embedding_provider == old(self).embedding_provider,
            res is Ok <==> collection_name_errors(trim(old(self).name@)).len() == 0,
            res matches Err(e) ==> e.codes() == collection_name_errors(trim(old(self).name@)),
    {
        self.name = trimmed(self.name.as_str());
        let mut errors = ValidationErrors::new();
        check_collection_name(self.name.as_str(), &mut errors);
        assert(errors.codes() =~= collection_name_errors(self.name@));
        if errors.is_empty() {
            Ok(())
        } else {
            Err(errors)
        }
    }
}

/// Params for semantic search.
#[derive(Debug)]
pub struct SearchPayload {
    /// The text to search by.
    pub query: String,
    /// The collection to search in, by its ID. Has priority over everything else.
    pub collection_id: Option<u128>,
    /// If given search via the name and provider combo.
    pub collection_name: Option<String>,
    /// Vector provider.
    pub provider: Option<String>,
    /// Amount of results to return.
    pub limit: Option<u32>,
}

/// The codes of the rules a search payload breaks, in the order they are checked: a given
/// collection name is not empty; a given limit is at least one; the collection is named by its
/// ID, or by its name and provider together.
pub open spec fn search_errors(
    collection_id: Option<u128>,
    collection_name: Option<Seq<char>>,
    provider: bool,
    limit: Option<u32>,
) -> Seq<Seq<char>> {
    (match collection_name {
        Some(n) => if n.len() >= 1 {
            Seq::empty()
        } else {
            seq!["length"@]
        },
        None => Seq::empty(),
    }) + (match limit {
        Some(l) => if l >= 1 {
            Seq::empty()
        } else {
            seq!["range"@]
        },
        None => Seq::empty(),
    }) + (if collection_id is None && collection_name is None && !provider {
        seq!["either_id_or_name_and_provider"@]
    } else if collection_id is None && (collection_name is Some) != provider {
        seq!["name_and_provider"@]
    } else {
        Seq::empty()
    })
}

pub open spec fn trimmed_name(n: Option<String>) -> Option<Seq<char>> {
    match n {
        Some(s) => Some(trim(s@)),
        None => None,
    }
}

impl SearchPayload {
    /// Trim the query and the collection name, then check the payload's rules.
    pub fn validify(&mut self) -> (res: Result<(), ValidationErrors>)
        ensures
            final(self).query@ == trim(old(self).query@),
            match old(self).collection_name {
                Some(n) => final(self).collection_name matches Some(m) && m@ == trim(n@),
                None => final(self).collection_name is None,
            },
            final(self).collection_id == old(self).collection_id,
            final(self).provider == old(self).provider,
            final(self).limit == old(self).limit,
            ({
                let errs = search_errors(
                    old(self).collection_id,
                    trimmed_name(old(self).collection_name),
                    old(self).provider is Some,
                    old(self).limit,
                );
                &&& res is Ok <==> errs.len() == 0
                &&& res matches Err(e) ==> e.codes() == errs
            }),
    {
        self.query = trimmed(self.query.as_str());
        let name = match &self.collection_name {
            Some(n) => Some(trimmed(n.as_str())),
            None => None,
        };
        self.collection_name = name;
        let mut errors = ValidationErrors::new();
        let ghost start = errors.codes();
        match &self.collection_name {
            Some(n) => {
                if char_count(n.as_str()) < 1 {
                    errors.add("length", "collection name cannot be empty");
                }
            },
            None => {},
        }
        match self.limit {
            Some(l) => {
                if l < 1 {
                    errors.add("range", "limit must be at least 1");
                }
            },
            None => {},
        }
        if self.collection_id.is_none() {
            if self.collection_name.is_none() && self.provider.is_none() {
                errors.add(
                    "either_id_or_name_and_provider",
                    "one of either `collection_id`, or `provider` and `collection_name` combination must be set",
                );
            } else if self.collection_name.is_some() != self.provider.is_some() {
                errors.add(
                    "name_and_provider",
                    "both 'collection_name'and 'provider' must be set if `collection_id` is not set",
                );
            }
        }
        assert(errors.codes() =~= search_errors(
            self.collection_id,
            trimmed_name(old(self).collection_name),
            self.provider is Some,
            self.limit,
        ));
        if errors.is_empty() {
            Ok(())
        } else {
            Err(errors)
        }
    }
}

/// How the collection to search is found.
#[derive(Debug)]
pub enum CollectionLookup {
    /// By its ID.
    Id(u128),
    /// By its name in a vector provider.
    Name { name: String, provider: String },
}

impl SearchPayload {
    /// How to find the collection to search: by its ID when one is given, else by its name and
    /// provider when both are; `None` when the payload names no collection, which a payload that
    /// passed [SearchPayload::validify] never does (see [law_valid_search_names_a_collection]).
    pub fn collection_lookup(&self) -> (res: Option<CollectionLookup>)
        ensures
            match self.collection_id {
                Some(id) => res matches Some(CollectionLookup::Id(i)) && i == id,
                None => match (self.collection_name, self.provider) {
                    (Some(n), Some(p)) => res matches Some(CollectionLookup::Name { name, provider })
                        && name@ == n@ && provider@ == p@,
                    _ => res is None,
                },
            },
    {
        match self.collection_id {
            Some(id) => Some(CollectionLookup::Id(id)),
            None => match (&self.collection_name, &self.provider) {
                (Some(n), Some(p)) => Some(
                    CollectionLookup::Name { name: n.clone(), provider: p.clone() },
                ),
                _ => None,
            },
        }
    }

    /// The number of results to return: 5 unless the payload says.
    pub fn result_limit(&self) -> (res: u32)
        ensures
            res == match self.limit {
                Some(l) => l,
                None => 5u32,
            },
    {
        match self.limit {
            Some(l) => l,
            None => 5,
        }
    }
}

/// A search payload that keeps its rules names the collection to search: by its ID, or by its
/// name and provider together.
pub proof fn law_valid_search_names_a_collection(
    collection_id: Option<u128>,
    collection_name: Option<Seq<char>>,
    provider: bool,
    limit: Option<u32>,
)
    requires
        search_errors(collection_id, collection_name, provider, limit).len() == 0,
    ensures
        collection_id is Some || (collection_name is Some && provider),
{
}

} // verus!
