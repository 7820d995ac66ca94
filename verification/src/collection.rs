//! Payloads of the collection service.

use crate::external::Timestamp;
use crate::text::{trim, trimmed};
use crate::validation::{
    ascii_alphanumeric_underscored, begins_with_capital, begins_with_capital_ascii_letter,
    char_count, is_underscored_name, ValidationErrors,
};
use vstd::prelude::*;

verus! {

/// The codes of the rules a (trimmed) collection name breaks, in the order they are checked:
/// only `a-z A-Z 0-9 _`, a capital first letter, not empty.
pub open spec fn collection_name_errors(name: Seq<char>) -> Seq<Seq<char>> {
    (if is_underscored_name(name) {
        Seq::empty()
    } else {
        seq!["collection_name"@]
    }) + (if begins_with_capital(name) {
        Seq::empty()
    } else {
        seq!["collection_name"@]
    }) + (if name.len() >= 1 {
        Seq::empty()
    } else {
        seq!["length"@]
    })
}

/// Check a collection name, recording the rules it breaks.
pub fn check_collection_name(name: &str, errors: &mut ValidationErrors)
    ensures
        final(errors).codes() == old(errors).codes() + collection_name_errors(name@),
{
    let ghost start = errors.codes();
    if !ascii_alphanumeric_underscored(name) {
        errors.add(
            "collection_name",
            "collection name must be alphanumeric with underscores [a-z A-Z 0-9 _]",
        );
    }
    if !begins_with_capital_ascii_letter(name) {
        errors.add("collection_name", "collection name must start with a capital characer [A-Z]");
    }
    if char_count(name) < 1 {
        errors.add("length", "collection name cannot be empty");
    }
    assert(errors.codes() =~= start + collection_name_errors(name@));
}

#[derive(Debug)]
pub struct CreateCollectionPayload {
    /// Collection name. Cannot contain special characters.
    pub name: String,
    /// Collection embedding model.
    pub model: String,
    /// Vector database provider.
    pub vector_provider: String,
    /// Embeddings provider.
    pub embedding_provider: String,
    /// Optional collection groups that indicate which user groups can use it.
    pub groups: Option<Vec<String>>,
}

/// The codes of the rules a payload with the (trimmed) `name` and `groups` breaks.
pub open spec fn create_collection_errors(name: Seq<char>, groups: Option<Vec<String>>) -> Seq<
    Seq<char>,
> {
    collection_name_errors(name) + match groups {
        Some(g) => if g@.len() >= 1 {
            Seq::empty()
        } else {
            seq!["length"@]
        },
        None => Seq::empty(),
    }
}

impl CreateCollectionPayload {
    /// Trim the name, then check the payload's rules: the name is non-empty, made of
    /// `a-z A-Z 0-9 _` and starts with a capital letter; groups, when given, are not empty.
    pub fn validify(&mut self) -> (res: Result<(), ValidationErrors>)
        ensures
            final(self).name@ == trim(old(self).name@),
            final(self).model == old(self).model,
            final(self).vector_provider == old(self).vector_provider,
            final(self).embedding_provider == old(self).embedding_provider,
            final(self).groups == old(self).groups,
            res is Ok <==> create_collection_errors(trim(old(self).name@), old(self).groups).len()
                == 0,
            res matches Err(e) ==> e.codes() == create_collection_errors(
                trim(old(self).name@),
                old(self).groups,
            ),
    {
        self.name = trimmed(self.name.as_str());
        let mut errors = ValidationErrors::new();
        check_collection_name(self.name.as_str(), &mut errors);
        let ghost after_name = errors.codes();
        match &self.groups {
            Some(g) => {
                if g.len() < 1 {
                    errors.add("length", "collection groups cannot be empty");
                }
            },
            None => {},
        }
        assert(errors.codes() =~= create_collection_errors(self.name@, self.groups));
        if errors.is_empty() {
            Ok(())
        } else {
            Err(errors)
        }
    }
}

/// The result of a semantic search in a collection.
#[derive(Debug)]
pub struct CollectionSearchResult<I> {
    pub query: String,
    pub items: Vec<I>,
}

/// A vector collection.
#[derive(Debug, Clone)]
pub struct Collection {
    pub id: u128,
    pub name: String,
    pub model: String,
    pub embedder: String,
    pub provider: String,
    pub created_at: Timestamp,
    pub updated_at: Timestamp,
}

/// A document, by its ID and name.
#[derive(Debug, Clone)]
pub struct DocumentShort {
    pub id: u128,
    pub name: String,
}

/// A collection with the number of documents embedded in it and those documents.
#[derive(Debug)]
pub struct CollectionDisplay {
    pub collection: Collection,
    pub total_documents: usize,
    pub documents: Vec<DocumentShort>,
}

/// A row of a collection joined with one of its documents, if it has any, and the number of
/// its documents.
#[derive(Debug, Clone)]
pub struct CollectionDocumentRow {
    pub collection: Collection,
    pub document_id: Option<u128>,
    pub document_name: Option<String>,
    pub document_count: i64,
}

pub type CollectionView = (u128, Seq<char>, Seq<char>, Seq<char>, Seq<char>, Timestamp, Timestamp);

pub open spec fn collection_view(c: Collection) -> CollectionView {
    (c.id, c.name@, c.model@, c.embedder@, c.provider@, c.created_at, c.updated_at)
}

pub open spec fn row_view(r: CollectionDocumentRow) -> (CollectionView, Option<u128>, Option<Seq<char>>, i64) {
    (
        collection_view(r.collection),
        r.document_id,
        match r.document_name {
            Some(n) => Some(n@),
            None => None,
        },
        r.document_count,
    )
}

pub open spec fn display_view(d: CollectionDisplay) -> (CollectionView, usize, Seq<(u128, Seq<char>)>) {
    (
        collection_view(d.collection),
        d.total_documents,
        d.documents@.map_values(|x: DocumentShort| (x.id, x.name@)),
    )
}

/// The index of the display of collection `id`, or `-1`.
pub open spec fn display_index(ds: Seq<(CollectionView, usize, Seq<(u128, Seq<char>)>)>, id: u128) -> int
    decreases ds.len(),
{
    if ds.len() == 0 {
        -1
    } else if ds.last().0.0 == id {
        ds.len() - 1
    } else {
        display_index(ds.drop_last(), id)
    }
}

/// The displays after one more row: its document added to its collection's display, or a new
/// display for a collection not seen before, with the row's document count.
pub open spec fn group_step(
    prev: Seq<(CollectionView, usize, Seq<(u128, Seq<char>)>)>,
    r: (CollectionView, Option<u128>, Option<Seq<char>>, i64),
) -> Seq<(CollectionView, usize, Seq<(u128, Seq<char>)>)> {
    let k = display_index(prev, r.0.0);
    if k >= 0 {
        match (r.1, r.2) {
            (Some(d), Some(n)) => prev.update(k, (prev[k].0, prev[k].1, prev[k].2.push((d, n)))),
            _ => prev,
        }
    } else {
        prev.push(
            (
                r.0,
                r.3 as usize,
                match r.1 {
                    Some(d) => seq![(d, r.2->0)],
                    None => seq![],
                },
            ),
        )
    }
}

/// The rows grouped by collection, in the order the collections first appear: each collection
/// with the document count of its first row, and the documents of its rows in order (rows
/// without a document, and later rows without a document name, add none).
pub open spec fn group_rows(rows: Seq<(CollectionView, Option<u128>, Option<Seq<char>>, i64)>) -> Seq<
    (CollectionView, usize, Seq<(u128, Seq<char>)>),
>
    decreases rows.len(),
{
    if rows.len() == 0 {
        seq![]
    } else {
        group_step(group_rows(rows.drop_last()), rows.last())
    }
}

/// The first row of each collection that names a document also names it.
pub open spec fn first_rows_named(rows: Seq<(CollectionView, Option<u128>, Option<Seq<char>>, i64)>) -> bool {
    forall|i: int|
        0 <= i < rows.len() && (forall|j: int| 0 <= j < i ==> rows[j].0.0 != #[trigger] rows[i].0.0)
            && rows[i].1 is Some ==> rows[i].2 is Some
}

proof fn lemma_display_index(ds: Seq<(CollectionView, usize, Seq<(u128, Seq<char>)>)>, id: u128)
    ensures
        -1 <= display_index(ds, id) < ds.len(),
        display_index(ds, id) >= 0 ==> ds[display_index(ds, id)].0.0 == id,
        display_index(ds, id) < 0 ==> forall|k: int| 0 <= k < ds.len() ==> #[trigger] ds[k].0.0 != id,
    decreases ds.len(),
{
    if ds.len() > 0 && ds.last().0.0 != id {
        lemma_display_index(ds.drop_last(), id);
        if display_index(ds, id) < 0 {
            assert forall|k: int| 0 <= k < ds.len() implies #[trigger] ds[k].0.0 != id by {
                if k < ds.len() - 1 {
                    assert(ds[k] == ds.drop_last()[k]);
                }
            }
        }
    }
}

/// Collection IDs are unique among the displays.
pub open spec fn unique_displays(ds: Seq<(CollectionView, usize, Seq<(u128, Seq<char>)>)>) -> bool {
    forall|a: int, b: int| 0 <= a < b < ds.len() ==> #[trigger] ds[a].0.0 != #[trigger] ds[b].0.0
}

proof fn lemma_unique_index(ds: Seq<(CollectionView, usize, Seq<(u128, Seq<char>)>)>, k: int)
    requires
        unique_displays(ds),
        0 <= k < ds.len(),
    ensures
        display_index(ds, ds[k].0.0) == k,
    decreases ds.len(),
{
    if k < ds.len() - 1 {
        assert(ds.last().0.0 != ds[k].0.0);
        assert(ds.drop_last()[k] == ds[k]);
        lemma_unique_index(ds.drop_last(), k);
    }
}

/// A step keeps the displays' collections and their IDs unique.
proof fn lemma_group_step(
    prev: Seq<(CollectionView, usize, Seq<(u128, Seq<char>)>)>,
    r: (CollectionView, Option<u128>, Option<Seq<char>>, i64),
)
    requires
        unique_displays(prev),
    ensures
        unique_displays(group_step(prev, r)),
        prev.len() <= group_step(prev, r).len(),
        forall|k: int| 0 <= k < prev.len() ==> #[trigger] group_step(prev, r)[k].0.0 == prev[k].0.0,
        display_index(group_step(prev, r), r.0.0) >= 0,
{
    lemma_display_index(prev, r.0.0);
    let next = group_step(prev, r);
    let k = display_index(prev, r.0.0);
    assert forall|a: int, b: int| 0 <= a < b < next.len() implies #[trigger] next[a].0.0 != #[trigger] next[b].0.0 by {
        if b < prev.len() {
            assert(next[a].0.0 == prev[a].0.0);
            assert(next[b].0.0 == prev[b].0.0);
        } else {
            assert(next[a].0.0 == prev[a].0.0);
        }
    }
    if k >= 0 {
        assert(next[k].0.0 == r.0.0);
    } else {
        assert(next[next.len() - 1].0.0 == r.0.0);
    }
    lemma_display_index(next, r.0.0);
}

/// Every collection of the rows has a display, and the displays' IDs are unique.
proof fn lemma_group_contains(rows: Seq<(CollectionView, Option<u128>, Option<Seq<char>>, i64)>)
    ensures
        unique_displays(group_rows(rows)),
        forall|j: int| 0 <= j < rows.len() ==> display_index(group_rows(rows), #[trigger] rows[j].0.0) >= 0,
    decreases rows.len(),
{
    if rows.len() > 0 {
        let prev = group_rows(rows.drop_last());
        lemma_group_contains(rows.drop_last());
        lemma_group_step(prev, rows.last());
        let g = group_rows(rows);
        assert forall|j: int| 0 <= j < rows.len() implies display_index(g, #[trigger] rows[j].0.0) >= 0 by {
            if j < rows.len() - 1 {
                assert(rows.drop_last()[j] == rows[j]);
                lemma_display_index(prev, rows[j].0.0);
                let kj = display_index(prev, rows[j].0.0);
                assert(g[kj].0.0 == rows[j].0.0);
                lemma_display_index(g, rows[j].0.0);
            }
        }
    }
}

fn copy_collection(c: &Collection) -> (res: Collection)
    ensures
        collection_view(res) == collection_view(*c),
{
    Collection {
        id: c.id,
        name: c.name.clone(),
        model: c.model.clone(),
        embedder: c.embedder.clone(),
        provider: c.provider.clone(),
        created_at: c.created_at,
        updated_at: c.updated_at,
    }
}

/// Add one row to the displays.
fn add_row(res: &mut Vec<CollectionDisplay>, row: &CollectionDocumentRow)
    requires
        unique_displays(old(res)@.map_values(|d: CollectionDisplay| display_view(d))),
        display_index(old(res)@.map_values(|d: CollectionDisplay| display_view(d)), row.collection.id) < 0
            && row.document_id is Some ==> row.document_name is Some,
    ensures
        final(res)@.map_values(|d: CollectionDisplay| display_view(d)) == group_step(
            old(res)@.map_values(|d: CollectionDisplay| display_view(d)),
            row_view(*row),
        ),
{
    let ghost prev = res@.map_values(|d: CollectionDisplay| display_view(d));
    let ghost r = row_view(*row);
    proof {
        lemma_display_index(prev, r.0.0);
    }
    let mut found: Option<usize> = None;
    for c in 0..res.len()
        invariant
            res@.map_values(|d: CollectionDisplay| display_view(d)) == prev,
            found matches Some(f) ==> f < res@.len() && res@[f as int].collection.id == row.collection.id,
            found is None ==> forall|x: int| 0 <= x < c ==> #[trigger] res@[x].collection.id != row.collection.id,
    {
        if found.is_none() && res[c].collection.id == row.collection.id {
            found = Some(c);
        }
    }
    match found {
        Some(f) => {
            proof {
                assert(prev[f as int].0.0 == r.0.0);
                lemma_unique_index(prev, f as int);
            }
            match (row.document_id, &row.document_name) {
                (Some(d), Some(n)) => {
                    let mut display = res.remove(f);
                    let ghost docs_before = display.documents@.map_values(|x: DocumentShort| (x.id, x.name@));
                    display.documents.push(DocumentShort { id: d, name: n.clone() });
                    assert(display.documents@.map_values(|x: DocumentShort| (x.id, x.name@)) =~= docs_before.push((d, n@)));
                    res.insert(f, display);
                    assert(res@.map_values(|d: CollectionDisplay| display_view(d)) =~= prev.update(
                        f as int,
                        (prev[f as int].0, prev[f as int].1, prev[f as int].2.push((d, n@))),
                    ));
                },
                _ => {},
            }
        },
        None => {
            proof {
                if display_index(prev, r.0.0) >= 0 {
                    assert(res@[display_index(prev, r.0.0)].collection.id == r.0.0);
                }
            }
            let mut documents: Vec<DocumentShort> = Vec::new();
            match (row.document_id, &row.document_name) {
                (Some(d), Some(n)) => {
                    documents.push(DocumentShort { id: d, name: n.clone() });
                },
                _ => {},
            }
            let display = CollectionDisplay {
                collection: copy_collection(&row.collection),
                total_documents: row.document_count as usize,
                documents,
            };
            let ghost before = res@;
            res.push(display);
            assert(display_view(display).2 =~= match r.1 {
                Some(d) => seq![(d, r.2->0)],
                None => Seq::<(u128, Seq<char>)>::empty(),
            });
            assert(res@.map_values(|d: CollectionDisplay| display_view(d)) =~= prev.push(display_view(display)));
        },
    }
}

/// Group the rows of collections joined with their documents into one display per
/// collection, in the order the collections first appear.
pub fn group_collection_rows(rows: &Vec<CollectionDocumentRow>) -> (res: Vec<CollectionDisplay>)
    requires
        first_rows_named(rows@.map_values(|r: CollectionDocumentRow| row_view(r))),
    ensures
        res@.map_values(|d: CollectionDisplay| display_view(d)) == group_rows(
            rows@.map_values(|r: CollectionDocumentRow| row_view(r)),
        ),
        unique_displays(res@.map_values(|d: CollectionDisplay| display_view(d))),
        forall|j: int|
            0 <= j < rows@.len() ==> display_index(
                res@.map_values(|d: CollectionDisplay| display_view(d)),
                #[trigger] rows@[j].collection.id,
            ) >= 0,
{
    let ghost rv = rows@.map_values(|r: CollectionDocumentRow| row_view(r));
    let mut res: Vec<CollectionDisplay> = Vec::new();
    assert(res@.map_values(|d: CollectionDisplay| display_view(d)) =~= group_rows(rv.take(0)));
    for i in 0..rows.len()
        invariant
            rv == rows@.map_values(|r: CollectionDocumentRow| row_view(r)),
            first_rows_named(rv),
            res@.map_values(|d: CollectionDisplay| display_view(d)) == group_rows(rv.take(i as int)),
    {
        let ghost prev = group_rows(rv.take(i as int));
        proof {
            assert(rv.take(i + 1).drop_last() =~= rv.take(i as int));
            assert(rv.take(i + 1).last() == rv[i as int]);
            lemma_group_contains(rv.take(i as int));
            assert(rv[i as int] == row_view(rows@[i as int]));
            if display_index(prev, rv[i as int].0.0) < 0 {
                assert forall|j: int| 0 <= j < i implies rv[j].0.0 != #[trigger] rv[i as int].0.0 by {
                    assert(rv.take(i as int)[j] == rv[j]);
                }
            }
        }
        add_row(&mut res, &rows[i]);
    }
    proof {
        assert(rv.take(rows@.len() as int) =~= rv);
        lemma_group_contains(rv);
        assert forall|j: int| 0 <= j < rows@.len() implies display_index(
            group_rows(rv),
            #[trigger] rows@[j].collection.id,
        ) >= 0 by {
            assert(rv[j].0.0 == rows@[j].collection.id);
        }
    }
    res
}

} // verus!
