//! Lists, pagination, sorting and search parameters for queries.

use crate::text::{push_str, str_eq};
use crate::validation::{
    ascii_alphanumeric_clean, ascii_alphanumeric_column, char_count, is_clean_text, is_column_name,
    ValidationErrors,
};
use vstd::prelude::*;

verus! {

/// Used to obtain paginated lists with a total number of items in the tables.
#[derive(Debug)]
pub struct List<T> {
    pub total: Option<usize>,
    pub items: Vec<T>,
}

impl<T> List<T> {
    pub fn new(total: Option<usize>, items: Vec<T>) -> (res: Self)
        ensures
            res.total == total,
            res.items@ == items@,
    {
        Self { total, items }
    }

    /// The items of the list, in order.
    pub fn into_items(self) -> (res: Vec<T>)
        ensures
            res@ == self.items@,
    {
        self.items
    }
}

/// Used to paginate queries.
///
/// `page` defaults to 1 (which results in offset 0).
/// `per_page` defaults to 10.
#[derive(Debug, Clone, Copy)]
pub struct Pagination {
    /// The limit.
    per_page: usize,
    /// The page, counted from one.
    page: usize,
}

/// The LIMIT and OFFSET for a page of `per_page` rows, as the 64-bit integers a query takes.
pub open spec fn limit_offset(per_page: nat, page: nat) -> (i64, i64) {
    (per_page as i64, ((page - 1) * per_page) as i64)
}

/// The rules a pagination breaks: the limit and the page are each at least one.
pub open spec fn pagination_errors(per_page: nat, page: nat) -> Seq<Seq<char>> {
    (if per_page >= 1 {
        Seq::empty()
    } else {
        seq!["range"@]
    }) + (if page >= 1 {
        Seq::empty()
    } else {
        seq!["range"@]
    })
}

/// Whether the page of `per_page` rows has an offset that fits in a `usize`.
pub open spec fn offset_fits(per_page: nat, page: nat) -> bool {
    page >= 1 && (page - 1) * per_page <= usize::MAX
}

impl Pagination {
    pub closed spec fn per_page_spec(&self) -> nat {
        self.per_page as nat
    }

    pub closed spec fn page_spec(&self) -> nat {
        self.page as nat
    }

    pub fn new(per_page: usize, page: usize) -> (res: Self)
        ensures
            res.per_page_spec() == per_page,
            res.page_spec() == page,
    {
        Self { per_page, page }
    }

    /// Returns a tuple whose first element is the LIMIT and second the OFFSET for the query.
    pub fn to_limit_offset(&self) -> (res: (i64, i64))
        requires
            offset_fits(self.per_page_spec(), self.page_spec()),
        ensures
            res == limit_offset(self.per_page_spec(), self.page_spec()),
    {
        let offset = (self.page - 1) * self.per_page;
        (self.per_page as i64, offset as i64)
    }

    /// Check the rules: both the limit and the page are at least one.
    pub fn validate(&self) -> (res: Result<(), ValidationErrors>)
        ensures
            res is Ok <==> pagination_errors(self.per_page_spec(), self.page_spec()).len() == 0,
            res matches Err(e) ==> e.codes() == pagination_errors(
                self.per_page_spec(),
                self.page_spec(),
            ),
    {
        let mut errors = ValidationErrors::new();
        if self.per_page < 1 {
            errors.add("range", "per_page must be at least 1");
        }
        if self.page < 1 {
            errors.add("range", "page must be at least 1");
        }
        assert(errors.codes() =~= pagination_errors(self.per_page_spec(), self.page_spec()));
        if errors.is_empty() {
            Ok(())
        } else {
            Err(errors)
        }
    }
}

impl Default for Pagination {
    fn default() -> (res: Self)
        ensures
            res.per_page_spec() == 10,
            res.page_spec() == 1,
    {
        Self { per_page: 10, page: 1 }
    }
}

/// The direction to sort in.
#[derive(Debug, Clone, Copy, PartialEq, Eq, Structural)]
pub enum SortDirection {
    Asc,
    Desc,
}

/// Struct used for search functionality when querying various models.
#[derive(Debug, Clone)]
pub struct Search<T> {
    pub q: String,
    /// The column to search by when performing the query. This is intended to be an enum of all
    /// the possible search values for a given query.
    pub column: T,
}

/// Whether a search keeps its rules: 1 to 64 characters in `a-z A-Z 0-9 _-.` or spaces.
pub open spec fn search_valid(q: Seq<char>) -> bool {
    1 <= q.len() <= 64 && is_clean_text(q)
}

/// The rules a search query breaks, in the order they are checked.
pub open spec fn search_query_errors(q: Seq<char>) -> Seq<Seq<char>> {
    (if 1 <= q.len() <= 64 {
        Seq::empty()
    } else {
        seq!["length"@]
    }) + (if is_clean_text(q) {
        Seq::empty()
    } else {
        seq!["ascii_alphanumeric_underscored"@]
    })
}

impl<T> Search<T> {
    /// Check the search's rules.
    pub fn validate(&self) -> (res: Result<(), ValidationErrors>)
        ensures
            res is Ok <==> search_valid(self.q@),
            res matches Err(e) ==> e.codes() == search_query_errors(self.q@),
    {
        let mut errors = ValidationErrors::new();
        let n = char_count(self.q.as_str());
        if n < 1 || n > 64 {
            errors.add("length", "search query must have between 1 and 64 characters");
        }
        if !ascii_alphanumeric_clean(self.q.as_str()) {
            errors.add(
                "ascii_alphanumeric_underscored",
                "parameter must be alphanumeric [a-z A-Z 0-9 _-. ]",
            );
        }
        assert(errors.codes() =~= search_query_errors(self.q@));
        if errors.is_empty() {
            Ok(())
        } else {
            Err(errors)
        }
    }
}

/// Used to paginate queries and sort the rows.
#[derive(Debug, Clone)]
pub struct PaginationSort<T> {
    /// See [Pagination].
    pub pagination: Option<Pagination>,
    /// The column to sort by. Default: `updated_at`.
    pub sort_by: Option<String>,
    /// The direction to sort in. Default: `DESC`.
    pub sort_dir: Option<SortDirection>,
    pub search: Option<Search<T>>,
}

/// Whether a sort column keeps its rules: 1 to 64 characters in `a-z A-Z 0-9 _ .`, which keeps
/// it out of reach of SQL injection.
pub open spec fn sort_column_valid(s: Seq<char>) -> bool {
    1 <= s.len() <= 64 && is_column_name(s)
}

/// The rules a sort column breaks, in the order they are checked.
pub open spec fn sort_column_errors(s: Seq<char>) -> Seq<Seq<char>> {
    (if 1 <= s.len() <= 64 {
        Seq::empty()
    } else {
        seq!["length"@]
    }) + (if is_column_name(s) {
        Seq::empty()
    } else {
        seq!["ascii_alphanumeric_underscored"@]
    })
}

/// The rules pagination and sorting parameters break: those of the pagination, then of the
/// sort column, then of the search, each where given.
pub open spec fn pagination_sort_errors<T>(p: PaginationSort<T>) -> Seq<Seq<char>> {
    (match p.pagination {
        Some(pg) => pagination_errors(pg.per_page_spec(), pg.page_spec()),
        None => Seq::empty(),
    }) + (match p.sort_by {
        Some(s) => sort_column_errors(s@),
        None => Seq::empty(),
    }) + (match p.search {
        Some(s) => search_query_errors(s.q@),
        None => Seq::empty(),
    })
}

impl<T> PaginationSort<T> {
    pub fn new(pagination: Pagination, sort_by: String, sort_dir: SortDirection) -> (res: Self)
        ensures
            res.pagination == Some(pagination),
            res.sort_by matches Some(s) && s@ == sort_by@,
            res.sort_dir == Some(sort_dir),
            res.search is None,
    {
        Self {
            pagination: Some(pagination),
            sort_by: Some(sort_by),
            sort_dir: Some(sort_dir),
            search: None,
        }
    }

    pub fn new_default_sort(pagination: Pagination) -> (res: Self)
        ensures
            res.pagination == Some(pagination),
            res.sort_by matches Some(s) && s@ == "updated_at"@,
            res.sort_dir == Some(SortDirection::Desc),
            res.search is None,
    {
        Self {
            pagination: Some(pagination),
            sort_by: Some("updated_at".to_owned()),
            sort_dir: Some(SortDirection::Desc),
            search: None,
        }
    }

    /// Returns a tuple whose first element is the sort column and second the sort direction
    /// ASC/DESC.
    pub fn to_sort(&self) -> (res: (&str, &str))
        ensures
            res.0@ == match self.sort_by {
                Some(s) => s@,
                None => "updated_at"@,
            },
            res.1@ == match self.sort_dir {
                Some(SortDirection::Asc) => "ASC"@,
                _ => "DESC"@,
            },
    {
        let direction = match self.sort_dir {
            Some(SortDirection::Asc) => "ASC",
            Some(SortDirection::Desc) | None => "DESC",
        };
        let column = match &self.sort_by {
            Some(s) => s.as_str(),
            None => "updated_at",
        };
        (column, direction)
    }

    /// See [Pagination::to_limit_offset]; without pagination, every row from the first.
    pub fn to_limit_offset(&self) -> (res: (i64, i64))
        requires
            self.pagination matches Some(p) ==> offset_fits(p.per_page_spec(), p.page_spec()),
        ensures
            res == match self.pagination {
                Some(p) => limit_offset(p.per_page_spec(), p.page_spec()),
                None => limit_offset(10, 1),
            },
    {
        match &self.pagination {
            Some(p) => p.to_limit_offset(),
            None => Pagination::default().to_limit_offset(),
        }
    }

    /// Check the rules of the pagination, the sort column and the search.
    pub fn validate(&self) -> (res: Result<(), ValidationErrors>)
        ensures
            res is Ok <==> pagination_sort_errors(*self).len() == 0,
            res matches Err(e) ==> e.codes() == pagination_sort_errors(*self),
    {
        let mut errors = ValidationErrors::new();
        match &self.pagination {
            Some(p) => match p.validate() {
                Ok(()) => {},
                Err(e) => errors.append(e),
            },
            None => {},
        }
        let ghost after_pagination = errors.codes();
        match &self.sort_by {
            Some(s) => {
                let n = char_count(s.as_str());
                if n < 1 || n > 64 {
                    errors.add("length", "sort column must have between 1 and 64 characters");
                }
                if !ascii_alphanumeric_column(s.as_str()) {
                    errors.add(
                        "ascii_alphanumeric_underscored",
                        "parameter must be alphanumeric with underscores [a-z A-Z 0-9 _ .]",
                    );
                }
                assert(errors.codes() =~= after_pagination + sort_column_errors(s@));
            },
            None => {
                assert(errors.codes() =~= after_pagination + Seq::<Seq<char>>::empty());
            },
        }
        let ghost after_sort = errors.codes();
        match &self.search {
            Some(s) => match s.validate() {
                Ok(()) => {},
                Err(e) => errors.append(e),
            },
            None => {},
        }
        assert(errors.codes() =~= pagination_sort_errors(*self));
        if errors.is_empty() {
            Ok(())
        } else {
            Err(errors)
        }
    }
}

impl<T> Default for PaginationSort<T> {
    fn default() -> (res: Self)
        ensures
            res.pagination matches Some(p) && p.per_page_spec() == 10 && p.page_spec() == 1,
            res.sort_by is None,
            res.sort_dir is None,
            res.search is None,
    {
        Self { pagination: Some(Pagination::default()), sort_by: None, sort_dir: None, search: None }
    }
}

/// Intended to be implemented on enums that serve as search columns.
pub trait ToSearchColumn {
    /// The column's name.
    spec fn search_column(&self) -> Seq<char>;

    fn to_search_column(&self) -> (res: &'static str)
        ensures
            res@ == self.search_column(),
    ;

    /// Useful when performing joins for prefixing the column with the desired table.
    fn to_search_column_prefixed(&self, prefix: &str) -> (res: String)
        ensures
            res@ == prefix@ + "."@ + self.search_column(),
    {
        let mut s = prefix.to_owned();
        push_str(&mut s, ".");
        push_str(&mut s, self.to_search_column());
        s
    }
}

/// The columns collections can be searched by.
#[derive(Debug, Clone, Copy, PartialEq, Eq, Structural)]
pub enum CollectionSearchColumn {
    Name,
    Model,
    Embedder,
    Provider,
}

impl ToSearchColumn for CollectionSearchColumn {
    open spec fn search_column(&self) -> Seq<char> {
        match self {
            CollectionSearchColumn::Name => "name"@,
            CollectionSearchColumn::Model => "model"@,
            CollectionSearchColumn::Embedder => "embedder"@,
            CollectionSearchColumn::Provider => "provider"@,
        }
    }

    fn to_search_column(&self) -> (res: &'static str) {
        match self {
            CollectionSearchColumn::Name => "name",
            CollectionSearchColumn::Model => "model",
            CollectionSearchColumn::Embedder => "embedder",
            CollectionSearchColumn::Provider => "provider",
        }
    }
}

/// Consecutive pages tile the rows: the next page starts where this one ends, for every page
/// whose rows stay within what a query's 64-bit OFFSET can address.
pub proof fn law_pages_tile(per_page: nat, page: nat)
    requires
        page >= 1,
        page * per_page <= i64::MAX,
    ensures
        limit_offset(per_page, page + 1).1 == limit_offset(per_page, page).1 + limit_offset(
            per_page,
            page,
        ).0,
        limit_offset(per_page, 1).1 == 0,
{
    assert(page * per_page == (page - 1) * per_page + per_page) by (nonlinear_arith);
    assert(per_page <= page * per_page) by (nonlinear_arith)
        requires
            page >= 1,
    ;
    assert(0 <= (page - 1) * per_page) by (nonlinear_arith)
        requires
            page >= 1,
    ;
    assert(((page + 1) - 1) * per_page == page * per_page);
}

} // verus!
