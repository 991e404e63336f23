//! The search filter builder and its rendering into query parameters.
use vstd::prelude::*;
use crate::codec::{PluginCategory, SortType, category_code, sort_code};
use crate::text::{decimal, push_decimal, to_decimal};

verus! {

/// A limit or offset that the builder refuses.
#[derive(Clone, Copy, Debug, PartialEq, Eq, Structural)]
pub enum QueryBuildError {
    InvalidLimit(i64),
    InvalidOffset(i64),
}

/// Filters of one search: categories, sort order, free-text term, limit and
/// offset.
#[derive(Debug)]
pub struct SearchQuery {
    categories: Vec<PluginCategory>,
    sort: Option<SortType>,
    query: String,
    limit: i64,
    offset: i64,
}

/// The filters of a search as mathematical values.
pub struct SearchQueryView {
    pub categories: Seq<PluginCategory>,
    pub sort: Option<SortType>,
    pub query: Seq<char>,
    pub limit: int,
    pub offset: int,
}

impl View for SearchQuery {
    type V = SearchQueryView;

    closed spec fn view(&self) -> SearchQueryView {
        SearchQueryView {
            categories: self.categories@,
            sort: self.sort,
            query: self.query@,
            limit: self.limit as int,
            offset: self.offset as int,
        }
    }
}

/// The limit of results when none is set.
pub const DEFAULT_LIMIT: i64 = 25;

/// The wire codes of `cs` in order, joined by commas.
pub open spec fn join_codes(cs: Seq<PluginCategory>) -> Seq<char>
    decreases cs.len(),
{
    if cs.len() == 0 {
        Seq::empty()
    } else if cs.len() == 1 {
        decimal(category_code(cs[0]))
    } else {
        join_codes(cs.drop_last()) + ","@ + decimal(category_code(cs.last()))
    }
}

/// The query parameters of a search, in order: `categories` when any are set,
/// `sort` when one is set, then `limit`, `offset` and `q`.
pub open spec fn query_params(q: SearchQueryView) -> Seq<(Seq<char>, Seq<char>)> {
    let cats: Seq<(Seq<char>, Seq<char>)> = if q.categories.len() == 0 {
        Seq::empty()
    } else {
        seq![("categories"@, join_codes(q.categories))]
    };
    let sort: Seq<(Seq<char>, Seq<char>)> = match q.sort {
        Some(s) => seq![("sort"@, decimal(sort_code(s)))],
        None => Seq::empty(),
    };
    cats + sort + seq![
        ("limit"@, decimal(q.limit as nat)),
        ("offset"@, decimal(q.offset as nat)),
        ("q"@, q.query),
    ]
}

/// The mathematical value of rendered parameters.
pub open spec fn params_view(ps: Seq<(String, String)>) -> Seq<(Seq<char>, Seq<char>)> {
    ps.map_values(|p: (String, String)| (p.0@, p.1@))
}

/// A new search for the free-text term `query`, with no category filter, no
/// explicit sort order, a limit of 25 and an offset of 0.
pub fn search(query: &str) -> (r: SearchQuery)
    ensures
        r@.categories.len() == 0,
        r@.sort is None,
        r@.query == query@,
        r@.limit == 25,
        r@.offset == 0,
{
    SearchQuery {
        categories: Vec::new(),
        sort: None,
        query: query.to_string(),
        limit: DEFAULT_LIMIT,
        offset: 0,
    }
}

impl SearchQuery {
    /// The limit is positive and the offset is not negative.
    #[verifier::type_invariant]
    spec fn inv(&self) -> bool {
        self.limit >= 1 && self.offset >= 0
    }

    /// Replaces the category filter; an empty list means no filter.
    pub fn set_categories(&mut self, categories: &Vec<PluginCategory>)
        ensures
            final(self)@ == (SearchQueryView { categories: categories@, ..old(self)@ }),
    {
        proof {
            use_type_invariant(&*self);
        }
        self.categories = categories.clone();
        assert(self.categories@ =~= categories@);
    }

    /// Replaces the sort order.
    pub fn set_sort_type(&mut self, sort_type: SortType)
        ensures
            final(self)@ == (SearchQueryView { sort: Some(sort_type), ..old(self)@ }),
    {
        proof {
            use_type_invariant(&*self);
        }
        self.sort = Some(sort_type);
    }

    /// Sets the number of results; a limit below one is refused and leaves
    /// the filters as they were.
    pub fn set_limit(&mut self, limit: i64) -> (r: Result<(), QueryBuildError>)
        ensures
            limit >= 1 ==> r is Ok && final(self)@ == (SearchQueryView { limit: limit as int, ..old(self)@ }),
            limit < 1 ==> r == Err::<(), QueryBuildError>(QueryBuildError::InvalidLimit(limit))
                && final(self)@ == old(self)@,
    {
        proof {
            use_type_invariant(&*self);
        }
        if limit < 1 {
            return Err(QueryBuildError::InvalidLimit(limit));
        }
        self.limit = limit;
        Ok(())
    }

    /// Sets the number of results to skip; a negative offset is refused and
    /// leaves the filters as they were.
    pub fn set_offset(&mut self, offset: i64) -> (r: Result<(), QueryBuildError>)
        ensures
            offset >= 0 ==> r is Ok && final(self)@ == (SearchQueryView { offset: offset as int, ..old(self)@ }),
            offset < 0 ==> r == Err::<(), QueryBuildError>(QueryBuildError::InvalidOffset(offset))
                && final(self)@ == old(self)@,
    {
        proof {
            use_type_invariant(&*self);
        }
        if offset < 0 {
            return Err(QueryBuildError::InvalidOffset(offset));
        }
        self.offset = offset;
        Ok(())
    }

    /// The query parameters of this search, as name and value pairs.
    pub fn build(&self) -> (r: Vec<(String, String)>)
        ensures
            params_view(r@) == query_params(self@),
    {
        proof {
            use_type_invariant(self);
        }
        let mut out: Vec<(String, String)> = Vec::new();
        let n = self.categories.len();
        if n > 0 {
            let mut joined = String::new();
            let mut i: usize = 0;
            while i < n
                invariant
                    n == self.categories@.len(),
                    i <= n,
                    joined@ == join_codes(self.categories@.take(i as int)),
                decreases n - i,
            {
                let ghost before = joined@;
                if i > 0 {
                    joined.append(",");
                }
                let code = self.categories[i].to_int();
                push_decimal(&mut joined, code as u64);
                proof {
                    reveal_strlit(",");
                    let cs = self.categories@.take(i + 1);
                    assert(cs.drop_last() =~= self.categories@.take(i as int));
                    assert(cs.last() == self.categories@[i as int]);
                    if i == 0 {
                        assert(before =~= Seq::<char>::empty());
                        assert(joined@ =~= join_codes(cs));
                    } else {
                        assert(joined@ =~= join_codes(cs));
                    }
                }
                i = i + 1;
            }
            assert(self.categories@.take(n as int) =~= self.categories@);
            out.push(("categories".to_string(), joined));
        }
        if let Some(s) = self.sort {
            out.push(("sort".to_string(), to_decimal(s.to_int() as u64)));
        }
        out.push(("limit".to_string(), to_decimal(self.limit as u64)));
        out.push(("offset".to_string(), to_decimal(self.offset as u64)));
        out.push(("q".to_string(), self.query.clone()));
        assert(params_view(out@) =~= query_params(self@));
        out
    }
}

/// A search with no categories renders no `categories` parameter.
pub proof fn lemma_no_categories_no_param(q: SearchQueryView)
    requires
        q.categories.len() == 0,
    ensures
        forall|i: int| 0 <= i < query_params(q).len() ==> (#[trigger] query_params(q)[i]).0 != "categories"@,
{
    reveal_strlit("categories");
    reveal_strlit("sort");
    reveal_strlit("limit");
    reveal_strlit("offset");
    reveal_strlit("q");
    let ps = query_params(q);
    assert forall|i: int| 0 <= i < ps.len() implies (#[trigger] ps[i]).0 != "categories"@ by {
        assert(ps[i].0.len() != 10 || ps[i].0[0] != 'c');
    }
}

/// The `categories` value never starts or ends with a comma.
pub proof fn lemma_join_codes_bare(cs: Seq<PluginCategory>)
    ensures
        join_codes(cs).len() > 0 ==> join_codes(cs)[0] != ',' && join_codes(cs).last() != ',',
    decreases cs.len(),
{
    reveal_strlit(",");
    if cs.len() == 1 {
        lemma_decimal_digits(category_code(cs[0]));
    } else if cs.len() > 1 {
        lemma_join_codes_bare(cs.drop_last());
        lemma_decimal_digits(category_code(cs.last()));
        let a = join_codes(cs.drop_last());
        let d = decimal(category_code(cs.last()));
        if a.len() == 0 {
            lemma_decimal_digits(category_code(cs.drop_last()[0]));
            assert(false);
        }
        assert(join_codes(cs)[0] == a[0]);
        assert(join_codes(cs).last() == d.last());
    }
}

proof fn lemma_decimal_digits(n: nat)
    ensures
        decimal(n).len() > 0,
        forall|i: int| 0 <= i < decimal(n).len() ==> (#[trigger] decimal(n)[i]) != ',',
    decreases n,
{
    if n >= 10 {
        lemma_decimal_digits(n / 10);
        assert forall|i: int| 0 <= i < decimal(n).len() implies (#[trigger] decimal(n)[i]) != ',' by {
            if i < decimal(n / 10).len() {
                assert(decimal(n)[i] == decimal(n / 10)[i]);
            }
        }
    }
}

} // verus!
