//! Sources of the reader workers' next query: synthetic or file-backed.

use vstd::prelude::*;
use rand::RngExt;
use rand::seq::SliceRandom;
use crate::canon::{lines_spec, split_lines};
use crate::text::{dec_digits, dec_str};

verus! {

/// Relies on rand::rng and RngExt::random_range: a sample of the uniform
/// distribution on `[lo, hi)` (which panics on an empty range).
#[verifier::external_body]
fn random_in_range(lo: u64, hi: u64) -> (r: u64)
    requires
        lo < hi,
    ensures
        lo <= r < hi,
{
    rand::rng().random_range(lo..hi)
}

/// Relies on rand's SliceRandom::shuffle: permutes the elements in place.
#[verifier::external_body]
fn shuffle_strings(v: &mut Vec<String>)
    ensures
        final(v)@.len() == old(v)@.len(),
        final(v).deep_view().to_multiset() == old(v).deep_view().to_multiset(),
{
    v.shuffle(&mut rand::rng());
}

/// A pluggable source of the next query a reader should issue: a stable
/// reporting index, if the query has one, and the query text.
pub trait QueryGenerator: Sized {
    /// Whether the generator is in a state its operations expect.
    spec fn wf(&self) -> bool;

    /// The relation between the state before a call of `next_query`, the
    /// state after it, and the returned pair.
    spec fn next_ens(&self, post: Self, r: (Option<usize>, String)) -> bool;

    fn next_query(&mut self) -> (r: (Option<usize>, String))
        requires
            old(self).wf(),
        ensures
            final(self).wf(),
            old(self).next_ens(*final(self), r),
    ;
}

/// The text of the synthetic query with the given LIMIT.
pub open spec fn select_star_query(limit: nat) -> Seq<char> {
    "SELECT * WHERE { ?s ?p ?o } LIMIT "@ + dec_digits(limit)
}

/// Yields `SELECT *` queries whose LIMIT is drawn uniformly from
/// `[200, 500)`. Such queries have no stable identity, so the index is
/// always `None`.
#[derive(Copy, Clone)]
pub struct RandomLimitSelectStartQueryGenerator;

impl QueryGenerator for RandomLimitSelectStartQueryGenerator {
    open spec fn wf(&self) -> bool {
        true
    }

    open spec fn next_ens(&self, post: Self, r: (Option<usize>, String)) -> bool {
        &&& r.0 is None
        &&& exists|limit: nat| 200 <= limit < 500 && r.1@ == select_star_query(limit)
    }

    fn next_query(&mut self) -> (r: (Option<usize>, String)) {
        let limit = random_in_range(200, 500);
        let mut q = String::new();
        q.append("SELECT * WHERE { ?s ?p ?o } LIMIT ");
        let d = dec_str(limit);
        q.append(d.as_str());
        proof {
            assert(q@ =~= select_star_query(limit as nat));
        }
        (None, q)
    }
}

/// Keeps a trailing carriage return out of a query line.
pub open spec fn chomp_cr(l: Seq<char>) -> Seq<char> {
    if l.len() > 0 && l.last() == '\r' {
        l.drop_last()
    } else {
        l
    }
}

/// The catalog a query file holds: its non-empty lines, in file order.
pub open spec fn catalog_of(content: Seq<char>) -> Seq<Seq<char>> {
    lines_spec(content).map_values(|l: Seq<char>| chomp_cr(l)).filter(|l: Seq<char>| l.len() > 0)
}

/// The index of the first occurrence of `q` in `catalog`.
pub open spec fn first_match(catalog: Seq<Seq<char>>, q: Seq<char>) -> int
    decreases catalog.len(),
{
    if catalog.len() == 0 {
        0
    } else if catalog[0] == q {
        0
    } else {
        1 + first_match(catalog.drop_first(), q)
    }
}

/// Cycles through a fixed catalog of queries, reshuffling the working order
/// at every wrap-around. The returned index is the query's position in the
/// original file order, resolved by equality, so duplicates resolve to their
/// first occurrence.
pub struct FileSourceQueryGenerator {
    queries_original_order: Vec<String>,
    queries: Vec<String>,
    ix: usize,
}

impl FileSourceQueryGenerator {
    /// The catalog in its original file order.
    pub closed spec fn catalog(&self) -> Seq<Seq<char>> {
        self.queries_original_order.deep_view()
    }

    /// The current working permutation.
    pub closed spec fn working(&self) -> Seq<Seq<char>> {
        self.queries.deep_view()
    }

    /// The cursor into the working permutation.
    pub closed spec fn cursor(&self) -> int {
        self.ix as int
    }

    /// Builds the generator from the text of a query file: one query per
    /// line, empty lines dropped. An empty catalog is rejected.
    pub fn new(content: &str) -> (r: Option<FileSourceQueryGenerator>)
        ensures
            r is Some <==> catalog_of(content@).len() > 0,
            r is Some ==> {
                &&& r.unwrap().wf()
                &&& r.unwrap().catalog() == catalog_of(content@)
                &&& r.unwrap().working() == catalog_of(content@)
                &&& r.unwrap().cursor() == 0
            },
    {
        let lines = split_lines(content);
        let mut queries: Vec<String> = Vec::new();
        let mut i: usize = 0;
        proof {
            let dv = lines.deep_view();
            assert(queries.deep_view() =~= dv.take(0).map_values(
                |l: Seq<char>| chomp_cr(l),
            ).filter(|l: Seq<char>| l.len() > 0));
        }
        while i < lines.len()
            invariant
                i <= lines.len(),
                lines@.len() == lines.deep_view().len(),
                queries.deep_view() == lines.deep_view().take(i as int).map_values(
                    |l: Seq<char>| chomp_cr(l),
                ).filter(|l: Seq<char>| l.len() > 0),
            decreases lines.len() - i,
        {
            let ghost dv = lines.deep_view();
            let ghost old_q = queries.deep_view();
            let n = lines[i].unicode_len();
            let line = if n > 0 && lines[i].get_char(n - 1) == '\r' {
                lines[i].substring_char(0, n - 1).to_owned()
            } else {
                let l = lines[i].clone();
                l
            };
            proof {
                assert(dv[i as int] == lines@[i as int]@);
                if n > 0 && lines@[i as int]@.last() == '\r' {
                    assert(line@ =~= chomp_cr(dv[i as int]));
                } else {
                    assert(line@ =~= chomp_cr(dv[i as int]));
                }
            }
            let ln = line.unicode_len();
            if ln > 0 {
                queries.push(line);
            }
            proof {
                let mapped = dv.take(i as int).map_values(|l: Seq<char>| chomp_cr(l));
                let mapped1 = dv.take(i as int + 1).map_values(|l: Seq<char>| chomp_cr(l));
                assert(dv.take(i as int + 1) =~= dv.take(i as int).push(dv[i as int]));
                assert(mapped1 =~= mapped.push(chomp_cr(dv[i as int])));
                mapped.lemma_filter_push(chomp_cr(dv[i as int]), |l: Seq<char>| l.len() > 0);
                if ln > 0 {
                    assert(queries.deep_view() =~= old_q.push(chomp_cr(dv[i as int])));
                    assert(queries.deep_view() =~= mapped1.filter(|l: Seq<char>| l.len() > 0));
                } else {
                    assert(queries.deep_view() =~= mapped1.filter(|l: Seq<char>| l.len() > 0));
                }
            }
            i = i + 1;
        }
        proof {
            let dv = lines.deep_view();
            assert(dv.take(lines@.len() as int) =~= dv);
        }
        if queries.is_empty() {
            None
        } else {
            let originals = queries.clone();
            proof {
                vstd::std_specs::vec::vec_clone_deep_view_proof(queries, originals);
            }
            Some(
                FileSourceQueryGenerator {
                    queries_original_order: originals,
                    queries,
                    ix: 0,
                },
            )
        }
    }
}

impl QueryGenerator for FileSourceQueryGenerator {
    open spec fn wf(&self) -> bool {
        &&& self.catalog().len() > 0
        &&& self.working().len() == self.catalog().len()
        &&& self.working().to_multiset() == self.catalog().to_multiset()
        &&& 0 <= self.cursor() < self.working().len()
    }

    open spec fn next_ens(&self, post: Self, r: (Option<usize>, String)) -> bool {
        &&& post.catalog() == self.catalog()
        &&& self.catalog().contains(r.1@)
        &&& r.0 == Some(first_match(self.catalog(), r.1@) as usize)
        &&& post.cursor() == (self.cursor() + 1) % (self.working().len() as int)
        &&& post.working().len() == self.working().len()
        &&& post.working().to_multiset() == self.working().to_multiset()
        &&& (self.cursor() > 0 ==> post.working() == self.working())
        &&& r.1@ == post.working()[self.cursor()]
    }

    fn next_query(&mut self) -> (r: (Option<usize>, String)) {
        let ghost pre = *old(self);
        let cur_ix = self.ix;
        if cur_ix == 0 {
            shuffle_strings(&mut self.queries);
        }
        proof {
            assert(self.queries@.len() == pre.queries@.len());
            assert(self.working().len() == pre.working().len());
            assert(self.working().to_multiset() == pre.working().to_multiset());
            assert(self.catalog() == pre.catalog());
            assert(cur_ix < self.queries@.len());
        }
        let n = self.queries.len();
        proof {
            assert(cur_ix < n);
        }
        self.ix = (self.ix + 1) % n;
        let q = self.queries[cur_ix].clone();
        proof {
            broadcast use vstd::seq_lib::group_to_multiset_ensures;

            assert(q@ == self.working()[cur_ix as int]);
            assert(self.working().contains(q@));
            assert(self.working().to_multiset().count(q@) > 0);
            assert(self.catalog().to_multiset().count(q@) > 0);
            assert(self.catalog().contains(q@));
        }
        let orig_ix = self.find_first(&q);
        (Some(orig_ix), q)
    }
}

impl FileSourceQueryGenerator {
    /// The index of the first catalog entry equal to `q`.
    fn find_first(&self, q: &String) -> (r: usize)
        requires
            self.catalog().contains(q@),
        ensures
            r == first_match(self.catalog(), q@),
    {
        let n = self.queries_original_order.len();
        let mut j: usize = 0;
        while j < n
            invariant
                j <= n,
                n == self.catalog().len(),
                self.catalog().contains(q@),
                forall|k: int| 0 <= k < j ==> self.catalog()[k] != q@,
            decreases n - j,
        {
            if self.queries_original_order[j].eq(q) {
                proof {
                    assert(self.catalog()[j as int] == q@);
                    lemma_first_match_at(self.catalog(), q@, j as int);
                }
                return j;
            }
            proof {
                assert(self.catalog()[j as int] == self.queries_original_order@[j as int]@);
            }
            j = j + 1;
        }
        proof {
            let k = choose|k: int|
                0 <= k < self.catalog().len() && self.catalog()[k] == q@;
            assert(false);
        }
        0
    }
}

/// `first_match` returns the first index whose entry equals the query.
proof fn lemma_first_match_at(catalog: Seq<Seq<char>>, q: Seq<char>, j: int)
    requires
        0 <= j < catalog.len(),
        catalog[j] == q,
        forall|k: int| 0 <= k < j ==> catalog[k] != q,
    ensures
        first_match(catalog, q) == j,
    decreases j,
{
    if j == 0 {
    } else {
        assert(catalog[0] != q);
        let d = catalog.drop_first();
        assert(d[j - 1] == q);
        assert(forall|k: int| 0 <= k < j - 1 ==> d[k] == catalog[k + 1] && d[k] != q);
        lemma_first_match_at(d, q, j - 1);
    }
}

/// Across shuffles and cursor movement, the file-backed generator names one
/// query text by one stable index: the index a call returns is a function of
/// the catalog and the returned text alone, and the catalog never changes.
pub proof fn lemma_query_id_stable(
    g1: FileSourceQueryGenerator,
    p1: FileSourceQueryGenerator,
    r1: (Option<usize>, String),
    g2: FileSourceQueryGenerator,
    p2: FileSourceQueryGenerator,
    r2: (Option<usize>, String),
)
    requires
        g1.next_ens(p1, r1),
        g2.next_ens(p2, r2),
        g1.catalog() == g2.catalog(),
        r1.1@ == r2.1@,
    ensures
        r1.0 == r2.0,
        p1.catalog() == g1.catalog(),
        p2.catalog() == g2.catalog(),
{
}

} // verus!
