//! One catalog rebuild: what a scan found, which extraction job gets which
//! id, which records survive extraction, and what is then written.
use crate::model::{LibraryInfo, MediaInfo};
use crate::persist::{chunk_ok, tiles_rows};
use crate::query::{arg_views, SqlArg, SqlStatement};
use vstd::prelude::*;

verus! {

/// The libraries that have files, in configured order.
pub open spec fn libraries_with_files(s: Seq<(LibraryInfo, Vec<String>)>) -> Seq<
    (LibraryInfo, Vec<String>),
>
    decreases s.len(),
{
    if s.len() == 0 {
        s
    } else {
        let rest = libraries_with_files(s.drop_first());
        if s[0].1@.len() > 0 {
            seq![s[0]] + rest
        } else {
            rest
        }
    }
}

/// How many files all libraries hold together.
pub open spec fn total_files(s: Seq<(LibraryInfo, Vec<String>)>) -> int
    decreases s.len(),
{
    if s.len() == 0 {
        0
    } else {
        s[0].1@.len() + total_files(s.drop_first())
    }
}

/// What a scan of every library gives: the libraries that have files, each
/// with its files, and how many files there are in all.
pub fn scan_summary(fetched: Vec<(LibraryInfo, Vec<String>)>) -> (r: (
    Vec<(LibraryInfo, Vec<String>)>,
    usize,
))
    requires
        total_files(fetched@) <= usize::MAX,
    ensures
        r.0@ == libraries_with_files(fetched@),
        r.1 == total_files(fetched@),
{
    let ghost all = fetched@;
    let mut rest = fetched;
    let mut out: Vec<(LibraryInfo, Vec<String>)> = Vec::new();
    let mut total: usize = 0;
    while rest.len() > 0
        invariant
            libraries_with_files(all) == out@ + libraries_with_files(rest@),
            total_files(all) == total + total_files(rest@),
            total_files(all) <= usize::MAX,
        decreases rest@.len(),
    {
        let ghost before = rest@;
        proof {
            lemma_total_files_nonneg(before.drop_first());
        }
        let item = rest.remove(0);
        proof {
            assert(rest@ =~= before.drop_first());
        }
        total = total + item.1.len();
        if item.1.len() > 0 {
            proof {
                assert(out@.push(item) + libraries_with_files(rest@) =~= out@ + (seq![item]
                    + libraries_with_files(rest@)));
            }
            out.push(item);
        }
    }
    proof {
        assert(out@ + libraries_with_files(rest@) =~= out@);
    }
    (out, total)
}

proof fn lemma_total_files_nonneg(s: Seq<(LibraryInfo, Vec<String>)>)
    ensures
        total_files(s) >= 0,
    decreases s.len(),
{
    if s.len() > 0 {
        lemma_total_files_nonneg(s.drop_first());
    }
}

/// One extraction to run: the file `file` of library `library` (positions in
/// the scan), to be recorded under `id`.
#[derive(Debug, Clone, Copy, PartialEq, Eq, Structural)]
pub struct ExtractionJob {
    pub library: usize,
    pub file: usize,
    pub id: i64,
}

/// The files of libraries with `lens[l]` files each, library by library and
/// file by file: the order ids are handed out in.
pub open spec fn job_slots(lens: Seq<int>) -> Seq<(int, int)>
    decreases lens.len(),
{
    if lens.len() == 0 {
        Seq::empty()
    } else {
        job_slots(lens.drop_last()) + Seq::new(
            lens.last() as nat,
            |f: int| ((lens.len() - 1) as int, f),
        )
    }
}

pub open spec fn file_counts(s: Seq<(LibraryInfo, Vec<String>)>) -> Seq<int> {
    s.map_values(|e: (LibraryInfo, Vec<String>)| e.1@.len() as int)
}

/// The extraction jobs of a scan: one per file, in library order and then
/// file order, with ids counting up from 1 in that order.
pub fn extraction_jobs(library_paths: &Vec<(LibraryInfo, Vec<String>)>) -> (r: Vec<ExtractionJob>)
    requires
        job_slots(file_counts(library_paths@)).len() < i64::MAX,
    ensures
        r@.len() == job_slots(file_counts(library_paths@)).len(),
        forall|t: int|
            0 <= t < r@.len() ==> (#[trigger] r@[t]).library == job_slots(
                file_counts(library_paths@),
            )[t].0 && r@[t].file == job_slots(file_counts(library_paths@))[t].1 && r@[t].id
                == t + 1,
{
    let ghost counts = file_counts(library_paths@);
    let mut r: Vec<ExtractionJob> = Vec::new();
    let mut l: usize = 0;
    proof {
        lemma_job_slots_grow(counts, counts.len() as int);
    }
    while l < library_paths.len()
        invariant
            l <= library_paths@.len(),
            counts == file_counts(library_paths@),
            job_slots(counts).len() < i64::MAX,
            r@.len() == job_slots(counts.subrange(0, l as int)).len(),
            forall|t: int|
                0 <= t < r@.len() ==> (#[trigger] r@[t]).library == job_slots(
                    counts.subrange(0, l as int),
                )[t].0 && r@[t].file == job_slots(counts.subrange(0, l as int))[t].1
                    && r@[t].id == t + 1,
        decreases library_paths@.len() - l,
    {
        let n = library_paths[l].1.len();
        let ghost base = r@.len();
        let ghost next = counts.subrange(0, l as int + 1);
        proof {
            assert(next.drop_last() =~= counts.subrange(0, l as int));
            assert(next.last() == n);
            lemma_job_slots_grow(counts, l as int + 1);
            assert(job_slots(next).len() == base + n);
        }
        let mut f: usize = 0;
        while f < n
            invariant
                f <= n,
                l < library_paths@.len(),
                n == next.last(),
                next.len() == l + 1,
                next.drop_last() == counts.subrange(0, l as int),
                base == job_slots(counts.subrange(0, l as int)).len(),
                job_slots(next).len() == base + n,
                job_slots(next).len() <= job_slots(counts).len(),
                job_slots(counts).len() < i64::MAX,
                r@.len() == base + f,
                forall|t: int|
                    0 <= t < r@.len() ==> (#[trigger] r@[t]).library == job_slots(next)[t].0
                        && r@[t].file == job_slots(next)[t].1 && r@[t].id == t + 1,
            decreases n - f,
        {
            let id = (r.len() as u64 + 1) as i64;
            r.push(ExtractionJob { library: l, file: f, id });
            f = f + 1;
        }
        l = l + 1;
    }
    proof {
        assert(counts.subrange(0, counts.len() as int) =~= counts);
    }
    r
}

/// Slots of a prefix of the libraries come first among all slots.
proof fn lemma_job_slots_grow(counts: Seq<int>, l: int)
    requires
        0 <= l <= counts.len(),
        forall|i: int| 0 <= i < counts.len() ==> counts[i] >= 0,
    ensures
        job_slots(counts.subrange(0, l)).len() <= job_slots(counts).len(),
        forall|t: int|
            0 <= t < job_slots(counts.subrange(0, l)).len() ==> #[trigger] job_slots(
                counts.subrange(0, l),
            )[t] == job_slots(counts)[t],
    decreases counts.len() - l,
{
    if l < counts.len() {
        lemma_job_slots_grow(counts, l + 1);
        let p = counts.subrange(0, l + 1);
        assert(p.drop_last() =~= counts.subrange(0, l));
        let a = job_slots(counts.subrange(0, l));
        assert forall|t: int| 0 <= t < a.len() implies #[trigger] a[t] == job_slots(counts)[t] by {
            assert(job_slots(p)[t] == a[t]);
        }
    } else {
        assert(counts.subrange(0, l) =~= counts);
    }
}

/// The records of the extractions that succeeded, in job order.
pub open spec fn successes(s: Seq<Option<MediaInfo>>) -> Seq<MediaInfo>
    decreases s.len(),
{
    if s.len() == 0 {
        Seq::empty()
    } else {
        let rest = successes(s.drop_first());
        match s[0] {
            Some(m) => seq![m] + rest,
            None => rest,
        }
    }
}

/// How many extractions failed.
pub open spec fn failures(s: Seq<Option<MediaInfo>>) -> int
    decreases s.len(),
{
    if s.len() == 0 {
        0
    } else {
        (if s[0] is None {
            1int
        } else {
            0int
        }) + failures(s.drop_first())
    }
}

/// Some record has at least one category.
pub open spec fn any_category(ms: Seq<MediaInfo>) -> bool {
    exists|i: int| 0 <= i < ms.len() && (#[trigger] ms[i]).categories@.len() > 0
}

/// Keeps the records of the extractions that succeeded, dropping failed
/// ones, and tells whether any kept record has a category.
pub fn collect_medias(outcomes: Vec<Option<MediaInfo>>) -> (r: (Vec<MediaInfo>, bool))
    ensures
        r.0@ == successes(outcomes@),
        r.1 == any_category(successes(outcomes@)),
{
    let ghost all = outcomes@;
    let mut rest = outcomes;
    let mut out: Vec<MediaInfo> = Vec::new();
    let mut have_category = false;
    while rest.len() > 0
        invariant
            successes(all) == out@ + successes(rest@),
            have_category == any_category(out@),
        decreases rest@.len(),
    {
        let ghost before = rest@;
        let item = rest.remove(0);
        proof {
            assert(rest@ =~= before.drop_first());
        }
        match item {
            Some(m) => {
                let with_categories = m.categories.len() > 0;
                proof {
                    assert(out@.push(m) + successes(rest@) =~= out@ + (seq![m] + successes(
                        rest@,
                    )));
                    let o2 = out@.push(m);
                    if with_categories {
                        assert(o2[o2.len() - 1].categories@.len() > 0);
                    }
                    if any_category(o2) && !with_categories {
                        let i = choose|i: int|
                            0 <= i < o2.len() && (#[trigger] o2[i]).categories@.len() > 0;
                        assert(out@[i] == o2[i]);
                    }
                    if any_category(out@) {
                        let i = choose|i: int|
                            0 <= i < out@.len() && (#[trigger] out@[i]).categories@.len() > 0;
                        assert(o2[i] == out@[i]);
                    }
                }
                have_category = have_category || with_categories;
                out.push(m);
            },
            None => {},
        }
    }
    proof {
        assert(out@ + successes(rest@) =~= out@);
    }
    (out, have_category)
}

/// A failed extraction drops its file and nothing else: the catalog holds
/// one record for each extraction that succeeded.
pub proof fn lemma_failed_extractions_dropped(s: Seq<Option<MediaInfo>>)
    ensures
        successes(s).len() == s.len() - failures(s),
    decreases s.len(),
{
    if s.len() > 0 {
        lemma_failed_extractions_dropped(s.drop_first());
    }
}

/// Rebuilding from the same records writes the same thing: two statement
/// lists that both insert rows `rows`, `k` to a statement, are identical in
/// text and bound values.
pub proof fn lemma_rebuild_is_repeatable(
    a: Seq<SqlStatement>,
    b: Seq<SqlStatement>,
    head: Seq<char>,
    row_sql: Seq<char>,
    rows: Seq<Seq<SqlArg>>,
    k: int,
)
    requires
        k >= 1,
        tiles_rows(a, head, row_sql, rows, k),
        tiles_rows(b, head, row_sql, rows, k),
    ensures
        a.len() == b.len(),
        forall|j: int|
            0 <= j < a.len() ==> (#[trigger] a[j]).sql@ == b[j].sql@ && arg_views(a[j].binds@)
                == arg_views(b[j].binds@),
{
    if a.len() < b.len() {
        assert(a.len() * k <= (b.len() - 1) * k) by (nonlinear_arith)
            requires
                a.len() <= b.len() - 1,
                k >= 1,
        ;
    }
    if b.len() < a.len() {
        assert(b.len() * k <= (a.len() - 1) * k) by (nonlinear_arith)
            requires
                b.len() <= a.len() - 1,
                k >= 1,
        ;
    }
    assert forall|j: int| 0 <= j < a.len() implies (#[trigger] a[j]).sql@ == b[j].sql@
        && arg_views(a[j].binds@) == arg_views(b[j].binds@) by {
        assert(chunk_ok(a[j], head, row_sql, rows, k, j));
        assert(chunk_ok(b[j], head, row_sql, rows, k, j));
    }
}

} // verus!
