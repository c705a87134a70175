//! The catalog's SQL: schema, chunked bulk inserts, and the statements behind
//! facet aggregation, listing, search, counting and point lookups. Column and
//! table names come from the facet tag alone; every value, search text
//! included, travels as a bound parameter.
use crate::model::{matches_search, Column, MediaInfo, Source};
use crate::text::{is_blank, is_blank_text, join_text, views};
use vstd::prelude::*;

verus! {

/// The most parameters one statement may bind.
pub const MAX_BINDS: usize = 999;

/// Parameters bound to one catalog row.
pub const MEDIA_ROW_BINDS: usize = 18;

/// Parameters bound to one category edge.
pub const CATEGORY_ROW_BINDS: usize = 2;

/// A value bound to a statement parameter.
#[derive(Debug, Clone, PartialEq)]
pub enum SqlValue {
    Int(i64),
    Text(String),
    Null,
}

/// What a bound value is, as a mathematical value.
pub enum SqlArg {
    Int(int),
    Text(Seq<char>),
    Null,
}

impl View for SqlValue {
    type V = SqlArg;

    open spec fn view(&self) -> SqlArg {
        match self {
            SqlValue::Int(n) => SqlArg::Int(*n as int),
            SqlValue::Text(s) => SqlArg::Text(s@),
            SqlValue::Null => SqlArg::Null,
        }
    }
}

/// One statement: its text, with a `?` for each parameter, and the values
/// bound to them in order.
#[derive(Debug)]
pub struct SqlStatement {
    pub sql: String,
    pub binds: Vec<SqlValue>,
}

pub open spec fn arg_views(v: Seq<SqlValue>) -> Seq<SqlArg> {
    v.map_values(|x: SqlValue| x@)
}

/// The column's name in the schema.
pub open spec fn column_name(c: Column) -> Seq<char> {
    match c {
        Column::Library => "library"@,
        Column::CategoryTitle => "category_title"@,
        Column::Album => "album"@,
        Column::Artist => "artist"@,
        Column::Genre => "genre"@,
        Column::Year => "year"@,
    }
}

fn column_text(c: Column) -> (r: &'static str)
    ensures
        r@ == column_name(c),
{
    match c {
        Column::Library => "library",
        Column::CategoryTitle => "category_title",
        Column::Album => "album",
        Column::Artist => "artist",
        Column::Genre => "genre",
        Column::Year => "year",
    }
}

/// The column a facet aggregation groups by; none for `Any`.
pub open spec fn group_column(s: Source) -> Option<Seq<char>> {
    match s {
        Source::Any => None,
        Source::Library(_) => Some("library"@),
        Source::Category(_) => Some("category_title"@),
        Source::Album(_) => Some("album"@),
        Source::Artist(_) => Some("artist"@),
        Source::Genre(_) => Some("genre"@),
        Source::Year(_) => Some("year"@),
    }
}

/// The clause that ends a facet aggregation: the unknown year is left out
/// of the year facet before grouping.
pub open spec fn group_clause(s: Source) -> Seq<char> {
    match s {
        Source::Any => Seq::empty(),
        Source::Year(_) => " WHERE year > 0 GROUP BY year"@,
        _ => " GROUP BY "@ + group_column(s)->0,
    }
}

/// The table a facet aggregation reads.
pub open spec fn facet_table(s: Source) -> Seq<char> {
    match s {
        Source::Category(_) => "media_categories"@,
        _ => "medias"@,
    }
}

/// The label a facet aggregation reports for each group.
pub open spec fn facet_label(s: Source) -> Seq<char> {
    match s {
        Source::Category(_) => "category_title"@,
        Source::Album(_) => "album"@,
        Source::Artist(_) => "artist"@,
        Source::Genre(_) => "genre"@,
        Source::Year(_) => "CAST(year AS TEXT)"@,
        _ => "library"@,
    }
}

/// The column counted, each distinct value once, for a facet's total.
pub open spec fn facet_count_column(s: Source) -> Seq<char> {
    match s {
        Source::Year(_) => "year"@,
        _ => facet_label(s),
    }
}

/// The equality filter a selector asks for: its column and the value bound
/// to it. A facet without a value, or the year 0, filters nothing.
pub open spec fn filter_of(s: Source) -> Option<(Seq<char>, SqlArg)> {
    match s {
        Source::Any => None,
        Source::Library(v) => match v {
            Some(t) => Some(("library"@, SqlArg::Text(t@))),
            None => None,
        },
        Source::Category(v) => match v {
            Some(t) => Some(("category_title"@, SqlArg::Text(t@))),
            None => None,
        },
        Source::Album(v) => match v {
            Some(t) => Some(("album"@, SqlArg::Text(t@))),
            None => None,
        },
        Source::Artist(v) => match v {
            Some(t) => Some(("artist"@, SqlArg::Text(t@))),
            None => None,
        },
        Source::Genre(v) => match v {
            Some(t) => Some(("genre"@, SqlArg::Text(t@))),
            None => None,
        },
        Source::Year(y) => if y > 0 {
            Some(("year"@, SqlArg::Int(y as int)))
        } else {
            None
        },
    }
}

/// The column a selector's equality filter is on, where it has one.
pub open spec fn filter_column(s: Source) -> Option<Seq<char>> {
    match filter_of(s) {
        Some(f) => Some(f.0),
        None => None,
    }
}

/// The free-text predicate: the token, bound four times, must occur
/// case-sensitively in the title, album, artist or genre.
pub open spec fn search_predicate() -> Seq<char> {
    "(instr(title, ?) > 0 OR instr(album, ?) > 0 OR instr(artist, ?) > 0 OR instr(genre, ?) > 0)"@
}

/// The search token a listing applies: the text given, unless it is missing
/// or blank.
pub open spec fn search_of(to_search: Option<&str>) -> Option<Seq<char>> {
    match to_search {
        Some(t) => if is_blank_text(t@) {
            None
        } else {
            Some(t@)
        },
        None => None,
    }
}

/// The `WHERE` clause of a listing: the equality filter and the search
/// predicate, joined by `AND` when both apply, and nothing when neither does.
pub open spec fn where_sql(s: Source, search: Option<Seq<char>>) -> Seq<char> {
    match (filter_of(s), search) {
        (None, None) => Seq::empty(),
        (Some(f), None) => " WHERE "@ + f.0 + " = ?"@,
        (None, Some(_)) => " WHERE "@ + search_predicate(),
        (Some(f), Some(_)) => " WHERE "@ + f.0 + " = ?"@ + " AND "@ + search_predicate(),
    }
}

/// The values bound by a listing's `WHERE` clause, in order.
pub open spec fn where_args(s: Source, search: Option<Seq<char>>) -> Seq<SqlArg> {
    let f = match filter_of(s) {
        Some(f) => seq![f.1],
        None => Seq::empty(),
    };
    let t = match search {
        Some(t) => seq![SqlArg::Text(t), SqlArg::Text(t), SqlArg::Text(t), SqlArg::Text(t)],
        None => Seq::empty(),
    };
    f + t
}

/// The rows a listing starts from: records, joined to their category edges
/// for the category facet.
pub open spec fn medias_from(s: Source) -> Seq<char> {
    match s {
        Source::Category(_) => " FROM medias INNER JOIN media_categories ON media_categories.media_id = medias.id"@,
        _ => " FROM medias"@,
    }
}

/// The page clause; its two parameters are the limit and the offset.
pub open spec fn page_clause() -> Seq<char> {
    " LIMIT ? OFFSET ?"@
}

/// The page's bound values: `limit` rows from row `index * limit` on.
pub open spec fn page_args(index: int, limit: int) -> Seq<SqlArg> {
    seq![SqlArg::Int(limit), SqlArg::Int(index * limit)]
}

/// A page can be bound: the limit and the offset fit in a signed 64-bit
/// parameter.
pub open spec fn page_fits(index: usize, limit: usize) -> bool {
    limit <= i64::MAX && index * limit <= i64::MAX
}

/// Appends `b` to `a`.
fn push_text(a: &mut String, b: &str)
    ensures
        final(a)@ == old(a)@ + b@,
{
    let s = join_text(a.as_str(), b);
    *a = s;
}

/// The text of the filter/search part of a listing, and its bound values.
/// `main` is the statement's head.
pub fn get_medias_core_query(main: &str, source: Source, to_search: Option<&str>) -> (r:
    SqlStatement)
    ensures
        r.sql@ == main@ + where_sql(source, search_of(to_search)),
        arg_views(r.binds@) == where_args(source, search_of(to_search)),
{
    let search = match to_search {
        Some(t) => if is_blank(t) {
            None
        } else {
            Some(t)
        },
        None => None,
    };
    let filter: Option<(&str, SqlValue)> = match source {
        Source::Any => None,
        Source::Library(v) => match v {
            Some(t) => Some(("library", SqlValue::Text(t.to_owned()))),
            None => None,
        },
        Source::Category(v) => match v {
            Some(t) => Some(("category_title", SqlValue::Text(t.to_owned()))),
            None => None,
        },
        Source::Album(v) => match v {
            Some(t) => Some(("album", SqlValue::Text(t.to_owned()))),
            None => None,
        },
        Source::Artist(v) => match v {
            Some(t) => Some(("artist", SqlValue::Text(t.to_owned()))),
            None => None,
        },
        Source::Genre(v) => match v {
            Some(t) => Some(("genre", SqlValue::Text(t.to_owned()))),
            None => None,
        },
        Source::Year(y) => if y > 0 {
            Some(("year", SqlValue::Int(y as i64)))
        } else {
            None
        },
    };
    let ghost fs = filter_of(source);
    assert(match filter {
        Some(f) => fs == Some((f.0@, f.1@)),
        None => fs is None,
    });
    let mut sql = main.to_owned();
    let mut binds: Vec<SqlValue> = Vec::new();
    let has_filter = filter.is_some();
    if has_filter || search.is_some() {
        push_text(&mut sql, " WHERE ");
    }
    match filter {
        Some((col, value)) => {
            push_text(&mut sql, col);
            push_text(&mut sql, " = ?");
            binds.push(value);
        },
        None => {},
    }
    match search {
        Some(t) => {
            if has_filter {
                push_text(&mut sql, " AND ");
            }
            push_text(
                &mut sql,
                "(instr(title, ?) > 0 OR instr(album, ?) > 0 OR instr(artist, ?) > 0 OR instr(genre, ?) > 0)",
            );
            binds.push(SqlValue::Text(t.to_owned()));
            binds.push(SqlValue::Text(t.to_owned()));
            binds.push(SqlValue::Text(t.to_owned()));
            binds.push(SqlValue::Text(t.to_owned()));
        },
        None => {},
    }
    proof {
        let ws = where_sql(source, search_of(to_search));
        assert(sql@ =~= main@ + ws);
        assert(arg_views(binds@) =~= where_args(source, search_of(to_search)));
    }
    SqlStatement { sql, binds }
}

/// The full text of a facet aggregation page.
pub open spec fn sources_sql(s: Source) -> Seq<char> {
    "SELECT COUNT(1) AS count, "@ + facet_label(s) + " AS label FROM "@ + facet_table(s)
        + group_clause(s) + " ORDER BY label"@ + page_clause()
}

/// The full text of a facet's total: how many distinct groups it has.
pub open spec fn total_source_sql(s: Source) -> Seq<char> {
    "SELECT COUNT(DISTINCT "@ + facet_count_column(s) + ") AS count FROM "@ + facet_table(s) + (
    match s {
        Source::Year(_) => " WHERE year > 0"@,
        _ => Seq::empty(),
    })
}

/// The full text of a listing page; rows come in id order, so pages tile.
pub open spec fn medias_sql(s: Source, search: Option<Seq<char>>) -> Seq<char> {
    "SELECT medias.*"@ + medias_from(s) + where_sql(s, search) + " ORDER BY medias.id"@
        + page_clause()
}

/// The full text of a listing's total.
pub open spec fn total_media_sql(s: Source, search: Option<Seq<char>>) -> Seq<char> {
    "SELECT COUNT(1) AS count"@ + medias_from(s) + where_sql(s, search)
}

/// The grouping part of a facet aggregation after `main`.
pub fn get_sources_core_query(main: &str, source: Source) -> (r: SqlStatement)
    ensures
        r.sql@ == main@ + group_clause(source),
        r.binds@.len() == 0,
{
    let mut sql = main.to_owned();
    match source {
        Source::Any => {},
        Source::Year(_) => {
            push_text(&mut sql, " WHERE year > 0 GROUP BY year");
        },
        _ => {
            push_text(&mut sql, " GROUP BY ");
            let col = match source.column() {
                Some(c) => c,
                None => Column::Library,
            };
            push_text(&mut sql, column_text(col));
        },
    }
    proof {
        assert(sql@ =~= main@ + group_clause(source));
    }
    SqlStatement { sql, binds: Vec::new() }
}

fn facet_label_text(source: Source) -> (r: &'static str)
    ensures
        r@ == facet_label(source),
{
    match source {
        Source::Category(_) => "category_title",
        Source::Album(_) => "album",
        Source::Artist(_) => "artist",
        Source::Genre(_) => "genre",
        Source::Year(_) => "CAST(year AS TEXT)",
        _ => "library",
    }
}

fn facet_table_text(source: Source) -> (r: &'static str)
    ensures
        r@ == facet_table(source),
{
    match source {
        Source::Category(_) => "media_categories",
        _ => "medias",
    }
}

fn medias_from_text(source: Source) -> (r: &'static str)
    ensures
        r@ == medias_from(source),
{
    match source {
        Source::Category(_) => " FROM medias INNER JOIN media_categories ON media_categories.media_id = medias.id",
        _ => " FROM medias",
    }
}

/// Appends the page clause and its values.
fn push_page(st: &mut SqlStatement, index: usize, limit: usize)
    requires
        page_fits(index, limit),
    ensures
        final(st).sql@ == old(st).sql@ + page_clause(),
        arg_views(final(st).binds@) == arg_views(old(st).binds@) + page_args(
            index as int,
            limit as int,
        ),
{
    push_text(&mut st.sql, " LIMIT ? OFFSET ?");
    let ghost before = st.binds@;
    st.binds.push(SqlValue::Int(limit as i64));
    st.binds.push(SqlValue::Int(((index as u64) * (limit as u64)) as i64));
    proof {
        assert(arg_views(st.binds@) =~= arg_views(before) + page_args(index as int, limit as int));
    }
}

/// One page of a facet aggregation: for each group of the facet, how many
/// records (or, for categories, edges) it holds, `limit` groups from group
/// `index * limit` on.
pub fn get_sources_query(source: Source, index: usize, limit: usize) -> (r: SqlStatement)
    requires
        page_fits(index, limit),
    ensures
        r.sql@ == sources_sql(source),
        arg_views(r.binds@) == page_args(index as int, limit as int),
{
    let head = join_text("SELECT COUNT(1) AS count, ", facet_label_text(source));
    let mut main = join_text(head.as_str(), " AS label FROM ");
    push_text(&mut main, facet_table_text(source));
    let mut st = get_sources_core_query(main.as_str(), source);
    push_text(&mut st.sql, " ORDER BY label");
    push_page(&mut st, index, limit);
    proof {
        assert(st.sql@ =~= sources_sql(source));
        assert(arg_views(st.binds@) =~= page_args(index as int, limit as int));
    }
    st
}

/// How many groups a facet has.
pub fn get_total_source_query(source: Source) -> (r: SqlStatement)
    ensures
        r.sql@ == total_source_sql(source),
        r.binds@.len() == 0,
{
    let col = match source {
        Source::Year(_) => "year",
        _ => facet_label_text(source),
    };
    let mut sql = join_text("SELECT COUNT(DISTINCT ", col);
    push_text(&mut sql, ") AS count FROM ");
    push_text(&mut sql, facet_table_text(source));
    match source {
        Source::Year(_) => {
            push_text(&mut sql, " WHERE year > 0");
        },
        _ => {},
    }
    proof {
        assert(sql@ =~= total_source_sql(source));
    }
    SqlStatement { sql, binds: Vec::new() }
}

/// One page of the records a selector and an optional search token pick,
/// in id order: `limit` rows from row `index * limit` on.
pub fn get_medias_query(source: Source, to_search: Option<&str>, index: usize, limit: usize) -> (r:
    SqlStatement)
    requires
        page_fits(index, limit),
    ensures
        r.sql@ == medias_sql(source, search_of(to_search)),
        arg_views(r.binds@) == where_args(source, search_of(to_search)) + page_args(
            index as int,
            limit as int,
        ),
{
    let main = join_text("SELECT medias.*", medias_from_text(source));
    let mut st = get_medias_core_query(main.as_str(), source, to_search);
    push_text(&mut st.sql, " ORDER BY medias.id");
    push_page(&mut st, index, limit);
    proof {
        assert(st.sql@ =~= medias_sql(source, search_of(to_search)));
    }
    st
}

/// How many rows the listing for a selector and search token has.
pub fn get_total_media_query(source: Source, to_search: Option<&str>) -> (r: SqlStatement)
    ensures
        r.sql@ == total_media_sql(source, search_of(to_search)),
        arg_views(r.binds@) == where_args(source, search_of(to_search)),
{
    let main = join_text("SELECT COUNT(1) AS count", medias_from_text(source));
    let st = get_medias_core_query(main.as_str(), source, to_search);
    proof {
        assert(st.sql@ =~= total_media_sql(source, search_of(to_search)));
    }
    st
}

/// What a point lookup by id reads.
#[derive(Debug, Clone, Copy, PartialEq, Eq, Structural)]
pub enum Lookup {
    File,
    Cover,
    Record,
    Categories,
}

/// The text of a point lookup; its one parameter is the id.
pub open spec fn lookup_sql(what: Lookup) -> Seq<char> {
    match what {
        Lookup::File => "SELECT path FROM medias WHERE id = ? LIMIT 1"@,
        Lookup::Cover => "SELECT cover_path FROM medias WHERE id = ? LIMIT 1"@,
        Lookup::Record => "SELECT * FROM medias WHERE id = ? LIMIT 1"@,
        Lookup::Categories => "SELECT category_title FROM media_categories WHERE media_id = ?"@,
    }
}

/// A point lookup of the record with id `id`: its file, its cover, the whole
/// row, or its categories.
pub fn lookup_query(what: Lookup, id: i64) -> (r: SqlStatement)
    ensures
        r.sql@ == lookup_sql(what),
        arg_views(r.binds@) == seq![SqlArg::Int(id as int)],
{
    let text = match what {
        Lookup::File => "SELECT path FROM medias WHERE id = ? LIMIT 1",
        Lookup::Cover => "SELECT cover_path FROM medias WHERE id = ? LIMIT 1",
        Lookup::Record => "SELECT * FROM medias WHERE id = ? LIMIT 1",
        Lookup::Categories => "SELECT category_title FROM media_categories WHERE media_id = ?",
    };
    let mut binds: Vec<SqlValue> = Vec::new();
    binds.push(SqlValue::Int(id));
    proof {
        assert(arg_views(binds@) =~= seq![SqlArg::Int(id as int)]);
    }
    SqlStatement { sql: text.to_owned(), binds }
}

/// For every selector but the category one, a facet aggregation groups by
/// the very column a listing of that facet filters on.
pub proof fn lemma_facet_groups_by_filter_column(s: Source)
    requires
        !(s is Category),
    ensures
        filter_column(s) is Some ==> group_column(s) == filter_column(s),
        group_column(s) is None <==> s is Any,
{
}

/// Whether a listing's equality filter lets record `m` through.
pub open spec fn filter_admits(m: MediaInfo, s: Source) -> bool {
    match s {
        Source::Any => true,
        Source::Library(v) => v is None || m.library@ == v->0@,
        Source::Category(v) => v is None || views(m.categories@).contains(v->0@),
        Source::Album(v) => v is None || m.album@ == v->0@,
        Source::Artist(v) => v is None || m.artist@ == v->0@,
        Source::Genre(v) => v is None || m.genre@ == v->0@,
        Source::Year(y) => y == 0 || m.year == y,
    }
}

/// Whether a listing with selector `s` and search token `search` shows `m`.
pub open spec fn listing_admits(m: MediaInfo, s: Source, search: Option<Seq<char>>) -> bool {
    filter_admits(m, s) && match search {
        Some(t) => matches_search(m, t),
        None => true,
    }
}

/// Whether record `m` is counted in the year facet: the unknown year is not.
pub open spec fn counted_in_year_facet(m: MediaInfo) -> bool {
    m.year > 0
}

/// A record of unknown year (0) is in no group of the year facet, and no
/// listing filtered to a year shows it; the year facet's statements leave
/// year 0 out before grouping and before counting, and a year filter binds
/// only a known year.
pub proof fn lemma_unknown_year_excluded(m: MediaInfo, y: u32, search: Option<Seq<char>>)
    requires
        m.year == 0,
        y > 0,
    ensures
        !counted_in_year_facet(m),
        !listing_admits(m, Source::Year(y), search),
        group_clause(Source::Year(y)) == " WHERE year > 0 GROUP BY year"@,
        total_source_sql(Source::Year(y)) == "SELECT COUNT(DISTINCT "@ + "year"@
            + ") AS count FROM "@ + "medias"@ + " WHERE year > 0"@,
        filter_of(Source::Year(y)) == Some(("year"@, SqlArg::Int(y as int))),
        filter_of(Source::Year(0)) is None,
{
}

/// Rows `index * limit` up to `index * limit + limit` of `rows`, as far as
/// there are rows: what `LIMIT limit OFFSET index * limit` keeps.
pub open spec fn page_of<A>(rows: Seq<A>, index: int, limit: int) -> Seq<A> {
    let n = rows.len() as int;
    let lo = if index * limit < n {
        index * limit
    } else {
        n
    };
    let hi = if index * limit + limit < n {
        index * limit + limit
    } else {
        n
    };
    rows.subrange(lo, hi)
}

/// The first `k` pages, one after another.
pub open spec fn first_pages<A>(rows: Seq<A>, limit: int, k: nat) -> Seq<A>
    decreases k,
{
    if k == 0 {
        Seq::empty()
    } else {
        first_pages(rows, limit, (k - 1) as nat) + page_of(rows, k - 1, limit)
    }
}

/// Pagination: page `i` holds rows `i * limit` up to `i * limit + limit` of
/// the unpaged order, so consecutive pages tile the rows with no gap and no
/// overlap; the count statement is the same whatever the page.
pub proof fn lemma_pages_tile<A>(rows: Seq<A>, limit: int, k: nat, s: Source, search: Option<
    Seq<char>,
>)
    requires
        limit >= 0,
    ensures
        first_pages(rows, limit, k) == rows.subrange(
            0,
            if k * limit < rows.len() {
                k * limit
            } else {
                rows.len() as int
            },
        ),
        page_args(k as int, limit)[1] == SqlArg::Int(k * limit),
        total_media_sql(s, search) == "SELECT COUNT(1) AS count"@ + medias_from(s) + where_sql(
            s,
            search,
        ),
    decreases k,
{
    if k > 0 {
        lemma_pages_tile(rows, limit, (k - 1) as nat, s, search);
        assert(k * limit == (k - 1) * limit + limit) by (nonlinear_arith);
        assert((k - 1) * limit >= 0) by (nonlinear_arith)
            requires
                k >= 1,
                limit >= 0,
        ;
        let n = rows.len() as int;
        let a = if (k - 1) * limit < n {
            (k - 1) * limit
        } else {
            n
        };
        let b = if k * limit < n {
            k * limit
        } else {
            n
        };
        assert(rows.subrange(0, a) + rows.subrange(a, b) =~= rows.subrange(0, b));
    } else {
        assert(rows.subrange(0, 0) =~= Seq::<A>::empty());
    }
}

} // verus!
