//! Persisting one catalog generation: the schema that is dropped and made
//! again, and bulk inserts split so that no statement binds more parameters
//! than the storage engine takes.
use crate::model::MediaInfo;
use crate::query::{
    arg_views, SqlArg, SqlStatement, SqlValue, CATEGORY_ROW_BINDS, MAX_BINDS, MEDIA_ROW_BINDS,
};
use crate::text::{join_text, views};
use vstd::prelude::*;

verus! {

/// The rows of a chunk, their values one after another.
pub open spec fn flatten(rows: Seq<Seq<SqlArg>>) -> Seq<SqlArg>
    decreases rows.len(),
{
    if rows.len() == 0 {
        Seq::empty()
    } else {
        flatten(rows.drop_last()) + rows.last()
    }
}

/// `count` copies of a row's placeholders, separated by commas.
pub open spec fn values_sql(row: Seq<char>, count: nat) -> Seq<char>
    decreases count,
{
    if count == 0 {
        Seq::empty()
    } else if count == 1 {
        row
    } else {
        values_sql(row, (count - 1) as nat) + ", "@ + row
    }
}

/// How many rows go in one statement when each binds `per_row` values.
pub open spec fn rows_per_statement(per_row: nat) -> nat {
    if per_row == 0 {
        0
    } else {
        MAX_BINDS as nat / per_row
    }
}

/// Where chunk `j` of `n` rows, `k` to a chunk, ends.
pub open spec fn chunk_end(n: int, k: int, j: int) -> int {
    if j * k + k < n {
        j * k + k
    } else {
        n
    }
}

pub open spec fn row_views(rows: Seq<Vec<SqlValue>>) -> Seq<Seq<SqlArg>> {
    rows.map_values(|r: Vec<SqlValue>| arg_views(r@))
}

/// The statements inserting `rows`, `k` to a statement, each one `head`
/// followed by its rows' placeholders: statement `j` binds the values of rows
/// `j * k` up to `chunk_end`, and together they cover every row once.
pub open spec fn tiles_rows(
    r: Seq<SqlStatement>,
    head: Seq<char>,
    row_sql: Seq<char>,
    rows: Seq<Seq<SqlArg>>,
    k: int,
) -> bool {
    &&& r.len() * k >= rows.len()
    &&& r.len() == 0 || (r.len() - 1) * k < rows.len()
    &&& forall|j: int| 0 <= j < r.len() ==> chunk_ok(#[trigger] r[j], head, row_sql, rows, k, j)
}

/// Statement `j` inserts rows `j * k` up to `chunk_end`, at least one, and
/// binds no more than `MAX_BINDS` values.
pub open spec fn chunk_ok(
    st: SqlStatement,
    head: Seq<char>,
    row_sql: Seq<char>,
    rows: Seq<Seq<SqlArg>>,
    k: int,
    j: int,
) -> bool {
    let lo = j * k;
    let hi = chunk_end(rows.len() as int, k, j);
    &&& lo < hi
    &&& st.sql@ == head + values_sql(row_sql, (hi - lo) as nat)
    &&& arg_views(st.binds@) == flatten(rows.subrange(lo, hi))
    &&& st.binds@.len() <= MAX_BINDS
}

fn copy_value(v: &SqlValue) -> (r: SqlValue)
    ensures
        r@ == v@,
{
    match v {
        SqlValue::Int(n) => SqlValue::Int(*n),
        SqlValue::Text(s) => SqlValue::Text(s.clone()),
        SqlValue::Null => SqlValue::Null,
    }
}

/// Splits the insertion of `rows`, each binding `per_row` values, into
/// statements `head` + placeholders that bind at most `MAX_BINDS` values.
pub fn chunk_insert(head: &str, row_sql: &str, rows: &Vec<Vec<SqlValue>>, per_row: usize) -> (r:
    Vec<SqlStatement>)
    requires
        1 <= per_row <= MAX_BINDS,
        forall|i: int| 0 <= i < rows@.len() ==> (#[trigger] rows@[i])@.len() == per_row,
    ensures
        tiles_rows(r@, head@, row_sql@, row_views(rows@), rows_per_statement(per_row as nat) as int),
{
    let k: usize = MAX_BINDS / per_row;
    let n = rows.len();
    let ghost rv = row_views(rows@);
    proof {
        assert(k >= 1) by {
            vstd::arithmetic::div_mod::lemma_div_is_ordered(per_row as int, MAX_BINDS as int, per_row as int);
            vstd::arithmetic::div_mod::lemma_div_basics(per_row as int);
        }
        assert(k * per_row <= MAX_BINDS) by {
            vstd::arithmetic::div_mod::lemma_fundamental_div_mod(MAX_BINDS as int, per_row as int);
            vstd::arithmetic::div_mod::lemma_mod_pos_bound(MAX_BINDS as int, per_row as int);
        }
    }
    let mut out: Vec<SqlStatement> = Vec::new();
    let mut start: usize = 0;
    while start < n
        invariant
            k >= 1,
            k * per_row <= MAX_BINDS,
            k == rows_per_statement(per_row as nat),
            n == rows@.len(),
            rv == row_views(rows@),
            1 <= per_row <= MAX_BINDS,
            forall|i: int| 0 <= i < rows@.len() ==> (#[trigger] rows@[i])@.len() == per_row,
            start == (if out@.len() * k < n {
                out@.len() * k
            } else {
                n as int
            }),
            out@.len() == 0 || (out@.len() - 1) * k < n,
            forall|t: int|
                0 <= t < out@.len() ==> chunk_ok(#[trigger] out@[t], head@, row_sql@, rv, k as int, t),
        decreases n - start,
    {
        let end: usize = if n - start > k {
            start + k
        } else {
            n
        };
        let ghost j = out@.len() as int;
        assert(end as int == chunk_end(n as int, k as int, j));
        let mut sql = head.to_owned();
        let mut binds: Vec<SqlValue> = Vec::new();
        let mut i: usize = start;
        proof {
            assert(rv.subrange(start as int, start as int) =~= Seq::<Seq<SqlArg>>::empty());
            assert(arg_views(binds@) =~= Seq::<SqlArg>::empty());
            assert(head@ + values_sql(row_sql@, 0) =~= head@);
        }
        while i < end
            invariant
                start <= i <= end <= n,
                end - start <= k,
                k * per_row <= MAX_BINDS,
                n == rows@.len(),
                rv == row_views(rows@),
                forall|t: int| 0 <= t < rows@.len() ==> (#[trigger] rows@[t])@.len() == per_row,
                sql@ == head@ + values_sql(row_sql@, (i - start) as nat),
                arg_views(binds@) == flatten(rv.subrange(start as int, i as int)),
                binds@.len() == (i - start) * per_row,
            decreases end - i,
        {
            if i > start {
                let s = join_text(sql.as_str(), ", ");
                sql = join_text(s.as_str(), row_sql);
            } else {
                sql = join_text(sql.as_str(), row_sql);
            }
            proof {
                assert(head@ + values_sql(row_sql@, (i + 1 - start) as nat) =~= sql@);
            }
            let row = &rows[i];
            let ghost before = binds@;
            let mut c: usize = 0;
            while c < row.len()
                invariant
                    c <= row@.len(),
                    binds@.len() == before.len() + c,
                    arg_views(binds@) == arg_views(before) + arg_views(row@.subrange(0, c as int)),
                decreases row@.len() - c,
            {
                let v = copy_value(&row[c]);
                proof {
                    assert(arg_views(row@.subrange(0, c as int + 1)) =~= arg_views(
                        row@.subrange(0, c as int),
                    ).push(v@));
                    assert(arg_views(binds@.push(v)) =~= arg_views(binds@).push(v@));
                }
                binds.push(v);
                c = c + 1;
            }
            proof {
                assert(row@.subrange(0, row@.len() as int) =~= row@);
                let sub = rv.subrange(start as int, i as int + 1);
                assert(sub.drop_last() =~= rv.subrange(start as int, i as int));
                assert(sub.last() == arg_views(rows@[i as int]@));
                assert((i + 1 - start) * per_row == (i - start) * per_row + per_row) by (
                nonlinear_arith);
            }
            i = i + 1;
        }
        proof {
            assert((end - start) * per_row <= k * per_row) by (nonlinear_arith)
                requires
                    end - start <= k,
            ;
            assert(start == j * k);
            assert((j + 1) * k == j * k + k) by (nonlinear_arith);
        }
        let ghost new_sql = sql@;
        let ghost new_binds = binds@;
        let ghost old_out = out@;
        out.push(SqlStatement { sql, binds });
        start = end;
        proof {
            assert(out@[j].sql@ == new_sql);
            assert(out@[j].binds@ == new_binds);
            assert forall|t: int| 0 <= t < out@.len() implies chunk_ok(
                #[trigger] out@[t],
                head@,
                row_sql@,
                rv,
                k as int,
                t,
            ) by {
                if t < j {
                    assert(out@[t] == old_out[t]);
                }
            }
            assert(out@.len() * k == j * k + k);
        }
    }
    proof {
        assert(out@.len() * k >= n);
    }
    out
}

pub open spec fn opt_text_arg(o: Option<String>) -> SqlArg {
    match o {
        Some(t) => SqlArg::Text(t@),
        None => SqlArg::Null,
    }
}

pub open spec fn opt_u32_arg(o: Option<u32>) -> SqlArg {
    match o {
        Some(v) => SqlArg::Int(v as int),
        None => SqlArg::Null,
    }
}

pub open spec fn opt_u8_arg(o: Option<u8>) -> SqlArg {
    match o {
        Some(v) => SqlArg::Int(v as int),
        None => SqlArg::Null,
    }
}

/// The values one record binds, in the column order of the insert.
pub open spec fn media_row_args(m: MediaInfo) -> Seq<SqlArg> {
    seq![
        SqlArg::Int(m.id as int),
        SqlArg::Text(m.path@),
        opt_text_arg(m.cover_path),
        opt_text_arg(m.cover_url),
        SqlArg::Text(m.title@),
        SqlArg::Text(m.library@),
        SqlArg::Text(m.album@),
        SqlArg::Text(m.artist@),
        SqlArg::Text(m.genre@),
        SqlArg::Int(m.year as int),
        opt_u32_arg(m.sample_rate),
        opt_u8_arg(m.bit_depth),
        opt_u32_arg(m.audio_bitrate),
        opt_u32_arg(m.overall_bitrate),
        opt_u8_arg(m.channels),
        SqlArg::Int(m.duration_seconds as int),
        SqlArg::Text(m.file_name@),
        SqlArg::Text(m.file_type@),
    ]
}

pub open spec fn media_rows(ms: Seq<MediaInfo>) -> Seq<Seq<SqlArg>> {
    ms.map_values(|m: MediaInfo| media_row_args(m))
}

/// The category edges of one record: its label and its id, one per category.
pub open spec fn edge_rows(m: MediaInfo) -> Seq<Seq<SqlArg>> {
    views(m.categories@).map_values(|c: Seq<char>| seq![SqlArg::Text(c), SqlArg::Int(m.id as int)])
}

/// The category edges of all records, record by record.
pub open spec fn category_rows(ms: Seq<MediaInfo>) -> Seq<Seq<SqlArg>>
    decreases ms.len(),
{
    if ms.len() == 0 {
        Seq::empty()
    } else {
        category_rows(ms.drop_last()) + edge_rows(ms.last())
    }
}

pub open spec fn medias_insert_head() -> Seq<char> {
    "INSERT INTO medias(id, path, cover_path, cover_url, title, library, album, artist, genre, year, sample_rate, bit_depth, audio_bitrate, overall_bitrate, channels, duration_seconds, file_name, file_type) VALUES "@
}

pub open spec fn media_placeholders() -> Seq<char> {
    "(?, ?, ?, ?, ?, ?, ?, ?, ?, ?, ?, ?, ?, ?, ?, ?, ?, ?)"@
}

pub open spec fn categories_insert_head() -> Seq<char> {
    "INSERT INTO media_categories(category_title, media_id) VALUES "@
}

pub open spec fn category_placeholders() -> Seq<char> {
    "(?, ?)"@
}

fn text_value(s: &String) -> (r: SqlValue)
    ensures
        r@ == SqlArg::Text(s@),
{
    SqlValue::Text(s.clone())
}

fn opt_text_value(o: &Option<String>) -> (r: SqlValue)
    ensures
        r@ == opt_text_arg(*o),
{
    match o {
        Some(t) => SqlValue::Text(t.clone()),
        None => SqlValue::Null,
    }
}

fn opt_u32_value(o: Option<u32>) -> (r: SqlValue)
    ensures
        r@ == opt_u32_arg(o),
{
    match o {
        Some(v) => SqlValue::Int(v as i64),
        None => SqlValue::Null,
    }
}

fn opt_u8_value(o: Option<u8>) -> (r: SqlValue)
    ensures
        r@ == opt_u8_arg(o),
{
    match o {
        Some(v) => SqlValue::Int(v as i64),
        None => SqlValue::Null,
    }
}

/// The values one record binds.
pub fn media_row(m: &MediaInfo) -> (r: Vec<SqlValue>)
    ensures
        arg_views(r@) == media_row_args(*m),
        r@.len() == MEDIA_ROW_BINDS,
{
    let mut r: Vec<SqlValue> = Vec::new();
    r.push(SqlValue::Int(m.id));
    r.push(text_value(&m.path));
    r.push(opt_text_value(&m.cover_path));
    r.push(opt_text_value(&m.cover_url));
    r.push(text_value(&m.title));
    r.push(text_value(&m.library));
    r.push(text_value(&m.album));
    r.push(text_value(&m.artist));
    r.push(text_value(&m.genre));
    r.push(SqlValue::Int(m.year as i64));
    r.push(opt_u32_value(m.sample_rate));
    r.push(opt_u8_value(m.bit_depth));
    r.push(opt_u32_value(m.audio_bitrate));
    r.push(opt_u32_value(m.overall_bitrate));
    r.push(opt_u8_value(m.channels));
    r.push(SqlValue::Int(m.duration_seconds as i64));
    r.push(text_value(&m.file_name));
    r.push(text_value(&m.file_type));
    proof {
        assert(arg_views(r@) =~= media_row_args(*m));
    }
    r
}

/// The statements inserting every record, as few rows to a statement as the
/// parameter bound demands.
pub fn insert_medias_statements(medias: &Vec<MediaInfo>) -> (r: Vec<SqlStatement>)
    ensures
        tiles_rows(
            r@,
            medias_insert_head(),
            media_placeholders(),
            media_rows(medias@),
            rows_per_statement(MEDIA_ROW_BINDS as nat) as int,
        ),
{
    let mut rows: Vec<Vec<SqlValue>> = Vec::new();
    let mut i: usize = 0;
    while i < medias.len()
        invariant
            i <= medias@.len(),
            rows@.len() == i,
            forall|t: int| 0 <= t < i ==> (#[trigger] rows@[t])@.len() == MEDIA_ROW_BINDS,
            row_views(rows@) == media_rows(medias@.subrange(0, i as int)),
        decreases medias@.len() - i,
    {
        let row = media_row(&medias[i]);
        proof {
            assert(row_views(rows@.push(row)) =~= row_views(rows@).push(arg_views(row@)));
            assert(media_rows(medias@.subrange(0, i as int + 1)) =~= media_rows(
                medias@.subrange(0, i as int),
            ).push(media_row_args(medias@[i as int])));
        }
        rows.push(row);
        i = i + 1;
    }
    proof {
        assert(medias@.subrange(0, medias@.len() as int) =~= medias@);
    }
    chunk_insert(
        "INSERT INTO medias(id, path, cover_path, cover_url, title, library, album, artist, genre, year, sample_rate, bit_depth, audio_bitrate, overall_bitrate, channels, duration_seconds, file_name, file_type) VALUES ",
        "(?, ?, ?, ?, ?, ?, ?, ?, ?, ?, ?, ?, ?, ?, ?, ?, ?, ?)",
        &rows,
        MEDIA_ROW_BINDS,
    )
}

/// The statements inserting every category edge; none when no record has a
/// category.
pub fn insert_categories_statements(medias: &Vec<MediaInfo>) -> (r: Vec<SqlStatement>)
    ensures
        tiles_rows(
            r@,
            categories_insert_head(),
            category_placeholders(),
            category_rows(medias@),
            rows_per_statement(CATEGORY_ROW_BINDS as nat) as int,
        ),
{
    let mut rows: Vec<Vec<SqlValue>> = Vec::new();
    let mut i: usize = 0;
    while i < medias.len()
        invariant
            i <= medias@.len(),
            forall|t: int| 0 <= t < rows@.len() ==> (#[trigger] rows@[t])@.len() == CATEGORY_ROW_BINDS,
            row_views(rows@) == category_rows(medias@.subrange(0, i as int)),
        decreases medias@.len() - i,
    {
        let m = &medias[i];
        let ghost before = row_views(rows@);
        let mut c: usize = 0;
        while c < m.categories.len()
            invariant
                c <= m.categories@.len(),
                forall|t: int| 0 <= t < rows@.len() ==> (#[trigger] rows@[t])@.len() == CATEGORY_ROW_BINDS,
                row_views(rows@) == before + edge_rows(*m).subrange(0, c as int),
            decreases m.categories@.len() - c,
        {
            let mut row: Vec<SqlValue> = Vec::new();
            row.push(text_value(&m.categories[c]));
            row.push(SqlValue::Int(m.id));
            proof {
                assert(arg_views(row@) =~= edge_rows(*m)[c as int]);
                assert(row_views(rows@.push(row)) =~= row_views(rows@).push(arg_views(row@)));
                assert(edge_rows(*m).subrange(0, c as int + 1) =~= edge_rows(*m).subrange(
                    0,
                    c as int,
                ).push(edge_rows(*m)[c as int]));
            }
            rows.push(row);
            c = c + 1;
        }
        proof {
            assert(edge_rows(*m).subrange(0, c as int) =~= edge_rows(*m));
            assert(medias@.subrange(0, i as int + 1).drop_last() =~= medias@.subrange(0, i as int));
        }
        i = i + 1;
    }
    proof {
        assert(medias@.subrange(0, medias@.len() as int) =~= medias@);
    }
    chunk_insert(
        "INSERT INTO media_categories(category_title, media_id) VALUES ",
        "(?, ?)",
        &rows,
        CATEGORY_ROW_BINDS,
    )
}

/// The statements that drop both catalog tables and make them again, with
/// their indexes, in the order they run.
pub open spec fn schema_sql() -> Seq<Seq<char>> {
    seq![
        "DROP TABLE IF EXISTS medias"@,
        "DROP TABLE IF EXISTS media_categories"@,
        "CREATE TABLE IF NOT EXISTS medias(id INTEGER PRIMARY KEY, path TEXT NOT NULL, title TEXT NOT NULL, album TEXT NOT NULL, artist TEXT NOT NULL, genre TEXT NOT NULL, year INT NOT NULL, library TEXT NOT NULL, cover_path TEXT NULL, cover_url TEXT NULL, sample_rate INT NULL, bit_depth INT NULL, audio_bitrate INT NULL, overall_bitrate INT NULL, channels INT NULL, duration_seconds INT NOT NULL, file_name TEXT NOT NULL, file_type TEXT NOT NULL)"@,
        "CREATE INDEX IF NOT EXISTS mi_library ON medias (library)"@,
        "CREATE INDEX IF NOT EXISTS mi_album ON medias (album)"@,
        "CREATE INDEX IF NOT EXISTS mi_artist ON medias (artist)"@,
        "CREATE INDEX IF NOT EXISTS mi_genre ON medias (genre)"@,
        "CREATE INDEX IF NOT EXISTS mi_year ON medias (year)"@,
        "CREATE TABLE IF NOT EXISTS media_categories(category_title TEXT NOT NULL, media_id INT NOT NULL)"@,
        "CREATE INDEX IF NOT EXISTS mci_category_title ON media_categories (category_title)"@,
        "CREATE INDEX IF NOT EXISTS mci_media_id ON media_categories (media_id)"@,
    ]
}

/// The statements that drop both catalog tables and make them again.
pub fn recreate_tables_sql() -> (r: Vec<String>)
    ensures
        views(r@) == schema_sql(),
{
    let r: Vec<String> = vec![
        "DROP TABLE IF EXISTS medias".to_owned(),
        "DROP TABLE IF EXISTS media_categories".to_owned(),
        "CREATE TABLE IF NOT EXISTS medias(id INTEGER PRIMARY KEY, path TEXT NOT NULL, title TEXT NOT NULL, album TEXT NOT NULL, artist TEXT NOT NULL, genre TEXT NOT NULL, year INT NOT NULL, library TEXT NOT NULL, cover_path TEXT NULL, cover_url TEXT NULL, sample_rate INT NULL, bit_depth INT NULL, audio_bitrate INT NULL, overall_bitrate INT NULL, channels INT NULL, duration_seconds INT NOT NULL, file_name TEXT NOT NULL, file_type TEXT NOT NULL)".to_owned(),
        "CREATE INDEX IF NOT EXISTS mi_library ON medias (library)".to_owned(),
        "CREATE INDEX IF NOT EXISTS mi_album ON medias (album)".to_owned(),
        "CREATE INDEX IF NOT EXISTS mi_artist ON medias (artist)".to_owned(),
        "CREATE INDEX IF NOT EXISTS mi_genre ON medias (genre)".to_owned(),
        "CREATE INDEX IF NOT EXISTS mi_year ON medias (year)".to_owned(),
        "CREATE TABLE IF NOT EXISTS media_categories(category_title TEXT NOT NULL, media_id INT NOT NULL)".to_owned(),
        "CREATE INDEX IF NOT EXISTS mci_category_title ON media_categories (category_title)".to_owned(),
        "CREATE INDEX IF NOT EXISTS mci_media_id ON media_categories (media_id)".to_owned(),
    ];
    proof {
        assert(views(r@) =~= schema_sql());
    }
    r
}

/// Without a category on any record there is no category edge.
proof fn lemma_no_edges_without_categories(ms: Seq<MediaInfo>)
    requires
        forall|i: int| 0 <= i < ms.len() ==> (#[trigger] ms[i]).categories@.len() == 0,
    ensures
        category_rows(ms).len() == 0,
    decreases ms.len(),
{
    if ms.len() > 0 {
        lemma_no_edges_without_categories(ms.drop_last());
        assert(ms.last() == ms[ms.len() - 1]);
    }
}

/// Everything written for one catalog generation once its records are
/// known: the category edges, then the records. There is no category
/// statement when no record has a category, and no statement at all when
/// there is no record.
pub fn generation_statements(medias: &Vec<MediaInfo>) -> (r: Vec<SqlStatement>)
    ensures
        exists|cats: Seq<SqlStatement>, meds: Seq<SqlStatement>|
            {
                &&& tiles_rows(
                    cats,
                    categories_insert_head(),
                    category_placeholders(),
                    category_rows(medias@),
                    rows_per_statement(CATEGORY_ROW_BINDS as nat) as int,
                )
                &&& (forall|i: int|
                    0 <= i < medias@.len() ==> (#[trigger] medias@[i]).categories@.len() == 0)
                    ==> cats.len() == 0
                &&& tiles_rows(
                    meds,
                    medias_insert_head(),
                    media_placeholders(),
                    media_rows(medias@),
                    rows_per_statement(MEDIA_ROW_BINDS as nat) as int,
                )
                &&& r@ == cats + meds
            },
        medias@.len() == 0 ==> r@.len() == 0,
{
    let mut r = insert_categories_statements(medias);
    let ghost cats = r@;
    let mut meds = insert_medias_statements(medias);
    let ghost meds_view = meds@;
    r.append(&mut meds);
    proof {
        if forall|i: int| 0 <= i < medias@.len() ==> (#[trigger] medias@[i]).categories@.len() == 0 {
            lemma_no_edges_without_categories(medias@);
        }
        if medias@.len() == 0 {
            assert(media_rows(medias@) =~= Seq::<Seq<SqlArg>>::empty());
        }
        assert(r@ == cats + meds_view);
    }
    r
}

} // verus!
