use diosic::config::Config;
use diosic::indexer::{collect_medias, extraction_jobs, scan_summary};
use diosic::model::{
    AudioProperties, FileKind, LibraryInfo, MediaInfo, MediaMetaInfo, MimeKind, PictureKind,
    Source, TagFields,
};
use diosic::paths::{categories_from_directory, get_file_name_without_ext, sibling_of};
use diosic::persist::{insert_categories_statements, insert_medias_statements, media_row};
use diosic::query::{
    get_medias_query, get_sources_query, get_total_media_query, get_total_source_query,
    lookup_query, Lookup, SqlValue,
};

fn config() -> Config {
    Config {
        libraries: Vec::new(),
        data_path: None,
        covers_cached_path: None,
        host: "0.0.0.0".to_string(),
        port: 3177,
        public_url: "http://host".to_string(),
    }
}

fn library() -> LibraryInfo {
    LibraryInfo { path: "/music".to_string(), title: "Main".to_string() }
}

fn props() -> AudioProperties {
    AudioProperties {
        sample_rate: Some(44100),
        bit_depth: Some(16),
        audio_bitrate: Some(320),
        overall_bitrate: Some(330),
        channels: Some(2),
        duration_seconds: 215,
    }
}

fn meta_for(stem: &str, genre: &str, year: u32) -> MediaMetaInfo {
    let tags = TagFields {
        title: Some(format!("{} title", stem)),
        album: Some("Blue".to_string()),
        artist: Some("Miles".to_string()),
        genre: Some(genre.to_string()),
        year: Some(year),
    };
    MediaMetaInfo::from_tags(stem, Some(tags), props(), &FileKind::Flac)
}

fn record(path: &str, id: i64) -> MediaInfo {
    let stem = get_file_name_without_ext(path);
    MediaInfo::from_meta(meta_for(&stem, "Jazz", 1959), &config(), &library(), id, path.to_string(), false)
}

#[test]
fn categories_innermost_first() {
    assert!(categories_from_directory("/music/a.mp3", "/music").is_empty());
    assert_eq!(categories_from_directory("/music/Jazz/b.mp3", "/music"), vec!["Jazz".to_string()]);
    assert_eq!(
        categories_from_directory("/music/Jazz/Live/c.mp3", "/music"),
        vec!["Live".to_string(), "Jazz".to_string()]
    );
    assert_eq!(
        categories_from_directory("/music/Jazz/Live/c.mp3", "/music/"),
        vec!["Live".to_string(), "Jazz".to_string()]
    );
}

#[test]
fn categories_skip_dot_and_stop_at_parent_marker() {
    assert_eq!(
        categories_from_directory("/music/./Jazz/./b.mp3", "/music"),
        vec!["Jazz".to_string()]
    );
    assert_eq!(
        categories_from_directory("/music/x/../Live/b.mp3", "/music"),
        vec!["Live".to_string()]
    );
}

#[test]
fn categories_rebuild_relative_path() {
    let mut cats = categories_from_directory("/lib/a/b/c/song.flac", "/lib");
    cats.reverse();
    cats.push("song.flac".to_string());
    assert_eq!(cats.join("/"), "a/b/c/song.flac");
}

#[test]
fn category_scenario_counts_and_filter() {
    let medias = vec![
        record("/music/a.mp3", 1),
        record("/music/Jazz/b.mp3", 2),
        record("/music/Jazz/Live/c.mp3", 3),
    ];
    let stmts = insert_categories_statements(&medias);
    assert_eq!(stmts.len(), 1);
    let binds = &stmts[0].binds;
    let mut jazz = 0;
    let mut live = 0;
    let mut jazz_ids = Vec::new();
    for pair in binds.chunks(2) {
        match (&pair[0], &pair[1]) {
            (SqlValue::Text(t), SqlValue::Int(id)) if t == "Jazz" => {
                jazz += 1;
                jazz_ids.push(*id);
            }
            (SqlValue::Text(t), SqlValue::Int(_)) if t == "Live" => live += 1,
            other => panic!("unexpected edge {:?}", other),
        }
    }
    assert_eq!((jazz, live), (2, 1));
    assert_eq!(jazz_ids, vec![2, 3]);
    let listing = get_medias_query(Source::Category(Some("Jazz")), None, 0, 50);
    assert!(listing.sql.contains("INNER JOIN media_categories"));
    assert!(listing.sql.contains("WHERE category_title = ?"));
    assert_eq!(listing.binds[0], SqlValue::Text("Jazz".to_string()));
}

#[test]
fn file_stem_rules() {
    assert_eq!(get_file_name_without_ext("/m/a.b.mp3"), "a.b");
    assert_eq!(get_file_name_without_ext("/m/.hidden"), ".hidden");
    assert_eq!(get_file_name_without_ext("noext"), "noext");
    assert_eq!(get_file_name_without_ext("/m/dir/"), "dir");
}

#[test]
fn sibling_cover_path() {
    assert_eq!(sibling_of("/m/Jazz/song.mp3", "song.png"), "/m/Jazz/song.png");
    assert_eq!(sibling_of("song.mp3", "song.jpg"), "song.jpg");
}

#[test]
fn source_parse_is_case_insensitive() {
    assert_eq!(Source::parse("Library", Some("Main")), Source::Library(Some("Main")));
    assert_eq!(Source::parse("CATEGORY", Some("Jazz")), Source::Category(Some("Jazz")));
    assert_eq!(Source::parse("album", Some("Blue")), Source::Album(Some("Blue")));
    assert_eq!(Source::parse("Artist", Some("Miles")), Source::Artist(Some("Miles")));
    assert_eq!(Source::parse("genre", Some("Jazz")), Source::Genre(Some("Jazz")));
    assert_eq!(Source::parse("Year", Some("1959")), Source::Year(1959));
    assert_eq!(Source::parse("year", Some("+7")), Source::Year(7));
    assert_eq!(Source::parse("year", Some("abc")), Source::Year(0));
    assert_eq!(Source::parse("year", Some(" 1959")), Source::Year(0));
    assert_eq!(Source::parse("album", None), Source::Album(None));
    assert_eq!(Source::parse("Library", None), Source::Library(None));
    assert_eq!(Source::parse("category", None), Source::Category(None));
    assert_eq!(Source::parse("artist", None), Source::Artist(None));
    assert_eq!(Source::parse("GENRE", None), Source::Genre(None));
    assert_eq!(Source::parse("year", None), Source::Year(0));
    assert_eq!(Source::parse("other", None), Source::Any);
    assert_eq!(Source::parse("other", Some("x")), Source::Any);
}

#[test]
fn search_is_case_sensitive_substring() {
    let m = record("/music/Jazz/b.mp3", 2);
    assert!(m.contains("Jazz"));
    assert!(m.contains("b tit"));
    assert!(m.contains("Mile"));
    assert!(m.contains(""));
    assert!(!m.contains("jazz"));
    assert!(!m.contains("1959"));
    assert!(!m.contains("Main"));
}

#[test]
fn search_token_equal_to_genre_finds_record() {
    let stem = "x";
    let meta = meta_for(stem, "Bossa Nova", 1964);
    let m = MediaInfo::from_meta(meta, &config(), &library(), 9, "/music/x.mp3".to_string(), false);
    assert!(m.contains("Bossa Nova"));
}

#[test]
fn medias_query_with_filter_and_search() {
    let st = get_medias_query(Source::Genre(Some("Jazz")), Some("blue"), 2, 10);
    assert_eq!(
        st.sql,
        "SELECT medias.* FROM medias WHERE genre = ? AND (instr(title, ?) > 0 OR instr(album, ?) > 0 OR instr(artist, ?) > 0 OR instr(genre, ?) > 0) ORDER BY medias.id LIMIT ? OFFSET ?"
    );
    let blue = SqlValue::Text("blue".to_string());
    assert_eq!(
        st.binds,
        vec![
            SqlValue::Text("Jazz".to_string()),
            blue.clone(),
            blue.clone(),
            blue.clone(),
            blue,
            SqlValue::Int(10),
            SqlValue::Int(20),
        ]
    );
}

#[test]
fn blank_search_and_missing_filter_add_no_where() {
    let st = get_medias_query(Source::Album(None), Some("  \t"), 0, 5);
    assert_eq!(st.sql, "SELECT medias.* FROM medias ORDER BY medias.id LIMIT ? OFFSET ?");
    assert_eq!(st.binds, vec![SqlValue::Int(5), SqlValue::Int(0)]);
    let any = get_medias_query(Source::Any, Some("x"), 0, 5);
    assert!(any.sql.starts_with("SELECT medias.* FROM medias WHERE (instr(title, ?)"));
    let year0 = get_total_media_query(Source::Year(0), None);
    assert_eq!(year0.sql, "SELECT COUNT(1) AS count FROM medias");
}

#[test]
fn search_text_only_binds() {
    let evil = "'; DROP TABLE medias; --";
    let a = get_medias_query(Source::Any, Some(evil), 0, 5);
    let b = get_medias_query(Source::Any, Some("plain"), 0, 5);
    assert_eq!(a.sql, b.sql);
    assert_eq!(a.binds[0], SqlValue::Text(evil.to_string()));
}

#[test]
fn pagination_offsets_and_total_independent_of_page() {
    for i in 0..4usize {
        let st = get_medias_query(Source::Artist(Some("Miles")), None, i, 25);
        assert_eq!(st.binds[1], SqlValue::Int(25));
        assert_eq!(st.binds[2], SqlValue::Int((i * 25) as i64));
    }
    let t1 = get_total_media_query(Source::Artist(Some("Miles")), Some("So"));
    let t2 = get_total_media_query(Source::Artist(Some("Miles")), Some("So"));
    assert_eq!(t1.sql, t2.sql);
    assert_eq!(t1.binds, t2.binds);
    assert_eq!(
        t1.sql,
        "SELECT COUNT(1) AS count FROM medias WHERE artist = ? AND (instr(title, ?) > 0 OR instr(album, ?) > 0 OR instr(artist, ?) > 0 OR instr(genre, ?) > 0)"
    );
}

#[test]
fn year_facet_leaves_out_unknown_year() {
    let st = get_sources_query(Source::Year(0), 1, 20);
    assert_eq!(
        st.sql,
        "SELECT COUNT(1) AS count, CAST(year AS TEXT) AS label FROM medias WHERE year > 0 GROUP BY year ORDER BY label LIMIT ? OFFSET ?"
    );
    assert_eq!(st.binds, vec![SqlValue::Int(20), SqlValue::Int(20)]);
    let total = get_total_source_query(Source::Year(0));
    assert_eq!(total.sql, "SELECT COUNT(DISTINCT year) AS count FROM medias WHERE year > 0");
    let listing = get_medias_query(Source::Year(1959), None, 0, 10);
    assert!(listing.sql.contains("WHERE year = ?"));
    assert_eq!(listing.binds[0], SqlValue::Int(1959));
}

#[test]
fn facet_groups_by_listing_filter_column() {
    let facets = [
        (Source::Library(Some("v")), "library"),
        (Source::Album(Some("v")), "album"),
        (Source::Artist(Some("v")), "artist"),
        (Source::Genre(Some("v")), "genre"),
    ];
    for (source, col) in facets {
        let agg = get_sources_query(source, 0, 10);
        assert!(agg.sql.contains(&format!("GROUP BY {} ", col)));
        let list = get_medias_query(source, None, 0, 10);
        assert!(list.sql.contains(&format!("WHERE {} = ?", col)));
    }
    let cat = get_sources_query(Source::Category(None), 0, 10);
    assert_eq!(
        cat.sql,
        "SELECT COUNT(1) AS count, category_title AS label FROM media_categories GROUP BY category_title ORDER BY label LIMIT ? OFFSET ?"
    );
    let total = get_total_source_query(Source::Category(None));
    assert_eq!(total.sql, "SELECT COUNT(DISTINCT category_title) AS count FROM media_categories");
}

#[test]
fn point_lookups() {
    let st = lookup_query(Lookup::Cover, 42);
    assert_eq!(st.sql, "SELECT cover_path FROM medias WHERE id = ? LIMIT 1");
    assert_eq!(st.binds, vec![SqlValue::Int(42)]);
    assert_eq!(
        lookup_query(Lookup::Categories, 1).sql,
        "SELECT category_title FROM media_categories WHERE media_id = ?"
    );
}

#[test]
fn bulk_insert_respects_parameter_bound() {
    let medias: Vec<MediaInfo> = (1..=60).map(|i| record(&format!("/music/Jazz/s{}.mp3", i), i)).collect();
    let stmts = insert_medias_statements(&medias);
    assert_eq!(stmts.len(), 2);
    assert_eq!(stmts[0].binds.len(), 55 * 18);
    assert_eq!(stmts[1].binds.len(), 5 * 18);
    assert!(stmts.iter().all(|s| s.binds.len() <= 999));
    assert!(stmts[1].sql.starts_with("INSERT INTO medias(id, path, cover_path, cover_url, title,"));
    assert!(stmts[1].sql.ends_with("VALUES (?, ?, ?, ?, ?, ?, ?, ?, ?, ?, ?, ?, ?, ?, ?, ?, ?, ?), (?, ?, ?, ?, ?, ?, ?, ?, ?, ?, ?, ?, ?, ?, ?, ?, ?, ?), (?, ?, ?, ?, ?, ?, ?, ?, ?, ?, ?, ?, ?, ?, ?, ?, ?, ?), (?, ?, ?, ?, ?, ?, ?, ?, ?, ?, ?, ?, ?, ?, ?, ?, ?, ?), (?, ?, ?, ?, ?, ?, ?, ?, ?, ?, ?, ?, ?, ?, ?, ?, ?, ?)"));
    assert_eq!(stmts[1].binds[0], SqlValue::Int(56));
    let cats = insert_categories_statements(&medias);
    assert_eq!(cats.len(), 1);
    assert_eq!(cats[0].binds.len(), 120);
}

#[test]
fn no_category_rows_without_categories() {
    let medias = vec![record("/music/a.mp3", 1), record("/music/b.mp3", 2)];
    assert!(insert_categories_statements(&medias).is_empty());
    assert!(insert_medias_statements(&Vec::new()).is_empty());
}

#[test]
fn media_row_order() {
    let m = record("/music/Jazz/b.mp3", 2);
    let row = media_row(&m);
    assert_eq!(row.len(), 18);
    assert_eq!(row[0], SqlValue::Int(2));
    assert_eq!(row[1], SqlValue::Text("/music/Jazz/b.mp3".to_string()));
    assert_eq!(row[2], SqlValue::Null);
    assert_eq!(row[5], SqlValue::Text("Main".to_string()));
    assert_eq!(row[9], SqlValue::Int(1959));
    assert_eq!(row[15], SqlValue::Int(215));
    assert_eq!(row[17], SqlValue::Text("flac".to_string()));
}

#[test]
fn rebuild_twice_gives_same_rows() {
    let build = || vec![record("/music/a.mp3", 1), record("/music/Jazz/b.mp3", 2)];
    let a = insert_medias_statements(&build());
    let b = insert_medias_statements(&build());
    assert_eq!(a.len(), b.len());
    for (x, y) in a.iter().zip(b.iter()) {
        assert_eq!(x.sql, y.sql);
        assert_eq!(x.binds, y.binds);
    }
}

#[test]
fn scan_summary_skips_empty_libraries() {
    let a = LibraryInfo { path: "/a".to_string(), title: "A".to_string() };
    let b = LibraryInfo { path: "/b".to_string(), title: "B".to_string() };
    let c = LibraryInfo { path: "/c".to_string(), title: "C".to_string() };
    let fetched = vec![
        (a, vec!["/a/1".to_string(), "/a/2".to_string()]),
        (b, Vec::new()),
        (c, vec!["/c/1".to_string()]),
    ];
    let (libs, total) = scan_summary(fetched);
    assert_eq!(total, 3);
    assert_eq!(libs.len(), 2);
    assert_eq!(libs[0].0.title, "A");
    assert_eq!(libs[1].0.title, "C");
}

#[test]
fn ids_follow_flattened_file_order() {
    let a = LibraryInfo { path: "/a".to_string(), title: "A".to_string() };
    let c = LibraryInfo { path: "/c".to_string(), title: "C".to_string() };
    let paths = vec![
        (a, vec!["/a/1".to_string(), "/a/2".to_string()]),
        (c, vec!["/c/1".to_string()]),
    ];
    let jobs = extraction_jobs(&paths);
    let got: Vec<(usize, usize, i64)> = jobs.iter().map(|j| (j.library, j.file, j.id)).collect();
    assert_eq!(got, vec![(0, 0, 1), (0, 1, 2), (1, 0, 3)]);
}

#[test]
fn one_failed_extraction_of_ten() {
    let outcomes: Vec<Option<MediaInfo>> = (1..=10)
        .map(|i| if i == 4 { None } else { Some(record(&format!("/music/s{}.mp3", i), i)) })
        .collect();
    let (medias, have_category) = collect_medias(outcomes);
    assert_eq!(medias.len(), 9);
    assert!(!have_category);
    assert_eq!(medias.iter().map(|m| m.id).collect::<Vec<_>>(), vec![1, 2, 3, 5, 6, 7, 8, 9, 10]);
    let (_, with_cat) = collect_medias(vec![None, Some(record("/music/Jazz/b.mp3", 2))]);
    assert!(with_cat);
}

#[test]
fn extraction_defaults_without_tags() {
    let m = MediaMetaInfo::from_tags("track01", None, props(), &FileKind::Custom("dsf".to_string()));
    assert_eq!(m.title, "track01");
    assert_eq!(m.album, "Unknown");
    assert_eq!(m.artist, "Unknown");
    assert_eq!(m.genre, "Unknown");
    assert_eq!(m.year, 0);
    assert_eq!(m.file_name, "track01");
    assert_eq!(m.file_type, "dsf");
    let partial = TagFields { title: None, album: Some("A".to_string()), artist: None, genre: None, year: None };
    let m = MediaMetaInfo::from_tags("t", Some(partial), props(), &FileKind::WavPack);
    assert_eq!((m.title.as_str(), m.album.as_str(), m.artist.as_str()), ("t", "A", "Unknown"));
    assert_eq!(m.file_type, "wav_pack");
}

#[test]
fn cover_priority_and_names() {
    assert_eq!(MediaMetaInfo::select_cover(&vec![PictureKind::CoverBack, PictureKind::Media, PictureKind::Other]), Some(1));
    assert_eq!(MediaMetaInfo::select_cover(&vec![PictureKind::Illustration, PictureKind::CoverFront, PictureKind::CoverFront]), Some(1));
    assert_eq!(MediaMetaInfo::select_cover(&vec![PictureKind::CoverBack]), Some(0));
    assert_eq!(MediaMetaInfo::select_cover(&vec![PictureKind::Other, PictureKind::Other]), None);
    assert_eq!(MediaMetaInfo::select_cover(&vec![]), None);
    assert_eq!(MediaMetaInfo::cover_picture_level(PictureKind::LeadArtist), 4);
    assert_eq!(MediaMetaInfo::cover_file_name("song", MimeKind::Jpeg), Some("song.jpg".to_string()));
    assert_eq!(MediaMetaInfo::cover_file_name("song", MimeKind::Tiff), Some("song.tiff".to_string()));
    assert_eq!(MediaMetaInfo::cover_file_name("song", MimeKind::Unknown), None);
}

#[test]
fn cover_url_only_for_existing_cover() {
    let mut meta = meta_for("b", "Jazz", 1959);
    meta.cover = Some("/covers/b.jpg".to_string());
    let m = MediaInfo::from_meta(meta, &config(), &library(), 17, "/music/b.mp3".to_string(), true);
    assert_eq!(m.cover_url.as_deref(), Some("http://host/api/media_cover/17"));
    assert_eq!(m.cover_path.as_deref(), Some("/covers/b.jpg"));
    let mut meta = meta_for("b", "Jazz", 1959);
    meta.cover = Some("/covers/b.jpg".to_string());
    let m = MediaInfo::from_meta(meta, &config(), &library(), 17, "/music/b.mp3".to_string(), false);
    assert_eq!(m.cover_url, None);
    assert_eq!(m.library, "Main");
    assert_eq!(m.duration_seconds, 215);
}

#[test]
fn duration_is_truncated() {
    let mut meta = meta_for("b", "Jazz", 1959);
    meta.duration_seconds = 1u64 << 32;
    let m = MediaInfo::from_meta(meta, &config(), &library(), 1, "/music/b.mp3".to_string(), false);
    assert_eq!(m.duration_seconds, 0);
    let mut meta = meta_for("b", "Jazz", 1959);
    meta.duration_seconds = (1u64 << 32) + 7;
    let m = MediaInfo::from_meta(meta, &config(), &library(), 1, "/music/b.mp3".to_string(), false);
    assert_eq!(m.duration_seconds, 7);
}

#[test]
fn sibling_cover_choice() {
    let (png, jpg) = diosic::paths::cover_candidates("/m/Jazz/song.v2.mp3");
    assert_eq!(png, "/m/Jazz/song.v2.png");
    assert_eq!(jpg, "/m/Jazz/song.v2.jpg");
    use_choice(png, jpg);
}

fn use_choice(png: String, jpg: String) {
    let pick = diosic::paths::get_image_path_media;
    assert_eq!(pick((png.clone(), jpg.clone()), true, true, true), Some(png.clone()));
    assert_eq!(pick((png.clone(), jpg.clone()), true, false, true), None);
    assert_eq!(pick((png.clone(), jpg.clone()), false, false, true), Some(jpg.clone()));
    assert_eq!(pick((png, jpg), false, false, false), None);
}

#[test]
fn generation_writes_edges_then_records() {
    let medias = vec![record("/music/a.mp3", 1), record("/music/Jazz/b.mp3", 2)];
    let all = diosic::persist::generation_statements(&medias);
    assert_eq!(all.len(), 2);
    assert!(all[0].sql.starts_with("INSERT INTO media_categories"));
    assert!(all[1].sql.starts_with("INSERT INTO medias"));
    let plain = vec![record("/music/a.mp3", 1), record("/music/c.mp3", 3)];
    let no_edges = diosic::persist::generation_statements(&plain);
    assert_eq!(no_edges.len(), 1);
    assert!(no_edges[0].sql.starts_with("INSERT INTO medias"));
    assert!(diosic::persist::generation_statements(&Vec::new()).is_empty());
}

#[test]
fn paths_that_name_files() {
    assert!(diosic::paths::names_a_file("/music/a.mp3"));
    assert!(diosic::paths::names_a_file("a"));
    assert!(!diosic::paths::names_a_file("/"));
    assert!(!diosic::paths::names_a_file(""));
    assert!(!diosic::paths::names_a_file("/music/.."));
    assert!(diosic::paths::names_a_file("/music/."));
    assert_eq!(get_file_name_without_ext("/music/dir/."), "dir");
}
