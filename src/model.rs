//! The catalog's data: libraries, facet selectors, extracted metadata and
//! catalog records, with the decisions taken while turning one into the other.
use crate::config::Config;
use crate::paths::{categories_from_directory, categories_of, components};
use crate::text::{
    contains_text, i64_text, is_infix, join_text, lower_of, lowercase, parse_u32, u32_from_text,
    views,
};
use vstd::prelude::*;
use vstd::string::StringExecFns;

verus! {

/// A configured library: a display name, unique among libraries, and the
/// directory it is rooted at.
#[derive(Debug, Clone)]
pub struct LibraryInfo {
    pub path: String,
    pub title: String,
}

/// One group of a facet aggregation: its label and how many records it holds.
#[derive(Debug, Clone)]
pub struct SourceInfo {
    pub title: String,
    pub total_media: u32,
}

/// The facet selector: which dimension to group or filter by, and the value
/// to filter on where one is given. `Year(0)` asks for no year filter.
#[derive(Debug, Clone, Copy, PartialEq)]
pub enum Source<'a> {
    Any,
    Library(Option<&'a str>),
    Category(Option<&'a str>),
    Album(Option<&'a str>),
    Artist(Option<&'a str>),
    Genre(Option<&'a str>),
    Year(u32),
}

/// The catalog columns a facet groups or filters by.
#[derive(Debug, Clone, Copy, PartialEq, Eq, Structural)]
pub enum Column {
    Library,
    CategoryTitle,
    Album,
    Artist,
    Genre,
    Year,
}

/// The selector named by a lower-cased facet name and an optional filter
/// value: a known facet filters on the value where one is given and selects
/// the whole facet otherwise (the year 0 filters nothing); any other name
/// selects every record.
pub open spec fn source_from<'a>(kind: Seq<char>, filter: Option<&'a str>) -> Source<'a> {
    if kind == "library"@ {
        Source::Library(filter)
    } else if kind == "category"@ {
        Source::Category(filter)
    } else if kind == "album"@ {
        Source::Album(filter)
    } else if kind == "artist"@ {
        Source::Artist(filter)
    } else if kind == "genre"@ {
        Source::Genre(filter)
    } else if kind == "year"@ {
        Source::Year(
            match filter {
                Some(f) => match u32_from_text(f@) {
                    Some(y) => y,
                    None => 0,
                },
                None => 0,
            },
        )
    } else {
        Source::Any
    }
}

impl<'a> Source<'a> {
    /// The column this facet groups by, and filters on; `Any` has none.
    pub open spec fn column_of(self) -> Option<Column> {
        match self {
            Source::Any => None,
            Source::Library(_) => Some(Column::Library),
            Source::Category(_) => Some(Column::CategoryTitle),
            Source::Album(_) => Some(Column::Album),
            Source::Artist(_) => Some(Column::Artist),
            Source::Genre(_) => Some(Column::Genre),
            Source::Year(_) => Some(Column::Year),
        }
    }

    /// The selector for a facet name and filter value; the name is matched
    /// without regard to case.
    pub fn parse(source: &'a str, filter: Option<&'a str>) -> (r: Source<'a>)
        ensures
            r == source_from(lower_of(source@), filter),
    {
        let kind = lowercase(source);
        Self::from_lowercase(kind.as_str(), filter)
    }

    /// The selector for an already lower-cased facet name and a filter value.
    pub fn from_lowercase(kind: &str, filter: Option<&'a str>) -> (r: Source<'a>)
        ensures
            r == source_from(kind@, filter),
    {
        let kind = kind.to_owned();
        if kind == String::from_str("library") {
            Source::Library(filter)
        } else if kind == String::from_str("category") {
            Source::Category(filter)
        } else if kind == String::from_str("album") {
            Source::Album(filter)
        } else if kind == String::from_str("artist") {
            Source::Artist(filter)
        } else if kind == String::from_str("genre") {
            Source::Genre(filter)
        } else if kind == String::from_str("year") {
            match filter {
                Some(f) => match parse_u32(f) {
                    Some(y) => Source::Year(y),
                    None => Source::Year(0),
                },
                None => Source::Year(0),
            }
        } else {
            Source::Any
        }
    }

    /// The column this facet groups by and filters on.
    pub fn column(&self) -> (r: Option<Column>)
        ensures
            r == self.column_of(),
    {
        match self {
            Source::Any => None,
            Source::Library(_) => Some(Column::Library),
            Source::Category(_) => Some(Column::CategoryTitle),
            Source::Album(_) => Some(Column::Album),
            Source::Artist(_) => Some(Column::Artist),
            Source::Genre(_) => Some(Column::Genre),
            Source::Year(_) => Some(Column::Year),
        }
    }
}

/// The kinds of embedded picture the cover choice knows about.
#[derive(Debug, Clone, Copy, PartialEq, Eq, Structural)]
pub enum PictureKind {
    CoverFront,
    LeadArtist,
    Illustration,
    Media,
    CoverBack,
    Other,
}

/// The image formats of an embedded picture.
#[derive(Debug, Clone, Copy, PartialEq, Eq, Structural)]
pub enum MimeKind {
    Bmp,
    Gif,
    Jpeg,
    Png,
    Tiff,
    Unknown,
}

/// How much a picture of a kind is wanted as the cover; 0 is never.
pub open spec fn picture_level(k: PictureKind) -> int {
    match k {
        PictureKind::CoverFront => 5,
        PictureKind::LeadArtist => 4,
        PictureKind::Illustration => 3,
        PictureKind::Media => 2,
        PictureKind::CoverBack => 1,
        PictureKind::Other => 0,
    }
}

/// The file extension for an image format, if it is one covers are kept in.
pub open spec fn mime_extension(m: MimeKind) -> Option<Seq<char>> {
    match m {
        MimeKind::Bmp => Some("bmp"@),
        MimeKind::Gif => Some("gif"@),
        MimeKind::Jpeg => Some("jpg"@),
        MimeKind::Png => Some("png"@),
        MimeKind::Tiff => Some("tiff"@),
        MimeKind::Unknown => None,
    }
}

/// The cover chosen among pictures of kinds `pics`: the first of the highest
/// level, none when every level is 0.
pub open spec fn best_picture(pics: Seq<PictureKind>) -> Option<int>
    decreases pics.len(),
{
    if pics.len() == 0 {
        None
    } else {
        let prev = best_picture(pics.drop_last());
        let k = pics.len() - 1;
        if picture_level(pics[k]) == 0 {
            prev
        } else {
            match prev {
                None => Some(k),
                Some(p) => if picture_level(pics[k]) > picture_level(pics[p]) {
                    Some(k)
                } else {
                    prev
                },
            }
        }
    }
}

/// The audio file formats told apart in the catalog.
#[derive(Debug, Clone)]
pub enum FileKind {
    Aac,
    Aiff,
    Ape,
    Flac,
    Mpeg,
    Mp4,
    Mpc,
    Opus,
    Vorbis,
    Speex,
    Wav,
    WavPack,
    Custom(String),
    Unknown,
}

/// The name a file format is stored under.
pub open spec fn file_kind_name(k: FileKind) -> Seq<char> {
    match k {
        FileKind::Aac => "aac"@,
        FileKind::Aiff => "aiff"@,
        FileKind::Ape => "ape"@,
        FileKind::Flac => "flac"@,
        FileKind::Mpeg => "mpeg"@,
        FileKind::Mp4 => "mp4"@,
        FileKind::Mpc => "mpc"@,
        FileKind::Opus => "opus"@,
        FileKind::Vorbis => "vorbis"@,
        FileKind::Speex => "speex"@,
        FileKind::Wav => "wav"@,
        FileKind::WavPack => "wav_pack"@,
        FileKind::Custom(s) => s@,
        FileKind::Unknown => "unknown"@,
    }
}

impl FileKind {
    /// The name a file format is stored under.
    pub fn name(&self) -> (r: String)
        ensures
            r@ == file_kind_name(*self),
    {
        match self {
            FileKind::Aac => String::from_str("aac"),
            FileKind::Aiff => String::from_str("aiff"),
            FileKind::Ape => String::from_str("ape"),
            FileKind::Flac => String::from_str("flac"),
            FileKind::Mpeg => String::from_str("mpeg"),
            FileKind::Mp4 => String::from_str("mp4"),
            FileKind::Mpc => String::from_str("mpc"),
            FileKind::Opus => String::from_str("opus"),
            FileKind::Vorbis => String::from_str("vorbis"),
            FileKind::Speex => String::from_str("speex"),
            FileKind::Wav => String::from_str("wav"),
            FileKind::WavPack => String::from_str("wav_pack"),
            FileKind::Custom(s) => s.clone(),
            FileKind::Unknown => String::from_str("unknown"),
        }
    }
}

/// The tags read from a file's primary tag; each may be missing.
#[derive(Debug, Clone)]
pub struct TagFields {
    pub title: Option<String>,
    pub album: Option<String>,
    pub artist: Option<String>,
    pub genre: Option<String>,
    pub year: Option<u32>,
}

/// The audio properties read from a file.
#[derive(Debug, Clone, Copy)]
pub struct AudioProperties {
    pub sample_rate: Option<u32>,
    pub bit_depth: Option<u8>,
    pub audio_bitrate: Option<u32>,
    pub overall_bitrate: Option<u32>,
    pub channels: Option<u8>,
    pub duration_seconds: u64,
}

/// Everything extraction yields for one file.
#[derive(Debug, Clone)]
pub struct MediaMetaInfo {
    pub title: String,
    pub album: String,
    pub artist: String,
    pub genre: String,
    pub year: u32,
    pub cover: Option<String>,
    pub sample_rate: Option<u32>,
    pub bit_depth: Option<u8>,
    pub audio_bitrate: Option<u32>,
    pub overall_bitrate: Option<u32>,
    pub channels: Option<u8>,
    pub duration_seconds: u64,
    pub file_name: String,
    pub file_type: String,
}

/// A tag's text, or `fallback` where the tag is missing.
pub open spec fn tag_or(t: Option<String>, fallback: Seq<char>) -> Seq<char> {
    match t {
        Some(s) => s@,
        None => fallback,
    }
}

fn text_or(t: Option<String>, fallback: &str) -> (r: String)
    ensures
        r@ == tag_or(t, fallback@),
{
    match t {
        Some(s) => s,
        None => fallback.to_owned(),
    }
}

impl MediaMetaInfo {
    /// The metadata of a file whose name without extension is `stem`: tags
    /// where present, else the stem for the title and "Unknown" for album,
    /// artist and genre, and 0 (unknown) for the year. No cover yet.
    pub fn from_tags(stem: &str, tags: Option<TagFields>, props: AudioProperties, kind: &FileKind) -> (r:
        MediaMetaInfo)
        ensures
            r.title@ == (match tags {
                Some(t) => tag_or(t.title, stem@),
                None => stem@,
            }),
            r.album@ == (match tags {
                Some(t) => tag_or(t.album, "Unknown"@),
                None => "Unknown"@,
            }),
            r.artist@ == (match tags {
                Some(t) => tag_or(t.artist, "Unknown"@),
                None => "Unknown"@,
            }),
            r.genre@ == (match tags {
                Some(t) => tag_or(t.genre, "Unknown"@),
                None => "Unknown"@,
            }),
            r.year == (match tags {
                Some(t) => match t.year {
                    Some(y) => y,
                    None => 0,
                },
                None => 0,
            }),
            r.cover is None,
            r.sample_rate == props.sample_rate,
            r.bit_depth == props.bit_depth,
            r.audio_bitrate == props.audio_bitrate,
            r.overall_bitrate == props.overall_bitrate,
            r.channels == props.channels,
            r.duration_seconds == props.duration_seconds,
            r.file_name@ == stem@,
            r.file_type@ == file_kind_name(*kind),
    {
        let (title, album, artist, genre, year) = match tags {
            Some(t) => (
                text_or(t.title, stem),
                text_or(t.album, "Unknown"),
                text_or(t.artist, "Unknown"),
                text_or(t.genre, "Unknown"),
                match t.year {
                    Some(y) => y,
                    None => 0,
                },
            ),
            None => (
                stem.to_owned(),
                String::from_str("Unknown"),
                String::from_str("Unknown"),
                String::from_str("Unknown"),
                0,
            ),
        };
        MediaMetaInfo {
            title,
            album,
            artist,
            genre,
            year,
            cover: None,
            sample_rate: props.sample_rate,
            bit_depth: props.bit_depth,
            audio_bitrate: props.audio_bitrate,
            overall_bitrate: props.overall_bitrate,
            channels: props.channels,
            duration_seconds: props.duration_seconds,
            file_name: stem.to_owned(),
            file_type: kind.name(),
        }
    }

    /// How much a picture of kind `pic` is wanted as the cover: front cover
    /// over lead artist over illustration over media over back cover; 0 for
    /// any other kind, which is never taken.
    pub fn cover_picture_level(pic: PictureKind) -> (r: usize)
        ensures
            r as int == picture_level(pic),
    {
        match pic {
            PictureKind::CoverFront => 5,
            PictureKind::LeadArtist => 4,
            PictureKind::Illustration => 3,
            PictureKind::Media => 2,
            PictureKind::CoverBack => 1,
            PictureKind::Other => 0,
        }
    }

    /// Which of the embedded pictures becomes the cover: the first of the
    /// most wanted kind.
    pub fn select_cover(pics: &Vec<PictureKind>) -> (r: Option<usize>)
        ensures
            match r {
                Some(i) => best_picture(pics@) == Some(i as int),
                None => best_picture(pics@) is None,
            },
            match r {
                Some(i) => is_first_best(pics@, i as int),
                None => forall|k: int| 0 <= k < pics@.len() ==> picture_level(#[trigger] pics@[k]) == 0,
            },
    {
        proof {
            lemma_best_picture_is_first_best(pics@);
        }
        let mut best: Option<usize> = None;
        let mut i: usize = 0;
        while i < pics.len()
            invariant
                i <= pics@.len(),
                match best {
                    Some(b) => best_picture(pics@.subrange(0, i as int)) == Some(b as int),
                    None => best_picture(pics@.subrange(0, i as int)) is None,
                },
            decreases pics@.len() - i,
        {
            proof {
                let p = pics@.subrange(0, i as int + 1);
                assert(p.drop_last() =~= pics@.subrange(0, i as int));
                lemma_best_picture_bounds(pics@.subrange(0, i as int));
            }
            let level = Self::cover_picture_level(pics[i]);
            if level > 0 {
                match best {
                    None => {
                        best = Some(i);
                    },
                    Some(b) => {
                        if level > Self::cover_picture_level(pics[b]) {
                            best = Some(i);
                        }
                    },
                }
            }
            i = i + 1;
        }
        proof {
            assert(pics@.subrange(0, pics@.len() as int) =~= pics@);
        }
        best
    }

    /// The file name a cover of format `mime` is kept under, for the audio
    /// file whose name without extension is `stem`; none for a format covers
    /// are not kept in.
    pub fn cover_file_name(stem: &str, mime: MimeKind) -> (r: Option<String>)
        ensures
            match mime_extension(mime) {
                Some(ext) => r is Some && r->0@ == stem@ + "."@ + ext,
                None => r is None,
            },
    {
        let ext = match mime {
            MimeKind::Bmp => ".bmp",
            MimeKind::Gif => ".gif",
            MimeKind::Jpeg => ".jpg",
            MimeKind::Png => ".png",
            MimeKind::Tiff => ".tiff",
            MimeKind::Unknown => {
                return None;
            },
        };
        proof {
            reveal_strlit(".bmp");
            reveal_strlit(".gif");
            reveal_strlit(".jpg");
            reveal_strlit(".png");
            reveal_strlit(".tiff");
            reveal_strlit("bmp");
            reveal_strlit("gif");
            reveal_strlit("jpg");
            reveal_strlit("png");
            reveal_strlit("tiff");
            reveal_strlit(".");
        }
        let r = join_text(stem, ext);
        proof {
            let e = mime_extension(mime)->0;
            assert(ext@ =~= "."@ + e);
            assert(r@ =~= stem@ + "."@ + e);
        }
        Some(r)
    }
}

/// Picture `b` is wanted as a cover, no picture is wanted more, and every
/// picture before it is wanted less.
pub open spec fn is_first_best(pics: Seq<PictureKind>, b: int) -> bool {
    &&& 0 <= b < pics.len()
    &&& picture_level(pics[b]) > 0
    &&& forall|k: int| 0 <= k < pics.len() ==> picture_level(#[trigger] pics[k]) <= picture_level(pics[b])
    &&& forall|k: int| 0 <= k < b ==> picture_level(#[trigger] pics[k]) < picture_level(pics[b])
}

/// The chosen cover is the first picture of the highest level above 0; there
/// is none exactly when every level is 0.
proof fn lemma_best_picture_is_first_best(pics: Seq<PictureKind>)
    ensures
        match best_picture(pics) {
            Some(b) => is_first_best(pics, b),
            None => forall|k: int| 0 <= k < pics.len() ==> picture_level(#[trigger] pics[k]) == 0,
        },
    decreases pics.len(),
{
    if pics.len() > 0 {
        let prev = pics.drop_last();
        let n = pics.len() - 1;
        lemma_best_picture_is_first_best(prev);
        assert forall|k: int| 0 <= k < prev.len() implies #[trigger] prev[k] == pics[k] by {}
        match best_picture(prev) {
            None => {
                if picture_level(pics[n]) > 0 {
                    assert(best_picture(pics) == Some(n));
                    assert forall|k: int| 0 <= k < n implies picture_level(#[trigger] pics[k])
                        == 0 by {
                        assert(prev[k] == pics[k]);
                    }
                } else {
                    assert(best_picture(pics) is None);
                    assert forall|k: int| 0 <= k < pics.len() implies picture_level(
                        #[trigger] pics[k],
                    ) == 0 by {
                        if k < n {
                            assert(prev[k] == pics[k]);
                        }
                    }
                }
            },
            Some(b) => {
                assert(prev[b] == pics[b]);
                if picture_level(pics[n]) > picture_level(pics[b]) {
                    assert(best_picture(pics) == Some(n));
                    assert forall|k: int| 0 <= k < n implies picture_level(#[trigger] pics[k])
                        < picture_level(pics[n]) by {
                        assert(prev[k] == pics[k]);
                    }
                } else {
                    assert(best_picture(pics) == Some(b));
                    assert forall|k: int| 0 <= k < pics.len() implies picture_level(
                        #[trigger] pics[k],
                    ) <= picture_level(pics[b]) by {
                        if k < n {
                            assert(prev[k] == pics[k]);
                        }
                    }
                    assert forall|k: int| 0 <= k < b implies picture_level(#[trigger] pics[k])
                        < picture_level(pics[b]) by {
                        assert(prev[k] == pics[k]);
                    }
                }
            },
        }
    }
}

proof fn lemma_best_picture_bounds(pics: Seq<PictureKind>)
    ensures
        match best_picture(pics) {
            Some(b) => 0 <= b < pics.len(),
            None => true,
        },
    decreases pics.len(),
{
    if pics.len() > 0 {
        lemma_best_picture_bounds(pics.drop_last());
    }
}

/// One catalog record.
#[derive(Debug, Clone)]
pub struct MediaInfo {
    pub id: i64,
    pub path: String,
    pub title: String,
    pub album: String,
    pub artist: String,
    pub genre: String,
    pub year: u32,
    pub library: String,
    pub cover_path: Option<String>,
    pub cover_url: Option<String>,
    pub sample_rate: Option<u32>,
    pub bit_depth: Option<u8>,
    pub audio_bitrate: Option<u32>,
    pub overall_bitrate: Option<u32>,
    pub channels: Option<u8>,
    pub duration_seconds: u32,
    pub categories: Vec<String>,
    pub file_name: String,
    pub file_type: String,
}

/// Free-text search: the token occurs, case-sensitively, in the title, the
/// album, the artist or the genre.
pub open spec fn matches_search(m: MediaInfo, token: Seq<char>) -> bool {
    is_infix(token, m.title@) || is_infix(token, m.album@) || is_infix(token, m.artist@)
        || is_infix(token, m.genre@)
}

/// The public address of a record's cover.
pub open spec fn cover_url_of(public_url: Seq<char>, id: i64) -> Seq<char> {
    public_url + "/api/media_cover/"@ + crate::text::int_text(id as int)
}

impl MediaInfo {
    /// The record for the file at `path` in `library`, with id `id`, from its
    /// extracted metadata. The cover path is kept as extracted; the cover URL
    /// is given only where that cover is a file (`cover_is_file`).
    pub fn from_meta(
        meta: MediaMetaInfo,
        config: &Config,
        library: &LibraryInfo,
        id: i64,
        path: String,
        cover_is_file: bool,
    ) -> (r: MediaInfo)
        ensures
            r.id == id,
            r.path == path,
            r.title == meta.title,
            r.album == meta.album,
            r.artist == meta.artist,
            r.genre == meta.genre,
            r.year == meta.year,
            r.library@ == library.title@,
            r.cover_path == meta.cover,
            (meta.cover is Some && cover_is_file) ==> r.cover_url is Some && r.cover_url->0@
                == cover_url_of(config.public_url@, id),
            !(meta.cover is Some && cover_is_file) ==> r.cover_url is None,
            r.sample_rate == meta.sample_rate,
            r.bit_depth == meta.bit_depth,
            r.audio_bitrate == meta.audio_bitrate,
            r.overall_bitrate == meta.overall_bitrate,
            r.channels == meta.channels,
            r.duration_seconds == meta.duration_seconds as u32,
            views(r.categories@) == categories_of(components(path@), components(library.path@)),
            r.file_name == meta.file_name,
            r.file_type == meta.file_type,
    {
        let categories = Self::get_categories_from_directory(&path, library);
        let cover_url = if meta.cover.is_some() && cover_is_file {
            let base = join_text(config.public_url.as_str(), "/api/media_cover/");
            let id_text = i64_text(id);
            Some(join_text(base.as_str(), id_text.as_str()))
        } else {
            None
        };
        let duration_seconds = #[verifier::truncate] (meta.duration_seconds as u32);
        MediaInfo {
            id,
            path,
            title: meta.title,
            album: meta.album,
            artist: meta.artist,
            genre: meta.genre,
            year: meta.year,
            library: library.title.clone(),
            cover_path: meta.cover,
            cover_url,
            sample_rate: meta.sample_rate,
            bit_depth: meta.bit_depth,
            audio_bitrate: meta.audio_bitrate,
            overall_bitrate: meta.overall_bitrate,
            channels: meta.channels,
            duration_seconds,
            categories,
            file_name: meta.file_name,
            file_type: meta.file_type,
        }
    }

    /// The categories of the file at `path` in library `lib`.
    pub fn get_categories_from_directory(path: &String, lib: &LibraryInfo) -> (r: Vec<String>)
        ensures
            views(r@) == categories_of(components(path@), components(lib.path@)),
    {
        categories_from_directory(path.as_str(), lib.path.as_str())
    }

    /// Whether free-text search for `content` finds this record.
    pub fn contains(&self, content: &str) -> (r: bool)
        ensures
            r == matches_search(*self, content@),
    {
        contains_text(self.title.as_str(), content) || contains_text(self.album.as_str(), content)
            || contains_text(self.artist.as_str(), content) || contains_text(
            self.genre.as_str(),
            content,
        )
    }
}

/// A search token equal to a record's exact genre finds that record.
pub proof fn lemma_exact_genre_is_found(m: MediaInfo)
    ensures
        matches_search(m, m.genre@),
{
    let g = m.genre@;
    assert(g.subrange(0int, 0int + g.len()) =~= g);
    assert(is_infix(g, g));
}

} // verus!
