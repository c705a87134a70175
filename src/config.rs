//! Configuration: the libraries to index and where covers and plugins live,
//! read from `title;path` library options.
use crate::model::LibraryInfo;
use crate::paths::{split_on, split_text};
use crate::text::{int_text, join_text, u64_text, views};
use vstd::prelude::*;

verus! {

/// What a run is configured with.
#[derive(Debug, Clone)]
pub struct Config {
    pub libraries: Vec<LibraryInfo>,
    pub data_path: Option<String>,
    pub covers_cached_path: Option<String>,
    pub host: String,
    pub port: u16,
    pub public_url: String,
}

/// The commands the program runs.
#[derive(Debug, Clone, Copy, PartialEq, Eq, Structural)]
pub enum Commands {
    Serve,
}

/// The command line, as parsed.
#[derive(Debug, Clone)]
pub struct Meta {
    pub config: Option<String>,
    pub data_path: Option<String>,
    pub library: Option<Vec<String>>,
    pub host: String,
    pub port: u16,
    pub public_url: String,
    pub command: Commands,
}

/// Why a configuration is refused.
#[derive(Debug, Clone, Copy, PartialEq, Eq, Structural)]
pub enum ConfigError {
    /// The library option at this position has more than one `;`.
    BadLibraryOption(usize),
}

/// A library option names a title and a path (`title;path`) or only a path.
pub open spec fn option_parts(entry: Seq<char>) -> Seq<Seq<char>> {
    split_on(entry, ';')
}

/// The path of a well-formed library option: its last part.
pub open spec fn option_path_of(entry: Seq<char>) -> Option<Seq<char>> {
    let p = option_parts(entry);
    if p.len() <= 2 {
        Some(p.last())
    } else {
        None
    }
}

/// The name an untitled library gets: `Unknown_` and its number.
pub open spec fn unknown_title(n: int) -> Seq<char> {
    "Unknown_"@ + int_text(n)
}

/// A title already taken by one of `libs`.
pub open spec fn title_taken(libs: Seq<(Seq<char>, Seq<char>)>, title: Seq<char>) -> bool {
    exists|k: int| 0 <= k < libs.len() && (#[trigger] libs[k]).0 == title
}

/// The libraries (title, path) taken from the first options, and the number
/// the next untitled library gets. An option is taken when its path is a
/// directory (`dirs`) and its title is not taken yet; an untitled one uses up
/// its number only when taken.
pub open spec fn libraries_from(entries: Seq<Seq<char>>, dirs: Seq<bool>) -> (
    Seq<(Seq<char>, Seq<char>)>,
    int,
)
    decreases entries.len(),
{
    if entries.len() == 0 {
        (Seq::empty(), 1)
    } else {
        let (libs, next) = libraries_from(entries.drop_last(), dirs);
        let i = entries.len() - 1;
        let p = option_parts(entries[i]);
        let (title, path) = if p.len() == 1 {
            (unknown_title(next), p[0])
        } else {
            (p[0], p[1])
        };
        if title_taken(libs, title) || !dirs[i] {
            (libs, next)
        } else {
            (libs.push((title, path)), if p.len() == 1 {
                next + 1
            } else {
                next
            })
        }
    }
}

/// The first option with more than one `;`, if any.
pub open spec fn first_bad_option(entries: Seq<Seq<char>>) -> Option<int> {
    if exists|i: int| 0 <= i < entries.len() && option_parts(#[trigger] entries[i]).len() > 2 {
        Some(
            choose|i: int|
                0 <= i < entries.len() && option_parts(#[trigger] entries[i]).len() > 2 && forall|
                    j: int,
                | 0 <= j < i ==> option_parts(#[trigger] entries[j]).len() <= 2,
        )
    } else {
        None
    }
}

pub open spec fn library_views(v: Seq<LibraryInfo>) -> Seq<(Seq<char>, Seq<char>)> {
    v.map_values(|l: LibraryInfo| (l.title@, l.path@))
}

/// The path part of a library option, where the option is well formed.
pub fn option_path(entry: &str) -> (r: Option<String>)
    ensures
        match option_path_of(entry@) {
            Some(p) => r is Some && r->0@ == p,
            None => r is None,
        },
{
    let mut parts = split_text(entry, ';');
    proof {
        crate::paths::lemma_split_on_nonempty(entry@, ';');
    }
    if parts.len() > 2 {
        return None;
    }
    let last = parts.pop();
    match last {
        Some(p) => Some(p),
        None => None,
    }
}

fn title_in(libs: &Vec<LibraryInfo>, title: &String) -> (r: bool)
    ensures
        r == title_taken(library_views(libs@), title@),
{
    let mut k: usize = 0;
    while k < libs.len()
        invariant
            k <= libs@.len(),
            forall|t: int| 0 <= t < k ==> libs@[t].title@ != title@,
        decreases libs@.len() - k,
    {
        if libs[k].title == *title {
            proof {
                assert(library_views(libs@)[k as int].0 == title@);
            }
            return true;
        }
        k = k + 1;
    }
    proof {
        if title_taken(library_views(libs@), title@) {
            let t = choose|t: int|
                0 <= t < library_views(libs@).len() && (#[trigger] library_views(libs@)[t]).0
                    == title@;
            assert(libs@[t].title@ == title@);
        }
    }
    false
}

/// The libraries named by the library options `title_with_paths`, where
/// `dirs[i]` tells whether the path of option `i` is a directory. An option
/// is `title;path` or a bare path, whose library is then called `Unknown_1`,
/// `Unknown_2` and so on. Options whose path is not a directory, or whose
/// title is taken, are passed over. An option with more than one `;` is an
/// error.
pub fn to_libraries(title_with_paths: &Vec<String>, dirs: &Vec<bool>) -> (r: Result<
    Vec<LibraryInfo>,
    ConfigError,
>)
    requires
        dirs@.len() == title_with_paths@.len(),
        title_with_paths@.len() < u64::MAX,
    ensures
        match first_bad_option(views(title_with_paths@)) {
            Some(i) => r == Err::<Vec<LibraryInfo>, ConfigError>(
                ConfigError::BadLibraryOption(i as usize),
            ),
            None => r is Ok && library_views(r->Ok_0@) == libraries_from(
                views(title_with_paths@),
                dirs@,
            ).0,
        },
{
    let ghost es = views(title_with_paths@);
    let mut libraries: Vec<LibraryInfo> = Vec::new();
    let mut count_unknown: u64 = 1;
    let mut i: usize = 0;
    while i < title_with_paths.len()
        invariant
            i <= es.len(),
            es == views(title_with_paths@),
            es.len() < u64::MAX,
            dirs@.len() == es.len(),
            forall|j: int| 0 <= j < i ==> option_parts(#[trigger] es[j]).len() <= 2,
            library_views(libraries@) == libraries_from(es.subrange(0, i as int), dirs@).0,
            count_unknown == libraries_from(es.subrange(0, i as int), dirs@).1,
            1 <= count_unknown <= i + 1,
        decreases es.len() - i,
    {
        let entry = title_with_paths[i].as_str();
        let parts = split_text(entry, ';');
        let ghost prefix = es.subrange(0, i as int + 1);
        proof {
            crate::paths::lemma_split_on_nonempty(entry@, ';');
            assert(prefix.drop_last() =~= es.subrange(0, i as int));
            assert(prefix[i as int] == entry@);
        }
        if parts.len() > 2 {
            proof {
                assert(option_parts(es[i as int]).len() > 2);
                let b = first_bad_option(es);
                assert(exists|k: int| 0 <= k < es.len() && option_parts(#[trigger] es[k]).len() > 2);
                let k = b->0;
                assert(k == i) by {
                    if k < i {
                        assert(option_parts(es[k]).len() <= 2);
                    }
                    if k > i {
                        assert(option_parts(es[i as int]).len() <= 2);
                    }
                }
            }
            return Err(ConfigError::BadLibraryOption(i));
        }
        let untitled = parts.len() == 1;
        let (title, path) = if untitled {
            let n = u64_text(count_unknown);
            (join_text("Unknown_", n.as_str()), parts[0].clone())
        } else {
            (parts[0].clone(), parts[1].clone())
        };
        proof {
            assert(views(parts@)[0] == parts@[0]@);
            if !untitled {
                assert(views(parts@)[1] == parts@[1]@);
            }
        }
        let taken = title_in(&libraries, &title);
        if !taken && dirs[i] {
            proof {
                assert(library_views(libraries@.push(LibraryInfo { path, title })) =~= library_views(
                    libraries@,
                ).push((title@, path@)));
            }
            libraries.push(LibraryInfo { path, title });
            if untitled {
                count_unknown = count_unknown + 1;
            }
        }
        i = i + 1;
    }
    proof {
        assert(es.subrange(0, es.len() as int) =~= es);
        assert(!(exists|k: int| 0 <= k < es.len() && option_parts(#[trigger] es[k]).len() > 2));
    }
    Ok(libraries)
}

/// `name` inside the directory `dir`, with one separator between them.
pub open spec fn join_path(dir: Seq<char>, name: Seq<char>) -> Seq<char> {
    if dir.len() == 0 || dir.last() == '/' {
        dir + name
    } else {
        dir + "/"@ + name
    }
}

/// `name` inside the directory `dir`.
pub fn join_dir(dir: &str, name: &str) -> (r: String)
    ensures
        r@ == join_path(dir@, name@),
{
    let n = dir.unicode_len();
    if n == 0 || dir.get_char(n - 1) == '/' {
        proof {
            if n > 0 {
                assert(dir@.last() == dir@[n - 1]);
            }
        }
        join_text(dir, name)
    } else {
        let d = join_text(dir, "/");
        join_text(d.as_str(), name)
    }
}

impl Config {
    /// The configuration given on the command line: the libraries its options
    /// name (none without options), covers cached in `covers_cached` under the
    /// data directory where there is one. `dirs[i]` tells whether the path of
    /// library option `i` is a directory.
    pub fn load_from_meta(meta: Meta, dirs: &Vec<bool>) -> (r: Result<Config, ConfigError>)
        requires
            dirs@.len() == match meta.library {
                Some(l) => l@.len(),
                None => 0,
            },
            match meta.library {
                Some(l) => l@.len() < u64::MAX,
                None => true,
            },
        ensures
            match meta.library {
                Some(l) => match first_bad_option(views(l@)) {
                    Some(i) => r == Err::<Config, ConfigError>(ConfigError::BadLibraryOption(i as usize)),
                    None => r is Ok && library_views(r->Ok_0.libraries@) == libraries_from(
                        views(l@),
                        dirs@,
                    ).0,
                },
                None => r is Ok && r->Ok_0.libraries@.len() == 0,
            },
            r is Ok ==> {
                let c = r->Ok_0;
                &&& c.data_path == meta.data_path
                &&& c.host == meta.host
                &&& c.port == meta.port
                &&& c.public_url == meta.public_url
                &&& match meta.data_path {
                    Some(p) => c.covers_cached_path is Some && c.covers_cached_path->0@
                        == join_path(p@, "covers_cached"@),
                    None => c.covers_cached_path is None,
                }
            },
    {
        let libraries = match &meta.library {
            Some(l) => match to_libraries(l, dirs) {
                Ok(v) => v,
                Err(e) => {
                    return Err(e);
                },
            },
            None => Vec::new(),
        };
        let covers_cached_path = match &meta.data_path {
            Some(p) => Some(join_dir(p.as_str(), "covers_cached")),
            None => None,
        };
        Ok(Config {
            libraries,
            data_path: meta.data_path,
            covers_cached_path,
            host: meta.host,
            port: meta.port,
            public_url: meta.public_url,
        })
    }
}

} // verus!
