//! What the catalog shows to its callers: users and what they may do, the
//! errors a request can end in, and the shapes of requests and replies.
use crate::model::MediaInfo;
use crate::text::{calc_hash, hash_of, int_text, join_text, u64_text};
use vstd::prelude::*;
use vstd::string::StringExecFns;

verus! {

/// A registered user.
#[derive(Debug, Clone)]
pub struct UserInfo {
    pub id: i64,
    pub username: String,
    pub password: String,
    pub alias: String,
    pub is_admin: bool,
}

/// A user to create, or the new details of one.
#[derive(Debug, Clone)]
pub struct UserToCreate {
    pub alias: String,
    pub username: String,
    pub password: String,
}

fn copy_user(u: &UserInfo) -> (r: UserInfo)
    ensures
        r == *u,
{
    UserInfo {
        id: u.id,
        username: u.username.clone(),
        password: u.password.clone(),
        alias: u.alias.clone(),
        is_admin: u.is_admin,
    }
}

/// The session token a user gets on logging in: the decimal hash of their
/// name and password.
pub fn user_token(user: &UserInfo) -> (r: String)
    ensures
        r@ == int_text(hash_of(user.username@ + "+"@ + user.password@) as int),
{
    let a = join_text(user.username.as_str(), "+");
    let ident = join_text(a.as_str(), user.password.as_str());
    proof {
        assert(ident@ =~= user.username@ + "+"@ + user.password@);
    }
    let h = calc_hash(ident.as_str());
    u64_text(h)
}

/// The kinds of error a request ends in.
#[derive(Debug, Clone, Copy, PartialEq, Eq, Structural)]
pub enum APIErrorType {
    NoPermission,
    NoFound,
    Unspecified,
    NoFoundUser,
    Unexpected,
}

/// The name of an error kind.
pub open spec fn error_type_name(t: APIErrorType) -> Seq<char> {
    match t {
        APIErrorType::NoPermission => "NoPermission"@,
        APIErrorType::NoFound => "NoFound"@,
        APIErrorType::Unspecified => "Unspecified"@,
        APIErrorType::NoFoundUser => "NoFoundUser"@,
        APIErrorType::Unexpected => "Unexpected"@,
    }
}

/// The HTTP status an error kind answers with.
pub open spec fn error_status(t: APIErrorType) -> u16 {
    match t {
        APIErrorType::NoFound => 404,
        APIErrorType::NoPermission => 406,
        APIErrorType::Unspecified => 500,
        APIErrorType::NoFoundUser => 404,
        APIErrorType::Unexpected => 417,
    }
}

impl APIErrorType {
    /// The name of this error kind.
    pub fn name(&self) -> (r: &'static str)
        ensures
            r@ == error_type_name(*self),
    {
        match self {
            APIErrorType::NoPermission => "NoPermission",
            APIErrorType::NoFound => "NoFound",
            APIErrorType::Unspecified => "Unspecified",
            APIErrorType::NoFoundUser => "NoFoundUser",
            APIErrorType::Unexpected => "Unexpected",
        }
    }
}

/// An error a request ends in: its kind and, maybe, a note for the caller.
#[derive(Debug)]
pub struct APIError {
    error_type: APIErrorType,
    note: Option<String>,
}

impl APIError {
    pub closed spec fn kind(&self) -> APIErrorType {
        self.error_type
    }

    pub closed spec fn note_text(&self) -> Option<Seq<char>> {
        match self.note {
            Some(n) => Some(n@),
            None => None,
        }
    }

    /// An error of kind `error_type`, without a note.
    pub fn with(error_type: APIErrorType) -> (r: Self)
        ensures
            r.kind() == error_type,
            r.note_text() is None,
    {
        Self { error_type, note: None }
    }

    /// The same error with `note` attached.
    pub fn note(self, note: String) -> (r: Self)
        ensures
            r.kind() == self.kind(),
            r.note_text() == Some(note@),
    {
        Self { error_type: self.error_type, note: Some(note) }
    }

    /// The kind of this error.
    pub fn error_type(&self) -> (r: APIErrorType)
        ensures
            r == self.kind(),
    {
        self.error_type
    }

    /// How the error reads: its kind's name, then `: ` and the note if there
    /// is one.
    pub fn message(&self) -> (r: String)
        ensures
            r@ == match self.note_text() {
                Some(n) => error_type_name(self.kind()) + ": "@ + n,
                None => error_type_name(self.kind()),
            },
    {
        let name = self.error_type.name();
        match &self.note {
            Some(n) => {
                let head = join_text(name, ": ");
                join_text(head.as_str(), n.as_str())
            },
            None => name.to_owned(),
        }
    }

    /// The HTTP status this error answers with.
    pub fn status_code(&self) -> (r: u16)
        ensures
            r == error_status(self.kind()),
    {
        match self.error_type {
            APIErrorType::NoFound => 404,
            APIErrorType::NoPermission => 406,
            APIErrorType::Unspecified => 500,
            APIErrorType::NoFoundUser => 404,
            APIErrorType::Unexpected => 417,
        }
    }
}

/// Who is asking: the logged-in user, if any.
#[derive(Debug, Clone)]
pub struct UserPermission {
    owner: Option<UserInfo>,
}

impl UserPermission {
    pub closed spec fn owner_of(&self) -> Option<UserInfo> {
        self.owner
    }

    /// The permission of `owner`, or of nobody.
    pub fn new(owner: Option<UserInfo>) -> (r: Self)
        ensures
            r.owner_of() == owner,
    {
        UserPermission { owner }
    }

    /// The asker is logged in as an administrator.
    pub fn is_admin(&self) -> (r: bool)
        ensures
            r == (self.owner_of() is Some && self.owner_of()->0.is_admin),
    {
        match &self.owner {
            Some(owner) => owner.is_admin,
            None => false,
        }
    }

    /// The asker may act on the account `username`: an administrator may act
    /// on any, another user only on their own.
    pub fn have_permission_with(&self, username: &str) -> (r: bool)
        ensures
            r == (self.owner_of() is Some && (self.owner_of()->0.is_admin
                || self.owner_of()->0.username@ == username@)),
    {
        if self.is_admin() {
            true
        } else {
            match &self.owner {
                Some(owner) => owner.username == username.to_owned(),
                None => false,
            }
        }
    }

    /// The logged-in user, or a refusal when nobody is logged in.
    pub fn get_owner(&self) -> (r: Result<UserInfo, APIError>)
        ensures
            match self.owner_of() {
                Some(u) => r == Ok::<UserInfo, APIError>(u),
                None => r is Err && r->Err_0.kind() == APIErrorType::NoPermission
                    && r->Err_0.note_text() is Some,
            },
    {
        match &self.owner {
            Some(owner) => Ok(copy_user(owner)),
            None => Err(
                APIError::with(APIErrorType::NoPermission).note(
                    String::from_str("User is not logging!"),
                ),
            ),
        }
    }

    /// Somebody is logged in.
    pub fn exists_owner(&self) -> (r: bool)
        ensures
            r == self.owner_of() is Some,
    {
        self.owner.is_some()
    }

    /// The guest account is logged in.
    pub fn is_guest(&self) -> (r: bool)
        ensures
            r == (self.owner_of() is Some && self.owner_of()->0.username@ == "guest"@),
    {
        match &self.owner {
            Some(owner) => owner.username == String::from_str("guest"),
            None => false,
        }
    }
}

/// A record's identifier as text.
#[derive(Debug, Clone)]
pub struct DiosicID {
    content: String,
}

impl View for DiosicID {
    type V = Seq<char>;

    closed spec fn view(&self) -> Seq<char> {
        self.content@
    }
}

impl DiosicID {
    /// The identifier written as `content`.
    pub fn new(content: &str) -> (r: Self)
        ensures
            r@ == content@,
    {
        DiosicID { content: content.to_owned() }
    }

    /// The identifier's text.
    pub fn as_str(&self) -> (r: &str)
        ensures
            r@ == self@,
    {
        self.content.as_str()
    }
}

/// What the server tells about itself.
#[derive(Debug, Clone)]
pub struct ServerInfo {
    pub version: &'static str,
    pub author: &'static str,
    pub time_running: u64,
    pub admin_required: bool,
    pub guest_enable: bool,
    pub guest_password_required: bool,
}

/// A record as callers see it: everything but where its files lie.
#[derive(Debug, Clone)]
pub struct PubMediaInfo {
    pub id: i64,
    pub title: String,
    pub album: String,
    pub artist: String,
    pub genre: String,
    pub year: u32,
    pub library: String,
    pub cover_url: Option<String>,
    pub categories: Vec<String>,
    pub sample_rate: Option<u32>,
    pub bit_depth: Option<u8>,
    pub audio_bitrate: Option<u32>,
    pub overall_bitrate: Option<u32>,
    pub channels: Option<u8>,
    pub duration_seconds: u32,
    pub file_name: String,
    pub file_type: String,
}

impl PubMediaInfo {
    /// The public part of a record.
    pub fn from_media(value: MediaInfo) -> (r: Self)
        ensures
            r.id == value.id,
            r.title == value.title,
            r.album == value.album,
            r.artist == value.artist,
            r.genre == value.genre,
            r.year == value.year,
            r.library == value.library,
            r.cover_url == value.cover_url,
            r.categories == value.categories,
            r.sample_rate == value.sample_rate,
            r.bit_depth == value.bit_depth,
            r.audio_bitrate == value.audio_bitrate,
            r.overall_bitrate == value.overall_bitrate,
            r.channels == value.channels,
            r.duration_seconds == value.duration_seconds,
            r.file_name == value.file_name,
            r.file_type == value.file_type,
    {
        PubMediaInfo {
            id: value.id,
            title: value.title,
            album: value.album,
            artist: value.artist,
            genre: value.genre,
            year: value.year,
            library: value.library,
            cover_url: value.cover_url,
            categories: value.categories,
            sample_rate: value.sample_rate,
            bit_depth: value.bit_depth,
            audio_bitrate: value.audio_bitrate,
            overall_bitrate: value.overall_bitrate,
            channels: value.channels,
            duration_seconds: value.duration_seconds,
            file_name: value.file_name,
            file_type: value.file_type,
        }
    }
}

/// One page of a list and the list's total length.
#[derive(Debug, Clone)]
pub struct ListSlice<T> {
    pub items: Vec<T>,
    pub total: usize,
}

/// A request for one page of a facet's groups.
#[derive(Debug, Clone)]
pub struct GetSourcesQuery {
    pub limit: usize,
    pub index: usize,
    pub source: String,
    pub filter: Option<String>,
}

/// A request for one page of records.
#[derive(Debug, Clone)]
pub struct GetMediasQuery {
    pub limit: usize,
    pub index: usize,
    pub source: String,
    pub filter: Option<String>,
    pub to_search: Option<String>,
}

/// A request for one page of users.
#[derive(Debug, Clone)]
pub struct GetUsersQuery {
    pub limit: usize,
    pub index: usize,
    pub to_search: Option<String>,
}

/// The first administrator and the guest account to set up.
#[derive(Debug, Clone)]
pub struct ToSetup {
    pub alias: String,
    pub username: String,
    pub password: String,
    pub guest_enable: bool,
    pub guest_password: Option<String>,
}

/// A login attempt.
#[derive(Debug, Clone)]
pub struct LoginQuery {
    pub username: String,
    pub password: String,
}

/// A successful login: who is logged in and their token.
#[derive(Debug, Clone)]
pub struct LoginedResult {
    pub current: UserInfo,
    pub token: String,
}

/// A logout request.
#[derive(Debug, Clone)]
pub struct LogoutQuery {
    pub token: String,
}

/// A search among users.
#[derive(Debug, Clone)]
pub struct SearchUserQuery {
    pub content: String,
    pub index: usize,
    pub limit: usize,
}

/// A token passed in the query string.
#[derive(Debug, Clone)]
pub struct AuthQuery {
    pub auth: String,
}

/// A request for one page of plugins.
#[derive(Debug, Clone)]
pub struct GetPLuginQuery {
    pub index: usize,
    pub limit: usize,
}

} // verus!
