//! Settings of a gallery-dl download and the checks made before it starts.

use vstd::prelude::*;
use vstd::string::StringExecFns;

verus! {

/// Where the images to download come from.
#[derive(Debug, Clone, PartialEq, Eq)]
pub enum GalleryDLSource {
    /// No source chosen yet.
    NoSource,
    /// The likes of a Twitter user.
    TwitterLikes { username: String },
    /// Any address that gallery-dl understands.
    CustomURL { url: String },
}

/// How gallery-dl logs in to the source.
#[derive(Debug, Clone, PartialEq, Eq)]
pub enum GalleryDLLogin {
    /// No login method chosen yet.
    NoLogin,
    ChromeCookies,
    FirefoxCookies,
    UsernamePassword { username: String, password: String },
}

/// The kinds of source, as a menu offers them.
#[derive(Debug, Copy, Clone, PartialEq, Eq, Structural)]
pub enum GalleryDLSourceKind {
    NoSource,
    TwitterLikes,
    CustomURL,
}

/// The kinds of login, as a menu offers them.
#[derive(Debug, Copy, Clone, PartialEq, Eq, Structural)]
pub enum GalleryDLLoginKind {
    NoLogin,
    ChromeCookies,
    FirefoxCookies,
    UsernamePassword,
}

/// Everything a gallery-dl download needs.
pub struct GalleryDLParams {
    pub location: Option<String>,
    pub version: Option<String>,
    pub source: GalleryDLSource,
    pub login: GalleryDLLogin,
    pub cli_arguments: String,
    pub json_config: String,
    pub log_file: Option<String>,
}

/// Whether `Url::parse` of the url crate accepts the text.
pub uninterp spec fn parses_as_url(s: Seq<char>) -> bool;

/// Whether serde_json reads the text as a JSON object.
pub uninterp spec fn is_json_object(s: Seq<char>) -> bool;

/// Whether `url::Url::parse` accepts `s` as an absolute URL.
#[verifier::external_body]
fn url_parses(s: &str) -> (r: bool)
    ensures
        r == parses_as_url(s@),
{
    url::Url::parse(s).is_ok()
}

/// Whether `serde_json::from_str::<serde_json::Value>` reads `s` as a JSON
/// value whose variant is `Value::Object`.
#[verifier::external_body]
fn json_object(s: &str) -> (r: bool)
    ensures
        r == is_json_object(s@),
{
    matches!(serde_json::from_str::<serde_json::Value>(s), Ok(serde_json::Value::Object(_)))
}

/// The kind of a source.
pub open spec fn source_kind_spec(s: GalleryDLSource) -> GalleryDLSourceKind {
    match s {
        GalleryDLSource::NoSource => GalleryDLSourceKind::NoSource,
        GalleryDLSource::TwitterLikes { .. } => GalleryDLSourceKind::TwitterLikes,
        GalleryDLSource::CustomURL { .. } => GalleryDLSourceKind::CustomURL,
    }
}

/// The kind of a login.
pub open spec fn login_kind_spec(l: GalleryDLLogin) -> GalleryDLLoginKind {
    match l {
        GalleryDLLogin::NoLogin => GalleryDLLoginKind::NoLogin,
        GalleryDLLogin::ChromeCookies => GalleryDLLoginKind::ChromeCookies,
        GalleryDLLogin::FirefoxCookies => GalleryDLLoginKind::FirefoxCookies,
        GalleryDLLogin::UsernamePassword { .. } => GalleryDLLoginKind::UsernamePassword,
    }
}

/// The message that refuses a download with these settings, or `None` when
/// they are complete; `url_ok` says whether the custom URL parses and
/// `config_ok` whether the configuration is a JSON object.
pub open spec fn download_error_with(p: GalleryDLParams, url_ok: bool, config_ok: bool) -> Option<
    Seq<char>,
> {
    if p.location is None || p.version is None {
        Some("A valid gallery-dl executable is required."@)
    } else if p.source is NoSource {
        Some("Please select an image source."@)
    } else if p.source matches GalleryDLSource::TwitterLikes { username } && username@.len() == 0 {
        Some("Please enter your Twitter username."@)
    } else if p.source is CustomURL && !url_ok {
        Some("Please enter a valid URL."@)
    } else if p.login is NoLogin {
        Some("Please select a login method."@)
    } else if p.login matches GalleryDLLogin::UsernamePassword { username, password } && (
    username@.len() == 0 || password@.len() == 0) {
        Some("Please enter a username and password."@)
    } else if !config_ok {
        Some("Configuration must be a valid JSON object."@)
    } else {
        None
    }
}

/// The message that refuses a download with these settings, or `None` when
/// they are complete.
pub open spec fn download_error(p: GalleryDLParams) -> Option<Seq<char>> {
    download_error_with(
        p,
        match p.source {
            GalleryDLSource::CustomURL { url } => parses_as_url(url@),
            _ => true,
        },
        is_json_object(p.json_config@),
    )
}

impl GalleryDLSource {
    /// The kind of this source.
    pub fn kind(&self) -> (k: GalleryDLSourceKind)
        ensures
            k == source_kind_spec(*self),
    {
        match self {
            GalleryDLSource::NoSource => GalleryDLSourceKind::NoSource,
            GalleryDLSource::TwitterLikes { .. } => GalleryDLSourceKind::TwitterLikes,
            GalleryDLSource::CustomURL { .. } => GalleryDLSourceKind::CustomURL,
        }
    }
}

impl GalleryDLLogin {
    /// The kind of this login.
    pub fn kind(&self) -> (k: GalleryDLLoginKind)
        ensures
            k == login_kind_spec(*self),
    {
        match self {
            GalleryDLLogin::NoLogin => GalleryDLLoginKind::NoLogin,
            GalleryDLLogin::ChromeCookies => GalleryDLLoginKind::ChromeCookies,
            GalleryDLLogin::FirefoxCookies => GalleryDLLoginKind::FirefoxCookies,
            GalleryDLLogin::UsernamePassword { .. } => GalleryDLLoginKind::UsernamePassword,
        }
    }
}

impl GalleryDLParams {
    /// Switches the source to another kind, starting its fields empty; the
    /// source is kept as it is when the kind does not change.
    pub fn select_source_kind(&mut self, kind: GalleryDLSourceKind)
        ensures
            kind == source_kind_spec(old(self).source) ==> final(self).source == old(self).source,
            kind != source_kind_spec(old(self).source) ==> source_kind_spec(final(self).source) == kind,
            kind != source_kind_spec(old(self).source) ==> (match final(self).source {
                GalleryDLSource::TwitterLikes { username } => username@.len() == 0,
                GalleryDLSource::CustomURL { url } => url@.len() == 0,
                GalleryDLSource::NoSource => true,
            }),
            final(self).login == old(self).login,
            final(self).location == old(self).location,
            final(self).version == old(self).version,
            final(self).json_config == old(self).json_config,
            final(self).cli_arguments == old(self).cli_arguments,
            final(self).log_file == old(self).log_file,
    {
        if kind != self.source.kind() {
            self.source = match kind {
                GalleryDLSourceKind::NoSource => GalleryDLSource::NoSource,
                GalleryDLSourceKind::TwitterLikes => GalleryDLSource::TwitterLikes {
                    username: String::new(),
                },
                GalleryDLSourceKind::CustomURL => GalleryDLSource::CustomURL { url: String::new() },
            };
        }
    }

    /// Switches the login to another kind, starting its fields empty; the
    /// login is kept as it is when the kind does not change.
    pub fn select_login_kind(&mut self, kind: GalleryDLLoginKind)
        ensures
            kind == login_kind_spec(old(self).login) ==> final(self).login == old(self).login,
            kind != login_kind_spec(old(self).login) ==> login_kind_spec(final(self).login) == kind,
            kind != login_kind_spec(old(self).login) ==> (final(self).login matches GalleryDLLogin::UsernamePassword { username, password }
                ==> username@.len() == 0 && password@.len() == 0),
            final(self).source == old(self).source,
            final(self).location == old(self).location,
            final(self).version == old(self).version,
            final(self).json_config == old(self).json_config,
            final(self).cli_arguments == old(self).cli_arguments,
            final(self).log_file == old(self).log_file,
    {
        if kind != self.login.kind() {
            self.login = match kind {
                GalleryDLLoginKind::NoLogin => GalleryDLLogin::NoLogin,
                GalleryDLLoginKind::ChromeCookies => GalleryDLLogin::ChromeCookies,
                GalleryDLLoginKind::FirefoxCookies => GalleryDLLogin::FirefoxCookies,
                GalleryDLLoginKind::UsernamePassword => GalleryDLLogin::UsernamePassword {
                    username: String::new(),
                    password: String::new(),
                },
            };
        }
    }

    /// Checks the settings before a download starts: the executable must have
    /// been found, a source and a login method chosen and filled in, and the
    /// configuration must be a JSON object.
    pub fn validate(&self) -> (r: Result<(), &'static str>)
        ensures
            r is Ok <==> download_error(*self) is None,
            r matches Err(m) ==> download_error(*self) == Some(m@),
    {
        let url_ok = match &self.source {
            GalleryDLSource::CustomURL { url } => url_parses(url.as_str()),
            _ => true,
        };
        let config_ok = json_object(self.json_config.as_str());
        self.validate_with(url_ok, config_ok)
    }

    /// The checks of `validate`, given whether the custom URL parses and
    /// whether the configuration is a JSON object.
    pub fn validate_with(&self, url_ok: bool, config_ok: bool) -> (r: Result<(), &'static str>)
        ensures
            r is Ok <==> download_error_with(*self, url_ok, config_ok) is None,
            r matches Err(m) ==> download_error_with(*self, url_ok, config_ok) == Some(m@),
    {
        proof {
            reveal_strlit("A valid gallery-dl executable is required.");
            reveal_strlit("Please select an image source.");
            reveal_strlit("Please enter your Twitter username.");
            reveal_strlit("Please enter a valid URL.");
            reveal_strlit("Please select a login method.");
            reveal_strlit("Please enter a username and password.");
            reveal_strlit("Configuration must be a valid JSON object.");
        }
        if self.location.is_none() || self.version.is_none() {
            return Err("A valid gallery-dl executable is required.");
        }
        match &self.source {
            GalleryDLSource::NoSource => {
                return Err("Please select an image source.");
            },
            GalleryDLSource::TwitterLikes { username } => {
                if username.as_str().is_empty() {
                    return Err("Please enter your Twitter username.");
                }
            },
            GalleryDLSource::CustomURL { .. } => {
                if !url_ok {
                    return Err("Please enter a valid URL.");
                }
            },
        }
        match &self.login {
            GalleryDLLogin::NoLogin => {
                return Err("Please select a login method.");
            },
            GalleryDLLogin::UsernamePassword { username, password } => {
                if username.as_str().is_empty() || password.as_str().is_empty() {
                    return Err("Please enter a username and password.");
                }
            },
            _ => {},
        }
        if !config_ok {
            return Err("Configuration must be a valid JSON object.");
        }
        Ok(())
    }
}

/// What the dialog shows about the gallery-dl executable.
#[derive(Debug, Clone, PartialEq, Eq)]
pub enum ExecutableStatus {
    /// A search for the executable is running.
    Detecting,
    /// No usable executable is known; the user may pick one.
    NotFound,
    /// The executable is known, in this version; the user may pick another.
    Found(String),
}

/// How a search for the gallery-dl executable ended.
pub enum FindOutcome {
    /// The executable was found at `path`, in `version`.
    Found { path: String, version: String },
    /// The user cancelled the search.
    Cancelled,
    /// The search failed with this message.
    Failed(String),
    /// The task ended with another kind of result.
    Other,
}

/// What the dialog remembers between frames.
pub struct DownloadState {
    /// A search for the executable is running.
    pub loading_find: bool,
    /// Why the last search failed.
    pub find_error: Option<String>,
    /// Why the last download was refused.
    pub error_message: Option<String>,
    /// The dialog was opened.
    pub opened: bool,
}

/// The status of the executable while `loading` tells whether a search
/// runs.
pub open spec fn executable_status_spec(loading: bool, p: GalleryDLParams) -> ExecutableStatus {
    if loading {
        ExecutableStatus::Detecting
    } else {
        match (p.location, p.version) {
            (Some(_), Some(v)) => ExecutableStatus::Found(v),
            _ => ExecutableStatus::NotFound,
        }
    }
}

impl DownloadState {
    /// A dialog not yet opened, with nothing to report.
    pub fn new() -> (d: Self)
        ensures
            !d.loading_find,
            d.find_error is None,
            d.error_message is None,
            !d.opened,
    {
        DownloadState { loading_find: false, find_error: None, error_message: None, opened: false }
    }

    /// What the dialog shows about the executable.
    pub fn executable_status(&self, params: &GalleryDLParams) -> (s: ExecutableStatus)
        ensures
            s == executable_status_spec(self.loading_find, *params),
    {
        if self.loading_find {
            ExecutableStatus::Detecting
        } else {
            match (&params.location, &params.version) {
                (Some(_), Some(v)) => ExecutableStatus::Found(v.clone()),
                _ => ExecutableStatus::NotFound,
            }
        }
    }

    /// The user asks to pick the executable: what was known of it is
    /// forgotten and a search runs.
    pub fn select_gallery_dl(&mut self, params: &mut GalleryDLParams)
        ensures
            final(self).loading_find,
            final(self).find_error == old(self).find_error,
            final(self).error_message == old(self).error_message,
            final(self).opened == old(self).opened,
            final(params).location is None,
            final(params).version is None,
            final(params).source == old(params).source,
            final(params).login == old(params).login,
            final(params).cli_arguments == old(params).cli_arguments,
            final(params).json_config == old(params).json_config,
            final(params).log_file == old(params).log_file,
    {
        params.location = None;
        params.version = None;
        self.loading_find = true;
    }

    /// The first frame of the dialog: a search for the executable starts,
    /// and the downloads log to `log_file`. Hands back whether the dialog
    /// was just opened (the search and the log file are only set up then).
    pub fn open(&mut self, params: &mut GalleryDLParams, log_file: String) -> (first: bool)
        ensures
            first == !old(self).opened,
            final(self).opened,
            first ==> final(self).loading_find && final(params).log_file == Some(log_file),
            !first ==> final(self).loading_find == old(self).loading_find && final(params).log_file
                == old(params).log_file,
            final(self).find_error == old(self).find_error,
            final(self).error_message == old(self).error_message,
            final(params).location == old(params).location,
            final(params).version == old(params).version,
            final(params).source == old(params).source,
            final(params).login == old(params).login,
            final(params).cli_arguments == old(params).cli_arguments,
            final(params).json_config == old(params).json_config,
    {
        let first = !self.opened;
        if first {
            params.log_file = Some(log_file);
            self.loading_find = true;
            self.opened = true;
        }
        first
    }

    /// A search for the executable ended: a found executable is taken, a
    /// failure is remembered, a cancellation changes nothing.
    pub fn on_find_result(&mut self, params: &mut GalleryDLParams, outcome: FindOutcome)
        ensures
            !final(self).loading_find,
            final(self).error_message == old(self).error_message,
            final(self).opened == old(self).opened,
            match outcome {
                FindOutcome::Found { path, version } => final(params).location == Some(path)
                    && final(params).version == Some(version) && final(self).find_error == old(
                    self,
                ).find_error,
                FindOutcome::Failed(e) => final(self).find_error == Some(e)
                    && final(params).location == old(params).location && final(params).version
                    == old(params).version,
                _ => final(self).find_error == old(self).find_error && final(params).location
                    == old(params).location && final(params).version == old(params).version,
            },
            final(params).source == old(params).source,
            final(params).login == old(params).login,
            final(params).cli_arguments == old(params).cli_arguments,
            final(params).json_config == old(params).json_config,
            final(params).log_file == old(params).log_file,
    {
        self.loading_find = false;
        match outcome {
            FindOutcome::Found { path, version } => {
                params.location = Some(path);
                params.version = Some(version);
            },
            FindOutcome::Failed(e) => {
                self.find_error = Some(e);
            },
            FindOutcome::Cancelled => {},
            FindOutcome::Other => {},
        }
    }

    /// The "Download" button: settings that `validate` refuses leave their
    /// message for the dialog and start nothing; otherwise the download
    /// starts. Hands back whether it starts.
    pub fn on_download_clicked(&mut self, params: &GalleryDLParams) -> (start: bool)
        ensures
            start == download_error(*params) is None,
            match download_error(*params) {
                Some(m) => final(self).error_message matches Some(e) && e@ == m,
                None => final(self).error_message == old(self).error_message,
            },
            final(self).loading_find == old(self).loading_find,
            final(self).find_error == old(self).find_error,
            final(self).opened == old(self).opened,
    {
        match params.validate() {
            Err(e) => {
                self.error_message = Some(e.to_owned());
                false
            },
            Ok(()) => true,
        }
    }
}

} // verus!
