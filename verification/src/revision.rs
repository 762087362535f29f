//! Which config and credentials are running, and reading them anew.

use vstd::prelude::*;
use vstd::string::StringExecFns;

use crate::text;
use crate::text::same_text;

verus! {

/// What a file held: a digest of its bytes, or nothing where there was no file.
/// Two files have the same revision exactly when their digests are the same.
#[derive(PartialEq, Eq, Debug)]
pub struct ContentRevision {
    pub digest: Option<String>,
}

impl View for ContentRevision {
    type V = Option<Seq<char>>;

    open spec fn view(&self) -> Option<Seq<char>> {
        text::opt_text(self.digest)
    }
}

impl ContentRevision {
    /// The revision of a file that is not there.
    pub fn missing() -> (res: Self)
        ensures
            res@ is None,
    {
        ContentRevision { digest: None }
    }

    /// A copy.
    pub fn copy(&self) -> (res: Self)
        ensures
            res@ == self@,
    {
        match &self.digest {
            Some(d) => ContentRevision { digest: Some(d.clone()) },
            None => ContentRevision { digest: None },
        }
    }

    /// Whether two revisions are the same.
    pub fn same(&self, other: &Self) -> (res: bool)
        ensures
            res == (self@ == other@),
    {
        match (&self.digest, &other.digest) {
            (Some(a), Some(b)) => same_text(a.as_str(), b.as_str()),
            (None, None) => true,
            _ => false,
        }
    }
}

/// The revisions of the two files that a generation runs from.
#[derive(PartialEq, Eq, Debug)]
pub struct RuntimeRevision {
    pub config: ContentRevision,
    pub credentials: ContentRevision,
}

/// The model of a runtime revision.
#[verifier::ext_equal]
pub struct RevisionModel {
    pub config: Option<Seq<char>>,
    pub credentials: Option<Seq<char>>,
}

impl View for RuntimeRevision {
    type V = RevisionModel;

    open spec fn view(&self) -> RevisionModel {
        RevisionModel { config: self.config@, credentials: self.credentials@ }
    }
}

impl RuntimeRevision {
    /// A copy.
    pub fn copy(&self) -> (res: Self)
        ensures
            res@ == self@,
    {
        RuntimeRevision { config: self.config.copy(), credentials: self.credentials.copy() }
    }

    /// Whether two revisions are the same.
    pub fn same(&self, other: &Self) -> (res: bool)
        ensures
            res == (self@ == other@),
    {
        self.config.same(&other.config) && self.credentials.same(&other.credentials)
    }
}

// ── reading the files ────────────────────────────────────────────────────

/// What came of reading the config file.
pub enum ConfigRead<C> {
    /// It could not be read.
    Failed(String),
    /// It was read; it parsed, or it did not.
    Read { revision: ContentRevision, parsed: Result<C, String> },
}

/// What came of reading the credentials file.
pub enum CredentialsRead<K> {
    /// There is none.
    Absent,
    /// Its mode could not be read.
    StatFailed(String),
    /// Others than its owner may use it, or its owner may not.
    Exposed,
    /// It could not be read.
    Failed(String),
    /// It was read; it parsed, or it did not.
    Read { revision: ContentRevision, parsed: Result<K, String> },
}

/// Whether a credentials file has the mode it must have: its owner may read and
/// write it, nobody else may do anything.
pub open spec fn private_mode(mode: u32) -> bool {
    mode & 0o777 == 0o600
}

/// Whether a credentials file has the mode it must have.
pub fn credentials_mode_ok(mode: u32) -> (res: bool)
    ensures
        res == private_mode(mode),
{
    mode & 0o777 == 0o600
}

/// A message about a file: what failed, the file, and why.
pub open spec fn file_failure(what: Seq<char>, path: Seq<char>, error: Seq<char>) -> Seq<char> {
    what + " '"@ + path + "': "@ + error
}

fn file_failed(what: &str, path: &str, error: &str) -> (out: String)
    ensures
        out@ == file_failure(what@, path@, error@),
{
    let mut out: String = String::from_str(what);
    out.append(" '");
    out.append(path);
    out.append("': ");
    out.append(error);
    out
}

/// The revision that the credentials file counts as. `empty` is the digest of no
/// bytes, which stands for a file that is there but could not be used.
pub open spec fn credentials_revision<K>(read: CredentialsRead<K>, empty: Seq<char>) -> Option<
    Seq<char>,
> {
    match read {
        CredentialsRead::Absent => None,
        CredentialsRead::Read { revision, .. } => revision@,
        _ => Some(empty),
    }
}

/// The credentials, or what is wrong with them. A file that is not there gives
/// `default`.
pub open spec fn credentials_found<K>(
    read: CredentialsRead<K>,
    path: Seq<char>,
    default: K,
) -> Result<K, Seq<char>> {
    match read {
        CredentialsRead::Absent => Ok(default),
        CredentialsRead::StatFailed(error) => Err(
            file_failure("stat credentials"@, path, error@),
        ),
        CredentialsRead::Exposed => Err(
            "credentials permissions are not 0600: '"@ + path + "'"@,
        ),
        CredentialsRead::Failed(error) => Err(file_failure("read credentials"@, path, error@)),
        CredentialsRead::Read { parsed, .. } => match parsed {
            Ok(k) => Ok(k),
            Err(error) => Err(error@),
        },
    }
}

/// What the files give: the revision that they count as, and what is in them or
/// what is wrong. What is wrong with the config comes before what is wrong with
/// the credentials.
pub open spec fn runtime_found<C, K>(
    config: ConfigRead<C>,
    config_path: Seq<char>,
    credentials: CredentialsRead<K>,
    creds_path: Seq<char>,
    default: K,
    empty: Seq<char>,
) -> (RevisionModel, Result<(C, K), Seq<char>>) {
    match config {
        ConfigRead::Failed(error) => (
            RevisionModel { config: Some(empty), credentials: None },
            Err(file_failure("load config"@, config_path, error@)),
        ),
        ConfigRead::Read { revision, parsed } => (
            RevisionModel {
                config: revision@,
                credentials: credentials_revision(credentials, empty),
            },
            match (parsed, credentials_found(credentials, creds_path, default)) {
                (Ok(c), Ok(k)) => Ok((c, k)),
                (Err(error), _) => Err(error@),
                (_, Err(error)) => Err(error),
            },
        ),
    }
}

/// The model of what the files give.
pub open spec fn loaded_model<C, K>(loaded: Result<(C, K), String>) -> Result<(C, K), Seq<char>> {
    match loaded {
        Ok(v) => Ok(v),
        Err(error) => Err(error@),
    }
}

/// What the files give. `credentials` is looked at only where the config was
/// read. `default` is what stands for credentials that are not there, and
/// `empty` is the digest of no bytes.
pub fn load_runtime_from_paths<C, K>(
    config: ConfigRead<C>,
    config_path: &str,
    credentials: CredentialsRead<K>,
    creds_path: &str,
    default: K,
    empty: String,
) -> (res: (RuntimeRevision, Result<(C, K), String>))
    ensures
        (res.0@, loaded_model(res.1)) == runtime_found(
            config,
            config_path@,
            credentials,
            creds_path@,
            default,
            empty@,
        ),
{
    match config {
        ConfigRead::Failed(error) => {
            let revision = RuntimeRevision {
                config: ContentRevision { digest: Some(empty) },
                credentials: ContentRevision::missing(),
            };
            (revision, Err(file_failed("load config", config_path, error.as_str())))
        },
        ConfigRead::Read { revision, parsed } => {
            let (credentials_revision, found): (ContentRevision, Result<K, String>) =
                match credentials {
                CredentialsRead::Absent => (ContentRevision::missing(), Ok(default)),
                CredentialsRead::StatFailed(error) => (
                    ContentRevision { digest: Some(empty) },
                    Err(file_failed("stat credentials", creds_path, error.as_str())),
                ),
                CredentialsRead::Exposed => {
                    let mut out: String = String::from_str(
                        "credentials permissions are not 0600: '",
                    );
                    out.append(creds_path);
                    out.append("'");
                    (ContentRevision { digest: Some(empty) }, Err(out))
                },
                CredentialsRead::Failed(error) => (
                    ContentRevision { digest: Some(empty) },
                    Err(file_failed("read credentials", creds_path, error.as_str())),
                ),
                CredentialsRead::Read { revision, parsed } => (revision, parsed),
            };
            let loaded = match parsed {
                Err(error) => Err(error),
                Ok(c) => match found {
                    Ok(k) => Ok((c, k)),
                    Err(error) => Err(error),
                },
            };
            (RuntimeRevision { config: revision, credentials: credentials_revision }, loaded)
        },
    }
}

/// The revision that a daemon starts from. Unlike a reload it needs both files
/// to be readable, where they are there.
pub fn runtime_revision_from_paths(
    config: Result<ContentRevision, String>,
    config_path: &str,
    credentials: Option<Result<ContentRevision, String>>,
    creds_path: &str,
) -> (res: Result<RuntimeRevision, String>)
    ensures
        match (config, credentials) {
            (Err(error), _) => res matches Err(e) && e@ == file_failure(
                "read config"@,
                config_path@,
                error@,
            ),
            (Ok(_), Some(Err(error))) => res matches Err(e) && e@ == file_failure(
                "read credentials"@,
                creds_path@,
                error@,
            ),
            (Ok(c), Some(Ok(k))) => res matches Ok(r) && r@ == (RevisionModel {
                config: c@,
                credentials: k@,
            }),
            (Ok(c), None) => res matches Ok(r) && r@ == (RevisionModel {
                config: c@,
                credentials: None,
            }),
        },
{
    match config {
        Err(error) => Err(file_failed("read config", config_path, error.as_str())),
        Ok(config) => match credentials {
            None => Ok(RuntimeRevision { config, credentials: ContentRevision::missing() }),
            Some(Err(error)) => Err(
                file_failed("read credentials", creds_path, error.as_str()),
            ),
            Some(Ok(credentials)) => Ok(RuntimeRevision { config, credentials }),
        },
    }
}

/// Credentials that others may use make every load fail.
pub proof fn law_exposed_credentials_are_refused<C, K>(
    config: ConfigRead<C>,
    config_path: Seq<char>,
    creds_path: Seq<char>,
    default: K,
    empty: Seq<char>,
)
    ensures
        runtime_found(
            config,
            config_path,
            CredentialsRead::<K>::Exposed,
            creds_path,
            default,
            empty,
        ).1 is Err,
{
}

/// Credentials are private exactly if their owner, and nobody else, may read and
/// write them and nobody may run them.
pub proof fn law_private_means_the_owner_alone(mode: u32)
    ensures
        private_mode(mode) <==> mode & 0o400 != 0 && mode & 0o200 != 0 && mode & 0o100 == 0 && mode
            & 0o070 == 0 && mode & 0o007 == 0,
{
    assert((mode & 0o777 == 0o600) <==> (mode & 0o400 != 0 && mode & 0o200 != 0 && mode & 0o100
        == 0 && mode & 0o070 == 0 && mode & 0o007 == 0)) by (bit_vector);
}

/// A runtime is loaded exactly if the config is read and parsed and the
/// credentials are either absent, which stands for the defaults, or read and
/// parsed; and it is made of just these.
pub proof fn law_runtime_is_made_of_both_files<C, K>(
    config: ConfigRead<C>,
    config_path: Seq<char>,
    credentials: CredentialsRead<K>,
    creds_path: Seq<char>,
    default: K,
    empty: Seq<char>,
)
    ensures
        ({
            let (rev, found) = runtime_found(
                config,
                config_path,
                credentials,
                creds_path,
                default,
                empty,
            );
            &&& found matches Ok(v) ==> {
                &&& config matches ConfigRead::Read { parsed: Ok(c), .. } && c == v.0
                &&& (credentials is Absent && v.1 == default) || (credentials matches
                    CredentialsRead::Read { parsed: Ok(k), .. } && k == v.1)
            }
            &&& found is Err <==> {
                ||| config is Failed
                ||| config matches ConfigRead::Read { parsed: Err(_), .. }
                ||| credentials is StatFailed
                ||| credentials is Exposed
                ||| credentials is Failed
                ||| credentials matches CredentialsRead::Read { parsed: Err(_), .. }
            }
            &&& config matches ConfigRead::Read { parsed: Err(e), .. } ==> found == Err::<
                (C, K),
                Seq<char>,
            >(e@)
        }),
{
}

/// The revision that is asked for names what was read: the config's own digest
/// or, where it could not be read, that of nothing; the credentials' own, none
/// where they are absent, and that of nothing where they could not be read.
pub proof fn law_revision_names_what_was_read<C, K>(
    config: ConfigRead<C>,
    config_path: Seq<char>,
    credentials: CredentialsRead<K>,
    creds_path: Seq<char>,
    default: K,
    empty: Seq<char>,
)
    ensures
        ({
            let rev = runtime_found(
                config,
                config_path,
                credentials,
                creds_path,
                default,
                empty,
            ).0;
            &&& config is Failed ==> rev.config == Some(empty) && rev.credentials is None
            &&& config matches ConfigRead::Read { revision, .. } ==> rev.config == revision@
            &&& config is Read && credentials is Absent ==> rev.credentials is None
            &&& config is Read ==> (credentials matches CredentialsRead::Read { revision, .. }
                ==> rev.credentials == revision@)
            &&& config is Read && credentials !is Absent && credentials !is Read
                ==> rev.credentials == Some(empty)
        }),
{
}

/// What was read is seen as it is, an error by its text; and the two halves of a
/// revision are its own.
pub proof fn law_read_files_are_seen_as_they_are<C, K>(
    loaded: Result<(C, K), String>,
    r: RuntimeRevision,
)
    ensures
        loaded matches Ok(v) ==> loaded_model(loaded) == Ok::<(C, K), Seq<char>>(v),
        loaded matches Err(e) ==> loaded_model(loaded) == Err::<(C, K), Seq<char>>(e@),
        r@.config == r.config@ && r@.credentials == r.credentials@,
{
}

/// A file that cannot be used is named in what is reported, with what was tried
/// and what went wrong.
pub proof fn law_unusable_file_is_named<C, K>(
    config: ConfigRead<C>,
    config_path: Seq<char>,
    credentials: CredentialsRead<K>,
    creds_path: Seq<char>,
    default: K,
    empty: Seq<char>,
)
    ensures
        ({
            let found = runtime_found(
                config,
                config_path,
                credentials,
                creds_path,
                default,
                empty,
            ).1;
            &&& config matches ConfigRead::Failed(e) ==> found == Err::<(C, K), Seq<char>>(
                "load config"@ + " '"@ + config_path + "': "@ + e@,
            )
            &&& (config matches ConfigRead::Read { parsed: Ok(_), .. }) ==> {
                &&& credentials is Exposed ==> found == Err::<(C, K), Seq<char>>(
                    "credentials permissions are not 0600: '"@ + creds_path + "'"@,
                )
                &&& credentials matches CredentialsRead::StatFailed(e) ==> found == Err::<
                    (C, K),
                    Seq<char>,
                >("stat credentials"@ + " '"@ + creds_path + "': "@ + e@)
                &&& credentials matches CredentialsRead::Failed(e) ==> found == Err::<
                    (C, K),
                    Seq<char>,
                >("read credentials"@ + " '"@ + creds_path + "': "@ + e@)
                &&& credentials matches CredentialsRead::Read { parsed: Err(e), .. } ==> found
                    == Err::<(C, K), Seq<char>>(e@)
            }
        }),
{
}

} // verus!
