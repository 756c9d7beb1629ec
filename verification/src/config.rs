//! The server's settings.

use vstd::prelude::*;

use crate::encoding;
use crate::encoding::Base64Error;
use crate::security;
use crate::text;

verus! {

/// What the environment says; what it does not say is `None`.
#[derive(Debug, PartialEq, Eq)]
pub struct Environment {
    pub env: Option<String>,
    pub data_dir: Option<String>,
    pub bind: Option<String>,
    pub static_dir: Option<String>,
    pub worker_concurrency: Option<String>,
    pub support_email: Option<String>,
    pub support_wechat: Option<String>,
}

/// The settings that the server runs with.
#[derive(Debug, PartialEq, Eq)]
pub struct Config {
    pub bind: String,
    pub data_directory: String,
    pub image_directory: String,
    pub task_directory: String,
    pub static_directory: String,
    pub production: bool,
    pub master_key: [u8; 32],
    pub worker_concurrency: usize,
    pub support_email: Option<String>,
    pub support_wechat: Option<String>,
}

/// A path below a directory; an absolute path stands for itself.
pub open spec fn path_below(directory: Seq<char>, name: Seq<char>) -> Seq<char> {
    if name.len() > 0 && name[0] == '/' {
        name
    } else if directory.len() == 0 || directory.last() == '/' {
        directory + name
    } else {
        directory + "/"@ + name
    }
}

/// A path below a directory; an absolute path stands for itself.
pub fn join_path(directory: &str, name: &str) -> (r: String)
    ensures
        r@ == path_below(directory@, name@),
{
    let asked = text::characters(name);
    if asked.len() > 0 && asked[0] == '/' {
        return name.to_owned();
    }
    let chars = text::characters(directory);
    let count: usize = chars.len();
    if count == 0 || chars[count - 1] == '/' {
        text::concat(directory, name)
    } else {
        text::concat3(directory, "/", name)
    }
}

/// How many tasks run at once: one to sixteen, and two where nothing proper is said.
pub open spec fn concurrency_of(value: Option<Seq<char>>) -> nat {
    match value {
        Some(given) => match text::parsed(given) {
            Some(count) => if 0 < count <= 16 {
                count
            } else {
                2
            },
            None => 2,
        },
        None => 2,
    }
}

/// How many tasks run at once.
pub fn worker_concurrency(value: Option<&str>) -> (r: usize)
    ensures
        r == concurrency_of(text::opt_str(value)),
        1 <= r <= 16,
{
    match value {
        Some(given) => match text::parse_within(given, 16) {
            Some(count) => if count > 0 {
                count as usize
            } else {
                2
            },
            None => 2,
        },
        None => 2,
    }
}

/// A text that is said, trimmed; nothing where that is empty.
pub open spec fn said(value: Option<Seq<char>>) -> Option<Seq<char>> {
    match value {
        Some(given) => if text::trimmed(given).len() == 0 {
            None
        } else {
            Some(text::trimmed(given))
        },
        None => None,
    }
}

/// A text that is said, trimmed; nothing where that is empty.
pub fn non_empty(value: Option<&str>) -> (r: Option<String>)
    ensures
        text::opt(r) == said(text::opt_str(value)),
{
    match value {
        Some(given) => {
            let trimmed = text::trim(given);
            if text::characters(trimmed).len() == 0 {
                None
            } else {
                Some(trimmed.to_owned())
            }
        },
        None => None,
    }
}

/// Where the master key comes from.
#[derive(Debug, PartialEq, Eq)]
pub enum KeySource {
    Given(String),
    Stored,
    Fresh,
}

/// Why the server cannot start.
#[derive(Clone, Copy, Debug, PartialEq, Eq, Structural)]
pub enum ConfigError {
    KeyMissing,
    KeyNotBase64(Base64Error),
    KeyLength,
}

impl ConfigError {
    /// What the operator is told.
    pub fn message(&self) -> (r: String)
        ensures
            r@ == match *self {
                ConfigError::KeyMissing =>
                    "production requires LUMORA_MASTER_KEY (base64-encoded 32 bytes)"@,
                ConfigError::KeyNotBase64(error) => error.told(),
                ConfigError::KeyLength => "LUMORA_MASTER_KEY must decode to exactly 32 bytes"@,
            },
    {
        match *self {
            ConfigError::KeyMissing =>
                "production requires LUMORA_MASTER_KEY (base64-encoded 32 bytes)".to_owned(),
            ConfigError::KeyNotBase64(error) => error.message(),
            ConfigError::KeyLength => "LUMORA_MASTER_KEY must decode to exactly 32 bytes".to_owned(),
        }
    }
}

/// Where the master key comes from: the environment; else, but not in production, a file, which
/// is made where there is none.
pub fn key_source(given: Option<&str>, production: bool, file_exists: bool) -> (r: Result<
    KeySource,
    ConfigError,
>)
    ensures
        match given {
            Some(value) => r matches Ok(KeySource::Given(held)) && held@ == value@,
            None => if production {
                r == Err::<KeySource, ConfigError>(ConfigError::KeyMissing)
            } else if file_exists {
                r == Ok::<KeySource, ConfigError>(KeySource::Stored)
            } else {
                r == Ok::<KeySource, ConfigError>(KeySource::Fresh)
            },
        },
{
    match given {
        Some(value) => Ok(KeySource::Given(value.to_owned())),
        None => if production {
            Err(ConfigError::KeyMissing)
        } else if file_exists {
            Ok(KeySource::Stored)
        } else {
            Ok(KeySource::Fresh)
        },
    }
}

/// The master key that a text stands for.
pub open spec fn key_of(encoded: Seq<char>) -> Result<Seq<u8>, ConfigError> {
    match encoding::base64_bytes(encoded) {
        Err(error) => Err(ConfigError::KeyNotBase64(error)),
        Ok(bytes) => if bytes.len() == 32 {
            Ok(bytes)
        } else {
            Err(ConfigError::KeyLength)
        },
    }
}

/// The master key that a text stands for: base64 of exactly 32 bytes.
pub fn decode_master_key(encoded: &str) -> (r: Result<[u8; 32], ConfigError>)
    ensures
        match key_of(encoded@) {
            Ok(bytes) => r matches Ok(key) && key@ == bytes,
            Err(error) => r == Err::<[u8; 32], ConfigError>(error),
        },
{
    let bytes = match encoding::base64_decode(encoded) {
        Ok(bytes) => bytes,
        Err(error) => {
            return Err(ConfigError::KeyNotBase64(error));
        },
    };
    if bytes.len() != 32 {
        return Err(ConfigError::KeyLength);
    }
    let mut key: [u8; 32] = [0u8; 32];
    let mut i: usize = 0;
    while i < 32
        invariant
            i <= 32,
            bytes@.len() == 32,
            key@.len() == 32,
            forall|j: int| 0 <= j < i ==> key@[j] == bytes@[j],
        decreases 32 - i,
    {
        key[i] = bytes[i];
        i += 1;
    }
    assert(key@ == bytes@);
    Ok(key)
}

/// A fresh master key, in the text that is kept in the file. The text stands for a key.
pub fn fresh_master_key() -> (r: String)
    ensures
        key_of(r@) is Ok,
{
    let bytes = security::random_bytes(32);
    encoding::base64_encode(&bytes)
}

/// The directory that the environment names, or one below the server's own.
pub open spec fn directory_of(value: Option<String>, server: Seq<char>, name: Seq<char>) -> Seq<char> {
    match value {
        Some(given) => given@,
        None => path_below(server, name),
    }
}

impl Config {
    /// Whether settings are those that the environment asks for.
    pub open spec fn follows(self, environment: Environment, server_directory: Seq<char>) -> bool {
        &&& self.bind@ == text::or_text(text::opt(environment.bind), "127.0.0.1:8787"@)
        &&& self.data_directory@ == directory_of(environment.data_dir, server_directory, "data"@)
        &&& self.image_directory@ == path_below(self.data_directory@, "images"@)
        &&& self.task_directory@ == path_below(self.data_directory@, "tasks"@)
        &&& self.static_directory@ == directory_of(
            environment.static_dir,
            server_directory,
            "static"@,
        )
        &&& self.production == (text::opt(environment.env) == Some("production"@))
        &&& self.worker_concurrency == concurrency_of(text::opt(environment.worker_concurrency))
        &&& text::opt(self.support_email) == said(text::opt(environment.support_email))
        &&& text::opt(self.support_wechat) == said(text::opt(environment.support_wechat))
    }

    /// The settings that the environment asks for, with defaults for what it does not say.
    pub fn load(environment: &Environment, server_directory: &str, master_key: [u8; 32]) -> (r: Self)
        ensures
            r.follows(*environment, server_directory@),
            r.master_key == master_key,
    {
        let data_directory = match &environment.data_dir {
            Some(given) => given.clone(),
            None => join_path(server_directory, "data"),
        };
        let static_directory = match &environment.static_dir {
            Some(given) => given.clone(),
            None => join_path(server_directory, "static"),
        };
        let bind = match &environment.bind {
            Some(given) => given.clone(),
            None => "127.0.0.1:8787".to_owned(),
        };
        Config {
            bind,
            image_directory: join_path(data_directory.as_str(), "images"),
            task_directory: join_path(data_directory.as_str(), "tasks"),
            data_directory,
            static_directory,
            production: is_production(&environment.env),
            master_key,
            worker_concurrency: worker_concurrency(text::as_slice(&environment.worker_concurrency)),
            support_email: non_empty(text::as_slice(&environment.support_email)),
            support_wechat: non_empty(text::as_slice(&environment.support_wechat)),
        }
    }
}

/// Whether the environment is that of production.
pub fn is_production(env: &Option<String>) -> (r: bool)
    ensures
        r == (text::opt(*env) == Some("production"@)),
{
    match env {
        Some(value) => text::same(value.as_str(), "production"),
        None => false,
    }
}

/// A relative path is put below its directory with one slash between; an absolute one stands for
/// itself.
pub proof fn paths_are_put_below_their_directory(directory: &str, name: &str, r: String)
    requires
        call_ensures(join_path, (directory, name), r),
    ensures
        name@.len() > 0 && name@[0] == '/' ==> r@ == name@,
        (name@.len() == 0 || name@[0] != '/') && directory@.len() > 0 && directory@.last() != '/'
            ==> r@ == directory@ + seq!['/'] + name@,
        (name@.len() == 0 || name@[0] != '/') && (directory@.len() == 0 || directory@.last() == '/')
            ==> r@ == directory@ + name@,
{
    reveal_strlit("/");
    assert("/"@ =~= seq!['/']);
}

/// A count from one to sixteen is taken as it is said; two tasks run at once where anything else,
/// or nothing, is said.
pub proof fn counts_of_workers_are_taken_as_said(value: Option<&str>, count: nat, r: usize)
    requires
        call_ensures(worker_concurrency, (value,), r),
    ensures
        value is None ==> r == 2,
        value is Some && value->0@ == text::digits(count) && 1 <= count <= 16 ==> r == count,
        value is Some && value->0@ == text::digits(count) && (count == 0 || count > 16) ==> r == 2,
        value is Some && text::parsed(value->0@) is None ==> r == 2,
{
    if value is Some && value->0@ == text::digits(count) {
        text::digits_stand_for_their_number(count);
        assert(text::is_digit(text::digits(count)[0]));
        assert(text::unsigned_part(value->0@) == value->0@);
    }
}

/// What is said is taken without the white space around it; what is blank is not said.
pub proof fn blank_texts_are_not_said(value: Option<&str>, r: Option<String>)
    requires
        call_ensures(non_empty, (value,), r),
    ensures
        r is Some <==> value is Some && text::trimmed(value->0@).len() > 0,
        r is Some ==> r->0@ == text::trimmed(value->0@),
{
}

/// A given key is used; without one production does not start, and elsewhere the stored key is
/// used, or a fresh one where none is stored.
pub proof fn keys_come_from_where_they_are(
    given: Option<&str>,
    production: bool,
    file_exists: bool,
    r: Result<KeySource, ConfigError>,
)
    requires
        call_ensures(key_source, (given, production, file_exists), r),
    ensures
        r is Err <==> given is None && production,
        r is Err ==> r->Err_0 is KeyMissing,
        given is Some ==> (r->Ok_0 matches KeySource::Given(held) && held@ == given->0@),
        given is None && !production && file_exists ==> r->Ok_0 is Stored,
        given is None && !production && !file_exists ==> r->Ok_0 is Fresh,
{
}

/// A master key is the 32 bytes that its text encodes; other texts are none.
pub proof fn master_keys_are_thirty_two_bytes(
    encoded: &str,
    r: Result<[u8; 32], ConfigError>,
)
    requires
        call_ensures(decode_master_key, (encoded,), r),
    ensures
        r is Ok <==> encoding::base64_bytes(encoded@) is Ok && encoding::base64_bytes(
            encoded@,
        )->Ok_0.len() == 32,
        r is Ok ==> r->Ok_0@ == encoding::base64_bytes(encoded@)->Ok_0,
        encoding::base64_bytes(encoded@) matches Err(error) ==> r->Err_0
            == ConfigError::KeyNotBase64(error),
        encoding::base64_bytes(encoded@) is Ok && r is Err ==> r->Err_0 is KeyLength,
{
}

/// A fresh master key can be read again.
pub proof fn fresh_master_keys_can_be_read(
    fresh: String,
    encoded: &str,
    r: Result<[u8; 32], ConfigError>,
)
    requires
        call_ensures(fresh_master_key, (), fresh),
        encoded@ == fresh@,
        call_ensures(decode_master_key, (encoded,), r),
    ensures
        r is Ok,
{
}

/// The settings are what the environment says, and defaults where it says nothing; images and
/// tasks are kept below the data.
pub proof fn settings_follow_the_environment(
    environment: &Environment,
    server_directory: &str,
    master_key: [u8; 32],
    r: Config,
)
    requires
        call_ensures(Config::load, (environment, server_directory, master_key), r),
    ensures
        environment.bind is Some ==> r.bind@ == environment.bind->0@,
        environment.bind is None ==> r.bind@ == "127.0.0.1:8787"@,
        environment.data_dir is Some ==> r.data_directory@ == environment.data_dir->0@,
        environment.data_dir is None ==> r.data_directory@ == path_below(
            server_directory@,
            "data"@,
        ),
        environment.static_dir is Some ==> r.static_directory@ == environment.static_dir->0@,
        environment.static_dir is None ==> r.static_directory@ == path_below(
            server_directory@,
            "static"@,
        ),
        r.image_directory@ == path_below(r.data_directory@, "images"@),
        r.task_directory@ == path_below(r.data_directory@, "tasks"@),
        r.production <==> environment.env is Some && environment.env->0@ == "production"@,
        r.master_key@ == master_key@,
        environment.worker_concurrency is None ==> r.worker_concurrency == 2,
        r.support_email is Some <==> environment.support_email is Some && text::trimmed(
            environment.support_email->0@,
        ).len() > 0,
        r.support_email is Some ==> r.support_email->0@ == text::trimmed(
            environment.support_email->0@,
        ),
        r.support_wechat is Some <==> environment.support_wechat is Some && text::trimmed(
            environment.support_wechat->0@,
        ).len() > 0,
        r.support_wechat is Some ==> r.support_wechat->0@ == text::trimmed(
            environment.support_wechat->0@,
        ),
{
}

/// Settings run as many tasks at once as the count that the environment says.
pub proof fn settings_run_as_many_as_said(
    environment: &Environment,
    server_directory: &str,
    master_key: [u8; 32],
    said: Option<&str>,
    count: usize,
    r: Config,
)
    requires
        call_ensures(Config::load, (environment, server_directory, master_key), r),
        text::opt_str(said) == text::opt(environment.worker_concurrency),
        call_ensures(worker_concurrency, (said,), count),
    ensures
        r.worker_concurrency == count,
{
}

/// Production is what calls itself so.
pub proof fn production_is_what_says_so(env: &Option<String>, r: bool)
    requires
        call_ensures(is_production, (env,), r),
    ensures
        r <==> *env is Some && (*env)->0@ == "production"@,
{
}

/// The operator is told what is wrong with the key: that it is missing, what is wrong with its
/// encoding, or that it has the wrong length.
pub proof fn operators_are_told_what_is_wrong(
    error: ConfigError,
    broken: Base64Error,
    told: String,
    r: String,
)
    requires
        call_ensures(ConfigError::message, (&error,), r),
        error is KeyNotBase64 ==> broken == error->KeyNotBase64_0,
        call_ensures(Base64Error::message, (&broken,), told),
    ensures
        error is KeyMissing ==> r@
            == "production requires LUMORA_MASTER_KEY (base64-encoded 32 bytes)"@,
        error is KeyNotBase64 ==> r@ == told@,
        error is KeyLength ==> r@ == "LUMORA_MASTER_KEY must decode to exactly 32 bytes"@,
{
}

} // verus!
