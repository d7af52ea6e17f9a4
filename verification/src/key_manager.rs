//! How a named credential is looked up: in the process environment, in the
//! platform's credential store, or in the first and then the second. Reading
//! either is the caller's part; which is read, in what order, and what the
//! lookup comes to is decided here.

use vstd::prelude::*;
use vstd::string::*;

verus! {

#[derive(Debug, PartialEq, Eq)]
pub enum KeyManagerError {
    /// The credential store could not be read; the detail is its report.
    KeyringAccess(String),
    /// The credential store could not be written; the detail is its report.
    KeyringSave(String),
    /// The environment holds no usable value; the detail says why.
    EnvVarAccess(String),
}

pub enum KeyManagerErrorView {
    KeyringAccess(Seq<char>),
    KeyringSave(Seq<char>),
    EnvVarAccess(Seq<char>),
}

impl View for KeyManagerError {
    type V = KeyManagerErrorView;

    open spec fn view(&self) -> KeyManagerErrorView {
        match self {
            KeyManagerError::KeyringAccess(d) => KeyManagerErrorView::KeyringAccess(d@),
            KeyManagerError::KeyringSave(d) => KeyManagerErrorView::KeyringSave(d@),
            KeyManagerError::EnvVarAccess(d) => KeyManagerErrorView::EnvVarAccess(d@),
        }
    }
}

impl KeyManagerErrorView {
    /// The error as one line of text: a sentence for the variant, then the
    /// detail.
    pub open spec fn message(self) -> Seq<char> {
        match self {
            KeyManagerErrorView::KeyringAccess(d) => "Failed to access keyring: "@ + d,
            KeyManagerErrorView::KeyringSave(d) => "Failed to save to keyring: "@ + d,
            KeyManagerErrorView::EnvVarAccess(d) => "Failed to access environment variable: "@ + d,
        }
    }
}

impl KeyManagerError {
    /// The error as one line of text.
    pub fn message(&self) -> (text: String)
        ensures
            text@ == self@.message(),
    {
        match self {
            KeyManagerError::KeyringAccess(d) => String::from_str(
                "Failed to access keyring: ",
            ).concat(d.as_str()),
            KeyManagerError::KeyringSave(d) => String::from_str(
                "Failed to save to keyring: ",
            ).concat(d.as_str()),
            KeyManagerError::EnvVarAccess(d) => String::from_str(
                "Failed to access environment variable: ",
            ).concat(d.as_str()),
        }
    }
}

#[derive(Debug, Clone, Copy, PartialEq, Eq, Structural)]
pub enum KeyRetrievalStrategy {
    /// Only look in environment variables
    EnvironmentOnly,
    /// Only look in the credential store
    KeyringOnly,
    /// Try the environment first, then the credential store
    Both,
}

impl Default for KeyRetrievalStrategy {
    fn default() -> (strategy: Self)
        ensures
            strategy == KeyRetrievalStrategy::Both,
    {
        KeyRetrievalStrategy::Both
    }
}

/// What a lookup may have to read.
#[derive(Debug, Clone, Copy, PartialEq, Eq, Structural)]
pub enum SecretSource {
    /// The environment variable of the key's name.
    Environment,
    /// The credential store's entry for the key: whether it can be opened.
    Entry,
    /// The value that the credential store holds for the key.
    Keyring,
}

/// What has been read for a lookup so far. A field is `None` until its
/// source has been read.
#[derive(Debug, PartialEq, Eq)]
pub struct Readings {
    /// The variable's value, or why the environment gives none: the variable
    /// is not set, or what it holds is no text.
    pub environment: Option<Result<String, String>>,
    /// Whether the store's entry could be opened, or the store's report.
    pub entry: Option<Result<(), String>>,
    /// The stored value, or the store's report.
    pub keyring: Option<Result<String, String>>,
}

pub struct ReadingsView {
    pub environment: Option<Result<Seq<char>, Seq<char>>>,
    pub entry: Option<Result<(), Seq<char>>>,
    pub keyring: Option<Result<Seq<char>, Seq<char>>>,
}

/// The view of what one source gave.
pub open spec fn reading_view(reading: Option<Result<String, String>>) -> Option<
    Result<Seq<char>, Seq<char>>,
> {
    match reading {
        None => None,
        Some(Ok(value)) => Some(Ok(value@)),
        Some(Err(report)) => Some(Err(report@)),
    }
}

impl View for Readings {
    type V = ReadingsView;

    open spec fn view(&self) -> ReadingsView {
        ReadingsView {
            environment: reading_view(self.environment),
            entry: match self.entry {
                None => None,
                Some(Ok(())) => Some(Ok(())),
                Some(Err(report)) => Some(Err(report@)),
            },
            keyring: reading_view(self.keyring),
        }
    }
}

impl Readings {
    /// Nothing read yet.
    pub fn new() -> (readings: Readings)
        ensures
            readings@ == (ReadingsView { environment: None, entry: None, keyring: None }),
    {
        Readings { environment: None, entry: None, keyring: None }
    }
}

/// Where a lookup stands: what is to be read next, or how it ended.
#[derive(Debug, PartialEq, Eq)]
pub enum Lookup {
    Read(SecretSource),
    Found(String),
    Failed(KeyManagerError),
}

pub enum LookupView {
    Read(SecretSource),
    Found(Seq<char>),
    Failed(KeyManagerErrorView),
}

impl View for Lookup {
    type V = LookupView;

    open spec fn view(&self) -> LookupView {
        match self {
            Lookup::Read(source) => LookupView::Read(*source),
            Lookup::Found(value) => LookupView::Found(value@),
            Lookup::Failed(e) => LookupView::Failed(e@),
        }
    }
}

/// What the credential store contributes to a lookup that has come to it:
/// its entry is opened, then its value is read. A store that cannot open the
/// entry, or gives no value, fails the lookup.
pub open spec fn from_store(readings: ReadingsView) -> LookupView {
    match readings.entry {
        None => LookupView::Read(SecretSource::Entry),
        Some(Err(report)) => LookupView::Failed(KeyManagerErrorView::KeyringAccess(report)),
        Some(Ok(())) => match readings.keyring {
            None => LookupView::Read(SecretSource::Keyring),
            Some(Ok(value)) => LookupView::Found(value),
            Some(Err(report)) => LookupView::Failed(KeyManagerErrorView::KeyringAccess(report)),
        },
    }
}

/// Where a lookup stands, by strategy and by what has been read.
///
/// `EnvironmentOnly` takes what the environment holds, fails where it holds
/// nothing, and never comes to the store. `KeyringOnly` takes what the store
/// holds. `Both` takes what the environment holds and comes to the store
/// only where the environment gives no value.
pub open spec fn lookup(strategy: KeyRetrievalStrategy, readings: ReadingsView) -> LookupView {
    match strategy {
        KeyRetrievalStrategy::KeyringOnly => from_store(readings),
        _ => match readings.environment {
            None => LookupView::Read(SecretSource::Environment),
            Some(Ok(value)) => LookupView::Found(value),
            Some(Err(report)) => if strategy == KeyRetrievalStrategy::Both {
                from_store(readings)
            } else {
                LookupView::Failed(KeyManagerErrorView::EnvVarAccess(report))
            },
        },
    }
}

/// The step of a lookup that the store decides.
fn store_step(readings: &Readings) -> (step: Lookup)
    ensures
        step@ == from_store(readings@),
{
    match &readings.entry {
        None => Lookup::Read(SecretSource::Entry),
        Some(Err(report)) => Lookup::Failed(KeyManagerError::KeyringAccess(report.clone())),
        Some(Ok(())) => match &readings.keyring {
            None => Lookup::Read(SecretSource::Keyring),
            Some(Ok(value)) => Lookup::Found(value.clone()),
            Some(Err(report)) => Lookup::Failed(KeyManagerError::KeyringAccess(report.clone())),
        },
    }
}

/// Says where the lookup of a credential stands: which source the caller is
/// to read next, or the value, or the failure. The caller reads the source,
/// notes the outcome in `readings`, and asks again until the lookup has
/// ended.
pub fn get_keyring_secret(strategy: KeyRetrievalStrategy, readings: &Readings) -> (step: Lookup)
    ensures
        step@ == lookup(strategy, readings@),
{
    match strategy {
        KeyRetrievalStrategy::KeyringOnly => store_step(readings),
        _ => match &readings.environment {
            None => Lookup::Read(SecretSource::Environment),
            Some(Ok(value)) => Lookup::Found(value.clone()),
            Some(Err(report)) => match strategy {
                KeyRetrievalStrategy::Both => store_step(readings),
                _ => Lookup::Failed(KeyManagerError::EnvVarAccess(report.clone())),
            },
        },
    }
}

/// Said of a lookup that failed on the environment.
pub const ENVIRONMENT_FAILED: &'static str = "Failed to get environment variable";

/// Said of a lookup that failed because the store's entry could not be opened.
pub const ENTRY_FAILED: &'static str = "Failed to create keyring entry";

/// Said of a lookup in the store alone that found no value there.
pub const KEYRING_FAILED: &'static str = "Failed to get password from keyring";

/// Said, before the key's name, of a lookup that found a value nowhere.
pub const NOWHERE_BEFORE: &'static str = "Could not find ";

/// Said, after the key's name, of a lookup that found a value nowhere.
pub const NOWHERE_AFTER: &'static str = " key in keyring or environment variables";

/// Whether the store's entry was tried and could not be opened.
pub open spec fn entry_failed(readings: ReadingsView) -> bool {
    readings.entry matches Some(Err(_))
}

/// The sentence under which the failure of a lookup is reported. It says
/// which step failed; for `Both`, where the store was the last resort, it
/// names the key that was found nowhere.
pub open spec fn context_of(
    strategy: KeyRetrievalStrategy,
    readings: ReadingsView,
    key_name: Seq<char>,
) -> Seq<char> {
    match strategy {
        KeyRetrievalStrategy::EnvironmentOnly => ENVIRONMENT_FAILED@,
        _ => if entry_failed(readings) {
            ENTRY_FAILED@
        } else if strategy == KeyRetrievalStrategy::Both {
            NOWHERE_BEFORE@ + key_name + NOWHERE_AFTER@
        } else {
            KEYRING_FAILED@
        },
    }
}

/// The sentence under which the failure of the lookup of `key_name` is to be
/// reported.
pub fn failure_context(strategy: KeyRetrievalStrategy, readings: &Readings, key_name: &str) -> (text:
    String)
    ensures
        text@ == context_of(strategy, readings@, key_name@),
{
    let entry_failed = match &readings.entry {
        Some(Err(_)) => true,
        _ => false,
    };
    match strategy {
        KeyRetrievalStrategy::EnvironmentOnly => ENVIRONMENT_FAILED.to_owned(),
        KeyRetrievalStrategy::KeyringOnly => if entry_failed {
            ENTRY_FAILED.to_owned()
        } else {
            KEYRING_FAILED.to_owned()
        },
        KeyRetrievalStrategy::Both => if entry_failed {
            ENTRY_FAILED.to_owned()
        } else {
            let mut text = NOWHERE_BEFORE.to_owned();
            text.append(key_name);
            text.append(NOWHERE_AFTER);
            text
        },
    }
}

/// `EnvironmentOnly` reads the environment alone: where the lookup stands
/// depends on nothing that the store gave, and the store is never asked.
pub proof fn lemma_environment_only_reads_environment_alone(
    readings: ReadingsView,
    other: ReadingsView,
)
    requires
        readings.environment == other.environment,
    ensures
        lookup(KeyRetrievalStrategy::EnvironmentOnly, readings) == lookup(
            KeyRetrievalStrategy::EnvironmentOnly,
            other,
        ),
        lookup(KeyRetrievalStrategy::EnvironmentOnly, readings) != LookupView::Read(
            SecretSource::Entry,
        ),
        lookup(KeyRetrievalStrategy::EnvironmentOnly, readings) != LookupView::Read(
            SecretSource::Keyring,
        ),
{
}

/// With `EnvironmentOnly` and with `Both`, a value that the environment
/// holds is the lookup's result, whatever the store holds, whether or not
/// its entry can be opened, and whether or not it was read.
pub proof fn lemma_environment_first(readings: ReadingsView, value: Seq<char>)
    requires
        readings.environment == Some(Ok::<Seq<char>, Seq<char>>(value)),
    ensures
        lookup(KeyRetrievalStrategy::Both, readings) == LookupView::Found(value),
        lookup(KeyRetrievalStrategy::EnvironmentOnly, readings) == LookupView::Found(value),
{
}

/// With `Both`, the store is asked only once the environment has been read
/// and gave no value.
pub proof fn lemma_store_only_on_miss(readings: ReadingsView)
    requires
        lookup(KeyRetrievalStrategy::Both, readings) == LookupView::Read(SecretSource::Entry)
            || lookup(KeyRetrievalStrategy::Both, readings) == LookupView::Read(
            SecretSource::Keyring,
        ),
    ensures
        readings.environment matches Some(Err(_)),
{
}

/// `KeyringOnly` reads the store alone: the environment is never asked, and
/// the value is asked for only once the entry has been opened.
pub proof fn lemma_keyring_only_reads_store_alone(readings: ReadingsView)
    ensures
        lookup(KeyRetrievalStrategy::KeyringOnly, readings) != LookupView::Read(
            SecretSource::Environment,
        ),
        lookup(KeyRetrievalStrategy::KeyringOnly, readings) == LookupView::Read(
            SecretSource::Keyring,
        ) ==> readings.entry matches Some(Ok(_)),
{
}

/// A lookup that found a value nowhere is reported, for `Both`, under a
/// sentence that names the key.
pub proof fn lemma_nowhere_names_the_key(readings: ReadingsView, key_name: Seq<char>)
    requires
        lookup(KeyRetrievalStrategy::Both, readings) is Failed,
        !entry_failed(readings),
    ensures
        context_of(KeyRetrievalStrategy::Both, readings, key_name) == NOWHERE_BEFORE@ + key_name
            + NOWHERE_AFTER@,
        readings.environment matches Some(Err(_)),
        readings.keyring matches Some(Err(_)),
{
}

} // verus!
