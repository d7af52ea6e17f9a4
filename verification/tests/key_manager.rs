use goose::key_manager::{
    failure_context, get_keyring_secret, KeyManagerError, KeyRetrievalStrategy, Lookup, Readings,
    SecretSource,
};

const NOT_PRESENT: &str = "environment variable not found";
const NO_ENTRY: &str = "No matching entry found in secure storage";

/// What a lookup came to, which sources were read for it, and the sentence
/// under which a failure is reported.
struct Outcome {
    result: Result<String, KeyManagerError>,
    read: Vec<SecretSource>,
    context: String,
}

/// Runs a lookup to its end against an environment and a credential store
/// that give the stated answers.
fn resolve_with(
    key_name: &str,
    strategy: KeyRetrievalStrategy,
    environment: Result<&str, &str>,
    entry: Result<(), &str>,
    keyring: Result<&str, &str>,
) -> Outcome {
    let mut readings = Readings::new();
    let mut read = Vec::new();
    loop {
        let step = get_keyring_secret(strategy, &readings);
        let source = match step {
            Lookup::Found(value) => {
                let context = failure_context(strategy, &readings, key_name);
                return Outcome { result: Ok(value), read, context };
            }
            Lookup::Failed(e) => {
                let context = failure_context(strategy, &readings, key_name);
                return Outcome { result: Err(e), read, context };
            }
            Lookup::Read(source) => source,
        };
        assert!(!read.contains(&source));
        read.push(source);
        match source {
            SecretSource::Environment => {
                readings.environment =
                    Some(environment.map(|v| v.to_string()).map_err(|e| e.to_string()))
            }
            SecretSource::Entry => readings.entry = Some(entry.map_err(|e| e.to_string())),
            SecretSource::Keyring => {
                readings.keyring = Some(keyring.map(|v| v.to_string()).map_err(|e| e.to_string()))
            }
        }
    }
}

fn resolve(
    strategy: KeyRetrievalStrategy,
    environment: Option<&str>,
    keyring: Result<&str, &str>,
) -> Outcome {
    resolve_with("GOOSE_TEST_KEY", strategy, environment.ok_or(NOT_PRESENT), Ok(()), keyring)
}

#[test]
fn test_get_key_environment_only() {
    let outcome = resolve(KeyRetrievalStrategy::EnvironmentOnly, Some("test_value"), Err(NO_ENTRY));
    assert_eq!(outcome.result.unwrap(), "test_value");
}

#[test]
fn test_get_key_environment_only_missing() {
    let outcome = resolve(KeyRetrievalStrategy::EnvironmentOnly, None, Err(NO_ENTRY));
    assert!(outcome.result.is_err());
}

#[test]
fn test_get_key_keyring_only() {
    let outcome = resolve(KeyRetrievalStrategy::KeyringOnly, None, Ok("test_value"));
    assert_eq!(outcome.result.unwrap(), "test_value");
}

#[test]
fn test_get_key_both() {
    // Test environment first
    let outcome = resolve(KeyRetrievalStrategy::Both, Some("env_value"), Err(NO_ENTRY));
    assert_eq!(outcome.result.unwrap(), "env_value");

    // Environment still takes precedence
    let outcome = resolve(KeyRetrievalStrategy::Both, Some("env_value"), Ok("keyring_value"));
    assert_eq!(outcome.result.unwrap(), "env_value");
}

#[test]
fn default_strategy_is_both() {
    assert_eq!(KeyRetrievalStrategy::default(), KeyRetrievalStrategy::Both);
}

#[test]
fn each_strategy_begins_with_its_first_source() {
    let nothing = Readings::new();
    assert_eq!(
        get_keyring_secret(KeyRetrievalStrategy::EnvironmentOnly, &nothing),
        Lookup::Read(SecretSource::Environment)
    );
    assert_eq!(
        get_keyring_secret(KeyRetrievalStrategy::Both, &nothing),
        Lookup::Read(SecretSource::Environment)
    );
    assert_eq!(
        get_keyring_secret(KeyRetrievalStrategy::KeyringOnly, &nothing),
        Lookup::Read(SecretSource::Entry)
    );
}

#[test]
fn environment_only_reads_the_environment_alone() {
    let outcome = resolve_with(
        "K",
        KeyRetrievalStrategy::EnvironmentOnly,
        Ok("v"),
        Err("store is locked"),
        Err(NO_ENTRY),
    );
    assert_eq!(outcome.result, Ok("v".to_string()));
    assert_eq!(outcome.read, vec![SecretSource::Environment]);

    let outcome = resolve(KeyRetrievalStrategy::EnvironmentOnly, None, Ok("stored"));
    assert_eq!(outcome.result, Err(KeyManagerError::EnvVarAccess(NOT_PRESENT.to_string())));
    assert_eq!(outcome.read, vec![SecretSource::Environment]);
    assert_eq!(outcome.context, "Failed to get environment variable");

    let unopened = Readings {
        environment: Some(Ok("v".to_string())),
        entry: Some(Err("store is locked".to_string())),
        keyring: Some(Err(NO_ENTRY.to_string())),
    };
    assert_eq!(
        get_keyring_secret(KeyRetrievalStrategy::EnvironmentOnly, &unopened),
        Lookup::Found("v".to_string())
    );
}

#[test]
fn both_falls_back_to_the_store_only_on_a_miss() {
    let outcome = resolve(KeyRetrievalStrategy::Both, Some("env_value"), Ok("stored"));
    assert_eq!(outcome.result, Ok("env_value".to_string()));
    assert_eq!(outcome.read, vec![SecretSource::Environment]);

    let outcome = resolve_with(
        "K",
        KeyRetrievalStrategy::Both,
        Ok("env_value"),
        Err("store is locked"),
        Ok("stored"),
    );
    assert_eq!(outcome.result, Ok("env_value".to_string()));
    assert_eq!(outcome.read, vec![SecretSource::Environment]);

    let outcome = resolve(KeyRetrievalStrategy::Both, None, Ok("stored"));
    assert_eq!(outcome.result, Ok("stored".to_string()));
    assert_eq!(
        outcome.read,
        vec![SecretSource::Environment, SecretSource::Entry, SecretSource::Keyring]
    );
}

#[test]
fn both_reports_a_key_found_nowhere_by_its_name() {
    let outcome = resolve_with(
        "OPENAI_API_KEY",
        KeyRetrievalStrategy::Both,
        Err(NOT_PRESENT),
        Ok(()),
        Err(NO_ENTRY),
    );
    assert_eq!(outcome.result, Err(KeyManagerError::KeyringAccess(NO_ENTRY.to_string())));
    assert_eq!(outcome.read.len(), 3);
    assert_eq!(
        outcome.context,
        "Could not find OPENAI_API_KEY key in keyring or environment variables"
    );
}

#[test]
fn an_entry_that_cannot_be_opened_fails_a_lookup_that_needs_the_store() {
    for strategy in [KeyRetrievalStrategy::KeyringOnly, KeyRetrievalStrategy::Both] {
        let outcome =
            resolve_with("K", strategy, Err(NOT_PRESENT), Err("store is locked"), Ok("stored"));
        assert_eq!(
            outcome.result,
            Err(KeyManagerError::KeyringAccess("store is locked".to_string()))
        );
        assert!(!outcome.read.contains(&SecretSource::Keyring));
        assert_eq!(outcome.context, "Failed to create keyring entry");
    }
}

#[test]
fn keyring_only_never_reads_the_environment() {
    let outcome = resolve(KeyRetrievalStrategy::KeyringOnly, Some("env_value"), Ok("stored"));
    assert_eq!(outcome.result, Ok("stored".to_string()));
    assert_eq!(outcome.read, vec![SecretSource::Entry, SecretSource::Keyring]);

    let outcome = resolve(KeyRetrievalStrategy::KeyringOnly, Some("env_value"), Err(NO_ENTRY));
    assert_eq!(outcome.result, Err(KeyManagerError::KeyringAccess(NO_ENTRY.to_string())));
    assert_eq!(outcome.context, "Failed to get password from keyring");
}

#[test]
fn a_variable_that_holds_no_text_is_told_from_one_that_is_not_set() {
    let not_text = "environment variable was not valid unicode: \"\\xFF\"";
    let outcome = resolve_with(
        "K",
        KeyRetrievalStrategy::EnvironmentOnly,
        Err(not_text),
        Ok(()),
        Ok("stored"),
    );
    assert_eq!(outcome.result, Err(KeyManagerError::EnvVarAccess(not_text.to_string())));
    let outcome =
        resolve_with("K", KeyRetrievalStrategy::Both, Err(not_text), Ok(()), Ok("stored"));
    assert_eq!(outcome.result, Ok("stored".to_string()));
}

#[test]
fn failure_context_depends_on_the_step_that_failed() {
    let mut readings = Readings::new();
    readings.environment = Some(Err(NOT_PRESENT.to_string()));
    assert_eq!(
        failure_context(KeyRetrievalStrategy::EnvironmentOnly, &readings, "K"),
        "Failed to get environment variable"
    );
    readings.entry = Some(Ok(()));
    readings.keyring = Some(Err(NO_ENTRY.to_string()));
    assert_eq!(
        failure_context(KeyRetrievalStrategy::KeyringOnly, &readings, "K"),
        "Failed to get password from keyring"
    );
    assert_eq!(
        failure_context(KeyRetrievalStrategy::Both, &readings, "K"),
        "Could not find K key in keyring or environment variables"
    );
    assert_eq!(
        failure_context(KeyRetrievalStrategy::Both, &readings, ""),
        "Could not find  key in keyring or environment variables"
    );
    readings.entry = Some(Err("locked".to_string()));
    assert_eq!(
        failure_context(KeyRetrievalStrategy::Both, &readings, "K"),
        "Failed to create keyring entry"
    );
    assert_eq!(
        failure_context(KeyRetrievalStrategy::KeyringOnly, &readings, "K"),
        "Failed to create keyring entry"
    );
    assert_eq!(
        failure_context(KeyRetrievalStrategy::EnvironmentOnly, &readings, "K"),
        "Failed to get environment variable"
    );
}

#[test]
fn error_messages_name_what_failed() {
    assert_eq!(
        KeyManagerError::KeyringAccess("locked".to_string()).message(),
        "Failed to access keyring: locked"
    );
    assert_eq!(
        KeyManagerError::KeyringSave("read-only".to_string()).message(),
        "Failed to save to keyring: read-only"
    );
    assert_eq!(
        KeyManagerError::EnvVarAccess(NOT_PRESENT.to_string()).message(),
        "Failed to access environment variable: environment variable not found"
    );
}
