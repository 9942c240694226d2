use zpass::safe::constants::{ROOT_PATH, SECRET_LENGTH};
use zpass::safe::crypto::{CryptoError, PasswordGenerator, PasswordParam, Secret};
use zpass::safe::preference::{Preference, PreferenceError, Preferences};
use zpass::safe::vault::{Vault, VaultError, Vaults};

/// A generator that tells what it was asked.
struct Echo;

impl PasswordGenerator for Echo {
    fn get(&self, key: &str, param: PasswordParam) -> Result<String, CryptoError> {
        Ok(format!(
            "{}|{}|{}|{}|{}",
            key, param.domain, param.username, param.length, param.version
        ))
    }
}

fn work_vault() -> Vault<Secret> {
    let plain: Vec<u8> = (0..=255u8).collect();
    let secret = Secret::seal("K1", "work", &plain).unwrap();
    let mut vault = Vault::new("work", secret, true);
    vault.preferences.add(Preference::new("example.com", "alice", 16)).unwrap();
    vault
}

#[test]
fn constants_are_the_storage_root_and_the_secret_length() {
    assert_eq!(ROOT_PATH, "./.zpass");
    assert_eq!(SECRET_LENGTH, 256);
}

#[test]
fn new_vault_has_no_preferences() {
    let vault = Vault::new("VALT_NAME", Secret::seal("KEY", "IV", &vec![1, 2, 3]).unwrap(), true);
    assert_eq!(vault.name(), "VALT_NAME");
    assert!(vault.is_default());
    assert!(vault.preferences.is_empty());
    assert_eq!(vault.preferences(), &Preferences::new());
    assert_eq!(vault.secret(), &Secret::seal("KEY", "IV", &vec![1, 2, 3]).unwrap());
    let other = Vault::new("other", Echo, false);
    assert!(!other.is_default());
}

#[test]
fn vault_is_stored_under_its_name_below_the_root() {
    assert_eq!(Vault::new("work", Echo, true).path(), "./.zpass/work.json");
    assert_eq!(Vault::new("my.vault", Echo, true).path(), "./.zpass/my.vault.json");
    assert_eq!(Vault::new("", Echo, false).path(), "./.zpass/.json");
}

#[test]
fn vault_put_together_from_its_parts_equals_the_vault() {
    let key = "KEY";
    let iv = "IV";
    let secret = Secret::new(key, iv, 40).unwrap();
    let mut vault = Vault::new("VALT_NAME", secret, true);
    vault.preferences.add(Preference::new("example.com", "alice", 16)).unwrap();
    vault.preferences.add(Preference::new("example.com", "bob", 20)).unwrap();

    let secret = Secret::from_parts(
        vault.secret().encrypted_secret().clone(),
        vault.secret().iv().clone(),
    );
    let preferences = Preferences::from(vec![
        Preference::from_parts("example.com".to_owned(), "alice".to_owned(), 16, 0, true),
        Preference::from_parts("example.com".to_owned(), "bob".to_owned(), 20, 0, false),
    ]);
    let rebuilt = Vault::from_parts(vault.name().clone(), secret, preferences, vault.is_default());
    assert_eq!(vault, rebuilt);
}

#[test]
fn get_password_is_stable_and_has_the_length_of_the_preference() {
    let mut vaults: Vaults<Secret> = Vaults::new(Vec::new());
    vaults.add("work", Secret::new("K1", "work", SECRET_LENGTH).unwrap()).unwrap();
    let vault = vaults.get_default_mut().unwrap();
    vault.preferences.add(Preference::new("example.com", "alice", 16)).unwrap();

    let first = vault.get_password("example.com", "K1", None, None, None).unwrap();
    let second = vault.get_password("example.com", "K1", None, None, None).unwrap();
    assert_eq!(first, second);
    assert_eq!(first.chars().count(), 16);
    assert!(first.chars().all(|c| ('!'..='~').contains(&c) && c != ' '));
}

#[test]
fn get_password_gives_the_known_password_of_a_known_secret() {
    let vault = work_vault();
    assert_eq!(
        vault.get_password("example.com", "K1", None, None, None).unwrap(),
        "`%)VC[\"\\t![y\"%OT"
    );
    assert_eq!(
        vault.get_password("example.com", "K1", Some("alice"), None, None).unwrap(),
        "`%)VC[\"\\t![y\"%OT"
    );
    assert_eq!(
        vault.get_password("example.com", "K1", Some("alice"), Some(4), Some(9)).unwrap(),
        "`%)V"
    );
}

#[test]
fn get_password_with_another_key_never_gives_the_password() {
    let vault = work_vault();
    let right = vault.get_password("example.com", "K1", None, None, None).unwrap();
    for wrong in ["K2", "k1", "K1 ", "", "wrong"] {
        match vault.get_password("example.com", wrong, None, None, None) {
            Err(err) => {
                assert!(matches!(err, VaultError::SecretError(CryptoError::FailedToDecrypt(_))))
            }
            Ok(password) => assert_ne!(password, right),
        }
    }
    assert!(matches!(
        vault.get_password("example.com", "K2", None, None, None),
        Err(VaultError::SecretError(CryptoError::FailedToDecrypt(_)))
    ));
}

#[test]
fn get_password_without_a_matching_preference_fails() {
    let vault = work_vault();
    assert!(matches!(
        vault.get_password("other.org", "K1", None, None, None),
        Err(VaultError::NoMatchingPreference)
    ));
    assert!(matches!(
        vault.get_password("example.com", "K1", Some("bob"), None, None),
        Err(VaultError::NoMatchingPreference)
    ));
    assert!(matches!(
        vault.get_password("other.org", "K2", Some("alice"), Some(3), None),
        Err(VaultError::NoMatchingPreference)
    ));
    let empty = Vault::new("empty", Echo, true);
    assert!(matches!(
        empty.get_password("example.com", "K1", None, None, None),
        Err(VaultError::NoMatchingPreference)
    ));
}

#[test]
fn get_password_resolves_the_parameters_from_the_preference() {
    let mut vault = Vault::new("work", Echo, true);
    vault.preferences.add(Preference::new("a.com", "alice", 16)).unwrap();
    vault.preferences.add(Preference::new("a.com", "bob", 20)).unwrap();
    vault.get_preference_mut("a.com", "bob").unwrap().version = 7;
    vault.preferences.add(Preference::new("b.com", "carol", 12)).unwrap();

    assert_eq!(vault.get_password("a.com", "K", None, None, None).unwrap(), "K|a.com|alice|16|0");
    assert_eq!(
        vault.get_password("a.com", "K", Some("bob"), None, None).unwrap(),
        "K|a.com|bob|20|7"
    );
    assert_eq!(
        vault.get_password("a.com", "K", Some("bob"), Some(5), None).unwrap(),
        "K|a.com|bob|5|7"
    );
    assert_eq!(
        vault.get_password("a.com", "K", None, Some(5), Some(2)).unwrap(),
        "K|a.com|alice|5|2"
    );
    assert_eq!(
        vault.get_password("b.com", "key", None, None, Some(1)).unwrap(),
        "key|b.com|carol|12|1"
    );
    vault.preferences.set_default("a.com", "bob").unwrap();
    assert_eq!(vault.get_password("a.com", "K", None, None, None).unwrap(), "K|a.com|bob|20|7");
}

#[test]
fn get_preference_mut_finds_the_preference_or_fails() {
    let mut vault = work_vault();
    {
        let preference = vault.get_preference_mut("example.com", "alice").unwrap();
        assert_eq!(preference.length, 16);
        preference.version += 1;
    }
    assert_eq!(vault.preferences.find("example.com", "alice").unwrap().version, 1);
    assert!(matches!(
        vault.get_preference_mut("example.com", "bob"),
        Err(VaultError::NoMatchingPreference)
    ));
    assert_eq!(vault.name(), "work");
    assert!(vault.is_default());
}

#[test]
fn first_vault_becomes_the_default_and_later_ones_do_not() {
    let mut vaults = Vaults::new(Vec::new());
    assert!(vaults.is_empty());
    assert!(vaults.get_default_mut().is_none());
    assert!(vaults.add("work", Echo).is_ok());
    assert!(vaults.add("home", Echo).is_ok());
    assert!(vaults.add("bank", Echo).is_ok());
    assert!(!vaults.is_empty());
    assert_eq!(vaults.get_default_mut().unwrap().name(), "work");
    assert!(vaults.get(|v| v.name() == "work").unwrap().is_default());
    assert!(!vaults.get(|v| v.name() == "home").unwrap().is_default());
    assert!(!vaults.get(|v| v.name() == "bank").unwrap().is_default());
    assert!(vaults.get(|v| v.name() == "bank").unwrap().preferences.is_empty());
}

#[test]
fn duplicate_vault_is_refused_and_changes_nothing() {
    let mut vaults: Vaults<Secret> = Vaults::new(Vec::new());
    let first = Secret::seal("K1", "work", &vec![1, 2, 3]).unwrap();
    vaults.add("work", first).unwrap();
    vaults.add("home", Secret::seal("K1", "home", &vec![4]).unwrap()).unwrap();
    let again = Secret::seal("K9", "work", &vec![9, 9]).unwrap();
    assert!(matches!(vaults.add("work", again), Err(VaultError::VaultAlreadyExists)));
    assert!(matches!(
        vaults.add("home", Secret::seal("K9", "home", &vec![9]).unwrap()),
        Err(VaultError::VaultAlreadyExists)
    ));
    assert_eq!(
        vaults.get(|v| v.name() == "work"),
        Some(&Vault::new("work", Secret::seal("K1", "work", &vec![1, 2, 3]).unwrap(), true))
    );
    assert_eq!(
        vaults.get(|v| v.name() == "home"),
        Some(&Vault::new("home", Secret::seal("K1", "home", &vec![4]).unwrap(), false))
    );
    assert!(!vaults.has(|v| v.name() != "work" && v.name() != "home"));
}

#[test]
fn loaded_vaults_are_kept_as_they_were_stored() {
    let stored = vec![
        Vault::from_parts("home".to_owned(), Echo, Preferences::new(), false),
        Vault::from_parts("work".to_owned(), Echo, Preferences::new(), true),
    ];
    let mut vaults = Vaults::new(stored);
    assert_eq!(vaults.get_default_mut().unwrap().name(), "work");
    assert!(matches!(vaults.add("work", Echo), Err(VaultError::VaultAlreadyExists)));
    assert!(vaults.add("bank", Echo).is_ok());
    assert!(!vaults.get(|v| v.name() == "bank").unwrap().is_default());
    assert_eq!(vaults.get_default_mut().unwrap().name(), "work");
}

#[test]
fn changes_through_the_default_vault_stay_in_the_collection() {
    let mut vaults = Vaults::new(Vec::new());
    vaults.add("work", Echo).unwrap();
    vaults.add("home", Echo).unwrap();
    vaults
        .get_default_mut()
        .unwrap()
        .preferences
        .add(Preference::new("example.com", "alice", 16))
        .unwrap();
    let work = vaults.get(|v| v.name() == "work").unwrap();
    assert_eq!(work.preferences.find_default("example.com").unwrap().username, "alice");
    assert!(vaults.get(|v| v.name() == "home").unwrap().preferences.is_empty());
}

#[test]
fn vault_errors_come_from_the_errors_they_wrap() {
    assert!(matches!(
        VaultError::from(PreferenceError::PreferenceExists),
        VaultError::PreferenceError(PreferenceError::PreferenceExists)
    ));
    let outcome = Secret::seal("K1", "work", &vec![1]).unwrap().get(
        "K2",
        PasswordParam { domain: "d", username: "u", length: 1, version: 0 },
    );
    if let Err(err) = outcome {
        assert!(matches!(
            VaultError::from(err),
            VaultError::SecretError(CryptoError::FailedToDecrypt(_))
        ));
    }
}
