//! A vault binds a secret to a name and keeps the preferences that belong to
//! it. The vaults of a user form a collection with one default vault.

use super::collection::{
    first_match, first_position, lemma_first_position, lemma_first_position_at, List,
};
use super::constants;
use super::crypto::{
    derived, CryptoError, PasswordGenerator, PasswordParam, PasswordParamView, Secret,
};
use super::preference::{
    entry_position, selected, Preference, PreferenceError, PreferenceView, Preferences,
};
use vstd::prelude::*;
use vstd::string::StringExecFns;

verus! {

#[derive(Debug)]
pub enum VaultError {
    SecretError(CryptoError),
    PreferenceError(PreferenceError),
    NoMatchingPreference,
    VaultAlreadyExists,
}

impl From<CryptoError> for VaultError {
    fn from(err: CryptoError) -> (error: Self) {
        VaultError::SecretError(err)
    }
}

impl vstd::std_specs::convert::FromSpecImpl<CryptoError> for VaultError {
    open spec fn obeys_from_spec() -> bool {
        true
    }

    open spec fn from_spec(err: CryptoError) -> Self {
        VaultError::SecretError(err)
    }
}

impl From<PreferenceError> for VaultError {
    fn from(err: PreferenceError) -> (error: Self) {
        VaultError::PreferenceError(err)
    }
}

impl vstd::std_specs::convert::FromSpecImpl<PreferenceError> for VaultError {
    open spec fn obeys_from_spec() -> bool {
        true
    }

    open spec fn from_spec(err: PreferenceError) -> Self {
        VaultError::PreferenceError(err)
    }
}

// ---------------------------------- Model ------------------------------------
/// What a vault holds: its name, its secret, what its preferences say, and
/// whether it is the default vault.
pub ghost struct VaultView<S> {
    pub name: Seq<char>,
    pub secret: S,
    pub preferences: Seq<PreferenceView>,
    pub is_default: bool,
}

/// The text of a username, where one is given.
pub open spec fn text_of(username: Option<&str>) -> Option<Seq<char>> {
    match username {
        Some(username) => Some(username@),
        None => None,
    }
}

/// The parameters that a password is generated with: those that the caller
/// gives, and for the others those of the selected preference.
pub open spec fn resolved(
    domain: Seq<char>,
    username: Option<Seq<char>>,
    length: Option<usize>,
    version: Option<usize>,
    preference: PreferenceView,
) -> PasswordParamView {
    PasswordParamView {
        domain,
        username: match username {
            Some(username) => username,
            None => preference.username,
        },
        length: match length {
            Some(length) => length,
            None => preference.length,
        },
        version: match version {
            Some(version) => version,
            None => preference.version,
        },
    }
}

/// What a vault returns for what its password generator returned.
pub open spec fn passed_on(generated: Result<String, CryptoError>) -> Result<String, VaultError> {
    match generated {
        Ok(text) => Ok(text),
        Err(err) => Err(VaultError::SecretError(err)),
    }
}

/// What a vault with the given contents may return as the password of a
/// domain: without a selected preference an error; else what its generator
/// returns for the key and the resolved parameters, passed on.
pub open spec fn password_outcome<S: PasswordGenerator>(
    vault: VaultView<S>,
    domain: Seq<char>,
    key: &str,
    username: Option<Seq<char>>,
    length: Option<usize>,
    version: Option<usize>,
    password: Result<String, VaultError>,
) -> bool {
    match selected(vault.preferences, domain, username) {
        None => password matches Err(e) && e is NoMatchingPreference,
        Some(preference) => exists|param: PasswordParam, generated: Result<String, CryptoError>|
            param@ == resolved(domain, username, length, version, preference)
                && #[trigger] call_ensures(S::get, (&vault.secret, key, param), generated)
                && password == passed_on(generated),
    }
}

/// Where a vault is stored: in a file of its name under the storage root.
pub open spec fn path_of(name: Seq<char>) -> Seq<char> {
    constants::ROOT_PATH@ + "/"@ + name + ".json"@
}

/// Some vault of `vaults` has the given name.
pub open spec fn has_vault<S>(vaults: Seq<VaultView<S>>, name: Seq<char>) -> bool {
    exists|i: int| 0 <= i < vaults.len() && (#[trigger] vaults[i]).name == name
}

/// No two vaults share a name.
pub open spec fn unique_names<S>(vaults: Seq<VaultView<S>>) -> bool {
    forall|i: int, j: int|
        0 <= i < j < vaults.len() ==> (#[trigger] vaults[i]).name != (#[trigger] vaults[j]).name
}

/// At most one vault is the default one.
pub open spec fn at_most_one_default_vault<S>(vaults: Seq<VaultView<S>>) -> bool {
    forall|i: int, j: int|
        0 <= i < j < vaults.len() ==> !((#[trigger] vaults[i]).is_default && (
        #[trigger] vaults[j]).is_default)
}

/// The test for a default vault.
pub open spec fn default_vault_test<S>() -> spec_fn(VaultView<S>) -> bool {
    |v: VaultView<S>| v.is_default
}

/// The position of the first vault that is marked as default.
pub open spec fn default_vault_position<S>(vaults: Seq<VaultView<S>>) -> Option<int> {
    first_position(vaults, default_vault_test())
}

/// Some vault is the default one.
pub open spec fn has_default_vault<S>(vaults: Seq<VaultView<S>>) -> bool {
    exists|i: int| 0 <= i < vaults.len() && (#[trigger] vaults[i]).is_default
}

/// The rules that a collection of vaults keeps: a name names one vault, and
/// unless the collection is empty exactly one vault is the default one.
pub open spec fn well_kept<S>(vaults: Seq<VaultView<S>>) -> bool {
    &&& unique_names(vaults)
    &&& at_most_one_default_vault(vaults)
    &&& vaults.len() > 0 ==> has_default_vault(vaults)
}

/// The vault that is made for a name and a secret when it enters `vaults`:
/// without preferences, and the default one if it is the first.
pub open spec fn entering_vault<S>(
    vaults: Seq<VaultView<S>>,
    name: Seq<char>,
    secret: S,
) -> VaultView<S> {
    VaultView { name, secret, preferences: Seq::empty(), is_default: vaults.len() == 0 }
}

/// The collection after an attempt to add a vault of the given name:
/// unchanged where the name is taken, else with the new vault at its end.
pub open spec fn with_vault<S>(vaults: Seq<VaultView<S>>, name: Seq<char>, secret: S) -> Seq<
    VaultView<S>,
> {
    if has_vault(vaults, name) {
        vaults
    } else {
        vaults.push(entering_vault(vaults, name, secret))
    }
}

/// The collection after attempts to add a vault for each of `added` in turn,
/// starting from `vaults`.
pub open spec fn with_all_vaults<S>(
    vaults: Seq<VaultView<S>>,
    added: Seq<(Seq<char>, S)>,
) -> Seq<VaultView<S>>
    decreases added.len(),
{
    if added.len() == 0 {
        vaults
    } else {
        with_vault(with_all_vaults(vaults, added.drop_last()), added.last().0, added.last().1)
    }
}

// ----------------------------------- Laws ------------------------------------
/// Adding a vault keeps the rules of the collection: whatever is added to a
/// well kept collection, at most one vault is the default one afterwards.
pub proof fn lemma_add_vault_keeps_rules<S>(vaults: Seq<VaultView<S>>, name: Seq<char>, secret: S)
    requires
        well_kept(vaults),
    ensures
        well_kept(with_vault(vaults, name, secret)),
{
    if !has_vault(vaults, name) {
        let after = with_vault(vaults, name, secret);
        if vaults.len() == 0 {
            assert(after[0].is_default);
        } else {
            let k = choose|k: int| 0 <= k < vaults.len() && (#[trigger] vaults[k]).is_default;
            assert(after[k].is_default);
        }
    }
}

/// The first vault that is ever added becomes the default one.
pub proof fn lemma_first_vault_is_default<S>(name: Seq<char>, secret: S)
    ensures
        with_vault(Seq::<VaultView<S>>::empty(), name, secret) == seq![
            VaultView { name, secret, preferences: Seq::empty(), is_default: true },
        ],
{
    let none = Seq::<VaultView<S>>::empty();
    assert(with_vault(none, name, secret) =~= seq![
        VaultView { name, secret, preferences: Seq::empty(), is_default: true },
    ]);
}

/// A vault whose name is taken leaves the collection as it was.
pub proof fn lemma_duplicate_vault_changes_nothing<S>(
    vaults: Seq<VaultView<S>>,
    name: Seq<char>,
    secret: S,
)
    requires
        has_vault(vaults, name),
    ensures
        with_vault(vaults, name, secret) == vaults,
{
}

/// Whatever vaults are added one after another to an empty collection, at
/// every point at most one vault is the default one, and the collection
/// keeps its rules.
pub proof fn lemma_all_vaults_well_kept<S>(added: Seq<(Seq<char>, S)>)
    ensures
        well_kept(with_all_vaults(Seq::<VaultView<S>>::empty(), added)),
    decreases added.len(),
{
    if added.len() > 0 {
        lemma_all_vaults_well_kept(added.drop_last());
        lemma_add_vault_keeps_rules(
            with_all_vaults(Seq::<VaultView<S>>::empty(), added.drop_last()),
            added.last().0,
            added.last().1,
        );
    }
}

/// The password of a vault whose generator is a Secret: the one that the
/// secret derives under the key, of the resolved length; an error where the
/// key does not decrypt the secret, or where no preference is selected.
pub proof fn lemma_password_of_secret(
    vault: VaultView<Secret>,
    domain: Seq<char>,
    key: &str,
    username: Option<Seq<char>>,
    length: Option<usize>,
    version: Option<usize>,
    password: Result<String, VaultError>,
)
    requires
        password_outcome(vault, domain, key, username, length, version, password),
    ensures
        match selected(vault.preferences, domain, username) {
            None => password matches Err(e) && e is NoMatchingPreference,
            Some(preference) => match derived(
                vault.secret@,
                key@,
                resolved(domain, username, length, version, preference).length,
            ) {
                Some(text) => password matches Ok(generated) && generated@ == text,
                None => password matches Err(VaultError::SecretError(e)) && e is FailedToDecrypt,
            },
        },
{
}

// ---------------------------------- Vault ------------------------------------
/// # Vault
/// Has a secret and keeps the user preferences
#[derive(Debug, PartialEq, Eq)]
pub struct Vault<S> {
    // name is the identifier for the vault
    name: String,
    // secret is the encrypted secret that defines the vault
    secret: S,
    // preferences collection of pereferences based on previous user interactions
    pub preferences: Preferences,
    // default indicates wheather this is the default vault
    default: bool,
}

impl<S> View for Vault<S> {
    type V = VaultView<S>;

    closed spec fn view(&self) -> VaultView<S> {
        VaultView {
            name: self.name@,
            secret: self.secret,
            preferences: self.preferences@,
            is_default: self.default,
        }
    }
}

impl<S> Vault<S> {
    /// The preferences of the vault in the order in which they were added.
    pub closed spec fn entries(&self) -> Seq<Preference> {
        self.preferences.entries()
    }

    /// What the preferences of a vault say is what its entries say.
    pub proof fn lemma_preferences_of_entries(&self)
        ensures
            self@.preferences == self.entries().map_values(|p: Preference| p@),
    {
    }

    /// Creates a new Vault.
    pub fn new(name: &str, secret: S, default: bool) -> (vault: Vault<S>)
        ensures
            vault@ == (VaultView {
                name: name@,
                secret,
                preferences: Seq::empty(),
                is_default: default,
            }),
            vault.entries() == Seq::<Preference>::empty(),
    {
        let name = name.to_owned();
        let preferences = Preferences::new();
        Vault { name, secret, preferences, default }
    }

    /// Puts a vault together from what was stored of it.
    pub fn from_parts(name: String, secret: S, preferences: Preferences, default: bool) -> (vault:
        Vault<S>)
        ensures
            vault@ == (VaultView {
                name: name@,
                secret,
                preferences: preferences@,
                is_default: default,
            }),
            vault.entries() == preferences.entries(),
    {
        Vault { name, secret, preferences, default }
    }

    /// The name of the vault.
    pub fn name(&self) -> (name: &String)
        ensures
            name@ == self@.name,
    {
        &self.name
    }

    /// The secret of the vault.
    pub fn secret(&self) -> (secret: &S)
        ensures
            *secret == self@.secret,
    {
        &self.secret
    }

    /// The preferences of the vault.
    pub fn preferences(&self) -> (preferences: &Preferences)
        ensures
            preferences@ == self@.preferences,
            preferences.entries() == self.entries(),
    {
        &self.preferences
    }

    /// The preferences of the vault, to be changed. What the caller leaves
    /// in them stays with the vault; nothing else of the vault changes.
    pub fn preferences_mut(&mut self) -> (preferences: &mut Preferences)
        ensures
            preferences@ == old(self)@.preferences,
            preferences.entries() == old(self).entries(),
            final(self)@ == (VaultView { preferences: final(preferences)@, ..old(self)@ }),
            final(self).entries() == final(preferences).entries(),
    {
        &mut self.preferences
    }

    /// Returns true if this is the default vault.
    pub fn is_default(&self) -> (default: bool)
        ensures
            default == self@.is_default,
    {
        self.default
    }

    /// Returns a mutable reference to the matching preference
    ///
    /// What the caller leaves in the preference takes its place among the
    /// preferences of the vault; nothing else of the vault changes.
    pub fn get_preference_mut(&mut self, domain: &str, username: &str) -> (found: Result<
        &mut Preference,
        VaultError,
    >)
        ensures
            match entry_position(old(self)@.preferences, domain@, username@) {
                Some(i) => found matches Ok(item) && 0 <= i < old(self).entries().len()
                    && *item == old(self).entries()[i]
                    && final(self).entries() == old(self).entries().update(i, *final(item)),
                None => found matches Err(e) && e is NoMatchingPreference
                    && final(self).entries() == old(self).entries(),
            },
            final(self)@.name == old(self)@.name,
            final(self)@.secret == old(self)@.secret,
            final(self)@.is_default == old(self)@.is_default,
    {
        match self.preferences.find_mut(domain, username) {
            Some(item) => Ok(item),
            None => Err(VaultError::NoMatchingPreference),
        }
    }

    /// Returns the path to where the vault is stored on disk.
    pub fn path(&self) -> (path: String)
        ensures
            path@ == path_of(self@.name),
    {
        let mut path = String::from_str(constants::ROOT_PATH);
        path.append("/");
        path.append(self.name.as_str());
        path.append(".json");
        path
    }
}

impl<S: PasswordGenerator> Vault<S> {
    /// Generates a password. All the password parameters other than domain and key
    /// are populated from the default preference if not specified.
    ///
    /// The preference is the one of the domain and username where a username
    /// is given, and the default one of the domain where none is. Without
    /// such a preference there is no password. Else the generator of the
    /// vault is asked once, with the key and the resolved parameters, and
    /// what it returns is passed on.
    pub fn get_password(
        &self,
        domain: &str,
        key: &str,
        username: Option<&str>,
        length: Option<usize>,
        version: Option<usize>,
    ) -> (password: Result<String, VaultError>)
        ensures
            password_outcome(
                self@,
                domain@,
                key,
                text_of(username),
                length,
                version,
                password,
            ),
    {
        let preference = match username {
            Some(username) => self.preferences.find(domain, username),
            None => self.preferences.find_default(domain),
        };
        let preference = match preference {
            Some(preference) => preference,
            None => { return Err(VaultError::NoMatchingPreference); },
        };
        let username: &str = match username {
            Some(username) => username,
            None => preference.username().as_str(),
        };
        let length = match length {
            Some(length) => length,
            None => preference.length(),
        };
        let version = match version {
            Some(version) => version,
            None => preference.version(),
        };
        let param = PasswordParam { domain, username, length, version };
        let ghost handed = param;
        let generated = self.secret.get(key, param);
        match generated {
            Ok(password) => Ok(password),
            Err(err) => Err(VaultError::from(err)),
        }
    }
}

// ---------------------------------- Vaults -----------------------------------
/// The vaults of a user, one of which is the default one.
pub struct Vaults<S> {
    items: List<Vault<S>>,
}

impl<S> View for Vaults<S> {
    type V = Seq<VaultView<S>>;

    open spec fn view(&self) -> Seq<VaultView<S>> {
        self.entries().map_values(|v: Vault<S>| v@)
    }
}

impl<S> Vaults<S> {
    /// The vaults in the order in which they were loaded or added.
    pub closed spec fn entries(&self) -> Seq<Vault<S>> {
        self.items@
    }

    /// Takes the vaults that were read from under the root-path into memory.
    pub fn new(vaults: Vec<Vault<S>>) -> (loaded: Vaults<S>)
        ensures
            loaded.entries() == vaults@,
    {
        Vaults { items: List::from(vaults) }
    }

    /// Creates a new Vault with the given name and adds to the collection of vaults.
    /// If this is the first Vault that's getting created, the vault is marked as default.
    ///
    /// The vault is refused where the collection holds one of its name.
    pub fn add(&mut self, name: &str, secret: S) -> (added: Result<(), VaultError>)
        ensures
            final(self)@ == with_vault(old(self)@, name@, secret),
            has_vault(old(self)@, name@) ==> (added matches Err(e) && e is VaultAlreadyExists)
                && final(self).entries() == old(self).entries(),
            !has_vault(old(self)@, name@) ==> added is Ok,
            well_kept(old(self)@) ==> well_kept(final(self)@),
    {
        proof {
            if well_kept(self@) {
                lemma_add_vault_keeps_rules(self@, name@, secret);
            }
        }
        // make sure the name is unique
        let wanted = name.to_owned();
        let same_name = |v: &Vault<S>| -> (b: bool)
            ensures
                b == (v@.name == wanted@),
            { v.name == wanted };
        if self.items.has(same_name) {
            proof {
                let i = choose|i: int| first_match(self.entries(), same_name, i);
                assert(self@[i].name == name@);
            }
            return Err(VaultError::VaultAlreadyExists);
        }
        // if this is the first vault, label it as default
        let default = self.items.is_empty();
        let ghost before = self@;
        let vault = Vault::new(name, secret, default);
        self.items.add(vault);
        assert(self@ =~= before.push(vault@));
        Ok(())
    }

    /// Returns the default vault.
    ///
    /// It is the first vault that is marked as default. What the caller
    /// leaves in it takes its place in the collection.
    pub fn get_default_mut(&mut self) -> (found: Option<&mut Vault<S>>)
        ensures
            match default_vault_position(old(self)@) {
                Some(i) => found matches Some(vault) && 0 <= i < old(self).entries().len()
                    && *vault == old(self).entries()[i]
                    && final(self).entries() == old(self).entries().update(i, *final(vault)),
                None => found is None && final(self).entries() == old(self).entries(),
            },
    {
        let is_default = |v: &Vault<S>| -> (b: bool)
            ensures
                b == v@.is_default,
            { v.default == true };
        proof {
            lemma_first_position(self@, default_vault_test());
            assert forall|i: int| #[trigger]
                first_match(self.entries(), is_default, i) implies default_vault_position(self@)
                == Some(i) by {
                lemma_first_position_at(self@, default_vault_test(), i);
            }
        }
        self.items.get_mut(is_default)
    }
}

impl<S> std::ops::Deref for Vaults<S> {
    type Target = List<Vault<S>>;

    fn deref(&self) -> (list: &List<Vault<S>>)
        ensures
            list@ == self.entries(),
    {
        &self.items
    }
}

} // verus!
