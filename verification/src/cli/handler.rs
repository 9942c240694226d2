//! What is done for each command, once the vaults are loaded and the key is
//! read.

use super::parser::{ParamName, Params};
use crate::safe::constants;
use crate::safe::crypto::{keeps_bytes, CryptoError, PasswordGenerator, Secret};
use crate::safe::preference::{
    has_entry, new_preference, with_added, Preference, PreferenceError, PreferenceView,
};
use crate::safe::vault::{
    default_vault_position, has_vault, password_outcome, with_vault, VaultError, VaultView, Vaults,
};
use std::num::ParseIntError;
use vstd::prelude::*;

verus! {

/// The error that std reports for a text that is no number.
#[verifier::external_type_specification]
#[verifier::external_body]
pub struct ExParseIntError(ParseIntError);

#[derive(Debug)]
pub enum HandlerError {
    MissingVault,
    MissingParam(ParamName),
    VaultError(VaultError),
    SecretError(CryptoError),
    PreferenceError(PreferenceError),
    ConversionError(ParseIntError),
}

impl From<VaultError> for HandlerError {
    fn from(err: VaultError) -> (error: Self) {
        HandlerError::VaultError(err)
    }
}

impl vstd::std_specs::convert::FromSpecImpl<VaultError> for HandlerError {
    open spec fn obeys_from_spec() -> bool {
        true
    }

    open spec fn from_spec(err: VaultError) -> Self {
        HandlerError::VaultError(err)
    }
}

impl From<CryptoError> for HandlerError {
    fn from(err: CryptoError) -> (error: Self) {
        HandlerError::SecretError(err)
    }
}

impl vstd::std_specs::convert::FromSpecImpl<CryptoError> for HandlerError {
    open spec fn obeys_from_spec() -> bool {
        true
    }

    open spec fn from_spec(err: CryptoError) -> Self {
        HandlerError::SecretError(err)
    }
}

impl From<PreferenceError> for HandlerError {
    fn from(err: PreferenceError) -> (error: Self) {
        HandlerError::PreferenceError(err)
    }
}

impl vstd::std_specs::convert::FromSpecImpl<PreferenceError> for HandlerError {
    open spec fn obeys_from_spec() -> bool {
        true
    }

    open spec fn from_spec(err: PreferenceError) -> Self {
        HandlerError::PreferenceError(err)
    }
}

impl From<ParseIntError> for HandlerError {
    fn from(err: ParseIntError) -> (error: Self) {
        HandlerError::ConversionError(err)
    }
}

impl vstd::std_specs::convert::FromSpecImpl<ParseIntError> for HandlerError {
    open spec fn obeys_from_spec() -> bool {
        true
    }

    open spec fn from_spec(err: ParseIntError) -> Self {
        HandlerError::ConversionError(err)
    }
}

/// What a handler returns for what a vault returned.
pub open spec fn handed_on(given: Result<String, VaultError>) -> Result<String, HandlerError> {
    match given {
        Ok(text) => Ok(text),
        Err(err) => Err(HandlerError::VaultError(err)),
    }
}

// ---------------------------------- Numbers ----------------------------------
/// The number that a text of decimal digits stands for; no text but one of
/// digits stands for one. The empty text stands for zero.
pub open spec fn digits_value(s: Seq<char>) -> Option<nat>
    decreases s.len(),
{
    if s.len() == 0 {
        Some(0)
    } else if '0' <= s.last() <= '9' {
        match digits_value(s.drop_last()) {
            Some(front) => Some(front * 10 + (s.last() as nat - '0' as nat) as nat),
            None => None,
        }
    } else {
        None
    }
}

/// The number that a text stands for: decimal digits, one or more, after an
/// optional `+`.
pub open spec fn decimal(s: Seq<char>) -> Option<nat> {
    let digits = if s.len() > 0 && s[0] == '+' {
        s.drop_first()
    } else {
        s
    };
    if digits.len() == 0 {
        None
    } else {
        digits_value(digits)
    }
}

/// The length that a text stands for, where it stands for a number that a
/// length can be.
pub open spec fn length_of(s: Seq<char>) -> Option<usize> {
    match decimal(s) {
        Some(n) => if n <= usize::MAX {
            Some(n as usize)
        } else {
            None
        },
        None => None,
    }
}

/// Calls `str::parse` for a `usize`. Trusted: std takes decimal digits after
/// an optional `+` sign, and reports an error for every other text and for a
/// number that is too large for the type.
#[verifier::external_body]
fn parse_length(text: &str) -> (parsed: Result<usize, ParseIntError>)
    ensures
        match parsed {
            Ok(n) => length_of(text@) == Some(n),
            Err(_) => length_of(text@) is None,
        },
{
    text.parse::<usize>()
}

// --------------------------------- Handlers ----------------------------------
/// Why a command cannot be carried out with the options that it gives.
pub ghost enum Fault {
    /// An option that is needed is not given.
    Missing(ParamName),
    /// The length is no number that a length can be.
    NoNumber,
}

/// The text of an option, where the command gives it.
pub open spec fn option_of(params: Map<ParamName, Seq<char>>, name: ParamName) -> Option<
    Seq<char>,
> {
    if params.contains_key(name) {
        Some(params[name])
    } else {
        None
    }
}

/// The preference that a command asks to add: of the domain, the username
/// and the length that it gives. The three options are looked for in this
/// order, and the length is read once all of them are found.
pub open spec fn preference_of(params: Map<ParamName, Seq<char>>) -> Result<PreferenceView, Fault> {
    match option_of(params, ParamName::DomainName) {
        None => Err(Fault::Missing(ParamName::DomainName)),
        Some(domain) => match option_of(params, ParamName::UserName) {
            None => Err(Fault::Missing(ParamName::UserName)),
            Some(username) => match option_of(params, ParamName::Length) {
                None => Err(Fault::Missing(ParamName::Length)),
                Some(length) => match length_of(length) {
                    None => Err(Fault::NoNumber),
                    Some(length) => Ok(new_preference(domain, username, length)),
                },
            },
        },
    }
}

/// What a command asks a password for: a domain, with a username and a
/// length where it gives them.
pub ghost struct Request {
    pub domain: Seq<char>,
    pub username: Option<Seq<char>>,
    pub length: Option<usize>,
}

/// The request of a command for a password. The domain is needed; the
/// length, where one is given, has to be a number.
pub open spec fn request_of(params: Map<ParamName, Seq<char>>) -> Result<Request, Fault> {
    match option_of(params, ParamName::DomainName) {
        None => Err(Fault::Missing(ParamName::DomainName)),
        Some(domain) => match option_of(params, ParamName::Length) {
            None => Ok(
                Request { domain, username: option_of(params, ParamName::UserName), length: None },
            ),
            Some(length) => match length_of(length) {
                None => Err(Fault::NoNumber),
                Some(length) => Ok(
                    Request {
                        domain,
                        username: option_of(params, ParamName::UserName),
                        length: Some(length),
                    },
                ),
            },
        },
    }
}

/// The error that is reported for a fault.
pub open spec fn reports(error: HandlerError, fault: Fault) -> bool {
    match fault {
        Fault::Missing(name) => error matches HandlerError::MissingParam(missing) && missing
            == name,
        Fault::NoNumber => error is ConversionError,
    }
}

/// The vaults after the vault at `position` took `preferences` in place of
/// its own.
pub open spec fn with_preferences(
    vaults: Seq<VaultView<Secret>>,
    position: int,
    preferences: Seq<PreferenceView>,
) -> Seq<VaultView<Secret>> {
    vaults.update(position, VaultView { preferences, ..vaults[position] })
}

/// The outcome of adding a vault of the given name, with a new secret that
/// keeps its bytes encrypted under the key with the name as the IV: the
/// vault is added unless one of its name exists.
pub open spec fn vault_added(
    before: Seq<VaultView<Secret>>,
    after: Seq<VaultView<Secret>>,
    key: Seq<char>,
    name: Seq<char>,
    done: Result<(), HandlerError>,
) -> bool {
    exists|secret: Secret|
        keeps_bytes(secret@, key, name, constants::SECRET_LENGTH)
            && after == #[trigger] with_vault(before, name, secret)
            && (done is Ok <==> !has_vault(before, name))
            && (done matches Err(e) ==> e matches HandlerError::VaultError(
            VaultError::VaultAlreadyExists,
        ))
}

/// The outcome of adding a preference to the vault at `position`: it is
/// added unless the vault has one of its domain and username.
pub open spec fn preference_added(
    before: Seq<VaultView<Secret>>,
    after: Seq<VaultView<Secret>>,
    position: int,
    preference: PreferenceView,
    done: Result<(), HandlerError>,
) -> bool {
    let preferences = before[position].preferences;
    &&& after == with_preferences(before, position, with_added(preferences, preference))
    &&& done is Ok <==> !has_entry(preferences, preference.domain, preference.username)
    &&& done matches Err(e) ==> e matches HandlerError::PreferenceError(
        PreferenceError::PreferenceExists,
    )
}

/// The outcome of asking a vault for a password: what the vault returns for
/// the request under the key, handed on.
pub open spec fn password_given<S: PasswordGenerator>(
    vault: VaultView<S>,
    key: &str,
    request: Request,
    password: Result<String, HandlerError>,
) -> bool {
    exists|given: Result<String, VaultError>|
        #[trigger] password_outcome(
            vault,
            request.domain,
            key,
            request.username,
            request.length,
            None,
            given,
        ) && password == handed_on(given)
}

/// Creates a new vault
///
/// The vault has the name that the command gives, and a new secret that is
/// encrypted under the key with that name as the IV. Without a name in the
/// command, or with the name of a vault that exists, nothing changes.
pub fn add_vault(vaults: &mut Vaults<Secret>, key: &str, params: &Params) -> (done: Result<
    (),
    HandlerError,
>)
    ensures
        match option_of(params@, ParamName::VaultName) {
            None => done matches Err(e) && reports(e, Fault::Missing(ParamName::VaultName))
                && final(vaults)@ == old(vaults)@,
            Some(name) => vault_added(old(vaults)@, final(vaults)@, key@, name, done),
        },
{
    let name = match params.get(&ParamName::VaultName) {
        Some(name) => name,
        None => { return Err(HandlerError::MissingParam(ParamName::VaultName)); },
    };
    let secret = match Secret::new(key, name.as_str(), constants::SECRET_LENGTH) {
        Ok(secret) => secret,
        Err(err) => { return Err(HandlerError::from(err)); },
    };
    let ghost made = secret;
    let added = vaults.add(name.as_str(), secret);
    proof {
        assert(keeps_bytes(made@, key@, name@, constants::SECRET_LENGTH));
    }
    match added {
        Ok(_) => Ok(()),
        Err(err) => Err(HandlerError::from(err)),
    }
}

/// Stores the defaults for a password
///
/// The default vault takes a new preference of the domain, username and
/// length that the command gives. Nothing changes without a default vault,
/// without one of the three options, with a length that is no number, or
/// where the vault has a preference of that domain and username.
pub fn add_password(vaults: &mut Vaults<Secret>, params: &Params) -> (done: Result<
    (),
    HandlerError,
>)
    ensures
        match default_vault_position(old(vaults)@) {
            None => done matches Err(e) && e is MissingVault && final(vaults)@ == old(vaults)@,
            Some(position) => match preference_of(params@) {
                Err(fault) => done matches Err(e) && reports(e, fault)
                    && final(vaults)@ == old(vaults)@,
                Ok(preference) => preference_added(
                    old(vaults)@,
                    final(vaults)@,
                    position,
                    preference,
                    done,
                ),
            },
        },
{
    let ghost before = vaults@;
    let v = match vaults.get_default_mut() {
        Some(v) => v,
        None => { return Err(HandlerError::MissingVault); },
    };
    let ghost position = default_vault_position(before)->0;
    let domain = match params.get(&ParamName::DomainName) {
        Some(domain) => domain,
        None => { return Err(HandlerError::MissingParam(ParamName::DomainName)); },
    };
    let username = match params.get(&ParamName::UserName) {
        Some(username) => username,
        None => { return Err(HandlerError::MissingParam(ParamName::UserName)); },
    };
    let length = match params.get(&ParamName::Length) {
        Some(length) => length,
        None => { return Err(HandlerError::MissingParam(ParamName::Length)); },
    };
    let length = match parse_length(length.as_str()) {
        Ok(length) => length,
        Err(err) => { return Err(HandlerError::from(err)); },
    };
    let p = Preference::new(domain.as_str(), username.as_str(), length);
    let ghost preference = p@;
    let added = v.preferences_mut().add(p);
    proof {
        assert(vaults@ =~= with_preferences(
            before,
            position,
            with_added(before[position].preferences, preference),
        ));
    }
    match added {
        Ok(_) => Ok(()),
        Err(err) => Err(HandlerError::from(err)),
    }
}

/// Generates a password
///
/// The password is the one that the default vault gives for the domain of
/// the command under the key, with the username and the length of the
/// command where it gives them. The vaults stay as they are.
pub fn get_password(vaults: &mut Vaults<Secret>, key: &str, params: &Params) -> (password: Result<
    String,
    HandlerError,
>)
    ensures
        final(vaults)@ == old(vaults)@,
        match default_vault_position(old(vaults)@) {
            None => password matches Err(e) && e is MissingVault,
            Some(position) => match request_of(params@) {
                Err(fault) => password matches Err(e) && reports(e, fault),
                Ok(request) => password_given(old(vaults)@[position], key, request, password),
            },
        },
{
    let ghost before = vaults@;
    let v = match vaults.get_default_mut() {
        Some(v) => v,
        None => { return Err(HandlerError::MissingVault); },
    };
    let ghost position = default_vault_position(before)->0;
    let domain = match params.get(&ParamName::DomainName) {
        Some(domain) => domain,
        None => { return Err(HandlerError::MissingParam(ParamName::DomainName)); },
    };
    let username: Option<&str> = match params.get(&ParamName::UserName) {
        Some(username) => Some(username.as_str()),
        None => None,
    };
    let length = match params.get(&ParamName::Length) {
        Some(l) => match parse_length(l.as_str()) {
            Ok(l) => Some(l),
            Err(err) => { return Err(HandlerError::ConversionError(err)); },
        },
        None => None,
    };
    let given = v.get_password(domain.as_str(), key, username, length, None);
    proof {
        let request = Request {
            domain: domain@,
            username: option_of(params@, ParamName::UserName),
            length,
        };
        assert(password_outcome(
            before[position],
            request.domain,
            key,
            request.username,
            request.length,
            None,
            given,
        ));
    }
    match given {
        Ok(password) => Ok(password),
        Err(err) => Err(HandlerError::from(err)),
    }
}

} // verus!
