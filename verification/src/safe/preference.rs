//! Preferences are the password parameters that a vault remembers for each
//! domain and username.

use super::collection::{
    first_match, first_position, in_bounds, lemma_first_position, lemma_first_position_at, List,
};
use vstd::prelude::*;

verus! {

#[derive(Debug, Clone, Copy, PartialEq, Eq, Structural)]
pub enum PreferenceError {
    PreferenceExists,
    NoMatchingPreferenceFound,
}

/// # Preference
/// Associated with each domain + username are default parameters based on previous user interactions
#[derive(Debug, PartialEq, Eq)]
pub struct Preference {
    // domain name such as "google.com"
    pub domain: String,
    // username to differentiate multiple users for same domain
    pub username: String,
    // length of the password in characters
    pub length: usize,
    // version is incremented everytime we update ta password
    pub version: usize,
    // default indicates wheather this is the default preference for the domain
    default: bool,
}

/// What a preference says, apart from where its text is kept.
pub ghost struct PreferenceView {
    pub domain: Seq<char>,
    pub username: Seq<char>,
    pub length: usize,
    pub version: usize,
    pub is_default: bool,
}

impl View for Preference {
    type V = PreferenceView;

    closed spec fn view(&self) -> PreferenceView {
        PreferenceView {
            domain: self.domain@,
            username: self.username@,
            length: self.length,
            version: self.version,
            is_default: self.default,
        }
    }
}

/// What a new preference says: it has the first version, and is no default.
pub open spec fn new_preference(
    domain: Seq<char>,
    username: Seq<char>,
    length: usize,
) -> PreferenceView {
    PreferenceView { domain, username, length, version: 0, is_default: false }
}

impl Preference {
    /// Creates a new preference struct.
    pub fn new(domain: &str, username: &str, length: usize) -> (preference: Preference)
        ensures
            preference@ == new_preference(domain@, username@, length),
    {
        Preference {
            domain: domain.to_owned(),
            username: username.to_owned(),
            length,
            version: 0,
            default: false,
        }
    }

    /// Puts a preference together from what was stored of it.
    pub fn from_parts(
        domain: String,
        username: String,
        length: usize,
        version: usize,
        default: bool,
    ) -> (preference: Preference)
        ensures
            preference@ == (PreferenceView {
                domain: domain@,
                username: username@,
                length,
                version,
                is_default: default,
            }),
    {
        Preference { domain, username, length, version, default }
    }

    /// The domain name.
    pub fn domain(&self) -> (domain: &String)
        ensures
            domain@ == self@.domain,
    {
        &self.domain
    }

    /// The username.
    pub fn username(&self) -> (username: &String)
        ensures
            username@ == self@.username,
    {
        &self.username
    }

    /// The length of the password in characters.
    pub fn length(&self) -> (length: usize)
        ensures
            length == self@.length,
    {
        self.length
    }

    /// The version of the password.
    pub fn version(&self) -> (version: usize)
        ensures
            version == self@.version,
    {
        self.version
    }

    /// Returns true if this is the default preference for its domain.
    pub fn is_default(&self) -> (default: bool)
        ensures
            default == self@.is_default,
    {
        self.default
    }
}

// ---------------------------------- Model ------------------------------------
/// The preference is the one of the given domain and username.
pub open spec fn is_entry(p: PreferenceView, domain: Seq<char>, username: Seq<char>) -> bool {
    p.domain == domain && p.username == username
}

/// The preference is the default one of the given domain.
pub open spec fn is_default_of(p: PreferenceView, domain: Seq<char>) -> bool {
    p.is_default && p.domain == domain
}

/// Some preference of `prefs` has the given domain and username.
pub open spec fn has_entry(
    prefs: Seq<PreferenceView>,
    domain: Seq<char>,
    username: Seq<char>,
) -> bool {
    exists|i: int| 0 <= i < prefs.len() && is_entry(#[trigger] prefs[i], domain, username)
}

/// Some preference of `prefs` is the default one of the given domain.
pub open spec fn has_default_in(prefs: Seq<PreferenceView>, domain: Seq<char>) -> bool {
    exists|i: int| 0 <= i < prefs.len() && is_default_of(#[trigger] prefs[i], domain)
}

/// The test for the preference of the given domain and username.
pub open spec fn entry_test(domain: Seq<char>, username: Seq<char>) -> spec_fn(
    PreferenceView,
) -> bool {
    |p: PreferenceView| is_entry(p, domain, username)
}

/// The test for a default preference of the given domain.
pub open spec fn default_test(domain: Seq<char>) -> spec_fn(PreferenceView) -> bool {
    |p: PreferenceView| is_default_of(p, domain)
}

/// The position of the first preference of `prefs` with the given domain and
/// username.
pub open spec fn entry_position(
    prefs: Seq<PreferenceView>,
    domain: Seq<char>,
    username: Seq<char>,
) -> Option<int> {
    first_position(prefs, entry_test(domain, username))
}

/// The position of the first preference of `prefs` that is the default one
/// of the given domain.
pub open spec fn default_position(prefs: Seq<PreferenceView>, domain: Seq<char>) -> Option<int> {
    first_position(prefs, default_test(domain))
}

/// The first preference of `prefs` with the given domain and username.
pub open spec fn find_entry(
    prefs: Seq<PreferenceView>,
    domain: Seq<char>,
    username: Seq<char>,
) -> Option<PreferenceView> {
    match entry_position(prefs, domain, username) {
        Some(i) => Some(prefs[i]),
        None => None,
    }
}

/// The first preference of `prefs` that is the default one of the given domain.
pub open spec fn find_default(prefs: Seq<PreferenceView>, domain: Seq<char>) -> Option<
    PreferenceView,
> {
    match default_position(prefs, domain) {
        Some(i) => Some(prefs[i]),
        None => None,
    }
}

/// The preference that a lookup selects: the one of the domain and username
/// where a username is given, the default one of the domain where none is.
pub open spec fn selected(
    prefs: Seq<PreferenceView>,
    domain: Seq<char>,
    username: Option<Seq<char>>,
) -> Option<PreferenceView> {
    match username {
        Some(username) => find_entry(prefs, domain, username),
        None => find_default(prefs, domain),
    }
}

/// No two preferences share a domain and a username.
pub open spec fn unique_entries(prefs: Seq<PreferenceView>) -> bool {
    forall|i: int, j: int|
        0 <= i < j < prefs.len() ==> !is_entry(
            #[trigger] prefs[i],
            (#[trigger] prefs[j]).domain,
            prefs[j].username,
        )
}

/// No domain has two default preferences.
pub open spec fn at_most_one_default(prefs: Seq<PreferenceView>) -> bool {
    forall|i: int, j: int|
        0 <= i < j < prefs.len() && (#[trigger] prefs[i]).domain == (#[trigger] prefs[j]).domain
            ==> !(prefs[i].is_default && prefs[j].is_default)
}

/// Every domain that has a preference has a default one.
pub open spec fn every_domain_has_default(prefs: Seq<PreferenceView>) -> bool {
    forall|i: int| 0 <= i < prefs.len() ==> has_default_in(prefs, (#[trigger] prefs[i]).domain)
}

/// The rules that a collection of preferences keeps: a domain and username
/// name one preference, and each domain has exactly one default preference.
pub open spec fn consistent(prefs: Seq<PreferenceView>) -> bool {
    &&& unique_entries(prefs)
    &&& at_most_one_default(prefs)
    &&& every_domain_has_default(prefs)
}

/// The preference as it enters `prefs`: the default one of its domain if the
/// domain has none yet.
pub open spec fn entering(prefs: Seq<PreferenceView>, p: PreferenceView) -> PreferenceView {
    PreferenceView { is_default: !has_default_in(prefs, p.domain), ..p }
}

/// The collection after an attempt to add `p`: unchanged where `p`'s domain
/// and username are taken, else with `p` at its end.
pub open spec fn with_added(prefs: Seq<PreferenceView>, p: PreferenceView) -> Seq<PreferenceView> {
    if has_entry(prefs, p.domain, p.username) {
        prefs
    } else {
        prefs.push(entering(prefs, p))
    }
}

/// The preference after `username` became the default of `domain`.
pub open spec fn redefaulted(
    p: PreferenceView,
    domain: Seq<char>,
    username: Seq<char>,
) -> PreferenceView {
    if p.domain == domain {
        PreferenceView { is_default: p.username == username, ..p }
    } else {
        p
    }
}

/// The collection after an attempt to make `username` the default of
/// `domain`: unchanged where there is no such preference.
pub open spec fn with_default(
    prefs: Seq<PreferenceView>,
    domain: Seq<char>,
    username: Seq<char>,
) -> Seq<PreferenceView> {
    if has_entry(prefs, domain, username) {
        prefs.map_values(|p: PreferenceView| redefaulted(p, domain, username))
    } else {
        prefs
    }
}

/// The collection after attempts to add each of `added` in turn, starting
/// from `prefs`.
pub open spec fn with_all_added(
    prefs: Seq<PreferenceView>,
    added: Seq<PreferenceView>,
) -> Seq<PreferenceView>
    decreases added.len(),
{
    if added.len() == 0 {
        prefs
    } else {
        with_added(with_all_added(prefs, added.drop_last()), added.last())
    }
}

// ----------------------------------- Laws ------------------------------------
/// The first preference with a domain and username is at position `i` where
/// `i` is the least position of such a preference.
pub proof fn lemma_find_entry_at(
    prefs: Seq<PreferenceView>,
    domain: Seq<char>,
    username: Seq<char>,
    i: int,
)
    requires
        0 <= i < prefs.len(),
        is_entry(prefs[i], domain, username),
        forall|j: int| 0 <= j < i ==> !is_entry(#[trigger] prefs[j], domain, username),
    ensures
        entry_position(prefs, domain, username) == Some(i),
        find_entry(prefs, domain, username) == Some(prefs[i]),
{
    lemma_first_position_at(prefs, entry_test(domain, username), i);
}

/// A lookup by domain and username finds a preference exactly where there is
/// one: the first that has that domain and username.
pub proof fn lemma_find_entry(prefs: Seq<PreferenceView>, domain: Seq<char>, username: Seq<char>)
    ensures
        find_entry(prefs, domain, username) is Some <==> has_entry(prefs, domain, username),
        find_entry(prefs, domain, username) matches Some(p) ==> is_entry(p, domain, username)
            && prefs.contains(p),
        entry_position(prefs, domain, username) matches Some(i) ==> 0 <= i < prefs.len()
            && is_entry(prefs[i], domain, username) && forall|j: int|
            0 <= j < i ==> !is_entry(#[trigger] prefs[j], domain, username),
{
    lemma_first_position(prefs, entry_test(domain, username));
}

/// The first default preference of a domain is at position `i` where `i` is
/// the least position of such a preference.
pub proof fn lemma_find_default_at(prefs: Seq<PreferenceView>, domain: Seq<char>, i: int)
    requires
        0 <= i < prefs.len(),
        is_default_of(prefs[i], domain),
        forall|j: int| 0 <= j < i ==> !is_default_of(#[trigger] prefs[j], domain),
    ensures
        default_position(prefs, domain) == Some(i),
        find_default(prefs, domain) == Some(prefs[i]),
{
    lemma_first_position_at(prefs, default_test(domain), i);
}

/// A lookup of a domain's default finds a preference exactly where the domain
/// has a default one: the first that is a default of that domain.
pub proof fn lemma_find_default(prefs: Seq<PreferenceView>, domain: Seq<char>)
    ensures
        find_default(prefs, domain) is Some <==> has_default_in(prefs, domain),
        find_default(prefs, domain) matches Some(p) ==> is_default_of(p, domain) && prefs.contains(
            p,
        ),
        default_position(prefs, domain) matches Some(i) ==> 0 <= i < prefs.len() && is_default_of(
            prefs[i],
            domain,
        ) && forall|j: int| 0 <= j < i ==> !is_default_of(#[trigger] prefs[j], domain),
{
    lemma_first_position(prefs, default_test(domain));
}

/// Adding a preference keeps the rules of the collection: whatever is added
/// to a consistent collection, no domain has two defaults afterwards.
pub proof fn lemma_add_keeps_consistent(prefs: Seq<PreferenceView>, p: PreferenceView)
    requires
        consistent(prefs),
    ensures
        consistent(with_added(prefs, p)),
{
    if !has_entry(prefs, p.domain, p.username) {
        let after = prefs.push(entering(prefs, p));
        assert forall|i: int| 0 <= i < after.len() implies has_default_in(
            after,
            (#[trigger] after[i]).domain,
        ) by {
            let d = after[i].domain;
            if has_default_in(prefs, d) {
                let k = choose|k: int| 0 <= k < prefs.len() && is_default_of(#[trigger] prefs[k], d);
                assert(is_default_of(after[k], d));
            }
        }
    }
}

/// The first preference that is added for a domain becomes its default.
pub proof fn lemma_first_of_domain_is_default(prefs: Seq<PreferenceView>, p: PreferenceView)
    requires
        forall|i: int| 0 <= i < prefs.len() ==> (#[trigger] prefs[i]).domain != p.domain,
    ensures
        with_added(prefs, p) == prefs.push(PreferenceView { is_default: true, ..p }),
{
}

/// A preference whose domain and username are taken leaves the collection as
/// it was.
pub proof fn lemma_duplicate_changes_nothing(prefs: Seq<PreferenceView>, p: PreferenceView)
    requires
        has_entry(prefs, p.domain, p.username),
    ensures
        with_added(prefs, p) == prefs,
{
}

/// Whatever preferences are added one after another to an empty collection,
/// at every point the collection keeps its rules: each domain has exactly one
/// default preference.
pub proof fn lemma_all_added_consistent(added: Seq<PreferenceView>)
    ensures
        consistent(with_all_added(Seq::empty(), added)),
    decreases added.len(),
{
    if added.len() > 0 {
        lemma_all_added_consistent(added.drop_last());
        lemma_add_keeps_consistent(with_all_added(Seq::empty(), added.drop_last()), added.last());
    }
}

/// Setting a default keeps the rules of the collection, and leaves the named
/// preference as the one default of its domain.
pub proof fn lemma_set_default_keeps_consistent(
    prefs: Seq<PreferenceView>,
    domain: Seq<char>,
    username: Seq<char>,
)
    requires
        consistent(prefs),
    ensures
        consistent(with_default(prefs, domain, username)),
        has_entry(prefs, domain, username) ==> find_default(
            with_default(prefs, domain, username),
            domain,
        ) == find_entry(with_default(prefs, domain, username), domain, username),
{
    if has_entry(prefs, domain, username) {
        let after = with_default(prefs, domain, username);
        let w = choose|w: int|
            0 <= w < prefs.len() && is_entry(#[trigger] prefs[w], domain, username);
        assert forall|i: int| 0 <= i < after.len() implies has_default_in(
            after,
            (#[trigger] after[i]).domain,
        ) by {
            let d = prefs[i].domain;
            if d == domain {
                assert(is_default_of(after[w], d));
            } else {
                let k = choose|k: int| 0 <= k < prefs.len() && is_default_of(#[trigger] prefs[k], d);
                assert(is_default_of(after[k], d));
            }
        }
        // The one default of the domain is the named preference.
        assert forall|j: int| 0 <= j < after.len() && j != w implies !is_default_of(
            #[trigger] after[j],
            domain,
        ) && !is_entry(after[j], domain, username) by {
            assert(prefs[j].domain == domain ==> prefs[j].username != username);
        }
        lemma_find_default_at(after, domain, w);
        lemma_find_entry_at(after, domain, username, w);
    }
}

// ------------------------------- Preferences ---------------------------------
/// # Preferences
/// A collection of preference items.
/// Enforces a constraint that only one preference for each domain can be the default preference.
#[derive(Debug, PartialEq, Eq)]
pub struct Preferences {
    items: List<Preference>,
}

impl View for Preferences {
    type V = Seq<PreferenceView>;

    open spec fn view(&self) -> Seq<PreferenceView> {
        self.entries().map_values(|p: Preference| p@)
    }
}

/// `f` can be called on `p`.
pub open spec fn accepts_call<F: Fn(&Preference) -> bool>(f: &F, p: &Preference) -> bool {
    call_requires(*f, (p,))
}

/// `f` may answer `b` when called on `p`.
pub open spec fn may_answer<F: Fn(&Preference) -> bool>(f: &F, p: &Preference, b: bool) -> bool {
    call_ensures(*f, (p,), b)
}

/// `f` can be called on every default preference of `entries`.
pub open spec fn callable_on_defaults<F: Fn(&Preference) -> bool>(
    entries: Seq<Preference>,
    f: F,
) -> bool {
    forall|j: int|
        0 <= j < entries.len() && (#[trigger] entries[j])@.is_default ==> call_requires(
            f,
            (&entries[j],),
        )
}

/// `i` is the position of the first default preference of `entries` that `f`
/// may accept, every default one before it being one that `f` may reject.
pub open spec fn first_default_match<F: Fn(&Preference) -> bool>(
    entries: Seq<Preference>,
    f: F,
    i: int,
) -> bool {
    &&& 0 <= i < entries.len()
    &&& entries[i]@.is_default
    &&& call_ensures(f, (&entries[i],), true)
    &&& forall|j: int|
        0 <= j < i && (#[trigger] entries[j])@.is_default ==> call_ensures(
            f,
            (&entries[j],),
            false,
        )
}

/// `f` may reject every default preference of `entries`.
pub open spec fn no_default_match<F: Fn(&Preference) -> bool>(
    entries: Seq<Preference>,
    f: F,
) -> bool {
    forall|j: int|
        0 <= j < entries.len() && (#[trigger] entries[j])@.is_default ==> call_ensures(
            f,
            (&entries[j],),
            false,
        )
}

impl Preferences {
    /// The preferences in the order in which they were added.
    pub closed spec fn entries(&self) -> Seq<Preference> {
        self.items@
    }

    /// Creates an empty Preferences collection.
    pub fn new() -> (preferences: Preferences)
        ensures
            preferences.entries() == Seq::<Preference>::empty(),
            preferences@ == Seq::<PreferenceView>::empty(),
            consistent(preferences@),
    {
        Preferences { items: List::new() }
    }

    /// Creates a Preferences collection that holds the given items as they
    /// are, in their order.
    pub fn from(items: Vec<Preference>) -> (preferences: Preferences)
        ensures
            preferences.entries() == items@,
    {
        Preferences { items: List::from(items) }
    }

    /// Adds a preference item to the collection.
    ///
    /// The item is refused where the collection holds one with its domain and
    /// username. Else it is added as the last one, as the default one of its
    /// domain if and only if the domain has no default one yet.
    pub fn add(&mut self, preference: Preference) -> (added: Result<(), PreferenceError>)
        ensures
            final(self)@ == with_added(old(self)@, preference@),
            has_entry(old(self)@, preference@.domain, preference@.username) ==> added == Err::<
                (),
                PreferenceError,
            >(PreferenceError::PreferenceExists) && final(self).entries() == old(self).entries(),
            !has_entry(old(self)@, preference@.domain, preference@.username) ==> added is Ok,
            consistent(old(self)@) ==> consistent(final(self)@),
    {
        proof {
            if consistent(self@) {
                lemma_add_keeps_consistent(self@, preference@);
            }
        }
        let same_entry = |p: &Preference| -> (b: bool)
            ensures
                b == is_entry(p@, preference@.domain, preference@.username),
            { p.domain == preference.domain && p.username == preference.username };
        if self.items.has(same_entry) {
            proof {
                let i = choose|i: int| first_match(self.entries(), same_entry, i);
                assert(is_entry(self@[i], preference@.domain, preference@.username));
            }
            return Err(PreferenceError::PreferenceExists);
        }
        let same_domain = |p: &Preference| -> (b: bool)
            ensures
                b == (p@.domain == preference@.domain),
            { p.domain == preference.domain };
        let default = !self.has_default(same_domain);
        proof {
            if !default {
                let i = choose|i: int| first_default_match(self.entries(), same_domain, i);
                assert(is_default_of(self@[i], preference@.domain));
            }
        }
        let ghost before = self@;
        let preference = Preference { default, ..preference };
        self.items.add(preference);
        assert(self@ =~= before.push(preference@));
        Ok(())
    }

    /// Returns true of a default preference satisfies the predicate.
    pub fn has_default<F>(&self, f: F) -> (found: bool) where F: Fn(&Preference) -> bool
        requires
            callable_on_defaults(self.entries(), f),
        ensures
            found ==> exists|i: int| first_default_match(self.entries(), f, i),
            !found ==> no_default_match(self.entries(), f),
    {
        let default_and_f = |p: &Preference| -> (b: bool)
            requires
                p@.is_default ==> accepts_call(&f, p),
            ensures
                b ==> p@.is_default && may_answer(&f, p, true),
                !b ==> !p@.is_default || may_answer(&f, p, false),
            { p.default == true && f(p) };
        let found = self.items.has(default_and_f);
        proof {
            if found {
                let i = choose|i: int| first_match(self.entries(), default_and_f, i);
                assert(first_default_match(self.entries(), f, i));
            }
        }
        found
    }

    /// Returns an immutable reference to the first default preference satisfying the predicate.
    pub fn get_default<F>(&self, f: F) -> (found: Option<&Preference>) where
        F: Fn(&Preference) -> bool,

        requires
            callable_on_defaults(self.entries(), f),
        ensures
            match found {
                Some(item) => exists|i: int|
                    first_default_match(self.entries(), f, i) && *item == self.entries()[i],
                None => no_default_match(self.entries(), f),
            },
    {
        let default_and_f = |p: &Preference| -> (b: bool)
            requires
                p@.is_default ==> accepts_call(&f, p),
            ensures
                b ==> p@.is_default && may_answer(&f, p, true),
                !b ==> !p@.is_default || may_answer(&f, p, false),
            { p.default == true && f(p) };
        self.items.get(default_and_f)
    }

    /// Returns the preference of the given domain and username.
    pub fn find(&self, domain: &str, username: &str) -> (found: Option<&Preference>)
        ensures
            match found {
                Some(item) => find_entry(self@, domain@, username@) == Some(item@)
                    && self.entries().contains(*item),
                None => find_entry(self@, domain@, username@) is None,
            },
    {
        let domain = domain.to_owned();
        let username = username.to_owned();
        let wanted = |p: &Preference| -> (b: bool)
            ensures
                b == is_entry(p@, domain@, username@),
            { p.domain == domain && p.username == username };
        let found = self.items.get(wanted);
        proof {
            lemma_find_entry(self@, domain@, username@);
            if let Some(item) = found {
                let i = choose|i: int|
                    first_match(self.entries(), wanted, i) && *item == self.entries()[i];
                lemma_find_entry_at(self@, domain@, username@, i);
            }
        }
        found
    }

    /// Returns the default preference of the given domain.
    pub fn find_default(&self, domain: &str) -> (found: Option<&Preference>)
        ensures
            match found {
                Some(item) => find_default(self@, domain@) == Some(item@)
                    && self.entries().contains(*item),
                None => find_default(self@, domain@) is None,
            },
    {
        let domain = domain.to_owned();
        let wanted = |p: &Preference| -> (b: bool)
            ensures
                b == (p@.domain == domain@),
            { p.domain == domain };
        let found = self.get_default(wanted);
        proof {
            lemma_find_default(self@, domain@);
            if let Some(item) = found {
                let i = choose|i: int|
                    first_default_match(self.entries(), wanted, i) && *item == self.entries()[i];
                lemma_find_default_at(self@, domain@, i);
            }
        }
        found
    }

    /// Returns a mutable reference to the preference of the given domain and
    /// username. What the caller leaves in it takes its place in the
    /// collection.
    pub fn find_mut(&mut self, domain: &str, username: &str) -> (found: Option<&mut Preference>)
        ensures
            match entry_position(old(self)@, domain@, username@) {
                Some(i) => found matches Some(item) && 0 <= i < old(self).entries().len()
                    && *item == old(self).entries()[i]
                    && final(self).entries() == old(self).entries().update(i, *final(item)),
                None => found is None && final(self).entries() == old(self).entries(),
            },
    {
        let domain = domain.to_owned();
        let username = username.to_owned();
        let wanted = |p: &Preference| -> (b: bool)
            ensures
                b == is_entry(p@, domain@, username@),
            { p.domain == domain && p.username == username };
        proof {
            lemma_find_entry(self@, domain@, username@);
            assert forall|i: int| #[trigger]
                first_match(self.entries(), wanted, i) implies entry_position(
                self@,
                domain@,
                username@,
            ) == Some(i) by {
                lemma_find_entry_at(self@, domain@, username@, i);
            }
        }
        self.items.get_mut(wanted)
    }

    /// Sets a new default preference for a domain. This method ensures that the there is only one
    /// default preference for each domain.
    ///
    /// Where the collection holds the preference of the domain and username,
    /// that one becomes the default of the domain and every other one of the
    /// domain ceases to be. Else nothing changes.
    pub fn set_default(&mut self, domain: &str, username: &str) -> (set: Result<
        (),
        PreferenceError,
    >)
        ensures
            final(self)@ == with_default(old(self)@, domain@, username@),
            has_entry(old(self)@, domain@, username@) ==> set is Ok,
            !has_entry(old(self)@, domain@, username@) ==> set == Err::<(), PreferenceError>(
                PreferenceError::NoMatchingPreferenceFound,
            ) && final(self).entries() == old(self).entries(),
            consistent(old(self)@) ==> consistent(final(self)@),
    {
        proof {
            if consistent(self@) {
                lemma_set_default_keeps_consistent(self@, domain@, username@);
            }
        }
        let domain = domain.to_owned();
        let username = username.to_owned();
        let same_entry = |p: &Preference| -> (b: bool)
            ensures
                b == is_entry(p@, domain@, username@),
            { p.domain == domain && p.username == username };
        if !self.items.has(same_entry) {
            return Err(PreferenceError::NoMatchingPreferenceFound);
        }
        proof {
            let i = choose|i: int| first_match(self.entries(), same_entry, i);
            assert(is_entry(self@[i], domain@, username@));
        }
        let ghost before = self@;
        let ghost entries_before = self.entries();
        let redefault = |p: &mut Preference|
            ensures
                final(p)@ == redefaulted(old(p)@, domain@, username@),
            {
                if p.domain == domain {
                    p.default = p.username == username;
                }
            };
        self.items.apply(redefault);
        proof {
            assert forall|j: int| 0 <= j < before.len() implies #[trigger] self@[j] == redefaulted(
                before[j],
                domain@,
                username@,
            ) by {
                assert(in_bounds(j, entries_before.len()));
            }
            assert(self@ =~= with_default(before, domain@, username@));
        }
        Ok(())
    }
}

impl std::ops::Deref for Preferences {
    type Target = List<Preference>;

    fn deref(&self) -> (list: &List<Preference>)
        ensures
            list@ == self.entries(),
    {
        &self.items
    }
}

} // verus!
