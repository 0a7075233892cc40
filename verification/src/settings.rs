//! Client settings: the active account and free-form defaults.
use vstd::prelude::*;
use crate::error::{CliError, CliResult};
use crate::strmap::{StrMap, sorted_keys};
use crate::text::{owned, push_text, str_equal};
use std::path::PathBuf;

verus! {

/// Paths of the file system.
#[verifier::external_type_specification]
#[verifier::external_body]
pub struct ExPathBuf(PathBuf);

/// The view of an optional string.
pub open spec fn opt_text(o: Option<String>) -> Option<Seq<char>> {
    match o {
        Some(s) => Some(s@),
        None => None,
    }
}

/// The name of the setting that selects the active account.
pub open spec fn active_key() -> Seq<char> {
    "active_account"@
}

/// Client settings.
pub struct Settings {
    /// The account that commands use unless a profile is given.
    pub active_account: Option<String>,
    /// Other settings, by name.
    pub defaults: StrMap<String>,
}

/// The abstract content of the settings.
pub struct SettingsView {
    pub active: Option<Seq<char>>,
    pub defaults: Map<Seq<char>, Seq<char>>,
}

/// The values of a map of strings, as texts.
pub open spec fn text_map(m: Map<Seq<char>, String>) -> Map<Seq<char>, Seq<char>> {
    m.map_values(|v: String| v@)
}

impl View for Settings {
    type V = SettingsView;

    open spec fn view(&self) -> SettingsView {
        SettingsView { active: opt_text(self.active_account), defaults: text_map(self.defaults@) }
    }
}

/// The value a setting reads: the active account for its own name, else the default.
pub open spec fn setting_value(s: SettingsView, key: Seq<char>) -> Option<Seq<char>> {
    if key == active_key() {
        s.active
    } else if s.defaults.contains_key(key) {
        Some(s.defaults[key])
    } else {
        None
    }
}

/// The settings after setting `key` to `value`.
pub open spec fn with_setting(s: SettingsView, key: Seq<char>, value: Seq<char>) -> SettingsView {
    if key == active_key() {
        SettingsView { active: Some(value), defaults: s.defaults }
    } else {
        SettingsView { active: s.active, defaults: s.defaults.insert(key, value) }
    }
}

/// The listing of the settings: the active account first (empty when there is none),
/// then the defaults in ascending order of their names.
pub open spec fn listing(active: Option<Seq<char>>, keys: Seq<Seq<char>>, m: Map<Seq<char>, Seq<char>>) -> Seq<(Seq<char>, Seq<char>)> {
    seq![(active_key(), match active { Some(a) => a, None => Seq::empty() })]
        + keys.map_values(|k: Seq<char>| (k, m[k]))
}

/// The account that a command acts on: the profile given, else the active account.
pub open spec fn resolved_account(s: SettingsView, profile: Option<Seq<char>>) -> Option<Seq<char>> {
    match profile {
        Some(p) => Some(p),
        None => s.active,
    }
}

/// The message when no account can be resolved.
pub open spec fn no_active_message() -> Seq<char> {
    "No active account. Run `jsscli account use <name>`."@
}

/// The message when a setting is missing.
pub open spec fn missing_key_message(key: Seq<char>) -> Seq<char> {
    "Key `"@ + key + "` not found"@
}

/// A pair of strings as a pair of texts.
pub open spec fn pair_text(p: (String, String)) -> (Seq<char>, Seq<char>) {
    (p.0@, p.1@)
}

impl Settings {
    /// Settings with no active account and no defaults.
    pub fn new() -> (res: Self)
        ensures
            res@.active is None,
            res@.defaults == Map::<Seq<char>, Seq<char>>::empty(),
    {
        let res = Settings { active_account: None, defaults: StrMap::new() };
        proof {
            assert(text_map(res.defaults@) =~= Map::<Seq<char>, Seq<char>>::empty());
        }
        res
    }

    /// Sets `key` to `value`: the active account for `active_account`, else a default.
    /// Setting never fails.
    pub fn set(&mut self, key: &str, value: &str) -> (res: CliResult<()>)
        ensures
            res is Ok,
            final(self)@ == with_setting(old(self)@, key@, value@),
    {
        let ghost before = self@;
        if str_equal(key, "active_account") {
            self.active_account = Some(owned(value));
        } else {
            self.defaults.insert(owned(key), owned(value));
            proof {
                assert(text_map(self.defaults@) =~= before.defaults.insert(key@, value@));
            }
        }
        Ok(())
    }

    /// The value of `key`: the active account for `active_account`, else the default.
    pub fn get(&self, key: &str) -> (res: Option<String>)
        ensures
            opt_text(res) == setting_value(self@, key@),
    {
        if str_equal(key, "active_account") {
            match &self.active_account {
                Some(a) => Some(a.clone()),
                None => None,
            }
        } else {
            match self.defaults.get(key) {
                Some(v) => Some(v.clone()),
                None => None,
            }
        }
    }

    /// All settings as (name, value) pairs: `active_account` first, its value empty
    /// when there is no active account, then the defaults in ascending name order.
    pub fn list_pairs(&self) -> (res: Vec<(String, String)>)
        ensures
            sorted_keys(self.defaults.ordered_keys()),
            res@.map_values(|p: (String, String)| pair_text(p)) == listing(
                self@.active,
                self.defaults.ordered_keys(),
                self@.defaults,
            ),
    {
        let mut out: Vec<(String, String)> = Vec::new();
        let first = match &self.active_account {
            Some(a) => a.clone(),
            None => String::new(),
        };
        out.push((owned("active_account"), first));
        let pairs = self.defaults.pairs();
        let ghost ks = self.defaults.ordered_keys();
        let ghost want = listing(self@.active, ks, self@.defaults);
        let mut i: usize = 0;
        while i < pairs.len()
            invariant
                pairs@.len() == ks.len(),
                ks == self.defaults.ordered_keys(),
                sorted_keys(ks),
                want == listing(self@.active, ks, self@.defaults),
                forall|j: int|
                    0 <= j < pairs@.len() ==> (#[trigger] pairs@[j]).0@ == ks[j] && *pairs@[j].1
                        == self.defaults@[ks[j]],
                i <= pairs@.len(),
                out@.len() == i + 1,
                forall|j: int| 0 <= j <= i ==> pair_text(#[trigger] out@[j]) == want[j],
            decreases pairs@.len() - i,
        {
            let (k, v) = pairs[i];
            out.push((k.clone(), v.clone()));
            proof {
                let m = self.defaults@;
                assert(pairs@[i as int].0@ == ks[i as int]);
                assert(text_map(m)[ks[i as int]] == m[ks[i as int]]@) by {
                    self.defaults.lemma_shape();
                    assert(m.dom().contains(ks[i as int]));
                }
                assert(want[i + 1] == (ks[i as int], text_map(m)[ks[i as int]]));
            }
            i = i + 1;
        }
        proof {
            assert(out@.map_values(|p: (String, String)| pair_text(p)) =~= want);
        }
        out
    }

    /// The account to act on: `profile` when given, else the active account; an
    /// error when neither is set.
    pub fn resolve_active(&self, profile: Option<&str>) -> (res: CliResult<String>)
        ensures
            match res {
                Ok(name) => Some(name@) == resolved_account(
                    self@,
                    match profile {
                        Some(p) => Some(p@),
                        None => None,
                    },
                ),
                Err(e) => resolved_account(
                    self@,
                    match profile {
                        Some(p) => Some(p@),
                        None => None,
                    },
                ) is None && e is Config && e->Config_0@ == no_active_message(),
            },
    {
        match profile {
            Some(p) => Ok(owned(p)),
            None => match &self.active_account {
                Some(a) => Ok(a.clone()),
                None => Err(CliError::Config(owned("No active account. Run `jsscli account use <name>`."))),
            },
        }
    }

    /// The value of `key`, or a configuration error naming the key.
    pub fn get_required(&self, key: &str) -> (res: CliResult<String>)
        ensures
            match res {
                Ok(v) => setting_value(self@, key@) == Some(v@),
                Err(e) => setting_value(self@, key@) is None && e is Config && e->Config_0@
                    == missing_key_message(key@),
            },
    {
        match self.get(key) {
            Some(v) => Ok(v),
            None => {
                let mut m = owned("Key `");
                push_text(&mut m, key);
                push_text(&mut m, "` not found");
                proof {
                    assert(m@ =~= missing_key_message(key@));
                }
                Err(CliError::Config(m))
            },
        }
    }

    /// Clears the active account when it is `name`; tells whether it was.
    pub fn clear_active_if(&mut self, name: &str) -> (res: bool)
        ensures
            res == (old(self)@.active == Some(name@)),
            final(self)@.defaults == old(self)@.defaults,
            final(self)@.active == if res {
                None
            } else {
                old(self)@.active
            },
    {
        let is_it = match &self.active_account {
            Some(a) => str_equal(a.as_str(), name),
            None => false,
        };
        if is_it {
            self.active_account = None;
        }
        is_it
    }
}

impl Default for Settings {
    fn default() -> (res: Self)
        ensures
            res@.active is None,
            res@.defaults == Map::<Seq<char>, Seq<char>>::empty(),
    {
        Settings::new()
    }
}

/// Reading a setting just written gives back the value written.
pub proof fn law_setting_read_after_write(s: SettingsView, key: Seq<char>, value: Seq<char>)
    ensures
        setting_value(with_setting(s, key, value), key) == Some(value),
{
}

/// Writing one setting leaves every other setting as it was.
pub proof fn law_setting_write_isolated(s: SettingsView, key: Seq<char>, value: Seq<char>, other: Seq<char>)
    requires
        other != key,
    ensures
        setting_value(with_setting(s, key, value), other) == setting_value(s, other),
{
}

/// A profile given on the command line wins over the active account.
pub proof fn law_profile_overrides_active(s: SettingsView, profile: Seq<char>)
    ensures
        resolved_account(s, Some(profile)) == Some(profile),
{
}


/// A path as text, as it is displayed (`Path::display`).
///
/// Trusted: `Path::display` followed by `to_string`. Nothing is stated of the text:
/// a `PathBuf` is opaque here, so there is nothing to relate it to.
#[verifier::external_body]
pub fn pretty_print_path(p: &PathBuf) -> String {
    p.display().to_string()
}

/// The active account once the environment is read: the account the environment
/// names wins over the one stored in the settings.
pub fn effective_active(env: Option<String>, stored: Option<String>) -> (res: Option<String>)
    ensures
        res == (match env {
            Some(e) => Some(e),
            None => stored,
        }),
{
    match env {
        Some(e) => Some(e),
        None => stored,
    }
}

/// The settings listing starts with ("active_account", the active account's name),
/// with an empty name only when no account is active, and then holds each default,
/// in the order of the keys given, with its value.
pub proof fn law_listing_shows_active_account(
    active: Option<Seq<char>>,
    keys: Seq<Seq<char>>,
    m: Map<Seq<char>, Seq<char>>,
)
    ensures
        listing(active, keys, m).len() == keys.len() + 1,
        listing(active, keys, m)[0].0 == "active_account"@,
        active matches Some(a) ==> listing(active, keys, m)[0].1 == a,
        active is None ==> listing(active, keys, m)[0].1.len() == 0,
        forall|i: int| 0 <= i < keys.len() ==> #[trigger] listing(active, keys, m)[i + 1] == (keys[i], m[keys[i]]),
{
    let l = listing(active, keys, m);
    assert forall|i: int| 0 <= i < keys.len() implies #[trigger] l[i + 1] == (keys[i], m[keys[i]]) by {
    }
}

} // verus!
