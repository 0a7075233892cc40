//! Accounts: how each reaches its site and authenticates, and the store that holds them.
use vstd::prelude::*;
use crate::cli::AuthModeKind;
use crate::error::{CliError, CliResult};
use crate::settings::{Settings, SettingsView, opt_text};
use crate::strmap::{StrMap, sorted_keys};
use crate::text::{decimal, decimal_text, owned, push_text};

verus! {

/// How an account authenticates; the secret itself is kept in the system keyring.
#[derive(Clone, Debug)]
pub enum AuthModeSer {
    Session { email: String },
    Token { api_key: String },
}

/// An account of a JSS / Frappe site.
#[derive(Clone, Debug)]
pub struct Account {
    pub name: String,
    pub base_url: String,
    pub mode: AuthModeSer,
    pub expected_sitename: Option<String>,
    pub required_roles: Vec<String>,
    pub timeout_secs: u64,
    pub max_retries: u32,
    pub user_agent: String,
    pub insecure_ssl: bool,
}

/// Request timeout of an account, in seconds, when none is configured.
pub fn default_timeout() -> (res: u64)
    ensures
        res == 30,
{
    30
}

/// Retries of an account when none are configured.
pub fn default_retries() -> (res: u32)
    ensures
        res == 3,
{
    3
}

/// The user agent that requests carry.
pub open spec fn user_agent_text() -> Seq<char> {
    "jsscli/0.3"@
}

/// User agent of an account when none is configured.
pub fn default_user_agent() -> (res: String)
    ensures
        res@ == user_agent_text(),
{
    owned("jsscli/0.3")
}

impl Default for AuthModeSer {
    fn default() -> (res: Self)
        ensures
            res matches AuthModeSer::Session { email } && email@ == Seq::<char>::empty(),
    {
        AuthModeSer::Session { email: String::new() }
    }
}

/// Name of a mode as listings show it.
pub open spec fn mode_name(m: AuthModeSer) -> Seq<char> {
    match m {
        AuthModeSer::Session { .. } => "session"@,
        AuthModeSer::Token { .. } => "token"@,
    }
}

/// Which keyring secret a mode uses.
pub open spec fn secret_kind(m: AuthModeSer) -> Seq<char> {
    match m {
        AuthModeSer::Session { .. } => "password"@,
        AuthModeSer::Token { .. } => "api_secret"@,
    }
}

/// Name of the keyring entry holding an account's secret of a given type.
pub open spec fn entry_name(account: Seq<char>, secret_type: Seq<char>) -> Seq<char> {
    account + "-"@ + secret_type
}

impl AuthModeSer {
    /// "session" or "token".
    pub fn kind_name(&self) -> (res: &'static str)
        ensures
            res@ == mode_name(*self),
    {
        match self {
            AuthModeSer::Session { .. } => "session",
            AuthModeSer::Token { .. } => "token",
        }
    }

    /// The keyring secret this mode needs: "password" or "api_secret".
    pub fn secret_type(&self) -> (res: &'static str)
        ensures
            res@ == secret_kind(*self),
    {
        match self {
            AuthModeSer::Session { .. } => "password",
            AuthModeSer::Token { .. } => "api_secret",
        }
    }
}

/// Name of the keyring entry for an account's secret: `<account>-<secret type>`.
pub fn secret_entry_name(account_name: &str, secret_type: &str) -> (res: String)
    ensures
        res@ == entry_name(account_name@, secret_type@),
{
    let mut s = owned(account_name);
    push_text(&mut s, "-");
    push_text(&mut s, secret_type);
    s
}

/// Text of a boolean, as `bool::to_string` writes it.
pub open spec fn bool_text(b: bool) -> Seq<char> {
    if b {
        "true"@
    } else {
        "false"@
    }
}

/// Text of a boolean.
pub fn bool_string(b: bool) -> (res: String)
    ensures
        res@ == bool_text(b),
{
    if b {
        owned("true")
    } else {
        owned("false")
    }
}

/// The masked summary of an account: its settings, with the secret replaced by a note.
pub open spec fn summary(a: Account) -> Seq<(Seq<char>, Seq<char>)> {
    seq![
        ("name"@, a.name@),
        ("base_url"@, a.base_url@),
        ("expected_sitename"@, match a.expected_sitename { Some(s) => s@, None => Seq::empty() }),
        ("timeout_secs"@, decimal(a.timeout_secs as nat)),
        ("max_retries"@, decimal(a.max_retries as nat)),
        ("insecure_ssl"@, bool_text(a.insecure_ssl)),
    ] + match a.mode {
        AuthModeSer::Session { email } => seq![
            ("mode"@, "session"@),
            ("email"@, email@),
            ("password"@, "******** (in keyring)"@),
        ],
        AuthModeSer::Token { api_key } => seq![
            ("mode"@, "token"@),
            ("api_key"@, api_key@),
            ("api_secret"@, "******** (in keyring)"@),
        ],
    }
}

/// A pair of strings as a pair of texts.
pub open spec fn pair_view(p: (String, String)) -> (Seq<char>, Seq<char>) {
    (p.0@, p.1@)
}

/// The views of a list of string pairs.
pub open spec fn pairs_view(v: Seq<(String, String)>) -> Seq<(Seq<char>, Seq<char>)> {
    v.map_values(|p: (String, String)| pair_view(p))
}

fn push_pair(out: &mut Vec<(String, String)>, k: &str, v: String)
    ensures
        pairs_view(final(out)@) == pairs_view(old(out)@).push((k@, v@)),
{
    let key = owned(k);
    out.push((key, v));
    proof {
        assert(pairs_view(final(out)@) =~= pairs_view(old(out)@).push((k@, v@)));
    }
}

impl Account {
    /// A new account with the default timeout, retries and user agent, no required
    /// roles, and certificate checks on.
    pub fn with_defaults(name: String, base_url: String, mode: AuthModeSer, expected_sitename: Option<String>) -> (res: Account)
        ensures
            res.name == name,
            res.base_url == base_url,
            res.mode == mode,
            res.expected_sitename == expected_sitename,
            res.required_roles@.len() == 0,
            res.timeout_secs == 30,
            res.max_retries == 3,
            res.user_agent@ == user_agent_text(),
            !res.insecure_ssl,
    {
        Account {
            name,
            base_url,
            mode,
            expected_sitename,
            required_roles: Vec::new(),
            timeout_secs: default_timeout(),
            max_retries: default_retries(),
            user_agent: default_user_agent(),
            insecure_ssl: false,
        }
    }

    /// The account's settings as (name, value) pairs with the secret masked: name,
    /// base URL, expected site name (empty when unset), timeout, retries, whether
    /// certificate checks are off, then the mode with its email or API key and a
    /// note that the password or API secret is in the keyring.
    pub fn masked_summary(&self) -> (res: Vec<(String, String)>)
        ensures
            pairs_view(res@) == summary(*self),
    {
        let mut out: Vec<(String, String)> = Vec::new();
        push_pair(&mut out, "name", self.name.clone());
        push_pair(&mut out, "base_url", self.base_url.clone());
        let site = match &self.expected_sitename {
            Some(s) => s.clone(),
            None => String::new(),
        };
        push_pair(&mut out, "expected_sitename", site);
        push_pair(&mut out, "timeout_secs", decimal_text(self.timeout_secs));
        push_pair(&mut out, "max_retries", decimal_text(self.max_retries as u64));
        push_pair(&mut out, "insecure_ssl", bool_string(self.insecure_ssl));
        match &self.mode {
            AuthModeSer::Session { email } => {
                push_pair(&mut out, "mode", owned("session"));
                push_pair(&mut out, "email", email.clone());
                push_pair(&mut out, "password", owned("******** (in keyring)"));
            },
            AuthModeSer::Token { api_key } => {
                push_pair(&mut out, "mode", owned("token"));
                push_pair(&mut out, "api_key", api_key.clone());
                push_pair(&mut out, "api_secret", owned("******** (in keyring)"));
            },
        }
        proof {
            assert(pairs_view(out@) =~= summary(*self));
        }
        out
    }
}

/// All configured accounts, by name.
pub struct AccountStore {
    pub accounts: StrMap<Account>,
}

/// The message for a missing account.
pub open spec fn not_found(e: CliError, name: Seq<char>) -> bool {
    e is AccountNotFound && e->AccountNotFound_0@ == name
}

impl AccountStore {
    /// A store with no accounts.
    pub fn new() -> (res: Self)
        ensures
            res.accounts@ == Map::<Seq<char>, Account>::empty(),
    {
        AccountStore { accounts: StrMap::new() }
    }

    /// The account called `name`, or `AccountNotFound`.
    pub fn get(&self, name: &str) -> (res: CliResult<&Account>)
        ensures
            match res {
                Ok(a) => self.accounts@.contains_key(name@) && *a == self.accounts@[name@],
                Err(e) => !self.accounts@.contains_key(name@) && not_found(e, name@),
            },
    {
        match self.accounts.get(name) {
            Some(a) => Ok(a),
            None => Err(CliError::AccountNotFound(owned(name))),
        }
    }

    /// Whether an account called `name` exists.
    pub fn contains(&self, name: &str) -> (res: bool)
        ensures
            res == self.accounts@.contains_key(name@),
    {
        self.accounts.contains_key(name)
    }

    /// Stores `account` under its own name, replacing any account of that name.
    pub fn upsert(&mut self, account: Account)
        ensures
            final(self).accounts@ == old(self).accounts@.insert(account.name@, account),
    {
        let key = account.name.clone();
        self.accounts.insert(key, account);
    }

    /// Stores `account` under `key`, as an entry read from the accounts file.
    pub fn insert_entry(&mut self, key: String, account: Account)
        ensures
            final(self).accounts@ == old(self).accounts@.insert(key@, account),
    {
        self.accounts.insert(key, account);
    }

    /// Takes out the account called `name`, or `AccountNotFound` with the store unchanged.
    pub fn remove(&mut self, name: &str) -> (res: CliResult<Account>)
        ensures
            match res {
                Ok(a) => old(self).accounts@.contains_key(name@) && a == old(self).accounts@[name@],
                Err(e) => !old(self).accounts@.contains_key(name@) && not_found(e, name@),
            },
            final(self).accounts@ == old(self).accounts@.remove(name@),
    {
        match self.accounts.remove(name) {
            Some(a) => Ok(a),
            None => Err(CliError::AccountNotFound(owned(name))),
        }
    }

    /// The accounts in ascending order of their names.
    pub fn list(&self) -> (res: Vec<&Account>)
        ensures
            sorted_keys(self.accounts.ordered_keys()),
            res@.len() == self.accounts.ordered_keys().len(),
            forall|i: int|
                0 <= i < res@.len() ==> *res@[i] == self.accounts@[self.accounts.ordered_keys()[i]],
    {
        self.accounts.values()
    }
}

impl Default for AccountStore {
    fn default() -> (res: Self)
        ensures
            res.accounts@ == Map::<Seq<char>, Account>::empty(),
    {
        AccountStore::new()
    }
}


/// What adding an account needs once its arguments are checked: the site URL, the
/// authentication mode, and the secret to store (`None` when it must be asked for).
pub struct AddPlan {
    pub url: String,
    pub mode: AuthModeSer,
    pub secret: Option<String>,
}

/// An optional string as an optional text.
pub open spec fn opt_view(o: Option<String>) -> Option<Seq<char>> {
    opt_text(o)
}

/// The usage error, if any, that the arguments of `account add` meet first: the URL
/// is required; a session account needs a non-empty email; a token account needs a
/// non-empty API key and then a non-empty API secret.
pub open spec fn add_argument_error(
    url: Option<Seq<char>>,
    mode: AuthModeKind,
    email: Option<Seq<char>>,
    api_key: Option<Seq<char>>,
    api_secret: Option<Seq<char>>,
) -> Option<Seq<char>> {
    if url is None {
        Some("--url is required"@)
    } else {
        match mode {
            AuthModeKind::Session => match email {
                None => Some("--email is required for session mode"@),
                Some(e) => if e.len() == 0 {
                    Some("Email must not be empty"@)
                } else {
                    None
                },
            },
            AuthModeKind::Token => match api_key {
                None => Some("--api-key is required for token mode"@),
                Some(k) => if k.len() == 0 {
                    Some("API Key must not be empty"@)
                } else {
                    match api_secret {
                        None => Some("--api-secret is required for token mode"@),
                        Some(t) => if t.len() == 0 {
                            Some("API Secret must not be empty"@)
                        } else {
                            None
                        },
                    }
                },
            },
        }
    }
}

/// The secret that the arguments supply: the password when given and not empty
/// (else it must be asked for), or the API secret.
pub open spec fn supplied_secret(mode: AuthModeKind, password: Option<Seq<char>>, api_secret: Option<Seq<char>>) -> Option<Seq<char>> {
    match mode {
        AuthModeKind::Session => match password {
            Some(p) => if p.len() > 0 {
                Some(p)
            } else {
                None
            },
            None => None,
        },
        AuthModeKind::Token => api_secret,
    }
}

fn usage(msg: &str) -> (res: CliError)
    ensures
        res is Usage && res->Usage_0@ == msg@,
{
    CliError::Usage(owned(msg))
}

/// Checks the arguments of `account add` and tells what to store.
pub fn plan_account_add(
    url: Option<String>,
    mode: AuthModeKind,
    email: Option<String>,
    password: Option<String>,
    api_key: Option<String>,
    api_secret: Option<String>,
) -> (res: CliResult<AddPlan>)
    ensures
        match add_argument_error(opt_view(url), mode, opt_view(email), opt_view(api_key), opt_view(api_secret)) {
            Some(msg) => res is Err && res->Err_0 is Usage && res->Err_0->Usage_0@ == msg,
            None => res is Ok && {
                let plan = res->Ok_0;
                &&& Some(plan.url@) == opt_view(url)
                &&& opt_view(plan.secret) == supplied_secret(mode, opt_view(password), opt_view(api_secret))
                &&& match mode {
                    AuthModeKind::Session => plan.mode matches AuthModeSer::Session { email: e } && Some(e@) == opt_view(email),
                    AuthModeKind::Token => plan.mode matches AuthModeSer::Token { api_key: k } && Some(k@) == opt_view(api_key),
                }
            },
        },
{
    let url = match url {
        Some(u) => u,
        None => return Err(usage("--url is required")),
    };
    match mode {
        AuthModeKind::Session => {
            let email = match email {
                Some(e) => e,
                None => return Err(usage("--email is required for session mode")),
            };
            if email.as_str().is_empty() {
                return Err(usage("Email must not be empty"));
            }
            let secret = match password {
                Some(p) => if p.as_str().is_empty() {
                    None
                } else {
                    Some(p)
                },
                None => None,
            };
            Ok(AddPlan { url, mode: AuthModeSer::Session { email }, secret })
        },
        AuthModeKind::Token => {
            let api_key = match api_key {
                Some(k) => k,
                None => return Err(usage("--api-key is required for token mode")),
            };
            if api_key.as_str().is_empty() {
                return Err(usage("API Key must not be empty"));
            }
            let api_secret = match api_secret {
                Some(t) => t,
                None => return Err(usage("--api-secret is required for token mode")),
            };
            if api_secret.as_str().is_empty() {
                return Err(usage("API Secret must not be empty"));
            }
            Ok(AddPlan { url, mode: AuthModeSer::Token { api_key }, secret: Some(api_secret) })
        },
    }
}

/// A password read at the prompt: refused when empty.
pub fn check_password(pass: String) -> (res: CliResult<String>)
    ensures
        pass@.len() > 0 ==> res == Ok::<String, CliError>(pass),
        pass@.len() == 0 ==> res is Err && res->Err_0 is Usage && res->Err_0->Usage_0@
            == "Password must not be empty"@,
{
    if pass.as_str().is_empty() {
        Err(usage("Password must not be empty"))
    } else {
        Ok(pass)
    }
}

/// The message when an account name is taken.
pub open spec fn exists_message(name: Seq<char>) -> Seq<char> {
    "Account `"@ + name + "` already exists. Remove it first."@
}

/// Adds a new account with default settings; refuses a name already in the store,
/// leaving the store unchanged.
pub fn register_account(
    store: &mut AccountStore,
    name: String,
    url: String,
    mode: AuthModeSer,
    sitename: Option<String>,
) -> (res: CliResult<()>)
    ensures
        old(store).accounts@.contains_key(name@) ==> {
            &&& res is Err && res->Err_0 is Usage
            &&& res->Err_0->Usage_0@ == exists_message(name@)
            &&& final(store).accounts@ == old(store).accounts@
        },
        !old(store).accounts@.contains_key(name@) ==> {
            let a = final(store).accounts@[name@];
            &&& res is Ok
            &&& final(store).accounts@.dom() == old(store).accounts@.dom().insert(name@)
            &&& final(store).accounts@.remove(name@) == old(store).accounts@
            &&& a.name == name && a.base_url == url && a.mode == mode
            &&& a.expected_sitename == sitename
            &&& a.required_roles@.len() == 0 && a.timeout_secs == 30 && a.max_retries == 3
            &&& a.user_agent@ == user_agent_text() && !a.insecure_ssl
        },
{
    if store.contains(name.as_str()) {
        let mut m = owned("Account `");
        push_text(&mut m, name.as_str());
        push_text(&mut m, "` already exists. Remove it first.");
        proof {
            assert(m@ =~= exists_message(name@));
        }
        return Err(CliError::Usage(m));
    }
    let ghost before = store.accounts@;
    let account = Account::with_defaults(name, url, mode, sitename);
    let ghost a = account;
    store.upsert(account);
    proof {
        assert(store.accounts@.remove(a.name@) =~= before);
        assert(store.accounts@.dom() =~= before.dom().insert(a.name@));
    }
    Ok(())
}

/// One line of the account listing.
pub struct AccountRow {
    pub active: bool,
    pub name: String,
    pub base_url: String,
    pub mode: String,
    pub sitename: String,
}

/// The listing line of an account, given the active account's name.
pub open spec fn row_matches(r: AccountRow, a: Account, active: Option<Seq<char>>) -> bool {
    &&& r.active == (active == Some(a.name@))
    &&& r.name@ == a.name@
    &&& r.base_url@ == a.base_url@
    &&& r.mode@ == mode_name(a.mode)
    &&& r.sitename@ == match a.expected_sitename {
        Some(s) => s@,
        None => Seq::empty(),
    }
}

/// The accounts in name order, each marked whether it is the active one.
pub fn account_rows(store: &AccountStore, active: &Option<String>) -> (res: Vec<AccountRow>)
    ensures
        res@.len() == store.accounts.ordered_keys().len(),
        forall|i: int|
            0 <= i < res@.len() ==> row_matches(
                #[trigger] res@[i],
                store.accounts@[store.accounts.ordered_keys()[i]],
                opt_text(*active),
            ),
{
    let accounts = store.list();
    let mut rows: Vec<AccountRow> = Vec::new();
    let mut i: usize = 0;
    while i < accounts.len()
        invariant
            i <= accounts@.len(),
            accounts@.len() == store.accounts.ordered_keys().len(),
            forall|j: int|
                0 <= j < accounts@.len() ==> *accounts@[j]
                    == store.accounts@[store.accounts.ordered_keys()[j]],
            rows@.len() == i,
            forall|j: int|
                0 <= j < i ==> row_matches(#[trigger] rows@[j], *accounts@[j], opt_text(*active)),
        decreases accounts@.len() - i,
    {
        let a = accounts[i];
        let is_active = match active {
            Some(n) => crate::text::str_equal(a.name.as_str(), n.as_str()),
            None => false,
        };
        let site = match &a.expected_sitename {
            Some(s) => s.clone(),
            None => String::new(),
        };
        rows.push(
            AccountRow {
                active: is_active,
                name: a.name.clone(),
                base_url: a.base_url.clone(),
                mode: owned(a.mode.kind_name()),
                sitename: site,
            },
        );
        i = i + 1;
    }
    rows
}

/// Makes `name` the active account, or reports `AccountNotFound` and changes nothing.
pub fn switch_active(settings: &mut Settings, store: &AccountStore, name: &str) -> (res: CliResult<()>)
    ensures
        store.accounts@.contains_key(name@) ==> res is Ok && final(settings)@ == (SettingsView {
            active: Some(name@),
            defaults: old(settings)@.defaults,
        }),
        !store.accounts@.contains_key(name@) ==> res is Err && not_found(res->Err_0, name@)
            && final(settings)@ == old(settings)@,
{
    match store.get(name) {
        Ok(_) => {
            settings.active_account = Some(owned(name));
            Ok(())
        },
        Err(e) => Err(e),
    }
}

/// The account `account show` describes: the one named, else the active one, else
/// the empty name.
pub open spec fn show_target(name: Option<Seq<char>>, active: Option<Seq<char>>) -> Seq<char> {
    match name {
        Some(n) => n,
        None => match active {
            Some(a) => a,
            None => Seq::empty(),
        },
    }
}

/// The masked summary of the account named, else of the active account.
pub fn show_account(store: &AccountStore, settings: &Settings, name: Option<String>) -> (res: CliResult<Vec<(String, String)>>)
    ensures
        ({
            let t = show_target(opt_view(name), settings@.active);
            match res {
                Ok(v) => store.accounts@.contains_key(t) && pairs_view(v@) == summary(store.accounts@[t]),
                Err(e) => !store.accounts@.contains_key(t) && not_found(e, t),
            }
        }),
{
    let target = match name {
        Some(n) => n,
        None => match &settings.active_account {
            Some(a) => a.clone(),
            None => String::new(),
        },
    };
    let account = store.get(target.as_str())?;
    Ok(account.masked_summary())
}


/// After an account is stored, looking up its name finds it.
pub proof fn law_get_after_upsert(accounts: Map<Seq<char>, Account>, a: Account)
    ensures
        accounts.insert(a.name@, a).contains_key(a.name@),
        accounts.insert(a.name@, a)[a.name@] == a,
{
}

/// Storing an account leaves every account of another name as it was.
pub proof fn law_upsert_isolated(accounts: Map<Seq<char>, Account>, a: Account, other: Seq<char>)
    requires
        other != a.name@,
    ensures
        accounts.insert(a.name@, a).contains_key(other) == accounts.contains_key(other),
        accounts.contains_key(other) ==> accounts.insert(a.name@, a)[other] == accounts[other],
{
}

/// Removing an account just stored leaves the store as it was without that name.
pub proof fn law_remove_after_upsert(accounts: Map<Seq<char>, Account>, a: Account)
    ensures
        accounts.insert(a.name@, a).remove(a.name@) == accounts.remove(a.name@),
        !accounts.insert(a.name@, a).remove(a.name@).contains_key(a.name@),
{
    assert(accounts.insert(a.name@, a).remove(a.name@) =~= accounts.remove(a.name@));
}

/// The message of the error that URL parsing reports for a text, or `None` when the
/// text is a valid absolute URL.
pub uninterp spec fn url_parse_failure(url: Seq<char>) -> Option<Seq<char>>;

/// The message of the error of parsing `url` as an absolute URL, if it is not one.
///
/// Trusted: `reqwest::Url::parse` (the url crate's `Url::parse`), whose outcome
/// depends on the text alone; named `url_parse_failure`.
#[verifier::external_body]
fn url_parse_error(url: &str) -> (res: Option<String>)
    ensures
        res is None <==> url_parse_failure(url@) is None,
        res matches Some(m) ==> url_parse_failure(url@) == Some(m@),
{
    match reqwest::Url::parse(url) {
        Ok(_) => None,
        Err(e) => Some(e.to_string()),
    }
}

/// The message when an account's base URL is not a URL.
pub open spec fn bad_base_url_message(m: Seq<char>) -> Seq<char> {
    "Invalid base_url for account: "@ + m
}

/// Checks that an account's base URL parses as an absolute URL; otherwise a
/// configuration error with the parser's message.
pub fn check_base_url(url: &str) -> (res: CliResult<()>)
    ensures
        match url_parse_failure(url@) {
            None => res is Ok,
            Some(m) => res is Err && res->Err_0 is Config
                && res->Err_0->Config_0@ == bad_base_url_message(m),
        },
{
    match url_parse_error(url) {
        None => Ok(()),
        Some(m) => {
            let mut msg = owned("Invalid base_url for account: ");
            push_text(&mut msg, m.as_str());
            Err(CliError::Config(msg))
        },
    }
}

/// `account show` describes the account it names, whatever account is active; only
/// when no name is given does it describe the active account.
pub proof fn law_show_describes_named_account(name: Option<Seq<char>>, active: Option<Seq<char>>)
    ensures
        name matches Some(n) ==> show_target(name, active) == n,
        name is None ==> (active matches Some(a) ==> show_target(name, active) == a),
        name is None && active is None ==> show_target(name, active).len() == 0,
{
}

} // verus!
