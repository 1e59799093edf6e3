//! The configuration: accounts by name, how each account's password is
//! found, and where the configuration file lives.
use vstd::prelude::*;

use crate::text::{
    append_str, first_line, first_line_trimmed, join_spaces, law_split_join, split_on_spaces, split_spaces,
    trimmed_end,
};

verus! {

/// The view of an optional string.
pub open spec fn opt_view(o: Option<String>) -> Option<Seq<char>> {
    match o {
        Some(s) => Some(s@),
        None => None,
    }
}

/// An error met while reading the configuration or a password.
#[derive(Debug)]
pub struct CfgError {
    message: String,
}

impl View for CfgError {
    type V = Seq<char>;

    /// The error's message.
    closed spec fn view(&self) -> Seq<char> {
        self.message@
    }
}

impl CfgError {
    /// An error with the given message.
    pub fn new(message: &str) -> (r: Self)
        ensures
            r@ == message@,
    {
        CfgError { message: message.to_owned() }
    }

    /// The error's message, as the error is displayed.
    pub fn message(&self) -> (r: String)
        ensures
            r@ == self@,
    {
        self.message.clone()
    }
}

/// The text of an error met while getting the password of the account with
/// address `email`, `detail` saying what went wrong.
pub open spec fn password_failure_text(email: Seq<char>, detail: Seq<char>) -> Seq<char> {
    "Failed to get password for user \""@ + email + "\": "@ + detail
}

/// The error met while getting the password of the account with address
/// `email`, `detail` saying what went wrong.
pub fn password_failure(email: &str, detail: &str) -> (r: CfgError)
    ensures
        r@ == password_failure_text(email@, detail@),
{
    let a = append_str("Failed to get password for user \"", email);
    let b = append_str(a.as_str(), "\": ");
    let c = append_str(b.as_str(), detail);
    CfgError { message: c }
}

/// The stage of loading the configuration file at which an error came.
pub enum LoadStage {
    Read,
    Parse,
}

/// The text of an error met loading the configuration file.
pub open spec fn load_failure_text(stage: LoadStage, detail: Seq<char>) -> Seq<char> {
    match stage {
        LoadStage::Read => "Could not read configuration file: "@ + detail,
        LoadStage::Parse => "Could not parse configuration file: "@ + detail,
    }
}

/// The error met loading the configuration file, `detail` saying what went
/// wrong at that stage.
pub fn load_failure(stage: LoadStage, detail: &str) -> (r: CfgError)
    ensures
        r@ == load_failure_text(stage, detail@),
{
    let m = match stage {
        LoadStage::Read => append_str("Could not read configuration file: ", detail),
        LoadStage::Parse => append_str("Could not parse configuration file: ", detail),
    };
    CfgError { message: m }
}

/// The port on which an IMAP server listens when the configuration names none.
pub const DEFAULT_IMAP_PORT: u16 = 993;

/// A mail server.
#[derive(Debug)]
pub struct Server {
    pub host: String,
    pub port: Option<u16>,
}

impl Server {
    /// The address to reach the server at as an IMAP server: its host, and
    /// its port or else the default IMAP port.
    pub fn imap_address(&self) -> (r: (String, u16))
        ensures
            r.0@ == self.host@,
            r.1 == match self.port {
                Some(p) => p,
                None => DEFAULT_IMAP_PORT,
            },
    {
        let port = match self.port {
            Some(p) => p,
            None => DEFAULT_IMAP_PORT,
        };
        (self.host.clone(), port)
    }
}

/// An e-mail account.
#[derive(Debug)]
pub struct Account {
    pub name: String,
    pub email: String,
    password: Option<String>,
    pass_cmd: Option<String>,
    pub signature: Option<String>,
    pub imap: Server,
    pub smtp: Server,
}

/// What an account holds, as plain values.
pub struct AccountView {
    pub name: Seq<char>,
    pub email: Seq<char>,
    pub password: Option<Seq<char>>,
    pub pass_cmd: Option<Seq<char>>,
    pub signature: Option<Seq<char>>,
    pub imap: Server,
    pub smtp: Server,
}

impl View for Account {
    type V = AccountView;

    closed spec fn view(&self) -> AccountView {
        AccountView {
            name: self.name@,
            email: self.email@,
            password: opt_view(self.password),
            pass_cmd: opt_view(self.pass_cmd),
            signature: opt_view(self.signature),
            imap: self.imap,
            smtp: self.smtp,
        }
    }
}

/// How the password of an account is had, where it has one.
pub enum PasswordStep {
    /// The configuration holds the password itself.
    Ready(String),
    /// The password is the output of this command.
    RunCommand { program: String, args: Vec<String> },
}

impl Account {
    /// An account with the given fields.
    pub fn new(
        name: String,
        email: String,
        password: Option<String>,
        pass_cmd: Option<String>,
        signature: Option<String>,
        imap: Server,
        smtp: Server,
    ) -> (r: Self)
        ensures
            r@ == (AccountView {
                name: name@,
                email: email@,
                password: opt_view(password),
                pass_cmd: opt_view(pass_cmd),
                signature: opt_view(signature),
                imap,
                smtp,
            }),
    {
        Account { name, email, password, pass_cmd, signature, imap, smtp }
    }

    /// The account's name.
    pub fn name(&self) -> (r: &String)
        ensures
            r@ == self@.name,
    {
        &self.name
    }

    /// The account's e-mail address.
    pub fn email(&self) -> (r: &String)
        ensures
            r@ == self@.email,
    {
        &self.email
    }

    /// The account's signature, if any.
    pub fn signature(&self) -> (r: &Option<String>)
        ensures
            opt_view(*r) == self@.signature,
    {
        &self.signature
    }

    /// The account's incoming (IMAP) server.
    pub fn imap(&self) -> (r: &Server)
        ensures
            *r == self@.imap,
    {
        &self.imap
    }

    /// The account's outgoing (SMTP) server.
    pub fn smtp(&self) -> (r: &Server)
        ensures
            *r == self@.smtp,
    {
        &self.smtp
    }

    /// The first step to the account's password: the password itself where
    /// the configuration holds it; else the command it names, split at single
    /// spaces into the program and its arguments; else an error.
    pub fn get_password(&self) -> (r: Result<PasswordStep, CfgError>)
        ensures
            match self@.password {
                Some(p) => r matches Ok(PasswordStep::Ready(q)) && q@ == p,
                None => match self@.pass_cmd {
                    Some(c) => r matches Ok(PasswordStep::RunCommand { program, args }) && {
                        let parts = split_spaces(c);
                        &&& program@ == parts[0]
                        &&& args@.len() + 1 == parts.len()
                        &&& forall|k: int| 0 <= k < args@.len() ==> #[trigger] args@[k]@ == parts[k + 1]
                    },
                    None => r matches Err(e) && e@ == "No password to authenticate with!"@,
                },
            },
    {
        if let Some(pass) = &self.password {
            Ok(PasswordStep::Ready(pass.clone()))
        } else if let Some(pass_cmd) = &self.pass_cmd {
            let mut parts = split_on_spaces(pass_cmd.as_str());
            let ghost all = parts@;
            let mut args: Vec<String> = Vec::new();
            let n = parts.len();
            let mut i: usize = 1;
            while i < n
                invariant
                    1 <= i <= n,
                    n == all.len(),
                    parts@ == all,
                    args@.len() + 1 == i,
                    forall|k: int| 0 <= k < args@.len() ==> #[trigger] args@[k] == all[k + 1],
                decreases n - i,
            {
                args.push(parts[i].clone());
                i = i + 1;
            }
            let program = parts.swap_remove(0);
            Ok(PasswordStep::RunCommand { program, args })
        } else {
            Err(CfgError::new("No password to authenticate with!"))
        }
    }

    /// The password from the output of the password command: when the
    /// command exited with a positive status code, the error that carries
    /// its error output; else the first line of its output without trailing
    /// white space. An empty output on success has no first line.
    pub fn password_from_output(&self, code: i32, stdout: &str, stderr: &str) -> (r: Result<
        String,
        CfgError,
    >)
        requires
            code > 0 || stdout@.len() > 0,
        ensures
            code > 0 ==> (r matches Err(e) && e@ == password_failure_text(self@.email, stderr@)),
            code <= 0 ==> (r matches Ok(p) && p@ == trimmed_end(first_line(stdout@))),
    {
        if code > 0 {
            Err(password_failure(self.email.as_str(), stderr))
        } else {
            Ok(first_line_trimmed(stdout))
        }
    }
}

/// The accounts of the configuration, by the name that the configuration
/// files them under.
pub struct Cfg {
    accounts: Vec<(String, Account)>,
}

/// No two entries of `s` are filed under the same name.
pub open spec fn names_distinct(s: Seq<(String, Account)>) -> bool {
    forall|i: int, j: int|
        0 <= i < s.len() && 0 <= j < s.len() && i != j ==> #[trigger] s[i].0@ != #[trigger] s[j].0@
}

/// Whether some entry of `s` is filed under `name`.
pub open spec fn has_name(s: Seq<(String, Account)>, name: Seq<char>) -> bool {
    exists|i: int| 0 <= i < s.len() && #[trigger] s[i].0@ == name
}

/// The position of an entry of `s` filed under `name`.
pub open spec fn name_index(s: Seq<(String, Account)>, name: Seq<char>) -> int {
    choose|i: int| 0 <= i < s.len() && #[trigger] s[i].0@ == name
}

/// The map from names to accounts that the entries `s` make.
pub open spec fn entries_map(s: Seq<(String, Account)>) -> Map<Seq<char>, Account> {
    Map::new(|name: Seq<char>| has_name(s, name), |name: Seq<char>| s[name_index(s, name)].1)
}

/// `accounts` lists the accounts of `m`, each key's account once, in some order.
pub open spec fn lists_accounts(accounts: Seq<&Account>, m: Map<Seq<char>, Account>) -> bool {
    exists|names: Seq<Seq<char>>|
        {
            &&& names.len() == accounts.len()
            &&& names.no_duplicates()
            &&& names.to_set() == m.dom()
            &&& forall|i: int| 0 <= i < names.len() ==> *accounts[i] == m[#[trigger] names[i]]
        }
}

impl View for Cfg {
    type V = Map<Seq<char>, Account>;

    closed spec fn view(&self) -> Map<Seq<char>, Account> {
        entries_map(self.accounts@)
    }
}

proof fn lemma_entry_at(s: Seq<(String, Account)>, i: int)
    requires
        names_distinct(s),
        0 <= i < s.len(),
    ensures
        entries_map(s).dom().contains(s[i].0@),
        entries_map(s)[s[i].0@] == s[i].1,
{
    let name = s[i].0@;
    assert(has_name(s, name));
    let j = name_index(s, name);
    assert(s[j].0@ == name);
}

/// The position of the entry of `s` filed under `name`, if any.
fn find_name(s: &Vec<(String, Account)>, name: &str) -> (r: Option<usize>)
    ensures
        match r {
            Some(i) => i < s@.len() && s@[i as int].0@ == name@,
            None => forall|j: int| 0 <= j < s@.len() ==> s@[j].0@ != name@,
        },
{
    let key = name.to_owned();
    let n = s.len();
    for i in 0..n
        invariant
            n == s@.len(),
            key@ == name@,
            forall|j: int| 0 <= j < i ==> s@[j].0@ != name@,
    {
        if s[i].0 == key {
            return Some(i);
        }
    }
    None
}

impl Cfg {
    #[verifier::type_invariant]
    spec fn inv(self) -> bool {
        names_distinct(self.accounts@)
    }

    /// A configuration without accounts.
    pub fn new() -> (r: Self)
        ensures
            r@ == Map::<Seq<char>, Account>::empty(),
    {
        let r = Cfg { accounts: Vec::new() };
        assert(r@ =~= Map::<Seq<char>, Account>::empty());
        r
    }

    /// Files `account` under `name`, in place of the account filed under it
    /// before, if any.
    pub fn insert_account(&mut self, name: String, account: Account)
        ensures
            final(self)@ == old(self)@.insert(name@, account),
    {
        proof {
            use_type_invariant(&*self);
        }
        let ghost before = self.accounts@;
        let n = self.accounts.len();
        let found = find_name(&self.accounts, name.as_str());
        let i: usize = match found {
            Some(j) => j,
            None => n,
        };
        if i < n {
            let ghost s2 = before.update(i as int, (name, account));
            assert(names_distinct(s2)) by {
                assert forall|a: int, b: int|
                    0 <= a < s2.len() && 0 <= b < s2.len() && a != b implies #[trigger] s2[a].0@
                    != #[trigger] s2[b].0@ by {
                    assert(before[i as int].0@ == name@);
                }
            }
            let mut accounts: Vec<(String, Account)> = Vec::new();
            std::mem::swap(&mut accounts, &mut self.accounts);
            accounts.set(i, (name, account));
            self.accounts = accounts;
            proof {
                assert forall|k: Seq<char>| #[trigger] has_name(s2, k) == (has_name(before, k) || k == name@) by {
                    if has_name(before, k) {
                        let j = name_index(before, k);
                        if j != i { assert(s2[j].0@ == k); } else { assert(s2[i as int].0@ == k); }
                    }
                    if has_name(s2, k) {
                        let j = name_index(s2, k);
                        if j != i { assert(before[j].0@ == k); }
                    }
                }
                assert forall|k: Seq<char>| has_name(s2, k) implies entries_map(s2)[k]
                    == old(self)@.insert(name@, account)[k] by {
                    let j = name_index(s2, k);
                    lemma_entry_at(s2, j);
                    if k != name@ {
                        lemma_entry_at(before, j);
                    }
                }
                assert(self@ =~= old(self)@.insert(name@, account));
            }
        } else {
            let ghost s2 = before.push((name, account));
            assert(names_distinct(s2)) by {
                assert forall|a: int, b: int|
                    0 <= a < s2.len() && 0 <= b < s2.len() && a != b implies #[trigger] s2[a].0@
                    != #[trigger] s2[b].0@ by {
                    if a < n && b < n {
                        assert(s2[a] == before[a] && s2[b] == before[b]);
                    }
                }
            }
            let mut accounts: Vec<(String, Account)> = Vec::new();
            std::mem::swap(&mut accounts, &mut self.accounts);
            accounts.push((name, account));
            self.accounts = accounts;
            proof {
                assert forall|k: Seq<char>| #[trigger] has_name(s2, k) == (has_name(before, k) || k == name@) by {
                    if has_name(before, k) {
                        let j = name_index(before, k);
                        assert(s2[j].0@ == k);
                    }
                    if k == name@ {
                        assert(s2[n as int].0@ == k);
                    }
                    if has_name(s2, k) {
                        let j = name_index(s2, k);
                        if j < n { assert(before[j].0@ == k); }
                    }
                }
                assert forall|k: Seq<char>| has_name(s2, k) implies entries_map(s2)[k]
                    == old(self)@.insert(name@, account)[k] by {
                    let j = name_index(s2, k);
                    lemma_entry_at(s2, j);
                    if k != name@ {
                        lemma_entry_at(before, j);
                    }
                }
                assert(self@ =~= old(self)@.insert(name@, account));
            }
        }
    }

    /// The account filed under `name`, if any.
    pub fn get_account(&self, name: &str) -> (r: Option<&Account>)
        ensures
            r is Some <==> self@.dom().contains(name@),
            r matches Some(a) ==> *a == self@[name@],
    {
        proof {
            use_type_invariant(self);
        }
        match find_name(&self.accounts, name) {
            Some(i) => {
                proof {
                    lemma_entry_at(self.accounts@, i as int);
                }
                Some(&self.accounts[i].1)
            },
            None => {
                assert(!has_name(self.accounts@, name@));
                None
            },
        }
    }

    /// Every account of the configuration, each once.
    pub fn get_all_accounts(&self) -> (r: Vec<&Account>)
        ensures
            lists_accounts(r@, self@),
    {
        proof {
            use_type_invariant(self);
        }
        let n = self.accounts.len();
        let ghost s = self.accounts@;
        let mut r: Vec<&Account> = Vec::new();
        for i in 0..n
            invariant
                n == s.len(),
                s == self.accounts@,
                r@.len() == i,
                forall|j: int| 0 <= j < i ==> *r@[j] == s[j].1,
        {
            r.push(&self.accounts[i].1);
        }
        let ghost names = s.map_values(|e: (String, Account)| e.0@);
        proof {
            assert(names.no_duplicates()) by {
                assert forall|a: int, b: int| 0 <= a < names.len() && 0 <= b < names.len() && a != b
                    implies names[a] != names[b] by {
                    assert(names[a] == s[a].0@ && names[b] == s[b].0@);
                }
            }
            assert forall|k: Seq<char>| names.to_set().contains(k) == self@.dom().contains(k) by {
                if names.to_set().contains(k) {
                    let j = choose|j: int| 0 <= j < names.len() && names[j] == k;
                    assert(s[j].0@ == k);
                }
                if self@.dom().contains(k) {
                    let j = name_index(s, k);
                    assert(names[j] == k);
                }
            }
            assert(names.to_set() =~= self@.dom());
            assert forall|i: int| 0 <= i < names.len() implies *r@[i] == self@[#[trigger] names[i]] by {
                lemma_entry_at(s, i);
            }
        }
        r
    }

    /// The accounts to work with: only the one filed under `only` where a
    /// name is given (`None` if no account is filed under it), else all of
    /// them.
    pub fn select_accounts(&self, only: Option<&str>) -> (r: Option<Vec<&Account>>)
        ensures
            match only {
                Some(name) => match r {
                    Some(v) => self@.dom().contains(name@) && v@.len() == 1 && *v@[0] == self@[name@],
                    None => !self@.dom().contains(name@),
                },
                None => r matches Some(v) && lists_accounts(v@, self@),
            },
    {
        match only {
            Some(name) => match self.get_account(name) {
                Some(a) => {
                    let mut v: Vec<&Account> = Vec::new();
                    v.push(a);
                    Some(v)
                },
                None => None,
            },
            None => Some(self.get_all_accounts()),
        }
    }
}

/// Looking a name up after filing an account under it gives that account
/// back, and every other name is looked up as before.
pub proof fn law_lookup_after_insert(before: Cfg, after: Cfg, name: Seq<char>, account: Account, other: Seq<char>)
    requires
        after@ == before@.insert(name, account),
    ensures
        after@.dom().contains(name),
        after@[name] == account,
        other != name ==> (after@.dom().contains(other) <==> before@.dom().contains(other)),
        other != name && before@.dom().contains(other) ==> after@[other] == before@[other],
{
}

/// The command that prints a password loses nothing when split: the
/// program and its arguments, joined with single spaces, give it back.
pub proof fn law_command_round_trip(cmd: Seq<char>, program: Seq<char>, args: Seq<Seq<char>>)
    requires
        program == split_spaces(cmd)[0],
        args.len() + 1 == split_spaces(cmd).len(),
        forall|k: int| 0 <= k < args.len() ==> #[trigger] args[k] == split_spaces(cmd)[k + 1],
    ensures
        join_spaces(seq![program] + args) == cmd,
{
    law_split_join(cmd);
    assert(seq![program] + args =~= split_spaces(cmd));
}

/// `comp` appended to the path `base` as `PathBuf::push` appends a
/// component with `/` as the separator: an absolute `comp` replaces
/// `base`, and a separator goes between them unless `base` is empty or
/// already ends with one.
pub open spec fn path_pushed(base: Seq<char>, comp: Seq<char>) -> Seq<char> {
    if comp.len() > 0 && comp[0] == '/' {
        comp
    } else if base.len() == 0 || base.last() == '/' {
        base + comp
    } else {
        base + seq!['/'] + comp
    }
}

/// `comp` appended to the path `base` (see `path_pushed`).
pub fn push_path(base: &str, comp: &str) -> (r: String)
    ensures
        r@ == path_pushed(base@, comp@),
{
    let cs = crate::text::chars_of(comp);
    let bs = crate::text::chars_of(base);
    if cs.len() > 0 && cs[0] == '/' {
        comp.to_owned()
    } else if bs.len() == 0 || bs[bs.len() - 1] == '/' {
        append_str(base, comp)
    } else {
        let with_sep = append_str(base, "/");
        proof {
            reveal_strlit("/");
        }
        append_str(with_sep.as_str(), comp)
    }
}

/// Where the configuration file is: the path given, else `tim/config.toml`
/// under the user's configuration directory where there is one.
pub open spec fn cfg_path(path_maybe: Option<Seq<char>>, config_dir: Option<Seq<char>>) -> Option<
    Seq<char>,
> {
    match path_maybe {
        Some(p) => Some(p),
        None => match config_dir {
            Some(d) => Some(path_pushed(path_pushed(d, "tim"@), "config.toml"@)),
            None => None,
        },
    }
}

/// A path that is given is where the configuration file is, unchanged,
/// whatever the configuration directory.
pub proof fn law_given_path_wins(p: Seq<char>, config_dir: Option<Seq<char>>)
    ensures
        cfg_path(Some(p), config_dir) == Some(p),
{
}

/// Where the configuration file is (see `cfg_path`); `config_dir` is the
/// user's configuration directory, where the platform has one.
pub fn get_cfg_path(path_maybe: Option<String>, config_dir: Option<String>) -> (r: Option<String>)
    ensures
        opt_view(r) == cfg_path(opt_view(path_maybe), opt_view(config_dir)),
        path_maybe is Some ==> opt_view(r) == opt_view(path_maybe),
{
    match path_maybe {
        Some(p) => Some(p),
        None => match config_dir {
            Some(d) => {
                let t = push_path(d.as_str(), "tim");
                Some(push_path(t.as_str(), "config.toml"))
            },
            None => None,
        },
    }
}

} // verus!
