//! Configurations for the synchronization subprocess, and the manager that
//! keeps them by name.
//!
//! A configuration is parsed from the text the subprocess prints for it: a
//! `[name]` heading line and `key = value` lines for its type, host, user and
//! password. The manager holds the parsed configurations, one per name, and
//! tracks which one is chosen; running the subprocess itself happens outside
//! this crate.

use crate::strutil::split_string;
use crate::strutil::split_tokens;
use crate::strutil::str_eq;
use crate::strutil::split_chars;
use crate::strutil::tokens_of;
use vstd::prelude::*;
use vstd::string::StrSliceExecFns;
use vstd::string::StringExecFns;

verus! {

/// The ways a configuration operation fails.
#[derive(PartialEq, Eq, Structural, Clone, Copy, Debug)]
pub enum ConfigError {
    /// a configuration line ended before the value it should carry
    Parse,
    /// no configuration of the given name exists
    NotFound,
}

/// The mathematical value of an [`RCloneConfig`]: its five fields as
/// character sequences.
pub ghost struct ConfigView {
    pub config_type: Seq<char>,
    pub name: Seq<char>,
    pub host: Seq<char>,
    pub user: Seq<char>,
    pub pass: Seq<char>,
}

/// The configuration all fields of which are empty.
pub open spec fn empty_config() -> ConfigView {
    ConfigView {
        config_type: Seq::empty(),
        name: Seq::empty(),
        host: Seq::empty(),
        user: Seq::empty(),
        pass: Seq::empty(),
    }
}

/// The keyword that names a configuration's type.
pub open spec fn kw_type() -> Seq<char> {
    seq!['t', 'y', 'p', 'e']
}

/// The keyword that names a configuration's host.
pub open spec fn kw_host() -> Seq<char> {
    seq!['h', 'o', 's', 't']
}

/// The keyword that names a configuration's password.
pub open spec fn kw_pass() -> Seq<char> {
    seq!['p', 'a', 's', 's']
}

/// The keyword that names a configuration's user.
pub open spec fn kw_user() -> Seq<char> {
    seq!['u', 's', 'e', 'r']
}

/// A line without its trailing carriage return, if it has one.
pub open spec fn strip_cr(l: Seq<char>) -> Seq<char> {
    if l.len() > 0 && l[l.len() - 1] == '\r' {
        l.drop_last()
    } else {
        l
    }
}

/// The lines of a configuration text: split at newlines, each without its
/// trailing carriage return.
pub open spec fn config_lines(s: Seq<char>) -> Seq<Seq<char>> {
    let pieces = split_chars(s, '\n');
    Seq::new(pieces.len(), |i: int| strip_cr(pieces[i]))
}

/// What one configuration line does to a configuration being parsed: a line
/// of at most two characters is skipped; a line starting with `[` sets the
/// name to what stands between the brackets; a line whose first token is one
/// of the four keywords sets that field to the line's third token, and fails
/// when the line has fewer than three tokens (so does a blank line of three
/// or more whitespace characters); any other line is skipped.
pub open spec fn apply_line(c: ConfigView, line: Seq<char>) -> Option<ConfigView> {
    if line.len() <= 2 {
        Some(c)
    } else if line[0] == '[' {
        Some(ConfigView { name: line.subrange(1, line.len() - 1), ..c })
    } else {
        let toks = tokens_of(line);
        if toks.len() == 0 {
            None
        } else if toks[0] == kw_type() {
            if toks.len() < 3 {
                None
            } else {
                Some(ConfigView { config_type: toks[2], ..c })
            }
        } else if toks[0] == kw_host() {
            if toks.len() < 3 {
                None
            } else {
                Some(ConfigView { host: toks[2], ..c })
            }
        } else if toks[0] == kw_pass() {
            if toks.len() < 3 {
                None
            } else {
                Some(ConfigView { pass: toks[2], ..c })
            }
        } else if toks[0] == kw_user() {
            if toks.len() < 3 {
                None
            } else {
                Some(ConfigView { user: toks[2], ..c })
            }
        } else {
            Some(c)
        }
    }
}

/// Folding [`apply_line`] over a sequence of lines, stopping at the first
/// failing line.
pub open spec fn parse_lines(c: ConfigView, lines: Seq<Seq<char>>) -> Option<ConfigView>
    decreases lines.len(),
{
    if lines.len() == 0 {
        Some(c)
    } else {
        match apply_line(c, lines[0]) {
            None => None,
            Some(c2) => parse_lines(c2, lines.skip(1)),
        }
    }
}

/// One configuration of the synchronization subprocess.
#[derive(Debug)]
pub struct RCloneConfig {
    /// The type of the configuration, e.g. `sftp`
    config_type: String,
    /// The configuration's name
    pub name: String,
    /// The host it connects to
    host: String,
    /// The user it connects as
    user: String,
    /// The (obscured) password it connects with
    pass: String,
}

impl View for RCloneConfig {
    type V = ConfigView;

    closed spec fn view(&self) -> ConfigView {
        ConfigView {
            config_type: self.config_type@,
            name: self.name@,
            host: self.host@,
            user: self.user@,
            pass: self.pass@,
        }
    }
}

impl DeepView for RCloneConfig {
    type V = ConfigView;

    open spec fn deep_view(&self) -> ConfigView {
        self.view()
    }
}

impl Clone for RCloneConfig {
    /// Cloning keeps every field.
    fn clone(&self) -> (r: Self)
        ensures
            r@ == self@,
    {
        RCloneConfig {
            config_type: self.config_type.clone(),
            name: self.name.clone(),
            host: self.host.clone(),
            user: self.user.clone(),
            pass: self.pass.clone(),
        }
    }
}

impl RCloneConfig {
    /// The configuration's type field.
    pub fn config_type(&self) -> (r: &String)
        ensures
            r@ == self@.config_type,
    {
        &self.config_type
    }

    /// The configuration's host field.
    pub fn host(&self) -> (r: &String)
        ensures
            r@ == self@.host,
    {
        &self.host
    }

    /// The configuration's user field.
    pub fn user(&self) -> (r: &String)
        ensures
            r@ == self@.user,
    {
        &self.user
    }

    /// The configuration's password field.
    pub fn pass(&self) -> (r: &String)
        ensures
            r@ == self@.pass,
    {
        &self.pass
    }

    /// Create a configuration: empty when no text is given, else parsed from
    /// the text.
    pub fn new(input: Option<String>) -> (r: Result<RCloneConfig, ConfigError>)
        ensures
            match input {
                None => r is Ok && r->Ok_0@ == empty_config(),
                Some(text) => (match parse_lines(empty_config(), config_lines(text@)) {
                    Some(c) => r is Ok && r->Ok_0@ == c,
                    None => r == Err::<RCloneConfig, ConfigError>(ConfigError::Parse),
                }),
            },
    {
        match input {
            None => Ok(
                RCloneConfig {
                    config_type: String::new(),
                    name: String::new(),
                    host: String::new(),
                    user: String::new(),
                    pass: String::new(),
                },
            ),
            Some(text) => RCloneConfig::parse_config(text),
        }
    }

    /// Parse the text of one configuration, line by line.
    pub fn parse_config(input: String) -> (r: Result<RCloneConfig, ConfigError>)
        ensures
            match parse_lines(empty_config(), config_lines(input@)) {
                Some(c) => r is Ok && r->Ok_0@ == c,
                None => r == Err::<RCloneConfig, ConfigError>(ConfigError::Parse),
            },
    {
        let mut config = RCloneConfig {
            config_type: String::new(),
            name: String::new(),
            host: String::new(),
            user: String::new(),
            pass: String::new(),
        };
        let ghost lviews = config_lines(input@);
        let lines = split_string(input.as_str(), '\n');
        let n = lines.len();
        let mut i: usize = 0;
        proof {
            assert(lviews.skip(0) =~= lviews);
        }
        while i < n
            invariant
                i <= n,
                n == lines@.len(),
                lines.deep_view() == split_chars(input@, '\n'),
                lviews == config_lines(input@),
                parse_lines(empty_config(), lviews) == parse_lines(config@, lviews.skip(i as int)),
            decreases n - i,
        {
            let ghost c0 = config@;
            let raw = &lines[i];
            let rn = raw.as_str().unicode_len();
            let line: String = if rn > 0 && raw.as_str().get_char(rn - 1) == '\r' {
                raw.as_str().substring_char(0, rn - 1).to_owned()
            } else {
                raw.clone()
            };
            proof {
                if rn > 0 && raw@[rn - 1] == '\r' {
                    assert(raw@.subrange(0, rn - 1) =~= strip_cr(raw@));
                }
                assert(line@ == lviews[i as int]);
                assert(lviews.skip(i as int)[0] == lviews[i as int]);
            }
            let ok = apply_config_line(&mut config, &line);
            if !ok {
                proof {
                    assert(parse_lines(c0, lviews.skip(i as int)) is None);
                }
                return Err(ConfigError::Parse);
            }
            proof {
                assert(lviews.skip(i as int).skip(1) =~= lviews.skip(i as int + 1));
                assert(parse_lines(c0, lviews.skip(i as int)) == parse_lines(
                    config@,
                    lviews.skip(i as int + 1),
                ));
            }
            i = i + 1;
        }
        proof {
            assert(lviews.skip(n as int) =~= Seq::<Seq<char>>::empty());
        }
        Ok(config)
    }
}

/// Apply one configuration line to the configuration being parsed; returns
/// false exactly when the line fails to parse.
fn apply_config_line(config: &mut RCloneConfig, line: &String) -> (ok: bool)
    ensures
        match apply_line(old(config)@, line@) {
            Some(c2) => ok && final(config)@ == c2,
            None => !ok,
        },
{
    let n = line.as_str().unicode_len();
    if n <= 2 {
        return true;
    }
    if line.as_str().get_char(0) == '[' {
        config.name = line.as_str().substring_char(1, n - 1).to_owned();
        return true;
    }
    let toks = split_tokens(line.as_str());
    if toks.len() == 0 {
        return false;
    }
    let key = &toks[0];
    proof {
        reveal_strlit("type");
        reveal_strlit("host");
        reveal_strlit("pass");
        reveal_strlit("user");
        assert("type"@ =~= kw_type());
        assert("host"@ =~= kw_host());
        assert("pass"@ =~= kw_pass());
        assert("user"@ =~= kw_user());
        assert(key@ == tokens_of(line@)[0]);
    }
    if str_eq(key.as_str(), "type") {
        if toks.len() < 3 {
            return false;
        }
        config.config_type = toks[2].clone();
        return true;
    }
    if str_eq(key.as_str(), "host") {
        if toks.len() < 3 {
            return false;
        }
        config.host = toks[2].clone();
        return true;
    }
    if str_eq(key.as_str(), "pass") {
        if toks.len() < 3 {
            return false;
        }
        config.pass = toks[2].clone();
        return true;
    }
    if str_eq(key.as_str(), "user") {
        if toks.len() < 3 {
            return false;
        }
        config.user = toks[2].clone();
        return true;
    }
    true
}

/// Inserting a configuration into a list keyed by name: it replaces the first
/// configuration of the same name, or goes to the end when the name is new.
pub open spec fn insert_config_view(cs: Seq<ConfigView>, c: ConfigView) -> Seq<ConfigView>
    decreases cs.len(),
{
    if cs.len() == 0 {
        seq![c]
    } else if cs[0].name == c.name {
        seq![c] + cs.skip(1)
    } else {
        seq![cs[0]] + insert_config_view(cs.skip(1), c)
    }
}

/// The configurations that do not carry the given name, in their order.
pub open spec fn without_name(cs: Seq<ConfigView>, n: Seq<char>) -> Seq<ConfigView>
    decreases cs.len(),
{
    if cs.len() == 0 {
        Seq::empty()
    } else {
        without_name(cs.drop_last(), n) + (if cs.last().name == n {
            Seq::<ConfigView>::empty()
        } else {
            seq![cs.last()]
        })
    }
}

/// Whether some configuration in the list has the given name.
pub open spec fn contains_name(cs: Seq<ConfigView>, n: Seq<char>) -> bool {
    exists|i: int| 0 <= i < cs.len() && cs[i].name == n
}

/// Loading configurations from the subprocess's whole output: each chunk is
/// parsed as a configuration of its own and inserted by name; a chunk that
/// fails to parse stops the load.
pub open spec fn load_fold(cs: Seq<ConfigView>, chunks: Seq<Seq<char>>) -> Option<Seq<ConfigView>>
    decreases chunks.len(),
{
    if chunks.len() == 0 {
        Some(cs)
    } else {
        match parse_lines(empty_config(), config_lines(chunks[0])) {
            None => None,
            Some(c) => load_fold(insert_config_view(cs, c), chunks.skip(1)),
        }
    }
}

/// Manager for the synchronization subprocess's configurations: it keeps the
/// parsed configurations by name, the chosen one, and where the subprocess
/// executable stands. Building and running the subprocess's commands happens
/// outside this crate.
pub struct RCloneManager {
    /// The name of the subprocess executable
    exe: String,
    /// The loaded configurations, at most one per name
    configs: Vec<RCloneConfig>,
    /// The name of the currently chosen configuration
    pub chosen_config: String,
    /// The path that holds the executable
    custom_path: String,
}

impl RCloneManager {
    /// The executable's name.
    pub closed spec fn exe_view(&self) -> Seq<char> {
        self.exe@
    }

    /// The views of the loaded configurations.
    pub closed spec fn configs_view(&self) -> Seq<ConfigView> {
        self.configs.deep_view()
    }

    /// The name of the chosen configuration.
    pub closed spec fn chosen(&self) -> Seq<char> {
        self.chosen_config@
    }

    /// The path that holds the executable.
    pub closed spec fn custom(&self) -> Seq<char> {
        self.custom_path@
    }

    /// The name of the subprocess executable.
    pub fn exe_name(&self) -> (r: &String)
        ensures
            r@ == self.exe_view(),
    {
        &self.exe
    }

    /// The path that holds the executable.
    pub fn custom_path_name(&self) -> (r: &String)
        ensures
            r@ == self.custom(),
    {
        &self.custom_path
    }

    /// Create a manager with no configurations loaded and none chosen. With
    /// no executable name given, `rclone.exe` in the current directory is
    /// assumed.
    pub fn new(exe: Option<String>, custom_path: Option<String>) -> (r: RCloneManager)
        ensures
            r.exe_view() == (match exe {
                Some(e) => e@,
                None => "rclone.exe"@,
            }),
            r.custom() == (match custom_path {
                Some(p) => p@,
                None => Seq::<char>::empty(),
            }),
            r.configs_view() == Seq::<ConfigView>::empty(),
            r.chosen() == Seq::<char>::empty(),
    {
        let exe_name = match exe {
            Some(e) => e,
            None => "rclone.exe".to_owned(),
        };
        let custom = match custom_path {
            Some(p) => p,
            None => String::new(),
        };
        let r = RCloneManager {
            exe: exe_name,
            configs: Vec::new(),
            chosen_config: String::new(),
            custom_path: custom,
        };
        proof {
            assert(r.configs_view() =~= Seq::<ConfigView>::empty());
        }
        r
    }

    /// The names of the loaded configurations, in their stored order.
    pub fn list_config_names(&mut self) -> (r: Vec<String>)
        ensures
            r.deep_view() == Seq::new(
                old(self).configs_view().len(),
                |i: int| old(self).configs_view()[i].name,
            ),
            *final(self) == *old(self),
    {
        let n = self.configs.len();
        let mut r: Vec<String> = Vec::new();
        let mut i: usize = 0;
        proof {
            assert(r.deep_view() =~= Seq::new(0, |k: int| self.configs_view()[k].name));
        }
        while i < n
            invariant
                i <= n,
                n == self.configs@.len(),
                *self == *old(self),
                r.deep_view() == Seq::new(i as nat, |k: int| self.configs_view()[k].name),
            decreases n - i,
        {
            let ghost r0 = r.deep_view();
            let name = self.configs[i].name.clone();
            let ghost nv = name@;
            r.push(name);
            proof {
                assert(r.deep_view() =~= r0.push(nv));
                assert(r0.push(nv) =~= Seq::new((i + 1) as nat, |k: int| self.configs_view()[k].name));
            }
            i = i + 1;
        }
        r
    }

    /// Whether a configuration of the given name is loaded.
    pub fn config_exists(&mut self, name: &String) -> (r: bool)
        ensures
            r == contains_name(old(self).configs_view(), name@),
            *final(self) == *old(self),
    {
        let n = self.configs.len();
        let mut i: usize = 0;
        while i < n
            invariant
                i <= n,
                n == self.configs@.len(),
                *self == *old(self),
                forall|k: int| 0 <= k < i as int ==> self.configs_view()[k].name != name@,
            decreases n - i,
        {
            if str_eq(self.configs[i].name.as_str(), name.as_str()) {
                proof {
                    assert(old(self).configs_view()[i as int].name == name@);
                }
                return true;
            }
            i = i + 1;
        }
        false
    }

    /// Choose the configuration of the given name; fails, leaving the choice
    /// unchanged, exactly when no configuration has that name.
    pub fn set_config(&mut self, name: String) -> (r: Result<(), ConfigError>)
        ensures
            contains_name(old(self).configs_view(), name@) ==> r is Ok && final(self).chosen()
                == name@,
            !contains_name(old(self).configs_view(), name@) ==> r == Err::<(), ConfigError>(
                ConfigError::NotFound,
            ) && final(self).chosen() == old(self).chosen(),
            final(self).configs_view() == old(self).configs_view(),
            final(self).exe_view() == old(self).exe_view(),
            final(self).custom() == old(self).custom(),
    {
        if self.config_exists(&name) {
            self.chosen_config = name;
            Ok(())
        } else {
            Err(ConfigError::NotFound)
        }
    }

    /// Forget the configuration of the given name, if one is loaded: every
    /// other configuration stays, in order.
    pub fn remove_config(&mut self, name: &String)
        ensures
            final(self).configs_view() == without_name(old(self).configs_view(), name@),
            final(self).chosen() == old(self).chosen(),
            final(self).exe_view() == old(self).exe_view(),
            final(self).custom() == old(self).custom(),
    {
        let n = self.configs.len();
        let mut out: Vec<RCloneConfig> = Vec::new();
        let mut i: usize = 0;
        proof {
            assert(self.configs_view().take(0) =~= Seq::<ConfigView>::empty());
            assert(out.deep_view() =~= without_name(self.configs_view().take(0), name@));
        }
        while i < n
            invariant
                i <= n,
                n == self.configs@.len(),
                *self == *old(self),
                out.deep_view() == without_name(self.configs_view().take(i as int), name@),
            decreases n - i,
        {
            let ghost out0 = out.deep_view();
            let ghost pref = self.configs_view().take(i as int);
            proof {
                assert(self.configs_view().take(i as int + 1).drop_last() =~= pref);
                assert(self.configs_view().take(i as int + 1).last() == self.configs_view()[i as int]);
            }
            if !str_eq(self.configs[i].name.as_str(), name.as_str()) {
                let c = self.configs[i].clone();
                let ghost cv = c@;
                out.push(c);
                proof {
                    assert(out.deep_view() =~= out0.push(cv));
                    assert(out0.push(cv) =~= out0 + seq![cv]);
                }
            } else {
                proof {
                    assert(out0 + Seq::<ConfigView>::empty() =~= out0);
                }
            }
            i = i + 1;
        }
        proof {
            assert(self.configs_view().take(n as int) =~= self.configs_view());
        }
        self.configs = out;
    }

    /// Load the configurations from the subprocess's whole output: the text
    /// is split at newlines, each piece is parsed as a configuration of its
    /// own, and the results replace whatever was loaded, keyed by name. A
    /// piece that fails to parse stops the load with an error.
    pub fn load_configs_from_output(&mut self, output: String) -> (r: Result<(), ConfigError>)
        ensures
            match load_fold(Seq::<ConfigView>::empty(), split_chars(output@, '\n')) {
                Some(cs) => r is Ok && final(self).configs_view() == cs,
                None => r == Err::<(), ConfigError>(ConfigError::Parse),
            },
            final(self).chosen() == old(self).chosen(),
            final(self).exe_view() == old(self).exe_view(),
            final(self).custom() == old(self).custom(),
    {
        self.configs = Vec::new();
        proof {
            assert(self.configs_view() =~= Seq::<ConfigView>::empty());
        }
        let ghost chunks = split_chars(output@, '\n');
        let pieces = split_string(output.as_str(), '\n');
        let n = pieces.len();
        let mut i: usize = 0;
        proof {
            assert(chunks.skip(0) =~= chunks);
        }
        while i < n
            invariant
                i <= n,
                n == pieces@.len(),
                chunks == split_chars(output@, '\n'),
                pieces.deep_view() == chunks,
                load_fold(Seq::<ConfigView>::empty(), chunks) == load_fold(
                    self.configs_view(),
                    chunks.skip(i as int),
                ),
                self.chosen_config == old(self).chosen_config,
                self.exe == old(self).exe,
                self.custom_path == old(self).custom_path,
            decreases n - i,
        {
            let ghost cs0 = self.configs_view();
            proof {
                assert(chunks.skip(i as int)[0] == chunks[i as int]);
            }
            let parsed = RCloneConfig::parse_config(pieces[i].clone());
            match parsed {
                Err(_) => {
                    proof {
                        assert(load_fold(cs0, chunks.skip(i as int)) is None);
                        assert(load_fold(Seq::<ConfigView>::empty(), chunks) is None);
                    }
                    return Err(ConfigError::Parse);
                },
                Ok(c) => {
                    self.insert_parsed(c);
                    proof {
                        assert(chunks.skip(i as int).skip(1) =~= chunks.skip(i as int + 1));
                    }
                },
            }
            i = i + 1;
        }
        proof {
            assert(chunks.skip(n as int) =~= Seq::<Seq<char>>::empty());
        }
        Ok(())
    }

    /// Insert a parsed configuration, replacing the first one of the same
    /// name or appending when the name is new.
    fn insert_parsed(&mut self, c: RCloneConfig)
        ensures
            final(self).configs_view() == insert_config_view(old(self).configs_view(), c@),
            final(self).chosen() == old(self).chosen(),
            final(self).exe_view() == old(self).exe_view(),
            final(self).custom() == old(self).custom(),
            final(self).chosen_config == old(self).chosen_config,
            final(self).exe == old(self).exe,
            final(self).custom_path == old(self).custom_path,
    {
        let n = self.configs.len();
        let mut i: usize = 0;
        while i < n
            invariant
                i <= n,
                n == self.configs@.len(),
                *self == *old(self),
                forall|k: int| 0 <= k < i as int ==> self.configs_view()[k].name != c@.name,
            decreases n - i,
        {
            if str_eq(self.configs[i].name.as_str(), c.name.as_str()) {
                let ghost cs = self.configs_view();
                let ghost cv = c@;
                self.configs.set(i, c);
                proof {
                    assert(self.configs_view() =~= cs.update(i as int, cv));
                    lemma_insert_found(cs, cv, i as int);
                }
                return ;
            }
            i = i + 1;
        }
        let ghost cs = self.configs_view();
        let ghost cv = c@;
        self.configs.push(c);
        proof {
            assert(self.configs_view() =~= cs.push(cv));
            lemma_insert_new(cs, cv);
        }
    }
}

/// Inserting a configuration whose name is not in the list appends it.
proof fn lemma_insert_new(cs: Seq<ConfigView>, c: ConfigView)
    requires
        forall|k: int| 0 <= k < cs.len() ==> cs[k].name != c.name,
    ensures
        insert_config_view(cs, c) == cs.push(c),
    decreases cs.len(),
{
    if cs.len() == 0 {
        assert(insert_config_view(cs, c) =~= cs.push(c));
    } else {
        lemma_insert_new(cs.skip(1), c);
        assert(seq![cs[0]] + cs.skip(1).push(c) =~= cs.push(c));
    }
}

/// Inserting a configuration whose name first occurs at position `j`
/// replaces that entry.
proof fn lemma_insert_found(cs: Seq<ConfigView>, c: ConfigView, j: int)
    requires
        0 <= j < cs.len(),
        cs[j].name == c.name,
        forall|k: int| 0 <= k < j ==> cs[k].name != c.name,
    ensures
        insert_config_view(cs, c) == cs.update(j, c),
    decreases j,
{
    if j == 0 {
        assert(seq![c] + cs.skip(1) =~= cs.update(0, c));
    } else {
        lemma_insert_found(cs.skip(1), c, j - 1);
        assert(cs.skip(1)[j - 1] == cs[j]);
        assert(seq![cs[0]] + cs.skip(1).update(j - 1, c) =~= cs.update(j, c));
    }
}

} // verus!
