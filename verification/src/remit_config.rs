//! The tool's own connection configurations and their manager.
//!
//! A configuration file holds one `key value` line per field — username,
//! password, host, name, port. Parsing and rendering those lines is the logic
//! here; reading and writing the files themselves, and creating the directory
//! that holds them, happens outside this crate.

use crate::strutil::str_eq;
use crate::strutil::tokens_of;
use crate::sync_config::config_lines;
use crate::sync_config::ConfigError;
use crate::system_path::SystemPath;
use vstd::prelude::*;
use vstd::string::StrSliceExecFns;
use vstd::string::StringExecFns;

verus! {

/// The mathematical value of a [`RemitConfig`]: its five text fields.
pub ghost struct RemitView {
    pub username: Seq<char>,
    pub password: Seq<char>,
    pub host: Seq<char>,
    pub name: Seq<char>,
    pub port: Seq<char>,
}

/// The configuration all fields of which are empty.
pub open spec fn empty_remit() -> RemitView {
    RemitView {
        username: Seq::empty(),
        password: Seq::empty(),
        host: Seq::empty(),
        name: Seq::empty(),
        port: Seq::empty(),
    }
}

/// The characters of a line from position `k` on; empty when the line is
/// shorter.
pub open spec fn line_suffix(l: Seq<char>, k: int) -> Seq<char> {
    if l.len() >= k {
        l.skip(k)
    } else {
        Seq::empty()
    }
}

/// What one configuration line does to the configuration being read. A line
/// is recognized by its first token: `username`, `password` and `name` append
/// everything behind the keyword and the following character to the field;
/// `host` and `port` append the line's second token. A line without tokens,
/// with an unknown keyword, or missing its value changes nothing.
pub open spec fn remit_apply_line(c: RemitView, line: Seq<char>) -> RemitView {
    let toks = tokens_of(line);
    if toks.len() == 0 {
        c
    } else if toks[0] == "username"@ {
        RemitView { username: c.username + line_suffix(line, 9), ..c }
    } else if toks[0] == "password"@ {
        RemitView { password: c.password + line_suffix(line, 9), ..c }
    } else if toks[0] == "host"@ {
        if toks.len() < 2 {
            c
        } else {
            RemitView { host: c.host + toks[1], ..c }
        }
    } else if toks[0] == "name"@ {
        RemitView { name: c.name + line_suffix(line, 5), ..c }
    } else if toks[0] == "port"@ {
        if toks.len() < 2 {
            c
        } else {
            RemitView { port: c.port + toks[1], ..c }
        }
    } else {
        c
    }
}

/// Folding [`remit_apply_line`] over the lines of a configuration file.
pub open spec fn remit_parse_lines(c: RemitView, lines: Seq<Seq<char>>) -> RemitView
    decreases lines.len(),
{
    if lines.len() == 0 {
        c
    } else {
        remit_parse_lines(remit_apply_line(c, lines[0]), lines.skip(1))
    }
}

/// The file contents that a configuration is saved as: one `key value` line
/// per field, in a fixed order.
pub open spec fn rendered_config(c: RemitView) -> Seq<char> {
    "username "@ + c.username + "\n"@ + "password "@ + c.password + "\n"@ + "host "@ + c.host
        + "\n"@ + "name "@ + c.name + "\n"@ + "port "@ + c.port + "\n"@
}

/// The information of one connection configuration: everything needed to
/// reach a server with username and password.
#[derive(Debug)]
pub struct RemitConfig {
    pub username: String,
    pub password: String,
    pub host: String,
    pub name: String,
    pub port: String,
    /// The path from the local directory to the configuration file's
    /// location; kept with the configuration but not otherwise used.
    pub path: SystemPath,
}

impl View for RemitConfig {
    type V = RemitView;

    closed spec fn view(&self) -> RemitView {
        RemitView {
            username: self.username@,
            password: self.password@,
            host: self.host@,
            name: self.name@,
            port: self.port@,
        }
    }
}

impl DeepView for RemitConfig {
    type V = RemitView;

    open spec fn deep_view(&self) -> RemitView {
        self.view()
    }
}

impl Clone for RemitConfig {
    /// Cloning keeps every text field and the stored path.
    fn clone(&self) -> (r: Self)
        ensures
            r@ == self@,
            r.path.segs() == self.path.segs(),
            r.path.str_view() == self.path.str_view(),
    {
        RemitConfig {
            username: self.username.clone(),
            password: self.password.clone(),
            host: self.host.clone(),
            name: self.name.clone(),
            port: self.port.clone(),
            path: self.path.clone(),
        }
    }
}

impl RemitConfig {
    /// Create a configuration with every field empty.
    pub fn new() -> (r: RemitConfig)
        ensures
            r@ == empty_remit(),
            r.path.segs() == Seq::<Seq<char>>::empty(),
    {
        RemitConfig {
            username: String::new(),
            password: String::new(),
            host: String::new(),
            name: String::new(),
            port: String::new(),
            path: SystemPath::new(),
        }
    }
}

/// Apply one configuration line to the configuration being read.
fn remit_apply_line_exec(config: &mut RemitConfig, line: &String)
    ensures
        final(config)@ == remit_apply_line(old(config)@, line@),
        final(config).path.segs() == old(config).path.segs(),
        final(config).path.str_view() == old(config).path.str_view(),
{
    let toks = crate::strutil::split_tokens(line.as_str());
    if toks.len() == 0 {
        return ;
    }
    let key = &toks[0];
    proof {
        assert(key@ == tokens_of(line@)[0]);
    }
    let n = line.as_str().unicode_len();
    if str_eq(key.as_str(), "username") {
        if n >= 9 {
            let rest = line.as_str().substring_char(9, n);
            proof {
                assert(rest@ =~= line_suffix(line@, 9));
            }
            config.username.append(rest);
        } else {
            proof {
                assert(config@.username + line_suffix(line@, 9) =~= config@.username);
            }
        }
        return ;
    }
    if str_eq(key.as_str(), "password") {
        if n >= 9 {
            let rest = line.as_str().substring_char(9, n);
            proof {
                assert(rest@ =~= line_suffix(line@, 9));
            }
            config.password.append(rest);
        } else {
            proof {
                assert(config@.password + line_suffix(line@, 9) =~= config@.password);
            }
        }
        return ;
    }
    if str_eq(key.as_str(), "host") {
        if toks.len() >= 2 {
            config.host.append(toks[1].as_str());
        }
        return ;
    }
    if str_eq(key.as_str(), "name") {
        if n >= 5 {
            let rest = line.as_str().substring_char(5, n);
            proof {
                assert(rest@ =~= line_suffix(line@, 5));
            }
            config.name.append(rest);
        } else {
            proof {
                assert(config@.name + line_suffix(line@, 5) =~= config@.name);
            }
        }
        return ;
    }
    if str_eq(key.as_str(), "port") {
        if toks.len() >= 2 {
            config.port.append(toks[1].as_str());
        }
        return ;
    }
}

/// Parse the contents of one configuration file, line by line.
pub fn parse_remit_config(contents: String) -> (r: RemitConfig)
    ensures
        r@ == remit_parse_lines(empty_remit(), config_lines(contents@)),
{
    let mut config = RemitConfig::new();
    let ghost lviews = config_lines(contents@);
    let lines = crate::strutil::split_string(contents.as_str(), '\n');
    let n = lines.len();
    let mut i: usize = 0;
    proof {
        assert(lviews.skip(0) =~= lviews);
    }
    while i < n
        invariant
            i <= n,
            n == lines@.len(),
            lviews == config_lines(contents@),
            lines.deep_view() == crate::strutil::split_chars(contents@, '\n'),
            remit_parse_lines(empty_remit(), lviews) == remit_parse_lines(
                config@,
                lviews.skip(i as int),
            ),
        decreases n - i,
    {
        let ghost c0 = config@;
        let raw = &lines[i];
        let rn = raw.as_str().unicode_len();
        let line: String = if rn > 0 && raw.as_str().get_char(rn - 1) == '\r' {
            raw.as_str().substring_char(0, rn - 1).to_owned()
        } else {
            raw.clone()
        };
        proof {
            if rn > 0 && raw@[rn - 1] == '\r' {
                assert(raw@.subrange(0, rn - 1) =~= crate::sync_config::strip_cr(raw@));
            }
            assert(line@ == lviews[i as int]);
            assert(lviews.skip(i as int)[0] == lviews[i as int]);
        }
        remit_apply_line_exec(&mut config, &line);
        proof {
            assert(lviews.skip(i as int).skip(1) =~= lviews.skip(i as int + 1));
            assert(remit_parse_lines(c0, lviews.skip(i as int)) == remit_parse_lines(
                config@,
                lviews.skip(i as int + 1),
            ));
        }
        i = i + 1;
    }
    proof {
        assert(lviews.skip(n as int) =~= Seq::<Seq<char>>::empty());
    }
    config
}

/// Keeps the loaded connection configurations, one per name, and the path of
/// the directory their files live in. Reading and writing the files is the
/// caller's part; the manager parses, stores and renders.
pub struct ConfigManager {
    /// The loaded configurations, at most one per name
    configs: Vec<RemitConfig>,
    /// The path of the directory that holds the configuration files
    config_path: SystemPath,
}

/// Inserting a configuration into a list keyed by name: it replaces the first
/// configuration of the same name, or goes to the end when the name is new.
pub open spec fn insert_remit_view(cs: Seq<RemitView>, c: RemitView) -> Seq<RemitView>
    decreases cs.len(),
{
    if cs.len() == 0 {
        seq![c]
    } else if cs[0].name == c.name {
        seq![c] + cs.skip(1)
    } else {
        seq![cs[0]] + insert_remit_view(cs.skip(1), c)
    }
}

/// The first configuration in the list with the given name.
pub open spec fn first_remit_with_name(cs: Seq<RemitView>, n: Seq<char>) -> Option<RemitView>
    decreases cs.len(),
{
    if cs.len() == 0 {
        None
    } else if cs[0].name == n {
        Some(cs[0])
    } else {
        first_remit_with_name(cs.skip(1), n)
    }
}

impl ConfigManager {
    /// The views of the loaded configurations.
    pub closed spec fn configs_view(&self) -> Seq<RemitView> {
        self.configs.deep_view()
    }

    /// The segments of the configuration directory's path.
    pub closed spec fn path_segs(&self) -> Seq<Seq<char>> {
        self.config_path.segs()
    }

    /// The rendered configuration directory path.
    pub closed spec fn path_str(&self) -> Seq<char> {
        self.config_path.str_view()
    }

    /// Create a manager with no configurations loaded and the configuration
    /// directory set to `configs`. The caller creates that directory on disk
    /// if it is wanted.
    pub fn new() -> (r: ConfigManager)
        ensures
            r.configs_view() == Seq::<RemitView>::empty(),
            r.path_segs() == seq!["configs"@],
            r.path_str() == crate::system_path::path_of(seq!["configs"@]),
    {
        let mut path = SystemPath::new();
        path.pushd("configs".to_owned());
        proof {
            seg_ok_configs();
            assert(Seq::<Seq<char>>::empty().push("configs"@) =~= seq!["configs"@]);
        }
        let r = ConfigManager { configs: Vec::new(), config_path: path };
        proof {
            assert(r.configs_view() =~= Seq::<RemitView>::empty());
        }
        r
    }

    /// Parse the contents of one configuration file and store the result,
    /// replacing any configuration of the same name.
    pub fn read_config_text(&mut self, contents: String)
        ensures
            final(self).configs_view() == insert_remit_view(
                old(self).configs_view(),
                remit_parse_lines(empty_remit(), config_lines(contents@)),
            ),
            final(self).path_segs() == old(self).path_segs(),
            final(self).path_str() == old(self).path_str(),
    {
        let config = parse_remit_config(contents);
        self.insert_config(config);
    }

    /// Add a configuration: it replaces the stored one of the same name, or
    /// is appended when the name is new.
    pub fn insert_config(&mut self, config: RemitConfig)
        ensures
            final(self).configs_view() == insert_remit_view(old(self).configs_view(), config@),
            final(self).path_segs() == old(self).path_segs(),
            final(self).path_str() == old(self).path_str(),
    {
        let n = self.configs.len();
        let mut i: usize = 0;
        while i < n
            invariant
                i <= n,
                n == self.configs@.len(),
                *self == *old(self),
                forall|k: int| 0 <= k < i as int ==> self.configs_view()[k].name != config@.name,
            decreases n - i,
        {
            if str_eq(self.configs[i].name.as_str(), config.name.as_str()) {
                let ghost cs = self.configs_view();
                let ghost cv = config@;
                self.configs.set(i, config);
                proof {
                    assert(self.configs_view() =~= cs.update(i as int, cv));
                    lemma_remit_insert_found(cs, cv, i as int);
                }
                return ;
            }
            i = i + 1;
        }
        let ghost cs = self.configs_view();
        let ghost cv = config@;
        self.configs.push(config);
        proof {
            assert(self.configs_view() =~= cs.push(cv));
            lemma_remit_insert_new(cs, cv);
        }
    }

    /// The file contents under which the configuration of the given name is
    /// saved; fails exactly when no configuration has that name.
    pub fn render_config(&self, name: &String) -> (r: Result<String, ConfigError>)
        ensures
            match first_remit_with_name(self.configs_view(), name@) {
                Some(c) => r is Ok && r->Ok_0@ == rendered_config(c),
                None => r == Err::<String, ConfigError>(ConfigError::NotFound),
            },
    {
        let n = self.configs.len();
        let mut i: usize = 0;
        proof {
            assert(self.configs_view().skip(0) =~= self.configs_view());
        }
        while i < n
            invariant
                i <= n,
                n == self.configs@.len(),
                first_remit_with_name(self.configs_view(), name@) == first_remit_with_name(
                    self.configs_view().skip(i as int),
                    name@,
                ),
            decreases n - i,
        {
            proof {
                assert(self.configs_view().skip(i as int)[0] == self.configs_view()[i as int]);
                assert(self.configs_view().skip(i as int).skip(1) =~= self.configs_view().skip(
                    i as int + 1,
                ));
            }
            if str_eq(self.configs[i].name.as_str(), name.as_str()) {
                let c = &self.configs[i];
                let mut out = String::new();
                out.append("username ");
                out.append(c.username.as_str());
                out.append("\n");
                out.append("password ");
                out.append(c.password.as_str());
                out.append("\n");
                out.append("host ");
                out.append(c.host.as_str());
                out.append("\n");
                out.append("name ");
                out.append(c.name.as_str());
                out.append("\n");
                out.append("port ");
                out.append(c.port.as_str());
                out.append("\n");
                proof {
                    assert(out@ == rendered_config(self.configs_view()[i as int]));
                    assert(self.configs_view()[i as int].name == name@);
                    assert(first_remit_with_name(self.configs_view(), name@) == Some(
                        self.configs_view()[i as int],
                    ));
                }
                return Ok(out);
            }
            i = i + 1;
        }
        proof {
            assert(self.configs_view().skip(n as int) =~= Seq::<RemitView>::empty());
        }
        Err(ConfigError::NotFound)
    }

    /// All loaded configurations, in their stored order.
    pub fn get_configs(&mut self) -> (r: Vec<RemitConfig>)
        ensures
            r.deep_view() == old(self).configs_view(),
            *final(self) == *old(self),
    {
        let n = self.configs.len();
        let mut r: Vec<RemitConfig> = Vec::new();
        let mut i: usize = 0;
        proof {
            assert(r.deep_view() =~= self.configs_view().take(0));
        }
        while i < n
            invariant
                i <= n,
                n == self.configs@.len(),
                *self == *old(self),
                r.deep_view() == self.configs_view().take(i as int),
            decreases n - i,
        {
            let ghost r0 = r.deep_view();
            let c = self.configs[i].clone();
            let ghost cv = c@;
            r.push(c);
            proof {
                assert(r.deep_view() =~= r0.push(cv));
                assert(r0.push(cv) =~= self.configs_view().take(i as int + 1));
            }
            i = i + 1;
        }
        proof {
            assert(self.configs_view().take(n as int) =~= self.configs_view());
        }
        r
    }
}

/// The directory name `configs` is an acceptable path segment.
proof fn seg_ok_configs()
    ensures
        crate::system_path::seg_ok("configs"@),
{
    reveal_strlit("configs");
    assert("configs"@[0] == 'c');
    assert("configs"@.len() == 7);
    assert(crate::system_path::seg_ok("configs"@));
}

/// Inserting a configuration whose name is not in the list appends it.
proof fn lemma_remit_insert_new(cs: Seq<RemitView>, c: RemitView)
    requires
        forall|k: int| 0 <= k < cs.len() ==> cs[k].name != c.name,
    ensures
        insert_remit_view(cs, c) == cs.push(c),
    decreases cs.len(),
{
    if cs.len() == 0 {
        assert(insert_remit_view(cs, c) =~= cs.push(c));
    } else {
        lemma_remit_insert_new(cs.skip(1), c);
        assert(seq![cs[0]] + cs.skip(1).push(c) =~= cs.push(c));
    }
}

/// Inserting a configuration whose name first occurs at position `j`
/// replaces that entry.
proof fn lemma_remit_insert_found(cs: Seq<RemitView>, c: RemitView, j: int)
    requires
        0 <= j < cs.len(),
        cs[j].name == c.name,
        forall|k: int| 0 <= k < j ==> cs[k].name != c.name,
    ensures
        insert_remit_view(cs, c) == cs.update(j, c),
    decreases j,
{
    if j == 0 {
        assert(seq![c] + cs.skip(1) =~= cs.update(0, c));
    } else {
        lemma_remit_insert_found(cs.skip(1), c, j - 1);
        assert(cs.skip(1)[j - 1] == cs[j]);
        assert(seq![cs[0]] + cs.skip(1).update(j - 1, c) =~= cs.update(j, c));
    }
}

} // verus!
