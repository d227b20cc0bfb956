//! User configuration: defaults, keyed access and the download directory.

use vstd::prelude::*;
use crate::error::Error;
use crate::paths::{expand_path, spec_expand, spec_join};
use crate::text::{opt_view, same, seq_starts_with, concat3};

verus! {

/// Microsoft software-download connector session parameters (the values Fido uses).
#[derive(Debug)]
pub struct MsConfig {
    pub org_id: String,
    pub profile_id: String,
    pub instance_id: String,
}

impl Default for MsConfig {
    fn default() -> (r: Self)
        ensures
            r.org_id@ == "y6jn8c31"@,
            r.profile_id@ == "606624d44113"@,
            r.instance_id@ == "560dc9f3-1aa5-4a2f-b63c-9e18f8d0e175"@,
    {
        MsConfig {
            org_id: String::from_str("y6jn8c31"),
            profile_id: String::from_str("606624d44113"),
            instance_id: String::from_str("560dc9f3-1aa5-4a2f-b63c-9e18f8d0e175"),
        }
    }
}

/// The settings the tool keeps between runs.
#[derive(Debug)]
pub struct Config {
    /// Where downloaded ISOs are stored.
    pub download_dir: String,
    /// Default language, e.g. "zh-CN" or "Chinese (Simplified)".
    pub default_lang: String,
    /// Default architecture: x64 | arm64 | x86.
    pub default_arch: String,
    /// Default release, e.g. "25H2" or "latest".
    pub default_release: String,
    /// Default edition, e.g. "desktop" / "Pro".
    pub default_edition: Option<String>,
    /// Microsoft connector session parameters.
    pub ms: MsConfig,
}

/// A configuration as character sequences.
pub struct ConfigView {
    pub download_dir: Seq<char>,
    pub lang: Seq<char>,
    pub arch: Seq<char>,
    pub release: Seq<char>,
    pub edition: Option<Seq<char>>,
    pub org_id: Seq<char>,
    pub profile_id: Seq<char>,
    pub instance_id: Seq<char>,
}

impl View for Config {
    type V = ConfigView;

    open spec fn view(&self) -> ConfigView {
        ConfigView {
            download_dir: self.download_dir@,
            lang: self.default_lang@,
            arch: self.default_arch@,
            release: self.default_release@,
            edition: opt_view(self.default_edition),
            org_id: self.ms.org_id@,
            profile_id: self.ms.profile_id@,
            instance_id: self.ms.instance_id@,
        }
    }
}

/// The keys `set` and `get` accept, in the order `config list` shows them.
pub open spec fn spec_keys() -> Seq<Seq<char>> {
    seq![
        "download_dir"@,
        "lang"@,
        "arch"@,
        "release"@,
        "edition"@,
        "ms.org_id"@,
        "ms.profile_id"@,
        "ms.instance_id"@,
    ]
}

pub open spec fn is_key(key: Seq<char>) -> bool {
    spec_keys().contains(key)
}

/// The configuration after `set(key, value)` succeeds.
pub open spec fn spec_set(c: ConfigView, key: Seq<char>, value: Seq<char>) -> ConfigView {
    if key == "download_dir"@ {
        ConfigView { download_dir: value, ..c }
    } else if key == "lang"@ {
        ConfigView { lang: value, ..c }
    } else if key == "arch"@ {
        ConfigView { arch: value, ..c }
    } else if key == "release"@ {
        ConfigView { release: value, ..c }
    } else if key == "edition"@ {
        ConfigView { edition: Some(value), ..c }
    } else if key == "ms.org_id"@ {
        ConfigView { org_id: value, ..c }
    } else if key == "ms.profile_id"@ {
        ConfigView { profile_id: value, ..c }
    } else {
        ConfigView { instance_id: value, ..c }
    }
}

/// What `get(key)` answers.
pub open spec fn spec_get(c: ConfigView, key: Seq<char>) -> Option<Seq<char>> {
    if key == "download_dir"@ {
        Some(c.download_dir)
    } else if key == "lang"@ {
        Some(c.lang)
    } else if key == "arch"@ {
        Some(c.arch)
    } else if key == "release"@ {
        Some(c.release)
    } else if key == "edition"@ {
        c.edition
    } else if key == "ms.org_id"@ {
        Some(c.org_id)
    } else if key == "ms.profile_id"@ {
        Some(c.profile_id)
    } else if key == "ms.instance_id"@ {
        Some(c.instance_id)
    } else {
        None
    }
}

/// The message of the error an unknown key gives.
pub open spec fn unknown_key_message(key: Seq<char>) -> Seq<char> {
    "unknown config key '"@ + key
        + "' (valid: download_dir, lang, arch, release, edition, ms.org_id, ms.profile_id, ms.instance_id)"@
}

/// The command-line override when there is one, else the configured directory.
pub open spec fn chosen_dir(cli_override: Option<&str>, configured: Seq<char>) -> Seq<char> {
    match cli_override {
        Some(p) => p@,
        None => configured,
    }
}

/// The file the configuration lives in, under the configuration directory `dir`.
pub open spec fn spec_config_path(dir: Seq<char>) -> Seq<char> {
    spec_join(spec_join(dir, "ventoypilot"@), "config.toml"@)
}

impl Default for Config {
    fn default() -> (r: Self)
        ensures
            r.default_lang@ == "en-US"@,
            r.default_arch@ == "x64"@,
            r.default_release@ == "latest"@,
            r.default_edition is None,
            r.ms.org_id@ == "y6jn8c31"@,
            r.ms.profile_id@ == "606624d44113"@,
            r.ms.instance_id@ == "560dc9f3-1aa5-4a2f-b63c-9e18f8d0e175"@,
    {
        let dir = match crate::paths::download_dir() {
            Some(d) => d,
            None => String::from_str("."),
        };
        Config {
            download_dir: dir,
            default_lang: String::from_str("en-US"),
            default_arch: String::from_str("x64"),
            default_release: String::from_str("latest"),
            default_edition: None,
            ms: MsConfig::default(),
        }
    }
}

impl Config {
    /// The config file path: `<config dir>/ventoypilot/config.toml`, where the
    /// config directory comes from the environment, or `.` when it has none.
    pub fn config_path() -> (r: String)
        ensures
            exists|dir: Seq<char>| r@ == spec_config_path(dir),
    {
        let dir = match crate::paths::config_dir() {
            Some(d) => d,
            None => String::from_str("."),
        };
        let sub = crate::paths::join(dir.as_str(), "ventoypilot");
        let r = crate::paths::join(sub.as_str(), "config.toml");
        assert(r@ == spec_config_path(dir@));
        r
    }

    /// The effective download directory: the command-line override if given,
    /// else the configured one, with a leading `~` expanded.
    pub fn download_dir(&self, cli_override: Option<&str>) -> (r: String)
        ensures
            exists|h: Option<Seq<char>>| r@ == spec_expand(chosen_dir(cli_override, self.download_dir@), h),
            !(chosen_dir(cli_override, self.download_dir@) == "~"@
                || seq_starts_with(chosen_dir(cli_override, self.download_dir@), "~/"@))
                ==> r@ == chosen_dir(cli_override, self.download_dir@),
    {
        let dir: &str = match cli_override {
            Some(p) => p,
            None => self.download_dir.as_str(),
        };
        let r = expand_path(dir);
        let ghost chosen = chosen_dir(cli_override, self.download_dir@);
        assert(dir@ == chosen);
        let ghost h = choose|h: Option<Seq<char>>| r@ == spec_expand(dir@, h);
        assert(r@ == spec_expand(chosen, h));
        r
    }

    /// Sets one configuration value by key; an unknown key is refused and
    /// leaves the configuration as it was.
    pub fn set(&mut self, key: &str, value: &str) -> (r: Result<(), Error>)
        ensures
            is_key(key@) ==> r is Ok && final(self)@ == spec_set(old(self)@, key@, value@),
            !is_key(key@) ==> (r matches Err(e) && e is Config && e.text() == unknown_key_message(key@)
                && final(self)@ == old(self)@),
    {
        let v = String::from_str(value);
        if same(key, "download_dir") {
            self.download_dir = v;
        } else if same(key, "lang") {
            self.default_lang = v;
        } else if same(key, "arch") {
            self.default_arch = v;
        } else if same(key, "release") {
            self.default_release = v;
        } else if same(key, "edition") {
            self.default_edition = Some(v);
        } else if same(key, "ms.org_id") {
            self.ms.org_id = v;
        } else if same(key, "ms.profile_id") {
            self.ms.profile_id = v;
        } else if same(key, "ms.instance_id") {
            self.ms.instance_id = v;
        } else {
            proof {
                assert(!is_key(key@)) by {
                    assert(spec_keys()[0] == "download_dir"@);
                    assert(spec_keys()[1] == "lang"@);
                    assert(spec_keys()[2] == "arch"@);
                    assert(spec_keys()[3] == "release"@);
                    assert(spec_keys()[4] == "edition"@);
                    assert(spec_keys()[5] == "ms.org_id"@);
                    assert(spec_keys()[6] == "ms.profile_id"@);
                    assert(spec_keys()[7] == "ms.instance_id"@);
                }
            }
            let msg = concat3(
                "unknown config key '",
                key,
                "' (valid: download_dir, lang, arch, release, edition, ms.org_id, ms.profile_id, ms.instance_id)",
            );
            return Err(Error::Config(msg));
        }
        proof {
            assert(spec_keys()[0] == "download_dir"@);
            assert(spec_keys()[1] == "lang"@);
            assert(spec_keys()[2] == "arch"@);
            assert(spec_keys()[3] == "release"@);
            assert(spec_keys()[4] == "edition"@);
            assert(spec_keys()[5] == "ms.org_id"@);
            assert(spec_keys()[6] == "ms.profile_id"@);
            assert(spec_keys()[7] == "ms.instance_id"@);
        }
        Ok(())
    }

    /// Reads one configuration value by key; `None` for an unknown key or an
    /// unset edition.
    pub fn get(&self, key: &str) -> (r: Option<String>)
        ensures
            opt_view(r) == spec_get(self@, key@),
    {
        if same(key, "download_dir") {
            Some(self.download_dir.clone())
        } else if same(key, "lang") {
            Some(self.default_lang.clone())
        } else if same(key, "arch") {
            Some(self.default_arch.clone())
        } else if same(key, "release") {
            Some(self.default_release.clone())
        } else if same(key, "edition") {
            match &self.default_edition {
                Some(e) => Some(e.clone()),
                None => None,
            }
        } else if same(key, "ms.org_id") {
            Some(self.ms.org_id.clone())
        } else if same(key, "ms.profile_id") {
            Some(self.ms.profile_id.clone())
        } else if same(key, "ms.instance_id") {
            Some(self.ms.instance_id.clone())
        } else {
            None
        }
    }

    /// All known keys, for `config list`.
    pub fn keys() -> (r: Vec<String>)
        ensures
            crate::text::views(r@) == spec_keys(),
    {
        let mut r: Vec<String> = Vec::new();
        r.push(String::from_str("download_dir"));
        r.push(String::from_str("lang"));
        r.push(String::from_str("arch"));
        r.push(String::from_str("release"));
        r.push(String::from_str("edition"));
        r.push(String::from_str("ms.org_id"));
        r.push(String::from_str("ms.profile_id"));
        r.push(String::from_str("ms.instance_id"));
        assert(crate::text::views(r@) =~= spec_keys());
        r
    }
}

/// The `(key, value)` pairs `config list` shows: each key in order, with
/// what `get` answers, skipping the keys it answers nothing for.
pub open spec fn entries_of(c: ConfigView, ks: Seq<Seq<char>>) -> Seq<(Seq<char>, Seq<char>)>
    decreases ks.len(),
{
    if ks.len() == 0 {
        Seq::empty()
    } else {
        let rest = entries_of(c, ks.drop_last());
        match spec_get(c, ks.last()) {
            Some(v) => rest.push((ks.last(), v)),
            None => rest,
        }
    }
}

pub open spec fn pair_views(v: Seq<(String, String)>) -> Seq<(Seq<char>, Seq<char>)> {
    v.map_values(|p: (String, String)| (p.0@, p.1@))
}

impl Config {
    /// The set keys with their values, in the order of `keys`.
    pub fn entries(&self) -> (r: Vec<(String, String)>)
        ensures
            pair_views(r@) == entries_of(self@, spec_keys()),
    {
        let ks = Config::keys();
        let mut out: Vec<(String, String)> = Vec::new();
        let mut i: usize = 0;
        while i < ks.len()
            invariant
                i <= ks@.len(),
                crate::text::views(ks@) == spec_keys(),
                pair_views(out@) == entries_of(self@, spec_keys().take(i as int)),
            decreases ks.len() - i,
        {
            assert(spec_keys().take(i + 1).drop_last() =~= spec_keys().take(i as int));
            assert(spec_keys().take(i + 1).last() == ks@[i as int]@);
            match self.get(ks[i].as_str()) {
                Some(v) => {
                    let ghost before = out@;
                    out.push((ks[i].clone(), v));
                    assert(pair_views(out@) =~= pair_views(before).push((ks@[i as int]@, v@)));
                },
                None => {},
            }
            i += 1;
        }
        assert(spec_keys().take(ks@.len() as int) =~= spec_keys());
        out
    }
}

/// A successful `set(key, value)` makes `get(key)` answer `value`.
pub proof fn lemma_set_then_get(c: ConfigView, key: Seq<char>, value: Seq<char>)
    requires
        is_key(key),
    ensures
        spec_get(spec_set(c, key, value), key) == Some(value),
{
    assert(spec_keys()[7] == "ms.instance_id"@);
    if key != "download_dir"@ && key != "lang"@ && key != "arch"@ && key != "release"@
        && key != "edition"@ && key != "ms.org_id"@ && key != "ms.profile_id"@ {
        assert(key == "ms.instance_id"@) by {
            let i = choose|i: int| 0 <= i < spec_keys().len() && spec_keys()[i] == key;
            assert(spec_keys()[i] == key);
        }
    }
}

/// `set(key, value)` changes what `get` answers for `key` only.
pub proof fn lemma_set_keeps_other_keys(c: ConfigView, key: Seq<char>, value: Seq<char>, other: Seq<char>)
    requires
        is_key(key),
        is_key(other),
        key != other,
    ensures
        spec_get(spec_set(c, key, value), other) == spec_get(c, other),
{
    reveal_strlit("download_dir");
    reveal_strlit("lang");
    reveal_strlit("arch");
    reveal_strlit("release");
    reveal_strlit("edition");
    reveal_strlit("ms.org_id");
    reveal_strlit("ms.profile_id");
    reveal_strlit("ms.instance_id");
    let i = choose|i: int| 0 <= i < spec_keys().len() && spec_keys()[i] == key;
    let j = choose|j: int| 0 <= j < spec_keys().len() && spec_keys()[j] == other;
    assert(spec_keys()[i] == key);
    assert(spec_keys()[j] == other);
}

/// Every key is answered by `get`, except `edition` while it is unset.
pub proof fn lemma_keys_answered(c: ConfigView, key: Seq<char>)
    requires
        is_key(key),
        key != "edition"@ || c.edition is Some,
    ensures
        spec_get(c, key) is Some,
{
    let i = choose|i: int| 0 <= i < spec_keys().len() && spec_keys()[i] == key;
    assert(spec_keys()[i] == key);
}

} // verus!
