//! Configuration: the rules table, the period settings, the merge of a user
//! file over the built-in defaults, and the text of the default file.

pub mod rules;

use vstd::prelude::*;
use vstd::string::*;

use crate::config::rules::{default_rules_map, RulesConfig};
use crate::error::SortcrabError;
use crate::organize::paths::{opt_view, path_join, path_join_of};
use crate::text::{dec_nat, sort_strings, strictly_sorted, u64_to_decimal, views};

verus! {

/// Controls period-based subdirectory organisation.
///
/// `months_per_period` is the number of months in each period (6 =
/// semesters, 4 = trimesters, 3 = quarters, 12 = yearly); `folder_format`
/// is a template with `{year}`, `{period}` (1-based) and `{roman}`.
#[derive(Debug, Clone)]
pub struct SemesterConfig {
    /// Whether to group files by period.
    pub enabled: bool,
    /// Number of months per period.
    pub months_per_period: u32,
    /// Folder-name template.
    pub folder_format: String,
}

impl Default for SemesterConfig {
    fn default() -> (r: SemesterConfig)
        ensures
            r.enabled,
            r.months_per_period == 6,
            r.folder_format@ == "{year}-{roman}"@,
    {
        SemesterConfig {
            enabled: true,
            months_per_period: 6,
            folder_format: String::from_str("{year}-{roman}"),
        }
    }
}

impl SemesterConfig {
    /// A copy of these settings.
    pub fn duplicate(&self) -> (r: SemesterConfig)
        ensures
            r.enabled == self.enabled,
            r.months_per_period == self.months_per_period,
            r.folder_format@ == self.folder_format@,
    {
        SemesterConfig {
            enabled: self.enabled,
            months_per_period: self.months_per_period,
            folder_format: self.folder_format.clone(),
        }
    }

    /// These settings with period grouping switched off.
    pub fn disabled(&self) -> (r: SemesterConfig)
        ensures
            !r.enabled,
            r.months_per_period == self.months_per_period,
            r.folder_format@ == self.folder_format@,
    {
        SemesterConfig {
            enabled: false,
            months_per_period: self.months_per_period,
            folder_format: self.folder_format.clone(),
        }
    }
}

/// Top-level sortcrab configuration.
#[derive(Debug)]
pub struct SortcrabConfig {
    /// Schema version for future migration support.
    pub version: String,
    /// Controls period-based subdirectory grouping.
    pub semester: SemesterConfig,
    /// Extension-to-category mapping rules.
    pub rules: RulesConfig,
}

impl Default for SortcrabConfig {
    fn default() -> (r: SortcrabConfig)
        ensures
            r.version@ == "1"@,
            r.semester.enabled,
            r.semester.months_per_period == 6,
            r.semester.folder_format@ == "{year}-{roman}"@,
            r.rules@ == default_rules_map(),
    {
        SortcrabConfig {
            version: String::from_str("1"),
            semester: SemesterConfig::default(),
            rules: RulesConfig::default(),
        }
    }
}

/// `true` or `false`, as `bool` displays.
pub open spec fn bool_text(b: bool) -> Seq<char> {
    if b {
        "true"@
    } else {
        "false"@
    }
}

/// The version and `[semester]` part of the configuration file, up to the
/// `[rules]` header.
pub open spec fn header_text(
    version: Seq<char>,
    enabled: bool,
    months_per_period: u32,
    folder_format: Seq<char>,
) -> Seq<char> {
    "version = \""@ + version + "\"\n"@ + "\n[semester]\n"@ + "enabled = "@ + bool_text(enabled)
        + "\n"@ + "months_per_period = "@ + dec_nat(months_per_period as nat) + "\n"@
        + "folder_format = \""@ + folder_format + "\"\n"@ + "\n[rules]\n"@
}

/// One inline rule line: `ext = { category = "C", subcategory = "S" }`.
pub open spec fn rule_line(ext: Seq<char>, rule: (Seq<char>, Seq<char>)) -> Seq<char> {
    ext + " = { category = \""@ + rule.0 + "\", subcategory = \""@ + rule.1 + "\" }\n"@
}

/// The rule lines of `keys`, in that order.
pub open spec fn rule_lines(
    keys: Seq<Seq<char>>,
    rules: Map<Seq<char>, (Seq<char>, Seq<char>)>,
) -> Seq<char>
    decreases keys.len(),
{
    if keys.len() == 0 {
        Seq::empty()
    } else {
        rule_lines(keys.drop_last(), rules) + rule_line(keys.last(), rules[keys.last()])
    }
}

/// The text of a configuration file for `config`, its rules listed in the
/// order of `keys`.
pub open spec fn config_text(config: &SortcrabConfig, keys: Seq<Seq<char>>) -> Seq<char> {
    header_text(
        config.version@,
        config.semester.enabled,
        config.semester.months_per_period,
        config.semester.folder_format@,
    ) + rule_lines(keys, config.rules@)
}

/// The configuration file for `config`: the version, the `[semester]` table,
/// then one inline line per extension, extensions in ascending order.
pub fn render_config(config: &SortcrabConfig) -> (r: String)
    ensures
        exists|keys: Seq<Seq<char>>|
            keys.to_set() == config.rules@.dom() && strictly_sorted(keys) && r@ == config_text(
                config,
                keys,
            ),
{
    let mut out = String::new();
    out.append("version = \"");
    out.append(config.version.as_str());
    out.append("\"\n");
    out.append("\n[semester]\n");
    out.append("enabled = ");
    if config.semester.enabled {
        out.append("true");
    } else {
        out.append("false");
    }
    out.append("\n");
    out.append("months_per_period = ");
    let months = u64_to_decimal(config.semester.months_per_period as u64);
    out.append(months.as_str());
    out.append("\n");
    out.append("folder_format = \"");
    out.append(config.semester.folder_format.as_str());
    out.append("\"\n");
    out.append("\n[rules]\n");
    let ghost header = header_text(
        config.version@,
        config.semester.enabled,
        config.semester.months_per_period,
        config.semester.folder_format@,
    );
    assert(out@ =~= header);
    let keys = sort_strings(config.rules.extensions());
    let ghost ks = views(keys@);
    let n = keys.len();
    let mut i: usize = 0;
    assert(ks.take(0) =~= Seq::<Seq<char>>::empty());
    assert(out@ =~= header + rule_lines(ks.take(0), config.rules@));
    while i < n
        invariant
            n == keys@.len(),
            ks == views(keys@),
            ks.to_set() == config.rules@.dom(),
            i <= n,
            out@ == header + rule_lines(ks.take(i as int), config.rules@),
        decreases n - i,
    {
        let key = &keys[i];
        proof {
            assert(ks[i as int] == key@);
            assert(ks.to_set().contains(key@));
            assert(ks.take(i + 1).drop_last() =~= ks.take(i as int));
        }
        match config.rules.get(key.as_str()) {
            Some(rule) => {
                out.append(key.as_str());
                out.append(" = { category = \"");
                out.append(rule.category.as_str());
                out.append("\", subcategory = \"");
                out.append(rule.subcategory.as_str());
                out.append("\" }\n");
                assert(out@ =~= header + rule_lines(ks.take(i + 1), config.rules@));
            },
            None => {},
        }
        i = i + 1;
    }
    assert(ks.take(n as int) =~= ks);
    out
}

/// `directories::ProjectDirs::from(qualifier, organization, application)`,
/// and of it `config_dir()` as text. `None` where no home directory can be
/// found. Nothing is stated of the directory: it comes from the environment
/// (`$XDG_CONFIG_HOME`, `$HOME`) and the platform.
#[verifier::external_body]
fn project_config_dir(qualifier: &str, organization: &str, application: &str) -> Option<String> {
    directories::ProjectDirs::from(qualifier, organization, application).map(
        |p| p.config_dir().to_string_lossy().into_owned(),
    )
}

/// The message of the error when no configuration directory can be found.
pub open spec fn no_config_dir_message() -> Seq<char> {
    "could not determine config directory"@
}

/// Whether `r` is the configuration directory for the lookup result
/// `found`: `Ok` with the directory found, or the configuration error
/// saying that none could be determined.
pub open spec fn dir_outcome(found: Option<Seq<char>>, r: Result<String, SortcrabError>) -> bool {
    match found {
        Some(d) => r matches Ok(x) && x@ == d,
        None => r matches Err(SortcrabError::Config(m)) && m@ == no_config_dir_message(),
    }
}

/// Locates, reads and writes the configuration file; the parts that do not
/// touch the filesystem stand here.
pub struct ConfigManager;

impl ConfigManager {
    /// The configuration directory of sortcrab (`~/.config/sortcrab/` on
    /// Linux), or a configuration error where the platform has none.
    ///
    /// Which directory, and whether there is one, the environment decides:
    /// the result is [`ConfigManager::config_dir_from`] of what the platform
    /// lookup found.
    pub fn config_dir() -> (r: Result<String, SortcrabError>)
        ensures
            exists|found: Option<Seq<char>>| #[trigger] dir_outcome(found, r),
    {
        let (qualifier, organization, application) = Self::project_names();
        let found = project_config_dir(qualifier, organization, application);
        let ghost found_view = opt_view(found);
        let r = Self::config_dir_from(found);
        assert(dir_outcome(found_view, r));
        r
    }

    /// The names the configuration directory is looked up by: qualifier
    /// `com`, no organisation, application `sortcrab`.
    pub fn project_names() -> (r: (&'static str, &'static str, &'static str))
        ensures
            r.0@ == "com"@,
            r.1@ == ""@,
            r.2@ == "sortcrab"@,
    {
        ("com", "", "sortcrab")
    }

    /// The configuration directory from what the platform lookup found: the
    /// directory itself, or a configuration error when there was none.
    pub fn config_dir_from(found: Option<String>) -> (r: Result<String, SortcrabError>)
        ensures
            dir_outcome(opt_view(found), r),
    {
        match found {
            Some(dir) => Ok(dir),
            None => Err(SortcrabError::Config(String::from_str("could not determine config directory"))),
        }
    }

    /// The configuration file, `config.toml` inside [`ConfigManager::config_dir`].
    pub fn config_path() -> (r: Result<String, SortcrabError>)
        ensures
            r matches Ok(p) ==> exists|dir: Seq<char>| p@ == path_join_of(dir, "config.toml"@),
            r matches Err(e) ==> e matches SortcrabError::Config(m) && m@
                == no_config_dir_message(),
    {
        let dir = Self::config_dir()?;
        Ok(Self::config_file_in(dir.as_str()))
    }

    /// The configuration file inside the configuration directory `dir`.
    pub fn config_file_in(dir: &str) -> (r: String)
        ensures
            r@ == path_join_of(dir@, "config.toml"@),
    {
        path_join(dir, "config.toml")
    }

    /// The configuration that a loaded user file stands for: its rules merged
    /// over the built-in rules (the user's rule wins per extension), its
    /// `[semester]` table and version as they are.
    pub fn merge_loaded(user: SortcrabConfig) -> (r: SortcrabConfig)
        ensures
            r.rules@ == default_rules_map().union_prefer_right(user.rules@),
            r.semester.enabled == user.semester.enabled,
            r.semester.months_per_period == user.semester.months_per_period,
            r.semester.folder_format@ == user.semester.folder_format@,
            r.version@ == user.version@,
    {
        let defaults = RulesConfig::default();
        SortcrabConfig {
            rules: defaults.merge(user.rules),
            semester: user.semester,
            version: user.version,
        }
    }

    /// The text of the default configuration file.
    pub fn default_file_text() -> (r: String)
        ensures
            exists|keys: Seq<Seq<char>>|
                keys.to_set() == default_rules_map().dom() && strictly_sorted(keys) && r@
                    == header_text("1"@, true, 6, "{year}-{roman}"@) + rule_lines(
                    keys,
                    default_rules_map(),
                ),
    {
        let config = SortcrabConfig::default();
        render_config(&config)
    }
}

} // verus!
