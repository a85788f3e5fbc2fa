//! Extension-to-category rules.
//!
//! [`RulesConfig`] maps a file extension (lower case, without the dot) to a
//! [`Rule`]. Its entries are kept in insertion order; a later entry for an
//! extension overrides every earlier one, so the abstract view is the map
//! obtained by inserting the entries one after another.

use vstd::prelude::*;
use vstd::string::*;

use crate::text::str_eq;

verus! {

/// A destination category and subcategory for one extension.
#[derive(Debug)]
pub struct Rule {
    pub category: String,
    pub subcategory: String,
}

impl View for Rule {
    type V = (Seq<char>, Seq<char>);

    open spec fn view(&self) -> (Seq<char>, Seq<char>) {
        (self.category@, self.subcategory@)
    }
}

impl Rule {
    /// A rule with the given category and subcategory.
    pub fn new(category: &str, subcategory: &str) -> (r: Rule)
        ensures
            r@ == (category@, subcategory@),
    {
        Rule { category: String::from_str(category), subcategory: String::from_str(subcategory) }
    }

    /// A copy of this rule.
    pub fn duplicate(&self) -> (r: Rule)
        ensures
            r@ == self@,
    {
        Rule { category: self.category.clone(), subcategory: self.subcategory.clone() }
    }
}

/// The map that the entries describe: each entry inserted after the ones
/// before it, so the last entry for an extension wins.
pub open spec fn entries_view(s: Seq<(String, Rule)>) -> Map<Seq<char>, (Seq<char>, Seq<char>)>
    decreases s.len(),
{
    if s.len() == 0 {
        Map::empty()
    } else {
        entries_view(s.drop_last()).insert(s.last().0@, s.last().1@)
    }
}

/// The number of different extensions among the entries.
pub open spec fn distinct_keys(s: Seq<(String, Rule)>) -> nat
    decreases s.len(),
{
    if s.len() == 0 {
        0
    } else if entries_view(s.drop_last()).dom().contains(s.last().0@) {
        distinct_keys(s.drop_last())
    } else {
        distinct_keys(s.drop_last()) + 1
    }
}

/// An extension is mapped exactly when some entry names it.
pub proof fn lemma_entries_dom(s: Seq<(String, Rule)>, k: Seq<char>)
    ensures
        entries_view(s).dom().contains(k) <==> exists|i: int| 0 <= i < s.len() && #[trigger] s[i].0@ == k,
    decreases s.len(),
{
    if s.len() > 0 {
        lemma_entries_dom(s.drop_last(), k);
        if entries_view(s).dom().contains(k) && s.last().0@ != k {
            let i = choose|i: int| 0 <= i < s.len() - 1 && #[trigger] s.drop_last()[i].0@ == k;
            assert(s[i].0@ == k);
        }
        if exists|i: int| 0 <= i < s.len() && #[trigger] s[i].0@ == k {
            let i = choose|i: int| 0 <= i < s.len() && #[trigger] s[i].0@ == k;
            if i < s.len() - 1 {
                assert(s.drop_last()[i].0@ == k);
            }
        }
    }
}

/// The value of an extension is that of its last entry.
pub proof fn lemma_entries_lookup(s: Seq<(String, Rule)>, i: int)
    requires
        0 <= i < s.len(),
        forall|j: int| i < j < s.len() ==> #[trigger] s[j].0@ != s[i].0@,
    ensures
        entries_view(s).dom().contains(s[i].0@),
        entries_view(s)[s[i].0@] == s[i].1@,
    decreases s.len(),
{
    if i < s.len() - 1 {
        assert(s.last().0@ != s[i].0@);
        let t = s.drop_last();
        assert(forall|j: int| i < j < t.len() ==> #[trigger] t[j].0@ == s[j].0@);
        lemma_entries_lookup(t, i);
    }
}

/// Entries appended after others override them.
pub proof fn lemma_entries_append(a: Seq<(String, Rule)>, b: Seq<(String, Rule)>)
    ensures
        entries_view(a + b) == entries_view(a).union_prefer_right(entries_view(b)),
    decreases b.len(),
{
    if b.len() == 0 {
        assert(a + b =~= a);
        assert(entries_view(a).union_prefer_right(Map::empty()) =~= entries_view(a));
    } else {
        lemma_entries_append(a, b.drop_last());
        assert((a + b).drop_last() =~= a + b.drop_last());
        assert((a + b).last() == b.last());
        assert(entries_view(a + b) =~= entries_view(a).union_prefer_right(entries_view(b)));
    }
}

/// The number of different extensions is the size of the map.
pub proof fn lemma_distinct_keys_len(s: Seq<(String, Rule)>)
    ensures
        entries_view(s).dom().finite(),
        entries_view(s).dom().len() == distinct_keys(s),
    decreases s.len(),
{
    if s.len() > 0 {
        lemma_distinct_keys_len(s.drop_last());
        let d = entries_view(s.drop_last()).dom();
        assert(entries_view(s).dom() =~= d.insert(s.last().0@));
    }
}

/// Merging: every extension the user lists gets the user's rule.
pub proof fn law_merge_user_rule_wins(
    base: Map<Seq<char>, (Seq<char>, Seq<char>)>,
    user: Map<Seq<char>, (Seq<char>, Seq<char>)>,
    ext: Seq<char>,
)
    requires
        user.dom().contains(ext),
    ensures
        base.union_prefer_right(user).dom().contains(ext),
        base.union_prefer_right(user)[ext] == user[ext],
{
}

/// Merging: an extension the user does not list keeps its built-in rule.
pub proof fn law_merge_keeps_unlisted_rule(
    base: Map<Seq<char>, (Seq<char>, Seq<char>)>,
    user: Map<Seq<char>, (Seq<char>, Seq<char>)>,
    ext: Seq<char>,
)
    requires
        base.dom().contains(ext),
        !user.dom().contains(ext),
    ensures
        base.union_prefer_right(user).dom().contains(ext),
        base.union_prefer_right(user)[ext] == base[ext],
{
}

/// Merging adds no extension that neither table has.
pub proof fn law_merge_domain(
    base: Map<Seq<char>, (Seq<char>, Seq<char>)>,
    user: Map<Seq<char>, (Seq<char>, Seq<char>)>,
)
    ensures
        base.union_prefer_right(user).dom() == base.dom().union(user.dom()),
{
    assert(base.union_prefer_right(user).dom() =~= base.dom().union(user.dom()));
}

/// Merging an empty user table changes nothing.
pub proof fn law_merge_empty_user(base: Map<Seq<char>, (Seq<char>, Seq<char>)>)
    ensures
        base.union_prefer_right(Map::empty()) == base,
{
    assert(base.union_prefer_right(Map::empty()) =~= base);
}

/// A rule read back after it was written is the rule written.
pub proof fn law_get_after_insert(
    rules: Map<Seq<char>, (Seq<char>, Seq<char>)>,
    ext: Seq<char>,
    rule: (Seq<char>, Seq<char>),
    other: Seq<char>,
)
    ensures
        rules.insert(ext, rule).dom().contains(ext),
        rules.insert(ext, rule)[ext] == rule,
        other != ext ==> (rules.insert(ext, rule).dom().contains(other) == rules.dom().contains(
            other,
        ) && (rules.dom().contains(other) ==> rules.insert(ext, rule)[other] == rules[other])),
{
}

/// Configuration mapping file extensions to sorting rules.
#[derive(Debug)]
pub struct RulesConfig {
    entries: Vec<(String, Rule)>,
}

impl View for RulesConfig {
    type V = Map<Seq<char>, (Seq<char>, Seq<char>)>;

    closed spec fn view(&self) -> Map<Seq<char>, (Seq<char>, Seq<char>)> {
        entries_view(self.entries@)
    }
}

impl RulesConfig {
    /// A rules table without any rule.
    pub fn new() -> (r: RulesConfig)
        ensures
            r@ == Map::<Seq<char>, (Seq<char>, Seq<char>)>::empty(),
    {
        RulesConfig { entries: Vec::new() }
    }

    /// Adds (or overrides) the rule for `extension`.
    pub fn insert(&mut self, extension: String, rule: Rule)
        ensures
            final(self)@ == old(self)@.insert(extension@, rule@),
    {
        let ghost k = extension@;
        let ghost v = rule@;
        self.entries.push((extension, rule));
        proof {
            assert(self.entries@.drop_last() =~= old(self).entries@);
        }
    }

    /// Adds (or overrides) the rule `extension → (category, subcategory)`.
    pub fn add(&mut self, extension: &str, category: &str, subcategory: &str)
        ensures
            final(self)@ == old(self)@.insert(extension@, (category@, subcategory@)),
    {
        self.insert(String::from_str(extension), Rule::new(category, subcategory));
    }

    /// The rule for exactly `extension`, if there is one.
    pub fn get(&self, extension: &str) -> (r: Option<&Rule>)
        ensures
            r matches Some(rule) ==> self@.dom().contains(extension@) && rule@ == self@[extension@],
            r is None ==> !self@.dom().contains(extension@),
    {
        let n = self.entries.len();
        let mut i: usize = n;
        while i > 0
            invariant
                n == self.entries@.len(),
                i <= n,
                forall|j: int| i <= j < n ==> #[trigger] self.entries@[j].0@ != extension@,
            decreases i,
        {
            let e = &self.entries[i - 1];
            if str_eq(e.0.as_str(), extension) {
                proof {
                    lemma_entries_lookup(self.entries@, i - 1);
                }
                return Some(&e.1);
            }
            i = i - 1;
        }
        proof {
            lemma_entries_dom(self.entries@, extension@);
        }
        None
    }

    /// Whether some rule exists for exactly `extension`.
    pub fn contains(&self, extension: &str) -> (r: bool)
        ensures
            r == self@.dom().contains(extension@),
    {
        self.get(extension).is_some()
    }

    /// The number of extensions that have a rule.
    pub fn len(&self) -> (r: usize)
        ensures
            r == self@.dom().len(),
    {
        let n = self.entries.len();
        let mut count: usize = 0;
        let mut i: usize = 0;
        while i < n
            invariant
                n == self.entries@.len(),
                i <= n,
                count == distinct_keys(self.entries@.take(i as int)),
                count <= i,
            decreases n - i,
        {
            let mut seen = false;
            let mut j: usize = 0;
            while j < i
                invariant
                    n == self.entries@.len(),
                    j <= i < n,
                    seen == exists|t: int| 0 <= t < j && #[trigger] self.entries@[t].0@
                        == self.entries@[i as int].0@,
                decreases i - j,
            {
                if str_eq(self.entries[j].0.as_str(), self.entries[i].0.as_str()) {
                    seen = true;
                }
                j = j + 1;
            }
            proof {
                let s = self.entries@.take(i + 1);
                assert(s.drop_last() =~= self.entries@.take(i as int));
                assert(s.last() == self.entries@[i as int]);
                lemma_entries_dom(s.drop_last(), self.entries@[i as int].0@);
                assert(forall|t: int| 0 <= t < i ==> s.drop_last()[t] == self.entries@[t]);
                let k = s.last().0@;
                let d = s.drop_last();
                if seen {
                    let t = choose|t: int| 0 <= t < i && #[trigger] self.entries@[t].0@ == k;
                    assert(d[t].0@ == k);
                }
                if entries_view(d).dom().contains(k) {
                    let t = choose|t: int| 0 <= t < d.len() && #[trigger] d[t].0@ == k;
                    assert(self.entries@[t].0@ == k);
                }
                assert(seen == entries_view(d).dom().contains(k));
            }
            if !seen {
                count = count + 1;
            }
            i = i + 1;
        }
        proof {
            assert(self.entries@.take(n as int) =~= self.entries@);
            lemma_distinct_keys_len(self.entries@);
        }
        count
    }

    /// Whether no extension has a rule.
    pub fn is_empty(&self) -> (r: bool)
        ensures
            r == (self@.dom().len() == 0),
    {
        self.len() == 0
    }

    /// Merge `user` into this table: the user's rule wins for every extension
    /// it lists, and every other extension keeps this table's rule.
    pub fn merge(self, user: RulesConfig) -> (r: RulesConfig)
        ensures
            r@ == self@.union_prefer_right(user@),
    {
        let mut merged = self;
        let mut user = user;
        let ghost a = merged.entries@;
        let ghost b = user.entries@;
        merged.entries.append(&mut user.entries);
        proof {
            assert(merged.entries@ =~= a + b);
            lemma_entries_append(a, b);
        }
        merged
    }

    /// The extensions that have a rule, each once. Their order is not part
    /// of the contract (a hash map's keys have none); callers that need one
    /// sort them.
    pub fn extensions(&self) -> (r: Vec<String>)
        ensures
            r@.map_values(|s: String| s@).to_set() == self@.dom(),
            r@.map_values(|s: String| s@).no_duplicates(),
    {
        let n = self.entries.len();
        let mut out: Vec<String> = Vec::new();
        let mut i: usize = 0;
        while i < n
            invariant
                n == self.entries@.len(),
                i <= n,
                out@.map_values(|s: String| s@).to_set() == entries_view(
                    self.entries@.take(i as int),
                ).dom(),
                out@.map_values(|s: String| s@).no_duplicates(),
            decreases n - i,
        {
            let ghost before = out@.map_values(|s: String| s@);
            let key = &self.entries[i].0;
            let mut seen = false;
            let mut j: usize = 0;
            while j < out.len()
                invariant
                    j <= out@.len(),
                    before == out@.map_values(|s: String| s@),
                    seen == exists|t: int| 0 <= t < j && before[t] == key@,
                decreases out@.len() - j,
            {
                proof {
                    assert(before[j as int] == out@[j as int]@);
                }
                if str_eq(out[j].as_str(), key.as_str()) {
                    seen = true;
                }
                j = j + 1;
            }
            proof {
                let s = self.entries@.take(i + 1);
                assert(s.drop_last() =~= self.entries@.take(i as int));
                assert(s.last() == self.entries@[i as int]);
                assert(seen == before.contains(key@));
            }
            if !seen {
                out.push(key.clone());
                proof {
                    let after = out@.map_values(|s: String| s@);
                    assert(after =~= before.push(key@));
                    assert(after.to_set() =~= before.to_set().insert(key@)) by {
                        before.lemma_push_to_set_commute(key@);
                    }
                }
            } else {
                assert(entries_view(self.entries@.take(i + 1)).dom() =~= entries_view(
                    self.entries@.take(i as int),
                ).dom());
            }
            i = i + 1;
        }
        proof {
            assert(self.entries@.take(n as int) =~= self.entries@);
        }
        out
    }
}

/// The built-in rules, one per extension.
pub open spec fn default_rules_map() -> Map<Seq<char>, (Seq<char>, Seq<char>)> {
    Map::empty()
        .insert("pdf"@, ("Documents"@, "PDF"@))
        .insert("doc"@, ("Documents"@, "Word"@))
        .insert("docx"@, ("Documents"@, "Word"@))
        .insert("odt"@, ("Documents"@, "Word"@))
        .insert("rtf"@, ("Documents"@, "Word"@))
        .insert("txt"@, ("Documents"@, "Text"@))
        .insert("md"@, ("Documents"@, "Text"@))
        .insert("tex"@, ("Documents"@, "LaTeX"@))
        .insert("ppt"@, ("Documents"@, "Presentations"@))
        .insert("pptx"@, ("Documents"@, "Presentations"@))
        .insert("xls"@, ("Documents"@, "Spreadsheets"@))
        .insert("xlsx"@, ("Documents"@, "Spreadsheets"@))
        .insert("csv"@, ("Documents"@, "Data"@))
        .insert("json"@, ("Documents"@, "Data"@))
        .insert("xml"@, ("Documents"@, "Data"@))
        .insert("yaml"@, ("Documents"@, "Data"@))
        .insert("yml"@, ("Documents"@, "Data"@))
        .insert("jpg"@, ("Media"@, "Images"@))
        .insert("jpeg"@, ("Media"@, "Images"@))
        .insert("png"@, ("Media"@, "Images"@))
        .insert("gif"@, ("Media"@, "Images"@))
        .insert("bmp"@, ("Media"@, "Images"@))
        .insert("webp"@, ("Media"@, "Images"@))
        .insert("tiff"@, ("Media"@, "Images"@))
        .insert("svg"@, ("Media"@, "Images/Vectors"@))
        .insert("psd"@, ("Media"@, "Images/Photoshop"@))
        .insert("ai"@, ("Media"@, "Images/Illustrator"@))
        .insert("indd"@, ("Media"@, "Images/InDesign"@))
        .insert("mp3"@, ("Media"@, "Audio"@))
        .insert("wav"@, ("Media"@, "Audio"@))
        .insert("flac"@, ("Media"@, "Audio"@))
        .insert("aac"@, ("Media"@, "Audio"@))
        .insert("ogg"@, ("Media"@, "Audio"@))
        .insert("m4a"@, ("Media"@, "Audio"@))
        .insert("mp4"@, ("Media"@, "Videos"@))
        .insert("mkv"@, ("Media"@, "Videos"@))
        .insert("avi"@, ("Media"@, "Videos"@))
        .insert("mov"@, ("Media"@, "Videos"@))
        .insert("webm"@, ("Media"@, "Videos"@))
        .insert("zip"@, ("Archives"@, "Archives"@))
        .insert("rar"@, ("Archives"@, "Archives"@))
        .insert("7z"@, ("Archives"@, "Archives"@))
        .insert("tar"@, ("Archives"@, "Archives"@))
        .insert("gz"@, ("Archives"@, "Archives"@))
        .insert("bz2"@, ("Archives"@, "Archives"@))
        .insert("xz"@, ("Archives"@, "Archives"@))
        .insert("deb"@, ("Packages"@, "Packages"@))
        .insert("rpm"@, ("Packages"@, "Packages"@))
        .insert("exe"@, ("Packages"@, "Packages"@))
        .insert("msi"@, ("Packages"@, "Packages"@))
        .insert("dmg"@, ("Packages"@, "Packages"@))
        .insert("appimage"@, ("Packages"@, "Packages"@))
        .insert("sh"@, ("Development"@, "Scripts"@))
        .insert("bash"@, ("Development"@, "Scripts"@))
        .insert("bat"@, ("Development"@, "Scripts"@))
        .insert("py"@, ("Development"@, "Python"@))
        .insert("ipynb"@, ("Development"@, "Python"@))
        .insert("js"@, ("Development"@, "JavaScript"@))
        .insert("ts"@, ("Development"@, "TypeScript"@))
        .insert("java"@, ("Development"@, "Java"@))
        .insert("jar"@, ("Development"@, "Java"@))
        .insert("c"@, ("Development"@, "C"@))
        .insert("h"@, ("Development"@, "C"@))
        .insert("cpp"@, ("Development"@, "C++"@))
        .insert("cs"@, ("Development"@, "C#"@))
        .insert("go"@, ("Development"@, "Go"@))
        .insert("rs"@, ("Development"@, "Rust"@))
        .insert("html"@, ("Development"@, "Web"@))
        .insert("css"@, ("Development"@, "Web"@))
        .insert("sql"@, ("Development"@, "Databases"@))
        .insert("db"@, ("Development"@, "Databases"@))
        .insert("sqlite"@, ("Development"@, "Databases"@))
        .insert("dockerfile"@, ("Development"@, "Docker"@))
        .insert("torrent"@, ("Other"@, "Torrents"@))
        .insert("iso"@, ("Other"@, "DiskImages"@))
        .insert("img"@, ("Other"@, "DiskImages"@))
        .insert("vdi"@, ("Other"@, "VirtualMachines"@))
        .insert("vmdk"@, ("Other"@, "VirtualMachines"@))
        .insert("ova"@, ("Other"@, "VirtualMachines"@))
}

/// The built-in rules put each documented extension in its documented
/// category: documents (`pdf`, `docx`, `txt`, `tex`, `pptx`, `xlsx`, `csv`),
/// images (`jpg`, `jpeg`, `png`, `gif`, `bmp`, `webp`, `tiff`, and `svg`,
/// `psd` in their own subfolders), audio, video, archives, packages, source
/// code, and the other kinds.
#[verifier::rlimit(50)]
pub proof fn law_builtin_rules_by_category()
    ensures
        default_rules_map().dom().contains("pdf"@),
        default_rules_map()["pdf"@] == ("Documents"@, "PDF"@),
        default_rules_map().dom().contains("docx"@),
        default_rules_map()["docx"@] == ("Documents"@, "Word"@),
        default_rules_map().dom().contains("txt"@),
        default_rules_map()["txt"@] == ("Documents"@, "Text"@),
        default_rules_map().dom().contains("tex"@),
        default_rules_map()["tex"@] == ("Documents"@, "LaTeX"@),
        default_rules_map().dom().contains("pptx"@),
        default_rules_map()["pptx"@] == ("Documents"@, "Presentations"@),
        default_rules_map().dom().contains("xlsx"@),
        default_rules_map()["xlsx"@] == ("Documents"@, "Spreadsheets"@),
        default_rules_map().dom().contains("csv"@),
        default_rules_map()["csv"@] == ("Documents"@, "Data"@),
        default_rules_map().dom().contains("jpg"@),
        default_rules_map()["jpg"@] == ("Media"@, "Images"@),
        default_rules_map().dom().contains("jpeg"@),
        default_rules_map()["jpeg"@] == ("Media"@, "Images"@),
        default_rules_map().dom().contains("png"@),
        default_rules_map()["png"@] == ("Media"@, "Images"@),
        default_rules_map().dom().contains("gif"@),
        default_rules_map()["gif"@] == ("Media"@, "Images"@),
        default_rules_map().dom().contains("bmp"@),
        default_rules_map()["bmp"@] == ("Media"@, "Images"@),
        default_rules_map().dom().contains("webp"@),
        default_rules_map()["webp"@] == ("Media"@, "Images"@),
        default_rules_map().dom().contains("tiff"@),
        default_rules_map()["tiff"@] == ("Media"@, "Images"@),
        default_rules_map().dom().contains("svg"@),
        default_rules_map()["svg"@] == ("Media"@, "Images/Vectors"@),
        default_rules_map().dom().contains("psd"@),
        default_rules_map()["psd"@] == ("Media"@, "Images/Photoshop"@),
        default_rules_map().dom().contains("mp3"@),
        default_rules_map()["mp3"@] == ("Media"@, "Audio"@),
        default_rules_map().dom().contains("mp4"@),
        default_rules_map()["mp4"@] == ("Media"@, "Videos"@),
        default_rules_map().dom().contains("zip"@),
        default_rules_map()["zip"@] == ("Archives"@, "Archives"@),
        default_rules_map().dom().contains("rar"@),
        default_rules_map()["rar"@] == ("Archives"@, "Archives"@),
        default_rules_map().dom().contains("7z"@),
        default_rules_map()["7z"@] == ("Archives"@, "Archives"@),
        default_rules_map().dom().contains("gz"@),
        default_rules_map()["gz"@] == ("Archives"@, "Archives"@),
        default_rules_map().dom().contains("deb"@),
        default_rules_map()["deb"@] == ("Packages"@, "Packages"@),
        default_rules_map().dom().contains("rpm"@),
        default_rules_map()["rpm"@] == ("Packages"@, "Packages"@),
        default_rules_map().dom().contains("exe"@),
        default_rules_map()["exe"@] == ("Packages"@, "Packages"@),
        default_rules_map().dom().contains("dmg"@),
        default_rules_map()["dmg"@] == ("Packages"@, "Packages"@),
        default_rules_map().dom().contains("appimage"@),
        default_rules_map()["appimage"@] == ("Packages"@, "Packages"@),
        default_rules_map().dom().contains("py"@),
        default_rules_map()["py"@] == ("Development"@, "Python"@),
        default_rules_map().dom().contains("js"@),
        default_rules_map()["js"@] == ("Development"@, "JavaScript"@),
        default_rules_map().dom().contains("ts"@),
        default_rules_map()["ts"@] == ("Development"@, "TypeScript"@),
        default_rules_map().dom().contains("rs"@),
        default_rules_map()["rs"@] == ("Development"@, "Rust"@),
        default_rules_map().dom().contains("go"@),
        default_rules_map()["go"@] == ("Development"@, "Go"@),
        default_rules_map().dom().contains("html"@),
        default_rules_map()["html"@] == ("Development"@, "Web"@),
        default_rules_map().dom().contains("sql"@),
        default_rules_map()["sql"@] == ("Development"@, "Databases"@),
        default_rules_map().dom().contains("dockerfile"@),
        default_rules_map()["dockerfile"@] == ("Development"@, "Docker"@),
        default_rules_map().dom().contains("torrent"@),
        default_rules_map()["torrent"@] == ("Other"@, "Torrents"@),
        default_rules_map().dom().contains("iso"@),
        default_rules_map()["iso"@] == ("Other"@, "DiskImages"@),
        default_rules_map().dom().contains("vdi"@),
        default_rules_map()["vdi"@] == ("Other"@, "VirtualMachines"@),
{
    reveal_strlit("pdf");
    assert("pdf"@.len() == 3);
    assert("pdf"@[0] == 'p');
    assert("pdf"@[1] == 'd');
    assert("pdf"@[2] == 'f');
    reveal_strlit("doc");
    assert("doc"@.len() == 3);
    assert("doc"@[0] == 'd');
    assert("doc"@[1] == 'o');
    assert("doc"@[2] == 'c');
    reveal_strlit("docx");
    assert("docx"@.len() == 4);
    assert("docx"@[0] == 'd');
    assert("docx"@[1] == 'o');
    assert("docx"@[2] == 'c');
    assert("docx"@[3] == 'x');
    reveal_strlit("odt");
    assert("odt"@.len() == 3);
    assert("odt"@[0] == 'o');
    assert("odt"@[1] == 'd');
    assert("odt"@[2] == 't');
    reveal_strlit("rtf");
    assert("rtf"@.len() == 3);
    assert("rtf"@[0] == 'r');
    assert("rtf"@[1] == 't');
    assert("rtf"@[2] == 'f');
    reveal_strlit("txt");
    assert("txt"@.len() == 3);
    assert("txt"@[0] == 't');
    assert("txt"@[1] == 'x');
    assert("txt"@[2] == 't');
    reveal_strlit("md");
    assert("md"@.len() == 2);
    assert("md"@[0] == 'm');
    assert("md"@[1] == 'd');
    reveal_strlit("tex");
    assert("tex"@.len() == 3);
    assert("tex"@[0] == 't');
    assert("tex"@[1] == 'e');
    assert("tex"@[2] == 'x');
    reveal_strlit("ppt");
    assert("ppt"@.len() == 3);
    assert("ppt"@[0] == 'p');
    assert("ppt"@[1] == 'p');
    assert("ppt"@[2] == 't');
    reveal_strlit("pptx");
    assert("pptx"@.len() == 4);
    assert("pptx"@[0] == 'p');
    assert("pptx"@[1] == 'p');
    assert("pptx"@[2] == 't');
    assert("pptx"@[3] == 'x');
    reveal_strlit("xls");
    assert("xls"@.len() == 3);
    assert("xls"@[0] == 'x');
    assert("xls"@[1] == 'l');
    assert("xls"@[2] == 's');
    reveal_strlit("xlsx");
    assert("xlsx"@.len() == 4);
    assert("xlsx"@[0] == 'x');
    assert("xlsx"@[1] == 'l');
    assert("xlsx"@[2] == 's');
    assert("xlsx"@[3] == 'x');
    reveal_strlit("csv");
    assert("csv"@.len() == 3);
    assert("csv"@[0] == 'c');
    assert("csv"@[1] == 's');
    assert("csv"@[2] == 'v');
    reveal_strlit("json");
    assert("json"@.len() == 4);
    assert("json"@[0] == 'j');
    assert("json"@[1] == 's');
    assert("json"@[2] == 'o');
    assert("json"@[3] == 'n');
    reveal_strlit("xml");
    assert("xml"@.len() == 3);
    assert("xml"@[0] == 'x');
    assert("xml"@[1] == 'm');
    assert("xml"@[2] == 'l');
    reveal_strlit("yaml");
    assert("yaml"@.len() == 4);
    assert("yaml"@[0] == 'y');
    assert("yaml"@[1] == 'a');
    assert("yaml"@[2] == 'm');
    assert("yaml"@[3] == 'l');
    reveal_strlit("yml");
    assert("yml"@.len() == 3);
    assert("yml"@[0] == 'y');
    assert("yml"@[1] == 'm');
    assert("yml"@[2] == 'l');
    reveal_strlit("jpg");
    assert("jpg"@.len() == 3);
    assert("jpg"@[0] == 'j');
    assert("jpg"@[1] == 'p');
    assert("jpg"@[2] == 'g');
    reveal_strlit("jpeg");
    assert("jpeg"@.len() == 4);
    assert("jpeg"@[0] == 'j');
    assert("jpeg"@[1] == 'p');
    assert("jpeg"@[2] == 'e');
    assert("jpeg"@[3] == 'g');
    reveal_strlit("png");
    assert("png"@.len() == 3);
    assert("png"@[0] == 'p');
    assert("png"@[1] == 'n');
    assert("png"@[2] == 'g');
    reveal_strlit("gif");
    assert("gif"@.len() == 3);
    assert("gif"@[0] == 'g');
    assert("gif"@[1] == 'i');
    assert("gif"@[2] == 'f');
    reveal_strlit("bmp");
    assert("bmp"@.len() == 3);
    assert("bmp"@[0] == 'b');
    assert("bmp"@[1] == 'm');
    assert("bmp"@[2] == 'p');
    reveal_strlit("webp");
    assert("webp"@.len() == 4);
    assert("webp"@[0] == 'w');
    assert("webp"@[1] == 'e');
    assert("webp"@[2] == 'b');
    assert("webp"@[3] == 'p');
    reveal_strlit("tiff");
    assert("tiff"@.len() == 4);
    assert("tiff"@[0] == 't');
    assert("tiff"@[1] == 'i');
    assert("tiff"@[2] == 'f');
    assert("tiff"@[3] == 'f');
    reveal_strlit("svg");
    assert("svg"@.len() == 3);
    assert("svg"@[0] == 's');
    assert("svg"@[1] == 'v');
    assert("svg"@[2] == 'g');
    reveal_strlit("psd");
    assert("psd"@.len() == 3);
    assert("psd"@[0] == 'p');
    assert("psd"@[1] == 's');
    assert("psd"@[2] == 'd');
    reveal_strlit("ai");
    assert("ai"@.len() == 2);
    assert("ai"@[0] == 'a');
    assert("ai"@[1] == 'i');
    reveal_strlit("indd");
    assert("indd"@.len() == 4);
    assert("indd"@[0] == 'i');
    assert("indd"@[1] == 'n');
    assert("indd"@[2] == 'd');
    assert("indd"@[3] == 'd');
    reveal_strlit("mp3");
    assert("mp3"@.len() == 3);
    assert("mp3"@[0] == 'm');
    assert("mp3"@[1] == 'p');
    assert("mp3"@[2] == '3');
    reveal_strlit("wav");
    assert("wav"@.len() == 3);
    assert("wav"@[0] == 'w');
    assert("wav"@[1] == 'a');
    assert("wav"@[2] == 'v');
    reveal_strlit("flac");
    assert("flac"@.len() == 4);
    assert("flac"@[0] == 'f');
    assert("flac"@[1] == 'l');
    assert("flac"@[2] == 'a');
    assert("flac"@[3] == 'c');
    reveal_strlit("aac");
    assert("aac"@.len() == 3);
    assert("aac"@[0] == 'a');
    assert("aac"@[1] == 'a');
    assert("aac"@[2] == 'c');
    reveal_strlit("ogg");
    assert("ogg"@.len() == 3);
    assert("ogg"@[0] == 'o');
    assert("ogg"@[1] == 'g');
    assert("ogg"@[2] == 'g');
    reveal_strlit("m4a");
    assert("m4a"@.len() == 3);
    assert("m4a"@[0] == 'm');
    assert("m4a"@[1] == '4');
    assert("m4a"@[2] == 'a');
    reveal_strlit("mp4");
    assert("mp4"@.len() == 3);
    assert("mp4"@[0] == 'm');
    assert("mp4"@[1] == 'p');
    assert("mp4"@[2] == '4');
    reveal_strlit("mkv");
    assert("mkv"@.len() == 3);
    assert("mkv"@[0] == 'm');
    assert("mkv"@[1] == 'k');
    assert("mkv"@[2] == 'v');
    reveal_strlit("avi");
    assert("avi"@.len() == 3);
    assert("avi"@[0] == 'a');
    assert("avi"@[1] == 'v');
    assert("avi"@[2] == 'i');
    reveal_strlit("mov");
    assert("mov"@.len() == 3);
    assert("mov"@[0] == 'm');
    assert("mov"@[1] == 'o');
    assert("mov"@[2] == 'v');
    reveal_strlit("webm");
    assert("webm"@.len() == 4);
    assert("webm"@[0] == 'w');
    assert("webm"@[1] == 'e');
    assert("webm"@[2] == 'b');
    assert("webm"@[3] == 'm');
    reveal_strlit("zip");
    assert("zip"@.len() == 3);
    assert("zip"@[0] == 'z');
    assert("zip"@[1] == 'i');
    assert("zip"@[2] == 'p');
    reveal_strlit("rar");
    assert("rar"@.len() == 3);
    assert("rar"@[0] == 'r');
    assert("rar"@[1] == 'a');
    assert("rar"@[2] == 'r');
    reveal_strlit("7z");
    assert("7z"@.len() == 2);
    assert("7z"@[0] == '7');
    assert("7z"@[1] == 'z');
    reveal_strlit("tar");
    assert("tar"@.len() == 3);
    assert("tar"@[0] == 't');
    assert("tar"@[1] == 'a');
    assert("tar"@[2] == 'r');
    reveal_strlit("gz");
    assert("gz"@.len() == 2);
    assert("gz"@[0] == 'g');
    assert("gz"@[1] == 'z');
    reveal_strlit("bz2");
    assert("bz2"@.len() == 3);
    assert("bz2"@[0] == 'b');
    assert("bz2"@[1] == 'z');
    assert("bz2"@[2] == '2');
    reveal_strlit("xz");
    assert("xz"@.len() == 2);
    assert("xz"@[0] == 'x');
    assert("xz"@[1] == 'z');
    reveal_strlit("deb");
    assert("deb"@.len() == 3);
    assert("deb"@[0] == 'd');
    assert("deb"@[1] == 'e');
    assert("deb"@[2] == 'b');
    reveal_strlit("rpm");
    assert("rpm"@.len() == 3);
    assert("rpm"@[0] == 'r');
    assert("rpm"@[1] == 'p');
    assert("rpm"@[2] == 'm');
    reveal_strlit("exe");
    assert("exe"@.len() == 3);
    assert("exe"@[0] == 'e');
    assert("exe"@[1] == 'x');
    assert("exe"@[2] == 'e');
    reveal_strlit("msi");
    assert("msi"@.len() == 3);
    assert("msi"@[0] == 'm');
    assert("msi"@[1] == 's');
    assert("msi"@[2] == 'i');
    reveal_strlit("dmg");
    assert("dmg"@.len() == 3);
    assert("dmg"@[0] == 'd');
    assert("dmg"@[1] == 'm');
    assert("dmg"@[2] == 'g');
    reveal_strlit("appimage");
    assert("appimage"@.len() == 8);
    assert("appimage"@[0] == 'a');
    assert("appimage"@[1] == 'p');
    assert("appimage"@[2] == 'p');
    assert("appimage"@[3] == 'i');
    assert("appimage"@[4] == 'm');
    assert("appimage"@[5] == 'a');
    assert("appimage"@[6] == 'g');
    assert("appimage"@[7] == 'e');
    reveal_strlit("sh");
    assert("sh"@.len() == 2);
    assert("sh"@[0] == 's');
    assert("sh"@[1] == 'h');
    reveal_strlit("bash");
    assert("bash"@.len() == 4);
    assert("bash"@[0] == 'b');
    assert("bash"@[1] == 'a');
    assert("bash"@[2] == 's');
    assert("bash"@[3] == 'h');
    reveal_strlit("bat");
    assert("bat"@.len() == 3);
    assert("bat"@[0] == 'b');
    assert("bat"@[1] == 'a');
    assert("bat"@[2] == 't');
    reveal_strlit("py");
    assert("py"@.len() == 2);
    assert("py"@[0] == 'p');
    assert("py"@[1] == 'y');
    reveal_strlit("ipynb");
    assert("ipynb"@.len() == 5);
    assert("ipynb"@[0] == 'i');
    assert("ipynb"@[1] == 'p');
    assert("ipynb"@[2] == 'y');
    assert("ipynb"@[3] == 'n');
    assert("ipynb"@[4] == 'b');
    reveal_strlit("js");
    assert("js"@.len() == 2);
    assert("js"@[0] == 'j');
    assert("js"@[1] == 's');
    reveal_strlit("ts");
    assert("ts"@.len() == 2);
    assert("ts"@[0] == 't');
    assert("ts"@[1] == 's');
    reveal_strlit("java");
    assert("java"@.len() == 4);
    assert("java"@[0] == 'j');
    assert("java"@[1] == 'a');
    assert("java"@[2] == 'v');
    assert("java"@[3] == 'a');
    reveal_strlit("jar");
    assert("jar"@.len() == 3);
    assert("jar"@[0] == 'j');
    assert("jar"@[1] == 'a');
    assert("jar"@[2] == 'r');
    reveal_strlit("c");
    assert("c"@.len() == 1);
    assert("c"@[0] == 'c');
    reveal_strlit("h");
    assert("h"@.len() == 1);
    assert("h"@[0] == 'h');
    reveal_strlit("cpp");
    assert("cpp"@.len() == 3);
    assert("cpp"@[0] == 'c');
    assert("cpp"@[1] == 'p');
    assert("cpp"@[2] == 'p');
    reveal_strlit("cs");
    assert("cs"@.len() == 2);
    assert("cs"@[0] == 'c');
    assert("cs"@[1] == 's');
    reveal_strlit("go");
    assert("go"@.len() == 2);
    assert("go"@[0] == 'g');
    assert("go"@[1] == 'o');
    reveal_strlit("rs");
    assert("rs"@.len() == 2);
    assert("rs"@[0] == 'r');
    assert("rs"@[1] == 's');
    reveal_strlit("html");
    assert("html"@.len() == 4);
    assert("html"@[0] == 'h');
    assert("html"@[1] == 't');
    assert("html"@[2] == 'm');
    assert("html"@[3] == 'l');
    reveal_strlit("css");
    assert("css"@.len() == 3);
    assert("css"@[0] == 'c');
    assert("css"@[1] == 's');
    assert("css"@[2] == 's');
    reveal_strlit("sql");
    assert("sql"@.len() == 3);
    assert("sql"@[0] == 's');
    assert("sql"@[1] == 'q');
    assert("sql"@[2] == 'l');
    reveal_strlit("db");
    assert("db"@.len() == 2);
    assert("db"@[0] == 'd');
    assert("db"@[1] == 'b');
    reveal_strlit("sqlite");
    assert("sqlite"@.len() == 6);
    assert("sqlite"@[0] == 's');
    assert("sqlite"@[1] == 'q');
    assert("sqlite"@[2] == 'l');
    assert("sqlite"@[3] == 'i');
    assert("sqlite"@[4] == 't');
    assert("sqlite"@[5] == 'e');
    reveal_strlit("dockerfile");
    assert("dockerfile"@.len() == 10);
    assert("dockerfile"@[0] == 'd');
    assert("dockerfile"@[1] == 'o');
    assert("dockerfile"@[2] == 'c');
    assert("dockerfile"@[3] == 'k');
    assert("dockerfile"@[4] == 'e');
    assert("dockerfile"@[5] == 'r');
    assert("dockerfile"@[6] == 'f');
    assert("dockerfile"@[7] == 'i');
    assert("dockerfile"@[8] == 'l');
    assert("dockerfile"@[9] == 'e');
    reveal_strlit("torrent");
    assert("torrent"@.len() == 7);
    assert("torrent"@[0] == 't');
    assert("torrent"@[1] == 'o');
    assert("torrent"@[2] == 'r');
    assert("torrent"@[3] == 'r');
    assert("torrent"@[4] == 'e');
    assert("torrent"@[5] == 'n');
    assert("torrent"@[6] == 't');
    reveal_strlit("iso");
    assert("iso"@.len() == 3);
    assert("iso"@[0] == 'i');
    assert("iso"@[1] == 's');
    assert("iso"@[2] == 'o');
    reveal_strlit("img");
    assert("img"@.len() == 3);
    assert("img"@[0] == 'i');
    assert("img"@[1] == 'm');
    assert("img"@[2] == 'g');
    reveal_strlit("vdi");
    assert("vdi"@.len() == 3);
    assert("vdi"@[0] == 'v');
    assert("vdi"@[1] == 'd');
    assert("vdi"@[2] == 'i');
    reveal_strlit("vmdk");
    assert("vmdk"@.len() == 4);
    assert("vmdk"@[0] == 'v');
    assert("vmdk"@[1] == 'm');
    assert("vmdk"@[2] == 'd');
    assert("vmdk"@[3] == 'k');
    reveal_strlit("ova");
    assert("ova"@.len() == 3);
    assert("ova"@[0] == 'o');
    assert("ova"@[1] == 'v');
    assert("ova"@[2] == 'a');
}

impl Default for RulesConfig {
    /// The built-in rules.
    fn default() -> (r: RulesConfig)
        ensures
            r@ == default_rules_map(),
    {
        let mut r = RulesConfig::new();
        r.add("pdf", "Documents", "PDF");
        r.add("doc", "Documents", "Word");
        r.add("docx", "Documents", "Word");
        r.add("odt", "Documents", "Word");
        r.add("rtf", "Documents", "Word");
        r.add("txt", "Documents", "Text");
        r.add("md", "Documents", "Text");
        r.add("tex", "Documents", "LaTeX");
        r.add("ppt", "Documents", "Presentations");
        r.add("pptx", "Documents", "Presentations");
        r.add("xls", "Documents", "Spreadsheets");
        r.add("xlsx", "Documents", "Spreadsheets");
        r.add("csv", "Documents", "Data");
        r.add("json", "Documents", "Data");
        r.add("xml", "Documents", "Data");
        r.add("yaml", "Documents", "Data");
        r.add("yml", "Documents", "Data");
        r.add("jpg", "Media", "Images");
        r.add("jpeg", "Media", "Images");
        r.add("png", "Media", "Images");
        r.add("gif", "Media", "Images");
        r.add("bmp", "Media", "Images");
        r.add("webp", "Media", "Images");
        r.add("tiff", "Media", "Images");
        r.add("svg", "Media", "Images/Vectors");
        r.add("psd", "Media", "Images/Photoshop");
        r.add("ai", "Media", "Images/Illustrator");
        r.add("indd", "Media", "Images/InDesign");
        r.add("mp3", "Media", "Audio");
        r.add("wav", "Media", "Audio");
        r.add("flac", "Media", "Audio");
        r.add("aac", "Media", "Audio");
        r.add("ogg", "Media", "Audio");
        r.add("m4a", "Media", "Audio");
        r.add("mp4", "Media", "Videos");
        r.add("mkv", "Media", "Videos");
        r.add("avi", "Media", "Videos");
        r.add("mov", "Media", "Videos");
        r.add("webm", "Media", "Videos");
        r.add("zip", "Archives", "Archives");
        r.add("rar", "Archives", "Archives");
        r.add("7z", "Archives", "Archives");
        r.add("tar", "Archives", "Archives");
        r.add("gz", "Archives", "Archives");
        r.add("bz2", "Archives", "Archives");
        r.add("xz", "Archives", "Archives");
        r.add("deb", "Packages", "Packages");
        r.add("rpm", "Packages", "Packages");
        r.add("exe", "Packages", "Packages");
        r.add("msi", "Packages", "Packages");
        r.add("dmg", "Packages", "Packages");
        r.add("appimage", "Packages", "Packages");
        r.add("sh", "Development", "Scripts");
        r.add("bash", "Development", "Scripts");
        r.add("bat", "Development", "Scripts");
        r.add("py", "Development", "Python");
        r.add("ipynb", "Development", "Python");
        r.add("js", "Development", "JavaScript");
        r.add("ts", "Development", "TypeScript");
        r.add("java", "Development", "Java");
        r.add("jar", "Development", "Java");
        r.add("c", "Development", "C");
        r.add("h", "Development", "C");
        r.add("cpp", "Development", "C++");
        r.add("cs", "Development", "C#");
        r.add("go", "Development", "Go");
        r.add("rs", "Development", "Rust");
        r.add("html", "Development", "Web");
        r.add("css", "Development", "Web");
        r.add("sql", "Development", "Databases");
        r.add("db", "Development", "Databases");
        r.add("sqlite", "Development", "Databases");
        r.add("dockerfile", "Development", "Docker");
        r.add("torrent", "Other", "Torrents");
        r.add("iso", "Other", "DiskImages");
        r.add("img", "Other", "DiskImages");
        r.add("vdi", "Other", "VirtualMachines");
        r.add("vmdk", "Other", "VirtualMachines");
        r.add("ova", "Other", "VirtualMachines");
        r
    }
}

} // verus!
