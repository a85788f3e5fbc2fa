//! File classification by extension.

use vstd::prelude::*;
use vstd::string::*;

use crate::config::rules::{default_rules_map, Rule, RulesConfig};
use crate::organize::moving::Classification;
use crate::organize::paths::{path_extension, path_extension_of, path_file_name, path_file_name_of};
use crate::error::SortcrabError;
use crate::text::{
    all_ascii, ascii_lower, ascii_lowercase, is_ascii_char, is_ws, lowercase_of, to_lowercase,
    trim, trim_end_ws, trim_start_char, trim_start_matching, trim_start_ws, trim_ws,
};

verus! {

/// Fallback category for files with unknown or missing extensions.
pub const FALLBACK_CATEGORY: &'static str = "Other";

/// Fallback subcategory for files with unknown or missing extensions.
pub const FALLBACK_SUBCATEGORY: &'static str = "Unknown";

/// The lookup key of an extension: surrounding whitespace, then leading dots,
/// then whitespace again dropped, and the rest lower-cased.
pub open spec fn normalized_key(ext: Seq<char>) -> Seq<char> {
    lowercase_of(trim_ws(trim_start_char(trim_ws(ext), '.')))
}

/// The lookup key of an extension lowered letter by letter in ASCII; for an
/// all-ASCII extension it is the key that is looked up.
pub open spec fn ascii_key(ext: Seq<char>) -> Seq<char> {
    ascii_lowercase(trim_ws(trim_start_char(trim_ws(ext), '.')))
}

/// The text a path is classified by: its extension, or its file name when it
/// has no extension.
pub open spec fn lookup_text(path: Seq<char>) -> Option<Seq<char>> {
    match path_extension_of(path) {
        Some(e) => Some(e),
        None => path_file_name_of(path),
    }
}

/// The outcome of classifying by the text `key`: the rule of its normalised
/// form, or the key itself as the payload of `UnknownExtension`; no key at all
/// gives the payload `<unknown>`.
pub open spec fn key_outcome(
    rules: Map<Seq<char>, (Seq<char>, Seq<char>)>,
    key: Option<Seq<char>>,
) -> Result<(Seq<char>, Seq<char>), Seq<char>> {
    match key {
        None => Err("<unknown>"@),
        Some(k) => if rules.dom().contains(normalized_key(k)) {
            Ok(rules[normalized_key(k)])
        } else {
            Err(k)
        },
    }
}

/// Whether a classification result agrees with an outcome: `Ok` with the same
/// pair, or `UnknownExtension` with the same payload.
pub open spec fn agrees(
    r: Result<Classification, SortcrabError>,
    o: Result<(Seq<char>, Seq<char>), Seq<char>>,
) -> bool {
    match (r, o) {
        (Ok(c), Ok(v)) => c@ == v,
        (Err(SortcrabError::UnknownExtension(m)), Err(t)) => m@ == t,
        _ => false,
    }
}

/// The pair a path falls back to when it cannot be classified.
pub open spec fn fallback_pair() -> (Seq<char>, Seq<char>) {
    ("Other"@, "Unknown"@)
}

/// Dropping leading whitespace of a concatenation.
proof fn lemma_trim_start_concat(x: Seq<char>, y: Seq<char>)
    ensures
        trim_start_ws(x + y) == if trim_start_ws(x).len() > 0 {
            trim_start_ws(x) + y
        } else {
            trim_start_ws(y)
        },
    decreases x.len(),
{
    if x.len() == 0 {
        assert(x + y =~= y);
    } else {
        assert((x + y)[0] == x[0]);
        assert((x + y).drop_first() =~= x.drop_first() + y);
        if is_ws(x[0]) {
            lemma_trim_start_concat(x.drop_first(), y);
        }
    }
}

/// Dropping trailing whitespace after appended whitespace.
proof fn lemma_trim_end_ws_suffix(x: Seq<char>, w: Seq<char>)
    requires
        forall|i: int| 0 <= i < w.len() ==> is_ws(#[trigger] w[i]),
    ensures
        trim_end_ws(x + w) == trim_end_ws(x),
    decreases w.len(),
{
    if w.len() == 0 {
        assert(x + w =~= x);
    } else {
        assert((x + w).last() == w.last());
        assert((x + w).drop_last() =~= x + w.drop_last());
        lemma_trim_end_ws_suffix(x, w.drop_last());
    }
}

/// A sequence of whitespace trims to nothing.
proof fn lemma_trim_start_all_ws(w: Seq<char>)
    requires
        forall|i: int| 0 <= i < w.len() ==> is_ws(#[trigger] w[i]),
    ensures
        trim_start_ws(w).len() == 0,
    decreases w.len(),
{
    if w.len() > 0 {
        assert(forall|i: int| 0 <= i < w.drop_first().len() ==> w.drop_first()[i] == w[i + 1]);
        lemma_trim_start_all_ws(w.drop_first());
    }
}

/// Dropping trailing whitespace behind a first character that is not
/// whitespace.
proof fn lemma_trim_end_cons(c: char, s: Seq<char>)
    requires
        !is_ws(c),
    ensures
        trim_end_ws(seq![c] + s) == seq![c] + trim_end_ws(s),
    decreases s.len(),
{
    let t = seq![c] + s;
    if s.len() > 0 && is_ws(s.last()) {
        assert(t.last() == s.last());
        assert(t.drop_last() =~= seq![c] + s.drop_last());
        lemma_trim_end_cons(c, s.drop_last());
    } else if s.len() > 0 {
        assert(t.last() == s.last());
    } else {
        assert(t.last() == c);
    }
}

/// Whitespace around an extension does not change its lookup key.
pub proof fn law_normalize_ignores_surrounding_whitespace(
    before: Seq<char>,
    ext: Seq<char>,
    after: Seq<char>,
)
    requires
        forall|i: int| 0 <= i < before.len() ==> is_ws(#[trigger] before[i]),
        forall|i: int| 0 <= i < after.len() ==> is_ws(#[trigger] after[i]),
    ensures
        normalized_key(before + ext + after) == normalized_key(ext),
{
    lemma_trim_start_all_ws(before);
    lemma_trim_start_all_ws(after);
    lemma_trim_start_concat(before, ext + after);
    assert(before + ext + after =~= before + (ext + after));
    lemma_trim_start_concat(ext, after);
    if trim_start_ws(ext).len() > 0 {
        lemma_trim_end_ws_suffix(trim_start_ws(ext), after);
    } else {
        assert(trim_start_ws(ext) =~= Seq::<char>::empty());
        assert(trim_start_ws(ext + after) =~= Seq::<char>::empty());
    }
    assert(trim_ws(before + ext + after) == trim_ws(ext));
}

/// A leading dot in front of an extension that does not start with
/// whitespace does not change its lookup key: `.pdf` is looked up as `pdf`.
pub proof fn law_normalize_ignores_leading_dot(ext: Seq<char>)
    requires
        ext.len() == 0 || !is_ws(ext[0]),
    ensures
        normalized_key(seq!['.'] + ext) == normalized_key(ext),
{
    let d = seq!['.'] + ext;
    assert(d[0] == '.');
    assert(trim_start_ws(d) == d);
    assert(trim_start_ws(ext) == ext);
    lemma_trim_end_cons('.', ext);
    let t = trim_end_ws(ext);
    assert((seq!['.'] + t)[0] == '.');
    assert((seq!['.'] + t).drop_first() =~= t);
}

/// Lowering an ASCII letter keeps whether a character is whitespace or a dot.
proof fn lemma_ascii_lower_char(c: char)
    ensures
        is_ws(ascii_lower(c)) == is_ws(c),
        (ascii_lower(c) == '.') == (c == '.'),
{
}

/// The trims keep only characters of their input, so an all-ASCII text stays
/// all-ASCII.
proof fn lemma_trims_keep_ascii(s: Seq<char>)
    requires
        all_ascii(s),
    ensures
        all_ascii(trim_start_ws(s)),
        all_ascii(trim_end_ws(s)),
        all_ascii(trim_start_char(s, '.')),
    decreases s.len(),
{
    if s.len() > 0 {
        assert forall|i: int| 0 <= i < s.drop_first().len() implies is_ascii_char(
            #[trigger] s.drop_first()[i],
        ) by {
            assert(s.drop_first()[i] == s[i + 1]);
        }
        assert forall|i: int| 0 <= i < s.drop_last().len() implies is_ascii_char(
            #[trigger] s.drop_last()[i],
        ) by {
            assert(s.drop_last()[i] == s[i]);
        }
        lemma_trims_keep_ascii(s.drop_first());
        lemma_trims_keep_ascii(s.drop_last());
    }
}

/// Lowering ASCII letters commutes with the trims, which only look at
/// whitespace and dots.
proof fn lemma_lower_commutes_with_trims(s: Seq<char>)
    ensures
        trim_start_ws(ascii_lowercase(s)) == ascii_lowercase(trim_start_ws(s)),
        trim_end_ws(ascii_lowercase(s)) == ascii_lowercase(trim_end_ws(s)),
        trim_start_char(ascii_lowercase(s), '.') == ascii_lowercase(trim_start_char(s, '.')),
    decreases s.len(),
{
    let l = ascii_lowercase(s);
    if s.len() > 0 {
        assert(l.drop_first() =~= ascii_lowercase(s.drop_first()));
        assert(l.drop_last() =~= ascii_lowercase(s.drop_last()));
        lemma_ascii_lower_char(s[0]);
        lemma_ascii_lower_char(s.last());
        assert(l[0] == ascii_lower(s[0]));
        assert(l.last() == ascii_lower(s.last()));
        lemma_lower_commutes_with_trims(s.drop_first());
        lemma_lower_commutes_with_trims(s.drop_last());
    }
}

/// Letter case does not matter for the lookup key of an ASCII extension:
/// extensions that are equal once their ASCII letters are lowered (`PDF`,
/// `Pdf`, `pdf`) have the same key.
pub proof fn law_ascii_key_ignores_case(a: Seq<char>, b: Seq<char>)
    requires
        ascii_lowercase(a) == ascii_lowercase(b),
    ensures
        ascii_key(a) == ascii_key(b),
{
    lemma_lower_commutes_with_trims(a);
    lemma_lower_commutes_with_trims(b);
    let sa = trim_ws(a);
    let sb = trim_ws(b);
    lemma_lower_commutes_with_trims(trim_start_ws(a));
    lemma_lower_commutes_with_trims(trim_start_ws(b));
    assert(ascii_lowercase(sa) == ascii_lowercase(sb));
    lemma_lower_commutes_with_trims(sa);
    lemma_lower_commutes_with_trims(sb);
    let da = trim_start_char(sa, '.');
    let db = trim_start_char(sb, '.');
    assert(ascii_lowercase(da) == ascii_lowercase(db));
    lemma_lower_commutes_with_trims(da);
    lemma_lower_commutes_with_trims(db);
    lemma_lower_commutes_with_trims(trim_start_ws(da));
    lemma_lower_commutes_with_trims(trim_start_ws(db));
}

/// A plain key: non-empty, only lower-case ASCII letters and digits.
pub open spec fn plain_key(k: Seq<char>) -> bool {
    &&& k.len() > 0
    &&& forall|i: int| 0 <= i < k.len() ==> ('a' <= #[trigger] k[i] <= 'z') || ('0' <= k[i] <= '9')
}

/// A plain key is all ASCII and is its own lookup key.
proof fn lemma_plain_key_is_lookup_key(k: Seq<char>)
    requires
        plain_key(k),
    ensures
        all_ascii(k),
        ascii_key(k) == k,
{
    assert(!is_ws(k[0]));
    assert(!is_ws(k.last()));
    assert(trim_start_ws(k) == k);
    assert(trim_end_ws(k) == k);
    assert(trim_start_char(k, '.') == k);
    assert(ascii_lowercase(k) =~= k);
}

/// Every built-in extension is plain: lower case, without surrounding
/// whitespace or a leading dot. So it is its own lookup key, and every
/// built-in rule is found by [`classify_extension`] (in any letter case,
/// see [`law_ascii_key_ignores_case`]).
#[verifier::rlimit(50)]
pub proof fn law_builtin_keys_are_lookup_keys(k: Seq<char>)
    requires
        default_rules_map().dom().contains(k),
    ensures
        plain_key(k),
        all_ascii(k),
        ascii_key(k) == k,
{
    reveal_strlit("pdf");
    reveal_strlit("doc");
    reveal_strlit("docx");
    reveal_strlit("odt");
    reveal_strlit("rtf");
    reveal_strlit("txt");
    reveal_strlit("md");
    reveal_strlit("tex");
    reveal_strlit("ppt");
    reveal_strlit("pptx");
    reveal_strlit("xls");
    reveal_strlit("xlsx");
    reveal_strlit("csv");
    reveal_strlit("json");
    reveal_strlit("xml");
    reveal_strlit("yaml");
    reveal_strlit("yml");
    reveal_strlit("jpg");
    reveal_strlit("jpeg");
    reveal_strlit("png");
    reveal_strlit("gif");
    reveal_strlit("bmp");
    reveal_strlit("webp");
    reveal_strlit("tiff");
    reveal_strlit("svg");
    reveal_strlit("psd");
    reveal_strlit("ai");
    reveal_strlit("indd");
    reveal_strlit("mp3");
    reveal_strlit("wav");
    reveal_strlit("flac");
    reveal_strlit("aac");
    reveal_strlit("ogg");
    reveal_strlit("m4a");
    reveal_strlit("mp4");
    reveal_strlit("mkv");
    reveal_strlit("avi");
    reveal_strlit("mov");
    reveal_strlit("webm");
    reveal_strlit("zip");
    reveal_strlit("rar");
    reveal_strlit("7z");
    reveal_strlit("tar");
    reveal_strlit("gz");
    reveal_strlit("bz2");
    reveal_strlit("xz");
    reveal_strlit("deb");
    reveal_strlit("rpm");
    reveal_strlit("exe");
    reveal_strlit("msi");
    reveal_strlit("dmg");
    reveal_strlit("appimage");
    reveal_strlit("sh");
    reveal_strlit("bash");
    reveal_strlit("bat");
    reveal_strlit("py");
    reveal_strlit("ipynb");
    reveal_strlit("js");
    reveal_strlit("ts");
    reveal_strlit("java");
    reveal_strlit("jar");
    reveal_strlit("c");
    reveal_strlit("h");
    reveal_strlit("cpp");
    reveal_strlit("cs");
    reveal_strlit("go");
    reveal_strlit("rs");
    reveal_strlit("html");
    reveal_strlit("css");
    reveal_strlit("sql");
    reveal_strlit("db");
    reveal_strlit("sqlite");
    reveal_strlit("dockerfile");
    reveal_strlit("torrent");
    reveal_strlit("iso");
    reveal_strlit("img");
    reveal_strlit("vdi");
    reveal_strlit("vmdk");
    reveal_strlit("ova");
    lemma_plain_key_is_lookup_key(k);
}

/// The lookup key of `extension` (see [`normalized_key`]); for an all-ASCII
/// extension, the one of [`ascii_key`].
pub fn normalize_extension(extension: &str) -> (r: String)
    ensures
        r@ == normalized_key(extension@),
        all_ascii(extension@) ==> r@ == ascii_key(extension@),
{
    let trimmed = trim(extension);
    let undotted = trim_start_matching(trimmed, '.');
    let inner = trim(undotted);
    proof {
        if all_ascii(extension@) {
            lemma_trims_keep_ascii(extension@);
            lemma_trims_keep_ascii(trim_start_ws(extension@));
            lemma_trims_keep_ascii(trimmed@);
            lemma_trims_keep_ascii(undotted@);
            lemma_trims_keep_ascii(trim_start_ws(undotted@));
        }
    }
    to_lowercase(inner)
}

/// Look up a file extension in the rules table, after normalising it.
pub fn classify_extension<'a>(rules: &'a RulesConfig, extension: &str) -> (r: Option<&'a Rule>)
    ensures
        r matches Some(rule) ==> rules@.dom().contains(normalized_key(extension@)) && rule@
            == rules@[normalized_key(extension@)],
        r is None ==> !rules@.dom().contains(normalized_key(extension@)),
        all_ascii(extension@) ==> normalized_key(extension@) == ascii_key(extension@),
{
    let key = normalize_extension(extension);
    rules.get(key.as_str())
}

/// Classify by the lookup text `key` (an extension, or a file name), as
/// [`classify_file`] does once it has taken that text from the path.
pub fn classify_key(rules: &RulesConfig, key: Option<&str>) -> (r: Result<
    Classification,
    SortcrabError,
>)
    ensures
        agrees(
            r,
            key_outcome(
                rules@,
                match key {
                    Some(k) => Some(k@),
                    None => None,
                },
            ),
        ),
{
    match key {
        None => Err(SortcrabError::UnknownExtension(String::from_str("<unknown>"))),
        Some(k) => match classify_extension(rules, k) {
            Some(rule) => Ok(
                Classification {
                    category: rule.category.clone(),
                    subcategory: rule.subcategory.clone(),
                },
            ),
            None => Err(SortcrabError::UnknownExtension(String::from_str(k))),
        },
    }
}

/// Classify a file at `path` by its extension, or by its whole file name when
/// it has no extension (so `Dockerfile` can have a rule).
pub fn classify_file(rules: &RulesConfig, path: &str) -> (r: Result<Classification, SortcrabError>)
    ensures
        agrees(r, key_outcome(rules@, lookup_text(path@))),
{
    let ext = path_extension(path);
    match ext {
        Some(e) => classify_key(rules, Some(e.as_str())),
        None => {
            let name = path_file_name(path);
            match name {
                Some(n) => classify_key(rules, Some(n.as_str())),
                None => classify_key(rules, None),
            }
        },
    }
}

/// Classify a file, falling back to `Other/Unknown` when [`classify_file`]
/// fails.
pub fn classify_or_fallback(rules: &RulesConfig, path: &str) -> (r: Classification)
    ensures
        r@ == match key_outcome(rules@, lookup_text(path@)) {
            Ok(v) => v,
            Err(_) => fallback_pair(),
        },
{
    match classify_file(rules, path) {
        Ok(c) => c,
        Err(_) => Classification {
            category: String::from_str(FALLBACK_CATEGORY),
            subcategory: String::from_str(FALLBACK_SUBCATEGORY),
        },
    }
}

} // verus!
