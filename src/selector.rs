//! The file selector: which walked entries are documents to check.
use vstd::prelude::*;
use vstd::string::*;

verus! {

/// One entry reported by the directory walker.
pub struct Entry {
    /// The path of the entry, as the walker reports it.
    pub path: String,
    /// The last component of the path.
    pub name: String,
    /// Whether the entry is a regular file.
    pub is_file: bool,
    /// Length of the file in bytes.
    pub size: u64,
}

/// The fixed tables of the selection policy.
pub struct SelectorConfig {
    /// Extensions (case-sensitive, without the leading dot) never checked.
    pub skipped_extensions: Vec<String>,
    /// File names never checked.
    pub skipped_names: Vec<String>,
    /// Files longer than this many bytes are skipped with a warning.
    pub max_size: u64,
}

/// Index of the last `'.'` among the first `k` characters of `name`, or -1.
pub open spec fn last_dot_before(name: Seq<char>, k: int) -> int
    decreases k,
{
    if k <= 0 {
        -1
    } else if name[k - 1] == '.' {
        k - 1
    } else {
        last_dot_before(name, k - 1)
    }
}

/// The extension of a file name: what follows its last dot, where that dot
/// is not the first character; empty where there is no such dot.
pub open spec fn extension(name: Seq<char>) -> Seq<char> {
    let d = last_dot_before(name, name.len() as int);
    if d > 0 {
        name.subrange(d + 1, name.len() as int)
    } else {
        Seq::empty()
    }
}

pub open spec fn listed(list: Seq<String>, s: Seq<char>) -> bool {
    exists|k: int| 0 <= k < list.len() && (#[trigger] list[k])@ == s
}

pub open spec fn extension_excluded(cfg: SelectorConfig, e: Entry) -> bool {
    listed(cfg.skipped_extensions@, extension(e.name@))
}

pub open spec fn name_excluded(cfg: SelectorConfig, e: Entry) -> bool {
    listed(cfg.skipped_names@, e.name@)
}

/// A walked entry is a document to check: a regular file whose extension and
/// name are both outside the exclusion tables.
pub open spec fn eligible(cfg: SelectorConfig, e: Entry) -> bool {
    e.is_file && !extension_excluded(cfg, e) && !name_excluded(cfg, e)
}

/// Documents longer than this many bytes are never sent for checking.
pub const MAX_DOCUMENT_SIZE: u64 = 10 * 1024;

/// Binary, media, archive, font and design formats, and the configuration
/// and documentation formats that are exempt from rule checking.
pub open spec fn default_skipped_extensions() -> Seq<&'static str> {
    seq![
        "png", "jpg", "jpeg", "gif", "svg", "ico", "webp", "mp4", "mp3", "wav", "ogg", "pdf",
        "zip", "rar", "7z", "tar", "gz", "bz2", "xz", "exe", "dll", "so", "dylib", "ttf",
        "otf", "woff", "woff2", "eot", "psd", "ai", "sketch", "toml", "lock", "md", "txt",
        "log", "env",
    ]
}

/// The version-control ignore file and the environment file.
pub open spec fn default_skipped_names() -> Seq<&'static str> {
    seq![".gitignore", ".env"]
}

pub open spec fn texts(v: Seq<&'static str>) -> Seq<Seq<char>> {
    v.map_values(|s: &'static str| s@)
}

pub open spec fn string_texts(v: Seq<String>) -> Seq<Seq<char>> {
    v.map_values(|s: String| s@)
}

fn owned_all(v: &Vec<&'static str>) -> (r: Vec<String>)
    ensures
        string_texts(r@) == texts(v@),
{
    let mut r: Vec<String> = Vec::new();
    let mut i: usize = 0;
    while i < v.len()
        invariant
            i <= v.len(),
            string_texts(r@) == texts(v@.take(i as int)),
        decreases v.len() - i,
    {
        let ghost prev = r@;
        r.push(String::from_str(v[i]));
        assert(string_texts(r@) =~= string_texts(prev).push(v@[i as int]@));
        assert(texts(v@.take(i as int + 1)) =~= texts(v@.take(i as int)).push(v@[i as int]@));
        i = i + 1;
    }
    assert(v@.take(v.len() as int) == v@);
    r
}

impl SelectorConfig {
    /// The fixed tables: the default extension and name exclusions, and the
    /// 10 KiB size limit.
    pub fn standard() -> (c: SelectorConfig)
        ensures
            string_texts(c.skipped_extensions@) == texts(default_skipped_extensions()),
            string_texts(c.skipped_names@) == texts(default_skipped_names()),
            c.max_size == MAX_DOCUMENT_SIZE,
    {
        let exts: Vec<&'static str> = vec![
            "png", "jpg", "jpeg", "gif", "svg", "ico", "webp", "mp4", "mp3", "wav", "ogg", "pdf",
            "zip", "rar", "7z", "tar", "gz", "bz2", "xz", "exe", "dll", "so", "dylib", "ttf",
            "otf", "woff", "woff2", "eot", "psd", "ai", "sketch", "toml", "lock", "md", "txt",
            "log", "env",
        ];
        let names: Vec<&'static str> = vec![".gitignore", ".env"];
        assert(exts@ == default_skipped_extensions());
        assert(names@ == default_skipped_names());
        SelectorConfig {
            skipped_extensions: owned_all(&exts),
            skipped_names: owned_all(&names),
            max_size: MAX_DOCUMENT_SIZE,
        }
    }
}

proof fn lemma_last_dot_bounds(name: Seq<char>, k: int)
    requires
        0 <= k <= name.len(),
    ensures
        -1 <= last_dot_before(name, k) < k,
        last_dot_before(name, k) >= 0 ==> name[last_dot_before(name, k)] == '.',
    decreases k,
{
    if k > 0 && name[k - 1] != '.' {
        lemma_last_dot_bounds(name, k - 1);
    }
}

/// The extension of `name`, as `extension` defines it.
pub fn extension_of(name: &str) -> (r: String)
    ensures
        r@ == extension(name@),
{
    let n = name.unicode_len();
    let mut i: usize = n;
    while i > 0
        invariant_except_break
            i <= n,
            n == name@.len(),
            last_dot_before(name@, n as int) == last_dot_before(name@, i as int),
        ensures
            i <= n,
            last_dot_before(name@, n as int) == i as int - 1,
        decreases i,
    {
        if name.get_char(i - 1) == '.' {
            break;
        }
        i = i - 1;
    }
    if i > 1 {
        proof {
            lemma_last_dot_bounds(name@, n as int);
        }
        name.substring_char(i, n).to_string()
    } else {
        String::new()
    }
}

/// Whether `s` is one of the strings of `list`.
pub fn is_listed(list: &Vec<String>, s: &String) -> (r: bool)
    ensures
        r == listed(list@, s@),
{
    let mut k: usize = 0;
    while k < list.len()
        invariant
            k <= list.len(),
            forall|m: int| 0 <= m < k ==> (#[trigger] list@[m])@ != s@,
        decreases list.len() - k,
    {
        if list[k] == *s {
            return true;
        }
        k = k + 1;
    }
    false
}

impl SelectorConfig {
    /// Whether the walked entry `e` is a document to check.
    pub fn is_eligible(&self, e: &Entry) -> (r: bool)
        ensures
            r == eligible(*self, *e),
    {
        if !e.is_file {
            return false;
        }
        let ext = extension_of(e.name.as_str());
        if is_listed(&self.skipped_extensions, &ext) {
            return false;
        }
        !is_listed(&self.skipped_names, &e.name)
    }
}

} // verus!
