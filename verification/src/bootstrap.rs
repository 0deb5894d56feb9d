//! Start-up of the portable Windows GUI bundle: which environment the bundled
//! GTK runtime needs, when its image loader cache is rebuilt, and how the
//! bootstrap log is written.
use vstd::prelude::*;
use crate::text::{decimal, push_decimal, string_of, is_numeral_of, lemma_decimal_is_numeral};

verus! {

/// An environment variable that points at a path inside the bundle.
#[derive(Debug)]
pub struct PortableEnvVar {
    pub key: String,
    /// Components of the path, relative to the directory of the executable.
    pub path: Vec<String>,
}

/// What the portable runtime needs, relative to the directory of the executable.
#[derive(Debug)]
pub struct PortableRuntimeLayout {
    /// Variables set, each only where its path exists, before the loader cache is rebuilt.
    pub env_vars: Vec<PortableEnvVar>,
    /// The image loader modules.
    pub pixbuf_loaders_dir: Vec<String>,
    /// The image loader cache that is rebuilt.
    pub pixbuf_loaders_cache: Vec<String>,
    /// The program that lists the image loaders.
    pub query_loaders: Vec<String>,
    /// The variable that points at the loader cache, set last where the cache exists.
    pub module_file_key: String,
    /// The variable that tells the loader program where the modules are.
    pub module_dir_key: String,
}

/// `parts` holds exactly the strings `expected`, in order.
pub open spec fn parts_are(parts: Seq<String>, expected: Seq<Seq<char>>) -> bool {
    &&& parts.len() == expected.len()
    &&& forall|i: int| 0 <= i < parts.len() ==> (#[trigger] parts[i])@ == expected[i]
}

/// The components of the image loader directory of the bundle.
pub open spec fn pixbuf_root_parts() -> Seq<Seq<char>> {
    seq!["lib"@, "gdk-pixbuf-2.0"@, "2.10.0"@]
}

fn path_of(components: &[&str]) -> (r: Vec<String>)
    ensures
        parts_are(r@, components@.map_values(|c: &str| c@)),
{
    let mut v: Vec<String> = Vec::new();
    let mut i: usize = 0;
    while i < components.len()
        invariant
            i <= components@.len(),
            parts_are(v@, components@.map_values(|c: &str| c@).take(i as int)),
        decreases components@.len() - i,
    {
        v.push(string_of(components[i]));
        i = i + 1;
    }
    proof {
        assert(components@.map_values(|c: &str| c@).take(i as int) =~= components@.map_values(|c: &str| c@));
    }
    v
}

/// The layout of the portable GTK runtime beside the GUI executable:
/// `GSETTINGS_SCHEMA_DIR` at `share/glib-2.0/schemas`, `XDG_DATA_DIRS` at
/// `share`, `FONTCONFIG_PATH` at `etc/fonts`, the image loaders under
/// `lib/gdk-pixbuf-2.0/2.10.0`, their cache `loaders.cache` there, and the
/// program `gdk-pixbuf-query-loaders.exe` beside the executable.
pub fn prepare_portable_runtime() -> (r: PortableRuntimeLayout)
    ensures
        r.env_vars@.len() == 3,
        r.env_vars@[0].key@ == "GSETTINGS_SCHEMA_DIR"@,
        parts_are(r.env_vars@[0].path@, seq!["share"@, "glib-2.0"@, "schemas"@]),
        r.env_vars@[1].key@ == "XDG_DATA_DIRS"@,
        parts_are(r.env_vars@[1].path@, seq!["share"@]),
        r.env_vars@[2].key@ == "FONTCONFIG_PATH"@,
        parts_are(r.env_vars@[2].path@, seq!["etc"@, "fonts"@]),
        parts_are(r.pixbuf_loaders_dir@, pixbuf_root_parts().push("loaders"@)),
        parts_are(r.pixbuf_loaders_cache@, pixbuf_root_parts().push("loaders.cache"@)),
        parts_are(r.query_loaders@, seq!["gdk-pixbuf-query-loaders.exe"@]),
        r.module_file_key@ == "GDK_PIXBUF_MODULE_FILE"@,
        r.module_dir_key@ == "GDK_PIXBUF_MODULEDIR"@,
{
    let schemas = path_of(&["share", "glib-2.0", "schemas"]);
    let share = path_of(&["share"]);
    let fonts = path_of(&["etc", "fonts"]);
    let loaders_dir = path_of(&["lib", "gdk-pixbuf-2.0", "2.10.0", "loaders"]);
    let loaders_cache = path_of(&["lib", "gdk-pixbuf-2.0", "2.10.0", "loaders.cache"]);
    let query = path_of(&["gdk-pixbuf-query-loaders.exe"]);
    let mut env_vars: Vec<PortableEnvVar> = Vec::new();
    env_vars.push(PortableEnvVar { key: string_of("GSETTINGS_SCHEMA_DIR"), path: schemas });
    env_vars.push(PortableEnvVar { key: string_of("XDG_DATA_DIRS"), path: share });
    env_vars.push(PortableEnvVar { key: string_of("FONTCONFIG_PATH"), path: fonts });
    PortableRuntimeLayout {
        env_vars,
        pixbuf_loaders_dir: loaders_dir,
        pixbuf_loaders_cache: loaders_cache,
        query_loaders: query,
        module_file_key: string_of("GDK_PIXBUF_MODULE_FILE"),
        module_dir_key: string_of("GDK_PIXBUF_MODULEDIR"),
    }
}

/// The loader cache is rebuilt only where both the loader program and the
/// loader directory exist.
pub fn should_query_pixbuf_loaders(query_loaders_exists: bool, loaders_dir_exists: bool) -> (r: bool)
    ensures
        r == (query_loaders_exists && loaders_dir_exists),
{
    query_loaders_exists && loaders_dir_exists
}

/// The loader program's output replaces the cache only when the program
/// succeeded and printed something.
pub fn should_write_loader_cache(succeeded: bool, output_len: usize) -> (r: bool)
    ensures
        r == (succeeded && output_len > 0),
{
    succeeded && output_len > 0
}

/// A line of the bootstrap log: `"[<seconds since the epoch>] <message>"`.
pub open spec fn log_line_text(timestamp: u64, message: Seq<char>) -> Seq<char> {
    "["@ + decimal(timestamp as nat) + "] "@ + message
}

/// A log line starts with the timestamp in base 10 between brackets and a
/// space, and ends with the message unchanged.
pub proof fn lemma_log_line_layout(timestamp: u64, message: Seq<char>)
    ensures
        exists|t: Seq<char>| log_line_text(timestamp, message) == "["@ + t + "] "@ + message
            && is_numeral_of(t, timestamp as int),
{
    lemma_decimal_is_numeral(timestamp as nat);
    let t = decimal(timestamp as nat);
    assert(log_line_text(timestamp, message) == "["@ + t + "] "@ + message && is_numeral_of(t, timestamp as int));
}

/// Formats a line of the bootstrap log (without its line break).
pub fn log_line(timestamp: u64, message: &str) -> (r: String)
    ensures
        r@ == log_line_text(timestamp, message@),
{
    let mut s = string_of("[");
    push_decimal(&mut s, timestamp);
    s.append("] ");
    s.append(message);
    s
}

} // verus!
