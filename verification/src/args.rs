//! Plain value types for mounts, native tools and output selection,
//! with the parsers for their command-line spellings.

use vstd::prelude::*;

use crate::strconv::{chars_to_string, string_to_chars};

verus! {

/// One host directory mapped into the sandbox.
#[derive(Debug, Clone)]
#[verifier::ext_equal]
pub struct Mount {
    pub host_path: String,
    pub guest_path: String,
    pub readonly: bool,
}

/// A host tool to expose inside the sandbox through a proxy.
#[derive(Debug, Clone)]
pub struct NativeTool {
    /// How the tool is called in the sandbox.
    pub name: String,
    /// Path of the binary on the host, when it differs from the name.
    pub host_path: Option<String>,
}

/// Isolation level for native tools.
#[derive(Debug, Clone, Copy, PartialEq, Eq, Structural)]
pub enum NativeIsolation {
    /// No isolation: full host access.
    Off,
    /// Restrict filesystem access to mounted paths.
    Bwrap,
    /// Run the tool inside a container.
    Docker,
}

impl Default for NativeIsolation {
    fn default() -> (r: Self)
        ensures
            r == NativeIsolation::Off,
    {
        NativeIsolation::Off
    }
}

/// How command results are written out.
#[derive(Debug, Clone, Copy, PartialEq, Eq, Structural)]
pub enum OutputFormat {
    Text,
    Json,
}

impl Default for OutputFormat {
    fn default() -> (r: Self)
        ensures
            r == OutputFormat::Text,
    {
        OutputFormat::Text
    }
}

/// Mathematical shape of a mount.
pub struct MountV {
    pub host_path: Seq<char>,
    pub guest_path: Seq<char>,
    pub readonly: bool,
}

impl View for Mount {
    type V = MountV;

    open spec fn view(&self) -> MountV {
        MountV { host_path: self.host_path@, guest_path: self.guest_path@, readonly: self.readonly }
    }
}

/// The first index at or after `i` holding `c`, or the length.
pub open spec fn find_char(s: Seq<char>, i: int, c: char) -> int
    decreases s.len() - i,
{
    if 0 <= i && i < s.len() {
        if s[i] == c {
            i
        } else {
            find_char(s, i + 1, c)
        }
    } else {
        i
    }
}

proof fn lemma_find_char_bounds(s: Seq<char>, i: int, c: char)
    requires
        0 <= i <= s.len(),
    ensures
        i <= find_char(s, i, c) <= s.len(),
        find_char(s, i, c) < s.len() ==> s[find_char(s, i, c)] == c,
        forall|k: int| i <= k < find_char(s, i, c) ==> s[k] != c,
    decreases s.len() - i,
{
    if i < s.len() && s[i] != c {
        lemma_find_char_bounds(s, i + 1, c);
    }
}

/// Executable mirror of [`find_char`].
fn scan_char(s: &Vec<char>, i: usize, c: char) -> (r: usize)
    requires
        i <= s.len(),
    ensures
        r == find_char(s@, i as int, c),
        i <= r <= s.len(),
{
    proof {
        lemma_find_char_bounds(s@, i as int, c);
    }
    let mut k: usize = i;
    while k < s.len() && s[k] != c
        invariant
            i <= k <= s.len(),
            find_char(s@, i as int, c) == find_char(s@, k as int, c),
        decreases s.len() - k,
    {
        k += 1;
    }
    k
}

/// What a `host:guest[:ro]` mount argument means: one colon makes a
/// writable mount, two with a trailing `ro` a read-only one, and any
/// other shape is rejected.
pub open spec fn parse_mount_spec(s: Seq<char>) -> Option<MountV> {
    let c1 = find_char(s, 0, ':');
    if c1 >= s.len() {
        None
    } else {
        let c2 = find_char(s, c1 + 1, ':');
        if c2 >= s.len() {
            Some(
                MountV {
                    host_path: s.subrange(0, c1),
                    guest_path: s.subrange(c1 + 1, s.len() as int),
                    readonly: false,
                },
            )
        } else {
            let c3 = find_char(s, c2 + 1, ':');
            if c3 < s.len() {
                None
            } else if s.subrange(c2 + 1, s.len() as int) == "ro"@ {
                Some(
                    MountV {
                        host_path: s.subrange(0, c1),
                        guest_path: s.subrange(c1 + 1, c2),
                        readonly: true,
                    },
                )
            } else {
                None
            }
        }
    }
}

/// Parses a mount argument of the form `host_path:guest_path[:ro]`.
pub fn parse_mount(s: &str) -> (r: Result<Mount, String>)
    ensures
        match r {
            Ok(m) => parse_mount_spec(s@) == Some(m@),
            Err(_) => parse_mount_spec(s@) is None,
        },
{
    let cs = string_to_chars(s);
    let c1 = scan_char(&cs, 0, ':');
    if c1 >= cs.len() {
        return Err(String::from_str("Mount format: host_path:guest_path[:ro]"));
    }
    let c2 = scan_char(&cs, c1 + 1, ':');
    if c2 >= cs.len() {
        let host = vec_subrange(&cs, 0, c1);
        let guest = vec_subrange(&cs, c1 + 1, cs.len());
        return Ok(
            Mount {
                host_path: chars_to_string(&host),
                guest_path: chars_to_string(&guest),
                readonly: false,
            },
        );
    }
    let c3 = scan_char(&cs, c2 + 1, ':');
    if c3 < cs.len() {
        return Err(String::from_str("Mount format: host_path:guest_path[:ro]"));
    }
    let tail = vec_subrange(&cs, c2 + 1, cs.len());
    if crate::strconv::chars_eq_str(&tail, "ro") {
        let host = vec_subrange(&cs, 0, c1);
        let guest = vec_subrange(&cs, c1 + 1, c2);
        Ok(
            Mount {
                host_path: chars_to_string(&host),
                guest_path: chars_to_string(&guest),
                readonly: true,
            },
        )
    } else {
        Err(String::from_str("Mount format: host_path:guest_path[:ro]"))
    }
}

/// Copies `s[lo..hi]` into a fresh vector.
pub fn vec_subrange(s: &Vec<char>, lo: usize, hi: usize) -> (r: Vec<char>)
    requires
        lo <= hi <= s.len(),
    ensures
        r@ == s@.subrange(lo as int, hi as int),
{
    let mut out: Vec<char> = Vec::new();
    let mut k: usize = lo;
    while k < hi
        invariant
            lo <= k <= hi <= s.len(),
            out@ == s@.subrange(lo as int, k as int),
        decreases hi - k,
    {
        out.push(s[k]);
        assert(out@ =~= s@.subrange(lo as int, k + 1 as int));
        k += 1;
    }
    out
}

/// What a `KEY=VALUE` environment argument means: everything before
/// the first `=` is the key, the rest the value; without `=` it is
/// rejected.
pub open spec fn parse_env_var_spec(s: Seq<char>) -> Option<(Seq<char>, Seq<char>)> {
    let e = find_char(s, 0, '=');
    if e >= s.len() {
        None
    } else {
        Some((s.subrange(0, e), s.subrange(e + 1, s.len() as int)))
    }
}

/// Parses an environment-variable argument of the form `KEY=VALUE`.
pub fn parse_env_var(s: &str) -> (r: Result<(String, String), String>)
    ensures
        match r {
            Ok(kv) => parse_env_var_spec(s@) == Some((kv.0@, kv.1@)),
            Err(_) => parse_env_var_spec(s@) is None,
        },
{
    let cs = string_to_chars(s);
    let e = scan_char(&cs, 0, '=');
    if e >= cs.len() {
        return Err(String::from_str("Environment variable format: KEY=VALUE"));
    }
    let k = vec_subrange(&cs, 0, e);
    let v = vec_subrange(&cs, e + 1, cs.len());
    Ok((chars_to_string(&k), chars_to_string(&v)))
}

/// What a `name[:path]` native-tool argument means.
pub open spec fn parse_native_tool_spec(s: Seq<char>) -> (Seq<char>, Option<Seq<char>>) {
    let c = find_char(s, 0, ':');
    if c >= s.len() {
        (s, None)
    } else {
        (s.subrange(0, c), Some(s.subrange(c + 1, s.len() as int)))
    }
}

/// Parses a native-tool argument of the form `name` or `name:path`.
pub fn parse_native_tool(s: &str) -> (r: Result<NativeTool, String>)
    ensures
        r matches Ok(t) && ({
            let sp = parse_native_tool_spec(s@);
            &&& t.name@ == sp.0
            &&& match t.host_path {
                None => sp.1 is None,
                Some(p) => sp.1 == Some(p@),
            }
        }),
{
    let cs = string_to_chars(s);
    let c = scan_char(&cs, 0, ':');
    if c >= cs.len() {
        Ok(NativeTool { name: String::from_str(s), host_path: None })
    } else {
        let name = vec_subrange(&cs, 0, c);
        let path = vec_subrange(&cs, c + 1, cs.len());
        Ok(
            NativeTool {
                name: chars_to_string(&name),
                host_path: Some(chars_to_string(&path)),
            },
        )
    }
}

} // verus!
