//! Named, TTL-bounded session records and the store that keeps them.
//!
//! A record binds mounts, environment and working directory to a
//! short unique identifier. The store holds records as JSON texts
//! keyed by identifier — exactly what a directory of record files
//! holds on disk — and the callers pass the clock in, so that every
//! rule about expiry is a theorem rather than a race.

use vstd::prelude::*;
use vstd::string::StringExecFns;

use crate::args::{Mount, MountV};
use crate::error::BashletError;
use crate::strconv::{
    chars_to_string, dec_digits, format_base36, radix_digits, string_to_chars,
};

verus! {

/// One mount of a session record, in plain string form.
#[derive(Debug, Clone)]
pub struct SerializableMount {
    pub host_path: String,
    pub guest_path: String,
    pub readonly: bool,
}

/// Mathematical shape of a stored mount.
pub struct SMountV {
    pub host_path: Seq<char>,
    pub guest_path: Seq<char>,
    pub readonly: bool,
}

impl View for SerializableMount {
    type V = SMountV;

    open spec fn view(&self) -> SMountV {
        SMountV {
            host_path: self.host_path@,
            guest_path: self.guest_path@,
            readonly: self.readonly,
        }
    }
}

/// Session state that persists between commands.
#[derive(Debug, Clone)]
pub struct Session {
    /// Unique session identifier.
    pub id: String,
    /// Optional human-readable name.
    pub name: Option<String>,
    /// Mount configurations.
    pub mounts: Vec<SerializableMount>,
    /// Environment variables.
    pub env_vars: Vec<(String, String)>,
    /// Working directory inside the sandbox.
    pub workdir: String,
    /// Custom WASM package path.
    pub wasm_binary: Option<String>,
    /// Creation timestamp (Unix epoch seconds).
    pub created_at: u64,
    /// Last activity timestamp (Unix epoch seconds).
    pub last_activity: u64,
    /// Idle time-to-live in seconds; `None` means no expiration.
    pub ttl_seconds: Option<u64>,
}

/// Mathematical shape of a session record.
pub struct SessionV {
    pub id: Seq<char>,
    pub name: Option<Seq<char>>,
    pub mounts: Seq<SMountV>,
    pub env_vars: Seq<(Seq<char>, Seq<char>)>,
    pub workdir: Seq<char>,
    pub wasm_binary: Option<Seq<char>>,
    pub created_at: nat,
    pub last_activity: nat,
    pub ttl_seconds: Option<nat>,
}

/// The views of a mount vector.
pub open spec fn mounts_view(v: Seq<SerializableMount>) -> Seq<SMountV> {
    Seq::new(v.len(), |i: int| v[i]@)
}

/// The views of an environment vector.
pub open spec fn env_view(v: Seq<(String, String)>) -> Seq<(Seq<char>, Seq<char>)> {
    Seq::new(v.len(), |i: int| (v[i].0@, v[i].1@))
}

/// The view of an optional string.
pub open spec fn opt_view(v: Option<String>) -> Option<Seq<char>> {
    match v {
        None => None,
        Some(s) => Some(s@),
    }
}

/// The view of an optional number.
pub open spec fn opt_nat_view(v: Option<u64>) -> Option<nat> {
    match v {
        None => None,
        Some(n) => Some(n as nat),
    }
}

/// Field-wise agreement of a stored mount with a mount argument.
pub open spec fn smount_matches(a: SMountV, b: MountV) -> bool {
    a.host_path == b.host_path && a.guest_path == b.guest_path && a.readonly == b.readonly
}

impl View for Session {
    type V = SessionV;

    open spec fn view(&self) -> SessionV {
        SessionV {
            id: self.id@,
            name: opt_view(self.name),
            mounts: mounts_view(self.mounts@),
            env_vars: env_view(self.env_vars@),
            workdir: self.workdir@,
            wasm_binary: opt_view(self.wasm_binary),
            created_at: self.created_at as nat,
            last_activity: self.last_activity as nat,
            ttl_seconds: opt_nat_view(self.ttl_seconds),
        }
    }
}

// ---------------------------------------------------------------------------
// Identifiers
// ---------------------------------------------------------------------------

/// The number a fresh identifier encodes: the low 24 bits of the
/// millisecond timestamp joined with the low 8 bits of a per-process
/// counter — monotonic and collision-free within one process.
pub open spec fn session_id_num(timestamp_ms: u64, counter: u32) -> nat {
    ((timestamp_ms as nat) % 0x1000000) * 256 + (counter as nat) % 256
}

/// Builds a short unique session identifier in base 36 from the
/// clock value and counter its caller provides.
pub fn generate_session_id(timestamp_ms: u64, counter: u32) -> (r: String)
    ensures
        r@ == radix_digits(session_id_num(timestamp_ms, counter), 36),
{
    let combined: u64 = ((timestamp_ms & 0xFFFFFF) << 8u64) | ((counter as u64) & 0xFF);
    proof {
        assert(combined == ((timestamp_ms as nat) % 0x1000000) * 256 + (counter as nat) % 256)
            by (bit_vector)
            requires
                combined == ((timestamp_ms & 0xFFFFFF) << 8u64) | ((counter as u64) & 0xFF),
        ;
    }
    format_base36(combined)
}

impl Session {
    /// Whether the record is expired at time `now`: a TTL is set and
    /// more than that many seconds passed since the last activity.
    pub open spec fn is_expired_spec(&self, now: nat) -> bool {
        match self@.ttl_seconds {
            Some(ttl) => now > self@.last_activity + ttl,
            None => false,
        }
    }

    /// Creates a new record with a fresh identifier. The caller
    /// supplies the clock reading (milliseconds) and the process
    /// counter tick that make the identifier unique.
    pub fn new(
        name: Option<String>,
        mounts: Vec<Mount>,
        env_vars: Vec<(String, String)>,
        workdir: String,
        wasm_binary: Option<String>,
        ttl_seconds: Option<u64>,
        now_ms: u64,
        counter: u32,
    ) -> (r: Session)
        ensures
            r.id@ == radix_digits(session_id_num(now_ms, counter), 36),
            r@.name == opt_view(name),
            r@.mounts.len() == mounts@.len(),
            forall|i: int|
                0 <= i < mounts@.len() ==> smount_matches(#[trigger] r@.mounts[i], mounts@[i]@),
            r@.env_vars == env_view(env_vars@),
            r@.workdir == workdir@,
            r@.wasm_binary == opt_view(wasm_binary),
            r.created_at == now_ms / 1000,
            r.last_activity == now_ms / 1000,
            r@.ttl_seconds == opt_nat_view(ttl_seconds),
    {
        let now = now_ms / 1000;
        let id = generate_session_id(now_ms, counter);
        let mut smounts: Vec<SerializableMount> = Vec::new();
        let mut i: usize = 0;
        while i < mounts.len()
            invariant
                i <= mounts.len(),
                smounts@.len() == i,
                forall|k: int|
                    0 <= k < i ==> smount_matches(#[trigger] smounts@[k]@, mounts@[k]@),
            decreases mounts.len() - i,
        {
            let m = &mounts[i];
            smounts.push(
                SerializableMount {
                    host_path: m.host_path.clone(),
                    guest_path: m.guest_path.clone(),
                    readonly: m.readonly,
                },
            );
            proof {
                assert(smount_matches(smounts@[i as int]@, mounts@[i as int]@));
            }
            i += 1;
        }
        proof {
            assert(forall|i: int|
                0 <= i < mounts@.len() ==> smount_matches(
                    #[trigger] mounts_view(smounts@)[i],
                    mounts@[i]@,
                ));
        }
        Session {
            id,
            name,
            mounts: smounts,
            env_vars,
            workdir,
            wasm_binary,
            created_at: now,
            last_activity: now,
            ttl_seconds,
        }
    }

    /// Whether the record is expired at time `now` (seconds).
    pub fn is_expired(&self, now: u64) -> (r: bool)
        ensures
            r == self.is_expired_spec(now as nat),
    {
        match self.ttl_seconds {
            Some(ttl) => (now as u128) > (self.last_activity as u128) + (ttl as u128),
            None => false,
        }
    }

    /// Moves the last-activity timestamp to `now`; everything else
    /// stays.
    pub fn touch(&mut self, now: u64)
        ensures
            final(self).last_activity == now,
            final(self).id == old(self).id,
            final(self).name == old(self).name,
            final(self).mounts == old(self).mounts,
            final(self).env_vars == old(self).env_vars,
            final(self).workdir == old(self).workdir,
            final(self).wasm_binary == old(self).wasm_binary,
            final(self).created_at == old(self).created_at,
            final(self).ttl_seconds == old(self).ttl_seconds,
    {
        self.last_activity = now;
    }

    /// The stored mounts as plain mount values.
    pub fn get_mounts(&self) -> (r: Vec<Mount>)
        ensures
            r@.len() == self.mounts@.len(),
            forall|i: int|
                0 <= i < r@.len() ==> smount_matches(self@.mounts[i], #[trigger] r@[i]@),
    {
        let mut out: Vec<Mount> = Vec::new();
        let mut i: usize = 0;
        while i < self.mounts.len()
            invariant
                i <= self.mounts.len(),
                out@.len() == i,
                forall|k: int| 0 <= k < i ==> smount_matches(self@.mounts[k], #[trigger] out@[k]@),
            decreases self.mounts.len() - i,
        {
            let m = &self.mounts[i];
            out.push(
                Mount {
                    host_path: m.host_path.clone(),
                    guest_path: m.guest_path.clone(),
                    readonly: m.readonly,
                },
            );
            proof {
                assert(self@.mounts[i as int] == self.mounts@[i as int]@);
                assert(smount_matches(self@.mounts[i as int], out@[i as int]@));
            }
            i += 1;
        }
        out
    }

    /// The name when one is set, else the identifier.
    pub fn display_id(&self) -> (r: &str)
        ensures
            match self.name {
                Some(_) => r@ == self@.name.unwrap(),
                None => r@ == self@.id,
            },
    {
        match &self.name {
            Some(n) => n.as_str(),
            None => self.id.as_str(),
        }
    }
}

// ---------------------------------------------------------------------------
// TTL strings and durations
// ---------------------------------------------------------------------------

/// ASCII lower-casing of one character.
pub open spec fn lc_char(c: char) -> char {
    if 65 <= c as int && c as int <= 90 {
        ((c as u8) + 32) as char
    } else {
        c
    }
}

/// Whether `c` counts as surrounding whitespace of a TTL string.
pub open spec fn is_trim_ws(c: char) -> bool {
    c == ' ' || c == '\t' || c == '\n' || c == '\r'
}

/// The index of the first non-whitespace character.
pub open spec fn trim_start(s: Seq<char>, i: int) -> int
    decreases s.len() - i,
{
    if 0 <= i && i < s.len() && is_trim_ws(s[i]) {
        trim_start(s, i + 1)
    } else {
        i
    }
}

/// The index just past the last non-whitespace character, at or
/// before `j`.
pub open spec fn trim_end(s: Seq<char>, j: int) -> int
    decreases j,
{
    if 0 < j <= s.len() && is_trim_ws(s[j - 1]) {
        trim_end(s, j - 1)
    } else {
        j
    }
}

/// The trimmed, lower-cased content of a TTL argument.
pub open spec fn ttl_normal(s: Seq<char>) -> Seq<char> {
    let a = trim_start(s, 0);
    let b = trim_end(s, s.len() as int);
    if a <= b {
        s.subrange(a, b).map_values(|c: char| lc_char(c))
    } else {
        Seq::empty()
    }
}

/// The value of a digit run, or nothing if the run is empty or not
/// all digits.
pub open spec fn all_digits_val(s: Seq<char>) -> Option<nat> {
    if s.len() >= 1 && (forall|k: int| 0 <= k < s.len() ==> crate::json::is_dec_digit(s[k])) {
        Some(crate::json::digits_val(s, 0, s.len() as int))
    } else {
        None
    }
}

/// What a TTL argument means: `<N>[s|m|h|d]`, case-insensitive,
/// surrounding whitespace ignored, seconds when no suffix stands.
pub open spec fn parse_ttl_spec(s: Seq<char>) -> Option<nat> {
    let t = ttl_normal(s);
    if t.len() == 0 {
        None
    } else {
        let last = t[t.len() - 1];
        let mult: nat = if last == 's' {
            1
        } else if last == 'm' {
            60
        } else if last == 'h' {
            3600
        } else if last == 'd' {
            86400
        } else {
            1
        };
        let digits = if last == 's' || last == 'm' || last == 'h' || last == 'd' {
            t.subrange(0, t.len() - 1)
        } else {
            t
        };
        match all_digits_val(digits) {
            None => None,
            Some(n) => Some(n * mult),
        }
    }
}

proof fn lemma_trim_bounds(s: Seq<char>)
    ensures
        0 <= trim_start(s, 0) <= s.len(),
        0 <= trim_end(s, s.len() as int) <= s.len(),
{
    lemma_trim_start_bounds(s, 0);
    lemma_trim_end_bounds(s, s.len() as int);
}

proof fn lemma_trim_start_bounds(s: Seq<char>, i: int)
    requires
        0 <= i <= s.len(),
    ensures
        i <= trim_start(s, i) <= s.len(),
    decreases s.len() - i,
{
    if i < s.len() && is_trim_ws(s[i]) {
        lemma_trim_start_bounds(s, i + 1);
    }
}

proof fn lemma_trim_end_bounds(s: Seq<char>, j: int)
    requires
        0 <= j <= s.len(),
    ensures
        0 <= trim_end(s, j) <= j,
    decreases j,
{
    if 0 < j && is_trim_ws(s[j - 1]) {
        lemma_trim_end_bounds(s, j - 1);
    }
}

/// Parses a TTL argument. An empty or malformed value, and one whose
/// seconds do not fit a machine word, are configuration errors.
pub fn parse_ttl(s: &str) -> (r: Result<u64, BashletError>)
    ensures
        match r {
            Ok(n) => parse_ttl_spec(s@) == Some(n as nat),
            Err(e) => e is Config && (parse_ttl_spec(s@) is None || parse_ttl_spec(
                s@,
            ).unwrap() > u64::MAX),
        },
{
    let cs = string_to_chars(s);
    proof {
        lemma_trim_bounds(cs@);
    }
    // trim
    let mut a: usize = 0;
    while a < cs.len() && (cs[a] == ' ' || cs[a] == '\t' || cs[a] == '\n' || cs[a] == '\r')
        invariant
            a <= cs.len(),
            trim_start(cs@, 0) == trim_start(cs@, a as int),
        decreases cs.len() - a,
    {
        a += 1;
    }
    let mut b: usize = cs.len();
    while b > a && (cs[b - 1] == ' ' || cs[b - 1] == '\t' || cs[b - 1] == '\n' || cs[b - 1]
        == '\r')
        invariant
            a <= b <= cs.len(),
            a == trim_start(cs@, 0),
            a == cs@.len() || !is_trim_ws(cs@[a as int]),
            b == a ==> a == cs@.len(),
            trim_end(cs@, cs@.len() as int) == trim_end(cs@, b as int),
        decreases b,
    {
        b -= 1;
    }
    proof {
        if b > a {
            assert(!is_trim_ws(cs@[b - 1]));
            assert(trim_end(cs@, b as int) == b);
        } else {
            // The region is empty: the whole string was whitespace
            // (or empty), so the normalized form is empty too.
            assert(b == a);
            assert(a == cs@.len());
            lemma_trim_end_bounds(cs@, cs@.len() as int);
        }
    }
    // lower-case into a fresh vector
    let mut t: Vec<char> = Vec::new();
    let mut k: usize = a;
    while k < b
        invariant
            a <= k <= b <= cs.len(),
            t@ == cs@.subrange(a as int, k as int).map_values(|c: char| lc_char(c)),
        decreases b - k,
    {
        let c = cs[k];
        let lc: char = if 'A' <= c && c <= 'Z' {
            ((c as u8) + 32) as char
        } else {
            c
        };
        assert(lc == lc_char(cs@[k as int]));
        t.push(lc);
        assert(t@ =~= cs@.subrange(a as int, k + 1 as int).map_values(|c: char| lc_char(c)));
        k += 1;
    }
    proof {
        if b > a {
            assert(t@ =~= ttl_normal(cs@));
        } else {
            let bs = trim_end(cs@, cs@.len() as int);
            assert(a == cs@.len());
            if a as int <= bs {
                assert(bs == a);
                assert(cs@.subrange(a as int, bs).map_values(|c: char| lc_char(c)) =~= t@);
            } else {
                assert(t@ =~= Seq::<char>::empty());
            }
        }
        assert(t@ == ttl_normal(cs@));
    }
    if t.len() == 0 {
        return Err(BashletError::Config(String::from_str("Empty TTL value")));
    }
    let last = t[t.len() - 1];
    let has_suffix = last == 's' || last == 'm' || last == 'h' || last == 'd';
    let mult: u64 = if last == 's' {
        1
    } else if last == 'm' {
        60
    } else if last == 'h' {
        3600
    } else if last == 'd' {
        86400
    } else {
        1
    };
    let dend: usize = if has_suffix {
        t.len() - 1
    } else {
        t.len()
    };
    let ghost digits = if has_suffix {
        t@.subrange(0, t@.len() - 1)
    } else {
        t@
    };
    proof {
        if !has_suffix {
            assert(digits =~= t@.subrange(0, dend as int));
        }
    }
    if dend == 0 {
        assert(all_digits_val(digits) is None);
        return Err(BashletError::Config(String::from_str("Invalid TTL value")));
    }
    // digits
    proof {
        assert(all_digits_val(digits) is None ==> parse_ttl_spec(cs@) is None);
        assert((all_digits_val(digits) matches Some(nv) ==> parse_ttl_spec(cs@) == Some(
            nv * mult as nat,
        )));
    }
    let mut acc: u64 = 0;
    let mut i: usize = 0;
    while i < dend
        invariant
            0 <= i <= dend <= t@.len(),
            dend >= 1,
            mult >= 1,
            cs@ == s@,
            digits == t@.subrange(0, dend as int),
            all_digits_val(digits) is None ==> parse_ttl_spec(cs@) is None,
            (all_digits_val(digits) matches Some(nv) ==> parse_ttl_spec(cs@) == Some(
                nv * mult as nat,
            )),
            forall|q: int| 0 <= q < i ==> crate::json::is_dec_digit(t@[q]),
            acc == crate::json::digits_val(t@, 0, i as int),
            acc <= u64::MAX,
        decreases dend - i,
    {
        let c = t[i];
        if !('0' <= c && c <= '9') {
            proof {
                assert(!crate::json::is_dec_digit(digits[i as int]));
                assert(all_digits_val(digits) is None);
            }
            return Err(BashletError::Config(String::from_str("Invalid TTL value")));
        }
        let d: u64 = (c as u32 - 48) as u64;
        assert(d == crate::json::digit_val(t@[i as int]));
        assert(d <= 9);
        if acc > (u64::MAX - d) / 10 {
            proof {
                assert(acc * 10 + d > u64::MAX) by (nonlinear_arith)
                    requires
                        acc > (u64::MAX - d) / 10,
                        d <= 9,
                ;
                lemma_digits_val_prefix(t@, i + 1 as int, dend as int);
                assert(crate::json::digits_val(t@, 0, dend as int) >= acc * 10 + d);
                lemma_digits_val_eq_sub(t@, dend as int);
                if all_digits_val(digits) is Some {
                    let nv = all_digits_val(digits).unwrap();
                    assert(nv == crate::json::digits_val(t@, 0, dend as int));
                    assert(nv > u64::MAX);
                    assert(nv * (mult as nat) >= nv * 1) by (nonlinear_arith)
                        requires
                            mult >= 1,
                            nv >= 0,
                    ;
                    assert(parse_ttl_spec(cs@) == Some(nv * mult as nat));
                }
            }
            return Err(BashletError::Config(String::from_str("Invalid TTL value")));
        }
        assert(acc * 10 + d <= u64::MAX) by (nonlinear_arith)
            requires
                acc <= (u64::MAX - d) / 10,
                d <= 9,
        ;
        acc = acc * 10 + d;
        i += 1;
        assert(acc == crate::json::digits_val(t@, 0, i as int));
    }
    proof {
        lemma_digits_val_eq_sub(t@, dend as int);
        assert(all_digits_val(digits) == Some(crate::json::digits_val(t@, 0, dend as int)));
    }
    // scale
    if mult > 1 && acc > u64::MAX / mult {
        proof {
            assert(acc * mult > u64::MAX) by (nonlinear_arith)
                requires
                    mult >= 1,
                    acc > u64::MAX / mult,
            ;
        }
        return Err(BashletError::Config(String::from_str("Invalid TTL value")));
    }
    proof {
        assert(acc * mult <= u64::MAX) by (nonlinear_arith)
            requires
                mult >= 1,
                acc <= u64::MAX / mult || mult == 1,
                acc <= u64::MAX,
        ;
    }
    Ok(acc * mult)
}

/// The value of a digit prefix never exceeds the value of the whole
/// run.
proof fn lemma_digits_val_prefix(s: Seq<char>, j: int, j2: int)
    requires
        j <= j2,
    ensures
        crate::json::digits_val(s, 0, j2) >= crate::json::digits_val(s, 0, j),
    decreases j2 - j,
{
    if j < j2 {
        lemma_digits_val_prefix(s, j, j2 - 1);
        assert(crate::json::digits_val(s, 0, j2 - 1) * 10 >= crate::json::digits_val(
            s,
            0,
            j2 - 1,
        )) by (nonlinear_arith);
    }
}

/// A digit run read inside `s` equals the same run read in the
/// standalone prefix.
proof fn lemma_digits_val_eq_sub(s: Seq<char>, dend: int)
    requires
        0 <= dend <= s.len(),
    ensures
        forall|j: int|
            0 <= j <= dend ==> #[trigger] crate::json::digits_val(s.subrange(0, dend), 0, j)
                == crate::json::digits_val(s, 0, j),
{
    assert forall|j: int|
        0 <= j <= dend implies #[trigger] crate::json::digits_val(s.subrange(0, dend), 0, j)
        == crate::json::digits_val(s, 0, j) by {
        lemma_digits_val_eq_sub_one(s, dend, j);
    }
}

proof fn lemma_digits_val_eq_sub_one(s: Seq<char>, dend: int, j: int)
    requires
        0 <= j <= dend <= s.len(),
    ensures
        crate::json::digits_val(s.subrange(0, dend), 0, j) == crate::json::digits_val(s, 0, j),
    decreases j,
{
    if j > 0 {
        lemma_digits_val_eq_sub_one(s, dend, j - 1);
        assert(s.subrange(0, dend)[j - 1] == s[j - 1]);
    }
}

// ---------------------------------------------------------------------------
// Record text: one JSON object per record file
// ---------------------------------------------------------------------------

/// The printed form of one stored mount.
pub open spec fn print_smount(m: SMountV) -> Seq<char> {
    "{"@ + crate::json::field_str("\"host_path\""@, m.host_path) + ","@ + crate::json::field_str(
        "\"guest_path\""@,
        m.guest_path,
    ) + ","@ + crate::json::field_bool("\"readonly\""@, m.readonly) + "}"@
}

/// The elements of a non-empty mount array, with separators and the
/// closing bracket.
pub open spec fn print_mounts_items(ms: Seq<SMountV>) -> Seq<char>
    recommends
        ms.len() >= 1,
    decreases ms.len(),
{
    if ms.len() <= 1 {
        print_smount(ms[0]) + "]"@
    } else {
        print_smount(ms[0]) + ","@ + print_mounts_items(ms.subrange(1, ms.len() as int))
    }
}

/// The printed form of a mount array.
pub open spec fn print_mounts(ms: Seq<SMountV>) -> Seq<char> {
    "["@ + (if ms.len() == 0 {
        "]"@
    } else {
        print_mounts_items(ms)
    })
}

/// The printed form of one environment pair, as a two-element array.
pub open spec fn print_env_pair(p: (Seq<char>, Seq<char>)) -> Seq<char> {
    "["@ + crate::json::quoted(p.0) + ","@ + crate::json::quoted(p.1) + "]"@
}

/// The elements of a non-empty environment array.
pub open spec fn print_envs_items(es: Seq<(Seq<char>, Seq<char>)>) -> Seq<char>
    recommends
        es.len() >= 1,
    decreases es.len(),
{
    if es.len() <= 1 {
        print_env_pair(es[0]) + "]"@
    } else {
        print_env_pair(es[0]) + ","@ + print_envs_items(es.subrange(1, es.len() as int))
    }
}

/// The printed form of an environment array.
pub open spec fn print_envs(es: Seq<(Seq<char>, Seq<char>)>) -> Seq<char> {
    "["@ + (if es.len() == 0 {
        "]"@
    } else {
        print_envs_items(es)
    })
}

/// The identifier and name fields of a printed record.
pub open spec fn sess_front(v: SessionV) -> Seq<char> {
    "{"@ + crate::json::field_str("\"id\""@, v.id) + ","@ + crate::json::field_optstr(
        "\"name\""@,
        v.name,
    )
}

/// The mount and environment arrays of a printed record.
pub open spec fn sess_mid(v: SessionV) -> Seq<char> {
    ","@ + "\"mounts\":"@ + print_mounts(v.mounts) + ","@ + "\"env_vars\":"@ + print_envs(
        v.env_vars,
    )
}

/// The remaining fields of a printed record.
pub open spec fn sess_back(v: SessionV) -> Seq<char> {
    ","@ + crate::json::field_str("\"workdir\""@, v.workdir) + ","@
        + crate::json::field_optstr("\"wasm_binary\""@, v.wasm_binary) + ","@
        + crate::json::field_nat("\"created_at\""@, v.created_at) + ","@
        + crate::json::field_nat("\"last_activity\""@, v.last_activity) + ","@
        + crate::json::field_optnat("\"ttl_seconds\""@, v.ttl_seconds) + "}"@
}

/// The one JSON line a session record is stored as.
pub open spec fn print_session(v: SessionV) -> Seq<char> {
    sess_front(v) + sess_mid(v) + sess_back(v)
}

/// Parses one stored mount object.
pub open spec fn parse_smount(s: Seq<char>, i: int) -> Option<(SMountV, int)> {
    match crate::json::eat_spec(s, i, "{"@) {
        None => None,
        Some(i1) => match crate::json::parse_field_str(s, i1, "\"host_path\""@) {
            None => None,
            Some((h, i2)) => match crate::json::eat_spec(s, i2, ","@) {
                None => None,
                Some(i3) => match crate::json::parse_field_str(s, i3, "\"guest_path\""@) {
                    None => None,
                    Some((g, i4)) => match crate::json::eat_spec(s, i4, ","@) {
                        None => None,
                        Some(i5) => match crate::json::parse_field_bool(s, i5, "\"readonly\""@) {
                            None => None,
                            Some((ro, i6)) => match crate::json::eat_spec(s, i6, "}"@) {
                                None => None,
                                Some(j) => Some(
                                    (SMountV { host_path: h, guest_path: g, readonly: ro }, j),
                                ),
                            },
                        },
                    },
                },
            },
        },
    }
}

/// A successful mount object always advances and ends inside the
/// input.
pub proof fn lemma_parse_smount_some_bounds(s: Seq<char>, i: int)
    requires
        parse_smount(s, i) is Some,
    ensures
        i < parse_smount(s, i).unwrap().1 <= s.len(),
{
    reveal_strlit("{");
    reveal_strlit("}");
    reveal_strlit(",");
    reveal_strlit("\"host_path\"");
    reveal_strlit("\"guest_path\"");
    reveal_strlit("\"readonly\"");
    crate::json::lemma_eat_some_bounds(s, i, "{"@);
    let i1 = crate::json::eat_spec(s, i, "{"@).unwrap();
    crate::json::lemma_parse_field_str_some_bounds(s, i1, "\"host_path\""@);
    let i2 = crate::json::parse_field_str(s, i1, "\"host_path\""@).unwrap().1;
    crate::json::lemma_eat_some_bounds(s, i2, ","@);
    let i3 = crate::json::eat_spec(s, i2, ","@).unwrap();
    crate::json::lemma_parse_field_str_some_bounds(s, i3, "\"guest_path\""@);
    let i4 = crate::json::parse_field_str(s, i3, "\"guest_path\""@).unwrap().1;
    crate::json::lemma_eat_some_bounds(s, i4, ","@);
    let i5 = crate::json::eat_spec(s, i4, ","@).unwrap();
    crate::json::lemma_parse_field_bool_some_bounds(s, i5, "\"readonly\""@);
    let i6 = crate::json::parse_field_bool(s, i5, "\"readonly\""@).unwrap().1;
    crate::json::lemma_eat_some_bounds(s, i6, "}"@);
}

/// Parses the elements of a non-empty mount array.
pub open spec fn parse_mounts_items(s: Seq<char>, i: int) -> Option<(Seq<SMountV>, int)>
    decreases s.len() - i,
    via parse_mounts_items_dec
{
    match parse_smount(s, i) {
        None => None,
        Some((m, j)) => match crate::json::eat_spec(s, j, ","@) {
            Some(k) => match parse_mounts_items(s, k) {
                None => None,
                Some((rest, l)) => Some((seq![m] + rest, l)),
            },
            None => match crate::json::eat_spec(s, j, "]"@) {
                Some(k) => Some((seq![m], k)),
                None => None,
            },
        },
    }
}

#[via_fn]
proof fn parse_mounts_items_dec(s: Seq<char>, i: int) {
    if parse_smount(s, i) is Some {
        lemma_parse_smount_some_bounds(s, i);
        let j = parse_smount(s, i).unwrap().1;
        if crate::json::eat_spec(s, j, ","@) is Some {
            reveal_strlit(",");
            crate::json::lemma_eat_some_bounds(s, j, ","@);
        }
    }
}

/// Parses a mount array.
pub open spec fn parse_mounts(s: Seq<char>, i: int) -> Option<(Seq<SMountV>, int)> {
    match crate::json::eat_spec(s, i, "["@) {
        None => None,
        Some(j) => match crate::json::eat_spec(s, j, "]"@) {
            Some(k) => Some((Seq::empty(), k)),
            None => parse_mounts_items(s, j),
        },
    }
}

/// Parses one environment pair.
pub open spec fn parse_env_pair(s: Seq<char>, i: int) -> Option<((Seq<char>, Seq<char>), int)> {
    match crate::json::eat_spec(s, i, "["@) {
        None => None,
        Some(i1) => match crate::json::parse_quoted_spec(s, i1) {
            None => None,
            Some((k, i2)) => match crate::json::eat_spec(s, i2, ","@) {
                None => None,
                Some(i3) => match crate::json::parse_quoted_spec(s, i3) {
                    None => None,
                    Some((v, i4)) => match crate::json::eat_spec(s, i4, "]"@) {
                        None => None,
                        Some(j) => Some(((k, v), j)),
                    },
                },
            },
        },
    }
}

/// A successful environment pair always advances and ends inside the
/// input.
pub proof fn lemma_parse_env_pair_some_bounds(s: Seq<char>, i: int)
    requires
        parse_env_pair(s, i) is Some,
    ensures
        i < parse_env_pair(s, i).unwrap().1 <= s.len(),
{
    reveal_strlit("[");
    reveal_strlit("]");
    reveal_strlit(",");
    crate::json::lemma_eat_some_bounds(s, i, "["@);
    let i1 = crate::json::eat_spec(s, i, "["@).unwrap();
    crate::json::lemma_parse_quoted_some_bounds(s, i1);
    let i2 = crate::json::parse_quoted_spec(s, i1).unwrap().1;
    crate::json::lemma_eat_some_bounds(s, i2, ","@);
    let i3 = crate::json::eat_spec(s, i2, ","@).unwrap();
    crate::json::lemma_parse_quoted_some_bounds(s, i3);
    let i4 = crate::json::parse_quoted_spec(s, i3).unwrap().1;
    crate::json::lemma_eat_some_bounds(s, i4, "]"@);
}

/// Parses the elements of a non-empty environment array.
pub open spec fn parse_envs_items(s: Seq<char>, i: int) -> Option<
    (Seq<(Seq<char>, Seq<char>)>, int),
>
    decreases s.len() - i,
    via parse_envs_items_dec
{
    match parse_env_pair(s, i) {
        None => None,
        Some((p, j)) => match crate::json::eat_spec(s, j, ","@) {
            Some(k) => match parse_envs_items(s, k) {
                None => None,
                Some((rest, l)) => Some((seq![p] + rest, l)),
            },
            None => match crate::json::eat_spec(s, j, "]"@) {
                Some(k) => Some((seq![p], k)),
                None => None,
            },
        },
    }
}

#[via_fn]
proof fn parse_envs_items_dec(s: Seq<char>, i: int) {
    if parse_env_pair(s, i) is Some {
        lemma_parse_env_pair_some_bounds(s, i);
        let j = parse_env_pair(s, i).unwrap().1;
        if crate::json::eat_spec(s, j, ","@) is Some {
            reveal_strlit(",");
            crate::json::lemma_eat_some_bounds(s, j, ","@);
        }
    }
}

/// Parses an environment array.
pub open spec fn parse_envs(s: Seq<char>, i: int) -> Option<(Seq<(Seq<char>, Seq<char>)>, int)> {
    match crate::json::eat_spec(s, i, "["@) {
        None => None,
        Some(j) => match crate::json::eat_spec(s, j, "]"@) {
            Some(k) => Some((Seq::empty(), k)),
            None => parse_envs_items(s, j),
        },
    }
}

/// Parses a whole session record line, fields in their canonical
/// order, whitespace tolerated between tokens.
pub open spec fn parse_session(s: Seq<char>) -> Option<SessionV> {
    match crate::json::eat_spec(s, 0, "{"@) {
        None => None,
        Some(i1) => match crate::json::parse_field_str(s, i1, "\"id\""@) {
            None => None,
            Some((id, i2)) => match crate::json::eat_spec(s, i2, ","@) {
                None => None,
                Some(i3) => match crate::json::parse_field_optstr(s, i3, "\"name\""@) {
                    None => None,
                    Some((name, i4)) => parse_session_mounts(s, i4, id, name),
                },
            },
        },
    }
}

/// The record tail from the mount array on.
pub open spec fn parse_session_mounts(
    s: Seq<char>,
    i: int,
    id: Seq<char>,
    name: Option<Seq<char>>,
) -> Option<SessionV> {
    match crate::json::eat_spec(s, i, ","@) {
        None => None,
        Some(i5) => match crate::json::eat_spec(s, i5, "\"mounts\""@) {
            None => None,
            Some(i6) => match crate::json::eat_spec(s, i6, ":"@) {
                None => None,
                Some(i7) => match parse_mounts(s, i7) {
                    None => None,
                    Some((mounts, i8)) => match crate::json::eat_spec(s, i8, ","@) {
                        None => None,
                        Some(i9) => match crate::json::eat_spec(s, i9, "\"env_vars\""@) {
                            None => None,
                            Some(i10) => match crate::json::eat_spec(s, i10, ":"@) {
                                None => None,
                                Some(i11) => match parse_envs(s, i11) {
                                    None => None,
                                    Some((envs, i12)) => parse_session_tail(
                                        s,
                                        i12,
                                        id,
                                        name,
                                        mounts,
                                        envs,
                                    ),
                                },
                            },
                        },
                    },
                },
            },
        },
    }
}

/// The record tail from the working directory on.
pub open spec fn parse_session_tail(
    s: Seq<char>,
    i: int,
    id: Seq<char>,
    name: Option<Seq<char>>,
    mounts: Seq<SMountV>,
    envs: Seq<(Seq<char>, Seq<char>)>,
) -> Option<SessionV> {
    match crate::json::eat_spec(s, i, ","@) {
        None => None,
        Some(i13) => match crate::json::parse_field_str(s, i13, "\"workdir\""@) {
            None => None,
            Some((workdir, i14)) => match crate::json::eat_spec(s, i14, ","@) {
                None => None,
                Some(i15) => match crate::json::parse_field_optstr(s, i15, "\"wasm_binary\""@) {
                    None => None,
                    Some((wasm, i16)) => match crate::json::eat_spec(s, i16, ","@) {
                        None => None,
                        Some(i17) => match crate::json::parse_field_nat(
                            s,
                            i17,
                            "\"created_at\""@,
                        ) {
                            None => None,
                            Some((created, i18)) => match crate::json::eat_spec(s, i18, ","@) {
                                None => None,
                                Some(i19) => match crate::json::parse_field_nat(
                                    s,
                                    i19,
                                    "\"last_activity\""@,
                                ) {
                                    None => None,
                                    Some((last, i20)) => match crate::json::eat_spec(
                                        s,
                                        i20,
                                        ","@,
                                    ) {
                                        None => None,
                                        Some(i21) => match crate::json::parse_field_optnat(
                                            s,
                                            i21,
                                            "\"ttl_seconds\""@,
                                        ) {
                                            None => None,
                                            Some((ttl, i22)) => if crate::json::parse_end(
                                                s,
                                                i22,
                                            ) {
                                                Some(
                                                    SessionV {
                                                        id,
                                                        name,
                                                        mounts,
                                                        env_vars: envs,
                                                        workdir,
                                                        wasm_binary: wasm,
                                                        created_at: created,
                                                        last_activity: last,
                                                        ttl_seconds: ttl,
                                                    },
                                                )
                                            } else {
                                                None
                                            },
                                        },
                                    },
                                },
                            },
                        },
                    },
                },
            },
        },
    }
}

/// Appends the printed form of one stored mount.
fn push_smount(out: &mut Vec<char>, m: &SerializableMount)
    ensures
        final(out)@ == old(out)@ + print_smount(m@),
{
    crate::strconv::push_str_chars(out, "{\"host_path\":");
    crate::json::push_quoted(out, m.host_path.as_str());
    crate::strconv::push_str_chars(out, ",\"guest_path\":");
    crate::json::push_quoted(out, m.guest_path.as_str());
    crate::strconv::push_str_chars(out, ",\"readonly\":");
    if m.readonly {
        crate::strconv::push_str_chars(out, "true");
    } else {
        crate::strconv::push_str_chars(out, "false");
    }
    crate::strconv::push_str_chars(out, "}");
    proof {
        reveal_strlit("{\"host_path\":");
        reveal_strlit(",\"guest_path\":");
        reveal_strlit(",\"readonly\":");
        reveal_strlit("{");
        reveal_strlit("}");
        reveal_strlit(",");
        reveal_strlit(":");
        reveal_strlit("\"host_path\"");
        reveal_strlit("\"guest_path\"");
        reveal_strlit("\"readonly\"");
        assert("{\"host_path\":"@ =~= "{"@ + ("\"host_path\""@ + ":"@));
        assert(",\"guest_path\":"@ =~= ","@ + ("\"guest_path\""@ + ":"@));
        assert(",\"readonly\":"@ =~= ","@ + ("\"readonly\""@ + ":"@));
        assert(out@ =~= old(out)@ + print_smount(m@));
    }
}

/// Appends the elements of a non-empty mount array.
fn push_mounts_items(out: &mut Vec<char>, v: &Vec<SerializableMount>, i: usize)
    requires
        i < v.len(),
    ensures
        final(out)@ == old(out)@ + print_mounts_items(
            mounts_view(v@).subrange(i as int, v@.len() as int),
        ),
    decreases v.len() - i,
{
    let ghost ms = mounts_view(v@).subrange(i as int, v@.len() as int);
    push_smount(out, &v[i]);
    assert(ms[0] == v@[i as int]@);
    if i + 1 == v.len() {
        out.push(']');
        proof {
            reveal_strlit("]");
            assert(out@ =~= old(out)@ + (print_smount(ms[0]) + "]"@));
        }
    } else {
        out.push(',');
        push_mounts_items(out, v, i + 1);
        proof {
            reveal_strlit(",");
            assert(ms.subrange(1, ms.len() as int) =~= mounts_view(v@).subrange(
                i + 1 as int,
                v@.len() as int,
            ));
            assert(out@ =~= old(out)@ + (print_smount(ms[0]) + ","@ + print_mounts_items(
                ms.subrange(1, ms.len() as int),
            )));
        }
    }
}

/// Appends the printed form of a mount array.
fn push_mounts(out: &mut Vec<char>, v: &Vec<SerializableMount>)
    ensures
        final(out)@ == old(out)@ + print_mounts(mounts_view(v@)),
{
    out.push('[');
    if v.len() == 0 {
        out.push(']');
        proof {
            reveal_strlit("[");
            reveal_strlit("]");
            assert(out@ =~= old(out)@ + print_mounts(mounts_view(v@)));
        }
    } else {
        push_mounts_items(out, v, 0);
        proof {
            reveal_strlit("[");
            assert(mounts_view(v@).subrange(0, v@.len() as int) =~= mounts_view(v@));
            assert(out@ =~= old(out)@ + print_mounts(mounts_view(v@)));
        }
    }
}

/// Appends the printed form of one environment pair.
fn push_env_pair(out: &mut Vec<char>, p: &(String, String))
    ensures
        final(out)@ == old(out)@ + print_env_pair((p.0@, p.1@)),
{
    out.push('[');
    crate::json::push_quoted(out, p.0.as_str());
    out.push(',');
    crate::json::push_quoted(out, p.1.as_str());
    out.push(']');
    proof {
        reveal_strlit("[");
        reveal_strlit("]");
        reveal_strlit(",");
        assert(out@ =~= old(out)@ + print_env_pair((p.0@, p.1@)));
    }
}

/// Appends the elements of a non-empty environment array.
fn push_envs_items(out: &mut Vec<char>, v: &Vec<(String, String)>, i: usize)
    requires
        i < v.len(),
    ensures
        final(out)@ == old(out)@ + print_envs_items(
            env_view(v@).subrange(i as int, v@.len() as int),
        ),
    decreases v.len() - i,
{
    let ghost es = env_view(v@).subrange(i as int, v@.len() as int);
    push_env_pair(out, &v[i]);
    assert(es[0] == (v@[i as int].0@, v@[i as int].1@));
    if i + 1 == v.len() {
        out.push(']');
        proof {
            reveal_strlit("]");
            assert(out@ =~= old(out)@ + (print_env_pair(es[0]) + "]"@));
        }
    } else {
        out.push(',');
        push_envs_items(out, v, i + 1);
        proof {
            reveal_strlit(",");
            assert(es.subrange(1, es.len() as int) =~= env_view(v@).subrange(
                i + 1 as int,
                v@.len() as int,
            ));
            assert(out@ =~= old(out)@ + (print_env_pair(es[0]) + ","@ + print_envs_items(
                es.subrange(1, es.len() as int),
            )));
        }
    }
}

/// Appends the printed form of an environment array.
fn push_envs(out: &mut Vec<char>, v: &Vec<(String, String)>)
    ensures
        final(out)@ == old(out)@ + print_envs(env_view(v@)),
{
    out.push('[');
    if v.len() == 0 {
        out.push(']');
        proof {
            reveal_strlit("[");
            reveal_strlit("]");
            assert(out@ =~= old(out)@ + print_envs(env_view(v@)));
        }
    } else {
        push_envs_items(out, v, 0);
        proof {
            reveal_strlit("[");
            assert(env_view(v@).subrange(0, v@.len() as int) =~= env_view(v@));
            assert(out@ =~= old(out)@ + print_envs(env_view(v@)));
        }
    }
}

/// Appends `null` or a quoted string.
fn push_optstr(out: &mut Vec<char>, v: &Option<String>)
    ensures
        final(out)@ == old(out)@ + crate::json::opt_str_text(opt_view(*v)),
{
    match v {
        None => {
            crate::strconv::push_str_chars(out, "null");
        },
        Some(s) => {
            crate::json::push_quoted(out, s.as_str());
        },
    }
}

impl Session {
    /// The record as one line of JSON, fields in their canonical
    /// order, exactly as the store writes it.
    #[verifier::rlimit(100)]
    pub fn to_json(&self) -> (r: String)
        ensures
            r@ == print_session(self@),
    {
        let mut out: Vec<char> = Vec::new();
        crate::strconv::push_str_chars(&mut out, "{\"id\":");
        crate::json::push_quoted(&mut out, self.id.as_str());
        crate::strconv::push_str_chars(&mut out, ",\"name\":");
        push_optstr(&mut out, &self.name);
        crate::strconv::push_str_chars(&mut out, ",\"mounts\":");
        push_mounts(&mut out, &self.mounts);
        crate::strconv::push_str_chars(&mut out, ",\"env_vars\":");
        push_envs(&mut out, &self.env_vars);
        crate::strconv::push_str_chars(&mut out, ",\"workdir\":");
        crate::json::push_quoted(&mut out, self.workdir.as_str());
        crate::strconv::push_str_chars(&mut out, ",\"wasm_binary\":");
        push_optstr(&mut out, &self.wasm_binary);
        crate::strconv::push_str_chars(&mut out, ",\"created_at\":");
        crate::strconv::push_u64(&mut out, self.created_at);
        crate::strconv::push_str_chars(&mut out, ",\"last_activity\":");
        crate::strconv::push_u64(&mut out, self.last_activity);
        crate::strconv::push_str_chars(&mut out, ",\"ttl_seconds\":");
        match &self.ttl_seconds {
            None => {
                crate::strconv::push_str_chars(&mut out, "null");
            },
            Some(n) => {
                crate::strconv::push_u64(&mut out, *n);
            },
        }
        crate::strconv::push_str_chars(&mut out, "}");
        proof {
            reveal_strlit("{\"id\":");
            reveal_strlit(",\"name\":");
            reveal_strlit(",\"mounts\":");
            reveal_strlit(",\"env_vars\":");
            reveal_strlit(",\"workdir\":");
            reveal_strlit(",\"wasm_binary\":");
            reveal_strlit(",\"created_at\":");
            reveal_strlit(",\"last_activity\":");
            reveal_strlit(",\"ttl_seconds\":");
            reveal_strlit("{");
            reveal_strlit("}");
            reveal_strlit(",");
            reveal_strlit(":");
            reveal_strlit("\"id\"");
            reveal_strlit("\"name\"");
            reveal_strlit("\"mounts\"");
            reveal_strlit("\"env_vars\"");
            reveal_strlit("\"mounts\":");
            reveal_strlit("\"env_vars\":");
            reveal_strlit("\"workdir\"");
            reveal_strlit("\"wasm_binary\"");
            reveal_strlit("\"created_at\"");
            reveal_strlit("\"last_activity\"");
            reveal_strlit("\"ttl_seconds\"");
            assert("{\"id\":"@ =~= "{"@ + ("\"id\""@ + ":"@));
            assert(",\"name\":"@ =~= ","@ + ("\"name\""@ + ":"@));
            assert(",\"mounts\":"@ =~= ","@ + "\"mounts\":"@);
            assert(",\"env_vars\":"@ =~= ","@ + "\"env_vars\":"@);
            assert(",\"workdir\":"@ =~= ","@ + ("\"workdir\""@ + ":"@));
            assert(",\"wasm_binary\":"@ =~= ","@ + ("\"wasm_binary\""@ + ":"@));
            assert(",\"created_at\":"@ =~= ","@ + ("\"created_at\""@ + ":"@));
            assert(",\"last_activity\":"@ =~= ","@ + ("\"last_activity\""@ + ":"@));
            assert(",\"ttl_seconds\":"@ =~= ","@ + ("\"ttl_seconds\""@ + ":"@));
            assert(out@ =~= print_session(self@));
        }
        crate::strconv::chars_to_string(&out)
    }
}

/// Whether every number of a record shape fits the machine word the
/// struct stores it in.
pub open spec fn session_fits(v: SessionV) -> bool {
    &&& v.created_at <= u64::MAX
    &&& v.last_activity <= u64::MAX
    &&& (v.ttl_seconds matches Some(n) ==> n <= u64::MAX)
}

/// Executable mirror of [`parse_smount`].
fn scan_smount(s: &Vec<char>, i: usize) -> (r: Option<(SerializableMount, usize)>)
    requires
        i <= s.len(),
    ensures
        match r {
            Some(p) => parse_smount(s@, i as int) == Some((p.0@, p.1 as int)) && i < p.1
                <= s.len(),
            None => parse_smount(s@, i as int) is None,
        },
{
    let i1 = match crate::json::eat(s, i, "{") {
        None => { return None; },
        Some(j) => j,
    };
    let (h, i2) = match crate::json::scan_field_str(s, i1, "\"host_path\"") {
        None => { return None; },
        Some(p) => p,
    };
    let i3 = match crate::json::eat(s, i2, ",") {
        None => { return None; },
        Some(j) => j,
    };
    let (g, i4) = match crate::json::scan_field_str(s, i3, "\"guest_path\"") {
        None => { return None; },
        Some(p) => p,
    };
    let i5 = match crate::json::eat(s, i4, ",") {
        None => { return None; },
        Some(j) => j,
    };
    let (ro, i6) = match crate::json::scan_field_bool(s, i5, "\"readonly\"") {
        None => { return None; },
        Some(p) => p,
    };
    match crate::json::eat(s, i6, "}") {
        None => None,
        Some(j) => {
            proof {
                lemma_parse_smount_some_bounds(s@, i as int);
            }
            Some(
                (
                    SerializableMount {
                        host_path: chars_to_string(&h),
                        guest_path: chars_to_string(&g),
                        readonly: ro,
                    },
                    j,
                ),
            )
        },
    }
}

/// Executable mirror of [`parse_mounts_items`].
fn scan_mounts_items(s: &Vec<char>, i: usize) -> (r: Option<(Vec<SerializableMount>, usize)>)
    requires
        i <= s.len(),
    ensures
        match r {
            Some(p) => parse_mounts_items(s@, i as int) == Some(
                (mounts_view(p.0@), p.1 as int),
            ) && p.1 <= s.len(),
            None => parse_mounts_items(s@, i as int) is None,
        },
    decreases s.len() - i,
{
    let (m, j) = match scan_smount(s, i) {
        None => { return None; },
        Some(p) => p,
    };
    if let Some(k) = crate::json::eat(s, j, ",") {
        proof {
            reveal_strlit(",");
            crate::json::lemma_eat_some_bounds(s@, j as int, ","@);
        }
        match scan_mounts_items(s, k) {
            None => None,
            Some((mut rest, l)) => {
                rest.insert(0, m);
                proof {
                    assert(mounts_view(rest@) =~= seq![m@] + mounts_view(
                        rest@.subrange(1, rest@.len() as int),
                    ));
                }
                Some((rest, l))
            },
        }
    } else if let Some(k) = crate::json::eat(s, j, "]") {
        let mut one: Vec<SerializableMount> = Vec::new();
        one.push(m);
        proof {
            assert(mounts_view(one@) =~= seq![m@]);
        }
        Some((one, k))
    } else {
        None
    }
}

/// Executable mirror of [`parse_mounts`].
fn scan_mounts(s: &Vec<char>, i: usize) -> (r: Option<(Vec<SerializableMount>, usize)>)
    requires
        i <= s.len(),
    ensures
        match r {
            Some(p) => parse_mounts(s@, i as int) == Some((mounts_view(p.0@), p.1 as int)) && p.1
                <= s.len(),
            None => parse_mounts(s@, i as int) is None,
        },
{
    let j = match crate::json::eat(s, i, "[") {
        None => { return None; },
        Some(j) => j,
    };
    if let Some(k) = crate::json::eat(s, j, "]") {
        let empty: Vec<SerializableMount> = Vec::new();
        proof {
            assert(mounts_view(empty@) =~= Seq::<SMountV>::empty());
        }
        Some((empty, k))
    } else {
        scan_mounts_items(s, j)
    }
}

/// Executable mirror of [`parse_env_pair`].
fn scan_env_pair(s: &Vec<char>, i: usize) -> (r: Option<((String, String), usize)>)
    requires
        i <= s.len(),
    ensures
        match r {
            Some(p) => parse_env_pair(s@, i as int) == Some(((p.0.0@, p.0.1@), p.1 as int)) && i
                < p.1 <= s.len(),
            None => parse_env_pair(s@, i as int) is None,
        },
{
    let i1 = match crate::json::eat(s, i, "[") {
        None => { return None; },
        Some(j) => j,
    };
    let (k, i2) = match crate::json::scan_quoted(s, i1) {
        None => { return None; },
        Some(p) => p,
    };
    let i3 = match crate::json::eat(s, i2, ",") {
        None => { return None; },
        Some(j) => j,
    };
    let (v, i4) = match crate::json::scan_quoted(s, i3) {
        None => { return None; },
        Some(p) => p,
    };
    match crate::json::eat(s, i4, "]") {
        None => None,
        Some(j) => {
            proof {
                lemma_parse_env_pair_some_bounds(s@, i as int);
            }
            Some(((chars_to_string(&k), chars_to_string(&v)), j))
        },
    }
}

/// Executable mirror of [`parse_envs_items`].
fn scan_envs_items(s: &Vec<char>, i: usize) -> (r: Option<(Vec<(String, String)>, usize)>)
    requires
        i <= s.len(),
    ensures
        match r {
            Some(p) => parse_envs_items(s@, i as int) == Some((env_view(p.0@), p.1 as int)) && p.1
                <= s.len(),
            None => parse_envs_items(s@, i as int) is None,
        },
    decreases s.len() - i,
{
    let (m, j) = match scan_env_pair(s, i) {
        None => { return None; },
        Some(p) => p,
    };
    if let Some(k) = crate::json::eat(s, j, ",") {
        proof {
            reveal_strlit(",");
            crate::json::lemma_eat_some_bounds(s@, j as int, ","@);
        }
        match scan_envs_items(s, k) {
            None => None,
            Some((mut rest, l)) => {
                rest.insert(0, m);
                proof {
                    assert(env_view(rest@) =~= seq![(rest@[0].0@, rest@[0].1@)] + env_view(
                        rest@.subrange(1, rest@.len() as int),
                    ));
                }
                Some((rest, l))
            },
        }
    } else if let Some(k) = crate::json::eat(s, j, "]") {
        let mut one: Vec<(String, String)> = Vec::new();
        one.push(m);
        proof {
            assert(env_view(one@) =~= seq![(one@[0].0@, one@[0].1@)]);
        }
        Some((one, k))
    } else {
        None
    }
}

/// Executable mirror of [`parse_envs`].
fn scan_envs(s: &Vec<char>, i: usize) -> (r: Option<(Vec<(String, String)>, usize)>)
    requires
        i <= s.len(),
    ensures
        match r {
            Some(p) => parse_envs(s@, i as int) == Some((env_view(p.0@), p.1 as int)) && p.1
                <= s.len(),
            None => parse_envs(s@, i as int) is None,
        },
{
    let j = match crate::json::eat(s, i, "[") {
        None => { return None; },
        Some(j) => j,
    };
    if let Some(k) = crate::json::eat(s, j, "]") {
        let empty: Vec<(String, String)> = Vec::new();
        proof {
            assert(env_view(empty@) =~= Seq::<(Seq<char>, Seq<char>)>::empty());
        }
        Some((empty, k))
    } else {
        scan_envs_items(s, j)
    }
}

impl Session {
    /// Reads a record back from its stored line. Yields nothing when
    /// the line does not parse, or when one of its numbers does not
    /// fit the machine word that holds it.
    #[verifier::rlimit(100)]
    pub fn from_json(line: &str) -> (r: Option<Session>)
        ensures
            match r {
                Some(sess) => parse_session(line@) == Some(sess@),
                None => parse_session(line@) is None || !session_fits(
                    parse_session(line@).unwrap(),
                ),
            },
    {
        let s = string_to_chars(line);
        let i1 = match crate::json::eat(&s, 0, "{") {
            None => { return None; },
            Some(j) => j,
        };
        let (id, i2) = match crate::json::scan_field_str(&s, i1, "\"id\"") {
            None => { return None; },
            Some(p) => p,
        };
        let i3 = match crate::json::eat(&s, i2, ",") {
            None => { return None; },
            Some(j) => j,
        };
        let (name, i4) = match crate::json::scan_field_optstr(&s, i3, "\"name\"") {
            None => { return None; },
            Some(p) => p,
        };
        let i5 = match crate::json::eat(&s, i4, ",") {
            None => { return None; },
            Some(j) => j,
        };
        let i6 = match crate::json::eat(&s, i5, "\"mounts\"") {
            None => { return None; },
            Some(j) => j,
        };
        let i7 = match crate::json::eat(&s, i6, ":") {
            None => { return None; },
            Some(j) => j,
        };
        let (mounts, i8) = match scan_mounts(&s, i7) {
            None => { return None; },
            Some(p) => p,
        };
        let i9 = match crate::json::eat(&s, i8, ",") {
            None => { return None; },
            Some(j) => j,
        };
        let i10 = match crate::json::eat(&s, i9, "\"env_vars\"") {
            None => { return None; },
            Some(j) => j,
        };
        let i11 = match crate::json::eat(&s, i10, ":") {
            None => { return None; },
            Some(j) => j,
        };
        let (envs, i12) = match scan_envs(&s, i11) {
            None => { return None; },
            Some(p) => p,
        };
        let i13 = match crate::json::eat(&s, i12, ",") {
            None => { return None; },
            Some(j) => j,
        };
        let (workdir, i14) = match crate::json::scan_field_str(&s, i13, "\"workdir\"") {
            None => { return None; },
            Some(p) => p,
        };
        let i15 = match crate::json::eat(&s, i14, ",") {
            None => { return None; },
            Some(j) => j,
        };
        let (wasm, i16) = match crate::json::scan_field_optstr(&s, i15, "\"wasm_binary\"") {
            None => { return None; },
            Some(p) => p,
        };
        let i17 = match crate::json::eat(&s, i16, ",") {
            None => { return None; },
            Some(j) => j,
        };
        let (created, i18) = match crate::json::scan_field_u64(&s, i17, "\"created_at\"") {
            None => { return None; },
            Some(p) => p,
        };
        let i19 = match crate::json::eat(&s, i18, ",") {
            None => { return None; },
            Some(j) => j,
        };
        let (last, i20) = match crate::json::scan_field_u64(&s, i19, "\"last_activity\"") {
            None => { return None; },
            Some(p) => p,
        };
        let i21 = match crate::json::eat(&s, i20, ",") {
            None => { return None; },
            Some(j) => j,
        };
        let (ttl, i22) = match crate::json::scan_field_optu64(&s, i21, "\"ttl_seconds\"") {
            None => { return None; },
            Some(p) => p,
        };
        if !crate::json::scan_end(&s, i22) {
            return None;
        }
        let sess = Session {
            id: chars_to_string(&id),
            name: match name {
                None => None,
                Some(n) => Some(chars_to_string(&n)),
            },
            mounts,
            env_vars: envs,
            workdir: chars_to_string(&workdir),
            wasm_binary: match wasm {
                None => None,
                Some(w) => Some(chars_to_string(&w)),
            },
            created_at: created,
            last_activity: last,
            ttl_seconds: ttl,
        };
        proof {
            assert(parse_session(line@) == Some(sess@));
        }
        Some(sess)
    }
}

// ---------------------------------------------------------------------------
// Stored records parse back to themselves
// ---------------------------------------------------------------------------

/// A printed mount object parses back to its value.
#[verifier::rlimit(100)]
proof fn lemma_smount_rt_at(s: Seq<char>, i: int, m: SMountV)
    requires
        0 <= i,
        i + print_smount(m).len() <= s.len(),
        s.subrange(i, i + print_smount(m).len()) == print_smount(m),
    ensures
        parse_smount(s, i) == Some((m, i + print_smount(m).len())),
{
    reveal_strlit("{");
    reveal_strlit("}");
    reveal_strlit(",");
    reveal_strlit("\"host_path\"");
    reveal_strlit("\"guest_path\"");
    reveal_strlit("\"readonly\"");
    let f = print_smount(m);
    let f1 = crate::json::field_str("\"host_path\""@, m.host_path);
    let f2 = crate::json::field_str("\"guest_path\""@, m.guest_path);
    let f3 = crate::json::field_bool("\"readonly\""@, m.readonly);
    let h1 = "{"@ + f1;
    let h2 = h1 + ","@;
    let h3 = h2 + f2;
    let h4 = h3 + ","@;
    let h5 = h4 + f3;
    assert(f == h5 + "}"@);
    crate::json::lemma_split_at(s, i, f, h5, "}"@);
    crate::json::lemma_split_at(s, i, h5, h4, f3);
    crate::json::lemma_split_at(s, i, h4, h3, ","@);
    crate::json::lemma_split_at(s, i, h3, h2, f2);
    crate::json::lemma_split_at(s, i, h2, h1, ","@);
    crate::json::lemma_split_at(s, i, h1, "{"@, f1);
    crate::json::lemma_eat_at(s, i, "{"@);
    crate::json::lemma_field_str_at(s, i + 1, "\"host_path\""@, m.host_path);
    let q2 = i + 1 + f1.len() as int;
    crate::json::lemma_eat_at(s, q2, ","@);
    crate::json::lemma_field_str_at(s, q2 + 1, "\"guest_path\""@, m.guest_path);
    let q4 = q2 + 1 + f2.len() as int;
    crate::json::lemma_eat_at(s, q4, ","@);
    crate::json::lemma_field_bool_at(s, q4 + 1, "\"readonly\""@, m.readonly);
    let q6 = q4 + 1 + f3.len() as int;
    crate::json::lemma_eat_at(s, q6, "}"@);
}

/// A printed environment pair parses back to its value.
#[verifier::rlimit(100)]
proof fn lemma_env_pair_rt_at(s: Seq<char>, i: int, p: (Seq<char>, Seq<char>))
    requires
        0 <= i,
        i + print_env_pair(p).len() <= s.len(),
        s.subrange(i, i + print_env_pair(p).len()) == print_env_pair(p),
    ensures
        parse_env_pair(s, i) == Some((p, i + print_env_pair(p).len())),
{
    reveal_strlit("[");
    reveal_strlit("]");
    reveal_strlit(",");
    let f = print_env_pair(p);
    let qk = crate::json::quoted(p.0);
    let qv = crate::json::quoted(p.1);
    let h1 = "["@ + qk;
    let h2 = h1 + ","@;
    let h3 = h2 + qv;
    assert(f == h3 + "]"@);
    crate::json::lemma_split_at(s, i, f, h3, "]"@);
    crate::json::lemma_split_at(s, i, h3, h2, qv);
    crate::json::lemma_split_at(s, i, h2, h1, ","@);
    crate::json::lemma_split_at(s, i, h1, "["@, qk);
    crate::json::lemma_eat_at(s, i, "["@);
    crate::json::lemma_parse_quoted_at(s, i + 1, p.0);
    let q2 = i + 1 + qk.len() as int;
    crate::json::lemma_eat_at(s, q2, ","@);
    crate::json::lemma_parse_quoted_at(s, q2 + 1, p.1);
    let q4 = q2 + 1 + qv.len() as int;
    crate::json::lemma_eat_at(s, q4, "]"@);
}

/// The printed elements of a mount array parse back to the array.
proof fn lemma_mounts_items_rt_at(s: Seq<char>, i: int, ms: Seq<SMountV>)
    requires
        ms.len() >= 1,
        0 <= i,
        i + print_mounts_items(ms).len() <= s.len(),
        s.subrange(i, i + print_mounts_items(ms).len()) == print_mounts_items(ms),
    ensures
        parse_mounts_items(s, i) == Some((ms, i + print_mounts_items(ms).len())),
    decreases ms.len(),
{
    reveal_strlit("]");
    reveal_strlit(",");
    let f = print_mounts_items(ms);
    let pm = print_smount(ms[0]);
    if ms.len() == 1 {
        assert(f == pm + "]"@);
        crate::json::lemma_split_at(s, i, f, pm, "]"@);
        lemma_smount_rt_at(s, i, ms[0]);
        let j = i + pm.len() as int;
        assert(s[j] == s.subrange(j, j + 1)[0]);
        assert(s[j] == ']');
        assert(crate::json::ws_end(s, j) == j);
        assert(crate::json::eat_spec(s, j, ","@) is None) by {
            if crate::json::match_at(s, j, ","@) {
                assert(s.subrange(j, j + 1)[0] == ","@[0]);
            }
        }
        crate::json::lemma_eat_at(s, j, "]"@);
        assert(seq![ms[0]] =~= ms);
    } else {
        let rest = ms.subrange(1, ms.len() as int);
        let h1 = pm + ","@;
        assert(f == h1 + print_mounts_items(rest));
        crate::json::lemma_split_at(s, i, f, h1, print_mounts_items(rest));
        crate::json::lemma_split_at(s, i, h1, pm, ","@);
        lemma_smount_rt_at(s, i, ms[0]);
        let j = i + pm.len() as int;
        crate::json::lemma_eat_at(s, j, ","@);
        lemma_mounts_items_rt_at(s, j + 1, rest);
        assert(seq![ms[0]] + rest =~= ms);
    }
}

/// A printed mount array parses back to its elements.
proof fn lemma_mounts_rt_at(s: Seq<char>, i: int, ms: Seq<SMountV>)
    requires
        0 <= i,
        i + print_mounts(ms).len() <= s.len(),
        s.subrange(i, i + print_mounts(ms).len()) == print_mounts(ms),
    ensures
        parse_mounts(s, i) == Some((ms, i + print_mounts(ms).len())),
{
    reveal_strlit("[");
    reveal_strlit("]");
    reveal_strlit("{");
    let f = print_mounts(ms);
    if ms.len() == 0 {
        assert(f == "["@ + "]"@);
        crate::json::lemma_split_at(s, i, f, "["@, "]"@);
        crate::json::lemma_eat_at(s, i, "["@);
        crate::json::lemma_eat_at(s, i + 1, "]"@);
        assert(parse_mounts(s, i) == Some((Seq::<SMountV>::empty(), i + 2)));
        assert(ms =~= Seq::<SMountV>::empty());
    } else {
        let items = print_mounts_items(ms);
        assert(f == "["@ + items);
        crate::json::lemma_split_at(s, i, f, "["@, items);
        crate::json::lemma_eat_at(s, i, "["@);
        // the array is not empty: its first element opens with a brace
        assert(items[0] == print_smount(ms[0])[0]);
        assert(print_smount(ms[0])[0] == '{');
        assert(s[i + 1] == s.subrange(i + 1, i + 1 + items.len() as int)[0]);
        assert(s[i + 1] == '{');
        assert(crate::json::ws_end(s, i + 1) == i + 1);
        assert(crate::json::eat_spec(s, i + 1, "]"@) is None) by {
            if crate::json::match_at(s, i + 1, "]"@) {
                assert(s.subrange(i + 1, i + 2)[0] == "]"@[0]);
            }
        }
        lemma_mounts_items_rt_at(s, i + 1, ms);
    }
}

/// The printed elements of an environment array parse back to the
/// array.
proof fn lemma_envs_items_rt_at(s: Seq<char>, i: int, es: Seq<(Seq<char>, Seq<char>)>)
    requires
        es.len() >= 1,
        0 <= i,
        i + print_envs_items(es).len() <= s.len(),
        s.subrange(i, i + print_envs_items(es).len()) == print_envs_items(es),
    ensures
        parse_envs_items(s, i) == Some((es, i + print_envs_items(es).len())),
    decreases es.len(),
{
    reveal_strlit("]");
    reveal_strlit(",");
    let f = print_envs_items(es);
    let pm = print_env_pair(es[0]);
    if es.len() == 1 {
        assert(f == pm + "]"@);
        crate::json::lemma_split_at(s, i, f, pm, "]"@);
        lemma_env_pair_rt_at(s, i, es[0]);
        let j = i + pm.len() as int;
        assert(s[j] == s.subrange(j, j + 1)[0]);
        assert(s[j] == ']');
        assert(crate::json::ws_end(s, j) == j);
        assert(crate::json::eat_spec(s, j, ","@) is None) by {
            if crate::json::match_at(s, j, ","@) {
                assert(s.subrange(j, j + 1)[0] == ","@[0]);
            }
        }
        crate::json::lemma_eat_at(s, j, "]"@);
        assert(seq![es[0]] =~= es);
    } else {
        let rest = es.subrange(1, es.len() as int);
        let h1 = pm + ","@;
        assert(f == h1 + print_envs_items(rest));
        crate::json::lemma_split_at(s, i, f, h1, print_envs_items(rest));
        crate::json::lemma_split_at(s, i, h1, pm, ","@);
        lemma_env_pair_rt_at(s, i, es[0]);
        let j = i + pm.len() as int;
        crate::json::lemma_eat_at(s, j, ","@);
        lemma_envs_items_rt_at(s, j + 1, rest);
        assert(seq![es[0]] + rest =~= es);
    }
}

/// A printed environment array parses back to its elements.
proof fn lemma_envs_rt_at(s: Seq<char>, i: int, es: Seq<(Seq<char>, Seq<char>)>)
    requires
        0 <= i,
        i + print_envs(es).len() <= s.len(),
        s.subrange(i, i + print_envs(es).len()) == print_envs(es),
    ensures
        parse_envs(s, i) == Some((es, i + print_envs(es).len())),
{
    reveal_strlit("[");
    reveal_strlit("]");
    let f = print_envs(es);
    if es.len() == 0 {
        assert(f == "["@ + "]"@);
        crate::json::lemma_split_at(s, i, f, "["@, "]"@);
        crate::json::lemma_eat_at(s, i, "["@);
        crate::json::lemma_eat_at(s, i + 1, "]"@);
        assert(parse_envs(s, i) == Some((Seq::<(Seq<char>, Seq<char>)>::empty(), i + 2)));
        assert(es =~= Seq::<(Seq<char>, Seq<char>)>::empty());
    } else {
        let items = print_envs_items(es);
        assert(f == "["@ + items);
        crate::json::lemma_split_at(s, i, f, "["@, items);
        crate::json::lemma_eat_at(s, i, "["@);
        assert(items[0] == print_env_pair(es[0])[0]);
        assert(print_env_pair(es[0])[0] == '[');
        assert(s[i + 1] == s.subrange(i + 1, i + 1 + items.len() as int)[0]);
        assert(s[i + 1] == '[');
        assert(crate::json::ws_end(s, i + 1) == i + 1);
        assert(crate::json::eat_spec(s, i + 1, "]"@) is None) by {
            if crate::json::match_at(s, i + 1, "]"@) {
                assert(s.subrange(i + 1, i + 2)[0] == "]"@[0]);
            }
        }
        lemma_envs_items_rt_at(s, i + 1, es);
    }
}

/// The identifier and name fields parse as printed.
#[verifier::rlimit(100)]
proof fn lemma_sess_rt_front(s: Seq<char>, v: SessionV)
    requires
        sess_front(v).len() <= s.len(),
        s.subrange(0, sess_front(v).len() as int) == sess_front(v),
    ensures
        parse_session(s) == parse_session_mounts(s, sess_front(v).len() as int, v.id, v.name),
{
    reveal_strlit("{");
    reveal_strlit(",");
    reveal_strlit("\"id\"");
    reveal_strlit("\"name\"");
    let f = sess_front(v);
    let f1 = crate::json::field_str("\"id\""@, v.id);
    let f2 = crate::json::field_optstr("\"name\""@, v.name);
    let h1 = "{"@ + f1;
    let h2 = h1 + ","@;
    assert(f == h2 + f2);
    crate::json::lemma_split_at(s, 0, f, h2, f2);
    crate::json::lemma_split_at(s, 0, h2, h1, ","@);
    crate::json::lemma_split_at(s, 0, h1, "{"@, f1);
    crate::json::lemma_eat_at(s, 0, "{"@);
    crate::json::lemma_field_str_at(s, 1, "\"id\""@, v.id);
    let q2 = 1 + f1.len() as int;
    crate::json::lemma_eat_at(s, q2, ","@);
    crate::json::lemma_field_optstr_at(s, q2 + 1, "\"name\""@, v.name);
}

/// The mount and environment arrays parse as printed.
#[verifier::rlimit(100)]
proof fn lemma_sess_rt_mid(
    s: Seq<char>,
    v: SessionV,
    i: int,
    id: Seq<char>,
    name: Option<Seq<char>>,
)
    requires
        0 <= i,
        i + sess_mid(v).len() <= s.len(),
        s.subrange(i, i + sess_mid(v).len()) == sess_mid(v),
    ensures
        parse_session_mounts(s, i, id, name) == parse_session_tail(
            s,
            i + sess_mid(v).len(),
            id,
            name,
            v.mounts,
            v.env_vars,
        ),
{
    reveal_strlit(",");
    reveal_strlit(":");
    reveal_strlit("\"mounts\"");
    reveal_strlit("\"env_vars\"");
    reveal_strlit("\"mounts\":");
    reveal_strlit("\"env_vars\":");
    let f = sess_mid(v);
    let pm = print_mounts(v.mounts);
    let pe = print_envs(v.env_vars);
    let h1 = ","@ + "\"mounts\":"@;
    let h2 = h1 + pm;
    let h3 = h2 + ","@;
    let h4 = h3 + "\"env_vars\":"@;
    assert(f == h4 + pe);
    crate::json::lemma_split_at(s, i, f, h4, pe);
    crate::json::lemma_split_at(s, i, h4, h3, "\"env_vars\":"@);
    crate::json::lemma_split_at(s, i, h3, h2, ","@);
    crate::json::lemma_split_at(s, i, h2, h1, pm);
    crate::json::lemma_split_at(s, i, h1, ","@, "\"mounts\":"@);
    crate::json::lemma_eat_at(s, i, ","@);
    // the "mounts" key and its colon
    crate::json::lemma_sub_at(s, i + 1, "\"mounts\":"@, 0, 8);
    assert("\"mounts\":"@.subrange(0, 8) =~= "\"mounts\""@);
    crate::json::lemma_eat_at(s, i + 1, "\"mounts\""@);
    crate::json::lemma_sub_at(s, i + 1, "\"mounts\":"@, 8, 9);
    assert("\"mounts\":"@.subrange(8, 9) =~= ":"@);
    crate::json::lemma_eat_at(s, i + 9, ":"@);
    lemma_mounts_rt_at(s, i + 10, v.mounts);
    let q1 = i + 10 + pm.len() as int;
    crate::json::lemma_eat_at(s, q1, ","@);
    crate::json::lemma_sub_at(s, q1 + 1, "\"env_vars\":"@, 0, 10);
    assert("\"env_vars\":"@.subrange(0, 10) =~= "\"env_vars\""@);
    crate::json::lemma_eat_at(s, q1 + 1, "\"env_vars\""@);
    crate::json::lemma_sub_at(s, q1 + 1, "\"env_vars\":"@, 10, 11);
    assert("\"env_vars\":"@.subrange(10, 11) =~= ":"@);
    crate::json::lemma_eat_at(s, q1 + 11, ":"@);
    lemma_envs_rt_at(s, q1 + 12, v.env_vars);
}

/// The remaining fields parse as printed, closing the record.
#[verifier::rlimit(100)]
proof fn lemma_sess_rt_back(
    s: Seq<char>,
    v: SessionV,
    i: int,
    id: Seq<char>,
    name: Option<Seq<char>>,
    mounts: Seq<SMountV>,
    envs: Seq<(Seq<char>, Seq<char>)>,
)
    requires
        session_fits(v),
        0 <= i,
        i + sess_back(v).len() == s.len(),
        s.subrange(i, i + sess_back(v).len()) == sess_back(v),
    ensures
        parse_session_tail(s, i, id, name, mounts, envs) == Some(
            SessionV {
                id,
                name,
                mounts,
                env_vars: envs,
                workdir: v.workdir,
                wasm_binary: v.wasm_binary,
                created_at: v.created_at,
                last_activity: v.last_activity,
                ttl_seconds: v.ttl_seconds,
            },
        ),
{
    reveal_strlit(",");
    reveal_strlit("}");
    reveal_strlit("\"workdir\"");
    reveal_strlit("\"wasm_binary\"");
    reveal_strlit("\"created_at\"");
    reveal_strlit("\"last_activity\"");
    reveal_strlit("\"ttl_seconds\"");
    let f = sess_back(v);
    let f1 = crate::json::field_str("\"workdir\""@, v.workdir);
    let f2 = crate::json::field_optstr("\"wasm_binary\""@, v.wasm_binary);
    let f3 = crate::json::field_nat("\"created_at\""@, v.created_at);
    let f4 = crate::json::field_nat("\"last_activity\""@, v.last_activity);
    let f5 = crate::json::field_optnat("\"ttl_seconds\""@, v.ttl_seconds);
    let h1 = ","@ + f1;
    let h2 = h1 + ","@;
    let h3 = h2 + f2;
    let h4 = h3 + ","@;
    let h5 = h4 + f3;
    let h6 = h5 + ","@;
    let h7 = h6 + f4;
    let h8 = h7 + ","@;
    let h9 = h8 + f5;
    assert(f == h9 + "}"@);
    crate::json::lemma_split_at(s, i, f, h9, "}"@);
    crate::json::lemma_split_at(s, i, h9, h8, f5);
    crate::json::lemma_split_at(s, i, h8, h7, ","@);
    crate::json::lemma_split_at(s, i, h7, h6, f4);
    crate::json::lemma_split_at(s, i, h6, h5, ","@);
    crate::json::lemma_split_at(s, i, h5, h4, f3);
    crate::json::lemma_split_at(s, i, h4, h3, ","@);
    crate::json::lemma_split_at(s, i, h3, h2, f2);
    crate::json::lemma_split_at(s, i, h2, h1, ","@);
    crate::json::lemma_split_at(s, i, h1, ","@, f1);
    crate::json::lemma_eat_at(s, i, ","@);
    crate::json::lemma_field_str_at(s, i + 1, "\"workdir\""@, v.workdir);
    let q2 = i + 1 + f1.len() as int;
    crate::json::lemma_eat_at(s, q2, ","@);
    crate::json::lemma_field_optstr_at(s, q2 + 1, "\"wasm_binary\""@, v.wasm_binary);
    let q4 = q2 + 1 + f2.len() as int;
    crate::json::lemma_eat_at(s, q4, ","@);
    let q5 = q4 + 1;
    let q6 = q5 + f3.len() as int;
    // the digits of created_at end at the following comma
    assert(s[q6] == s.subrange(q6, q6 + 1)[0]);
    assert(s[q6] == ',');
    assert(!crate::json::is_dec_digit(s[q6]));
    crate::json::lemma_field_nat_at(s, q5, "\"created_at\""@, v.created_at);
    crate::json::lemma_eat_at(s, q6, ","@);
    let q7 = q6 + 1;
    let q8 = q7 + f4.len() as int;
    assert(s[q8] == s.subrange(q8, q8 + 1)[0]);
    assert(s[q8] == ',');
    assert(!crate::json::is_dec_digit(s[q8]));
    crate::json::lemma_field_nat_at(s, q7, "\"last_activity\""@, v.last_activity);
    crate::json::lemma_eat_at(s, q8, ","@);
    let q9 = q8 + 1;
    let q10e = q9 + f5.len() as int;
    assert(s[q10e] == s.subrange(q10e, q10e + 1)[0]);
    assert(s[q10e] == '}');
    assert(!crate::json::is_dec_digit(s[q10e]));
    crate::json::lemma_field_optnat_at(s, q9, "\"ttl_seconds\""@, v.ttl_seconds);
    crate::json::lemma_eat_at(s, q10e, "}"@);
    assert(crate::json::ws_end(s, q10e + 1) == s.len());
    assert(crate::json::parse_end(s, q10e));
}

/// A record's stored line parses back to exactly the record: the
/// store reads back what it wrote, for every record whose numbers
/// fit the machine word that holds them.
pub proof fn lemma_session_roundtrip(v: SessionV)
    requires
        session_fits(v),
    ensures
        parse_session(print_session(v)) == Some(v),
{
    let s = print_session(v);
    let fm = sess_front(v) + sess_mid(v);
    assert(s == fm + sess_back(v));
    crate::json::lemma_subrange_of_prefix(s, fm, sess_back(v), 0, fm.len() as int);
    assert(fm.subrange(0, fm.len() as int) =~= fm);
    crate::json::lemma_suffix_of_concat(s, fm, sess_back(v));
    crate::json::lemma_split_prefix(s, fm, sess_front(v), sess_mid(v));
    lemma_sess_rt_front(s, v);
    lemma_sess_rt_mid(s, v, sess_front(v).len() as int, v.id, v.name);
    lemma_sess_rt_back(
        s,
        v,
        fm.len() as int,
        v.id,
        v.name,
        v.mounts,
        v.env_vars,
    );
}

// ---------------------------------------------------------------------------
// The session store
// ---------------------------------------------------------------------------

/// The session store: one JSON text per record, keyed by the record
/// identifier — the in-memory image of the store's directory of
/// record files. Reading the directory and writing it back are the
/// caller's part; every rule about lookup, expiry and removal is
/// decided here.
#[derive(Debug)]
pub struct SessionManager {
    /// The record texts, keyed by identifier.
    pub files: Vec<(String, String)>,
}

impl View for SessionManager {
    type V = Seq<(Seq<char>, Seq<char>)>;

    open spec fn view(&self) -> Seq<(Seq<char>, Seq<char>)> {
        env_view(self.files@)
    }
}

/// The record a stored text holds, when it parses and its numbers
/// fit.
pub open spec fn session_of(e: (Seq<char>, Seq<char>)) -> Option<SessionV> {
    match parse_session(e.1) {
        Some(v) => if session_fits(v) {
            Some(v)
        } else {
            None
        },
        None => None,
    }
}

/// Whether a record shape is expired at time `now`.
pub open spec fn expired_at(v: SessionV, now: nat) -> bool {
    match v.ttl_seconds {
        Some(ttl) => now > v.last_activity + ttl,
        None => false,
    }
}

/// The first entry at or after `i` whose key is `id`, or `-1`.
pub open spec fn find_id_from(files: Seq<(Seq<char>, Seq<char>)>, id: Seq<char>, i: int) -> int
    decreases files.len() - i,
{
    if 0 <= i && i < files.len() {
        if files[i].0 == id {
            i
        } else {
            find_id_from(files, id, i + 1)
        }
    } else {
        -1
    }
}

/// The first entry at or after `i` whose record carries the name, or
/// `-1`.
pub open spec fn find_name_from(
    files: Seq<(Seq<char>, Seq<char>)>,
    name: Seq<char>,
    i: int,
) -> int
    decreases files.len() - i,
{
    if 0 <= i && i < files.len() {
        if session_of(files[i]) matches Some(v) && v.name == Some(name) {
            i
        } else {
            find_name_from(files, name, i + 1)
        }
    } else {
        -1
    }
}

/// What the store holds after saving a record text under its id.
pub open spec fn save_spec(
    files: Seq<(Seq<char>, Seq<char>)>,
    id: Seq<char>,
    content: Seq<char>,
) -> Seq<(Seq<char>, Seq<char>)> {
    let j = find_id_from(files, id, 0);
    if j >= 0 {
        files.update(j, (id, content))
    } else {
        files.push((id, content))
    }
}

/// The healthy record a lookup yields, if any: found by identifier
/// or by name, parsed, and not expired.
pub open spec fn get_outcome(
    files: Seq<(Seq<char>, Seq<char>)>,
    key: Seq<char>,
    now: nat,
) -> Option<SessionV> {
    let fid = find_id_from(files, key, 0);
    if fid >= 0 {
        match session_of(files[fid]) {
            Some(v) => if expired_at(v, now) {
                None
            } else {
                Some(v)
            },
            None => None,
        }
    } else {
        let nid = find_name_from(files, key, 0);
        if nid >= 0 {
            let v = session_of(files[nid]).unwrap();
            if expired_at(v, now) {
                None
            } else {
                Some(v)
            }
        } else {
            None
        }
    }
}

/// What the store holds after a lookup: an expired record found on
/// the way is removed, everything else stays.
pub open spec fn get_files_after(
    files: Seq<(Seq<char>, Seq<char>)>,
    key: Seq<char>,
    now: nat,
) -> Seq<(Seq<char>, Seq<char>)> {
    let fid = find_id_from(files, key, 0);
    if fid >= 0 {
        match session_of(files[fid]) {
            Some(v) => if expired_at(v, now) {
                files.remove(fid)
            } else {
                files
            },
            None => files,
        }
    } else {
        let nid = find_name_from(files, key, 0);
        if nid >= 0 && expired_at(session_of(files[nid]).unwrap(), now) {
            files.remove(nid)
        } else {
            files
        }
    }
}

/// A fruitless lookup whose cause is an unreadable entry: the key
/// matched a stored identifier, but its text does not parse back to
/// a record.
pub open spec fn get_failure_is_json(files: Seq<(Seq<char>, Seq<char>)>, key: Seq<char>) -> bool {
    let fid = find_id_from(files, key, 0);
    fid >= 0 && session_of(files[fid]) is None
}

/// A fruitless lookup whose cause is expiry: the key matched a
/// record, by identifier or by name, whose TTL has elapsed.
pub open spec fn get_failure_is_expired(
    files: Seq<(Seq<char>, Seq<char>)>,
    key: Seq<char>,
    now: nat,
) -> bool {
    let fid = find_id_from(files, key, 0);
    if fid >= 0 {
        session_of(files[fid]) matches Some(v) && expired_at(v, now)
    } else {
        let nid = find_name_from(files, key, 0);
        nid >= 0 && expired_at(session_of(files[nid]).unwrap(), now)
    }
}

impl SessionManager {
    /// A store with no records.
    pub fn new() -> (r: Self)
        ensures
            r@ == Seq::<(Seq<char>, Seq<char>)>::empty(),
    {
        let r = SessionManager { files: Vec::new() };
        proof {
            assert(r@ =~= Seq::<(Seq<char>, Seq<char>)>::empty());
        }
        r
    }

    /// A store over record texts read from elsewhere, in their given
    /// order.
    pub fn from_files(files: Vec<(String, String)>) -> (r: Self)
        ensures
            r@ == env_view(files@),
    {
        SessionManager { files }
    }

    /// Finds the entry stored under an identifier.
    fn find_id(&self, id: &str) -> (r: Option<usize>)
        ensures
            match r {
                Some(j) => find_id_from(self@, id@, 0) == j as int && j < self.files@.len(),
                None => find_id_from(self@, id@, 0) == -1,
            },
    {
        let mut k: usize = 0;
        while k < self.files.len()
            invariant
                k <= self.files@.len(),
                find_id_from(self@, id@, 0) == find_id_from(self@, id@, k as int),
            decreases self.files@.len() - k,
        {
            if crate::strconv::chars_eq_str(&string_to_chars(self.files[k].0.as_str()), id) {
                assert(self@[k as int].0 == id@);
                return Some(k);
            }
            assert(self@[k as int].0 != id@);
            k += 1;
        }
        None
    }

    /// Saves a record: its text replaces the entry under the same
    /// identifier, or a new entry is appended.
    pub fn save(&mut self, session: &Session)
        ensures
            final(self)@ == save_spec(old(self)@, session.id@, print_session(session@)),
    {
        let content = session.to_json();
        let id = session.id.clone();
        match self.find_id(session.id.as_str()) {
            Some(j) => {
                self.files.remove(j);
                self.files.insert(j, (id, content));
                proof {
                    assert(self@ =~= old(self)@.update(
                        find_id_from(old(self)@, session.id@, 0),
                        (session.id@, print_session(session@)),
                    ));
                }
            },
            None => {
                self.files.push((id, content));
                proof {
                    assert(self@ =~= old(self)@.push((session.id@, print_session(session@))));
                }
            },
        }
    }

    /// Looks a record up by identifier or name at time `now`. A
    /// record found expired is removed and reported expired; a
    /// missing one is reported not found; a found healthy one is
    /// returned with the store unchanged.
    pub fn get(&mut self, id_or_name: &str, now: u64) -> (r: Result<Session, BashletError>)
        ensures
            final(self)@ == get_files_after(old(self)@, id_or_name@, now as nat),
            match r {
                Ok(sess) => get_outcome(old(self)@, id_or_name@, now as nat) == Some(sess@),
                Err(e) => ({
                    let files = old(self)@;
                    let key = id_or_name@;
                    &&& get_outcome(files, key, now as nat) is None
                    &&& (get_failure_is_json(files, key) ==> e is Json)
                    &&& (get_failure_is_expired(files, key, now as nat) ==> (
                    e matches BashletError::SessionExpired { id } && id@ == key))
                    &&& (!get_failure_is_json(files, key) && !get_failure_is_expired(
                        files,
                        key,
                        now as nat,
                    ) ==> (e matches BashletError::SessionNotFound { id } && id@ == key))
                }),
            },
    {
        if let Some(j) = self.find_id(id_or_name) {
            let content = self.files[j].1.clone();
            match Session::from_json(content.as_str()) {
                None => {
                    return Err(
                        BashletError::Json(String::from_str("could not parse session record")),
                    );
                },
                Some(sess) => {
                    if sess.is_expired(now) {
                        self.files.remove(j);
                        return Err(
                            BashletError::SessionExpired { id: String::from_str(id_or_name) },
                        );
                    }
                    return Ok(sess);
                },
            }
        }
        // scan for a record carrying the name
        let mut k: usize = 0;
        while k < self.files.len()
            invariant
                k <= self.files@.len(),
                find_id_from(self@, id_or_name@, 0) == -1,
                find_name_from(self@, id_or_name@, 0) == find_name_from(
                    self@,
                    id_or_name@,
                    k as int,
                ),
                self@ == old(self)@,
            decreases self.files@.len() - k,
        {
            let content = self.files[k].1.clone();
            match Session::from_json(content.as_str()) {
                Some(sess) => {
                    let matches_name = match &sess.name {
                        Some(n) => crate::strconv::chars_eq_str(
                            &string_to_chars(n.as_str()),
                            id_or_name,
                        ),
                        None => false,
                    };
                    if matches_name {
                        assert(session_of(self@[k as int]) == Some(sess@));
                        assert(find_name_from(self@, id_or_name@, k as int) == k);
                        if sess.is_expired(now) {
                            self.files.remove(k);
                            return Err(
                                BashletError::SessionExpired {
                                    id: String::from_str(id_or_name),
                                },
                            );
                        }
                        return Ok(sess);
                    }
                    proof {
                        match session_of(self@[k as int]) {
                            Some(v) => {
                                assert(v == sess@);
                                assert(v.name != Some(id_or_name@));
                            },
                            None => {},
                        }
                    }
                },
                None => {
                    proof {
                        assert(session_of(self@[k as int]) is None);
                    }
                },
            }
            k += 1;
        }
        Err(BashletError::SessionNotFound { id: String::from_str(id_or_name) })
    }

    /// Deletes a record by identifier or, failing that, by name.
    /// Expiry is not consulted: a found record is removed either way.
    pub fn delete(&mut self, id_or_name: &str) -> (r: Result<(), BashletError>)
        ensures
            ({
                let fid = find_id_from(old(self)@, id_or_name@, 0);
                let nid = find_name_from(old(self)@, id_or_name@, 0);
                if fid >= 0 {
                    r is Ok && final(self)@ == old(self)@.remove(fid)
                } else if nid >= 0 {
                    r is Ok && final(self)@ == old(self)@.remove(nid)
                } else {
                    (r matches Err(BashletError::SessionNotFound { id }) && id@ == id_or_name@)
                        && final(self)@ == old(self)@
                }
            }),
    {
        if let Some(j) = self.find_id(id_or_name) {
            self.files.remove(j);
            return Ok(());
        }
        let mut k: usize = 0;
        while k < self.files.len()
            invariant
                k <= self.files@.len(),
                find_id_from(self@, id_or_name@, 0) == -1,
                find_name_from(self@, id_or_name@, 0) == find_name_from(
                    self@,
                    id_or_name@,
                    k as int,
                ),
                self@ == old(self)@,
            decreases self.files@.len() - k,
        {
            let content = self.files[k].1.clone();
            match Session::from_json(content.as_str()) {
                Some(sess) => {
                    let matches_name = match &sess.name {
                        Some(n) => crate::strconv::chars_eq_str(
                            &string_to_chars(n.as_str()),
                            id_or_name,
                        ),
                        None => false,
                    };
                    if matches_name {
                        assert(session_of(self@[k as int]) == Some(sess@));
                        assert(find_name_from(self@, id_or_name@, k as int) == k);
                        self.files.remove(k);
                        return Ok(());
                    }
                    proof {
                        match session_of(self@[k as int]) {
                            Some(v) => {
                                assert(v == sess@);
                                assert(v.name != Some(id_or_name@));
                            },
                            None => {},
                        }
                    }
                },
                None => {
                    proof {
                        assert(session_of(self@[k as int]) is None);
                    }
                },
            }
            k += 1;
        }
        Err(BashletError::SessionNotFound { id: String::from_str(id_or_name) })
    }
}

impl Default for SessionManager {
    /// The default store is the empty one.
    fn default() -> (r: Self)
        ensures
            r@ == Seq::<(Seq<char>, Seq<char>)>::empty(),
    {
        SessionManager::new()
    }
}

/// The record shapes of the entries that parse, in store order.
pub open spec fn parsed_from(files: Seq<(Seq<char>, Seq<char>)>, i: int) -> Seq<SessionV>
    decreases files.len() - i,
{
    if 0 <= i && i < files.len() {
        match session_of(files[i]) {
            Some(v) => seq![v] + parsed_from(files, i + 1),
            None => parsed_from(files, i + 1),
        }
    } else {
        Seq::empty()
    }
}

/// The record shapes of a sequence of sessions.
pub open spec fn views_of(ss: Seq<Session>) -> Seq<SessionV> {
    ss.map_values(|s: Session| s@)
}

impl SessionManager {
    /// All records that parse, newest first by creation time.
    /// Unparseable entries are skipped; expired records are listed
    /// too (cleanup is a separate step).
    pub fn list(&self) -> (r: Vec<Session>)
        ensures
            views_of(r@).to_multiset() == parsed_from(self@, 0).to_multiset(),
            forall|i: int, j: int|
                0 <= i <= j < r@.len() ==> #[trigger] r@[i].created_at >= #[trigger] r@[j].created_at,
    {
        let mut collected: Vec<Session> = Vec::new();
        let mut k: usize = 0;
        while k < self.files.len()
            invariant
                k <= self.files@.len(),
                parsed_from(self@, 0) == views_of(collected@) + parsed_from(self@, k as int),
            decreases self.files@.len() - k,
        {
            let ghost oldc = collected@;
            let content = self.files[k].1.clone();
            match Session::from_json(content.as_str()) {
                Some(sess) => {
                    collected.push(sess);
                    proof {
                        assert(session_of(self@[k as int]) == Some(sess@));
                        assert(views_of(collected@) =~= views_of(oldc).push(sess@));
                        assert(parsed_from(self@, k as int) == seq![sess@] + parsed_from(
                            self@,
                            k + 1 as int,
                        ));
                        assert(views_of(oldc) + (seq![sess@] + parsed_from(self@, k + 1 as int))
                            =~= views_of(oldc).push(sess@) + parsed_from(self@, k + 1 as int));
                    }
                },
                None => {
                    proof {
                        assert(session_of(self@[k as int]) is None);
                    }
                },
            }
            k += 1;
        }
        proof {
            assert(parsed_from(self@, self.files@.len() as int) =~= Seq::<SessionV>::empty());
            assert(views_of(collected@) =~= parsed_from(self@, 0));
        }
        sort_sessions_desc(collected)
    }

    /// Removes every expired record; yields how many went.
    pub fn cleanup_expired(&mut self, now: u64) -> (r: usize)
        ensures
            final(self)@ == cleanup_spec(old(self)@, now as nat),
            r == old(self)@.len() - final(self)@.len(),
    {
        let mut kept: Vec<(String, String)> = Vec::new();
        let mut removed: usize = 0;
        let mut k: usize = 0;
        while k < self.files.len()
            invariant
                k <= self.files@.len(),
                env_view(kept@) == cleanup_spec(self@.subrange(0, k as int), now as nat),
                removed == k - env_view(kept@).len(),
                removed <= k,
            decreases self.files@.len() - k,
        {
            let ghost prefix = self@.subrange(0, k as int);
            let content = self.files[k].1.clone();
            let keep = match Session::from_json(content.as_str()) {
                Some(sess) => !sess.is_expired(now),
                None => true,
            };
            if keep {
                let key = self.files[k].0.clone();
                kept.push((key, content));
            } else {
                removed += 1;
            }
            proof {
                assert(self@.subrange(0, k + 1 as int) =~= prefix.push(self@[k as int]));
                lemma_cleanup_snoc(prefix, self@[k as int], now as nat);
                if keep {
                    assert(env_view(kept@) =~= cleanup_spec(
                        self@.subrange(0, k + 1 as int),
                        now as nat,
                    ));
                } else {
                    assert(env_view(kept@) =~= cleanup_spec(
                        self@.subrange(0, k + 1 as int),
                        now as nat,
                    ));
                }
            }
            k += 1;
        }
        proof {
            assert(self@.subrange(0, self@.len() as int) =~= self@);
        }
        self.files = kept;
        removed
    }

    /// Looks a record up, moves its last-activity time to `now`, and
    /// saves it back.
    pub fn touch(&mut self, id_or_name: &str, now: u64) -> (r: Result<(), BashletError>)
        ensures
            match get_outcome(old(self)@, id_or_name@, now as nat) {
                None => r is Err && final(self)@ == get_files_after(
                    old(self)@,
                    id_or_name@,
                    now as nat,
                ),
                Some(sv) => r is Ok && final(self)@ == save_spec(
                    get_files_after(old(self)@, id_or_name@, now as nat),
                    sv.id,
                    print_session(SessionV { last_activity: now as nat, ..sv }),
                ),
            },
    {
        match self.get(id_or_name, now) {
            Err(e) => Err(e),
            Ok(mut sess) => {
                sess.touch(now);
                proof {
                    let sv = get_outcome(old(self)@, id_or_name@, now as nat).unwrap();
                    assert(sess@ == SessionV { last_activity: now as nat, ..sv });
                }
                self.save(&sess);
                Ok(())
            },
        }
    }
}

proof fn lemma_find_id_none(files: Seq<(Seq<char>, Seq<char>)>, key: Seq<char>, i: int)
    requires
        0 <= i <= files.len(),
        forall|k: int| i <= k < files.len() ==> files[k].0 != key,
    ensures
        find_id_from(files, key, i) == -1,
    decreases files.len() - i,
{
    if i < files.len() {
        lemma_find_id_none(files, key, i + 1);
    }
}

proof fn lemma_find_id_at(files: Seq<(Seq<char>, Seq<char>)>, key: Seq<char>, i: int, t: int)
    requires
        0 <= i <= t < files.len(),
        forall|k: int| i <= k < t ==> files[k].0 != key,
        files[t].0 == key,
    ensures
        find_id_from(files, key, i) == t,
    decreases t - i,
{
    if i < t {
        lemma_find_id_at(files, key, i + 1, t);
    }
}

proof fn lemma_find_name_at(files: Seq<(Seq<char>, Seq<char>)>, name: Seq<char>, i: int, t: int)
    requires
        0 <= i <= t < files.len(),
        forall|k: int|
            i <= k < t ==> !(#[trigger] session_of(files[k]) matches Some(v) && v.name == Some(
                name,
            )),
        session_of(files[t]) matches Some(v) && v.name == Some(name),
    ensures
        find_name_from(files, name, i) == t,
    decreases t - i,
{
    if i < t {
        lemma_find_name_at(files, name, i + 1, t);
    }
}

/// A stored record is found by its name in any store, exactly as
/// stored and with the store untouched, for as long as it is not
/// expired — provided the name names no stored identifier and no
/// earlier record carries it (names are unique among live records).
pub proof fn lemma_store_get_by_name(
    files: Seq<(Seq<char>, Seq<char>)>,
    sv: SessionV,
    n: Seq<char>,
    now: nat,
    i: int,
)
    requires
        session_fits(sv),
        sv.name == Some(n),
        !expired_at(sv, now),
        0 <= i < files.len(),
        files[i] == (sv.id, print_session(sv)),
        forall|k: int| 0 <= k < files.len() ==> files[k].0 != n,
        forall|k: int|
            0 <= k < i ==> !(#[trigger] session_of(files[k]) matches Some(v) && v.name == Some(n)),
    ensures
        get_outcome(files, n, now) == Some(sv),
        get_files_after(files, n, now) == files,
{
    lemma_find_id_none(files, n, 0);
    lemma_session_roundtrip(sv);
    assert(session_of(files[i]) == Some(sv));
    lemma_find_name_at(files, n, 0, i);
}

/// A stored record is found by its identifier in any store, exactly
/// as stored and with the store untouched, for as long as it is not
/// expired — provided no earlier entry shares the identifier.
pub proof fn lemma_store_get_by_id(
    files: Seq<(Seq<char>, Seq<char>)>,
    sv: SessionV,
    now: nat,
    i: int,
)
    requires
        session_fits(sv),
        !expired_at(sv, now),
        0 <= i < files.len(),
        files[i] == (sv.id, print_session(sv)),
        forall|k: int| 0 <= k < i ==> files[k].0 != sv.id,
    ensures
        get_outcome(files, sv.id, now) == Some(sv),
        get_files_after(files, sv.id, now) == files,
{
    lemma_find_id_at(files, sv.id, 0, i);
    lemma_session_roundtrip(sv);
    assert(session_of(files[i]) == Some(sv));
}

/// A record saved into an empty store is found again, by its
/// identifier or by its name, exactly as it was saved — for as long
/// as it is not expired.
pub proof fn lemma_store_get_after_save(sv: SessionV, key: Seq<char>, now: nat)
    requires
        session_fits(sv),
        sv.id == key || sv.name == Some(key),
        !expired_at(sv, now),
    ensures
        get_outcome(save_spec(Seq::empty(), sv.id, print_session(sv)), key, now) == Some(sv),
        get_files_after(save_spec(Seq::empty(), sv.id, print_session(sv)), key, now) == save_spec(
            Seq::empty(),
            sv.id,
            print_session(sv),
        ),
{
    let files = save_spec(Seq::<(Seq<char>, Seq<char>)>::empty(), sv.id, print_session(sv));
    assert(find_id_from(Seq::<(Seq<char>, Seq<char>)>::empty(), sv.id, 0) == -1);
    assert(files == Seq::<(Seq<char>, Seq<char>)>::empty().push((sv.id, print_session(sv))));
    assert(files.len() == 1);
    assert(files[0] == (sv.id, print_session(sv)));
    lemma_session_roundtrip(sv);
    assert(session_of(files[0]) == Some(sv));
    if sv.id == key {
        assert(find_id_from(files, key, 0) == 0);
    } else {
        assert(find_id_from(files, key, 1) == -1);
        assert(find_id_from(files, key, 0) == -1);
        assert(find_name_from(files, key, 0) == 0);
    }
}

/// Once the record's TTL has elapsed, the same lookup no longer
/// yields it, and the lookup removes its entry: afterwards the store
/// is empty and a further lookup still yields nothing.
pub proof fn lemma_store_get_after_expiry(sv: SessionV, key: Seq<char>, now: nat)
    requires
        session_fits(sv),
        sv.id == key || sv.name == Some(key),
        expired_at(sv, now),
    ensures
        get_outcome(save_spec(Seq::empty(), sv.id, print_session(sv)), key, now) is None,
        get_files_after(save_spec(Seq::empty(), sv.id, print_session(sv)), key, now)
            == Seq::<(Seq<char>, Seq<char>)>::empty(),
        get_outcome(
            get_files_after(save_spec(Seq::empty(), sv.id, print_session(sv)), key, now),
            key,
            now,
        ) is None,
{
    let files = save_spec(Seq::<(Seq<char>, Seq<char>)>::empty(), sv.id, print_session(sv));
    assert(find_id_from(Seq::<(Seq<char>, Seq<char>)>::empty(), sv.id, 0) == -1);
    assert(files == Seq::<(Seq<char>, Seq<char>)>::empty().push((sv.id, print_session(sv))));
    assert(files.len() == 1);
    assert(files[0] == (sv.id, print_session(sv)));
    lemma_session_roundtrip(sv);
    assert(session_of(files[0]) == Some(sv));
    if sv.id == key {
        assert(find_id_from(files, key, 0) == 0);
    } else {
        assert(find_id_from(files, key, 1) == -1);
        assert(find_id_from(files, key, 0) == -1);
        assert(find_name_from(files, key, 0) == 0);
    }
    assert(files.remove(0) =~= Seq::<(Seq<char>, Seq<char>)>::empty());
}

/// What survives a cleanup at time `now`: every entry except the
/// parsed, expired ones.
pub open spec fn cleanup_spec(
    files: Seq<(Seq<char>, Seq<char>)>,
    now: nat,
) -> Seq<(Seq<char>, Seq<char>)>
    decreases files.len(),
{
    if files.len() == 0 {
        Seq::empty()
    } else {
        let kept = match session_of(files[0]) {
            Some(v) => !expired_at(v, now),
            None => true,
        };
        (if kept {
            seq![files[0]]
        } else {
            Seq::empty()
        }) + cleanup_spec(files.subrange(1, files.len() as int), now)
    }
}

proof fn lemma_cleanup_snoc(files: Seq<(Seq<char>, Seq<char>)>, e: (Seq<char>, Seq<char>), now: nat)
    ensures
        cleanup_spec(files.push(e), now) == cleanup_spec(files, now) + (
        if (match session_of(e) {
            Some(v) => !expired_at(v, now),
            None => true,
        }) {
            seq![e]
        } else {
            Seq::<(Seq<char>, Seq<char>)>::empty()
        }),
    decreases files.len(),
{
    let kept_e = match session_of(e) {
        Some(v) => !expired_at(v, now),
        None => true,
    };
    let tail_e = if kept_e {
        seq![e]
    } else {
        Seq::<(Seq<char>, Seq<char>)>::empty()
    };
    let p = files.push(e);
    if files.len() == 0 {
        assert(p[0] == e);
        assert(p.subrange(1, p.len() as int) =~= Seq::<(Seq<char>, Seq<char>)>::empty());
        assert(cleanup_spec(p.subrange(1, p.len() as int), now) =~= Seq::<
            (Seq<char>, Seq<char>),
        >::empty());
        assert(cleanup_spec(p, now) == tail_e + cleanup_spec(p.subrange(1, p.len() as int), now));
        assert(cleanup_spec(files, now) =~= Seq::<(Seq<char>, Seq<char>)>::empty());
        assert(cleanup_spec(p, now) =~= cleanup_spec(files, now) + tail_e);
    } else {
        assert(p[0] == files[0]);
        let ftail = files.subrange(1, files.len() as int);
        assert(p.subrange(1, p.len() as int) =~= ftail.push(e));
        lemma_cleanup_snoc(ftail, e, now);
        let kept0 = match session_of(files[0]) {
            Some(v) => !expired_at(v, now),
            None => true,
        };
        let head0 = if kept0 {
            seq![files[0]]
        } else {
            Seq::<(Seq<char>, Seq<char>)>::empty()
        };
        assert(cleanup_spec(p, now) == head0 + cleanup_spec(p.subrange(1, p.len() as int), now));
        assert(cleanup_spec(files, now) == head0 + cleanup_spec(ftail, now));
        assert(cleanup_spec(p, now) =~= cleanup_spec(files, now) + tail_e);
    }
}

/// Sorts sessions by creation time, newest first, keeping exactly
/// the same records.
fn sort_sessions_desc(input: Vec<Session>) -> (r: Vec<Session>)
    ensures
        views_of(r@).to_multiset() == views_of(input@).to_multiset(),
        forall|i: int, j: int|
            0 <= i <= j < r@.len() ==> #[trigger] r@[i].created_at >= #[trigger] r@[j].created_at,
{
    broadcast use vstd::seq_lib::group_seq_properties;

    let mut src = input;
    let mut out: Vec<Session> = Vec::new();
    while src.len() > 0
        invariant
            views_of(out@).to_multiset().add(views_of(src@).to_multiset()) == views_of(
                input@,
            ).to_multiset(),
            forall|i: int, j: int|
                0 <= i <= j < out@.len() ==> #[trigger] out@[i].created_at
                    >= #[trigger] out@[j].created_at,
            forall|i: int, j: int|
                0 <= i < out@.len() && 0 <= j < src@.len() ==> #[trigger] out@[i].created_at
                    >= #[trigger] src@[j].created_at,
        decreases src.len(),
    {
        // find the newest remaining record
        let mut mx: usize = 0;
        let mut k: usize = 1;
        while k < src.len()
            invariant
                mx < k <= src@.len() || (k <= src@.len() && mx == 0),
                mx < src@.len(),
                forall|t: int|
                    0 <= t < k ==> #[trigger] src@[t].created_at <= src@[mx as int].created_at,
            decreases src.len() - k,
        {
            if src[k].created_at > src[mx].created_at {
                mx = k;
            }
            k += 1;
        }
        let ghost old_src = src@;
        let ghost old_out = out@;
        let chosen = src.remove(mx);
        out.push(chosen);
        proof {
            old_src.to_multiset_ensures();
            views_of(old_src).to_multiset_ensures();
            assert(views_of(src@) =~= views_of(old_src).remove(mx as int));
            assert(views_of(old_src).remove(mx as int).to_multiset() =~= views_of(
                old_src,
            ).to_multiset().remove(views_of(old_src)[mx as int]));
            assert(views_of(out@) =~= views_of(old_out).push(chosen@));
            views_of(old_out).to_multiset_ensures();
            assert(views_of(old_out).push(chosen@).to_multiset() =~= views_of(
                old_out,
            ).to_multiset().insert(chosen@));
            assert(views_of(old_src)[mx as int] == chosen@);
            assert(views_of(out@).to_multiset().add(views_of(src@).to_multiset()) =~= views_of(
                input@,
            ).to_multiset());
        }
    }
    out
}

/// A whole number of seconds written compactly: seconds under a
/// minute, then whole minutes, hours, and days.
pub open spec fn format_duration_spec(seconds: nat) -> Seq<char> {
    if seconds < 60 {
        dec_digits(seconds) + "s"@
    } else if seconds < 3600 {
        dec_digits(seconds / 60) + "m"@
    } else if seconds < 86400 {
        dec_digits(seconds / 3600) + "h"@
    } else {
        dec_digits(seconds / 86400) + "d"@
    }
}

/// Formats a duration in seconds for listings.
pub fn format_duration(seconds: u64) -> (r: String)
    ensures
        r@ == format_duration_spec(seconds as nat),
{
    proof {
        reveal_strlit("s");
        reveal_strlit("m");
        reveal_strlit("h");
        reveal_strlit("d");
    }
    let mut v: Vec<char> = Vec::new();
    if seconds < 60 {
        crate::strconv::push_u64(&mut v, seconds);
        v.push('s');
    } else if seconds < 3600 {
        crate::strconv::push_u64(&mut v, seconds / 60);
        v.push('m');
    } else if seconds < 86400 {
        crate::strconv::push_u64(&mut v, seconds / 3600);
        v.push('h');
    } else {
        crate::strconv::push_u64(&mut v, seconds / 86400);
        v.push('d');
    }
    assert(v@ =~= format_duration_spec(seconds as nat));
    chars_to_string(&v)
}

} // verus!
