//! Shell quoting and the derived file commands every backend builds
//! on top of `execute`.
//!
//! Content embedded in a single-quoted shell word has its quotes
//! escaped with the close-quote/double-quote/reopen trick, and the
//! file writer doubles backslashes first. The unquoting function
//! models what the remote shell hands the command as its argument,
//! and the proofs pin down exactly which content survives the trip.

use vstd::prelude::*;
use vstd::string::StrSliceExecFns;

use crate::strconv::{chars_to_string, push_str_chars};

verus! {

/// The quote-trick escape for one character: a single quote becomes
/// `'"'"'`, everything else stands for itself.
pub open spec fn sq_esc_char(c: char) -> Seq<char> {
    if c == '\'' {
        seq!['\'', '"', '\'', '"', '\'']
    } else {
        seq![c]
    }
}

/// A string escaped for a single-quoted shell word.
pub open spec fn sq_escape(s: Seq<char>) -> Seq<char>
    decreases s.len(),
{
    if s.len() == 0 {
        Seq::empty()
    } else {
        sq_esc_char(s[0]) + sq_escape(s.subrange(1, s.len() as int))
    }
}

/// The file-writer escape for one character: backslashes double,
/// quotes take the quote trick, everything else stands for itself.
pub open spec fn content_esc_char(c: char) -> Seq<char> {
    if c == '\\' {
        seq!['\\', '\\']
    } else {
        sq_esc_char(c)
    }
}

/// A file content escaped for the `printf` write command.
pub open spec fn content_escape(s: Seq<char>) -> Seq<char>
    decreases s.len(),
{
    if s.len() == 0 {
        Seq::empty()
    } else {
        content_esc_char(s[0]) + content_escape(s.subrange(1, s.len() as int))
    }
}

/// What a POSIX shell hands over for a single-quoted word carrying
/// the escaped text: the quote trick collapses back to one quote,
/// every other character stands for itself.
pub open spec fn sq_unescape(s: Seq<char>) -> Seq<char>
    decreases s.len(),
{
    if s.len() == 0 {
        Seq::empty()
    } else if s.len() >= 5 && s[0] == '\'' && s[1] == '"' && s[2] == '\'' && s[3] == '"' && s[4]
        == '\'' {
        seq!['\''] + sq_unescape(s.subrange(5, s.len() as int))
    } else {
        seq![s[0]] + sq_unescape(s.subrange(1, s.len() as int))
    }
}

/// The shell recovers exactly the text that was escaped with the
/// quote trick, for every text.
pub proof fn lemma_sq_roundtrip(v: Seq<char>)
    ensures
        sq_unescape(sq_escape(v)) == v,
    decreases v.len(),
{
    if v.len() > 0 {
        let rest = v.subrange(1, v.len() as int);
        lemma_sq_roundtrip(rest);
        let e = sq_escape(v);
        if v[0] == '\'' {
            assert(e == seq!['\'', '"', '\'', '"', '\''] + sq_escape(rest));
            assert(e.subrange(5, e.len() as int) =~= sq_escape(rest));
            assert(sq_unescape(e) =~= v);
        } else {
            assert(e == seq![v[0]] + sq_escape(rest));
            assert(e[0] == v[0]);
            assert(e.subrange(1, e.len() as int) =~= sq_escape(rest));
            if e.len() >= 5 {
                assert(e[0] != '\'');
            }
            assert(sq_unescape(e) =~= v);
        }
    }
}

/// On text without backslashes the file-writer escape is the plain
/// quote-trick escape.
pub proof fn lemma_content_escape_no_backslash(v: Seq<char>)
    requires
        forall|k: int| 0 <= k < v.len() ==> v[k] != '\\',
    ensures
        content_escape(v) == sq_escape(v),
    decreases v.len(),
{
    if v.len() > 0 {
        lemma_content_escape_no_backslash(v.subrange(1, v.len() as int));
    }
}

/// The escape contract of `write_file` followed by `read_file`:
/// content without backslashes comes back exactly; content with a
/// backslash does not survive the `printf` channel.
pub proof fn lemma_write_read_roundtrip(v: Seq<char>)
    requires
        forall|k: int| 0 <= k < v.len() ==> v[k] != '\\',
    ensures
        sq_unescape(content_escape(v)) == v,
{
    lemma_content_escape_no_backslash(v);
    lemma_sq_roundtrip(v);
}

proof fn lemma_sq_escape_snoc(s: Seq<char>, c: char)
    ensures
        sq_escape(s.push(c)) == sq_escape(s) + sq_esc_char(c),
    decreases s.len(),
{
    if s.len() == 0 {
        assert(s.push(c)[0] == c);
        assert(s.push(c).subrange(1, 1) =~= Seq::<char>::empty());
        assert(sq_escape(s.push(c)) == sq_esc_char(c) + sq_escape(Seq::<char>::empty()));
        assert(sq_esc_char(c) + Seq::<char>::empty() =~= sq_esc_char(c));
        assert(sq_escape(s) + sq_esc_char(c) =~= sq_esc_char(c));
    } else {
        let tail = s.subrange(1, s.len() as int);
        assert(s.push(c).subrange(1, s.len() + 1 as int) =~= tail.push(c));
        lemma_sq_escape_snoc(tail, c);
        assert(s.push(c)[0] == s[0]);
        assert(sq_escape(s.push(c)) == sq_esc_char(s[0]) + (sq_escape(tail) + sq_esc_char(c)));
        assert(sq_escape(s) + sq_esc_char(c) == (sq_esc_char(s[0]) + sq_escape(tail))
            + sq_esc_char(c));
        assert(sq_esc_char(s[0]) + (sq_escape(tail) + sq_esc_char(c)) =~= (sq_esc_char(s[0])
            + sq_escape(tail)) + sq_esc_char(c));
    }
}

proof fn lemma_content_escape_snoc(s: Seq<char>, c: char)
    ensures
        content_escape(s.push(c)) == content_escape(s) + content_esc_char(c),
    decreases s.len(),
{
    if s.len() == 0 {
        assert(s.push(c)[0] == c);
        assert(s.push(c).subrange(1, 1) =~= Seq::<char>::empty());
        assert(content_escape(s.push(c)) == content_esc_char(c) + content_escape(
            Seq::<char>::empty(),
        ));
        assert(content_esc_char(c) + Seq::<char>::empty() =~= content_esc_char(c));
        assert(content_escape(s) + content_esc_char(c) =~= content_esc_char(c));
    } else {
        let tail = s.subrange(1, s.len() as int);
        assert(s.push(c).subrange(1, s.len() + 1 as int) =~= tail.push(c));
        lemma_content_escape_snoc(tail, c);
        assert(s.push(c)[0] == s[0]);
        assert(content_escape(s.push(c)) == content_esc_char(s[0]) + (content_escape(tail)
            + content_esc_char(c)));
        assert(content_escape(s) + content_esc_char(c) == (content_esc_char(s[0])
            + content_escape(tail)) + content_esc_char(c));
        assert(content_esc_char(s[0]) + (content_escape(tail) + content_esc_char(c)) =~= (
        content_esc_char(s[0]) + content_escape(tail)) + content_esc_char(c));
    }
}

/// Appends the quote-trick escape of `s` to `out`.
pub fn push_sq_escaped(out: &mut Vec<char>, s: &str)
    ensures
        final(out)@ == old(out)@ + sq_escape(s@),
{
    let n = s.unicode_len();
    let mut i: usize = 0;
    while i < n
        invariant
            i <= n,
            n == s@.len(),
            out@ == old(out)@ + sq_escape(s@.subrange(0, i as int)),
        decreases n - i,
    {
        let c = s.get_char(i);
        let ghost prefix = s@.subrange(0, i as int);
        if c == '\'' {
            out.push('\'');
            out.push('"');
            out.push('\'');
            out.push('"');
            out.push('\'');
        } else {
            out.push(c);
        }
        proof {
            lemma_sq_escape_snoc(prefix, c);
            assert(s@.subrange(0, i + 1 as int) =~= prefix.push(c));
            assert(out@ =~= old(out)@ + sq_escape(s@.subrange(0, i + 1 as int)));
        }
        i += 1;
    }
    proof {
        assert(s@.subrange(0, n as int) =~= s@);
    }
}

/// Appends the file-writer escape of `s` to `out`.
pub fn push_content_escaped(out: &mut Vec<char>, s: &str)
    ensures
        final(out)@ == old(out)@ + content_escape(s@),
{
    let n = s.unicode_len();
    let mut i: usize = 0;
    while i < n
        invariant
            i <= n,
            n == s@.len(),
            out@ == old(out)@ + content_escape(s@.subrange(0, i as int)),
        decreases n - i,
    {
        let c = s.get_char(i);
        let ghost prefix = s@.subrange(0, i as int);
        if c == '\\' {
            out.push('\\');
            out.push('\\');
        } else if c == '\'' {
            out.push('\'');
            out.push('"');
            out.push('\'');
            out.push('"');
            out.push('\'');
        } else {
            out.push(c);
        }
        proof {
            lemma_content_escape_snoc(prefix, c);
            assert(s@.subrange(0, i + 1 as int) =~= prefix.push(c));
            assert(out@ =~= old(out)@ + content_escape(s@.subrange(0, i + 1 as int)));
        }
        i += 1;
    }
    proof {
        assert(s@.subrange(0, n as int) =~= s@);
    }
}

/// The shell command `write_file` derives from `execute`: `printf`
/// of the escaped content redirected into the single-quoted path.
pub open spec fn write_file_command_spec(path: Seq<char>, content: Seq<char>) -> Seq<char> {
    "printf '%s' '"@ + content_escape(content) + "' > '"@ + path + "'"@
}

/// Builds the `write_file` shell command.
pub fn write_file_command(path: &str, content: &str) -> (r: String)
    ensures
        r@ == write_file_command_spec(path@, content@),
{
    let mut out: Vec<char> = Vec::new();
    push_str_chars(&mut out, "printf '%s' '");
    push_content_escaped(&mut out, content);
    push_str_chars(&mut out, "' > '");
    push_str_chars(&mut out, path);
    push_str_chars(&mut out, "'");
    assert(out@ =~= write_file_command_spec(path@, content@));
    chars_to_string(&out)
}

/// The shell command `read_file` derives from `execute`.
pub open spec fn read_file_command_spec(path: Seq<char>) -> Seq<char> {
    "cat '"@ + path + "'"@
}

/// Builds the `read_file` shell command.
pub fn read_file_command(path: &str) -> (r: String)
    ensures
        r@ == read_file_command_spec(path@),
{
    let mut out: Vec<char> = Vec::new();
    push_str_chars(&mut out, "cat '");
    push_str_chars(&mut out, path);
    push_str_chars(&mut out, "'");
    assert(out@ =~= read_file_command_spec(path@));
    chars_to_string(&out)
}

/// The shell command `list_dir` derives from `execute`.
pub open spec fn list_dir_command_spec(path: Seq<char>) -> Seq<char> {
    "ls -la '"@ + path + "'"@
}

/// Builds the `list_dir` shell command.
pub fn list_dir_command(path: &str) -> (r: String)
    ensures
        r@ == list_dir_command_spec(path@),
{
    let mut out: Vec<char> = Vec::new();
    push_str_chars(&mut out, "ls -la '");
    push_str_chars(&mut out, path);
    push_str_chars(&mut out, "'");
    assert(out@ =~= list_dir_command_spec(path@));
    chars_to_string(&out)
}

} // verus!
