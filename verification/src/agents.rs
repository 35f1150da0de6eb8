//! The rules of the file agents: which local paths and remote VPS paths may
//! be read or written, how a remote path is quoted for the shell, and how a
//! file fetched from GitHub is decoded.

use vstd::prelude::*;
use vstd::utf8::{valid_utf8, decode_utf8, encode_utf8};
use vstd::string::StringSliceAdditionalSpecFns;
use crate::text::{
    chars_of, string_from_chars, trim, trim_chars, trimmed, push_str, split_on, split_chars,
    starts_with, contains, starts_with_chars, contains_chars, is_ws, is_whitespace, chars_eq,
    percent_encode, opt_str,
};

verus! {

// ---------------------------------------------------------------------------
// Allowed directories

/// The non-blank pieces, trimmed.
pub open spec fn nonblank_pieces(ps: Seq<Seq<char>>) -> Seq<Seq<char>>
    decreases ps.len(),
{
    if ps.len() == 0 {
        seq![]
    } else {
        let rest = nonblank_pieces(ps.drop_last());
        if trim(ps.last()).len() > 0 {
            rest.push(trim(ps.last()))
        } else {
            rest
        }
    }
}

/// A `;`-separated list of directories: its trimmed, non-blank entries.
pub open spec fn dir_list(value: Option<Seq<char>>) -> Seq<Seq<char>> {
    match value {
        Some(v) => nonblank_pieces(split_on(v, ';')),
        None => nonblank_pieces(split_on(seq![], ';')),
    }
}

/// The string views of a list of strings.
pub open spec fn views(v: Seq<String>) -> Seq<Seq<char>> {
    v.map_values(|s: String| s@)
}

/// Parses an allowed-directories setting (`;`-separated); an absent or
/// blank setting allows nothing.
pub fn allowed_dirs(value: Option<&str>) -> (dirs: Vec<String>)
    ensures
        views(dirs@) == dir_list(opt_str(value)),
{
    let v = match value {
        Some(v) => chars_of(v),
        None => Vec::new(),
    };
    let ghost vs = match opt_str(value) {
        Some(x) => x,
        None => seq![],
    };
    assert(v@ == vs);
    let pieces = split_chars(&v, ';');
    let ghost ps = split_on(vs, ';');
    let mut dirs: Vec<String> = Vec::new();
    let mut i: usize = 0;
    assert(ps.take(0) =~= Seq::<Seq<char>>::empty());
    while i < pieces.len()
        invariant
            i <= pieces.len(),
            pieces@.len() == ps.len(),
            forall|k: int| 0 <= k < pieces@.len() ==> #[trigger] pieces@[k]@ == ps[k],
            views(dirs@) == nonblank_pieces(ps.take(i as int)),
        decreases pieces.len() - i,
    {
        assert(ps.take(i + 1).drop_last() =~= ps.take(i as int));
        let t = trim_chars(&pieces[i]);
        if t.len() > 0 {
            dirs.push(string_from_chars(&t));
        }
        i = i + 1;
        assert(views(dirs@) =~= nonblank_pieces(ps.take(i as int)));
    }
    assert(ps.take(i as int) =~= ps);
    dirs
}

/// `prefix` is a leading run of the components of `path`.
pub open spec fn component_prefix(prefix: Seq<Seq<char>>, path: Seq<Seq<char>>) -> bool {
    prefix.len() <= path.len() && path.take(prefix.len() as int) == prefix
}

/// `Path::starts_with` against each allowed directory: the candidate's
/// components begin with those of one of them.
pub open spec fn within_allowed(candidate: Seq<Seq<char>>, allowed: Seq<Seq<Seq<char>>>) -> bool {
    exists|i: int| 0 <= i < allowed.len() && component_prefix(allowed[i], candidate)
}

fn is_component_prefix(prefix: &Vec<String>, path: &Vec<String>) -> (b: bool)
    ensures
        b == component_prefix(views(prefix@), views(path@)),
{
    if prefix.len() > path.len() {
        return false;
    }
    let mut i: usize = 0;
    while i < prefix.len()
        invariant
            i <= prefix.len() <= path.len(),
            forall|k: int| 0 <= k < i ==> prefix@[k]@ == path@[k]@,
        decreases prefix.len() - i,
    {
        if !chars_eq(&chars_of(prefix[i].as_str()), &chars_of(path[i].as_str())) {
            assert(views(path@).take(prefix.len() as int)[i as int] != views(prefix@)[i as int]);
            return false;
        }
        i = i + 1;
    }
    assert(views(path@).take(prefix.len() as int) =~= views(prefix@));
    true
}

/// The component lists of some paths.
pub open spec fn path_views(v: Seq<Vec<String>>) -> Seq<Seq<Seq<char>>> {
    v.map_values(|p: Vec<String>| views(p@))
}

/// Whether `candidate` (a resolved path, by components) lies in one of the
/// `allowed` directories (resolved the same way).
pub fn is_within_allowed(candidate: &Vec<String>, allowed: &Vec<Vec<String>>) -> (b: bool)
    ensures
        b == within_allowed(views(candidate@), path_views(allowed@)),
{
    let mut i: usize = 0;
    while i < allowed.len()
        invariant
            i <= allowed.len(),
            forall|k: int| 0 <= k < i ==> !component_prefix(views(allowed@[k]@), views(candidate@)),
        decreases allowed.len() - i,
    {
        if is_component_prefix(&allowed[i], candidate) {
            assert(component_prefix(path_views(allowed@)[i as int], views(candidate@)));
            return true;
        }
        i = i + 1;
    }
    assert forall|k: int| 0 <= k < allowed.len() implies !component_prefix(#[trigger] path_views(allowed@)[k], views(candidate@)) by {
        assert(path_views(allowed@)[k] == views(allowed@[k]@));
    }
    false
}

/// Name for what `{:?}` makes of a string: it quoted, with escapes.
pub uninterp spec fn debug_quoted(s: Seq<char>) -> Seq<char>;

/// `std`'s `Debug` for `str` (`format!("{s:?}")`); its result is named by
/// `debug_quoted`.
#[verifier::external_body]
pub(crate) fn debug_str(s: &str) -> (r: String)
    ensures
        r@ == debug_quoted(s@),
{
    format!("{s:?}")
}

/// The error of a local file request while the agent is off.
pub open spec fn local_disabled_message() -> Seq<char> {
    "local agent is disabled: set OPEN_ENGLISH_AGENT_ALLOWED_DIRS to opt in / ローカルエージェントは無効です(OPEN_ENGLISH_AGENT_ALLOWED_DIRSで許可ディレクトリを設定してください)"@
}

/// The error of a path outside the allowed directories.
pub open spec fn outside_message(requested: Seq<char>) -> Seq<char> {
    "path "@ + debug_quoted(requested) + " is outside the allowed directories / 許可ディレクトリの範囲外です"@
}

fn local_disabled() -> (s: String)
    ensures
        s@ == local_disabled_message(),
{
    String::from_str(
        "local agent is disabled: set OPEN_ENGLISH_AGENT_ALLOWED_DIRS to opt in / ローカルエージェントは無効です(OPEN_ENGLISH_AGENT_ALLOWED_DIRSで許可ディレクトリを設定してください)",
    )
}

fn path_message(before: &str, requested: &str, after: &str) -> (s: String)
    ensures
        s@ == before@ + debug_quoted(requested@) + after@,
{
    let q = debug_str(requested);
    let mut out: Vec<char> = Vec::new();
    push_str(&mut out, before);
    push_str(&mut out, q.as_str());
    push_str(&mut out, after);
    string_from_chars(&out)
}

/// The decision on a read request: the agent must be on (some allowed
/// directory), the path must resolve, and the resolved path must lie in a
/// resolved allowed directory.
pub open spec fn read_decision(
    requested: Seq<char>,
    allowed: Seq<Seq<char>>,
    resolved: Result<Seq<Seq<char>>, Seq<char>>,
    allowed_resolved: Seq<Seq<Seq<char>>>,
) -> Result<(), Seq<char>> {
    if allowed.len() == 0 {
        Err(local_disabled_message())
    } else {
        match resolved {
            Err(e) => Err("failed to resolve path "@ + debug_quoted(requested) + ": "@ + e),
            Ok(c) => if within_allowed(c, allowed_resolved) {
                Ok(())
            } else {
                Err(outside_message(requested))
            },
        }
    }
}

/// The components of a resolved path, or the resolution error.
pub open spec fn resolved_view(r: Result<Vec<String>, String>) -> Result<Seq<Seq<char>>, Seq<char>> {
    match r {
        Ok(c) => Ok(views(c@)),
        Err(e) => Err(e@),
    }
}

/// Checks a read request. `allowed` is the setting's directory list;
/// `resolved` is the requested path resolved to its real location (by
/// components) or the error of resolving it; `allowed_resolved` are the
/// allowed directories that resolve.
pub fn validate_read_path(
    requested: &str,
    allowed: &Vec<String>,
    resolved: &Result<Vec<String>, String>,
    allowed_resolved: &Vec<Vec<String>>,
) -> (r: Result<(), String>)
    ensures
        match (r, read_decision(requested@, views(allowed@), resolved_view(*resolved), path_views(allowed_resolved@))) {
            (Ok(()), Ok(())) => true,
            (Err(m), Err(sm)) => m@ == sm,
            _ => false,
        },
{
    if allowed.len() == 0 {
        return Err(local_disabled());
    }
    match resolved {
        Err(e) => {
            let q = debug_str(requested);
            let mut out: Vec<char> = Vec::new();
            push_str(&mut out, "failed to resolve path ");
            push_str(&mut out, q.as_str());
            push_str(&mut out, ": ");
            push_str(&mut out, e.as_str());
            Err(string_from_chars(&out))
        },
        Ok(c) => if is_within_allowed(c, allowed_resolved) {
            Ok(())
        } else {
            Err(path_message("path ", requested, " is outside the allowed directories / 許可ディレクトリの範囲外です"))
        },
    }
}

/// The decision on a write request: the agent must be on, the path must
/// have a parent directory that resolves, it must name a file, and the
/// resolved parent must lie in a resolved allowed directory.
pub open spec fn write_decision(
    requested: Seq<char>,
    allowed: Seq<Seq<char>>,
    parent: Option<Result<Seq<Seq<char>>, Seq<char>>>,
    has_file_name: bool,
    allowed_resolved: Seq<Seq<Seq<char>>>,
) -> Result<(), Seq<char>> {
    if allowed.len() == 0 {
        Err(local_disabled_message())
    } else {
        match parent {
            None => Err("path "@ + debug_quoted(requested) + " has no parent directory / 親ディレクトリを特定できません"@),
            Some(Err(e)) => Err("failed to resolve parent directory of "@ + debug_quoted(requested) + ": "@ + e),
            Some(Ok(p)) => if !has_file_name {
                Err("path "@ + debug_quoted(requested) + " has no file name / ファイル名を特定できません"@)
            } else if within_allowed(p, allowed_resolved) {
                Ok(())
            } else {
                Err(outside_message(requested))
            },
        }
    }
}

/// Checks a write request. `parent` is `None` when the path has no parent
/// directory, else the parent resolved (by components) or the error of
/// resolving it; `has_file_name` says whether the path names a file.
pub fn validate_write_path(
    requested: &str,
    allowed: &Vec<String>,
    parent: &Option<Result<Vec<String>, String>>,
    has_file_name: bool,
    allowed_resolved: &Vec<Vec<String>>,
) -> (r: Result<(), String>)
    ensures
        match (
            r,
            write_decision(
                requested@,
                views(allowed@),
                match *parent {
                    Some(p) => Some(resolved_view(p)),
                    None => None,
                },
                has_file_name,
                path_views(allowed_resolved@),
            ),
        ) {
            (Ok(()), Ok(())) => true,
            (Err(m), Err(sm)) => m@ == sm,
            _ => false,
        },
{
    if allowed.len() == 0 {
        return Err(local_disabled());
    }
    match parent {
        None => Err(path_message("path ", requested, " has no parent directory / 親ディレクトリを特定できません")),
        Some(Err(e)) => {
            let q = debug_str(requested);
            let mut out: Vec<char> = Vec::new();
            push_str(&mut out, "failed to resolve parent directory of ");
            push_str(&mut out, q.as_str());
            push_str(&mut out, ": ");
            push_str(&mut out, e.as_str());
            Err(string_from_chars(&out))
        },
        Some(Ok(p)) => {
            if !has_file_name {
                return Err(path_message("path ", requested, " has no file name / ファイル名を特定できません"));
            }
            if is_within_allowed(p, allowed_resolved) {
                Ok(())
            } else {
                Err(path_message("path ", requested, " is outside the allowed directories / 許可ディレクトリの範囲外です"))
            }
        },
    }
}

// ---------------------------------------------------------------------------
// Remote paths

/// The decision on a remote path: no `..` anywhere, absolute, the agent on,
/// and under one of the allowed remote directories by string prefix.
pub open spec fn remote_decision(requested: Seq<char>, allowed: Seq<Seq<char>>) -> Result<(), Seq<char>> {
    if contains(requested, ".."@) {
        Err("path must not contain '..' / パスに'..'を含めることはできません"@)
    } else if !(requested.len() > 0 && requested[0] == '/') {
        Err("path must be an absolute remote path starting with '/' / リモート側の絶対パス('/'始まり)を指定してください"@)
    } else if allowed.len() == 0 {
        Err("VPS agent is disabled: set OPEN_ENGLISH_VPS_ALLOWED_PATHS to opt in / VPSエージェントは無効です(OPEN_ENGLISH_VPS_ALLOWED_PATHSで許可パスを設定してください)"@)
    } else if !(exists|i: int| 0 <= i < allowed.len() && starts_with(requested, allowed[i])) {
        Err("path "@ + debug_quoted(requested) + " is outside the allowed remote directories / 許可されたリモートディレクトリの範囲外です"@)
    } else {
        Ok(())
    }
}

/// Checks a remote path against the allowed remote directories.
pub fn validate_remote_path(requested: &str, allowed: &Vec<String>) -> (r: Result<(), String>)
    ensures
        match (r, remote_decision(requested@, views(allowed@))) {
            (Ok(()), Ok(())) => true,
            (Err(m), Err(sm)) => m@ == sm,
            _ => false,
        },
{
    let p = chars_of(requested);
    if contains_chars(&p, &chars_of("..")) {
        return Err(String::from_str("path must not contain '..' / パスに'..'を含めることはできません"));
    }
    if !(p.len() > 0 && p[0] == '/') {
        return Err(
            String::from_str(
                "path must be an absolute remote path starting with '/' / リモート側の絶対パス('/'始まり)を指定してください",
            ),
        );
    }
    if allowed.len() == 0 {
        return Err(
            String::from_str(
                "VPS agent is disabled: set OPEN_ENGLISH_VPS_ALLOWED_PATHS to opt in / VPSエージェントは無効です(OPEN_ENGLISH_VPS_ALLOWED_PATHSで許可パスを設定してください)",
            ),
        );
    }
    let mut i: usize = 0;
    while i < allowed.len()
        invariant
            i <= allowed.len(),
            p@ == requested@,
            !contains(requested@, ".."@),
            requested@.len() > 0 && requested@[0] == '/',
            allowed.len() > 0,
            forall|k: int| 0 <= k < i ==> !starts_with(requested@, #[trigger] views(allowed@)[k]),
        decreases allowed.len() - i,
    {
        if starts_with_chars(&p, &chars_of(allowed[i].as_str())) {
            assert(starts_with(requested@, views(allowed@)[i as int]));
            return Ok(());
        }
        i = i + 1;
    }
    Err(
        path_message(
            "path ",
            requested,
            " is outside the allowed remote directories / 許可されたリモートディレクトリの範囲外です",
        ),
    )
}

/// The body of a single-quoted shell word: each `'` becomes `'"'"'`.
pub open spec fn quote_body(s: Seq<char>) -> Seq<char>
    decreases s.len(),
{
    if s.len() == 0 {
        seq![]
    } else {
        quote_body(s.drop_last()) + if s.last() == '\'' {
            "'\"'\"'"@
        } else {
            seq![s.last()]
        }
    }
}

/// What a POSIX shell reads from a word made only of quoted parts: inside
/// `'...'` every character stands for itself; inside `"..."` every character
/// other than `$`, `` ` `` and `\` stands for itself. `None` for a word with
/// an unquoted character, an unclosed quote, or one of those three inside
/// double quotes.
pub open spec fn shell_word(w: Seq<char>) -> Option<Seq<char>>
    decreases w.len(), 0int,
{
    if w.len() == 0 {
        Some(seq![])
    } else if w[0] == '\'' {
        single_quoted(w.drop_first())
    } else if w[0] == '"' {
        double_quoted(w.drop_first())
    } else {
        None
    }
}

/// The rest of a word after an opening `'`.
pub open spec fn single_quoted(w: Seq<char>) -> Option<Seq<char>>
    decreases w.len(), 1int,
{
    if w.len() == 0 {
        None
    } else if w[0] == '\'' {
        shell_word(w.drop_first())
    } else {
        match single_quoted(w.drop_first()) {
            Some(r) => Some(seq![w[0]] + r),
            None => None,
        }
    }
}

/// The rest of a word after an opening `"`.
pub open spec fn double_quoted(w: Seq<char>) -> Option<Seq<char>>
    decreases w.len(), 1int,
{
    if w.len() == 0 {
        None
    } else if w[0] == '"' {
        shell_word(w.drop_first())
    } else if w[0] == '$' || w[0] == '`' || w[0] == '\\' {
        None
    } else {
        match double_quoted(w.drop_first()) {
            Some(r) => Some(seq![w[0]] + r),
            None => None,
        }
    }
}

/// The quoting of one character.
pub open spec fn quote_char(c: char) -> Seq<char> {
    if c == '\'' {
        "'\"'\"'"@
    } else {
        seq![c]
    }
}

proof fn lemma_quote_front(c: char, t: Seq<char>)
    ensures
        quote_body(seq![c] + t) == quote_char(c) + quote_body(t),
    decreases t.len(),
{
    reveal_strlit("'\"'\"'");
    let s = seq![c] + t;
    if t.len() == 0 {
        assert(s.drop_last() =~= Seq::<char>::empty());
        assert(quote_body(s) == quote_body(s.drop_last()) + quote_char(c));
        assert(Seq::<char>::empty() + quote_char(c) =~= quote_char(c));
        assert(quote_char(c) + quote_body(t) =~= quote_char(c));
    } else {
        assert(s.drop_last() =~= seq![c] + t.drop_last());
        assert(s.last() == t.last());
        lemma_quote_front(c, t.drop_last());
        assert(quote_body(s) == quote_body(s.drop_last()) + quote_char(t.last()));
        assert(quote_body(t) == quote_body(t.drop_last()) + quote_char(t.last()));
        assert(quote_char(c) + quote_body(t.drop_last()) + quote_char(t.last()) =~= quote_char(c) + (quote_body(
            t.drop_last(),
        ) + quote_char(t.last())));
    }
}

/// Inside single quotes, the quoted body of `s` and the closing quote read
/// as `s` followed by whatever the rest of the word reads as.
proof fn lemma_single_quoted_body(s: Seq<char>, rest: Seq<char>)
    ensures
        single_quoted(quote_body(s) + seq!['\''] + rest) == match shell_word(rest) {
            Some(r) => Some(s + r),
            None => None::<Seq<char>>,
        },
    decreases s.len(),
{
    reveal_strlit("'\"'\"'");
    if s.len() == 0 {
        assert(quote_body(s) == Seq::<char>::empty());
        let w = quote_body(s) + seq!['\''] + rest;
        assert(w[0] == '\'');
        assert(w.drop_first() =~= rest);
        match shell_word(rest) {
            Some(r) => assert(s + r =~= r),
            None => {},
        }
    } else {
        let c = s[0];
        let t = s.drop_first();
        assert(s =~= seq![c] + t);
        lemma_quote_front(c, t);
        lemma_single_quoted_body(t, rest);
        let x = quote_body(t) + seq!['\''] + rest;
        let w = quote_body(s) + seq!['\''] + rest;
        assert(w =~= quote_char(c) + x);
        if c == '\'' {
            let w1 = w.drop_first();
            assert(w[0] == '\'');
            assert(w1 =~= seq!['"', '\'', '"', '\''] + x);
            let w2 = w1.drop_first();
            assert(w1[0] == '"');
            assert(w2 =~= seq!['\'', '"', '\''] + x);
            let w3 = w2.drop_first();
            assert(w2[0] == '\'');
            assert(w3 =~= seq!['"', '\''] + x);
            let w4 = w3.drop_first();
            assert(w3[0] == '"');
            assert(w4 =~= seq!['\''] + x);
            assert(w4[0] == '\'');
            assert(w4.drop_first() =~= x);
            assert(shell_word(w4) == single_quoted(x));
            assert(double_quoted(w3) == shell_word(w4));
            assert(double_quoted(w2) == match double_quoted(w3) {
                Some(r) => Some(seq!['\''] + r),
                None => None::<Seq<char>>,
            });
            assert(shell_word(w1) == double_quoted(w2));
            assert(single_quoted(w) == shell_word(w1));
        } else {
            assert(w[0] == c);
            assert(w.drop_first() =~= x);
        }
        match shell_word(rest) {
            Some(r) => {
                assert(seq![c] + (t + r) =~= s + r);
            },
            None => {},
        }
    }
}

/// POSIX shell single-quoting: a shell reads the result as exactly `s`.
pub fn shell_quote(s: &str) -> (r: String)
    ensures
        r@ == seq!['\''] + quote_body(s@) + seq!['\''],
        shell_word(r@) == Some(s@),
{
    proof {
        lemma_single_quoted_body(s@, seq![]);
        let w = seq!['\''] + quote_body(s@) + seq!['\''];
        assert(w[0] == '\'');
        assert(w.drop_first() =~= quote_body(s@) + seq!['\''] + Seq::<char>::empty());
        assert(s@ + Seq::<char>::empty() =~= s@);
    }
    let cs = chars_of(s);
    let mut out: Vec<char> = Vec::new();
    out.push('\'');
    let mut i: usize = 0;
    assert(cs@.take(0) =~= Seq::<char>::empty());
    while i < cs.len()
        invariant
            i <= cs.len(),
            cs@ == s@,
            out@ == seq!['\''] + quote_body(cs@.take(i as int)),
        decreases cs.len() - i,
    {
        assert(cs@.take(i + 1).drop_last() =~= cs@.take(i as int));
        if cs[i] == '\'' {
            push_str(&mut out, "'\"'\"'");
        } else {
            out.push(cs[i]);
        }
        i = i + 1;
        assert(out@ =~= seq!['\''] + quote_body(cs@.take(i as int)));
    }
    out.push('\'');
    assert(cs@.take(i as int) =~= cs@);
    string_from_chars(&out)
}

/// The shell command that prints a remote file.
pub fn remote_read_command(path: &str) -> (r: String)
    ensures
        r@ == "cat "@ + seq!['\''] + quote_body(path@) + seq!['\''],
{
    let q = shell_quote(path);
    let mut out: Vec<char> = Vec::new();
    push_str(&mut out, "cat ");
    push_str(&mut out, q.as_str());
    string_from_chars(&out)
}

/// The shell command that writes standard input to a remote file.
pub fn remote_write_command(path: &str) -> (r: String)
    ensures
        r@ == "cat > "@ + seq!['\''] + quote_body(path@) + seq!['\''],
{
    let q = shell_quote(path);
    let mut out: Vec<char> = Vec::new();
    push_str(&mut out, "cat > ");
    push_str(&mut out, q.as_str());
    string_from_chars(&out)
}

// ---------------------------------------------------------------------------
// GitHub contents

/// A file read from a repository, with the blob sha needed to update it.
#[derive(Debug)]
pub struct FileContent {
    pub content: String,
    pub sha: String,
}

/// Whether the server holds its own GitHub token.
#[derive(Debug)]
pub struct ServerModeStatus {
    pub configured: bool,
}


/// The symbol of the standard base64 alphabet (`A-Z a-z 0-9 + /`) for the
/// 6-bit value `v`.
pub open spec fn b64_symbol(v: int) -> char {
    if v < 26 {
        (65 + v) as char
    } else if v < 52 {
        (71 + v) as char
    } else if v < 62 {
        (v - 4) as char
    } else if v == 62 {
        '+'
    } else {
        '/'
    }
}

/// Standard base64 (RFC 4648) of `b`: each group of three bytes becomes
/// four symbols; a last group of one or two bytes is filled with zero bits
/// and padded with `=` to four.
pub open spec fn base64_encoded(b: Seq<u8>) -> Seq<char>
    decreases b.len(),
{
    if b.len() == 0 {
        Seq::empty()
    } else if b.len() == 1 {
        seq![b64_symbol(b[0] as int / 4), b64_symbol((b[0] as int % 4) * 16), '=', '=']
    } else if b.len() == 2 {
        seq![
            b64_symbol(b[0] as int / 4),
            b64_symbol((b[0] as int % 4) * 16 + b[1] as int / 16),
            b64_symbol((b[1] as int % 16) * 4),
            '=',
        ]
    } else {
        seq![
            b64_symbol(b[0] as int / 4),
            b64_symbol((b[0] as int % 4) * 16 + b[1] as int / 16),
            b64_symbol((b[1] as int % 16) * 4 + b[2] as int / 64),
            b64_symbol(b[2] as int % 64),
        ] + base64_encoded(b.skip(3))
    }
}

/// The bytes that a standard base64 text stands for: the text must be the
/// canonical encoding `base64_encoded` of some bytes (which are then the
/// only ones, see `base64_encoding_is_injective`), else `None`.
pub open spec fn base64_decoded(s: Seq<char>) -> Option<Seq<u8>> {
    if exists|b: Seq<u8>| base64_encoded(b) == s {
        Some(choose|b: Seq<u8>| base64_encoded(b) == s)
    } else {
        None
    }
}

/// The 6-bit value of a symbol of the standard base64 alphabet.
pub open spec fn b64_value(c: char) -> int {
    if 'A' <= c <= 'Z' {
        c as int - 65
    } else if 'a' <= c <= 'z' {
        c as int - 71
    } else if '0' <= c <= '9' {
        c as int + 4
    } else if c == '+' {
        62
    } else {
        63
    }
}

proof fn lemma_b64_symbol_value(v: int)
    requires
        0 <= v < 64,
    ensures
        b64_value(b64_symbol(v)) == v,
        b64_symbol(v) != '=',
{
}

/// The symbols of one group, taken back to the group's bytes.
proof fn lemma_b64_group_injective(a: Seq<u8>, b: Seq<u8>, n: int)
    requires
        1 <= n <= 3,
        a.len() >= n,
        b.len() >= n,
        b64_symbol(a[0] as int / 4) == b64_symbol(b[0] as int / 4),
        n == 1 ==> b64_symbol((a[0] as int % 4) * 16) == b64_symbol((b[0] as int % 4) * 16),
        n >= 2 ==> b64_symbol((a[0] as int % 4) * 16 + a[1] as int / 16) == b64_symbol(
            (b[0] as int % 4) * 16 + b[1] as int / 16,
        ),
        n == 2 ==> b64_symbol((a[1] as int % 16) * 4) == b64_symbol((b[1] as int % 16) * 4),
        n == 3 ==> b64_symbol((a[1] as int % 16) * 4 + a[2] as int / 64) == b64_symbol(
            (b[1] as int % 16) * 4 + b[2] as int / 64,
        ),
        n == 3 ==> b64_symbol(a[2] as int % 64) == b64_symbol(b[2] as int % 64),
    ensures
        forall|i: int| 0 <= i < n ==> a[i] == b[i],
{
    let (a0, b0) = (a[0] as int, b[0] as int);
    lemma_b64_symbol_value(a0 / 4);
    lemma_b64_symbol_value(b0 / 4);
    if n == 1 {
        lemma_b64_symbol_value((a0 % 4) * 16);
        lemma_b64_symbol_value((b0 % 4) * 16);
    } else {
        let (a1, b1) = (a[1] as int, b[1] as int);
        let x = (a0 % 4) * 16 + a1 / 16;
        let y = (b0 % 4) * 16 + b1 / 16;
        lemma_b64_symbol_value(x);
        lemma_b64_symbol_value(y);
        assert(a0 % 4 == b0 % 4 && a1 / 16 == b1 / 16);
        assert(a0 == b0);
        if n == 2 {
            lemma_b64_symbol_value((a1 % 16) * 4);
            lemma_b64_symbol_value((b1 % 16) * 4);
        } else {
            let (a2, b2) = (a[2] as int, b[2] as int);
            lemma_b64_symbol_value((a1 % 16) * 4 + a2 / 64);
            lemma_b64_symbol_value((b1 % 16) * 4 + b2 / 64);
            lemma_b64_symbol_value(a2 % 64);
            lemma_b64_symbol_value(b2 % 64);
            assert(a1 % 16 == b1 % 16 && a2 / 64 == b2 / 64);
        }
    }
}

/// Different bytes have different standard base64 texts.
pub proof fn base64_encoding_is_injective(a: Seq<u8>, b: Seq<u8>)
    requires
        base64_encoded(a) == base64_encoded(b),
    ensures
        a == b,
    decreases a.len(),
{
    let e = base64_encoded(a);
    if a.len() == 0 || b.len() == 0 {
        if a.len() > 0 || b.len() > 0 {
            assert(e.len() == 0);
            if a.len() >= 3 {
                assert(base64_encoded(a).len() >= 4);
            }
            if b.len() >= 3 {
                assert(base64_encoded(b).len() >= 4);
            }
        }
        assert(a =~= b);
    } else {
        let na: int = if a.len() >= 3 { 3 } else { a.len() as int };
        let nb: int = if b.len() >= 3 { 3 } else { b.len() as int };
        lemma_b64_symbol_value((a[0] as int % 4) * 16 + (if na >= 2 { a[1] as int / 16 } else { 0 }));
        if na == 3 {
            lemma_b64_symbol_value((a[1] as int % 16) * 4 + a[2] as int / 64);
            lemma_b64_symbol_value(a[2] as int % 64);
        }
        if nb == 3 {
            lemma_b64_symbol_value((b[1] as int % 16) * 4 + b[2] as int / 64);
            lemma_b64_symbol_value(b[2] as int % 64);
        }
        if na == 2 {
            lemma_b64_symbol_value((a[1] as int % 16) * 4);
        }
        if nb == 2 {
            lemma_b64_symbol_value((b[1] as int % 16) * 4);
        }
        let f = base64_encoded(b);
        assert(e[0] == b64_symbol(a[0] as int / 4));
        assert(f[0] == b64_symbol(b[0] as int / 4));
        assert(e[1] == f[1] && e[2] == f[2] && e[3] == f[3]);
        assert(na == nb);
        lemma_b64_group_injective(a, b, na);
        if na == 3 {
            assert(base64_encoded(a.skip(3)) =~= e.skip(4));
            assert(base64_encoded(b.skip(3)) =~= base64_encoded(b).skip(4));
            base64_encoding_is_injective(a.skip(3), b.skip(3));
            assert(a =~= a.take(3) + a.skip(3));
            assert(b =~= b.take(3) + b.skip(3));
            assert(a.take(3) =~= b.take(3));
        } else {
            assert(a =~= b);
        }
    }
}

/// Standard base64 decodes back to the bytes it was made from.
pub proof fn base64_round_trip(b: Seq<u8>)
    ensures
        base64_decoded(base64_encoded(b)) == Some(b),
{
    let e = base64_encoded(b);
    assert(base64_encoded(b) == e);
    let c = choose|c: Seq<u8>| base64_encoded(c) == e;
    base64_encoding_is_injective(c, b);
}

/// `base64::engine::general_purpose::STANDARD.decode`: the engine decodes
/// exactly the canonical encodings (padding mode `RequireCanonical`,
/// trailing bits refused, no other characters), so it succeeds on
/// `base64_encoded(b)` with `b` and fails on every other text. The error
/// text (the `Display` of `DecodeError`) is not stated.
#[verifier::external_body]
pub(crate) fn base64_decode(s: &str) -> (res: Result<Vec<u8>, String>)
    ensures
        res matches Ok(b) ==> base64_decoded(s@) == Some(b@),
        res is Err ==> base64_decoded(s@) is None,
{
    base64::Engine::decode(&base64::engine::general_purpose::STANDARD, s).map_err(|e| e.to_string())
}

/// A character of the standard base64 alphabet of RFC 4648, or the `=`
/// padding.
pub open spec fn is_base64_char(c: char) -> bool {
    ('A' <= c <= 'Z') || ('a' <= c <= 'z') || ('0' <= c <= '9') || c == '+' || c == '/' || c == '='
}

/// `base64::engine::general_purpose::STANDARD.encode`: the RFC 4648 text
/// `base64_encoded` of the bytes (standard alphabet, canonical `=` padding,
/// zero trailing bits).
#[verifier::external_body]
pub(crate) fn base64_encode(b: &[u8]) -> (res: String)
    ensures
        res@ == base64_encoded(b@),
        forall|i: int| 0 <= i < res@.len() ==> is_base64_char(#[trigger] res@[i]),
{
    base64::Engine::encode(&base64::engine::general_purpose::STANDARD, b)
}

/// `std`'s `String::from_utf8`: the text of the bytes when they are UTF-8.
/// The error text is not stated.
#[verifier::external_body]
pub(crate) fn utf8_string(bytes: Vec<u8>) -> (res: Result<String, String>)
    ensures
        res matches Ok(s) ==> valid_utf8(bytes@) && s@ == decode_utf8(bytes@),
        res is Err ==> !valid_utf8(bytes@),
{
    String::from_utf8(bytes).map_err(|e| e.to_string())
}

/// The characters that are not white space.
pub open spec fn without_ws(s: Seq<char>) -> Seq<char>
    decreases s.len(),
{
    if s.len() == 0 {
        seq![]
    } else if is_ws(s.last()) {
        without_ws(s.drop_last())
    } else {
        without_ws(s.drop_last()).push(s.last())
    }
}

/// What a contents response decodes to: base64 (line breaks and other white
/// space ignored) holding UTF-8 text.
pub open spec fn file_content_spec(content: Seq<char>, encoding: Seq<char>) -> Result<Seq<char>, Seq<char>> {
    if encoding != "base64"@ {
        Err("unexpected encoding from GitHub API: "@ + encoding)
    } else {
        match base64_decoded(without_ws(content)) {
            None => Err("failed to base64-decode file content"@),
            Some(b) => if valid_utf8(b) {
                Ok(decode_utf8(b))
            } else {
                Err("file content is not valid UTF-8 (binary files are not supported by this endpoint)"@)
            },
        }
    }
}

/// Decodes the `content` of a GitHub contents response. An error names its
/// cause after the text of `file_content_spec`, following `": "`.
pub fn decode_file_content(content: &str, encoding: &str, sha: &str) -> (r: Result<FileContent, String>)
    ensures
        match (r, file_content_spec(content@, encoding@)) {
            (Ok(f), Ok(text)) => f.content@ == text && f.sha@ == sha@,
            (Err(m), Err(sm)) => starts_with(m@, sm),
            _ => false,
        },
{
    if !chars_eq(&chars_of(encoding), &chars_of("base64")) {
        let mut out: Vec<char> = Vec::new();
        push_str(&mut out, "unexpected encoding from GitHub API: ");
        push_str(&mut out, encoding);
        let m = string_from_chars(&out);
        assert(m@.take(m@.len() as int) =~= m@);
        return Err(m);
    }
    let cs = chars_of(content);
    let mut cleaned: Vec<char> = Vec::new();
    let mut i: usize = 0;
    assert(cs@.take(0) =~= Seq::<char>::empty());
    while i < cs.len()
        invariant
            i <= cs.len(),
            cs@ == content@,
            cleaned@ == without_ws(cs@.take(i as int)),
        decreases cs.len() - i,
    {
        assert(cs@.take(i + 1).drop_last() =~= cs@.take(i as int));
        if !is_whitespace(cs[i]) {
            cleaned.push(cs[i]);
        }
        i = i + 1;
    }
    assert(cs@.take(i as int) =~= cs@);
    let text = string_from_chars(&cleaned);
    let bytes = match base64_decode(text.as_str()) {
        Ok(b) => b,
        Err(e) => {
            let mut out: Vec<char> = Vec::new();
            push_str(&mut out, "failed to base64-decode file content");
            let ghost pre = out@;
            push_str(&mut out, ": ");
            push_str(&mut out, e.as_str());
            assert(out@.take(pre.len() as int) =~= pre);
            return Err(string_from_chars(&out));
        },
    };
    match utf8_string(bytes) {
        Ok(s) => Ok(FileContent { content: s, sha: String::from_str(sha) }),
        Err(e) => {
            let mut out: Vec<char> = Vec::new();
            push_str(&mut out, "file content is not valid UTF-8 (binary files are not supported by this endpoint)");
            let ghost pre = out@;
            push_str(&mut out, ": ");
            push_str(&mut out, e.as_str());
            assert(out@.take(pre.len() as int) =~= pre);
            Err(string_from_chars(&out))
        },
    }
}

/// Text without white space is its own `without_ws`.
proof fn lemma_without_ws_none(s: Seq<char>)
    requires
        forall|i: int| 0 <= i < s.len() ==> !is_ws(#[trigger] s[i]),
    ensures
        without_ws(s) == s,
    decreases s.len(),
{
    if s.len() > 0 {
        assert(!is_ws(s[s.len() - 1]));
        lemma_without_ws_none(s.drop_last());
        assert(s.drop_last().push(s.last()) =~= s);
    }
}

/// The `content` field of a commit: the file's UTF-8 bytes in base64. What
/// it holds, `decode_file_content` reads back as the same text.
pub fn encode_file_content(content: &str) -> (r: String)
    ensures
        r@ == base64_encoded(encode_utf8(content@)),
        file_content_spec(r@, "base64"@) == Ok::<Seq<char>, Seq<char>>(content@),
{
    let r = base64_encode(content.as_bytes());
    proof {
        base64_round_trip(encode_utf8(content@));
        assert forall|i: int| 0 <= i < r@.len() implies !is_ws(#[trigger] r@[i]) by {
            assert(is_base64_char(r@[i]));
        }
        lemma_without_ws_none(r@);
        vstd::utf8::encode_utf8_valid_utf8(content@);
        vstd::utf8::encode_utf8_decode_utf8(content@);
    }
    r
}

/// Percent-encodes every byte outside `A-Z a-z 0-9 - _ . ~` (upper-case hex),
/// for a branch name in a query.
pub fn urlencode(s: &str) -> (r: String)
    ensures
        r@ == percent_encode(s.spec_bytes()),
{
    crate::text::percent_encode_str(s)
}

/// A token value that counts: trimmed, not blank.
pub open spec fn token_value(v: Option<Seq<char>>) -> Option<Seq<char>> {
    match v {
        Some(t) => if trim(t).len() > 0 {
            Some(trim(t))
        } else {
            None
        },
        None => None,
    }
}

/// The server's GitHub token: `OPEN_ENGLISH_GITHUB_TOKEN`, else the
/// contents of the file named by `OPEN_ENGLISH_GITHUB_TOKEN_FILE`, else the
/// contents of `secrets/github-token.txt`; each trimmed, blank ones skipped.
pub fn server_token(env_token: Option<&str>, token_file: Option<&str>, default_file: Option<&str>) -> (r: Option<String>)
    ensures
        opt_view(r) == match token_value(opt_str(env_token)) {
            Some(t) => Some(t),
            None => match token_value(opt_str(token_file)) {
                Some(t) => Some(t),
                None => token_value(opt_str(default_file)),
            },
        },
{
    match present_trimmed(env_token) {
        Some(t) => Some(t),
        None => match present_trimmed(token_file) {
            Some(t) => Some(t),
            None => present_trimmed(default_file),
        },
    }
}

/// The characters of an optional string.
pub open spec fn opt_view(o: Option<String>) -> Option<Seq<char>> {
    match o {
        Some(s) => Some(s@),
        None => None,
    }
}

fn present_trimmed(v: Option<&str>) -> (r: Option<String>)
    ensures
        opt_view(r) == token_value(opt_str(v)),
{
    match v {
        None => None,
        Some(s) => {
            let t = trimmed(s);
            if t.len() > 0 {
                Some(string_from_chars(&t))
            } else {
                None
            }
        },
    }
}

/// Whether the server holds a GitHub token of its own.
pub fn status(server_token: &Option<String>) -> (s: ServerModeStatus)
    ensures
        s.configured == server_token.is_some(),
{
    ServerModeStatus { configured: server_token.is_some() }
}

} // verus!
