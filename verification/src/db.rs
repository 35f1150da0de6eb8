//! The plain-value side of the database layer: mirror targets, error
//! descriptions, stored messages and the bookkeeping of backups.

use vstd::prelude::*;
use crate::text::{chars_of, string_from_chars, trim, trimmed, push_str, chars_eq, opt_str, contains, contains_chars};
use crate::languages::texts;

verus! {

/// Why an `rsync` (or `pg_dump`) backup failed.
#[derive(Debug)]
pub enum RsyncError {
    NotInstalled,
    Other(String),
}

impl RsyncError {
    /// The message shown to the user.
    pub fn message(&self) -> (s: String)
        ensures
            s@ == match self {
                RsyncError::NotInstalled => "rsync is not installed / rsyncがインストールされていません"@,
                RsyncError::Other(m) => m@,
            },
    {
        match self {
            RsyncError::NotInstalled => String::from_str("rsync is not installed / rsyncがインストールされていません"),
            RsyncError::Other(m) => m.clone(),
        }
    }
}

/// A PostgreSQL-compatible database that messages are mirrored to. The
/// label names it in logs and answers; the URL may hold a password and is
/// never shown.
#[derive(Debug)]
pub struct MirrorTarget {
    pub label: String,
    pub url: String,
}

impl Clone for MirrorTarget {
    fn clone(&self) -> (r: Self)
        ensures
            r.label@ == self.label@,
            r.url@ == self.url@,
    {
        MirrorTarget { label: self.label.clone(), url: self.url.clone() }
    }
}

/// A message stored in the local database.
#[derive(Debug)]
pub struct StoredMessage {
    pub id: i64,
    pub role: String,
    pub content: String,
    pub created_at_unix: i64,
}

/// The label of the primary mirror.
pub open spec fn primary_label() -> Seq<char> {
    "primary (aruaru-db)"@
}

/// The label of the secondary mirror.
pub open spec fn secondary_label() -> Seq<char> {
    "secondary (PostgreSQL)"@
}

/// A setting value that is there and not blank.
pub open spec fn set_value(v: Option<Seq<char>>) -> bool {
    v matches Some(s) && trim(s).len() > 0
}

/// The mirrors from `OPEN_ENGLISH_DATABASE_URL` (primary) and
/// `OPEN_ENGLISH_DATABASE_URL_SECONDARY`, each when set and not blank.
pub fn mirrors_from_values(primary: Option<&str>, secondary: Option<&str>) -> (ms: Vec<MirrorTarget>)
    ensures
        ms.len() == (if set_value(opt_str(primary)) { 1int } else { 0int }) + (if set_value(opt_str(secondary)) {
            1int
        } else {
            0int
        }),
        set_value(opt_str(primary)) ==> ms@[0].label@ == primary_label() && Some(ms@[0].url@) == opt_str(primary),
        set_value(opt_str(secondary)) ==> ms@[ms.len() - 1].label@ == secondary_label() && Some(ms@[ms.len() - 1].url@)
            == opt_str(secondary),
{
    let mut ms: Vec<MirrorTarget> = Vec::new();
    match primary {
        Some(url) => if trimmed(url).len() > 0 {
            ms.push(MirrorTarget { label: String::from_str("primary (aruaru-db)"), url: String::from_str(url) });
        },
        None => {},
    }
    match secondary {
        Some(url) => if trimmed(url).len() > 0 {
            ms.push(MirrorTarget { label: String::from_str("secondary (PostgreSQL)"), url: String::from_str(url) });
        },
        None => {},
    }
    ms
}

/// Whether any mirror is configured.
pub fn has_postgres_mirror(mirrors: &Vec<MirrorTarget>) -> (b: bool)
    ensures
        b == (mirrors.len() > 0),
{
    mirrors.len() > 0
}

/// Whether messages go to two or more mirrors at once.
pub fn is_dual_mirror(mirrors: &Vec<MirrorTarget>) -> (b: bool)
    ensures
        b == (mirrors.len() >= 2),
{
    mirrors.len() >= 2
}

/// The labels of the mirrors, in order (never their URLs).
pub fn mirror_labels(mirrors: &Vec<MirrorTarget>) -> (ls: Vec<String>)
    ensures
        ls.len() == mirrors.len(),
        forall|i: int| 0 <= i < ls.len() ==> #[trigger] ls@[i]@ == mirrors@[i].label@,
{
    let mut ls: Vec<String> = Vec::new();
    let mut i: usize = 0;
    while i < mirrors.len()
        invariant
            i <= mirrors.len(),
            ls.len() == i,
            forall|k: int| 0 <= k < i ==> #[trigger] ls@[k]@ == mirrors@[k].label@,
        decreases mirrors.len() - i,
    {
        ls.push(mirrors[i].label.clone());
        i = i + 1;
    }
    ls
}

/// The first mirror with the given label; a queued write whose label no
/// longer names a mirror is left alone.
pub fn mirror_for_label(mirrors: &Vec<MirrorTarget>, label: &str) -> (r: Option<usize>)
    ensures
        r matches Some(i) ==> i < mirrors.len() && mirrors@[i as int].label@ == label@ && forall|k: int|
            0 <= k < i ==> mirrors@[k].label@ != label@,
        r is None ==> forall|k: int| 0 <= k < mirrors.len() ==> mirrors@[k].label@ != label@,
{
    let l = chars_of(label);
    let mut i: usize = 0;
    while i < mirrors.len()
        invariant
            i <= mirrors.len(),
            l@ == label@,
            forall|k: int| 0 <= k < i ==> mirrors@[k].label@ != label@,
        decreases mirrors.len() - i,
    {
        if chars_eq(&chars_of(mirrors[i].label.as_str()), &l) {
            return Some(i);
        }
        i = i + 1;
    }
    None
}

/// Attempts after which a queued mirror write is given up (kept, flagged).
pub const MAX_OUTBOX_ATTEMPTS: i64 = 100;

/// An error and its causes, outermost first, joined by `" -> "`.
pub open spec fn error_chain(msgs: Seq<Seq<char>>) -> Seq<char>
    decreases msgs.len(),
{
    if msgs.len() <= 1 {
        if msgs.len() == 1 {
            msgs[0]
        } else {
            seq![]
        }
    } else {
        error_chain(msgs.drop_last()) + " -> "@ + msgs.last()
    }
}

/// Describes an error with its chain of sources (`messages[0]` is the
/// error itself, then each source in turn) on one line.
pub fn describe_error(messages: &Vec<String>) -> (r: String)
    ensures
        r@ == error_chain(messages@.map_values(|m: String| m@)),
{
    let ghost ms = messages@.map_values(|m: String| m@);
    let mut out: Vec<char> = Vec::new();
    let mut i: usize = 0;
    assert(ms.take(0) =~= Seq::<Seq<char>>::empty());
    while i < messages.len()
        invariant
            i <= messages.len(),
            ms == messages@.map_values(|m: String| m@),
            out@ == error_chain(ms.take(i as int)),
        decreases messages.len() - i,
    {
        let ghost before = ms.take(i as int);
        assert(ms.take(i + 1).drop_last() =~= before);
        assert(ms.take(i + 1).last() == messages@[i as int]@);
        if i > 0 {
            push_str(&mut out, " -> ");
        } else {
            assert(ms.take(1) =~= seq![messages@[0]@]);
        }
        push_str(&mut out, messages[i].as_str());
        i = i + 1;
    }
    assert(ms.take(i as int) =~= ms);
    string_from_chars(&out)
}

/// Texts joined with a separator.
pub open spec fn joined(parts: Seq<Seq<char>>, sep: Seq<char>) -> Seq<char>
    decreases parts.len(),
{
    if parts.len() == 0 {
        seq![]
    } else if parts.len() == 1 {
        parts[0]
    } else {
        joined(parts.drop_last(), sep) + sep + parts.last()
    }
}

/// Appends `parts` joined by `sep` to `out`.
fn push_joined(out: &mut Vec<char>, parts: &Vec<String>, sep: &str)
    ensures
        final(out)@ == old(out)@ + joined(texts(parts@), sep@),
{
    let ghost start = out@;
    let ghost ps = texts(parts@);
    let mut i: usize = 0;
    assert(ps.take(0) =~= Seq::<Seq<char>>::empty());
    assert(out@ =~= start + joined(ps.take(0), sep@));
    while i < parts.len()
        invariant
            i <= parts.len(),
            ps == texts(parts@),
            out@ == start + joined(ps.take(i as int), sep@),
        decreases parts.len() - i,
    {
        assert(ps.take(i + 1).drop_last() =~= ps.take(i as int));
        assert(ps.take(i + 1).last() == parts@[i as int]@);
        if i > 0 {
            push_str(out, sep);
        } else {
            assert(ps.take(1) =~= seq![parts@[0]@]);
        }
        push_str(out, parts[i].as_str());
        i = i + 1;
    }
    assert(ps.take(i as int) =~= ps);
}

/// The package managers tried, in order, to install rsync, each with its
/// arguments: on Windows winget, then choco; on macOS brew; under Termux
/// (the `PREFIX` setting contains `com.termux`) pkg; elsewhere apt-get,
/// dnf, then pacman.
pub open spec fn rsync_installers_spec(is_windows: bool, is_macos: bool, prefix: Option<Seq<char>>) -> Seq<(Seq<char>, Seq<Seq<char>>)> {
    if is_windows {
        seq![
            ("winget"@, seq!["install"@, "-e"@, "--id"@, "cwrsync.cwrsync"@, "--accept-package-agreements"@, "--accept-source-agreements"@]),
            ("choco"@, seq!["install"@, "rsync"@, "-y"@]),
        ]
    } else if is_macos {
        seq![("brew"@, seq!["install"@, "rsync"@])]
    } else if prefix matches Some(p) && contains(p, "com.termux"@) {
        seq![("pkg"@, seq!["install"@, "-y"@, "rsync"@])]
    } else {
        seq![
            ("apt-get"@, seq!["install"@, "-y"@, "rsync"@]),
            ("dnf"@, seq!["install"@, "-y"@, "rsync"@]),
            ("pacman"@, seq!["-S"@, "--noconfirm"@, "rsync"@]),
        ]
    }
}

/// The plain values of a list of commands with their arguments.
pub open spec fn command_views(v: Seq<(String, Vec<String>)>) -> Seq<(Seq<char>, Seq<Seq<char>>)> {
    v.map_values(|c: (String, Vec<String>)| (c.0@, texts(c.1@)))
}

fn strings(parts: &[&str]) -> (r: Vec<String>)
    ensures
        r.len() == parts@.len(),
        forall|i: int| 0 <= i < r.len() ==> #[trigger] r@[i]@ == parts@[i]@,
{
    let mut r: Vec<String> = Vec::new();
    let mut i: usize = 0;
    while i < parts.len()
        invariant
            i <= parts.len(),
            r.len() == i,
            forall|k: int| 0 <= k < i ==> #[trigger] r@[k]@ == parts@[k]@,
        decreases parts.len() - i,
    {
        r.push(String::from_str(parts[i]));
        i = i + 1;
    }
    r
}

/// The package managers to try for installing rsync on this system.
pub fn rsync_installers(is_windows: bool, is_macos: bool, prefix: Option<&str>) -> (r: Vec<(String, Vec<String>)>)
    ensures
        command_views(r@) == rsync_installers_spec(is_windows, is_macos, opt_str(prefix)),
{
    let mut r: Vec<(String, Vec<String>)> = Vec::new();
    if is_windows {
        r.push((String::from_str("winget"), strings(&["install", "-e", "--id", "cwrsync.cwrsync", "--accept-package-agreements", "--accept-source-agreements"])));
        r.push((String::from_str("choco"), strings(&["install", "rsync", "-y"])));
    } else if is_macos {
        r.push((String::from_str("brew"), strings(&["install", "rsync"])));
    } else {
        let termux = match prefix {
            Some(p) => contains_chars(&chars_of(p), &chars_of("com.termux")),
            None => false,
        };
        if termux {
            r.push((String::from_str("pkg"), strings(&["install", "-y", "rsync"])));
        } else {
            r.push((String::from_str("apt-get"), strings(&["install", "-y", "rsync"])));
            r.push((String::from_str("dnf"), strings(&["install", "-y", "rsync"])));
            r.push((String::from_str("pacman"), strings(&["-S", "--noconfirm", "rsync"])));
        }
    }
    proof {
        let v = command_views(r@);
        let sp = rsync_installers_spec(is_windows, is_macos, opt_str(prefix));
        assert(v.len() == sp.len());
        assert forall|i: int| 0 <= i < v.len() implies v[i] == sp[i] by {
            assert(texts(r@[i].1@) =~= sp[i].1);
        }
        assert(v =~= sp);
    }
    r
}

/// The error when no package manager could install rsync; `tried` says
/// what happened with each.
pub fn install_failure(tried: &Vec<String>) -> (e: RsyncError)
    ensures
        e matches RsyncError::Other(m) && m@ == "no working package manager found for rsync install (tried: "@
            + joined(texts(tried@), "; "@) + ")"@,
{
    let mut out: Vec<char> = Vec::new();
    push_str(&mut out, "no working package manager found for rsync install (tried: ");
    push_joined(&mut out, tried, "; ");
    push_str(&mut out, ")");
    RsyncError::Other(string_from_chars(&out))
}

/// One mirror's dump-and-copy result in a PostgreSQL backup, after the
/// messages `successes` of the mirrors before it: a success is recorded as
/// `"<label>: <message>"`; "not installed" is passed on; another failure
/// ends the backup as `"<label> failed: <error>"`, followed by
/// `" (succeeded before this: <successes>)"` when some came before.
pub fn pg_backup_step(label: &str, result: Result<String, RsyncError>, successes: &Vec<String>) -> (r: Result<String, RsyncError>)
    ensures
        match result {
            Ok(msg) => r matches Ok(e) && e@ == label@ + ": "@ + msg@,
            Err(RsyncError::NotInstalled) => r matches Err(RsyncError::NotInstalled),
            Err(RsyncError::Other(m)) => r matches Err(RsyncError::Other(x)) && x@ == label@ + " failed: "@ + m@ + (
            if successes.len() == 0 {
                Seq::<char>::empty()
            } else {
                " (succeeded before this: "@ + joined(texts(successes@), "; "@) + ")"@
            }),
        },
{
    match result {
        Ok(msg) => {
            let mut out: Vec<char> = Vec::new();
            push_str(&mut out, label);
            push_str(&mut out, ": ");
            push_str(&mut out, msg.as_str());
            Ok(string_from_chars(&out))
        },
        Err(RsyncError::NotInstalled) => Err(RsyncError::NotInstalled),
        Err(RsyncError::Other(m)) => {
            let mut out: Vec<char> = Vec::new();
            push_str(&mut out, label);
            push_str(&mut out, " failed: ");
            push_str(&mut out, m.as_str());
            if successes.len() > 0 {
                push_str(&mut out, " (succeeded before this: ");
                push_joined(&mut out, successes, "; ");
                push_str(&mut out, ")");
            }
            Err(RsyncError::Other(string_from_chars(&out)))
        },
    }
}

/// The message of a PostgreSQL backup in which every mirror succeeded.
pub fn pg_backup_summary(successes: &Vec<String>) -> (s: String)
    ensures
        s@ == joined(texts(successes@), "; "@),
{
    let mut out: Vec<char> = Vec::new();
    push_joined(&mut out, successes, "; ");
    string_from_chars(&out)
}

/// ASCII lower-casing of one character.
pub open spec fn ascii_lower(c: char) -> char {
    if 'A' <= c <= 'Z' {
        ((c as u32) + 32) as char
    } else {
        c
    }
}

/// Whether certificate checks of the mirror connections are switched off:
/// `OPEN_ENGLISH_DB_TLS_INSECURE` is `1`, or `true` in any letter case.
pub open spec fn insecure_tls_spec(value: Option<Seq<char>>) -> bool {
    match value {
        Some(v) => v == "1"@ || (v.len() == 4 && v.map_values(|c: char| ascii_lower(c)) == "true"@),
        None => false,
    }
}

/// Reads the `OPEN_ENGLISH_DB_TLS_INSECURE` setting.
pub fn insecure_tls_setting(value: Option<&str>) -> (b: bool)
    ensures
        b == insecure_tls_spec(opt_str(value)),
{
    match value {
        None => false,
        Some(v) => {
            let cs = chars_of(v);
            if chars_eq(&cs, &chars_of("1")) {
                return true;
            }
            if cs.len() != 4 {
                return false;
            }
            let t = chars_of("true");
            proof {
                reveal_strlit("true");
            }
            let mut i: usize = 0;
            while i < 4
                invariant
                    i <= 4,
                    cs.len() == 4,
                    t@ == "true"@,
                    t@.len() == 4,
                    cs@ == v@,
                    cs@ != "1"@,
                    value == Some(v),
                    forall|k: int| 0 <= k < i ==> ascii_lower(#[trigger] cs@[k]) == t@[k],
                decreases 4 - i,
            {
                let c = cs[i];
                let l = if 'A' <= c && c <= 'Z' {
                    crate::text::char_from_ascii(c as u32 + 32)
                } else {
                    c
                };
                if l != t[i] {
                    proof {
                        assert(ascii_lower(cs@[i as int]) == l);
                        assert(cs@.map_values(|c: char| ascii_lower(c))[i as int] != "true"@[i as int]);
                        assert(cs@.map_values(|c: char| ascii_lower(c)) != "true"@);
                        assert(cs@ != "1"@);
                    }
                    return false;
                }
                i = i + 1;
            }
            proof {
                assert(cs@.map_values(|c: char| ascii_lower(c)) =~= "true"@);
            }
            true
        },
    }
}

/// Rows read newest first (`ORDER BY id DESC LIMIT n`), put back in the
/// order they were written.
pub fn chronological(rows: Vec<StoredMessage>) -> (r: Vec<StoredMessage>)
    ensures
        r@ == rows@.reverse(),
{
    let mut rows = rows;
    let ghost orig = rows@;
    let mut out: Vec<StoredMessage> = Vec::new();
    while rows.len() > 0
        invariant
            rows@.len() + out@.len() == orig.len(),
            rows@ == orig.take(rows@.len() as int),
            out@ == orig.reverse().take(out@.len() as int),
        decreases rows.len(),
    {
        let ghost n = rows@.len();
        let m = rows.pop().unwrap();
        proof {
            assert(m == orig[n - 1]);
        }
        out.push(m);
        assert(rows@ =~= orig.take(rows@.len() as int));
        assert(out@ =~= orig.reverse().take(out@.len() as int));
    }
    assert(out@ =~= orig.reverse());
    out
}

} // verus!
