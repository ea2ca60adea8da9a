//! Path normalisation.

use vstd::prelude::*;
use vstd::slice::slice_subrange;

use crate::text::{chars_of, replace_char, same, starts_with, starts_with_str, string_of, to_lower,
    to_vec};
#[allow(unused_imports)]
use crate::text::{char_bytes, lower, starts, swap_char};

verus! {

/// `std::path::is_separator`: whether the platform takes the character as a
/// path separator. Nothing is stated of the answer: it depends on the machine.
#[verifier::external_body]
fn is_separator(c: char) -> bool {
    std::path::is_separator(c)
}

/// The path without the prefix that marks an extended Windows path.
pub open spec fn without_unc(s: Seq<char>) -> Seq<char> {
    if starts(s, "\\\\?\\"@) || starts(s, "//?/"@) {
        s.skip(4)
    } else {
        s
    }
}

/// The path with slashes only.
pub open spec fn unix_path(s: Seq<char>) -> Seq<char> {
    swap_char(without_unc(s), '\\', '/')
}

/// The path in the notation of the platform.
pub open spec fn native_path(s: Seq<char>, windows: bool) -> Seq<char> {
    if windows {
        swap_char(without_unc(s), '/', '\\')
    } else {
        unix_path(s)
    }
}

/// The ASCII upper case of a character.
pub open spec fn upper_char(c: char) -> char {
    if 'a' <= c <= 'z' {
        ((c as u32) - 32) as char
    } else {
        c
    }
}

/// The path with its drive letter in upper case, on Windows.
pub open spec fn drive_upper(s: Seq<char>, windows: bool) -> Seq<char> {
    if windows && s.len() >= 2 && s[1] == ':' {
        s.update(0, upper_char(s[0]))
    } else {
        s
    }
}

/// `/`, or a drive such as `C:/`.
pub open spec fn path_root(s: Seq<char>) -> bool {
    ||| s == seq!['/']
    ||| s.len() == 3 && char_bytes(s[0]) == 1 && s[1] == ':' && s[2] == '/'
}

/// The path without slashes at its end, down to a root.
pub open spec fn trim_slashes(s: Seq<char>) -> Seq<char>
    decreases s.len(),
{
    if s.len() > 0 && s.last() == '/' && !path_root(s) {
        trim_slashes(s.drop_last())
    } else {
        s
    }
}

/// The form of a path that identifies a project.
pub open spec fn path_key(s: Seq<char>, windows: bool) -> Seq<char> {
    trim_slashes(drive_upper(unix_path(s), windows))
}

/// `child` is `parent` or lies below it, case aside.
pub open spec fn inside(child: Seq<char>, parent: Seq<char>) -> bool {
    let c = lower(path_key(child, false));
    let p = lower(path_key(parent, false));
    c == p || starts(c, below(p))
}

/// What a path below the given one begins with. A root ends with its slash
/// already.
pub open spec fn below(p: Seq<char>) -> Seq<char> {
    if p.len() > 0 && p.last() == '/' {
        p
    } else {
        p.push('/')
    }
}

/// The path without the prefix that marks an extended Windows path.
fn strip_windows_unc_prefix(path: &[char]) -> (r: &[char])
    ensures
        r@ == without_unc(path@),
{
    proof {
        reveal_strlit("\\\\?\\");
        reveal_strlit("//?/");
    }
    if starts_with_str(path, "\\\\?\\") || starts_with_str(path, "//?/") {
        assert(path@.subrange(4, path@.len() as int) =~= path@.skip(4));
        slice_subrange(path, 4, path.len())
    } else {
        path
    }
}

/// The path with slashes only.
pub fn normalize_to_unix(path: &str) -> (r: String)
    ensures
        r@ == unix_path(path@),
{
    let v = chars_of(path);
    let out = replace_char(strip_windows_unc_prefix(v.as_slice()), '\\', '/');
    string_of(out.as_slice())
}

/// The path in the notation of the given kind of platform.
pub fn normalize_for(path: &str, windows: bool) -> (r: String)
    ensures
        r@ == native_path(path@, windows),
{
    let v = chars_of(path);
    let stripped = strip_windows_unc_prefix(v.as_slice());
    let out = if windows {
        replace_char(stripped, '/', '\\')
    } else {
        replace_char(stripped, '\\', '/')
    };
    string_of(out.as_slice())
}

/// The path in the notation of the platform.
pub fn normalize_to_native(path: &str) -> (r: String)
    ensures
        r@ == native_path(path@, true) || r@ == native_path(path@, false),
{
    normalize_for(path, is_separator('\\'))
}

/// The path with its drive letter in upper case, on Windows.
fn normalize_windows_drive_letter(path: &[char], windows: bool) -> (out: Vec<char>)
    ensures
        out@ == drive_upper(path@, windows),
{
    let mut out = to_vec(path);
    if windows && path.len() >= 2 && path[1] == ':' {
        let c = path[0];
        if 'a' <= c && c <= 'z' {
            let n: u8 = c as u8;
            out.set(0, (n - 32) as char);
        }
        assert(out@ =~= path@.update(0, upper_char(path@[0])));
    }
    out
}

/// The path with its drive letter in upper case, on Windows.
pub fn watched_drive(path: &str, windows: bool) -> (r: String)
    ensures
        r@ == drive_upper(path@, windows),
{
    let v = chars_of(path);
    let out = normalize_windows_drive_letter(v.as_slice(), windows);
    string_of(out.as_slice())
}

/// Whether the path is a root.
fn is_path_root(path: &[char]) -> (r: bool)
    ensures
        r == path_root(path@),
{
    if path.len() == 1 {
        assert(path@ =~= seq!['/'] <==> path@[0] == '/');
        path[0] == '/'
    } else {
        path.len() == 3 && (path[0] as u32) < 0x80 && path[1] == ':' && path[2] == '/'
    }
}

/// The path without slashes at its end, down to a root.
fn trim_trailing_slashes(path: Vec<char>) -> (out: Vec<char>)
    ensures
        out@ == trim_slashes(path@),
{
    let mut out = path;
    while out.len() > 0 && out[out.len() - 1] == '/' && !is_path_root(out.as_slice())
        invariant
            trim_slashes(out@) == trim_slashes(path@),
        decreases out.len(),
    {
        let ghost before = out@;
        out.pop();
        assert(out@ =~= before.drop_last());
    }
    out
}

/// The key of a path on the given kind of platform, as characters.
fn path_key_chars(path: &str, windows: bool) -> (out: Vec<char>)
    ensures
        out@ == path_key(path@, windows),
{
    let v = chars_of(path);
    let unix = replace_char(strip_windows_unc_prefix(v.as_slice()), '\\', '/');
    trim_trailing_slashes(normalize_windows_drive_letter(unix.as_slice(), windows))
}

/// The form of a path that identifies a project, on the given kind of platform.
pub fn path_key_for(path: &str, windows: bool) -> (r: String)
    ensures
        r@ == path_key(path@, windows),
{
    let out = path_key_chars(path, windows);
    string_of(out.as_slice())
}

/// The form of a path that identifies a project. Only the drive letter's case
/// depends on the platform.
pub fn normalize_path_key(path: &str) -> (r: String)
    ensures
        r@ == path_key(path@, true) || r@ == path_key(path@, false),
{
    path_key_for(path, is_separator('\\'))
}

/// Whether `child` is `parent` or lies below it, case aside. The answer is the
/// same on every platform.
pub fn path_starts_with(child: &str, parent: &str) -> (r: bool)
    ensures
        r == inside(child@, parent@),
{
    let c = path_key_chars(child, false);
    let c = to_lower(c.as_slice());
    let p = path_key_chars(parent, false);
    let p = to_lower(p.as_slice());
    if same(c.as_slice(), p.as_slice()) {
        return true;
    }
    let mut q = to_vec(p.as_slice());
    if q.len() == 0 || q[q.len() - 1] != '/' {
        q.push('/');
    }
    starts_with(c.as_slice(), q.as_slice())
}

// ---------------------------------------------------------------------------
// Laws
// ---------------------------------------------------------------------------
proof fn lemma_trim_slashes(s: Seq<char>)
    ensures
        trim_slashes(trim_slashes(s)) == trim_slashes(s),
        trim_slashes(s).len() <= s.len(),
        trim_slashes(s) == s.take(trim_slashes(s).len() as int),
        trim_slashes(s).len() > 0 && trim_slashes(s).last() == '/' ==> path_root(trim_slashes(s)),
        s.len() >= 2 && s[1] == ':' ==> trim_slashes(s).len() >= 2,
    decreases s.len(),
{
    if s.len() > 0 && s.last() == '/' && !path_root(s) {
        lemma_trim_slashes(s.drop_last());
        assert(trim_slashes(s) =~= s.take(trim_slashes(s).len() as int));
    } else {
        assert(s.take(s.len() as int) =~= s);
    }
}

/// The key of a key is the key itself, unless the key still begins with the
/// mark of an extended path.
pub proof fn law_path_key_idempotent(s: Seq<char>, windows: bool)
    requires
        !starts(path_key(s, windows), "//?/"@),
    ensures
        path_key(path_key(s, windows), windows) == path_key(s, windows),
{
    reveal_strlit("\\\\?\\");
    let u = unix_path(s);
    let d = drive_upper(u, windows);
    let k = path_key(s, windows);
    lemma_trim_slashes(d);
    assert forall|i: int| 0 <= i < k.len() implies k[i] != '\\' by {
        assert(k[i] == d[i]);
        assert(u[i] != '\\');
    }
    assert(!starts(k, "\\\\?\\"@)) by {
        if starts(k, "\\\\?\\"@) {
            assert(k.subrange(0, 4)[0] == '\\');
        }
    }
    assert(unix_path(k) =~= k);
    assert(drive_upper(k, windows) =~= k);
}

/// A path without slash at its end other than a root is what a key is.
pub proof fn law_path_key_end(s: Seq<char>, windows: bool)
    ensures
        ({
            let k = path_key(s, windows);
            k.len() > 0 && k.last() == '/' ==> path_root(k)
        }),
{
    lemma_trim_slashes(drive_upper(unix_path(s), windows));
}

/// Keys have no backslash.
pub proof fn law_path_key_slashes(s: Seq<char>, windows: bool)
    ensures
        !path_key(s, windows).contains('\\'),
{
    let u = unix_path(s);
    let d = drive_upper(u, windows);
    lemma_trim_slashes(d);
    let k = path_key(s, windows);
    assert forall|i: int| 0 <= i < k.len() implies k[i] != '\\' by {
        assert(k[i] == d[i]);
        assert(u[i] != '\\');
    }
}

/// Case aside, the key is the same on every platform.
pub proof fn law_path_key_platform(s: Seq<char>)
    ensures
        lower(path_key(s, true)) == lower(path_key(s, false)),
{
    let u = unix_path(s);
    let d = drive_upper(u, true);
    lemma_trim_same_len(d, u);
    lemma_trim_slashes(d);
    lemma_trim_slashes(u);
    assert(lower(trim_slashes(d)) =~= lower(trim_slashes(u)));
}

proof fn lemma_trim_same_len(d: Seq<char>, u: Seq<char>)
    requires
        d.len() == u.len(),
        forall|i: int| 1 <= i < u.len() ==> d[i] == u[i],
        u.len() > 0 ==> (d[0] == u[0] || d[0] == upper_char(u[0])),
    ensures
        trim_slashes(d).len() == trim_slashes(u).len(),
    decreases u.len(),
{
    assert(path_root(d) == path_root(u)) by {
        if u.len() == 1 {
            assert(d =~= seq!['/'] <==> d[0] == '/');
            assert(u =~= seq!['/'] <==> u[0] == '/');
        }
    }
    if u.len() > 0 && u.last() == '/' && !path_root(u) {
        lemma_trim_same_len(d.drop_last(), u.drop_last());
    }
}

/// Every path lies inside itself.
pub proof fn law_inside_reflexive(s: Seq<char>)
    ensures
        inside(s, s),
{
}

/// Every absolute path lies inside the root.
pub proof fn law_inside_root(s: Seq<char>)
    requires
        starts(path_key(s, false), "/"@),
    ensures
        inside(s, "/"@),
{
    reveal_strlit("/");
    reveal_strlit("\\\\?\\");
    reveal_strlit("//?/");
    let k = path_key(s, false);
    assert(unix_path("/"@) =~= "/"@);
    assert("/"@ =~= seq!['/']);
    assert(path_key("/"@, false) =~= "/"@);
    assert(lower("/"@) =~= "/"@);
    assert(k[0] == k.subrange(0, 1)[0]);
    assert(lower(k).subrange(0, 1) =~= "/"@);
}

/// What lies inside a path that lies inside another lies inside that other.
pub proof fn law_inside_transitive(a: Seq<char>, b: Seq<char>, c: Seq<char>)
    requires
        inside(a, b),
        inside(b, c),
    ensures
        inside(a, c),
{
    let ka = lower(path_key(a, false));
    let kb = lower(path_key(b, false));
    let kc = lower(path_key(c, false));
    if ka != kb && kb != kc {
        let pb = below(kb);
        let pc = below(kc);
        assert forall|i: int| 0 <= i < pc.len() implies ka[i] == pc[i] by {
            assert(kb.subrange(0, pc.len() as int)[i] == pc[i]);
            assert(ka.subrange(0, pb.len() as int)[i] == pb[i]);
        }
        assert(ka.subrange(0, pc.len() as int) =~= pc);
    }
}

} // verus!
