use vstd::prelude::*;
use vstd::string::*;
use crate::error::DMError;

verus! {

pub open spec fn is_ascii_letter(c: char) -> bool {
    ('a' <= c && c <= 'z') || ('A' <= c && c <= 'Z')
}

/// Number of ASCII letters at the start of `s`.
pub open spec fn leading_letters(s: Seq<char>) -> nat
    decreases s.len(),
{
    if s.len() > 0 && is_ascii_letter(s[0]) {
        1 + leading_letters(s.drop_first())
    } else {
        0
    }
}

/// The verbatim prefix `\\?\` of a Windows absolute path.
pub open spec fn verbatim_prefix() -> Seq<char> {
    seq!['\\', '\\', '?', '\\']
}

pub open spec fn root_prefix() -> Seq<char> {
    seq!['R', 'O', 'O', 'T']
}

/// `p` is `/...`.
pub open spec fn is_posix_absolute(p: Seq<char>) -> bool {
    p.len() > 0 && p[0] == '/'
}

/// Length of the drive name of a verbatim Windows path.
pub open spec fn drive_len(p: Seq<char>) -> nat {
    leading_letters(p.skip(4))
}

/// `p` is `\\?\<DRIVE>:\<rest>` with a drive name of ASCII letters.
pub open spec fn is_windows_absolute(p: Seq<char>) -> bool {
    &&& p.len() >= 4
    &&& p.take(4) == verbatim_prefix()
    &&& drive_len(p) > 0
    &&& p.len() >= 4 + drive_len(p) + 2
    &&& p[4 + drive_len(p) as int] == ':'
    &&& p[4 + drive_len(p) as int + 1] == '\\'
}

/// The depository-relative location of a canonical absolute path, if it has a
/// supported form: `/<rest>` becomes `ROOT/<rest>`, `\\?\<DRIVE>:\<rest>`
/// becomes `<DRIVE>\<rest>`.
pub open spec fn depository_path_of(p: Seq<char>) -> Option<Seq<char>> {
    if is_posix_absolute(p) {
        Some(root_prefix() + p)
    } else if is_windows_absolute(p) {
        let k = drive_len(p) as int;
        Some(p.subrange(4, 4 + k) + seq!['\\'] + p.skip(4 + k + 2))
    } else {
        None
    }
}

proof fn lemma_leading_letters_exact(s: Seq<char>, k: int)
    requires
        0 <= k <= s.len(),
        forall|i: int| 0 <= i < k ==> is_ascii_letter(#[trigger] s[i]),
        k == s.len() || !is_ascii_letter(s[k]),
    ensures
        leading_letters(s) == k,
    decreases k,
{
    if k > 0 {
        assert(is_ascii_letter(s[0]));
        let t = s.drop_first();
        assert forall|i: int| 0 <= i < k - 1 implies is_ascii_letter(#[trigger] t[i]) by {
            assert(t[i] == s[i + 1]);
        }
        if k < s.len() {
            assert(t[k - 1] == s[k]);
        }
        lemma_leading_letters_exact(t, k - 1);
    } else {
        if s.len() > 0 {
            assert(!is_ascii_letter(s[0]));
        }
    }
}

proof fn lemma_leading_letters_bound(s: Seq<char>)
    ensures
        leading_letters(s) <= s.len(),
        forall|i: int| 0 <= i < leading_letters(s) ==> is_ascii_letter(#[trigger] s[i]),
        leading_letters(s) == s.len() || !is_ascii_letter(s[leading_letters(s) as int]),
    decreases s.len(),
{
    if s.len() > 0 && is_ascii_letter(s[0]) {
        let t = s.drop_first();
        lemma_leading_letters_bound(t);
        assert forall|i: int| 0 <= i < leading_letters(s) implies is_ascii_letter(#[trigger] s[i]) by {
            if i > 0 {
                assert(s[i] == t[i - 1]);
            }
        }
        if leading_letters(s) < s.len() {
            assert(s[leading_letters(s) as int] == t[leading_letters(t) as int]);
        }
    }
}

/// Maps a canonical absolute path to its depository-relative location.
/// Any path of another form is refused with `UnsupportedPath`.
pub fn to_depositiory_path(path: &str) -> (r: Result<String, DMError>)
    ensures
        match depository_path_of(path@) {
            Some(d) => r matches Ok(s) && s@ == d,
            None => r == Err::<String, DMError>(DMError::UnsupportedPath),
        },
{
    proof {
        reveal_strlit("ROOT");
        reveal_strlit("\\");
    }
    let n = path.unicode_len();
    if n > 0 && path.get_char(0) == '/' {
        let root = String::from_str("ROOT");
        let r = root.concat(path);
        return Ok(r);
    }
    if n < 4 || path.get_char(0) != '\\' || path.get_char(1) != '\\' || path.get_char(2) != '?'
        || path.get_char(3) != '\\' {
        proof {
            if n >= 4 {
                assert(path@.take(4) != verbatim_prefix()) by {
                    let t = path@.take(4);
                    if t == verbatim_prefix() {
                        assert(t[0] == path@[0] && t[1] == path@[1] && t[2] == path@[2] && t[3] == path@[3]);
                    }
                }
            }
        }
        return Err(DMError::UnsupportedPath);
    }
    assert(path@.take(4) =~= verbatim_prefix());
    assert(n >= 4);
    let mut i: usize = 4;
    while i < n && is_letter(path.get_char(i))
        invariant
            4 <= i <= n,
            n == path@.len(),
            forall|j: int| 4 <= j < i ==> is_ascii_letter(#[trigger] path@[j]),
        decreases n - i,
    {
        i = i + 1;
    }
    proof {
        let s = path@.skip(4);
        assert forall|j: int| 0 <= j < i - 4 implies is_ascii_letter(#[trigger] s[j]) by {
            assert(s[j] == path@[j + 4]);
        }
        if i < n {
            assert(s[i - 4] == path@[i as int]);
        }
        lemma_leading_letters_exact(s, i - 4);
    }
    if i == 4 || i >= n - 1 || path.get_char(i) != ':' || path.get_char(i + 1) != '\\' {
        return Err(DMError::UnsupportedPath);
    }
    let drive = path.substring_char(4, i);
    let rest = path.substring_char(i + 2, n);
    let r = String::from_str(drive).concat("\\").concat(rest);
    assert(r@ =~= path@.subrange(4, i as int) + seq!['\\'] + path@.skip(i + 2));
    Ok(r)
}

fn is_letter(c: char) -> (r: bool)
    ensures
        r == is_ascii_letter(c),
{
    ('a' <= c && c <= 'z') || ('A' <= c && c <= 'Z')
}

/// Distinct canonical paths of a supported form never share a depository
/// location.
pub proof fn lemma_depository_path_injective(p1: Seq<char>, p2: Seq<char>)
    requires
        p1 != p2,
        depository_path_of(p1) is Some,
        depository_path_of(p2) is Some,
    ensures
        depository_path_of(p1) != depository_path_of(p2),
{
    lemma_leading_letters_bound(p1.skip(4));
    lemma_leading_letters_bound(p2.skip(4));
    if depository_path_of(p1) == depository_path_of(p2) {
        let d = depository_path_of(p1)->Some_0;
        if is_posix_absolute(p1) && is_posix_absolute(p2) {
            assert(p1 =~= d.skip(4));
            assert(p2 =~= d.skip(4));
        } else if is_posix_absolute(p1) || is_posix_absolute(p2) {
            // A POSIX image has '/' after four letters; a Windows image has
            // '\' right after its drive letters.
            let w = if is_posix_absolute(p1) { p2 } else { p1 };
            let k = drive_len(w) as int;
            assert(d[k] == '\\');
            assert(d[4] == '/');
            assert forall|i: int| 0 <= i < k implies is_ascii_letter(#[trigger] d[i]) by {
                assert(d[i] == w.skip(4)[i]);
            }
            if k < 4 {
                assert(d[k] == root_prefix()[k]);
            } else if k > 4 {
                assert(is_ascii_letter(d[4]));
            }
        } else {
            let k1 = drive_len(p1) as int;
            let k2 = drive_len(p2) as int;
            assert forall|i: int| 0 <= i < k1 implies is_ascii_letter(#[trigger] d[i]) by {
                assert(d[i] == p1.skip(4)[i]);
            }
            assert forall|i: int| 0 <= i < k2 implies is_ascii_letter(#[trigger] d[i]) by {
                assert(d[i] == p2.skip(4)[i]);
            }
            assert(d[k1] == '\\');
            assert(d[k2] == '\\');
            if k1 < k2 {
                assert(is_ascii_letter(d[k1]));
            } else if k2 < k1 {
                assert(is_ascii_letter(d[k2]));
            }
            assert(p1 =~= verbatim_prefix() + d.take(k1) + seq![':', '\\'] + d.skip(k1 + 1)) by {
                assert(p1.take(4) == verbatim_prefix());
            }
            assert(p2 =~= verbatim_prefix() + d.take(k1) + seq![':', '\\'] + d.skip(k1 + 1)) by {
                assert(p2.take(4) == verbatim_prefix());
            }
        }
    }
}

} // verus!
