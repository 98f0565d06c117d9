//! Derivation of the `filename` field: the final component of a path.
//!
//! The rules mirror how a platform path gives up its file name: trailing
//! separators are ignored, a final `..` component yields nothing, and a final
//! `.` component is skipped. A path with no final component (empty, a root,
//! or one ending in `..`) yields the empty string.

use vstd::prelude::*;
use vstd::string::*;

verus! {

/// The index where the final component of `s` begins: the first position
/// after the last `/`, or `s.len()` when `s` ends in `/`.
pub open spec fn basename_start(s: Seq<char>) -> int
    decreases s.len(),
{
    if s.len() == 0 {
        0
    } else if s.last() == '/' {
        s.len() as int
    } else {
        basename_start(s.drop_last())
    }
}

/// The final component of the path `s`, as a platform path would report it:
/// trailing `/` are ignored, a final `..` gives the empty sequence, a final
/// `.` is skipped, and otherwise the text after the last `/` is the name.
pub open spec fn file_name_spec(s: Seq<char>) -> Seq<char>
    decreases s.len(),
{
    if s.len() == 0 {
        Seq::empty()
    } else if s.last() == '/' {
        file_name_spec(s.drop_last())
    } else {
        let comp = s.subrange(basename_start(s), s.len() as int);
        if comp == seq!['.', '.'] {
            Seq::empty()
        } else if comp == seq!['.'] {
            file_name_spec(s.drop_last())
        } else {
            comp
        }
    }
}

/// `basename_start` lands just after the last `/`: everything from it to the
/// end is free of `/`, and the character before it, if any, is a `/`.
pub proof fn lemma_basename_start(s: Seq<char>)
    requires
        s.len() > 0,
        s.last() != '/',
    ensures
        0 <= basename_start(s) <= s.len(),
        forall|j: int| basename_start(s) <= j < s.len() ==> s[j] != '/',
        basename_start(s) > 0 ==> s[basename_start(s) - 1] == '/',
    decreases s.len(),
{
    let t = s.drop_last();
    assert(basename_start(s) == basename_start(t));
    if t.len() == 0 {
        assert(basename_start(t) == 0);
    } else if t.last() == '/' {
        assert(basename_start(t) == t.len() as int);
    } else {
        lemma_basename_start(t);
        assert forall|j: int| basename_start(s) <= j < s.len() implies s[j] != '/' by {
            if j < t.len() {
                assert(s[j] == t[j]);
            } else {
                assert(s[j] == s.last());
            }
        }
    }
}

/// Appending a component free of `/` to a prefix that ends in `/` makes that
/// component the final one.
proof fn lemma_basename_start_append(prefix: Seq<char>, name: Seq<char>)
    requires
        prefix.len() > 0,
        prefix.last() == '/',
        name.len() > 0,
        forall|j: int| 0 <= j < name.len() ==> name[j] != '/',
    ensures
        basename_start(prefix + name) == prefix.len(),
    decreases name.len(),
{
    let s = prefix + name;
    assert(s.last() == name.last());
    if name.len() == 1 {
        assert(s.drop_last() =~= prefix);
        assert(basename_start(s) == basename_start(prefix));
        assert(basename_start(prefix) == prefix.len());
    } else {
        assert(s.drop_last() =~= prefix + name.drop_last());
        lemma_basename_start_append(prefix, name.drop_last());
        assert(basename_start(s) == basename_start(s.drop_last()));
    }
}

/// Law: the file name depends on the final component alone. For any directory
/// prefix `dir` and any component `name` that holds no `/` and is neither `.`
/// nor `..`, the file name of `dir` + `/` + `name` is exactly `name`.
pub proof fn lemma_filename_independent_of_directory(dir: Seq<char>, name: Seq<char>)
    requires
        name.len() > 0,
        forall|j: int| 0 <= j < name.len() ==> name[j] != '/',
        name != seq!['.'],
        name != seq!['.', '.'],
    ensures
        file_name_spec(dir + seq!['/'] + name) == name,
{
    let prefix = dir + seq!['/'];
    let s = prefix + name;
    assert(prefix.last() == '/');
    assert(s.last() == name.last());
    lemma_basename_start_append(prefix, name);
    let comp = s.subrange(basename_start(s), s.len() as int);
    assert(comp =~= name);
    assert(dir + seq!['/'] + name == s);
}

/// The final component of `path`, or the empty string when the path has
/// none (an empty path, a bare root, or a path ending in `..`).
pub fn file_name_component(path: &str) -> (r: String)
    ensures
        r@ == file_name_spec(path@),
    decreases path@.len(),
{
    let n = path.unicode_len();
    if n == 0 {
        return String::new();
    }
    let last = path.get_char(n - 1);
    if last == '/' {
        let prefix = path.substring_char(0, n - 1);
        proof {
            assert(prefix@ =~= path@.drop_last());
        }
        return file_name_component(prefix);
    }
    proof {
        lemma_basename_start(path@);
    }
    let ghost b: int = basename_start(path@);
    let mut i = n;
    while i > 0 && path.get_char(i - 1) != '/'
        invariant
            n == path@.len(),
            n > 0,
            path@.last() != '/',
            b == basename_start(path@),
            b <= i <= n,
            forall|j: int| b <= j < n ==> path@[j] != '/',
            b > 0 ==> path@[b - 1] == '/',
        decreases i,
    {
        i = i - 1;
    }
    assert(i == b);
    let comp = path.substring_char(i, n);
    let m = n - i;
    if m == 2 && comp.get_char(0) == '.' && comp.get_char(1) == '.' {
        proof {
            assert(comp@ =~= seq!['.', '.']);
        }
        return String::new();
    }
    if m == 1 && comp.get_char(0) == '.' {
        let prefix = path.substring_char(0, n - 1);
        proof {
            assert(comp@ =~= seq!['.']);
            assert(prefix@ =~= path@.drop_last());
        }
        return file_name_component(prefix);
    }
    proof {
        if comp@ == seq!['.', '.'] {
            assert(comp@.len() == 2 && comp@[0] == '.' && comp@[1] == '.');
        }
        if comp@ == seq!['.'] {
            assert(comp@.len() == 1 && comp@[0] == '.');
        }
    }
    String::from_str(comp)
}

} // verus!
