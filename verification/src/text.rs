//! Small operations on paths and display text, stated over sequences of
//! characters. Paths are plain text with `/` between their components.

use vstd::prelude::*;
use vstd::string::*;

verus! {

/// The path of `name` placed under the directory `dir`: an absolute `name`
/// stands for itself, otherwise it follows `dir` and one separator.
pub open spec fn joined(dir: Seq<char>, name: Seq<char>) -> Seq<char> {
    if name.len() > 0 && name[0] == '/' {
        name
    } else if dir.len() == 0 || dir.last() == '/' {
        dir + name
    } else {
        dir + seq!['/'] + name
    }
}

/// Whether `path` begins with the whole of `root`.
pub open spec fn starts_with(path: Seq<char>, root: Seq<char>) -> bool {
    root.len() <= path.len() && path.take(root.len() as int) == root
}

/// `path` as seen from `root`: what follows `root` and its separator where
/// `path` lies under `root`, and `path` itself where it does not.
pub open spec fn relative(path: Seq<char>, root: Seq<char>) -> Seq<char> {
    let rest = path.skip(root.len() as int);
    if root.len() == 0 || !starts_with(path, root) {
        path
    } else if rest.len() == 0 || root.last() == '/' {
        rest
    } else if rest[0] == '/' {
        rest.skip(1)
    } else {
        path
    }
}

/// `s` followed by as many blanks as it takes to reach `width` characters.
pub open spec fn padded(s: Seq<char>, width: nat) -> Seq<char> {
    if s.len() >= width {
        s
    } else {
        s + Seq::new((width - s.len()) as nat, |i: int| ' ')
    }
}

/// The characters of `s`, in order.
pub fn chars_of(s: &str) -> (v: Vec<char>)
    ensures
        v@ == s@,
{
    let mut v: Vec<char> = Vec::new();
    for c in it: s.chars()
        invariant
            v@ == it.seq().take(it.index()),
    {
        v.push(c);
    }
    v
}

/// Places `name` under the directory `dir`.
pub fn join(dir: &str, name: &str) -> (path: String)
    ensures
        path@ == joined(dir@, name@),
{
    let d = chars_of(dir);
    let n = chars_of(name);
    if n.len() > 0 && n[0] == '/' {
        String::from_str(name)
    } else if d.len() == 0 || d[d.len() - 1] == '/' {
        String::from_str(dir).concat(name)
    } else {
        proof {
            reveal_strlit("/");
            assert("/"@ =~= seq!['/']);
        }
        String::from_str(dir).concat("/").concat(name)
    }
}

/// Whether the characters `path` begin with the whole of `root`.
fn begins_with(path: &Vec<char>, root: &Vec<char>) -> (yes: bool)
    ensures
        yes == starts_with(path@, root@),
{
    if root.len() > path.len() {
        return false;
    }
    let mut i: usize = 0;
    while i < root.len()
        invariant
            i <= root.len() <= path.len(),
            forall|k: int| 0 <= k < i ==> path@[k] == root@[k],
        decreases root.len() - i,
    {
        if path[i] != root[i] {
            proof {
                assert(path@.take(root.len() as int)[i as int] == path@[i as int]);
            }
            return false;
        }
        i += 1;
    }
    proof {
        assert(path@.take(root.len() as int) =~= root@);
    }
    true
}

/// `path` as seen from `root`.
pub fn relative_to(path: &str, root: &str) -> (shown: String)
    ensures
        shown@ == relative(path@, root@),
{
    let p = chars_of(path);
    let r = chars_of(root);
    if r.len() == 0 || !begins_with(&p, &r) {
        return String::from_str(path);
    }
    let from = r.len();
    if from == p.len() || r[from - 1] == '/' {
        String::from_str(path.substring_char(from, p.len()))
    } else if p[from] == '/' {
        proof {
            assert(path@.skip(from as int).skip(1) =~= path@.subrange(from + 1, p.len() as int));
        }
        String::from_str(path.substring_char(from + 1, p.len()))
    } else {
        String::from_str(path)
    }
}

/// Fills `s` up with blanks to `width` characters.
pub fn pad_right(s: String, width: usize) -> (out: String)
    ensures
        out@ == padded(s@, width as nat),
{
    let len = s.as_str().unicode_len();
    let mut out = s;
    let mut n: usize = len;
    while n < width
        invariant
            len <= n,
            len == s@.len(),
            n <= width || n == len,
            out@ == s@ + Seq::new((n - len) as nat, |i: int| ' '),
        decreases width - n,
    {
        proof {
            reveal_strlit(" ");
            assert(out@ + " "@ =~= s@ + Seq::new((n + 1 - len) as nat, |i: int| ' '));
        }
        out.append(" ");
        n += 1;
    }
    proof {
        if len >= width {
            assert(out@ =~= s@);
        }
    }
    out
}

} // verus!
