//! Paths with slashes.

use crate::text::chars_of;
use vstd::prelude::*;

verus! {

/// `name` in the directory `dir`. No slash goes after an empty directory, which
/// is the current one, or after one that ends in a slash; an absolute name
/// stands alone.
pub open spec fn joined(dir: Seq<char>, name: Seq<char>) -> Seq<char> {
    if name.len() > 0 && name[0] == '/' {
        name
    } else if dir.len() == 0 || dir.last() == '/' {
        dir + name
    } else {
        dir.push('/') + name
    }
}

/// `name` in the directory `dir`.
pub fn join(dir: &str, name: &str) -> (s: String)
    ensures
        s@ == joined(dir@, name@),
{
    let d = chars_of(dir);
    let n = chars_of(name);
    if n.len() > 0 && n[0] == '/' {
        return name.to_owned();
    }
    let mut s = dir.to_owned();
    if d.len() > 0 && d[d.len() - 1] != '/' {
        s.push('/');
    }
    s.append(name);
    s
}

/// A name that is not absolute is put below its directory: the path begins with
/// the directory, ends with the name, and has a slash between the two, where the
/// directory has none at its end and is not the current one. An absolute name
/// does not depend on the directory.
pub proof fn names_go_below_their_directory(dir: Seq<char>, name: Seq<char>)
    ensures
        ({
            let path = joined(dir, name);
            let absolute = name.len() > 0 && name[0] == '/';
            &&& path.len() >= name.len() && path.skip(path.len() - name.len()) == name
            &&& absolute ==> path == name
            &&& !absolute ==> path.len() >= dir.len() && path.take(dir.len() as int) == dir
            &&& !absolute && dir.len() > 0 ==> path[path.len() - name.len() - 1] == '/'
            &&& !absolute && dir.len() == 0 ==> path == name
            &&& path.len() <= dir.len() + name.len() + 1
            &&& !absolute && dir.len() > 0 && dir.last() == '/' ==> path.len() == dir.len()
                + name.len()
        }),
{
    let path = joined(dir, name);
    assert(path.skip(path.len() - name.len()) == name);
    if !(name.len() > 0 && name[0] == '/') {
        assert(path.take(dir.len() as int) == dir);
    }
    if dir.len() == 0 {
        assert(dir + name == name);
    }
}

} // verus!
