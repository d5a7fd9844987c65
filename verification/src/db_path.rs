//! Where the wallet keeps its database: the directory to create for a
//! configured path, and the default path under the home directory.
use vstd::prelude::*;

verus! {

/// The directory part of a path: everything through its last `/`, or
/// nothing when it has none.
pub open spec fn dir_part(path: Seq<char>) -> Seq<char>
    decreases path.len(),
{
    if path.len() == 0 {
        path
    } else if path.last() == '/' {
        path
    } else {
        dir_part(path.drop_last())
    }
}

/// The directory to create for a configured database path that is not a
/// file yet: the path up to and including its last `/`.
pub fn db_dir_of(path: &str) -> (dir: String)
    ensures
        dir@ == dir_part(path@),
{
    let n = path.unicode_len();
    let mut i: usize = n;
    assert(path@.take(n as int) =~= path@);
    while i > 0
        invariant
            i <= n,
            n == path@.len(),
            dir_part(path@) == dir_part(path@.take(i as int)),
        decreases i,
    {
        assert(path@.take(i as int).last() == path@[i - 1]);
        if path.get_char(i - 1) == '/' {
            let dir = path.substring_char(0, i);
            assert(dir@ =~= path@.take(i as int));
            return dir.to_string();
        }
        assert(path@.take(i as int).drop_last() =~= path@.take(i - 1));
        i = i - 1;
    }
    assert(path@.take(0) =~= Seq::<char>::empty());
    String::new()
}

/// The default database directory under a home directory.
pub fn default_db_dir(home: &str) -> (dir: String)
    ensures
        dir@ == home@ + "/.rubic/"@,
{
    let mut dir = String::from_str(home);
    dir.append("/.rubic/");
    dir
}

/// The default database file in the default directory.
pub fn default_db_file(dir: &str) -> (file: String)
    ensures
        file@ == dir@ + "rubic.sqlite"@,
{
    let mut file = String::from_str(dir);
    file.append("rubic.sqlite");
    file
}

} // verus!
