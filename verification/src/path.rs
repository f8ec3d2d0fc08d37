//! Where a package's objects live in the store.
//!
//! The ledger of a package stands under two directory levels taken from the
//! first four characters of its name; the archive of a version stands under
//! the name and the version.

use vstd::prelude::*;
use vstd::string::*;
use crate::error::RegistryError;

verus! {

/// The least number of characters of a package name.
pub const MIN_NAME_LEN: usize = 4;

/// A name is valid when it has at least four characters.
pub open spec fn valid_name(name: Seq<char>) -> bool {
    name.len() >= 4
}

/// The two directory levels of a name: its first two characters, a slash,
/// its next two characters.
pub open spec fn spec_shard(name: Seq<char>) -> Seq<char>
    recommends
        valid_name(name),
{
    name.subrange(0, 2) + seq!['/'] + name.subrange(2, 4)
}

/// The path of the metadata ledger of a package.
pub open spec fn spec_ledger_path(name: Seq<char>) -> Seq<char>
    recommends
        valid_name(name),
{
    spec_shard(name) + seq!['/'] + name
}

/// The last component of every archive path.
pub open spec fn archive_suffix() -> Seq<char> {
    seq!['d', 'o', 'w', 'n', 'l', 'o', 'a', 'd']
}

/// The path of the archive of one version of a package.
pub open spec fn spec_archive_path(name: Seq<char>, vers: Seq<char>) -> Seq<char> {
    name + seq!['/'] + vers + seq!['/'] + archive_suffix()
}

/// Whether `name` is long enough to be sharded.
pub fn is_valid_name(name: &str) -> (ok: bool)
    ensures
        ok == valid_name(name@),
{
    name.unicode_len() >= MIN_NAME_LEN
}

/// The shard of a package name, or `InvalidName` for a name of fewer than
/// four characters.
pub fn shard(name: &str) -> (out: Result<String, RegistryError>)
    ensures
        match out {
            Ok(s) => valid_name(name@) && s@ == spec_shard(name@),
            Err(e) => !valid_name(name@) && e == RegistryError::InvalidName,
        },
{
    if !is_valid_name(name) {
        return Err(RegistryError::InvalidName);
    }
    let mut out = String::from_str(name.substring_char(0, 2));
    proof {
        reveal_strlit("/");
    }
    out.append("/");
    out.append(name.substring_char(2, 4));
    Ok(out)
}

/// The ledger path of a package, or `InvalidName` for a name of fewer than
/// four characters.
pub fn ledger_path(name: &str) -> (out: Result<String, RegistryError>)
    ensures
        match out {
            Ok(p) => valid_name(name@) && p@ == spec_ledger_path(name@),
            Err(e) => !valid_name(name@) && e == RegistryError::InvalidName,
        },
{
    match shard(name) {
        Err(e) => Err(e),
        Ok(mut out) => {
            proof {
                reveal_strlit("/");
            }
            out.append("/");
            out.append(name);
            Ok(out)
        },
    }
}

/// The archive path of a version of a package, or `InvalidName` for a name
/// of fewer than four characters.
pub fn archive_path(name: &str, vers: &str) -> (out: Result<String, RegistryError>)
    ensures
        match out {
            Ok(p) => valid_name(name@) && p@ == spec_archive_path(name@, vers@),
            Err(e) => !valid_name(name@) && e == RegistryError::InvalidName,
        },
{
    if !is_valid_name(name) {
        return Err(RegistryError::InvalidName);
    }
    let mut out = String::from_str(name);
    proof {
        reveal_strlit("/");
        reveal_strlit("download");
    }
    out.append("/");
    out.append(vers);
    out.append("/");
    out.append("download");
    Ok(out)
}

/// The ledger of a package and the archive of any of its versions never
/// share a path.
pub proof fn lemma_ledger_is_no_archive(name: Seq<char>, vers: Seq<char>)
    requires
        valid_name(name),
    ensures
        spec_ledger_path(name) != spec_archive_path(name, vers),
{
    assert(spec_ledger_path(name).len() == name.len() + 6);
    assert(spec_archive_path(name, vers).len() == name.len() + vers.len() + 10);
}

/// Two versions of a package have the same archive path only if they are the
/// same version.
pub proof fn lemma_archive_path_injective(name: Seq<char>, vers: Seq<char>, other: Seq<char>)
    requires
        spec_archive_path(name, vers) == spec_archive_path(name, other),
    ensures
        vers == other,
{
    let path = spec_archive_path(name, vers);
    let other_path = spec_archive_path(name, other);
    assert(path.len() == name.len() + vers.len() + 10);
    assert(other_path.len() == name.len() + other.len() + 10);
    assert forall|i: int| 0 <= i < vers.len() implies vers[i] == other[i] by {
        assert(path[name.len() + 1 + i] == vers[i]);
        assert(other_path[name.len() + 1 + i] == other[i]);
    }
    assert(vers =~= other);
}

/// The shard of a name is fixed by its first four characters: names that
/// begin alike lie in the same shard.
pub proof fn lemma_shard_of_prefix(name: Seq<char>, other: Seq<char>)
    requires
        valid_name(name),
        valid_name(other),
        name.subrange(0, 4) == other.subrange(0, 4),
    ensures
        spec_shard(name) == spec_shard(other),
{
    assert(name.subrange(0, 2) =~= name.subrange(0, 4).subrange(0, 2));
    assert(name.subrange(2, 4) =~= name.subrange(0, 4).subrange(2, 4));
    assert(other.subrange(0, 2) =~= other.subrange(0, 4).subrange(0, 2));
    assert(other.subrange(2, 4) =~= other.subrange(0, 4).subrange(2, 4));
}

/// A ledger path ends in the name it was made from, so the ledgers of two
/// packages never share a path.
pub proof fn lemma_ledger_path_injective(name: Seq<char>, other: Seq<char>)
    requires
        valid_name(name),
        valid_name(other),
        spec_ledger_path(name) == spec_ledger_path(other),
    ensures
        name == other,
{
    let path = spec_ledger_path(name);
    let other_path = spec_ledger_path(other);
    assert(path.len() == name.len() + 6);
    assert(other_path.len() == other.len() + 6);
    assert forall|i: int| 0 <= i < name.len() implies name[i] == other[i] by {
        assert(path[i + 6] == name[i]);
        assert(other_path[i + 6] == other[i]);
    }
    assert(name =~= other);
}

} // verus!
