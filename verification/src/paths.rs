//! Where the node's files live, as text.
use vstd::prelude::*;
use vstd::string::*;

verus! {

/// Name of the unencrypted identity file.
pub const PLAIN_FILENAME: &'static str = "identity.key";

/// Name of the passphrase-encrypted identity file.
pub const ENCRYPTED_FILENAME: &'static str = "identity.pk8";

/// Name of the peer snapshot.
pub const SNAPSHOT_FILENAME: &'static str = "dht_snapshot.bin";

/// `name` inside the directory `dir`, with one slash between them. In an
/// empty directory path it is `name` itself.
pub open spec fn joined(dir: Seq<char>, name: Seq<char>) -> Seq<char> {
    if dir.len() == 0 || dir.last() == '/' {
        dir + name
    } else {
        dir.push('/') + name
    }
}

/// `name` inside the directory `dir`.
pub fn join(dir: &str, name: &str) -> (out: String)
    ensures
        out@ == joined(dir@, name@),
{
    let mut out = String::from_str(dir);
    let n: usize = dir.unicode_len();
    if n > 0 && dir.get_char(n - 1) != '/' {
        out.push('/');
    }
    out.append(name);
    out
}

/// The unencrypted identity file in `dir`.
pub fn plain_path(dir: &str) -> (out: String)
    ensures
        out@ == joined(dir@, "identity.key"@),
{
    join(dir, PLAIN_FILENAME)
}

/// The passphrase-encrypted identity file in `dir`.
pub fn encrypted_path(dir: &str) -> (out: String)
    ensures
        out@ == joined(dir@, "identity.pk8"@),
{
    join(dir, ENCRYPTED_FILENAME)
}

/// The peer snapshot in `config_dir`.
pub fn snapshot_path(config_dir: &str) -> (out: String)
    ensures
        out@ == joined(config_dir@, "dht_snapshot.bin"@),
{
    join(config_dir, SNAPSHOT_FILENAME)
}

/// The file that a snapshot is written to before it takes the place of the
/// last one.
pub fn snapshot_temp_path(config_dir: &str) -> (out: String)
    ensures
        out@ == joined(config_dir@, "dht_snapshot.tmp"@),
{
    join(config_dir, "dht_snapshot.tmp")
}

/// The configuration directory: the override where one is given, else
/// `primus` inside the platform's directory. `None` where there is neither.
pub fn config_dir(override_dir: Option<&str>, platform_dir: Option<&str>) -> (out: Option<String>)
    ensures
        match out {
            Some(d) => d@ == match override_dir {
                Some(o) => o@,
                None => joined(platform_dir->0@, "primus"@),
            } && (override_dir is Some || platform_dir is Some),
            None => override_dir is None && platform_dir is None,
        },
{
    match override_dir {
        Some(dir) => Some(String::from_str(dir)),
        None => match platform_dir {
            Some(dir) => Some(join(dir, "primus")),
            None => None,
        },
    }
}

/// The two identity files and the snapshot never share a path.
pub proof fn paths_are_distinct(dir: Seq<char>)
    ensures
        joined(dir, "identity.key"@) != joined(dir, "identity.pk8"@),
        joined(dir, "identity.key"@) != joined(dir, "dht_snapshot.bin"@),
        joined(dir, "identity.pk8"@) != joined(dir, "dht_snapshot.bin"@),
        joined(dir, "dht_snapshot.tmp"@) != joined(dir, "dht_snapshot.bin"@),
{
    reveal_strlit("identity.key");
    reveal_strlit("identity.pk8");
    reveal_strlit("dht_snapshot.bin");
    reveal_strlit("dht_snapshot.tmp");
    let base = joined(dir, Seq::empty());
    let at = base.len() as int;
    assert(joined(dir, "identity.key"@)[at + 9] == 'k');
    assert(joined(dir, "identity.pk8"@)[at + 9] == 'p');
    assert(joined(dir, "identity.key"@)[at] == 'i');
    assert(joined(dir, "identity.pk8"@)[at] == 'i');
    assert(joined(dir, "dht_snapshot.bin"@)[at] == 'd');
    assert(joined(dir, "dht_snapshot.bin"@)[at + 13] == 'b');
    assert(joined(dir, "dht_snapshot.tmp"@)[at + 13] == 't');
}

/// A path inside a directory starts with the directory and ends with the
/// name; between them stands at most one slash, which the directory does not
/// bring along.
pub proof fn paths_lead_into_the_directory(dir: Seq<char>, name: Seq<char>)
    ensures
        ({
            let path = joined(dir, name);
            let between = path.len() - dir.len() - name.len();
            &&& dir.is_prefix_of(path)
            &&& name == path.subrange(path.len() - name.len(), path.len() as int)
            &&& between == 0 || between == 1 && path[dir.len() as int] == '/'
            &&& between == 1 <==> dir.len() > 0 && dir.last() != '/'
        }),
{
    let path = joined(dir, name);
    assert(dir =~= path.subrange(0, dir.len() as int));
    assert(name =~= path.subrange(path.len() - name.len(), path.len() as int));
}

} // verus!
