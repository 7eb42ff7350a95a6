//! Where database snapshots live, how a staged restore is named, and which files in the
//! backup folder are snapshots, newest first.

use vstd::prelude::*;
use crate::invoice::push_all;
use crate::models::BackupFile;
use crate::order::{is_permutation, order_text_desc, text_descending_by};
use crate::text::{chars_of, push_str, string_of, text_lt, trim, trim_chars, str_lt};

verus! {

/// Most snapshots kept after a new one is made.
pub const KEEP: usize = 30;

/// The file-name prefix of every snapshot.
pub const PREFIX: &'static str = "flowrly-";

/// The suffix of a restore staged next to the live database.
pub const RESTORE_PENDING_SUFFIX: &'static str = ".restore-pending";

/// `base` joined with the relative name `name`, as `Path::join` does on Unix: a separator
/// is added unless `base` is empty or already ends with one.
pub open spec fn path_join(base: Seq<char>, name: Seq<char>) -> Seq<char> {
    if base.len() > 0 && base[base.len() - 1] != '/' {
        base + seq!['/'] + name
    } else {
        base + name
    }
}

/// `p` with a leading "~/" replaced by the home directory, when one is known.
pub open spec fn expand_home(p: Seq<char>, home: Option<Seq<char>>) -> Seq<char> {
    if p.len() >= 2 && p[0] == '~' && p[1] == '/' && home is Some {
        home->0 + seq!['/'] + p.skip(2)
    } else {
        p
    }
}

/// The backup folder: the configured one (trimmed, "~/" expanded), or "backups" in the
/// application's data folder when none is configured.
pub open spec fn backup_dir(app_data_dir: Seq<char>, configured: Seq<char>, home: Option<Seq<char>>) -> Seq<char> {
    if trim(configured).len() == 0 {
        path_join(app_data_dir, "backups"@)
    } else {
        expand_home(trim(configured), home)
    }
}

pub open spec fn opt_str_view(o: Option<&str>) -> Option<Seq<char>> {
    match o {
        Some(s) => Some(s@),
        None => None,
    }
}

fn shellexpand_home(p: &Vec<char>, home: Option<&str>) -> (r: Vec<char>)
    ensures
        r@ == expand_home(p@, opt_str_view(home)),
{
    if p.len() >= 2 && p[0] == '~' && p[1] == '/' {
        match home {
            Some(h) => {
                let mut out = chars_of(h);
                out.push('/');
                let mut i: usize = 2;
                while i < p.len()
                    invariant
                        2 <= i <= p@.len(),
                        out@ == h@ + seq!['/'] + p@.subrange(2, i as int),
                    decreases p@.len() - i,
                {
                    out.push(p[i]);
                    i = i + 1;
                    assert(out@ =~= h@ + seq!['/'] + p@.subrange(2, i as int));
                }
                assert(p@.subrange(2, p@.len() as int) =~= p@.skip(2));
                out
            },
            None => p.clone(),
        }
    } else {
        p.clone()
    }
}

/// Resolves the backup folder.
pub fn resolve_dir(app_data_dir: &str, configured: &str, home: Option<&str>) -> (dir: String)
    ensures
        dir@ == backup_dir(app_data_dir@, configured@, opt_str_view(home)),
{
    let t = trim_chars(&chars_of(configured));
    if t.len() == 0 {
        let mut out = chars_of(app_data_dir);
        let n = out.len();
        if n > 0 && out[n - 1] != '/' {
            out.push('/');
        }
        push_str(&mut out, "backups");
        let d = string_of(&out);
        proof {
            reveal_strlit("backups");
        }
        assert(d@ =~= path_join(app_data_dir@, "backups"@));
        d
    } else {
        string_of(&shellexpand_home(&t, home))
    }
}

/// Where a restore is staged: the database path with ".restore-pending" appended.
pub fn pending_path(db_path: &str) -> (p: String)
    ensures
        p@ == db_path@ + ".restore-pending"@,
{
    let mut v = chars_of(db_path);
    push_str(&mut v, RESTORE_PENDING_SUFFIX);
    string_of(&v)
}

/// A snapshot's file name: the prefix, and the extension "db".
pub open spec fn is_backup_name(name: Seq<char>) -> bool {
    &&& name.len() >= 8 && name.take(8) == "flowrly-"@
    &&& name.len() >= 11 && name.skip(name.len() - 3) == ".db"@
}

pub fn backup_name(name: &str) -> (b: bool)
    ensures
        b == is_backup_name(name@),
{
    proof {
        reveal_strlit("flowrly-");
        reveal_strlit(".db");
    }
    let v = chars_of(name);
    let n = v.len();
    let p = chars_of(PREFIX);
    let ok_prefix = n >= 8 && v[0] == p[0] && v[1] == p[1] && v[2] == p[2] && v[3] == p[3] && v[4]
        == p[4] && v[5] == p[5] && v[6] == p[6] && v[7] == p[7];
    let ok_ext = n >= 11 && v[n - 3] == '.' && v[n - 2] == 'd' && v[n - 1] == 'b';
    assert(ok_prefix <==> (n >= 8 && v@.take(8) =~= "flowrly-"@));
    proof {
        if ok_ext {
            assert(v@.skip(n - 3) =~= ".db"@);
        } else if n >= 11 && v@.skip(n - 3) == ".db"@ {
            assert(v@.skip(n - 3)[0] == v@[n - 3]);
            assert(v@.skip(n - 3)[1] == v@[n - 2]);
            assert(v@.skip(n - 3)[2] == v@[n - 1]);
        }
    }
    ok_prefix && ok_ext
}

/// The snapshots among the first `n` files, in their order.
pub open spec fn snapshots(files: Seq<BackupFile>, n: int) -> Seq<BackupFile>
    decreases n,
{
    if n <= 0 {
        Seq::empty()
    } else if is_backup_name(files[n - 1].name@) {
        snapshots(files, n - 1).push(files[n - 1])
    } else {
        snapshots(files, n - 1)
    }
}

/// The snapshots among the files of the backup folder, newest (largest name) first.
pub fn list(files: Vec<BackupFile>) -> (out: Vec<BackupFile>)
    ensures
        exists|perm: Seq<usize>|
            is_permutation(perm, snapshots(files@, files@.len() as int).len()) && perm.len() == out@.len()
                && forall|j: int|
                0 <= j < out@.len() ==> #[trigger] out@[j] == snapshots(files@, files@.len() as int)[perm[j] as int],
        forall|j1: int, j2: int|
            0 <= j1 < j2 < out@.len() ==> !text_lt((#[trigger] out@[j1]).name@, (#[trigger] out@[j2]).name@),
{
    let mut kept: Vec<BackupFile> = Vec::new();
    let mut names: Vec<String> = Vec::new();
    let n = files.len();
    for i in 0..n
        invariant
            n == files@.len(),
            kept@ == snapshots(files@, i as int),
            names@.len() == kept@.len(),
            forall|q: int| 0 <= q < names@.len() ==> #[trigger] names@[q] == kept@[q].name,
    {
        if backup_name(files[i].name.as_str()) {
            kept.push(files[i].clone_file());
            names.push(files[i].name.clone());
        }
    }
    let perm = order_text_desc(&names);
    let mut out: Vec<BackupFile> = Vec::new();
    for q in 0..perm.len()
        invariant
            perm@.len() == names@.len() == kept@.len(),
            is_permutation(perm@, names@.len()),
            out@.len() == q,
            forall|r: int| 0 <= r < q ==> #[trigger] out@[r] == kept@[perm@[r] as int],
    {
        out.push(kept[perm[q]].clone_file());
    }
    assert forall|j1: int, j2: int| 0 <= j1 < j2 < out@.len() implies !text_lt(
        (#[trigger] out@[j1]).name@,
        (#[trigger] out@[j2]).name@,
    ) by {
        assert(names@[perm@[j1] as int] == kept@[perm@[j1] as int].name);
        assert(names@[perm@[j2] as int] == kept@[perm@[j2] as int].name);
    }
    out
}

impl BackupFile {
    /// A copy of the record, field by field.
    pub fn clone_file(&self) -> (c: BackupFile)
        ensures
            c == *self,
    {
        BackupFile {
            path: self.path.clone(),
            name: self.name.clone(),
            size_bytes: self.size_bytes,
            created_at: self.created_at.clone(),
        }
    }
}

/// The snapshots to delete so that the `keep` newest of a newest-first list remain.
pub fn prune_targets(listed: &Vec<BackupFile>, keep: usize) -> (paths: Vec<String>)
    ensures
        paths@.len() == if listed@.len() > keep { listed@.len() - keep } else { 0 },
        forall|j: int| 0 <= j < paths@.len() ==> #[trigger] paths@[j] == listed@[keep + j].path,
{
    let mut paths: Vec<String> = Vec::new();
    let mut i = keep;
    while i < listed.len()
        invariant
            keep <= i,
            i <= listed@.len() || i == keep,
            paths@.len() == i - keep,
            forall|j: int| 0 <= j < paths@.len() ==> #[trigger] paths@[j] == listed@[keep + j].path,
        decreases listed@.len() - i,
    {
        paths.push(listed[i].path.clone());
        i = i + 1;
    }
    paths
}

} // verus!
