//! Planning the installation of a downloaded zip archive.
//!
//! The archive bytes are decoded into plain entries; the plan lists one
//! write per file entry, with the full target path, the decompressed
//! content, and the unix permission mode when the entry declares one.
//! Directory entries are skipped: directories come into being as parents of
//! the files written. The caller performs the writes, creating missing
//! parents and overwriting files in place, which keeps installation
//! idempotent.

use vstd::prelude::*;
use vstd::string::*;

use crate::errors::{kind_of, ErrorKind, UpdateError};
use crate::manifest::TheiaPluginLCL;

verus! {

/// One entry of a decoded archive.
#[derive(Debug)]
pub struct ZipEntry {
    pub name: String,
    pub is_file: bool,
    pub unix_mode: Option<u32>,
    pub content: Vec<u8>,
}

/// One file the installer must write.
#[derive(Debug)]
pub struct FileWrite {
    pub path: String,
    pub content: Vec<u8>,
    pub unix_mode: Option<u32>,
}

/// The entries of a zip archive, in archive order; nothing when the bytes
/// are not a zip archive.
pub uninterp spec fn zip_entries_of(bytes: Seq<u8>) -> Option<Seq<ZipEntry>>;

/// Relies on zip::ZipArchive (new, len, by_index) and the entry accessors
/// name, is_file and unix_mode: a zip archive's entries are a function of
/// its bytes alone. An entry whose header cannot be read is skipped;
/// content that cannot be decompressed makes the whole archive malformed.
#[verifier::external_body]
pub fn read_zip_entries(data: &Vec<u8>) -> (r: Option<Vec<ZipEntry>>)
    ensures
        match r {
            Some(v) => zip_entries_of(data@) == Some(v@),
            None => zip_entries_of(data@) is None,
        },
{
    let mut archive = match zip::ZipArchive::new(std::io::Cursor::new(data.as_slice())) {
        Ok(a) => a,
        Err(_) => return None,
    };
    let mut out = Vec::new();
    for i in 0..archive.len() {
        if let Ok(mut f) = archive.by_index(i) {
            let mut content = Vec::new();
            if std::io::Read::read_to_end(&mut f, &mut content).is_err() { return None; }
            let (name, is_file, unix_mode) = (f.name().to_owned(), f.is_file(), f.unix_mode());
            out.push(ZipEntry { name, is_file, unix_mode, content });
        }
    }
    Some(out)
}

/// The view of one planned write: path, content, mode.
pub open spec fn write_view(w: FileWrite) -> (Seq<char>, Seq<u8>, Option<u32>) {
    (w.path@, w.content@, w.unix_mode)
}

/// The write one file entry demands under `target`.
pub open spec fn entry_write(e: ZipEntry, target: Seq<char>) -> (
    Seq<char>,
    Seq<u8>,
    Option<u32>,
) {
    (target + seq!['/'] + e.name@, e.content@, e.unix_mode)
}

/// The writes that install an archive under `target`: one per file entry,
/// in archive order.
pub open spec fn spec_plan(entries: Seq<ZipEntry>, target: Seq<char>) -> Seq<
    (Seq<char>, Seq<u8>, Option<u32>),
>
    decreases entries.len(),
{
    if entries.len() == 0 {
        Seq::empty()
    } else {
        let rest = spec_plan(entries.skip(1), target);
        if entries[0].is_file {
            seq![entry_write(entries[0], target)] + rest
        } else {
            rest
        }
    }
}

fn copy_bytes(v: &Vec<u8>) -> (r: Vec<u8>)
    ensures
        r@ == v@,
{
    let mut r: Vec<u8> = Vec::new();
    let mut i: usize = 0;
    while i < v.len()
        invariant
            0 <= i <= v@.len(),
            r@ == v@.take(i as int),
        decreases v@.len() - i,
    {
        r.push(v[i]);
        proof {
            assert(v@.take(i + 1) =~= v@.take(i as int).push(v@[i as int]));
        }
        i = i + 1;
    }
    proof {
        assert(v@.take(i as int) =~= v@);
    }
    r
}

/// Plans the writes that install `entries` under `target`.
pub fn plan_writes(entries: &Vec<ZipEntry>, target: &str) -> (r: Vec<FileWrite>)
    ensures
        r@.map_values(|w: FileWrite| write_view(w)) == spec_plan(entries@, target@),
{
    proof {
        reveal_strlit("/");
    }
    let mut r: Vec<FileWrite> = Vec::new();
    let mut i: usize = 0;
    proof {
        assert(entries@.skip(0) =~= entries@);
        assert(r@.map_values(|w: FileWrite| write_view(w)) =~= Seq::empty());
    }
    while i < entries.len()
        invariant
            0 <= i <= entries@.len(),
            spec_plan(entries@, target@) == r@.map_values(|w: FileWrite| write_view(w))
                + spec_plan(entries@.skip(i as int), target@),
        decreases entries@.len() - i,
    {
        proof {
            assert(entries@.skip(i as int)[0] == entries@[i as int]);
            assert(entries@.skip(i as int).skip(1) =~= entries@.skip(i + 1));
        }
        let e = &entries[i];
        if e.is_file {
            let mut path = target.to_owned();
            path.append("/");
            path.append(e.name.as_str());
            let w = FileWrite {
                path,
                content: copy_bytes(&e.content),
                unix_mode: e.unix_mode,
            };
            proof {
                reveal_strlit("/");
                let ghost m = r@.map_values(|w: FileWrite| write_view(w));
                let ghost ew = entry_write(entries@[i as int], target@);
                assert("/"@ =~= seq!['/']);
                assert(write_view(w) == ew);
                assert(r@.push(w).map_values(|w: FileWrite| write_view(w)) =~= m.push(
                    write_view(w),
                ));
                assert(m + (seq![ew] + spec_plan(entries@.skip(i + 1), target@)) =~= m.push(ew)
                    + spec_plan(entries@.skip(i + 1), target@));
            }
            r.push(w);
        }
        i = i + 1;
    }
    proof {
        assert(entries@.skip(i as int) =~= Seq::<ZipEntry>::empty());
        assert(r@.map_values(|w: FileWrite| write_view(w)) + Seq::empty() =~= r@.map_values(
            |w: FileWrite| write_view(w),
        ));
    }
    r
}

/// Whether a planned write is exactly the write some file entry of the
/// archive demands.
pub open spec fn planned_from_entry(
    w: (Seq<char>, Seq<u8>, Option<u32>),
    entries: Seq<ZipEntry>,
    target: Seq<char>,
) -> bool {
    exists|i: int|
        0 <= i < entries.len() && #[trigger] entries[i].is_file && w == entry_write(
            entries[i],
            target,
        )
}

/// The plan carries the archive over exactly: every file entry appears with
/// its content byte for byte, its declared permission mode, and its path
/// under the target; and the plan holds nothing but such writes.
pub proof fn lemma_plan_preserves_entries(entries: Seq<ZipEntry>, target: Seq<char>)
    ensures
        forall|j: int|
            0 <= j < spec_plan(entries, target).len() ==> planned_from_entry(
                #[trigger] spec_plan(entries, target)[j],
                entries,
                target,
            ),
        forall|i: int|
            0 <= i < entries.len() && entries[i].is_file ==> exists|j: int|
                0 <= j < spec_plan(entries, target).len() && spec_plan(entries, target)[j]
                    == entry_write(#[trigger] entries[i], target),
    decreases entries.len(),
{
    if entries.len() > 0 {
        let plan = spec_plan(entries, target);
        let tail = entries.skip(1);
        let rest = spec_plan(tail, target);
        lemma_plan_preserves_entries(tail, target);
        let off: int = if entries[0].is_file {
            1
        } else {
            0
        };
        assert forall|j: int| 0 <= j < spec_plan(entries, target).len() implies planned_from_entry(
            #[trigger] spec_plan(entries, target)[j],
            entries,
            target,
        ) by {
            if entries[0].is_file && j == 0 {
                assert(plan[0] == entry_write(entries[0], target));
                assert(0 <= 0 < entries.len() && entries[0].is_file && plan[j] == entry_write(
                    entries[0],
                    target,
                ));
            } else {
                assert(0 <= j - off < rest.len());
                assert(plan[j] == rest[j - off]);
                assert(planned_from_entry(rest[j - off], tail, target));
                let i0 = choose|i: int|
                    0 <= i < tail.len() && #[trigger] tail[i].is_file && rest[j - off]
                        == entry_write(tail[i], target);
                assert(tail[i0] == entries[i0 + 1]);
                assert(0 <= i0 + 1 < entries.len() && entries[i0 + 1].is_file && plan[j]
                    == entry_write(entries[i0 + 1], target));
            }
        }
        assert forall|i: int| 0 <= i < entries.len() && entries[i].is_file implies exists|j: int|
            0 <= j < plan.len() && plan[j] == entry_write(#[trigger] entries[i], target) by {
            if i == 0 {
                assert(plan[0] == entry_write(entries[0], target));
            } else {
                assert(tail[i - 1] == entries[i]);
                assert(tail[i - 1].is_file);
                let j0 = choose|j: int|
                    0 <= j < rest.len() && rest[j] == entry_write(tail[i - 1], target);
                assert(plan[j0 + off] == rest[j0]);
                assert(0 <= j0 + off < plan.len() && plan[j0 + off] == entry_write(
                    entries[i],
                    target,
                ));
            }
        }
    } else {
        assert(spec_plan(entries, target) =~= Seq::<(Seq<char>, Seq<u8>, Option<u32>)>::empty());
    }
}

proof fn lemma_subdir_paths_differ(
    dir: Seq<char>,
    n1: Seq<char>,
    n2: Seq<char>,
    a: Seq<char>,
    b: Seq<char>,
)
    requires
        n1 != n2,
        forall|k: int| 0 <= k < n1.len() ==> n1[k] != '/',
        forall|k: int| 0 <= k < n2.len() ==> n2[k] != '/',
    ensures
        dir + seq!['/'] + n1 + seq!['/'] + a != dir + seq!['/'] + n2 + seq!['/'] + b,
{
    let p1 = dir + seq!['/'] + n1 + seq!['/'] + a;
    let p2 = dir + seq!['/'] + n2 + seq!['/'] + b;
    let d = dir.len() as int;
    if p1 == p2 {
        if n1.len() == n2.len() {
            assert forall|k: int| 0 <= k < n1.len() implies n1[k] == n2[k] by {
                assert(p1[d + 1 + k] == n1[k]);
                assert(p2[d + 1 + k] == n2[k]);
            }
            assert(n1 =~= n2);
        } else if n1.len() < n2.len() {
            let q = d + 1 + n1.len() as int;
            assert(p1[q] == '/');
            assert(p2[q] == n2[n1.len() as int]);
            assert(n2[n1.len() as int] != '/');
        } else {
            let q = d + 1 + n2.len() as int;
            assert(p2[q] == '/');
            assert(p1[q] == n1[n2.len() as int]);
            assert(n1[n2.len() as int] != '/');
        }
        assert(false);
    }
}

/// Units for two distinct plugin names never plan a write to the same path:
/// each owns its own subdirectory of the store (plugin names hold no `/`),
/// so concurrent units cannot corrupt each other's files.
#[verifier::rlimit(60)]
pub proof fn lemma_plans_disjoint(
    dir: Seq<char>,
    name1: Seq<char>,
    name2: Seq<char>,
    e1: Seq<ZipEntry>,
    e2: Seq<ZipEntry>,
)
    requires
        name1 != name2,
        forall|k: int| 0 <= k < name1.len() ==> name1[k] != '/',
        forall|k: int| 0 <= k < name2.len() ==> name2[k] != '/',
    ensures
        forall|i: int, j: int|
            0 <= i < spec_plan(e1, dir + seq!['/'] + name1).len() && 0 <= j < spec_plan(
                e2,
                dir + seq!['/'] + name2,
            ).len() ==> #[trigger] spec_plan(e1, dir + seq!['/'] + name1)[i].0 != #[trigger] spec_plan(
                e2,
                dir + seq!['/'] + name2,
            )[j].0,
{
    let t1 = dir + seq!['/'] + name1;
    let t2 = dir + seq!['/'] + name2;
    let p1 = spec_plan(e1, t1);
    let p2 = spec_plan(e2, t2);
    lemma_plan_preserves_entries(e1, t1);
    lemma_plan_preserves_entries(e2, t2);
    assert forall|i: int, j: int| 0 <= i < p1.len() && 0 <= j < p2.len() implies p1[i].0
        != p2[j].0 by {
        assert(planned_from_entry(p1[i], e1, t1));
        assert(planned_from_entry(p2[j], e2, t2));
        let x = choose|x: int|
            0 <= x < e1.len() && #[trigger] e1[x].is_file && p1[i] == entry_write(e1[x], t1);
        let y = choose|y: int|
            0 <= y < e2.len() && #[trigger] e2[y].is_file && p2[j] == entry_write(e2[y], t2);
        assert(p1[i].0 == t1 + seq!['/'] + e1[x].name@);
        assert(p2[j].0 == t2 + seq!['/'] + e2[y].name@);
        lemma_subdir_paths_differ(dir, name1, name2, e1[x].name@, e2[y].name@);
    }
}

impl TheiaPluginLCL {
    /// Decodes downloaded archive bytes and plans the writes that install
    /// plugin `name` under its own subdirectory of the store.
    pub fn installing(&self, name: &str, data: &Vec<u8>) -> (r: Result<
        Vec<FileWrite>,
        UpdateError,
    >)
        ensures
            r matches Ok(ws) ==> zip_entries_of(data@) matches Some(es) && ws@.map_values(
                |w: FileWrite| write_view(w),
            ) == spec_plan(es, self.directory@ + seq!['/'] + name@),
            r matches Err(e) ==> kind_of(e) == ErrorKind::ArchiveFormat && zip_entries_of(
                data@,
            ) is None,
    {
        let entries = match read_zip_entries(data) {
            Some(es) => es,
            None => {
                return Err(UpdateError::ArchiveFormat(name.to_owned()));
            },
        };
        let mut target = self.directory.clone();
        target.append("/");
        target.append(name);
        proof {
            reveal_strlit("/");
            assert("/"@ =~= seq!['/']);
            assert(target@ == self.directory@ + seq!['/'] + name@);
        }
        Ok(plan_writes(&entries, target.as_str()))
    }
}

} // verus!
