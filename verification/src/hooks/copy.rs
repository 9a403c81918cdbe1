//! Copying a file or a directory tree, one job at a time.

use crate::paths;
use vstd::prelude::*;
use vstd::string::*;

verus! {

/// What is at a path.
#[derive(Debug, Clone, Copy, PartialEq, Eq, Structural)]
pub enum FileKind {
    File,
    Dir,
    Other,
}

/// Something to be done for a copy.
#[derive(Debug, PartialEq, Eq)]
pub enum CopyJob {
    /// Make a directory and those it stands in.
    MakeDirs(String),
    /// Copy one file.
    CopyFile { src: String, dst: String },
    /// Make the directory `dst` and copy all that is in `src` into it.
    CopyTree { src: String, dst: String },
    /// Give up, with this message.
    Refuse(String),
}

/// What a [`CopyJob`] stands for.
pub enum CopyJobView {
    MakeDirs(Seq<char>),
    CopyFile { src: Seq<char>, dst: Seq<char> },
    CopyTree { src: Seq<char>, dst: Seq<char> },
    Refuse(Seq<char>),
}

impl DeepView for CopyJob {
    type V = CopyJobView;

    open spec fn deep_view(&self) -> CopyJobView {
        match self {
            CopyJob::MakeDirs(p) => CopyJobView::MakeDirs(p@),
            CopyJob::CopyFile { src, dst } => CopyJobView::CopyFile { src: src@, dst: dst@ },
            CopyJob::CopyTree { src, dst } => CopyJobView::CopyTree { src: src@, dst: dst@ },
            CopyJob::Refuse(e) => CopyJobView::Refuse(e@),
        }
    }
}

/// The directory that a path stands in, where it has to be made.
pub open spec fn holder(path: Seq<char>, windows: bool) -> Option<Seq<char>> {
    match paths::parent(path, windows) {
        Some(p) => if p.len() > 0 {
            Some(p)
        } else {
            None
        },
        None => None,
    }
}

/// The directory that a path stands in, where it has to be made.
pub fn holder_of(path: &str, windows: bool) -> (r: Option<String>)
    ensures
        r.deep_view() == holder(path@, windows),
{
    match paths::parent_of(path, windows) {
        Some(p) => if p.as_str().unicode_len() > 0 {
            Some(p)
        } else {
            None
        },
        None => None,
    }
}

/// The jobs for a copy: make the directory for it, and then copy what is there.
pub open spec fn jobs(src: Seq<char>, dst: Seq<char>, kind: FileKind, windows: bool) -> Seq<
    CopyJobView,
> {
    (match holder(dst, windows) {
        Some(p) => seq![CopyJobView::MakeDirs(p)],
        None => seq![],
    }).push(
        match kind {
            FileKind::File => CopyJobView::CopyFile { src, dst },
            FileKind::Dir => CopyJobView::CopyTree { src, dst },
            FileKind::Other => CopyJobView::Refuse(
                "copy hook: "@ + src + " is neither a file nor a directory"@,
            ),
        },
    )
}

/// Plans a copy of what is at `src`, of which `kind` says what it is, if there is
/// anything.
pub fn copy_path(src: &str, dst: &str, kind: Option<FileKind>, windows: bool) -> (r: Result<
    Vec<CopyJob>,
    String,
>)
    ensures
        match (r, kind) {
            (Ok(v), Some(k)) => v.deep_view() == jobs(src@, dst@, k, windows),
            (Err(e), None) => e@ == "source not found: "@ + src@,
            _ => false,
        },
{
    let kind = match kind {
        Some(k) => k,
        None => {
            let mut e = "source not found: ".to_string();
            e.append(src);
            return Err(e);
        },
    };
    let mut out: Vec<CopyJob> = Vec::new();
    if let Some(p) = holder_of(dst, windows) {
        out.push(CopyJob::MakeDirs(p));
    }
    match kind {
        FileKind::File => out.push(
            CopyJob::CopyFile { src: src.to_string(), dst: dst.to_string() },
        ),
        FileKind::Dir => out.push(CopyJob::CopyTree { src: src.to_string(), dst: dst.to_string() }),
        FileKind::Other => {
            let mut e = "copy hook: ".to_string();
            e.append(src);
            e.append(" is neither a file nor a directory");
            out.push(CopyJob::Refuse(e));
        },
    }
    proof {
        assert(out.deep_view() =~= jobs(src@, dst@, kind, windows));
    }
    Ok(out)
}

/// Something in a directory.
#[derive(Debug, PartialEq, Eq)]
pub struct Entry {
    pub name: String,
    pub kind: FileKind,
}

/// What an [`Entry`] stands for.
pub struct EntryView {
    pub name: Seq<char>,
    pub kind: FileKind,
}

impl DeepView for Entry {
    type V = EntryView;

    open spec fn deep_view(&self) -> EntryView {
        EntryView { name: self.name@, kind: self.kind }
    }
}

/// The jobs for what is in a directory, in order. What is neither a file nor a
/// directory is passed over.
pub open spec fn tree_jobs(
    src: Seq<char>,
    dst: Seq<char>,
    entries: Seq<EntryView>,
    windows: bool,
) -> Seq<CopyJobView>
    decreases entries.len(),
{
    if entries.len() == 0 {
        seq![]
    } else {
        let e = entries[0];
        let from = paths::join(src, e.name, windows);
        let to = paths::join(dst, e.name, windows);
        (match e.kind {
            FileKind::File => seq![CopyJobView::CopyFile { src: from, dst: to }],
            FileKind::Dir => seq![CopyJobView::CopyTree { src: from, dst: to }],
            FileKind::Other => seq![],
        }) + tree_jobs(src, dst, entries.drop_first(), windows)
    }
}

/// Puts the jobs for what is in a directory on top of the pending ones, the
/// first of them topmost.
pub fn copy_dir_recursive(
    src: &str,
    dst: &str,
    entries: &Vec<Entry>,
    windows: bool,
    pending: &mut Vec<CopyJob>,
)
    ensures
        final(pending).deep_view() == old(pending).deep_view() + tree_jobs(
            src@,
            dst@,
            entries.deep_view(),
            windows,
        ).reverse(),
{
    let ghost all = entries.deep_view();
    let ghost start = pending.deep_view();
    let mut n: usize = entries.len();
    proof {
        assert(all.skip(n as int) =~= seq![]);
        assert(start + tree_jobs(src@, dst@, all.skip(n as int), windows).reverse() =~= start);
    }
    while n > 0
        invariant
            n <= entries@.len(),
            all == entries.deep_view(),
            pending.deep_view() == start + tree_jobs(src@, dst@, all.skip(n as int), windows).reverse(),
        decreases n,
    {
        let ghost before = pending.deep_view();
        let ghost rest = tree_jobs(src@, dst@, all.skip(n as int), windows);
        n = n - 1;
        let e = &entries[n];
        proof {
            assert(all.skip(n as int)[0] == e.deep_view());
            assert(all.skip(n as int).drop_first() =~= all.skip(n + 1));
        }
        match e.kind {
            FileKind::File => {
                let job = CopyJob::CopyFile {
                    src: paths::joined(src, e.name.as_str(), windows),
                    dst: paths::joined(dst, e.name.as_str(), windows),
                };
                let ghost v = job.deep_view();
                pending.push(job);
                proof {
                    assert(pending.deep_view() =~= before.push(v));
                    assert((seq![v] + rest).reverse() =~= rest.reverse().push(v));
                    assert(start + rest.reverse().push(v) =~= (start + rest.reverse()).push(v));
                }
            },
            FileKind::Dir => {
                let job = CopyJob::CopyTree {
                    src: paths::joined(src, e.name.as_str(), windows),
                    dst: paths::joined(dst, e.name.as_str(), windows),
                };
                let ghost v = job.deep_view();
                pending.push(job);
                proof {
                    assert(pending.deep_view() =~= before.push(v));
                    assert((seq![v] + rest).reverse() =~= rest.reverse().push(v));
                    assert(start + rest.reverse().push(v) =~= (start + rest.reverse()).push(v));
                }
            },
            FileKind::Other => {
                proof {
                    assert(seq![] + rest =~= rest);
                }
            },
        }
    }
    proof {
        assert(all.skip(0) =~= all);
    }
}

/// What failed, where a job failed.
pub open spec fn failure(job: CopyJobView) -> Seq<char> {
    match job {
        CopyJobView::MakeDirs(p) => "creating "@ + p,
        CopyJobView::CopyFile { src, dst } => "copy "@ + src + " -> "@ + dst,
        CopyJobView::CopyTree { src, dst } => "reading "@ + src,
        CopyJobView::Refuse(e) => e,
    }
}

/// What failed, where a job failed.
pub fn failure_of(job: &CopyJob) -> (r: String)
    ensures
        r@ == failure(job.deep_view()),
{
    match job {
        CopyJob::MakeDirs(p) => {
            let mut s = "creating ".to_string();
            s.append(p.as_str());
            s
        },
        CopyJob::CopyFile { src, dst } => {
            let mut s = "copy ".to_string();
            s.append(src.as_str());
            s.append(" -> ");
            s.append(dst.as_str());
            s
        },
        CopyJob::CopyTree { src, dst } => {
            let mut s = "reading ".to_string();
            s.append(src.as_str());
            s
        },
        CopyJob::Refuse(e) => e.clone(),
    }
}

} // verus!
