use vstd::prelude::*;

use crate::path::{
    entry_name, entry_name_spec, join, join_spec as path_join_spec, trim_dir_mark, trim_dir_mark_spec,
};
use crate::stat::FileStat;
use crate::text::{contains, contains_spec, join_spec, join_with};

verus! {

/// A walk sends its paths to the indexes in batches of one more than this.
pub const BATCH_LIMIT: usize = 25;

/// Files larger than this many bytes have no content extracted.
pub const MAX_CONTENT_SIZE: u64 = 10485760;

/// The state of the indexing job.
#[derive(Debug, Clone, PartialEq, Eq)]
pub enum JobStatus {
    /// A walk is under way and has sent this many paths to the indexes.
    Running(u64),
    Idle,
    /// The last walk stopped on this error.
    Error(String),
}

impl JobStatus {
    /// A job that has not run yet.
    pub fn new() -> (r: Self)
        ensures
            r == JobStatus::Idle,
    {
        JobStatus::Idle
    }

    /// Starts a walk, unless one is running: then nothing changes and the
    /// answer is `false`.
    pub fn start(&mut self) -> (started: bool)
        ensures
            *old(self) is Running ==> !started && *final(self) == *old(self),
            !(*old(self) is Running) ==> started && *final(self) == JobStatus::Running(0),
    {
        match self {
            JobStatus::Running(_) => false,
            _ => {
                *self = JobStatus::Running(0);
                true
            },
        }
    }

    /// Counts `n` more paths sent to the indexes by the running walk; the
    /// count stops at `u64::MAX`. Outside a walk nothing changes.
    pub fn record_flush(&mut self, n: u64)
        ensures
            *old(self) matches JobStatus::Running(c) ==> *final(self) == JobStatus::Running(
                if c + n > u64::MAX {
                    u64::MAX
                } else {
                    (c + n) as u64
                },
            ),
            !(*old(self) is Running) ==> *final(self) == *old(self),
    {
        match self {
            JobStatus::Running(c) => {
                *self = JobStatus::Running(c.saturating_add(n));
            },
            _ => {},
        }
    }

    /// Ends a walk that went through.
    pub fn finish(&mut self)
        ensures
            *final(self) == JobStatus::Idle,
    {
        *self = JobStatus::Idle;
    }

    /// Ends a walk on an error, described by `message`.
    pub fn fail(&mut self, message: String)
        ensures
            *final(self) == JobStatus::Error(message),
    {
        *self = JobStatus::Error(message);
    }
}

/// The paths a walk has found and not yet sent to the indexes.
pub struct WalkBatch {
    paths: Vec<String>,
}

impl View for WalkBatch {
    type V = Seq<Seq<char>>;

    closed spec fn view(&self) -> Seq<Seq<char>> {
        self.paths@.map_values(|p: String| p@)
    }
}

impl WalkBatch {
    /// An empty batch.
    pub fn new() -> (r: Self)
        ensures
            r@ == Seq::<Seq<char>>::empty(),
    {
        WalkBatch { paths: Vec::new() }
    }

    /// Adds a path found by the walk. Once the batch holds more than
    /// `BATCH_LIMIT` paths they are handed back, in the order found, and the
    /// batch starts again empty.
    pub fn push(&mut self, path: String) -> (r: Option<Vec<String>>)
        ensures
            old(self)@.len() + 1 > BATCH_LIMIT ==> (r matches Some(b) && b@.map_values(
                |p: String| p@,
            ) == old(self)@.push(path@) && final(self)@ == Seq::<Seq<char>>::empty()),
            old(self)@.len() + 1 <= BATCH_LIMIT ==> r is None && final(self)@ == old(self)@.push(
                path@,
            ),
    {
        self.paths.push(path);
        proof {
            assert(self.paths@.map_values(|p: String| p@) =~= old(self)@.push(path@));
        }
        if self.paths.len() > BATCH_LIMIT {
            let mut out: Vec<String> = Vec::new();
            std::mem::swap(&mut out, &mut self.paths);
            proof {
                assert(self.paths@.map_values(|p: String| p@) =~= Seq::<Seq<char>>::empty());
            }
            Some(out)
        } else {
            None
        }
    }

    /// Hands back what is left once the walk is over, if anything is.
    pub fn take_rest(&mut self) -> (r: Option<Vec<String>>)
        ensures
            old(self)@.len() > 0 ==> (r matches Some(b) && b@.map_values(|p: String| p@) == old(
                self,
            )@ && final(self)@ == Seq::<Seq<char>>::empty()),
            old(self)@.len() == 0 ==> r is None && final(self)@ == old(self)@,
    {
        if self.paths.len() == 0 {
            return None;
        }
        let mut out: Vec<String> = Vec::new();
        std::mem::swap(&mut out, &mut self.paths);
        proof {
            assert(self.paths@.map_values(|p: String| p@) =~= Seq::<Seq<char>>::empty());
        }
        Some(out)
    }
}

/// The media types that the extension of a path maps to, in order.
pub uninterp spec fn guessed_mime_types(path: Seq<char>) -> Seq<Seq<char>>;

/// Relies on `mime_guess::from_path`: the media types known for the
/// extension of `path`, found from the text of the path alone.
#[verifier::external_body]
fn mime_types_of(path: &str) -> (r: Vec<String>)
    ensures
        r@.map_values(|m: String| m@) == guessed_mime_types(path@),
{
    mime_guess::from_path(path).iter().map(|m| m.to_string()).collect()
}

/// The format column of a path: its media types joined by `|`.
pub open spec fn format_spec(path: Seq<char>) -> Seq<char> {
    join_spec(guessed_mime_types(path), "|"@)
}

/// The format of `path`, as the index records it.
pub fn mime_format(path: &str) -> (r: String)
    ensures
        r@ == format_spec(path@),
{
    let types = mime_types_of(path);
    join_with(&types, "|")
}

/// Which extractor reads the text of a file.
#[derive(Debug, Clone, Copy, PartialEq, Eq, Structural)]
pub enum ContentKind {
    /// Plain text, read whole.
    Text,
    /// A PDF, of which the metadata text is read.
    Pdf,
}

/// Which extractor, if any, reads a file of format `mime` and `size` bytes:
/// none above `MAX_CONTENT_SIZE`, else text for a text type and the PDF
/// reader for a PDF.
pub open spec fn content_kind_spec(mime: Seq<char>, size: u64) -> Option<ContentKind> {
    if size > MAX_CONTENT_SIZE {
        None
    } else if contains_spec(mime, "text"@) {
        Some(ContentKind::Text)
    } else if contains_spec(mime, "pdf"@) {
        Some(ContentKind::Pdf)
    } else {
        None
    }
}

/// Decides how the content of a file of format `mime` and `size` bytes is
/// extracted for the full-text index.
pub fn try_parse_sync(mime: &str, size: u64) -> (r: Option<ContentKind>)
    ensures
        r == content_kind_spec(mime@, size),
{
    if size > MAX_CONTENT_SIZE {
        return None;
    }
    if contains(mime, "text") {
        Some(ContentKind::Text)
    } else if contains(mime, "pdf") {
        Some(ContentKind::Pdf)
    } else {
        None
    }
}

/// The text indexed for a PDF: `key: value` for each entry of its
/// information dictionary whose value is text, run together in order.
pub open spec fn pdf_info_spec(fields: Seq<(Seq<char>, Option<Seq<char>>)>) -> Seq<char>
    decreases fields.len(),
{
    if fields.len() == 0 {
        Seq::empty()
    } else {
        let rest = pdf_info_spec(fields.drop_last());
        match fields.last().1 {
            Some(v) => rest + fields.last().0 + ": "@ + v,
            None => rest,
        }
    }
}

/// The view of a dictionary entry.
pub open spec fn field_view(f: (String, Option<String>)) -> (Seq<char>, Option<Seq<char>>) {
    (
        f.0@,
        match f.1 {
            Some(v) => Some(v@),
            None => None,
        },
    )
}

/// The text of a PDF's information dictionary, from its entries in order:
/// each key with its value where the value reads as text.
pub fn pdf_info_text(fields: &Vec<(String, Option<String>)>) -> (r: String)
    ensures
        r@ == pdf_info_spec(fields@.map_values(|f: (String, Option<String>)| field_view(f))),
{
    let ghost views = fields@.map_values(|f: (String, Option<String>)| field_view(f));
    let mut r = String::new();
    let mut i: usize = 0;
    while i < fields.len()
        invariant
            i <= fields@.len(),
            views == fields@.map_values(|f: (String, Option<String>)| field_view(f)),
            r@ == pdf_info_spec(views.take(i as int)),
        decreases fields@.len() - i,
    {
        proof {
            assert(views.take(i + 1).drop_last() =~= views.take(i as int));
        }
        let ghost before = r@;
        match &fields[i].1 {
            Some(v) => {
                r.append(fields[i].0.as_str());
                r.append(": ");
                r.append(v.as_str());
                proof {
                    assert(r@ =~= before + views[i as int].0 + ": "@ + v@);
                }
            },
            None => {},
        }
        i = i + 1;
    }
    proof {
        assert(views.take(fields@.len() as int) =~= views);
    }
    r
}

/// One row of the relational index: a path below the files root, written
/// by the walk of generation `updated_at`.
#[derive(Debug)]
pub struct NewFileIndex {
    pub file_name: String,
    pub file_path: String,
    pub username: String,
    pub size: u64,
    pub created_at: u128,
    pub modified_at: u128,
    pub format: String,
    pub is_dir: bool,
    pub updated_at: u64,
}

/// The last component of `rel_path` once joined to `file_root`.
pub open spec fn indexed_name(file_root: Seq<char>, rel_path: Seq<char>) -> Seq<char> {
    entry_name_spec(trim_dir_mark_spec(path_join_spec(file_root, rel_path)))
}

/// The row that the walk of generation `now` writes for `rel_path`, a path
/// below `file_root` that `stat` describes, owned by `owner`.
pub fn index_record(file_root: &str, rel_path: &str, stat: &FileStat, owner: &str, now: u64) -> (r:
    NewFileIndex)
    ensures
        r.file_path@ == rel_path@,
        r.file_name@ == indexed_name(file_root@, rel_path@),
        r.username@ == owner@,
        r.format@ == format_spec(path_join_spec(file_root@, rel_path@)),
        r.size == stat.size,
        r.created_at == stat.created,
        r.modified_at == stat.modified,
        r.is_dir == stat.is_dir,
        r.updated_at == now,
{
    let full = join(file_root, rel_path);
    let trimmed = trim_dir_mark(full.as_str());
    NewFileIndex {
        file_name: entry_name(trimmed.as_str()),
        file_path: rel_path.to_string(),
        username: owner.to_string(),
        size: stat.size,
        created_at: stat.created,
        modified_at: stat.modified,
        format: mime_format(full.as_str()),
        is_dir: stat.is_dir,
        updated_at: now,
    }
}

/// An index entry as the path it stands for and the generation that wrote it.
pub type Entry = (Seq<char>, u64);

/// `paths` as entries of generation `now`.
pub open spec fn stamp(paths: Seq<Seq<char>>, now: u64) -> Seq<Entry> {
    paths.map_values(|p: Seq<char>| (p, now))
}

/// The entries whose generation satisfies `keep`, in their order.
pub open spec fn select(entries: Seq<Entry>, keep: spec_fn(u64) -> bool) -> Seq<Entry>
    decreases entries.len(),
{
    if entries.len() == 0 {
        Seq::empty()
    } else {
        let rest = select(entries.drop_last(), keep);
        if keep(entries.last().1) {
            rest.push(entries.last())
        } else {
            rest
        }
    }
}

/// The relational rows that survive the pruning that ends the walk of
/// generation `now`: those it wrote itself.
pub open spec fn prune_rows(rows: Seq<Entry>, now: u64) -> Seq<Entry> {
    select(rows, same_generation(now))
}

/// Generation `now` itself.
pub open spec fn same_generation(now: u64) -> spec_fn(u64) -> bool {
    |g: u64| g == now
}

/// Generation `now` or a later one.
pub open spec fn from_generation(now: u64) -> spec_fn(u64) -> bool {
    |g: u64| g >= now
}

/// The search documents that survive the pruning that ends the walk of
/// generation `now`: those not older than it.
pub open spec fn prune_docs(docs: Seq<Entry>, now: u64) -> Seq<Entry> {
    select(docs, from_generation(now))
}

/// A full walk of generation `now` over an index: every path found is
/// written with that generation, in batches, then the index is pruned.
pub open spec fn walk_rows(rows: Seq<Entry>, paths: Seq<Seq<char>>, now: u64) -> Seq<Entry> {
    prune_rows(rows + stamp(paths, now), now)
}

/// A full walk of generation `now` over the search documents: every path
/// with extracted content is written with that generation, then the older
/// documents are pruned.
pub open spec fn walk_docs(docs: Seq<Entry>, paths: Seq<Seq<char>>, now: u64) -> Seq<Entry> {
    prune_docs(docs + stamp(paths, now), now)
}

/// All entries come from generations before `now`.
pub open spec fn older_than(entries: Seq<Entry>, now: u64) -> bool {
    forall|i: int| 0 <= i < entries.len() ==> (#[trigger] entries[i]).1 < now
}

proof fn lemma_select_concat(a: Seq<Entry>, b: Seq<Entry>, keep: spec_fn(u64) -> bool)
    ensures
        select(a + b, keep) == select(a, keep) + select(b, keep),
    decreases b.len(),
{
    if b.len() == 0 {
        assert(a + b =~= a);
        assert(select(a, keep) + select(b, keep) =~= select(a, keep));
    } else {
        lemma_select_concat(a, b.drop_last(), keep);
        assert((a + b).drop_last() =~= a + b.drop_last());
        assert((a + b).last() == b.last());
        if keep(b.last().1) {
            assert(select(a, keep) + select(b.drop_last(), keep).push(b.last()) =~= (select(a, keep)
                + select(b.drop_last(), keep)).push(b.last()));
        }
    }
}

proof fn lemma_select_none(entries: Seq<Entry>, keep: spec_fn(u64) -> bool)
    requires
        forall|i: int| 0 <= i < entries.len() ==> !keep(#[trigger] entries[i].1),
    ensures
        select(entries, keep) == Seq::<Entry>::empty(),
    decreases entries.len(),
{
    if entries.len() > 0 {
        assert(!keep(entries[entries.len() - 1].1));
        lemma_select_none(entries.drop_last(), keep);
    }
}

proof fn lemma_select_all(entries: Seq<Entry>, keep: spec_fn(u64) -> bool)
    requires
        forall|i: int| 0 <= i < entries.len() ==> keep(#[trigger] entries[i].1),
    ensures
        select(entries, keep) == entries,
    decreases entries.len(),
{
    if entries.len() > 0 {
        assert(keep(entries[entries.len() - 1].1));
        lemma_select_all(entries.drop_last(), keep);
        assert(entries.drop_last().push(entries.last()) =~= entries);
    }
}

/// Writing two batches of one generation writes the two one after the other.
pub proof fn lemma_batches_compose(rows: Seq<Entry>, a: Seq<Seq<char>>, b: Seq<Seq<char>>, now: u64)
    ensures
        rows + stamp(a, now) + stamp(b, now) == rows + stamp(a + b, now),
{
    assert(stamp(a, now) + stamp(b, now) =~= stamp(a + b, now));
    assert(rows + stamp(a, now) + stamp(b, now) =~= rows + (stamp(a, now) + stamp(b, now)));
}

/// After a full walk of a generation newer than everything indexed, the
/// relational index holds exactly the paths the walk found, in the order
/// found, and the search index exactly the paths whose content it
/// extracted: a path gone from disk is gone from both.
pub proof fn lemma_walk_reconciles(
    rows: Seq<Entry>,
    docs: Seq<Entry>,
    paths: Seq<Seq<char>>,
    content_paths: Seq<Seq<char>>,
    now: u64,
)
    requires
        older_than(rows, now),
        older_than(docs, now),
    ensures
        walk_rows(rows, paths, now) == stamp(paths, now),
        walk_docs(docs, content_paths, now) == stamp(content_paths, now),
        walk_rows(rows, paths, now).map_values(|e: Entry| e.0) == paths,
        walk_docs(docs, content_paths, now).map_values(|e: Entry| e.0) == content_paths,
{
    let same = same_generation(now);
    let newer = from_generation(now);
    assert forall|i: int| 0 <= i < stamp(paths, now).len() implies same(
        #[trigger] stamp(paths, now)[i].1,
    ) by {}
    lemma_select_concat(rows, stamp(paths, now), same);
    lemma_select_none(rows, same);
    lemma_select_all(stamp(paths, now), same);
    assert(Seq::<Entry>::empty() + stamp(paths, now) =~= stamp(paths, now));
    lemma_select_concat(docs, stamp(content_paths, now), newer);
    lemma_select_none(docs, newer);
    lemma_select_all(stamp(content_paths, now), newer);
    assert(Seq::<Entry>::empty() + stamp(content_paths, now) =~= stamp(content_paths, now));
    assert(stamp(paths, now).map_values(|e: Entry| e.0) =~= paths);
    assert(stamp(content_paths, now).map_values(|e: Entry| e.0) =~= content_paths);
}

/// Two full walks in a row, over a tree that did not change between them,
/// leave both indexes with as many entries after the second as after the
/// first.
pub proof fn lemma_walk_idempotent(
    rows: Seq<Entry>,
    docs: Seq<Entry>,
    paths: Seq<Seq<char>>,
    content_paths: Seq<Seq<char>>,
    first: u64,
    second: u64,
)
    requires
        older_than(rows, first),
        older_than(docs, first),
        first < second,
    ensures
        walk_rows(walk_rows(rows, paths, first), paths, second).len() == walk_rows(
            rows,
            paths,
            first,
        ).len(),
        walk_docs(walk_docs(docs, content_paths, first), content_paths, second).len() == walk_docs(
            docs,
            content_paths,
            first,
        ).len(),
{
    lemma_walk_reconciles(rows, docs, paths, content_paths, first);
    let rows1 = walk_rows(rows, paths, first);
    let docs1 = walk_docs(docs, content_paths, first);
    assert(older_than(rows1, second));
    assert(older_than(docs1, second));
    lemma_walk_reconciles(rows1, docs1, paths, content_paths, second);
}

} // verus!
