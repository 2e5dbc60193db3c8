use vstd::prelude::*;

use crate::error::AppError;
use crate::path::{join_spec, normailze_path, normalize_spec, rel_join, secure_join_spec};

verus! {

/// A batch delete under way: the owner's files, in the order asked, of
/// which those before `removed.len()` are gone. Items are independent: one
/// that fails does not bring back those removed before it, but stops the
/// rest of the batch.
pub struct DeleteBatch {
    file_root: String,
    user_root: String,
    files: Vec<String>,
    removed: Vec<String>,
    error: Option<AppError>,
}

/// What a batch delete holds, in the terms of its contract.
pub struct DeleteBatchView {
    pub file_root: Seq<char>,
    pub user_root: Seq<char>,
    pub files: Seq<Seq<char>>,
    pub removed: Seq<Seq<char>>,
    pub error: Option<AppError>,
}

impl View for DeleteBatch {
    type V = DeleteBatchView;

    closed spec fn view(&self) -> DeleteBatchView {
        DeleteBatchView {
            file_root: self.file_root@,
            user_root: self.user_root@,
            files: self.files@.map_values(|f: String| f@),
            removed: self.removed@.map_values(|f: String| f@),
            error: self.error,
        }
    }
}

impl DeleteBatchView {
    /// The batch has stopped: all files are gone, or one failed.
    pub open spec fn finished(&self) -> bool {
        self.error is Some || self.removed.len() >= self.files.len()
    }

    /// The owner-relative paths of the first `k` files.
    pub open spec fn relative_paths(&self, k: int) -> Seq<Seq<char>> {
        self.files.take(k).map_values(|f: Seq<char>| join_spec(self.user_root, f))
    }

    /// Those removed are, in order, the owner-relative paths of the files
    /// from the first on.
    pub open spec fn wf(&self) -> bool {
        &&& self.removed.len() <= self.files.len()
        &&& self.removed == self.relative_paths(self.removed.len() as int)
    }
}

impl DeleteBatch {
    /// A batch that will delete `files`, paths of the owner whose directory
    /// is `user_root` below `file_root`.
    pub fn new(file_root: &str, user_root: &str, files: Vec<String>) -> (r: Self)
        ensures
            r@.file_root == file_root@,
            r@.user_root == user_root@,
            r@.files == files@.map_values(|f: String| f@),
            r@.removed == Seq::<Seq<char>>::empty(),
            r@.error is None,
            r@.wf(),
    {
        let r = DeleteBatch {
            file_root: file_root.to_string(),
            user_root: user_root.to_string(),
            files,
            removed: Vec::new(),
            error: None,
        };
        proof {
            assert(r@.relative_paths(0) =~= Seq::<Seq<char>>::empty());
            assert(r@.removed =~= Seq::<Seq<char>>::empty());
        }
        r
    }

    /// The path on disk of the next file to delete: the first one not yet
    /// removed, confined below the owner's directory. `None` once the batch
    /// has stopped.
    pub fn next_target(&self) -> (r: Option<Result<String, AppError>>)
        requires
            self@.wf(),
        ensures
            self@.finished() ==> r is None,
            !self@.finished() ==> (r matches Some(t) && {
                let f = self@.files[self@.removed.len() as int];
                &&& t matches Ok(s) ==> normalize_spec(self@.file_root, self@.user_root, f) == Ok::<
                    Seq<char>,
                    AppError,
                >(s@)
                &&& t matches Err(e) ==> normalize_spec(self@.file_root, self@.user_root, f) == Err::<
                    Seq<char>,
                    AppError,
                >(e)
            }),
    {
        if self.error.is_some() || self.removed.len() >= self.files.len() {
            return None;
        }
        let k = self.removed.len();
        Some(normailze_path(self.file_root.as_str(), self.user_root.as_str(), self.files[k].as_str()))
    }

    /// Records how deleting the next file went: on success it counts as
    /// removed, under its owner-relative path; on failure the batch stops
    /// with that error.
    pub fn record(&mut self, outcome: Result<(), AppError>)
        requires
            old(self)@.wf(),
            !old(self)@.finished(),
            normalize_spec(
                old(self)@.file_root,
                old(self)@.user_root,
                old(self)@.files[old(self)@.removed.len() as int],
            ) is Ok || outcome is Err,
        ensures
            final(self)@.wf(),
            final(self)@.file_root == old(self)@.file_root,
            final(self)@.user_root == old(self)@.user_root,
            final(self)@.files == old(self)@.files,
            outcome is Ok ==> final(self)@.removed == old(self)@.removed.push(
                join_spec(old(self)@.user_root, old(self)@.files[old(self)@.removed.len() as int]),
            ) && final(self)@.error is None,
            outcome matches Err(e) ==> final(self)@.removed == old(self)@.removed
                && final(self)@.error == Some(e),
    {
        match outcome {
            Err(e) => {
                self.error = Some(e);
            },
            Ok(()) => {
                let k = self.removed.len();
                let ghost files = self@.files;
                let rel = rel_join(self.user_root.as_str(), self.files[k].as_str());
                match rel {
                    Ok(p) => {
                        self.removed.push(p);
                        proof {
                            let v = self@;
                            assert(v.removed =~= old(self)@.removed.push(
                                join_spec(v.user_root, files[k as int]),
                            ));
                            assert(files.take(k + 1) =~= files.take(k as int).push(files[k as int]));
                            assert(v.relative_paths(k + 1) =~= old(self)@.relative_paths(
                                k as int,
                            ).push(join_spec(v.user_root, files[k as int])));
                        }
                    },
                    Err(e) => {
                        self.error = Some(e);
                    },
                }
            },
        }
    }

    /// Ends the batch: the owner-relative paths removed, in order, to be
    /// announced, and the error that stopped it, if any.
    pub fn finish(self) -> (r: (Vec<String>, Result<(), AppError>))
        ensures
            r.0@.map_values(|f: String| f@) == self@.removed,
            self@.error matches Some(e) ==> r.1 == Err::<(), AppError>(e),
            self@.error is None ==> r.1 is Ok,
    {
        let result = match self.error {
            Some(e) => Err(e),
            None => Ok(()),
        };
        (self.removed, result)
    }
}

} // verus!
