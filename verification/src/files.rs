//! Entries of the shared-storage directory listing, newest first.

use vstd::prelude::*;
use crate::batches::{lemma_insert_to_multiset, lemma_remove_to_multiset};

verus! {

/// One file in the storage directory. `modified_at` is milliseconds since
/// the Unix epoch.
#[derive(Debug, Clone)]
pub struct SharedFile {
    pub name: String,
    pub size: u64,
    pub modified_at: i64,
}

/// The abstract entry.
#[verifier::ext_equal]
pub struct SharedFileModel {
    pub name: Seq<char>,
    pub size: u64,
    pub modified_at: i64,
}

impl View for SharedFile {
    type V = SharedFileModel;

    open spec fn view(&self) -> SharedFileModel {
        SharedFileModel { name: self.name@, size: self.size, modified_at: self.modified_at }
    }
}

/// The model of a listing.
pub open spec fn shared_files_model(s: Seq<SharedFile>) -> Seq<SharedFileModel> {
    Seq::new(s.len(), |i: int| s[i]@)
}

/// Sorts a directory listing newest first, keeping exactly the same
/// entries.
pub fn sort_shared_files_desc(files: &mut Vec<SharedFile>)
    ensures
        final(files)@.len() == old(files)@.len(),
        forall|i: int, j: int|
            0 <= i < j < final(files)@.len() ==> final(files)@[i].modified_at
                >= final(files)@[j].modified_at,
        shared_files_model(final(files)@).to_multiset() == shared_files_model(
            old(files)@,
        ).to_multiset(),
{
    let n = files.len();
    let mut i: usize = 0;
    while i < n
        invariant
            n == files@.len(),
            i <= n,
            forall|a: int, b: int| 0 <= a < b < i ==> files@[a].modified_at >= files@[b].modified_at,
            shared_files_model(files@).to_multiset() == shared_files_model(
                old(files)@,
            ).to_multiset(),
        decreases n - i,
    {
        let ghost before = shared_files_model(files@);
        let x = files.remove(i);
        let ghost removed = shared_files_model(files@);
        proof {
            assert(removed =~= before.remove(i as int));
            lemma_remove_to_multiset(before, i as int);
        }
        let mut pos: usize = 0;
        while pos < i && files[pos].modified_at >= x.modified_at
            invariant
                pos <= i,
                i < n,
                files@.len() == n - 1,
                removed == shared_files_model(files@),
                forall|a: int| 0 <= a < pos ==> files@[a].modified_at >= x.modified_at,
            decreases i - pos,
        {
            pos = pos + 1;
        }
        proof {
            assert(pos == i || files@[pos as int].modified_at < x.modified_at);
        }
        files.insert(pos, x);
        proof {
            let after = shared_files_model(files@);
            assert(after =~= removed.insert(pos as int, x@));
            lemma_insert_to_multiset(removed, pos as int, x@);
            assert(after.to_multiset() =~= before.to_multiset());
            assert forall|a: int, b: int|
                0 <= a < b < i + 1 implies files@[a].modified_at >= files@[b].modified_at by {
                assert(forall|k: int| 0 <= k < pos ==> files@[k].modified_at == before[k].modified_at);
                assert(files@[pos as int].modified_at == x.modified_at);
                assert(forall|k: int|
                    pos < k <= i ==> files@[k].modified_at == before[k - 1].modified_at);
            }
        }
        i = i + 1;
    }
}

} // verus!
