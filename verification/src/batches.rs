//! The append-only history of completed uploads and its grouping into
//! batches for listing.

use vstd::prelude::*;
use vstd::seq_lib::group_to_multiset_ensures;
use vstd::seq_lib::lemma_multiset_commutative;

verus! {

// ------------------------------------------------------------------
// Models.
// ------------------------------------------------------------------

/// One completed upload as recorded in the history.
#[verifier::ext_equal]
pub struct UploadModel {
    pub batch_id: Seq<char>,
    pub name: Seq<char>,
    pub size: u64,
    pub uploaded_at: i64,
}

/// One file inside a listed batch.
#[verifier::ext_equal]
pub struct FileModel {
    pub name: Seq<char>,
    pub size: u64,
    pub uploaded_at: i64,
}

/// One listed batch.
#[verifier::ext_equal]
pub struct BatchModel {
    pub batch_id: Seq<char>,
    pub uploaded_at: i64,
    pub files: Seq<FileModel>,
}

// ------------------------------------------------------------------
// Executable types.
// ------------------------------------------------------------------

/// The immutable record appended once per successfully completed session.
/// Timestamps are milliseconds since the Unix epoch.
#[derive(Debug, Clone)]
pub struct CompletedUpload {
    pub batch_id: String,
    pub name: String,
    pub size: u64,
    pub uploaded_at: i64,
}

impl View for CompletedUpload {
    type V = UploadModel;

    open spec fn view(&self) -> UploadModel {
        UploadModel {
            batch_id: self.batch_id@,
            name: self.name@,
            size: self.size,
            uploaded_at: self.uploaded_at,
        }
    }
}

/// One file of a listed batch, as handed to callers.
#[derive(Debug, Clone)]
pub struct UploadedFile {
    pub name: String,
    pub size: u64,
    pub uploaded_at: i64,
}

impl View for UploadedFile {
    type V = FileModel;

    open spec fn view(&self) -> FileModel {
        FileModel { name: self.name@, size: self.size, uploaded_at: self.uploaded_at }
    }
}

/// A group of completed uploads sharing a batch id; `uploaded_at` is the
/// completion time of its most recent file.
#[derive(Debug)]
pub struct UploadBatch {
    pub batch_id: String,
    pub uploaded_at: i64,
    pub files: Vec<UploadedFile>,
}

impl View for UploadBatch {
    type V = BatchModel;

    open spec fn view(&self) -> BatchModel {
        BatchModel {
            batch_id: self.batch_id@,
            uploaded_at: self.uploaded_at,
            files: Seq::new(self.files@.len(), |i: int| self.files@[i]@),
        }
    }
}

// ------------------------------------------------------------------
// Spec machinery for grouping.
// ------------------------------------------------------------------

/// The model of a history slice.
pub open spec fn uploads_model(s: Seq<CompletedUpload>) -> Seq<UploadModel> {
    Seq::new(s.len(), |i: int| s[i]@)
}

/// The model of a file list.
pub open spec fn files_model(s: Seq<UploadedFile>) -> Seq<FileModel> {
    Seq::new(s.len(), |i: int| s[i]@)
}

/// The model of a batch list.
pub open spec fn batches_model(s: Seq<UploadBatch>) -> Seq<BatchModel> {
    Seq::new(s.len(), |i: int| s[i]@)
}

/// The file entry a history record turns into.
pub open spec fn file_of(u: UploadModel) -> FileModel {
    FileModel { name: u.name, size: u.size, uploaded_at: u.uploaded_at }
}

/// The files of all records carrying `id`, in history order.
pub open spec fn files_with_batch(rs: Seq<UploadModel>, id: Seq<char>) -> Seq<FileModel>
    decreases rs.len(),
{
    if rs.len() == 0 {
        Seq::empty()
    } else {
        let prefix = files_with_batch(rs.drop_last(), id);
        if rs.last().batch_id == id {
            prefix.push(file_of(rs.last()))
        } else {
            prefix
        }
    }
}

pub proof fn lemma_files_with_batch_step(rs: Seq<UploadModel>, i: int, id: Seq<char>)
    requires
        0 <= i < rs.len(),
    ensures
        files_with_batch(rs.take(i + 1), id) == if rs[i].batch_id == id {
            files_with_batch(rs.take(i), id).push(file_of(rs[i]))
        } else {
            files_with_batch(rs.take(i), id)
        },
{
    assert(rs.take(i + 1).drop_last() =~= rs.take(i));
    assert(rs.take(i + 1).last() == rs[i]);
}

/// Whether some listed batch carries this id.
pub open spec fn batch_ids_cover(bs: Seq<BatchModel>, id: Seq<char>) -> bool {
    exists|bi: int| 0 <= bi < bs.len() && (#[trigger] bs[bi]).batch_id == id
}

/// Ascending completion times.
pub open spec fn files_sorted_asc(fs: Seq<FileModel>) -> bool {
    forall|i: int, j: int| 0 <= i < j < fs.len() ==> fs[i].uploaded_at <= fs[j].uploaded_at
}

/// Descending latest completion times.
pub open spec fn batches_sorted_desc(bs: Seq<BatchModel>) -> bool {
    forall|i: int, j: int| 0 <= i < j < bs.len() ==> bs[i].uploaded_at >= bs[j].uploaded_at
}

/// One listed batch is what grouping `rs` owes it: at least one file, its
/// files exactly the records carrying its id (with multiplicity), ascending
/// by completion time, and stamped with its latest completion time.
pub open spec fn batch_well_formed(b: BatchModel, rs: Seq<UploadModel>) -> bool {
    &&& b.files.len() >= 1
    &&& b.files.to_multiset() == files_with_batch(rs, b.batch_id).to_multiset()
    &&& files_sorted_asc(b.files)
    &&& b.uploaded_at == b.files.last().uploaded_at
    &&& forall|fi: int| 0 <= fi < b.files.len() ==> (#[trigger] b.files[fi]).uploaded_at
        <= b.uploaded_at
}

/// The whole listing is what grouping `rs` owes: every batch well-formed,
/// batch ids pairwise distinct, every record's id covered, and batches in
/// descending order of their latest completion time.
pub open spec fn grouping_correct(bs: Seq<BatchModel>, rs: Seq<UploadModel>) -> bool {
    &&& forall|bi: int| 0 <= bi < bs.len() ==> batch_well_formed(#[trigger] bs[bi], rs)
    &&& forall|b1: int, b2: int|
        0 <= b1 < b2 < bs.len() ==> bs[b1].batch_id != bs[b2].batch_id
    &&& forall|ri: int| 0 <= ri < rs.len() ==> batch_ids_cover(bs, (#[trigger] rs[ri]).batch_id)
    &&& batches_sorted_desc(bs)
}

// ------------------------------------------------------------------
// Multiset helpers.
// ------------------------------------------------------------------

pub(crate) proof fn lemma_insert_to_multiset<A>(s: Seq<A>, i: int, e: A)
    requires
        0 <= i <= s.len(),
    ensures
        s.insert(i, e).to_multiset() == s.to_multiset().insert(e),
{
    broadcast use group_to_multiset_ensures;

    let t = s.insert(i, e);
    assert(t =~= s.take(i).push(e) + s.skip(i));
    lemma_multiset_commutative(s.take(i).push(e), s.skip(i));
    lemma_multiset_commutative(s.take(i), s.skip(i));
    assert(s.take(i) + s.skip(i) =~= s);
    assert(t.to_multiset() =~= s.to_multiset().insert(e));
}

pub(crate) proof fn lemma_remove_to_multiset<A>(s: Seq<A>, i: int)
    requires
        0 <= i < s.len(),
    ensures
        s.remove(i).to_multiset() == s.to_multiset().remove(s[i]),
        s.to_multiset().count(s[i]) >= 1,
        s.remove(i).to_multiset().insert(s[i]) == s.to_multiset(),
{
    broadcast use group_to_multiset_ensures;

    assert(s.remove(i).to_multiset() =~= s.to_multiset().remove(s[i]));
    assert(s.contains(s[i]));
    assert(s.remove(i).to_multiset().insert(s[i]) =~= s.to_multiset());
}

// ------------------------------------------------------------------
// Sorting.
// ------------------------------------------------------------------

/// Sorts a batch's files ascending by completion time, keeping exactly the
/// same files.
fn sort_files_ascending(files: &mut Vec<UploadedFile>)
    ensures
        final(files)@.len() == old(files)@.len(),
        files_sorted_asc(files_model(final(files)@)),
        files_model(final(files)@).to_multiset() == files_model(old(files)@).to_multiset(),
{
    let n = files.len();
    let mut i: usize = 0;
    while i < n
        invariant
            n == files@.len(),
            i <= n,
            forall|a: int, b: int|
                0 <= a < b < i ==> files_model(files@)[a].uploaded_at <= files_model(
                    files@,
                )[b].uploaded_at,
            files_model(files@).to_multiset() == files_model(old(files)@).to_multiset(),
        decreases n - i,
    {
        let ghost before = files_model(files@);
        let x = files.remove(i);
        let ghost removed = files_model(files@);
        proof {
            assert(removed =~= before.remove(i as int));
            lemma_remove_to_multiset(before, i as int);
        }
        let mut pos: usize = 0;
        while pos < i && files[pos].uploaded_at <= x.uploaded_at
            invariant
                pos <= i,
                i < n,
                files@.len() == n - 1,
                removed == files_model(files@),
                forall|a: int| 0 <= a < pos ==> removed[a].uploaded_at <= x.uploaded_at,
            decreases i - pos,
        {
            pos = pos + 1;
        }
        proof {
            assert(pos == i || removed[pos as int].uploaded_at > x.uploaded_at);
        }
        files.insert(pos, x);
        proof {
            let after = files_model(files@);
            assert(after =~= removed.insert(pos as int, x@));
            lemma_insert_to_multiset(removed, pos as int, x@);
            assert(after.to_multiset() =~= before.to_multiset());
            assert forall|a: int, b: int|
                0 <= a < b < i + 1 implies after[a].uploaded_at <= after[b].uploaded_at by {
                assert(forall|k: int| 0 <= k < pos ==> after[k] == before[k]);
                assert(after[pos as int] == x@);
                assert(forall|k: int| pos < k <= i ==> after[k] == before[k - 1]);
            }
        }
        i = i + 1;
    }
}

/// Sorts batches descending by their latest completion time, keeping exactly
/// the same batches.
fn sort_batches_descending(batches: &mut Vec<UploadBatch>)
    ensures
        final(batches)@.len() == old(batches)@.len(),
        batches_sorted_desc(batches_model(final(batches)@)),
        batches_model(final(batches)@).to_multiset() == batches_model(old(batches)@).to_multiset(),
{
    let n = batches.len();
    let mut i: usize = 0;
    while i < n
        invariant
            n == batches@.len(),
            i <= n,
            forall|a: int, b: int|
                0 <= a < b < i ==> batches_model(batches@)[a].uploaded_at >= batches_model(
                    batches@,
                )[b].uploaded_at,
            batches_model(batches@).to_multiset() == batches_model(old(batches)@).to_multiset(),
        decreases n - i,
    {
        let ghost before = batches_model(batches@);
        let x = batches.remove(i);
        let ghost removed = batches_model(batches@);
        proof {
            assert(removed =~= before.remove(i as int));
            lemma_remove_to_multiset(before, i as int);
        }
        let mut pos: usize = 0;
        while pos < i && batches[pos].uploaded_at >= x.uploaded_at
            invariant
                pos <= i,
                i < n,
                batches@.len() == n - 1,
                removed == batches_model(batches@),
                forall|a: int| 0 <= a < pos ==> removed[a].uploaded_at >= x.uploaded_at,
            decreases i - pos,
        {
            pos = pos + 1;
        }
        proof {
            assert(pos == i || removed[pos as int].uploaded_at < x.uploaded_at);
        }
        batches.insert(pos, x);
        proof {
            let after = batches_model(batches@);
            assert(after =~= removed.insert(pos as int, x@));
            lemma_insert_to_multiset(removed, pos as int, x@);
            assert(after.to_multiset() =~= before.to_multiset());
            assert forall|a: int, b: int|
                0 <= a < b < i + 1 implies after[a].uploaded_at >= after[b].uploaded_at by {
                assert(forall|k: int| 0 <= k < pos ==> after[k] == before[k]);
                assert(after[pos as int] == x@);
                assert(forall|k: int| pos < k <= i ==> after[k] == before[k - 1]);
            }
        }
        i = i + 1;
    }
}

// ------------------------------------------------------------------
// More multiset helpers.
// ------------------------------------------------------------------

proof fn lemma_multiset_elements<A>(s1: Seq<A>, s2: Seq<A>)
    requires
        s1.to_multiset() == s2.to_multiset(),
    ensures
        forall|i: int| 0 <= i < s2.len() ==> s1.contains(#[trigger] s2[i]),
{
    broadcast use group_to_multiset_ensures;

    assert forall|i: int| 0 <= i < s2.len() implies s1.contains(s2[i]) by {
        assert(s2.contains(s2[i]));
        assert(s2.to_multiset().count(s2[i]) > 0);
    }
}

proof fn lemma_files_with_batch_absent(rs: Seq<UploadModel>, id: Seq<char>)
    requires
        forall|k: int| 0 <= k < rs.len() ==> (#[trigger] rs[k]).batch_id != id,
    ensures
        files_with_batch(rs, id) == Seq::<FileModel>::empty(),
    decreases rs.len(),
{
    if rs.len() > 0 {
        lemma_files_with_batch_absent(rs.drop_last(), id);
    }
}

// ------------------------------------------------------------------
// Grouping.
// ------------------------------------------------------------------

fn find_batch(batches: &Vec<UploadBatch>, id: &String) -> (r: Option<usize>)
    ensures
        match r {
            Some(b) => b < batches@.len() && batches@[b as int].batch_id@ == id@,
            None => forall|j: int|
                0 <= j < batches@.len() ==> (#[trigger] batches@[j]).batch_id@ != id@,
        },
{
    let n = batches.len();
    let mut j: usize = 0;
    while j < n
        invariant
            n == batches@.len(),
            j <= n,
            forall|k: int| 0 <= k < j ==> (#[trigger] batches@[k]).batch_id@ != id@,
        decreases n - j,
    {
        if batches[j].batch_id == *id {
            return Some(j);
        }
        j = j + 1;
    }
    None
}

/// Groups the completed-upload history into batches: every record lands in
/// the one batch carrying its batch id, files within a batch ascend by
/// completion time, each batch is stamped with its latest completion time,
/// and batches are listed most recent first.
pub fn group_uploads(records: &Vec<CompletedUpload>) -> (r: Vec<UploadBatch>)
    ensures
        grouping_correct(batches_model(r@), uploads_model(records@)),
{
    let ghost rs = uploads_model(records@);
    let n = records.len();
    let mut batches: Vec<UploadBatch> = Vec::new();
    let mut ri: usize = 0;
    while ri < n
        invariant
            n == records@.len(),
            rs == uploads_model(records@),
            ri <= n,
            forall|b1: int, b2: int|
                0 <= b1 < b2 < batches@.len() ==> batches_model(batches@)[b1].batch_id
                    != batches_model(batches@)[b2].batch_id,
            forall|bj: int|
                0 <= bj < batches@.len() ==> files_model((#[trigger] batches@[bj]).files@)
                    == files_with_batch(rs.take(ri as int), batches@[bj].batch_id@),
            forall|bj: int| 0 <= bj < batches@.len() ==> (#[trigger] batches@[bj]).files@.len() >= 1,
            forall|rj: int|
                0 <= rj < ri ==> batch_ids_cover(batches_model(batches@), (#[trigger] rs[rj]).batch_id),
        decreases n - ri,
    {
        let rec = &records[ri];
        let file = UploadedFile { name: rec.name.clone(), size: rec.size, uploaded_at: rec.uploaded_at };
        proof {
            assert(file@ == file_of(rs[ri as int]));
        }
        let ghost bs0 = batches_model(batches@);
        let ghost vb0 = batches@;
        match find_batch(&batches, &rec.batch_id) {
            Some(b) => {
                let ghost fs0 = batches@[b as int].files@;
                let ghost fmodel = file@;
                batches[b].files.push(file);
                proof {
                    assert(batches@.len() == vb0.len());
                    assert(forall|bj: int| 0 <= bj < vb0.len() && bj != b ==> batches@[bj] == vb0[bj]);
                    assert(batches@[b as int].batch_id == vb0[b as int].batch_id);
                    assert(files_model(batches@[b as int].files@) =~= files_model(fs0).push(fmodel));
                    assert forall|bj: int|
                        0 <= bj < batches@.len() implies files_model(
                        (#[trigger] batches@[bj]).files@,
                    ) == files_with_batch(rs.take(ri + 1), batches@[bj].batch_id@) by {
                        lemma_files_with_batch_step(rs, ri as int, batches@[bj].batch_id@);
                        if bj == b {
                            assert(batches@[bj].batch_id@ == rs[ri as int].batch_id);
                        } else {
                            assert(batches@[bj] == vb0[bj]);
                            if batches@[bj].batch_id@ == rs[ri as int].batch_id {
                                assert(vb0[b as int].batch_id@ == rs[ri as int].batch_id);
                                if bj < b {
                                    assert(batches_model(vb0)[bj].batch_id != batches_model(
                                        vb0,
                                    )[b as int].batch_id);
                                } else {
                                    assert(batches_model(vb0)[b as int].batch_id != batches_model(
                                        vb0,
                                    )[bj].batch_id);
                                }
                            }
                        }
                    }
                    assert forall|b1: int, b2: int|
                        0 <= b1 < b2 < batches@.len() implies batches_model(batches@)[b1].batch_id
                        != batches_model(batches@)[b2].batch_id by {
                        assert(batches_model(batches@)[b1].batch_id == vb0[b1].batch_id@);
                        assert(batches_model(batches@)[b2].batch_id == vb0[b2].batch_id@);
                        assert(batches_model(vb0)[b1].batch_id != batches_model(vb0)[b2].batch_id);
                        assert(batches_model(vb0)[b1].batch_id == vb0[b1].batch_id@);
                        assert(batches_model(vb0)[b2].batch_id == vb0[b2].batch_id@);
                    }
                    assert forall|rj: int| 0 <= rj < ri + 1 implies batch_ids_cover(
                        batches_model(batches@),
                        (#[trigger] rs[rj]).batch_id,
                    ) by {
                        if rj < ri {
                            let w = choose|w: int|
                                0 <= w < bs0.len() && (#[trigger] bs0[w]).batch_id == rs[rj].batch_id;
                            assert(batches_model(batches@)[w].batch_id == rs[rj].batch_id);
                        } else {
                            assert(batches_model(batches@)[b as int].batch_id == rs[rj].batch_id);
                        }
                    }
                }
            },
            None => {
                let mut fs: Vec<UploadedFile> = Vec::new();
                fs.push(file);
                batches.push(
                    UploadBatch {
                        batch_id: rec.batch_id.clone(),
                        uploaded_at: rec.uploaded_at,
                        files: fs,
                    },
                );
                proof {
                    let d = rs[ri as int].batch_id;
                    assert(batches@.len() == vb0.len() + 1);
                    assert(forall|bj: int| 0 <= bj < vb0.len() ==> batches@[bj] == vb0[bj]);
                    assert(batches@[vb0.len() as int].batch_id@ == d);
                    assert forall|k: int|
                        0 <= k < ri implies (#[trigger] rs.take(ri as int)[k]).batch_id != d by {
                        assert(batch_ids_cover(bs0, rs[k].batch_id));
                        let w = choose|w: int|
                            0 <= w < bs0.len() && (#[trigger] bs0[w]).batch_id == rs[k].batch_id;
                        assert(vb0[w].batch_id@ != d);
                    }
                    assert forall|bj: int|
                        0 <= bj < batches@.len() implies files_model(
                        (#[trigger] batches@[bj]).files@,
                    ) == files_with_batch(rs.take(ri + 1), batches@[bj].batch_id@) by {
                        lemma_files_with_batch_step(rs, ri as int, batches@[bj].batch_id@);
                        if bj == batches@.len() - 1 {
                            assert(files_model(batches@[bj].files@) =~= Seq::<
                                FileModel,
                            >::empty().push(file_of(rs[ri as int])));
                            lemma_files_with_batch_absent(rs.take(ri as int), batches@[bj].batch_id@);
                        } else {
                            assert(batches@[bj] == vb0[bj]);
                            if batches@[bj].batch_id@ == d {
                                assert(bs0[bj].batch_id == d);
                            }
                        }
                    }
                    assert forall|b1: int, b2: int|
                        0 <= b1 < b2 < batches@.len() implies batches_model(batches@)[b1].batch_id
                        != batches_model(batches@)[b2].batch_id by {
                        if b2 < vb0.len() {
                            assert(batches_model(batches@)[b1].batch_id == batches_model(vb0)[b1].batch_id);
                            assert(batches_model(batches@)[b2].batch_id == batches_model(vb0)[b2].batch_id);
                            assert(batches_model(vb0)[b1].batch_id != batches_model(vb0)[b2].batch_id);
                        } else {
                            assert(b2 == vb0.len());
                            assert(batches_model(batches@)[b2].batch_id == d);
                            assert(batches@[b1] == vb0[b1]);
                            assert(vb0[b1].batch_id@ != rec.batch_id@);
                            assert(rec.batch_id@ == d);
                        }
                    }
                    assert forall|rj: int| 0 <= rj < ri + 1 implies batch_ids_cover(
                        batches_model(batches@),
                        (#[trigger] rs[rj]).batch_id,
                    ) by {
                        if rj < ri {
                            let w = choose|w: int|
                                0 <= w < bs0.len() && (#[trigger] bs0[w]).batch_id == rs[rj].batch_id;
                            assert(batches_model(batches@)[w].batch_id == rs[rj].batch_id);
                        } else {
                            assert(batches_model(batches@)[vb0.len() as int].batch_id
                                == rs[rj].batch_id);
                        }
                    }
                }
            },
        }
        ri = ri + 1;
    }
    proof {
        assert(rs.take(n as int) =~= rs);
    }
    let m = batches.len();
    let mut bi: usize = 0;
    while bi < m
        invariant
            m == batches@.len(),
            forall|b1: int, b2: int|
                0 <= b1 < b2 < batches@.len() ==> batches_model(batches@)[b1].batch_id
                    != batches_model(batches@)[b2].batch_id,
            forall|rj: int|
                0 <= rj < rs.len() ==> batch_ids_cover(batches_model(batches@), (#[trigger] rs[rj]).batch_id),
            bi <= m,
            forall|bj: int|
                bi <= bj < m ==> files_model((#[trigger] batches@[bj]).files@) == files_with_batch(
                    rs,
                    batches@[bj].batch_id@,
                ),
            forall|bj: int| 0 <= bj < m ==> (#[trigger] batches@[bj]).files@.len() >= 1,
            forall|bj: int|
                0 <= bj < bi ==> batch_well_formed(batches_model(batches@)[bj], rs),
        decreases m - bi,
    {
        let ghost vb0 = batches@;
        sort_files_ascending(&mut batches[bi].files);
        let last = batches[bi].files.len() - 1;
        let stamp = batches[bi].files[last].uploaded_at;
        batches[bi].uploaded_at = stamp;
        proof {
            assert forall|bj: int| 0 <= bj < m && bj != bi implies batches@[bj] == vb0[bj] by {}
            assert(batches@[bi as int].batch_id == vb0[bi as int].batch_id);
            assert forall|bj: int|
                0 <= bj < m implies batches_model(batches@)[bj].batch_id == batches_model(
                vb0,
            )[bj].batch_id by {}
            assert forall|rj: int| 0 <= rj < rs.len() implies batch_ids_cover(
                batches_model(batches@),
                (#[trigger] rs[rj]).batch_id,
            ) by {
                assert(batch_ids_cover(batches_model(vb0), rs[rj].batch_id));
                let w = choose|w: int|
                    0 <= w < batches_model(vb0).len() && (#[trigger] batches_model(vb0)[w]).batch_id
                        == rs[rj].batch_id;
                assert(batches_model(batches@)[w].batch_id == rs[rj].batch_id);
            }
            assert forall|b1: int, b2: int|
                0 <= b1 < b2 < m implies batches_model(batches@)[b1].batch_id != batches_model(
                batches@,
            )[b2].batch_id by {
                assert(batches_model(batches@)[b1].batch_id == batches_model(vb0)[b1].batch_id);
                assert(batches_model(batches@)[b2].batch_id == batches_model(vb0)[b2].batch_id);
                assert(batches_model(vb0)[b1].batch_id != batches_model(vb0)[b2].batch_id);
            }
            assert forall|bj: int| 0 <= bj < bi implies batch_well_formed(
                batches_model(batches@)[bj],
                rs,
            ) by {
                assert(batches@[bj] == vb0[bj]);
                assert(batches_model(batches@)[bj] == batches_model(vb0)[bj]);
                assert(batch_well_formed(batches_model(vb0)[bj], rs));
            }
            let b = batches_model(batches@)[bi as int];
            assert(b.files == files_model(batches@[bi as int].files@));
            assert(b.files.to_multiset() == files_with_batch(rs, b.batch_id).to_multiset());
            assert(b.uploaded_at == b.files.last().uploaded_at);
            assert forall|fi: int| 0 <= fi < b.files.len() implies (#[trigger] b.files[fi]).uploaded_at
                <= b.uploaded_at by {
                if fi < b.files.len() - 1 {
                    assert(b.files[fi].uploaded_at <= b.files[b.files.len() - 1].uploaded_at);
                }
            }
            assert(batch_well_formed(b, rs));
        }
        bi = bi + 1;
    }
    let ghost sorted_stage = batches_model(batches@);
    sort_batches_descending(&mut batches);
    proof {
        let bs = batches_model(batches@);
        lemma_multiset_elements(sorted_stage, bs);
        lemma_multiset_elements(bs, sorted_stage);
        assert forall|bj: int| 0 <= bj < bs.len() implies batch_well_formed(
            #[trigger] bs[bj],
            rs,
        ) by {
            assert(sorted_stage.contains(bs[bj]));
            let k = choose|k: int| 0 <= k < sorted_stage.len() && sorted_stage[k] == bs[bj];
            assert(batch_well_formed(sorted_stage[k], rs));
        }
        assert(sorted_stage.no_duplicates()) by {
            assert forall|i: int, j: int|
                0 <= i < sorted_stage.len() && 0 <= j < sorted_stage.len() && i != j
                implies sorted_stage[i] != sorted_stage[j] by {
                if i < j {
                    assert(sorted_stage[i].batch_id != sorted_stage[j].batch_id);
                } else {
                    assert(sorted_stage[j].batch_id != sorted_stage[i].batch_id);
                }
            }
        }
        sorted_stage.lemma_multiset_has_no_duplicates();
        bs.lemma_multiset_has_no_duplicates_conv();
        assert forall|b1: int, b2: int|
            0 <= b1 < b2 < bs.len() implies bs[b1].batch_id != bs[b2].batch_id by {
            assert(bs[b1] != bs[b2]);
            let k1 = choose|k: int| 0 <= k < sorted_stage.len() && sorted_stage[k] == bs[b1];
            let k2 = choose|k: int| 0 <= k < sorted_stage.len() && sorted_stage[k] == bs[b2];
            assert(k1 != k2);
            if k1 < k2 {
                assert(sorted_stage[k1].batch_id != sorted_stage[k2].batch_id);
            } else {
                assert(sorted_stage[k2].batch_id != sorted_stage[k1].batch_id);
            }
        }
        assert forall|rj: int| 0 <= rj < rs.len() implies batch_ids_cover(
            bs,
            (#[trigger] rs[rj]).batch_id,
        ) by {
            assert(batch_ids_cover(sorted_stage, rs[rj].batch_id));
            let k = choose|k: int|
                0 <= k < sorted_stage.len() && (#[trigger] sorted_stage[k]).batch_id
                    == rs[rj].batch_id;
            assert(bs.contains(sorted_stage[k]));
            let k2 = choose|k2: int| 0 <= k2 < bs.len() && bs[k2] == sorted_stage[k];
            assert(bs[k2].batch_id == rs[rj].batch_id);
        }
    }
    batches
}

} // verus!
