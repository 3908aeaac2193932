//! What is left to refresh in the graph: files that were written since, and whether
//! the graph has to be built anew.

use vstd::prelude::*;

verus! {

/// After how many written files the graph is built anew.
pub const CUMULATIVE_LAZY_REBUILD_THRESHOLD: usize = 400;

/// The identifier of a file.
#[derive(Clone, Copy, Debug, PartialEq, Eq)]
pub struct FileId {
    pub bytes: [u8; 32],
}

impl FileId {
    /// The bytes of the identifier.
    pub open spec fn view(self) -> Seq<u8> {
        self.bytes@
    }

    /// The identifier with the given bytes.
    pub fn from_bytes(bytes: [u8; 32]) -> (id: FileId)
        ensures
            id@ == bytes@,
    {
        FileId { bytes }
    }
}

/// Whether two identifiers are the same.
pub fn same_file(a: FileId, b: FileId) -> (same: bool)
    ensures
        same == (a@ == b@),
{
    let mut i: usize = 0;
    while i < 32
        invariant
            i <= 32,
            forall|j: int| 0 <= j < i ==> a.bytes@[j] == b.bytes@[j],
        decreases 32 - i,
    {
        if a.bytes[i] != b.bytes[i] {
            proof {
                assert(a@[i as int] != b@[i as int]);
            }
            return false;
        }
        i = i + 1;
    }
    proof {
        assert(a@ =~= b@);
    }
    true
}

/// The identifiers of a list.
pub open spec fn files_view(files: Seq<FileId>) -> Seq<Seq<u8>> {
    Seq::new(files.len(), |i: int| files[i]@)
}

fn contains_file(files: &Vec<FileId>, file: FileId) -> (found: bool)
    ensures
        found == files_view(files@).contains(file@),
{
    let mut i: usize = 0;
    while i < files.len()
        invariant
            i <= files@.len(),
            forall|j: int| 0 <= j < i ==> (#[trigger] files@[j])@ != file@,
        decreases files@.len() - i,
    {
        if same_file(files[i], file) {
            proof {
                assert(files_view(files@)[i as int] == file@);
            }
            return true;
        }
        i = i + 1;
    }
    proof {
        assert forall|j: int| 0 <= j < files_view(files@).len() implies files_view(files@)[j]
            != file@ by {
            assert(files@[j]@ != file@);
        }
    }
    false
}

/// What is left to refresh.
#[verifier::ext_equal]
pub struct QueueView {
    /// The files to refresh one by one.
    pub pending: Seq<Seq<u8>>,
    /// How many files were written in all.
    pub written: nat,
    /// Whether the graph has to be built anew.
    pub rebuild_needed: bool,
    /// Whether the graph is being built anew.
    pub rebuilding: bool,
}

/// Files with more added, each once.
pub open spec fn with_files(pending: Seq<Seq<u8>>, files: Seq<Seq<u8>>) -> Seq<Seq<u8>>
    decreases files.len(),
{
    if files.len() == 0 {
        pending
    } else {
        let before = with_files(pending, files.drop_last());
        if before.contains(files.last()) {
            before
        } else {
            before.push(files.last())
        }
    }
}

/// What is left to refresh after files were written. Only files that are not already
/// waiting count.
pub open spec fn after_writes(queue: QueueView, files: Seq<Seq<u8>>) -> QueueView {
    let pending = with_files(queue.pending, files);
    let added = (pending.len() - queue.pending.len()) as nat;
    QueueView {
        pending,
        written: queue.written + added,
        rebuild_needed: queue.rebuild_needed || added > 0 && queue.written + added
            >= CUMULATIVE_LAZY_REBUILD_THRESHOLD,
        rebuilding: queue.rebuilding,
    }
}

/// How many files a batch of at most `max_files` takes out.
pub open spec fn batch_size(queue: QueueView, max_files: nat) -> nat {
    if queue.pending.len() < max_files {
        queue.pending.len()
    } else {
        max_files
    }
}

/// The files that a batch takes out.
pub open spec fn batch_of(queue: QueueView, max_files: nat) -> Seq<Seq<u8>> {
    queue.pending.take(batch_size(queue, max_files) as int)
}

/// What is left to refresh after a batch was taken out.
pub open spec fn after_batch(queue: QueueView, max_files: nat) -> QueueView {
    QueueView { pending: queue.pending.skip(batch_size(queue, max_files) as int), ..queue }
}

/// What is left to refresh in the graph.
pub struct LazyRefreshQueue {
    pending: Vec<FileId>,
    written: usize,
    rebuild_needed: bool,
    rebuilding: bool,
}

proof fn lemma_with_files(pending: Seq<Seq<u8>>, files: Seq<Seq<u8>>)
    requires
        pending.no_duplicates(),
    ensures
        with_files(pending, files).no_duplicates(),
        pending.len() <= with_files(pending, files).len() <= pending.len() + files.len(),
        pending == with_files(pending, files).take(pending.len() as int),
        forall|i: int|
            0 <= i < files.len() ==> with_files(pending, files).contains(#[trigger] files[i]),
    decreases files.len(),
{
    if files.len() > 0 {
        lemma_with_files(pending, files.drop_last());
        let before = with_files(pending, files.drop_last());
        let all = with_files(pending, files);
        assert(all.take(pending.len() as int) =~= before.take(pending.len() as int));
        assert forall|i: int| 0 <= i < files.len() implies all.contains(#[trigger] files[i]) by {
            if i < files.len() - 1 {
                assert(before.contains(files.drop_last()[i]));
                let k = choose|k: int| 0 <= k < before.len() && before[k] == files[i];
                assert(all[k] == files[i]);
            } else if !before.contains(files.last()) {
                assert(all[before.len() as int] == files[i]);
            }
        }
    } else {
        assert(pending.take(pending.len() as int) =~= pending);
    }
}

impl LazyRefreshQueue {
    /// What is left to refresh.
    pub closed spec fn view(self) -> QueueView {
        QueueView {
            pending: files_view(self.pending@),
            written: self.written as nat,
            rebuild_needed: self.rebuild_needed,
            rebuilding: self.rebuilding,
        }
    }

    #[verifier::type_invariant]
    spec fn files_are_distinct(self) -> bool {
        files_view(self.pending@).no_duplicates()
    }

    /// Nothing is left to refresh.
    pub fn new() -> (queue: Self)
        ensures
            queue@ == (QueueView {
                pending: Seq::empty(),
                written: 0,
                rebuild_needed: false,
                rebuilding: false,
            }),
    {
        let pending: Vec<FileId> = Vec::new();
        proof {
            assert(files_view(pending@) =~= Seq::empty());
        }
        LazyRefreshQueue { pending, written: 0, rebuild_needed: false, rebuilding: false }
    }

    /// How many files were written in all.
    pub fn cumulative_count(&self) -> (count: usize)
        ensures
            count == self@.written,
    {
        self.written
    }

    /// Whether the graph is being built anew.
    pub fn rebuild_in_progress(&self) -> (yes: bool)
        ensures
            yes == self@.rebuilding,
    {
        self.rebuilding
    }

    /// Notes that files were written.
    pub fn record_lazy_writes(&mut self, file_ids: &Vec<FileId>)
        requires
            old(self)@.written + file_ids@.len() <= usize::MAX,
        ensures
            final(self)@ == after_writes(old(self)@, files_view(file_ids@)),
            final(self)@.pending.no_duplicates(),
    {
        proof {
            use_type_invariant(&*self);
        }
        let mut pending: Vec<FileId> = Vec::new();
        std::mem::swap(&mut pending, &mut self.pending);
        let ghost start = files_view(pending@);
        let before: usize = pending.len();
        let mut i: usize = 0;
        proof {
            assert(files_view(file_ids@.take(0)) =~= Seq::empty());
        }
        while i < file_ids.len()
            invariant
                i <= file_ids@.len(),
                start.no_duplicates(),
                files_view(pending@) == with_files(start, files_view(file_ids@.take(i as int))),
            decreases file_ids@.len() - i,
        {
            proof {
                let next = files_view(file_ids@.take(i + 1));
                assert(next.drop_last() =~= files_view(file_ids@.take(i as int)));
                assert(next.last() == file_ids@[i as int]@);
            }
            if !contains_file(&pending, file_ids[i]) {
                let ghost shorter = pending@;
                pending.push(file_ids[i]);
                proof {
                    assert(files_view(pending@) =~= files_view(shorter).push(
                        file_ids@[i as int]@,
                    ));
                }
            }
            i = i + 1;
        }
        proof {
            assert(file_ids@.take(i as int) =~= file_ids@);
            lemma_with_files(start, files_view(file_ids@));
        }
        let added: usize = pending.len() - before;
        self.pending = pending;
        if added > 0 {
            self.written = self.written + added;
            if self.written >= CUMULATIVE_LAZY_REBUILD_THRESHOLD {
                self.rebuild_needed = true;
            }
        }
    }

    /// Takes out up to `max_files` files to refresh one by one.
    pub fn take_incremental_batch(&mut self, max_files: usize) -> (batch: Vec<FileId>)
        ensures
            files_view(batch@) == batch_of(old(self)@, max_files as nat),
            final(self)@ == after_batch(old(self)@, max_files as nat),
            files_view(batch@).no_duplicates(),
            final(self)@.pending.no_duplicates(),
            forall|i: int|
                0 <= i < batch@.len() ==> !final(self)@.pending.contains(#[trigger] files_view(
                    batch@,
                )[i]),
    {
        proof {
            use_type_invariant(&*self);
        }
        let mut pending: Vec<FileId> = Vec::new();
        std::mem::swap(&mut pending, &mut self.pending);
        let ghost all = pending@;
        let taken: usize = if pending.len() < max_files {
            pending.len()
        } else {
            max_files
        };
        let rest = pending.split_off(taken);
        proof {
            assert(files_view(pending@) =~= files_view(all).take(taken as int));
            assert(files_view(rest@) =~= files_view(all).skip(taken as int));
            law_batches_hand_out_each_file_once(old(self)@, max_files as nat, max_files as nat);
        }
        self.pending = rest;
        pending
    }

    /// Whether the graph has to be built anew; asking takes the note back.
    pub fn needs_full_rebuild(&mut self) -> (needed: bool)
        ensures
            needed == old(self)@.rebuild_needed,
            final(self)@ == (QueueView { rebuild_needed: false, ..old(self)@ }),
    {
        proof {
            use_type_invariant(&*self);
        }
        let needed = self.rebuild_needed;
        self.rebuild_needed = false;
        needed
    }

    /// Notes that the graph has to be built anew.
    pub fn schedule_full_rebuild(&mut self)
        ensures
            final(self)@ == (QueueView { rebuild_needed: true, ..old(self)@ }),
    {
        proof {
            use_type_invariant(&*self);
        }
        self.rebuild_needed = true;
    }

    /// Notes that a graph that was built anew is in use.
    pub fn mark_rebuild_applied(&mut self)
        ensures
            final(self)@ == (QueueView { rebuild_needed: false, ..old(self)@ }),
    {
        proof {
            use_type_invariant(&*self);
        }
        self.rebuild_needed = false;
    }

    /// Claims the right to build the graph anew: whoever gets it has it alone.
    pub fn try_start_rebuild(&mut self) -> (claimed: bool)
        ensures
            claimed == !old(self)@.rebuilding,
            final(self)@ == (QueueView { rebuilding: true, ..old(self)@ }),
    {
        proof {
            use_type_invariant(&*self);
        }
        let claimed = !self.rebuilding;
        self.rebuilding = true;
        claimed
    }

    /// Gives back the right to build the graph anew.
    pub fn mark_rebuild_finished(&mut self)
        ensures
            final(self)@ == (QueueView { rebuilding: false, ..old(self)@ }),
    {
        proof {
            use_type_invariant(&*self);
        }
        self.rebuilding = false;
    }
}

/// No file waits twice, and every file that was written waits.
pub proof fn law_written_files_wait_once(queue: QueueView, files: Seq<Seq<u8>>)
    requires
        queue.pending.no_duplicates(),
    ensures
        after_writes(queue, files).pending.no_duplicates(),
        forall|i: int|
            0 <= i < files.len() ==> after_writes(queue, files).pending.contains(
                #[trigger] files[i],
            ),
{
    lemma_with_files(queue.pending, files);
}

/// Writing files that already wait changes nothing.
pub proof fn law_waiting_files_do_not_count(queue: QueueView, files: Seq<Seq<u8>>)
    requires
        forall|i: int| 0 <= i < files.len() ==> queue.pending.contains(#[trigger] files[i]),
    ensures
        after_writes(queue, files) == queue,
{
    lemma_nothing_new(queue.pending, files);
}

proof fn lemma_nothing_new(pending: Seq<Seq<u8>>, files: Seq<Seq<u8>>)
    requires
        forall|i: int| 0 <= i < files.len() ==> pending.contains(#[trigger] files[i]),
    ensures
        with_files(pending, files) == pending,
    decreases files.len(),
{
    if files.len() > 0 {
        assert forall|i: int| 0 <= i < files.drop_last().len() implies pending.contains(
            #[trigger] files.drop_last()[i],
        ) by {
            assert(files.drop_last()[i] == files[i]);
        }
        lemma_nothing_new(pending, files.drop_last());
        assert(pending.contains(files[files.len() - 1]));
    }
}

/// A batch and what still waits are together what waited, and no file is among them
/// twice: batches that follow each other hand out each file once, until it is
/// written again.
pub proof fn law_batches_hand_out_each_file_once(queue: QueueView, max_files: nat, later: nat)
    requires
        queue.pending.no_duplicates(),
    ensures
        batch_of(queue, max_files) + after_batch(queue, max_files).pending == queue.pending,
        batch_of(queue, max_files).no_duplicates(),
        after_batch(queue, max_files).pending.no_duplicates(),
        forall|i: int|
            0 <= i < batch_of(queue, max_files).len() ==> !after_batch(
                queue,
                max_files,
            ).pending.contains(#[trigger] batch_of(queue, max_files)[i]),
        forall|i: int|
            0 <= i < batch_of(queue, max_files).len() ==> !batch_of(
                after_batch(queue, max_files),
                later,
            ).contains(#[trigger] batch_of(queue, max_files)[i]),
{
    let size = batch_size(queue, max_files) as int;
    let batch = batch_of(queue, max_files);
    let rest = after_batch(queue, max_files).pending;
    assert(batch + rest =~= queue.pending);
    assert forall|i: int, j: int|
        0 <= i < rest.len() && 0 <= j < rest.len() && i != j implies rest[i] != rest[j] by {
        assert(rest[i] == queue.pending[i + size] && rest[j] == queue.pending[j + size]);
    }
    assert forall|i: int| 0 <= i < batch.len() implies !rest.contains(#[trigger] batch[i]) by {
        if rest.contains(batch[i]) {
            let j = choose|j: int| 0 <= j < rest.len() && rest[j] == batch[i];
            assert(queue.pending[j + size] == queue.pending[i]);
        }
    }
    let next = batch_of(after_batch(queue, max_files), later);
    assert forall|i: int| 0 <= i < batch.len() implies !next.contains(#[trigger] batch[i]) by {
        if next.contains(batch[i]) {
            let j = choose|j: int| 0 <= j < next.len() && next[j] == batch[i];
            assert(rest[j] == batch[i]);
        }
    }
}

/// A rebuild is noted when enough files have been written, and not before.
pub proof fn law_rebuild_comes_at_the_threshold(queue: QueueView, files: Seq<Seq<u8>>)
    requires
        queue.pending.no_duplicates(),
        !queue.rebuild_needed,
    ensures
        after_writes(queue, files).rebuild_needed ==> after_writes(queue, files).written
            >= CUMULATIVE_LAZY_REBUILD_THRESHOLD,
        after_writes(queue, files).written >= CUMULATIVE_LAZY_REBUILD_THRESHOLD && queue.written
            < CUMULATIVE_LAZY_REBUILD_THRESHOLD ==> after_writes(queue, files).rebuild_needed,
{
    lemma_with_files(queue.pending, files);
}

/// Writing files one after the other comes to the same as writing them together; and a
/// single file waits last, unless it waits already.
pub proof fn law_files_wait_in_the_order_of_writing(
    pending: Seq<Seq<u8>>,
    first: Seq<Seq<u8>>,
    second: Seq<Seq<u8>>,
    file: Seq<u8>,
)
    ensures
        with_files(pending, first + second) == with_files(with_files(pending, first), second),
        with_files(pending, seq![file]) == if pending.contains(file) {
            pending
        } else {
            pending.push(file)
        },
        with_files(pending, Seq::empty()) == pending,
    decreases second.len(),
{
    if second.len() > 0 {
        law_files_wait_in_the_order_of_writing(pending, first, second.drop_last(), file);
        assert((first + second).drop_last() =~= first + second.drop_last());
    } else {
        assert(first + second =~= first);
    }
    reveal_with_fuel(with_files, 2);
    assert(seq![file].drop_last().len() == 0);
}

/// Each file that waits after files were written waited before or was written; those that
/// waited keep their places, and as many are counted as were added.
pub proof fn law_only_written_files_are_added(queue: QueueView, files: Seq<Seq<u8>>)
    requires
        queue.pending.no_duplicates(),
    ensures
        ({
            let after = after_writes(queue, files);
            &&& queue.pending.is_prefix_of(after.pending)
            &&& after.written - queue.written == after.pending.len() - queue.pending.len()
            &&& after.rebuilding == queue.rebuilding
            &&& queue.rebuild_needed ==> after.rebuild_needed
            &&& forall|i: int|
                queue.pending.len() <= i < after.pending.len() ==> files.contains(
                    #[trigger] after.pending[i],
                )
        }),
{
    lemma_with_files(queue.pending, files);
    lemma_added_files_were_written(queue.pending, files);
}

proof fn lemma_added_files_were_written(pending: Seq<Seq<u8>>, files: Seq<Seq<u8>>)
    ensures
        pending.len() <= with_files(pending, files).len(),
        forall|i: int|
            pending.len() <= i < with_files(pending, files).len() ==> files.contains(
                #[trigger] with_files(pending, files)[i],
            ),
    decreases files.len(),
{
    if files.len() > 0 {
        let rest = files.drop_last();
        lemma_added_files_were_written(pending, rest);
        let before = with_files(pending, rest);
        let all = with_files(pending, files);
        assert forall|i: int| pending.len() <= i < all.len() implies files.contains(
            #[trigger] all[i],
        ) by {
            if i < before.len() {
                assert(all[i] == before[i]);
                assert(rest.contains(before[i]));
                let k = choose|k: int| 0 <= k < rest.len() && rest[k] == before[i];
                assert(files[k] == all[i]);
            } else {
                assert(files[files.len() - 1] == all[i]);
            }
        }
    }
}

/// Files are seen one by one, in order.
pub proof fn law_files_are_seen_in_order(files: Seq<FileId>)
    ensures
        files_view(files).len() == files.len(),
        forall|i: int| 0 <= i < files.len() ==> #[trigger] files_view(files)[i] == files[i]@,
{
}

} // verus!
