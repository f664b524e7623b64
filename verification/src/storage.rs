//! The queue and the log as they are kept between runs: where the files
//! lie, what an absent or blank file means, how a change reads the whole
//! collection and writes it back, and how the lock on a file is waited for.

use crate::models::{
    LogEntry, LogEntryView, OperationLogs, OperationView, ScheduledOperation, ScheduledOperations,
};
use crate::text::{all_space, is_whitespace, slice_text};
use vstd::arithmetic::power2::{lemma2_to64, pow2};
use vstd::prelude::*;
use vstd::string::StringExecFns;

verus! {

/// The operations of `queue` whose id is not `id`, in their order.
pub open spec fn without_id(queue: Seq<OperationView>, id: Seq<char>) -> Seq<OperationView> {
    queue.filter(|op: OperationView| op.id != id)
}

/// Whether some operation of `queue` has the id `id`.
pub open spec fn holds_id(queue: Seq<OperationView>, id: Seq<char>) -> bool {
    exists|i: int| 0 <= i < queue.len() && (#[trigger] queue[i]).id == id
}

/// Filtering by id goes through the queue from the front: the last
/// operation stays exactly if its id differs.
pub proof fn lemma_without_id_push(queue: Seq<OperationView>, op: OperationView, id: Seq<char>)
    ensures
        without_id(queue.push(op), id) == if op.id != id {
            without_id(queue, id).push(op)
        } else {
            without_id(queue, id)
        },
{
    reveal(Seq::filter);
    assert(queue.push(op).drop_last() =~= queue);
}

/// Removing an id shortens the queue exactly if the id occurs in it, and
/// leaves a queue without that id.
pub proof fn lemma_without_id(queue: Seq<OperationView>, id: Seq<char>)
    ensures
        without_id(queue, id).len() <= queue.len(),
        without_id(queue, id).len() < queue.len() <==> holds_id(queue, id),
        !holds_id(queue, id) ==> without_id(queue, id) == queue,
        !holds_id(without_id(queue, id), id),
    decreases queue.len(),
{
    reveal(Seq::filter);
    if queue.len() == 0 {
    } else {
        let front = queue.drop_last();
        lemma_without_id(front, id);
        assert(front.push(queue.last()) =~= queue);
        lemma_without_id_push(front, queue.last(), id);
        let kept = without_id(front, id);
        if holds_id(front, id) {
            let i = choose|i: int| 0 <= i < front.len() && (#[trigger] front[i]).id == id;
            assert(queue[i].id == id);
        }
        if queue.last().id == id {
            assert(queue[queue.len() - 1].id == id);
        }
        if holds_id(queue, id) {
            let i = choose|i: int| 0 <= i < queue.len() && (#[trigger] queue[i]).id == id;
            if i < front.len() {
                assert(front[i].id == id);
            }
        }
        let all = without_id(queue, id);
        if holds_id(all, id) {
            let i = choose|i: int| 0 <= i < all.len() && (#[trigger] all[i]).id == id;
            if i < kept.len() {
                assert(kept[i].id == id);
            }
        }
        if !holds_id(queue, id) {
            assert(without_id(queue, id) =~= queue);
        }
    }
}

/// Whether no two operations of the queue share an id.
pub open spec fn has_unique_ids(queue: Seq<OperationView>) -> bool {
    forall|i: int, j: int|
        0 <= i < j < queue.len() ==> (#[trigger] queue[i]).id != (#[trigger] queue[j]).id
}

/// What is left after an id was removed was there before.
pub proof fn lemma_without_id_holds_less(queue: Seq<OperationView>, id: Seq<char>, other: Seq<char>)
    requires
        holds_id(without_id(queue, id), other),
    ensures
        holds_id(queue, other),
    decreases queue.len(),
{
    reveal(Seq::filter);
    if queue.len() > 0 {
        let front = queue.drop_last();
        let kept = without_id(front, id);
        let all = without_id(queue, id);
        assert(front.push(queue.last()) =~= queue);
        lemma_without_id_push(front, queue.last(), id);
        let i = choose|i: int| 0 <= i < all.len() && (#[trigger] all[i]).id == other;
        if i < kept.len() {
            assert(kept[i].id == other);
            lemma_without_id_holds_less(front, id, other);
            let k = choose|k: int| 0 <= k < front.len() && (#[trigger] front[k]).id == other;
            assert(queue[k].id == other);
        } else {
            assert(queue[queue.len() - 1].id == other);
        }
    }
}

/// An operation under a new id keeps the ids of the queue apart.
pub proof fn law_add_keeps_ids_unique(queue: Seq<OperationView>, op: OperationView)
    requires
        has_unique_ids(queue),
        !holds_id(queue, op.id),
    ensures
        has_unique_ids(queue.push(op)),
{
    let after = queue.push(op);
    assert forall|i: int, j: int| 0 <= i < j < after.len() implies (#[trigger] after[i]).id != (
    #[trigger] after[j]).id by {
        assert(after[i] == queue[i]);
        if j < queue.len() {
            assert(after[j] == queue[j]);
        }
    }
}

/// Removing an id keeps the ids of the queue apart.
pub proof fn law_remove_keeps_ids_unique(queue: Seq<OperationView>, id: Seq<char>)
    requires
        has_unique_ids(queue),
    ensures
        has_unique_ids(without_id(queue, id)),
    decreases queue.len(),
{
    reveal(Seq::filter);
    if queue.len() > 0 {
        let front = queue.drop_last();
        let last = queue.last();
        assert(front.push(last) =~= queue);
        assert forall|i: int, j: int| 0 <= i < j < front.len() implies (#[trigger] front[i]).id != (
        #[trigger] front[j]).id by {
            assert(front[i] == queue[i] && front[j] == queue[j]);
        }
        law_remove_keeps_ids_unique(front, id);
        lemma_without_id_push(front, last, id);
        if last.id != id {
            if holds_id(without_id(front, id), last.id) {
                lemma_without_id_holds_less(front, id, last.id);
                let k = choose|k: int| 0 <= k < front.len() && (#[trigger] front[k]).id == last.id;
                assert(queue[k].id == queue[queue.len() - 1].id);
            }
            law_add_keeps_ids_unique(without_id(front, id), last);
        }
    }
}

/// Adds `operation` at the end of the queue. Whether its id is new is the
/// caller's concern.
pub fn add_scheduled_operation(queue: &mut ScheduledOperations, operation: ScheduledOperation)
    ensures
        final(queue)@ == old(queue)@.push(operation@),
{
    queue.operations.push(operation);
    assert(queue@ =~= old(queue)@.push(operation@));
}

/// Takes every operation with the id `operation_id` out of the queue and
/// says whether there was one. Only then does the queue need writing back.
pub fn remove_scheduled_operation(queue: &mut ScheduledOperations, operation_id: &str) -> (removed:
    bool)
    ensures
        final(queue)@ == without_id(old(queue)@, operation_id@),
        removed == holds_id(old(queue)@, operation_id@),
        removed == (final(queue)@.len() < old(queue)@.len()),
{
    let ghost before = queue@;
    let ghost id = operation_id@;
    let wanted = operation_id.to_owned();
    let mut removed = false;
    let mut i: usize = 0;
    let ghost mut k: int = 0;
    while i < queue.operations.len()
        invariant
            wanted@ == id,
            0 <= i <= queue.operations.len(),
            k == i + (before.len() - queue@.len()),
            0 <= k <= before.len(),
            queue@.subrange(0, i as int) == without_id(before.subrange(0, k), id),
            queue@.subrange(i as int, queue@.len() as int) == before.subrange(
                k,
                before.len() as int,
            ),
            removed == (k > i),
        decreases queue.operations.len() - i,
    {
        let ghost current = queue@;
        let ghost tail = current.subrange(i as int, current.len() as int);
        assert(tail == before.subrange(k, before.len() as int));
        assert(current[i as int] == tail[0]);
        assert forall|m: int| i < m < current.len() implies #[trigger] current[m] == before[m - i
            + k] by {
            assert(tail[m - i] == current[m]);
        }
        assert(current[i as int] == before[k]);
        assert(before.subrange(0, k + 1) =~= before.subrange(0, k).push(before[k]));
        proof {
            lemma_without_id_push(before.subrange(0, k), before[k], id);
        }
        if queue.operations[i].id == wanted {
            queue.operations.remove(i);
            removed = true;
            assert(queue@ =~= current.remove(i as int));
            assert(queue@.subrange(0, i as int) =~= current.subrange(0, i as int));
            assert(queue@.subrange(i as int, queue@.len() as int) =~= before.subrange(
                k + 1,
                before.len() as int,
            ));
        } else {
            assert(queue@.subrange(0, i + 1) =~= current.subrange(0, i as int).push(
                current[i as int],
            ));
            assert(queue@.subrange(i + 1, queue@.len() as int) =~= before.subrange(
                k + 1,
                before.len() as int,
            ));
            i += 1;
        }
        proof {
            k = k + 1;
        }
    }
    proof {
        assert(queue@.subrange(0, i as int) =~= queue@);
        assert(before.subrange(0, k) =~= before);
        lemma_without_id(before, id);
    }
    removed
}

/// Adds `entry` at the end of the log.
pub fn append_log_entry(logs: &mut OperationLogs, entry: LogEntry)
    ensures
        final(logs)@ == old(logs)@.push(entry@),
{
    logs.entries.push(entry);
    assert(logs@ =~= old(logs)@.push(entry@));
}

/// The path of the file or directory `name` inside the directory `dir`:
/// the two joined by one `/`, which is left out where `dir` is empty or
/// ends in one.
pub open spec fn path_in(dir: Seq<char>, name: Seq<char>) -> Seq<char> {
    if dir.len() == 0 || dir.last() == '/' {
        dir + name
    } else {
        dir + seq!['/'] + name
    }
}

/// The path of `name` inside `dir`.
fn join_path(dir: &str, name: &str) -> (path: String)
    ensures
        path@ == path_in(dir@, name@),
{
    let n = dir.unicode_len();
    let mut path = String::from_str(dir);
    if n > 0 && dir.get_char(n - 1) != '/' {
        proof {
            reveal_strlit("/");
        }
        path.append("/");
        assert(path@ =~= dir@ + seq!['/']);
    }
    path.append(name);
    path
}

/// The directory the queue and the log are kept in, inside the user's
/// configuration directory `config_dir`.
pub fn get_storage_dir(config_dir: &str) -> (path: String)
    ensures
        path@ == path_in(config_dir@, "git-delayed"@),
{
    join_path(config_dir, "git-delayed")
}

/// The file the queue is kept in, inside the storage directory.
pub fn get_scheduled_file_path(storage_dir: &str) -> (path: String)
    ensures
        path@ == path_in(storage_dir@, "scheduled.json"@),
{
    join_path(storage_dir, "scheduled.json")
}

/// The file the log is kept in, inside the storage directory.
pub fn get_logs_file_path(storage_dir: &str) -> (path: String)
    ensures
        path@ == path_in(storage_dir@, "logs.json"@),
{
    join_path(storage_dir, "logs.json")
}

/// The file the daemon's process id is kept in, inside the storage
/// directory.
pub fn get_pid_file_path(storage_dir: &str) -> (path: String)
    ensures
        path@ == path_in(storage_dir@, "daemon.pid"@),
{
    join_path(storage_dir, "daemon.pid")
}

/// Whether a file's content stands for an empty collection: there is no
/// file, or it holds nothing but white space.
pub open spec fn stands_for_empty(content: Option<Seq<char>>) -> bool {
    match content {
        None => true,
        Some(text) => all_space(text),
    }
}

/// Whether `text` holds nothing but white space.
pub fn is_blank(text: &str) -> (blank: bool)
    ensures
        blank == all_space(text@),
{
    let n = text.unicode_len();
    let mut i: usize = 0;
    while i < n
        invariant
            n == text@.len(),
            i <= n,
            forall|j: int| 0 <= j < i ==> crate::text::is_space(#[trigger] text@[j]),
        decreases n - i,
    {
        if !is_whitespace(text.get_char(i)) {
            return false;
        }
        i += 1;
    }
    true
}

/// The queue that the content of the queue's file stands for, where that
/// needs no decoding: the empty queue for a file that is absent or blank.
/// `None` says that the content holds a queue and is to be decoded.
pub fn load_scheduled_operations(content: Option<&str>) -> (queue: Option<ScheduledOperations>)
    ensures
        queue is Some <==> stands_for_empty(slice_text(content)),
        queue matches Some(q) ==> q@ == Seq::<OperationView>::empty(),
{
    let empty = match content {
        None => true,
        Some(text) => is_blank(text),
    };
    if empty {
        Some(ScheduledOperations::default())
    } else {
        None
    }
}

/// The log that the content of the log's file stands for, where that needs
/// no decoding: the empty log for a file that is absent or blank. `None`
/// says that the content holds a log and is to be decoded.
pub fn load_logs(content: Option<&str>) -> (logs: Option<OperationLogs>)
    ensures
        logs is Some <==> stands_for_empty(slice_text(content)),
        logs matches Some(l) ==> l@ == Seq::<LogEntryView>::empty(),
{
    let empty = match content {
        None => true,
        Some(text) => is_blank(text),
    };
    if empty {
        Some(OperationLogs::default())
    } else {
        None
    }
}

/// How often the lock on a file is tried before the call fails.
pub const LOCK_ATTEMPTS: u32 = 3;

/// What to do at the attempt number `attempt`, counted from 0, to lock a
/// file: try, and on failure wait so many milliseconds before the next
/// attempt; or nothing, because the attempts are used up. The wait doubles
/// each time, from 200 milliseconds on.
pub open spec fn lock_backoff(attempt: u32) -> Option<u64> {
    if attempt < LOCK_ATTEMPTS {
        Some((100 * pow2((attempt + 1) as nat)) as u64)
    } else {
        None
    }
}

/// The waiting that guards a file: for the attempt number `attempt`,
/// counted from 0, how long to wait if the lock cannot be had, or `None`
/// once no attempt is left and the call has to fail. With the lock held,
/// the caller does its work and gives the lock back.
pub fn with_file_lock(attempt: u32) -> (backoff: Option<u64>)
    ensures
        backoff == lock_backoff(attempt),
        backoff is Some <==> attempt < LOCK_ATTEMPTS,
        backoff matches Some(millis) ==> millis == 100 * pow2((attempt + 1) as nat),
{
    proof {
        lemma2_to64();
    }
    if attempt == 0 {
        Some(200)
    } else if attempt == 1 {
        Some(400)
    } else if attempt == 2 {
        Some(800)
    } else {
        None
    }
}

} // verus!
