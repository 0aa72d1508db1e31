use vstd::prelude::*;
use crate::context::push_line;
use crate::text::{decimal, decimal_text};

verus! {

/// Order of modification times: an unknown time (`None`) is older than any
/// known one; known times compare as numbers.
pub open spec fn key_le(a: Option<i128>, b: Option<i128>) -> bool {
    match (a, b) {
        (None, _) => true,
        (Some(_), None) => false,
        (Some(x), Some(y)) => x <= y,
    }
}

/// In newest-first order, entry `i` comes before entry `j`: it is strictly
/// newer, or equally new and later in the input.
pub open spec fn comes_first(keys: Seq<Option<i128>>, i: int, j: int) -> bool {
    !key_le(keys[i], keys[j]) || (keys[i] == keys[j] && i > j)
}

/// `order` holds each index below `n` exactly once.
pub open spec fn is_index_permutation(order: Seq<usize>, n: nat) -> bool {
    &&& order.len() == n
    &&& forall|k: int| 0 <= k < order.len() ==> #[trigger] order[k] < n
    &&& forall|a: int, b: int| 0 <= a < b < order.len() ==> order[a] != order[b]
    &&& forall|i: usize| i < n ==> #[trigger] order.contains(i)
}

/// `order` lists the indices of `keys` newest first, equal times in reverse
/// input order.
pub open spec fn sorted_newest_first(keys: Seq<Option<i128>>, order: Seq<usize>) -> bool {
    &&& is_index_permutation(order, keys.len())
    &&& forall|a: int, b: int|
        0 <= a < b < order.len() ==> comes_first(keys, order[a] as int, order[b] as int)
}

/// Compares two modification times: whether `a` is no newer than `b`.
pub fn time_at_most(a: Option<i128>, b: Option<i128>) -> (r: bool)
    ensures
        r == key_le(a, b),
{
    match (a, b) {
        (None, _) => true,
        (Some(_), None) => false,
        (Some(x), Some(y)) => x <= y,
    }
}

proof fn lemma_key_le_total(a: Option<i128>, b: Option<i128>)
    ensures
        key_le(a, b) || key_le(b, a),
        key_le(a, b) && key_le(b, a) ==> a == b,
{
}

proof fn lemma_key_le_trans(a: Option<i128>, b: Option<i128>, c: Option<i128>)
    requires
        key_le(a, b),
        key_le(b, c),
    ensures
        key_le(a, c),
{
}

proof fn lemma_comes_first_key(keys: Seq<Option<i128>>, i: int, j: int)
    requires
        comes_first(keys, i, j),
    ensures
        key_le(keys[j], keys[i]),
{
    lemma_key_le_total(keys[i], keys[j]);
}

/// Modification times compare as numbers; an unknown time is older than
/// every known one and equal to another unknown one.
pub proof fn lemma_time_order(x: i128, y: i128, a: Option<i128>)
    ensures
        key_le(Some(x), Some(y)) <==> x <= y,
        key_le(None, a),
        !key_le(Some(x), None),
{
}

/// What newest-first order means for the times themselves: of two listed
/// files, the earlier one has the larger or equal time, a file with an
/// unknown time is never listed before one with a known time, and files with
/// the same time are listed later input first. In particular a strictly
/// newer backup always comes before an older one.
pub proof fn lemma_newest_first_order(keys: Seq<Option<i128>>, order: Seq<usize>)
    requires
        sorted_newest_first(keys, order),
    ensures
        forall|a: int, b: int|
            #![trigger order[a], order[b]]
            0 <= a < b < order.len() ==> {
                let x = keys[order[a] as int];
                let y = keys[order[b] as int];
                &&& (x is Some && y is Some ==> x->0 >= y->0)
                &&& (y is Some ==> x is Some)
                &&& (x == y ==> order[a] > order[b])
            },
        forall|a: int, b: int|
            #![trigger order[a], order[b]]
            0 <= a < order.len() && 0 <= b < order.len() && keys[order[a] as int] is Some
                && keys[order[b] as int] is Some && keys[order[a] as int]->0 > keys[order[
                b] as int]->0 ==> a < b,
{
    assert forall|a: int, b: int|
        #![trigger order[a], order[b]]
        0 <= a < b < order.len() implies {
            let x = keys[order[a] as int];
            let y = keys[order[b] as int];
            &&& (x is Some && y is Some ==> x->0 >= y->0)
            &&& (y is Some ==> x is Some)
            &&& (x == y ==> order[a] > order[b])
        } by {
        assert(comes_first(keys, order[a] as int, order[b] as int));
        lemma_key_le_total(keys[order[a] as int], keys[order[b] as int]);
    }
    assert forall|a: int, b: int|
        #![trigger order[a], order[b]]
        0 <= a < order.len() && 0 <= b < order.len() && keys[order[a] as int] is Some
            && keys[order[b] as int] is Some && keys[order[a] as int]->0 > keys[order[
            b] as int]->0 implies a < b by {
        if b < a {
            assert(comes_first(keys, order[b] as int, order[a] as int));
        } else if a == b {
        }
    }
}

/// Orders files by modification time, newest first. `modified[i]` is the
/// modification time of the `i`-th file (`None` when it could not be read);
/// the result lists the file indices in the new order. Files with equal
/// times come in reverse input order, as a stable ascending sort followed
/// by a reversal leaves them.
pub fn sort_by_modified_time(modified: &Vec<Option<i128>>) -> (order: Vec<usize>)
    ensures
        sorted_newest_first(modified@, order@),
        forall|a: int, b: int|
            #![trigger order@[a], order@[b]]
            0 <= a < b < order@.len() ==> {
                let x = modified@[order@[a] as int];
                let y = modified@[order@[b] as int];
                &&& (x is Some && y is Some ==> x->0 >= y->0)
                &&& (y is Some ==> x is Some)
                &&& (x == y ==> order@[a] > order@[b])
            },
{
    let ghost keys = modified@;
    let n = modified.len();
    let mut r: Vec<usize> = Vec::new();
    let mut i: usize = 0;
    while i < n
        invariant
            n == keys.len(),
            keys == modified@,
            i <= n,
            r@.len() == i,
            forall|k: int| 0 <= k < r@.len() ==> #[trigger] r@[k] < i,
            forall|a: int, b: int| 0 <= a < b < r@.len() ==> r@[a] != r@[b],
            forall|j: usize| j < i ==> #[trigger] r@.contains(j),
            forall|a: int, b: int|
                0 <= a < b < r@.len() ==> comes_first(keys, r@[a] as int, r@[b] as int),
        decreases n - i,
    {
        let key = modified[i];
        let mut p: usize = 0;
        while p < r.len() && !time_at_most(modified[r[p]], key)
            invariant
                n == keys.len(),
                keys == modified@,
                i < n,
                key == keys[i as int],
                p <= r@.len(),
                forall|k: int| 0 <= k < r@.len() ==> #[trigger] r@[k] < i,
                forall|k: int| 0 <= k < p ==> !key_le(keys[#[trigger] r@[k] as int], key),
            decreases r@.len() - p,
        {
            p = p + 1;
        }
        let ghost old_r = r@;
        proof {
            old_r.insert_ensures(p as int, i);
        }
        r.insert(p, i);
        let ghost new_r = r@;
        assert forall|k: int| 0 <= k < new_r.len() implies #[trigger] new_r[k] < i + 1 by {
            if k < p {
                assert(new_r[k] == old_r[k]);
            } else if k > p {
                assert(new_r[k] == old_r[k - 1]);
            }
        }
        assert forall|a: int, b: int| 0 <= a < b < new_r.len() implies new_r[a] != new_r[b] by {
            if a < p && b < p {
            } else if a < p && b == p {
                assert(old_r[a] < i);
            } else if a < p {
                assert(new_r[b] == old_r[b - 1]);
            } else if a == p {
                assert(new_r[b] == old_r[b - 1]);
                assert(old_r[b - 1] < i);
            } else {
                assert(new_r[a] == old_r[a - 1]);
                assert(new_r[b] == old_r[b - 1]);
            }
        }
        assert forall|j: usize| j < i + 1 implies #[trigger] new_r.contains(j) by {
            if j == i {
                assert(new_r[p as int] == i);
            } else {
                assert(old_r.contains(j));
                let w = choose|w: int| 0 <= w < old_r.len() && old_r[w] == j;
                if w < p {
                    assert(new_r[w] == j);
                } else {
                    assert(new_r[w + 1] == j);
                }
            }
        }
        assert forall|a: int, b: int| 0 <= a < b < new_r.len() implies comes_first(
            keys,
            new_r[a] as int,
            new_r[b] as int,
        ) by {
            if a < p && b < p {
            } else if a < p && b == p {
                assert(!key_le(keys[old_r[a] as int], key));
            } else if a < p {
                assert(new_r[b] == old_r[b - 1]);
            } else if a == p {
                let e = old_r[b - 1];
                assert(new_r[b] == e);
                assert(e < i);
                let q = old_r[p as int];
                assert(key_le(keys[q as int], key));
                if b - 1 > p {
                    lemma_comes_first_key(keys, q as int, e as int);
                    lemma_key_le_trans(keys[e as int], keys[q as int], key);
                }
                lemma_key_le_total(keys[e as int], key);
            } else {
                assert(new_r[a] == old_r[a - 1]);
                assert(new_r[b] == old_r[b - 1]);
            }
        }
        i = i + 1;
    }
    proof {
        lemma_newest_first_order(keys, r@);
    }
    r
}

/// The entries after the first `keep`: what rotation removes from a list
/// ordered newest first.
pub open spec fn deleted_part<T>(files: Seq<T>, keep: nat) -> Seq<T> {
    if keep < files.len() {
        files.subrange(keep as int, files.len() as int)
    } else {
        seq![]
    }
}

/// The first `keep` entries (all of them when there are fewer): what
/// rotation leaves in place.
pub open spec fn kept_part<T>(files: Seq<T>, keep: nat) -> Seq<T> {
    if keep < files.len() {
        files.subrange(0, keep as int)
    } else {
        files
    }
}

/// The files to delete from a list ordered newest first: all but the first
/// `keep`. Nothing is deleted when there are at most `keep` files.
pub fn files_to_delete<T>(files: Vec<T>, keep: usize) -> (r: Vec<T>)
    ensures
        r@ == deleted_part(files@, keep as nat),
        r@.len() == (if keep < files@.len() {
            files@.len() - keep
        } else {
            0
        }),
        forall|i: int| 0 <= i < r@.len() ==> #[trigger] r@[i] == files@[keep + i],
{
    let mut files = files;
    if keep < files.len() {
        files.split_off(keep)
    } else {
        Vec::new()
    }
}

/// Rotation keeps the newest backups: after ordering newest first and
/// deleting all but the first `keep`, the kept and the deleted files
/// together are all the files, exactly `min(n, keep)` are kept, and no
/// deleted file is newer than a kept one.
pub proof fn lemma_rotation_keeps_newest(keys: Seq<Option<i128>>, order: Seq<usize>, keep: nat)
    requires
        sorted_newest_first(keys, order),
    ensures
        kept_part(order, keep) + deleted_part(order, keep) == order,
        kept_part(order, keep).len() == (if keys.len() < keep {
            keys.len()
        } else {
            keep
        }),
        deleted_part(order, keep).len() == (if keys.len() > keep {
            keys.len() - keep
        } else {
            0
        }),
        forall|x: int, y: int|
            0 <= x < deleted_part(order, keep).len() && 0 <= y < kept_part(order, keep).len()
                ==> key_le(
                keys[deleted_part(order, keep)[x] as int],
                keys[kept_part(order, keep)[y] as int],
            ),
{
    let kept = kept_part(order, keep);
    let deleted = deleted_part(order, keep);
    assert(kept + deleted =~= order);
    assert forall|x: int, y: int| 0 <= x < deleted.len() && 0 <= y < kept.len() implies key_le(
        keys[deleted[x] as int],
        keys[kept[y] as int],
    ) by {
        assert(deleted[x] == order[keep + x]);
        assert(kept[y] == order[y]);
        lemma_comes_first_key(keys, order[y] as int, order[keep + x] as int);
    }
}

/// The lines printed by the cleanup step for `found` backups when
/// `max_backups` are kept.
pub open spec fn cleanup_lines(found: nat, max_backups: nat) -> Seq<Seq<char>> {
    seq!["Found "@ + decimal_text(found) + " backup files"@] + if found > max_backups {
        seq!["Deleting "@ + decimal_text((found - max_backups) as nat) + " old backup(s)..."@]
    } else {
        seq![
            "No cleanup needed. Have "@ + decimal_text(found) + " backups, keeping "@
                + decimal_text(max_backups),
        ]
    }
}

/// The cleanup report has two lines: the number found, then, when there are
/// more than `max_backups`, the number deleted (the excess), else a line
/// giving both numbers.
pub proof fn lemma_cleanup_lines(found: nat, max_backups: nat)
    ensures
        cleanup_lines(found, max_backups).len() == 2,
        cleanup_lines(found, max_backups)[0] == "Found "@ + decimal_text(found) + " backup files"@,
        found > max_backups ==> cleanup_lines(found, max_backups)[1] == "Deleting "@
            + decimal_text((found - max_backups) as nat) + " old backup(s)..."@,
        found <= max_backups ==> cleanup_lines(found, max_backups)[1] == "No cleanup needed. Have "@
            + decimal_text(found) + " backups, keeping "@ + decimal_text(max_backups),
{
}

/// What the cleanup step reports: how many backups were found, then either
/// how many old ones are deleted or that none need to be.
pub fn cleanup_report(found: usize, max_backups: usize) -> (lines: Vec<String>)
    ensures
        lines.deep_view() == cleanup_lines(found as nat, max_backups as nat),
{
    let mut lines: Vec<String> = Vec::new();
    let mut first = String::from_str("Found ");
    first.append(decimal(found).as_str());
    first.append(" backup files");
    push_line(&mut lines, first);
    if found > max_backups {
        let mut line = String::from_str("Deleting ");
        line.append(decimal(found - max_backups).as_str());
        line.append(" old backup(s)...");
        push_line(&mut lines, line);
    } else {
        let mut line = String::from_str("No cleanup needed. Have ");
        line.append(decimal(found).as_str());
        line.append(" backups, keeping ");
        line.append(decimal(max_backups).as_str());
        push_line(&mut lines, line);
    }
    assert(lines.deep_view() =~= cleanup_lines(found as nat, max_backups as nat));
    lines
}

} // verus!
