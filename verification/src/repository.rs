//! What the repository reports back, and the rules it applies to month
//! files before touching them.
use vstd::prelude::*;

use crate::app::month_text;
use crate::month::calculation::CalculatedMonth;
use crate::month::document::MonthDocument;
use crate::month::id::{month_before, parsed_month, MonthId};
use crate::text::{chars_of, owned, push_str, string_from_range};

verus! {

/// Whether a committed change also reached the remote.
#[derive(Clone, Debug, PartialEq, Eq)]
pub enum SyncOutcome {
    Synced,
    PushFailed(String),
}

/// A month read from disk together with its recomputed values.
#[derive(Clone, Debug)]
pub struct LoadedMonth {
    pub path: String,
    pub document: MonthDocument,
    pub calculated: CalculatedMonth,
}

/// The name has the `toml` extension: it ends in `.toml` after a non-empty
/// stem.
pub open spec fn is_toml_name(name: Seq<char>) -> bool {
    name.len() > 5 && name.skip(name.len() - 5) == ".toml"@
}

/// Whether a file in the months folder is a month file.
pub fn is_toml_file_name(name: &str) -> (r: bool)
    ensures
        r == is_toml_name(name@),
{
    let v = chars_of(name);
    let n = v.len();
    if n <= 5 {
        return false;
    }
    let suffix = chars_of(".toml");
    proof {
        reveal_strlit(".toml");
    }
    let r = v[n - 5] == suffix[0] && v[n - 4] == suffix[1] && v[n - 3] == suffix[2] && v[n - 2]
        == suffix[3] && v[n - 1] == suffix[4];
    proof {
        let tail = v@.skip(n - 5);
        if r {
            assert(tail =~= ".toml"@);
        } else {
            if tail == ".toml"@ {
                assert(tail[0] == v@[n - 5]);
                assert(tail[1] == v@[n - 4]);
                assert(tail[2] == v@[n - 3]);
                assert(tail[3] == v@[n - 2]);
                assert(tail[4] == v@[n - 1]);
            }
        }
    }
    r
}

/// The month a month file is named after: its stem read as `YYYY-MM`.
pub fn month_id_from_file_name(name: &str) -> (r: Option<MonthId>)
    ensures
        match r {
            Some(m) => is_toml_name(name@) && parsed_month(name@.take(name@.len() - 5)) == Some(
                (m.spec_year(), m.spec_month()),
            ),
            None => !is_toml_name(name@) || parsed_month(name@.take(name@.len() - 5)) is None,
        },
{
    if !is_toml_file_name(name) {
        return None;
    }
    let v = chars_of(name);
    let stem = string_from_range(&v, 0, v.len() - 5);
    proof {
        assert(v@.subrange(0, v@.len() - 5) =~= name@.take(name@.len() - 5));
    }
    match MonthId::parse(stem.as_str()) {
        Ok(m) => Some(m),
        Err(_) => None,
    }
}

/// `i` is the latest of `months` before `month`.
pub open spec fn latest_before(months: Seq<MonthId>, month: MonthId, i: int) -> bool {
    &&& 0 <= i < months.len()
    &&& month_before(months[i], month)
    &&& forall|j: int|
        0 <= j < months.len() && month_before(#[trigger] months[j], month) ==> !month_before(
            months[i],
            months[j],
        )
}

/// The months of a list of loaded months.
pub open spec fn months_of(entries: Seq<LoadedMonth>) -> Seq<MonthId> {
    entries.map_values(|e: LoadedMonth| e.document.month)
}

/// The position of the latest loaded month before `month`, whose final
/// balances a new draft carries forward; `None` when every month is later.
pub fn previous_month_index(month: MonthId, months: &Vec<LoadedMonth>) -> (r: Option<usize>)
    ensures
        match r {
            Some(i) => latest_before(months_of(months@), month, i as int),
            None => forall|j: int|
                0 <= j < months@.len() ==> !month_before(#[trigger] months@[j].document.month, month),
        },
{
    let ghost ms = months_of(months@);
    let mut best: Option<usize> = None;
    let mut i: usize = 0;
    while i < months.len()
        invariant
            i <= months@.len(),
            ms == months_of(months@),
            match best {
                Some(b) => b < i && month_before(ms[b as int], month) && forall|j: int|
                    0 <= j < i && month_before(#[trigger] ms[j], month) ==> !month_before(
                        ms[b as int],
                        ms[j],
                    ),
                None => forall|j: int| 0 <= j < i ==> !month_before(#[trigger] ms[j], month),
            },
        decreases months.len() - i,
    {
        let candidate = months[i].document.month;
        assert(ms[i as int] == candidate);
        if candidate.is_before(month) {
            match best {
                None => {
                    best = Some(i);
                },
                Some(b) => {
                    if months[b].document.month.is_before(candidate) {
                        best = Some(i);
                    }
                },
            }
        }
        i += 1;
    }
    proof {
        if let Some(b) = best {
            assert forall|j: int|
                0 <= j < months@.len() && month_before(#[trigger] ms[j], month) implies !month_before(
                ms[b as int],
                ms[j],
            ) by {}
        } else {
            assert forall|j: int| 0 <= j < months@.len() implies !month_before(
                #[trigger] months@[j].document.month,
                month,
            ) by {
                assert(ms[j] == months@[j].document.month);
            }
        }
    }
    best
}

/// Months listed newest first.
pub open spec fn newest_first(months: Seq<MonthId>) -> bool {
    forall|i: int, j: int| 0 <= i < j < months.len() ==> !month_before(months[i], months[j])
}

/// Orders loaded months newest first, keeping every entry.
pub fn sort_newest_first(months: Vec<LoadedMonth>) -> (r: Vec<LoadedMonth>)
    ensures
        newest_first(months_of(r@)),
        r@.to_multiset() == months@.to_multiset(),
{
    broadcast use {vstd::seq_lib::group_to_multiset_ensures, vstd::multiset::group_multiset_axioms};

    let mut sorted: Vec<LoadedMonth> = Vec::new();
    let mut rest = months;
    let ghost initial = rest@;
    proof {
        assert(sorted@.to_multiset() =~= vstd::multiset::Multiset::<LoadedMonth>::empty());
    }
    while rest.len() > 0
        invariant
            newest_first(months_of(sorted@)),
            sorted@.to_multiset().add(rest@.to_multiset()) == initial.to_multiset(),
        decreases rest.len(),
    {
        let ghost before_rest = rest@;
        let item = rest.pop().unwrap();
        proof {
            assert(before_rest =~= rest@.push(item));
        }
        let m = item.document.month;
        let mut k: usize = 0;
        while k < sorted.len() && !sorted[k].document.month.is_before(m)
            invariant
                k <= sorted@.len(),
                forall|j: int| 0 <= j < k ==> !month_before(#[trigger] sorted@[j].document.month, m),
            decreases sorted.len() - k,
        {
            k += 1;
        }
        let ghost old_sorted = sorted@;
        sorted.insert(k, item);
        proof {
            assert(sorted@ =~= old_sorted.insert(k as int, item));
            vstd::seq_lib::to_multiset_insert(old_sorted, k as int, item);
            vstd::seq_lib::to_multiset_build(rest@, item);
            assert(sorted@.to_multiset() =~= old_sorted.to_multiset().insert(item));
            assert(before_rest.to_multiset() =~= rest@.to_multiset().insert(item));
            assert(sorted@.to_multiset().add(rest@.to_multiset()) =~= old_sorted.to_multiset().add(
                before_rest.to_multiset(),
            ));
            let ms = months_of(sorted@);
            let olds = months_of(old_sorted);
            assert forall|i: int, j: int| 0 <= i < j < ms.len() implies !month_before(ms[i], ms[j]) by {
                if i < k && j == k {
                    assert(ms[i] == olds[i]);
                } else if i == k && j > k {
                    assert(ms[j] == olds[j - 1]);
                    if k < olds.len() {
                        assert(month_before(olds[k as int], m));
                        if j - 1 > k {
                            assert(!month_before(olds[k as int], olds[j - 1]));
                        }
                    }
                } else if i < k && j > k {
                    assert(ms[i] == olds[i]);
                    assert(ms[j] == olds[j - 1]);
                } else if j < k {
                    assert(ms[i] == olds[i]);
                    assert(ms[j] == olds[j]);
                } else if i > k {
                    assert(ms[i] == olds[i - 1]);
                    assert(ms[j] == olds[j - 1]);
                }
            }
        }
    }
    proof {
        assert(rest@.to_multiset() =~= vstd::multiset::Multiset::<LoadedMonth>::empty());
    }
    sorted
}

/// The message refusing to create a month whose file exists.
pub fn check_new_month(month: MonthId, exists: bool) -> (r: Result<(), String>)
    ensures
        exists <==> r is Err,
        r matches Err(m) ==> m@ == "month `"@ + month_text(month) + "` already exists"@,
{
    if exists {
        let mut m = owned("month `");
        let key = month.key();
        push_str(&mut m, key.as_str());
        push_str(&mut m, "` already exists");
        Err(m)
    } else {
        Ok(())
    }
}

/// The checks before renaming a month file: the names differ, the source
/// exists and the target does not.
pub fn check_rename(source: MonthId, target: MonthId, source_exists: bool, target_exists: bool) -> (r:
    Result<(), String>)
    ensures
        match r {
            Ok(()) => source != target && source_exists && !target_exists,
            Err(m) => if source == target {
                m@ == "month `"@ + month_text(source) + "` is already named `"@ + month_text(target)
                    + "`"@
            } else if !source_exists {
                m@ == "month `"@ + month_text(source) + "` does not exist"@
            } else {
                target_exists && m@ == "month `"@ + month_text(target) + "` already exists"@
            },
        },
{
    let sk = source.key();
    let tk = target.key();
    if source.same_as(target) {
        let mut m = owned("month `");
        push_str(&mut m, sk.as_str());
        push_str(&mut m, "` is already named `");
        push_str(&mut m, tk.as_str());
        push_str(&mut m, "`");
        return Err(m);
    }
    if !source_exists {
        let mut m = owned("month `");
        push_str(&mut m, sk.as_str());
        push_str(&mut m, "` does not exist");
        return Err(m);
    }
    check_new_month(target, target_exists)
}

/// The check before deleting a month file: it exists.
pub fn check_delete(month: MonthId, exists: bool) -> (r: Result<(), String>)
    ensures
        exists <==> r is Ok,
        r matches Err(m) ==> m@ == "month `"@ + month_text(month) + "` does not exist"@,
{
    if exists {
        Ok(())
    } else {
        let mut m = owned("month `");
        let key = month.key();
        push_str(&mut m, key.as_str());
        push_str(&mut m, "` does not exist");
        Err(m)
    }
}

/// The commit message for saving a month.
pub fn update_message(month: MonthId) -> (r: String)
    ensures
        r@ == "Update budget month "@ + month_text(month),
{
    crate::app::with_month("Update budget month ", month)
}

/// The commit message for renaming a month.
pub fn rename_message(source: MonthId, target: MonthId) -> (r: String)
    ensures
        r@ == "Rename budget month "@ + month_text(source) + " to "@ + month_text(target),
{
    let mut m = crate::app::with_month("Rename budget month ", source);
    push_str(&mut m, " to ");
    let key = target.key();
    push_str(&mut m, key.as_str());
    m
}

/// The commit message for deleting a month.
pub fn delete_message(month: MonthId) -> (r: String)
    ensures
        r@ == "Delete budget month "@ + month_text(month),
{
    crate::app::with_month("Delete budget month ", month)
}

/// What a push after a local commit reports: a failed push still leaves the
/// change committed.
pub fn push_outcome(pushed: Result<(), String>) -> (r: SyncOutcome)
    ensures
        match pushed {
            Ok(()) => r == SyncOutcome::Synced,
            Err(m) => r == SyncOutcome::PushFailed(m),
        },
{
    match pushed {
        Ok(()) => SyncOutcome::Synced,
        Err(m) => SyncOutcome::PushFailed(m),
    }
}

} // verus!
