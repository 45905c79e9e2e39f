//! What a probe found, and what a run prints of it.

use vstd::prelude::*;
use vstd::string::*;

verus! {

/// The outcome of probing one target.
#[derive(Debug, PartialEq, Eq)]
pub struct ProbeResult {
    /// The address that was probed.
    pub target: String,
    /// Whether the target answered.
    pub reachable: bool,
}

/// What a [`ProbeResult`] holds, as characters.
pub struct ProbeResultView {
    pub target: Seq<char>,
    pub reachable: bool,
}

impl View for ProbeResult {
    type V = ProbeResultView;

    open spec fn view(&self) -> ProbeResultView {
        ProbeResultView { target: self.target@, reachable: self.reachable }
    }
}

impl DeepView for ProbeResult {
    type V = ProbeResultView;

    open spec fn deep_view(&self) -> ProbeResultView {
        self@
    }
}

/// The line that reports `target` as reachable.
pub open spec fn activo(target: Seq<char>) -> Seq<char> {
    target + ": Activo"@
}

/// The positions of the reachable results, in ascending order.
pub open spec fn reachable_at(results: Seq<ProbeResultView>) -> Seq<int>
    decreases results.len(),
{
    if results.len() == 0 {
        Seq::<int>::empty()
    } else if results.last().reachable {
        reachable_at(results.drop_last()).push(results.len() - 1)
    } else {
        reachable_at(results.drop_last())
    }
}

/// The lines of a run: one for each reachable result, in probe order.
pub open spec fn report_lines(results: Seq<ProbeResultView>) -> Seq<Seq<char>>
    decreases results.len(),
{
    if results.len() == 0 {
        Seq::<Seq<char>>::empty()
    } else if results.last().reachable {
        report_lines(results.drop_last()).push(activo(results.last().target))
    } else {
        report_lines(results.drop_last())
    }
}

/// The lines of a run are those of the reachable targets and of no other,
/// each once and in the order of the probes: line `k` is that of the result
/// at position `reachable_at(results)[k]`, and [`reachable_at`] lists
/// positions of reachable results in strictly ascending order and misses
/// none.
pub proof fn lemma_report_follows_probes(results: Seq<ProbeResultView>)
    ensures
        report_lines(results).len() == reachable_at(results).len(),
        report_lines(results).len() <= results.len(),
        forall|k: int|
            0 <= k < reachable_at(results).len() ==> 0 <= #[trigger] reachable_at(results)[k]
                < results.len() && results[reachable_at(results)[k]].reachable && report_lines(
                results,
            )[k] == results[reachable_at(results)[k]].target + ": Activo"@,
        forall|j: int, k: int|
            0 <= j < k < reachable_at(results).len() ==> reachable_at(results)[j] < reachable_at(
                results,
            )[k],
        forall|i: int|
            0 <= i < results.len() && results[i].reachable ==> reachable_at(results).contains(i),
    decreases results.len(),
{
    if results.len() > 0 {
        let before = results.drop_last();
        lemma_report_follows_probes(before);
        let at = reachable_at(results);
        assert forall|i: int| 0 <= i < results.len() && results[i].reachable implies at.contains(
            i,
        ) by {
            if i < before.len() {
                assert(reachable_at(before).contains(i));
                let k = choose|k: int|
                    0 <= k < reachable_at(before).len() && reachable_at(before)[k] == i;
                assert(at[k] == i);
            } else {
                assert(at[at.len() - 1] == i);
            }
        }
    }
}

impl ProbeResult {
    /// The outcome of a probe of `target` that ended with `exit_code`: the
    /// target is reachable where the code is 0, and with any other code it
    /// is not.
    pub fn new(target: String, exit_code: i32) -> (r: ProbeResult)
        ensures
            r.target == target,
            r.reachable == (exit_code == 0),
    {
        ProbeResult { target, reachable: exit_code == 0 }
    }

    /// The line to print for this result: `<target>: Activo` for a
    /// reachable target, none for any other.
    pub fn line(&self) -> (r: Option<String>)
        ensures
            r is Some <==> self.reachable,
            r matches Some(line) ==> line@ == activo(self.target@),
    {
        if self.reachable {
            Some(self.target.clone().concat(": Activo"))
        } else {
            None
        }
    }
}

/// The lines of a run: one for each reachable result, in probe order.
pub fn report(results: &Vec<ProbeResult>) -> (lines: Vec<String>)
    ensures
        lines.deep_view() == report_lines(results.deep_view()),
{
    let mut lines: Vec<String> = Vec::new();
    let mut i: usize = 0;
    while i < results.len()
        invariant
            i <= results.len(),
            lines.deep_view() == report_lines(results.deep_view().take(i as int)),
        decreases results.len() - i,
    {
        let ghost all = results.deep_view();
        assert(all.take(i + 1).drop_last() == all.take(i as int));
        if let Some(line) = results[i].line() {
            lines.push(line);
        }
        i += 1;
    }
    assert(results.deep_view().take(results.len() as int) == results.deep_view());
    lines
}

} // verus!
