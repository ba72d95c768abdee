//! Laws of the report.
use vstd::prelude::*;

use crate::plan::PrAnnotation;
use crate::runner::{AnnotateSummary, DownstreamSummary, OnchainSummary, StepSummary};
use crate::state::State;
use crate::summary::{detail_line, detail_lines, row_texts, run_text, status_parts, step_text, table_text};
use crate::text::{decimal, joined, texts};

verus! {

/// The report of a run is the concatenation of the reports of its steps: of each of them, in their order.
pub proof fn law_report_holds_every_step(state: State, verbose: bool, a: Seq<StepSummary>, b: Seq<StepSummary>, summary: StepSummary)
    ensures
        run_text(state@, verbose, Seq::empty()) == Seq::<char>::empty(),
        run_text(state@, verbose, seq![summary]) == step_text(state@, verbose, summary),
        run_text(state@, verbose, a + b) == run_text(state@, verbose, a) + run_text(state@, verbose, b),
    decreases b.len(),
{
    let none = Seq::<StepSummary>::empty();
    assert(seq![summary].drop_last() =~= none);
    assert(run_text(state@, verbose, none) =~= Seq::<char>::empty());
    assert(run_text(state@, verbose, seq![summary]) =~= step_text(state@, verbose, summary));
    if b.len() == 0 {
        assert(a + b =~= a);
        assert(run_text(state@, verbose, a) + run_text(state@, verbose, b) =~= run_text(state@, verbose, a));
    } else {
        assert((a + b).drop_last() =~= a + b.drop_last());
        law_report_holds_every_step(state, verbose, a, b.drop_last(), summary);
        assert(run_text(state@, verbose, a + b) =~= run_text(state@, verbose, a) + run_text(state@, verbose, b));
    }
}

/// How many pairs two lists make: as many as the list with fewer entries has.
pub open spec fn fewer(a: nat, b: nat) -> nat {
    if a < b {
        a
    } else {
        b
    }
}

/// A table in the report, with an empty line before it.
pub open spec fn framed(header: Seq<Seq<char>>, rows: Seq<Seq<Seq<char>>>) -> Seq<char> {
    "\n"@ + table_text(header, rows) + "\n"@
}

/// A version as the report shows it: `v` and the number, or a dash where it is unknown.
pub open spec fn labelled(spec: Option<u64>) -> Seq<char> {
    match spec {
        Some(v) => "v"@ + decimal(v as nat),
        None => "-"@,
    }
}

/// A discovery is reported with the last processed tag, and each new tag in order; the first new one, or the lack
/// of any, is labelled.
pub proof fn law_discovery_table(state: State, verbose: bool, new_tags: Vec<String>)
    ensures
        exists|rows: Seq<Seq<Seq<char>>>|
            #![trigger rows.len()]
            {
                &&& step_text(state@, verbose, StepSummary::Discover { new_tags }) == framed(
                    seq!["Release Discovery"@, ""@],
                    rows,
                )
                &&& rows.len() == if new_tags@.len() == 0 {
                    2
                } else {
                    1 + new_tags@.len()
                }
                &&& rows[0] =~= seq![
                    "Latest known"@,
                    match state.last_processed_tag {
                        Some(tag) => tag@,
                        None => "-"@,
                    },
                ]
                &&& new_tags@.len() == 0 ==> rows[1] =~= seq!["New releases"@, "none"@]
                &&& new_tags@.len() > 0 ==> rows[1] =~= seq!["New releases"@, new_tags@[0]@]
                &&& forall|i: int| 2 <= i < rows.len() ==> #[trigger] rows[i] =~= seq![""@, new_tags@[i - 1]@]
            },
{
    let rows = crate::summary::discover_rows(state@.last_processed_tag, texts(new_tags@));
    if new_tags@.len() > 0 {
        assert(rows[1] =~= seq!["New releases"@, new_tags@[0]@]);
    }
    assert(rows.len() == if new_tags@.len() == 0 {
        2
    } else {
        1 + new_tags@.len()
    });
    assert(step_text(state@, verbose, StepSummary::Discover { new_tags }) == framed(
        seq!["Release Discovery"@, ""@],
        rows,
    ));
}

/// A downstream check is reported with a row for each runtime that was summed up: its name, the spec versions on-chain and of the
/// code, and the number of updates where the two differ.
pub proof fn law_downstream_table(state: State, verbose: bool, runtimes: Vec<DownstreamSummary>)
    ensures
        exists|rows: Seq<Seq<Seq<char>>>|
            #![trigger rows.len()]
            {
                &&& step_text(state@, verbose, StepSummary::Downstream { runtimes }) == framed(
                    seq!["Runtime Discovery"@, "Current"@, "Code Spec"@, "Crate Updates"@],
                    rows,
                )
                &&& rows.len() == fewer(runtimes@.len(), state.runtimes@.len())
                &&& forall|i: int|
                    0 <= i < rows.len() ==> #[trigger] rows[i] =~= seq![
                        state.runtimes@[i].field_name@,
                        labelled(runtimes@[i].current_spec),
                        labelled(state.runtimes@[i].downstream.spec_version),
                        if state.runtimes@[i].downstream.spec_version == runtimes@[i].current_spec {
                            "-"@
                        } else {
                            decimal(runtimes@[i].crate_updates as nat)
                        },
                    ]
            },
{
    let rows = Seq::new(
        crate::summary::shorter(runtimes@.len(), state@.runtimes.len()),
        |i: int| crate::summary::downstream_row(state@.runtimes[i], runtimes@[i]),
    );
    assert(rows.len() == fewer(runtimes@.len(), state.runtimes@.len()));
    assert forall|i: int| 0 <= i < rows.len() implies #[trigger] rows[i] =~= seq![
        state.runtimes@[i].field_name@,
        labelled(runtimes@[i].current_spec),
        labelled(state.runtimes@[i].downstream.spec_version),
        if state.runtimes@[i].downstream.spec_version == runtimes@[i].current_spec {
            "-"@
        } else {
            decimal(runtimes@[i].crate_updates as nat)
        },
    ] by {
        assert(rows[i] == crate::summary::downstream_row(state.runtimes@[i]@, runtimes@[i]));
    }
    assert(step_text(state@, verbose, StepSummary::Downstream { runtimes }) == framed(
        seq!["Runtime Discovery"@, "Current"@, "Code Spec"@, "Crate Updates"@],
        rows,
    ));
}

/// An on-chain check is reported with a row for each runtime that was summed up: its name, the spec versions before and now, and that
/// of the code where it exceeds the latter.
pub proof fn law_onchain_table(state: State, verbose: bool, runtimes: Vec<OnchainSummary>)
    ensures
        exists|rows: Seq<Seq<Seq<char>>>|
            #![trigger rows.len()]
            {
                &&& step_text(state@, verbose, StepSummary::Onchain { runtimes }) == framed(
                    seq!["Onchain Discovery"@, "Previous"@, "Current"@, "Pending"@],
                    rows,
                )
                &&& rows.len() == fewer(runtimes@.len(), state.runtimes@.len())
                &&& forall|i: int|
                    0 <= i < rows.len() ==> #[trigger] rows[i] =~= seq![
                        state.runtimes@[i].field_name@,
                        labelled(runtimes@[i].previous),
                        labelled(Some(runtimes@[i].current)),
                        match state.runtimes@[i].downstream.spec_version {
                            Some(code) => if code > runtimes@[i].current {
                                labelled(Some(code))
                            } else {
                                "-"@
                            },
                            None => "-"@,
                        },
                    ]
            },
{
    let rows = Seq::new(
        crate::summary::shorter(runtimes@.len(), state@.runtimes.len()),
        |i: int| crate::summary::onchain_row(state@.runtimes[i], runtimes@[i]),
    );
    assert(rows.len() == fewer(runtimes@.len(), state.runtimes@.len()));
    assert forall|i: int| 0 <= i < rows.len() implies #[trigger] rows[i] =~= seq![
        state.runtimes@[i].field_name@,
        labelled(runtimes@[i].previous),
        labelled(Some(runtimes@[i].current)),
        match state.runtimes@[i].downstream.spec_version {
            Some(code) => if code > runtimes@[i].current {
                labelled(Some(code))
            } else {
                "-"@
            },
            None => "-"@,
        },
    ] by {
        assert(rows[i] == crate::summary::onchain_row(state.runtimes@[i]@, runtimes@[i]));
    }
    assert(step_text(state@, verbose, StepSummary::Onchain { runtimes }) == framed(
        seq!["Onchain Discovery"@, "Previous"@, "Current"@, "Pending"@],
        rows,
    ));
}

/// An annotation is reported with a row for each runtime that was summed up: its name, the spec version of the code and the number of
/// pull requests. The annotations follow, where there are any; where there are none, a hint does unless they were
/// asked for.
pub proof fn law_annotation_table(state: State, verbose: bool, runtimes: Vec<AnnotateSummary>, details: Vec<PrAnnotation>)
    ensures
        exists|rows: Seq<Seq<Seq<char>>>|
            #![trigger rows.len()]
            {
                &&& step_text(state@, verbose, StepSummary::Annotate { runtimes, details }) == framed(
                    seq!["PRs to Annotate"@, "Version"@, "PRs"@],
                    rows,
                ) + if details@.len() > 0 {
                    "\n"@ + detail_lines(state@.runtimes, details@)
                } else if verbose {
                    Seq::empty()
                } else {
                    "\nRun with --verbose to display all annotation details.\n"@
                }
                &&& rows.len() == fewer(runtimes@.len(), state.runtimes@.len())
                &&& forall|i: int|
                    0 <= i < rows.len() ==> #[trigger] rows[i] =~= seq![
                        state.runtimes@[i].field_name@,
                        labelled(runtimes@[i].version),
                        decimal(runtimes@[i].prs as nat),
                    ]
            },
{
    let rows = Seq::new(
        crate::summary::shorter(runtimes@.len(), state@.runtimes.len()),
        |i: int| crate::summary::annotate_row(state@.runtimes[i], runtimes@[i]),
    );
    assert(rows.len() == fewer(runtimes@.len(), state.runtimes@.len()));
    assert forall|i: int| 0 <= i < rows.len() implies #[trigger] rows[i] =~= seq![
        state.runtimes@[i].field_name@,
        labelled(runtimes@[i].version),
        decimal(runtimes@[i].prs as nat),
    ] by {
        assert(rows[i] == crate::summary::annotate_row(state.runtimes@[i]@, runtimes@[i]));
    }
    assert(step_text(state@, verbose, StepSummary::Annotate { runtimes, details }) == framed(
        seq!["PRs to Annotate"@, "Version"@, "PRs"@],
        rows,
    ) + if details@.len() > 0 {
        "\n"@ + detail_lines(state@.runtimes, details@)
    } else if verbose {
        Seq::empty()
    } else {
        "\nRun with --verbose to display all annotation details.\n"@
    });
}

/// The lists of annotations follow each other: every annotation has its line, in order.
pub proof fn law_every_annotation_has_a_line(state: State, a: Seq<PrAnnotation>, b: Seq<PrAnnotation>, annotation: PrAnnotation)
    ensures
        detail_lines(state@.runtimes, Seq::empty()) == Seq::<char>::empty(),
        detail_lines(state@.runtimes, seq![annotation]) == detail_line(state@.runtimes, annotation@),
        detail_lines(state@.runtimes, a + b) == detail_lines(state@.runtimes, a) + detail_lines(state@.runtimes, b),
    decreases b.len(),
{
    let runtimes = state@.runtimes;
    let none = Seq::<PrAnnotation>::empty();
    assert(seq![annotation].drop_last() =~= none);
    assert(detail_lines(runtimes, none) =~= Seq::<char>::empty());
    assert(detail_lines(runtimes, seq![annotation]) =~= detail_line(runtimes, annotation@));
    if b.len() == 0 {
        assert(a + b =~= a);
        assert(detail_lines(runtimes, a) + detail_lines(runtimes, b) =~= detail_lines(runtimes, a));
    } else {
        assert((a + b).drop_last() =~= a + b.drop_last());
        law_every_annotation_has_a_line(state, a, b.drop_last(), annotation);
        assert(detail_lines(runtimes, a + b) =~= detail_lines(runtimes, a) + detail_lines(runtimes, b));
    }
}

/// The runtimes in which a pull request has a status.
pub open spec fn shown_runtimes(statuses: Seq<Seq<char>>, n: nat) -> Seq<int>
    decreases n,
{
    if n == 0 {
        Seq::empty()
    } else if statuses[n - 1].len() > 0 {
        shown_runtimes(statuses, (n - 1) as nat).push(n - 1)
    } else {
        shown_runtimes(statuses, (n - 1) as nat)
    }
}

proof fn lemma_parts(state: State, statuses: Seq<Seq<char>>, n: nat)
    ensures
        status_parts(state@.runtimes, statuses, n).len() == shown_runtimes(statuses, n).len(),
        forall|i: int|
            0 <= i < shown_runtimes(statuses, n).len() ==> #[trigger] status_parts(state@.runtimes, statuses, n)[i]
                == state@.runtimes[shown_runtimes(statuses, n)[i]].field_name + ": "@ + statuses[shown_runtimes(statuses, n)[i]],
    decreases n,
{
    if n > 0 {
        lemma_parts(state, statuses, (n - 1) as nat);
        let earlier = status_parts(state@.runtimes, statuses, (n - 1) as nat);
        let places = shown_runtimes(statuses, (n - 1) as nat);
        let now = status_parts(state@.runtimes, statuses, n);
        let all = shown_runtimes(statuses, n);
        assert forall|i: int| 0 <= i < all.len() implies #[trigger] now[i] == state@.runtimes[all[i]].field_name + ": "@
            + statuses[all[i]] by {
            if i < places.len() {
                assert(now[i] == earlier[i]);
                assert(all[i] == places[i]);
            }
        }
    }
}

/// The runtimes that are shown are those in which the pull request has a status, each once, in their order.
pub proof fn law_shown_runtimes(statuses: Seq<Seq<char>>, n: nat, k: int)
    ensures
        shown_runtimes(statuses, n).contains(k) <==> 0 <= k < n && statuses[k].len() > 0,
        forall|i: int, j: int|
            0 <= i < j < shown_runtimes(statuses, n).len() ==> #[trigger] shown_runtimes(statuses, n)[i]
                < #[trigger] shown_runtimes(statuses, n)[j],
        forall|i: int| 0 <= i < shown_runtimes(statuses, n).len() ==> 0 <= #[trigger] shown_runtimes(statuses, n)[i] < n,
    decreases n,
{
    if n > 0 {
        law_shown_runtimes(statuses, (n - 1) as nat, k);
        let earlier = shown_runtimes(statuses, (n - 1) as nat);
        let now = shown_runtimes(statuses, n);
        assert forall|i: int| 0 <= i < earlier.len() implies now[i] == earlier[i] by {}
        if earlier.contains(k) {
            assert(now[earlier.index_of(k)] == k);
        }
        if now.len() > earlier.len() {
            assert(now[earlier.len() as int] == n - 1);
        }
        if now.contains(k) && !earlier.contains(k) {
            let i = now.index_of(k);
            if i < earlier.len() {
                assert(earlier[i] == k);
            }
        }
    }
}

/// The line of an annotation: a link to the page of the pull request, labelled with its number, and for each
/// runtime in which it has a status the name of the runtime and that status.
pub proof fn law_annotation_line(state: State, annotation: PrAnnotation)
    ensures
        exists|parts: Seq<Seq<char>>|
            #![trigger parts.len()]
            {
                let number = decimal(annotation.number as nat);
                let places = shown_runtimes(
                    texts(annotation.statuses@),
                    fewer(state.runtimes@.len(), annotation.statuses@.len()),
                );
                let link = "\x1b]8;;"@ + ("https://github.com/paritytech/polkadot-sdk/pull/"@ + number) + "\x1b\\"@ + ("#"@ + number)
                    + "\x1b]8;;\x1b\\"@;
                &&& parts.len() == places.len()
                &&& forall|i: int|
                    0 <= i < parts.len() ==> #[trigger] parts[i] == state.runtimes@[places[i]].field_name@ + ": "@
                        + annotation.statuses@[places[i]]@
                &&& detail_line(state@.runtimes, annotation@) == if parts.len() == 0 {
                    "  "@ + link + "\n"@
                } else {
                    "  "@ + link + " "@ + joined(parts, ", "@) + "\n"@
                }
            },
{
    let statuses = annotation@.statuses;
    let n = fewer(state.runtimes@.len(), annotation.statuses@.len());
    let parts = status_parts(state@.runtimes, statuses, n);
    let places = shown_runtimes(texts(annotation.statuses@), n);
    lemma_parts(state, statuses, n);
    law_shown_runtimes(statuses, n, 0);
    assert(statuses =~= texts(annotation.statuses@));
    assert forall|i: int| 0 <= i < parts.len() implies #[trigger] parts[i] == state.runtimes@[places[i]].field_name@ + ": "@
        + annotation.statuses@[places[i]]@ by {
        assert(0 <= places[i] < n);
    }
}

/// The cells of a table are those of its rows.
pub proof fn law_cells(rows: Seq<Vec<String>>, i: int, j: int)
    requires
        0 <= i < rows.len(),
        0 <= j < rows[i]@.len(),
    ensures
        row_texts(rows).len() == rows.len(),
        row_texts(rows)[i].len() == rows[i]@.len(),
        row_texts(rows)[i][j] == rows[i]@[j]@,
{
}

} // verus!
