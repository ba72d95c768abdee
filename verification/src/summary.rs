//! The text that sums up a run: a table for each step, and the annotations where they are listed.
use vstd::prelude::*;

use crate::plan::{AnnotationView, PrAnnotation};
use crate::runner::{AnnotateSummary, DownstreamSummary, OnchainSummary, Runner, StepSummary};
use crate::state::{optional_text, RuntimeView, State, StateView};
use crate::text::{decimal, join, joined, push_decimal, texts};

verus! {

/// What a `comfy_table::Table` with the preset `UTF8_FULL_CONDENSED` shows, given its header and its rows.
pub uninterp spec fn table_text(header: Seq<Seq<char>>, rows: Seq<Seq<Seq<char>>>) -> Seq<char>;

/// The texts of the cells of each row.
pub open spec fn row_texts(rows: Seq<Vec<String>>) -> Seq<Seq<Seq<char>>> {
    rows.map_values(|row: Vec<String>| texts(row@))
}

/// Draws a table: a `comfy_table::Table` with the preset `UTF8_FULL_CONDENSED`, its header set with
/// `set_header` and its rows added with `add_rows`, in its `Display` form. How the cells are laid out and
/// framed is left to the name `table_text`. The table has no content arrangement, so that the width of the
/// terminal has no part in it.
#[verifier::external_body]
fn draw_table(header: &Vec<String>, rows: &Vec<Vec<String>>) -> (text: String)
    ensures
        text@ == table_text(texts(header@), row_texts(rows@)),
{
    let mut table = comfy_table::Table::new();
    table.load_preset(comfy_table::presets::UTF8_FULL_CONDENSED);
    table.set_header(header);
    table.add_rows(rows);
    table.to_string()
}

/// A spec version as it is shown.
pub open spec fn version_label(spec: u64) -> Seq<char> {
    "v"@ + decimal(spec as nat)
}

/// A spec version that may be unknown, as it is shown.
pub open spec fn optional_label(spec: Option<u64>) -> Seq<char> {
    match spec {
        Some(v) => version_label(v),
        None => "-"@,
    }
}

fn label_version(spec: u64) -> (text: String)
    ensures
        text@ == version_label(spec),
{
    let mut text = "v".to_string();
    push_decimal(&mut text, spec);
    text
}

fn label_optional(spec: Option<u64>) -> (text: String)
    ensures
        text@ == optional_label(spec),
{
    match spec {
        Some(v) => label_version(v),
        None => "-".to_string(),
    }
}

fn label_count(n: usize) -> (text: String)
    ensures
        text@ == decimal(n as nat),
{
    let mut text = String::new();
    push_decimal(&mut text, n as u64);
    assert(text@ =~= decimal(n as nat));
    text
}

/// A label that a terminal shows as a link.
pub open spec fn hyperlink(url: Seq<char>, label: Seq<char>) -> Seq<char> {
    "\x1b]8;;"@ + url + "\x1b\\"@ + label + "\x1b]8;;\x1b\\"@
}

/// The page of a pull request.
pub open spec fn pull_url(number: u64) -> Seq<char> {
    "https://github.com/paritytech/polkadot-sdk/pull/"@ + decimal(number as nat)
}

fn link_to_pull(number: u64) -> (text: String)
    ensures
        text@ == hyperlink(pull_url(number), "#"@ + decimal(number as nat)),
{
    let mut text = "\x1b]8;;".to_string();
    text.append("https://github.com/paritytech/polkadot-sdk/pull/");
    push_decimal(&mut text, number);
    text.append("\x1b\\");
    text.append("#");
    push_decimal(&mut text, number);
    text.append("\x1b]8;;\x1b\\");
    assert(text@ =~= hyperlink(pull_url(number), "#"@ + decimal(number as nat)));
    text
}

/// The smaller of two lengths.
pub open spec fn shorter(a: nat, b: nat) -> nat {
    if a <= b {
        a
    } else {
        b
    }
}

/// The rows of the release discovery: the last release that was processed, and the new ones.
pub open spec fn discover_rows(last_processed_tag: Option<Seq<char>>, new_tags: Seq<Seq<char>>) -> Seq<Seq<Seq<char>>> {
    let latest = match last_processed_tag {
        Some(tag) => tag,
        None => "-"@,
    };
    let found = if new_tags.len() == 0 {
        seq![seq!["New releases"@, "none"@]]
    } else {
        Seq::new(
            new_tags.len(),
            |i: int|
                seq![
                    if i == 0 {
                        "New releases"@
                    } else {
                        ""@
                    },
                    new_tags[i],
                ],
        )
    };
    seq![seq!["Latest known"@, latest]] + found
}

/// The row of a runtime in the runtime discovery. The number of updated crates is shown where the spec
/// version in the code is not the one on-chain.
pub open spec fn downstream_row(runtime: RuntimeView, summary: DownstreamSummary) -> Seq<Seq<char>> {
    seq![
        runtime.field_name,
        optional_label(summary.current_spec),
        optional_label(runtime.code_spec),
        if runtime.code_spec != summary.current_spec {
            decimal(summary.crate_updates as nat)
        } else {
            "-"@
        },
    ]
}

/// The row of a runtime in the on-chain discovery. A spec version in the code is pending where it exceeds
/// the one on-chain.
pub open spec fn onchain_row(runtime: RuntimeView, summary: OnchainSummary) -> Seq<Seq<char>> {
    seq![
        runtime.field_name,
        optional_label(summary.previous),
        version_label(summary.current),
        match runtime.code_spec {
            Some(code) if code > summary.current => version_label(code),
            _ => "-"@,
        },
    ]
}

/// The row of a runtime among the annotations.
pub open spec fn annotate_row(runtime: RuntimeView, summary: AnnotateSummary) -> Seq<Seq<char>> {
    seq![runtime.field_name, optional_label(summary.version), decimal(summary.prs as nat)]
}

/// The statuses of a pull request in the first runtimes, each with the runtime's field name; runtimes in
/// which it has none are left out.
pub open spec fn status_parts(runtimes: Seq<RuntimeView>, statuses: Seq<Seq<char>>, n: nat) -> Seq<Seq<char>>
    decreases n,
{
    if n == 0 {
        Seq::empty()
    } else {
        let before = status_parts(runtimes, statuses, (n - 1) as nat);
        if statuses[n - 1].len() > 0 {
            before.push(runtimes[n - 1].field_name + ": "@ + statuses[n - 1])
        } else {
            before
        }
    }
}

/// The line that lists the annotation of a pull request.
pub open spec fn detail_line(runtimes: Seq<RuntimeView>, annotation: AnnotationView) -> Seq<char> {
    let link = hyperlink(pull_url(annotation.number), "#"@ + decimal(annotation.number as nat));
    let parts = status_parts(runtimes, annotation.statuses, shorter(runtimes.len(), annotation.statuses.len()));
    if parts.len() == 0 {
        "  "@ + link + "\n"@
    } else {
        "  "@ + link + " "@ + joined(parts, ", "@) + "\n"@
    }
}

/// The lines that list annotations.
pub open spec fn detail_lines(runtimes: Seq<RuntimeView>, details: Seq<PrAnnotation>) -> Seq<char>
    decreases details.len(),
{
    if details.len() == 0 {
        Seq::empty()
    } else {
        detail_lines(runtimes, details.drop_last()) + detail_line(runtimes, details.last()@)
    }
}

/// A table with an empty line before it.
pub open spec fn table_block(header: Seq<Seq<char>>, rows: Seq<Seq<Seq<char>>>) -> Seq<char> {
    "\n"@ + table_text(header, rows) + "\n"@
}

/// What sums up a step. There is one row for each runtime that is in both the summary and the state. The
/// annotations follow their table; where none are listed because that was not asked for, a hint does.
pub open spec fn step_text(state: StateView, verbose: bool, summary: StepSummary) -> Seq<char> {
    match summary {
        StepSummary::Discover { new_tags } => table_block(
            seq!["Release Discovery"@, ""@],
            discover_rows(state.last_processed_tag, texts(new_tags@)),
        ),
        StepSummary::Downstream { runtimes } => table_block(
            seq!["Runtime Discovery"@, "Current"@, "Code Spec"@, "Crate Updates"@],
            Seq::new(
                shorter(runtimes@.len(), state.runtimes.len()),
                |i: int| downstream_row(state.runtimes[i], runtimes@[i]),
            ),
        ),
        StepSummary::Onchain { runtimes } => table_block(
            seq!["Onchain Discovery"@, "Previous"@, "Current"@, "Pending"@],
            Seq::new(
                shorter(runtimes@.len(), state.runtimes.len()),
                |i: int| onchain_row(state.runtimes[i], runtimes@[i]),
            ),
        ),
        StepSummary::Annotate { runtimes, details } => table_block(
            seq!["PRs to Annotate"@, "Version"@, "PRs"@],
            Seq::new(
                shorter(runtimes@.len(), state.runtimes.len()),
                |i: int| annotate_row(state.runtimes[i], runtimes@[i]),
            ),
        ) + if details@.len() > 0 {
            "\n"@ + detail_lines(state.runtimes, details@)
        } else if !verbose {
            "\nRun with --verbose to display all annotation details.\n"@
        } else {
            Seq::empty()
        },
    }
}

/// What sums up a run: its steps in order.
pub open spec fn run_text(state: StateView, verbose: bool, summaries: Seq<StepSummary>) -> Seq<char>
    decreases summaries.len(),
{
    if summaries.len() == 0 {
        Seq::empty()
    } else {
        run_text(state, verbose, summaries.drop_last()) + step_text(state, verbose, summaries.last())
    }
}

/// A row of two cells.
fn pair(a: String, b: String) -> (row: Vec<String>)
    ensures
        texts(row@) == seq![a@, b@],
{
    let mut row: Vec<String> = Vec::new();
    row.push(a);
    row.push(b);
    assert(texts(row@) =~= seq![a@, b@]);
    row
}

/// A row of three cells.
fn triple(a: String, b: String, c: String) -> (row: Vec<String>)
    ensures
        texts(row@) == seq![a@, b@, c@],
{
    let mut row: Vec<String> = Vec::new();
    row.push(a);
    row.push(b);
    row.push(c);
    assert(texts(row@) =~= seq![a@, b@, c@]);
    row
}

/// A row of four cells.
fn quadruple(a: String, b: String, c: String, d: String) -> (row: Vec<String>)
    ensures
        texts(row@) == seq![a@, b@, c@, d@],
{
    let mut row: Vec<String> = Vec::new();
    row.push(a);
    row.push(b);
    row.push(c);
    row.push(d);
    assert(texts(row@) =~= seq![a@, b@, c@, d@]);
    row
}

/// A table with an empty line before it.
fn block(header: &Vec<String>, rows: &Vec<Vec<String>>) -> (text: String)
    ensures
        text@ == table_block(texts(header@), row_texts(rows@)),
{
    let mut text = "\n".to_string();
    text.append(draw_table(header, rows).as_str());
    text.append("\n");
    text
}

/// A copy of a text.
fn copy(text: &String) -> (copy: String)
    ensures
        copy@ == text@,
{
    text.as_str().to_string()
}

fn discover_text(last_processed_tag: &Option<String>, new_tags: &Vec<String>) -> (text: String)
    ensures
        text@ == table_block(
            seq!["Release Discovery"@, ""@],
            discover_rows(optional_text(*last_processed_tag), texts(new_tags@)),
        ),
{
    let latest = match last_processed_tag {
        Some(tag) => copy(tag),
        None => "-".to_string(),
    };
    let ghost shown = latest@;
    let ghost tags = texts(new_tags@);
    let ghost wanted = discover_rows(optional_text(*last_processed_tag), tags);
    let mut rows: Vec<Vec<String>> = Vec::new();
    rows.push(pair("Latest known".to_string(), latest));
    if new_tags.len() == 0 {
        rows.push(pair("New releases".to_string(), "none".to_string()));
    }
    let mut i: usize = 0;
    while i < new_tags.len()
        invariant
            i <= new_tags.len(),
            tags == texts(new_tags@),
            wanted == discover_rows(optional_text(*last_processed_tag), tags),
            new_tags.len() > 0 ==> rows@.len() == i + 1,
            new_tags.len() == 0 ==> rows@.len() == 2,
            forall|k: int| 0 <= k < rows@.len() ==> texts((#[trigger] rows@[k])@) == wanted[k],
        decreases new_tags.len() - i,
    {
        let label = if i == 0 {
            "New releases".to_string()
        } else {
            "".to_string()
        };
        rows.push(pair(label, copy(&new_tags[i])));
        assert(wanted[i + 1] == seq![label@, tags[i as int]]);
        i += 1;
    }
    assert(row_texts(rows@) =~= wanted);
    block(&pair("Release Discovery".to_string(), "".to_string()), &rows)
}

fn downstream_text(state: &State, summaries: &Vec<DownstreamSummary>) -> (text: String)
    ensures
        text@ == table_block(
            seq!["Runtime Discovery"@, "Current"@, "Code Spec"@, "Crate Updates"@],
            Seq::new(
                shorter(summaries@.len(), state@.runtimes.len()),
                |i: int| downstream_row(state@.runtimes[i], summaries@[i]),
            ),
        ),
{
    let mut rows: Vec<Vec<String>> = Vec::new();
    let mut i: usize = 0;
    while i < summaries.len() && i < state.runtimes.len()
        invariant
            i <= shorter(summaries@.len(), state@.runtimes.len()),
            rows@.len() == i,
            forall|k: int|
                0 <= k < i ==> texts((#[trigger] rows@[k])@) == downstream_row(state@.runtimes[k], summaries@[k]),
        decreases summaries.len() - i,
    {
        let runtime = &state.runtimes[i];
        let current: Option<u64> = summaries[i].current_spec;
        let code: Option<u64> = runtime.downstream.spec_version;
        let same: bool = match (code, current) {
            (Some(a), Some(b)) => a == b,
            (None, None) => true,
            _ => false,
        };
        let updates = if same {
            "-".to_string()
        } else {
            label_count(summaries[i].crate_updates)
        };
        rows.push(quadruple(copy(&runtime.field_name), label_optional(current), label_optional(code), updates));
        i += 1;
    }
    let header = quadruple(
        "Runtime Discovery".to_string(),
        "Current".to_string(),
        "Code Spec".to_string(),
        "Crate Updates".to_string(),
    );
    assert(row_texts(rows@) =~= Seq::new(
        shorter(summaries@.len(), state@.runtimes.len()),
        |i: int| downstream_row(state@.runtimes[i], summaries@[i]),
    ));
    block(&header, &rows)
}

fn onchain_text(state: &State, summaries: &Vec<OnchainSummary>) -> (text: String)
    ensures
        text@ == table_block(
            seq!["Onchain Discovery"@, "Previous"@, "Current"@, "Pending"@],
            Seq::new(
                shorter(summaries@.len(), state@.runtimes.len()),
                |i: int| onchain_row(state@.runtimes[i], summaries@[i]),
            ),
        ),
{
    let mut rows: Vec<Vec<String>> = Vec::new();
    let mut i: usize = 0;
    while i < summaries.len() && i < state.runtimes.len()
        invariant
            i <= shorter(summaries@.len(), state@.runtimes.len()),
            rows@.len() == i,
            forall|k: int|
                0 <= k < i ==> texts((#[trigger] rows@[k])@) == onchain_row(state@.runtimes[k], summaries@[k]),
        decreases summaries.len() - i,
    {
        let runtime = &state.runtimes[i];
        let current: u64 = summaries[i].current;
        let pending = match runtime.downstream.spec_version {
            Some(code) if code > current => label_version(code),
            _ => "-".to_string(),
        };
        rows.push(
            quadruple(
                copy(&runtime.field_name),
                label_optional(summaries[i].previous),
                label_version(current),
                pending,
            ),
        );
        i += 1;
    }
    let header = quadruple(
        "Onchain Discovery".to_string(),
        "Previous".to_string(),
        "Current".to_string(),
        "Pending".to_string(),
    );
    assert(row_texts(rows@) =~= Seq::new(
        shorter(summaries@.len(), state@.runtimes.len()),
        |i: int| onchain_row(state@.runtimes[i], summaries@[i]),
    ));
    block(&header, &rows)
}

fn annotate_text(state: &State, summaries: &Vec<AnnotateSummary>) -> (text: String)
    ensures
        text@ == table_block(
            seq!["PRs to Annotate"@, "Version"@, "PRs"@],
            Seq::new(
                shorter(summaries@.len(), state@.runtimes.len()),
                |i: int| annotate_row(state@.runtimes[i], summaries@[i]),
            ),
        ),
{
    let mut rows: Vec<Vec<String>> = Vec::new();
    let mut i: usize = 0;
    while i < summaries.len() && i < state.runtimes.len()
        invariant
            i <= shorter(summaries@.len(), state@.runtimes.len()),
            rows@.len() == i,
            forall|k: int|
                0 <= k < i ==> texts((#[trigger] rows@[k])@) == annotate_row(state@.runtimes[k], summaries@[k]),
        decreases summaries.len() - i,
    {
        let name = copy(&state.runtimes[i].field_name);
        rows.push(triple(name, label_optional(summaries[i].version), label_count(summaries[i].prs)));
        i += 1;
    }
    let header = triple("PRs to Annotate".to_string(), "Version".to_string(), "PRs".to_string());
    assert(row_texts(rows@) =~= Seq::new(
        shorter(summaries@.len(), state@.runtimes.len()),
        |i: int| annotate_row(state@.runtimes[i], summaries@[i]),
    ));
    block(&header, &rows)
}

fn push_detail(text: &mut String, state: &State, annotation: &PrAnnotation)
    ensures
        final(text)@ == old(text)@ + detail_line(state@.runtimes, annotation@),
{
    let ghost runtimes = state@.runtimes;
    let ghost statuses = annotation@.statuses;
    let mut parts: Vec<String> = Vec::new();
    let mut i: usize = 0;
    assert(texts(parts@) =~= status_parts(runtimes, statuses, 0));
    while i < state.runtimes.len() && i < annotation.statuses.len()
        invariant
            i <= shorter(runtimes.len(), statuses.len()),
            runtimes == state@.runtimes,
            statuses == annotation@.statuses,
            texts(parts@) == status_parts(runtimes, statuses, i as nat),
        decreases state.runtimes.len() - i,
    {
        let status = &annotation.statuses[i];
        if !status.as_str().is_empty() {
            let ghost before = texts(parts@);
            let mut part = copy(&state.runtimes[i].field_name);
            part.append(": ");
            part.append(status.as_str());
            parts.push(part);
            assert(texts(parts@) =~= before.push(part@));
        }
        i += 1;
    }
    text.append("  ");
    text.append(link_to_pull(annotation.number).as_str());
    if parts.len() > 0 {
        text.append(" ");
        text.append(join(&parts, ", ").as_str());
    }
    text.append("\n");
    assert(text@ =~= old(text)@ + detail_line(runtimes, annotation@));
}

fn details_text(state: &State, details: &Vec<PrAnnotation>) -> (text: String)
    ensures
        text@ == detail_lines(state@.runtimes, details@),
{
    let mut text = String::new();
    let mut i: usize = 0;
    while i < details.len()
        invariant
            i <= details.len(),
            text@ == detail_lines(state@.runtimes, details@.take(i as int)),
        decreases details.len() - i,
    {
        push_detail(&mut text, state, &details[i]);
        assert(details@.take(i + 1).drop_last() =~= details@.take(i as int));
        i += 1;
    }
    assert(details@.take(i as int) =~= details@);
    text
}

impl Runner {
    /// Sums up a step.
    fn step_summary(&self, summary: &StepSummary) -> (text: String)
        ensures
            text@ == step_text(self.state@, self.verbose, *summary),
    {
        match summary {
            StepSummary::Discover { new_tags } => discover_text(&self.state.last_processed_tag, new_tags),
            StepSummary::Downstream { runtimes } => downstream_text(&self.state, runtimes),
            StepSummary::Onchain { runtimes } => onchain_text(&self.state, runtimes),
            StepSummary::Annotate { runtimes, details } => {
                let mut text = annotate_text(&self.state, runtimes);
                let ghost table = text@;
                if details.len() > 0 {
                    text.append("\n");
                    text.append(details_text(&self.state, details).as_str());
                    assert(text@ =~= table + ("\n"@ + detail_lines(self.state@.runtimes, details@)));
                } else if !self.verbose {
                    text.append("\nRun with --verbose to display all annotation details.\n");
                } else {
                    assert(text@ =~= table + Seq::<char>::empty());
                }
                text
            },
        }
    }

    /// Sums up a run.
    pub fn print_summary(&self, summaries: &Vec<StepSummary>) -> (text: String)
        ensures
            text@ == run_text(self.state@, self.verbose, summaries@),
    {
        let mut text = String::new();
        let mut i: usize = 0;
        while i < summaries.len()
            invariant
                i <= summaries.len(),
                text@ == run_text(self.state@, self.verbose, summaries@.take(i as int)),
            decreases summaries.len() - i,
        {
            text.append(self.step_summary(&summaries[i]).as_str());
            assert(summaries@.take(i + 1).drop_last() =~= summaries@.take(i as int));
            i += 1;
        }
        assert(summaries@.take(i as int) =~= summaries@);
        text
    }
}

} // verus!
