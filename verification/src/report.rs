//! The reconciliation of a catalogue with what a player has researched.
//!
//! Every row of the catalogue that was read is counted and classified:
//! an item is complete once the player has researched at least the amount
//! that the catalogue asks for. The report lists the rows that the filter
//! admits, in the order of the catalogue, and sums up all of them, whatever
//! the filter admits.

use crate::catalogue::{catalogue_of, csv_records, load_catalogue, rows_view, RowError};
use crate::numeral::{decimal, decimal_of_i32, decimal_of_usize};
use crate::research_item::{AmountView, ResearchItem, ResearchItemView};
use crate::resolver::{is_item_id, item_name, resolve_name, LookupError};
use crate::text::{
    left_justified,
    push_left_justified,
    push_right_justified,
    right_justified,
    trim,
    trimmed,
};
use std::collections::HashMap;
use vstd::prelude::*;
use vstd::string::StringExecFns;

verus! {

broadcast use vstd::std_specs::hash::group_hash_axioms;

/// Which rows a report lists.
#[derive(Debug, Clone, Copy, PartialEq, Eq)]
pub struct ReportFilter {
    /// List the items that are not fully researched.
    pub show_incomplete: bool,
    /// List the items that are fully researched.
    pub show_complete: bool,
}

impl ReportFilter {
    /// Whether the filter lets a row through, given whether its item is
    /// complete.
    pub open spec fn admits(self, complete: bool) -> bool {
        (complete && self.show_complete) || (!complete && self.show_incomplete)
    }

    /// Decides [`ReportFilter::admits`].
    pub fn shows(&self, complete: bool) -> (yes: bool)
        ensures
            yes == self.admits(complete),
    {
        (complete && self.show_complete) || (!complete && self.show_incomplete)
    }
}

/// One line of a report.
#[derive(Debug, Clone, PartialEq, Eq)]
pub struct ReportLine {
    /// The item's number.
    pub id: i32,
    /// The item's name in the catalogue.
    pub name: String,
    /// The name under which the game knows the item.
    pub item_name: String,
    /// How many copies the player has researched.
    pub owned: i32,
    /// The amount that the catalogue asks for, as it is shown.
    pub required: String,
    /// The catalogue's link for the item.
    pub url: String,
    /// Whether the item is fully researched.
    pub complete: bool,
}

/// The mathematical model of a [`ReportLine`].
pub struct ReportLineView {
    pub id: i32,
    pub name: Seq<char>,
    pub item_name: Seq<char>,
    pub owned: i32,
    pub required: Seq<char>,
    pub url: Seq<char>,
    pub complete: bool,
}

impl View for ReportLine {
    type V = ReportLineView;

    open spec fn view(&self) -> ReportLineView {
        ReportLineView {
            id: self.id,
            name: self.name@,
            item_name: self.item_name@,
            owned: self.owned,
            required: self.required@,
            url: self.url@,
            complete: self.complete,
        }
    }
}

/// The totals of a report.
#[derive(Debug, Clone, Copy, PartialEq, Eq)]
pub struct RunSummary {
    /// How many rows of the catalogue were read.
    pub total: usize,
    /// How many of them are not fully researched.
    pub incomplete: usize,
}

/// How many copies of the item with number `id` the player has researched:
/// the count on record, or none where nothing is on record.
pub open spec fn owned_count(counts: Map<i32, i32>, id: i32) -> i32 {
    if counts.contains_key(id) {
        counts[id]
    } else {
        0
    }
}

/// Whether an item is fully researched.
pub open spec fn is_complete(item: ResearchItemView, counts: Map<i32, i32>) -> bool {
    owned_count(counts, item.id) >= item.amount.threshold()
}

/// The line that a report shows for an item.
pub open spec fn line_of(
    item: ResearchItemView,
    counts: Map<i32, i32>,
    item_name: Seq<char>,
) -> ReportLineView {
    ReportLineView {
        id: item.id,
        name: item.name,
        item_name,
        owned: owned_count(counts, item.id),
        required: item.amount.text(),
        url: item.url,
        complete: is_complete(item, counts),
    }
}

/// Looks up how many copies of an item the player has researched.
pub fn lookup_owned(counts: &HashMap<i32, i32>, id: i32) -> (owned: i32)
    ensures
        owned == owned_count(counts@, id),
{
    match counts.get(&id) {
        Some(count) => *count,
        None => 0,
    }
}

/// Classifies an item against a count: complete once the count reaches the
/// amount's threshold.
pub fn classify(item: &ResearchItem, owned: i32) -> (complete: bool)
    ensures
        complete == (owned >= item@.amount.threshold()),
{
    owned >= item.amount.as_i32()
}

/// The mathematical model of a [`Report`].
pub struct ReportView {
    /// The lines, in the order of the catalogue.
    pub lines: Seq<ReportLineView>,
    /// How many rows were read.
    pub total: nat,
    /// How many of them are not fully researched.
    pub incomplete: nat,
}

impl ReportView {
    /// The report with nothing in it.
    pub open spec fn empty() -> ReportView {
        ReportView { lines: Seq::empty(), total: 0, incomplete: 0 }
    }

    /// The report after one more item: the item is counted, counted as
    /// incomplete if it is, and listed if the filter admits it.
    pub open spec fn with(
        self,
        item: ResearchItemView,
        counts: Map<i32, i32>,
        item_name: Seq<char>,
        filter: ReportFilter,
    ) -> ReportView {
        let complete = is_complete(item, counts);
        ReportView {
            lines: if filter.admits(complete) {
                self.lines.push(line_of(item, counts, item_name))
            } else {
                self.lines
            },
            total: self.total + 1,
            incomplete: if complete {
                self.incomplete
            } else {
                self.incomplete + 1
            },
        }
    }
}

/// The models of a sequence of lines.
pub open spec fn lines_view(lines: Seq<ReportLine>) -> Seq<ReportLineView> {
    Seq::new(lines.len(), |i: int| lines[i]@)
}

/// A report: the lines that the filter admitted, and the totals over all
/// rows that were read.
#[derive(Debug)]
pub struct Report {
    lines: Vec<ReportLine>,
    total: usize,
    incomplete: usize,
}

impl View for Report {
    type V = ReportView;

    closed spec fn view(&self) -> ReportView {
        ReportView {
            lines: lines_view(self.lines@),
            total: self.total as nat,
            incomplete: self.incomplete as nat,
        }
    }
}

impl Report {
    #[verifier::type_invariant]
    spec fn counted(self) -> bool {
        self.incomplete <= self.total
    }

    /// A report with nothing in it.
    pub fn new() -> (report: Report)
        ensures
            report@ == ReportView::empty(),
    {
        let report = Report { lines: Vec::new(), total: 0, incomplete: 0 };
        assert(lines_view(report.lines@) =~= Seq::empty());
        report
    }

    /// The lines of the report, in the order of the catalogue.
    pub fn lines(&self) -> (lines: &Vec<ReportLine>)
        ensures
            lines_view(lines@) == self@.lines,
    {
        &self.lines
    }

    /// The totals of the report.
    pub fn summary(&self) -> (summary: RunSummary)
        ensures
            summary.total == self@.total,
            summary.incomplete == self@.incomplete,
            summary.incomplete <= summary.total,
    {
        proof {
            use_type_invariant(self);
        }
        RunSummary { total: self.total, incomplete: self.incomplete }
    }

    /// The report after one more item of the catalogue, given what the
    /// lookup of the item's name gave. Where the lookup failed, its error
    /// comes back in place of a report. Otherwise the item is counted,
    /// classified against the player's count, and listed if the filter
    /// admits it.
    pub fn record(
        self,
        item: &ResearchItem,
        counts: &HashMap<i32, i32>,
        resolved: Result<String, LookupError>,
        filter: ReportFilter,
    ) -> (outcome: Result<Report, LookupError>)
        requires
            self@.total < usize::MAX,
        ensures
            match resolved {
                Ok(item_name) => outcome matches Ok(report) && report@ == self@.with(
                    item@,
                    counts@,
                    item_name@,
                    filter,
                ),
                Err(e) => outcome matches Err(failure) && failure == e,
            },
    {
        proof {
            use_type_invariant(&self);
        }
        let item_name = match resolved {
            Ok(item_name) => item_name,
            Err(e) => {
                return Err(e);
            },
        };
        let owned = lookup_owned(counts, item.id);
        let complete = classify(item, owned);
        let Report { mut lines, total, incomplete } = self;
        if filter.shows(complete) {
            let line = ReportLine {
                id: item.id,
                name: item.name.clone(),
                item_name,
                owned,
                required: item.amount.to_text(),
                url: item.url.clone(),
                complete,
            };
            lines.push(line);
            assert(lines_view(lines@) =~= self@.lines.push(line_of(item@, counts@, item_name@)));
        }
        Ok(
            Report {
                lines,
                total: total + 1,
                incomplete: if complete {
                    incomplete
                } else {
                    incomplete + 1
                },
            },
        )
    }
}

/// Whether a row leaves the run alone: it gave no item, or an item whose
/// number stands for an item of the game.
pub open spec fn resolves(row: Result<ResearchItemView, RowError>) -> bool {
    row matches Ok(item) ==> is_item_id(item.id as int)
}

/// The first position at or after `from` whose row holds an item that the
/// game does not know, or the number of rows if there is none.
pub open spec fn first_unresolved(rows: Seq<Result<ResearchItemView, RowError>>, from: int) -> int
    decreases rows.len() - from,
{
    if 0 <= from < rows.len() && resolves(rows[from]) {
        first_unresolved(rows, from + 1)
    } else {
        from
    }
}

/// The report on a catalogue all of whose items the game knows: the rows
/// that were read are taken in one after the other, each with the name that
/// the game has for its item; the rows that were not read are passed over.
pub open spec fn report_of(
    rows: Seq<Result<ResearchItemView, RowError>>,
    counts: Map<i32, i32>,
    version: i32,
    filter: ReportFilter,
) -> ReportView
    decreases rows.len(),
{
    if rows.len() == 0 {
        ReportView::empty()
    } else {
        let before = report_of(rows.drop_last(), counts, version, filter);
        match rows.last() {
            Ok(item) => before.with(
                item,
                counts,
                item_name(item.id as int, version as int).unwrap(),
                filter,
            ),
            Err(_) => before,
        }
    }
}

/// Whether the game has a name for the item of every row that was read.
pub open spec fn all_named(rows: Seq<Result<ResearchItemView, RowError>>, version: i32) -> bool {
    forall|at: int|
        0 <= at < rows.len() ==> ((#[trigger] rows[at]) matches Ok(item) ==> item_name(
            item.id as int,
            version as int,
        ) is Some)
}

/// What the reconciliation of a catalogue gives: the error for the first
/// item that the game does not know, if there is one, and the report
/// otherwise.
pub open spec fn reconciled(
    rows: Seq<Result<ResearchItemView, RowError>>,
    counts: Map<i32, i32>,
    version: i32,
    filter: ReportFilter,
) -> Result<ReportView, LookupError> {
    let at = first_unresolved(rows, 0);
    if at < rows.len() {
        Err(LookupError { id: rows[at]->Ok_0.id, version })
    } else {
        Ok(report_of(rows, counts, version, filter))
    }
}

/// Reconciles a catalogue with the counts of what a player has researched.
///
/// Every row that was read is counted, classified and, if the filter admits
/// it, listed under the name that the game has for its item. A row whose
/// item the game does not know ends the run: the error for the first such
/// row comes back and no report.
pub fn reconcile(
    rows: &Vec<Result<ResearchItem, RowError>>,
    counts: &HashMap<i32, i32>,
    version: i32,
    filter: ReportFilter,
) -> (outcome: Result<Report, LookupError>)
    ensures
        match outcome {
            Ok(report) => reconciled(rows_view(rows@), counts@, version, filter) == Ok::<
                ReportView,
                LookupError,
            >(report@),
            Err(e) => reconciled(rows_view(rows@), counts@, version, filter) == Err::<
                ReportView,
                LookupError,
            >(e),
        },
        outcome is Ok ==> all_named(rows_view(rows@), version),
{
    let ghost model = rows_view(rows@);
    let mut report = Report::new();
    let mut i: usize = 0;
    while i < rows.len()
        invariant
            i <= rows.len(),
            model == rows_view(rows@),
            first_unresolved(model, 0) == first_unresolved(model, i as int),
            all_named(model.take(i as int), version),
            report@ == report_of(model.take(i as int), counts@, version, filter),
            report@.total <= i,
        decreases rows.len() - i,
    {
        assert(model.take(i + 1).drop_last() =~= model.take(i as int));
        assert(model.take(i + 1).last() == model[i as int]);
        match &rows[i] {
            Ok(item) => {
                let resolved = resolve_name(item.id, version);
                match report.record(item, counts, resolved, filter) {
                    Ok(next) => {
                        report = next;
                    },
                    Err(e) => {
                        return Err(e);
                    },
                }
            },
            Err(_) => {},
        }
        i += 1;
    }
    assert(model.take(i as int) =~= model);
    Ok(report)
}

/// Loads the catalogue from a table in CSV form and reconciles it with the
/// counts of what a player has researched (see [`load_catalogue`] and
/// [`reconcile`]).
pub fn research_report(
    catalogue: &[u8],
    counts: &HashMap<i32, i32>,
    version: i32,
    filter: ReportFilter,
) -> (outcome: Result<Report, LookupError>)
    ensures
        match outcome {
            Ok(report) => reconciled(
                catalogue_of(csv_records(catalogue@)),
                counts@,
                version,
                filter,
            ) == Ok::<ReportView, LookupError>(report@),
            Err(e) => reconciled(catalogue_of(csv_records(catalogue@)), counts@, version, filter)
                == Err::<ReportView, LookupError>(e),
        },
        outcome is Ok ==> all_named(catalogue_of(csv_records(catalogue@)), version),
{
    let rows = load_catalogue(catalogue);
    reconcile(&rows, counts, version, filter)
}

/// A line as it is printed: the catalogue's name in a field of 47
/// characters; in round brackets the item's number and, in a field of 47,
/// the game's name; the count and the amount, each at the right of a field
/// of 3, with a stroke between them; and the link, without the white space
/// at its ends, in a field of 80.
pub open spec fn rendered_line(line: ReportLineView) -> Seq<char> {
    left_justified(line.name, 47) + " ("@ + decimal(line.id as int) + ", "@ + left_justified(
        line.item_name,
        47,
    ) + ") "@ + right_justified(decimal(line.owned as int), 3) + "/"@ + right_justified(
        line.required,
        3,
    ) + " "@ + left_justified(trimmed(line.url), 80)
}

/// The totals as they are printed.
pub open spec fn rendered_summary(total: nat, incomplete: nat) -> Seq<char> {
    "Total missing: "@ + decimal(incomplete as int) + "/"@ + decimal(total as int)
}

/// A report as it is printed: its lines, then the totals.
pub open spec fn rendered(report: ReportView) -> Seq<Seq<char>> {
    Seq::new(report.lines.len(), |i: int| rendered_line(report.lines[i])).push(
        rendered_summary(report.total, report.incomplete),
    )
}

impl ReportLine {
    /// The line as it is printed.
    pub fn render(&self) -> (text: String)
        ensures
            text@ == rendered_line(self@),
    {
        let mut text = String::new();
        assert(text@ + left_justified(self.name@, 47) =~= left_justified(self.name@, 47));
        push_left_justified(&mut text, self.name.as_str(), 47);
        text.append(" (");
        text.append(decimal_of_i32(self.id).as_str());
        text.append(", ");
        push_left_justified(&mut text, self.item_name.as_str(), 47);
        text.append(") ");
        push_right_justified(&mut text, decimal_of_i32(self.owned).as_str(), 3);
        text.append("/");
        push_right_justified(&mut text, self.required.as_str(), 3);
        text.append(" ");
        push_left_justified(&mut text, trim(self.url.as_str()).as_str(), 80);
        text
    }
}

impl RunSummary {
    /// The totals as they are printed.
    pub fn render(&self) -> (text: String)
        ensures
            text@ == rendered_summary(self.total as nat, self.incomplete as nat),
    {
        let mut text = String::from_str("Total missing: ");
        text.append(decimal_of_usize(self.incomplete).as_str());
        text.append("/");
        text.append(decimal_of_usize(self.total).as_str());
        text
    }
}

impl Report {
    /// The report as it is printed, line by line: its lines, then the
    /// totals.
    pub fn render(&self) -> (text: Vec<String>)
        ensures
            text.deep_view() == rendered(self@),
    {
        let mut text: Vec<String> = Vec::new();
        let mut i: usize = 0;
        while i < self.lines.len()
            invariant
                i <= self.lines.len(),
                text.len() == i,
                forall|k: int| 0 <= k < i ==> (#[trigger] text[k])@ == rendered_line(self.lines[k]@),
            decreases self.lines.len() - i,
        {
            text.push(self.lines[i].render());
            i += 1;
        }
        text.push(self.summary().render());
        assert(text.deep_view() =~= rendered(self@));
        text
    }
}

/// How many rows of a catalogue were read.
pub open spec fn read_count(rows: Seq<Result<ResearchItemView, RowError>>) -> nat
    decreases rows.len(),
{
    if rows.len() == 0 {
        0
    } else {
        read_count(rows.drop_last()) + if rows.last() is Ok {
            1nat
        } else {
            0nat
        }
    }
}

/// How many rows of a catalogue were read and hold an item that is fully
/// researched.
pub open spec fn complete_count(
    rows: Seq<Result<ResearchItemView, RowError>>,
    counts: Map<i32, i32>,
) -> nat
    decreases rows.len(),
{
    if rows.len() == 0 {
        0
    } else {
        complete_count(rows.drop_last(), counts) + match rows.last() {
            Ok(item) => if is_complete(item, counts) {
                1nat
            } else {
                0nat
            },
            Err(_) => 0nat,
        }
    }
}

/// How many of the given lines are of an item that is fully researched.
pub open spec fn complete_lines(lines: Seq<ReportLineView>) -> nat
    decreases lines.len(),
{
    if lines.len() == 0 {
        0
    } else {
        complete_lines(lines.drop_last()) + if lines.last().complete {
            1nat
        } else {
            0nat
        }
    }
}

/// Whether the row at `at` is listed in the report: it was read, and the
/// filter admits its item.
pub open spec fn is_listed(
    rows: Seq<Result<ResearchItemView, RowError>>,
    counts: Map<i32, i32>,
    filter: ReportFilter,
    at: int,
) -> bool {
    &&& 0 <= at < rows.len()
    &&& rows[at] matches Ok(item)
    &&& filter.admits(is_complete(item, counts))
}

/// How many lines the report has for the rows before `at`.
pub open spec fn lines_before(
    rows: Seq<Result<ResearchItemView, RowError>>,
    counts: Map<i32, i32>,
    version: i32,
    filter: ReportFilter,
    at: int,
) -> int {
    report_of(rows.take(at), counts, version, filter).lines.len() as int
}

/// The rows that were read are the complete ones and the incomplete ones:
/// the total of a report is the number of rows that were read, and it is
/// the sum of the number of incomplete items and the number of complete
/// ones.
pub proof fn lemma_total_is_sum(
    rows: Seq<Result<ResearchItemView, RowError>>,
    counts: Map<i32, i32>,
    version: i32,
    filter: ReportFilter,
)
    ensures
        report_of(rows, counts, version, filter).total == read_count(rows),
        report_of(rows, counts, version, filter).total == report_of(
            rows,
            counts,
            version,
            filter,
        ).incomplete + complete_count(rows, counts),
    decreases rows.len(),
{
    if rows.len() > 0 {
        lemma_total_is_sum(rows.drop_last(), counts, version, filter);
    }
}

/// A filter that shows the complete items lists all of them and marks each
/// of them as complete: the report has as many lines of complete items as
/// the catalogue has complete items. With a filter that shows the incomplete
/// items too, every row that was read has its line.
pub proof fn lemma_lines_of_complete_items(
    rows: Seq<Result<ResearchItemView, RowError>>,
    counts: Map<i32, i32>,
    version: i32,
    filter: ReportFilter,
)
    requires
        filter.show_complete,
    ensures
        complete_lines(report_of(rows, counts, version, filter).lines) == complete_count(
            rows,
            counts,
        ),
        filter.show_incomplete ==> report_of(rows, counts, version, filter).lines.len()
            == report_of(rows, counts, version, filter).total,
    decreases rows.len(),
{
    if rows.len() > 0 {
        lemma_lines_of_complete_items(rows.drop_last(), counts, version, filter);
        let before = report_of(rows.drop_last(), counts, version, filter);
        match rows.last() {
            Ok(item) => {
                if filter.admits(is_complete(item, counts)) {
                    let line = line_of(
                        item,
                        counts,
                        item_name(item.id as int, version as int).unwrap(),
                    );
                    assert(before.lines.push(line).drop_last() =~= before.lines);
                }
            },
            Err(_) => {},
        }
    }
}

/// Where no item is incomplete and the filter shows both kinds, the report
/// has as many lines as the catalogue has complete items.
pub proof fn lemma_lines_when_all_complete(
    rows: Seq<Result<ResearchItemView, RowError>>,
    counts: Map<i32, i32>,
    version: i32,
    filter: ReportFilter,
)
    requires
        filter.show_complete,
        filter.show_incomplete,
        report_of(rows, counts, version, filter).incomplete == 0,
    ensures
        report_of(rows, counts, version, filter).lines.len() == complete_count(rows, counts),
{
    lemma_total_is_sum(rows, counts, version, filter);
    lemma_lines_of_complete_items(rows, counts, version, filter);
}

/// The totals do not depend on the filter, and a filter that shows neither
/// kind gives a report without lines.
pub proof fn lemma_filter_keeps_totals(
    rows: Seq<Result<ResearchItemView, RowError>>,
    counts: Map<i32, i32>,
    version: i32,
    filter: ReportFilter,
    other: ReportFilter,
)
    ensures
        report_of(rows, counts, version, filter).total == report_of(
            rows,
            counts,
            version,
            other,
        ).total,
        report_of(rows, counts, version, filter).incomplete == report_of(
            rows,
            counts,
            version,
            other,
        ).incomplete,
        !filter.show_complete && !filter.show_incomplete ==> report_of(
            rows,
            counts,
            version,
            filter,
        ).lines.len() == 0,
    decreases rows.len(),
{
    if rows.len() > 0 {
        lemma_filter_keeps_totals(rows.drop_last(), counts, version, filter, other);
    }
}

/// An item of which the catalogue asks for the amount 0 is complete,
/// whatever the player's count, as no count is negative.
pub proof fn lemma_zero_amount_is_complete(item: ResearchItemView, counts: Map<i32, i32>)
    requires
        item.amount == AmountView::Number(0),
        owned_count(counts, item.id) >= 0,
    ensures
        is_complete(item, counts),
{
}

/// An item for which the catalogue has a remark in place of an amount is
/// complete, whatever the player's count, as no count is negative.
pub proof fn lemma_remark_is_complete(item: ResearchItemView, counts: Map<i32, i32>)
    requires
        item.amount is Other,
        owned_count(counts, item.id) >= 0,
    ensures
        is_complete(item, counts),
{
}

/// The lines for the first rows of a catalogue are the first lines of its
/// report.
pub proof fn lemma_lines_grow(
    rows: Seq<Result<ResearchItemView, RowError>>,
    counts: Map<i32, i32>,
    version: i32,
    filter: ReportFilter,
    at: int,
)
    requires
        0 <= at <= rows.len(),
    ensures
        lines_before(rows, counts, version, filter, at) <= report_of(
            rows,
            counts,
            version,
            filter,
        ).lines.len(),
        report_of(rows, counts, version, filter).lines.take(
            lines_before(rows, counts, version, filter, at),
        ) == report_of(rows.take(at), counts, version, filter).lines,
    decreases rows.len(),
{
    let all = report_of(rows, counts, version, filter).lines;
    let first = report_of(rows.take(at), counts, version, filter).lines;
    if at == rows.len() {
        assert(rows.take(at) =~= rows);
        assert(all.take(all.len() as int) =~= all);
    } else {
        lemma_lines_grow(rows.drop_last(), counts, version, filter, at);
        assert(rows.drop_last().take(at) =~= rows.take(at));
        let before = report_of(rows.drop_last(), counts, version, filter).lines;
        assert(before.take(first.len() as int) == first);
        assert(all.take(first.len() as int) =~= before.take(first.len() as int));
    }
}

/// The report keeps the order of the catalogue: of two rows that are both
/// listed, the line of the earlier one stands before the line of the later
/// one, each at the place that the listed rows before it leave.
pub proof fn lemma_order_is_kept(
    rows: Seq<Result<ResearchItemView, RowError>>,
    counts: Map<i32, i32>,
    version: i32,
    filter: ReportFilter,
    earlier: int,
    later: int,
)
    requires
        is_listed(rows, counts, filter, earlier),
        is_listed(rows, counts, filter, later),
        earlier < later,
    ensures
        0 <= lines_before(rows, counts, version, filter, earlier) < lines_before(
            rows,
            counts,
            version,
            filter,
            later,
        ) < report_of(rows, counts, version, filter).lines.len(),
        report_of(rows, counts, version, filter).lines[lines_before(
            rows,
            counts,
            version,
            filter,
            earlier,
        )] == line_of(
            rows[earlier]->Ok_0,
            counts,
            item_name(rows[earlier]->Ok_0.id as int, version as int).unwrap(),
        ),
        report_of(rows, counts, version, filter).lines[lines_before(
            rows,
            counts,
            version,
            filter,
            later,
        )] == line_of(
            rows[later]->Ok_0,
            counts,
            item_name(rows[later]->Ok_0.id as int, version as int).unwrap(),
        ),
{
    let all = report_of(rows, counts, version, filter).lines;
    lemma_line_of_listed_row(rows, counts, version, filter, earlier);
    lemma_line_of_listed_row(rows, counts, version, filter, later);
    let upto = rows.take(later);
    assert(upto.take(earlier + 1) =~= rows.take(earlier + 1));
    lemma_lines_grow(upto, counts, version, filter, earlier + 1);
    assert(rows.take(earlier + 1).drop_last() =~= rows.take(earlier));
}

/// A row that is listed has its line in the report, at the place that the
/// listed rows before it leave.
pub proof fn lemma_line_of_listed_row(
    rows: Seq<Result<ResearchItemView, RowError>>,
    counts: Map<i32, i32>,
    version: i32,
    filter: ReportFilter,
    at: int,
)
    requires
        is_listed(rows, counts, filter, at),
    ensures
        0 <= lines_before(rows, counts, version, filter, at) < report_of(
            rows,
            counts,
            version,
            filter,
        ).lines.len(),
        report_of(rows, counts, version, filter).lines[lines_before(
            rows,
            counts,
            version,
            filter,
            at,
        )] == line_of(
            rows[at]->Ok_0,
            counts,
            item_name(rows[at]->Ok_0.id as int, version as int).unwrap(),
        ),
{
    let all = report_of(rows, counts, version, filter).lines;
    let first = report_of(rows.take(at), counts, version, filter).lines;
    let next = report_of(rows.take(at + 1), counts, version, filter).lines;
    assert(rows.take(at + 1).drop_last() =~= rows.take(at));
    assert(rows.take(at + 1).last() == rows[at]);
    assert(next.len() == first.len() + 1);
    lemma_lines_grow(rows, counts, version, filter, at + 1);
    assert(all.take(next.len() as int)[first.len() as int] == all[first.len() as int]);
}

/// Every line of the report is the line of a row that is listed: the row
/// that stands after as many listed rows as there are lines before the
/// line.
pub proof fn lemma_line_has_its_row(
    rows: Seq<Result<ResearchItemView, RowError>>,
    counts: Map<i32, i32>,
    version: i32,
    filter: ReportFilter,
    line: int,
) -> (at: int)
    requires
        0 <= line < report_of(rows, counts, version, filter).lines.len(),
    ensures
        is_listed(rows, counts, filter, at),
        lines_before(rows, counts, version, filter, at) == line,
    decreases rows.len(),
{
    let before = report_of(rows.drop_last(), counts, version, filter).lines;
    if line < before.len() {
        let at = lemma_line_has_its_row(rows.drop_last(), counts, version, filter, line);
        assert(rows.take(at) =~= rows.drop_last().take(at));
        at
    } else {
        let at = rows.len() - 1;
        assert(rows.take(at) =~= rows.drop_last());
        at
    }
}

/// The reconciliation fails exactly if some row that was read holds a
/// number that stands for no item of the game, and then with the number of
/// the first such row.
pub proof fn lemma_unknown_item_fails(
    rows: Seq<Result<ResearchItemView, RowError>>,
    counts: Map<i32, i32>,
    version: i32,
    filter: ReportFilter,
)
    ensures
        reconciled(rows, counts, version, filter) is Err <==> exists|at: int|
            0 <= at < rows.len() && !resolves(#[trigger] rows[at]),
        reconciled(rows, counts, version, filter) matches Err(e) ==> {
            let first = first_unresolved(rows, 0);
            &&& 0 <= first < rows.len()
            &&& !resolves(rows[first])
            &&& forall|at: int| 0 <= at < first ==> resolves(#[trigger] rows[at])
            &&& e == LookupError { id: rows[first]->Ok_0.id, version }
        },
{
    lemma_first_unresolved(rows, 0);
}

proof fn lemma_first_unresolved(rows: Seq<Result<ResearchItemView, RowError>>, from: int)
    requires
        0 <= from <= rows.len(),
    ensures
        from <= first_unresolved(rows, from) <= rows.len(),
        forall|at: int| from <= at < first_unresolved(rows, from) ==> resolves(#[trigger] rows[at]),
        first_unresolved(rows, from) < rows.len() ==> !resolves(
            rows[first_unresolved(rows, from)],
        ),
    decreases rows.len() - from,
{
    if from < rows.len() && resolves(rows[from]) {
        lemma_first_unresolved(rows, from + 1);
    }
}

} // verus!
