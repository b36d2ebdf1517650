//! What the screens show, as text: focus marks, the values in each sheet
//! row, status words, guided-step lines and how hint lines wrap. The
//! terminal front end only lays these out and colours them.
use vstd::prelude::*;

use crate::config::{AccountKind, AppConfig};
use crate::money::{format_minor_units, money_text, Money};
use crate::month::calculation::CalculatedMonth;
use crate::month::document::MonthDocument;
use crate::month::id::{month_key, month_name, MonthId};
use crate::state::field_catalog::{field_label, field_value, section_of, FieldId, FieldKey, SectionId};
use crate::state::money_input::{shown_text, MoneyInput};
use crate::state::route_state::{
    EditorState, GuidedCreationState, InteractionState, NavigationDialogue, PersistenceState,
    SyncState,
};
use crate::text::{int_text, owned, push_char, push_str, starts_with, str_eq, str_starts_with};

verus! {

/// How a sheet row or cell is focused.
#[derive(Clone, Copy, Debug, PartialEq, Eq, Structural)]
pub enum EditorFocusState {
    Unfocused,
    Selected,
    Editing,
}

/// The focused field is `f`.
pub open spec fn is_selected(s: EditorState, f: FieldKey) -> bool {
    s.focus_index < s.fields@.len() && s.fields@[s.focus_index as int]@ == f
}

/// How field `f` is focused.
pub open spec fn focus_of(s: EditorState, f: FieldKey) -> EditorFocusState {
    if !is_selected(s, f) {
        EditorFocusState::Unfocused
    } else {
        match s.interaction {
            InteractionState::SheetIdle => EditorFocusState::Selected,
            InteractionState::FieldEditing => EditorFocusState::Editing,
        }
    }
}

/// Whether two field identifiers name the same field.
pub fn same_field(a: &FieldId, b: &FieldId) -> (r: bool)
    ensures
        r == (a@ == b@),
{
    match (a, b) {
        (FieldId::Account(x), FieldId::Account(y)) => str_eq(x.as_str(), y.as_str()),
        (FieldId::PreviousMonthSpendingCorrection, FieldId::PreviousMonthSpendingCorrection) => true,
        (FieldId::InvestmentNotYetSent, FieldId::InvestmentNotYetSent) => true,
        (FieldId::Earmark(x), FieldId::Earmark(y)) => str_eq(x.as_str(), y.as_str()),
        (FieldId::PotCarried(x), FieldId::PotCarried(y)) => str_eq(x.as_str(), y.as_str()),
        (FieldId::PotChange(x), FieldId::PotChange(y)) => str_eq(x.as_str(), y.as_str()),
        _ => false,
    }
}

/// The focused field, if the focus points at one.
pub fn selected_field(state: &EditorState) -> (r: Option<&FieldId>)
    ensures
        match r {
            Some(f) => state.focus_index < state.fields@.len() && *f
                == state.fields@[state.focus_index as int],
            None => state.focus_index >= state.fields@.len(),
        },
{
    if state.focus_index < state.fields.len() {
        Some(&state.fields[state.focus_index])
    } else {
        None
    }
}

/// How a field is focused: not at all, selected, or being edited.
pub fn field_focus_state(state: &EditorState, field: &FieldId) -> (r: EditorFocusState)
    ensures
        r == focus_of(*state, field@),
{
    match selected_field(state) {
        None => EditorFocusState::Unfocused,
        Some(selected) => {
            if !same_field(selected, field) {
                EditorFocusState::Unfocused
            } else {
                match state.interaction {
                    InteractionState::SheetIdle => EditorFocusState::Selected,
                    InteractionState::FieldEditing => EditorFocusState::Editing,
                }
            }
        },
    }
}

/// How a section is focused: as its focused field is, if it holds it.
pub fn section_focus_state(state: &EditorState, section: SectionId) -> (r: EditorFocusState)
    ensures
        r == (if state.focus_index < state.fields@.len() && section_of(
            state.fields@[state.focus_index as int]@,
        ) == section {
            focus_of(*state, state.fields@[state.focus_index as int]@)
        } else {
            EditorFocusState::Unfocused
        }),
{
    match selected_field(state) {
        Some(field) => {
            if field.section() == section {
                field_focus_state(state, field)
            } else {
                EditorFocusState::Unfocused
            }
        },
        None => EditorFocusState::Unfocused,
    }
}

/// The stronger of two focus states: editing, then selected.
pub fn combined_focus_state(left: EditorFocusState, right: EditorFocusState) -> (r: EditorFocusState)
    ensures
        r == (if left == EditorFocusState::Editing || right == EditorFocusState::Editing {
            EditorFocusState::Editing
        } else if left == EditorFocusState::Selected || right == EditorFocusState::Selected {
            EditorFocusState::Selected
        } else {
            EditorFocusState::Unfocused
        }),
{
    match (left, right) {
        (EditorFocusState::Editing, _) | (_, EditorFocusState::Editing) => EditorFocusState::Editing,
        (EditorFocusState::Selected, _) | (_, EditorFocusState::Selected) => EditorFocusState::Selected,
        _ => EditorFocusState::Unfocused,
    }
}

/// The mark before a row's label.
pub fn focus_marker(focus: EditorFocusState) -> (r: &'static str)
    ensures
        r@ == (match focus {
            EditorFocusState::Unfocused => "  "@,
            EditorFocusState::Selected => "› "@,
            EditorFocusState::Editing => "✎ "@,
        }),
{
    match focus {
        EditorFocusState::Unfocused => "  ",
        EditorFocusState::Selected => "› ",
        EditorFocusState::Editing => "✎ ",
    }
}

/// A row label with its focus mark.
pub fn marked_label(label: &str, focus: EditorFocusState) -> (r: String)
    ensures
        r@ == (match focus {
            EditorFocusState::Unfocused => "  "@,
            EditorFocusState::Selected => "› "@,
            EditorFocusState::Editing => "✎ "@,
        }) + label@,
{
    let mut s = owned(focus_marker(focus));
    push_str(&mut s, label);
    s
}

/// The text a field's cell shows: the buffer being typed, with a cursor,
/// for the field being edited; its stored value otherwise.
pub open spec fn cell_text(s: EditorState, f: FieldKey, d: MonthDocument) -> Seq<char> {
    if s.interaction == InteractionState::FieldEditing && is_selected(s, f) && s.edit_buffer is Some {
        shown_text(s.edit_buffer->0@) + seq!['_']
    } else {
        money_text(field_value(d, f))
    }
}

/// The cell can be shown: the amounts it may print are not `i64::MIN`.
pub open spec fn cell_printable(s: EditorState, f: FieldKey, d: MonthDocument) -> bool {
    &&& field_value(d, f) != i64::MIN
    &&& (s.edit_buffer matches Some(b) ==> (b@.text is None ==> b@.base_minor != i64::MIN))
}

/// The text of a field's value cell.
pub fn value_for_field(state: &EditorState, field: &FieldId, document: &MonthDocument) -> (r: String)
    requires
        cell_printable(*state, field@, *document),
    ensures
        r@ == cell_text(*state, field@, *document),
{
    let editing = state.interaction == InteractionState::FieldEditing;
    if editing {
        if let Some(selected) = selected_field(state) {
            if same_field(selected, field) {
                if let Some(buffer) = &state.edit_buffer {
                    let mut s = buffer.display_text();
                    push_char(&mut s, '_');
                    return s;
                }
            }
        }
    }
    field.current_value_text(document)
}

/// The word for the local save state.
pub fn persistence_label(state: PersistenceState) -> (r: &'static str)
    ensures
        r@ == (match state {
            PersistenceState::Clean => "clean"@,
            PersistenceState::Dirty => "dirty"@,
            PersistenceState::Autosaving => "autosaving"@,
            PersistenceState::SaveFailed => "failed"@,
        }),
{
    match state {
        PersistenceState::Clean => "clean",
        PersistenceState::Dirty => "dirty",
        PersistenceState::Autosaving => "autosaving",
        PersistenceState::SaveFailed => "failed",
    }
}

/// The word for the remote sync state.
pub fn sync_label(state: SyncState) -> (r: &'static str)
    ensures
        r@ == (match state {
            SyncState::SyncPending => "pending"@,
            SyncState::Syncing => "syncing"@,
            SyncState::Synced => "synced"@,
            SyncState::SyncFailed => "failed"@,
        }),
{
    match state {
        SyncState::SyncPending => "pending",
        SyncState::Syncing => "syncing",
        SyncState::Synced => "synced",
        SyncState::SyncFailed => "failed",
    }
}

/// The state a month is listed in: finalised once it balances.
pub fn month_state_label(is_valid: bool) -> (r: &'static str)
    ensures
        r@ == (if is_valid { "finalised"@ } else { "draft"@ }),
{
    if is_valid {
        "finalised"
    } else {
        "draft"
    }
}

/// The status word of a calculation.
pub fn validity_label(is_valid: bool) -> (r: &'static str)
    ensures
        r@ == (if is_valid { "valid"@ } else { "invalid"@ }),
{
    if is_valid {
        "valid"
    } else {
        "invalid"
    }
}

/// The tolerance wording of a calculation.
pub fn tolerance_label(is_valid: bool) -> (r: &'static str)
    ensures
        r@ == (if is_valid { "within tolerance"@ } else { "outside tolerance"@ }),
{
    if is_valid {
        "within tolerance"
    } else {
        "outside tolerance"
    }
}

/// Save notices of the guided flow, as opposed to validation feedback.
pub open spec fn guided_status(m: Seq<char>) -> bool {
    starts_with(m, "Draft created"@) || starts_with(m, "Draft autosaved"@) || starts_with(
        m,
        "Autosaving draft"@,
    )
}

/// Distinguishes transient guided autosave messages from validation feedback.
pub fn is_guided_status_message(message: &str) -> (r: bool)
    ensures
        r == guided_status(message@),
{
    str_starts_with(message, "Draft created") || str_starts_with(message, "Draft autosaved")
        || str_starts_with(message, "Autosaving draft")
}

/// The message the guided flow shows beside the input: anything but its own
/// save notices.
pub fn guided_notice(message: &Option<String>) -> (r: Option<String>)
    ensures
        match message {
            Some(m) => if guided_status(m@) {
                r is None
            } else {
                r matches Some(x) && x@ == m@
            },
            None => r is None,
        },
{
    match message {
        Some(m) => {
            if is_guided_status_message(m.as_str()) {
                None
            } else {
                Some(m.clone())
            }
        },
        None => None,
    }
}

/// The input line of the guided flow: the buffer's display, with a cursor
/// once something was typed.
pub fn guided_input_text(input: &MoneyInput) -> (r: String)
    requires
        input@.text is None ==> input@.base_minor != i64::MIN,
    ensures
        r@ == shown_text(input@) + (if input@.text is Some { seq!['_'] } else { Seq::<char>::empty() }),
{
    let mut s = input.display_text();
    if input.is_edited() {
        push_char(&mut s, '_');
    }
    s
}

/// The line naming the step after the current one.
pub fn guided_next_step_line(state: &GuidedCreationState, config: &AppConfig) -> (r: String)
    ensures
        r@ == (if state.step_index + 1 < state.steps@.len() {
            "Next: "@ + field_label(*config, state.steps@[state.step_index + 1]@)
        } else {
            "Final step."@
        }),
{
    if state.step_index < state.steps.len() && state.steps.len() - state.step_index > 1 {
        let label = state.steps[state.step_index + 1].label(config);
        let mut s = owned("Next: ");
        push_str(&mut s, label.as_str());
        s
    } else {
        owned("Final step.")
    }
}

/// The next-step line in two parts, the lead-in and what it names, so that
/// the name can be emphasised: `Next: ` and the next step's label, or
/// nothing and `Final step.`.
pub fn guided_next_step_parts(state: &GuidedCreationState, config: &AppConfig) -> (r: (String, String))
    ensures
        r.0@ + r.1@ == (if state.step_index + 1 < state.steps@.len() {
            "Next: "@ + field_label(*config, state.steps@[state.step_index + 1]@)
        } else {
            "Final step."@
        }),
        r.0@ == (if state.step_index + 1 < state.steps@.len() { "Next: "@ } else { ""@ }),
{
    if state.step_index < state.steps.len() && state.steps.len() - state.step_index > 1 {
        let label = state.steps[state.step_index + 1].label(config);
        (owned("Next: "), label)
    } else {
        proof {
            reveal_strlit("");
            assert(""@ + "Final step."@ =~= "Final step."@);
        }
        (owned(""), owned("Final step."))
    }
}

/// The labels of up to `count` steps after the current one.
pub fn guided_upcoming_labels(state: &GuidedCreationState, config: &AppConfig, count: usize) -> (r: Vec<
    String,
>)
    ensures
        ({
            let start = state.step_index + 1;
            let available = if start < state.steps@.len() { state.steps@.len() - start } else { 0 };
            let n = if available < count { available } else { count as int };
            &&& r@.len() == n
            &&& forall|i: int|
                0 <= i < n ==> (#[trigger] r@[i])@ == field_label(*config, state.steps@[start + i]@)
        }),
{
    let mut out: Vec<String> = Vec::new();
    if state.step_index >= state.steps.len() {
        return out;
    }
    let start = state.step_index + 1;
    let mut k: usize = start;
    while k < state.steps.len() && k - start < count
        invariant
            start == state.step_index + 1,
            start <= k <= state.steps@.len(),
            k - start <= count,
            out@.len() == k - start,
            forall|i: int|
                0 <= i < out@.len() ==> (#[trigger] out@[i])@ == field_label(
                    *config,
                    state.steps@[start + i]@,
                ),
        decreases state.steps.len() - k,
    {
        out.push(state.steps[k].label(config));
        k += 1;
    }
    out
}

/// Lines so far, the length of the line being built, and its item count,
/// after wrapping some items.
pub open spec fn wrap_fold(lens: Seq<int>, available: int) -> (Seq<nat>, int, nat)
    decreases lens.len(),
{
    if lens.len() == 0 {
        (Seq::empty(), 0, 0)
    } else {
        let (lines, cur, count) = wrap_fold(lens.drop_last(), available);
        let l = lens.last();
        let (lines1, cur1, count1) = if cur > 0 && cur + 3 + l > available {
            (lines.push(count), 0int, 0nat)
        } else {
            (lines, cur, count)
        };
        (lines1, (if cur1 > 0 { cur1 + 3 } else { cur1 }) + l, count1 + 1)
    }
}

/// How many items each line holds when items of these lengths are laid out
/// left to right, joined by ` | `, a new line starting when the next item
/// would pass `available`.
pub open spec fn wrapped(lens: Seq<int>, available: int) -> Seq<nat> {
    let (lines, cur, count) = wrap_fold(lens, available);
    if cur > 0 {
        lines.push(count)
    } else {
        lines
    }
}

/// The lengths, as integers.
pub open spec fn lens_of(lens: Seq<usize>) -> Seq<int> {
    lens.map_values(|l: usize| l as int)
}

/// Wraps items of the given lengths into lines (see [`wrapped`]).
pub fn wrap_items(available: usize, lens: &Vec<usize>) -> (r: Vec<usize>)
    ensures
        r@.map_values(|n: usize| n as nat) == wrapped(lens_of(lens@), available as int),
{
    let mut lines: Vec<usize> = Vec::new();
    let mut cur: u128 = 0;
    let mut count: usize = 0;
    let mut i: usize = 0;
    while i < lens.len()
        invariant
            i <= lens@.len(),
            count <= i,
            cur <= usize::MAX as int * 2 + 3,
            ({
                let (ls, c, n) = wrap_fold(lens_of(lens@).take(i as int), available as int);
                &&& lines@.map_values(|x: usize| x as nat) == ls
                &&& cur == c
                &&& count == n
            }),
        decreases lens.len() - i,
    {
        proof {
            assert(lens_of(lens@).take(i + 1).drop_last() =~= lens_of(lens@).take(i as int));
            assert(lens_of(lens@).take(i + 1).last() == lens@[i as int] as int);
        }
        let l = lens[i] as u128;
        if cur > 0 && cur + 3 + l > available as u128 {
            let ghost before = lines@;
            lines.push(count);
            proof {
                assert(lines@.map_values(|x: usize| x as nat) =~= before.map_values(
                    |x: usize| x as nat,
                ).push(count as nat));
            }
            cur = 0;
            count = 0;
        }
        if cur > 0 {
            cur = cur + 3;
        }
        cur = cur + l;
        count = count + 1;
        i += 1;
    }
    proof {
        assert(lens_of(lens@).take(i as int) =~= lens_of(lens@));
    }
    if cur > 0 {
        let ghost before = lines@;
        lines.push(count);
        proof {
            assert(lines@.map_values(|x: usize| x as nat) =~= before.map_values(|x: usize| x as nat).push(
                count as nat,
            ));
        }
    }
    lines
}

/// Layout buckets tuned for the supported terminal sizes.
#[derive(Clone, Copy, Debug, PartialEq, Eq, Structural)]
pub enum LayoutProfile {
    Compact,
    Standard,
    Wide,
}

/// The layout for a terminal of the given size.
pub fn layout_for_area(width: u16, height: u16) -> (r: LayoutProfile)
    ensures
        r == (if width >= 160 && height >= 32 {
            LayoutProfile::Wide
        } else if width >= 100 && height >= 32 {
            LayoutProfile::Standard
        } else {
            LayoutProfile::Compact
        }),
{
    if width >= 160 && height >= 32 {
        LayoutProfile::Wide
    } else if width >= 100 && height >= 32 {
        LayoutProfile::Standard
    } else {
        LayoutProfile::Compact
    }
}

/// A month as the screens name it, such as `March 2026`.
pub open spec fn month_label(m: MonthId) -> Seq<char> {
    month_name(m.spec_month()) + " "@ + int_text(m.spec_year())
}

/// The last line of a dialogue: its error, or how to answer it.
pub open spec fn dialogue_footer(error: Option<String>) -> Seq<char> {
    match error {
        Some(e) => e@,
        None => "Enter confirms. Esc cancels."@,
    }
}

/// The lines a month-list dialogue shows: what it does, what to type, the
/// text typed so far and its footer.
pub open spec fn dialogue_text(d: NavigationDialogue) -> Seq<Seq<char>> {
    match d {
        NavigationDialogue::Create(c) => seq![
            "Create month"@,
            ""@,
            "Enter YYYY-MM"@,
            c.input@,
            ""@,
            dialogue_footer(c.error),
        ],
        NavigationDialogue::Rename(r) => seq![
            "Rename "@ + month_label(r.source),
            ""@,
            "Enter the new month id (YYYY-MM)"@,
            r.input@,
            ""@,
            dialogue_footer(r.error),
        ],
        NavigationDialogue::Delete(x) => seq![
            "Delete "@ + month_label(x.month) + "?"@,
            ""@,
            "Type "@ + month_key(x.month.spec_year(), x.month.spec_month()) + " to confirm deletion."@,
            x.confirmation@,
            ""@,
            dialogue_footer(x.error),
        ],
    }
}

/// The footer of a dialogue.
fn footer_line(error: &Option<String>) -> (r: String)
    ensures
        r@ == dialogue_footer(*error),
{
    match error {
        Some(e) => e.clone(),
        None => owned("Enter confirms. Esc cancels."),
    }
}

/// The lines of a month-list dialogue (see [`dialogue_text`]).
pub fn dialogue_lines(dialogue: &NavigationDialogue) -> (r: Vec<String>)
    ensures
        r@.len() == 6,
        forall|i: int| 0 <= i < 6 ==> (#[trigger] r@[i])@ == dialogue_text(*dialogue)[i],
{
    let r = match dialogue {
        NavigationDialogue::Create(c) => vec![
            owned("Create month"),
            owned(""),
            owned("Enter YYYY-MM"),
            c.input.clone(),
            owned(""),
            footer_line(&c.error),
        ],
        NavigationDialogue::Rename(d) => {
            let mut first = owned("Rename ");
            let label = d.source.display_label();
            push_str(&mut first, label.as_str());
            vec![
                first,
                owned(""),
                owned("Enter the new month id (YYYY-MM)"),
                d.input.clone(),
                owned(""),
                footer_line(&d.error),
            ]
        },
        NavigationDialogue::Delete(d) => {
            let mut first = owned("Delete ");
            let label = d.month.display_label();
            push_str(&mut first, label.as_str());
            push_str(&mut first, "?");
            let mut third = owned("Type ");
            let key = d.month.key();
            push_str(&mut third, key.as_str());
            push_str(&mut third, " to confirm deletion.");
            vec![first, owned(""), third, d.confirmation.clone(), owned(""), footer_line(&d.error)]
        },
    };
    r
}

/// Whether the month list uses its compact layout.
pub fn navigation_is_compact(width: u16, height: u16) -> (r: bool)
    ensures
        r == (width < 110 || height < 28),
{
    width < 110 || height < 28
}

/// The table height a section needs: its rows plus header and borders, at
/// least six lines.
pub fn section_height(row_count: usize, compact_title: bool) -> (r: u16)
    requires
        row_count + 4 <= u16::MAX,
    ensures
        r == (if row_count + (if compact_title { 3int } else { 4int }) < 6 {
            6int
        } else {
            row_count + (if compact_title { 3int } else { 4int })
        }),
{
    let base: u16 = (row_count as u16) + if compact_title {
        3
    } else {
        4
    };
    if base < 6 {
        6
    } else {
        base
    }
}

/// The hints the month list shows: refreshing is left out when compact.
pub fn navigation_hints(compact: bool) -> (r: Vec<&'static str>)
    ensures
        compact ==> r@.len() == 5,
        !compact ==> r@.len() == 6,
        r@[0]@ == "Enter open"@,
        r@[1]@ == "n new"@,
        r@[2]@ == "m rename"@,
        r@[3]@ == "d delete"@,
        compact ==> r@[4]@ == "q quit"@,
        !compact ==> r@[4]@ == "r refresh"@ && r@[5]@ == "q quit"@,
{
    if compact {
        vec!["Enter open", "n new", "m rename", "d delete", "q quit"]
    } else {
        vec!["Enter open", "n new", "m rename", "d delete", "r refresh", "q quit"]
    }
}

/// The amounts of a calculation can be printed: none is `i64::MIN`.
pub open spec fn printable(c: CalculatedMonth) -> bool {
    &&& c.totals.accounts_subtotal@ != i64::MIN
    &&& c.totals.timing_adjustments_subtotal@ != i64::MIN
    &&& c.totals.next_month_earmarks_subtotal@ != i64::MIN
    &&& c.totals.pots_final_total@ != i64::MIN
    &&& c.totals.pots_carried_total@ != i64::MIN
    &&& c.totals.pots_monthly_change_total@ != i64::MIN
    &&& c.totals.total_allocated@ != i64::MIN
    &&& c.validation.overall_difference@ != i64::MIN
}

/// One metric of a summary: its label and its value.
#[derive(Clone, Debug, PartialEq, Eq)]
pub struct Metric {
    pub label: String,
    pub value: String,
}

/// A metric with a formatted amount.
fn money_metric(label: &str, value: Money) -> (r: Metric)
    requires
        value@ != i64::MIN,
    ensures
        r.label@ == label@,
        r.value@ == money_text(value@),
{
    Metric { label: owned(label), value: value.format() }
}

/// The metrics of the compact month summary, in order: the section
/// subtotals, the allocation, the difference and the status.
pub fn summary_metrics(calculated: &CalculatedMonth) -> (r: Vec<Metric>)
    requires
        printable(*calculated),
    ensures
        r@.len() == 7,
        r@[0].label@ == "Accounts"@ && r@[0].value@ == money_text(calculated.totals.accounts_subtotal@),
        r@[1].label@ == "Timing Adjustments"@ && r@[1].value@ == money_text(
            calculated.totals.timing_adjustments_subtotal@,
        ),
        r@[2].label@ == "Next Month Earmarks"@ && r@[2].value@ == money_text(
            calculated.totals.next_month_earmarks_subtotal@,
        ),
        r@[3].label@ == "Savings Pots"@ && r@[3].value@ == money_text(
            calculated.totals.pots_final_total@,
        ),
        r@[4].label@ == "Total allocated"@ && r@[4].value@ == money_text(
            calculated.totals.total_allocated@,
        ),
        r@[5].label@ == "Overall difference"@ && r@[5].value@ == money_text(
            calculated.validation.overall_difference@,
        ),
        r@[6].label@ == "Status"@ && r@[6].value@ == (if calculated.validation.is_valid {
            "valid"@
        } else {
            "invalid"@
        }),
{
    let totals = &calculated.totals;
    vec![
        money_metric("Accounts", totals.accounts_subtotal),
        money_metric("Timing Adjustments", totals.timing_adjustments_subtotal),
        money_metric("Next Month Earmarks", totals.next_month_earmarks_subtotal),
        money_metric("Savings Pots", totals.pots_final_total),
        money_metric("Total allocated", totals.total_allocated),
        money_metric("Overall difference", calculated.validation.overall_difference),
        Metric { label: owned("Status"), value: owned(validity_label(calculated.validation.is_valid)) },
    ]
}

/// The subtitle of a sheet section: its subtotal.
pub fn subtotal_text(amount: Money) -> (r: String)
    requires
        amount@ != i64::MIN,
    ensures
        r@ == "Subtotal "@ + money_text(amount@),
{
    let mut s = owned("Subtotal ");
    let text = amount.format();
    push_str(&mut s, text.as_str());
    s
}

/// The sign cue of an account kind.
pub fn kind_cue(kind: AccountKind) -> (r: &'static str)
    ensures
        r@ == (match kind {
            AccountKind::Asset => "+"@,
            AccountKind::Liability => "-"@,
        }),
{
    match kind {
        AccountKind::Asset => "+",
        AccountKind::Liability => "-",
    }
}

} // verus!
