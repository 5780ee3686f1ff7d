//! The status lines' text: the segments of the explorer's and the diff
//! viewer's status bars, where the key hints go, and the statistics
//! overlay's header.
use vstd::prelude::*;

use crate::state::{DiffCounts, SelectionMode};
use crate::text::{decimal, push_char, push_decimal, push_str};

verus! {

/// What a status-bar segment shows (it decides the segment's colours).
#[derive(Debug, Clone, Copy, PartialEq, Eq, Structural)]
pub enum SegmentKind {
    Selection,
    Plain,
    Marked,
    Frozen,
    Filter,
    Search,
    Message,
    Counts,
}

/// One piece of a status bar.
pub struct Segment {
    pub text: String,
    pub kind: SegmentKind,
}

/// The segments' texts and kinds.
pub open spec fn segments_view(v: Seq<Segment>) -> Seq<(Seq<char>, SegmentKind)> {
    v.map_values(|s: Segment| (s.text@, s.kind))
}

/// What the explorer's status bar reports about the current tab.
pub struct StatusInfo {
    /// Whether the selection mode is shown (normal and input modes).
    pub show_selection: bool,
    pub selection_mode: SelectionMode,
    pub file_name: Option<String>,
    pub selected_row: usize,
    pub total_rows: usize,
    pub marked: usize,
    pub frozen_cols: usize,
    pub filter: Option<String>,
    pub search: Option<String>,
    pub search_pending: bool,
    pub match_index: Option<usize>,
    pub match_count: Option<usize>,
    pub message: Option<String>,
}

/// " ROW " or " COL ".
pub open spec fn selection_text(m: SelectionMode) -> Seq<char> {
    match m {
        SelectionMode::Row => " ROW "@,
        SelectionMode::Column => " COL "@,
    }
}

/// " N/TOTAL " (with `?` while the total is unknown) for the 1-based row.
pub open spec fn position_text(row: nat, total: nat) -> Seq<char> {
    seq![' '] + decimal(row + 1) + seq!['/'] + (if total == 0 { seq!['?'] } else { decimal(total) }) + seq![' ']
}

/// The search segment: the term, and the match position and count as far
/// as they are known.
pub open spec fn search_text(term: Seq<char>, pending: bool, index: Option<usize>, count: Option<usize>) -> Seq<char> {
    " [Search: "@ + term + if pending {
        " (searching...)] "@
    } else {
        match (index, count) {
            (Some(i), Some(t)) => " ("@ + decimal(i as nat) + seq!['/'] + decimal(t as nat) + " matches)] "@,
            (None, Some(t)) => " ("@ + decimal(t as nat) + " matches)] "@,
            _ => "] "@,
        }
    }
}

/// The selection part of the status bar.
pub open spec fn selection_part(i: StatusInfo) -> Seq<(Seq<char>, SegmentKind)> {
    if i.show_selection { seq![(selection_text(i.selection_mode), SegmentKind::Selection)] } else { Seq::empty() }
}

/// The file part of the status bar.
pub open spec fn file_part(i: StatusInfo) -> Seq<(Seq<char>, SegmentKind)> {
    match i.file_name { Some(f) => seq![(seq![' '] + f@ + seq![' '], SegmentKind::Plain)], None => Seq::empty() }
}

/// The marks and freeze parts of the status bar.
pub open spec fn marks_part(i: StatusInfo) -> Seq<(Seq<char>, SegmentKind)> {
    (if i.marked > 0 { seq![(" ["@ + decimal(i.marked as nat) + " marked] "@, SegmentKind::Marked)] } else { Seq::empty() })
        + (if i.frozen_cols > 0 { seq![(" [FREEZE:"@ + decimal(i.frozen_cols as nat) + "] "@, SegmentKind::Frozen)] } else { Seq::empty() })
}

/// The filter part of the status bar.
pub open spec fn filter_part(i: StatusInfo) -> Seq<(Seq<char>, SegmentKind)> {
    match i.filter { Some(f) => seq![(" [Filter: "@ + f@ + "] "@, SegmentKind::Filter)], None => Seq::empty() }
}

/// The search part of the status bar.
pub open spec fn search_part(i: StatusInfo) -> Seq<(Seq<char>, SegmentKind)> {
    match i.search {
        Some(t) => seq![(search_text(t@, i.search_pending, i.match_index, i.match_count), SegmentKind::Search)],
        None => Seq::empty(),
    }
}

/// The message part of the status bar.
pub open spec fn message_part(i: StatusInfo) -> Seq<(Seq<char>, SegmentKind)> {
    match i.message { Some(m) => seq![(" | "@ + m@ + seq![' '], SegmentKind::Message)], None => Seq::empty() }
}

/// The status bar's segments, left to right.
pub open spec fn status_spec(i: StatusInfo) -> Seq<(Seq<char>, SegmentKind)> {
    selection_part(i) + file_part(i)
        + seq![(position_text(i.selected_row as nat, i.total_rows as nat), SegmentKind::Plain)]
        + marks_part(i) + filter_part(i) + search_part(i) + message_part(i)
}

fn seg(v: &mut Vec<Segment>, text: String, kind: SegmentKind)
    ensures
        segments_view(final(v)@) == segments_view(old(v)@).push((text@, kind)),
{
    let ghost before = segments_view(v@);
    v.push(Segment { text, kind });
    assert(segments_view(v@) =~= before.push((text@, kind)));
}

fn push_selection_part(v: &mut Vec<Segment>, i: &StatusInfo)
    ensures
        segments_view(final(v)@) == segments_view(old(v)@) + selection_part(*i),
{
    if i.show_selection {
        let t = match i.selection_mode {
            SelectionMode::Row => " ROW ".to_owned(),
            SelectionMode::Column => " COL ".to_owned(),
        };
        seg(v, t, SegmentKind::Selection);
    } else {
        assert(segments_view(v@) + selection_part(*i) =~= segments_view(v@));
    }
}

fn push_file_part(v: &mut Vec<Segment>, i: &StatusInfo)
    ensures
        segments_view(final(v)@) == segments_view(old(v)@) + file_part(*i),
{
    match &i.file_name {
        Some(f) => {
            let mut t = String::new();
            push_char(&mut t, ' ');
            push_str(&mut t, f.as_str());
            push_char(&mut t, ' ');
            assert(t@ =~= seq![' '] + f@ + seq![' ']);
            seg(v, t, SegmentKind::Plain);
        },
        None => {
            assert(segments_view(v@) + file_part(*i) =~= segments_view(v@));
        },
    }
}

fn push_position_part(v: &mut Vec<Segment>, i: &StatusInfo)
    requires
        i.selected_row < usize::MAX,
    ensures
        segments_view(final(v)@) == segments_view(old(v)@)
            + seq![(position_text(i.selected_row as nat, i.total_rows as nat), SegmentKind::Plain)],
{
    let mut p = String::new();
    push_char(&mut p, ' ');
    push_decimal(&mut p, i.selected_row + 1);
    push_char(&mut p, '/');
    if i.total_rows == 0 {
        push_char(&mut p, '?');
    } else {
        push_decimal(&mut p, i.total_rows);
    }
    push_char(&mut p, ' ');
    assert(p@ =~= position_text(i.selected_row as nat, i.total_rows as nat));
    let ghost before = segments_view(v@);
    seg(v, p, SegmentKind::Plain);
    assert(segments_view(v@) =~= before + seq![(position_text(i.selected_row as nat, i.total_rows as nat), SegmentKind::Plain)]);
}

fn push_marks_part(v: &mut Vec<Segment>, i: &StatusInfo)
    ensures
        segments_view(final(v)@) == segments_view(old(v)@) + marks_part(*i),
{
    let ghost before = segments_view(v@);
    if i.marked > 0 {
        let mut t = String::new();
        push_str(&mut t, " [");
        push_decimal(&mut t, i.marked);
        push_str(&mut t, " marked] ");
        seg(v, t, SegmentKind::Marked);
    }
    let ghost mid = segments_view(v@);
    if i.frozen_cols > 0 {
        let mut t = String::new();
        push_str(&mut t, " [FREEZE:");
        push_decimal(&mut t, i.frozen_cols);
        push_str(&mut t, "] ");
        seg(v, t, SegmentKind::Frozen);
    }
    assert(segments_view(v@) =~= before + marks_part(*i));
}

fn push_filter_part(v: &mut Vec<Segment>, i: &StatusInfo)
    ensures
        segments_view(final(v)@) == segments_view(old(v)@) + filter_part(*i),
{
    match &i.filter {
        Some(f) => {
            let mut t = String::new();
            push_str(&mut t, " [Filter: ");
            push_str(&mut t, f.as_str());
            push_str(&mut t, "] ");
            seg(v, t, SegmentKind::Filter);
        },
        None => {
            assert(segments_view(v@) + filter_part(*i) =~= segments_view(v@));
        },
    }
}

fn push_search_part(v: &mut Vec<Segment>, i: &StatusInfo)
    ensures
        segments_view(final(v)@) == segments_view(old(v)@) + search_part(*i),
{
    match &i.search {
        Some(term) => {
            let mut t = String::new();
            push_str(&mut t, " [Search: ");
            push_str(&mut t, term.as_str());
            if i.search_pending {
                push_str(&mut t, " (searching...)] ");
            } else {
                match (i.match_index, i.match_count) {
                    (Some(ix), Some(total)) => {
                        push_str(&mut t, " (");
                        push_decimal(&mut t, ix);
                        push_char(&mut t, '/');
                        push_decimal(&mut t, total);
                        push_str(&mut t, " matches)] ");
                    },
                    (None, Some(total)) => {
                        push_str(&mut t, " (");
                        push_decimal(&mut t, total);
                        push_str(&mut t, " matches)] ");
                    },
                    _ => {
                        push_str(&mut t, "] ");
                    },
                }
            }
            assert(t@ =~= search_text(term@, i.search_pending, i.match_index, i.match_count));
            seg(v, t, SegmentKind::Search);
        },
        None => {
            assert(segments_view(v@) + search_part(*i) =~= segments_view(v@));
        },
    }
}

fn push_message_part(v: &mut Vec<Segment>, i: &StatusInfo)
    ensures
        segments_view(final(v)@) == segments_view(old(v)@) + message_part(*i),
{
    match &i.message {
        Some(m) => {
            let mut t = String::new();
            push_str(&mut t, " | ");
            push_str(&mut t, m.as_str());
            push_char(&mut t, ' ');
            assert(t@ =~= " | "@ + m@ + seq![' ']);
            seg(v, t, SegmentKind::Message);
        },
        None => {
            assert(segments_view(v@) + message_part(*i) =~= segments_view(v@));
        },
    }
}

/// Build the status bar's segments.
pub fn status_segments(i: &StatusInfo) -> (r: Vec<Segment>)
    requires
        i.selected_row < usize::MAX,
    ensures
        segments_view(r@) == status_spec(*i),
{
    let mut v: Vec<Segment> = Vec::new();
    assert(segments_view(v@) =~= Seq::<(Seq<char>, SegmentKind)>::empty());
    push_selection_part(&mut v, i);
    push_file_part(&mut v, i);
    push_position_part(&mut v, i);
    push_marks_part(&mut v, i);
    push_filter_part(&mut v, i);
    push_search_part(&mut v, i);
    push_message_part(&mut v, i);
    assert(segments_view(v@) =~= status_spec(*i));
    v
}

/// Where right-aligned hints `hints_width` wide start, when they fit after
/// the text that ends at `x` in a bar at `area_x` that is `area_width` wide.
pub open spec fn hints_x_spec(area_x: int, area_width: int, hints_width: int, x: int) -> Option<int> {
    if area_width > hints_width + (x - area_x) + 1 { Some(area_x + area_width - hints_width - 1) } else { None }
}

/// Place right-aligned hints.
pub fn hints_x(area_x: u16, area_width: u16, hints_width: u16, x: u16) -> (r: Option<u16>)
    requires
        area_x <= x,
        hints_width + (x - area_x) + 1 <= u16::MAX,
        area_x + area_width <= u16::MAX,
    ensures
        match hints_x_spec(area_x as int, area_width as int, hints_width as int, x as int) {
            Some(h) => r == Some(h as u16),
            None => r is None,
        },
{
    if area_width > hints_width + (x - area_x) + 1 {
        Some(area_x + area_width - hints_width - 1)
    } else {
        None
    }
}

/// The diff viewer's stages, as its status bar shows them.
#[derive(Debug, Clone, Copy, PartialEq, Eq, Structural)]
pub enum DiffStage {
    PickKey,
    PickCols,
    Loading,
    Viewing,
    Quitting,
}

/// The diff viewer's badge for a stage.
pub open spec fn diff_badge_spec(s: DiffStage) -> Seq<char> {
    match s {
        DiffStage::PickKey => " KEY "@,
        DiffStage::PickCols => " COLS "@,
        _ => " DIFF "@,
    }
}

/// The badge shown for a stage.
pub fn diff_badge(s: DiffStage) -> (r: &'static str)
    ensures
        r@ == diff_badge_spec(s),
{
    match s {
        DiffStage::PickKey => " KEY ",
        DiffStage::PickCols => " COLS ",
        _ => " DIFF ",
    }
}

/// The diff viewer's key hints for a stage.
pub open spec fn diff_hints_spec(s: DiffStage) -> Seq<char> {
    match s {
        DiffStage::PickKey | DiffStage::PickCols => "Space:toggle Enter:confirm Esc:quit"@,
        DiffStage::Loading => "Esc:cancel"@,
        DiffStage::Viewing => "n:next N:prev h/l:col c:changes q:quit"@,
        DiffStage::Quitting => ""@,
    }
}

/// The key hints shown for a stage.
pub fn diff_hints(s: DiffStage) -> (r: &'static str)
    ensures
        r@ == diff_hints_spec(s),
{
    match s {
        DiffStage::PickKey | DiffStage::PickCols => "Space:toggle Enter:confirm Esc:quit",
        DiffStage::Loading => "Esc:cancel",
        DiffStage::Viewing => "n:next N:prev h/l:col c:changes q:quit",
        DiffStage::Quitting => "",
    }
}

/// The diff status bar's segments after the badge: the two files, then
/// (when viewing) the position among the shown rows and the counts, then
/// the message.
pub open spec fn diff_status_spec(stage: DiffStage, file_a: Seq<char>, file_b: Seq<char>, selected_row: nat, visible: nat, c: DiffCounts, message: Option<Seq<char>>) -> Seq<(Seq<char>, SegmentKind)> {
    seq![(seq![' '] + file_a + " vs "@ + file_b + seq![' '], SegmentKind::Plain)]
        + (if stage == DiffStage::Viewing {
            (if visible > 0 {
                seq![(seq![' '] + decimal(selected_row + 1) + seq!['/'] + decimal(visible) + seq![' '], SegmentKind::Plain)]
            } else {
                Seq::empty()
            }) + seq![(seq![' '] + crate::diff_sql::counts_message_spec(c) + seq![' '], SegmentKind::Counts)]
        } else {
            Seq::empty()
        })
        + (match message { Some(m) => seq![(" | "@ + m + seq![' '], SegmentKind::Message)], None => Seq::empty() })
}

/// Build the diff status bar's segments.
pub fn diff_status_segments(stage: DiffStage, file_a: &str, file_b: &str, selected_row: usize, visible: usize, c: &DiffCounts, message: Option<&str>) -> (r: Vec<Segment>)
    requires
        selected_row < usize::MAX,
    ensures
        segments_view(r@) == diff_status_spec(stage, file_a@, file_b@, selected_row as nat, visible as nat, *c,
            crate::query::opt_str(message)),
{
    let mut v: Vec<Segment> = Vec::new();
    let mut f = String::new();
    push_char(&mut f, ' ');
    push_str(&mut f, file_a);
    push_str(&mut f, " vs ");
    push_str(&mut f, file_b);
    push_char(&mut f, ' ');
    assert(f@ =~= seq![' '] + file_a@ + " vs "@ + file_b@ + seq![' ']);
    seg(&mut v, f, SegmentKind::Plain);
    let ghost mut expect = seq![(seq![' '] + file_a@ + " vs "@ + file_b@ + seq![' '], SegmentKind::Plain)];
    assert(segments_view(v@) =~= expect);
    if stage == DiffStage::Viewing {
        if visible > 0 {
            let mut p = String::new();
            push_char(&mut p, ' ');
            push_decimal(&mut p, selected_row + 1);
            push_char(&mut p, '/');
            push_decimal(&mut p, visible);
            push_char(&mut p, ' ');
            assert(p@ =~= seq![' '] + decimal(selected_row as nat + 1) + seq!['/'] + decimal(visible as nat) + seq![' ']);
            seg(&mut v, p, SegmentKind::Plain);
        }
        let mut t = String::new();
        push_char(&mut t, ' ');
        push_str(&mut t, crate::diff_sql::counts_message(c).as_str());
        push_char(&mut t, ' ');
        assert(t@ =~= seq![' '] + crate::diff_sql::counts_message_spec(*c) + seq![' ']);
        seg(&mut v, t, SegmentKind::Counts);
    }
    proof {
        expect = expect + (if stage == DiffStage::Viewing {
            (if visible > 0 {
                seq![(seq![' '] + decimal(selected_row as nat + 1) + seq!['/'] + decimal(visible as nat) + seq![' '], SegmentKind::Plain)]
            } else {
                Seq::empty()
            }) + seq![(seq![' '] + crate::diff_sql::counts_message_spec(*c) + seq![' '], SegmentKind::Counts)]
        } else {
            Seq::empty()
        });
    }
    assert(segments_view(v@) =~= expect);
    match message {
        Some(m) => {
            let mut t = String::new();
            push_str(&mut t, " | ");
            push_str(&mut t, m);
            push_char(&mut t, ' ');
            assert(t@ =~= " | "@ + m@ + seq![' ']);
            seg(&mut v, t, SegmentKind::Message);
        },
        None => {},
    }
    proof { expect = expect + (match crate::query::opt_str(message) { Some(m) => seq![(" | "@ + m + seq![' '], SegmentKind::Message)], None => Seq::empty() }); }
    assert(segments_view(v@) =~= expect);
    v
}

/// The statistics overlay's header: the position among the statistics
/// rows when there are any.
pub open spec fn stats_header_spec(offset: nat, total: Option<usize>) -> Seq<char> {
    match total {
        Some(t) => if t > 0 {
            " Statistics | "@ + decimal(offset + 1) + seq!['/'] + decimal(t as nat) + " | Esc "@
        } else {
            " Statistics | Esc "@
        },
        None => " Statistics | Esc "@,
    }
}

/// Build the statistics overlay's header.
pub fn stats_header(offset: usize, total: Option<usize>) -> (r: String)
    requires
        offset < usize::MAX,
    ensures
        r@ == stats_header_spec(offset as nat, total),
{
    match total {
        Some(t) => if t > 0 {
            let mut s = String::new();
            push_str(&mut s, " Statistics | ");
            push_decimal(&mut s, offset + 1);
            push_char(&mut s, '/');
            push_decimal(&mut s, t);
            push_str(&mut s, " | Esc ");
            assert(s@ =~= stats_header_spec(offset as nat, total));
            s
        } else {
            " Statistics | Esc ".to_owned()
        },
        None => " Statistics | Esc ".to_owned(),
    }
}

} // verus!
