//! The explorer's modes, their status-bar badges and key hints.
use vstd::prelude::*;

use crate::text::{push_char, push_str};

verus! {

#[derive(Debug, Clone, Copy, PartialEq, Eq, Structural)]
pub enum InputVariant {
    Search,
    Filter,
    GoToRow,
}

#[derive(Debug, Clone, Copy, PartialEq, Eq, Structural)]
pub enum OverlayVariant {
    Stats,
    Help,
    ColumnPicker,
    ColumnJump,
}

#[derive(Debug, Clone, Copy, PartialEq, Eq, Structural)]
pub enum AppMode {
    Normal,
    Input(InputVariant),
    Sql,
    Overlay(OverlayVariant),
    Quitting,
}

/// The badge text of each mode.
pub open spec fn badge_spec(m: AppMode) -> Seq<char> {
    match m {
        AppMode::Normal => " NORMAL "@,
        AppMode::Input(InputVariant::Search) => " SEARCH "@,
        AppMode::Input(InputVariant::Filter) => " FILTER "@,
        AppMode::Input(InputVariant::GoToRow) => " GOTO "@,
        AppMode::Sql => " SQL "@,
        AppMode::Overlay(OverlayVariant::Stats) => " STATS "@,
        AppMode::Overlay(OverlayVariant::Help) => " HELP "@,
        AppMode::Overlay(OverlayVariant::ColumnPicker) => " COLS "@,
        AppMode::Overlay(OverlayVariant::ColumnJump) => " JUMP "@,
        AppMode::Quitting => " QUIT "@,
    }
}

/// The (key, action) hints of each mode.
pub open spec fn hints_spec(m: AppMode) -> Seq<(Seq<char>, Seq<char>)> {
    match m {
        AppMode::Normal => seq![
            ("?"@, "help"@),
            ("q"@, "quit"@),
            ("/"@, "search"@),
            ("f"@, "filter"@),
            ("s"@, "sort"@),
            (":"@, "goto"@),
            ("r"@, "reset"@),
            ("Tab"@, "col mode"@),
        ],
        AppMode::Input(InputVariant::Search) => seq![("Enter"@, "apply"@), ("Esc"@, "cancel"@)],
        AppMode::Input(InputVariant::Filter) => seq![
            ("Enter"@, "apply"@),
            ("Esc"@, "cancel"@),
            ("$col"@, "autocomplete"@),
            ("Tab"@, "complete"@),
        ],
        AppMode::Input(InputVariant::GoToRow) => seq![("Enter"@, "go"@), ("Esc"@, "cancel"@)],
        AppMode::Sql => seq![("F5/Ctrl-e"@, "execute"@), ("Ctrl-t"@, "pin tab"@), ("Esc"@, "cancel"@)],
        AppMode::Overlay(OverlayVariant::Stats) => seq![("j/k"@, "scroll"@), ("g/G"@, "top/bottom"@), ("Esc"@, "close"@)],
        AppMode::Overlay(OverlayVariant::Help) => seq![("Esc"@, "close"@)],
        AppMode::Overlay(OverlayVariant::ColumnPicker) => seq![
            ("Space"@, "toggle"@),
            ("Enter"@, "confirm"@),
            ("Esc"@, "cancel"@),
        ],
        AppMode::Overlay(OverlayVariant::ColumnJump) => seq![("Enter"@, "jump"@), ("Esc"@, "cancel"@)],
        AppMode::Quitting => Seq::empty(),
    }
}

/// `key:action` pairs joined with single spaces.
pub open spec fn join_hints(h: Seq<(Seq<char>, Seq<char>)>) -> Seq<char>
    decreases h.len(),
{
    if h.len() == 0 {
        Seq::empty()
    } else if h.len() == 1 {
        h[0].0 + seq![':'] + h[0].1
    } else {
        join_hints(h.drop_last()) + seq![' '] + h.last().0 + seq![':'] + h.last().1
    }
}

/// The views of a list of string-slice pairs.
pub open spec fn pair_views(v: Seq<(&'static str, &'static str)>) -> Seq<(Seq<char>, Seq<char>)> {
    v.map_values(|p: (&'static str, &'static str)| (p.0@, p.1@))
}

impl AppMode {
    pub fn badge(&self) -> (r: &'static str)
        ensures
            r@ == badge_spec(*self),
    {
        match self {
            AppMode::Normal => " NORMAL ",
            AppMode::Input(InputVariant::Search) => " SEARCH ",
            AppMode::Input(InputVariant::Filter) => " FILTER ",
            AppMode::Input(InputVariant::GoToRow) => " GOTO ",
            AppMode::Sql => " SQL ",
            AppMode::Overlay(OverlayVariant::Stats) => " STATS ",
            AppMode::Overlay(OverlayVariant::Help) => " HELP ",
            AppMode::Overlay(OverlayVariant::ColumnPicker) => " COLS ",
            AppMode::Overlay(OverlayVariant::ColumnJump) => " JUMP ",
            AppMode::Quitting => " QUIT ",
        }
    }

    /// The key hints shown on the right of the status bar, as (key, action) pairs.
    pub fn hints(&self) -> (r: Vec<(&'static str, &'static str)>)
        ensures
            pair_views(r@) == hints_spec(*self),
    {
        let r = match self {
            AppMode::Normal => vec![
                ("?", "help"),
                ("q", "quit"),
                ("/", "search"),
                ("f", "filter"),
                ("s", "sort"),
                (":", "goto"),
                ("r", "reset"),
                ("Tab", "col mode"),
            ],
            AppMode::Input(InputVariant::Search) => vec![("Enter", "apply"), ("Esc", "cancel")],
            AppMode::Input(InputVariant::Filter) => vec![
                ("Enter", "apply"),
                ("Esc", "cancel"),
                ("$col", "autocomplete"),
                ("Tab", "complete"),
            ],
            AppMode::Input(InputVariant::GoToRow) => vec![("Enter", "go"), ("Esc", "cancel")],
            AppMode::Sql => vec![("F5/Ctrl-e", "execute"), ("Ctrl-t", "pin tab"), ("Esc", "cancel")],
            AppMode::Overlay(OverlayVariant::Stats) => vec![("j/k", "scroll"), ("g/G", "top/bottom"), ("Esc", "close")],
            AppMode::Overlay(OverlayVariant::Help) => vec![("Esc", "close")],
            AppMode::Overlay(OverlayVariant::ColumnPicker) => vec![
                ("Space", "toggle"),
                ("Enter", "confirm"),
                ("Esc", "cancel"),
            ],
            AppMode::Overlay(OverlayVariant::ColumnJump) => vec![("Enter", "jump"), ("Esc", "cancel")],
            AppMode::Quitting => Vec::new(),
        };
        assert(pair_views(r@) =~= hints_spec(*self));
        r
    }

    /// The hints as one line: `key:action` pairs separated by spaces.
    pub fn hints_string(&self) -> (r: String)
        ensures
            r@ == join_hints(hints_spec(*self)),
    {
        let h = self.hints();
        let ghost hv = pair_views(h@);
        let mut out = String::new();
        let mut i: usize = 0;
        while i < h.len()
            invariant
                hv == pair_views(h@),
                i <= h@.len(),
                out@ == join_hints(hv.take(i as int)),
            decreases h.len() - i,
        {
            if i > 0 {
                push_char(&mut out, ' ');
            }
            let (k, v) = h[i];
            push_str(&mut out, k);
            push_char(&mut out, ':');
            push_str(&mut out, v);
            proof {
                let t = hv.take(i + 1);
                assert(t.drop_last() =~= hv.take(i as int));
                assert(t.last() == hv[i as int]);
                if i == 0 {
                    assert(out@ =~= join_hints(t));
                } else {
                    assert(out@ =~= join_hints(t));
                }
            }
            i += 1;
        }
        assert(hv.take(h@.len() as int) =~= hv);
        out
    }

    pub fn is_input(&self) -> (r: bool)
        ensures
            r == (*self is Input),
    {
        matches!(self, AppMode::Input(_))
    }

    pub fn is_overlay(&self) -> (r: bool)
        ensures
            r == (*self is Overlay),
    {
        matches!(self, AppMode::Overlay(_))
    }
}

} // verus!
