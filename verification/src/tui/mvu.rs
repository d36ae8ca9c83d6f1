//! The state machine of the dashboard: a model, actions, and the
//! transition from one model to the next.

use crate::tui::app::ChartType;
use crate::tui::event::{Key, KeyPress};
use vstd::prelude::*;

verus! {

/// What the user can ask of the dashboard.
#[derive(Debug, Clone, Copy, PartialEq, Eq, Structural)]
pub enum Action {
    /// Close the dashboard.
    Quit,
    /// Show the next chart.
    NextChart,
    /// Show the previous chart.
    PrevChart,
    /// Scroll towards older periods.
    ScrollUp,
    /// Scroll towards newer periods.
    ScrollDown,
    /// Switch between one chart and all charts.
    ToggleMode,
    /// Nothing but the passing of time.
    Tick,
}

/// The state of the view.
#[derive(Debug, Clone, Copy, PartialEq, Eq, Structural)]
pub struct Model {
    /// The chart shown in single mode.
    pub chart_type: ChartType,
    /// Whether the dashboard is to close.
    pub should_quit: bool,
    /// Whether one chart is shown instead of all.
    pub single_metric: bool,
    /// How far the view is scrolled towards older periods.
    pub scroll_offset: usize,
    /// Number of periods on show; given anew for each transition.
    pub data_len: usize,
}

impl Model {
    /// Whether the view can be scrolled: in split mode, and in single mode
    /// on the chart of additions and deletions.
    pub open spec fn can_scroll(self) -> bool {
        !self.single_metric || self.chart_type == ChartType::AddDel
    }

    /// The largest offset: the oldest period is then in view.
    pub open spec fn max_offset(self) -> int {
        if self.data_len > 0 {
            self.data_len - 1
        } else {
            0
        }
    }

    /// One period towards the past, but not beyond the oldest; nothing
    /// where there is no period.
    pub open spec fn scrolled_up(self) -> Model {
        if self.data_len > 0 {
            Model {
                scroll_offset: if self.scroll_offset + 1 <= self.max_offset() {
                    (self.scroll_offset + 1) as usize
                } else {
                    self.max_offset() as usize
                },
                ..self
            }
        } else {
            self
        }
    }

    /// One period towards the present, but not beyond the latest.
    pub open spec fn scrolled_down(self) -> Model {
        Model {
            scroll_offset: if self.scroll_offset > 0 {
                (self.scroll_offset - 1) as usize
            } else {
                0
            },
            ..self
        }
    }

    /// The first state: the first chart, not scrolled, not closing.
    pub fn new(single_metric: bool, data_len: usize) -> (r: Model)
        ensures
            r.chart_type == ChartType::Commits,
            !r.should_quit,
            r.single_metric == single_metric,
            r.scroll_offset == 0,
            r.data_len == data_len,
    {
        Model {
            chart_type: ChartType::Commits,
            should_quit: false,
            single_metric,
            scroll_offset: 0,
            data_len,
        }
    }

    /// Whether the view can be scrolled.
    pub fn scrollable(&self) -> (r: bool)
        ensures
            r == self.can_scroll(),
            r == !(self.single_metric && self.chart_type != ChartType::AddDel),
    {
        if self.single_metric {
            match self.chart_type {
                ChartType::AddDel => true,
                _ => false,
            }
        } else {
            true
        }
    }

    /// One period towards the past (see [`Model::scrolled_up`]).
    pub fn scroll_up(self) -> (r: Model)
        ensures
            r == self.scrolled_up(),
    {
        if self.data_len > 0 {
            let max_offset = self.data_len - 1;
            let offset = if self.scroll_offset < max_offset {
                self.scroll_offset + 1
            } else {
                max_offset
            };
            Model { scroll_offset: offset, ..self }
        } else {
            self
        }
    }

    /// One period towards the present (see [`Model::scrolled_down`]).
    pub fn scroll_down(self) -> (r: Model)
        ensures
            r == self.scrolled_down(),
    {
        let offset = if self.scroll_offset > 0 {
            self.scroll_offset - 1
        } else {
            0
        };
        Model { scroll_offset: offset, ..self }
    }
}

/// The state after an action.
///
/// `Quit` asks the dashboard to close. `NextChart` and `PrevChart` move
/// along the cycle of charts in single mode and do nothing in split mode.
/// `ToggleMode` switches the mode and scrolls back to the latest period.
/// `ScrollUp` and `ScrollDown` scroll where the view can be scrolled.
/// `Tick` changes nothing.
pub open spec fn step(model: Model, action: Action) -> Model {
    match action {
        Action::Quit => Model { should_quit: true, ..model },
        Action::NextChart => if model.single_metric {
            Model { chart_type: model.chart_type.spec_next(), ..model }
        } else {
            model
        },
        Action::PrevChart => if model.single_metric {
            Model { chart_type: model.chart_type.spec_prev(), ..model }
        } else {
            model
        },
        Action::ToggleMode => Model {
            single_metric: !model.single_metric,
            scroll_offset: 0,
            ..model
        },
        Action::ScrollUp => if model.can_scroll() {
            model.scrolled_up()
        } else {
            model
        },
        Action::ScrollDown => if model.can_scroll() {
            model.scrolled_down()
        } else {
            model
        },
        Action::Tick => model,
    }
}

/// The state after a sequence of actions, taken one after the other.
pub open spec fn run(model: Model, actions: Seq<Action>) -> Model
    decreases actions.len(),
{
    if actions.len() == 0 {
        model
    } else {
        step(run(model, actions.drop_last()), actions.last())
    }
}

/// The state after an action (see [`step`]).
pub fn update(model: Model, action: Action) -> (r: Model)
    ensures
        r == step(model, action),
{
    match action {
        Action::Quit => Model { should_quit: true, ..model },
        Action::NextChart => {
            if model.single_metric {
                Model { chart_type: model.chart_type.next(), ..model }
            } else {
                model
            }
        },
        Action::PrevChart => {
            if model.single_metric {
                Model { chart_type: model.chart_type.prev(), ..model }
            } else {
                model
            }
        },
        Action::ToggleMode => Model {
            single_metric: !model.single_metric,
            scroll_offset: 0,
            ..model
        },
        Action::ScrollUp => {
            if model.scrollable() {
                model.scroll_up()
            } else {
                model
            }
        },
        Action::ScrollDown => {
            if model.scrollable() {
                model.scroll_down()
            } else {
                model
            }
        },
        Action::Tick => model,
    }
}

/// The action of a key, if it has one.
///
/// `q` and escape quit, and so does `c` with control. Tab, the right arrow
/// and `l` ask for the next chart; shift-tab, the left arrow and `h` for
/// the previous one. The up arrow and `k` scroll up, the down arrow and `j`
/// scroll down. `m` switches the mode.
pub open spec fn spec_key_action(press: KeyPress) -> Option<Action> {
    match press.key {
        Key::Esc => Some(Action::Quit),
        Key::Tab | Key::Right => Some(Action::NextChart),
        Key::BackTab | Key::Left => Some(Action::PrevChart),
        Key::Up => Some(Action::ScrollUp),
        Key::Down => Some(Action::ScrollDown),
        Key::Other => None,
        Key::Char(c) => if c == 'q' {
            Some(Action::Quit)
        } else if c == 'c' {
            if press.control {
                Some(Action::Quit)
            } else {
                None
            }
        } else if c == 'l' {
            Some(Action::NextChart)
        } else if c == 'h' {
            Some(Action::PrevChart)
        } else if c == 'k' {
            Some(Action::ScrollUp)
        } else if c == 'j' {
            Some(Action::ScrollDown)
        } else if c == 'm' {
            Some(Action::ToggleMode)
        } else {
            None
        },
    }
}

/// The action of a key, if it has one (see [`spec_key_action`]).
pub fn key_action(press: KeyPress) -> (r: Option<Action>)
    ensures
        r == spec_key_action(press),
{
    match press.key {
        Key::Esc => Some(Action::Quit),
        Key::Tab | Key::Right => Some(Action::NextChart),
        Key::BackTab | Key::Left => Some(Action::PrevChart),
        Key::Up => Some(Action::ScrollUp),
        Key::Down => Some(Action::ScrollDown),
        Key::Other => None,
        Key::Char(c) => {
            if c == 'q' {
                Some(Action::Quit)
            } else if c == 'c' {
                if press.control {
                    Some(Action::Quit)
                } else {
                    None
                }
            } else if c == 'l' {
                Some(Action::NextChart)
            } else if c == 'h' {
                Some(Action::PrevChart)
            } else if c == 'k' {
                Some(Action::ScrollUp)
            } else if c == 'j' {
                Some(Action::ScrollDown)
            } else if c == 'm' {
                Some(Action::ToggleMode)
            } else {
                None
            }
        },
    }
}

/// The view cannot be scrolled exactly on a single chart other than the
/// chart of additions and deletions.
pub proof fn lemma_can_scroll(model: Model)
    ensures
        !model.can_scroll() <==> (model.single_metric && model.chart_type != ChartType::AddDel),
{
}

/// Switching the mode always scrolls back to the latest period, and leaves
/// the chart and the wish to close as they are.
pub proof fn lemma_toggle_resets_scroll(model: Model)
    ensures
        step(model, Action::ToggleMode).scroll_offset == 0,
        step(model, Action::ToggleMode).single_metric == !model.single_metric,
        step(model, Action::ToggleMode).chart_type == model.chart_type,
        step(model, Action::ToggleMode).should_quit == model.should_quit,
        step(step(model, Action::ToggleMode), Action::ToggleMode).single_metric
            == model.single_metric,
{
}

/// A tick changes nothing.
pub proof fn lemma_tick_is_identity(model: Model)
    ensures
        step(model, Action::Tick) == model,
{
}

/// Once the dashboard is to close, it stays so, and only `Quit` brings
/// that about.
pub proof fn lemma_quit(model: Model, action: Action)
    ensures
        step(model, Action::Quit).should_quit,
        model.should_quit ==> step(model, action).should_quit,
        action != Action::Quit ==> step(model, action).should_quit == model.should_quit,
{
}

/// `NextChart` and `PrevChart` undo each other, and change nothing but the
/// chart, and that in single mode only.
pub proof fn lemma_chart_actions(model: Model)
    ensures
        step(step(model, Action::NextChart), Action::PrevChart) == model,
        step(step(model, Action::PrevChart), Action::NextChart) == model,
        !model.single_metric ==> step(model, Action::NextChart) == model && step(
            model,
            Action::PrevChart,
        ) == model,
{
}

/// `n` times the same action.
pub open spec fn repeated(action: Action, n: nat) -> Seq<Action> {
    Seq::new(n, |i: int| action)
}

/// In single mode `n` times `NextChart` move the chart `n` steps forward
/// and `n` times `PrevChart` move it `n` steps back; nothing else changes.
pub proof fn lemma_chart_steps(model: Model, n: nat)
    requires
        model.single_metric,
    ensures
        run(model, repeated(Action::NextChart, n)) == (Model {
            chart_type: model.chart_type.forward(n),
            ..model
        }),
        run(model, repeated(Action::PrevChart, n)) == (Model {
            chart_type: model.chart_type.backward(n),
            ..model
        }),
    decreases n,
{
    if n > 0 {
        lemma_chart_steps(model, (n - 1) as nat);
        assert(repeated(Action::NextChart, n).drop_last() =~= repeated(
            Action::NextChart,
            (n - 1) as nat,
        ));
        assert(repeated(Action::PrevChart, n).drop_last() =~= repeated(
            Action::PrevChart,
            (n - 1) as nat,
        ));
    }
}

/// Five times `NextChart`, or five times `PrevChart`, lead back to the
/// state they started from.
pub proof fn lemma_five_charts(model: Model)
    ensures
        run(model, repeated(Action::NextChart, 5)) == model,
        run(model, repeated(Action::PrevChart, 5)) == model,
{
    if model.single_metric {
        lemma_chart_steps(model, 5);
        model.chart_type.lemma_cycle_of_five();
    } else {
        lemma_idle(model, Action::NextChart, 5);
        lemma_idle(model, Action::PrevChart, 5);
    }
}

/// An action that changes nothing changes nothing however often it is
/// taken.
pub proof fn lemma_idle(model: Model, action: Action, n: nat)
    requires
        step(model, action) == model,
    ensures
        run(model, repeated(action, n)) == model,
    decreases n,
{
    if n > 0 {
        lemma_idle(model, action, (n - 1) as nat);
        assert(repeated(action, n).drop_last() =~= repeated(action, (n - 1) as nat));
    }
}

/// Where the view can be scrolled, `n` times `ScrollUp` add `n` to the
/// offset, up to the largest offset, and `n` times `ScrollDown` take `n`
/// off it, down to 0. Nothing else changes.
pub proof fn lemma_scroll_steps(model: Model, n: nat)
    requires
        model.can_scroll(),
        model.data_len > 0,
        model.scroll_offset <= model.max_offset(),
    ensures
        run(model, repeated(Action::ScrollUp, n)) == (Model {
            scroll_offset: if model.scroll_offset + n <= model.max_offset() {
                (model.scroll_offset + n) as usize
            } else {
                model.max_offset() as usize
            },
            ..model
        }),
        run(model, repeated(Action::ScrollDown, n)) == (Model {
            scroll_offset: if model.scroll_offset >= n {
                (model.scroll_offset - n) as usize
            } else {
                0
            },
            ..model
        }),
    decreases n,
{
    if n > 0 {
        lemma_scroll_steps(model, (n - 1) as nat);
        assert(repeated(Action::ScrollUp, n).drop_last() =~= repeated(
            Action::ScrollUp,
            (n - 1) as nat,
        ));
        assert(repeated(Action::ScrollDown, n).drop_last() =~= repeated(
            Action::ScrollDown,
            (n - 1) as nat,
        ));
    }
}

/// No action leads the offset beyond the largest offset if it was not
/// beyond it before.
pub proof fn lemma_offset_stays_in_bounds(model: Model, action: Action)
    requires
        model.scroll_offset <= model.max_offset(),
    ensures
        step(model, action).scroll_offset <= step(model, action).max_offset(),
        step(model, action).data_len == model.data_len,
{
}

} // verus!
