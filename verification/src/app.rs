//! The application around one form: keys are routed to actions or to the
//! focused input, due events are handled on each tick, and every render
//! lays the screen out and plans its paint.

use crate::event::{Action, AppEvent, AppEventView};
use crate::event_emitter::{due_events, not_due, EventEmitter};
use crate::form_controller::{
    edited, change_of, focus_moved, message_cleared, submitted, with_event, with_status_of,
    FormController, FormModel,
};
use crate::form_step::FormStep;
use crate::input::{KeyEvent, KeyResult};
use crate::input_manager::{default_bindings, InputManager, KeyBinding};
use crate::layout::{laid_out_cursor, laid_out_lines, Layout};
use crate::render_context::RenderContext;
use crate::renderer::{paint_ops, Renderer, TermOp};
use crate::theme::{alarm_view, bold_view, dim_view, Theme};
use crate::view_state::{ErrorDisplay, ViewState};
use vstd::prelude::*;

verus! {

/// How long an error message is displayed, in milliseconds.
pub const ERROR_TIMEOUT: u64 = 2000;

/// Whether an action is one that the form acts on.
pub open spec fn is_form_action(action: Action) -> bool {
    action == Action::Exit || action == Action::Submit || action == Action::NextInput || action
        == Action::PrevInput || action == Action::DeleteWord || action
        == Action::DeleteWordForward
}

/// The action of the form that a key press asks for; a key that is not
/// bound to one goes to the focused input.
pub open spec fn routed(bindings: Map<KeyBinding, Action>, key: KeyEvent) -> Option<Action> {
    let binding = KeyBinding { code: key.code, modifiers: key.modifiers };
    if bindings.dom().contains(binding) && is_form_action(bindings[binding]) {
        Some(bindings[binding])
    } else {
        None
    }
}

/// The model after the events that came due are handled in order: an event
/// that clears the error message of an input ends the display of the
/// message, and every event is emitted.
pub open spec fn events_handled(m: FormModel, events: Seq<AppEventView>) -> FormModel
    decreases events.len(),
{
    if events.len() == 0 {
        m
    } else {
        let before = events_handled(m, events.drop_last());
        let handled = match events.last() {
            AppEventView::ClearErrorMessage { id } => message_cleared(before, id),
            _ => before,
        };
        with_event(handled, events.last())
    }
}

/// The application.
#[derive(Debug)]
pub struct App {
    pub form: FormController,
    pub renderer: Renderer,
    pub input_manager: InputManager,
    pub event_emitter: EventEmitter,
    pub view_state: ViewState,
    pub theme: Theme,
    pub layout: Layout,
    pub should_exit: bool,
}

impl App {
    /// The event emitter of the application.
    pub open spec fn emitter(&self) -> EventEmitter {
        self.event_emitter
    }

    /// The error displays of the application.
    pub open spec fn displays(&self) -> ViewState {
        self.view_state
    }

    /// The key bindings of the application.
    pub open spec fn bindings(&self) -> Map<KeyBinding, Action> {
        self.input_manager.bindings@
    }

    /// The theme of the application.
    pub open spec fn spec_theme(&self) -> Theme {
        self.theme
    }

    /// The layout engine of the application.
    pub open spec fn spec_layout(&self) -> Layout {
        self.layout
    }

    /// The state that the form works on.
    pub open spec fn model(&self) -> FormModel {
        self.form.model(&self.displays(), &self.emitter())
    }

    /// The invariant of the application: that of its form.
    pub open spec fn well_formed(&self) -> bool {
        self.form.well_formed()
    }

    /// Whether `after` is this application but for the form, the error
    /// displays, the events and the exit flag.
    pub open spec fn same_setup(&self, after: &App) -> bool {
        &&& after.bindings() == self.bindings()
        &&& after.spec_theme() == self.spec_theme()
        &&& after.spec_layout() == self.spec_layout()
        &&& after.renderer == self.renderer
        &&& after.emitter()@.subscriptions == self.emitter()@.subscriptions
    }

    /// Whether `after` is this application after an action at the time
    /// `now`. The action is emitted first. Exit sets the exit flag; the
    /// moves of the focus and the deletions of words are those of the form;
    /// a submit is that of the form, and sets the exit flag where the form
    /// is submitted.
    pub open spec fn acted(&self, after: &App, action: Action, now: u64) -> bool {
        let announced = with_event(self.model(), AppEventView::Action(action));
        match action {
            Action::Exit => after.should_exit && after.model() == announced
                && self.form.same_screen(&after.form),
            Action::NextInput => after.should_exit == self.should_exit && after.model()
                == focus_moved(announced, 1) && self.form.same_screen(&after.form),
            Action::PrevInput => after.should_exit == self.should_exit && after.model()
                == focus_moved(announced, -1) && self.form.same_screen(&after.form),
            Action::Submit => after.model() == submitted(announced, now, ERROR_TIMEOUT).0
                && after.should_exit == (self.should_exit || submitted(
                announced,
                now,
                ERROR_TIMEOUT,
            ).1) && self.form.same_screen(&after.form),
            Action::DeleteWord => after.should_exit == self.should_exit && self.word_deleted(
                after,
                announced,
                false,
            ),
            Action::DeleteWordForward => after.should_exit == self.should_exit
                && self.word_deleted(after, announced, true),
            _ => after.should_exit == self.should_exit && after.model() == announced
                && self.form.same_screen(&after.form),
        }
    }

    /// Whether `after` is this application after a word of the focused
    /// input is deleted, from the model `m`.
    pub open spec fn word_deleted(&self, after: &App, m: FormModel, forward: bool) -> bool {
        &&& self.form.same_screen_but_focused(&after.form)
        &&& self.form.spec_focused_pos() is Some ==> self.form.focused_field().word_deleted(
            &with_status_of(after.form.focused_field(), self.form.focused_field()),
            forward,
        )
        &&& after.model() == if self.form.spec_focused_pos() is Some {
            edited(
                m,
                after.form.focused_field().failure(),
                change_of(
                    self.form.focused_field().spec_value(),
                    after.form.focused_field().spec_value(),
                ),
                false,
            )
        } else {
            m
        }
    }

    /// Whether `after` is this application after a key went to the focused
    /// input.
    pub open spec fn typed(&self, after: &App, key: KeyEvent) -> bool {
        &&& after.should_exit == self.should_exit
        &&& self.form.same_screen_but_focused(&after.form)
        &&& self.form.spec_focused_pos() is Some ==> self.form.focused_field().key_applied(
            &with_status_of(after.form.focused_field(), self.form.focused_field()),
            key.code,
            key.modifiers,
        )
        &&& after.model() == if self.form.spec_focused_pos() is Some {
            edited(
                self.model(),
                after.form.focused_field().failure(),
                change_of(
                    self.form.focused_field().spec_value(),
                    after.form.focused_field().spec_value(),
                ),
                self.form.focused_field().key_result(key.code, key.modifiers)
                    == KeyResult::Submit,
            )
        } else {
            self.model()
        }
    }

    /// An application for a screen, with the default key bindings and the
    /// default theme.
    pub fn new(step: FormStep) -> (r: Self)
        ensures
            r.well_formed(),
            !r.should_exit,
            r.bindings() == default_bindings(),
            r.renderer.spec_start_row() is None,
            r.form.prompt() == step.prompt@,
            crate::form_controller::same_but_status(step.nodes@, r.form.nodes()),
            r.model().focused_pos == if r.form.indices().len() > 0 {
                Some(0int)
            } else {
                None
            },
            r.model().displays == Map::<Seq<char>, ErrorDisplay>::empty(),
            r.emitter()@ == (crate::event_emitter::EmitterView {
                subscriptions: Seq::empty(),
                scheduled: Seq::empty(),
                emitted: Seq::empty(),
            }),
            r.renderer.spec_num_lines() == 0,
            r.spec_layout().spec_margin() == 2,
            r.spec_theme().prompt@ == bold_view(),
            r.spec_theme().hint@ == dim_view(),
            r.spec_theme().error@ == alarm_view(),
            r.spec_theme().placeholder@ == dim_view(),
            r.spec_theme().focused@ == bold_view(),
    {
        App {
            form: FormController::new(step),
            renderer: Renderer::new(),
            input_manager: InputManager::new(),
            event_emitter: EventEmitter::new(),
            view_state: ViewState::new(),
            theme: Theme::default_theme(),
            layout: Layout::new(),
            should_exit: false,
        }
    }

    /// Acts on an action at the time `now`.
    pub fn handle_action(&mut self, action: Action, now: u64)
        requires
            old(self).well_formed(),
        ensures
            final(self).well_formed(),
            old(self).same_setup(final(self)),
            old(self).acted(final(self), action, now),
    {
        self.event_emitter.emit(&AppEvent::Action(action));
        match action {
            Action::Exit => {
                self.should_exit = true;
                proof {
                    crate::form_controller::lemma_same_nodes(self.form.nodes());
                }
            },
            Action::NextInput => {
                self.form.move_focus(1, &mut self.view_state, &mut self.event_emitter);
            },
            Action::PrevInput => {
                self.form.move_focus(-1, &mut self.view_state, &mut self.event_emitter);
            },
            Action::Submit => {
                if self.form.handle_submit(
                    &mut self.view_state,
                    &mut self.event_emitter,
                    ERROR_TIMEOUT,
                    now,
                ) {
                    self.should_exit = true;
                }
            },
            Action::DeleteWord => {
                self.form.handle_delete_word(false, &mut self.view_state, &mut self.event_emitter);
            },
            Action::DeleteWordForward => {
                self.form.handle_delete_word(true, &mut self.view_state, &mut self.event_emitter);
            },
            _ => {
                proof {
                    crate::form_controller::lemma_same_nodes(self.form.nodes());
                }
            },
        }
    }

    /// A key press at the time `now`: a key bound to an action of the form
    /// asks for that action, any other key goes to the focused input.
    pub fn handle_key(&mut self, key_event: KeyEvent, now: u64)
        requires
            old(self).well_formed(),
        ensures
            final(self).well_formed(),
            old(self).same_setup(final(self)),
            match routed(old(self).bindings(), key_event) {
                Some(action) => old(self).acted(final(self), action, now),
                None => old(self).typed(final(self), key_event),
            },
    {
        let bound = self.input_manager.handle_key(&key_event);
        let action = match bound {
            Some(Action::Exit) => Some(Action::Exit),
            Some(Action::Submit) => Some(Action::Submit),
            Some(Action::NextInput) => Some(Action::NextInput),
            Some(Action::PrevInput) => Some(Action::PrevInput),
            Some(Action::DeleteWord) => Some(Action::DeleteWord),
            Some(Action::DeleteWordForward) => Some(Action::DeleteWordForward),
            _ => None,
        };
        match action {
            Some(action) => {
                self.handle_action(action, now);
            },
            None => {
                self.form.handle_input_key(key_event, &mut self.view_state, &mut self.event_emitter);
            },
        }
    }

    /// One tick at the time `now`: the scheduled events that are due are
    /// handled in the order in which they were scheduled, and emitted.
    /// Answers whether there was any.
    pub fn tick(&mut self, now: u64) -> (r: bool)
        requires
            old(self).well_formed(),
        ensures
            final(self).well_formed(),
            old(self).same_setup(final(self)),
            final(self).form == old(self).form,
            final(self).should_exit == old(self).should_exit,
            r == (due_events(old(self).model().scheduled, now).len() > 0),
            final(self).model() == events_handled(
                FormModel {
                    scheduled: not_due(old(self).model().scheduled, now),
                    ..old(self).model()
                },
                due_events(old(self).model().scheduled, now),
            ),
    {
        let ghost m = self.model();
        let due = self.event_emitter.drain_due(now);
        let ghost events = due_events(m.scheduled, now);
        let ghost drained = FormModel { scheduled: not_due(m.scheduled, now), ..m };
        let mut i: usize = 0;
        proof {
            assert(events.take(0) =~= Seq::<AppEventView>::empty());
        }
        while i < due.len()
            invariant
                i <= due.len(),
                crate::event_emitter::event_views(due@) == events,
                self.well_formed(),
                old(self).same_setup(self),
                self.form == old(self).form,
                self.should_exit == old(self).should_exit,
                self.model() == events_handled(drained, events.take(i as int)),
            decreases due.len() - i,
        {
            proof {
                assert(events.take(i + 1).drop_last() =~= events.take(i as int));
                assert(events.take(i + 1).last() == due@[i as int]@);
            }
            match &due[i] {
                AppEvent::ClearErrorMessage { id } => {
                    self.form.handle_clear_error_message(id.as_str(), &mut self.view_state);
                },
                _ => {},
            }
            self.event_emitter.emit(&due[i]);
            i += 1;
        }
        proof {
            assert(events.take(i as int) =~= events);
        }
        due.len() > 0
    }

    /// Lays the screen out for a terminal of the given width.
    pub fn compose(&self, width: u16) -> (ctx: RenderContext)
        requires
            self.well_formed(),
        ensures
            ctx.frame@.len() >= 1,
            ctx.frame@ == laid_out_lines(
                self.screen_units(),
                self.spec_layout().budget(width),
            ) && ctx.cursor_position == laid_out_cursor(
                self.screen_units(),
                self.spec_layout().budget(width),
            ),
    {
        let units = self.form.step().units(&self.view_state, &self.theme);
        let (ctx, _) = self.layout.layout(units.as_slice(), width);
        ctx
    }

    /// Lays the screen out for a terminal of the given width and plans the
    /// paint of the frame into the block of the renderer. Without an anchor
    /// nothing is painted.
    pub fn render(&mut self, width: u16) -> (r: (RenderContext, Vec<TermOp>))
        requires
            old(self).well_formed(),
        ensures
            final(self).well_formed(),
            final(self).form == old(self).form,
            final(self).should_exit == old(self).should_exit,
            final(self).model() == old(self).model(),
            final(self).bindings() == old(self).bindings(),
            r.0.frame@.len() >= 1,
            r.0.frame@ == laid_out_lines(
                old(self).screen_units(),
                old(self).spec_layout().budget(width),
            ) && r.0.cursor_position == laid_out_cursor(
                old(self).screen_units(),
                old(self).spec_layout().budget(width),
            ),
            old(self).renderer.spec_start_row() is None ==> r.1@ == Seq::<TermOp>::empty()
                && final(self).renderer == old(self).renderer,
            old(self).renderer.spec_start_row() matches Some(start) ==> r.1@ == paint_ops(
                start,
                old(self).renderer.spec_num_lines(),
                r.0.frame@.len(),
                r.0.cursor_position,
            ) && final(self).renderer.spec_start_row() == Some(start) && final(self).renderer.spec_num_lines() == r.0.frame@.len(),
    {
        let ctx = self.compose(width);
        let ops = self.renderer.render(&ctx);
        (ctx, ops)
    }

    /// The events emitted since they were taken last, oldest first.
    pub fn take_events(&mut self) -> (r: Vec<AppEvent>)
        requires
            old(self).well_formed(),
        ensures
            final(self).well_formed(),
            old(self).same_setup(final(self)),
            final(self).form == old(self).form,
            final(self).should_exit == old(self).should_exit,
            crate::event_emitter::event_views(r@) == old(self).model().emitted,
            final(self).model() == (FormModel { emitted: Seq::empty(), ..old(self).model() }),
    {
        self.event_emitter.take_emitted()
    }

    /// The handlers to call for a kind of event, in the order of
    /// subscription.
    pub fn handlers_for(&self, event_type: crate::event::AppEventType) -> (r: Vec<usize>)
        ensures
            r@ == crate::event_emitter::subscribers(self.emitter()@.subscriptions, event_type),
    {
        self.event_emitter.handlers_for(event_type)
    }

    /// Subscribes a handler to a kind of event. Answers the number of the
    /// handler.
    pub fn on(&mut self, event_type: crate::event::AppEventType) -> (handler: usize)
        ensures
            handler == old(self).emitter()@.subscriptions.len(),
            final(self).emitter()@.subscriptions == old(self).emitter()@.subscriptions.push(
                event_type,
            ),
            final(self).form == old(self).form,
            final(self).model() == old(self).model(),
            final(self).should_exit == old(self).should_exit,
            final(self).bindings() == old(self).bindings(),
    {
        self.event_emitter.on(event_type)
    }

    /// The screen units that the layout gets.
    pub open spec fn screen_units(&self) -> Seq<crate::layout::UnitView> {
        self.form.spec_units(
            self.displays()@,
            self.spec_theme().prompt@,
            self.spec_theme().hint@,
            self.spec_theme().error@,
        )
    }
}

} // verus!
