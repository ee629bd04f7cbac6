use vstd::prelude::*;
use crate::app_state::AppState;
use crate::cursor::Cursor;
use crate::main_screen::{main_step, MainScreen};
use crate::pattern::StrummingPattern;
use crate::screen::{InputEvent, IoRequest, Screen, ScreenCommand};

verus! {

/// The navigation controller: an ordered stack of screens (the last element
/// is the visible one) and the single application state.
#[derive(Debug)]
pub struct App {
    pub state: AppState,
    pub screens: Vec<Screen>,
}

impl App {
    /// The stack is non-empty while the loop runs, and every screen's
    /// cursor points inside the current pattern.
    pub open spec fn wf(self) -> bool {
        &&& self.screens@.len() >= 1
        &&& forall|i: int|
            0 <= i < self.screens@.len() ==> (#[trigger] self.screens@[i]).valid(
                self.state.strumming_pattern@.len(),
            )
    }

    /// A fresh application: one main screen over a fresh state.
    pub fn new() -> (r: App)
        ensures
            r.wf(),
            r.screens@.len() == 1,
            r.screens@[0].cursor() is Inactive,
            r.state.strumming_pattern@.len() == 8,
    {
        App { state: AppState::new(), screens: vec![Screen::Main(MainScreen::new())] }
    }

    /// Apply one navigation command to the screen stack. The result says
    /// whether the application loop must end: it does on a quit command,
    /// and on closing the only remaining screen.
    pub fn apply_command(&mut self, cmd: ScreenCommand) -> (exit: bool)
        requires
            old(self).screens@.len() >= 1,
        ensures
            final(self).state == old(self).state,
            match cmd {
                ScreenCommand::Close => final(self).screens@ == old(self).screens@.drop_last()
                    && exit == (old(self).screens@.len() == 1),
                ScreenCommand::Push(s) => final(self).screens@ == old(self).screens@.push(s)
                    && !exit,
                ScreenCommand::Swap(s) => final(self).screens@
                    == old(self).screens@.drop_last().push(s) && !exit,
                ScreenCommand::Quit(_) => final(self).screens@ == old(self).screens@ && exit,
            },
    {
        match cmd {
            ScreenCommand::Close => {
                self.screens.pop();
                proof {
                    assert(self.screens@ =~= old(self).screens@.drop_last());
                }
                self.screens.len() == 0
            },
            ScreenCommand::Push(s) => {
                self.screens.push(s);
                false
            },
            ScreenCommand::Swap(s) => {
                self.screens.pop();
                self.screens.push(s);
                proof {
                    assert(self.screens@ =~= old(self).screens@.drop_last().push(s));
                }
                false
            },
            ScreenCommand::Quit(_) => true,
        }
    }

    /// Replace the working pattern wholesale (after a load) and drop every
    /// screen's cursor back to Inactive, so that no cursor outlives the
    /// pattern it pointed into.
    pub fn install_pattern(&mut self, p: StrummingPattern)
        ensures
            final(self).state.strumming_pattern == p,
            final(self).screens@.len() == old(self).screens@.len(),
            forall|i: int|
                0 <= i < final(self).screens@.len()
                    ==> (#[trigger] final(self).screens@[i]).cursor() is Inactive,
            old(self).screens@.len() >= 1 ==> final(self).wf(),
    {
        self.state.strumming_pattern = p;
        let n = self.screens.len();
        let mut i: usize = 0;
        while i < n
            invariant
                i <= n,
                n == self.screens@.len(),
                self.state.strumming_pattern == p,
                forall|j: int|
                    0 <= j < i ==> (#[trigger] self.screens@[j]).cursor() is Inactive,
            decreases n - i,
        {
            self.screens.set(i, Screen::Main(MainScreen { current_stroke: Cursor::Inactive }));
            i += 1;
        }
    }

    /// One decision step of the read-render-dispatch loop: ignore releases,
    /// dispatch the event to the top screen, and apply the navigation
    /// command it yielded. Returns whether the loop must end, and which
    /// persistence action the caller must now perform.
    pub fn handle_input(&mut self, event: InputEvent) -> (r: (bool, Option<IoRequest>))
        requires
            old(self).wf(),
        ensures
            !r.0 ==> final(self).wf(),
            final(self).state.strumming_pattern@.len()
                == old(self).state.strumming_pattern@.len(),
            event.is_release ==> *final(self) == *old(self) && !r.0 && r.1 is None,
            !event.is_release ==> ({
                let n = old(self).screens@.len();
                &&& final(self).screens@.len() == n
                &&& final(self).screens@.drop_last() == old(self).screens@.drop_last()
                &&& main_step(
                    old(self).screens@[n - 1].cursor(),
                    old(self).state.strumming_pattern@,
                    event,
                    final(self).screens@[n - 1].cursor(),
                    final(self).state.strumming_pattern@,
                    r.0,
                    r.1,
                )
            }),
    {
        if event.is_release {
            return (false, None);
        }
        let top = self.screens.pop().unwrap();
        match top {
            Screen::Main(mut ms) => {
                let outcome = ms.handle_event(event, &mut self.state);
                self.screens.push(Screen::Main(ms));
                proof {
                    assert(self.screens@.drop_last() =~= old(self).screens@.drop_last());
                }
                match outcome.command {
                    Option::None => (false, outcome.io),
                    Option::Some(cmd) => {
                        let exit = self.apply_command(cmd);
                        (exit, outcome.io)
                    },
                }
            },
        }
    }
}

/// Stack discipline: pushing a screen and then closing it restores the
/// exact prior stack, depth and top alike; swapping preserves the depth
/// while replacing the top. That closing the only remaining screen ends
/// the loop is part of apply_command's contract.
pub proof fn lemma_stack_discipline(stack: Seq<Screen>, pushed: Screen, swapped: Screen)
    requires
        stack.len() >= 1,
    ensures
        stack.push(pushed).drop_last() == stack,
        stack.drop_last().push(swapped).len() == stack.len(),
        stack.drop_last().push(swapped).last() == swapped,
{
    assert(stack.push(pushed).drop_last() =~= stack);
}

} // verus!
