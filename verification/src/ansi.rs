//! Collection of the text printed by a terminal program into runs of text.
use crate::text::push_char;
use std::collections::VecDeque;
use vstd::prelude::*;

verus! {

/// What a terminal program did.
pub enum Action {
    /// A run of printed characters.
    Text(String),
    /// A change of color.
    Color(),
    /// Deletion of the given number of characters.
    DeleteChar(usize),
}

/// The model of an `Action`.
pub enum ActionView {
    Text(Seq<char>),
    Color,
    DeleteChar(usize),
}

impl View for Action {
    type V = ActionView;

    open spec fn view(&self) -> ActionView {
        match self {
            Action::Text(s) => ActionView::Text(s@),
            Action::Color() => ActionView::Color,
            Action::DeleteChar(n) => ActionView::DeleteChar(*n),
        }
    }
}

/// The actions after printing `c`: it extends a trailing run of text, or
/// starts a new one.
pub open spec fn append_char_spec(acts: Seq<ActionView>, c: char) -> Seq<ActionView> {
    if acts.len() > 0 && acts.last() is Text {
        acts.drop_last().push(ActionView::Text(acts.last()->Text_0.push(c)))
    } else {
        acts.push(ActionView::Text(seq![c]))
    }
}

/// Collects what a terminal program does, in order.
pub struct Collector {
    actions: VecDeque<Action>,
}

impl View for Collector {
    type V = Seq<ActionView>;

    closed spec fn view(&self) -> Seq<ActionView> {
        self.actions@.map_values(|a: Action| a@)
    }
}

impl Collector {
    /// A collector with nothing collected.
    pub fn new() -> (r: Self)
        ensures
            r@ == Seq::<ActionView>::empty(),
    {
        let r = Collector { actions: VecDeque::new() };
        assert(r@ =~= Seq::<ActionView>::empty());
        r
    }

    /// Records a printed character.
    pub fn append_char(&mut self, c: char)
        ensures
            final(self)@ == append_char_spec(old(self)@, c),
    {
        let ghost old_acts = self@;
        match self.actions.pop_back() {
            Some(Action::Text(s)) => {
                let mut s = s;
                push_char(&mut s, c);
                self.actions.push_back(Action::Text(s));
                assert(self@ =~= append_char_spec(old_acts, c));
            },
            Some(other) => {
                self.actions.push_back(other);
                let mut t = String::new();
                push_char(&mut t, c);
                self.actions.push_back(Action::Text(t));
                assert(self@ =~= append_char_spec(old_acts, c));
            },
            None => {
                let mut t = String::new();
                push_char(&mut t, c);
                self.actions.push_back(Action::Text(t));
                assert(self@ =~= append_char_spec(old_acts, c));
            },
        }
    }

    /// What a printed character does.
    pub fn print(&mut self, c: char)
        ensures
            final(self)@ == append_char_spec(old(self)@, c),
    {
        self.append_char(c)
    }

    /// The number of actions collected.
    pub fn len(&self) -> (r: usize)
        ensures
            r == self@.len(),
    {
        self.actions.len()
    }

    /// The text of the action at `i`, if it is a run of text.
    pub fn text_at(&self, i: usize) -> (r: Option<String>)
        requires
            i < self@.len(),
        ensures
            match self@[i as int] {
                ActionView::Text(t) => r is Some && r->0@ == t,
                _ => r is None,
            },
    {
        match &self.actions[i] {
            Action::Text(s) => Some(s.clone()),
            _ => None,
        }
    }
}

/// The actions after printing the characters of `s` in order.
pub open spec fn print_all(acts: Seq<ActionView>, s: Seq<char>) -> Seq<ActionView>
    decreases s.len(),
{
    if s.len() == 0 {
        acts
    } else {
        append_char_spec(print_all(acts, s.drop_last()), s.last())
    }
}

/// Printed characters that follow each other make one run of text: from
/// nothing collected, printing a non-empty text gives exactly that text.
pub proof fn law_printed_text_is_one_run(s: Seq<char>)
    ensures
        s.len() > 0 ==> print_all(Seq::empty(), s) == seq![ActionView::Text(s)],
        s.len() == 0 ==> print_all(Seq::empty(), s) == Seq::<ActionView>::empty(),
    decreases s.len(),
{
    if s.len() > 1 {
        law_printed_text_is_one_run(s.drop_last());
        let prev = print_all(Seq::empty(), s.drop_last());
        assert(prev == seq![ActionView::Text(s.drop_last())]);
        assert(prev.drop_last().push(ActionView::Text(s.drop_last().push(s.last()))) =~= seq![
            ActionView::Text(s),
        ]) by {
            assert(s.drop_last().push(s.last()) =~= s);
        }
    } else if s.len() == 1 {
        assert(s.drop_last().len() == 0);
        assert(print_all(Seq::empty(), s.drop_last()) == Seq::<ActionView>::empty());
        assert(seq![s.last()] =~= s);
    }
}

} // verus!
