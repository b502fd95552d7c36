//! The binding table: which actions each button triggers.

use crate::actions::{
    action_views, clone_actions, Action, ActionView, LuaScript, SimpleAction, UpDownAction,
    UpDownActionView,
};
use crate::buttons::{button_name, button_of_name, deserialize_button, serialize_button, Button};
use crate::keys::{Key, ModifierKey, MouseButton};
use vstd::prelude::*;

verus! {

/// A list of named bindings, as plain values.
pub open spec fn named_views(named: Seq<(String, Vec<Action>)>) -> Seq<(Seq<char>, Seq<ActionView>)> {
    Seq::new(named.len(), |i: int| (named[i].0@, action_views(named[i].1@)))
}

/// The table that a list of named bindings stands for: each binding is
/// entered under the button of its name, in order, so that of two bindings
/// of one button the later one stays. Every name that is not the name of a
/// button stands for `Button::Unknown`.
pub open spec fn named_bindings(named: Seq<(Seq<char>, Seq<ActionView>)>) -> Map<
    Button,
    Seq<ActionView>,
>
    decreases named.len(),
{
    if named.len() == 0 {
        Map::empty()
    } else {
        named_bindings(named.drop_last()).insert(button_of_name(named.last().0), named.last().1)
    }
}

/// The actions bound to one button.
#[derive(Debug)]
pub struct Binding {
    pub button: Button,
    pub actions: Vec<Action>,
}

/// The binding table: for each bound button the actions it triggers, in the
/// order in which they run. No button is bound twice.
#[derive(Debug)]
pub struct ActionMap {
    map: Vec<Binding>,
}

/// The position of a button among the bound buttons, if it is bound.
pub open spec fn position_of(buttons: Seq<Button>, button: Button) -> Option<int> {
    if exists|i: int| 0 <= i < buttons.len() && buttons[i] == button {
        Some(choose|i: int| 0 <= i < buttons.len() && buttons[i] == button)
    } else {
        None
    }
}

impl ActionMap {
    /// No button is bound twice. Every table that this module hands out is
    /// well formed.
    #[verifier::type_invariant]
    pub closed spec fn wf(self) -> bool {
        forall|i: int, j: int|
            0 <= i < j < self.map.len() ==> (#[trigger] self.map[i]).button != (
            #[trigger] self.map[j]).button
    }

    /// The bound buttons, in the order in which they were first bound.
    pub closed spec fn buttons(&self) -> Seq<Button> {
        Seq::new(self.map.len() as nat, |i: int| self.map[i].button)
    }

    /// The actions of the bound buttons, in the order of `buttons`.
    pub closed spec fn lists(&self) -> Seq<Seq<ActionView>> {
        Seq::new(self.map.len() as nat, |i: int| action_views(self.map[i].actions@))
    }

    /// The table as a map from each bound button to its actions.
    pub open spec fn view(&self) -> Map<Button, Seq<ActionView>> {
        Map::new(
            |button: Button| position_of(self.buttons(), button) is Some,
            |button: Button| self.lists()[position_of(self.buttons(), button).unwrap()],
        )
    }

    /// The list that a lookup of `button` gives: its actions, or nothing
    /// where the button is not bound.
    pub open spec fn spec_bindings_for(&self, button: Button) -> Seq<ActionView> {
        if self@.dom().contains(button) {
            self@[button]
        } else {
            Seq::empty()
        }
    }

    /// No button occurs twice among `buttons`, and there is one list for each.
    pub proof fn lemma_buttons_distinct(&self)
        requires
            self.wf(),
        ensures
            self.buttons().no_duplicates(),
            self.lists().len() == self.buttons().len(),
    {
    }

    /// A table without bindings.
    pub fn new() -> (table: Self)
        ensures
            table.wf(),
            table@ == Map::<Button, Seq<ActionView>>::empty(),
            table.buttons() == Seq::<Button>::empty(),
    {
        ActionMap { map: Vec::new() }
    }

    fn find(&self, button: Button) -> (found: Option<usize>)
        ensures
            match found {
                Some(i) => i < self.buttons().len() && position_of(self.buttons(), button) == Some(
                    i as int,
                ),
                None => position_of(self.buttons(), button) is None,
            },
    {
        proof {
            use_type_invariant(self);
            self.lemma_buttons_distinct();
        }
        let mut i: usize = 0;
        while i < self.map.len()
            invariant
                i <= self.map.len(),
                self.buttons().len() == self.map.len(),
                self.buttons().no_duplicates(),
                forall|j: int| 0 <= j < i ==> self.buttons()[j] != button,
            decreases self.map.len() - i,
        {
            if self.map[i].button == button {
                assert(self.buttons()[i as int] == button);
                return Some(i);
            }
            i += 1;
        }
        None
    }

    /// The actions bound to `button`, in the order in which they run; an
    /// empty list where the button has no binding. The table is not changed.
    pub fn bindings_for(&self, button: Button) -> (actions: Vec<Action>)
        ensures
            action_views(actions@) == self.spec_bindings_for(button),
            !self@.dom().contains(button) ==> actions@.len() == 0,
    {
        match self.find(button) {
            Some(i) => clone_actions(&self.map[i].actions),
            None => Vec::new(),
        }
    }

    /// Binds `button` to `actions`, in place of what it was bound to before.
    pub fn insert(&mut self, button: Button, actions: Vec<Action>)
        ensures
            final(self).wf(),
            final(self)@ == old(self)@.insert(button, action_views(actions@)),
            old(self)@.dom().contains(button) ==> final(self).buttons() == old(self).buttons(),
            !old(self)@.dom().contains(button) ==> final(self).buttons() == old(self).buttons().push(
                button,
            ),
    {
        proof {
            use_type_invariant(&*self);
            self.lemma_buttons_distinct();
        }
        let ghost before = *self;
        let found = self.find(button);
        let mut taken = ActionMap { map: Vec::new() };
        core::mem::swap(self, &mut taken);
        let ActionMap { map: mut entries } = taken;
        match found {
            Some(i) => {
                entries.set(i, Binding { button, actions });
                *self = ActionMap { map: entries };
                assert(self.buttons() =~= before.buttons());
            },
            None => {
                entries.push(Binding { button, actions });
                assert forall|i: int, j: int| 0 <= i < j < entries.len() implies (
                #[trigger] entries[i]).button != (#[trigger] entries[j]).button by {
                    if j == entries.len() - 1 {
                        assert(before.buttons()[i] == entries[i].button);
                    }
                }
                *self = ActionMap { map: entries };
                assert(self.buttons().take(before.buttons().len() as int) =~= before.buttons());
                assert forall|other: Button| other != button implies position_of(
                    self.buttons(),
                    other,
                ) == position_of(before.buttons(), other) by {
                    self.lemma_position_stable(before, other);
                }
                assert(self.buttons()[before.buttons().len() as int] == button);
            },
        }
    }

    /// The table with each button written by its name: one entry for each
    /// binding, in the order of `buttons`. Buttons without a name of their
    /// own are all written as `Unknown`.
    pub fn serialize(&self) -> (named: Vec<(String, Vec<Action>)>)
        ensures
            named@.len() == self.buttons().len(),
            forall|i: int|
                0 <= i < named@.len() ==> (#[trigger] named@[i]).0@ == button_name(self.buttons()[i])
                    && action_views(named@[i].1@) == self.lists()[i],
    {
        let mut named: Vec<(String, Vec<Action>)> = Vec::new();
        let mut i: usize = 0;
        while i < self.map.len()
            invariant
                i <= self.map.len(),
                named@.len() == i,
                forall|j: int|
                    0 <= j < i ==> (#[trigger] named@[j]).0@ == button_name(self.buttons()[j])
                        && action_views(named@[j].1@) == self.lists()[j],
            decreases self.map.len() - i,
        {
            let name = serialize_button(&self.map[i].button).to_string();
            let actions = clone_actions(&self.map[i].actions);
            named.push((name, actions));
            i += 1;
        }
        named
    }

    /// The table that a list of named bindings stands for: see
    /// `named_bindings`.
    pub fn deserialize(named: &Vec<(String, Vec<Action>)>) -> (table: Self)
        ensures
            table.wf(),
            table@ == named_bindings(named_views(named@)),
    {
        let mut table = ActionMap::new();
        let mut i: usize = 0;
        while i < named.len()
            invariant
                i <= named.len(),
                table.wf(),
                table@ == named_bindings(named_views(named@).take(i as int)),
            decreases named.len() - i,
        {
            let button = deserialize_button(named[i].0.clone());
            let actions = clone_actions(&named[i].1);
            table.insert(button, actions);
            assert(named_views(named@).take(i + 1).drop_last() =~= named_views(named@).take(
                i as int,
            ));
            i += 1;
        }
        assert(named_views(named@).take(i as int) =~= named_views(named@));
        table
    }

    proof fn lemma_position_stable(&self, before: ActionMap, other: Button)
        requires
            self.wf(),
            before.wf(),
            self.buttons().len() == before.buttons().len() + 1,
            self.buttons().take(before.buttons().len() as int) == before.buttons(),
            self.buttons().last() != other,
        ensures
            position_of(self.buttons(), other) == position_of(before.buttons(), other),
    {
        before.lemma_buttons_distinct();
        self.lemma_buttons_distinct();
        let n = before.buttons().len() as int;
        if position_of(before.buttons(), other) is None && position_of(self.buttons(), other) is Some {
            let k = position_of(self.buttons(), other).unwrap();
            assert(self.buttons().take(n)[k] == other);
        }
    }
}

/// A key chord as an action view.
pub open spec fn chord(key: Key, modifiers: Seq<ModifierKey>) -> ActionView {
    ActionView::UpDown(UpDownActionView::KeyPress { key, modifiers })
}

/// A simple action as an action view.
pub open spec fn simple(action: SimpleAction) -> ActionView {
    ActionView::Simple(action)
}

/// The bindings of a fresh configuration.
pub open spec fn default_bindings() -> Map<Button, Seq<ActionView>> {
    Map::<Button, Seq<ActionView>>::empty().insert(
        Button::South,
        seq![ActionView::UpDown(UpDownActionView::LuaScript { script: "test.lua"@ })],
    ).insert(
        Button::East,
        seq![ActionView::UpDown(UpDownActionView::Click(MouseButton::Right))],
    ).insert(Button::North, seq![chord(Key::Space, Seq::empty())]).insert(
        Button::DPadUp,
        seq![simple(SimpleAction::SpeedInc), simple(SimpleAction::Rumble)],
    ).insert(
        Button::DPadDown,
        seq![simple(SimpleAction::SpeedDec), simple(SimpleAction::Rumble)],
    ).insert(
        Button::RightTrigger,
        seq![chord(Key::Tab, seq![ModifierKey::Ctrl]), simple(SimpleAction::Rumble)],
    ).insert(
        Button::LeftTrigger,
        seq![
            chord(Key::Tab, seq![ModifierKey::Ctrl, ModifierKey::Shift]),
            simple(SimpleAction::Rumble),
        ],
    ).insert(Button::RightTrigger2, seq![ActionView::UpDown(UpDownActionView::SpeedUp)]).insert(
        Button::LeftTrigger2,
        seq![ActionView::UpDown(UpDownActionView::SpeedDown)],
    ).insert(Button::Select, seq![simple(SimpleAction::ToggleVis)])
}

fn one_action(action: Action) -> (list: Vec<Action>)
    ensures
        action_views(list@) == seq![action@],
{
    let mut list: Vec<Action> = Vec::new();
    list.push(action);
    list
}

fn two_actions(first: Action, second: Action) -> (list: Vec<Action>)
    ensures
        action_views(list@) == seq![first@, second@],
{
    let mut list: Vec<Action> = Vec::new();
    list.push(first);
    list.push(second);
    list
}

fn tab_chord(with_shift: bool) -> (action: Action)
    ensures
        action@ == chord(
            Key::Tab,
            if with_shift {
                seq![ModifierKey::Ctrl, ModifierKey::Shift]
            } else {
                seq![ModifierKey::Ctrl]
            },
        ),
{
    let mut modifiers: Vec<ModifierKey> = Vec::new();
    modifiers.push(ModifierKey::Ctrl);
    if with_shift {
        modifiers.push(ModifierKey::Shift);
        assert(modifiers@ =~= seq![ModifierKey::Ctrl, ModifierKey::Shift]);
    } else {
    }
    Action::UpDown(UpDownAction::KeyPress { key: Key::Tab, modifiers })
}

impl Clone for ActionMap {
    /// A copy of the table: the same buttons in the same order, each with
    /// the same actions.
    fn clone(&self) -> (copy: Self)
        ensures
            copy.wf(),
            copy@ == self@,
            copy.buttons() == self.buttons(),
            copy.lists() == self.lists(),
    {
        proof {
            use_type_invariant(self);
        }
        let mut entries: Vec<Binding> = Vec::new();
        let mut i: usize = 0;
        while i < self.map.len()
            invariant
                i <= self.map.len(),
                entries@.len() == i,
                forall|j: int|
                    0 <= j < i ==> (#[trigger] entries@[j]).button == self.map[j].button
                        && action_views(entries@[j].actions@) == action_views(self.map[j].actions@),
            decreases self.map.len() - i,
        {
            entries.push(
                Binding { button: self.map[i].button, actions: clone_actions(&self.map[i].actions) },
            );
            i += 1;
        }
        assert forall|p: int, q: int| 0 <= p < q < entries.len() implies (#[trigger] entries[p]).button
            != (#[trigger] entries[q]).button by {
        }
        let copy = ActionMap { map: entries };
        assert(copy.buttons() =~= self.buttons());
        copy
    }
}

impl Default for ActionMap {
    /// The bindings of a fresh configuration: a script on the south button,
    /// the right mouse button on the east one, the space key on the north
    /// one, the speed steps on the directional pad, tab switching on the
    /// bumpers, the speed factor on the triggers and the window toggle on
    /// select.
    fn default() -> (table: Self)
        ensures
            table.wf(),
            table@ == default_bindings(),
    {
        let mut table = ActionMap::new();
        table.insert(
            Button::South,
            one_action(
                Action::UpDown(UpDownAction::LuaScript { script: LuaScript("test.lua".to_string()) }),
            ),
        );
        table.insert(
            Button::East,
            one_action(Action::UpDown(UpDownAction::Click(MouseButton::Right))),
        );
        table.insert(
            Button::North,
            one_action(
                Action::UpDown(UpDownAction::KeyPress { key: Key::Space, modifiers: Vec::new() }),
            ),
        );
        table.insert(
            Button::DPadUp,
            two_actions(Action::Simple(SimpleAction::SpeedInc), Action::Simple(SimpleAction::Rumble)),
        );
        table.insert(
            Button::DPadDown,
            two_actions(Action::Simple(SimpleAction::SpeedDec), Action::Simple(SimpleAction::Rumble)),
        );
        table.insert(
            Button::RightTrigger,
            two_actions(tab_chord(false), Action::Simple(SimpleAction::Rumble)),
        );
        table.insert(
            Button::LeftTrigger,
            two_actions(tab_chord(true), Action::Simple(SimpleAction::Rumble)),
        );
        table.insert(Button::RightTrigger2, one_action(Action::UpDown(UpDownAction::SpeedUp)));
        table.insert(Button::LeftTrigger2, one_action(Action::UpDown(UpDownAction::SpeedDown)));
        table.insert(Button::Select, one_action(Action::Simple(SimpleAction::ToggleVis)));
        table
    }
}

} // verus!
