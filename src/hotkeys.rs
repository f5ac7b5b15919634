//! Hotkeys: which keys stand for which command, and turning the keys held
//! down at one moment into the commands whose key has just been pressed.
use vstd::prelude::*;

use std::collections::HashMap;
use std::sync::mpsc::Sender;

verus! {

broadcast use vstd::std_specs::hash::group_hash_axioms;

/// Virtual-key code of End.
pub const VK_END: i32 = 0x23;
/// Virtual-key code of F1.
pub const VK_F1: i32 = 0x70;
/// Virtual-key code of F2.
pub const VK_F2: i32 = 0x71;

/// `std::sync::mpsc::Sender`, carried as an opaque value: the handler only
/// hands commands to it.
#[verifier::external_type_specification]
#[verifier::external_body]
#[verifier::reject_recursive_types(T)]
pub struct ExSender<T>(Sender<T>);

/// A command that a hotkey stands for.
#[derive(Debug)]
pub enum HotkeyCommand {
    Exit,
    ToggleRcs,
    HideToggle,
    SelectWeapon(String),
}

/// The mathematical value of a `HotkeyCommand`.
pub enum CommandView {
    Exit,
    ToggleRcs,
    HideToggle,
    SelectWeapon(Seq<char>),
}

impl View for HotkeyCommand {
    type V = CommandView;

    open spec fn view(&self) -> CommandView {
        match self {
            HotkeyCommand::Exit => CommandView::Exit,
            HotkeyCommand::ToggleRcs => CommandView::ToggleRcs,
            HotkeyCommand::HideToggle => CommandView::HideToggle,
            HotkeyCommand::SelectWeapon(w) => CommandView::SelectWeapon(w@),
        }
    }
}

impl HotkeyCommand {
    /// A copy of the command.
    pub fn duplicate(&self) -> (r: HotkeyCommand)
        ensures
            r@ == self@,
    {
        match self {
            HotkeyCommand::Exit => HotkeyCommand::Exit,
            HotkeyCommand::ToggleRcs => HotkeyCommand::ToggleRcs,
            HotkeyCommand::HideToggle => HotkeyCommand::HideToggle,
            HotkeyCommand::SelectWeapon(w) => HotkeyCommand::SelectWeapon(w.clone()),
        }
    }
}

/// Relies on `std::sync::mpsc::Sender::send`: hands the command to the
/// receiving side; a disconnected receiver is ignored, as nothing is
/// waiting for the command then.
#[verifier::external_body]
fn send_command(sender: &Sender<HotkeyCommand>, cmd: HotkeyCommand) {
    let _ = sender.send(cmd);
}

/// A key bound to a weapon profile.
#[derive(Debug)]
pub struct WeaponBinding {
    pub key_code: i32,
    pub weapon_name: String,
}

/// The views of the commands of `v`.
pub open spec fn command_views(v: Seq<HotkeyCommand>) -> Seq<CommandView> {
    Seq::new(v.len(), |i: int| v[i]@)
}

/// The keys that `m` records as down.
pub open spec fn pressed_keys(m: Map<i32, bool>) -> Set<i32> {
    Set::new(|k: i32| m.contains_key(k) && m[k])
}

/// The keys that `v` holds.
pub open spec fn key_set(v: Seq<i32>) -> Set<i32> {
    Set::new(|k: i32| v.contains(k))
}

/// Checks the watched keys in order against the keys held `down`: a key
/// fires its command when it is down and was not down at its previous
/// check; each check then records whether the key is down.
pub open spec fn scan(held: Set<i32>, down: Set<i32>, watch: Seq<(i32, CommandView)>) -> (Set<i32>, Seq<CommandView>)
    decreases watch.len(),
{
    if watch.len() == 0 {
        (held, seq![])
    } else {
        scan_step(scan(held, down, watch.drop_last()), down, watch.last())
    }
}

/// One check of `scan`: the key of `item` against the state `prev`.
pub open spec fn scan_step(prev: (Set<i32>, Seq<CommandView>), down: Set<i32>, item: (i32, CommandView)) -> (Set<i32>, Seq<CommandView>) {
    let k = item.0;
    let fire = down.contains(k) && !prev.0.contains(k);
    let h = if down.contains(k) {
        prev.0.insert(k)
    } else {
        prev.0.remove(k)
    };
    (h, if fire {
        prev.1.push(item.1)
    } else {
        prev.1
    })
}

/// Watches the exit, toggle and hide keys and the weapon bindings, and
/// reports newly pressed keys as commands.
#[derive(Debug)]
pub struct HotkeyHandler {
    pub weapon_bindings: Vec<WeaponBinding>,
    pub exit_key: i32,
    pub toggle_key: i32,
    pub hide_key: i32,
    pub sender: Option<Sender<HotkeyCommand>>,
    pub prev_states: HashMap<i32, bool>,
}

fn contains_key(v: &Vec<i32>, k: i32) -> (r: bool)
    ensures
        r == v@.contains(k),
{
    let mut i: usize = 0;
    while i < v.len()
        invariant
            0 <= i <= v.len(),
            forall|j: int| 0 <= j < i ==> v@[j] != k,
        decreases v.len() - i,
    {
        if v[i] == k {
            return true;
        }
        i = i + 1;
    }
    false
}

impl HotkeyHandler {
    /// The bindings as (key, weapon name) pairs, in binding order.
    pub open spec fn bindings(&self) -> Seq<(i32, Seq<char>)> {
        Seq::new(
            self.weapon_bindings@.len(),
            |i: int| (self.weapon_bindings@[i].key_code, self.weapon_bindings@[i].weapon_name@),
        )
    }

    /// No key is bound twice.
    pub open spec fn wf(&self) -> bool {
        forall|i: int, j: int|
            0 <= i < j < self.weapon_bindings@.len() ==> (#[trigger] self.weapon_bindings@[i]).key_code
                != (#[trigger] self.weapon_bindings@[j]).key_code
    }

    pub open spec fn has_key(&self, key: i32) -> bool {
        exists|i: int| 0 <= i < self.weapon_bindings@.len() && (#[trigger] self.weapon_bindings@[i]).key_code == key
    }

    /// The keys checked, in order, with the command each stands for.
    pub open spec fn watch_list(&self) -> Seq<(i32, CommandView)> {
        seq![
            (self.exit_key, CommandView::Exit),
            (self.toggle_key, CommandView::ToggleRcs),
            (self.hide_key, CommandView::HideToggle),
        ] + Seq::new(
            self.weapon_bindings@.len(),
            |i: int|
                (
                    self.weapon_bindings@[i].key_code,
                    CommandView::SelectWeapon(self.weapon_bindings@[i].weapon_name@),
                ),
        )
    }

    /// A handler with End to exit, F1 to toggle, F2 to hide, no weapon
    /// bindings, no channel, and no key held.
    pub fn new() -> (r: Self)
        ensures
            r.wf(),
            r.exit_key == VK_END,
            r.toggle_key == VK_F1,
            r.hide_key == VK_F2,
            r.weapon_bindings@.len() == 0,
            r.sender is None,
            r.prev_states@ == Map::<i32, bool>::empty(),
    {
        HotkeyHandler {
            weapon_bindings: Vec::new(),
            exit_key: VK_END,
            toggle_key: VK_F1,
            hide_key: VK_F2,
            sender: None,
            prev_states: HashMap::new(),
        }
    }

    /// Sets the channel that the commands are sent on.
    pub fn set_sender(&mut self, sender: Sender<HotkeyCommand>)
        ensures
            final(self).sender == Some(sender),
            final(self).weapon_bindings == old(self).weapon_bindings,
            final(self).exit_key == old(self).exit_key,
            final(self).toggle_key == old(self).toggle_key,
            final(self).hide_key == old(self).hide_key,
            final(self).prev_states == old(self).prev_states,
    {
        self.sender = Some(sender);
    }

    /// Sets the exit key.
    pub fn set_exit_key(&mut self, key_code: i32)
        ensures
            *final(self) == (HotkeyHandler { exit_key: key_code, ..*old(self) }),
    {
        self.exit_key = key_code;
    }

    /// Sets the key that toggles compensation.
    pub fn set_toggle_key(&mut self, key_code: i32)
        ensures
            *final(self) == (HotkeyHandler { toggle_key: key_code, ..*old(self) }),
    {
        self.toggle_key = key_code;
    }

    /// Sets the key that hides and shows the window.
    pub fn set_hide_key(&mut self, key_code: i32)
        ensures
            *final(self) == (HotkeyHandler { hide_key: key_code, ..*old(self) }),
    {
        self.hide_key = key_code;
    }

    /// Binds `key_code` to `weapon_name`: replaces the weapon of a key that
    /// is already bound, in its place, and appends a new key at the end.
    pub fn bind_weapon(&mut self, key_code: i32, weapon_name: String)
        requires
            old(self).wf(),
        ensures
            final(self).wf(),
            old(self).has_key(key_code) ==> exists|i: int|
                0 <= i < old(self).bindings().len() && old(self).bindings()[i].0 == key_code
                    && final(self).bindings() == old(self).bindings().update(i, (key_code, weapon_name@)),
            !old(self).has_key(key_code) ==> final(self).bindings() == old(self).bindings().push(
                (key_code, weapon_name@),
            ),
            final(self).exit_key == old(self).exit_key,
            final(self).toggle_key == old(self).toggle_key,
            final(self).hide_key == old(self).hide_key,
            final(self).prev_states == old(self).prev_states,
            final(self).sender == old(self).sender,
    {
        let n = self.weapon_bindings.len();
        let mut i: usize = 0;
        while i < n
            invariant
                0 <= i <= n,
                n == self.weapon_bindings@.len(),
                *self == *old(self),
                old(self).wf(),
                forall|j: int| 0 <= j < i ==> (#[trigger] self.weapon_bindings@[j]).key_code != key_code,
            decreases n - i,
        {
            if self.weapon_bindings[i].key_code == key_code {
                let ghost before = self.bindings();
                self.weapon_bindings.set(i, WeaponBinding { key_code, weapon_name });
                assert(self.bindings() =~= before.update(i as int, (key_code, weapon_name@)));
                assert forall|a: int, b: int|
                    0 <= a < b < self.weapon_bindings@.len() implies (#[trigger] self.weapon_bindings@[a]).key_code
                    != (#[trigger] self.weapon_bindings@[b]).key_code by {
                    let ov = old(self).weapon_bindings@;
                    assert(ov[a].key_code != ov[b].key_code);
                    assert(ov[i as int].key_code == key_code);
                    if a != i as int && b != i as int {
                        assert(self.weapon_bindings@[a] == ov[a]);
                        assert(self.weapon_bindings@[b] == ov[b]);
                    } else if a == i as int {
                        assert(self.weapon_bindings@[a].key_code == key_code);
                        assert(self.weapon_bindings@[b] == ov[b]);
                    } else {
                        assert(self.weapon_bindings@[b].key_code == key_code);
                        assert(self.weapon_bindings@[a] == ov[a]);
                    }
                }
                return;
            }
            i = i + 1;
        }
        let ghost before = self.bindings();
        assert(!old(self).has_key(key_code));
        self.weapon_bindings.push(WeaponBinding { key_code, weapon_name });
        assert(self.bindings() =~= before.push((key_code, weapon_name@)));
        assert forall|a: int, b: int|
            0 <= a < b < self.weapon_bindings@.len() implies (#[trigger] self.weapon_bindings@[a]).key_code
            != (#[trigger] self.weapon_bindings@[b]).key_code by {
            assert(self.weapon_bindings@[a] == old(self).weapon_bindings@[a]);
            if b < n {
                assert(self.weapon_bindings@[b] == old(self).weapon_bindings@[b]);
            }
        }
    }

    /// Removes the binding of `key_code`, if any, keeping the others in order.
    pub fn unbind_weapon(&mut self, key_code: i32)
        requires
            old(self).wf(),
        ensures
            final(self).wf(),
            old(self).has_key(key_code) ==> exists|i: int|
                0 <= i < old(self).bindings().len() && old(self).bindings()[i].0 == key_code
                    && final(self).bindings() == old(self).bindings().remove(i),
            !old(self).has_key(key_code) ==> final(self).bindings() == old(self).bindings(),
            !final(self).has_key(key_code),
            final(self).exit_key == old(self).exit_key,
            final(self).toggle_key == old(self).toggle_key,
            final(self).hide_key == old(self).hide_key,
            final(self).prev_states == old(self).prev_states,
            final(self).sender == old(self).sender,
    {
        let n = self.weapon_bindings.len();
        let mut i: usize = 0;
        while i < n
            invariant
                0 <= i <= n,
                n == self.weapon_bindings@.len(),
                *self == *old(self),
                old(self).wf(),
                forall|j: int| 0 <= j < i ==> (#[trigger] self.weapon_bindings@[j]).key_code != key_code,
            decreases n - i,
        {
            if self.weapon_bindings[i].key_code == key_code {
                let ghost before = self.bindings();
                let ghost old_v = self.weapon_bindings@;
                let _removed = self.weapon_bindings.remove(i);
                assert(self.bindings() =~= before.remove(i as int));
                assert forall|a: int, b: int|
                    0 <= a < b < self.weapon_bindings@.len() implies (#[trigger] self.weapon_bindings@[a]).key_code
                    != (#[trigger] self.weapon_bindings@[b]).key_code by {
                    let a0 = if a < i { a } else { a + 1 };
                    let b0 = if b < i { b } else { b + 1 };
                    assert(self.weapon_bindings@[a] == old_v[a0]);
                    assert(self.weapon_bindings@[b] == old_v[b0]);
                    assert(a0 < b0);
                    assert(old_v[a0].key_code != old_v[b0].key_code);
                }
                assert forall|j: int| 0 <= j < self.weapon_bindings@.len() implies (#[trigger] self.weapon_bindings@[j]).key_code != key_code by {
                    let j0 = if j < i { j } else { j + 1 };
                    assert(self.weapon_bindings@[j] == old_v[j0]);
                    if j0 < i as int {
                        assert(old_v[j0].key_code != old_v[i as int].key_code);
                    } else if j0 > i as int {
                        assert(old_v[i as int].key_code != old_v[j0].key_code);
                    }
                }
                return;
            }
            i = i + 1;
        }
    }

    /// Checks the watched keys (exit, toggle, hide, then each weapon
    /// binding in order) against `pressed`, the keys held down now. A key
    /// that is down now and was not down at its previous check fires its
    /// command. Nothing is checked while no channel is set; otherwise the
    /// fired commands are sent on it, and also returned in order.
    pub fn check_hotkeys(&mut self, pressed: &Vec<i32>) -> (r: Vec<HotkeyCommand>)
        ensures
            old(self).sender is None ==> r@.len() == 0 && *final(self) == *old(self),
            old(self).sender is Some ==> (pressed_keys(final(self).prev_states@), command_views(r@)) == scan(
                pressed_keys(old(self).prev_states@),
                key_set(pressed@),
                old(self).watch_list(),
            ),
            final(self).weapon_bindings == old(self).weapon_bindings,
            final(self).exit_key == old(self).exit_key,
            final(self).toggle_key == old(self).toggle_key,
            final(self).hide_key == old(self).hide_key,
            final(self).sender == old(self).sender,
    {
        let mut out: Vec<HotkeyCommand> = Vec::new();
        if self.sender.is_none() {
            return out;
        }
        let ghost watch = self.watch_list();
        let ghost down = key_set(pressed@);
        proof {
            assert(watch.subrange(0, 0) =~= Seq::<(i32, CommandView)>::empty());
            assert(command_views(out@) =~= Seq::<CommandView>::empty());
            assert(watch.subrange(0, 1).drop_last() =~= watch.subrange(0, 0));
            assert(watch.subrange(0, 2).drop_last() =~= watch.subrange(0, 1));
            assert(watch.subrange(0, 3).drop_last() =~= watch.subrange(0, 2));
        }
        let exit_key = self.exit_key;
        let toggle_key = self.toggle_key;
        let hide_key = self.hide_key;
        let ghost h0 = pressed_keys(old(self).prev_states@);
        assert(scan(h0, down, watch.subrange(0, 0)) == (h0, Seq::<CommandView>::empty()));
        assert(watch[0] == (exit_key, CommandView::Exit));
        assert(watch[1] == (toggle_key, CommandView::ToggleRcs));
        assert(watch[2] == (hide_key, CommandView::HideToggle));
        assert(watch.subrange(0, 1).last() == watch[0]);
        assert(watch.subrange(0, 2).last() == watch[1]);
        assert(watch.subrange(0, 3).last() == watch[2]);
        self.fire_if_pressed(exit_key, HotkeyCommand::Exit, pressed, &mut out);
        assert((pressed_keys(self.prev_states@), command_views(out@)) == scan(h0, down, watch.subrange(0, 1)));
        self.fire_if_pressed(toggle_key, HotkeyCommand::ToggleRcs, pressed, &mut out);
        assert((pressed_keys(self.prev_states@), command_views(out@)) == scan(h0, down, watch.subrange(0, 2)));
        self.fire_if_pressed(hide_key, HotkeyCommand::HideToggle, pressed, &mut out);
        assert((pressed_keys(self.prev_states@), command_views(out@)) == scan(h0, down, watch.subrange(0, 3)));
        let n = self.weapon_bindings.len();
        let mut j: usize = 0;
        while j < n
            invariant
                0 <= j <= n,
                n == self.weapon_bindings@.len(),
                watch == old(self).watch_list(),
                watch.len() == n + 3,
                down == key_set(pressed@),
                self.sender is Some,
                self.weapon_bindings == old(self).weapon_bindings,
                self.exit_key == old(self).exit_key,
                self.toggle_key == old(self).toggle_key,
                self.hide_key == old(self).hide_key,
                self.sender == old(self).sender,
                (pressed_keys(self.prev_states@), command_views(out@)) == scan(
                    pressed_keys(old(self).prev_states@),
                    down,
                    watch.subrange(0, j + 3),
                ),
            decreases n - j,
        {
            let key = self.weapon_bindings[j].key_code;
            let cmd = HotkeyCommand::SelectWeapon(self.weapon_bindings[j].weapon_name.clone());
            assert(watch.subrange(0, j + 4).drop_last() =~= watch.subrange(0, j + 3));
            assert(watch[j + 3] == (key, cmd@));
            assert(watch.subrange(0, j + 4).last() == watch[j + 3]);
            self.fire_if_pressed(key, cmd, pressed, &mut out);
            j = j + 1;
        }
        assert(watch.subrange(0, n + 3) =~= watch);
        out
    }

    /// One check: fires `cmd` (sends it and appends it to `out`) when `key`
    /// is down now and was not at its previous check, then records its state.
    fn fire_if_pressed(&mut self, key: i32, cmd: HotkeyCommand, pressed: &Vec<i32>, out: &mut Vec<HotkeyCommand>)
        requires
            old(self).sender is Some,
        ensures
            (pressed_keys(final(self).prev_states@), command_views(final(out)@)) == scan_step(
                (pressed_keys(old(self).prev_states@), command_views(old(out)@)),
                key_set(pressed@),
                (key, cmd@),
            ),
            final(self).weapon_bindings == old(self).weapon_bindings,
            final(self).exit_key == old(self).exit_key,
            final(self).toggle_key == old(self).toggle_key,
            final(self).hide_key == old(self).hide_key,
            final(self).sender == old(self).sender,
    {
        let is_down = contains_key(pressed, key);
        let was_down = match self.prev_states.get(&key) {
            Some(v) => *v,
            None => false,
        };
        if is_down && !was_down {
            match &self.sender {
                Some(s) => send_command(s, cmd.duplicate()),
                None => {},
            }
            let ghost before = out@;
            out.push(cmd);
            assert(command_views(out@) =~= command_views(before).push(cmd@));
        }
        let ghost before = self.prev_states@;
        self.prev_states.insert(key, is_down);
        proof {
            if is_down {
                assert(pressed_keys(self.prev_states@) =~= pressed_keys(before).insert(key));
            } else {
                assert(pressed_keys(self.prev_states@) =~= pressed_keys(before).remove(key));
            }
        }
    }
}

} // verus!
