//! Keyboard shortcuts: the set of keys held down, the frame counter that
//! delays a shortcut, and the choice of the action.

use vstd::prelude::*;

verus! {

/// The keys that take part in a shortcut. `LWin` is the platform
/// modifier.
#[derive(Clone, Copy, Debug, PartialEq, Eq, Structural)]
pub enum Key {
    S,
    F,
    O,
    LShift,
    LWin,
}

/// What a shortcut asks the editor to do.
#[derive(Clone, Copy, Debug, PartialEq, Eq, Structural)]
pub enum ShortcutAction {
    /// No shortcut was recognised.
    Nothing,
    /// Write the document to the active files.
    Save,
    /// Search across files: reserved, nothing is done for it.
    SearchFiles,
    /// Open the open-file dialog, or close it.
    ToggleOpenDialog,
    /// Open the search bar, or close it.
    ToggleSearch,
}

/// The shortcut keys that are held down: a set of `Key`, held as one flag
/// for each key. vstd's model of `HashSet` covers integer keys and has
/// nothing to say of a set over an enum of this crate.
#[derive(Clone, Copy, Debug)]
pub struct PressedKeys {
    s: bool,
    f: bool,
    o: bool,
    lshift: bool,
    lwin: bool,
}

/// The action of the shortcut that `keys` spell, by precedence: save,
/// search across files, the open-file dialog, search in the document.
pub open spec fn shortcut(keys: Set<Key>) -> ShortcutAction {
    if keys.contains(Key::LWin) && keys.contains(Key::S) {
        ShortcutAction::Save
    } else if keys.contains(Key::LWin) && keys.contains(Key::LShift) && keys.contains(Key::F) {
        ShortcutAction::SearchFiles
    } else if keys.contains(Key::LWin) && keys.contains(Key::O) {
        ShortcutAction::ToggleOpenDialog
    } else if keys.contains(Key::LWin) && keys.contains(Key::F) {
        ShortcutAction::ToggleSearch
    } else {
        ShortcutAction::Nothing
    }
}

/// A flag after an action that may toggle it.
pub open spec fn toggled(flag: bool, toggle: bool) -> bool {
    flag != toggle
}

impl PressedKeys {
    /// Whether `key` is held down.
    pub closed spec fn holds(&self, key: Key) -> bool {
        match key {
            Key::S => self.s,
            Key::F => self.f,
            Key::O => self.o,
            Key::LShift => self.lshift,
            Key::LWin => self.lwin,
        }
    }

    /// No key held down.
    pub fn new() -> (keys: Self)
        ensures
            keys@ == Set::<Key>::empty(),
    {
        let keys = PressedKeys { s: false, f: false, o: false, lshift: false, lwin: false };
        assert(keys@ =~= Set::<Key>::empty());
        keys
    }

    /// Records that `key` went down.
    pub fn press(&mut self, key: Key)
        ensures
            final(self)@ == old(self)@.insert(key),
    {
        match key {
            Key::S => { self.s = true; },
            Key::F => { self.f = true; },
            Key::O => { self.o = true; },
            Key::LShift => { self.lshift = true; },
            Key::LWin => { self.lwin = true; },
        }
        assert(self@ =~= old(self)@.insert(key));
    }

    /// Records that `key` went up.
    pub fn release(&mut self, key: Key)
        ensures
            final(self)@ == old(self)@.remove(key),
    {
        match key {
            Key::S => { self.s = false; },
            Key::F => { self.f = false; },
            Key::O => { self.o = false; },
            Key::LShift => { self.lshift = false; },
            Key::LWin => { self.lwin = false; },
        }
        assert(self@ =~= old(self)@.remove(key));
    }

    /// Whether `key` is held down.
    pub fn contains(&self, key: Key) -> (held: bool)
        ensures
            held == self@.contains(key),
    {
        match key {
            Key::S => self.s,
            Key::F => self.f,
            Key::O => self.o,
            Key::LShift => self.lshift,
            Key::LWin => self.lwin,
        }
    }

    /// Forgets every key.
    pub fn clear(&mut self)
        ensures
            final(self)@ == Set::<Key>::empty(),
    {
        self.s = false;
        self.f = false;
        self.o = false;
        self.lshift = false;
        self.lwin = false;
        assert(self@ =~= Set::<Key>::empty());
    }

    /// How many keys are held down.
    pub fn len(&self) -> (count: usize)
        ensures
            count == self@.len(),
            self@.finite(),
    {
        let ghost none = Set::<Key>::empty();
        let ghost upto_s = if self.s { none.insert(Key::S) } else { none };
        let ghost upto_f = if self.f { upto_s.insert(Key::F) } else { upto_s };
        let ghost upto_o = if self.o { upto_f.insert(Key::O) } else { upto_f };
        let ghost upto_lshift = if self.lshift { upto_o.insert(Key::LShift) } else { upto_o };
        let ghost upto_lwin = if self.lwin { upto_lshift.insert(Key::LWin) } else { upto_lshift };
        let mut count: usize = 0;
        if self.s {
            count += 1;
        }
        assert(count == upto_s.len() && upto_s.finite());
        if self.f {
            count += 1;
        }
        assert(count == upto_f.len() && upto_f.finite());
        if self.o {
            count += 1;
        }
        assert(count == upto_o.len() && upto_o.finite());
        if self.lshift {
            count += 1;
        }
        assert(count == upto_lshift.len() && upto_lshift.finite());
        if self.lwin {
            count += 1;
        }
        assert(count == upto_lwin.len() && upto_lwin.finite());
        assert(self@ =~= upto_lwin);
        count
    }
}

impl View for PressedKeys {
    type V = Set<Key>;

    open spec fn view(&self) -> Set<Key> {
        Set::new(|key: Key| self.holds(key))
    }
}

/// The number of frames for which a shortcut is held back.
pub const DISPATCH_FRAMES: u8 = 4;

/// The frame counter that delays a shortcut: it counts the frames during
/// which more than one key is held down, and never passes
/// `DISPATCH_FRAMES`.
#[derive(Clone, Copy, Debug)]
pub struct ShortcutTimer {
    frames: u8,
}

impl ShortcutTimer {
    #[verifier::type_invariant]
    spec fn in_range(&self) -> bool {
        self.frames <= DISPATCH_FRAMES
    }

    /// The frames counted so far.
    pub closed spec fn elapsed(&self) -> nat {
        self.frames as nat
    }

    /// A counter at zero.
    pub fn new() -> (timer: Self)
        ensures
            timer.elapsed() == 0,
    {
        ShortcutTimer { frames: 0 }
    }

    /// The frames counted so far.
    pub fn frames(&self) -> (frames: u8)
        ensures
            frames == self.elapsed(),
            frames <= DISPATCH_FRAMES,
    {
        proof {
            use_type_invariant(self);
        }
        self.frames
    }

    /// Counts one frame in which `pressed` keys are held down, and says
    /// whether the shortcut is due in this frame.
    ///
    /// With at most one key held the counter goes back to zero. With more
    /// it goes up by one, until it stands at `DISPATCH_FRAMES`: in that
    /// frame the shortcut is due and the counter goes back to zero.
    pub fn tick(&mut self, pressed: usize) -> (due: bool)
        ensures
            due == (pressed > 1 && old(self).elapsed() == DISPATCH_FRAMES),
            final(self).elapsed() == if pressed > 1 && old(self).elapsed() < DISPATCH_FRAMES {
                old(self).elapsed() + 1
            } else {
                0
            },
    {
        proof {
            use_type_invariant(&*self);
        }
        if pressed > 1 && self.frames == DISPATCH_FRAMES {
            self.frames = 0;
            true
        } else if pressed > 1 {
            self.frames = self.frames + 1;
            false
        } else {
            self.frames = 0;
            false
        }
    }
}

/// Acts on the shortcut that the held keys spell and forgets the keys.
///
/// The two flags are toggled by their shortcuts and by nothing else. A
/// save is not carried out here: the action says that it is due.
pub fn process_multiple_keys(
    pressed_keys: &mut PressedKeys,
    search_open: &mut bool,
    open_file_modal_open: &mut bool,
) -> (action: ShortcutAction)
    ensures
        action == shortcut(old(pressed_keys)@),
        final(pressed_keys)@ == Set::<Key>::empty(),
        *final(search_open) == toggled(*old(search_open), action == ShortcutAction::ToggleSearch),
        *final(open_file_modal_open) == toggled(
            *old(open_file_modal_open),
            action == ShortcutAction::ToggleOpenDialog,
        ),
{
    let modifier = pressed_keys.contains(Key::LWin);
    let action = if modifier && pressed_keys.contains(Key::S) {
        ShortcutAction::Save
    } else if modifier && pressed_keys.contains(Key::LShift) && pressed_keys.contains(Key::F) {
        ShortcutAction::SearchFiles
    } else if modifier && pressed_keys.contains(Key::O) {
        *open_file_modal_open = !*open_file_modal_open;
        ShortcutAction::ToggleOpenDialog
    } else if modifier && pressed_keys.contains(Key::F) {
        *search_open = !*search_open;
        ShortcutAction::ToggleSearch
    } else {
        ShortcutAction::Nothing
    };
    pressed_keys.clear();
    action
}

} // verus!
