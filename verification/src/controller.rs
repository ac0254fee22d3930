use vstd::prelude::*;

verus! {

/// All commands that the player can give to the game.
#[derive(Clone, Copy, Debug, PartialEq, Eq, Structural, Hash)]
pub enum Command {
    /// Move the player character to the left.
    MoveLeft,
    /// Move the player character to the right.
    MoveRight,
    /// Cast the first spell of the spell bar.
    Spell0,
    /// Cast the second spell of the spell bar.
    Spell1,
    /// Cast the third spell of the spell bar.
    Spell2,
    /// Cast the fourth spell of the spell bar.
    Spell3,
    /// No command.
    NoCommand,
}

impl Default for Command {
    fn default() -> (r: Self)
        ensures
            r == Command::NoCommand,
    {
        Command::NoCommand
    }
}

/// The command that casts the spell in bar position `index`, if there is one.
pub open spec fn spell_command(index: int) -> Command {
    if index == 0 {
        Command::Spell0
    } else if index == 1 {
        Command::Spell1
    } else if index == 2 {
        Command::Spell2
    } else if index == 3 {
        Command::Spell3
    } else {
        Command::NoCommand
    }
}

impl Command {
    /// The command that casts the spell in bar position `index`
    /// (`None` past the fourth position).
    pub fn spell_from_int(index: usize) -> (r: Self)
        ensures
            r == spell_command(index as int),
    {
        match index {
            0 => Command::Spell0,
            1 => Command::Spell1,
            2 => Command::Spell2,
            3 => Command::Spell3,
            _ => Command::NoCommand,
        }
    }
}

/// What the player did in the last frame: the commands given, and the
/// time the frame took, in nanoseconds.
pub struct Interactions {
    /// The commands given in the last frame, each at most once.
    pub commands: Vec<Command>,
    /// The time spent in the last frame, in nanoseconds.
    pub delta: u64,
}

impl Interactions {
    /// A frame of the given length in which no command was given.
    pub fn new(delta: u64) -> (r: Self)
        ensures
            r.commands@ == Seq::<Command>::empty(),
            r.delta == delta,
    {
        Interactions { commands: Vec::new(), delta }
    }

    /// Whether `command` was given in this frame.
    pub fn contains(&self, command: Command) -> (r: bool)
        ensures
            r == self.commands@.contains(command),
    {
        let mut i: usize = 0;
        while i < self.commands.len()
            invariant
                i <= self.commands.len(),
                forall|j: int| 0 <= j < i ==> self.commands@[j] != command,
            decreases self.commands.len() - i,
        {
            if self.commands[i] == command {
                return true;
            }
            i = i + 1;
        }
        false
    }

    /// Records that `command` was given in this frame.
    pub fn insert(&mut self, command: Command)
        ensures
            final(self).delta == old(self).delta,
            forall|c: Command| final(self).commands@.contains(c) <==> (old(self).commands@.contains(c) || c == command),
            old(self).commands@.no_duplicates() ==> final(self).commands@.no_duplicates(),
    {
        if !self.contains(command) {
            self.commands.push(command);
            proof {
                assert forall|c: Command| self.commands@.contains(c) implies (old(self).commands@.contains(c) || c == command) by {
                    let k = choose|k: int| 0 <= k < self.commands@.len() && self.commands@[k] == c;
                    if k < old(self).commands@.len() {
                        assert(old(self).commands@[k] == c);
                    }
                }
                assert forall|c: Command| (old(self).commands@.contains(c) || c == command) implies self.commands@.contains(c) by {
                    if c == command {
                        assert(self.commands@[self.commands@.len() - 1] == c);
                    } else {
                        let k = choose|k: int| 0 <= k < old(self).commands@.len() && old(self).commands@[k] == c;
                        assert(self.commands@[k] == c);
                    }
                }
            }
        }
    }
}

/// The keys that the game's controls can use.
#[derive(Clone, Copy, Debug, PartialEq, Eq, Structural, Hash)]
pub enum Key {
    A,
    D,
    Left,
    Right,
    Y,
    Z,
    J,
    X,
    K,
    C,
    L,
    V,
    Semicolon,
}

/// A key and the command it gives.
#[derive(Clone, Copy, Debug, PartialEq, Eq, Structural)]
pub struct Mapping {
    pub key: Key,
    pub command: Command,
}

impl Mapping {
    pub fn new(key: Key, command: Command) -> (r: Self)
        ensures
            r == (Mapping { key, command }),
    {
        Mapping { key, command }
    }
}

/// The interface between the player and the game: which keys give which
/// commands.
pub struct Controller {
    /// The key bindings, in order.
    pub command_map: Vec<Mapping>,
}

/// The game's standard key bindings.
pub open spec fn default_mappings() -> Seq<Mapping> {
    seq![
        Mapping { key: Key::A, command: Command::MoveLeft },
        Mapping { key: Key::D, command: Command::MoveRight },
        Mapping { key: Key::Left, command: Command::MoveLeft },
        Mapping { key: Key::Right, command: Command::MoveRight },
        Mapping { key: Key::Y, command: Command::Spell0 },
        Mapping { key: Key::Z, command: Command::Spell0 },
        Mapping { key: Key::J, command: Command::Spell0 },
        Mapping { key: Key::X, command: Command::Spell1 },
        Mapping { key: Key::K, command: Command::Spell1 },
        Mapping { key: Key::C, command: Command::Spell2 },
        Mapping { key: Key::L, command: Command::Spell2 },
        Mapping { key: Key::V, command: Command::Spell3 },
        Mapping { key: Key::Semicolon, command: Command::Spell3 },
    ]
}

impl Default for Controller {
    fn default() -> (r: Self)
        ensures
            r.command_map@ == default_mappings(),
    {
        let command_map = vec![
            Mapping::new(Key::A, Command::MoveLeft),
            Mapping::new(Key::D, Command::MoveRight),
            Mapping::new(Key::Left, Command::MoveLeft),
            Mapping::new(Key::Right, Command::MoveRight),
            Mapping::new(Key::Y, Command::Spell0),
            Mapping::new(Key::Z, Command::Spell0),
            Mapping::new(Key::J, Command::Spell0),
            Mapping::new(Key::X, Command::Spell1),
            Mapping::new(Key::K, Command::Spell1),
            Mapping::new(Key::C, Command::Spell2),
            Mapping::new(Key::L, Command::Spell2),
            Mapping::new(Key::V, Command::Spell3),
            Mapping::new(Key::Semicolon, Command::Spell3),
        ];
        assert(command_map@ =~= default_mappings());
        Controller { command_map }
    }
}

/// Whether one of the bindings gives `command` through a pressed key.
pub open spec fn commanded(map: Seq<Mapping>, pressed: Seq<Key>, command: Command) -> bool {
    exists|i: int| 0 <= i < map.len() && #[trigger] map[i].command == command && pressed.contains(map[i].key)
}

impl Controller {
    /// The interactions of a frame: every command that a pressed key is
    /// bound to, each once, and the frame's length.
    pub fn get_interactions(&self, pressed: &[Key], delta: u64) -> (r: Interactions)
        ensures
            r.delta == delta,
            r.commands@.no_duplicates(),
            forall|c: Command| r.commands@.contains(c) <==> commanded(self.command_map@, pressed@, c),
    {
        let mut inter = Interactions::new(delta);
        let mut i: usize = 0;
        while i < self.command_map.len()
            invariant
                i <= self.command_map@.len(),
                inter.delta == delta,
                inter.commands@.no_duplicates(),
                forall|c: Command| inter.commands@.contains(c) <==> commanded(self.command_map@.subrange(0, i as int), pressed@, c),
            decreases self.command_map@.len() - i,
        {
            let m = self.command_map[i];
            let mut down = false;
            let mut j: usize = 0;
            while j < pressed.len()
                invariant
                    j <= pressed@.len(),
                    down <==> pressed@.subrange(0, j as int).contains(m.key),
                decreases pressed@.len() - j,
            {
                if pressed[j] == m.key {
                    down = true;
                }
                proof {
                    let next = pressed@.subrange(0, j as int + 1);
                    assert(next =~= pressed@.subrange(0, j as int).push(pressed@[j as int]));
                    if pressed@[j as int] == m.key {
                        assert(next[j as int] == m.key);
                    }
                    if pressed@.subrange(0, j as int).contains(m.key) {
                        let w = choose|w: int| 0 <= w < j && pressed@.subrange(0, j as int)[w] == m.key;
                        assert(next[w] == m.key);
                    }
                    if next.contains(m.key) && !pressed@.subrange(0, j as int).contains(m.key) {
                        let w = choose|w: int| 0 <= w < j + 1 && next[w] == m.key;
                        if w < j {
                            assert(pressed@.subrange(0, j as int)[w] == m.key);
                        }
                    }
                }
                j = j + 1;
            }
            assert(pressed@.subrange(0, pressed@.len() as int) =~= pressed@);
            let ghost before = inter.commands@;
            if down {
                inter.insert(m.command);
            }
            proof {
                let pre = self.command_map@.subrange(0, i as int);
                let cur = self.command_map@.subrange(0, i as int + 1);
                assert forall|c: Command| inter.commands@.contains(c) <==> commanded(cur, pressed@, c) by {
                    if commanded(pre, pressed@, c) {
                        let w = choose|w: int| 0 <= w < pre.len() && #[trigger] pre[w].command == c && pressed@.contains(pre[w].key);
                        assert(cur[w] == pre[w]);
                    }
                    if commanded(cur, pressed@, c) {
                        let w = choose|w: int| 0 <= w < cur.len() && #[trigger] cur[w].command == c && pressed@.contains(cur[w].key);
                        if w < i {
                            assert(pre[w] == cur[w]);
                        } else {
                            assert(cur[w] == m);
                        }
                    }
                    if down {
                        assert(cur[i as int] == m);
                    }
                }
            }
            i = i + 1;
        }
        assert(self.command_map@.subrange(0, self.command_map@.len() as int) =~= self.command_map@);
        inter
    }
}

/// What a controlled entity is ordered to do in a frame.
pub struct ControlOrders {
    /// The horizontal direction of movement: -1 left, 0 none, 1 right.
    pub direction: i8,
    /// The sprite variant to show: 0 idle, 1 walking right, 2 walking left.
    pub sprite_variant: u32,
    /// The spell bar positions to cast, in ascending order.
    pub casts: Vec<usize>,
}

/// Translates the commands of a frame into the orders of a controlled entity:
/// a movement direction, the sprite variant that goes with it, and the
/// spells to cast.
pub fn control(ix: &Interactions) -> (r: ControlOrders)
    ensures
        r.direction == (if ix.commands@.contains(Command::MoveRight) { 1int } else { 0int })
            - (if ix.commands@.contains(Command::MoveLeft) { 1int } else { 0int }),
        r.sprite_variant == (if ix.commands@.contains(Command::MoveRight) {
            1u32
        } else if ix.commands@.contains(Command::MoveLeft) {
            2u32
        } else {
            0u32
        }),
        forall|k: int| 0 <= k < r.casts@.len() ==> r.casts@[k] < 4,
        forall|k: int, l: int| 0 <= k < l < r.casts@.len() ==> r.casts@[k] < r.casts@[l],
        forall|i: usize| i < 4 ==> (r.casts@.contains(i) <==> ix.commands@.contains(spell_command(i as int))),
{
    let mut direction: i8 = 0;
    let mut sprite_variant: u32 = 0;
    if ix.contains(Command::MoveLeft) {
        direction = direction - 1;
        sprite_variant = 2;
    }
    if ix.contains(Command::MoveRight) {
        direction = direction + 1;
        sprite_variant = 1;
    }
    let mut casts: Vec<usize> = Vec::new();
    let mut i: usize = 0;
    while i < 4
        invariant
            i <= 4,
            forall|k: int| 0 <= k < casts@.len() ==> casts@[k] < i,
            forall|k: int, l: int| 0 <= k < l < casts@.len() ==> casts@[k] < casts@[l],
            forall|j: usize| j < i ==> (casts@.contains(j) <==> ix.commands@.contains(spell_command(j as int))),
        decreases 4 - i,
    {
        let ghost before = casts@;
        if ix.contains(Command::spell_from_int(i)) {
            casts.push(i);
            proof {
                assert forall|j: usize| j < i + 1 implies (casts@.contains(j) <==> ix.commands@.contains(spell_command(j as int))) by {
                    if j < i {
                        if casts@.contains(j) {
                            let k = choose|k: int| 0 <= k < casts@.len() && casts@[k] == j;
                            if k < before.len() {
                                assert(before[k] == j);
                            }
                        }
                        if before.contains(j) {
                            let k = choose|k: int| 0 <= k < before.len() && before[k] == j;
                            assert(casts@[k] == j);
                        }
                    } else {
                        assert(casts@[casts@.len() - 1] == j);
                    }
                }
            }
        } else {
            proof {
                assert forall|j: usize| j < i + 1 implies (casts@.contains(j) <==> ix.commands@.contains(spell_command(j as int))) by {
                    if j == i && casts@.contains(j) {
                        let k = choose|k: int| 0 <= k < casts@.len() && casts@[k] == j;
                        assert(casts@[k] < i);
                    }
                }
            }
        }
        i = i + 1;
    }
    ControlOrders { direction, sprite_variant, casts }
}

} // verus!
