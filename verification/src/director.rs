use vstd::prelude::*;
use crate::game_message::GameMessage;

verus! {

/// Nanoseconds in a second.
pub const NANOS_PER_SEC: u64 = 1_000_000_000;

/// The number of enemy kinds a wave is made of.
pub const WAVE_SIZE: usize = 4;

/// A random `usize`, drawn from the thread's random number generator.
///
/// Calls `rand::random::<usize>()`. Nothing is claimed of the value.
/// The call panics only if the operating system's generator cannot be
/// initialised, which no argument can rule out.
#[verifier::external_body]
fn random_usize() -> usize {
    rand::random::<usize>()
}

/// A kind of enemy that a director can spawn, with what the wave menu
/// shows of it.
#[derive(Clone, Debug)]
pub struct EnemyTemplate {
    /// The path of the enemy's icon.
    pub icon: String,
    /// The enemy's name.
    pub name: String,
    /// A short description of the enemy's abilities.
    pub description: String,
    cost: u32,
    spawner: usize,
}

impl EnemyTemplate {
    /// The path of the enemy's icon.
    pub closed spec fn icon_path(self) -> Seq<char> {
        self.icon@
    }

    /// The enemy's name.
    pub closed spec fn title(self) -> Seq<char> {
        self.name@
    }

    /// The enemy's description.
    pub closed spec fn about(self) -> Seq<char> {
        self.description@
    }

    /// The credits it costs to spawn this enemy.
    pub closed spec fn cost(self) -> u32 {
        self.cost
    }

    /// Which spawning routine puts this enemy into the world.
    pub closed spec fn spawner(self) -> usize {
        self.spawner
    }

    /// A new enemy template.
    pub fn new(icon: &str, name: &str, description: &str, cost: u32, spawner: usize) -> (r: Self)
        ensures
            r.icon_path() == icon@,
            r.title() == name@,
            r.about() == description@,
            r.cost() == cost,
            r.spawner() == spawner,
    {
        EnemyTemplate {
            icon: icon.to_owned(),
            name: name.to_owned(),
            description: description.to_owned(),
            cost,
            spawner,
        }
    }

    /// The credits it costs to spawn this enemy.
    pub fn get_cost(&self) -> (r: u32)
        ensures
            r == self.cost(),
    {
        self.cost
    }

    /// Which spawning routine puts this enemy into the world.
    pub fn get_spawner(&self) -> (r: usize)
        ensures
            r == self.spawner(),
    {
        self.spawner
    }
}

/// The spawning costs of the game's enemy kinds, in order.
pub open spec fn template_costs() -> Seq<u32> {
    seq![40u32, 70, 80, 80, 90, 110, 180, 100, 110, 150, 150, 170, 200, 200, 200, 220]
}

/// The icon paths of the game's enemy kinds, in order.
pub open spec fn template_icons() -> Seq<Seq<char>> {
    seq![
        "/sprites/enemies/skeleton_basic"@,
        "/sprites/enemies/skeleton_sword"@,
        "/sprites/enemies/skeleton_sword"@,
        "/sprites/enemies/skeleton_jump"@,
        "/sprites/enemies/skeleton_dynamite"@,
        "/sprites/enemies/catapult"@,
        "/sprites/enemies/skeleton_loot"@,
        "/sprites/enemies/skeleton_tank"@,
        "/sprites/enemies/skeleton_flag"@,
        "/sprites/enemies/skeleton_wizard"@,
        "/sprites/enemies/skeleton_wizard2"@,
        "/sprites/enemies/skeleton_wizard3"@,
        "/sprites/enemies/golem"@,
        "/sprites/enemies/ghost"@,
        "/sprites/enemies/armor"@,
        "/sprites/enemies/legionnaire"@,
    ]
}

/// The names of the game's enemy kinds, in order.
pub open spec fn template_names() -> Seq<Seq<char>> {
    seq![
        "Skeleton"@,
        "Runner"@,
        "Dodger"@,
        "Bone Jumper"@,
        "Dynamite Carrier"@,
        "Catapult"@,
        "Loot Goblin"@,
        "Guardian"@,
        "Bannerman"@,
        "Lightning Wizard"@,
        "Earth Wizard"@,
        "Necromancer"@,
        "Bone Golem"@,
        "Ghost"@,
        "Animated Armor"@,
        "Legionnaire"@,
    ]
}

/// The descriptions of the game's enemy kinds, in order.
pub open spec fn template_descriptions() -> Seq<Seq<char>> {
    seq![
        "A basic enemy. Neither strong nor fast, but expect a lot of them."@,
        "A nimble enemy that walks faster and also sideways, but has less health than the basic skeleton."@,
        "A nimble enemy that walks faster and slightly sideways, but has less health than the basic skeleton. It also does a short sprint from time to time."@,
        "A nimble enemy that rapidly jumps sideways when taking damage."@,
        "A basic skeleton with extra health and a bomb strapped to its back. Deals high damage to your city, but explodes on death."@,
        "A stationary siege weapons that regularly grabs nearby allies and catapults them towards the city."@,
        "An enemy that doesn't threaten your city but lingers at a fixed distance, disappearing after a time. Drops large amounts of gold on death."@,
        "An enemy that walks slowly, but reduces damage taken on nearby allies and heals them on death."@,
        "A skeleton with decent speed and suvivability. Speeds up nearby allies, with a huge speed bost on death."@,
        "A slow and flimsy enemy that regularly speeds up nearby allies and heals them."@,
        "A slow and flimsy enemy that regularly gives nearby allies a damage reducing shield and heals them."@,
        "A slow enemy that ressurects additional skeletons and can damage groups of enemies to increase their speed."@,
        "A slow and tanky enemy that spawns multiple smaller skeletons on death."@,
        "A slow enemy that, whenever it takes damage, speeds up and becomes temporarily immune."@,
        "A high-health creature that distributes damage taken amongst nearby allies and heals them on death."@,
        "A tanky enemy that periodically braces itself, slowing down while gaining high damage reduction."@,
    ]
}

/// The game's enemy kinds; template `i` is spawned by routine `i`.
pub fn generate_templates() -> (r: Vec<EnemyTemplate>)
    ensures
        r@.len() == template_costs().len(),
        forall|i: int| 0 <= i < r@.len() ==> #[trigger] r@[i].cost() == template_costs()[i] && r@[i].spawner() == i,
        forall|i: int| 0 <= i < r@.len() ==> #[trigger] r@[i].title() == template_names()[i]
            && r@[i].about() == template_descriptions()[i] && r@[i].icon_path() == template_icons()[i],
{
    let mut v: Vec<EnemyTemplate> = Vec::new();
    v.push(EnemyTemplate::new("/sprites/enemies/skeleton_basic", "Skeleton",
        "A basic enemy. Neither strong nor fast, but expect a lot of them.", 40, 0));
    v.push(EnemyTemplate::new("/sprites/enemies/skeleton_sword", "Runner",
        "A nimble enemy that walks faster and also sideways, but has less health than the basic skeleton.", 70, 1));
    v.push(EnemyTemplate::new("/sprites/enemies/skeleton_sword", "Dodger",
        "A nimble enemy that walks faster and slightly sideways, but has less health than the basic skeleton. It also does a short sprint from time to time.", 80, 2));
    v.push(EnemyTemplate::new("/sprites/enemies/skeleton_jump", "Bone Jumper",
        "A nimble enemy that rapidly jumps sideways when taking damage.", 80, 3));
    v.push(EnemyTemplate::new("/sprites/enemies/skeleton_dynamite", "Dynamite Carrier",
        "A basic skeleton with extra health and a bomb strapped to its back. Deals high damage to your city, but explodes on death.", 90, 4));
    v.push(EnemyTemplate::new("/sprites/enemies/catapult", "Catapult",
        "A stationary siege weapons that regularly grabs nearby allies and catapults them towards the city.", 110, 5));
    v.push(EnemyTemplate::new("/sprites/enemies/skeleton_loot", "Loot Goblin",
        "An enemy that doesn't threaten your city but lingers at a fixed distance, disappearing after a time. Drops large amounts of gold on death.", 180, 6));
    v.push(EnemyTemplate::new("/sprites/enemies/skeleton_tank", "Guardian",
        "An enemy that walks slowly, but reduces damage taken on nearby allies and heals them on death.", 100, 7));
    v.push(EnemyTemplate::new("/sprites/enemies/skeleton_flag", "Bannerman",
        "A skeleton with decent speed and suvivability. Speeds up nearby allies, with a huge speed bost on death.", 110, 8));
    v.push(EnemyTemplate::new("/sprites/enemies/skeleton_wizard", "Lightning Wizard",
        "A slow and flimsy enemy that regularly speeds up nearby allies and heals them.", 150, 9));
    v.push(EnemyTemplate::new("/sprites/enemies/skeleton_wizard2", "Earth Wizard",
        "A slow and flimsy enemy that regularly gives nearby allies a damage reducing shield and heals them.", 150, 10));
    v.push(EnemyTemplate::new("/sprites/enemies/skeleton_wizard3", "Necromancer",
        "A slow enemy that ressurects additional skeletons and can damage groups of enemies to increase their speed.", 170, 11));
    v.push(EnemyTemplate::new("/sprites/enemies/golem", "Bone Golem",
        "A slow and tanky enemy that spawns multiple smaller skeletons on death.", 200, 12));
    v.push(EnemyTemplate::new("/sprites/enemies/ghost", "Ghost",
        "A slow enemy that, whenever it takes damage, speeds up and becomes temporarily immune.", 200, 13));
    v.push(EnemyTemplate::new("/sprites/enemies/armor", "Animated Armor",
        "A high-health creature that distributes damage taken amongst nearby allies and heals them on death.", 200, 14));
    v.push(EnemyTemplate::new("/sprites/enemies/legionnaire", "Legionnaire",
        "A tanky enemy that periodically braces itself, slowing down while gaining high damage reduction.", 220, 15));
    v
}

/// The phase a [Director] is in. One round through the phases is one wave.
#[derive(Clone, Copy, Debug, PartialEq, Eq, Structural)]
pub enum DirectorState {
    /// Spawning enemies; the payload is the wave pool left to spawn.
    Spawning(u32),
    /// The wave pool is spent; waiting for all spawned enemies to be gone.
    WaitingForDead,
    /// The wave is over and announced; waiting for the player to start the next one.
    WaitingForMenu,
}

/// What a director wants done in a frame.
#[derive(Clone, Copy, Debug, PartialEq, Eq, Structural)]
pub enum DirectorAction {
    /// Nothing.
    Nothing,
    /// Spend a random share of the credits available on enemies.
    SpendRound { credits: u32 },
    /// The wave is over; send this message.
    WaveCleared(GameMessage),
}

/// The director spawns waves of enemies: it earns credits every second and
/// spends them on enemies of the wave's kinds until the wave pool is spent.
#[derive(Clone)]
pub struct Director {
    wave: u32,
    state: DirectorState,
    intervall: u64,
    total: u64,
    credits: u32,
    enemies: Vec<EnemyTemplate>,
    wave_enemies: [usize; WAVE_SIZE],
}

/// Whether a director may go from phase `a` to phase `b` in one step: it
/// stays, or moves on in the order spawning, waiting for the dead, waiting
/// for the menu, spawning.
pub open spec fn phase_step(a: DirectorState, b: DirectorState) -> bool {
    a == b || match (a, b) {
        (DirectorState::Spawning(_), DirectorState::Spawning(_)) => true,
        (DirectorState::Spawning(_), DirectorState::WaitingForDead) => true,
        (DirectorState::WaitingForDead, DirectorState::WaitingForMenu) => true,
        (DirectorState::WaitingForMenu, DirectorState::Spawning(_)) => true,
        _ => false,
    }
}

/// Whether `s` is sorted in ascending order.
pub open spec fn ascending(s: Seq<usize>) -> bool {
    forall|i: int, j: int| 0 <= i < j < s.len() ==> s[i] <= s[j]
}

impl Director {
    /// The current wave.
    pub closed spec fn wave(self) -> u32 {
        self.wave
    }

    /// The current phase.
    pub closed spec fn state(self) -> DirectorState {
        self.state
    }

    /// Nanoseconds since the last spending round.
    pub closed spec fn intervall(self) -> u64 {
        self.intervall
    }

    /// Nanoseconds since the director was made.
    pub closed spec fn total(self) -> u64 {
        self.total
    }

    /// The credits the director can spend.
    pub closed spec fn credits(self) -> u32 {
        self.credits
    }

    /// The enemy kinds the director can spawn.
    pub closed spec fn enemies(self) -> Seq<EnemyTemplate> {
        self.enemies@
    }

    /// The positions in [Director::enemies] of the current wave's enemy kinds.
    pub closed spec fn wave_enemies(self) -> Seq<usize> {
        self.wave_enemies@
    }

    /// A wave is always made of [WAVE_SIZE] enemy kinds.
    pub proof fn lemma_wave_size(self)
        ensures
            self.wave_enemies().len() == WAVE_SIZE,
    {
    }

    /// Whether every enemy kind of the wave exists.
    pub open spec fn wave_enemies_exist(self) -> bool {
        forall|i: int| 0 <= i < WAVE_SIZE ==> #[trigger] self.wave_enemies()[i] < self.enemies().len()
    }

    /// Whether the wave's enemy kind at position `k` exists and costs at most `to_spend`.
    pub open spec fn affordable(self, k: int, to_spend: u32) -> bool {
        &&& self.wave_enemies()[k] < self.enemies().len()
        &&& self.enemies()[self.wave_enemies()[k] as int].cost() <= to_spend
    }

    /// The enemy kind chosen from wave position `start` with `to_spend`
    /// credits: the kind at the highest position up to `start` that exists
    /// and is affordable, if any.
    pub open spec fn downgraded(self, start: int, to_spend: u32) -> Option<usize>
        decreases start + 1,
    {
        if start < 0 {
            None
        } else if self.affordable(start, to_spend) {
            Some(self.wave_enemies()[start])
        } else {
            self.downgraded(start - 1, to_spend)
        }
    }

    /// A new director at wave one, spawning from a pool of 50, with no
    /// credits, choosing from `enemies`.
    pub fn new(enemies: Vec<EnemyTemplate>) -> (r: Self)
        ensures
            r.wave() == 1,
            r.state() == DirectorState::Spawning(50),
            r.intervall() == 0,
            r.total() == 0,
            r.credits() == 0,
            r.enemies() == enemies@,
            r.wave_enemies() == seq![0usize, 0, 1, 1],
    {
        let d = Director {
            wave: 1,
            state: DirectorState::Spawning(50),
            intervall: 0,
            total: 0,
            credits: 0,
            enemies,
            wave_enemies: [0, 0, 1, 1],
        };
        assert(d.wave_enemies@ =~= seq![0usize, 0, 1, 1]);
        d
    }

    /// The current wave.
    pub fn get_wave(&self) -> (r: u32)
        ensures
            r == self.wave(),
    {
        self.wave
    }

    /// The current phase.
    pub fn get_state(&self) -> (r: DirectorState)
        ensures
            r == self.state(),
    {
        self.state
    }

    /// The credits the director can spend.
    pub fn get_credits(&self) -> (r: u32)
        ensures
            r == self.credits(),
    {
        self.credits
    }

    /// Whether the director waits for the player to start the next wave.
    pub fn is_between_waves(&self) -> (r: bool)
        ensures
            r == (self.state() == DirectorState::WaitingForMenu),
    {
        self.state == DirectorState::WaitingForMenu
    }

    /// The current wave's four enemy kinds.
    pub fn get_enemies(&self) -> (r: [&EnemyTemplate; WAVE_SIZE])
        requires
            self.wave_enemies_exist(),
        ensures
            forall|i: int| 0 <= i < WAVE_SIZE ==> *#[trigger] r@[i] == self.enemies()[self.wave_enemies()[i] as int],
    {
        assert(self.wave_enemies()[0] < self.enemies().len());
        assert(self.wave_enemies()[1] < self.enemies().len());
        assert(self.wave_enemies()[2] < self.enemies().len());
        assert(self.wave_enemies()[3] < self.enemies().len());
        [
            &self.enemies[self.wave_enemies[0]],
            &self.enemies[self.wave_enemies[1]],
            &self.enemies[self.wave_enemies[2]],
            &self.enemies[self.wave_enemies[3]],
        ]
    }

    /// Starts the next wave if the director waits for it: the wave number
    /// goes up by one and the wave pool becomes 100 + 400 times the new wave.
    pub fn next_wave(&mut self)
        requires
            old(self).state() == DirectorState::WaitingForMenu ==> 400 * (old(self).wave() + 1) + 100 <= u32::MAX,
        ensures
            old(self).state() == DirectorState::WaitingForMenu ==> {
                &&& final(self).wave() == old(self).wave() + 1
                &&& final(self).state() == DirectorState::Spawning((100 + 400 * final(self).wave()) as u32)
            },
            old(self).state() != DirectorState::WaitingForMenu ==> final(self).wave() == old(self).wave()
                && final(self).state() == old(self).state(),
            final(self).credits() == old(self).credits(),
            final(self).enemies() == old(self).enemies(),
            final(self).wave_enemies() == old(self).wave_enemies(),
            final(self).intervall() == old(self).intervall(),
            final(self).total() == old(self).total(),
            phase_step(old(self).state(), final(self).state()),
    {
        if self.state == DirectorState::WaitingForMenu {
            self.wave = self.wave + 1;
            self.state = DirectorState::Spawning(100 + 400 * self.wave);
        }
    }

    /// Draws the next wave's four enemy kinds at random from all kinds and
    /// sorts them by their position in the list of kinds.
    pub fn reroll_wave_enemies(&mut self)
        requires
            old(self).enemies().len() > 0,
        ensures
            final(self).wave_enemies().len() == WAVE_SIZE,
            final(self).wave_enemies_exist(),
            ascending(final(self).wave_enemies()),
            exists|draws: Seq<usize>| draws.len() == WAVE_SIZE
                && #[trigger] wave_draws(draws, old(self).enemies().len() as usize).to_multiset() == final(self).wave_enemies().to_multiset(),
            final(self).wave() == old(self).wave(),
            final(self).state() == old(self).state(),
            final(self).credits() == old(self).credits(),
            final(self).enemies() == old(self).enemies(),
            final(self).intervall() == old(self).intervall(),
            final(self).total() == old(self).total(),
    {
        let n = self.enemies.len();
        let draws = [random_usize(), random_usize(), random_usize(), random_usize()];
        self.wave_enemies = wave_from_draws(draws, n);
        proof {
            assert(draws@.len() == WAVE_SIZE);
            assert(n == old(self).enemies().len() as usize);
            assert(wave_draws(draws@, n).to_multiset() == self.wave_enemies@.to_multiset());
            assert(wave_draws(draws@, old(self).enemies().len() as usize).to_multiset() == self.wave_enemies().to_multiset());
            assert forall|i: int| 0 <= i < WAVE_SIZE implies #[trigger] self.wave_enemies@[i] < n by {
                lemma_members_below(self.wave_enemies@, wave_draws(draws@, n), n, i);
            }
        }
    }

    /// Lets a frame of `delta` nanoseconds pass with `enemies_alive` enemies
    /// in the world. While spawning, every full second the director earns
    /// 10 + (seconds since it was made) / 22 + 3 * wave credits and asks for
    /// a spending round. When it waits for the dead and none are left, it
    /// draws the next wave's enemy kinds, waits for the player and announces
    /// the next wave.
    pub fn direct(&mut self, delta: u64, enemies_alive: usize) -> (r: DirectorAction)
        requires
            old(self).intervall() + delta <= u64::MAX,
            old(self).total() + delta <= u64::MAX,
            old(self).state() is Spawning && old(self).intervall() + delta >= NANOS_PER_SEC ==>
                old(self).credits() + 10 + ((((old(self).total() + delta) / NANOS_PER_SEC as int) as u64) as u32) / 22
                    + 3 * old(self).wave() <= u32::MAX,
            old(self).state() == DirectorState::WaitingForDead && enemies_alive == 0 ==>
                old(self).enemies().len() > 0 && (old(self).wave() as i32) < i32::MAX,
        ensures
            final(self).total() == old(self).total() + delta,
            final(self).wave() == old(self).wave(),
            phase_step(old(self).state(), final(self).state()),
            final(self).enemies() == old(self).enemies(),
            ({
                let interval = old(self).intervall() + delta;
                match old(self).state() {
                    DirectorState::Spawning(_) => if interval >= NANOS_PER_SEC {
                        let grant = 10 + ((((old(self).total() + delta) / NANOS_PER_SEC as int) as u64) as u32) / 22
                            + 3 * old(self).wave();
                        &&& final(self).credits() == old(self).credits() + grant
                        &&& final(self).intervall() == 0
                        &&& r == DirectorAction::SpendRound { credits: final(self).credits() }
                        &&& final(self).state() == old(self).state()
                        &&& final(self).wave_enemies() == old(self).wave_enemies()
                    } else {
                        &&& final(self).credits() == old(self).credits()
                        &&& final(self).intervall() == interval
                        &&& r == DirectorAction::Nothing
                        &&& final(self).state() == old(self).state()
                        &&& final(self).wave_enemies() == old(self).wave_enemies()
                    },
                    DirectorState::WaitingForDead => if enemies_alive == 0 {
                        &&& final(self).credits() == old(self).credits()
                        &&& final(self).intervall() == interval
                        &&& r == DirectorAction::WaveCleared(GameMessage::NextWave((old(self).wave() as i32 + 1) as i32))
                        &&& final(self).state() == DirectorState::WaitingForMenu
                        &&& final(self).wave_enemies_exist()
                        &&& ascending(final(self).wave_enemies())
                    } else {
                        &&& final(self).credits() == old(self).credits()
                        &&& final(self).intervall() == interval
                        &&& r == DirectorAction::Nothing
                        &&& final(self).state() == old(self).state()
                        &&& final(self).wave_enemies() == old(self).wave_enemies()
                    },
                    DirectorState::WaitingForMenu => {
                        &&& final(self).credits() == old(self).credits()
                        &&& final(self).intervall() == interval
                        &&& r == DirectorAction::Nothing
                        &&& final(self).state() == old(self).state()
                        &&& final(self).wave_enemies() == old(self).wave_enemies()
                    },
                }
            }),
    {
        self.intervall = self.intervall + delta;
        self.total = self.total + delta;
        match self.state {
            DirectorState::Spawning(_) => {
                if self.intervall >= NANOS_PER_SEC {
                    let secs = (self.total / NANOS_PER_SEC) as u32;
                    self.credits = self.credits + 10 + secs / 22 + 3 * self.wave;
                    self.intervall = 0;
                    DirectorAction::SpendRound { credits: self.credits }
                } else {
                    DirectorAction::Nothing
                }
            },
            DirectorState::WaitingForDead => {
                if enemies_alive == 0 {
                    let message = GameMessage::NextWave(self.wave as i32 + 1);
                    self.reroll_wave_enemies();
                    self.state = DirectorState::WaitingForMenu;
                    DirectorAction::WaveCleared(message)
                } else {
                    DirectorAction::Nothing
                }
            },
            DirectorState::WaitingForMenu => DirectorAction::Nothing,
        }
    }

    /// The enemy kind to spawn when the dice chose wave position `start`:
    /// going down from `start`, the first kind that exists and costs at
    /// most `to_spend`; `None` when there is none.
    pub fn downgrade(&self, start: usize, to_spend: u32) -> (r: Option<usize>)
        requires
            start < WAVE_SIZE,
        ensures
            r == self.downgraded(start as int, to_spend),
            r matches Some(t) ==> t < self.enemies().len() && self.enemies()[t as int].cost() <= to_spend,
            r matches Some(t) ==> exists|k: int| 0 <= k <= start as int && t == #[trigger] self.wave_enemies()[k]
                && self.wave_enemies()[k] < self.enemies().len()
                && self.enemies()[self.wave_enemies()[k] as int].cost() <= to_spend
                && forall|j: int| k < j <= start as int ==> !(#[trigger] self.wave_enemies()[j] < self.enemies().len()
                    && self.enemies()[self.wave_enemies()[j] as int].cost() <= to_spend),
            r is None ==> forall|j: int| 0 <= j <= start as int ==> !(#[trigger] self.wave_enemies()[j] < self.enemies().len()
                && self.enemies()[self.wave_enemies()[j] as int].cost() <= to_spend),
    {
        let mut k: usize = start;
        loop
            invariant
                k <= start < WAVE_SIZE,
                self.downgraded(start as int, to_spend) == self.downgraded(k as int, to_spend),
            decreases k,
        {
            let t = self.wave_enemies[k];
            if t < self.enemies.len() && self.enemies[t].cost <= to_spend {
                proof {
                    law_downgrade_takes_nearest_affordable(*self, start as int, to_spend);
                }
                return Some(t);
            }
            if k == 0 {
                assert(self.downgraded(-1, to_spend) == None::<usize>);
                proof {
                    law_downgrade_takes_nearest_affordable(*self, start as int, to_spend);
                }
                return None;
            }
            k = k - 1;
        }
    }

    /// Chooses the enemy kind to spawn with `to_spend` credits: a wave
    /// position is drawn at random and downgraded until affordable.
    pub fn choose_spawn(&self, to_spend: u32) -> (r: Option<usize>)
        ensures
            exists|start: int| 0 <= start < WAVE_SIZE && r == #[trigger] self.downgraded(start, to_spend),
            r matches Some(t) ==> t < self.enemies().len() && self.enemies()[t as int].cost() <= to_spend,
    {
        let start = random_usize() % WAVE_SIZE;
        let r = self.downgrade(start, to_spend);
        assert(r == self.downgraded(start as int, to_spend));
        r
    }

    /// Books the spawn of enemy kind `template`: its cost leaves the
    /// credits, the round's budget `to_spend` and the wave pool left to
    /// spawn; when the pool is used up, the director waits for the dead.
    /// Returns the budget left.
    pub fn record_spawn(&mut self, template: usize, to_spend: u32) -> (r: u32)
        requires
            template < old(self).enemies().len(),
            old(self).enemies()[template as int].cost() <= to_spend,
            old(self).enemies()[template as int].cost() <= old(self).credits(),
        ensures
            r == to_spend - old(self).enemies()[template as int].cost(),
            final(self).credits() == old(self).credits() - old(self).enemies()[template as int].cost(),
            final(self).state() == pool_after(old(self).state(), old(self).enemies()[template as int].cost() as int),
            final(self).wave() == old(self).wave(),
            final(self).enemies() == old(self).enemies(),
            final(self).wave_enemies() == old(self).wave_enemies(),
            final(self).intervall() == old(self).intervall(),
            final(self).total() == old(self).total(),
            phase_step(old(self).state(), final(self).state()),
    {
        let cost = self.enemies[template].cost;
        self.credits = self.credits - cost;
        if let DirectorState::Spawning(pool) = self.state {
            let left = pool.saturating_sub(cost);
            self.state = if left > 0 {
                DirectorState::Spawning(left)
            } else {
                DirectorState::WaitingForDead
            };
        }
        to_spend - cost
    }

    /// A spending round with budget `to_spend`: again and again a wave
    /// position is drawn at random and downgraded until affordable, and
    /// that enemy kind is booked (see [Director::record_spawn]), until a
    /// draw finds nothing affordable. Returns the kinds to spawn, in order.
    pub fn spend_round(&mut self, to_spend: u32) -> (picks: Vec<usize>)
        requires
            to_spend <= old(self).credits(),
            forall|i: int| 0 <= i < old(self).enemies().len() ==> #[trigger] old(self).enemies()[i].cost() > 0,
        ensures
            forall|k: int| 0 <= k < picks@.len() ==> #[trigger] picks@[k] < old(self).enemies().len(),
            forall|k: int| 0 <= k < picks@.len() ==>
                drawn_from_wave(*old(self), to_spend - picks_cost(old(self).enemies(), picks@.take(k)), #[trigger] picks@[k]),
            forall|k: int| 0 <= k < picks@.len() ==> old(self).wave_enemies().contains(#[trigger] picks@[k]),
            picks_cost(old(self).enemies(), picks@) <= to_spend,
            final(self).credits() == old(self).credits() - picks_cost(old(self).enemies(), picks@),
            picks@.len() == 0 ==> final(self).state() == old(self).state(),
            picks@.len() > 0 ==> final(self).state() == pool_after(old(self).state(), picks_cost(old(self).enemies(), picks@)),
            exists|start: int| 0 <= start < WAVE_SIZE
                && #[trigger] old(self).downgraded(start, (to_spend - picks_cost(old(self).enemies(), picks@)) as u32) is None,
            final(self).wave() == old(self).wave(),
            final(self).enemies() == old(self).enemies(),
            final(self).wave_enemies() == old(self).wave_enemies(),
            final(self).intervall() == old(self).intervall(),
            final(self).total() == old(self).total(),
            phase_step(old(self).state(), final(self).state()),
    {
        let mut picks: Vec<usize> = Vec::new();
        let mut budget = to_spend;
        loop
            invariant_except_break
                budget as int == to_spend - picks_cost(old(self).enemies(), picks@),
            invariant
                0 <= picks_cost(old(self).enemies(), picks@) <= to_spend,
                to_spend <= old(self).credits(),
                self.credits() == old(self).credits() - picks_cost(old(self).enemies(), picks@),
                picks@.len() == 0 ==> self.state() == old(self).state(),
                picks@.len() > 0 ==> self.state() == pool_after(old(self).state(), picks_cost(old(self).enemies(), picks@)),
                forall|k: int| 0 <= k < picks@.len() ==> #[trigger] picks@[k] < old(self).enemies().len(),
                forall|k: int| 0 <= k < picks@.len() ==>
                    drawn_from_wave(*old(self), to_spend - picks_cost(old(self).enemies(), picks@.take(k)), #[trigger] picks@[k]),
                forall|k: int| 0 <= k < picks@.len() ==> old(self).wave_enemies().contains(#[trigger] picks@[k]),
                forall|i: int| 0 <= i < old(self).enemies().len() ==> #[trigger] old(self).enemies()[i].cost() > 0,
                self.wave() == old(self).wave(),
                self.enemies() == old(self).enemies(),
                self.wave_enemies() == old(self).wave_enemies(),
                self.intervall() == old(self).intervall(),
                self.total() == old(self).total(),
            ensures
                exists|start: int| 0 <= start < WAVE_SIZE
                    && #[trigger] old(self).downgraded(start, (to_spend - picks_cost(old(self).enemies(), picks@)) as u32) is None,
            decreases budget,
        {
            match self.choose_spawn(budget) {
                None => {
                    proof {
                        lemma_downgraded_depends_on_kinds(*old(self), *self, budget);
                        let start = choose|start: int| 0 <= start < WAVE_SIZE && #[trigger] self.downgraded(start, budget) is None;
                        assert(old(self).downgraded(start, budget) is None);
                        assert((to_spend - picks_cost(old(self).enemies(), picks@)) as u32 == budget);
                    }
                    break;
                },
                Some(t) => {
                    let ghost before = picks@;
                    proof {
                        lemma_downgraded_depends_on_kinds(*old(self), *self, budget);
                        let start = choose|start: int| 0 <= start < WAVE_SIZE && #[trigger] self.downgraded(start, budget) == Some(t);
                        assert(old(self).downgraded(start, budget) == Some(t));
                        lemma_downgraded_in_wave(*old(self), start, budget);
                        assert(before.take(before.len() as int) =~= before);
                    }
                    proof {
                        if before.len() > 0 {
                            lemma_pool_after_step(old(self).state(), picks_cost(old(self).enemies(), before),
                                self.enemies()[t as int].cost() as int);
                        }
                    }
                    budget = self.record_spawn(t, budget);
                    picks.push(t);
                    assert(picks@.drop_last() =~= before);
                    proof {
                        lemma_picks_step(*old(self), to_spend as int, before, t);
                    }
                },
            }
        }
        picks
    }
}

/// Whether a draw with `budget` left can pick kind `t`: from some wave
/// position, stepping down to the first affordable kind of the wave.
pub open spec fn drawn_from_wave(d: Director, budget: int, t: usize) -> bool {
    exists|start: int| 0 <= start < WAVE_SIZE && #[trigger] d.downgraded(start, budget as u32) == Some(t)
}

/// The phase after enemies costing `spent` in all were booked in phase
/// `state` (at least one enemy): while spawning, the pool left shrinks by
/// `spent`, and the director waits for the dead once nothing is left;
/// other phases stay.
pub open spec fn pool_after(state: DirectorState, spent: int) -> DirectorState {
    match state {
        DirectorState::Spawning(p) => if p > spent {
            DirectorState::Spawning((p - spent) as u32)
        } else {
            DirectorState::WaitingForDead
        },
        _ => state,
    }
}

/// The credits that the enemy kinds `picks` cost in all.
pub open spec fn picks_cost(enemies: Seq<EnemyTemplate>, picks: Seq<usize>) -> int
    decreases picks.len(),
{
    if picks.len() == 0 {
        0
    } else {
        picks_cost(enemies, picks.drop_last()) + enemies[picks.last() as int].cost()
    }
}

/// Booking one more enemy costing `cost` moves the
/// phase on as booking everything at once would.
proof fn lemma_pool_after_step(state: DirectorState, spent: int, cost: int)
    requires
        spent >= 0,
        cost >= 0,
    ensures
        pool_after(pool_after(state, spent), cost) == pool_after(state, spent + cost),
{
}

/// Which kind a draw picks depends only on the wave's kinds and the list
/// of kinds, which a spending round does not change.
proof fn lemma_downgraded_depends_on_kinds(a: Director, b: Director, to_spend: u32)
    requires
        a.enemies() == b.enemies(),
        a.wave_enemies() == b.wave_enemies(),
    ensures
        forall|start: int| #[trigger] a.downgraded(start, to_spend) == b.downgraded(start, to_spend),
{
    assert forall|start: int| #[trigger] a.downgraded(start, to_spend) == b.downgraded(start, to_spend) by {
        lemma_downgraded_eq(a, b, start, to_spend);
    }
}

/// One more kind, drawn from the wave with what was left, keeps every
/// booked kind drawn from the wave.
proof fn lemma_picks_step(d: Director, to_spend: int, before: Seq<usize>, t: usize)
    requires
        forall|k: int| 0 <= k < before.len() ==>
            drawn_from_wave(d, to_spend - picks_cost(d.enemies(), before.take(k)), #[trigger] before[k]),
        forall|k: int| 0 <= k < before.len() ==> d.wave_enemies().contains(#[trigger] before[k]),
        drawn_from_wave(d, to_spend - picks_cost(d.enemies(), before), t),
        d.wave_enemies().contains(t),
    ensures
        forall|k: int| 0 <= k < before.push(t).len() ==>
            drawn_from_wave(d, to_spend - picks_cost(d.enemies(), before.push(t).take(k)), #[trigger] before.push(t)[k]),
        forall|k: int| 0 <= k < before.push(t).len() ==> d.wave_enemies().contains(#[trigger] before.push(t)[k]),
{
    let p = before.push(t);
    assert forall|k: int| 0 <= k < p.len() implies
        drawn_from_wave(d, to_spend - picks_cost(d.enemies(), p.take(k)), #[trigger] p[k]) by {
        if k < before.len() {
            assert(p.take(k) =~= before.take(k));
            assert(p[k] == before[k]);
        } else {
            assert(p.take(k) =~= before);
        }
    }
    assert forall|k: int| 0 <= k < p.len() implies d.wave_enemies().contains(#[trigger] p[k]) by {
        if k < before.len() {
            assert(p[k] == before[k]);
        }
    }
}

/// A draw that starts at wave position `start` steps down one position at
/// a time: it gives the kind at the highest position `k <= start` that
/// exists and is affordable, so no position between `k` and `start` is;
/// and it gives nothing only when no position up to `start` is affordable.
pub proof fn law_downgrade_takes_nearest_affordable(d: Director, start: int, to_spend: u32)
    requires
        start < WAVE_SIZE,
    ensures
        d.downgraded(start, to_spend) matches Some(t) ==> exists|k: int| 0 <= k <= start && t == #[trigger] d.wave_enemies()[k]
            && d.wave_enemies()[k] < d.enemies().len()
            && d.enemies()[d.wave_enemies()[k] as int].cost() <= to_spend
            && forall|j: int| k < j <= start ==> !(#[trigger] d.wave_enemies()[j] < d.enemies().len()
                && d.enemies()[d.wave_enemies()[j] as int].cost() <= to_spend),
        d.downgraded(start, to_spend) is None ==> forall|j: int| 0 <= j <= start ==> !(#[trigger] d.wave_enemies()[j] < d.enemies().len()
            && d.enemies()[d.wave_enemies()[j] as int].cost() <= to_spend),
    decreases start + 1,
{
    if start >= 0 {
        law_downgrade_takes_nearest_affordable(d, start - 1, to_spend);
        if !d.affordable(start, to_spend) {
            if let Some(t) = d.downgraded(start - 1, to_spend) {
                let k = choose|k: int| 0 <= k <= start - 1 && t == #[trigger] d.wave_enemies()[k]
                    && d.wave_enemies()[k] < d.enemies().len()
                    && d.enemies()[d.wave_enemies()[k] as int].cost() <= to_spend
                    && forall|j: int| k < j <= start - 1 ==> !(#[trigger] d.wave_enemies()[j] < d.enemies().len()
                        && d.enemies()[d.wave_enemies()[j] as int].cost() <= to_spend);
                assert(forall|j: int| k < j <= start ==> !(#[trigger] d.wave_enemies()[j] < d.enemies().len()
                    && d.enemies()[d.wave_enemies()[j] as int].cost() <= to_spend));
            }
        }
    }
}

/// A draw picks one of the wave's kinds.
proof fn lemma_downgraded_in_wave(d: Director, start: int, to_spend: u32)
    requires
        start < WAVE_SIZE,
        d.wave_enemies().len() == WAVE_SIZE,
    ensures
        d.downgraded(start, to_spend) matches Some(t) ==> d.wave_enemies().contains(t),
    decreases start + 1,
{
    if start >= 0 {
        if d.affordable(start, to_spend) {
            assert(d.wave_enemies()[start] == d.wave_enemies()[start]);
        } else {
            lemma_downgraded_in_wave(d, start - 1, to_spend);
        }
    }
}

proof fn lemma_downgraded_eq(a: Director, b: Director, start: int, to_spend: u32)
    requires
        a.enemies() == b.enemies(),
        a.wave_enemies() == b.wave_enemies(),
    ensures
        a.downgraded(start, to_spend) == b.downgraded(start, to_spend),
    decreases start + 1,
{
    if start >= 0 {
        lemma_downgraded_eq(a, b, start - 1, to_spend);
    }
}

/// The wave positions that four draws give among `n` kinds: each draw
/// modulo `n`, in the order drawn.
pub open spec fn wave_draws(draws: Seq<usize>, n: usize) -> Seq<usize> {
    draws.map_values(|d: usize| (d % n) as usize)
}

/// The wave that four random draws give among `n` enemy kinds: each draw
/// modulo `n`, sorted in ascending order.
pub fn wave_from_draws(draws: [usize; WAVE_SIZE], n: usize) -> (r: [usize; WAVE_SIZE])
    requires
        n > 0,
    ensures
        ascending(r@),
        r@.to_multiset() == wave_draws(draws@, n).to_multiset(),
{
    let mut r = [draws[0] % n, draws[1] % n, draws[2] % n, draws[3] % n];
    assert(r@ =~= wave_draws(draws@, n));
    sort_four(&mut r);
    r
}

/// Every member of a sequence with the same members as `s` lies below `n`
/// when every member of `s` does.
proof fn lemma_members_below(r: Seq<usize>, s: Seq<usize>, n: usize, i: int)
    requires
        r.to_multiset() == s.to_multiset(),
        forall|k: int| 0 <= k < s.len() ==> #[trigger] s[k] < n,
        0 <= i < r.len(),
    ensures
        r[i] < n,
{
    broadcast use vstd::seq_lib::to_multiset_contains;
    assert(r.contains(r[i]));
    assert(r.to_multiset().count(r[i]) > 0);
    assert(s.contains(r[i]));
}

/// Swaps `a[i]` and `a[j]` when they are out of order.
fn order_pair(a: &mut [usize; WAVE_SIZE], i: usize, j: usize)
    requires
        i < j < WAVE_SIZE,
    ensures
        final(a)@[i as int] == if old(a)@[i as int] <= old(a)@[j as int] { old(a)@[i as int] } else { old(a)@[j as int] },
        final(a)@[j as int] == if old(a)@[i as int] <= old(a)@[j as int] { old(a)@[j as int] } else { old(a)@[i as int] },
        forall|k: int| 0 <= k < WAVE_SIZE && k != i && k != j ==> final(a)@[k] == old(a)@[k],
        final(a)@.to_multiset() == old(a)@.to_multiset(),
{
    if a[i] > a[j] {
        let ghost s = a@;
        let t = a[i];
        a[i] = a[j];
        a[j] = t;
        proof {
            broadcast use vstd::seq_lib::to_multiset_update, vstd::multiset::group_multiset_axioms;
            let s1 = s.update(i as int, s[j as int]);
            assert(a@ =~= s1.update(j as int, s[i as int]));
            assert(s1[j as int] == s[j as int]);
            let m = s.to_multiset();
            assert(s1.to_multiset() =~= m.insert(s[j as int]).remove(s[i as int]));
            assert(a@.to_multiset() =~= s1.to_multiset().insert(s[i as int]).remove(s[j as int]));
            assert(s.contains(s[i as int]));
            assert(s.contains(s[j as int]));
            broadcast use vstd::seq_lib::to_multiset_contains;
            assert(m.count(s[i as int]) > 0);
            assert(m.count(s[j as int]) > 0);
            let m2 = m.insert(s[j as int]).remove(s[i as int]).insert(s[i as int]).remove(s[j as int]);
            assert forall|v: usize| #[trigger] m2.count(v) == m.count(v) by {}
            assert(m2 =~= m);
        }
    }
}

/// Sorts four numbers in ascending order.
fn sort_four(a: &mut [usize; WAVE_SIZE])
    ensures
        ascending(final(a)@),
        final(a)@.to_multiset() == old(a)@.to_multiset(),
        forall|k: int| 0 <= k < WAVE_SIZE ==> exists|l: int| 0 <= l < WAVE_SIZE && #[trigger] final(a)@[k] == old(a)@[l],
{
    order_pair(a, 0, 1);
    order_pair(a, 2, 3);
    order_pair(a, 0, 2);
    order_pair(a, 1, 3);
    order_pair(a, 1, 2);
}

} // verus!
