use vstd::prelude::*;
use crate::game_message::{GameMessage, GameMessageFilter, UiMessage, filter_matches};

verus! {

/// The id of the interface box that shows freshly completed achievements.
pub const ACHIEVEMENT_BOX: u32 = 100;

/// A feat to achieve in the game: receiving a message that matches a model
/// message a set number of times.
#[derive(Clone, Debug)]
pub struct Achievement {
    name: String,
    description: String,
    progress: u32,
    target: u32,
    icon: Option<String>,
    model: GameMessage,
    filter: GameMessageFilter,
}

impl Achievement {
    /// The achievement's name.
    pub closed spec fn name(self) -> Seq<char> {
        self.name@
    }

    /// The achievement's description.
    pub closed spec fn description(self) -> Seq<char> {
        self.description@
    }

    /// How often a matching message has been received.
    pub closed spec fn progress(self) -> u32 {
        self.progress
    }

    /// How often a matching message must be received.
    pub closed spec fn target(self) -> u32 {
        self.target
    }

    /// The path of the achievement's icon, if it has one.
    pub closed spec fn icon(self) -> Option<String> {
        self.icon
    }

    /// The model message and the filter that a message must pass.
    pub closed spec fn model(self) -> (GameMessage, GameMessageFilter) {
        (self.model, self.filter)
    }

    /// A new achievement with no progress.
    pub fn new(
        name: &str,
        description: &str,
        icon: Option<&str>,
        target: u32,
        model_message: (GameMessage, GameMessageFilter),
    ) -> (r: Self)
        ensures
            r.name() == name@,
            r.description() == description@,
            r.progress() == 0,
            r.target() == target,
            r.icon() is Some <==> icon is Some,
            icon matches Some(path) ==> r.icon().unwrap()@ == path@,
            r.model() == model_message,
    {
        let icon = match icon {
            Some(path) => Some(path.to_owned()),
            None => None,
        };
        Achievement {
            name: name.to_owned(),
            description: description.to_owned(),
            progress: 0,
            icon,
            target,
            model: model_message.0,
            filter: model_message.1,
        }
    }

    /// Forgets all progress.
    pub fn reset_progress(&mut self)
        ensures
            final(self).progress() == 0,
            final(self).target() == old(self).target(),
            final(self).model() == old(self).model(),
            final(self).name() == old(self).name(),
            final(self).description() == old(self).description(),
            final(self).icon() == old(self).icon(),
    {
        self.progress = 0;
    }

    /// Counts `message` if it matches the model message; returns whether
    /// this completed the achievement (the count just reached the target).
    pub fn listen(&mut self, message: &GameMessage) -> (r: bool)
        requires
            filter_matches(old(self).model().1, old(self).model().0, *message) ==> old(self).progress() < u32::MAX,
        ensures
            ({
                let matched = filter_matches(old(self).model().1, old(self).model().0, *message);
                &&& final(self).progress() == if matched { old(self).progress() + 1 } else { old(self).progress() as int }
                &&& r == (matched && final(self).progress() == old(self).target())
            }),
            final(self).target() == old(self).target(),
            final(self).model() == old(self).model(),
            final(self).name() == old(self).name(),
            final(self).description() == old(self).description(),
            final(self).icon() == old(self).icon(),
    {
        if self.filter.check(&self.model, message) {
            self.progress = self.progress + 1;
            self.progress == self.target
        } else {
            false
        }
    }

    /// Whether the achievement has been achieved.
    pub fn is_achieved(&self) -> (r: bool)
        ensures
            r == (self.progress() >= self.target()),
    {
        self.progress >= self.target
    }

    /// The achievement's name.
    pub fn get_name(&self) -> (r: &str)
        ensures
            r@ == self.name(),
    {
        self.name.as_str()
    }

    /// The achievement's description.
    pub fn get_description(&self) -> (r: &str)
        ensures
            r@ == self.description(),
    {
        self.description.as_str()
    }

    /// How often a matching message has been received.
    pub fn get_progress(&self) -> (r: u32)
        ensures
            r == self.progress(),
    {
        self.progress
    }

    /// How often a matching message must be received.
    pub fn get_target(&self) -> (r: u32)
        ensures
            r == self.target(),
    {
        self.target
    }

    /// The path of the achievement's icon, if it has one.
    pub fn get_icon(&self) -> (r: Option<&str>)
        ensures
            r is Some <==> self.icon() is Some,
            r matches Some(path) ==> path@ == self.icon().unwrap()@,
    {
        match &self.icon {
            Some(path) => Some(path.as_str()),
            None => None,
        }
    }

    /// Sets the progress.
    fn set_progress(&mut self, progress: u32)
        ensures
            final(self).progress() == progress,
            final(self).target() == old(self).target(),
            final(self).model() == old(self).model(),
            final(self).name() == old(self).name(),
            final(self).description() == old(self).description(),
            final(self).icon() == old(self).icon(),
    {
        self.progress = progress;
    }
}

/// The targets of the game's achievements, in order.
pub open spec fn achievement_targets() -> Seq<u32> {
    seq![1u32, 50, 1000, 1000, 1, 1, 8, 1, 1, 50, 50, 15, 5, 5, 5, 10]
}

/// The model messages and filters of the game's achievements, in order.
pub open spec fn achievement_models() -> Seq<(GameMessage, GameMessageFilter)> {
    seq![
        (GameMessage::EnemyKilled(0), GameMessageFilter::Type),
        (GameMessage::EnemyKilled(0), GameMessageFilter::Type),
        (GameMessage::EnemyKilled(0), GameMessageFilter::Type),
        (GameMessage::EnemyKilled(10), GameMessageFilter::Max),
        (GameMessage::NextWave(2), GameMessageFilter::Equality),
        (GameMessage::NextWave(5), GameMessageFilter::Equality),
        (GameMessage::NextWave(8), GameMessageFilter::Equality),
        (GameMessage::NextWave(24), GameMessageFilter::Equality),
        (GameMessage::EnemyKilled(10), GameMessageFilter::Min),
        (GameMessage::EnemyKilled(10), GameMessageFilter::Min),
        (GameMessage::EnemyKilled(11), GameMessageFilter::Equality),
        (GameMessage::EnemyKilled(16), GameMessageFilter::Equality),
        (GameMessage::BuildingUp(0, 1), GameMessageFilter::Min),
        (GameMessage::BuildingUp(1, 1), GameMessageFilter::Min),
        (GameMessage::BuildingUp(2, 1), GameMessageFilter::Min),
        (GameMessage::BuildingDown(0, 0), GameMessageFilter::Type),
    ]
}

/// The names of the game's achievements, in order.
pub open spec fn achievement_names() -> Seq<Seq<char>> {
    seq![
        "First Blood"@,
        "To Dust"@,
        "They were legion"@,
        "Puttin' on the broom"@,
        "Survivor"@,
        "Can't touch this"@,
        "One kick, a thousand times"@,
        "Supreme"@,
        "Royal Blood"@,
        "Party like it's 1789"@,
        "Speed limit"@,
        "Who you gonna call?"@,
        "The Lives of Others"@,
        "Union fees"@,
        "Power Overwhelming!"@,
        "Oops"@,
    ]
}

/// The descriptions of the game's achievements, in order.
pub open spec fn achievement_descriptions() -> Seq<Seq<char>> {
    seq![
        "Kill an enemy."@,
        "Kill 50 enemies."@,
        "Kill 1000 enemies."@,
        "Kill 1000 non-elite enemies."@,
        "Reach wave 2."@,
        "Reach wave 5."@,
        "Reach level 8, 8 times."@,
        "Reach level 24."@,
        "Kill an elite enemy."@,
        "Kill 50 elite enemies."@,
        "Kill 50 bannermen."@,
        "Kill 15 ghosts."@,
        "Upgrade your watchtower five times."@,
        "Upgrade your mage's guild five times."@,
        "Upgrade you mana well five times."@,
        "Lose ten buildings."@,
    ]
}

/// The icon paths of the game's achievements, in order.
pub open spec fn achievement_icons() -> Seq<Seq<char>> {
    seq![
        "/sprites/achievements/a01_16_16.png"@,
        "/sprites/achievements/a02_16_16.png"@,
        "/sprites/achievements/a03_16_16.png"@,
        "/sprites/achievements/a04_16_16.png"@,
        "/sprites/achievements/a05_16_16.png"@,
        "/sprites/achievements/a06_16_16.png"@,
        "/sprites/achievements/a07_16_16.png"@,
        "/sprites/achievements/a08_16_16.png"@,
        "/sprites/achievements/a09_16_16.png"@,
        "/sprites/achievements/a10_16_16.png"@,
        "/sprites/achievements/a11_16_16.png"@,
        "/sprites/achievements/a12_16_16.png"@,
        "/sprites/achievements/a13_16_16.png"@,
        "/sprites/achievements/a14_16_16.png"@,
        "/sprites/achievements/a15_16_16.png"@,
        "/sprites/achievements/a16_16_16.png"@,
    ]
}

/// Whether `list` holds the game's achievements, in order, with any progress.
pub open spec fn is_achievement_list(list: Seq<Achievement>) -> bool {
    &&& list.len() == 16
    &&& forall|i: int| 0 <= i < 16 ==> #[trigger] list[i].target() == achievement_targets()[i]
    &&& forall|i: int| 0 <= i < 16 ==> #[trigger] list[i].model() == achievement_models()[i]
    &&& forall|i: int| 0 <= i < 16 ==> #[trigger] list[i].name() == achievement_names()[i]
    &&& forall|i: int| 0 <= i < 16 ==> #[trigger] list[i].description() == achievement_descriptions()[i]
    &&& forall|i: int| 0 <= i < 16 ==> #[trigger] list[i].icon() is Some && list[i].icon().unwrap()@ == achievement_icons()[i]
}

/// The game's achievements, with no progress.
pub fn achievement_list() -> (r: Vec<Achievement>)
    ensures
        is_achievement_list(r@),
        forall|i: int| 0 <= i < r@.len() ==> #[trigger] r@[i].progress() == 0,
{
    let mut list: Vec<Achievement> = Vec::new();
    list.push(Achievement::new("First Blood", "Kill an enemy.", Some("/sprites/achievements/a01_16_16.png"), 1,
        (GameMessage::EnemyKilled(0), GameMessageFilter::Type)));
    list.push(Achievement::new("To Dust", "Kill 50 enemies.", Some("/sprites/achievements/a02_16_16.png"), 50,
        (GameMessage::EnemyKilled(0), GameMessageFilter::Type)));
    list.push(Achievement::new("They were legion", "Kill 1000 enemies.", Some("/sprites/achievements/a03_16_16.png"), 1000,
        (GameMessage::EnemyKilled(0), GameMessageFilter::Type)));
    list.push(Achievement::new("Puttin' on the broom", "Kill 1000 non-elite enemies.", Some("/sprites/achievements/a04_16_16.png"), 1000,
        (GameMessage::EnemyKilled(10), GameMessageFilter::Max)));
    list.push(Achievement::new("Survivor", "Reach wave 2.", Some("/sprites/achievements/a05_16_16.png"), 1,
        (GameMessage::NextWave(2), GameMessageFilter::Equality)));
    list.push(Achievement::new("Can't touch this", "Reach wave 5.", Some("/sprites/achievements/a06_16_16.png"), 1,
        (GameMessage::NextWave(5), GameMessageFilter::Equality)));
    list.push(Achievement::new("One kick, a thousand times", "Reach level 8, 8 times.", Some("/sprites/achievements/a07_16_16.png"), 8,
        (GameMessage::NextWave(8), GameMessageFilter::Equality)));
    list.push(Achievement::new("Supreme", "Reach level 24.", Some("/sprites/achievements/a08_16_16.png"), 1,
        (GameMessage::NextWave(24), GameMessageFilter::Equality)));
    list.push(Achievement::new("Royal Blood", "Kill an elite enemy.", Some("/sprites/achievements/a09_16_16.png"), 1,
        (GameMessage::EnemyKilled(10), GameMessageFilter::Min)));
    list.push(Achievement::new("Party like it's 1789", "Kill 50 elite enemies.", Some("/sprites/achievements/a10_16_16.png"), 50,
        (GameMessage::EnemyKilled(10), GameMessageFilter::Min)));
    list.push(Achievement::new("Speed limit", "Kill 50 bannermen.", Some("/sprites/achievements/a11_16_16.png"), 50,
        (GameMessage::EnemyKilled(11), GameMessageFilter::Equality)));
    list.push(Achievement::new("Who you gonna call?", "Kill 15 ghosts.", Some("/sprites/achievements/a12_16_16.png"), 15,
        (GameMessage::EnemyKilled(16), GameMessageFilter::Equality)));
    list.push(Achievement::new("The Lives of Others", "Upgrade your watchtower five times.", Some("/sprites/achievements/a13_16_16.png"), 5,
        (GameMessage::BuildingUp(0, 1), GameMessageFilter::Min)));
    list.push(Achievement::new("Union fees", "Upgrade your mage's guild five times.", Some("/sprites/achievements/a14_16_16.png"), 5,
        (GameMessage::BuildingUp(1, 1), GameMessageFilter::Min)));
    list.push(Achievement::new("Power Overwhelming!", "Upgrade you mana well five times.", Some("/sprites/achievements/a15_16_16.png"), 5,
        (GameMessage::BuildingUp(2, 1), GameMessageFilter::Min)));
    list.push(Achievement::new("Oops", "Lose ten buildings.", Some("/sprites/achievements/a16_16_16.png"), 10,
        (GameMessage::BuildingDown(0, 0), GameMessageFilter::Type)));
    assert(is_achievement_list(list@));
    list
}

/// Where the progress of the achievements comes from and goes to.
#[derive(Clone, Copy, Debug, PartialEq, Eq, Structural)]
pub enum AchievementProgressSource {
    /// Every achievement starts with a share of its target; progress is not kept.
    Percentage,
    /// Progress comes from, and is saved to, the progress cache.
    Cache,
}

/// The saved progress of every achievement, in order.
#[derive(Clone, Debug, Default)]
pub struct AchievementProgress {
    /// The progress of each achievement.
    pub progress_vals: Vec<u32>,
}

/// The list of the game's achievements and where their progress is kept.
pub struct AchievementSet {
    /// The achievements.
    pub list: Vec<Achievement>,
    source: AchievementProgressSource,
}

impl AchievementSet {
    /// The achievements.
    pub closed spec fn achievements(self) -> Seq<Achievement> {
        self.list@
    }

    /// Where the progress of this set is kept.
    pub closed spec fn progress_source(self) -> AchievementProgressSource {
        self.source
    }

    /// The achievement at position `i`, if there is one.
    pub fn get(&self, i: usize) -> (r: Option<&Achievement>)
        ensures
            r is Some <==> i < self.achievements().len(),
            r matches Some(a) ==> *a == self.achievements()[i as int],
    {
        if i < self.list.len() {
            Some(&self.list[i])
        } else {
            None
        }
    }

    /// The game's achievements with their starting progress: achievement `i`
    /// gets `progress[i]` where there is one (a share of the target for
    /// [AchievementProgressSource::Percentage], the cached value for
    /// [AchievementProgressSource::Cache]), and no progress otherwise.
    pub fn load(source: AchievementProgressSource, progress: &[u32]) -> (r: Self)
        ensures
            is_achievement_list(r.achievements()),
            r.progress_source() == source,
            forall|i: int| 0 <= i < 16 ==> #[trigger] r.achievements()[i].progress() == if i < progress@.len() {
                progress@[i]
            } else {
                0u32
            },
    {
        let mut list = achievement_list();
        let n: usize = if progress.len() < list.len() { progress.len() } else { list.len() };
        let mut i: usize = 0;
        while i < n
            invariant
                n <= progress@.len(),
                n <= 16,
                i <= n,
                is_achievement_list(list@),
                forall|j: int| 0 <= j < i ==> #[trigger] list@[j].progress() == progress@[j],
                forall|j: int| i <= j < 16 ==> #[trigger] list@[j].progress() == 0,
            decreases n - i,
        {
            let mut ach = list.remove(i);
            ach.set_progress(progress[i]);
            list.insert(i, ach);
            i = i + 1;
        }
        AchievementSet { list, source }
    }

    /// The progress to save: that of every achievement, in order, when the
    /// progress is cached; nothing when it came from a share of the targets.
    pub fn save(&self) -> (r: Option<AchievementProgress>)
        ensures
            r is Some <==> self.progress_source() == AchievementProgressSource::Cache,
            r matches Some(p) ==> p.progress_vals@.len() == self.achievements().len()
                && forall|i: int| 0 <= i < self.achievements().len() ==> #[trigger] p.progress_vals@[i] == self.achievements()[i].progress(),
    {
        match self.source {
            AchievementProgressSource::Cache => {
                let mut vals: Vec<u32> = Vec::new();
                let mut i: usize = 0;
                while i < self.list.len()
                    invariant
                        i <= self.achievements().len(),
                        vals@.len() == i,
                        forall|j: int| 0 <= j < i ==> #[trigger] vals@[j] == self.achievements()[j].progress(),
                    decreases self.list.len() - i,
                {
                    vals.push(self.list[i].get_progress());
                    i = i + 1;
                }
                Some(AchievementProgress { progress_vals: vals })
            },
            AchievementProgressSource::Percentage => None,
        }
    }

    /// Lets every achievement listen to a game message; returns the
    /// positions of the achievements that this message completed, in order.
    pub fn receive(&mut self, message: &UiMessage) -> (r: Vec<usize>)
        requires
            forall|i: int| 0 <= i < old(self).achievements().len() ==> (*message matches UiMessage::Extern(gm)
                && filter_matches(#[trigger] old(self).achievements()[i].model().1, old(self).achievements()[i].model().0, gm))
                ==> old(self).achievements()[i].progress() < u32::MAX,
        ensures
            final(self).progress_source() == old(self).progress_source(),
            final(self).achievements().len() == old(self).achievements().len(),
            forall|i: int| 0 <= i < old(self).achievements().len() ==> {
                let a = #[trigger] old(self).achievements()[i];
                let b = final(self).achievements()[i];
                let matched = *message matches UiMessage::Extern(gm) && filter_matches(a.model().1, a.model().0, gm);
                &&& b.target() == a.target()
                &&& b.model() == a.model()
                &&& b.name() == a.name()
                &&& b.description() == a.description()
                &&& b.icon() == a.icon()
                &&& b.progress() == if matched { a.progress() + 1 } else { a.progress() as int }
            },
            forall|k: int| 0 <= k < r@.len() ==> r@[k] < old(self).achievements().len(),
            forall|k: int, l: int| 0 <= k < l < r@.len() ==> r@[k] < r@[l],
            forall|i: usize| i < old(self).achievements().len() ==> (r@.contains(i) <==> (
                *message matches UiMessage::Extern(gm)
                    && filter_matches(old(self).achievements()[i as int].model().1, old(self).achievements()[i as int].model().0, gm)
                    && old(self).achievements()[i as int].progress() + 1 == old(self).achievements()[i as int].target())),
    {
        let mut completed: Vec<usize> = Vec::new();
        if let UiMessage::Extern(gm) = *message {
            let mut i: usize = 0;
            while i < self.list.len()
                invariant
                    i <= self.achievements().len(),
                    self.achievements().len() == old(self).achievements().len(),
                    self.source == old(self).source,
                    *message == UiMessage::Extern(gm),
                    forall|j: int| i <= j < self.achievements().len() ==> #[trigger] self.achievements()[j] == old(self).achievements()[j],
                    forall|j: int| 0 <= j < i ==> {
                        let a = #[trigger] old(self).achievements()[j];
                        let b = self.achievements()[j];
                        let matched = filter_matches(a.model().1, a.model().0, gm);
                        &&& b.target() == a.target()
                        &&& b.model() == a.model()
                        &&& b.name() == a.name()
                        &&& b.description() == a.description()
                        &&& b.icon() == a.icon()
                        &&& b.progress() == if matched { a.progress() + 1 } else { a.progress() as int }
                    },
                    forall|k: int| 0 <= k < completed@.len() ==> completed@[k] < i,
                    forall|k: int, l: int| 0 <= k < l < completed@.len() ==> completed@[k] < completed@[l],
                    forall|j: usize| j < i ==> (completed@.contains(j) <==> (
                        filter_matches(old(self).achievements()[j as int].model().1, old(self).achievements()[j as int].model().0, gm)
                            && old(self).achievements()[j as int].progress() + 1 == old(self).achievements()[j as int].target())),
                    forall|j: int| 0 <= j < old(self).achievements().len() ==>
                        filter_matches(#[trigger] old(self).achievements()[j].model().1, old(self).achievements()[j].model().0, gm)
                        ==> old(self).achievements()[j].progress() < u32::MAX,
                decreases self.list.len() - i,
            {
                let ghost before = completed@;
                let mut ach = self.list.remove(i);
                let done = ach.listen(&gm);
                self.list.insert(i, ach);
                if done {
                    completed.push(i);
                }
                proof {
                    assert forall|j: usize| j < i + 1 implies (completed@.contains(j) <==> (
                        filter_matches(old(self).achievements()[j as int].model().1, old(self).achievements()[j as int].model().0, gm)
                            && old(self).achievements()[j as int].progress() + 1 == old(self).achievements()[j as int].target())) by {
                        if j < i {
                            if completed@.contains(j) {
                                let k = choose|k: int| 0 <= k < completed@.len() && completed@[k] == j;
                                if k < before.len() {
                                    assert(before[k] == j);
                                }
                            }
                            if before.contains(j) {
                                let k = choose|k: int| 0 <= k < before.len() && before[k] == j;
                                assert(completed@[k] == j);
                            }
                        } else {
                            if done {
                                assert(completed@[completed@.len() - 1] == j);
                            } else if completed@.contains(j) {
                                let k = choose|k: int| 0 <= k < completed@.len() && completed@[k] == j;
                                assert(before[k] < i);
                            }
                        }
                    }
                }
                i = i + 1;
            }
        }
        completed
    }
}

/// The progress, and the number of completions reported, after an
/// achievement with `progress` towards `target` listened to messages that
/// matched or not as `matched` says, in order.
pub open spec fn listen_run(progress: int, target: int, matched: Seq<bool>) -> (int, int)
    decreases matched.len(),
{
    if matched.len() == 0 {
        (progress, 0)
    } else {
        let (p, c) = listen_run(progress, target, matched.drop_last());
        let p2 = if matched.last() { p + 1 } else { p };
        (p2, c + if matched.last() && p2 == target { 1int } else { 0int })
    }
}

/// The number of `true` in `s`.
pub open spec fn count_true(s: Seq<bool>) -> int
    decreases s.len(),
{
    if s.len() == 0 {
        0
    } else {
        count_true(s.drop_last()) + if s.last() { 1int } else { 0int }
    }
}

/// An achievement reports its completion at most once, however many
/// messages it listens to: exactly when its progress goes from below its
/// target to at least its target; every matching message counts once.
pub proof fn law_completion_reported_once(progress: int, target: int, matched: Seq<bool>)
    ensures
        count_true(matched) >= 0,
        listen_run(progress, target, matched).0 == progress + count_true(matched),
        listen_run(progress, target, matched).1 == if progress < target <= progress + count_true(matched) { 1int } else { 0int },
    decreases matched.len(),
{
    if matched.len() > 0 {
        law_completion_reported_once(progress, target, matched.drop_last());
    }
}

/// A list of scores, as kept in the high score file.
#[derive(Clone, Debug, Default)]
pub struct ScoreList {
    /// The scores.
    pub scores: Vec<(u32, u32)>,
}

/// The most scores a high score list keeps.
pub const HIGHSCORE_SLOTS: usize = 25;

/// The position at which `score` goes into the descending list `scores`:
/// before the first score it reaches, or at the end.
pub open spec fn highscore_position(scores: Seq<i32>, score: i32) -> int
    decreases scores.len(),
{
    if scores.len() == 0 {
        0
    } else if score >= scores[0] {
        0
    } else {
        1 + highscore_position(scores.drop_first(), score)
    }
}

/// Whether `score` makes it into the high score list `scores`: the list is
/// not full yet, or the score reaches its last entry.
pub open spec fn qualifies(scores: Seq<i32>, score: i32) -> bool {
    scores.len() < HIGHSCORE_SLOTS || score >= (if scores.len() == 0 { 0i32 } else { scores.last() })
}

/// The list `scores` after `score` was put at its position, cut back by
/// one entry when that makes it longer than the list may be.
pub open spec fn with_highscore(scores: Seq<i32>, score: i32) -> Seq<i32> {
    let inserted = scores.insert(highscore_position(scores, score), score);
    if inserted.len() > HIGHSCORE_SLOTS {
        inserted.drop_last()
    } else {
        inserted
    }
}

proof fn lemma_highscore_position(scores: Seq<i32>, score: i32, i: int)
    requires
        0 <= i <= scores.len(),
        forall|j: int| 0 <= j < i ==> score < scores[j],
        i == scores.len() || score >= scores[i],
    ensures
        highscore_position(scores, score) == i,
    decreases scores.len(),
{
    if scores.len() > 0 && i > 0 {
        let rest = scores.drop_first();
        assert forall|j: int| 0 <= j < i - 1 implies score < rest[j] by {
            assert(rest[j] == scores[j + 1]);
        }
        if i - 1 < rest.len() {
            assert(rest[i - 1] == scores[i]);
        }
        lemma_highscore_position(rest, score, i - 1);
    }
}

proof fn lemma_highscore_position_bounds(scores: Seq<i32>, score: i32)
    ensures
        0 <= highscore_position(scores, score) <= scores.len(),
        forall|j: int| 0 <= j < highscore_position(scores, score) ==> score < scores[j],
        highscore_position(scores, score) < scores.len() ==> score >= scores[highscore_position(scores, score)],
    decreases scores.len(),
{
    if scores.len() > 0 && score < scores[0] {
        let rest = scores.drop_first();
        lemma_highscore_position_bounds(rest, score);
        assert forall|j: int| 0 <= j < highscore_position(scores, score) implies score < scores[j] by {
            if j > 0 {
                assert(scores[j] == rest[j - 1]);
            }
        }
    }
}

/// Puts `score` into the descending high score list if it qualifies (the
/// list holds fewer than 25 scores, or the score reaches the last one),
/// before the first score it reaches, and cuts the list back to its former
/// length past 25; returns the position it was put at.
pub fn record_highscore(highscores: &mut Vec<i32>, score: i32) -> (r: Option<usize>)
    requires
        old(highscores)@.len() < usize::MAX,
    ensures
        r is Some <==> qualifies(old(highscores)@, score),
        r matches Some(index) ==> index == highscore_position(old(highscores)@, score)
            && final(highscores)@ == with_highscore(old(highscores)@, score),
        r is None ==> final(highscores)@ == old(highscores)@,
{
    let last: i32 = if highscores.len() == 0 { 0 } else { highscores[highscores.len() - 1] };
    if highscores.len() < HIGHSCORE_SLOTS || score >= last {
        let mut i: usize = 0;
        while i < highscores.len() && score < highscores[i]
            invariant
                i <= highscores@.len(),
                highscores@ == old(highscores)@,
                forall|j: int| 0 <= j < i ==> score < highscores@[j],
            decreases highscores.len() - i,
        {
            i = i + 1;
        }
        let index = i;
        proof {
            lemma_highscore_position(old(highscores)@, score, index as int);
        }
        highscores.insert(index, score);
        if highscores.len() > HIGHSCORE_SLOTS {
            highscores.pop();
        }
        Some(index)
    } else {
        None
    }
}

/// A list that is sorted from the highest score down.
pub open spec fn descending(scores: Seq<i32>) -> bool {
    forall|i: int, j: int| 0 <= i < j < scores.len() ==> scores[i] >= scores[j]
}

/// Recording a score keeps a high score list sorted from the highest score
/// down, never makes it longer than 25 entries unless it already was, and
/// puts the score, when it qualifies, at the position returned.
pub proof fn law_highscores_stay_sorted(scores: Seq<i32>, score: i32)
    requires
        descending(scores),
    ensures
        qualifies(scores, score) ==> descending(with_highscore(scores, score)),
        qualifies(scores, score) ==> with_highscore(scores, score).len() <= if scores.len() < HIGHSCORE_SLOTS {
            HIGHSCORE_SLOTS as int
        } else {
            scores.len() as int
        },
        qualifies(scores, score) && highscore_position(scores, score) < HIGHSCORE_SLOTS ==>
            with_highscore(scores, score)[highscore_position(scores, score)] == score,
{
    lemma_highscore_position_bounds(scores, score);
    let p = highscore_position(scores, score);
    let ins = scores.insert(p, score);
    assert forall|i: int, j: int| 0 <= i < j < ins.len() implies ins[i] >= ins[j] by {
        if j < p {
        } else if j == p {
            assert(ins[i] == scores[i]);
        } else if i < p {
            assert(ins[j] == scores[j - 1]);
            assert(score < scores[i]);
            if p < scores.len() {
                assert(scores[p] <= score);
            }
        } else if i == p {
            assert(ins[j] == scores[j - 1]);
            assert(scores[p] >= scores[j - 1]);
        } else {
            assert(ins[i] == scores[i - 1]);
            assert(ins[j] == scores[j - 1]);
        }
    }
}

} // verus!
