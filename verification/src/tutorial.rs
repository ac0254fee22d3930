use vstd::prelude::*;
use crate::game_message::{GameMessage, GameMessageFilter, UiMessage, UiMessageFilter, ui_filter_matches};
use crate::wave_menu::{ID_ENEMIES, ID_HOUSE, ID_SPELLS};

verus! {

/// The id of the box that shows tutorial messages.
pub const TUTORIAL_BOX: u32 = 600;
/// The id of a shown tutorial message.
pub const TUTORIAL_INNER: u32 = 601;
/// The id of the button that closes a tutorial message.
pub const TUTORIAL_CLOSE: u32 = 602;

/// A hint shown once, the first time a message fulfils its condition.
#[derive(Clone, Debug)]
pub struct TutorialMessage {
    title: String,
    message: String,
    shown: bool,
    condition: UiMessageFilter,
}

impl TutorialMessage {
    /// The hint's title.
    pub closed spec fn title(self) -> Seq<char> {
        self.title@
    }

    /// The hint's text.
    pub closed spec fn text(self) -> Seq<char> {
        self.message@
    }

    /// Whether the hint has been shown.
    pub closed spec fn shown(self) -> bool {
        self.shown
    }

    /// The condition on which the hint is shown.
    pub closed spec fn condition(self) -> UiMessageFilter {
        self.condition
    }

    /// A hint not shown yet.
    pub fn new(title: &str, message: &str, condition: UiMessageFilter) -> (r: Self)
        ensures
            r.title() == title@,
            r.text() == message@,
            !r.shown(),
            r.condition() == condition,
    {
        TutorialMessage { title: title.to_owned(), message: message.to_owned(), shown: false, condition }
    }

    /// The hint's title.
    pub fn get_title(&self) -> (r: &str)
        ensures
            r@ == self.title(),
    {
        self.title.as_str()
    }

    /// The hint's text.
    pub fn get_message(&self) -> (r: &str)
        ensures
            r@ == self.text(),
    {
        self.message.as_str()
    }
}

/// What the interface has to do to show a hint.
#[derive(Clone, Copy, Debug, PartialEq, Eq, Structural)]
pub struct TutorialStep {
    /// Whether a hint on screen has to be taken down first.
    pub replace_previous: bool,
    /// The position of the hint to show.
    pub message: usize,
}

/// What receiving `message` does: `after` is `before` with the hints the
/// message triggers shown, `steps` shows them in order, and the hint on
/// screen is taken down when the message closes it.
pub open spec fn receive_post(before: TutorialManager, after: TutorialManager, message: UiMessage, steps: Seq<TutorialStep>) -> bool {
    &&& (after.hints().len() == before.hints().len())
    &&& (forall|i: int| 0 <= i < before.hints().len() ==> {
        let a = #[trigger] before.hints()[i];
        let b = after.hints()[i];
        &&& b.shown() == (a.shown() || before.triggers(message, i))
        &&& b.condition() == a.condition()
        &&& b.title() == a.title()
        &&& b.text() == a.text()
    })
    &&& (forall|k: int| 0 <= k < steps.len() ==> #[trigger] steps[k].message < before.hints().len()
        && steps[k].replace_previous == (k > 0 || before.active()))
    &&& (forall|k: int, l: int| 0 <= k < l < steps.len() ==> steps[k].message < steps[l].message)
    &&& (forall|i: int| 0 <= i < before.hints().len() ==> (before.triggers(message, i) <==>
        exists|k: int| 0 <= k < steps.len() && #[trigger] steps[k].message == i))
    &&& (after.active() == if message == UiMessage::Triggered(TUTORIAL_CLOSE) {
        false
    } else {
        before.active() || steps.len() > 0
    })
}

/// Shows tutorial hints when appropriate.
pub struct TutorialManager {
    messages: Vec<TutorialMessage>,
    active: bool,
}

/// The conditions of the game's tutorial hints, in order.
pub open spec fn tutorial_conditions() -> Seq<UiMessageFilter> {
    seq![
        UiMessageFilter::Ext(GameMessage::UpdateCityHealth(0), GameMessageFilter::Type),
        UiMessageFilter::Ext(GameMessage::UpdateSpellSlots(0, 16), GameMessageFilter::Max),
        UiMessageFilter::Ext(GameMessage::EnemyKilled(0), GameMessageFilter::Type),
        UiMessageFilter::Ext(GameMessage::EnemyKilled(10), GameMessageFilter::Min),
        UiMessageFilter::Ext(GameMessage::NextWave(2), GameMessageFilter::Equality),
        UiMessageFilter::Ui(UiMessage::Triggered(ID_ENEMIES)),
        UiMessageFilter::Ui(UiMessage::Triggered(ID_SPELLS)),
        UiMessageFilter::Ui(UiMessage::Triggered(ID_HOUSE)),
        UiMessageFilter::Ext(GameMessage::BuildingUp(0, 0), GameMessageFilter::Type),
        UiMessageFilter::Ext(GameMessage::BuildingDown(0, 0), GameMessageFilter::Type),
    ]
}

/// The titles of the game's tutorial hints, in order.
pub open spec fn tutorial_titles() -> Seq<Seq<char>> {
    seq![
        "Defend the town!"@,
        "You just cast a spell"@,
        "You killed an enemy"@,
        "You killed an elite enemy"@,
        "Brief Respite"@,
        "Lookout"@,
        "Spell Book"@,
        "Construction"@,
        "You built a building"@,
        "You just lost a building"@,
    ]
}

/// The texts of the game's tutorial hints, in order.
pub open spec fn tutorial_texts() -> Seq<Seq<char>> {
    seq![
        "Kill skeletons before they reach the town!\n\nMove with A/D and cast spells with J/K/L/;. You can hover your spells to see what they do."@,
        "Casting a spell blocks some of your spells slots for some time.\n\nMore powerful spells block more spell slots, and for longer.\n\nYou can view the status of your spell slots in the top left.\n\nHover over your spells to see their spell slot requirements."@,
        "Killing enemies grants you gold and increases your total score.\n\nGold is used to purchase upgrades between waves."@,
        "Elite enemies are tougher than normal enemies, have more abilities and deal more damage to your city.\n\nBut they are also worth a lot more gold!"@,
        "You survived the first wave! Take some time to look around town.\n\nClick the three left icons to look at your available options.\n\nWhen you are done, use the right arrow icon to start the next wave."@,
        "Here you can view what enemies you will face in the next wave.\n\nAfter upgrading your lookout in the construction menu, you can reroll this selection.\n\nRerolling gets more expensive every time."@,
        "Here you can view your equipped and available spells.\n\nPurchase spells for gold by clicking them. Purchasing some spells requires you to upgrade your mage guild in the buildings menu first. Purchasing a spell also makes further spells more expensive.\n\nTo equip a spell for the next wave, click it and then click the slot you want it in."@,
        "Here you can construct and upgrade your town's buildings for gold.\n\nConstruct the watchtower to reroll approaching enemies and later increase your movement speed.\n\nConstruct and upgrade the Mage's Guild to allow the purchase of more powerful spells.\n\nConstruct and upgrade the mana well to increase the amount of spell slots available in combat."@,
        "Constructing a building gives you a permanent upgrade.\n\nAdditionally, buildings can protect your town. Enemies getting past you will first destroy your buildings before damaging your town."@,
        "Enemies getting past you will first destroy your buildings before damaging your town.\n\nYou can always rebuild the destroyed building."@,
    ]
}

/// Whether `hints` are the game's tutorial hints, none shown yet.
pub open spec fn is_full_tutorial(hints: Seq<TutorialMessage>) -> bool {
    &&& hints.len() == 10
    &&& forall|i: int| 0 <= i < 10 ==> {
        let h = #[trigger] hints[i];
        &&& h.condition() == tutorial_conditions()[i]
        &&& h.title() == tutorial_titles()[i]
        &&& h.text() == tutorial_texts()[i]
        &&& !h.shown()
    }
}

impl TutorialManager {
    /// The hints.
    pub closed spec fn hints(self) -> Seq<TutorialMessage> {
        self.messages@
    }

    /// Whether a hint is on screen.
    pub closed spec fn active(self) -> bool {
        self.active
    }

    /// Whether hint `i` is shown by `message`: it was not shown yet and the
    /// message fulfils its condition.
    pub open spec fn triggers(self, message: UiMessage, i: int) -> bool {
        !self.hints()[i].shown() && ui_filter_matches(self.hints()[i].condition(), message)
    }

    /// A manager with no hints.
    pub fn new_empty() -> (r: Self)
        ensures
            r.hints() == Seq::<TutorialMessage>::empty(),
            !r.active(),
    {
        TutorialManager { messages: Vec::new(), active: false }
    }

    /// A manager with the game's hints, none shown yet.
    pub fn new() -> (r: Self)
        ensures
            is_full_tutorial(r.hints()),
            !r.active(),
    {
        let mut messages: Vec<TutorialMessage> = Vec::new();
        messages.push(TutorialMessage::new(
            "Defend the town!",
            "Kill skeletons before they reach the town!\n\nMove with A/D and cast spells with J/K/L/;. You can hover your spells to see what they do.",
            UiMessageFilter::Ext(GameMessage::UpdateCityHealth(0), GameMessageFilter::Type),
        ));
        messages.push(TutorialMessage::new(
            "You just cast a spell",
            "Casting a spell blocks some of your spells slots for some time.\n\nMore powerful spells block more spell slots, and for longer.\n\nYou can view the status of your spell slots in the top left.\n\nHover over your spells to see their spell slot requirements.",
            UiMessageFilter::Ext(GameMessage::UpdateSpellSlots(0, 16), GameMessageFilter::Max),
        ));
        messages.push(TutorialMessage::new(
            "You killed an enemy",
            "Killing enemies grants you gold and increases your total score.\n\nGold is used to purchase upgrades between waves.",
            UiMessageFilter::Ext(GameMessage::EnemyKilled(0), GameMessageFilter::Type),
        ));
        messages.push(TutorialMessage::new(
            "You killed an elite enemy",
            "Elite enemies are tougher than normal enemies, have more abilities and deal more damage to your city.\n\nBut they are also worth a lot more gold!",
            UiMessageFilter::Ext(GameMessage::EnemyKilled(10), GameMessageFilter::Min),
        ));
        messages.push(TutorialMessage::new(
            "Brief Respite",
            "You survived the first wave! Take some time to look around town.\n\nClick the three left icons to look at your available options.\n\nWhen you are done, use the right arrow icon to start the next wave.",
            UiMessageFilter::Ext(GameMessage::NextWave(2), GameMessageFilter::Equality),
        ));
        messages.push(TutorialMessage::new(
            "Lookout",
            "Here you can view what enemies you will face in the next wave.\n\nAfter upgrading your lookout in the construction menu, you can reroll this selection.\n\nRerolling gets more expensive every time.",
            UiMessageFilter::Ui(UiMessage::Triggered(ID_ENEMIES)),
        ));
        messages.push(TutorialMessage::new(
            "Spell Book",
            "Here you can view your equipped and available spells.\n\nPurchase spells for gold by clicking them. Purchasing some spells requires you to upgrade your mage guild in the buildings menu first. Purchasing a spell also makes further spells more expensive.\n\nTo equip a spell for the next wave, click it and then click the slot you want it in.",
            UiMessageFilter::Ui(UiMessage::Triggered(ID_SPELLS)),
        ));
        messages.push(TutorialMessage::new(
            "Construction",
            "Here you can construct and upgrade your town's buildings for gold.\n\nConstruct the watchtower to reroll approaching enemies and later increase your movement speed.\n\nConstruct and upgrade the Mage's Guild to allow the purchase of more powerful spells.\n\nConstruct and upgrade the mana well to increase the amount of spell slots available in combat.",
            UiMessageFilter::Ui(UiMessage::Triggered(ID_HOUSE)),
        ));
        messages.push(TutorialMessage::new(
            "You built a building",
            "Constructing a building gives you a permanent upgrade.\n\nAdditionally, buildings can protect your town. Enemies getting past you will first destroy your buildings before damaging your town.",
            UiMessageFilter::Ext(GameMessage::BuildingUp(0, 0), GameMessageFilter::Type),
        ));
        messages.push(TutorialMessage::new(
            "You just lost a building",
            "Enemies getting past you will first destroy your buildings before damaging your town.\n\nYou can always rebuild the destroyed building.",
            UiMessageFilter::Ext(GameMessage::BuildingDown(0, 0), GameMessageFilter::Type),
        ));
        assert(messages@.len() == 10);
        TutorialManager { active: false, messages }
    }

    /// Whether a hint is on screen.
    pub fn is_active(&self) -> (r: bool)
        ensures
            r == self.active(),
    {
        self.active
    }

    /// The hint at position `i`, if there is one.
    pub fn get_message(&self, i: usize) -> (r: Option<&TutorialMessage>)
        ensures
            r is Some <==> i < self.hints().len(),
            r matches Some(m) ==> *m == self.hints()[i as int],
    {
        if i < self.messages.len() {
            Some(&self.messages[i])
        } else {
            None
        }
    }

    /// Shows, in order, every hint not shown yet whose condition `message`
    /// fulfils (each shown hint replaces the one on screen), and takes the
    /// hint down when `message` is a click on its close button.
    pub fn receive(&mut self, message: &UiMessage) -> (r: Vec<TutorialStep>)
        ensures
            receive_post(*old(self), *final(self), *message, r@),
    {
        let mut steps: Vec<TutorialStep> = Vec::new();
        let n = self.messages.len();
        let mut i: usize = 0;
        while i < n
            invariant
                n == self.messages@.len(),
                n == old(self).messages@.len(),
                i <= n,
                self.active == (old(self).active || steps@.len() > 0),
                forall|j: int| i <= j < n ==> #[trigger] self.messages@[j] == old(self).messages@[j],
                forall|j: int| 0 <= j < i ==> {
                    let a = #[trigger] old(self).messages@[j];
                    let b = self.messages@[j];
                    &&& b.shown == (a.shown || old(self).triggers(*message, j))
                    &&& b.condition == a.condition
                    &&& b.title@ == a.title@
                    &&& b.message@ == a.message@
                },
                forall|k: int| 0 <= k < steps@.len() ==> #[trigger] steps@[k].message < i
                    && steps@[k].replace_previous == (k > 0 || old(self).active),
                forall|k: int, l: int| 0 <= k < l < steps@.len() ==> steps@[k].message < steps@[l].message,
                forall|j: int| 0 <= j < i ==> (old(self).triggers(*message, j) <==>
                    exists|k: int| 0 <= k < steps@.len() && #[trigger] steps@[k].message == j),
            decreases n - i,
        {
            let fires = !self.messages[i].shown && self.messages[i].condition.check(message);
            let ghost before = steps@;
            if fires {
                let mut m = self.messages.remove(i);
                m.shown = true;
                self.messages.insert(i, m);
                steps.push(TutorialStep { replace_previous: self.active, message: i });
                self.active = true;
            }
            proof {
                assert forall|j: int| 0 <= j < i + 1 implies (old(self).triggers(*message, j) <==>
                    exists|k: int| 0 <= k < steps@.len() && #[trigger] steps@[k].message == j) by {
                    if j < i {
                        if old(self).triggers(*message, j) {
                            let k = choose|k: int| 0 <= k < before.len() && #[trigger] before[k].message == j;
                            assert(steps@[k].message == j);
                        }
                        if exists|k: int| 0 <= k < steps@.len() && #[trigger] steps@[k].message == j {
                            let k = choose|k: int| 0 <= k < steps@.len() && #[trigger] steps@[k].message == j;
                            if k < before.len() {
                                assert(before[k].message == j);
                            }
                        }
                    } else {
                        if fires {
                            assert(steps@[steps@.len() - 1].message == j);
                        } else if exists|k: int| 0 <= k < steps@.len() && #[trigger] steps@[k].message == j {
                            let k = choose|k: int| 0 <= k < steps@.len() && #[trigger] steps@[k].message == j;
                            assert(before[k].message < i);
                        }
                    }
                }
            }
            i = i + 1;
        }
        if *message == UiMessage::Triggered(TUTORIAL_CLOSE) {
            self.active = false;
        }
        let ghost before = *old(self);
        let ghost after = *self;
        assert(after.hints().len() == before.hints().len());
        assert(forall|i: int| 0 <= i < before.hints().len() ==> {
            let a = #[trigger] before.hints()[i];
            let b = after.hints()[i];
            &&& b.shown() == (a.shown() || before.triggers(*message, i))
            &&& b.condition() == a.condition()
            &&& b.title() == a.title()
            &&& b.text() == a.text()
        });
        assert(before.hints().len() == n);
        assert(before.active() == old(self).active);
        assert forall|k: int| 0 <= k < steps@.len() implies #[trigger] steps@[k].message < before.hints().len()
            && steps@[k].replace_previous == (k > 0 || before.active()) by {
            assert(steps@[k].message < i);
        }
        assert(forall|i: int| 0 <= i < before.hints().len() ==> (before.triggers(*message, i) <==>
            exists|k: int| 0 <= k < steps@.len() && #[trigger] steps@[k].message == i));
        steps
    }
}

/// A hint is shown at most once: no hint shown by one message is shown
/// again by the next.
pub proof fn law_hint_shown_once(
    m0: TutorialManager, m1: TutorialManager, m2: TutorialManager,
    first: UiMessage, second: UiMessage,
    s1: Seq<TutorialStep>, s2: Seq<TutorialStep>,
)
    requires
        receive_post(m0, m1, first, s1),
        receive_post(m1, m2, second, s2),
    ensures
        forall|k: int, l: int| 0 <= k < s1.len() && 0 <= l < s2.len() ==> s1[k].message != s2[l].message,
{
    assert forall|k: int, l: int| 0 <= k < s1.len() && 0 <= l < s2.len() implies s1[k].message != s2[l].message by {
        let i = s1[k].message as int;
        if s2[l].message == i {
            assert(m0.triggers(first, i));
            assert(m1.hints()[i].shown());
            assert(m1.triggers(second, i));
        }
    }
}

/// A tutorial without hints never shows one: whatever messages it
/// receives, one after another, it stays without hints and inactive.
/// (`states[i + 1]` is the manager after receiving `messages[i]`, with the
/// steps `steps[i]`.)
pub proof fn law_empty_tutorial_stays_inactive(
    states: Seq<TutorialManager>,
    messages: Seq<UiMessage>,
    steps: Seq<Seq<TutorialStep>>,
)
    requires
        states.len() == messages.len() + 1,
        steps.len() == messages.len(),
        states[0].hints().len() == 0,
        !states[0].active(),
        forall|i: int| 0 <= i < messages.len() ==> #[trigger] receive_post(states[i], states[i + 1], messages[i], steps[i]),
    ensures
        forall|i: int| 0 <= i < states.len() ==> (#[trigger] states[i]).hints().len() == 0 && !states[i].active(),
        forall|i: int| 0 <= i < steps.len() ==> (#[trigger] steps[i]).len() == 0,
{
    lemma_empty_prefix(states, messages, steps, states.len() - 1);
}

proof fn lemma_empty_prefix(
    states: Seq<TutorialManager>,
    messages: Seq<UiMessage>,
    steps: Seq<Seq<TutorialStep>>,
    n: int,
)
    requires
        0 <= n < states.len(),
        states.len() == messages.len() + 1,
        steps.len() == messages.len(),
        states[0].hints().len() == 0,
        !states[0].active(),
        forall|i: int| 0 <= i < messages.len() ==> #[trigger] receive_post(states[i], states[i + 1], messages[i], steps[i]),
    ensures
        forall|i: int| 0 <= i <= n ==> (#[trigger] states[i]).hints().len() == 0 && !states[i].active(),
        forall|i: int| 0 <= i < n ==> (#[trigger] steps[i]).len() == 0,
    decreases n,
{
    if n > 0 {
        lemma_empty_prefix(states, messages, steps, n - 1);
        let k = n - 1;
        assert(receive_post(states[k], states[k + 1], messages[k], steps[k]));
        if steps[k].len() > 0 {
            assert(steps[k][0].message < states[k].hints().len());
        }
    }
}

} // verus!
