use vstd::prelude::*;
use crate::buildings::{BUILDING_MAX_LEVEL, BUILDING_TYPES, building_costs};
use crate::director::{Director, DirectorState, WAVE_SIZE, ascending};
use crate::game_data::GameData;
use crate::game_message::{GameMessage, UiMessage};
use crate::spell::{Spell, SpellCaster, SpellPool, SpellTemplate, SpellView, TemplateView};

verus! {

/// The id of the wave menu.
pub const ID_WAVE_MENU: u32 = 200;
/// The id of the box that holds the wave menu's open submenu.
pub const ID_WAVE_SUBMENU_CONT: u32 = 210;
/// The id of the wave menu's open submenu.
pub const ID_WAVE_SUBMENU: u32 = 220;
/// The id of the button that opens the spell book.
pub const ID_SPELLS: u32 = 201;
/// The id of the button that opens the lookout.
pub const ID_ENEMIES: u32 = 202;
/// The id of the button that opens the construction menu.
pub const ID_HOUSE: u32 = 203;
/// The id of the button that starts the next wave.
pub const ID_NEXT_WAVE: u32 = 204;
/// The id of the reroll button.
pub const ID_REROLL: u32 = 221;
/// The id of the first building's upgrade button; the others follow.
pub const ID_BUILDINGS_START: u32 = 222;
/// The id of the first equipped spell; the others follow.
pub const ID_SPELL_EQUIP_START: u32 = 230;
/// The id of the first spell of the shop; the others follow.
pub const ID_SPELL_AVAIL_START: u32 = 240;

/// The part of a game that the spell shop works on, as plain values: the
/// gold, the spell picked to be equipped, the shop's templates and the
/// spell bar.
#[verifier::ext_equal]
pub struct ShopState {
    pub gold: int,
    pub stored: Option<SpellView>,
    pub templates: Seq<TemplateView>,
    pub bar: Seq<SpellView>,
}

/// The shop's part of `data`, `pool` and `caster`.
pub open spec fn shop_state(data: GameData, pool: SpellPool, caster: SpellCaster) -> ShopState {
    ShopState {
        gold: data.gold() as int,
        stored: match pool.0 {
            Some(s) => Some(s@),
            None => None,
        },
        templates: pool.1@.map_values(|t: SpellTemplate| t@),
        bar: caster.spell_list().map_values(|s: Spell| s@),
    }
}

/// `t` twenty gold dearer if it has a price.
pub open spec fn bump_cost(t: TemplateView) -> TemplateView {
    if t.cost > 0 {
        TemplateView { level: t.level, cost: (t.cost + 20) as i32, guild_condition: t.guild_condition, spell: t.spell }
    } else {
        t
    }
}

/// What a click in the wave menu does to the shop, with the mage's guild at
/// level `guild`: the new state, whether the spell book has to be rebuilt,
/// and whether a spell was equipped.
///
/// A click on a shop spell buys it when it is not unlocked yet, the guild is
/// high enough and the gold suffices (every priced spell then costs twenty
/// gold more), and picks it when it is (now) unlocked. A click on a bar
/// position equips the picked spell there (at the end of a shorter bar).
pub open spec fn shop_step(st: ShopState, guild: u8, message: UiMessage) -> (ShopState, bool, bool) {
    match message {
        UiMessage::Triggered(id) => if ID_SPELL_AVAIL_START <= id < ID_SPELL_AVAIL_START + st.templates.len() {
            let index = id - ID_SPELL_AVAIL_START;
            let t = st.templates[index];
            let purchase = t.level == 0 && guild >= t.guild_condition && t.cost <= st.gold;
            let t2 = if purchase {
                TemplateView { level: 1, cost: t.cost, guild_condition: t.guild_condition, spell: t.spell }
            } else {
                t
            };
            let ts = st.templates.update(index, t2);
            let ts2 = if purchase { ts.map_values(|x: TemplateView| bump_cost(x)) } else { ts };
            let gold2 = if purchase { st.gold - t.cost } else { st.gold };
            if t2.level > 0 {
                (ShopState { gold: gold2, stored: Some(t2.spell), templates: ts2, bar: st.bar }, true, false)
            } else {
                (ShopState { gold: gold2, stored: st.stored, templates: ts2, bar: st.bar }, false, false)
            }
        } else if ID_SPELL_EQUIP_START <= id < ID_SPELL_EQUIP_START + 4 {
            let index = id - ID_SPELL_EQUIP_START;
            match st.stored {
                Some(s) => (ShopState {
                    gold: st.gold,
                    stored: None,
                    templates: st.templates,
                    bar: if index < st.bar.len() { st.bar.update(index, s) } else { st.bar.push(s) },
                }, true, true),
                None => (st, false, false),
            }
        } else {
            (st, false, false)
        },
        _ => (st, false, false),
    }
}

/// A click on spell `i` of the shop buys it only when it is not unlocked
/// yet, the mage's guild paid for is at least the spell's guild condition,
/// and the gold suffices. Otherwise gold and all spells stay as they were.
/// A purchase takes the spell's price, unlocks it, picks it to be equipped
/// and makes every priced spell twenty gold dearer (prices that could not
/// rise by twenty within `i32` are left out).
pub proof fn law_shop_buys_only_when_allowed(st: ShopState, guild: u8, i: int)
    requires
        0 <= i < st.templates.len(),
        ID_SPELL_AVAIL_START + i <= u32::MAX,
        forall|j: int| 0 <= j < st.templates.len() ==> #[trigger] st.templates[j].cost <= i32::MAX - 20,
    ensures
        ({
            let s2 = shop_step(st, guild, UiMessage::Triggered((ID_SPELL_AVAIL_START + i) as u32)).0;
            let t = st.templates[i];
            let allowed = t.level == 0 && guild >= t.guild_condition && t.cost <= st.gold;
            &&& !allowed ==> s2.gold == st.gold && s2.templates == st.templates
            &&& guild < t.guild_condition ==> s2.gold == st.gold && s2.templates == st.templates
            &&& allowed ==> {
                &&& s2.gold == st.gold - t.cost
                &&& s2.templates.len() == st.templates.len()
                &&& s2.templates[i].level == 1
                &&& s2.stored == Some(t.spell)
                &&& forall|j: int| 0 <= j < st.templates.len() ==> {
                    &&& (#[trigger] s2.templates[j]).cost == if st.templates[j].cost > 0 {
                        st.templates[j].cost + 20
                    } else {
                        st.templates[j].cost as int
                    }
                    &&& j != i ==> s2.templates[j].level == st.templates[j].level
                }
            }
        }),
{
    let id = (ID_SPELL_AVAIL_START + i) as u32;
    assert(id == ID_SPELL_AVAIL_START + i);
    assert(ID_SPELL_AVAIL_START <= id < ID_SPELL_AVAIL_START + st.templates.len());
    assert(id - ID_SPELL_AVAIL_START == i);
    let t = st.templates[i];
    let allowed = t.level == 0 && guild >= t.guild_condition && t.cost <= st.gold;
    let s2 = shop_step(st, guild, UiMessage::Triggered(id)).0;
    if !allowed {
        assert(st.templates.update(i, t) =~= st.templates);
        assert(s2.templates == st.templates);
    } else {
        let t2 = TemplateView { level: 1, cost: t.cost, guild_condition: t.guild_condition, spell: t.spell };
        let ts = st.templates.update(i, t2);
        assert(s2.templates == ts.map_values(|x: TemplateView| bump_cost(x)));
        assert forall|j: int| 0 <= j < st.templates.len() implies {
            &&& (#[trigger] s2.templates[j]).cost == if st.templates[j].cost > 0 {
                st.templates[j].cost + 20
            } else {
                st.templates[j].cost as int
            }
            &&& j != i ==> s2.templates[j].level == st.templates[j].level
        } by {
            assert(s2.templates[j] == bump_cost(ts[j]));
        }
        assert(s2.templates[i] == bump_cost(t2));
    }
}

/// Whether `message` is a click on one of `n` spells of the shop, the only
/// message that can raise prices.
pub open spec fn is_shop_click(message: UiMessage, n: int) -> bool {
    message matches UiMessage::Triggered(id) && ID_SPELL_AVAIL_START <= id < ID_SPELL_AVAIL_START + n
}

/// The number of clicks on one of `n` spells of the shop in `messages`.
pub open spec fn shop_clicks(messages: Seq<UiMessage>, n: int) -> int
    decreases messages.len(),
{
    if messages.len() == 0 {
        0
    } else {
        (if is_shop_click(messages[0], n) { 1int } else { 0int }) + shop_clicks(messages.drop_first(), n)
    }
}

proof fn lemma_shop_clicks_nonneg(messages: Seq<UiMessage>, n: int)
    ensures
        0 <= shop_clicks(messages, n) <= messages.len(),
    decreases messages.len(),
{
    if messages.len() > 0 {
        lemma_shop_clicks_nonneg(messages.drop_first(), n);
    }
}

/// Whether every shop price is at least zero and at most `bound`.
pub open spec fn prices_within(pool: SpellPool, bound: int) -> bool {
    forall|j: int| 0 <= j < pool.1@.len() ==> 0 <= #[trigger] pool.1@[j].cost <= bound
}

/// Handles one click of the wave menu on the spell shop and the spell bar;
/// returns whether the spell book has to be rebuilt and whether a spell was
/// equipped.
pub fn shop_click(message: &UiMessage, data: &mut GameData, pool: &mut SpellPool, caster: &mut SpellCaster) -> (r: (bool, bool))
    requires
        old(pool).1@.len() + ID_SPELL_AVAIL_START <= u32::MAX,
        prices_within(*old(pool), i32::MAX as int),
        is_shop_click(*message, old(pool).1@.len() as int) ==> prices_within(*old(pool), i32::MAX - 20),
    ensures
        ({
            let (st, triggered, equipped) = shop_step(
                shop_state(*old(data), *old(pool), *old(caster)),
                old(data).town().target_levels()[1],
                *message,
            );
            &&& shop_state(*final(data), *final(pool), *final(caster)) == st
            &&& r == (triggered, equipped)
        }),
        final(pool).1@.len() == old(pool).1@.len(),
        forall|j: int| 0 <= j < old(pool).1@.len() ==>
            old(pool).1@[j].cost <= #[trigger] final(pool).1@[j].cost <= old(pool).1@[j].cost + 20,
        !is_shop_click(*message, old(pool).1@.len() as int) ==>
            forall|j: int| 0 <= j < old(pool).1@.len() ==> #[trigger] final(pool).1@[j].cost == old(pool).1@[j].cost,
        final(data).score() == old(data).score(),
        final(data).last_gold() == old(data).last_gold(),
        final(data).city() == old(data).city(),
        final(data).town() == old(data).town(),
        final(caster).slots() == old(caster).slots(),
        final(caster).base() == old(caster).base(),
{
    let ghost st0 = shop_state(*data, *pool, *caster);
    let ghost guild0 = data.town().target_levels()[1];
    if let UiMessage::Triggered(id) = *message {
        let len = pool.1.len();
        if id >= ID_SPELL_AVAIL_START && id < ID_SPELL_AVAIL_START + (len as u32) {
            let index = (id - ID_SPELL_AVAIL_START) as usize;
            let guild = data.building_level(1);
            let ghost old_templates = pool.1@;
            let mut t = pool.1.remove(index);
            assert(t == old_templates[index as int]);
            let ghost tv = t@;
            assert(tv == st0.templates[index as int]);
            let mut purchased = false;
            if t.level == 0 && guild >= t.guild_condition && data.spend(t.cost) {
                t.level = 1;
                purchased = true;
            }
            assert(purchased == (tv.level == 0 && guild0 >= tv.guild_condition && tv.cost <= st0.gold));
            let mut triggered = false;
            if t.level > 0 {
                pool.0 = Some(t.spell.clone());
                triggered = true;
            }
            pool.1.insert(index, t);
            let ghost stored_now = pool.0;
            let ghost ts = pool.1@.map_values(|x: SpellTemplate| x@);
            assert(ts =~= st0.templates.update(index as int, pool.1@[index as int]@));
            assert forall|j: int| 0 <= j < ts.len() implies #[trigger] ts[j].cost == old(pool).1@[j].cost by {
                if j != index {
                    assert(ts[j] == st0.templates[j]);
                    assert(st0.templates[j] == old(pool).1@[j]@);
                }
            }
            if purchased {
                let n = pool.1.len();
                let mut k: usize = 0;
                while k < n
                    invariant
                        n == pool.1@.len(),
                        n == old(pool).1@.len(),
                        k <= n,
                        ts.len() == n,
                        prices_within(*old(pool), i32::MAX - 20),
                        forall|j: int| 0 <= j < n ==> #[trigger] ts[j].cost == old(pool).1@[j].cost,
                        forall|j: int| 0 <= j < k ==> #[trigger] pool.1@[j]@ == bump_cost(ts[j]),
                        forall|j: int| k <= j < n ==> #[trigger] pool.1@[j]@ == ts[j],
                        pool.0 == stored_now,
                    decreases n - k,
                {
                    let ghost before = pool.1@;
                    let mut x = pool.1.remove(k);
                    assert(x == before[k as int]);
                    assert(x@ == ts[k as int]);
                    assert(ts[k as int].cost == old(pool).1@[k as int].cost);
                    if x.cost > 0 {
                        x.cost = x.cost + 20;
                    }
                    pool.1.insert(k, x);
                    assert forall|j: int| 0 <= j < k + 1 implies #[trigger] pool.1@[j]@ == bump_cost(ts[j]) by {
                        if j < k {
                            assert(pool.1@[j] == before[j]);
                        }
                    }
                    assert forall|j: int| k + 1 <= j < n implies #[trigger] pool.1@[j]@ == ts[j] by {
                        assert(pool.1@[j] == before[j]);
                    }
                    k = k + 1;
                }
                assert(pool.1@.map_values(|x: SpellTemplate| x@) =~= ts.map_values(|x: TemplateView| bump_cost(x)));
                assert forall|j: int| 0 <= j < old(pool).1@.len() implies
                    old(pool).1@[j].cost <= #[trigger] pool.1@[j].cost <= old(pool).1@[j].cost + 20 by {
                    assert(pool.1@[j]@ == bump_cost(ts[j]));
                }
            } else {
                assert forall|j: int| 0 <= j < old(pool).1@.len() implies
                    old(pool).1@[j].cost <= #[trigger] pool.1@[j].cost <= old(pool).1@[j].cost + 20 by {
                    assert(pool.1@[j]@ == ts[j]);
                }
            }
            proof {
                let (st, trig, eq) = shop_step(st0, guild0, *message);
                let now = shop_state(*data, *pool, *caster);
                assert(st0.templates.len() == len);
                assert(ID_SPELL_AVAIL_START <= id < ID_SPELL_AVAIL_START + st0.templates.len());
                assert(id - ID_SPELL_AVAIL_START == index);
                assert(pool.1@[index as int]@.level > 0 <==> triggered);
                assert(now.gold == st.gold);
                assert(now.templates =~= st.templates);
                assert(now.bar =~= st.bar);
                assert(now.stored == st.stored);
                assert(trig == triggered);
                assert(!eq);
            }
            return (triggered, false);
        } else if id >= ID_SPELL_EQUIP_START && id < ID_SPELL_EQUIP_START + 4 {
            let index = (id - ID_SPELL_EQUIP_START) as usize;
            if let Some(stored) = pool.0.take() {
                caster.equip_spell(index, stored);
                proof {
                    let bar = caster.spell_list().map_values(|s: Spell| s@);
                    if index < st0.bar.len() {
                        assert(bar =~= st0.bar.update(index as int, stored@));
                    } else {
                        assert(bar =~= st0.bar.push(stored@));
                    }
                }
                return (true, true);
            }
            return (false, false);
        }
    }
    (false, false)
}

/// The shop's state after the clicks `messages`, in order, with the mage's
/// guild at level `guild`; whether each click asks for the spell book to be
/// rebuilt; and whether a spell was equipped.
pub open spec fn shop_run(st: ShopState, guild: u8, messages: Seq<UiMessage>) -> (ShopState, Seq<bool>, bool)
    decreases messages.len(),
{
    if messages.len() == 0 {
        (st, Seq::empty(), false)
    } else {
        let (s1, t1, e1) = shop_run(st, guild, messages.drop_last());
        let (s2, t2, e2) = shop_step(s1, guild, messages.last());
        (s2, t1.push(t2), e1 || e2)
    }
}

/// The submenus of the wave menu.
#[derive(Clone, Copy, Debug, PartialEq, Eq, Structural)]
pub enum Submenu {
    /// The lookout: the next wave's enemies and the reroll button.
    Enemies,
    /// The spell book.
    Spells,
    /// The construction menu.
    Buildings,
}

/// What the interface has to do after the wave menu handled its messages.
#[derive(Clone, Copy, Debug, PartialEq, Eq, Structural)]
pub enum MenuAction {
    /// Open the wave menu after the wave with this number.
    OpenWaveMenu(u32),
    /// Show this submenu in place of the one open.
    ShowSubmenu(Submenu),
    /// Close the wave menu.
    CloseWaveMenu,
    /// Announce the wave with this number.
    AnnounceWave(u32),
}

/// What handling the wave menu's messages asks of the interface.
pub struct WaveMenuOutcome {
    /// The interface actions, in order.
    pub actions: Vec<MenuAction>,
    /// Whether the player's spell slots, speed and spell bar have to be brought up to date.
    pub player_sync_needed: bool,
}

/// The number of the first wave announced among `messages`, if any.
pub open spec fn first_next_wave(messages: Seq<UiMessage>) -> Option<i32>
    decreases messages.len(),
{
    if messages.len() == 0 {
        None
    } else {
        match messages[0] {
            UiMessage::Extern(GameMessage::NextWave(w)) => Some(w),
            _ => first_next_wave(messages.drop_first()),
        }
    }
}

/// The building purchases for building kinds `i` to 2 after the clicks
/// `messages`, starting from `gold` and the building levels `levels`: the
/// gold and levels after them, the interface actions, and whether the
/// player needs to be brought up to date (a watchtower level, or a mana
/// well level while `can_add` slots).
pub open spec fn building_phase(gold: int, levels: Seq<u8>, messages: Seq<UiMessage>, can_add: bool, i: int)
    -> (int, Seq<u8>, Seq<MenuAction>, bool)
    decreases 3 - i,
{
    if i < 0 || i >= 3 {
        (gold, levels, Seq::empty(), false)
    } else {
        let clicked = messages.contains(UiMessage::Triggered((ID_BUILDINGS_START + i) as u32));
        let level = levels[i];
        let cost = building_costs(i)[level as int];
        let buy = clicked && level < BUILDING_MAX_LEVEL && cost <= gold;
        let gold1 = if buy { gold - cost } else { gold };
        let levels1 = if buy { levels.update(i, (level + 1) as u8) } else { levels };
        let sync = buy && ((i == 2 && can_add) || i == 0);
        let (g, l, a, s) = building_phase(gold1, levels1, messages, can_add, i + 1);
        (g, l, (if buy { seq![MenuAction::ShowSubmenu(Submenu::Buildings)] } else { Seq::empty() }) + a, sync || s)
    }
}

/// The spell-book actions asked for by `triggered`.
pub open spec fn spell_book_actions(triggered: Seq<bool>) -> Seq<MenuAction>
    decreases triggered.len(),
{
    if triggered.len() == 0 {
        Seq::empty()
    } else {
        spell_book_actions(triggered.drop_last()) + if triggered.last() {
            seq![MenuAction::ShowSubmenu(Submenu::Spells)]
        } else {
            Seq::empty()
        }
    }
}

/// The submenus opened by clicks on the wave menu's three buttons.
pub open spec fn submenu_actions(messages: Seq<UiMessage>) -> Seq<MenuAction> {
    (if messages.contains(UiMessage::Triggered(ID_ENEMIES)) { seq![MenuAction::ShowSubmenu(Submenu::Enemies)] } else { Seq::empty() })
        + (if messages.contains(UiMessage::Triggered(ID_SPELLS)) { seq![MenuAction::ShowSubmenu(Submenu::Spells)] } else { Seq::empty() })
        + (if messages.contains(UiMessage::Triggered(ID_HOUSE)) { seq![MenuAction::ShowSubmenu(Submenu::Buildings)] } else { Seq::empty() })
}

/// The number of the wave that `message` announces, if it announces one.
fn next_wave_of(message: &UiMessage) -> (r: Option<i32>)
    ensures
        r == match *message {
            UiMessage::Extern(GameMessage::NextWave(w)) => Some(w),
            _ => None,
        },
{
    match *message {
        UiMessage::Extern(GameMessage::NextWave(w)) => Some(w),
        _ => None,
    }
}

/// Whether `messages` holds `message`.
pub fn contains_message(messages: &[UiMessage], message: UiMessage) -> (r: bool)
    ensures
        r == messages@.contains(message),
{
    let mut i: usize = 0;
    while i < messages.len()
        invariant
            i <= messages.len(),
            forall|j: int| 0 <= j < i ==> messages@[j] != message,
        decreases messages.len() - i,
    {
        if messages[i] == message {
            return true;
        }
        i = i + 1;
    }
    false
}

/// The action that opens the wave menu for the first wave announced among
/// `messages`, and whether there is one.
fn open_menu(messages: &[UiMessage]) -> (r: (Vec<MenuAction>, bool))
    requires
        first_next_wave(messages@) matches Some(w) ==> w > i32::MIN,
    ensures
        r.0@ == match first_next_wave(messages@) {
            Some(w) => seq![MenuAction::OpenWaveMenu((w - 1) as u32)],
            None => Seq::<MenuAction>::empty(),
        },
        r.1 == first_next_wave(messages@) is Some,
{
    let mut actions: Vec<MenuAction> = Vec::new();
    let mut i: usize = 0;
    assert(messages@.skip(0) =~= messages@);
    while i < messages.len() && next_wave_of(&messages[i]).is_none()
        invariant
            i <= messages@.len(),
            first_next_wave(messages@) == first_next_wave(messages@.skip(i as int)),
        decreases messages.len() - i,
    {
        assert(messages@.skip(i as int).drop_first() =~= messages@.skip(i + 1));
        assert(messages@.skip(i as int)[0] == messages@[i as int]);
        i = i + 1;
    }
    if i < messages.len() {
        assert(messages@.skip(i as int)[0] == messages@[i as int]);
        if let Some(wave) = next_wave_of(&messages[i]) {
            actions.push(MenuAction::OpenWaveMenu((wave - 1) as u32));
            return (actions, true);
        }
    }
    assert(messages@.skip(i as int) =~= Seq::<UiMessage>::empty());
    (actions, false)
}

/// The submenus opened by clicks on the wave menu's three buttons.
fn submenus(messages: &[UiMessage]) -> (r: Vec<MenuAction>)
    ensures
        r@ == submenu_actions(messages@),
{
    let mut actions: Vec<MenuAction> = Vec::new();
    if contains_message(messages, UiMessage::Triggered(ID_ENEMIES)) {
        actions.push(MenuAction::ShowSubmenu(Submenu::Enemies));
    }
    if contains_message(messages, UiMessage::Triggered(ID_SPELLS)) {
        actions.push(MenuAction::ShowSubmenu(Submenu::Spells));
    }
    if contains_message(messages, UiMessage::Triggered(ID_HOUSE)) {
        actions.push(MenuAction::ShowSubmenu(Submenu::Buildings));
    }
    assert(actions@ =~= submenu_actions(messages@));
    actions
}

/// Handles the clicks `messages`, in order, on the spell shop and the spell
/// bar; returns the spell-book actions and whether a spell was equipped.
fn shop_phase(messages: &[UiMessage], data: &mut GameData, pool: &mut SpellPool, caster: &mut SpellCaster)
    -> (r: (Vec<MenuAction>, bool))
    requires
        old(pool).1@.len() + ID_SPELL_AVAIL_START <= u32::MAX,
        prices_within(*old(pool), i32::MAX - 20 * shop_clicks(messages@, old(pool).1@.len() as int)),
    ensures
        ({
            let (st, triggered, equipped) = shop_run(
                shop_state(*old(data), *old(pool), *old(caster)), old(data).town().target_levels()[1], messages@);
            &&& shop_state(*final(data), *final(pool), *final(caster)) == st
            &&& r.0@ == spell_book_actions(triggered)
            &&& r.1 == equipped
        }),
        final(data).town() == old(data).town(),
        final(data).score() == old(data).score(),
        final(data).city() == old(data).city(),
        final(data).last_gold() == old(data).last_gold(),
        final(caster).slots() == old(caster).slots(),
        final(caster).base() == old(caster).base(),
{
    let mut actions: Vec<MenuAction> = Vec::new();
    let mut equipped_any = false;
    let ghost st0 = shop_state(*data, *pool, *caster);
    let ghost guild = data.town().target_levels()[1];
    let mut k: usize = 0;
    assert(messages@.take(0) =~= Seq::<UiMessage>::empty());
    assert(messages@.skip(0) =~= messages@);
    while k < messages.len()
        invariant
            k <= messages@.len(),
            old(pool).1@.len() + ID_SPELL_AVAIL_START <= u32::MAX,
            pool.1@.len() == old(pool).1@.len(),
            prices_within(*pool, i32::MAX - 20 * shop_clicks(messages@.skip(k as int), old(pool).1@.len() as int)),
            guild == old(data).town().target_levels()[1],
            st0 == shop_state(*old(data), *old(pool), *old(caster)),
            ({
                let (st, triggered, equipped) = shop_run(st0, guild, messages@.take(k as int));
                &&& shop_state(*data, *pool, *caster) == st
                &&& actions@ == spell_book_actions(triggered)
                &&& equipped_any == equipped
            }),
            data.town() == old(data).town(),
            data.score() == old(data).score(),
            data.city() == old(data).city(),
            data.last_gold() == old(data).last_gold(),
            caster.slots() == old(caster).slots(),
            caster.base() == old(caster).base(),
        decreases messages.len() - k,
    {
        let ghost pre = shop_run(st0, guild, messages@.take(k as int));
        assert(messages@.take(k + 1).drop_last() =~= messages@.take(k as int));
        assert(messages@.take(k + 1).last() == messages@[k as int]);
        let ghost pool_before = *pool;
        let ghost n = old(pool).1@.len() as int;
        proof {
            assert(messages@.skip(k as int).drop_first() =~= messages@.skip(k + 1));
            assert(messages@.skip(k as int)[0] == messages@[k as int]);
            lemma_shop_clicks_nonneg(messages@.skip(k + 1), n);
        }
        let (triggered, equipped) = shop_click(&messages[k], data, pool, caster);
        assert forall|j: int| 0 <= j < pool.1@.len() implies 0 <= #[trigger] pool.1@[j].cost
            <= i32::MAX - 20 * shop_clicks(messages@.skip(k + 1), n) by {
            assert(pool_before.1@[j].cost <= pool.1@[j].cost <= pool_before.1@[j].cost + 20);
        }
        if triggered {
            actions.push(MenuAction::ShowSubmenu(Submenu::Spells));
        }
        if equipped {
            equipped_any = true;
        }
        proof {
            let tr1 = pre.1;
            assert(tr1.push(triggered).drop_last() =~= tr1);
            assert(tr1.push(triggered).last() == triggered);
        }
        k = k + 1;
    }
    assert(messages@.take(messages@.len() as int) =~= messages@);
    (actions, equipped_any)
}

/// Buys the building levels clicked in `messages`, in building order;
/// returns the construction-menu actions and whether the player needs to
/// be brought up to date.
fn buildings_phase(messages: &[UiMessage], data: &mut GameData, can_add: bool) -> (r: (Vec<MenuAction>, bool))
    ensures
        ({
            let (g, l, a, s) = building_phase(old(data).gold() as int, old(data).town().target_levels(), messages@, can_add, 0);
            &&& final(data).gold() == g
            &&& final(data).town().target_levels() == l
            &&& r.0@ == a
            &&& r.1 == s
        }),
        final(data).score() == old(data).score(),
        final(data).city() == old(data).city(),
        final(data).last_gold() == old(data).last_gold(),
        final(data).town().current_levels() == old(data).town().current_levels(),
{
    let mut actions: Vec<MenuAction> = Vec::new();
    let mut sync = false;
    let mut b: usize = 0;
    proof {
        data.town().lemma_levels_len();
    }
    while b < BUILDING_TYPES
        invariant
            b <= BUILDING_TYPES,
            ({
                let (g, l, a, s) = building_phase(old(data).gold() as int, old(data).town().target_levels(), messages@, can_add, 0);
                let (g2, l2, a2, s2) = building_phase(data.gold() as int, data.town().target_levels(), messages@, can_add, b as int);
                &&& g2 == g
                &&& l2 == l
                &&& actions@ + a2 == a
                &&& (sync || s2) == s
            }),
            data.town().target_levels().len() == 3,
            data.score() == old(data).score(),
            data.city() == old(data).city(),
            data.last_gold() == old(data).last_gold(),
            data.town().current_levels() == old(data).town().current_levels(),
        decreases BUILDING_TYPES - b,
    {
        let ghost a_before = actions@;
        let ghost rest = building_phase(data.gold() as int, data.town().target_levels(), messages@, can_add, b as int);
        if contains_message(messages, UiMessage::Triggered(ID_BUILDINGS_START + b as u32)) {
            if data.purchase_building(b) {
                if b == 2 && can_add || b == 0 {
                    sync = true;
                }
                actions.push(MenuAction::ShowSubmenu(Submenu::Buildings));
            }
        }
        proof {
            data.town().lemma_levels_len();
            let next = building_phase(data.gold() as int, data.town().target_levels(), messages@, can_add, b + 1);
            assert(rest.2 == (if actions@.len() > a_before.len() {
                seq![MenuAction::ShowSubmenu(Submenu::Buildings)]
            } else {
                Seq::<MenuAction>::empty()
            }) + next.2);
            assert(actions@ + next.2 =~= a_before + rest.2);
        }
        b = b + 1;
    }
    assert(actions@ + Seq::<MenuAction>::empty() =~= actions@);
    (actions, sync)
}

/// Handles the messages of a frame for the wave menu between waves: opens
/// it when a wave is announced; opens submenus; buys and picks spells and
/// equips them; with a watchtower, rerolls the next wave's enemies for
/// `reroll_cost` gold when the player can pay it (without one, a reroll
/// does nothing and costs nothing);
/// buys building levels; and starts the next wave.
pub fn handle_wave_menu(
    messages: &[UiMessage],
    data: &mut GameData,
    director: &mut Director,
    pool: &mut SpellPool,
    caster: &mut SpellCaster,
    reroll_cost: i32,
) -> (r: WaveMenuOutcome)
    requires
        old(pool).1@.len() + ID_SPELL_AVAIL_START <= u32::MAX,
        prices_within(*old(pool), i32::MAX - 20 * shop_clicks(messages@, old(pool).1@.len() as int)),
        reroll_cost >= 0,
        first_next_wave(messages@) matches Some(w) ==> w > i32::MIN,
        messages@.contains(UiMessage::Triggered(ID_NEXT_WAVE)) && old(director).state() == DirectorState::WaitingForMenu
            ==> 400 * (old(director).wave() + 1) + 100 <= u32::MAX,
        messages@.contains(UiMessage::Triggered(ID_REROLL)) && old(data).town().target_levels()[0] > 0
            ==> old(director).enemies().len() > 0,
    ensures
        ({
            let levels0 = old(data).town().target_levels();
            let (st, triggered, equipped) = shop_run(shop_state(*old(data), *old(pool), *old(caster)), levels0[1], messages@);
            let rerolled = messages@.contains(UiMessage::Triggered(ID_REROLL)) && levels0[0] > 0 && reroll_cost <= st.gold;
            let gold1 = if rerolled { st.gold - reroll_cost } else { st.gold };
            let (gold2, levels2, build_actions, build_sync) = building_phase(
                gold1, levels0, messages@, old(caster).slots().len() < 8, 0);
            let next = messages@.contains(UiMessage::Triggered(ID_NEXT_WAVE));
            &&& shop_state(*final(data), *final(pool), *final(caster)) == ShopState { gold: gold2, ..st }
            &&& final(data).town().target_levels() == levels2
            &&& r.actions@ == (match first_next_wave(messages@) {
                    Some(w) => seq![MenuAction::OpenWaveMenu((w - 1) as u32)],
                    None => Seq::empty(),
                }) + submenu_actions(messages@) + spell_book_actions(triggered)
                + (if rerolled { seq![MenuAction::ShowSubmenu(Submenu::Enemies)] } else { Seq::empty() })
                + build_actions
                + (if next { seq![MenuAction::CloseWaveMenu, MenuAction::AnnounceWave(final(director).wave())] } else { Seq::empty() })
            &&& r.player_sync_needed == (first_next_wave(messages@) is Some || equipped || build_sync)
            &&& if next && old(director).state() == DirectorState::WaitingForMenu {
                &&& final(director).wave() == old(director).wave() + 1
                &&& final(director).state() == DirectorState::Spawning((100 + 400 * final(director).wave()) as u32)
            } else {
                &&& final(director).wave() == old(director).wave()
                &&& final(director).state() == old(director).state()
            }
            &&& !rerolled ==> final(director).wave_enemies() == old(director).wave_enemies()
            &&& rerolled ==> final(director).wave_enemies_exist() && ascending(final(director).wave_enemies())
                && final(director).wave_enemies().len() == WAVE_SIZE
        }),
        final(director).intervall() == old(director).intervall(),
        final(director).total() == old(director).total(),
        final(data).score() == old(data).score(),
        final(data).city() == old(data).city(),
        final(data).last_gold() == old(data).last_gold(),
        final(data).town().current_levels() == old(data).town().current_levels(),
        final(caster).slots() == old(caster).slots(),
        final(caster).base() == old(caster).base(),
        final(director).credits() == old(director).credits(),
        final(director).enemies() == old(director).enemies(),
{
    proof {
        data.town().lemma_levels_len();
    }
    let ghost levels0 = data.town().target_levels();
    let (mut actions, opened) = open_menu(messages);
    let mut player_sync_needed = opened;
    let mut sub = submenus(messages);
    actions.append(&mut sub);
    let (mut spell_actions, equipped) = shop_phase(messages, data, pool, caster);
    actions.append(&mut spell_actions);
    if equipped {
        player_sync_needed = true;
    }
    if contains_message(messages, UiMessage::Triggered(ID_REROLL)) && data.building_level(0) > 0
        && data.spend(reroll_cost) {
        director.reroll_wave_enemies();
        actions.push(MenuAction::ShowSubmenu(Submenu::Enemies));
    }
    let can_add = caster.can_add();
    let (mut build_actions, build_sync) = buildings_phase(messages, data, can_add);
    actions.append(&mut build_actions);
    if build_sync {
        player_sync_needed = true;
    }
    if contains_message(messages, UiMessage::Triggered(ID_NEXT_WAVE)) {
        actions.push(MenuAction::CloseWaveMenu);
        director.next_wave();
        actions.push(MenuAction::AnnounceWave(director.get_wave()));
    }
    WaveMenuOutcome { actions, player_sync_needed }
}

/// Brings the player's spell slots up to date with the mana well: one extra
/// slot per level.
pub fn sync_ui(data: &GameData, caster: &mut SpellCaster)
    requires
        old(caster).base() + 255 <= usize::MAX,
    ensures
        final(caster).slots().len() == old(caster).base() + data.town().target_levels()[2],
        forall|i: int| 0 <= i < final(caster).slots().len() ==> #[trigger] final(caster).slots()[i] == if i < old(caster).slots().len() {
            old(caster).slots()[i]
        } else {
            (0u64, 0u64)
        },
        final(caster).spell_list() == old(caster).spell_list(),
        final(caster).base() == old(caster).base(),
{
    proof {
        data.town().lemma_levels_len();
    }
    let level = data.building_level(2);
    caster.set_extra_slots(level as usize);
}

} // verus!
