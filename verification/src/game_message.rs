use vstd::prelude::*;
use core::cmp::Ordering;

verus! {

/// A message that the game sends to everything that listens to it
/// (the interface, the achievements and the tutorial).
#[derive(Clone, Copy, Debug, PartialEq, Eq, Structural, Hash)]
pub enum GameMessage {
    /// The city now has this much health left.
    UpdateCityHealth(i32),
    /// The player now holds this much gold.
    UpdateGold(i32),
    /// Spell slot number `.0` is blocked for `.1` 32ths of its blocking time.
    UpdateSpellSlots(usize, u8),
    /// The wave with this number is about to start.
    NextWave(i32),
    /// An enemy with this bounty was killed.
    EnemyKilled(i32),
    /// Building `.0` was raised to level `.1`.
    BuildingUp(usize, u8),
    /// Building `.0` was lowered to level `.1`.
    BuildingDown(usize, u8),
}

/// The three-way comparison of two `i32`.
pub open spec fn order_i32(a: i32, b: i32) -> Option<Ordering> {
    if a < b {
        Some(Ordering::Less)
    } else if a == b {
        Some(Ordering::Equal)
    } else {
        Some(Ordering::Greater)
    }
}

/// The three-way comparison of two `u8`.
pub open spec fn order_u8(a: u8, b: u8) -> Option<Ordering> {
    if a < b {
        Some(Ordering::Less)
    } else if a == b {
        Some(Ordering::Equal)
    } else {
        Some(Ordering::Greater)
    }
}

/// How two messages are ordered: messages of the same kind are ordered by
/// their value (spell slot updates by the blocked share, not the slot;
/// building messages by level, for the same building only); messages of
/// different kinds, and building messages about different buildings, are
/// not comparable.
pub open spec fn message_order(a: GameMessage, b: GameMessage) -> Option<Ordering> {
    match (a, b) {
        (GameMessage::UpdateCityHealth(x), GameMessage::UpdateCityHealth(y)) => order_i32(x, y),
        (GameMessage::UpdateGold(x), GameMessage::UpdateGold(y)) => order_i32(x, y),
        (GameMessage::UpdateSpellSlots(_, x), GameMessage::UpdateSpellSlots(_, y)) => order_u8(x, y),
        (GameMessage::NextWave(x), GameMessage::NextWave(y)) => order_i32(x, y),
        (GameMessage::EnemyKilled(x), GameMessage::EnemyKilled(y)) => order_i32(x, y),
        (GameMessage::BuildingUp(b, x), GameMessage::BuildingUp(c, y)) => if b == c { order_u8(x, y) } else { None },
        (GameMessage::BuildingDown(b, x), GameMessage::BuildingDown(c, y)) => if b == c { order_u8(x, y) } else { None },
        _ => None,
    }
}

fn exec_order_i32(a: i32, b: i32) -> (r: Option<Ordering>)
    ensures
        r == order_i32(a, b),
{
    if a < b {
        Some(Ordering::Less)
    } else if a == b {
        Some(Ordering::Equal)
    } else {
        Some(Ordering::Greater)
    }
}

fn exec_order_u8(a: u8, b: u8) -> (r: Option<Ordering>)
    ensures
        r == order_u8(a, b),
{
    if a < b {
        Some(Ordering::Less)
    } else if a == b {
        Some(Ordering::Equal)
    } else {
        Some(Ordering::Greater)
    }
}

impl PartialOrd for GameMessage {
    fn partial_cmp(&self, other: &Self) -> (r: Option<Ordering>) {
        match (self, other) {
            (GameMessage::UpdateCityHealth(a), GameMessage::UpdateCityHealth(b)) => exec_order_i32(*a, *b),
            (GameMessage::UpdateGold(a), GameMessage::UpdateGold(b)) => exec_order_i32(*a, *b),
            (GameMessage::UpdateSpellSlots(_, a), GameMessage::UpdateSpellSlots(_, b)) => exec_order_u8(*a, *b),
            (GameMessage::NextWave(a), GameMessage::NextWave(b)) => exec_order_i32(*a, *b),
            (GameMessage::EnemyKilled(a), GameMessage::EnemyKilled(b)) => exec_order_i32(*a, *b),
            (GameMessage::BuildingUp(b, x), GameMessage::BuildingUp(c, y)) => if *b == *c {
                exec_order_u8(*x, *y)
            } else {
                None
            },
            (GameMessage::BuildingDown(b, x), GameMessage::BuildingDown(c, y)) => if *b == *c {
                exec_order_u8(*x, *y)
            } else {
                None
            },
            (_, _) => None,
        }
    }
}

impl vstd::std_specs::cmp::PartialOrdSpecImpl for GameMessage {
    open spec fn obeys_partial_cmp_spec() -> bool {
        true
    }

    open spec fn partial_cmp_spec(&self, other: &Self) -> Option<Ordering> {
        message_order(*self, *other)
    }
}

/// The ways in which a message can match a model message.
#[derive(Clone, Copy, Debug, PartialEq, Eq, Structural)]
pub enum GameMessageFilter {
    /// The message equals the model.
    Equality,
    /// The message is of the model's kind and not above it.
    Max,
    /// The message is of the model's kind and not below it.
    Min,
    /// The message is of the model's kind.
    Type,
}

/// Whether `a` is of the same kind as `b` and at least as large.
pub open spec fn at_least(a: GameMessage, b: GameMessage) -> bool {
    message_order(a, b) matches Some(Ordering::Greater | Ordering::Equal)
}

/// Whether `a` is of the same kind as `b` and at most as large.
pub open spec fn at_most(a: GameMessage, b: GameMessage) -> bool {
    message_order(a, b) matches Some(Ordering::Less | Ordering::Equal)
}

/// Whether `to_check` matches `model` under `filter`.
pub open spec fn filter_matches(filter: GameMessageFilter, model: GameMessage, to_check: GameMessage) -> bool {
    match filter {
        GameMessageFilter::Equality => model == to_check,
        GameMessageFilter::Max => at_least(model, to_check),
        GameMessageFilter::Min => at_most(model, to_check),
        GameMessageFilter::Type => same_kind(model, to_check),
    }
}

/// Whether two messages are of the same kind.
pub open spec fn same_kind(a: GameMessage, b: GameMessage) -> bool {
    match (a, b) {
        (GameMessage::UpdateCityHealth(_), GameMessage::UpdateCityHealth(_)) => true,
        (GameMessage::UpdateGold(_), GameMessage::UpdateGold(_)) => true,
        (GameMessage::UpdateSpellSlots(_, _), GameMessage::UpdateSpellSlots(_, _)) => true,
        (GameMessage::NextWave(_), GameMessage::NextWave(_)) => true,
        (GameMessage::EnemyKilled(_), GameMessage::EnemyKilled(_)) => true,
        (GameMessage::BuildingUp(_, _), GameMessage::BuildingUp(_, _)) => true,
        (GameMessage::BuildingDown(_, _), GameMessage::BuildingDown(_, _)) => true,
        _ => false,
    }
}

/// Whether two messages are building messages about different buildings,
/// which have no order between them.
pub open spec fn different_buildings(a: GameMessage, b: GameMessage) -> bool {
    match (a, b) {
        (GameMessage::BuildingUp(x, _), GameMessage::BuildingUp(y, _)) => x != y,
        (GameMessage::BuildingDown(x, _), GameMessage::BuildingDown(y, _)) => x != y,
        _ => false,
    }
}

/// Whether two messages are of the same kind (exec form of [same_kind]).
fn exec_same_kind(a: &GameMessage, b: &GameMessage) -> (r: bool)
    ensures
        r == same_kind(*a, *b),
{
    match (a, b) {
        (GameMessage::UpdateCityHealth(_), GameMessage::UpdateCityHealth(_)) => true,
        (GameMessage::UpdateGold(_), GameMessage::UpdateGold(_)) => true,
        (GameMessage::UpdateSpellSlots(_, _), GameMessage::UpdateSpellSlots(_, _)) => true,
        (GameMessage::NextWave(_), GameMessage::NextWave(_)) => true,
        (GameMessage::EnemyKilled(_), GameMessage::EnemyKilled(_)) => true,
        (GameMessage::BuildingUp(_, _), GameMessage::BuildingUp(_, _)) => true,
        (GameMessage::BuildingDown(_, _), GameMessage::BuildingDown(_, _)) => true,
        _ => false,
    }
}

/// The filters `Max` and `Min` mirror each other: a message passes `Max`
/// against a model exactly when the model passes `Min` against the message.
/// `Type` is passed by every message of the model's kind; that is exactly
/// when `Min` or `Max` is passed, except for building messages about
/// different buildings, which share the kind but have no order.
pub proof fn law_filters_mirror(model: GameMessage, to_check: GameMessage)
    ensures
        filter_matches(GameMessageFilter::Max, model, to_check) == filter_matches(GameMessageFilter::Min, to_check, model),
        filter_matches(GameMessageFilter::Type, model, to_check) == same_kind(model, to_check),
        !different_buildings(model, to_check) ==> filter_matches(GameMessageFilter::Type, model, to_check)
            == (filter_matches(GameMessageFilter::Min, model, to_check) || filter_matches(GameMessageFilter::Max, model, to_check)),
        filter_matches(GameMessageFilter::Type, model, to_check) == filter_matches(GameMessageFilter::Type, to_check, model),
{
}

/// A message equal to the model passes every filter: every message
/// compares equal to itself.
pub proof fn law_equal_messages_pass_all_filters(m: GameMessage)
    ensures
        message_order(m, m) == Some(Ordering::Equal),
        filter_matches(GameMessageFilter::Equality, m, m),
        filter_matches(GameMessageFilter::Max, m, m),
        filter_matches(GameMessageFilter::Min, m, m),
        filter_matches(GameMessageFilter::Type, m, m),
{
}

/// Messages of one kind compare as their values: as the health, gold,
/// wave or enemy numbers, as the blocked share of spell slots, and as the
/// levels of one building. So `Min` passes exactly the values at or above
/// the model's and `Max` exactly those at or below it.
pub proof fn law_messages_compare_by_value(x: i32, y: i32, i: usize, j: usize, b: usize, p: u8, q: u8)
    ensures
        (message_order(GameMessage::UpdateCityHealth(x), GameMessage::UpdateCityHealth(y)) == Some(Ordering::Less)) <==> x < y,
        (message_order(GameMessage::UpdateCityHealth(x), GameMessage::UpdateCityHealth(y)) == Some(Ordering::Equal)) <==> x == y,
        (message_order(GameMessage::UpdateCityHealth(x), GameMessage::UpdateCityHealth(y)) == Some(Ordering::Greater)) <==> x > y,
        (message_order(GameMessage::UpdateGold(x), GameMessage::UpdateGold(y)) == Some(Ordering::Less)) <==> x < y,
        (message_order(GameMessage::UpdateGold(x), GameMessage::UpdateGold(y)) == Some(Ordering::Equal)) <==> x == y,
        (message_order(GameMessage::UpdateGold(x), GameMessage::UpdateGold(y)) == Some(Ordering::Greater)) <==> x > y,
        (message_order(GameMessage::NextWave(x), GameMessage::NextWave(y)) == Some(Ordering::Less)) <==> x < y,
        (message_order(GameMessage::NextWave(x), GameMessage::NextWave(y)) == Some(Ordering::Equal)) <==> x == y,
        (message_order(GameMessage::NextWave(x), GameMessage::NextWave(y)) == Some(Ordering::Greater)) <==> x > y,
        (message_order(GameMessage::EnemyKilled(x), GameMessage::EnemyKilled(y)) == Some(Ordering::Less)) <==> x < y,
        (message_order(GameMessage::EnemyKilled(x), GameMessage::EnemyKilled(y)) == Some(Ordering::Equal)) <==> x == y,
        (message_order(GameMessage::EnemyKilled(x), GameMessage::EnemyKilled(y)) == Some(Ordering::Greater)) <==> x > y,
        (message_order(GameMessage::UpdateSpellSlots(i, p), GameMessage::UpdateSpellSlots(j, q)) == Some(Ordering::Less)) <==> p < q,
        (message_order(GameMessage::UpdateSpellSlots(i, p), GameMessage::UpdateSpellSlots(j, q)) == Some(Ordering::Equal)) <==> p == q,
        (message_order(GameMessage::UpdateSpellSlots(i, p), GameMessage::UpdateSpellSlots(j, q)) == Some(Ordering::Greater)) <==> p > q,
        (message_order(GameMessage::BuildingUp(b, p), GameMessage::BuildingUp(b, q)) == Some(Ordering::Less)) <==> p < q,
        (message_order(GameMessage::BuildingUp(b, p), GameMessage::BuildingUp(b, q)) == Some(Ordering::Equal)) <==> p == q,
        (message_order(GameMessage::BuildingUp(b, p), GameMessage::BuildingUp(b, q)) == Some(Ordering::Greater)) <==> p > q,
        (message_order(GameMessage::BuildingDown(b, p), GameMessage::BuildingDown(b, q)) == Some(Ordering::Less)) <==> p < q,
        (message_order(GameMessage::BuildingDown(b, p), GameMessage::BuildingDown(b, q)) == Some(Ordering::Equal)) <==> p == q,
        (message_order(GameMessage::BuildingDown(b, p), GameMessage::BuildingDown(b, q)) == Some(Ordering::Greater)) <==> p > q,
        filter_matches(GameMessageFilter::Min, GameMessage::NextWave(x), GameMessage::NextWave(y)) <==> x <= y,
        filter_matches(GameMessageFilter::Max, GameMessage::NextWave(x), GameMessage::NextWave(y)) <==> y <= x,
        filter_matches(GameMessageFilter::Min, GameMessage::EnemyKilled(x), GameMessage::EnemyKilled(y)) <==> x <= y,
        filter_matches(GameMessageFilter::Max, GameMessage::EnemyKilled(x), GameMessage::EnemyKilled(y)) <==> y <= x,
        filter_matches(GameMessageFilter::Min, GameMessage::UpdateCityHealth(x), GameMessage::UpdateCityHealth(y)) <==> x <= y,
        filter_matches(GameMessageFilter::Min, GameMessage::UpdateGold(x), GameMessage::UpdateGold(y)) <==> x <= y,
        filter_matches(GameMessageFilter::Max, GameMessage::UpdateSpellSlots(i, p), GameMessage::UpdateSpellSlots(j, q)) <==> q <= p,
        filter_matches(GameMessageFilter::Min, GameMessage::BuildingUp(b, p), GameMessage::BuildingUp(b, q)) <==> p <= q,
        filter_matches(GameMessageFilter::Min, GameMessage::BuildingDown(b, p), GameMessage::BuildingDown(b, q)) <==> p <= q,
{
}

/// Equal messages compare equal, and messages that compare equal are
/// equal, except spell slot updates, which compare by the blocked share
/// alone, whatever the slot.
pub proof fn law_order_agrees_with_equality(a: GameMessage, b: GameMessage)
    ensures
        a == b ==> message_order(a, b) == Some(Ordering::Equal),
        message_order(a, b) == Some(Ordering::Equal) && !(a is UpdateSpellSlots) ==> a == b,
{
}

impl GameMessageFilter {
    /// Checks whether `to_check` matches `model` under this filter.
    pub fn check(&self, model: &GameMessage, to_check: &GameMessage) -> (r: bool)
        ensures
            r == filter_matches(*self, *model, *to_check),
    {
        match self {
            GameMessageFilter::Equality => model == to_check,
            GameMessageFilter::Max => model >= to_check,
            GameMessageFilter::Min => model <= to_check,
            GameMessageFilter::Type => exec_same_kind(model, to_check),
        }
    }
}

/// A message from the interface, or a game message passed through it.
#[derive(Clone, Copy, Debug, PartialEq, Eq, Structural, Hash)]
pub enum UiMessage {
    /// The element with this id was clicked.
    Clicked(u32),
    /// The element with this id was clicked with the right mouse button.
    ClickedRight(u32),
    /// The element with this id was triggered (clicked or by its key).
    Triggered(u32),
    /// A message from the game.
    Extern(GameMessage),
}

/// A condition on interface messages.
#[derive(Clone, Copy, Debug, PartialEq, Eq, Structural)]
pub enum UiMessageFilter {
    /// Matches game messages that match the model under the filter.
    Ext(GameMessage, GameMessageFilter),
    /// Matches exactly this interface message.
    Ui(UiMessage),
}

/// Whether `message` fulfils `filter`.
pub open spec fn ui_filter_matches(filter: UiMessageFilter, message: UiMessage) -> bool {
    match filter {
        UiMessageFilter::Ext(model, f) => match message {
            UiMessage::Extern(gm) => filter_matches(f, model, gm),
            _ => false,
        },
        UiMessageFilter::Ui(m) => m == message,
    }
}

impl UiMessageFilter {
    /// Checks whether `message` fulfils this condition.
    pub fn check(&self, message: &UiMessage) -> (r: bool)
        ensures
            r == ui_filter_matches(*self, *message),
    {
        match self {
            UiMessageFilter::Ext(model, filter) => match message {
                UiMessage::Extern(gm) => filter.check(model, gm),
                _ => false,
            },
            UiMessageFilter::Ui(m) => m == message,
        }
    }
}

} // verus!
