use vstd::prelude::*;
use tinyvec::TinyVec;
use crate::controller::{Command, Interactions, spell_command};
use crate::achievements::{Achievement, AchievementSet};
use vstd::string::StringExecFns;

verus! {

/// The most spell slots an entity can have by default.
pub const MAX_SPELL_SLOTS: usize = 8;

/// A spell slot: the nanoseconds it stays blocked, and the nanoseconds the
/// whole blockage lasts (kept to show the blocked share).
pub type SlotTimer = (u64, u64);

/// The slot timers of a spell caster, kept in a small inline vector.
#[verifier::external_body]
pub struct SlotTimers {
    timers: TinyVec<[SlotTimer; MAX_SPELL_SLOTS]>,
}

/// The blocking times a spell needs, kept in a small inline vector.
#[verifier::external_body]
pub struct SlotTimes {
    times: TinyVec<[u64; MAX_SPELL_SLOTS]>,
}

/// The slot timers held in a spell caster's slot list, in order.
pub uninterp spec fn slot_timers(v: SlotTimers) -> Seq<SlotTimer>;

/// The blocking times held in a spell's requirement list, in order.
pub uninterp spec fn slot_requirements(v: SlotTimes) -> Seq<u64>;

/// An empty slot list. Calls `TinyVec::new`, which makes an empty inline vector.
#[verifier::external_body]
fn timers_new() -> (r: SlotTimers)
    ensures
        slot_timers(r) == Seq::<SlotTimer>::empty(),
{
    SlotTimers { timers: TinyVec::new() }
}

/// Appends a timer. Calls `TinyVec::push`, which appends the value at the
/// end, moving the contents to the heap when the inline array is full.
#[verifier::external_body]
fn timers_push(v: &mut SlotTimers, timer: SlotTimer)
    ensures
        slot_timers(*final(v)) == slot_timers(*old(v)).push(timer),
{
    v.timers.push(timer)
}

/// The number of timers. Calls `TinyVec::len`.
#[verifier::external_body]
fn timers_len(v: &SlotTimers) -> (r: usize)
    ensures
        r == slot_timers(*v).len(),
{
    v.timers.len()
}

/// The timer at position `i`. Indexes the vector (`Index::index`), which
/// panics out of bounds; `i` is in bounds.
#[verifier::external_body]
fn timers_get(v: &SlotTimers, i: usize) -> (r: SlotTimer)
    requires
        i < slot_timers(*v).len(),
    ensures
        r == slot_timers(*v)[i as int],
{
    v.timers[i]
}

/// Replaces the timer at position `i`. Indexes the vector mutably
/// (`IndexMut::index_mut`), which panics out of bounds; `i` is in bounds.
#[verifier::external_body]
fn timers_set(v: &mut SlotTimers, i: usize, timer: SlotTimer)
    requires
        i < slot_timers(*old(v)).len(),
    ensures
        slot_timers(*final(v)) == slot_timers(*old(v)).update(i as int, timer),
{
    v.timers[i] = timer
}

/// Cuts the list down to `len` timers. Calls `TinyVec::truncate`, which
/// does nothing when the list is not longer than `len`.
#[verifier::external_body]
fn timers_truncate(v: &mut SlotTimers, len: usize)
    ensures
        slot_timers(*final(v)) == if len < slot_timers(*old(v)).len() {
            slot_timers(*old(v)).take(len as int)
        } else {
            slot_timers(*old(v))
        },
{
    v.timers.truncate(len)
}

/// An empty requirement list. Calls `TinyVec::new`.
#[verifier::external_body]
fn requirements_new() -> (r: SlotTimes)
    ensures
        slot_requirements(r) == Seq::<u64>::empty(),
{
    SlotTimes { times: TinyVec::new() }
}

/// Appends a blocking time. Calls `TinyVec::push`.
#[verifier::external_body]
fn requirements_push(v: &mut SlotTimes, time: u64)
    ensures
        slot_requirements(*final(v)) == slot_requirements(*old(v)).push(time),
{
    v.times.push(time)
}

/// The number of blocking times. Calls `TinyVec::len`.
#[verifier::external_body]
fn requirements_len(v: &SlotTimes) -> (r: usize)
    ensures
        r == slot_requirements(*v).len(),
{
    v.times.len()
}

/// The blocking time at position `i`. Indexes the vector
/// (`Index::index`), which panics out of bounds; `i` is in bounds.
#[verifier::external_body]
fn requirements_get(v: &SlotTimes, i: usize) -> (r: u64)
    requires
        i < slot_requirements(*v).len(),
    ensures
        r == slot_requirements(*v)[i as int],
{
    v.times[i]
}

/// A copy of the list. Calls `TinyVec::clone`, which clones the inline
/// array or the heap vector, keeping the elements in order.
#[verifier::external_body]
fn requirements_clone(v: &SlotTimes) -> (r: SlotTimes)
    ensures
        slot_requirements(r) == slot_requirements(*v),
{
    SlotTimes { times: v.times.clone() }
}

/// A spell: what the spell book shows of it, the sound it makes, the effect
/// it has (a position in the catalogue of spell effects, none for a spell
/// that does nothing), and the blocking time of each spell slot it needs.
pub struct Spell {
    name: String,
    description: String,
    icon: String,
    sound: Option<String>,
    effect: Option<usize>,
    spell_slots: SlotTimes,
}

/// What a spell is, as plain values.
#[verifier::ext_equal]
pub struct SpellView {
    pub name: Seq<char>,
    pub description: Seq<char>,
    pub icon: Seq<char>,
    pub sound: Option<Seq<char>>,
    pub effect: Option<usize>,
    pub slots: Seq<u64>,
}

/// A spell that cannot be cast: locked, with `reason` as its description,
/// no sound, no effect and no slots.
pub open spec fn unavailable_spell(reason: Seq<char>) -> SpellView {
    SpellView {
        name: "Spell not available"@,
        description: reason,
        icon: "/sprites/ui/lock"@,
        sound: None,
        effect: None,
        slots: Seq::empty(),
    }
}

impl View for Spell {
    type V = SpellView;

    closed spec fn view(&self) -> SpellView {
        SpellView {
            name: self.name@,
            description: self.description@,
            icon: self.icon@,
            sound: match self.sound {
                Some(s) => Some(s@),
                None => None,
            },
            effect: self.effect,
            slots: slot_requirements(self.spell_slots),
        }
    }
}

impl Clone for Spell {
    fn clone(&self) -> (r: Self)
        ensures
            r@ == self@,
    {
        let sound = match &self.sound {
            Some(s) => Some(s.clone()),
            None => None,
        };
        Spell {
            name: self.name.clone(),
            description: self.description.clone(),
            icon: self.icon.clone(),
            sound,
            effect: self.effect,
            spell_slots: requirements_clone(&self.spell_slots),
        }
    }
}

impl Spell {
    /// A new spell; `slots` holds the blocking time, in nanoseconds, of each
    /// spell slot it needs.
    pub fn new(name: &str, description: &str, icon: &str, sound: Option<&str>, effect: Option<usize>, slots: &[u64]) -> (r: Self)
        ensures
            r@.name == name@,
            r@.description == description@,
            r@.icon == icon@,
            r@.sound is Some <==> sound is Some,
            sound matches Some(s) ==> r@.sound == Some(s@),
            r@.effect == effect,
            r@.slots == slots@,
    {
        let mut spell_slots = requirements_new();
        let mut i: usize = 0;
        while i < slots.len()
            invariant
                i <= slots@.len(),
                slot_requirements(spell_slots) == slots@.take(i as int),
            decreases slots.len() - i,
        {
            requirements_push(&mut spell_slots, slots[i]);
            assert(slots@.take(i + 1) =~= slots@.take(i as int).push(slots@[i as int]));
            i = i + 1;
        }
        assert(slots@.take(slots@.len() as int) =~= slots@);
        let sound = match sound {
            Some(s) => Some(s.to_owned()),
            None => None,
        };
        Spell {
            name: name.to_owned(),
            description: description.to_owned(),
            icon: icon.to_owned(),
            sound,
            effect,
            spell_slots,
        }
    }

    /// A spell that cannot be cast, with `reason` as its description.
    pub fn not_available(reason: &str) -> (r: Self)
        ensures
            r@ == unavailable_spell(reason@),
    {
        let slots = requirements_new();
        let r = Spell {
            name: "Spell not available".to_owned(),
            description: reason.to_owned(),
            icon: "/sprites/ui/lock".to_owned(),
            sound: None,
            effect: None,
            spell_slots: slots,
        };
        assert(r@ =~= unavailable_spell(reason@));
        r
    }

    /// The spell's name.
    pub fn get_name(&self) -> (r: &str)
        ensures
            r@ == self@.name,
    {
        self.name.as_str()
    }

    /// The spell's description.
    pub fn get_description(&self) -> (r: &str)
        ensures
            r@ == self@.description,
    {
        self.description.as_str()
    }

    /// The path of the spell's icon.
    pub fn get_icon(&self) -> (r: &str)
        ensures
            r@ == self@.icon,
    {
        self.icon.as_str()
    }

    /// The path of the sound the spell makes, if any.
    pub fn get_sound(&self) -> (r: Option<&str>)
        ensures
            r is Some <==> self@.sound is Some,
            r matches Some(s) ==> self@.sound == Some(s@),
    {
        match &self.sound {
            Some(s) => Some(s.as_str()),
            None => None,
        }
    }

    /// The spell's effect, if it has one.
    pub fn get_effect(&self) -> (r: Option<usize>)
        ensures
            r == self@.effect,
    {
        self.effect
    }

    /// The number of spell slots the spell needs.
    pub fn slot_count(&self) -> (r: usize)
        ensures
            r == self@.slots.len(),
    {
        requirements_len(&self.spell_slots)
    }

    /// The blocking time of the `i`-th slot the spell needs.
    pub fn slot_time(&self, i: usize) -> (r: u64)
        requires
            i < self@.slots.len(),
        ensures
            r == self@.slots[i as int],
    {
        requirements_get(&self.spell_slots, i)
    }
}

/// The number of free (unblocked) slots among `s`.
pub open spec fn free_count(s: Seq<SlotTimer>) -> nat
    decreases s.len(),
{
    if s.len() == 0 {
        0
    } else {
        free_count(s.drop_last()) + if s.last().0 == 0 { 1nat } else { 0nat }
    }
}

/// The slots `s` after the free ones from position `i` on were blocked, in
/// order, with the blocking times `req` from position `ind` on.
pub open spec fn block_from(s: Seq<SlotTimer>, req: Seq<u64>, i: int, ind: int) -> Seq<SlotTimer>
    decreases s.len() - i,
{
    if i < 0 || i >= s.len() {
        s
    } else if s[i].0 == 0 && ind < req.len() {
        block_from(s.update(i, (req[ind], req[ind])), req, i + 1, ind + 1)
    } else {
        block_from(s, req, i + 1, ind)
    }
}

/// A slot after `delta` nanoseconds: a blocked slot runs down (not below
/// zero); a slot that had run out forgets the length of its blockage.
pub open spec fn tick_timer(t: SlotTimer, delta: u64) -> SlotTimer {
    if t.0 != 0 {
        (if t.0 >= delta { (t.0 - delta) as u64 } else { 0u64 }, t.1)
    } else if t.1 != 0 {
        (t.0, 0u64)
    } else {
        t
    }
}

/// A slot runs down by the length of the frame and stops at zero: its time
/// left never grows and never falls by more than `delta`, falls by exactly
/// `delta` when at least that much was left, and a slot with at most
/// `delta` left is free afterwards. A blocked slot keeps the length of its
/// blockage; a free one forgets it.
pub proof fn law_slots_run_down(t: SlotTimer, delta: u64)
    ensures
        tick_timer(t, delta).0 <= t.0,
        tick_timer(t, delta).0 + delta >= t.0,
        t.0 >= delta ==> tick_timer(t, delta).0 + delta == t.0,
        t.0 <= delta ==> tick_timer(t, delta).0 == 0,
        t.0 != 0 ==> tick_timer(t, delta).1 == t.1,
        t.0 == 0 ==> tick_timer(t, delta) == (0u64, 0u64),
{
}

/// Whether casting spell `index` from `spells` with slots `s` succeeds:
/// the spell exists and enough slots are free.
pub open spec fn can_cast(s: Seq<SlotTimer>, spells: Seq<Spell>, index: int) -> bool {
    0 <= index < spells.len() && free_count(s) >= spells[index]@.slots.len()
}

/// The slots after an attempt to cast spell `index`.
pub open spec fn after_cast(s: Seq<SlotTimer>, spells: Seq<Spell>, index: int) -> Seq<SlotTimer> {
    if can_cast(s, spells, index) {
        block_from(s, spells[index]@.slots, 0, 0)
    } else {
        s
    }
}

/// The slots after attempts to cast the spells at the bar positions from
/// `i` to 3 whose commands were given, in order.
pub open spec fn after_casts(s: Seq<SlotTimer>, spells: Seq<Spell>, commands: Seq<Command>, i: int) -> Seq<SlotTimer>
    decreases 4 - i,
{
    if i < 0 || i >= 4 {
        s
    } else if commands.contains(spell_command(i)) {
        after_casts(after_cast(s, spells, i), spells, commands, i + 1)
    } else {
        after_casts(s, spells, commands, i + 1)
    }
}

/// The bar positions from `i` to 3 whose spells are cast, in order.
pub open spec fn casts_from(s: Seq<SlotTimer>, spells: Seq<Spell>, commands: Seq<Command>, i: int) -> Seq<usize>
    decreases 4 - i,
{
    if i < 0 || i >= 4 {
        Seq::empty()
    } else if commands.contains(spell_command(i)) {
        if can_cast(s, spells, i) {
            seq![i as usize] + casts_from(after_cast(s, spells, i), spells, commands, i + 1)
        } else {
            casts_from(s, spells, commands, i + 1)
        }
    } else {
        casts_from(s, spells, commands, i + 1)
    }
}

/// The number of free slots among `s` from position `i` on.
pub open spec fn free_after(s: Seq<SlotTimer>, i: int) -> int
    decreases s.len() - i,
{
    if i < 0 || i >= s.len() {
        0
    } else {
        (if s[i].0 == 0 { 1int } else { 0int }) + free_after(s, i + 1)
    }
}

proof fn lemma_free_after_nonneg(s: Seq<SlotTimer>, i: int)
    ensures
        free_after(s, i) >= 0,
    decreases s.len() - i,
{
    if 0 <= i < s.len() {
        lemma_free_after_nonneg(s, i + 1);
    }
}

proof fn lemma_free_after_agree(s1: Seq<SlotTimer>, s2: Seq<SlotTimer>, i: int)
    requires
        0 <= i,
        s1.len() == s2.len(),
        forall|j: int| i <= j < s1.len() ==> s1[j] == s2[j],
    ensures
        free_after(s1, i) == free_after(s2, i),
    decreases s1.len() - i,
{
    if i < s1.len() {
        lemma_free_after_agree(s1, s2, i + 1);
    }
}

proof fn lemma_free_after_drop_last(s: Seq<SlotTimer>, i: int)
    requires
        s.len() > 0,
        0 <= i < s.len(),
    ensures
        free_after(s, i) == free_after(s.drop_last(), i) + if s.last().0 == 0 { 1int } else { 0int },
    decreases s.len() - i,
{
    if i < s.len() - 1 {
        lemma_free_after_drop_last(s, i + 1);
        assert(s.drop_last()[i] == s[i]);
    } else {
        assert(free_after(s, i + 1) == 0);
        assert(free_after(s.drop_last(), i) == 0);
    }
}

proof fn lemma_free_count_forward(s: Seq<SlotTimer>)
    ensures
        free_count(s) == free_after(s, 0),
        free_count(s) <= s.len(),
    decreases s.len(),
{
    if s.len() > 0 {
        lemma_free_count_forward(s.drop_last());
        lemma_free_after_drop_last(s, 0);
    }
}

proof fn lemma_free_count_update(s: Seq<SlotTimer>, i: int, v: SlotTimer)
    requires
        0 <= i < s.len(),
    ensures
        free_count(s.update(i, v)) + (if s[i].0 == 0 { 1int } else { 0int })
            == free_count(s) + (if v.0 == 0 { 1int } else { 0int }),
    decreases s.len(),
{
    if i == s.len() - 1 {
        assert(s.update(i, v).drop_last() =~= s.drop_last());
    } else {
        assert(s.update(i, v).drop_last() =~= s.drop_last().update(i, v));
        lemma_free_count_update(s.drop_last(), i, v);
    }
}

proof fn lemma_block_from(s: Seq<SlotTimer>, req: Seq<u64>, i: int, ind: int)
    requires
        0 <= i <= s.len(),
        0 <= ind,
        forall|j: int| 0 <= j < req.len() ==> req[j] > 0,
    ensures
        block_from(s, req, i, ind).len() == s.len(),
        ({
            let left = if req.len() - ind > 0 { req.len() - ind } else { 0 };
            let f = free_after(s, i);
            free_count(block_from(s, req, i, ind)) == free_count(s) - if f < left { f } else { left }
        }),
    decreases s.len() - i,
{
    lemma_free_after_nonneg(s, i);
    lemma_free_after_nonneg(s, i + 1);
    if i < s.len() {
        if s[i].0 == 0 && ind < req.len() {
            let s2 = s.update(i, (req[ind], req[ind]));
            lemma_free_count_update(s, i, (req[ind], req[ind]));
            lemma_free_after_agree(s, s2, i + 1);
            lemma_block_from(s2, req, i + 1, ind + 1);
        } else {
            lemma_block_from(s, req, i + 1, ind);
        }
    }
}

/// Casting a spell whose blocking times are all positive, when enough slots
/// are free, blocks exactly as many free slots as the spell needs and keeps
/// the number of slots; there are never more free slots than slots.
pub proof fn law_cast_blocks_needed_slots(s: Seq<SlotTimer>, req: Seq<u64>)
    requires
        free_count(s) >= req.len(),
        forall|j: int| 0 <= j < req.len() ==> req[j] > 0,
    ensures
        block_from(s, req, 0, 0).len() == s.len(),
        free_count(block_from(s, req, 0, 0)) == free_count(s) - req.len(),
        free_count(s) <= s.len(),
{
    lemma_free_count_forward(s);
    lemma_block_from(s, req, 0, 0);
}

/// A component that casts spells and manages the spell slots they block.
pub struct SpellCaster {
    spell_slots: SlotTimers,
    spells: Vec<Spell>,
    base_slots: usize,
}

/// What casting a spell sets off: its effect (a position in the catalogue
/// of spell effects) and the sound it plays, if it has them.
pub struct CastEffects {
    pub effect: Option<usize>,
    pub sound: Option<String>,
}

/// Whether `c` is what casting `spell` sets off.
pub open spec fn sets_off(c: CastEffects, spell: SpellView) -> bool {
    &&& c.effect == spell.effect
    &&& (c.sound is Some <==> spell.sound is Some)
    &&& (c.sound matches Some(s) ==> spell.sound == Some(s@))
}

/// What the spell casting of a frame did.
pub struct SpellCastingOutcome {
    /// The slots whose blockage is shown: position, time still blocked and
    /// length of the blockage, in nanoseconds.
    pub shown: Vec<(usize, u64, u64)>,
    /// The bar positions whose spells were cast, in order.
    pub casts: Vec<usize>,
    /// What each of these casts set off, in the same order.
    pub fired: Vec<CastEffects>,
}

impl SpellCaster {
    /// The spell slots.
    pub closed spec fn slots(self) -> Seq<SlotTimer> {
        slot_timers(self.spell_slots)
    }

    /// The spells the caster can cast.
    pub closed spec fn spell_list(self) -> Seq<Spell> {
        self.spells@
    }

    /// The number of slots the caster started with.
    pub closed spec fn base(self) -> usize {
        self.base_slots
    }

    /// A caster of `spells` with `init_slots` free slots.
    pub fn new(spells: Vec<Spell>, init_slots: usize) -> (r: Self)
        ensures
            r.spell_list() == spells@,
            r.base() == init_slots,
            r.slots() == Seq::new(init_slots as nat, |i: int| (0u64, 0u64)),
    {
        let mut slots = timers_new();
        let mut i: usize = 0;
        while i < init_slots
            invariant
                i <= init_slots,
                slot_timers(slots) == Seq::new(i as nat, |k: int| (0u64, 0u64)),
            decreases init_slots - i,
        {
            timers_push(&mut slots, (0, 0));
            assert(slot_timers(slots) =~= Seq::new((i + 1) as nat, |k: int| (0u64, 0u64)));
            i = i + 1;
        }
        SpellCaster { spell_slots: slots, spells, base_slots: init_slots }
    }

    /// The spells the caster can cast.
    pub fn get_spells(&self) -> (r: &[Spell])
        ensures
            r@ == self.spell_list(),
    {
        self.spells.as_slice()
    }

    /// Puts `spell` at bar position `index`, or at the end when the bar is shorter.
    pub fn equip_spell(&mut self, index: usize, spell: Spell)
        ensures
            final(self).spell_list() == if index < old(self).spell_list().len() {
                old(self).spell_list().update(index as int, spell)
            } else {
                old(self).spell_list().push(spell)
            },
            final(self).slots() == old(self).slots(),
            final(self).base() == old(self).base(),
    {
        if self.spells.len() > index {
            self.spells.set(index, spell);
        } else {
            self.spells.push(spell);
        }
    }

    /// Gives the caster `slots` slots beyond those it started with: extra
    /// slots are cut off, missing ones are added free.
    pub fn set_extra_slots(&mut self, slots: usize)
        requires
            slots + old(self).base() <= usize::MAX,
        ensures
            final(self).slots().len() == slots + old(self).base(),
            forall|i: int| 0 <= i < final(self).slots().len() ==> #[trigger] final(self).slots()[i] == if i < old(self).slots().len() {
                old(self).slots()[i]
            } else {
                (0u64, 0u64)
            },
            final(self).spell_list() == old(self).spell_list(),
            final(self).base() == old(self).base(),
    {
        let n = slots + self.base_slots;
        timers_truncate(&mut self.spell_slots, n);
        let mut len = timers_len(&self.spell_slots);
        while len < n
            invariant
                len == slot_timers(self.spell_slots).len(),
                len <= n,
                len < n ==> len >= old(self).slots().len(),
                n == slots + old(self).base(),
                self.spells@ == old(self).spells@,
                self.base_slots == old(self).base_slots,
                forall|i: int| 0 <= i < len ==> #[trigger] slot_timers(self.spell_slots)[i] == if i < old(self).slots().len() {
                    old(self).slots()[i]
                } else {
                    (0u64, 0u64)
                },
            decreases n - len,
        {
            timers_push(&mut self.spell_slots, (0, 0));
            len = len + 1;
        }
    }

    /// The number of spell slots.
    pub fn get_slots(&self) -> (r: usize)
        ensures
            r == self.slots().len(),
    {
        timers_len(&self.spell_slots)
    }

    /// The number of free (unblocked) spell slots.
    pub fn get_free_slots(&self) -> (r: usize)
        ensures
            r == free_count(self.slots()),
    {
        let n = timers_len(&self.spell_slots);
        let mut count: usize = 0;
        let mut i: usize = 0;
        while i < n
            invariant
                n == self.slots().len(),
                i <= n,
                count == free_count(self.slots().take(i as int)),
                count <= i,
            decreases n - i,
        {
            let t = timers_get(&self.spell_slots, i);
            assert(self.slots().take(i + 1).drop_last() =~= self.slots().take(i as int));
            if t.0 == 0 {
                count = count + 1;
            }
            i = i + 1;
        }
        assert(self.slots().take(n as int) =~= self.slots());
        count
    }

    /// Whether the caster has fewer than the most spell slots.
    pub fn can_add(&self) -> (r: bool)
        ensures
            r == (self.slots().len() < MAX_SPELL_SLOTS),
    {
        timers_len(&self.spell_slots) < MAX_SPELL_SLOTS
    }

    /// Casts the spell at bar position `index` if it exists and enough slots
    /// are free: the free slots are blocked in order with the spell's
    /// blocking times. Returns what the cast sets off (the spell's effect
    /// and its sound), or `None` when the spell was not cast.
    pub fn attempt_cast(&mut self, index: usize) -> (r: Option<CastEffects>)
        ensures
            r is Some == can_cast(old(self).slots(), old(self).spell_list(), index as int),
            r matches Some(c) ==> sets_off(c, old(self).spell_list()[index as int]@),
            final(self).slots() == after_cast(old(self).slots(), old(self).spell_list(), index as int),
            final(self).spell_list() == old(self).spell_list(),
            final(self).base() == old(self).base(),
    {
        if index < self.spells.len() {
            let needed = self.spells[index].slot_count();
            if self.get_free_slots() >= needed {
                let n = timers_len(&self.spell_slots);
                let mut ind: usize = 0;
                let mut i: usize = 0;
                while i < n
                    invariant
                        n == slot_timers(self.spell_slots).len(),
                        i <= n,
                        index < self.spells@.len(),
                        self.spells@ == old(self).spells@,
                        self.base_slots == old(self).base_slots,
                        needed == self.spells@[index as int]@.slots.len(),
                        ind <= needed,
                        block_from(slot_timers(self.spell_slots), self.spells@[index as int]@.slots, i as int, ind as int)
                            == block_from(old(self).slots(), self.spells@[index as int]@.slots, 0, 0),
                    decreases n - i,
                {
                    let t = timers_get(&self.spell_slots, i);
                    if t.0 == 0 && ind < needed {
                        let time = self.spells[index].slot_time(ind);
                        timers_set(&mut self.spell_slots, i, (time, time));
                        ind = ind + 1;
                    }
                    i = i + 1;
                }
                let sound = match self.spells[index].get_sound() {
                    Some(s) => Some(s.to_owned()),
                    None => None,
                };
                return Some(CastEffects { effect: self.spells[index].get_effect(), sound });
            }
        }
        None
    }

    /// Lets `delta` nanoseconds pass for the spell slots.
    pub fn tick_slots(&mut self, delta: u64)
        ensures
            final(self).slots().len() == old(self).slots().len(),
            forall|i: int| 0 <= i < old(self).slots().len() ==> #[trigger] final(self).slots()[i] == tick_timer(old(self).slots()[i], delta),
            forall|i: int| 0 <= i < old(self).slots().len() ==> old(self).slots()[i].0 <= delta ==> #[trigger] final(self).slots()[i].0 == 0,
            forall|i: int| 0 <= i < old(self).slots().len() ==> old(self).slots()[i].0 >= delta ==>
                #[trigger] final(self).slots()[i].0 + delta == old(self).slots()[i].0,
            final(self).spell_list() == old(self).spell_list(),
            final(self).base() == old(self).base(),
    {
        let n = timers_len(&self.spell_slots);
        let mut i: usize = 0;
        while i < n
            invariant
                n == slot_timers(self.spell_slots).len(),
                n == old(self).slots().len(),
                i <= n,
                self.spells@ == old(self).spells@,
                self.base_slots == old(self).base_slots,
                forall|j: int| 0 <= j < i ==> #[trigger] slot_timers(self.spell_slots)[j] == tick_timer(old(self).slots()[j], delta),
                forall|j: int| i <= j < n ==> #[trigger] slot_timers(self.spell_slots)[j] == old(self).slots()[j],
            decreases n - i,
        {
            let t = timers_get(&self.spell_slots, i);
            if t.0 != 0 {
                timers_set(&mut self.spell_slots, i, (t.0.saturating_sub(delta), t.1));
            } else if t.1 != 0 {
                timers_set(&mut self.spell_slots, i, (t.0, 0));
            }
            i = i + 1;
        }
    }
}

/// The spell casting of a frame: the slots run down, the blocked ones are
/// reported, then the spells whose commands were given are cast in bar
/// order.
pub fn spell_casting(caster: &mut SpellCaster, ix: &Interactions) -> (r: SpellCastingOutcome)
    ensures
        ({
            let ticked = Seq::new(old(caster).slots().len(), |i: int| tick_timer(old(caster).slots()[i], ix.delta));
            &&& final(caster).slots() == after_casts(ticked, old(caster).spell_list(), ix.commands@, 0)
            &&& r.casts@ == casts_from(ticked, old(caster).spell_list(), ix.commands@, 0)
            &&& r.fired@.len() == r.casts@.len()
            &&& forall|k: int| 0 <= k < r.casts@.len() ==> #[trigger] r.casts@[k] < old(caster).spell_list().len()
                && sets_off(r.fired@[k], old(caster).spell_list()[r.casts@[k] as int]@)
            &&& forall|k: int| 0 <= k < r.shown@.len() ==> {
                let (i, left, total) = #[trigger] r.shown@[k];
                &&& i < ticked.len()
                &&& ticked[i as int] == (left, total)
                &&& total != 0
            }
            &&& forall|i: int| 0 <= i < ticked.len() && ticked[i].1 != 0 ==> r.shown@.contains((i as usize, ticked[i].0, ticked[i].1))
        }),
        final(caster).spell_list() == old(caster).spell_list(),
        final(caster).base() == old(caster).base(),
{
    caster.tick_slots(ix.delta);
    let ghost ticked = caster.slots();
    assert(ticked =~= Seq::new(old(caster).slots().len(), |i: int| tick_timer(old(caster).slots()[i], ix.delta)));
    let mut shown: Vec<(usize, u64, u64)> = Vec::new();
    let n = caster.get_slots();
    let mut i: usize = 0;
    while i < n
        invariant
            n == ticked.len(),
            caster.slots() == ticked,
            i <= n,
            forall|k: int| 0 <= k < shown@.len() ==> {
                let (j, left, total) = #[trigger] shown@[k];
                &&& j < i
                &&& ticked[j as int] == (left, total)
                &&& total != 0
            },
            forall|j: int| 0 <= j < i && ticked[j].1 != 0 ==> shown@.contains((j as usize, ticked[j].0, ticked[j].1)),
        decreases n - i,
    {
        let t = timers_get(&caster.spell_slots, i);
        if t.1 != 0 {
            let ghost before = shown@;
            shown.push((i, t.0, t.1));
            assert(shown@[shown@.len() - 1] == (i, t.0, t.1));
            assert forall|j: int| 0 <= j < i && ticked[j].1 != 0 implies shown@.contains((j as usize, ticked[j].0, ticked[j].1)) by {
                let k = choose|k: int| 0 <= k < before.len() && before[k] == (j as usize, ticked[j].0, ticked[j].1);
                assert(shown@[k] == before[k]);
            }
        }
        i = i + 1;
    }
    let mut casts: Vec<usize> = Vec::new();
    let mut fired: Vec<CastEffects> = Vec::new();
    let mut b: usize = 0;
    while b < 4
        invariant
            b <= 4,
            fired@.len() == casts@.len(),
            forall|k: int| 0 <= k < casts@.len() ==> #[trigger] casts@[k] < old(caster).spell_list().len()
                && sets_off(fired@[k], old(caster).spell_list()[casts@[k] as int]@),
            caster.spell_list() == old(caster).spell_list(),
            caster.base() == old(caster).base(),
            after_casts(caster.slots(), caster.spell_list(), ix.commands@, b as int)
                == after_casts(ticked, old(caster).spell_list(), ix.commands@, 0),
            casts@ + casts_from(caster.slots(), caster.spell_list(), ix.commands@, b as int)
                == casts_from(ticked, old(caster).spell_list(), ix.commands@, 0),
        decreases 4 - b,
    {
        let ghost s = caster.slots();
        if ix.contains(Command::spell_from_int(b)) {
            if let Some(c) = caster.attempt_cast(b) {
                assert(casts_from(s, caster.spell_list(), ix.commands@, b as int)
                    == seq![b] + casts_from(caster.slots(), caster.spell_list(), ix.commands@, b + 1));
                assert(casts@.push(b) + casts_from(caster.slots(), caster.spell_list(), ix.commands@, b + 1)
                    =~= casts@ + (seq![b] + casts_from(caster.slots(), caster.spell_list(), ix.commands@, b + 1)));
                casts.push(b);
                fired.push(c);
            }
        }
        b = b + 1;
    }
    assert(casts_from(caster.slots(), caster.spell_list(), ix.commands@, 4) =~= Seq::<usize>::empty());
    assert(casts@ + Seq::<usize>::empty() =~= casts@);
    SpellCastingOutcome { shown, casts, fired }
}

/// A spell the player can unlock, with its price and the mage's guild level
/// it needs. Level 0 means the spell is not unlocked yet.
pub struct SpellTemplate {
    /// The spell's level; 0 while it is not unlocked.
    pub level: u32,
    /// The gold it costs to unlock the spell.
    pub cost: i32,
    /// The spell.
    pub spell: Spell,
    /// The mage's guild level needed to unlock the spell.
    pub guild_condition: u8,
}

/// What a spell template is, as plain values.
#[verifier::ext_equal]
pub struct TemplateView {
    pub level: u32,
    pub cost: i32,
    pub guild_condition: u8,
    pub spell: SpellView,
}

impl View for SpellTemplate {
    type V = TemplateView;

    open spec fn view(&self) -> TemplateView {
        TemplateView { level: self.level, cost: self.cost, guild_condition: self.guild_condition, spell: self.spell@ }
    }
}

/// The spells the player can unlock, and the spell picked to be equipped, if any.
pub type SpellPool = (Option<Spell>, Vec<SpellTemplate>);

/// The description of a spell that an achievement `name` still locks.
pub open spec fn locked_reason(name: Seq<char>) -> Seq<char> {
    "Complete the achievement '"@ + name + "' to unlock this spell for future games."@
}

impl SpellTemplate {
    /// A template for `spell` at `cost`, not unlocked, with no guild condition.
    pub fn new(spell: Spell, cost: i32) -> (r: Self)
        ensures
            r.level == 0,
            r.cost == cost,
            r.spell@ == spell@,
            r.guild_condition == 0,
    {
        SpellTemplate { level: 0, cost, spell, guild_condition: 0 }
    }

    /// The template with its spell unlocked from the start.
    pub fn purchased(self) -> (r: Self)
        ensures
            r.level == 1,
            r.cost == self.cost,
            r.spell@ == self.spell@,
            r.guild_condition == self.guild_condition,
    {
        let mut t = self;
        t.level = 1;
        t
    }

    /// The template with its spell locked behind an achievement: if the
    /// achievement exists and is not achieved, the spell is replaced by one
    /// that cannot be cast and says which achievement unlocks it, and the
    /// template is neither unlocked nor priced.
    pub fn achievement_condition(self, ach: Option<&Achievement>) -> (r: Self)
        ensures
            ach matches Some(a) ==> a.progress() < a.target() ==> {
                &&& r.level == 0
                &&& r.cost == 0
                &&& r.spell@ == unavailable_spell(locked_reason(a.name()))
                &&& r.guild_condition == self.guild_condition
            },
            ach is None || ach.unwrap().progress() >= ach.unwrap().target() ==> {
                &&& r.level == self.level
                &&& r.cost == self.cost
                &&& r.spell@ == self.spell@
                &&& r.guild_condition == self.guild_condition
            },
    {
        let mut t = self;
        if let Some(a) = ach {
            if !a.is_achieved() {
                let mut reason = <String as StringExecFns>::from_str("Complete the achievement '");
                reason.append(a.get_name());
                reason.append("' to unlock this spell for future games.");
                t.spell = Spell::not_available(reason.as_str());
                t.level = 0;
                t.cost = 0;
            }
        }
        t
    }

    /// The template with a mage's guild level condition.
    pub fn guild_condition(self, level: u8) -> (r: Self)
        ensures
            r.level == self.level,
            r.cost == self.cost,
            r.spell@ == self.spell@,
            r.guild_condition == level,
    {
        let mut t = self;
        t.guild_condition = level;
        t
    }
}

/// The number of spells in the game's spell pool.
pub const SPELL_POOL_SIZE: usize = 18;

/// The prices of the game's spells, in pool order.
pub open spec fn pool_costs() -> Seq<i32> {
    seq![50i32, 90, 145, 50, 150, 200, 75, 60, 80, 90, 120, 145, 120, 170, 200, 200, 140, 150]
}

/// The mage's guild levels the game's spells need, in pool order.
pub open spec fn pool_guild_levels() -> Seq<u8> {
    seq![0u8, 0, 1, 2, 3, 4, 0, 1, 2, 0, 1, 2, 3, 4, 3, 4, 3, 4]
}

/// Whether the pool's spell `i` is unlocked from the start.
pub open spec fn pool_purchased(i: int) -> bool {
    i == 0 || i == 6
}

/// The achievement that locks the pool's spell `i`, if any.
pub open spec fn pool_achievement(i: int) -> Option<usize> {
    if i == 4 {
        Some(8usize)
    } else if i == 5 {
        Some(5usize)
    } else if i == 8 {
        Some(9usize)
    } else if i == 11 {
        Some(1usize)
    } else if i == 13 {
        Some(10usize)
    } else if i == 15 {
        Some(11usize)
    } else if i == 17 {
        Some(14usize)
    } else {
        None
    }
}

/// The price, guild level, start state and locking achievement of pool spell `i`.
fn pool_entry(i: usize) -> (r: (i32, u8, bool, Option<usize>))
    requires
        i < SPELL_POOL_SIZE,
    ensures
        r.0 == pool_costs()[i as int],
        r.1 == pool_guild_levels()[i as int],
        r.2 == pool_purchased(i as int),
        r.3 == pool_achievement(i as int),
{
    match i {
        0 => (50, 0, true, None),
        1 => (90, 0, false, None),
        2 => (145, 1, false, None),
        3 => (50, 2, false, None),
        4 => (150, 3, false, Some(8)),
        5 => (200, 4, false, Some(5)),
        6 => (75, 0, true, None),
        7 => (60, 1, false, None),
        8 => (80, 2, false, Some(9)),
        9 => (90, 0, false, None),
        10 => (120, 1, false, None),
        11 => (145, 2, false, Some(1)),
        12 => (120, 3, false, None),
        13 => (170, 4, false, Some(10)),
        14 => (200, 3, false, None),
        15 => (200, 4, false, Some(11)),
        16 => (140, 3, false, None),
        _ => (150, 4, false, Some(14)),
    }
}

/// Whether the pool spell `i` is locked by an achievement of `achievements` that is not achieved.
pub open spec fn pool_locked(achievements: Seq<Achievement>, i: int) -> bool {
    pool_achievement(i) matches Some(a) && a < achievements.len()
        && achievements[a as int].progress() < achievements[a as int].target()
}

/// The game's spell pool, made from its 18 spells in order: each with its
/// price and guild level, the first fire and ice spells unlocked, and some
/// spells locked until an achievement is achieved.
pub fn init_spell_pool(spells: Vec<Spell>, achievements: &AchievementSet) -> (r: SpellPool)
    requires
        spells@.len() == SPELL_POOL_SIZE,
    ensures
        r.0 is None,
        r.1@.len() == SPELL_POOL_SIZE,
        forall|i: int| 0 <= i < SPELL_POOL_SIZE ==> {
            let t = #[trigger] r.1@[i];
            &&& t.guild_condition == pool_guild_levels()[i]
            &&& if pool_locked(achievements.achievements(), i) {
                &&& t.level == 0
                &&& t.cost == 0
                &&& t.spell@.effect is None
            } else {
                &&& t.level == if pool_purchased(i) { 1u32 } else { 0u32 }
                &&& t.cost == pool_costs()[i]
                &&& t.spell@ == spells@[i]@
            }
        },
{
    let mut rest = spells;
    let mut templates: Vec<SpellTemplate> = Vec::new();
    let mut i: usize = 0;
    while i < SPELL_POOL_SIZE
        invariant
            i <= SPELL_POOL_SIZE,
            templates@.len() == i,
            spells@.len() == SPELL_POOL_SIZE,
            rest@ == spells@.subrange(i as int, SPELL_POOL_SIZE as int),
            forall|j: int| 0 <= j < i ==> {
                let t = #[trigger] templates@[j];
                &&& t.guild_condition == pool_guild_levels()[j]
                &&& if pool_locked(achievements.achievements(), j) {
                    &&& t.level == 0
                    &&& t.cost == 0
                    &&& t.spell@.effect is None
                } else {
                    &&& t.level == if pool_purchased(j) { 1u32 } else { 0u32 }
                    &&& t.cost == pool_costs()[j]
                    &&& t.spell@ == spells@[j]@
                }
            },
        decreases SPELL_POOL_SIZE - i,
    {
        assert(rest@[0] == spells@[i as int]);
        let spell = rest.remove(0);
        assert(rest@ =~= spells@.subrange(i + 1, SPELL_POOL_SIZE as int));
        let (cost, guild, purchased, ach) = pool_entry(i);
        let mut t = SpellTemplate::new(spell, cost);
        if purchased {
            t = t.purchased();
        }
        t = t.guild_condition(guild);
        if let Some(a) = ach {
            t = t.achievement_condition(achievements.get(a));
        }
        templates.push(t);
        i = i + 1;
    }
    (None, templates)
}

/// The spell bar a game starts with: for every entry of `spells`, the pool
/// spell with that number (counting from one), or a spell that cannot be
/// cast for 0 and numbers past the pool.
pub fn init_base_spells(spell_pool: &SpellPool, spells: &[usize]) -> (r: Vec<Spell>)
    ensures
        r@.len() == spells@.len(),
        forall|k: int| 0 <= k < spells@.len() ==> {
            let index = #[trigger] spells@[k];
            if index == 0 || index > spell_pool.1@.len() {
                r@[k]@ == unavailable_spell("Purchase & equip more spells between waves!"@)
            } else {
                r@[k]@ == spell_pool.1@[index - 1].spell@
            }
        },
{
    let mut bar: Vec<Spell> = Vec::new();
    let mut k: usize = 0;
    while k < spells.len()
        invariant
            k <= spells@.len(),
            bar@.len() == k,
            forall|j: int| 0 <= j < k ==> {
                let index = #[trigger] spells@[j];
                if index == 0 || index > spell_pool.1@.len() {
                    bar@[j]@ == unavailable_spell("Purchase & equip more spells between waves!"@)
                } else {
                    bar@[j]@ == spell_pool.1@[index - 1].spell@
                }
            },
        decreases spells.len() - k,
    {
        let index = spells[k];
        if index == 0 || index > spell_pool.1.len() {
            bar.push(Spell::not_available("Purchase & equip more spells between waves!"));
        } else {
            bar.push(spell_pool.1[index - 1].spell.clone());
        }
        k = k + 1;
    }
    bar
}

} // verus!
