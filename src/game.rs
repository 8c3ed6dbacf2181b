use vstd::prelude::*;
use crate::app_state::AppState;
use crate::generic_ui::{Button, ButtonActionType, ButtonColour, Interaction, spawn_button, shows, is_end_game};

verus! {

/// Positions and angles are kept within this bound, in either direction.
pub const LIMIT: i64 = 1_000_000_000_000_000;

/// The largest carousel speed, in either direction.
pub const MAX_CAROUSEL_SPEED: i64 = 1000;

/// Milliseconds between two score ticks.
pub const TICK_MS: u32 = 1000;

pub const BABY_START_X: i64 = -450_000;
pub const BABY_Y: i64 = 220_000;
pub const FIRE_X: i64 = 350_000;
pub const BIG_RADIUS: i64 = 100_000;
pub const SMALL_RADIUS: i64 = 50_000;
pub const SLOTH_X: i64 = -370_000;
pub const SLOTH_TOP: i64 = 420_000;
pub const SLOTH_FLOOR: i64 = -420_000;
/// How far a Sloth falls per millisecond.
pub const SLOTH_FALL: i64 = 7;
/// How far "push sloth" moves each Sloth down.
pub const SLOTH_PUSH: i64 = 200_000;
pub const KITTEN_X: i64 = 316_000;
pub const KITTEN_Y: i64 = 30_000;
pub const CAROUSEL_X: i64 = 316_000;
pub const CAROUSEL_Y: i64 = -180_000;
pub const NAIL_OFFSET: i64 = 88_402;
pub const NAIL_ROT: i64 = 4_186_667;
pub const BRIDGE_ROT: i64 = 2_300_000;
pub const HIT_AREA_X: i64 = -387_200;
pub const HIT_AREA_Y: i64 = -283_500;
pub const MALLET_X: i64 = -320_000;
pub const MALLET_Y: i64 = -240_000;
/// Above this swing angle the mallet is down and hurts.
pub const MALLET_DOWN_ANGLE: i64 = 1_200_000;

/// Difficulty levels, in tenths, at which new hazards come in.
pub const SLOTH_MALLET_LEVEL: u64 = 5;
pub const SLOTH_SECOND_LEVEL: u64 = 15;
pub const KITTEN_CAROUSEL_LEVEL: u64 = 20;
pub const BABY_START_LEVEL: u64 = 10;

/// Which narrative role a good thing plays.
#[derive(Debug, Clone, Copy, PartialEq, Eq, Structural)]
pub enum Situation {
    Baby,
    Kitten,
    Sloth,
}

#[derive(Debug, Clone, Copy, PartialEq, Eq, Structural)]
pub struct GoodThing {
    pub situation: Situation,
}

/// A carousel pivot and its speed; its children turn with it.
#[derive(Debug, Clone, Copy, PartialEq, Eq, Structural)]
pub struct Carousel(pub i64);

/// Marks the bad thing that rides on the carousel.
#[derive(Debug, Clone, Copy, PartialEq, Eq, Structural)]
pub struct Nail;

/// What an entity of the store is.
#[derive(Debug, Clone, Copy, PartialEq, Eq, Structural)]
pub enum Kind {
    Good(GoodThing),
    /// The fire that the Baby drifts towards.
    Fire,
    /// The nails on the carousel; its position is relative to the pivot.
    Nail(Nail),
    /// The mallet while it is down.
    MalletDown,
    /// The swinging mallet sprite.
    Mallet,
    HitArea,
    Bridge,
    Carousel(Carousel),
}

/// One entity of the current screen: its kind, position, rotation and
/// collider radius (zero for one that collides with nothing).
#[derive(Debug, Clone, Copy, PartialEq, Eq, Structural)]
pub struct Entity {
    pub kind: Kind,
    pub x: i64,
    pub y: i64,
    pub rot: i64,
    pub radius: i64,
}

/// The round's score and, once it is over, the message that ended it.
pub struct Score(pub u64, pub String);

/// Difficulty levels in tenths.
#[derive(Debug, Clone, Copy, PartialEq, Eq, Structural)]
pub struct Difficulty {
    pub baby: u64,
    pub sloth: u64,
    pub kitten: u64,
}

/// A difficulty track, as picked at each score tick.
#[derive(Debug, Clone, Copy, PartialEq, Eq, Structural)]
pub enum Track {
    Baby,
    Sloth,
    Kitten,
}

pub open spec fn clamp(v: int) -> int {
    if v > LIMIT {
        LIMIT as int
    } else if v < -LIMIT {
        -LIMIT
    } else {
        v
    }
}

pub open spec fn sat_inc(v: u64) -> u64 {
    if v < u64::MAX {
        (v + 1) as u64
    } else {
        v
    }
}

pub open spec fn in_bounds(v: int) -> bool {
    -LIMIT <= v <= LIMIT
}

pub open spec fn entity_wf(e: Entity) -> bool {
    &&& in_bounds(e.x as int)
    &&& in_bounds(e.y as int)
    &&& in_bounds(e.rot as int)
    &&& 0 <= e.radius <= LIMIT
    &&& (e.kind matches Kind::Carousel(c) ==> -MAX_CAROUSEL_SPEED <= c.0 <= MAX_CAROUSEL_SPEED)
}

pub open spec fn entities_wf(es: Seq<Entity>) -> bool {
    forall|i: int| 0 <= i < es.len() ==> entity_wf(#[trigger] es[i])
}

pub open spec fn is_good(e: Entity) -> bool {
    e.kind is Good
}

pub open spec fn is_bad(e: Entity) -> bool {
    e.kind is Fire || e.kind is Nail || e.kind is MalletDown
}

pub open spec fn has_situation(e: Entity, s: Situation) -> bool {
    e.kind matches Kind::Good(g) && g.situation == s
}

pub open spec fn message_of(s: Situation) -> Seq<char> {
    match s {
        Situation::Baby => "your negligent inaction led to withered death"@,
        Situation::Kitten => "their soft paws were torn to shreds by rusty nails. weeping, they wondered why their protector had abandoned them"@,
        Situation::Sloth => "the baby sloth just wanted to eat some leaves - it did not choose to be put in the hands of an incompetent carer"@,
    }
}

/// The failure message for a good thing of the given situation.
pub fn get_message(situation: &Situation) -> (r: String)
    ensures
        r@ == message_of(*situation),
{
    match situation {
        Situation::Baby => "your negligent inaction led to withered death".to_string(),
        Situation::Kitten => "their soft paws were torn to shreds by rusty nails. weeping, they wondered why their protector had abandoned them".to_string(),
        Situation::Sloth => "the baby sloth just wanted to eat some leaves - it did not choose to be put in the hands of an incompetent carer".to_string(),
    }
}

proof fn lemma_wide_product(a: u64, b: u32)
    ensures
        0 <= (a as int) * (b as int) <= 0xffff_ffff_ffff_ffff * 0xffff_ffff,
{
    assert(0 <= (a as int) * (b as int) <= 0xffff_ffff_ffff_ffff * 0xffff_ffff) by (nonlinear_arith);
}

proof fn lemma_turn_bound(speed: int, p: int)
    requires
        -MAX_CAROUSEL_SPEED <= speed <= MAX_CAROUSEL_SPEED,
        0 <= p <= 0xffff_ffff_ffff_ffff * 0xffff_ffff,
    ensures
        -MAX_CAROUSEL_SPEED * (0xffff_ffff_ffff_ffff * 0xffff_ffff) <= speed * p <= MAX_CAROUSEL_SPEED * (0xffff_ffff_ffff_ffff * 0xffff_ffff),
{
    assert(-MAX_CAROUSEL_SPEED * (0xffff_ffff_ffff_ffff * 0xffff_ffff) <= speed * p <= MAX_CAROUSEL_SPEED * (0xffff_ffff_ffff_ffff * 0xffff_ffff)) by (nonlinear_arith)
        requires -MAX_CAROUSEL_SPEED <= speed <= MAX_CAROUSEL_SPEED, 0 <= p <= 0xffff_ffff_ffff_ffff * 0xffff_ffff;
}

/// A carousel after `dt` milliseconds at the given kitten level.
pub open spec fn spun(e: Entity, kitten: u64, dt: u32) -> Entity {
    match e.kind {
        Kind::Carousel(c) => Entity { rot: clamp(e.rot + c.0 * (kitten * dt) * 10) as i64, ..e },
        _ => e,
    }
}

fn clamp_wide(v: i128) -> (r: i64)
    ensures
        r == clamp(v as int),
{
    if v > LIMIT as i128 {
        LIMIT
    } else if v < -(LIMIT as i128) {
        -LIMIT
    } else {
        v as i64
    }
}

/// Where a good thing is after `dt` milliseconds.
pub open spec fn moved(e: Entity, baby: u64, dt: u32) -> Entity {
    match e.kind {
        Kind::Good(g) => match g.situation {
            Situation::Baby => Entity { x: clamp(e.x + baby * dt) as i64, ..e },
            Situation::Kitten => e,
            Situation::Sloth => if e.y - SLOTH_FALL * dt < SLOTH_FLOOR {
                Entity { y: SLOTH_TOP, ..e }
            } else {
                Entity { y: (e.y - SLOTH_FALL * dt) as i64, ..e }
            },
        },
        _ => e,
    }
}

/// Where an entity is on screen; `(nx, ny)` is the nail offset turned by the
/// carousel's current rotation.
pub open spec fn world_x(e: Entity, nx: i64) -> int {
    if e.kind is Nail { CAROUSEL_X + nx } else { e.x as int }
}

pub open spec fn world_y(e: Entity, ny: i64) -> int {
    if e.kind is Nail { CAROUSEL_Y + ny } else { e.y as int }
}

pub open spec fn distance2(g: Entity, b: Entity, nx: i64, ny: i64) -> int {
    let dx = world_x(g, nx) - world_x(b, nx);
    let dy = world_y(g, ny) - world_y(b, ny);
    dx * dx + dy * dy
}

/// Two colliders touch when their centres are no further apart than the sum
/// of their radii.
pub open spec fn overlaps(g: Entity, b: Entity, nx: i64, ny: i64) -> bool {
    distance2(g, b, nx, ny) <= (g.radius + b.radius) * (g.radius + b.radius)
}

/// Entity `i` is a good thing that touches some bad thing.
pub open spec fn is_hit(es: Seq<Entity>, i: int, nx: i64, ny: i64) -> bool {
    is_good(es[i]) && exists|j: int| 0 <= j < es.len() && is_bad(es[j]) && #[trigger] overlaps(es[i], es[j], nx, ny)
}

/// The last of the first `n` entities that is a good thing touching a bad thing.
pub open spec fn last_hit(es: Seq<Entity>, n: int, nx: i64, ny: i64) -> Option<int>
    decreases n,
{
    if n <= 0 {
        None
    } else if is_hit(es, n - 1, nx, ny) {
        Some(n - 1)
    } else {
        last_hit(es, n - 1, nx, ny)
    }
}

proof fn lemma_last_hit_is_hit(es: Seq<Entity>, n: int, nx: i64, ny: i64)
    ensures
        last_hit(es, n, nx, ny) matches Some(k) ==> 0 <= k < n && is_hit(es, k, nx, ny),
    decreases n,
{
    if n > 0 {
        lemma_last_hit_is_hit(es, n - 1, nx, ny);
    }
}

proof fn lemma_square_bound(d: int, b: int)
    requires
        0 <= b,
        -b <= d <= b,
    ensures
        0 <= d * d <= b * b,
{
    assert(0 <= d * d <= b * b) by (nonlinear_arith)
        requires -b <= d <= b, 0 <= b;
}

fn world_pos(e: &Entity, nx: i64, ny: i64) -> (r: (i128, i128))
    ensures
        r.0 == world_x(*e, nx),
        r.1 == world_y(*e, ny),
{
    match e.kind {
        Kind::Nail(_) => (CAROUSEL_X as i128 + nx as i128, CAROUSEL_Y as i128 + ny as i128),
        _ => (e.x as i128, e.y as i128),
    }
}

fn pair_overlaps(g: &Entity, b: &Entity, nx: i64, ny: i64) -> (r: bool)
    requires
        entity_wf(*g),
        entity_wf(*b),
        in_bounds(nx as int),
        in_bounds(ny as int),
    ensures
        r == overlaps(*g, *b, nx, ny),
{
    let (gx, gy) = world_pos(g, nx, ny);
    let (bx, by) = world_pos(b, nx, ny);
    let dx = gx - bx;
    let dy = gy - by;
    let rr = g.radius as i128 + b.radius as i128;
    proof {
        lemma_square_bound(dx as int, 3 * LIMIT);
        lemma_square_bound(dy as int, 3 * LIMIT);
        lemma_square_bound(rr as int, 2 * LIMIT);
    }
    dx * dx + dy * dy <= rr * rr
}

pub open spec fn baby_entity() -> Entity {
    Entity { kind: Kind::Good(GoodThing { situation: Situation::Baby }), x: BABY_START_X, y: BABY_Y, rot: 0, radius: BIG_RADIUS }
}

pub open spec fn fire_entity() -> Entity {
    Entity { kind: Kind::Fire, x: FIRE_X, y: BABY_Y, rot: 0, radius: BIG_RADIUS }
}

pub open spec fn sloth_entity() -> Entity {
    Entity { kind: Kind::Good(GoodThing { situation: Situation::Sloth }), x: SLOTH_X, y: SLOTH_TOP, rot: 0, radius: SMALL_RADIUS }
}

pub open spec fn mallet_down_entity() -> Entity {
    Entity { kind: Kind::MalletDown, x: HIT_AREA_X, y: HIT_AREA_Y, rot: 0, radius: SMALL_RADIUS }
}

/// A Sloth, the mallet's hit area and the mallet.
pub open spec fn mallet_rig() -> Seq<Entity> {
    seq![
        sloth_entity(),
        Entity { kind: Kind::HitArea, x: HIT_AREA_X, y: HIT_AREA_Y, rot: 0, radius: 0 },
        Entity { kind: Kind::Mallet, x: MALLET_X, y: MALLET_Y, rot: 0, radius: 0 },
    ]
}

/// The carousel pivot, its two bridges and its nails (placed relative to the
/// pivot), and the Kitten.
pub open spec fn carousel_rig() -> Seq<Entity> {
    seq![
        Entity { kind: Kind::Carousel(Carousel(1)), x: CAROUSEL_X, y: CAROUSEL_Y, rot: 0, radius: 0 },
        Entity { kind: Kind::Bridge, x: 0, y: 125_000, rot: 0, radius: 0 },
        Entity { kind: Kind::Bridge, x: -91_000i64, y: -72_000i64, rot: BRIDGE_ROT, radius: 0 },
        Entity { kind: Kind::Nail(Nail), x: NAIL_OFFSET, y: (-NAIL_OFFSET) as i64, rot: NAIL_ROT, radius: SMALL_RADIUS },
        Entity { kind: Kind::Good(GoodThing { situation: Situation::Kitten }), x: KITTEN_X, y: KITTEN_Y, rot: 0, radius: SMALL_RADIUS },
    ]
}

pub open spec fn end_baby_message() -> Seq<char> {
    "the baby explored, naive and innocent, its newfound territory. you actively steered creation to its death"@
}

pub open spec fn strangle_message() -> Seq<char> {
    "the baby sloth, choking for air, sheds a tear and squeaks out cries for the safety of its mother. it does not come."@
}

/// The difficulty after one tick that picked `t`.
pub open spec fn next_difficulty(d: Difficulty, t: Track) -> Difficulty {
    match t {
        Track::Baby => Difficulty { baby: sat_inc(d.baby), ..d },
        Track::Sloth => Difficulty { sloth: sat_inc(d.sloth), ..d },
        Track::Kitten => Difficulty { kitten: sat_inc(d.kitten), ..d },
    }
}

/// A tick of track `k` at `level` takes it to the threshold `t`.
pub open spec fn reaches(level: u64, picked: Track, k: Track, t: u64) -> bool {
    picked == k && sat_inc(level) == t
}

/// The entities that one tick that picked `t` adds.
pub open spec fn spawned(d: Difficulty, t: Track) -> Seq<Entity> {
    if reaches(d.sloth, t, Track::Sloth, SLOTH_MALLET_LEVEL) {
        mallet_rig()
    } else if reaches(d.sloth, t, Track::Sloth, SLOTH_SECOND_LEVEL) {
        seq![sloth_entity()]
    } else if reaches(d.kitten, t, Track::Kitten, KITTEN_CAROUSEL_LEVEL) {
        carousel_rig()
    } else {
        Seq::empty()
    }
}

/// The buttons that come with the mallet: "strangle sloth" and "push sloth".
pub open spec fn mallet_buttons(bs: Seq<Button>, n: int) -> bool {
    &&& bs.len() == n + 2
    &&& shows(bs[n], "strangle sloth"@)
    &&& is_end_game(bs[n].action.action_type, strangle_message())
    &&& shows(bs[n + 1], "push sloth"@)
    &&& bs[n + 1].action.action_type == ButtonActionType::ProlongInevitable(Situation::Sloth)
}

/// The button that comes with the carousel: "reverse world".
pub open spec fn carousel_buttons(bs: Seq<Button>, n: int) -> bool {
    &&& bs.len() == n + 1
    &&& shows(bs[n], "reverse world"@)
    &&& bs[n].action.action_type == ButtonActionType::ProlongInevitable(Situation::Kitten)
}

/// `post` is `pre` after one score tick that picked track `t`.
pub open spec fn tick_result(pre: GameSession, post: GameSession, t: Track) -> bool {
    let n = pre.buttons@.len() as int;
    &&& post.score.0 == sat_inc(pre.score.0)
    &&& post.score.1 == pre.score.1
    &&& post.difficulty == next_difficulty(pre.difficulty, t)
    &&& post.entities@ == pre.entities@ + spawned(pre.difficulty, t)
    &&& post.buttons@.subrange(0, n) == pre.buttons@
    &&& if reaches(pre.difficulty.sloth, t, Track::Sloth, SLOTH_MALLET_LEVEL) {
        mallet_buttons(post.buttons@, n)
    } else if reaches(pre.difficulty.kitten, t, Track::Kitten, KITTEN_CAROUSEL_LEVEL) {
        carousel_buttons(post.buttons@, n)
    } else {
        post.buttons@.len() == n
    }
    &&& post.state == pre.state
    &&& post.next_state == pre.next_state
}

fn sat_inc_exec(v: u64) -> (r: u64)
    ensures
        r == sat_inc(v),
{
    if v < u64::MAX {
        v + 1
    } else {
        v
    }
}

/// Relies on rand::thread_rng and rand::Rng::gen_range: a value of the
/// half-open range that it is given.
#[verifier::external_body]
fn random_below_three() -> (r: u32)
    ensures
        r < 3,
{
    rand::Rng::gen_range(&mut rand::thread_rng(), 0..3u32)
}

/// The track that a draw `r` below three stands for.
pub open spec fn track_spec(r: u32) -> Track {
    if r == 0 {
        Track::Baby
    } else if r == 1 {
        Track::Sloth
    } else {
        Track::Kitten
    }
}

/// The track that a draw `r` below three stands for.
pub fn track_of(r: u32) -> (t: Track)
    requires
        r < 3,
    ensures
        t == track_spec(r),
{
    if r == 0 {
        Track::Baby
    } else if r == 1 {
        Track::Sloth
    } else {
        Track::Kitten
    }
}

/// Picks a difficulty track at random, each with the same chance.
pub fn random_track() -> (t: Track)
    ensures
        exists|r: u32| r < 3 && t == track_spec(r),
{
    let r = random_below_three();
    track_of(r)
}

pub open spec fn swung(e: Entity, angle: i64) -> Entity {
    if e.kind is Mallet { Entity { rot: angle, ..e } } else { e }
}

/// The entities with every mallet turned to `angle`, and without the mallet
/// down where `lift` holds.
pub open spec fn swept(es: Seq<Entity>, angle: i64, lift: bool) -> Seq<Entity>
    decreases es.len(),
{
    if es.len() == 0 {
        es
    } else {
        let rest = swept(es.drop_last(), angle, lift);
        if lift && es.last().kind is MalletDown {
            rest
        } else {
            rest.push(swung(es.last(), angle))
        }
    }
}

/// How many mallet-down hazards there are.
pub open spec fn down_count(es: Seq<Entity>) -> nat
    decreases es.len(),
{
    if es.len() == 0 {
        0
    } else {
        down_count(es.drop_last()) + if es.last().kind is MalletDown { 1nat } else { 0nat }
    }
}

pub open spec fn has_mallet(es: Seq<Entity>) -> bool {
    exists|i: int| 0 <= i < es.len() && (#[trigger] es[i]).kind is Mallet
}

proof fn lemma_down_count_push(es: Seq<Entity>, e: Entity)
    ensures
        down_count(es.push(e)) == down_count(es) + if e.kind is MalletDown { 1nat } else { 0nat },
{
    assert(es.push(e).drop_last() =~= es);
}

proof fn lemma_swept_downs(es: Seq<Entity>, angle: i64, lift: bool)
    ensures
        down_count(swept(es, angle, lift)) == if lift { 0 } else { down_count(es) },
        entities_wf(es) && in_bounds(angle as int) ==> entities_wf(swept(es, angle, lift)),
    decreases es.len(),
{
    if es.len() > 0 {
        lemma_swept_downs(es.drop_last(), angle, lift);
        let rest = swept(es.drop_last(), angle, lift);
        lemma_down_count_push(rest, swung(es.last(), angle));
        if entities_wf(es) && in_bounds(angle as int) {
            assert(entity_wf(es[es.len() - 1]));
            assert forall|i: int| 0 <= i < es.drop_last().len() implies entity_wf(#[trigger] es.drop_last()[i]) by {
                assert(es.drop_last()[i] == es[i]);
            }
        }
    }
}

/// An entity after the rescue nudge for situation `s`: a Baby goes back to
/// its start, a carousel turns the other way, a Sloth is pushed down.
pub open spec fn prolonged(e: Entity, s: Situation) -> Entity {
    match s {
        Situation::Baby => if has_situation(e, Situation::Baby) { Entity { x: BABY_START_X, ..e } } else { e },
        Situation::Kitten => match e.kind {
            Kind::Carousel(c) => Entity { kind: Kind::Carousel(Carousel(-c.0 as i64)), ..e },
            _ => e,
        },
        Situation::Sloth => if has_situation(e, Situation::Sloth) { Entity { y: clamp(e.y - SLOTH_PUSH) as i64, ..e } } else { e },
    }
}

/// `post` is `pre` after a press of a button that does `a`; the buttons are
/// left aside.
pub open spec fn press_result(pre: GameSession, post: GameSession, a: ButtonActionType) -> bool {
    &&& post.state == pre.state
    &&& post.score.0 == pre.score.0
    &&& post.difficulty == pre.difficulty
    &&& post.timer_ms == pre.timer_ms
    &&& match a {
        ButtonActionType::ChangeAppState(st) => {
            &&& post.next_state == Some(st)
            &&& post.score.1 == pre.score.1
            &&& post.entities == pre.entities
        },
        ButtonActionType::EndGame(m) => {
            &&& post.next_state == Some(AppState::GameOver)
            &&& post.score.1@ == m@
            &&& post.entities == pre.entities
        },
        ButtonActionType::ProlongInevitable(s) => {
            &&& post.next_state == pre.next_state
            &&& post.score.1 == pre.score.1
            &&& post.entities@.len() == pre.entities@.len()
            &&& forall|i: int| 0 <= i < pre.entities@.len() ==> #[trigger] post.entities@[i] == prolonged(pre.entities@[i], s)
        },
    }
}

pub open spec fn colour_of(i: Interaction) -> ButtonColour {
    match i {
        Interaction::Pressed => ButtonColour::Pressed,
        Interaction::Hovered => ButtonColour::Hovered,
        Interaction::Idle => ButtonColour::Normal,
    }
}

/// From index `n` on, `bs` holds exactly the buttons that entering screen
/// `st` adds.
pub open spec fn screen_buttons(st: AppState, bs: Seq<Button>, n: int) -> bool {
    match st {
        AppState::MainMenu => {
            &&& bs.len() == n + 1
            &&& shows(bs[n], "Play"@)
            &&& bs[n].action.action_type == ButtonActionType::ChangeAppState(AppState::Game)
        },
        AppState::Game => {
            &&& bs.len() == n + 2
            &&& shows(bs[n], "end baby"@)
            &&& is_end_game(bs[n].action.action_type, end_baby_message())
            &&& shows(bs[n + 1], "pull baby"@)
            &&& bs[n + 1].action.action_type == ButtonActionType::ProlongInevitable(Situation::Baby)
        },
        AppState::GameOver => {
            &&& bs.len() == n + 1
            &&& shows(bs[n], "try again"@)
            &&& bs[n].action.action_type == ButtonActionType::ChangeAppState(AppState::Game)
        },
    }
}

/// The entities of the screen `st` right after it is entered.
pub open spec fn screen_entities(st: AppState) -> Seq<Entity> {
    if st == AppState::Game {
        seq![baby_entity(), fire_entity()]
    } else {
        Seq::empty()
    }
}

pub open spec fn start_difficulty() -> Difficulty {
    Difficulty { baby: BABY_START_LEVEL, sloth: 0, kitten: 0 }
}

/// The whole state of a running game.
pub struct GameSession {
    pub state: AppState,
    /// A screen change asked for during this frame, made before the next.
    pub next_state: Option<AppState>,
    /// The entities of the current screen.
    pub entities: Vec<Entity>,
    /// The buttons of the current screen.
    pub buttons: Vec<Button>,
    pub score: Score,
    pub difficulty: Difficulty,
    /// Milliseconds since the last score tick.
    pub timer_ms: u32,
}

impl GameSession {
    pub open spec fn wf(&self) -> bool {
        &&& self.timer_ms < TICK_MS
        &&& entities_wf(self.entities@)
    }

    /// Moves every good thing by its situation's rule for `dt` milliseconds.
    pub fn update_good_thing(&mut self, dt: u32)
        requires
            old(self).wf(),
        ensures
            final(self).wf(),
            final(self).entities@.len() == old(self).entities@.len(),
            forall|i: int| 0 <= i < old(self).entities@.len() ==>
                #[trigger] final(self).entities@[i] == moved(old(self).entities@[i], old(self).difficulty.baby, dt),
            forall|i: int| 0 <= i < final(self).entities@.len() && has_situation(final(self).entities@[i], Situation::Sloth)
                ==> #[trigger] final(self).entities@[i].y >= SLOTH_FLOOR,
            final(self).state == old(self).state,
            final(self).next_state == old(self).next_state,
            final(self).buttons == old(self).buttons,
            final(self).score == old(self).score,
            final(self).difficulty == old(self).difficulty,
            final(self).timer_ms == old(self).timer_ms,
    {
        let baby = self.difficulty.baby;
        let mut out: Vec<Entity> = Vec::new();
        let n = self.entities.len();
        let mut i: usize = 0;
        while i < n
            invariant
                n == self.entities@.len(),
                i <= n,
                self.wf(),
                baby == self.difficulty.baby,
                out@.len() == i,
                forall|k: int| 0 <= k < i ==> #[trigger] out@[k] == moved(self.entities@[k], baby, dt),
            decreases n - i,
        {
            let e = self.entities[i];
            assert(entity_wf(self.entities@[i as int]));
            proof {
                lemma_wide_product(baby, dt);
            }
            let m = match e.kind {
                Kind::Good(g) => match g.situation {
                    Situation::Baby => Entity {
                        x: clamp_wide(e.x as i128 + baby as i128 * dt as i128),
                        ..e
                    },
                    Situation::Kitten => e,
                    Situation::Sloth => if e.y - SLOTH_FALL * (dt as i64) < SLOTH_FLOOR {
                        Entity { y: SLOTH_TOP, ..e }
                    } else {
                        Entity { y: e.y - SLOTH_FALL * (dt as i64), ..e }
                    },
                },
                _ => e,
            };
            out.push(m);
            i = i + 1;
        }
        self.entities = out;
    }

    /// Ends the round when a good thing touches a bad thing. `(nx, ny)` is
    /// the nail offset turned by the carousel's current rotation. Each
    /// touching pair asks for the game-over screen and sets the message of its
    /// good thing's situation, so the last such good thing gives the message.
    pub fn good_thing_does_not_touch_bad_thing(&mut self, nx: i64, ny: i64)
        requires
            old(self).wf(),
            in_bounds(nx as int),
            in_bounds(ny as int),
        ensures
            final(self).wf(),
            match last_hit(old(self).entities@, old(self).entities@.len() as int, nx, ny) {
                None => final(self).next_state == old(self).next_state && final(self).score.1 == old(self).score.1,
                Some(i) => {
                    &&& final(self).next_state == Some(AppState::GameOver)
                    &&& old(self).entities@[i].kind matches Kind::Good(g)
                    &&& final(self).score.1@ == message_of(g.situation)
                },
            },
            final(self).entities == old(self).entities,
            final(self).state == old(self).state,
            final(self).buttons == old(self).buttons,
            final(self).score.0 == old(self).score.0,
            final(self).difficulty == old(self).difficulty,
            final(self).timer_ms == old(self).timer_ms,
    {
        let n = self.entities.len();
        let mut last: Option<usize> = None;
        let mut i: usize = 0;
        while i < n
            invariant
                n == self.entities@.len(),
                i <= n,
                self.wf(),
                in_bounds(nx as int),
                in_bounds(ny as int),
                match last_hit(self.entities@, i as int, nx, ny) {
                    None => last is None,
                    Some(k) => last == Some(k as usize),
                },
            decreases n - i,
        {
            let g = self.entities[i];
            assert(entity_wf(self.entities@[i as int]));
            if let Kind::Good(_) = g.kind {
                let mut found = false;
                let mut j: usize = 0;
                while j < n
                    invariant
                        n == self.entities@.len(),
                        i < n,
                        j <= n,
                        self.wf(),
                        g == self.entities@[i as int],
                        in_bounds(nx as int),
                        in_bounds(ny as int),
                        found == exists|k: int| 0 <= k < j && is_bad(self.entities@[k]) && #[trigger] overlaps(g, self.entities@[k], nx, ny),
                    decreases n - j,
                {
                    let b = self.entities[j];
                    assert(entity_wf(self.entities@[j as int]));
                    let bad = match b.kind {
                        Kind::Fire => true,
                        Kind::Nail(_) => true,
                        Kind::MalletDown => true,
                        _ => false,
                    };
                    if bad && pair_overlaps(&g, &b, nx, ny) {
                        found = true;
                    }
                    j = j + 1;
                }
                if found {
                    last = Some(i);
                }
            }
            i = i + 1;
        }
        proof {
            lemma_last_hit_is_hit(self.entities@, n as int, nx, ny);
        }
        match last {
            Some(k) => {
                let e = self.entities[k];
                match e.kind {
                    Kind::Good(g) => {
                        self.next_state = Some(AppState::GameOver);
                        self.score.1 = get_message(&g.situation);
                    },
                    _ => {},
                }
            },
            None => {},
        }
    }

    /// Adds a Sloth at the top of the screen.
    pub fn spawn_sloth(&mut self)
        requires
            old(self).wf(),
        ensures
            final(self).wf(),
            final(self).entities@ == old(self).entities@.push(sloth_entity()),
            final(self).buttons == old(self).buttons,
            final(self).score == old(self).score,
            final(self).difficulty == old(self).difficulty,
            final(self).timer_ms == old(self).timer_ms,
            final(self).state == old(self).state,
            final(self).next_state == old(self).next_state,
    {
        self.entities.push(Entity {
            kind: Kind::Good(GoodThing { situation: Situation::Sloth }),
            x: SLOTH_X,
            y: SLOTH_TOP,
            rot: 0,
            radius: SMALL_RADIUS,
        });
    }

    /// Adds a Sloth, the mallet with its hit area, and the buttons
    /// "strangle sloth" and "push sloth".
    pub fn spawn_sloth_mallet(&mut self)
        requires
            old(self).wf(),
        ensures
            final(self).wf(),
            final(self).entities@ == old(self).entities@ + mallet_rig(),
            final(self).buttons@.subrange(0, old(self).buttons@.len() as int) == old(self).buttons@,
            mallet_buttons(final(self).buttons@, old(self).buttons@.len() as int),
            final(self).score == old(self).score,
            final(self).difficulty == old(self).difficulty,
            final(self).timer_ms == old(self).timer_ms,
            final(self).state == old(self).state,
            final(self).next_state == old(self).next_state,
    {
        let ghost n = self.buttons@.len() as int;
        self.spawn_sloth();
        spawn_button(
            &mut self.buttons,
            "strangle sloth",
            ButtonActionType::EndGame(
                "the baby sloth, choking for air, sheds a tear and squeaks out cries for the safety of its mother. it does not come.".to_string(),
            ),
        );
        spawn_button(&mut self.buttons, "push sloth", ButtonActionType::ProlongInevitable(Situation::Sloth));
        self.entities.push(Entity { kind: Kind::HitArea, x: HIT_AREA_X, y: HIT_AREA_Y, rot: 0, radius: 0 });
        self.entities.push(Entity { kind: Kind::Mallet, x: MALLET_X, y: MALLET_Y, rot: 0, radius: 0 });
        assert(self.entities@ =~= old(self).entities@ + mallet_rig());
        assert(self.buttons@.subrange(0, n) =~= old(self).buttons@);
        assert(self.buttons@[n] == self.buttons@.subrange(0, n + 1)[n]);
    }

    /// Adds the carousel with its bridges and nails, the Kitten, and the
    /// button "reverse world".
    pub fn spawn_kitten_nail(&mut self)
        requires
            old(self).wf(),
        ensures
            final(self).wf(),
            final(self).entities@ == old(self).entities@ + carousel_rig(),
            final(self).buttons@.subrange(0, old(self).buttons@.len() as int) == old(self).buttons@,
            carousel_buttons(final(self).buttons@, old(self).buttons@.len() as int),
            final(self).score == old(self).score,
            final(self).difficulty == old(self).difficulty,
            final(self).timer_ms == old(self).timer_ms,
            final(self).state == old(self).state,
            final(self).next_state == old(self).next_state,
    {
        self.entities.push(Entity { kind: Kind::Carousel(Carousel(1)), x: CAROUSEL_X, y: CAROUSEL_Y, rot: 0, radius: 0 });
        self.entities.push(Entity { kind: Kind::Bridge, x: 0, y: 125_000, rot: 0, radius: 0 });
        self.entities.push(Entity { kind: Kind::Bridge, x: -91_000, y: -72_000, rot: BRIDGE_ROT, radius: 0 });
        self.entities.push(Entity { kind: Kind::Nail(Nail), x: NAIL_OFFSET, y: -NAIL_OFFSET, rot: NAIL_ROT, radius: SMALL_RADIUS });
        self.entities.push(Entity {
            kind: Kind::Good(GoodThing { situation: Situation::Kitten }),
            x: KITTEN_X,
            y: KITTEN_Y,
            rot: 0,
            radius: SMALL_RADIUS,
        });
        spawn_button(&mut self.buttons, "reverse world", ButtonActionType::ProlongInevitable(Situation::Kitten));
        assert(self.entities@ =~= old(self).entities@ + carousel_rig());
    }

    /// One score tick that picked track `t`: the score goes up by one, the
    /// picked track by a tenth, and reaching a threshold brings in its
    /// hazards, once.
    pub fn score_tick(&mut self, t: Track)
        requires
            old(self).wf(),
        ensures
            final(self).wf(),
            tick_result(*old(self), *final(self), t),
            final(self).timer_ms == old(self).timer_ms,
    {
        self.score.0 = sat_inc_exec(self.score.0);
        match t {
            Track::Baby => {
                self.difficulty.baby = sat_inc_exec(self.difficulty.baby);
            },
            Track::Sloth => {
                self.difficulty.sloth = sat_inc_exec(self.difficulty.sloth);
                if self.difficulty.sloth == SLOTH_MALLET_LEVEL {
                    self.spawn_sloth_mallet();
                }
                if self.difficulty.sloth == SLOTH_SECOND_LEVEL {
                    self.spawn_sloth();
                }
            },
            Track::Kitten => {
                self.difficulty.kitten = sat_inc_exec(self.difficulty.kitten);
                if self.difficulty.kitten == KITTEN_CAROUSEL_LEVEL {
                    self.spawn_kitten_nail();
                }
            },
        }
        assert(self.entities@ =~= old(self).entities@ + spawned(old(self).difficulty, t));
        assert(self.buttons@.subrange(0, old(self).buttons@.len() as int) =~= old(self).buttons@);
    }

    /// Advances the score timer by `dt` milliseconds; when a full second has
    /// gone by, ticks the score once on track `t`.
    pub fn score_ticker_with(&mut self, dt: u32, t: Track)
        requires
            old(self).wf(),
        ensures
            final(self).wf(),
            final(self).timer_ms == (old(self).timer_ms + dt) % (TICK_MS as int),
            old(self).timer_ms + dt >= TICK_MS ==> tick_result(*old(self), *final(self), t),
            old(self).timer_ms + dt < TICK_MS ==> {
                &&& final(self).score == old(self).score
                &&& final(self).difficulty == old(self).difficulty
                &&& final(self).entities == old(self).entities
                &&& final(self).buttons == old(self).buttons
                &&& final(self).state == old(self).state
                &&& final(self).next_state == old(self).next_state
            },
    {
        let total: u64 = self.timer_ms as u64 + dt as u64;
        if total >= TICK_MS as u64 {
            self.score_tick(t);
            self.timer_ms = (total % (TICK_MS as u64)) as u32;
        } else {
            assert((total as int) % (TICK_MS as int) == total as int) by (nonlinear_arith)
                requires 0 <= total < TICK_MS;
            self.timer_ms = total as u32;
        }
    }

    /// Advances the score timer by `dt` milliseconds; when a full second has
    /// gone by, ticks the score once on a track picked at random.
    pub fn score_ticker(&mut self, dt: u32)
        requires
            old(self).wf(),
        ensures
            final(self).wf(),
            final(self).timer_ms == (old(self).timer_ms + dt) % (TICK_MS as int),
            old(self).timer_ms + dt >= TICK_MS ==> exists|t: Track| tick_result(*old(self), *final(self), t),
            old(self).timer_ms + dt < TICK_MS ==> {
                &&& final(self).score == old(self).score
                &&& final(self).difficulty == old(self).difficulty
                &&& final(self).entities == old(self).entities
                &&& final(self).buttons == old(self).buttons
                &&& final(self).state == old(self).state
                &&& final(self).next_state == old(self).next_state
            },
    {
        let t = random_track();
        self.score_ticker_with(dt, t);
        assert(old(self).timer_ms + dt >= TICK_MS ==> tick_result(*old(self), *self, t));
    }

    /// Turns the mallet to `angle`. While the angle is above
    /// `MALLET_DOWN_ANGLE` there is one mallet-down hazard, added if there was
    /// none; at or below it there is none. Without a mallet nothing changes.
    pub fn swing_mallet(&mut self, angle: i64)
        requires
            old(self).wf(),
            in_bounds(angle as int),
        ensures
            final(self).wf(),
            !has_mallet(old(self).entities@) ==> final(self).entities == old(self).entities,
            has_mallet(old(self).entities@) && angle > MALLET_DOWN_ANGLE ==> final(self).entities@ == if down_count(old(self).entities@) > 0 {
                swept(old(self).entities@, angle, false)
            } else {
                swept(old(self).entities@, angle, false).push(mallet_down_entity())
            },
            has_mallet(old(self).entities@) && angle <= MALLET_DOWN_ANGLE ==> final(self).entities@ == swept(old(self).entities@, angle, true),
            has_mallet(old(self).entities@) ==> (down_count(final(self).entities@) > 0 <==> angle > MALLET_DOWN_ANGLE),
            has_mallet(old(self).entities@) && angle > MALLET_DOWN_ANGLE ==> down_count(final(self).entities@) == if down_count(old(self).entities@) == 0 {
                1
            } else {
                down_count(old(self).entities@)
            },
            final(self).buttons == old(self).buttons,
            final(self).score == old(self).score,
            final(self).difficulty == old(self).difficulty,
            final(self).timer_ms == old(self).timer_ms,
            final(self).state == old(self).state,
            final(self).next_state == old(self).next_state,
    {
        let lift = angle <= MALLET_DOWN_ANGLE;
        let n = self.entities.len();
        let mut out: Vec<Entity> = Vec::new();
        let mut found_mallet = false;
        let mut found_down = false;
        let mut i: usize = 0;
        while i < n
            invariant
                n == self.entities@.len(),
                i <= n,
                self.wf(),
                in_bounds(angle as int),
                lift == (angle <= MALLET_DOWN_ANGLE),
                out@ == swept(self.entities@.subrange(0, i as int), angle, lift),
                found_mallet == exists|k: int| 0 <= k < i && (#[trigger] self.entities@[k]).kind is Mallet,
                found_down == (down_count(self.entities@.subrange(0, i as int)) > 0),
            decreases n - i,
        {
            let e = self.entities[i];
            let ghost pre = self.entities@.subrange(0, i as int);
            assert(self.entities@.subrange(0, i + 1).drop_last() =~= pre);
            proof {
                lemma_down_count_push(pre, e);
                assert(pre.push(e) =~= self.entities@.subrange(0, i + 1));
            }
            match e.kind {
                Kind::Mallet => {
                    found_mallet = true;
                    out.push(Entity { rot: angle, ..e });
                },
                Kind::MalletDown => {
                    found_down = true;
                    if !lift {
                        out.push(e);
                    }
                },
                _ => {
                    out.push(e);
                },
            }
            i = i + 1;
        }
        assert(self.entities@.subrange(0, n as int) =~= self.entities@);
        proof {
            lemma_swept_downs(self.entities@, angle, lift);
        }
        if found_mallet {
            if !lift && !found_down {
                proof {
                    lemma_down_count_push(out@, mallet_down_entity());
                }
                out.push(Entity { kind: Kind::MalletDown, x: HIT_AREA_X, y: HIT_AREA_Y, rot: 0, radius: SMALL_RADIUS });
            }
            self.entities = out;
        }
    }

    /// Turns every carousel by its speed times a hundredth of the kitten
    /// level, in radians per second, for `dt` milliseconds.
    pub fn spin_carousel(&mut self, dt: u32)
        requires
            old(self).wf(),
        ensures
            final(self).wf(),
            final(self).entities@.len() == old(self).entities@.len(),
            forall|i: int| 0 <= i < old(self).entities@.len() ==>
                #[trigger] final(self).entities@[i] == spun(old(self).entities@[i], old(self).difficulty.kitten, dt),
            final(self).buttons == old(self).buttons,
            final(self).score == old(self).score,
            final(self).difficulty == old(self).difficulty,
            final(self).timer_ms == old(self).timer_ms,
            final(self).state == old(self).state,
            final(self).next_state == old(self).next_state,
    {
        let kitten = self.difficulty.kitten;
        let mut out: Vec<Entity> = Vec::new();
        let n = self.entities.len();
        let mut i: usize = 0;
        while i < n
            invariant
                n == self.entities@.len(),
                i <= n,
                self.wf(),
                kitten == self.difficulty.kitten,
                out@.len() == i,
                forall|k: int| 0 <= k < i ==> #[trigger] out@[k] == spun(self.entities@[k], kitten, dt),
                forall|k: int| 0 <= k < i ==> entity_wf(#[trigger] out@[k]),
            decreases n - i,
        {
            let e = self.entities[i];
            assert(entity_wf(self.entities@[i as int]));
            let m = match e.kind {
                Kind::Carousel(c) => {
                    proof {
                        lemma_wide_product(kitten, dt);
                        lemma_turn_bound(c.0 as int, kitten as int * dt as int);
                    }
                    Entity { rot: clamp_wide(e.rot as i128 + c.0 as i128 * (kitten as i128 * dt as i128) * 10), ..e }
                },
                _ => e,
            };
            out.push(m);
            i = i + 1;
        }
        self.entities = out;
    }

    /// Does what a button with action `action` does when pressed.
    pub fn press(&mut self, action: &ButtonActionType)
        requires
            old(self).wf(),
        ensures
            final(self).wf(),
            press_result(*old(self), *final(self), *action),
            final(self).buttons == old(self).buttons,
    {
        match action {
            ButtonActionType::ChangeAppState(st) => {
                self.next_state = Some(*st);
            },
            ButtonActionType::EndGame(message) => {
                self.next_state = Some(AppState::GameOver);
                self.score.1 = message.clone();
            },
            ButtonActionType::ProlongInevitable(s) => {
                let mut out: Vec<Entity> = Vec::new();
                let n = self.entities.len();
                let mut i: usize = 0;
                while i < n
                    invariant
                        n == self.entities@.len(),
                        i <= n,
                        self.wf(),
                        out@.len() == i,
                        forall|k: int| 0 <= k < i ==> #[trigger] out@[k] == prolonged(self.entities@[k], *s),
                        forall|k: int| 0 <= k < i ==> entity_wf(#[trigger] out@[k]),
                    decreases n - i,
                {
                    let e = self.entities[i];
                    assert(entity_wf(self.entities@[i as int]));
                    let m = match (s, e.kind) {
                        (Situation::Baby, Kind::Good(GoodThing { situation: Situation::Baby })) => Entity { x: BABY_START_X, ..e },
                        (Situation::Kitten, Kind::Carousel(c)) => Entity { kind: Kind::Carousel(Carousel(-c.0)), ..e },
                        (Situation::Sloth, Kind::Good(GoodThing { situation: Situation::Sloth })) => Entity {
                            y: clamp_wide(e.y as i128 - SLOTH_PUSH as i128),
                            ..e
                        },
                        _ => e,
                    };
                    out.push(m);
                    i = i + 1;
                }
                self.entities = out;
            },
        }
    }

    /// Shows `interaction` on button `index`; a press also does what the
    /// button does.
    pub fn button_interaction_system(&mut self, index: usize, interaction: Interaction)
        requires
            old(self).wf(),
            index < old(self).buttons@.len(),
        ensures
            final(self).wf(),
            final(self).buttons@ == old(self).buttons@.update(
                index as int,
                Button { colour: colour_of(interaction), ..old(self).buttons@[index as int] },
            ),
            interaction == Interaction::Pressed ==> press_result(*old(self), *final(self), old(self).buttons@[index as int].action.action_type),
            interaction != Interaction::Pressed ==> {
                &&& final(self).entities == old(self).entities
                &&& final(self).score == old(self).score
                &&& final(self).next_state == old(self).next_state
                &&& final(self).state == old(self).state
                &&& final(self).difficulty == old(self).difficulty
                &&& final(self).timer_ms == old(self).timer_ms
            },
    {
        let colour = match interaction {
            Interaction::Pressed => ButtonColour::Pressed,
            Interaction::Hovered => ButtonColour::Hovered,
            Interaction::Idle => ButtonColour::Normal,
        };
        if let Interaction::Pressed = interaction {
            let action = match &self.buttons[index].action.action_type {
                ButtonActionType::ChangeAppState(st) => ButtonActionType::ChangeAppState(*st),
                ButtonActionType::EndGame(m) => ButtonActionType::EndGame(m.clone()),
                ButtonActionType::ProlongInevitable(s) => ButtonActionType::ProlongInevitable(*s),
            };
            self.press(&action);
        }
        let mut b = self.buttons.remove(index);
        b.colour = colour;
        self.buttons.insert(index, b);
        assert(self.buttons@ =~= old(self).buttons@.update(
            index as int,
            Button { colour: colour_of(interaction), ..old(self).buttons@[index as int] },
        ));
    }

    /// Removes every entity and button of the current screen.
    pub fn cleanup_system(&mut self)
        ensures
            final(self).entities@.len() == 0,
            final(self).buttons@.len() == 0,
            final(self).score == old(self).score,
            final(self).difficulty == old(self).difficulty,
            final(self).timer_ms == old(self).timer_ms,
            final(self).state == old(self).state,
            final(self).next_state == old(self).next_state,
    {
        self.entities = Vec::new();
        self.buttons = Vec::new();
    }

    /// Resets the score and the difficulty for a new round.
    pub fn setup_game(&mut self)
        ensures
            final(self).score.0 == 0,
            final(self).score.1@.len() == 0,
            final(self).difficulty == start_difficulty(),
            final(self).entities == old(self).entities,
            final(self).buttons == old(self).buttons,
            final(self).timer_ms == old(self).timer_ms,
            final(self).state == old(self).state,
            final(self).next_state == old(self).next_state,
    {
        self.score = Score(0, String::new());
        self.difficulty = Difficulty { baby: BABY_START_LEVEL, sloth: 0, kitten: 0 };
    }

    /// Adds the Baby, the fire, and the buttons "end baby" and "pull baby".
    pub fn spawn_baby_fire(&mut self)
        requires
            old(self).wf(),
        ensures
            final(self).wf(),
            final(self).entities@ == old(self).entities@ + seq![baby_entity(), fire_entity()],
            final(self).buttons@.len() == old(self).buttons@.len() + 2,
            final(self).buttons@.subrange(0, old(self).buttons@.len() as int) == old(self).buttons@,
            screen_buttons(AppState::Game, final(self).buttons@, old(self).buttons@.len() as int),
            final(self).score == old(self).score,
            final(self).difficulty == old(self).difficulty,
            final(self).timer_ms == old(self).timer_ms,
            final(self).state == old(self).state,
            final(self).next_state == old(self).next_state,
    {
        let ghost n = self.buttons@.len() as int;
        spawn_button(
            &mut self.buttons,
            "end baby",
            ButtonActionType::EndGame(
                "the baby explored, naive and innocent, its newfound territory. you actively steered creation to its death".to_string(),
            ),
        );
        spawn_button(&mut self.buttons, "pull baby", ButtonActionType::ProlongInevitable(Situation::Baby));
        self.entities.push(Entity {
            kind: Kind::Good(GoodThing { situation: Situation::Baby }),
            x: BABY_START_X,
            y: BABY_Y,
            rot: 0,
            radius: BIG_RADIUS,
        });
        self.entities.push(Entity { kind: Kind::Fire, x: FIRE_X, y: BABY_Y, rot: 0, radius: BIG_RADIUS });
        assert(self.entities@ =~= old(self).entities@ + seq![baby_entity(), fire_entity()]);
        assert(self.buttons@.subrange(0, n) =~= old(self).buttons@);
        assert(self.buttons@[n] == self.buttons@.subrange(0, n + 1)[n]);
    }

    /// Adds the main menu's "Play" button.
    pub fn setup_menu(&mut self)
        ensures
            final(self).buttons@.len() == old(self).buttons@.len() + 1,
            final(self).buttons@.subrange(0, old(self).buttons@.len() as int) == old(self).buttons@,
            screen_buttons(AppState::MainMenu, final(self).buttons@, old(self).buttons@.len() as int),
            final(self).entities == old(self).entities,
            final(self).score == old(self).score,
            final(self).difficulty == old(self).difficulty,
            final(self).timer_ms == old(self).timer_ms,
            final(self).state == old(self).state,
            final(self).next_state == old(self).next_state,
    {
        spawn_button(&mut self.buttons, "Play", ButtonActionType::ChangeAppState(AppState::Game));
    }

    /// Adds the game-over screen's "try again" button.
    pub fn setup_gameover(&mut self)
        ensures
            final(self).buttons@.len() == old(self).buttons@.len() + 1,
            final(self).buttons@.subrange(0, old(self).buttons@.len() as int) == old(self).buttons@,
            screen_buttons(AppState::GameOver, final(self).buttons@, old(self).buttons@.len() as int),
            final(self).entities == old(self).entities,
            final(self).score == old(self).score,
            final(self).difficulty == old(self).difficulty,
            final(self).timer_ms == old(self).timer_ms,
            final(self).state == old(self).state,
            final(self).next_state == old(self).next_state,
    {
        spawn_button(&mut self.buttons, "try again", ButtonActionType::ChangeAppState(AppState::Game));
    }

    /// Makes the screen change asked for, if any: the old screen's entities
    /// and buttons go, then the new screen is set up. Entering the game
    /// resets the score and the difficulty.
    pub fn apply_state_transition(&mut self)
        requires
            old(self).wf(),
        ensures
            final(self).wf(),
            final(self).next_state is None,
            final(self).timer_ms == old(self).timer_ms,
            match old(self).next_state {
                None => {
                    &&& final(self).state == old(self).state
                    &&& final(self).entities == old(self).entities
                    &&& final(self).buttons == old(self).buttons
                    &&& final(self).score == old(self).score
                    &&& final(self).difficulty == old(self).difficulty
                },
                Some(st) => {
                    &&& final(self).state == st
                    &&& final(self).entities@ == screen_entities(st)
                    &&& screen_buttons(st, final(self).buttons@, 0)
                    &&& st == AppState::Game ==> {
                        &&& final(self).score.0 == 0
                        &&& final(self).score.1@.len() == 0
                        &&& final(self).difficulty == start_difficulty()
                    }
                    &&& st != AppState::Game ==> {
                        &&& final(self).score == old(self).score
                        &&& final(self).difficulty == old(self).difficulty
                    }
                },
            },
    {
        match self.next_state {
            None => {},
            Some(st) => {
                self.next_state = None;
                self.cleanup_system();
                self.state = st;
                match st {
                    AppState::MainMenu => {
                        self.setup_menu();
                    },
                    AppState::Game => {
                        self.setup_game();
                        self.spawn_baby_fire();
                    },
                    AppState::GameOver => {
                        self.setup_gameover();
                    },
                }
                assert(self.entities@ =~= screen_entities(st));
            },
        }
    }

    /// A fresh game at the main menu.
    pub fn new() -> (r: GameSession)
        ensures
            r.wf(),
            r.state == AppState::MainMenu,
            r.next_state is None,
            r.entities@.len() == 0,
            screen_buttons(AppState::MainMenu, r.buttons@, 0),
            r.score.0 == 0,
            r.score.1@.len() == 0,
            r.difficulty == start_difficulty(),
            r.timer_ms == 0,
    {
        let mut r = GameSession {
            state: AppState::MainMenu,
            next_state: None,
            entities: Vec::new(),
            buttons: Vec::new(),
            score: Score(0, String::new()),
            difficulty: Difficulty { baby: BABY_START_LEVEL, sloth: 0, kitten: 0 },
            timer_ms: 0,
        };
        r.setup_menu();
        r
    }
}

} // verus!
