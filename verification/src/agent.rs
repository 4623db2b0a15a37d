//! The decisions an ant takes when its next step would leave the grid, and the seeds that give
//! each ant its own speed and pheromone value.

use vstd::prelude::*;

verus! {

/// Where a coordinate lies relative to the range of its axis.
#[derive(Clone, Copy, Debug, PartialEq, Eq, Structural)]
pub enum Rating {
    /// Below the range.
    Less,
    /// Inside the range, its ends included.
    Equal,
    /// Above the range.
    Greater,
}

/// What happens when an ant hits a wall, that is, when its next step would leave the grid.
pub enum WallBounceReaction<S> {
    /// The ant respawns at the centre of the grid.
    Center,
    /// The ant respawns at a random position on the grid.
    Random,
    /// The ant teleports to the opposite edge of the grid.
    WrapAround,
    /// The ant stays at the edge of the grid.
    Clip,
    /// The ant stays at the edge and faces away from the wall; the angle `S` is the largest
    /// deviation from the wall's normal.
    FaceAway(S),
    /// The ant stays at the edge and bounces off the wall like a ball.
    BounceOff,
}

/// What becomes of one coordinate of an ant that hit a wall; `new` is where the step would
/// have taken it and `size` is the extent of the grid along the axis.
#[derive(Clone, Copy, Debug, PartialEq, Eq, Structural)]
pub enum AxisMove {
    /// The coordinate becomes `new`.
    Keep,
    /// The coordinate becomes `0`.
    ToLowEdge,
    /// The coordinate becomes `size`.
    ToHighEdge,
    /// The coordinate becomes `new + size`.
    WrapForward,
    /// The coordinate becomes `new - size`.
    WrapBack,
    /// The coordinate becomes `size / 2`.
    ToCenter,
    /// The coordinate becomes a random fraction of `size`.
    ToRandom,
}

/// The base direction of a new heading, around which a random deviation is drawn.
#[derive(Clone, Copy, Debug, PartialEq, Eq, Structural)]
pub enum Heading {
    /// Along the x-axis (angle 0).
    PositiveX,
    /// Against the x-axis (angle pi).
    NegativeX,
    /// Along the y-axis (angle pi/2).
    PositiveY,
    /// Against the y-axis (angle 3pi/2).
    NegativeY,
}

/// What to do with an ant that hit a wall. The x-coordinate is handled before the
/// y-coordinate, and a new heading for the x-axis is drawn before one for the y-axis, which
/// replaces it.
#[derive(Clone, Copy, Debug, PartialEq, Eq, Structural)]
pub struct BouncePlan {
    /// Whether the sign of the ant's pheromone value flips.
    pub negate_value: bool,
    /// What becomes of the x-coordinate.
    pub x: AxisMove,
    /// What becomes of the y-coordinate.
    pub y: AxisMove,
    /// The base direction of a new heading drawn for the x-axis, if one is drawn.
    pub x_heading: Option<Heading>,
    /// The base direction of a new heading drawn for the y-axis, if one is drawn.
    pub y_heading: Option<Heading>,
    /// Whether the x-component of the direction is mirrored.
    pub flip_x: bool,
    /// Whether the y-component of the direction is mirrored.
    pub flip_y: bool,
    /// Whether the direction is normalised afterwards.
    pub renormalize: bool,
}

/// The move of a coordinate that stays at the wall it hit.
pub open spec fn spec_edge_move(rating: Rating) -> AxisMove {
    match rating {
        Rating::Less => AxisMove::ToLowEdge,
        Rating::Greater => AxisMove::ToHighEdge,
        Rating::Equal => AxisMove::Keep,
    }
}

/// The move of a coordinate that wraps around to the opposite edge.
pub open spec fn spec_wrap_move(rating: Rating) -> AxisMove {
    match rating {
        Rating::Less => AxisMove::WrapForward,
        Rating::Greater => AxisMove::WrapBack,
        Rating::Equal => AxisMove::Keep,
    }
}

/// The move of one coordinate under a reaction.
pub open spec fn spec_axis_move<S>(reaction: WallBounceReaction<S>, rating: Rating) -> AxisMove {
    match reaction {
        WallBounceReaction::Center => AxisMove::ToCenter,
        WallBounceReaction::Random => AxisMove::ToRandom,
        WallBounceReaction::WrapAround => spec_wrap_move(rating),
        WallBounceReaction::Clip => spec_edge_move(rating),
        WallBounceReaction::FaceAway(_) => spec_edge_move(rating),
        WallBounceReaction::BounceOff => spec_edge_move(rating),
    }
}

/// The new heading drawn for an axis: away from the wall that was hit, and only when facing
/// away.
pub open spec fn spec_heading<S>(
    reaction: WallBounceReaction<S>,
    rating: Rating,
    away_from_low: Heading,
    away_from_high: Heading,
) -> Option<Heading> {
    match reaction {
        WallBounceReaction::FaceAway(_) => match rating {
            Rating::Less => Some(away_from_low),
            Rating::Greater => Some(away_from_high),
            Rating::Equal => None,
        },
        _ => None,
    }
}

/// Whether the component of the direction along an axis is mirrored.
pub open spec fn spec_flip<S>(reaction: WallBounceReaction<S>, rating: Rating) -> bool {
    reaction is BounceOff && rating != Rating::Equal
}

/// The move of a coordinate that stays at the wall it hit.
fn edge_move(rating: Rating) -> (m: AxisMove)
    ensures
        m == spec_edge_move(rating),
{
    match rating {
        Rating::Less => AxisMove::ToLowEdge,
        Rating::Greater => AxisMove::ToHighEdge,
        Rating::Equal => AxisMove::Keep,
    }
}

/// The move of a coordinate that wraps around to the opposite edge.
fn wrap_move(rating: Rating) -> (m: AxisMove)
    ensures
        m == spec_wrap_move(rating),
{
    match rating {
        Rating::Less => AxisMove::WrapForward,
        Rating::Greater => AxisMove::WrapBack,
        Rating::Equal => AxisMove::Keep,
    }
}

/// The new heading for an axis of a facing-away ant: away from the wall that was hit.
fn face_away_heading(rating: Rating, away_from_low: Heading, away_from_high: Heading) -> (h:
    Option<Heading>)
    ensures
        h == match rating {
            Rating::Less => Some(away_from_low),
            Rating::Greater => Some(away_from_high),
            Rating::Equal => None::<Heading>,
        },
{
    match rating {
        Rating::Less => Some(away_from_low),
        Rating::Greater => Some(away_from_high),
        Rating::Equal => None,
    }
}

/// Decides what happens to an ant whose next step lands where `x_rating` and `y_rating` say:
/// `None` when the step stays on the grid, so that the ant simply takes it; otherwise the plan
/// for `reaction`, in which the pheromone value flips when `flip_value` holds.
pub fn plan_wall_bounce<S>(
    reaction: &WallBounceReaction<S>,
    flip_value: bool,
    x_rating: Rating,
    y_rating: Rating,
) -> (plan: Option<BouncePlan>)
    ensures
        plan is None <==> (x_rating == Rating::Equal && y_rating == Rating::Equal),
        plan matches Some(p) ==> {
            &&& p.negate_value == flip_value
            &&& p.x == spec_axis_move(*reaction, x_rating)
            &&& p.y == spec_axis_move(*reaction, y_rating)
            &&& p.x_heading == spec_heading(*reaction, x_rating, Heading::PositiveX, Heading::NegativeX)
            &&& p.y_heading == spec_heading(*reaction, y_rating, Heading::PositiveY, Heading::NegativeY)
            &&& p.flip_x == spec_flip(*reaction, x_rating)
            &&& p.flip_y == spec_flip(*reaction, y_rating)
            &&& p.renormalize == (*reaction is BounceOff)
        },
{
    if x_rating == Rating::Equal && y_rating == Rating::Equal {
        return None;
    }
    let plan = match reaction {
        WallBounceReaction::Center => BouncePlan {
            negate_value: flip_value,
            x: AxisMove::ToCenter,
            y: AxisMove::ToCenter,
            x_heading: None,
            y_heading: None,
            flip_x: false,
            flip_y: false,
            renormalize: false,
        },
        WallBounceReaction::Random => BouncePlan {
            negate_value: flip_value,
            x: AxisMove::ToRandom,
            y: AxisMove::ToRandom,
            x_heading: None,
            y_heading: None,
            flip_x: false,
            flip_y: false,
            renormalize: false,
        },
        WallBounceReaction::WrapAround => BouncePlan {
            negate_value: flip_value,
            x: wrap_move(x_rating),
            y: wrap_move(y_rating),
            x_heading: None,
            y_heading: None,
            flip_x: false,
            flip_y: false,
            renormalize: false,
        },
        WallBounceReaction::Clip => BouncePlan {
            negate_value: flip_value,
            x: edge_move(x_rating),
            y: edge_move(y_rating),
            x_heading: None,
            y_heading: None,
            flip_x: false,
            flip_y: false,
            renormalize: false,
        },
        WallBounceReaction::FaceAway(_) => BouncePlan {
            negate_value: flip_value,
            x: edge_move(x_rating),
            y: edge_move(y_rating),
            x_heading: face_away_heading(x_rating, Heading::PositiveX, Heading::NegativeX),
            y_heading: face_away_heading(y_rating, Heading::PositiveY, Heading::NegativeY),
            flip_x: false,
            flip_y: false,
            renormalize: false,
        },
        WallBounceReaction::BounceOff => BouncePlan {
            negate_value: flip_value,
            x: edge_move(x_rating),
            y: edge_move(y_rating),
            x_heading: None,
            y_heading: None,
            flip_x: x_rating != Rating::Equal,
            flip_y: y_rating != Rating::Equal,
            renormalize: true,
        },
    };
    Some(plan)
}

/// The seed from which an ant's speed is drawn, for the ant at `index`.
pub fn speed_seed(index: u32) -> (seed: u32)
    ensures
        seed == index ^ 0x1234_5678u32,
{
    index ^ 0x1234_5678
}

/// The seed from which an ant's pheromone value is drawn, for the ant at `index`.
pub fn value_seed(index: u32) -> (seed: u32)
    ensures
        seed == index ^ 0x8765_4321u32,
{
    index ^ 0x8765_4321
}

/// Ants at different indices draw their speeds, and their values, from different seeds.
pub proof fn lemma_seeds_distinct(a: u32, b: u32)
    requires
        a != b,
    ensures
        a ^ 0x1234_5678u32 != b ^ 0x1234_5678u32,
        a ^ 0x8765_4321u32 != b ^ 0x8765_4321u32,
{
    assert(a != b ==> a ^ 0x1234_5678u32 != b ^ 0x1234_5678u32) by (bit_vector);
    assert(a != b ==> a ^ 0x8765_4321u32 != b ^ 0x8765_4321u32) by (bit_vector);
}

/// Where a coordinate ends up under an axis move, as each move's documentation says: `new` is
/// where the step would have taken it, `size` the extent of the grid along the axis, and
/// `random` the random fraction of `size` drawn for a respawn.
pub open spec fn spec_coordinate_after(movement: AxisMove, new: int, size: int, random: int) -> int {
    match movement {
        AxisMove::Keep => new,
        AxisMove::ToLowEdge => 0,
        AxisMove::ToHighEdge => size,
        AxisMove::WrapForward => new + size,
        AxisMove::WrapBack => new - size,
        AxisMove::ToCenter => size / 2,
        AxisMove::ToRandom => random,
    }
}

/// Where `new` lies relative to `0..=size`.
pub open spec fn spec_rating(new: int, size: int) -> Rating {
    if new < 0 {
        Rating::Less
    } else if new > size {
        Rating::Greater
    } else {
        Rating::Equal
    }
}

/// Reactions that leave the ant at the wall it hit (clip, face away, bounce off) move a
/// coordinate below the range to the low edge, one above it to the high edge, and keep one
/// inside it.
pub proof fn lemma_edge_reactions_stay_at_the_wall<S>(reaction: WallBounceReaction<S>, rating: Rating)
    requires
        reaction is Clip || reaction is FaceAway || reaction is BounceOff,
    ensures
        rating == Rating::Less ==> spec_axis_move(reaction, rating) == AxisMove::ToLowEdge,
        rating == Rating::Greater ==> spec_axis_move(reaction, rating) == AxisMove::ToHighEdge,
        rating == Rating::Equal ==> spec_axis_move(reaction, rating) == AxisMove::Keep,
{
}

/// Wrapping moves a coordinate below the range forward by the axis extent, one above it back
/// by the axis extent, and keeps one inside it; the centre and random respawns move both
/// coordinates whatever the rating.
pub proof fn lemma_wrap_and_respawn_moves<S>(rating: Rating)
    ensures
        rating == Rating::Less ==> spec_axis_move(WallBounceReaction::<S>::WrapAround, rating)
            == AxisMove::WrapForward,
        rating == Rating::Greater ==> spec_axis_move(WallBounceReaction::<S>::WrapAround, rating)
            == AxisMove::WrapBack,
        rating == Rating::Equal ==> spec_axis_move(WallBounceReaction::<S>::WrapAround, rating)
            == AxisMove::Keep,
        spec_axis_move(WallBounceReaction::<S>::Center, rating) == AxisMove::ToCenter,
        spec_axis_move(WallBounceReaction::<S>::Random, rating) == AxisMove::ToRandom,
{
}

/// After a wall bounce the ant is back on the grid: under every reaction but wrapping, the
/// coordinate ends in `0..=size` whatever the step; under wrapping it does so for a step that
/// overshoots the range by no more than its extent. A respawn draws its random coordinate
/// inside the range.
pub proof fn lemma_bounce_lands_on_grid<S>(
    reaction: WallBounceReaction<S>,
    new: int,
    size: int,
    random: int,
)
    requires
        size >= 0,
        0 <= random <= size,
        reaction is WrapAround ==> -size <= new <= 2 * size,
    ensures
        0 <= spec_coordinate_after(
            spec_axis_move(reaction, spec_rating(new, size)),
            new,
            size,
            random,
        ) <= size,
{
}

/// Facing away from a wall draws a heading that points back into the grid: along the axis
/// after hitting its low edge, against it after hitting its high edge; no other reaction draws
/// a heading, and only bouncing off mirrors the direction, along exactly the axes that hit a
/// wall.
pub proof fn lemma_headings_point_into_the_grid<S>(reaction: WallBounceReaction<S>, rating: Rating)
    ensures
        reaction is FaceAway && rating == Rating::Less ==> spec_heading(
            reaction,
            rating,
            Heading::PositiveX,
            Heading::NegativeX,
        ) == Some(Heading::PositiveX),
        reaction is FaceAway && rating == Rating::Greater ==> spec_heading(
            reaction,
            rating,
            Heading::PositiveX,
            Heading::NegativeX,
        ) == Some(Heading::NegativeX),
        reaction is FaceAway && rating == Rating::Less ==> spec_heading(
            reaction,
            rating,
            Heading::PositiveY,
            Heading::NegativeY,
        ) == Some(Heading::PositiveY),
        reaction is FaceAway && rating == Rating::Greater ==> spec_heading(
            reaction,
            rating,
            Heading::PositiveY,
            Heading::NegativeY,
        ) == Some(Heading::NegativeY),
        !(reaction is FaceAway) || rating == Rating::Equal ==> spec_heading(
            reaction,
            rating,
            Heading::PositiveX,
            Heading::NegativeX,
        ) is None,
        spec_flip(reaction, rating) <==> (reaction is BounceOff && rating != Rating::Equal),
{
}

} // verus!
