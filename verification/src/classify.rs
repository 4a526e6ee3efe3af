//! Severity tiers: how a chunk's summed costs compare with the budgets.
use vstd::prelude::*;

verus! {

/// Largest summed physics cost a chunk may hold without being flagged.
pub const COLLIDER_LIMIT: u32 = 65000;

/// Largest summed component cost a chunk may hold without being flagged.
pub const COMPONENT_LIMIT: u32 = 75;

/// What one chunk holds: how many objects, and their summed costs.
#[derive(Clone, Copy, Debug, PartialEq, Eq, Structural)]
pub struct ChunkStats {
    pub object_count: u32,
    pub physics_cost: u32,
    pub component_cost: u32,
}

/// The budgets a chunk is held to. A metric without a budget is not tracked
/// and never counts as exceeded.
#[derive(Clone, Copy, Debug, PartialEq, Eq, Structural)]
pub struct Budgets {
    pub physics: Option<u32>,
    pub components: Option<u32>,
}

/// How a chunk stands against the budgets, least severe first.
#[derive(Clone, Copy, Debug, PartialEq, Eq, Structural)]
pub enum SeverityTier {
    /// Nothing is known of the chunk: it holds no object.
    Absent,
    /// No tracked metric is over its budget.
    WithinBudget,
    /// Only the physics cost is over its budget.
    PhysicsOver,
    /// The component cost is over its budget, the physics cost is not.
    ComponentsOver,
    /// Both costs are over their budgets.
    BothOver,
}

/// An opaque or translucent colour, one byte per channel.
#[derive(Clone, Copy, Debug, PartialEq, Eq, Structural)]
pub struct Color {
    pub r: u8,
    pub g: u8,
    pub b: u8,
    pub a: u8,
}

/// Whether `cost` is strictly over `budget`; an untracked metric never is.
pub open spec fn exceeds(cost: u32, budget: Option<u32>) -> bool {
    match budget {
        Some(limit) => cost > limit,
        None => false,
    }
}

/// The tier of a chunk. Absent statistics give `Absent`; otherwise the tier
/// says which of the two costs are strictly over their budgets.
pub open spec fn tier_of(stats: Option<ChunkStats>, budgets: Budgets) -> SeverityTier {
    match stats {
        None => SeverityTier::Absent,
        Some(s) => {
            let physics_over = exceeds(s.physics_cost, budgets.physics);
            let components_over = exceeds(s.component_cost, budgets.components);
            if physics_over && components_over {
                SeverityTier::BothOver
            } else if components_over {
                SeverityTier::ComponentsOver
            } else if physics_over {
                SeverityTier::PhysicsOver
            } else {
                SeverityTier::WithinBudget
            }
        },
    }
}

/// The colour that marks each tier: white, green, red, blue, magenta.
pub open spec fn color_of(tier: SeverityTier) -> Color {
    match tier {
        SeverityTier::Absent => Color { r: 255, g: 255, b: 255, a: 255 },
        SeverityTier::WithinBudget => Color { r: 0, g: 255, b: 0, a: 255 },
        SeverityTier::PhysicsOver => Color { r: 255, g: 0, b: 0, a: 255 },
        SeverityTier::ComponentsOver => Color { r: 0, g: 0, b: 255, a: 255 },
        SeverityTier::BothOver => Color { r: 255, g: 0, b: 255, a: 255 },
    }
}

impl Budgets {
    /// Both metrics tracked.
    pub fn both(physics_budget: u32, component_budget: u32) -> (budgets: Budgets)
        ensures
            budgets == (Budgets {
                physics: Some(physics_budget),
                components: Some(component_budget),
            }),
    {
        Budgets { physics: Some(physics_budget), components: Some(component_budget) }
    }

    /// Only the physics cost tracked.
    pub fn physics_only(physics_budget: u32) -> (budgets: Budgets)
        ensures
            budgets == (Budgets { physics: Some(physics_budget), components: None }),
    {
        Budgets { physics: Some(physics_budget), components: None }
    }

    /// The budgets that markers are drawn against.
    pub fn standard() -> (budgets: Budgets)
        ensures
            budgets == standard_budgets(),
    {
        Budgets { physics: Some(COLLIDER_LIMIT), components: Some(COMPONENT_LIMIT) }
    }
}

/// `COLLIDER_LIMIT` and `COMPONENT_LIMIT`, both tracked.
pub open spec fn standard_budgets() -> Budgets {
    Budgets { physics: Some(COLLIDER_LIMIT), components: Some(COMPONENT_LIMIT) }
}

/// Tests whether a cost is strictly over its budget.
fn over(cost: u32, budget: Option<u32>) -> (b: bool)
    ensures
        b == exceeds(cost, budget),
{
    match budget {
        Some(limit) => cost > limit,
        None => false,
    }
}

/// Classifies a chunk against whichever budgets are tracked.
pub fn classify_with(stats: Option<ChunkStats>, budgets: Budgets) -> (tier: SeverityTier)
    ensures
        tier == tier_of(stats, budgets),
{
    match stats {
        None => SeverityTier::Absent,
        Some(s) => {
            let physics_over = over(s.physics_cost, budgets.physics);
            let components_over = over(s.component_cost, budgets.components);
            if physics_over && components_over {
                SeverityTier::BothOver
            } else if components_over {
                SeverityTier::ComponentsOver
            } else if physics_over {
                SeverityTier::PhysicsOver
            } else {
                SeverityTier::WithinBudget
            }
        },
    }
}

/// Classifies a chunk against a physics budget and a component budget.
pub fn classify(stats: Option<ChunkStats>, physics_budget: u32, component_budget: u32) -> (tier:
    SeverityTier)
    ensures
        tier == tier_of(
            stats,
            Budgets { physics: Some(physics_budget), components: Some(component_budget) },
        ),
{
    classify_with(stats, Budgets::both(physics_budget, component_budget))
}

impl SeverityTier {
    /// The colour that marks this tier.
    pub fn color(self) -> (color: Color)
        ensures
            color == color_of(self),
    {
        match self {
            SeverityTier::Absent => Color { r: 255, g: 255, b: 255, a: 255 },
            SeverityTier::WithinBudget => Color { r: 0, g: 255, b: 0, a: 255 },
            SeverityTier::PhysicsOver => Color { r: 255, g: 0, b: 0, a: 255 },
            SeverityTier::ComponentsOver => Color { r: 0, g: 0, b: 255, a: 255 },
            SeverityTier::BothOver => Color { r: 255, g: 0, b: 255, a: 255 },
        }
    }
}

/// A cost exactly at its budget is not over it, and one more is. While the
/// component cost stays within its budget, a physics cost equal to the budget
/// gives `WithinBudget` and a physics cost of the budget plus one gives
/// `PhysicsOver`.
pub proof fn lemma_budget_boundary(at: ChunkStats, above: ChunkStats, budgets: Budgets)
    requires
        budgets.physics matches Some(limit) && at.physics_cost == limit && above.physics_cost
            == limit + 1,
        !exceeds(at.component_cost, budgets.components),
        !exceeds(above.component_cost, budgets.components),
    ensures
        tier_of(Some(at), budgets) == SeverityTier::WithinBudget,
        tier_of(Some(above), budgets) == SeverityTier::PhysicsOver,
{
}

/// Distinct tiers are marked in distinct colours.
pub proof fn lemma_colors_tell_tiers_apart(a: SeverityTier, b: SeverityTier)
    ensures
        color_of(a) == color_of(b) <==> a == b,
{
}

} // verus!
