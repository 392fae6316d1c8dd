//! The versioned reader context: the format version, the edition
//! discriminant, and the player count, threaded through every
//! recording-side codec.
//!
//! The on-disk format version is a 32-bit float compared against literal
//! thresholds with two decimal digits; the context carries it as an integer
//! in hundredths (the 11.62 format is `1162`), which makes every gate an
//! exact integer comparison, including the equality gate of the UserPatch
//! payload.

use vstd::prelude::*;

verus! {

/// Format version that starts interleaving sentinel bytes between
/// sub-structures.
pub const VERSION_MARKERS: u32 = 1055;

/// Format version that adds the ruin and artifact held times.
pub const VERSION_OBJECTIVES: u32 = 530;

/// Format version that adds the explored-tiles count to the visible map.
pub const VERSION_EXPLORED_TILES: u32 = 670;

/// Format version that adds the diplomacy detail block.
pub const VERSION_DIPLOMACY_DETAIL: u32 = 913;

/// Format version that adds the explored off-map trade routes.
pub const VERSION_OFF_MAP_TRADE: u32 = 917;

/// Format version that adds the off-map trade routes being explored.
pub const VERSION_OFF_MAP_TRADE_EXPLORING: u32 = 918;

/// Format version that adds the market-trading block.
pub const VERSION_MARKET_TRADING: u32 = 922;

/// Format version that adds the first statistics group.
pub const VERSION_STATISTICS_KILLS: u32 = 930;

/// Format version that adds the hit-point statistics.
pub const VERSION_STATISTICS_HIT_POINTS: u32 = 931;

/// Format version that adds the per-player kill statistics.
pub const VERSION_STATISTICS_PER_PLAYER: u32 = 932;

/// Format version that adds the technology tree.
pub const VERSION_TECH_TREE: u32 = 938;

/// Format version that adds the production-queue flag.
pub const VERSION_PRODUCTION_QUEUE: u32 = 967;

/// Format version that adds the missile-dodging abilities.
pub const VERSION_DODGING: u32 = 990;

/// Format version that adds the computer-player attack data.
pub const VERSION_AI_ATTACK: u32 = 1002;

/// Format version that adds the view-scrolling state.
pub const VERSION_VIEW_SCROLL: u32 = 1051;

/// Format version that adds the second formation field.
pub const VERSION_FORMATIONS_EXTRA: u32 = 1081;

/// Format version that adds the open-gates pathing counter.
pub const VERSION_OPEN_GATES: u32 = 1142;

/// Format version that adds the computer-player reaction percentages.
pub const VERSION_AI_REACTIONS: u32 = 1145;

/// Format version that widens the unit-count tables to 850 categories.
pub const VERSION_COUNTS_850: u32 = 1151;

/// Format version that adds the farm-queue counter.
pub const VERSION_FARM_QUEUE: u32 = 1157;

/// Format version that adds the saved views.
pub const VERSION_SAVED_VIEWS: u32 = 1162;

/// Format version that widens the unit-count tables to 900 categories.
pub const VERSION_COUNTS_900: u32 = 1165;

/// Format version that adds the selected-units group.
pub const VERSION_SELECTIONS: u32 = 1172;

/// Format version that adds the nomad build lock.
pub const VERSION_NOMAD_LOCK: u32 = 1175;

/// The format version that carries the UserPatch payload. The decoder
/// compares against this version for equality, never as a threshold.
pub const VERSION_USERPATCH: u32 = 1197;

/// Format versions that lengthen the definitive-edition pre-skip.
pub const VERSION_DE_SKIP_8: u32 = 1300;

/// See [`VERSION_DE_SKIP_8`].
pub const VERSION_DE_SKIP_1: u32 = 1307;

/// See [`VERSION_DE_SKIP_8`].
pub const VERSION_DE_SKIP_5: u32 = 1313;

/// See [`VERSION_DE_SKIP_8`].
pub const VERSION_DE_SKIP_4: u32 = 1334;

/// The coarse edition discriminant applied on top of the version number, for
/// layout branches that are not monotonic in version. Totally ordered by
/// release.
#[derive(Clone, Copy, Debug, PartialEq, Eq, Structural)]
pub enum GameVariant {
    /// The classic editions that predate UserPatch.
    HereticDawn,
    /// The community patch line.
    UserPatch,
    /// The definitive edition.
    DefinitiveEdition,
}

impl GameVariant {
    /// Position in release order.
    pub open spec fn spec_rank(self) -> int {
        match self {
            GameVariant::HereticDawn => 0,
            GameVariant::UserPatch => 1,
            GameVariant::DefinitiveEdition => 2,
        }
    }

    /// Position in release order.
    pub fn rank(&self) -> (r: u8)
        ensures
            r == self.spec_rank(),
    {
        match self {
            GameVariant::HereticDawn => 0,
            GameVariant::UserPatch => 1,
            GameVariant::DefinitiveEdition => 2,
        }
    }

    /// Whether this edition is `other` or a later release.
    pub fn at_least(&self, other: &GameVariant) -> (b: bool)
        ensures
            b == (self.spec_rank() >= other.spec_rank()),
    {
        self.rank() >= other.rank()
    }
}

/// The versioned context threaded through the recording-side codecs.
#[derive(Clone, Copy, Debug)]
pub struct HeaderContext {
    /// Format version in hundredths of the on-disk float: 11.62 is `1162`.
    pub version: u32,
    /// The edition discriminant.
    pub variant: GameVariant,
    /// Number of players in the match; the relations table has one byte per
    /// player.
    pub num_players: u8,
}

impl HeaderContext {
    /// Whether sentinel bytes are interleaved at this version.
    pub open spec fn spec_markers(self) -> bool {
        self.version >= VERSION_MARKERS
    }

    /// Whether this is the definitive edition exactly.
    pub open spec fn spec_definitive(self) -> bool {
        self.variant == GameVariant::DefinitiveEdition
    }

    /// Whether this is the definitive edition or a later release.
    pub open spec fn spec_at_least_definitive(self) -> bool {
        self.variant.spec_rank() >= GameVariant::DefinitiveEdition.spec_rank()
    }
}

} // verus!
