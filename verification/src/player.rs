//! The player block: a single, linear, version-gated decode of one player's
//! state inside a recorded-game header.
//!
//! The decoder pulls bytes in order, checks the interleaved sentinels,
//! dispatches into the peer codecs at fixed points, and builds the [`Player`]
//! entity. Field groups that the engine stores but this codec does not
//! interpret are retained byte-for-byte in an [`OpaqueContext`] so that an
//! encoder can reproduce the stream. No partial decode is ever returned.

use vstd::prelude::*;

use crate::context::{GameVariant, HeaderContext, VERSION_AI_ATTACK, VERSION_AI_REACTIONS,
    VERSION_COUNTS_850, VERSION_COUNTS_900, VERSION_DIPLOMACY_DETAIL, VERSION_DODGING,
    VERSION_FARM_QUEUE, VERSION_FORMATIONS_EXTRA, VERSION_MARKERS, VERSION_MARKET_TRADING,
    VERSION_NOMAD_LOCK, VERSION_OBJECTIVES, VERSION_OFF_MAP_TRADE,
    VERSION_OFF_MAP_TRADE_EXPLORING, VERSION_OPEN_GATES, VERSION_PRODUCTION_QUEUE,
    VERSION_SAVED_VIEWS, VERSION_SELECTIONS, VERSION_STATISTICS_HIT_POINTS,
    VERSION_STATISTICS_KILLS, VERSION_STATISTICS_PER_PLAYER, VERSION_TECH_TREE,
    VERSION_USERPATCH, VERSION_VIEW_SCROLL};
use crate::diplomacy::DiplomacyOffer;
use crate::error::{DecodeError, DesyncRecovered, PeerComponent, MAX_FIELD_BYTES};
use crate::gaia::GaiaData;
use crate::history::HistoryInfo;
use crate::marker::{expect_marker, first_at, resync_to_double_marker};
use crate::peer::{read_victory_conditions, PeerCodec};
use crate::reader::Reader;
use crate::tech::PlayerTech;
use crate::userpatch::UserPatchData;
use crate::visible::{VisibleMap, VisibleResources};

verus! {

broadcast use crate::reader::lemma_reader_bounds;

/// Raw bytes of the field groups that are decoded only to advance the
/// stream: formations, escrow, view scrolling, pathing, unit counts,
/// computer-player attack data, market trading, statistics and the
/// definitive-edition paddings, in stream order.
#[derive(Debug, PartialEq, Eq)]
pub struct OpaqueContext {
    pub segments: Vec<Vec<u8>>,
}

/// The bytes of a length-prefixed string field up to its first terminator.
pub open spec fn spec_trim_nul(s: Seq<u8>) -> Seq<u8> {
    s.take(first_at(s, 0, 0))
}

/// How many bytes one interleaved sentinel occupies at this version: one
/// from the version that introduced them, none before.
pub open spec fn spec_mk(ctx: HeaderContext) -> int {
    if ctx.spec_markers() {
        1int
    } else {
        0int
    }
}

/// End offset of the identity group that starts at `q`: the player type,
/// the sentinel, the relations, the diplomacy stances, the allied flags and
/// the length-prefixed name.
pub open spec fn spec_identity_end(b: Seq<u8>, q: int, ctx: HeaderContext) -> int {
    let rel = q + 1 + spec_mk(ctx);
    let np = ctx.num_players as int;
    rel + np + 43 + crate::bytes::u16_at(b, rel + np + 41)
}

/// Whether the identity group that starts at `q` decodes: the stream holds
/// it whole and its sentinel is in place.
pub open spec fn spec_identity_wf(b: Seq<u8>, q: int, ctx: HeaderContext) -> bool {
    &&& spec_identity_end(b, q, ctx) <= b.len()
    &&& (ctx.spec_markers() ==> b[q + 1] == 11)
}

/// End offset of the attribute group that starts at `q`: its sentinels, its
/// count, its values and the extra copy the definitive edition appends.
pub open spec fn spec_attributes_end(b: Seq<u8>, q: int, ctx: HeaderContext) -> int {
    let cq = q + spec_mk(ctx);
    let n = crate::bytes::u32_at(b, cq) as int;
    cq + 4 + spec_mk(ctx) + 4 * n + if ctx.spec_at_least_definitive() {
        4 * n
    } else {
        0int
    }
}

/// Whether the attribute group that starts at `q` decodes: sentinels in
/// place, the count within the allocation cap, and the stream holds the
/// whole group.
pub open spec fn spec_attributes_wf(b: Seq<u8>, q: int, ctx: HeaderContext) -> bool {
    let cq = q + spec_mk(ctx);
    let n = crate::bytes::u32_at(b, cq) as int;
    &&& (ctx.spec_markers() ==> b[q] == 22 && b[cq + 4] == 33)
    &&& n <= MAX_FIELD_BYTES / 4
    &&& spec_attributes_end(b, q, ctx) <= b.len()
}

/// End offset of the saved-view group that starts at `q`: nothing before
/// the version that introduced it; the count alone when the count is
/// negative; the count and that many view pairs otherwise.
pub open spec fn spec_saved_views_end(b: Seq<u8>, q: int, ctx: HeaderContext) -> int {
    if ctx.version < VERSION_SAVED_VIEWS {
        q
    } else if crate::bytes::i32_at(b, q) < 0 {
        q + 4
    } else {
        q + 4 + 8 * crate::bytes::i32_at(b, q)
    }
}

/// Whether the saved-view group that starts at `q` decodes: the count is
/// present, and a non-negative count is within the allocation cap with all
/// its views present.
pub open spec fn spec_saved_views_wf(b: Seq<u8>, q: int, ctx: HeaderContext) -> bool {
    ctx.version >= VERSION_SAVED_VIEWS ==> {
        &&& q + 4 <= b.len()
        &&& (crate::bytes::i32_at(b, q) >= 0 ==> crate::bytes::i32_at(b, q) * 8 <= MAX_FIELD_BYTES
            && spec_saved_views_end(b, q, ctx) <= b.len())
    }
}

/// How many bytes the unit-count tables occupy: four sparse 16-bit tables
/// whose category width depends on the version, and four totals.
pub open spec fn spec_unit_counts_len(version: u32) -> int {
    let categories: int = if version >= VERSION_COUNTS_900 {
        900
    } else if version >= VERSION_COUNTS_850 {
        850
    } else {
        750
    };
    4 * categories + 408
}

/// Fixed bytes of the formations, escrow, view-scrolling and reaction
/// groups, before the selected-units group.
pub open spec fn spec_formations_fixed(version: u32) -> int {
    (if version >= VERSION_FORMATIONS_EXTRA {
        28int
    } else {
        24int
    }) + 48 + (if version >= VERSION_VIEW_SCROLL {
        32int
    } else {
        0int
    }) + (if version >= VERSION_AI_REACTIONS {
        9int
    } else {
        0int
    })
}

/// End offset of the selected-units group whose count stands at `q`: the
/// count alone when it is zero; the count, the selection properties and the
/// selected ids otherwise. Nothing before the version that introduced it.
pub open spec fn spec_selection_end(b: Seq<u8>, q: int, version: u32) -> int {
    if version < VERSION_SELECTIONS {
        q
    } else {
        let num = crate::bytes::u32_at(b, q) as int;
        if num == 0 {
            q + 4
        } else {
            q + 12 + 4 * num
        }
    }
}

/// End offset of the formations-to-selection stretch that starts at `q`.
pub open spec fn spec_formations_end(b: Seq<u8>, q: int, ctx: HeaderContext) -> int {
    spec_selection_end(b, q + spec_formations_fixed(ctx.version), ctx.version)
}

/// Whether the formations-to-selection stretch that starts at `q` decodes:
/// the stream holds it whole and a non-zero selection count is within the
/// allocation cap.
pub open spec fn spec_formations_wf(b: Seq<u8>, q: int, ctx: HeaderContext) -> bool {
    let sq = q + spec_formations_fixed(ctx.version);
    &&& (ctx.version >= VERSION_SELECTIONS && crate::bytes::u32_at(b, sq) != 0
        ==> crate::bytes::u32_at(b, sq) as int <= MAX_FIELD_BYTES / 4)
    &&& spec_formations_end(b, q, ctx) <= b.len()
}

/// End offset of the sentinel resynchronisation that starts at `q`: for the
/// definitive edition, two bytes past the first doubled sentinel after the
/// version-dependent pre-skip; for earlier editions, the two strict
/// sentinels, or nothing before the version that introduced them.
pub open spec fn spec_resync_end(b: Seq<u8>, q: int, ctx: HeaderContext) -> int {
    if ctx.spec_at_least_definitive() {
        crate::marker::first_pair_at(b, q + crate::marker::spec_pre_skip(ctx.version), 11) + 2
    } else {
        q + 2 * spec_mk(ctx)
    }
}

/// Whether the sentinel resynchronisation that starts at `q` succeeds: the
/// doubled sentinel is found within the scan limit for the definitive
/// edition, the two strict sentinels are in place for earlier editions.
pub open spec fn spec_resync_wf(b: Seq<u8>, q: int, ctx: HeaderContext) -> bool {
    if ctx.spec_at_least_definitive() {
        let s = q + crate::marker::spec_pre_skip(ctx.version);
        let m = crate::marker::first_pair_at(b, s, 11);
        &&& s <= b.len()
        &&& m + 2 <= b.len()
        &&& m - s <= crate::marker::RESYNC_SKIP_LIMIT
    } else {
        ctx.spec_markers() ==> q + 2 <= b.len() && b[q] == 11 && b[q + 1] == 11
    }
}

/// How many bytes the computer-player counters, the attack data and the
/// fog-update pair occupy.
pub open spec fn spec_ai_counters_len(version: u32) -> int {
    17 + if version >= VERSION_AI_ATTACK {
        30int
    } else {
        0int
    }
}

/// End offset of `count` diplomacy-offer records that start at `q`, each a
/// three-byte stance prefix and one variable-length offer.
pub open spec fn spec_offers_end(b: Seq<u8>, q: int, count: int) -> int
    decreases count,
{
    if count <= 0 {
        q
    } else {
        spec_offers_end(b, q + 3 + crate::diplomacy::spec_offer_len(b, q + 3), count - 1)
    }
}

/// Unfolding `spec_offers_end` from the back: one more record extends the
/// end by that record's own span.
pub proof fn lemma_offers_end_step(b: Seq<u8>, q: int, count: int)
    requires
        count >= 0,
    ensures
        spec_offers_end(b, q, count + 1) == ({
            let e = spec_offers_end(b, q, count);
            e + 3 + crate::diplomacy::spec_offer_len(b, e + 3)
        }),
    decreases count,
{
    reveal_with_fuel(spec_offers_end, 2);
    if count > 0 {
        lemma_offers_end_step(b, q + 3 + crate::diplomacy::spec_offer_len(b, q + 3), count - 1);
    }
}

/// The offer chain only moves forward.
pub proof fn lemma_offers_end_mono(b: Seq<u8>, q: int, count: int)
    requires
        count >= 0,
    ensures
        spec_offers_end(b, q, count) >= q,
    decreases count,
{
    if count > 0 {
        lemma_offers_end_mono(b, q + 3 + crate::diplomacy::spec_offer_len(b, q + 3), count - 1);
        crate::diplomacy::lemma_offer_len_nonneg(b, q + 3);
    }
}

/// End offset of the post-history stretch that starts at `q`: the held
/// times, the diplomacy detail, the trade-route groups, the market block,
/// the late counters, the statistics and the definitive-edition padding.
pub open spec fn spec_post_history_end(b: Seq<u8>, q: int, ctx: HeaderContext) -> int {
    let mk = spec_mk(ctx);
    let p1 = q + if ctx.version >= VERSION_OBJECTIVES {
        8int
    } else {
        0int
    };
    let p2 = p1 + mk;
    let p3 = if ctx.version >= VERSION_DIPLOMACY_DETAIL {
        spec_offers_end(b, p2, 9) + 2
    } else {
        p2
    };
    let p5 = p3 + mk + (if ctx.version >= VERSION_OFF_MAP_TRADE {
        20int
    } else {
        0int
    }) + (if ctx.version >= VERSION_OFF_MAP_TRADE_EXPLORING {
        20int
    } else {
        0int
    });
    p5 + mk + (if ctx.version >= VERSION_MARKET_TRADING {
        44int
    } else {
        0int
    }) + (if ctx.version >= VERSION_PRODUCTION_QUEUE {
        1int
    } else {
        0int
    }) + (if ctx.version >= VERSION_DODGING {
        2int
    } else {
        0int
    }) + (if ctx.version >= VERSION_OPEN_GATES {
        4int
    } else {
        0int
    }) + (if ctx.version >= VERSION_FARM_QUEUE {
        4int
    } else {
        0int
    }) + (if ctx.version >= VERSION_NOMAD_LOCK {
        4int
    } else {
        0int
    }) + (if ctx.version >= VERSION_STATISTICS_KILLS {
        24int
    } else {
        0int
    }) + (if ctx.version >= VERSION_STATISTICS_HIT_POINTS {
        8int
    } else {
        0int
    }) + (if ctx.version >= VERSION_STATISTICS_PER_PLAYER {
        36int
    } else {
        0int
    }) + (if ctx.spec_at_least_definitive() {
        11int
    } else {
        0int
    })
}

/// Offset of the attribute group inside a player block that starts at `q`.
pub open spec fn spec_off_attributes(b: Seq<u8>, q: int, ctx: HeaderContext) -> int {
    spec_identity_end(b, q, ctx)
}

/// Offset of the initial view inside a player block that starts at `q`.
pub open spec fn spec_off_view(b: Seq<u8>, q: int, ctx: HeaderContext) -> int {
    spec_attributes_end(b, spec_off_attributes(b, q, ctx), ctx) + spec_mk(ctx)
}

/// Offset of the saved-view group inside a player block that starts at `q`.
pub open spec fn spec_off_saved_views(b: Seq<u8>, q: int, ctx: HeaderContext) -> int {
    spec_off_view(b, q, ctx) + 8
}

/// Offset of the spawn location inside a player block that starts at `q`.
pub open spec fn spec_off_spawn(b: Seq<u8>, q: int, ctx: HeaderContext) -> int {
    spec_saved_views_end(b, spec_off_saved_views(b, q, ctx), ctx)
}

/// Offset of the pathing caps inside a player block that starts at `q`:
/// past the spawn location, the four status bytes, the sentinels and the
/// colour byte.
pub open spec fn spec_off_pathing(b: Seq<u8>, q: int, ctx: HeaderContext) -> int {
    spec_off_spawn(b, q, ctx) + 9 + 2 * spec_mk(ctx)
}

/// Offset of the unit-count tables inside a player block that starts at
/// `q`.
pub open spec fn spec_off_unit_counts(b: Seq<u8>, q: int, ctx: HeaderContext) -> int {
    spec_off_pathing(b, q, ctx) + 8
}

/// Offset of the formations group inside a player block that starts at `q`.
pub open spec fn spec_off_formations(b: Seq<u8>, q: int, ctx: HeaderContext) -> int {
    spec_off_unit_counts(b, q, ctx) + spec_unit_counts_len(ctx.version)
}

/// Offset of the sentinel resynchronisation inside a player block that
/// starts at `q`.
pub open spec fn spec_off_resync(b: Seq<u8>, q: int, ctx: HeaderContext) -> int {
    spec_formations_end(b, spec_off_formations(b, q, ctx), ctx)
}

/// Offset of the computer-player counters inside a player block that starts
/// at `q`.
pub open spec fn spec_off_ai_counters(b: Seq<u8>, q: int, ctx: HeaderContext) -> int {
    spec_resync_end(b, spec_off_resync(b, q, ctx), ctx)
}

/// Offset of the UserPatch payload inside a player block that starts at
/// `q`.
pub open spec fn spec_off_userpatch(b: Seq<u8>, q: int, ctx: HeaderContext) -> int {
    spec_off_ai_counters(b, q, ctx) + spec_ai_counters_len(ctx.version)
}

/// Offset of the research table inside a player block that starts at `q`.
pub open spec fn spec_off_tech(b: Seq<u8>, q: int, ctx: HeaderContext) -> int {
    spec_off_userpatch(b, q, ctx) + if ctx.version == VERSION_USERPATCH {
        crate::userpatch::USERPATCH_BYTES as int
    } else {
        0int
    }
}

/// Offset of the update-history count inside a player block that starts at
/// `q`.
pub open spec fn spec_off_history_count(b: Seq<u8>, q: int, ctx: HeaderContext) -> int {
    let t = spec_off_tech(b, q, ctx);
    t + 2 + crate::bytes::u16_at(b, t) * crate::tech::spec_tech_state_len(
        ctx.spec_at_least_definitive(),
    )
}

/// Offset of the history block inside a player block that starts at `q`:
/// past the update-history count and its sentinel.
pub open spec fn spec_off_history(b: Seq<u8>, q: int, ctx: HeaderContext) -> int {
    spec_off_history_count(b, q, ctx) + 5
}

/// Offset of the post-history stretch inside a player block that starts at
/// `q`.
pub open spec fn spec_off_post_history(b: Seq<u8>, q: int, ctx: HeaderContext) -> int {
    let h = spec_off_history(b, q, ctx);
    h + crate::history::spec_history_total(b, h)
}

/// Offset at which the player block hands the reader to its first peer
/// codec (the technology tree, from the version that introduced it): the end
/// of the stretch that this codec decodes on its own.
pub open spec fn spec_off_peers(b: Seq<u8>, q: int, ctx: HeaderContext) -> int {
    spec_post_history_end(b, spec_off_post_history(b, q, ctx), ctx)
}

/// Whether the stretch of a player block that this codec decodes before it
/// first hands the reader to a peer codec is well formed: every group is
/// held whole by the stream, every sentinel is in place, and every declared
/// count is within its cap. A block that fails this is rejected with the
/// first failing group's own error, before any peer codec runs; a delegate
/// failure or a successful decode implies the whole stretch passed it.
pub open spec fn spec_prefix_wf(b: Seq<u8>, q: int, ctx: HeaderContext) -> bool {
    let mk = spec_mk(ctx);
    let o_sp = spec_off_spawn(b, q, ctx);
    let o_hc = spec_off_history_count(b, q, ctx);
    &&& spec_identity_wf(b, q, ctx)
    &&& spec_attributes_wf(b, spec_off_attributes(b, q, ctx), ctx)
    &&& (ctx.spec_markers() ==> b[spec_off_view(b, q, ctx) - 1] == 11)
    &&& spec_off_saved_views(b, q, ctx) <= b.len()
    &&& spec_saved_views_wf(b, spec_off_saved_views(b, q, ctx), ctx)
    &&& (ctx.spec_markers() ==> b[o_sp + 8] == 11 && b[o_sp + 9 + mk] == 11)
    &&& spec_off_unit_counts(b, q, ctx) <= b.len()
    &&& spec_off_formations(b, q, ctx) <= b.len()
    &&& spec_formations_wf(b, spec_off_formations(b, q, ctx), ctx)
    &&& spec_resync_wf(b, spec_off_resync(b, q, ctx), ctx)
    &&& spec_off_userpatch(b, q, ctx) <= b.len()
    &&& spec_off_tech(b, q, ctx) <= b.len()
    &&& o_hc <= b.len()
    &&& o_hc + 4 <= b.len()
    &&& b[o_hc + 4] == 11
    &&& spec_off_post_history(b, q, ctx) <= b.len()
    &&& spec_post_history_wf(b, spec_off_post_history(b, q, ctx), ctx)
}

/// Whether the post-history stretch that starts at `q` decodes: the stream
/// holds it whole and its three sentinels are in place.
pub open spec fn spec_post_history_wf(b: Seq<u8>, q: int, ctx: HeaderContext) -> bool {
    let mk = spec_mk(ctx);
    let p1 = q + if ctx.version >= VERSION_OBJECTIVES {
        8int
    } else {
        0int
    };
    let p2 = p1 + mk;
    let p3 = if ctx.version >= VERSION_DIPLOMACY_DETAIL {
        spec_offers_end(b, p2, 9) + 2
    } else {
        p2
    };
    let p5 = p3 + mk + (if ctx.version >= VERSION_OFF_MAP_TRADE {
        20int
    } else {
        0int
    }) + (if ctx.version >= VERSION_OFF_MAP_TRADE_EXPLORING {
        20int
    } else {
        0int
    });
    &&& spec_post_history_end(b, q, ctx) <= b.len()
    &&& (ctx.spec_markers() ==> b[p1] == 11 && b[p3] == 11 && b[p5] == 11)
}

/// Consume `n` bytes and retain them as one opaque segment.
fn take_opaque(input: &mut Reader, opaque: &mut OpaqueContext, n: usize) -> (res: Result<
    (),
    DecodeError,
>)
    ensures
        final(input).bytes() == old(input).bytes(),
        final(input).pos() >= old(input).pos(),
        old(input).can_read(n as int) ==> (res is Ok && final(input).pos() == old(input).pos() + n
            && final(opaque).segments@.len() == old(opaque).segments@.len() + 1
            && final(opaque).segments@.drop_last() == old(opaque).segments@
            && final(opaque).segments@.last()@
            == old(input).bytes().subrange(old(input).pos(), old(input).pos() + n)),
        !old(input).can_read(n as int) ==> (res matches Err(DecodeError::UnexpectedEnd { position })
            && position == old(input).pos() && final(input).pos() == old(input).pos()
            && *final(opaque) == *old(opaque)),
    {
    let segment = input.read_bytes(n)?;
    opaque.segments.push(segment);
    proof {
        assert(opaque.segments@.drop_last() =~= old(opaque).segments@);
    }
    Ok(())
}

/// One player of a recorded game, as decoded from its player block.
///
/// Peer values are carried opaquely: `U` is the compact unit prototype, `T`
/// the technology tree, `A` the computer-player state and `N` a unit record.
/// Floats are carried as their raw IEEE-754 bit patterns.
#[derive(Debug)]
pub struct Player<U, T, A, N> {
    pub player_type: u8,
    /// One byte per player of the match.
    pub relations: Vec<u8>,
    /// Always nine entries, regardless of the player count.
    pub diplomacy: Vec<u32>,
    pub allied_los: bool,
    pub allied_victory: bool,
    /// The bytes of the player name up to its first terminator.
    pub name: Vec<u8>,
    /// Attribute values, as raw float bits.
    pub attributes: Vec<u32>,
    /// Initial view position, as raw float bits.
    pub initial_view: (u32, u32),
    /// Saved view positions, as raw float bits; a negative on-disk count
    /// decodes as empty.
    pub saved_views: Vec<(u32, u32)>,
    pub spawn_location: (u16, u16),
    pub culture_id: u8,
    pub civilization_id: u8,
    pub game_status: u8,
    pub resigned: bool,
    /// Present exactly at the UserPatch format version.
    pub userpatch_data: Option<UserPatchData>,
    pub tech_state: PlayerTech,
    pub history_info: HistoryInfo,
    /// Present from the version that introduced the technology tree.
    pub tech_tree: Option<T>,
    /// Present exactly when `player_type` marks a computer player and the
    /// on-disk probe announces the record.
    pub player_ai: Option<A>,
    /// Present exactly when `player_type` marks the gaia player.
    pub gaia: Option<GaiaData>,
    /// Which unit prototypes are available; `unit_types` mirrors it.
    pub available_unit_types: Vec<bool>,
    /// One entry per availability flag, populated exactly where the flag is
    /// set.
    pub unit_types: Vec<Option<U>>,
    pub visible_map: VisibleMap,
    pub visible_resources: VisibleResources,
    pub units: Vec<N>,
    pub sleeping_units: Vec<N>,
    pub doppelganger_units: Vec<N>,
    /// Read separately by the outer loader, after the player blocks.
    pub victory: Option<genie_scx::VictoryConditions>,
    /// Uninterpreted field groups, retained for write-back.
    pub opaque: OpaqueContext,
    /// How many bytes the definitive-edition resynchronisation scanned past,
    /// when it recovered from a desynchronisation.
    pub desync_skipped: Option<DesyncRecovered>,
}

/// Decode the identity group: player type, the leading sentinel, relations,
/// the nine diplomacy stances, the two allied flags and the player name.
#[verifier::loop_isolation(false)]
fn read_identity(input: &mut Reader, ctx: &HeaderContext) -> (res: Result<
    (u8, Vec<u8>, Vec<u32>, bool, bool, Vec<u8>),
    DecodeError,
>)
    ensures
        final(input).bytes() == old(input).bytes(),
        final(input).pos() >= old(input).pos(),
        res is Ok <==> spec_identity_wf(old(input).bytes(), old(input).pos(), *ctx),
        res matches Err(e) ==> (e is UnexpectedEnd || e is MissingMarker),
        res matches Ok(t) ==> {
            let b = old(input).bytes();
            let q = old(input).pos();
            let rel = q + 1 + spec_mk(*ctx);
            let np = ctx.num_players as int;
            &&& t.0 == b[q]
            &&& t.1@ == b.subrange(rel, rel + np)
            &&& t.2@.len() == 9
            &&& forall|i: int| 0 <= i < 9 ==> t.2@[i] == crate::bytes::u32_at(b, rel + np + 4 * i)
            &&& t.3 == (crate::bytes::u32_at(b, rel + np + 36) != 0)
            &&& t.4 == (b[rel + np + 40] != 0)
            &&& t.5@ == spec_trim_nul(
                b.subrange(
                    rel + np + 43,
                    rel + np + 43 + crate::bytes::u16_at(b, rel + np + 41),
                ),
            )
            &&& final(input).pos() == spec_identity_end(b, q, *ctx)
        },
{
    let player_type = input.read_u8()?;
    if ctx.version >= VERSION_MARKERS {
        expect_marker(input, ctx.version, 11)?;
    }
    let relations = input.read_bytes(ctx.num_players as usize)?;
    let diplomacy = input.read_u32s(9)?;
    let allied_los = input.read_u32()? != 0;
    let allied_victory = input.read_u8()? != 0;
    let name_len = input.read_u16()?;
    let raw_name = input.read_bytes(name_len as usize)?;
    let name = trim_nul(&raw_name);
    Ok((player_type, relations, diplomacy, allied_los, allied_victory, name))
}

/// The prefix of `raw` up to its first terminator byte.
#[verifier::loop_isolation(false)]
fn trim_nul(raw: &Vec<u8>) -> (res: Vec<u8>)
    ensures
        res@ == spec_trim_nul(raw@),
{
    let mut end: usize = 0;
    while end < raw.len() && raw[end] != 0
        invariant
            end <= raw@.len(),
            forall|j: int| 0 <= j < end ==> raw@[j] != 0,
        decreases raw@.len() - end,
    {
        end = end + 1;
    }
    proof {
        if end < raw@.len() {
            crate::marker::lemma_first_at_found(raw@, 0, end as int, 0);
        } else {
            crate::marker::lemma_first_at_none(raw@, 0, 0);
        }
    }
    let mut out: Vec<u8> = Vec::new();
    let mut i: usize = 0;
    while i < end
        invariant
            i <= end,
            end <= raw@.len(),
            out@ == raw@.subrange(0, i as int),
        decreases end - i,
    {
        out.push(raw[i]);
        i = i + 1;
        proof {
            assert(out@ =~= raw@.subrange(0, i as int));
        }
    }
    proof {
        assert(out@ =~= raw@.take(first_at(raw@, 0, 0)));
    }
    out
}

/// Decode the attribute vector: its sentinels, its count, its values, and
/// the extra copy the definitive edition appends.
#[verifier::loop_isolation(false)]
pub fn read_attributes(input: &mut Reader, ctx: &HeaderContext) -> (res: Result<
    Vec<u32>,
    DecodeError,
>)
    ensures
        final(input).bytes() == old(input).bytes(),
        final(input).pos() >= old(input).pos(),
        res is Ok <==> spec_attributes_wf(old(input).bytes(), old(input).pos(), *ctx),
        res matches Err(e) ==> (e is UnexpectedEnd || e is MissingMarker || e is InvalidLength),
        res matches Ok(v) ==> {
            let b = old(input).bytes();
            let q = old(input).pos();
            let cq = q + spec_mk(*ctx);
            let n = crate::bytes::u32_at(b, cq) as int;
            &&& v@.len() == n
            &&& forall|i: int|
                0 <= i < n ==> v@[i] == crate::bytes::u32_at(b, cq + 4 + spec_mk(*ctx) + 4 * i)
            &&& final(input).pos() == spec_attributes_end(b, q, *ctx)
        },
        res matches Err(DecodeError::InvalidLength { position, length }) ==> length * 4
            > MAX_FIELD_BYTES,
{
    if ctx.version >= VERSION_MARKERS {
        expect_marker(input, ctx.version, 22)?;
    }
    let at = input.position();
    let num_attributes = input.read_u32()?;
    if ctx.version >= VERSION_MARKERS {
        expect_marker(input, ctx.version, 33)?;
    }
    if num_attributes > MAX_FIELD_BYTES / 4 {
        return Err(
            DecodeError::InvalidLength { position: at, length: num_attributes as u64 },
        );
    }
    let attributes = input.read_u32s(num_attributes as usize)?;
    if ctx.variant.at_least(&GameVariant::DefinitiveEdition) {
        input.skip((num_attributes as usize) * 4)?;
    }
    Ok(attributes)
}

/// Decode the saved views: nothing before the version that introduced them;
/// otherwise a signed count, clamped to zero when negative without consuming
/// any view, then that many view positions.
#[verifier::loop_isolation(false)]
pub fn read_saved_views(input: &mut Reader, ctx: &HeaderContext) -> (res: Result<
    Vec<(u32, u32)>,
    DecodeError,
>)
    ensures
        final(input).bytes() == old(input).bytes(),
        final(input).pos() >= old(input).pos(),
        res is Ok <==> spec_saved_views_wf(old(input).bytes(), old(input).pos(), *ctx),
        res matches Ok(v) ==> final(input).pos() == spec_saved_views_end(
            old(input).bytes(),
            old(input).pos(),
            *ctx,
        ),
        res matches Err(e) ==> (e is UnexpectedEnd || e is InvalidLength),
        ctx.version < VERSION_SAVED_VIEWS ==> (res matches Ok(v) && v@.len() == 0
            && final(input).pos() == old(input).pos()),
        ctx.version >= VERSION_SAVED_VIEWS && old(input).can_read(4) && crate::bytes::i32_at(
            old(input).bytes(),
            old(input).pos(),
        ) < 0 ==> (res matches Ok(v) && v@.len() == 0 && final(input).pos() == old(input).pos()
            + 4),
        ctx.version >= VERSION_SAVED_VIEWS && old(input).can_read(4) && crate::bytes::i32_at(
            old(input).bytes(),
            old(input).pos(),
        ) >= 0 && crate::bytes::i32_at(old(input).bytes(), old(input).pos()) * 8 <= MAX_FIELD_BYTES
            && old(input).can_read(
            4 + 8 * crate::bytes::i32_at(old(input).bytes(), old(input).pos()),
        ) ==> (res matches Ok(v) && {
            let b = old(input).bytes();
            let q = old(input).pos();
            let n = crate::bytes::i32_at(b, q) as int;
            &&& v@.len() == n
            &&& forall|i: int|
                0 <= i < n ==> v@[i] == (
                    crate::bytes::u32_at(b, q + 4 + 8 * i),
                    crate::bytes::u32_at(b, q + 8 + 8 * i),
                )
            &&& final(input).pos() == q + 4 + 8 * n
        }),
        res matches Err(DecodeError::InvalidLength { position, length }) ==> length * 8
            > MAX_FIELD_BYTES,
{
    if ctx.version < VERSION_SAVED_VIEWS {
        return Ok(Vec::new());
    }
    let at = input.position();
    let num_saved_views = input.read_i32()?;
    if num_saved_views < 0 {
        return Ok(Vec::new());
    }
    let n = num_saved_views as u32;
    if n > MAX_FIELD_BYTES / 8 {
        return Err(DecodeError::InvalidLength { position: at, length: n as u64 });
    }
    let mut saved_views: Vec<(u32, u32)> = Vec::new();
    let ghost q = at as int;
    while saved_views.len() < n as usize
        invariant
            saved_views@.len() <= n,
            input.bytes() == old(input).bytes(),
            input.pos() == q + 4 + 8 * saved_views@.len(),
            input.pos() <= input.bytes().len(),
            forall|i: int|
                0 <= i < saved_views@.len() ==> saved_views@[i] == (
                    crate::bytes::u32_at(old(input).bytes(), q + 4 + 8 * i),
                    crate::bytes::u32_at(old(input).bytes(), q + 8 + 8 * i),
                ),
        decreases n - saved_views@.len(),
    {
        let x = input.read_f32_bits()?;
        let y = input.read_f32_bits()?;
        saved_views.push((x, y));
    }
    Ok(saved_views)
}

/// Decode the availability mask and the unit prototypes it announces: one
/// prototype, bracketed by its sentinels, for each set flag.
#[verifier::loop_isolation(false)]
fn read_unit_types<U, T, A, N, P: PeerCodec<U, T, A, N>>(
    input: &mut Reader,
    ctx: &HeaderContext,
    peers: &mut P,
) -> (res: Result<(Vec<bool>, Vec<Option<U>>), DecodeError>)
    ensures
        res matches Ok(t) ==> {
            &&& t.1@.len() == t.0@.len()
            &&& forall|i: int| 0 <= i < t.0@.len() ==> (t.1@[i] is Some <==> t.0@[i])
        },
        res matches Err(DecodeError::DelegateFailed { component, .. }) ==> component
            == PeerComponent::UnitType,
{
    let at = input.position();
    let num_unit_types = input.read_u32()?;
    if num_unit_types > MAX_FIELD_BYTES / 4 {
        return Err(
            DecodeError::InvalidLength { position: at, length: num_unit_types as u64 },
        );
    }
    let raw = input.read_u32s(num_unit_types as usize)?;
    let mut available: Vec<bool> = Vec::new();
    let mut i: usize = 0;
    while i < raw.len()
        invariant
            i <= raw@.len(),
            available@.len() == i,
            forall|k: int| 0 <= k < i ==> available@[k] == (raw@[k] != 0),
        decreases raw@.len() - i,
    {
        available.push(raw[i] != 0);
        i = i + 1;
    }
    if ctx.version >= VERSION_MARKERS {
        expect_marker(input, ctx.version, 11)?;
    }
    let mut unit_types: Vec<Option<U>> = Vec::new();
    let mut i: usize = 0;
    while i < available.len()
        invariant
            i <= available@.len(),
            unit_types@.len() == i,
            forall|k: int| 0 <= k < i ==> (unit_types@[k] is Some <==> available@[k]),
        decreases available@.len() - i,
    {
        if available[i] {
            if ctx.version >= VERSION_MARKERS {
                expect_marker(input, ctx.version, 22)?;
            }
            let at_peer = input.position();
            let ty = match peers.read_unit_type(input, ctx) {
                Ok(ty) => ty,
                Err(message) => {
                    return Err(
                        DecodeError::DelegateFailed {
                            component: PeerComponent::UnitType,
                            position: at_peer,
                            message,
                        },
                    );
                },
            };
            if ctx.version >= VERSION_MARKERS {
                expect_marker(input, ctx.version, 33)?;
            }
            unit_types.push(Some(ty));
        } else {
            unit_types.push(None);
        }
        i = i + 1;
    }
    Ok((available, unit_types))
}

/// Decode one unit list: its discarded size header, then unit records until
/// the peer codec reports the end of the list.
#[verifier::loop_isolation(false)]
fn read_unit_list<U, T, A, N, P: PeerCodec<U, T, A, N>>(
    input: &mut Reader,
    ctx: &HeaderContext,
    peers: &mut P,
    opaque: &mut OpaqueContext,
) -> (res: Result<Vec<N>, DecodeError>)
    ensures
        res matches Err(DecodeError::DelegateFailed { component, .. }) ==> component
            == PeerComponent::Unit,
{
    take_opaque(input, opaque, 8)?;  // list size and grow size
    let mut units: Vec<N> = Vec::new();
    let mut guard: u32 = 0;
    while guard < MAX_FIELD_BYTES
        invariant
            guard <= MAX_FIELD_BYTES,
        decreases MAX_FIELD_BYTES - guard,
    {
        let at_peer = input.position();
        match peers.read_unit(input, ctx) {
            Ok(Some(unit)) => {
                units.push(unit);
            },
            Ok(None) => {
                return Ok(units);
            },
            Err(message) => {
                return Err(
                    DecodeError::DelegateFailed {
                        component: PeerComponent::Unit,
                        position: at_peer,
                        message,
                    },
                );
            },
        }
        guard = guard + 1;
    }
    Err(DecodeError::InvalidLength { position: input.position(), length: MAX_FIELD_BYTES as u64 })
}

/// Consume the unit-count tables: four sparse 16-bit tables whose widths
/// depend on the version, and four totals.
fn read_unit_counts(input: &mut Reader, ctx: &HeaderContext, opaque: &mut OpaqueContext) -> (res:
    Result<(), DecodeError>)
    ensures
        final(input).bytes() == old(input).bytes(),
        final(input).pos() >= old(input).pos(),
        res is Ok <==> old(input).can_read(spec_unit_counts_len(ctx.version)),
        res is Ok ==> final(input).pos() == old(input).pos() + spec_unit_counts_len(ctx.version),
        res matches Err(e) ==> e is UnexpectedEnd,
{
    let categories: usize = if ctx.version >= VERSION_COUNTS_900 {
        900
    } else if ctx.version >= VERSION_COUNTS_850 {
        850
    } else {
        750
    };
    let groups: usize = 100;
    take_opaque(input, opaque, categories * 2)?;  // object categories
    take_opaque(input, opaque, groups * 2)?;  // object groups
    take_opaque(input, opaque, categories * 2)?;  // built object categories
    take_opaque(input, opaque, groups * 2)?;  // built object groups
    take_opaque(input, opaque, 8)?;  // four 16-bit totals
    Ok(())
}

/// Consume the formations, escrow, view-scrolling, reaction and selection
/// groups, retaining their bytes.
fn read_formations_to_selection(
    input: &mut Reader,
    ctx: &HeaderContext,
    opaque: &mut OpaqueContext,
) -> (res: Result<(), DecodeError>)
    ensures
        final(input).bytes() == old(input).bytes(),
        final(input).pos() >= old(input).pos(),
        res is Ok <==> spec_formations_wf(old(input).bytes(), old(input).pos(), *ctx),
        res is Ok ==> final(input).pos() == spec_formations_end(
            old(input).bytes(),
            old(input).pos(),
            *ctx,
        ),
        res matches Err(e) ==> (e is UnexpectedEnd || e is InvalidLength),
{
    if ctx.version >= VERSION_FORMATIONS_EXTRA {
        take_opaque(input, opaque, 28)?;  // formations, with the break-by-speed field
    } else {
        take_opaque(input, opaque, 24)?;  // formations
    }
    take_opaque(input, opaque, 48)?;  // escrow debits, amounts and percents
    if ctx.version >= VERSION_VIEW_SCROLL {
        take_opaque(input, opaque, 32)?;  // view scrolling
    }
    if ctx.version >= VERSION_AI_REACTIONS {
        take_opaque(input, opaque, 9)?;  // reaction percentages and grouping flag
    }
    if ctx.version >= VERSION_SELECTIONS {
        let at = input.position();
        let num_selections = input.read_u32()?;
        if num_selections > 0 {
            if num_selections > MAX_FIELD_BYTES / 4 {
                return Err(
                    DecodeError::InvalidLength { position: at, length: num_selections as u64 },
                );
            }
            take_opaque(input, opaque, 8)?;  // selected object id and properties
            take_opaque(input, opaque, (num_selections as usize) * 4)?;  // selected ids
        }
    }
    Ok(())
}

/// Consume the computer-player counters, the attack data and the fog-update
/// pair, retaining their bytes.
fn read_ai_counters(input: &mut Reader, ctx: &HeaderContext, opaque: &mut OpaqueContext) -> (res:
    Result<(), DecodeError>)
    ensures
        final(input).bytes() == old(input).bytes(),
        final(input).pos() >= old(input).pos(),
        res is Ok <==> old(input).can_read(spec_ai_counters_len(ctx.version)),
        res is Ok ==> final(input).pos() == old(input).pos() + spec_ai_counters_len(ctx.version),
        res matches Err(e) ==> e is UnexpectedEnd,
{
    take_opaque(input, opaque, 9)?;  // type byte and two update counters
    if ctx.version >= VERSION_AI_ATTACK {
        take_opaque(input, opaque, 30)?;  // attack counts, modes and locations
    }
    take_opaque(input, opaque, 8)?;  // fog update and update time
    Ok(())
}

/// Consume the groups between the history block and the technology tree:
/// objectives, the diplomacy detail, off-map trade, market trading, the
/// production-queue flag, dodging, the late counters and the statistics.
/// Composing the offer chain: walking `i + r` records is walking `i`, then
/// `r` more from where that left off.
pub proof fn lemma_offers_end_split(b: Seq<u8>, q: int, i: int, r: int)
    requires
        i >= 0,
        r >= 0,
    ensures
        spec_offers_end(b, q, i + r) == spec_offers_end(b, spec_offers_end(b, q, i), r),
    decreases i,
{
    if i > 0 {
        lemma_offers_end_split(b, q + 3 + crate::diplomacy::spec_offer_len(b, q + 3), i - 1, r);
    }
}

#[verifier::loop_isolation(false)]
fn read_post_history(input: &mut Reader, ctx: &HeaderContext, opaque: &mut OpaqueContext) -> (res:
    Result<(), DecodeError>)
    ensures
        final(input).bytes() == old(input).bytes(),
        final(input).pos() >= old(input).pos(),
        old(input).can_read(0) ==> (res is Ok <==> spec_post_history_wf(
            old(input).bytes(),
            old(input).pos(),
            *ctx,
        )),
        res is Ok ==> final(input).pos() == spec_post_history_end(
            old(input).bytes(),
            old(input).pos(),
            *ctx,
        ),
        res matches Err(e) ==> (e is UnexpectedEnd || e is MissingMarker),
{
    let ghost b = old(input).bytes();
    let ghost q = old(input).pos();
    let ghost p1 = q + if ctx.version >= VERSION_OBJECTIVES {
        8int
    } else {
        0int
    };
    let ghost p2 = p1 + spec_mk(*ctx);
    proof {
        lemma_offers_end_mono(b, p2, 9);
    }
    if ctx.version >= VERSION_OBJECTIVES {
        take_opaque(input, opaque, 8)?;  // ruin and artifact held times
    }
    if ctx.version >= VERSION_MARKERS {
        expect_marker(input, ctx.version, 11)?;
    }
    proof {
        assert(input.pos() == p2);
    }
    if ctx.version >= VERSION_DIPLOMACY_DETAIL {
        let mut i: usize = 0;
        while i < 9
            invariant
                i <= 9,
                input.bytes() == b,
                input.pos() == spec_offers_end(b, p2, i as int),
                input.pos() >= p2,
            decreases 9 - i,
        {
            proof {
                lemma_offers_end_step(b, p2, i as int);
                lemma_offers_end_split(b, p2, i as int + 1, 9 - (i as int + 1));
                lemma_offers_end_mono(b, spec_offers_end(b, p2, i as int + 1), 9 - (i as int + 1));
                crate::diplomacy::lemma_offer_len_nonneg(b, input.pos() + 3);
            }
            take_opaque(input, opaque, 3)?;  // stance, intelligence and trade bytes
            let _offer = DiplomacyOffer::read_from(input)?;
            i = i + 1;
        }
        take_opaque(input, opaque, 2)?;  // fealty
    }
    if ctx.version >= VERSION_MARKERS {
        expect_marker(input, ctx.version, 11)?;
    }
    if ctx.version >= VERSION_OFF_MAP_TRADE {
        take_opaque(input, opaque, 20)?;  // explored off-map trade routes
    }
    if ctx.version >= VERSION_OFF_MAP_TRADE_EXPLORING {
        take_opaque(input, opaque, 20)?;  // off-map trade routes being explored
    }
    if ctx.version >= VERSION_MARKERS {
        expect_marker(input, ctx.version, 11)?;
    }
    if ctx.version >= VERSION_MARKET_TRADING {
        take_opaque(input, opaque, 44)?;  // market trading
    }
    if ctx.version >= VERSION_PRODUCTION_QUEUE {
        take_opaque(input, opaque, 1)?;  // production-queue flag
    }
    if ctx.version >= VERSION_DODGING {
        take_opaque(input, opaque, 2)?;  // dodging abilities
    }
    if ctx.version >= VERSION_OPEN_GATES {
        take_opaque(input, opaque, 4)?;  // open-gates pathing counter
    }
    if ctx.version >= VERSION_FARM_QUEUE {
        take_opaque(input, opaque, 4)?;  // farm-queue counter
    }
    if ctx.version >= VERSION_NOMAD_LOCK {
        take_opaque(input, opaque, 4)?;  // nomad build lock
    }
    if ctx.version >= VERSION_STATISTICS_KILLS {
        take_opaque(input, opaque, 24)?;  // kill and razing statistics
    }
    if ctx.version >= VERSION_STATISTICS_HIT_POINTS {
        take_opaque(input, opaque, 8)?;  // hit-point statistics
    }
    if ctx.version >= VERSION_STATISTICS_PER_PLAYER {
        take_opaque(input, opaque, 36)?;  // per-player kill statistics
    }
    if ctx.variant.at_least(&GameVariant::DefinitiveEdition) {
        take_opaque(input, opaque, 11)?;  // definitive-edition padding
    }
    Ok(())
}

/// Decode the computer-player probe and record: nothing for other player
/// types; for a computer player, a 32-bit probe, then the peer record
/// exactly when the probe announces it with the value one.
fn read_ai_record<U, T, A, N, P: PeerCodec<U, T, A, N>>(
    input: &mut Reader,
    ctx: &HeaderContext,
    player_type: u8,
    peers: &mut P,
) -> (res: Result<Option<A>, DecodeError>)
    ensures
        player_type != 3 ==> (res matches Ok(v) && v is None && final(input).bytes() == old(
            input,
        ).bytes() && final(input).pos() == old(input).pos()),
        player_type == 3 && !old(input).can_read(4) ==> (res matches Err(
            DecodeError::UnexpectedEnd { position },
        ) && position == old(input).pos()),
        player_type == 3 && old(input).can_read(4) && crate::bytes::u32_at(
            old(input).bytes(),
            old(input).pos(),
        ) != 1 ==> (res matches Ok(v) && v is None && final(input).bytes() == old(input).bytes()
            && final(input).pos() == old(input).pos() + 4),
        player_type == 3 && old(input).can_read(4) && crate::bytes::u32_at(
            old(input).bytes(),
            old(input).pos(),
        ) == 1 ==> ((res matches Ok(v) ==> v is Some) && (res matches Err(e) ==> e matches
            DecodeError::DelegateFailed { component, position, .. } && component
            == PeerComponent::PlayerAi && position == old(input).pos() + 4)),
        res matches Ok(v) && v is Some ==> player_type == 3,
{
    if player_type != 3 {
        return Ok(None);
    }
    let probe = input.read_u32()?;
    if probe != 1 {
        return Ok(None);
    }
    let at_peer = input.position();
    match peers.read_player_ai(input, ctx) {
        Ok(ai) => Ok(Some(ai)),
        Err(message) => Err(
            DecodeError::DelegateFailed {
                component: PeerComponent::PlayerAi,
                position: at_peer,
                message,
            },
        ),
    }
}

impl<U, T, A, N> Player<U, T, A, N> {
    /// The bytes of the player name up to its first terminator.
    pub fn name(&self) -> (res: &Vec<u8>)
        ensures
            res@ == self.name@,
    {
        &self.name
    }

    /// Decode one player block from the reader's position.
    ///
    /// The decode is strictly sequential; the one exception is the
    /// definitive-edition resynchronisation, which scans for the doubled
    /// sentinel after a version-dependent pre-skip and reports its skip
    /// distance in `desync_skipped`. Any sentinel mismatch, short read or
    /// oversized length aborts the decode with the first failure; what a
    /// peer codec returns is taken as it comes, and its failures are wrapped
    /// with the offset at which the peer was entered.
    ///
    /// Everything up to the first peer entry is this codec's own: a block
    /// whose prefix fails [`spec_prefix_wf`] is rejected with the first
    /// group's own error — never a delegate failure — and one whose prefix
    /// passes it yields, on success, exactly the field values that the
    /// stream spells out at the offsets of [`spec_off_peers`] and its
    /// siblings. The technology-tree peer, the first one entered, is handed
    /// the reader exactly at [`spec_off_peers`].
    #[verifier::rlimit(100)]
    pub fn read_from<P: PeerCodec<U, T, A, N>>(
        input: &mut Reader,
        ctx: &HeaderContext,
        peers: &mut P,
    ) -> (res: Result<Self, DecodeError>)
        ensures
            res matches Ok(p) ==> {
                &&& p.relations@.len() == ctx.num_players
                &&& p.diplomacy@.len() == 9
                &&& p.unit_types@.len() == p.available_unit_types@.len()
                &&& forall|i: int|
                    0 <= i < p.unit_types@.len() ==> (p.unit_types@[i] is Some
                        <==> p.available_unit_types@[i])
                &&& (p.gaia is Some <==> p.player_type == 2)
                &&& (p.userpatch_data is Some <==> ctx.version == VERSION_USERPATCH)
                &&& (p.player_ai is Some ==> p.player_type == 3)
                &&& (p.tech_tree is Some <==> ctx.version >= VERSION_TECH_TREE)
                &&& (ctx.version < VERSION_SAVED_VIEWS ==> p.saved_views@.len() == 0)
                &&& (!ctx.spec_definitive() ==> p.desync_skipped is None)
                &&& p.victory is None
            },
            res matches Ok(p) ==> {
                let b = old(input).bytes();
                let q = old(input).pos();
                let rel = q + 1 + spec_mk(*ctx);
                let np = ctx.num_players as int;
                let oa = spec_off_attributes(b, q, *ctx);
                let ca = oa + spec_mk(*ctx);
                let ov = spec_off_view(b, q, *ctx);
                let osv = spec_off_saved_views(b, q, *ctx);
                let osp = spec_off_spawn(b, q, *ctx);
                &&& spec_prefix_wf(b, q, *ctx)
                &&& p.player_type == b[q]
                &&& p.relations@ == b.subrange(rel, rel + np)
                &&& forall|i: int|
                    0 <= i < 9 ==> p.diplomacy@[i] == crate::bytes::u32_at(b, rel + np + 4 * i)
                &&& p.allied_los == (crate::bytes::u32_at(b, rel + np + 36) != 0)
                &&& p.allied_victory == (b[rel + np + 40] != 0)
                &&& p.name@ == spec_trim_nul(
                    b.subrange(
                        rel + np + 43,
                        rel + np + 43 + crate::bytes::u16_at(b, rel + np + 41),
                    ),
                )
                &&& p.attributes@.len() == crate::bytes::u32_at(b, ca)
                &&& forall|i: int|
                    0 <= i < p.attributes@.len() ==> p.attributes@[i] == crate::bytes::u32_at(
                        b,
                        ca + 4 + spec_mk(*ctx) + 4 * i,
                    )
                &&& p.initial_view == (crate::bytes::u32_at(b, ov), crate::bytes::u32_at(b, ov + 4))
                &&& (ctx.version >= VERSION_SAVED_VIEWS && crate::bytes::i32_at(b, osv) < 0
                    ==> p.saved_views@.len() == 0)
                &&& (ctx.version >= VERSION_SAVED_VIEWS && crate::bytes::i32_at(b, osv) >= 0 ==> {
                    &&& p.saved_views@.len() == crate::bytes::i32_at(b, osv)
                    &&& forall|i: int|
                        0 <= i < p.saved_views@.len() ==> p.saved_views@[i] == (
                            crate::bytes::u32_at(b, osv + 4 + 8 * i),
                            crate::bytes::u32_at(b, osv + 8 + 8 * i),
                        )
                })
                &&& p.spawn_location == (
                    crate::bytes::u16_at(b, osp),
                    crate::bytes::u16_at(b, osp + 2),
                )
                &&& p.culture_id == b[osp + 4]
                &&& p.civilization_id == b[osp + 5]
                &&& p.game_status == b[osp + 6]
                &&& p.resigned == (b[osp + 7] != 0)
                &&& (ctx.spec_at_least_definitive() ==> {
                    let s = spec_off_resync(b, q, *ctx) + crate::marker::spec_pre_skip(
                        ctx.version,
                    );
                    let k = crate::marker::first_pair_at(b, s, 11) - s;
                    &&& (k > 0 ==> (p.desync_skipped matches Some(d) && d.skipped == k))
                    &&& (k == 0 ==> p.desync_skipped is None)
                })
            },
            res matches Err(e) && e is DelegateFailed ==> spec_prefix_wf(
                old(input).bytes(),
                old(input).pos(),
                *ctx,
            ),
            res matches Err(DecodeError::DelegateFailed { component, position, .. }) ==> (component
                == PeerComponent::TechTree ==> ctx.version >= VERSION_TECH_TREE && position
                == spec_off_peers(old(input).bytes(), old(input).pos(), *ctx)),
            !spec_prefix_wf(old(input).bytes(), old(input).pos(), *ctx) ==> (res matches Err(e)
                && (e is UnexpectedEnd || e is MissingMarker || e is InvalidLength)),
    {
        let ghost b = old(input).bytes();
        let ghost q = old(input).pos();
        let mut opaque = OpaqueContext { segments: Vec::new() };

        let (player_type, relations, diplomacy, allied_los, allied_victory, name) = read_identity(
            input,
            ctx,
        )?;
        proof {
            assert(input.pos() == spec_off_attributes(b, q, *ctx));
        }
        let attributes = read_attributes(input, ctx)?;
        if ctx.version >= VERSION_MARKERS {
            expect_marker(input, ctx.version, 11)?;
        }
        proof {
            assert(input.pos() == spec_off_view(b, q, *ctx));
        }
        let initial_view = (input.read_f32_bits()?, input.read_f32_bits()?);
        proof {
            assert(input.pos() == spec_off_saved_views(b, q, *ctx));
        }
        let saved_views = read_saved_views(input, ctx)?;
        proof {
            assert(input.pos() == spec_off_spawn(b, q, *ctx));
        }
        let spawn_location = (input.read_u16()?, input.read_u16()?);
        let culture_id = input.read_u8()?;
        let civilization_id = input.read_u8()?;
        let game_status = input.read_u8()?;
        let resigned = input.read_u8()? != 0;
        if ctx.version >= VERSION_MARKERS {
            expect_marker(input, ctx.version, 11)?;
        }
        take_opaque(input, &mut opaque, 1)?;  // player colour
        if ctx.version >= VERSION_MARKERS {
            expect_marker(input, ctx.version, 11)?;
        }
        proof {
            assert(input.pos() == spec_off_pathing(b, q, *ctx));
        }
        take_opaque(input, &mut opaque, 8)?;  // pathing attempt and delay caps

        read_unit_counts(input, ctx, &mut opaque)?;
        proof {
            assert(input.pos() == spec_off_formations(b, q, *ctx));
        }
        read_formations_to_selection(input, ctx, &mut opaque)?;
        proof {
            assert(input.pos() == spec_off_resync(b, q, *ctx));
        }

        let desync_skipped = if ctx.variant.at_least(&GameVariant::DefinitiveEdition) {
            let skipped = resync_to_double_marker(input, ctx.version)?;
            if skipped > 0 {
                Some(DesyncRecovered { skipped })
            } else {
                None
            }
        } else {
            if ctx.version >= VERSION_MARKERS {
                expect_marker(input, ctx.version, 11)?;
                expect_marker(input, ctx.version, 11)?;
            }
            None
        };
        proof {
            assert(input.pos() == spec_off_ai_counters(b, q, *ctx));
        }

        read_ai_counters(input, ctx, &mut opaque)?;
        proof {
            assert(input.pos() == spec_off_userpatch(b, q, *ctx));
        }

        let userpatch_data = if ctx.version == VERSION_USERPATCH {
            Some(UserPatchData::read_from(input)?)
        } else {
            None
        };
        proof {
            assert(input.pos() == spec_off_tech(b, q, *ctx));
        }

        let tech_state = PlayerTech::read_from(input, ctx)?;
        proof {
            assert(input.pos() == spec_off_history_count(b, q, *ctx));
        }

        take_opaque(input, &mut opaque, 4)?;  // update history count
        expect_marker(input, ctx.version, 11)?;
        proof {
            assert(input.pos() == spec_off_history(b, q, *ctx));
        }
        let history_info = HistoryInfo::read_from(input)?;
        proof {
            assert(input.pos() == spec_off_post_history(b, q, *ctx));
        }

        read_post_history(input, ctx, &mut opaque)?;
        proof {
            assert(input.pos() == spec_off_peers(b, q, *ctx));
            assert(spec_prefix_wf(b, q, *ctx));
        }

        let tech_tree = if ctx.version >= VERSION_TECH_TREE {
            let at_peer = input.position();
            match peers.read_tech_tree(input, ctx) {
                Ok(tree) => Some(tree),
                Err(message) => {
                    return Err(
                        DecodeError::DelegateFailed {
                            component: PeerComponent::TechTree,
                            position: at_peer,
                            message,
                        },
                    );
                },
            }
        } else {
            None
        };

        if ctx.variant.at_least(&GameVariant::DefinitiveEdition) {
            take_opaque(input, &mut opaque, 4)?;  // definitive-edition padding
            if player_type != 2 {
                take_opaque(input, &mut opaque, 4)?;  // more definitive-edition padding
            }
        }
        if ctx.version >= VERSION_MARKERS {
            expect_marker(input, ctx.version, 11)?;
        }

        let player_ai = read_ai_record(input, ctx, player_type, peers)?;
        if ctx.version >= VERSION_MARKERS {
            expect_marker(input, ctx.version, 11)?;
        }

        let gaia = if player_type == 2 {
            Some(GaiaData::read_from(input)?)
        } else {
            None
        };
        if ctx.version >= VERSION_MARKERS {
            expect_marker(input, ctx.version, 11)?;
        }

        let (available_unit_types, unit_types) = read_unit_types(input, ctx, peers)?;

        if ctx.version >= VERSION_MARKERS {
            expect_marker(input, ctx.version, 11)?;
        }
        let visible_map = VisibleMap::read_from(input, ctx)?;
        let visible_resources = VisibleResources::read_from(input)?;
        if ctx.version >= VERSION_MARKERS {
            expect_marker(input, ctx.version, 11)?;
        }

        let units = read_unit_list(input, ctx, peers, &mut opaque)?;
        if ctx.version >= VERSION_MARKERS {
            expect_marker(input, ctx.version, 11)?;
        }
        let sleeping_units = read_unit_list(input, ctx, peers, &mut opaque)?;
        if ctx.version >= VERSION_MARKERS {
            expect_marker(input, ctx.version, 11)?;
        }
        let doppelganger_units = read_unit_list(input, ctx, peers, &mut opaque)?;
        if ctx.version >= VERSION_MARKERS {
            expect_marker(input, ctx.version, 11)?;
        }

        Ok(
            Player {
                player_type,
                relations,
                diplomacy,
                allied_los,
                allied_victory,
                name,
                attributes,
                initial_view,
                saved_views,
                spawn_location,
                culture_id,
                civilization_id,
                game_status,
                resigned,
                userpatch_data,
                tech_state,
                history_info,
                tech_tree,
                player_ai,
                gaia,
                available_unit_types,
                unit_types,
                visible_map,
                visible_resources,
                units,
                sleeping_units,
                doppelganger_units,
                victory: None,
                opaque,
                desync_skipped,
            },
        )
    }

    /// Read the expanded victory conditions for this player. The outer
    /// loader calls this after the player blocks.
    ///
    /// The record is decoded by the outside victory-conditions parser; it
    /// succeeds exactly when that parser accepts the tail (and the declared
    /// condition count is not negative, which is rejected first as
    /// [`DecodeError::InvalidLength`]), and then `victory` holds the parsed
    /// record and the reader has advanced past exactly the bytes the parser
    /// consumed. On failure the error is handed up, `victory` keeps its old
    /// value and the reader does not move. No other field is touched either
    /// way.
    pub fn read_info(&mut self, input: &mut Reader) -> (res: Result<(), DecodeError>)
        ensures
            final(input).bytes() == old(input).bytes(),
            final(input).pos() >= old(input).pos(),
            ({
                let b = old(input).bytes();
                let q = old(input).pos();
                let tail = b.subrange(q, b.len() as int);
                &&& (res is Ok <==> old(input).can_read(0) && !crate::peer::spec_victory_count_negative(tail)
                    && crate::peer::victory_consumed_of(tail) is Some)
                &&& (res is Ok ==> final(input).pos() == q + crate::peer::victory_consumed_of(
                    tail,
                )->Some_0 && final(self).victory is Some)
                &&& (res is Err ==> final(input).pos() == q && final(self).victory == old(
                    self,
                ).victory)
            }),
            final(self).player_type == old(self).player_type,
            final(self).relations == old(self).relations,
            final(self).diplomacy == old(self).diplomacy,
            final(self).allied_los == old(self).allied_los,
            final(self).allied_victory == old(self).allied_victory,
            final(self).name == old(self).name,
            final(self).attributes == old(self).attributes,
            final(self).initial_view == old(self).initial_view,
            final(self).saved_views == old(self).saved_views,
            final(self).spawn_location == old(self).spawn_location,
            final(self).culture_id == old(self).culture_id,
            final(self).civilization_id == old(self).civilization_id,
            final(self).game_status == old(self).game_status,
            final(self).resigned == old(self).resigned,
            final(self).userpatch_data == old(self).userpatch_data,
            final(self).tech_state == old(self).tech_state,
            final(self).history_info == old(self).history_info,
            final(self).tech_tree == old(self).tech_tree,
            final(self).player_ai == old(self).player_ai,
            final(self).gaia == old(self).gaia,
            final(self).available_unit_types == old(self).available_unit_types,
            final(self).unit_types == old(self).unit_types,
            final(self).visible_map == old(self).visible_map,
            final(self).visible_resources == old(self).visible_resources,
            final(self).units == old(self).units,
            final(self).sleeping_units == old(self).sleeping_units,
            final(self).doppelganger_units == old(self).doppelganger_units,
            final(self).opaque == old(self).opaque,
            final(self).desync_skipped == old(self).desync_skipped,
    {
        let victory = read_victory_conditions(input)?;
        self.victory = Some(victory);
        Ok(())
    }
}

} // verus!
