//! Which level to compact next.
//!
//! Level 0 scores its file count against the trigger, a deeper level its
//! bytes against its target. The highest score of at least one wins. Levels
//! that another compaction reads or writes are left out, so that compactions
//! of disjoint levels can run side by side.

use std::collections::HashSet;

use vstd::prelude::*;

use crate::engine::config::EngineConfig;
use crate::iceberg::version::Version;
use crate::types::level::Level;

verus! {

broadcast use vstd::std_specs::hash::group_hash_axioms;

/// A compaction score, as the ratio of what a level holds to what it should
/// hold. A zero denominator stands for an infinite score.
#[derive(Debug, Clone, Copy, PartialEq, Eq, Structural)]
pub struct Score {
    pub numerator: u64,
    pub denominator: u64,
}

impl Score {
    /// Whether this score is higher than the other.
    pub open spec fn above(self, other: Score) -> bool {
        self.numerator * other.denominator > other.numerator * self.denominator
    }

    /// Whether the level holds at least what it should hold.
    pub open spec fn full(self) -> bool {
        self.numerator >= self.denominator
    }

    /// Whether this score is higher than the other.
    pub fn is_above(self, other: Score) -> (r: bool)
        ensures
            r == self.above(other),
    {
        assert(self.numerator * other.denominator <= 0xFFFF_FFFF_FFFF_FFFF * 0xFFFF_FFFF_FFFF_FFFF
            && other.numerator * self.denominator <= 0xFFFF_FFFF_FFFF_FFFF * 0xFFFF_FFFF_FFFF_FFFF
            && 0 <= self.numerator * other.denominator && 0 <= other.numerator * self.denominator)
            by (nonlinear_arith)
            requires
                self.numerator <= 0xFFFF_FFFF_FFFF_FFFF,
                self.denominator <= 0xFFFF_FFFF_FFFF_FFFF,
                other.numerator <= 0xFFFF_FFFF_FFFF_FFFF,
                other.denominator <= 0xFFFF_FFFF_FFFF_FFFF,
        ;
        self.numerator as u128 * other.denominator as u128 > other.numerator as u128
            * self.denominator as u128
    }
}

/// A compaction to run.
#[derive(Debug, Clone)]
pub struct CompactionPick {
    /// The level to read.
    pub input_level: Level,
    /// The level to write.
    pub output_level: Level,
    /// The score of the input level.
    pub score: Score,
    /// The files to compact.
    pub input_files: Vec<String>,
}

/// Whether neither the level nor the one below it is being compacted.
pub open spec fn level_is_free(busy: Set<u8>, level: int) -> bool {
    !busy.contains(level as u8) && !busy.contains((level + 1) as u8)
}

/// The score of a level.
pub open spec fn score_of(version: &Version, config: &EngineConfig, level: int) -> Score {
    if level == 0 {
        Score {
            numerator: version.files(0).len() as u64,
            denominator: config.l0_compaction_trigger as u64,
        }
    } else {
        Score {
            numerator: crate::iceberg::version::total_size(version.files(level)) as u64,
            denominator: config.level_target_bytes@[level - 1],
        }
    }
}

/// Whether a level takes part: it is level 0 or has a target, nobody works on
/// it, and it holds something.
pub open spec fn contends(
    version: &Version,
    config: &EngineConfig,
    busy: Set<u8>,
    level: int,
) -> bool {
    &&& 0 <= level <= config.level_target_bytes@.len()
    &&& level_is_free(busy, level)
    &&& level > 0 ==> config.level_target_bytes@[level - 1] > 0
    &&& score_of(version, config, level).numerator > 0
}

/// Whether a level has the highest score among the levels up to `bound`; of
/// equal scores the lower level wins.
pub open spec fn leads(
    version: &Version,
    config: &EngineConfig,
    busy: Set<u8>,
    level: int,
    bound: int,
) -> bool {
    &&& contends(version, config, busy, level)
    &&& level <= bound
    &&& forall|m: int|
        #![trigger contends(version, config, busy, m)]
        m <= bound && contends(version, config, busy, m) ==> {
            &&& !score_of(version, config, m).above(score_of(version, config, level))
            &&& m < level ==> score_of(version, config, level).above(score_of(version, config, m))
        }
}

/// Whether level 0 is so full that it goes first whatever the others score.
pub open spec fn l0_goes_first(version: &Version, config: &EngineConfig, busy: Set<u8>) -> bool {
    version.files(0).len() >= config.l0_slowdown_trigger && level_is_free(busy, 0)
}

/// The paths of a level's files.
pub open spec fn paths_of(version: &Version, level: int) -> Seq<Seq<char>> {
    Seq::new(version.files(level).len(), |i: int| version.files(level)[i].path@)
}

/// Whether `p` is the compaction to run next.
pub open spec fn is_pick(
    version: &Version,
    config: &EngineConfig,
    busy: Set<u8>,
    p: CompactionPick,
) -> bool {
    let l = p.input_level.0 as int;
    &&& p.output_level.0 == l + 1
    &&& level_is_free(busy, l)
    &&& crate::text::texts(p.input_files@) == paths_of(version, l)
    &&& p.input_files@.len() > 0
    &&& p.score == score_of(version, config, l)
    &&& if l0_goes_first(version, config, busy) {
        l == 0
    } else {
        leads(version, config, busy, l, config.level_target_bytes@.len() as int) && p.score.full()
    }
}

/// Whether no free level needs a compaction.
pub open spec fn nothing_to_pick(version: &Version, config: &EngineConfig, busy: Set<u8>) -> bool {
    if l0_goes_first(version, config, busy) {
        version.files(0).len() == 0
    } else {
        forall|m: int|
            #![trigger contends(version, config, busy, m)]
            contends(version, config, busy, m) ==> !score_of(version, config, m).full()
    }
}

/// A score above the leader's is above every score that the leader's is not
/// below.
proof fn lemma_above_chain(new: Score, best: Score, m: Score)
    requires
        new.above(best),
        !m.above(best),
        best.numerator > 0,
        m.numerator > 0,
    ensures
        new.above(m),
{
    let n1 = new.numerator as int;
    let d1 = new.denominator as int;
    let n2 = best.numerator as int;
    let d2 = best.denominator as int;
    let nm = m.numerator as int;
    let dm = m.denominator as int;
    assert(n1 * dm > nm * d1) by (nonlinear_arith)
        requires
            n1 * d2 > n2 * d1,
            nm * d2 <= n2 * dm,
            n2 > 0,
            nm > 0,
            n1 >= 0,
            d1 >= 0,
            d2 >= 0,
            dm >= 0,
    {
        assert(d2 > 0) by {
            if d2 == 0 {
                assert(n1 * d2 == 0);
                assert(n2 * d1 >= 0);
            }
        }
        assert(dm > 0) by {
            if dm == 0 {
                assert(n2 * dm == 0);
                assert(nm * d2 > 0);
            }
        }
        assert(n1 * d2 * dm > n2 * d1 * dm);
        assert(n2 * dm * d1 >= nm * d2 * d1);
        assert((n1 * dm) * d2 > (nm * d1) * d2);
    }
}

/// Picks the next compaction; `None` when no free level needs one.
///
/// From the slowdown trigger on, level 0 goes first whatever the others
/// score, unless it is being compacted already. Otherwise the highest score
/// of at least one wins. Every file of the level is compacted.
pub fn pick_compaction(version: &Version, config: &EngineConfig, busy_levels: &HashSet<u8>) -> (r:
    Option<CompactionPick>)
    requires
        config.level_target_bytes@.len() <= 254,
        forall|l: int|
            1 <= l <= config.level_target_bytes@.len() && level_is_free(busy_levels@, l)
                ==> crate::iceberg::version::total_size(#[trigger] version.files(l)) <= u64::MAX,
    ensures
        match r {
            Some(p) => is_pick(version, config, busy_levels@, p),
            None => nothing_to_pick(version, config, busy_levels@),
        },
{
    let n: usize = config.level_target_bytes.len();
    let l0_count: usize = version.l0_file_count();
    let l0_free: bool = !busy_levels.contains(&0u8) && !busy_levels.contains(&1u8);
    let l0_score = Score {
        numerator: l0_count as u64,
        denominator: config.l0_compaction_trigger as u64,
    };
    let force_l0: bool = l0_count >= config.l0_slowdown_trigger && l0_free;
    let mut best_level: u8 = 0;
    let mut best_score: Score = l0_score;
    if !force_l0 {
        let mut found: bool = l0_count > 0 && l0_free;
        let mut i: usize = 0;
        while i < n
            invariant
                i <= n,
                n == config.level_target_bytes@.len(),
                n <= 254,
                forall|l: int|
                    1 <= l <= n && level_is_free(busy_levels@, l)
                        ==> crate::iceberg::version::total_size(#[trigger] version.files(l))
                        <= u64::MAX,
                best_level <= i,
                found ==> best_score == score_of(version, config, best_level as int) && leads(
                    version,
                    config,
                    busy_levels@,
                    best_level as int,
                    i as int,
                ),
                !found ==> forall|m: int|
                    #![trigger contends(version, config, busy_levels@, m)]
                    m <= i ==> !contends(version, config, busy_levels@, m),
            decreases n - i,
        {
            let level: u8 = (i + 1) as u8;
            let target: u64 = config.level_target_bytes[i];
            let next: u8 = level + 1;
            let free: bool = !busy_levels.contains(&level) && !busy_levels.contains(&next);
            assert(free == level_is_free(busy_levels@, level as int));
            let ghost files = version.files(level as int);
            let bytes: u64 = if free {
                version.level_bytes(Level(level))
            } else {
                0
            };
            let score = Score { numerator: bytes, denominator: target };
            assert(free ==> score == score_of(version, config, level as int));
            let contends_here: bool = free && target > 0 && bytes > 0;
            assert(contends_here == contends(version, config, busy_levels@, level as int));
            if contends_here {
                if !found {
                    best_level = level;
                    best_score = score;
                    found = true;
                } else if score.is_above(best_score) {
                    proof {
                        assert forall|m: int|
                            #![trigger contends(version, config, busy_levels@, m)]
                            m <= i && contends(
                                version,
                                config,
                                busy_levels@,
                                m,
                            ) implies score.above(score_of(version, config, m)) && !score_of(
                            version,
                            config,
                            m,
                        ).above(score) by {
                            lemma_above_chain(score, best_score, score_of(version, config, m));
                        }
                    }
                    best_level = level;
                    best_score = score;
                }
            }
            i = i + 1;
        }
        if !found || best_score.numerator < best_score.denominator {
            proof {
                if found {
                    assert forall|m: int|
                        #![trigger contends(version, config, busy_levels@, m)]
                        contends(version, config, busy_levels@, m) implies !score_of(
                        version,
                        config,
                        m,
                    ).full() by {
                        lemma_below_one(score_of(version, config, m), best_score);
                    }
                }
            }
            return None;
        }
    }
    let files = version.files_at(Level(best_level));
    let mut input_files: Vec<String> = Vec::new();
    let mut i: usize = 0;
    while i < files.len()
        invariant
            i <= files@.len(),
            input_files@.len() == i,
            forall|k: int| 0 <= k < i ==> (#[trigger] input_files@[k])@ == files@[k].path@,
        decreases files@.len() - i,
    {
        input_files.push(files[i].path.clone());
        i = i + 1;
    }
    assert(crate::text::texts(input_files@) =~= paths_of(version, best_level as int));
    if input_files.len() == 0 {
        return None;
    }
    Some(
        CompactionPick {
            input_level: Level(best_level),
            output_level: Level(best_level + 1),
            score: best_score,
            input_files,
        },
    )
}

/// A score that is not above one below 1 is itself below 1.
proof fn lemma_below_one(m: Score, best: Score)
    requires
        !m.above(best),
        best.numerator < best.denominator,
        m.numerator > 0,
    ensures
        !m.full(),
{
    let nm = m.numerator as int;
    let dm = m.denominator as int;
    let nb = best.numerator as int;
    let db = best.denominator as int;
    assert(nm < dm) by (nonlinear_arith)
        requires
            nm * db <= nb * dm,
            0 <= nb < db,
            nm > 0,
            dm >= 0,
    {
        if nm >= dm {
            assert(nm * db >= dm * db);
            if dm > 0 {
                assert(dm * db > dm * nb);
            } else {
                assert(nm * db > 0);
                assert(nb * dm == 0);
            }
        }
    }
}

/// Whether tombstones can be dropped when writing to a level: only at the
/// true bottom, one below the deepest level with a target, from which no
/// compaction starts.
pub fn should_drop_tombstones(output_level: Level, num_configured_levels: usize) -> (r: bool)
    ensures
        r == (output_level.0 > num_configured_levels),
{
    output_level.0 as usize > num_configured_levels
}

/// Data never moves below a level at which tombstones were dropped: no level
/// beyond the configured ones takes part in picking.
pub proof fn law_tombstones_drop_at_the_bottom(
    version: &Version,
    config: &EngineConfig,
    busy: Set<u8>,
    level: int,
)
    requires
        level > config.level_target_bytes@.len(),
    ensures
        !contends(version, config, busy, level),
{
}

/// What is picked moves one level into the next, neither of which is being
/// compacted, and takes every file of the level, in order.
pub proof fn law_pick_takes_a_whole_free_level(
    version: &Version,
    config: &EngineConfig,
    busy: Set<u8>,
    p: CompactionPick,
)
    requires
        is_pick(version, config, busy, p),
    ensures
        p.output_level.0 == p.input_level.0 + 1,
        !busy.contains(p.input_level.0),
        !busy.contains(p.output_level.0),
        p.input_files@.len() > 0,
        p.input_files@.len() == version.files(p.input_level.0 as int).len(),
        forall|i: int|
            0 <= i < p.input_files@.len() ==> (#[trigger] p.input_files@[i])@ == version.files(
                p.input_level.0 as int,
            )[i].path@,
{
    let l = p.input_level.0 as int;
    assert(crate::text::texts(p.input_files@).len() == paths_of(version, l).len());
    assert forall|i: int| 0 <= i < p.input_files@.len() implies (#[trigger] p.input_files@[i])@
        == version.files(l)[i].path@ by {
        assert(crate::text::texts(p.input_files@)[i] == paths_of(version, l)[i]);
    }
}

/// The score of a pick compares what the level holds to what it should hold:
/// files to the trigger at level 0, bytes to the target below it. Unless level
/// 0 goes first, the level holds at least what it should.
pub proof fn law_pick_is_full(
    version: &Version,
    config: &EngineConfig,
    busy: Set<u8>,
    p: CompactionPick,
)
    requires
        is_pick(version, config, busy, p),
        version.files(0).len() <= u64::MAX,
        crate::iceberg::version::total_size(version.files(p.input_level.0 as int)) <= u64::MAX,
    ensures
        p.input_level.0 == 0 ==> p.score.numerator == version.files(0).len() && p.score.denominator
            == config.l0_compaction_trigger,
        p.input_level.0 > 0 ==> {
            &&& p.input_level.0 <= config.level_target_bytes@.len()
            &&& p.score.numerator == crate::iceberg::version::total_size(
                version.files(p.input_level.0 as int),
            )
            &&& p.score.denominator == config.level_target_bytes@[p.input_level.0 - 1]
            &&& p.score.denominator > 0
        },
        p.input_level.0 > 0 || version.files(0).len() < config.l0_slowdown_trigger || busy.contains(
            0,
        ) || busy.contains(1) ==> p.score.numerator >= p.score.denominator,
{
    crate::iceberg::version::lemma_total_size_is_natural(
        version.files(p.input_level.0 as int),
    );
}

/// From the slowdown trigger on, level 0 is picked whatever the others hold,
/// as long as nobody works on it or on level 1.
pub proof fn law_full_level_0_goes_first(
    version: &Version,
    config: &EngineConfig,
    busy: Set<u8>,
    p: CompactionPick,
)
    requires
        is_pick(version, config, busy, p),
        version.files(0).len() >= config.l0_slowdown_trigger,
        !busy.contains(0),
        !busy.contains(1),
    ensures
        p.input_level.0 == 0,
{
}

/// No other free level holds more of what it should than the one that is
/// picked, and none that is less deep holds as much: for every level with a
/// target, bytes over target are compared with the score of the pick.
pub proof fn law_pick_has_the_highest_score(
    version: &Version,
    config: &EngineConfig,
    busy: Set<u8>,
    p: CompactionPick,
    m: int,
)
    requires
        is_pick(version, config, busy, p),
        version.files(0).len() < config.l0_slowdown_trigger || busy.contains(0) || busy.contains(1),
        1 <= m <= config.level_target_bytes@.len(),
        m < 255,
        !busy.contains(m as u8),
        !busy.contains((m + 1) as u8),
        config.level_target_bytes@[m - 1] > 0,
        crate::iceberg::version::total_size(version.files(m)) <= u64::MAX,
    ensures
        crate::iceberg::version::total_size(version.files(m)) * p.score.denominator
            <= p.score.numerator * config.level_target_bytes@[m - 1],
        m < p.input_level.0 && crate::iceberg::version::total_size(version.files(m)) > 0
            ==> crate::iceberg::version::total_size(version.files(m)) * p.score.denominator
            < p.score.numerator * config.level_target_bytes@[m - 1],
{
    crate::iceberg::version::lemma_total_size_is_natural(version.files(m));
    let size = crate::iceberg::version::total_size(version.files(m));
    let n = p.score.numerator as int;
    let d = p.score.denominator as int;
    let t = config.level_target_bytes@[m - 1] as int;
    if size == 0 {
        assert(size * d <= n * t) by (nonlinear_arith)
            requires
                size == 0,
                n >= 0,
                t >= 0,
        ;
    } else {
        assert(contends(version, config, busy, m));
    }
}

/// The same for level 0, whose files are compared with the trigger.
pub proof fn law_pick_scores_no_less_than_level_0(
    version: &Version,
    config: &EngineConfig,
    busy: Set<u8>,
    p: CompactionPick,
)
    requires
        is_pick(version, config, busy, p),
        version.files(0).len() < config.l0_slowdown_trigger,
        !busy.contains(0),
        !busy.contains(1),
        version.files(0).len() > 0,
    ensures
        version.files(0).len() * p.score.denominator <= p.score.numerator
            * config.l0_compaction_trigger,
        p.input_level.0 > 0 ==> version.files(0).len() * p.score.denominator < p.score.numerator
            * config.l0_compaction_trigger,
{
    assert(contends(version, config, busy, 0));
}

/// Nothing is picked only where no free level is full: level 0 below its
/// trigger, and every level with a target below that.
pub proof fn law_no_full_level_is_passed_over(
    version: &Version,
    config: &EngineConfig,
    busy: Set<u8>,
    m: int,
)
    requires
        nothing_to_pick(version, config, busy),
        0 <= m <= config.level_target_bytes@.len(),
        m < 255,
        !busy.contains(m as u8),
        !busy.contains((m + 1) as u8),
        version.files(0).len() < config.l0_slowdown_trigger || version.files(0).len() > 0,
        crate::iceberg::version::total_size(version.files(m)) <= u64::MAX,
    ensures
        m == 0 ==> version.files(0).len() == 0 || version.files(0).len()
            < config.l0_compaction_trigger,
        m > 0 && config.level_target_bytes@[m - 1] > 0 ==> !l0_goes_first(version, config, busy)
            && crate::iceberg::version::total_size(version.files(m))
            < config.level_target_bytes@[m - 1],
{
    crate::iceberg::version::lemma_total_size_is_natural(version.files(m));
    if !l0_goes_first(version, config, busy) {
        if m == 0 && version.files(0).len() > 0 {
            assert(contends(version, config, busy, 0));
        }
        if m > 0 && config.level_target_bytes@[m - 1] > 0
            && crate::iceberg::version::total_size(version.files(m)) > 0 {
            assert(contends(version, config, busy, m));
        }
    }
}

/// Scores compare as fractions do: with one denominator the larger numerator
/// is above, with one numerator the smaller denominator, and no score is above
/// one that is above it.
pub proof fn law_scores_compare_as_fractions(a: Score, b: Score)
    ensures
        a.denominator == b.denominator && a.denominator > 0 ==> (a.above(b) <==> a.numerator
            > b.numerator),
        a.numerator == b.numerator && a.numerator > 0 ==> (a.above(b) <==> a.denominator
            < b.denominator),
        a.above(b) ==> !b.above(a),
        a.full() <==> a.numerator >= a.denominator,
{
    let n = a.numerator as int;
    let d = a.denominator as int;
    let m = b.numerator as int;
    let e = b.denominator as int;
    if d == e && d > 0 {
        assert(n * e > m * d <==> n > m) by (nonlinear_arith)
            requires
                d == e,
                d > 0,
        ;
    }
    if n == m && n > 0 {
        assert(n * e > m * d <==> d < e) by (nonlinear_arith)
            requires
                n == m,
                n > 0,
        ;
    }
}

} // verus!
