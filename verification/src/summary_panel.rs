//! End-of-run summary text: headline, reward digest, chronicle highlights.
use vstd::prelude::*;

use crate::stash_sort::StashItem;
use crate::text::{
    contains_str, lowercase_chars, push_lines, push_str, push_u64, string_from_chars,
};

verus! {

/// Depth cap a run is configured with by default.
pub const DEFAULT_RUN_MAX_DEPTH: u32 = 25;

/// How a run ended.
#[derive(Clone, Copy, Debug, PartialEq, Eq, Structural)]
pub enum RunOutcome {
    BossDefeated,
    HeroDied,
}

/// The record of a finished run, as the summary screen reads it.
#[derive(Debug)]
pub struct RunSummary {
    pub outcome: RunOutcome,
    pub deepest_depth: u32,
    pub floors_cleared: u32,
    pub dungeon_depth_cap: u32,
    pub gold_earned: u32,
    pub salvage_earned: u32,
    pub loot: Vec<StashItem>,
    pub death_reason: Option<String>,
    pub log: Vec<String>,
    pub peak_risk_note: String,
    pub guided_early_combat_drop_granted: bool,
    pub encounter_score: u32,
    pub party_strike_damage_white: u64,
    pub party_strike_damage_yellow: u64,
}

/// Share of party strike damage dealt by abilities ("yellow"), as a whole percent
/// rounded half up; none when no strike damage was dealt.
pub open spec fn strike_share_spec(white: nat, yellow: nat) -> Option<nat> {
    let total = white + yellow;
    if total == 0 {
        None
    } else {
        Some(((yellow * 100 + total / 2) / total) as nat)
    }
}

proof fn lemma_share_at_most_100(yellow: int, total: int)
    requires
        0 <= yellow <= total,
        total > 0,
    ensures
        (yellow * 100 + total / 2) / total <= 100,
        (yellow * 100 + total / 2) / total >= 0,
{
    assert(yellow * 100 + total / 2 < 101 * total) by (nonlinear_arith)
        requires
            0 <= yellow <= total,
            total > 0,
    ;
    assert((yellow * 100 + total / 2) / total < 101) by (nonlinear_arith)
        requires
            yellow * 100 + total / 2 < 101 * total,
            total > 0,
            yellow * 100 + total / 2 >= 0,
    ;
    assert((yellow * 100 + total / 2) / total >= 0) by (nonlinear_arith)
        requires
            total > 0,
            yellow * 100 + total / 2 >= 0,
    ;
}

/// The ability share of strike damage is the whole percent nearest to the exact share
/// (halves rounded up): within half a percent of it, never above 100, 0 when abilities
/// dealt nothing and 100 when plain strikes dealt nothing; there is no share exactly
/// when no strike damage was dealt.
pub proof fn law_strike_share_is_nearest_percent(white: nat, yellow: nat)
    ensures
        strike_share_spec(white, yellow) is None <==> white + yellow == 0,
        white + yellow > 0 ==> ({
            let p = strike_share_spec(white, yellow)->0;
            let total = white + yellow;
            &&& 2 * (p * total) <= 200 * yellow + total
            &&& 200 * yellow < 2 * (p * total) + total
            &&& p <= 100
            &&& yellow == 0 ==> p == 0
            &&& white == 0 ==> p == 100
        }),
{
    if white + yellow > 0 {
        let total: int = white as int + yellow as int;
        let q: int = yellow * 100 + total / 2;
        let p: int = q / total;
        assert(strike_share_spec(white, yellow)->0 == p);
        lemma_share_at_most_100(yellow as int, total);
        vstd::arithmetic::div_mod::lemma_fundamental_div_mod(q, total);
        assert(0 <= q % total < total) by {
            vstd::arithmetic::div_mod::lemma_mod_bound(q, total);
        }
        assert(q == total * p + q % total);
        assert(2 * (p * total) <= 200 * yellow + total) by (nonlinear_arith)
            requires
                q == total * p + q % total,
                0 <= q % total,
                q == yellow * 100 + total / 2,
                total > 0,
        ;
        assert(200 * yellow < 2 * (p * total) + total) by (nonlinear_arith)
            requires
                q == total * p + q % total,
                q % total < total,
                q == yellow * 100 + total / 2,
                total > 0,
        ;
        if yellow == 0 {
            assert(p == 0) by (nonlinear_arith)
                requires
                    2 * (p * total) <= total,
                    p >= 0,
                    total > 0,
            ;
        }
        if white == 0 {
            assert(p == 100) by (nonlinear_arith)
                requires
                    200 * total < 2 * (p * total) + total,
                    p <= 100,
                    total > 0,
            ;
        }
    }
}

impl RunSummary {
    /// Percent of strike damage that came from abilities, if any strike damage was dealt.
    pub fn strike_ability_share_percent(&self) -> (share: Option<u32>)
        ensures
            share matches Some(p) ==> strike_share_spec(
                self.party_strike_damage_white as nat,
                self.party_strike_damage_yellow as nat,
            ) == Some(p as nat),
            share is None ==> strike_share_spec(
                self.party_strike_damage_white as nat,
                self.party_strike_damage_yellow as nat,
            ) is None,
    {
        let white = self.party_strike_damage_white as u128;
        let yellow = self.party_strike_damage_yellow as u128;
        let total = white + yellow;
        if total == 0 {
            None
        } else {
            let p = (yellow * 100 + total / 2) / total;
            proof {
                lemma_share_at_most_100(yellow as int, total as int);
            }
            Some(p as u32)
        }
    }
}

/// Headline: victory with the depth reached, or the fall with its reason.
pub open spec fn headline_spec(s: RunSummary) -> Seq<char> {
    match s.outcome {
        RunOutcome::BossDefeated => "Victory - reached depth "@ + crate::text::dec(
            s.deepest_depth as nat,
        ) + " before sealing the "@ + "gate."@,
        RunOutcome::HeroDied => "Fallen - depth "@ + crate::text::dec(s.deepest_depth as nat)
            + ". "@ + match s.death_reason {
            Some(r) => r@,
            None => "The delve ends in darkness."@,
        },
    }
}

/// Reward digest line, with a strike-damage line when any strike damage was dealt.
pub open spec fn reward_digest_spec(s: RunSummary) -> Seq<char> {
    "Rewards pending - Gold +"@ + crate::text::dec(s.gold_earned as nat) + " · Salvage +"@
        + crate::text::dec(s.salvage_earned as nat) + " · Encounter score "@ + crate::text::dec(
        s.encounter_score as nat,
    ) + " · Loot pieces: "@ + crate::text::dec(s.loot@.len()) + match strike_share_spec(
        s.party_strike_damage_white as nat,
        s.party_strike_damage_yellow as nat,
    ) {
        Some(p) => "\nStrike damage: "@ + crate::text::dec(p) + "% abilities · "@
            + crate::text::dec(s.party_strike_damage_white as nat) + " white · "@
            + crate::text::dec(s.party_strike_damage_yellow as nat) + " yellow"@,
        None => Seq::empty(),
    }
}

/// A log line (already lowercased) worth retelling in the chronicle.
pub open spec fn is_highlight(lower: Seq<char>) -> bool {
    ||| crate::text::contains_seq(lower, "warden"@)
    ||| crate::text::contains_seq(lower, "shrine"@)
    ||| crate::text::contains_seq(lower, "found "@)
    ||| crate::text::contains_seq(lower, "elite"@)
    ||| crate::text::contains_seq(lower, "defeated by"@)
}

/// The log lines whose lowercase form is a highlight, in log order.
pub open spec fn highlight_picks(log: Seq<Seq<char>>) -> Seq<Seq<char>>
    decreases log.len(),
{
    if log.len() == 0 {
        Seq::empty()
    } else {
        highlight_picks(log.drop_last()) + if is_highlight(
            crate::text::unicode_lowercase(log.last()),
        ) {
            seq![log.last()]
        } else {
            Seq::empty()
        }
    }
}

/// Chronicle beats: the highlights, or the first log line when there are none.
pub open spec fn narrative_spec(log: Seq<Seq<char>>) -> Seq<Seq<char>> {
    let picks = highlight_picks(log);
    if picks.len() == 0 {
        log.take(if log.len() > 0 { 1int } else { 0int })
    } else {
        picks
    }
}

/// The full summary panel text.
pub open spec fn summary_text_spec(s: RunSummary) -> Seq<char> {
    let log = crate::text::views(s.log@);
    headline_spec(s) + seq!['\n'] + (if s.peak_risk_note@.len() > 0 {
        s.peak_risk_note@ + seq!['\n']
    } else {
        Seq::empty()
    }) + reward_digest_spec(s) + "\n\n- Chronicle -\n"@ + crate::text::lines_block(
        narrative_spec(log),
    ) + (if log.len() > 8 {
        "\n… full log on the scroll …\n"@
    } else {
        Seq::empty()
    }) + "\n- Full log -\n"@ + crate::text::lines_block(
        log.take(if log.len() < 12 { log.len() as int } else { 12int }),
    )
}

/// Whether an already-lowercased log line is a chronicle highlight.
pub fn is_chronicle_highlight(lower: &Vec<char>) -> (h: bool)
    ensures
        h == is_highlight(lower@),
{
    contains_str(lower, "warden") || contains_str(lower, "shrine") || contains_str(lower, "found ")
        || contains_str(lower, "elite") || contains_str(lower, "defeated by")
}

/// The summary shown when no run is on record.
pub fn empty_run_summary() -> (s: RunSummary)
    ensures
        s.outcome == RunOutcome::HeroDied,
        s.deepest_depth == 0,
        s.floors_cleared == 0,
        s.dungeon_depth_cap == DEFAULT_RUN_MAX_DEPTH,
        s.gold_earned == 0,
        s.salvage_earned == 0,
        s.loot@.len() == 0,
        s.death_reason matches Some(r) && r@ == "No chronicle available."@,
        s.log@.len() == 0,
        s.peak_risk_note@.len() == 0,
        !s.guided_early_combat_drop_granted,
        s.encounter_score == 0,
        s.party_strike_damage_white == 0,
        s.party_strike_damage_yellow == 0,
{
    RunSummary {
        outcome: RunOutcome::HeroDied,
        deepest_depth: 0,
        floors_cleared: 0,
        dungeon_depth_cap: DEFAULT_RUN_MAX_DEPTH,
        gold_earned: 0,
        salvage_earned: 0,
        loot: Vec::new(),
        death_reason: Some(String::from_str("No chronicle available.")),
        log: Vec::new(),
        peak_risk_note: String::new(),
        guided_early_combat_drop_granted: false,
        encounter_score: 0,
        party_strike_damage_white: 0,
        party_strike_damage_yellow: 0,
    }
}

fn push_headline(out: &mut Vec<char>, summary: &RunSummary)
    ensures
        final(out)@ == old(out)@ + headline_spec(*summary),
{
    match summary.outcome {
        RunOutcome::BossDefeated => {
            push_str(out, "Victory - reached depth ");
            push_u64(out, summary.deepest_depth as u64);
            push_str(out, " before sealing the ");
            push_str(out, "gate.");
        },
        RunOutcome::HeroDied => {
            push_str(out, "Fallen - depth ");
            push_u64(out, summary.deepest_depth as u64);
            push_str(out, ". ");
            match &summary.death_reason {
                Some(r) => push_str(out, r.as_str()),
                None => push_str(out, "The delve ends in darkness."),
            }
        },
    }
    assert(final(out)@ =~= old(out)@ + headline_spec(*summary));
}

pub fn outcome_headline(summary: &RunSummary) -> (h: String)
    ensures
        h@ == headline_spec(*summary),
{
    let mut out: Vec<char> = Vec::new();
    push_headline(&mut out, summary);
    assert(out@ =~= headline_spec(*summary));
    string_from_chars(&out)
}

fn push_reward_digest(out: &mut Vec<char>, summary: &RunSummary)
    ensures
        final(out)@ == old(out)@ + reward_digest_spec(*summary),
{
    push_str(out, "Rewards pending - Gold +");
    push_u64(out, summary.gold_earned as u64);
    push_str(out, " · Salvage +");
    push_u64(out, summary.salvage_earned as u64);
    push_str(out, " · Encounter score ");
    push_u64(out, summary.encounter_score as u64);
    push_str(out, " · Loot pieces: ");
    push_u64(out, summary.loot.len() as u64);
    let ghost mid = out@;
    match summary.strike_ability_share_percent() {
        Some(pct) => {
            push_str(out, "\nStrike damage: ");
            push_u64(out, pct as u64);
            push_str(out, "% abilities · ");
            push_u64(out, summary.party_strike_damage_white);
            push_str(out, " white · ");
            push_u64(out, summary.party_strike_damage_yellow);
            push_str(out, " yellow");
        },
        None => {
            assert(mid =~= mid + Seq::<char>::empty());
        },
    }
    assert(final(out)@ =~= old(out)@ + reward_digest_spec(*summary));
}

pub fn reward_digest(summary: &RunSummary) -> (d: String)
    ensures
        d@ == reward_digest_spec(*summary),
{
    let mut out: Vec<char> = Vec::new();
    push_reward_digest(&mut out, summary);
    assert(out@ =~= reward_digest_spec(*summary));
    string_from_chars(&out)
}

/// Curated beats for scan-friendly storytelling (subset of the run log).
pub fn narrative_highlights(summary: &RunSummary) -> (picks: Vec<String>)
    ensures
        crate::text::views(picks@) == narrative_spec(crate::text::views(summary.log@)),
{
    let ghost log = crate::text::views(summary.log@);
    let mut picks: Vec<String> = Vec::new();
    let mut i: usize = 0;
    while i < summary.log.len()
        invariant
            log == crate::text::views(summary.log@),
            i <= summary.log.len(),
            crate::text::views(picks@) == highlight_picks(log.take(i as int)),
        decreases summary.log.len() - i,
    {
        let lower = lowercase_chars(summary.log[i].as_str());
        let ghost before = picks@;
        if is_chronicle_highlight(&lower) {
            picks.push(summary.log[i].clone());
        }
        proof {
            let t = log.take(i + 1);
            assert(t.drop_last() =~= log.take(i as int));
            assert(t.last() == summary.log@[i as int]@);
        }
        i = i + 1;
        assert(crate::text::views(picks@) =~= highlight_picks(log.take(i as int)));
    }
    assert(log.take(log.len() as int) =~= log);
    if picks.len() == 0 {
        let mut first: Vec<String> = Vec::new();
        if summary.log.len() > 0 {
            first.push(summary.log[0].clone());
        }
        assert(crate::text::views(first@) =~= narrative_spec(log));
        first
    } else {
        picks
    }
}

pub fn summary_panel_text(summary: &RunSummary) -> (text: String)
    ensures
        text@ == summary_text_spec(*summary),
{
    let ghost log = crate::text::views(summary.log@);
    let mut out: Vec<char> = Vec::new();
    push_headline(&mut out, summary);
    out.push('\n');
    let ghost a = out@;
    if summary.peak_risk_note.as_str().is_empty() == false {
        push_str(&mut out, summary.peak_risk_note.as_str());
        out.push('\n');
    }
    push_reward_digest(&mut out, summary);
    push_str(&mut out, "\n\n- Chronicle -\n");
    let beats = narrative_highlights(summary);
    push_lines(&mut out, &beats, beats.len());
    assert(crate::text::views(beats@).take(beats.len() as int) =~= crate::text::views(beats@));
    if summary.log.len() > 8 {
        push_str(&mut out, "\n… full log on the scroll …\n");
    }
    push_str(&mut out, "\n- Full log -\n");
    let shown = if summary.log.len() < 12 { summary.log.len() } else { 12 };
    push_lines(&mut out, &summary.log, shown);
    assert(out@ =~= summary_text_spec(*summary));
    string_from_chars(&out)
}

proof fn lemma_picks_from_log(log: Seq<Seq<char>>)
    ensures
        forall|k: int| 0 <= k < highlight_picks(log).len() ==> log.contains(#[trigger] highlight_picks(log)[k]),
        highlight_picks(log).len() <= log.len(),
    decreases log.len(),
{
    if log.len() > 0 {
        let rest = log.drop_last();
        lemma_picks_from_log(rest);
        let p = highlight_picks(log);
        assert forall|k: int| 0 <= k < p.len() implies log.contains(#[trigger] p[k]) by {
            if k < highlight_picks(rest).len() {
                assert(rest.contains(highlight_picks(rest)[k]));
                let j = choose|j: int| 0 <= j < rest.len() && rest[j] == highlight_picks(rest)[k];
                assert(log[j] == rest[j]);
            } else {
                assert(log[log.len() - 1] == log.last());
            }
        }
    }
}

/// Each log line whose lowercase form is a highlight is among the picks, and every pick
/// is such a line.
proof fn lemma_picks_are_highlights(log: Seq<Seq<char>>, i: int)
    requires
        0 <= i < log.len(),
    ensures
        is_highlight(crate::text::unicode_lowercase(log[i])) ==> highlight_picks(log).contains(log[i]),
        forall|k: int| 0 <= k < highlight_picks(log).len() ==> is_highlight(
            crate::text::unicode_lowercase(#[trigger] highlight_picks(log)[k]),
        ),
    decreases log.len(),
{
    let rest = log.drop_last();
    let before = highlight_picks(rest);
    let p = highlight_picks(log);
    if rest.len() > 0 {
        lemma_picks_are_highlights(rest, if i < rest.len() { i } else { 0 });
    }
    assert forall|k: int| 0 <= k < p.len() implies is_highlight(
        crate::text::unicode_lowercase(#[trigger] p[k]),
    ) by {
        if k < before.len() {
            assert(p[k] == before[k]);
        } else {
            assert(p[k] == log.last());
        }
    }
    if is_highlight(crate::text::unicode_lowercase(log[i])) {
        if i == log.len() - 1 {
            assert(p[before.len() as int] == log[i]);
        } else {
            assert(rest[i] == log[i]);
            let j = choose|j: int| 0 <= j < before.len() && before[j] == log[i];
            assert(p[j] == log[i]);
        }
    }
}

/// A log line whose lowercase form mentions a warden, a shrine, something found, an
/// elite or a defeat ("defeated by") is always retold in the chronicle; and whenever the
/// log holds such a line, every beat of the chronicle is such a line.
pub proof fn law_chronicle_keeps_key_lines(log: Seq<Seq<char>>, i: int)
    requires
        0 <= i < log.len(),
    ensures
        ({
            let lower = crate::text::unicode_lowercase(log[i]);
            crate::text::contains_seq(lower, "warden"@) || crate::text::contains_seq(lower, "shrine"@)
                || crate::text::contains_seq(lower, "found "@) || crate::text::contains_seq(lower, "elite"@)
                || crate::text::contains_seq(lower, "defeated by"@)
        }) ==> narrative_spec(log).contains(log[i]) && forall|k: int|
            0 <= k < narrative_spec(log).len() ==> {
                let beat = crate::text::unicode_lowercase(#[trigger] narrative_spec(log)[k]);
                crate::text::contains_seq(beat, "warden"@) || crate::text::contains_seq(beat, "shrine"@)
                    || crate::text::contains_seq(beat, "found "@) || crate::text::contains_seq(beat, "elite"@)
                    || crate::text::contains_seq(beat, "defeated by"@)
            },
{
    lemma_picks_are_highlights(log, i);
}

/// The chronicle retells the run log: every beat is a line of the log, there are no
/// more beats than log lines, and a non-empty log always yields at least one beat.
pub proof fn law_chronicle_is_drawn_from_log(log: Seq<Seq<char>>)
    ensures
        forall|k: int| 0 <= k < narrative_spec(log).len() ==> log.contains(#[trigger] narrative_spec(log)[k]),
        narrative_spec(log).len() <= log.len(),
        log.len() > 0 ==> narrative_spec(log).len() > 0,
{
    lemma_picks_from_log(log);
    if highlight_picks(log).len() == 0 && log.len() > 0 {
        assert(narrative_spec(log)[0] == log[0]);
    }
}

} // verus!
