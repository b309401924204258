//! Pure report arithmetic: completion percentage, the quantized progress
//! bar, and the fixed breakpoint scales for advice messages.

use vstd::prelude::*;
use vstd::string::StringExecFns;
use crate::textutil::{repeated, push_repeated};

verus! {

/// Learning stage, derived from the completed-chapter count by fixed
/// breakpoints: 0-4, 5-8, 9-12, 13-16, 17-20 and 21 or more.
#[derive(Clone, Copy, PartialEq, Eq, Structural, Debug)]
pub enum LearningStage {
    Foundations,
    CoreConcepts,
    AdvancedFeatures,
    PracticalSkills,
    ExpertTrack,
    Mastery,
}

/// Encouragement scale, derived from the remaining-chapter count by fixed
/// breakpoints: 0, 1-5, 6-10, 11-15 and 16 or more.
#[derive(Clone, Copy, PartialEq, Eq, Structural, Debug)]
pub enum Encouragement {
    AllDone,
    AlmostThere,
    PastHalfway,
    SolidFoundation,
    JustStarted,
}

/// Aggregate progress report: counts, truncated percentage, the quantized
/// progress-bar segments, and the learning stage.
#[derive(Debug)]
pub struct ProgressReport {
    pub completed: usize,
    pub total: usize,
    pub percentage: u32,
    pub filled: u32,
    pub empty: u32,
    pub stage: LearningStage,
}

/// Completed and total chapter counts of one difficulty level, with the
/// completed share in tenths of a percent.
#[derive(Debug)]
pub struct DifficultyStat {
    pub level: u8,
    pub completed: usize,
    pub total: usize,
    pub percent_tenths: usize,
}

/// Statistics report: overall counts, the per-difficulty breakdown, the
/// estimated remaining weeks at three paces (in tenths of a week), and the
/// encouragement band.
#[derive(Debug)]
pub struct StatsReport {
    pub completed: usize,
    pub remaining: usize,
    pub total: usize,
    pub note_count: usize,
    pub by_difficulty: Vec<DifficultyStat>,
    pub weeks_pace3_tenths: usize,
    pub weeks_pace2_tenths: usize,
    pub weeks_pace1_tenths: usize,
    pub encouragement: Encouragement,
}

/// The stage that a completed-chapter count falls in.
pub open spec fn stage_of(completed: int) -> LearningStage {
    if completed <= 4 {
        LearningStage::Foundations
    } else if completed <= 8 {
        LearningStage::CoreConcepts
    } else if completed <= 12 {
        LearningStage::AdvancedFeatures
    } else if completed <= 16 {
        LearningStage::PracticalSkills
    } else if completed <= 20 {
        LearningStage::ExpertTrack
    } else {
        LearningStage::Mastery
    }
}

/// The encouragement band that a remaining-chapter count falls in.
pub open spec fn encouragement_of(remaining: int) -> Encouragement {
    if remaining == 0 {
        Encouragement::AllDone
    } else if remaining <= 5 {
        Encouragement::AlmostThere
    } else if remaining <= 10 {
        Encouragement::PastHalfway
    } else if remaining <= 15 {
        Encouragement::SolidFoundation
    } else {
        Encouragement::JustStarted
    }
}

/// Maps a completed-chapter count to its learning stage.
pub fn learning_stage(completed: usize) -> (r: LearningStage)
    ensures
        r == stage_of(completed as int),
{
    if completed <= 4 {
        LearningStage::Foundations
    } else if completed <= 8 {
        LearningStage::CoreConcepts
    } else if completed <= 12 {
        LearningStage::AdvancedFeatures
    } else if completed <= 16 {
        LearningStage::PracticalSkills
    } else if completed <= 20 {
        LearningStage::ExpertTrack
    } else {
        LearningStage::Mastery
    }
}

/// Maps a remaining-chapter count to its encouragement band.
pub fn encouragement(remaining: usize) -> (r: Encouragement)
    ensures
        r == encouragement_of(remaining as int),
{
    if remaining == 0 {
        Encouragement::AllDone
    } else if remaining <= 5 {
        Encouragement::AlmostThere
    } else if remaining <= 10 {
        Encouragement::PastHalfway
    } else if remaining <= 15 {
        Encouragement::SolidFoundation
    } else {
        Encouragement::JustStarted
    }
}

/// Filled and empty segment counts of the twenty-segment progress bar:
/// each filled segment stands for five percent, by truncating division,
/// and the two counts always sum to twenty.
pub fn progress_bar_counts(percentage: u32) -> (r: (u32, u32))
    requires
        percentage <= 100,
    ensures
        r.0 == percentage as int / 5,
        r.0 + r.1 == 20,
{
    let filled = percentage / 5;
    (filled, 20 - filled)
}

/// The progress bar as text: filled blocks, then light blocks, between
/// brackets.
pub open spec fn progress_bar_text(filled: int, empty: int) -> Seq<char> {
    seq!['['] + repeated(seq!['█'], filled) + repeated(seq!['░'], empty) + seq![']']
}

/// Renders the progress bar from its two segment counts.
pub fn render_progress_bar(filled: u32, empty: u32) -> (r: String)
    ensures
        r@ == progress_bar_text(filled as int, empty as int),
{
    let mut out = String::new();
    out.append("[");
    push_repeated(&mut out, "█", filled as usize);
    push_repeated(&mut out, "░", empty as usize);
    out.append("]");
    proof {
        reveal_strlit("[");
        reveal_strlit("█");
        reveal_strlit("░");
        reveal_strlit("]");
        assert("█"@ =~= seq!['█']);
        assert("░"@ =~= seq!['░']);
        assert(out@ =~= progress_bar_text(filled as int, empty as int));
    }
    out
}

/// Renders a difficulty rating as that many stars.
pub fn render_stars(difficulty: u8) -> (r: String)
    ensures
        r@ == repeated(seq!['★'], difficulty as int),
{
    let mut out = String::new();
    push_repeated(&mut out, "★", difficulty as usize);
    proof {
        reveal_strlit("★");
        assert("★"@ =~= seq!['★']);
        assert(out@ =~= repeated(seq!['★'], difficulty as int));
    }
    out
}

/// Percentage of `part` in `whole` in tenths of a percent, rounded to
/// the nearest tenth (a half rounds up); zero when `whole` is zero.
pub fn percent_tenths(part: usize, whole: usize) -> (r: usize)
    requires
        part <= whole,
        whole <= 1000000,
    ensures
        whole == 0 ==> r == 0,
        whole > 0 ==> r == (2000 * part + whole) / (2 * whole) as int,
{
    if whole == 0 {
        0
    } else {
        (2000 * part + whole) / (2 * whole)
    }
}

} // verus!
