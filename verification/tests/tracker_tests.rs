use rust_learning::tracker::{MarkOutcome, NoteOutcome, StudyTracker};
use rust_learning::reports::{Encouragement, LearningStage, learning_stage, encouragement,
    progress_bar_counts, percent_tenths, render_progress_bar, render_stars};

#[test]
fn test_new_tracker_counts() {
    let t = StudyTracker::new();
    assert_eq!(t.completed_count(), 0);
    assert_eq!(t.total_count(), 23);
    assert_eq!(t.note_count(), 0);
    assert!(t.list_notes().is_empty());
}

#[test]
fn test_mark_complete_success_then_already_done() {
    let mut t = StudyTracker::new();
    let first = t.mark_complete("01");
    match first {
        MarkOutcome::Completed { title, next } => {
            assert_eq!(title, "环境搭建和工具链");
            let (num, next_title) = next.expect("chapter 01 has a next chapter");
            assert_eq!(num, 2);
            assert_eq!(next_title, "基础语法");
        }
        other => panic!("expected Completed, got {:?}", other),
    }
    assert_eq!(t.completed_count(), 1);

    let second = t.mark_complete("01");
    match second {
        MarkOutcome::AlreadyDone { title } => assert_eq!(title, "环境搭建和工具链"),
        other => panic!("expected AlreadyDone, got {:?}", other),
    }
    assert_eq!(t.completed_count(), 1);
}

#[test]
fn test_mark_complete_last_chapter_has_no_hint() {
    let mut t = StudyTracker::new();
    match t.mark_complete("23") {
        MarkOutcome::Completed { title, next } => {
            assert_eq!(title, "部署和分发");
            assert!(next.is_none());
        }
        other => panic!("expected Completed, got {:?}", other),
    }
}

#[test]
fn test_mark_complete_unknown_ids() {
    let mut t = StudyTracker::new();
    for id in ["99", "00", "24", "5", "001", "ab", "", " 01", "1x"] {
        assert!(
            matches!(t.mark_complete(id), MarkOutcome::NotFound),
            "id {:?} should not be found",
            id
        );
        assert_eq!(t.completed_count(), 0, "count must be unchanged for {:?}", id);
    }
}

#[test]
fn test_progress_bar_counts_quantization() {
    for pct in 0u32..=100 {
        let (filled, empty) = progress_bar_counts(pct);
        assert_eq!(filled, pct / 5);
        assert_eq!(filled + empty, 20);
    }
}

#[test]
fn test_progress_summary_fresh() {
    let t = StudyTracker::new();
    let p = t.progress_summary();
    assert_eq!(p.completed, 0);
    assert_eq!(p.total, 23);
    assert_eq!(p.percentage, 0);
    assert_eq!(p.filled, 0);
    assert_eq!(p.empty, 20);
    assert_eq!(p.stage, LearningStage::Foundations);
}

#[test]
fn test_progress_summary_after_marks() {
    let mut t = StudyTracker::new();
    for id in ["01", "02", "03", "04", "05", "06"] {
        assert!(matches!(t.mark_complete(id), MarkOutcome::Completed { .. }));
    }
    let p = t.progress_summary();
    assert_eq!(p.completed, 6);
    // 6 / 23 == 0.2608..., truncated to 26 percent, 5 filled segments.
    assert_eq!(p.percentage, 26);
    assert_eq!(p.filled, 5);
    assert_eq!(p.empty, 15);
    assert_eq!(p.stage, LearningStage::CoreConcepts);
}

#[test]
fn test_learning_stage_breakpoints() {
    assert_eq!(learning_stage(0), LearningStage::Foundations);
    assert_eq!(learning_stage(4), LearningStage::Foundations);
    assert_eq!(learning_stage(5), LearningStage::CoreConcepts);
    assert_eq!(learning_stage(8), LearningStage::CoreConcepts);
    assert_eq!(learning_stage(9), LearningStage::AdvancedFeatures);
    assert_eq!(learning_stage(12), LearningStage::AdvancedFeatures);
    assert_eq!(learning_stage(13), LearningStage::PracticalSkills);
    assert_eq!(learning_stage(16), LearningStage::PracticalSkills);
    assert_eq!(learning_stage(17), LearningStage::ExpertTrack);
    assert_eq!(learning_stage(20), LearningStage::ExpertTrack);
    assert_eq!(learning_stage(21), LearningStage::Mastery);
    assert_eq!(learning_stage(23), LearningStage::Mastery);
}

#[test]
fn test_encouragement_breakpoints() {
    assert_eq!(encouragement(0), Encouragement::AllDone);
    assert_eq!(encouragement(1), Encouragement::AlmostThere);
    assert_eq!(encouragement(5), Encouragement::AlmostThere);
    assert_eq!(encouragement(6), Encouragement::PastHalfway);
    assert_eq!(encouragement(10), Encouragement::PastHalfway);
    assert_eq!(encouragement(11), Encouragement::SolidFoundation);
    assert_eq!(encouragement(15), Encouragement::SolidFoundation);
    assert_eq!(encouragement(16), Encouragement::JustStarted);
    assert_eq!(encouragement(23), Encouragement::JustStarted);
}

#[test]
fn test_add_note_rejects_empty_input() {
    let mut t = StudyTracker::new();
    assert_eq!(t.add_note(""), NoteOutcome::EmptyInput);
    assert_eq!(t.note_count(), 0);
    assert_eq!(t.add_note("   "), NoteOutcome::EmptyInput);
    assert_eq!(t.note_count(), 0);
    assert_eq!(t.add_note("\t\n  "), NoteOutcome::EmptyInput);
    assert_eq!(t.note_count(), 0);
}

#[test]
fn test_add_note_appends_one_entry() {
    let mut t = StudyTracker::new();
    assert_eq!(t.add_note("hello"), NoteOutcome::Added);
    assert_eq!(t.note_count(), 1);
    let notes = t.list_notes();
    assert_eq!(notes.len(), 1);
    assert!(notes[0].ends_with("hello"));
}

#[test]
fn test_note_entry_timestamp_format() {
    let mut t = StudyTracker::new();
    assert_eq!(t.add_note("first"), NoteOutcome::Added);
    let notes = t.list_notes();
    assert_eq!(notes.len(), 1);
    let entry = &notes[0];
    assert!(entry.contains("first"));
    // Shape: [HH:MM] first, with HH in 00-23 and MM in 00-59.
    let chars: Vec<char> = entry.chars().collect();
    assert_eq!(chars.len(), 8 + "first".chars().count());
    assert_eq!(chars[0], '[');
    assert!(chars[1].is_ascii_digit() && chars[2].is_ascii_digit());
    assert_eq!(chars[3], ':');
    assert!(chars[4].is_ascii_digit() && chars[5].is_ascii_digit());
    assert_eq!(chars[6], ']');
    assert_eq!(chars[7], ' ');
    let hh = chars[1].to_digit(10).unwrap() * 10 + chars[2].to_digit(10).unwrap();
    let mm = chars[4].to_digit(10).unwrap() * 10 + chars[5].to_digit(10).unwrap();
    assert!(hh < 24);
    assert!(mm < 60);
    assert_eq!(&entry[8..], "first");
}

#[test]
fn test_add_note_trims_whitespace() {
    let mut t = StudyTracker::new();
    assert_eq!(t.add_note("  padded note \n"), NoteOutcome::Added);
    let notes = t.list_notes();
    assert!(notes[0].ends_with("] padded note"));
}

#[test]
fn test_notes_keep_insertion_order() {
    let mut t = StudyTracker::new();
    assert_eq!(t.add_note("one"), NoteOutcome::Added);
    assert_eq!(t.add_note("two"), NoteOutcome::Added);
    assert_eq!(t.add_note("three"), NoteOutcome::Added);
    let notes = t.list_notes();
    assert_eq!(notes.len(), 3);
    assert!(notes[0].ends_with("one"));
    assert!(notes[1].ends_with("two"));
    assert!(notes[2].ends_with("three"));
}

#[test]
fn test_statistics_fresh_tracker() {
    let t = StudyTracker::new();
    let st = t.statistics();
    assert_eq!(st.completed, 0);
    assert_eq!(st.remaining, 23);
    assert_eq!(st.total, 23);
    assert_eq!(st.note_count, 0);
    assert_eq!(st.by_difficulty.len(), 5);
    let totals: Vec<usize> = st.by_difficulty.iter().map(|d| d.total).collect();
    assert_eq!(totals, vec![1, 3, 5, 6, 8]);
    for d in &st.by_difficulty {
        assert_eq!(d.completed, 0);
        assert_eq!(d.percent_tenths, 0);
    }
    assert_eq!(st.weeks_pace3_tenths, 77); // 23 / 3 weeks, nearest tenth
    assert_eq!(st.weeks_pace2_tenths, 115);
    assert_eq!(st.weeks_pace1_tenths, 230);
    assert_eq!(st.encouragement, Encouragement::JustStarted);
}

#[test]
fn test_statistics_after_first_chapter() {
    let mut t = StudyTracker::new();
    assert!(matches!(t.mark_complete("01"), MarkOutcome::Completed { .. }));
    assert!(matches!(t.mark_complete("01"), MarkOutcome::AlreadyDone { .. }));
    assert_eq!(t.completed_count(), 1);
    let st = t.statistics();
    assert_eq!(st.remaining, 22);
    // Chapter "01" has difficulty 1; that level holds exactly one chapter.
    assert_eq!(st.by_difficulty[0].level, 1);
    assert_eq!(st.by_difficulty[0].completed, 1);
    assert_eq!(st.by_difficulty[0].total, 1);
    assert_eq!(st.by_difficulty[0].percent_tenths, 1000);
    assert_eq!(st.by_difficulty[1].completed, 0);
}

#[test]
fn test_statistics_all_completed() {
    let mut t = StudyTracker::new();
    for n in 1..=23 {
        let id = format!("{:02}", n);
        assert!(matches!(t.mark_complete(&id), MarkOutcome::Completed { .. }));
    }
    let st = t.statistics();
    assert_eq!(st.completed, 23);
    assert_eq!(st.remaining, 0);
    assert_eq!(st.weeks_pace3_tenths, 0);
    assert_eq!(st.weeks_pace2_tenths, 0);
    assert_eq!(st.weeks_pace1_tenths, 0);
    assert_eq!(st.encouragement, Encouragement::AllDone);
    for d in &st.by_difficulty {
        assert_eq!(d.completed, d.total);
        assert_eq!(d.percent_tenths, 1000);
    }
    let p = t.progress_summary();
    assert_eq!(p.percentage, 100);
    assert_eq!(p.filled, 20);
    assert_eq!(p.empty, 0);
    assert_eq!(p.stage, LearningStage::Mastery);
}

#[test]
fn test_chapter_getter() {
    let mut t = StudyTracker::new();
    let c = t.chapter(0);
    assert_eq!(c.title, "环境搭建和工具链");
    assert_eq!(c.difficulty, 1);
    assert!(!c.completed);
    t.mark_complete("04");
    let c = t.chapter(3);
    assert_eq!(c.title, "所有权系统基础");
    assert_eq!(c.difficulty, 4);
    assert!(c.completed);
}

#[test]
fn test_render_progress_bar() {
    assert_eq!(render_progress_bar(0, 20), "[░░░░░░░░░░░░░░░░░░░░]");
    assert_eq!(render_progress_bar(5, 15), "[█████░░░░░░░░░░░░░░░]");
    assert_eq!(render_progress_bar(20, 0), "[████████████████████]");
}

#[test]
fn test_render_stars() {
    assert_eq!(render_stars(0), "");
    assert_eq!(render_stars(1), "★");
    assert_eq!(render_stars(5), "★★★★★");
}

#[test]
fn test_percent_tenths() {
    assert_eq!(percent_tenths(0, 0), 0);
    assert_eq!(percent_tenths(1, 3), 333);
    assert_eq!(percent_tenths(2, 3), 667); // 66.66..% rounds to 66.7%
    assert_eq!(percent_tenths(3, 3), 1000);
    assert_eq!(percent_tenths(1, 8), 125);
    assert_eq!(percent_tenths(1, 6), 167); // 16.66..% rounds to 16.7%
}
