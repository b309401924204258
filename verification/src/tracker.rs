//! The study-progress tracker: a fixed catalog of 23 chapters with
//! completion flags, plus an append-only log of timestamped notes.

use vstd::prelude::*;
use vstd::string::StrSliceExecFns;
use crate::textutil::{trimmed, note_entry, trim_str, format_note};
use crate::reports::{
    ProgressReport, DifficultyStat, StatsReport,
    LearningStage, Encouragement, stage_of, encouragement_of, learning_stage, encouragement,
    progress_bar_counts, percent_tenths,
};

verus! {

/// One catalog entry: display title, difficulty rating 1-5, completion flag.
#[derive(Debug)]
pub struct Chapter {
    pub title: String,
    pub difficulty: u8,
    pub completed: bool,
}

/// The difficulty rating of each catalog position, in chapter-id order.
pub open spec fn catalog_difficulties() -> Seq<int> {
    seq![1, 2, 2, 4, 5, 3, 3, 4, 5, 5, 4, 5, 3, 3, 5, 4, 5, 5, 5, 4, 4, 3, 2]
}

/// The display title of each catalog position, in chapter-id order.
pub open spec fn catalog_title(i: int) -> Seq<char> {
    if i == 0 {
        "环境搭建和工具链"@
    } else if i == 1 {
        "基础语法"@
    } else if i == 2 {
        "控制流"@
    } else if i == 3 {
        "所有权系统基础"@
    } else if i == 4 {
        "深入理解所有权、借用、引用"@
    } else if i == 5 {
        "结构体和枚举"@
    } else if i == 6 {
        "模式匹配和match表达式"@
    } else if i == 7 {
        "错误处理机制"@
    } else if i == 8 {
        "泛型编程和特质系统"@
    } else if i == 9 {
        "生命周期详解"@
    } else if i == 10 {
        "闭包和迭代器"@
    } else if i == 11 {
        "智能指针详解"@
    } else if i == 12 {
        "模块系统和包管理"@
    } else if i == 13 {
        "集合类型详解"@
    } else if i == 14 {
        "并发编程"@
    } else if i == 15 {
        "异步编程基础"@
    } else if i == 16 {
        "Unsafe Rust和底层编程"@
    } else if i == 17 {
        "宏编程系统"@
    } else if i == 18 {
        "高级特质和类型系统"@
    } else if i == 19 {
        "性能优化技巧"@
    } else if i == 20 {
        "大型项目架构设计"@
    } else if i == 21 {
        "测试和调试最佳实践"@
    } else {
        "部署和分发"@
    }
}

/// Result of marking a chapter complete.
#[derive(Debug)]
pub enum MarkOutcome {
    /// The id is not a key of the catalog.
    NotFound,
    /// The chapter was already completed; nothing changed.
    AlreadyDone { title: String },
    /// The chapter is now completed; `next` suggests the following chapter
    /// by number and title, when there is one.
    Completed { title: String, next: Option<(u8, String)> },
}

/// Result of appending a note.
#[derive(Debug, PartialEq, Eq, Structural)]
pub enum NoteOutcome {
    /// The note text was empty or whitespace-only; nothing changed.
    EmptyInput,
    /// The note was appended.
    Added,
}

/// Number of `true` entries among the first `n` positions.
pub open spec fn count_true_upto(s: Seq<bool>, n: int) -> int
    decreases n,
{
    if n <= 0 {
        0
    } else {
        count_true_upto(s, n - 1) + if 0 <= n - 1 < s.len() && s[n - 1] {
            1int
        } else {
            0int
        }
    }
}

/// Number of `true` entries of a completion map.
pub open spec fn count_true(s: Seq<bool>) -> int {
    count_true_upto(s, s.len() as int)
}

pub proof fn lemma_count_true_upto_bound(s: Seq<bool>, n: int)
    ensures
        0 <= count_true_upto(s, n) <= if n >= 0 { n } else { 0int },
    decreases n,
{
    if n > 0 {
        lemma_count_true_upto_bound(s, n - 1);
    }
}

/// The completed count never exceeds the catalog size.
pub proof fn lemma_count_true_bound(s: Seq<bool>)
    ensures
        0 <= count_true(s) <= s.len(),
{
    lemma_count_true_upto_bound(s, s.len() as int);
}

proof fn lemma_count_true_upto_all_false(s: Seq<bool>, n: int)
    requires
        forall|i: int| 0 <= i < s.len() ==> !s[i],
    ensures
        count_true_upto(s, n) == 0,
    decreases n,
{
    if n > 0 {
        lemma_count_true_upto_all_false(s, n - 1);
    }
}

proof fn lemma_count_true_upto_update(s: Seq<bool>, i: int, n: int)
    requires
        0 <= i < s.len(),
        !s[i],
    ensures
        count_true_upto(s.update(i, true), n) == count_true_upto(s, n) + if i < n {
            1int
        } else {
            0int
        },
    decreases n,
{
    if n > 0 {
        lemma_count_true_upto_update(s, i, n - 1);
    }
}

/// Number of positions among the first `n` whose difficulty is `d`.
pub open spec fn count_level_upto(diffs: Seq<int>, d: int, n: int) -> int
    decreases n,
{
    if n <= 0 {
        0
    } else {
        count_level_upto(diffs, d, n - 1) + if 0 <= n - 1 < diffs.len() && diffs[n - 1] == d {
            1int
        } else {
            0int
        }
    }
}

/// Number of catalog positions whose difficulty is `d`.
pub open spec fn count_level(diffs: Seq<int>, d: int) -> int {
    count_level_upto(diffs, d, diffs.len() as int)
}

/// Number of completed positions among the first `n` whose difficulty is `d`.
pub open spec fn count_level_done_upto(done: Seq<bool>, diffs: Seq<int>, d: int, n: int) -> int
    decreases n,
{
    if n <= 0 {
        0
    } else {
        count_level_done_upto(done, diffs, d, n - 1) + if 0 <= n - 1 < diffs.len() && diffs[n - 1]
            == d && 0 <= n - 1 < done.len() && done[n - 1] {
            1int
        } else {
            0int
        }
    }
}

/// Number of completed catalog positions whose difficulty is `d`.
pub open spec fn count_level_done(done: Seq<bool>, diffs: Seq<int>, d: int) -> int {
    count_level_done_upto(done, diffs, d, diffs.len() as int)
}

/// Whether a character is a decimal digit.
pub open spec fn spec_is_digit(c: char) -> bool {
    48 <= c as int <= 57
}

/// The chapter number that an id string denotes: exactly two decimal
/// digits whose value lies in 1..=23; anything else is no key.
pub open spec fn chapter_number(id: Seq<char>) -> Option<int> {
    if id.len() == 2 && spec_is_digit(id[0]) && spec_is_digit(id[1]) {
        let n = (id[0] as int - 48) * 10 + (id[1] as int - 48);
        if 1 <= n <= 23 {
            Some(n)
        } else {
            None
        }
    } else {
        None
    }
}

/// The completion map after asking to mark `id` complete: unchanged when
/// the id is no key or the chapter was already done, else the one flag set.
pub open spec fn mark_transition(done: Seq<bool>, id: Seq<char>) -> Seq<bool> {
    match chapter_number(id) {
        Some(n) => if done[n - 1] {
            done
        } else {
            done.update(n - 1, true)
        },
        None => done,
    }
}

/// Marking a chapter twice with the same valid id: the chapter is completed
/// after either call, and the second call changes nothing, which
/// `mark_complete` reports as already done.
pub proof fn lemma_mark_idempotent(done: Seq<bool>, id: Seq<char>)
    requires
        done.len() == crate::catalog_size(),
        chapter_number(id) is Some,
    ensures
        ({
            let n = chapter_number(id).unwrap();
            let once = mark_transition(done, id);
            &&& once[n - 1]
            &&& mark_transition(once, id) == once
            &&& count_true(mark_transition(once, id)) == count_true(once)
        }),
{
}

/// An id that is no catalog key changes nothing: the completion map and
/// therefore the completed count stay as they were.
pub proof fn lemma_mark_unknown_id(done: Seq<bool>, id: Seq<char>)
    requires
        chapter_number(id) is None,
    ensures
        mark_transition(done, id) == done,
        count_true(mark_transition(done, id)) == count_true(done),
{
}

/// Relies on std::time::SystemTime: `now`, `duration_since(UNIX_EPOCH)` and
/// `Duration::as_secs` read the host clock as whole seconds since the epoch,
/// zero when the clock reads earlier than the epoch. Nothing is assumed of
/// the value: callers handle every outcome.
#[verifier::external_body]
fn now_epoch_seconds() -> u64 {
    std::time::SystemTime::now()
        .duration_since(std::time::UNIX_EPOCH)
        .map(|d| d.as_secs())
        .unwrap_or(0)
}

fn parse_chapter_id(id: &str) -> (r: Option<u8>)
    ensures
        match r {
            Some(n) => chapter_number(id@) == Some(n as int),
            None => chapter_number(id@) is None,
        },
{
    if id.unicode_len() != 2 {
        return None;
    }
    let d0 = id.get_char(0) as u32;
    let d1 = id.get_char(1) as u32;
    if d0 < 48 || d0 > 57 || d1 < 48 || d1 > 57 {
        return None;
    }
    let n = ((d0 - 48) * 10 + (d1 - 48)) as u8;
    if 1 <= n && n <= 23 {
        Some(n)
    } else {
        None
    }
}

fn chapter_entry(title: &str, difficulty: u8) -> (c: Chapter)
    ensures
        c.title@ == title@,
        c.difficulty == difficulty,
        !c.completed,
{
    Chapter { title: String::from_str(title), difficulty, completed: false }
}

/// The tracker: the fixed chapter catalog and the append-only note log.
pub struct StudyTracker {
    chapters: Vec<Chapter>,
    notes: Vec<String>,
}

impl StudyTracker {
    #[verifier::type_invariant]
    spec fn wf(self) -> bool {
        &&& self.chapters@.len() == crate::catalog_size()
        &&& forall|i: int|
            0 <= i < crate::catalog_size() ==> (#[trigger] self.chapters@[i]).difficulty as int
                == catalog_difficulties()[i]
    }

    /// The completion flag of each catalog position, in chapter-id order.
    pub closed spec fn completions(self) -> Seq<bool> {
        Seq::new(self.chapters@.len(), |i: int| self.chapters@[i].completed)
    }

    /// The title of the catalog position `i`.
    pub closed spec fn title_of(self, i: int) -> Seq<char> {
        self.chapters@[i].title@
    }

    /// The note log, oldest first.
    pub closed spec fn note_log(self) -> Seq<Seq<char>> {
        Seq::new(self.notes@.len(), |i: int| self.notes@[i]@)
    }

    /// A fresh tracker: the full catalog, nothing completed, no notes.
    pub fn new() -> (t: StudyTracker)
        ensures
            t.completions().len() == crate::catalog_size(),
            forall|i: int| 0 <= i < crate::catalog_size() ==> !(#[trigger] t.completions()[i]),
            count_true(t.completions()) == 0,
            forall|i: int|
                0 <= i < crate::catalog_size() ==> #[trigger] t.title_of(i) == catalog_title(i),
            t.note_log() == Seq::<Seq<char>>::empty(),
    {
        let mut chapters: Vec<Chapter> = Vec::new();
        chapters.push(chapter_entry("环境搭建和工具链", 1));
        chapters.push(chapter_entry("基础语法", 2));
        chapters.push(chapter_entry("控制流", 2));
        chapters.push(chapter_entry("所有权系统基础", 4));
        chapters.push(chapter_entry("深入理解所有权、借用、引用", 5));
        chapters.push(chapter_entry("结构体和枚举", 3));
        chapters.push(chapter_entry("模式匹配和match表达式", 3));
        chapters.push(chapter_entry("错误处理机制", 4));
        chapters.push(chapter_entry("泛型编程和特质系统", 5));
        chapters.push(chapter_entry("生命周期详解", 5));
        chapters.push(chapter_entry("闭包和迭代器", 4));
        chapters.push(chapter_entry("智能指针详解", 5));
        chapters.push(chapter_entry("模块系统和包管理", 3));
        chapters.push(chapter_entry("集合类型详解", 3));
        chapters.push(chapter_entry("并发编程", 5));
        chapters.push(chapter_entry("异步编程基础", 4));
        chapters.push(chapter_entry("Unsafe Rust和底层编程", 5));
        chapters.push(chapter_entry("宏编程系统", 5));
        chapters.push(chapter_entry("高级特质和类型系统", 5));
        chapters.push(chapter_entry("性能优化技巧", 4));
        chapters.push(chapter_entry("大型项目架构设计", 4));
        chapters.push(chapter_entry("测试和调试最佳实践", 3));
        chapters.push(chapter_entry("部署和分发", 2));
        let t = StudyTracker { chapters, notes: Vec::new() };
        proof {
            assert(forall|i: int|
                0 <= i < crate::catalog_size() ==> !(#[trigger] t.completions()[i]));
            lemma_count_true_upto_all_false(t.completions(), 23);
            assert(t.note_log() =~= Seq::<Seq<char>>::empty());
        }
        t
    }

    /// Number of chapters in the catalog.
    pub fn total_count(&self) -> (r: usize)
        ensures
            r == crate::catalog_size(),
    {
        proof {
            use_type_invariant(&*self);
        }
        self.chapters.len()
    }

    /// Number of completed chapters.
    pub fn completed_count(&self) -> (r: usize)
        ensures
            r == count_true(self.completions()),
    {
        proof {
            use_type_invariant(&*self);
        }
        let n = self.chapters.len();
        let mut count: usize = 0;
        let mut i: usize = 0;
        while i < n
            invariant
                i <= n,
                n == self.chapters@.len(),
                count == count_true_upto(self.completions(), i as int),
                count <= i,
            decreases n - i,
        {
            if self.chapters[i].completed {
                count = count + 1;
            }
            i = i + 1;
        }
        count
    }

    /// The chapter at catalog position `idx` (position, not id: position 0
    /// holds chapter "01").
    pub fn chapter(&self, idx: usize) -> (c: &Chapter)
        requires
            idx < crate::catalog_size(),
        ensures
            c.completed == self.completions()[idx as int],
            c.title@ == self.title_of(idx as int),
            c.difficulty as int == catalog_difficulties()[idx as int],
    {
        proof {
            use_type_invariant(&*self);
        }
        &self.chapters[idx]
    }

    /// Marks the chapter `id` complete. An unknown id or an already
    /// completed chapter changes nothing and is reported as such; otherwise
    /// the one flag is set and the next chapter, if any, is suggested.
    pub fn mark_complete(&mut self, id: &str) -> (r: MarkOutcome)
        ensures
            final(self).completions() == mark_transition(old(self).completions(), id@),
            final(self).note_log() == old(self).note_log(),
            forall|i: int|
                0 <= i < crate::catalog_size() ==> final(self).title_of(i) == old(self).title_of(
                    i,
                ),
            match chapter_number(id@) {
                None => r is NotFound && *final(self) == *old(self),
                Some(n) => if old(self).completions()[n - 1] {
                    &&& *final(self) == *old(self)
                    &&& r matches MarkOutcome::AlreadyDone { title } && title@ == old(
                        self,
                    ).title_of(n - 1)
                } else {
                    &&& count_true(final(self).completions()) == count_true(
                        old(self).completions(),
                    ) + 1
                    &&& r matches MarkOutcome::Completed { title, next } && title@ == old(
                        self,
                    ).title_of(n - 1) && (if n < 23 {
                        next matches Some(p) && p.0 == n + 1 && p.1@ == old(self).title_of(n)
                    } else {
                        next is None
                    })
                },
            },
    {
        proof {
            use_type_invariant(&*self);
        }
        match parse_chapter_id(id) {
            None => MarkOutcome::NotFound,
            Some(n) => {
                let idx = (n - 1) as usize;
                if self.chapters[idx].completed {
                    let title = self.chapters[idx].title.clone();
                    MarkOutcome::AlreadyDone { title }
                } else {
                    let title = self.chapters[idx].title.clone();
                    let next = if n < 23 {
                        let next_title = self.chapters[idx + 1].title.clone();
                        Some(((n + 1) as u8, next_title))
                    } else {
                        None
                    };
                    let mut updated: Vec<Chapter> = Vec::new();
                    let mut i: usize = 0;
                    while i < 23
                        invariant
                            i <= 23,
                            idx < 23,
                            self.chapters@.len() == 23,
                            updated@.len() == i,
                            forall|j: int|
                                0 <= j < i ==> (#[trigger] updated@[j]).title
                                    == self.chapters@[j].title,
                            forall|j: int|
                                0 <= j < i ==> (#[trigger] updated@[j]).difficulty
                                    == self.chapters@[j].difficulty,
                            forall|j: int|
                                0 <= j < i ==> (#[trigger] updated@[j]).completed == (j == idx
                                    || self.chapters@[j].completed),
                        decreases 23 - i,
                    {
                        let c = &self.chapters[i];
                        let completed = i == idx || c.completed;
                        updated.push(
                            Chapter { title: c.title.clone(), difficulty: c.difficulty, completed },
                        );
                        i = i + 1;
                    }
                    self.chapters = updated;
                    proof {
                        assert(final(self).completions() =~= old(self).completions().update(
                            idx as int,
                            true,
                        ));
                        lemma_count_true_upto_update(old(self).completions(), idx as int, 23);
                    }
                    MarkOutcome::Completed { title, next }
                }
            },
        }
    }

    /// Appends a note, prefixed with the host clock's time of day as
    /// `[HH:MM] `. Empty or whitespace-only text is rejected unchanged.
    pub fn add_note(&mut self, text: &str) -> (r: NoteOutcome)
        ensures
            final(self).completions() == old(self).completions(),
            forall|i: int|
                0 <= i < crate::catalog_size() ==> final(self).title_of(i) == old(self).title_of(
                    i,
                ),
            trimmed(text@).len() == 0 ==> *final(self) == *old(self) && r == NoteOutcome::EmptyInput,
            trimmed(text@).len() > 0 ==> r == NoteOutcome::Added && exists|hh: int, mm: int|
                0 <= hh < 24 && 0 <= mm < 60 && final(self).note_log() == old(
                    self,
                ).note_log().push(note_entry(hh, mm, trimmed(text@))),
    {
        proof {
            use_type_invariant(&*self);
        }
        let t = trim_str(text);
        if t.is_empty() {
            return NoteOutcome::EmptyInput;
        }
        let secs = now_epoch_seconds() % 86400;
        let entry = format_note(secs, t);
        let mut appended: Vec<String> = Vec::new();
        core::mem::swap(&mut appended, &mut self.notes);
        appended.push(entry);
        core::mem::swap(&mut appended, &mut self.notes);
        proof {
            let hh = secs as int / 3600;
            let mm = (secs as int % 3600) / 60;
            assert(0 <= hh < 24 && 0 <= mm < 60);
            assert(final(self).note_log() =~= old(self).note_log().push(
                note_entry(hh, mm, trimmed(text@)),
            ));
        }
        NoteOutcome::Added
    }

    /// Aggregate progress: counts, the truncated completion percentage, the
    /// quantized twenty-segment bar, and the learning stage.
    pub fn progress_summary(&self) -> (r: ProgressReport)
        ensures
            r.completed == count_true(self.completions()),
            r.total == crate::catalog_size(),
            r.percentage == count_true(self.completions()) * 100 / crate::catalog_size(),
            r.percentage <= 100,
            r.filled == r.percentage as int / 5,
            r.filled + r.empty == 20,
            r.stage == stage_of(r.completed as int),
    {
        proof {
            use_type_invariant(&*self);
        }
        let completed = self.completed_count();
        let total = self.total_count();
        proof {
            lemma_count_true_bound(self.completions());
        }
        let percentage = ((completed * 100) / 23) as u32;
        let (filled, empty) = progress_bar_counts(percentage);
        let stage = learning_stage(completed);
        ProgressReport { completed, total, percentage, filled, empty, stage }
    }

    /// Overall and per-difficulty completion statistics, remaining-week
    /// estimates in tenths of a week at paces of three, two and one
    /// chapters per week, and the encouragement band for what remains.
    pub fn statistics(&self) -> (r: StatsReport)
        ensures
            r.completed == count_true(self.completions()),
            r.total == crate::catalog_size(),
            r.completed + r.remaining == r.total,
            r.note_count == self.note_log().len(),
            r.by_difficulty@.len() == 5,
            forall|k: int|
                0 <= k < 5 ==> {
                    let st = #[trigger] r.by_difficulty@[k];
                    &&& st.level as int == k + 1
                    &&& st.total == count_level(catalog_difficulties(), k + 1)
                    &&& st.completed == count_level_done(
                        self.completions(),
                        catalog_difficulties(),
                        k + 1,
                    )
                    &&& st.percent_tenths == (if st.total == 0 {
                        0int
                    } else {
                        (2000 * st.completed + st.total) / (2 * st.total as int)
                    })
                },
            r.weeks_pace3_tenths == (r.remaining * 20 + 3) / 6,
            r.weeks_pace2_tenths == (r.remaining * 20 + 2) / 4,
            r.weeks_pace1_tenths == r.remaining * 10,
            r.encouragement == encouragement_of(r.remaining as int),
    {
        proof {
            use_type_invariant(&*self);
        }
        let completed = self.completed_count();
        proof {
            lemma_count_true_bound(self.completions());
        }
        let remaining = 23 - completed;
        let mut by_difficulty: Vec<DifficultyStat> = Vec::new();
        let mut level: u8 = 1;
        while level <= 5
            invariant
                1 <= level <= 6,
                by_difficulty@.len() == level - 1,
                self.chapters@.len() == 23,
                forall|j: int|
                    0 <= j < 23 ==> (#[trigger] self.chapters@[j]).difficulty as int
                        == catalog_difficulties()[j],
                forall|k: int|
                    0 <= k < level - 1 ==> {
                        let st = #[trigger] by_difficulty@[k];
                        &&& st.level as int == k + 1
                        &&& st.total == count_level(catalog_difficulties(), k + 1)
                        &&& st.completed == count_level_done(
                            self.completions(),
                            catalog_difficulties(),
                            k + 1,
                        )
                        &&& st.percent_tenths == (if st.total == 0 {
                            0int
                        } else {
                            (2000 * st.completed + st.total) / (2 * st.total as int)
                        })
                    },
            decreases 6 - level,
        {
            let mut tot: usize = 0;
            let mut comp: usize = 0;
            let mut i: usize = 0;
            while i < 23
                invariant
                    i <= 23,
                    comp <= tot <= i,
                    1 <= level <= 5,
                    self.chapters@.len() == 23,
                    forall|j: int|
                        0 <= j < 23 ==> (#[trigger] self.chapters@[j]).difficulty as int
                            == catalog_difficulties()[j],
                    tot == count_level_upto(catalog_difficulties(), level as int, i as int),
                    comp == count_level_done_upto(
                        self.completions(),
                        catalog_difficulties(),
                        level as int,
                        i as int,
                    ),
                decreases 23 - i,
            {
                let c = &self.chapters[i];
                if c.difficulty == level {
                    tot = tot + 1;
                    if c.completed {
                        comp = comp + 1;
                    }
                }
                i = i + 1;
            }
            let pt = percent_tenths(comp, tot);
            by_difficulty.push(
                DifficultyStat { level, completed: comp, total: tot, percent_tenths: pt },
            );
            level = level + 1;
        }
        let note_count = self.notes.len();
        let encouragement_band = encouragement(remaining);
        StatsReport {
            completed,
            remaining,
            total: 23,
            note_count,
            by_difficulty,
            weeks_pace3_tenths: (remaining * 20 + 3) / 6,
            weeks_pace2_tenths: (remaining * 20 + 2) / 4,
            weeks_pace1_tenths: remaining * 10,
            encouragement: encouragement_band,
        }
    }

    /// Number of notes taken so far.
    pub fn note_count(&self) -> (r: usize)
        ensures
            r == self.note_log().len(),
    {
        self.notes.len()
    }

    /// The notes in insertion order; display indices are the caller's,
    /// derived from position.
    pub fn list_notes(&self) -> (r: &Vec<String>)
        ensures
            r@.len() == self.note_log().len(),
            forall|i: int| 0 <= i < r@.len() ==> (#[trigger] r@[i])@ == self.note_log()[i],
    {
        &self.notes
    }
}

} // verus!
