//! Progress bookkeeping for resuming a run: which stages are done, which
//! segments of the per-segment stages are done, and the hashes of the novel
//! and configuration that the progress belongs to.

use std::collections::HashSet;

use sha2::Digest;

use vstd::prelude::*;

use crate::error::StoryorError;
use crate::text::{join_path, join_path_spec};

verus! {

/// Completion of a whole stage.
#[derive(Debug, Clone, Copy, PartialEq, Eq, Structural)]
pub enum StageStatus {
    /// Not started.
    Pending,
    /// Completed.
    Done,
}

impl Default for StageStatus {
    fn default() -> (s: StageStatus)
        ensures
            s == StageStatus::Pending,
    {
        StageStatus::Pending
    }
}

/// Non-decreasing order.
pub open spec fn sorted_nondec(s: Seq<usize>) -> bool {
    forall|i: int, j: int| 0 <= i < j < s.len() ==> #[trigger] s[i] <= #[trigger] s[j]
}

/// Completion of a per-segment stage: the completed segment indices and the
/// number of segments.
#[derive(Debug, Clone)]
pub struct SegmentStage {
    pub completed: Vec<usize>,
    pub total: usize,
}

/// `s` sorted: the sorted sequence with the same elements.
fn sort_indices(s: &Vec<usize>) -> (r: Vec<usize>)
    ensures
        sorted_nondec(r@),
        r@.to_multiset() == s@.to_multiset(),
{
    broadcast use vstd::seq_lib::group_to_multiset_ensures;

    let mut out: Vec<usize> = Vec::new();
    let mut i: usize = 0;
    assert(s@.take(0) =~= Seq::<usize>::empty());
    while i < s.len()
        invariant
            i <= s@.len(),
            sorted_nondec(out@),
            out@.to_multiset() == s@.take(i as int).to_multiset(),
        decreases s@.len() - i,
    {
        let x = s[i];
        let mut p: usize = 0;
        while p < out.len() && out[p] <= x
            invariant
                p <= out@.len(),
                forall|k: int| 0 <= k < p ==> out@[k] <= x,
            decreases out@.len() - p,
        {
            p = p + 1;
        }
        let ghost before = out@;
        out.insert(p, x);
        assert(out@ == before.insert(p as int, x));
        assert(sorted_nondec(out@)) by {
            assert forall|a: int, b: int| 0 <= a < b < out@.len() implies #[trigger] out@[a] <= #[trigger] out@[b] by {
                if b == p {
                } else if a == p {
                    assert(before[p as int] > x);
                    assert(before[p as int] <= before[b - 1]);
                } else if a < p && b > p {
                    assert(before[a] <= x);
                    if (p as int) < b - 1 {
                        assert(before[p as int] <= before[b - 1]);
                    }
                }
            }
        }
        assert(s@.take(i + 1) =~= s@.take(i as int).push(x));
        proof {
            vstd::seq_lib::to_multiset_insert(before, p as int, x);
            vstd::seq_lib::to_multiset_build(s@.take(i as int), x);
        }
        i = i + 1;
    }
    assert(s@.take(i as int) =~= s@);
    out
}

impl SegmentStage {
    /// The completed indices as a set.
    pub fn completed_set(&self) -> (r: HashSet<usize>)
        ensures
            r@ == self.completed@.to_set(),
    {
        broadcast use vstd::std_specs::hash::group_hash_axioms;

        let mut r: HashSet<usize> = HashSet::new();
        let mut i: usize = 0;
        while i < self.completed.len()
            invariant
                i <= self.completed@.len(),
                r@ == self.completed@.take(i as int).to_set(),
            decreases self.completed@.len() - i,
        {
            r.insert(self.completed[i]);
            proof {
                let t = self.completed@.take(i + 1);
                assert(t =~= self.completed@.take(i as int).push(self.completed@[i as int]));
                self.completed@.take(i as int).lemma_push_to_set_commute(self.completed@[i as int]);
            }
            i = i + 1;
        }
        assert(self.completed@.take(i as int) =~= self.completed@);
        r
    }

    /// Whether all segments are done: there is at least one, and at least
    /// as many indices are completed as there are segments.
    pub fn is_done(&self) -> (b: bool)
        ensures
            b == (self.total > 0 && self.completed@.len() >= self.total),
    {
        self.total > 0 && self.completed.len() >= self.total
    }

    /// Records segment `index` as completed; the completed indices are then
    /// sorted. An index already recorded leaves the stage unchanged.
    pub fn mark_done(&mut self, index: usize)
        ensures
            final(self).total == old(self).total,
            old(self).completed@.contains(index) ==> final(self).completed@ == old(self).completed@,
            !old(self).completed@.contains(index) ==> {
                &&& sorted_nondec(final(self).completed@)
                &&& final(self).completed@.to_multiset() == old(self).completed@.push(
                    index,
                ).to_multiset()
            },
    {
        if !vec_contains(&self.completed, index) {
            self.completed.push(index);
            self.completed = sort_indices(&self.completed);
        }
    }
}

/// Whether `v` holds `x`.
fn vec_contains(v: &Vec<usize>, x: usize) -> (b: bool)
    ensures
        b == v@.contains(x),
{
    let mut i: usize = 0;
    while i < v.len()
        invariant
            i <= v@.len(),
            forall|k: int| 0 <= k < i ==> v@[k] != x,
        decreases v@.len() - i,
    {
        if v[i] == x {
            return true;
        }
        i = i + 1;
    }
    false
}

} // verus!

verus! {

/// The value of a [`SegmentStage`].
pub struct SegmentStageView {
    pub completed: Seq<usize>,
    pub total: nat,
}

impl View for SegmentStage {
    type V = SegmentStageView;

    open spec fn view(&self) -> SegmentStageView {
        SegmentStageView { completed: self.completed@, total: self.total as nat }
    }
}

impl Default for SegmentStage {
    fn default() -> (s: SegmentStage)
        ensures
            s@ == (SegmentStageView { completed: Seq::empty(), total: 0 }),
    {
        let s = SegmentStage { completed: Vec::new(), total: 0 };
        assert(s@ =~= (SegmentStageView { completed: Seq::empty(), total: 0 }));
        s
    }
}

/// Completion of every stage.
#[derive(Debug, Clone)]
pub struct Stages {
    pub chapters: StageStatus,
    pub summaries: StageStatus,
    pub segments: StageStatus,
    pub scripts: SegmentStage,
    pub audio: SegmentStage,
}

/// The value of [`Stages`].
pub struct StagesView {
    pub chapters: StageStatus,
    pub summaries: StageStatus,
    pub segments: StageStatus,
    pub scripts: SegmentStageView,
    pub audio: SegmentStageView,
}

impl View for Stages {
    type V = StagesView;

    open spec fn view(&self) -> StagesView {
        StagesView {
            chapters: self.chapters,
            summaries: self.summaries,
            segments: self.segments,
            scripts: self.scripts@,
            audio: self.audio@,
        }
    }
}

/// The stages of a run that has not started: everything pending, no
/// segment counted or completed.
pub open spec fn initial_stages() -> StagesView {
    StagesView {
        chapters: StageStatus::Pending,
        summaries: StageStatus::Pending,
        segments: StageStatus::Pending,
        scripts: SegmentStageView { completed: Seq::empty(), total: 0 },
        audio: SegmentStageView { completed: Seq::empty(), total: 0 },
    }
}

impl Default for Stages {
    fn default() -> (s: Stages)
        ensures
            s@ == initial_stages(),
    {
        Stages {
            chapters: StageStatus::Pending,
            summaries: StageStatus::Pending,
            segments: StageStatus::Pending,
            scripts: SegmentStage::default(),
            audio: SegmentStage::default(),
        }
    }
}

/// The persisted progress of a run.
#[derive(Debug, Clone)]
pub struct Checkpoint {
    pub novel_hash: String,
    pub config_hash: String,
    pub stages: Stages,
}

/// The value of a [`Checkpoint`].
pub struct CheckpointView {
    pub novel_hash: Seq<char>,
    pub config_hash: Seq<char>,
    pub stages: StagesView,
}

impl View for Checkpoint {
    type V = CheckpointView;

    open spec fn view(&self) -> CheckpointView {
        CheckpointView {
            novel_hash: self.novel_hash@,
            config_hash: self.config_hash@,
            stages: self.stages@,
        }
    }
}

/// The progress of a run that has not started.
pub open spec fn initial_checkpoint() -> CheckpointView {
    CheckpointView { novel_hash: Seq::empty(), config_hash: Seq::empty(), stages: initial_stages() }
}

impl Default for Checkpoint {
    fn default() -> (c: Checkpoint)
        ensures
            c@ == initial_checkpoint(),
    {
        Checkpoint { novel_hash: String::new(), config_hash: String::new(), stages: Stages::default() }
    }
}

/// Keeps the progress of a run, to be saved at `path`.
pub struct CheckpointManager {
    path: String,
    state: Checkpoint,
    /// Whether existing progress is ignored (a forced full run).
    force: bool,
}

/// The value of a [`CheckpointManager`].
pub struct ManagerView {
    pub path: Seq<char>,
    pub state: CheckpointView,
    pub force: bool,
}

impl View for CheckpointManager {
    type V = ManagerView;

    closed spec fn view(&self) -> ManagerView {
        ManagerView { path: self.path@, state: self.state@, force: self.force }
    }
}

/// The manager that loading yields: the progress read from disk, unless the
/// run is forced or nothing was read.
pub open spec fn load_spec(output_dir: Seq<char>, existing: Option<CheckpointView>, force: bool) -> ManagerView {
    ManagerView {
        path: join_path_spec(output_dir, "checkpoint.json"@),
        state: if force || existing is None {
            initial_checkpoint()
        } else {
            existing->0
        },
        force,
    }
}

/// What `validate` does: on a first (or forced) run it records the hashes
/// and answers `false`; otherwise it answers whether both hashes are
/// unchanged, and when one changed it records the new hashes and resets all
/// stages.
pub open spec fn validate_spec(m: ManagerView, novel_hash: Seq<char>, config_hash: Seq<char>) -> (ManagerView, bool) {
    if m.force || m.state.novel_hash.len() == 0 {
        (
            ManagerView {
                state: CheckpointView { novel_hash, config_hash, stages: m.state.stages },
                ..m
            },
            false,
        )
    } else if m.state.novel_hash == novel_hash && m.state.config_hash == config_hash {
        (m, true)
    } else {
        (
            ManagerView {
                state: CheckpointView { novel_hash, config_hash, stages: initial_stages() },
                ..m
            },
            false,
        )
    }
}

/// The state with a stage record replaced.
pub open spec fn with_stages(m: ManagerView, stages: StagesView) -> ManagerView {
    ManagerView { state: CheckpointView { stages, ..m.state }, ..m }
}

impl CheckpointManager {
    /// Sets up the manager for `output_dir` from the progress that was read
    /// from its checkpoint file (`None` when there is none); a forced run
    /// starts from scratch.
    pub fn load(output_dir: &str, existing: Option<Checkpoint>, force: bool) -> (m: CheckpointManager)
        ensures
            m@ == load_spec(
                output_dir@,
                match existing {
                    Some(c) => Some(c@),
                    None => None,
                },
                force,
            ),
    {
        let path = join_path(output_dir, "checkpoint.json");
        let state = if force {
            Checkpoint::default()
        } else {
            match existing {
                Some(c) => c,
                None => Checkpoint::default(),
            }
        };
        CheckpointManager { path, state, force }
    }

    /// Where the progress is saved.
    pub fn path(&self) -> (p: &str)
        ensures
            p@ == self@.path,
    {
        self.path.as_str()
    }

    /// The current progress.
    pub fn state(&self) -> (c: &Checkpoint)
        ensures
            c@ == self@.state,
    {
        &self.state
    }

    /// Checks the novel and configuration hashes against the recorded ones
    /// (see [`validate_spec`]). `Ok(true)` means the run can resume.
    pub fn validate(&mut self, novel_hash: &str, config_hash: &str) -> (r: Result<bool, StoryorError>)
        ensures
            r matches Ok(b) && (final(self)@, b) == validate_spec(old(self)@, novel_hash@, config_hash@),
    {
        if self.force || self.state.novel_hash.as_str().unicode_len() == 0 {
            self.state.novel_hash = novel_hash.to_owned();
            self.state.config_hash = config_hash.to_owned();
            return Ok(false);
        }
        let consistent = crate::text::str_eq(self.state.novel_hash.as_str(), novel_hash)
            && crate::text::str_eq(self.state.config_hash.as_str(), config_hash);
        if !consistent {
            self.state = Checkpoint {
                novel_hash: novel_hash.to_owned(),
                config_hash: config_hash.to_owned(),
                stages: Stages::default(),
            };
        }
        Ok(consistent)
    }

    /// Whether chapter splitting is done.
    pub fn chapters_done(&self) -> (b: bool)
        ensures
            b == (self@.state.stages.chapters == StageStatus::Done),
    {
        self.state.stages.chapters == StageStatus::Done
    }

    /// Whether chapter summaries are done.
    pub fn summaries_done(&self) -> (b: bool)
        ensures
            b == (self@.state.stages.summaries == StageStatus::Done),
    {
        self.state.stages.summaries == StageStatus::Done
    }

    /// Whether plot segmentation is done.
    pub fn segments_done(&self) -> (b: bool)
        ensures
            b == (self@.state.stages.segments == StageStatus::Done),
    {
        self.state.stages.segments == StageStatus::Done
    }

    /// Records chapter splitting as done.
    pub fn mark_chapters_done(&mut self)
        ensures
            final(self)@ == with_stages(
                old(self)@,
                StagesView { chapters: StageStatus::Done, ..old(self)@.state.stages },
            ),
    {
        self.state.stages.chapters = StageStatus::Done;
    }

    /// Records chapter summaries as done.
    pub fn mark_summaries_done(&mut self)
        ensures
            final(self)@ == with_stages(
                old(self)@,
                StagesView { summaries: StageStatus::Done, ..old(self)@.state.stages },
            ),
    {
        self.state.stages.summaries = StageStatus::Done;
    }

    /// Records plot segmentation as done.
    pub fn mark_segments_done(&mut self)
        ensures
            final(self)@ == with_stages(
                old(self)@,
                StagesView { segments: StageStatus::Done, ..old(self)@.state.stages },
            ),
    {
        self.state.stages.segments = StageStatus::Done;
    }

    /// The number of segments to script.
    pub fn scripts_total(&self) -> (n: usize)
        ensures
            n == self@.state.stages.scripts.total,
    {
        self.state.stages.scripts.total
    }

    /// The segments already scripted.
    pub fn scripts_completed(&self) -> (s: HashSet<usize>)
        ensures
            s@ == self@.state.stages.scripts.completed.to_set(),
    {
        self.state.stages.scripts.completed_set()
    }

    /// Sets the number of segments to script.
    pub fn set_scripts_total(&mut self, total: usize)
        ensures
            final(self)@ == with_stages(
                old(self)@,
                StagesView {
                    scripts: SegmentStageView { total: total as nat, ..old(self)@.state.stages.scripts },
                    ..old(self)@.state.stages
                },
            ),
    {
        self.state.stages.scripts.total = total;
    }

    /// Records segment `index` as scripted (see [`SegmentStage::mark_done`]).
    pub fn mark_script_done(&mut self, index: usize)
        ensures
            final(self)@.path == old(self)@.path,
            final(self)@.force == old(self)@.force,
            final(self)@.state.novel_hash == old(self)@.state.novel_hash,
            final(self)@.state.config_hash == old(self)@.state.config_hash,
            final(self)@.state.stages.audio == old(self)@.state.stages.audio,
            final(self)@.state.stages.chapters == old(self)@.state.stages.chapters,
            final(self)@.state.stages.summaries == old(self)@.state.stages.summaries,
            final(self)@.state.stages.segments == old(self)@.state.stages.segments,
            mark_done_spec(
                old(self)@.state.stages.scripts,
                final(self)@.state.stages.scripts,
                index,
            ),
    {
        self.state.stages.scripts.mark_done(index);
    }

    /// The number of segments to synthesise.
    pub fn audio_total(&self) -> (n: usize)
        ensures
            n == self@.state.stages.audio.total,
    {
        self.state.stages.audio.total
    }

    /// The segments already synthesised.
    pub fn audio_completed(&self) -> (s: HashSet<usize>)
        ensures
            s@ == self@.state.stages.audio.completed.to_set(),
    {
        self.state.stages.audio.completed_set()
    }

    /// Sets the number of segments to synthesise.
    pub fn set_audio_total(&mut self, total: usize)
        ensures
            final(self)@ == with_stages(
                old(self)@,
                StagesView {
                    audio: SegmentStageView { total: total as nat, ..old(self)@.state.stages.audio },
                    ..old(self)@.state.stages
                },
            ),
    {
        self.state.stages.audio.total = total;
    }

    /// Records segment `index` as synthesised (see [`SegmentStage::mark_done`]).
    pub fn mark_audio_done(&mut self, index: usize)
        ensures
            final(self)@.path == old(self)@.path,
            final(self)@.force == old(self)@.force,
            final(self)@.state.novel_hash == old(self)@.state.novel_hash,
            final(self)@.state.config_hash == old(self)@.state.config_hash,
            final(self)@.state.stages.scripts == old(self)@.state.stages.scripts,
            final(self)@.state.stages.chapters == old(self)@.state.stages.chapters,
            final(self)@.state.stages.summaries == old(self)@.state.stages.summaries,
            final(self)@.state.stages.segments == old(self)@.state.stages.segments,
            mark_done_spec(old(self)@.state.stages.audio, final(self)@.state.stages.audio, index),
    {
        self.state.stages.audio.mark_done(index);
    }
}

/// What [`SegmentStage::mark_done`] does to a stage.
pub open spec fn mark_done_spec(before: SegmentStageView, after: SegmentStageView, index: usize) -> bool {
    &&& after.total == before.total
    &&& before.completed.contains(index) ==> after.completed == before.completed
    &&& !before.completed.contains(index) ==> {
        &&& sorted_nondec(after.completed)
        &&& after.completed.to_multiset() == before.completed.push(index).to_multiset()
    }
}


/// Validating with the hashes that a resumable run recorded answers `true`
/// and changes nothing.
pub proof fn law_validate_same_hashes_resume(m: ManagerView)
    requires
        !m.force,
        m.state.novel_hash.len() > 0,
    ensures
        validate_spec(m, m.state.novel_hash, m.state.config_hash) == (m, true),
{
}

/// Validating with a changed novel or configuration hash answers `false`,
/// records the new hashes and resets every stage.
pub proof fn law_validate_changed_hash_resets(m: ManagerView, novel_hash: Seq<char>, config_hash: Seq<char>)
    requires
        !m.force,
        m.state.novel_hash.len() > 0,
        m.state.novel_hash != novel_hash || m.state.config_hash != config_hash,
    ensures
        !validate_spec(m, novel_hash, config_hash).1,
        validate_spec(m, novel_hash, config_hash).0.state == (CheckpointView {
            novel_hash,
            config_hash,
            stages: initial_stages(),
        }),
        validate_spec(m, novel_hash, config_hash).0.path == m.path,
{
}

/// Whatever was recorded, once a run has been validated with a (non-empty)
/// novel hash, validating again with the same hashes resumes it, unchanged.
pub proof fn law_validate_then_resume(m: ManagerView, novel_hash: Seq<char>, config_hash: Seq<char>)
    requires
        !m.force,
        novel_hash.len() > 0,
    ensures
        ({
            let first = validate_spec(m, novel_hash, config_hash).0;
            validate_spec(first, novel_hash, config_hash) == (first, true)
        }),
{
}

/// A forced run starts from the initial progress, whatever was read.
pub proof fn law_forced_load_starts_fresh(output_dir: Seq<char>, existing: Option<CheckpointView>)
    ensures
        load_spec(output_dir, existing, true).state == initial_checkpoint(),
        load_spec(output_dir, existing, true).force,
{
}

/// Without force, loading keeps the progress that was read.
pub proof fn law_load_keeps_existing(output_dir: Seq<char>, existing: CheckpointView)
    ensures
        load_spec(output_dir, Some(existing), false).state == existing,
{
}

/// Marking a segment done records it and keeps every segment recorded
/// before: afterwards the completed set is the old one with the index added.
pub proof fn law_mark_done_records(before: SegmentStageView, after: SegmentStageView, index: usize)
    requires
        mark_done_spec(before, after, index),
    ensures
        after.completed.contains(index),
        after.completed.to_set() == before.completed.to_set().insert(index),
        after.total == before.total,
{
    broadcast use vstd::seq_lib::group_to_multiset_ensures;

    if before.completed.contains(index) {
        assert(before.completed.to_set().insert(index) =~= before.completed.to_set());
    } else {
        let pushed = before.completed.push(index);
        assert(pushed[pushed.len() - 1] == index);
        assert(pushed.contains(index));
        assert forall|x: usize| after.completed.contains(x) <==> pushed.contains(x) by {
            vstd::seq_lib::to_multiset_contains(after.completed, x);
            vstd::seq_lib::to_multiset_contains(pushed, x);
        }
        assert(after.completed.contains(index));
        assert forall|x: usize| pushed.contains(x) <==> (before.completed.contains(x) || x == index) by {
            if pushed.contains(x) {
                let j = choose|j: int| 0 <= j < pushed.len() && pushed[j] == x;
                if j < before.completed.len() {
                    assert(before.completed[j] == x);
                }
            }
            if before.completed.contains(x) {
                let j = choose|j: int| 0 <= j < before.completed.len() && before.completed[j] == x;
                assert(pushed[j] == x);
            }
        }
        assert forall|x: usize| #[trigger] after.completed.to_set().contains(x) <==> before.completed.to_set().insert(index).contains(x) by {
            assert(after.completed.contains(x) <==> pushed.contains(x));
        }
        assert(after.completed.to_set() =~= before.completed.to_set().insert(index));
    }
}

/// Segment-level resume: once a segment is marked as scripted, progress
/// that is loaded again (without force) from the saved state has that
/// segment, and every segment completed before, in its completed set, and
/// no other.
pub proof fn law_marked_script_survives_reload(
    before: ManagerView,
    after: ManagerView,
    index: usize,
    output_dir: Seq<char>,
)
    requires
        mark_done_spec(before.state.stages.scripts, after.state.stages.scripts, index),
    ensures
        load_spec(output_dir, Some(after.state), false).state.stages.scripts.completed.to_set()
            == before.state.stages.scripts.completed.to_set().insert(index),
{
    law_mark_done_records(before.state.stages.scripts, after.state.stages.scripts, index);
}

/// Marking the same segment twice is the same as marking it once.
pub proof fn law_mark_done_twice(a: SegmentStageView, b: SegmentStageView, c: SegmentStageView, index: usize)
    requires
        mark_done_spec(a, b, index),
        mark_done_spec(b, c, index),
    ensures
        c == b,
{
    law_mark_done_records(a, b, index);
}

} // verus!

verus! {

/// The SHA-256 digest of a byte sequence.
pub uninterp spec fn sha256_digest(data: Seq<u8>) -> Seq<u8>;

/// Wraps `sha2::Sha256::digest`: the SHA-256 digest of the bytes, which the
/// crate's output size fixes at 32 bytes. The digest itself is named, not
/// spelled out.
#[verifier::external_body]
fn sha256(data: &[u8]) -> (d: Vec<u8>)
    ensures
        d@ == sha256_digest(data@),
        d@.len() == 32,
{
    <sha2::Sha256 as Digest>::digest(data).to_vec()
}

/// Lower-case hexadecimal digit for a value below 16.
pub open spec fn hex_digit(d: int) -> char {
    if d < 10 {
        (('0' as int) + d) as char
    } else {
        (('a' as int) + d - 10) as char
    }
}

/// Lower-case hexadecimal text of bytes, two digits per byte.
pub open spec fn hex_lower(bytes: Seq<u8>) -> Seq<char>
    decreases bytes.len(),
{
    if bytes.len() == 0 {
        Seq::empty()
    } else {
        hex_lower(bytes.drop_last()).push(hex_digit((bytes.last() / 16) as int)).push(
            hex_digit((bytes.last() % 16) as int),
        )
    }
}

fn hex_char(d: u8) -> (c: char)
    requires
        d < 16,
    ensures
        c == hex_digit(d as int),
{
    let zero: u8 = 48;
    let a: u8 = 97;
    if d < 10 {
        ((zero + d) as char)
    } else {
        ((a + d - 10) as char)
    }
}

/// Lower-case hexadecimal text of bytes.
pub fn to_hex_lower(bytes: &[u8]) -> (s: String)
    ensures
        s@ == hex_lower(bytes@),
{
    let mut s = String::new();
    let mut i: usize = 0;
    assert(bytes@.take(0) =~= Seq::<u8>::empty());
    while i < bytes.len()
        invariant
            i <= bytes@.len(),
            s@ == hex_lower(bytes@.take(i as int)),
        decreases bytes@.len() - i,
    {
        let b = bytes[i];
        crate::text::push_char(&mut s, hex_char(b / 16));
        crate::text::push_char(&mut s, hex_char(b % 16));
        assert(bytes@.take(i + 1).drop_last() =~= bytes@.take(i as int));
        i = i + 1;
    }
    assert(bytes@.take(i as int) =~= bytes@);
    s
}

/// The SHA-256 of a string's UTF-8 bytes, as lower-case hexadecimal.
pub fn sha256_hex(input: &str) -> (h: String)
    ensures
        h@ == hex_lower(sha256_digest(crate::text::utf8_of(input@))),
        h@.len() == 64,
        forall|i: int| 0 <= i < 64 ==> lower_hex_digit(#[trigger] h@[i]),
{
    let d = sha256(input.as_bytes());
    proof {
        lemma_hex_lower_len(d@);
    }
    to_hex_lower(d.as_slice())
}

/// A lower-case hexadecimal digit.
pub open spec fn lower_hex_digit(c: char) -> bool {
    ('0' <= c <= '9') || ('a' <= c <= 'f')
}

proof fn lemma_hex_lower_len(b: Seq<u8>)
    ensures
        hex_lower(b).len() == 2 * b.len(),
        forall|i: int| 0 <= i < hex_lower(b).len() ==> lower_hex_digit(#[trigger] hex_lower(b)[i]),
    decreases b.len(),
{
    if b.len() > 0 {
        lemma_hex_lower_len(b.drop_last());
        let last = b.last();
        assert(lower_hex_digit(hex_digit((last / 16) as int)));
        assert(lower_hex_digit(hex_digit((last % 16) as int)));
        let prev = hex_lower(b.drop_last());
        let whole = hex_lower(b);
        assert forall|i: int| 0 <= i < whole.len() implies lower_hex_digit(#[trigger] whole[i]) by {
            if i < prev.len() {
                assert(whole[i] == prev[i]);
            }
        }
    }
}

/// The text whose hash identifies a configuration: the backends and models
/// of the three models and the chapter pattern, separated by `|`.
pub open spec fn config_material(c: crate::config::AppConfig) -> Seq<char> {
    c.small_model.backend@ + "|"@ + c.small_model.model@ + "|"@ + c.large_model.backend@ + "|"@
        + c.large_model.model@ + "|"@ + c.tts_model.backend@ + "|"@ + c.tts_model.model@ + "|"@
        + c.chapter_regex@
}

/// Two configurations that agree on the models' backends and names and on
/// the chapter pattern have the same configuration hash, whatever their
/// other settings.
pub proof fn law_config_hash_key_fields(a: crate::config::AppConfig, b: crate::config::AppConfig)
    requires
        a.small_model.backend@ == b.small_model.backend@,
        a.small_model.model@ == b.small_model.model@,
        a.large_model.backend@ == b.large_model.backend@,
        a.large_model.model@ == b.large_model.model@,
        a.tts_model.backend@ == b.tts_model.backend@,
        a.tts_model.model@ == b.tts_model.model@,
        a.chapter_regex@ == b.chapter_regex@,
    ensures
        config_material(a) == config_material(b),
{
}

/// A segment stage whose recorded indices have no repeats keeps none after
/// a segment is marked done.
pub proof fn law_mark_done_no_repeats(before: SegmentStageView, after: SegmentStageView, index: usize)
    requires
        mark_done_spec(before, after, index),
        before.completed.no_duplicates(),
    ensures
        after.completed.no_duplicates(),
{
    broadcast use vstd::seq_lib::group_to_multiset_ensures;
    broadcast use vstd::multiset::group_multiset_axioms;

    if !before.completed.contains(index) {
        before.completed.lemma_multiset_has_no_duplicates();
        assert forall|x: usize| after.completed.to_multiset().contains(x) implies after.completed.to_multiset().count(x) == 1 by {
            assert(after.completed.to_multiset() == before.completed.to_multiset().insert(index));
            if x == index {
                vstd::seq_lib::to_multiset_contains(before.completed, index);
            }
        }
        after.completed.lemma_multiset_has_no_duplicates_conv();
    }
}

/// The hash of the configuration fields that decide the artifacts.
pub fn config_hash(config: &crate::config::AppConfig) -> (h: String)
    ensures
        h@ == hex_lower(sha256_digest(crate::text::utf8_of(config_material(*config)))),
        h@.len() == 64,
        forall|i: int| 0 <= i < 64 ==> lower_hex_digit(#[trigger] h@[i]),
{
    let mut m = config.small_model.backend.clone();
    m.append("|");
    m.append(config.small_model.model.as_str());
    m.append("|");
    m.append(config.large_model.backend.as_str());
    m.append("|");
    m.append(config.large_model.model.as_str());
    m.append("|");
    m.append(config.tts_model.backend.as_str());
    m.append("|");
    m.append(config.tts_model.model.as_str());
    m.append("|");
    m.append(config.chapter_regex.as_str());
    sha256_hex(m.as_str())
}

} // verus!
