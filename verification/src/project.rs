//! Projects in the workspace: each project lives in its own directory under
//! the workspace, named by the project's id, with its metadata in
//! `project.json` and the novel in `novel.txt`.

use vstd::prelude::*;

use crate::config::AppConfig;
use crate::error::StoryorError;
use crate::text::{join_path, join_path_spec, str_chars, trim_spec, trim_str};

verus! {

/// The stage a project has reached in the four-stage workflow.
#[derive(Debug, Clone, Copy, PartialEq, Eq, Structural)]
pub enum ProjectPhase {
    /// Just created; preprocessing has not started.
    Created,
    /// Splitting chapters, summarising, segmenting.
    Preprocessing,
    /// Writing scripts.
    Scripting,
    /// Designing voices.
    VoiceDesigning,
    /// Synthesising audio.
    Synthesizing,
    /// Done.
    Completed,
}

impl Default for ProjectPhase {
    fn default() -> (p: ProjectPhase)
        ensures
            p == ProjectPhase::Created,
    {
        ProjectPhase::Created
    }
}

/// A UTC instant: seconds since the Unix epoch and nanoseconds within the
/// second.
#[derive(Debug, Clone, Copy, PartialEq, Eq, Structural)]
pub struct Timestamp {
    pub secs: i64,
    pub nanos: u32,
}

/// Chronological order of instants.
pub open spec fn ts_lt(a: Timestamp, b: Timestamp) -> bool {
    a.secs < b.secs || (a.secs == b.secs && a.nanos < b.nanos)
}

/// The text form of a UUID: 36 characters, lower-case hexadecimal digits
/// with hyphens at positions 8, 13, 18 and 23.
pub open spec fn uuid_text(s: Seq<char>) -> bool {
    &&& s.len() == 36
    &&& forall|i: int|
        0 <= i < 36 ==> if i == 8 || i == 13 || i == 18 || i == 23 {
            s[i] == '-'
        } else {
            ('0' <= #[trigger] s[i] <= '9') || ('a' <= s[i] <= 'f')
        }
}

/// Wraps `uuid::Uuid::new_v4` and its `to_string`: a fresh random project
/// id. Which id comes out is random; what holds of every outcome is that
/// `to_string` writes the hyphenated lower-case form (its `Display` is the
/// `LowerHex` of the hyphenated UUID).
#[verifier::external_body]
fn new_project_id() -> (s: String)
    ensures
        uuid_text(s@),
{
    uuid::Uuid::new_v4().to_string()
}

/// Wraps `chrono::Utc::now`, read as seconds and nanoseconds. Nothing is
/// stated of the result, as it is the current time.
#[verifier::external_body]
fn utc_now() -> Timestamp {
    let now = chrono::Utc::now();
    Timestamp { secs: now.timestamp(), nanos: now.timestamp_subsec_nanos() }
}

/// Project metadata (stored in `project.json`).
#[derive(Debug, Clone)]
pub struct ProjectMeta {
    /// Project id (a UUID v4, also the directory name).
    pub id: String,
    /// Project name.
    pub name: String,
    /// The novel's file, relative to the project directory.
    pub novel_path: String,
    /// Creation time.
    pub created_at: Timestamp,
    /// The stage reached.
    pub current_phase: ProjectPhase,
    /// Number of characters of the novel.
    pub novel_chars: usize,
}

/// File name of the project metadata.
pub open spec fn project_meta_filename_spec() -> Seq<char> {
    "project.json"@
}

/// File name of the novel.
pub open spec fn novel_filename_spec() -> Seq<char> {
    "novel.txt"@
}

impl ProjectMeta {
    /// Metadata of a new project with the given identity: the novel stored
    /// as `novel.txt`, the phase `Created`.
    pub fn with_identity(name: &str, novel_chars: usize, id: String, created_at: Timestamp) -> (m: ProjectMeta)
        ensures
            m.id@ == id@,
            m.name@ == name@,
            m.novel_path@ == novel_filename_spec(),
            m.created_at == created_at,
            m.current_phase == ProjectPhase::Created,
            m.novel_chars == novel_chars,
    {
        ProjectMeta {
            id,
            name: name.to_owned(),
            novel_path: "novel.txt".to_owned(),
            created_at,
            current_phase: ProjectPhase::Created,
            novel_chars,
        }
    }

    /// Metadata of a new project, with a fresh random id and the current
    /// time.
    pub fn new(name: &str, novel_chars: usize) -> (m: ProjectMeta)
        ensures
            uuid_text(m.id@),
            m.name@ == name@,
            m.novel_path@ == novel_filename_spec(),
            m.current_phase == ProjectPhase::Created,
            m.novel_chars == novel_chars,
    {
        let id = new_project_id();
        let now = utc_now();
        ProjectMeta::with_identity(name, novel_chars, id, now)
    }
}

/// A project in the project list.
#[derive(Debug, Clone)]
pub struct ProjectListItem {
    pub id: String,
    pub name: String,
    pub created_at: Timestamp,
    pub current_phase: ProjectPhase,
    pub novel_chars: usize,
}

impl ProjectListItem {
    /// The list entry of a project.
    pub fn from_meta(m: &ProjectMeta) -> (item: ProjectListItem)
        ensures
            item.id@ == m.id@,
            item.name@ == m.name@,
            item.created_at == m.created_at,
            item.current_phase == m.current_phase,
            item.novel_chars == m.novel_chars,
    {
        ProjectListItem {
            id: m.id.clone(),
            name: m.name.clone(),
            created_at: m.created_at,
            current_phase: m.current_phase,
            novel_chars: m.novel_chars,
        }
    }
}

/// Inserting `x` into a list ordered newest first, after every item that is
/// not older than it.
pub open spec fn insert_newest_first(s: Seq<ProjectListItem>, x: ProjectListItem) -> Seq<ProjectListItem>
    decreases s.len(),
{
    if s.len() == 0 {
        seq![x]
    } else if ts_lt(s[0].created_at, x.created_at) {
        seq![x] + s
    } else {
        seq![s[0]] + insert_newest_first(s.drop_first(), x)
    }
}

/// A list ordered newest first; items created at the same instant keep
/// their order (a stable sort by creation time, descending).
pub open spec fn newest_first(s: Seq<ProjectListItem>) -> Seq<ProjectListItem>
    decreases s.len(),
{
    if s.len() == 0 {
        s
    } else {
        insert_newest_first(newest_first(s.drop_last()), s.last())
    }
}

/// A list in which no project is newer than one listed before it.
pub open spec fn sorted_newest_first(s: Seq<ProjectListItem>) -> bool {
    forall|i: int, j: int| 0 <= i < j < s.len() ==> !ts_lt((#[trigger] s[i]).created_at, (#[trigger] s[j]).created_at)
}

proof fn lemma_insert_newest_first_bound(s: Seq<ProjectListItem>, x: ProjectListItem, b: Timestamp)
    requires
        !ts_lt(b, x.created_at),
        forall|m: int| 0 <= m < s.len() ==> !ts_lt(b, (#[trigger] s[m]).created_at),
    ensures
        forall|k: int| 0 <= k < insert_newest_first(s, x).len() ==> !ts_lt(b, (#[trigger] insert_newest_first(s, x)[k]).created_at),
    decreases s.len(),
{
    if s.len() > 0 && !ts_lt(s[0].created_at, x.created_at) {
        let t = s.drop_first();
        assert forall|m: int| 0 <= m < t.len() implies !ts_lt(b, (#[trigger] t[m]).created_at) by {
            assert(t[m] == s[m + 1]);
        }
        lemma_insert_newest_first_bound(t, x, b);
        let r = insert_newest_first(t, x);
        assert forall|k: int| 0 <= k < insert_newest_first(s, x).len() implies !ts_lt(b, (#[trigger] insert_newest_first(s, x)[k]).created_at) by {
            if k > 0 {
                assert(insert_newest_first(s, x)[k] == r[k - 1]);
            }
        }
    }
}

proof fn lemma_insert_newest_first(s: Seq<ProjectListItem>, x: ProjectListItem)
    requires
        sorted_newest_first(s),
    ensures
        sorted_newest_first(insert_newest_first(s, x)),
        insert_newest_first(s, x).to_multiset() == s.to_multiset().insert(x),
    decreases s.len(),
{
    broadcast use vstd::seq_lib::group_to_multiset_ensures;
    broadcast use vstd::multiset::group_multiset_axioms;

    if s.len() == 0 {
        assert(seq![x] =~= Seq::<ProjectListItem>::empty().push(x));
    } else if ts_lt(s[0].created_at, x.created_at) {
        let r = seq![x] + s;
        assert forall|i: int, j: int| 0 <= i < j < r.len() implies !ts_lt((#[trigger] r[i]).created_at, (#[trigger] r[j]).created_at) by {
            if i == 0 {
                assert(r[j] == s[j - 1]);
                if j > 1 {
                    assert(!ts_lt(s[0].created_at, s[j - 1].created_at));
                }
            } else {
                assert(r[i] == s[i - 1] && r[j] == s[j - 1]);
            }
        }
        assert(r =~= s.insert(0, x));
        vstd::seq_lib::to_multiset_insert(s, 0, x);
    } else {
        let t = s.drop_first();
        assert(sorted_newest_first(t)) by {
            assert forall|i: int, j: int| 0 <= i < j < t.len() implies !ts_lt((#[trigger] t[i]).created_at, (#[trigger] t[j]).created_at) by {
                assert(t[i] == s[i + 1] && t[j] == s[j + 1]);
            }
        }
        lemma_insert_newest_first(t, x);
        assert forall|m: int| 0 <= m < t.len() implies !ts_lt(s[0].created_at, (#[trigger] t[m]).created_at) by {
            assert(t[m] == s[m + 1]);
        }
        lemma_insert_newest_first_bound(t, x, s[0].created_at);
        let r = insert_newest_first(t, x);
        let whole = seq![s[0]] + r;
        assert forall|i: int, j: int| 0 <= i < j < whole.len() implies !ts_lt((#[trigger] whole[i]).created_at, (#[trigger] whole[j]).created_at) by {
            assert(whole[j] == r[j - 1]);
            if i > 0 {
                assert(whole[i] == r[i - 1]);
            }
        }
        assert(whole =~= r.insert(0, s[0]));
        vstd::seq_lib::to_multiset_insert(r, 0, s[0]);
        assert(s =~= t.insert(0, s[0]));
        vstd::seq_lib::to_multiset_insert(t, 0, s[0]);
        assert(whole.to_multiset() =~= s.to_multiset().insert(x));
    }
}

/// The project list comes out newest first, each project kept exactly as
/// often as it was given.
pub proof fn law_newest_first_sorts(s: Seq<ProjectListItem>)
    ensures
        sorted_newest_first(newest_first(s)),
        newest_first(s).to_multiset() == s.to_multiset(),
    decreases s.len(),
{
    broadcast use vstd::seq_lib::group_to_multiset_ensures;

    if s.len() > 0 {
        law_newest_first_sorts(s.drop_last());
        lemma_insert_newest_first(newest_first(s.drop_last()), s.last());
        assert(s =~= s.drop_last().push(s.last()));
    }
}

fn insert_item_newest_first(v: &mut Vec<ProjectListItem>, x: ProjectListItem)
    ensures
        final(v)@ == insert_newest_first(old(v)@, x),
{
    let mut i: usize = 0;
    assert(v@.skip(0) =~= v@);
    assert(v@.take(0) + insert_newest_first(v@, x) =~= insert_newest_first(v@, x));
    while i < v.len() && !(v[i].created_at.secs < x.created_at.secs || (v[i].created_at.secs
        == x.created_at.secs && v[i].created_at.nanos < x.created_at.nanos))
        invariant
            i <= v@.len(),
            v@ == old(v)@,
            insert_newest_first(v@, x) == v@.take(i as int) + insert_newest_first(v@.skip(i as int), x),
        decreases v@.len() - i,
    {
        proof {
            let rest = v@.skip(i as int);
            assert(rest.drop_first() =~= v@.skip(i + 1));
            assert(v@.take(i + 1) =~= v@.take(i as int) + seq![rest[0]]);
        }
        i = i + 1;
    }
    let ghost before = v@;
    v.insert(i, x);
    proof {
        let rest = before.skip(i as int);
        if i < before.len() {
            assert(insert_newest_first(rest, x) == seq![x] + rest);
        } else {
            assert(rest.len() == 0);
        }
        assert(v@ =~= before.take(i as int) + insert_newest_first(rest, x));
    }
}

/// Orders a project list newest first (see [`newest_first`]).
pub fn sort_newest_first(items: Vec<ProjectListItem>) -> (r: Vec<ProjectListItem>)
    ensures
        r@ == newest_first(items@),
{
    let mut out: Vec<ProjectListItem> = Vec::new();
    let mut items = items;
    let ghost all = items@;
    let mut i: usize = 0;
    let n = items.len();
    assert(all.take(0) =~= Seq::<ProjectListItem>::empty());
    while i < n
        invariant
            n == all.len(),
            i <= n,
            items@.len() == n - i,
            items@ == all.skip(i as int),
            out@ == newest_first(all.take(i as int)),
        decreases n - i,
    {
        let x = items.remove(0);
        proof {
            assert(x == all[i as int]);
            assert(all.take(i + 1).drop_last() =~= all.take(i as int));
        }
        insert_item_newest_first(&mut out, x);
        assert(items@ =~= all.skip(i + 1));
        i = i + 1;
    }
    assert(all.take(n as int) =~= all);
    out
}

/// The body of a request to create a project.
#[derive(Debug, Clone)]
pub struct CreateProjectRequest {
    /// Project name.
    pub name: String,
    /// The novel's text.
    pub novel_text: String,
}

/// Manages the projects under the workspace directory.
#[derive(Debug, Clone)]
pub struct ProjectManager {
    workspace_dir: String,
}

/// Whether a file or directory exists at a path.
///
/// Wraps `Path::exists`. The answer depends on the file system, so nothing
/// is stated of it.
#[verifier::external_body]
fn path_exists(path: &str) -> bool {
    std::path::Path::new(path).exists()
}

impl ProjectManager {
    /// The workspace directory.
    pub closed spec fn workspace_spec(self) -> Seq<char> {
        self.workspace_dir@
    }

    /// A manager of the projects under the configured workspace.
    pub fn from_config(config: &AppConfig) -> (pm: ProjectManager)
        ensures
            pm.workspace_spec() == config.workspace.dir@,
    {
        ProjectManager { workspace_dir: config.workspace.dir.clone() }
    }

    /// A manager of the projects under `dir`.
    pub fn with_workspace(dir: &str) -> (pm: ProjectManager)
        ensures
            pm.workspace_spec() == dir@,
    {
        ProjectManager { workspace_dir: dir.to_owned() }
    }

    /// The workspace directory.
    pub fn workspace_dir(&self) -> (d: &str)
        ensures
            d@ == self.workspace_spec(),
    {
        self.workspace_dir.as_str()
    }

    /// The directory of project `id`: `<workspace>/<id>`.
    pub fn project_dir(&self, id: &str) -> (d: String)
        ensures
            d@ == join_path_spec(self.workspace_spec(), id@),
    {
        join_path(self.workspace_dir.as_str(), id)
    }

    /// The metadata file of project `id`: `<workspace>/<id>/project.json`.
    pub fn project_meta_path(&self, id: &str) -> (p: String)
        ensures
            p@ == join_path_spec(join_path_spec(self.workspace_spec(), id@), project_meta_filename_spec()),
    {
        let d = self.project_dir(id);
        join_path(d.as_str(), "project.json")
    }

    /// The metadata of a project about to be created: the request is
    /// checked (see [`check_create_request`]), a fresh id and the current
    /// time are taken, and the project's directory must not exist yet.
    /// Whether it does depends on the disk: when it does, the error names
    /// the conflicting id.
    pub fn prepare_create(&self, name: &str, novel_text: &str) -> (r: Result<ProjectMeta, StoryorError>)
        ensures
            trim_spec(name@).len() == 0 ==> (r matches Err(StoryorError::Project(m)) && m@
                == "项目名称不能为空"@),
            trim_spec(name@).len() != 0 && trim_spec(novel_text@).len() == 0 ==> (r matches Err(
                StoryorError::Project(m),
            ) && m@ == "小说文本不能为空"@),
            trim_spec(name@).len() != 0 && trim_spec(novel_text@).len() != 0 ==> match r {
                Ok(m) => {
                    &&& uuid_text(m.id@)
                    &&& m.name@ == name@
                    &&& m.novel_chars == novel_text@.len()
                    &&& m.novel_path@ == novel_filename_spec()
                    &&& m.current_phase == ProjectPhase::Created
                },
                Err(e) => e matches StoryorError::Project(msg) && exists|id: Seq<char>|
                    uuid_text(id) && msg@ == "项目目录已存在（ID 冲突）: "@ + id,
            },
    {
        let novel_chars = match check_create_request(name, novel_text) {
            Ok(n) => n,
            Err(e) => return Err(e),
        };
        let meta = ProjectMeta::new(name, novel_chars);
        let dir = self.project_dir(meta.id.as_str());
        if path_exists(dir.as_str()) {
            let mut msg = "项目目录已存在（ID 冲突）: ".to_owned();
            msg.append(meta.id.as_str());
            assert(uuid_text(meta.id@) && msg@ == "项目目录已存在（ID 冲突）: "@ + meta.id@);
            return Err(StoryorError::Project(msg));
        }
        Ok(meta)
    }

    /// Whether project `id` exists (its metadata file is present).
    pub fn project_exists(&self, id: &str) -> bool {
        let p = self.project_meta_path(id);
        path_exists(p.as_str())
    }
}

/// The error for a project whose metadata cannot be read: the project is
/// missing (answered 404), with the reason in the message
/// `项目 <id> 不存在或无法读取: <reason>`.
pub fn unreadable_project_error(id: &str, reason: &str) -> (e: StoryorError)
    ensures
        e matches StoryorError::ProjectNotFound(m) && m@ == "项目 "@ + id@ + " 不存在或无法读取: "@ + reason@,
        crate::error::status_spec(e) == 404,
{
    let mut m = "项目 ".to_owned();
    m.append(id);
    m.append(" 不存在或无法读取: ");
    m.append(reason);
    StoryorError::ProjectNotFound(m)
}

/// The error for deleting a project that does not exist: the project is
/// missing (answered 404), with the message `项目 <id> 不存在`.
pub fn missing_project_error(id: &str) -> (e: StoryorError)
    ensures
        e matches StoryorError::ProjectNotFound(m) && m@ == "项目 "@ + id@ + " 不存在"@,
        crate::error::status_spec(e) == 404,
{
    let mut m = "项目 ".to_owned();
    m.append(id);
    m.append(" 不存在");
    StoryorError::ProjectNotFound(m)
}

/// The directory of a project whose id is a UUID lies directly inside the
/// workspace: the id is appended to the workspace path as one segment.
pub proof fn law_project_dir_in_workspace(pm: ProjectManager, id: Seq<char>)
    requires
        uuid_text(id),
    ensures
        join_path_spec(pm.workspace_spec(), id) == (if pm.workspace_spec().len() == 0 {
            id
        } else if pm.workspace_spec().last() == '/' {
            pm.workspace_spec() + id
        } else {
            pm.workspace_spec() + "/"@ + id
        }),
{
    assert(id[0] != '/');
}

/// Checks a request to create a project: the name and the novel must not be
/// blank. On success, the number of characters of the novel.
pub fn check_create_request(name: &str, novel_text: &str) -> (r: Result<usize, StoryorError>)
    ensures
        trim_spec(name@).len() == 0 ==> (r matches Err(StoryorError::Project(m)) && m@
            == "项目名称不能为空"@),
        trim_spec(name@).len() != 0 && trim_spec(novel_text@).len() == 0 ==> (r matches Err(
            StoryorError::Project(m),
        ) && m@ == "小说文本不能为空"@),
        trim_spec(name@).len() != 0 && trim_spec(novel_text@).len() != 0 ==> (r matches Ok(n) && n
            == novel_text@.len()),
{
    if trim_str(name).unicode_len() == 0 {
        return Err(StoryorError::Project("项目名称不能为空".to_owned()));
    }
    if trim_str(novel_text).unicode_len() == 0 {
        return Err(StoryorError::Project("小说文本不能为空".to_owned()));
    }
    Ok(novel_text.unicode_len())
}

/// The subdirectories created with a project, under its directory:
/// `characters`, `scripts`, `audio` and `voices`.
pub fn project_subdirs(project_dir: &str) -> (v: Vec<String>)
    ensures
        v@.len() == 4,
        v@[0]@ == join_path_spec(project_dir@, "characters"@),
        v@[1]@ == join_path_spec(project_dir@, "scripts"@),
        v@[2]@ == join_path_spec(project_dir@, "audio"@),
        v@[3]@ == join_path_spec(project_dir@, "voices"@),
{
    let mut v = Vec::new();
    v.push(join_path(project_dir, "characters"));
    v.push(join_path(project_dir, "scripts"));
    v.push(join_path(project_dir, "audio"));
    v.push(join_path(project_dir, "voices"));
    v
}

} // verus!
