//! The lock of a workspace, which one daemon holds at a time.
use crate::error::{AppError, AppResult};
use crate::json;
use crate::json::{Field, FieldKind, Json, JsonView, ObjectBuilder};
use crate::members;
use crate::text;
use vstd::prelude::*;

verus! {

/// The version of the lock file.
pub const LOCK_VERSION: u32 = 1;

/// Who holds the lock of a workspace.
#[derive(Clone, Debug, PartialEq, Eq)]
pub struct LockMetadata {
    pub v: u32,
    pub pid: u32,
    pub executable: Option<String>,
    pub workspace_root: String,
    pub workspace_id: String,
    pub socket_path: String,
}

/// What the holder of a lock stands for.
pub struct HolderView {
    pub v: u32,
    pub pid: u32,
    pub executable: Option<Seq<char>>,
    pub workspace_root: Seq<char>,
    pub workspace_id: Seq<char>,
    pub socket_path: Seq<char>,
}

/// The fields of the lock file.
pub open spec fn lock_fields() -> Seq<Field> {
    seq![
        Field { name: "v", kind: FieldKind::Number32 },
        Field { name: "pid", kind: FieldKind::Number32 },
        Field { name: "executable", kind: FieldKind::OptionalText },
        Field { name: "workspace_root", kind: FieldKind::Text },
        Field { name: "workspace_id", kind: FieldKind::Text },
        Field { name: "socket_path", kind: FieldKind::Text },
    ]
}

/// The holder in words.
pub open spec fn holder_text(holder: HolderView) -> Seq<char> {
    "pid="@ + text::decimal(holder.pid as nat) + ", executable="@ + match holder.executable {
        Some(executable) => executable,
        None => "unknown executable"@,
    } + ", workspace_id="@ + holder.workspace_id + ", socket_path="@ + holder.socket_path
}

/// The lock file of a holder.
pub open spec fn holder_json(holder: HolderView) -> JsonView {
    JsonView::Object(
        json::no_members().push(("v"@, JsonView::Number(text::decimal(holder.v as nat)))).push(
            ("pid"@, JsonView::Number(text::decimal(holder.pid as nat))),
        ).push(
            (
                "executable"@,
                match holder.executable {
                    Some(executable) => JsonView::Text(executable),
                    None => JsonView::Null,
                },
            ),
        ).push(("workspace_root"@, JsonView::Text(holder.workspace_root))).push(
            ("workspace_id"@, JsonView::Text(holder.workspace_id)),
        ).push(("socket_path"@, JsonView::Text(holder.socket_path))),
    )
}

/// What is wrong with a value that should be a lock file; nothing where it is one. Where in the file the
/// fault stands is not told.
pub open spec fn lock_complaint(value: JsonView) -> Option<Seq<char>> {
    json::complaint(value, "LockMetadata"@, lock_fields(), 6)
}

/// The holder that a lock file names.
pub open spec fn holder_in(value: JsonView) -> HolderView {
    let value = json::by_name(value, lock_fields(), 6);
    HolderView {
        v: json::u64_in(json::member_of(value, "v"@))->Some_0 as u32,
        pid: json::u64_in(json::member_of(value, "pid"@))->Some_0 as u32,
        executable: json::text_in(json::member_of(value, "executable"@)),
        workspace_root: json::text_in(json::member_of(value, "workspace_root"@))->Some_0,
        workspace_id: json::text_in(json::member_of(value, "workspace_id"@))->Some_0,
        socket_path: json::text_in(json::member_of(value, "socket_path"@))->Some_0,
    }
}

impl LockMetadata {
    /// The holder that `self` stands for.
    pub open spec fn view(&self) -> HolderView {
        HolderView {
            v: self.v,
            pid: self.pid,
            executable: text::opt_view(self.executable),
            workspace_root: self.workspace_root@,
            workspace_id: self.workspace_id@,
            socket_path: self.socket_path@,
        }
    }

    /// The lock of this process on the workspace at the canonical path `workspace_root`.
    pub fn for_workspace(
        pid: u32,
        executable: Option<String>,
        workspace_root: String,
        workspace_id: String,
        socket_path: String,
    ) -> (r: LockMetadata)
        ensures
            r@ == (HolderView {
                v: LOCK_VERSION,
                pid,
                executable: text::opt_view(executable),
                workspace_root: workspace_root@,
                workspace_id: workspace_id@,
                socket_path: socket_path@,
            }),
    {
        LockMetadata {
            v: LOCK_VERSION,
            pid,
            executable,
            workspace_root,
            workspace_id,
            socket_path,
        }
    }

    /// The holder in words.
    pub fn summary(&self) -> (r: String)
        ensures
            r@ == holder_text(self@),
    {
        let mut r = text::text2("pid=", text::decimal_u64(self.pid as u64).as_str());
        r.append(", executable=");
        match &self.executable {
            Some(executable) => r.append(executable.as_str()),
            None => r.append("unknown executable"),
        }
        r.append(", workspace_id=");
        r.append(self.workspace_id.as_str());
        r.append(", socket_path=");
        r.append(self.socket_path.as_str());
        r
    }

    /// The lock file of the holder.
    pub fn to_json(&self) -> (r: Json)
        ensures
            r@ == holder_json(self@),
    {
        ObjectBuilder::new().number("v", self.v as u64).number("pid", self.pid as u64).with(
            "executable",
            Json::optional_text(&self.executable),
        ).text("workspace_root", self.workspace_root.as_str()).text(
            "workspace_id",
            self.workspace_id.as_str(),
        ).text("socket_path", self.socket_path.as_str()).build()
    }

    /// The holder that a lock file names, or what is wrong with the file.
    pub fn decode(value: &Json) -> (r: Result<LockMetadata, String>)
        ensures
            r is Ok <==> lock_complaint(value@) is None,
            r matches Ok(metadata) ==> metadata@ == holder_in(value@),
            r matches Err(message) ==> lock_complaint(value@) == Some(message@),
    {
        let fields = vec![
            Field { name: "v", kind: FieldKind::Number32 },
            Field { name: "pid", kind: FieldKind::Number32 },
            Field { name: "executable", kind: FieldKind::OptionalText },
            Field { name: "workspace_root", kind: FieldKind::Text },
            Field { name: "workspace_id", kind: FieldKind::Text },
            Field { name: "socket_path", kind: FieldKind::Text },
        ];
        assert(fields@ =~= lock_fields());
        if let Err(message) = value.check_fields("LockMetadata", &fields, 6) {
            return Err(message);
        }
        let value = &value.by_name(&fields, 6);
        proof {
            assert(lock_fields()[0].name@ == "v"@);
            assert(lock_fields()[1].name@ == "pid"@);
            assert(lock_fields()[3].name@ == "workspace_root"@);
            assert(lock_fields()[4].name@ == "workspace_id"@);
            assert(lock_fields()[5].name@ == "socket_path"@);
        }
        match (
            value.number_member("v"),
            value.number_member("pid"),
            value.text_member("workspace_root"),
            value.text_member("workspace_id"),
            value.text_member("socket_path"),
        ) {
            (Some(v), Some(pid), Some(workspace_root), Some(workspace_id), Some(socket_path)) => {
                Ok(
                    LockMetadata {
                        v: v as u32,
                        pid: pid as u32,
                        executable: value.text_member("executable"),
                        workspace_root,
                        workspace_id,
                        socket_path,
                    },
                )
            },
            _ => Err("lock metadata is incomplete".to_owned()),
        }
    }
}

/// A lock that another holds: by whom, or why that cannot be told.
#[derive(Clone, Debug, PartialEq, Eq)]
pub struct LockConflict {
    pub path: String,
    pub metadata: Option<LockMetadata>,
    pub metadata_error: Option<String>,
}

/// Who holds the lock, in words.
pub open spec fn owner_text(conflict: LockConflict) -> Seq<char> {
    match conflict.metadata {
        Some(metadata) => holder_text(metadata@),
        None => match conflict.metadata_error {
            Some(error) => "metadata unreadable: "@ + error@,
            None => "metadata missing"@,
        },
    }
}

impl LockConflict {
    /// Who holds the lock, in words.
    pub fn owner_summary(&self) -> (r: String)
        ensures
            r@ == owner_text(*self),
    {
        match &self.metadata {
            Some(metadata) => metadata.summary(),
            None => match &self.metadata_error {
                Some(error) => text::text2("metadata unreadable: ", error.as_str()),
                None => "metadata missing".to_owned(),
            },
        }
    }
}

/// The holder that the text of a lock file names, or why none can be told.
pub open spec fn holder_of_text(raw: Seq<char>) -> Result<HolderView, Seq<char>> {
    match json::json_parsed(text::trim(raw)) {
        Err(message) => Err(message),
        Ok(value) => match members::repeated_in(text::trim(raw), lock_names()) {
            Some(name) => Err(members::repeated_words(name)),
            None => match lock_complaint(value) {
                Some(message) => Err(message),
                None => Ok(holder_in(value)),
            },
        },
    }
}

/// The names of the fields of a lock file.
pub open spec fn lock_names() -> Seq<Seq<char>> {
    text::str_views(
        seq!["v", "pid", "executable", "workspace_root", "workspace_id", "socket_path"],
    )
}

proof fn lemma_holder_names()
    ensures
        "v"@.len() == 1,
        "pid"@.len() == 3,
        "executable"@.len() == 10,
        "workspace_root"@.len() == 14,
        "workspace_id"@.len() == 12,
        "socket_path"@.len() == 11,
{
    reveal_strlit("v");
    reveal_strlit("pid");
    reveal_strlit("executable");
    reveal_strlit("workspace_root");
    reveal_strlit("workspace_id");
    reveal_strlit("socket_path");
}

proof fn lemma_holder_members(holder: HolderView)
    ensures
        ({
            let value = holder_json(holder);
            &&& json::member_of(value, "v"@) == Some(
                JsonView::Number(text::decimal(holder.v as nat)),
            )
            &&& json::member_of(value, "pid"@) == Some(
                JsonView::Number(text::decimal(holder.pid as nat)),
            )
            &&& json::member_of(value, "executable"@) == Some(
                match holder.executable {
                    Some(executable) => JsonView::Text(executable),
                    None => JsonView::Null,
                },
            )
            &&& json::member_of(value, "workspace_root"@) == Some(
                JsonView::Text(holder.workspace_root),
            )
            &&& json::member_of(value, "workspace_id"@) == Some(
                JsonView::Text(holder.workspace_id),
            )
            &&& json::member_of(value, "socket_path"@) == Some(JsonView::Text(holder.socket_path))
        }),
{
    lemma_holder_names();
    let members = holder_json(holder)->Object_0;
    let names = seq![
        "v"@,
        "pid"@,
        "executable"@,
        "workspace_root"@,
        "workspace_id"@,
        "socket_path"@,
    ];
    let m0 = json::no_members();
    let m1 = m0.push(members[0]);
    let m2 = m1.push(members[1]);
    let m3 = m2.push(members[2]);
    let m4 = m3.push(members[3]);
    let m5 = m4.push(members[4]);
    assert(members =~= m5.push(members[5]));
    assert forall|k: int| 0 <= k < 6 implies json::first_member(members, #[trigger] names[k])
        == Some(members[k].1) by {
        json::lemma_first_member_push(m0, members[0], names[k]);
        json::lemma_first_member_push(m1, members[1], names[k]);
        json::lemma_first_member_push(m2, members[2], names[k]);
        json::lemma_first_member_push(m3, members[3], names[k]);
        json::lemma_first_member_push(m4, members[4], names[k]);
        json::lemma_first_member_push(m5, members[5], names[k]);
    }
    assert(names[0] == "v"@ && names[1] == "pid"@ && names[2] == "executable"@ && names[3]
        == "workspace_root"@ && names[4] == "workspace_id"@ && names[5] == "socket_path"@);
}

proof fn lemma_holder_is_printable(holder: HolderView)
    ensures
        json::printable(holder_json(holder), json::depth_limit()),
{
    lemma_holder_names();
    let members = holder_json(holder)->Object_0;
    assert(members.len() == 6);
    assert(json::is_integer(text::decimal(holder.v as u64 as nat)));
    assert(json::is_integer(text::decimal(holder.pid as u64 as nat)));
    assert forall|i: int, j: int| 0 <= i < j < members.len() implies (#[trigger] members[i]).0 != (
    #[trigger] members[j]).0 by {
        assert(members[0].0 == "v"@ && members[1].0 == "pid"@ && members[2].0 == "executable"@
            && members[3].0 == "workspace_root"@ && members[4].0 == "workspace_id"@
            && members[5].0 == "socket_path"@);
    }
    assert forall|i: int| 0 <= i < members.len() implies json::printable(
        (#[trigger] members[i]).1,
        (json::depth_limit() - 1) as nat,
    ) by {
        assert(i == 0 || i == 1 || i == 2 || i == 3 || i == 4 || i == 5);
    }
}

proof fn lemma_holder_is_read(holder: HolderView, read: JsonView)
    requires
        json::same_value(holder_json(holder), read),
    ensures
        lock_complaint(read) is None,
        holder_in(read) == holder,
{
    let value = holder_json(holder);
    let fields = lock_fields();
    lemma_holder_members(holder);
    json::lemma_decimal_is_read_back(holder.v as nat);
    json::lemma_decimal_is_read_back(holder.pid as nat);
    assert(fields[0].name@ == "v"@ && fields[1].name@ == "pid"@ && fields[2].name@
        == "executable"@ && fields[3].name@ == "workspace_root"@ && fields[4].name@
        == "workspace_id"@ && fields[5].name@ == "socket_path"@);
    let members = value->Object_0;
    assert forall|i: int| 0 <= i < members.len() implies json::has_field(
        fields,
        (#[trigger] members[i]).0,
    ) by {
        assert(fields[i].name@ == members[i].0);
    }
    assert(json::conforms(value, fields));
    json::lemma_same_fields(value, read, fields);
    json::lemma_complaint(read, "LockMetadata"@, fields, 6);
    json::lemma_same_members(value, read, "v"@);
    json::lemma_same_members(value, read, "pid"@);
    json::lemma_same_members(value, read, "executable"@);
    json::lemma_same_members(value, read, "workspace_root"@);
    json::lemma_same_members(value, read, "workspace_id"@);
    json::lemma_same_members(value, read, "socket_path"@);
}

/// Whether a conflict names the holder that the lock file at `path` tells, or why it tells none.
pub open spec fn conflicts_with(
    conflict: LockConflict,
    path: String,
    raw: Result<String, String>,
) -> bool {
    &&& conflict.path == path
    &&& conflict.metadata is None <==> conflict.metadata_error is Some
    &&& match raw {
        Err(error) => conflict.metadata_error == Some(error),
        Ok(raw) => match holder_of_text(raw@) {
            Ok(holder) => conflict.metadata matches Some(metadata) && metadata@ == holder,
            Err(message) => conflict.metadata_error matches Some(error) && error@ == message,
        },
    }
    &&& raw matches Ok(raw) ==> forall|holder: HolderView| #[trigger]
        json::json_text(holder_json(holder)) == text::trim(raw@) ==> (conflict.metadata matches Some(
            metadata,
        ) && metadata@ == holder)
}

/// The conflict with whoever holds the lock at `path`: `raw` is what the lock file holds, or why it
/// could not be read. A holder that wrote the file is named as it was.
pub fn read_conflict(path: String, raw: Result<String, String>) -> (r: LockConflict)
    ensures
        conflicts_with(r, path, raw),
{
    let raw = match raw {
        Ok(raw) => raw,
        Err(error) => {
            return LockConflict { path, metadata: None, metadata_error: Some(error) };
        },
    };
    let trimmed = text::trimmed(raw.as_str());
    let parsed = Json::parse(trimmed.as_str());
    let known = vec!["v", "pid", "executable", "workspace_root", "workspace_id", "socket_path"];
    assert(text::str_views(known@) =~= lock_names());
    let repeated = members::repeated_member(trimmed.as_str(), &known);
    proof {
        assert forall|holder: HolderView| #[trigger]
            json::json_text(holder_json(holder)) == text::trim(raw@) implies parsed is Ok
            && repeated is None && lock_complaint(parsed->Ok_0@) is None && holder_in(
            parsed->Ok_0@,
        ) == holder by {
            lemma_holder_is_printable(holder);
            lemma_holder_is_read(holder, parsed->Ok_0@);
        }
    }
    let value = match parsed {
        Ok(value) => value,
        Err(error) => {
            return LockConflict { path, metadata: None, metadata_error: Some(error) };
        },
    };
    if let Some(name) = repeated {
        let error = text::text3("duplicate field `", name.as_str(), "`");
        return LockConflict { path, metadata: None, metadata_error: Some(error) };
    }
    match LockMetadata::decode(&value) {
        Ok(metadata) => LockConflict { path, metadata: Some(metadata), metadata_error: None },
        Err(error) => LockConflict { path, metadata: None, metadata_error: Some(error) },
    }
}

/// The error of a daemon that finds the lock held.
pub fn lock_conflict_error(conflict: LockConflict) -> (r: AppError)
    ensures
        r matches AppError::DaemonLockHeld { path, owner } && path == conflict.path && owner@
            == owner_text(conflict),
{
    let owner = conflict.owner_summary();
    AppError::DaemonLockHeld { path: conflict.path, owner }
}

/// What came of making a lock file, with its directory and what stands in it.
#[derive(Debug, PartialEq, Eq)]
pub enum LockFile {
    Made,
    /// There is one already, which holds this, or could not be read.
    Exists(Result<String, String>),
    Failed(String),
}

/// The lock of a workspace, which is held as long as its file is there.
#[derive(Debug, PartialEq, Eq)]
pub struct WorkspaceLock {
    pub path: String,
}

impl WorkspaceLock {
    /// The lock whose file is at `path`, if the file could be made. The conflict with whoever holds
    /// it tells who that is.
    pub fn acquire(path: String, file: LockFile) -> (r: Result<WorkspaceLock, LockConflict>)
        ensures
            match file {
                LockFile::Made => r matches Ok(lock) && lock.path == path,
                LockFile::Exists(raw) => r matches Err(conflict) && conflicts_with(
                    conflict,
                    path,
                    raw,
                ),
                LockFile::Failed(error) => r matches Err(conflict) && conflict == (LockConflict {
                    path,
                    metadata: None,
                    metadata_error: Some(error),
                }),
            },
    {
        match file {
            LockFile::Made => Ok(WorkspaceLock { path }),
            LockFile::Exists(raw) => Err(read_conflict(path, raw)),
            LockFile::Failed(error) => Err(
                LockConflict { path, metadata: None, metadata_error: Some(error) },
            ),
        }
    }
}

/// Turns down what needs a workspace without a daemon: `found` is what the lock file at `path` holds,
/// if there is one.
pub fn ensure_workspace_unlocked(path: String, found: Option<Result<String, String>>) -> (r:
    AppResult<()>)
    ensures
        match found {
            None => r is Ok,
            Some(raw) => r matches Err(AppError::DaemonLockHeld { path: held, owner }) && held
                == path && exists|conflict: LockConflict| #[trigger]
                conflicts_with(conflict, path, raw) && owner@ == owner_text(conflict),
        },
{
    match found {
        None => Ok(()),
        Some(raw) => Err(lock_conflict_error(read_conflict(path, raw))),
    }
}

/// A lock tells the process that holds it, its workspace and its socket.
pub proof fn law_locks_are_written_by_name(holder: HolderView)
    ensures
        holder_json(holder) matches JsonView::Object(m)
            && m.len() == 6
            && m[0] == ("v"@, JsonView::Number(text::decimal(holder.v as nat)))
            && m[1] == ("pid"@, JsonView::Number(text::decimal(holder.pid as nat)))
            && m[2] == ("executable"@, match holder.executable {
            Some(executable) => JsonView::Text(executable),
            None => JsonView::Null,
        })
            && m[3] == ("workspace_root"@, JsonView::Text(holder.workspace_root))
            && m[4] == ("workspace_id"@, JsonView::Text(holder.workspace_id))
            && m[5] == ("socket_path"@, JsonView::Text(holder.socket_path)),
{
    let m = holder_json(holder)->Object_0;
    assert(m[0] == ("v"@, JsonView::Number(text::decimal(holder.v as nat))));
    assert(m[1] == ("pid"@, JsonView::Number(text::decimal(holder.pid as nat))));
    assert(m[2] == ("executable"@, match holder.executable {
            Some(executable) => JsonView::Text(executable),
            None => JsonView::Null,
        }));
    assert(m[3] == ("workspace_root"@, JsonView::Text(holder.workspace_root)));
    assert(m[4] == ("workspace_id"@, JsonView::Text(holder.workspace_id)));
    assert(m[5] == ("socket_path"@, JsonView::Text(holder.socket_path)));
}

/// Whoever finds a lock taken is told its holder where that can be read, and else why it cannot.
pub proof fn law_holders_are_named(conflict: LockConflict)
    ensures
        conflict.metadata matches Some(metadata) ==> owner_text(conflict) == "pid="@ + text::decimal(
            metadata.pid as nat,
        ) + ", executable="@ + (match metadata.executable {
            Some(executable) => executable@,
            None => "unknown executable"@,
        }) + ", workspace_id="@ + metadata.workspace_id@ + ", socket_path="@
            + metadata.socket_path@,
        conflict.metadata is None ==> (conflict.metadata_error matches Some(error) ==> owner_text(
            conflict,
        ) == "metadata unreadable: "@ + error@),
        conflict.metadata is None && conflict.metadata_error is None ==> owner_text(conflict)
            == "metadata missing"@,
{
}

} // verus!
