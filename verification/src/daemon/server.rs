//! Where a daemon lives, and what it makes sure of before it serves.
use crate::paths;
use crate::text;
use vstd::prelude::*;

verus! {

/// The mode of a directory that only its owner may enter.
pub const PRIVATE_DIRECTORY_MODE: u32 = 0o700;

/// The mode of a socket that only its owner may use.
pub const SOCKET_MODE: u32 = 0o600;

/// The places of a daemon.
#[derive(Debug, PartialEq, Eq)]
pub struct DaemonPaths {
    pub workspace_root: String,
    pub workspace_id: String,
    pub socket_path: String,
    pub lock_path: String,
    pub ledger_path: String,
}

impl Clone for DaemonPaths {
    fn clone(&self) -> (r: DaemonPaths)
        ensures
            r == *self,
    {
        DaemonPaths {
            workspace_root: self.workspace_root.clone(),
            workspace_id: self.workspace_id.clone(),
            socket_path: self.socket_path.clone(),
            lock_path: self.lock_path.clone(),
            ledger_path: self.ledger_path.clone(),
        }
    }
}

impl DaemonPaths {
    /// The places of the daemon of the workspace at the canonical path `workspace_root`. Its socket
    /// is where the caller says, and else with its lock under the runtime directory.
    pub fn resolve(
        workspace_root: String,
        socket_path: Option<String>,
        state_home: &str,
        runtime_home: &str,
    ) -> (r: DaemonPaths)
        ensures
            r.workspace_root == workspace_root,
            r.workspace_id@ == paths::workspace_identity(workspace_root@),
            r.ledger_path@ == paths::joined_path(
                paths::workspace_directory(state_home@, r.workspace_id@),
                "agent.db"@,
            ),
            r.lock_path@ == paths::joined_path(
                paths::workspace_directory(runtime_home@, r.workspace_id@),
                "agent.lock"@,
            ),
            r.socket_path@ == match socket_path {
                Some(path) => path@,
                None => paths::joined_path(
                    paths::workspace_directory(runtime_home@, r.workspace_id@),
                    "agent.sock"@,
                ),
            },
    {
        let workspace_id = paths::workspace_id_from_canonical_path(workspace_root.as_str());
        let socket_path = match socket_path {
            Some(path) => path,
            None => paths::default_socket_path(runtime_home, workspace_id.as_str()),
        };
        DaemonPaths {
            socket_path,
            lock_path: paths::default_lock_path(runtime_home, workspace_id.as_str()),
            ledger_path: paths::default_sqlite_path(state_home, workspace_id.as_str()),
            workspace_root,
            workspace_id,
        }
    }
}

/// The octal numeral of `n`.
pub open spec fn octal(n: nat) -> Seq<char>
    decreases n,
{
    if n < 8 {
        seq![text::digit(n)]
    } else {
        octal(n / 8).push(text::digit(n % 8))
    }
}

/// The octal numeral of `n`, filled up with zeros to four digits.
pub open spec fn octal4(n: nat) -> Seq<char> {
    let digits = octal(n);
    if digits.len() >= 4 {
        digits
    } else {
        Seq::new((4 - digits.len()) as nat, |i: int| '0') + digits
    }
}

fn octal_text(n: u32) -> (r: String)
    ensures
        r@ == octal(n as nat),
    decreases n,
{
    if n < 8 {
        let mut r = String::new();
        r.push((48 + n as u8) as char);
        assert(r@ =~= octal(n as nat));
        r
    } else {
        let mut r = octal_text(n / 8);
        r.push((48 + (n % 8) as u8) as char);
        r
    }
}

fn octal4_text(n: u32) -> (r: String)
    ensures
        r@ == octal4(n as nat),
{
    let digits = octal_text(n);
    let len: usize = digits.as_str().unicode_len();
    let mut r = String::new();
    let mut i: usize = len;
    while i < 4
        invariant
            len == octal(n as nat).len(),
            i >= len,
            i == len || i <= 4,
            r@ == Seq::new((i - len) as nat, |j: int| '0'),
        decreases 4 - i,
    {
        r.push('0');
        i += 1;
        assert(r@ =~= Seq::new((i - len) as nat, |j: int| '0'));
    }
    r.append(digits.as_str());
    assert(r@ =~= octal4(n as nat));
    r
}

/// Whether a path has the mode that keeps others out; if not, what is wrong with it. Only the bits
/// of owner, group and others count.
pub fn verify_mode(path: &str, mode: u32, expected: u32) -> (r: Result<(), String>)
    requires
        expected < 512,
    ensures
        r is Ok <==> mode & 511 == expected,
        r matches Err(message) ==> message@ == "unsafe permissions on "@ + path@ + ": expected "@
            + octal4(expected as nat) + ", got "@ + octal4((mode & 511) as nat),
{
    let actual: u32 = mode & 511;
    if actual == expected {
        return Ok(());
    }
    let mut message = text::text3("unsafe permissions on ", path, ": expected ");
    message.append(octal4_text(expected).as_str());
    message.append(", got ");
    message.append(octal4_text(actual).as_str());
    Err(message)
}

/// The path that the first `count` components of a path make.
pub open spec fn ancestor(path: Seq<char>, count: int) -> Seq<char> {
    let tail = text::joined(paths::components_of(path).take(count), "/"@);
    if paths::is_absolute(path) {
        "/"@ + tail
    } else {
        tail
    }
}

fn ancestor_of(path: &str, parts: &Vec<String>, count: usize) -> (r: String)
    requires
        text::views(parts@) == paths::components_of(path@),
        count <= parts@.len(),
    ensures
        r@ == ancestor(path@, count as int),
{
    let mut kept: Vec<String> = Vec::new();
    let ghost all = text::views(parts@);
    assert(text::views(kept@) =~= all.take(0));
    for i in 0..count
        invariant
            all == text::views(parts@),
            count <= parts@.len(),
            text::views(kept@) == all.take(i as int),
    {
        let ghost before = text::views(kept@);
        kept.push(parts[i].clone());
        assert(text::views(kept@) =~= before.push(all[i as int]));
        assert(all.take(i + 1) =~= before.push(all[i as int]));
    }
    let tail = text::join(&kept, "/");
    if paths::absolute(path) {
        text::text2("/", tail.as_str())
    } else {
        tail
    }
}

/// The directories that only their owner may enter, innermost first: all from `parent` up to `root`
/// where there is one, and else `parent` alone.
pub open spec fn private_chain(parent: Seq<char>, root: Option<Seq<char>>) -> Seq<Seq<char>> {
    match root {
        None => seq![parent],
        Some(root) => {
            let inner = paths::components_of(parent).len();
            let outer = paths::components_of(root).len();
            Seq::new((inner - outer + 1) as nat, |i: int| ancestor(parent, inner - i))
        },
    }
}

/// The directories that are to be closed to others, innermost first; `parent` has to lie in `root`
/// where there is one.
pub fn private_directories(parent: &str, root: &Option<String>) -> (r: Result<Vec<String>, String>)
    ensures
        root is Some && !paths::lies_in(parent@, root->Some_0@) ==> (r matches Err(message)
            && message@ == "private directory is outside its runtime root"@),
        root is None || paths::lies_in(parent@, root->Some_0@) ==> (r matches Ok(directories)
            && text::views(directories@) == private_chain(parent@, text::opt_view(*root))),
{
    let root = match root {
        Some(root) => root,
        None => {
            let directories = vec![parent.to_owned()];
            assert(text::views(directories@) =~= seq![parent@]);
            return Ok(directories);
        },
    };
    if !paths::path_lies_in(parent, root.as_str()) {
        return Err("private directory is outside its runtime root".to_owned());
    }
    let parts = paths::components(parent);
    let outer = paths::components(root.as_str());
    let ghost chain = private_chain(parent@, Some(root@));
    proof {
        assert(text::views(parts@).len() == parts@.len());
        assert(text::views(outer@).len() == outer@.len());
    }
    let mut directories: Vec<String> = Vec::new();
    let mut count: usize = parts.len();
    assert(text::views(directories@) =~= chain.take(0));
    let mut more = true;
    while more
        invariant
            text::views(parts@) == paths::components_of(parent@),
            outer@.len() == paths::components_of(root@).len(),
            parts@.len() == paths::components_of(parent@).len(),
            chain == private_chain(parent@, Some(root@)),
            outer@.len() <= parts@.len(),
            count <= parts@.len(),
            more ==> outer@.len() <= count && directories@.len() == parts@.len() - count,
            !more ==> directories@.len() == chain.len(),
            text::views(directories@) == chain.take(directories@.len() as int),
        decreases count + (if more { 1int } else { 0int }),
    {
        let ghost before = text::views(directories@);
        let ghost k = directories@.len() as int;
        let directory = ancestor_of(parent, &parts, count);
        directories.push(directory);
        proof {
            assert(chain[k] == ancestor(parent@, count as int));
            assert(text::views(directories@) =~= before.push(chain[k]));
            assert(chain.take(k + 1) =~= before.push(chain[k]));
        }
        if count > outer.len() {
            count -= 1;
        } else {
            more = false;
        }
    }
    assert(chain.take(chain.len() as int) =~= chain);
    Ok(directories)
}

/// The directory that a path lies in.
pub open spec fn parent_of(path: Seq<char>) -> Option<Seq<char>> {
    let parts = paths::components_of(path);
    if parts.len() == 0 {
        None
    } else {
        Some(ancestor(path, parts.len() - 1))
    }
}

fn parent_path(path: &str) -> (r: Option<String>)
    ensures
        text::opt_view(r) == parent_of(path@),
{
    let parts = paths::components(path);
    assert(text::views(parts@).len() == parts@.len());
    if parts.len() == 0 {
        None
    } else {
        Some(ancestor_of(path, &parts, parts.len() - 1))
    }
}

/// The directories to close for a file of the daemon under its runtime directory.
pub fn runtime_directories(runtime_home: &str, path: &str) -> (r: Result<Vec<String>, String>)
    ensures
        match parent_of(path@) {
            None => r matches Err(message) && message@ == "runtime path has no parent"@,
            Some(parent) => if paths::lies_in(parent, runtime_home@) {
                r matches Ok(directories) && text::views(directories@) == private_chain(
                    parent,
                    Some(runtime_home@),
                )
            } else {
                r matches Err(message) && message@
                    == "private directory is outside its runtime root"@
            },
        },
{
    match parent_path(path) {
        None => Err("runtime path has no parent".to_owned()),
        Some(parent) => private_directories(parent.as_str(), &Some(runtime_home.to_owned())),
    }
}

/// The directories to close for a socket: all up to the runtime directory where it lies there, and
/// else the one that it lies in.
pub fn socket_directories(runtime_home: &str, socket_path: &str) -> (r: Result<Vec<String>, String>)
    ensures
        match parent_of(socket_path@) {
            None => r matches Err(message) && message@ == "socket path has no parent"@,
            Some(parent) => r matches Ok(directories) && text::views(directories@)
                == private_chain(
                parent,
                if paths::lies_in(parent, runtime_home@) {
                    Some(runtime_home@)
                } else {
                    None
                },
            ),
        },
{
    match parent_path(socket_path) {
        None => Err("socket path has no parent".to_owned()),
        Some(parent) => {
            let root = if paths::path_lies_in(parent.as_str(), runtime_home) {
                Some(runtime_home.to_owned())
            } else {
                None
            };
            private_directories(parent.as_str(), &root)
        },
    }
}

/// The directories that are closed for a file under the runtime directory run from the file's own
/// directory to the runtime directory, one for each step: none above it is touched.
pub proof fn law_only_own_directories_are_closed(parent: Seq<char>, root: Seq<char>)
    requires
        paths::lies_in(parent, root),
    ensures
        private_chain(parent, Some(root))[0] == ancestor(
            parent,
            paths::components_of(parent).len() as int,
        ),
        private_chain(parent, Some(root)).last() == ancestor(
            parent,
            paths::components_of(root).len() as int,
        ),
        private_chain(parent, Some(root)).len() == paths::components_of(parent).len()
            - paths::components_of(root).len() + 1,
{
}

/// The number that octal digits stand for.
pub open spec fn octal_value(digits: Seq<char>) -> nat
    decreases digits.len(),
{
    if digits.len() == 0 {
        0
    } else {
        octal_value(digits.drop_last()) * 8 + (digits.last() as u32 - 48) as nat
    }
}

/// Modes are shown in octal, with at least four digits, and can be read back.
pub proof fn law_modes_are_shown_in_octal(n: nat)
    ensures
        octal_value(octal(n)) == n,
        octal(n).len() > 0,
        octal4(n).len() >= 4,
        octal(n).len() >= 4 ==> octal4(n) == octal(n),
        octal(n).len() < 4 ==> octal4(n).len() == 4 && octal4(n).skip(4 - octal(n).len()) == octal(n)
            && forall|i: int| 0 <= i < 4 - octal(n).len() ==> (#[trigger] octal4(n)[i]) == '0',
    decreases n,
{
    let last = text::digit(n % 8);
    vstd::utf8::char_u32_cast(last, (48 + n % 8) as u32);
    assert(last as u32 == 48 + n % 8);
    assert(octal(n).last() == last);
    if n >= 8 {
        law_modes_are_shown_in_octal(n / 8);
        assert(octal(n).drop_last() =~= octal(n / 8));
        assert(octal_value(octal(n)) == octal_value(octal(n / 8)) * 8 + n % 8);
    } else {
        assert(octal(n).drop_last() =~= Seq::empty());
        assert(octal_value(octal(n).drop_last()) == 0);
    }
    if octal(n).len() < 4 {
        assert(octal4(n).skip(4 - octal(n).len()) =~= octal(n));
    }
}

} // verus!
