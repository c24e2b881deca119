//! Serves the user-level Cursor skills to Remote SSH sessions: the endpoint that only its
//! random token opens, and the scripts that install the skills on the remote host.
use vstd::prelude::*;
use vstd::utf8::encode_utf8;

use crate::blob::{base64_encode, base64_standard};
use crate::text::{decimal, join, push_str, views};

verus! {

/// The path under which the skill scripts are served.
pub const ENDPOINT_PREFIX: &'static str = "/.cursor-byok/remote-ssh/skills";

/// The address part of the URLs the remote host fetches through the forwarded port.
pub const LOOPBACK: &'static str = "http://127.0.0.1:";

/// Whether `c` is a lowercase hexadecimal digit.
pub open spec fn is_lower_hex(c: char) -> bool {
    ('0' <= c && c <= '9') || ('a' <= c && c <= 'f')
}

/// `uuid::Uuid::new_v4().simple().to_string()`: a fresh random identifier in its simple form,
/// which the crate renders as 32 lowercase hexadecimal digits. Nothing else is stated of it.
#[verifier::external_body]
pub(crate) fn random_token() -> (r: String)
    ensures
        r@.len() == 32,
        forall|i: int| 0 <= i < 32 ==> is_lower_hex(#[trigger] r@[i]),
{
    uuid::Uuid::new_v4().simple().to_string()
}

/// The platform whose script a request asks for.
#[derive(Clone, Copy, Debug, PartialEq, Eq, Structural)]
pub enum SkillPlatform {
    Unix,
    Windows,
}

/// The skill endpoint: the random token that guards it and the directories it reads skills
/// from, in priority order.
pub struct SkillSyncServer {
    pub token: String,
    pub sources: Vec<String>,
}

/// The endpoint path of a token, up to the platform.
pub open spec fn endpoint_path(token: Seq<char>) -> Seq<char> {
    ENDPOINT_PREFIX@ + "/"@ + token + "/"@
}

/// The URL of a platform's script for a token behind a forwarded port.
pub open spec fn script_url(port: u16, token: Seq<char>, platform: Seq<char>) -> Seq<char> {
    LOOPBACK@ + decimal(port as nat) + endpoint_path(token) + platform
}

/// The platform that a request path asks for under a token, if it asks for one.
pub open spec fn platform_of(path: Seq<char>, token: Seq<char>) -> Option<SkillPlatform> {
    if path == endpoint_path(token) + "unix"@ {
        Some(SkillPlatform::Unix)
    } else if path == endpoint_path(token) + "windows"@ {
        Some(SkillPlatform::Windows)
    } else {
        None
    }
}

impl SkillSyncServer {
    /// An endpoint with a fresh random token that reads the given directories.
    pub fn new(sources: Vec<String>) -> (r: SkillSyncServer)
        ensures
            r.sources@ == sources@,
            r.token@.len() == 32,
            forall|i: int| 0 <= i < 32 ==> is_lower_hex(#[trigger] r.token@[i]),
    {
        SkillSyncServer { token: random_token(), sources }
    }

    /// An endpoint with a given token that reads one directory.
    pub fn at(source: String, token: &str) -> (r: SkillSyncServer)
        ensures
            r.token@ == token@,
            r.sources@.len() == 1,
            r.sources@[0] == source,
    {
        SkillSyncServer { token: crate::text::copy(token), sources: vec![source] }
    }

    fn url(&self, port: u16, platform: &str) -> (r: String)
        ensures
            r@ == script_url(port, self.token@, platform@),
    {
        let mut r = crate::text::copy(LOOPBACK);
        let digits = crate::text::decimal_string(port as u64);
        push_str(&mut r, digits.as_str());
        push_str(&mut r, ENDPOINT_PREFIX);
        push_str(&mut r, "/");
        push_str(&mut r, self.token.as_str());
        push_str(&mut r, "/");
        push_str(&mut r, platform);
        r
    }

    /// The URL of the Unix script behind a forwarded port.
    pub fn unix_url(&self, port: u16) -> (r: String)
        ensures
            r@ == script_url(port, self.token@, "unix"@),
    {
        self.url(port, "unix")
    }

    /// The URL of the Windows script behind a forwarded port.
    pub fn windows_url(&self, port: u16) -> (r: String)
        ensures
            r@ == script_url(port, self.token@, "windows"@),
    {
        self.url(port, "windows")
    }

    /// The platform whose script `path` asks for; `None` unless the path carries this
    /// endpoint's token and names a platform.
    pub fn script_for_path(&self, path: &str) -> (r: Option<SkillPlatform>)
        ensures
            r == platform_of(path@, self.token@),
    {
        let mut base = crate::text::copy(ENDPOINT_PREFIX);
        push_str(&mut base, "/");
        push_str(&mut base, self.token.as_str());
        push_str(&mut base, "/");
        let mut unix = crate::text::copy(base.as_str());
        push_str(&mut unix, "unix");
        if crate::text::str_eq(path, unix.as_str()) {
            return Some(SkillPlatform::Unix);
        }
        let mut windows = base;
        push_str(&mut windows, "windows");
        if crate::text::str_eq(path, windows.as_str()) {
            return Some(SkillPlatform::Windows);
        }
        None
    }
}

/// Whether `name` may name a skill: 1 to 64 characters, each a lowercase ASCII letter, a digit
/// or `-`.
pub open spec fn valid_skill_name_spec(name: Seq<char>) -> bool {
    &&& 0 < name.len() <= 64
    &&& forall|i: int|
        0 <= i < name.len() ==> {
            let c = #[trigger] name[i];
            ('a' <= c && c <= 'z') || ('0' <= c && c <= '9') || c == '-'
        }
}

/// Whether `name` may name a skill.
pub fn valid_skill_name(name: &str) -> (r: bool)
    ensures
        r == valid_skill_name_spec(name@),
{
    let chars = crate::text::chars_of(name);
    if chars.len() == 0 || chars.len() > 64 {
        return false;
    }
    let mut i: usize = 0;
    while i < chars.len()
        invariant
            i <= chars.len(),
            chars@ == name@,
            forall|j: int|
                0 <= j < i ==> {
                    let c = #[trigger] chars@[j];
                    ('a' <= c && c <= 'z') || ('0' <= c && c <= '9') || c == '-'
                },
        decreases chars.len() - i,
    {
        let c = chars[i];
        if !(('a' <= c && c <= 'z') || ('0' <= c && c <= '9') || c == '-') {
            return false;
        }
        i = i + 1;
    }
    true
}

/// One file of a skill: its path relative to the source directory, its bytes, and whether it
/// is executable.
pub struct SkillFile {
    pub relative_path: String,
    pub contents: Vec<u8>,
    pub executable: bool,
}

/// A skill: its name and its files.
pub struct Skill {
    pub name: String,
    pub files: Vec<SkillFile>,
}

/// The names of a list of skills.
pub open spec fn skill_names(skills: Seq<Skill>) -> Seq<Seq<char>> {
    skills.map_values(|s: Skill| s.name@)
}

/// The skills of `skills` whose name no earlier skill carries, in order: where two sources
/// hold a skill of the same name, the earlier source wins.
pub open spec fn first_by_name(skills: Seq<Skill>) -> Seq<Skill>
    decreases skills.len(),
{
    if skills.len() == 0 {
        Seq::empty()
    } else if skill_names(skills.drop_last()).contains(skills.last().name@) {
        first_by_name(skills.drop_last())
    } else {
        first_by_name(skills.drop_last()).push(skills.last())
    }
}

proof fn lemma_names_push(skills: Seq<Skill>, s: Skill)
    ensures
        skill_names(skills.push(s)) == skill_names(skills).push(s.name@),
{
    assert(skill_names(skills.push(s)) =~= skill_names(skills).push(s.name@));
}

proof fn lemma_first_by_name_names(skills: Seq<Skill>, n: Seq<char>)
    ensures
        skill_names(first_by_name(skills)).contains(n) <==> skill_names(skills).contains(n),
    decreases skills.len(),
{
    if skills.len() > 0 {
        let rest = skills.drop_last();
        let last = skills.last();
        lemma_first_by_name_names(rest, n);
        lemma_first_by_name_names(rest, last.name@);
        assert(skills == rest.push(last));
        lemma_names_push(rest, last);
        let all = skill_names(rest).push(last.name@);
        assert(all.contains(n) <==> (skill_names(rest).contains(n) || n == last.name@)) by {
            if all.contains(n) {
                let j = choose|j: int| 0 <= j < all.len() && all[j] == n;
                if j < skill_names(rest).len() {
                    assert(skill_names(rest)[j] == n);
                }
            }
            if skill_names(rest).contains(n) {
                let j = choose|j: int|
                    0 <= j < skill_names(rest).len() && skill_names(rest)[j] == n;
                assert(all[j] == n);
            }
            if n == last.name@ {
                assert(all[all.len() - 1] == n);
            }
        }
        if !skill_names(rest).contains(last.name@) {
            let kept = first_by_name(rest);
            lemma_names_push(kept, last);
            let ks = skill_names(kept).push(last.name@);
            assert(ks.contains(n) <==> (skill_names(kept).contains(n) || n == last.name@)) by {
                if ks.contains(n) {
                    let j = choose|j: int| 0 <= j < ks.len() && ks[j] == n;
                    if j < skill_names(kept).len() {
                        assert(skill_names(kept)[j] == n);
                    }
                }
                if skill_names(kept).contains(n) {
                    let j = choose|j: int|
                        0 <= j < skill_names(kept).len() && skill_names(kept)[j] == n;
                    assert(ks[j] == n);
                }
                if n == last.name@ {
                    assert(ks[ks.len() - 1] == n);
                }
            }
        }
    }
}

/// The skills of all sources, where a later source's skill is dropped when an earlier one
/// carries its name.
pub fn first_skill_per_name(skills: Vec<Skill>) -> (r: Vec<Skill>)
    ensures
        r@ == first_by_name(skills@),
{
    let ghost all = skills@;
    let mut rest = skills;
    let mut kept: Vec<Skill> = Vec::new();
    let mut seen: Vec<String> = Vec::new();
    let ghost mut i: int = 0;
    while rest.len() > 0
        invariant
            0 <= i <= all.len(),
            rest@ == all.skip(i),
            kept@ == first_by_name(all.take(i)),
            views(seen@) == skill_names(kept@),
        decreases rest.len(),
    {
        let skill = rest.remove(0);
        proof {
            assert(all.take(i + 1).drop_last() == all.take(i));
            assert(all.take(i + 1).last() == skill);
            lemma_first_by_name_names(all.take(i), skill.name@);
        }
        if !crate::text::contains_str(&seen, skill.name.as_str()) {
            seen.push(crate::text::copy(skill.name.as_str()));
            kept.push(skill);
            proof {
                lemma_names_push(first_by_name(all.take(i)), skill);
                assert(views(seen@) =~= skill_names(kept@));
            }
        }
        proof {
            i = i + 1;
            assert(rest@ == all.skip(i));
        }
    }
    assert(all.take(all.len() as int) == all);
    kept
}

/// What a directory listing entry is; links are not followed.
#[derive(Clone, Copy, Debug, PartialEq, Eq, Structural)]
pub enum EntryKind {
    File,
    Dir,
    Symlink,
    Other,
}

/// One entry of the listing of a skill source, in the order of a depth-first walk that visits
/// the names of a directory in order: its path below the source (no components for the
/// source itself), its kind, and for a file whether it is executable and its bytes.
pub struct ListedEntry {
    pub components: Vec<String>,
    pub kind: EntryKind,
    pub executable: bool,
    pub contents: Vec<u8>,
}

/// The path of an entry below the source, by component.
pub open spec fn path_of(e: ListedEntry) -> Seq<Seq<char>> {
    views(e.components@)
}

/// Whether `path` lies strictly inside the directory `dir`.
pub open spec fn strictly_under(path: Seq<Seq<char>>, dir: Seq<Seq<char>>) -> bool {
    dir.len() < path.len() && path.take(dir.len() as int) == dir
}

/// The skill an entry makes, if any: a file `SKILL.md` makes its directory a skill root, named
/// by the directory (the source's own name for the source), when that name is valid.
pub open spec fn root_of(source_name: Seq<char>, e: ListedEntry) -> Option<(Seq<Seq<char>>, Seq<char>)> {
    let p = path_of(e);
    if e.kind == EntryKind::File && p.len() > 0 && p.last() == "SKILL.md"@ {
        let root = p.drop_last();
        let name = if root.len() > 0 {
            root.last()
        } else {
            source_name
        };
        if valid_skill_name_spec(name) {
            Some((root, name))
        } else {
            None
        }
    } else {
        None
    }
}

/// The skill roots of a listing with their names, in listing order.
pub open spec fn skill_roots(source_name: Seq<char>, listing: Seq<ListedEntry>) -> Seq<
    (Seq<Seq<char>>, Seq<char>),
>
    decreases listing.len(),
{
    if listing.len() == 0 {
        Seq::empty()
    } else {
        let before = skill_roots(source_name, listing.drop_last());
        match root_of(source_name, listing.last()) {
            Some(r) => before.push(r),
            None => before,
        }
    }
}

/// Whether `path` lies in another skill root nested inside `root`.
pub open spec fn in_nested_root(roots: Seq<(Seq<Seq<char>>, Seq<char>)>, root: Seq<Seq<char>>, path: Seq<Seq<char>>) -> bool {
    exists|j: int|
        0 <= j < roots.len() && strictly_under(roots[j].0, root) && #[trigger] strictly_under(
            path,
            roots[j].0,
        )
}

/// Whether an entry is a file of the skill at `root`: a regular file inside it, not inside a
/// skill root nested in it.
pub open spec fn skill_member(roots: Seq<(Seq<Seq<char>>, Seq<char>)>, root: Seq<Seq<char>>, e: ListedEntry) -> bool {
    e.kind == EntryKind::File && strictly_under(path_of(e), root) && !in_nested_root(
        roots,
        root,
        path_of(e),
    )
}

/// A path with every backslash turned into a slash.
pub open spec fn forward_slashes(s: Seq<char>) -> Seq<char> {
    s.map_values(|c: char| if c == '\\' { '/' } else { c })
}

/// The path of a skill file as the script writes it: its components below the source joined
/// by `/`, backslashes turned into slashes.
pub open spec fn relative_path(path: Seq<Seq<char>>) -> Seq<char> {
    forward_slashes(join(path, "/"@))
}

/// The text view of a skill file: its relative path, bytes and executable flag.
pub open spec fn file_view(f: SkillFile) -> (Seq<char>, Seq<u8>, bool) {
    (f.relative_path@, f.contents@, f.executable)
}

/// The files of the skill at `root`, in listing order.
pub open spec fn skill_file_views(
    roots: Seq<(Seq<Seq<char>>, Seq<char>)>,
    root: Seq<Seq<char>>,
    listing: Seq<ListedEntry>,
) -> Seq<(Seq<char>, Seq<u8>, bool)>
    decreases listing.len(),
{
    if listing.len() == 0 {
        Seq::empty()
    } else {
        let before = skill_file_views(roots, root, listing.drop_last());
        let e = listing.last();
        if skill_member(roots, root, e) {
            before.push((relative_path(path_of(e)), e.contents@, e.executable))
        } else {
            before
        }
    }
}

/// Whether `path` lies strictly inside `dir`.
fn is_strictly_under(path: &Vec<String>, dir: &Vec<String>) -> (r: bool)
    ensures
        r == strictly_under(views(path@), views(dir@)),
{
    if dir.len() >= path.len() {
        return false;
    }
    let mut i: usize = 0;
    while i < dir.len()
        invariant
            i <= dir.len() < path.len(),
            forall|k: int| 0 <= k < i ==> path@[k]@ == dir@[k]@,
        decreases dir.len() - i,
    {
        if !crate::text::str_eq(path[i].as_str(), dir[i].as_str()) {
            assert(views(path@).take(dir.len() as int)[i as int] != views(dir@)[i as int]);
            return false;
        }
        i = i + 1;
    }
    assert(views(path@).take(dir.len() as int) =~= views(dir@));
    true
}

/// The view of found skill roots.
pub open spec fn root_views(roots: Seq<(Vec<String>, String)>) -> Seq<(Seq<Seq<char>>, Seq<char>)> {
    roots.map_values(|r: (Vec<String>, String)| (views(r.0@), r.1@))
}

/// The skill root an entry makes (see [`root_of`]).
fn entry_root(source_name: &str, e: &ListedEntry) -> (r: Option<(Vec<String>, String)>)
    ensures
        match r {
            Some(p) => root_of(source_name@, *e) == Some((views(p.0@), p.1@)),
            None => root_of(source_name@, *e) is None,
        },
{
    proof {
        reveal_strlit("SKILL.md");
    }
    let n = e.components.len();
    if e.kind != EntryKind::File || n == 0 || !crate::text::str_eq(e.components[n - 1].as_str(), "SKILL.md") {
        return None;
    }
    let mut root: Vec<String> = Vec::new();
    let mut i: usize = 0;
    while i < n - 1
        invariant
            n == e.components.len() > 0,
            i <= n - 1,
            views(root@) == views(e.components@).take(i as int),
        decreases n - 1 - i,
    {
        let ghost before = root@;
        root.push(crate::text::copy(e.components[i].as_str()));
        assert(views(root@) =~= views(before).push(views(e.components@)[i as int]));
        assert(views(root@) =~= views(e.components@).take(i as int + 1));
        i = i + 1;
    }
    assert(views(root@) =~= path_of(*e).drop_last());
    let name = if root.len() > 0 {
        crate::text::copy(root[root.len() - 1].as_str())
    } else {
        crate::text::copy(source_name)
    };
    if !valid_skill_name(name.as_str()) {
        return None;
    }
    Some((root, name))
}

/// The skills of one source directory from its listing, one per skill root in listing order
/// (a later root of a taken name is kept; see [`first_skill_per_name`]). Each holds the regular
/// files inside its root, except those inside a nested skill root, in listing order, by their
/// path below the source with `/` separators. `source_name` names the source directory itself.
pub fn skill_files(source_name: &str, listing: &Vec<ListedEntry>) -> (r: Vec<Skill>)
    ensures
        r@.len() == skill_roots(source_name@, listing@).len(),
        forall|i: int|
            0 <= i < r@.len() ==> {
                let root = skill_roots(source_name@, listing@)[i];
                &&& (#[trigger] r@[i]).name@ == root.1
                &&& r@[i].files@.map_values(|f: SkillFile| file_view(f)) == skill_file_views(
                    skill_roots(source_name@, listing@),
                    root.0,
                    listing@,
                )
            },
{
    let ghost all = listing@;
    let mut roots: Vec<(Vec<String>, String)> = Vec::new();
    let mut k: usize = 0;
    while k < listing.len()
        invariant
            k <= listing.len(),
            all == listing@,
            root_views(roots@) == skill_roots(source_name@, all.take(k as int)),
        decreases listing.len() - k,
    {
        assert(all.take(k as int + 1).drop_last() =~= all.take(k as int));
        let ghost before = roots@;
        match entry_root(source_name, &listing[k]) {
            Some(p) => {
                roots.push(p);
                assert(root_views(roots@) =~= root_views(before).push((views(p.0@), p.1@)));
            },
            None => {},
        }
        k = k + 1;
    }
    assert(all.take(all.len() as int) =~= all);
    let ghost rv = root_views(roots@);
    let mut skills: Vec<Skill> = Vec::new();
    let mut i: usize = 0;
    while i < roots.len()
        invariant
            i <= roots.len(),
            all == listing@,
            rv == root_views(roots@),
            rv == skill_roots(source_name@, all),
            skills@.len() == i,
            forall|j: int|
                0 <= j < i ==> {
                    &&& (#[trigger] skills@[j]).name@ == rv[j].1
                    &&& skills@[j].files@.map_values(|f: SkillFile| file_view(f)) == skill_file_views(
                        rv,
                        rv[j].0,
                        all,
                    )
                },
        decreases roots.len() - i,
    {
        let files = files_of(&roots, i, listing);
        skills.push(Skill { name: crate::text::copy(roots[i].1.as_str()), files });
        i = i + 1;
    }
    skills
}

/// Whether `path` lies inside a skill root nested in root `i`.
fn nested_in(roots: &Vec<(Vec<String>, String)>, i: usize, path: &Vec<String>) -> (r: bool)
    requires
        i < roots@.len(),
    ensures
        r == in_nested_root(root_views(roots@), views(roots@[i as int].0@), views(path@)),
{
    let ghost rv = root_views(roots@);
    let mut j: usize = 0;
    while j < roots.len()
        invariant
            j <= roots.len(),
            i < roots@.len(),
            rv == root_views(roots@),
            forall|m: int|
                0 <= m < j ==> !(strictly_under(rv[m].0, rv[i as int].0) && #[trigger] strictly_under(
                    views(path@),
                    rv[m].0,
                )),
        decreases roots.len() - j,
    {
        if is_strictly_under(&roots[j].0, &roots[i].0) && is_strictly_under(path, &roots[j].0) {
            assert(strictly_under(rv[j as int].0, rv[i as int].0) && strictly_under(views(path@), rv[j as int].0));
            return true;
        }
        j = j + 1;
    }
    false
}

/// A path with every backslash turned into a slash.
fn with_forward_slashes(s: &str) -> (r: String)
    ensures
        r@ == forward_slashes(s@),
{
    let chars = crate::text::chars_of(s);
    let mut r = String::new();
    let mut i: usize = 0;
    while i < chars.len()
        invariant
            i <= chars.len(),
            chars@ == s@,
            r@ == forward_slashes(s@).take(i as int),
        decreases chars.len() - i,
    {
        let c = if chars[i] == '\\' {
            '/'
        } else {
            chars[i]
        };
        crate::text::push_char(&mut r, c);
        assert(r@ =~= forward_slashes(s@).take(i as int + 1));
        i = i + 1;
    }
    assert(forward_slashes(s@).take(chars.len() as int) =~= forward_slashes(s@));
    r
}

/// The files of skill root `i` (see [`skill_file_views`]).
fn files_of(roots: &Vec<(Vec<String>, String)>, i: usize, listing: &Vec<ListedEntry>) -> (r: Vec<SkillFile>)
    requires
        i < roots@.len(),
    ensures
        r@.map_values(|f: SkillFile| file_view(f)) == skill_file_views(
            root_views(roots@),
            root_views(roots@)[i as int].0,
            listing@,
        ),
{
    let ghost rv = root_views(roots@);
    let ghost root = rv[i as int].0;
    assert(root == views(roots@[i as int].0@));
    let mut files: Vec<SkillFile> = Vec::new();
    let mut k: usize = 0;
    while k < listing.len()
        invariant
            k <= listing.len(),
            i < roots@.len(),
            rv == root_views(roots@),
            root == views(roots@[i as int].0@),
            files@.map_values(|f: SkillFile| file_view(f)) == skill_file_views(rv, root, listing@.take(k as int)),
        decreases listing.len() - k,
    {
        assert(listing@.take(k as int + 1).drop_last() =~= listing@.take(k as int));
        assert(listing@.take(k as int + 1).last() == listing@[k as int]);
        let e = &listing[k];
        if e.kind == EntryKind::File && is_strictly_under(&e.components, &roots[i].0) && !nested_in(
            roots,
            i,
            &e.components,
        ) {
            let joined = crate::text::join_strs(&e.components, "/");
            let file = SkillFile {
                relative_path: with_forward_slashes(joined.as_str()),
                contents: vstd::slice::slice_to_vec(e.contents.as_slice()),
                executable: e.executable,
            };
            let ghost before = files@;
            files.push(file);
            assert(files@.map_values(|f: SkillFile| file_view(f)) =~= before.map_values(
                |f: SkillFile| file_view(f),
            ).push(file_view(file)));
        }
        k = k + 1;
    }
    assert(listing@.take(listing.len() as int) =~= listing@);
    files
}

/// Pieces of the Unix sync script.
pub const UNIX_HEAD: &'static str = "#!/usr/bin/env bash\nset +e\nif ! (\n  set -e\n  umask 077\n  skills_root=\"$HOME/.cursor/skills\"\n  agents_skills_root=\"$HOME/.agents/skills\"\n  managed=\"$skills_root/cursor-byok-synced\"\n  marker=\"$managed/.cursor-byok-managed\"\n  marker_content='Cursor BYOK managed user skills v1'\n  stage=\"$HOME/.cursor-byok-v3/remote-ssh/skills-stage.$$\"\n  trap 'rm -rf \"$stage\"' EXIT\n  if [ -e \"$managed\" ] && { [ ! -f \"$marker\" ] || [ \"$(cat \"$marker\")\" != \"$marker_content\" ]; }; then\n    printf '%s\\n' 'Cursor BYOK: refusing to replace an unowned remote skills directory.' >&2\n    exit 1\n  fi\n  rm -rf \"$stage\"\n  if [ ! -d \"$skills_root\" ]; then\n    mkdir -p \"$skills_root\"\n    chmod 700 \"$skills_root\"\n  fi\n  mkdir -p \"$stage\"\n  chmod 700 \"$stage\"\n  has_remote_skill() {\n    for remote_root in \"$skills_root\" \"$agents_skills_root\"; do\n      [ -d \"$remote_root\" ] || continue\n      while IFS= read -r -d '' skill_file; do\n        if [ \"$(basename \"$(dirname \"$skill_file\")\")\" = \"$1\" ]; then\n          return 0\n        fi\n      done < <(find \"$remote_root\" -path \"$managed\" -prune -o -type f -name SKILL.md -print0)\n    done\n    return 1\n  }\n";

pub const UNIX_TAIL: &'static str = "  printf '%s\\n' \"$marker_content\" > \"$stage/.cursor-byok-managed\"\n  chmod 600 \"$stage/.cursor-byok-managed\"\n  if [ -e \"$managed\" ]; then\n    rm -rf \"$managed\"\n  fi\n  mv \"$stage\" \"$managed\"\n); then\n  printf '%s\\n' 'Cursor BYOK: user skill sync failed; continuing the Remote SSH connection.' >&2\nfi\nexit 0\n";

pub const UNIX_SKILL_OPEN: &'static str = "  if has_remote_skill '";

pub const UNIX_SKILL_KEPT: &'static str = "'; then\n    printf '%s\\n' 'Cursor BYOK: kept remote skill ";

pub const UNIX_SKILL_ELSE: &'static str = "; skipped the local skill with the same name.' >&2\n  else\n";

pub const UNIX_SKILL_CLOSE: &'static str = "  fi\n";

pub const UNIX_FILE_PATH: &'static str = "    relative=$(printf %s ";

pub const UNIX_DECODE_OR: &'static str = " | base64 --decode 2>/dev/null || printf %s ";

pub const UNIX_FILE_CONTENTS: &'static str = " | base64 -D)\n    destination=\"$stage/$relative\"\n    mkdir -p \"$(dirname \"$destination\")\"\n    (printf %s ";

pub const UNIX_FILE_MODE: &'static str = " | base64 -D) > \"$destination\"\n    chmod ";

pub const UNIX_FILE_END: &'static str = " \"$destination\"\n";

/// The file mode a synced file gets.
pub open spec fn file_mode(executable: bool) -> Seq<char> {
    if executable {
        "700"@
    } else {
        "600"@
    }
}

/// The Unix lines that write one file into the stage.
pub open spec fn unix_file_block(f: SkillFile) -> Seq<char> {
    let p = base64_standard(encode_utf8(f.relative_path@));
    let c = base64_standard(f.contents@);
    UNIX_FILE_PATH@ + p + UNIX_DECODE_OR@ + p + UNIX_FILE_CONTENTS@ + c + UNIX_DECODE_OR@ + c
        + UNIX_FILE_MODE@ + file_mode(f.executable) + UNIX_FILE_END@
}

/// The Unix script's lines that write a skill's files, in order.
pub open spec fn unix_files(files: Seq<SkillFile>) -> Seq<char>
    decreases files.len(),
{
    if files.len() == 0 {
        Seq::empty()
    } else {
        unix_files(files.drop_last()) + unix_file_block(files.last())
    }
}

/// The Unix lines for one skill: kept as the remote's own when the remote has a skill of its
/// name, else written into the stage.
pub open spec fn unix_skill_block(s: Skill) -> Seq<char> {
    UNIX_SKILL_OPEN@ + s.name@ + UNIX_SKILL_KEPT@ + s.name@ + UNIX_SKILL_ELSE@ + unix_files(
        s.files@,
    ) + UNIX_SKILL_CLOSE@
}

/// The Unix script's blocks of the skills, in order.
pub open spec fn unix_skills(skills: Seq<Skill>) -> Seq<char>
    decreases skills.len(),
{
    if skills.len() == 0 {
        Seq::empty()
    } else {
        unix_skills(skills.drop_last()) + unix_skill_block(skills.last())
    }
}

/// The whole Unix sync script.
pub open spec fn unix_script(skills: Seq<Skill>) -> Seq<char> {
    UNIX_HEAD@ + unix_skills(skills) + UNIX_TAIL@
}

fn push_unix_file(out: &mut String, f: &SkillFile)
    ensures
        final(out)@ == old(out)@ + unix_file_block(*f),
{
    let p = base64_encode(f.relative_path.as_str().as_bytes());
    let c = base64_encode(f.contents.as_slice());
    push_str(out, UNIX_FILE_PATH);
    push_str(out, p.as_str());
    push_str(out, UNIX_DECODE_OR);
    push_str(out, p.as_str());
    push_str(out, UNIX_FILE_CONTENTS);
    push_str(out, c.as_str());
    push_str(out, UNIX_DECODE_OR);
    push_str(out, c.as_str());
    push_str(out, UNIX_FILE_MODE);
    if f.executable {
        push_str(out, "700");
    } else {
        push_str(out, "600");
    }
    push_str(out, UNIX_FILE_END);
}

fn push_unix_skill(out: &mut String, s: &Skill)
    ensures
        final(out)@ == old(out)@ + unix_skill_block(*s),
{
    let ghost start = out@;
    push_str(out, UNIX_SKILL_OPEN);
    push_str(out, s.name.as_str());
    push_str(out, UNIX_SKILL_KEPT);
    push_str(out, s.name.as_str());
    push_str(out, UNIX_SKILL_ELSE);
    let ghost opened = out@;
    let mut i: usize = 0;
    while i < s.files.len()
        invariant
            i <= s.files.len(),
            out@ == opened + unix_files(s.files@.take(i as int)),
        decreases s.files.len() - i,
    {
        assert(s.files@.take(i as int + 1).drop_last() == s.files@.take(i as int));
        push_unix_file(out, &s.files[i]);
        i = i + 1;
    }
    assert(s.files@.take(s.files.len() as int) == s.files@);
    push_str(out, UNIX_SKILL_CLOSE);
}

/// The Unix script that installs `skills` into the remote's managed directory, keeping
/// remote skills of the same name and refusing a directory it does not own.
pub fn render_unix(skills: &[Skill]) -> (r: String)
    ensures
        r@ == unix_script(skills@),
{
    let mut out = crate::text::copy(UNIX_HEAD);
    let mut i: usize = 0;
    while i < skills.len()
        invariant
            i <= skills.len(),
            out@ == UNIX_HEAD@ + unix_skills(skills@.take(i as int)),
        decreases skills.len() - i,
    {
        assert(skills@.take(i as int + 1).drop_last() == skills@.take(i as int));
        push_unix_skill(&mut out, &skills[i]);
        i = i + 1;
    }
    assert(skills@.take(skills.len() as int) == skills@);
    push_str(&mut out, UNIX_TAIL);
    out
}

/// Pieces of the PowerShell sync script.
pub const WINDOWS_HEAD: &'static str = "$previousErrorActionPreference = $ErrorActionPreference\ntry {\n  $ErrorActionPreference = 'Stop'\n  $skillsRoot = Join-Path $HOME '.cursor/skills'\n  $agentsSkillsRoot = Join-Path $HOME '.agents/skills'\n  $managed = Join-Path $skillsRoot 'cursor-byok-synced'\n  $marker = Join-Path $managed '.cursor-byok-managed'\n  $markerContent = 'Cursor BYOK managed user skills v1'\n  $stage = Join-Path $HOME \".cursor-byok-v3/remote-ssh/skills-stage-$PID\"\n  if ((Test-Path -LiteralPath $managed) -and ((-not (Test-Path -LiteralPath $marker -PathType Leaf)) -or ((Get-Content -LiteralPath $marker -Raw) -ne $markerContent))) {\n    throw 'refusing to replace an unowned remote skills directory'\n  }\n  Remove-Item -LiteralPath $stage -Recurse -Force -ErrorAction SilentlyContinue\n  New-Item -ItemType Directory -Force -Path $skillsRoot, $stage | Out-Null\n  $existing = [System.Collections.Generic.HashSet[string]]::new([System.StringComparer]::OrdinalIgnoreCase)\n  @($skillsRoot, $agentsSkillsRoot) | ForEach-Object {\n    $remoteRoot = $_\n    if (Test-Path -LiteralPath $remoteRoot -PathType Container) {\n      Get-ChildItem -LiteralPath $remoteRoot -Filter 'SKILL.md' -File -Recurse -Force | ForEach-Object {\n        if (-not $_.FullName.StartsWith($managed + [IO.Path]::DirectorySeparatorChar, [StringComparison]::OrdinalIgnoreCase)) {\n          [void]$existing.Add($_.Directory.Name)\n        }\n      }\n    }\n  }\n";

pub const WINDOWS_TAIL: &'static str = "  [IO.File]::WriteAllText((Join-Path $stage '.cursor-byok-managed'), $markerContent)\n  if (Test-Path -LiteralPath $managed) {\n    Remove-Item -LiteralPath $managed -Recurse -Force\n  }\n  Move-Item -LiteralPath $stage -Destination $managed\n} catch {\n  [Console]::Error.WriteLine(\"Cursor BYOK: user skill sync failed; continuing the Remote SSH connection. $($_.Exception.Message)\")\n} finally {\n  if ($stage) { Remove-Item -LiteralPath $stage -Recurse -Force -ErrorAction SilentlyContinue }\n  $ErrorActionPreference = $previousErrorActionPreference\n}\n";

pub const WINDOWS_SKILL_OPEN: &'static str = "  if ($existing.Contains('";

pub const WINDOWS_SKILL_KEPT: &'static str = "')) {\n    [Console]::Error.WriteLine('Cursor BYOK: kept remote skill ";

pub const WINDOWS_SKILL_ELSE: &'static str = "; skipped the local skill with the same name.')\n  } else {\n";

pub const WINDOWS_SKILL_CLOSE: &'static str = "  }\n";

pub const WINDOWS_FILE_PATH: &'static str = "    $relative = [Text.Encoding]::UTF8.GetString([Convert]::FromBase64String('";

pub const WINDOWS_FILE_CONTENTS: &'static str = "')).Replace('/', [IO.Path]::DirectorySeparatorChar)\n    $destination = Join-Path $stage $relative\n    New-Item -ItemType Directory -Force -Path ([IO.Path]::GetDirectoryName($destination)) | Out-Null\n    [IO.File]::WriteAllBytes($destination, [Convert]::FromBase64String('";

pub const WINDOWS_FILE_END: &'static str = "'))\n";

/// The PowerShell lines that write one file into the stage.
pub open spec fn windows_file_block(f: SkillFile) -> Seq<char> {
    WINDOWS_FILE_PATH@ + base64_standard(encode_utf8(f.relative_path@)) + WINDOWS_FILE_CONTENTS@
        + base64_standard(f.contents@) + WINDOWS_FILE_END@
}

/// The Windows script's lines that write a skill's files, in order.
pub open spec fn windows_files(files: Seq<SkillFile>) -> Seq<char>
    decreases files.len(),
{
    if files.len() == 0 {
        Seq::empty()
    } else {
        windows_files(files.drop_last()) + windows_file_block(files.last())
    }
}

/// The PowerShell lines for one skill.
pub open spec fn windows_skill_block(s: Skill) -> Seq<char> {
    WINDOWS_SKILL_OPEN@ + s.name@ + WINDOWS_SKILL_KEPT@ + s.name@ + WINDOWS_SKILL_ELSE@
        + windows_files(s.files@) + WINDOWS_SKILL_CLOSE@
}

/// The Windows script's blocks of the skills, in order.
pub open spec fn windows_skills(skills: Seq<Skill>) -> Seq<char>
    decreases skills.len(),
{
    if skills.len() == 0 {
        Seq::empty()
    } else {
        windows_skills(skills.drop_last()) + windows_skill_block(skills.last())
    }
}

/// The whole PowerShell sync script.
pub open spec fn windows_script(skills: Seq<Skill>) -> Seq<char> {
    WINDOWS_HEAD@ + windows_skills(skills) + WINDOWS_TAIL@
}

fn push_windows_file(out: &mut String, f: &SkillFile)
    ensures
        final(out)@ == old(out)@ + windows_file_block(*f),
{
    let p = base64_encode(f.relative_path.as_str().as_bytes());
    let c = base64_encode(f.contents.as_slice());
    push_str(out, WINDOWS_FILE_PATH);
    push_str(out, p.as_str());
    push_str(out, WINDOWS_FILE_CONTENTS);
    push_str(out, c.as_str());
    push_str(out, WINDOWS_FILE_END);
}

fn push_windows_skill(out: &mut String, s: &Skill)
    ensures
        final(out)@ == old(out)@ + windows_skill_block(*s),
{
    push_str(out, WINDOWS_SKILL_OPEN);
    push_str(out, s.name.as_str());
    push_str(out, WINDOWS_SKILL_KEPT);
    push_str(out, s.name.as_str());
    push_str(out, WINDOWS_SKILL_ELSE);
    let ghost opened = out@;
    let mut i: usize = 0;
    while i < s.files.len()
        invariant
            i <= s.files.len(),
            out@ == opened + windows_files(s.files@.take(i as int)),
        decreases s.files.len() - i,
    {
        assert(s.files@.take(i as int + 1).drop_last() == s.files@.take(i as int));
        push_windows_file(out, &s.files[i]);
        i = i + 1;
    }
    assert(s.files@.take(s.files.len() as int) == s.files@);
    push_str(out, WINDOWS_SKILL_CLOSE);
}

/// The PowerShell script that installs `skills` into the remote's managed directory.
pub fn render_windows(skills: &[Skill]) -> (r: String)
    ensures
        r@ == windows_script(skills@),
{
    let mut out = crate::text::copy(WINDOWS_HEAD);
    let mut i: usize = 0;
    while i < skills.len()
        invariant
            i <= skills.len(),
            out@ == WINDOWS_HEAD@ + windows_skills(skills@.take(i as int)),
        decreases skills.len() - i,
    {
        assert(skills@.take(i as int + 1).drop_last() == skills@.take(i as int));
        push_windows_skill(&mut out, &skills[i]);
        i = i + 1;
    }
    assert(skills@.take(skills.len() as int) == skills@);
    push_str(&mut out, WINDOWS_TAIL);
    out
}

/// The script a platform asks for, for the given skills.
pub fn render_script(platform: SkillPlatform, skills: &[Skill]) -> (r: String)
    ensures
        platform == SkillPlatform::Unix ==> r@ == unix_script(skills@),
        platform == SkillPlatform::Windows ==> r@ == windows_script(skills@),
{
    match platform {
        SkillPlatform::Unix => render_unix(skills),
        SkillPlatform::Windows => render_windows(skills),
    }
}

} // verus!
