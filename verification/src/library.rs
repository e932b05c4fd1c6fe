//! Where the HIP libraries are looked for.

use vstd::prelude::*;

verus! {

/// The platforms that HIP libraries are looked for on.
#[derive(Clone, Copy, Debug, PartialEq, Eq, Structural)]
pub enum Platform {
    Linux,
    WindowsX64,
    Other,
}

/// The path of a shared library, as the parts that are joined to make it.
#[derive(Debug)]
pub struct LibraryPath {
    platform: Platform,
    parts: Vec<String>,
}

/// What a path is: the platform whose rules it follows, and its parts.
#[verifier::ext_equal]
pub struct PathModel {
    pub platform: Platform,
    pub parts: Seq<Seq<char>>,
}

impl View for LibraryPath {
    type V = PathModel;

    closed spec fn view(&self) -> PathModel {
        PathModel { platform: self.platform, parts: self.parts@.map_values(|s: String| s@) }
    }
}

/// `part` in the directory `base`, by the rules of Linux: an absolute `part`
/// stands for itself, and otherwise a slash goes between the two unless `base`
/// is empty or ends in one.
pub open spec fn linux_join(base: Seq<char>, part: Seq<char>) -> Seq<char> {
    if part.len() > 0 && part[0] == '/' {
        part
    } else if base.len() == 0 || base.last() == '/' {
        base + part
    } else {
        base + seq!['/'] + part
    }
}

/// The parts joined one after the other by the rules of Linux.
pub open spec fn linux_joined(parts: Seq<Seq<char>>) -> Seq<char>
    decreases parts.len(),
{
    if parts.len() == 0 {
        seq![]
    } else {
        linux_join(linux_joined(parts.drop_last()), parts.last())
    }
}

/// Some platform takes `c` for what stands between the parts of a path.
pub open spec fn is_separator(c: char) -> bool {
    c == '/' || c == '\\'
}

/// `part` names one file or directory, whatever the platform: it holds no
/// separator and no drive, and is neither `.` nor `..`.
pub open spec fn plain_name(part: Seq<char>) -> bool {
    &&& part.len() > 0
    &&& part != seq!['.']
    &&& part != seq!['.', '.']
    &&& forall|i: int|
        0 <= i < part.len() ==> !is_separator(#[trigger] part[i]) && part[i] != ':'
}

/// `base` is what Windows takes letter for letter: it begins with `\\?\`.
pub open spec fn verbatim(base: Seq<char>) -> bool {
    base.len() >= 4 && base.take(4) == seq!['\\', '\\', '?', '\\']
}

/// `base` may be followed by a part at once: it ends in a separator, or in the
/// colon of a drive.
pub open spec fn needs_no_separator(base: Seq<char>) -> bool {
    base.len() == 0 || is_separator(base.last()) || base.last() == ':'
}

/// `text` may be what some platform makes of `part` in the directory `base`.
///
/// In the empty path a part stands for itself. A plain name comes last, and
/// unless `base` is verbatim, so that Windows rewrites it, it comes behind
/// `base` and a separator, which is left out only where `base` needs none.
pub open spec fn platform_joins(base: Seq<char>, part: Seq<char>, text: Seq<char>) -> bool {
    &&& base.len() == 0 ==> text == part
    &&& plain_name(part) ==> part.is_suffix_of(text)
    &&& base.len() > 0 && plain_name(part) && !verbatim(base) ==> {
        ||| text == base + seq!['/'] + part
        ||| text == base + seq!['\\'] + part
        ||| needs_no_separator(base) && text == base + part
    }
}

/// `steps` goes from the empty path to the whole one, one part at a time.
pub open spec fn joins_up(parts: Seq<Seq<char>>, steps: Seq<Seq<char>>) -> bool {
    &&& steps.len() == parts.len() + 1
    &&& steps[0].len() == 0
    &&& forall|i: int|
        0 <= i < parts.len() ==> platform_joins(#[trigger] steps[i], parts[i], steps[i + 1])
}

impl PathModel {
    /// The path may be written as `text`.
    pub open spec fn reads(self, text: Seq<char>) -> bool {
        if self.platform == Platform::Linux {
            text == linux_joined(self.parts)
        } else {
            exists|steps: Seq<Seq<char>>| #[trigger]
                joins_up(self.parts, steps) && steps.last() == text
        }
    }
}

/// `std::path::Path::join`, from text to text: `part` in the directory `base`,
/// by the rules of the running platform.
///
/// What is said is what every platform does. Which separator it puts is its own
/// affair. So is what comes of a part that is no plain name, since a rooted one
/// or one with a drive may replace `base`, and how Windows rewrites a verbatim
/// `base`: that is left unsaid here.
#[verifier::external_body]
fn platform_join_text(base: &String, part: &String) -> (text: String)
    ensures
        platform_joins(base@, part@, text@),
{
    std::path::Path::new(base).join(part).display().to_string()
}

/// `part` in the directory `base`, by the rules of Linux.
fn linux_join_text(base: String, part: &String) -> (text: String)
    ensures
        text@ == linux_join(base@, part@),
{
    proof {
        reveal_strlit("/");
    }
    let base_len: usize = base.as_str().unicode_len();
    if part.as_str().unicode_len() > 0 && part.as_str().get_char(0) == '/' {
        return part.clone();
    }
    let mut text = base;
    if base_len > 0 && text.as_str().get_char(base_len - 1) != '/' {
        text.append("/");
    }
    text.append(part.as_str());
    assert(text@ =~= linux_join(base@, part@));
    text
}

impl LibraryPath {
    /// A path of these parts, by the rules of `platform`.
    pub fn new(platform: Platform, parts: Vec<String>) -> (path: Self)
        ensures
            path@ == (PathModel { platform, parts: parts@.map_values(|s: String| s@) }),
    {
        LibraryPath { platform, parts }
    }

    /// The parts of the path, in order.
    pub fn parts(&self) -> (parts: &Vec<String>)
        ensures
            parts@.map_values(|s: String| s@) == self@.parts,
    {
        &self.parts
    }

    /// The path as text, joined as the platform joins paths.
    pub fn display(&self) -> (text: String)
        ensures
            self@.reads(text@),
    {
        match self.platform {
            Platform::Linux => {
                let ghost views = self.parts@.map_values(|s: String| s@);
                let mut text = String::new();
                let mut i: usize = 0;
                while i < self.parts.len()
                    invariant
                        i <= self.parts.len(),
                        views == self.parts@.map_values(|s: String| s@),
                        text@ == linux_joined(views.take(i as int)),
                    decreases self.parts.len() - i,
                {
                    text = linux_join_text(text, &self.parts[i]);
                    proof {
                        let longer = views.take(i + 1);
                        assert(longer.drop_last() =~= views.take(i as int));
                    }
                    i += 1;
                }
                assert(views.take(i as int) =~= views);
                text
            },
            _ => {
                let ghost views = self.parts@.map_values(|s: String| s@);
                let mut text = String::new();
                let ghost mut steps: Seq<Seq<char>> = seq![text@];
                let mut i: usize = 0;
                while i < self.parts.len()
                    invariant
                        i <= self.parts.len(),
                        views == self.parts@.map_values(|s: String| s@),
                        steps.len() == i + 1,
                        steps[0].len() == 0,
                        steps.last() == text@,
                        forall|j: int|
                            0 <= j < i ==> platform_joins(
                                #[trigger] steps[j],
                                views[j],
                                steps[j + 1],
                            ),
                    decreases self.parts.len() - i,
                {
                    text = platform_join_text(&text, &self.parts[i]);
                    proof {
                        steps = steps.push(text@);
                    }
                    i += 1;
                }
                assert(joins_up(self@.parts, steps));
                text
            },
        }
    }
}

/// A path of a single part reads as that part.
pub proof fn law_single_part(path: PathModel, text: Seq<char>)
    requires
        path.parts.len() == 1,
        path.reads(text),
    ensures
        text == path.parts[0],
{
    if path.platform == Platform::Linux {
        assert(linux_joined(path.parts.drop_last()) =~= seq![]);
        assert(text =~= path.parts[0]);
    } else {
        let steps = choose|steps: Seq<Seq<char>>| #[trigger]
            joins_up(path.parts, steps) && steps.last() == text;
        assert(platform_joins(steps[0], path.parts[0], steps[1]));
    }
}

/// A file in a directory of an installation reads, on every platform, as the
/// root, the directory and the file in that order, with a separator before the
/// file, and one before the directory unless the root needs none.
///
/// Windows rewrites what begins as a verbatim path, so this is said, but for
/// Linux, of roots that are not the beginning of one.
pub proof fn law_place_under_root(
    platform: Platform,
    root: Seq<char>,
    dir: Seq<char>,
    file: Seq<char>,
    text: Seq<char>,
)
    requires
        root.len() > 0,
        platform == Platform::Linux || !verbatim(root.push('\\')),
        plain_name(dir),
        plain_name(file),
        (PathModel { platform, parts: seq![root, dir, file] }).reads(text),
    ensures
        exists|before: Seq<char>, between: char|
            {
                &&& text == #[trigger] (root + before + dir).push(between) + file
                &&& is_separator(between)
                &&& platform == Platform::Linux ==> between == '/' && before == (if root.last()
                    == '/' {
                    seq![]
                } else {
                    seq!['/']
                })
                &&& before.len() == 0 && needs_no_separator(root) || before.len() == 1
                    && is_separator(before[0])
            },
{
    let parts = seq![root, dir, file];
    if platform == Platform::Linux {
        reveal_with_fuel(linux_joined, 4);
        assert(parts.drop_last() =~= seq![root, dir]);
        assert(seq![root, dir].drop_last() =~= seq![root]);
        assert(seq![root].drop_last() =~= seq![]);
        assert(linux_joined(seq![root]) =~= root);
        let inner = linux_joined(seq![root, dir]);
        let before = if root.last() == '/' {
            seq![]
        } else {
            seq!['/']
        };
        assert(!is_separator(dir[0]) && !is_separator(dir[dir.len() - 1]));
        assert(!is_separator(file[0]));
        assert(inner =~= root + before + dir);
        assert(inner.last() == dir[dir.len() - 1]);
        assert(text =~= (root + before + dir).push('/') + file);
    } else {
        let path = PathModel { platform, parts };
        let steps = choose|steps: Seq<Seq<char>>| #[trigger]
            joins_up(path.parts, steps) && steps.last() == text;
        lemma_stays_non_verbatim(root, seq![], dir);
        assert(platform_joins(steps[0], root, steps[1]));
        assert(platform_joins(steps[1], dir, steps[2]));
        assert(platform_joins(steps[2], file, steps[3]));
        let inner = steps[2];
        let before = if inner == root + seq!['/'] + dir {
            seq!['/']
        } else if inner == root + seq!['\\'] + dir {
            seq!['\\']
        } else {
            seq![]
        };
        assert(inner =~= root + before + dir);
        lemma_stays_non_verbatim(root, before, dir);
        assert(inner.last() == dir[dir.len() - 1]);
        assert(!is_separator(dir[dir.len() - 1]) && dir[dir.len() - 1] != ':');
        let between = if text == inner + seq!['/'] + file {
            '/'
        } else {
            '\\'
        };
        assert(text =~= (root + before + dir).push(between) + file);
    }
}

/// What a plain name is put behind becomes verbatim neither by that nor by a separator.
proof fn lemma_stays_non_verbatim(root: Seq<char>, before: Seq<char>, dir: Seq<char>)
    requires
        root.len() > 0,
        !verbatim(root.push('\\')),
        plain_name(dir),
        before.len() <= 1,
        before.len() == 1 ==> is_separator(before[0]),
    ensures
        !verbatim(root),
        !verbatim(root + before + dir),
{
    let whole = root + before + dir;
    let marked = root.push('\\');
    if root.len() >= 4 {
        assert(marked.take(4) =~= root.take(4));
        assert(whole.take(4) =~= root.take(4));
    } else if verbatim(whole) {
        let head = whole.take(4);
        assert(head[3] == whole[3] && head[2] == whole[2]);
        assert(root.len() == 3);
        assert(marked.take(4) =~= head);
    }
}

impl Clone for LibraryPath {
    fn clone(&self) -> (copy: Self)
        ensures
            copy@ == self@,
    {
        let mut parts: Vec<String> = Vec::new();
        let mut i: usize = 0;
        while i < self.parts.len()
            invariant
                i <= self.parts.len(),
                parts@ == self.parts@.take(i as int),
            decreases self.parts.len() - i,
        {
            parts.push(self.parts[i].clone());
            i += 1;
        }
        assert(parts@ =~= self.parts@);
        LibraryPath { platform: self.platform, parts }
    }
}

/// The environment variables that say where ROCm is installed: `ROCM_PATH` and `HIP_PATH`.
#[derive(Debug)]
pub struct RootVars {
    pub rocm_path: Option<String>,
    pub hip_path: Option<String>,
}

impl RootVars {
    /// The installation directories that are set, in the order in which they are searched.
    pub open spec fn roots(&self) -> Seq<Seq<char>> {
        (match self.rocm_path {
            Some(root) => seq![root@],
            None => seq![],
        }) + (match self.hip_path {
            Some(root) => seq![root@],
            None => seq![],
        })
    }
}

/// The texts of some string slices.
pub open spec fn texts(names: Seq<&str>) -> Seq<Seq<char>> {
    names.map_values(|s: &str| s@)
}

/// What some paths are.
pub open spec fn path_views(paths: Seq<LibraryPath>) -> Seq<PathModel> {
    paths.map_values(|p: LibraryPath| p@)
}

/// Each of `files` in the directory `dir` of `root`.
pub open spec fn under_root(
    platform: Platform,
    root: Seq<char>,
    dir: Seq<char>,
    files: Seq<Seq<char>>,
) -> Seq<PathModel> {
    files.map_values(|f: Seq<char>| PathModel { platform, parts: seq![root, dir, f] })
}

/// Each of `files` in the directory `dir` of each of `roots`: all of one root before the next.
pub open spec fn under_roots(
    platform: Platform,
    roots: Seq<Seq<char>>,
    dir: Seq<char>,
    files: Seq<Seq<char>>,
) -> Seq<PathModel>
    decreases roots.len(),
{
    if roots.len() == 0 {
        seq![]
    } else {
        under_roots(platform, roots.drop_last(), dir, files) + under_root(
            platform,
            roots.last(),
            dir,
            files,
        )
    }
}

/// Each of `files` by its name alone, for the platform's own search.
pub open spec fn bare(platform: Platform, files: Seq<Seq<char>>) -> Seq<PathModel> {
    files.map_values(|f: Seq<char>| PathModel { platform, parts: seq![f] })
}

/// The name of a library on Windows: `libx.so` is `x.dll` there, and any other
/// name stays as it is.
pub open spec fn dll_name(name: Seq<char>) -> Seq<char> {
    let len = name.len() as int;
    if len >= 6 && name.take(3) == "lib"@ && name.skip(len - 3) == ".so"@ {
        name.subrange(3, len - 3) + ".dll"@
    } else {
        name
    }
}

/// Where a library with one of `names` is looked for, the best place first.
pub open spec fn secondary_candidates(
    platform: Platform,
    roots: Seq<Seq<char>>,
    names: Seq<Seq<char>>,
) -> Seq<PathModel> {
    match platform {
        Platform::Linux => under_roots(platform, roots, "lib"@, names) + bare(platform, names),
        Platform::WindowsX64 => {
            let dlls = names.map_values(|n: Seq<char>| dll_name(n));
            under_roots(platform, roots, "bin"@, dlls) + bare(platform, dlls)
        },
        Platform::Other => seq![],
    }
}

/// The names of the runtime library on Linux, the newest first.
pub open spec fn runtime_names() -> Seq<Seq<char>> {
    seq!["libamdhip64.so.7"@, "libamdhip64.so.6"@, "libamdhip64.so.5"@, "libamdhip64.so"@]
}

/// Where the runtime library is looked for, the best place first.
pub open spec fn runtime_candidates(platform: Platform, roots: Seq<Seq<char>>) -> Seq<PathModel> {
    match platform {
        Platform::Linux => secondary_candidates(platform, roots, runtime_names()),
        Platform::WindowsX64 => {
            let files = seq!["amdhip64.dll"@];
            under_roots(platform, roots, "bin"@, files) + bare(platform, files)
        },
        Platform::Other => seq![],
    }
}

/// The name of a library on Windows.
fn dll_name_text(name: &str) -> (dll: String)
    ensures
        dll@ == dll_name(name@),
{
    let len: usize = name.unicode_len();
    if len >= 6 {
        let prefix = name.substring_char(0, 3).to_owned();
        let suffix = name.substring_char(len - 3, len).to_owned();
        proof {
            assert(name@.subrange(0, 3) =~= name@.take(3));
            assert(name@.subrange(len - 3, len as int) =~= name@.skip(len - 3));
        }
        if prefix == "lib".to_owned() && suffix == ".so".to_owned() {
            let mut dll = name.substring_char(3, len - 3).to_owned();
            dll.append(".dll");
            return dll;
        }
    }
    name.to_owned()
}

/// The file `file` in the directory `dir` of `root`.
fn path_of(platform: Platform, root: &String, dir: &str, file: &String) -> (path: LibraryPath)
    ensures
        path@ == (PathModel { platform, parts: seq![root@, dir@, file@] }),
{
    let mut parts: Vec<String> = Vec::new();
    parts.push(root.clone());
    parts.push(dir.to_owned());
    parts.push(file.clone());
    let path = LibraryPath { platform, parts };
    assert(path@.parts =~= seq![root@, dir@, file@]);
    path
}

/// Appends each of `files` in the directory `dir` of `root`, where `root` is set.
fn push_under_root(
    out: &mut Vec<LibraryPath>,
    platform: Platform,
    root: &Option<String>,
    dir: &str,
    files: &Vec<String>,
)
    ensures
        path_views(final(out)@) == path_views(old(out)@) + (match root {
            Some(r) => under_root(platform, r@, dir@, files@.map_values(|s: String| s@)),
            None => seq![],
        }),
{
    match root {
        Some(root) => {
            let ghost before = path_views(out@);
            let ghost more = under_root(platform, root@, dir@, files@.map_values(|s: String| s@));
            let mut i: usize = 0;
            assert(before + more.take(0) =~= before);
            while i < files.len()
                invariant
                    i <= files.len(),
                    more == under_root(platform, root@, dir@, files@.map_values(|s: String| s@)),
                    path_views(out@) == before + more.take(i as int),
                decreases files.len() - i,
            {
                let ghost so_far = out@;
                out.push(path_of(platform, root, dir, &files[i]));
                proof {
                    assert(path_views(out@) =~= path_views(so_far).push(more[i as int]));
                    assert(more.take(i + 1) =~= more.take(i as int).push(more[i as int]));
                    assert(path_views(out@) =~= before + more.take(i + 1));
                }
                i += 1;
            }
            assert(more.take(i as int) =~= more);
        },
        None => {
            assert(path_views(out@) =~= path_views(old(out)@) + seq![]);
        },
    }
}

/// Each of `files` in the directory `dir` of each root that is set, then each by its name alone.
fn search_places(platform: Platform, vars: &RootVars, dir: &str, files: &Vec<String>) -> (places:
    Vec<LibraryPath>)
    ensures
        ({
            let views = files@.map_values(|s: String| s@);
            path_views(places@) == under_roots(platform, vars.roots(), dir@, views) + bare(
                platform,
                views,
            )
        }),
{
    let ghost views = files@.map_values(|s: String| s@);
    let mut places: Vec<LibraryPath> = Vec::new();
    assert(path_views(places@) =~= seq![]);
    push_under_root(&mut places, platform, &vars.rocm_path, dir, files);
    push_under_root(&mut places, platform, &vars.hip_path, dir, files);
    proof {
        lemma_under_roots_pair(platform, *vars, dir@, views);
        assert(path_views(places@) =~= under_roots(platform, vars.roots(), dir@, views));
    }
    let ghost before = path_views(places@);
    let ghost more = bare(platform, views);
    let mut i: usize = 0;
    assert(before + more.take(0) =~= before);
    while i < files.len()
        invariant
            i <= files.len(),
            more == bare(platform, files@.map_values(|s: String| s@)),
            path_views(places@) == before + more.take(i as int),
        decreases files.len() - i,
    {
        let ghost so_far = places@;
        let mut parts: Vec<String> = Vec::new();
        parts.push(files[i].clone());
        let path = LibraryPath { platform, parts };
        assert(path@.parts =~= more[i as int].parts);
        places.push(path);
        proof {
            assert(path_views(places@) =~= path_views(so_far).push(more[i as int]));
            assert(more.take(i + 1) =~= more.take(i as int).push(more[i as int]));
            assert(path_views(places@) =~= before + more.take(i + 1));
        }
        i += 1;
    }
    assert(more.take(i as int) =~= more);
    places
}

/// The places under the roots that are set: first those of `ROCM_PATH`, then those of `HIP_PATH`.
proof fn lemma_under_roots_pair(
    platform: Platform,
    vars: RootVars,
    dir: Seq<char>,
    files: Seq<Seq<char>>,
)
    ensures
        under_roots(platform, vars.roots(), dir, files) =~= (match vars.rocm_path {
            Some(root) => under_root(platform, root@, dir, files),
            None => seq![],
        }) + (match vars.hip_path {
            Some(root) => under_root(platform, root@, dir, files),
            None => seq![],
        }),
{
    let roots = vars.roots();
    reveal_with_fuel(under_roots, 3);
    if roots.len() == 2 {
        assert(roots.drop_last() =~= seq![roots[0]]);
        assert(seq![roots[0]].drop_last() =~= seq![]);
    } else if roots.len() == 1 {
        assert(roots.drop_last() =~= seq![]);
    }
}

/// Where a library with one of `names` is looked for, the best place first.
pub fn secondary_library_candidates(platform: Platform, vars: &RootVars, names: &Vec<&str>) -> (places:
    Vec<LibraryPath>)
    ensures
        path_views(places@) == secondary_candidates(platform, vars.roots(), texts(names@)),
{
    let mut files: Vec<String> = Vec::new();
    let ghost wanted = texts(names@);
    let ghost dlls = wanted.map_values(|n: Seq<char>| dll_name(n));
    match platform {
        Platform::Linux => {
            let mut i: usize = 0;
            while i < names.len()
                invariant
                    i <= names.len(),
                    files.len() == i,
                    forall|j: int| 0 <= j < i ==> (#[trigger] files@[j])@ == names@[j]@,
                decreases names.len() - i,
            {
                files.push(names[i].to_owned());
                i += 1;
            }
            assert(files@.map_values(|s: String| s@) =~= wanted);
            search_places(platform, vars, "lib", &files)
        },
        Platform::WindowsX64 => {
            let mut i: usize = 0;
            while i < names.len()
                invariant
                    i <= names.len(),
                    files.len() == i,
                    forall|j: int| 0 <= j < i ==> (#[trigger] files@[j])@ == dll_name(names@[j]@),
                decreases names.len() - i,
            {
                files.push(dll_name_text(names[i]));
                i += 1;
            }
            assert(files@.map_values(|s: String| s@) =~= dlls);
            search_places(platform, vars, "bin", &files)
        },
        Platform::Other => {
            let places: Vec<LibraryPath> = Vec::new();
            assert(path_views(places@) =~= seq![]);
            places
        },
    }
}

/// `items` without those that equal their predecessor.
pub open spec fn without_repeats<T>(items: Seq<T>) -> Seq<T>
    decreases items.len(),
{
    if items.len() < 2 {
        items
    } else if items.last() == items[items.len() - 2] {
        without_repeats(items.drop_last())
    } else {
        without_repeats(items.drop_last()).push(items.last())
    }
}

impl LibraryPath {
    /// Whether two paths are made of the same parts by the same rules.
    fn same_path(&self, other: &LibraryPath) -> (same: bool)
        ensures
            same == (self@ == other@),
    {
        if self.platform != other.platform || self.parts.len() != other.parts.len() {
            assert(self@.platform != other@.platform || self@.parts.len() != other@.parts.len());
            return false;
        }
        let mut i: usize = 0;
        while i < self.parts.len()
            invariant
                i <= self.parts.len(),
                self.parts.len() == other.parts.len(),
                forall|j: int| 0 <= j < i ==> self@.parts[j] == other@.parts[j],
            decreases self.parts.len() - i,
        {
            if self.parts[i] != other.parts[i] {
                assert(self@.parts[i as int] != other@.parts[i as int]);
                return false;
            }
            i += 1;
        }
        assert(self@.parts =~= other@.parts);
        true
    }
}

/// `paths` without those that equal their predecessor.
fn dedup_paths(paths: Vec<LibraryPath>) -> (kept: Vec<LibraryPath>)
    ensures
        path_views(kept@) == without_repeats(path_views(paths@)),
{
    let ghost views = path_views(paths@);
    let mut kept: Vec<LibraryPath> = Vec::new();
    let mut i: usize = 0;
    assert(path_views(kept@) =~= without_repeats(views.take(0)));
    while i < paths.len()
        invariant
            i <= paths.len(),
            views == path_views(paths@),
            path_views(kept@) == without_repeats(views.take(i as int)),
        decreases paths.len() - i,
    {
        let ghost longer = views.take(i + 1);
        assert(longer.drop_last() =~= views.take(i as int));
        if i > 0 && paths[i].same_path(&paths[i - 1]) {
            assert(longer.last() == longer[longer.len() - 2]);
        } else {
            let ghost so_far = kept@;
            kept.push(paths[i].clone());
            assert(path_views(kept@) =~= path_views(so_far).push(views[i as int]));
            if i == 0 {
                assert(path_views(kept@) =~= longer);
            }
        }
        i += 1;
    }
    assert(views.take(i as int) =~= views);
    kept
}

/// Every place ends in one of the names, which take turns.
proof fn lemma_places_end_in_names(
    platform: Platform,
    roots: Seq<Seq<char>>,
    dir: Seq<char>,
    files: Seq<Seq<char>>,
)
    requires
        files.len() > 0,
    ensures
        under_roots(platform, roots, dir, files).len() == roots.len() * files.len(),
        forall|i: int|
            0 <= i < roots.len() * files.len() ==> (#[trigger] under_roots(
                platform,
                roots,
                dir,
                files,
            )[i]).parts.last() == files[i % files.len() as int],
    decreases roots.len(),
{
    let n = files.len() as int;
    if roots.len() > 0 {
        let init = roots.drop_last();
        lemma_places_end_in_names(platform, init, dir, files);
        let head = under_roots(platform, init, dir, files);
        let all = under_roots(platform, roots, dir, files);
        assert(roots.len() * n == init.len() * n + n) by (nonlinear_arith)
            requires
                init.len() == roots.len() - 1,
        ;
        assert forall|i: int| 0 <= i < roots.len() * n implies (#[trigger] all[i]).parts.last() == files[i
            % n] by {
            if i < head.len() {
                assert(all[i] == head[i]);
            } else {
                let j = i - head.len();
                vstd::arithmetic::div_mod::lemma_fundamental_div_mod_converse(
                    i,
                    n,
                    init.len() as int,
                    j,
                );
                assert(all[i].parts == seq![roots.last(), dir, files[j]]);
            }
        }
    } else {
        assert(0 * n == 0) by (nonlinear_arith);
    }
}

/// The names of the runtime library end in different letters.
proof fn lemma_runtime_names_differ(i: int, j: int)
    requires
        0 <= i < 4,
        0 <= j < 4,
        i != j,
    ensures
        runtime_names()[i] != runtime_names()[j],
{
    let files = runtime_names();
    reveal_strlit("libamdhip64.so.7");
    reveal_strlit("libamdhip64.so.6");
    reveal_strlit("libamdhip64.so.5");
    reveal_strlit("libamdhip64.so");
    assert(files[0].last() == '7');
    assert(files[1].last() == '6');
    assert(files[2].last() == '5');
    assert(files[3].last() == 'o');
}

/// The names take turns at the ends of the places where the runtime is looked for.
proof fn lemma_runtime_place_ends_in_name(roots: Seq<Seq<char>>, i: int)
    requires
        0 <= i < runtime_candidates(Platform::Linux, roots).len(),
    ensures
        runtime_candidates(Platform::Linux, roots)[i].parts.last() == runtime_names()[i % 4],
{
    let files = runtime_names();
    let places = runtime_candidates(Platform::Linux, roots);
    let head = under_roots(Platform::Linux, roots, "lib"@, files);
    lemma_places_end_in_names(Platform::Linux, roots, "lib"@, files);
    if i >= head.len() {
        let j = i - head.len();
        assert(places[i] == bare(Platform::Linux, files)[j]);
        assert(i % 4 == j);
    } else {
        assert(places[i] == head[i]);
    }
}

/// On Linux, neighbours among the places where the runtime is looked for end in
/// different names, so that dropping repeats drops none of them.
pub proof fn law_runtime_places_do_not_repeat(roots: Seq<Seq<char>>)
    ensures
        ({
            let places = runtime_candidates(Platform::Linux, roots);
            &&& without_repeats(places) == places
            &&& forall|i: int|
                0 < i < places.len() ==> places[i - 1].parts.last() != (
                #[trigger] places[i]).parts.last()
        }),
{
    let places = runtime_candidates(Platform::Linux, roots);
    assert forall|i: int| 0 < i < places.len() implies places[i - 1].parts.last() != (
    #[trigger] places[i]).parts.last() by {
        lemma_runtime_place_ends_in_name(roots, i);
        lemma_runtime_place_ends_in_name(roots, i - 1);
        lemma_runtime_names_differ(i % 4, (i - 1) % 4);
    }
    lemma_without_repeats_identity(places);
}

proof fn lemma_without_repeats_identity<T>(items: Seq<T>)
    requires
        forall|i: int| 0 < i < items.len() ==> items[i - 1] != #[trigger] items[i],
    ensures
        without_repeats(items) == items,
    decreases items.len(),
{
    if items.len() >= 2 {
        let init = items.drop_last();
        lemma_without_repeats_identity(init);
        assert(items[items.len() - 1] == items.last());
        assert(init.push(items.last()) =~= items);
    }
}

/// Where the runtime library is looked for, the best place first.
pub fn runtime_library_candidates(platform: Platform, vars: &RootVars) -> (places: Vec<LibraryPath>)
    ensures
        path_views(places@) == runtime_candidates(platform, vars.roots()),
{
    match platform {
        Platform::Linux => {
            let names: Vec<&str> = vec![
                "libamdhip64.so.7",
                "libamdhip64.so.6",
                "libamdhip64.so.5",
                "libamdhip64.so",
            ];
            assert(texts(names@) =~= runtime_names());
            proof {
                law_runtime_places_do_not_repeat(vars.roots());
            }
            dedup_paths(secondary_library_candidates(platform, vars, &names))
        },
        Platform::WindowsX64 => {
            let mut files: Vec<String> = Vec::new();
            files.push("amdhip64.dll".to_owned());
            assert(files@.map_values(|s: String| s@) =~= seq!["amdhip64.dll"@]);
            search_places(platform, vars, "bin", &files)
        },
        Platform::Other => {
            let places: Vec<LibraryPath> = Vec::new();
            assert(path_views(places@) =~= seq![]);
            places
        },
    }
}

/// How many roots are set.
pub open spec fn root_count(vars: RootVars) -> nat {
    (if vars.rocm_path is Some { 1nat } else { 0 }) + (if vars.hip_path is Some { 1nat } else { 0 })
}

/// The root number `i`: that of `ROCM_PATH` comes first where it is set, and
/// that of `HIP_PATH` behind it.
pub open spec fn root_at(vars: RootVars, i: int) -> Seq<char> {
    if i == 0 && vars.rocm_path is Some {
        vars.rocm_path->0@
    } else {
        vars.hip_path->0@
    }
}

/// The roots that are searched are those that are set, `ROCM_PATH` before `HIP_PATH`.
pub proof fn law_roots(vars: RootVars, i: int)
    ensures
        vars.roots().len() == root_count(vars),
        0 <= i < root_count(vars) ==> vars.roots()[i] == root_at(vars, i),
{
}

/// Texts and paths are looked at one by one, in order.
pub proof fn law_views(names: Seq<&str>, paths: Seq<LibraryPath>, i: int)
    ensures
        texts(names).len() == names.len(),
        path_views(paths).len() == paths.len(),
        0 <= i < names.len() ==> texts(names)[i] == names[i]@,
        0 <= i < paths.len() ==> path_views(paths)[i] == paths[i]@,
{
}

/// The places under the roots are, root by root, the files in order.
proof fn lemma_under_roots_at(
    platform: Platform,
    roots: Seq<Seq<char>>,
    dir: Seq<char>,
    files: Seq<Seq<char>>,
    i: int,
    j: int,
)
    requires
        0 <= j < files.len(),
    ensures
        under_roots(platform, roots, dir, files).len() == roots.len() * files.len(),
        0 <= i < roots.len() ==> 0 <= i * files.len() + j < roots.len() * files.len()
            && under_roots(platform, roots, dir, files)[i * files.len() + j] == (PathModel {
            platform,
            parts: seq![roots[i], dir, files[j]],
        }),
    decreases roots.len(),
{
    let n = files.len() as int;
    if roots.len() > 0 {
        let init = roots.drop_last();
        lemma_under_roots_at(platform, init, dir, files, i, j);
        assert(roots.len() * n == init.len() * n + n) by (nonlinear_arith)
            requires
                init.len() == roots.len() - 1,
        ;
        if 0 <= i < init.len() {
            assert(roots[i] == init[i]);
        } else if i == init.len() {
            assert(i * n == init.len() * n);
            assert(0 <= init.len() * n) by (nonlinear_arith)
                requires
                    n >= 0,
            ;
        }
    } else {
        assert(0 * n == 0) by (nonlinear_arith);
    }
}

/// A library is looked for by each of its names under each root that is set,
/// root by root and name by name, and then by each bare name, in order; on
/// Windows by the names that it has there, and in another directory. Elsewhere
/// it is not looked for.
pub proof fn law_places(
    platform: Platform,
    vars: RootVars,
    names: Seq<Seq<char>>,
    i: int,
    j: int,
)
    requires
        0 <= j < names.len(),
    ensures
        ({
            let places = secondary_candidates(platform, vars.roots(), names);
            let n = names.len() as int;
            match platform {
                Platform::Linux => {
                    &&& places.len() == (root_count(vars) + 1) * n
                    &&& 0 <= i < root_count(vars) ==> places[i * n + j] == (PathModel {
                        platform,
                        parts: seq![root_at(vars, i), "lib"@, names[j]],
                    })
                    &&& places[root_count(vars) * n + j] == (PathModel {
                        platform,
                        parts: seq![names[j]],
                    })
                },
                Platform::WindowsX64 => {
                    &&& places.len() == (root_count(vars) + 1) * n
                    &&& 0 <= i < root_count(vars) ==> places[i * n + j] == (PathModel {
                        platform,
                        parts: seq![root_at(vars, i), "bin"@, dll_name(names[j])],
                    })
                    &&& places[root_count(vars) * n + j] == (PathModel {
                        platform,
                        parts: seq![dll_name(names[j])],
                    })
                },
                Platform::Other => places.len() == 0,
            }
        }),
{
    let n = names.len() as int;
    let r = root_count(vars) as int;
    law_roots(vars, i);
    assert((r + 1) * n == r * n + n) by (nonlinear_arith);
    lemma_under_roots_at(platform, vars.roots(), "lib"@, names, i, j);
    let dlls = names.map_values(|f: Seq<char>| dll_name(f));
    lemma_under_roots_at(platform, vars.roots(), "bin"@, dlls, i, j);
}

/// Where there are no names there are no places.
pub proof fn law_no_names_no_places(platform: Platform, roots: Seq<Seq<char>>)
    ensures
        secondary_candidates(platform, roots, seq![]).len() == 0,
    decreases roots.len(),
{
    if roots.len() > 0 {
        law_no_names_no_places(platform, roots.drop_last());
    }
    let dlls = Seq::<Seq<char>>::empty().map_values(|f: Seq<char>| dll_name(f));
    assert(dlls =~= seq![]);
}

/// The runtime is looked for under each root that is set, `ROCM_PATH` before
/// `HIP_PATH`, and then by its bare name: on Linux by four names each time, from
/// the newest version down to none, on Windows by one.
pub proof fn law_runtime_places(vars: RootVars, i: int, j: int)
    ensures
        ({
            let places = runtime_candidates(Platform::Linux, vars.roots());
            let name = if j == 0 {
                "libamdhip64.so.7"@
            } else if j == 1 {
                "libamdhip64.so.6"@
            } else if j == 2 {
                "libamdhip64.so.5"@
            } else {
                "libamdhip64.so"@
            };
            &&& places.len() == 4 * (root_count(vars) + 1)
            &&& 0 <= i < root_count(vars) && 0 <= j < 4 ==> places[4 * i + j] == (PathModel {
                platform: Platform::Linux,
                parts: seq![root_at(vars, i), "lib"@, name],
            })
            &&& 0 <= j < 4 ==> places[4 * root_count(vars) + j] == (PathModel {
                platform: Platform::Linux,
                parts: seq![name],
            })
        }),
        ({
            let places = runtime_candidates(Platform::WindowsX64, vars.roots());
            &&& places.len() == root_count(vars) + 1
            &&& 0 <= i < root_count(vars) ==> places[i] == (PathModel {
                platform: Platform::WindowsX64,
                parts: seq![root_at(vars, i), "bin"@, "amdhip64.dll"@],
            })
            &&& places.last() == (PathModel {
                platform: Platform::WindowsX64,
                parts: seq!["amdhip64.dll"@],
            })
        }),
        runtime_candidates(Platform::Other, vars.roots()).len() == 0,
{
    law_roots(vars, i);
    let names = runtime_names();
    let n = names.len() as int;
    let r = root_count(vars) as int;
    assert(i * n == 4 * i && r * n == 4 * r && (r + 1) * n == 4 * (r + 1)) by (nonlinear_arith)
        requires
            n == 4,
    ;
    law_places(Platform::Linux, vars, names, i, 0);
    if 0 <= j < 4 {
        law_places(Platform::Linux, vars, names, i, j);
    }
    let files = seq!["amdhip64.dll"@];
    let one = files.len() as int;
    assert(i * one == i && r * one == r) by (nonlinear_arith)
        requires
            one == 1,
    ;
    lemma_under_roots_at(Platform::WindowsX64, vars.roots(), "bin"@, files, i, 0);
}

/// The name of a library on Windows is its stem with another ending, where it
/// has the usual beginning and ending, and any other name stays as it is.
pub proof fn law_dll_names(name: Seq<char>, stem: Seq<char>)
    ensures
        dll_name("lib"@ + stem + ".so"@) == stem + ".dll"@,
        (forall|s: Seq<char>| name != #[trigger] ("lib"@ + s + ".so"@)) ==> dll_name(name) == name,
{
    reveal_strlit("lib");
    reveal_strlit(".so");
    let whole = "lib"@ + stem + ".so"@;
    let len = whole.len() as int;
    assert(whole.take(3) =~= "lib"@);
    assert(whole.skip(len - 3) =~= ".so"@);
    assert(whole.subrange(3, len - 3) =~= stem);
    let n = name.len() as int;
    if n >= 6 && name.take(3) == "lib"@ && name.skip(n - 3) == ".so"@ {
        let s = name.subrange(3, n - 3);
        assert forall|k: int| 0 <= k < n implies name[k] == ("lib"@ + s + ".so"@)[k] by {
            if k < 3 {
                assert(name.take(3)[k] == name[k]);
            } else if k >= n - 3 {
                assert(name.skip(n - 3)[k - (n - 3)] == name[k]);
            }
        }
        assert(name =~= "lib"@ + s + ".so"@);
    }
}

/// On Linux a part that begins with a slash replaces what comes before it. Any
/// other goes behind it, and between the two there is one slash and nothing
/// else, unless there is nothing before it or that ends in a slash.
pub proof fn law_linux_join(base: Seq<char>, part: Seq<char>)
    ensures
        ({
            let text = linux_join(base, part);
            let rooted = part.len() > 0 && part[0] == '/';
            let slash = base.len() > 0 && base[base.len() - 1] != '/';
            &&& rooted ==> text == part
            &&& !rooted ==> {
                &&& text.len() == base.len() + part.len() + if slash { 1int } else { 0 }
                &&& text.take(base.len() as int) == base
                &&& text.skip(text.len() - part.len()) == part
                &&& slash ==> text[base.len() as int] == '/'
            }
        }),
{
    let text = linux_join(base, part);
    if !(part.len() > 0 && part[0] == '/') {
        assert(text.take(base.len() as int) =~= base);
        assert(text.skip(text.len() - part.len()) =~= part);
    }
}

/// On Linux a path has one text, that of its parts joined from the first to the last.
pub proof fn law_linux_text(parts: Seq<Seq<char>>, part: Seq<char>, text: Seq<char>)
    ensures
        (PathModel { platform: Platform::Linux, parts: seq![] }).reads(text) <==> text.len() == 0,
        (PathModel { platform: Platform::Linux, parts: parts.push(part) }).reads(text) <==> (exists|
            base: Seq<char>,
        |
            (PathModel { platform: Platform::Linux, parts }).reads(base) && text
                == #[trigger] linux_join(base, part)),
{
    let longer = parts.push(part);
    assert(longer.drop_last() =~= parts);
    let base = linux_joined(parts);
    assert(linux_joined(longer) == linux_join(base, part));
    if text.len() == 0 {
        assert(text =~= seq![]);
    }
}

/// On other platforms, too, the text of a path is that of its parts joined from
/// the first to the last, each time as the platform does it.
pub proof fn law_platform_text(
    platform: Platform,
    parts: Seq<Seq<char>>,
    part: Seq<char>,
    text: Seq<char>,
)
    requires
        platform != Platform::Linux,
    ensures
        (PathModel { platform, parts: seq![] }).reads(text) <==> text.len() == 0,
        (PathModel { platform, parts: parts.push(part) }).reads(text) <==> (exists|
            base: Seq<char>,
        |
            (PathModel { platform, parts }).reads(base) && #[trigger] platform_joins(
                base,
                part,
                text,
            )),
{
    let none = PathModel { platform, parts: seq![] };
    let shorter = PathModel { platform, parts };
    let longer = PathModel { platform, parts: parts.push(part) };
    if text.len() == 0 {
        assert(joins_up(none.parts, seq![text]));
        assert(seq![text].last() == text);
    }
    if longer.reads(text) {
        let steps = choose|steps: Seq<Seq<char>>| #[trigger]
            joins_up(longer.parts, steps) && steps.last() == text;
        let before = steps.drop_last();
        assert forall|i: int| 0 <= i < parts.len() implies platform_joins(
            #[trigger] before[i],
            parts[i],
            before[i + 1],
        ) by {
            assert(platform_joins(steps[i], longer.parts[i], steps[i + 1]));
        }
        assert(joins_up(shorter.parts, before));
        assert(shorter.reads(before.last()));
        let n = parts.len() as int;
        assert(platform_joins(steps[n], longer.parts[n], steps[n + 1]));
    }
    if exists|base: Seq<char>|
        shorter.reads(base) && #[trigger] platform_joins(base, part, text) {
        let base = choose|base: Seq<char>|
            shorter.reads(base) && #[trigger] platform_joins(base, part, text);
        let before = choose|steps: Seq<Seq<char>>| #[trigger]
            joins_up(shorter.parts, steps) && steps.last() == base;
        let steps = before.push(text);
        assert forall|i: int| 0 <= i < longer.parts.len() implies platform_joins(
            #[trigger] steps[i],
            longer.parts[i],
            steps[i + 1],
        ) by {
            if i < parts.len() {
                assert(platform_joins(before[i], parts[i], before[i + 1]));
            }
        }
        assert(joins_up(longer.parts, steps));
        assert(steps.last() == text);
    }
}

} // verus!
