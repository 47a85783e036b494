//! What lies beside the program.
//!
//! Nothing is searched for: everything has its fixed place beside the executable, and if it is not
//! there the program does not start. An nvim from elsewhere would read somebody else's
//! configuration.

use vstd::prelude::*;

verus! {

/// The name under which nvim keeps its configuration apart.
pub const APPNAME: &'static str = "anvi";

/// The paths of the bundle, all of them known to exist.
#[derive(Clone, Debug, PartialEq, Eq)]
pub struct Bundle {
    /// The root of the Lua files.
    pub runtime_dir: String,
    pub nvim_exe: String,
}

/// What was found at a path.
#[derive(Clone, Copy, Debug, PartialEq, Eq, Structural)]
pub enum Found {
    Missing,
    File { len: u64 },
    Directory,
    Other,
}

/// What has to be at a path.
#[derive(Clone, Copy, Debug, PartialEq, Eq, Structural)]
pub enum Kind {
    /// A Lua file that is not empty: nvim passes over an empty one without a word.
    Lua,
    File,
    Directory,
}

/// A path and what has to be there.
#[derive(Debug)]
pub struct Requirement {
    pub path: String,
    pub kind: Kind,
}

/// What is wrong with the bundle.
#[derive(Debug, PartialEq, Eq)]
pub enum BundleError {
    MissingLua(String),
    LuaNotAFile(String),
    EmptyLua(String),
    MissingFile(String),
    MissingDirectory(String),
}

#[verifier::ext_equal]
pub struct RequirementView {
    pub path: Seq<char>,
    pub kind: Kind,
}

#[verifier::ext_equal]
pub struct BundleView {
    pub runtime_dir: Seq<char>,
    pub nvim_exe: Seq<char>,
}

#[verifier::ext_equal]
pub enum BundleErrorView {
    MissingLua(Seq<char>),
    LuaNotAFile(Seq<char>),
    EmptyLua(Seq<char>),
    MissingFile(Seq<char>),
    MissingDirectory(Seq<char>),
}

impl View for Requirement {
    type V = RequirementView;

    open spec fn view(&self) -> RequirementView {
        RequirementView { path: self.path@, kind: self.kind }
    }
}

impl View for Bundle {
    type V = BundleView;

    open spec fn view(&self) -> BundleView {
        BundleView { runtime_dir: self.runtime_dir@, nvim_exe: self.nvim_exe@ }
    }
}

impl View for BundleError {
    type V = BundleErrorView;

    open spec fn view(&self) -> BundleErrorView {
        match *self {
            BundleError::MissingLua(path) => BundleErrorView::MissingLua(path@),
            BundleError::LuaNotAFile(path) => BundleErrorView::LuaNotAFile(path@),
            BundleError::EmptyLua(path) => BundleErrorView::EmptyLua(path@),
            BundleError::MissingFile(path) => BundleErrorView::MissingFile(path@),
            BundleError::MissingDirectory(path) => BundleErrorView::MissingDirectory(path@),
        }
    }
}

/// A path one step further down.
pub open spec fn below(dir: Seq<char>, separator: char, name: Seq<char>) -> Seq<char> {
    dir.push(separator) + name
}

/// Where the Lua files are.
pub open spec fn runtime_path(root: Seq<char>, sep: char) -> Seq<char> {
    below(root, sep, "runtime"@)
}

/// Where nvim is.
pub open spec fn nvim_path(root: Seq<char>, sep: char) -> Seq<char> {
    below(below(below(root, sep, "nvim"@), sep, "bin"@), sep, "nvim.exe"@)
}

/// What has to be there, in the order in which it is looked at.
pub open spec fn layout(root: Seq<char>, sep: char) -> Seq<RequirementView> {
    let runtime = runtime_path(root, sep);
    seq![
        RequirementView { path: below(runtime, sep, "init.lua"@), kind: Kind::Lua },
        RequirementView {
            path: below(
                below(below(runtime, sep, "lua"@), sep, "anvi"@),
                sep,
                "init.lua"@,
            ),
            kind: Kind::Lua,
        },
        RequirementView { path: nvim_path(root, sep), kind: Kind::File },
        RequirementView {
            path: below(
                below(below(below(root, sep, "nvim"@), sep, "share"@), sep, "nvim"@),
                sep,
                "runtime"@,
            ),
            kind: Kind::Directory,
        },
    ]
}

/// What is wrong with what was found at a path.
pub open spec fn fault_of(path: Seq<char>, kind: Kind, found: Found) -> Option<BundleErrorView> {
    match kind {
        Kind::Lua => match found {
            Found::Missing => Some(BundleErrorView::MissingLua(path)),
            Found::File { len } => if len == 0 {
                Some(BundleErrorView::EmptyLua(path))
            } else {
                None
            },
            _ => Some(BundleErrorView::LuaNotAFile(path)),
        },
        Kind::File => match found {
            Found::File { .. } => None,
            _ => Some(BundleErrorView::MissingFile(path)),
        },
        Kind::Directory => match found {
            Found::Directory => None,
            _ => Some(BundleErrorView::MissingDirectory(path)),
        },
    }
}

/// What was found for the requirement at `i`.
pub open spec fn found_at(found: Seq<Found>, i: int) -> Found {
    if 0 <= i < found.len() {
        found[i]
    } else {
        Found::Missing
    }
}

/// The first thing that is wrong, from the requirement at `i` on.
pub open spec fn first_fault(required: Seq<RequirementView>, found: Seq<Found>, i: int) -> Option<
    BundleErrorView,
>
    decreases required.len() - i,
{
    if i < 0 || i >= required.len() {
        None
    } else {
        match fault_of(required[i].path, required[i].kind, found_at(found, i)) {
            Some(e) => Some(e),
            None => first_fault(required, found, i + 1),
        }
    }
}

/// The message of an error.
pub open spec fn message_text(e: BundleErrorView) -> Seq<char> {
    match e {
        BundleErrorView::MissingLua(path) => "bundled lua file is missing: "@ + path,
        BundleErrorView::LuaNotAFile(path) => "bundled lua path is not a file: "@ + path,
        BundleErrorView::EmptyLua(path) => "bundled lua file is empty: "@ + path
            + " (copy it from crates/anywhere-core/runtime/)"@,
        BundleErrorView::MissingFile(path) => "bundled file is missing: "@ + path,
        BundleErrorView::MissingDirectory(path) => "bundled directory is missing: "@ + path,
    }
}

/// A path one step further down.
fn join(dir: &str, separator: char, name: &str) -> (path: String)
    ensures
        path@ == below(dir@, separator, name@),
{
    let mut path = dir.to_owned();
    path.push(separator);
    path.append(name);
    path
}

/// The requirements as they show.
pub open spec fn shown_requirements(v: Seq<Requirement>) -> Seq<RequirementView> {
    Seq::new(v.len(), |i: int| v[i]@)
}

/// What has to be there, in the order in which it is looked at.
pub fn requirements(root: &str, separator: char) -> (required: Vec<Requirement>)
    ensures
        shown_requirements(required@) == layout(root@, separator),
{
    let runtime = join(root, separator, "runtime");
    let lua = join(runtime.as_str(), separator, "lua");
    let module = join(lua.as_str(), separator, "anvi");
    let nvim = join(root, separator, "nvim");
    let bin = join(nvim.as_str(), separator, "bin");
    let share = join(nvim.as_str(), separator, "share");
    let inner = join(share.as_str(), separator, "nvim");
    let mut required: Vec<Requirement> = Vec::new();
    required.push(
        Requirement { path: join(runtime.as_str(), separator, "init.lua"), kind: Kind::Lua },
    );
    required.push(
        Requirement { path: join(module.as_str(), separator, "init.lua"), kind: Kind::Lua },
    );
    required.push(
        Requirement { path: join(bin.as_str(), separator, "nvim.exe"), kind: Kind::File },
    );
    required.push(
        Requirement { path: join(inner.as_str(), separator, "runtime"), kind: Kind::Directory },
    );
    assert(shown_requirements(required@) =~= layout(root@, separator));
    required
}

fn require_file(path: &str, found: Found) -> (r: Option<BundleError>)
    ensures
        (match r {
            Some(e) => fault_of(path@, Kind::File, found) == Some(e@),
            None => fault_of(path@, Kind::File, found) is None,
        }),
{
    match found {
        Found::File { len } => None,
        _ => Some(BundleError::MissingFile(path.to_owned())),
    }
}

fn require_dir(path: &str, found: Found) -> (r: Option<BundleError>)
    ensures
        (match r {
            Some(e) => fault_of(path@, Kind::Directory, found) == Some(e@),
            None => fault_of(path@, Kind::Directory, found) is None,
        }),
{
    match found {
        Found::Directory => None,
        _ => Some(BundleError::MissingDirectory(path.to_owned())),
    }
}

fn require_lua(path: &str, found: Found) -> (r: Option<BundleError>)
    ensures
        (match r {
            Some(e) => fault_of(path@, Kind::Lua, found) == Some(e@),
            None => fault_of(path@, Kind::Lua, found) is None,
        }),
{
    match found {
        Found::Missing => Some(BundleError::MissingLua(path.to_owned())),
        Found::File { len } => if len == 0 {
            Some(BundleError::EmptyLua(path.to_owned()))
        } else {
            None
        },
        _ => Some(BundleError::LuaNotAFile(path.to_owned())),
    }
}

/// The bundle beside an executable in the directory `root`. `found` holds what was found at each of
/// the [`requirements`]; the first that is not met is the error.
#[verifier::loop_isolation(false)]
pub fn resolve(root: &str, separator: char, found: &[Found]) -> (r: Result<Bundle, BundleError>)
    ensures
        (match r {
            Ok(bundle) => {
                &&& first_fault(layout(root@, separator), found@, 0) is None
                &&& bundle@ == (BundleView {
                    runtime_dir: runtime_path(root@, separator),
                    nvim_exe: nvim_path(root@, separator),
                })
            },
            Err(e) => first_fault(layout(root@, separator), found@, 0) == Some(e@),
        }),
{
    let required = requirements(root, separator);
    let ghost views = layout(root@, separator);
    assert(views.len() == required@.len());
    let mut i: usize = 0;
    while i < required.len()
        invariant
            i <= required@.len(),
            first_fault(views, found@, 0) == first_fault(views, found@, i as int),
        decreases required@.len() - i,
    {
        assert(views[i as int] == required@[i as int]@);
        let here: Found = if i < found.len() {
            found[i]
        } else {
            Found::Missing
        };
        let path = required[i].path.as_str();
        let fault = match required[i].kind {
            Kind::Lua => require_lua(path, here),
            Kind::File => require_file(path, here),
            Kind::Directory => require_dir(path, here),
        };
        if let Some(e) = fault {
            return Err(e);
        }
        i = i + 1;
    }
    let nvim = join(root, separator, "nvim");
    let bin = join(nvim.as_str(), separator, "bin");
    Ok(
        Bundle {
            runtime_dir: join(root, separator, "runtime"),
            nvim_exe: join(bin.as_str(), separator, "nvim.exe"),
        },
    )
}

impl BundleError {
    /// The error in words.
    pub fn message(&self) -> (text: String)
        ensures
            text@ == message_text(self@),
    {
        let mut out = String::new();
        match self {
            BundleError::MissingLua(path) => {
                out.append("bundled lua file is missing: ");
                out.append(path.as_str());
            },
            BundleError::LuaNotAFile(path) => {
                out.append("bundled lua path is not a file: ");
                out.append(path.as_str());
            },
            BundleError::EmptyLua(path) => {
                out.append("bundled lua file is empty: ");
                out.append(path.as_str());
                out.append(" (copy it from crates/anywhere-core/runtime/)");
            },
            BundleError::MissingFile(path) => {
                out.append("bundled file is missing: ");
                out.append(path.as_str());
            },
            BundleError::MissingDirectory(path) => {
                out.append("bundled directory is missing: ");
                out.append(path.as_str());
            },
        }
        assert(out@ =~= message_text(self@));
        out
    }
}

/// A bundle is accepted only where everything is in its place: both Lua files with something in
/// them, nvim, and nvim's own files.
pub proof fn law_accepted_bundle_is_complete(root: Seq<char>, sep: char, found: Seq<Found>)
    requires
        first_fault(layout(root, sep), found, 0) is None,
    ensures
        found_at(found, 0) matches Found::File { len } && len > 0,
        found_at(found, 1) matches Found::File { len } && len > 0,
        found_at(found, 2) is File,
        found_at(found, 3) == Found::Directory,
{
    reveal_with_fuel(first_fault, 5);
}

/// What has to lie where, beside the executable.
pub proof fn law_layout(root: Seq<char>, sep: char)
    ensures
        ({
            let runtime = root.push(sep) + "runtime"@;
            let nvim = root.push(sep) + "nvim"@;
            let all = layout(root, sep);
            &&& all.len() == 4
            &&& all[0].kind == Kind::Lua && all[0].path == runtime.push(sep) + "init.lua"@
            &&& all[1].kind == Kind::Lua && all[1].path == (((runtime.push(sep) + "lua"@).push(sep)
                + "anvi"@).push(sep) + "init.lua"@)
            &&& all[2].kind == Kind::File && all[2].path == ((nvim.push(sep) + "bin"@).push(sep)
                + "nvim.exe"@)
            &&& all[3].kind == Kind::Directory && all[3].path == (((nvim.push(sep) + "share"@).push(
                sep,
            ) + "nvim"@).push(sep) + "runtime"@)
            &&& runtime_path(root, sep) == runtime
            &&& nvim_path(root, sep) == all[2].path
        }),
{
}

/// What is wrong with what lies at a path: an empty Lua file counts as well as one that is not there.
pub proof fn law_faults(path: Seq<char>, len: u64)
    ensures
        fault_of(path, Kind::Lua, Found::Missing) == Some(BundleErrorView::MissingLua(path)),
        fault_of(path, Kind::Lua, Found::Directory) == Some(BundleErrorView::LuaNotAFile(path)),
        fault_of(path, Kind::Lua, Found::Other) == Some(BundleErrorView::LuaNotAFile(path)),
        fault_of(path, Kind::Lua, Found::File { len: 0 }) == Some(BundleErrorView::EmptyLua(path)),
        len > 0 ==> fault_of(path, Kind::Lua, Found::File { len }) is None,
        fault_of(path, Kind::File, Found::File { len }) is None,
        fault_of(path, Kind::File, Found::Missing) == Some(BundleErrorView::MissingFile(path)),
        fault_of(path, Kind::File, Found::Directory) == Some(BundleErrorView::MissingFile(path)),
        fault_of(path, Kind::File, Found::Other) == Some(BundleErrorView::MissingFile(path)),
        fault_of(path, Kind::Directory, Found::Directory) is None,
        fault_of(path, Kind::Directory, Found::Missing) == Some(
            BundleErrorView::MissingDirectory(path),
        ),
        fault_of(path, Kind::Directory, Found::File { len }) == Some(
            BundleErrorView::MissingDirectory(path),
        ),
        fault_of(path, Kind::Directory, Found::Other) == Some(
            BundleErrorView::MissingDirectory(path),
        ),
{
}

/// The first thing that is wrong is the one that is reported, and a bundle in which nothing is wrong
/// is accepted.
pub proof fn law_first_fault_is_reported(
    required: Seq<RequirementView>,
    found: Seq<Found>,
    from: int,
    k: int,
)
    requires
        found.len() == required.len(),
        0 <= from <= k <= required.len(),
        forall|i: int|
            #![trigger required[i]]
            from <= i < k ==> fault_of(required[i].path, required[i].kind, found[i]) is None,
    ensures
        k == required.len() ==> first_fault(required, found, from) is None,
        k < required.len() && fault_of(required[k].path, required[k].kind, found[k]) is Some
            ==> first_fault(required, found, from) == fault_of(
            required[k].path,
            required[k].kind,
            found[k],
        ),
    decreases k - from,
{
    if from < k {
        assert(fault_of(required[from].path, required[from].kind, found[from]) is None);
        law_first_fault_is_reported(required, found, from + 1, k);
    }
}

/// A message says what is wrong and ends in where, but for the hint on where to find what is empty.
pub proof fn law_messages(path: Seq<char>)
    ensures
        message_text(BundleErrorView::MissingLua(path)) == "bundled lua file is missing: "@ + path,
        message_text(BundleErrorView::LuaNotAFile(path)) == "bundled lua path is not a file: "@
            + path,
        message_text(BundleErrorView::EmptyLua(path)) == "bundled lua file is empty: "@ + path
            + " (copy it from crates/anywhere-core/runtime/)"@,
        message_text(BundleErrorView::MissingFile(path)) == "bundled file is missing: "@ + path,
        message_text(BundleErrorView::MissingDirectory(path)) == "bundled directory is missing: "@
            + path,
        APPNAME@ == "anvi"@,
{
}

} // verus!
