//! Where the files are. A place is a root, which the environment or the program's
//! own file gives, and the names that lead on from it.

use vstd::prelude::*;
use crate::text;

verus! {

/// The name of the data directory.
pub const APP_DIR_NAME: &'static str = "pomodoro-fluent";

/// The name that the data directory may have had.
pub const APP_DIR_NAME_FALLBACK: &'static str = "番茄钟";

/// The name of the hook's directory.
pub const HOOK_DIR_NAME: &'static str = "hook";

/// The name of the hook's program.
pub const HOOK_EXE_NAME: &'static str = "pomodoro-hook.exe";

/// The name of the hook's script.
pub const HOOK_SCRIPT_LEGACY_NAME: &'static str = "pomodoro-hook.js";

/// The name of the plugin's directory.
pub const PLUGIN_DIR_NAME: &'static str = "opencode";

/// The name of the plugin.
pub const PLUGIN_FILE_NAME: &'static str = "pomodoro-opencode.ts";

/// How a variable of the environment is set.
#[derive(Clone, Copy, PartialEq, Eq, Structural, Debug)]
pub enum Var {
    Unset,
    Empty,
    Filled,
}

/// The variables that name directories and files.
#[derive(Clone, Copy, Debug)]
pub struct Vars {
    /// `POMODORO_USER_DATA`
    pub user_data: Var,
    /// `POMODORO_GATEWAY_FILE`
    pub gateway_file: Var,
    /// `APPDATA`
    pub appdata: Var,
    /// `USERPROFILE`
    pub userprofile: Var,
    /// `HOMEDRIVE`
    pub homedrive: Var,
    /// `HOMEPATH`
    pub homepath: Var,
}

/// Where a place begins.
#[derive(Clone, Copy, PartialEq, Eq, Structural, Debug)]
pub enum Root {
    /// What `POMODORO_USER_DATA` names.
    UserData,
    /// What `POMODORO_GATEWAY_FILE` names.
    GatewayFile,
    /// What `APPDATA` names.
    AppData,
    /// What `USERPROFILE` names.
    UserProfile,
    /// What `HOMEDRIVE` and then `HOMEPATH` name.
    Drive,
    /// The directory in which the program runs, written as a dot.
    Here,
    /// Nothing: the names are a path by themselves.
    Nothing,
    /// So many directories above the one that holds the program's file.
    Program(u8),
}

/// A place.
pub struct Place {
    pub root: Root,
    pub parts: Vec<String>,
}

/// The model of a [`Place`].
pub struct PlaceView {
    pub root: Root,
    pub parts: Seq<Seq<char>>,
}

impl View for Place {
    type V = PlaceView;

    open spec fn view(&self) -> PlaceView {
        PlaceView { root: self.root, parts: text::texts(self.parts@) }
    }
}

impl PlaceView {
    /// The place that a name leads to from here.
    pub open spec fn join(self, name: Seq<char>) -> PlaceView {
        PlaceView { root: self.root, parts: self.parts.push(name) }
    }

    /// Whether a place is this one or lies below it.
    pub open spec fn holds(self, p: PlaceView) -> bool {
        p.root == self.root && self.parts.is_prefix_of(p.parts)
    }
}

/// A root without names.
pub open spec fn at(root: Root) -> PlaceView {
    PlaceView { root, parts: Seq::empty() }
}

impl Place {
    fn at(root: Root) -> (r: Place)
        ensures
            r@ == at(root),
    {
        let r = Place { root, parts: Vec::new() };
        assert(text::texts(r.parts@) =~= Seq::empty());
        r
    }

    /// The place that a name leads to from here.
    pub fn join(self, name: &str) -> (r: Place)
        ensures
            r@ == self@.join(name@),
    {
        let ghost before = text::texts(self.parts@);
        let mut parts = self.parts;
        parts.push(name.to_owned());
        assert(text::texts(parts@) =~= before.push(name@));
        Place { root: self.root, parts }
    }
}

// ---------------------------------------------------------------------------
// Directories
// ---------------------------------------------------------------------------

/// The data directory: as the environment names it, else in the directory for
/// applications' data, else by its name alone.
pub open spec fn user_data(v: Vars) -> PlaceView {
    if v.user_data == Var::Filled {
        at(Root::UserData)
    } else if v.appdata != Var::Unset {
        at(Root::AppData).join(APP_DIR_NAME@)
    } else {
        at(Root::Nothing).join(APP_DIR_NAME@)
    }
}

/// The data directory.
pub fn user_data_dir(v: &Vars) -> (r: Place)
    ensures
        r@ == user_data(*v),
{
    if v.user_data == Var::Filled {
        Place::at(Root::UserData)
    } else if v.appdata != Var::Unset {
        Place::at(Root::AppData).join(APP_DIR_NAME)
    } else {
        Place::at(Root::Nothing).join(APP_DIR_NAME)
    }
}

/// The user's own directory.
pub open spec fn home(v: Vars) -> PlaceView {
    if v.userprofile == Var::Filled {
        at(Root::UserProfile)
    } else if v.homedrive != Var::Unset && v.homepath != Var::Unset {
        at(Root::Drive)
    } else {
        at(Root::Here)
    }
}

/// The user's own directory.
pub fn home_dir(v: &Vars) -> (r: Place)
    ensures
        r@ == home(*v),
{
    if v.userprofile == Var::Filled {
        Place::at(Root::UserProfile)
    } else if v.homedrive != Var::Unset && v.homepath != Var::Unset {
        Place::at(Root::Drive)
    } else {
        Place::at(Root::Here)
    }
}

/// The directory for applications' data.
pub open spec fn roaming(v: Vars) -> PlaceView {
    if v.appdata == Var::Filled {
        at(Root::AppData)
    } else {
        home(v).join("AppData"@).join("Roaming"@)
    }
}

/// The directory for applications' data.
pub fn roaming_app_data(v: &Vars) -> (r: Place)
    ensures
        r@ == roaming(*v),
{
    if v.appdata == Var::Filled {
        Place::at(Root::AppData)
    } else {
        home_dir(v).join("AppData").join("Roaming")
    }
}

// ---------------------------------------------------------------------------
// Files
// ---------------------------------------------------------------------------

/// The discovery file that the gateway writes.
pub open spec fn discovery_file(v: Vars) -> PlaceView {
    if v.gateway_file == Var::Filled {
        at(Root::GatewayFile)
    } else {
        user_data(v).join("gateway.json"@)
    }
}

/// The discovery file that the gateway writes.
pub fn gateway_file(v: &Vars) -> (r: Place)
    ensures
        r@ == discovery_file(*v),
{
    if v.gateway_file == Var::Filled {
        Place::at(Root::GatewayFile)
    } else {
        user_data_dir(v).join("gateway.json")
    }
}

/// The models of places.
pub open spec fn places(s: Seq<Place>) -> Seq<PlaceView> {
    s.map_values(|p: Place| p@)
}

/// The discovery files that the hook reads, in order: the one that is named, else
/// those of both names of the data directory.
pub open spec fn discovery_files(v: Vars) -> Seq<PlaceView> {
    if v.gateway_file == Var::Filled {
        Seq::empty().push(at(Root::GatewayFile))
    } else {
        Seq::empty().push(roaming(v).join(APP_DIR_NAME_FALLBACK@).join("gateway.json"@)).push(
            roaming(v).join(APP_DIR_NAME@).join("gateway.json"@),
        )
    }
}

/// The discovery files that the hook reads, in order.
pub fn gateway_candidates(v: &Vars) -> (r: Vec<Place>)
    ensures
        places(r@) == discovery_files(*v),
{
    let mut r: Vec<Place> = Vec::new();
    if v.gateway_file == Var::Filled {
        r.push(Place::at(Root::GatewayFile));
    } else {
        r.push(roaming_app_data(v).join(APP_DIR_NAME_FALLBACK).join("gateway.json"));
        r.push(roaming_app_data(v).join(APP_DIR_NAME).join("gateway.json"));
    }
    assert(places(r@) =~= discovery_files(*v));
    r
}

/// The hook's directory.
pub fn hook_dir(v: &Vars) -> (r: Place)
    ensures
        r@ == user_data(*v).join(HOOK_DIR_NAME@),
{
    user_data_dir(v).join(HOOK_DIR_NAME)
}

/// The hook's program.
pub fn hook_exe_path(v: &Vars) -> (r: Place)
    ensures
        r@ == user_data(*v).join(HOOK_DIR_NAME@).join(HOOK_EXE_NAME@),
{
    hook_dir(v).join(HOOK_EXE_NAME)
}

/// The hook's script.
pub fn hook_script_path(v: &Vars) -> (r: Place)
    ensures
        r@ == user_data(*v).join(HOOK_DIR_NAME@).join(HOOK_SCRIPT_LEGACY_NAME@),
{
    hook_dir(v).join(HOOK_SCRIPT_LEGACY_NAME)
}

/// The plugin's place.
pub fn opencode_plugin_path(v: &Vars) -> (r: Place)
    ensures
        r@ == user_data(*v).join(HOOK_DIR_NAME@).join(PLUGIN_DIR_NAME@).join(PLUGIN_FILE_NAME@),
{
    hook_dir(v).join(PLUGIN_DIR_NAME).join(PLUGIN_FILE_NAME)
}

/// The configuration file.
pub fn config_path(v: &Vars) -> (r: Place)
    ensures
        r@ == user_data(*v).join("config.json"@),
{
    user_data_dir(v).join("config.json")
}

/// The log of the watchdog.
pub fn watchdog_log(v: &Vars) -> (r: Place)
    ensures
        r@ == user_data(*v).join("watchdog.log"@),
{
    user_data_dir(v).join("watchdog.log")
}

// ---------------------------------------------------------------------------
// The plugin's source
// ---------------------------------------------------------------------------

/// Where the plugin's source may be, `k` directories above the program.
pub open spec fn plugin_at(k: int) -> PlaceView {
    if k == 0 {
        at(Root::Program(0)).join(PLUGIN_DIR_NAME@).join(PLUGIN_FILE_NAME@)
    } else {
        at(Root::Program(k as u8)).join("bin"@).join(PLUGIN_DIR_NAME@).join(PLUGIN_FILE_NAME@)
    }
}

/// How many directories above the program are looked at.
pub open spec fn looked_at(above: Option<u32>) -> int {
    match above {
        None => 0,
        Some(n) => if n > 3 {
            4
        } else {
            n + 1
        },
    }
}

/// Where the plugin's source may be, in order: beside the program, then in up to
/// three directories above it. `above` says how many directories there are above
/// the program's; none where the program's own is not known.
pub fn plugin_source_candidates(above: Option<u32>) -> (r: Vec<Place>)
    ensures
        r@.len() == looked_at(above),
        forall|k: int| 0 <= k < r@.len() ==> (#[trigger] r@[k])@ == plugin_at(k),
{
    let mut r: Vec<Place> = Vec::new();
    let n: u32 = match above {
        None => return r,
        Some(n) => n,
    };
    r.push(Place::at(Root::Program(0)).join(PLUGIN_DIR_NAME).join(PLUGIN_FILE_NAME));
    let mut k: u8 = 1;
    while k <= 3 && k as u32 <= n
        invariant
            1 <= k <= 4,
            k <= n + 1,
            r@.len() == k,
            forall|i: int| 0 <= i < k ==> (#[trigger] r@[i])@ == plugin_at(i),
        decreases 4 - k,
    {
        r.push(
            Place::at(Root::Program(k)).join("bin").join(PLUGIN_DIR_NAME).join(PLUGIN_FILE_NAME),
        );
        k += 1;
    }
    r
}

/// The place of the first that is set, or their number.
pub open spec fn first_set(flags: Seq<bool>) -> int
    decreases flags.len(),
{
    if flags.len() == 0 || flags[0] {
        0
    } else {
        1 + first_set(flags.drop_first())
    }
}

/// The plugin's source: the first of its possible places where there is a file.
/// `exists` says of each whether there is one.
pub fn resolve_plugin_source(above: Option<u32>, exists: &[bool]) -> (r: Option<Place>)
    ensures
        r is Some == (first_set(exists@) < exists@.len() && first_set(exists@) < looked_at(above)),
        r matches Some(p) ==> p@ == plugin_at(first_set(exists@)),
{
    let candidates = plugin_source_candidates(above);
    let mut i: usize = 0;
    assert(exists@.skip(0) =~= exists@);
    while i < exists.len()
        invariant
            i <= exists@.len(),
            first_set(exists@) == i + first_set(exists@.skip(i as int)),
            candidates@.len() == looked_at(above),
            forall|k: int| 0 <= k < candidates@.len() ==> (#[trigger] candidates@[k])@ == plugin_at(
                k,
            ),
        decreases exists.len() - i,
    {
        assert(exists@.skip(i as int).drop_first() =~= exists@.skip(i as int + 1));
        assert(exists@.skip(i as int)[0] == exists@[i as int]);
        if exists[i] {
            if i >= candidates.len() {
                return None;
            }
            let mut c = candidates;
            let p = c.remove(i);
            return Some(p);
        }
        i += 1;
    }
    None
}

// ---------------------------------------------------------------------------
// Laws
// ---------------------------------------------------------------------------

/// What the application writes lies under one directory; only the discovery file
/// lies elsewhere, where the environment names it.
pub proof fn law_files_share_one_root(v: Vars)
    ensures
        user_data(v).holds(user_data(v).join(HOOK_DIR_NAME@).join(HOOK_EXE_NAME@)),
        user_data(v).holds(user_data(v).join(HOOK_DIR_NAME@).join(HOOK_SCRIPT_LEGACY_NAME@)),
        user_data(v).holds(
            user_data(v).join(HOOK_DIR_NAME@).join(PLUGIN_DIR_NAME@).join(PLUGIN_FILE_NAME@),
        ),
        user_data(v).holds(user_data(v).join("config.json"@)),
        v.gateway_file != Var::Filled ==> user_data(v).holds(discovery_file(v)),
{
    let u = user_data(v).parts;
    let h = u.push(HOOK_DIR_NAME@);
    assert(u.is_prefix_of(h.push(HOOK_EXE_NAME@)));
    assert(u.is_prefix_of(h.push(HOOK_SCRIPT_LEGACY_NAME@)));
    assert(u.is_prefix_of(h.push(PLUGIN_DIR_NAME@).push(PLUGIN_FILE_NAME@)));
    assert(u.is_prefix_of(u.push("config.json"@)));
    assert(u.is_prefix_of(u.push("gateway.json"@)));
}

/// The hook finds the discovery file that the gateway writes, unless the data
/// directory is moved or there is no directory for applications' data.
pub proof fn law_hook_finds_what_the_gateway_writes(v: Vars)
    requires
        v.gateway_file == Var::Filled || (v.user_data != Var::Filled && v.appdata == Var::Filled),
    ensures
        discovery_files(v).contains(discovery_file(v)),
{
    if v.gateway_file == Var::Filled {
        assert(discovery_files(v)[0] == discovery_file(v));
    } else {
        assert(discovery_files(v)[1] == discovery_file(v));
    }
}

/// Where the program keeps its files: where the environment says, else below the
/// directory for programs' data, under its own name.
pub proof fn law_where_files_are_kept(v: Vars)
    ensures
        v.user_data == Var::Filled ==> user_data(v) == at(Root::UserData),
        v.user_data != Var::Filled && v.appdata == Var::Filled ==> user_data(v).root == Root::AppData
            && user_data(v).parts == seq!["pomodoro-fluent"@],
        v.user_data == Var::Unset && v.appdata == Var::Unset ==> user_data(v).root == Root::Nothing
            && user_data(v).parts == seq!["pomodoro-fluent"@],
        v.gateway_file == Var::Filled ==> discovery_file(v) == at(Root::GatewayFile),
        v.gateway_file != Var::Filled ==> discovery_file(v).parts == user_data(v).parts.push(
            "gateway.json"@,
        ) && discovery_file(v).root == user_data(v).root,
{
    assert(Seq::<Seq<char>>::empty().push("pomodoro-fluent"@) =~= seq!["pomodoro-fluent"@]);
}

/// Where the home directory is, and the one for programs' data.
pub proof fn law_where_home_is(v: Vars)
    ensures
        v.userprofile == Var::Filled ==> home(v) == at(Root::UserProfile),
        v.userprofile == Var::Unset && v.homedrive == Var::Filled && v.homepath == Var::Filled
            ==> home(v) == at(Root::Drive),
        v.userprofile == Var::Unset && v.homedrive == Var::Unset ==> home(v) == at(Root::Here),
        v.appdata == Var::Filled ==> roaming(v) == at(Root::AppData),
        v.appdata != Var::Filled && v.userprofile == Var::Filled ==> roaming(v).root
            == Root::UserProfile && roaming(v).parts == seq!["AppData"@, "Roaming"@],
{
    assert(Seq::<Seq<char>>::empty().push("AppData"@).push("Roaming"@) =~= seq![
        "AppData"@,
        "Roaming"@,
    ]);
}

/// The hook looks for the gateway where the environment says, and only there; else
/// below both names that the program's directory may have.
pub proof fn law_where_the_hook_looks(v: Vars)
    ensures
        v.gateway_file == Var::Filled ==> discovery_files(v) == seq![at(Root::GatewayFile)],
        v.gateway_file != Var::Filled ==> {
            let files = discovery_files(v);
            &&& files.len() == 2
            &&& files[0].root == roaming(v).root && files[1].root == roaming(v).root
            &&& files[0].parts == roaming(v).parts.push("番茄钟"@).push("gateway.json"@)
            &&& files[1].parts == roaming(v).parts.push("pomodoro-fluent"@).push("gateway.json"@)
        },
{
    assert(Seq::<PlaceView>::empty().push(at(Root::GatewayFile)) =~= seq![at(Root::GatewayFile)]);
}

/// The plugin is looked for beside the program, then in up to three directories above
/// it, and the nearest that there is counts.
pub proof fn law_where_the_plugin_is_looked_for(above: u32, flags: Seq<bool>, i: int)
    ensures
        plugin_at(0).root == Root::Program(0),
        plugin_at(0).parts == seq!["opencode"@, "pomodoro-opencode.ts"@],
        1 <= i <= 3 ==> plugin_at(i).root == Root::Program(i as u8) && plugin_at(i).parts == seq![
            "bin"@,
            "opencode"@,
            "pomodoro-opencode.ts"@,
        ],
        looked_at(None) == 0,
        above <= 3 ==> looked_at(Some(above)) == above + 1,
        above > 3 ==> looked_at(Some(above)) == 4,
        0 <= i < flags.len() && flags[i] && (forall|j: int| 0 <= j < i ==> !#[trigger] flags[j])
            ==> first_set(flags) == i,
    decreases flags.len(),
{
    assert(plugin_at(0).parts =~= seq!["opencode"@, "pomodoro-opencode.ts"@]);
    if 1 <= i <= 3 {
        assert(plugin_at(i).parts =~= seq!["bin"@, "opencode"@, "pomodoro-opencode.ts"@]);
    }
    if 0 < i < flags.len() && flags[i] && (forall|j: int| 0 <= j < i ==> !#[trigger] flags[j]) {
        let rest = flags.drop_first();
        assert(!flags[0]);
        assert forall|j: int| 0 <= j < i - 1 implies !#[trigger] rest[j] by {
            assert(rest[j] == flags[j + 1]);
        }
        assert(rest[i - 1] == flags[i]);
        law_where_the_plugin_is_looked_for(above, rest, i - 1);
    }
}

/// The names of the files.
pub proof fn law_what_files_are_called()
    ensures
        APP_DIR_NAME@ == "pomodoro-fluent"@,
        APP_DIR_NAME_FALLBACK@ == "番茄钟"@,
        HOOK_DIR_NAME@ == "hook"@,
        HOOK_EXE_NAME@ == "pomodoro-hook.exe"@,
        HOOK_SCRIPT_LEGACY_NAME@ == "pomodoro-hook.js"@,
        PLUGIN_DIR_NAME@ == "opencode"@,
        PLUGIN_FILE_NAME@ == "pomodoro-opencode.ts"@,
{
}

} // verus!
