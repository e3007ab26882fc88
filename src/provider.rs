//! Candidate parent directories of each tier, by platform.
use vstd::prelude::*;
use crate::config::{CacheDirConfig, ConfigV};
use crate::path::{is_absolute, join, join_path, path_is_absolute, Platform};
use crate::trail::{Reason, ReasonV, Tier};

verus! {

/// What the host tells about its environment, read once before a resolution.
///
/// Each field is `None` when the value could not be obtained; an environment
/// variable that is set to an empty string is `Some` of an empty string.
#[derive(Clone, Debug)]
pub struct HostPaths {
    pub current_dir: Option<String>,
    pub home_dir: Option<String>,
    pub temp_dir: String,
    pub local_app_data: Option<String>,
    pub app_data: Option<String>,
    pub program_data: Option<String>,
}

/// A `HostPaths` with its strings as character sequences.
pub struct HostV {
    pub current_dir: Option<Seq<char>>,
    pub home_dir: Option<Seq<char>>,
    pub temp_dir: Seq<char>,
    pub local_app_data: Option<Seq<char>>,
    pub app_data: Option<Seq<char>>,
    pub program_data: Option<Seq<char>>,
}

/// The view of an optional string.
pub open spec fn ov(o: Option<String>) -> Option<Seq<char>> {
    match o {
        Some(s) => Some(s@),
        None => None,
    }
}

impl View for HostPaths {
    type V = HostV;

    open spec fn view(&self) -> HostV {
        HostV {
            current_dir: ov(self.current_dir),
            home_dir: ov(self.home_dir),
            temp_dir: self.temp_dir@,
            local_app_data: ov(self.local_app_data),
            app_data: ov(self.app_data),
            program_data: ov(self.program_data),
        }
    }
}

/// Whether an optional host path is absent, empty (unavailable), or absolute on `p`.
pub open spec fn usable(p: Platform, o: Option<Seq<char>>) -> bool {
    match o {
        Some(s) => s.len() == 0 || is_absolute(p, s),
        None => true,
    }
}

/// Whether every path the host gives is absolute on `p`; an empty or absent
/// value stands for an unavailable one, except that a current directory that
/// is known must be absolute.
pub open spec fn host_valid(p: Platform, h: HostV) -> bool {
    &&& match h.current_dir {
        Some(d) => is_absolute(p, d),
        None => true,
    }
    &&& usable(p, h.home_dir)
    &&& usable(p, Some(h.temp_dir))
    &&& usable(p, h.local_app_data)
    &&& usable(p, h.app_data)
    &&& usable(p, h.program_data)
}

/// An optional host path where it is usable, `None` where it is not.
pub open spec fn kept(p: Platform, o: Option<Seq<char>>) -> Option<Seq<char>> {
    if usable(p, o) { o } else { None }
}

/// A known current directory where it is absolute, `None` otherwise.
pub open spec fn kept_dir(p: Platform, o: Option<Seq<char>>) -> Option<Seq<char>> {
    match o {
        Some(d) => if is_absolute(p, d) { Some(d) } else { None },
        None => None,
    }
}

fn keep(p: Platform, o: Option<String>) -> (r: Option<String>)
    ensures
        ov(r) == kept(p, ov(o)),
{
    match o {
        Some(s) => if s.unicode_len() == 0 || path_is_absolute(p, s.as_str()) {
            Some(s)
        } else {
            None
        },
        None => None,
    }
}

impl HostPaths {
    /// The same host values with every path that is not absolute on `p`
    /// treated as unavailable: such a known current directory becomes `None`,
    /// another optional value `None`, and such a temporary directory empty.
    pub fn keep_absolute(self, p: Platform) -> (r: HostPaths)
        ensures
            r@ == (HostV {
                current_dir: kept_dir(p, self@.current_dir),
                home_dir: kept(p, self@.home_dir),
                temp_dir: if usable(p, Some(self@.temp_dir)) { self@.temp_dir } else { Seq::empty() },
                local_app_data: kept(p, self@.local_app_data),
                app_data: kept(p, self@.app_data),
                program_data: kept(p, self@.program_data),
            }),
            host_valid(p, r@),
    {
        let current_dir = match self.current_dir {
            Some(d) => if path_is_absolute(p, d.as_str()) { Some(d) } else { None },
            None => None,
        };
        let temp_dir = if self.temp_dir.unicode_len() == 0 || path_is_absolute(p, self.temp_dir.as_str()) {
            self.temp_dir
        } else {
            String::new()
        };
        HostPaths {
            current_dir,
            home_dir: keep(p, self.home_dir),
            temp_dir,
            local_app_data: keep(p, self.local_app_data),
            app_data: keep(p, self.app_data),
            program_data: keep(p, self.program_data),
        }
    }
}

/// What a tier will try: notes recorded if it fails, and the candidate parent
/// directories in order.
#[derive(Clone, Debug)]
pub struct TierPlan {
    pub tier: Tier,
    pub notes: Vec<Reason>,
    pub parents: Vec<String>,
}

/// A `TierPlan` with its strings as character sequences.
pub struct PlanV {
    pub tier: Tier,
    pub notes: Seq<ReasonV>,
    pub parents: Seq<Seq<char>>,
}

impl View for TierPlan {
    type V = PlanV;

    open spec fn view(&self) -> PlanV {
        PlanV {
            tier: self.tier,
            notes: self.notes@.map_values(|r: Reason| r@),
            parents: self.parents@.map_values(|p: String| p@),
        }
    }
}

/// The views of a vector of plans.
pub open spec fn plan_views(v: Seq<TierPlan>) -> Seq<PlanV> {
    v.map_values(|t: TierPlan| t@)
}

/// A plan with nothing to try.
pub open spec fn unavailable(t: Tier, notes: Seq<ReasonV>) -> PlanV {
    PlanV { tier: t, notes, parents: seq![] }
}

/// A plan that tries the given parents, with nothing to note.
pub open spec fn fixed(t: Tier, parents: Seq<Seq<char>>) -> PlanV {
    PlanV { tier: t, notes: seq![], parents }
}

/// Whether `p` follows the Unix conventions.
pub open spec fn is_unix(p: Platform) -> bool {
    p == Platform::Linux || p == Platform::MacOs || p == Platform::Emscripten
        || p == Platform::OtherUnix
}

/// The application tier's location under the current directory when none is set.
pub open spec fn default_app_dir(p: Platform) -> Seq<char> {
    if p == Platform::Windows { "Cache"@ } else { ".cache"@ }
}

/// The application tier: the set location, or a hidden directory, under the
/// current directory, as the only parent.
pub open spec fn app_plan(p: Platform, c: ConfigV, h: HostV) -> PlanV {
    if p == Platform::Unknown {
        unavailable(Tier::Application, seq![ReasonV::Unsupported])
    } else {
        match h.current_dir {
            None => unavailable(Tier::Application, seq![ReasonV::NoCurrentDir]),
            Some(d) => {
                let rel = match c.app_path {
                    Some(a) => a,
                    None => default_app_dir(p),
                };
                fixed(Tier::Application, seq![join(p, d, rel)])
            },
        }
    }
}

/// Where the user's caches live under the home directory.
pub open spec fn home_cache_dir(p: Platform) -> Seq<char> {
    if p == Platform::MacOs {
        "Library/Caches"@
    } else if p == Platform::Windows {
        "Cache"@
    } else {
        ".cache"@
    }
}

/// A note for an environment variable that gives no directory, if any.
pub open spec fn var_notes(name: Seq<char>, v: Option<Seq<char>>) -> Seq<ReasonV> {
    match v {
        None => seq![ReasonV::VariableUndefined(name)],
        Some(s) => if s.len() == 0 { seq![ReasonV::VariableEmpty(name)] } else { seq![] },
    }
}

/// The directory an environment variable gives, if any.
pub open spec fn var_dirs(v: Option<Seq<char>>) -> Seq<Seq<char>> {
    match v {
        Some(s) => if s.len() > 0 { seq![s] } else { seq![] },
        None => seq![],
    }
}

/// A note for a home directory that gives no directory, if any.
pub open spec fn home_notes(v: Option<Seq<char>>) -> Seq<ReasonV> {
    match v {
        None => seq![ReasonV::NoHomeDir],
        Some(s) => if s.len() == 0 { seq![ReasonV::EmptyHomeDir] } else { seq![] },
    }
}

/// The Windows user tier: the local and roaming application-data directories,
/// then `Cache` under the home directory.
pub open spec fn windows_user_plan(h: HostV) -> PlanV {
    PlanV {
        tier: Tier::User,
        notes: var_notes("LOCALAPPDATA"@, h.local_app_data) + var_notes("APPDATA"@, h.app_data)
            + home_notes(h.home_dir),
        parents: var_dirs(h.local_app_data) + var_dirs(h.app_data) + match h.home_dir {
            Some(home) => if home.len() > 0 {
                seq![join(Platform::Windows, home, "Cache"@)]
            } else {
                seq![]
            },
            None => seq![],
        },
    }
}

/// The user tier: the cache directory under the home directory.
pub open spec fn user_plan(p: Platform, h: HostV) -> PlanV {
    if p == Platform::Unknown {
        unavailable(Tier::User, seq![ReasonV::Unsupported])
    } else if p == Platform::Windows {
        windows_user_plan(h)
    } else {
        match h.home_dir {
            Some(home) if home.len() > 0 => fixed(Tier::User, seq![join(p, home, home_cache_dir(p))]),
            _ => if p == Platform::Emscripten {
                fixed(Tier::User, seq!["/var/cache"@])
            } else {
                unavailable(Tier::User, seq![ReasonV::NoHomeDir])
            },
        }
    }
}

/// The system tier: one fixed system-wide cache root.
pub open spec fn system_plan(p: Platform, h: HostV) -> PlanV {
    if p == Platform::Linux || p == Platform::OtherUnix || p == Platform::Emscripten {
        fixed(Tier::System, seq!["/var/cache"@])
    } else if p == Platform::MacOs {
        fixed(Tier::System, seq!["/Library/Caches"@])
    } else if p == Platform::Windows {
        PlanV {
            tier: Tier::System,
            notes: var_notes("ProgramData"@, h.program_data),
            parents: var_dirs(h.program_data),
        }
    } else {
        unavailable(Tier::System, seq![ReasonV::Unsupported])
    }
}

/// The temporary tier: `/var/tmp` and then the temporary directory on Unix
/// systems, the temporary directory elsewhere.
pub open spec fn temporary_plan(p: Platform, h: HostV) -> PlanV {
    if is_unix(p) {
        if h.temp_dir.len() == 0 {
            fixed(Tier::Temporary, seq!["/var/tmp"@])
        } else {
            fixed(Tier::Temporary, seq!["/var/tmp"@, h.temp_dir])
        }
    } else if p == Platform::Windows || p == Platform::Redox {
        if h.temp_dir.len() == 0 {
            unavailable(Tier::Temporary, seq![ReasonV::NoTempDir])
        } else {
            fixed(Tier::Temporary, seq![h.temp_dir])
        }
    } else {
        unavailable(Tier::Temporary, seq![ReasonV::Unsupported])
    }
}

/// The memory tier: the shared-memory mounts where the platform has them.
pub open spec fn memory_plan(p: Platform) -> PlanV {
    if p == Platform::Linux || p == Platform::Emscripten {
        fixed(Tier::Memory, seq!["/dev/shm"@, "/run/shm"@])
    } else {
        unavailable(Tier::Memory, seq![ReasonV::Unsupported])
    }
}

/// The plan of tier `t` on platform `p`.
pub open spec fn tier_plan(p: Platform, t: Tier, c: ConfigV, h: HostV) -> PlanV {
    match t {
        Tier::Application => app_plan(p, c, h),
        Tier::User => user_plan(p, h),
        Tier::System => system_plan(p, h),
        Tier::Temporary => temporary_plan(p, h),
        Tier::Memory => memory_plan(p),
    }
}

/// The views of a vector of strings.
pub open spec fn strs(v: Seq<String>) -> Seq<Seq<char>> {
    v.map_values(|s: String| s@)
}

fn unavailable_plan(t: Tier, reason: Reason) -> (r: TierPlan)
    ensures
        r@ == unavailable(t, seq![reason@]),
{
    let ghost g = reason@;
    let notes = vec![reason];
    let r = TierPlan { tier: t, notes, parents: Vec::new() };
    assert(r@.notes =~= seq![g]);
    assert(r@.parents =~= Seq::<Seq<char>>::empty());
    r
}

fn fixed_plan(t: Tier, parents: Vec<String>) -> (r: TierPlan)
    ensures
        r@ == fixed(t, strs(parents@)),
{
    let r = TierPlan { tier: t, notes: Vec::new(), parents };
    assert(r@.notes =~= Seq::<ReasonV>::empty());
    r
}

fn single_plan(t: Tier, q: String) -> (r: TierPlan)
    ensures
        r@ == fixed(t, seq![q@]),
{
    let ghost g = q@;
    let r = fixed_plan(t, vec![q]);
    assert(r@.parents =~= seq![g]);
    r
}

fn lit(s: &str) -> (r: String)
    ensures
        r@ == s@,
{
    String::from_str(s)
}

fn app_tier_plan(p: Platform, c: &CacheDirConfig, h: &HostPaths) -> (r: TierPlan)
    ensures
        r@ == app_plan(p, c@, h@),
{
    if matches!(p, Platform::Unknown) {
        return unavailable_plan(Tier::Application, Reason::Unsupported);
    }
    match &h.current_dir {
        None => unavailable_plan(Tier::Application, Reason::NoCurrentDir),
        Some(d) => {
            let q = match &c.app_cache_path {
                Some(a) => join_path(p, d.as_str(), a.as_str()),
                None => if matches!(p, Platform::Windows) {
                    join_path(p, d.as_str(), "Cache")
                } else {
                    join_path(p, d.as_str(), ".cache")
                },
            };
            single_plan(Tier::Application, q)
        },
    }
}

/// Adds what an environment variable gives to a note list and a parent list.
fn add_var(name: &str, v: &Option<String>, notes: &mut Vec<Reason>, parents: &mut Vec<String>)
    ensures
        final(notes)@.map_values(|r: Reason| r@) == old(notes)@.map_values(|r: Reason| r@)
            + var_notes(name@, ov(*v)),
        strs(final(parents)@) == strs(old(parents)@) + var_dirs(ov(*v)),
{
    let ghost n0 = old(notes)@;
    let ghost p0 = old(parents)@;
    match v {
        None => {
            notes.push(Reason::VariableUndefined(lit(name)));
        },
        Some(s) => {
            if s.unicode_len() == 0 {
                notes.push(Reason::VariableEmpty(lit(name)));
            } else {
                parents.push(s.clone());
            }
        },
    }
    assert(notes@.map_values(|r: Reason| r@) =~= n0.map_values(|r: Reason| r@) + var_notes(name@, ov(*v)));
    assert(strs(parents@) =~= strs(p0) + var_dirs(ov(*v)));
}

fn windows_user_tier_plan(h: &HostPaths) -> (r: TierPlan)
    ensures
        r@ == windows_user_plan(h@),
{
    let mut notes: Vec<Reason> = Vec::new();
    let mut parents: Vec<String> = Vec::new();
    add_var("LOCALAPPDATA", &h.local_app_data, &mut notes, &mut parents);
    add_var("APPDATA", &h.app_data, &mut notes, &mut parents);
    assert(notes@.map_values(|r: Reason| r@) =~= var_notes("LOCALAPPDATA"@, h@.local_app_data)
        + var_notes("APPDATA"@, h@.app_data));
    assert(strs(parents@) =~= var_dirs(h@.local_app_data) + var_dirs(h@.app_data));
    let ghost n1 = notes@;
    let ghost p1 = parents@;
    match &h.home_dir {
        None => {
            notes.push(Reason::NoHomeDir);
        },
        Some(home) => if home.unicode_len() == 0 {
            notes.push(Reason::EmptyHomeDir);
        } else {
            parents.push(join_path(Platform::Windows, home.as_str(), "Cache"));
        },
    }
    let r = TierPlan { tier: Tier::User, notes, parents };
    assert(r@.notes =~= n1.map_values(|r: Reason| r@) + home_notes(h@.home_dir));
    let ghost tail = match h@.home_dir {
        Some(home) => if home.len() > 0 {
            seq![join(Platform::Windows, home, "Cache"@)]
        } else {
            seq![]
        },
        None => seq![],
    };
    assert(r@.parents =~= strs(p1) + tail);
    r
}

fn user_tier_plan(p: Platform, h: &HostPaths) -> (r: TierPlan)
    ensures
        r@ == user_plan(p, h@),
{
    if matches!(p, Platform::Unknown) {
        return unavailable_plan(Tier::User, Reason::Unsupported);
    }
    if matches!(p, Platform::Windows) {
        return windows_user_tier_plan(h);
    }
    match &h.home_dir {
        Some(home) => {
            if home.unicode_len() > 0 {
                let q = if matches!(p, Platform::MacOs) {
                    join_path(p, home.as_str(), "Library/Caches")
                } else {
                    join_path(p, home.as_str(), ".cache")
                };
                return single_plan(Tier::User, q);
            }
        },
        None => {},
    }
    if matches!(p, Platform::Emscripten) {
        single_plan(Tier::User, lit("/var/cache"))
    } else {
        unavailable_plan(Tier::User, Reason::NoHomeDir)
    }
}

fn system_tier_plan(p: Platform, h: &HostPaths) -> (r: TierPlan)
    ensures
        r@ == system_plan(p, h@),
{
    match p {
        Platform::Linux | Platform::OtherUnix | Platform::Emscripten => single_plan(
            Tier::System,
            lit("/var/cache"),
        ),
        Platform::MacOs => single_plan(Tier::System, lit("/Library/Caches")),
        Platform::Windows => {
            let mut notes: Vec<Reason> = Vec::new();
            let mut parents: Vec<String> = Vec::new();
            add_var("ProgramData", &h.program_data, &mut notes, &mut parents);
            let r = TierPlan { tier: Tier::System, notes, parents };
            assert(r@.notes =~= var_notes("ProgramData"@, h@.program_data));
            assert(r@.parents =~= var_dirs(h@.program_data));
            r
        },
        _ => unavailable_plan(Tier::System, Reason::Unsupported),
    }
}

fn temporary_tier_plan(p: Platform, h: &HostPaths) -> (r: TierPlan)
    ensures
        r@ == temporary_plan(p, h@),
{
    let empty = h.temp_dir.unicode_len() == 0;
    match p {
        Platform::Linux | Platform::MacOs | Platform::Emscripten | Platform::OtherUnix => {
            let mut parents: Vec<String> = vec![lit("/var/tmp")];
            if !empty {
                parents.push(h.temp_dir.clone());
            }
            let r = fixed_plan(Tier::Temporary, parents);
            if empty {
                assert(r@.parents =~= seq!["/var/tmp"@]);
            } else {
                assert(r@.parents =~= seq!["/var/tmp"@, h@.temp_dir]);
            }
            r
        },
        Platform::Windows | Platform::Redox => {
            if empty {
                unavailable_plan(Tier::Temporary, Reason::NoTempDir)
            } else {
                single_plan(Tier::Temporary, h.temp_dir.clone())
            }
        },
        Platform::Unknown => unavailable_plan(Tier::Temporary, Reason::Unsupported),
    }
}

fn memory_tier_plan(p: Platform) -> (r: TierPlan)
    ensures
        r@ == memory_plan(p),
{
    match p {
        Platform::Linux | Platform::Emscripten => {
            let r = fixed_plan(Tier::Memory, vec![lit("/dev/shm"), lit("/run/shm")]);
            assert(r@.parents =~= seq!["/dev/shm"@, "/run/shm"@]);
            r
        },
        _ => unavailable_plan(Tier::Memory, Reason::Unsupported),
    }
}

/// The plan of tier `t` on platform `p` (see `tier_plan`).
pub fn plan_tier(p: Platform, t: Tier, c: &CacheDirConfig, h: &HostPaths) -> (r: TierPlan)
    ensures
        r@ == tier_plan(p, t, c@, h@),
{
    match t {
        Tier::Application => app_tier_plan(p, c, h),
        Tier::User => user_tier_plan(p, h),
        Tier::System => system_tier_plan(p, h),
        Tier::Temporary => temporary_tier_plan(p, h),
        Tier::Memory => memory_tier_plan(p),
    }
}

} // verus!
