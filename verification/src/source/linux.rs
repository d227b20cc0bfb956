//! Linux resolver: the version list comes from the static catalog
//! (endoflife.date), the concrete ISO link is produced at download time.

use vstd::prelude::*;
use crate::catalog::{Catalog, Kind, LinuxCycle, LinuxDistro};
use crate::error::{Error, ErrorView};
use crate::http::{HttpResponse, spec_utf8_error_text};
use crate::pattern::{present, present_captures, regex_group1, spec_regex_group1};
use vstd::utf8::{valid_utf8, decode_utf8};
use crate::select::{first_index, lemma_first_index_found, lemma_first_index_none};
use crate::source::resolver::{DownloadPlan, DownloadRequest, LinkResolver, PlanView, RequestView,
    ResolverContext, file_name_from_url, is_latest, latest_requested, new_plan,
    spec_name_from_segments, spec_url_path_segments, wanted};
use crate::source::tools::or_empty;
use crate::order::{lex_lt, same_elements, sorted_unique, strictly_sorted};
use crate::text::{opt_str, contains, drop_chars, join, opt_view, remove_chars, replace, replace_all, same,
    seq_contains, seq_join, spec_to_lowercase, to_lowercase, views};

verus! {

/// `d` is what a lower-cased query `q` names: its slug lower-cased is `q`, or
/// its name lower-cased contains `q`.
pub open spec fn distro_matches(d: LinuxDistro, q: Seq<char>) -> bool {
    spec_to_lowercase(d.slug@) == q || seq_contains(spec_to_lowercase(d.name@), q)
}

/// The first distribution that `name` names.
pub open spec fn distro_index(distros: Seq<LinuxDistro>, name: Seq<char>) -> Option<int> {
    first_index(distros.len() as int, |i: int| distro_matches(distros[i], spec_to_lowercase(name)))
}

/// The release line `rel` names: the newest for `latest`, else the first
/// whose name lower-cased contains `rel` lower-cased.
pub open spec fn cycle_index(d: LinuxDistro, rel: Seq<char>) -> Option<int> {
    if is_latest(rel) {
        Some(0)
    } else {
        first_index(
            d.cycles@.len() as int,
            |i: int| seq_contains(spec_to_lowercase(d.cycles@[i].cycle@), spec_to_lowercase(rel)),
        )
    }
}

/// The names of a distribution's release lines.
pub open spec fn cycle_names(d: LinuxDistro) -> Seq<Seq<char>> {
    d.cycles@.map_values(|c: LinuxCycle| c.cycle@)
}

/// What `find_cycle` answers: the chosen line's index, or the error.
pub open spec fn spec_find_cycle(d: LinuxDistro, rel: Seq<char>) -> Result<int, ErrorView> {
    if d.cycles@.len() == 0 {
        Err(ErrorView::NotFound("no version info for "@ + d.name@
            + " in catalog (check `vpilot search --kind linux`)"@))
    } else {
        match cycle_index(d, rel) {
            Some(i) => Ok(i),
            None => Err(ErrorView::NotFound("release '"@ + rel + "' not found for "@ + d.name@
                + " (available: "@ + seq_join(cycle_names(d), ", "@) + ")"@)),
        }
    }
}

/// An architecture name lower-cased, without `_` and `-`.
pub open spec fn norm_arch(s: Seq<char>) -> Seq<char> {
    drop_chars(spec_to_lowercase(s), seq!['_', '-'])
}

/// Whether an architecture looks like x86 (mentions `86` or `64`).
pub open spec fn x86_family(s: Seq<char>) -> bool {
    seq_contains(s, "86"@) || seq_contains(s, "64"@)
}

/// `na` is in the family `want` asks for: both ARM, or both x86.
pub open spec fn same_family(want: Seq<char>, na: Seq<char>) -> bool {
    (seq_contains(want, "arm"@) && seq_contains(na, "arm"@)) || (x86_family(want) && x86_family(na))
}

/// The catalog's spelling of the requested architecture: an exact match
/// after normalising, else the first of the same family, else the first
/// listed; with no list, the request lower-cased.
pub open spec fn spec_map_arch(archs: Seq<Seq<char>>, requested: Seq<char>) -> Seq<char> {
    if archs.len() == 0 {
        spec_to_lowercase(requested)
    } else {
        let want = norm_arch(requested);
        match first_index(archs.len() as int, |i: int| norm_arch(archs[i]) == want) {
            Some(i) => archs[i],
            None => match first_index(archs.len() as int, |i: int| same_family(want, norm_arch(archs[i]))) {
                Some(i) => archs[i],
                None => archs[0],
            },
        }
    }
}

/// A distribution that lists architectures always gets one of them, and an
/// architecture it lists (in any spelling that normalises the same) is
/// kept as listed.
pub proof fn lemma_map_arch_listed(archs: Seq<Seq<char>>, requested: Seq<char>)
    requires
        archs.len() > 0,
    ensures
        archs.contains(spec_map_arch(archs, requested)),
        (exists|i: int| 0 <= i < archs.len() && norm_arch(archs[i]) == norm_arch(requested))
            ==> norm_arch(spec_map_arch(archs, requested)) == norm_arch(requested),
{
    let want = norm_arch(requested);
    let p_exact = |i: int| norm_arch(archs[i]) == want;
    let p_family = |i: int| same_family(want, norm_arch(archs[i]));
    crate::select::lemma_first_index_bounds(archs.len() as int, p_exact);
    crate::select::lemma_first_index_bounds(archs.len() as int, p_family);
    assert(archs[0] == archs[0]);
    match first_index(archs.len() as int, p_exact) {
        Some(i) => {
            crate::select::lemma_first_index_is_first(archs.len() as int, p_exact);
            assert(archs[i] == spec_map_arch(archs, requested));
        },
        None => {
            if exists|i: int| 0 <= i < archs.len() && norm_arch(archs[i]) == norm_arch(requested) {
                let i = choose|i: int| 0 <= i < archs.len() && norm_arch(archs[i]) == norm_arch(requested);
                assert(p_exact(i));
                crate::select::lemma_first_index_exists(archs.len() as int, p_exact, i);
            }
            match first_index(archs.len() as int, p_family) {
                Some(i) => assert(archs[i] == spec_map_arch(archs, requested)),
                None => assert(archs[0] == spec_map_arch(archs, requested)),
            }
        },
    }
}

/// The version a release line is downloaded as: its latest patch when the
/// catalog has a non-empty one, else the line itself.
pub open spec fn version_of(c: LinuxCycle) -> Seq<char> {
    match c.latest {
        Some(l) => if l@.len() > 0 { l@ } else { c.cycle@ },
        None => c.cycle@,
    }
}

/// The architecture name NixOS channels use.
pub open spec fn nix_arch(arch: Seq<char>) -> Seq<char> {
    if arch == "amd64"@ || arch == "x86_64"@ {
        "x86_64"@
    } else if arch == "arm64"@ || arch == "aarch64"@ {
        "aarch64"@
    } else {
        arch
    }
}

/// What `resolve_with_version` gives for a distribution, release line,
/// architecture and version.
pub open spec fn spec_with_version(d: LinuxDistro, c: LinuxCycle, arch: Seq<char>, version: Seq<char>,
    target_dir: Seq<char>) -> Result<PlanView, ErrorView> {
    if d.resolver@ == "template"@ {
        match d.url_template {
            None => Err(ErrorView::Other(d.name@ + ": no url_template in catalog"@)),
            Some(tpl) => {
                let url = replace_all(replace_all(replace_all(tpl@, "{version}"@, version), "{cycle}"@, c.cycle@),
                    "{arch}"@, arch);
                let fallback = d.slug@ + "-"@ + replace_all(c.cycle@, " "@, "_"@) + "-"@ + arch + ".iso"@;
                let file = spec_name_from_segments(spec_url_path_segments(url), fallback);
                Ok(new_plan(Kind::Linux, url, file, target_dir, arch,
                    d.name@ + " "@ + c.cycle@ + " "@ + or_empty(opt_view(c.latest)) + " ("@ + d.resolver@ + ")"@))
            },
        }
    } else if d.resolver@ == "nixos"@ {
        let na = nix_arch(arch);
        Ok(new_plan(Kind::Linux,
            "https://channels.nixos.org/nixos-"@ + c.cycle@ + "/latest-nixos-minimal-"@ + na + "-linux.iso"@,
            "nixos-minimal-"@ + c.cycle@ + "-"@ + na + ".iso"@,
            target_dir, arch, "NixOS "@ + c.cycle@ + " channel"@))
    } else if d.resolver@ == "proxmox"@ {
        Err(ErrorView::Other("proxmox resolver should not reach this path"@))
    } else if d.resolver@ == "release-page"@ {
        let page = match d.page_url {
            Some(p) => p@,
            None => "https://kde.org/plasma-desktop/"@,
        };
        let plan = new_plan(Kind::Linux, page, d.slug@ + "-"@ + c.cycle@ + ".txt"@, target_dir, arch,
            d.name@ + " release page (no bootable ISO)"@);
        Ok(PlanView { downloadable: false, ..plan })
    } else {
        Err(ErrorView::Other(d.name@ + ": unknown resolver '"@ + d.resolver@ + "'"@))
    }
}

/// The Proxmox VE download page, scraped for ISO links.
pub open spec fn proxmox_page() -> Seq<char> {
    "https://www.proxmox.com/en/downloads/proxmox-virtual-environment/iso"@
}

/// What resolving a Linux system needs next, or gives.
pub enum LinuxStep {
    /// The plan is complete.
    Plan(DownloadPlan),
    /// The page at this URL must be fetched and handed to `resolve_proxmox_page`.
    FetchPage(String),
}

/// A step as plain values.
pub enum LinuxStepView {
    Plan(PlanView),
    FetchPage(Seq<char>),
}

pub open spec fn step_result(r: Result<LinuxStep, Error>) -> Result<LinuxStepView, ErrorView> {
    match r {
        Ok(LinuxStep::Plan(p)) => Ok(LinuxStepView::Plan(p@)),
        Ok(LinuxStep::FetchPage(u)) => Ok(LinuxStepView::FetchPage(u@)),
        Err(e) => Err(e@),
    }
}

/// What `resolve` gives: Proxmox asks for its page; every other resolver
/// picks a release line and architecture from the catalog and builds the plan.
pub open spec fn spec_linux_resolve(distros: Seq<LinuxDistro>, default_release: Seq<char>,
    default_arch: Seq<char>, req: RequestView) -> Result<LinuxStepView, ErrorView> {
    match distro_index(distros, req.system) {
        None => Err(ErrorView::NotFound("unknown Linux distro: "@ + req.system)),
        Some(di) => {
            let d = distros[di];
            if d.resolver@ != "proxmox"@ {
                match spec_find_cycle(d, wanted(req.release, default_release)) {
                    Err(e) => Err(e),
                    Ok(ci) => {
                        let c = d.cycles@[ci];
                        let arch = spec_map_arch(views(d.arch@), wanted(req.arch, default_arch));
                        match spec_with_version(d, c, arch, version_of(c), req.target_dir) {
                            Ok(p) => Ok(LinuxStepView::Plan(p)),
                            Err(e) => Err(e),
                        }
                    },
                }
            } else {
                Ok(LinuxStepView::FetchPage(proxmox_page()))
            }
        },
    }
}

/// The pattern that finds ISO links on the Proxmox page.
pub open spec fn proxmox_pattern() -> Seq<char> {
    r#"href="(https?://[^"]*proxmox-ve[^"]*\.iso)"#@
}

/// The release Proxmox is asked for: the request's unless it is empty or
/// `latest`, else the configured default.
pub open spec fn proxmox_release(requested: Option<Seq<char>>, default: Seq<char>) -> Seq<char> {
    match requested {
        Some(r) => if !is_latest(r) { r } else { default },
        None => default,
    }
}

/// The link a release picks from the sorted links `s`: the greatest for
/// `latest`; else the greatest containing `proxmox-ve_<rel>-`, else the
/// least containing `rel`.
pub open spec fn spec_pick_proxmox(s: Seq<Seq<char>>, rel: Seq<char>) -> Option<Seq<char>> {
    if is_latest(rel) {
        Some(s.last())
    } else {
        let pat = "proxmox-ve_"@ + rel + "-"@;
        match first_index(s.len() as int, |k: int| seq_contains(s[s.len() - 1 - k], pat)) {
            Some(k) => Some(s[s.len() - 1 - k]),
            None => match first_index(s.len() as int, |k: int| seq_contains(s[k], rel)) {
                Some(k) => Some(s[k]),
                None => None,
            },
        }
    }
}

/// From sorted links, `latest` picks the greatest link; another release picks
/// the greatest link carrying `proxmox-ve_<rel>-` (the newest build of that
/// release), and only when none does, the least link mentioning `rel`.
pub proof fn lemma_pick_proxmox_order(s: Seq<Seq<char>>, rel: Seq<char>)
    requires
        strictly_sorted(s),
        s.len() > 0,
    ensures
        spec_pick_proxmox(s, rel) matches Some(l) ==> s.contains(l),
        is_latest(rel) ==> (spec_pick_proxmox(s, rel) matches Some(l)
            && forall|j: int| 0 <= j < s.len() ==> !lex_lt(l, #[trigger] s[j])),
        !is_latest(rel) && (exists|j: int| 0 <= j < s.len() && seq_contains(s[j], "proxmox-ve_"@ + rel + "-"@))
            ==> (spec_pick_proxmox(s, rel) matches Some(l) && seq_contains(l, "proxmox-ve_"@ + rel + "-"@)
                && forall|j: int| 0 <= j < s.len() && seq_contains(#[trigger] s[j], "proxmox-ve_"@ + rel + "-"@)
                    ==> !lex_lt(l, s[j])),
        !is_latest(rel) && !(exists|j: int| 0 <= j < s.len() && seq_contains(s[j], "proxmox-ve_"@ + rel + "-"@))
            && (exists|j: int| 0 <= j < s.len() && seq_contains(s[j], rel))
            ==> (spec_pick_proxmox(s, rel) matches Some(l) && seq_contains(l, rel)
                && forall|j: int| 0 <= j < s.len() && seq_contains(#[trigger] s[j], rel) ==> !lex_lt(s[j], l)),
{
    let n = s.len() as int;
    let pat = "proxmox-ve_"@ + rel + "-"@;
    let p1 = |k: int| seq_contains(s[n - 1 - k], pat);
    let p2 = |k: int| seq_contains(s[k], rel);
    assert((|k: int| seq_contains(s[s.len() - 1 - k], pat)) =~= p1);
    if is_latest(rel) {
        let l = s[n - 1];
        assert(s.contains(l));
        assert forall|j: int| 0 <= j < s.len() implies !lex_lt(l, #[trigger] s[j]) by {
            if j < n - 1 {
                crate::order::lemma_lex_asymmetric(s[j], l);
            } else {
                crate::order::lemma_lex_irreflexive(l);
            }
        }
    } else {
        if exists|j: int| 0 <= j < s.len() && seq_contains(s[j], pat) {
            let j0 = choose|j: int| 0 <= j < s.len() && seq_contains(s[j], pat);
            assert(p1(n - 1 - j0));
            crate::select::lemma_first_index_exists(n, p1, n - 1 - j0);
            crate::select::lemma_first_index_is_first(n, p1);
            let k = first_index(n, p1).unwrap();
            let l = s[n - 1 - k];
            assert(spec_pick_proxmox(s, rel) == Some(l));
            assert(s.contains(l));
            assert forall|j: int| 0 <= j < s.len() && seq_contains(#[trigger] s[j], pat) implies !lex_lt(l, s[j]) by {
                if j > n - 1 - k {
                    assert(p1(n - 1 - j));
                    assert(false);
                } else if j < n - 1 - k {
                    crate::order::lemma_lex_asymmetric(s[j], l);
                } else {
                    crate::order::lemma_lex_irreflexive(l);
                }
            }
        } else {
            assert forall|k: int| 0 <= k < n implies !#[trigger] p1(k) by {
                assert(!seq_contains(s[n - 1 - k], pat));
            }
            lemma_first_index_none(n, p1);
            assert((|k: int| seq_contains(s[k], rel)) =~= p2);
            if exists|j: int| 0 <= j < s.len() && seq_contains(s[j], rel) {
                let j0 = choose|j: int| 0 <= j < s.len() && seq_contains(s[j], rel);
                assert(p2(j0));
                crate::select::lemma_first_index_exists(n, p2, j0);
                crate::select::lemma_first_index_is_first(n, p2);
                let k = first_index(n, p2).unwrap();
                let l = s[k];
                assert(spec_pick_proxmox(s, rel) == Some(l));
                assert(s.contains(l));
                assert forall|j: int| 0 <= j < s.len() && seq_contains(#[trigger] s[j], rel) implies !lex_lt(s[j], l) by {
                    if j < k {
                        assert(p2(j));
                        assert(false);
                    } else if j > k {
                        crate::order::lemma_lex_asymmetric(l, s[j]);
                    } else {
                        crate::order::lemma_lex_irreflexive(l);
                    }
                }
            } else {
                assert forall|k: int| 0 <= k < n implies !#[trigger] p2(k) by {}
                lemma_first_index_none(n, p2);
            }
        }
    }
}

/// What picking from the scraped links gives, once they are sorted (as `s`).
pub open spec fn spec_proxmox_link(links: Seq<Seq<char>>, s: Seq<Seq<char>>, rel: Seq<char>)
    -> Result<Seq<char>, ErrorView> {
    if links.len() == 0 {
        Err(ErrorView::NotFound("no proxmox-ve*.iso links found on the Proxmox page (page structure may have changed; open it manually)"@))
    } else {
        match spec_pick_proxmox(s, rel) {
            Some(l) => Ok(l),
            None => Err(ErrorView::NotFound("no Proxmox ISO for release '"@ + rel + "' (found: "@
                + seq_join(s, ", "@) + ")"@)),
        }
    }
}

/// The plan a scraped Proxmox link gives.
pub open spec fn proxmox_plan(link: Seq<char>, target_dir: Seq<char>, arch: Seq<char>) -> PlanView {
    new_plan(Kind::Linux, link, spec_name_from_segments(spec_url_path_segments(link), "proxmox-ve.iso"@),
        target_dir, arch, "Proxmox VE (scraped)"@)
}

/// Picks the Proxmox ISO link for a release from the links found on the
/// page: after sorting and removing duplicates, the newest for `latest`,
/// else the last one for `proxmox-ve_<rel>-`, else the first mentioning `rel`.
pub fn pick_proxmox_link(links: &Vec<String>, rel: &str) -> (r: Result<String, Error>)
    ensures
        exists|s: Seq<Seq<char>>| {
            &&& strictly_sorted(s)
            &&& same_elements(s, views(links@))
            &&& match spec_proxmox_link(views(links@), s, rel@) {
                Ok(l) => r matches Ok(x) && x@ == l,
                Err(ev) => r matches Err(e) && e@ == ev,
            }
        },
{
    let sorted = sorted_unique(links);
    let ghost s = views(sorted@);
    if links.len() == 0 {
        return Err(Error::NotFound(String::from_str(
            "no proxmox-ve*.iso links found on the Proxmox page (page structure may have changed; open it manually)")));
    }
    proof {
        assert(views(links@).contains(views(links@)[0]));
        assert(s.contains(views(links@)[0]));
    }
    let n = sorted.len();
    if latest_requested(rel) {
        return Ok(sorted[n - 1].clone());
    }
    let mut pat = String::from_str("proxmox-ve_");
    pat.append(rel);
    pat.append("-");
    let ghost p1 = |k: int| seq_contains(s[s.len() - 1 - k], pat@);
    let mut k: usize = 0;
    while k < n
        invariant
            n == sorted@.len(),
            s == views(sorted@),
            strictly_sorted(s),
            same_elements(s, views(links@)),
            links@.len() > 0,
            !is_latest(rel@),
            pat@ == "proxmox-ve_"@ + rel@ + "-"@,
            p1 == (|k: int| seq_contains(s[s.len() - 1 - k], pat@)),
            k <= n,
            forall|j: int| 0 <= j < k ==> !#[trigger] p1(j),
        decreases n - k,
    {
        if contains(sorted[n - 1 - k].as_str(), pat.as_str()) {
            proof {
                assert(p1(k as int));
                lemma_first_index_found(n as int, p1, k as int);
            }
            return Ok(sorted[n - 1 - k].clone());
        }
        assert(!p1(k as int));
        k += 1;
    }
    proof {
        lemma_first_index_none(n as int, p1);
    }
    let ghost p2 = |k: int| seq_contains(s[k], rel@);
    let mut j: usize = 0;
    while j < n
        invariant
            n == sorted@.len(),
            s == views(sorted@),
            strictly_sorted(s),
            same_elements(s, views(links@)),
            links@.len() > 0,
            !is_latest(rel@),
            first_index(n as int, p1) is None,
            p1 == (|k: int| seq_contains(s[s.len() - 1 - k], pat@)),
            pat@ == "proxmox-ve_"@ + rel@ + "-"@,
            p2 == (|k: int| seq_contains(s[k], rel@)),
            j <= n,
            forall|m: int| 0 <= m < j ==> !#[trigger] p2(m),
        decreases n - j,
    {
        if contains(sorted[j].as_str(), rel) {
            proof {
                assert(p2(j as int));
                lemma_first_index_found(n as int, p2, j as int);
            }
            return Ok(sorted[j].clone());
        }
        assert(!p2(j as int));
        j += 1;
    }
    proof {
        lemma_first_index_none(n as int, p2);
    }
    let found = join(sorted.as_slice(), ", ");
    let mut m = String::from_str("no Proxmox ISO for release '");
    m.append(rel);
    m.append("' (found: ");
    m.append(found.as_str());
    m.append(")");
    Err(Error::NotFound(m))
}

/// Resolves Linux distributions from the catalog.
pub struct LinuxResolver<'a> {
    ctx: &'a ResolverContext<'a>,
    catalog: &'a Catalog,
}

impl<'a> LinuxResolver<'a> {
    /// The catalog's distributions this resolver searches.
    pub closed spec fn distros(&self) -> Seq<LinuxDistro> {
        self.catalog.linux@
    }

    /// The configured default release.
    pub closed spec fn default_release(&self) -> Seq<char> {
        self.ctx.config.default_release@
    }

    /// The configured default architecture.
    pub closed spec fn default_arch(&self) -> Seq<char> {
        self.ctx.config.default_arch@
    }

    pub fn new(ctx: &'a ResolverContext<'a>, catalog: &'a Catalog) -> (r: Self)
        ensures
            r.distros() == catalog.linux@,
            r.default_release() == ctx.config.default_release@,
            r.default_arch() == ctx.config.default_arch@,
    {
        LinuxResolver { ctx, catalog }
    }

    /// The first distribution whose slug is `name` or whose name contains
    /// it, both compared lower-cased; `NotFound` when there is none.
    pub fn find_distro(&self, name: &str) -> (r: Result<&'a LinuxDistro, Error>)
        ensures
            match distro_index(self.distros(), name@) {
                Some(i) => r matches Ok(d) && *d == self.distros()[i],
                None => r matches Err(e) && e@ == ErrorView::NotFound("unknown Linux distro: "@ + name@),
            },
    {
        let q = to_lowercase(name);
        let ds = &self.catalog.linux;
        let ghost p = |i: int| distro_matches(ds@[i], spec_to_lowercase(name@));
        let mut i: usize = 0;
        while i < ds.len()
            invariant
                ds@ == self.distros(),
                q@ == spec_to_lowercase(name@),
                p == (|i: int| distro_matches(ds@[i], spec_to_lowercase(name@))),
                i <= ds@.len(),
                forall|j: int| 0 <= j < i ==> !#[trigger] p(j),
            decreases ds.len() - i,
        {
            let d = &ds[i];
            let slug = to_lowercase(d.slug.as_str());
            let nm = to_lowercase(d.name.as_str());
            if same(slug.as_str(), q.as_str()) || contains(nm.as_str(), q.as_str()) {
                proof {
                    assert(p(i as int));
                    lemma_first_index_found(ds@.len() as int, p, i as int);
                }
                return Ok(d);
            }
            assert(!p(i as int));
            i += 1;
        }
        proof {
            lemma_first_index_none(ds@.len() as int, p);
        }
        let mut m = String::from_str("unknown Linux distro: ");
        m.append(name);
        Err(Error::NotFound(m))
    }

    /// The release line a release names, falling back to the configured
    /// default release when none is given.
    pub fn find_cycle<'d>(&self, distro: &'d LinuxDistro, release: Option<&str>) -> (r: Result<&'d LinuxCycle, Error>)
        ensures
            match spec_find_cycle(*distro, wanted(opt_str(release), self.default_release())) {
                Ok(i) => r matches Ok(c) && *c == distro.cycles@[i],
                Err(ev) => r matches Err(e) && e@ == ev,
            },
    {
        if distro.cycles.len() == 0 {
            let mut m = String::from_str("no version info for ");
            m.append(distro.name.as_str());
            m.append(" in catalog (check `vpilot search --kind linux`)");
            return Err(Error::NotFound(m));
        }
        let rel: &str = match release {
            Some(r) => r,
            None => self.ctx.config.default_release.as_str(),
        };
        if latest_requested(rel) {
            return Ok(&distro.cycles[0]);
        }
        let q = to_lowercase(rel);
        let ghost p = |i: int| seq_contains(spec_to_lowercase(distro.cycles@[i].cycle@), spec_to_lowercase(rel@));
        let mut i: usize = 0;
        while i < distro.cycles.len()
            invariant
                !is_latest(rel@),
                rel@ == wanted(opt_str(release), self.default_release()),
                distro.cycles@.len() > 0,
                q@ == spec_to_lowercase(rel@),
                p == (|i: int| seq_contains(spec_to_lowercase(distro.cycles@[i].cycle@), spec_to_lowercase(rel@))),
                i <= distro.cycles@.len(),
                forall|j: int| 0 <= j < i ==> !#[trigger] p(j),
            decreases distro.cycles.len() - i,
        {
            let c = to_lowercase(distro.cycles[i].cycle.as_str());
            if contains(c.as_str(), q.as_str()) {
                proof {
                    assert(p(i as int));
                    lemma_first_index_found(distro.cycles@.len() as int, p, i as int);
                }
                return Ok(&distro.cycles[i]);
            }
            assert(!p(i as int));
            i += 1;
        }
        proof {
            lemma_first_index_none(distro.cycles@.len() as int, p);
        }
        let mut names: Vec<String> = Vec::new();
        let mut k: usize = 0;
        while k < distro.cycles.len()
            invariant
                k <= distro.cycles@.len(),
                names@.len() == k,
                forall|j: int| 0 <= j < k ==> #[trigger] names@[j]@ == distro.cycles@[j].cycle@,
            decreases distro.cycles.len() - k,
        {
            names.push(distro.cycles[k].cycle.clone());
            k += 1;
        }
        assert(views(names@) =~= cycle_names(*distro));
        let avail = join(names.as_slice(), ", ");
        let mut m = String::from_str("release '");
        m.append(rel);
        m.append("' not found for ");
        m.append(distro.name.as_str());
        m.append(" (available: ");
        m.append(avail.as_str());
        m.append(")");
        Err(Error::NotFound(m))
    }
}

impl<'a> LinuxResolver<'a> {
    /// A name lower-cased, without `_` and `-`.
    fn norm(s: &str) -> (r: String)
        ensures
            r@ == norm_arch(s@),
    {
        let l = to_lowercase(s);
        let set: Vec<char> = vec!['_', '-'];
        assert(set@ =~= seq!['_', '-']);
        remove_chars(l.as_str(), set.as_slice())
    }

    fn family(want: &str, na: &str) -> (r: bool)
        ensures
            r == same_family(want@, na@),
    {
        proof {
            reveal_strlit("arm");
            reveal_strlit("86");
            reveal_strlit("64");
        }
        let want_arm = contains(want, "arm");
        let want_x86 = contains(want, "86") || contains(want, "64");
        (want_arm && contains(na, "arm")) || (want_x86 && (contains(na, "86") || contains(na, "64")))
    }

    /// The catalog's spelling of the requested (or default) architecture:
    /// an exact match ignoring case, `_` and `-`, else the first of the same
    /// family (ARM, or x86 by `86`/`64`), else the first listed.
    pub fn map_arch(&self, distro: &LinuxDistro, arch: Option<&str>) -> (r: String)
        ensures
            r@ == spec_map_arch(views(distro.arch@), wanted(opt_str(arch), self.default_arch())),
    {
        let requested: &str = match arch {
            Some(a) => a,
            None => self.ctx.config.default_arch.as_str(),
        };
        let ghost archs = views(distro.arch@);
        if distro.arch.len() == 0 {
            return to_lowercase(requested);
        }
        let want = Self::norm(requested);
        let ghost p1 = |i: int| norm_arch(archs[i]) == norm_arch(requested@);
        let mut i: usize = 0;
        while i < distro.arch.len()
            invariant
                archs == views(distro.arch@),
                want@ == norm_arch(requested@),
                p1 == (|i: int| norm_arch(archs[i]) == norm_arch(requested@)),
                requested@ == wanted(opt_str(arch), self.default_arch()),
                distro.arch@.len() > 0,
                i <= distro.arch@.len(),
                forall|j: int| 0 <= j < i ==> !#[trigger] p1(j),
            decreases distro.arch.len() - i,
        {
            let na = Self::norm(distro.arch[i].as_str());
            if same(na.as_str(), want.as_str()) {
                proof {
                    assert(p1(i as int));
                    lemma_first_index_found(archs.len() as int, p1, i as int);
                }
                return distro.arch[i].clone();
            }
            assert(!p1(i as int));
            i += 1;
        }
        proof {
            lemma_first_index_none(archs.len() as int, p1);
        }
        let ghost p2 = |i: int| same_family(norm_arch(requested@), norm_arch(archs[i]));
        let mut k: usize = 0;
        while k < distro.arch.len()
            invariant
                archs == views(distro.arch@),
                want@ == norm_arch(requested@),
                p2 == (|i: int| same_family(norm_arch(requested@), norm_arch(archs[i]))),
                requested@ == wanted(opt_str(arch), self.default_arch()),
                distro.arch@.len() > 0,
                first_index(archs.len() as int, p1) is None,
                p1 == (|i: int| norm_arch(archs[i]) == norm_arch(requested@)),
                k <= distro.arch@.len(),
                forall|j: int| 0 <= j < k ==> !#[trigger] p2(j),
            decreases distro.arch.len() - k,
        {
            let na = Self::norm(distro.arch[k].as_str());
            if Self::family(want.as_str(), na.as_str()) {
                proof {
                    assert(p2(k as int));
                    lemma_first_index_found(archs.len() as int, p2, k as int);
                }
                return distro.arch[k].clone();
            }
            assert(!p2(k as int));
            k += 1;
        }
        proof {
            lemma_first_index_none(archs.len() as int, p2);
        }
        distro.arch[0].clone()
    }

    /// The architecture name NixOS channels use for `arch`.
    fn nix_arch_of(arch: &str) -> (r: &str)
        ensures
            r@ == nix_arch(arch@),
    {
        if same(arch, "amd64") || same(arch, "x86_64") {
            "x86_64"
        } else if same(arch, "arm64") || same(arch, "aarch64") {
            "aarch64"
        } else {
            arch
        }
    }

    /// Builds the plan for a chosen release line, architecture and version
    /// according to the distribution's resolver kind.
    pub fn resolve_with_version(&self, req: &DownloadRequest, distro: &LinuxDistro, cycle: &LinuxCycle,
        arch: &str, version: &str) -> (r: Result<DownloadPlan, Error>)
        ensures
            crate::source::resolver::plan_result(r) == spec_with_version(*distro, *cycle, arch@, version@,
                req@.target_dir),
    {
        let res = distro.resolver.as_str();
        if same(res, "template") {
            let tpl = match &distro.url_template {
                Some(t) => t,
                None => {
                    let mut m = String::from_str(distro.name.as_str());
                    m.append(": no url_template in catalog");
                    return Err(Error::Other(m));
                },
            };
            proof {
                reveal_strlit("{version}");
                reveal_strlit("{cycle}");
                reveal_strlit("{arch}");
                reveal_strlit(" ");
            }
            let u1 = replace(tpl.as_str(), "{version}", version);
            let u2 = replace(u1.as_str(), "{cycle}", cycle.cycle.as_str());
            let url = replace(u2.as_str(), "{arch}", arch);
            let mut fallback = String::from_str(distro.slug.as_str());
            fallback.append("-");
            let cyc = replace(cycle.cycle.as_str(), " ", "_");
            fallback.append(cyc.as_str());
            fallback.append("-");
            fallback.append(arch);
            fallback.append(".iso");
            let file_name = file_name_from_url(url.as_str(), fallback.as_str());
            let latest: &str = match &cycle.latest {
                Some(l) => l.as_str(),
                None => "",
            };
            proof {
                reveal_strlit("");
                assert(latest@ == or_empty(opt_view(cycle.latest)));
            }
            let mut source = String::from_str(distro.name.as_str());
            source.append(" ");
            source.append(cycle.cycle.as_str());
            source.append(" ");
            source.append(latest);
            source.append(" (");
            source.append(res);
            source.append(")");
            Ok(DownloadPlan::new(Kind::Linux, url, file_name, req.target_dir.as_str(), arch, source.as_str()))
        } else if same(res, "nixos") {
            let na = Self::nix_arch_of(arch);
            let mut url = String::from_str("https://channels.nixos.org/nixos-");
            url.append(cycle.cycle.as_str());
            url.append("/latest-nixos-minimal-");
            url.append(na);
            url.append("-linux.iso");
            let mut file_name = String::from_str("nixos-minimal-");
            file_name.append(cycle.cycle.as_str());
            file_name.append("-");
            file_name.append(na);
            file_name.append(".iso");
            let mut source = String::from_str("NixOS ");
            source.append(cycle.cycle.as_str());
            source.append(" channel");
            Ok(DownloadPlan::new(Kind::Linux, url, file_name, req.target_dir.as_str(), arch, source.as_str()))
        } else if same(res, "proxmox") {
            Err(Error::Other(String::from_str("proxmox resolver should not reach this path")))
        } else if same(res, "release-page") {
            let page: &str = match &distro.page_url {
                Some(p) => p.as_str(),
                None => "https://kde.org/plasma-desktop/",
            };
            let mut file_name = String::from_str(distro.slug.as_str());
            file_name.append("-");
            file_name.append(cycle.cycle.as_str());
            file_name.append(".txt");
            let mut source = String::from_str(distro.name.as_str());
            source.append(" release page (no bootable ISO)");
            let mut plan = DownloadPlan::new(Kind::Linux, String::from_str(page), file_name,
                req.target_dir.as_str(), arch, source.as_str());
            plan.downloadable = false;
            Ok(plan)
        } else {
            let mut m = String::from_str(distro.name.as_str());
            m.append(": unknown resolver '");
            m.append(res);
            m.append("'");
            Err(Error::Other(m))
        }
    }

    /// The version a release line is downloaded as.
    fn version(cycle: &LinuxCycle) -> (r: &str)
        ensures
            r@ == version_of(*cycle),
    {
        match &cycle.latest {
            Some(l) => if l.unicode_len() > 0 { l.as_str() } else { cycle.cycle.as_str() },
            None => cycle.cycle.as_str(),
        }
    }

    /// Resolves a request: Proxmox first needs its download page (see
    /// `resolve_proxmox_page`); every other distribution picks a release line
    /// and architecture from the catalog and builds the plan directly.
    pub fn resolve(&self, req: &DownloadRequest) -> (r: Result<LinuxStep, Error>)
        ensures
            step_result(r) == spec_linux_resolve(self.distros(), self.default_release(), self.default_arch(), req@),
    {
        let distro = self.find_distro(req.system.as_str())?;
        if !same(distro.resolver.as_str(), "proxmox") {
            let rel: Option<&str> = match &req.release {
                Some(r) => Some(r.as_str()),
                None => None,
            };
            let a: Option<&str> = match &req.arch {
                Some(x) => Some(x.as_str()),
                None => None,
            };
            assert(opt_str(rel) == req@.release);
            assert(opt_str(a) == req@.arch);
            let cycle = self.find_cycle(distro, rel)?;
            let arch = self.map_arch(distro, a);
            let version = Self::version(cycle);
            return match self.resolve_with_version(req, distro, cycle, arch.as_str(), version) {
                Ok(p) => Ok(LinuxStep::Plan(p)),
                Err(e) => Err(e),
            };
        }
        Ok(LinuxStep::FetchPage(String::from_str("https://www.proxmox.com/en/downloads/proxmox-virtual-environment/iso")))
    }
}

impl<'a> LinuxResolver<'a> {
    /// Finishes a Proxmox resolution with the reply to fetching the Proxmox
    /// download page: scrapes its ISO links and picks one for the release.
    pub fn resolve_proxmox_page(&self, req: &DownloadRequest, page: &HttpResponse) -> (r: Result<DownloadPlan, Error>)
        ensures
            match distro_index(self.distros(), req@.system) {
                None => r matches Err(e) && e@ == ErrorView::NotFound("unknown Linux distro: "@ + req@.system),
                Some(di) => if !valid_utf8(page.body@) {
                    r matches Err(e) && e@ == ErrorView::Parse("invalid utf-8 body: "@ + spec_utf8_error_text(page.body@))
                } else {
                    match spec_regex_group1(proxmox_pattern(), decode_utf8(page.body@)) {
                        Err(m) => r matches Err(e) && e@ == ErrorView::Parse(m),
                        Ok(caps) => exists|s: Seq<Seq<char>>| {
                            &&& strictly_sorted(s)
                            &&& same_elements(s, present(caps))
                            &&& match spec_proxmox_link(present(caps), s, proxmox_release(req@.release, self.default_release())) {
                                Ok(l) => r matches Ok(p) && p@ == proxmox_plan(l, req@.target_dir,
                                    spec_map_arch(views(self.distros()[di].arch@), wanted(req@.arch, self.default_arch()))),
                                Err(ev) => r matches Err(e) && e@ == ev,
                            }
                        },
                    }
                },
            },
    {
        let distro = self.find_distro(req.system.as_str())?;
        let html = page.text()?;
        proof {
            reveal_strlit(r#"href="(https?://[^"]*proxmox-ve[^"]*\.iso)"#);
        }
        let caps = match regex_group1(r#"href="(https?://[^"]*proxmox-ve[^"]*\.iso)"#, html.as_str()) {
            Ok(c) => c,
            Err(m) => return Err(Error::Parse(m)),
        };
        let links = present_captures(caps);
        let rel: &str = match &req.release {
            Some(r) => if !latest_requested(r.as_str()) { r.as_str() } else { self.ctx.config.default_release.as_str() },
            None => self.ctx.config.default_release.as_str(),
        };
        assert(rel@ == proxmox_release(req@.release, self.default_release()));
        let link = pick_proxmox_link(&links, rel)?;
        let file_name = file_name_from_url(link.as_str(), "proxmox-ve.iso");
        let a: Option<&str> = match &req.arch {
            Some(x) => Some(x.as_str()),
            None => None,
        };
        assert(opt_str(a) == req@.arch);
        let arch = self.map_arch(distro, a);
        Ok(DownloadPlan::new(Kind::Linux, link, file_name, req.target_dir.as_str(), arch.as_str(), "Proxmox VE (scraped)"))
    }
}

impl<'a> LinkResolver for LinuxResolver<'a> {
    fn kind(&self) -> (r: Kind)
        ensures
            r == Kind::Linux,
    {
        Kind::Linux
    }

    fn find(&self, name: &str) -> (r: Result<(), Error>)
        ensures
            r is Ok <==> distro_index(self.distros(), name@) is Some,
            r matches Err(e) ==> e@ == ErrorView::NotFound("unknown Linux distro: "@ + name@),
    {
        match self.find_distro(name) {
            Ok(_) => Ok(()),
            Err(e) => Err(e),
        }
    }
}

} // verus!
