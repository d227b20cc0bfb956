//! The static catalog of systems: versions and templates, never concrete links.

use vstd::prelude::*;
use crate::text::{contains, opt_str, seq_contains, spec_to_lowercase, to_lowercase, views};

verus! {

/// The three families of systems the catalog knows.
#[derive(Debug, Clone, Copy, PartialEq, Eq, Structural)]
pub enum Kind {
    Windows,
    Linux,
    Tools,
}

impl Kind {
    /// The family's name as printed and searched for.
    pub open spec fn spec_name(self) -> Seq<char> {
        match self {
            Kind::Windows => "windows"@,
            Kind::Linux => "linux"@,
            Kind::Tools => "tools"@,
        }
    }

    /// The family's name: `windows`, `linux` or `tools`.
    pub fn as_str(&self) -> (r: &'static str)
        ensures
            r@ == self.spec_name(),
    {
        match self {
            Kind::Windows => "windows",
            Kind::Linux => "linux",
            Kind::Tools => "tools",
        }
    }
}

/// One release line of a Linux distribution (an endoflife.date cycle).
#[derive(Debug)]
pub struct LinuxCycle {
    pub cycle: String,
    pub latest: Option<String>,
    pub lts: Option<bool>,
    pub release_date: Option<String>,
    pub eol: Option<String>,
}

/// A Linux distribution and how its link is produced.
#[derive(Debug)]
pub struct LinuxDistro {
    pub name: String,
    pub slug: String,
    /// `template`, `nixos`, `proxmox` or `release-page`.
    pub resolver: String,
    pub url_template: Option<String>,
    pub page_url: Option<String>,
    pub arch: Vec<String>,
    /// Newest first.
    pub cycles: Vec<LinuxCycle>,
}

/// A Windows edition and the connector's product edition ids for it.
#[derive(Debug)]
pub struct WindowsEdition {
    pub name: String,
    pub types: Vec<String>,
    pub product_edition_id: Vec<u64>,
}

/// A Windows release such as `25H2`.
#[derive(Debug)]
pub struct WindowsRelease {
    pub release: String,
    pub editions: Vec<WindowsEdition>,
}

/// A Windows version such as Windows 11.
#[derive(Debug)]
pub struct WindowsVersion {
    pub name: String,
    pub slug: String,
    /// Newest first.
    pub releases: Vec<WindowsRelease>,
}

/// One published build of a tool.
#[derive(Debug)]
pub struct ToolCycle {
    pub tag: String,
    pub release: Option<String>,
}

/// A utility or rescue image such as the UEFI Shell.
#[derive(Debug)]
pub struct Tool {
    pub name: String,
    pub slug: String,
    pub repo: Option<String>,
    pub url_template: Option<String>,
    /// Newest first.
    pub cycles: Vec<ToolCycle>,
}

/// The whole catalog.
#[derive(Debug)]
pub struct Catalog {
    pub generated_at: String,
    pub windows: Vec<WindowsVersion>,
    pub linux: Vec<LinuxDistro>,
    pub tools: Vec<Tool>,
}

/// One system as `search` lists it.
#[derive(Debug)]
pub struct SystemMatch {
    pub kind: Kind,
    pub name: String,
    pub slug: String,
    /// Releases (Windows), release lines (Linux) or tags (tools), newest first.
    pub versions: Vec<String>,
}

/// A listed system as plain values: kind, name, slug and versions.
pub type EntryView = (Kind, Seq<char>, Seq<char>, Seq<Seq<char>>);

pub open spec fn windows_entry(v: WindowsVersion) -> EntryView {
    (Kind::Windows, v.name@, v.slug@, v.releases@.map_values(|r: WindowsRelease| r.release@))
}

pub open spec fn linux_entry(d: LinuxDistro) -> EntryView {
    (Kind::Linux, d.name@, d.slug@, d.cycles@.map_values(|c: LinuxCycle| c.cycle@))
}

pub open spec fn tool_entry(t: Tool) -> EntryView {
    (Kind::Tools, t.name@, t.slug@, t.cycles@.map_values(|c: ToolCycle| c.tag@))
}

/// Every system of the catalog: Windows versions, then Linux
/// distributions, then tools, each in catalog order.
pub open spec fn catalog_entries(c: Catalog) -> Seq<EntryView> {
    c.windows@.map_values(|v: WindowsVersion| windows_entry(v))
        + c.linux@.map_values(|d: LinuxDistro| linux_entry(d))
        + c.tools@.map_values(|t: Tool| tool_entry(t))
}

/// An entry is listed for a kind filter and a query: its kind is the one
/// asked for (if any), and its name or slug contains the query (if any),
/// both lower-cased.
pub open spec fn listed(e: EntryView, kind: Option<Kind>, query: Option<Seq<char>>) -> bool {
    &&& match kind {
        Some(k) => e.0 == k,
        None => true,
    }
    &&& match query {
        Some(q) => seq_contains(spec_to_lowercase(e.1), spec_to_lowercase(q))
            || seq_contains(spec_to_lowercase(e.2), spec_to_lowercase(q)),
        None => true,
    }
}

/// The listed entries, in order.
pub open spec fn spec_search(es: Seq<EntryView>, kind: Option<Kind>, query: Option<Seq<char>>) -> Seq<EntryView>
    decreases es.len(),
{
    if es.len() == 0 {
        Seq::empty()
    } else if listed(es.last(), kind, query) {
        spec_search(es.drop_last(), kind, query).push(es.last())
    } else {
        spec_search(es.drop_last(), kind, query)
    }
}

/// `search` lists exactly the catalog's systems that match the kind and the
/// query: an entry is in the result if and only if it is in the catalog and
/// matches.
pub proof fn lemma_search_members(es: Seq<EntryView>, kind: Option<Kind>, query: Option<Seq<char>>, e: EntryView)
    ensures
        spec_search(es, kind, query).contains(e) <==> (es.contains(e) && listed(e, kind, query)),
    decreases es.len(),
{
    if es.len() > 0 {
        lemma_search_members(es.drop_last(), kind, query, e);
        let rest = spec_search(es.drop_last(), kind, query);
        if es.contains(e) && e != es.last() {
            let i = choose|i: int| 0 <= i < es.len() && es[i] == e;
            assert(es.drop_last()[i] == e);
        }
        if es.drop_last().contains(e) {
            let i = choose|i: int| 0 <= i < es.len() - 1 && es.drop_last()[i] == e;
            assert(es[i] == e);
        }
        if listed(es.last(), kind, query) {
            assert(rest.push(es.last())[rest.len() as int] == es.last());
            if rest.push(es.last()).contains(e) && e != es.last() {
                let i = choose|i: int| 0 <= i < rest.len() + 1 && rest.push(es.last())[i] == e;
                assert(rest[i] == e);
            }
            if rest.contains(e) {
                let i = choose|i: int| 0 <= i < rest.len() && rest[i] == e;
                assert(rest.push(es.last())[i] == e);
            }
        }
        assert(es[es.len() - 1] == es.last());
    }
}

/// A query matches a system by its name or by its slug, ignoring case: every
/// listed system of the kind asked for whose name or slug, lower-cased,
/// contains the query lower-cased is in the result, and every system in
/// the result is one such.
pub proof fn lemma_search_by_name_or_slug(es: Seq<EntryView>, kind: Option<Kind>, q: Seq<char>, e: EntryView)
    requires
        es.contains(e),
        kind matches Some(k) ==> e.0 == k,
    ensures
        seq_contains(spec_to_lowercase(e.1), spec_to_lowercase(q)) ==> spec_search(es, kind, Some(q)).contains(e),
        seq_contains(spec_to_lowercase(e.2), spec_to_lowercase(q)) ==> spec_search(es, kind, Some(q)).contains(e),
        spec_search(es, kind, Some(q)).contains(e) ==> seq_contains(spec_to_lowercase(e.1), spec_to_lowercase(q))
            || seq_contains(spec_to_lowercase(e.2), spec_to_lowercase(q)),
{
    lemma_search_members(es, kind, Some(q), e);
}

/// With neither a kind nor a query, `search` lists every system in order.
pub proof fn lemma_search_unfiltered(es: Seq<EntryView>)
    ensures
        spec_search(es, None, None) == es,
    decreases es.len(),
{
    if es.len() > 0 {
        lemma_search_unfiltered(es.drop_last());
        assert(es.drop_last().push(es.last()) =~= es);
    }
}

pub open spec fn match_view(m: SystemMatch) -> EntryView {
    (m.kind, m.name@, m.slug@, views(m.versions@))
}

pub open spec fn match_views(ms: Seq<SystemMatch>) -> Seq<EntryView> {
    ms.map_values(|m: SystemMatch| match_view(m))
}

proof fn lemma_search_append(es: Seq<EntryView>, e: EntryView, kind: Option<Kind>, query: Option<Seq<char>>)
    ensures
        spec_search(es.push(e), kind, query) == if listed(e, kind, query) {
            spec_search(es, kind, query).push(e)
        } else {
            spec_search(es, kind, query)
        },
{
    assert(es.push(e).drop_last() =~= es);
}

fn clone_all(v: &Vec<String>) -> (r: Vec<String>)
    ensures
        views(r@) == views(v@),
{
    let mut r: Vec<String> = Vec::new();
    let mut i: usize = 0;
    while i < v.len()
        invariant
            i <= v@.len(),
            r@.len() == i,
            forall|j: int| 0 <= j < i ==> #[trigger] r@[j]@ == v@[j]@,
        decreases v.len() - i,
    {
        r.push(v[i].clone());
        i += 1;
    }
    assert(views(r@) =~= views(v@));
    r
}

impl Catalog {
    fn is_listed(kind: Option<Kind>, query: Option<&str>, k: Kind, name: &str, slug: &str) -> (r: bool)
        ensures
            r == listed((k, name@, slug@, Seq::empty()), kind, opt_str(query)),
    {
        let kind_ok = match kind {
            Some(want) => want == k,
            None => true,
        };
        if !kind_ok {
            return false;
        }
        match query {
            Some(q) => {
                let lq = to_lowercase(q);
                let ln = to_lowercase(name);
                let ls = to_lowercase(slug);
                contains(ln.as_str(), lq.as_str()) || contains(ls.as_str(), lq.as_str())
            },
            None => true,
        }
    }

    /// The systems of a kind (or of all kinds) whose name or slug contains
    /// the query ignoring case (or all of them), Windows first, then Linux,
    /// then tools, each in catalog order.
    pub fn search(&self, kind: Option<Kind>, query: Option<&str>) -> (r: Vec<SystemMatch>)
        ensures
            match_views(r@) == spec_search(catalog_entries(*self), kind, opt_str(query)),
    {
        let ghost wv = self.windows@.map_values(|v: WindowsVersion| windows_entry(v));
        let ghost lv = self.linux@.map_values(|d: LinuxDistro| linux_entry(d));
        let ghost tv = self.tools@.map_values(|t: Tool| tool_entry(t));
        let mut out: Vec<SystemMatch> = Vec::new();
        let mut i: usize = 0;
        assert(wv.take(0) =~= Seq::<EntryView>::empty());
        while i < self.windows.len()
            invariant
                wv == self.windows@.map_values(|v: WindowsVersion| windows_entry(v)),
                i <= self.windows@.len(),
                match_views(out@) == spec_search(wv.take(i as int), kind, opt_str(query)),
            decreases self.windows.len() - i,
        {
            let v = &self.windows[i];
            assert(wv.take(i + 1) =~= wv.take(i as int).push(windows_entry(*v)));
            proof { lemma_search_append(wv.take(i as int), windows_entry(*v), kind, opt_str(query)); }
            if Self::is_listed(kind, query, Kind::Windows, v.name.as_str(), v.slug.as_str()) {
                let mut versions: Vec<String> = Vec::new();
                let mut k: usize = 0;
                while k < v.releases.len()
                    invariant
                        k <= v.releases@.len(),
                        versions@.len() == k,
                        forall|j: int| 0 <= j < k ==> #[trigger] versions@[j]@ == v.releases@[j].release@,
                    decreases v.releases.len() - k,
                {
                    versions.push(v.releases[k].release.clone());
                    k += 1;
                }
                assert(views(versions@) =~= v.releases@.map_values(|r: WindowsRelease| r.release@));
                let ghost before = out@;
                out.push(SystemMatch { kind: Kind::Windows, name: v.name.clone(), slug: v.slug.clone(), versions });
                assert(match_views(out@) =~= match_views(before).push(windows_entry(*v)));
            }
            i += 1;
        }
        assert(wv.take(self.windows@.len() as int) =~= wv);
        let ghost base = spec_search(wv, kind, opt_str(query));
        let mut i: usize = 0;
        assert(wv + lv.take(0) =~= wv);
        while i < self.linux.len()
            invariant
                wv == self.windows@.map_values(|v: WindowsVersion| windows_entry(v)),
                lv == self.linux@.map_values(|d: LinuxDistro| linux_entry(d)),
                i <= self.linux@.len(),
                match_views(out@) == spec_search(wv + lv.take(i as int), kind, opt_str(query)),
            decreases self.linux.len() - i,
        {
            let d = &self.linux[i];
            assert(wv + lv.take(i + 1) =~= (wv + lv.take(i as int)).push(linux_entry(*d)));
            proof { lemma_search_append(wv + lv.take(i as int), linux_entry(*d), kind, opt_str(query)); }
            if Self::is_listed(kind, query, Kind::Linux, d.name.as_str(), d.slug.as_str()) {
                let mut versions: Vec<String> = Vec::new();
                let mut k: usize = 0;
                while k < d.cycles.len()
                    invariant
                        k <= d.cycles@.len(),
                        versions@.len() == k,
                        forall|j: int| 0 <= j < k ==> #[trigger] versions@[j]@ == d.cycles@[j].cycle@,
                    decreases d.cycles.len() - k,
                {
                    versions.push(d.cycles[k].cycle.clone());
                    k += 1;
                }
                assert(views(versions@) =~= d.cycles@.map_values(|c: LinuxCycle| c.cycle@));
                let ghost before = out@;
                out.push(SystemMatch { kind: Kind::Linux, name: d.name.clone(), slug: d.slug.clone(), versions });
                assert(match_views(out@) =~= match_views(before).push(linux_entry(*d)));
            }
            i += 1;
        }
        assert(lv.take(self.linux@.len() as int) =~= lv);
        let mut i: usize = 0;
        assert(wv + lv + tv.take(0) =~= wv + lv);
        while i < self.tools.len()
            invariant
                wv == self.windows@.map_values(|v: WindowsVersion| windows_entry(v)),
                lv == self.linux@.map_values(|d: LinuxDistro| linux_entry(d)),
                tv == self.tools@.map_values(|t: Tool| tool_entry(t)),
                i <= self.tools@.len(),
                match_views(out@) == spec_search(wv + lv + tv.take(i as int), kind, opt_str(query)),
            decreases self.tools.len() - i,
        {
            let t = &self.tools[i];
            assert(wv + lv + tv.take(i + 1) =~= (wv + lv + tv.take(i as int)).push(tool_entry(*t)));
            proof { lemma_search_append(wv + lv + tv.take(i as int), tool_entry(*t), kind, opt_str(query)); }
            if Self::is_listed(kind, query, Kind::Tools, t.name.as_str(), t.slug.as_str()) {
                let mut versions: Vec<String> = Vec::new();
                let mut k: usize = 0;
                while k < t.cycles.len()
                    invariant
                        k <= t.cycles@.len(),
                        versions@.len() == k,
                        forall|j: int| 0 <= j < k ==> #[trigger] versions@[j]@ == t.cycles@[j].tag@,
                    decreases t.cycles.len() - k,
                {
                    versions.push(t.cycles[k].tag.clone());
                    k += 1;
                }
                assert(views(versions@) =~= t.cycles@.map_values(|c: ToolCycle| c.tag@));
                let ghost before = out@;
                out.push(SystemMatch { kind: Kind::Tools, name: t.name.clone(), slug: t.slug.clone(), versions });
                assert(match_views(out@) =~= match_views(before).push(tool_entry(*t)));
            }
            i += 1;
        }
        assert(tv.take(self.tools@.len() as int) =~= tv);
        out
    }
}

} // verus!
