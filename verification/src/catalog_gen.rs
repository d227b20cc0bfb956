//! Building the catalog's Linux entries: release lines from endoflife.date,
//! with the hand-written lines of the sources file as the fallback.

use vstd::prelude::*;
use crate::catalog::{LinuxCycle, LinuxDistro};
use crate::text::{concat3, opt_view};

verus! {

/// A release line written by hand in the sources file.
#[derive(Debug)]
pub struct ManualCycle {
    pub cycle: String,
    pub latest: Option<String>,
    pub lts: Option<bool>,
    pub release_date: Option<String>,
    pub eol: Option<String>,
}

impl From<ManualCycle> for LinuxCycle {
    fn from(c: ManualCycle) -> (r: LinuxCycle) {
        LinuxCycle {
            cycle: c.cycle,
            latest: c.latest,
            lts: c.lts,
            release_date: c.release_date,
            eol: c.eol,
        }
    }
}

impl vstd::std_specs::convert::FromSpecImpl<ManualCycle> for LinuxCycle {
    open spec fn obeys_from_spec() -> bool {
        true
    }

    open spec fn from_spec(c: ManualCycle) -> LinuxCycle {
        LinuxCycle {
            cycle: c.cycle,
            latest: c.latest,
            lts: c.lts,
            release_date: c.release_date,
            eol: c.eol,
        }
    }
}

/// One cycle as endoflife.date publishes it. `eol` holds the field's text
/// when the field is a JSON string, and is `None` when it is anything else
/// (endoflife.date writes `false` for a line that is still supported).
#[derive(Debug)]
pub struct EndOfLifeCycle {
    pub cycle: String,
    pub latest: Option<String>,
    pub lts: Option<bool>,
    pub release_date: Option<String>,
    pub eol: Option<String>,
}

/// A Linux distribution as the sources file describes it.
#[derive(Debug)]
pub struct LinuxSource {
    pub name: String,
    pub slug: String,
    pub resolver: String,
    pub url_template: Option<String>,
    pub page_url: Option<String>,
    pub arch: Vec<String>,
    pub manual_cycles: Option<Vec<ManualCycle>>,
}

/// A release line as plain values: cycle, latest, lts, release date, end of life.
pub type CycleView = (Seq<char>, Option<Seq<char>>, Option<bool>, Option<Seq<char>>, Option<Seq<char>>);

pub open spec fn cycle_view(c: LinuxCycle) -> CycleView {
    (c.cycle@, opt_view(c.latest), c.lts, opt_view(c.release_date), opt_view(c.eol))
}

pub open spec fn cycle_views(cs: Seq<LinuxCycle>) -> Seq<CycleView> {
    cs.map_values(|c: LinuxCycle| cycle_view(c))
}

pub open spec fn manual_view(c: ManualCycle) -> CycleView {
    (c.cycle@, opt_view(c.latest), c.lts, opt_view(c.release_date), opt_view(c.eol))
}

/// An end-of-life date is kept only when it is a non-empty string.
pub open spec fn eol_date(eol: Option<Seq<char>>) -> Option<Seq<char>> {
    match eol {
        Some(s) => if s.len() > 0 { Some(s) } else { None },
        None => None,
    }
}

pub open spec fn endoflife_view(c: EndOfLifeCycle) -> CycleView {
    (c.cycle@, opt_view(c.latest), c.lts, opt_view(c.release_date), eol_date(opt_view(c.eol)))
}

/// The hand-written lines of a source, none when it has none.
pub open spec fn spec_manual_cycles(s: LinuxSource) -> Seq<CycleView> {
    match s.manual_cycles {
        Some(v) => v@.map_values(|c: ManualCycle| manual_view(c)),
        None => Seq::empty(),
    }
}

fn clone_opt(o: &Option<String>) -> (r: Option<String>)
    ensures
        r == *o,
{
    match o {
        Some(s) => Some(s.clone()),
        None => None,
    }
}

/// The endoflife.date API address for a distribution.
pub fn endoflife_url(slug: &str) -> (r: String)
    ensures
        r@ == "https://endoflife.date/api/"@ + slug@ + ".json"@,
{
    concat3("https://endoflife.date/api/", slug, ".json")
}

/// The cycles endoflife.date returned, as catalog release lines, in order.
pub fn cycles_from_endoflife(raw: &Vec<EndOfLifeCycle>) -> (r: Vec<LinuxCycle>)
    ensures
        cycle_views(r@) == raw@.map_values(|c: EndOfLifeCycle| endoflife_view(c)),
{
    let mut out: Vec<LinuxCycle> = Vec::new();
    let mut i: usize = 0;
    while i < raw.len()
        invariant
            i <= raw@.len(),
            out@.len() == i,
            forall|j: int| 0 <= j < i ==> #[trigger] cycle_view(out@[j]) == endoflife_view(raw@[j]),
        decreases raw.len() - i,
    {
        let c = &raw[i];
        let eol = match &c.eol {
            Some(s) => if s.unicode_len() > 0 { Some(s.clone()) } else { None },
            None => None,
        };
        out.push(LinuxCycle {
            cycle: c.cycle.clone(),
            latest: clone_opt(&c.latest),
            lts: c.lts,
            release_date: clone_opt(&c.release_date),
            eol,
        });
        i += 1;
    }
    assert(cycle_views(out@) =~= raw@.map_values(|c: EndOfLifeCycle| endoflife_view(c)));
    out
}

/// The hand-written release lines of a source, in order.
pub fn manual_cycles(source: &LinuxSource) -> (r: Vec<LinuxCycle>)
    ensures
        cycle_views(r@) == spec_manual_cycles(*source),
{
    let mut out: Vec<LinuxCycle> = Vec::new();
    match &source.manual_cycles {
        Some(v) => {
            let mut i: usize = 0;
            while i < v.len()
                invariant
                    i <= v@.len(),
                    out@.len() == i,
                    forall|j: int| 0 <= j < i ==> #[trigger] cycle_view(out@[j]) == manual_view(v@[j]),
                decreases v.len() - i,
            {
                let c = &v[i];
                let m = ManualCycle {
                    cycle: c.cycle.clone(),
                    latest: clone_opt(&c.latest),
                    lts: c.lts,
                    release_date: clone_opt(&c.release_date),
                    eol: clone_opt(&c.eol),
                };
                out.push(LinuxCycle::from(m));
                i += 1;
            }
            assert(cycle_views(out@) =~= spec_manual_cycles(*source));
        },
        None => {
            assert(cycle_views(out@) =~= spec_manual_cycles(*source));
        },
    }
    out
}

/// The warning printed when endoflife.date gave no cycles for `slug`.
pub open spec fn empty_warning(slug: Seq<char>) -> Seq<char> {
    "warning: "@ + slug + ": endoflife returned no cycles, using manual"@
}

/// The warning printed when asking endoflife.date for `slug` failed.
pub open spec fn failed_warning(slug: Seq<char>, err: Seq<char>) -> Seq<char> {
    "warning: "@ + slug + ": "@ + err + "; using manual cycles"@
}

/// Picks the release lines of a distribution from what endoflife.date
/// answered: its cycles when there are any, else the hand-written lines with
/// a warning saying why.
pub fn choose_cycles(fetched: Result<Vec<LinuxCycle>, String>, manual: Vec<LinuxCycle>, slug: &str)
    -> (r: (Vec<LinuxCycle>, Option<String>))
    ensures
        match fetched {
            Ok(c) => if c@.len() > 0 {
                r.0 == c && r.1 is None
            } else {
                r.0 == manual && (r.1 matches Some(w) && w@ == empty_warning(slug@))
            },
            Err(e) => r.0 == manual && (r.1 matches Some(w) && w@ == failed_warning(slug@, e@)),
        },
{
    match fetched {
        Ok(c) => {
            if c.len() > 0 {
                (c, None)
            } else {
                let w = concat3("warning: ", slug, ": endoflife returned no cycles, using manual");
                (manual, Some(w))
            }
        },
        Err(e) => {
            let mut w = concat3("warning: ", slug, ": ");
            w.append(e.as_str());
            w.append("; using manual cycles");
            (manual, Some(w))
        },
    }
}

/// The catalog entry of a distribution, with the release lines chosen for it.
pub fn distro_from_source(source: &LinuxSource, cycles: Vec<LinuxCycle>) -> (r: LinuxDistro)
    ensures
        r.name == source.name,
        r.slug == source.slug,
        r.resolver == source.resolver,
        r.url_template == source.url_template,
        r.page_url == source.page_url,
        r.arch@ == source.arch@,
        r.cycles == cycles,
{
    let mut arch: Vec<String> = Vec::new();
    let mut i: usize = 0;
    while i < source.arch.len()
        invariant
            i <= source.arch@.len(),
            arch@ == source.arch@.take(i as int),
        decreases source.arch.len() - i,
    {
        arch.push(source.arch[i].clone());
        assert(arch@ =~= source.arch@.take(i + 1));
        i += 1;
    }
    assert(arch@ =~= source.arch@);
    LinuxDistro {
        name: source.name.clone(),
        slug: source.slug.clone(),
        resolver: source.resolver.clone(),
        url_template: clone_opt(&source.url_template),
        page_url: clone_opt(&source.page_url),
        arch,
        cycles,
    }
}

} // verus!
