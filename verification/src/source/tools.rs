//! Utility / rescue disk resolver (UEFI Shell etc.): versions come from the
//! static catalog, the concrete asset URL is built at download time.

use vstd::prelude::*;
use crate::catalog::{Catalog, Kind, Tool};
use crate::error::{Error, ErrorView};
use crate::select::{first_index, lemma_first_index_found, lemma_first_index_none};
use crate::source::resolver::{DownloadPlan, DownloadRequest, LinkResolver, PlanView, RequestView,
    ResolverContext, file_name_from_url, is_latest, latest_requested, new_plan, plan_result,
    spec_name_from_segments, spec_url_path_segments, wanted};
use crate::text::{contains, join, opt_view, replace, replace_all, same, seq_contains, seq_join,
    spec_to_lowercase, to_lowercase, views};

verus! {

/// `t` is what a lower-cased query `q` names: its slug lower-cased is `q`, or
/// its name lower-cased contains `q`.
pub open spec fn tool_matches(t: Tool, q: Seq<char>) -> bool {
    spec_to_lowercase(t.slug@) == q || seq_contains(spec_to_lowercase(t.name@), q)
}

/// The first tool that `name` names.
pub open spec fn tool_index(tools: Seq<Tool>, name: Seq<char>) -> Option<int> {
    first_index(tools.len() as int, |i: int| tool_matches(tools[i], spec_to_lowercase(name)))
}

/// The build a release names: the newest for `latest`, else the first whose
/// tag lower-cased contains the release lower-cased.
pub open spec fn tool_cycle_index(t: Tool, rel: Seq<char>) -> Option<int> {
    if is_latest(rel) {
        Some(0)
    } else {
        first_index(
            t.cycles@.len() as int,
            |i: int| seq_contains(spec_to_lowercase(t.cycles@[i].tag@), spec_to_lowercase(rel)),
        )
    }
}

/// Tags are matched ignoring case: two releases (other than `latest`) that
/// lower-case alike pick the same build, and a picked build is the first
/// whose tag, lower-cased, contains the release lower-cased.
pub proof fn lemma_tool_cycle_ignores_case(t: Tool, r1: Seq<char>, r2: Seq<char>)
    requires
        !is_latest(r1),
        !is_latest(r2),
        spec_to_lowercase(r1) == spec_to_lowercase(r2),
    ensures
        tool_cycle_index(t, r1) == tool_cycle_index(t, r2),
        tool_cycle_index(t, r1) matches Some(i) ==> 0 <= i < t.cycles@.len()
            && seq_contains(spec_to_lowercase(t.cycles@[i].tag@), spec_to_lowercase(r1))
            && forall|j: int| 0 <= j < i ==> !seq_contains(spec_to_lowercase(#[trigger] t.cycles@[j].tag@),
                spec_to_lowercase(r1)),
{
    let p = |i: int| seq_contains(spec_to_lowercase(t.cycles@[i].tag@), spec_to_lowercase(r1));
    assert((|i: int| seq_contains(spec_to_lowercase(t.cycles@[i].tag@), spec_to_lowercase(r2))) =~= p);
    if first_index(t.cycles@.len() as int, p) is Some {
        crate::select::lemma_first_index_is_first(t.cycles@.len() as int, p);
        let i = first_index(t.cycles@.len() as int, p).unwrap();
        assert forall|j: int| 0 <= j < i implies !seq_contains(spec_to_lowercase(#[trigger] t.cycles@[j].tag@),
            spec_to_lowercase(r1)) by {
            assert(!p(j));
        }
    }
}

/// The tags of a tool's builds.
pub open spec fn tool_tags(t: Tool) -> Seq<Seq<char>> {
    t.cycles@.map_values(|c: crate::catalog::ToolCycle| c.tag@)
}

/// A present value's characters, or nothing.
pub open spec fn or_empty(o: Option<Seq<char>>) -> Seq<char> {
    match o {
        Some(s) => s,
        None => Seq::empty(),
    }
}

/// What resolving a tool gives.
pub open spec fn spec_tools_resolve(tools: Seq<Tool>, default_release: Seq<char>, req: RequestView)
    -> Result<PlanView, ErrorView> {
    match tool_index(tools, req.system) {
        None => Err(ErrorView::NotFound("unknown tool: "@ + req.system)),
        Some(ti) => {
            let t = tools[ti];
            if t.cycles@.len() == 0 {
                Err(ErrorView::NotFound("no version info for "@ + t.name@ + " in catalog"@))
            } else {
                let rel = wanted(req.release, default_release);
                match tool_cycle_index(t, rel) {
                    None => Err(ErrorView::NotFound("release '"@ + rel + "' not found for "@ + t.name@
                        + " (available: "@ + seq_join(tool_tags(t), ", "@) + ")"@)),
                    Some(ci) => {
                        let c = t.cycles@[ci];
                        match t.url_template {
                            None => Err(ErrorView::Other(t.name@ + ": no url_template in catalog"@)),
                            Some(tpl) => {
                                let url = replace_all(replace_all(tpl@, "{tag}"@, c.tag@), "{release}"@,
                                    or_empty(opt_view(c.release)));
                                let fallback = t.slug@ + "-"@ + c.tag@ + ".iso"@;
                                let file = spec_name_from_segments(spec_url_path_segments(url), fallback);
                                Ok(new_plan(Kind::Tools, url, file, req.target_dir, "x86_64"@,
                                    t.name@ + " "@ + c.tag@ + " ("@ + or_empty(opt_view(t.repo)) + ")"@))
                            },
                        }
                    },
                }
            }
        },
    }
}

/// Resolves tools from the catalog.
pub struct ToolsResolver<'a> {
    ctx: &'a ResolverContext<'a>,
    catalog: &'a Catalog,
}

impl<'a> ToolsResolver<'a> {
    /// The catalog's tools this resolver searches.
    pub closed spec fn tools(&self) -> Seq<Tool> {
        self.catalog.tools@
    }

    /// The configured default release.
    pub closed spec fn default_release(&self) -> Seq<char> {
        self.ctx.config.default_release@
    }

    pub fn new(ctx: &'a ResolverContext<'a>, catalog: &'a Catalog) -> (r: Self)
        ensures
            r.tools() == catalog.tools@,
            r.default_release() == ctx.config.default_release@,
    {
        ToolsResolver { ctx, catalog }
    }

    /// The first tool whose slug is `name` or whose name contains it, both
    /// compared lower-cased; `NotFound` when there is none.
    pub fn find_tool(&self, name: &str) -> (r: Result<&'a Tool, Error>)
        ensures
            match tool_index(self.tools(), name@) {
                Some(i) => r matches Ok(t) && *t == self.tools()[i],
                None => r matches Err(e) && e@ == ErrorView::NotFound("unknown tool: "@ + name@),
            },
    {
        let q = to_lowercase(name);
        let tools = &self.catalog.tools;
        let ghost p = |i: int| tool_matches(tools@[i], spec_to_lowercase(name@));
        let mut i: usize = 0;
        while i < tools.len()
            invariant
                tools@ == self.tools(),
                q@ == spec_to_lowercase(name@),
                p == (|i: int| tool_matches(tools@[i], spec_to_lowercase(name@))),
                i <= tools@.len(),
                forall|j: int| 0 <= j < i ==> !#[trigger] p(j),
            decreases tools.len() - i,
        {
            let t = &tools[i];
            let slug = to_lowercase(t.slug.as_str());
            let nm = to_lowercase(t.name.as_str());
            if same(slug.as_str(), q.as_str()) || contains(nm.as_str(), q.as_str()) {
                proof {
                    assert(p(i as int));
                    lemma_first_index_found(tools@.len() as int, p, i as int);
                }
                return Ok(t);
            }
            assert(!p(i as int));
            i += 1;
        }
        proof {
            lemma_first_index_none(tools@.len() as int, p);
        }
        let mut m = String::from_str("unknown tool: ");
        m.append(name);
        Err(Error::NotFound(m))
    }

    /// The build `rel` names in `tool` (whose build list is not empty).
    fn pick_cycle(tool: &Tool, rel: &str) -> (r: Option<usize>)
        requires
            tool.cycles@.len() > 0,
        ensures
            match tool_cycle_index(*tool, rel@) {
                Some(i) => r == Some(i as usize),
                None => r is None,
            },
    {
        if latest_requested(rel) {
            return Some(0);
        }
        let q = to_lowercase(rel);
        let ghost p = |i: int| seq_contains(spec_to_lowercase(tool.cycles@[i].tag@), spec_to_lowercase(rel@));
        let mut i: usize = 0;
        while i < tool.cycles.len()
            invariant
                !is_latest(rel@),
                q@ == spec_to_lowercase(rel@),
                p == (|i: int| seq_contains(spec_to_lowercase(tool.cycles@[i].tag@), spec_to_lowercase(rel@))),
                i <= tool.cycles@.len(),
                forall|j: int| 0 <= j < i ==> !#[trigger] p(j),
            decreases tool.cycles.len() - i,
        {
            let tag = to_lowercase(tool.cycles[i].tag.as_str());
            if contains(tag.as_str(), q.as_str()) {
                proof {
                    assert(p(i as int));
                    lemma_first_index_found(tool.cycles@.len() as int, p, i as int);
                }
                return Some(i);
            }
            assert(!p(i as int));
            i += 1;
        }
        proof {
            lemma_first_index_none(tool.cycles@.len() as int, p);
        }
        None
    }

    /// The tags of the builds, in catalog order.
    fn tags(tool: &Tool) -> (r: Vec<String>)
        ensures
            views(r@) == tool_tags(*tool),
    {
        let mut r: Vec<String> = Vec::new();
        let mut i: usize = 0;
        while i < tool.cycles.len()
            invariant
                i <= tool.cycles@.len(),
                r@.len() == i,
                forall|j: int| 0 <= j < i ==> #[trigger] r@[j]@ == tool.cycles@[j].tag@,
            decreases tool.cycles.len() - i,
        {
            r.push(tool.cycles[i].tag.clone());
            i += 1;
        }
        assert(views(r@) =~= tool_tags(*tool));
        r
    }

    /// Builds the download plan for a tool: the catalog's URL template with
    /// the build's tag and release filled in, the file name taken from it.
    pub fn resolve(&self, req: &DownloadRequest) -> (r: Result<DownloadPlan, Error>)
        ensures
            plan_result(r) == spec_tools_resolve(self.tools(), self.default_release(), req@),
    {
        let tool = self.find_tool(req.system.as_str())?;
        let ghost ti = tool_index(self.tools(), req.system@).unwrap();
        if tool.cycles.len() == 0 {
            let mut m = String::from_str("no version info for ");
            m.append(tool.name.as_str());
            m.append(" in catalog");
            return Err(Error::NotFound(m));
        }
        let rel: &str = match &req.release {
            Some(r) => r.as_str(),
            None => self.ctx.config.default_release.as_str(),
        };
        assert(rel@ == wanted(req@.release, self.default_release()));
        let ci = match Self::pick_cycle(tool, rel) {
            Some(ci) => ci,
            None => {
                let avail = join(Self::tags(tool).as_slice(), ", ");
                let mut m = String::from_str("release '");
                m.append(rel);
                m.append("' not found for ");
                m.append(tool.name.as_str());
                m.append(" (available: ");
                m.append(avail.as_str());
                m.append(")");
                return Err(Error::NotFound(m));
            },
        };
        let cycle = &tool.cycles[ci];
        let tpl = match &tool.url_template {
            Some(t) => t,
            None => {
                let mut m = String::from_str(tool.name.as_str());
                m.append(": no url_template in catalog");
                return Err(Error::Other(m));
            },
        };
        proof {
            reveal_strlit("{tag}");
            reveal_strlit("{release}");
        }
        let with_tag = replace(tpl.as_str(), "{tag}", cycle.tag.as_str());
        let release_text: &str = match &cycle.release {
            Some(r) => r.as_str(),
            None => "",
        };
        proof {
            reveal_strlit("");
            assert(release_text@ == or_empty(opt_view(cycle.release)));
        }
        let url = replace(with_tag.as_str(), "{release}", release_text);
        let mut fallback = String::from_str(tool.slug.as_str());
        fallback.append("-");
        fallback.append(cycle.tag.as_str());
        fallback.append(".iso");
        let file_name = file_name_from_url(url.as_str(), fallback.as_str());
        let repo: &str = match &tool.repo {
            Some(r) => r.as_str(),
            None => "",
        };
        assert(repo@ == or_empty(opt_view(tool.repo)));
        let mut source = String::from_str(tool.name.as_str());
        source.append(" ");
        source.append(cycle.tag.as_str());
        source.append(" (");
        source.append(repo);
        source.append(")");
        Ok(DownloadPlan::new(Kind::Tools, url, file_name, req.target_dir.as_str(), "x86_64", source.as_str()))
    }
}

impl<'a> LinkResolver for ToolsResolver<'a> {
    fn kind(&self) -> (r: Kind)
        ensures
            r == Kind::Tools,
    {
        Kind::Tools
    }

    fn find(&self, name: &str) -> (r: Result<(), Error>)
        ensures
            r is Ok <==> tool_index(self.tools(), name@) is Some,
            r matches Err(e) ==> e@ == ErrorView::NotFound("unknown tool: "@ + name@),
    {
        match self.find_tool(name) {
            Ok(_) => Ok(()),
            Err(e) => Err(e),
        }
    }
}

} // verus!
