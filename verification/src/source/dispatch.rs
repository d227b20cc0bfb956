//! Choosing the resolver for a system, and the checks around a download.

use vstd::prelude::*;
use crate::catalog::{Catalog, Kind, SystemMatch, catalog_entries, match_views, spec_search};
use crate::error::{Error, ErrorView};
use crate::source::linux::{LinuxResolver, distro_index};
use crate::source::resolver::{DownloadPlan, LinkResolver, ResolverContext};
use crate::source::tools::{ToolsResolver, tool_index};
use crate::source::windows::{WindowsResolver, version_index};
use crate::text::{seq_join, views};

verus! {

/// The family whose resolver knows `system`, trying Windows, then Linux,
/// then tools.
pub open spec fn spec_resolver_kind(c: Catalog, system: Seq<char>) -> Option<Kind> {
    if version_index(c.windows@, system) is Some {
        Some(Kind::Windows)
    } else if distro_index(c.linux@, system) is Some {
        Some(Kind::Linux)
    } else if tool_index(c.tools@, system) is Some {
        Some(Kind::Tools)
    } else {
        None
    }
}

/// Finds which resolver knows `system`: the first of Windows, Linux and
/// tools whose `find` succeeds.
pub fn resolver_kind(catalog: &Catalog, ctx: &ResolverContext, system: &str) -> (r: Option<Kind>)
    ensures
        r == spec_resolver_kind(*catalog, system@),
{
    let w = WindowsResolver::new(ctx, catalog);
    if w.find(system).is_ok() {
        return Some(w.kind());
    }
    let l = LinuxResolver::new(ctx, catalog);
    if l.find(system).is_ok() {
        return Some(l.kind());
    }
    let t = ToolsResolver::new(ctx, catalog);
    if t.find(system).is_ok() {
        return Some(t.kind());
    }
    None
}

/// `name (kind)` for each listed system.
pub open spec fn listing(ms: Seq<crate::catalog::EntryView>) -> Seq<Seq<char>> {
    ms.map_values(|e: crate::catalog::EntryView| e.1 + " ("@ + e.0.spec_name() + ")"@)
}

/// The message for a system no resolver knows, listing every system.
pub open spec fn unknown_system_message(c: Catalog, system: Seq<char>) -> Seq<char> {
    "unknown system '"@ + system + "'. Available: "@
        + seq_join(listing(spec_search(catalog_entries(c), None, None)), ", "@) + ". Try `vpilot search`."@
}

/// The error for a system no resolver knows.
pub fn unknown_system(catalog: &Catalog, system: &str) -> (r: Error)
    ensures
        r@ == ErrorView::NotFound(unknown_system_message(*catalog, system@)),
{
    let all = catalog.search(None, None);
    let mut names: Vec<String> = Vec::new();
    let mut i: usize = 0;
    while i < all.len()
        invariant
            i <= all@.len(),
            names@.len() == i,
            forall|j: int| 0 <= j < i ==> #[trigger] names@[j]@ == listing(match_views(all@))[j],
        decreases all.len() - i,
    {
        let mut s = all[i].name.clone();
        s.append(" (");
        s.append(all[i].kind.as_str());
        s.append(")");
        names.push(s);
        i += 1;
    }
    assert(views(names@) =~= listing(match_views(all@)));
    let joined = crate::text::join(names.as_slice(), ", ");
    let mut m = String::from_str("unknown system '");
    m.append(system);
    m.append("'. Available: ");
    m.append(joined.as_str());
    m.append(". Try `vpilot search`.");
    Error::NotFound(m)
}

/// A plan can be downloaded unless it only names a release page.
pub fn require_downloadable(plan: &DownloadPlan) -> (r: Result<(), Error>)
    ensures
        plan.downloadable ==> r is Ok,
        !plan.downloadable ==> (r matches Err(e) && e@ == ErrorView::Other(plan.source@
            + " has no bootable ISO; open "@ + plan.url@ + " manually"@)),
{
    if plan.downloadable {
        return Ok(());
    }
    let mut m = plan.source.clone();
    m.append(" has no bootable ISO; open ");
    m.append(plan.url.as_str());
    m.append(" manually");
    Err(Error::Other(m))
}

} // verus!
