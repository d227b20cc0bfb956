//! Windows resolver: the catalog names version, release and edition; the
//! Microsoft software-download connector (driven as Fido does) gives the
//! languages and the links.

use vstd::prelude::*;
use crate::catalog::{Catalog, Kind, WindowsEdition, WindowsRelease, WindowsVersion};
use crate::error::{Error, ErrorView};
use crate::http::HttpResponse;
use crate::select::{first_index, lemma_first_index_found, lemma_first_index_none};
use crate::source::resolver::{DownloadPlan, DownloadRequest, LinkResolver, PlanView, RequestView,
    ResolverContext, file_name_from_url, is_latest, latest_requested, new_plan,
    spec_name_from_segments, spec_url_path_segments, wanted};
use crate::text::{before_first, concat2, contains, drop_chars, first_split, join, opt_str, opt_view,
    remove_chars, replace, replace_all, same, seq_contains, seq_join, seq_starts_with, spec_to_lowercase,
    spec_trim, starts_with, to_lowercase, trim, views};

verus! {

/// Shorthand names: `win11` is the version whose slug is `windows11`,
/// `win10` the one whose slug is `windows10`.
pub open spec fn alias_matches(q: Seq<char>, slug: Seq<char>) -> bool {
    (q == "win11"@ && slug == "windows11"@) || (q == "win10"@ && slug == "windows10"@)
}

/// A name lower-cased without spaces, `_`, `-`, parentheses and dots.
pub open spec fn win_norm(s: Seq<char>) -> Seq<char> {
    drop_chars(spec_to_lowercase(s), seq![' ', '_', '-', '(', ')', '.'])
}

/// `v` is what `name` names: slug or name equal to it lower-cased, the
/// normalised name containing the normalised query, or a shorthand alias.
pub open spec fn version_matches(v: WindowsVersion, name: Seq<char>) -> bool {
    let q = spec_to_lowercase(name);
    ||| spec_to_lowercase(v.slug@) == q
    ||| spec_to_lowercase(v.name@) == q
    ||| seq_contains(win_norm(v.name@), win_norm(name))
    ||| alias_matches(q, v.slug@)
}

/// The first version that `name` names.
pub open spec fn version_index(vs: Seq<WindowsVersion>, name: Seq<char>) -> Option<int> {
    first_index(vs.len() as int, |i: int| version_matches(vs[i], name))
}

/// What `find_release` answers: the release's index, or the error.
pub open spec fn spec_find_release(v: WindowsVersion, rel: Seq<char>) -> Result<int, ErrorView> {
    if is_latest(rel) {
        if v.releases@.len() > 0 {
            Ok(0)
        } else {
            Err(ErrorView::NotFound("no releases for "@ + v.name@))
        }
    } else {
        match first_index(v.releases@.len() as int,
            |i: int| seq_contains(spec_to_lowercase(v.releases@[i].release@), spec_to_lowercase(rel))) {
            Some(i) => Ok(i),
            None => Err(ErrorView::NotFound("release '"@ + rel + "' not found for "@ + v.name@
                + " (use `vpilot search --kind windows` to list)"@)),
        }
    }
}

/// The edition asked for: a non-empty requested one, else the configured
/// default; `None` means "the first edition".
pub open spec fn edition_wanted(requested: Option<Seq<char>>, default: Option<Seq<char>>) -> Option<Seq<char>> {
    match requested {
        Some(e) => if e.len() > 0 { Some(e) } else { default },
        None => default,
    }
}

/// `e` is what the lower-cased query `q` names: its name lower-cased
/// contains `q`, or one of its types lower-cased is `q`.
pub open spec fn edition_matches(e: WindowsEdition, q: Seq<char>) -> bool {
    seq_contains(spec_to_lowercase(e.name@), q)
        || exists|t: int| 0 <= t < e.types@.len() && spec_to_lowercase(#[trigger] e.types@[t]@) == q
}

/// The names of a release's editions.
pub open spec fn edition_names(r: WindowsRelease) -> Seq<Seq<char>> {
    r.editions@.map_values(|e: WindowsEdition| e.name@)
}

/// What `find_edition` answers: the edition's index, or the error.
pub open spec fn spec_find_edition(r: WindowsRelease, ed: Option<Seq<char>>) -> Result<int, ErrorView> {
    match ed {
        None => if r.editions@.len() > 0 {
            Ok(0)
        } else {
            Err(ErrorView::NotFound("no editions for "@ + r.release@))
        },
        Some(e) => match first_index(r.editions@.len() as int,
            |i: int| edition_matches(r.editions@[i], spec_to_lowercase(e))) {
            Some(i) => Ok(i),
            None => Err(ErrorView::NotFound("edition '"@ + e + "' not found in "@ + r.release@
                + " (choices: "@ + seq_join(edition_names(r), ", "@) + ")"@)),
        },
    }
}

/// Resolves Windows versions through the catalog and the connector.
pub struct WindowsResolver<'a> {
    ctx: &'a ResolverContext<'a>,
    catalog: &'a Catalog,
}

impl<'a> WindowsResolver<'a> {
    /// The catalog's Windows versions this resolver searches.
    pub closed spec fn versions(&self) -> Seq<WindowsVersion> {
        self.catalog.windows@
    }

    /// The configured defaults: release, edition, language and architecture.
    pub closed spec fn default_release(&self) -> Seq<char> {
        self.ctx.config.default_release@
    }

    pub closed spec fn default_edition(&self) -> Option<Seq<char>> {
        opt_view(self.ctx.config.default_edition)
    }

    pub closed spec fn default_lang(&self) -> Seq<char> {
        self.ctx.config.default_lang@
    }

    pub closed spec fn default_arch(&self) -> Seq<char> {
        self.ctx.config.default_arch@
    }

    /// The connector parameters: organisation, profile and instance ids.
    pub closed spec fn ms(&self) -> (Seq<char>, Seq<char>, Seq<char>) {
        (self.ctx.config.ms.org_id@, self.ctx.config.ms.profile_id@, self.ctx.config.ms.instance_id@)
    }

    pub fn new(ctx: &'a ResolverContext<'a>, catalog: &'a Catalog) -> (r: Self)
        ensures
            r.versions() == catalog.windows@,
            r.default_release() == ctx.config.default_release@,
            r.default_edition() == opt_view(ctx.config.default_edition),
            r.default_lang() == ctx.config.default_lang@,
            r.default_arch() == ctx.config.default_arch@,
            r.ms() == (ctx.config.ms.org_id@, ctx.config.ms.profile_id@, ctx.config.ms.instance_id@),
    {
        WindowsResolver { ctx, catalog }
    }

    fn norm(s: &str) -> (r: String)
        ensures
            r@ == win_norm(s@),
    {
        let l = to_lowercase(s);
        let set: Vec<char> = vec![' ', '_', '-', '(', ')', '.'];
        assert(set@ =~= seq![' ', '_', '-', '(', ')', '.']);
        remove_chars(l.as_str(), set.as_slice())
    }

    fn alias(q: &str, slug: &str) -> (r: bool)
        ensures
            r == alias_matches(q@, slug@),
    {
        (same(q, "win11") && same(slug, "windows11")) || (same(q, "win10") && same(slug, "windows10"))
    }

    /// The first Windows version `name` names: by slug or name ignoring
    /// case, by normalised containment, or by the `win11`/`win10` aliases;
    /// `NotFound` when there is none.
    pub fn find_version(&self, name: &str) -> (r: Result<&'a WindowsVersion, Error>)
        ensures
            match version_index(self.versions(), name@) {
                Some(i) => r matches Ok(v) && *v == self.versions()[i],
                None => r matches Err(e) && e@ == ErrorView::NotFound("unknown Windows version: "@ + name@),
            },
    {
        let q = to_lowercase(name);
        let nq = Self::norm(name);
        let vs = &self.catalog.windows;
        let ghost p = |i: int| version_matches(vs@[i], name@);
        let mut i: usize = 0;
        while i < vs.len()
            invariant
                vs@ == self.versions(),
                q@ == spec_to_lowercase(name@),
                nq@ == win_norm(name@),
                p == (|i: int| version_matches(vs@[i], name@)),
                i <= vs@.len(),
                forall|j: int| 0 <= j < i ==> !#[trigger] p(j),
            decreases vs.len() - i,
        {
            let v = &vs[i];
            let slug = to_lowercase(v.slug.as_str());
            let nm = to_lowercase(v.name.as_str());
            let nn = Self::norm(v.name.as_str());
            if same(slug.as_str(), q.as_str()) || same(nm.as_str(), q.as_str()) || contains(nn.as_str(), nq.as_str())
                || Self::alias(q.as_str(), v.slug.as_str()) {
                proof {
                    assert(p(i as int));
                    lemma_first_index_found(vs@.len() as int, p, i as int);
                }
                return Ok(v);
            }
            assert(!p(i as int));
            i += 1;
        }
        proof {
            lemma_first_index_none(vs@.len() as int, p);
        }
        let mut m = String::from_str("unknown Windows version: ");
        m.append(name);
        Err(Error::NotFound(m))
    }

    /// The release `release` (or the default release) names: the first for
    /// `latest`, else the first whose name contains it ignoring case.
    pub fn find_release<'v>(&self, version: &'v WindowsVersion, release: Option<&str>) -> (r: Result<&'v WindowsRelease, Error>)
        ensures
            match spec_find_release(*version, wanted(opt_str(release), self.default_release())) {
                Ok(i) => r matches Ok(x) && *x == version.releases@[i],
                Err(ev) => r matches Err(e) && e@ == ev,
            },
    {
        let rel: &str = match release {
            Some(r) => r,
            None => self.ctx.config.default_release.as_str(),
        };
        if latest_requested(rel) {
            if version.releases.len() > 0 {
                return Ok(&version.releases[0]);
            }
            let mut m = String::from_str("no releases for ");
            m.append(version.name.as_str());
            return Err(Error::NotFound(m));
        }
        let q = to_lowercase(rel);
        let ghost p = |i: int| seq_contains(spec_to_lowercase(version.releases@[i].release@), spec_to_lowercase(rel@));
        let mut i: usize = 0;
        while i < version.releases.len()
            invariant
                !is_latest(rel@),
                rel@ == wanted(opt_str(release), self.default_release()),
                q@ == spec_to_lowercase(rel@),
                p == (|i: int| seq_contains(spec_to_lowercase(version.releases@[i].release@), spec_to_lowercase(rel@))),
                i <= version.releases@.len(),
                forall|j: int| 0 <= j < i ==> !#[trigger] p(j),
            decreases version.releases.len() - i,
        {
            let x = to_lowercase(version.releases[i].release.as_str());
            if contains(x.as_str(), q.as_str()) {
                proof {
                    assert(p(i as int));
                    lemma_first_index_found(version.releases@.len() as int, p, i as int);
                }
                return Ok(&version.releases[i]);
            }
            assert(!p(i as int));
            i += 1;
        }
        proof {
            lemma_first_index_none(version.releases@.len() as int, p);
        }
        let mut m = String::from_str("release '");
        m.append(rel);
        m.append("' not found for ");
        m.append(version.name.as_str());
        m.append(" (use `vpilot search --kind windows` to list)");
        Err(Error::NotFound(m))
    }

    /// Whether one of the edition's types lower-cased is `q`.
    fn has_type(e: &WindowsEdition, q: &str) -> (r: bool)
        ensures
            r == exists|t: int| 0 <= t < e.types@.len() && spec_to_lowercase(#[trigger] e.types@[t]@) == q@,
    {
        let mut t: usize = 0;
        while t < e.types.len()
            invariant
                t <= e.types@.len(),
                forall|k: int| 0 <= k < t ==> spec_to_lowercase(#[trigger] e.types@[k]@) != q@,
            decreases e.types.len() - t,
        {
            let l = to_lowercase(e.types[t].as_str());
            if same(l.as_str(), q) {
                return true;
            }
            t += 1;
        }
        false
    }

    /// The edition asked for (or the default edition; with neither, the
    /// first): the first whose name contains it or one of whose types is it,
    /// ignoring case.
    pub fn find_edition<'r>(&self, release: &'r WindowsRelease, edition: Option<&str>) -> (r: Result<&'r WindowsEdition, Error>)
        ensures
            match spec_find_edition(*release, edition_wanted(opt_str(edition), self.default_edition())) {
                Ok(i) => r matches Ok(x) && *x == release.editions@[i],
                Err(ev) => r matches Err(e) && e@ == ev,
            },
    {
        let ed: &str = match edition {
            Some(e) if e.unicode_len() > 0 => e,
            _ => match &self.ctx.config.default_edition {
                Some(e) => e.as_str(),
                None => {
                    if release.editions.len() > 0 {
                        return Ok(&release.editions[0]);
                    }
                    let mut m = String::from_str("no editions for ");
                    m.append(release.release.as_str());
                    return Err(Error::NotFound(m));
                },
            },
        };
        assert(edition_wanted(opt_str(edition), self.default_edition()) == Some(ed@));
        let q = to_lowercase(ed);
        let ghost p = |i: int| edition_matches(release.editions@[i], spec_to_lowercase(ed@));
        let mut i: usize = 0;
        while i < release.editions.len()
            invariant
                edition_wanted(opt_str(edition), self.default_edition()) == Some(ed@),
                q@ == spec_to_lowercase(ed@),
                p == (|i: int| edition_matches(release.editions@[i], spec_to_lowercase(ed@))),
                i <= release.editions@.len(),
                forall|j: int| 0 <= j < i ==> !#[trigger] p(j),
            decreases release.editions.len() - i,
        {
            let e = &release.editions[i];
            let nm = to_lowercase(e.name.as_str());
            if contains(nm.as_str(), q.as_str()) || Self::has_type(e, q.as_str()) {
                proof {
                    assert(p(i as int));
                    lemma_first_index_found(release.editions@.len() as int, p, i as int);
                }
                return Ok(e);
            }
            assert(!p(i as int));
            i += 1;
        }
        proof {
            lemma_first_index_none(release.editions@.len() as int, p);
        }
        let mut names: Vec<String> = Vec::new();
        let mut k: usize = 0;
        while k < release.editions.len()
            invariant
                k <= release.editions@.len(),
                names@.len() == k,
                forall|j: int| 0 <= j < k ==> #[trigger] names@[j]@ == release.editions@[j].name@,
            decreases release.editions.len() - k,
        {
            names.push(release.editions[k].name.clone());
            k += 1;
        }
        assert(views(names@) =~= edition_names(*release));
        let choices = join(names.as_slice(), ", ");
        let mut m = String::from_str("edition '");
        m.append(ed);
        m.append("' not found in ");
        m.append(release.release.as_str());
        m.append(" (choices: ");
        m.append(choices.as_str());
        m.append(")");
        Err(Error::NotFound(m))
    }
}

impl<'a> LinkResolver for WindowsResolver<'a> {
    fn kind(&self) -> (r: Kind)
        ensures
            r == Kind::Windows,
    {
        Kind::Windows
    }

    fn find(&self, name: &str) -> (r: Result<(), Error>)
        ensures
            r is Ok <==> version_index(self.versions(), name@) is Some,
            r matches Err(e) ==> e@ == ErrorView::NotFound("unknown Windows version: "@ + name@),
    {
        match self.find_version(name) {
            Ok(_) => Ok(()),
            Err(e) => Err(e),
        }
    }
}

/// One language offered by the connector for a product edition.
#[derive(Debug)]
pub struct Sku {
    pub id: String,
    pub language: String,
    pub localized_language: String,
    pub product_edition_id: u64,
}

/// Locale prefixes and the display-name fragment they hint at.
pub open spec fn lang_hints() -> Seq<(Seq<char>, Seq<char>)> {
    seq![
        ("zh"@, "chinese"@),
        ("en"@, "english"@),
        ("ja"@, "japanese"@),
        ("ko"@, "korean"@),
        ("fr"@, "french"@),
        ("de"@, "german"@),
        ("es"@, "spanish"@),
        ("it"@, "italian"@),
        ("pt"@, "portuguese"@),
        ("ru"@, "russian"@),
        ("nl"@, "dutch"@),
        ("sv"@, "swedish"@),
        ("pl"@, "polish"@),
        ("tr"@, "turkish"@),
        ("ar"@, "arabic"@),
        ("he"@, "hebrew"@),
        ("th"@, "thai"@),
        ("vi"@, "vietnamese"@),
        ("id"@, "indonesian"@),
    ]
}

fn lang_hint_table() -> (r: Vec<(&'static str, &'static str)>)
    ensures
        r@.len() == lang_hints().len(),
        forall|i: int| 0 <= i < r@.len() ==> (#[trigger] r@[i]).0@ == lang_hints()[i].0 && r@[i].1@ == lang_hints()[i].1,
{
    let v: Vec<(&'static str, &'static str)> = vec![
        ("zh", "chinese"),
        ("en", "english"),
        ("ja", "japanese"),
        ("ko", "korean"),
        ("fr", "french"),
        ("de", "german"),
        ("es", "spanish"),
        ("it", "italian"),
        ("pt", "portuguese"),
        ("ru", "russian"),
        ("nl", "dutch"),
        ("sv", "swedish"),
        ("pl", "polish"),
        ("tr", "turkish"),
        ("ar", "arabic"),
        ("he", "hebrew"),
        ("th", "thai"),
        ("vi", "vietnamese"),
        ("id", "indonesian"),
    ];
    v
}

/// A language's code and display name, lower-cased together.
pub open spec fn combined(s: Sku) -> Seq<char> {
    spec_to_lowercase(s.language@ + " "@ + s.localized_language@)
}

/// Step 1: the language code or display name equals the query.
pub open spec fn exact_language(s: Sku, w: Seq<char>) -> bool {
    spec_to_lowercase(s.language@) == w || spec_to_lowercase(s.localized_language@) == w
}

/// Step 2: the language code is the query's primary subtag, or starts with it and `-`.
pub open spec fn primary_language(s: Sku, primary: Seq<char>) -> bool {
    spec_to_lowercase(s.language@) == primary || seq_starts_with(spec_to_lowercase(s.language@), primary + "-"@)
}

/// The language chosen for a query: exact code or display name; then the
/// locale's primary subtag; then a display-name hint for the locale prefix;
/// then a loose substring; then the first language.
pub open spec fn spec_pick_language(skus: Seq<Sku>, wanted: Option<Seq<char>>) -> Result<int, ErrorView> {
    let n = skus.len() as int;
    let first = if n > 0 { Ok(0int) } else { Err(ErrorView::NotFound("no languages"@)) };
    match wanted {
        None => first,
        Some(wa) => {
            let w = spec_to_lowercase(spec_trim(wa));
            match first_index(n, |i: int| exact_language(skus[i], w)) {
                Some(i) => Ok(i),
                None => {
                    let by_primary = if seq_contains(w, "-"@) {
                        first_index(n, |i: int| primary_language(skus[i], before_first(w, '-')))
                    } else {
                        None
                    };
                    match by_primary {
                        Some(i) => Ok(i),
                        None => {
                            let by_hint = match first_index(lang_hints().len() as int,
                                |h: int| seq_starts_with(w, lang_hints()[h].0)) {
                                Some(h) => first_index(n, |i: int| seq_contains(combined(skus[i]), lang_hints()[h].1)),
                                None => None,
                            };
                            match by_hint {
                                Some(i) => Ok(i),
                                None => match first_index(n, |i: int| seq_contains(combined(skus[i]), w)) {
                                    Some(i) => Ok(i),
                                    None => first,
                                },
                            }
                        },
                    }
                },
            }
        },
    }
}

/// A language code and display name, lower-cased together.
fn combined_of(s: &Sku) -> (r: String)
    ensures
        r@ == combined(*s),
{
    let mut c = String::from_str(s.language.as_str());
    c.append(" ");
    c.append(s.localized_language.as_str());
    to_lowercase(c.as_str())
}

/// The first language whose combined code and display name contains `frag`.
fn first_containing(skus: &[Sku], frag: &str) -> (r: Option<usize>)
    ensures
        match first_index(skus@.len() as int, |i: int| seq_contains(combined(skus@[i]), frag@)) {
            Some(i) => r == Some(i as usize),
            None => r is None,
        },
{
    let ghost p = |i: int| seq_contains(combined(skus@[i]), frag@);
    let mut i: usize = 0;
    while i < skus.len()
        invariant
            p == (|i: int| seq_contains(combined(skus@[i]), frag@)),
            i <= skus@.len(),
            forall|j: int| 0 <= j < i ==> !#[trigger] p(j),
        decreases skus.len() - i,
    {
        let c = combined_of(&skus[i]);
        if contains(c.as_str(), frag) {
            proof {
                assert(p(i as int));
                lemma_first_index_found(skus@.len() as int, p, i as int);
            }
            return Some(i);
        }
        assert(!p(i as int));
        i += 1;
    }
    proof {
        lemma_first_index_none(skus@.len() as int, p);
    }
    None
}

/// The first hint whose locale prefix starts `w`.
fn hint_index(w: &str) -> (r: Option<usize>)
    ensures
        match first_index(lang_hints().len() as int, |h: int| seq_starts_with(w@, lang_hints()[h].0)) {
            Some(h) => r == Some(h as usize),
            None => r is None,
        },
{
    let hints = lang_hint_table();
    let ghost ph = |h: int| seq_starts_with(w@, lang_hints()[h].0);
    let mut h: usize = 0;
    while h < hints.len()
        invariant
            hints@.len() == lang_hints().len(),
            forall|x: int| 0 <= x < hints@.len() ==> (#[trigger] hints@[x]).0@ == lang_hints()[x].0
                && hints@[x].1@ == lang_hints()[x].1,
            ph == (|h: int| seq_starts_with(w@, lang_hints()[h].0)),
            h <= hints@.len(),
            forall|j: int| 0 <= j < h ==> !#[trigger] ph(j),
        decreases hints.len() - h,
    {
        if starts_with(w, hints[h].0) {
            proof {
                assert(ph(h as int));
                lemma_first_index_found(lang_hints().len() as int, ph, h as int);
            }
            return Some(h);
        }
        assert(!ph(h as int));
        h += 1;
    }
    proof {
        lemma_first_index_none(lang_hints().len() as int, ph);
    }
    None
}

/// Some offered language is always picked, the first one at the latest;
/// with none offered the answer is `no languages`.
pub proof fn lemma_pick_language_total(skus: Seq<Sku>, wanted: Option<Seq<char>>)
    ensures
        skus.len() > 0 ==> (spec_pick_language(skus, wanted) matches Ok(i) && 0 <= i < skus.len()),
        skus.len() == 0 ==> spec_pick_language(skus, wanted)
            == Err::<int, ErrorView>(ErrorView::NotFound("no languages"@)),
{
    assert forall|n: int, p: spec_fn(int) -> bool| #![trigger first_index(n, p)]
        (first_index(n, p) matches Some(i) ==> 0 <= i < n) && (n <= 0 ==> first_index(n, p) is None) by {
        crate::select::lemma_first_index_bounds(n, p);
    }
}

/// The offered language a request picks (see `spec_pick_language`).
pub fn pick_language<'s>(skus: &'s [Sku], wanted: Option<&str>) -> (r: Result<&'s Sku, Error>)
    ensures
        match spec_pick_language(skus@, opt_str(wanted)) {
            Ok(i) => r matches Ok(s) && *s == skus@[i],
            Err(ev) => r matches Err(e) && e@ == ev,
        },
{
    match pick_language_index(skus, wanted) {
        Ok(i) => Ok(&skus[i]),
        Err(e) => Err(e),
    }
}

/// Matches the requested language against the languages offered. Accepts
/// display names ("Chinese (Simplified)"), codes ("zh-CN", "zh-cn") and
/// substrings ("Chin", "zh"). Falls back to the first language; only an
/// empty list is an error.
fn pick_language_index(skus: &[Sku], wanted: Option<&str>) -> (r: Result<usize, Error>)
    ensures
        r matches Ok(i) ==> i < skus@.len(),
        match spec_pick_language(skus@, opt_str(wanted)) {
            Ok(i) => r == Ok::<usize, Error>(i as usize),
            Err(ev) => r matches Err(e) && e@ == ev,
        },
{
    let n = skus.len();
    let wa = match wanted {
        None => {
            if n > 0 {
                return Ok(0);
            }
            return Err(Error::NotFound(String::from_str("no languages")));
        },
        Some(w) => w,
    };
    let t = trim(wa);
    let w = to_lowercase(t.as_str());
    // 1) exact match on code or display name
    let ghost p1 = |i: int| exact_language(skus@[i], w@);
    let mut i: usize = 0;
    while i < n
        invariant
            n == skus@.len(),
            opt_str(wanted) == Some(wa@),
            w@ == spec_to_lowercase(spec_trim(wa@)),
            p1 == (|i: int| exact_language(skus@[i], w@)),
            i <= n,
            forall|j: int| 0 <= j < i ==> !#[trigger] p1(j),
        decreases n - i,
    {
        let l = to_lowercase(skus[i].language.as_str());
        let d = to_lowercase(skus[i].localized_language.as_str());
        if same(l.as_str(), w.as_str()) || same(d.as_str(), w.as_str()) {
            proof {
                assert(p1(i as int));
                lemma_first_index_found(n as int, p1, i as int);
            }
            return Ok(i);
        }
        assert(!p1(i as int));
        i += 1;
    }
    proof {
        lemma_first_index_none(n as int, p1);
        reveal_strlit("-");
    }
    // 2) locale code prefix, e.g. zh-CN -> zh matches zh-cn
    if contains(w.as_str(), "-") {
        let primary = first_split(w.as_str(), '-');
        let dashed = concat2(primary.as_str(), "-");
        let ghost p2 = |i: int| primary_language(skus@[i], before_first(w@, '-'));
        let mut k: usize = 0;
        while k < n
            invariant
                n == skus@.len(),
                opt_str(wanted) == Some(wa@),
                w@ == spec_to_lowercase(spec_trim(wa@)),
                seq_contains(w@, "-"@),
                first_index(n as int, p1) is None,
                p1 == (|i: int| exact_language(skus@[i], w@)),
                primary@ == before_first(w@, '-'),
                dashed@ == primary@ + "-"@,
                p2 == (|i: int| primary_language(skus@[i], before_first(w@, '-'))),
                k <= n,
                forall|j: int| 0 <= j < k ==> !#[trigger] p2(j),
            decreases n - k,
        {
            let l = to_lowercase(skus[k].language.as_str());
            if same(l.as_str(), primary.as_str()) || starts_with(l.as_str(), dashed.as_str()) {
                proof {
                    assert(p2(k as int));
                    lemma_first_index_found(n as int, p2, k as int);
                }
                return Ok(k);
            }
            assert(!p2(k as int));
            k += 1;
        }
        proof {
            lemma_first_index_none(n as int, p2);
        }
    }
    // 3) common locale -> display-name hints
    let hints = lang_hint_table();
    match hint_index(w.as_str()) {
        Some(h) => {
            if let Some(i) = first_containing(skus, hints[h].1) {
                return Ok(i);
            }
        },
        None => {},
    }
    // 4) loose substring
    if let Some(i) = first_containing(skus, w.as_str()) {
        return Ok(i);
    }
    if n > 0 {
        Ok(0)
    } else {
        Err(Error::NotFound(String::from_str("no languages")))
    }
}

// ---------------------------------------------------------------------------
// The Microsoft software-download connector
// ---------------------------------------------------------------------------

/// A status the connector flow accepts: `200..400`.
pub open spec fn status_ok(status: u16) -> bool {
    200 <= status && status < 400
}

/// The session whitelist request.
pub open spec fn spec_tags_url(org_id: Seq<char>, session: Seq<char>) -> Seq<char> {
    "https://vlscppe.microsoft.com/tags?org_id="@ + org_id + "&session_id="@ + session
}

/// The ov-df script request.
pub open spec fn spec_mdt_url(instance_id: Seq<char>, session: Seq<char>) -> Seq<char> {
    "https://ov-df.microsoft.com/mdt.js?instanceId="@ + instance_id + "&PageId=si&session_id="@ + session
}

/// The ov-df reply carrying the tokens.
pub open spec fn spec_reply_url(session: Seq<char>, instance_id: Seq<char>, w: Seq<char>, mdt: nat,
    rticks: Seq<char>) -> Seq<char> {
    "https://ov-df.microsoft.com/?session_id="@ + session + "&CustomerId="@ + instance_id + "&PageId=si&w="@ + w
        + "&mdt="@ + crate::text::spec_decimal(mdt) + "&rticks="@ + rticks
}

/// The language list request for a product edition.
pub open spec fn spec_skus_url(profile_id: Seq<char>, peid: u64, session: Seq<char>) -> Seq<char> {
    "https://www.microsoft.com/software-download-connector/api/getskuinformationbyproductedition?profile="@
        + profile_id + "&productEditionId="@ + crate::text::spec_decimal(peid as nat)
        + "&SKU=undefined&friendlyFileName=undefined&Locale=en-US&sessionID="@ + session
}

/// The download links request for a language.
pub open spec fn spec_links_url(profile_id: Seq<char>, sku: Seq<char>, session: Seq<char>) -> Seq<char> {
    "https://www.microsoft.com/software-download-connector/api/GetProductDownloadLinksBySku?profile="@
        + profile_id + "&productEditionId=undefined&SKU="@ + sku
        + "&friendlyFileName=undefined&Locale=en-US&sessionID="@ + session
}

/// The page the links request names as its referer.
pub open spec fn referer() -> Seq<char> {
    "https://www.microsoft.com/software-download/windows11"@
}

/// The pattern that extracts `w` from the ov-df script.
pub open spec fn w_pattern() -> Seq<char> {
    "[?&]w=([A-F0-9]+)"@
}

/// The pattern that extracts `rticks` from the ov-df script.
pub open spec fn rticks_pattern() -> Seq<char> {
    "rticks=\\\\?\"\\+?(\\d+)"@
}

pub fn tags_url(org_id: &str, session: &str) -> (r: String)
    ensures
        r@ == spec_tags_url(org_id@, session@),
{
    let mut u = String::from_str("https://vlscppe.microsoft.com/tags?org_id=");
    u.append(org_id);
    u.append("&session_id=");
    u.append(session);
    u
}

pub fn mdt_url(instance_id: &str, session: &str) -> (r: String)
    ensures
        r@ == spec_mdt_url(instance_id@, session@),
{
    let mut u = String::from_str("https://ov-df.microsoft.com/mdt.js?instanceId=");
    u.append(instance_id);
    u.append("&PageId=si&session_id=");
    u.append(session);
    u
}

pub fn reply_url(session: &str, instance_id: &str, w: &str, mdt: u128, rticks: &str) -> (r: String)
    ensures
        r@ == spec_reply_url(session@, instance_id@, w@, mdt as nat, rticks@),
{
    let mut u = String::from_str("https://ov-df.microsoft.com/?session_id=");
    u.append(session);
    u.append("&CustomerId=");
    u.append(instance_id);
    u.append("&PageId=si&w=");
    u.append(w);
    u.append("&mdt=");
    let d = crate::text::decimal(mdt);
    u.append(d.as_str());
    u.append("&rticks=");
    u.append(rticks);
    u
}

pub fn skus_url(profile_id: &str, peid: u64, session: &str) -> (r: String)
    ensures
        r@ == spec_skus_url(profile_id@, peid, session@),
{
    let mut u = String::from_str(
        "https://www.microsoft.com/software-download-connector/api/getskuinformationbyproductedition?profile=");
    u.append(profile_id);
    u.append("&productEditionId=");
    let d = crate::text::decimal(peid as u128);
    u.append(d.as_str());
    u.append("&SKU=undefined&friendlyFileName=undefined&Locale=en-US&sessionID=");
    u.append(session);
    u
}

pub fn links_url(profile_id: &str, sku: &str, session: &str) -> (r: String)
    ensures
        r@ == spec_links_url(profile_id@, sku@, session@),
{
    let mut u = String::from_str(
        "https://www.microsoft.com/software-download-connector/api/GetProductDownloadLinksBySku?profile=");
    u.append(profile_id);
    u.append("&productEditionId=undefined&SKU=");
    u.append(sku);
    u.append("&friendlyFileName=undefined&Locale=en-US&sessionID=");
    u.append(session);
    u
}

/// An error entry of a connector reply.
#[derive(Debug)]
pub struct ApiError {
    pub err_type: Option<u8>,
    pub value: Option<String>,
}

/// A language entry of a connector reply; entries lacking an id or a
/// language are dropped.
#[derive(Debug)]
pub struct SkuRaw {
    pub id: Option<String>,
    pub language: Option<String>,
    pub localized_language: Option<String>,
}

/// The language list reply.
#[derive(Debug)]
pub struct SkuPayload {
    pub skus: Vec<SkuRaw>,
    pub errors: Vec<ApiError>,
}

/// A download entry of a connector reply; entries lacking a URI are dropped.
#[derive(Debug)]
pub struct LinkRaw {
    pub download_type: Option<u8>,
    pub uri: Option<String>,
}

/// The download links reply.
#[derive(Debug)]
pub struct LinksPayload {
    pub options: Vec<LinkRaw>,
    pub errors: Vec<ApiError>,
}

/// One download link: its type (0 = x86, 1 = x64, 2 = arm64) and URI.
#[derive(Debug)]
pub struct DownloadOption {
    pub download_type: u8,
    pub uri: String,
}

/// The error a reply's first error entry means: type 9 is a regional
/// block; anything else is reported with its value.
pub open spec fn spec_connector_error(errors: Seq<ApiError>) -> Option<ErrorView> {
    if errors.len() == 0 {
        None
    } else if errors[0].err_type == Some(9u8) {
        Some(ErrorView::Other("Microsoft has blocked this IP/region (error 715-123130). Try again later or use a different network."@))
    } else {
        Some(ErrorView::Other("Microsoft connector error: "@ + crate::source::tools::or_empty(opt_view(errors[0].value))))
    }
}

/// The error a reply's error list reports, if any.
pub fn connector_error(errors: &Vec<ApiError>) -> (r: Option<Error>)
    ensures
        match spec_connector_error(errors@) {
            Some(ev) => r matches Some(e) && e@ == ev,
            None => r is None,
        },
{
    if errors.len() == 0 {
        return None;
    }
    let err = &errors[0];
    if err.err_type == Some(9u8) {
        return Some(Error::Other(String::from_str(
            "Microsoft has blocked this IP/region (error 715-123130). Try again later or use a different network.")));
    }
    let v: &str = match &err.value {
        Some(v) => v.as_str(),
        None => "",
    };
    proof {
        reveal_strlit("");
    }
    Some(Error::Other(concat2("Microsoft connector error: ", v)))
}

/// The languages of a reply for a product edition: the entries that have
/// both an id and a language, in order, a missing display name read as empty.
pub open spec fn spec_skus_of(raw: Seq<SkuRaw>, peid: u64) -> Seq<(Seq<char>, Seq<char>, Seq<char>)>
    decreases raw.len(),
{
    if raw.len() == 0 {
        Seq::empty()
    } else {
        let r = raw.last();
        let rest = spec_skus_of(raw.drop_last(), peid);
        match (r.id, r.language) {
            (Some(id), Some(lang)) => rest.push((id@, lang@, crate::source::tools::or_empty(opt_view(r.localized_language)))),
            _ => rest,
        }
    }
}

/// The views of languages.
pub open spec fn sku_views(s: Seq<Sku>) -> Seq<(Seq<char>, Seq<char>, Seq<char>)> {
    s.map_values(|k: Sku| (k.id@, k.language@, k.localized_language@))
}

/// The languages a reply lists, tagged with their product edition.
pub fn skus_from_payload(payload: &SkuPayload, peid: u64) -> (r: Result<Vec<Sku>, Error>)
    ensures
        match spec_connector_error(payload.errors@) {
            Some(ev) => r matches Err(e) && e@ == ev,
            None => r matches Ok(v) && sku_views(v@) == spec_skus_of(payload.skus@, peid)
                && forall|i: int| 0 <= i < v@.len() ==> (#[trigger] v@[i]).product_edition_id == peid,
        },
{
    if let Some(e) = connector_error(&payload.errors) {
        return Err(e);
    }
    let mut out: Vec<Sku> = Vec::new();
    let mut i: usize = 0;
    let ghost raw = payload.skus@;
    assert(raw.take(0) =~= Seq::<SkuRaw>::empty());
    assert(sku_views(out@) =~= Seq::<(Seq<char>, Seq<char>, Seq<char>)>::empty());
    while i < payload.skus.len()
        invariant
            raw == payload.skus@,
            i <= raw.len(),
            sku_views(out@) == spec_skus_of(raw.take(i as int), peid),
            forall|k: int| 0 <= k < out@.len() ==> (#[trigger] out@[k]).product_edition_id == peid,
        decreases payload.skus.len() - i,
    {
        assert(raw.take(i + 1).drop_last() =~= raw.take(i as int));
        assert(raw.take(i + 1).last() == raw[i as int]);
        let s = &payload.skus[i];
        match (&s.id, &s.language) {
            (Some(id), Some(lang)) => {
                let loc = match &s.localized_language {
                    Some(l) => l.clone(),
                    None => String::new(),
                };
                assert(loc@ == crate::source::tools::or_empty(opt_view(s.localized_language)));
                out.push(Sku { id: id.clone(), language: lang.clone(), localized_language: loc, product_edition_id: peid });
                assert(sku_views(out@) =~= spec_skus_of(raw.take(i as int), peid).push((id@, lang@, loc@)));
            },
            _ => {},
        }
        i += 1;
    }
    assert(raw.take(raw.len() as int) =~= raw);
    Ok(out)
}

/// The links of a reply: entries with a URI, in order, a missing type read as 1 (x64).
pub open spec fn spec_options_of(raw: Seq<LinkRaw>) -> Seq<(u8, Seq<char>)>
    decreases raw.len(),
{
    if raw.len() == 0 {
        Seq::empty()
    } else {
        let r = raw.last();
        let rest = spec_options_of(raw.drop_last());
        match r.uri {
            Some(u) => rest.push((match r.download_type { Some(t) => t, None => 1u8 }, u@)),
            None => rest,
        }
    }
}

/// The views of download options.
pub open spec fn option_views(o: Seq<DownloadOption>) -> Seq<(u8, Seq<char>)> {
    o.map_values(|x: DownloadOption| (x.download_type, x.uri@))
}

/// The download links a reply lists.
pub fn options_from_payload(payload: &LinksPayload) -> (r: Result<Vec<DownloadOption>, Error>)
    ensures
        match spec_connector_error(payload.errors@) {
            Some(ev) => r matches Err(e) && e@ == ev,
            None => r matches Ok(v) && option_views(v@) == spec_options_of(payload.options@),
        },
{
    if let Some(e) = connector_error(&payload.errors) {
        return Err(e);
    }
    let mut out: Vec<DownloadOption> = Vec::new();
    let mut i: usize = 0;
    let ghost raw = payload.options@;
    assert(raw.take(0) =~= Seq::<LinkRaw>::empty());
    assert(option_views(out@) =~= Seq::<(u8, Seq<char>)>::empty());
    while i < payload.options.len()
        invariant
            raw == payload.options@,
            i <= raw.len(),
            option_views(out@) == spec_options_of(raw.take(i as int)),
        decreases payload.options.len() - i,
    {
        assert(raw.take(i + 1).drop_last() =~= raw.take(i as int));
        assert(raw.take(i + 1).last() == raw[i as int]);
        let l = &payload.options[i];
        match &l.uri {
            Some(u) => {
                let t: u8 = match l.download_type {
                    Some(t) => t,
                    None => 1,
                };
                out.push(DownloadOption { download_type: t, uri: u.clone() });
                assert(option_views(out@) =~= spec_options_of(raw.take(i as int)).push((t, u@)));
            },
            None => {},
        }
        i += 1;
    }
    assert(raw.take(raw.len() as int) =~= raw);
    Ok(out)
}

/// The download type an architecture asks for: 1 for x64, 2 for arm64, 0 for x86.
pub open spec fn wanted_type(arch_lower: Seq<char>) -> Option<u8> {
    if arch_lower == "x64"@ || arch_lower == "amd64"@ || arch_lower == "x86_64"@ {
        Some(1u8)
    } else if arch_lower == "arm64"@ || arch_lower == "aarch64"@ {
        Some(2u8)
    } else if arch_lower == "x86"@ || arch_lower == "i386"@ || arch_lower == "i686"@ || arch_lower == "32"@ {
        Some(0u8)
    } else {
        None
    }
}

/// The option an architecture picks: the first of the wanted type, else the first.
pub open spec fn spec_pick_option(opts: Seq<(u8, Seq<char>)>, arch_lower: Seq<char>) -> Option<int> {
    let first = if opts.len() > 0 { Some(0int) } else { None };
    match wanted_type(arch_lower) {
        Some(w) => match first_index(opts.len() as int, |i: int| opts[i].0 == w) {
            Some(i) => Some(i),
            None => first,
        },
        None => first,
    }
}

/// Each architecture family asks the connector for its download type:
/// `x64`, `amd64` and `x86_64` for type 1 (x64), `arm64` and `aarch64` for
/// type 2, `x86`, `i386`, `i686` and `32` for type 0 (32-bit x86). When an
/// option of that type is offered, the first of them is chosen; when none
/// is, the first option.
pub proof fn lemma_pick_option_by_arch(opts: Seq<(u8, Seq<char>)>, arch_lower: Seq<char>, t: u8)
    requires
        (t == 1 && (arch_lower == "x64"@ || arch_lower == "amd64"@ || arch_lower == "x86_64"@))
            || (t == 2 && (arch_lower == "arm64"@ || arch_lower == "aarch64"@))
            || (t == 0 && (arch_lower == "x86"@ || arch_lower == "i386"@ || arch_lower == "i686"@
                || arch_lower == "32"@)),
    ensures
        (exists|i: int| 0 <= i < opts.len() && opts[i].0 == t) ==> (spec_pick_option(opts, arch_lower)
            matches Some(i) && 0 <= i < opts.len() && opts[i].0 == t
            && forall|j: int| 0 <= j < i ==> opts[j].0 != t),
        !(exists|i: int| 0 <= i < opts.len() && opts[i].0 == t) && opts.len() > 0
            ==> spec_pick_option(opts, arch_lower) == Some(0int),
{
    reveal_strlit("x64");
    reveal_strlit("amd64");
    reveal_strlit("x86_64");
    reveal_strlit("arm64");
    reveal_strlit("aarch64");
    reveal_strlit("x86");
    reveal_strlit("i386");
    reveal_strlit("i686");
    reveal_strlit("32");
    assert("x64"@ != "x86"@) by { assert("x64"@[1] != "x86"@[1]); }
    assert("amd64"@ != "arm64"@) by { assert("amd64"@[1] != "arm64"@[1]); }
    assert("i386"@ != "i686"@) by { assert("i386"@[1] != "i686"@[1]); }
    assert("x64"@.len() == 3 && "x86_64"@.len() == 6 && "amd64"@.len() == 5);
    assert("arm64"@.len() == 5 && "aarch64"@.len() == 7 && "x86"@.len() == 3);
    assert("i386"@.len() == 4 && "i686"@.len() == 4 && "32"@.len() == 2);
    if t == 1 {
        assert(wanted_type(arch_lower) == Some(1u8));
    } else if t == 2 {
        assert(arch_lower != "x64"@ && arch_lower != "amd64"@ && arch_lower != "x86_64"@);
        assert(wanted_type(arch_lower) == Some(2u8));
    } else {
        assert(arch_lower != "x64"@ && arch_lower != "amd64"@ && arch_lower != "x86_64"@);
        assert(arch_lower != "arm64"@ && arch_lower != "aarch64"@);
        assert(wanted_type(arch_lower) == Some(0u8));
    }
    let p = |i: int| opts[i].0 == t;
    let w = wanted_type(arch_lower).unwrap();
    assert((|i: int| opts[i].0 == w) =~= p);
    if exists|i: int| 0 <= i < opts.len() && opts[i].0 == t {
        let i = choose|i: int| 0 <= i < opts.len() && opts[i].0 == t;
        assert(p(i));
        crate::select::lemma_first_index_exists(opts.len() as int, p, i);
        crate::select::lemma_first_index_is_first(opts.len() as int, p);
        let k = first_index(opts.len() as int, p).unwrap();
        assert(crate::select::is_first(opts.len() as int, p, k));
        assert(first_index(opts.len() as int, |i: int| opts[i].0 == w) == Some(k));
        assert(spec_pick_option(opts, arch_lower) == Some(k));
        assert(p(k));
        assert(opts[k].0 == t);
        assert forall|j: int| 0 <= j < k implies opts[j].0 != t by {
            assert(!p(j));
        }
    } else {
        assert forall|j: int| 0 <= j < opts.len() implies !#[trigger] p(j) by {}
        lemma_first_index_none(opts.len() as int, p);
    }
}

fn wanted_type_of(arch_lower: &str) -> (r: Option<u8>)
    ensures
        r == wanted_type(arch_lower@),
{
    if same(arch_lower, "x64") || same(arch_lower, "amd64") || same(arch_lower, "x86_64") {
        Some(1)
    } else if same(arch_lower, "arm64") || same(arch_lower, "aarch64") {
        Some(2)
    } else if same(arch_lower, "x86") || same(arch_lower, "i386") || same(arch_lower, "i686") || same(arch_lower, "32") {
        Some(0)
    } else {
        None
    }
}

/// Filters the download options by architecture (type 0 = x86, 1 = x64,
/// 2 = arm64), falling back to the first option.
pub fn pick_option(opts: &Vec<DownloadOption>, arch_lower: &str) -> (r: Option<usize>)
    ensures
        match spec_pick_option(option_views(opts@), arch_lower@) {
            Some(i) => r == Some(i as usize),
            None => r is None,
        },
{
    let ghost ov = option_views(opts@);
    let first: Option<usize> = if opts.len() > 0 { Some(0) } else { None };
    match wanted_type_of(arch_lower) {
        Some(w) => {
            let ghost p = |i: int| ov[i].0 == w;
            let mut i: usize = 0;
            while i < opts.len()
                invariant
                    ov == option_views(opts@),
                    p == (|i: int| ov[i].0 == w),
                    wanted_type(arch_lower@) == Some(w),
                    i <= opts@.len(),
                    forall|j: int| 0 <= j < i ==> !#[trigger] p(j),
                decreases opts.len() - i,
            {
                if opts[i].download_type == w {
                    proof {
                        assert(p(i as int));
                        lemma_first_index_found(ov.len() as int, p, i as int);
                    }
                    return Some(i);
                }
                assert(!p(i as int));
                i += 1;
            }
            proof {
                lemma_first_index_none(ov.len() as int, p);
            }
            first
        },
        None => first,
    }
}

// ---------------------------------------------------------------------------
// The resolution flow: decisions here, transport in the caller
// ---------------------------------------------------------------------------

/// Calls `uuid::Uuid::new_v4` and formats it. Random, so nothing is claimed.
#[verifier::external_body]
fn new_session_id() -> (r: String) {
    uuid::Uuid::new_v4().to_string()
}

/// Where the flow stands: which reply it waits for.
#[derive(Debug, Clone, Copy, PartialEq, Eq, Structural)]
pub enum Phase {
    /// The session whitelist reply.
    Tags,
    /// The ov-df script.
    Mdt,
    /// The ov-df reply.
    Reply,
    /// A language list.
    Skus,
    /// A download links list.
    Links,
    /// Nothing more; the last action was `Done` or `Fail`.
    Finished,
}

/// What the caller must do next.
#[derive(Debug)]
pub enum WinAction {
    /// GET this URL and hand back `Reply`.
    Get(String),
    /// GET this URL and hand back `SkuReply` with the body read as a language list.
    GetSkus(String),
    /// GET this URL with this `Referer` header and hand back `LinksReply`
    /// with the body read as a links list.
    GetLinks(String, String),
    /// The plan is resolved.
    Done(DownloadPlan),
    /// Resolution failed.
    Fail(Error),
}

/// What the caller hands back.
pub enum WinEvent {
    /// The reply to `Get`.
    Reply(HttpResponse),
    /// The reply to `GetSkus`, and its body read as JSON (or the reader's error text).
    SkuReply(HttpResponse, Result<SkuPayload, String>),
    /// The reply to `GetLinks`, and its body read as JSON (or the reader's error text).
    LinksReply(HttpResponse, Result<LinksPayload, String>),
    /// The request failed before any reply.
    Failed(Error),
}

/// An action as plain values.
pub enum ActionView {
    Get(Seq<char>),
    GetSkus(Seq<char>),
    GetLinks(Seq<char>, Seq<char>),
    Done(PlanView),
    Fail(ErrorView),
}

impl View for WinAction {
    type V = ActionView;

    open spec fn view(&self) -> ActionView {
        match self {
            WinAction::Get(u) => ActionView::Get(u@),
            WinAction::GetSkus(u) => ActionView::GetSkus(u@),
            WinAction::GetLinks(u, r) => ActionView::GetLinks(u@, r@),
            WinAction::Done(p) => ActionView::Done(p@),
            WinAction::Fail(e) => ActionView::Fail(e@),
        }
    }
}

/// The event a phase waits for.
pub open spec fn accepts(phase: Phase, e: WinEvent) -> bool {
    match e {
        WinEvent::Failed(_) => phase != Phase::Finished,
        WinEvent::Reply(_) => phase == Phase::Tags || phase == Phase::Mdt || phase == Phase::Reply,
        WinEvent::SkuReply(_, _) => phase == Phase::Skus,
        WinEvent::LinksReply(_, _) => phase == Phase::Links,
    }
}

/// The body as text, or empty when it is not UTF-8.
pub open spec fn text_or_empty(r: crate::http::ResponseView) -> Seq<char> {
    if vstd::utf8::valid_utf8(r.body) { vstd::utf8::decode_utf8(r.body) } else { Seq::empty() }
}

/// The plan for the chosen language and download link.
pub open spec fn spec_windows_plan(version_slug: Seq<char>, version_name: Seq<char>, release: Seq<char>,
    edition: Seq<char>, language: Seq<char>, localized: Seq<char>, uri: Seq<char>, arch_lower: Seq<char>,
    target_dir: Seq<char>) -> PlanView {
    let fallback = version_slug + "_"@ + replace_all(release, " "@, "_"@) + "_"@ + language + "_"@ + arch_lower + ".iso"@;
    let file = spec_name_from_segments(spec_url_path_segments(uri), fallback);
    let display = if localized.len() == 0 { language } else { localized };
    new_plan(Kind::Windows, uri, file, target_dir, arch_lower,
        version_name + " / "@ + release + " / "@ + edition + " / "@ + display + " / "@ + arch_lower)
}

/// The version, release and edition a request selects.
pub open spec fn spec_windows_select(vs: Seq<WindowsVersion>, default_release: Seq<char>,
    default_edition: Option<Seq<char>>, req: RequestView) -> Result<(int, int, int), ErrorView> {
    match version_index(vs, req.system) {
        None => Err(ErrorView::NotFound("unknown Windows version: "@ + req.system)),
        Some(vi) => match spec_find_release(vs[vi], wanted(req.release, default_release)) {
            Err(e) => Err(e),
            Ok(ri) => match spec_find_edition(vs[vi].releases@[ri], edition_wanted(req.edition, default_edition)) {
                Err(e) => Err(e),
                Ok(ei) => Ok((vi, ri, ei)),
            },
        },
    }
}

/// The language asked for: a non-empty requested one, else the default.
pub open spec fn lang_wanted(requested: Option<Seq<char>>, default: Seq<char>) -> Seq<char> {
    match requested {
        Some(l) => if l.len() > 0 { l } else { default },
        None => default,
    }
}

/// The connector conversation for one Windows request.
pub struct WindowsFlow {
    version_name: String,
    version_slug: String,
    release_name: String,
    edition_name: String,
    peids: Vec<u64>,
    lang: String,
    arch_lower: String,
    target_dir: String,
    org_id: String,
    profile_id: String,
    instance_id: String,
    phase: Phase,
    current: usize,
    session: String,
    pending: String,
    mdt: u128,
    skus: Vec<Sku>,
    sessions: Vec<(u64, String)>,
    chosen: usize,
    next_sku: usize,
    options: Vec<DownloadOption>,
}

impl WindowsFlow {
    #[verifier::type_invariant]
    spec fn wf(self) -> bool {
        &&& self.current <= self.peids@.len()
        &&& (self.phase == Phase::Tags || self.phase == Phase::Mdt || self.phase == Phase::Reply
            || self.phase == Phase::Skus) ==> self.current < self.peids@.len()
        &&& self.phase == Phase::Links ==> self.chosen < self.skus@.len() && self.next_sku <= self.skus@.len()
    }

    pub closed spec fn phase_of(self) -> Phase {
        self.phase
    }

    /// The session id of the product edition being processed.
    pub closed spec fn session_of(self) -> Seq<char> {
        self.session@
    }

    /// The clock reading sent with the last ov-df reply.
    pub closed spec fn mdt_of(self) -> nat {
        self.mdt as nat
    }

    /// The URL of the request whose reply the flow waits for.
    pub closed spec fn pending_of(self) -> Seq<char> {
        self.pending@
    }

    /// The languages gathered so far.
    pub closed spec fn skus_of(self) -> Seq<Sku> {
        self.skus@
    }

    /// The download links gathered so far.
    pub closed spec fn options_of(self) -> Seq<(u8, Seq<char>)> {
        option_views(self.options@)
    }

    /// Where the flow stands.
    pub fn phase(&self) -> (r: Phase)
        ensures
            r == self.phase_of(),
    {
        self.phase
    }

    /// Whether `event` is the kind of reply the flow waits for.
    pub fn accepts(&self, event: &WinEvent) -> (r: bool)
        ensures
            r == accepts(self.phase_of(), *event),
    {
        match event {
            WinEvent::Failed(_) => self.phase != Phase::Finished,
            WinEvent::Reply(_) => self.phase == Phase::Tags || self.phase == Phase::Mdt || self.phase == Phase::Reply,
            WinEvent::SkuReply(_, _) => self.phase == Phase::Skus,
            WinEvent::LinksReply(_, _) => self.phase == Phase::Links,
        }
    }

    fn fail(&mut self, e: Error) -> (r: WinAction)
        ensures
            final(self).phase_of() == Phase::Finished,
            r matches WinAction::Fail(x) && x == e,
            final(self).view_of() == old(self).view_of(),
            final(self).session_of() == old(self).session_of(),
            final(self).pending_of() == old(self).pending_of(),
            final(self).skus_of() == old(self).skus_of(),
            final(self).options_of() == old(self).options_of(),
    {
        proof { use_type_invariant(&*self); }
        self.phase = Phase::Finished;
        WinAction::Fail(e)
    }

    /// Starts a new session for the product edition at `current`.
    fn begin_session(&mut self) -> (r: WinAction)
        requires
            old(self).current < old(self).peids@.len(),
        ensures
            final(self).phase_of() == Phase::Tags,
            final(self).skus_of() == old(self).skus_of(),
            final(self).view_of() == old(self).view_of(),
            final(self).options_of() == old(self).options_of(),
            r@ == ActionView::Get(spec_tags_url(old(self).org_id@, final(self).session_of())),
            final(self).pending_of() == spec_tags_url(old(self).org_id@, final(self).session_of()),
    {
        proof { use_type_invariant(&*self); }
        let sid = new_session_id();
        let url = tags_url(self.org_id.as_str(), sid.as_str());
        self.session = sid;
        self.pending = url.clone();
        self.phase = Phase::Tags;
        WinAction::Get(url)
    }
}

/// The flow's settled facts as plain values.
pub struct FlowView {
    pub version_name: Seq<char>,
    pub version_slug: Seq<char>,
    pub release: Seq<char>,
    pub edition: Seq<char>,
    pub peids: Seq<u64>,
    pub lang: Seq<char>,
    pub arch_lower: Seq<char>,
    pub target_dir: Seq<char>,
    pub org_id: Seq<char>,
    pub profile_id: Seq<char>,
    pub instance_id: Seq<char>,
    pub current: int,
    pub sessions: Seq<(u64, Seq<char>)>,
    pub chosen: int,
    pub next_sku: int,
}

/// The first language at or after `from` with the chosen language's code.
pub open spec fn spec_next_sku(skus: Seq<Sku>, chosen: int, from: int) -> Option<int> {
    match first_index(skus.len() - from, |k: int| skus[from + k].language@ == skus[chosen].language@) {
        Some(k) => Some(from + k),
        None => None,
    }
}

/// Entry `i` is the session of product edition `peid`.
pub open spec fn opened_for(sessions: Seq<(u64, Seq<char>)>, i: int, peid: u64) -> bool {
    sessions[i].0 == peid
}

/// The session opened for a product edition.
pub open spec fn session_lookup(sessions: Seq<(u64, Seq<char>)>, peid: u64) -> Option<Seq<char>> {
    match first_index(sessions.len() as int, |i: int| opened_for(sessions, i, peid)) {
        Some(i) => Some(sessions[i].1),
        None => None,
    }
}

/// What the flow does once the links of every chosen-language entry are in:
/// fail without links, else pick one by architecture and finish.
pub open spec fn spec_finish(f: FlowView, skus: Seq<Sku>, opts: Seq<(u8, Seq<char>)>) -> ActionView {
    if opts.len() == 0 {
        ActionView::Fail(ErrorView::NotFound("no download links returned by Microsoft connector"@))
    } else {
        match spec_pick_option(opts, f.arch_lower) {
            None => ActionView::Fail(ErrorView::NotFound("no matching download option"@)),
            Some(i) => {
                let c = skus[f.chosen];
                ActionView::Done(spec_windows_plan(f.version_slug, f.version_name, f.release, f.edition,
                    c.language@, c.localized_language@, opts[i].1, f.arch_lower, f.target_dir))
            },
        }
    }
}

/// What the flow does after the links reply for the entries before `from`:
/// ask for the next chosen-language entry's links, or finish.
pub open spec fn spec_after(f: FlowView, skus: Seq<Sku>, opts: Seq<(u8, Seq<char>)>, from: int) -> ActionView {
    match spec_next_sku(skus, f.chosen, from) {
        Some(j) => match session_lookup(f.sessions, skus[j].product_edition_id) {
            Some(sid) => ActionView::GetLinks(spec_links_url(f.profile_id, skus[j].id@, sid), referer()),
            None => ActionView::Fail(ErrorView::Other("internal: session not found"@)),
        },
        None => spec_finish(f, skus, opts),
    }
}

impl WindowsFlow {
    pub closed spec fn view_of(self) -> FlowView {
        FlowView {
            version_name: self.version_name@,
            version_slug: self.version_slug@,
            release: self.release_name@,
            edition: self.edition_name@,
            peids: self.peids@,
            lang: self.lang@,
            arch_lower: self.arch_lower@,
            target_dir: self.target_dir@,
            org_id: self.org_id@,
            profile_id: self.profile_id@,
            instance_id: self.instance_id@,
            current: self.current as int,
            sessions: self.sessions@.map_values(|s: (u64, String)| (s.0, s.1@)),
            chosen: self.chosen as int,
            next_sku: self.next_sku as int,
        }
    }

    /// The session opened for a product edition.
    fn session_for(&self, peid: u64) -> (r: Option<&String>)
        ensures
            match session_lookup(self.view_of().sessions, peid) {
                Some(sid) => r matches Some(x) && x@ == sid,
                None => r is None,
            },
    {
        let ghost ss = self.view_of().sessions;
        let ghost p = |i: int| opened_for(ss, i, peid);
        let mut i: usize = 0;
        while i < self.sessions.len()
            invariant
                ss == self.view_of().sessions,
                ss.len() == self.sessions@.len(),
                p == (|i: int| opened_for(ss, i, peid)),
                i <= ss.len(),
                forall|j: int| 0 <= j < i ==> !#[trigger] p(j),
            decreases self.sessions.len() - i,
        {
            assert(ss[i as int] == (self.sessions@[i as int].0, self.sessions@[i as int].1@));
            if self.sessions[i].0 == peid {
                proof {
                    assert(p(i as int));
                    lemma_first_index_found(ss.len() as int, p, i as int);
                }
                return Some(&self.sessions[i].1);
            }
            assert(!p(i as int));
            i += 1;
        }
        proof {
            lemma_first_index_none(ss.len() as int, p);
        }
        None
    }

    /// Picks a link and finishes.
    fn finish(&mut self) -> (r: WinAction)
        requires
            old(self).phase_of() == Phase::Links,
        ensures
            final(self).phase_of() == Phase::Finished,
            final(self).view_of() == old(self).view_of(),
            final(self).skus_of() == old(self).skus_of(),
            r@ == spec_finish(old(self).view_of(), old(self).skus_of(), old(self).options_of()),
    {
        proof { use_type_invariant(&*self); }
        if self.options.len() == 0 {
            return self.fail(Error::NotFound(String::from_str("no download links returned by Microsoft connector")));
        }
        let pick = match pick_option(&self.options, self.arch_lower.as_str()) {
            Some(i) => i,
            None => return self.fail(Error::NotFound(String::from_str("no matching download option"))),
        };
        let ghost ov = option_views(self.options@);
        let uri = self.options[pick].uri.clone();
        assert(uri@ == ov[pick as int].1);
        let chosen = &self.skus[self.chosen];
        proof {
            reveal_strlit(" ");
        }
        let rel = replace(self.release_name.as_str(), " ", "_");
        let mut fallback = String::from_str(self.version_slug.as_str());
        fallback.append("_");
        fallback.append(rel.as_str());
        fallback.append("_");
        fallback.append(chosen.language.as_str());
        fallback.append("_");
        fallback.append(self.arch_lower.as_str());
        fallback.append(".iso");
        let file_name = file_name_from_url(uri.as_str(), fallback.as_str());
        let display: &str = if chosen.localized_language.unicode_len() == 0 {
            chosen.language.as_str()
        } else {
            chosen.localized_language.as_str()
        };
        let mut source = String::from_str(self.version_name.as_str());
        source.append(" / ");
        source.append(self.release_name.as_str());
        source.append(" / ");
        source.append(self.edition_name.as_str());
        source.append(" / ");
        source.append(display);
        source.append(" / ");
        source.append(self.arch_lower.as_str());
        let plan = DownloadPlan::new(Kind::Windows, uri, file_name, self.target_dir.as_str(),
            self.arch_lower.as_str(), source.as_str());
        self.phase = Phase::Finished;
        WinAction::Done(plan)
    }

    /// Asks for the links of the next chosen-language entry, or finishes.
    fn next_link(&mut self) -> (r: WinAction)
        requires
            old(self).phase_of() == Phase::Links,
        ensures
            r@ == spec_after(old(self).view_of(), old(self).skus_of(), old(self).options_of(), old(self).view_of().next_sku),
            (FlowView { next_sku: 0, ..final(self).view_of() }) == (FlowView { next_sku: 0, ..old(self).view_of() }),
            final(self).skus_of() == old(self).skus_of(),
            r@ is GetLinks ==> final(self).phase_of() == Phase::Links
                && final(self).skus_of() == old(self).skus_of()
                && final(self).options_of() == old(self).options_of()
                && r@ == ActionView::GetLinks(final(self).pending_of(), referer()),
            !(r@ is GetLinks) ==> final(self).phase_of() == Phase::Finished,
    {
        proof { use_type_invariant(&*self); }
        let ghost f = self.view_of();
        let ghost sk = self.skus@;
        let from = self.next_sku;
        let n = self.skus.len();
        let ghost p = |k: int| sk[from + k].language@ == sk[f.chosen].language@;
        let mut k: usize = 0;
        while k < n - from
            invariant
                f == old(self).view_of(),
                sk == old(self).skus_of(),
                self.view_of() == f,
                self.skus@ == sk,
                n == sk.len(),
                from == f.next_sku,
                from <= n,
                self.chosen < n,
                f.chosen == self.chosen,
                self.options_of() == old(self).options_of(),
                self.phase == Phase::Links,
                p == (|k: int| sk[from + k].language@ == sk[f.chosen].language@),
                k <= n - from,
                forall|j: int| 0 <= j < k ==> !#[trigger] p(j),
            decreases n - from - k,
        {
            if same(self.skus[from + k].language.as_str(), self.skus[self.chosen].language.as_str()) {
                proof {
                    assert(p(k as int));
                    lemma_first_index_found((n - from) as int, p, k as int);
                }
                let j = from + k;
                let peid = self.skus[j].product_edition_id;
                let sid = match self.session_for(peid) {
                    Some(s) => s.clone(),
                    None => return self.fail(Error::Other(String::from_str("internal: session not found"))),
                };
                let url = links_url(self.profile_id.as_str(), self.skus[j].id.as_str(), sid.as_str());
                proof { use_type_invariant(&*self); }
                self.next_sku = j + 1;
                self.pending = url.clone();
                return WinAction::GetLinks(url, String::from_str("https://www.microsoft.com/software-download/windows11"));
            }
            assert(!p(k as int));
            k += 1;
        }
        proof {
            lemma_first_index_none((n - from) as int, p);
        }
        self.finish()
    }
}

/// What the flow does with the ov-df script `body`: extract `w` and
/// `rticks` and reply with them and the clock's milliseconds `mdt` (a clock
/// before the epoch is an `Other` failure).
pub open spec fn mdt_outcome(a: ActionView, session: Seq<char>, instance: Seq<char>, body: Seq<char>, mdt: nat) -> bool {
    match crate::pattern::spec_regex_first(w_pattern(), body) {
        None => a == ActionView::Fail(ErrorView::Parse("ov-df: cannot extract w"@)),
        Some(w) => match crate::pattern::spec_regex_first(rticks_pattern(), body) {
            None => a == ActionView::Fail(ErrorView::Parse("ov-df: cannot extract rticks"@)),
            Some(t) => (a is Fail && a->Fail_0 is Other) || a == ActionView::Get(spec_reply_url(session, instance, w, mdt, t)),
        },
    }
}

/// The error a connector request with a refused status gives.
pub open spec fn status_error(status: u16, url: Seq<char>, body: Seq<char>) -> ErrorView {
    ErrorView::HttpStatus(status, url, body)
}

impl WindowsFlow {
    /// The body text, or nothing when it is not UTF-8.
    fn body_text(r: &HttpResponse) -> (t: String)
        ensures
            t@ == text_or_empty(r@),
    {
        match r.text() {
            Ok(t) => t,
            Err(_) => String::new(),
        }
    }

    /// The reply to the session whitelist request.
    fn on_tags(&mut self, r: &HttpResponse) -> (a: WinAction)
        requires
            old(self).phase_of() == Phase::Tags,
        ensures
            !status_ok(r.status) ==> a@ == ActionView::Fail(status_error(r.status, old(self).pending_of(),
                "vlscppe tags whitelist failed"@)) && final(self).phase_of() == Phase::Finished,
            status_ok(r.status) ==> a@ == ActionView::Get(spec_mdt_url(old(self).view_of().instance_id, old(self).session_of()))
                && final(self).phase_of() == Phase::Mdt,
            final(self).view_of() == old(self).view_of(),
            final(self).session_of() == old(self).session_of(),
            final(self).skus_of() == old(self).skus_of(),
            a@ is Get ==> a@ == ActionView::Get(final(self).pending_of()),
    {
        proof { use_type_invariant(&*self); }
        if !(200 <= r.status && r.status < 400) {
            let e = Error::HttpStatus {
                status: r.status,
                url: self.pending.clone(),
                body: String::from_str("vlscppe tags whitelist failed"),
            };
            return self.fail(e);
        }
        let url = mdt_url(self.instance_id.as_str(), self.session.as_str());
        self.pending = url.clone();
        self.phase = Phase::Mdt;
        WinAction::Get(url)
    }

    /// The ov-df script: extracts `w` and `rticks` and replies with them.
    fn on_mdt(&mut self, r: &HttpResponse) -> (a: WinAction)
        requires
            old(self).phase_of() == Phase::Mdt,
        ensures
            !vstd::utf8::valid_utf8(r.body@) ==> a@ == ActionView::Fail(ErrorView::Parse("invalid utf-8 body: "@
                + crate::http::spec_utf8_error_text(r.body@))),
            vstd::utf8::valid_utf8(r.body@) ==> mdt_outcome(a@, old(self).session_of(),
                old(self).view_of().instance_id, vstd::utf8::decode_utf8(r.body@), final(self).mdt_of()),
            a@ is Get ==> final(self).phase_of() == Phase::Reply && a@ == ActionView::Get(final(self).pending_of()),
            !(a@ is Get) ==> final(self).phase_of() == Phase::Finished,
            final(self).view_of() == old(self).view_of(),
            final(self).session_of() == old(self).session_of(),
            final(self).skus_of() == old(self).skus_of(),
    {
        proof { use_type_invariant(&*self); }
        let body = match r.text() {
            Ok(b) => b,
            Err(e) => return self.fail(e),
        };
        proof {
            reveal_strlit("[?&]w=([A-F0-9]+)");
            reveal_strlit("rticks=\\\\?\"\\+?(\\d+)");
        }
        let w = match crate::pattern::regex_match(body.as_str(), "[?&]w=([A-F0-9]+)") {
            Some(w) => w,
            None => return self.fail(Error::Parse(String::from_str("ov-df: cannot extract w"))),
        };
        let rticks = match crate::pattern::regex_match(body.as_str(), "rticks=\\\\?\"\\+?(\\d+)") {
            Some(t) => t,
            None => return self.fail(Error::Parse(String::from_str("ov-df: cannot extract rticks"))),
        };
        let mdt = match crate::calendar::since_epoch() {
            Ok((_, m)) => m,
            Err(m) => return self.fail(Error::Other(m)),
        };
        let url = reply_url(self.session.as_str(), self.instance_id.as_str(), w.as_str(), mdt, rticks.as_str());
        self.mdt = mdt;
        self.pending = url.clone();
        self.phase = Phase::Reply;
        let a = WinAction::Get(url);
        assert(a@ == ActionView::Get(spec_reply_url(old(self).session_of(), old(self).view_of().instance_id, w@,
            mdt as nat, rticks@)));
        assert(crate::pattern::spec_regex_first(w_pattern(), body@) == Some(w@));
        assert(crate::pattern::spec_regex_first(rticks_pattern(), body@) == Some(rticks@));
        assert(body@ == vstd::utf8::decode_utf8(r.body@));
        a
    }

    /// The ov-df reply: asks for the language list of the current product edition.
    fn on_reply(&mut self, r: &HttpResponse) -> (a: WinAction)
        requires
            old(self).phase_of() == Phase::Reply,
        ensures
            !status_ok(r.status) ==> a@ == ActionView::Fail(status_error(r.status, old(self).pending_of(),
                "ov-df reply failed"@)) && final(self).phase_of() == Phase::Finished,
            status_ok(r.status) ==> a@ == ActionView::GetSkus(spec_skus_url(old(self).view_of().profile_id,
                old(self).view_of().peids[old(self).view_of().current], old(self).session_of()))
                && final(self).phase_of() == Phase::Skus
                && a@ == ActionView::GetSkus(final(self).pending_of()),
            final(self).view_of() == old(self).view_of(),
            final(self).session_of() == old(self).session_of(),
            final(self).skus_of() == old(self).skus_of(),
    {
        proof { use_type_invariant(&*self); }
        if !(200 <= r.status && r.status < 400) {
            let e = Error::HttpStatus { status: r.status, url: self.pending.clone(), body: String::from_str("ov-df reply failed") };
            return self.fail(e);
        }
        let url = skus_url(self.profile_id.as_str(), self.peids[self.current], self.session.as_str());
        self.pending = url.clone();
        self.phase = Phase::Skus;
        WinAction::GetSkus(url)
    }
}

/// The message when no language came back for a selection.
pub open spec fn no_languages_message(f: FlowView) -> Seq<char> {
    "no languages returned for "@ + f.version_name + " / "@ + f.release + " / "@ + f.edition
}

impl WindowsFlow {
    /// Appends a reply's languages and records the session of the current
    /// product edition.
    fn absorb_skus(&mut self, list: Vec<Sku>)
        requires
            old(self).phase_of() == Phase::Skus,
        ensures
            final(self).skus_of() == old(self).skus_of() + list@,
            final(self).view_of() == (FlowView {
                current: old(self).view_of().current + 1,
                sessions: old(self).view_of().sessions.push((old(self).view_of().peids[old(self).view_of().current],
                    old(self).session_of())),
                ..old(self).view_of()
            }),
            final(self).phase_of() == Phase::Finished,
            final(self).options_of() == old(self).options_of(),
    {
        proof { use_type_invariant(&*self); }
        self.phase = Phase::Finished;
        let mut list = list;
        let mut skus: Vec<Sku> = Vec::new();
        std::mem::swap(&mut skus, &mut self.skus);
        skus.append(&mut list);
        std::mem::swap(&mut skus, &mut self.skus);
        let peid = self.peids[self.current];
        let mut sessions: Vec<(u64, String)> = Vec::new();
        std::mem::swap(&mut sessions, &mut self.sessions);
        sessions.push((peid, self.session.clone()));
        std::mem::swap(&mut sessions, &mut self.sessions);
        let n = self.peids.len();
        assert(self.current < n);
        self.current = self.current + 1;
        proof {
            assert(self.view_of().sessions =~= old(self).view_of().sessions.push((peid, old(self).session_of())));
        }
    }

    /// A language list reply: keeps its languages, then opens the next
    /// product edition's session, or picks the language and asks for links.
    fn on_skus(&mut self, r: &HttpResponse, payload: Result<SkuPayload, String>) -> (a: WinAction)
        requires
            old(self).phase_of() == Phase::Skus,
        ensures
            !status_ok(r.status) ==> a@ == ActionView::Fail(status_error(r.status, old(self).pending_of(), text_or_empty(r@))),
            status_ok(r.status) ==> match payload {
                Err(m) => a@ == ActionView::Fail(ErrorView::Parse("invalid json body: "@ + m@)),
                Ok(p) => match spec_connector_error(p.errors@) {
                    Some(ev) => a@ == ActionView::Fail(ev),
                    None => {
                        &&& sku_views(final(self).skus_of().skip(old(self).skus_of().len() as int))
                            == spec_skus_of(p.skus@, old(self).view_of().peids[old(self).view_of().current])
                        &&& final(self).skus_of().take(old(self).skus_of().len() as int) == old(self).skus_of()
                        &&& final(self).view_of().sessions == old(self).view_of().sessions.push(
                            (old(self).view_of().peids[old(self).view_of().current], old(self).session_of()))
                        &&& if old(self).view_of().current + 1 < old(self).view_of().peids.len() {
                            a@ == ActionView::Get(spec_tags_url(old(self).view_of().org_id, final(self).session_of()))
                        } else if final(self).skus_of().len() == 0 {
                            a@ == ActionView::Fail(ErrorView::NotFound(no_languages_message(old(self).view_of())))
                        } else {
                            match spec_pick_language(final(self).skus_of(), Some(old(self).view_of().lang)) {
                                Err(ev) => a@ == ActionView::Fail(ev),
                                Ok(c) => final(self).view_of().chosen == c && a@ == spec_after(
                                        (FlowView { chosen: c, next_sku: 0, ..final(self).view_of() }),
                                        final(self).skus_of(), old(self).options_of(), 0),
                            }
                        }
                    },
                },
            },
            a@ is Get ==> final(self).phase_of() == Phase::Tags && a@ == ActionView::Get(final(self).pending_of()),
            a@ is GetLinks ==> final(self).phase_of() == Phase::Links && a@ == ActionView::GetLinks(final(self).pending_of(), referer()),
            (a@ is Done || a@ is Fail) ==> final(self).phase_of() == Phase::Finished,
            !(a@ is GetSkus),
    {
        proof { use_type_invariant(&*self); }
        if !(200 <= r.status && r.status < 400) {
            let body = Self::body_text(r);
            let e = Error::HttpStatus { status: r.status, url: self.pending.clone(), body };
            return self.fail(e);
        }
        let p = match payload {
            Ok(p) => p,
            Err(m) => return self.fail(Error::Parse(concat2("invalid json body: ", m.as_str()))),
        };
        let peid = self.peids[self.current];
        let list = match skus_from_payload(&p, peid) {
            Ok(l) => l,
            Err(e) => return self.fail(e),
        };
        let ghost old_skus = self.skus@;
        let ghost new_list = list@;
        self.absorb_skus(list);
        proof {
            assert(self.skus@.skip(old_skus.len() as int) =~= new_list);
            assert(self.skus@.take(old_skus.len() as int) =~= old_skus);
        }
        if self.current < self.peids.len() {
            return self.begin_session();
        }
        if self.skus.len() == 0 {
            let mut m = String::from_str("no languages returned for ");
            m.append(self.version_name.as_str());
            m.append(" / ");
            m.append(self.release_name.as_str());
            m.append(" / ");
            m.append(self.edition_name.as_str());
            return self.fail(Error::NotFound(m));
        }
        let chosen = match pick_language_index(self.skus.as_slice(), Some(self.lang.as_str())) {
            Ok(c) => c,
            Err(e) => return self.fail(e),
        };
        self.chosen = chosen;
        self.next_sku = 0;
        self.phase = Phase::Links;
        self.next_link()
    }

    /// A download links reply: keeps its links, then asks for the next
    /// chosen-language entry's links or finishes.
    fn on_links(&mut self, r: &HttpResponse, payload: Result<LinksPayload, String>) -> (a: WinAction)
        requires
            old(self).phase_of() == Phase::Links,
        ensures
            !status_ok(r.status) ==> a@ == ActionView::Fail(status_error(r.status, old(self).pending_of(), text_or_empty(r@))),
            status_ok(r.status) ==> match payload {
                Err(m) => a@ == ActionView::Fail(ErrorView::Parse("invalid json body: "@ + m@)),
                Ok(p) => match spec_connector_error(p.errors@) {
                    Some(ev) => a@ == ActionView::Fail(ev),
                    None => a@ == spec_after(old(self).view_of(), old(self).skus_of(),
                        old(self).options_of() + spec_options_of(p.options@), old(self).view_of().next_sku),
                },
            },
            a@ is GetLinks ==> final(self).phase_of() == Phase::Links && a@ == ActionView::GetLinks(final(self).pending_of(), referer()),
            !(a@ is GetLinks) ==> final(self).phase_of() == Phase::Finished,
            !(a@ is Get) && !(a@ is GetSkus),
    {
        proof { use_type_invariant(&*self); }
        if !(200 <= r.status && r.status < 400) {
            let body = Self::body_text(r);
            let e = Error::HttpStatus { status: r.status, url: self.pending.clone(), body };
            return self.fail(e);
        }
        let p = match payload {
            Ok(p) => p,
            Err(m) => return self.fail(Error::Parse(concat2("invalid json body: ", m.as_str()))),
        };
        let mut list = match options_from_payload(&p) {
            Ok(l) => l,
            Err(e) => return self.fail(e),
        };
        let ghost before = self.options@;
        let ghost new_list = list@;
        let mut opts: Vec<DownloadOption> = Vec::new();
        std::mem::swap(&mut opts, &mut self.options);
        opts.append(&mut list);
        std::mem::swap(&mut opts, &mut self.options);
        proof {
            assert(option_views(self.options@) =~= option_views(before) + option_views(new_list));
        }
        self.next_link()
    }

    /// Hands the flow the reply to its last action and returns the next action.
    pub fn step(&mut self, event: WinEvent) -> (a: WinAction)
        requires
            accepts(old(self).phase_of(), event),
        ensures
            match event {
                WinEvent::Failed(e) => a@ == ActionView::Fail(e@) && final(self).phase_of() == Phase::Finished,
                _ => true,
            },
            a@ is Get ==> a@ == ActionView::Get(final(self).pending_of()),
            a@ is GetSkus ==> a@ == ActionView::GetSkus(final(self).pending_of()) && final(self).phase_of() == Phase::Skus,
            a@ is GetLinks ==> a@ == ActionView::GetLinks(final(self).pending_of(), referer()) && final(self).phase_of() == Phase::Links,
            (a@ is Done || a@ is Fail) ==> final(self).phase_of() == Phase::Finished,
            old(self).phase_of() == Phase::Tags && event is Reply ==> ({
                let r = event->Reply_0;
                &&& !status_ok(r.status) ==> a@ == ActionView::Fail(status_error(r.status, old(self).pending_of(),
                    "vlscppe tags whitelist failed"@))
                &&& status_ok(r.status) ==> a@ == ActionView::Get(spec_mdt_url(old(self).view_of().instance_id,
                    old(self).session_of()))
            }),
            old(self).phase_of() == Phase::Mdt && event is Reply ==> ({
                let r = event->Reply_0;
                &&& !vstd::utf8::valid_utf8(r.body@) ==> a@ == ActionView::Fail(ErrorView::Parse("invalid utf-8 body: "@
                    + crate::http::spec_utf8_error_text(r.body@)))
                &&& vstd::utf8::valid_utf8(r.body@) ==> mdt_outcome(a@, old(self).session_of(),
                    old(self).view_of().instance_id, vstd::utf8::decode_utf8(r.body@), final(self).mdt_of())
            }),
            old(self).phase_of() == Phase::Reply && event is Reply ==> ({
                let r = event->Reply_0;
                &&& !status_ok(r.status) ==> a@ == ActionView::Fail(status_error(r.status, old(self).pending_of(),
                    "ov-df reply failed"@))
                &&& status_ok(r.status) ==> a@ == ActionView::GetSkus(spec_skus_url(old(self).view_of().profile_id,
                    old(self).view_of().peids[old(self).view_of().current], old(self).session_of()))
            }),
            event is LinksReply ==> ({
                let r = event->LinksReply_0;
                &&& !status_ok(r.status) ==> a@ == ActionView::Fail(status_error(r.status, old(self).pending_of(), text_or_empty(r@)))
                &&& status_ok(r.status) ==> match event->LinksReply_1 {
                    Err(m) => a@ == ActionView::Fail(ErrorView::Parse("invalid json body: "@ + m@)),
                    Ok(p) => match spec_connector_error(p.errors@) {
                        Some(ev) => a@ == ActionView::Fail(ev),
                        None => a@ == spec_after(old(self).view_of(), old(self).skus_of(),
                            old(self).options_of() + spec_options_of(p.options@), old(self).view_of().next_sku),
                    },
                }
            }),
            event is SkuReply ==> ({
                let r = event->SkuReply_0;
                &&& !status_ok(r.status) ==> a@ == ActionView::Fail(status_error(r.status, old(self).pending_of(), text_or_empty(r@)))
                &&& status_ok(r.status) ==> match event->SkuReply_1 {
                    Err(m) => a@ == ActionView::Fail(ErrorView::Parse("invalid json body: "@ + m@)),
                    Ok(p) => match spec_connector_error(p.errors@) {
                        Some(ev) => a@ == ActionView::Fail(ev),
                        None => {
                            &&& sku_views(final(self).skus_of().skip(old(self).skus_of().len() as int))
                                == spec_skus_of(p.skus@, old(self).view_of().peids[old(self).view_of().current])
                            &&& final(self).skus_of().take(old(self).skus_of().len() as int) == old(self).skus_of()
                            &&& if old(self).view_of().current + 1 < old(self).view_of().peids.len() {
                                a@ == ActionView::Get(spec_tags_url(old(self).view_of().org_id, final(self).session_of()))
                            } else if final(self).skus_of().len() == 0 {
                                a@ == ActionView::Fail(ErrorView::NotFound(no_languages_message(old(self).view_of())))
                            } else {
                                match spec_pick_language(final(self).skus_of(), Some(old(self).view_of().lang)) {
                                    Err(ev) => a@ == ActionView::Fail(ev),
                                    Ok(c) => a@ == spec_after((FlowView { chosen: c, next_sku: 0, ..final(self).view_of() }),
                                        final(self).skus_of(), old(self).options_of(), 0),
                                }
                            }
                        },
                    },
                }
            }),
    {
        match event {
            WinEvent::Failed(e) => self.fail(e),
            WinEvent::Reply(r) => {
                if self.phase == Phase::Tags {
                    self.on_tags(&r)
                } else if self.phase == Phase::Mdt {
                    self.on_mdt(&r)
                } else {
                    self.on_reply(&r)
                }
            },
            WinEvent::SkuReply(r, p) => self.on_skus(&r, p),
            WinEvent::LinksReply(r, p) => self.on_links(&r, p),
        }
    }
}

impl<'a> WindowsResolver<'a> {
    /// Starts resolving a request: selects version, release and edition
    /// from the catalog and opens the first connector session.
    pub fn start(&self, req: &DownloadRequest) -> (r: Result<(WindowsFlow, WinAction), Error>)
        ensures
            match spec_windows_select(self.versions(), self.default_release(), self.default_edition(), req@) {
                Err(ev) => r matches Err(e) && e@ == ev,
                Ok((vi, ri, ei)) => {
                    let v = self.versions()[vi];
                    let rel = v.releases@[ri];
                    let ed = rel.editions@[ei];
                    if ed.product_edition_id@.len() == 0 {
                        r matches Err(e) && e@ == ErrorView::NotFound("no languages returned for "@ + v.name@
                            + " / "@ + rel.release@ + " / "@ + ed.name@)
                    } else {
                        r matches Ok((f, a)) && {
                            &&& f.phase_of() == Phase::Tags
                            &&& f.skus_of().len() == 0
                            &&& f.options_of().len() == 0
                            &&& f.view_of().version_name == v.name@
                            &&& f.view_of().version_slug == v.slug@
                            &&& f.view_of().release == rel.release@
                            &&& f.view_of().edition == ed.name@
                            &&& f.view_of().peids == ed.product_edition_id@
                            &&& f.view_of().current == 0
                            &&& f.view_of().sessions.len() == 0
                            &&& f.view_of().lang == lang_wanted(req@.lang, self.default_lang())
                            &&& f.view_of().arch_lower == spec_to_lowercase(wanted(req@.arch, self.default_arch()))
                            &&& f.view_of().target_dir == req@.target_dir
                            &&& f.view_of().org_id == self.ms().0
                            &&& f.view_of().profile_id == self.ms().1
                            &&& f.view_of().instance_id == self.ms().2
                            &&& a@ == ActionView::Get(spec_tags_url(self.ms().0, f.session_of()))
                            &&& f.pending_of() == spec_tags_url(self.ms().0, f.session_of())
                        }
                    }
                },
            },
    {
        let version = self.find_version(req.system.as_str())?;
        let rel_opt: Option<&str> = match &req.release {
            Some(x) => Some(x.as_str()),
            None => None,
        };
        assert(opt_str(rel_opt) == req@.release);
        let release = self.find_release(version, rel_opt)?;
        let ed_opt: Option<&str> = match &req.edition {
            Some(x) => Some(x.as_str()),
            None => None,
        };
        assert(opt_str(ed_opt) == req@.edition);
        let edition = self.find_edition(release, ed_opt)?;
        if edition.product_edition_id.len() == 0 {
            let mut m = String::from_str("no languages returned for ");
            m.append(version.name.as_str());
            m.append(" / ");
            m.append(release.release.as_str());
            m.append(" / ");
            m.append(edition.name.as_str());
            return Err(Error::NotFound(m));
        }
        let lang: String = match &req.lang {
            Some(l) => if l.unicode_len() > 0 { l.clone() } else { self.ctx.config.default_lang.clone() },
            None => self.ctx.config.default_lang.clone(),
        };
        let arch: &str = match &req.arch {
            Some(a) => a.as_str(),
            None => self.ctx.config.default_arch.as_str(),
        };
        let arch_lower = to_lowercase(arch);
        let mut peids: Vec<u64> = Vec::new();
        let mut k: usize = 0;
        while k < edition.product_edition_id.len()
            invariant
                k <= edition.product_edition_id@.len(),
                peids@ == edition.product_edition_id@.subrange(0, k as int),
            decreases edition.product_edition_id.len() - k,
        {
            peids.push(edition.product_edition_id[k]);
            k += 1;
            assert(peids@ =~= edition.product_edition_id@.subrange(0, k as int));
        }
        assert(peids@ =~= edition.product_edition_id@);
        let mut flow = WindowsFlow {
            version_name: version.name.clone(),
            version_slug: version.slug.clone(),
            release_name: release.release.clone(),
            edition_name: edition.name.clone(),
            peids,
            lang,
            arch_lower,
            target_dir: req.target_dir.clone(),
            org_id: self.ctx.config.ms.org_id.clone(),
            profile_id: self.ctx.config.ms.profile_id.clone(),
            instance_id: self.ctx.config.ms.instance_id.clone(),
            phase: Phase::Tags,
            current: 0,
            session: String::new(),
            pending: String::new(),
            mdt: 0,
            skus: Vec::new(),
            sessions: Vec::new(),
            chosen: 0,
            next_sku: 0,
            options: Vec::new(),
        };
        proof {
            assert(flow.view_of().sessions =~= Seq::<(u64, Seq<char>)>::empty());
            assert(flow.options_of() =~= Seq::<(u8, Seq<char>)>::empty());
        }
        let a = flow.begin_session();
        Ok((flow, a))
    }
}

} // verus!
