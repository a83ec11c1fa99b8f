//! The build orchestrator's decisions: which previews a page gets, where
//! each page is written, in which order pages come, and the navigation.
use vstd::prelude::*;
use vstd::string::StringExecFns;

use crate::codeblock::{BlockMode, CodeBlock, Language};
use crate::inline::{element_text, inline_of, parse_inline_jsx, to_custom_element};
use crate::parser::{ParsedDoc};
use crate::paths::{file_name, parent, split_path, stem};
use crate::react::{structure_of, transformed, BlockV, ReactAdapter, TransformContext, TransformedBlock};
use crate::registry::{find_key, ComponentRegistry};
use crate::templates::{Context, NavItem, TocEntry};
use pulldown_cmark::Options as O;

use crate::text::{
    at, at_exec, lemma_scan, lower_of, not_char, push_str, scan, scan_until, scan_ws, str_eq, to_lower,
    trim_range, trimmed, wsp,
};

verus! {

/// What the live blocks of one page turn into.
pub struct PageTransform {
    /// Custom-element modules the page includes, each once.
    pub web_components: Vec<TransformedBlock>,
    /// Case-folded names of the registry components generated, in order.
    pub generated: Vec<String>,
    /// Block identifier and the custom-element markup that replaces it.
    pub replacements: Vec<(String, String)>,
    /// Number of live blocks that became previews.
    pub components: usize,
}

pub struct TransformV {
    pub web: Seq<BlockV>,
    pub generated: Seq<Seq<char>>,
    pub replacements: Seq<(Seq<char>, Seq<char>)>,
    pub count: nat,
}

/// The tag a registry component is previewed under.
pub open spec fn usage_tag(key: Seq<char>) -> Seq<char> {
    key + "-preview"@
}

/// The tag a block that defines a component is previewed under.
pub open spec fn block_tag(id: Seq<char>) -> Seq<char> {
    "preview-"@ + id
}

/// The block is a live TSX or JSX block.
pub open spec fn live(b: CodeBlock) -> bool {
    b.mode == BlockMode::Live && (b.language == Language::Tsx || b.language == Language::Jsx)
}

/// One block's effect. A usage of a registered component renders as that
/// component's element, generating its module the first time the page uses
/// it; a block that is no usage is transformed as a component of its own;
/// anything else stays plain source.
pub open spec fn page_step(t: TransformV, b: CodeBlock, reg: ComponentRegistry) -> TransformV {
    if !live(b) {
        t
    } else {
        match inline_of(b.source@) {
            Some(j) => {
                let key = lower_of(j.component);
                let pos = find_key(reg.index(), key);
                if pos < 0 {
                    t
                } else {
                    let tag = usage_tag(key);
                    let t2 = if t.generated.contains(key) {
                        t
                    } else {
                        TransformV {
                            web: t.web.push(transformed(tag, reg.index()[pos].1.structure@)),
                            generated: t.generated.push(key),
                            ..t
                        }
                    };
                    TransformV {
                        replacements: t2.replacements.push((b.id@, element_text(j, tag))),
                        count: t2.count + 1,
                        ..t2
                    }
                }
            },
            None => match structure_of(b.source@) {
                Some(st) => TransformV {
                    web: t.web.push(transformed(block_tag(b.id@), st)),
                    count: t.count + 1,
                    ..t
                },
                None => t,
            },
        }
    }
}

/// The effect of the first `n` blocks.
pub open spec fn page_fold(blocks: Seq<CodeBlock>, n: int, reg: ComponentRegistry) -> TransformV
    decreases n,
{
    if n <= 0 {
        TransformV {
            web: Seq::empty(),
            generated: Seq::empty(),
            replacements: Seq::empty(),
            count: 0,
        }
    } else {
        page_step(page_fold(blocks, n - 1, reg), blocks[n - 1], reg)
    }
}

pub open spec fn transform_view(p: PageTransform) -> TransformV {
    TransformV {
        web: Seq::new(p.web_components@.len(), |i: int| p.web_components@[i]@),
        generated: Seq::new(p.generated@.len(), |i: int| p.generated@[i]@),
        replacements: Seq::new(
            p.replacements@.len(),
            |i: int| (p.replacements@[i].0@, p.replacements@[i].1@),
        ),
        count: p.components as nat,
    }
}

/// No name occurs twice.
pub open spec fn distinct(s: Seq<Seq<char>>) -> bool {
    forall|i: int, j: int| 0 <= i < j < s.len() ==> s[i] != s[j]
}

/// A page generates each registry component's module at most once, however
/// many of its blocks use that component.
pub proof fn lemma_generated_once(blocks: Seq<CodeBlock>, n: int, reg: ComponentRegistry)
    requires
        0 <= n <= blocks.len(),
    ensures
        distinct(page_fold(blocks, n, reg).generated),
    decreases n,
{
    if n > 0 {
        lemma_generated_once(blocks, n - 1, reg);
        let t = page_fold(blocks, n - 1, reg);
        let g = page_fold(blocks, n, reg).generated;
        assert forall|i: int, j: int| 0 <= i < j < g.len() implies g[i] != g[j] by {
            if j == t.generated.len() {
                assert(g[i] == t.generated[i]);
                assert(t.generated.contains(t.generated[i]));
            }
        }
    }
}

fn contains_name(v: &Vec<String>, k: &str) -> (r: bool)
    ensures
        r == Seq::new(v@.len(), |i: int| v@[i]@).contains(k@),
{
    let ghost s = Seq::new(v@.len(), |i: int| v@[i]@);
    let mut i: usize = 0;
    while i < v.len()
        invariant
            0 <= i <= v@.len(),
            s == Seq::new(v@.len(), |i: int| v@[i]@),
            forall|j: int| 0 <= j < i ==> s[j] != k@,
        decreases v@.len() - i,
    {
        if str_eq(v[i].as_str(), k) {
            assert(s[i as int] == k@);
            return true;
        }
        i += 1;
    }
    false
}

/// Turn a page's live blocks into previews.
#[verifier::rlimit(60)]
pub fn transform_page(blocks: &Vec<CodeBlock>, registry: &ComponentRegistry) -> (r: PageTransform)
    ensures
        transform_view(r) == page_fold(blocks@, blocks@.len() as int, *registry),
{
    let mut out = PageTransform {
        web_components: Vec::new(),
        generated: Vec::new(),
        replacements: Vec::new(),
        components: 0,
    };
    let adapter = ReactAdapter::new();
    let ctx = TransformContext { import_map: Vec::new() };
    assert(transform_view(out).web =~= page_fold(blocks@, 0, *registry).web);
    assert(transform_view(out).generated =~= page_fold(blocks@, 0, *registry).generated);
    assert(transform_view(out).replacements =~= page_fold(blocks@, 0, *registry).replacements);
    let mut i: usize = 0;
    while i < blocks.len()
        invariant
            0 <= i <= blocks@.len(),
            transform_view(out) == page_fold(blocks@, i as int, *registry),
            out.components <= i,
        decreases blocks@.len() - i,
    {
        let b = &blocks[i];
        let ghost t0 = transform_view(out);
        if b.is_live() {
            match parse_inline_jsx(b.source.as_str()) {
                Some(jsx) => {
                    if registry.contains(jsx.component.as_str()) {
                        let key = to_lower(jsx.component.as_str());
                        let mut tag = to_lower(jsx.component.as_str());
                        push_str(&mut tag, "-preview");
                        if !contains_name(&out.generated, key.as_str()) {
                            match registry.generate_web_component(jsx.component.as_str(), tag.as_str()) {
                                Ok(w) => {
                                    out.web_components.push(w);
                                    out.generated.push(key);
                                },
                                Err(_) => {},
                            }
                        }
                        let html = to_custom_element(&jsx, tag.as_str());
                        out.replacements.push((b.id.clone(), html));
                        out.components = out.components + 1;
                    }
                },
                None => {
                    let mut tag = String::from_str("preview-");
                    push_str(&mut tag, b.id.as_str());
                    match adapter.transform(b.source.as_str(), tag.as_str(), &ctx) {
                        Ok(w) => {
                            out.web_components.push(w);
                            out.components = out.components + 1;
                        },
                        Err(_) => {},
                    }
                },
            }
        }
        proof {
            let e = page_step(t0, blocks@[i as int], *registry);
            assert(transform_view(out).web =~= e.web);
            assert(transform_view(out).generated =~= e.generated);
            assert(transform_view(out).replacements =~= e.replacements);
        }
        i += 1;
    }
    out
}

/// Where a page is written, relative to the output directory: the slug's
/// directory when it has one, else `index.html` beside an `index` page and
/// `<stem>/index.html` for any other.
pub open spec fn output_rel(relative: Seq<char>, slug: Option<Seq<char>>) -> Seq<char> {
    match slug {
        Some(s) => s + "/index.html"@,
        None => {
            let dir = parent(relative);
            let st = stem(file_name(relative));
            let prefix = if dir.len() == 0 {
                Seq::empty()
            } else {
                dir + "/"@
            };
            if st == "index"@ {
                prefix + "index.html"@
            } else {
                prefix + st + "/index.html"@
            }
        },
    }
}

/// The output path of a page, relative to the output directory.
pub fn calculate_output_path(relative: &str, slug: Option<&str>) -> (r: String)
    ensures
        r@ == output_rel(
            relative@,
            match slug {
                Some(s) => Some(s@),
                None => None,
            },
        ),
{
    match slug {
        Some(s) => {
            let mut out = String::from_str(s);
            push_str(&mut out, "/index.html");
            out
        },
        None => {
            let (dir, _, st, _) = split_path(relative);
            let mut out = String::new();
            if !dir.as_str().is_empty() {
                push_str(&mut out, dir.as_str());
                push_str(&mut out, "/");
            }
            if !str_eq(st.as_str(), "index") {
                push_str(&mut out, st.as_str());
                push_str(&mut out, "/");
            }
            push_str(&mut out, "index.html");
            proof {
                reveal_strlit("/index.html");
                reveal_strlit("/");
                reveal_strlit("index.html");
            }
            assert(out@ =~= output_rel(relative@, None));
            out
        },
    }
}

/// The URL of the page written at `out_rel`: the base URL, then the
/// directory holding the file and a slash.
pub open spec fn page_url(base: Seq<char>, out_rel: Seq<char>) -> Seq<char> {
    let d = parent(out_rel);
    if d.len() == 0 {
        base
    } else {
        base + d + "/"@
    }
}

/// The URL of a page from its output path.
pub fn path_to_url(base_url: &str, out_rel: &str) -> (r: String)
    ensures
        r@ == page_url(base_url@, out_rel@),
{
    let (dir, _, _, _) = split_path(out_rel);
    let mut out = String::from_str(base_url);
    if !dir.as_str().is_empty() {
        push_str(&mut out, dir.as_str());
        push_str(&mut out, "/");
    }
    out
}

/// The sort key of a page: its order, 999 when it has none.
pub open spec fn order_key(orders: Seq<Option<i32>>, i: int) -> int {
    match orders[i] {
        Some(o) => o as int,
        None => 999,
    }
}

/// Page `a` comes before page `b`: lower key, or equal keys in discovery
/// order.
pub open spec fn before(orders: Seq<Option<i32>>, a: int, b: int) -> bool {
    order_key(orders, a) < order_key(orders, b) || (order_key(orders, a) == order_key(orders, b)
        && a < b)
}

fn key_exec(orders: &Vec<Option<i32>>, i: usize) -> (r: i64)
    requires
        i < orders@.len(),
    ensures
        r == order_key(orders@, i as int),
{
    match orders[i] {
        Some(o) => o as i64,
        None => 999,
    }
}

/// The order pages are listed in: by ascending order value (999 when none),
/// pages of equal value in discovery order.
pub fn page_order(orders: &Vec<Option<i32>>) -> (r: Vec<usize>)
    ensures
        r@.len() == orders@.len(),
        forall|i: int| 0 <= i < r@.len() ==> #[trigger] r@[i] < orders@.len(),
        forall|i: int, j: int|
            0 <= i < j < r@.len() ==> before(orders@, #[trigger] r@[i] as int, #[trigger] r@[j] as int),
{
    let mut r: Vec<usize> = Vec::new();
    let mut i: usize = 0;
    while i < orders.len()
        invariant
            0 <= i <= orders@.len(),
            r@.len() == i,
            forall|a: int| 0 <= a < r@.len() ==> #[trigger] r@[a] < i,
            forall|a: int, b: int|
                0 <= a < b < r@.len() ==> before(orders@, #[trigger] r@[a] as int, #[trigger] r@[b] as int),
        decreases orders@.len() - i,
    {
        let k = key_exec(orders, i);
        let mut pos = r.len();
        while pos > 0 && key_exec(orders, r[pos - 1]) > k
            invariant
                0 <= pos <= r@.len(),
                r@.len() == i,
                i < orders@.len(),
                k == order_key(orders@, i as int),
                forall|a: int| 0 <= a < r@.len() ==> #[trigger] r@[a] < i,
                forall|a: int| pos <= a < r@.len() ==> order_key(orders@, #[trigger] r@[a] as int) > k,
            decreases pos,
        {
            pos -= 1;
        }
        let ghost old_r = r@;
        r.insert(pos, i);
        assert forall|a: int, b: int|
            0 <= a < b < r@.len() implies before(orders@, #[trigger] r@[a] as int, #[trigger] r@[b] as int) by {
            if b == pos {
                assert(r@[a] == old_r[a]);
                assert(r@[a] < i);
                if pos > 0 {
                    assert(!(order_key(orders@, old_r[pos - 1] as int) > k));
                    if a < pos - 1 {
                        assert(before(orders@, old_r[a] as int, old_r[pos - 1] as int));
                    }
                }
            } else if a == pos {
                assert(r@[b] == old_r[b - 1]);
            } else if a < pos && b > pos {
                assert(r@[a] == old_r[a]);
                assert(r@[b] == old_r[b - 1]);
            } else if a > pos {
                assert(r@[a] == old_r[a - 1]);
                assert(r@[b] == old_r[b - 1]);
            } else {
                assert(r@[a] == old_r[a]);
                assert(r@[b] == old_r[b]);
            }
        }
        i += 1;
    }
    r
}

/// A page found under the documentation directory.
pub struct PageInfo {
    /// Where its source was read from.
    pub source_path: String,
    /// Its path under the documentation directory, `/`-separated.
    pub relative_path: String,
    /// Where it is written, relative to the output directory.
    pub output_path: String,
    pub doc: ParsedDoc,
}

/// A page as the navigation sees it: title, directory, URL, and whether it
/// is listed.
pub struct NavPageV {
    pub title: Seq<char>,
    pub dir: Seq<char>,
    pub url: Seq<char>,
    pub listed: bool,
}

/// The navigation view of a page: the header's title (the file stem when
/// there is no header) and its `nav` flag (listed when there is no header).
pub open spec fn nav_page(p: PageInfo, base: Seq<char>) -> NavPageV {
    NavPageV {
        title: match p.doc.frontmatter {
            Some(f) => f.title@,
            None => stem(file_name(p.relative_path@)),
        },
        dir: parent(p.relative_path@),
        url: page_url(base, p.output_path@),
        listed: match p.doc.frontmatter {
            Some(f) => f.nav,
            None => true,
        },
    }
}

/// (title, url) of the listed pages among the first `n` whose directory is
/// `d`, in order.
pub open spec fn listed_in(pages: Seq<NavPageV>, n: int, d: Seq<char>) -> Seq<(Seq<char>, Seq<char>)>
    decreases n,
{
    if n <= 0 {
        Seq::empty()
    } else {
        let p = pages[n - 1];
        let prev = listed_in(pages, n - 1, d);
        if p.listed && p.dir == d {
            prev.push((p.title, p.url))
        } else {
            prev
        }
    }
}

/// The directories, other than the root, of the listed pages among the
/// first `n`, in order of first appearance.
pub open spec fn dirs_in(pages: Seq<NavPageV>, n: int) -> Seq<Seq<char>>
    decreases n,
{
    if n <= 0 {
        Seq::empty()
    } else {
        let p = pages[n - 1];
        let prev = dirs_in(pages, n - 1);
        if p.listed && p.dir.len() > 0 && !prev.contains(p.dir) {
            prev.push(p.dir)
        } else {
            prev
        }
    }
}

/// `s` with its first character upper-cased.
pub open spec fn capitalized(s: Seq<char>) -> Seq<char> {
    if s.len() == 0 {
        Seq::empty()
    } else {
        crate::text::upper_of(s[0]) + s.drop_first()
    }
}

/// Capitalize the first letter of a string.
pub fn capitalize(s: &str) -> (r: String)
    ensures
        r@ == capitalized(s@),
{
    let v = crate::text::chars_of(s);
    if v.len() == 0 {
        return String::new();
    }
    let mut out = crate::text::char_upper(v[0]);
    crate::text::push_range(&mut out, &v, 1, v.len());
    assert(v@.subrange(1, v@.len() as int) =~= v@.drop_first());
    out
}

/// A leaf navigation entry.
pub open spec fn leaf(item: NavItem, title: Seq<char>, url: Seq<char>) -> bool {
    item.title@ == title && item.path@ == url && item.children@.len() == 0 && !item.active
}

fn nav_page_exec(p: &PageInfo, base_url: &str) -> (r: (String, String, String, bool))
    ensures
        r.0@ == nav_page(*p, base_url@).title,
        r.1@ == nav_page(*p, base_url@).dir,
        r.2@ == nav_page(*p, base_url@).url,
        r.3 == nav_page(*p, base_url@).listed,
{
    let (dir, _, st, _) = split_path(p.relative_path.as_str());
    let url = path_to_url(base_url, p.output_path.as_str());
    match &p.doc.frontmatter {
        Some(f) => (f.title.clone(), dir, url, f.nav),
        None => (st, dir, url, true),
    }
}

/// The navigation: listed pages of the root directory as entries, then one
/// entry per other directory, in order of first appearance, titled with its
/// capitalized last component and holding that directory's pages.
#[verifier::rlimit(60)]
pub fn build_navigation(pages: &Vec<PageInfo>, base_url: &str) -> (r: Vec<NavItem>)
    ensures
        ({
            let np = Seq::new(pages@.len(), |i: int| nav_page(pages@[i], base_url@));
            let roots = listed_in(np, np.len() as int, Seq::empty());
            let dirs = dirs_in(np, np.len() as int);
            &&& r@.len() == roots.len() + dirs.len()
            &&& forall|i: int| 0 <= i < roots.len() ==> leaf(#[trigger] r@[i], roots[i].0, roots[i].1)
            &&& forall|g: int|
                0 <= g < dirs.len() ==> {
                    let item = #[trigger] r@[roots.len() + g];
                    let kids = listed_in(np, np.len() as int, dirs[g]);
                    &&& item.title@ == capitalized(file_name(dirs[g]))
                    &&& item.path@ == base_url@ + dirs[g] + "/"@
                    &&& !item.active
                    &&& item.children@.len() == kids.len()
                    &&& forall|k: int|
                        0 <= k < kids.len() ==> leaf(#[trigger] item.children@[k], kids[k].0, kids[k].1)
                }
        }),
{
    let ghost np = Seq::new(pages@.len(), |i: int| nav_page(pages@[i], base_url@));
    let n = pages.len();
    let mut infos: Vec<(String, String, String, bool)> = Vec::new();
    let mut i: usize = 0;
    while i < n
        invariant
            0 <= i <= n == pages@.len(),
            np == Seq::new(pages@.len(), |i: int| nav_page(pages@[i], base_url@)),
            infos@.len() == i,
            forall|j: int|
                0 <= j < i ==> (#[trigger] infos@[j]).0@ == np[j].title && infos@[j].1@ == np[j].dir
                    && infos@[j].2@ == np[j].url && infos@[j].3 == np[j].listed,
        decreases n - i,
    {
        infos.push(nav_page_exec(&pages[i], base_url));
        i += 1;
    }
    let mut nav: Vec<NavItem> = Vec::new();
    let mut dirs: Vec<String> = Vec::new();
    let mut i: usize = 0;
    while i < n
        invariant
            0 <= i <= n == pages@.len() == infos@.len() == np.len(),
            forall|j: int|
                0 <= j < n ==> (#[trigger] infos@[j]).0@ == np[j].title && infos@[j].1@ == np[j].dir
                    && infos@[j].2@ == np[j].url && infos@[j].3 == np[j].listed,
            nav@.len() == listed_in(np, i as int, Seq::empty()).len(),
            forall|k: int|
                0 <= k < nav@.len() ==> leaf(
                    #[trigger] nav@[k],
                    listed_in(np, i as int, Seq::empty())[k].0,
                    listed_in(np, i as int, Seq::empty())[k].1,
                ),
            Seq::new(dirs@.len(), |k: int| dirs@[k]@) == dirs_in(np, i as int),
        decreases n - i,
    {
        let ghost prev_roots = listed_in(np, i as int, Seq::empty());
        let ghost prev_dirs = dirs_in(np, i as int);
        if infos[i].3 && infos[i].1.as_str().is_empty() {
            nav.push(NavItem {
                title: infos[i].0.clone(),
                path: infos[i].2.clone(),
                children: Vec::new(),
                active: false,
            });
        }
        if infos[i].3 && !infos[i].1.as_str().is_empty() && !contains_name(&dirs, infos[i].1.as_str()) {
            dirs.push(infos[i].1.clone());
        }
        proof {
            assert(infos@[i as int].1@ == np[i as int].dir);
            assert(Seq::new(dirs@.len(), |k: int| dirs@[k]@) =~= dirs_in(np, i + 1));
            if np[i as int].listed && np[i as int].dir.len() == 0 {
                assert(np[i as int].dir =~= Seq::<char>::empty());
            }
            assert forall|k: int| 0 <= k < nav@.len() implies leaf(
                #[trigger] nav@[k],
                listed_in(np, i + 1, Seq::empty())[k].0,
                listed_in(np, i + 1, Seq::empty())[k].1,
            ) by {
                if k < prev_roots.len() {
                    assert(listed_in(np, i + 1, Seq::empty())[k] == prev_roots[k]);
                }
            }
        }
        i += 1;
    }
    let roots_len = nav.len();
    let mut g: usize = 0;
    while g < dirs.len()
        invariant
            0 <= g <= dirs@.len(),
            n == pages@.len() == infos@.len() == np.len(),
            forall|j: int|
                0 <= j < n ==> (#[trigger] infos@[j]).0@ == np[j].title && infos@[j].1@ == np[j].dir
                    && infos@[j].2@ == np[j].url && infos@[j].3 == np[j].listed,
            roots_len == listed_in(np, n as int, Seq::empty()).len(),
            Seq::new(dirs@.len(), |k: int| dirs@[k]@) == dirs_in(np, n as int),
            nav@.len() == roots_len + g,
            forall|k: int|
                0 <= k < roots_len ==> leaf(
                    #[trigger] nav@[k],
                    listed_in(np, n as int, Seq::empty())[k].0,
                    listed_in(np, n as int, Seq::empty())[k].1,
                ),
            forall|h: int|
                0 <= h < g ==> {
                    let item = #[trigger] nav@[roots_len + h];
                    let kids = listed_in(np, n as int, dirs@[h]@);
                    &&& item.title@ == capitalized(file_name(dirs@[h]@))
                    &&& item.path@ == base_url@ + dirs@[h]@ + "/"@
                    &&& !item.active
                    &&& item.children@.len() == kids.len()
                    &&& forall|k: int|
                        0 <= k < kids.len() ==> leaf(#[trigger] item.children@[k], kids[k].0, kids[k].1)
                },
        decreases dirs@.len() - g,
    {
        let d = dirs[g].as_str();
        let mut children: Vec<NavItem> = Vec::new();
        let mut j: usize = 0;
        while j < n
            invariant
                0 <= j <= n == infos@.len() == np.len(),
                forall|t: int|
                    0 <= t < n ==> (#[trigger] infos@[t]).0@ == np[t].title && infos@[t].1@ == np[t].dir
                        && infos@[t].2@ == np[t].url && infos@[t].3 == np[t].listed,
                children@.len() == listed_in(np, j as int, d@).len(),
                forall|k: int|
                    0 <= k < children@.len() ==> leaf(
                        #[trigger] children@[k],
                        listed_in(np, j as int, d@)[k].0,
                        listed_in(np, j as int, d@)[k].1,
                    ),
            decreases n - j,
        {
            let ghost prev = listed_in(np, j as int, d@);
            if infos[j].3 && str_eq(infos[j].1.as_str(), d) {
                children.push(NavItem {
                    title: infos[j].0.clone(),
                    path: infos[j].2.clone(),
                    children: Vec::new(),
                    active: false,
                });
            }
            proof {
                assert forall|k: int| 0 <= k < children@.len() implies leaf(
                    #[trigger] children@[k],
                    listed_in(np, j + 1, d@)[k].0,
                    listed_in(np, j + 1, d@)[k].1,
                ) by {
                    if k < prev.len() {
                        assert(listed_in(np, j + 1, d@)[k] == prev[k]);
                    }
                }
            }
            j += 1;
        }
        let (_, last, _, _) = split_path(d);
        let mut path = String::from_str(base_url);
        push_str(&mut path, d);
        push_str(&mut path, "/");
        let ghost dv = d@;
        nav.push(NavItem { title: capitalize(last.as_str()), path, children, active: false });
        proof {
            assert(dirs@[g as int]@ == dv);
            assert(Seq::new(dirs@.len(), |k: int| dirs@[k]@)[g as int] == dv);
        }
        g += 1;
    }
    proof {
        let dirs_s = dirs_in(np, n as int);
        assert forall|h: int| 0 <= h < dirs_s.len() implies dirs_s[h] == dirs@[h]@ by {
            assert(Seq::new(dirs@.len(), |k: int| dirs@[k]@)[h] == dirs@[h]@);
        }
    }
    nav
}

pub open spec fn lower_p() -> spec_fn(char) -> bool {
    |c: char| crate::text::is_lower(c)
}

/// A live fence whose code is `src` starts at `i`: three backticks, a
/// lower-case language, white space, `live`, the rest of that line, `src`,
/// an optional new line and three backticks. Returns where it ends, or -1.
pub open spec fn fence_at(s: Seq<char>, i: int, src: Seq<char>) -> int {
    let n = s.len() as int;
    let b = scan(s, i + 3, n, lower_p());
    let c = scan(s, b, n, wsp());
    let d = scan(s, c + 4, n, not_char('\n'));
    let f = d + 1 + src.len();
    if at(s, i, "```"@) && b > i + 3 && c > b && at(s, c, "live"@) && d < n && at(s, d + 1, src) {
        if f < n && s[f] == '\n' && at(s, f + 1, "```"@) {
            f + 4
        } else if at(s, f, "```"@) {
            f + 3
        } else {
            -1
        }
    } else {
        -1
    }
}

/// The first live fence of `src` at or after `i`: (start, end).
pub open spec fn first_fence(s: Seq<char>, src: Seq<char>, i: int) -> Option<(int, int)>
    decreases s.len() - i,
{
    if i < 0 || i >= s.len() {
        None
    } else if fence_at(s, i, src) >= 0 {
        Some((i, fence_at(s, i, src)))
    } else {
        first_fence(s, src, i + 1)
    }
}

fn fence_at_exec(v: &Vec<char>, i: usize, src: &Vec<char>) -> (r: Option<usize>)
    requires
        i < v@.len(),
    ensures
        r matches Some(e) ==> fence_at(v@, i as int, src@) == e && i < e <= v@.len(),
        r is None ==> fence_at(v@, i as int, src@) < 0,
{
    let n = v.len();
    proof {
        reveal_strlit("```");
        reveal_strlit("live");
    }
    if !at_exec(v, i, "```") {
        return None;
    }
    proof {
        lemma_scan(v@, i + 3, n as int, lower_p());
    }
    let mut b = i + 3;
    while b < n && 0x61 <= v[b] as u32 && v[b] as u32 <= 0x7A
        invariant
            i + 3 <= b <= n == v@.len(),
            scan(v@, b as int, n as int, lower_p()) == scan(v@, i + 3, n as int, lower_p()),
        decreases n - b,
    {
        b += 1;
    }
    let c = scan_ws(v, b, n);
    if !(b > i + 3 && c > b && at_exec(v, c, "live")) {
        return None;
    }
    let d = scan_until(v, c + 4, n, '\n');
    if d >= n {
        return None;
    }
    if !(src.len() <= n - d - 1 && at_vec(v, d + 1, src)) {
        return None;
    }
    let f = d + 1 + src.len();
    if f < n && v[f] == '\n' && at_exec(v, f + 1, "```") {
        Some(f + 4)
    } else if at_exec(v, f, "```") {
        Some(f + 3)
    } else {
        None
    }
}

/// `pat` occurs in `s` at `i`.
fn at_vec(s: &Vec<char>, i: usize, pat: &Vec<char>) -> (r: bool)
    ensures
        r == at(s@, i as int, pat@),
{
    if pat.len() > s.len() || i > s.len() - pat.len() {
        return false;
    }
    let mut k: usize = 0;
    while k < pat.len()
        invariant
            0 <= k <= pat@.len(),
            i + pat@.len() <= s@.len(),
            s@.len() <= usize::MAX,
            forall|j: int| 0 <= j < k ==> s@[i + j] == pat@[j],
        decreases pat@.len() - k,
    {
        if s[i + k] != pat[k] {
            assert(s@.subrange(i as int, i + pat@.len())[k as int] != pat@[k as int]);
            return false;
        }
        k += 1;
    }
    assert(s@.subrange(i as int, i + pat@.len()) =~= pat@);
    true
}

/// The preview that replaces a live fence: the element in a container, then
/// the code again as a fence.
pub open spec fn preview_text(html: Seq<char>, lang: Seq<char>, src: Seq<char>) -> Seq<char> {
    "<div class=\"preview-container\">"@ + html + "</div>\n\n```"@ + lang + "\n"@ + src + "\n```"@
}

/// The fence language a preview repeats the code under.
pub open spec fn fence_lang(l: Language) -> Seq<char> {
    if l == Language::Jsx {
        "jsx"@
    } else {
        "tsx"@
    }
}

/// The replacement recorded for block `id`, the first one if several.
pub open spec fn replacement_for(reps: Seq<(Seq<char>, Seq<char>)>, id: Seq<char>, n: int) -> Option<Seq<char>>
    decreases n,
{
    if n <= 0 {
        None
    } else {
        match replacement_for(reps, id, n - 1) {
            Some(h) => Some(h),
            None => if reps[n - 1].0 == id {
                Some(reps[n - 1].1)
            } else {
                None
            },
        }
    }
}

/// `content` after the first `n` blocks: each live block with a replacement
/// has the first live fence holding its trimmed code replaced by its
/// preview.
pub open spec fn substituted(content: Seq<char>, blocks: Seq<CodeBlock>, reps: Seq<(Seq<char>, Seq<char>)>, n: int) -> Seq<char>
    decreases n,
{
    if n <= 0 {
        content
    } else {
        let prev = substituted(content, blocks, reps, n - 1);
        let b = blocks[n - 1];
        let src = trimmed(b.source@, 0, b.source@.len() as int);
        match replacement_for(reps, b.id@, reps.len() as int) {
            Some(html) => if live(b) {
                match first_fence(prev, src, 0) {
                    Some(f) => prev.subrange(0, f.0) + preview_text(html, fence_lang(b.language), src)
                        + prev.subrange(f.1, prev.len() as int),
                    None => prev,
                }
            } else {
                prev
            },
            None => prev,
        }
    }
}

fn replacement_exec(reps: &Vec<(String, String)>, id: &str) -> (r: Option<usize>)
    ensures
        r matches Some(k) ==> k < reps@.len() && replacement_for(
            Seq::new(reps@.len(), |i: int| (reps@[i].0@, reps@[i].1@)),
            id@,
            reps@.len() as int,
        ) == Some(reps@[k as int].1@),
        r is None ==> replacement_for(
            Seq::new(reps@.len(), |i: int| (reps@[i].0@, reps@[i].1@)),
            id@,
            reps@.len() as int,
        ) is None,
{
    let ghost rs = Seq::new(reps@.len(), |i: int| (reps@[i].0@, reps@[i].1@));
    let mut k: usize = 0;
    while k < reps.len()
        invariant
            0 <= k <= reps@.len(),
            rs == Seq::new(reps@.len(), |i: int| (reps@[i].0@, reps@[i].1@)),
            replacement_for(rs, id@, k as int) is None,
        decreases reps@.len() - k,
    {
        if str_eq(reps[k].0.as_str(), id) {
            proof {
                lemma_replacement_stable(rs, id@, k + 1, reps@.len() as int);
            }
            return Some(k);
        }
        k += 1;
    }
    None
}

proof fn lemma_replacement_stable(reps: Seq<(Seq<char>, Seq<char>)>, id: Seq<char>, a: int, b: int)
    requires
        0 <= a <= b <= reps.len(),
        replacement_for(reps, id, a) is Some,
    ensures
        replacement_for(reps, id, b) == replacement_for(reps, id, a),
    decreases b - a,
{
    if a < b {
        lemma_replacement_stable(reps, id, a, b - 1);
    }
}

/// Put each transformed block's preview in place of its fence.
#[verifier::rlimit(60)]
pub fn substitute_previews(content: &str, blocks: &Vec<CodeBlock>, replacements: &Vec<(String, String)>) -> (r: String)
    ensures
        r@ == substituted(
            content@,
            blocks@,
            Seq::new(replacements@.len(), |i: int| (replacements@[i].0@, replacements@[i].1@)),
            blocks@.len() as int,
        ),
{
    let ghost rs = Seq::new(replacements@.len(), |i: int| (replacements@[i].0@, replacements@[i].1@));
    let mut cur = crate::text::chars_of(content);
    let mut i: usize = 0;
    while i < blocks.len()
        invariant
            0 <= i <= blocks@.len(),
            rs == Seq::new(replacements@.len(), |i: int| (replacements@[i].0@, replacements@[i].1@)),
            cur@ == substituted(content@, blocks@, rs, i as int),
        decreases blocks@.len() - i,
    {
        let b = &blocks[i];
        match replacement_exec(replacements, b.id.as_str()) {
            Some(k) => {
                if b.is_live() {
                    let all = crate::text::chars_of(b.source.as_str());
                    let (x, y) = trim_range(&all, 0, all.len());
                    let mut src: Vec<char> = Vec::new();
                    let mut t = x;
                    while t < y
                        invariant
                            x <= t <= y <= all@.len(),
                            src@ == all@.subrange(x as int, t as int),
                        decreases y - t,
                    {
                        src.push(all[t]);
                        t += 1;
                        assert(src@ =~= all@.subrange(x as int, t as int));
                    }
                    let n = cur.len();
                    let mut s: usize = 0;
                    let mut found: Option<(usize, usize)> = None;
                    while s < n && found.is_none()
                        invariant
                            0 <= s <= n == cur@.len(),
                            found is None ==> first_fence(cur@, src@, s as int) == first_fence(cur@, src@, 0),
                            found matches Some(f) ==> first_fence(cur@, src@, 0) == Some((f.0 as int, f.1 as int)) && f.0 < f.1 <= n,
                        decreases n - s + (if found is None { 1int } else { 0int }),
                    {
                        match fence_at_exec(&cur, s, &src) {
                            Some(e) => {
                                found = Some((s, e));
                            },
                            None => {
                                s += 1;
                            },
                        }
                    }
                    match found {
                        Some((fs, fe)) => {
                            let mut next = String::new();
                            crate::text::push_range(&mut next, &cur, 0, fs);
                            push_str(&mut next, "<div class=\"preview-container\">");
                            push_str(&mut next, replacements[k].1.as_str());
                            push_str(&mut next, "</div>\n\n```");
                            if b.language == Language::Jsx {
                                push_str(&mut next, "jsx");
                            } else {
                                push_str(&mut next, "tsx");
                            }
                            push_str(&mut next, "\n");
                            crate::text::push_range(&mut next, &src, 0, src.len());
                            push_str(&mut next, "\n```");
                            crate::text::push_range(&mut next, &cur, fe, n);
                            proof {
                                assert(src@.subrange(0, src@.len() as int) =~= src@);
                                assert(next@ =~= substituted(content@, blocks@, rs, i + 1));
                            }
                            cur = crate::text::chars_of(next.as_str());
                        },
                        None => {},
                    }
                }
            },
            None => {},
        }
        i += 1;
    }
    let n = cur.len();
    assert(cur@.subrange(0, n as int) =~= cur@);
    crate::text::string_from(&cur, 0, n)
}

/// The markup CommonMark (tables, footnotes, strike-through, task lists)
/// renders a text to.
pub uninterp spec fn html_of(s: Seq<char>) -> Seq<char>;

/// Relies on `pulldown_cmark::html::push_html`: the markup of the parsed
/// text.
#[verifier::external_body]
fn markdown_to_html(s: &str) -> (r: String)
    ensures
        r@ == html_of(s@),
{
    let opts = O::ENABLE_TABLES | O::ENABLE_FOOTNOTES | O::ENABLE_STRIKETHROUGH | O::ENABLE_TASKLISTS;
    let mut out = String::new();
    pulldown_cmark::html::push_html(&mut out, pulldown_cmark::Parser::new_ext(s, opts));
    out
}

/// Render a page's body to markup, each transformed live block shown as its
/// preview followed by its code.
pub fn render_markdown(content: &str, blocks: &Vec<CodeBlock>, replacements: &Vec<(String, String)>) -> (r: String)
    ensures
        r@ == html_of(
            substituted(
                content@,
                blocks@,
                Seq::new(replacements@.len(), |i: int| (replacements@[i].0@, replacements@[i].1@)),
                blocks@.len() as int,
            ),
        ),
{
    let body = substitute_previews(content, blocks, replacements);
    markdown_to_html(body.as_str())
}

/// Lines of `s` from `i` on (split at new lines, a trailing carriage return
/// dropped, no empty line after a final new line) that are neither headings
/// nor fences, added to `acc` until it holds ten.
pub open spec fn excerpt_lines(s: Seq<char>, i: int, acc: Seq<Seq<char>>) -> Seq<Seq<char>>
    decreases s.len() - i,
{
    if i < 0 || i >= s.len() || acc.len() >= 10 {
        acc
    } else {
        let le = scan(s, i, s.len() as int, not_char('\n'));
        let end = if le > i && s[le - 1] == '\r' {
            le - 1
        } else {
            le
        };
        let line = s.subrange(i, end);
        let keep = !(line.len() > 0 && line[0] == '#') && !at(line, 0, "```"@);
        let next = if keep {
            acc.push(line)
        } else {
            acc
        };
        if le < i || le >= s.len() {
            next
        } else {
            excerpt_lines(s, le + 1, next)
        }
    }
}

/// The text a page contributes to the search index: up to ten lines of its
/// body that are not headings or fences, joined by spaces.
pub open spec fn search_excerpt(s: Seq<char>) -> Seq<char> {
    crate::react::join_spaced(excerpt_lines(s, 0, Seq::empty()))
}

/// The search text of a page body.
pub fn search_text(content: &str) -> (r: String)
    ensures
        r@ == search_excerpt(content@),
{
    let v = crate::text::chars_of(content);
    let n = v.len();
    let mut out = String::new();
    let mut count: usize = 0;
    let ghost mut acc: Seq<Seq<char>> = Seq::empty();
    let mut i: usize = 0;
    proof {
        reveal_strlit("```");
    }
    while i < n && count < 10
        invariant
            0 <= i <= n == v@.len(),
            v@ == content@,
            count == acc.len(),
            out@ == crate::react::join_spaced(acc),
            excerpt_lines(v@, i as int, acc) == excerpt_lines(v@, 0, Seq::empty()),
        decreases n - i,
    {
        let le = scan_until(&v, i, n, '\n');
        let end = if le > i && v[le - 1] == '\r' {
            le - 1
        } else {
            le
        };
        let heading = end > i && v[i] == '#';
        let fence = end - i >= 3 && v[i] == '`' && v[i + 1] == '`' && v[i + 2] == '`';
        proof {
            reveal_strlit("```");
            let line = v@.subrange(i as int, end as int);
            if end - i >= 3 {
                assert("```"@.len() == 3 && "```"@[0] == '`' && "```"@[1] == '`' && "```"@[2] == '`');
                if line[0] == '`' && line[1] == '`' && line[2] == '`' {
                    assert(line.subrange(0, 3) =~= "```"@);
                }
                if at(line, 0, "```"@) {
                    assert(line.subrange(0, 3)[0] == line[0]);
                    assert(line.subrange(0, 3)[1] == line[1]);
                    assert(line.subrange(0, 3)[2] == line[2]);
                }
            }
        }
        if !heading && !fence {
            if count > 0 {
                push_str(&mut out, " ");
            }
            crate::text::push_range(&mut out, &v, i, end);
            proof {
                reveal_strlit(" ");
                let line = v@.subrange(i as int, end as int);
                let na = acc.push(line);
                assert(na.drop_last() =~= acc);
                assert(out@ =~= crate::react::join_spaced(na));
                acc = na;
            }
            count += 1;
        }
        if le >= n {
            i = n;
        } else {
            i = le + 1;
        }
    }
    out
}

/// The sitemap entry of a URL.
pub open spec fn sitemap_entry(base: Seq<char>, url: Seq<char>) -> Seq<char> {
    "  <url>\n    <loc>"@ + base + url + "</loc>\n  </url>"@
}

/// The entries of the first `n` URLs, joined by new lines.
pub open spec fn sitemap_entries(base: Seq<char>, urls: Seq<Seq<char>>, n: int) -> Seq<char>
    decreases n,
{
    if n <= 0 {
        Seq::empty()
    } else if n == 1 {
        sitemap_entry(base, urls[0])
    } else {
        sitemap_entries(base, urls, n - 1) + "\n"@ + sitemap_entry(base, urls[n - 1])
    }
}

pub open spec fn slash_p() -> spec_fn(char) -> bool {
    |c: char| c == '/'
}

/// The base URL without trailing slashes.
pub open spec fn site_root(base: Seq<char>) -> Seq<char> {
    base.subrange(0, crate::text::trim_end_by(base, 0, base.len() as int, slash_p()))
}

/// The XML sitemap listing `urls` under the base URL.
pub fn generate_sitemap(base_url: &str, urls: &Vec<String>) -> (r: String)
    ensures
        r@ == "<?xml version=\"1.0\" encoding=\"UTF-8\"?>\n<urlset xmlns=\"http://www.sitemaps.org/schemas/sitemap/0.9\">\n"@
            + sitemap_entries(
            site_root(base_url@),
            Seq::new(urls@.len(), |i: int| urls@[i]@),
            urls@.len() as int,
        ) + "\n</urlset>"@,
{
    let v = crate::text::chars_of(base_url);
    proof {
        crate::text::lemma_trim_end(v@, 0, v@.len() as int, slash_p());
    }
    let mut e = v.len();
    while e > 0 && v[e - 1] == '/'
        invariant
            e <= v@.len(),
            crate::text::trim_end_by(v@, 0, e as int, slash_p()) == crate::text::trim_end_by(
                v@,
                0,
                v@.len() as int,
                slash_p(),
            ),
        decreases e,
    {
        e -= 1;
    }
    let root = crate::text::string_from(&v, 0, e);
    let ghost us = Seq::new(urls@.len(), |i: int| urls@[i]@);
    let mut body = String::new();
    let mut i: usize = 0;
    while i < urls.len()
        invariant
            0 <= i <= urls@.len(),
            us == Seq::new(urls@.len(), |i: int| urls@[i]@),
            root@ == site_root(base_url@),
            body@ == sitemap_entries(root@, us, i as int),
        decreases urls@.len() - i,
    {
        if i > 0 {
            push_str(&mut body, "\n");
        }
        push_str(&mut body, "  <url>\n    <loc>");
        push_str(&mut body, root.as_str());
        push_str(&mut body, urls[i].as_str());
        push_str(&mut body, "</loc>\n  </url>");
        i += 1;
        assert(body@ =~= sitemap_entries(root@, us, i as int));
    }
    let mut out = String::from_str(
        "<?xml version=\"1.0\" encoding=\"UTF-8\"?>\n<urlset xmlns=\"http://www.sitemaps.org/schemas/sitemap/0.9\">\n",
    );
    push_str(&mut out, body.as_str());
    push_str(&mut out, "\n</urlset>");
    out
}

/// The robots file, pointing at the sitemap.
pub fn generate_robots(base_url: &str) -> (r: String)
    ensures
        r@ == "User-agent: *\nAllow: /\nSitemap: "@ + base_url@ + "sitemap.xml"@,
{
    let mut out = String::from_str("User-agent: *\nAllow: /\nSitemap: ");
    push_str(&mut out, base_url);
    push_str(&mut out, "sitemap.xml");
    out
}

/// The link a configured style sheet is served under: the base URL,
/// `assets/`, and the sheet's file name (`style.css` when it has none).
pub open spec fn style_link(base: Seq<char>, style: Seq<char>) -> Seq<char> {
    let name = file_name(style);
    base + "assets/"@ + if name.len() == 0 {
        "style.css"@
    } else {
        name
    }
}

/// The template context of a page: its header's title (`Untitled` without
/// one), its outline, the modules of its previews and the style links.
pub fn page_context(
    page: &PageInfo,
    site_title: &str,
    base_url: &str,
    styles: &Vec<String>,
    content: String,
    nav: Vec<NavItem>,
    transformed: &PageTransform,
) -> (r: Context)
    ensures
        r.title@ == match page.doc.frontmatter {
            Some(f) => f.title@,
            None => "Untitled"@,
        },
        r.site_title@ == site_title@,
        r.content == content,
        r.nav == nav,
        r.base_url@ == base_url@,
        r.toc@.len() == page.doc.toc@.len(),
        forall|i: int|
            0 <= i < r.toc@.len() ==> #[trigger] r.toc@[i].title@ == page.doc.toc@[i].title@
                && r.toc@[i].id@ == page.doc.toc@[i].id@ && r.toc@[i].level == page.doc.toc@[i].level,
        r.web_components@.len() == transformed.web_components@.len(),
        forall|i: int|
            0 <= i < r.web_components@.len() ==> #[trigger] r.web_components@[i]@
                == transformed.web_components@[i].web_component@,
        r.styles@.len() == styles@.len(),
        forall|i: int|
            0 <= i < r.styles@.len() ==> #[trigger] r.styles@[i]@ == style_link(base_url@, styles@[i]@),
{
    let title = match &page.doc.frontmatter {
        Some(f) => f.title.clone(),
        None => String::from_str("Untitled"),
    };
    let mut toc: Vec<TocEntry> = Vec::new();
    let mut i: usize = 0;
    while i < page.doc.toc.len()
        invariant
            0 <= i <= page.doc.toc@.len(),
            toc@.len() == i,
            forall|j: int|
                0 <= j < i ==> #[trigger] toc@[j].title@ == page.doc.toc@[j].title@ && toc@[j].id@
                    == page.doc.toc@[j].id@ && toc@[j].level == page.doc.toc@[j].level,
        decreases page.doc.toc@.len() - i,
    {
        let e = &page.doc.toc[i];
        toc.push(TocEntry { title: e.title.clone(), id: e.id.clone(), level: e.level });
        i += 1;
    }
    let mut web: Vec<String> = Vec::new();
    let mut k: usize = 0;
    while k < transformed.web_components.len()
        invariant
            0 <= k <= transformed.web_components@.len(),
            web@.len() == k,
            forall|j: int|
                0 <= j < k ==> #[trigger] web@[j]@ == transformed.web_components@[j].web_component@,
        decreases transformed.web_components@.len() - k,
    {
        web.push(transformed.web_components[k].web_component.clone());
        k += 1;
    }
    let mut links: Vec<String> = Vec::new();
    let mut m: usize = 0;
    while m < styles.len()
        invariant
            0 <= m <= styles@.len(),
            links@.len() == m,
            forall|j: int| 0 <= j < m ==> #[trigger] links@[j]@ == style_link(base_url@, styles@[j]@),
        decreases styles@.len() - m,
    {
        let (_, name, _, _) = split_path(styles[m].as_str());
        let mut link = String::from_str(base_url);
        push_str(&mut link, "assets/");
        if name.as_str().is_empty() {
            push_str(&mut link, "style.css");
        } else {
            push_str(&mut link, name.as_str());
        }
        links.push(link);
        m += 1;
    }
    Context {
        title,
        site_title: String::from_str(site_title),
        content,
        nav,
        toc,
        base_url: String::from_str(base_url),
        web_components: web,
        styles: links,
    }
}

} // verus!
