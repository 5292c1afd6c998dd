//! Detection of `<meta name=robots content=noindex>` in the `<head>` of an
//! HTML document, over a parse tree kept as an arena of nodes.
//!
//! A parser drives an [`HtmlSink`] through its tree-building calls; node
//! handles are indices into the arena, and the document is node 0.
use vstd::prelude::*;
use crate::text::str_eq;

verus! {

/// The name of an element, as the parser reports it.
pub struct ElemName {
    /// Whether the element is in the HTML namespace.
    pub html: bool,
    pub local: String,
}

/// An attribute, as the parser reports it.
pub struct Attribute {
    /// Whether the attribute has no namespace.
    pub plain: bool,
    pub local: String,
    pub value: String,
}

pub enum NodeKind {
    Element(ElemName),
    Document,
    Pi,
    Comment,
    DocumentFragment,
}

/// The outcome of scanning one HTML document.
pub struct HtmlMeta {
    pub no_index: bool,
}

/// Unicode `White_Space`, the characters that `str::trim` removes.
pub open spec fn is_white(c: char) -> bool {
    ('\t' <= c && c <= '\r') || c == ' ' || c == '\u{85}' || c == '\u{a0}' || c == '\u{1680}'
        || ('\u{2000}' <= c && c <= '\u{200a}') || c == '\u{2028}' || c == '\u{2029}'
        || c == '\u{202f}' || c == '\u{205f}' || c == '\u{3000}'
}

/// `c` equals the lower-case ASCII letter `w` up to ASCII case.
pub open spec fn same_letter(c: char, w: char) -> bool {
    c == w || (c as u32) + 32 == (w as u32)
}

pub open spec fn noindex_word() -> Seq<char> {
    seq!['n', 'o', 'i', 'n', 'd', 'e', 'x']
}

/// `f` is `noindex` up to ASCII case, starting at `a`, with only white
/// space around it.
pub open spec fn noindex_at(f: Seq<char>, a: int) -> bool {
    &&& 0 <= a && a + 7 <= f.len()
    &&& forall|i: int| 0 <= i < a ==> is_white(#[trigger] f[i])
    &&& forall|i: int| a + 7 <= i < f.len() ==> is_white(#[trigger] f[i])
    &&& forall|i: int| 0 <= i < 7 ==> same_letter(#[trigger] f[a + i], noindex_word()[i])
}

/// `f`, once trimmed of white space, is `noindex` up to ASCII case.
pub open spec fn field_is_noindex(f: Seq<char>) -> bool {
    exists|a: int| noindex_at(f, a)
}

/// `s[i..j]` is one of the comma-separated fields of `s`.
pub open spec fn is_field(s: Seq<char>, i: int, j: int) -> bool {
    &&& 0 <= i <= j <= s.len()
    &&& i == 0 || s[i - 1] == ','
    &&& j == s.len() || s[j] == ','
    &&& forall|k: int| i <= k < j ==> #[trigger] s[k] != ','
}

/// Some comma-separated field of `s` is `noindex`.
pub open spec fn content_has_noindex(s: Seq<char>) -> bool {
    exists|i: int, j: int| is_field(s, i, j) && field_is_noindex(#[trigger] s.subrange(i, j))
}

pub fn is_white_char(c: char) -> (r: bool)
    ensures
        r == is_white(c),
{
    ('\t' <= c && c <= '\r') || c == ' ' || c == '\u{85}' || c == '\u{a0}' || c == '\u{1680}'
        || ('\u{2000}' <= c && c <= '\u{200a}') || c == '\u{2028}' || c == '\u{2029}'
        || c == '\u{202f}' || c == '\u{205f}' || c == '\u{3000}'
}

fn same_letter_char(c: char, w: char) -> (r: bool)
    requires
        'a' <= w <= 'z',
    ensures
        r == same_letter(c, w),
{
    c == w || (c as u32) + 32 == (w as u32)
}

/// Whether `s[from..to]`, trimmed, is `noindex` up to ASCII case.
fn field_noindex(s: &str, from: usize, to: usize) -> (r: bool)
    requires
        from <= to <= s@.len(),
    ensures
        r == field_is_noindex(s@.subrange(from as int, to as int)),
{
    let ghost f = s@.subrange(from as int, to as int);
    let mut a: usize = from;
    while a < to && is_white_char(s.get_char(a))
        invariant
            from <= a <= to <= s@.len(),
            forall|i: int| from <= i < a ==> is_white(#[trigger] s@[i]),
        decreases to - a,
    {
        a = a + 1;
    }
    let mut b: usize = to;
    while b > a && is_white_char(s.get_char(b - 1))
        invariant
            from <= a <= b <= to <= s@.len(),
            forall|i: int| b <= i < to ==> is_white(#[trigger] s@[i]),
        decreases b - a,
    {
        b = b - 1;
    }
    // Here `s[a..b]` is the trimmed field: empty, or from and to a non-white char.
    let mut ok = b - a == 7;
    let mut i: usize = 0;
    while ok && i < 7
        invariant
            ok ==> b - a == 7,
            from <= a <= b <= to <= s@.len(),
            i <= 7,
            ok ==> forall|k: int| 0 <= k < i ==> same_letter(#[trigger] s@[a + k], noindex_word()[k]),
            !ok ==> (b - a != 7 || exists|k: int| 0 <= k < 7 && !same_letter(#[trigger] s@[a + k], noindex_word()[k])),
        decreases 7 - i + (if ok { 1int } else { 0int }),
    {
        let want: char = if i == 0 { 'n' } else if i == 1 { 'o' } else if i == 2 { 'i' } else if i == 3 { 'n' }
            else if i == 4 { 'd' } else if i == 5 { 'e' } else { 'x' };
        assert(want == noindex_word()[i as int]);
        if !same_letter_char(s.get_char(a + i), want) {
            ok = false;
        } else {
            i = i + 1;
        }
    }
    proof {
        if ok {
            let w = (a - from) as int;
            assert(forall|k: int| 0 <= k < w ==> #[trigger] f[k] == s@[from + k]);
            assert(forall|k: int| w + 7 <= k < f.len() ==> #[trigger] f[k] == s@[from + k]);
            assert(forall|k: int| 0 <= k < 7 ==> #[trigger] f[w + k] == s@[a + k]);
            assert(noindex_at(f, w));
        } else if field_is_noindex(f) {
            let w = choose|w: int| noindex_at(f, w);
            // The first and last letters of `noindex` are not white space, so
            // the trimmed field starts at `w` and ends at `w + 7`.
            assert(same_letter(f[w + 0], noindex_word()[0]));
            assert(same_letter(f[w + 6], noindex_word()[6]));
            assert(f[w + 0] == f[w]);
            assert(!is_white(f[w]));
            assert(!is_white(f[w + 6]));
            assert(f[w] == s@[from + w]);
            assert(f[w + 6] == s@[from + w + 6]);
            if a < from + w {
                assert(f[(a - from) as int] == s@[a as int]);
                assert(is_white(f[(a - from) as int]));
                assert(a < to);
                assert(!is_white(s@[a as int]));
            }
            assert(a == from + w);
            if b > from + w + 7 {
                assert(f[(b - 1 - from) as int] == s@[b - 1]);
                assert(is_white(f[(b - 1 - from) as int]));
            }
            assert(b == from + w + 7);
            let k = choose|k: int| 0 <= k < 7 && !same_letter(#[trigger] s@[a + k], noindex_word()[k]);
            assert(f[w + k] == s@[a + k]);
        }
    }
    ok
}

/// Whether some comma-separated field of `s`, trimmed, is `noindex` up to
/// ASCII case.
pub fn has_noindex(s: &str) -> (r: bool)
    ensures
        r == content_has_noindex(s@),
{
    let n = s.unicode_len();
    let mut start: usize = 0;
    let mut k: usize = 0;
    while k < n
        invariant
            n == s@.len(),
            start <= k <= n,
            start == 0 || s@[start - 1] == ',',
            forall|q: int| start <= q < k ==> #[trigger] s@[q] != ',',
            forall|i: int, j: int| is_field(s@, i, j) && j < start ==> !field_is_noindex(#[trigger] s@.subrange(i, j)),
        decreases n - k,
    {
        if s.get_char(k) == ',' {
            assert(is_field(s@, start as int, k as int));
            if field_noindex(s, start, k) {
                return true;
            }
            proof {
                assert forall|i: int, j: int| is_field(s@, i, j) && j < k + 1 implies !field_is_noindex(
                    #[trigger] s@.subrange(i, j),
                ) by {
                    if j >= start {
                        lemma_field_unique(s@, i, j, start as int, k as int);
                    }
                }
            }
            start = k + 1;
        }
        k = k + 1;
    }
    assert(is_field(s@, start as int, n as int));
    let r = field_noindex(s, start, n);
    proof {
        if !r {
            assert forall|i: int, j: int| is_field(s@, i, j) implies !field_is_noindex(#[trigger] s@.subrange(i, j)) by {
                if j >= start {
                    lemma_field_unique(s@, i, j, start as int, n as int);
                }
            }
        }
    }
    r
}

/// A field that ends at or after the start of field `[a, b)` is that field,
/// or ends before it.
proof fn lemma_field_unique(s: Seq<char>, i: int, j: int, a: int, b: int)
    requires
        is_field(s, i, j),
        is_field(s, a, b),
        j >= a,
        j <= b,
    ensures
        i == a && j == b,
{
    if j < b {
        assert(s[j] == ',');
        assert(s[j] != ',');
    }
    if i < a {
        assert(s[a - 1] == ',');
        assert(s[a - 1] != ',');
    }
    if i > a {
        assert(s[i - 1] == ',');
        assert(s[i - 1] != ',');
    }
}


/// The node `i` is an HTML element with local name `name`.
pub open spec fn is_html_element(kinds: Seq<NodeKind>, i: int, name: Seq<char>) -> bool {
    &&& 0 <= i < kinds.len()
    &&& kinds[i] matches NodeKind::Element(n)
    &&& n.html
    &&& n.local@ == name
}

/// The `name="robots"` flag of a `<meta>` after setting `attr`: a `name`
/// attribute decides it, any other leaves `prev`.
pub open spec fn name_robots_after(attr: Attribute, prev: bool) -> bool {
    if attr.plain && attr.local@ == "name"@ {
        attr.value@ == "robots"@
    } else {
        prev
    }
}

/// The `noindex` flag of a `<meta>` after setting `attr`: a `content`
/// attribute decides it, any other leaves `prev`.
pub open spec fn content_noindex_after(attr: Attribute, prev: bool) -> bool {
    if attr.plain && attr.local@ == "content"@ {
        content_has_noindex(attr.value@)
    } else {
        prev
    }
}

/// The `name="robots"` flag after the attributes `attrs[..n]`, from `start`.
pub open spec fn attrs_name_robots(attrs: Seq<Attribute>, start: bool, n: int) -> bool
    decreases n,
{
    if n <= 0 {
        start
    } else {
        name_robots_after(attrs[n - 1], attrs_name_robots(attrs, start, n - 1))
    }
}

/// The `noindex` flag after the attributes `attrs[..n]`, from `start`.
pub open spec fn attrs_content_noindex(attrs: Seq<Attribute>, start: bool, n: int) -> bool
    decreases n,
{
    if n <= 0 {
        start
    } else {
        content_noindex_after(attrs[n - 1], attrs_content_noindex(attrs, start, n - 1))
    }
}

/// Whether `name` is the HTML `<meta>` element's.
pub open spec fn is_meta_name(name: ElemName) -> bool {
    name.html && name.local@ == "meta"@
}

/// The tree-building sink: an arena of nodes with parent links, and the two
/// `<meta>` flags of each node.
pub struct HtmlSink {
    kinds: Vec<NodeKind>,
    parents: Vec<Option<usize>>,
    name_robots: Vec<bool>,
    content_noindex: Vec<bool>,
}

impl HtmlSink {
    /// The kind of each node; node 0 is the document.
    pub closed spec fn spec_kinds(&self) -> Seq<NodeKind> {
        self.kinds@
    }

    /// The parent of each node.
    pub closed spec fn spec_parents(&self) -> Seq<Option<usize>> {
        self.parents@
    }

    /// Whether each node is a `<meta>` with `name="robots"`.
    pub closed spec fn spec_name_robots(&self) -> Seq<bool> {
        self.name_robots@
    }

    /// Whether each node is a `<meta>` whose `content` holds `noindex`.
    pub closed spec fn spec_content_noindex(&self) -> Seq<bool> {
        self.content_noindex@
    }

    pub open spec fn spec_len(&self) -> nat {
        self.spec_kinds().len()
    }

    pub open spec fn wf(&self) -> bool {
        &&& self.spec_len() >= 1
        &&& self.spec_kinds()[0] is Document
        &&& self.spec_parents().len() == self.spec_len()
        &&& self.spec_name_robots().len() == self.spec_len()
        &&& self.spec_content_noindex().len() == self.spec_len()
        &&& forall|i: int| 0 <= i < self.spec_len() ==> (#[trigger] self.spec_parents()[i] matches Some(p) ==> p < self.spec_len())
    }

    /// Node `i` is `<meta name=robots content=noindex>` whose parent is
    /// `<head>`, whose parent is `<html>`, whose parent is the document.
    pub open spec fn is_noindex_meta(&self, i: int) -> bool {
        let kinds = self.spec_kinds();
        let parents = self.spec_parents();
        &&& is_html_element(kinds, i, "meta"@)
        &&& self.spec_name_robots()[i]
        &&& self.spec_content_noindex()[i]
        &&& parents[i] matches Some(head)
        &&& is_html_element(kinds, head as int, "head"@)
        &&& parents[head as int] matches Some(html)
        &&& is_html_element(kinds, html as int, "html"@)
        &&& parents[html as int] == Some(0usize)
    }

    /// Whether the tree holds a `<meta>` that asks not to be indexed.
    pub open spec fn spec_no_index(&self) -> bool {
        exists|i: int| 0 <= i < self.spec_len() && #[trigger] self.is_noindex_meta(i)
    }

    /// A sink holding the document node alone.
    pub fn new() -> (r: HtmlSink)
        ensures
            r.wf(),
            r.spec_len() == 1,
            r.spec_parents()[0] is None,
    {
        let mut kinds = Vec::new();
        kinds.push(NodeKind::Document);
        let mut parents = Vec::new();
        parents.push(None);
        let mut name_robots = Vec::new();
        name_robots.push(false);
        let mut content_noindex = Vec::new();
        content_noindex.push(false);
        HtmlSink { kinds, parents, name_robots, content_noindex }
    }

    /// The handle of the document node.
    pub fn get_document(&self) -> (r: usize)
        ensures
            r == 0,
    {
        0
    }

    /// The parent of node `i`.
    pub fn parent(&self, i: usize) -> (r: Option<usize>)
        requires
            self.wf(),
            i < self.spec_len(),
        ensures
            r == self.spec_parents()[i as int],
    {
        self.parents[i]
    }

    /// Whether two handles name the same node.
    pub fn same_node(&self, x: usize, y: usize) -> (r: bool)
        ensures
            r == (x == y),
    {
        x == y
    }

    /// Adds a parentless node of kind `kind`.
    fn new_node(&mut self, kind: NodeKind) -> (r: usize)
        requires
            old(self).wf(),
            old(self).spec_len() < usize::MAX,
        ensures
            final(self).wf(),
            r == old(self).spec_len(),
            final(self).spec_kinds() == old(self).spec_kinds().push(kind),
            final(self).spec_parents() == old(self).spec_parents().push(None),
            final(self).spec_name_robots() == old(self).spec_name_robots().push(false),
            final(self).spec_content_noindex() == old(self).spec_content_noindex().push(false),
    {
        let r = self.kinds.len();
        self.kinds.push(kind);
        self.parents.push(None);
        self.name_robots.push(false);
        self.content_noindex.push(false);
        assert forall|i: int| 0 <= i < self.spec_len() implies (#[trigger] self.spec_parents()[i] matches Some(p) ==> p
            < self.spec_len()) by {
            if i < r {
                assert(self.spec_parents()[i] == old(self).spec_parents()[i]);
            }
        }
        r
    }

    /// Adds a comment node.
    pub fn create_comment(&mut self) -> (r: usize)
        requires
            old(self).wf(),
            old(self).spec_len() < usize::MAX,
        ensures
            final(self).wf(),
            r == old(self).spec_len(),
            final(self).spec_kinds() == old(self).spec_kinds().push(NodeKind::Comment),
            final(self).spec_parents() == old(self).spec_parents().push(None),
            final(self).spec_name_robots() == old(self).spec_name_robots().push(false),
            final(self).spec_content_noindex() == old(self).spec_content_noindex().push(false),
    {
        self.new_node(NodeKind::Comment)
    }

    /// Adds a processing instruction node.
    pub fn create_pi(&mut self) -> (r: usize)
        requires
            old(self).wf(),
            old(self).spec_len() < usize::MAX,
        ensures
            final(self).wf(),
            r == old(self).spec_len(),
            final(self).spec_kinds() == old(self).spec_kinds().push(NodeKind::Pi),
            final(self).spec_parents() == old(self).spec_parents().push(None),
            final(self).spec_name_robots() == old(self).spec_name_robots().push(false),
            final(self).spec_content_noindex() == old(self).spec_content_noindex().push(false),
    {
        self.new_node(NodeKind::Pi)
    }

    /// Adds the fragment node that holds a `<template>`'s contents.
    pub fn get_template_contents(&mut self) -> (r: usize)
        requires
            old(self).wf(),
            old(self).spec_len() < usize::MAX,
        ensures
            final(self).wf(),
            r == old(self).spec_len(),
            final(self).spec_kinds() == old(self).spec_kinds().push(NodeKind::DocumentFragment),
            final(self).spec_parents() == old(self).spec_parents().push(None),
            final(self).spec_name_robots() == old(self).spec_name_robots().push(false),
            final(self).spec_content_noindex() == old(self).spec_content_noindex().push(false),
    {
        self.new_node(NodeKind::DocumentFragment)
    }

    /// Whether node `i` is an HTML element named `name`.
    fn is_html_named(&self, i: usize, name: &str) -> (r: bool)
        requires
            self.wf(),
            i < self.spec_len(),
        ensures
            r == is_html_element(self.spec_kinds(), i as int, name@),
    {
        match &self.kinds[i] {
            NodeKind::Element(n) => n.html && str_eq(n.local.as_str(), name),
            _ => false,
        }
    }

    /// Records `attr` on node `i` when it is a `<meta>`.
    fn set_attr(&mut self, i: usize, attr: &Attribute)
        requires
            old(self).wf(),
            i < old(self).spec_len(),
        ensures
            final(self).wf(),
            final(self).spec_kinds() == old(self).spec_kinds(),
            final(self).spec_parents() == old(self).spec_parents(),
            final(self).spec_name_robots() == old(self).spec_name_robots().update(
                i as int,
                if is_html_element(old(self).spec_kinds(), i as int, "meta"@) {
                    name_robots_after(*attr, old(self).spec_name_robots()[i as int])
                } else {
                    old(self).spec_name_robots()[i as int]
                },
            ),
            final(self).spec_content_noindex() == old(self).spec_content_noindex().update(
                i as int,
                if is_html_element(old(self).spec_kinds(), i as int, "meta"@) {
                    content_noindex_after(*attr, old(self).spec_content_noindex()[i as int])
                } else {
                    old(self).spec_content_noindex()[i as int]
                },
            ),
    {
        proof {
            reveal_strlit("name");
            reveal_strlit("content");
            assert("name"@.len() == 4);
            assert("content"@.len() == 7);
            assert(self.name_robots@.update(i as int, self.name_robots@[i as int]) =~= self.name_robots@);
            assert(self.content_noindex@.update(i as int, self.content_noindex@[i as int]) =~= self.content_noindex@);
        }
        if self.is_html_named(i, "meta") {
            if attr.plain && str_eq(attr.local.as_str(), "name") {
                let robots = str_eq(attr.value.as_str(), "robots");
                self.name_robots.set(i, robots);
            } else if attr.plain && str_eq(attr.local.as_str(), "content") {
                let noindex = has_noindex(attr.value.as_str());
                self.content_noindex.set(i, noindex);
            }
        }
    }

    /// Records `attrs`, in order, on node `i` when it is a `<meta>`.
    pub fn add_attrs_if_missing(&mut self, i: usize, attrs: Vec<Attribute>)
        requires
            old(self).wf(),
            i < old(self).spec_len(),
        ensures
            final(self).wf(),
            final(self).spec_kinds() == old(self).spec_kinds(),
            final(self).spec_parents() == old(self).spec_parents(),
            final(self).spec_name_robots() == old(self).spec_name_robots().update(
                i as int,
                if is_html_element(old(self).spec_kinds(), i as int, "meta"@) {
                    attrs_name_robots(attrs@, old(self).spec_name_robots()[i as int], attrs@.len() as int)
                } else {
                    old(self).spec_name_robots()[i as int]
                },
            ),
            final(self).spec_content_noindex() == old(self).spec_content_noindex().update(
                i as int,
                if is_html_element(old(self).spec_kinds(), i as int, "meta"@) {
                    attrs_content_noindex(attrs@, old(self).spec_content_noindex()[i as int], attrs@.len() as int)
                } else {
                    old(self).spec_content_noindex()[i as int]
                },
            ),
    {
        let ghost meta = is_html_element(old(self).spec_kinds(), i as int, "meta"@);
        let ghost nr0 = old(self).spec_name_robots();
        let ghost cn0 = old(self).spec_content_noindex();
        let mut k: usize = 0;
        while k < attrs.len()
            invariant
                self.wf(),
                i < self.spec_len(),
                k <= attrs@.len(),
                self.spec_kinds() == old(self).spec_kinds(),
                self.spec_parents() == old(self).spec_parents(),
                meta == is_html_element(self.spec_kinds(), i as int, "meta"@),
                nr0.len() == self.spec_len(),
                cn0.len() == self.spec_len(),
                self.spec_name_robots() == nr0.update(
                    i as int,
                    if meta { attrs_name_robots(attrs@, nr0[i as int], k as int) } else { nr0[i as int] },
                ),
                self.spec_content_noindex() == cn0.update(
                    i as int,
                    if meta { attrs_content_noindex(attrs@, cn0[i as int], k as int) } else { cn0[i as int] },
                ),
            decreases attrs@.len() - k,
        {
            let ghost prev_nr = self.spec_name_robots();
            let ghost prev_cn = self.spec_content_noindex();
            self.set_attr(i, &attrs[k]);
            proof {
                if meta {
                    assert(prev_nr[i as int] == attrs_name_robots(attrs@, nr0[i as int], k as int));
                    assert(self.spec_name_robots()[i as int] == name_robots_after(attrs@[k as int], prev_nr[i as int]));
                    assert(prev_cn[i as int] == attrs_content_noindex(attrs@, cn0[i as int], k as int));
                    assert(self.spec_content_noindex()[i as int] == content_noindex_after(attrs@[k as int], prev_cn[i as int]));
                }
                assert(self.spec_name_robots() =~= nr0.update(
                    i as int,
                    if meta { attrs_name_robots(attrs@, nr0[i as int], k + 1) } else { nr0[i as int] },
                ));
                assert(self.spec_content_noindex() =~= cn0.update(
                    i as int,
                    if meta { attrs_content_noindex(attrs@, cn0[i as int], k + 1) } else { cn0[i as int] },
                ));
            }
            k = k + 1;
        }
        proof {
            if !meta {
                assert(self.spec_name_robots() =~= nr0);
            }
        }
    }

    /// Adds an element named `name` with the attributes `attrs`.
    pub fn create_element(&mut self, name: ElemName, attrs: Vec<Attribute>) -> (r: usize)
        requires
            old(self).wf(),
            old(self).spec_len() < usize::MAX,
        ensures
            final(self).wf(),
            r == old(self).spec_len(),
            final(self).spec_kinds() == old(self).spec_kinds().push(NodeKind::Element(name)),
            final(self).spec_parents() == old(self).spec_parents().push(None),
            final(self).spec_name_robots() == old(self).spec_name_robots().push(
                is_meta_name(name) && attrs_name_robots(attrs@, false, attrs@.len() as int),
            ),
            final(self).spec_content_noindex() == old(self).spec_content_noindex().push(
                is_meta_name(name) && attrs_content_noindex(attrs@, false, attrs@.len() as int),
            ),
    {
        let ghost nm = name;
        let r = self.new_node(NodeKind::Element(name));
        self.add_attrs_if_missing(r, attrs);
        assert(self.spec_name_robots() =~= old(self).spec_name_robots().push(
            is_meta_name(nm) && attrs_name_robots(attrs@, false, attrs@.len() as int),
        ));
        assert(self.spec_content_noindex() =~= old(self).spec_content_noindex().push(
            is_meta_name(nm) && attrs_content_noindex(attrs@, false, attrs@.len() as int),
        ));
        r
    }

    /// Makes `parent` the parent of `child`.
    pub fn append(&mut self, parent: usize, child: usize)
        requires
            old(self).wf(),
            parent < old(self).spec_len(),
            child < old(self).spec_len(),
        ensures
            final(self).wf(),
            final(self).spec_kinds() == old(self).spec_kinds(),
            final(self).spec_parents() == old(self).spec_parents().update(child as int, Some(parent)),
            final(self).spec_name_robots() == old(self).spec_name_robots(),
            final(self).spec_content_noindex() == old(self).spec_content_noindex(),
    {
        self.parents.set(child, Some(parent));
    }

    /// Gives `child` the parent of `sibling`, which must have one.
    pub fn append_before_sibling(&mut self, sibling: usize, child: usize)
        requires
            old(self).wf(),
            sibling < old(self).spec_len(),
            child < old(self).spec_len(),
            old(self).spec_parents()[sibling as int] is Some,
        ensures
            final(self).wf(),
            final(self).spec_kinds() == old(self).spec_kinds(),
            final(self).spec_parents() == old(self).spec_parents().update(
                child as int,
                old(self).spec_parents()[sibling as int],
            ),
            final(self).spec_name_robots() == old(self).spec_name_robots(),
            final(self).spec_content_noindex() == old(self).spec_content_noindex(),
    {
        match self.parents[sibling] {
            Some(p) => self.append(p, child),
            None => {},
        }
    }

    /// Appends `child` next to `element` when that has a parent, and under
    /// `prev_element` otherwise.
    pub fn append_based_on_parent_node(&mut self, element: usize, prev_element: usize, child: usize)
        requires
            old(self).wf(),
            element < old(self).spec_len(),
            prev_element < old(self).spec_len(),
            child < old(self).spec_len(),
        ensures
            final(self).wf(),
            final(self).spec_kinds() == old(self).spec_kinds(),
            final(self).spec_parents() == old(self).spec_parents().update(
                child as int,
                if old(self).spec_parents()[element as int] is Some {
                    old(self).spec_parents()[element as int]
                } else {
                    Some(prev_element)
                },
            ),
            final(self).spec_name_robots() == old(self).spec_name_robots(),
            final(self).spec_content_noindex() == old(self).spec_content_noindex(),
    {
        if self.parents[element].is_some() {
            self.append_before_sibling(element, child);
        } else {
            self.append(prev_element, child);
        }
    }

    /// Detaches `target` from its parent.
    pub fn remove_from_parent(&mut self, target: usize)
        requires
            old(self).wf(),
            target < old(self).spec_len(),
        ensures
            final(self).wf(),
            final(self).spec_kinds() == old(self).spec_kinds(),
            final(self).spec_parents() == old(self).spec_parents().update(target as int, None),
            final(self).spec_name_robots() == old(self).spec_name_robots(),
            final(self).spec_content_noindex() == old(self).spec_content_noindex(),
    {
        self.parents.set(target, None);
    }

    /// Moves every child of `node` under `new_parent`.
    pub fn reparent_children(&mut self, node: usize, new_parent: usize)
        requires
            old(self).wf(),
            node < old(self).spec_len(),
            new_parent < old(self).spec_len(),
        ensures
            final(self).wf(),
            final(self).spec_kinds() == old(self).spec_kinds(),
            final(self).spec_parents().len() == old(self).spec_parents().len(),
            forall|i: int|
                0 <= i < old(self).spec_len() ==> #[trigger] final(self).spec_parents()[i] == if old(self).spec_parents()[i]
                    == Some(node) {
                    Some(new_parent)
                } else {
                    old(self).spec_parents()[i]
                },
            final(self).spec_name_robots() == old(self).spec_name_robots(),
            final(self).spec_content_noindex() == old(self).spec_content_noindex(),
    {
        let n = self.parents.len();
        let mut i: usize = 0;
        while i < n
            invariant
                self.wf(),
                n == self.spec_len(),
                i <= n,
                new_parent < n,
                self.spec_kinds() == old(self).spec_kinds(),
                self.spec_name_robots() == old(self).spec_name_robots(),
                self.spec_content_noindex() == old(self).spec_content_noindex(),
                forall|j: int|
                    0 <= j < n ==> #[trigger] self.spec_parents()[j] == if j < i && old(self).spec_parents()[j] == Some(
                        node,
                    ) {
                        Some(new_parent)
                    } else {
                        old(self).spec_parents()[j]
                    },
            decreases n - i,
        {
            if self.parents[i] == Some(node) {
                self.parents.set(i, Some(new_parent));
            }
            i = i + 1;
        }
    }

    /// Whether the tree holds `<meta name=robots content=noindex>` directly
    /// under `<head>`, under `<html>`, under the document.
    pub fn finish(&self) -> (r: HtmlMeta)
        requires
            self.wf(),
        ensures
            r.no_index == self.spec_no_index(),
    {
        let n = self.kinds.len();
        let mut i: usize = 0;
        while i < n
            invariant
                self.wf(),
                n == self.spec_len(),
                i <= n,
                forall|j: int| 0 <= j < i ==> !#[trigger] self.is_noindex_meta(j),
            decreases n - i,
        {
            if self.check_meta(i) {
                return HtmlMeta { no_index: true };
            }
            i = i + 1;
        }
        HtmlMeta { no_index: false }
    }

    /// Whether node `i` is a `<meta>` that asks not to be indexed, placed
    /// under `<head>`, under `<html>`, under the document.
    fn check_meta(&self, i: usize) -> (r: bool)
        requires
            self.wf(),
            i < self.spec_len(),
        ensures
            r == self.is_noindex_meta(i as int),
    {
        if !(self.is_html_named(i, "meta") && self.name_robots[i] && self.content_noindex[i]) {
            return false;
        }
        match self.parents[i] {
            None => false,
            Some(head) => {
                if !self.is_html_named(head, "head") {
                    return false;
                }
                match self.parents[head] {
                    None => false,
                    Some(html) => self.is_html_named(html, "html") && self.parents[html] == Some(0usize),
                }
            },
        }
    }
}

/// A `<meta name=robots content=noindex>` whose parent is `<head>`, under
/// `<html>`, under the document, marks the document as not to be indexed.
pub proof fn meta_in_head_marks_no_index(sink: HtmlSink, i: int)
    requires
        sink.wf(),
        sink.is_noindex_meta(i),
    ensures
        sink.spec_no_index(),
{
}

/// A `<meta>` whose parent is not an HTML `<head>` element (the `<body>`,
/// any deeper element, or none) never marks the document by itself.
pub proof fn meta_outside_head_is_ignored(sink: HtmlSink, i: int)
    requires
        sink.wf(),
        0 <= i < sink.spec_len(),
        !(sink.spec_parents()[i] matches Some(p) && is_html_element(sink.spec_kinds(), p as int, "head"@)),
    ensures
        !sink.is_noindex_meta(i),
{
}

/// A document none of whose `<meta>` elements sits directly in a `<head>`
/// is never marked as not to be indexed.
pub proof fn no_meta_in_head_no_index(sink: HtmlSink)
    requires
        sink.wf(),
        forall|i: int|
            0 <= i < sink.spec_len() && is_html_element(sink.spec_kinds(), i, "meta"@) ==> !(
            #[trigger] sink.spec_parents()[i] matches Some(p) && is_html_element(sink.spec_kinds(), p as int, "head"@)),
    ensures
        !sink.spec_no_index(),
{
    assert forall|i: int| 0 <= i < sink.spec_len() implies !#[trigger] sink.is_noindex_meta(i) by {
        if is_html_element(sink.spec_kinds(), i, "meta"@) {
            assert(!(sink.spec_parents()[i] matches Some(p) && is_html_element(sink.spec_kinds(), p as int, "head"@)));
        }
    }
}

} // verus!
