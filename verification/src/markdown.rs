//! Markdown rendering.
//!
//! Turns the watched document's text into HTML with the `pulldown_cmark`
//! crate, with Github-flavored markdown options enabled. Along the way it
//! records the languages of fenced code blocks for highlighting, and rewrites
//! relative image links into absolute `file://` links rooted at the document's
//! directory.

use pulldown_cmark::html;
use pulldown_cmark::{CodeBlockKind, Event, Options, Parser, Tag};
use vstd::prelude::*;
use vstd::string::StrSliceExecFns;
use vstd::string::StringExecFns;

verus! {

/// Whether `c` is an ASCII lower-case letter, the only characters allowed in
/// a URL scheme here.
pub open spec fn is_lower_alpha(c: char) -> bool {
    'a' <= c && c <= 'z'
}

/// Whether `s` begins with a URL scheme: one or more lower-case letters
/// followed by `://`. Such links are already absolute and are left alone.
pub open spec fn has_url_scheme(s: Seq<char>) -> bool {
    exists|i: int|
        #![trigger s[i]]
        1 <= i && i + 3 <= s.len() && (forall|j: int| 0 <= j < i ==> is_lower_alpha(#[trigger] s[j]))
            && s[i] == ':' && s[i + 1] == '/' && s[i + 2] == '/'
}

/// Decides [`has_url_scheme`] by scanning the maximal lower-case prefix and
/// checking that `://` follows it.
pub fn matches_url_scheme(url: &str) -> (b: bool)
    ensures
        b == has_url_scheme(url@),
{
    let n = url.unicode_len();
    let mut i: usize = 0;
    loop
        invariant
            n == url@.len(),
            i <= n,
            forall|j: int| 0 <= j < i ==> is_lower_alpha(#[trigger] url@[j]),
        ensures
            i <= n,
            n == url@.len(),
            forall|j: int| 0 <= j < i ==> is_lower_alpha(#[trigger] url@[j]),
            i == n || !is_lower_alpha(url@[i as int]),
        decreases n - i,
    {
        if i >= n {
            break ;
        }
        let c = url.get_char(i);
        if c < 'a' || 'z' < c {
            break ;
        }
        i = i + 1;
    }
    // i is now the length of the maximal lower-case prefix.
    if i >= 1 && n - i >= 3 {
        let b = url.get_char(i) == ':' && url.get_char(i + 1) == '/' && url.get_char(i + 2) == '/';
        proof {
            if b {
                assert(1 <= i as int && i as int + 3 <= url@.len() && (forall|j: int|
                    0 <= j < i as int ==> is_lower_alpha(#[trigger] url@[j])) && url@[i as int]
                    == ':' && url@[i as int + 1] == '/' && url@[i as int + 2] == '/');
            } else if has_url_scheme(url@) {
                // Any witness would have to sit exactly at i: a shorter one puts
                // ':' inside the lower-case prefix, a longer one makes url@[i]
                // lower-case, and the scan excluded both.
                let w = choose|w: int|
                    #![trigger url@[w]]
                    1 <= w && w + 3 <= url@.len() && (forall|j: int|
                        0 <= j < w ==> is_lower_alpha(#[trigger] url@[j])) && url@[w] == ':'
                        && url@[w + 1] == '/' && url@[w + 2] == '/';
                if w < i {
                    assert(is_lower_alpha(url@[w]));
                    assert(false);
                } else if w > i {
                    assert(is_lower_alpha(url@[i as int]));
                    assert(false);
                } else {
                    assert(false);
                }
            }
        }
        b
    } else {
        proof {
            if has_url_scheme(url@) {
                let w = choose|w: int|
                    #![trigger url@[w]]
                    1 <= w && w + 3 <= url@.len() && (forall|j: int|
                        0 <= j < w ==> is_lower_alpha(#[trigger] url@[j])) && url@[w] == ':'
                        && url@[w + 1] == '/' && url@[w + 2] == '/';
                if w < i {
                    assert(is_lower_alpha(url@[w]));
                    assert(false);
                } else {
                    assert(i < n);
                    assert(is_lower_alpha(url@[i as int]));
                    assert(false);
                }
            }
        }
        false
    }
}

/// `s` with a leading `./` or `/` removed: the relative part of a link that
/// is about to be re-rooted.
pub open spec fn stripped_rel(s: Seq<char>) -> Seq<char> {
    if s.len() >= 2 && s[0] == '.' && s[1] == '/' {
        s.subrange(2, s.len() as int)
    } else if s.len() >= 1 && s[0] == '/' {
        s.subrange(1, s.len() as int)
    } else {
        s
    }
}

/// The absolute `file://` form of a relative image link, rooted at the
/// document's directory.
pub open spec fn rewritten_image_url(url: Seq<char>, root_dir: Seq<char>) -> Seq<char> {
    "file://"@ + root_dir + "/"@ + stripped_rel(url)
}

/// Rewrites a relative image link to an absolute `file://` link under
/// `root_dir`; a link that already has a URL scheme is left alone (`None`).
pub fn rewrite_image_url(url: &str, root_dir: &str) -> (r: Option<String>)
    ensures
        (r is Some) <==> !has_url_scheme(url@),
        r matches Some(s) ==> s@ == rewritten_image_url(url@, root_dir@),
{
    if matches_url_scheme(url) {
        None
    } else {
        let n = url.unicode_len();
        let k: usize = if n >= 2 && url.get_char(0) == '.' && url.get_char(1) == '/' {
            2
        } else if n >= 1 && url.get_char(0) == '/' {
            1
        } else {
            0
        };
        let tail = url.substring_char(k, n);
        proof {
            if k == 0 {
                assert(url@.subrange(0, n as int) =~= url@);
            }
            assert(tail@ == stripped_rel(url@));
        }
        let mut out = "file://".to_owned();
        out.append(root_dir);
        out.append("/");
        out.append(tail);
        Some(out)
    }
}

/// The language to record for a fenced code block with info string `info`:
/// the info string itself, unless it is empty.
pub fn record_language(info: &str) -> (r: Option<String>)
    ensures
        (r is Some) <==> info@.len() > 0,
        r matches Some(s) ==> s@ == info@,
{
    if info.is_empty() {
        None
    } else {
        Some(info.to_owned())
    }
}

/// `p` with its final `/`-separated component removed; a path whose last
/// separator is the leading one keeps that root separator.
pub open spec fn strip_component(p: Seq<char>) -> Seq<char>
    decreases p.len(),
{
    if p.len() == 0 {
        p
    } else if p[p.len() - 1] == '/' {
        if p.len() == 1 {
            p
        } else {
            p.subrange(0, p.len() - 1)
        }
    } else {
        strip_component(p.subrange(0, p.len() - 1))
    }
}

/// The directory holding the file at `p`: everything before the final
/// component. The root itself, and a path with no separator at all, have an
/// empty parent, matching a resolver that reports no parent directory there.
pub open spec fn parent_of(p: Seq<char>) -> Seq<char> {
    if p.len() == 1 && p[0] == '/' {
        Seq::empty()
    } else {
        strip_component(p)
    }
}

proof fn lemma_strip_no_slash(p: Seq<char>)
    requires
        forall|j: int| 0 <= j < p.len() ==> p[j] != '/',
    ensures
        strip_component(p) == Seq::<char>::empty(),
    decreases p.len(),
{
    if p.len() == 0 {
        assert(p =~= Seq::<char>::empty());
    } else {
        lemma_strip_no_slash(p.subrange(0, p.len() - 1));
    }
}

proof fn lemma_strip_with_slash(p: Seq<char>, k: int)
    requires
        0 <= k < p.len(),
        p[k] == '/',
        forall|j: int| k < j < p.len() ==> p[j] != '/',
    ensures
        strip_component(p) == if k == 0 {
            p.subrange(0, 1)
        } else {
            p.subrange(0, k)
        },
    decreases p.len(),
{
    if k == p.len() - 1 {
        if p.len() == 1 {
            assert(p =~= p.subrange(0, 1));
        }
    } else {
        lemma_strip_with_slash(p.subrange(0, p.len() - 1), k);
        if k > 0 {
            assert(p.subrange(0, p.len() - 1).subrange(0, k) =~= p.subrange(0, k));
        } else {
            assert(p.subrange(0, p.len() - 1).subrange(0, 1) =~= p.subrange(0, 1));
        }
    }
}

/// The directory part of `path`, as [`parent_of`] describes it.
pub fn parent_dir(path: &str) -> (r: String)
    ensures
        r@ == parent_of(path@),
{
    let n = path.unicode_len();
    let mut i: usize = n;
    loop
        invariant
            n == path@.len(),
            i <= n,
            forall|j: int| i <= j < n ==> path@[j] != '/',
        ensures
            i <= n,
            n == path@.len(),
            forall|j: int| i <= j < n ==> path@[j] != '/',
            i == 0 || path@[i - 1] == '/',
        decreases i,
    {
        if i == 0 {
            break ;
        }
        if path.get_char(i - 1) == '/' {
            break ;
        }
        i = i - 1;
    }
    if i == 0 {
        proof {
            lemma_strip_no_slash(path@);
        }
        String::new()
    } else if i == 1 && n == 1 {
        // The path is exactly the root separator.
        String::new()
    } else {
        proof {
            lemma_strip_with_slash(path@, i - 1);
        }
        if i == 1 {
            path.substring_char(0, 1).to_owned()
        } else {
            path.substring_char(0, i - 1).to_owned()
        }
    }
}

/// The views of a sequence of strings.
pub open spec fn seq_views(s: Seq<String>) -> Seq<Seq<char>> {
    s.map_values(|x: String| x@)
}

/// Whether no two entries of `s` are the same string.
pub open spec fn views_unique(s: Seq<Seq<char>>) -> bool {
    forall|i: int, j: int| 0 <= i < j < s.len() ==> s[i] != s[j]
}

/// `s` with every entry after its first occurrence dropped; first occurrences
/// keep their order.
pub open spec fn dedup_views(s: Seq<Seq<char>>) -> Seq<Seq<char>>
    decreases s.len(),
{
    if s.len() == 0 {
        Seq::empty()
    } else {
        let d = dedup_views(s.drop_last());
        if d.contains(s.last()) {
            d
        } else {
            d.push(s.last())
        }
    }
}

/// Deduplication never invents nor loses an entry: the result holds exactly
/// the strings of the input.
pub proof fn lemma_dedup_views_membership(s: Seq<Seq<char>>, x: Seq<char>)
    ensures
        dedup_views(s).contains(x) == s.contains(x),
    decreases s.len(),
{
    if s.len() > 0 {
        lemma_dedup_views_membership(s.drop_last(), x);
        assert(s.contains(x) == (s.drop_last().contains(x) || s.last() == x)) by {
            if s.contains(x) {
                let i = choose|i: int| 0 <= i < s.len() && s[i] == x;
                if i < s.len() - 1 {
                    assert(s.drop_last()[i] == x);
                }
            }
            if s.drop_last().contains(x) {
                let i = choose|i: int| 0 <= i < s.drop_last().len() && s.drop_last()[i] == x;
                assert(s[i] == x);
            }
        }
        let d = dedup_views(s.drop_last());
        if !d.contains(s.last()) {
            assert(d.push(s.last()).contains(x) == (d.contains(x) || s.last() == x)) by {
                if d.push(s.last()).contains(x) {
                    let i = choose|i: int| 0 <= i < d.push(s.last()).len() && d.push(s.last())[i]
                        == x;
                    if i < d.len() {
                        assert(d[i] == x);
                    }
                }
                if d.contains(x) {
                    let i = choose|i: int| 0 <= i < d.len() && d[i] == x;
                    assert(d.push(s.last())[i] == x);
                }
                if s.last() == x {
                    assert(d.push(s.last())[d.len() as int] == x);
                }
            }
        }
    }
}

/// Deduplication leaves no duplicates behind.
pub proof fn lemma_dedup_views_unique(s: Seq<Seq<char>>)
    ensures
        views_unique(dedup_views(s)),
    decreases s.len(),
{
    if s.len() > 0 {
        lemma_dedup_views_unique(s.drop_last());
        let d = dedup_views(s.drop_last());
        if !d.contains(s.last()) {
            let e = d.push(s.last());
            assert forall|i: int, j: int| 0 <= i < j < e.len() implies e[i] != e[j] by {
                if j == d.len() {
                    assert(e[i] == d[i]);
                    if e[i] == e[j] {
                        assert(d.contains(s.last()));
                    }
                }
            }
        }
    }
}

fn vec_contains_string(v: &Vec<String>, s: &String) -> (b: bool)
    ensures
        b == seq_views(v@).contains(s@),
{
    let mut i: usize = 0;
    loop
        invariant
            i <= v@.len(),
            forall|j: int| 0 <= j < i ==> seq_views(v@)[j] != s@,
        ensures
            (i < v@.len() && seq_views(v@)[i as int] == s@) || (i == v@.len() && forall|j: int|
                0 <= j < i ==> seq_views(v@)[j] != s@),
        decreases v@.len() - i,
    {
        if i >= v.len() {
            break ;
        }
        if v[i].eq(s) {
            break ;
        }
        i = i + 1;
    }
    if i < v.len() {
        proof {
            assert(seq_views(v@)[i as int] == s@);
        }
        true
    } else {
        proof {
            if seq_views(v@).contains(s@) {
                let j = choose|j: int| 0 <= j < seq_views(v@).len() && seq_views(v@)[j] == s@;
                assert(seq_views(v@)[j] != s@);
            }
        }
        false
    }
}

/// Drops every repeated language, keeping first occurrences in order.
pub fn dedup_languages(input: Vec<String>) -> (out: Vec<String>)
    ensures
        seq_views(out@) == dedup_views(seq_views(input@)),
{
    let mut out: Vec<String> = Vec::new();
    let mut i: usize = 0;
    proof {
        assert(seq_views(input@).subrange(0, 0) =~= Seq::<Seq<char>>::empty());
        assert(seq_views(out@) =~= Seq::<Seq<char>>::empty());
    }
    while i < input.len()
        invariant
            i <= input@.len(),
            seq_views(out@) == dedup_views(seq_views(input@).subrange(0, i as int)),
        decreases input@.len() - i,
    {
        let s = input[i].clone();
        let ghost prefix = seq_views(input@).subrange(0, i as int);
        let ghost next = seq_views(input@).subrange(0, i + 1);
        proof {
            assert(next.drop_last() =~= prefix);
            assert(next.last() == s@);
        }
        if !vec_contains_string(&out, &s) {
            let ghost old_out = out@;
            out.push(s);
            proof {
                assert(seq_views(out@) =~= seq_views(old_out).push(next.last()));
            }
        }
        i = i + 1;
    }
    proof {
        assert(seq_views(input@).subrange(0, input@.len() as int) =~= seq_views(input@));
    }
    out
}

/// Name for the HTML that the markdown pipeline produces for a document text
/// under a given directory root; it depends on those two values alone.
pub uninterp spec fn html_of(markdown: Seq<char>, root_dir: Seq<char>) -> Seq<char>;

/// Name for the fenced code block info strings that the markdown pipeline
/// reports for a document text, in document order, duplicates included.
pub uninterp spec fn languages_of(markdown: Seq<char>) -> Seq<Seq<char>>;

#[verifier::external_type_specification]
#[verifier::external_body]
pub struct ExEvent<'a>(Event<'a>);

/// Relies on pulldown_cmark's `Event` shape: hands every event back
/// unchanged, except that a fenced code block's info string is recorded and a
/// relative image link is rewritten, both through the verified helpers above.
#[verifier::external_body]
fn map_event<'a>(ev: Event<'a>, root_dir: &str, langs: &mut Vec<String>) -> Event<'a> {
    let mut ev = ev;
    match &mut ev {
        Event::Start(Tag::CodeBlock(CodeBlockKind::Fenced(info))) => {
            if let Some(lang) = record_language(info) {
                langs.push(lang);
            }
        },
        Event::Start(Tag::Image(_, url, _)) => {
            if let Some(rewritten) = rewrite_image_url(url, root_dir) {
                *url = rewritten.into();
            }
        },
        _ => {},
    }
    ev
}

/// Relies on pulldown_cmark's `Parser::new_ext` and `html::push_html`: with a
/// fixed option set (tables, footnotes, tasklists, strikethrough), the HTML
/// written and the fenced code block info strings seen are functions of the
/// document text and the directory root alone; only nonempty info strings are
/// recorded, because only [`record_language`] pushes onto the list.
#[verifier::external_body]
fn render_markdown(markdown: &String, root_dir: &String) -> (r: (String, Vec<String>))
    ensures
        r.0@ == html_of(markdown@, root_dir@),
        seq_views(r.1@) == languages_of(markdown@),
        forall|i: int| 0 <= i < r.1@.len() ==> r.1@[i]@.len() > 0,
{
    let opts = Options::ENABLE_TABLES | Options::ENABLE_FOOTNOTES | Options::ENABLE_TASKLISTS
        | Options::ENABLE_STRIKETHROUGH;
    let mut langs: Vec<String> = Vec::new();
    let parser = Parser::new_ext(markdown.as_str(), opts);
    let mapped = parser.map(|ev| map_event(ev, root_dir.as_str(), &mut langs));
    let mut html_out = String::new();
    html::push_html(&mut html_out, mapped);
    (html_out, langs)
}

/// The output of the rendering process: the rendered HTML plus the languages
/// of the fenced code blocks met along the way.
#[derive(Debug, Default)]
pub struct RenderedContent {
    /// The rendered HTML.
    pub html: String,
    /// All the languages in fenced code blocks from the markdown input, first
    /// occurrence first, each nonempty and listed once.
    pub code_languages: Vec<String>,
}

impl RenderedContent {
    /// The language list holds no duplicates and no empty entry.
    pub open spec fn wf(&self) -> bool {
        views_unique(seq_views(self.code_languages@)) && forall|i: int|
            0 <= i < self.code_languages@.len() ==> seq_views(self.code_languages@)[i].len() > 0
    }
}

/// Encapsulates a path and provides an interface to turn a document's text
/// into HTML. Reading the file itself is the embedding's job: it hands the
/// current text to [`Renderer::run`].
pub trait Renderer: Sized {
    /// The path this renderer was created for.
    spec fn spec_path(&self) -> Seq<char>;

    /// The resolved form of the path, used in file operations.
    spec fn spec_canonical_path(&self) -> Seq<char>;

    /// The HTML this renderer produces from a given document text.
    spec fn spec_html(&self, source: Seq<char>) -> Seq<char>;

    /// The code block languages this renderer reports for a given text.
    spec fn spec_languages(&self, source: Seq<char>) -> Seq<Seq<char>>;

    /// Create a new renderer instance that wraps the given file path. The
    /// path is taken as already resolved: an embedding that resolves paths
    /// supplies the resolved form separately, and a path that cannot be
    /// resolved falls back to itself.
    fn new(path: String) -> (r: Self)
        ensures
            r.spec_path() == path@,
            r.spec_canonical_path() == path@,
    ;

    /// Turn the given current contents of the file into HTML.
    fn run(&self, source: &String) -> (r: RenderedContent)
        ensures
            r.html@ == self.spec_html(source@),
            seq_views(r.code_languages@) == self.spec_languages(source@),
            r.wf(),
    ;

    /// Gets the path of the file that's being rendered.
    fn get_path(&self) -> (r: String)
        ensures
            r@ == self.spec_path(),
    ;

    /// Gets the canonical path of the file that's being rendered.
    fn get_canonical_path(&self) -> (r: String)
        ensures
            r@ == self.spec_canonical_path(),
    ;
}

/// Encapsulates a markdown file and provides an interface to turn its
/// contents into HTML.
pub struct MarkdownRenderer {
    /// Path to the file.
    pub path: String,
    /// Full path to the file.
    pub canonical_path: String,
}

impl MarkdownRenderer {
    /// A renderer whose path was resolved by the embedding: the raw path and
    /// its resolved form are kept side by side.
    pub fn with_canonical_path(path: String, canonical_path: String) -> (r: Self)
        ensures
            r.spec_path() == path@,
            r.spec_canonical_path() == canonical_path@,
    {
        MarkdownRenderer { path, canonical_path }
    }
}

impl Renderer for MarkdownRenderer {
    open spec fn spec_path(&self) -> Seq<char> {
        self.path@
    }

    open spec fn spec_canonical_path(&self) -> Seq<char> {
        self.canonical_path@
    }

    open spec fn spec_html(&self, source: Seq<char>) -> Seq<char> {
        html_of(source, parent_of(self.canonical_path@))
    }

    open spec fn spec_languages(&self, source: Seq<char>) -> Seq<Seq<char>> {
        dedup_views(languages_of(source))
    }

    fn new(path: String) -> (r: Self) {
        let canonical_path = path.clone();
        MarkdownRenderer { path, canonical_path }
    }

    fn run(&self, source: &String) -> (r: RenderedContent) {
        let root_dir = parent_dir(self.canonical_path.as_str());
        let (html_out, raw_langs) = render_markdown(source, &root_dir);
        let ghost raw = seq_views(raw_langs@);
        let code_languages = dedup_languages(raw_langs);
        proof {
            lemma_dedup_views_unique(raw);
            assert forall|i: int|
                0 <= i < code_languages@.len() implies seq_views(code_languages@)[i].len() > 0 by {
                let x = seq_views(code_languages@)[i];
                assert(dedup_views(raw).contains(x));
                lemma_dedup_views_membership(raw, x);
                let j = choose|j: int| 0 <= j < raw.len() && raw[j] == x;
                assert(raw[j].len() > 0);
            }
        }
        RenderedContent { html: html_out, code_languages }
    }

    fn get_path(&self) -> (r: String) {
        self.path.clone()
    }

    fn get_canonical_path(&self) -> (r: String) {
        self.canonical_path.clone()
    }
}

} // verus!
