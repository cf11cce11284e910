use vstd::prelude::*;

verus! {

/// Text attributes a style can switch on.
#[derive(PartialEq, Eq, Structural, Debug, Clone, Copy, Hash)]
pub enum Styles {
    Bold,
    Dimmed,
    Underline,
    Reversed,
    Italic,
    Blink,
    Hidden,
    Strikethrough,
}

/// The terminal colors a style can name.
#[derive(PartialEq, Eq, Structural, Debug, Clone, Copy, Hash)]
pub enum Color {
    Black,
    Red,
    Green,
    Yellow,
    Blue,
    Magenta,
    Cyan,
    White,
    BrightBlack,
    BrightRed,
    BrightGreen,
    BrightYellow,
    BrightBlue,
    BrightMagenta,
    BrightCyan,
    BrightWhite,
}

/// What a style is: its attributes in order and its colors.
pub struct StyleView {
    pub styles: Seq<Styles>,
    pub foreground: Option<Color>,
    pub background: Option<Color>,
}

/// Attributes and colors applied to a stretch of text.
#[derive(Debug, PartialEq)]
pub struct Style {
    pub styles: Vec<Styles>,
    pub foreground: Option<Color>,
    pub background: Option<Color>,
}

impl View for Style {
    type V = StyleView;

    open spec fn view(&self) -> StyleView {
        StyleView { styles: self.styles@, foreground: self.foreground, background: self.background }
    }
}

pub open spec fn empty_view() -> StyleView {
    StyleView { styles: Seq::empty(), foreground: None, background: None }
}

/// `b` laid over `a`: the attributes of both, and each color of `b` where
/// it has one.
pub open spec fn merged(a: StyleView, b: StyleView) -> StyleView {
    StyleView {
        styles: a.styles + b.styles,
        foreground: if b.foreground is Some { b.foreground } else { a.foreground },
        background: if b.background is Some { b.background } else { a.background },
    }
}

/// The style in force under a stack of styles: each laid over the ones
/// below it.
pub open spec fn resolved(stack: Seq<StyleView>) -> StyleView
    decreases stack.len(),
{
    if stack.len() == 0 {
        empty_view()
    } else {
        merged(resolved(stack.drop_last()), stack.last())
    }
}

pub open spec fn views(stack: Seq<Style>) -> Seq<StyleView> {
    stack.map_values(|s: Style| s@)
}

fn copy_styles(styles: &Vec<Styles>, into: &mut Vec<Styles>)
    ensures
        final(into)@ == old(into)@ + styles@,
{
    let mut i: usize = 0;
    while i < styles.len()
        invariant
            i <= styles@.len(),
            into@ == old(into)@ + styles@.take(i as int),
        decreases styles@.len() - i,
    {
        into.push(styles[i]);
        i = i + 1;
        assert(into@ =~= old(into)@ + styles@.take(i as int));
    }
    assert(styles@.take(i as int) =~= styles@);
}

impl Style {
    pub fn new(styles: Option<Vec<Styles>>, foreground: Option<Color>, background: Option<Color>) -> (r: Style)
        ensures
            r.styles@ == match styles {
                Some(v) => v@,
                None => Seq::<Styles>::empty(),
            },
            r.foreground == foreground,
            r.background == background,
    {
        let styles = match styles {
            Some(v) => v,
            None => Vec::new(),
        };
        Style { styles, foreground, background }
    }

    pub fn empty() -> (r: Style)
        ensures
            r@ == empty_view(),
    {
        Style { styles: Vec::new(), foreground: None, background: None }
    }

    /// An equal style.
    pub fn duplicate(&self) -> (r: Style)
        ensures
            r@ == self@,
    {
        let mut styles: Vec<Styles> = Vec::new();
        copy_styles(&self.styles, &mut styles);
        assert(styles@ =~= self.styles@);
        Style { styles, foreground: self.foreground, background: self.background }
    }

    /// `other` laid over this style.
    pub fn merge(&self, other: Style) -> (r: Style)
        ensures
            r@ == merged(self@, other@),
    {
        let mut styles: Vec<Styles> = Vec::new();
        copy_styles(&self.styles, &mut styles);
        copy_styles(&other.styles, &mut styles);
        assert(styles@ =~= self.styles@ + other.styles@);
        Style {
            styles,
            foreground: if other.foreground.is_some() { other.foreground } else { self.foreground },
            background: if other.background.is_some() { other.background } else { self.background },
        }
    }

    /// The style in force under `stack`.
    pub fn resolve(stack: &Vec<Style>) -> (r: Style)
        ensures
            r@ == resolved(views(stack@)),
    {
        let mut styles: Vec<Styles> = Vec::new();
        let mut foreground: Option<Color> = None;
        let mut background: Option<Color> = None;
        let mut i: usize = 0;
        while i < stack.len()
            invariant
                i <= stack@.len(),
                (StyleView { styles: styles@, foreground, background }) == resolved(views(stack@.take(i as int))),
            decreases stack@.len() - i,
        {
            let style = &stack[i];
            copy_styles(&style.styles, &mut styles);
            if style.foreground.is_some() {
                foreground = style.foreground;
            }
            if style.background.is_some() {
                background = style.background;
            }
            proof {
                assert(views(stack@.take(i as int + 1)).drop_last() =~= views(stack@.take(i as int)));
            }
            i = i + 1;
        }
        assert(stack@.take(i as int) =~= stack@);
        Style { styles, foreground, background }
    }
}

/// A piece of a template.
pub enum PartView {
    OpenTag(Seq<char>),
    CloseTag(Seq<char>),
    Text(Seq<char>),
}

/// A piece of a template: an opening tag `<name>`, a closing tag `</name>`,
/// or text.
#[derive(PartialEq, Eq, Debug, Clone)]
pub enum Part {
    OpenTag(String),
    CloseTag(String),
    Text(String),
}

impl View for Part {
    type V = PartView;

    open spec fn view(&self) -> PartView {
        match self {
            Part::OpenTag(s) => PartView::OpenTag(s@),
            Part::CloseTag(s) => PartView::CloseTag(s@),
            Part::Text(s) => PartView::Text(s@),
        }
    }
}

pub open spec fn is_lower(c: char) -> bool {
    'a' <= c && c <= 'z'
}

/// Number of lower-case ASCII letters from position `j` on.
pub open spec fn lower_run(t: Seq<char>, j: int) -> int
    decreases t.len() - j,
{
    if 0 <= j < t.len() && is_lower(t[j]) {
        1 + lower_run(t, j + 1)
    } else {
        0
    }
}

/// The tag that starts at position `i`, with its length: `<` and an
/// optional `/`, one or more lower-case letters, `>`.
pub open spec fn tag_at(t: Seq<char>, i: int) -> Option<(int, PartView)> {
    if 0 <= i < t.len() && t[i] == '<' {
        let close = i + 1 < t.len() && t[i + 1] == '/';
        let j = if close { i + 2 } else { i + 1 };
        let k = j + lower_run(t, j);
        if k > j && k < t.len() && t[k] == '>' {
            Some(
                (
                    k + 1 - i,
                    if close { PartView::CloseTag(t.subrange(j, k)) } else { PartView::OpenTag(t.subrange(j, k)) },
                ),
            )
        } else {
            None
        }
    } else {
        None
    }
}

/// The text from `start` to `end`, unless it is empty.
pub open spec fn text_between(t: Seq<char>, start: int, end: int) -> Seq<PartView> {
    if start < end {
        seq![PartView::Text(t.subrange(start, end))]
    } else {
        Seq::empty()
    }
}

/// The pieces of `t` from position `i` on, where the text not yet handed
/// out starts at `start`: each tag where it starts, the text between tags.
pub open spec fn scan(t: Seq<char>, start: int, i: int) -> Seq<PartView>
    decreases t.len() - i,
{
    if i >= t.len() {
        text_between(t, start, t.len() as int)
    } else {
        match tag_at(t, i) {
            Some((len, part)) => if len > 0 {
                text_between(t, start, i) + seq![part] + scan(t, i + len, i + len)
            } else {
                Seq::empty()
            },
            None => scan(t, start, i + 1),
        }
    }
}

pub open spec fn part_views(parts: Seq<Part>) -> Seq<PartView> {
    parts.map_values(|p: Part| p@)
}

/// The tag at position `i` of `t`, if one starts there.
fn tag_starting_at(t: &str, n: usize, i: usize) -> (r: Option<(usize, Part)>)
    requires
        n == t@.len(),
        i < n,
    ensures
        match tag_at(t@, i as int) {
            Some((len, part)) => r matches Some((l, p)) && l == len && p@ == part,
            None => r is None,
        },
{
    if t.get_char(i) != '<' {
        return None;
    }
    let close = i + 1 < n && t.get_char(i + 1) == '/';
    let j = if close { i + 2 } else { i + 1 };
    let mut k: usize = j;
    while k < n && 'a' <= t.get_char(k) && t.get_char(k) <= 'z'
        invariant
            j <= k <= n,
            n == t@.len(),
            lower_run(t@, j as int) == (k - j) + lower_run(t@, k as int),
        decreases n - k,
    {
        k = k + 1;
    }
    if k > j && k < n && t.get_char(k) == '>' {
        let name = t.substring_char(j, k).to_owned();
        if close {
            Some((k + 1 - i, Part::CloseTag(name)))
        } else {
            Some((k + 1 - i, Part::OpenTag(name)))
        }
    } else {
        None
    }
}

fn push_text(t: &str, n: usize, start: usize, end: usize, parts: &mut Vec<Part>)
    requires
        n == t@.len(),
        start <= end <= n,
    ensures
        part_views(final(parts)@) == part_views(old(parts)@) + text_between(t@, start as int, end as int),
{
    let ghost before = old(parts)@;
    if start < end {
        let text = t.substring_char(start, end).to_owned();
        parts.push(Part::Text(text));
        assert(part_views(parts@) =~= part_views(before) + text_between(t@, start as int, end as int));
    } else {
        assert(part_views(parts@) =~= part_views(before) + text_between(t@, start as int, end as int));
    }
}

/// Splits a template into tags and the text between them.
pub fn parse_template(t: &str) -> (r: Vec<Part>)
    ensures
        part_views(r@) == scan(t@, 0, 0),
{
    let n = t.unicode_len();
    let mut parts: Vec<Part> = Vec::new();
    let mut start: usize = 0;
    let mut i: usize = 0;
    while i < n
        invariant
            n == t@.len(),
            start <= i <= n,
            scan(t@, 0, 0) == part_views(parts@) + scan(t@, start as int, i as int),
        decreases n - i,
    {
        match tag_starting_at(t, n, i) {
            Some((len, part)) => {
                let ghost before = part_views(parts@);
                push_text(t, n, start, i, &mut parts);
                let ghost pv = part@;
                parts.push(part);
                assert(part_views(parts@) =~= before + text_between(t@, start as int, i as int) + seq![pv]);
                assert(scan(t@, 0, 0) =~= part_views(parts@) + scan(t@, (i + len) as int, (i + len) as int));
                i = i + len;
                start = i;
            },
            None => {
                i = i + 1;
            },
        }
    }
    push_text(t, n, start, n, &mut parts);
    assert(scan(t@, 0, 0) =~= part_views(parts@));
    parts
}

/// Why a template or a style sheet was refused.
#[derive(PartialEq, Eq, Structural, Debug, Clone, Copy)]
pub enum MarkupError {
    /// A closing tag with no open tag left to close.
    InvalidTemplate,
}

/// A stretch of text with the style in force over it.
#[derive(Debug, PartialEq)]
pub struct Segment {
    pub text: String,
    pub style: Style,
}

impl View for Segment {
    type V = (Seq<char>, StyleView);

    open spec fn view(&self) -> (Seq<char>, StyleView) {
        (self.text@, self.style@)
    }
}

pub open spec fn segment_views(s: Seq<Segment>) -> Seq<(Seq<char>, StyleView)> {
    s.map_values(|x: Segment| x@)
}

/// The style a sheet gives to a tag name: the last rule for that name.
pub open spec fn lookup(rules: Seq<(String, Style)>, name: Seq<char>) -> Option<StyleView>
    decreases rules.len(),
{
    if rules.len() == 0 {
        None
    } else if rules.last().0@ == name {
        Some(rules.last().1@)
    } else {
        lookup(rules.drop_last(), name)
    }
}

/// The style an opening tag pushes: its rule's, or an empty one.
pub open spec fn tag_style(rules: Seq<(String, Style)>, name: Seq<char>) -> StyleView {
    match lookup(rules, name) {
        Some(v) => v,
        None => empty_view(),
    }
}

/// The styled text of `parts` under the style stack `stack`: each text
/// under the style its open tags resolve to; nothing where a closing tag
/// finds the stack empty.
pub open spec fn rendered(rules: Seq<(String, Style)>, parts: Seq<PartView>, stack: Seq<StyleView>) -> Option<
    Seq<(Seq<char>, StyleView)>,
>
    decreases parts.len(),
{
    if parts.len() == 0 {
        Some(Seq::empty())
    } else {
        match parts[0] {
            PartView::Text(t) => match rendered(rules, parts.drop_first(), stack) {
                Some(rest) => Some(seq![(t, resolved(stack))] + rest),
                None => None,
            },
            PartView::OpenTag(name) => rendered(rules, parts.drop_first(), stack.push(tag_style(rules, name))),
            PartView::CloseTag(_) => if stack.len() == 0 {
                None
            } else {
                rendered(rules, parts.drop_first(), stack.drop_last())
            },
        }
    }
}

/// `prefix` before what `r` holds.
pub open spec fn after<A>(prefix: Seq<A>, r: Option<Seq<A>>) -> Option<Seq<A>> {
    match r {
        Some(x) => Some(prefix + x),
        None => None,
    }
}

/// Named styles for the tags of templates.
#[derive(Debug, PartialEq)]
pub struct StyleSheet {
    /// Tag names and their styles; a later rule for a name wins.
    pub rules: Vec<(String, Style)>,
}

impl StyleSheet {
    pub fn new(rules: Vec<(String, Style)>) -> (r: StyleSheet)
        ensures
            r.rules@ == rules@,
    {
        StyleSheet { rules }
    }

    /// The style an opening tag `name` pushes.
    pub fn style_for(&self, name: &String) -> (r: Style)
        ensures
            r@ == tag_style(self.rules@, name@),
    {
        let mut i: usize = self.rules.len();
        assert(self.rules@.take(i as int) =~= self.rules@);
        while i > 0
            invariant
                i <= self.rules@.len(),
                lookup(self.rules@, name@) == lookup(self.rules@.take(i as int), name@),
            decreases i,
        {
            let ghost prefix = self.rules@.take(i as int);
            assert(prefix.drop_last() =~= self.rules@.take(i as int - 1));
            if self.rules[i - 1].0 == *name {
                return self.rules[i - 1].1.duplicate();
            }
            i = i - 1;
        }
        Style::empty()
    }

    /// The styled text of a template: the text between tags, each stretch
    /// under the style that the tags open around it resolve to. A closing
    /// tag with nothing left to close is an error.
    pub fn render(&self, t: &str) -> (r: Result<Vec<Segment>, MarkupError>)
        ensures
            match rendered(self.rules@, scan(t@, 0, 0), Seq::empty()) {
                Some(segs) => r matches Ok(v) && segment_views(v@) == segs,
                None => r == Err::<Vec<Segment>, MarkupError>(MarkupError::InvalidTemplate),
            },
    {
        let parts = parse_template(t);
        let ghost pv = part_views(parts@);
        let mut stack: Vec<Style> = Vec::new();
        let mut out: Vec<Segment> = Vec::new();
        let mut i: usize = 0;
        proof {
            assert(pv.skip(0) =~= pv);
            assert(views(stack@) =~= Seq::empty());
            assert(segment_views(out@) =~= Seq::<(Seq<char>, StyleView)>::empty());
            match rendered(self.rules@, pv, Seq::empty()) {
                Some(x) => {
                    assert(Seq::<(Seq<char>, StyleView)>::empty() + x =~= x);
                },
                None => {},
            }
        }
        while i < parts.len()
            invariant
                pv == part_views(parts@),
                pv == scan(t@, 0, 0),
                i <= parts@.len(),
                rendered(self.rules@, pv, Seq::empty()) == after(
                    segment_views(out@),
                    rendered(self.rules@, pv.skip(i as int), views(stack@)),
                ),
            decreases parts@.len() - i,
        {
            let ghost rest = pv.skip(i as int);
            assert(rest[0] == parts@[i as int]@);
            assert(rest.drop_first() =~= pv.skip(i as int + 1));
            match &parts[i] {
                Part::Text(text) => {
                    let style = Style::resolve(&stack);
                    let ghost before = segment_views(out@);
                    out.push(Segment { text: text.clone(), style });
                    proof {
                        let seg = (text@, resolved(views(stack@)));
                        assert(segment_views(out@) =~= before.push(seg));
                        match rendered(self.rules@, pv.skip(i as int + 1), views(stack@)) {
                            Some(x) => {
                                assert(before + (seq![seg] + x) =~= before.push(seg) + x);
                            },
                            None => {},
                        }
                    }
                },
                Part::OpenTag(name) => {
                    let style = self.style_for(name);
                    let ghost before = views(stack@);
                    stack.push(style);
                    assert(views(stack@) =~= before.push(tag_style(self.rules@, name@)));
                },
                Part::CloseTag(_) => {
                    if stack.len() == 0 {
                        return Err(MarkupError::InvalidTemplate);
                    }
                    let ghost before = views(stack@);
                    stack.pop();
                    assert(views(stack@) =~= before.drop_last());
                },
            }
            i = i + 1;
        }
        assert(segment_views(out@) + Seq::empty() =~= segment_views(out@));
        Ok(out)
    }
}

} // verus!
