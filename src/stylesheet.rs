use vstd::prelude::*;

use crate::markup::{empty_view, resolved, views, Color, MarkupError, Style, StyleSheet, StyleView, Styles};

verus! {

// The style sheet grammar:
//
//   sheet        := rule*
//   rule         := ws selector ws '{' ws declarations [';'] ws '}' ws
//   selector     := ASCII letter+
//   declarations := [declaration (';' declaration)*]
//   declaration  := ws ('foreground' | 'background') ws ':' ws color ws
//                 | ws 'styles' ws ':' (ws style ws)+
//
// Each `..._at` spec function reads `s` from position `i` and gives the
// position where it stopped with the value read, or nothing where the text
// at `i` is not what it reads.

pub open spec fn is_space(c: char) -> bool {
    c == ' ' || c == '\t' || c == '\r' || c == '\n'
}

pub open spec fn is_alpha(c: char) -> bool {
    ('a' <= c && c <= 'z') || ('A' <= c && c <= 'Z')
}

/// Number of whitespace characters from position `i` on.
pub open spec fn space_run(s: Seq<char>, i: int) -> int
    decreases s.len() - i,
{
    if 0 <= i < s.len() && is_space(s[i]) {
        1 + space_run(s, i + 1)
    } else {
        0
    }
}

/// The position after the whitespace at `i`.
pub open spec fn after_space(s: Seq<char>, i: int) -> int {
    i + space_run(s, i)
}

/// Number of ASCII letters from position `i` on.
pub open spec fn alpha_run(s: Seq<char>, i: int) -> int
    decreases s.len() - i,
{
    if 0 <= i < s.len() && is_alpha(s[i]) {
        1 + alpha_run(s, i + 1)
    } else {
        0
    }
}

/// `w` stands at position `i` of `s`.
pub open spec fn starts_at(s: Seq<char>, i: int, w: Seq<char>) -> bool {
    0 <= i && i + w.len() <= s.len() && s.subrange(i, i + w.len()) == w
}

pub open spec fn char_at(s: Seq<char>, i: int, c: char) -> bool {
    0 <= i < s.len() && s[i] == c
}

/// A text attribute, by name.
pub open spec fn style_at(s: Seq<char>, i: int) -> Option<(int, Styles)> {
    if starts_at(s, i, "bold"@) {
        Some((i + "bold"@.len(), Styles::Bold))
    } else if starts_at(s, i, "dimmed"@) {
        Some((i + "dimmed"@.len(), Styles::Dimmed))
    } else if starts_at(s, i, "underline"@) {
        Some((i + "underline"@.len(), Styles::Underline))
    } else if starts_at(s, i, "reversed"@) {
        Some((i + "reversed"@.len(), Styles::Reversed))
    } else if starts_at(s, i, "italic"@) {
        Some((i + "italic"@.len(), Styles::Italic))
    } else if starts_at(s, i, "blink"@) {
        Some((i + "blink"@.len(), Styles::Blink))
    } else if starts_at(s, i, "hidden"@) {
        Some((i + "hidden"@.len(), Styles::Hidden))
    } else if starts_at(s, i, "strikethrough"@) {
        Some((i + "strikethrough"@.len(), Styles::Strikethrough))
    } else {
        None
    }
}

/// A color, by name.
pub open spec fn color_at(s: Seq<char>, i: int) -> Option<(int, Color)> {
    if starts_at(s, i, "black"@) {
        Some((i + "black"@.len(), Color::Black))
    } else if starts_at(s, i, "red"@) {
        Some((i + "red"@.len(), Color::Red))
    } else if starts_at(s, i, "green"@) {
        Some((i + "green"@.len(), Color::Green))
    } else if starts_at(s, i, "yellow"@) {
        Some((i + "yellow"@.len(), Color::Yellow))
    } else if starts_at(s, i, "blue"@) {
        Some((i + "blue"@.len(), Color::Blue))
    } else if starts_at(s, i, "magenta"@) {
        Some((i + "magenta"@.len(), Color::Magenta))
    } else if starts_at(s, i, "cyan"@) {
        Some((i + "cyan"@.len(), Color::Cyan))
    } else if starts_at(s, i, "white"@) {
        Some((i + "white"@.len(), Color::White))
    } else if starts_at(s, i, "bright-black"@) {
        Some((i + "bright-black"@.len(), Color::BrightBlack))
    } else if starts_at(s, i, "bright-red"@) {
        Some((i + "bright-red"@.len(), Color::BrightRed))
    } else if starts_at(s, i, "bright-green"@) {
        Some((i + "bright-green"@.len(), Color::BrightGreen))
    } else if starts_at(s, i, "bright-yellow"@) {
        Some((i + "bright-yellow"@.len(), Color::BrightYellow))
    } else if starts_at(s, i, "bright-blue"@) {
        Some((i + "bright-blue"@.len(), Color::BrightBlue))
    } else if starts_at(s, i, "bright-magenta"@) {
        Some((i + "bright-magenta"@.len(), Color::BrightMagenta))
    } else if starts_at(s, i, "bright-cyan"@) {
        Some((i + "bright-cyan"@.len(), Color::BrightCyan))
    } else if starts_at(s, i, "bright-white"@) {
        Some((i + "bright-white"@.len(), Color::BrightWhite))
    } else {
        None
    }
}

/// A rule's name: one or more ASCII letters.
pub open spec fn selector_at(s: Seq<char>, i: int) -> Option<(int, Seq<char>)> {
    let k = alpha_run(s, i);
    if k > 0 {
        Some((i + k, s.subrange(i, i + k)))
    } else {
        None
    }
}

pub open spec fn color_style(foreground: bool, c: Color) -> StyleView {
    if foreground {
        StyleView { styles: Seq::empty(), foreground: Some(c), background: None }
    } else {
        StyleView { styles: Seq::empty(), foreground: None, background: Some(c) }
    }
}

/// `foreground: <color>` or `background: <color>`.
pub open spec fn color_declaration_at(s: Seq<char>, i: int) -> Option<(int, StyleView)> {
    let a = after_space(s, i);
    let attribute = if starts_at(s, a, "foreground"@) {
        Some((a + "foreground"@.len(), true))
    } else if starts_at(s, a, "background"@) {
        Some((a + "background"@.len(), false))
    } else {
        None
    };
    match attribute {
        None => None,
        Some((k, foreground)) => {
            let b = after_space(s, k);
            if char_at(s, b, ':') {
                match color_at(s, after_space(s, b + 1)) {
                    None => None,
                    Some((e, c)) => Some((after_space(s, e), color_style(foreground, c))),
                }
            } else {
                None
            }
        },
    }
}

/// One or more attribute names, each with the whitespace around it.
pub open spec fn style_list_at(s: Seq<char>, i: int) -> Option<(int, Seq<Styles>)>
    decreases s.len() - i,
{
    match style_at(s, after_space(s, i)) {
        None => None,
        Some((k, st)) => {
            let e = after_space(s, k);
            if i < e <= s.len() {
                match style_list_at(s, e) {
                    None => Some((e, seq![st])),
                    Some((e2, more)) => Some((e2, seq![st] + more)),
                }
            } else {
                Some((e, seq![st]))
            }
        },
    }
}

/// `styles: <name> <name> ...`.
pub open spec fn styles_declaration_at(s: Seq<char>, i: int) -> Option<(int, StyleView)> {
    let a = after_space(s, i);
    if starts_at(s, a, "styles"@) {
        let b = after_space(s, a + "styles"@.len());
        if char_at(s, b, ':') {
            match style_list_at(s, b + 1) {
                None => None,
                Some((e, l)) => Some((e, StyleView { styles: l, foreground: None, background: None })),
            }
        } else {
            None
        }
    } else {
        None
    }
}

pub open spec fn declaration_at(s: Seq<char>, i: int) -> Option<(int, StyleView)> {
    match color_declaration_at(s, i) {
        Some(x) => Some(x),
        None => styles_declaration_at(s, i),
    }
}

/// The declarations after the first, each behind a `;`; a `;` not followed
/// by a declaration is left unread.
pub open spec fn declaration_tail_at(s: Seq<char>, i: int) -> (int, Seq<StyleView>)
    decreases s.len() - i,
{
    if char_at(s, i, ';') {
        match declaration_at(s, i + 1) {
            Some((e, d)) => if i < e <= s.len() {
                let (e2, more) = declaration_tail_at(s, e);
                (e2, seq![d] + more)
            } else {
                (i, Seq::empty())
            },
            None => (i, Seq::empty()),
        }
    } else {
        (i, Seq::empty())
    }
}

/// Declarations separated by `;`, merged in order.
pub open spec fn declarations_at(s: Seq<char>, i: int) -> (int, StyleView) {
    match declaration_at(s, i) {
        None => (i, empty_view()),
        Some((e, d)) => {
            let (e2, more) = declaration_tail_at(s, e);
            (e2, resolved(seq![d] + more))
        },
    }
}

/// `{ declarations [;] }` with the whitespace around it.
pub open spec fn wrapped_declarations_at(s: Seq<char>, i: int) -> Option<(int, StyleView)> {
    let a = after_space(s, i);
    if char_at(s, a, '{') {
        let (c, st) = declarations_at(s, after_space(s, a + 1));
        let d = if char_at(s, c, ';') { c + 1 } else { c };
        let e = after_space(s, d);
        if char_at(s, e, '}') {
            Some((after_space(s, e + 1), st))
        } else {
            None
        }
    } else {
        None
    }
}

pub open spec fn rule_at(s: Seq<char>, i: int) -> Option<(int, (Seq<char>, StyleView))> {
    match selector_at(s, after_space(s, i)) {
        None => None,
        Some((k, name)) => match wrapped_declarations_at(s, after_space(s, k)) {
            None => None,
            Some((e, st)) => Some((e, (name, st))),
        },
    }
}

/// As many rules as follow one another from `i` on.
pub open spec fn rules_at(s: Seq<char>, i: int) -> (int, Seq<(Seq<char>, StyleView)>)
    decreases s.len() - i,
{
    match rule_at(s, i) {
        Some((e, r)) => if i < e <= s.len() {
            let (e2, more) = rules_at(s, e);
            (e2, seq![r] + more)
        } else {
            (i, Seq::empty())
        },
        None => (i, Seq::empty()),
    }
}

pub open spec fn rule_views(rules: Seq<(String, Style)>) -> Seq<(Seq<char>, StyleView)> {
    rules.map_values(|r: (String, Style)| (r.0@, r.1@))
}

// ---------------------------------------------------------------------------
// Readers
// ---------------------------------------------------------------------------

fn space_at(s: &str, j: usize) -> (r: bool)
    requires
        j < s@.len(),
    ensures
        r == is_space(s@[j as int]),
{
    let c = s.get_char(j);
    c == ' ' || c == '\t' || c == '\r' || c == '\n'
}

fn alpha_at(s: &str, j: usize) -> (r: bool)
    requires
        j < s@.len(),
    ensures
        r == is_alpha(s@[j as int]),
{
    let c = s.get_char(j);
    ('a' <= c && c <= 'z') || ('A' <= c && c <= 'Z')
}

fn char_is(s: &str, n: usize, j: usize, c: char) -> (r: bool)
    requires
        n == s@.len(),
    ensures
        r == char_at(s@, j as int, c),
{
    j < n && s.get_char(j) == c
}

fn skip_space(s: &str, n: usize, i: usize) -> (r: usize)
    requires
        n == s@.len(),
        i <= n,
    ensures
        r == after_space(s@, i as int),
        i <= r <= n,
{
    let mut j: usize = i;
    while j < n && space_at(s, j)
        invariant
            i <= j <= n,
            n == s@.len(),
            space_run(s@, i as int) == (j - i) + space_run(s@, j as int),
        decreases n - j,
    {
        j = j + 1;
    }
    j
}

fn keyword_at(s: &str, n: usize, i: usize, w: &str) -> (r: Option<usize>)
    requires
        n == s@.len(),
        i <= n,
    ensures
        r == if starts_at(s@, i as int, w@) {
            Some((i + w@.len()) as usize)
        } else {
            None::<usize>
        },
{
    let m = w.unicode_len();
    if m > n - i {
        return None;
    }
    let mut k: usize = 0;
    while k < m
        invariant
            k <= m <= n - i,
            n == s@.len(),
            m == w@.len(),
            forall|t: int| 0 <= t < k ==> s@[i + t] == w@[t],
        decreases m - k,
    {
        if s.get_char(i + k) != w.get_char(k) {
            assert(s@.subrange(i as int, i + m)[k as int] != w@[k as int]);
            return None;
        }
        k = k + 1;
    }
    assert(s@.subrange(i as int, i + m) =~= w@);
    Some(i + m)
}

fn style_from(s: &str, n: usize, i: usize) -> (r: Option<(usize, Styles)>)
    requires
        n == s@.len(),
        i <= n,
    ensures
        match style_at(s@, i as int) {
            Some((e, v)) => r == Some((e as usize, v)) && e <= n,
            None => r is None,
        },
{
    if let Some(e) = keyword_at(s, n, i, "bold") {
        return Some((e, Styles::Bold));
    }
    if let Some(e) = keyword_at(s, n, i, "dimmed") {
        return Some((e, Styles::Dimmed));
    }
    if let Some(e) = keyword_at(s, n, i, "underline") {
        return Some((e, Styles::Underline));
    }
    if let Some(e) = keyword_at(s, n, i, "reversed") {
        return Some((e, Styles::Reversed));
    }
    if let Some(e) = keyword_at(s, n, i, "italic") {
        return Some((e, Styles::Italic));
    }
    if let Some(e) = keyword_at(s, n, i, "blink") {
        return Some((e, Styles::Blink));
    }
    if let Some(e) = keyword_at(s, n, i, "hidden") {
        return Some((e, Styles::Hidden));
    }
    if let Some(e) = keyword_at(s, n, i, "strikethrough") {
        return Some((e, Styles::Strikethrough));
    }
    None
}

fn color_from(s: &str, n: usize, i: usize) -> (r: Option<(usize, Color)>)
    requires
        n == s@.len(),
        i <= n,
    ensures
        match color_at(s@, i as int) {
            Some((e, v)) => r == Some((e as usize, v)) && e <= n,
            None => r is None,
        },
{
    if let Some(e) = keyword_at(s, n, i, "black") {
        return Some((e, Color::Black));
    }
    if let Some(e) = keyword_at(s, n, i, "red") {
        return Some((e, Color::Red));
    }
    if let Some(e) = keyword_at(s, n, i, "green") {
        return Some((e, Color::Green));
    }
    if let Some(e) = keyword_at(s, n, i, "yellow") {
        return Some((e, Color::Yellow));
    }
    if let Some(e) = keyword_at(s, n, i, "blue") {
        return Some((e, Color::Blue));
    }
    if let Some(e) = keyword_at(s, n, i, "magenta") {
        return Some((e, Color::Magenta));
    }
    if let Some(e) = keyword_at(s, n, i, "cyan") {
        return Some((e, Color::Cyan));
    }
    if let Some(e) = keyword_at(s, n, i, "white") {
        return Some((e, Color::White));
    }
    if let Some(e) = keyword_at(s, n, i, "bright-black") {
        return Some((e, Color::BrightBlack));
    }
    if let Some(e) = keyword_at(s, n, i, "bright-red") {
        return Some((e, Color::BrightRed));
    }
    if let Some(e) = keyword_at(s, n, i, "bright-green") {
        return Some((e, Color::BrightGreen));
    }
    if let Some(e) = keyword_at(s, n, i, "bright-yellow") {
        return Some((e, Color::BrightYellow));
    }
    if let Some(e) = keyword_at(s, n, i, "bright-blue") {
        return Some((e, Color::BrightBlue));
    }
    if let Some(e) = keyword_at(s, n, i, "bright-magenta") {
        return Some((e, Color::BrightMagenta));
    }
    if let Some(e) = keyword_at(s, n, i, "bright-cyan") {
        return Some((e, Color::BrightCyan));
    }
    if let Some(e) = keyword_at(s, n, i, "bright-white") {
        return Some((e, Color::BrightWhite));
    }
    None
}

fn selector_from(s: &str, n: usize, i: usize) -> (r: Option<(usize, String)>)
    requires
        n == s@.len(),
        i <= n,
    ensures
        match selector_at(s@, i as int) {
            Some((e, v)) => r matches Some((k, name)) && k == e && name@ == v && e <= n,
            None => r is None,
        },
{
    let mut j: usize = i;
    while j < n && alpha_at(s, j)
        invariant
            i <= j <= n,
            n == s@.len(),
            alpha_run(s@, i as int) == (j - i) + alpha_run(s@, j as int),
        decreases n - j,
    {
        j = j + 1;
    }
    if j > i {
        Some((j, s.substring_char(i, j).to_owned()))
    } else {
        None
    }
}

fn color_declaration_from(s: &str, n: usize, i: usize) -> (r: Option<(usize, Style)>)
    requires
        n == s@.len(),
        i <= n,
    ensures
        match color_declaration_at(s@, i as int) {
            Some((e, v)) => r matches Some((k, st)) && k == e && st@ == v && e <= n,
            None => r is None,
        },
{
    let a = skip_space(s, n, i);
    let (k, foreground) = match keyword_at(s, n, a, "foreground") {
        Some(k) => (k, true),
        None => match keyword_at(s, n, a, "background") {
            Some(k) => (k, false),
            None => return None,
        },
    };
    let b = skip_space(s, n, k);
    if !char_is(s, n, b, ':') {
        return None;
    }
    let c = skip_space(s, n, b + 1);
    match color_from(s, n, c) {
        Some((e, color)) => {
            let end = skip_space(s, n, e);
            let style = if foreground {
                Style { styles: Vec::new(), foreground: Some(color), background: None }
            } else {
                Style { styles: Vec::new(), foreground: None, background: Some(color) }
            };
            assert(style@ =~= color_style(foreground, color));
            Some((end, style))
        },
        None => None,
    }
}

fn style_list_from(s: &str, n: usize, i: usize) -> (r: Option<(usize, Vec<Styles>)>)
    requires
        n == s@.len(),
        i <= n,
    ensures
        match style_list_at(s@, i as int) {
            Some((e, v)) => r matches Some((k, l)) && k == e && l@ == v && e <= n,
            None => r is None,
        },
    decreases n - i,
{
    let a = skip_space(s, n, i);
    match style_from(s, n, a) {
        None => None,
        Some((k, st)) => {
            let e = skip_space(s, n, k);
            if i < e {
                match style_list_from(s, n, e) {
                    None => Some((e, vec![st])),
                    Some((e2, more)) => {
                        let mut l: Vec<Styles> = vec![st];
                        let mut more = more;
                        l.append(&mut more);
                        Some((e2, l))
                    },
                }
            } else {
                Some((e, vec![st]))
            }
        },
    }
}

fn styles_declaration_from(s: &str, n: usize, i: usize) -> (r: Option<(usize, Style)>)
    requires
        n == s@.len(),
        i <= n,
    ensures
        match styles_declaration_at(s@, i as int) {
            Some((e, v)) => r matches Some((k, st)) && k == e && st@ == v && e <= n,
            None => r is None,
        },
{
    let a = skip_space(s, n, i);
    let k = match keyword_at(s, n, a, "styles") {
        Some(k) => k,
        None => return None,
    };
    let b = skip_space(s, n, k);
    if !char_is(s, n, b, ':') {
        return None;
    }
    match style_list_from(s, n, b + 1) {
        Some((e, styles)) => Some((e, Style { styles, foreground: None, background: None })),
        None => None,
    }
}

fn declaration_from(s: &str, n: usize, i: usize) -> (r: Option<(usize, Style)>)
    requires
        n == s@.len(),
        i <= n,
    ensures
        match declaration_at(s@, i as int) {
            Some((e, v)) => r matches Some((k, st)) && k == e && st@ == v && e <= n,
            None => r is None,
        },
{
    match color_declaration_from(s, n, i) {
        Some(x) => Some(x),
        None => styles_declaration_from(s, n, i),
    }
}

fn declarations_from(s: &str, n: usize, i: usize) -> (r: (usize, Style))
    requires
        n == s@.len(),
        i <= n,
    ensures
        r.0 == declarations_at(s@, i as int).0,
        r.1@ == declarations_at(s@, i as int).1,
        r.0 <= n,
{
    let (mut pos, first) = match declaration_from(s, n, i) {
        None => return (i, Style::empty()),
        Some(x) => x,
    };
    let ghost e0 = pos as int;
    let mut list: Vec<Style> = vec![first];
    assert(views(list@) =~= seq![first@]);
    loop
        invariant
            n == s@.len(),
            e0 <= pos <= n,
            declaration_tail_at(s@, e0).0 == declaration_tail_at(s@, pos as int).0,
            views(list@) + declaration_tail_at(s@, pos as int).1 == seq![first@] + declaration_tail_at(s@, e0).1,
        ensures
            e0 <= pos <= n,
            declaration_tail_at(s@, e0).0 == pos,
            views(list@) == seq![first@] + declaration_tail_at(s@, e0).1,
        decreases n - pos,
    {
        if !char_is(s, n, pos, ';') {
            assert(views(list@) + Seq::<StyleView>::empty() =~= views(list@));
            break;
        }
        match declaration_from(s, n, pos + 1) {
            Some((e, d)) => {
                if !(pos < e) {
                    assert(views(list@) + Seq::<StyleView>::empty() =~= views(list@));
                    break;
                }
                let ghost before = views(list@);
                let ghost dv = d@;
                list.push(d);
                proof {
                    let tail = declaration_tail_at(s@, e as int).1;
                    assert(views(list@) =~= before.push(dv));
                    assert(before + (seq![dv] + tail) =~= before.push(dv) + tail);
                }
                pos = e;
            },
            None => {
                assert(views(list@) + Seq::<StyleView>::empty() =~= views(list@));
                break;
            },
        }
    }
    (pos, Style::resolve(&list))
}

fn wrapped_declarations_from(s: &str, n: usize, i: usize) -> (r: Option<(usize, Style)>)
    requires
        n == s@.len(),
        i <= n,
    ensures
        match wrapped_declarations_at(s@, i as int) {
            Some((e, v)) => r matches Some((k, st)) && k == e && st@ == v && e <= n,
            None => r is None,
        },
{
    let a = skip_space(s, n, i);
    if !char_is(s, n, a, '{') {
        return None;
    }
    let b = skip_space(s, n, a + 1);
    let (c, style) = declarations_from(s, n, b);
    let d = if char_is(s, n, c, ';') { c + 1 } else { c };
    let e = skip_space(s, n, d);
    if !char_is(s, n, e, '}') {
        return None;
    }
    Some((skip_space(s, n, e + 1), style))
}

fn rule_from(s: &str, n: usize, i: usize) -> (r: Option<(usize, (String, Style))>)
    requires
        n == s@.len(),
        i <= n,
    ensures
        match rule_at(s@, i as int) {
            Some((e, v)) => r matches Some((k, x)) && k == e && x.0@ == v.0 && x.1@ == v.1 && e <= n,
            None => r is None,
        },
{
    let a = skip_space(s, n, i);
    let (k, name) = match selector_from(s, n, a) {
        Some(x) => x,
        None => return None,
    };
    let b = skip_space(s, n, k);
    match wrapped_declarations_from(s, n, b) {
        Some((e, style)) => Some((e, (name, style))),
        None => None,
    }
}

fn rules_from(s: &str, n: usize, i: usize) -> (r: (usize, Vec<(String, Style)>))
    requires
        n == s@.len(),
        i <= n,
    ensures
        r.0 == rules_at(s@, i as int).0,
        rule_views(r.1@) == rules_at(s@, i as int).1,
{
    let mut pos: usize = i;
    let mut list: Vec<(String, Style)> = Vec::new();
    assert(rule_views(list@) =~= Seq::<(Seq<char>, StyleView)>::empty());
    assert(Seq::<(Seq<char>, StyleView)>::empty() + rules_at(s@, i as int).1 =~= rules_at(s@, i as int).1);
    loop
        invariant
            n == s@.len(),
            i <= pos <= n,
            rules_at(s@, i as int).0 == rules_at(s@, pos as int).0,
            rule_views(list@) + rules_at(s@, pos as int).1 == rules_at(s@, i as int).1,
        ensures
            rules_at(s@, i as int).0 == pos,
            rule_views(list@) == rules_at(s@, i as int).1,
        decreases n - pos,
    {
        match rule_from(s, n, pos) {
            Some((e, rule)) => {
                if !(pos < e) {
                    assert(rule_views(list@) + Seq::<(Seq<char>, StyleView)>::empty() =~= rule_views(list@));
                    break;
                }
                let ghost before = rule_views(list@);
                let ghost rv = (rule.0@, rule.1@);
                list.push(rule);
                proof {
                    let tail = rules_at(s@, e as int).1;
                    assert(rule_views(list@) =~= before.push(rv));
                    assert(before + (seq![rv] + tail) =~= before.push(rv) + tail);
                }
                pos = e;
            },
            None => {
                assert(rule_views(list@) + Seq::<(Seq<char>, StyleView)>::empty() =~= rule_views(list@));
                break;
            },
        }
    }
    (pos, list)
}

/// Reads a text attribute name at the start of `s`.
pub fn styles(s: &str) -> (r: Option<(usize, Styles)>)
    ensures
        match style_at(s@, 0) {
            Some((e, v)) => r matches Some((k, x)) && k == e && x == v,
            None => r is None,
        },
{
    style_from(s, s.unicode_len(), 0)
}

/// Reads a color name at the start of `s`.
pub fn color(s: &str) -> (r: Option<(usize, Color)>)
    ensures
        match color_at(s@, 0) {
            Some((e, v)) => r matches Some((k, x)) && k == e && x == v,
            None => r is None,
        },
{
    color_from(s, s.unicode_len(), 0)
}

/// Reads a rule name at the start of `s`.
pub fn selector(s: &str) -> (r: Option<(usize, String)>)
    ensures
        match selector_at(s@, 0) {
            Some((e, v)) => r matches Some((k, x)) && k == e && x@ == v,
            None => r is None,
        },
{
    selector_from(s, s.unicode_len(), 0)
}

/// Reads a `foreground:` or `background:` declaration.
pub fn color_style_declaration(s: &str) -> (r: Option<(usize, Style)>)
    ensures
        match color_declaration_at(s@, 0) {
            Some((e, v)) => r matches Some((k, x)) && k == e && x@ == v,
            None => r is None,
        },
{
    color_declaration_from(s, s.unicode_len(), 0)
}

/// Reads a `styles:` declaration.
pub fn styles_style_declaration(s: &str) -> (r: Option<(usize, Style)>)
    ensures
        match styles_declaration_at(s@, 0) {
            Some((e, v)) => r matches Some((k, x)) && k == e && x@ == v,
            None => r is None,
        },
{
    styles_declaration_from(s, s.unicode_len(), 0)
}

/// Reads one declaration of either kind.
pub fn declaration(s: &str) -> (r: Option<(usize, Style)>)
    ensures
        match declaration_at(s@, 0) {
            Some((e, v)) => r matches Some((k, x)) && k == e && x@ == v,
            None => r is None,
        },
{
    declaration_from(s, s.unicode_len(), 0)
}

/// Reads a braced list of declarations.
pub fn wrapped_declarations(s: &str) -> (r: Option<(usize, Style)>)
    ensures
        match wrapped_declarations_at(s@, 0) {
            Some((e, v)) => r matches Some((k, x)) && k == e && x@ == v,
            None => r is None,
        },
{
    wrapped_declarations_from(s, s.unicode_len(), 0)
}

/// Reads one rule: a name and its braced declarations.
pub fn rule(s: &str) -> (r: Option<(usize, (String, Style))>)
    ensures
        match rule_at(s@, 0) {
            Some((e, v)) => r matches Some((k, x)) && k == e && x.0@ == v.0 && x.1@ == v.1,
            None => r is None,
        },
{
    rule_from(s, s.unicode_len(), 0)
}

/// Reads `;`-separated declarations, merged in order; reads nothing where
/// no declaration starts `s`.
pub fn declarations(s: &str) -> (r: Option<(usize, Style)>)
    ensures
        r matches Some((k, x)) && k == declarations_at(s@, 0).0 && x@ == declarations_at(s@, 0).1,
{
    Some(declarations_from(s, s.unicode_len(), 0))
}

/// Reads as many rules as follow one another at the start of `s`.
pub fn rules(s: &str) -> (r: Option<(usize, Vec<(String, Style)>)>)
    ensures
        r matches Some((k, x)) && k == rules_at(s@, 0).0 && rule_views(x@) == rules_at(s@, 0).1,
{
    Some(rules_from(s, s.unicode_len(), 0))
}

/// The rules of a style sheet: those that follow one another from its
/// start; reading stops at the first text that is not a rule.
pub fn parse(s: &str) -> (r: Result<Vec<(String, Style)>, MarkupError>)
    ensures
        r matches Ok(x) && rule_views(x@) == rules_at(s@, 0).1,
{
    let (_, rules) = rules_from(s, s.unicode_len(), 0);
    Ok(rules)
}

impl StyleSheet {
    /// A style sheet from its text.
    pub fn parse(s: &str) -> (r: Result<StyleSheet, MarkupError>)
        ensures
            r matches Ok(x) && rule_views(x.rules@) == rules_at(s@, 0).1,
    {
        let (_, rules) = rules_from(s, s.unicode_len(), 0);
        Ok(StyleSheet { rules })
    }
}

impl Default for StyleSheet {
    /// Bold for `<bold>`, italic for `<em>`, struck through for
    /// `<strikethrough>`.
    fn default() -> (r: StyleSheet)
        ensures
            rule_views(r.rules@) == seq![
                ("bold"@, StyleView { styles: seq![Styles::Bold], foreground: None, background: None }),
                ("em"@, StyleView { styles: seq![Styles::Italic], foreground: None, background: None }),
                ("strikethrough"@, StyleView { styles: seq![Styles::Strikethrough], foreground: None, background: None }),
            ],
    {
        let bold = Style::new(Some(vec![Styles::Bold]), None, None);
        let em = Style::new(Some(vec![Styles::Italic]), None, None);
        let strike = Style::new(Some(vec![Styles::Strikethrough]), None, None);
        assert(bold.styles@ =~= seq![Styles::Bold]);
        assert(em.styles@ =~= seq![Styles::Italic]);
        assert(strike.styles@ =~= seq![Styles::Strikethrough]);
        let mut rules: Vec<(String, Style)> = Vec::new();
        rules.push(("bold".to_owned(), bold));
        rules.push(("em".to_owned(), em));
        rules.push(("strikethrough".to_owned(), strike));
        let r = StyleSheet { rules };
        assert(rule_views(r.rules@) =~= seq![
            ("bold"@, StyleView { styles: seq![Styles::Bold], foreground: None, background: None }),
            ("em"@, StyleView { styles: seq![Styles::Italic], foreground: None, background: None }),
            ("strikethrough"@, StyleView { styles: seq![Styles::Strikethrough], foreground: None, background: None }),
        ]);
        r
    }
}

} // verus!
