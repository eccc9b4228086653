//! The text heuristic for suspicious messages.
//!
//! A message is screened for three kinds of link abuse, in a fixed order:
//! sexual terms next to a `discord.gg` invite, a `.gift` link whose domain
//! is not `discord`, and a link whose domain either misspells `discord`
//! (edit distance 1..3) or rides along with the words `free` or `nitro`;
//! last, a markdown link whose visible text names one domain while the
//! underlying URL names another.
//!
//! The patterns are the module's own grammar, stated as spec functions
//! over the character sequence: a scheme prefix, a greedy run of
//! non-whitespace (or non-separator) characters, and the last position in
//! that run where the closing literal fits, which is the capture the
//! greedy match yields.

use crate::distance::range_edit_distance;
use crate::distance::spec_levenshtein;
use crate::scan;
use crate::scan::contains_ci;
use crate::scan::contains_seq;
use crate::scan::matches_at;
use vstd::prelude::*;

verus! {

/// Why a message's text was flagged.
#[derive(Clone, Copy, Debug, PartialEq, Eq, Structural)]
pub enum SpamReason {
    SexRelatedTerms,
    UrlDiscordMispell,
    Phishing,
}

impl SpamReason {
    /// The human-readable name of the reason.
    pub open spec fn spec_name(self) -> Seq<char> {
        match self {
            SpamReason::SexRelatedTerms => "Sex related terms"@,
            SpamReason::UrlDiscordMispell => "Misleading URL"@,
            SpamReason::Phishing => "Phishing with free terms"@,
        }
    }

    /// The label shown to moderators for this reason.
    pub fn as_str(&self) -> (r: &'static str)
        ensures
            r@ == self.spec_name(),
    {
        match self {
            SpamReason::SexRelatedTerms => "Sex related terms",
            SpamReason::UrlDiscordMispell => "Misleading URL",
            SpamReason::Phishing => "Phishing with free terms",
        }
    }
}

/// ASCII whitespace; a link must not span it.
pub open spec fn is_ws(c: char) -> bool {
    c == ' ' || c == '\t' || c == '\n' || c == '\r' || c == '\u{b}' || c == '\u{c}'
}

fn ws_char(c: char) -> (b: bool)
    ensures
        b == is_ws(c),
{
    c == ' ' || c == '\t' || c == '\n' || c == '\r' || c == '\u{b}' || c == '\u{c}'
}

/// Index just past a maximal run of `/` starting at `q`.
pub open spec fn skip_slashes(s: Seq<char>, q: int) -> int
    decreases s.len() - q,
    when 0 <= q <= s.len()
{
    if q >= s.len() || s[q] != '/' {
        q
    } else {
        skip_slashes(s, q + 1)
    }
}

/// Index of the first whitespace character at or after `a` (or the end):
/// the end of the maximal non-whitespace run starting at `a`.
pub open spec fn nonws_end(s: Seq<char>, a: int) -> int
    decreases s.len() - a,
    when 0 <= a <= s.len()
{
    if a >= s.len() || is_ws(s[a]) {
        a
    } else {
        nonws_end(s, a + 1)
    }
}

/// The largest position in `lo ..= j` where `pat` occurs in `s`, if any:
/// where a greedy match places the literal that follows a `*` pattern.
pub open spec fn last_match_before(s: Seq<char>, pat: Seq<char>, lo: int, j: int) -> Option<int>
    decreases j - lo + 1,
    when lo <= j + 1
{
    if j < lo {
        None
    } else if matches_at(s, pat, j) {
        Some(j)
    } else {
        last_match_before(s, pat, lo, j - 1)
    }
}

/// Finds `last_match_before(s@, pat@, lo, e)` by scanning down from `e`.
fn last_match_exec(s: &Vec<char>, pat: &Vec<char>, lo: usize, e: usize) -> (r: Option<usize>)
    requires
        lo <= e + 1,
    ensures
        match r {
            Some(j) => lo <= j <= e && last_match_before(s@, pat@, lo as int, e as int) == Some(
                j as int,
            ),
            None => last_match_before(s@, pat@, lo as int, e as int) is None,
        },
{
    if lo > e {
        return None;
    }
    let mut j = e;
    loop
        invariant
            lo <= j <= e,
            last_match_before(s@, pat@, lo as int, e as int) == last_match_before(
                s@,
                pat@,
                lo as int,
                j as int,
            ),
        decreases j - lo,
    {
        if scan::match_at(s, pat, j) {
            return Some(j);
        }
        if j == lo {
            proof {
                assert(last_match_before(s@, pat@, lo as int, j as int) == last_match_before(
                    s@,
                    pat@,
                    lo as int,
                    j - 1,
                ));
            }
            return None;
        }
        j = j - 1;
    }
}

/// Finds `last_match_before(s@, pat@, lo_gt + 1, e)`: the last match
/// strictly above `lo_gt`, as the nonempty-capture searches need.
fn last_match_above_exec(s: &Vec<char>, pat: &Vec<char>, lo_gt: usize, e: usize) -> (r: Option<
    usize,
>)
    requires
        lo_gt <= e,
    ensures
        match r {
            Some(j) => lo_gt < j <= e && last_match_before(s@, pat@, lo_gt + 1, e as int) == Some(
                j as int,
            ),
            None => last_match_before(s@, pat@, lo_gt + 1, e as int) is None,
        },
{
    if e <= lo_gt {
        return None;
    }
    let mut j = e;
    loop
        invariant
            lo_gt < j <= e,
            last_match_before(s@, pat@, lo_gt + 1, e as int) == last_match_before(
                s@,
                pat@,
                lo_gt + 1,
                j as int,
            ),
        decreases j,
    {
        if scan::match_at(s, pat, j) {
            return Some(j);
        }
        if j == lo_gt + 1 {
            proof {
                assert(last_match_before(s@, pat@, lo_gt + 1, j as int) == last_match_before(
                    s@,
                    pat@,
                    lo_gt + 1,
                    j - 1,
                ));
            }
            return None;
        }
        j = j - 1;
    }
}

/// Position just past a `.gift` link's scheme at `p`: the pattern accepts
/// `https` or `http`, a colon and one slash (more slashes follow the
/// scheme as part of the link body).
pub open spec fn gift_scheme_end(s: Seq<char>, p: int) -> Option<int> {
    if matches_at(s, "https:/"@, p) {
        Some(p + 7)
    } else if matches_at(s, "http:/"@, p) {
        Some(p + 6)
    } else {
        None
    }
}

/// The domain a `.gift` link starting at `p` captures: the text between
/// the scheme's slashes and the last `.gift` inside the link's
/// non-whitespace run.  `None` when no `.gift` link starts at `p`.
pub open spec fn gift_capture_at(s: Seq<char>, p: int) -> Option<Seq<char>> {
    match gift_scheme_end(s, p) {
        Some(q) => {
            let a = skip_slashes(s, q);
            let e = nonws_end(s, a);
            match last_match_before(s, ".gift"@, a, e) {
                Some(j) => Some(s.subrange(a, j)),
                None => None,
            }
        },
        None => None,
    }
}

/// The capture of the leftmost `.gift` link at or after `p`.
pub open spec fn gift_capture(s: Seq<char>, p: int) -> Option<Seq<char>>
    decreases s.len() - p,
    when 0 <= p <= s.len()
{
    if p >= s.len() {
        None
    } else if gift_capture_at(s, p) is Some {
        gift_capture_at(s, p)
    } else {
        gift_capture(s, p + 1)
    }
}

/// Evaluates `gift_capture_at(s@, p)`, returning the capture's bounds.
fn gift_at_exec(
    s: &Vec<char>,
    p: usize,
    https_sl: &Vec<char>,
    http_sl: &Vec<char>,
    dotgift: &Vec<char>,
) -> (r: Option<(usize, usize)>)
    requires
        https_sl@ == "https:/"@,
        http_sl@ == "http:/"@,
        dotgift@ == ".gift"@,
        p <= s@.len(),
    ensures
        match r {
            Some((a, b)) => a <= b <= s@.len() && gift_capture_at(s@, p as int) == Some(
                s@.subrange(a as int, b as int),
            ),
            None => gift_capture_at(s@, p as int) is None,
        },
{
    proof {
        reveal_strlit("https:/");
        reveal_strlit("http:/");
    }
    let n = s.len();
    let q: usize = if scan::match_at(s, https_sl, p) {
        assert(p + 7 <= n);
        p + 7
    } else if scan::match_at(s, http_sl, p) {
        assert(p + 6 <= n);
        p + 6
    } else {
        return None;
    };
    assert(gift_scheme_end(s@, p as int) == Some(q as int));
    assert(q <= s@.len());
    let mut a = q;
    while a < s.len() && s[a] == '/'
        invariant
            q <= a <= s@.len(),
            skip_slashes(s@, q as int) == skip_slashes(s@, a as int),
        decreases s@.len() - a,
    {
        a += 1;
    }
    assert(skip_slashes(s@, q as int) == a);
    let mut e = a;
    while e < s.len() && !ws_char(s[e])
        invariant
            a <= e <= s@.len(),
            nonws_end(s@, a as int) == nonws_end(s@, e as int),
        decreases s@.len() - e,
    {
        e += 1;
    }
    assert(nonws_end(s@, a as int) == e);
    match last_match_exec(s, dotgift, a, e) {
        Some(j) => Some((a, j)),
        None => None,
    }
}

/// Finds the leftmost `.gift` link in `s` and returns its capture's
/// bounds.
fn gift_scan(s: &Vec<char>) -> (r: Option<(usize, usize)>)
    ensures
        match r {
            Some((a, b)) => a <= b <= s@.len() && gift_capture(s@, 0) == Some(
                s@.subrange(a as int, b as int),
            ),
            None => gift_capture(s@, 0) is None,
        },
{
    let https_sl = scan::to_chars("https:/");
    let http_sl = scan::to_chars("http:/");
    let dotgift = scan::to_chars(".gift");
    let mut p: usize = 0;
    while p < s.len()
        invariant
            p <= s@.len(),
            https_sl@ == "https:/"@,
            http_sl@ == "http:/"@,
            dotgift@ == ".gift"@,
            gift_capture(s@, 0) == gift_capture(s@, p as int),
        decreases s@.len() - p,
    {
        match gift_at_exec(s, p, &https_sl, &http_sl, &dotgift) {
            Some((a, b)) => {
                return Some((a, b));
            },
            None => {},
        }
        p += 1;
    }
    None
}

/// Position just past a URL scheme at `p` for the misleading-domain
/// check: `http://` or `https://`.
pub open spec fn url_scheme_end(s: Seq<char>, p: int) -> Option<int> {
    if matches_at(s, "http://"@, p) {
        Some(p + 7)
    } else if matches_at(s, "https://"@, p) {
        Some(p + 8)
    } else {
        None
    }
}

/// The domain a URL starting at `p` captures: the text between the
/// scheme and the last `.` inside the URL's non-whitespace run.  `None`
/// when no URL with a dotted domain starts at `p`.
pub open spec fn url_capture_at(s: Seq<char>, p: int) -> Option<Seq<char>> {
    match url_scheme_end(s, p) {
        Some(q) => {
            let e = nonws_end(s, q);
            match last_match_before(s, "."@, q, e) {
                Some(j) => Some(s.subrange(q, j)),
                None => None,
            }
        },
        None => None,
    }
}

/// The capture of the leftmost URL at or after `p`.
pub open spec fn url_capture(s: Seq<char>, p: int) -> Option<Seq<char>>
    decreases s.len() - p,
    when 0 <= p <= s.len()
{
    if p >= s.len() {
        None
    } else if url_capture_at(s, p) is Some {
        url_capture_at(s, p)
    } else {
        url_capture(s, p + 1)
    }
}

/// Evaluates `url_capture_at(s@, p)`, returning the capture's bounds.
fn url_at_exec(
    s: &Vec<char>,
    p: usize,
    http_css: &Vec<char>,
    https_css: &Vec<char>,
    dot: &Vec<char>,
) -> (r: Option<(usize, usize)>)
    requires
        http_css@ == "http://"@,
        https_css@ == "https://"@,
        dot@ == "."@,
        p <= s@.len(),
    ensures
        match r {
            Some((a, b)) => a <= b <= s@.len() && url_capture_at(s@, p as int) == Some(
                s@.subrange(a as int, b as int),
            ),
            None => url_capture_at(s@, p as int) is None,
        },
{
    proof {
        reveal_strlit("http://");
        reveal_strlit("https://");
    }
    let n = s.len();
    let q: usize = if scan::match_at(s, http_css, p) {
        assert(p + 7 <= n);
        p + 7
    } else if scan::match_at(s, https_css, p) {
        assert(p + 8 <= n);
        p + 8
    } else {
        return None;
    };
    assert(url_scheme_end(s@, p as int) == Some(q as int));
    let mut e = q;
    while e < s.len() && !ws_char(s[e])
        invariant
            q <= e <= s@.len(),
            nonws_end(s@, q as int) == nonws_end(s@, e as int),
        decreases s@.len() - e,
    {
        e += 1;
    }
    assert(nonws_end(s@, q as int) == e);
    match last_match_exec(s, dot, q, e) {
        Some(j) => Some((q, j)),
        None => None,
    }
}

/// Finds the leftmost URL in `s` and returns its domain capture's bounds.
fn url_scan(s: &Vec<char>) -> (r: Option<(usize, usize)>)
    ensures
        match r {
            Some((a, b)) => a <= b <= s@.len() && url_capture(s@, 0) == Some(
                s@.subrange(a as int, b as int),
            ),
            None => url_capture(s@, 0) is None,
        },
{
    let http_css = scan::to_chars("http://");
    let https_css = scan::to_chars("https://");
    let dot = scan::to_chars(".");
    let mut p: usize = 0;
    while p < s.len()
        invariant
            p <= s@.len(),
            http_css@ == "http://"@,
            https_css@ == "https://"@,
            dot@ == "."@,
            url_capture(s@, 0) == url_capture(s@, p as int),
        decreases s@.len() - p,
    {
        match url_at_exec(s, p, &http_css, &https_css, &dot) {
            Some((a, b)) => {
                return Some((a, b));
            },
            None => {},
        }
        p += 1;
    }
    None
}

/// First `://` at or after `k` with no `stop` character in between:
/// where the lazy prefix of a markdown-link side ends.  `None` when a
/// `stop` comes first or the text runs out.
pub open spec fn md_scheme_from(s: Seq<char>, k: int, stop: char) -> Option<int>
    decreases s.len() - k,
    when 0 <= k <= s.len()
{
    if k + 3 > s.len() {
        None
    } else if matches_at(s, "://"@, k) {
        Some(k + 3)
    } else if s[k] == stop {
        None
    } else {
        md_scheme_from(s, k + 1, stop)
    }
}

/// End of a domain at `a`: the first `/` or `:` at or after `a`, or the
/// end of the text.
pub open spec fn domain_end(s: Seq<char>, a: int) -> int
    decreases s.len() - a,
    when 0 <= a <= s.len()
{
    if a >= s.len() || s[a] == '/' || s[a] == ':' {
        a
    } else {
        domain_end(s, a + 1)
    }
}

/// The two domains a markdown link `[text](url)` starting at `p`
/// captures: the domain named in the visible text and the domain named
/// in the underlying URL.  `None` when no such link starts at `p`.
pub open spec fn md_captures_at(s: Seq<char>, p: int) -> Option<(Seq<char>, Seq<char>)> {
    if p < 0 || p >= s.len() || s[p] != '[' {
        None
    } else {
        match md_scheme_from(s, p + 1, ']') {
            Some(d0) => {
                let e1 = domain_end(s, d0);
                match last_match_before(s, "]"@, d0 + 1, e1) {
                    Some(j1) => {
                        if j1 + 1 >= s.len() || s[j1 + 1] != '(' {
                            None
                        } else {
                            match md_scheme_from(s, j1 + 2, ')') {
                                Some(d3) => {
                                    let e2 = domain_end(s, d3);
                                    match last_match_before(s, ")"@, d3 + 1, e2) {
                                        Some(j2) => Some(
                                            (s.subrange(d0, j1), s.subrange(d3, j2)),
                                        ),
                                        None => None,
                                    }
                                },
                                None => None,
                            }
                        }
                    },
                    None => None,
                }
            },
            None => None,
        }
    }
}

/// The captures of the leftmost markdown link at or after `p`.
pub open spec fn md_captures(s: Seq<char>, p: int) -> Option<(Seq<char>, Seq<char>)>
    decreases s.len() - p,
    when 0 <= p <= s.len()
{
    if p >= s.len() {
        None
    } else if md_captures_at(s, p) is Some {
        md_captures_at(s, p)
    } else {
        md_captures(s, p + 1)
    }
}

/// Evaluates `md_scheme_from(s@, k0, stop)`.
fn md_scheme_exec(s: &Vec<char>, k0: usize, stop: char, css: &Vec<char>) -> (r: Option<usize>)
    requires
        css@ == "://"@,
        k0 <= s@.len(),
    ensures
        match r {
            Some(d) => 3 <= d <= s@.len() && md_scheme_from(s@, k0 as int, stop) == Some(d as int),
            None => md_scheme_from(s@, k0 as int, stop) is None,
        },
{
    proof {
        reveal_strlit("://");
    }
    let mut k = k0;
    loop
        invariant
            k0 <= k <= s@.len(),
            css@ == "://"@,
            md_scheme_from(s@, k0 as int, stop) == md_scheme_from(s@, k as int, stop),
        decreases s@.len() - k,
    {
        if s.len() < 3 || k > s.len() - 3 {
            return None;
        }
        if scan::match_at(s, css, k) {
            return Some(k + 3);
        }
        if s[k] == stop {
            return None;
        }
        k += 1;
    }
}

/// Evaluates `md_captures_at(s@, p)`, returning the captures' bounds.
fn md_at_exec(s: &Vec<char>, p: usize, css: &Vec<char>, rbracket: &Vec<char>, rparen: &Vec<char>)
    -> (r: Option<(usize, usize, usize, usize)>)
    requires
        css@ == "://"@,
        rbracket@ == "]"@,
        rparen@ == ")"@,
        p < s@.len(),
    ensures
        match r {
            Some((a1, b1, a2, b2)) => a1 <= b1 <= s@.len() && a2 <= b2 <= s@.len()
                && md_captures_at(s@, p as int) == Some(
                (s@.subrange(a1 as int, b1 as int), s@.subrange(a2 as int, b2 as int)),
            ),
            None => md_captures_at(s@, p as int) is None,
        },
{
    let n = s.len();
    if s[p] != '[' {
        return None;
    }
    let d0 = match md_scheme_exec(s, p + 1, ']', css) {
        Some(d) => d,
        None => {
            return None;
        },
    };
    let mut e1 = d0;
    while e1 < s.len() && s[e1] != '/' && s[e1] != ':'
        invariant
            d0 <= e1 <= s@.len(),
            domain_end(s@, d0 as int) == domain_end(s@, e1 as int),
        decreases s@.len() - e1,
    {
        e1 += 1;
    }
    assert(domain_end(s@, d0 as int) == e1);
    let j1 = match last_match_above_exec(s, rbracket, d0, e1) {
        Some(j) => j,
        None => {
            return None;
        },
    };
    if j1 >= n - 1 {
        return None;
    }
    if s[j1 + 1] != '(' {
        return None;
    }
    let d3 = match md_scheme_exec(s, j1 + 2, ')', css) {
        Some(d) => d,
        None => {
            return None;
        },
    };
    let mut e2 = d3;
    while e2 < s.len() && s[e2] != '/' && s[e2] != ':'
        invariant
            d3 <= e2 <= s@.len(),
            domain_end(s@, d3 as int) == domain_end(s@, e2 as int),
        decreases s@.len() - e2,
    {
        e2 += 1;
    }
    assert(domain_end(s@, d3 as int) == e2);
    match last_match_above_exec(s, rparen, d3, e2) {
        Some(j2) => Some((d0, j1, d3, j2)),
        None => None,
    }
}

/// Finds the leftmost markdown link in `s` and returns the bounds of its
/// two domain captures.
fn md_scan(s: &Vec<char>) -> (r: Option<(usize, usize, usize, usize)>)
    ensures
        match r {
            Some((a1, b1, a2, b2)) => a1 <= b1 <= s@.len() && a2 <= b2 <= s@.len()
                && md_captures(s@, 0) == Some(
                (s@.subrange(a1 as int, b1 as int), s@.subrange(a2 as int, b2 as int)),
            ),
            None => md_captures(s@, 0) is None,
        },
{
    let css = scan::to_chars("://");
    let rbracket = scan::to_chars("]");
    let rparen = scan::to_chars(")");
    let mut p: usize = 0;
    while p < s.len()
        invariant
            p <= s@.len(),
            css@ == "://"@,
            rbracket@ == "]"@,
            rparen@ == ")"@,
            md_captures(s@, 0) == md_captures(s@, p as int),
        decreases s@.len() - p,
    {
        match md_at_exec(s, p, &css, &rbracket, &rparen) {
            Some(r) => {
                return Some(r);
            },
            None => {},
        }
        p += 1;
    }
    None
}

/// The message carries one of the sexual terms the `discord.gg` screen
/// looks for, ignoring ASCII case.
pub open spec fn spec_has_sex_term(s: Seq<char>) -> bool {
    ||| contains_ci(s, "onlyfans"@)
    ||| contains_ci(s, "only"@)
    ||| contains_ci(s, "porn"@)
    ||| contains_ci(s, "leak"@)
    ||| contains_ci(s, "nsfw"@)
    ||| contains_ci(s, "nude"@)
    ||| contains_ci(s, "xxx"@)
    ||| contains_ci(s, "girl"@)
    ||| contains_ci(s, "sex"@)
}

fn has_sex_term(s: &Vec<char>) -> (b: bool)
    ensures
        b == spec_has_sex_term(s@),
{
    let onlyfans = scan::to_chars("onlyfans");
    let only = scan::to_chars("only");
    let porn = scan::to_chars("porn");
    let leak = scan::to_chars("leak");
    let nsfw = scan::to_chars("nsfw");
    let nude = scan::to_chars("nude");
    let xxx = scan::to_chars("xxx");
    let girl = scan::to_chars("girl");
    let sex = scan::to_chars("sex");
    scan::find_sub_ci(s, &onlyfans) || scan::find_sub_ci(s, &only) || scan::find_sub_ci(s, &porn)
        || scan::find_sub_ci(s, &leak) || scan::find_sub_ci(s, &nsfw) || scan::find_sub_ci(
        s,
        &nude,
    ) || scan::find_sub_ci(s, &xxx) || scan::find_sub_ci(s, &girl) || scan::find_sub_ci(s, &sex)
}

/// The message carries the word `free` or `nitro`, ignoring ASCII case.
pub open spec fn spec_has_susp_term(s: Seq<char>) -> bool {
    contains_ci(s, "free"@) || contains_ci(s, "nitro"@)
}

fn has_susp_term(s: &Vec<char>) -> (b: bool)
    ensures
        b == spec_has_susp_term(s@),
{
    let free = scan::to_chars("free");
    let nitro = scan::to_chars("nitro");
    scan::find_sub_ci(s, &free) || scan::find_sub_ci(s, &nitro)
}

/// A `.gift` link is present whose domain is not exactly `discord`.
pub open spec fn spec_gift_phish(s: Seq<char>) -> bool {
    match gift_capture(s, 0) {
        Some(cap) => cap != "discord"@,
        None => false,
    }
}

/// A URL is present whose domain misspells `discord`: edit distance at
/// least 1 and at most 3.
pub open spec fn spec_url_mispell(s: Seq<char>) -> bool {
    match url_capture(s, 0) {
        Some(cap) => 1 <= spec_levenshtein(cap, "discord"@) < 4,
        None => false,
    }
}

/// A URL is present whose domain does not misspell `discord`, next to a
/// suspicious term elsewhere in the message.
pub open spec fn spec_url_suspicious(s: Seq<char>) -> bool {
    match url_capture(s, 0) {
        Some(cap) => !(1 <= spec_levenshtein(cap, "discord"@) < 4) && spec_has_susp_term(s),
        None => false,
    }
}

/// A markdown link is present whose visible text names a different
/// domain than the underlying URL.
pub open spec fn spec_md_phish(s: Seq<char>) -> bool {
    match md_captures(s, 0) {
        Some(caps) => caps.0 != caps.1,
        None => false,
    }
}

/// The verdict of the text heuristic on a message: the checks run in a
/// fixed order and the first decisive one wins.
pub open spec fn spec_text_verdict(s: Seq<char>) -> Option<SpamReason> {
    if contains_seq(s, "discord.gg"@) && spec_has_sex_term(s) {
        Some(SpamReason::SexRelatedTerms)
    } else if spec_gift_phish(s) {
        Some(SpamReason::Phishing)
    } else if spec_url_mispell(s) {
        Some(SpamReason::UrlDiscordMispell)
    } else if spec_url_suspicious(s) {
        Some(SpamReason::Phishing)
    } else if spec_md_phish(s) {
        Some(SpamReason::Phishing)
    } else {
        None
    }
}

/// Checks whether the message looks like a phishing or spam link and
/// says why, or returns `None` for a clean message.
pub fn check_is_phishing_link(msg: &str) -> (r: Option<SpamReason>)
    ensures
        r == spec_text_verdict(msg@),
{
    let s = scan::to_chars(msg);
    let discord_gg = scan::to_chars("discord.gg");
    if scan::find_sub(&s, &discord_gg) && has_sex_term(&s) {
        return Some(SpamReason::SexRelatedTerms);
    }
    if let Some((a, b)) = gift_scan(&s) {
        let discord = scan::to_chars("discord");
        if !scan::range_eq(&s, a, b, &discord) {
            return Some(SpamReason::Phishing);
        }
    }
    if let Some((a, b)) = url_scan(&s) {
        let d = range_edit_distance(&s, a, b, "discord");
        if d >= 1 && d < 4 {
            return Some(SpamReason::UrlDiscordMispell);
        }
        if has_susp_term(&s) {
            return Some(SpamReason::Phishing);
        }
    }
    if let Some((a1, b1, a2, b2)) = md_scan(&s) {
        if !scan::ranges_eq(&s, a1, b1, a2, b2) {
            return Some(SpamReason::Phishing);
        }
    }
    None
}

} // verus!
