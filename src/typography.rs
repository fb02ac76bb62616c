//! Wikidot's typographical substitutions:
//! * `` `` .. '' `` to fancy double quotes
//! * `` ` .. ' `` to fancy single quotes
//! * `,, .. ''` to fancy lowered double quotes
//! * `...` to an ellipsis
//!
//! Text is modelled as its UTF-8 bytes, since matches are reported as byte
//! spans.

use vstd::prelude::*;
use vstd::string::StringSliceAdditionalSpecFns;
use vstd::utf8::{
    encode_utf8, encode_utf8_valid_utf8, is_char_boundary, is_char_boundary_iff_not_is_continuation_byte,
    is_char_boundary_start_end_of_seq, valid_utf8,
};

verus! {

/// The match of `pattern` in `text` that starts the search at byte `start`:
/// the byte span of the whole match and of its first group, if that group
/// took part; nothing if there is no match or the pattern does not compile.
pub uninterp spec fn regex_captures(pattern: Seq<char>, text: Seq<u8>, start: int) -> Option<
    ((usize, usize), Option<(usize, usize)>),
>;

/// The bytes of a string.
pub open spec fn bytes_of(s: Seq<char>) -> Seq<u8> {
    encode_utf8(s)
}

/// `s` with the bytes in `start..end` replaced by `with`.
pub open spec fn splice(s: Seq<u8>, start: int, end: int, with: Seq<u8>) -> Seq<u8> {
    s.subrange(0, start) + with + s.subrange(end, s.len() as int)
}

/// Whether `start..end` is a span of whole characters in `s`.
pub open spec fn is_span(s: Seq<u8>, start: int, end: int) -> bool {
    &&& 0 <= start <= end <= s.len()
    &&& is_char_boundary(s, start)
    &&& is_char_boundary(s, end)
}

/// A character boundary before a splice stays one after it.
proof fn lemma_boundary_kept(s: Seq<u8>, start: int, end: int, with: Seq<u8>, i: int)
    requires
        valid_utf8(s),
        valid_utf8(with),
        valid_utf8(splice(s, start, end, with)),
        is_span(s, start, end),
        0 <= i <= start,
        is_char_boundary(s, i),
    ensures
        is_char_boundary(splice(s, start, end, with), i),
{
    let n = splice(s, start, end, with);
    if i == n.len() {
        is_char_boundary_start_end_of_seq(n);
    } else {
        if i < start {
            assert(n[i] == s[i]);
            is_char_boundary_iff_not_is_continuation_byte(s, i);
        } else if with.len() > 0 {
            assert(n[i] == with[0]);
            is_char_boundary_iff_not_is_continuation_byte(with, 0);
        } else {
            assert(n[i] == s[end]);
            is_char_boundary_iff_not_is_continuation_byte(s, end);
        }
        is_char_boundary_iff_not_is_continuation_byte(n, i);
    }
}

/// Relies on `regex::Regex::new` to compile `pattern`, and on
/// `Regex::captures_at` (read through `Captures::get`, `Match::start` and
/// `Match::end`) for its leftmost-first match in `text` at or after byte
/// `start`: it lies inside the searched span, each group lies inside the
/// whole match, and all offsets fall on character boundaries. The pattern is
/// compiled here, so that the result is a function of the pattern's text.
#[verifier::external_body]
fn captures_at(pattern: &str, text: &str, start: usize) -> (r: Option<
    ((usize, usize), Option<(usize, usize)>),
>)
    requires
        start <= text.spec_bytes().len(),
    ensures
        r == regex_captures(pattern@, text.spec_bytes(), start as int),
        r matches Some((m, _)) ==> start <= m.0 && is_span(text.spec_bytes(), m.0 as int, m.1 as int),
        r matches Some((m, Some(g))) ==> m.0 <= g.0 && g.1 <= m.1 && is_span(
            text.spec_bytes(),
            g.0 as int,
            g.1 as int,
        ),
{
    let re = regex::Regex::new(pattern).ok()?;
    let caps = re.captures_at(text, start)?;
    let whole = caps.get(0)?;
    Some(((whole.start(), whole.end()), caps.get(1).map(|g| (g.start(), g.end()))))
}

/// Relies on `String::replace_range`: the bytes in `start..end` give way to
/// `with`.
#[verifier::external_body]
fn replace_range(text: &mut String, start: usize, end: usize, with: &str)
    requires
        is_span(bytes_of(old(text)@), start as int, end as int),
    ensures
        bytes_of(final(text)@) == splice(
            bytes_of(old(text)@),
            start as int,
            end as int,
            with.spec_bytes(),
        ),
{
    text.replace_range(start..end, with)
}

/// A rewrite of the text by a regular expression.
#[derive(Clone, Copy, Debug)]
pub enum Replacer {
    /// Replaces the text of the first group of each match (or the whole
    /// match, where the group did not take part) with `replacement`,
    /// going on after what was put in.
    RegexReplace { pattern: &'static str, replacement: &'static str },
    /// Replaces each match with its first group between `begin` and `end`,
    /// searching again from the start each time.
    ///
    /// For instance, with a pattern that matches `[% (.+) %]`, `begin` `<(`
    /// and `end` `)>`, the text `[% wikidork %]` becomes `<(wikidork)>`.
    RegexSurround { pattern: &'static str, begin: &'static str, end: &'static str },
}

/// The text after replacing matches from byte `offset` on, for at most
/// `fuel` more matches.
pub open spec fn replace_from(
    pattern: Seq<char>,
    replacement: Seq<u8>,
    text: Seq<u8>,
    offset: int,
    fuel: nat,
) -> Seq<u8>
    decreases fuel,
{
    if fuel == 0 || offset > text.len() as usize {
        text
    } else {
        match regex_captures(pattern, text, offset) {
            None => text,
            Some((whole, group)) => {
                let span = match group {
                    Some(g) => g,
                    None => whole,
                };
                let next = span.0 + replacement.len() as usize;
                if next > usize::MAX {
                    text
                } else {
                    replace_from(
                        pattern,
                        replacement,
                        splice(text, span.0 as int, span.1 as int, replacement),
                        next,
                        (fuel - 1) as nat,
                    )
                }
            },
        }
    }
}

/// The text after surrounding the first group of each match with `begin`
/// and `end` in place of the match, for at most `fuel` matches.
pub open spec fn surround_from(
    pattern: Seq<char>,
    begin: Seq<u8>,
    end: Seq<u8>,
    text: Seq<u8>,
    fuel: nat,
) -> Seq<u8>
    decreases fuel,
{
    if fuel == 0 {
        text
    } else {
        match regex_captures(pattern, text, 0) {
            Some((whole, Some(group))) => surround_from(
                pattern,
                begin,
                end,
                splice(
                    splice(text, group.1 as int, whole.1 as int, end),
                    whole.0 as int,
                    group.0 as int,
                    begin,
                ),
                (fuel - 1) as nat,
            ),
            _ => text,
        }
    }
}

/// The number of rewrites that a pass makes at most: one per byte of its
/// input, more than any of the patterns here can match.
pub open spec fn pass_fuel(text: Seq<u8>) -> nat {
    text.len() as usize as nat
}

impl Replacer {
    /// The text after this rewrite.
    pub open spec fn apply(&self, text: Seq<u8>) -> Seq<u8> {
        match *self {
            Replacer::RegexReplace { pattern, replacement } => replace_from(
                pattern@,
                replacement.spec_bytes(),
                text,
                0,
                pass_fuel(text),
            ),
            Replacer::RegexSurround { pattern, begin, end } => surround_from(
                pattern@,
                begin.spec_bytes(),
                end.spec_bytes(),
                text,
                pass_fuel(text),
            ),
        }
    }

    /// The regular expression of this rewrite.
    pub fn pattern(&self) -> (r: &'static str)
        ensures
            r == (match *self {
                Replacer::RegexReplace { pattern, .. } => pattern,
                Replacer::RegexSurround { pattern, .. } => pattern,
            }),
    {
        match *self {
            Replacer::RegexReplace { pattern, .. } => pattern,
            Replacer::RegexSurround { pattern, .. } => pattern,
        }
    }

    /// Rewrites `text` in place.
    pub fn replace(&self, text: &mut String)
        ensures
            bytes_of(final(text)@) == self.apply(bytes_of(old(text)@)),
    {
        match *self {
            Replacer::RegexReplace { pattern, replacement } => {
                replace_matches(text, pattern, replacement)
            },
            Replacer::RegexSurround { pattern, begin, end } => {
                surround_matches(text, pattern, begin, end)
            },
        }
    }
}

fn replace_matches(text: &mut String, pattern: &str, replacement: &str)
    ensures
        bytes_of(final(text)@) == replace_from(
            pattern@,
            replacement.spec_bytes(),
            bytes_of(old(text)@),
            0,
            pass_fuel(bytes_of(old(text)@)),
        ),
{
    let ghost goal = replace_from(
        pattern@,
        replacement.spec_bytes(),
        bytes_of(text@),
        0,
        pass_fuel(bytes_of(text@)),
    );
    let mut fuel: usize = text.as_str().len();
    let mut offset: usize = 0;
    while fuel > 0
        invariant
            replace_from(
                pattern@,
                replacement.spec_bytes(),
                bytes_of(text@),
                offset as int,
                fuel as nat,
            ) == goal,
        decreases fuel,
    {
        let len = text.as_str().len();
        if offset > len {
            fuel = 0;
        } else {
            match captures_at(pattern, text.as_str(), offset) {
                None => {
                    fuel = 0;
                },
                Some((whole, group)) => {
                    let span = match group {
                        Some(g) => g,
                        None => whole,
                    };
                    let rlen = replacement.len();
                    if span.0 > usize::MAX - rlen {
                        fuel = 0;
                    } else {
                        replace_range(text, span.0, span.1, replacement);
                        offset = span.0 + rlen;
                        fuel = fuel - 1;
                    }
                },
            }
        }
    }
}

/// Replaces the match spanning `whole` with the text of `group` between
/// `begin` and `end`.
pub fn surround_match(text: &mut String, whole: (usize, usize), group: (usize, usize), begin: &str, end: &str)
    requires
        whole.0 <= group.0,
        group.1 <= whole.1,
        is_span(bytes_of(old(text)@), whole.0 as int, whole.1 as int),
        is_span(bytes_of(old(text)@), group.0 as int, group.1 as int),
    ensures
        bytes_of(final(text)@) == splice(
            splice(bytes_of(old(text)@), group.1 as int, whole.1 as int, end.spec_bytes()),
            whole.0 as int,
            group.0 as int,
            begin.spec_bytes(),
        ),
{
    let ghost t0 = bytes_of(text@);
    proof {
        encode_utf8_valid_utf8(text@);
    }
    replace_range(text, group.1, whole.1, end);
    proof {
        encode_utf8_valid_utf8(text@);
        encode_utf8_valid_utf8(end@);
        lemma_boundary_kept(t0, group.1 as int, whole.1 as int, end.spec_bytes(), whole.0 as int);
        lemma_boundary_kept(t0, group.1 as int, whole.1 as int, end.spec_bytes(), group.0 as int);
    }
    replace_range(text, whole.0, group.0, begin);
}

fn surround_matches(text: &mut String, pattern: &str, begin: &str, end: &str)
    ensures
        bytes_of(final(text)@) == surround_from(
            pattern@,
            begin.spec_bytes(),
            end.spec_bytes(),
            bytes_of(old(text)@),
            pass_fuel(bytes_of(old(text)@)),
        ),
{
    let ghost goal = surround_from(
        pattern@,
        begin.spec_bytes(),
        end.spec_bytes(),
        bytes_of(text@),
        pass_fuel(bytes_of(text@)),
    );
    let mut fuel: usize = text.as_str().len();
    while fuel > 0
        invariant
            surround_from(
                pattern@,
                begin.spec_bytes(),
                end.spec_bytes(),
                bytes_of(text@),
                fuel as nat,
            ) == goal,
        decreases fuel,
    {
        match captures_at(pattern, text.as_str(), 0) {
            Some((whole, Some(group))) => {
                surround_match(text, whole, group, begin, end);
                fuel = fuel - 1;
            },
            _ => {
                fuel = 0;
            },
        }
    }
}

/// Fancy double quotes.
pub open spec fn spec_double_quotes() -> Replacer {
    Replacer::RegexSurround { pattern: "``(.*?)''", begin: "\u{201c}", end: "\u{201d}" }
}

/// Fancy lowered double quotes.
pub open spec fn spec_low_double_quotes() -> Replacer {
    Replacer::RegexSurround { pattern: ",,(.*?)''", begin: "\u{201e}", end: "\u{201d}" }
}

/// Fancy single quotes.
pub open spec fn spec_single_quotes() -> Replacer {
    Replacer::RegexSurround { pattern: "`(.*?)'", begin: "\u{2018}", end: "\u{2019}" }
}

/// Three dots, plain or spaced, not next to another dot, to an ellipsis.
pub open spec fn spec_horizontal_ellipsis() -> Replacer {
    Replacer::RegexReplace {
        pattern: r"(?:^|[^\.])(?<repl>(\.\.|\. \. )\.)(?:[^\.]|$)",
        replacement: "\u{2026}",
    }
}

/// The rewrite to fancy double quotes.
pub fn double_quotes() -> (r: Replacer)
    ensures
        r == spec_double_quotes(),
{
    Replacer::RegexSurround { pattern: "``(.*?)''", begin: "\u{201c}", end: "\u{201d}" }
}

/// The rewrite to fancy lowered double quotes.
pub fn low_double_quotes() -> (r: Replacer)
    ensures
        r == spec_low_double_quotes(),
{
    Replacer::RegexSurround { pattern: ",,(.*?)''", begin: "\u{201e}", end: "\u{201d}" }
}

/// The rewrite to fancy single quotes.
pub fn single_quotes() -> (r: Replacer)
    ensures
        r == spec_single_quotes(),
{
    Replacer::RegexSurround { pattern: "`(.*?)'", begin: "\u{2018}", end: "\u{2019}" }
}

/// The rewrite to ellipses.
pub fn horizontal_ellipsis() -> (r: Replacer)
    ensures
        r == spec_horizontal_ellipsis(),
{
    Replacer::RegexReplace {
        pattern: r"(?:^|[^\.])(?<repl>(\.\.|\. \. )\.)(?:[^\.]|$)",
        replacement: "\u{2026}",
    }
}

/// The text after all typographical substitutions: quotes first, then
/// ellipses.
pub open spec fn typography(text: Seq<u8>) -> Seq<u8> {
    spec_horizontal_ellipsis().apply(
        spec_single_quotes().apply(
            spec_low_double_quotes().apply(spec_double_quotes().apply(text)),
        ),
    )
}

/// Performs the typographical substitutions on `text` in place.
pub fn substitute(text: &mut String)
    ensures
        bytes_of(final(text)@) == typography(bytes_of(old(text)@)),
{
    double_quotes().replace(text);
    low_double_quotes().replace(text);
    single_quotes().replace(text);
    horizontal_ellipsis().replace(text);
}

} // verus!
