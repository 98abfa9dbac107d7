//! The languages of the interface, and how the language of a request is
//! chosen.

use vstd::prelude::*;

verus! {

/// A language of the interface.
#[derive(Copy, Clone, Debug, Hash, Eq, PartialEq, Structural)]
pub enum Lang {
    /// English, the language used where no other is asked for.
    En,
    /// French.
    Fr,
}

impl Default for Lang {
    fn default() -> (lang: Self)
        ensures
            lang == Lang::En,
    {
        Lang::En
    }
}

/// The form that changes the language of the interface.
#[derive(Debug)]
pub struct LanguageForm {
    /// The name of the language asked for.
    pub lang: String,
}

/// The language that `form` asks for, to be kept in the language cookie:
/// French where the form names it, English for any other name.
pub fn change_language(form: &LanguageForm) -> (lang: Lang)
    ensures
        lang == if names_french(form.lang@) {
            Lang::Fr
        } else {
            Lang::En
        },
{
    Lang::from_str(form.lang.as_str())
}

/// Whether `text` is `fr` in upper or lower case letters.
pub open spec fn names_french(text: Seq<char>) -> bool {
    &&& text.len() == 2
    &&& text[0] == 'f' || text[0] == 'F'
    &&& text[1] == 'r' || text[1] == 'R'
}

/// Whether a character is white space.
pub open spec fn is_space(c: char) -> bool {
    let code = c as int;
    ||| 0x09 <= code <= 0x0d
    ||| code == 0x20
    ||| code == 0x85
    ||| code == 0xa0
    ||| code == 0x1680
    ||| 0x2000 <= code <= 0x200a
    ||| code == 0x2028
    ||| code == 0x2029
    ||| code == 0x202f
    ||| code == 0x205f
    ||| code == 0x3000
}

/// Whether a character ends a language tag within a header: the comma that
/// parts the languages, the semicolon before a weight, or the hyphen before
/// a region.
pub open spec fn ends_tag(c: char) -> bool {
    c == ',' || c == ';' || c == '-'
}

/// The first position at or after `from` where a comma stands in `text`, or
/// the length of `text` where none does.
pub open spec fn part_end(text: Seq<char>, from: int) -> int
    decreases text.len() - from,
{
    if from >= text.len() {
        text.len() as int
    } else if text[from] == ',' {
        from
    } else {
        part_end(text, from + 1)
    }
}

/// The first position at or after `from` where a character that ends a tag
/// stands in `text`, or the length of `text` where none does.
pub open spec fn tag_end(text: Seq<char>, from: int) -> int
    decreases text.len() - from,
{
    if from >= text.len() {
        text.len() as int
    } else if ends_tag(text[from]) {
        from
    } else {
        tag_end(text, from + 1)
    }
}

/// `text` without the white space at its start and at its end.
pub open spec fn trimmed(text: Seq<char>) -> Seq<char>
    decreases text.len(),
{
    if text.len() == 0 {
        text
    } else if is_space(text.first()) {
        trimmed(text.drop_first())
    } else if is_space(text.last()) {
        trimmed(text.drop_last())
    } else {
        text
    }
}

/// The language that a tag asks for: English for `*` and `en`, French for
/// `fr`, none for any other.
pub open spec fn tag_language(tag: Seq<char>) -> Option<Lang> {
    if tag == seq!['*'] || tag == seq!['e', 'n'] {
        Some(Lang::En)
    } else if tag == seq!['f', 'r'] {
        Some(Lang::Fr)
    } else {
        None
    }
}

/// The language that the part of a header from `from` on asks for: that of
/// the first of its comma-separated parts whose tag, taken up to a semicolon
/// or a hyphen and trimmed, asks for one.
pub open spec fn header_language(header: Seq<char>, from: int) -> Option<Lang>
    decreases header.len() - from,
{
    if from < 0 || from > header.len() {
        None
    } else {
        let tag = trimmed(header.subrange(from, tag_end(header, from)));
        let end = part_end(header, from);
        if tag_language(tag) is Some {
            tag_language(tag)
        } else if end >= header.len() || end < from {
            None
        } else {
            header_language(header, end + 1)
        }
    }
}

/// The language that a cookie asks for: `en` or `fr`, none for any other.
pub open spec fn cookie_language(cookie: Seq<char>) -> Option<Lang> {
    if cookie == seq!['e', 'n'] {
        Some(Lang::En)
    } else if cookie == seq!['f', 'r'] {
        Some(Lang::Fr)
    } else {
        None
    }
}

/// The language of a request with the given `Accept-Language` header and
/// language cookie: what the cookie asks for, else what the header asks for,
/// else English.
pub open spec fn requested_language(header: Option<Seq<char>>, cookie: Option<Seq<char>>) -> Lang {
    if cookie is Some && cookie_language(cookie->0) is Some {
        cookie_language(cookie->0)->0
    } else if header is Some && header_language(header->0, 0) is Some {
        header_language(header->0, 0)->0
    } else {
        Lang::En
    }
}

/// A tag ends no later than the part it stands in.
proof fn lemma_tag_ends_within_part(text: Seq<char>, from: int)
    requires
        0 <= from <= text.len(),
    ensures
        from <= tag_end(text, from) <= part_end(text, from) <= text.len(),
    decreases text.len() - from,
{
    if from < text.len() && !ends_tag(text[from]) {
        lemma_tag_ends_within_part(text, from + 1);
    } else if from < text.len() && text[from] != ',' {
        lemma_part_end_bounds(text, from);
    }
}

/// A part ends at or after its start and within the text.
proof fn lemma_part_end_bounds(text: Seq<char>, from: int)
    requires
        0 <= from <= text.len(),
    ensures
        from <= part_end(text, from) <= text.len(),
    decreases text.len() - from,
{
    if from < text.len() && text[from] != ',' {
        lemma_part_end_bounds(text, from + 1);
    }
}

/// Whether a character is white space.
fn is_whitespace(c: char) -> (space: bool)
    ensures
        space == is_space(c),
{
    let code: u32 = c as u32;
    (0x09 <= code && code <= 0x0d) || code == 0x20 || code == 0x85 || code == 0xa0 || code
        == 0x1680 || (0x2000 <= code && code <= 0x200a) || code == 0x2028 || code == 0x2029
        || code == 0x202f || code == 0x205f || code == 0x3000
}

/// The language that the characters of `text` from `start` up to `end` ask
/// for as a tag.
fn language_of_tag(text: &str, start: usize, end: usize) -> (lang: Option<Lang>)
    requires
        start <= end <= text@.len(),
    ensures
        lang == tag_language(text@.subrange(start as int, end as int)),
{
    let ghost tag = text@.subrange(start as int, end as int);
    proof {
        assert(seq!['*'].len() == 1 && seq!['*'][0] == '*');
        assert(seq!['e', 'n'].len() == 2 && seq!['e', 'n'][0] == 'e' && seq!['e', 'n'][1] == 'n');
        assert(seq!['f', 'r'].len() == 2 && seq!['f', 'r'][0] == 'f' && seq!['f', 'r'][1] == 'r');
        assert(tag.len() == end - start);
    }
    if end - start == 1 {
        let c: char = text.get_char(start);
        proof {
            assert(tag[0] == c);
            if c == '*' {
                assert(tag =~= seq!['*']);
            } else {
                assert(seq!['*'][0] == '*');
            }
        }
        if c == '*' {
            Some(Lang::En)
        } else {
            None
        }
    } else if end - start == 2 {
        let c: char = text.get_char(start);
        let d: char = text.get_char(start + 1);
        proof {
            assert(tag[0] == c && tag[1] == d);
            assert(seq!['e', 'n'][0] == 'e' && seq!['e', 'n'][1] == 'n');
            assert(seq!['f', 'r'][0] == 'f' && seq!['f', 'r'][1] == 'r');
            if c == 'e' && d == 'n' {
                assert(tag =~= seq!['e', 'n']);
            }
            if c == 'f' && d == 'r' {
                assert(tag =~= seq!['f', 'r']);
            }
        }
        if c == 'e' && d == 'n' {
            Some(Lang::En)
        } else if c == 'f' && d == 'r' {
            Some(Lang::Fr)
        } else {
            None
        }
    } else {
        proof {
            assert(seq!['*'].len() == 1);
            assert(seq!['e', 'n'].len() == 2);
            assert(seq!['f', 'r'].len() == 2);
        }
        None
    }
}

/// The language that `header` asks for, if any.
fn language_of_header(header: &str) -> (lang: Option<Lang>)
    ensures
        lang == header_language(header@, 0),
{
    let length: usize = header.unicode_len();
    let mut asked: Option<Lang> = None;
    let mut from: usize = 0;
    loop
        invariant_except_break
            from <= length,
            length == header@.len(),
            header_language(header@, 0) == header_language(header@, from as int),
        ensures
            asked == header_language(header@, 0),
        decreases length - from,
    {
        // Find where the tag ends, and where its part ends.
        let mut stop: usize = from;
        while stop < length && !ends_tag_char(header.get_char(stop))
            invariant
                from <= stop <= length,
                length == header@.len(),
                tag_end(header@, from as int) == tag_end(header@, stop as int),
                part_end(header@, from as int) == part_end(header@, stop as int),
            decreases length - stop,
        {
            stop += 1;
        }
        let mut end: usize = stop;
        while end < length && header.get_char(end) != ','
            invariant
                stop <= end <= length,
                length == header@.len(),
                part_end(header@, from as int) == part_end(header@, end as int),
            decreases length - end,
        {
            end += 1;
        }
        // Trim the tag.
        let mut first: usize = from;
        while first < stop && is_whitespace(header.get_char(first))
            invariant
                from <= first <= stop <= length,
                length == header@.len(),
                trimmed(header@.subrange(from as int, stop as int)) == trimmed(
                    header@.subrange(first as int, stop as int),
                ),
            decreases stop - first,
        {
            proof {
                let raw = header@.subrange(first as int, stop as int);
                assert(raw.first() == header@[first as int]);
                assert(raw.drop_first() =~= header@.subrange(first + 1, stop as int));
            }
            first += 1;
        }
        let mut last: usize = stop;
        while last > first && is_whitespace(header.get_char(last - 1))
            invariant
                first <= last <= stop <= length,
                length == header@.len(),
                first == stop || !is_space(header@[first as int]),
                trimmed(header@.subrange(from as int, stop as int)) == trimmed(
                    header@.subrange(first as int, last as int),
                ),
            decreases last - first,
        {
            proof {
                let raw = header@.subrange(first as int, last as int);
                assert(raw.first() == header@[first as int]);
                assert(raw.last() == header@[last - 1]);
                assert(raw.drop_last() =~= header@.subrange(first as int, last - 1));
            }
            last -= 1;
        }
        proof {
            let raw = header@.subrange(first as int, last as int);
            if first < last {
                assert(raw.first() == header@[first as int]);
                assert(raw.last() == header@[last - 1]);
            }
            assert(trimmed(raw) == raw);
        }
        let found = language_of_tag(header, first, last);
        proof {
            lemma_tag_ends_within_part(header@, from as int);
        }
        if found.is_some() {
            asked = found;
            break;
        }
        if end >= length {
            asked = None;
            break;
        }
        from = end + 1;
    }
    asked
}

/// Whether a character ends a language tag within a header.
fn ends_tag_char(c: char) -> (ends: bool)
    ensures
        ends == ends_tag(c),
{
    c == ',' || c == ';' || c == '-'
}

impl Lang {
    /// The language that `s` names: French for `fr` in upper or lower case
    /// letters, English for anything else.
    pub fn from_str(s: &str) -> (lang: Lang)
        ensures
            lang == if names_french(s@) {
                Lang::Fr
            } else {
                Lang::En
            },
    {
        if s.unicode_len() != 2 {
            return Lang::En;
        }
        let first: char = s.get_char(0);
        let second: char = s.get_char(1);
        if (first == 'f' || first == 'F') && (second == 'r' || second == 'R') {
            Lang::Fr
        } else {
            Lang::En
        }
    }

    /// The code of the language: `en` or `fr`.
    pub fn code(&self) -> (code: &'static str)
        ensures
            code@ == match *self {
                Lang::En => "en"@,
                Lang::Fr => "fr"@,
            },
    {
        match self {
            Lang::En => "en",
            Lang::Fr => "fr",
        }
    }

    /// The language of a request, from its `Accept-Language` header and its
    /// language cookie, each where the request has one: what the cookie asks
    /// for, else what the header asks for, else English.
    pub fn from_accept_language_header_and_cookie(header: Option<&str>, cookie: Option<&str>) -> (lang:
        Lang)
        ensures
            lang == requested_language(
                match header {
                    Some(text) => Some(text@),
                    None => None,
                },
                match cookie {
                    Some(text) => Some(text@),
                    None => None,
                },
            ),
    {
        if let Some(cookie) = cookie {
            let asked = language_of_tag(cookie, 0, cookie.unicode_len());
            proof {
                assert(cookie@.subrange(0, cookie@.len() as int) =~= cookie@);
            }
            if cookie.unicode_len() == 2 {
                if let Some(lang) = asked {
                    return lang;
                }
            } else {
                proof {
                    assert(seq!['e', 'n'].len() == 2);
                    assert(seq!['f', 'r'].len() == 2);
                }
            }
        }
        if let Some(header) = header {
            if let Some(lang) = language_of_header(header) {
                return lang;
            }
        }
        Lang::En
    }
}

} // verus!
