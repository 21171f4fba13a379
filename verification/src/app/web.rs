//! Pages of the web as plain text, and what a search engine found.

use crate::encoding;
use crate::encoding::url_encoded;
use crate::pattern;
use crate::pattern::pattern_removed;
use crate::text;
use crate::text::{
    find_from, has_prefix, lines, lowercase, opt_text, or_empty, rows, split, trim, trim_start_char,
    unsigned, words,
};
use vstd::prelude::*;
use vstd::utf8::{decode_utf8, valid_utf8};

verus! {

/// The characters of a page that are shown at most.
pub const FETCH_MAX_CHARS: usize = 20_000;

/// The characters of search results that are shown at most.
pub const SEARCH_MAX_CHARS: usize = 8000;

/// The tags that end a line.
pub const BLOCK_TAGS: [&'static str; 19] = [
    "p",
    "div",
    "li",
    "h1",
    "h2",
    "h3",
    "h4",
    "h5",
    "h6",
    "tr",
    "ul",
    "ol",
    "table",
    "section",
    "article",
    "header",
    "footer",
    "pre",
    "blockquote",
];

/// What is not text in a page.
pub const SCRIPTS: &'static str = "(?is)<(script|style|noscript)[^>]*>.*?</(script|style|noscript)>";

// ---------------------------------------------------------------------------------------------
// Entities
// ---------------------------------------------------------------------------------------------
/// The character with a number.
pub open spec fn char_numbered(n: nat) -> Option<char> {
    if n < 0xD800 || 0xE000 <= n <= 0x10FFFF {
        Some(n as char)
    } else {
        None
    }
}

/// The character that an entity stands for, from the ampersand to the semicolon.
pub open spec fn entity_char(entity: Seq<char>) -> Option<char> {
    if entity == "&amp;"@ {
        Some('&')
    } else if entity == "&lt;"@ {
        Some('<')
    } else if entity == "&gt;"@ {
        Some('>')
    } else if entity == "&quot;"@ {
        Some('"')
    } else if entity == "&apos;"@ {
        Some('\'')
    } else if entity == "&#39;"@ {
        Some('\'')
    } else if entity == "&nbsp;"@ {
        Some(' ')
    } else {
        numbered_entity(entity)
    }
}

/// The character that an entity with a decimal number stands for.
pub open spec fn numbered_entity(entity: Seq<char>) -> Option<char> {
    if entity.len() >= 3 && has_prefix(entity, "&#"@) && entity.last() == ';' {
        match unsigned(entity.subrange(2, entity.len() - 1), u32::MAX as nat) {
            Some(n) => char_numbered(n),
            None => None,
        }
    } else {
        None
    }
}

/// The character with a number.
fn char_at(n: u32) -> (r: Option<char>)
    ensures
        r == char_numbered(n as nat),
{
    let r = char::from_u32(n);
    proof {
        if let Some(c) = r {
            assert(c as u32 == n);
            vstd::utf8::char_u32_cast(c, n);
            assert(n as char == c);
        }
    }
    r
}

/// The character that an entity stands for.
fn read_entity(entity: &[char]) -> (r: Option<char>)
    ensures
        r == entity_char(entity@),
{
    let name = text::string_of(entity);
    if text::same(name.as_str(), "&amp;") {
        Some('&')
    } else if text::same(name.as_str(), "&lt;") {
        Some('<')
    } else if text::same(name.as_str(), "&gt;") {
        Some('>')
    } else if text::same(name.as_str(), "&quot;") {
        Some('"')
    } else if text::same(name.as_str(), "&apos;") {
        Some('\'')
    } else if text::same(name.as_str(), "&#39;") {
        Some('\'')
    } else if text::same(name.as_str(), "&nbsp;") {
        Some(' ')
    } else if entity.len() >= 3 && text::starts_with(entity, "&#") && entity[entity.len() - 1]
        == ';' {
        let digits = text::part(entity, 2, entity.len() - 1);
        match text::parse_unsigned(digits.as_slice(), 0xFFFF_FFFF) {
            Some(n) => char_at(n as u32),
            None => None,
        }
    } else {
        None
    }
}

/// Where the entity at position `i` ends, and the character that it stands for.
pub open spec fn entity_at(s: Seq<char>, i: int) -> Option<(int, char)> {
    match find_from(s, seq![';'], i) {
        Some(end) => match entity_char(s.subrange(i, end + 1)) {
            Some(c) => Some((end + 1, c)),
            None => None,
        },
        None => None,
    }
}

/// A text from position `i` on, with its entities replaced by what they stand for.
pub open spec fn decoded_from(s: Seq<char>, i: int) -> Seq<char>
    decreases s.len() - i,
{
    if i < 0 || i >= s.len() {
        Seq::empty()
    } else if s[i] != '&' {
        seq![s[i]] + decoded_from(s, i + 1)
    } else {
        match entity_at(s, i) {
            Some((end, c)) => if i < end <= s.len() {
                seq![c] + decoded_from(s, end)
            } else {
                seq!['&'] + decoded_from(s, i + 1)
            },
            None => seq!['&'] + decoded_from(s, i + 1),
        }
    }
}

/// A text with its entities replaced by what they stand for.
pub open spec fn decoded(s: Seq<char>) -> Seq<char> {
    decoded_from(s, 0)
}

/// A text with its entities replaced by what they stand for.
pub fn decode_entities(s: &[char]) -> (r: Vec<char>)
    ensures
        r@ == decoded(s@),
{
    let total: usize = s.len();
    let semicolon: [char; 1] = [';'];
    assert(semicolon@ =~= seq![';']);
    let mut out: Vec<char> = Vec::new();
    let mut i: usize = 0;
    assert(out@ + decoded_from(s@, 0) =~= decoded(s@));
    while i < total
        invariant
            i <= total,
            total == s@.len(),
            semicolon@ == seq![';'],
            out@ + decoded_from(s@, i as int) == decoded(s@),
        decreases total - i,
    {
        let ghost before = out@;
        if s[i] == '&' {
            let end = text::find(s, semicolon.as_slice(), i);
            proof {
                text::find_is_first(s@, seq![';'], i as int);
            }
            if let Some(end) = end {
                let entity = text::part(s, i, end + 1);
                if let Some(c) = read_entity(entity.as_slice()) {
                    out.push(c);
                    proof {
                        assert(entity_at(s@, i as int) == Some((end + 1, c)));
                        assert(out@ + decoded_from(s@, end + 1) =~= before + decoded_from(
                            s@,
                            i as int,
                        ));
                    }
                    i = end + 1;
                    continue;
                }
            }
        }
        out.push(s[i]);
        assert(out@ + decoded_from(s@, i + 1) =~= before + decoded_from(s@, i as int));
        i += 1;
    }
    assert(out@ =~= decoded(s@));
    out
}

// ---------------------------------------------------------------------------------------------
// Tags
// ---------------------------------------------------------------------------------------------
/// How far a page is read: what it says so far, and the tag that is open.
pub ghost struct Reading {
    pub out: Seq<char>,
    pub tag: Option<Seq<char>>,
}

/// The name of a tag, open or closed, in lower case.
pub open spec fn tag_name(tag: Seq<char>) -> Seq<char> {
    let parts = words(trim_start_char(tag, '/'));
    lowercase(
        if parts.len() == 0 {
            Seq::empty()
        } else {
            parts[0]
        },
    )
}

/// Whether a tag, by its name in lower case, ends a line.
pub open spec fn ends_line(name: Seq<char>) -> bool {
    name == "br"@ || exists|i: int| 0 <= i < 19 && #[trigger] BLOCK_TAGS@[i]@ == name
}

/// Reads one character of a page.
pub open spec fn read_step(reading: Reading, c: char) -> Reading {
    if c == '<' {
        Reading { out: reading.out, tag: Some(Seq::empty()) }
    } else {
        match reading.tag {
            None => Reading { out: reading.out.push(c), tag: None },
            Some(tag) => if c == '>' {
                Reading {
                    out: if ends_line(tag_name(tag)) {
                        reading.out.push('\n')
                    } else {
                        reading.out
                    },
                    tag: None,
                }
            } else {
                Reading { out: reading.out, tag: Some(tag.push(c)) }
            },
        }
    }
}

/// Reads the first `n` characters of a page.
pub open spec fn read_page(s: Seq<char>, n: int) -> Reading
    decreases n,
{
    if n <= 0 {
        Reading { out: Seq::empty(), tag: None }
    } else {
        read_step(read_page(s, n - 1), s[n - 1])
    }
}

/// Whether a tag, by its name in lower case, ends a line.
pub fn is_line_end(name: &str) -> (r: bool)
    ensures
        r == ends_line(name@),
{
    if text::same(name, "br") {
        return true;
    }
    let mut i: usize = 0;
    while i < 19
        invariant
            i <= 19,
            forall|k: int| 0 <= k < i ==> #[trigger] BLOCK_TAGS@[k]@ != name@,
        decreases 19 - i,
    {
        let tag = BLOCK_TAGS[i];
        if text::same(tag, name) {
            assert(BLOCK_TAGS@[i as int]@ == name@);
            return true;
        }
        i += 1;
    }
    false
}

/// The name of a tag, open or closed, in lower case.
fn name_of_tag(tag: &[char]) -> (r: String)
    ensures
        r@ == tag_name(tag@),
{
    let rest = text::trimmed_start_char(tag, '/');
    let parts = text::words_of(rest.as_slice());
    assert(rows(parts@).len() == parts@.len());
    if parts.len() == 0 {
        let none = String::new();
        assert(none@ =~= Seq::<char>::empty());
        text::to_lowercase(none.as_str())
    } else {
        assert(rows(parts@)[0] == parts@[0]@);
        text::to_lowercase(text::string_of(parts[0].as_slice()).as_str())
    }
}

/// How far lines are put together: the result, and whether the last line was blank.
pub ghost struct Squeezing {
    pub out: Seq<char>,
    pub blank: bool,
}

/// Adds one line: blank lines in a row leave one line end.
pub open spec fn squeeze_step(so_far: Squeezing, line: Seq<char>) -> Squeezing {
    let trimmed = trim(line);
    if trimmed.len() == 0 {
        Squeezing {
            out: if so_far.blank {
                so_far.out
            } else {
                so_far.out.push('\n')
            },
            blank: true,
        }
    } else {
        Squeezing {
            out: if so_far.out.len() > 0 && so_far.out.last() != '\n' {
                so_far.out.push('\n') + trimmed
            } else {
                so_far.out + trimmed
            },
            blank: false,
        }
    }
}

/// Puts the first `n` lines together.
pub open spec fn squeezed(ls: Seq<Seq<char>>, n: int) -> Squeezing
    decreases n,
{
    if n <= 0 {
        Squeezing { out: Seq::empty(), blank: false }
    } else {
        squeeze_step(squeezed(ls, n - 1), ls[n - 1])
    }
}

/// The plain text of a page without scripts.
pub open spec fn page_text(s: Seq<char>) -> Seq<char> {
    let ls = lines(decoded(read_page(s, s.len() as int).out));
    trim(squeezed(ls, ls.len() as int).out)
}

/// Lines without space around them, put together.
fn squeeze(s: &[char]) -> (r: Vec<char>)
    ensures
        r@ == squeezed(lines(s@), lines(s@).len() as int).out,
{
    let ls = text::lines_of(s);
    let ghost all = lines(s@);
    assert(all.len() == ls@.len());
    let mut out: Vec<char> = Vec::new();
    let mut blank = false;
    let mut i: usize = 0;
    assert(out@ =~= Seq::<char>::empty());
    while i < ls.len()
        invariant
            i <= ls@.len(),
            all == rows(ls@),
            squeezed(all, i as int) == (Squeezing { out: out@, blank }),
        decreases ls@.len() - i,
    {
        assert(all[i as int] == ls@[i as int]@);
        let trimmed = text::trimmed(ls[i].as_slice());
        if trimmed.len() == 0 {
            if !blank {
                out.push('\n');
            }
            blank = true;
        } else {
            if out.len() > 0 && out[out.len() - 1] != '\n' {
                out.push('\n');
            }
            text::push_all(&mut out, trimmed.as_slice());
            blank = false;
        }
        i += 1;
    }
    out
}

/// The plain text of a page without scripts.
pub fn plain_text(cleaned: &str) -> (r: String)
    ensures
        r@ == page_text(cleaned@),
{
    let s = text::chars_of(cleaned);
    let mut out: Vec<char> = Vec::new();
    let mut tag: Vec<char> = Vec::new();
    let mut in_tag = false;
    let mut i: usize = 0;
    assert(out@ =~= Seq::<char>::empty());
    while i < s.len()
        invariant
            i <= s@.len(),
            read_page(s@, i as int).out == out@,
            read_page(s@, i as int).tag == if in_tag {
                Some(tag@)
            } else {
                None
            },
        decreases s@.len() - i,
    {
        let c = s[i];
        if c == '<' {
            in_tag = true;
            tag = Vec::new();
            assert(tag@ =~= Seq::<char>::empty());
        } else if in_tag {
            if c == '>' {
                in_tag = false;
                let name = name_of_tag(tag.as_slice());
                if is_line_end(name.as_str()) {
                    out.push('\n');
                }
            } else {
                tag.push(c);
            }
        } else {
            out.push(c);
        }
        i += 1;
    }
    let decoded = decode_entities(out.as_slice());
    let lines = squeeze(decoded.as_slice());
    text::string_of(text::trimmed(lines.as_slice()).as_slice())
}

/// The plain text of a page.
pub open spec fn html_text(html: Seq<char>) -> Seq<char> {
    page_text(
        match pattern_removed(SCRIPTS@, html) {
            Some(cleaned) => cleaned,
            None => html,
        },
    )
}

/// The plain text of a page.
pub fn html_to_text(html: &str) -> (r: String)
    ensures
        r@ == html_text(html@),
{
    match pattern::remove_matches(SCRIPTS, html) {
        Some(cleaned) => plain_text(cleaned.as_str()),
        None => plain_text(html),
    }
}

/// What is shown of a page.
pub open spec fn shown_page(url: Seq<char>, plain: Seq<char>) -> Seq<char> {
    if plain.len() > FETCH_MAX_CHARS {
        plain.take(FETCH_MAX_CHARS as int) + "\n\nThe content from "@ + url
            + " was truncated because it exceeded the 20000 character limit. If you need more content, consider fetching specific sections or using a more targeted approach."@
    } else {
        plain
    }
}

/// What is shown of a page, from its bytes.
pub fn fetch_url_content(url: &str, bytes: &[u8]) -> (r: String)
    requires
        bytes@.len() <= usize::MAX / 8,
    ensures
        r@ == shown_page(url@, html_text(encoding::response_text(bytes@))),
{
    let html = encoding::decode_response(bytes);
    let plain = html_to_text(html.as_str());
    show_page(url, plain.as_str())
}

/// What is shown of a page, from its plain text.
pub fn show_page(url: &str, plain: &str) -> (r: String)
    ensures
        r@ == shown_page(url@, plain@),
{
    let chars = text::chars_of(plain);
    if chars.len() > FETCH_MAX_CHARS {
        let cut = text::part(chars.as_slice(), 0, FETCH_MAX_CHARS);
        assert(cut@ =~= plain@.take(FETCH_MAX_CHARS as int));
        let mut out = text::glue3(
            text::string_of(cut.as_slice()).as_str(),
            "\n\nThe content from ",
            url,
        );
        out.append(
            " was truncated because it exceeded the 20000 character limit. If you need more content, consider fetching specific sections or using a more targeted approach.",
        );
        out
    } else {
        plain.to_owned()
    }
}

// ---------------------------------------------------------------------------------------------
// Search results
// ---------------------------------------------------------------------------------------------
/// A text without what stands between angle brackets, read up to position `n`, and whether a bracket is
/// open there.
pub open spec fn untagged(s: Seq<char>, n: int) -> (Seq<char>, bool)
    decreases n,
{
    if n <= 0 {
        (Seq::empty(), false)
    } else {
        let (out, open) = untagged(s, n - 1);
        if s[n - 1] == '<' {
            (out, true)
        } else if s[n - 1] == '>' {
            (out, false)
        } else if open {
            (out, true)
        } else {
            (out.push(s[n - 1]), false)
        }
    }
}

/// A text without its tags.
pub fn strip_tags(s: &[char]) -> (r: Vec<char>)
    ensures
        r@ == untagged(s@, s@.len() as int).0,
{
    let mut out: Vec<char> = Vec::new();
    let mut open = false;
    let mut i: usize = 0;
    assert(out@ =~= Seq::<char>::empty());
    while i < s.len()
        invariant
            i <= s@.len(),
            untagged(s@, i as int) == (out@, open),
        decreases s@.len() - i,
    {
        if s[i] == '<' {
            open = true;
        } else if s[i] == '>' {
            open = false;
        } else if !open {
            out.push(s[i]);
        }
        i += 1;
    }
    out
}

/// What stands between the first tag that begins with `open` and the next `close`.
pub open spec fn tag_text(s: Seq<char>, open: Seq<char>, close: Seq<char>) -> Option<Seq<char>> {
    match find_from(s, open, 0) {
        Some(start) => match find_from(s, seq!['>'], start) {
            Some(end) => match find_from(s, close, end + 1) {
                Some(stop) => Some(s.subrange(end + 1, stop)),
                None => None,
            },
            None => None,
        },
        None => None,
    }
}

/// A text, or none.
pub open spec fn opt_chars(s: Option<Vec<char>>) -> Option<Seq<char>> {
    match s {
        Some(s) => Some(s@),
        None => None,
    }
}

/// What stands between the first tag that begins with `open` and the next `close`.
pub fn extract_tag_text(s: &[char], open: &str, close: &str) -> (r: Option<Vec<char>>)
    ensures
        opt_chars(r) == tag_text(s@, open@, close@),
{
    let total: usize = s.len();
    let bracket: [char; 1] = ['>'];
    assert(bracket@ =~= seq!['>']);
    let open_chars = text::chars_of(open);
    let close_chars = text::chars_of(close);
    let start = match text::find(s, open_chars.as_slice(), 0) {
        Some(start) => start,
        None => return None,
    };
    proof {
        text::find_is_first(s@, open@, 0);
    }
    let end = match text::find(s, bracket.as_slice(), start) {
        Some(end) => end,
        None => return None,
    };
    proof {
        text::find_is_first(s@, seq!['>'], start as int);
    }
    let stop = match text::find(s, close_chars.as_slice(), end + 1) {
        Some(stop) => stop,
        None => return None,
    };
    proof {
        text::find_is_first(s@, close@, end + 1);
    }
    Some(text::part(s, end + 1, stop))
}

/// The address that the first link leads to.
pub open spec fn first_link(s: Seq<char>) -> Option<Seq<char>> {
    match find_from(s, "<a"@, 0) {
        Some(start) => match find_from(s, seq!['>'], start) {
            Some(end) => {
                let tag = s.subrange(start, end);
                match find_from(tag, "href=\""@, 0) {
                    Some(at) => match find_from(tag, seq!['"'], at + 6) {
                        Some(stop) => Some(tag.subrange(at + 6, stop)),
                        None => None,
                    },
                    None => None,
                }
            },
            None => None,
        },
        None => None,
    }
}

/// The address that the first link leads to.
pub fn extract_href(s: &[char]) -> (r: Option<Vec<char>>)
    ensures
        opt_chars(r) == first_link(s@),
{
    let bracket: [char; 1] = ['>'];
    assert(bracket@ =~= seq!['>']);
    let quote: [char; 1] = ['"'];
    assert(quote@ =~= seq!['"']);
    let open = text::chars_of("<a");
    let attribute = text::chars_of("href=\"");
    let start = match text::find(s, open.as_slice(), 0) {
        Some(start) => start,
        None => return None,
    };
    proof {
        text::find_is_first(s@, "<a"@, 0);
    }
    let end = match text::find(s, bracket.as_slice(), start) {
        Some(end) => end,
        None => return None,
    };
    proof {
        text::find_is_first(s@, seq!['>'], start as int);
    }
    let tag = text::part(s, start, end);
    let at = match text::find(tag.as_slice(), attribute.as_slice(), 0) {
        Some(at) => at,
        None => return None,
    };
    proof {
        text::find_is_first(tag@, "href=\""@, 0);
        reveal_strlit("href=\"");
    }
    let stop = match text::find(tag.as_slice(), quote.as_slice(), at + 6) {
        Some(stop) => stop,
        None => return None,
    };
    proof {
        text::find_is_first(tag@, seq!['"'], at + 6);
    }
    Some(text::part(tag.as_slice(), at + 6, stop))
}

/// The value of a character of the base 64 alphabet.
pub open spec fn sextet(c: char) -> Option<u8> {
    if 'A' <= c <= 'Z' {
        Some((c as u32 - 'A' as u32) as u8)
    } else if 'a' <= c <= 'z' {
        Some((c as u32 - 'a' as u32 + 26) as u8)
    } else if '0' <= c <= '9' {
        Some((c as u32 - '0' as u32 + 52) as u8)
    } else if c == '+' {
        Some(62)
    } else if c == '/' {
        Some(63)
    } else {
        None
    }
}

/// The values of the characters from position `i` on, up to an equals sign; others are passed over.
pub open spec fn sextets(s: Seq<char>, i: int) -> Seq<u8>
    decreases s.len() - i,
{
    if i < 0 || i >= s.len() || s[i] == '=' {
        Seq::empty()
    } else {
        match sextet(s[i]) {
            Some(v) => seq![v] + sextets(s, i + 1),
            None => sextets(s, i + 1),
        }
    }
}

/// The bytes that values of six bits make up, four of them three bytes. What is left is dropped.
pub open spec fn octets(v: Seq<u8>) -> Seq<u8>
    decreases v.len(),
{
    if v.len() < 2 {
        Seq::empty()
    } else if v.len() == 2 {
        seq![(v[0] * 4 + v[1] / 16) as u8]
    } else if v.len() == 3 {
        seq![(v[0] * 4 + v[1] / 16) as u8, ((v[1] % 16) * 16 + v[2] / 4) as u8]
    } else {
        seq![
            (v[0] * 4 + v[1] / 16) as u8,
            ((v[1] % 16) * 16 + v[2] / 4) as u8,
            ((v[2] % 4) * 64 + v[3]) as u8,
        ] + octets(v.skip(4))
    }
}

/// The value of a character of the base 64 alphabet.
fn sextet_of(c: char) -> (r: Option<u8>)
    ensures
        r == sextet(c),
        r matches Some(v) ==> v < 64,
{
    if 'A' <= c && c <= 'Z' {
        Some((c as u32 - 'A' as u32) as u8)
    } else if 'a' <= c && c <= 'z' {
        Some((c as u32 - 'a' as u32 + 26) as u8)
    } else if '0' <= c && c <= '9' {
        Some((c as u32 - '0' as u32 + 52) as u8)
    } else if c == '+' {
        Some(62)
    } else if c == '/' {
        Some(63)
    } else {
        None
    }
}

/// The bytes that a text in base 64 stands for. Every text stands for some: what is no digit is
/// passed over.
pub fn base64_decode(input: &str) -> (r: Option<Vec<u8>>)
    ensures
        r matches Some(bytes) && bytes@ == octets(sextets(input@, 0)),
{
    let v = sextets_of(input);
    Some(pack(&v))
}

/// The values of the characters of a text in base 64.
fn sextets_of(input: &str) -> (r: Vec<u8>)
    ensures
        r@ == sextets(input@, 0),
        forall|k: int| 0 <= k < r@.len() ==> #[trigger] r@[k] < 64,
{
    let s = text::chars_of(input);
    let ghost goal = sextets(input@, 0);
    let mut v: Vec<u8> = Vec::new();
    let mut i: usize = 0;
    assert(v@ + sextets(s@, 0) =~= goal);
    while i < s.len() && s[i] != '='
        invariant
            i <= s@.len(),
            v@ + sextets(s@, i as int) == goal,
            forall|k: int| 0 <= k < v@.len() ==> #[trigger] v@[k] < 64,
        decreases s@.len() - i,
    {
        let ghost before = v@;
        if let Some(value) = sextet_of(s[i]) {
            v.push(value);
        }
        assert(v@ + sextets(s@, i + 1) =~= before + sextets(s@, i as int));
        i += 1;
    }
    assert(v@ =~= goal);
    v
}

/// The bytes that values of six bits make up.
fn pack(v: &Vec<u8>) -> (r: Vec<u8>)
    requires
        forall|k: int| 0 <= k < v@.len() ==> #[trigger] v@[k] < 64,
    ensures
        r@ == octets(v@),
{
    let ghost goal = v@;
    let total: usize = v.len();
    let mut out: Vec<u8> = Vec::new();
    let mut k: usize = 0;
    assert(goal.skip(0) =~= goal);
    assert(out@ + octets(goal.skip(0)) =~= octets(goal));
    while total - k >= 4
        invariant
            k <= total,
            total == v@.len(),
            v@ == goal,
            forall|j: int| 0 <= j < v@.len() ==> #[trigger] v@[j] < 64,
            out@ + octets(goal.skip(k as int)) == octets(goal),
        decreases total - k,
    {
        let ghost before = out@;
        let ghost rest = goal.skip(k as int);
        let (a, b, c, d): (u8, u8, u8, u8) = (v[k], v[k + 1], v[k + 2], v[k + 3]);
        assert(a < 64 && b < 64 && c < 64 && d < 64);
        out.push(a * 4 + b / 16);
        out.push((b % 16) * 16 + c / 4);
        out.push((c % 4) * 64 + d);
        proof {
            assert(rest[0] == a && rest[1] == b && rest[2] == c && rest[3] == d);
            assert(rest.skip(4) =~= goal.skip(k + 4));
            assert(out@ + octets(rest.skip(4)) =~= before + octets(rest));
        }
        k += 4;
    }
    let ghost before = out@;
    let ghost rest = goal.skip(k as int);
    if total - k >= 2 {
        let (a, b): (u8, u8) = (v[k], v[k + 1]);
        assert(a < 64 && b < 64);
        assert(rest[0] == a && rest[1] == b);
        out.push(a * 4 + b / 16);
        if total - k == 3 {
            let c: u8 = v[k + 2];
            assert(c < 64 && rest[2] == c);
            out.push((b % 16) * 16 + c / 4);
        }
    }
    assert(out@ =~= before + octets(rest));
    out
}

/// The address that is hidden in a link of the search engine.
pub open spec fn hidden_url(href: Seq<char>) -> Option<Seq<char>> {
    match find_from(href, "u=a1"@, 0) {
        Some(at) => {
            let bytes = octets(sextets(split(href.skip(at + 4), '&')[0], 0));
            if valid_utf8(bytes) {
                Some(decode_utf8(bytes))
            } else {
                None
            }
        },
        None => None,
    }
}

/// The address that is hidden in a link of the search engine.
pub fn decode_bing_url(href: &[char]) -> (r: Option<String>)
    ensures
        opt_text(r) == hidden_url(href@),
{
    let total: usize = href.len();
    let marker = text::chars_of("u=a1");
    proof {
        reveal_strlit("u=a1");
    }
    let at = match text::find(href, marker.as_slice(), 0) {
        Some(at) => at,
        None => return None,
    };
    let rest = text::part(href, at + 4, total);
    assert(rest@ =~= href@.skip(at + 4));
    let parts = text::pieces(rest.as_slice(), '&');
    proof {
        text::split_not_empty(rest@, '&');
        assert(rows(parts@).len() == parts@.len());
        assert(rows(parts@)[0] == parts@[0]@);
    }
    let encoded = text::string_of(parts[0].as_slice());
    match base64_decode(encoded.as_str()) {
        Some(bytes) => encoding::from_utf8(bytes.as_slice()),
        None => None,
    }
}

/// A page that was found.
#[derive(Debug)]
pub struct SearchResult {
    pub title: String,
    pub url: String,
    pub snippet: String,
}

/// A `SearchResult` with its texts as characters.
pub ghost struct ResultView {
    pub title: Seq<char>,
    pub url: Seq<char>,
    pub snippet: Seq<char>,
}

impl View for SearchResult {
    type V = ResultView;

    open spec fn view(&self) -> ResultView {
        ResultView { title: self.title@, url: self.url@, snippet: self.snippet@ }
    }
}

/// The views of pages that were found.
pub open spec fn results_view(results: Seq<SearchResult>) -> Seq<ResultView> {
    Seq::new(results.len(), |i: int| results[i]@)
}

/// The words of a piece of a page.
pub open spec fn clean(s: Seq<char>) -> Seq<char> {
    trim(decoded(untagged(s, s.len() as int).0))
}

/// A page in the block of the search engine that speaks of it. One without a title and an address is
/// none.
pub open spec fn result_in(block: Seq<char>) -> Option<ResultView> {
    let title = match tag_text(block, "<h2"@, "</h2>"@) {
        Some(inner) => match tag_text(inner, "<a"@, "</a>"@) {
            Some(link) => clean(link),
            None => Seq::empty(),
        },
        None => Seq::empty(),
    };
    let url = match first_link(block) {
        Some(href) => or_empty(hidden_url(href)),
        None => Seq::empty(),
    };
    let snippet = match tag_text(block, "<p"@, "</p>"@) {
        Some(inner) => clean(inner),
        None => Seq::empty(),
    };
    if title.len() > 0 || url.len() > 0 {
        Some(ResultView { title, url, snippet })
    } else {
        None
    }
}

/// The pages that were found, in the answer of the search engine from position `i` on.
pub open spec fn results_from(s: Seq<char>, i: int) -> Seq<ResultView>
    decreases s.len() - i,
{
    match find_from(s, "<li class=\"b_algo\""@, i) {
        Some(start) => match find_from(s, "</li>"@, start) {
            Some(end) => if 0 <= i <= start <= end && end + 5 <= s.len() {
                let rest = results_from(s, end + 5);
                match result_in(s.subrange(start, end)) {
                    Some(result) => seq![result] + rest,
                    None => rest,
                }
            } else {
                Seq::empty()
            },
            None => Seq::empty(),
        },
        None => Seq::empty(),
    }
}

/// The words of a piece of a page.
fn clean_text(s: &[char]) -> (r: String)
    ensures
        r@ == clean(s@),
{
    let stripped = strip_tags(s);
    let decoded = decode_entities(stripped.as_slice());
    text::string_of(text::trimmed(decoded.as_slice()).as_slice())
}

/// An empty text.
fn nothing() -> (r: String)
    ensures
        r@ == Seq::<char>::empty(),
{
    let none = String::new();
    assert(none@ =~= Seq::<char>::empty());
    none
}

/// A page in the block of the search engine that speaks of it.
fn read_result(block: &[char]) -> (r: Option<SearchResult>)
    ensures
        match r {
            Some(result) => result_in(block@) == Some(result@),
            None => result_in(block@) is None,
        },
{
    let title = match extract_tag_text(block, "<h2", "</h2>") {
        Some(inner) => match extract_tag_text(inner.as_slice(), "<a", "</a>") {
            Some(link) => clean_text(link.as_slice()),
            None => nothing(),
        },
        None => nothing(),
    };
    let url = match extract_href(block) {
        Some(href) => text::unwrap_or_empty(decode_bing_url(href.as_slice())),
        None => nothing(),
    };
    let snippet = match extract_tag_text(block, "<p", "</p>") {
        Some(inner) => clean_text(inner.as_slice()),
        None => nothing(),
    };
    if !title.as_str().is_empty() || !url.as_str().is_empty() {
        Some(SearchResult { title, url, snippet })
    } else {
        None
    }
}

/// The pages that were found, in the answer of the search engine.
pub fn parse_bing_results(html: &str) -> (r: Vec<SearchResult>)
    ensures
        results_view(r@) == results_from(html@, 0),
{
    let s = text::chars_of(html);
    let total: usize = s.len();
    let marker = text::chars_of("<li class=\"b_algo\"");
    let close = text::chars_of("</li>");
    let mut out: Vec<SearchResult> = Vec::new();
    let mut i: usize = 0;
    assert(results_view(out@) + results_from(s@, 0) =~= results_from(html@, 0));
    loop
        invariant
            i <= total,
            total == s@.len(),
            marker@ == "<li class=\"b_algo\""@,
            close@ == "</li>"@,
            results_view(out@) + results_from(s@, i as int) == results_from(html@, 0),
        ensures
            results_view(out@) == results_from(html@, 0),
        decreases s@.len() - i,
    {
        let ghost before = results_view(out@);
        proof {
            text::find_is_first(s@, marker@, i as int);
            reveal_strlit("</li>");
        }
        let start = match text::find(s.as_slice(), marker.as_slice(), i) {
            Some(start) => start,
            None => {
                assert(results_view(out@) + results_from(s@, i as int) =~= results_view(out@));
                break ;
            },
        };
        proof {
            text::find_is_first(s@, close@, start as int);
        }
        let end = match text::find(s.as_slice(), close.as_slice(), start) {
            Some(end) => end,
            None => {
                assert(results_view(out@) + results_from(s@, i as int) =~= results_view(out@));
                break ;
            },
        };
        let block = text::part(s.as_slice(), start, end);
        if let Some(result) = read_result(block.as_slice()) {
            let ghost view = result@;
            out.push(result);
            assert(results_view(out@) =~= before.push(view));
        }
        proof {
            assert(results_view(out@) + results_from(s@, end + 5) =~= before + results_from(
                s@,
                i as int,
            ));
        }
        i = end + 5;
    }
    out
}

/// A page that was found as it is shown.
pub open spec fn result_text(result: ResultView) -> Seq<char> {
    result.title + "\n"@ + result.url + "\n"@ + result.snippet
}

/// What is shown of the pages from position `i` on, after `out`.
pub open spec fn shown_results(results: Seq<ResultView>, i: int, out: Seq<char>) -> Seq<char>
    decreases results.len() - i,
{
    if i < 0 || i >= results.len() {
        out
    } else {
        let entry = result_text(results[i]);
        if out.len() + entry.len() > SEARCH_MAX_CHARS {
            out
                + "\n\nThe content from the following search results was truncated because it exceeded the 8000 character limit: "@
                + results[i].title
                + ". For more detailed information, consider refining your search query."@
        } else if out.len() > 0 {
            shown_results(results, i + 1, out + "\n"@ + entry)
        } else {
            shown_results(results, i + 1, entry)
        }
    }
}

/// What is shown of the pages that were found.
pub open spec fn search_text(results: Seq<ResultView>) -> Seq<char> {
    if results.len() == 0 {
        "The web search returned no results."@
    } else {
        shown_results(results, 0, Seq::empty())
    }
}

/// What is shown of the pages that were found.
pub fn show_results(results: &Vec<SearchResult>) -> (r: String)
    ensures
        r@ == search_text(results_view(results@)),
{
    let ghost all = results_view(results@);
    assert(all.len() == results@.len());
    if results.len() == 0 {
        return "The web search returned no results.".to_owned();
    }
    let mut out = nothing();
    let mut count: usize = 0;
    let mut i: usize = 0;
    while i < results.len()
        invariant
            i <= results@.len(),
            all == results_view(results@),
            count == out@.len(),
            count <= SEARCH_MAX_CHARS + 1,
            shown_results(all, 0, Seq::empty()) == shown_results(all, i as int, out@),
        decreases results@.len() - i,
    {
        assert(all[i as int] == results@[i as int]@);
        let mut entry = text::glue3(results[i].title.as_str(), "\n", results[i].url.as_str());
        entry.append("\n");
        entry.append(results[i].snippet.as_str());
        let added: usize = text::chars_of(entry.as_str()).len();
        if added > SEARCH_MAX_CHARS || count + added > SEARCH_MAX_CHARS {
            out.append(
                "\n\nThe content from the following search results was truncated because it exceeded the 8000 character limit: ",
            );
            out.append(results[i].title.as_str());
            out.append(". For more detailed information, consider refining your search query.");
            return out;
        }
        if count > 0 {
            out.append("\n");
        }
        let ghost before = out@;
        out.append(entry.as_str());
        proof {
            reveal_strlit("\n");
            if count == 0 {
                assert(before =~= Seq::<char>::empty());
                assert(out@ =~= entry@);
            }
        }
        count = text::chars_of(out.as_str()).len();
        i += 1;
    }
    out
}

/// The address to ask the search engine at.
pub open spec fn search_url(query: Seq<char>) -> Seq<char> {
    "https://www.bing.com/search?q="@ + url_encoded(query) + "&count=10"@
}

/// The address to ask the search engine at. There is nothing to ask for a blank query.
pub fn search_request(query: &str) -> (r: Result<String, String>)
    ensures
        match r {
            Ok(url) => trim(query@).len() > 0 && url@ == search_url(query@),
            Err(e) => trim(query@).len() == 0 && e@ == "empty search query"@,
        },
{
    if text::trimmed(text::chars_of(query).as_slice()).len() == 0 {
        return Err("empty search query".to_owned());
    }
    let encoded = encoding::url_encode(query);
    Ok(text::glue3("https://www.bing.com/search?q=", encoded.as_str(), "&count=10"))
}

/// What is shown of the answer of the search engine, from its bytes.
pub fn search_web(bytes: &[u8]) -> (r: String)
    requires
        bytes@.len() <= usize::MAX / 8,
    ensures
        r@ == search_text(results_from(encoding::response_text(bytes@), 0)),
{
    let html = encoding::decode_response(bytes);
    let results = parse_bing_results(html.as_str());
    show_results(&results)
}

} // verus!
