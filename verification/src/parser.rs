//! Parsing an article page: the embedded-identifier class scan, the fixed
//! date format, and the assembly of root comments with their replies.
//!
//! Everything that reads a value is verified; only the DOM traversal that
//! produces the raw strings (see [`crate::dom`]) is trusted.

use crate::datetime::DateTime;
use crate::dom::{elem_attr, elem_texts, make_selector, select_all, select_in};
use crate::schema::{CommentInsert, WorldAnvilUserInsert};
use crate::text::{
    chars_to_string, concat_parts, join_trimmed, spec_concat, spec_join_trimmed, spec_split,
    spec_trim, split_chars, str_to_chars, trim_chars,
};
use vstd::prelude::*;
use vstd::string::StringExecFns;

verus! {

/// A parsed article page.
#[derive(Debug)]
pub struct Article {
    pub title: String,
    pub worldanvil_id: String,
    pub world_worldanvil_id: String,
    pub comments: Vec<RootComment>,
}

/// Why a page failed to parse. The first three concern the page's required
/// landmarks; the rest concern one malformed comment block, which aborts
/// the whole parse.
#[derive(Debug, Clone, PartialEq, Eq)]
pub enum ParseError {
    NoVisualContainer,
    NoHeader,
    NoPageArticleMain,
    NoClassAttribute,
    NoClassWithPrefix(String),
    NoAuthorName,
    NoAvatar,
    NoDate,
    NoContent,
    InvalidDate(String),
}

/// The user-facing text of each parse failure.
pub open spec fn spec_error_message(e: ParseError) -> Seq<char> {
    match e {
        ParseError::NoVisualContainer => "could not find #visual-container"@,
        ParseError::NoHeader => "could not find #content .article-title h1"@,
        ParseError::NoPageArticleMain => "could not find .page-article-main"@,
        ParseError::NoClassAttribute => "could not find a 'class' attribute"@,
        ParseError::NoClassWithPrefix(p) => "could not find a class starting with '"@ + p@ + "'"@,
        ParseError::NoAuthorName => "could not find .uss-css-user-username"@,
        ParseError::NoAvatar => "could not find .comment-box-avatar"@,
        ParseError::NoDate => "could not find comment-box-date"@,
        ParseError::NoContent => "could not find .comment-box-content"@,
        ParseError::InvalidDate(s) => "invalid date "@ + s@,
    }
}

impl ParseError {
    /// The failure as a user-facing message.
    pub fn message(&self) -> (r: String)
        ensures
            r@ == spec_error_message(*self),
    {
        match self {
            ParseError::NoVisualContainer => "could not find #visual-container".to_owned(),
            ParseError::NoHeader => "could not find #content .article-title h1".to_owned(),
            ParseError::NoPageArticleMain => "could not find .page-article-main".to_owned(),
            ParseError::NoClassAttribute => "could not find a 'class' attribute".to_owned(),
            ParseError::NoClassWithPrefix(p) => "could not find a class starting with '".to_owned()
                .concat(p.as_str()).concat("'"),
            ParseError::NoAuthorName => "could not find .uss-css-user-username".to_owned(),
            ParseError::NoAvatar => "could not find .comment-box-avatar".to_owned(),
            ParseError::NoDate => "could not find comment-box-date".to_owned(),
            ParseError::NoContent => "could not find .comment-box-content".to_owned(),
            ParseError::InvalidDate(s) => "invalid date ".to_owned().concat(s.as_str()),
        }
    }
}

/// A top-level comment with its author's external identifier and its
/// replies.
#[derive(Debug)]
pub struct RootComment {
    pub comment: Comment,
    pub author_worldanvil_id: String,
    pub replies: Vec<Comment>,
}

/// One comment's scraped fields.
#[derive(Debug, Clone)]
pub struct Comment {
    pub index: i16,
    pub author_avatar: String,
    pub author_name: String,
    pub comment_datetime: DateTime,
    pub content: String,
}

impl RootComment {
    pub fn datetime(&self) -> (r: &DateTime)
        ensures
            *r == self.comment.comment_datetime,
    {
        &self.comment.comment_datetime
    }

    pub fn content(&self) -> (r: &str)
        ensures
            r@ == self.comment.content@,
    {
        self.comment.content.as_str()
    }

    /// The comment's author as an author-table insert record.
    pub fn as_worldanvil_user(&self) -> (r: WorldAnvilUserInsert)
        ensures
            r.worldanvil_id matches Some(w) && w@ == self.author_worldanvil_id@,
            r.name@ == self.comment.author_name@,
            r.avatar_url matches Some(a) && a@ == self.comment.author_avatar@,
    {
        WorldAnvilUserInsert {
            worldanvil_id: Some(self.author_worldanvil_id.clone()),
            name: self.comment.author_name.clone(),
            avatar_url: Some(self.comment.author_avatar.clone()),
        }
    }
}

impl Comment {
    /// The comment as a storable row for the given owner, author and
    /// article; the scraped wall-clock time is stored as it stands.
    pub fn as_db_comment(&self, user_id: i64, author_id: i64, article_id: i64) -> (r: CommentInsert)
        ensures
            r.user_id == user_id,
            r.author_id == author_id,
            r.article_id == article_id,
            r.content@ == self.content@,
            r.date == self.comment_datetime,
    {
        CommentInsert {
            user_id,
            author_id,
            article_id,
            content: self.content.clone(),
            date: self.comment_datetime,
        }
    }
}

// ---------------------------------------------------------------------------
// Embedded-identifier class scan.
// ---------------------------------------------------------------------------

/// A word character of the identifier pattern.
pub open spec fn is_word_char(c: char) -> bool {
    ||| (97 <= c as u32 <= 122)
    ||| (65 <= c as u32 <= 90)
    ||| (48 <= c as u32 <= 57)
    ||| c as u32 == 95
}

pub fn word_char(c: char) -> (r: bool)
    ensures
        r == is_word_char(c),
{
    let u = c as u32;
    (97 <= u && u <= 122) || (65 <= u && u <= 90) || (48 <= u && u <= 57) || u == 95
}

/// The 8-4-4-4-12 shape of an embedded identifier: thirty-six characters,
/// dashes at the four fixed positions, word characters elsewhere.
pub open spec fn uuid_shape(u: Seq<char>) -> bool {
    &&& u.len() == 36
    &&& (forall|i: int|
        0 <= i < 36 ==> if i == 8 || i == 13 || i == 18 || i == 23 {
            (#[trigger] u[i]) == '-'
        } else {
            is_word_char(u[i])
        })
}

/// What one class token yields for a prefix: the token must be the prefix,
/// a dash, and an identifier of the fixed shape, and the prefix itself must
/// consist of word characters and dashes.
pub open spec fn token_id(token: Seq<char>, prefix: Seq<char>) -> Option<Seq<char>> {
    if {
        &&& token.len() == prefix.len() + 37
        &&& prefix.len() >= 1
        &&& (forall|i: int|
            0 <= i < prefix.len() ==> is_word_char(#[trigger] prefix[i]) || prefix[i] == '-')
        &&& token.subrange(0, prefix.len() as int) == prefix
        &&& token[prefix.len() as int] == '-'
        &&& uuid_shape(token.skip(prefix.len() as int + 1))
    } {
        Some(token.skip(prefix.len() as int + 1))
    } else {
        None
    }
}

/// The identifier of the first token that matches, scanning left to right.
pub open spec fn first_token_id(tokens: Seq<Seq<char>>, prefix: Seq<char>) -> Option<Seq<char>>
    decreases tokens.len(),
{
    if tokens.len() == 0 {
        None
    } else {
        match token_id(tokens[0], prefix) {
            Some(u) => Some(u),
            None => first_token_id(tokens.skip(1), prefix),
        }
    }
}

/// What the class scan yields on a whole `class` attribute: its tokens are
/// the attribute split on single spaces.
pub open spec fn spec_find_class_id(classes: Seq<char>, prefix: Seq<char>) -> Option<Seq<char>> {
    first_token_id(spec_split(classes, ' '), prefix)
}

/// Whether this token is `prefix`, a dash, and a shaped identifier; if so,
/// the identifier.
fn check_token(token: &Vec<char>, prefix: &Vec<char>) -> (r: Option<Vec<char>>)
    ensures
        match r {
            Some(u) => token_id(token@, prefix@) == Some(u@),
            None => token_id(token@, prefix@) is None,
        },
{
    let plen = prefix.len();
    if plen < 1 {
        proof {
            assert(token_id(token@, prefix@) is None);
        }
        return None;
    }
    let tlen = token.len();
    if plen > usize::MAX - 37 {
        proof {
            assert(token@.len() == tlen);
            assert(token_id(token@, prefix@) is None);
        }
        return None;
    }
    if tlen != plen + 37 {
        proof {
            assert(token_id(token@, prefix@) is None);
        }
        return None;
    }
    let mut i: usize = 0;
    while i < plen
        invariant
            plen == prefix@.len(),
            token@.len() == plen + 37,
            i <= plen,
            forall|k: int| 0 <= k < i ==> token@[k] == prefix@[k],
            forall|k: int|
                0 <= k < i ==> is_word_char(#[trigger] prefix@[k]) || prefix@[k] == '-',
        decreases plen - i,
    {
        if token[i] != prefix[i] {
            proof {
                if token@.subrange(0, plen as int) == prefix@ {
                    assert(token@.subrange(0, plen as int)[i as int] == token@[i as int]);
                }
            }
            return None;
        }
        if !word_char(prefix[i]) && prefix[i] != '-' {
            return None;
        }
        i += 1;
    }
    proof {
        assert(token@.subrange(0, plen as int) =~= prefix@);
    }
    if token[plen] != '-' {
        return None;
    }
    let mut u: Vec<char> = Vec::new();
    let mut k: usize = 0;
    while k < 36
        invariant
            plen == prefix@.len(),
            plen + 37 <= usize::MAX,
            token@.len() == plen + 37,
            k <= 36,
            u@ == token@.skip(plen as int + 1).take(k as int),
            forall|m: int|
                0 <= m < k ==> if m == 8 || m == 13 || m == 18 || m == 23 {
                    (#[trigger] token@.skip(plen as int + 1)[m]) == '-'
                } else {
                    is_word_char(token@.skip(plen as int + 1)[m])
                },
        decreases 36 - k,
    {
        let c = token[plen + 1 + k];
        proof {
            assert(token@.skip(plen as int + 1)[k as int] == token@[plen + 1 + k]);
        }
        let want_dash = k == 8 || k == 13 || k == 18 || k == 23;
        if want_dash {
            if c != '-' {
                return None;
            }
        } else {
            if !word_char(c) {
                return None;
            }
        }
        u.push(c);
        proof {
            assert(u@ =~= token@.skip(plen as int + 1).take(k + 1));
        }
        k += 1;
    }
    proof {
        assert(token@.skip(plen as int + 1).take(36) =~= token@.skip(plen as int + 1));
        assert(uuid_shape(token@.skip(plen as int + 1)));
    }
    Some(u)
}

/// Find the class token of the element that embeds an identifier under the
/// given prefix, and return that identifier, scanning the `class` attribute
/// left to right.
pub fn find_class_with_prefix(classes: &str, prefix: &str) -> (r: Option<String>)
    ensures
        match r {
            Some(u) => spec_find_class_id(classes@, prefix@) == Some(u@),
            None => spec_find_class_id(classes@, prefix@) is None,
        },
{
    let cls = str_to_chars(classes);
    let pfx = str_to_chars(prefix);
    let tokens = split_chars(&cls, ' ');
    let ghost toks = spec_split(classes@, ' ');
    let mut i: usize = 0;
    proof {
        assert(tokens.deep_view().skip(0) =~= tokens.deep_view());
    }
    while i < tokens.len()
        invariant
            pfx@ == prefix@,
            toks == spec_split(classes@, ' '),
            toks == tokens.deep_view(),
            tokens.deep_view().len() == tokens@.len(),
            forall|k: int|
                0 <= k < tokens@.len() ==> tokens.deep_view()[k] == #[trigger] tokens@[k]@,
            i <= tokens@.len(),
            first_token_id(toks.skip(i as int), prefix@) == first_token_id(toks, prefix@),
        decreases tokens@.len() - i,
    {
        proof {
            assert(toks.skip(i as int)[0] == toks[i as int]);
            assert(toks.skip(i as int).skip(1) =~= toks.skip(i + 1));
        }
        match check_token(&tokens[i], &pfx) {
            Some(u) => {
                let s = chars_to_string(&u);
                let ret = Some(s);
                proof {
                    assert(token_id(toks[i as int], prefix@) == Some(u@));
                    assert(first_token_id(toks.skip(i as int), prefix@) == Some(u@));
                    assert(ret matches Some(x) && x@ == u@);
                    assert(spec_find_class_id(classes@, prefix@) == Some(u@));
                }
                return ret;
            },
            None => {},
        }
        i += 1;
    }
    proof {
        assert(toks.skip(toks.len() as int) =~= Seq::<Seq<char>>::empty());
    }
    None
}

// ---------------------------------------------------------------------------
// The fixed date format: "<Mon> <D>, <YYYY> <HH>:<MM>".
// ---------------------------------------------------------------------------

/// The month named by a three-letter abbreviation.
pub open spec fn spec_month_num(c0: char, c1: char, c2: char) -> Option<u8> {
    if c0 == 'J' && c1 == 'a' && c2 == 'n' {
        Some(1u8)
    } else if c0 == 'F' && c1 == 'e' && c2 == 'b' {
        Some(2u8)
    } else if c0 == 'M' && c1 == 'a' && c2 == 'r' {
        Some(3u8)
    } else if c0 == 'A' && c1 == 'p' && c2 == 'r' {
        Some(4u8)
    } else if c0 == 'M' && c1 == 'a' && c2 == 'y' {
        Some(5u8)
    } else if c0 == 'J' && c1 == 'u' && c2 == 'n' {
        Some(6u8)
    } else if c0 == 'J' && c1 == 'u' && c2 == 'l' {
        Some(7u8)
    } else if c0 == 'A' && c1 == 'u' && c2 == 'g' {
        Some(8u8)
    } else if c0 == 'S' && c1 == 'e' && c2 == 'p' {
        Some(9u8)
    } else if c0 == 'O' && c1 == 'c' && c2 == 't' {
        Some(10u8)
    } else if c0 == 'N' && c1 == 'o' && c2 == 'v' {
        Some(11u8)
    } else if c0 == 'D' && c1 == 'e' && c2 == 'c' {
        Some(12u8)
    } else {
        None
    }
}

pub open spec fn is_digit(c: char) -> bool {
    48 <= c as u32 <= 57
}

pub open spec fn digit_val(c: char) -> int {
    c as u32 - 48
}

/// The fixed tail ", YYYY HH:MM" from position `i` to the end of the
/// input, assembled with the month and day already read; the result must
/// name a real calendar date and time.
pub open spec fn spec_parse_tail(s: Seq<char>, i: int, month: u8, day: int) -> Option<DateTime> {
    if s.len() != i + 12 {
        None
    } else if s[i] != ',' || s[i + 1] != ' ' {
        None
    } else if !(is_digit(s[i + 2]) && is_digit(s[i + 3]) && is_digit(s[i + 4]) && is_digit(
        s[i + 5],
    )) {
        None
    } else if s[i + 6] != ' ' {
        None
    } else if !(is_digit(s[i + 7]) && is_digit(s[i + 8])) {
        None
    } else if s[i + 9] != ':' {
        None
    } else if !(is_digit(s[i + 10]) && is_digit(s[i + 11])) {
        None
    } else {
        let year = digit_val(s[i + 2]) * 1000 + digit_val(s[i + 3]) * 100 + digit_val(s[i + 4])
            * 10 + digit_val(s[i + 5]);
        let hour = digit_val(s[i + 7]) * 10 + digit_val(s[i + 8]);
        let minute = digit_val(s[i + 10]) * 10 + digit_val(s[i + 11]);
        let dt = DateTime {
            year: year as u16,
            month,
            day: day as u8,
            hour: hour as u8,
            minute: minute as u8,
        };
        if dt.wf() {
            Some(dt)
        } else {
            None
        }
    }
}

/// The whole format: a three-letter month, a space, a one- or two-digit
/// day, then the fixed tail, consuming the entire input.
pub open spec fn spec_parse_date(s: Seq<char>) -> Option<DateTime> {
    if s.len() < 5 {
        None
    } else {
        match spec_month_num(s[0], s[1], s[2]) {
            None => None,
            Some(month) => {
                if s[3] != ' ' {
                    None
                } else if !is_digit(s[4]) {
                    None
                } else if s.len() >= 6 && is_digit(s[5]) {
                    spec_parse_tail(s, 6, month, digit_val(s[4]) * 10 + digit_val(s[5]))
                } else {
                    spec_parse_tail(s, 5, month, digit_val(s[4]))
                }
            },
        }
    }
}

/// The date input was not in the fixed format, or named no real calendar
/// date.
#[derive(Debug, Clone, Copy, PartialEq, Eq, Structural)]
pub struct DateParseError;

fn month_from_chars(c0: char, c1: char, c2: char) -> (r: Option<u8>)
    ensures
        r == spec_month_num(c0, c1, c2),
{
    if c0 == 'J' && c1 == 'a' && c2 == 'n' {
        Some(1)
    } else if c0 == 'F' && c1 == 'e' && c2 == 'b' {
        Some(2)
    } else if c0 == 'M' && c1 == 'a' && c2 == 'r' {
        Some(3)
    } else if c0 == 'A' && c1 == 'p' && c2 == 'r' {
        Some(4)
    } else if c0 == 'M' && c1 == 'a' && c2 == 'y' {
        Some(5)
    } else if c0 == 'J' && c1 == 'u' && c2 == 'n' {
        Some(6)
    } else if c0 == 'J' && c1 == 'u' && c2 == 'l' {
        Some(7)
    } else if c0 == 'A' && c1 == 'u' && c2 == 'g' {
        Some(8)
    } else if c0 == 'S' && c1 == 'e' && c2 == 'p' {
        Some(9)
    } else if c0 == 'O' && c1 == 'c' && c2 == 't' {
        Some(10)
    } else if c0 == 'N' && c1 == 'o' && c2 == 'v' {
        Some(11)
    } else if c0 == 'D' && c1 == 'e' && c2 == 'c' {
        Some(12)
    } else {
        None
    }
}

fn digit(c: char) -> (r: bool)
    ensures
        r == is_digit(c),
{
    let u = c as u32;
    48 <= u && u <= 57
}

fn digit_value(c: char) -> (r: u8)
    requires
        is_digit(c),
    ensures
        r == digit_val(c),
{
    (c as u32 - 48) as u8
}

/// Parse the fixed tail from position `i`.
fn parse_tail(v: &Vec<char>, i: usize, month: u8, day: u8) -> (r: Option<DateTime>)
    requires
        i + 12 <= usize::MAX,
    ensures
        r == spec_parse_tail(v@, i as int, month, day as int),
{
    if v.len() != i + 12 {
        return None;
    }
    if v[i] != ',' || v[i + 1] != ' ' {
        return None;
    }
    if !(digit(v[i + 2]) && digit(v[i + 3]) && digit(v[i + 4]) && digit(v[i + 5])) {
        return None;
    }
    if v[i + 6] != ' ' {
        return None;
    }
    if !(digit(v[i + 7]) && digit(v[i + 8])) {
        return None;
    }
    if v[i + 9] != ':' {
        return None;
    }
    if !(digit(v[i + 10]) && digit(v[i + 11])) {
        return None;
    }
    let year: u16 = digit_value(v[i + 2]) as u16 * 1000 + digit_value(v[i + 3]) as u16 * 100
        + digit_value(v[i + 4]) as u16 * 10 + digit_value(v[i + 5]) as u16;
    let hour: u8 = digit_value(v[i + 7]) * 10 + digit_value(v[i + 8]);
    let minute: u8 = digit_value(v[i + 10]) * 10 + digit_value(v[i + 11]);
    let dt = DateTime { year, month, day, hour, minute };
    if dt.is_valid() {
        Some(dt)
    } else {
        None
    }
}

/// Parse a date in the page's fixed format, `"<Mon> <D>, <YYYY> <HH>:<MM>"`
/// (24-hour clock, no seconds), into a timezone-naive date-time.
pub fn parse_date(s: &str) -> (r: Result<DateTime, DateParseError>)
    ensures
        match r {
            Ok(dt) => spec_parse_date(s@) == Some(dt),
            Err(_) => spec_parse_date(s@) is None,
        },
{
    let v = str_to_chars(s);
    if v.len() < 5 {
        return Err(DateParseError);
    }
    let month = match month_from_chars(v[0], v[1], v[2]) {
        Some(m) => m,
        None => {
            return Err(DateParseError);
        },
    };
    if v[3] != ' ' {
        return Err(DateParseError);
    }
    if !digit(v[4]) {
        return Err(DateParseError);
    }
    let r = if v.len() >= 6 && digit(v[5]) {
        parse_tail(&v, 6, month, digit_value(v[4]) * 10 + digit_value(v[5]))
    } else {
        parse_tail(&v, 5, month, digit_value(v[4]))
    };
    match r {
        Some(dt) => Ok(dt),
        None => Err(DateParseError),
    }
}

// ---------------------------------------------------------------------------
// The raw page: what the DOM traversal hands the verified parser.
// ---------------------------------------------------------------------------

/// The plain strings extracted from one comment box (or one reply box).
/// A `None` means the sub-element, or its attribute, was missing.
pub struct RawCommentBlock {
    /// The box's own `class` attribute.
    pub class_attr: Option<String>,
    /// Text nodes of the author-name element.
    pub author_name: Option<Vec<String>>,
    /// The `src` attribute of the avatar image.
    pub avatar_src: Option<String>,
    /// Text nodes of the date element.
    pub date_text: Option<Vec<String>>,
    /// Text nodes of the body element.
    pub content: Option<Vec<String>>,
    /// The nested reply boxes, in document order; empty for a reply itself.
    pub replies: Vec<RawCommentBlock>,
}

/// The plain strings extracted from a whole page. The outer `Option` of a
/// landmark is the element's presence; the inner one is its `class`
/// attribute.
pub struct RawPage {
    pub visual_container: Option<Option<String>>,
    pub title: Option<Vec<String>>,
    pub article_main: Option<Option<String>>,
    pub comment_boxes: Vec<RawCommentBlock>,
}

/// The date input of a block: its first date text node, trimmed.
pub open spec fn block_date_input(b: RawCommentBlock) -> Seq<char> {
    spec_trim(b.date_text->0@[0]@)
}

/// Every sub-element one comment needs is present and its date parses.
pub open spec fn block_ok(b: RawCommentBlock) -> bool {
    &&& b.author_name is Some
    &&& b.avatar_src is Some
    &&& b.date_text is Some
    &&& b.date_text->0@.len() > 0
    &&& spec_parse_date(block_date_input(b)) is Some
    &&& b.content is Some
}

/// The comment a block parses to: trimmed-and-joined author name and body,
/// the avatar as given, and the parsed date.
pub open spec fn comment_matches(b: RawCommentBlock, idx: int, c: Comment) -> bool {
    &&& block_ok(b)
    &&& (0 <= idx <= i16::MAX ==> c.index == idx)
    &&& c.author_name@ == spec_join_trimmed(b.author_name->0.deep_view())
    &&& c.author_avatar@ == b.avatar_src->0@
    &&& Some(c.comment_datetime) == spec_parse_date(block_date_input(b))
    &&& c.content@ == spec_join_trimmed(b.content->0.deep_view())
}

/// The error one malformed comment reports: the first missing sub-element
/// in extraction order, or the unparseable date text.
pub open spec fn comment_error_matches(b: RawCommentBlock, e: ParseError) -> bool {
    if b.author_name is None {
        e == ParseError::NoAuthorName
    } else if b.avatar_src is None {
        e == ParseError::NoAvatar
    } else if !(b.date_text is Some && b.date_text->0@.len() > 0) {
        e == ParseError::NoDate
    } else if spec_parse_date(block_date_input(b)) is None {
        e matches ParseError::InvalidDate(s) && s@ == block_date_input(b)
    } else if b.content is None {
        e == ParseError::NoContent
    } else {
        false
    }
}

/// Extract one comment's fields from a raw block. Any missing sub-element
/// is a hard failure for the whole page, reported by its typed error.
pub fn get_comment_info(block: &RawCommentBlock, index: i16) -> (r: Result<Comment, ParseError>)
    ensures
        match r {
            Ok(c) => comment_matches(*block, index as int, c),
            Err(e) => !block_ok(*block) && comment_error_matches(*block, e),
        },
{
    let author_name_texts = match &block.author_name {
        Some(ts) => ts,
        None => {
            return Err(ParseError::NoAuthorName);
        },
    };
    let author_avatar = match &block.avatar_src {
        Some(a) => a.clone(),
        None => {
            return Err(ParseError::NoAvatar);
        },
    };
    let date_texts = match &block.date_text {
        Some(dt) => dt,
        None => {
            return Err(ParseError::NoDate);
        },
    };
    if date_texts.len() == 0 {
        return Err(ParseError::NoDate);
    }
    let first_chars = str_to_chars(date_texts[0].as_str());
    let trimmed = trim_chars(&first_chars);
    let datetime_str = chars_to_string(&trimmed);
    let comment_datetime = match parse_date(datetime_str.as_str()) {
        Ok(d) => d,
        Err(_) => {
            return Err(ParseError::InvalidDate(datetime_str));
        },
    };
    let content_texts = match &block.content {
        Some(ct) => ct,
        None => {
            return Err(ParseError::NoContent);
        },
    };
    let name_chars = join_trimmed(author_name_texts);
    let content_chars = join_trimmed(content_texts);
    Ok(Comment {
        index,
        author_avatar,
        author_name: chars_to_string(&name_chars),
        comment_datetime,
        content: chars_to_string(&content_chars),
    })
}

/// The root comment a block parses to: the comment itself, its author's
/// embedded identifier, and its replies in order.
pub open spec fn root_block_matches(b: RawCommentBlock, idx: int, rc: RootComment) -> bool {
    &&& comment_matches(b, idx, rc.comment)
    &&& b.class_attr matches Some(cls) && Some(rc.author_worldanvil_id@) == spec_find_class_id(
        cls@,
        "comment-author"@,
    )
    &&& rc.replies@.len() == b.replies@.len()
    &&& (forall|k: int|
        0 <= k < b.replies@.len() ==> comment_matches(
            #[trigger] b.replies@[k],
            k,
            rc.replies@[k],
        ))
}

/// The whole block parses: the comment, every reply, and the author's
/// embedded identifier.
pub open spec fn root_block_ok(b: RawCommentBlock) -> bool {
    &&& block_ok(b)
    &&& (forall|k: int| 0 <= k < b.replies@.len() ==> block_ok(#[trigger] b.replies@[k]))
    &&& b.class_attr is Some
    &&& spec_find_class_id(b.class_attr->0@, "comment-author"@) is Some
}

/// The error a malformed block reports: its own first failure, else the
/// first failing reply's, else the missing class attribute or identifier.
pub open spec fn root_block_error_matches(b: RawCommentBlock, e: ParseError) -> bool {
    if !block_ok(b) {
        comment_error_matches(b, e)
    } else if exists|k: int| 0 <= k < b.replies@.len() && !block_ok(#[trigger] b.replies@[k]) {
        exists|k: int|
            {
                &&& 0 <= k < b.replies@.len()
                &&& !block_ok(#[trigger] b.replies@[k])
                &&& (forall|m: int| 0 <= m < k ==> block_ok(#[trigger] b.replies@[m]))
                &&& comment_error_matches(b.replies@[k], e)
            }
    } else if b.class_attr is None {
        e == ParseError::NoClassAttribute
    } else {
        e matches ParseError::NoClassWithPrefix(p) && p@ == "comment-author"@
            && spec_find_class_id(b.class_attr->0@, "comment-author"@) is None
    }
}

/// Parse one comment box into a root comment with its replies.
fn parse_root_block(block: &RawCommentBlock, index: i16) -> (r: Result<RootComment, ParseError>)
    ensures
        match r {
            Ok(rc) => root_block_matches(*block, index as int, rc),
            Err(e) => !root_block_ok(*block) && root_block_error_matches(*block, e),
        },
{
    let comment = match get_comment_info(block, index) {
        Ok(c) => c,
        Err(e) => {
            return Err(e);
        },
    };
    let mut replies: Vec<Comment> = Vec::new();
    let mut k: usize = 0;
    while k < block.replies.len()
        invariant
            comment_matches(*block, index as int, comment),
            k <= block.replies@.len(),
            replies@.len() == k,
            forall|m: int| 0 <= m < k ==> block_ok(#[trigger] block.replies@[m]),
            forall|m: int|
                0 <= m < k ==> comment_matches(#[trigger] block.replies@[m], m, replies@[m]),
        decreases block.replies@.len() - k,
    {
        let idx = #[verifier::truncate] (k as i16);
        match get_comment_info(&block.replies[k], idx) {
            Ok(c) => {
                replies.push(c);
            },
            Err(e) => {
                proof {
                    assert(!block_ok(block.replies@[k as int]));
                    assert(root_block_error_matches(*block, e));
                }
                return Err(e);
            },
        }
        k += 1;
    }
    let author_worldanvil_id = match &block.class_attr {
        Some(cls) => match find_class_with_prefix(cls.as_str(), "comment-author") {
            Some(u) => u,
            None => {
                return Err(ParseError::NoClassWithPrefix("comment-author".to_owned()));
            },
        },
        None => {
            return Err(ParseError::NoClassAttribute);
        },
    };
    Ok(RootComment { comment, author_worldanvil_id, replies })
}

/// The page's three landmarks are present and carry their identifiers.
pub open spec fn page_landmarks_ok(raw: RawPage) -> bool {
    &&& raw.visual_container matches Some(Some(cls)) && spec_find_class_id(cls@, "world"@) is Some
    &&& raw.title is Some
    &&& raw.article_main matches Some(Some(cls2)) && spec_find_class_id(cls2@, "article"@)
        is Some
}

/// The whole raw page parses.
pub open spec fn page_ok(raw: RawPage) -> bool {
    &&& page_landmarks_ok(raw)
    &&& (forall|i: int|
        0 <= i < raw.comment_boxes@.len() ==> root_block_ok(#[trigger] raw.comment_boxes@[i]))
}

/// The article a raw page parses to: the two embedded identifiers, the
/// trimmed concatenation of the heading's text nodes, and one root comment
/// per comment box, in document order.
pub open spec fn article_matches(raw: RawPage, a: Article) -> bool {
    &&& page_ok(raw)
    &&& Some(a.world_worldanvil_id@) == spec_find_class_id(raw.visual_container->0->0@, "world"@)
    &&& a.title@ == spec_trim(spec_concat(raw.title->0.deep_view()))
    &&& Some(a.worldanvil_id@) == spec_find_class_id(raw.article_main->0->0@, "article"@)
    &&& a.comments@.len() == raw.comment_boxes@.len()
    &&& (forall|i: int|
        0 <= i < raw.comment_boxes@.len() ==> root_block_matches(
            #[trigger] raw.comment_boxes@[i],
            i,
            a.comments@[i],
        ))
}

/// The error a malformed page reports: the first failing stage, in
/// extraction order.
pub open spec fn page_error_matches(raw: RawPage, e: ParseError) -> bool {
    if raw.visual_container is None {
        e == ParseError::NoVisualContainer
    } else if raw.visual_container->0 is None {
        e == ParseError::NoClassAttribute
    } else if spec_find_class_id(raw.visual_container->0->0@, "world"@) is None {
        e matches ParseError::NoClassWithPrefix(p) && p@ == "world"@
    } else if raw.title is None {
        e == ParseError::NoHeader
    } else if raw.article_main is None {
        e == ParseError::NoPageArticleMain
    } else if raw.article_main->0 is None {
        e == ParseError::NoClassAttribute
    } else if spec_find_class_id(raw.article_main->0->0@, "article"@) is None {
        e matches ParseError::NoClassWithPrefix(p) && p@ == "article"@
    } else {
        exists|i: int|
            {
                &&& 0 <= i < raw.comment_boxes@.len()
                &&& !root_block_ok(#[trigger] raw.comment_boxes@[i])
                &&& (forall|m: int|
                    0 <= m < i ==> root_block_ok(#[trigger] raw.comment_boxes@[m]))
                &&& root_block_error_matches(raw.comment_boxes@[i], e)
            }
    }
}

/// Parse an extracted page into an article: the verified core of the page
/// parser. Succeeds exactly on well-formed raw pages, and reports the
/// first failure otherwise.
pub fn parse_extracted(raw: &RawPage) -> (r: Result<Article, ParseError>)
    ensures
        match r {
            Ok(a) => article_matches(*raw, a),
            Err(e) => !page_ok(*raw) && page_error_matches(*raw, e),
        },
{
    let world_classes = match &raw.visual_container {
        Some(Some(cls)) => cls,
        Some(None) => {
            return Err(ParseError::NoClassAttribute);
        },
        None => {
            return Err(ParseError::NoVisualContainer);
        },
    };
    let world_worldanvil_id = match find_class_with_prefix(world_classes.as_str(), "world") {
        Some(u) => u,
        None => {
            return Err(ParseError::NoClassWithPrefix("world".to_owned()));
        },
    };
    let title_texts = match &raw.title {
        Some(ts) => ts,
        None => {
            return Err(ParseError::NoHeader);
        },
    };
    let title_concat = concat_parts(title_texts);
    let title_chars = trim_chars(&title_concat);
    let title = chars_to_string(&title_chars);
    let article_classes = match &raw.article_main {
        Some(Some(cls)) => cls,
        Some(None) => {
            return Err(ParseError::NoClassAttribute);
        },
        None => {
            return Err(ParseError::NoPageArticleMain);
        },
    };
    let worldanvil_id = match find_class_with_prefix(article_classes.as_str(), "article") {
        Some(u) => u,
        None => {
            return Err(ParseError::NoClassWithPrefix("article".to_owned()));
        },
    };
    let mut comments: Vec<RootComment> = Vec::new();
    let mut i: usize = 0;
    while i < raw.comment_boxes.len()
        invariant
            page_landmarks_ok(*raw),
            i <= raw.comment_boxes@.len(),
            comments@.len() == i,
            forall|m: int| 0 <= m < i ==> root_block_ok(#[trigger] raw.comment_boxes@[m]),
            forall|m: int|
                0 <= m < i ==> root_block_matches(
                    #[trigger] raw.comment_boxes@[m],
                    m,
                    comments@[m],
                ),
        decreases raw.comment_boxes@.len() - i,
    {
        let idx = #[verifier::truncate] (i as i16);
        match parse_root_block(&raw.comment_boxes[i], idx) {
            Ok(rc) => {
                comments.push(rc);
            },
            Err(e) => {
                proof {
                    assert(!root_block_ok(raw.comment_boxes@[i as int]));
                    let ghost w: int = i as int;
                    assert({
                        &&& 0 <= w < raw.comment_boxes@.len()
                        &&& !root_block_ok(raw.comment_boxes@[w])
                        &&& (forall|m: int|
                            0 <= m < w ==> root_block_ok(#[trigger] raw.comment_boxes@[m]))
                        &&& root_block_error_matches(raw.comment_boxes@[w], e)
                    });
                }
                return Err(e);
            },
        }
        i += 1;
    }
    Ok(Article { title, worldanvil_id, world_worldanvil_id, comments })
}

// ---------------------------------------------------------------------------
// DOM extraction and the whole-page entry point.
// ---------------------------------------------------------------------------

/// Extract one comment box's plain strings from its element.
fn extract_block_fields<'a>(el: &scraper::ElementRef<'a>) -> RawCommentBlock {
    let class_attr = elem_attr(el, "class");
    let author_name = match make_selector("span.uss-css-user-username") {
        Some(sel) => {
            let found = select_in(el, &sel);
            if found.len() > 0 {
                Some(elem_texts(&found[0]))
            } else {
                None
            }
        },
        None => None,
    };
    let avatar_src = match make_selector("div.comment-box-avatar .img-avatar") {
        Some(sel) => {
            let found = select_in(el, &sel);
            if found.len() > 0 {
                elem_attr(&found[0], "src")
            } else {
                None
            }
        },
        None => None,
    };
    let date_text = match make_selector(".comment-box-date") {
        Some(sel) => {
            let found = select_in(el, &sel);
            if found.len() > 0 {
                Some(elem_texts(&found[0]))
            } else {
                None
            }
        },
        None => None,
    };
    let content = match make_selector(".comment-box-content p") {
        Some(sel) => {
            let found = select_in(el, &sel);
            if found.len() > 0 {
                Some(elem_texts(&found[0]))
            } else {
                None
            }
        },
        None => None,
    };
    RawCommentBlock { class_attr, author_name, avatar_src, date_text, content, replies: Vec::new() }
}

/// The class attribute of the first element the selector finds, as the
/// page parser models it: outer `None` when no element matched, inner
/// `None` when the element has no class attribute.
fn extract_class_of_first(doc: &scraper::Html, selector: &str) -> Option<Option<String>> {
    match make_selector(selector) {
        Some(sel) => {
            let found = select_all(doc, &sel);
            if found.len() > 0 {
                Some(elem_attr(&found[0], "class"))
            } else {
                None
            }
        },
        None => None,
    }
}

/// Pull every string the parser reads out of a parsed document.
fn extract_raw(doc: &scraper::Html) -> RawPage {
    let visual_container = extract_class_of_first(doc, "#visual-container");
    let title = match make_selector("#content .article-title h1") {
        Some(sel) => {
            let found = select_all(doc, &sel);
            if found.len() > 0 {
                Some(elem_texts(&found[0]))
            } else {
                None
            }
        },
        None => None,
    };
    let article_main = extract_class_of_first(doc, ".page-article-main");
    let mut comment_boxes: Vec<RawCommentBlock> = Vec::new();
    match make_selector(".comment-box") {
        Some(sel) => {
            let boxes = select_all(doc, &sel);
            let mut i: usize = 0;
            while i < boxes.len()
                decreases boxes@.len() - i,
            {
                let mut block = extract_block_fields(&boxes[i]);
                let mut replies: Vec<RawCommentBlock> = Vec::new();
                match make_selector(".comment-box-reply") {
                    Some(rsel) => {
                        let found = select_in(&boxes[i], &rsel);
                        let mut k: usize = 0;
                        while k < found.len()
                            decreases found@.len() - k,
                        {
                            replies.push(extract_block_fields(&found[k]));
                            k += 1;
                        }
                    },
                    None => {},
                }
                block.replies = replies;
                comment_boxes.push(block);
                i += 1;
            }
        },
        None => {},
    }
    RawPage { visual_container, title, article_main, comment_boxes }
}

/// What the DOM traversal extracts from a page's text. scraper's parsing
/// and selection read nothing but the document, so the extracted strings
/// are a function of the page text alone; stating them exactly would mean
/// restating an HTML parser, so the result only carries this name.
pub uninterp spec fn raw_page_of(page_body: Seq<char>) -> RawPage;

/// Relies on scraper::Html::parse_document, and through [`extract_raw`] on
/// the selection wrappers of [`crate::dom`]: every step reads the document
/// alone, so the extraction is deterministic in the page text and its
/// result is named [`raw_page_of`].
#[verifier::external_body]
fn extract_page(page_body: &str) -> (r: RawPage)
    ensures
        r == raw_page_of(page_body@),
{
    extract_raw(&scraper::Html::parse_document(page_body))
}

/// Parse an article page and extract all information the re-sync needs
/// from it: exactly the article [`parse_extracted`] gives on the page's
/// extracted strings, or the first parse failure on them.
pub fn parse_page(page_body: &str) -> (r: Result<Article, ParseError>)
    ensures
        match r {
            Ok(a) => article_matches(raw_page_of(page_body@), a),
            Err(e) => !page_ok(raw_page_of(page_body@)) && page_error_matches(
                raw_page_of(page_body@),
                e,
            ),
        },
{
    let raw = extract_page(page_body);
    parse_extracted(&raw)
}

} // verus!
