use vstd::prelude::*;
use vstd::utf8::encode_utf8;

use crate::basic::push_char;
use crate::request::ApiError;
use crate::sort::{str_pairs_view, Sort};

verus! {

/// The text of a sequence of key/value pairs.
pub open spec fn pairs_view(s: Seq<(String, String)>) -> Seq<(Seq<char>, Seq<char>)> {
    s.map_values(|p: (String, String)| (p.0@, p.1@))
}

/// A byte that form encoding leaves as it is: `*`, `-`, `.`, `_`, ASCII
/// digits and letters.
pub open spec fn form_byte_unchanged(b: u8) -> bool {
    b == 42 || b == 45 || b == 46 || b == 95 || (48 <= b && b <= 57) || (65 <= b && b <= 90) || (97
        <= b && b <= 122)
}

/// An upper-case hexadecimal digit.
pub open spec fn hex_upper(d: int) -> char {
    seq!['0', '1', '2', '3', '4', '5', '6', '7', '8', '9', 'A', 'B', 'C', 'D', 'E', 'F'][d]
}

/// The form encoding of one byte: itself when unchanged, `+` for a space,
/// `%XX` (upper-case hex) otherwise.
pub open spec fn form_byte(b: u8) -> Seq<char> {
    if form_byte_unchanged(b) {
        seq![b as char]
    } else if b == 32 {
        seq!['+']
    } else {
        seq!['%', hex_upper(b as int / 16), hex_upper(b as int % 16)]
    }
}

/// The form encoding of a byte sequence, byte by byte.
pub open spec fn form_bytes(s: Seq<u8>) -> Seq<char>
    decreases s.len(),
{
    if s.len() == 0 {
        Seq::empty()
    } else {
        form_bytes(s.drop_last()) + form_byte(s.last())
    }
}

/// The form encoding of one key/value pair: `key=value`, each encoded from
/// its UTF-8 bytes.
pub open spec fn form_pair(p: (Seq<char>, Seq<char>)) -> Seq<char> {
    form_bytes(encode_utf8(p.0)) + "="@ + form_bytes(encode_utf8(p.1))
}

/// The `application/x-www-form-urlencoded` serialization of the pairs, in
/// order, joined by `&`.
pub open spec fn form_encoded(pairs: Seq<(Seq<char>, Seq<char>)>) -> Seq<char>
    decreases pairs.len(),
{
    if pairs.len() == 0 {
        Seq::empty()
    } else if pairs.len() == 1 {
        form_pair(pairs[0])
    } else {
        form_encoded(pairs.drop_last()) + "&"@ + form_pair(pairs.last())
    }
}

/// The URL `base` with the pairs appended to its query, in order, or `None`
/// when `base` is not an absolute URL.
pub uninterp spec fn url_with_query(base: Seq<char>, pairs: Seq<(Seq<char>, Seq<char>)>) -> Option<Seq<char>>;

/// Relies on url::form_urlencoded::Serializer (`new` on an empty string,
/// `extend_pairs`, then `finish`): with no encoding override each pair is
/// written `key=value` from the UTF-8 bytes of both, pairs are joined by `&`,
/// and each byte is encoded as `form_byte` says (`byte_serialize`).
#[verifier::external_body]
pub(crate) fn form_encode(pairs: &Vec<(String, String)>) -> (r: String)
    ensures
        r@ == form_encoded(pairs_view(pairs@)),
{
    url::form_urlencoded::Serializer::new(String::new()).extend_pairs(pairs.iter()).finish()
}

/// Relies on url::Url::parse_with_params: parses `base` and appends the
/// pairs to its query; fails exactly when `base` does not parse.
#[verifier::external_body]
fn parse_with_params(base: &str, pairs: &Vec<(String, String)>) -> (r: Option<String>)
    ensures
        r matches Some(u) ==> url_with_query(base@, pairs_view(pairs@)) == Some(u@),
        r is None ==> url_with_query(base@, pairs_view(pairs@)) is None,
{
    match url::Url::parse_with_params(base, pairs.iter()) {
        Ok(u) => Some(String::from(u)),
        Err(_) => None,
    }
}

/// The character of a decimal digit.
pub open spec fn digit_char(d: nat) -> char {
    seq!['0', '1', '2', '3', '4', '5', '6', '7', '8', '9'][d as int]
}

/// The decimal digits of `n`, without leading zeros.
pub open spec fn decimal(n: nat) -> Seq<char>
    decreases n,
{
    if n < 10 {
        seq![digit_char(n)]
    } else {
        decimal(n / 10).push(digit_char(n % 10))
    }
}

/// The decimal text of an integer, with a minus sign when it is negative.
pub open spec fn signed_decimal(n: int) -> Seq<char> {
    if n < 0 {
        seq!['-'] + decimal((-n) as nat)
    } else {
        decimal(n as nat)
    }
}

/// The text of a boolean.
pub open spec fn bool_text(b: bool) -> Seq<char> {
    if b { "true"@ } else { "false"@ }
}

fn digit(d: u64) -> (r: char)
    requires
        d < 10,
    ensures
        r == digit_char(d as nat),
{
    let t: [char; 10] = ['0', '1', '2', '3', '4', '5', '6', '7', '8', '9'];
    assert(t@ =~= seq!['0', '1', '2', '3', '4', '5', '6', '7', '8', '9']);
    t[d as usize]
}

/// Appends the decimal digits of `n`.
fn push_decimal(out: &mut String, n: u64)
    ensures
        final(out)@ == old(out)@ + decimal(n as nat),
    decreases n,
{
    if n >= 10 {
        push_decimal(out, n / 10);
    }
    push_char(out, digit(n % 10));
    assert(final(out)@ =~= old(out)@ + decimal(n as nat));
}

/// The decimal digits of a number, as `u32` displays it.
fn u32_text(n: u32) -> (r: String)
    ensures
        r@ == decimal(n as nat),
{
    let mut s = String::new();
    push_decimal(&mut s, n as u64);
    assert(s@ =~= decimal(n as nat));
    s
}

/// The decimal text of a number, as `i32` displays it.
fn i32_text(n: i32) -> (r: String)
    ensures
        r@ == signed_decimal(n as int),
{
    let mut s = String::new();
    if n < 0 {
        push_char(&mut s, '-');
        push_decimal(&mut s, (-(n as i64)) as u64);
    } else {
        push_decimal(&mut s, n as u64);
    }
    assert(s@ =~= signed_decimal(n as int));
    s
}

/// The text of a boolean, as `bool` displays it.
pub fn bool_string(b: bool) -> (r: String)
    ensures
        r@ == bool_text(b),
{
    if b {
        String::from_str("true")
    } else {
        String::from_str("false")
    }
}

proof fn lemma_pairs_view_push(s: Seq<(String, String)>, p: (String, String))
    ensures
        pairs_view(s.push(p)) == pairs_view(s).push((p.0@, p.1@)),
{
    assert(pairs_view(s.push(p)) =~= pairs_view(s).push((p.0@, p.1@)));
}

/// Appends a pair.
pub(crate) fn push_pair(out: &mut Vec<(String, String)>, key: &str, value: String)
    ensures
        pairs_view(final(out)@) == pairs_view(old(out)@).push((key@, value@)),
{
    let p = (String::from_str(key), value);
    proof {
        lemma_pairs_view_push(old(out)@, p);
    }
    out.push(p);
}

/// The form of a comment on, or an edit of, the thing `thing`.
pub open spec fn spec_text_form(text: Seq<char>, thing: Seq<char>) -> Seq<(Seq<char>, Seq<char>)> {
    seq![("text"@, text), ("thing_id"@, thing)]
}

/// The body of a comment on the thing `thing` (a post, comment or message),
/// or of an edit of it.
pub fn text_form(text: &str, thing: &str) -> (r: String)
    ensures
        r@ == form_encoded(spec_text_form(text@, thing@)),
{
    let mut v: Vec<(String, String)> = Vec::new();
    push_pair(&mut v, "text", String::from_str(text));
    push_pair(&mut v, "thing_id", String::from_str(thing));
    assert(pairs_view(v@) =~= spec_text_form(text@, thing@));
    form_encode(&v)
}

/// Depth and count asked for when a whole comment tree is loaded.
pub const TREE_LIMIT: &'static str = "2147483648";

/// The form that asks for a whole comment tree.
pub open spec fn spec_comment_tree_form() -> Seq<(Seq<char>, Seq<char>)> {
    seq![("limit"@, TREE_LIMIT@), ("depth"@, TREE_LIMIT@)]
}

/// The body that asks for a whole comment tree, as deep and as many as the
/// server allows.
pub fn comment_tree_form() -> (r: String)
    ensures
        r@ == form_encoded(spec_comment_tree_form()),
{
    let mut v: Vec<(String, String)> = Vec::new();
    push_pair(&mut v, "limit", String::from_str(TREE_LIMIT));
    push_pair(&mut v, "depth", String::from_str(TREE_LIMIT));
    assert(pairs_view(v@) =~= spec_comment_tree_form());
    form_encode(&v)
}

/// The form of a private message.
pub open spec fn spec_message_form(to: Seq<char>, subject: Seq<char>, body: Seq<char>) -> Seq<(Seq<char>, Seq<char>)> {
    seq![("to"@, to), ("subject"@, subject), ("text"@, body)]
}

/// The body of a private message to `to`.
pub fn message_form(to: &str, subject: &str, body: &str) -> (r: String)
    ensures
        r@ == form_encoded(spec_message_form(to@, subject@, body@)),
{
    let mut v: Vec<(String, String)> = Vec::new();
    push_pair(&mut v, "to", String::from_str(to));
    push_pair(&mut v, "subject", String::from_str(subject));
    push_pair(&mut v, "text", String::from_str(body));
    assert(pairs_view(v@) =~= spec_message_form(to@, subject@, body@));
    form_encode(&v)
}

/// The form of a self post.
pub open spec fn spec_submit_self_form(sub: Seq<char>, title: Seq<char>, text: Seq<char>, sendreplies: bool) -> Seq<
    (Seq<char>, Seq<char>),
> {
    seq![
        ("sr"@, sub),
        ("kind"@, "self"@),
        ("title"@, title),
        ("text"@, text),
        ("sendreplies"@, bool_text(sendreplies)),
    ]
}

/// The body of a self post to the subreddit `sub`.
pub fn submit_self_form(sub: &str, title: &str, text: &str, sendreplies: bool) -> (r: String)
    ensures
        r@ == form_encoded(spec_submit_self_form(sub@, title@, text@, sendreplies)),
{
    let mut v: Vec<(String, String)> = Vec::new();
    push_pair(&mut v, "sr", String::from_str(sub));
    push_pair(&mut v, "kind", String::from_str("self"));
    push_pair(&mut v, "title", String::from_str(title));
    push_pair(&mut v, "text", String::from_str(text));
    push_pair(&mut v, "sendreplies", bool_string(sendreplies));
    assert(pairs_view(v@) =~= spec_submit_self_form(sub@, title@, text@, sendreplies));
    form_encode(&v)
}

/// The form that sets or clears the sticky state of a post, in slot `slot` if given.
pub open spec fn spec_sticky_form(sticky: bool, slot: Option<i32>, id: Seq<char>) -> Seq<(Seq<char>, Seq<char>)> {
    seq![("state"@, if sticky { "1"@ } else { "0"@ })] + match slot {
        Some(n) => seq![("num"@, signed_decimal(n as int))],
        None => seq![],
    } + seq![("id"@, id)]
}

/// Whether a sticky slot is one that exists (1 or 2), or none is given.
pub open spec fn spec_slot_valid(slot: Option<i32>) -> bool {
    match slot {
        Some(n) => n == 1 || n == 2,
        None => true,
    }
}

/// The body that sets (`sticky`) or clears the sticky state of the post `id`.
/// Only slots 1 and 2 exist: any other slot is refused.
pub fn sticky_form(sticky: bool, slot: Option<i32>, id: &str) -> (r: Result<String, ApiError>)
    ensures
        !spec_slot_valid(slot) ==> (r matches Err(ApiError::BadRequest { request, response })
            && request@ == "Sticky's are limited to slots 1 and 2"@ && response@ == "not sent"@),
        spec_slot_valid(slot) ==> (r matches Ok(s) && s@ == form_encoded(
            spec_sticky_form(sticky, slot, id@),
        )),
{
    let mut v: Vec<(String, String)> = Vec::new();
    push_pair(&mut v, "state", String::from_str(if sticky { "1" } else { "0" }));
    if let Some(n) = slot {
        if n != 1 && n != 2 {
            return Err(
                ApiError::BadRequest {
                    request: String::from_str("Sticky's are limited to slots 1 and 2"),
                    response: String::from_str("not sent"),
                },
            );
        }
        push_pair(&mut v, "num", i32_text(n));
    }
    push_pair(&mut v, "id", String::from_str(id));
    assert(pairs_view(v@) =~= spec_sticky_form(sticky, slot, id@));
    Ok(form_encode(&v))
}

/// Largest number of ids sent in one request for more children.
pub const CHILDREN_PER_REQUEST: usize = 5;

/// The texts of a sequence of strings.
pub open spec fn strs_view(s: Seq<String>) -> Seq<Seq<char>> {
    s.map_values(|x: String| x@)
}

/// The texts joined with commas between them.
pub open spec fn join_commas(s: Seq<Seq<char>>) -> Seq<char>
    decreases s.len(),
{
    if s.len() == 0 {
        Seq::empty()
    } else if s.len() == 1 {
        s[0]
    } else {
        join_commas(s.drop_last()) + ","@ + s.last()
    }
}

/// Number of requests that `n` ids take: at least one, even for no id.
pub open spec fn chunk_count(n: nat) -> nat {
    if n == 0 {
        1
    } else {
        ((n + 4) / 5) as nat
    }
}

/// The ids split into runs of five (the last one shorter), each joined by commas.
pub open spec fn spec_chunks(ids: Seq<Seq<char>>) -> Seq<Seq<char>> {
    Seq::new(
        chunk_count(ids.len()),
        |c: int|
            join_commas(
                ids.subrange(5 * c, if 5 * c + 5 <= ids.len() { 5 * c + 5 } else { ids.len() as int }),
            ),
    )
}

/// Splits the ids of comments to load into comma-joined runs of five, the
/// most that one request takes.
pub fn chunk_ids(ids: &Vec<String>) -> (r: Vec<String>)
    ensures
        strs_view(r@) == spec_chunks(strs_view(ids@)),
{
    let ghost v = strs_view(ids@);
    let n = ids.len();
    let mut chunks: Vec<String> = Vec::new();
    let mut buf = String::new();
    let mut in_buf: usize = 0;
    let mut i: usize = 0;
    while i < n
        invariant
            n == ids@.len(),
            v == strs_view(ids@),
            i <= n,
            in_buf <= CHILDREN_PER_REQUEST,
            i > 0 ==> in_buf >= 1,
            i == 0 ==> in_buf == 0,
            chunks@.len() * 5 + in_buf == i,
            buf@ == join_commas(v.subrange(i - in_buf, i as int)),
            forall|c: int|
                0 <= c < chunks@.len() ==> #[trigger] chunks@[c]@ == join_commas(v.subrange(5 * c, 5 * c + 5)),
        decreases n - i,
    {
        if in_buf == CHILDREN_PER_REQUEST {
            chunks.push(buf);
            buf = String::new();
            in_buf = 0;
            assert(v.subrange(i as int, i as int) =~= Seq::<Seq<char>>::empty());
        }
        let ghost before = buf@;
        if in_buf > 0 {
            buf.append(",");
        }
        buf.append(ids[i].as_str());
        proof {
            let lo = i - in_buf;
            let s = v.subrange(lo, i + 1);
            assert(s.drop_last() =~= v.subrange(lo, i as int));
            assert(s.last() == ids@[i as int]@);
            if in_buf == 0 {
                assert(s =~= seq![ids@[i as int]@]);
                assert(before =~= Seq::<char>::empty());
                assert(buf@ =~= ids@[i as int]@);
            }
        }
        in_buf = in_buf + 1;
        i = i + 1;
    }
    chunks.push(buf);
    proof {
        let sc = spec_chunks(v);
        if n == 0 {
            assert(v.subrange(0, 0) =~= Seq::<Seq<char>>::empty());
        }
        assert(chunks@.len() == chunk_count(n as nat));
        assert forall|c: int| 0 <= c < chunks@.len() implies strs_view(chunks@)[c] == sc[c] by {
            if c < chunks@.len() - 1 {
                assert(5 * c + 5 <= n);
            } else {
                assert(5 * c == n - in_buf);
            }
        }
        assert(strs_view(chunks@) =~= sc);
    }
    chunks
}

/// The form that asks for the children `chunk` of the "more" object
/// `morechildren_id` under the post `link_id`.
pub open spec fn spec_more_children_form(chunk: Seq<char>, link_id: Seq<char>, morechildren_id: Seq<char>) -> Seq<
    (Seq<char>, Seq<char>),
> {
    seq![("children"@, chunk), ("link_id"@, link_id), ("id"@, morechildren_id), ("api_type"@, "json"@)]
}

/// The fullname of a post given its id or its fullname: `t3_` is put in
/// front unless it is there already.
pub open spec fn spec_link_fullname(link_id: Seq<char>) -> Seq<char> {
    if link_id.len() >= 3 && link_id.subrange(0, 3) == "t3_"@ {
        link_id
    } else {
        "t3_"@ + link_id
    }
}

/// Fullname of a post from its id or fullname.
pub fn link_fullname(link_id: &str) -> (r: String)
    ensures
        r@ == spec_link_fullname(link_id@),
{
    proof {
        reveal_strlit("t3_");
    }
    let n = link_id.unicode_len();
    let prefixed = n >= 3 && link_id.get_char(0) == 't' && link_id.get_char(1) == '3' && link_id.get_char(2) == '_';
    if prefixed {
        assert(link_id@.subrange(0, 3) =~= "t3_"@);
        String::from_str(link_id)
    } else {
        proof {
            if n >= 3 && link_id@.subrange(0, 3) == "t3_"@ {
                assert(link_id@[0] == link_id@.subrange(0, 3)[0]);
                assert(link_id@[1] == link_id@.subrange(0, 3)[1]);
                assert(link_id@[2] == link_id@.subrange(0, 3)[2]);
            }
        }
        let mut s = String::from_str("t3_");
        s.append(link_id);
        s
    }
}

/// The request bodies that load the comments `comments` of the "more" object
/// `morechildren_id` under the post `link_id`: one per run of five ids.
pub fn more_children_forms(link_id: &str, morechildren_id: &str, comments: &Vec<String>) -> (r: Vec<String>)
    ensures
        r@.len() == spec_chunks(strs_view(comments@)).len(),
        forall|c: int|
            0 <= c < r@.len() ==> #[trigger] r@[c]@ == form_encoded(
                spec_more_children_form(
                    spec_chunks(strs_view(comments@))[c],
                    spec_link_fullname(link_id@),
                    morechildren_id@,
                ),
            ),
{
    let link = link_fullname(link_id);
    let chunks = chunk_ids(comments);
    let ghost sc = spec_chunks(strs_view(comments@));
    let mut out: Vec<String> = Vec::new();
    let mut i: usize = 0;
    while i < chunks.len()
        invariant
            strs_view(chunks@) == sc,
            i <= chunks@.len(),
            out@.len() == i,
            link@ == spec_link_fullname(link_id@),
            forall|c: int|
                0 <= c < i ==> #[trigger] out@[c]@ == form_encoded(
                    spec_more_children_form(sc[c], link@, morechildren_id@),
                ),
        decreases chunks@.len() - i,
    {
        let mut v: Vec<(String, String)> = Vec::new();
        push_pair(&mut v, "children", chunks[i].clone());
        push_pair(&mut v, "link_id", link.clone());
        push_pair(&mut v, "id", String::from_str(morechildren_id));
        push_pair(&mut v, "api_type", String::from_str("json"));
        assert(strs_view(chunks@)[i as int] == chunks@[i as int]@);
        assert(pairs_view(v@) =~= spec_more_children_form(sc[i as int], link@, morechildren_id@));
        out.push(form_encode(&v));
        i = i + 1;
    }
    out
}

/// A pair when the value is present, nothing otherwise.
pub open spec fn opt_pair(key: Seq<char>, value: Option<Seq<char>>) -> Seq<(Seq<char>, Seq<char>)> {
    match value {
        Some(v) => seq![(key, v)],
        None => seq![],
    }
}

/// The decimal text of a number, if present.
pub open spec fn num_text(v: Option<u32>) -> Option<Seq<char>> {
    match v {
        Some(n) => Some(decimal(n as nat)),
        None => None,
    }
}

/// The text of a string slice, if present.
pub open spec fn str_text(v: Option<&str>) -> Option<Seq<char>> {
    match v {
        Some(s) => Some(s@),
        None => None,
    }
}

/// The text of a flag, if present.
pub open spec fn flag_text(v: Option<bool>) -> Option<Seq<char>> {
    match v {
        Some(b) => Some(bool_text(b)),
        None => None,
    }
}

/// The text of a string, if present.
pub open spec fn string_text(v: Option<String>) -> Option<Seq<char>> {
    match v {
        Some(s) => Some(s@),
        None => None,
    }
}

/// Appends a pair when the value is present.
fn push_opt(out: &mut Vec<(String, String)>, key: &str, value: Option<String>)
    ensures
        pairs_view(final(out)@) == pairs_view(old(out)@) + opt_pair(key@, string_text(value)),
{
    match value {
        Some(v) => {
            push_pair(out, key, v);
            assert(pairs_view(out@) =~= pairs_view(old(out)@) + opt_pair(key@, string_text(Some(v))));
        },
        None => {
            assert(pairs_view(out@) =~= pairs_view(old(out)@) + opt_pair(key@, string_text(value)));
        },
    }
}

fn num_string(v: Option<u32>) -> (r: Option<String>)
    ensures
        string_text(r) == num_text(v),
{
    match v {
        Some(n) => Some(u32_text(n)),
        None => None,
    }
}

fn str_string(v: Option<&str>) -> (r: Option<String>)
    ensures
        string_text(r) == str_text(v),
{
    match v {
        Some(s) => Some(String::from_str(s)),
        None => None,
    }
}

fn flag_string(v: Option<bool>) -> (r: Option<String>)
    ensures
        string_text(r) == flag_text(v),
{
    match v {
        Some(b) => Some(bool_string(b)),
        None => None,
    }
}

/// Options of a listing of a user's items. Each option that is set becomes
/// one form pair.
#[derive(Clone, Copy, Default, Debug)]
pub struct UserListingOpts<'a> {
    /// Context to show, between 2 and 10.
    pub context: Option<u32>,
    /// What to show (`given`).
    pub show: Option<&'a str>,
    /// One of hot, new, top, controversial.
    pub sort: Option<&'a str>,
    /// One of hour, day, week, month, year, all.
    pub t: Option<&'a str>,
    /// One of links, comments.
    pub typ: Option<&'a str>,
    /// Fullname of a thing.
    pub after: Option<&'a str>,
    /// Fullname of a thing.
    pub before: Option<&'a str>,
    /// A positive integer (default: 0).
    pub count: Option<u32>,
    /// Whether to include categories.
    pub include_categories: Option<bool>,
    /// The maximum number of items desired (default: 25, maximum: 100).
    pub limit: Option<u32>,
}

impl<'a> UserListingOpts<'a> {
    /// The form pairs of the options that are set, in a fixed order.
    pub open spec fn spec_pairs(&self) -> Seq<(Seq<char>, Seq<char>)> {
        opt_pair("context"@, num_text(self.context))
            + opt_pair("show"@, str_text(self.show))
            + opt_pair("sort"@, str_text(self.sort))
            + opt_pair("t"@, str_text(self.t))
            + opt_pair("type"@, str_text(self.typ))
            + opt_pair("after"@, str_text(self.after))
            + opt_pair("before"@, str_text(self.before))
            + opt_pair("count"@, num_text(self.count))
            + opt_pair("include_categories"@, flag_text(self.include_categories))
            + opt_pair("limit"@, num_text(self.limit))
    }

    /// No option set.
    pub fn new() -> (r: UserListingOpts<'a>)
        ensures
            r.context is None,
            r.show is None,
            r.sort is None,
            r.t is None,
            r.typ is None,
            r.after is None,
            r.before is None,
            r.count is None,
            r.include_categories is None,
            r.limit is None,
    {
        UserListingOpts {
            context: None,
            show: None,
            sort: None,
            t: None,
            typ: None,
            after: None,
            before: None,
            count: None,
            include_categories: None,
            limit: None,
        }
    }

    /// Sets the option `context`.
    pub fn context(&mut self, context: u32) -> (r: &mut Self)
        ensures
            *r == (UserListingOpts { context: Some(context), ..*old(self) }),
            *final(self) == *final(r),
    {
        self.context = Some(context);
        self
    }

    /// Sets the option `show`.
    pub fn show(&mut self, show: &'a str) -> (r: &mut Self)
        ensures
            *r == (UserListingOpts { show: Some(show), ..*old(self) }),
            *final(self) == *final(r),
    {
        self.show = Some(show);
        self
    }

    /// Sets the option `sort`.
    pub fn sort(&mut self, sort: &'a str) -> (r: &mut Self)
        ensures
            *r == (UserListingOpts { sort: Some(sort), ..*old(self) }),
            *final(self) == *final(r),
    {
        self.sort = Some(sort);
        self
    }

    /// Sets the option `t`.
    pub fn t(&mut self, t: &'a str) -> (r: &mut Self)
        ensures
            *r == (UserListingOpts { t: Some(t), ..*old(self) }),
            *final(self) == *final(r),
    {
        self.t = Some(t);
        self
    }

    /// Sets the option `type`.
    pub fn typ(&mut self, typ: &'a str) -> (r: &mut Self)
        ensures
            *r == (UserListingOpts { typ: Some(typ), ..*old(self) }),
            *final(self) == *final(r),
    {
        self.typ = Some(typ);
        self
    }

    /// Sets the option `after`.
    pub fn after(&mut self, after: &'a str) -> (r: &mut Self)
        ensures
            *r == (UserListingOpts { after: Some(after), ..*old(self) }),
            *final(self) == *final(r),
    {
        self.after = Some(after);
        self
    }

    /// Sets the option `before`.
    pub fn before(&mut self, before: &'a str) -> (r: &mut Self)
        ensures
            *r == (UserListingOpts { before: Some(before), ..*old(self) }),
            *final(self) == *final(r),
    {
        self.before = Some(before);
        self
    }

    /// Sets the option `count`.
    pub fn count(&mut self, count: u32) -> (r: &mut Self)
        ensures
            *r == (UserListingOpts { count: Some(count), ..*old(self) }),
            *final(self) == *final(r),
    {
        self.count = Some(count);
        self
    }

    /// Sets the option `include_categories`.
    pub fn include_categories(&mut self, include_categories: bool) -> (r: &mut Self)
        ensures
            *r == (UserListingOpts { include_categories: Some(include_categories), ..*old(self) }),
            *final(self) == *final(r),
    {
        self.include_categories = Some(include_categories);
        self
    }

    /// Sets the option `limit`.
    pub fn limit(&mut self, limit: u32) -> (r: &mut Self)
        ensures
            *r == (UserListingOpts { limit: Some(limit), ..*old(self) }),
            *final(self) == *final(r),
    {
        self.limit = Some(limit);
        self
    }

    /// The form body of the options that are set.
    pub fn to_form(&self) -> (r: String)
        ensures
            r@ == form_encoded(self.spec_pairs()),
    {
        let mut v: Vec<(String, String)> = Vec::new();
        push_opt(&mut v, "context", num_string(self.context));
        push_opt(&mut v, "show", str_string(self.show));
        push_opt(&mut v, "sort", str_string(self.sort));
        push_opt(&mut v, "t", str_string(self.t));
        push_opt(&mut v, "type", str_string(self.typ));
        push_opt(&mut v, "after", str_string(self.after));
        push_opt(&mut v, "before", str_string(self.before));
        push_opt(&mut v, "count", num_string(self.count));
        push_opt(&mut v, "include_categories", flag_string(self.include_categories));
        push_opt(&mut v, "limit", num_string(self.limit));
        assert(pairs_view(v@) =~= self.spec_pairs());
        form_encode(&v)
    }
}

/// The URL `url` with the pairs as its query, or an error when `url` is not
/// an absolute URL.
pub fn uri_params_from_map(url: &str, params: &Vec<(String, String)>) -> (r: Result<String, ApiError>)
    ensures
        match url_with_query(url@, pairs_view(params@)) {
            Some(u) => r matches Ok(s) && s@ == u,
            None => r matches Err(ApiError::InvalidUrl { url: e }) && e@ == url@,
        },
{
    match parse_with_params(url, params) {
        Some(u) => Ok(u),
        None => Err(ApiError::InvalidUrl { url: String::from_str(url) }),
    }
}

/// `https://www.reddit.com/r/<sub><suffix>`.
pub open spec fn spec_sub_url(sub: Seq<char>, suffix: Seq<char>) -> Seq<char> {
    "https://www.reddit.com/r/"@ + sub + suffix
}

fn sub_url(sub: &str, suffix: &str) -> (r: String)
    ensures
        r@ == spec_sub_url(sub@, suffix@),
{
    let mut s = String::from_str("https://www.reddit.com/r/");
    s.append(sub);
    s.append(suffix);
    s
}

/// The query of a fetch of recent comments: at most `limit` of them, after
/// the comment `before`.
pub open spec fn spec_recent_query(limit: Option<i32>, before: Option<&str>) -> Seq<(Seq<char>, Seq<char>)> {
    opt_pair(
        "limit"@,
        match limit {
            Some(n) => Some(signed_decimal(n as int)),
            None => None,
        },
    ) + opt_pair("before"@, str_text(before))
}

/// The URL of the most recent comments of the subreddit `sub`, at most
/// `limit` of them, and only those after the comment named `before`.
pub fn recent_comments_url(sub: &str, limit: Option<i32>, before: Option<&str>) -> (r: Result<String, ApiError>)
    ensures
        match url_with_query(spec_sub_url(sub@, "/comments.json"@), spec_recent_query(limit, before)) {
            Some(u) => r matches Ok(s) && s@ == u,
            None => r is Err,
        },
{
    let base = sub_url(sub, "/comments.json");
    let mut v: Vec<(String, String)> = Vec::new();
    let l = match limit {
        Some(n) => Some(i32_text(n)),
        None => None,
    };
    push_opt(&mut v, "limit", l);
    push_opt(&mut v, "before", str_string(before));
    assert(pairs_view(v@) =~= spec_recent_query(limit, before));
    uri_params_from_map(base.as_str(), &v)
}

/// The URL of the posts of the subreddit `sub` in the order `sort`.
pub fn posts_url(sub: &str, sort: Sort) -> (r: Result<String, ApiError>)
    ensures
        match url_with_query(spec_sub_url(sub@, "/.json"@), sort.spec_params()) {
            Some(u) => r matches Ok(s) && s@ == u,
            None => r is Err,
        },
{
    let base = sub_url(sub, "/.json");
    let params = sort.param();
    let mut v: Vec<(String, String)> = Vec::new();
    let mut i: usize = 0;
    while i < params.len()
        invariant
            i <= params@.len(),
            pairs_view(v@) == str_pairs_view(params@).subrange(0, i as int),
            str_pairs_view(params@) == sort.spec_params(),
        decreases params@.len() - i,
    {
        let (k, x) = params[i];
        push_pair(&mut v, k, String::from_str(x));
        assert(str_pairs_view(params@).subrange(0, i + 1) =~= str_pairs_view(params@).subrange(0, i as int).push(
            (k@, x@),
        ));
        i = i + 1;
    }
    assert(str_pairs_view(params@).subrange(0, i as int) =~= str_pairs_view(params@));
    uri_params_from_map(base.as_str(), &v)
}

} // verus!
