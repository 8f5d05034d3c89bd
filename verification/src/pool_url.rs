//! The address of the pool.

use vstd::prelude::*;
use vstd::string::*;
use vstd::utf8::{encode_utf8, is_ascii_chars, is_ascii_chars_encode_utf8};

use crate::text::{decimal, decimal_text, optional_text, same_text};

verus! {

/// `url::Url`, a parsed URL.
#[verifier::external_type_specification]
#[verifier::external_body]
pub struct ExUrl(url::Url);

/// `url::ParseError`, the reason why a text is no URL.
#[verifier::external_type_specification]
#[verifier::external_body]
pub struct ExUrlParseError(url::ParseError);

/// The parts of a URL: what comes before its query, the query's decoded name-value pairs, and
/// the fragment behind the query.
#[verifier::ext_equal]
pub struct UrlParts {
    pub stem: Seq<char>,
    pub pairs: Seq<(Seq<char>, Seq<char>)>,
    pub fragment: Option<Seq<char>>,
}

/// What a `url::Url` holds.
pub uninterp spec fn url_parts(url: url::Url) -> UrlParts;

/// What `Url::parse` reads from a text, if the text is an absolute URL.
pub uninterp spec fn parsed_url(text: Seq<char>) -> Option<UrlParts>;

/// `Url::parse`: the same text always gives the same URL, or always none.
#[verifier::external_body]
fn parse_url(text: &str) -> (r: Result<url::Url, url::ParseError>)
    ensures
        match r {
            Ok(url) => parsed_url(text@) == Some(url_parts(url)),
            Err(_) => parsed_url(text@) is None,
        },
{
    url::Url::parse(text)
}

/// The text of a `Url` up to `Position::AfterPath`: all that comes before its query.
#[verifier::external_body]
fn url_stem(url: &url::Url) -> (stem: String)
    ensures
        stem@ == url_parts(*url).stem,
{
    url[..url::Position::AfterPath].to_string()
}

/// `Url::query_pairs`: the query's pairs, decoded, in their order.
#[verifier::external_body]
fn url_pairs(url: &url::Url) -> (pairs: Vec<(String, String)>)
    ensures
        pair_views(pairs@) == url_parts(*url).pairs,
{
    url.query_pairs().into_owned().collect()
}

/// `Url::fragment`: the text behind the URL's `#`, if it has one.
#[verifier::external_body]
fn url_fragment(url: &url::Url) -> (fragment: Option<String>)
    ensures
        optional_text(fragment) == url_parts(*url).fragment,
{
    url.fragment().map(|fragment| fragment.to_string())
}

/// `form_urlencoded::Serializer::append_pair` on a query: the encoded pair goes behind the query,
/// and an `&` between them unless the query is empty.
#[verifier::external_body]
fn append_pair(query: &mut String, name: &str, value: &str)
    ensures
        final(query)@ == with_pair(old(query)@, name@, value@),
{
    url::form_urlencoded::Serializer::new(query).append_pair(name, value);
}

/// The texts of name-value pairs.
pub open spec fn pair_views(pairs: Seq<(String, String)>) -> Seq<(Seq<char>, Seq<char>)> {
    pairs.map_values(|pair: (String, String)| (pair.0@, pair.1@))
}

/// Whether a byte of a form stands for itself.
pub open spec fn is_plain_byte(b: u8) -> bool {
    let c = b as char;
    '0' <= c <= '9' || 'A' <= c <= 'Z' || 'a' <= c <= 'z' || c == '*' || c == '-' || c == '.' || c
        == '_'
}

/// An upper-case hexadecimal digit.
pub open spec fn upper_hex(d: nat) -> char {
    if d < 10 {
        (48 + d) as char
    } else {
        (55 + d) as char
    }
}

/// A byte in the `application/x-www-form-urlencoded` syntax.
pub open spec fn form_byte(b: u8) -> Seq<char> {
    if is_plain_byte(b) {
        seq![b as char]
    } else if b == 0x20 {
        seq!['+']
    } else {
        seq!['%', upper_hex(b as nat / 16), upper_hex(b as nat % 16)]
    }
}

/// Bytes in the `application/x-www-form-urlencoded` syntax.
pub open spec fn form_bytes(bytes: Seq<u8>) -> Seq<char>
    decreases bytes.len(),
{
    if bytes.len() == 0 {
        seq![]
    } else {
        form_bytes(bytes.drop_last()) + form_byte(bytes.last())
    }
}

/// A text in the `application/x-www-form-urlencoded` syntax.
pub open spec fn form_text(text: Seq<char>) -> Seq<char> {
    form_bytes(encode_utf8(text))
}

/// A query with one more pair.
pub open spec fn with_pair(query: Seq<char>, name: Seq<char>, value: Seq<char>) -> Seq<char> {
    let separator = if query.len() == 0 {
        seq![]
    } else {
        seq!['&']
    };
    query + separator + form_text(name) + seq!['='] + form_text(value)
}

/// The query of the given pairs.
pub open spec fn query_text(pairs: Seq<(Seq<char>, Seq<char>)>) -> Seq<char>
    decreases pairs.len(),
{
    if pairs.len() == 0 {
        seq![]
    } else {
        with_pair(query_text(pairs.drop_last()), pairs.last().0, pairs.last().1)
    }
}

/// A fragment as it stands at the end of a URL.
pub open spec fn fragment_text(fragment: Option<Seq<char>>) -> Seq<char> {
    match fragment {
        Some(text) => seq!['#'] + text,
        None => seq![],
    }
}

/// The text of a URL whose query is made of the given pairs.
pub open spec fn url_text(parts: UrlParts) -> Seq<char> {
    parts.stem + seq!['?'] + query_text(parts.pairs) + fragment_text(parts.fragment)
}

/// What is shown in place of a token: its length in bytes.
pub open spec fn redacted(token: Seq<char>) -> Seq<char> {
    "<"@ + decimal(encode_utf8(token).len()) + "-char-redacted>"@
}

/// A name-value pair as it is shown: encoded, but for the value of a token, which is hidden.
pub open spec fn shown_pair(pair: (Seq<char>, Seq<char>)) -> Seq<char> {
    form_text(pair.0) + seq!['='] + (if pair.0 == "token"@ {
        redacted(pair.1)
    } else {
        form_text(pair.1)
    })
}

/// A query as it is shown: its pairs, joined by `&`.
pub open spec fn shown_query(pairs: Seq<(Seq<char>, Seq<char>)>) -> Seq<char>
    decreases pairs.len(),
{
    if pairs.len() == 0 {
        seq![]
    } else if pairs.len() == 1 {
        shown_pair(pairs[0])
    } else {
        shown_query(pairs.drop_last()) + seq!['&'] + shown_pair(pairs.last())
    }
}

/// The text of a URL as it is shown.
pub open spec fn shown_text(parts: UrlParts) -> Seq<char> {
    parts.stem + seq!['?'] + shown_query(parts.pairs) + fragment_text(parts.fragment)
}

/// Words what is shown in place of a token.
pub fn redact(token: &str) -> (text: String)
    ensures
        text@ == redacted(token@),
{
    let mut text = "<".to_owned();
    text.append(decimal_text(token.as_bytes().len() as u128).as_str());
    text.append("-char-redacted>");
    text
}

/// The address of a pool, in its parts.
///
/// A `url::Url` finds its parts by 32-bit offsets into its text, and panics where an edit would
/// outgrow them; the parts by themselves have no such limit.
pub struct PoolUrl {
    pub stem: String,
    pub pairs: Vec<(String, String)>,
    pub fragment: Option<String>,
}

/// A text is no absolute URL.
#[derive(Debug)]
pub struct NotAUrl;

impl View for PoolUrl {
    type V = UrlParts;

    open spec fn view(&self) -> UrlParts {
        UrlParts {
            stem: self.stem@,
            pairs: pair_views(self.pairs@),
            fragment: optional_text(self.fragment),
        }
    }
}

impl NotAUrl {
    /// Words the error for the log.
    pub fn message(&self, pool_ws: &str) -> (text: String)
        ensures
            text@ == "parsing pool ws URL: "@ + pool_ws@,
    {
        let mut text = "parsing pool ws URL: ".to_owned();
        text.append(pool_ws);
        text
    }
}

/// The parts of the URL with which a session is opened: the pool's, with the token as the whole
/// query.
pub open spec fn session_parts(pool: UrlParts, token: Seq<char>) -> UrlParts {
    UrlParts { pairs: seq![("token"@, token)], ..pool }
}

impl PoolUrl {
    /// Takes a URL apart.
    pub fn of(url: &url::Url) -> (parts: PoolUrl)
        ensures
            parts@ == url_parts(*url),
    {
        PoolUrl { stem: url_stem(url), pairs: url_pairs(url), fragment: url_fragment(url) }
    }

    /// The URL with which a session is opened.
    pub fn for_session(pool_ws: &str, token: &str) -> (r: Result<PoolUrl, NotAUrl>)
        ensures
            match r {
                Ok(url) => parsed_url(pool_ws@) matches Some(pool) && url@ == session_parts(
                    pool,
                    token@,
                ),
                Err(_) => parsed_url(pool_ws@) is None,
            },
    {
        match parse_url(pool_ws) {
            Ok(url) => Ok(PoolUrl::of(&url).with_token(token)),
            Err(_) => Err(NotAUrl),
        }
    }

    /// The same URL with the given token as its whole query.
    pub fn with_token(self, token: &str) -> (url: PoolUrl)
        ensures
            url@ == session_parts(self@, token@),
    {
        let mut pairs: Vec<(String, String)> = Vec::new();
        pairs.push(("token".to_owned(), token.to_owned()));
        PoolUrl { stem: self.stem, pairs, fragment: self.fragment }
    }

    /// Writes the URL out.
    pub fn text(&self) -> (text: String)
        ensures
            text@ == url_text(self@),
    {
        let mut query = String::new();
        for i in 0..self.pairs.len()
            invariant
                query@ == query_text(self@.pairs.take(i as int)),
        {
            append_pair(&mut query, self.pairs[i].0.as_str(), self.pairs[i].1.as_str());
            proof {
                let pairs = self@.pairs;
                assert(pairs.take(i + 1).drop_last() == pairs.take(i as int));
            }
        }
        proof {
            assert(self@.pairs.take(self.pairs@.len() as int) == self@.pairs);
        }
        self.around(query.as_str())
    }

    /// Writes the URL out as it may be shown: with the length of each token in its query in place
    /// of the token.
    pub fn shown(&self) -> (text: String)
        ensures
            text@ == shown_text(self@),
    {
        let mut query = String::new();
        for i in 0..self.pairs.len()
            invariant
                query@ == shown_query(self@.pairs.take(i as int)),
        {
            let name = self.pairs[i].0.as_str();
            let value = self.pairs[i].1.as_str();
            if same_text(name, "token") {
                append_pair(&mut query, name, String::new().as_str());
                query.append(redact(value).as_str());
            } else {
                append_pair(&mut query, name, value);
            }
            proof {
                let pairs = self@.pairs;
                assert(pairs.take(i + 1).drop_last() == pairs.take(i as int));
                assert(encode_utf8(Seq::<char>::empty()) == Seq::<u8>::empty());
                assert(query@ == shown_query(pairs.take(i + 1)));
            }
        }
        proof {
            assert(self@.pairs.take(self.pairs@.len() as int) == self@.pairs);
        }
        self.around(query.as_str())
    }

    /// Puts a query between what comes before it and what comes behind it.
    fn around(&self, query: &str) -> (text: String)
        ensures
            text@ == self@.stem + seq!['?'] + query@ + fragment_text(self@.fragment),
    {
        let mut text = self.stem.clone();
        text.push('?');
        text.append(query);
        match &self.fragment {
            Some(fragment) => {
                text.push('#');
                text.append(fragment.as_str());
            },
            None => {},
        }
        text
    }
}

/// A URL as it may be shown: with the length of each token in its query in place of the token.
pub fn redact_token(url: &url::Url) -> (text: String)
    ensures
        text@ == shown_text(url_parts(*url)),
{
    PoolUrl::of(url).shown()
}

/// Whether two lists of pairs differ in their tokens alone, and not in the tokens' lengths.
pub open spec fn alike_but_for_tokens(
    a: Seq<(Seq<char>, Seq<char>)>,
    b: Seq<(Seq<char>, Seq<char>)>,
) -> bool {
    &&& a.len() == b.len()
    &&& forall|i: int|
        #![trigger a[i]]
        0 <= i < a.len() ==> a[i].0 == b[i].0 && (if a[i].0 == "token"@ {
            encode_utf8(a[i].1).len() == encode_utf8(b[i].1).len()
        } else {
            a[i].1 == b[i].1
        })
}

proof fn lemma_shown_alike(a: Seq<(Seq<char>, Seq<char>)>, b: Seq<(Seq<char>, Seq<char>)>)
    requires
        alike_but_for_tokens(a, b),
    ensures
        shown_query(a) == shown_query(b),
    decreases a.len(),
{
    if a.len() > 0 {
        assert(a.last() == a[a.len() - 1]);
        assert(shown_pair(a.last()) == shown_pair(b.last()));
        assert forall|i: int| #![trigger a.drop_last()[i]] 0 <= i < a.len() - 1 implies
            a.drop_last()[i] == a[i] by {}
        lemma_shown_alike(a.drop_last(), b.drop_last());
    }
}

/// What is shown of a URL tells nothing of its tokens but how long they are: URLs that differ in
/// their tokens alone, and not in the tokens' lengths, are shown alike.
pub proof fn law_token_is_hidden(a: UrlParts, b: UrlParts)
    requires
        a.stem == b.stem,
        a.fragment == b.fragment,
        alike_but_for_tokens(a.pairs, b.pairs),
    ensures
        shown_text(a) == shown_text(b),
{
    lemma_shown_alike(a.pairs, b.pairs);
}

/// The pairs of a query are shown one by one, in their order.
pub proof fn law_pairs_are_shown_in_turn(
    a: Seq<(Seq<char>, Seq<char>)>,
    b: Seq<(Seq<char>, Seq<char>)>,
)
    requires
        a.len() > 0,
        b.len() > 0,
    ensures
        shown_query(a + b) == shown_query(a) + seq!['&'] + shown_query(b),
    decreases b.len(),
{
    assert((a + b).drop_last() == a + b.drop_last());
    assert((a + b).last() == b.last());
    if b.len() == 1 {
        assert(a + b.drop_last() == a);
    } else {
        law_pairs_are_shown_in_turn(a, b.drop_last());
    }
}

proof fn lemma_shown_as_written(pairs: Seq<(Seq<char>, Seq<char>)>)
    requires
        forall|i: int| 0 <= i < pairs.len() ==> (#[trigger] pairs[i]).0 != "token"@,
    ensures
        shown_query(pairs) == query_text(pairs),
        pairs.len() > 0 ==> query_text(pairs).len() > 0,
    decreases pairs.len(),
{
    if pairs.len() > 0 {
        assert(pairs.last() == pairs[pairs.len() - 1]);
        lemma_shown_as_written(pairs.drop_last());
        assert(shown_query(pairs) == query_text(pairs));
    }
}

/// A URL without tokens is shown as it is written.
pub proof fn law_rest_of_url_is_shown(parts: UrlParts)
    requires
        forall|i: int| 0 <= i < parts.pairs.len() ==> (#[trigger] parts.pairs[i]).0 != "token"@,
    ensures
        shown_text(parts) == url_text(parts),
{
    lemma_shown_as_written(parts.pairs);
}

/// Characters that stand for themselves are not encoded.
proof fn lemma_form_plain(s: Seq<char>)
    requires
        is_ascii_chars(s),
        forall|i: int| 0 <= i < s.len() ==> is_plain_byte(#[trigger] s[i] as u8),
    ensures
        form_text(s) == s,
    decreases s.len(),
{
    is_ascii_chars_encode_utf8(s);
    if s.len() > 0 {
        lemma_form_plain(s.drop_last());
        is_ascii_chars_encode_utf8(s.drop_last());
        assert(encode_utf8(s).drop_last() == encode_utf8(s.drop_last()));
        assert(encode_utf8(s).last() == s.last() as u8);
        assert(form_byte(s.last() as u8) == seq![s.last()]);
    }
}

/// The URL of a session carries the token, and is shown with the token's length in its place.
pub proof fn law_session_url(pool: UrlParts, token: Seq<char>)
    ensures
        url_text(session_parts(pool, token)) == pool.stem + "?token="@ + form_text(token)
            + fragment_text(pool.fragment),
        shown_text(session_parts(pool, token)) == pool.stem + "?token=<"@ + decimal(
            encode_utf8(token).len(),
        ) + "-char-redacted>"@ + fragment_text(pool.fragment),
{
    let pairs = session_parts(pool, token).pairs;
    reveal_strlit("token");
    reveal_strlit("?token=");
    reveal_strlit("?token=<");
    reveal_strlit("<");
    lemma_form_plain("token"@);
    assert(pairs.drop_last() == Seq::<(Seq<char>, Seq<char>)>::empty());
    assert(query_text(pairs.drop_last()) == Seq::<char>::empty());
    assert("?token="@ == seq!['?'] + "token"@ + seq!['=']);
    assert("?token=<"@ == "?token="@ + "<"@);
    assert(query_text(pairs) == "token"@ + seq!['='] + form_text(token));
    assert(shown_query(pairs) == "token"@ + seq!['='] + redacted(token));
}

/// In a form, letters, decimal digits and `*-._` stand for themselves, a space is a plus sign, and
/// any other byte is a percent sign and its two hexadecimal digits.
pub proof fn law_bytes_of_a_form(b: u8)
    ensures
        ({
            let c = b as char;
            let plain = 'a' <= c <= 'z' || 'A' <= c <= 'Z' || '0' <= c <= '9' || c == '*' || c
                == '-' || c == '.' || c == '_';
            &&& plain ==> form_bytes(seq![b]) == seq![c]
            &&& c == ' ' ==> form_bytes(seq![b]) == seq!['+']
            &&& !plain && c != ' ' ==> form_bytes(seq![b]) == seq![
                '%',
                "0123456789ABCDEF"@[b as int / 16],
                "0123456789ABCDEF"@[b as int % 16],
            ]
        }),
{
    reveal_strlit("0123456789ABCDEF");
    assert(seq![b].drop_last() == Seq::<u8>::empty());
    assert(form_bytes(Seq::<u8>::empty()) == Seq::<char>::empty());
    assert(form_bytes(seq![b]) == form_byte(b));
}

/// A form is written byte by byte, and a text in it by the bytes of its UTF-8.
pub proof fn law_forms_are_written_in_turn(a: Seq<u8>, b: Seq<u8>, text: Seq<char>)
    ensures
        form_bytes(a + b) == form_bytes(a) + form_bytes(b),
        form_bytes(Seq::empty()) == Seq::<char>::empty(),
        form_text(text) == form_bytes(encode_utf8(text)),
    decreases b.len(),
{
    if b.len() == 0 {
        assert(a + b == a);
    } else {
        law_forms_are_written_in_turn(a, b.drop_last(), text);
        assert((a + b).drop_last() == a + b.drop_last());
    }
}

/// A pair in a query is its encoded name, an equals sign and its encoded value; an `&` stands before
/// it unless it is the first.
pub proof fn law_pair_is_appended(query: Seq<char>, name: Seq<char>, value: Seq<char>)
    ensures
        query.len() == 0 ==> with_pair(query, name, value) == form_text(name) + seq!['=']
            + form_text(value),
        query.len() > 0 ==> with_pair(query, name, value) == query + seq!['&'] + form_text(name)
            + seq!['='] + form_text(value),
{
    if query.len() == 0 {
        assert(with_pair(query, name, value) == form_text(name) + seq!['='] + form_text(value));
    }
}

proof fn lemma_query_is_not_empty(pairs: Seq<(Seq<char>, Seq<char>)>)
    requires
        pairs.len() > 0,
    ensures
        query_text(pairs).len() > 0,
{
}

/// The pairs of a query are written one by one, in their order.
pub proof fn law_pairs_are_written_in_turn(
    a: Seq<(Seq<char>, Seq<char>)>,
    b: Seq<(Seq<char>, Seq<char>)>,
    pair: (Seq<char>, Seq<char>),
)
    ensures
        a.len() > 0 && b.len() > 0 ==> query_text(a + b) == query_text(a) + seq!['&'] + query_text(
            b,
        ),
        query_text(seq![pair]) == form_text(pair.0) + seq!['='] + form_text(pair.1),
        query_text(Seq::empty()) == Seq::<char>::empty(),
    decreases b.len(),
{
    assert(seq![pair].drop_last() == Seq::<(Seq<char>, Seq<char>)>::empty());
    assert(query_text(seq![pair].drop_last()) == Seq::<char>::empty());
    law_pair_is_appended(Seq::empty(), pair.0, pair.1);
    if a.len() > 0 && b.len() > 0 {
        let before = b.drop_last();
        assert((a + b).drop_last() == a + before);
        lemma_query_is_not_empty(a);
        if b.len() == 1 {
            assert(a + before == a);
            assert(query_text(before) == Seq::<char>::empty());
            assert(query_text(b) == form_text(b.last().0) + seq!['='] + form_text(b.last().1));
        } else {
            law_pairs_are_written_in_turn(a, before, pair);
            lemma_query_is_not_empty(before);
            lemma_query_is_not_empty(a + before);
        }
        assert(query_text(a + b) == query_text(a) + seq!['&'] + query_text(b));
    }
}

/// A pair is shown encoded; a pair named `token` is shown with the number of bytes of its value in
/// the value's place.
pub proof fn law_pair_is_shown(name: Seq<char>, value: Seq<char>)
    ensures
        name != "token"@ ==> shown_query(seq![(name, value)]) == form_text(name) + seq!['=']
            + form_text(value),
        shown_query(seq![("token"@, value)]) == "token=<"@ + decimal(encode_utf8(value).len())
            + "-char-redacted>"@,
        shown_query(Seq::empty()) == Seq::<char>::empty(),
{
    reveal_strlit("token");
    reveal_strlit("<");
    reveal_strlit("token=<");
    lemma_form_plain("token"@);
    assert("token=<"@ == "token"@ + seq!['='] + "<"@);
    assert(shown_query(seq![("token"@, value)]) == "token"@ + seq!['='] + ("<"@ + decimal(
        encode_utf8(value).len(),
    ) + "-char-redacted>"@));
}

/// A URL is written, and shown, with a question mark and its query behind what comes before them,
/// and with its fragment, where it has one, behind a number sign at the end.
pub proof fn law_urls_are_put_together(
    stem: Seq<char>,
    pairs: Seq<(Seq<char>, Seq<char>)>,
    fragment: Seq<char>,
)
    ensures
        ({
            let with = UrlParts { stem, pairs, fragment: Some(fragment) };
            let without = UrlParts { stem, pairs, fragment: None };
            &&& url_text(without) == stem + seq!['?'] + query_text(pairs)
            &&& url_text(with) == stem + seq!['?'] + query_text(pairs) + seq!['#'] + fragment
            &&& shown_text(without) == stem + seq!['?'] + shown_query(pairs)
            &&& shown_text(with) == stem + seq!['?'] + shown_query(pairs) + seq!['#'] + fragment
        }),
{
    let with = UrlParts { stem, pairs, fragment: Some(fragment) };
    let without = UrlParts { stem, pairs, fragment: None };
    assert(url_text(without) == stem + seq!['?'] + query_text(pairs));
    assert(url_text(with) == stem + seq!['?'] + query_text(pairs) + seq!['#'] + fragment);
    assert(shown_text(without) == stem + seq!['?'] + shown_query(pairs));
    assert(shown_text(with) == stem + seq!['?'] + shown_query(pairs) + seq!['#'] + fragment);
}

/// A session is opened at the pool's address, with the token, whole and alone, for a query.
pub proof fn law_session_parts(pool: UrlParts, token: Seq<char>)
    ensures
        ({
            let parts = session_parts(pool, token);
            &&& parts.stem == pool.stem
            &&& parts.fragment == pool.fragment
            &&& parts.pairs.len() == 1
            &&& parts.pairs[0].0 == "token"@
            &&& parts.pairs[0].1 == token
        }),
{
}

/// An address is the texts of its parts.
pub proof fn law_addresses_are_their_parts(url: PoolUrl)
    ensures
        url@.stem == url.stem@,
        url@.pairs.len() == url.pairs@.len(),
        forall|i: int|
            0 <= i < url.pairs@.len() ==> #[trigger] url@.pairs[i] == (
                url.pairs@[i].0@,
                url.pairs@[i].1@,
            ),
        url@.fragment is Some <==> url.fragment is Some,
        url.fragment matches Some(fragment) ==> url@.fragment == Some(fragment@),
{
}

} // verus!
