//! The credential guard: turns the value of an `Authorization` header into
//! a username and a password, or rejects it.
use vstd::prelude::*;
use vstd::string::*;
use vstd::utf8::*;

verus! {

/// Credentials taken from a `Basic` authorization header.
pub struct BasicAuth {
    pub username: String,
    pub password: String,
}

impl View for BasicAuth {
    type V = (Seq<char>, Seq<char>);

    open spec fn view(&self) -> (Seq<char>, Seq<char>) {
        (self.username@, self.password@)
    }
}

/// The characters with the Unicode `White_Space` property.
pub open spec fn is_white_space(c: char) -> bool {
    let u = c as u32;
    (0x09 <= u && u <= 0x0d) || u == 0x20 || u == 0x85 || u == 0xa0 || u == 0x1680 || (0x2000
        <= u && u <= 0x200a) || u == 0x2028 || u == 0x2029 || u == 0x202f || u == 0x205f || u
        == 0x3000
}

/// The maximal runs of non-white-space characters of `s`, left to right.
pub open spec fn words(s: Seq<char>) -> Seq<Seq<char>>
    decreases s.len(),
{
    if s.len() == 0 {
        seq![]
    } else {
        let prev = words(s.drop_last());
        let c = s.last();
        if is_white_space(c) {
            prev
        } else if s.len() >= 2 && !is_white_space(s[s.len() - 2]) {
            prev.update(prev.len() - 1, prev.last().push(c))
        } else {
            prev.push(seq![c])
        }
    }
}

/// The name of the only accepted authorization scheme.
pub open spec fn basic_scheme() -> Seq<char> {
    seq!['B', 'a', 's', 'i', 'c']
}

/// Splits `s` around its only `:`; there is no split unless `s` holds
/// exactly one `:`.
pub open spec fn credential_parts(s: Seq<char>) -> Option<(Seq<char>, Seq<char>)> {
    if exists|i: int|
        0 <= i < s.len() && s[i] == ':' && forall|j: int|
            0 <= j < s.len() && s[j] == ':' ==> j == i {
        let i = choose|i: int|
            0 <= i < s.len() && s[i] == ':' && forall|j: int|
                0 <= j < s.len() && s[j] == ':' ==> j == i;
        Some((s.take(i), s.skip(i + 1)))
    } else {
        None
    }
}

/// What standard base64 decoding (with padding) makes of `text`, `None`
/// where `text` is no valid encoding.
pub uninterp spec fn base64_decoded(text: Seq<char>) -> Option<Seq<u8>>;

/// The credentials that a header value carries, if it is well formed:
/// two words, the scheme `Basic` and the base64 encoding of UTF-8 text
/// `username:password` with exactly one `:`.
pub open spec fn guard(header: Seq<char>) -> Option<(Seq<char>, Seq<char>)> {
    let w = words(header);
    if w.len() == 2 && w[0] == basic_scheme() {
        match base64_decoded(w[1]) {
            Some(bytes) => if valid_utf8(bytes) {
                credential_parts(decode_utf8(bytes))
            } else {
                None
            },
            None => None,
        }
    } else {
        None
    }
}

/// Relies on `char::is_whitespace`: true exactly for the characters with
/// the Unicode `White_Space` property.
#[verifier::external_body]
fn char_is_white_space(c: char) -> (r: bool)
    ensures
        r == is_white_space(c),
{
    c.is_whitespace()
}

/// Relies on `base64::decode` (standard alphabet): the bytes that `text`
/// encodes, or an error where it is no valid encoding.
#[verifier::external_body]
fn decode_base64(text: &str) -> (r: Option<Vec<u8>>)
    ensures
        match r {
            Some(v) => base64_decoded(text@) == Some(v@),
            None => base64_decoded(text@) is None,
        },
{
    base64::decode(text).ok()
}

/// Relies on `String::from_utf8`: the text that `bytes` encode, or an
/// error where they are not valid UTF-8.
#[verifier::external_body]
fn decode_utf8_text(bytes: Vec<u8>) -> (r: Option<String>)
    ensures
        match r {
            Some(s) => valid_utf8(bytes@) && s@ == decode_utf8(bytes@),
            None => !valid_utf8(bytes@),
        },
{
    String::from_utf8(bytes).ok()
}

/// The character positions `[start, end)` of the words of `s`, in order.
pub fn word_spans(s: &str) -> (r: Vec<(usize, usize)>)
    ensures
        r@.len() == words(s@).len(),
        forall|k: int|
            0 <= k < r@.len() ==> (#[trigger] r@[k]).0 <= r@[k].1 <= s@.len() && s@.subrange(
                r@[k].0 as int,
                r@[k].1 as int,
            ) == words(s@)[k],
{
    let n = s.unicode_len();
    let mut spans: Vec<(usize, usize)> = Vec::new();
    let mut i: usize = 0;
    while i < n
        invariant
            n == s@.len(),
            i <= n,
            spans@.len() == words(s@.take(i as int)).len(),
            forall|k: int| 0 <= k < spans@.len() ==> (#[trigger] spans@[k]).0 <= spans@[k].1 <= i,
            forall|k: int|
                0 <= k < spans@.len() ==> s@.subrange(
                    (#[trigger] spans@[k]).0 as int,
                    spans@[k].1 as int,
                ) == words(s@.take(i as int))[k],
            i > 0 && !is_white_space(s@[i - 1]) ==> spans@.len() > 0 && spans@.last().1 == i,
        decreases n - i,
    {
        let c = s.get_char(i);
        let ghost before = s@.take(i as int);
        let ghost after = s@.take(i + 1);
        let ghost old_spans = spans@;
        assert(after.drop_last() =~= before);
        assert(after.last() == c);
        if char_is_white_space(c) {
            assert(words(after) == words(before));
        } else if i > 0 && !char_is_white_space(s.get_char(i - 1)) {
            let last = spans.len() - 1;
            let (start, _) = spans[last];
            assert(old_spans[last as int].0 <= i);
            assert(after[i - 1] == s@[i - 1]);
            assert(words(after) == words(before).update(
                last as int,
                words(before)[last as int].push(c),
            ));
            spans.set(last, (start, i + 1));
            assert(s@.subrange(start as int, i + 1) =~= s@.subrange(start as int, i as int).push(
                c,
            ));
            assert forall|k: int| 0 <= k < spans@.len() implies s@.subrange(
                (#[trigger] spans@[k]).0 as int,
                spans@[k].1 as int,
            ) == words(after)[k] by {
                if k != last {
                    assert(spans@[k] == old_spans[k]);
                }
            }
        } else {
            assert(i > 0 ==> after[i - 1] == s@[i - 1]);
            assert(words(after) == words(before).push(seq![c]));
            spans.push((i, i + 1));
            assert(s@.subrange(i as int, i + 1) =~= seq![c]);
            assert forall|k: int| 0 <= k < spans@.len() implies s@.subrange(
                (#[trigger] spans@[k]).0 as int,
                spans@[k].1 as int,
            ) == words(after)[k] by {
                if k < old_spans.len() {
                    assert(spans@[k] == old_spans[k]);
                }
            }
        }
        i = i + 1;
        assert(after == s@.take(i as int));
    }
    assert(s@.take(n as int) =~= s@);
    spans
}

/// The view of an optional credential.
pub open spec fn credential_view(r: Option<BasicAuth>) -> Option<(Seq<char>, Seq<char>)> {
    match r {
        Some(a) => Some(a@),
        None => None,
    }
}

/// Splits decoded credential text `username:password` around its only
/// `:`; text with no `:`, or with more than one, is rejected.
pub fn from_credential_text(text: &str) -> (r: Option<BasicAuth>)
    ensures
        credential_view(r) == credential_parts(text@),
{
    let n = text.unicode_len();
    let mut found: Option<usize> = None;
    let mut i: usize = 0;
    while i < n
        invariant
            n == text@.len(),
            i <= n,
            match found {
                None => forall|j: int| 0 <= j < i ==> text@[j] != ':',
                Some(p) => p < i && text@[p as int] == ':' && forall|j: int|
                    0 <= j < i && text@[j] == ':' ==> j == p,
            },
        decreases n - i,
    {
        if text.get_char(i) == ':' {
            match found {
                Some(p) => {
                    assert(!(exists|q: int|
                        0 <= q < text@.len() && text@[q] == ':' && forall|j: int|
                            0 <= j < text@.len() && text@[j] == ':' ==> j == q)) by {
                        assert forall|q: int|
                            0 <= q < text@.len() && text@[q] == ':' implies !(forall|j: int|
                            0 <= j < text@.len() && text@[j] == ':' ==> j == q) by {
                            if q == p {
                                assert(text@[i as int] == ':');
                            } else {
                                assert(text@[p as int] == ':');
                            }
                        }
                    }
                    return None;
                },
                None => {
                    found = Some(i);
                },
            }
        }
        i = i + 1;
    }
    match found {
        None => {
            assert(!(exists|q: int|
                0 <= q < text@.len() && text@[q] == ':' && forall|j: int|
                    0 <= j < text@.len() && text@[j] == ':' ==> j == q));
            None
        },
        Some(p) => {
            assert(text@[p as int] == ':' && forall|j: int|
                0 <= j < text@.len() && text@[j] == ':' ==> j == p);
            let username = text.substring_char(0, p).to_owned();
            let password = text.substring_char(p + 1, n).to_owned();
            assert(text@.subrange(0, p as int) =~= text@.take(p as int));
            assert(text@.subrange(p + 1, n as int) =~= text@.skip(p + 1));
            Some(BasicAuth { username, password })
        },
    }
}

/// Whether the characters `[start, end)` of `s` spell the scheme `Basic`.
fn is_basic_scheme(s: &str, start: usize, end: usize) -> (r: bool)
    requires
        start <= end <= s@.len(),
    ensures
        r == (s@.subrange(start as int, end as int) == basic_scheme()),
{
    if end - start != 5 {
        assert(s@.subrange(start as int, end as int).len() != basic_scheme().len());
        return false;
    }
    let r = s.get_char(start) == 'B' && s.get_char(start + 1) == 'a' && s.get_char(start + 2)
        == 's' && s.get_char(start + 3) == 'i' && s.get_char(start + 4) == 'c';
    assert(r == (s@.subrange(start as int, end as int) =~= basic_scheme()));
    r
}

impl BasicAuth {
    /// Reads the credentials out of an `Authorization` header value of the
    /// form `Basic <base64 of username:password>`.
    pub fn from_authorization_header(header: &str) -> (r: Option<BasicAuth>)
        ensures
            credential_view(r) == guard(header@),
    {
        let spans = word_spans(header);
        if spans.len() != 2 {
            return None;
        }
        let (s0, e0) = spans[0];
        let (s1, e1) = spans[1];
        assert(spans@[0].0 <= spans@[0].1);
        assert(spans@[1].0 <= spans@[1].1);
        if !is_basic_scheme(header, s0, e0) {
            return None;
        }
        let token = header.substring_char(s1, e1);
        let bytes = match decode_base64(token) {
            Some(b) => b,
            None => return None,
        };
        let text = match decode_utf8_text(bytes) {
            Some(t) => t,
            None => return None,
        };
        from_credential_text(text.as_str())
    }
}

/// A header made of the word `Basic` and a token that decodes to the UTF-8
/// encoding of `username:password`, where neither part holds a `:`, yields
/// exactly that username and password.
pub proof fn lemma_well_formed_header_accepted(
    header: Seq<char>,
    token: Seq<char>,
    username: Seq<char>,
    password: Seq<char>,
)
    requires
        words(header) == seq![basic_scheme(), token],
        base64_decoded(token) == Some(encode_utf8(username + seq![':'] + password)),
        !username.contains(':'),
        !password.contains(':'),
    ensures
        guard(header) == Some((username, password)),
{
    let text = username + seq![':'] + password;
    broadcast use encode_utf8_valid_utf8, encode_utf8_decode_utf8;
    assert(valid_utf8(encode_utf8(text)));
    assert(decode_utf8(encode_utf8(text)) == text);
    let i = username.len() as int;
    assert(text[i] == ':');
    assert forall|j: int| 0 <= j < text.len() && text[j] == ':' implies j == i by {
        if j < i {
            assert(username[j] == text[j]);
        } else if j > i {
            assert(password[j - i - 1] == text[j]);
        }
    }
    let c = choose|c: int|
        0 <= c < text.len() && text[c] == ':' && forall|j: int|
            0 <= j < text.len() && text[j] == ':' ==> j == c;
    assert(c == i);
    assert(text.take(i) =~= username);
    assert(text.skip(i + 1) =~= password);
}

/// A header is rejected when it is not two words, when its first word is
/// not `Basic`, when its token is no base64, when the decoded bytes are
/// not UTF-8, or when the decoded text does not hold exactly one `:`.
pub proof fn lemma_malformed_header_rejected(header: Seq<char>)
    ensures
        words(header).len() != 2 ==> guard(header) is None,
        words(header).len() == 2 && words(header)[0] != basic_scheme() ==> guard(header) is None,
        words(header).len() == 2 && base64_decoded(words(header)[1]) is None ==> guard(
            header,
        ) is None,
        forall|b: Seq<u8>|
            words(header).len() == 2 && base64_decoded(words(header)[1]) == Some(b) && !valid_utf8(
                b,
            ) ==> guard(header) is None,
        forall|b: Seq<u8>|
            words(header).len() == 2 && base64_decoded(words(header)[1]) == Some(b) && valid_utf8(b)
                && #[trigger] credential_parts(decode_utf8(b)) is None ==> guard(header) is None,
{
}

} // verus!
