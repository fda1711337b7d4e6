use vstd::prelude::*;
use vstd::string::StringExecFns;

verus! {

/// The text that `String::from_utf8_lossy` makes of some bytes.
pub uninterp spec fn lossy_text(b: Seq<u8>) -> Seq<char>;

/// The text that some bytes hold when they are valid UTF-8.
pub uninterp spec fn utf8_text(b: Seq<u8>) -> Option<Seq<char>>;

/// Whether `c` has Unicode's White_Space property, as `char::is_whitespace`
/// tells.
pub open spec fn is_whitespace(c: char) -> bool {
    ('\u{9}' <= c <= '\u{d}') || c == ' ' || c == '\u{85}' || c == '\u{a0}' || c == '\u{1680}'
        || ('\u{2000}' <= c <= '\u{200a}') || c == '\u{2028}' || c == '\u{2029}' || c
        == '\u{202f}' || c == '\u{205f}' || c == '\u{3000}'
}

/// A text without its leading whitespace.
pub open spec fn trim_start(s: Seq<char>) -> Seq<char>
    decreases s.len(),
{
    if s.len() > 0 && is_whitespace(s[0]) {
        trim_start(s.drop_first())
    } else {
        s
    }
}

/// A text without its trailing whitespace.
pub open spec fn trim_end(s: Seq<char>) -> Seq<char>
    decreases s.len(),
{
    if s.len() > 0 && is_whitespace(s.last()) {
        trim_end(s.drop_last())
    } else {
        s
    }
}

/// A text without its leading and trailing whitespace.
pub open spec fn trimmed(s: Seq<char>) -> Seq<char> {
    trim_end(trim_start(s))
}

/// The characters of some ASCII bytes, one for each byte.
pub open spec fn ascii_chars(b: Seq<u8>) -> Seq<char> {
    b.map_values(|x: u8| x as char)
}

pub open spec fn is_ascii_bytes(b: Seq<u8>) -> bool {
    forall|i: int| 0 <= i < b.len() ==> #[trigger] b[i] < 0x80
}

/// Relies on std's `String::from_utf8_lossy`: the text depends on the bytes
/// alone, each invalid sequence is replaced, bytes that are valid UTF-8 give
/// their own text, and ASCII bytes (valid UTF-8) give one character each.
#[verifier::external_body]
pub(crate) fn decode_lossy(bytes: &[u8]) -> (r: String)
    ensures
        r@ == lossy_text(bytes@),
        bytes@.len() == 0 ==> r@.len() == 0,
        utf8_text(bytes@) matches Some(t) ==> r@ == t,
        is_ascii_bytes(bytes@) ==> r@ == ascii_chars(bytes@),
{
    String::from_utf8_lossy(bytes).to_string()
}

/// Relies on std's `String::from_utf8`: the text of the bytes, or nothing
/// where they are not valid UTF-8.
#[verifier::external_body]
pub(crate) fn decode_utf8(bytes: &[u8]) -> (r: Option<String>)
    ensures
        match r {
            Some(s) => utf8_text(bytes@) == Some(s@),
            None => utf8_text(bytes@) is None,
        },
{
    String::from_utf8(bytes.to_vec()).ok()
}

/// Relies on std's `str::trim`: the text without its leading and trailing
/// characters that have the White_Space property.
#[verifier::external_body]
pub(crate) fn trim_text(s: &str) -> (r: String)
    ensures
        r@ == trimmed(s@),
{
    s.trim().to_string()
}

/// Why a username was not taken.
#[derive(Clone, Copy, Debug, PartialEq, Eq, Structural)]
pub enum UsernameError {
    /// Nothing is left of the input once whitespace is trimmed.
    Empty,
    /// The input is not valid UTF-8.
    InvalidUtf8,
    /// No connection is registered at the given endpoint.
    NotFound,
}

/// Takes an already trimmed input as a username, unless it is empty.
pub fn validate_username(trimmed_input: String) -> (r: Result<String, UsernameError>)
    ensures
        trimmed_input@.len() == 0 ==> r == Err::<String, UsernameError>(UsernameError::Empty),
        trimmed_input@.len() > 0 ==> (r matches Ok(name) && name@ == trimmed_input@),
{
    if trimmed_input.as_str().is_empty() {
        Err(UsernameError::Empty)
    } else {
        Ok(trimmed_input)
    }
}

/// The username that a client takes from one line it read: the line must be
/// valid UTF-8 and must hold something besides whitespace.
pub fn request_username(line: &[u8]) -> (r: Result<String, UsernameError>)
    ensures
        match utf8_text(line@) {
            None => r == Err::<String, UsernameError>(UsernameError::InvalidUtf8),
            Some(t) => if trimmed(t).len() == 0 {
                r == Err::<String, UsernameError>(UsernameError::Empty)
            } else {
                (r matches Ok(name) && name@ == trimmed(t))
            },
        },
{
    match decode_utf8(line) {
        None => Err(UsernameError::InvalidUtf8),
        Some(text) => validate_username(trim_text(text.as_str())),
    }
}

/// The notice that the peers of a connection get when it joins.
pub open spec fn joined_text(username: Seq<char>) -> Seq<char> {
    username + " has joined the chat!"@
}

/// The notice that the peers of a connection get when it leaves.
pub open spec fn left_text(username: Seq<char>) -> Seq<char> {
    username + " has left the chat!"@
}

pub fn join_notice(username: &str) -> (r: String)
    ensures
        r@ == joined_text(username@),
{
    String::from_str(username).concat(" has joined the chat!")
}

pub fn leave_notice(username: &str) -> (r: String)
    ensures
        r@ == left_text(username@),
{
    String::from_str(username).concat(" has left the chat!")
}

/// A text made of whitespace alone trims to nothing, so it is never taken as
/// a username.
pub proof fn lemma_whitespace_only_trims_to_empty(s: Seq<char>)
    requires
        forall|i: int| 0 <= i < s.len() ==> is_whitespace(#[trigger] s[i]),
    ensures
        trimmed(s).len() == 0,
    decreases s.len(),
{
    if s.len() > 0 {
        assert forall|i: int| 0 <= i < s.drop_first().len() implies is_whitespace(
            #[trigger] s.drop_first()[i],
        ) by {
            assert(s.drop_first()[i] == s[i + 1]);
        }
        lemma_whitespace_only_trims_to_empty(s.drop_first());
    }
}

/// A chunk of ASCII spaces, tabs and line breaks trims to nothing, so it is
/// never taken as a username.
pub proof fn lemma_blank_ascii_chunk_trims_to_empty(b: Seq<u8>)
    requires
        forall|i: int| 0 <= i < b.len() ==> (#[trigger] b[i] == 0x20 || (0x09 <= b[i] <= 0x0d)),
    ensures
        is_ascii_bytes(b),
        trimmed(ascii_chars(b)).len() == 0,
{
    let s = ascii_chars(b);
    assert forall|i: int| 0 <= i < s.len() implies is_whitespace(#[trigger] s[i]) by {
        assert(s[i] == b[i] as char);
    }
    lemma_whitespace_only_trims_to_empty(s);
}

proof fn lemma_trim_end_edges(s: Seq<char>)
    requires
        s.len() == 0 || !is_whitespace(s[0]),
    ensures
        trim_end(s).len() == 0 || (!is_whitespace(trim_end(s)[0]) && !is_whitespace(
            trim_end(s).last(),
        )),
        trim_end(s).len() <= s.len(),
        forall|i: int| 0 <= i < trim_end(s).len() ==> trim_end(s)[i] == s[i],
    decreases s.len(),
{
    if s.len() > 0 && is_whitespace(s.last()) {
        let d = s.drop_last();
        lemma_trim_end_edges(d);
        assert forall|i: int| 0 <= i < trim_end(s).len() implies trim_end(s)[i] == s[i] by {
            assert(trim_end(s)[i] == d[i]);
        }
    }
}

proof fn lemma_trim_start_edge(s: Seq<char>)
    ensures
        trim_start(s).len() == 0 || !is_whitespace(trim_start(s)[0]),
    decreases s.len(),
{
    if s.len() > 0 && is_whitespace(s[0]) {
        lemma_trim_start_edge(s.drop_first());
    }
}

/// A trimmed text has no whitespace at either end, so trimming it again
/// changes nothing: a username is its own trim.
pub proof fn lemma_trimmed_is_trimmed(s: Seq<char>)
    ensures
        trimmed(trimmed(s)) == trimmed(s),
{
    let t = trimmed(s);
    lemma_trim_start_edge(s);
    lemma_trim_end_edges(trim_start(s));
    assert(trim_start(t) == t);
    assert(trim_end(t) == t);
}

} // verus!
