//! Who is logged in.
use crate::text::{opt_text, strip_prefix};
use vstd::hash_map::StringHashMap;
use vstd::prelude::*;

verus! {

/// The tokens given out, each with the name of the user who got it.
pub struct Sessions {
    tokens: StringHashMap<String>,
}

impl View for Sessions {
    type V = Map<Seq<char>, Seq<char>>;

    closed spec fn view(&self) -> Map<Seq<char>, Seq<char>> {
        self.tokens@.map_values(|user: String| user@)
    }
}

/// Whether a byte of a header can be read as text: visible ASCII, or a tab.
pub open spec fn is_visible(byte: u8) -> bool {
    32 <= byte < 127 || byte == 9
}

/// The text of a header, where all of it can be read as text.
pub open spec fn header_text(header: Seq<u8>) -> Option<Seq<char>> {
    if forall|i: int| 0 <= i < header.len() ==> is_visible(#[trigger] header[i]) {
        Some(header.map_values(|b: u8| b as char))
    } else {
        None
    }
}

/// The token that the `Authorization` header of a request bears, if any.
pub open spec fn bearer_token(header: Option<Seq<u8>>) -> Option<Seq<char>> {
    match header {
        None => None,
        Some(bytes) => match header_text(bytes) {
            None => None,
            Some(text) => crate::text::after_prefix(text, "Bearer "@),
        },
    }
}

/// The user on whose behalf a request with the given header is made, if any.
pub open spec fn user_of(sessions: Map<Seq<char>, Seq<char>>, header: Option<Seq<u8>>) -> Option<
    Seq<char>,
> {
    match bearer_token(header) {
        None => None,
        Some(token) => if sessions.contains_key(token) {
            Some(sessions[token])
        } else {
            None
        },
    }
}

/// The bytes of a header that may be absent.
pub open spec fn header_view(header: Option<&[u8]>) -> Option<Seq<u8>> {
    match header {
        Some(bytes) => Some(bytes@),
        None => None,
    }
}

/// The text of a header, where all of it can be read as text.
fn read_header(header: &[u8]) -> (text: Option<String>)
    ensures
        opt_text(text) == header_text(header@),
{
    let mut text = String::new();
    let mut i: usize = 0;
    while i < header.len()
        invariant
            i <= header@.len(),
            forall|j: int| 0 <= j < i ==> is_visible(#[trigger] header@[j]),
            text@ == header@.take(i as int).map_values(|b: u8| b as char),
        decreases header.len() - i,
    {
        let byte: u8 = header[i];
        if !((32 <= byte && byte < 127) || byte == 9) {
            assert(!is_visible(header@[i as int]));
            return None;
        }
        text.push(byte as char);
        assert(header@.take(i + 1).map_values(|b: u8| b as char) =~= header@.take(
            i as int,
        ).map_values(|b: u8| b as char).push(byte as char));
        i = i + 1;
    }
    assert(header@.take(i as int) =~= header@);
    Some(text)
}

/// The token that the `Authorization` header of a request bears, if any.
fn read_token(header: Option<&[u8]>) -> (token: Option<String>)
    ensures
        opt_text(token) == bearer_token(header_view(header)),
{
    match header {
        None => None,
        Some(bytes) => match read_header(bytes) {
            None => None,
            Some(text) => strip_prefix(&text, "Bearer "),
        },
    }
}

impl Sessions {
    /// Nobody is logged in.
    pub fn new() -> (sessions: Self)
        ensures
            sessions@ == Map::<Seq<char>, Seq<char>>::empty(),
    {
        let sessions = Sessions { tokens: StringHashMap::new() };
        assert(sessions@ =~= Map::<Seq<char>, Seq<char>>::empty());
        sessions
    }

    /// Gives a token to a user.
    pub fn insert(&mut self, token: String, username: String)
        ensures
            final(self)@ == old(self)@.insert(token@, username@),
    {
        self.tokens.insert(token, username);
        assert(self@ =~= old(self)@.insert(token@, username@));
    }

    /// Takes a token back.
    pub fn remove(&mut self, token: &str)
        ensures
            final(self)@ == old(self)@.remove(token@),
    {
        self.tokens.remove(token);
        assert(self@ =~= old(self)@.remove(token@));
    }
}

/// The user on whose behalf a request with the given `Authorization` header is
/// made, if any.
pub fn authenticated_username(header: Option<&[u8]>, sessions: &Sessions) -> (username: Option<
    String,
>)
    ensures
        opt_text(username) == user_of(sessions@, header_view(header)),
{
    match read_token(header) {
        None => None,
        Some(token) => match sessions.tokens.get(&token) {
            Some(username) => Some(username.clone()),
            None => None,
        },
    }
}

/// The token that the given `Authorization` header bears, if it was given out.
pub fn authenticated_token(header: Option<&[u8]>, sessions: &Sessions) -> (token: Option<String>)
    ensures
        opt_text(token) == (if user_of(sessions@, header_view(header)) is Some {
            bearer_token(header_view(header))
        } else {
            None
        }),
{
    match read_token(header) {
        None => None,
        Some(token) => if sessions.tokens.contains_key(&token) {
            Some(token)
        } else {
            None
        },
    }
}

/// The seven bytes before the token of a header: the word, with its capital letter,
/// and one space.
pub open spec fn before_the_token() -> Seq<u8> {
    seq![66, 101, 97, 114, 101, 114, 32]
}

/// A header of the seven bytes before a token and the token itself bears that token,
/// whatever visible characters it is made of; and it stands for the user to whom the
/// token was given, if it was given out.
pub proof fn law_header_stands_for_the_user_of_its_token(
    sessions: Map<Seq<char>, Seq<char>>,
    header: Seq<u8>,
    token: Seq<char>,
)
    requires
        header.len() == 7 + token.len(),
        header.take(7) == before_the_token(),
        forall|i: int|
            0 <= i < token.len() ==> header[7 + i] as int == #[trigger] token[i] as int && (' '
                <= token[i] <= '~' || token[i] == '\t'),
    ensures
        bearer_token(Some(header)) == Some(token),
        sessions.contains_key(token) ==> user_of(sessions, Some(header)) == Some(sessions[token]),
        !sessions.contains_key(token) ==> user_of(sessions, Some(header)) is None,
{
    reveal_strlit("Bearer ");
    let text = header.map_values(|b: u8| b as char);
    assert forall|i: int| 0 <= i < header.len() implies is_visible(#[trigger] header[i]) by {
        if i < 7 {
            assert(header[i] == header.take(7)[i]);
        } else {
            assert(header[7 + (i - 7)] as int == token[i - 7] as int);
        }
    }
    assert forall|i: int| 0 <= i < 7 implies text[i] == "Bearer "@[i] by {
        assert(header[i] == header.take(7)[i]);
    }
    assert("Bearer "@ =~= text.take(7));
    assert forall|i: int| 0 <= i < token.len() implies text.skip(7)[i] == token[i] by {
        assert(header[7 + i] as int == token[i] as int);
    }
    assert(text.skip(7) =~= token);
}

/// No other header stands for anyone: none at all, one with a byte that is not
/// visible, or one that does not begin with the seven bytes.
pub proof fn law_other_headers_stand_for_nobody(
    sessions: Map<Seq<char>, Seq<char>>,
    header: Seq<u8>,
    i: int,
)
    ensures
        user_of(sessions, None) is None,
        0 <= i < header.len() && (header[i] < 32 || header[i] >= 127) && header[i] != 9
            ==> user_of(sessions, Some(header)) is None,
        header.len() < 7 || header.take(7) != before_the_token() ==> user_of(
            sessions,
            Some(header),
        ) is None,
{
    reveal_strlit("Bearer ");
    if 0 <= i < header.len() && (header[i] < 32 || header[i] >= 127) && header[i] != 9 {
        assert(!is_visible(header[i]));
    }
    let text = header.map_values(|b: u8| b as char);
    if header.len() >= 7 && "Bearer "@.is_prefix_of(text) {
        assert forall|k: int| 0 <= k < 7 implies header.take(7)[k] == before_the_token()[k] by {
            assert(text[k] == text.take(7)[k]);
            assert(header[k] as char == "Bearer "@[k]);
        }
        assert(header.take(7) =~= before_the_token());
    }
}

/// What is seen of a header is all its bytes.
pub proof fn law_headers_are_seen_as_they_are(bytes: &[u8])
    ensures
        header_view(Some(bytes)) == Some(bytes@),
        header_view(None) is None,
{
}

} // verus!
