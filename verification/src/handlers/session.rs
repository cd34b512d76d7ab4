//! The page itself, and logging in and out.
use crate::models::{AuthRequest, AuthResponse, SessionResponse};
use crate::random::{is_token, random_token};
use crate::reply::{bare, with_text, Body, BodyView, Reply, ReplyView, Status};
use crate::sessions::{
    authenticated_token, authenticated_username, bearer_token, header_view, user_of, Sessions,
};
use crate::text::{opt_text, same_text};
use vstd::prelude::*;

verus! {

/// A login whose credentials were accepted.
#[derive(Debug, PartialEq, Eq)]
pub struct Login {
    username: String,
}

impl View for Login {
    type V = Seq<char>;

    closed spec fn view(&self) -> Seq<char> {
        self.username@
    }
}

/// Whether credentials are accepted.
pub open spec fn accepted(username: Seq<char>, password: Seq<char>) -> bool {
    username == "admin"@ && password == "password"@
}

/// The answer that refuses a request made on nobody's behalf.
pub open spec fn unauthorized() -> ReplyView {
    bare(Status::Unauthorized)
}

/// The answer to the request for the page.
pub open spec fn index_reply(page: Option<Seq<char>>) -> ReplyView {
    match page {
        Some(html) => ReplyView { status: Status::Success, body: BodyView::Html(html) },
        None => with_text(Status::InternalServerError, "Frontend file not found."@),
    }
}

/// The answer to a login that was accepted, given whether the uploads were
/// cleared and which token was drawn.
pub open spec fn login_reply(cleared: bool, token: Seq<char>) -> ReplyView {
    if cleared {
        ReplyView { status: Status::Success, body: BodyView::Token(token) }
    } else {
        with_text(Status::InternalServerError, "Failed to reset uploads"@)
    }
}

/// The sessions after a login that was accepted.
pub open spec fn after_login(
    sessions: Map<Seq<char>, Seq<char>>,
    username: Seq<char>,
    cleared: bool,
    token: Seq<char>,
) -> Map<Seq<char>, Seq<char>> {
    if cleared {
        sessions.insert(token, username)
    } else {
        sessions
    }
}

/// The answer to the question whose session this is.
pub open spec fn session_reply(
    sessions: Map<Seq<char>, Seq<char>>,
    header: Option<Seq<u8>>,
) -> ReplyView {
    match user_of(sessions, header) {
        Some(username) => ReplyView {
            status: Status::Success,
            body: BodyView::Session(username),
        },
        None => unauthorized(),
    }
}

/// The sessions after a request to log out.
pub open spec fn after_logout(
    sessions: Map<Seq<char>, Seq<char>>,
    header: Option<Seq<u8>>,
) -> Map<Seq<char>, Seq<char>> {
    if user_of(sessions, header) is Some {
        sessions.remove(bearer_token(header)->Some_0)
    } else {
        sessions
    }
}

/// The answer to a logout, given whether the uploads were cleared.
pub open spec fn logout_reply(cleared: bool) -> ReplyView {
    if cleared {
        bare(Status::Success)
    } else {
        with_text(Status::InternalServerError, "Failed to clear uploads"@)
    }
}

/// What a request comes to that may only be made on a user's behalf.
pub open spec fn permission(
    sessions: Map<Seq<char>, Seq<char>>,
    header: Option<Seq<u8>>,
) -> Result<(), ReplyView> {
    if user_of(sessions, header) is Some {
        Ok(())
    } else {
        Err(unauthorized())
    }
}

/// The contents of a result whose failure is an answer.
pub open spec fn permission_view(result: Result<(), Reply>) -> Result<(), ReplyView> {
    match result {
        Ok(_) => Ok(()),
        Err(reply) => Err(reply@),
    }
}

/// Lets pass a request that is made on a user's behalf, and refuses any other.
pub fn require_user(header: Option<&[u8]>, sessions: &Sessions) -> (result: Result<(), Reply>)
    ensures
        permission_view(result) == permission(sessions@, header_view(header)),
{
    if authenticated_username(header, sessions).is_some() {
        Ok(())
    } else {
        Err(Reply::bare(Status::Unauthorized))
    }
}

/// Answers the request for the page, given the page where it could be read.
pub fn index(page: Option<String>) -> (reply: Reply)
    ensures
        reply@ == index_reply(opt_text(page)),
{
    match page {
        Some(html) => Reply::ok(Body::Html(html)),
        None => Reply::text(Status::InternalServerError, "Frontend file not found."),
    }
}

/// Checks the credentials of a login. Where they are accepted, the uploads are to
/// be cleared before the login is finished.
pub fn authenticate(req: &AuthRequest) -> (result: Result<Login, Reply>)
    ensures
        match result {
            Ok(login) => accepted(req.username@, req.password@) && login@ == req.username@,
            Err(reply) => !accepted(req.username@, req.password@) && reply@ == unauthorized(),
        },
{
    if same_text(&req.username, "admin") && same_text(&req.password, "password") {
        Ok(Login { username: req.username.clone() })
    } else {
        Err(Reply::bare(Status::Unauthorized))
    }
}

impl Login {
    /// Finishes the login with a token drawn at random, given whether the uploads
    /// were cleared.
    pub fn finish(self, sessions: &mut Sessions, cleared: bool) -> (reply: Reply)
        ensures
            exists|token: Seq<char>|
                is_token(token) && reply@ == #[trigger] login_reply(cleared, token)
                    && final(sessions)@ == after_login(old(sessions)@, self@, cleared, token),
    {
        let token = random_token();
        let ghost drawn = token@;
        let reply = self.finish_with(sessions, cleared, token);
        assert(is_token(drawn) && reply@ == login_reply(cleared, drawn));
        reply
    }

    /// Finishes the login with the given token, given whether the uploads were
    /// cleared.
    pub fn finish_with(self, sessions: &mut Sessions, cleared: bool, token: String) -> (reply:
        Reply)
        ensures
            reply@ == login_reply(cleared, token@),
            final(sessions)@ == after_login(old(sessions)@, self@, cleared, token@),
    {
        if !cleared {
            return Reply::text(Status::InternalServerError, "Failed to reset uploads");
        }
        sessions.insert(token.clone(), self.username);
        Reply::ok(Body::Token(AuthResponse { token }))
    }
}

/// Answers whose session this is.
pub fn session(header: Option<&[u8]>, sessions: &Sessions) -> (reply: Reply)
    ensures
        reply@ == session_reply(sessions@, header_view(header)),
{
    match authenticated_username(header, sessions) {
        Some(username) => Reply::ok(Body::Session(SessionResponse { username })),
        None => Reply::bare(Status::Unauthorized),
    }
}

/// Ends the session. Where there was one, the uploads are to be cleared, and
/// [`logged_out`] answers.
pub fn logout(header: Option<&[u8]>, sessions: &mut Sessions) -> (result: Result<(), Reply>)
    ensures
        permission_view(result) == permission(old(sessions)@, header_view(header)),
        final(sessions)@ == after_logout(old(sessions)@, header_view(header)),
{
    match authenticated_token(header, sessions) {
        Some(token) => {
            sessions.remove(&token);
            Ok(())
        },
        None => Err(Reply::bare(Status::Unauthorized)),
    }
}

/// Answers a logout, given whether the uploads were cleared.
pub fn logged_out(cleared: bool) -> (reply: Reply)
    ensures
        reply@ == logout_reply(cleared),
{
    if cleared {
        Reply::bare(Status::Success)
    } else {
        Reply::text(Status::InternalServerError, "Failed to clear uploads")
    }
}

/// The header that bears a token.
pub open spec fn bearing(token: Seq<char>) -> Seq<u8> {
    ("Bearer "@ + token).map_values(|c: char| c as u8)
}

/// The header that bears a token is read as bearing it.
proof fn lemma_bearing(token: Seq<char>)
    requires
        is_token(token),
    ensures
        bearer_token(Some(bearing(token))) == Some(token),
{
    reveal_strlit("Bearer ");
    let text = "Bearer "@ + token;
    let bytes = bearing(token);
    assert forall|i: int| 0 <= i < bytes.len() implies crate::sessions::is_visible(
        #[trigger] bytes[i],
    ) && bytes[i] as char == text[i] by {
        if i >= 7 {
            assert(text[i] == token[i - 7]);
            assert(crate::random::is_alphanumeric(token[i - 7]));
        }
    }
    assert(bytes.map_values(|b: u8| b as char) =~= text);
    assert("Bearer "@.is_prefix_of(text));
    assert(text.skip(7) =~= token);
}

/// Whoever logs in is known by the token they get, until they log out with it;
/// then they are unknown again. No other token is affected by either.
pub proof fn law_session_lasts_from_login_to_logout(
    sessions: Map<Seq<char>, Seq<char>>,
    username: Seq<char>,
    token: Seq<char>,
    other: Seq<char>,
)
    requires
        is_token(token),
        is_token(other),
        other != token,
    ensures
        ({
            let header = Some(bearing(token));
            let during = after_login(sessions, username, true, token);
            let after = after_logout(during, header);
            &&& login_reply(true, token).body == BodyView::Token(token)
            &&& session_reply(during, header) == ReplyView {
                status: Status::Success,
                body: BodyView::Session(username),
            }
            &&& permission(during, header) == Ok::<(), ReplyView>(())
            &&& session_reply(after, header) == unauthorized()
            &&& permission(after, header) == Err::<(), ReplyView>(unauthorized())
            &&& session_reply(during, Some(bearing(other))) == session_reply(
                sessions,
                Some(bearing(other)),
            )
            &&& session_reply(after, Some(bearing(other))) == session_reply(
                sessions,
                Some(bearing(other)),
            )
        }),
{
    lemma_bearing(token);
    lemma_bearing(other);
}

/// A login that was accepted but could not clear the uploads lets nobody in.
pub proof fn law_failed_login_changes_no_session(
    sessions: Map<Seq<char>, Seq<char>>,
    username: Seq<char>,
    token: Seq<char>,
)
    ensures
        after_login(sessions, username, false, token) == sessions,
        login_reply(false, token).status == Status::InternalServerError,
{
}

/// One name with one password is let in, and nothing else is, however alike.
pub proof fn law_one_user_is_let_in(username: Seq<char>, password: Seq<char>)
    ensures
        accepted(username, password) <==> username == seq!['a', 'd', 'm', 'i', 'n'] && password
            == seq!['p', 'a', 's', 's', 'w', 'o', 'r', 'd'],
{
    reveal_strlit("admin");
    reveal_strlit("password");
    assert("admin"@ =~= seq!['a', 'd', 'm', 'i', 'n']);
    assert("password"@ =~= seq!['p', 'a', 's', 's', 'w', 'o', 'r', 'd']);
}

/// What the server says of its page and of sessions: the page as it was read, the
/// token as it was drawn, the name of whoever the session belongs to, and a reason
/// wherever something failed.
pub proof fn law_session_requests_are_answered(
    page: Seq<char>,
    token: Seq<char>,
    sessions: Map<Seq<char>, Seq<char>>,
    header: Option<Seq<u8>>,
)
    ensures
        index_reply(Some(page)) == (ReplyView {
            status: Status::Success,
            body: BodyView::Html(page),
        }),
        index_reply(None) == (ReplyView {
            status: Status::InternalServerError,
            body: BodyView::Text("Frontend file not found."@),
        }),
        login_reply(true, token) == (ReplyView {
            status: Status::Success,
            body: BodyView::Token(token),
        }),
        login_reply(false, token) == (ReplyView {
            status: Status::InternalServerError,
            body: BodyView::Text("Failed to reset uploads"@),
        }),
        logout_reply(true) == (ReplyView { status: Status::Success, body: BodyView::Empty }),
        logout_reply(false) == (ReplyView {
            status: Status::InternalServerError,
            body: BodyView::Text("Failed to clear uploads"@),
        }),
        unauthorized() == (ReplyView { status: Status::Unauthorized, body: BodyView::Empty }),
        user_of(sessions, header) matches Some(username) ==> session_reply(sessions, header) == (
        ReplyView { status: Status::Success, body: BodyView::Session(username) }) && permission(
            sessions,
            header,
        ) is Ok,
        user_of(sessions, header) is None ==> session_reply(sessions, header).status
            == Status::Unauthorized && (permission(sessions, header) matches Err(refusal)
            && refusal.status == Status::Unauthorized && refusal.body is Empty),
{
}

/// A login gives the token to the user and touches no other token; a logout takes
/// back the token it is made with and no other, and one that nobody's token is made
/// with takes back none.
pub proof fn law_tokens_are_given_and_taken_one_by_one(
    sessions: Map<Seq<char>, Seq<char>>,
    username: Seq<char>,
    token: Seq<char>,
    header: Option<Seq<u8>>,
    other: Seq<char>,
)
    ensures
        ({
            let during = after_login(sessions, username, true, token);
            &&& during.contains_key(token) && during[token] == username
            &&& other != token ==> (during.contains_key(other) <==> sessions.contains_key(other))
            &&& other != token && sessions.contains_key(other) ==> during[other]
                == sessions[other]
        }),
        after_login(sessions, username, false, token) == sessions,
        ({
            let after = after_logout(sessions, header);
            &&& after.contains_key(other) <==> sessions.contains_key(other) && bearer_token(header)
                != Some(other)
            &&& after.contains_key(other) ==> after[other] == sessions[other]
        }),
{
}

/// What is seen of a permission, or of its refusal, is all of it.
pub proof fn law_permissions_are_seen_as_they_are(reply: Reply)
    ensures
        permission_view(Ok(())) == Ok::<(), ReplyView>(()),
        permission_view(Err(reply)) == Err::<(), ReplyView>(reply@),
{
}

/// Who is let in: the credentials decide, and a request passes just where its header
/// stands for a user.
pub proof fn law_credentials_and_tokens_decide(
    req: AuthRequest,
    login: Result<Login, Reply>,
    header: Option<&[u8]>,
    sessions: &Sessions,
    pass: Result<(), Reply>,
    whose: Reply,
    username: Option<String>,
    token: Option<String>,
)
    requires
        call_ensures(authenticate, (&req,), login),
        call_ensures(require_user, (header, sessions), pass),
        call_ensures(session, (header, sessions), whose),
        call_ensures(authenticated_username, (header, sessions), username),
        call_ensures(authenticated_token, (header, sessions), token),
    ensures
        login is Ok <==> req.username@ == seq!['a', 'd', 'm', 'i', 'n'] && req.password@ == seq![
            'p',
            'a',
            's',
            's',
            'w',
            'o',
            'r',
            'd',
        ],
        login matches Ok(accepted) ==> accepted@ == req.username@,
        login matches Err(reply) ==> reply.status == Status::Unauthorized && reply.body is Empty,
        username is Some <==> (bearer_token(header_view(header)) matches Some(borne)
            && sessions@.contains_key(borne)),
        username matches Some(user) ==> user@ == sessions@[bearer_token(
            header_view(header),
        )->Some_0],
        token is Some <==> username is Some,
        token matches Some(borne) ==> bearer_token(header_view(header)) == Some(borne@),
        pass is Ok <==> username is Some,
        pass matches Err(reply) ==> reply.status == Status::Unauthorized && reply.body is Empty,
        username matches Some(user) ==> whose.status == Status::Success && (whose.body matches
            Body::Session(answer) && answer.username@ == user@),
        username is None ==> whose.status == Status::Unauthorized && whose.body is Empty,
{
    law_one_user_is_let_in(req.username@, req.password@);
}

/// Logging in with a token lets its bearer pass as the user who logged in, and gives
/// them the token; where the uploads could not be cleared nobody is let in.
pub proof fn law_login_gives_the_token(
    login: Login,
    sessions: &mut Sessions,
    token: String,
    reply: Reply,
    unchanged: &mut Sessions,
    failed: Reply,
)
    requires
        call_ensures(Login::finish_with, (login, sessions, true, token), reply),
        call_ensures(Login::finish_with, (login, unchanged, false, token), failed),
    ensures
        reply.status == Status::Success,
        reply.body matches Body::Token(answer) && answer.token@ == token@,
        final(sessions)@ == old(sessions)@.insert(token@, login@),
        failed.status == Status::InternalServerError,
        failed.body matches Body::Text(text) && text@ == "Failed to reset uploads"@,
        final(unchanged)@ == old(unchanged)@,
{
}

/// Logging out takes back the token that the request bears, and no other, where it was
/// given out; otherwise the request is refused and nothing is taken back.
pub proof fn law_logout_takes_the_token_back(
    header: Option<&[u8]>,
    sessions: &mut Sessions,
    result: Result<(), Reply>,
    other: Seq<char>,
)
    requires
        call_ensures(logout, (header, sessions), result),
    ensures
        result is Ok <==> (bearer_token(header_view(header)) matches Some(token)
            && old(sessions)@.contains_key(token)),
        result matches Err(reply) ==> reply.status == Status::Unauthorized && reply.body is Empty,
        final(sessions)@.contains_key(other) <==> old(sessions)@.contains_key(other)
            && bearer_token(header_view(header)) != Some(other),
        final(sessions)@.contains_key(other) ==> final(sessions)@[other] == old(sessions)@[other],
{
}

} // verus!
