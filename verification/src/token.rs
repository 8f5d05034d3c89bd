//! The token with which a session is opened.

use vstd::prelude::*;
use vstd::string::*;

use crate::text::{contains, contains_text, decimal, decimal_text, law_contains};

verus! {

/// What the token endpoint answered.
pub struct TokenReply {
    /// The HTTP status code.
    pub status: u16,
    /// The status as it is shown: the code and its reason.
    pub status_line: String,
    pub body: String,
    /// The token, where the body is a JSON document that holds one.
    pub decoded: Option<String>,
}

/// What a [`TokenReply`] says.
pub struct TokenReplyView {
    pub status: u16,
    pub status_line: Seq<char>,
    pub body: Seq<char>,
    pub decoded: Option<Seq<char>>,
}

/// Why there is no token.
pub enum TokenError {
    /// The endpoint's anti-bot challenge answered in its place.
    Checkpoint { status: u16 },
    /// The endpoint refused the request.
    Refused { status_line: String, body: String },
    /// The body holds no token.
    Undecodable,
    /// The token is empty.
    Empty,
}

/// What a [`TokenError`] says.
pub enum TokenErrorView {
    Checkpoint { status: u16 },
    Refused { status_line: Seq<char>, body: Seq<char> },
    Undecodable,
    Empty,
}

impl View for TokenReply {
    type V = TokenReplyView;

    open spec fn view(&self) -> TokenReplyView {
        TokenReplyView {
            status: self.status,
            status_line: self.status_line@,
            body: self.body@,
            decoded: match self.decoded {
                Some(token) => Some(token@),
                None => None,
            },
        }
    }
}

impl View for TokenError {
    type V = TokenErrorView;

    open spec fn view(&self) -> TokenErrorView {
        match self {
            TokenError::Checkpoint { status } => TokenErrorView::Checkpoint { status: *status },
            TokenError::Refused { status_line, body } => TokenErrorView::Refused {
                status_line: status_line@,
                body: body@,
            },
            TokenError::Undecodable => TokenErrorView::Undecodable,
            TokenError::Empty => TokenErrorView::Empty,
        }
    }
}

/// Whether an HTTP status means success.
pub open spec fn is_success(status: u16) -> bool {
    200 <= status < 300
}

/// Whether a page is that of the anti-bot challenge.
pub open spec fn is_checkpoint(body: Seq<char>) -> bool {
    contains_text(body, "Vercel Security Checkpoint"@)
}

/// The token in a reply, or why there is none.
pub open spec fn token_in(reply: TokenReplyView) -> Result<Seq<char>, TokenErrorView> {
    if is_success(reply.status) && reply.decoded is Some {
        if reply.decoded->0.len() == 0 {
            Err(TokenErrorView::Empty)
        } else {
            Ok(reply.decoded->0)
        }
    } else if is_checkpoint(reply.body) {
        Err(TokenErrorView::Checkpoint { status: reply.status })
    } else if !is_success(reply.status) {
        Err(TokenErrorView::Refused { status_line: reply.status_line, body: reply.body })
    } else {
        Err(TokenErrorView::Undecodable)
    }
}

/// Tests whether an HTTP status means success.
pub fn success(status: u16) -> (r: bool)
    ensures
        r == is_success(status),
{
    200 <= status && status < 300
}

/// Takes the token out of a reply.
pub fn read_token(reply: TokenReply) -> (r: Result<String, TokenError>)
    ensures
        match r {
            Ok(token) => token_in(reply@) == Ok::<Seq<char>, TokenErrorView>(token@),
            Err(error) => token_in(reply@) == Err::<Seq<char>, TokenErrorView>(error@),
        },
{
    let blocked = contains(reply.body.as_str(), "Vercel Security Checkpoint");
    if success(reply.status) {
        match reply.decoded {
            Some(token) => {
                return if token.as_str().is_empty() {
                    Err(TokenError::Empty)
                } else {
                    Ok(token)
                };
            },
            None => {},
        }
    }
    if blocked {
        Err(TokenError::Checkpoint { status: reply.status })
    } else if !success(reply.status) {
        Err(TokenError::Refused { status_line: reply.status_line, body: reply.body })
    } else {
        Err(TokenError::Undecodable)
    }
}

impl TokenErrorView {
    /// How the error is worded.
    pub open spec fn wording(self) -> Seq<char> {
        match self {
            TokenErrorView::Checkpoint { status } =>
                "ws-token blocked by Vercel security checkpoint (HTTP "@ + decimal(status as nat)
                + "). Try again from a different IP, or wait a few minutes for the rate-limit to expire."@,
            TokenErrorView::Refused { status_line, body } => "ws-token request failed: HTTP "@
                + status_line + ": "@ + body,
            TokenErrorView::Undecodable => "decoding ws-token response as {\"token\": \"...\"}"@,
            TokenErrorView::Empty => "ws-token response contained empty token"@,
        }
    }
}

impl TokenError {
    /// Words the error for the log.
    pub fn message(&self) -> (text: String)
        ensures
            text@ == self@.wording(),
    {
        match self {
            TokenError::Checkpoint { status } => {
                let mut text = "ws-token blocked by Vercel security checkpoint (HTTP ".to_owned();
                text.append(decimal_text(*status as u128).as_str());
                text.append(
                    "). Try again from a different IP, or wait a few minutes for the rate-limit to expire.",
                );
                text
            },
            TokenError::Refused { status_line, body } => {
                let mut text = "ws-token request failed: HTTP ".to_owned();
                text.append(status_line.as_str());
                text.append(": ");
                text.append(body.as_str());
                text
            },
            TokenError::Undecodable => "decoding ws-token response as {\"token\": \"...\"}".to_owned(),
            TokenError::Empty => "ws-token response contained empty token".to_owned(),
        }
    }
}

/// The session is never opened with an empty token.
pub proof fn law_token_is_not_empty(reply: TokenReplyView)
    ensures
        token_in(reply) matches Ok(token) ==> token.len() > 0 && is_success(reply.status),
{
}

/// The page of the anti-bot challenge is not repeated in what is said of it: the wording depends
/// on the status alone.
pub proof fn law_checkpoint_page_is_not_shown(reply: TokenReplyView, other: TokenReplyView)
    requires
        is_checkpoint(reply.body),
        is_checkpoint(other.body),
        reply.decoded is None,
        other.decoded is None,
        reply.status == other.status,
    ensures
        token_in(reply) is Err,
        token_in(reply)->Err_0.wording() == token_in(other)->Err_0.wording(),
{
}

/// A token is taken just as it was decoded: from every reply with a status from 200 to 299 and a
/// token that is not empty, and from no other.
pub proof fn law_token_is_the_decoded_one(reply: TokenReplyView, token: Seq<char>)
    ensures
        token_in(reply) == Ok::<Seq<char>, TokenErrorView>(token) <==> 200 <= reply.status < 300
            && reply.decoded == Some(token) && token.len() > 0,
{
}

/// Why there is no token. A decoded token is empty; or else the page is that of the anti-bot
/// challenge, whatever the status; or else the status is no success; or else nothing was decoded.
pub proof fn law_why_there_is_no_token(
    reply: TokenReplyView,
    before: Seq<char>,
    behind: Seq<char>,
)
    ensures
        ({
            let success = 200 <= reply.status < 300;
            let challenged = contains_text(reply.body, "Vercel Security Checkpoint"@);
            let error = token_in(reply)->Err_0;
            let decoded = success && reply.decoded is Some;
            &&& decoded && reply.decoded->0.len() == 0 ==> token_in(reply) is Err && error
                == TokenErrorView::Empty
            &&& !decoded && challenged ==> token_in(reply) is Err && error == (
            TokenErrorView::Checkpoint { status: reply.status })
            &&& !success && !challenged ==> token_in(reply) is Err && error == (
            TokenErrorView::Refused { status_line: reply.status_line, body: reply.body })
            &&& success && reply.decoded is None && !challenged ==> token_in(reply) is Err && error
                == TokenErrorView::Undecodable
        }),
        reply.body == before + "Vercel Security Checkpoint"@ + behind && reply.decoded is None
            ==> token_in(reply) == Err::<Seq<char>, TokenErrorView>(
            TokenErrorView::Checkpoint { status: reply.status },
        ),
{
    law_contains(reply.body, "Vercel Security Checkpoint"@);
}

/// How the errors are worded: the challenge with its status, and a refusal with the endpoint's whole
/// answer.
pub proof fn law_token_errors_are_worded(status: u16, status_line: Seq<char>, body: Seq<char>)
    ensures
        (TokenErrorView::Checkpoint { status }).wording()
            == "ws-token blocked by Vercel security checkpoint (HTTP "@ + decimal(status as nat)
            + "). Try again from a different IP, or wait a few minutes for the rate-limit to expire."@,
        (TokenErrorView::Refused { status_line, body }).wording()
            == "ws-token request failed: HTTP "@ + status_line + ": "@ + body,
        TokenErrorView::Undecodable.wording()
            == "decoding ws-token response as {\"token\": \"...\"}"@,
        TokenErrorView::Empty.wording() == "ws-token response contained empty token"@,
{
}

/// A reply and an error are the texts and numbers of their fields.
pub proof fn law_replies_are_their_fields(reply: TokenReply, error: TokenError)
    ensures
        reply@.status == reply.status,
        reply@.status_line == reply.status_line@,
        reply@.body == reply.body@,
        reply@.decoded is Some <==> reply.decoded is Some,
        reply.decoded matches Some(token) ==> reply@.decoded == Some(token@),
        match error {
            TokenError::Checkpoint { status } => error@ == (TokenErrorView::Checkpoint { status }),
            TokenError::Refused { status_line, body } => error@ == (TokenErrorView::Refused {
                status_line: status_line@,
                body: body@,
            }),
            TokenError::Undecodable => error@ == TokenErrorView::Undecodable,
            TokenError::Empty => error@ == TokenErrorView::Empty,
        },
{
}

} // verus!
