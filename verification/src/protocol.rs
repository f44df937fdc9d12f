//! The wire protocol: one command per line, dispatched to exactly one
//! action — a response to write back, a session termination, or a
//! process-wide shutdown.

use vstd::prelude::*;
use crate::digits::{
    dec_rep, parse_digits, parse_u16, parse_u16_spec, u64_to_string, ParseError,
};
use crate::store::LineStore;

verus! {

/// What a session must do after one command has been read: write a
/// response and keep going, retire itself, or bring the whole service
/// down. Every command that keeps the session going is answered.
#[derive(Debug, PartialEq, Eq)]
pub enum Action {
    /// Write this text to the connection, then read the next command.
    Respond(String),
    /// Close the connection and report the session as finished.
    Quit,
    /// Ask the coordinator to stop the service, then close the connection.
    Shutdown,
}

/// The mathematical content of an [`Action`].
pub enum ActionView {
    Respond(Seq<char>),
    Quit,
    Shutdown,
}

impl View for Action {
    type V = ActionView;

    open spec fn view(&self) -> ActionView {
        match self {
            Action::Respond(s) => ActionView::Respond(s@),
            Action::Quit => ActionView::Quit,
            Action::Shutdown => ActionView::Shutdown,
        }
    }
}

/// Index of the first space at or after position `i`, if any.
pub open spec fn find_space(s: Seq<char>, i: int) -> Option<int>
    decreases s.len() - i when 0 <= i <= s.len()
{
    if i >= s.len() {
        None
    } else if s[i] == ' ' {
        Some(i)
    } else {
        find_space(s, i + 1)
    }
}

proof fn lemma_find_space_bounds(s: Seq<char>, i: int)
    requires
        0 <= i <= s.len(),
    ensures
        find_space(s, i) matches Some(j) ==> i <= j < s.len() && s[j] == ' ',
    decreases s.len() - i,
{
    if i < s.len() && s[i] != ' ' {
        lemma_find_space_bounds(s, i + 1);
    }
}

/// The first space-separated token of `s`: the text before the first
/// space, or all of `s` when it holds no space. This token alone decides
/// which command a line is.
pub open spec fn first_token(s: Seq<char>) -> Seq<char> {
    match find_space(s, 0) {
        None => s,
        Some(i) => s.subrange(0, i),
    }
}

/// The argument of a retrieval: the second space-separated token — the
/// text between the first space and the following space (or the end) —
/// or nothing at all when `s` holds no space. Anything after the second
/// token is ignored.
pub open spec fn get_argument(s: Seq<char>) -> Seq<char> {
    match find_space(s, 0) {
        None => Seq::empty(),
        Some(i) => match find_space(s, i + 1) {
            None => s.subrange(i + 1, s.len() as int),
            Some(j) => s.subrange(i + 1, j),
        },
    }
}

/// The success response: marker line, then the requested line.
pub open spec fn ok_response(line: Seq<char>) -> Seq<char> {
    "Ok\r\n"@ + line + "\r\n"@
}

/// The response to a `GET` whose index is out of range.
pub open spec fn range_err_response(n: u16, total: nat) -> Seq<char> {
    "Err - failed to retrieve line "@ + dec_rep(n as nat) + ". There are only "@ + dec_rep(total)
        + " lines available.\r\n"@
}

/// The text naming a parse failure; the wording of the standard
/// library's integer-parsing errors.
pub open spec fn parse_error_msg(e: ParseError) -> Seq<char> {
    match e {
        ParseError::Empty => "cannot parse integer from empty string"@,
        ParseError::InvalidDigit => "invalid digit found in string"@,
        ParseError::Overflow => "number too large to fit in target type"@,
    }
}

/// The response to a `GET` whose argument does not parse.
pub open spec fn parse_err_response(e: ParseError, token: Seq<char>) -> Seq<char> {
    "Err - "@ + parse_error_msg(e) + ". Is "@ + token + " an unsigned integer under 65536?\r\n"@
}

/// The response to a command that no dispatch rule recognizes.
pub open spec fn invalid_cmd_response(cmd: Seq<char>) -> Seq<char> {
    "Err - "@ + cmd + " is an invalid command. `GET nnnn | QUIT | SHUTDOWN` are valid commands.\r\n"@
}

/// What one normalized command line means, given the stored lines.
/// Dispatch goes by the exact first space-separated token: `GET` is a
/// retrieval whose argument is the second token (empty when absent, and
/// then rejected like any token that does not parse; anything after it
/// is ignored), `SHUTDOWN` and `QUIT` end the service or the session,
/// and every other line is answered with the list of valid commands.
/// Every line that is not a `QUIT` or a `SHUTDOWN` gets exactly one
/// response.
pub open spec fn dispatch_spec(c: Seq<char>, lines: Seq<Seq<char>>) -> ActionView {
    if first_token(c) == "GET"@ {
        match parse_u16_spec(get_argument(c)) {
            Ok(n) => if (n as int) < lines.len() {
                ActionView::Respond(ok_response(lines[n as int]))
            } else {
                ActionView::Respond(range_err_response(n, lines.len()))
            },
            Err(e) => ActionView::Respond(parse_err_response(e, get_argument(c))),
        }
    } else if first_token(c) == "SHUTDOWN"@ {
        ActionView::Shutdown
    } else if first_token(c) == "QUIT"@ {
        ActionView::Quit
    } else {
        ActionView::Respond(invalid_cmd_response(c))
    }
}

/// Decides whether two strings hold the same characters.
fn str_eq(a: &str, b: &str) -> (r: bool)
    ensures
        r == (a@ == b@),
{
    let al = a.unicode_len();
    let bl = b.unicode_len();
    if al != bl {
        return false;
    }
    let mut i: usize = 0;
    while i < al
        invariant
            0 <= i <= al,
            al == a@.len(),
            al == bl,
            bl == b@.len(),
            forall|j: int| 0 <= j < i ==> a@[j] == b@[j],
        decreases al - i,
    {
        if a.get_char(i) != b.get_char(i) {
            return false;
        }
        i = i + 1;
    }
    proof {
        assert(a@ =~= b@);
    }
    true
}

/// Finds the first space at or after `from`.
fn find_space_from(s: &str, from: usize) -> (r: Option<usize>)
    requires
        from <= s@.len(),
    ensures
        r matches Some(j) ==> find_space(s@, from as int) == Some(j as int),
        r is None ==> find_space(s@, from as int) is None,
{
    let len = s.unicode_len();
    let mut i: usize = from;
    while i < len
        invariant
            from <= i <= len,
            len == s@.len(),
            find_space(s@, from as int) == find_space(s@, i as int),
        decreases len - i,
    {
        if s.get_char(i) == ' ' {
            return Some(i);
        }
        i = i + 1;
    }
    None
}

/// Extracts the first space-separated token, as [`first_token`] says.
fn first_token_str<'a>(s: &'a str) -> (r: &'a str)
    ensures
        r@ == first_token(s@),
{
    if let Some(i) = find_space_from(s, 0) {
        proof {
            lemma_find_space_bounds(s@, 0);
        }
        s.substring_char(0, i)
    } else {
        s
    }
}

/// Extracts the retrieval argument, as [`get_argument`] says.
fn get_argument_str<'a>(s: &'a str) -> (r: &'a str)
    ensures
        r@ == get_argument(s@),
{
    let len = s.unicode_len();
    if let Some(i) = find_space_from(s, 0) {
        proof {
            lemma_find_space_bounds(s@, 0);
        }
        let end: usize = if let Some(j) = find_space_from(s, i + 1) {
            proof {
                lemma_find_space_bounds(s@, i + 1);
            }
            j
        } else {
            len
        };
        s.substring_char(i + 1, end)
    } else {
        proof {
            reveal_strlit("");
        }
        ""
    }
}

/// Builds the success response for a retrieved line.
fn build_ok_response(line: &String) -> (r: String)
    ensures
        r@ == ok_response(line@),
{
    let mut r = String::from_str("Ok\r\n");
    r.append(line.as_str());
    r.append("\r\n");
    proof {
        assert(r@ =~= ok_response(line@));
    }
    r
}

/// Builds the out-of-range response for index `n` against `total` lines.
fn build_range_err(n: u16, total: usize) -> (r: String)
    ensures
        r@ == range_err_response(n, total as nat),
{
    let mut r = String::from_str("Err - failed to retrieve line ");
    let num = u64_to_string(n as u64);
    r.append(num.as_str());
    r.append(". There are only ");
    let tot = u64_to_string(total as u64);
    r.append(tot.as_str());
    r.append(" lines available.\r\n");
    proof {
        assert(r@ =~= range_err_response(n, total as nat));
    }
    r
}

/// The text naming a parse failure, as [`parse_error_msg`] says.
fn parse_error_str(e: ParseError) -> (r: &'static str)
    ensures
        r@ == parse_error_msg(e),
{
    match e {
        ParseError::Empty => "cannot parse integer from empty string",
        ParseError::InvalidDigit => "invalid digit found in string",
        ParseError::Overflow => "number too large to fit in target type",
    }
}

/// Builds the response for a `GET` argument that does not parse.
fn build_parse_err(e: ParseError, token: &str) -> (r: String)
    ensures
        r@ == parse_err_response(e, token@),
{
    let mut r = String::from_str("Err - ");
    r.append(parse_error_str(e));
    r.append(". Is ");
    r.append(token);
    r.append(" an unsigned integer under 65536?\r\n");
    proof {
        assert(r@ =~= parse_err_response(e, token@));
    }
    r
}

/// Builds the response for an unrecognized command.
fn build_invalid_cmd(cmd: &str) -> (r: String)
    ensures
        r@ == invalid_cmd_response(cmd@),
{
    let mut r = String::from_str("Err - ");
    r.append(cmd);
    r.append(" is an invalid command. `GET nnnn | QUIT | SHUTDOWN` are valid commands.\r\n");
    proof {
        assert(r@ =~= invalid_cmd_response(cmd@));
    }
    r
}

/// Dispatches one normalized command line against the store.
pub fn dispatch(c: &str, store: &LineStore) -> (a: Action)
    ensures
        a@ == dispatch_spec(c@, store@),
{
    let keyword = first_token_str(c);
    if str_eq(keyword, "GET") {
        let tok = get_argument_str(c);
        match parse_u16(tok) {
            Ok(n) => match store.get(n as usize) {
                Some(line) => Action::Respond(build_ok_response(line)),
                None => Action::Respond(build_range_err(n, store.len())),
            },
            Err(e) => Action::Respond(build_parse_err(e, tok)),
        }
    } else if str_eq(keyword, "SHUTDOWN") {
        Action::Shutdown
    } else if str_eq(keyword, "QUIT") {
        Action::Quit
    } else {
        Action::Respond(build_invalid_cmd(c))
    }
}

/// A raw line with its terminator removed: the text before a trailing
/// line feed, or nothing at all when no line feed ends it.
pub open spec fn strip_newline(s: Seq<char>) -> Seq<char> {
    if s.len() > 0 && s[s.len() - 1] == '\n' {
        s.subrange(0, s.len() - 1)
    } else {
        Seq::empty()
    }
}

/// Removes the trailing line feed, as [`strip_newline`] says.
pub fn strip_newline_str<'a>(s: &'a str) -> (r: &'a str)
    ensures
        r@ == strip_newline(s@),
{
    let len = s.unicode_len();
    if len > 0 && s.get_char(len - 1) == '\n' {
        s.substring_char(0, len - 1)
    } else {
        proof {
            reveal_strlit("");
        }
        ""
    }
}

/// The uppercase folding that normalization applies, a function of the
/// characters alone.
pub uninterp spec fn upper_of(s: Seq<char>) -> Seq<char>;

/// Relies on str::to_uppercase: the uppercase equivalent of the string,
/// determined by its characters alone.
#[verifier::external_body]
fn to_uppercase(s: &str) -> (r: String)
    ensures
        r@ == upper_of(s@),
{
    s.to_uppercase()
}

proof fn lemma_find_space_none(s: Seq<char>, i: int)
    requires
        0 <= i <= s.len(),
        forall|m: int| i <= m < s.len() ==> s[m] != ' ',
    ensures
        find_space(s, i) is None,
    decreases s.len() - i,
{
    if i < s.len() {
        lemma_find_space_none(s, i + 1);
    }
}

/// The canonical text of a retrieval command for index `i`.
pub open spec fn get_command(i: u16) -> Seq<char> {
    "GET "@ + dec_rep(i as nat)
}

/// `GET <i>` in canonical form is recognized as a retrieval whose
/// argument is exactly the decimal representation of `i`.
proof fn lemma_get_command_parts(i: u16)
    ensures
        first_token(get_command(i)) == "GET"@,
        get_argument(get_command(i)) == dec_rep(i as nat),
{
    reveal_strlit("GET ");
    reveal_strlit("GET");
    let s = get_command(i);
    let num = dec_rep(i as nat);
    crate::digits::lemma_dec_rep_digits(i as nat);
    assert(find_space(s, 0) == find_space(s, 1));
    assert(find_space(s, 1) == find_space(s, 2));
    assert(find_space(s, 2) == find_space(s, 3));
    assert(s[3] == ' ');
    assert(find_space(s, 3) == Some(3int));
    assert(s.subrange(0, 3) =~= "GET"@);
    assert forall|m: int| 4 <= m < s.len() implies s[m] != ' ' by {
        assert(s[m] == num[m - 4]);
        assert(crate::digits::is_digit(num[m - 4]));
    };
    lemma_find_space_none(s, 4);
    assert(s.subrange(4, s.len() as int) =~= num);
}

/// Retrieval is uniform and exact: for every index within the store,
/// the canonical `GET` command is answered with the success marker and
/// precisely the stored line — nothing else enters the decision, so the
/// response cannot depend on any other session or any other state.
pub proof fn lemma_get_returns_line(lines: Seq<Seq<char>>, i: u16)
    requires
        (i as int) < lines.len(),
    ensures
        dispatch_spec(get_command(i), lines) == ActionView::Respond(ok_response(lines[i as int])),
{
    lemma_get_command_parts(i);
    crate::digits::lemma_dec_rep_parses(i as nat);
}

/// Every index at or beyond the number of stored lines — in particular
/// the first one past the end — is rejected with the out-of-range
/// response naming that index and the store's size.
pub proof fn lemma_get_out_of_range(lines: Seq<Seq<char>>, i: u16)
    requires
        lines.len() <= i as int,
    ensures
        dispatch_spec(get_command(i), lines) == ActionView::Respond(
            range_err_response(i, lines.len()),
        ),
{
    lemma_get_command_parts(i);
    crate::digits::lemma_dec_rep_parses(i as nat);
}

/// One full step of a session: normalize the raw line read from the
/// connection (strip the terminator, fold to uppercase) and dispatch it.
pub fn process_line(raw: &str, store: &LineStore) -> (a: Action)
    ensures
        a@ == dispatch_spec(upper_of(strip_newline(raw@)), store@),
{
    let stripped = strip_newline_str(raw);
    let upper = to_uppercase(stripped);
    dispatch(upper.as_str(), store)
}

} // verus!
