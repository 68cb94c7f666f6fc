//! The login dialogue: which server lines are prompts, and what is
//! answered to each.
use crate::params::CrystalParams;
use vstd::prelude::*;
use vstd::string::{StrSliceExecFns, StringSliceAdditionalSpecFns};
use vstd::utf8::{encode_utf8, is_ascii_chars, valid_utf8};

verus! {

/// `pattern` occurs in `line` at position `at`.
pub open spec fn occurs_at(line: Seq<u8>, pattern: Seq<u8>, at: int) -> bool {
    &&& 0 <= at
    &&& at + pattern.len() <= line.len()
    &&& line.subrange(at, at + pattern.len()) == pattern
}

/// `pattern` occurs somewhere in `line`.
pub open spec fn occurs(line: Seq<u8>, pattern: Seq<u8>) -> bool {
    exists|at: int| occurs_at(line, pattern, at)
}

/// The bytes of the prompt that opens the dialogue.
pub open spec fn prompt_connecting() -> Seq<u8> {
    "Connecting...".spec_bytes()
}

/// The bytes of the prompt that asks for the login name.
pub open spec fn prompt_username() -> Seq<u8> {
    "Username:".spec_bytes()
}

/// The bytes of the prompt that asks for the password.
pub open spec fn prompt_password() -> Seq<u8> {
    "Password:".spec_bytes()
}

/// The bytes of the line that closes the dialogue.
pub open spec fn prompt_connected() -> Seq<u8> {
    "You are connected".spec_bytes()
}

/// What a server line asks of the client.
#[derive(Clone, Copy, Debug, PartialEq, Eq, Structural)]
pub enum Reaction {
    /// Not a prompt.
    Ignore,
    /// Answer with a bare newline.
    Acknowledge,
    /// Answer with the login name.
    SendUsername,
    /// Answer with the password.
    SendPassword,
    /// The session is authenticated: subscriptions may begin.
    MarkConnected,
}

/// The reaction that `line` calls for. Only a line that is well-formed
/// UTF-8 can be a prompt; the prompts are looked for in a fixed order and
/// the first that occurs decides.
pub open spec fn reaction_to(line: Seq<u8>) -> Reaction {
    if !valid_utf8(line) {
        Reaction::Ignore
    } else if occurs(line, prompt_connecting()) {
        Reaction::Acknowledge
    } else if occurs(line, prompt_username()) {
        Reaction::SendUsername
    } else if occurs(line, prompt_password()) {
        Reaction::SendPassword
    } else if occurs(line, prompt_connected()) {
        Reaction::MarkConnected
    } else {
        Reaction::Ignore
    }
}

/// The bytes written to the session in answer to a prompt, if any.
pub open spec fn reply_to(reaction: Reaction, params: CrystalParams) -> Option<Seq<u8>> {
    match reaction {
        Reaction::Acknowledge => Some(seq![10u8]),
        Reaction::SendUsername => Some(encode_utf8(params.mkt_data_username@)),
        Reaction::SendPassword => Some(encode_utf8(params.mkt_data_password@)),
        Reaction::Ignore | Reaction::MarkConnected => None,
    }
}

/// Tells whether `bytes` is well-formed UTF-8, by `std::str::from_utf8`,
/// which accepts exactly the well-formed sequences.
#[verifier::external_body]
fn is_utf8(bytes: &[u8]) -> (ok: bool)
    ensures
        ok == valid_utf8(bytes@),
{
    std::str::from_utf8(bytes).is_ok()
}

fn matches_at(line: &[u8], pattern: &[u8], at: usize) -> (same: bool)
    requires
        at + pattern@.len() <= line@.len(),
    ensures
        same == occurs_at(line@, pattern@, at as int),
{
    let n: usize = line.len();
    let m: usize = pattern.len();
    let mut j: usize = 0;
    while j < m
        invariant
            j <= m,
            m == pattern@.len(),
            n == line@.len(),
            at + m <= n,
            forall|k: int| 0 <= k < j ==> line@[at + k] == pattern@[k],
        decreases m - j,
    {
        if line[at + j] != pattern[j] {
            assert(line@.subrange(at as int, at + m)[j as int] != pattern@[j as int]);
            return false;
        }
        j = j + 1;
    }
    assert(line@.subrange(at as int, at + m) =~= pattern@);
    true
}

/// Tells whether `pattern` occurs in `line`.
pub fn contains_bytes(line: &[u8], pattern: &[u8]) -> (found: bool)
    ensures
        found == occurs(line@, pattern@),
{
    let n: usize = line.len();
    let m: usize = pattern.len();
    if m > n {
        return false;
    }
    let last: usize = n - m;
    let mut at: usize = 0;
    loop
        invariant
            at <= last,
            last == n - m,
            n == line@.len(),
            m == pattern@.len(),
            m <= n,
            forall|k: int| 0 <= k < at ==> !occurs_at(line@, pattern@, k),
        decreases last - at,
    {
        if matches_at(line, pattern, at) {
            return true;
        }
        if at == last {
            return false;
        }
        at = at + 1;
    }
}

/// Classifies a server line.
pub fn react(line: &[u8]) -> (reaction: Reaction)
    ensures
        reaction == reaction_to(line@),
{
    if !is_utf8(line) {
        Reaction::Ignore
    } else if contains_bytes(line, "Connecting...".as_bytes()) {
        Reaction::Acknowledge
    } else if contains_bytes(line, "Username:".as_bytes()) {
        Reaction::SendUsername
    } else if contains_bytes(line, "Password:".as_bytes()) {
        Reaction::SendPassword
    } else if contains_bytes(line, "You are connected".as_bytes()) {
        Reaction::MarkConnected
    } else {
        Reaction::Ignore
    }
}

/// The bytes to write to the session in answer to a prompt, if any.
pub fn reply(reaction: Reaction, params: &CrystalParams) -> (bytes: Option<Vec<u8>>)
    ensures
        match bytes {
            Some(b) => reply_to(reaction, *params) == Some(b@),
            None => reply_to(reaction, *params) is None,
        },
{
    match reaction {
        Reaction::Acknowledge => {
            let mut b: Vec<u8> = Vec::new();
            b.push(10u8);
            assert(b@ =~= seq![10u8]);
            Some(b)
        },
        Reaction::SendUsername => Some(params.mkt_data_username.as_str().as_bytes_vec()),
        Reaction::SendPassword => Some(params.mkt_data_password.as_str().as_bytes_vec()),
        Reaction::Ignore => None,
        Reaction::MarkConnected => None,
    }
}

/// The writes made on the session while `lines` are handled in order.
pub open spec fn writes_for(lines: Seq<Seq<u8>>, params: CrystalParams) -> Seq<Seq<u8>>
    decreases lines.len(),
{
    if lines.len() == 0 {
        Seq::empty()
    } else {
        match reply_to(reaction_to(lines.last()), params) {
            Some(bytes) => writes_for(lines.drop_last(), params).push(bytes),
            None => writes_for(lines.drop_last(), params),
        }
    }
}

/// The connected flag after `lines` were handled: once set it stays set.
pub open spec fn connected_after(connected: bool, lines: Seq<Seq<u8>>) -> bool
    decreases lines.len(),
{
    if lines.len() == 0 {
        connected
    } else {
        connected_after(connected, lines.drop_last()) || reaction_to(lines.last())
            == Reaction::MarkConnected
    }
}

/// How often the connected flag goes from clear to set while `lines` are
/// handled.
pub open spec fn connect_transitions(connected: bool, lines: Seq<Seq<u8>>) -> nat
    decreases lines.len(),
{
    if lines.len() == 0 {
        0
    } else {
        connect_transitions(connected, lines.drop_last()) + if !connected_after(
            connected,
            lines.drop_last(),
        ) && reaction_to(lines.last()) == Reaction::MarkConnected {
            1nat
        } else {
            0nat
        }
    }
}

/// The four lines with which the server leads a client through the login.
pub open spec fn login_script() -> Seq<Seq<u8>> {
    seq![
        "Connecting...\n".spec_bytes(),
        "Username:\n".spec_bytes(),
        "Password:\n".spec_bytes(),
        "You are connected\n".spec_bytes(),
    ]
}

/// The connected flag is set at most once, and never when it was set
/// before.
pub proof fn lemma_connects_once(connected: bool, lines: Seq<Seq<u8>>)
    ensures
        connect_transitions(connected, lines) <= 1,
        connected ==> connect_transitions(connected, lines) == 0,
        connected ==> connected_after(connected, lines),
        connect_transitions(connected, lines) == 1 ==> connected_after(connected, lines),
        !connected && connected_after(connected, lines) ==> connect_transitions(connected, lines)
            == 1,
    decreases lines.len(),
{
    if lines.len() > 0 {
        lemma_connects_once(connected, lines.drop_last());
    }
}

/// The bytes of a text that holds ASCII characters only: one byte for each
/// character, with the character's code, and well-formed as UTF-8.
pub proof fn lemma_ascii_text(text: &str)
    requires
        is_ascii_chars(text@),
    ensures
        text.spec_bytes().len() == text@.len(),
        forall|i: int| 0 <= i < text@.len() ==> #[trigger] text.spec_bytes()[i] == text@[i] as u8,
        valid_utf8(text.spec_bytes()),
{
    vstd::utf8::is_ascii_chars_encode_utf8(text@);
    vstd::utf8::encode_utf8_valid_utf8(text@);
}

/// A pattern whose first byte is nowhere in a line does not occur in it.
pub proof fn lemma_first_byte_absent(line: Seq<u8>, pattern: Seq<u8>)
    requires
        pattern.len() > 0,
        forall|i: int| 0 <= i < line.len() ==> line[i] != pattern[0],
    ensures
        !occurs(line, pattern),
{
    assert forall|at: int| !occurs_at(line, pattern, at) by {
        if occurs_at(line, pattern, at) {
            assert(line.subrange(at, at + pattern.len())[0] == pattern[0]);
        }
    }
}

/// A pattern that is a prefix of a line occurs in it.
pub proof fn lemma_prefix_occurs(line: Seq<u8>, pattern: Seq<u8>)
    requires
        pattern.len() <= line.len(),
        forall|i: int| 0 <= i < pattern.len() ==> line[i] == pattern[i],
    ensures
        occurs(line, pattern),
{
    assert(line.subrange(0, 0int + pattern.len()) =~= pattern);
    assert(occurs_at(line, pattern, 0));
}

/// Each line of the login script is the prompt it looks like.
pub proof fn lemma_script_reactions()
    ensures
        reaction_to(login_script()[0]) == Reaction::Acknowledge,
        reaction_to(login_script()[1]) == Reaction::SendUsername,
        reaction_to(login_script()[2]) == Reaction::SendPassword,
        reaction_to(login_script()[3]) == Reaction::MarkConnected,
{
    reveal_strlit("Connecting...");
    reveal_strlit("Username:");
    reveal_strlit("Password:");
    reveal_strlit("You are connected");
    reveal_strlit("Connecting...\n");
    reveal_strlit("Username:\n");
    reveal_strlit("Password:\n");
    reveal_strlit("You are connected\n");
    lemma_ascii_text("Connecting...");
    lemma_ascii_text("Username:");
    lemma_ascii_text("Password:");
    lemma_ascii_text("You are connected");
    lemma_ascii_text("Connecting...\n");
    lemma_ascii_text("Username:\n");
    lemma_ascii_text("Password:\n");
    lemma_ascii_text("You are connected\n");
    let l0 = "Connecting...\n".spec_bytes();
    let l1 = "Username:\n".spec_bytes();
    let l2 = "Password:\n".spec_bytes();
    let l3 = "You are connected\n".spec_bytes();
    lemma_prefix_occurs(l0, prompt_connecting());
    lemma_first_byte_absent(l1, prompt_connecting());
    lemma_prefix_occurs(l1, prompt_username());
    lemma_first_byte_absent(l2, prompt_connecting());
    lemma_first_byte_absent(l2, prompt_username());
    lemma_prefix_occurs(l2, prompt_password());
    lemma_first_byte_absent(l3, prompt_connecting());
    lemma_first_byte_absent(l3, prompt_username());
    lemma_first_byte_absent(l3, prompt_password());
    lemma_prefix_occurs(l3, prompt_connected());
}

/// The login dialogue: handling the login script makes exactly three
/// writes, the bare newline, the login name and the password, in this
/// order, and sets the connected flag exactly once.
pub proof fn lemma_login_dialogue(params: CrystalParams)
    ensures
        writes_for(login_script(), params) == seq![
            seq![10u8],
            encode_utf8(params.mkt_data_username@),
            encode_utf8(params.mkt_data_password@),
        ],
        connect_transitions(false, login_script()) == 1,
        connected_after(false, login_script()),
{
    lemma_script_reactions();
    let script = login_script();
    let three = script.drop_last();
    let two = three.drop_last();
    let one = two.drop_last();
    let none = one.drop_last();
    assert(none.len() == 0);
    assert(three.last() == script[2] && two.last() == script[1] && one.last() == script[0]);
    assert(writes_for(none, params) =~= Seq::<Seq<u8>>::empty());
    assert(writes_for(one, params) =~= seq![seq![10u8]]);
    assert(writes_for(two, params) =~= seq![seq![10u8], encode_utf8(params.mkt_data_username@)]);
    assert(writes_for(three, params) =~= seq![
        seq![10u8],
        encode_utf8(params.mkt_data_username@),
        encode_utf8(params.mkt_data_password@),
    ]);
    assert(writes_for(script, params) =~= writes_for(three, params));
    assert(!connected_after(false, none));
    assert(!connected_after(false, one));
    assert(!connected_after(false, two));
    assert(!connected_after(false, three));
    assert(connect_transitions(false, none) == 0);
    assert(connect_transitions(false, one) == 0);
    assert(connect_transitions(false, two) == 0);
    assert(connect_transitions(false, three) == 0);
}

} // verus!
