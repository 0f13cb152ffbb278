//! What a script's template, output and end come to.
use crate::encoding;
use crate::script;
use crate::script::{ScriptEnd, ScriptError, ScriptOutput};
use crate::text;
use crate::text_parts;
use crate::text_parts_laws;
use vstd::prelude::*;
use vstd::string::*;

verus! {

// ---------------------------------------------------------------------------
// Templates
// ---------------------------------------------------------------------------
/// The placeholder for the word before the cursor is replaced by that word
/// wherever it stands, between whatever stands around it. Where there is no
/// such word, it goes.
pub proof fn law_previous_word(
    a: Seq<char>,
    b: Seq<char>,
    token: Option<Seq<char>>,
    w: Seq<char>,
    current: Option<Seq<char>>,
)
    requires
        token == Some(w) || (token is None && w.len() == 0),
        encoding::byte_len(w) <= 1024,
        forall|j: int|
            0 <= j < a.len() ==> !#[trigger] text_parts::occurs_at(
                a + "{prev_token}"@ + b,
                "{prev_token}"@,
                j,
            ),
        forall|j: int|
            0 <= j < b.len() ==> !#[trigger] text_parts::occurs_at(b, "{prev_token}"@, j),
        forall|j: int|
            0 <= j < (a + w + b).len() ==> !#[trigger] text_parts::occurs_at(
                a + w + b,
                "{current_token}"@,
                j,
            ),
    ensures
        script::filled(a + "{prev_token}"@ + b, token, current) == a + w + b,
{
    reveal_strlit("{prev_token}");
    reveal_strlit("{current_token}");
    let p = "{prev_token}"@;
    let c = "{current_token}"@;
    if let Some(t) = token {
        script::law_filling(t);
    } else {
        assert(w =~= Seq::empty());
    }
    assert(script::filling(token) == w);
    text_parts_laws::law_replaced(a, p, b, w);
    text_parts_laws::law_replaced(b, p, a, w);
    let r = a + w + b;
    text_parts_laws::law_replaced(r, c, r, script::filling(current));
}

/// The placeholder for the word at the cursor is replaced in the same way.
pub proof fn law_current_word(a: Seq<char>, b: Seq<char>, token: Option<Seq<char>>)
    requires
        forall|j: int|
            0 <= j < a.len() ==> !#[trigger] text_parts::occurs_at(
                a + "{current_token}"@ + b,
                "{current_token}"@,
                j,
            ),
        forall|j: int|
            0 <= j < b.len() ==> !#[trigger] text_parts::occurs_at(b, "{current_token}"@, j),
        forall|j: int|
            0 <= j < (a + "{current_token}"@ + b).len() ==> !#[trigger] text_parts::occurs_at(
                a + "{current_token}"@ + b,
                "{prev_token}"@,
                j,
            ),
        (token matches Some(t) ==> encoding::byte_len(t) <= 1024),
    ensures
        forall|prev: Option<Seq<char>>| #[trigger]
            script::filled(a + "{current_token}"@ + b, prev, token) == a + (match token {
                Some(t) => t,
                None => Seq::empty(),
            }) + b,
{
    reveal_strlit("{prev_token}");
    reveal_strlit("{current_token}");
    let p = "{prev_token}"@;
    let c = "{current_token}"@;
    let w = match token {
        Some(t) => t,
        None => Seq::empty(),
    };
    if let Some(t) = token {
        script::law_filling(t);
    }
    assert(script::filling(token) == w);
    let s = a + c + b;
    text_parts_laws::law_replaced(a, c, b, w);
    text_parts_laws::law_replaced(b, c, a, w);
    assert forall|prev: Option<Seq<char>>| #[trigger] script::filled(s, prev, token) == a + w
        + b by {
        text_parts_laws::law_replaced(s, p, s, script::filling(prev));
    }
}

/// The five characters that a shell acts on are told from all others.
pub proof fn law_metacharacters(c: char)
    ensures
        script::is_metacharacter(c) <==> c == '|' || c == ';' || c == '&' || c == '`' || c == '$',
{
}

// ---------------------------------------------------------------------------
// Output
// ---------------------------------------------------------------------------
/// Output is kept whole as long as it fits, and else as much of its beginning
/// as fits.
pub proof fn law_kept_output(kept: Seq<u8>, chunk: Seq<u8>)
    ensures
        kept.len() + chunk.len() <= 1048576 ==> script::capped(
            kept,
            chunk,
        ) == kept + chunk,
        kept.len() + chunk.len() > 1048576 ==> script::capped(
            kept,
            chunk,
        ).len() == 1048576 && script::capped(kept, chunk).is_prefix_of(
            kept + chunk,
        ),
{
}

/// A script that succeeds yields its output, and so does one that is cut off
/// at the limit, however it ended. One that fails yields nothing, and that is
/// no error.
pub proof fn law_script_ends(n: nat, ms: u64, output: ScriptOutput, success: bool, e: String)
    requires
        n > 0,
    ensures
        script::outcome(n, ms, output, ScriptEnd::Exited(true)) == Ok::<Seq<char>, ScriptError>(
            encoding::lossy_text(output.stdout@),
        ),
        output.truncated ==> script::outcome(n, ms, output, ScriptEnd::Exited(success)) == Ok::<
            Seq<char>,
            ScriptError,
        >(encoding::lossy_text(output.stdout@)),
        output.truncated ==> script::outcome(n, ms, output, ScriptEnd::WaitFailed(e)) == Ok::<
            Seq<char>,
            ScriptError,
        >(encoding::lossy_text(output.stdout@)),
        !output.truncated ==> script::outcome(n, ms, output, ScriptEnd::Exited(false)) == Ok::<
            Seq<char>,
            ScriptError,
        >(Seq::empty()),
        !output.truncated ==> script::outcome(n, ms, output, ScriptEnd::WaitFailed(e)) == Err::<
            Seq<char>,
            ScriptError,
        >(ScriptError::Wait(e)),
{
}

/// A script that could not be started, read or waited for is an error, and so
/// is one that took too long, whatever it printed. An empty command is an
/// error before anything else.
pub proof fn law_script_errors(
    n: nat,
    ms: u64,
    output: ScriptOutput,
    e: String,
    end: ScriptEnd,
)
    ensures
        n > 0 ==> script::outcome(n, ms, output, ScriptEnd::SpawnFailed(e)) == Err::<
            Seq<char>,
            ScriptError,
        >(ScriptError::Execution(e)),
        n > 0 ==> script::outcome(n, ms, output, ScriptEnd::ReadFailed(e)) == Err::<
            Seq<char>,
            ScriptError,
        >(ScriptError::Io(e)),
        n > 0 ==> script::outcome(n, ms, output, ScriptEnd::TimedOut) == Err::<
            Seq<char>,
            ScriptError,
        >(ScriptError::Timeout(ms)),
        script::outcome(0, ms, output, end) == Err::<Seq<char>, ScriptError>(
            ScriptError::EmptyCommand,
        ),
{
}

/// A message about a failed script names the command and gives the reason.
pub proof fn law_script_messages(e: String, ms: u64, argv: Seq<Seq<char>>)
    ensures
        script::error_text(ScriptError::Execution(e), argv) == "script execution failed for "@
            + encoding::quoted_list(argv) + ": "@ + e@,
        script::error_text(ScriptError::Io(e), argv) == "script I/O error for "@
            + encoding::quoted_list(argv) + ": "@ + e@,
        script::error_text(ScriptError::Wait(e), argv) == "script wait error for "@
            + encoding::quoted_list(argv) + ": "@ + e@,
        script::error_text(ScriptError::Timeout(ms), argv) == "script timed out after "@
            + text::decimal(ms as nat) + "ms: "@ + encoding::quoted_list(argv),
        script::error_text(ScriptError::EmptyCommand, argv) == "empty script command"@,
{
}

/// A list in a message stands in square brackets, its items quoted, with a
/// comma and a space between each two.
pub proof fn law_quoted_list(x: Seq<char>, rest: Seq<Seq<char>>)
    ensures
        encoding::quoted_list(Seq::empty()) == seq!['[', ']'],
        encoding::quoted_list(seq![x]) == seq!['['] + encoding::quoted(x) + seq![']'],
        rest.len() > 0 ==> seq!['['] + encoding::quoted(x) + seq![',', ' ']
            + encoding::quoted_list(rest).skip(1) == encoding::quoted_list(seq![x] + rest),
{
    reveal_strlit("[");
    reveal_strlit("]");
    reveal_strlit(", ");
    assert("["@ =~= seq!['[']);
    assert("]"@ =~= seq![']']);
    assert(", "@ =~= seq![',', ' ']);
    let q = |s: Seq<char>| encoding::quoted(s);
    let none = Seq::<Seq<char>>::empty();
    assert(none.map_values(q) =~= Seq::empty());
    assert(encoding::quoted_list(none) =~= seq!['[', ']']);
    assert(seq![x].map_values(q) =~= seq![q(x)]);
    text_parts_laws::law_joined(q(x), rest.map_values(q), ", "@);
    if rest.len() > 0 {
        assert((seq![x] + rest).map_values(q) =~= seq![q(x)] + rest.map_values(q));
        let j = text_parts::joined(rest.map_values(q), ", "@);
        assert(encoding::quoted_list(rest).skip(1) =~= j + seq![']']);
        assert(encoding::quoted_list(seq![x] + rest) =~= seq!['['] + encoding::quoted(x) + seq![
            ',',
            ' ',
        ] + encoding::quoted_list(rest).skip(1));
    }
}

} // verus!
