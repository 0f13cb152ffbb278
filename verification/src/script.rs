//! Script generators: filling in a command template, and what becomes of a
//! script's output.
use crate::encoding;
use crate::encoding::decode_lossy;
use crate::text;
use crate::text_parts;
use vstd::prelude::*;
use vstd::string::*;

verus! {

/// The most bytes of a word that go into a command.
pub const MAX_SUBSTITUTION_LEN: usize = 1024;

/// The most bytes of a script's output that are kept.
pub const MAX_GENERATOR_STDOUT_BYTES: usize = 1048576;

// ---------------------------------------------------------------------------
// Templates
// ---------------------------------------------------------------------------
/// What stands in for a placeholder: the word, cut to the limit, or nothing.
pub open spec fn filling(token: Option<Seq<char>>) -> Seq<char> {
    match token {
        Some(t) => encoding::cut(t, MAX_SUBSTITUTION_LEN as nat),
        None => Seq::empty(),
    }
}

/// A part of a command with its placeholders filled in, the one for the
/// previous word first.
pub open spec fn filled(
    part: Seq<char>,
    prev: Option<Seq<char>>,
    current: Option<Seq<char>>,
) -> Seq<char> {
    text_parts::replaced(
        text_parts::replaced(part, "{prev_token}"@, filling(prev)),
        "{current_token}"@,
        filling(current),
    )
}

/// What is filled in is the longest beginning of the word that keeps the limit.
pub proof fn law_filling(token: Seq<char>)
    ensures
        encoding::byte_len(filling(Some(token))) <= MAX_SUBSTITUTION_LEN,
        filling(Some(token)).is_prefix_of(token),
        encoding::byte_len(token) <= MAX_SUBSTITUTION_LEN ==> filling(Some(token)) == token,
        filling(Some(token)) != token ==> encoding::byte_len(
            token.take(filling(Some(token)).len() as int + 1),
        ) > MAX_SUBSTITUTION_LEN,
{
    encoding::law_cut(token, MAX_SUBSTITUTION_LEN as nat);
}

proof fn lemma_nothing_replaced(s: Seq<char>, from: Seq<char>, to: Seq<char>, i: int)
    requires
        0 <= i <= s.len(),
        forall|k: int| !#[trigger] text_parts::occurs_at(s, from, k),
    ensures
        text_parts::replaced_from(s, from, to, i) == s.skip(i),
    decreases s.len() - i,
{
    if i < s.len() {
        lemma_nothing_replaced(s, from, to, i + 1);
        assert(seq![s[i]] + s.skip(i + 1) =~= s.skip(i));
    } else {
        assert(s.skip(i) =~= Seq::empty());
    }
}

/// A part without placeholders stays as it is, whatever the words are.
pub proof fn law_no_placeholder(
    part: Seq<char>,
    prev: Option<Seq<char>>,
    current: Option<Seq<char>>,
)
    requires
        forall|k: int| !#[trigger] text_parts::occurs_at(part, "{prev_token}"@, k),
        forall|k: int| !#[trigger] text_parts::occurs_at(part, "{current_token}"@, k),
    ensures
        filled(part, prev, current) == part,
{
    lemma_nothing_replaced(part, "{prev_token}"@, filling(prev), 0);
    assert(part.skip(0) =~= part);
    lemma_nothing_replaced(part, "{current_token}"@, filling(current), 0);
}

/// A part that is nothing but the placeholder for the previous word becomes
/// the word, unless the word itself holds the other placeholder.
pub proof fn law_whole_placeholder(token: Seq<char>, current: Option<Seq<char>>)
    requires
        forall|k: int|
            !#[trigger] text_parts::occurs_at(filling(Some(token)), "{current_token}"@, k),
    ensures
        filled("{prev_token}"@, Some(token), current) == filling(Some(token)),
{
    let p = "{prev_token}"@;
    let w = filling(Some(token));
    reveal_strlit("{prev_token}");
    assert(p.subrange(0, p.len() as int) =~= p);
    assert(text_parts::occurs_at(p, p, 0));
    assert(text_parts::replaced_from(p, p, w, 0) == w + text_parts::replaced_from(
        p,
        p,
        w,
        p.len() as int,
    ));
    assert(text_parts::replaced(p, p, w) =~= w);
    lemma_nothing_replaced(w, "{current_token}"@, filling(current), 0);
    assert(w.skip(0) =~= w);
}

fn fill(token: Option<&str>) -> (r: String)
    ensures
        r@ == filling(
            match token {
                Some(t) => Some(t@),
                None => None,
            },
        ),
{
    match token {
        Some(t) => encoding::truncate_utf8(t, MAX_SUBSTITUTION_LEN),
        None => String::new(),
    }
}

/// A command with the placeholders for the previous and the current word
/// filled in.
pub fn substitute_template(
    template: &Vec<String>,
    prev_token: Option<&str>,
    current_token: Option<&str>,
) -> (r: Vec<String>)
    ensures
        text::views(r@) == text::views(template@).map_values(
            |part: Seq<char>|
                filled(
                    part,
                    match prev_token {
                        Some(t) => Some(t@),
                        None => None,
                    },
                    match current_token {
                        Some(t) => Some(t@),
                        None => None,
                    },
                ),
        ),
{
    let prev = fill(prev_token);
    let current = fill(current_token);
    let ghost p: Option<Seq<char>> = match prev_token {
        Some(t) => Some(t@),
        None => None,
    };
    let ghost c: Option<Seq<char>> = match current_token {
        Some(t) => Some(t@),
        None => None,
    };
    let mut out: Vec<String> = Vec::new();
    let mut i: usize = 0;
    proof {
        reveal_strlit("{prev_token}");
        reveal_strlit("{current_token}");
    }
    while i < template.len()
        invariant
            i <= template.len(),
            out.len() == i,
            prev@ == filling(p),
            current@ == filling(c),
            "{prev_token}"@.len() > 0,
            "{current_token}"@.len() > 0,
            forall|j: int| 0 <= j < i ==> (#[trigger] out@[j])@ == filled(template@[j]@, p, c),
        decreases template.len() - i,
    {
        let first = text_parts::replace_all(&template[i], "{prev_token}", &prev);
        out.push(text_parts::replace_all(&first, "{current_token}", &current));
        i += 1;
    }
    assert(text::views(out@) =~= text::views(template@).map_values(
        |part: Seq<char>|
            filled(
                part,
                match prev_token {
                    Some(t) => Some(t@),
                    None => None,
                },
                match current_token {
                    Some(t) => Some(t@),
                    None => None,
                },
            ),
    ));
    out
}

/// Characters that a shell would act on.
pub open spec fn is_metacharacter(c: char) -> bool {
    c == '|' || c == ';' || c == '&' || c == '`' || c == '$'
}

/// Whether filling in changed a part so that it holds a character that a
/// shell would act on.
pub fn has_new_metacharacter(part: &str, result: &str) -> (r: bool)
    ensures
        r == (part@ != result@ && exists|i: int|
            0 <= i < result@.len() && is_metacharacter(#[trigger] result@[i])),
{
    if text::same(part, result) {
        return false;
    }
    let x = text::chars_of(result);
    let mut i: usize = 0;
    while i < x.len()
        invariant
            x@ == result@,
            i <= x.len(),
            part@ != result@,
            forall|j: int| 0 <= j < i ==> !is_metacharacter(#[trigger] result@[j]),
        decreases x.len() - i,
    {
        let c = x[i];
        if c == '|' || c == ';' || c == '&' || c == '`' || c == '$' {
            assert(is_metacharacter(result@[i as int]));
            return true;
        }
        i += 1;
    }
    false
}

// ---------------------------------------------------------------------------
// Output
// ---------------------------------------------------------------------------
/// Bytes with further ones behind them, as far as the limit allows.
pub open spec fn capped(kept: Seq<u8>, chunk: Seq<u8>) -> Seq<u8> {
    let all = kept + chunk;
    if all.len() <= MAX_GENERATOR_STDOUT_BYTES {
        all
    } else {
        all.take(MAX_GENERATOR_STDOUT_BYTES as int)
    }
}

/// However the output is cut into chunks, the same beginning of it is kept.
pub proof fn law_chunks_do_not_matter(kept: Seq<u8>, a: Seq<u8>, b: Seq<u8>)
    ensures
        capped(capped(kept, a), b) == capped(kept, a + b),
{
    assert(capped(capped(kept, a), b) =~= capped(kept, a + b));
}

/// What has been read from a script.
#[derive(Debug)]
pub struct ScriptOutput {
    pub stdout: Vec<u8>,
    pub stderr: Vec<u8>,
    pub stdout_done: bool,
    pub stderr_done: bool,
    /// Whether the limit on standard output is reached.
    pub truncated: bool,
}

fn take_chunk(buffer: &mut Vec<u8>, chunk: &[u8])
    requires
        old(buffer)@.len() <= MAX_GENERATOR_STDOUT_BYTES,
    ensures
        final(buffer)@ == capped(old(buffer)@, chunk@),
{
    let ghost before = buffer@;
    let mut i: usize = 0;
    while i < chunk.len() && buffer.len() < MAX_GENERATOR_STDOUT_BYTES
        invariant
            i <= chunk.len(),
            buffer@.len() <= MAX_GENERATOR_STDOUT_BYTES,
            buffer@ == before + chunk@.take(i as int),
        decreases chunk.len() - i,
    {
        buffer.push(chunk[i]);
        i += 1;
        assert(buffer@ =~= before + chunk@.take(i as int));
    }
    assert(buffer@ =~= capped(before, chunk@));
}

impl ScriptOutput {
    /// The limits are kept, and reaching the limit on standard output is
    /// noted.
    pub open spec fn wf(&self) -> bool {
        &&& self.stdout@.len() <= MAX_GENERATOR_STDOUT_BYTES
        &&& self.stderr@.len() <= MAX_GENERATOR_STDOUT_BYTES
        &&& self.truncated == (self.stdout@.len() == MAX_GENERATOR_STDOUT_BYTES)
    }

    /// Before anything is read.
    pub fn new() -> (r: ScriptOutput)
        ensures
            r.wf(),
            r.stdout@.len() == 0,
            r.stderr@.len() == 0,
            !r.stdout_done,
            !r.stderr_done,
            !r.truncated,
    {
        ScriptOutput {
            stdout: Vec::new(),
            stderr: Vec::new(),
            stdout_done: false,
            stderr_done: false,
            truncated: false,
        }
    }

    /// Whether reading goes on: not once the limit on standard output is
    /// reached, nor when both streams have ended.
    pub fn wants_more(&self) -> (r: bool)
        ensures
            r == !(self.truncated || (self.stdout_done && self.stderr_done)),
    {
        !(self.truncated || (self.stdout_done && self.stderr_done))
    }

    /// Takes what was read from standard output. Nothing read means that the
    /// stream has ended.
    pub fn take_stdout(&mut self, chunk: &[u8])
        requires
            old(self).wf(),
        ensures
            final(self).wf(),
            final(self).stdout@ == capped(old(self).stdout@, chunk@),
            final(self).stdout_done == (old(self).stdout_done || chunk@.len() == 0),
            final(self).stderr@ == old(self).stderr@,
            final(self).stderr_done == old(self).stderr_done,
    {
        if chunk.len() == 0 {
            self.stdout_done = true;
            assert(capped(self.stdout@, chunk@) =~= self.stdout@);
        } else {
            take_chunk(&mut self.stdout, chunk);
            self.truncated = self.stdout.len() >= MAX_GENERATOR_STDOUT_BYTES;
        }
    }

    /// Takes what was read from standard error. Nothing read means that the
    /// stream has ended.
    pub fn take_stderr(&mut self, chunk: &[u8])
        requires
            old(self).wf(),
        ensures
            final(self).wf(),
            final(self).stderr@ == capped(old(self).stderr@, chunk@),
            final(self).stderr_done == (old(self).stderr_done || chunk@.len() == 0),
            final(self).stdout@ == old(self).stdout@,
            final(self).stdout_done == old(self).stdout_done,
    {
        if chunk.len() == 0 {
            self.stderr_done = true;
            assert(capped(self.stderr@, chunk@) =~= self.stderr@);
        } else {
            take_chunk(&mut self.stderr, chunk);
        }
    }
}

// ---------------------------------------------------------------------------
// Outcome
// ---------------------------------------------------------------------------
/// How a script ended.
#[derive(Debug)]
pub enum ScriptEnd {
    /// It could not be started.
    SpawnFailed(String),
    /// Its output could not be read.
    ReadFailed(String),
    /// It took too long.
    TimedOut,
    /// Its output was read, but its exit status is not known.
    WaitFailed(String),
    /// It ended, and whether successfully.
    Exited(bool),
}

/// Why a script has no result.
#[derive(Debug)]
pub enum ScriptError {
    EmptyCommand,
    Execution(String),
    Io(String),
    Timeout(u64),
    Wait(String),
}

/// Whether what was kept of a script's output is its result: where the script
/// succeeded, and where it was cut off at the limit, whatever its exit status
/// and even where that is not known.
pub open spec fn yields_output(output: ScriptOutput, end: ScriptEnd) -> bool {
    match end {
        ScriptEnd::WaitFailed(_) => output.truncated,
        ScriptEnd::Exited(success) => output.truncated || success,
        _ => false,
    }
}

/// What a script's end and output come to.
pub open spec fn outcome(
    argv_len: nat,
    timeout_ms: u64,
    output: ScriptOutput,
    end: ScriptEnd,
) -> Result<Seq<char>, ScriptError> {
    if argv_len == 0 {
        Err(ScriptError::EmptyCommand)
    } else {
        match end {
            ScriptEnd::SpawnFailed(e) => Err(ScriptError::Execution(e)),
            ScriptEnd::ReadFailed(e) => Err(ScriptError::Io(e)),
            ScriptEnd::TimedOut => Err(ScriptError::Timeout(timeout_ms)),
            ScriptEnd::WaitFailed(e) => if yields_output(output, end) {
                Ok(encoding::lossy_text(output.stdout@))
            } else {
                Err(ScriptError::Wait(e))
            },
            ScriptEnd::Exited(_) => if yields_output(output, end) {
                Ok(encoding::lossy_text(output.stdout@))
            } else {
                Ok(Seq::empty())
            },
        }
    }
}

/// The result of a script. One that is cut off at the limit yields what was
/// kept, whatever its exit status; one that fails yields nothing. Where a
/// script could not be started or read, or took too long, there is an error.
/// Output that is UTF-8 is yielded as it is.
pub fn script_result(
    argv: &Vec<String>,
    timeout_ms: u64,
    output: &ScriptOutput,
    end: ScriptEnd,
) -> (r: Result<String, ScriptError>)
    ensures
        match r {
            Ok(s) => outcome(argv@.len(), timeout_ms, *output, end) == Ok::<
                Seq<char>,
                ScriptError,
            >(s@),
            Err(e) => outcome(argv@.len(), timeout_ms, *output, end) == Err::<
                Seq<char>,
                ScriptError,
            >(e),
        },
        argv@.len() > 0 && yields_output(*output, end) && vstd::utf8::valid_utf8(output.stdout@)
            ==> (r matches Ok(s) && s@ == vstd::utf8::decode_utf8(output.stdout@)),
{
    if argv.len() == 0 {
        return Err(ScriptError::EmptyCommand);
    }
    match end {
        ScriptEnd::SpawnFailed(e) => Err(ScriptError::Execution(e)),
        ScriptEnd::ReadFailed(e) => Err(ScriptError::Io(e)),
        ScriptEnd::TimedOut => Err(ScriptError::Timeout(timeout_ms)),
        ScriptEnd::WaitFailed(e) => if output.truncated {
            Ok(decode_lossy(output.stdout.as_slice()))
        } else {
            Err(ScriptError::Wait(e))
        },
        ScriptEnd::Exited(success) => if output.truncated || success {
            Ok(decode_lossy(output.stdout.as_slice()))
        } else {
            Ok(String::new())
        },
    }
}

/// An error in words.
pub open spec fn error_text(e: ScriptError, argv: Seq<Seq<char>>) -> Seq<char> {
    match e {
        ScriptError::EmptyCommand => "empty script command"@,
        ScriptError::Execution(m) => "script execution failed for "@ + encoding::quoted_list(argv)
            + ": "@ + m@,
        ScriptError::Io(m) => "script I/O error for "@ + encoding::quoted_list(argv) + ": "@ + m@,
        ScriptError::Timeout(ms) => "script timed out after "@ + text::decimal(ms as nat) + "ms: "@
            + encoding::quoted_list(argv),
        ScriptError::Wait(m) => "script wait error for "@ + encoding::quoted_list(argv) + ": "@
            + m@,
    }
}

impl ScriptError {
    /// The error in words, for the command that it is about.
    pub fn message(&self, argv: &Vec<String>) -> (r: String)
        ensures
            r@ == error_text(*self, text::views(argv@)),
    {
        match self {
            ScriptError::EmptyCommand => "empty script command".to_owned(),
            ScriptError::Execution(m) => {
                let mut out = "script execution failed for ".to_owned();
                out.append(&encoding::quote_list(argv));
                out.append(": ");
                out.append(m);
                out
            },
            ScriptError::Io(m) => {
                let mut out = "script I/O error for ".to_owned();
                out.append(&encoding::quote_list(argv));
                out.append(": ");
                out.append(m);
                out
            },
            ScriptError::Timeout(ms) => {
                let mut out = "script timed out after ".to_owned();
                out.append(&text::decimal_of(*ms));
                out.append("ms: ");
                out.append(&encoding::quote_list(argv));
                out
            },
            ScriptError::Wait(m) => {
                let mut out = "script wait error for ".to_owned();
                out.append(&encoding::quote_list(argv));
                out.append(": ");
                out.append(m);
                out
            },
        }
    }
}

} // verus!
