//! The connection user interface: what is shown, what is asked, and what an
//! answering party gets to see of where a question came from.

use crate::text::{chars_of, join2, join3, texts};
use vstd::prelude::*;
use vstd::utf8::encode_utf8;

verus! {

/// Marks an authentication prompt composed on this machine (a key file's
/// passphrase). A secret answered here never leaves the client.
pub const AUTH_ORIGIN_LOCAL: &'static str = "auth-origin:local";

/// Marks an authentication prompt relayed from the remote host. Its text is
/// chosen by the server, so it must not be answered with a local secret.
pub const AUTH_ORIGIN_SERVER: &'static str = "auth-origin:server";

/// What a prompt is told where there is no user.
pub const HEADLESS_INPUT: &'static str = "Input requested from headless context";

/// What is said to have been done when a user interface no longer takes
/// requests.
pub const SENDING_REQUEST: &'static str = "send to ConnectionUI failed";

/// What is shown while the window of a user interface that has ended stays.
pub const CLOSING_REASON: &'static str = "(this window will close automatically)";

/// What the window for errors is called.
pub const ERROR_TITLE: &'static str = "wezterm Configuration Error";

/// What stands in for each column of a password.
pub const PASSWORD_PLACEHOLDER: &'static str = "\u{1f511}";

/// One change of what is shown.
#[derive(Debug)]
pub enum Change {
    Text(String),
    Title(String),
    /// Anything that adds no text.
    Other,
}

/// What is asked of a user interface. `respond` names who waits for the result.
#[derive(Debug)]
pub enum UIRequest {
    /// Display something.
    Output(Vec<Change>),
    /// Request input. With `echo` the context is a host key message; without
    /// it, it says who composed a secret prompt.
    Input { prompt: String, echo: bool, context: Option<String>, respond: u64 },
    /// Sleep with a progress bar, for so many nanoseconds.
    Sleep { reason: String, duration: u128, respond: u64 },
    Close,
}

/// The texts among the changes, after each other.
pub open spec fn shown_text(changes: Seq<Change>) -> Seq<char>
    decreases changes.len(),
{
    if changes.len() == 0 {
        Seq::empty()
    } else {
        let rest = shown_text(changes.drop_last());
        match changes.last() {
            Change::Text(t) => rest + t@,
            _ => rest,
        }
    }
}

/// What a user interface has to do about a request.
#[derive(Debug)]
pub enum UiStep {
    /// Nothing more.
    Continue,
    /// End: it was asked to.
    Close,
    /// Show the changes.
    Render(Vec<Change>),
    /// Read a line, showing what is typed.
    ReadLine { prompt: String, respond: u64 },
    /// Read a line, hiding what is typed.
    ReadPassword { prompt: String, respond: u64 },
    /// Ask the answering party, with what it gets to know about the prompt.
    AskResponder { prompt: String, echo: bool, context: String, respond: u64 },
    /// Refuse, saying [`HEADLESS_INPUT`].
    RefuseInput { respond: u64 },
    Sleep { reason: String, duration: u128, respond: u64 },
}

/// A user interface whose prompts are answered by a party of the embedder.
pub struct Responder {
    pending_output: String,
}

/// What an answering party is told about a prompt: its own context, or where it
/// has none, the text put out since the prompt before it.
pub open spec fn prompt_context(pending: Seq<char>, context: Option<String>) -> Seq<char> {
    match context {
        Some(c) => c@,
        None => pending,
    }
}

/// What an answering party is asked.
#[verifier::ext_equal]
pub struct Asked {
    pub prompt: Seq<char>,
    pub echo: bool,
    pub context: Seq<char>,
    pub respond: u64,
}

/// What is shown and not yet accounted for after a request.
pub open spec fn pending_after(pending: Seq<char>, request: UIRequest) -> Seq<char> {
    match request {
        UIRequest::Output(changes) => pending + shown_text(changes@),
        UIRequest::Input { .. } => Seq::empty(),
        _ => pending,
    }
}

/// What the answering party is asked about a request.
pub open spec fn asked_by(pending: Seq<char>, request: UIRequest) -> Seq<Asked> {
    match request {
        UIRequest::Input { prompt, echo, context, respond } => seq![
            Asked {
                prompt: prompt@,
                echo,
                context: prompt_context(pending, context),
                respond,
            },
        ],
        _ => Seq::empty(),
    }
}

impl UiStep {
    /// What an answering party is asked by a step.
    pub open spec fn asks(self) -> Seq<Asked> {
        match self {
            UiStep::AskResponder { prompt, echo, context, respond } => seq![
                Asked { prompt: prompt@, echo, context: context@, respond },
            ],
            _ => Seq::empty(),
        }
    }
}

impl Responder {
    /// What was shown since the last prompt.
    pub closed spec fn pending(&self) -> Seq<char> {
        self.pending_output@
    }

    pub fn new() -> (r: Responder)
        ensures
            r.pending() == Seq::<char>::empty(),
    {
        Responder { pending_output: String::new() }
    }

    /// Takes one request. Shown text is kept until the next prompt, which gets
    /// it as context only where it brings no context of its own; either way
    /// nothing of it is left for a later prompt.
    pub fn step(&mut self, request: UIRequest) -> (step: UiStep)
        ensures
            final(self).pending() == pending_after(old(self).pending(), request),
            step.asks() == asked_by(old(self).pending(), request),
            step.sleep_made() == request.sleep_asked(),
            step is Close <==> request is Close,
            match request {
                UIRequest::Close => step is Close,
                UIRequest::Output(changes) => step is Continue,
                UIRequest::Input { prompt, .. } => step is AskResponder
                    && step->AskResponder_prompt == prompt,
                UIRequest::Sleep { reason, duration, respond } => step == (UiStep::Sleep {
                    reason,
                    duration,
                    respond,
                }),
            },
    {
        match request {
            UIRequest::Close => UiStep::Close,
            UIRequest::Output(changes) => {
                let mut i: usize = 0;
                assert(changes@.take(0) == Seq::<Change>::empty());
                assert(self.pending_output@ == old(self).pending_output@ + shown_text(
                    changes@.take(0),
                ));
                while i < changes.len()
                    invariant
                        i <= changes.len(),
                        self.pending_output@ == old(self).pending_output@ + shown_text(
                            changes@.take(i as int),
                        ),
                    decreases changes.len() - i,
                {
                    assert(changes@.take(i + 1).drop_last() == changes@.take(i as int));
                    assert(changes@.take(i + 1).last() == changes@[i as int]);
                    if let Change::Text(text) = &changes[i] {
                        self.pending_output.append(text.as_str());
                    }
                    i = i + 1;
                    assert(self.pending_output@ == old(self).pending_output@ + shown_text(
                        changes@.take(i as int),
                    ));
                }
                assert(changes@.take(i as int) == changes@);
                UiStep::Continue
            },
            UIRequest::Input { prompt, echo, context, respond } => {
                let mut buffered = String::new();
                std::mem::swap(&mut buffered, &mut self.pending_output);
                let context = match context {
                    Some(c) => c,
                    None => buffered,
                };
                UiStep::AskResponder { prompt, echo, context, respond }
            },
            UIRequest::Sleep { reason, duration, respond } => UiStep::Sleep {
                reason,
                duration,
                respond,
            },
        }
    }
}

/// Whatever was put out before a prompt that carries its own context, the
/// context of the prompt is what it carries: a server's banner cannot add to
/// the message of a host verification.
pub proof fn typed_context_cannot_be_added_to(pending: Seq<char>, context: Option<String>)
    requires
        context is Some,
    ensures
        prompt_context(pending, context) == context->0@,
{
}

/// What is shown and not yet accounted for after the first `n` requests.
pub open spec fn pending_at(requests: Seq<UIRequest>, n: nat) -> Seq<char>
    decreases n,
{
    if n == 0 {
        Seq::empty()
    } else {
        pending_after(pending_at(requests, (n - 1) as nat), requests[n - 1])
    }
}

/// What the answering party is asked over the first `n` requests.
pub open spec fn asked_over(requests: Seq<UIRequest>, n: nat) -> Seq<Asked>
    decreases n,
{
    if n == 0 {
        Seq::empty()
    } else {
        asked_over(requests, (n - 1) as nat) + asked_by(
            pending_at(requests, (n - 1) as nat),
            requests[n - 1],
        )
    }
}

/// The place after the last prompt among the first `n` requests.
pub open spec fn after_last_prompt(requests: Seq<UIRequest>, n: nat) -> nat
    decreases n,
{
    if n == 0 || requests[n - 1] is Input {
        n
    } else {
        after_last_prompt(requests, (n - 1) as nat)
    }
}

/// The texts put out by the requests from `from` up to `to`, after each other.
pub open spec fn text_between(requests: Seq<UIRequest>, from: nat, to: nat) -> Seq<char>
    decreases to,
{
    if to <= from {
        Seq::empty()
    } else {
        text_between(requests, from, (to - 1) as nat) + match requests[to - 1] {
            UIRequest::Output(changes) => shown_text(changes@),
            _ => Seq::empty(),
        }
    }
}

/// The prompts among the first `n` requests, in order, each with the context it
/// brings or else with all the text put out since the prompt before it.
pub open spec fn prompts_of(requests: Seq<UIRequest>, n: nat) -> Seq<Asked>
    decreases n,
{
    if n == 0 {
        Seq::empty()
    } else {
        let i = (n - 1) as nat;
        prompts_of(requests, i) + match requests[n - 1] {
            UIRequest::Input { prompt, echo, context, respond } => seq![
                Asked {
                    prompt: prompt@,
                    echo,
                    context: match context {
                        Some(c) => c@,
                        None => text_between(requests, after_last_prompt(requests, i), i),
                    },
                    respond,
                },
            ],
            _ => Seq::empty(),
        }
    }
}

proof fn lemma_pending_is_text_since_the_last_prompt(requests: Seq<UIRequest>, n: nat)
    ensures
        after_last_prompt(requests, n) <= n,
        pending_at(requests, n) == text_between(requests, after_last_prompt(requests, n), n),
    decreases n,
{
    if n > 0 {
        let i = (n - 1) as nat;
        lemma_pending_is_text_since_the_last_prompt(requests, i);
        if !(requests[n - 1] is Input) {
            assert(pending_at(requests, i) + Seq::<char>::empty() == pending_at(requests, i));
        }
    }
}

/// Over a whole sequence of requests the answering party is asked exactly once
/// for each prompt, in order, with the prompt, whether the answer is shown, and
/// the context that the prompt brings or else all the text put out since the
/// prompt before it. Nothing else that is shown adds to it.
pub proof fn every_prompt_is_asked_once(requests: Seq<UIRequest>, n: nat)
    requires
        n <= requests.len(),
    ensures
        asked_over(requests, n) == prompts_of(requests, n),
    decreases n,
{
    if n > 0 {
        let i = (n - 1) as nat;
        every_prompt_is_asked_once(requests, i);
        lemma_pending_is_text_since_the_last_prompt(requests, i);
        assert(asked_over(requests, n) == prompts_of(requests, n));
    }
}

pub open spec fn declined_text(shown: Seq<char>) -> Seq<char> {
    "Input prompt "@ + shown + " declined by embedded responder"@
}

/// What a prompt comes to once the answering party has spoken: its answer, or
/// that it declined. `shown` is the prompt as it is shown in an error, in quotes.
pub fn responder_answer(answer: Option<String>, shown: &str) -> (r: Result<String, String>)
    ensures
        match answer {
            Some(a) => r == Ok::<String, String>(a),
            None => r is Err && r->Err_0@ == declined_text(shown@),
        },
{
    match answer {
        Some(a) => Ok(a),
        None => Err(join3("Input prompt ", shown, " declined by embedded responder")),
    }
}

impl UIRequest {
    /// The sleep that is asked for, if one is.
    pub open spec fn sleep_asked(self) -> Option<(String, u128, u64)> {
        match self {
            UIRequest::Sleep { reason, duration, respond } => Some((reason, duration, respond)),
            _ => None,
        }
    }
}

impl UiStep {
    /// The sleep that a step makes, if it makes one.
    pub open spec fn sleep_made(self) -> Option<(String, u128, u64)> {
        match self {
            UiStep::Sleep { reason, duration, respond } => Some((reason, duration, respond)),
            _ => None,
        }
    }
}

/// What a user interface without a user does about a request.
pub open spec fn headless_answer(request: UIRequest) -> UiStep {
    match request {
        UIRequest::Close => UiStep::Close,
        UIRequest::Output(_) => UiStep::Continue,
        UIRequest::Input { respond, .. } => UiStep::RefuseInput { respond },
        UIRequest::Sleep { reason, duration, respond } => UiStep::Sleep {
            reason,
            duration,
            respond,
        },
    }
}

/// What the terminal user interface does about a request.
pub open spec fn terminal_answer(request: UIRequest) -> UiStep {
    match request {
        UIRequest::Close => UiStep::Close,
        UIRequest::Output(changes) => UiStep::Render(changes),
        UIRequest::Input { prompt, echo, respond, .. } => if echo {
            UiStep::ReadLine { prompt, respond }
        } else {
            UiStep::ReadPassword { prompt, respond }
        },
        UIRequest::Sleep { reason, duration, respond } => UiStep::Sleep {
            reason,
            duration,
            respond,
        },
    }
}

/// What a user interface without a user does about a request.
pub fn headless_step(request: UIRequest) -> (step: UiStep)
    ensures
        step == match request {
            UIRequest::Close => UiStep::Close,
            UIRequest::Output(_) => UiStep::Continue,
            UIRequest::Input { respond, .. } => UiStep::RefuseInput { respond },
            UIRequest::Sleep { reason, duration, respond } => UiStep::Sleep {
                reason,
                duration,
                respond,
            },
        },
        step == headless_answer(request),
        step.sleep_made() == request.sleep_asked(),
        step is Close <==> request is Close,
{
    match request {
        UIRequest::Close => UiStep::Close,
        UIRequest::Output(_) => UiStep::Continue,
        UIRequest::Input { respond, .. } => UiStep::RefuseInput { respond },
        UIRequest::Sleep { reason, duration, respond } => UiStep::Sleep {
            reason,
            duration,
            respond,
        },
    }
}

/// What the terminal user interface does about a request. The context of a
/// prompt is not for it.
pub fn terminal_step(request: UIRequest) -> (step: UiStep)
    ensures
        step == match request {
            UIRequest::Close => UiStep::Close,
            UIRequest::Output(changes) => UiStep::Render(changes),
            UIRequest::Input { prompt, echo, respond, .. } => if echo {
                UiStep::ReadLine { prompt, respond }
            } else {
                UiStep::ReadPassword { prompt, respond }
            },
            UIRequest::Sleep { reason, duration, respond } => UiStep::Sleep {
                reason,
                duration,
                respond,
            },
        },
        step == terminal_answer(request),
        step.sleep_made() == request.sleep_asked(),
        step is Close <==> request is Close,
{
    match request {
        UIRequest::Close => UiStep::Close,
        UIRequest::Output(changes) => UiStep::Render(changes),
        UIRequest::Input { prompt, echo, respond, .. } => if echo {
            UiStep::ReadLine { prompt, respond }
        } else {
            UiStep::ReadPassword { prompt, respond }
        },
        UIRequest::Sleep { reason, duration, respond } => UiStep::Sleep {
            reason,
            duration,
            respond,
        },
    }
}

pub open spec fn cancelled_text(echo: bool) -> Seq<char> {
    if echo {
        "prompt cancelled"@
    } else {
        "password entry was cancelled"@
    }
}

/// What a prompt comes to on a terminal: the line that was entered, or that none
/// was.
pub fn line_answer(line: Option<String>, echo: bool) -> (r: Result<String, String>)
    ensures
        match line {
            Some(l) => r == Ok::<String, String>(l),
            None => r is Err && r->Err_0@ == cancelled_text(echo),
        },
{
    match line {
        Some(l) => Ok(l),
        None => Err(
            if echo {
                "prompt cancelled".to_owned()
            } else {
                "password entry was cancelled".to_owned()
            },
        ),
    }
}

/// What is said where no more requests can come.
pub fn no_more_requests(error: &str) -> (s: String)
    ensures
        s@ == "recv_timeout: "@ + error@,
{
    join2("recv_timeout: ", error)
}

/// How a user interface came to its end.
#[derive(Debug, Clone, Copy, PartialEq, Eq, Structural)]
pub enum CloseStatus {
    Explicit,
    Implicit,
}

/// How long the window of a user interface that has ended stays, in seconds:
/// one that was not closed on purpose stays a while, unless that is ruled out.
pub fn close_delay(status: CloseStatus, disable_close_delay: bool) -> (r: Option<u64>)
    ensures
        r == (if !disable_close_delay && status is Implicit {
            Some(120u64)
        } else {
            None
        }),
{
    if !disable_close_delay && status == CloseStatus::Implicit {
        Some(120)
    } else {
        None
    }
}

/// A text with a carriage return put ahead of every line feed.
pub open spec fn with_crlf(s: Seq<char>) -> Seq<char>
    decreases s.len(),
{
    if s.len() == 0 {
        Seq::empty()
    } else if s.last() == '\n' {
        with_crlf(s.drop_last()).push('\r').push('\n')
    } else {
        with_crlf(s.drop_last()).push(s.last())
    }
}

/// Puts a carriage return ahead of every line feed.
pub fn crlf(s: &str) -> (r: String)
    ensures
        r@ == with_crlf(s@),
{
    let v = chars_of(s);
    assert(v@.subrange(0, v@.len() as int) == v@);
    crlf_range(&v, 0, v.len())
}

fn crlf_range(v: &Vec<char>, from: usize, to: usize) -> (r: String)
    requires
        from <= to <= v@.len(),
    ensures
        r@ == with_crlf(v@.subrange(from as int, to as int)),
{
    let mut r = String::new();
    let mut i: usize = from;
    assert(v@.subrange(from as int, from as int) == Seq::<char>::empty());
    while i < to
        invariant
            from <= i <= to <= v@.len(),
            r@ == with_crlf(v@.subrange(from as int, i as int)),
        decreases to - i,
    {
        let c: char = v[i];
        if c == '\n' {
            r.push('\r');
        }
        r.push(c);
        i = i + 1;
        assert(v@.subrange(from as int, i as int).drop_last() == v@.subrange(
            from as int,
            i - 1,
        ));
        assert(v@.subrange(from as int, i as int).last() == c);
    }
    r
}

/// What is shown for a text.
pub fn output_str(s: &str) -> (changes: Vec<Change>)
    ensures
        changes@.len() == 1,
        changes@[0] is Text,
        changes@[0]->Text_0@ == with_crlf(s@),
{
    let mut changes: Vec<Change> = Vec::new();
    changes.push(Change::Text(crlf(s)));
    changes
}

/// Where the last line begins: after the last line feed, if there is one.
pub open spec fn last_line_start(s: Seq<char>) -> int
    decreases s.len(),
{
    if s.len() == 0 {
        0
    } else if s.last() == '\n' {
        s.len() as int
    } else {
        last_line_start(s.drop_last())
    }
}

/// A prompt taken apart into what goes before it and its last line.
#[derive(Debug)]
pub struct SplitPrompt {
    pub preamble: Option<String>,
    pub prompt: String,
}

/// Takes a prompt of several lines apart: everything up to the last line feed,
/// and the line after it.
pub fn split_multi_line_prompt(s: &str) -> (r: SplitPrompt)
    ensures
        r.prompt@ == s@.skip(last_line_start(s@)),
        match r.preamble {
            Some(p) => last_line_start(s@) > 0 && p@ == with_crlf(s@.take(last_line_start(s@))),
            None => last_line_start(s@) == 0,
        },
{
    let v = chars_of(s);
    let n: usize = v.len();
    let mut start: usize = n;
    assert(v@.take(n as int) == v@);
    while start > 0 && v[start - 1] != '\n'
        invariant
            start <= n,
            n == v@.len(),
            v@ == s@,
            last_line_start(s@) == last_line_start(s@.take(start as int)),
            forall|j: int| start <= j < n ==> s@[j] != '\n',
        decreases start,
    {
        assert(s@.take(start as int).drop_last() == s@.take(start - 1));
        assert(s@.take(start as int).last() == s@[start - 1]);
        start = start - 1;
    }
    proof {
        if start > 0 {
            assert(s@.take(start as int).last() == s@[start - 1]);
        }
    }
    assert(last_line_start(s@) == start);
    assert(v@.subrange(start as int, n as int) == s@.skip(start as int));
    assert(v@.subrange(0, start as int) == s@.take(start as int));
    proof {
        lemma_no_newline(s@.skip(start as int));
    }
    let prompt = crlf_range(&v, start, n);
    if start > 0 {
        SplitPrompt { preamble: Some(crlf_range(&v, 0, start)), prompt }
    } else {
        SplitPrompt { preamble: None, prompt }
    }
}

proof fn lemma_no_newline(s: Seq<char>)
    requires
        forall|i: int| 0 <= i < s.len() ==> s[i] != '\n',
    ensures
        with_crlf(s) == s,
    decreases s.len(),
{
    if s.len() > 0 {
        lemma_no_newline(s.drop_last());
        assert(s == s.drop_last().push(s.last()));
    }
}

proof fn lemma_crlf_concat(a: Seq<char>, b: Seq<char>)
    ensures
        with_crlf(a + b) == with_crlf(a) + with_crlf(b),
    decreases b.len(),
{
    if b.len() == 0 {
        assert(a + b == a);
        assert(with_crlf(a) + with_crlf(b) == with_crlf(a));
    } else {
        lemma_crlf_concat(a, b.drop_last());
        assert((a + b).drop_last() == a + b.drop_last());
        assert((a + b).last() == b.last());
    }
}

proof fn lemma_last_line(s: Seq<char>)
    ensures
        0 <= last_line_start(s) <= s.len(),
        forall|i: int| last_line_start(s) <= i < s.len() ==> s[i] != '\n',
    decreases s.len(),
{
    if s.len() > 0 && s.last() != '\n' {
        lemma_last_line(s.drop_last());
        assert forall|i: int| last_line_start(s) <= i < s.len() implies s[i] != '\n' by {
            if i < s.len() - 1 {
                assert(s.drop_last()[i] == s[i]);
            }
        }
    }
}

/// Taking a prompt apart loses nothing: its parts, after each other, are what
/// the prompt itself would show, and its last line holds no line feed.
pub proof fn prompt_parts_make_the_prompt(s: Seq<char>)
    ensures
        with_crlf(s.take(last_line_start(s))) + s.skip(last_line_start(s)) == with_crlf(s),
        forall|i: int|
            0 <= i < s.skip(last_line_start(s)).len() ==> s.skip(last_line_start(s))[i] != '\n',
{
    lemma_last_line(s);
    let k = last_line_start(s);
    lemma_no_newline(s.skip(k));
    lemma_crlf_concat(s.take(k), s.skip(k));
    assert(s == s.take(k) + s.skip(k));
}

/// The grapheme clusters of a text, as finl_unicode finds them.
pub uninterp spec fn grapheme_clusters(text: Seq<char>) -> Seq<Seq<char>>;

/// Texts after each other.
pub open spec fn joined(parts: Seq<Seq<char>>) -> Seq<char>
    decreases parts.len(),
{
    if parts.len() == 0 {
        Seq::empty()
    } else {
        joined(parts.drop_last()) + parts.last()
    }
}

/// `finl_unicode::grapheme_clusters::Graphemes` walks the grapheme clusters of
/// a text, which depend on the text alone. They are pieces of the text that
/// follow each other from its beginning to its end.
#[verifier::external_body]
fn graphemes(text: &str) -> (r: Vec<String>)
    ensures
        texts(r@) == grapheme_clusters(text@),
        joined(texts(r@)) == text@,
{
    finl_unicode::grapheme_clusters::Graphemes::new(text).map(|g| g.to_owned()).collect()
}

/// How a span of time is shown, rounded to a whole number of its unit.
pub uninterp spec fn rounded_duration(secs: u64, nanos: u32) -> Seq<char>;

/// The `Debug` form of `std::time::Duration`, with no digits after the point.
#[verifier::external_body]
fn duration_text(secs: u64, nanos: u32) -> (s: String)
    requires
        nanos < 1_000_000_000,
    ensures
        s@ == rounded_duration(secs, nanos),
{
    format!("{:.0?}", std::time::Duration::new(secs, nanos))
}

/// The two halves of a progress bar: the elapsed part is shown reversed.
#[derive(Debug)]
pub struct Bar {
    pub reversed: String,
    pub plain: String,
}

/// So many blanks.
pub open spec fn blanks(n: int) -> Seq<char> {
    Seq::new(
        if n > 0 {
            n as nat
        } else {
            0
        },
        |i: int| ' ',
    )
}

/// The clusters up to and including the one at the elapsed column go to the
/// elapsed half, which is filled up with blanks where the text is shorter; the
/// others go to the other half.
pub open spec fn bar_halves(clusters: Seq<Seq<char>>, width: nat) -> (Seq<char>, Seq<char>) {
    if clusters.len() <= width + 1 {
        (joined(clusters) + blanks(width - clusters.len()), Seq::empty())
    } else {
        (joined(clusters.take((width + 1) as int)), joined(clusters.skip((width + 1) as int)))
    }
}

proof fn lemma_joined_take(parts: Seq<Seq<char>>, i: int)
    requires
        0 <= i < parts.len(),
    ensures
        joined(parts.take(i + 1)) == joined(parts.take(i)) + parts[i],
{
    assert(parts.take(i + 1).drop_last() == parts.take(i));
}

proof fn lemma_joined_concat(a: Seq<Seq<char>>, b: Seq<Seq<char>>)
    ensures
        joined(a + b) == joined(a) + joined(b),
    decreases b.len(),
{
    if b.len() == 0 {
        assert(a + b == a);
        assert(joined(a) + joined(b) == joined(a));
    } else {
        lemma_joined_concat(a, b.drop_last());
        assert((a + b).drop_last() == a + b.drop_last());
        assert((a + b).last() == b.last());
        assert(joined(a) + joined(b) == joined(a) + joined(b.drop_last()) + b.last());
    }
}

/// Lays a progress bar under a text, given by its clusters, up to the elapsed
/// column.
pub fn progress_bar(clusters: &Vec<String>, prog_width: usize) -> (bar: Bar)
    ensures
        (bar.reversed@, bar.plain@) == bar_halves(texts(clusters@), prog_width as nat),
{
    let ghost all = texts(clusters@);
    let ghost cut: int = if all.len() <= prog_width + 1 {
        all.len() as int
    } else {
        prog_width + 1
    };
    let mut reversed = String::new();
    let mut plain = String::new();
    let mut col: usize = 0;
    assert(joined(all.take(0)) == Seq::<char>::empty());
    assert(joined(all.subrange(cut, cut)) == Seq::<char>::empty());
    while col < clusters.len()
        invariant
            col <= clusters@.len(),
            all == texts(clusters@),
            0 <= cut <= all.len(),
            cut == (if all.len() <= prog_width + 1 {
                all.len() as int
            } else {
                prog_width + 1
            }),
            reversed@ == joined(
                all.take(
                    if col < cut {
                        col as int
                    } else {
                        cut
                    },
                ),
            ),
            plain@ == joined(
                all.subrange(
                    cut,
                    if col < cut {
                        cut
                    } else {
                        col as int
                    },
                ),
            ),
        decreases clusters@.len() - col,
    {
        assert(all[col as int] == clusters@[col as int]@);
        if col > prog_width {
            plain.append(clusters[col].as_str());
            proof {
                lemma_joined_take(all.skip(cut), col - cut);
                assert(all.skip(cut).take(col - cut) == all.subrange(cut, col as int));
                assert(all.skip(cut).take(col + 1 - cut) == all.subrange(cut, col + 1));
            }
        } else {
            reversed.append(clusters[col].as_str());
            proof {
                lemma_joined_take(all, col as int);
            }
        }
        col = col + 1;
    }
    assert(all.take(all.len() as int) == all);
    assert(all.subrange(cut, all.len() as int) == all.skip(cut));
    let ghost text = reversed@;
    let ghost n = all.len();
    assert(text + blanks(0) == text);
    while col < prog_width
        invariant
            n <= col,
            col <= prog_width || col == n,
            reversed@ == text + blanks(col - n),
        decreases prog_width - col,
    {
        reversed.push(' ');
        col = col + 1;
        assert(reversed@ =~= text + blanks(col - n));
    }
    proof {
        if all.len() <= prog_width + 1 {
            assert(all.skip(cut) == Seq::<Seq<char>>::empty());
            if n > prog_width {
                assert(blanks(prog_width - n) == blanks(0));
            }
        } else {
            assert(blanks(col - n) == Seq::<char>::empty());
        }
    }
    Bar { reversed, plain }
}

/// A progress bar shows its text as it is: its halves, after each other, are
/// the text, with blanks after it where the text is shorter than the bar.
pub proof fn bar_shows_its_text(clusters: Seq<Seq<char>>, width: nat)
    ensures
        bar_halves(clusters, width).0 + bar_halves(clusters, width).1 == joined(clusters) + blanks(
            width - clusters.len(),
        ),
{
    if clusters.len() > width + 1 {
        lemma_joined_concat(clusters.take((width + 1) as int), clusters.skip((width + 1) as int));
        assert(clusters.take((width + 1) as int) + clusters.skip((width + 1) as int) == clusters);
        assert(blanks(width - clusters.len()) == Seq::<char>::empty());
        assert(joined(clusters) + Seq::<char>::empty() == joined(clusters));
    } else {
        assert(bar_halves(clusters, width).0 + Seq::<char>::empty() == bar_halves(
            clusters,
            width,
        ).0);
    }
}

/// The same share of the terminal's width as has passed of the time, which is
/// counted in milliseconds; nothing where the time is too short to be counted.
pub open spec fn columns(term_width: usize, duration_ms: u128, remain_ms: u128) -> int {
    if duration_ms == 0 {
        0
    } else {
        term_width * (duration_ms - remain_ms) / duration_ms as int
    }
}

/// How many columns of the bar have elapsed.
pub fn elapsed_columns(term_width: usize, duration_ms: u128, remain_ms: u128) -> (cols: usize)
    requires
        remain_ms <= duration_ms,
        term_width * duration_ms <= u128::MAX,
    ensures
        cols == columns(term_width, duration_ms, remain_ms),
        cols <= term_width,
{
    if duration_ms == 0 {
        return 0;
    }
    let elapsed: u128 = duration_ms - remain_ms;
    let width: u128 = term_width as u128;
    let ghost product = width * elapsed;
    assert(product <= width * duration_ms && product >= 0) by (nonlinear_arith)
        requires
            elapsed <= duration_ms,
            product == width * elapsed,
            width >= 0,
            elapsed >= 0,
    ;
    let cols: u128 = width * elapsed / duration_ms;
    assert(cols <= width) by (nonlinear_arith)
        requires
            cols == product / duration_ms as int,
            product <= width * duration_ms,
            product >= 0,
            duration_ms > 0,
    ;
    cols as usize
}

/// One look at a sleep.
#[derive(Debug)]
pub enum SleepStep {
    /// Show the bar, if it changed, and wait for input for so many
    /// nanoseconds at most.
    Wait { draw: Option<Bar>, poll: u128 },
    /// Time is up: show this.
    Done(String),
}

/// A sleep that shows its progress.
pub struct Sleeper {
    reason: String,
    duration: u128,
    last_draw: Option<String>,
}

/// The longest span of time that can be shown, in nanoseconds.
pub const LONGEST_DURATION: u128 = 18_446_744_073_709_551_615_999_999_999;

/// What is shown next to the bar with so many nanoseconds left.
pub open spec fn countdown(reason: Seq<char>, remain: u128) -> Seq<char> {
    reason + " ("@ + rounded_duration(
        (remain / 1_000_000_000) as u64,
        (remain % 1_000_000_000) as u32,
    ) + ")"@
}

/// How long input is waited for between two looks at a sleep.
pub open spec fn look_interval(remain: u128) -> u128 {
    if remain < 50_000_000 {
        remain
    } else {
        50_000_000
    }
}

impl Sleeper {
    pub closed spec fn reason(&self) -> Seq<char> {
        self.reason@
    }

    pub closed spec fn duration(&self) -> u128 {
        self.duration
    }

    pub closed spec fn drawn(&self) -> Option<Seq<char>> {
        match self.last_draw {
            Some(s) => Some(s@),
            None => None,
        }
    }

    /// The column that the elapsed half of the bar reaches.
    pub open spec fn column(&self, remain: u128, term_width: usize) -> nat {
        columns(
            term_width,
            (self.duration() / 1_000_000) as u128,
            (remain / 1_000_000) as u128,
        ) as nat
    }

    /// The halves of the bar with so much time left.
    pub open spec fn halves(&self, remain: u128, term_width: usize) -> (Seq<char>, Seq<char>) {
        bar_halves(
            grapheme_clusters(countdown(self.reason(), remain)),
            self.column(remain, term_width),
        )
    }

    /// A sleep of so many nanoseconds.
    pub fn new(reason: &str, duration: u128) -> (s: Sleeper)
        ensures
            s.reason() == reason@,
            s.duration() == duration,
            s.drawn() is None,
    {
        Sleeper { reason: reason.to_owned(), duration, last_draw: None }
    }

    /// Looks at the sleep with so many nanoseconds left, on a terminal of so
    /// many columns. The bar is drawn only when it shows something else than
    /// the last one did.
    pub fn look(&mut self, remain: u128, term_width: usize) -> (step: SleepStep)
        requires
            old(self).duration() <= LONGEST_DURATION,
            remain <= old(self).duration(),
            term_width * (old(self).duration() / 1_000_000) <= u128::MAX,
        ensures
            final(self).reason() == old(self).reason(),
            final(self).duration() == old(self).duration(),
            remain == 0 ==> step is Done && step->Done_0@ == old(self).reason() + " (done)\r\n"@
                && final(self).drawn() == old(self).drawn(),
            remain > 0 ==> ({
                let halves = old(self).halves(remain, term_width);
                let shown = halves.0 + halves.1;
                &&& step is Wait
                &&& step->poll == (if remain < 50_000_000 {
                    remain
                } else {
                    50_000_000
                })
                &&& step->poll == look_interval(remain)
                &&& final(self).drawn() == Some(shown)
                &&& match step->draw {
                    Some(bar) => old(self).drawn() != Some(shown) && (
                        bar.reversed@,
                        bar.plain@,
                    ) == halves,
                    None => old(self).drawn() == Some(shown),
                }
            }),
    {
        if remain == 0 {
            let mut s = self.reason.clone();
            s.append(" (done)\r\n");
            return SleepStep::Done(s);
        }
        let prog_width: usize = elapsed_columns(
            term_width,
            self.duration / 1_000_000,
            remain / 1_000_000,
        );
        let left = duration_text(
            (remain / 1_000_000_000) as u64,
            (remain % 1_000_000_000) as u32,
        );
        let mut message = join3(self.reason.as_str(), " (", left.as_str());
        message.append(")");
        let bar = progress_bar(&graphemes(message.as_str()), prog_width);
        let mut combined = bar.reversed.clone();
        combined.append(bar.plain.as_str());
        let same = match &self.last_draw {
            Some(last) => *last == combined,
            None => false,
        };
        let poll: u128 = if remain < 50_000_000 {
            remain
        } else {
            50_000_000
        };
        if same {
            SleepStep::Wait { draw: None, poll }
        } else {
            self.last_draw = Some(combined);
            SleepStep::Wait { draw: Some(bar), poll }
        }
    }
}

/// What hides a typed password: one placeholder for each column of the line,
/// and the cursor as far along as the placeholders are wide.
pub fn highlight_line(
    placeholder: &str,
    placeholder_width: usize,
    line_width: usize,
    cursor_position: usize,
) -> (r: (Vec<String>, usize))
    requires
        placeholder_width * cursor_position <= usize::MAX,
    ensures
        r.0@.len() == line_width,
        forall|i: int| 0 <= i < line_width ==> (#[trigger] r.0@[i])@ == placeholder@,
        r.1 == placeholder_width * cursor_position,
{
    let mut output: Vec<String> = Vec::new();
    let mut i: usize = 0;
    while i < line_width
        invariant
            i <= line_width,
            output@.len() == i,
            forall|j: int| 0 <= j < i ==> (#[trigger] output@[j])@ == placeholder@,
        decreases line_width - i,
    {
        output.push(placeholder.to_owned());
        i = i + 1;
    }
    (output, placeholder_width * cursor_position)
}

/// How textwrap fills a text to a width.
pub uninterp spec fn filled(text: Seq<char>, width: nat) -> Seq<char>;

/// A text without the blanks at its end.
pub open spec fn without_trailing_blanks(s: Seq<char>) -> Seq<char>
    decreases s.len(),
{
    if s.len() > 0 && s.last() == ' ' {
        without_trailing_blanks(s.drop_last())
    } else {
        s
    }
}

/// `textwrap::fill` breaks a text into lines of at most the given width, which
/// depends on the text and the width alone. A text of one line that is shorter
/// than the width only loses the blanks at its end.
#[verifier::external_body]
fn fill(text: &str, width: usize) -> (s: String)
    ensures
        s@ == filled(text@, width as nat),
        encode_utf8(text@).len() < width && !text@.contains('\n') ==> s@
            == without_trailing_blanks(text@),
{
    textwrap::fill(text, width)
}

/// What a filled configuration error shows.
pub fn configuration_error_output(wrapped: String) -> (changes: Vec<Change>)
    ensures
        changes@.len() == 1,
        changes@[0] is Text,
        changes@[0]->Text_0@ == with_crlf(wrapped@.push('\n')),
{
    let mut wrapped = wrapped;
    wrapped.push('\n');
    output_str(wrapped.as_str())
}

/// How an error is brought to the user.
#[derive(Debug)]
pub enum ErrorDisplay {
    /// In the window for errors, with these changes.
    Window(Vec<Change>),
    /// By a notification that carries the error, without any window.
    Toast(String),
}

/// How a configuration error is brought to the user: where there is a graphical
/// user interface in a window, its text in lines of at most 78 columns, and
/// otherwise by a notification.
pub fn show_configuration_error_message(err: &str, gui_started: bool) -> (d: ErrorDisplay)
    ensures
        match d {
            ErrorDisplay::Window(changes) => {
                &&& gui_started
                &&& changes@.len() == 1
                &&& changes@[0] is Text
                &&& changes@[0]->Text_0@ == with_crlf(filled(err@, 78).push('\n'))
                &&& encode_utf8(err@).len() < 78 && !err@.contains('\n')
                    ==> changes@[0]->Text_0@ == with_crlf(
                    without_trailing_blanks(err@).push('\n'),
                )
            },
            ErrorDisplay::Toast(text) => !gui_started && text@ == err@,
        },
{
    if gui_started {
        ErrorDisplay::Window(configuration_error_output(fill(err, 78)))
    } else {
        ErrorDisplay::Toast(err.to_owned())
    }
}

/// What is shown of an error that ended an operation.
pub fn failure_output(error: &str) -> (s: String)
    ensures
        s@ == "\r\nFailed: "@ + error@ + "\r\n"@,
{
    join3("\r\nFailed: ", error, "\r\n")
}

/// What to do about the window for errors.
#[derive(Debug, Clone, Copy, PartialEq, Eq, Structural)]
pub enum ErrorWindow {
    Reuse,
    Open,
}

/// The window for errors is used again while there is one that is alive.
pub fn error_window(exists: bool, alive: bool) -> (r: ErrorWindow)
    ensures
        r is Reuse <==> exists && alive,
{
    if exists && alive {
        ErrorWindow::Reuse
    } else {
        ErrorWindow::Open
    }
}

/// What is shown is the text of the changes in their order: that of changes after
/// each other is the one after the other, a text is its own, and nothing else
/// adds any.
pub proof fn shown_text_adds_up(a: Seq<Change>, b: Seq<Change>, c: Change)
    ensures
        shown_text(a + b) == shown_text(a) + shown_text(b),
        shown_text(seq![c]) == if c is Text {
            c->Text_0@
        } else {
            Seq::<char>::empty()
        },
    decreases b.len(),
{
    assert(seq![c].drop_last() == Seq::<Change>::empty());
    assert(shown_text(Seq::<Change>::empty()) == Seq::<char>::empty());
    if b.len() == 0 {
        assert(a + b == a);
    } else {
        shown_text_adds_up(a, b.drop_last(), c);
        assert((a + b).drop_last() == a + b.drop_last());
        assert((a + b).last() == b.last());
    }
}

/// Line feeds get a carriage return ahead of them wherever they stand, and every
/// other letter stays as it is: a text of two parts becomes what its parts
/// become, after each other.
pub proof fn only_line_feeds_are_changed(a: Seq<char>, b: Seq<char>, c: char)
    ensures
        with_crlf(a + b) == with_crlf(a) + with_crlf(b),
        with_crlf(seq!['\n']) == seq!['\r', '\n'],
        c != '\n' ==> with_crlf(seq![c]) == seq![c],
{
    lemma_crlf_concat(a, b);
    assert(seq!['\n'].drop_last() == Seq::<char>::empty());
    assert(seq![c].drop_last() == Seq::<char>::empty());
    assert(with_crlf(Seq::<char>::empty()) == Seq::<char>::empty());
}

/// The last line begins right after a line feed, or with the text.
pub proof fn the_last_line_follows_a_line_feed(s: Seq<char>)
    ensures
        0 <= last_line_start(s) <= s.len(),
        last_line_start(s) > 0 ==> s[last_line_start(s) - 1] == '\n',
    decreases s.len(),
{
    if s.len() > 0 && s.last() != '\n' {
        the_last_line_follows_a_line_feed(s.drop_last());
        let k = last_line_start(s);
        if k > 0 {
            assert(s.drop_last()[k - 1] == s[k - 1]);
        }
    }
}

/// The elapsed half of a bar grows by the cluster at each further column, from
/// the first one on.
pub proof fn the_elapsed_half_grows(clusters: Seq<Seq<char>>, width: nat)
    requires
        width + 1 < clusters.len(),
    ensures
        bar_halves(clusters, 0).0 == clusters[0],
        bar_halves(clusters, width + 1).0 == bar_halves(clusters, width).0 + clusters[width as int
            + 1],
{
    lemma_joined_take(clusters, width as int + 1);
    lemma_joined_take(clusters, 0);
    assert(joined(clusters.take(0)) == Seq::<char>::empty());
    if clusters.len() <= width + 2 {
        assert(clusters.take(width as int + 2) == clusters);
        assert(blanks(width + 1 - clusters.len()) == Seq::<char>::empty());
        assert(joined(clusters) + Seq::<char>::empty() == joined(clusters));
    }
}

/// The bar begins empty and ends full, never goes back, and at each moment shows
/// the share of the time that has passed, rounded down to a column.
pub proof fn the_bar_keeps_time(term_width: usize, duration_ms: u128, remain_ms: u128, later: u128)
    requires
        0 < duration_ms,
        later <= remain_ms <= duration_ms,
    ensures
        ({
            let now = columns(term_width, duration_ms, remain_ms);
            let passed = duration_ms - remain_ms;
            &&& columns(term_width, duration_ms, duration_ms) == 0
            &&& columns(term_width, duration_ms, 0) == term_width
            &&& now <= columns(term_width, duration_ms, later)
            &&& now * duration_ms <= term_width * passed < (now + 1) * duration_ms
        }),
{
    let d = duration_ms as int;
    let w = term_width as int;
    let p = d - remain_ms;
    let q = d - later;
    let now = w * p / d;
    let then = w * q / d;
    assert(w * 0 / d == 0) by (nonlinear_arith)
        requires
            d > 0,
    ;
    assert(w * d / d == w) by (nonlinear_arith)
        requires
            d > 0,
    ;
    assert(now * d <= w * p < (now + 1) * d) by (nonlinear_arith)
        requires
            d > 0,
            now == w * p / d,
    ;
    assert(now <= then) by (nonlinear_arith)
        requires
            d > 0,
            w >= 0,
            p <= q,
            now == w * p / d,
            then == w * q / d,
    ;
}

/// Without a user nothing is asked and nothing is shown: every prompt is refused,
/// and whoever waits for it is told. A sleep is slept, and an end is an end.
pub proof fn headless_prompts_are_refused(
    prompt: String,
    echo: bool,
    context: Option<String>,
    respond: u64,
    changes: Vec<Change>,
    request: UIRequest,
)
    ensures
        headless_answer(UIRequest::Input { prompt, echo, context, respond }) == (
        UiStep::RefuseInput { respond }),
        headless_answer(UIRequest::Output(changes)) is Continue,
        headless_answer(request) is Close <==> request is Close,
        headless_answer(request).sleep_made() == request.sleep_asked(),
{
}

/// On a terminal what is typed is shown exactly where the prompt says so, and is
/// hidden otherwise; the prompt and who waits for the line are those of the
/// request, and its context makes no difference. What is put out is shown as it
/// is.
pub proof fn hidden_input_stays_hidden(
    prompt: String,
    echo: bool,
    context: Option<String>,
    respond: u64,
    changes: Vec<Change>,
    request: UIRequest,
)
    ensures
        ({
            let step = terminal_answer(UIRequest::Input { prompt, echo, context, respond });
            &&& echo ==> step == (UiStep::ReadLine { prompt, respond })
            &&& !echo ==> step == (UiStep::ReadPassword { prompt, respond })
        }),
        terminal_answer(UIRequest::Output(changes)) == UiStep::Render(changes),
        terminal_answer(request) is Close <==> request is Close,
        terminal_answer(request).sleep_made() == request.sleep_asked(),
{
}

/// A sleep is looked at again in a twentieth of a second, or when it is over if
/// that is sooner.
pub proof fn sleeps_are_looked_at_often(remain: u128)
    ensures
        look_interval(remain) <= remain,
        look_interval(remain) <= 50_000_000,
        look_interval(remain) == remain || look_interval(remain) == 50_000_000,
{
}

/// The marks of where a prompt comes from are told apart, and a line that is not
/// entered says which kind it was.
pub proof fn marks_and_refusals_have_their_texts(shown: Seq<char>)
    ensures
        AUTH_ORIGIN_LOCAL@ == "auth-origin:local"@,
        AUTH_ORIGIN_SERVER@ == "auth-origin:server"@,
        HEADLESS_INPUT@ == "Input requested from headless context"@,
        cancelled_text(true) == "prompt cancelled"@,
        cancelled_text(false) == "password entry was cancelled"@,
        declined_text(shown) == "Input prompt "@ + shown + " declined by embedded responder"@,
{
}

/// A time that is too short to be counted shows nothing as passed.
pub proof fn uncounted_times_show_nothing(term_width: usize, remain_ms: u128)
    ensures
        columns(term_width, 0, remain_ms) == 0,
{
}

} // verus!
