//! The error value: a human-readable context, an optional call-site tag and
//! an optional owned cause.
use vstd::prelude::*;

verus! {

/// The spec-level character of a decimal digit `d < 10`.
pub open spec fn digit_char(d: nat) -> char {
    if d == 0 { '0' }
    else if d == 1 { '1' }
    else if d == 2 { '2' }
    else if d == 3 { '3' }
    else if d == 4 { '4' }
    else if d == 5 { '5' }
    else if d == 6 { '6' }
    else if d == 7 { '7' }
    else if d == 8 { '8' }
    else { '9' }
}

/// The decimal notation of `n`, without leading zeros.
pub open spec fn decimal(n: nat) -> Seq<char>
    decreases n,
{
    if n < 10 {
        seq![digit_char(n)]
    } else {
        decimal(n / 10).push(digit_char(n % 10))
    }
}

fn digit_str(d: u32) -> (r: &'static str)
    requires
        d < 10,
    ensures
        r@ == seq![digit_char(d as nat)],
{
    proof {
        reveal_strlit("0");
        reveal_strlit("1");
        reveal_strlit("2");
        reveal_strlit("3");
        reveal_strlit("4");
        reveal_strlit("5");
        reveal_strlit("6");
        reveal_strlit("7");
        reveal_strlit("8");
        reveal_strlit("9");
    }
    if d == 0 { "0" }
    else if d == 1 { "1" }
    else if d == 2 { "2" }
    else if d == 3 { "3" }
    else if d == 4 { "4" }
    else if d == 5 { "5" }
    else if d == 6 { "6" }
    else if d == 7 { "7" }
    else if d == 8 { "8" }
    else { "9" }
}

/// Appends the decimal notation of `n` to `out`.
fn push_decimal(out: &mut String, n: u32)
    ensures
        final(out)@ == old(out)@ + decimal(n as nat),
    decreases n,
{
    if n >= 10 {
        push_decimal(out, n / 10);
    }
    out.append(digit_str(n % 10));
}


/// A source call site: file, line and column.
#[derive(Debug)]
pub struct Location {
    pub file: String,
    pub line: u32,
    pub column: u32,
}

impl Location {
    /// The text of the call site, `file:line:column`.
    pub open spec fn text(&self) -> Seq<char> {
        self.file@ + ":"@ + decimal(self.line as nat) + ":"@ + decimal(self.column as nat)
    }

    pub fn new(file: &str, line: u32, column: u32) -> (r: Location)
        ensures
            r.file@ == file@,
            r.line == line,
            r.column == column,
    {
        Location { file: file.to_string(), line, column }
    }

    /// Renders the call site as `file:line:column`.
    pub fn to_text(&self) -> (r: String)
        ensures
            r@ == self.text(),
    {
        let mut out = self.file.clone();
        out.append(":");
        push_decimal(&mut out, self.line);
        out.append(":");
        push_decimal(&mut out, self.column);
        out
    }
}

/// An error: a human-readable context plus an optional cause.
///
/// The cause is owned, so the chain of causes is finite and acyclic.
#[derive(Debug)]
pub struct Error {
    /// What failed at this level.
    pub ctx: String,
    /// Where the error was made, when the caller supplied it.
    pub location: Option<Location>,
    /// The error that led to this one.
    pub cause: Option<Box<Error>>,
}

impl Error {
    /// The cause of this error, if it has one.
    pub open spec fn source_spec(&self) -> Option<Error> {
        match self.cause {
            Some(c) => Some(*c),
            None => None,
        }
    }

    /// The display text: the context, followed by ` (file:line:column)`
    /// when a location is attached.
    pub open spec fn display_spec(&self) -> Seq<char> {
        match self.location {
            Some(l) => self.ctx@ + " ("@ + l.text() + ")"@,
            None => self.ctx@,
        }
    }

    /// This error was made from the context `ctx` and the cause `cause`,
    /// with no location.
    pub open spec fn made_from(&self, ctx: Seq<char>, cause: Option<Error>) -> bool {
        &&& self.ctx@ == ctx
        &&& self.location is None
        &&& self.source_spec() == cause
    }

    /// The chain that starts at this error: the error itself, then its
    /// cause, the cause's cause, and so on down to the root.
    pub open spec fn chain(self) -> Seq<Error>
        decreases self,
    {
        match self.cause {
            Some(c) => seq![self] + (*c).chain(),
            None => seq![self],
        }
    }

    /// The number of errors in the chain that starts here.
    pub open spec fn depth(self) -> nat
        decreases self,
    {
        match self.cause {
            Some(c) => 1 + (*c).depth(),
            None => 1,
        }
    }

    /// The display texts of the chain that starts here, outermost first.
    pub open spec fn messages(self) -> Seq<Seq<char>> {
        self.chain().map_values(|e: Error| e.display_spec())
    }

    /// Makes an error with the context `ctx` that owns `cause`.
    pub fn new(ctx: &str, cause: Error) -> (r: Error)
        ensures
            r.made_from(ctx@, Some(cause)),
    {
        Error { ctx: ctx.to_string(), location: None, cause: Some(Box::new(cause)) }
    }

    /// Attaches the call site `location` to this error.
    pub fn with_location(self, location: Location) -> (r: Error)
        ensures
            r.ctx == self.ctx,
            r.location == Some(location),
            r.cause == self.cause,
    {
        Error { ctx: self.ctx, location: Some(location), cause: self.cause }
    }

    /// The display text of this error; it never holds the cause's text.
    pub fn display(&self) -> (r: String)
        ensures
            r@ == self.display_spec(),
    {
        let mut out = self.ctx.clone();
        match &self.location {
            Some(l) => {
                out.append(" (");
                let t = l.to_text();
                out.append(t.as_str());
                out.append(")");
            },
            None => {},
        }
        out
    }

    /// The context string.
    pub fn description(&self) -> (r: &str)
        ensures
            r@ == self.ctx@,
    {
        self.ctx.as_str()
    }

    /// The cause of this error, borrowed.
    pub fn source(&self) -> (r: Option<&Error>)
        ensures
            r is Some <==> self.source_spec() is Some,
            r matches Some(c) ==> *c == self.source_spec()->Some_0,
    {
        match &self.cause {
            Some(c) => Some(&**c),
            None => None,
        }
    }
}

impl Error {
    /// An error made from a context and a cause displays as that context
    /// alone, has that cause as its source, and its chain is itself followed
    /// by the cause's chain.
    pub proof fn lemma_new_displays_context(e: Error, ctx: Seq<char>, cause: Error)
        requires
            e.made_from(ctx, Some(cause)),
        ensures
            e.display_spec() == ctx,
            e.source_spec() == Some(cause),
            e.chain() == seq![e] + cause.chain(),
            e.messages() == seq![ctx] + cause.messages(),
    {
        let c = e.cause->Some_0;
        assert(*c == cause);
        assert(e.messages() =~= seq![ctx] + cause.messages());
    }

    /// An error made from a message alone has no source: its chain is the
    /// error itself.
    pub proof fn lemma_message_has_no_source(e: Error, ctx: Seq<char>)
        requires
            e.made_from(ctx, None),
        ensures
            e.display_spec() == ctx,
            e.source_spec() is None,
            e.chain() == seq![e],
            e.messages() == seq![ctx],
    {
        assert(e.messages() =~= seq![ctx]);
    }

    /// Builds a chain whose display texts are `msgs`, outermost first and
    /// root last; `None` when `msgs` is empty.
    pub fn from_messages(msgs: Vec<String>) -> (r: Option<Error>)
        ensures
            msgs@.len() == 0 <==> r is None,
            r matches Some(e) ==> e.messages() == msgs@.map_values(|s: String| s@),
    {
        let ghost all = msgs@.map_values(|s: String| s@);
        let mut rest = msgs;
        let last = match rest.pop() {
            Some(m) => m,
            None => {
                return None;
            },
        };
        let mut e = err_msg(last.as_str());
        proof {
            Error::lemma_message_has_no_source(e, last@);
            assert(e.messages() =~= all.subrange(rest@.len() as int, all.len() as int));
        }
        while rest.len() > 0
            invariant
                rest@.len() < all.len(),
                all == msgs@.map_values(|s: String| s@),
                rest@ == msgs@.subrange(0, rest@.len() as int),
                e.messages() == all.subrange(rest@.len() as int, all.len() as int),
            decreases rest@.len(),
        {
            let m = match rest.pop() {
                Some(m) => m,
                None => {
                    return None;
                },
            };
            let ghost cause = e;
            e = Error::new(m.as_str(), e);
            proof {
                Error::lemma_new_displays_context(e, m@, cause);
                assert(e.messages() =~= all.subrange(rest@.len() as int, all.len() as int));
            }
        }
        proof {
            assert(all.subrange(0, all.len() as int) =~= all);
        }
        Some(e)
    }
}

/// Makes an error with the context `ctx` and no cause.
pub fn err_msg(ctx: &str) -> (r: Error)
    ensures
        r.made_from(ctx@, None),
{
    Error { ctx: ctx.to_string(), location: None, cause: None }
}

} // verus!
