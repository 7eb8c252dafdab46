use vstd::prelude::*;

verus! {

/// The prompt shown before a line is read.
#[derive(Clone, Copy, Debug, PartialEq, Eq, Structural)]
pub enum Prompt {
    /// No script is under way.
    Primary,
    /// The lines read so far form the start of a script.
    Continuation,
}

/// What the parser made of the text of a script.
#[derive(Clone, Copy, Debug, PartialEq, Eq, Structural)]
pub enum ParseStatus {
    /// A whole script.
    Complete,
    /// The text ended before a construct did: more lines may complete it.
    Incomplete,
    /// Any other error.
    SyntaxError,
}

/// How handing a parsed script on ended.
#[derive(Clone, Copy, Debug, PartialEq, Eq, Structural)]
pub enum DispatchOutcome {
    EmitFailed,
    EvalFailed,
    Evaluated,
}

/// What came of the action that the session asked for last.
#[derive(Debug)]
pub enum SessionEvent {
    /// A line of input, without its line terminator.
    Line(String),
    /// The input stream has no more lines.
    EndOfInput,
    Parsed(ParseStatus),
    Reported,
    Dispatched(DispatchOutcome),
}

/// What the session asks for next.
#[derive(Debug)]
pub enum SessionAction {
    /// Show the prompt and read one line.
    Read(Prompt),
    /// Parse this text as a script.
    Parse(String),
    /// Report the parser's error.
    Report,
    /// Show the parsed script, then emit, disassemble and evaluate it.
    Dispatch,
    /// End the session.
    Stop,
}

/// Which answer the session waits for.
#[derive(Clone, Copy, Debug, PartialEq, Eq, Structural)]
pub enum SessionPhase {
    Reading,
    Parsing,
    Reporting,
    Dispatching,
    Stopped,
}

/// The prompt for a script whose text so far is `buffer`.
pub open spec fn prompt_for(buffer: Seq<char>) -> Prompt {
    if buffer.len() == 0 {
        Prompt::Primary
    } else {
        Prompt::Continuation
    }
}

/// An interactive read-eval loop: it gathers lines until they form a script,
/// hands the script on, and starts again.
pub struct Session {
    buffer: String,
    phase: SessionPhase,
    /// How many scripts have been handed on.
    dispatched: Ghost<nat>,
}

impl Session {
    /// The text of the script under way.
    pub closed spec fn buffer(&self) -> Seq<char> {
        self.buffer@
    }

    pub closed spec fn phase(&self) -> SessionPhase {
        self.phase
    }

    /// How many scripts have been handed on.
    pub closed spec fn dispatched(&self) -> nat {
        self.dispatched@
    }

    /// A script being parsed has text; one being reported or handed on has
    /// been taken out of the buffer.
    pub open spec fn wf(&self) -> bool {
        &&& self.phase() == SessionPhase::Parsing ==> self.buffer().len() > 0
        &&& (self.phase() == SessionPhase::Reporting || self.phase() == SessionPhase::Dispatching)
            ==> self.buffer().len() == 0
    }

    /// Whether `event` answers the action that the session asked for last.
    pub open spec fn expects(&self, event: SessionEvent) -> bool {
        match self.phase() {
            SessionPhase::Reading => event is Line || event is EndOfInput,
            SessionPhase::Parsing => event is Parsed,
            SessionPhase::Reporting => event is Reported,
            SessionPhase::Dispatching => event is Dispatched,
            SessionPhase::Stopped => false,
        }
    }

    /// One step of the session: `after` and `action` follow from `before` on `event`.
    pub open spec fn transition(
        before: Session,
        event: SessionEvent,
        after: Session,
        action: SessionAction,
    ) -> bool {
        match event {
            SessionEvent::Line(line) => {
                &&& after.buffer() == before.buffer() + line@ + seq!['\n']
                &&& after.phase() == SessionPhase::Parsing
                &&& after.dispatched() == before.dispatched()
                &&& action matches SessionAction::Parse(text) && text@ == after.buffer()
            },
            SessionEvent::EndOfInput => {
                &&& after.phase() == SessionPhase::Stopped
                &&& after.dispatched() == before.dispatched()
                &&& action is Stop
            },
            SessionEvent::Parsed(ParseStatus::Complete) => {
                &&& after.buffer().len() == 0
                &&& after.phase() == SessionPhase::Dispatching
                &&& after.dispatched() == before.dispatched() + 1
                &&& action is Dispatch
            },
            SessionEvent::Parsed(ParseStatus::Incomplete) => {
                &&& after.buffer() == before.buffer()
                &&& after.phase() == SessionPhase::Reading
                &&& after.dispatched() == before.dispatched()
                &&& action == SessionAction::Read(Prompt::Continuation)
            },
            SessionEvent::Parsed(ParseStatus::SyntaxError) => {
                &&& after.buffer().len() == 0
                &&& after.phase() == SessionPhase::Reporting
                &&& after.dispatched() == before.dispatched()
                &&& action is Report
            },
            SessionEvent::Reported | SessionEvent::Dispatched(_) => {
                &&& after.buffer().len() == 0
                &&& after.phase() == SessionPhase::Reading
                &&& after.dispatched() == before.dispatched()
                &&& action == SessionAction::Read(Prompt::Primary)
            },
        }
    }

    /// A session with no script under way, which asks for a line at the
    /// primary prompt.
    pub fn start() -> (r: (Session, SessionAction))
        ensures
            r.0.wf(),
            r.0.buffer().len() == 0,
            r.0.phase() == SessionPhase::Reading,
            r.0.dispatched() == 0,
            r.1 == SessionAction::Read(Prompt::Primary),
    {
        let session = Session {
            buffer: String::new(),
            phase: SessionPhase::Reading,
            dispatched: Ghost(0),
        };
        (session, SessionAction::Read(Prompt::Primary))
    }

    /// The prompt to show before the next line.
    pub fn prompt(&self) -> (r: Prompt)
        ensures
            r == prompt_for(self.buffer()),
    {
        if self.buffer.as_str().is_empty() {
            Prompt::Primary
        } else {
            Prompt::Continuation
        }
    }

    /// Whether `event` answers the last action.
    pub fn accepts(&self, event: &SessionEvent) -> (r: bool)
        ensures
            r == self.expects(*event),
    {
        match self.phase {
            SessionPhase::Reading => match event {
                SessionEvent::Line(_) => true,
                SessionEvent::EndOfInput => true,
                _ => false,
            },
            SessionPhase::Parsing => match event {
                SessionEvent::Parsed(_) => true,
                _ => false,
            },
            SessionPhase::Reporting => match event {
                SessionEvent::Reported => true,
                _ => false,
            },
            SessionPhase::Dispatching => match event {
                SessionEvent::Dispatched(_) => true,
                _ => false,
            },
            SessionPhase::Stopped => false,
        }
    }

    /// Takes what came of the last action and says what to do next.
    pub fn step(&mut self, event: SessionEvent) -> (action: SessionAction)
        requires
            old(self).wf(),
            old(self).expects(event),
        ensures
            final(self).wf(),
            Self::transition(*old(self), event, *final(self), action),
    {
        match event {
            SessionEvent::Line(line) => {
                proof {
                    reveal_strlit("\n");
                    assert("\n"@ =~= seq!['\n']);
                }
                self.buffer.append(line.as_str());
                self.buffer.append("\n");
                self.phase = SessionPhase::Parsing;
                SessionAction::Parse(self.buffer.clone())
            },
            SessionEvent::EndOfInput => {
                self.phase = SessionPhase::Stopped;
                SessionAction::Stop
            },
            SessionEvent::Parsed(status) => match status {
                ParseStatus::Complete => {
                    self.buffer = String::new();
                    self.phase = SessionPhase::Dispatching;
                    self.dispatched = Ghost(self.dispatched@ + 1);
                    SessionAction::Dispatch
                },
                ParseStatus::Incomplete => {
                    self.phase = SessionPhase::Reading;
                    SessionAction::Read(Prompt::Continuation)
                },
                ParseStatus::SyntaxError => {
                    self.buffer = String::new();
                    self.phase = SessionPhase::Reporting;
                    SessionAction::Report
                },
            },
            SessionEvent::Reported | SessionEvent::Dispatched(_) => {
                self.phase = SessionPhase::Reading;
                SessionAction::Read(Prompt::Primary)
            },
        }
    }
}

/// Only the end of the input ends a session: no parse, emission or
/// evaluation result does.
pub proof fn lemma_only_end_of_input_stops(
    before: Session,
    event: SessionEvent,
    after: Session,
    action: SessionAction,
)
    requires
        Session::transition(before, event, after, action),
    ensures
        (action is Stop) <==> (event is EndOfInput),
        (after.phase() == SessionPhase::Stopped) <==> (event is EndOfInput),
{
}

} // verus!
