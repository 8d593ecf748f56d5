//! The recent-event log that every snapshot carries: the newest few lines of
//! chat, oldest first, never more than `LOG_CAPACITY` of them.
use vstd::prelude::*;
use vstd::string::StringExecFns;

verus! {

/// The most lines a log holds.
pub const LOG_CAPACITY: usize = 10;

/// The newest `LOG_CAPACITY` items of `s`, in their order.
pub open spec fn newest<T>(s: Seq<T>) -> Seq<T> {
    if s.len() > LOG_CAPACITY {
        s.skip(s.len() - LOG_CAPACITY)
    } else {
        s
    }
}

/// A log after one more line: the line goes to the end, and if that makes the
/// log too long, lines leave from the front.
pub open spec fn spec_push(log: Seq<Seq<char>>, line: Seq<char>) -> Seq<Seq<char>> {
    newest(log.push(line))
}

/// A log after a run of lines, pushed one by one.
pub open spec fn spec_push_all(log: Seq<Seq<char>>, lines: Seq<Seq<char>>) -> Seq<Seq<char>>
    decreases lines.len(),
{
    if lines.len() == 0 {
        log
    } else {
        spec_push(spec_push_all(log, lines.drop_last()), lines.last())
    }
}

/// The line that records `actor` saying `msg`.
pub open spec fn spec_chat_line(actor: Seq<char>, msg: Seq<char>) -> Seq<char> {
    actor + seq![':', ' '] + msg
}

/// First in, first out, under the cap: a log that has taken any run of lines
/// holds the newest `LOG_CAPACITY` of all lines it ever took, in the order
/// they came, and so never more than `LOG_CAPACITY`.
pub proof fn lemma_log_is_fifo(log: Seq<Seq<char>>, lines: Seq<Seq<char>>)
    requires
        log.len() <= LOG_CAPACITY,
    ensures
        spec_push_all(log, lines) == newest(log + lines),
        spec_push_all(log, lines).len() <= LOG_CAPACITY,
    decreases lines.len(),
{
    if lines.len() == 0 {
        assert(log + lines =~= log);
    } else {
        let earlier = lines.drop_last();
        lemma_log_is_fifo(log, earlier);
        assert(log + lines =~= (log + earlier).push(lines.last()));
        assert(spec_push_all(log, lines) =~= newest(log + lines));
    }
}

/// The bounded log.
pub struct EventLog {
    lines: Vec<String>,
}

impl View for EventLog {
    type V = Seq<Seq<char>>;

    closed spec fn view(&self) -> Seq<Seq<char>> {
        Seq::new(self.lines@.len(), |i: int| self.lines@[i]@)
    }
}

impl EventLog {
    #[verifier::type_invariant]
    spec fn within_cap(self) -> bool {
        self.lines@.len() <= LOG_CAPACITY
    }

    /// An empty log.
    pub fn new() -> (r: EventLog)
        ensures
            r@ == Seq::<Seq<char>>::empty(),
    {
        let r = EventLog { lines: Vec::new() };
        assert(r@ =~= Seq::<Seq<char>>::empty());
        r
    }

    /// Adds a line at the end; if the log was full, its oldest line leaves.
    pub fn push(&mut self, line: String)
        ensures
            final(self)@ == spec_push(old(self)@, line@),
            final(self)@.len() <= LOG_CAPACITY,
    {
        proof {
            use_type_invariant(&*self);
        }
        let ghost before = self@;
        let mut lines: Vec<String> = Vec::new();
        core::mem::swap(&mut self.lines, &mut lines);
        lines.push(line);
        if lines.len() > LOG_CAPACITY {
            let _ = lines.remove(0);
        }
        core::mem::swap(&mut self.lines, &mut lines);
        assert(self@ =~= spec_push(before, line@));
    }

    /// How many lines the log holds.
    pub fn len(&self) -> (n: usize)
        ensures
            n == self@.len(),
            n <= LOG_CAPACITY,
    {
        proof {
            use_type_invariant(self);
        }
        self.lines.len()
    }

    /// The line at position `i`, counted from the oldest.
    pub fn line(&self, i: usize) -> (r: Option<String>)
        ensures
            r is Some <==> i < self@.len(),
            r is Some ==> r->0@ == self@[i as int],
    {
        if i < self.lines.len() {
            Some(self.lines[i].clone())
        } else {
            None
        }
    }

    /// All lines, oldest first.
    pub fn lines(&self) -> (r: Vec<String>)
        ensures
            r@.len() == self@.len(),
            forall|i: int| 0 <= i < r@.len() ==> (#[trigger] r@[i])@ == self@[i],
    {
        let mut out: Vec<String> = Vec::new();
        let n = self.lines.len();
        let mut i: usize = 0;
        while i < n
            invariant
                n == self.lines@.len(),
                i <= n,
                out@.len() == i,
                forall|k: int| 0 <= k < i ==> (#[trigger] out@[k])@ == self.lines@[k]@,
            decreases n - i,
        {
            out.push(self.lines[i].clone());
            i += 1;
        }
        out
    }
}

/// The line that records `actor` saying `msg`: the actor, a colon and a space,
/// the message.
pub fn chat_line(actor: &str, msg: &str) -> (r: String)
    ensures
        r@ == spec_chat_line(actor@, msg@),
{
    let mut line = String::from_str(actor);
    line.append(": ");
    line.append(msg);
    proof {
        reveal_strlit(": ");
        assert(": "@ =~= seq![':', ' ']);
    }
    line
}

} // verus!
