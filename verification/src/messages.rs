//! Commands on their way to their handlers, and the lines handlers print back.

use vstd::prelude::*;

use crate::state::{ConsoleState, PrintConsoleLine};
use crate::text::string_views;

verus! {

/// The text of each line, in order.
pub open spec fn line_views(lines: Seq<PrintConsoleLine>) -> Seq<Seq<char>> {
    lines.map_values(|l: PrintConsoleLine| l.line@)
}

/// Appends the printed lines to the scrollback, in order.
pub fn receive_console_line(state: &mut ConsoleState, messages: &[PrintConsoleLine])
    ensures
        string_views(final(state).scrollback@) == string_views(old(state).scrollback@) + line_views(
            messages@,
        ),
        *final(state) == (ConsoleState { scrollback: final(state).scrollback, ..*old(state) }),
{
    let ghost start = string_views(state.scrollback@);
    let mut i: usize = 0;
    assert(line_views(messages@).take(0) =~= Seq::<Seq<char>>::empty());
    assert(start + Seq::<Seq<char>>::empty() =~= start);
    while i < messages.len()
        invariant
            i <= messages@.len(),
            string_views(state.scrollback@) == start + line_views(messages@).take(i as int),
            *state == (ConsoleState { scrollback: state.scrollback, ..*old(state) }),
        decreases messages@.len() - i,
    {
        let ghost before = state.scrollback@;
        let line = messages[i].line.clone();
        assert(line@ == line_views(messages@)[i as int]);
        state.scrollback.push(line);
        assert(state.scrollback@ == before.push(line));
        assert(string_views(state.scrollback@) =~= string_views(before).push(line@));
        assert(line_views(messages@).take(i + 1) =~= line_views(messages@).take(i as int).push(
            line@,
        ));
        i = i + 1;
    }
    assert(line_views(messages@).take(messages@.len() as int) =~= line_views(messages@));
}

/// A parsed command waiting for its handler, and the lines the handler prints in reply.
pub struct ConsoleCommand<C> {
    command: Option<C>,
    replies: Vec<PrintConsoleLine>,
}

impl<C> ConsoleCommand<C> {
    /// The command not yet taken by the handler.
    pub closed spec fn pending(&self) -> Option<C> {
        self.command
    }

    /// The lines printed so far and not yet handed to the console.
    pub closed spec fn printed(&self) -> Seq<Seq<char>> {
        line_views(self.replies@)
    }

    /// A command for the handler, with nothing printed yet.
    pub fn new(command: Option<C>) -> (r: Self)
        ensures
            r.pending() == command,
            r.printed() == Seq::<Seq<char>>::empty(),
    {
        let r = ConsoleCommand { command, replies: Vec::new() };
        assert(line_views(r.replies@) =~= Seq::<Seq<char>>::empty());
        r
    }

    /// Returns Some(T) if the command was executed and arguments were valid.
    ///
    /// This method should only be called once.
    /// Consecutive calls will return None regardless if the command occurred.
    pub fn take(&mut self) -> (r: Option<C>)
        ensures
            r == old(self).pending(),
            final(self).pending() is None,
            final(self).printed() == old(self).printed(),
    {
        self.command.take()
    }

    fn print(&mut self, line: String)
        ensures
            final(self).printed() == old(self).printed().push(line@),
            final(self).pending() == old(self).pending(),
    {
        self.replies.push(PrintConsoleLine::new(line));
        assert(line_views(self.replies@) =~= line_views(old(self).replies@).push(line@));
    }

    /// Print `[ok]` in the console.
    pub fn ok(&mut self)
        ensures
            final(self).printed() == old(self).printed().push("[ok]"@),
            final(self).pending() == old(self).pending(),
    {
        self.print(String::from_str("[ok]"));
    }

    /// Print `[failed]` in the console.
    pub fn failed(&mut self)
        ensures
            final(self).printed() == old(self).printed().push("[failed]"@),
            final(self).pending() == old(self).pending(),
    {
        self.print(String::from_str("[failed]"));
    }

    /// Print a reply in the console.
    pub fn reply(&mut self, msg: String)
        ensures
            final(self).printed() == old(self).printed().push(msg@),
            final(self).pending() == old(self).pending(),
    {
        self.print(msg);
    }

    /// Print a reply in the console followed by `[ok]`.
    pub fn reply_ok(&mut self, msg: String)
        ensures
            final(self).printed() == old(self).printed().push(msg@).push("[ok]"@),
            final(self).pending() == old(self).pending(),
    {
        self.print(msg);
        self.ok();
    }

    /// Print a reply in the console followed by `[failed]`.
    pub fn reply_failed(&mut self, msg: String)
        ensures
            final(self).printed() == old(self).printed().push(msg@).push("[failed]"@),
            final(self).pending() == old(self).pending(),
    {
        self.print(msg);
        self.failed();
    }

    /// Hands over the printed lines, in order, and forgets them.
    pub fn take_printed(&mut self) -> (lines: Vec<PrintConsoleLine>)
        ensures
            line_views(lines@) == old(self).printed(),
            final(self).printed() == Seq::<Seq<char>>::empty(),
            final(self).pending() == old(self).pending(),
    {
        let mut lines: Vec<PrintConsoleLine> = Vec::new();
        std::mem::swap(&mut lines, &mut self.replies);
        assert(line_views(self.replies@) =~= Seq::<Seq<char>>::empty());
        lines
    }
}

} // verus!
