//! A print job: commands in the order in which the printer is to read them,
//! and the one text that they are sent as.

use crate::command::ZplCommand;
use std::collections::VecDeque;
use vstd::prelude::*;

verus! {

/// The commands of one print job, in order.
///
/// A job is framed by `Start` and `End` commands. Nothing here checks that
/// they pair up: the commands are sent as given.
#[derive(Clone, Debug)]
pub struct Label {
    pub commands: Vec<ZplCommand>,
}

/// The text of a sequence of commands: the text of each, in order, with a
/// line feed between one and the next. No command is left out, moved or
/// written twice; the text of no commands is empty.
pub open spec fn program_text(commands: Seq<ZplCommand>) -> Seq<char>
    decreases commands.len(),
{
    if commands.len() == 0 {
        Seq::empty()
    } else if commands.len() == 1 {
        commands[0].text()
    } else {
        program_text(commands.drop_last()) + seq!['\n'] + commands.last().text()
    }
}

/// The reply lines that the printer owes for a sequence of commands: for
/// each command that makes it answer, in order, the number of its lines.
pub open spec fn expected_replies(commands: Seq<ZplCommand>) -> Seq<nat> {
    commands.map_values(|command: ZplCommand| command.reply_lines()).filter(|lines: nat| lines > 0)
}

/// Line counts as contracts see them: as natural numbers.
pub open spec fn line_counts(queue: Seq<u32>) -> Seq<nat> {
    queue.map_values(|lines: u32| lines as nat)
}

impl Label {
    /// The text that this job is sent as.
    pub open spec fn text(&self) -> Seq<char> {
        program_text(self.commands@)
    }

    /// Appends the text of this job to `out`.
    pub fn write_to(&self, out: &mut String)
        ensures
            final(out)@ == old(out)@ + self.text(),
    {
        let count = self.commands.len();
        let mut next: usize = 0;
        while next < count
            invariant
                count == self.commands.len(),
                next <= count,
                out@ == old(out)@ + program_text(self.commands@.take(next as int)),
            decreases count - next,
        {
            let ghost sent = self.commands@.take(next as int);
            let ghost grown = self.commands@.take(next + 1);
            assert(grown.drop_last() =~= sent);
            if next > 0 {
                proof {
                    reveal_strlit("\n");
                }
                out.append("\n");
            }
            self.commands[next].write_to(out);
            next = next + 1;
        }
        assert(self.commands@.take(count as int) =~= self.commands@);
    }

    /// The text that this job is sent as, as a string of its own.
    pub fn assemble(&self) -> (payload: String)
        ensures
            payload@ == self.text(),
    {
        let mut payload = String::new();
        self.write_to(&mut payload);
        payload
    }

    /// The reply lines that the printer owes for this job, as a queue with
    /// the oldest query in front.
    pub fn expected_replies(&self) -> (replies: VecDeque<u32>)
        ensures
            line_counts(replies@) == expected_replies(self.commands@),
    {
        let count = self.commands.len();
        let mut replies: VecDeque<u32> = VecDeque::new();
        let mut next: usize = 0;
        proof {
            lemma_expected_replies_empty();
        }
        while next < count
            invariant
                count == self.commands.len(),
                next <= count,
                line_counts(replies@) == expected_replies(self.commands@.take(next as int)),
            decreases count - next,
        {
            let lines = self.commands[next].how_many_lines_of_text();
            if lines > 0 {
                replies.push_back(lines);
            }
            proof {
                lemma_expected_replies_push(
                    self.commands@.take(next as int),
                    self.commands@[next as int],
                );
                assert(self.commands@.take(next as int).push(self.commands@[next as int])
                    =~= self.commands@.take(next + 1));
            }
            next = next + 1;
        }
        assert(self.commands@.take(count as int) =~= self.commands@);
        replies
    }
}

/// A job turns into the text that it is sent as.
impl From<Label> for String {
    fn from(value: Label) -> (payload: String)
        ensures
            payload@ == value.text(),
    {
        value.assemble()
    }
}

/// What `String::from` returns is stated on the function itself, over the
/// text of the string: two strings with one text are not known to be one
/// value, so no string can be named here as the result.
impl vstd::std_specs::convert::FromSpecImpl<Label> for String {
    open spec fn obeys_from_spec() -> bool {
        false
    }

    open spec fn from_spec(value: Label) -> String {
        choose|payload: String| payload@ == value.text()
    }
}

/// No commands, no replies.
pub proof fn lemma_expected_replies_empty()
    ensures
        expected_replies(Seq::empty()) == Seq::<nat>::empty(),
{
    reveal(Seq::filter);
}

/// A command at the end of a sequence adds its reply lines at the end of
/// what is owed, if it makes the printer answer, and nothing otherwise.
pub proof fn lemma_expected_replies_push(commands: Seq<ZplCommand>, command: ZplCommand)
    ensures
        expected_replies(commands.push(command)) == if command.reply_lines() > 0 {
            expected_replies(commands).push(command.reply_lines())
        } else {
            expected_replies(commands)
        },
{
    let count = |command: ZplCommand| command.reply_lines();
    let owed = |lines: nat| lines > 0;
    assert(commands.push(command).map_values(count) =~= commands.map_values(count).push(
        command.reply_lines(),
    ));
    commands.map_values(count).lemma_filter_push(command.reply_lines(), owed);
}

/// The text of two sequences of commands, one after the other, is the text
/// of the first, a line feed, and the text of the second. So the text of a
/// run of commands is the same wherever in a job the run stands, and
/// whatever stands before and after it.
pub proof fn lemma_program_text_concat(first: Seq<ZplCommand>, second: Seq<ZplCommand>)
    ensures
        program_text(first + second) == if first.len() == 0 {
            program_text(second)
        } else if second.len() == 0 {
            program_text(first)
        } else {
            program_text(first) + seq!['\n'] + program_text(second)
        },
    decreases second.len(),
{
    if first.len() > 0 && second.len() > 0 {
        let whole = first + second;
        assert(whole.drop_last() =~= first + second.drop_last());
        lemma_program_text_concat(first, second.drop_last());
        if second.len() > 1 {
            assert(program_text(whole) =~= program_text(first) + seq!['\n'] + program_text(
                second,
            ));
        }
    }
}

} // verus!
