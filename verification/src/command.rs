//! The printer's commands, the text that each one is sent as, and the number
//! of reply lines that each one makes the printer send back.

use crate::decimal::{
    append_decimal, append_sign_padded, append_signed, append_zero_padded, decimal, digits_value,
    lemma_decimal_chars, lemma_decimal_len, lemma_zero_padded_value, magnitude, pow10,
    sign_padded, signed_decimal, zero_padded,
};
use vstd::prelude::*;

verus! {

/// What the printer does with a label once it is printed.
#[derive(Clone, Copy, Debug)]
pub enum PostPrintAction {
    /// Present only, let the user tear it off.
    TearOff,
    /// Present and cut.
    Cut,
}

/// How the medium takes colour.
#[derive(Clone, Copy, Debug)]
pub enum MediaType {
    /// The colour is in the label, which turns dark where it is heated.
    Direct,
    /// The colour comes from a separate ribbon.
    Transfer,
}

/// One command of a program for the printer.
#[derive(Clone, Debug)]
pub enum ZplCommand {
    /// Text that is sent as it stands, for what has no variant of its own.
    Raw {
        text: String,
        /// How many lines of text the sender of this command declares that
        /// the printer will answer with.
        response_lines: u32,
    },
    Magic,
    PersistConfig,
    SetDarkness(usize),
    SetEncoding(usize),
    SetInverted(bool),
    SetHalfDensity(bool),
    SetHome(u32, u32),
    SetSpeed { print: usize, slew: usize },
    SetMediaType(MediaType),
    /// Width and height of the label, and the density in dots per unit of
    /// those two.
    LabelSetup { w: u32, h: u32, dots: u32 },
    SetPostPrintAction(PostPrintAction),
    SetHorizontalShift(usize),
    SetVerticalShift(isize),
    SetTearOffPosition(isize),
    MoveOrigin(u32, u32),
    PrintQuantity { total: u32, pause_and_cut_after: u32, replicates: u32, cut_only: bool },
    HostIndication,
    HostRamStatus,
    HostStatusReturn,
    Start,
    End,
}

/// The letter that selects yes or no.
pub open spec fn yes_no(flag: bool) -> Seq<char> {
    if flag {
        "Y"@
    } else {
        "N"@
    }
}

impl PostPrintAction {
    /// The letter that selects this action.
    pub open spec fn code(self) -> Seq<char> {
        match self {
            PostPrintAction::TearOff => "T"@,
            PostPrintAction::Cut => "C"@,
        }
    }
}

impl MediaType {
    /// The letter that selects this kind of medium.
    pub open spec fn code(self) -> Seq<char> {
        match self {
            MediaType::Direct => "D"@,
            MediaType::Transfer => "T"@,
        }
    }
}

impl ZplCommand {
    /// The text that this command is sent as.
    ///
    /// Numbers are written as they are given, whatever their range. The two
    /// numbers of a label setup are products with the density, padded with
    /// zeros to three and to four digits; a product with more digits is
    /// written in full.
    pub open spec fn text(self) -> Seq<char> {
        match self {
            ZplCommand::Raw { text, .. } => text@,
            ZplCommand::Magic => "CT~~CD,~CC^~CT~\n^XA~TA000~JSN^LT0^MNW"@,
            ZplCommand::PersistConfig => "^JUS"@,
            ZplCommand::SetHalfDensity(on) => "^JM"@ + (if on {
                "B"@
            } else {
                "A"@
            }),
            ZplCommand::SetDarkness(level) => "~SD"@ + decimal(level as nat),
            ZplCommand::SetEncoding(index) => "^CI"@ + decimal(index as nat),
            ZplCommand::SetHome(x, y) => "^LH"@ + decimal(x as nat) + ","@ + decimal(y as nat),
            ZplCommand::SetInverted(on) => "^LR"@ + yes_no(on),
            ZplCommand::SetMediaType(media) => "^MT"@ + media.code(),
            ZplCommand::SetSpeed { print, slew } => "^PR"@ + decimal(print as nat) + ","@
                + decimal(slew as nat),
            ZplCommand::LabelSetup { w, h, dots } => "^PW"@ + zero_padded((w * dots) as nat, 3)
                + "\n^LL"@ + zero_padded((h * dots) as nat, 4),
            ZplCommand::SetPostPrintAction(action) => "^MM"@ + action.code(),
            ZplCommand::SetHorizontalShift(shift) => "^LS"@ + decimal(shift as nat),
            ZplCommand::SetVerticalShift(shift) => "^LT"@ + signed_decimal(shift as int),
            ZplCommand::SetTearOffPosition(position) => "~TA"@ + sign_padded(position as int, 4),
            ZplCommand::MoveOrigin(x, y) => "^FO"@ + decimal(x as nat) + ","@ + decimal(y as nat),
            ZplCommand::PrintQuantity { total, pause_and_cut_after, replicates, cut_only } => "^PQ"@
                + decimal(total as nat) + ","@ + decimal(pause_and_cut_after as nat) + ","@
                + decimal(replicates as nat) + ","@ + yes_no(cut_only),
            ZplCommand::Start => "^XA"@,
            ZplCommand::End => "^XZ"@,
            ZplCommand::HostIndication => "~HI"@,
            ZplCommand::HostRamStatus => "~HM"@,
            ZplCommand::HostStatusReturn => "~HS"@,
        }
    }

    /// How many lines of text the printer sends back for this command: one
    /// for each of the two short status queries, three for the full status
    /// query, none for anything else.
    pub open spec fn reply_lines(self) -> nat {
        match self {
            ZplCommand::HostIndication => 1,
            ZplCommand::HostRamStatus => 1,
            ZplCommand::HostStatusReturn => 3,
            _ => 0,
        }
    }

    /// How many lines of text the printer sends back for this command.
    pub fn how_many_lines_of_text(&self) -> (lines: u32)
        ensures
            lines == self.reply_lines(),
    {
        match self {
            ZplCommand::HostIndication => 1,
            ZplCommand::HostRamStatus => 1,
            ZplCommand::HostStatusReturn => 3,
            _ => 0,
        }
    }

    /// Appends the text of this command to `out`.
    pub fn write_to(&self, out: &mut String)
        ensures
            final(out)@ == old(out)@ + self.text(),
    {
        match self {
            ZplCommand::Raw { text, .. } => {
                out.append(text.as_str());
            },
            ZplCommand::Magic => {
                out.append("CT~~CD,~CC^~CT~\n^XA~TA000~JSN^LT0^MNW");
            },
            ZplCommand::PersistConfig => {
                out.append("^JUS");
            },
            ZplCommand::SetHalfDensity(on) => {
                out.append("^JM");
                out.append(
                    if *on {
                        "B"
                    } else {
                        "A"
                    },
                );
            },
            ZplCommand::SetDarkness(level) => {
                out.append("~SD");
                append_decimal(out, *level as u64);
            },
            ZplCommand::SetEncoding(index) => {
                out.append("^CI");
                append_decimal(out, *index as u64);
            },
            ZplCommand::SetHome(x, y) => {
                out.append("^LH");
                append_decimal(out, *x as u64);
                out.append(",");
                append_decimal(out, *y as u64);
            },
            ZplCommand::SetInverted(on) => {
                out.append("^LR");
                append_yes_no(out, *on);
            },
            ZplCommand::SetMediaType(media) => {
                out.append("^MT");
                out.append(
                    match media {
                        MediaType::Direct => "D",
                        MediaType::Transfer => "T",
                    },
                );
            },
            ZplCommand::SetSpeed { print, slew } => {
                out.append("^PR");
                append_decimal(out, *print as u64);
                out.append(",");
                append_decimal(out, *slew as u64);
            },
            ZplCommand::LabelSetup { w, h, dots } => {
                out.append("^PW");
                append_zero_padded(out, dot_count(*w, *dots), 3);
                out.append("\n^LL");
                append_zero_padded(out, dot_count(*h, *dots), 4);
            },
            ZplCommand::SetPostPrintAction(action) => {
                out.append("^MM");
                out.append(
                    match action {
                        PostPrintAction::TearOff => "T",
                        PostPrintAction::Cut => "C",
                    },
                );
            },
            ZplCommand::SetHorizontalShift(shift) => {
                out.append("^LS");
                append_decimal(out, *shift as u64);
            },
            ZplCommand::SetVerticalShift(shift) => {
                out.append("^LT");
                append_signed(out, *shift as i64);
            },
            ZplCommand::SetTearOffPosition(position) => {
                out.append("~TA");
                append_sign_padded(out, *position as i64, 4);
            },
            ZplCommand::MoveOrigin(x, y) => {
                out.append("^FO");
                append_decimal(out, *x as u64);
                out.append(",");
                append_decimal(out, *y as u64);
            },
            ZplCommand::PrintQuantity { total, pause_and_cut_after, replicates, cut_only } => {
                out.append("^PQ");
                append_decimal(out, *total as u64);
                out.append(",");
                append_decimal(out, *pause_and_cut_after as u64);
                out.append(",");
                append_decimal(out, *replicates as u64);
                out.append(",");
                append_yes_no(out, *cut_only);
            },
            ZplCommand::Start => {
                out.append("^XA");
            },
            ZplCommand::End => {
                out.append("^XZ");
            },
            ZplCommand::HostIndication => {
                out.append("~HI");
            },
            ZplCommand::HostRamStatus => {
                out.append("~HM");
            },
            ZplCommand::HostStatusReturn => {
                out.append("~HS");
            },
        }
    }

    /// The text of this command, as a string of its own.
    pub fn serialize(&self) -> (text: String)
        ensures
            text@ == self.text(),
    {
        let mut text = String::new();
        self.write_to(&mut text);
        text
    }
}

/// A command turns into its text. A raw command gives up the text it holds.
impl From<ZplCommand> for String {
    fn from(value: ZplCommand) -> (text: String)
        ensures
            text@ == value.text(),
    {
        match value {
            ZplCommand::Raw { text, .. } => text,
            other => other.serialize(),
        }
    }
}

/// What `String::from` returns is stated on the function itself, over the
/// text of the string: two strings with one text are not known to be one
/// value, so no string can be named here as the result.
impl vstd::std_specs::convert::FromSpecImpl<ZplCommand> for String {
    open spec fn obeys_from_spec() -> bool {
        false
    }

    open spec fn from_spec(value: ZplCommand) -> String {
        choose|text: String| text@ == value.text()
    }
}

/// A length in dots: the length in the label's unit times the density. The
/// product of two 32-bit numbers is computed in 64 bits, so nothing wraps.
fn dot_count(length: u32, dots: u32) -> (product: u64)
    ensures
        product == length * dots,
{
    assert(length * dots <= 0xffff_ffff * 0xffff_ffff) by (nonlinear_arith)
        requires
            length <= 0xffff_ffff,
            dots <= 0xffff_ffff,
    ;
    (length as u64) * (dots as u64)
}

/// Appends the letter that selects yes or no.
fn append_yes_no(out: &mut String, flag: bool)
    ensures
        final(out)@ == old(out)@ + yes_no(flag),
{
    out.append(
        if flag {
            "Y"
        } else {
            "N"
        },
    );
}

/// A line of a command: one character or more, each of them a printable
/// character of ASCII, so that no line feed is among them.
pub open spec fn is_line(text: Seq<char>) -> bool {
    &&& text.len() > 0
    &&& forall|i: int| 0 <= i < text.len() ==> ' ' <= #[trigger] text[i] <= '~'
}

/// The text of a command is a function of the command: commands that are
/// equal are sent as the same text, however often they are written out.
pub proof fn lemma_text_is_a_function(first: ZplCommand, second: ZplCommand)
    requires
        first == second,
    ensures
        first.text() == second.text(),
{
}

/// Every command but a raw one is sent as one line; the vendor
/// initialization and the label setup are sent as two lines with one line
/// feed between them. What a raw command is sent as is its sender's matter.
pub proof fn lemma_text_shape(command: ZplCommand)
    requires
        !(command is Raw),
    ensures
        command is Magic || command is LabelSetup ==> exists|first: Seq<char>, second: Seq<char>|
            #![trigger is_line(first), is_line(second)]
            is_line(first) && is_line(second) && command.text() == first + seq!['\n'] + second,
        !(command is Magic || command is LabelSetup) ==> is_line(command.text()),
{
    reveal_strlit("Y");
    reveal_strlit("N");
    reveal_strlit("A");
    reveal_strlit("B");
    reveal_strlit("D");
    reveal_strlit("T");
    reveal_strlit("C");
    reveal_strlit(",");
    match command {
        ZplCommand::Raw { .. } => {},
        ZplCommand::Magic => {
            reveal_strlit("CT~~CD,~CC^~CT~\n^XA~TA000~JSN^LT0^MNW");
            reveal_strlit("CT~~CD,~CC^~CT~");
            reveal_strlit("^XA~TA000~JSN^LT0^MNW");
            let first = "CT~~CD,~CC^~CT~"@;
            let second = "^XA~TA000~JSN^LT0^MNW"@;
            assert(is_line(first) && is_line(second));
        },
        ZplCommand::PersistConfig => {
            reveal_strlit("^JUS");
        },
        ZplCommand::SetHalfDensity(_) => {
            reveal_strlit("^JM");
        },
        ZplCommand::SetDarkness(level) => {
            reveal_strlit("~SD");
            lemma_decimal_chars(level as nat);
        },
        ZplCommand::SetEncoding(index) => {
            reveal_strlit("^CI");
            lemma_decimal_chars(index as nat);
        },
        ZplCommand::SetHome(x, y) => {
            reveal_strlit("^LH");
            lemma_decimal_chars(x as nat);
            lemma_decimal_chars(y as nat);
        },
        ZplCommand::SetInverted(_) => {
            reveal_strlit("^LR");
        },
        ZplCommand::SetMediaType(_) => {
            reveal_strlit("^MT");
        },
        ZplCommand::SetSpeed { print, slew } => {
            reveal_strlit("^PR");
            lemma_decimal_chars(print as nat);
            lemma_decimal_chars(slew as nat);
        },
        ZplCommand::LabelSetup { w, h, dots } => {
            reveal_strlit("^PW");
            reveal_strlit("\n^LL");
            reveal_strlit("^LL");
            lemma_decimal_chars((w * dots) as nat);
            lemma_decimal_chars((h * dots) as nat);
            let first = "^PW"@ + zero_padded((w * dots) as nat, 3);
            let second = "^LL"@ + zero_padded((h * dots) as nat, 4);
            assert(is_line(first) && is_line(second));
        },
        ZplCommand::SetPostPrintAction(_) => {
            reveal_strlit("^MM");
        },
        ZplCommand::SetHorizontalShift(shift) => {
            reveal_strlit("^LS");
            lemma_decimal_chars(shift as nat);
        },
        ZplCommand::SetVerticalShift(shift) => {
            reveal_strlit("^LT");
            lemma_decimal_chars(magnitude(shift as int));
        },
        ZplCommand::SetTearOffPosition(position) => {
            reveal_strlit("~TA");
            lemma_decimal_chars(magnitude(position as int));
        },
        ZplCommand::MoveOrigin(x, y) => {
            reveal_strlit("^FO");
            lemma_decimal_chars(x as nat);
            lemma_decimal_chars(y as nat);
        },
        ZplCommand::PrintQuantity { total, pause_and_cut_after, replicates, .. } => {
            reveal_strlit("^PQ");
            lemma_decimal_chars(total as nat);
            lemma_decimal_chars(pause_and_cut_after as nat);
            lemma_decimal_chars(replicates as nat);
        },
        ZplCommand::Start => {
            reveal_strlit("^XA");
        },
        ZplCommand::End => {
            reveal_strlit("^XZ");
        },
        ZplCommand::HostIndication => {
            reveal_strlit("~HI");
        },
        ZplCommand::HostRamStatus => {
            reveal_strlit("~HM");
        },
        ZplCommand::HostStatusReturn => {
            reveal_strlit("~HS");
        },
    }
}

/// A label setup loses no digit. Each of its two numbers is written so that
/// it reads back as the whole product of length and density, whatever its
/// size. A width in dots above 999 is written with its own digits, more than
/// three of them and no zero in front; so is a height in dots above 9999,
/// with more than four.
pub proof fn lemma_label_setup_keeps_digits(w: u32, h: u32, dots: u32)
    ensures
        digits_value(zero_padded((w * dots) as nat, 3)) == w * dots,
        digits_value(zero_padded((h * dots) as nat, 4)) == h * dots,
        w * dots > 999 ==> zero_padded((w * dots) as nat, 3) == decimal((w * dots) as nat)
            && decimal((w * dots) as nat).len() > 3,
        h * dots > 9999 ==> zero_padded((h * dots) as nat, 4) == decimal((h * dots) as nat)
            && decimal((h * dots) as nat).len() > 4,
        w * dots <= 999 ==> zero_padded((w * dots) as nat, 3).len() == 3,
        h * dots <= 9999 ==> zero_padded((h * dots) as nat, 4).len() == 4,
{
    lemma_zero_padded_value((w * dots) as nat, 3);
    lemma_zero_padded_value((h * dots) as nat, 4);
    lemma_decimal_len((w * dots) as nat, 3);
    lemma_decimal_len((h * dots) as nat, 4);
    assert(pow10(3) == 1000 && pow10(4) == 10000) by {
        reveal_with_fuel(pow10, 5);
    }
}

} // verus!
