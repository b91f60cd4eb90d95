//! The settings of a run and the words that name them.

use crate::token::{eq_ignoring_case, same_ignoring_case};
use crate::transform::ConvertFrom;
use vstd::prelude::*;

verus! {

/// The number of data bits of a character on the line.
#[derive(Clone, Copy, Debug, PartialEq, Eq, Structural)]
pub enum DataBits {
    Five,
    Six,
    Seven,
    Eight,
}

/// How the two ends of the line hold each other back.
#[derive(Clone, Copy, Debug, PartialEq, Eq, Structural)]
pub enum FlowControl {
    Off,
    Software,
    Hardware,
}

/// The parity bit of a character on the line.
#[derive(Clone, Copy, Debug, PartialEq, Eq, Structural)]
pub enum Parity {
    Off,
    Odd,
    Even,
}

/// The number of stop bits after a character on the line.
#[derive(Clone, Copy, Debug, PartialEq, Eq, Structural)]
pub enum StopBits {
    One,
    Two,
}

/// Where the stream goes.
#[derive(Clone, Copy, Debug, PartialEq, Eq, Structural)]
pub enum SinkMode {
    Stdout,
    Iterm,
    Lines,
    File,
}

/// The setting whose value named none of its choices.
#[derive(Clone, Copy, Debug, PartialEq, Eq, Structural)]
pub enum InvalidOption {
    DataBits,
    FlowControl,
    Parity,
    StopBits,
    SinkMode,
}

impl InvalidOption {
    /// What to tell the user.
    pub fn message(&self) -> (text: String)
        ensures
            text@ == match *self {
                InvalidOption::DataBits => "Data bits option passed an invalid value"@,
                InvalidOption::FlowControl => "Flow Control option passed an invalid value"@,
                InvalidOption::Parity => "Parity option passed an invalid value"@,
                InvalidOption::StopBits => "Stop Bits option passed an invalid value"@,
                InvalidOption::SinkMode => "Invalid serial mode passed"@,
            },
    {
        match self {
            InvalidOption::DataBits => "Data bits option passed an invalid value".to_owned(),
            InvalidOption::FlowControl => "Flow Control option passed an invalid value".to_owned(),
            InvalidOption::Parity => "Parity option passed an invalid value".to_owned(),
            InvalidOption::StopBits => "Stop Bits option passed an invalid value".to_owned(),
            InvalidOption::SinkMode => "Invalid serial mode passed".to_owned(),
        }
    }
}

impl DataBits {
    /// The choice that a word names: `5`, `6`, `7` or `8`.
    pub open spec fn named(word: Seq<char>) -> Option<DataBits> {
        if word == "5"@ {
            Some(DataBits::Five)
        } else if word == "6"@ {
            Some(DataBits::Six)
        } else if word == "7"@ {
            Some(DataBits::Seven)
        } else if word == "8"@ {
            Some(DataBits::Eight)
        } else {
            None
        }
    }

    /// Reads the number of data bits.
    pub fn from_str(s: &str) -> (result: Result<DataBits, InvalidOption>)
        ensures
            result == match DataBits::named(s@) {
                Some(bits) => Ok::<DataBits, InvalidOption>(bits),
                None => Err(InvalidOption::DataBits),
            },
    {
        if is_word(s, "5") {
            Ok(DataBits::Five)
        } else if is_word(s, "6") {
            Ok(DataBits::Six)
        } else if is_word(s, "7") {
            Ok(DataBits::Seven)
        } else if is_word(s, "8") {
            Ok(DataBits::Eight)
        } else {
            Err(InvalidOption::DataBits)
        }
    }
}

impl FlowControl {
    /// The choice that a word names, whatever its case: `hardware` or `hw`,
    /// `software` or `sw`, `none`.
    pub open spec fn named(word: Seq<char>) -> Option<FlowControl> {
        if same_ignoring_case(word, "hardware"@) || same_ignoring_case(word, "hw"@) {
            Some(FlowControl::Hardware)
        } else if same_ignoring_case(word, "software"@) || same_ignoring_case(word, "sw"@) {
            Some(FlowControl::Software)
        } else if same_ignoring_case(word, "none"@) {
            Some(FlowControl::Off)
        } else {
            None
        }
    }

    /// Reads the flow control.
    pub fn from_str(s: &str) -> (result: Result<FlowControl, InvalidOption>)
        ensures
            result == match FlowControl::named(s@) {
                Some(flow) => Ok::<FlowControl, InvalidOption>(flow),
                None => Err(InvalidOption::FlowControl),
            },
    {
        if eq_ignoring_case(s, "hardware") || eq_ignoring_case(s, "hw") {
            Ok(FlowControl::Hardware)
        } else if eq_ignoring_case(s, "software") || eq_ignoring_case(s, "sw") {
            Ok(FlowControl::Software)
        } else if eq_ignoring_case(s, "none") {
            Ok(FlowControl::Off)
        } else {
            Err(InvalidOption::FlowControl)
        }
    }
}

impl Parity {
    /// The choice that a word names, whatever its case: `none`, `odd` or
    /// `even`.
    pub open spec fn named(word: Seq<char>) -> Option<Parity> {
        if same_ignoring_case(word, "none"@) {
            Some(Parity::Off)
        } else if same_ignoring_case(word, "odd"@) {
            Some(Parity::Odd)
        } else if same_ignoring_case(word, "even"@) {
            Some(Parity::Even)
        } else {
            None
        }
    }

    /// Reads the parity.
    pub fn from_str(s: &str) -> (result: Result<Parity, InvalidOption>)
        ensures
            result == match Parity::named(s@) {
                Some(parity) => Ok::<Parity, InvalidOption>(parity),
                None => Err(InvalidOption::Parity),
            },
    {
        if eq_ignoring_case(s, "none") {
            Ok(Parity::Off)
        } else if eq_ignoring_case(s, "odd") {
            Ok(Parity::Odd)
        } else if eq_ignoring_case(s, "even") {
            Ok(Parity::Even)
        } else {
            Err(InvalidOption::Parity)
        }
    }
}

impl StopBits {
    /// The choice that a word names, whatever its case: `1` or `one`, `2` or
    /// `two`.
    pub open spec fn named(word: Seq<char>) -> Option<StopBits> {
        if same_ignoring_case(word, "1"@) || same_ignoring_case(word, "one"@) {
            Some(StopBits::One)
        } else if same_ignoring_case(word, "2"@) || same_ignoring_case(word, "two"@) {
            Some(StopBits::Two)
        } else {
            None
        }
    }

    /// Reads the number of stop bits.
    pub fn from_str(s: &str) -> (result: Result<StopBits, InvalidOption>)
        ensures
            result == match StopBits::named(s@) {
                Some(bits) => Ok::<StopBits, InvalidOption>(bits),
                None => Err(InvalidOption::StopBits),
            },
    {
        if eq_ignoring_case(s, "1") || eq_ignoring_case(s, "one") {
            Ok(StopBits::One)
        } else if eq_ignoring_case(s, "2") || eq_ignoring_case(s, "two") {
            Ok(StopBits::Two)
        } else {
            Err(InvalidOption::StopBits)
        }
    }
}

impl SinkMode {
    /// The choice that a word names, whatever its case: `stdout`, `iterm`,
    /// `lines` or `file`.
    pub open spec fn named(word: Seq<char>) -> Option<SinkMode> {
        if same_ignoring_case(word, "stdout"@) {
            Some(SinkMode::Stdout)
        } else if same_ignoring_case(word, "iterm"@) {
            Some(SinkMode::Iterm)
        } else if same_ignoring_case(word, "lines"@) {
            Some(SinkMode::Lines)
        } else if same_ignoring_case(word, "file"@) {
            Some(SinkMode::File)
        } else {
            None
        }
    }

    /// Reads where the stream goes.
    pub fn from_str(s: &str) -> (result: Result<SinkMode, InvalidOption>)
        ensures
            result == match SinkMode::named(s@) {
                Some(mode) => Ok::<SinkMode, InvalidOption>(mode),
                None => Err(InvalidOption::SinkMode),
            },
    {
        if eq_ignoring_case(s, "stdout") {
            Ok(SinkMode::Stdout)
        } else if eq_ignoring_case(s, "iterm") {
            Ok(SinkMode::Iterm)
        } else if eq_ignoring_case(s, "lines") {
            Ok(SinkMode::Lines)
        } else if eq_ignoring_case(s, "file") {
            Ok(SinkMode::File)
        } else {
            Err(InvalidOption::SinkMode)
        }
    }
}

fn is_word(s: &str, word: &str) -> (same: bool)
    ensures
        same == (s@ == word@),
{
    let len: usize = s.unicode_len();
    if word.unicode_len() != len {
        return false;
    }
    let mut i: usize = 0;
    while i < len
        invariant
            i <= len,
            len == s@.len(),
            len == word@.len(),
            s@.take(i as int) == word@.take(i as int),
        decreases len - i,
    {
        if s.get_char(i) != word.get_char(i) {
            return false;
        }
        assert(s@.take(i + 1) =~= s@.take(i as int).push(s@[i as int]));
        assert(word@.take(i + 1) =~= word@.take(i as int).push(word@[i as int]));
        i += 1;
    }
    assert(s@.take(len as int) =~= s@);
    assert(word@.take(len as int) =~= word@);
    true
}

/// The settings of a run.
#[derive(Debug)]
pub struct Args {
    /// The device to read from; empty while none is chosen.
    pub port: String,
    pub baud_rate: u32,
    pub data_bits: DataBits,
    pub flow_control: FlowControl,
    pub parity: Parity,
    pub stop_bits: StopBits,
    /// How long a read waits for data, in milliseconds.
    pub timeout_millis: u64,
    /// The word that names where the stream goes.
    pub mode: String,
    /// The size of the read buffer and of the sink's write buffer, in bytes.
    pub capacity: usize,
    /// The file that the `file` mode writes to.
    pub output_file: String,
    pub append: bool,
    pub convertfrom: ConvertFrom,
}

impl Args {
    /// Whether the settings can drive a run: the buffers hold at least one
    /// byte.
    pub open spec fn usable(&self) -> bool {
        self.capacity > 0
    }

    /// Whether the settings can drive a run.
    pub fn is_usable(&self) -> (usable: bool)
        ensures
            usable == self.usable(),
    {
        self.capacity > 0
    }
}

impl Default for Args {
    /// The settings of a run for which the user chose nothing.
    fn default() -> (args: Args)
        ensures
            args.port@ == Seq::<char>::empty(),
            args.baud_rate == 115200,
            args.data_bits == DataBits::Eight,
            args.flow_control == FlowControl::Off,
            args.parity == Parity::Off,
            args.stop_bits == StopBits::One,
            args.timeout_millis == 0,
            args.mode@ == "stdout"@,
            args.capacity == 64,
            args.output_file@ == "output.txt"@,
            !args.append,
            args.convertfrom == ConvertFrom::Raw,
            args.usable(),
            SinkMode::named(args.mode@) == Some(SinkMode::Stdout),
    {
        proof {
            reveal_strlit("stdout");
        }
        Args {
            port: String::new(),
            baud_rate: 115200,
            data_bits: DataBits::Eight,
            flow_control: FlowControl::Off,
            parity: Parity::Off,
            stop_bits: StopBits::One,
            timeout_millis: 0,
            mode: "stdout".to_owned(),
            capacity: 64,
            output_file: "output.txt".to_owned(),
            append: false,
            convertfrom: ConvertFrom::Raw,
        }
    }
}

/// The port to open when the user named none: the one that the machine has,
/// if it has exactly one.
pub fn only_port(mut names: Vec<String>) -> (port: Option<String>)
    ensures
        port == if names@.len() == 1 {
            Some(names@[0])
        } else {
            None::<String>
        },
{
    if names.len() == 1 {
        names.pop()
    } else {
        None
    }
}

} // verus!
