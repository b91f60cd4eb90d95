use serialterm::config::{
    only_port, Args, DataBits, FlowControl, InvalidOption, Parity, SinkMode, StopBits,
};
use serialterm::token::eq_ignoring_case;
use serialterm::transform::ConvertFrom;

#[test]
fn default_settings() {
    let args = Args::default();
    assert_eq!(args.port, "");
    assert_eq!(args.baud_rate, 115200);
    assert_eq!(args.data_bits, DataBits::Eight);
    assert_eq!(args.flow_control, FlowControl::Off);
    assert_eq!(args.parity, Parity::Off);
    assert_eq!(args.stop_bits, StopBits::One);
    assert_eq!(args.timeout_millis, 0);
    assert_eq!(args.mode, "stdout");
    assert_eq!(args.capacity, 64);
    assert_eq!(args.output_file, "output.txt");
    assert!(!args.append);
    assert_eq!(args.convertfrom, ConvertFrom::Raw);
    assert!(args.is_usable());
}

#[test]
fn zero_capacity_is_not_usable() {
    let mut args = Args::default();
    args.capacity = 0;
    assert!(!args.is_usable());
    args.capacity = 1;
    assert!(args.is_usable());
}

#[test]
fn data_bits_words() {
    assert_eq!(DataBits::from_str("5"), Ok(DataBits::Five));
    assert_eq!(DataBits::from_str("6"), Ok(DataBits::Six));
    assert_eq!(DataBits::from_str("7"), Ok(DataBits::Seven));
    assert_eq!(DataBits::from_str("8"), Ok(DataBits::Eight));
    assert_eq!(DataBits::from_str("9"), Err(InvalidOption::DataBits));
    assert_eq!(DataBits::from_str(""), Err(InvalidOption::DataBits));
    assert_eq!(DataBits::from_str("58"), Err(InvalidOption::DataBits));
    assert_eq!(DataBits::from_str("eight"), Err(InvalidOption::DataBits));
}

#[test]
fn flow_control_words() {
    assert_eq!(FlowControl::from_str("hardware"), Ok(FlowControl::Hardware));
    assert_eq!(FlowControl::from_str("HW"), Ok(FlowControl::Hardware));
    assert_eq!(FlowControl::from_str("Software"), Ok(FlowControl::Software));
    assert_eq!(FlowControl::from_str("sw"), Ok(FlowControl::Software));
    assert_eq!(FlowControl::from_str("None"), Ok(FlowControl::Off));
    assert_eq!(FlowControl::from_str("off"), Err(InvalidOption::FlowControl));
    assert_eq!(FlowControl::from_str("h"), Err(InvalidOption::FlowControl));
}

#[test]
fn parity_words() {
    assert_eq!(Parity::from_str("none"), Ok(Parity::Off));
    assert_eq!(Parity::from_str("ODD"), Ok(Parity::Odd));
    assert_eq!(Parity::from_str("Even"), Ok(Parity::Even));
    assert_eq!(Parity::from_str("mark"), Err(InvalidOption::Parity));
}

#[test]
fn stop_bits_words() {
    assert_eq!(StopBits::from_str("1"), Ok(StopBits::One));
    assert_eq!(StopBits::from_str("One"), Ok(StopBits::One));
    assert_eq!(StopBits::from_str("2"), Ok(StopBits::Two));
    assert_eq!(StopBits::from_str("TWO"), Ok(StopBits::Two));
    assert_eq!(StopBits::from_str("3"), Err(InvalidOption::StopBits));
}

#[test]
fn sink_mode_words() {
    assert_eq!(SinkMode::from_str("stdout"), Ok(SinkMode::Stdout));
    assert_eq!(SinkMode::from_str("ITERM"), Ok(SinkMode::Iterm));
    assert_eq!(SinkMode::from_str("Lines"), Ok(SinkMode::Lines));
    assert_eq!(SinkMode::from_str("file"), Ok(SinkMode::File));
    assert_eq!(SinkMode::from_str("tty"), Err(InvalidOption::SinkMode));
    assert_eq!(SinkMode::from_str(&Args::default().mode), Ok(SinkMode::Stdout));
}

#[test]
fn invalid_option_messages() {
    assert_eq!(InvalidOption::DataBits.message(), "Data bits option passed an invalid value");
    assert_eq!(
        InvalidOption::FlowControl.message(),
        "Flow Control option passed an invalid value"
    );
    assert_eq!(InvalidOption::Parity.message(), "Parity option passed an invalid value");
    assert_eq!(InvalidOption::StopBits.message(), "Stop Bits option passed an invalid value");
    assert_eq!(InvalidOption::SinkMode.message(), "Invalid serial mode passed");
}

#[test]
fn only_port_needs_exactly_one() {
    assert_eq!(only_port(vec![]), None);
    assert_eq!(only_port(vec!["/dev/ttyUSB0".to_string()]), Some("/dev/ttyUSB0".to_string()));
    assert_eq!(only_port(vec!["COM1".to_string(), "COM2".to_string()]), None);
}

#[test]
fn case_folding_is_ascii_only() {
    assert!(eq_ignoring_case("", ""));
    assert!(eq_ignoring_case("AbC9", "aBc9"));
    assert!(!eq_ignoring_case("abc", "abcd"));
    assert!(!eq_ignoring_case("@", "`"));
    assert!(!eq_ignoring_case("[", "{"));
    assert!(!eq_ignoring_case("\u{c9}", "\u{e9}"));
    assert!(!eq_ignoring_case("\u{212a}", "k"));
    assert!(eq_ignoring_case("\u{e9}t\u{e9}", "\u{e9}T\u{e9}"));
}
