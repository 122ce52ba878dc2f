//! The recognisers agree with nom's complete-input recognisers of the same
//! name on a spread of inputs.
use nom::error::Error as NomError;
use nom::IResult;
use openvpn_conf::text::{digit1, line_ending, not_line_ending, space1, tag, ParseError};

const INPUTS: [&str; 24] = [
    "", " ", "\t", "  \tx", "x", "\n", "\r", "\r\n", "\n\r", "\rx", "abc\n", "abc\r\n", "abc\rd",
    "abc", "123", "0123x", "9", "٣4", "é\n", "tun", "tu", "tunnel", " \n", "a\r\r\n",
];

fn same(ours: Result<(&str, &str), ParseError>, theirs: IResult<&str, &str, NomError<&str>>) {
    match (ours, theirs) {
        (Ok(a), Ok(b)) => assert_eq!(a, b),
        (Err(a), Err(nom::Err::Error(b))) => {
            assert_eq!(a.input, b.input);
            assert_eq!(format!("{:?}", a.code), format!("{:?}", b.code));
        }
        (a, b) => panic!("{:?} vs {:?}", a, b),
    }
}

#[test]
fn line_ending_agrees() {
    for i in INPUTS {
        same(line_ending(i), nom::character::complete::line_ending(i));
    }
}

#[test]
fn not_line_ending_agrees() {
    for i in INPUTS {
        same(not_line_ending(i), nom::character::complete::not_line_ending(i));
    }
}

#[test]
fn space1_agrees() {
    for i in INPUTS {
        same(space1(i), nom::character::complete::space1(i));
    }
}

#[test]
fn digit1_agrees() {
    for i in INPUTS {
        same(digit1(i), nom::character::complete::digit1(i));
    }
}

#[test]
fn tag_agrees() {
    for t in ["tun", "", "\n", "abc", "é"] {
        for i in INPUTS {
            same(tag(i, t), nom::bytes::complete::tag(t)(i));
        }
    }
}
