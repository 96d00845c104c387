//! Configuration and admission errors, and their texts.

use vstd::prelude::*;
use vstd::string::*;

verus! {

/// The character of a decimal digit.
pub open spec fn digit_char(digit: nat) -> char {
    (48 + digit) as char
}

/// A number in decimal notation.
pub open spec fn decimal(number: nat) -> Seq<char>
    decreases number,
{
    if number < 10 {
        seq![digit_char(number)]
    } else {
        decimal(number / 10).push(digit_char(number % 10))
    }
}

/// The text of a decimal digit.
fn digit_text(digit: u128) -> (text: &'static str)
    requires
        digit < 10,
    ensures
        text@ == seq![digit_char(digit as nat)],
{
    proof {
        reveal_strlit("0");
        reveal_strlit("1");
        reveal_strlit("2");
        reveal_strlit("3");
        reveal_strlit("4");
        reveal_strlit("5");
        reveal_strlit("6");
        reveal_strlit("7");
        reveal_strlit("8");
        reveal_strlit("9");
    }
    let text = if digit == 0 {
        "0"
    } else if digit == 1 {
        "1"
    } else if digit == 2 {
        "2"
    } else if digit == 3 {
        "3"
    } else if digit == 4 {
        "4"
    } else if digit == 5 {
        "5"
    } else if digit == 6 {
        "6"
    } else if digit == 7 {
        "7"
    } else if digit == 8 {
        "8"
    } else {
        "9"
    };
    assert(text@ =~= seq![digit_char(digit as nat)]);
    text
}

/// Appends `number` in decimal notation.
pub fn append_decimal(text: &mut String, number: u128)
    ensures
        final(text)@ == old(text)@ + decimal(number as nat),
    decreases number,
{
    if number >= 10 {
        append_decimal(text, number / 10);
    }
    text.append(digit_text(number % 10));
    assert(text@ =~= old(text)@ + decimal(number as nat));
}

/// Why a connection was not registered.
#[derive(Clone, Copy, Debug, PartialEq, Eq, Structural)]
pub enum RegisterClientError {
    /// The source address holds all its connection slots.
    IpLimitExceeded { current: usize, limit: usize },
    /// The server holds all its connection slots.
    CapacityExceeded { current: usize, limit: usize },
    /// The server admits nobody any more.
    ServerDraining,
}

impl RegisterClientError {
    pub open spec fn text(self) -> Seq<char> {
        match self {
            RegisterClientError::IpLimitExceeded { current, limit } =>
                "Too many connections from your IP ("@ + decimal(current as nat) + "/"@ + decimal(
                    limit as nat,
                ) + ")"@,
            RegisterClientError::CapacityExceeded { current, limit } =>
                "Server connection limit exceeded ("@ + decimal(current as nat) + "/"@ + decimal(
                    limit as nat,
                ) + ")"@,
            RegisterClientError::ServerDraining => "Server is draining for shutdown"@,
        }
    }

    /// The text a client is shown.
    pub fn message(&self) -> (message: String)
        ensures
            message@ == self.text(),
    {
        match self {
            RegisterClientError::IpLimitExceeded { current, limit } => {
                let mut message = "Too many connections from your IP (".to_owned();
                append_decimal(&mut message, *current as u128);
                message.append("/");
                append_decimal(&mut message, *limit as u128);
                message.append(")");
                message
            },
            RegisterClientError::CapacityExceeded { current, limit } => {
                let mut message = "Server connection limit exceeded (".to_owned();
                append_decimal(&mut message, *current as u128);
                message.append("/");
                append_decimal(&mut message, *limit as u128);
                message.append(")");
                message
            },
            RegisterClientError::ServerDraining => "Server is draining for shutdown".to_owned(),
        }
    }
}

/// A game has as many rooms as it may have.
#[derive(Debug)]
pub struct MaxRoomsPerGameExceededError {
    pub game_name: String,
    pub current: usize,
    pub limit: usize,
}

impl MaxRoomsPerGameExceededError {
    /// The text a client is shown.
    pub fn message(&self) -> (message: String)
        ensures
            message@ == "Game `"@ + self.game_name@ + "` already has "@ + decimal(
                self.current as nat,
            ) + " rooms (limit "@ + decimal(self.limit as nat) + ")"@,
    {
        let mut message = "Game `".to_owned();
        message.append(self.game_name.as_str());
        message.append("` already has ");
        append_decimal(&mut message, self.current as u128);
        message.append(" rooms (limit ");
        append_decimal(&mut message, self.limit as u128);
        message.append(")");
        message
    }
}

/// An application has as many rooms as it may have.
#[derive(Clone, Copy, Debug, PartialEq, Eq, Structural)]
pub struct MaxRoomsPerApplicationExceededError {
    pub current: usize,
    pub limit: usize,
}

impl MaxRoomsPerApplicationExceededError {
    /// The text a client is shown.
    pub fn message(&self) -> (message: String)
        ensures
            message@ == "Application already has "@ + decimal(self.current as nat)
                + " rooms (limit "@ + decimal(self.limit as nat) + ")"@,
    {
        let mut message = "Application already has ".to_owned();
        append_decimal(&mut message, self.current as u128);
        message.append(" rooms (limit ");
        append_decimal(&mut message, self.limit as u128);
        message.append(")");
        message
    }
}

/// A room was requested with more seats than its application may have.
#[derive(Clone, Copy, Debug, PartialEq, Eq, Structural)]
pub struct MaxPlayersPerApplicationExceededError {
    pub requested: u8,
    pub limit: u8,
}

impl MaxPlayersPerApplicationExceededError {
    /// The text a client is shown.
    pub fn message(&self) -> (message: String)
        ensures
            message@ == "Requested room capacity "@ + decimal(self.requested as nat)
                + " exceeds the application limit "@ + decimal(self.limit as nat),
    {
        let mut message = "Requested room capacity ".to_owned();
        append_decimal(&mut message, self.requested as u128);
        message.append(" exceeds the application limit ");
        append_decimal(&mut message, self.limit as u128);
        message
    }
}

/// Why a server is not made with a configuration.
#[derive(Clone, Copy, Debug, PartialEq, Eq, Structural)]
pub enum ServerConfigError {
    /// Nobody could join a room whose generated code has the configured prefix.
    RoomCodePrefixNotAlphanumeric,
}

impl ServerConfigError {
    pub open spec fn text(self) -> Seq<char> {
        match self {
            ServerConfigError::RoomCodePrefixNotAlphanumeric =>
                "server.room_code_prefix must contain only ASCII alphanumeric characters"@,
        }
    }

    /// The text the error is reported with.
    pub fn message(&self) -> (message: String)
        ensures
            message@ == self.text(),
    {
        match self {
            ServerConfigError::RoomCodePrefixNotAlphanumeric =>
                "server.room_code_prefix must contain only ASCII alphanumeric characters".to_owned(),
        }
    }
}

/// The number a run of decimal digits stands for.
pub open spec fn decimal_value(digits: Seq<char>) -> nat
    decreases digits.len(),
{
    if digits.len() == 0 {
        0
    } else {
        10 * decimal_value(digits.drop_last()) + (digits.last() as nat - 48) as nat
    }
}

/// A number in decimal notation reads back as itself, in digits alone, without a
/// leading zero.
pub proof fn law_decimals_read_back(number: nat)
    ensures
        decimal_value(decimal(number)) == number,
        decimal(number).len() >= 1,
        forall|i: int|
            0 <= i < decimal(number).len() ==> '0' <= #[trigger] decimal(number)[i] <= '9',
        number > 0 ==> decimal(number)[0] != '0',
    decreases number,
{
    reveal_with_fuel(decimal_value, 2);
    if number < 10 {
        assert(decimal(number).drop_last() =~= Seq::<char>::empty());
    } else {
        let shorter = decimal(number / 10);
        law_decimals_read_back(number / 10);
        assert(decimal(number).drop_last() =~= shorter);
        assert forall|i: int| 0 <= i < decimal(number).len() implies '0'
            <= #[trigger] decimal(number)[i] <= '9' by {
            if i < shorter.len() {
                assert(decimal(number)[i] == shorter[i]);
            }
        }
        assert(decimal(number)[0] == shorter[0]);
    }
}

} // verus!
