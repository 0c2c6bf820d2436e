use vstd::prelude::*;

verus! {

/// The service that a compatible peripheral advertises.
pub const UART_SERVICE_UUID: u128 = 0x6e400001_b5a3_f393_e0a9_e50e24dcca9e;

/// The characteristic that the client writes to.
pub const UART_TX_CHAR_UUID: u128 = 0x6e400002_b5a3_f393_e0a9_e50e24dcca9e;

/// The characteristic whose notifications carry the peripheral's replies.
pub const UART_RX_CHAR_UUID: u128 = 0x6e400003_b5a3_f393_e0a9_e50e24dcca9e;

/// The signal strength recorded for a peripheral that reports none.
pub const INVALID_RSSI: i16 = -32768;

/// The character that marks an outbound text as a command.
pub const COMMAND_PREFIX: char = '!';

/// How an outbound text is written and whether a reply is awaited.
#[derive(Clone, Copy, Debug, PartialEq, Eq, Structural)]
pub enum MessageKind {
    /// Written with acknowledgement; exactly one reply is awaited.
    Command,
    /// Written without acknowledgement; no reply is awaited.
    Plain,
}

/// A text is a command exactly when its first character is the prefix.
pub open spec fn kind_of(t: Seq<char>) -> MessageKind {
    if t.len() > 0 && t[0] == COMMAND_PREFIX {
        MessageKind::Command
    } else {
        MessageKind::Plain
    }
}

/// Classifies an outbound text by its first character.
pub fn classify(text: &str) -> (r: MessageKind)
    ensures
        r == kind_of(text@),
{
    if text.unicode_len() > 0 && text.get_char(0) == COMMAND_PREFIX {
        MessageKind::Command
    } else {
        MessageKind::Plain
    }
}

/// Classification reads the first character only: two texts with the same
/// first character have the same kind, and so have two empty texts.
pub proof fn lemma_kind_by_first_char(a: Seq<char>, b: Seq<char>)
    requires
        (a.len() == 0 && b.len() == 0) || (a.len() > 0 && b.len() > 0 && a[0] == b[0]),
    ensures
        kind_of(a) == kind_of(b),
{
}

/// Every text that starts with the prefix is a command; every other text is
/// a plain message.
pub proof fn lemma_kind_cases(t: Seq<char>)
    ensures
        t.len() > 0 && t[0] == COMMAND_PREFIX ==> kind_of(t) == MessageKind::Command,
        !(t.len() > 0 && t[0] == COMMAND_PREFIX) ==> kind_of(t) == MessageKind::Plain,
{
}

} // verus!
