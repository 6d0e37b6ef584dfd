//! The ways a session's codec can fail, and how each one reads.

use vstd::prelude::*;
use vstd::string::StringExecFns;

verus! {

/// A codec failure that ends a session.
#[derive(Debug, Clone, Copy, PartialEq, Eq, Structural)]
pub enum Error {
    LibInit,
    KeyInit,
    HeaderInit,
    EncryptionStreamInit,
    DecryptionStreamInit,
    EncryptMsg,
    /// Authentication failed on a frame: its 1-based index, its length, and
    /// the plaintext bytes forwarded before it.
    DecryptMsg(usize, usize, usize),
}

/// The character of a decimal digit.
pub open spec fn digit_char(d: nat) -> char
    recommends
        d < 10,
{
    seq!['0', '1', '2', '3', '4', '5', '6', '7', '8', '9'][d as int]
}

/// The decimal digits of `n`, most significant first, with no leading zero.
pub open spec fn decimal(n: nat) -> Seq<char>
    decreases n,
{
    if n < 10 {
        seq![digit_char(n)]
    } else {
        decimal(n / 10) + seq![digit_char(n % 10)]
    }
}

/// The one-character string of a decimal digit.
fn digit_str(d: usize) -> (r: &'static str)
    requires
        d < 10,
    ensures
        r@ == seq![digit_char(d as nat)],
{
    proof {
        reveal_strlit("0");
        reveal_strlit("1");
        reveal_strlit("2");
        reveal_strlit("3");
        reveal_strlit("4");
        reveal_strlit("5");
        reveal_strlit("6");
        reveal_strlit("7");
        reveal_strlit("8");
        reveal_strlit("9");
    }
    let r = if d == 0 {
        "0"
    } else if d == 1 {
        "1"
    } else if d == 2 {
        "2"
    } else if d == 3 {
        "3"
    } else if d == 4 {
        "4"
    } else if d == 5 {
        "5"
    } else if d == 6 {
        "6"
    } else if d == 7 {
        "7"
    } else if d == 8 {
        "8"
    } else {
        "9"
    };
    assert(r@ =~= seq![digit_char(d as nat)]);
    r
}

/// Appends the decimal digits of `n` to `s`.
fn append_decimal(s: &mut String, n: usize)
    ensures
        final(s)@ == old(s)@ + decimal(n as nat),
    decreases n,
{
    if n >= 10 {
        append_decimal(s, n / 10);
    }
    s.append(digit_str(n % 10));
    proof {
        if n >= 10 {
            assert(old(s)@ + decimal(n as nat) =~= old(s)@ + decimal((n / 10) as nat) + seq![
                digit_char((n % 10) as nat),
            ]);
        }
    }
}

/// The decimal digits of `n`.
pub(crate) fn decimal_string(n: usize) -> (r: String)
    ensures
        r@ == decimal(n as nat),
{
    let mut s = String::new();
    append_decimal(&mut s, n);
    proof {
        assert(Seq::<char>::empty() + decimal(n as nat) =~= decimal(n as nat));
    }
    s
}

/// What an error says, in words.
pub open spec fn error_text(e: Error) -> Seq<char> {
    match e {
        Error::LibInit => "failed to initialize Sodiumoxide crypto library"@,
        Error::KeyInit => "failed to initialize secret key from byte slice"@,
        Error::HeaderInit => "failed to initialize stream header from byte slice"@,
        Error::EncryptionStreamInit => "failed to initialize encryption stream"@,
        Error::DecryptionStreamInit => "failed to initialize decryption stream"@,
        Error::EncryptMsg => "encryption failed for message"@,
        Error::DecryptMsg(seq, len, bytes) => "decryption failed for message "@ + decimal(
            seq as nat,
        ) + " (size "@ + decimal(len as nat) + "), successful_bytes "@ + decimal(bytes as nat),
    }
}

impl Error {
    /// The error in words.
    pub fn message(&self) -> (r: String)
        ensures
            r@ == error_text(*self),
    {
        match self {
            Error::LibInit => String::from_str("failed to initialize Sodiumoxide crypto library"),
            Error::KeyInit => String::from_str("failed to initialize secret key from byte slice"),
            Error::HeaderInit => String::from_str(
                "failed to initialize stream header from byte slice",
            ),
            Error::EncryptionStreamInit => String::from_str(
                "failed to initialize encryption stream",
            ),
            Error::DecryptionStreamInit => String::from_str(
                "failed to initialize decryption stream",
            ),
            Error::EncryptMsg => String::from_str("encryption failed for message"),
            Error::DecryptMsg(seq, len, bytes) => {
                let mut s = String::from_str("decryption failed for message ");
                let d = decimal_string(*seq);
                s.append(d.as_str());
                s.append(" (size ");
                let d = decimal_string(*len);
                s.append(d.as_str());
                s.append("), successful_bytes ");
                let d = decimal_string(*bytes);
                s.append(d.as_str());
                s
            },
        }
    }
}

} // verus!
