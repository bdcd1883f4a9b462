use vstd::prelude::*;

verus! {

/// The error type used by this library.
///
/// It hands on a failure of the SPI bus (`S`) or of the chip-select line
/// (`G`) unchanged, and adds the driver's own protocol errors.
#[derive(Debug, PartialEq, Eq)]
pub enum Error<S, G> {
    /// An SPI transfer failed.
    Spi(S),
    /// The chip-select line could not be driven.
    Gpio(G),
    /// The device is not of the expected type, or it is faulty.
    InvalidDevice,
    /// The driver or the device does not support the mode selected.
    InvalidMode,
}

impl<S, G> Error<S, G> {
    /// The text that `message` returns for this kind of error.
    pub open spec fn message_text(self) -> Seq<char> {
        match self {
            Error::Spi(_) => "SPI error"@,
            Error::Gpio(_) => "GPIO error"@,
            Error::InvalidDevice => "This is not the correct device for the driver or it is faulty"@,
            Error::InvalidMode => "The driver or device is not in the correct mode"@,
        }
    }

    /// A human-readable description of the kind of error. For `Spi` and
    /// `Gpio` it names the source only; the cause is the wrapped value.
    pub fn message(&self) -> (text: &'static str)
        ensures
            text@ == self.message_text(),
    {
        match self {
            Error::Spi(_) => "SPI error",
            Error::Gpio(_) => "GPIO error",
            Error::InvalidDevice => "This is not the correct device for the driver or it is faulty",
            Error::InvalidMode => "The driver or device is not in the correct mode",
        }
    }
}

/// Two errors with the same message are of the same kind: the four texts
/// are pairwise different.
pub proof fn lemma_message_tells_kind<S, G>(a: Error<S, G>, b: Error<S, G>)
    requires
        a.message_text() == b.message_text(),
    ensures
        a is Spi <==> b is Spi,
        a is Gpio <==> b is Gpio,
        a is InvalidDevice <==> b is InvalidDevice,
        a is InvalidMode <==> b is InvalidMode,
{
    reveal_strlit("SPI error");
    reveal_strlit("GPIO error");
    reveal_strlit("This is not the correct device for the driver or it is faulty");
    reveal_strlit("The driver or device is not in the correct mode");
    assert("SPI error"@.len() == 9);
    assert("GPIO error"@.len() == 10);
    assert("This is not the correct device for the driver or it is faulty"@.len() == 61);
    assert("The driver or device is not in the correct mode"@.len() == 47);
}

} // verus!
