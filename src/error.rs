use vstd::prelude::*;

verus! {

/// Everything that can stop a run.
#[derive(Debug, Clone, Copy, PartialEq, Eq, Structural)]
pub enum Error {
    /// The project folder could not be read.
    WrongFile(),
    /// The coverage report is not valid JSON.
    WrongJSONFile(),
    /// A coverage entry or a scope field does not have the expected shape.
    ConversionError(),
    /// A required key (the project root of a covdir report) is absent.
    HashMapError(),
    /// The coverage report lacks its list of source files.
    ReadingJSONError(),
    /// The structural analysis of a file failed.
    MetricsError(),
    /// The language of a file could not be recognized.
    LanguageError(),
    /// Writing an output file failed.
    WritingError(),
    /// A worker thread panicked.
    ConcurrentError(),
    /// The coverage format is not one of coveralls and covdir.
    TypeError(),
    /// A path could not be rendered as text.
    PathConversionError(),
    /// A lock was poisoned by an earlier panic.
    MutexError(),
    /// The threshold vector does not hold exactly four values.
    ThresholdsError(),
    /// A channel send failed because the receiver was gone.
    SenderError(),
    /// An exact sum or product does not fit the integer type that holds it.
    OverflowError(),
}

} // verus!
