//! One run: a reference instant, shifted once, and the samples held against it.

use vstd::prelude::*;
use vstd::string::StringExecFns;
use crate::comparator::{compare, Comparator};
use crate::duration::Duration;
use crate::error::Error;
use crate::instant::{lemma_moderate_span_applies, shifted, Instant};
use crate::parser::{parse, parse_duration};
use crate::timestamp::{effective_format, format_used, parse_timestamp, reference_instant};

verus! {

/// What is known of the path that the sample argument may name.
#[derive(Clone, Copy, Debug, PartialEq, Eq, Structural)]
pub enum PathState {
    /// No file is there.
    Missing,
    /// A file is there and can be read.
    Readable,
    /// A file is there and cannot be read.
    Unreadable,
}

/// Where the samples come from.
#[derive(Clone, Copy, Debug, PartialEq, Eq, Structural)]
pub enum SourceKind {
    /// No argument was given: each line of standard input is a sample.
    StandardInput,
    /// The argument names a file: each of its lines is a sample.
    File,
    /// The argument is itself the one sample.
    Literal,
}

/// Where the samples come from, given the sample argument, if any, and
/// what is known of the path it may name.
pub open spec fn source_for(argument_given: bool, path: PathState) -> Result<SourceKind, Error> {
    if !argument_given {
        Ok(SourceKind::StandardInput)
    } else {
        match path {
            PathState::Missing => Ok(SourceKind::Literal),
            PathState::Readable => Ok(SourceKind::File),
            PathState::Unreadable => Err(Error::FileNotReadable),
        }
    }
}

/// Decides where the samples come from. Without an argument they are read
/// from standard input, and `path` is not looked at. An argument that names
/// a file stands for the lines of that file, and it is an error if the file
/// cannot be read; any other argument is taken as the one sample.
pub fn select_source(argument: Option<&str>, path: PathState) -> (r: Result<SourceKind, Error>)
    ensures
        r == source_for(argument is Some, path),
{
    match argument {
        None => Ok(SourceKind::StandardInput),
        Some(_) => match path {
            PathState::Missing => Ok(SourceKind::Literal),
            PathState::Readable => Ok(SourceKind::File),
            PathState::Unreadable => Err(Error::FileNotReadable),
        },
    }
}

/// Whether `read` is something that reading `sample` in `format` may
/// give: an instant that a calendar reads, or the error that names the
/// sample and the format.
pub open spec fn is_reading_of(read: Result<Instant, Error>, sample: Seq<char>, format: Seq<char>) -> bool {
    match read {
        Ok(t) => t@.is_nameable(),
        Err(e) => e matches Error::TimestampParseError { text: t, format: f } && t@ == sample && f@
            == format,
    }
}

/// A run that is ready for its samples: the reference instant with the
/// offset already applied, the relation asked for, and the format that
/// samples are read in.
#[derive(Clone, Debug, PartialEq, Eq)]
pub struct Session {
    pub reference: Instant,
    pub op: Comparator,
    pub format: String,
}

impl Session {
    /// A run against `reference` shifted by `offset`. The offset is applied
    /// here, once; every sample is then held against the same instant.
    pub fn new(reference: Instant, offset: &Duration, op: Comparator, format: &str) -> (r: Result<
        Session,
        Error,
    >)
        ensures
            match shifted(reference@, offset@) {
                Some(t) => r matches Ok(s) && s.reference@ == t && s.op == op && s.format@
                    == format@,
                None => r matches Err(e) && e == Error::ArithmeticOverflow,
            },
    {
        match reference.offset_by(offset) {
            Ok(moved) => Ok(Session { reference: moved, op, format: String::from_str(format) }),
            Err(e) => Err(e),
        }
    }

    /// Whether `sample` stands in the relation asked for to the shifted reference.
    pub fn verdict(&self, sample: Instant) -> (r: bool)
        ensures
            r == self.op.holds(sample@, self.reference@),
    {
        compare(sample, self.reference, self.op)
    }

    /// What the run makes of readings taken in order: the verdicts on the
    /// instants read before the first error, and that error, if there is
    /// one. Readings after an error count for nothing.
    pub open spec fn tally(&self, readings: Seq<Result<Instant, Error>>) -> (Seq<bool>, Option<Error>)
        decreases readings.len(),
    {
        if readings.len() == 0 {
            (Seq::empty(), None)
        } else {
            let before = self.tally(readings.drop_last());
            match (before.1, readings.last()) {
                (Some(_), _) => before,
                (None, Ok(t)) => (before.0.push(self.op.holds(t@, self.reference@)), None),
                (None, Err(e)) => (before.0, Some(e)),
            }
        }
    }

    /// Takes one reading into the record of the run: the verdict on an
    /// instant is added to `verdicts`; an error leaves them as they are and
    /// is handed back.
    pub fn record(&self, verdicts: &mut Vec<bool>, read: Result<Instant, Error>) -> (r: Option<Error>)
        ensures
            match read {
                Ok(t) => final(verdicts)@ == old(verdicts)@.push(
                    self.op.holds(t@, self.reference@),
                ) && r is None,
                Err(e) => final(verdicts)@ == old(verdicts)@ && r == Some(e),
            },
    {
        match read {
            Ok(t) => {
                verdicts.push(self.verdict(t));
                None
            },
            Err(e) => Some(e),
        }
    }

    /// What reading a sample comes to in this run: the verdict on the
    /// instant that was read, or the error that reading gave.
    pub fn verdict_on(&self, read: Result<Instant, Error>) -> (r: Result<bool, Error>)
        ensures
            match read {
                Ok(sample) => r == Ok::<bool, Error>(self.op.holds(sample@, self.reference@)),
                Err(e) => r == Err::<bool, Error>(e),
            },
    {
        match read {
            Ok(sample) => Ok(self.verdict(sample)),
            Err(e) => Err(e),
        }
    }

    /// Reads one sample in the format of the run and gives the verdict on
    /// it: whether the instant that the sample names stands in the relation
    /// asked for to the shifted reference. Which instant a sample names is
    /// for the calendar of the machine to say; it is one that a calendar
    /// reads. A sample that cannot be read
    /// is an error that names it and the format.
    pub fn check(&self, sample: &str) -> (r: Result<bool, Error>)
        ensures
            match r {
                Ok(verdict) => exists|t: Instant|
                    t@.is_nameable() && verdict == #[trigger] self.op.holds(t@, self.reference@),
                Err(e) => e matches Error::TimestampParseError { text: t, format: f } && t@
                    == sample@ && f@ == self.format@,
            },
    {
        let read = parse_timestamp(sample, self.format.as_str());
        let ghost named = read;
        let r = self.verdict_on(read);
        proof {
            if let Ok(t) = named {
                assert(r == Ok::<bool, Error>(self.op.holds(t@, self.reference@)));
            }
        }
        r
    }

    /// Gives the verdicts on `samples` in their order, up to the first one
    /// that cannot be read. The verdicts reached before that sample stand;
    /// the error names it. The result is the tally of what reading the
    /// samples gave, one after the other, no sample being read after one
    /// that failed.
    pub fn check_all(&self, samples: &Vec<String>) -> (r: (Vec<bool>, Option<Error>))
        ensures
            match r.1 {
                None => r.0@.len() == samples@.len(),
                Some(e) => r.0@.len() < samples@.len() && (e matches Error::TimestampParseError {
                    text: t,
                    format: f,
                } && t@ == samples@[r.0@.len() as int]@ && f@ == self.format@),
            },
            exists|readings: Seq<Result<Instant, Error>>|
                {
                    &&& readings.len() <= samples@.len()
                    &&& r.1 is None ==> readings.len() == samples@.len()
                    &&& forall|i: int|
                        0 <= i < readings.len() ==> is_reading_of(
                            #[trigger] readings[i],
                            samples@[i]@,
                            self.format@,
                        )
                    &&& #[trigger] self.tally(readings) == (r.0@, r.1)
                },
    {
        let mut verdicts: Vec<bool> = Vec::new();
        let ghost mut readings: Seq<Result<Instant, Error>> = Seq::empty();
        let mut i: usize = 0;
        while i < samples.len()
            invariant
                i <= samples.len(),
                verdicts@.len() == i,
                readings.len() == i,
                forall|k: int|
                    0 <= k < i ==> is_reading_of(#[trigger] readings[k], samples@[k]@, self.format@),
                self.tally(readings) == (verdicts@, None::<Error>),
            decreases samples.len() - i,
        {
            let read = parse_timestamp(samples[i].as_str(), self.format.as_str());
            proof {
                let before = readings;
                readings = readings.push(read);
                assert(readings.drop_last() =~= before);
                assert(readings.last() == read);
                assert forall|k: int| 0 <= k <= i implies is_reading_of(
                    #[trigger] readings[k],
                    samples@[k]@,
                    self.format@,
                ) by {
                    if k < i {
                        assert(readings[k] == before[k]);
                    }
                }
            }
            match self.record(&mut verdicts, read) {
                Some(e) => {
                    assert(self.tally(readings) == (verdicts@, Some(e)));
                    return (verdicts, Some(e));
                },
                None => {},
            }
            i = i + 1;
        }
        assert(self.tally(readings) == (verdicts@, None::<Error>));
        (verdicts, None)
    }
}

/// Makes a run ready: reads the offset, then the reference time, and
/// shifts the one by the other. The offset must be given. The format is
/// the one given or the default; the reference is `ref_time` read in that
/// format, or the present instant where none is given. A fault in the
/// offset is reported before any in the reference time. The reference of
/// the run is an instant that a calendar reads, shifted by the offset; it
/// is an overflow only where such an instant cannot be shifted so. Without
/// a reference time, an offset that reads and is moderate always makes a
/// run.
pub fn prepare(
    ref_time: Option<&str>,
    offset: Option<&str>,
    format: Option<&str>,
    op: Comparator,
) -> (r: Result<Session, Error>)
    ensures
        match offset {
            None => r matches Err(e) && e == Error::MissingRequiredArgument,
            Some(text) => match parse(text@) {
                Err(fault) => r matches Err(e) && e == fault,
                Ok(span) => match r {
                    Ok(s) => s.op == op && s.format@ == format_used(format) && exists|t: Instant|
                        t@.is_nameable() && #[trigger] shifted(t@, span) == Some(s.reference@),
                    Err(e) => (e == Error::ArithmeticOverflow && exists|t: Instant|
                        t@.is_nameable() && (#[trigger] shifted(t@, span)) is None) || (e matches Error::TimestampParseError {
                        text: t,
                        format: f,
                    } && ref_time matches Some(given) && t@ == given@ && f@ == format_used(format)),
                },
            },
        },
        (ref_time is None && offset is Some && parse((offset->Some_0)@) is Ok && parse(
            (offset->Some_0)@,
        )->Ok_0.is_moderate()) ==> r is Ok,
{
    let text = match offset {
        Some(text) => text,
        None => {
            return Err(Error::MissingRequiredArgument);
        },
    };
    let duration = match parse_duration(text) {
        Ok(d) => d,
        Err(e) => {
            return Err(e);
        },
    };
    let format = effective_format(format);
    let reference = match reference_instant(ref_time, format) {
        Ok(t) => t,
        Err(e) => {
            return Err(e);
        },
    };
    let r = Session::new(reference, &duration, op, format);
    proof {
        if duration@.is_moderate() {
            lemma_moderate_span_applies(reference@, duration@);
        }
        assert(reference@.is_nameable());
        let span = parse(text@)->Ok_0;
        assert(span == duration@);
        if r is Ok {
            assert(reference@.is_nameable() && shifted(reference@, span) == Some(
                r->Ok_0.reference@,
            ));
        } else {
            assert(reference@.is_nameable() && shifted(reference@, span) is None);
            assert(r->Err_0 == Error::ArithmeticOverflow);
        }
    }
    r
}

} // verus!
