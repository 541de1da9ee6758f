//! How a run proceeds around its work: what has to hold before the first
//! event, whether it is recorded, and how its event stream is framed.
//!
//! A run settles everything that could refuse it before its stream
//! opens, so a refused run writes nothing to the output stream. The
//! stream then always opens with the run's start and closes with its
//! end, which carries the totals of what was reported in between.

use vstd::prelude::*;
use crate::cli::{Command, LedgerAction};
use crate::event::{Counts, Diagnostic, Event, Level, observed, room_for};
use crate::runlog::{Destination, mandatory_spec};
use crate::session::Outcome;

verus! {

/// What a run has to settle before its stream opens.
#[derive(Debug, Clone, PartialEq, Eq)]
pub enum Preparation {
    /// Nothing: the command cannot be refused.
    Unchecked,
    /// Rebuild the ledger of the collection at `root`.
    RebuildLedger { root: String },
    /// Report on the cache at `root`, emptying it first when `clear`.
    ReportCache { root: String, clear: bool },
    /// Compile the templates for `paths`' directories, and read the
    /// ledger when `reads_ledger`: a bibliography run admits nothing to
    /// a collection, so it has no use for one.
    Group { paths: Vec<String>, reads_ledger: bool },
}

/// Whether `d` is an error carrying `message`.
pub open spec fn is_error(d: Diagnostic, message: Seq<char>) -> bool {
    d.level == Level::Error && d.message@ == message
}

/// What `command` has to settle before its stream opens, given the
/// collection the run is in and the cache directory the system names:
/// `ledger rebuild` needs a collection and `cache` a cache directory,
/// and is refused without one; `rename` and `bib` compile templates,
/// and `rename` alone reads the ledger; `resolve` and `config` settle
/// nothing.
pub fn preparation(
    command: &Command,
    collection_root: &Option<String>,
    cache_root: &Option<String>,
) -> (r: Result<Preparation, Diagnostic>)
    ensures
        match *command {
            Command::Resolve { .. } | Command::Config { .. } => r == Ok::<
                Preparation,
                Diagnostic,
            >(Preparation::Unchecked),
            Command::Ledger { .. } => match *collection_root {
                Some(root) => r == Ok::<Preparation, Diagnostic>(
                    Preparation::RebuildLedger { root },
                ),
                None => r matches Err(d) && is_error(
                    d,
                    "this directory is in no collection, so there is no ledger to rebuild"@,
                ),
            },
            Command::Cache { clear, .. } => match *cache_root {
                Some(root) => r == Ok::<Preparation, Diagnostic>(
                    Preparation::ReportCache { root, clear },
                ),
                None => r matches Err(d) && is_error(d, "this system names no cache directory"@),
            },
            Command::Rename { paths, .. } => r matches Ok(Preparation::Group { paths: p, reads_ledger })
                && p@ == paths@ && reads_ledger,
            Command::Bib { paths, .. } => r matches Ok(Preparation::Group { paths: p, reads_ledger })
                && p@ == paths@ && !reads_ledger,
        },
{
    match command {
        Command::Resolve { .. } | Command::Config { .. } => Ok(Preparation::Unchecked),
        Command::Ledger { .. } => match collection_root {
            Some(root) => Ok(Preparation::RebuildLedger { root: root.clone() }),
            None => Err(crate::run::outside_collection()),
        },
        Command::Cache { clear, .. } => match cache_root {
            Some(root) => Ok(Preparation::ReportCache { root: root.clone(), clear: *clear }),
            None => Err(crate::run::no_cache_directory()),
        },
        Command::Rename { paths, .. } => Ok(
            Preparation::Group { paths: crate::config::copy_strings(paths), reads_ledger: true },
        ),
        Command::Bib { paths, .. } => Ok(
            Preparation::Group { paths: crate::config::copy_strings(paths), reads_ledger: false },
        ),
    }
}

/// The message a run log that could not be opened is reported with.
pub open spec fn unwritable_text(path: Seq<char>, failure: Seq<char>) -> Seq<char> {
    "the run log \""@ + path + "\" could not be written: "@ + failure
}

/// Whether `d` reports the run log at `destination` unopened for
/// `failure`: an error when the run depends on its log, a warning when
/// it does not.
pub open spec fn is_log_failure(d: Diagnostic, destination: Destination, failure: Seq<char>) -> bool {
    &&& d.level == (if destination.mandatory {
        Level::Error
    } else {
        Level::Warning
    })
    &&& d.message@ == unwritable_text(destination.path@, failure)
}

/// What `r` has to write on the error stream.
pub open spec fn written(r: Result<(Vec<Diagnostic>, bool), (Vec<Diagnostic>, Outcome)>) -> Seq<Diagnostic> {
    match r {
        Ok((ds, _)) => ds@,
        Err((ds, _)) => ds@,
    }
}

/// Whether `r` is how a run opens after its checks answered `preflight`
/// and, when there is somewhere to record it, its log opened as
/// `opened` says.
///
/// A failed check refuses the run with that one diagnostic. Otherwise
/// what the checks had to say comes first. An applying run with
/// nowhere to record itself is refused; so is one whose log could not
/// be opened, while a log the run does not depend on only adds a
/// warning. A run that goes ahead says whether its log is open.
pub open spec fn opens_as(
    preflight: Result<Option<Diagnostic>, Diagnostic>,
    command: Command,
    destination: Option<Destination>,
    opened: Option<Result<(), String>>,
    r: Result<(Vec<Diagnostic>, bool), (Vec<Diagnostic>, Outcome)>,
) -> bool {
    match preflight {
        Err(d) => r matches Err((ds, o)) && ds@ == seq![d] && o == Outcome::Fatal,
        Ok(warning) => {
            let said: Seq<Diagnostic> = match warning {
                Some(w) => seq![w],
                None => Seq::empty(),
            };
            match destination {
                None => if mandatory_spec(command) {
                    r matches Err((ds, o)) && o == Outcome::Fatal && ds@.len() == said.len() + 1
                        && ds@.take(said.len() as int) == said && is_error(
                        ds@.last(),
                        crate::run::NOWHERE_TO_RECORD@,
                    )
                } else {
                    r matches Ok((ds, logging)) && ds@ == said && !logging
                },
                Some(dest) => match opened {
                    Some(Ok(_)) => r matches Ok((ds, logging)) && ds@ == said && logging,
                    Some(Err(failure)) => {
                        &&& dest.mandatory ==> (r matches Err((_, o)) && o == Outcome::Fatal)
                        &&& !dest.mandatory ==> (r matches Ok((_, logging)) && !logging)
                        &&& written(r).len() == said.len() + 1
                        &&& written(r).take(said.len() as int) == said
                        &&& is_log_failure(written(r).last(), dest, failure@)
                    },
                    None => false,
                },
            }
        },
    }
}

/// How a run opens: refused with what to write on the error stream, or
/// going ahead with what to write there first and whether its log is
/// open. `preflight` is what the run's checks answered; `destination`
/// is where the run is recorded, if anywhere; `opened` is how opening
/// the log there went, asked only when the checks passed and there is
/// a destination.
pub fn opening(
    preflight: Result<Option<Diagnostic>, Diagnostic>,
    command: &Command,
    destination: &Option<Destination>,
    opened: Option<Result<(), String>>,
) -> (r: Result<(Vec<Diagnostic>, bool), (Vec<Diagnostic>, Outcome)>)
    requires
        preflight is Ok && destination is Some ==> opened is Some,
    ensures
        opens_as(preflight, *command, *destination, opened, r),
{
    let warning = match preflight {
        Err(d) => {
            let mut ds: Vec<Diagnostic> = Vec::new();
            ds.push(d);
            return Err((ds, Outcome::Fatal));
        },
        Ok(w) => w,
    };
    let ghost said: Seq<Diagnostic> = match &warning {
        Some(w) => seq![*w],
        None => Seq::empty(),
    };
    let mut ds: Vec<Diagnostic> = Vec::new();
    match warning {
        Some(w) => ds.push(w),
        None => {},
    }
    assert(ds@ =~= said);
    match destination {
        None => {
            if crate::runlog::mandatory(command) {
                ds.push(crate::run::nowhere_to_record());
                assert(ds@.take(said.len() as int) =~= said);
                Err((ds, Outcome::Fatal))
            } else {
                Ok((ds, false))
            }
        },
        Some(dest) => match opened {
            Some(Ok(_)) => Ok((ds, true)),
            Some(Err(failure)) => {
                let message = crate::run::log_unwritable(dest.path.as_str(), failure.as_str());
                ds.push(crate::run::log_failure(dest.mandatory, message));
                assert(ds@.take(said.len() as int) =~= said);
                if dest.mandatory {
                    Err((ds, Outcome::Fatal))
                } else {
                    Ok((ds, false))
                }
            },
            None => {
                proof {
                    assert(false);
                }
                Ok((ds, false))
            },
        },
    }
}

/// The totals of `events`: each folded in, in order.
pub open spec fn counted(events: Seq<Event>) -> Counts
    decreases events.len(),
{
    if events.len() == 0 {
        Counts { resolved: 0, renamed: 0, skipped: 0, unmatched: 0 }
    } else {
        observed(counted(events.drop_last()), events.last())
    }
}

/// The outcome of a run that reported events totalling `counts`.
pub open spec fn outcome_of(counts: Counts) -> Outcome {
    if counts.skipped > 0 {
        Outcome::Partial
    } else {
        Outcome::Success
    }
}

/// A run's event stream while it is open: what it opened with, and the
/// totals of what has been reported since.
pub struct Stream {
    started: Ghost<Event>,
    reported: Ghost<Seq<Event>>,
    counts: Counts,
}

impl Stream {
    #[verifier::type_invariant]
    spec fn totals_kept(self) -> bool {
        self.counts == counted(self.reported@)
    }

    /// The event the stream opened with.
    pub closed spec fn first(self) -> Event {
        self.started@
    }

    /// Everything reported since the stream opened, in order.
    pub closed spec fn reported(self) -> Seq<Event> {
        self.reported@
    }

    /// Open a run's stream with `started`, the event to write first.
    pub fn open(started: &Event) -> (s: Stream)
        requires
            started is RunStarted,
        ensures
            s.first() == *started,
            s.reported() == Seq::<Event>::empty(),
    {
        Stream {
            started: Ghost(*started),
            reported: Ghost(Seq::empty()),
            counts: Counts { resolved: 0, renamed: 0, skipped: 0, unmatched: 0 },
        }
    }

    /// Whether `event` can be reported without a total running past
    /// what it can hold.
    pub fn has_room(&self, event: &Event) -> (r: bool)
        ensures
            r == room_for(counted(self.reported()), *event),
    {
        proof {
            use_type_invariant(self);
        }
        match event {
            Event::Resolved { .. } => self.counts.resolved < usize::MAX,
            Event::Renamed { .. } => self.counts.renamed < usize::MAX,
            Event::Skipped { .. } => self.counts.skipped < usize::MAX,
            Event::LookupMissed { .. } => self.counts.unmatched < usize::MAX,
            _ => true,
        }
    }

    /// Report `event`, written to the stream now.
    pub fn report(&mut self, event: &Event)
        requires
            room_for(counted(old(self).reported()), *event),
        ensures
            final(self).first() == old(self).first(),
            final(self).reported() == old(self).reported().push(*event),
    {
        proof {
            use_type_invariant(&*self);
        }
        let mut counts = self.counts;
        counts.observe(event);
        let ghost next = self.reported@.push(*event);
        assert(next.drop_last() =~= self.reported@);
        *self = Stream { started: self.started, reported: Ghost(next), counts };
    }

    /// Close the stream: the event to write last, which carries the
    /// totals of everything reported, and the run's outcome.
    pub fn close(self) -> (r: (Event, Outcome))
        ensures
            r.0 == (Event::RunFinished { counts: counted(self.reported()) }),
            r.1 == outcome_of(counted(self.reported())),
    {
        proof {
            use_type_invariant(&self);
        }
        let counts = self.counts;
        (Event::RunFinished { counts }, crate::session::outcome_for(&counts))
    }
}

} // verus!
